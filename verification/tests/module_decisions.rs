use oveo::annotation::Annotation;
use oveo::comments::{
    annotation_for_content, build_comment_annotations, is_annotation_content, CommentAnnotation,
    CommentInfo,
};
use oveo::dedupe::DedupeState;
use oveo::expr_hash::{dedupe_hash, ArrayElement, HashKind, HashNode};
use oveo::externs::{
    ExternFunction, ExternFunctionArgument, ExternMap, ExternModule, ExternValue, IntrinsicFunction,
    INTRINSICS_MODULE_NAME,
};
use oveo::hoist::{
    reduce_hoistable_scope, HoistExpr, HoistScope, HoistStackEntry, HoistStackEntryKind,
};
use oveo::comments::keeps_comment;
use oveo::module_externs::{ExternRef, Externs, ImportBinding};
use oveo::module_hoist::{
    drops_import, hoist_target, hoisted_plan, intrinsic_action, is_hoistable_kind, split_declarations,
    split_statements_len, ExprKind, IntrinsicAction, ModuleHoister, Split, SplitPiece,
};
use oveo::statements::Statements;
use oveo::strmap::StrMap;
use std::sync::Arc;

#[test]
fn annotation_flags() {
    assert!(Annotation::dedupe().is_dedupe());
    assert!(!Annotation::dedupe().is_key());
    assert!(Annotation::key().is_key());
    assert!(!Annotation::key().is_dedupe());
    assert!(Annotation::new(3).is_dedupe() && Annotation::new(3).is_key());
    assert!(!Annotation::new(4).is_dedupe() && !Annotation::new(4).is_key());
}

#[test]
fn comment_markers() {
    assert_eq!(annotation_for_content(" @__HOIST__ "), Some(CommentAnnotation::Hoist));
    assert_eq!(annotation_for_content("@__SCOPE__"), Some(CommentAnnotation::Scope));
    assert_eq!(annotation_for_content("#__CONST__ @__CONST__"), Some(CommentAnnotation::Const));
    assert_eq!(annotation_for_content("@__PURE__"), None);
    assert!(is_annotation_content("x@__HOIST__x"));
    assert!(!is_annotation_content("@__HOIST_"));
}

#[test]
fn comment_annotation_table() {
    let source = "/*@__HOIST__*/ f(); // @__CONST__\n/* plain */ g();";
    let comments = vec![
        CommentInfo { is_leading: true, content_start: 2, content_end: 12, attached_to: 15 },
        CommentInfo { is_leading: false, content_start: 24, content_end: 34, attached_to: 47 },
        CommentInfo { is_leading: true, content_start: 37, content_end: 44, attached_to: 47 },
    ];
    let table = build_comment_annotations(source, &comments);
    assert_eq!(table.len(), 1);
    assert_eq!(table.get(&15), Some(&CommentAnnotation::Hoist));
}

#[test]
fn intrinsic_module() {
    let map = ExternMap::new();
    let m = map.modules.get(INTRINSICS_MODULE_NAME).unwrap();
    match m.exports.get("hoist") {
        Some(ExternValue::Function(f)) => {
            assert_eq!(f.intrinsic, Some(IntrinsicFunction::Hoist));
            assert_eq!(f.arguments.len(), 1);
            assert!(f.arguments[0].hoist && !f.arguments[0].scope);
        }
        _ => panic!("hoist"),
    }
    match m.exports.get("scope") {
        Some(ExternValue::Function(f)) => assert!(f.arguments[0].scope),
        _ => panic!("scope"),
    }
    assert!(m.exports.get("dedupe").is_some());
    assert!(m.exports.get("key").is_some());
    assert!(m.exports.get("other").is_none());
}

#[test]
fn imports_resolve_to_exports() {
    let mut map = ExternMap::new();
    let mut exports = StrMap::new();
    let f = ExternFunction {
        arguments: vec![ExternFunctionArgument { hoist: true, scope: false }],
        intrinsic: None,
    };
    exports.insert("component".to_string(), ExternValue::Function(Arc::new(f)));
    map.import_modules(vec![("lib".to_string(), ExternModule { exports })]);
    let mut externs = Externs::new(&map);
    externs.import_declaration(
        "lib",
        &vec![
            ImportBinding::Named("component".to_string(), 1),
            ImportBinding::Named("missing".to_string(), 2),
            ImportBinding::Namespace(3),
        ],
    );
    externs.import_declaration("oveo", &vec![ImportBinding::Named("hoist".to_string(), 4)]);
    externs.import_declaration("unknown", &vec![ImportBinding::Namespace(5)]);
    assert!(matches!(externs.resolve(&ExternRef::Identifier(Some(1))), Some(ExternValue::Function(_))));
    assert!(externs.resolve(&ExternRef::Identifier(Some(2))).is_none());
    let member = ExternRef::StaticMember(
        Box::new(ExternRef::Identifier(Some(3))),
        "component".to_string(),
    );
    assert!(matches!(externs.resolve(&member), Some(ExternValue::Function(_))));
    match externs.resolve(&ExternRef::Identifier(Some(4))) {
        Some(ExternValue::Function(f)) => assert_eq!(f.intrinsic, Some(IntrinsicFunction::Hoist)),
        _ => panic!("hoist import"),
    }
    assert!(externs.resolve(&ExternRef::Identifier(Some(5))).is_none());
    assert!(externs.resolve(&ExternRef::Identifier(None)).is_none());
}

#[test]
fn intrinsic_actions() {
    assert_eq!(intrinsic_action(IntrinsicFunction::Hoist, true, true, true), IntrinsicAction::Unwrap);
    assert_eq!(intrinsic_action(IntrinsicFunction::Scope, true, true, true), IntrinsicAction::Unwrap);
    assert_eq!(intrinsic_action(IntrinsicFunction::Dedupe, true, false, true), IntrinsicAction::MarkDedupe);
    assert_eq!(intrinsic_action(IntrinsicFunction::Dedupe, false, true, true), IntrinsicAction::Unwrap);
    assert_eq!(intrinsic_action(IntrinsicFunction::Dedupe, true, true, false), IntrinsicAction::Unwrap);
    assert_eq!(intrinsic_action(IntrinsicFunction::Key, false, true, true), IntrinsicAction::MarkKey);
    assert_eq!(intrinsic_action(IntrinsicFunction::Key, true, false, true), IntrinsicAction::Unwrap);
}

#[test]
fn declarations_split_count() {
    assert_eq!(split_statements_len(&[None, Some(3), Some(1), None]), Some(6));
    assert_eq!(split_statements_len(&[]), Some(0));
}

fn scope_entry(scope_id: u32, current: Option<u64>) -> HoistStackEntry {
    HoistStackEntry { scope_id, kind: HoistStackEntryKind::Scope(HoistScope { current_statement: current }) }
}

#[test]
fn hoisted_expression_goes_to_the_root_scope() {
    // program (scope 0) { statement 100: function f() (scope 1) { statement 200: g(hoist(() => a)) } }
    let mut h = ModuleHoister::new(true, false);
    h.enter_program(0);
    h.enter_statement(100, false, 0);
    h.enter_function_body(50, 1);
    h.enter_statement(200, false, 1);
    let f = ExternFunction {
        arguments: vec![ExternFunctionArgument { hoist: true, scope: false }],
        intrinsic: None,
    };
    h.enter_call(&[300], Some(&f));
    assert_eq!(h.current_hoist_scope(), Some(0));
    // the hoist scope is the root, so the argument is not hoisted
    h.enter_argument(300, None, true, 0, 1);
    assert!(h.end_hoisted(300).is_none());
    h.exit_statement(false);
    h.exit_function_body();
    h.exit_statement(false);
    h.exit_program();
    assert_eq!(h.stack().len(), 0);
}

#[test]
fn hoisted_expression_leaves_a_scope_function() {
    // program (0), statement 100: scope(() => { statement 200: () => hoist({}) })
    let mut h = ModuleHoister::new(true, false);
    h.enter_program(0);
    h.enter_statement(100, false, 0);
    let scope_fn = ExternFunction {
        arguments: vec![ExternFunctionArgument { hoist: false, scope: true }],
        intrinsic: Some(IntrinsicFunction::Scope),
    };
    h.enter_call(&[110], Some(&scope_fn));
    h.enter_argument(110, Some(111), true, 0, 0);
    h.enter_function_body(111, 1);
    assert_eq!(h.current_hoist_scope(), Some(1));
    h.enter_statement(200, false, 1);
    h.enter_function_body(210, 2);
    let hoist_fn = ExternFunction {
        arguments: vec![ExternFunctionArgument { hoist: true, scope: false }],
        intrinsic: Some(IntrinsicFunction::Hoist),
    };
    h.enter_call(&[220], Some(&hoist_fn));
    h.enter_argument(220, None, true, 0, 2);
    let s = h.end_hoisted(220).unwrap();
    assert_eq!(s.hoist_scope_id, Some(0));
    assert_eq!(h.finish_hoisted(s, &[2, 1, 0]), Some((0, 100)));
}

#[test]
fn hoist_target_of_a_scope() {
    let stack = vec![
        scope_entry(0, Some(10)),
        HoistStackEntry { scope_id: 1, kind: HoistStackEntryKind::FunctionBody },
        scope_entry(2, None),
    ];
    assert_eq!(hoist_target(&stack, 0), Some(10));
    assert_eq!(hoist_target(&stack, 1), None);
    assert_eq!(hoist_target(&stack, 2), None);
    assert_eq!(hoist_target(&stack, 9), None);
}

#[test]
fn symbol_from_an_inner_scope_limits_hoisting() {
    let stack = vec![
        scope_entry(0, Some(10)),
        HoistStackEntry { scope_id: 1, kind: HoistStackEntryKind::FunctionBody },
        HoistStackEntry { scope_id: 2, kind: HoistStackEntryKind::HoistExpr },
    ];
    let mut e = HoistExpr { address: 5, outermost_scope_id: 0, hoist_scope_id: Some(0) };
    // a symbol of the root scope changes nothing
    reduce_hoistable_scope(&mut e, &[2, 1, 0], 0, &stack);
    assert_eq!(e.hoist_scope_id, Some(0));
    // a symbol of the function's scope keeps the expression where it is
    reduce_hoistable_scope(&mut e, &[2, 1, 0], 1, &stack);
    assert_eq!(e.address, 5);
    assert_eq!(e.outermost_scope_id, 1);
    assert_eq!(e.hoist_scope_id, None);
}

#[test]
fn narrowing_order_does_not_matter() {
    let stack = vec![
        scope_entry(0, Some(10)),
        HoistStackEntry { scope_id: 1, kind: HoistStackEntryKind::FunctionBody },
        scope_entry(2, Some(11)),
        HoistStackEntry { scope_id: 3, kind: HoistStackEntryKind::FunctionBody },
        HoistStackEntry { scope_id: 4, kind: HoistStackEntryKind::HoistExpr },
    ];
    let start = HoistExpr { address: 5, outermost_scope_id: 0, hoist_scope_id: Some(0) };
    let ancestors = [4, 3, 2, 1, 0];
    let mut a = start;
    reduce_hoistable_scope(&mut a, &ancestors, 1, &stack);
    reduce_hoistable_scope(&mut a, &ancestors, 3, &stack);
    let mut b = start;
    reduce_hoistable_scope(&mut b, &ancestors, 3, &stack);
    reduce_hoistable_scope(&mut b, &ancestors, 1, &stack);
    assert_eq!(a, b);
    assert_eq!(a.outermost_scope_id, 3);
}

#[test]
fn declarations_split_into_one_declarator_each() {
    let pieces = vec![
        SplitPiece::Statement("s1"),
        SplitPiece::Declarators(vec!['a', 'b', 'c']),
        SplitPiece::Statement("s2"),
        SplitPiece::Declarators(vec!['d']),
    ];
    let out: Vec<String> = split_declarations(pieces)
        .into_iter()
        .map(|p| match p {
            Split::Statement(s) => s.to_string(),
            Split::Declarator(d) => d.to_string(),
        })
        .collect();
    assert_eq!(out, vec!["s1", "a", "b", "c", "s2", "d"]);
}

#[test]
fn statements_edits() {
    let mut st: Statements<&'static str> = Statements::new();
    st.insert_before(2, "before-b");
    st.remove(3);
    st.insert_top_level_statement("top");
    let out = st.exit_statements(vec!["a", "b", "c"], &[1, 2, 3]);
    assert_eq!(out, vec!["a", "before-b", "b"]);
    let body = st.exit_program(vec!["import", "x"], &[true, false]);
    assert_eq!(body, vec!["import", "top", "x"]);
}

fn lit(address: u64, s: &str) -> HashNode {
    HashNode { address, kind: HashKind::Str(s.as_bytes().to_vec()) }
}

#[test]
fn equal_expressions_are_duplicates() {
    let mut state = DedupeState::new();
    state.enter_scope();
    let a = HashNode { address: 1, kind: HashKind::Array(vec![ArrayElement::Expression(lit(2, "x"))]) };
    let b = HashNode { address: 3, kind: HashKind::Array(vec![ArrayElement::Expression(lit(4, "x"))]) };
    let c = HashNode { address: 5, kind: HashKind::Array(vec![ArrayElement::Expression(lit(6, "y"))]) };
    assert!(dedupe_hash(&mut state, &a).is_some());
    assert!(dedupe_hash(&mut state, &b).is_some());
    assert!(dedupe_hash(&mut state, &c).is_some());
    assert_eq!(state.expressions.get(&1), Some(&None));
    assert_eq!(state.expressions.get(&3), Some(&Some(1)));
    assert_eq!(state.expressions.get(&5), Some(&None));
    assert_eq!(state.duplicates, 1);
    let other = HashNode { address: 7, kind: HashKind::Other };
    assert!(dedupe_hash(&mut state, &other).is_none());
}

#[test]
fn duplicates_in_inner_scopes_only() {
    let mut state = DedupeState::new();
    state.enter_scope();
    state.add(1, [9u8; 20]);
    state.enter_scope();
    state.add(2, [9u8; 20]);
    state.add(3, [8u8; 20]);
    state.exit_scope();
    state.add(4, [8u8; 20]);
    assert_eq!(state.find(&[9u8; 20]), Some(1));
    assert_eq!(state.expressions.get(&2), Some(&Some(1)));
    assert_eq!(state.expressions.get(&4), Some(&None));
}

#[test]
fn leading_marker_comments_are_removed() {
    assert!(!keeps_comment(true, " @__HOIST__ "));
    assert!(keeps_comment(false, " @__HOIST__ "));
    assert!(keeps_comment(true, " plain "));
    assert!(keeps_comment(true, "@__PURE__"));
}

#[test]
fn hoistable_expression_kinds() {
    for k in [
        ExprKind::ArrowFunction,
        ExprKind::Function,
        ExprKind::New,
        ExprKind::Object,
        ExprKind::Array,
        ExprKind::Template,
        ExprKind::TaggedTemplate,
        ExprKind::Call,
    ] {
        assert!(is_hoistable_kind(k));
    }
    assert!(!is_hoistable_kind(ExprKind::Other));
}

#[test]
fn intrinsic_imports_are_dropped() {
    assert!(drops_import("oveo"));
    assert!(!drops_import("oveo/x"));
    assert!(!drops_import("react"));
}

#[test]
fn hoisted_expression_plans() {
    let s = HoistExpr { address: 1, outermost_scope_id: 0, hoist_scope_id: Some(0) };
    let p = hoisted_plan(true, s, Some((0, 42)));
    assert!(p.annotate);
    assert_eq!(p.declare_in, Some(0));
    assert_eq!(p.insert_before, Some(42));
    let q = hoisted_plan(false, s, None);
    assert!(!q.annotate);
    assert_eq!(q.declare_in, Some(0));
    assert_eq!(q.insert_before, None);
    let none = HoistExpr { hoist_scope_id: None, ..s };
    let r = hoisted_plan(true, none, Some((0, 42)));
    assert_eq!(r.declare_in, None);
    assert_eq!(r.insert_before, None);
}
