use oveo::annotation::Annotation;
use oveo::chunk::{
    annotation_action, AnnotatedExpr, AnnotationAction, AnnotationStack, DedupeAction, DedupePass,
    GlobalsHoister, GlobalsPlan,
};
use oveo::dedupe::DedupeState;
use oveo::globals::{GlobalValueKind, Globals};
use oveo::url::{
    is_non_rewritable_rel, url_replacement, NewUrl, PropKey, UrlAccess, UrlArgument,
};

fn js_globals() -> Globals {
    let mut g = Globals::new();
    g.add(&vec!["js".to_string(), "console".to_string()]);
    g
}

#[test]
fn globals_tables() {
    let g = js_globals();
    assert!(g.get("Array").unwrap().is_hoistable());
    assert!(!g.get("Array").unwrap().is_singleton_func());
    assert!(g.get_static("Array", "isArray").unwrap().is_hoistable());
    assert!(g.get_static("Object.prototype", "hasOwnProperty").is_some());
    assert!(g.get_static("console", "log").is_some());
    assert!(g.get("TextEncoder").unwrap().is_singleton_func());
    assert!(g.get("TextDecoder").unwrap().is_singleton_func());
    assert!(!g.get("window").unwrap().is_hoistable());
    assert!(!g.get("globalThis").unwrap().is_hoistable());
    assert!(g.get("Array.isArray").is_none());
    assert!(g.get("document").is_none());
    assert!(g.get_static("", "Array").is_some());
}

#[test]
fn unknown_categories_add_nothing() {
    let mut g = Globals::new();
    g.add(&vec!["electron".to_string()]);
    assert!(g.get("Array").is_none());
    g.add(&vec!["web:battery".to_string()]);
    assert!(g.get("BatteryManager").is_some());
    assert!(g.get("Array").is_none());
}

#[test]
fn every_category_adds_its_globals() {
    let mut g = Globals::new();
    let names = [
        "web", "web:typed-css", "web:background-fetch", "web:barcode", "web:battery",
        "web:bluetooth", "web:sync", "web:paint",
    ];
    g.add(&names.iter().map(|s| s.to_string()).collect());
    for name in [
        "Window", "CSSUnitValue", "BackgroundFetchManager", "BarcodeDetector", "BatteryManager",
        "BluetoothDevice", "SyncManager", "PaintSize",
    ] {
        assert!(g.get(name).unwrap().is_hoistable(), "{}", name);
    }
    assert!(g.get_static("CSS", "registerProperty").is_some());
    assert!(g.get_static("CSSStyleValue", "parse").is_some());
    assert!(g.get("Array").is_none());
    assert!(g.get("console").is_none());
}

#[test]
fn setting_a_global_again_replaces_its_statics() {
    let mut g = Globals::new();
    g.add(&vec!["web:typed-css".to_string(), "web".to_string()]);
    assert!(g.get_static("CSS", "highlights").is_some());
    assert!(g.get_static("CSS", "registerProperty").is_none());
    let mut h = Globals::new();
    h.add(&vec!["web".to_string(), "web:typed-css".to_string()]);
    assert!(h.get_static("CSS", "registerProperty").is_some());
}

#[test]
fn web_globals_leave_other_globals_alone() {
    let mut g = js_globals();
    g.add(&vec!["web".to_string()]);
    assert!(g.get_static("Array", "isArray").unwrap().is_hoistable());
    assert!(g.get("TextEncoder").unwrap().is_singleton_func());
    for name in ["fetch", "document", "navigator"] {
        let v = g.get(name).unwrap();
        assert!(v.is_hoistable() && !v.is_singleton_func());
        assert!(matches!(v.kind, GlobalValueKind::Object));
    }
    match &g.get("TextEncoder").unwrap().kind {
        GlobalValueKind::Func(f) => assert!(f.singleton && f.hoist && f.arguments.is_empty()),
        _ => panic!("expected a function"),
    }
}

#[test]
fn hoisted_globals_are_declared_once() {
    let g = js_globals();
    let mut h = GlobalsHoister::new();
    match h.plan_identifier(&g, true, "Array", true) {
        GlobalsPlan::DeclareGlobal { path, name } => {
            assert_eq!(path, "Array");
            assert_eq!(name, "Array");
            assert!(h.record_global(path, 7));
        }
        _ => panic!("expected a declaration"),
    }
    assert!(matches!(h.plan_identifier(&g, true, "Array", true), GlobalsPlan::Use(7)));
    assert!(matches!(h.plan_identifier(&g, true, "Array", false), GlobalsPlan::Keep));
    assert!(matches!(h.plan_identifier(&g, false, "Array", true), GlobalsPlan::Keep));
    assert!(matches!(h.plan_identifier(&g, true, "window", true), GlobalsPlan::Keep));
    assert!(matches!(h.plan_identifier(&g, true, "myGlobal", true), GlobalsPlan::Keep));
    match h.plan_static_member(&g, true, Some(7), "isArray") {
        GlobalsPlan::DeclareMember { path, object, property } => {
            assert_eq!(path, "Array.isArray");
            assert_eq!(object, 7);
            assert_eq!(property, "isArray");
            assert!(h.record_global(path, 8));
        }
        _ => panic!("expected a member declaration"),
    }
    assert!(matches!(h.plan_static_member(&g, true, Some(7), "isArray"), GlobalsPlan::Use(8)));
    assert!(matches!(h.plan_static_member(&g, true, Some(7), "nope"), GlobalsPlan::Keep));
    assert!(matches!(h.plan_static_member(&g, true, Some(99), "isArray"), GlobalsPlan::Keep));
    assert!(h.knows_symbol(8));
    assert!(!h.knows_symbol(9));
    assert!(!h.record_global("Array".to_string(), 9));
    assert!(!h.record_global("Other".to_string(), 8));
    assert!(matches!(h.plan_identifier(&g, true, "Array", true), GlobalsPlan::Use(7)));
}

#[test]
fn singletons_are_shared() {
    let g = js_globals();
    let mut h = GlobalsHoister::new();
    match h.plan_identifier(&g, true, "TextEncoder", true) {
        GlobalsPlan::DeclareGlobal { path, .. } => assert!(h.record_global(path, 3)),
        _ => panic!("expected a declaration"),
    }
    match h.plan_new(&g, true, Some(3), "_GLOBAL_", 0, false) {
        GlobalsPlan::DeclareSingleton { path, callee } => {
            assert_eq!(path, "TextEncoder");
            assert_eq!(callee, Some(3));
            h.record_singleton(path, 4);
        }
        _ => panic!("expected a singleton"),
    }
    assert!(matches!(h.plan_new(&g, true, Some(3), "_GLOBAL_", 0, false), GlobalsPlan::Use(4)));
    assert!(matches!(h.plan_new(&g, true, Some(3), "_GLOBAL_", 1, false), GlobalsPlan::Keep));
    assert!(matches!(h.plan_new(&g, true, Some(3), "_GLOBAL_", 0, true), GlobalsPlan::Keep));
    assert!(matches!(h.plan_new(&g, false, Some(3), "_GLOBAL_", 0, false), GlobalsPlan::Keep));
    match h.plan_identifier(&g, true, "Map", true) {
        GlobalsPlan::DeclareGlobal { path, .. } => assert!(h.record_global(path, 5)),
        _ => panic!("expected a declaration"),
    }
    assert!(matches!(h.plan_new(&g, true, Some(5), "_GLOBAL_", 0, false), GlobalsPlan::Keep));
}

#[test]
fn singletons_without_hoisting() {
    let g = js_globals();
    let mut h = GlobalsHoister::new();
    assert!(matches!(h.plan_identifier(&g, false, "TextEncoder", true), GlobalsPlan::Keep));
    match h.plan_new(&g, true, None, "TextEncoder", 0, false) {
        GlobalsPlan::DeclareSingleton { path, callee } => {
            assert_eq!(path, "TextEncoder");
            assert_eq!(callee, None);
            h.record_singleton(path, 9);
        }
        _ => panic!("expected a singleton"),
    }
    assert!(matches!(h.plan_new(&g, true, None, "TextEncoder", 0, false), GlobalsPlan::Use(9)));
    assert!(matches!(h.plan_new(&g, true, None, "TextDecoder", 0, false), GlobalsPlan::DeclareSingleton { .. }));
    assert!(matches!(h.plan_new(&g, true, None, "TextDecoder", 1, false), GlobalsPlan::Keep));
    assert!(matches!(h.plan_new(&g, false, None, "TextEncoder", 0, false), GlobalsPlan::Keep));
    assert!(matches!(h.plan_new(&g, true, None, "Map", 0, false), GlobalsPlan::Keep));
    assert!(matches!(h.plan_new(&g, true, None, "window", 0, false), GlobalsPlan::Keep));
}

fn new_url(rel: UrlArgument, meta: UrlArgument) -> NewUrl {
    NewUrl { global_url: true, type_arguments: false, arguments: vec![rel, meta] }
}

fn meta_url() -> UrlArgument {
    UrlArgument::Member { on_import_meta: true, optional: false, key: PropKey::Name("url".to_string()) }
}

fn href(object: NewUrl) -> UrlAccess {
    UrlAccess::Member { optional: false, key: PropKey::Name("href".to_string()), object: Some(object) }
}

#[test]
fn non_rewritable_urls() {
    assert!(is_non_rewritable_rel(""));
    assert!(is_non_rewritable_rel("/root.css"));
    assert!(is_non_rewritable_rel("?q"));
    assert!(is_non_rewritable_rel("#h"));
    assert!(is_non_rewritable_rel("\\x"));
    assert!(is_non_rewritable_rel("https://example.com/a"));
    assert!(is_non_rewritable_rel("data:text/plain,x"));
    assert!(is_non_rewritable_rel("a+b-c.d:x"));
    assert!(!is_non_rewritable_rel("./relative.css"));
    assert!(!is_non_rewritable_rel("relative.css"));
    assert!(!is_non_rewritable_rel("dir/file:x"));
    assert!(!is_non_rewritable_rel("1abc:x"));
    assert!(!is_non_rewritable_rel("a_b:x"));
}

#[test]
fn readme_absolute_url_example() {
    let e = new_url(UrlArgument::Str("./relative.css".to_string()), meta_url());
    assert_eq!(url_replacement("/base-url/", &href(e)), Some("/base-url/relative.css".to_string()));
}

#[test]
fn absolute_url_forms() {
    let base = "/b/";
    let pathname = UrlAccess::Member {
        optional: false,
        key: PropKey::Str("pathname".to_string()),
        object: Some(new_url(UrlArgument::Template(Some("img.png".to_string())), meta_url())),
    };
    assert_eq!(url_replacement(base, &pathname), Some("/b/img.png".to_string()));
    let to_string = UrlAccess::Call {
        optional: false,
        type_arguments: false,
        argument_count: 0,
        callee_optional: false,
        callee_key: PropKey::Str("toString".to_string()),
        object: Some(new_url(
            UrlArgument::Str("./a.js".to_string()),
            UrlArgument::Member {
                on_import_meta: true,
                optional: false,
                key: PropKey::Template(Some("url".to_string())),
            },
        )),
    };
    assert_eq!(url_replacement(base, &to_string), Some("/b/a.js".to_string()));
    let template_to_string = UrlAccess::Call {
        optional: false,
        type_arguments: false,
        argument_count: 0,
        callee_optional: false,
        callee_key: PropKey::Template(Some("toString".to_string())),
        object: Some(new_url(UrlArgument::Str("./a.js".to_string()), meta_url())),
    };
    assert_eq!(url_replacement(base, &template_to_string), None);
    let optional = UrlAccess::Member {
        optional: true,
        key: PropKey::Name("href".to_string()),
        object: Some(new_url(UrlArgument::Str("./a".to_string()), meta_url())),
    };
    assert_eq!(url_replacement(base, &optional), None);
    let shadowed = NewUrl {
        global_url: false,
        type_arguments: false,
        arguments: vec![UrlArgument::Str("./a".to_string()), meta_url()],
    };
    assert_eq!(url_replacement(base, &href(shadowed)), None);
    let absolute = new_url(UrlArgument::Str("https://x/a".to_string()), meta_url());
    assert_eq!(url_replacement(base, &href(absolute)), None);
    let not_meta = new_url(
        UrlArgument::Str("./a".to_string()),
        UrlArgument::Member { on_import_meta: false, optional: false, key: PropKey::Name("url".to_string()) },
    );
    assert_eq!(url_replacement(base, &href(not_meta)), None);
    let other_prop = UrlAccess::Member {
        optional: false,
        key: PropKey::Name("host".to_string()),
        object: Some(new_url(UrlArgument::Str("./a".to_string()), meta_url())),
    };
    assert_eq!(url_replacement(base, &other_prop), None);
}

#[test]
fn annotation_actions() {
    let dedupe = AnnotatedExpr { address: 1, annotation: Annotation::dedupe(), from_comment: false };
    let comment = AnnotatedExpr { address: 1, annotation: Annotation::dedupe(), from_comment: true };
    let key = AnnotatedExpr { address: 1, annotation: Annotation::key(), from_comment: false };
    assert_eq!(annotation_action(true, false, &dedupe, true), AnnotationAction::UnwrapAndHash);
    assert_eq!(annotation_action(true, false, &comment, false), AnnotationAction::HashInPlace);
    assert_eq!(annotation_action(true, false, &dedupe, false), AnnotationAction::Void);
    assert_eq!(annotation_action(false, false, &dedupe, true), AnnotationAction::Void);
    assert_eq!(annotation_action(false, true, &key, true), AnnotationAction::UnwrapKey);
    assert_eq!(annotation_action(true, false, &key, true), AnnotationAction::Void);
    let mut stack = AnnotationStack::new();
    stack.push(dedupe);
    stack.push(AnnotatedExpr { address: 2, annotation: Annotation::key(), from_comment: false });
    assert!(stack.pop_if_at(1).is_none());
    assert_eq!(stack.pop_if_at(2).unwrap().address, 2);
    assert_eq!(stack.pop_if_at(1).unwrap().address, 1);
    assert!(stack.pop_if_at(1).is_none());
}

#[test]
fn dedupe_pass_hoists_originals_with_duplicates() {
    let mut state = DedupeState::new();
    state.enter_scope();
    let h1 = [1u8; 20];
    let h2 = [2u8; 20];
    state.add(10, h1);
    state.add(20, h2);
    state.add(30, h1);
    assert_eq!(state.duplicates, 1);
    let mut pass = DedupePass::new(state);
    assert_eq!(pass.exit_expression(10), DedupeAction::Keep);
    pass.enter_statement(100);
    assert_eq!(pass.exit_expression(10), DedupeAction::HoistBefore(100));
    assert_eq!(pass.exit_expression(20), DedupeAction::Keep);
    assert_eq!(pass.exit_expression(30), DedupeAction::Keep);
    pass.record_original(10, 77);
    assert_eq!(pass.exit_expression(30), DedupeAction::UseOriginal(77));
    assert_eq!(pass.exit_expression(99), DedupeAction::Keep);
    pass.exit_statement();
    assert_eq!(pass.exit_expression(10), DedupeAction::Keep);
}
