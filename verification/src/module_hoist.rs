//! Decisions of the module pass: the stack of enclosing hoisting constructs,
//! the call arguments that hoist or open a scope, the hoisted expressions
//! being visited, and what becomes of intrinsic calls and marked expressions.
use std::collections::HashSet;
use vstd::prelude::*;
use crate::comments::CommentAnnotation;
use crate::externs::{ExternFunction, IntrinsicFunction, INTRINSICS_MODULE_NAME};
use crate::strmap::str_eq;
use crate::hoist::{
    reduce_hoistable_scope, reduce_spec, HoistArgument, HoistExpr, HoistScope, HoistStackEntry,
    HoistStackEntryKind,
};

verus! {

broadcast use vstd::std_specs::hash::group_hash_axioms;

/// What becomes of a call of an intrinsic function when its visit ends.
#[derive(PartialEq, Eq, Structural, Clone, Copy, Debug)]
pub enum IntrinsicAction {
    /// Replace the call by its last argument (`void 0` without one).
    Unwrap,
    /// Replace the call by `__oveo__(argument, DEDUPE)`.
    MarkDedupe,
    /// Replace the call by `__oveo__(argument, KEY)`.
    MarkKey,
}

/// `hoist` and `scope` unwrap; `dedupe` marks its argument when
/// deduplication is on, and `key` when renaming is on; both unwrap otherwise
/// or without an argument.
pub open spec fn intrinsic_action_spec(
    f: IntrinsicFunction,
    dedupe: bool,
    rename_properties: bool,
    has_argument: bool,
) -> IntrinsicAction {
    match f {
        IntrinsicFunction::Hoist | IntrinsicFunction::Scope => IntrinsicAction::Unwrap,
        IntrinsicFunction::Dedupe => if dedupe && has_argument {
            IntrinsicAction::MarkDedupe
        } else {
            IntrinsicAction::Unwrap
        },
        IntrinsicFunction::Key => if rename_properties && has_argument {
            IntrinsicAction::MarkKey
        } else {
            IntrinsicAction::Unwrap
        },
    }
}

/// Decides what becomes of a call of an intrinsic function.
pub fn intrinsic_action(f: IntrinsicFunction, dedupe: bool, rename_properties: bool, has_argument: bool) -> (r:
    IntrinsicAction)
    ensures
        r == intrinsic_action_spec(f, dedupe, rename_properties, has_argument),
{
    match f {
        IntrinsicFunction::Hoist | IntrinsicFunction::Scope => IntrinsicAction::Unwrap,
        IntrinsicFunction::Dedupe => if dedupe && has_argument {
            IntrinsicAction::MarkDedupe
        } else {
            IntrinsicAction::Unwrap
        },
        IntrinsicFunction::Key => if rename_properties && has_argument {
            IntrinsicAction::MarkKey
        } else {
            IntrinsicAction::Unwrap
        },
    }
}

/// The number of statements that `var a, b, c` declarations split into one
/// declaration each make: one per declarator, one per other statement.
pub open spec fn split_len(counts: Seq<Option<usize>>) -> int
    decreases counts.len(),
{
    if counts.len() == 0 {
        0
    } else {
        split_len(counts.drop_last()) + match counts.last() {
            Some(n) => n as int,
            None => 1,
        }
    }
}

/// The statements' count once every declaration has one declarator
/// (`counts[i]`: the declarators of statement `i`, when it is a declaration).
pub fn split_statements_len(counts: &[Option<usize>]) -> (r: Option<usize>)
    ensures
        match r {
            Some(n) => n == split_len(counts@),
            None => split_len(counts@) > usize::MAX,
        },
{
    let mut total: usize = 0;
    let mut i: usize = 0;
    while i < counts.len()
        invariant
            i <= counts@.len(),
            total == split_len(counts@.subrange(0, i as int)),
        decreases counts@.len() - i,
    {
        let add: usize = match counts[i] {
            Some(n) => n,
            None => 1,
        };
        proof {
            assert(counts@.subrange(0, i + 1).drop_last() =~= counts@.subrange(0, i as int));
            lemma_split_len_mono(counts@, i + 1);
        }
        if total > usize::MAX - add {
            return None;
        }
        total = total + add;
        i = i + 1;
    }
    assert(counts@.subrange(0, counts@.len() as int) =~= counts@);
    Some(total)
}

/// An import of this module is removed from the output: its functions are
/// unwrapped at compile time.
pub fn drops_import(source: &str) -> (r: bool)
    ensures
        r == (source@ == INTRINSICS_MODULE_NAME@),
{
    str_eq(source, INTRINSICS_MODULE_NAME)
}

/// What becomes of a hoisted expression once it ends.
#[derive(Clone, Copy, PartialEq, Eq, Debug, Structural)]
pub struct HoistedPlan {
    /// Mark it for deduplication.
    pub annotate: bool,
    /// Move it into a constant of this hoist scope.
    pub declare_in: Option<u32>,
    /// Put that constant before this statement.
    pub insert_before: Option<u64>,
}

/// The plan for a hoisted expression `s` that goes to `target` (as
/// `finish_hoisted` gives it): marked for deduplication when deduplication
/// is on; moved into a constant of its hoist scope when it has one, that
/// constant put before the target statement when there is one.
pub fn hoisted_plan(dedupe: bool, s: HoistExpr, target: Option<(u32, u64)>) -> (r: HoistedPlan)
    ensures
        r.annotate == dedupe,
        r.declare_in == s.hoist_scope_id,
        r.insert_before == (match (s.hoist_scope_id, target) {
            (Some(_), Some(t)) => Some(t.1),
            _ => None,
        }),
{
    let insert_before = match (s.hoist_scope_id, target) {
        (Some(_), Some(t)) => Some(t.1),
        _ => None,
    };
    HoistedPlan { annotate: dedupe, declare_in: s.hoist_scope_id, insert_before }
}

/// The kinds of expression that the module pass tells apart.
#[derive(Clone, Copy, PartialEq, Eq, Debug, Structural)]
pub enum ExprKind {
    ArrowFunction,
    Function,
    New,
    Object,
    Array,
    Template,
    TaggedTemplate,
    Call,
    Other,
}

/// The expressions that may be hoisted: functions, arrow functions, `new`,
/// object and array literals, templates, tagged templates and calls.
pub open spec fn hoistable_kind(k: ExprKind) -> bool {
    !(k is Other)
}

/// Whether an expression of kind `k` may be hoisted.
pub fn is_hoistable_kind(k: ExprKind) -> (r: bool)
    ensures
        r == hoistable_kind(k),
{
    match k {
        ExprKind::Other => false,
        _ => true,
    }
}

/// A statement of a list being split: a declaration with several
/// declarators, or any other statement.
pub enum SplitPiece<S, D> {
    Statement(S),
    Declarators(Vec<D>),
}

/// A statement of the split list: one kept as it was, or a declaration made
/// of one declarator.
pub enum Split<S, D> {
    Statement(S),
    Declarator(D),
}

/// The pieces one after another, each declaration replaced by its
/// declarators in order.
pub open spec fn split_all<S, D>(ps: Seq<SplitPiece<S, D>>) -> Seq<Split<S, D>>
    decreases ps.len(),
{
    if ps.len() == 0 {
        Seq::empty()
    } else {
        split_all(ps.drop_last()) + match ps.last() {
            SplitPiece::Statement(st) => seq![Split::Statement(st)],
            SplitPiece::Declarators(ds) => ds@.map_values(|d: D| Split::<S, D>::Declarator(d)),
        }
    }
}

/// Splits each declaration into one statement per declarator, keeping the
/// order.
pub fn split_declarations<S, D>(pieces: Vec<SplitPiece<S, D>>) -> (r: Vec<Split<S, D>>)
    ensures
        r@ == split_all(pieces@),
{
    let ghost all = pieces@;
    let mut rest = pieces;
    let mut out: Vec<Split<S, D>> = Vec::new();
    let ghost mut i: int = 0;
    assert(all.subrange(0, 0) =~= Seq::<SplitPiece<S, D>>::empty());
    while rest.len() > 0
        invariant
            0 <= i <= all.len(),
            rest@ == all.subrange(i, all.len() as int),
            out@ == split_all(all.subrange(0, i)),
        decreases rest@.len(),
    {
        let ghost rest_before = rest@;
        let piece = rest.remove(0);
        proof {
            assert(rest_before[0] == all[i]);
            assert(rest@ =~= all.subrange(i + 1, all.len() as int));
            assert(all.subrange(0, i + 1).drop_last() =~= all.subrange(0, i));
        }
        match piece {
            SplitPiece::Statement(st) => {
                out.push(Split::Statement(st));
            },
            SplitPiece::Declarators(ds) => {
                let ghost dall = ds@;
                let ghost base = out@;
                let mut drest = ds;
                let ghost mut j: int = 0;
                while drest.len() > 0
                    invariant
                        0 <= j <= dall.len(),
                        drest@ == dall.subrange(j, dall.len() as int),
                        out@ == base + dall.subrange(0, j).map_values(|d: D| Split::<S, D>::Declarator(d)),
                    decreases drest@.len(),
                {
                    let ghost drest_before = drest@;
                    let d = drest.remove(0);
                    proof {
                        assert(drest_before[0] == dall[j]);
                        assert(drest@ =~= dall.subrange(j + 1, dall.len() as int));
                    }
                    out.push(Split::Declarator(d));
                    proof {
                        assert(dall.subrange(0, j + 1).map_values(|d: D| Split::<S, D>::Declarator(d))
                            =~= dall.subrange(0, j).map_values(|d: D| Split::<S, D>::Declarator(d)).push(
                            Split::Declarator(dall[j]),
                        ));
                        j = j + 1;
                    }
                }
                proof {
                    assert(dall.subrange(0, j) =~= dall);
                }
            },
        }
        proof {
            i = i + 1;
        }
    }
    assert(all.subrange(0, i) =~= all);
    out
}

proof fn lemma_split_len_mono(counts: Seq<Option<usize>>, i: int)
    requires
        0 <= i <= counts.len(),
    ensures
        split_len(counts.subrange(0, i)) <= split_len(counts),
    decreases counts.len() - i,
{
    if i < counts.len() {
        lemma_split_len_mono(counts, i + 1);
        assert(counts.subrange(0, i + 1).drop_last() =~= counts.subrange(0, i));
    } else {
        assert(counts.subrange(0, i) =~= counts);
    }
}

/// The module pass's hoisting state.
pub struct ModuleHoister {
    hoist: bool,
    dedupe: bool,
    hoist_arguments: Vec<HoistArgument>,
    hoist_scope_expressions: HashSet<u64>,
    hoist_stack: Vec<HoistStackEntry>,
    hoistable_expr_stack: Vec<HoistExpr>,
    comment_const_addresses: HashSet<u64>,
}

/// The module pass's hoisting state, as values.
pub struct HoisterView {
    pub hoist: bool,
    pub dedupe: bool,
    pub arguments: Seq<HoistArgument>,
    pub scope_expressions: Set<u64>,
    pub stack: Seq<HoistStackEntry>,
    pub exprs: Seq<HoistExpr>,
    pub consts: Set<u64>,
}

/// An entry for a scope that has no statement being visited yet.
pub open spec fn fresh_scope(scope_id: u32) -> HoistStackEntry {
    HoistStackEntry { scope_id, kind: HoistStackEntryKind::Scope(HoistScope { current_statement: None }) }
}

/// The stack with the innermost entry, when it is a scope, given `current`
/// as the statement being visited.
pub open spec fn set_current(stack: Seq<HoistStackEntry>, current: Option<u64>) -> Seq<HoistStackEntry> {
    if stack.len() > 0 && stack.last().kind is Scope {
        stack.update(
            stack.len() - 1,
            HoistStackEntry {
                scope_id: stack.last().scope_id,
                kind: HoistStackEntryKind::Scope(HoistScope { current_statement: current }),
            },
        )
    } else {
        stack
    }
}

/// The innermost entry is a hoist scope with no statement being visited.
pub open spec fn idle_scope_on_top(s: Seq<HoistStackEntry>) -> bool {
    s.len() > 0 && match s.last().kind {
        HoistStackEntryKind::Scope(h) => h.current_statement is None,
        _ => false,
    }
}

/// `s` without its last element, if it has one.
pub open spec fn pop_last<T>(s: Seq<T>) -> Seq<T> {
    if s.len() == 0 {
        s
    } else {
        s.drop_last()
    }
}

/// The scope of the closest hoist scope of the stack.
pub open spec fn closest_hoist_scope(stack: Seq<HoistStackEntry>) -> Option<u32>
    decreases stack.len(),
{
    if stack.len() == 0 {
        None
    } else if stack.last().kind is Scope {
        Some(stack.last().scope_id)
    } else {
        closest_hoist_scope(stack.drop_last())
    }
}

/// The statement before which an expression hoisted to `scope_id` goes: the
/// one being visited in the first entry of the stack for that scope, when
/// that entry is a hoist scope.
pub open spec fn hoist_target_spec(stack: Seq<HoistStackEntry>, scope_id: u32) -> Option<u64>
    decreases stack.len(),
{
    if stack.len() == 0 {
        None
    } else if stack[0].scope_id == scope_id {
        match stack[0].kind {
            HoistStackEntryKind::Scope(s) => s.current_statement,
            _ => None,
        }
    } else {
        hoist_target_spec(stack.drop_first(), scope_id)
    }
}

/// The first hoist argument at `address`, if any.
pub open spec fn find_argument(args: Seq<HoistArgument>, address: u64) -> Option<int> {
    if exists|i: int| 0 <= i < args.len() && args[i].address == address {
        Some(choose|i: int| 0 <= i < args.len() && args[i].address == address && forall|j: int|
            0 <= j < i ==> args[j].address != address)
    } else {
        None
    }
}

impl ModuleHoister {
    pub closed spec fn view(&self) -> HoisterView {
        HoisterView {
            hoist: self.hoist,
            dedupe: self.dedupe,
            arguments: self.hoist_arguments@,
            scope_expressions: self.hoist_scope_expressions@,
            stack: self.hoist_stack@,
            exprs: self.hoistable_expr_stack@,
            consts: self.comment_const_addresses@,
        }
    }

    /// A state for a pass with hoisting and deduplication on or off.
    pub fn new(hoist: bool, dedupe: bool) -> (r: Self)
        ensures
            r.view() == (HoisterView {
                hoist,
                dedupe,
                arguments: Seq::empty(),
                scope_expressions: Set::empty(),
                stack: Seq::empty(),
                exprs: Seq::empty(),
                consts: Set::empty(),
            }),
    {
        ModuleHoister {
            hoist,
            dedupe,
            hoist_arguments: Vec::new(),
            hoist_scope_expressions: HashSet::new(),
            hoist_stack: Vec::new(),
            hoistable_expr_stack: Vec::new(),
            comment_const_addresses: HashSet::new(),
        }
    }

    /// The stack of enclosing hoisting constructs, innermost last.
    pub fn stack(&self) -> (r: &[HoistStackEntry])
        ensures
            r@ == self.view().stack,
    {
        self.hoist_stack.as_slice()
    }

    /// The program's scope is a hoist scope.
    pub fn enter_program(&mut self, scope_id: u32)
        ensures
            final(self).view() == (HoisterView {
                stack: if old(self).view().hoist {
                    old(self).view().stack.push(fresh_scope(scope_id))
                } else {
                    old(self).view().stack
                },
                ..old(self).view()
            }),
    {
        if self.hoist {
            self.hoist_stack.push(
                HoistStackEntry { scope_id, kind: HoistStackEntryKind::Scope(HoistScope { current_statement: None }) },
            );
        }
    }

    pub fn exit_program(&mut self)
        ensures
            final(self).view() == (HoisterView {
                stack: if old(self).view().hoist {
                    pop_last(old(self).view().stack)
                } else {
                    old(self).view().stack
                },
                ..old(self).view()
            }),
    {
        if self.hoist {
            let _ = self.hoist_stack.pop();
        }
    }

    fn set_current_statement(&mut self, current: Option<u64>)
        ensures
            final(self).view() == (HoisterView {
                stack: set_current(old(self).view().stack, current),
                ..old(self).view()
            }),
    {
        let n = self.hoist_stack.len();
        if n > 0 {
            let last = self.hoist_stack[n - 1];
            if let HoistStackEntryKind::Scope(_) = last.kind {
                self.hoist_stack.set(
                    n - 1,
                    HoistStackEntry {
                        scope_id: last.scope_id,
                        kind: HoistStackEntryKind::Scope(HoistScope { current_statement: current }),
                    },
                );
            }
        }
    }

    /// A statement starts: it becomes the statement being visited in the
    /// closest hoist scope, if that has none; `if` and `switch` are
    /// conditionals.
    pub fn enter_statement(&mut self, address: u64, conditional: bool, scope_id: u32)
        ensures
            old(self).view().hoist ==> final(self).view() == (HoisterView {
                stack: {
                    let s = old(self).view().stack;
                    let s1 = if idle_scope_on_top(s) {
                        set_current(s, Some(address))
                    } else {
                        s
                    };
                    if conditional {
                        s1.push(HoistStackEntry { scope_id, kind: HoistStackEntryKind::Conditional })
                    } else {
                        s1
                    }
                },
                ..old(self).view()
            }),
            !old(self).view().hoist ==> final(self).view() == old(self).view(),
    {
        if self.hoist {
            let n = self.hoist_stack.len();
            if n > 0 {
                if let HoistStackEntryKind::Scope(h) = self.hoist_stack[n - 1].kind {
                    if h.current_statement.is_none() {
                        self.set_current_statement(Some(address));
                    }
                }
            }
            if conditional {
                self.hoist_stack.push(HoistStackEntry { scope_id, kind: HoistStackEntryKind::Conditional });
            }
        }
    }

    /// A statement ends: the closest hoist scope, if innermost, has no
    /// statement being visited; an `if` or `switch` ends its conditional.
    pub fn exit_statement(&mut self, conditional: bool)
        ensures
            old(self).view().hoist ==> final(self).view() == (HoisterView {
                stack: {
                    let s1 = set_current(old(self).view().stack, None);
                    if conditional {
                        pop_last(s1)
                    } else {
                        s1
                    }
                },
                ..old(self).view()
            }),
            !old(self).view().hoist ==> final(self).view() == old(self).view(),
    {
        if self.hoist {
            self.set_current_statement(None);
            if conditional {
                let _ = self.hoist_stack.pop();
            }
        }
    }

    /// A call of the extern function `f` (if its callee is one) with
    /// arguments at `arguments`: the arguments that hoist or open a scope
    /// are noted.
    pub fn enter_call(&mut self, arguments: &[u64], f: Option<&ExternFunction>)
        ensures
            ({
                let v = old(self).view();
                match f {
                    Some(f) => if v.hoist && arguments@.len() > 0 {
                        final(self).view() == (HoisterView {
                            arguments: v.arguments + noted_arguments(f.arguments@, arguments@),
                            ..v
                        })
                    } else {
                        final(self).view() == v
                    },
                    None => final(self).view() == v,
                }
            }),
    {
        if !self.hoist || arguments.len() == 0 {
            return;
        }
        let f = match f {
            Some(f) => f,
            None => {
                return;
            },
        };
        let ghost base = self.hoist_arguments@;
        let mut i: usize = 0;
        while i < f.arguments.len()
            invariant
                i <= f.arguments@.len(),
                self.hoist_arguments@ == base + noted_arguments(f.arguments@.subrange(0, i as int), arguments@),
                self.view() == (HoisterView { arguments: self.hoist_arguments@, ..old(self).view() }),
                base == old(self).view().arguments,
            decreases f.arguments@.len() - i,
        {
            let meta = &f.arguments[i];
            proof {
                assert(f.arguments@.subrange(0, i + 1).drop_last() =~= f.arguments@.subrange(0, i as int));
            }
            if (meta.hoist || meta.scope) && i < arguments.len() {
                self.hoist_arguments.push(HoistArgument { address: arguments[i], hoist: meta.hoist, scope: meta.scope });
            }
            i = i + 1;
        }
        proof {
            assert(f.arguments@.subrange(0, f.arguments@.len() as int) =~= f.arguments@);
        }
    }

    /// A conditional expression starts.
    pub fn enter_conditional(&mut self, scope_id: u32)
        ensures
            final(self).view() == (HoisterView {
                stack: if old(self).view().hoist {
                    old(self).view().stack.push(HoistStackEntry { scope_id, kind: HoistStackEntryKind::Conditional })
                } else {
                    old(self).view().stack
                },
                ..old(self).view()
            }),
    {
        if self.hoist {
            self.hoist_stack.push(HoistStackEntry { scope_id, kind: HoistStackEntryKind::Conditional });
        }
    }

    /// A conditional expression ends.
    pub fn exit_conditional(&mut self)
        ensures
            final(self).view() == (HoisterView {
                stack: if old(self).view().hoist {
                    pop_last(old(self).view().stack)
                } else {
                    old(self).view().stack
                },
                ..old(self).view()
            }),
    {
        if self.hoist {
            let _ = self.hoist_stack.pop();
        }
    }

    /// The scope of the closest hoist scope.
    pub fn current_hoist_scope(&self) -> (r: Option<u32>)
        ensures
            r == closest_hoist_scope(self.view().stack),
    {
        let mut i = self.hoist_stack.len();
        assert(self.hoist_stack@.subrange(0, i as int) =~= self.hoist_stack@);
        while i > 0
            invariant
                i <= self.hoist_stack@.len(),
                closest_hoist_scope(self.hoist_stack@) == closest_hoist_scope(self.hoist_stack@.subrange(0, i as int)),
            decreases i,
        {
            let ghost sub = self.hoist_stack@.subrange(0, i as int);
            assert(sub.drop_last() =~= self.hoist_stack@.subrange(0, i - 1));
            if let HoistStackEntryKind::Scope(_) = self.hoist_stack[i - 1].kind {
                return Some(self.hoist_stack[i - 1].scope_id);
            }
            i = i - 1;
        }
        None
    }

    /// Starts hoisting the expression at `address` to the root scope, unless
    /// the closest hoist scope is the root.
    fn start_hoisted(&mut self, address: u64, root_scope_id: u32, scope_id: u32)
        ensures
            ({
                let v = old(self).view();
                if closest_hoist_scope(v.stack) != Some(root_scope_id) {
                    final(self).view() == (HoisterView {
                        exprs: v.exprs.push(
                            HoistExpr { address, outermost_scope_id: root_scope_id, hoist_scope_id: Some(root_scope_id) },
                        ),
                        stack: v.stack.push(HoistStackEntry { scope_id, kind: HoistStackEntryKind::HoistExpr }),
                        ..v
                    })
                } else {
                    final(self).view() == v
                }
            }),
    {
        let closest = self.current_hoist_scope();
        if closest != Some(root_scope_id) {
            self.hoistable_expr_stack.push(
                HoistExpr { address, outermost_scope_id: root_scope_id, hoist_scope_id: Some(root_scope_id) },
            );
            self.hoist_stack.push(HoistStackEntry { scope_id, kind: HoistStackEntryKind::HoistExpr });
        }
    }

    /// An expression with a comment mark starts (`function`: it is a
    /// function or arrow function; `hoistable`: it is of a kind that may be
    /// hoisted).
    pub fn enter_marked_expression(
        &mut self,
        mark: CommentAnnotation,
        address: u64,
        function: bool,
        hoistable: bool,
        root_scope_id: u32,
        scope_id: u32,
    )
        ensures
            ({
                let v = old(self).view();
                match mark {
                    CommentAnnotation::Scope => final(self).view() == if v.hoist && function {
                        HoisterView { scope_expressions: v.scope_expressions.insert(address), ..v }
                    } else {
                        v
                    },
                    CommentAnnotation::Hoist => if v.hoist && hoistable && closest_hoist_scope(v.stack) != Some(
                        root_scope_id,
                    ) {
                        final(self).view() == (HoisterView {
                            exprs: v.exprs.push(
                                HoistExpr {
                                    address,
                                    outermost_scope_id: root_scope_id,
                                    hoist_scope_id: Some(root_scope_id),
                                },
                            ),
                            stack: v.stack.push(HoistStackEntry { scope_id, kind: HoistStackEntryKind::HoistExpr }),
                            ..v
                        })
                    } else {
                        final(self).view() == v
                    },
                    CommentAnnotation::Const => final(self).view() == if v.dedupe {
                        HoisterView { consts: v.consts.insert(address), ..v }
                    } else {
                        v
                    },
                }
            }),
    {
        match mark {
            CommentAnnotation::Scope => {
                if self.hoist && function {
                    self.hoist_scope_expressions.insert(address);
                }
            },
            CommentAnnotation::Hoist => {
                if self.hoist && hoistable {
                    self.start_hoisted(address, root_scope_id, scope_id);
                }
            },
            CommentAnnotation::Const => {
                if self.dedupe {
                    self.comment_const_addresses.insert(address);
                }
            },
        }
    }

    /// A function body starts (for an arrow function, only an expression
    /// body): it opens a hoist scope when its function was marked as one,
    /// which ends the mark, and a function body otherwise.
    pub fn enter_function_body(&mut self, function_address: u64, scope_id: u32)
        ensures
            ({
                let v = old(self).view();
                if v.hoist {
                    if v.scope_expressions.contains(function_address) {
                        final(self).view() == (HoisterView {
                            scope_expressions: v.scope_expressions.remove(function_address),
                            stack: v.stack.push(fresh_scope(scope_id)),
                            ..v
                        })
                    } else {
                        final(self).view() == (HoisterView {
                            stack: v.stack.push(HoistStackEntry { scope_id, kind: HoistStackEntryKind::FunctionBody }),
                            ..v
                        })
                    }
                } else {
                    final(self).view() == v
                }
            }),
    {
        if self.hoist {
            if self.hoist_scope_expressions.remove(&function_address) {
                self.hoist_stack.push(
                    HoistStackEntry { scope_id, kind: HoistStackEntryKind::Scope(HoistScope { current_statement: None }) },
                );
            } else {
                assert(self.hoist_scope_expressions@ =~= old(self).view().scope_expressions);
                self.hoist_stack.push(HoistStackEntry { scope_id, kind: HoistStackEntryKind::FunctionBody });
            }
        }
    }

    /// A function body ends.
    pub fn exit_function_body(&mut self)
        ensures
            final(self).view() == (HoisterView {
                stack: if old(self).view().hoist {
                    pop_last(old(self).view().stack)
                } else {
                    old(self).view().stack
                },
                ..old(self).view()
            }),
    {
        if self.hoist {
            let _ = self.hoist_stack.pop();
        }
    }

    /// An argument at `address` starts (`arrow`: the address of the arrow
    /// function it is, if it is one; `hoistable`: it is an expression of a
    /// kind that may be hoisted). A noted argument that opens a scope marks
    /// its arrow function; one that hoists starts a hoisted expression; the
    /// note is then dropped.
    pub fn enter_argument(&mut self, address: u64, arrow: Option<u64>, hoistable: bool, root_scope_id: u32, scope_id: u32)
        ensures
            ({
                let v = old(self).view();
                if v.hoist && find_argument(v.arguments, address) is Some {
                    let i = find_argument(v.arguments, address)->0;
                    let arg = v.arguments[i];
                    let scopes = if arg.scope && arrow is Some {
                        v.scope_expressions.insert(arrow->0)
                    } else {
                        v.scope_expressions
                    };
                    let started = arg.hoist && hoistable && closest_hoist_scope(v.stack) != Some(root_scope_id);
                    final(self).view() == (HoisterView {
                        arguments: v.arguments.remove(i),
                        scope_expressions: scopes,
                        exprs: if started {
                            v.exprs.push(
                                HoistExpr {
                                    address,
                                    outermost_scope_id: root_scope_id,
                                    hoist_scope_id: Some(root_scope_id),
                                },
                            )
                        } else {
                            v.exprs
                        },
                        stack: if started {
                            v.stack.push(HoistStackEntry { scope_id, kind: HoistStackEntryKind::HoistExpr })
                        } else {
                            v.stack
                        },
                        ..v
                    })
                } else {
                    final(self).view() == v
                }
            }),
    {
        if !self.hoist {
            return;
        }
        let mut i: usize = 0;
        while i < self.hoist_arguments.len() && self.hoist_arguments[i].address != address
            invariant
                i <= self.hoist_arguments@.len(),
                forall|j: int| 0 <= j < i ==> self.hoist_arguments@[j].address != address,
            decreases self.hoist_arguments@.len() - i,
        {
            i = i + 1;
        }
        if i >= self.hoist_arguments.len() {
            return;
        }
        proof {
            let v = old(self).view();
            let k = find_argument(v.arguments, address)->0;
            assert(v.arguments[i as int].address == address);
            if k < i {
                assert(v.arguments[k].address != address);
            } else if k > i {
                assert(v.arguments[i as int].address != address);
            }
        }
        let arg = self.hoist_arguments[i];
        if arg.scope {
            if let Some(a) = arrow {
                self.hoist_scope_expressions.insert(a);
            }
        }
        if arg.hoist && hoistable {
            self.start_hoisted(address, root_scope_id, scope_id);
        }
        self.hoist_arguments.remove(i);
    }

    /// The visit of the expression or argument at `address` ends: when it is
    /// the innermost hoisted expression, that one ends and is handed back.
    pub fn end_hoisted(&mut self, address: u64) -> (r: Option<HoistExpr>)
        ensures
            ({
                let v = old(self).view();
                if v.hoist && v.exprs.len() > 0 && v.exprs.last().address == address {
                    r == Some(v.exprs.last()) && final(self).view() == (HoisterView {
                        exprs: v.exprs.drop_last(),
                        stack: pop_last(v.stack),
                        ..v
                    })
                } else {
                    r is None && final(self).view() == v
                }
            }),
    {
        if !self.hoist {
            return None;
        }
        let n = self.hoistable_expr_stack.len();
        if n == 0 || self.hoistable_expr_stack[n - 1].address != address {
            return None;
        }
        let _ = self.hoist_stack.pop();
        self.hoistable_expr_stack.pop()
    }

    /// An identifier reading a symbol declared in `sym_scope_id`, from the
    /// scope chain `ancestors`: the innermost hoisted expression is narrowed.
    pub fn read_symbol(&mut self, ancestors: &[u32], sym_scope_id: u32)
        ensures
            ({
                let v = old(self).view();
                if v.hoist && v.exprs.len() > 0 {
                    final(self).view() == (HoisterView {
                        exprs: v.exprs.update(
                            v.exprs.len() - 1,
                            reduce_spec(v.exprs.last(), ancestors@, sym_scope_id, v.stack),
                        ),
                        ..v
                    })
                } else {
                    final(self).view() == v
                }
            }),
    {
        if !self.hoist {
            return;
        }
        let n = self.hoistable_expr_stack.len();
        if n == 0 {
            return;
        }
        let mut last = self.hoistable_expr_stack[n - 1];
        reduce_hoistable_scope(&mut last, ancestors, sym_scope_id, self.hoist_stack.as_slice());
        self.hoistable_expr_stack.set(n - 1, last);
    }

    /// A hoisted expression `s` ended: the enclosing hoisted expression, if
    /// any, is narrowed to `s`'s outermost scope; the result is where `s`
    /// goes: before the statement being visited in its hoist scope, if it
    /// has one and that scope has such a statement.
    pub fn finish_hoisted(&mut self, s: HoistExpr, ancestors: &[u32]) -> (r: Option<(u32, u64)>)
        ensures
            ({
                let v = old(self).view();
                &&& final(self).view() == if v.exprs.len() > 0 {
                    HoisterView {
                        exprs: v.exprs.update(
                            v.exprs.len() - 1,
                            reduce_spec(v.exprs.last(), ancestors@, s.outermost_scope_id, v.stack),
                        ),
                        ..v
                    }
                } else {
                    v
                }
                &&& r == match s.hoist_scope_id {
                    Some(h) => match hoist_target_spec(v.stack, h) {
                        Some(a) => Some((h, a)),
                        None => None,
                    },
                    None => None,
                }
            }),
    {
        let n = self.hoistable_expr_stack.len();
        if n > 0 {
            let mut last = self.hoistable_expr_stack[n - 1];
            reduce_hoistable_scope(&mut last, ancestors, s.outermost_scope_id, self.hoist_stack.as_slice());
            self.hoistable_expr_stack.set(n - 1, last);
        }
        match s.hoist_scope_id {
            Some(h) => match hoist_target(self.hoist_stack.as_slice(), h) {
                Some(a) => Some((h, a)),
                None => None,
            },
            None => None,
        }
    }

    /// The visit of the expression at `address` ends: whether it had a
    /// `/*@__CONST__*/` mark, with deduplication on (the mark ends).
    pub fn take_const_mark(&mut self, address: u64) -> (r: bool)
        ensures
            r == (old(self).view().consts.contains(address) && old(self).view().dedupe),
            final(self).view() == (HoisterView { consts: old(self).view().consts.remove(address), ..old(self).view() }),
    {
        let had = self.comment_const_addresses.remove(&address);
        had && self.dedupe
    }
}

/// The arguments noted for a call: argument `i` when its description hoists
/// or opens a scope and the call has an argument `i`.
pub open spec fn noted_arguments(metas: Seq<crate::externs::ExternFunctionArgument>, arguments: Seq<u64>) -> Seq<
    HoistArgument,
>
    decreases metas.len(),
{
    if metas.len() == 0 {
        Seq::empty()
    } else {
        let i = metas.len() - 1;
        let m = metas[i];
        let prev = noted_arguments(metas.drop_last(), arguments);
        if (m.hoist || m.scope) && i < arguments.len() {
            prev.push(HoistArgument { address: arguments[i], hoist: m.hoist, scope: m.scope })
        } else {
            prev
        }
    }
}

/// The statement before which an expression hoisted to `scope_id` goes.
pub fn hoist_target(stack: &[HoistStackEntry], scope_id: u32) -> (r: Option<u64>)
    ensures
        r == hoist_target_spec(stack@, scope_id),
{
    let mut i: usize = 0;
    assert(stack@.subrange(0, stack@.len() as int) =~= stack@);
    while i < stack.len()
        invariant
            i <= stack@.len(),
            hoist_target_spec(stack@, scope_id) == hoist_target_spec(stack@.subrange(i as int, stack@.len() as int), scope_id),
        decreases stack@.len() - i,
    {
        let ghost sub = stack@.subrange(i as int, stack@.len() as int);
        assert(sub.drop_first() =~= stack@.subrange(i + 1, stack@.len() as int));
        if stack[i].scope_id == scope_id {
            return match stack[i].kind {
                HoistStackEntryKind::Scope(s) => s.current_statement,
                _ => None,
            };
        }
        i = i + 1;
    }
    None
}

} // verus!
