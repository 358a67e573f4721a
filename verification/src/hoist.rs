//! Hoisting scopes.
//!
//! - "Hoist Scope": a scope that can contain hoisted expressions. By
//!   default there is only the program scope; more are made with `scope()`.
//! - "Hoisted Expression": an expression to be hoisted to the outermost
//!   Hoist Scope from which all the symbols it reads are visible.
//! - "Inner Scope": the closest Hoist Scope; "Outer Scopes": the ones
//!   outside it.
//!
//! A hoisted expression may not be hoisted past a conditional
//! (`?:`, `if`, `switch`), and one hoisted into the Inner Scope must stand
//! inside a function of that scope.
use vstd::prelude::*;

verus! {

/// An entry of the stack of enclosing hoisting constructs, innermost last.
#[derive(Clone, Copy, Debug, PartialEq, Eq, Structural)]
pub struct HoistStackEntry {
    pub scope_id: u32,
    pub kind: HoistStackEntryKind,
}

#[derive(Clone, Copy, Debug, PartialEq, Eq, Structural)]
pub enum HoistStackEntryKind {
    Scope(HoistScope),
    FunctionBody,
    HoistExpr,
    Conditional,
}

/// An argument position of a call that hoists or opens a scope.
#[derive(Clone, Copy, Debug, PartialEq, Eq, Structural)]
pub struct HoistArgument {
    pub address: u64,
    pub hoist: bool,
    pub scope: bool,
}

/// A hoist scope and the statement of it currently being visited.
#[derive(Clone, Copy, Debug, PartialEq, Eq, Structural)]
pub struct HoistScope {
    pub current_statement: Option<u64>,
}

/// A hoistable expression being visited: the outermost scope whose symbols
/// it may read and the hoist scope it will be moved to, if any.
#[derive(Clone, Copy, Debug, PartialEq, Eq, Structural)]
pub struct HoistExpr {
    pub address: u64,
    pub outermost_scope_id: u32,
    pub hoist_scope_id: Option<u32>,
}

/// Where the walk up the scope chain stands relative to the hoisted
/// expression.
#[derive(Clone, Copy, Debug, PartialEq, Eq, Structural)]
pub enum WalkPhase {
    /// Inside the hoisted expression itself.
    HoistedExpr,
    /// Inside the closest hoist scope.
    Inner,
    /// Outside the closest hoist scope.
    Outer,
}

/// State of the walk up the scope chain.
#[derive(Clone, Copy, Debug, PartialEq, Eq, Structural)]
pub struct WalkState {
    pub phase: WalkPhase,
    pub inner_hoist_scope: bool,
    pub inner_inside_func: bool,
    pub conditional: bool,
    pub current_hoist_scope_id: Option<u32>,
}

/// The walk's state before the first ancestor.
pub open spec fn initial_walk() -> WalkState {
    WalkState {
        phase: WalkPhase::HoistedExpr,
        inner_hoist_scope: true,
        inner_inside_func: false,
        conditional: false,
        current_hoist_scope_id: None,
    }
}

/// One step of the walk: ancestor scope `a` against stack entry `e`.
pub enum Step {
    /// Drop `e` and look at the next entry for the same ancestor.
    Retry(WalkState),
    /// Leave the expression as it is.
    Stop,
    /// Go to the next ancestor; `bool` tells whether `e` was consumed.
    Next(WalkState, bool),
}

/// What one step does.
pub open spec fn walk_step(st: WalkState, a: u32, e: HoistStackEntry, sym: u32) -> Step {
    match st.phase {
        WalkPhase::HoistedExpr => match e.kind {
            HoistStackEntryKind::HoistExpr => Step::Retry(WalkState { phase: WalkPhase::Inner, ..st }),
            HoistStackEntryKind::Conditional => Step::Retry(st),
            _ => if a == sym {
                Step::Stop
            } else {
                Step::Next(st, a == e.scope_id)
            },
        },
        WalkPhase::Inner => match e.kind {
            HoistStackEntryKind::Scope(_) => if a == e.scope_id {
                Step::Next(
                    WalkState { phase: WalkPhase::Outer, current_hoist_scope_id: Some(a), ..st },
                    true,
                )
            } else {
                Step::Next(st, false)
            },
            HoistStackEntryKind::FunctionBody => if a == e.scope_id {
                Step::Next(WalkState { inner_inside_func: true, ..st }, true)
            } else {
                Step::Next(st, false)
            },
            HoistStackEntryKind::HoistExpr => Step::Retry(st),
            HoistStackEntryKind::Conditional => Step::Retry(WalkState { conditional: true, ..st }),
        },
        WalkPhase::Outer => match e.kind {
            HoistStackEntryKind::Scope(_) => if a == e.scope_id {
                Step::Next(
                    WalkState {
                        current_hoist_scope_id: Some(a),
                        inner_hoist_scope: false,
                        ..st
                    },
                    true,
                )
            } else {
                Step::Next(st, false)
            },
            HoistStackEntryKind::FunctionBody => Step::Next(st, a == e.scope_id),
            HoistStackEntryKind::HoistExpr => Step::Retry(st),
            HoistStackEntryKind::Conditional => Step::Retry(WalkState { conditional: true, ..st }),
        },
    }
}

/// The hoist scope chosen once the symbol's scope is reached.
pub open spec fn chosen_hoist_scope(st: WalkState) -> Option<u32> {
    if st.conditional || (st.inner_hoist_scope && !st.inner_inside_func) {
        None
    } else {
        st.current_hoist_scope_id
    }
}

/// The expression after the walk from ancestor `i` and stack height `p`.
pub open spec fn walk(
    expr: HoistExpr,
    anc: Seq<u32>,
    sym: u32,
    stack: Seq<HoistStackEntry>,
    i: nat,
    p: nat,
    st: WalkState,
) -> HoistExpr
    decreases anc.len() - i, p,
{
    if i >= anc.len() || p == 0 || p > stack.len() {
        expr
    } else {
        let a = anc[i as int];
        match walk_step(st, a, stack[p - 1], sym) {
            Step::Retry(st2) => walk(expr, anc, sym, stack, i, (p - 1) as nat, st2),
            Step::Stop => expr,
            Step::Next(st2, popped) => {
                let p2: nat = if popped { (p - 1) as nat } else { p };
                if a == sym {
                    HoistExpr {
                        outermost_scope_id: a,
                        hoist_scope_id: chosen_hoist_scope(st2),
                        ..expr
                    }
                } else {
                    walk(expr, anc, sym, stack, i + 1, p2, st2)
                }
            },
        }
    }
}

/// The result of `reduce_hoistable_scope`.
pub open spec fn reduce_spec(
    expr: HoistExpr,
    anc: Seq<u32>,
    sym: u32,
    stack: Seq<HoistStackEntry>,
) -> HoistExpr {
    if sym < expr.outermost_scope_id {
        expr
    } else {
        walk(expr, anc, sym, stack, 0, stack.len(), initial_walk())
    }
}

/// What the walk from ancestor `i` and stack height `p` decides, whatever
/// the expression: `None` leaves it, `Some(h)` gives it the symbol's scope as
/// its outermost scope and `h` as its hoist scope.
pub open spec fn walk_outcome(
    anc: Seq<u32>,
    sym: u32,
    stack: Seq<HoistStackEntry>,
    i: nat,
    p: nat,
    st: WalkState,
) -> Option<Option<u32>>
    decreases anc.len() - i, p,
{
    if i >= anc.len() || p == 0 || p > stack.len() {
        None
    } else {
        let a = anc[i as int];
        match walk_step(st, a, stack[p - 1], sym) {
            Step::Retry(st2) => walk_outcome(anc, sym, stack, i, (p - 1) as nat, st2),
            Step::Stop => None,
            Step::Next(st2, popped) => {
                let p2: nat = if popped { (p - 1) as nat } else { p };
                if a == sym {
                    Some(chosen_hoist_scope(st2))
                } else {
                    walk_outcome(anc, sym, stack, i + 1, p2, st2)
                }
            },
        }
    }
}

/// `expr` after a walk that decided `o` for the symbol's scope `sym`.
pub open spec fn apply_outcome(expr: HoistExpr, sym: u32, o: Option<Option<u32>>) -> HoistExpr {
    match o {
        None => expr,
        Some(h) => HoistExpr { outermost_scope_id: sym, hoist_scope_id: h, ..expr },
    }
}

proof fn lemma_walk_outcome(
    expr: HoistExpr,
    anc: Seq<u32>,
    sym: u32,
    stack: Seq<HoistStackEntry>,
    i: nat,
    p: nat,
    st: WalkState,
)
    ensures
        walk(expr, anc, sym, stack, i, p, st) == apply_outcome(expr, sym, walk_outcome(anc, sym, stack, i, p, st)),
    decreases anc.len() - i, p,
{
    if i >= anc.len() || p == 0 || p > stack.len() {
    } else {
        let a = anc[i as int];
        match walk_step(st, a, stack[p - 1], sym) {
            Step::Retry(st2) => {
                lemma_walk_outcome(expr, anc, sym, stack, i, (p - 1) as nat, st2);
            },
            Step::Stop => {},
            Step::Next(st2, popped) => {
                let p2: nat = if popped { (p - 1) as nat } else { p };
                if a != sym {
                    lemma_walk_outcome(expr, anc, sym, stack, i + 1, p2, st2);
                }
            },
        }
    }
}

/// Narrowing for two symbols read at the same place gives the same result in
/// either order: what comes out depends on the innermost of the symbols'
/// scopes, not on the order of the references.
pub proof fn lemma_reduce_commutes(
    expr: HoistExpr,
    ancestors: Seq<u32>,
    s1: u32,
    s2: u32,
    hoist_scopes: Seq<HoistStackEntry>,
)
    ensures
        reduce_spec(reduce_spec(expr, ancestors, s1, hoist_scopes), ancestors, s2, hoist_scopes) == reduce_spec(
            reduce_spec(expr, ancestors, s2, hoist_scopes),
            ancestors,
            s1,
            hoist_scopes,
        ),
{
    let n = hoist_scopes.len();
    let e1 = reduce_spec(expr, ancestors, s1, hoist_scopes);
    let e2 = reduce_spec(expr, ancestors, s2, hoist_scopes);
    lemma_walk_outcome(expr, ancestors, s1, hoist_scopes, 0, n, initial_walk());
    lemma_walk_outcome(expr, ancestors, s2, hoist_scopes, 0, n, initial_walk());
    lemma_walk_outcome(e1, ancestors, s2, hoist_scopes, 0, n, initial_walk());
    lemma_walk_outcome(e2, ancestors, s1, hoist_scopes, 0, n, initial_walk());
}

#[verifier::spinoff_prover]
proof fn lemma_walk_outcome_conditional(
    anc: Seq<u32>,
    sym: u32,
    stack: Seq<HoistStackEntry>,
    i: nat,
    p: nat,
    st: WalkState,
)
    ensures
        walk_outcome(anc, sym, stack, i, p, WalkState { conditional: true, ..st }) == match walk_outcome(
            anc,
            sym,
            stack,
            i,
            p,
            st,
        ) {
            None => None,
            Some(_) => Some(None::<u32>),
        },
    decreases anc.len() - i, p,
{
    let stc = WalkState { conditional: true, ..st };
    if i >= anc.len() || p == 0 || p > stack.len() {
    } else {
        let a = anc[i as int];
        let e = stack[p - 1];
        match walk_step(st, a, e, sym) {
            Step::Retry(st2) => {
                assert(walk_step(stc, a, e, sym) == Step::Retry(WalkState { conditional: true, ..st2 }));
                lemma_walk_outcome_conditional(anc, sym, stack, i, (p - 1) as nat, st2);
            },
            Step::Stop => {
                assert(walk_step(stc, a, e, sym) is Stop);
            },
            Step::Next(st2, popped) => {
                assert(walk_step(stc, a, e, sym) == Step::Next(WalkState { conditional: true, ..st2 }, popped));
                let p2: nat = if popped { (p - 1) as nat } else { p };
                if a != sym {
                    lemma_walk_outcome_conditional(anc, sym, stack, i + 1, p2, st2);
                }
            },
        }
    }
}

#[verifier::spinoff_prover]
proof fn lemma_walk_outcome_prefix(
    anc: Seq<u32>,
    sym: u32,
    s1: Seq<HoistStackEntry>,
    s2: Seq<HoistStackEntry>,
    i: nat,
    p: nat,
    st: WalkState,
)
    requires
        p <= s1.len(),
        p <= s2.len(),
        s1.subrange(0, p as int) == s2.subrange(0, p as int),
    ensures
        walk_outcome(anc, sym, s1, i, p, st) == walk_outcome(anc, sym, s2, i, p, st),
    decreases anc.len() - i, p,
{
    if i >= anc.len() || p == 0 {
    } else {
        assert(s1[p - 1] == s1.subrange(0, p as int)[p - 1]);
        assert(s2[p - 1] == s2.subrange(0, p as int)[p - 1]);
        let a = anc[i as int];
        match walk_step(st, a, s1[p - 1], sym) {
            Step::Retry(st2) => {
                assert(s1.subrange(0, p - 1) =~= s1.subrange(0, p as int).subrange(0, p - 1));
                assert(s2.subrange(0, p - 1) =~= s2.subrange(0, p as int).subrange(0, p - 1));
                lemma_walk_outcome_prefix(anc, sym, s1, s2, i, (p - 1) as nat, st2);
            },
            Step::Stop => {},
            Step::Next(st2, popped) => {
                let p2: nat = if popped { (p - 1) as nat } else { p };
                assert(s1.subrange(0, p2 as int) =~= s1.subrange(0, p as int).subrange(0, p2 as int));
                assert(s2.subrange(0, p2 as int) =~= s2.subrange(0, p as int).subrange(0, p2 as int));
                if a != sym {
                    lemma_walk_outcome_prefix(anc, sym, s1, s2, i + 1, p2, st2);
                }
            },
        }
    }
}

/// A walk's decision once a conditional has been passed: it still moves the
/// expression's outermost scope, but gives it no hoist scope.
pub open spec fn past_conditional(o: Option<Option<u32>>) -> Option<Option<u32>> {
    match o {
        None => None,
        Some(_) => Some(None),
    }
}

#[verifier::spinoff_prover]
proof fn lemma_walk_outcome_shifted(
    anc: Seq<u32>,
    sym: u32,
    outer: Seq<HoistStackEntry>,
    c: HoistStackEntry,
    h: HoistStackEntry,
    inner: Seq<HoistStackEntry>,
    i: nat,
    p: nat,
    st: WalkState,
)
    requires
        h.kind is HoistExpr,
        c.kind is Conditional,
        forall|k: int| 0 <= k < inner.len() ==> !((#[trigger] inner[k]).kind is HoistExpr),
        st.phase is HoistedExpr,
        outer.len() + 1 <= p <= outer.len() + 1 + inner.len(),
    ensures
        walk_outcome(anc, sym, outer.push(c).push(h) + inner, i, p + 1, st) == past_conditional(
            walk_outcome(anc, sym, outer.push(h) + inner, i, p, st),
        ),
    decreases anc.len() - i, p,
{
    let plain = outer.push(h) + inner;
    let guarded = outer.push(c).push(h) + inner;
    let n = outer.len();
    if i >= anc.len() {
    } else if p == n + 1 {
        assert(plain[n as int] == h);
        assert(guarded[n + 1int] == h);
        assert(guarded[n as int] == c);
        let st1 = WalkState { phase: WalkPhase::Inner, ..st };
        let st1c = WalkState { conditional: true, ..st1 };
        assert(walk_step(st, anc[i as int], h, sym) == Step::Retry(st1));
        assert(walk_step(st1, anc[i as int], c, sym) == Step::Retry(st1c));
        assert(walk_outcome(anc, sym, plain, i, p, st) == walk_outcome(anc, sym, plain, i, n, st1));
        assert(walk_outcome(anc, sym, guarded, i, p + 1, st) == walk_outcome(anc, sym, guarded, i, p, st1));
        assert(walk_outcome(anc, sym, guarded, i, p, st1) == walk_outcome(anc, sym, guarded, i, n, st1c));
        assert(plain.subrange(0, n as int) =~= outer);
        assert(guarded.subrange(0, n as int) =~= outer);
        lemma_walk_outcome_prefix(anc, sym, plain, guarded, i, n, WalkState { conditional: true, ..st1 });
        lemma_walk_outcome_conditional(anc, sym, plain, i, n, st1);
    } else {
        let k = p - 1 - (n + 1);
        assert(plain[p - 1] == inner[k]);
        assert(guarded[p as int] == inner[k]);
        let e = inner[k];
        assert(!(e.kind is HoistExpr));
        let a = anc[i as int];
        match walk_step(st, a, e, sym) {
            Step::Retry(st2) => {
                lemma_walk_outcome_shifted(anc, sym, outer, c, h, inner, i, (p - 1) as nat, st2);
            },
            Step::Stop => {},
            Step::Next(st2, popped) => {
                let p2: nat = if popped { (p - 1) as nat } else { p };
                if a != sym {
                    lemma_walk_outcome_shifted(anc, sym, outer, c, h, inner, i + 1, p2, st2);
                }
            },
        }
    }
}

/// No hoisting past a conditional: when the hoisted expression (the
/// innermost on the stack) stands directly inside a `?:`, `if` or `switch`
/// (a `Conditional` entry right below its own entry on the stack), narrowing
/// gives it no hoist scope whenever it changes it at all; and the conditional
/// changes nothing else than that, compared with the same expression outside
/// the conditional.
pub proof fn lemma_conditional_blocks_hoisting(
    expr: HoistExpr,
    ancestors: Seq<u32>,
    sym_scope_id: u32,
    outer: Seq<HoistStackEntry>,
    conditional_scope: u32,
    hoisted_scope: u32,
    inner: Seq<HoistStackEntry>,
)
    requires
        forall|k: int| 0 <= k < inner.len() ==> !((#[trigger] inner[k]).kind is HoistExpr),
    ensures
        ({
            let h = HoistStackEntry { scope_id: hoisted_scope, kind: HoistStackEntryKind::HoistExpr };
            let c = HoistStackEntry { scope_id: conditional_scope, kind: HoistStackEntryKind::Conditional };
            let r = reduce_spec(expr, ancestors, sym_scope_id, outer.push(h) + inner);
            let g = reduce_spec(expr, ancestors, sym_scope_id, outer.push(c).push(h) + inner);
            &&& g != expr ==> g.hoist_scope_id is None && g.outermost_scope_id == sym_scope_id
            &&& g.address == r.address
            &&& g.outermost_scope_id == r.outermost_scope_id
            &&& g == r || g.hoist_scope_id is None
        }),
{
    let h = HoistStackEntry { scope_id: hoisted_scope, kind: HoistStackEntryKind::HoistExpr };
    let c = HoistStackEntry { scope_id: conditional_scope, kind: HoistStackEntryKind::Conditional };
    let plain = outer.push(h) + inner;
    let guarded = outer.push(c).push(h) + inner;
    let init = initial_walk();
    lemma_walk_outcome(expr, ancestors, sym_scope_id, plain, 0, plain.len(), init);
    lemma_walk_outcome(expr, ancestors, sym_scope_id, guarded, 0, guarded.len(), init);
    lemma_walk_outcome_shifted(ancestors, sym_scope_id, outer, c, h, inner, 0, plain.len(), init);
}

/// `s` is the scope of a `Scope` entry of `stack` at index `lo` or above.
pub open spec fn is_scope_entry_from(stack: Seq<HoistStackEntry>, lo: int, s: u32) -> bool {
    exists|k: int|
        lo <= k < stack.len() && (#[trigger] stack[k]).kind is Scope && stack[k].scope_id == s
}

proof fn lemma_walk(
    expr: HoistExpr,
    anc: Seq<u32>,
    sym: u32,
    stack: Seq<HoistStackEntry>,
    i: nat,
    p: nat,
    st: WalkState,
)
    requires
        p <= stack.len(),
        st.current_hoist_scope_id matches Some(s) ==> is_scope_entry_from(stack, p as int, s)
            && anc.contains(s),
    ensures
        ({
            let r = walk(expr, anc, sym, stack, i, p, st);
            &&& r.address == expr.address
            &&& r == expr || (r.outermost_scope_id == sym && anc.contains(sym))
            &&& r == expr || (r.hoist_scope_id matches Some(s) ==> is_scope_entry_from(stack, 0, s)
                && anc.contains(s))
        }),
    decreases anc.len() - i, p,
{
    if i >= anc.len() || p == 0 || p > stack.len() {
    } else {
        let a = anc[i as int];
        let e = stack[p - 1];
        match walk_step(st, a, e, sym) {
            Step::Retry(st2) => {
                if let Some(s) = st2.current_hoist_scope_id {
                    let k = choose|k: int|
                        p <= k < stack.len() && (#[trigger] stack[k]).kind is Scope
                            && stack[k].scope_id == s;
                    assert(p - 1 <= k);
                }
                lemma_walk(expr, anc, sym, stack, i, (p - 1) as nat, st2);
            },
            Step::Stop => {},
            Step::Next(st2, popped) => {
                let p2: nat = if popped { (p - 1) as nat } else { p };
                assert(anc.contains(a)) by {
                    assert(anc[i as int] == a);
                }
                if let Some(s) = st2.current_hoist_scope_id {
                    if st2.current_hoist_scope_id != st.current_hoist_scope_id {
                        assert(s == a);
                        assert(e.kind is Scope && e.scope_id == s);
                        assert(is_scope_entry_from(stack, p - 1, s));
                    } else {
                        let k = choose|k: int|
                            p <= k < stack.len() && (#[trigger] stack[k]).kind is Scope
                                && stack[k].scope_id == s;
                        assert(p - 1 <= k);
                    }
                    assert(is_scope_entry_from(stack, p2 as int, s));
                    assert(is_scope_entry_from(stack, 0, s));
                }
                if a != sym {
                    lemma_walk(expr, anc, sym, stack, i + 1, p2, st2);
                }
            },
        }
    }
}

/// Laws of narrowing: the expression's address never changes; it changes at
/// all only by taking the symbol's scope as its outermost scope, which then
/// lies on the scope chain and is never outside the previous one; and the
/// hoist scope it then gets, if any, is a hoist scope of the stack that
/// encloses the reference.
pub proof fn lemma_reduce_hoistable_scope(
    expr: HoistExpr,
    ancestors: Seq<u32>,
    sym_scope_id: u32,
    hoist_scopes: Seq<HoistStackEntry>,
)
    ensures
        ({
            let r = reduce_spec(expr, ancestors, sym_scope_id, hoist_scopes);
            &&& r.address == expr.address
            &&& expr.outermost_scope_id <= r.outermost_scope_id
            &&& sym_scope_id < expr.outermost_scope_id ==> r == expr
            &&& r == expr || (r.outermost_scope_id == sym_scope_id && ancestors.contains(
                sym_scope_id,
            ))
            &&& r == expr || (r.hoist_scope_id matches Some(s) ==> is_scope_entry_from(
                hoist_scopes,
                0,
                s,
            ) && ancestors.contains(s))
        }),
{
    if !(sym_scope_id < expr.outermost_scope_id) {
        lemma_walk(expr, ancestors, sym_scope_id, hoist_scopes, 0, hoist_scopes.len(), initial_walk());
    }
}

fn step(st: WalkState, a: u32, e: HoistStackEntry, sym: u32) -> (r: Step)
    ensures
        r == walk_step(st, a, e, sym),
{
    match st.phase {
        WalkPhase::HoistedExpr => match e.kind {
            HoistStackEntryKind::HoistExpr => Step::Retry(
                WalkState { phase: WalkPhase::Inner, ..st },
            ),
            HoistStackEntryKind::Conditional => Step::Retry(st),
            _ => if a == sym {
                Step::Stop
            } else {
                Step::Next(st, a == e.scope_id)
            },
        },
        WalkPhase::Inner => match e.kind {
            HoistStackEntryKind::Scope(_) => if a == e.scope_id {
                Step::Next(
                    WalkState { phase: WalkPhase::Outer, current_hoist_scope_id: Some(a), ..st },
                    true,
                )
            } else {
                Step::Next(st, false)
            },
            HoistStackEntryKind::FunctionBody => if a == e.scope_id {
                Step::Next(WalkState { inner_inside_func: true, ..st }, true)
            } else {
                Step::Next(st, false)
            },
            HoistStackEntryKind::HoistExpr => Step::Retry(st),
            HoistStackEntryKind::Conditional => Step::Retry(WalkState { conditional: true, ..st }),
        },
        WalkPhase::Outer => match e.kind {
            HoistStackEntryKind::Scope(_) => if a == e.scope_id {
                Step::Next(
                    WalkState {
                        current_hoist_scope_id: Some(a),
                        inner_hoist_scope: false,
                        ..st
                    },
                    true,
                )
            } else {
                Step::Next(st, false)
            },
            HoistStackEntryKind::FunctionBody => Step::Next(st, a == e.scope_id),
            HoistStackEntryKind::HoistExpr => Step::Retry(st),
            HoistStackEntryKind::Conditional => Step::Retry(WalkState { conditional: true, ..st }),
        },
    }
}

/// The whole walk, computed.
fn walk_exec(e0: HoistExpr, ancestors: &[u32], sym_scope_id: u32, hoist_scopes: &[HoistStackEntry]) -> (r:
    HoistExpr)
    ensures
        r == walk(e0, ancestors@, sym_scope_id, hoist_scopes@, 0, hoist_scopes@.len(), initial_walk()),
{
    let mut st = WalkState {
        phase: WalkPhase::HoistedExpr,
        inner_hoist_scope: true,
        inner_inside_func: false,
        conditional: false,
        current_hoist_scope_id: None,
    };
    let mut i: usize = 0;
    let mut p: usize = hoist_scopes.len();
    loop
        invariant
            i <= ancestors@.len(),
            p <= hoist_scopes@.len(),
            walk(e0, ancestors@, sym_scope_id, hoist_scopes@, i as nat, p as nat, st) == walk(
                e0,
                ancestors@,
                sym_scope_id,
                hoist_scopes@,
                0,
                hoist_scopes@.len(),
                initial_walk(),
            ),
        decreases ancestors@.len() - i, p,
    {
        if i >= ancestors.len() || p == 0 {
            return e0;
        }
        let a = ancestors[i];
        match step(st, a, hoist_scopes[p - 1], sym_scope_id) {
            Step::Retry(st2) => {
                st = st2;
                p -= 1;
            },
            Step::Stop => {
                return e0;
            },
            Step::Next(st2, popped) => {
                if a == sym_scope_id {
                    let h = if st2.conditional || (st2.inner_hoist_scope && !st2.inner_inside_func) {
                        None
                    } else {
                        st2.current_hoist_scope_id
                    };
                    return HoistExpr { outermost_scope_id: a, hoist_scope_id: h, ..e0 };
                }
                if popped {
                    p -= 1;
                }
                st = st2;
                i += 1;
            },
        }
    }
}

/// Narrows the scope that a hoisted expression may be moved to, given that
/// it reads a symbol declared in `sym_scope_id`. `ancestors` lists the scope
/// of the reference and then its enclosing scopes up to the root;
/// `hoist_scopes` is the stack of enclosing hoisting constructs.
pub fn reduce_hoistable_scope(
    expr: &mut HoistExpr,
    ancestors: &[u32],
    sym_scope_id: u32,
    hoist_scopes: &[HoistStackEntry],
)
    ensures
        *final(expr) == reduce_spec(*old(expr), ancestors@, sym_scope_id, hoist_scopes@),
        final(expr).address == old(expr).address,
        old(expr).outermost_scope_id <= final(expr).outermost_scope_id,
        *final(expr) == *old(expr) || (final(expr).outermost_scope_id == sym_scope_id
            && ancestors@.contains(sym_scope_id)),
{
    proof {
        lemma_reduce_hoistable_scope(*expr, ancestors@, sym_scope_id, hoist_scopes@);
    }
    if sym_scope_id < expr.outermost_scope_id {
        return ;
    }
    let r = walk_exec(*expr, ancestors, sym_scope_id, hoist_scopes);
    *expr = r;
}

} // verus!
