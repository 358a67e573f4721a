//! Deferred edits of statement lists: statements to insert before a target
//! statement, targets to remove, and statements to add at the top of the
//! program after its imports. Statements are identified by their address.
use std::collections::HashMap;
use vstd::prelude::*;

verus! {

broadcast use vstd::std_specs::hash::group_hash_axioms;

/// The edits pending for one target statement.
pub struct StatementModification<S> {
    pub insertions: Vec<S>,
    pub remove: bool,
}

/// Statements to insert and remove, applied when a statement list is left.
pub struct Statements<S> {
    top_level: Vec<S>,
    modifications: HashMap<u64, StatementModification<S>>,
}

/// The pending edits of one target: statements to insert before it, and
/// whether to drop it.
pub type EditView<S> = (Seq<S>, bool);

/// Applying the edits `mods` to the statement list `stmts`, whose addresses
/// are `addrs`, left to right: the edited list, and the edits left over.
/// The edits of an address are used up by its first statement.
pub open spec fn apply_edits<S>(
    mods: Map<u64, EditView<S>>,
    stmts: Seq<S>,
    addrs: Seq<u64>,
) -> (Seq<S>, Map<u64, EditView<S>>)
    decreases stmts.len(),
{
    if stmts.len() == 0 || addrs.len() != stmts.len() {
        (Seq::empty(), mods)
    } else {
        let (out, m) = apply_edits(mods, stmts.drop_last(), addrs.drop_last());
        let a = addrs.last();
        let s = stmts.last();
        if m.contains_key(a) {
            let kept: Seq<S> = if m[a].1 { Seq::empty() } else { seq![s] };
            (out + m[a].0 + kept, m.remove(a))
        } else {
            (out.push(s), m)
        }
    }
}

/// Index of the first statement that is no import, or the length.
pub open spec fn first_non_import(is_import: Seq<bool>) -> int
    decreases is_import.len(),
{
    if is_import.len() == 0 {
        0
    } else if !is_import[0] {
        0
    } else {
        1 + first_non_import(is_import.drop_first())
    }
}

impl<S> Statements<S> {
    /// The statements waiting to go to the top of the program.
    pub closed spec fn top_level_view(&self) -> Seq<S> {
        self.top_level@
    }

    /// The pending edits, by target address.
    pub closed spec fn edits(&self) -> Map<u64, EditView<S>> {
        self.modifications@.map_values(|m: StatementModification<S>| (m.insertions@, m.remove))
    }

    pub fn new() -> (r: Self)
        ensures
            r.top_level_view() == Seq::<S>::empty(),
            r.edits() == Map::<u64, EditView<S>>::empty(),
    {
        let r = Statements { top_level: Vec::new(), modifications: HashMap::new() };
        assert(r.edits() =~= Map::<u64, EditView<S>>::empty());
        r
    }

    pub fn insert_top_level_statement(&mut self, stmt: S)
        ensures
            final(self).top_level_view() == old(self).top_level_view().push(stmt),
            final(self).edits() == old(self).edits(),
    {
        self.top_level.push(stmt);
    }

    /// Inserts `stmt` before the statement at address `target`.
    pub fn insert_before(&mut self, target: u64, stmt: S)
        ensures
            final(self).top_level_view() == old(self).top_level_view(),
            final(self).edits() == old(self).edits().insert(
                target,
                if old(self).edits().contains_key(target) {
                    (old(self).edits()[target].0.push(stmt), old(self).edits()[target].1)
                } else {
                    (seq![stmt], false)
                },
            ),
    {
        let ghost old_mods = self.modifications@;
        let m = self.modifications.remove(&target);
        let mut m = match m {
            Some(m) => m,
            None => StatementModification { insertions: Vec::new(), remove: false },
        };
        m.insertions.push(stmt);
        self.modifications.insert(target, m);
        proof {
            assert(self.edits() =~= old(self).edits().insert(
                target,
                if old(self).edits().contains_key(target) {
                    (old(self).edits()[target].0.push(stmt), old(self).edits()[target].1)
                } else {
                    (seq![stmt], false)
                },
            ));
        }
    }

    /// Marks the statement at address `target` for removal.
    pub fn remove(&mut self, target: u64)
        ensures
            final(self).top_level_view() == old(self).top_level_view(),
            final(self).edits() == old(self).edits().insert(
                target,
                if old(self).edits().contains_key(target) {
                    (old(self).edits()[target].0, true)
                } else {
                    (Seq::empty(), true)
                },
            ),
    {
        self.remove_address(target);
    }

    /// Marks the statement at address `target` for removal.
    pub fn remove_address(&mut self, target: u64)
        ensures
            final(self).top_level_view() == old(self).top_level_view(),
            final(self).edits() == old(self).edits().insert(
                target,
                if old(self).edits().contains_key(target) {
                    (old(self).edits()[target].0, true)
                } else {
                    (Seq::empty(), true)
                },
            ),
    {
        let m = self.modifications.remove(&target);
        let mut m = match m {
            Some(m) => m,
            None => StatementModification { insertions: Vec::new(), remove: true },
        };
        m.remove = true;
        self.modifications.insert(target, m);
        proof {
            assert(self.edits() =~= old(self).edits().insert(
                target,
                if old(self).edits().contains_key(target) {
                    (old(self).edits()[target].0, true)
                } else {
                    (Seq::empty(), true)
                },
            ));
        }
    }

    /// Applies the pending edits to a statement list being left. `addresses`
    /// holds the address of each statement. Edits of addresses that are not
    /// in the list stay pending.
    pub fn exit_statements(&mut self, statements: Vec<S>, addresses: &[u64]) -> (r: Vec<S>)
        requires
            addresses@.len() == statements@.len(),
        ensures
            r@ == apply_edits(old(self).edits(), statements@, addresses@).0,
            final(self).edits() == apply_edits(old(self).edits(), statements@, addresses@).1,
            final(self).top_level_view() == old(self).top_level_view(),
    {
        let ghost stmts0 = statements@;
        let mut out: Vec<S> = Vec::new();
        let mut rest = statements;
        let mut rev: Vec<S> = Vec::new();
        // Reverse so that statements can be taken from the front by `pop`.
        while rest.len() > 0
            invariant
                rev@ + rest@.reverse() == stmts0.reverse(),
            decreases rest.len(),
        {
            let ghost r0 = rest@;
            let s = rest.pop().unwrap();
            proof {
                assert(r0 == rest@.push(s));
                assert(r0.reverse() =~= seq![s] + rest@.reverse());
                assert(rev@.push(s) + rest@.reverse() =~= rev@ + r0.reverse());
            }
            rev.push(s);
        }
        assert(rest@.reverse() =~= Seq::<S>::empty());
        assert(rev@ =~= stmts0.reverse());
        let mut i: usize = 0;
        let n = addresses.len();
        while i < n
            invariant
                n == addresses@.len() == stmts0.len(),
                i <= n,
                rev@.len() == n - i,
                forall|k: int| 0 <= k < n - i ==> rev@[k] == stmts0[n - 1 - k],
                (out@, self.edits()) == apply_edits(
                    old(self).edits(),
                    stmts0.subrange(0, i as int),
                    addresses@.subrange(0, i as int),
                ),
                self.top_level_view() == old(self).top_level_view(),
            decreases n - i,
        {
            let ghost r0 = rev@;
            let s = rev.pop().unwrap();
            proof {
                assert(rev@ =~= r0.drop_last());
                assert(s == stmts0[i as int]);
                assert(stmts0.subrange(0, i + 1).drop_last() =~= stmts0.subrange(0, i as int));
                assert(addresses@.subrange(0, i + 1).drop_last() =~= addresses@.subrange(
                    0,
                    i as int,
                ));
                assert(forall|k: int| 0 <= k < n - i - 1 ==> rev@[k] == r0[k]);
            }
            let a = addresses[i];
            assert(rev@.len() == n - i - 1);
            let ghost e0 = self.edits();
            let m = self.modifications.remove(&a);
            match m {
                Some(m) => {
                    let StatementModification { insertions, remove } = m;
                    let mut ins = insertions;
                    let ghost out0 = out@;
                    let ghost ins0 = ins@;
                    out.append(&mut ins);
                    if !remove {
                        out.push(s);
                    }
                    proof {
                        assert(e0.contains_key(a));
                        assert(e0[a] == (ins0, remove));
                        assert(self.edits() =~= e0.remove(a));
                        let kept: Seq<S> = if remove { Seq::empty() } else { seq![s] };
                        assert(out@ =~= out0 + ins0 + kept);
                    }
                },
                None => {
                    proof {
                        assert(!e0.contains_key(a));
                        assert(self.edits() =~= e0);
                    }
                    out.push(s);
                },
            }
            assert(rev@.len() == n - i - 1);
            i += 1;
        }
        assert(stmts0.subrange(0, n as int) =~= stmts0);
        assert(addresses@.subrange(0, n as int) =~= addresses@);
        out
    }

    /// Puts the statements collected for the top of the program before the
    /// first statement of `body` that is no import, and empties that list.
    /// `is_import` tells for each statement of `body` whether it is an
    /// import declaration.
    pub fn exit_program(&mut self, body: Vec<S>, is_import: &[bool]) -> (r: Vec<S>)
        requires
            is_import@.len() == body@.len(),
        ensures
            r@ == body@.subrange(0, first_non_import(is_import@)) + old(self).top_level_view()
                + body@.subrange(first_non_import(is_import@), body@.len() as int),
            final(self).top_level_view() == Seq::<S>::empty(),
            final(self).edits() == old(self).edits(),
    {
        let mut idx: usize = 0;
        assert(is_import@.subrange(0, is_import@.len() as int) =~= is_import@);
        while idx < is_import.len() && is_import[idx]
            invariant
                idx <= is_import@.len(),
                first_non_import(is_import@) == idx + first_non_import(
                    is_import@.subrange(idx as int, is_import@.len() as int),
                ),
            decreases is_import@.len() - idx,
        {
            proof {
                let t = is_import@.subrange(idx as int, is_import@.len() as int);
                assert(t.drop_first() =~= is_import@.subrange(idx + 1, is_import@.len() as int));
            }
            idx += 1;
        }
        proof {
            let t = is_import@.subrange(idx as int, is_import@.len() as int);
            assert(first_non_import(t) == 0);
        }
        let mut top = Vec::new();
        std::mem::swap(&mut top, &mut self.top_level);
        let mut out: Vec<S> = Vec::new();
        let mut rest = body;
        let mut tail = rest.split_off(idx);
        out.append(&mut rest);
        out.append(&mut top);
        out.append(&mut tail);
        out
    }
}

/// Edits of addresses that are not in the list change nothing.
pub proof fn lemma_apply_untouched<S>(m: Map<u64, EditView<S>>, stmts: Seq<S>, addrs: Seq<u64>)
    requires
        addrs.len() == stmts.len(),
        forall|j: int| 0 <= j < addrs.len() ==> !m.contains_key(#[trigger] addrs[j]),
    ensures
        apply_edits(m, stmts, addrs) == (stmts, m),
    decreases stmts.len(),
{
    if stmts.len() > 0 {
        lemma_apply_untouched(m, stmts.drop_last(), addrs.drop_last());
        assert(!m.contains_key(addrs[addrs.len() - 1]));
        assert(stmts.drop_last().push(stmts.last()) =~= stmts);
    } else {
        assert(stmts =~= Seq::<S>::empty());
    }
}

/// Applying edits to a list is applying them to its first `k` statements
/// and then what is left of them to the rest.
pub proof fn lemma_apply_split<S>(m: Map<u64, EditView<S>>, stmts: Seq<S>, addrs: Seq<u64>, k: int)
    requires
        addrs.len() == stmts.len(),
        0 <= k <= stmts.len(),
    ensures
        ({
            let (o1, m1) = apply_edits(m, stmts.subrange(0, k), addrs.subrange(0, k));
            let (o2, m2) = apply_edits(
                m1,
                stmts.subrange(k, stmts.len() as int),
                addrs.subrange(k, addrs.len() as int),
            );
            apply_edits(m, stmts, addrs) == (o1 + o2, m2)
        }),
    decreases stmts.len(),
{
    if k == stmts.len() {
        assert(stmts.subrange(0, k) =~= stmts);
        assert(addrs.subrange(0, k) =~= addrs);
        let (o1, m1) = apply_edits(m, stmts, addrs);
        assert(stmts.subrange(k, stmts.len() as int) =~= Seq::<S>::empty());
        assert(o1 + Seq::<S>::empty() =~= o1);
    } else {
        let n = stmts.len();
        lemma_apply_split(m, stmts.drop_last(), addrs.drop_last(), k);
        assert(stmts.drop_last().subrange(0, k) =~= stmts.subrange(0, k));
        assert(addrs.drop_last().subrange(0, k) =~= addrs.subrange(0, k));
        let t = stmts.subrange(k, n as int);
        let ta = addrs.subrange(k, n as int);
        assert(stmts.drop_last().subrange(k, n - 1) =~= t.drop_last());
        assert(addrs.drop_last().subrange(k, n - 1) =~= ta.drop_last());
        let (o1, m1) = apply_edits(m, stmts.subrange(0, k), addrs.subrange(0, k));
        let (o2, m2) = apply_edits(m1, t.drop_last(), ta.drop_last());
        assert(t.last() == stmts.last());
        assert(ta.last() == addrs.last());
        let a = addrs.last();
        let x = stmts.last();
        if m2.contains_key(a) {
            let kept: Seq<S> = if m2[a].1 { Seq::empty() } else { seq![x] };
            assert(o1 + o2 + m2[a].0 + kept =~= o1 + (o2 + m2[a].0 + kept));
        } else {
            assert((o1 + o2).push(x) =~= o1 + o2.push(x));
        }
    }
}

/// One insertion before a statement whose address occurs once in the list:
/// the inserted statement comes right before it, nothing else changes, and
/// no edit is left pending.
pub proof fn lemma_single_insertion<S>(stmts: Seq<S>, addrs: Seq<u64>, k: int, x: S)
    requires
        addrs.len() == stmts.len(),
        0 <= k < addrs.len(),
        forall|j: int| 0 <= j < addrs.len() && j != k ==> addrs[j] != addrs[k],
    ensures
        apply_edits(map![addrs[k] => (seq![x], false)], stmts, addrs) == (
            stmts.subrange(0, k).push(x) + stmts.subrange(k, stmts.len() as int),
            Map::<u64, EditView<S>>::empty(),
        ),
{
    lemma_single_edit(stmts, addrs, k, (seq![x], false));
    assert(stmts.subrange(0, k) + seq![x] + seq![stmts[k]] + stmts.subrange(k + 1, stmts.len() as int)
        =~= stmts.subrange(0, k).push(x) + stmts.subrange(k, stmts.len() as int));
}

/// Removal of a statement whose address occurs once in the list: exactly
/// that statement goes, and no edit is left pending.
pub proof fn lemma_single_removal<S>(stmts: Seq<S>, addrs: Seq<u64>, k: int)
    requires
        addrs.len() == stmts.len(),
        0 <= k < addrs.len(),
        forall|j: int| 0 <= j < addrs.len() && j != k ==> addrs[j] != addrs[k],
    ensures
        apply_edits(map![addrs[k] => (Seq::<S>::empty(), true)], stmts, addrs) == (
            stmts.subrange(0, k) + stmts.subrange(k + 1, stmts.len() as int),
            Map::<u64, EditView<S>>::empty(),
        ),
{
    lemma_single_edit(stmts, addrs, k, (Seq::<S>::empty(), true));
    assert(stmts.subrange(0, k) + Seq::<S>::empty() + Seq::<S>::empty() + stmts.subrange(
        k + 1,
        stmts.len() as int,
    ) =~= stmts.subrange(0, k) + stmts.subrange(k + 1, stmts.len() as int));
}

proof fn lemma_single_edit<S>(stmts: Seq<S>, addrs: Seq<u64>, k: int, e: EditView<S>)
    requires
        addrs.len() == stmts.len(),
        0 <= k < addrs.len(),
        forall|j: int| 0 <= j < addrs.len() && j != k ==> addrs[j] != addrs[k],
    ensures
        apply_edits(map![addrs[k] => e], stmts, addrs) == (
            stmts.subrange(0, k) + e.0 + (if e.1 { Seq::<S>::empty() } else { seq![stmts[k]] })
                + stmts.subrange(k + 1, stmts.len() as int),
            Map::<u64, EditView<S>>::empty(),
        ),
{
    let a = addrs[k];
    let m = map![a => e];
    let n = stmts.len() as int;
    let empty = Map::<u64, EditView<S>>::empty();
    lemma_apply_split(m, stmts, addrs, k);
    let pa = addrs.subrange(0, k);
    assert forall|j: int| 0 <= j < pa.len() implies !m.contains_key(#[trigger] pa[j]) by {
        assert(pa[j] == addrs[j]);
    }
    lemma_apply_untouched(m, stmts.subrange(0, k), pa);
    let t = stmts.subrange(k, n);
    let ta = addrs.subrange(k, n);
    lemma_apply_split(m, t, ta, 1);
    let t1 = t.subrange(0, 1);
    let ta1 = ta.subrange(0, 1);
    assert(t1.drop_last() =~= Seq::<S>::empty());
    assert(ta1.drop_last() =~= Seq::<u64>::empty());
    assert(apply_edits(m, t1.drop_last(), ta1.drop_last()) == (Seq::<S>::empty(), m));
    assert(ta1.last() == a);
    assert(t1.last() == stmts[k]);
    assert(m.contains_key(a));
    assert(m.remove(a) =~= empty);
    let kept: Seq<S> = if e.1 { Seq::empty() } else { seq![stmts[k]] };
    assert(apply_edits(m, t1, ta1) == (Seq::<S>::empty() + e.0 + kept, m.remove(a)));
    let rest = t.subrange(1, t.len() as int);
    let rest_a = ta.subrange(1, ta.len() as int);
    assert(rest =~= stmts.subrange(k + 1, n));
    lemma_apply_untouched(empty, rest, rest_a);
    assert(Seq::<S>::empty() + e.0 + kept =~= e.0 + kept);
    assert(stmts.subrange(0, k) + (e.0 + kept + rest) =~= stmts.subrange(0, k) + e.0 + kept + rest);
}

} // verus!
