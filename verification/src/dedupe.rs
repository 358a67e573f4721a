//! Bookkeeping for expression deduplication: the hashes seen in each
//! enclosing statement list, and for each hashed expression whether it is
//! an original or a duplicate of an earlier one.
use std::collections::HashMap;
use vstd::prelude::*;

verus! {

broadcast use vstd::std_specs::hash::group_hash_axioms;

/// A hash seen in a scope and the address of the expression that had it
/// first.
#[derive(Clone, Copy, Debug)]
pub struct DedupeEntry {
    pub hash: [u8; 20],
    pub address: u64,
}

/// Hashes seen per statement-list scope (outermost first), the role of each
/// hashed expression (`None`: an original; `Some(a)`: a duplicate of the
/// expression at `a`), the number of duplicates of each original, and the
/// number of duplicates found.
pub struct DedupeState {
    pub scopes: Vec<Vec<DedupeEntry>>,
    pub expressions: HashMap<u64, Option<u64>>,
    pub counts: HashMap<u64, u32>,
    pub duplicates: u32,
}

/// The address stored for `h` in one scope: that of its first entry.
pub open spec fn scope_lookup(entries: Seq<(Seq<u8>, u64)>, h: Seq<u8>) -> Option<u64>
    decreases entries.len(),
{
    if entries.len() == 0 {
        None
    } else if entries[0].0 == h {
        Some(entries[0].1)
    } else {
        scope_lookup(entries.drop_first(), h)
    }
}

/// The original of `h`: its entry in the outermost scope that has one.
pub open spec fn find_original(scopes: Seq<Seq<(Seq<u8>, u64)>>, h: Seq<u8>) -> Option<u64>
    decreases scopes.len(),
{
    if scopes.len() == 0 {
        None
    } else if scope_lookup(scopes[0], h) is Some {
        scope_lookup(scopes[0], h)
    } else {
        find_original(scopes.drop_first(), h)
    }
}

/// The abstract state: scopes, roles of expressions and duplicate count.
pub struct DedupeView {
    pub scopes: Seq<Seq<(Seq<u8>, u64)>>,
    pub expressions: Map<u64, Option<u64>>,
    pub counts: Map<u64, u32>,
    pub duplicates: u32,
}

/// The number of duplicates recorded for the original at `o`.
pub open spec fn count_of(counts: Map<u64, u32>, o: u64) -> u32 {
    if counts.contains_key(o) {
        counts[o]
    } else {
        0
    }
}

/// One more, saturating at `u32::MAX`.
pub open spec fn sat_inc(n: u32) -> u32 {
    if n < u32::MAX {
        (n + 1) as u32
    } else {
        n
    }
}

/// What recording the expression at `address` with hash `h` does: a hash
/// already seen makes it a duplicate of the original; a new one is entered
/// in the innermost scope, if there is one, and makes it an original.
pub open spec fn add_spec(s: DedupeView, address: u64, h: Seq<u8>) -> DedupeView {
    match find_original(s.scopes, h) {
        Some(o) => DedupeView {
            expressions: s.expressions.insert(address, Some(o)),
            counts: s.counts.insert(o, sat_inc(count_of(s.counts, o))),
            duplicates: sat_inc(s.duplicates),
            ..s
        },
        None => if s.scopes.len() == 0 {
            s
        } else {
            DedupeView {
                scopes: s.scopes.update(
                    s.scopes.len() - 1,
                    s.scopes[s.scopes.len() - 1].push((h, address)),
                ),
                expressions: s.expressions.insert(address, None),
                ..s
            }
        },
    }
}


proof fn lemma_scope_lookup_push(entries: Seq<(Seq<u8>, u64)>, e: (Seq<u8>, u64), h: Seq<u8>)
    ensures
        scope_lookup(entries.push(e), h) == if scope_lookup(entries, h) is Some {
            scope_lookup(entries, h)
        } else if e.0 == h {
            Some(e.1)
        } else {
            None
        },
    decreases entries.len(),
{
    if entries.len() > 0 {
        assert(entries.push(e)[0] == entries[0]);
        assert(entries.push(e).drop_first() =~= entries.drop_first().push(e));
        lemma_scope_lookup_push(entries.drop_first(), e, h);
    } else {
        assert(entries.push(e)[0] == e);
        assert(entries.push(e).drop_first() =~= Seq::<(Seq<u8>, u64)>::empty());
        assert(scope_lookup(Seq::<(Seq<u8>, u64)>::empty(), h) is None);
    }
}

/// `find_original` after the innermost scope gained an entry.
pub(crate) proof fn lemma_find_after_push_last(scopes: Seq<Seq<(Seq<u8>, u64)>>, e: (Seq<u8>, u64), h: Seq<u8>)
    requires
        scopes.len() > 0,
    ensures
        find_original(scopes.update(scopes.len() - 1, scopes[scopes.len() - 1].push(e)), h) == if find_original(
            scopes,
            h,
        ) is Some {
            find_original(scopes, h)
        } else if e.0 == h {
            Some(e.1)
        } else {
            None
        },
    decreases scopes.len(),
{
    let n = scopes.len();
    let up = scopes.update(n - 1, scopes[n - 1].push(e));
    lemma_scope_lookup_push(scopes[n - 1], e, h);
    if n == 1 {
        assert(up.drop_first() =~= Seq::<Seq<(Seq<u8>, u64)>>::empty());
        assert(scopes.drop_first() =~= Seq::<Seq<(Seq<u8>, u64)>>::empty());
    } else {
        assert(up.drop_first() =~= scopes.drop_first().update(n - 2, scopes.drop_first()[n - 2].push(e)));
        lemma_find_after_push_last(scopes.drop_first(), e, h);
    }
}

/// A hash recorded while a scope is open is found afterwards, either as its
/// earlier original or as the address just recorded.
pub proof fn lemma_add_then_found(s: DedupeView, address: u64, hash: [u8; 20])
    requires
        s.scopes.len() > 0,
    ensures
        find_original(add_spec(s, address, hash@).scopes, hash@)
            == if find_original(s.scopes, hash@) is Some {
            find_original(s.scopes, hash@)
        } else {
            Some(address)
        },
{
    if find_original(s.scopes, hash@) is None {
        lemma_find_after_push_last(s.scopes, (hash@, address), hash@);
    }
}

/// The first expression recorded with a new hash is an original, and a
/// later expression with the same hash is recorded as its duplicate, which
/// counts one more duplicate.
pub proof fn lemma_second_is_duplicate(s: DedupeView, a1: u64, a2: u64, hash: [u8; 20])
    requires
        s.scopes.len() > 0,
        find_original(s.scopes, hash@) is None,
        a1 != a2,
        s.duplicates < u32::MAX,
    ensures
        ({
            let s1 = add_spec(s, a1, hash@);
            let s2 = add_spec(s1, a2, hash@);
            &&& s2.expressions[a1] == None::<u64>
            &&& s2.expressions[a2] == Some(a1)
            &&& s2.duplicates == s.duplicates + 1
            &&& s2.scopes == s1.scopes
        }),
{
    lemma_add_then_found(s, a1, hash);
}

/// Hashes recorded in a scope are forgotten when the scope closes: opening
/// a scope, recording a new hash there and closing it again leaves the
/// scopes as they were.
pub proof fn lemma_scope_local(s: DedupeView, address: u64, hash: [u8; 20])
    ensures
        ({
            let opened = DedupeView { scopes: s.scopes.push(Seq::empty()), ..s };
            let added = add_spec(opened, address, hash@);
            added.scopes.drop_last() == s.scopes
        }),
{
    let opened = DedupeView { scopes: s.scopes.push(Seq::empty()), ..s };
    let added = add_spec(opened, address, hash@);
    assert(added.scopes.drop_last() =~= s.scopes);
}

/// Compares two hashes.
fn same_hash(a: &[u8; 20], b: &[u8; 20]) -> (r: bool)
    ensures
        r == (a@ == b@),
{
    let mut i: usize = 0;
    while i < 20
        invariant
            i <= 20,
            a@.len() == 20,
            b@.len() == 20,
            forall|k: int| 0 <= k < i ==> a@[k] == b@[k],
        decreases 20 - i,
    {
        if a[i] != b[i] {
            return false;
        }
        i += 1;
    }
    assert(a@ =~= b@);
    true
}

fn lookup_in_scope(entries: &Vec<DedupeEntry>, h: &[u8; 20]) -> (r: Option<u64>)
    ensures
        r == scope_lookup(entries@.map_values(|e: DedupeEntry| (e.hash@, e.address)), h@),
{
    let ghost es = entries@.map_values(|e: DedupeEntry| (e.hash@, e.address));
    let mut i: usize = 0;
    assert(es.subrange(0, es.len() as int) =~= es);
    while i < entries.len()
        invariant
            i <= entries@.len(),
            es == entries@.map_values(|e: DedupeEntry| (e.hash@, e.address)),
            scope_lookup(es, h@) == scope_lookup(es.subrange(i as int, es.len() as int), h@),
        decreases entries@.len() - i,
    {
        let ghost rest = es.subrange(i as int, es.len() as int);
        assert(rest.drop_first() =~= es.subrange(i + 1, es.len() as int));
        if same_hash(&entries[i].hash, h) {
            return Some(entries[i].address);
        }
        i += 1;
    }
    None
}

impl DedupeState {
    pub closed spec fn view(&self) -> DedupeView {
        DedupeView {
            scopes: self.scopes@.map_values(
                |v: Vec<DedupeEntry>| v@.map_values(|e: DedupeEntry| (e.hash@, e.address)),
            ),
            expressions: self.expressions@,
            counts: self.counts@,
            duplicates: self.duplicates,
        }
    }

    pub fn new() -> (r: Self)
        ensures
            r.view().scopes == Seq::<Seq<(Seq<u8>, u64)>>::empty(),
            r.view().expressions == Map::<u64, Option<u64>>::empty(),
            r.view().counts == Map::<u64, u32>::empty(),
            r.view().duplicates == 0,
    {
        let r = DedupeState {
            scopes: Vec::new(),
            expressions: HashMap::new(),
            counts: HashMap::new(),
            duplicates: 0,
        };
        assert(r.view().scopes =~= Seq::<Seq<(Seq<u8>, u64)>>::empty());
        r
    }

    /// Opens a statement-list scope.
    pub fn enter_scope(&mut self)
        ensures
            final(self).view() == (DedupeView {
                scopes: old(self).view().scopes.push(Seq::empty()),
                ..old(self).view()
            }),
    {
        self.scopes.push(Vec::new());
        let ghost n = old(self).scopes@.len();
        assert(self.scopes@[n as int]@.map_values(|e: DedupeEntry| (e.hash@, e.address)) =~= Seq::<
            (Seq<u8>, u64),
        >::empty());
        assert(self.view().scopes =~= old(self).view().scopes.push(Seq::empty()));
    }

    /// Closes the innermost statement-list scope, forgetting its hashes.
    pub fn exit_scope(&mut self)
        ensures
            final(self).view() == (DedupeView {
                scopes: if old(self).view().scopes.len() == 0 {
                    old(self).view().scopes
                } else {
                    old(self).view().scopes.drop_last()
                },
                ..old(self).view()
            }),
    {
        let _ = self.scopes.pop();
        assert(self.view().scopes =~= if old(self).view().scopes.len() == 0 {
            old(self).view().scopes
        } else {
            old(self).view().scopes.drop_last()
        });
    }

    /// The original recorded for `hash`, if any.
    pub fn find(&self, hash: &[u8; 20]) -> (r: Option<u64>)
        ensures
            r == find_original(self.view().scopes, hash@),
    {
        let ghost sc = self.view().scopes;
        let mut i: usize = 0;
        let n = self.scopes.len();
        assert(sc.subrange(0, n as int) =~= sc);
        while i < n
            invariant
                n == self.scopes@.len() == sc.len(),
                i <= n,
                sc == self.view().scopes,
                find_original(sc, hash@) == find_original(sc.subrange(i as int, n as int), hash@),
            decreases n - i,
        {
            let ghost rest = sc.subrange(i as int, n as int);
            assert(rest.drop_first() =~= sc.subrange(i + 1, n as int));
            assert(rest[0] == self.scopes@[i as int]@.map_values(|e: DedupeEntry| (e.hash@, e.address)));
            let found = lookup_in_scope(&self.scopes[i], hash);
            if found.is_some() {
                return found;
            }
            i += 1;
        }
        assert(sc.subrange(n as int, n as int) =~= Seq::<Seq<(Seq<u8>, u64)>>::empty());
        None
    }

    /// Records the expression at `address` with hash `hash`.
    pub fn add(&mut self, address: u64, hash: [u8; 20])
        ensures
            final(self).view() == add_spec(old(self).view(), address, hash@),
    {
        let ghost s0 = self.view();
        match self.find(&hash) {
            Some(original_address) => {
                self.duplicates = self.duplicates.saturating_add(1);
                self.expressions.insert(address, Some(original_address));
                let c = match self.counts.get(&original_address) {
                    Some(c) => *c,
                    None => 0,
                };
                self.counts.insert(original_address, c.saturating_add(1));
                assert(self.view().scopes =~= s0.scopes);
            },
            None => {
                let n = self.scopes.len();
                if n > 0 {
                    let mut last = self.scopes.pop().unwrap();
                    last.push(DedupeEntry { hash, address });
                    self.scopes.push(last);
                    self.expressions.insert(address, None);
                    assert(self.scopes@[n - 1]@.map_values(|e: DedupeEntry| (e.hash@, e.address))
                        =~= s0.scopes[n - 1].push((hash@, address)));
                    assert(self.view().scopes =~= s0.scopes.update(
                        s0.scopes.len() - 1,
                        s0.scopes[s0.scopes.len() - 1].push((hash@, address)),
                    ));
                }
            },
        }
    }

    /// The roles of the hashed expressions and the duplicate counts of the
    /// originals.
    pub fn into_roles(self) -> (r: (HashMap<u64, Option<u64>>, HashMap<u64, u32>))
        ensures
            r.0@ == self.view().expressions,
            r.1@ == self.view().counts,
    {
        (self.expressions, self.counts)
    }
}

} // verus!
