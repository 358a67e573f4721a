//! Decisions of the chunk pass: which annotated expressions are hashed,
//! renamed or dropped, which global reads and singleton constructions are
//! replaced by hoisted constants, and where deduplicated expressions go.
use std::collections::HashMap;
use vstd::prelude::*;
use crate::annotation::Annotation;
use crate::globals::{child_path, is_singleton, Globals};
use crate::strmap::{str_eq, StrMap};

verus! {

broadcast use vstd::std_specs::hash::group_hash_axioms;

/// An expression marked for the chunk pass, by `__oveo__(expr, flags)` or by
/// a `/*@__CONST__*/` comment.
#[derive(Clone, Copy)]
pub struct AnnotatedExpr {
    pub address: u64,
    pub annotation: Annotation,
    pub from_comment: bool,
}

/// The marked expressions whose visit has not ended, innermost last.
pub struct AnnotationStack {
    items: Vec<AnnotatedExpr>,
}

impl AnnotationStack {
    pub closed spec fn view(&self) -> Seq<AnnotatedExpr> {
        self.items@
    }

    pub fn new() -> (r: Self)
        ensures
            r.view() == Seq::<AnnotatedExpr>::empty(),
    {
        AnnotationStack { items: Vec::new() }
    }

    pub fn push(&mut self, a: AnnotatedExpr)
        ensures
            final(self).view() == old(self).view().push(a),
    {
        self.items.push(a);
    }

    /// Takes the innermost mark when it is the one of the expression at
    /// `address`.
    pub fn pop_if_at(&mut self, address: u64) -> (r: Option<AnnotatedExpr>)
        ensures
            if old(self).view().len() > 0 && old(self).view().last().address == address {
                r == Some(old(self).view().last()) && final(self).view() == old(self).view().drop_last()
            } else {
                r is None && final(self).view() == old(self).view()
            },
    {
        let n = self.items.len();
        if n > 0 && self.items[n - 1].address == address {
            self.items.pop()
        } else {
            None
        }
    }
}

/// What becomes of a marked expression when its visit ends.
#[derive(PartialEq, Eq, Structural, Clone, Copy, Debug)]
pub enum AnnotationAction {
    /// Hash the expression where it stands (a `/*@__CONST__*/` mark).
    HashInPlace,
    /// Replace the `__oveo__` call by its argument, and hash that.
    UnwrapAndHash,
    /// Replace the `__oveo__` call by its argument, renaming a string
    /// literal argument as a property name.
    UnwrapKey,
    /// Replace the expression by `void 0`.
    Void,
}

/// The action for a marked expression: a dedupe mark, with deduplication on,
/// hashes; a key mark, with renaming on, renames; a call without an argument
/// left, or any other mark, becomes `void 0`.
pub open spec fn annotation_action_spec(
    dedupe: bool,
    rename_properties: bool,
    a: AnnotatedExpr,
    call_with_argument: bool,
) -> AnnotationAction {
    if dedupe && a.annotation.has_dedupe() {
        if a.from_comment {
            AnnotationAction::HashInPlace
        } else if call_with_argument {
            AnnotationAction::UnwrapAndHash
        } else {
            AnnotationAction::Void
        }
    } else if rename_properties && a.annotation.has_key() {
        if call_with_argument {
            AnnotationAction::UnwrapKey
        } else {
            AnnotationAction::Void
        }
    } else {
        AnnotationAction::Void
    }
}

/// Property renaming does not depend on deduplication. A mark whose key bit
/// (value 2) is set and whose dedupe bit (value 1) is not, on a call with
/// an argument left, is unwrapped and renamed whenever renaming is on,
/// whether deduplication is on or off, and becomes `void 0` when renaming is
/// off; and for every mark without the dedupe bit, turning deduplication on
/// or off changes nothing.
pub proof fn lemma_key_marks_ignore_dedupe(
    dedupe: bool,
    rename_properties: bool,
    a: AnnotatedExpr,
    call_with_argument: bool,
)
    requires
        a.annotation.flags % 2 == 0,
    ensures
        (a.annotation.flags / 2) % 2 == 1 ==> annotation_action_spec(dedupe, true, a, true)
            == AnnotationAction::UnwrapKey,
        (a.annotation.flags / 2) % 2 == 1 ==> annotation_action_spec(dedupe, false, a, true)
            == AnnotationAction::Void,
        annotation_action_spec(true, rename_properties, a, call_with_argument) == annotation_action_spec(
            false,
            rename_properties,
            a,
            call_with_argument,
        ),
{
    let f = a.annotation.flags;
    assert(f & 1u32 != 0 <==> f % 2 == 1) by (bit_vector);
    assert(f & 2u32 != 0 <==> (f / 2) % 2 == 1) by (bit_vector);
}

/// Decides what becomes of a marked expression (`call_with_argument`: it is
/// a call with an argument left).
pub fn annotation_action(
    dedupe: bool,
    rename_properties: bool,
    a: &AnnotatedExpr,
    call_with_argument: bool,
) -> (r: AnnotationAction)
    ensures
        r == annotation_action_spec(dedupe, rename_properties, *a, call_with_argument),
{
    if dedupe && a.annotation.is_dedupe() {
        if a.from_comment {
            AnnotationAction::HashInPlace
        } else if call_with_argument {
            AnnotationAction::UnwrapAndHash
        } else {
            AnnotationAction::Void
        }
    } else if rename_properties && a.annotation.is_key() {
        if call_with_argument {
            AnnotationAction::UnwrapKey
        } else {
            AnnotationAction::Void
        }
    } else {
        AnnotationAction::Void
    }
}

/// What to do with a global read or a singleton construction.
pub enum GlobalsPlan {
    /// Leave it.
    Keep,
    /// Replace it by a read of the constant with this symbol.
    Use(u32),
    /// Declare `const uid = name;` for the global at `path`, then use it.
    DeclareGlobal { path: String, name: String },
    /// Declare `const uid = object.property;` for the value at `path`, then
    /// use it.
    DeclareMember { path: String, object: u32, property: String },
    /// Declare `const uid = new C();` for the singleton at `path`, then use
    /// it: `C` is the constant with symbol `callee`, or, where there is none,
    /// the global named `path` itself.
    DeclareSingleton { path: String, callee: Option<u32> },
}

/// Each path has one symbol and each symbol one path, the two maps being
/// inverse to each other.
pub open spec fn paired(ids: Map<Seq<char>, u32>, symbols: Map<u32, Seq<char>>) -> bool {
    &&& forall|p: Seq<char>| #[trigger]
        ids.contains_key(p) ==> symbols.contains_key(ids[p]) && symbols[ids[p]] == p
    &&& forall|s: u32| #[trigger] symbols.contains_key(s) ==> ids.contains_key(symbols[s]) && ids[symbols[s]] == s
}

/// The hoisted constants of one chunk: each hoisted global's path and the
/// symbol of its constant, both ways, and the constant of each shared
/// singleton.
pub struct GlobalsHoister {
    ids: StrMap<u32>,
    symbols: HashMap<u32, String>,
    singletons: StrMap<u32>,
}

impl GlobalsHoister {
    /// Path of each hoisted global to the symbol of its constant.
    pub closed spec fn ids(&self) -> Map<Seq<char>, u32> {
        self.ids@
    }

    /// Symbol of each constant to the path of its global.
    pub closed spec fn symbols(&self) -> Map<u32, Seq<char>> {
        self.symbols@.map_values(|s: String| s@)
    }

    /// Path of each shared singleton to the symbol of its constant.
    pub closed spec fn singletons(&self) -> Map<Seq<char>, u32> {
        self.singletons@
    }

    /// Each hoisted global has one constant, and each constant one global.
    #[verifier::type_invariant]
    spec fn wf(&self) -> bool {
        paired(self.ids(), self.symbols())
    }

    pub fn new() -> (r: Self)
        ensures
            r.ids() == Map::<Seq<char>, u32>::empty(),
            r.symbols() == Map::<u32, Seq<char>>::empty(),
            r.singletons() == Map::<Seq<char>, u32>::empty(),
    {
        let r = GlobalsHoister { ids: StrMap::new(), symbols: HashMap::new(), singletons: StrMap::new() };
        assert(r.symbols() =~= Map::<u32, Seq<char>>::empty());
        r
    }

    /// Whether `uid` is the symbol of one of the constants.
    pub fn knows_symbol(&self, uid: u32) -> (r: bool)
        ensures
            r == self.symbols().contains_key(uid),
    {
        self.symbols.contains_key(&uid)
    }

    /// The plan for an identifier read of `name` (`unresolved`: it refers to
    /// no declared symbol): a global that may be hoisted is read from its
    /// constant, declared on first use.
    pub fn plan_identifier(&self, globals: &Globals, hoist: bool, name: &str, unresolved: bool) -> (r:
        GlobalsPlan)
        ensures
            ({
                let path = if name@ == "window"@ || name@ == "globalThis"@ {
                    Seq::<char>::empty()
                } else {
                    name@
                };
                let found = globals.get_spec(name@);
                if !hoist || !unresolved || found is None || !found->0.hoist {
                    r is Keep
                } else if self.ids().contains_key(path) {
                    r == GlobalsPlan::Use(self.ids()[path])
                } else {
                    r matches GlobalsPlan::DeclareGlobal { path: p, name: n } && p@ == path && n@ == name@
                }
            }),
    {
        if !hoist || !unresolved {
            return GlobalsPlan::Keep;
        }
        match globals.get(name) {
            Some(v) => {
                if !v.is_hoistable() {
                    return GlobalsPlan::Keep;
                }
                let path = if str_eq(name, "window") || str_eq(name, "globalThis") {
                    String::new()
                } else {
                    String::from_str(name)
                };
                match self.ids.get(path.as_str()) {
                    Some(uid) => GlobalsPlan::Use(*uid),
                    None => GlobalsPlan::DeclareGlobal { path, name: String::from_str(name) },
                }
            },
            None => GlobalsPlan::Keep,
        }
    }

    /// The plan for a read of `.property` on the constant with symbol
    /// `object` (if the object is a symbol): a static property that may be
    /// hoisted is read from its own constant, declared on first use.
    pub fn plan_static_member(&self, globals: &Globals, hoist: bool, object: Option<u32>, property: &str) -> (r:
        GlobalsPlan)
        ensures
            ({
                match object {
                    Some(s) => if hoist && self.symbols().contains_key(s) {
                        let path = child_path(self.symbols()[s], property@);
                        let found = globals.static_spec(self.symbols()[s], property@);
                        if found is None || !found->0.hoist {
                            r is Keep
                        } else if self.ids().contains_key(path) {
                            r == GlobalsPlan::Use(self.ids()[path])
                        } else {
                            r matches GlobalsPlan::DeclareMember { path: p, object: o, property: n }
                                && p@ == path && o == s && n@ == property@
                        }
                    } else {
                        r is Keep
                    },
                    None => r is Keep,
                }
            }),
    {
        proof {
            use_type_invariant(self);
        }
        if !hoist {
            return GlobalsPlan::Keep;
        }
        let s = match object {
            Some(s) => s,
            None => {
                return GlobalsPlan::Keep;
            },
        };
        let object_path = match self.symbols.get(&s) {
            Some(p) => p,
            None => {
                return GlobalsPlan::Keep;
            },
        };
        match globals.get_static(object_path.as_str(), property) {
            Some(v) => {
                if !v.is_hoistable() {
                    return GlobalsPlan::Keep;
                }
                let path = crate::globals::join_path(object_path.as_str(), property);
                match self.ids.get(path.as_str()) {
                    Some(uid) => GlobalsPlan::Use(*uid),
                    None => GlobalsPlan::DeclareMember { path, object: s, property: String::from_str(property) },
                }
            },
            None => GlobalsPlan::Keep,
        }
    }

    /// The plan for `new C()`, where `C` is the constant with symbol `callee`,
    /// or, when `callee` is `None`, the identifier `name` that refers to no
    /// declared symbol: an argument-less construction of a singleton, without
    /// type arguments, is read from a shared constant, declared on first use.
    /// Whether the global itself was hoisted does not matter.
    pub fn plan_new(
        &self,
        globals: &Globals,
        singletons: bool,
        callee: Option<u32>,
        name: &str,
        argument_count: usize,
        type_arguments: bool,
    ) -> (r: GlobalsPlan)
        ensures
            ({
                if !singletons || argument_count != 0 || type_arguments {
                    r is Keep
                } else {
                    match callee {
                        Some(s) => if self.symbols().contains_key(s) {
                            let path = self.symbols()[s];
                            let found = globals.value_at(path);
                            if found is None || !is_singleton(found->0) {
                                r is Keep
                            } else if self.singletons().contains_key(path) {
                                r == GlobalsPlan::Use(self.singletons()[path])
                            } else {
                                r matches GlobalsPlan::DeclareSingleton { path: p, callee: c } && p@ == path
                                    && c == Some(s)
                            }
                        } else {
                            r is Keep
                        },
                        None => {
                            let found = globals.get_spec(name@);
                            if found is None || !is_singleton(found->0) {
                                r is Keep
                            } else if self.singletons().contains_key(name@) {
                                r == GlobalsPlan::Use(self.singletons()[name@])
                            } else {
                                r matches GlobalsPlan::DeclareSingleton { path: p, callee: c } && p@ == name@
                                    && c is None
                            }
                        },
                    }
                }
            }),
    {
        proof {
            use_type_invariant(self);
        }
        if !singletons || argument_count != 0 || type_arguments {
            return GlobalsPlan::Keep;
        }
        match callee {
            Some(s) => {
                let path = match self.symbols.get(&s) {
                    Some(p) => p,
                    None => {
                        return GlobalsPlan::Keep;
                    },
                };
                match globals.at_path(path.as_str()) {
                    Some(v) => {
                        if !v.is_singleton_func() {
                            return GlobalsPlan::Keep;
                        }
                        match self.singletons.get(path.as_str()) {
                            Some(uid) => GlobalsPlan::Use(*uid),
                            None => GlobalsPlan::DeclareSingleton { path: path.clone(), callee: Some(s) },
                        }
                    },
                    None => GlobalsPlan::Keep,
                }
            },
            None => {
                match globals.get(name) {
                    Some(v) => {
                        if !v.is_singleton_func() {
                            return GlobalsPlan::Keep;
                        }
                        match self.singletons.get(name) {
                            Some(uid) => GlobalsPlan::Use(*uid),
                            None => GlobalsPlan::DeclareSingleton { path: String::from_str(name), callee: None },
                        }
                    },
                    None => GlobalsPlan::Keep,
                }
            },
        }
    }

    /// Records `uid` as the constant of the global at `path`, unless the
    /// global already has a constant or `uid` is already one (then nothing
    /// changes); tells whether it recorded.
    pub fn record_global(&mut self, path: String, uid: u32) -> (r: bool)
        ensures
            r == (!old(self).ids().contains_key(path@) && !old(self).symbols().contains_key(uid)),
            r ==> final(self).ids() == old(self).ids().insert(path@, uid),
            r ==> final(self).symbols() == old(self).symbols().insert(uid, path@),
            !r ==> final(self).ids() == old(self).ids() && final(self).symbols() == old(self).symbols(),
            final(self).singletons() == old(self).singletons(),
    {
        proof {
            use_type_invariant(&*self);
        }
        if self.ids.contains_key(path.as_str()) || self.symbols.contains_key(&uid) {
            return false;
        }
        let ghost before_symbols = self.symbols();
        let mut taken = GlobalsHoister { ids: StrMap::new(), symbols: HashMap::new(), singletons: StrMap::new() };
        std::mem::swap(&mut taken, self);
        proof {
            use_type_invariant(&taken);
        }
        let GlobalsHoister { mut ids, mut symbols, singletons } = taken;
        let copy = path.clone();
        ids.insert(path, uid);
        symbols.insert(uid, copy);
        proof {
            assert(symbols@.map_values(|s: String| s@) =~= before_symbols.insert(uid, path@));
        }
        *self = GlobalsHoister { ids, symbols, singletons };
        true
    }

    /// Records `uid` as the shared constant of the singleton at `path`.
    pub fn record_singleton(&mut self, path: String, uid: u32)
        ensures
            final(self).ids() == old(self).ids(),
            final(self).symbols() == old(self).symbols(),
            final(self).singletons() == old(self).singletons().insert(path@, uid),
    {
        proof {
            use_type_invariant(&*self);
        }
        let mut taken = GlobalsHoister { ids: StrMap::new(), symbols: HashMap::new(), singletons: StrMap::new() };
        std::mem::swap(&mut taken, self);
        proof {
            use_type_invariant(&taken);
        }
        let GlobalsHoister { ids, symbols, mut singletons } = taken;
        assert(paired(ids@, symbols@.map_values(|s: String| s@)));
        singletons.insert(path, uid);
        *self = GlobalsHoister { ids, symbols, singletons };
    }
}

/// What to do with an expression in the deduplication pass.
#[derive(PartialEq, Eq, Structural, Clone, Copy, Debug)]
pub enum DedupeAction {
    Keep,
    /// Move the original into `const uid = expr;` before the statement at
    /// this address and read `uid` in its place.
    HoistBefore(u64),
    /// Replace the duplicate by a read of the constant with this symbol.
    UseOriginal(u32),
}

/// The deduplication pass over a chunk: the role of each hashed expression,
/// the number of duplicates of each original, the statements being visited,
/// and the constant that each hoisted original went into.
pub struct DedupePass {
    expressions: HashMap<u64, Option<u64>>,
    counts: HashMap<u64, u32>,
    statement_stack: Vec<u64>,
    originals: HashMap<u64, u32>,
}

impl DedupePass {
    pub closed spec fn expressions(&self) -> Map<u64, Option<u64>> {
        self.expressions@
    }

    pub closed spec fn counts(&self) -> Map<u64, u32> {
        self.counts@
    }

    pub closed spec fn statements(&self) -> Seq<u64> {
        self.statement_stack@
    }

    pub closed spec fn originals(&self) -> Map<u64, u32> {
        self.originals@
    }

    /// A pass over the roles and duplicate counts found by hashing.
    pub fn new(state: crate::dedupe::DedupeState) -> (r: Self)
        ensures
            r.expressions() == state.view().expressions,
            r.counts() == state.view().counts,
            r.statements() == Seq::<u64>::empty(),
            r.originals() == Map::<u64, u32>::empty(),
    {
        let (expressions, counts) = state.into_roles();
        DedupePass { expressions, counts, statement_stack: Vec::new(), originals: HashMap::new() }
    }

    pub fn enter_statement(&mut self, address: u64)
        ensures
            final(self).statements() == old(self).statements().push(address),
            final(self).expressions() == old(self).expressions(),
            final(self).counts() == old(self).counts(),
            final(self).originals() == old(self).originals(),
    {
        self.statement_stack.push(address);
    }

    pub fn exit_statement(&mut self)
        ensures
            final(self).statements() == if old(self).statements().len() == 0 {
                old(self).statements()
            } else {
                old(self).statements().drop_last()
            },
            final(self).expressions() == old(self).expressions(),
            final(self).counts() == old(self).counts(),
            final(self).originals() == old(self).originals(),
    {
        let _ = self.statement_stack.pop();
    }

    /// What to do with the expression at `address` when its visit ends: an
    /// original with duplicates, inside a statement, is hoisted before it; a
    /// duplicate of a hoisted original reads that original's constant.
    pub fn exit_expression(&self, address: u64) -> (r: DedupeAction)
        ensures
            r == (if !self.expressions().contains_key(address) {
                DedupeAction::Keep
            } else {
                match self.expressions()[address] {
                    None => if self.counts().contains_key(address) && self.counts()[address] > 0
                        && self.statements().len() > 0 {
                        DedupeAction::HoistBefore(self.statements().last())
                    } else {
                        DedupeAction::Keep
                    },
                    Some(o) => if self.originals().contains_key(o) {
                        DedupeAction::UseOriginal(self.originals()[o])
                    } else {
                        DedupeAction::Keep
                    },
                }
            }),
    {
        match self.expressions.get(&address) {
            None => DedupeAction::Keep,
            Some(None) => {
                let count = match self.counts.get(&address) {
                    Some(c) => *c,
                    None => 0,
                };
                let n = self.statement_stack.len();
                if count > 0 && n > 0 {
                    DedupeAction::HoistBefore(self.statement_stack[n - 1])
                } else {
                    DedupeAction::Keep
                }
            },
            Some(Some(o)) => match self.originals.get(o) {
                Some(uid) => DedupeAction::UseOriginal(*uid),
                None => DedupeAction::Keep,
            },
        }
    }

    /// Records that the original at `address` went into the constant `uid`.
    pub fn record_original(&mut self, address: u64, uid: u32)
        ensures
            final(self).originals() == old(self).originals().insert(address, uid),
            final(self).expressions() == old(self).expressions(),
            final(self).counts() == old(self).counts(),
            final(self).statements() == old(self).statements(),
    {
        self.originals.insert(address, uid);
    }
}

} // verus!
