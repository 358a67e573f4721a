//! SHA-1 hashes of simple expressions, for deduplication.
//!
//! Each call, array, object, template, tagged template, long string,
//! big-int and regular-expression node gets a hash of its own, which is
//! recorded in the [`DedupeState`]; other literals and identifiers only feed
//! the hash of the node around them. Expressions of any other kind cannot
//! be hashed, and nor can the nodes that contain them.
use crate::dedupe::{add_spec, find_original, sat_inc, lemma_find_after_push_last, DedupeState, DedupeView};
use crate::digest::{sha1_digest, sha1_of};
use vstd::prelude::*;

verus! {

/// What hashing reads of an expression node: its address and its kind.
pub struct HashNode {
    pub address: u64,
    pub kind: HashKind,
}

/// Expression kinds as hashing sees them. Strings are UTF-8 bytes; a numeric
/// literal is held by the bit pattern of its `f64` value; an identifier by
/// the index of the symbol it refers to, if any, and its name.
pub enum HashKind {
    Boolean(bool),
    Null,
    Numeric(u64),
    BigInt(Vec<u8>),
    RegExp(Option<Vec<u8>>),
    Str(Vec<u8>),
    /// Raw texts of the quasis, and the embedded expressions.
    Template(Vec<Vec<u8>>, Vec<HashNode>),
    Identifier(Option<u64>, Vec<u8>),
    /// Callee and arguments; `None` is a spread argument.
    Call(Box<HashNode>, Vec<Option<HashNode>>),
    Array(Vec<ArrayElement>),
    Object(Vec<ObjectMember>),
    Parenthesized(Box<HashNode>),
    /// Tag, raw texts of the quasis, embedded expressions.
    TaggedTemplate(Box<HashNode>, Vec<Vec<u8>>, Vec<HashNode>),
    /// Any expression that cannot be hashed.
    Other,
}

pub enum ArrayElement {
    Spread(HashNode),
    Elision,
    Expression(HashNode),
}

pub enum ObjectMember {
    Property(PropertyKey, HashNode),
    Spread(HashNode),
}

pub enum PropertyKey {
    StaticIdentifier(Vec<u8>),
    PrivateIdentifier(Vec<u8>),
    Expression(HashNode),
}

pub const NUMERIC_LITERAL: u8 = 2;
pub const STRING_LITERAL: u8 = 3;
pub const NULL_LITERAL: u8 = 4;
pub const BIG_INT_LITERAL: u8 = 5;
pub const REG_EXP_LITERAL: u8 = 6;
pub const TEMPLATE_LITERAL: u8 = 7;
pub const TEMPLATE_ELEMENT: u8 = 8;
pub const TAGGED_TEMPLATE_EXPRESSION: u8 = 9;
pub const IDENTIFIER_REFERENCE_SYMBOL: u8 = 10;
pub const IDENTIFIER_REFERENCE_GLOBAL: u8 = 11;
pub const ARRAY_EXPRESSION: u8 = 12;
pub const OBJECT_EXPRESSION: u8 = 13;
pub const OBJECT_PROPERTY_KEY: u8 = 14;
pub const OBJECT_PROPERTY_VALUE: u8 = 15;
pub const IDENTIFIER_NAME: u8 = 16;
pub const PRIVATE_IDENTIFIER: u8 = 17;
pub const SPREAD_ELEMENT: u8 = 18;
pub const ELISION: u8 = 19;
pub const CALL: u8 = 20;
pub const HASH: u8 = 21;

/// Strings longer than this get a hash of their own.
pub const LONG_STRING: usize = 16;

/// The eight little-endian bytes of `v`.
pub open spec fn le8(v: u64) -> Seq<u8> {
    seq![
        (v % 0x100) as u8,
        ((v / 0x100) % 0x100) as u8,
        ((v / 0x1_0000) % 0x100) as u8,
        ((v / 0x100_0000) % 0x100) as u8,
        ((v / 0x1_0000_0000) % 0x100) as u8,
        ((v / 0x100_0000_0000) % 0x100) as u8,
        ((v / 0x1_0000_0000_0000) % 0x100) as u8,
        ((v / 0x100_0000_0000_0000) % 0x100) as u8,
    ]
}

/// A tag, the length of `s` and `s`.
pub open spec fn tagged_str(tag: u8, s: Seq<u8>) -> Seq<u8> {
    seq![tag] + le8(s.len() as u64) + s
}

/// The bytes of a list of template quasis.
pub open spec fn quasis_bytes(qs: Seq<Vec<u8>>) -> Seq<u8>
    decreases qs.len(),
{
    if qs.len() == 0 {
        Seq::empty()
    } else {
        quasis_bytes(qs.drop_last()) + tagged_str(TEMPLATE_ELEMENT, qs.last()@)
    }
}

/// Result of hashing a node: the hashes recorded, in order, and the bytes
/// the node feeds to the hash around it (`None`: it cannot be hashed).
pub type HashOut = (Seq<(u64, Seq<u8>)>, Option<Seq<u8>>);

/// A node at `addr` hashed on its own from `input`, after the records
/// `adds` of its parts.
pub open spec fn own_hash(addr: u64, input: Seq<u8>, adds: Seq<(u64, Seq<u8>)>) -> HashOut {
    (adds.push((addr, sha1_of(input))), Some(seq![HASH] + sha1_of(input)))
}

/// `acc` followed by a part that feeds `prefix` and then `part`'s bytes.
pub open spec fn follow(acc: HashOut, prefix: Seq<u8>, part: HashOut) -> HashOut {
    match acc.1 {
        None => acc,
        Some(b) => (
            acc.0 + part.0,
            match part.1 {
                None => None,
                Some(pb) => Some(b + prefix + pb),
            },
        ),
    }
}

/// The start of a fold: nothing recorded, nothing fed.
pub open spec fn empty_out() -> HashOut {
    (Seq::empty(), Some(Seq::empty()))
}

/// A composite node at `addr`: its header, then its parts, then its own
/// hash if every part could be hashed.
pub open spec fn finish(addr: u64, parts: HashOut) -> HashOut {
    match parts.1 {
        None => parts,
        Some(b) => own_hash(addr, b, parts.0),
    }
}

/// Hashing of the node `n`, recorded under the address `addr`.
pub open spec fn hash_node(n: HashNode, addr: u64) -> HashOut
    decreases n, 0nat,
{
    match n.kind {
        HashKind::Boolean(b) => (Seq::empty(), Some(seq![if b { 1u8 } else { 0u8 }])),
        HashKind::Null => (Seq::empty(), Some(seq![NULL_LITERAL])),
        HashKind::Numeric(bits) => (Seq::empty(), Some(seq![NUMERIC_LITERAL] + le8(bits))),
        HashKind::BigInt(s) => own_hash(addr, tagged_str(BIG_INT_LITERAL, s@), Seq::empty()),
        HashKind::RegExp(raw) => match raw {
            None => (Seq::empty(), None),
            Some(s) => own_hash(addr, tagged_str(REG_EXP_LITERAL, s@), Seq::empty()),
        },
        HashKind::Str(s) => if s@.len() > LONG_STRING {
            own_hash(addr, tagged_str(STRING_LITERAL, s@), Seq::empty())
        } else {
            (Seq::empty(), Some(tagged_str(STRING_LITERAL, s@)))
        },
        HashKind::Template(qs, es) => finish(
            addr,
            follow(
                (
                    Seq::empty(),
                    Some(
                        seq![TEMPLATE_LITERAL] + le8(qs@.len() as u64) + quasis_bytes(qs@) + le8(
                            es@.len() as u64,
                        ),
                    ),
                ),
                Seq::empty(),
                hash_nodes(es@),
            ),
        ),
        HashKind::Identifier(sym, name) => match sym {
            Some(s) => (Seq::empty(), Some(seq![IDENTIFIER_REFERENCE_SYMBOL] + le8(s))),
            None => (Seq::empty(), Some(tagged_str(IDENTIFIER_REFERENCE_GLOBAL, name@))),
        },
        HashKind::Call(callee, args) => finish(
            addr,
            follow(
                follow(
                    (Seq::empty(), Some(seq![CALL])),
                    Seq::empty(),
                    hash_node(*callee, callee.address),
                ),
                le8(args@.len() as u64),
                hash_args(args@),
            ),
        ),
        HashKind::Array(es) => finish(
            addr,
            follow(
                (Seq::empty(), Some(seq![ARRAY_EXPRESSION] + le8(es@.len() as u64))),
                Seq::empty(),
                hash_elements(es@),
            ),
        ),
        HashKind::Object(ms) => finish(
            addr,
            follow(
                (Seq::empty(), Some(seq![OBJECT_EXPRESSION] + le8(ms@.len() as u64))),
                Seq::empty(),
                hash_members(ms@),
            ),
        ),
        HashKind::Parenthesized(inner) => hash_node(*inner, addr),
        HashKind::TaggedTemplate(tag, qs, es) => finish(
            addr,
            follow(
                follow(
                    (Seq::empty(), Some(seq![TAGGED_TEMPLATE_EXPRESSION])),
                    Seq::empty(),
                    hash_node(*tag, addr),
                ),
                le8(qs@.len() as u64) + quasis_bytes(qs@) + le8(es@.len() as u64),
                hash_nodes(es@),
            ),
        ),
        HashKind::Other => (Seq::empty(), None),
    }
}

/// Hashing of expressions one after another, each under its own address.
pub open spec fn hash_nodes(ns: Seq<HashNode>) -> HashOut
    decreases ns, 1nat,
{
    if ns.len() == 0 {
        empty_out()
    } else {
        follow(
            hash_nodes(ns.drop_last()),
            Seq::empty(),
            hash_node(ns.last(), ns.last().address),
        )
    }
}

/// Hashing of call arguments; a spread argument cannot be hashed.
pub open spec fn hash_args(ns: Seq<Option<HashNode>>) -> HashOut
    decreases ns, 1nat,
{
    if ns.len() == 0 {
        empty_out()
    } else {
        follow(
            hash_args(ns.drop_last()),
            Seq::empty(),
            match ns.last() {
                Some(n) => hash_node(n, n.address),
                None => (Seq::empty(), None),
            },
        )
    }
}

/// Hashing of array elements.
pub open spec fn hash_elements(es: Seq<ArrayElement>) -> HashOut
    decreases es, 1nat,
{
    if es.len() == 0 {
        empty_out()
    } else {
        follow(
            hash_elements(es.drop_last()),
            Seq::empty(),
            match es.last() {
                ArrayElement::Spread(n) => follow(
                    (Seq::empty(), Some(seq![SPREAD_ELEMENT])),
                    Seq::empty(),
                    hash_node(n, n.address),
                ),
                ArrayElement::Elision => (Seq::empty(), Some(seq![ELISION])),
                ArrayElement::Expression(n) => hash_node(n, n.address),
            },
        )
    }
}

/// Hashing of object members.
pub open spec fn hash_members(ms: Seq<ObjectMember>) -> HashOut
    decreases ms, 1nat,
{
    if ms.len() == 0 {
        empty_out()
    } else {
        follow(
            hash_members(ms.drop_last()),
            Seq::empty(),
            match ms.last() {
                ObjectMember::Property(k, v) => follow(
                    follow(
                        (Seq::empty(), Some(seq![OBJECT_PROPERTY_KEY])),
                        Seq::empty(),
                        hash_key(k),
                    ),
                    seq![OBJECT_PROPERTY_VALUE],
                    hash_node(v, v.address),
                ),
                ObjectMember::Spread(n) => follow(
                    (Seq::empty(), Some(seq![SPREAD_ELEMENT])),
                    Seq::empty(),
                    hash_node(n, n.address),
                ),
            },
        )
    }
}

/// Hashing of a property key: names, literals, templates and identifier
/// references; any other computed key cannot be hashed.
pub open spec fn hash_key(k: PropertyKey) -> HashOut
    decreases k, 1nat,
{
    match k {
        PropertyKey::StaticIdentifier(name) => (Seq::empty(), Some(seq![IDENTIFIER_NAME] + name@)),
        PropertyKey::PrivateIdentifier(name) => (
            Seq::empty(),
            Some(seq![PRIVATE_IDENTIFIER] + name@),
        ),
        PropertyKey::Expression(n) => match n.kind {
            HashKind::Boolean(_)
            | HashKind::Null
            | HashKind::Numeric(_)
            | HashKind::BigInt(_)
            | HashKind::RegExp(_)
            | HashKind::Str(_)
            | HashKind::Template(_, _)
            | HashKind::Identifier(_, _) => hash_node(n, n.address),
            _ => (Seq::empty(), None),
        },
    }
}

/// The texts of a list of template quasis.
pub open spec fn quasi_texts(qs: Seq<Vec<u8>>) -> Seq<Seq<u8>> {
    qs.map_values(|q: Vec<u8>| q@)
}

/// `a` and `b` are the same expression but for the addresses of their
/// nodes: same kinds, literal values and raw texts, identifiers bound to the
/// same symbol or unbound with the same name, same keys.
pub open spec fn same_shape(a: HashNode, b: HashNode) -> bool
    decreases a, 0nat,
{
    match (a.kind, b.kind) {
        (HashKind::Boolean(x), HashKind::Boolean(y)) => x == y,
        (HashKind::Null, HashKind::Null) => true,
        (HashKind::Numeric(x), HashKind::Numeric(y)) => x == y,
        (HashKind::BigInt(x), HashKind::BigInt(y)) => x@ == y@,
        (HashKind::RegExp(x), HashKind::RegExp(y)) => opt_bytes(x) == opt_bytes(y),
        (HashKind::Str(x), HashKind::Str(y)) => x@ == y@,
        (HashKind::Template(q1, e1), HashKind::Template(q2, e2)) => quasi_texts(q1@) == quasi_texts(q2@)
            && same_shapes(e1@, e2@),
        (HashKind::Identifier(s1, n1), HashKind::Identifier(s2, n2)) => s1 == s2 && (s1 is Some || n1@ == n2@),
        (HashKind::Call(c1, a1), HashKind::Call(c2, a2)) => same_shape(*c1, *c2) && same_args(a1@, a2@),
        (HashKind::Array(x), HashKind::Array(y)) => same_elements(x@, y@),
        (HashKind::Object(x), HashKind::Object(y)) => same_members(x@, y@),
        (HashKind::Parenthesized(x), HashKind::Parenthesized(y)) => same_shape(*x, *y),
        (HashKind::TaggedTemplate(t1, q1, e1), HashKind::TaggedTemplate(t2, q2, e2)) => same_shape(*t1, *t2)
            && quasi_texts(q1@) == quasi_texts(q2@) && same_shapes(e1@, e2@),
        (HashKind::Other, HashKind::Other) => true,
        _ => false,
    }
}

/// Expressions of the same shape, one for one.
pub open spec fn same_shapes(a: Seq<HashNode>, b: Seq<HashNode>) -> bool
    decreases a, 1nat,
{
    if a.len() == 0 || b.len() == 0 {
        a.len() == b.len()
    } else {
        same_shapes(a.drop_last(), b.drop_last()) && same_shape(a.last(), b.last())
    }
}

/// Call arguments of the same shape, one for one.
pub open spec fn same_args(a: Seq<Option<HashNode>>, b: Seq<Option<HashNode>>) -> bool
    decreases a, 1nat,
{
    if a.len() == 0 || b.len() == 0 {
        a.len() == b.len()
    } else {
        same_args(a.drop_last(), b.drop_last()) && match (a.last(), b.last()) {
            (Some(x), Some(y)) => same_shape(x, y),
            (None, None) => true,
            _ => false,
        }
    }
}

/// Array elements of the same shape, one for one.
pub open spec fn same_elements(a: Seq<ArrayElement>, b: Seq<ArrayElement>) -> bool
    decreases a, 1nat,
{
    if a.len() == 0 || b.len() == 0 {
        a.len() == b.len()
    } else {
        same_elements(a.drop_last(), b.drop_last()) && match (a.last(), b.last()) {
            (ArrayElement::Spread(x), ArrayElement::Spread(y)) => same_shape(x, y),
            (ArrayElement::Elision, ArrayElement::Elision) => true,
            (ArrayElement::Expression(x), ArrayElement::Expression(y)) => same_shape(x, y),
            _ => false,
        }
    }
}

/// Object members of the same shape, one for one.
pub open spec fn same_members(a: Seq<ObjectMember>, b: Seq<ObjectMember>) -> bool
    decreases a, 1nat,
{
    if a.len() == 0 || b.len() == 0 {
        a.len() == b.len()
    } else {
        same_members(a.drop_last(), b.drop_last()) && match (a.last(), b.last()) {
            (ObjectMember::Property(k1, v1), ObjectMember::Property(k2, v2)) => same_key(k1, k2) && same_shape(
                v1,
                v2,
            ),
            (ObjectMember::Spread(x), ObjectMember::Spread(y)) => same_shape(x, y),
            _ => false,
        }
    }
}

/// Property keys of the same shape.
pub open spec fn same_key(a: PropertyKey, b: PropertyKey) -> bool
    decreases a, 1nat,
{
    match (a, b) {
        (PropertyKey::StaticIdentifier(x), PropertyKey::StaticIdentifier(y)) => x@ == y@,
        (PropertyKey::PrivateIdentifier(x), PropertyKey::PrivateIdentifier(y)) => x@ == y@,
        (PropertyKey::Expression(x), PropertyKey::Expression(y)) => same_shape(x, y),
        _ => false,
    }
}

/// The hashes recorded, without the addresses they are recorded under.
pub open spec fn recorded_hashes(adds: Seq<(u64, Seq<u8>)>) -> Seq<Seq<u8>> {
    adds.map_values(|p: (u64, Seq<u8>)| p.1)
}

/// Two hashings feed the same bytes and record the same hashes in the same
/// order.
pub open spec fn agree(x: HashOut, y: HashOut) -> bool {
    x.1 == y.1 && recorded_hashes(x.0) == recorded_hashes(y.0)
}

proof fn lemma_recorded_concat(a: Seq<(u64, Seq<u8>)>, b: Seq<(u64, Seq<u8>)>)
    ensures
        recorded_hashes(a + b) == recorded_hashes(a) + recorded_hashes(b),
{
    assert(recorded_hashes(a + b) =~= recorded_hashes(a) + recorded_hashes(b));
}

proof fn lemma_follow_agree(x1: HashOut, x2: HashOut, pre: Seq<u8>, p1: HashOut, p2: HashOut)
    requires
        agree(x1, x2),
        agree(p1, p2),
    ensures
        agree(follow(x1, pre, p1), follow(x2, pre, p2)),
{
    lemma_recorded_concat(x1.0, p1.0);
    lemma_recorded_concat(x2.0, p2.0);
}

proof fn lemma_finish_agree(a1: u64, a2: u64, p1: HashOut, p2: HashOut)
    requires
        agree(p1, p2),
    ensures
        agree(finish(a1, p1), finish(a2, p2)),
{
    if let Some(b) = p1.1 {
        assert(recorded_hashes(p1.0.push((a1, sha1_of(b)))) =~= recorded_hashes(p1.0).push(sha1_of(b)));
        assert(recorded_hashes(p2.0.push((a2, sha1_of(b)))) =~= recorded_hashes(p2.0).push(sha1_of(b)));
    }
}

proof fn lemma_quasis_bytes(q1: Seq<Vec<u8>>, q2: Seq<Vec<u8>>)
    requires
        quasi_texts(q1) == quasi_texts(q2),
    ensures
        quasis_bytes(q1) == quasis_bytes(q2),
        q1.len() == q2.len(),
    decreases q1.len(),
{
    let t1 = quasi_texts(q1);
    let t2 = quasi_texts(q2);
    assert(t1.len() == q1.len() && t2.len() == q2.len());
    if q1.len() > 0 {
        assert(quasi_texts(q1.drop_last()) =~= t1.drop_last());
        assert(quasi_texts(q2.drop_last()) =~= t2.drop_last());
        lemma_quasis_bytes(q1.drop_last(), q2.drop_last());
        assert(t1[q1.len() - 1] == q1.last()@);
        assert(t2[q2.len() - 1] == q2.last()@);
    }
}

/// Expressions of the same shape hash alike, wherever they stand: they feed
/// the same bytes to the hash around them and record the same hashes in the
/// same order, so the later one is found as a duplicate of the earlier one
/// while the earlier one's scope is open.
pub proof fn lemma_same_shape_hash(a: HashNode, b: HashNode, x: u64, y: u64)
    requires
        same_shape(a, b),
    ensures
        agree(hash_node(a, x), hash_node(b, y)),
    decreases a, 0nat, 1nat,
{
    assert(recorded_hashes(Seq::<(u64, Seq<u8>)>::empty()) =~= Seq::<Seq<u8>>::empty());
    match a.kind {
        HashKind::BigInt(s1) => {
            let s2 = b.kind->BigInt_0;
            lemma_finish_agree(x, y, (Seq::empty(), Some(tagged_str(BIG_INT_LITERAL, s1@))), (Seq::empty(), Some(tagged_str(BIG_INT_LITERAL, s2@))));
        },
        HashKind::RegExp(r1) => {
            if let (Some(s1), Some(s2)) = (r1, b.kind->RegExp_0) {
                lemma_finish_agree(x, y, (Seq::empty(), Some(tagged_str(REG_EXP_LITERAL, s1@))), (Seq::empty(), Some(tagged_str(REG_EXP_LITERAL, s2@))));
            }
        },
        HashKind::Str(s1) => {
            let s2 = b.kind->Str_0;
            lemma_finish_agree(x, y, (Seq::empty(), Some(tagged_str(STRING_LITERAL, s1@))), (Seq::empty(), Some(tagged_str(STRING_LITERAL, s2@))));
        },
        HashKind::Template(_, _) => lemma_template_hash(a, b, x, y),
        HashKind::Call(_, _) => lemma_call_hash(a, b, x, y),
        HashKind::Array(_) => lemma_array_hash(a, b, x, y),
        HashKind::Object(_) => lemma_object_hash(a, b, x, y),
        HashKind::Parenthesized(i1) => {
            lemma_same_shape_hash(*i1, *b.kind->Parenthesized_0, x, y);
        },
        HashKind::TaggedTemplate(_, _, _) => lemma_tagged_template_hash(a, b, x, y),
        _ => {},
    }
}

proof fn lemma_template_hash(a: HashNode, b: HashNode, x: u64, y: u64)
    requires
        same_shape(a, b),
        a.kind is Template,
    ensures
        agree(hash_node(a, x), hash_node(b, y)),
    decreases a, 0nat, 0nat,
{
    if let (HashKind::Template(q1, e1), HashKind::Template(q2, e2)) = (a.kind, b.kind) {
        lemma_quasis_bytes(q1@, q2@);
        lemma_same_shapes_hash(e1@, e2@);
        let h = (Seq::<(u64, Seq<u8>)>::empty(), Some(seq![TEMPLATE_LITERAL] + le8(q1@.len() as u64) + quasis_bytes(q1@) + le8(e1@.len() as u64)));
        lemma_follow_agree(h, h, Seq::empty(), hash_nodes(e1@), hash_nodes(e2@));
        lemma_finish_agree(x, y, follow(h, Seq::empty(), hash_nodes(e1@)), follow(h, Seq::empty(), hash_nodes(e2@)));
    }
}

proof fn lemma_call_hash(a: HashNode, b: HashNode, x: u64, y: u64)
    requires
        same_shape(a, b),
        a.kind is Call,
    ensures
        agree(hash_node(a, x), hash_node(b, y)),
    decreases a, 0nat, 0nat,
{
    if let (HashKind::Call(c1, a1), HashKind::Call(c2, a2)) = (a.kind, b.kind) {
        lemma_same_shape_hash(*c1, *c2, c1.address, c2.address);
        lemma_same_args_hash(a1@, a2@);
        let h = (Seq::<(u64, Seq<u8>)>::empty(), Some(seq![CALL]));
        lemma_follow_agree(h, h, Seq::empty(), hash_node(*c1, c1.address), hash_node(*c2, c2.address));
        let f1 = follow(h, Seq::empty(), hash_node(*c1, c1.address));
        let f2 = follow(h, Seq::empty(), hash_node(*c2, c2.address));
        lemma_follow_agree(f1, f2, le8(a1@.len() as u64), hash_args(a1@), hash_args(a2@));
        lemma_finish_agree(x, y, follow(f1, le8(a1@.len() as u64), hash_args(a1@)), follow(f2, le8(a1@.len() as u64), hash_args(a2@)));
    }
}

proof fn lemma_array_hash(a: HashNode, b: HashNode, x: u64, y: u64)
    requires
        same_shape(a, b),
        a.kind is Array,
    ensures
        agree(hash_node(a, x), hash_node(b, y)),
    decreases a, 0nat, 0nat,
{
    if let (HashKind::Array(es1), HashKind::Array(es2)) = (a.kind, b.kind) {
        lemma_same_elements_hash(es1@, es2@);
        let h = (Seq::<(u64, Seq<u8>)>::empty(), Some(seq![ARRAY_EXPRESSION] + le8(es1@.len() as u64)));
        lemma_follow_agree(h, h, Seq::empty(), hash_elements(es1@), hash_elements(es2@));
        lemma_finish_agree(x, y, follow(h, Seq::empty(), hash_elements(es1@)), follow(h, Seq::empty(), hash_elements(es2@)));
    }
}

proof fn lemma_object_hash(a: HashNode, b: HashNode, x: u64, y: u64)
    requires
        same_shape(a, b),
        a.kind is Object,
    ensures
        agree(hash_node(a, x), hash_node(b, y)),
    decreases a, 0nat, 0nat,
{
    if let (HashKind::Object(ms1), HashKind::Object(ms2)) = (a.kind, b.kind) {
        lemma_same_members_hash(ms1@, ms2@);
        let h = (Seq::<(u64, Seq<u8>)>::empty(), Some(seq![OBJECT_EXPRESSION] + le8(ms1@.len() as u64)));
        lemma_follow_agree(h, h, Seq::empty(), hash_members(ms1@), hash_members(ms2@));
        lemma_finish_agree(x, y, follow(h, Seq::empty(), hash_members(ms1@)), follow(h, Seq::empty(), hash_members(ms2@)));
    }
}

proof fn lemma_tagged_template_hash(a: HashNode, b: HashNode, x: u64, y: u64)
    requires
        same_shape(a, b),
        a.kind is TaggedTemplate,
    ensures
        agree(hash_node(a, x), hash_node(b, y)),
    decreases a, 0nat, 0nat,
{
    if let (HashKind::TaggedTemplate(t1, q1, e1), HashKind::TaggedTemplate(t2, q2, e2)) = (a.kind, b.kind) {
        lemma_same_shape_hash(*t1, *t2, x, y);
        lemma_quasis_bytes(q1@, q2@);
        lemma_same_shapes_hash(e1@, e2@);
        let h = (Seq::<(u64, Seq<u8>)>::empty(), Some(seq![TAGGED_TEMPLATE_EXPRESSION]));
        lemma_follow_agree(h, h, Seq::empty(), hash_node(*t1, x), hash_node(*t2, y));
        let f1 = follow(h, Seq::empty(), hash_node(*t1, x));
        let f2 = follow(h, Seq::empty(), hash_node(*t2, y));
        let pre = le8(q1@.len() as u64) + quasis_bytes(q1@) + le8(e1@.len() as u64);
        lemma_follow_agree(f1, f2, pre, hash_nodes(e1@), hash_nodes(e2@));
        lemma_finish_agree(x, y, follow(f1, pre, hash_nodes(e1@)), follow(f2, pre, hash_nodes(e2@)));
    }
}

proof fn lemma_same_shapes_hash(a: Seq<HashNode>, b: Seq<HashNode>)
    requires
        same_shapes(a, b),
    ensures
        agree(hash_nodes(a), hash_nodes(b)),
        a.len() == b.len(),
    decreases a, 1nat, 0nat,
{
    assert(recorded_hashes(Seq::<(u64, Seq<u8>)>::empty()) =~= Seq::<Seq<u8>>::empty());
    if a.len() > 0 {
        lemma_same_shapes_hash(a.drop_last(), b.drop_last());
        lemma_same_shape_hash(a.last(), b.last(), a.last().address, b.last().address);
        lemma_follow_agree(hash_nodes(a.drop_last()), hash_nodes(b.drop_last()), Seq::empty(), hash_node(a.last(), a.last().address), hash_node(b.last(), b.last().address));
    }
}

proof fn lemma_same_args_hash(a: Seq<Option<HashNode>>, b: Seq<Option<HashNode>>)
    requires
        same_args(a, b),
    ensures
        agree(hash_args(a), hash_args(b)),
        a.len() == b.len(),
    decreases a, 1nat, 0nat,
{
    assert(recorded_hashes(Seq::<(u64, Seq<u8>)>::empty()) =~= Seq::<Seq<u8>>::empty());
    if a.len() > 0 {
        lemma_same_args_hash(a.drop_last(), b.drop_last());
        let pa = match a.last() {
            Some(n) => hash_node(n, n.address),
            None => (Seq::empty(), None),
        };
        let pb = match b.last() {
            Some(n) => hash_node(n, n.address),
            None => (Seq::empty(), None),
        };
        if let (Some(n1), Some(n2)) = (a.last(), b.last()) {
            lemma_same_shape_hash(n1, n2, n1.address, n2.address);
        }
        lemma_follow_agree(hash_args(a.drop_last()), hash_args(b.drop_last()), Seq::empty(), pa, pb);
    }
}

proof fn lemma_same_elements_hash(a: Seq<ArrayElement>, b: Seq<ArrayElement>)
    requires
        same_elements(a, b),
    ensures
        agree(hash_elements(a), hash_elements(b)),
        a.len() == b.len(),
    decreases a, 1nat, 0nat,
{
    assert(recorded_hashes(Seq::<(u64, Seq<u8>)>::empty()) =~= Seq::<Seq<u8>>::empty());
    if a.len() > 0 {
        lemma_same_elements_hash(a.drop_last(), b.drop_last());
        let sp = (Seq::<(u64, Seq<u8>)>::empty(), Some(seq![SPREAD_ELEMENT]));
        let pa = match a.last() {
            ArrayElement::Spread(n) => follow(sp, Seq::empty(), hash_node(n, n.address)),
            ArrayElement::Elision => (Seq::empty(), Some(seq![ELISION])),
            ArrayElement::Expression(n) => hash_node(n, n.address),
        };
        let pb = match b.last() {
            ArrayElement::Spread(n) => follow(sp, Seq::empty(), hash_node(n, n.address)),
            ArrayElement::Elision => (Seq::empty(), Some(seq![ELISION])),
            ArrayElement::Expression(n) => hash_node(n, n.address),
        };
        match (a.last(), b.last()) {
            (ArrayElement::Spread(n1), ArrayElement::Spread(n2)) => {
                lemma_same_shape_hash(n1, n2, n1.address, n2.address);
                lemma_follow_agree(sp, sp, Seq::empty(), hash_node(n1, n1.address), hash_node(n2, n2.address));
            },
            (ArrayElement::Expression(n1), ArrayElement::Expression(n2)) => {
                lemma_same_shape_hash(n1, n2, n1.address, n2.address);
            },
            _ => {},
        }
        lemma_follow_agree(hash_elements(a.drop_last()), hash_elements(b.drop_last()), Seq::empty(), pa, pb);
    }
}

proof fn lemma_same_key_hash(a: PropertyKey, b: PropertyKey)
    requires
        same_key(a, b),
    ensures
        agree(hash_key(a), hash_key(b)),
    decreases a, 1nat, 0nat,
{
    assert(recorded_hashes(Seq::<(u64, Seq<u8>)>::empty()) =~= Seq::<Seq<u8>>::empty());
    if let (PropertyKey::Expression(n1), PropertyKey::Expression(n2)) = (a, b) {
        lemma_same_shape_hash(n1, n2, n1.address, n2.address);
    }
}

proof fn lemma_same_members_hash(a: Seq<ObjectMember>, b: Seq<ObjectMember>)
    requires
        same_members(a, b),
    ensures
        agree(hash_members(a), hash_members(b)),
        a.len() == b.len(),
    decreases a, 1nat, 0nat,
{
    assert(recorded_hashes(Seq::<(u64, Seq<u8>)>::empty()) =~= Seq::<Seq<u8>>::empty());
    if a.len() > 0 {
        lemma_same_members_hash(a.drop_last(), b.drop_last());
        let sp = (Seq::<(u64, Seq<u8>)>::empty(), Some(seq![SPREAD_ELEMENT]));
        let kh = (Seq::<(u64, Seq<u8>)>::empty(), Some(seq![OBJECT_PROPERTY_KEY]));
        let pa = match a.last() {
            ObjectMember::Property(k, v) => follow(follow(kh, Seq::empty(), hash_key(k)), seq![OBJECT_PROPERTY_VALUE], hash_node(v, v.address)),
            ObjectMember::Spread(n) => follow(sp, Seq::empty(), hash_node(n, n.address)),
        };
        let pb = match b.last() {
            ObjectMember::Property(k, v) => follow(follow(kh, Seq::empty(), hash_key(k)), seq![OBJECT_PROPERTY_VALUE], hash_node(v, v.address)),
            ObjectMember::Spread(n) => follow(sp, Seq::empty(), hash_node(n, n.address)),
        };
        match (a.last(), b.last()) {
            (ObjectMember::Property(k1, v1), ObjectMember::Property(k2, v2)) => {
                lemma_same_key_hash(k1, k2);
                lemma_same_shape_hash(v1, v2, v1.address, v2.address);
                lemma_follow_agree(kh, kh, Seq::empty(), hash_key(k1), hash_key(k2));
                lemma_follow_agree(follow(kh, Seq::empty(), hash_key(k1)), follow(kh, Seq::empty(), hash_key(k2)), seq![OBJECT_PROPERTY_VALUE], hash_node(v1, v1.address), hash_node(v2, v2.address));
            },
            (ObjectMember::Spread(n1), ObjectMember::Spread(n2)) => {
                lemma_same_shape_hash(n1, n2, n1.address, n2.address);
                lemma_follow_agree(sp, sp, Seq::empty(), hash_node(n1, n1.address), hash_node(n2, n2.address));
            },
            _ => {},
        }
        lemma_follow_agree(hash_members(a.drop_last()), hash_members(b.drop_last()), Seq::empty(), pa, pb);
    }
}

/// The state after recording `adds` in order.
pub open spec fn apply_adds(s: DedupeView, adds: Seq<(u64, Seq<u8>)>) -> DedupeView
    decreases adds.len(),
{
    if adds.len() == 0 {
        s
    } else {
        let s1 = apply_adds(s, adds.drop_last());
        add_spec(s1, adds.last().0, adds.last().1)
    }
}


proof fn lemma_own_hash_last(n: HashNode, x: u64)
    requires
        hash_node(n, x).1 is Some,
        hash_node(n, x).0.len() > 0,
    ensures
        hash_node(n, x).0.last().0 == x,
    decreases n,
{
    if let HashKind::Parenthesized(inner) = n.kind {
        lemma_own_hash_last(*inner, x);
    }
}

/// Recording keeps the number of scopes, and a hash that has an original
/// keeps it.
proof fn lemma_adds_keep_found(s: DedupeView, adds: Seq<(u64, Seq<u8>)>, h: Seq<u8>)
    ensures
        apply_adds(s, adds).scopes.len() == s.scopes.len(),
        find_original(s.scopes, h) is Some ==> find_original(apply_adds(s, adds).scopes, h) == find_original(
            s.scopes,
            h,
        ),
    decreases adds.len(),
{
    if adds.len() > 0 {
        lemma_adds_keep_found(s, adds.drop_last(), h);
        let s1 = apply_adds(s, adds.drop_last());
        let (a, g) = adds.last();
        if find_original(s1.scopes, g) is None && s1.scopes.len() > 0 {
            lemma_find_after_push_last(s1.scopes, (g, a), h);
        }
    }
}

/// Of two expressions of the same shape that get a hash of their own, the
/// later one is recorded as a duplicate: of the earlier one when that was
/// an original, else of the earlier one's own original; and it counts as
/// one more duplicate (the count saturating at `u32::MAX`).
#[verifier::spinoff_prover]
pub proof fn lemma_same_shape_duplicate(s: DedupeView, e1: HashNode, e2: HashNode)
    requires
        s.scopes.len() > 0,
        same_shape(e1, e2),
        hash_node(e1, e1.address).1 is Some,
        hash_node(e1, e1.address).0.len() > 0,
    ensures
        ({
            let s1 = apply_adds(s, hash_node(e1, e1.address).0);
            let a2 = hash_node(e2, e2.address).0;
            let s2 = apply_adds(s1, a2);
            &&& hash_node(e2, e2.address).1 is Some
            &&& s1.expressions.contains_key(e1.address)
            &&& s2.expressions.contains_key(e2.address)
            &&& s1.expressions[e1.address] is None ==> s2.expressions[e2.address] == Some(e1.address)
            &&& s1.expressions[e1.address] matches Some(o) ==> s2.expressions[e2.address] == Some(o)
            &&& s2.duplicates == sat_inc(apply_adds(s1, a2.drop_last()).duplicates)
        }),
{
    let a1 = hash_node(e1, e1.address).0;
    let a2 = hash_node(e2, e2.address).0;
    lemma_same_shape_hash(e1, e2, e1.address, e2.address);
    assert(recorded_hashes(a1).len() == a1.len());
    assert(recorded_hashes(a2).len() == a2.len());
    lemma_own_hash_last(e1, e1.address);
    lemma_own_hash_last(e2, e2.address);
    let h = a1.last().1;
    assert(recorded_hashes(a1)[a1.len() - 1] == h);
    assert(a2.last().1 == h) by {
        assert(recorded_hashes(a2)[a2.len() - 1] == a2.last().1);
    }
    let before = apply_adds(s, a1.drop_last());
    lemma_adds_keep_found(s, a1.drop_last(), h);
    let s1 = apply_adds(s, a1);
    assert(s1 == add_spec(before, e1.address, h));
    if find_original(before.scopes, h) is None {
        lemma_find_after_push_last(before.scopes, (h, e1.address), h);
    }
    assert(find_original(s1.scopes, h) is Some);
    lemma_adds_keep_found(s1, a2.drop_last(), h);
}

proof fn lemma_byte_of(v: u64, w: u64, d: u64)
    requires
        d > 0,
        ((v / d) % 0x100) as u8 == ((w / d) % 0x100) as u8,
    ensures
        (v / d) % 0x100 == (w / d) % 0x100,
{
    let a = (v / d) % 0x100;
    let b = (w / d) % 0x100;
    assert(a < 0x100 && b < 0x100);
    assert((a as u8) as u64 == a) by (bit_vector)
        requires
            a < 0x100,
    ;
    assert((b as u8) as u64 == b) by (bit_vector)
        requires
            b < 0x100,
    ;
}

#[verifier::spinoff_prover]
proof fn lemma_le8_injective(v: u64, w: u64)
    requires
        le8(v) == le8(w),
    ensures
        v == w,
{
    assert(le8(v)[0] == le8(w)[0]);
    assert(v / 1 == v && w / 1 == w);
    lemma_byte_of(v, w, 0x1);
    assert(le8(v)[1] == le8(w)[1]);
    lemma_byte_of(v, w, 0x100);
    assert(le8(v)[2] == le8(w)[2]);
    lemma_byte_of(v, w, 0x1_0000);
    assert(le8(v)[3] == le8(w)[3]);
    lemma_byte_of(v, w, 0x100_0000);
    assert(le8(v)[4] == le8(w)[4]);
    lemma_byte_of(v, w, 0x1_0000_0000);
    assert(le8(v)[5] == le8(w)[5]);
    lemma_byte_of(v, w, 0x100_0000_0000);
    assert(le8(v)[6] == le8(w)[6]);
    lemma_byte_of(v, w, 0x1_0000_0000_0000);
    assert(le8(v)[7] == le8(w)[7]);
    lemma_byte_of(v, w, 0x100_0000_0000_0000);
    assert(v == w) by (bit_vector)
        requires
            (v / 0x1) % 0x100 == (w / 0x1) % 0x100,
            (v / 0x100) % 0x100 == (w / 0x100) % 0x100,
            (v / 0x1_0000) % 0x100 == (w / 0x1_0000) % 0x100,
            (v / 0x100_0000) % 0x100 == (w / 0x100_0000) % 0x100,
            (v / 0x1_0000_0000) % 0x100 == (w / 0x1_0000_0000) % 0x100,
            (v / 0x100_0000_0000) % 0x100 == (w / 0x100_0000_0000) % 0x100,
            (v / 0x1_0000_0000_0000) % 0x100 == (w / 0x1_0000_0000_0000) % 0x100,
            (v / 0x100_0000_0000_0000) % 0x100 == (w / 0x100_0000_0000_0000) % 0x100,
    ;
}

/// A literal, an identifier or a short string: an expression that feeds
/// its own bytes to the hash around it and gets no hash of its own.
pub open spec fn is_leaf(n: HashNode) -> bool {
    match n.kind {
        HashKind::Boolean(_) | HashKind::Null | HashKind::Numeric(_) | HashKind::Identifier(_, _) => true,
        HashKind::Str(s) => s@.len() <= LONG_STRING,
        _ => false,
    }
}

/// The first byte a leaf feeds, which tells its kind.
pub open spec fn leaf_tag(n: HashNode) -> u8 {
    match n.kind {
        HashKind::Boolean(b) => if b { 1u8 } else { 0u8 },
        HashKind::Null => NULL_LITERAL,
        HashKind::Numeric(_) => NUMERIC_LITERAL,
        HashKind::Str(_) => STRING_LITERAL,
        HashKind::Identifier(Some(_), _) => IDENTIFIER_REFERENCE_SYMBOL,
        _ => IDENTIFIER_REFERENCE_GLOBAL,
    }
}

#[verifier::spinoff_prover]
proof fn lemma_leaf_bytes(n: HashNode, x: u64)
    requires
        is_leaf(n),
    ensures
        hash_node(n, x).1 is Some,
        hash_node(n, x).1->0.len() > 0,
        hash_node(n, x).1->0[0] == leaf_tag(n),
        n.kind is Numeric ==> hash_node(n, x).1->0.subrange(1, 9) == le8(n.kind->Numeric_0),
        n.kind matches HashKind::Identifier(Some(v), _) ==> hash_node(n, x).1->0.subrange(1, 9) == le8(v),
        n.kind matches HashKind::Identifier(None, name) ==> hash_node(n, x).1->0.subrange(
            9,
            hash_node(n, x).1->0.len() as int,
        ) == name@,
        n.kind is Str ==> hash_node(n, x).1->0.subrange(9, hash_node(n, x).1->0.len() as int)
            == n.kind->Str_0@,
        (n.kind is Boolean || n.kind is Null) ==> hash_node(n, x).1->0.len() == 1,
        (n.kind is Numeric || n.kind matches HashKind::Identifier(Some(_), _)) ==> hash_node(n, x).1->0.len()
            == 9,
        n.kind matches HashKind::Identifier(None, name) ==> hash_node(n, x).1->0.len() == 9 + name@.len()
            && hash_node(n, x).1->0.subrange(1, 9) == le8(name@.len() as u64),
        n.kind matches HashKind::Str(t) ==> hash_node(n, x).1->0.len() == 9 + t@.len()
            && hash_node(n, x).1->0.subrange(1, 9) == le8(t@.len() as u64),
{
    let f = hash_node(n, x).1->0;
    match n.kind {
        HashKind::Numeric(v) => {
            assert(f.subrange(1, 9) =~= le8(v));
        },
        HashKind::Identifier(Some(v), _) => {
            assert(f.subrange(1, 9) =~= le8(v));
        },
        HashKind::Identifier(None, name) => {
            assert(f.subrange(9, f.len() as int) =~= name@);
            assert(f.subrange(1, 9) =~= le8(name@.len() as u64));
        },
        HashKind::Str(t) => {
            assert(f.subrange(9, f.len() as int) =~= t@);
            assert(f.subrange(1, 9) =~= le8(t@.len() as u64));
        },
        _ => {},
    }
}

/// Leaves feed the same bytes exactly when they are the same expression:
/// literals of different kinds or values, strings of different texts and
/// identifiers bound to different symbols or with different names all hash
/// differently.
pub proof fn lemma_leaf_hash_injective(a: HashNode, b: HashNode, x: u64, y: u64)
    requires
        is_leaf(a),
        is_leaf(b),
    ensures
        hash_node(a, x).1 == hash_node(b, y).1 <==> same_shape(a, b),
{
    if same_shape(a, b) {
        lemma_same_shape_hash(a, b, x, y);
    }
    if hash_node(a, x).1 == hash_node(b, y).1 {
        lemma_leaf_same_bytes(a, b, x, y);
    }
}

#[verifier::spinoff_prover]
proof fn lemma_leaf_same_bytes_numeric(a: HashNode, b: HashNode, x: u64, y: u64)
    requires
        is_leaf(a),
        is_leaf(b),
        a.kind is Numeric,
        hash_node(a, x).1 == hash_node(b, y).1,
    ensures
        same_shape(a, b),
{
    lemma_leaf_bytes(a, x);
    lemma_leaf_bytes(b, y);
    assert(leaf_tag(a) == leaf_tag(b));
    let v = a.kind->Numeric_0;
    let w = b.kind->Numeric_0;
    lemma_le8_injective(v, w);
}

#[verifier::spinoff_prover]
proof fn lemma_leaf_same_bytes_symbol(a: HashNode, b: HashNode, x: u64, y: u64)
    requires
        is_leaf(a),
        is_leaf(b),
        a.kind matches HashKind::Identifier(Some(_), _),
        hash_node(a, x).1 == hash_node(b, y).1,
    ensures
        same_shape(a, b),
{
    lemma_leaf_bytes(a, x);
    lemma_leaf_bytes(b, y);
    assert(leaf_tag(a) == leaf_tag(b));
    let v = a.kind->Identifier_0->0;
    let w = b.kind->Identifier_0->0;
    lemma_le8_injective(v, w);
}

#[verifier::spinoff_prover]
proof fn lemma_leaf_same_bytes_global(a: HashNode, b: HashNode, x: u64, y: u64)
    requires
        is_leaf(a),
        is_leaf(b),
        a.kind matches HashKind::Identifier(None, _),
        hash_node(a, x).1 == hash_node(b, y).1,
    ensures
        same_shape(a, b),
{
    lemma_leaf_bytes(a, x);
    lemma_leaf_bytes(b, y);
    assert(leaf_tag(a) == leaf_tag(b));
}

#[verifier::spinoff_prover]
proof fn lemma_leaf_same_bytes_string(a: HashNode, b: HashNode, x: u64, y: u64)
    requires
        is_leaf(a),
        is_leaf(b),
        a.kind is Str,
        hash_node(a, x).1 == hash_node(b, y).1,
    ensures
        same_shape(a, b),
{
    lemma_leaf_bytes(a, x);
    lemma_leaf_bytes(b, y);
    assert(leaf_tag(a) == leaf_tag(b));
}

#[verifier::spinoff_prover]
proof fn lemma_leaf_same_bytes_constant(a: HashNode, b: HashNode, x: u64, y: u64)
    requires
        is_leaf(a),
        is_leaf(b),
        a.kind is Boolean || a.kind is Null,
        hash_node(a, x).1 == hash_node(b, y).1,
    ensures
        same_shape(a, b),
{
    lemma_leaf_bytes(a, x);
    lemma_leaf_bytes(b, y);
    assert(leaf_tag(a) == leaf_tag(b));
}

proof fn lemma_leaf_same_bytes(a: HashNode, b: HashNode, x: u64, y: u64)
    requires
        is_leaf(a),
        is_leaf(b),
        hash_node(a, x).1 == hash_node(b, y).1,
    ensures
        same_shape(a, b),
{
    if a.kind is Numeric {
        lemma_leaf_same_bytes_numeric(a, b, x, y);
    } else if a.kind matches HashKind::Identifier(Some(_), _) {
        lemma_leaf_same_bytes_symbol(a, b, x, y);
    } else if a.kind matches HashKind::Identifier(None, _) {
        lemma_leaf_same_bytes_global(a, b, x, y);
    } else if a.kind is Str {
        lemma_leaf_same_bytes_string(a, b, x, y);
    } else {
        lemma_leaf_same_bytes_constant(a, b, x, y);
    }
}

/// A leaf whose bytes can be told apart from what follows them: its length
/// fits the eight bytes that give it.
pub open spec fn bounded_leaf(n: HashNode) -> bool {
    &&& is_leaf(n)
    &&& n.kind matches HashKind::Identifier(None, name) ==> name@.len() <= u64::MAX
}

/// The bytes a leaf feeds.
pub open spec fn leaf_bytes(n: HashNode) -> Seq<u8> {
    hash_node(n, n.address).1->0
}

#[verifier::spinoff_prover]
proof fn lemma_leaf_prefix_free(a: HashNode, b: HashNode, r1: Seq<u8>, r2: Seq<u8>)
    requires
        bounded_leaf(a),
        bounded_leaf(b),
        leaf_bytes(a) + r1 == leaf_bytes(b) + r2,
    ensures
        leaf_bytes(a) == leaf_bytes(b),
        r1 == r2,
{
    let fa = leaf_bytes(a);
    let fb = leaf_bytes(b);
    lemma_leaf_bytes(a, a.address);
    lemma_leaf_bytes(b, b.address);
    assert((fa + r1)[0] == fa[0]);
    assert((fb + r2)[0] == fb[0]);
    assert(leaf_tag(a) == leaf_tag(b));
    if a.kind is Str || a.kind matches HashKind::Identifier(None, _) {
        assert((fa + r1).subrange(1, 9) =~= fa.subrange(1, 9));
        assert((fb + r2).subrange(1, 9) =~= fb.subrange(1, 9));
        if a.kind is Str {
            let la = a.kind->Str_0@.len();
            let lb = b.kind->Str_0@.len();
            lemma_le8_injective(la as u64, lb as u64);
        } else {
            let la = a.kind->Identifier_1@.len();
            let lb = b.kind->Identifier_1@.len();
            lemma_le8_injective(la as u64, lb as u64);
        }
    }
    assert(fa.len() == fb.len());
    assert(fa =~= (fa + r1).subrange(0, fa.len() as int));
    assert(fb =~= (fb + r2).subrange(0, fb.len() as int));
    assert(r1 =~= (fa + r1).subrange(fa.len() as int, (fa + r1).len() as int));
    assert(r2 =~= (fb + r2).subrange(fb.len() as int, (fb + r2).len() as int));
}

/// The bytes of leaf array elements, one after another.
pub open spec fn leaf_concat(es: Seq<ArrayElement>) -> Seq<u8>
    decreases es.len(),
{
    if es.len() == 0 {
        Seq::empty()
    } else {
        leaf_concat(es.drop_last()) + element_leaf_bytes(es.last())
    }
}

/// Every element is an expression that is a bounded leaf.
pub open spec fn leaf_elements(es: Seq<ArrayElement>) -> bool {
    forall|k: int| 0 <= k < es.len() ==> (#[trigger] es[k]) is Expression && bounded_leaf(es[k]->Expression_0)
}

/// An array literal of literals, identifiers and short strings.
pub open spec fn leaf_array(n: HashNode) -> bool {
    n.kind matches HashKind::Array(es) && es@.len() <= u64::MAX && leaf_elements(es@)
}

/// The bytes an array literal of leaves takes its own hash of: its kind,
/// its length and the bytes of its elements.
pub open spec fn leaf_array_input(n: HashNode) -> Seq<u8> {
    seq![ARRAY_EXPRESSION] + le8(n.kind->Array_0@.len() as u64) + leaf_concat(n.kind->Array_0@)
}

#[verifier::spinoff_prover]
proof fn lemma_leaf_elements_hash(es: Seq<ArrayElement>)
    requires
        leaf_elements(es),
    ensures
        hash_elements(es) == (Seq::<(u64, Seq<u8>)>::empty(), Some(leaf_concat(es))),
    decreases es.len(),
{
    if es.len() > 0 {
        assert(leaf_elements(es.drop_last())) by {
            assert forall|k: int| 0 <= k < es.drop_last().len() implies (#[trigger] es.drop_last()[k]) is Expression
                && bounded_leaf(es.drop_last()[k]->Expression_0) by {
                assert(es.drop_last()[k] == es[k]);
            }
        }
        lemma_leaf_elements_hash(es.drop_last());
        assert(es[es.len() - 1] == es.last());
        let e = es.last()->Expression_0;
        lemma_leaf_bytes(e, e.address);
        assert(Seq::<(u64, Seq<u8>)>::empty() + Seq::<(u64, Seq<u8>)>::empty() =~= Seq::<(u64, Seq<u8>)>::empty());
    }
}

/// The bytes a leaf array element feeds.
pub open spec fn element_leaf_bytes(e: ArrayElement) -> Seq<u8> {
    match e {
        ArrayElement::Expression(n) => leaf_bytes(n),
        _ => Seq::empty(),
    }
}

#[verifier::spinoff_prover]
proof fn lemma_leaf_concat_front(es: Seq<ArrayElement>)
    requires
        es.len() > 0,
    ensures
        leaf_concat(es) == element_leaf_bytes(es[0]) + leaf_concat(es.drop_first()),
    decreases es.len(),
{
    let d = es.drop_last();
    let f = es.drop_first();
    assert(leaf_concat(es) == leaf_concat(d) + element_leaf_bytes(es.last()));
    if es.len() == 1 {
        assert(d =~= Seq::<ArrayElement>::empty());
        assert(f =~= Seq::<ArrayElement>::empty());
        assert(leaf_concat(d) == Seq::<u8>::empty());
        assert(leaf_concat(f) == Seq::<u8>::empty());
        assert(es.last() == es[0]);
        assert(leaf_concat(es) =~= element_leaf_bytes(es[0]) + leaf_concat(f));
    } else {
        lemma_leaf_concat_front(d);
        assert(d.drop_first() =~= f.drop_last());
        assert(f.last() == es.last());
        assert(d[0] == es[0]);
        assert(leaf_concat(f) == leaf_concat(f.drop_last()) + element_leaf_bytes(f.last()));
        assert(leaf_concat(es) =~= element_leaf_bytes(es[0]) + leaf_concat(f));
    }
}

#[verifier::spinoff_prover]
proof fn lemma_leaf_concat_decode(es1: Seq<ArrayElement>, es2: Seq<ArrayElement>)
    requires
        leaf_elements(es1),
        leaf_elements(es2),
        es1.len() == es2.len(),
        leaf_concat(es1) == leaf_concat(es2),
    ensures
        same_elements(es1, es2),
    decreases es1.len(),
{
    if es1.len() > 0 {
        lemma_leaf_concat_front(es1);
        lemma_leaf_concat_front(es2);
        let e1 = es1[0]->Expression_0;
        let e2 = es2[0]->Expression_0;
        assert(es1[0] is Expression);
        assert(es2[0] is Expression);
        lemma_leaf_prefix_free(e1, e2, leaf_concat(es1.drop_first()), leaf_concat(es2.drop_first()));
        lemma_leaf_hash_injective(e1, e2, e1.address, e2.address);
        assert(leaf_elements(es1.drop_first())) by {
            assert forall|k: int| 0 <= k < es1.drop_first().len() implies (#[trigger] es1.drop_first()[k]) is Expression
                && bounded_leaf(es1.drop_first()[k]->Expression_0) by {
                assert(es1.drop_first()[k] == es1[k + 1]);
            }
        }
        assert(leaf_elements(es2.drop_first())) by {
            assert forall|k: int| 0 <= k < es2.drop_first().len() implies (#[trigger] es2.drop_first()[k]) is Expression
                && bounded_leaf(es2.drop_first()[k]->Expression_0) by {
                assert(es2.drop_first()[k] == es2[k + 1]);
            }
        }
        lemma_leaf_concat_decode(es1.drop_first(), es2.drop_first());
        lemma_same_elements_cons(es1, es2);
    }
}

#[verifier::spinoff_prover]
proof fn lemma_same_elements_cons(es1: Seq<ArrayElement>, es2: Seq<ArrayElement>)
    requires
        es1.len() > 0,
        es1.len() == es2.len(),
        same_elements(es1.drop_first(), es2.drop_first()),
        match (es1[0], es2[0]) {
            (ArrayElement::Expression(x), ArrayElement::Expression(y)) => same_shape(x, y),
            _ => false,
        },
    ensures
        same_elements(es1, es2),
    decreases es1.len(),
{
    if es1.len() > 1 {
        assert(es1.drop_first().drop_last() =~= es1.drop_last().drop_first());
        assert(es2.drop_first().drop_last() =~= es2.drop_last().drop_first());
        assert(es1.drop_first().last() == es1.last());
        assert(es2.drop_first().last() == es2.last());
        assert(es1.drop_last()[0] == es1[0]);
        assert(es2.drop_last()[0] == es2[0]);
        assert(same_elements(es1.drop_last().drop_first(), es2.drop_last().drop_first()));
        lemma_same_elements_cons(es1.drop_last(), es2.drop_last());
        assert(same_elements(es1.drop_last(), es2.drop_last()));
    } else {
        assert(es1.drop_last().len() == 0);
        assert(es2.drop_last().len() == 0);
        assert(same_elements(es1.drop_last(), es2.drop_last()));
        assert(es1.last() == es1[0]);
        assert(es2.last() == es2[0]);
    }
}

#[verifier::spinoff_prover]
proof fn lemma_same_shape_arrays(a: HashNode, b: HashNode)
    requires
        a.kind is Array,
        b.kind is Array,
    ensures
        same_shape(a, b) == same_elements(a.kind->Array_0@, b.kind->Array_0@),
{
}

#[verifier::spinoff_prover]
proof fn lemma_leaf_array_own_hash(a: HashNode, x: u64)
    requires
        leaf_array(a),
    ensures
        hash_node(a, x) == (seq![(x, sha1_of(leaf_array_input(a)))], Some(seq![HASH] + sha1_of(leaf_array_input(a)))),
{
    let es1 = a.kind->Array_0@;
    lemma_leaf_elements_hash(es1);
    assert(Seq::<(u64, Seq<u8>)>::empty() + Seq::<(u64, Seq<u8>)>::empty() =~= Seq::<(u64, Seq<u8>)>::empty());
    assert(Seq::<(u64, Seq<u8>)>::empty().push((x, sha1_of(leaf_array_input(a)))) =~= seq![(x, sha1_of(leaf_array_input(a)))]);
}

/// An array literal of leaves gets one hash of its own, taken of its kind,
/// its length and its elements' bytes; and two such arrays have their hashes
/// taken of the same bytes exactly when they have the same shape. So arrays
/// that differ in any element (a different number, string, literal kind or
/// identifier) are never taken for duplicates unless SHA-1 collides.
#[verifier::spinoff_prover]
pub proof fn lemma_leaf_array_hash(a: HashNode, b: HashNode, x: u64)
    requires
        leaf_array(a),
        leaf_array(b),
    ensures
        hash_node(a, x) == (seq![(x, sha1_of(leaf_array_input(a)))], Some(seq![HASH] + sha1_of(leaf_array_input(a)))),
        leaf_array_input(a) == leaf_array_input(b) <==> same_shape(a, b),
{
    lemma_leaf_array_own_hash(a, x);
    lemma_same_shape_arrays(a, b);
    lemma_leaf_array_inputs(a, b);
}

#[verifier::spinoff_prover]
proof fn lemma_leaf_array_inputs(a: HashNode, b: HashNode)
    requires
        leaf_array(a),
        leaf_array(b),
    ensures
        leaf_array_input(a) == leaf_array_input(b) <==> same_elements(a.kind->Array_0@, b.kind->Array_0@),
{
    let es1 = a.kind->Array_0@;
    let es2 = b.kind->Array_0@;
    if leaf_array_input(a) == leaf_array_input(b) {
        let ia = leaf_array_input(a);
        let ib = leaf_array_input(b);
        assert(ia.subrange(1, 9) =~= le8(es1.len() as u64));
        assert(ib.subrange(1, 9) =~= le8(es2.len() as u64));
        lemma_le8_injective(es1.len() as u64, es2.len() as u64);
        assert(ia.subrange(9, ia.len() as int) =~= leaf_concat(es1));
        assert(ib.subrange(9, ib.len() as int) =~= leaf_concat(es2));
        lemma_leaf_concat_decode(es1, es2);
    }
    if same_elements(es1, es2) {
        lemma_same_elements_hash(es1, es2);
        lemma_leaf_elements_hash(es1);
        lemma_leaf_elements_hash(es2);
    }
}

/// Recording `a` and then `b` is recording `a + b`.
pub proof fn lemma_apply_adds_concat(s: DedupeView, a: Seq<(u64, Seq<u8>)>, b: Seq<(u64, Seq<u8>)>)
    ensures
        apply_adds(apply_adds(s, a), b) == apply_adds(s, a + b),
    decreases b.len(),
{
    if b.len() == 0 {
        assert(a + b =~= a);
    } else {
        lemma_apply_adds_concat(s, a, b.drop_last());
        assert((a + b).drop_last() =~= a + b.drop_last());
        assert((a + b).last() == b.last());
    }
}

/// The bytes of an optional byte vector.
pub open spec fn opt_bytes(r: Option<Vec<u8>>) -> Option<Seq<u8>> {
    match r {
        Some(v) => Some(v@),
        None => None,
    }
}

fn push_bytes(v: &mut Vec<u8>, s: &[u8])
    ensures
        final(v)@ == old(v)@ + s@,
{
    let mut i: usize = 0;
    while i < s.len()
        invariant
            i <= s@.len(),
            v@ == old(v)@ + s@.subrange(0, i as int),
        decreases s@.len() - i,
    {
        v.push(s[i]);
        assert(s@.subrange(0, i + 1) =~= s@.subrange(0, i as int).push(s[i as int]));
        i += 1;
    }
    assert(s@.subrange(0, s@.len() as int) =~= s@);
}

fn push_le8(v: &mut Vec<u8>, x: u64)
    ensures
        final(v)@ == old(v)@ + le8(x),
{
    v.push((x % 0x100) as u8);
    v.push(((x / 0x100) % 0x100) as u8);
    v.push(((x / 0x1_0000) % 0x100) as u8);
    v.push(((x / 0x100_0000) % 0x100) as u8);
    v.push(((x / 0x1_0000_0000) % 0x100) as u8);
    v.push(((x / 0x100_0000_0000) % 0x100) as u8);
    v.push(((x / 0x1_0000_0000_0000) % 0x100) as u8);
    v.push(((x / 0x100_0000_0000_0000) % 0x100) as u8);
    assert(v@ =~= old(v)@ + le8(x));
}

fn push_tagged_str(v: &mut Vec<u8>, tag: u8, s: &[u8])
    ensures
        final(v)@ == old(v)@ + tagged_str(tag, s@),
{
    v.push(tag);
    push_le8(v, s.len() as u64);
    push_bytes(v, s);
    assert(v@ =~= old(v)@ + tagged_str(tag, s@));
}

fn push_quasis(v: &mut Vec<u8>, qs: &Vec<Vec<u8>>)
    ensures
        final(v)@ == old(v)@ + quasis_bytes(qs@),
{
    let mut i: usize = 0;
    while i < qs.len()
        invariant
            i <= qs@.len(),
            v@ == old(v)@ + quasis_bytes(qs@.subrange(0, i as int)),
        decreases qs@.len() - i,
    {
        assert(qs@.subrange(0, i + 1).drop_last() =~= qs@.subrange(0, i as int));
        push_tagged_str(v, TEMPLATE_ELEMENT, qs[i].as_slice());
        i += 1;
    }
    assert(qs@.subrange(0, qs@.len() as int) =~= qs@);
}

/// Hashes `input` on its own, records the hash under `addr` and returns the
/// bytes that feed the hash around.
fn record_own(state: &mut DedupeState, addr: u64, input: &Vec<u8>) -> (r: Vec<u8>)
    ensures
        final(state).view() == add_spec(old(state).view(), addr, sha1_of(input@)),
        r@ == seq![HASH] + sha1_of(input@),
{
    let d = sha1_digest(input.as_slice());
    state.add(addr, d);
    let mut out = Vec::new();
    out.push(HASH);
    push_bytes(&mut out, &d);
    assert(out@ =~= seq![HASH] + sha1_of(input@));
    out
}


proof fn lemma_own_state(s0: DedupeView, adds: Seq<(u64, Seq<u8>)>, addr: u64, input: Seq<u8>)
    ensures
        add_spec(apply_adds(s0, adds), addr, sha1_of(input)) == apply_adds(
            s0,
            own_hash(addr, input, adds).0,
        ),
{
    let a2 = adds.push((addr, sha1_of(input)));
    assert(a2.drop_last() =~= adds);
}

/// Hashes the node `n` under the address `addr`.
#[verifier::rlimit(40)]
#[verifier::spinoff_prover]
fn walk_node(state: &mut DedupeState, n: &HashNode, addr: u64) -> (r: Option<Vec<u8>>)
    ensures
        final(state).view() == apply_adds(old(state).view(), hash_node(*n, addr).0),
        opt_bytes(r) == hash_node(*n, addr).1,
    decreases n, 0nat,
{
    let ghost s0 = state.view();
    match &n.kind {
        HashKind::Boolean(b) => {
            let mut v = Vec::new();
            v.push(if *b { 1u8 } else { 0u8 });
            assert(v@ =~= seq![if *b { 1u8 } else { 0u8 }]);
            Some(v)
        },
        HashKind::Null => {
            let mut v = Vec::new();
            v.push(NULL_LITERAL);
            assert(v@ =~= seq![NULL_LITERAL]);
            Some(v)
        },
        HashKind::Numeric(bits) => {
            let mut v = Vec::new();
            v.push(NUMERIC_LITERAL);
            push_le8(&mut v, *bits);
            assert(v@ =~= seq![NUMERIC_LITERAL] + le8(*bits));
            Some(v)
        },
        HashKind::BigInt(text) => {
            let mut input = Vec::new();
            push_tagged_str(&mut input, BIG_INT_LITERAL, text.as_slice());
            assert(input@ =~= tagged_str(BIG_INT_LITERAL, text@));
            proof {
                lemma_own_state(s0, Seq::empty(), addr, input@);
            }
            Some(record_own(state, addr, &input))
        },
        HashKind::RegExp(raw) => match raw {
            None => None,
            Some(text) => {
                let mut input = Vec::new();
                push_tagged_str(&mut input, REG_EXP_LITERAL, text.as_slice());
                assert(input@ =~= tagged_str(REG_EXP_LITERAL, text@));
                proof {
                    lemma_own_state(s0, Seq::empty(), addr, input@);
                }
                Some(record_own(state, addr, &input))
            },
        },
        HashKind::Str(text) => {
            let mut input = Vec::new();
            push_tagged_str(&mut input, STRING_LITERAL, text.as_slice());
            assert(input@ =~= tagged_str(STRING_LITERAL, text@));
            if text.len() > LONG_STRING {
                proof {
                    lemma_own_state(s0, Seq::empty(), addr, input@);
                }
                Some(record_own(state, addr, &input))
            } else {
                Some(input)
            }
        },
        HashKind::Template(qs, es) => {
            let mut input = Vec::new();
            input.push(TEMPLATE_LITERAL);
            push_le8(&mut input, qs.len() as u64);
            push_quasis(&mut input, qs);
            push_le8(&mut input, es.len() as u64);
            let ghost header = input@;
            assert(header =~= seq![TEMPLATE_LITERAL] + le8(qs@.len() as u64) + quasis_bytes(qs@)
                + le8(es@.len() as u64));
            match walk_nodes(state, es) {
                None => None,
                Some(b) => {
                    push_bytes(&mut input, b.as_slice());
                    proof {
                        assert(header + Seq::<u8>::empty() + b@ =~= input@);
                        lemma_own_state(s0, hash_nodes(es@).0, addr, input@);
                    }
                    Some(record_own(state, addr, &input))
                },
            }
        },
        HashKind::Identifier(sym, name) => match sym {
            Some(sid) => {
                let mut v = Vec::new();
                v.push(IDENTIFIER_REFERENCE_SYMBOL);
                push_le8(&mut v, *sid);
                assert(v@ =~= seq![IDENTIFIER_REFERENCE_SYMBOL] + le8(*sid));
                Some(v)
            },
            None => {
                let mut v = Vec::new();
                push_tagged_str(&mut v, IDENTIFIER_REFERENCE_GLOBAL, name.as_slice());
                assert(v@ =~= tagged_str(IDENTIFIER_REFERENCE_GLOBAL, name@));
                Some(v)
            },
        },
        HashKind::Call(callee, args) => {
            let mut input = Vec::new();
            input.push(CALL);
            let ghost c = hash_node(**callee, callee.address);
            match walk_node(state, callee, callee.address) {
                None => None,
                Some(cb) => {
                    push_bytes(&mut input, cb.as_slice());
                    push_le8(&mut input, args.len() as u64);
                    let ghost s1 = state.view();
                    let ghost mid = input@;
                    match walk_args(state, args) {
                        None => {
                            proof {
                                lemma_apply_adds_concat(s0, c.0, hash_args(args@).0);
                            }
                            None
                        },
                        Some(ab) => {
                            push_bytes(&mut input, ab.as_slice());
                            proof {
                                lemma_apply_adds_concat(s0, c.0, hash_args(args@).0);
                                assert(seq![CALL] + cb@ + le8(args@.len() as u64) + ab@ =~= input@);
                                assert(Seq::<(u64, Seq<u8>)>::empty() + c.0 =~= c.0);
                                assert(seq![CALL] + Seq::<u8>::empty() + cb@ =~= seq![CALL] + cb@);
                                lemma_own_state(s0, c.0 + hash_args(args@).0, addr, input@);
                            }
                            Some(record_own(state, addr, &input))
                        },
                    }
                },
            }
        },
        HashKind::Array(es) => {
            let mut input = Vec::new();
            input.push(ARRAY_EXPRESSION);
            push_le8(&mut input, es.len() as u64);
            let ghost header = input@;
            match walk_elements(state, es) {
                None => None,
                Some(b) => {
                    push_bytes(&mut input, b.as_slice());
                    proof {
                        assert(header =~= seq![ARRAY_EXPRESSION] + le8(es@.len() as u64));
                        assert(header + Seq::<u8>::empty() + b@ =~= input@);
                        assert(Seq::<(u64, Seq<u8>)>::empty() + hash_elements(es@).0
                            =~= hash_elements(es@).0);
                        lemma_own_state(s0, hash_elements(es@).0, addr, input@);
                    }
                    Some(record_own(state, addr, &input))
                },
            }
        },
        HashKind::Object(ms) => {
            let mut input = Vec::new();
            input.push(OBJECT_EXPRESSION);
            push_le8(&mut input, ms.len() as u64);
            let ghost header = input@;
            match walk_members(state, ms) {
                None => None,
                Some(b) => {
                    push_bytes(&mut input, b.as_slice());
                    proof {
                        assert(header =~= seq![OBJECT_EXPRESSION] + le8(ms@.len() as u64));
                        assert(header + Seq::<u8>::empty() + b@ =~= input@);
                        assert(Seq::<(u64, Seq<u8>)>::empty() + hash_members(ms@).0
                            =~= hash_members(ms@).0);
                        lemma_own_state(s0, hash_members(ms@).0, addr, input@);
                    }
                    Some(record_own(state, addr, &input))
                },
            }
        },
        HashKind::Parenthesized(inner) => walk_node(state, inner, addr),
        HashKind::TaggedTemplate(tag, qs, es) => {
            let mut input = Vec::new();
            input.push(TAGGED_TEMPLATE_EXPRESSION);
            let ghost t = hash_node(**tag, addr);
            match walk_node(state, tag, addr) {
                None => None,
                Some(tb) => {
                    push_bytes(&mut input, tb.as_slice());
                    let ghost before = input@;
                    push_le8(&mut input, qs.len() as u64);
                    push_quasis(&mut input, qs);
                    push_le8(&mut input, es.len() as u64);
                    let ghost mid = input@;
                    match walk_nodes(state, es) {
                        None => {
                            proof {
                                lemma_apply_adds_concat(s0, t.0, hash_nodes(es@).0);
                            }
                            None
                        },
                        Some(eb) => {
                            push_bytes(&mut input, eb.as_slice());
                            proof {
                                lemma_apply_adds_concat(s0, t.0, hash_nodes(es@).0);
                                assert(Seq::<(u64, Seq<u8>)>::empty() + t.0 =~= t.0);
                                assert(seq![TAGGED_TEMPLATE_EXPRESSION] + Seq::<u8>::empty() + tb@
                                    =~= seq![TAGGED_TEMPLATE_EXPRESSION] + tb@);
                                assert(seq![TAGGED_TEMPLATE_EXPRESSION] + tb@ + (le8(
                                    qs@.len() as u64,
                                ) + quasis_bytes(qs@) + le8(es@.len() as u64)) + eb@ =~= input@);
                                lemma_own_state(s0, t.0 + hash_nodes(es@).0, addr, input@);
                            }
                            Some(record_own(state, addr, &input))
                        },
                    }
                },
            }
        },
        HashKind::Other => None,
    }
}

/// Hashes expressions one after another, each under its own address.
fn walk_nodes(state: &mut DedupeState, ns: &Vec<HashNode>) -> (r: Option<Vec<u8>>)
    ensures
        final(state).view() == apply_adds(old(state).view(), hash_nodes(ns@).0),
        opt_bytes(r) == hash_nodes(ns@).1,
    decreases ns, 1nat,
{
    let ghost s0 = state.view();
    let mut acc: Option<Vec<u8>> = Some(Vec::new());
    let mut i: usize = 0;
    assert(ns@.subrange(0, 0) =~= Seq::<HashNode>::empty());
    assert(apply_adds(s0, Seq::empty()) == s0);
    while i < ns.len()
        invariant
            i <= ns@.len(),
            state.view() == apply_adds(s0, hash_nodes(ns@.subrange(0, i as int)).0),
            opt_bytes(acc) == hash_nodes(ns@.subrange(0, i as int)).1,
        decreases ns@.len() - i,
    {
        let ghost pre = hash_nodes(ns@.subrange(0, i as int));
        assert(ns@.subrange(0, i + 1).drop_last() =~= ns@.subrange(0, i as int));
        assert(ns@.subrange(0, i + 1).last() == ns@[i as int]);
        if acc.is_some() {
            let mut a = acc.unwrap();
            let ghost c = hash_node(ns@[i as int], ns@[i as int].address);
            let r = walk_node(state, &ns[i], ns[i].address);
            proof {
                lemma_apply_adds_concat(s0, pre.0, c.0);
            }
            match r {
                None => {
                    acc = None;
                },
                Some(b) => {
                    push_bytes(&mut a, b.as_slice());
                    assert(pre.1->0 + Seq::<u8>::empty() + b@ =~= a@);
                    acc = Some(a);
                },
            }
        }
        i += 1;
    }
    assert(ns@.subrange(0, ns@.len() as int) =~= ns@);
    acc
}

/// Hashes call arguments.
fn walk_args(state: &mut DedupeState, ns: &Vec<Option<HashNode>>) -> (r: Option<Vec<u8>>)
    ensures
        final(state).view() == apply_adds(old(state).view(), hash_args(ns@).0),
        opt_bytes(r) == hash_args(ns@).1,
    decreases ns, 1nat,
{
    let ghost s0 = state.view();
    let mut acc: Option<Vec<u8>> = Some(Vec::new());
    let mut i: usize = 0;
    assert(ns@.subrange(0, 0) =~= Seq::<Option<HashNode>>::empty());
    while i < ns.len()
        invariant
            i <= ns@.len(),
            state.view() == apply_adds(s0, hash_args(ns@.subrange(0, i as int)).0),
            opt_bytes(acc) == hash_args(ns@.subrange(0, i as int)).1,
        decreases ns@.len() - i,
    {
        let ghost pre = hash_args(ns@.subrange(0, i as int));
        assert(ns@.subrange(0, i + 1).drop_last() =~= ns@.subrange(0, i as int));
        assert(ns@.subrange(0, i + 1).last() == ns@[i as int]);
        if acc.is_some() {
            let mut a = acc.unwrap();
            match &ns[i] {
                None => {
                    assert(pre.0 + Seq::<(u64, Seq<u8>)>::empty() =~= pre.0);
                    acc = None;
                },
                Some(n) => {
                    let ghost c = hash_node(*n, n.address);
                    let r = walk_node(state, n, n.address);
                    proof {
                        lemma_apply_adds_concat(s0, pre.0, c.0);
                    }
                    match r {
                        None => {
                            acc = None;
                        },
                        Some(b) => {
                            push_bytes(&mut a, b.as_slice());
                            assert(pre.1->0 + Seq::<u8>::empty() + b@ =~= a@);
                            acc = Some(a);
                        },
                    }
                },
            }
        }
        i += 1;
    }
    assert(ns@.subrange(0, ns@.len() as int) =~= ns@);
    acc
}

/// Hashes array elements.
fn walk_elements(state: &mut DedupeState, es: &Vec<ArrayElement>) -> (r: Option<Vec<u8>>)
    ensures
        final(state).view() == apply_adds(old(state).view(), hash_elements(es@).0),
        opt_bytes(r) == hash_elements(es@).1,
    decreases es, 1nat,
{
    let ghost s0 = state.view();
    let mut acc: Option<Vec<u8>> = Some(Vec::new());
    let mut i: usize = 0;
    assert(es@.subrange(0, 0) =~= Seq::<ArrayElement>::empty());
    while i < es.len()
        invariant
            i <= es@.len(),
            state.view() == apply_adds(s0, hash_elements(es@.subrange(0, i as int)).0),
            opt_bytes(acc) == hash_elements(es@.subrange(0, i as int)).1,
        decreases es@.len() - i,
    {
        let ghost pre = hash_elements(es@.subrange(0, i as int));
        assert(es@.subrange(0, i + 1).drop_last() =~= es@.subrange(0, i as int));
        assert(es@.subrange(0, i + 1).last() == es@[i as int]);
        if acc.is_some() {
            let mut a = acc.unwrap();
            match &es[i] {
                ArrayElement::Elision => {
                    a.push(ELISION);
                    assert(pre.0 + Seq::<(u64, Seq<u8>)>::empty() =~= pre.0);
                    assert(pre.1->0 + Seq::<u8>::empty() + seq![ELISION] =~= a@);
                    acc = Some(a);
                },
                ArrayElement::Spread(n) => {
                    let ghost c = hash_node(*n, n.address);
                    let r = walk_node(state, n, n.address);
                    proof {
                        assert(Seq::<(u64, Seq<u8>)>::empty() + c.0 =~= c.0);
                        lemma_apply_adds_concat(s0, pre.0, c.0);
                    }
                    match r {
                        None => {
                            acc = None;
                        },
                        Some(b) => {
                            a.push(SPREAD_ELEMENT);
                            push_bytes(&mut a, b.as_slice());
                            assert(seq![SPREAD_ELEMENT] + Seq::<u8>::empty() + b@ =~= seq![
                                SPREAD_ELEMENT,
                            ] + b@);
                            assert(pre.1->0 + Seq::<u8>::empty() + (seq![SPREAD_ELEMENT] + b@)
                                =~= a@);
                            acc = Some(a);
                        },
                    }
                },
                ArrayElement::Expression(n) => {
                    let ghost c = hash_node(*n, n.address);
                    let r = walk_node(state, n, n.address);
                    proof {
                        lemma_apply_adds_concat(s0, pre.0, c.0);
                    }
                    match r {
                        None => {
                            acc = None;
                        },
                        Some(b) => {
                            push_bytes(&mut a, b.as_slice());
                            assert(pre.1->0 + Seq::<u8>::empty() + b@ =~= a@);
                            acc = Some(a);
                        },
                    }
                },
            }
        }
        i += 1;
    }
    assert(es@.subrange(0, es@.len() as int) =~= es@);
    acc
}

/// Hashes object members.
fn walk_members(state: &mut DedupeState, ms: &Vec<ObjectMember>) -> (r: Option<Vec<u8>>)
    ensures
        final(state).view() == apply_adds(old(state).view(), hash_members(ms@).0),
        opt_bytes(r) == hash_members(ms@).1,
    decreases ms, 1nat,
{
    let ghost s0 = state.view();
    let mut acc: Option<Vec<u8>> = Some(Vec::new());
    let mut i: usize = 0;
    assert(ms@.subrange(0, 0) =~= Seq::<ObjectMember>::empty());
    while i < ms.len()
        invariant
            i <= ms@.len(),
            state.view() == apply_adds(s0, hash_members(ms@.subrange(0, i as int)).0),
            opt_bytes(acc) == hash_members(ms@.subrange(0, i as int)).1,
        decreases ms@.len() - i,
    {
        let ghost pre = hash_members(ms@.subrange(0, i as int));
        assert(ms@.subrange(0, i + 1).drop_last() =~= ms@.subrange(0, i as int));
        assert(ms@.subrange(0, i + 1).last() == ms@[i as int]);
        if acc.is_some() {
            let mut a = acc.unwrap();
            match &ms[i] {
                ObjectMember::Spread(n) => {
                    let ghost c = hash_node(*n, n.address);
                    let r = walk_node(state, n, n.address);
                    proof {
                        assert(Seq::<(u64, Seq<u8>)>::empty() + c.0 =~= c.0);
                        lemma_apply_adds_concat(s0, pre.0, c.0);
                    }
                    match r {
                        None => {
                            acc = None;
                        },
                        Some(b) => {
                            a.push(SPREAD_ELEMENT);
                            push_bytes(&mut a, b.as_slice());
                            assert(seq![SPREAD_ELEMENT] + Seq::<u8>::empty() + b@ =~= seq![
                                SPREAD_ELEMENT,
                            ] + b@);
                            assert(pre.1->0 + Seq::<u8>::empty() + (seq![SPREAD_ELEMENT] + b@)
                                =~= a@);
                            acc = Some(a);
                        },
                    }
                },
                ObjectMember::Property(k, v) => {
                    let ghost kc = hash_key(*k);
                    let ghost vc = hash_node(*v, v.address);
                    let ghost s1 = state.view();
                    let rk = walk_key(state, k);
                    proof {
                        assert(Seq::<(u64, Seq<u8>)>::empty() + kc.0 =~= kc.0);
                        lemma_apply_adds_concat(s0, pre.0, kc.0);
                    }
                    match rk {
                        None => {
                            acc = None;
                        },
                        Some(kb) => {
                            let rv = walk_node(state, v, v.address);
                            proof {
                                lemma_apply_adds_concat(s0, pre.0 + kc.0, vc.0);
                                assert(pre.0 + kc.0 + vc.0 =~= pre.0 + (kc.0 + vc.0));
                            }
                            match rv {
                                None => {
                                    acc = None;
                                },
                                Some(vb) => {
                                    a.push(OBJECT_PROPERTY_KEY);
                                    push_bytes(&mut a, kb.as_slice());
                                    a.push(OBJECT_PROPERTY_VALUE);
                                    push_bytes(&mut a, vb.as_slice());
                                    assert(seq![OBJECT_PROPERTY_KEY] + Seq::<u8>::empty() + kb@
                                        + seq![OBJECT_PROPERTY_VALUE] + vb@ =~= seq![
                                        OBJECT_PROPERTY_KEY,
                                    ] + kb@ + seq![OBJECT_PROPERTY_VALUE] + vb@);
                                    assert(pre.1->0 + Seq::<u8>::empty() + (seq![
                                        OBJECT_PROPERTY_KEY,
                                    ] + kb@ + seq![OBJECT_PROPERTY_VALUE] + vb@) =~= a@);
                                    acc = Some(a);
                                },
                            }
                        },
                    }
                },
            }
        }
        i += 1;
    }
    assert(ms@.subrange(0, ms@.len() as int) =~= ms@);
    acc
}

/// Hashes a property key.
fn walk_key(state: &mut DedupeState, k: &PropertyKey) -> (r: Option<Vec<u8>>)
    ensures
        final(state).view() == apply_adds(old(state).view(), hash_key(*k).0),
        opt_bytes(r) == hash_key(*k).1,
    decreases k, 1nat,
{
    match k {
        PropertyKey::StaticIdentifier(name) => {
            let mut v = Vec::new();
            v.push(IDENTIFIER_NAME);
            push_bytes(&mut v, name.as_slice());
            assert(v@ =~= seq![IDENTIFIER_NAME] + name@);
            Some(v)
        },
        PropertyKey::PrivateIdentifier(name) => {
            let mut v = Vec::new();
            v.push(PRIVATE_IDENTIFIER);
            push_bytes(&mut v, name.as_slice());
            assert(v@ =~= seq![PRIVATE_IDENTIFIER] + name@);
            Some(v)
        },
        PropertyKey::Expression(n) => match &n.kind {
            HashKind::Boolean(_)
            | HashKind::Null
            | HashKind::Numeric(_)
            | HashKind::BigInt(_)
            | HashKind::RegExp(_)
            | HashKind::Str(_)
            | HashKind::Template(_, _)
            | HashKind::Identifier(_, _) => walk_node(state, n, n.address),
            _ => None,
        },
    }
}

/// Hashes `node` and the hashable nodes inside it, recording each node
/// that gets a hash of its own in `state`. Returns `None` where the node
/// cannot be hashed; the hashes of the parts visited before that stay
/// recorded.
pub fn dedupe_hash(state: &mut DedupeState, node: &HashNode) -> (r: Option<()>)
    ensures
        final(state).view() == apply_adds(old(state).view(), hash_node(*node, node.address).0),
        r is Some <==> hash_node(*node, node.address).1 is Some,
{
    match walk_node(state, node, node.address) {
        Some(_) => Some(()),
        None => None,
    }
}

} // verus!
