//! The text form of the property map read back: what `export` writes,
//! `import` reads as the same entries.
use vstd::prelude::*;
use vstd::utf8::*;
use crate::property_names::{
    bytes_less, export_line, lemma_ascii_valid_utf8, export_text, find_byte, import_lines, is_ascii_ws, lex_less_from,
    no_entries, parse_line, sorted_listing, trim_ascii, trim_hi, trim_lo, LineParse,
};

verus! {

/// A character that `trim_ascii` takes off a line's ends.
pub open spec fn ws_char(c: char) -> bool {
    let x = c as u32;
    x == 0x20 || x == 0x09 || x == 0x0a || x == 0x0c || x == 0x0d
}

/// A key or value that the text form can carry: no `=` and no line feed.
pub open spec fn plain_text(t: Seq<char>) -> bool {
    forall|j: int| 0 <= j < t.len() ==> (#[trigger] t[j] as u32) != 0x3d && (t[j] as u32) != 0x0a
}

/// An entry that reads back as written: key and value carry no `=` or line
/// feed, the key does not start and the value does not end with whitespace.
pub open spec fn exportable_entry(k: Seq<char>, v: Seq<char>) -> bool {
    &&& plain_text(k)
    &&& plain_text(v)
    &&& (k.len() > 0 ==> !ws_char(k[0]))
    &&& (v.len() > 0 ==> !ws_char(v.last()))
}

/// Every entry of the map reads back as written.
pub open spec fn exportable(m: Map<Seq<char>, Seq<char>>) -> bool {
    forall|k: Seq<char>| #[trigger] m.contains_key(k) ==> exportable_entry(k, m[k])
}

/// The entries and taken names after reading the listed entries in order.
pub open spec fn read_fold(
    es: Seq<(Seq<char>, Seq<char>)>,
    c: Map<Seq<char>, Seq<char>>,
    u: Set<Seq<char>>,
) -> (Map<Seq<char>, Seq<char>>, Set<Seq<char>>)
    decreases es.len(),
{
    if es.len() == 0 {
        (c, u)
    } else {
        let prev = read_fold(es.drop_last(), c, u);
        (prev.0.insert(es.last().0, es.last().1), prev.1.insert(es.last().1))
    }
}

proof fn lemma_encode_scalar_ascii(c: char)
    ensures
        encode_scalar(c as u32).len() >= 1,
        forall|i: int|
            0 <= i < encode_scalar(c as u32).len() && #[trigger] encode_scalar(c as u32)[i] < 0x80
                ==> encode_scalar(c as u32).len() == 1 && encode_scalar(c as u32)[i] as u32 == c as u32,
{
    let v = c as u32;
    broadcast use char_is_scalar;

    if has_width_1_encoding(v) {
        assert((v & 0x7F) as u8 as u32 == v) by (bit_vector)
            requires
                v <= 0x7f,
        ;
    } else if has_width_2_encoding(v) {
        assert((0xC0 | ((v >> 6) & 0x1F) as u8) >= 0x80) by (bit_vector);
        assert((0x80 | (v & 0x3F) as u8) >= 0x80) by (bit_vector);
    } else if has_width_3_encoding(v) {
        assert((0xE0 | ((v >> 12) & 0x0F) as u8) >= 0x80) by (bit_vector);
        assert((0x80 | ((v >> 6) & 0x3F) as u8) >= 0x80) by (bit_vector);
        assert((0x80 | (v & 0x3F) as u8) >= 0x80) by (bit_vector);
    } else {
        assert((0xF0 | ((v >> 18) & 0x7) as u8) >= 0x80) by (bit_vector);
        assert((0x80 | ((v >> 12) & 0x3F) as u8) >= 0x80) by (bit_vector);
        assert((0x80 | ((v >> 6) & 0x3F) as u8) >= 0x80) by (bit_vector);
        assert((0x80 | (v & 0x3F) as u8) >= 0x80) by (bit_vector);
    }
}

/// An ASCII byte in the encoding of `s` is one of `s`'s characters; the
/// first and last bytes, when ASCII, are its first and last characters.
proof fn lemma_encode_ascii(s: Seq<char>)
    ensures
        forall|i: int|
            0 <= i < encode_utf8(s).len() && #[trigger] encode_utf8(s)[i] < 0x80 ==> exists|j: int|
                0 <= j < s.len() && #[trigger] s[j] as u32 == encode_utf8(s)[i] as u32,
        s.len() > 0 ==> encode_utf8(s).len() > 0,
        s.len() > 0 && encode_utf8(s)[0] < 0x80 ==> s[0] as u32 == encode_utf8(s)[0] as u32,
        s.len() > 0 && encode_utf8(s).last() < 0x80 ==> s.last() as u32 == encode_utf8(s).last() as u32,
    decreases s.len(),
{
    if s.len() > 0 {
        let e0 = encode_scalar(s[0] as u32);
        let rest = s.drop_first();
        lemma_encode_scalar_ascii(s[0]);
        lemma_encode_ascii(rest);
        let er = encode_utf8(rest);
        assert(encode_utf8(s) == e0 + er);
        assert forall|i: int|
            0 <= i < encode_utf8(s).len() && #[trigger] encode_utf8(s)[i] < 0x80 implies exists|j: int|
                0 <= j < s.len() && #[trigger] s[j] as u32 == encode_utf8(s)[i] as u32 by {
            if i < e0.len() {
                assert(e0[i] < 0x80);
                assert(s[0] as u32 == encode_utf8(s)[i] as u32);
            } else {
                assert(er[i - e0.len()] < 0x80);
                let j = choose|j: int| 0 <= j < rest.len() && #[trigger] rest[j] as u32 == er[i - e0.len()] as u32;
                assert(s[j + 1] as u32 == encode_utf8(s)[i] as u32);
            }
        }
        assert(e0[0] < 0x80 ==> e0[0] as u32 == s[0] as u32);
        if rest.len() == 0 {
            assert(encode_utf8(s) =~= e0);
            assert(e0.last() < 0x80 ==> e0[e0.len() - 1] as u32 == s[0] as u32);
        } else {
            assert(encode_utf8(s).last() == er.last());
            assert(s.last() == rest.last());
        }
    }
}

/// Under the entry's conditions no byte of the encoding is `b`, for `b` an
/// ASCII byte none of whose characters the text holds.
proof fn lemma_encode_avoids(s: Seq<char>, b: u8)
    requires
        b < 0x80,
        forall|j: int| 0 <= j < s.len() ==> (#[trigger] s[j] as u32) != b as u32,
    ensures
        forall|i: int| 0 <= i < encode_utf8(s).len() ==> #[trigger] encode_utf8(s)[i] != b,
{
    lemma_encode_ascii(s);
    assert forall|i: int| 0 <= i < encode_utf8(s).len() implies #[trigger] encode_utf8(s)[i] != b by {
        if encode_utf8(s)[i] == b {
            let j = choose|j: int| 0 <= j < s.len() && #[trigger] s[j] as u32 == encode_utf8(s)[i] as u32;
        }
    }
}

proof fn lemma_lex_irreflexive(a: Seq<u8>, i: int)
    requires
        0 <= i,
    ensures
        !lex_less_from(a, a, i),
    decreases a.len() - i,
{
    if i < a.len() {
        lemma_lex_irreflexive(a, i + 1);
    }
}

proof fn lemma_find_byte_at(s: Seq<u8>, b: u8, i: int, e: int)
    requires
        0 <= i <= e <= s.len(),
        forall|k: int| i <= k < e ==> s[k] != b,
        e < s.len() ==> s[e] == b,
    ensures
        find_byte(s, b, i) == e,
    decreases e - i,
{
    if i < e {
        lemma_find_byte_at(s, b, i + 1, e);
    }
}

/// One exported line, without its line feed, reads as the entry it was made of.
proof fn lemma_parse_export_line(k: Seq<char>, v: Seq<char>)
    requires
        exportable_entry(k, v),
    ensures
        parse_line(encode_utf8(k) + seq![0x3du8] + encode_utf8(v)) == LineParse::Entry(
            encode_utf8(k),
            encode_utf8(v),
        ),
{
    let ek = encode_utf8(k);
    let ev = encode_utf8(v);
    let eq = seq![0x3du8];
    let line = ek + eq + ev;
    lemma_encode_ascii(k);
    lemma_encode_ascii(v);
    lemma_encode_avoids(k, 0x3d);
    lemma_encode_avoids(v, 0x3d);
    encode_utf8_valid_utf8(k);
    encode_utf8_valid_utf8(v);
    lemma_ascii_valid_utf8(eq);
    valid_utf8_concat(ek, eq);
    valid_utf8_concat(ek + eq, ev);
    assert(line[0] == (if k.len() > 0 { ek[0] } else { 0x3du8 }));
    assert(!is_ascii_ws(line[0]));
    assert(line[line.len() - 1] == (if v.len() > 0 { ev.last() } else { 0x3du8 }));
    assert(!is_ascii_ws(line[line.len() - 1]));
    assert(trim_lo(line, 0) == 0);
    assert(trim_hi(line, 0, line.len() as int) == line.len());
    assert(trim_ascii(line) =~= line);
    lemma_find_byte_at(line, 0x3d, 0, ek.len() as int);
    lemma_find_byte_at(line, 0x3d, ek.len() as int + 1, line.len() as int);
    assert(line.subrange(0, ek.len() as int) =~= ek);
    assert(line.subrange(ek.len() as int + 1, line.len() as int) =~= ev);
}

proof fn lemma_export_text_concat(a: Seq<(Seq<char>, Seq<char>)>, b: Seq<(Seq<char>, Seq<char>)>)
    ensures
        export_text(a + b) == export_text(a) + export_text(b),
    decreases b.len(),
{
    if b.len() == 0 {
        assert(a + b =~= a);
        assert(export_text(a) + export_text(b) =~= export_text(a));
    } else {
        assert((a + b).drop_last() =~= a + b.drop_last());
        lemma_export_text_concat(a, b.drop_last());
        assert(export_text(a + b) =~= export_text(a) + export_text(b));
    }
}

/// Reading the line of entry `n` moves the reader past it and records it.
proof fn lemma_read_one(es: Seq<(Seq<char>, Seq<char>)>, n: int, c: Map<Seq<char>, Seq<char>>, u: Set<Seq<char>>)
    requires
        0 <= n < es.len(),
        forall|i: int| 0 <= i < es.len() ==> exportable_entry(#[trigger] es[i].0, es[i].1),
    ensures
        ({
            let d = export_text(es);
            let before = read_fold(es.take(n), c, u);
            let after = read_fold(es.take(n + 1), c, u);
            import_lines(d, export_text(es.take(n)).len() as int, n as nat, before.0, before.1)
                == import_lines(d, export_text(es.take(n + 1)).len() as int, (n + 1) as nat, after.0, after.1)
        }),
{
    let d = export_text(es);
    let e = es[n];
    let head = es.take(n);
    let tail = es.skip(n + 1);
    assert(es =~= head + seq![e] + tail);
    assert(es.take(n + 1) =~= head + seq![e]);
    assert(es.take(n + 1).drop_last() =~= head);
    lemma_export_text_concat(head + seq![e], tail);
    lemma_export_text_concat(head, seq![e]);
    assert(seq![e].drop_last() =~= Seq::<(Seq<char>, Seq<char>)>::empty());
    assert(export_text(seq![e]) =~= export_line(e));
    let p = export_text(head).len() as int;
    let ek = encode_utf8(e.0);
    let ev = encode_utf8(e.1);
    let body = ek + seq![0x3du8] + ev;
    let lf = export_line(e);
    assert(lf =~= body + seq![0x0au8]);
    assert(d =~= export_text(head) + lf + export_text(tail));
    let end = p + body.len();
    assert(exportable_entry(e.0, e.1));
    lemma_encode_avoids(e.0, 0x0a);
    lemma_encode_avoids(e.1, 0x0a);
    assert forall|k: int| p <= k < end implies d[k] != 0x0a by {
        assert(d[k] == body[k - p]);
    }
    assert(d[end] == 0x0a);
    lemma_find_byte_at(d, 0x0a, p, end);
    assert(d.subrange(p, end) =~= body);
    lemma_parse_export_line(e.0, e.1);
    encode_utf8_decode_utf8(e.0);
    encode_utf8_decode_utf8(e.1);
    assert(export_text(es.take(n + 1)).len() == end + 1);
}

/// Reading the whole text reads every entry in turn.
proof fn lemma_read_prefix(es: Seq<(Seq<char>, Seq<char>)>, n: int, c: Map<Seq<char>, Seq<char>>, u: Set<Seq<char>>)
    requires
        0 <= n <= es.len(),
        forall|i: int| 0 <= i < es.len() ==> exportable_entry(#[trigger] es[i].0, es[i].1),
    ensures
        ({
            let d = export_text(es);
            let at = read_fold(es.take(n), c, u);
            import_lines(d, 0, 0, c, u) == import_lines(d, export_text(es.take(n)).len() as int, n as nat, at.0, at.1)
        }),
    decreases n,
{
    if n == 0 {
        assert(es.take(0) =~= Seq::<(Seq<char>, Seq<char>)>::empty());
    } else {
        lemma_read_prefix(es, n - 1, c, u);
        lemma_read_one(es, n - 1, c, u);
    }
}

/// The map that a listing describes, later entries winning.
pub open spec fn listing_map(es: Seq<(Seq<char>, Seq<char>)>) -> Map<Seq<char>, Seq<char>>
    decreases es.len(),
{
    if es.len() == 0 {
        Map::empty()
    } else {
        listing_map(es.drop_last()).insert(es.last().0, es.last().1)
    }
}

/// The values of a listing.
pub open spec fn listing_values(es: Seq<(Seq<char>, Seq<char>)>) -> Set<Seq<char>>
    decreases es.len(),
{
    if es.len() == 0 {
        Set::empty()
    } else {
        listing_values(es.drop_last()).insert(es.last().1)
    }
}

proof fn lemma_read_fold(es: Seq<(Seq<char>, Seq<char>)>, c: Map<Seq<char>, Seq<char>>, u: Set<Seq<char>>)
    ensures
        read_fold(es, c, u).0 == c.union_prefer_right(listing_map(es)),
        read_fold(es, c, u).1 == u + listing_values(es),
    decreases es.len(),
{
    if es.len() == 0 {
        assert(c.union_prefer_right(Map::empty()) =~= c);
        assert(u + Set::<Seq<char>>::empty() =~= u);
    } else {
        lemma_read_fold(es.drop_last(), c, u);
        assert(c.union_prefer_right(listing_map(es)) =~= c.union_prefer_right(
            listing_map(es.drop_last()),
        ).insert(es.last().0, es.last().1));
        assert(u + listing_values(es) =~= (u + listing_values(es.drop_last())).insert(es.last().1));
    }
}

proof fn lemma_listing_map(es: Seq<(Seq<char>, Seq<char>)>)
    requires
        forall|i: int, j: int| 0 <= i < j < es.len() ==> es[i].0 != es[j].0,
    ensures
        forall|q: Seq<char>|
            #[trigger] listing_map(es).contains_key(q) <==> exists|i: int| 0 <= i < es.len() && es[i].0 == q,
        forall|i: int| 0 <= i < es.len() ==> #[trigger] listing_map(es)[es[i].0] == es[i].1,
        forall|x: Seq<char>|
            #[trigger] listing_values(es).contains(x) <==> exists|i: int| 0 <= i < es.len() && es[i].1 == x,
    decreases es.len(),
{
    if es.len() > 0 {
        let init = es.drop_last();
        lemma_listing_map(init);
        let l = es.len() - 1;
        assert forall|q: Seq<char>|
            #[trigger] listing_map(es).contains_key(q) <==> exists|i: int| 0 <= i < es.len() && es[i].0 == q by {
            if listing_map(es).contains_key(q) {
                if q != es[l].0 {
                    assert(listing_map(init).contains_key(q));
                    let i = choose|i: int| 0 <= i < init.len() && init[i].0 == q;
                    assert(es[i].0 == q);
                } else {
                    assert(es[l].0 == q);
                }
            }
            if exists|i: int| 0 <= i < es.len() && es[i].0 == q {
                let i = choose|i: int| 0 <= i < es.len() && es[i].0 == q;
                if i < l {
                    assert(init[i].0 == q);
                    assert(listing_map(init).contains_key(q));
                }
            }
        }
        assert forall|i: int| 0 <= i < es.len() implies #[trigger] listing_map(es)[es[i].0] == es[i].1 by {
            if i < l {
                assert(init[i] == es[i]);
                assert(es[i].0 != es[l].0);
                assert(listing_map(init)[init[i].0] == init[i].1);
            }
        }
        assert forall|x: Seq<char>|
            #[trigger] listing_values(es).contains(x) <==> exists|i: int| 0 <= i < es.len() && es[i].1 == x by {
            if listing_values(es).contains(x) {
                if x != es[l].1 {
                    assert(listing_values(init).contains(x));
                    let i = choose|i: int| 0 <= i < init.len() && init[i].1 == x;
                    assert(es[i].1 == x);
                } else {
                    assert(es[l].1 == x);
                }
            }
            if exists|i: int| 0 <= i < es.len() && es[i].1 == x {
                let i = choose|i: int| 0 <= i < es.len() && es[i].1 == x;
                if i < l {
                    assert(init[i].1 == x);
                    assert(listing_values(init).contains(x));
                }
            }
        }
    }
}

/// Writing the map out and reading the text back: reading stops at no line,
/// every exported entry is back over what the reading map held, and every
/// exported short name is taken. Stated for maps whose keys and values hold
/// no `=` or line feed, keys not starting and values not ending with
/// whitespace (others are cut or trimmed by the text form).
pub proof fn lemma_export_then_import(
    m: Map<Seq<char>, Seq<char>>,
    es: Seq<(Seq<char>, Seq<char>)>,
    c: Map<Seq<char>, Seq<char>>,
    u: Set<Seq<char>>,
)
    requires
        exportable(m),
        sorted_listing(m, es),
    ensures
        import_lines(export_text(es), 0, 0, c, u) == (
            None::<Seq<char>>,
            c.union_prefer_right(m),
            u + m.values(),
        ),
{
    assert forall|i: int| 0 <= i < es.len() implies exportable_entry(#[trigger] es[i].0, es[i].1) by {
        assert(m.contains_key(es[i].0));
    }
    assert forall|i: int, j: int| 0 <= i < j < es.len() implies es[i].0 != es[j].0 by {
        if es[i].0 == es[j].0 {
            assert(bytes_less(encode_utf8(es[i].0), encode_utf8(es[j].0)));
            lemma_lex_irreflexive(encode_utf8(es[i].0), 0);
        }
    }
    let d = export_text(es);
    lemma_read_prefix(es, es.len() as int, c, u);
    assert(es.take(es.len() as int) =~= es);
    let at = read_fold(es, c, u);
    lemma_find_byte_at(d, 0x0a, d.len() as int, d.len() as int);
    assert(d.subrange(d.len() as int, d.len() as int) =~= Seq::<u8>::empty());
    assert(trim_ascii(Seq::<u8>::empty()) =~= Seq::<u8>::empty());
    assert(import_lines(d, d.len() as int, es.len() as nat, at.0, at.1) == (None::<Seq<char>>, at.0, at.1));
    lemma_read_fold(es, c, u);
    lemma_listing_map(es);
    assert(listing_map(es) =~= m) by {
        assert forall|q: Seq<char>| #[trigger] listing_map(es).contains_key(q) <==> m.contains_key(q) by {
            if m.contains_key(q) {
                let i = choose|i: int| 0 <= i < es.len() && #[trigger] es[i].0 == q;
            }
            if listing_map(es).contains_key(q) {
                let i = choose|i: int| 0 <= i < es.len() && es[i].0 == q;
                assert(m.contains_key(es[i].0));
            }
        }
        assert forall|q: Seq<char>| #[trigger] listing_map(es).contains_key(q) implies listing_map(es)[q] == m[q] by {
            let i = choose|i: int| 0 <= i < es.len() && es[i].0 == q;
            assert(listing_map(es)[es[i].0] == es[i].1);
            assert(m.contains_key(es[i].0) && m[es[i].0] == es[i].1);
        }
    }
    assert(listing_values(es) =~= m.values()) by {
        assert forall|x: Seq<char>| #[trigger] listing_values(es).contains(x) <==> m.values().contains(x) by {
            if listing_values(es).contains(x) {
                let i = choose|i: int| 0 <= i < es.len() && es[i].1 == x;
                assert(m.contains_key(es[i].0) && m[es[i].0] == x);
            }
            if m.values().contains(x) {
                let q = choose|q: Seq<char>| #[trigger] m.contains_key(q) && m[q] == x;
                let i = choose|i: int| 0 <= i < es.len() && #[trigger] es[i].0 == q;
                assert(es[i].1 == x);
            }
        }
    }
}

/// What `PropertyMap::export` gives for a map is read back by
/// `PropertyMap::import` into a map with no entries as exactly that map, with
/// no error, every exported short name taken. Stated for maps whose keys and
/// values hold no `=` or line feed, keys not starting and values not ending
/// with whitespace (others are cut or trimmed by the text form).
pub proof fn lemma_export_import_round_trip(m: Map<Seq<char>, Seq<char>>, text: Seq<u8>, u: Set<Seq<char>>)
    requires
        exportable(m),
        exists|es: Seq<(Seq<char>, Seq<char>)>| sorted_listing(m, es) && text == export_text(es),
    ensures
        import_lines(text, 0, 0, no_entries(), u) == (None::<Seq<char>>, m, u + m.values()),
{
    let es = choose|es: Seq<(Seq<char>, Seq<char>)>| sorted_listing(m, es) && text == export_text(es);
    lemma_export_then_import(m, es, no_entries(), u);
    assert(no_entries().union_prefer_right(m) =~= m);
}

} // verus!
