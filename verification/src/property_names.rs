//! Property renaming: a shared map from property names to short names,
//! its `key=value` text form, and the per-chunk lookup that hands out new
//! short names to properties that match the renaming pattern.
use vstd::prelude::*;
use vstd::utf8::*;
use vstd::string::StringSliceAdditionalSpecFns;
use dashmap::DashMap;
use crate::options::OptimizerError;
use crate::strmap::StrMap;

verus! {

#[verifier::external_type_specification]
#[verifier::external_body]
#[verifier::reject_recursive_types(K)]
#[verifier::reject_recursive_types(V)]
#[verifier::reject_recursive_types(S)]
pub struct ExDashMap<K, V, S>(DashMap<K, V, S>);

/// The map with no entries.
pub open spec fn no_entries() -> Map<Seq<char>, Seq<char>> {
    Map::empty()
}

/// What a `DashMap` of strings holds: each key's text mapped to its value's text.
pub uninterp spec fn dashmap_contents(m: DashMap<String, String>) -> Map<Seq<char>, Seq<char>>;

/// Calls `DashMap::new`. Trusted: the new map is empty.
#[verifier::external_body]
fn dashmap_new() -> (r: DashMap<String, String>)
    ensures
        dashmap_contents(r) == no_entries(),
{
    DashMap::new()
}

/// Calls `DashMap::insert`. Trusted: afterwards the key maps to the value and
/// every other key keeps its value (an earlier value of the key is replaced).
#[verifier::external_body]
fn dashmap_insert(m: &mut DashMap<String, String>, key: String, value: String)
    ensures
        dashmap_contents(*final(m)) == dashmap_contents(*old(m)).insert(key@, value@),
{
    m.insert(key, value);
}

/// Calls `DashMap::get` and clones the value found. Trusted: the result is the
/// key's value when the key is present, and `None` when it is not.
#[verifier::external_body]
fn dashmap_get(m: &DashMap<String, String>, key: &str) -> (r: Option<String>)
    ensures
        r is Some <==> dashmap_contents(*m).contains_key(key@),
        r matches Some(v) ==> v@ == dashmap_contents(*m)[key@],
{
    m.get(key).map(|e| e.value().clone())
}

/// Calls `DashMap::iter` and clones each pair. Trusted: every key of the map
/// comes out exactly once, with its value, in an order left unsaid.
#[verifier::external_body]
fn dashmap_pairs(m: &DashMap<String, String>) -> (r: Vec<(String, String)>)
    ensures
        forall|i: int, j: int| 0 <= i < j < r@.len() ==> r@[i].0@ != r@[j].0@,
        forall|i: int|
            0 <= i < r@.len() ==> #[trigger] dashmap_contents(*m).contains_key(r@[i].0@)
                && dashmap_contents(*m)[r@[i].0@] == r@[i].1@,
        forall|k: Seq<char>|
            dashmap_contents(*m).contains_key(k) ==> exists|i: int|
                0 <= i < r@.len() && #[trigger] r@[i].0@ == k,
{
    m.iter().map(|e| (e.key().clone(), e.value().clone())).collect()
}

/// Whether `text` matches the regular expression `pattern`, as
/// `regex::Regex::new(pattern)` followed by `Regex::is_match(text)` decides
/// (false when the pattern does not compile).
pub uninterp spec fn regex_is_match(pattern: Seq<char>, text: Seq<char>) -> bool;

/// Compiles `pattern` with `regex::Regex::new` and asks `is_match` of `text`.
/// Trusted: the answer is `regex_is_match` of the two texts.
#[verifier::external_body]
fn pattern_matches(pattern: &str, text: &str) -> (r: bool)
    ensures
        r == regex_is_match(pattern@, text@),
{
    match regex::Regex::new(pattern) {
        Ok(re) => re.is_match(text),
        Err(_) => false,
    }
}

/// Calls `std::str::from_utf8`. Trusted: it succeeds exactly on valid UTF-8,
/// and the text it gives back has exactly those bytes.
#[verifier::external_body]
fn utf8_str<'a>(bytes: &'a [u8]) -> (r: Option<&'a str>)
    ensures
        r is Some <==> valid_utf8(bytes@),
        r matches Some(s) ==> encode_utf8(s@) == bytes@,
{
    match std::str::from_utf8(bytes) {
        Ok(s) => Some(s),
        Err(_) => None,
    }
}

/// ASCII whitespace as `u8::is_ascii_whitespace` has it: space, tab, line
/// feed, form feed and carriage return.
pub open spec fn is_ascii_ws(b: u8) -> bool {
    b == 0x20 || b == 0x09 || b == 0x0a || b == 0x0c || b == 0x0d
}

/// The index of the first byte at or after `i` that is not whitespace.
pub open spec fn trim_lo(s: Seq<u8>, i: int) -> int
    decreases s.len() - i,
{
    if 0 <= i < s.len() && is_ascii_ws(s[i]) {
        trim_lo(s, i + 1)
    } else {
        i
    }
}

/// The end of `s[lo..j]` once whitespace is taken off its end.
pub open spec fn trim_hi(s: Seq<u8>, lo: int, j: int) -> int
    decreases j - lo,
{
    if lo < j && 0 < j <= s.len() && is_ascii_ws(s[j - 1]) {
        trim_hi(s, lo, j - 1)
    } else {
        j
    }
}

/// `s` with ASCII whitespace taken off both ends, as `<[u8]>::trim_ascii`.
pub open spec fn trim_ascii(s: Seq<u8>) -> Seq<u8> {
    let lo = trim_lo(s, 0);
    s.subrange(lo, trim_hi(s, lo, s.len() as int))
}

/// The index of the first `b` at or after `i` in `s`, or `s.len()` when there
/// is none.
pub open spec fn find_byte(s: Seq<u8>, b: u8, i: int) -> int
    decreases s.len() - i,
{
    if i >= s.len() {
        s.len() as int
    } else if 0 <= i && s[i] == b {
        i
    } else {
        find_byte(s, b, i + 1)
    }
}

pub proof fn lemma_find_byte(s: Seq<u8>, b: u8, i: int)
    requires
        0 <= i <= s.len(),
    ensures
        i <= find_byte(s, b, i) <= s.len(),
        find_byte(s, b, i) < s.len() ==> s[find_byte(s, b, i)] == b,
        forall|k: int| i <= k < find_byte(s, b, i) ==> s[k] != b,
    decreases s.len() - i,
{
    if i < s.len() && s[i] != b {
        lemma_find_byte(s, b, i + 1);
    }
}

/// What one line of a property map file says.
pub enum LineParse {
    /// A blank line.
    Skip,
    /// `key=value`, as bytes.
    Entry(Seq<u8>, Seq<u8>),
    /// The trimmed line is not UTF-8.
    BadUtf8,
    /// The trimmed line has no `=`.
    NoValue,
}

/// Reads one line: trimmed of ASCII whitespace, it is blank, or the key runs
/// up to the first `=` and the value from there up to the next `=` or the end.
pub open spec fn parse_line(line: Seq<u8>) -> LineParse {
    let t = trim_ascii(line);
    if !valid_utf8(t) {
        LineParse::BadUtf8
    } else if t.len() == 0 {
        LineParse::Skip
    } else {
        let k = find_byte(t, 0x3d, 0);
        if k >= t.len() {
            LineParse::NoValue
        } else {
            LineParse::Entry(t.subrange(0, k), t.subrange(k + 1, find_byte(t, 0x3d, k + 1)))
        }
    }
}

/// The decimal digits of `n`.
pub open spec fn decimal_text(n: nat) -> Seq<char>
    decreases n,
{
    if n < 10 {
        seq![(48 + n) as char]
    } else {
        decimal_text(n / 10).push((48 + n % 10) as char)
    }
}

/// The detail of a parse error at the given (1-based) line.
pub open spec fn parse_error_text(bad_utf8: bool, line: nat) -> Seq<char> {
    (if bad_utf8 {
        "invalid utf8 at line '"@
    } else {
        "invalid value at line '"@
    }) + decimal_text(line) + "'"@
}

/// The decimal digit `d`.
fn digit_text(d: usize) -> (r: &'static str)
    requires
        d < 10,
    ensures
        r@ == seq![(48 + d) as char],
{
    match d {
        0 => {
            proof {
                reveal_strlit("0");
            }
            "0"
        },
        1 => {
            proof {
                reveal_strlit("1");
            }
            "1"
        },
        2 => {
            proof {
                reveal_strlit("2");
            }
            "2"
        },
        3 => {
            proof {
                reveal_strlit("3");
            }
            "3"
        },
        4 => {
            proof {
                reveal_strlit("4");
            }
            "4"
        },
        5 => {
            proof {
                reveal_strlit("5");
            }
            "5"
        },
        6 => {
            proof {
                reveal_strlit("6");
            }
            "6"
        },
        7 => {
            proof {
                reveal_strlit("7");
            }
            "7"
        },
        8 => {
            proof {
                reveal_strlit("8");
            }
            "8"
        },
        _ => {
            proof {
                reveal_strlit("9");
            }
            "9"
        },
    }
}

/// Appends the decimal digits of `n`.
fn push_decimal(out: &mut String, n: usize)
    ensures
        final(out)@ == old(out)@ + decimal_text(n as nat),
    decreases n,
{
    if n >= 10 {
        push_decimal(out, n / 10);
    }
    out.append(digit_text(n % 10));
    proof {
        if n < 10 {
            assert(decimal_text(n as nat) == seq![(48 + n) as char]);
        }
    }
}

/// The detail of an error on a line that is not UTF-8.
fn bad_utf8_message(line: usize) -> (r: String)
    ensures
        r@ == parse_error_text(true, line as nat),
{
    let mut s = String::from_str("invalid utf8 at line '");
    push_decimal(&mut s, line);
    s.append("'");
    s
}

/// The detail of an error on a line without `=`.
fn no_value_message(line: usize) -> (r: String)
    ensures
        r@ == parse_error_text(false, line as nat),
{
    let mut s = String::from_str("invalid value at line '");
    push_decimal(&mut s, line);
    s.append("'");
    s
}

/// Reads the lines of `data` from byte `start` on, `line` being the 0-based
/// number of the line that starts there: the error that stops the reading,
/// if any, and the entries and taken names after the lines that were read.
pub open spec fn import_lines(
    data: Seq<u8>,
    start: int,
    line: nat,
    contents: Map<Seq<char>, Seq<char>>,
    used: Set<Seq<char>>,
) -> (Option<Seq<char>>, Map<Seq<char>, Seq<char>>, Set<Seq<char>>)
    decreases data.len() + 1 - start,
{
    if start < 0 || start > data.len() {
        (None, contents, used)
    } else {
        let end = find_byte(data, 0x0a, start);
        proof {
            lemma_find_byte(data, 0x0a, start);
        }
        match parse_line(data.subrange(start, end)) {
            LineParse::BadUtf8 => (Some(parse_error_text(true, line + 1)), contents, used),
            LineParse::NoValue => (Some(parse_error_text(false, line + 1)), contents, used),
            LineParse::Skip => {
                if end < data.len() {
                    import_lines(data, end + 1, line + 1, contents, used)
                } else {
                    (None, contents, used)
                }
            },
            LineParse::Entry(k, v) => {
                let c = contents.insert(decode_utf8(k), decode_utf8(v));
                let u = used.insert(decode_utf8(v));
                if end < data.len() {
                    import_lines(data, end + 1, line + 1, c, u)
                } else {
                    (None, c, u)
                }
            },
        }
    }
}

fn find_byte_from(s: &[u8], b: u8, i: usize) -> (r: usize)
    requires
        i <= s@.len(),
    ensures
        r == find_byte(s@, b, i as int),
{
    let mut k = i;
    while k < s.len() && s[k] != b
        invariant
            i <= k <= s@.len(),
            find_byte(s@, b, i as int) == find_byte(s@, b, k as int),
        decreases s@.len() - k,
    {
        k = k + 1;
    }
    k
}

fn is_ascii_ws_exec(b: u8) -> (r: bool)
    ensures
        r == is_ascii_ws(b),
{
    b == 0x20 || b == 0x09 || b == 0x0a || b == 0x0c || b == 0x0d
}

/// The bounds of `s` with ASCII whitespace taken off both ends.
fn trim_bounds(s: &[u8]) -> (r: (usize, usize))
    ensures
        r.0 == trim_lo(s@, 0),
        r.1 == trim_hi(s@, r.0 as int, s@.len() as int),
        r.0 <= r.1 <= s@.len(),
{
    let mut lo: usize = 0;
    while lo < s.len() && is_ascii_ws_exec(s[lo])
        invariant
            lo <= s@.len(),
            trim_lo(s@, 0) == trim_lo(s@, lo as int),
        decreases s@.len() - lo,
    {
        lo = lo + 1;
    }
    let mut hi: usize = s.len();
    while hi > lo && is_ascii_ws_exec(s[hi - 1])
        invariant
            lo <= hi <= s@.len(),
            trim_hi(s@, lo as int, s@.len() as int) == trim_hi(s@, lo as int, hi as int),
        decreases hi - lo,
    {
        hi = hi - 1;
    }
    (lo, hi)
}

/// Splitting valid UTF-8 around an ASCII byte leaves valid UTF-8 on both sides.
proof fn lemma_split_around_ascii(t: Seq<u8>, k: int)
    requires
        valid_utf8(t),
        0 <= k < t.len(),
        t[k] < 0x80,
    ensures
        valid_utf8(t.subrange(0, k)),
        valid_utf8(t.subrange(k + 1, t.len() as int)),
{
    is_char_boundary_iff_is_leading_byte(t, k);
    valid_utf8_split(t, k);
    let s2 = t.subrange(k, t.len() as int);
    assert(pop_first_scalar(s2) =~= t.subrange(k + 1, t.len() as int));
}

/// The text of a byte slice known to be valid UTF-8.
fn text_of(bytes: &[u8]) -> (r: String)
    requires
        valid_utf8(bytes@),
    ensures
        r@ == decode_utf8(bytes@),
{
    match utf8_str(bytes) {
        Some(s) => {
            proof {
                encode_utf8_decode_utf8(s@);
            }
            s.to_owned()
        },
        None => String::new(),
    }
}

/// `a[i..]` comes before `b[i..]` in byte order: at the first difference `a`
/// has the smaller byte, or `a[i..]` is a proper prefix of `b[i..]`.
pub open spec fn lex_less_from(a: Seq<u8>, b: Seq<u8>, i: int) -> bool
    decreases a.len() - i,
{
    if i < 0 || i >= a.len() {
        0 <= i < b.len()
    } else if i >= b.len() {
        false
    } else if a[i] != b[i] {
        a[i] < b[i]
    } else {
        lex_less_from(a, b, i + 1)
    }
}

/// `a` comes before `b` in byte order, the order of `str`'s `Ord`.
pub open spec fn bytes_less(a: Seq<u8>, b: Seq<u8>) -> bool {
    lex_less_from(a, b, 0)
}

proof fn lemma_lex_transitive(a: Seq<u8>, b: Seq<u8>, c: Seq<u8>, i: int)
    requires
        0 <= i,
        lex_less_from(a, b, i),
        lex_less_from(b, c, i),
    ensures
        lex_less_from(a, c, i),
    decreases a.len() - i,
{
    if i < a.len() && i < b.len() && i < c.len() && a[i] == b[i] && b[i] == c[i] {
        lemma_lex_transitive(a, b, c, i + 1);
    }
}

proof fn lemma_lex_total(a: Seq<u8>, b: Seq<u8>, i: int)
    requires
        0 <= i <= a.len(),
        i <= b.len(),
        a.subrange(i, a.len() as int) != b.subrange(i, b.len() as int),
    ensures
        lex_less_from(a, b, i) || lex_less_from(b, a, i),
    decreases a.len() - i,
{
    if i < a.len() && i < b.len() && a[i] == b[i] {
        if a.subrange(i + 1, a.len() as int) == b.subrange(i + 1, b.len() as int) {
            assert(a.subrange(i, a.len() as int) =~= seq![a[i]] + a.subrange(i + 1, a.len() as int));
            assert(b.subrange(i, b.len() as int) =~= seq![b[i]] + b.subrange(i + 1, b.len() as int));
        }
        lemma_lex_total(a, b, i + 1);
    } else if i == a.len() && i == b.len() {
        assert(a.subrange(i, a.len() as int) =~= b.subrange(i, b.len() as int));
    }
}

fn bytes_lt(a: &[u8], b: &[u8]) -> (r: bool)
    ensures
        r == bytes_less(a@, b@),
{
    let mut i: usize = 0;
    while i < a.len() && i < b.len() && a[i] == b[i]
        invariant
            i <= a@.len(),
            i <= b@.len(),
            bytes_less(a@, b@) == lex_less_from(a@, b@, i as int),
        decreases a@.len() - i,
    {
        i = i + 1;
    }
    if i >= a.len() {
        i < b.len()
    } else if i >= b.len() {
        false
    } else {
        a[i] < b[i]
    }
}

/// The keys of `v` come in strictly increasing byte order.
#[verifier::opaque]
pub open spec fn keys_sorted(v: Seq<(String, String)>) -> bool {
    forall|a: int, b: int|
        0 <= a < b < v.len() ==> bytes_less(
            encode_utf8(#[trigger] v[a].0@),
            encode_utf8(#[trigger] v[b].0@),
        )
}

/// Inserts `item` where its key belongs in byte order.
fn insert_sorted(v: &mut Vec<(String, String)>, item: (String, String))
    requires
        keys_sorted(old(v)@),
        forall|a: int| 0 <= a < old(v)@.len() ==> #[trigger] old(v)@[a].0@ != item.0@,
    ensures
        keys_sorted(final(v)@),
        exists|pos: int| 0 <= pos <= old(v)@.len() && final(v)@ == old(v)@.insert(pos, item),
{
    reveal(keys_sorted);
    let key_bytes = item.0.as_str().as_bytes();
    let mut pos: usize = 0;
    while pos < v.len() && !bytes_lt(key_bytes, v[pos].0.as_str().as_bytes())
        invariant
            pos <= v@.len(),
            key_bytes@ == encode_utf8(item.0@),
            forall|a: int| 0 <= a < pos ==> !bytes_less(encode_utf8(item.0@), encode_utf8(#[trigger] v@[a].0@)),
        decreases v@.len() - pos,
    {
        pos = pos + 1;
    }
    proof {
        assert forall|a: int| 0 <= a < pos implies bytes_less(encode_utf8(#[trigger] v@[a].0@), encode_utf8(item.0@)) by {
            encode_utf8_decode_utf8(v@[a].0@);
            encode_utf8_decode_utf8(item.0@);
            let x = encode_utf8(v@[a].0@);
            let y = encode_utf8(item.0@);
            assert(x.subrange(0, x.len() as int) =~= x);
            assert(y.subrange(0, y.len() as int) =~= y);
            lemma_lex_total(x, y, 0);
        }
        assert forall|a: int| pos <= a < v@.len() implies bytes_less(encode_utf8(item.0@), encode_utf8(#[trigger] v@[a].0@)) by {
            if a > pos {
                lemma_lex_transitive(encode_utf8(item.0@), encode_utf8(v@[pos as int].0@), encode_utf8(v@[a].0@), 0);
            }
        }
    }
    let ghost before = v@;
    v.insert(pos, item);
    proof {
        assert forall|a: int, b: int|
            0 <= a < b < v@.len() implies bytes_less(
                encode_utf8(#[trigger] v@[a].0@),
                encode_utf8(#[trigger] v@[b].0@),
            ) by {
            if a < pos && b > pos {
                lemma_lex_transitive(encode_utf8(v@[a].0@), encode_utf8(item.0@), encode_utf8(v@[b].0@), 0);
            } else if a < pos && b < pos {
                assert(v@[a] == before[a] && v@[b] == before[b]);
            } else if a > pos {
                assert(v@[a] == before[a - 1] && v@[b] == before[b - 1]);
            }
        }
    }
}

/// `v` holds exactly the pairs `pairs[..n]`.
pub open spec fn same_members(v: Seq<(String, String)>, pairs: Seq<(String, String)>, n: int) -> bool {
    &&& forall|a: int| #![trigger v[a]]
        0 <= a < v.len() ==> exists|b: int| #![trigger pairs[b]] 0 <= b < n && v[a] == pairs[b]
    &&& forall|b: int| #![trigger pairs[b]]
        0 <= b < n ==> exists|a: int| #![trigger v[a]] 0 <= a < v.len() && v[a] == pairs[b]
}

/// Inserting the `i`-th pair into a list holding exactly the pairs before it
/// gives a list holding exactly the pairs up to it.
proof fn lemma_insert_membership(
    before: Seq<(String, String)>,
    after: Seq<(String, String)>,
    pos: int,
    pairs: Seq<(String, String)>,
    i: int,
)
    requires
        0 <= pos <= before.len(),
        0 <= i < pairs.len(),
        after == before.insert(pos, pairs[i]),
        same_members(before, pairs, i),
    ensures
        same_members(after, pairs, i + 1),
{
    assert forall|a: int| #![trigger after[a]] 0 <= a < after.len() implies exists|b: int| #![trigger pairs[b]]
        0 <= b < i + 1 && after[a] == pairs[b] by {
        if a < pos {
            assert(after[a] == before[a]);
        } else if a == pos {
            assert(after[a] == pairs[i]);
        } else {
            assert(after[a] == before[a - 1]);
        }
    }
    assert forall|b: int| #![trigger pairs[b]] 0 <= b < i + 1 implies exists|a: int| #![trigger after[a]]
        0 <= a < after.len() && after[a] == pairs[b] by {
        if b == i {
            assert(after[pos] == pairs[b]);
        } else {
            let a0 = choose|a: int| #![trigger before[a]] 0 <= a < before.len() && before[a] == pairs[b];
            if a0 < pos {
                assert(after[a0] == pairs[b]);
            } else {
                assert(after[a0 + 1] == pairs[b]);
            }
        }
    }
}

/// The pairs, in byte order of their keys.
fn sort_by_key(pairs: &Vec<(String, String)>) -> (sorted: Vec<(String, String)>)
    requires
        forall|a: int, b: int| 0 <= a < b < pairs@.len() ==> pairs@[a].0@ != pairs@[b].0@,
    ensures
        keys_sorted(sorted@),
        same_members(sorted@, pairs@, pairs@.len() as int),
{
        let mut acc: Vec<(String, String)> = Vec::new();
        let mut i: usize = 0;
        proof {
            reveal(keys_sorted);
        }
        while i < pairs.len()
            invariant
                i <= pairs@.len(),
                forall|a: int, b: int| 0 <= a < b < pairs@.len() ==> pairs@[a].0@ != pairs@[b].0@,
                acc@.len() == i,
                keys_sorted(acc@),
                same_members(acc@, pairs@, i as int),
            decreases pairs@.len() - i,
        {
            let item = (pairs[i].0.clone(), pairs[i].1.clone());
            proof {
                assert forall|a: int| 0 <= a < acc@.len() implies #[trigger] acc@[a].0@ != item.0@ by {
                    let b = choose|b: int| #![trigger pairs@[b]] 0 <= b < i && acc@[a] == pairs@[b];
                    assert(b != i);
                }
            }
            let ghost before = acc@;
            assert(item == pairs@[i as int]);
            insert_sorted(&mut acc, item);
            proof {
                let pos = choose|pos: int| 0 <= pos <= before.len() && acc@ == before.insert(pos, item);
                lemma_insert_membership(before, acc@, pos, pairs@, i as int);
            }
            i = i + 1;
        }
        acc
}

/// One exported line: the key's bytes, `=`, the value's bytes and a line feed.
pub open spec fn export_line(e: (Seq<char>, Seq<char>)) -> Seq<u8> {
    encode_utf8(e.0) + seq![0x3du8] + encode_utf8(e.1) + seq![0x0au8]
}

/// The exported lines of the entries, in their order.
pub open spec fn export_text(es: Seq<(Seq<char>, Seq<char>)>) -> Seq<u8>
    decreases es.len(),
{
    if es.len() == 0 {
        Seq::empty()
    } else {
        export_text(es.drop_last()) + export_line(es.last())
    }
}

/// `es` lists the entries of `m`, each once, in byte order of the keys.
pub open spec fn sorted_listing(m: Map<Seq<char>, Seq<char>>, es: Seq<(Seq<char>, Seq<char>)>) -> bool {
    &&& forall|i: int, j: int|
        0 <= i < j < es.len() ==> bytes_less(encode_utf8(#[trigger] es[i].0), encode_utf8(#[trigger] es[j].0))
    &&& forall|i: int| 0 <= i < es.len() ==> #[trigger] m.contains_key(es[i].0) && m[es[i].0] == es[i].1
    &&& forall|k: Seq<char>| m.contains_key(k) ==> exists|i: int| 0 <= i < es.len() && #[trigger] es[i].0 == k
}

/// The texts of a list of string pairs.
pub open spec fn pair_views(v: Seq<(String, String)>) -> Seq<(Seq<char>, Seq<char>)> {
    v.map_values(|e: (String, String)| (e.0@, e.1@))
}

fn append_bytes(b: &mut Vec<u8>, s: &[u8])
    ensures
        final(b)@ == old(b)@ + s@,
{
    let mut i: usize = 0;
    while i < s.len()
        invariant
            i <= s@.len(),
            b@ == old(b)@ + s@.subrange(0, i as int),
        decreases s@.len() - i,
    {
        b.push(s[i]);
        i = i + 1;
        assert(s@.subrange(0, i as int) =~= s@.subrange(0, i - 1) + seq![s@[i - 1]]);
    }
    assert(s@.subrange(0, s@.len() as int) =~= s@);
}

/// The `i`-th character of the short-name alphabet: `a`-`z`, `A`-`Z`, `$`,
/// `_`, then `0`-`9`. The first 54 may start a name.
pub open spec fn name_byte(i: int) -> u8 {
    if i < 26 {
        (97 + i) as u8
    } else if i < 52 {
        (65 + i - 26) as u8
    } else if i == 52 {
        36u8
    } else if i == 53 {
        95u8
    } else {
        (48 + i - 54) as u8
    }
}

/// The characters after the first of a short name.
pub open spec fn name_tail(m: nat) -> Seq<u8>
    decreases m,
{
    if m == 0 {
        Seq::empty()
    } else {
        seq![name_byte(((m - 1) % 64) as int)] + name_tail(((m - 1) / 64) as nat)
    }
}

/// The bytes of the `n`-th short name: one of 54 leading characters, then
/// digits of a bijective base 64.
pub open spec fn base54_bytes(n: nat) -> Seq<u8> {
    seq![name_byte((n % 54) as int)] + name_tail(n / 54)
}

/// The `n`-th short name.
pub open spec fn short_name(n: nat) -> Seq<char> {
    decode_utf8(base54_bytes(n))
}

fn name_byte_exec(i: u32) -> (r: u8)
    requires
        i < 64,
    ensures
        r == name_byte(i as int),
        r < 0x80,
{
    if i < 26 {
        97 + i as u8
    } else if i < 52 {
        65 + (i - 26) as u8
    } else if i == 52 {
        36
    } else if i == 53 {
        95
    } else {
        48 + (i - 54) as u8
    }
}

/// Bytes below 0x80 are valid UTF-8.
pub proof fn lemma_ascii_valid_utf8(s: Seq<u8>)
    requires
        forall|i: int| 0 <= i < s.len() ==> #[trigger] s[i] < 0x80,
    ensures
        valid_utf8(s),
    decreases s.len(),
{
    if s.len() > 0 {
        let rest = s.subrange(1, s.len() as int);
        assert forall|i: int| 0 <= i < rest.len() implies #[trigger] rest[i] < 0x80 by {
            assert(rest[i] == s[i + 1]);
        }
        lemma_ascii_valid_utf8(rest);
        assert(pop_first_scalar(s) =~= rest);
    }
}

/// The `n`-th short name.
pub fn base54(n: u32) -> (r: String)
    ensures
        r@ == short_name(n as nat),
{
    let mut bytes: Vec<u8> = Vec::new();
    bytes.push(name_byte_exec(n % 54));
    let mut m: u32 = n / 54;
    assert(base54_bytes(n as nat) =~= bytes@ + name_tail(m as nat));
    while m > 0
        invariant
            base54_bytes(n as nat) == bytes@ + name_tail(m as nat),
            forall|i: int| 0 <= i < bytes@.len() ==> #[trigger] bytes@[i] < 0x80,
        decreases m,
    {
        let ghost old_bytes = bytes@;
        let ghost old_m = m;
        m = m - 1;
        bytes.push(name_byte_exec(m % 64));
        m = m / 64;
        assert(old_bytes + name_tail(old_m as nat) =~= bytes@ + name_tail(m as nat));
    }
    proof {
        assert(bytes@ + name_tail(0) =~= bytes@);
        lemma_ascii_valid_utf8(bytes@);
    }
    text_of(bytes.as_slice())
}

/// The text of an optional string.
pub open spec fn opt_text(o: Option<String>) -> Option<Seq<char>> {
    match o {
        Some(s) => Some(s@),
        None => None,
    }
}

/// Whether a property name is to be renamed under the given pattern.
pub open spec fn pattern_accepts(pattern: Option<Seq<char>>, key: Seq<char>) -> bool {
    match pattern {
        Some(p) => regex_is_match(p, key),
        None => false,
    }
}

/// The `k`-th index tried from `start` on: indices count up and wrap around
/// after `u32::MAX`.
pub open spec fn candidate(start: nat, k: nat) -> nat {
    (start + k) % 0x1_0000_0000
}

/// The values of the entries that `import_lines` reads from byte `start` on,
/// in order, up to the end or the line with an error.
pub open spec fn imported_values(data: Seq<u8>, start: int) -> Seq<Seq<char>>
    decreases data.len() + 1 - start,
{
    if start < 0 || start > data.len() {
        Seq::empty()
    } else {
        let end = find_byte(data, 0x0a, start);
        proof {
            lemma_find_byte(data, 0x0a, start);
        }
        let rest = if end < data.len() {
            imported_values(data, end + 1)
        } else {
            Seq::empty()
        };
        match parse_line(data.subrange(start, end)) {
            LineParse::BadUtf8 => Seq::empty(),
            LineParse::NoValue => Seq::empty(),
            LineParse::Skip => rest,
            LineParse::Entry(_, v) => seq![decode_utf8(v)] + rest,
        }
    }
}

/// Reading lines whose values are all different, and different from every
/// value already in the map, keeps the map one-to-one.
pub proof fn lemma_import_one_to_one(
    data: Seq<u8>,
    start: int,
    line: nat,
    contents: Map<Seq<char>, Seq<char>>,
    used: Set<Seq<char>>,
)
    requires
        one_to_one(contents),
        imported_values(data, start).no_duplicates(),
        forall|k: Seq<char>| #[trigger]
            contents.contains_key(k) ==> !imported_values(data, start).contains(contents[k]),
    ensures
        one_to_one(import_lines(data, start, line, contents, used).1),
    decreases data.len() + 1 - start,
{
    if start < 0 || start > data.len() {
    } else {
        let end = find_byte(data, 0x0a, start);
        lemma_find_byte(data, 0x0a, start);
        let vs = imported_values(data, start);
        match parse_line(data.subrange(start, end)) {
            LineParse::Skip => {
                if end < data.len() {
                    lemma_import_one_to_one(data, end + 1, line + 1, contents, used);
                }
            },
            LineParse::Entry(kb, vb) => {
                let k = decode_utf8(kb);
                let v = decode_utf8(vb);
                let c = contents.insert(k, v);
                let u = used.insert(v);
                assert(vs[0] == v);
                assert forall|a: Seq<char>, b: Seq<char>|
                    #![trigger c[a], c[b]]
                    c.contains_key(a) && c.contains_key(b) && a != b implies c[a] != c[b] by {
                    if a == k {
                        assert(contents.contains_key(b));
                        assert(!vs.contains(contents[b]));
                    } else if b == k {
                        assert(contents.contains_key(a));
                        assert(!vs.contains(contents[a]));
                    }
                }
                if end < data.len() {
                    let rest = imported_values(data, end + 1);
                    assert(vs == seq![v] + rest);
                    assert forall|i: int, j: int| 0 <= i < rest.len() && 0 <= j < rest.len() && i != j implies rest[i]
                        != rest[j] by {
                        assert(vs[i + 1] == rest[i] && vs[j + 1] == rest[j]);
                    }
                    assert forall|q: Seq<char>| #[trigger] c.contains_key(q) implies !rest.contains(c[q]) by {
                        if rest.contains(c[q]) {
                            let i = choose|i: int| 0 <= i < rest.len() && rest[i] == c[q];
                            assert(vs[i + 1] == c[q]);
                            if q == k {
                                assert(vs[0] == vs[i + 1]);
                            } else {
                                assert(contents.contains_key(q));
                                assert(vs.contains(contents[q]));
                            }
                        }
                    }
                    lemma_import_one_to_one(data, end + 1, line + 1, c, u);
                }
            },
            _ => {},
        }
    }
}

/// No two keys share a value.
pub open spec fn one_to_one(m: Map<Seq<char>, Seq<char>>) -> bool {
    forall|a: Seq<char>, b: Seq<char>|
        #![trigger m[a], m[b]]
        m.contains_key(a) && m.contains_key(b) && a != b ==> m[a] != m[b]
}

/// The `k`-th index tried from `start` is the first whose short name is not
/// taken.
pub open spec fn first_free(used: Set<Seq<char>>, start: nat, k: nat) -> bool {
    &&& k < 0x1_0000_0000
    &&& !used.contains(short_name(candidate(start, k)))
    &&& forall|j: nat| j < k ==> used.contains(#[trigger] short_name(candidate(start, j)))
}

/// Searches, from `start` on and wrapping around, for the first index whose
/// short name is not taken; gives it with its place in the search and name.
fn find_free(used: &StrMap<()>, start: u32) -> (r: Option<(u64, u32, String)>)
    ensures
        r matches Some(p) ==> first_free(used@.dom(), start as nat, p.0 as nat) && p.1 == candidate(
            start as nat,
            p.0 as nat,
        ) && p.2@ == short_name(p.1 as nat),
        r is None ==> forall|k: nat|
            k < 0x1_0000_0000 ==> used@.dom().contains(#[trigger] short_name(candidate(start as nat, k))),
{
    let mut k: u64 = 0;
    while k < 0x1_0000_0000
        invariant
            k <= 0x1_0000_0000,
            forall|j: nat| j < k ==> used@.dom().contains(#[trigger] short_name(candidate(start as nat, j))),
        decreases 0x1_0000_0000 - k,
    {
        let id = ((start as u64 + k) % 0x1_0000_0000) as u32;
        let name = base54(id);
        if !used.contains_key(name.as_str()) {
            return Some((k, id, name));
        }
        k = k + 1;
    }
    None
}

/// The names that are never handed out as short names.
pub open spec fn reserved_names() -> Set<Seq<char>> {
    set![
        "as"@, "do"@, "if"@, "in"@, "is"@, "of"@, "any"@, "for"@, "get"@, "let"@, "new"@,
        "out"@, "set"@, "try"@, "var"@, "case"@, "else"@, "enum"@, "from"@, "meta"@,
        "null"@, "this"@, "true"@, "type"@, "void"@, "with"@,
    ]
}

fn add_reserved_keywords(used: &mut StrMap<()>)
    ensures
        final(used)@.dom() == old(used)@.dom() + reserved_names(),
{
    let ghost start = used@.dom();
    used.insert("as".to_owned(), ());
    used.insert("do".to_owned(), ());
    used.insert("if".to_owned(), ());
    used.insert("in".to_owned(), ());
    used.insert("is".to_owned(), ());
    used.insert("of".to_owned(), ());
    used.insert("any".to_owned(), ());
    used.insert("for".to_owned(), ());
    used.insert("get".to_owned(), ());
    used.insert("let".to_owned(), ());
    used.insert("new".to_owned(), ());
    used.insert("out".to_owned(), ());
    used.insert("set".to_owned(), ());
    used.insert("try".to_owned(), ());
    used.insert("var".to_owned(), ());
    used.insert("case".to_owned(), ());
    used.insert("else".to_owned(), ());
    used.insert("enum".to_owned(), ());
    used.insert("from".to_owned(), ());
    used.insert("meta".to_owned(), ());
    used.insert("null".to_owned(), ());
    used.insert("this".to_owned(), ());
    used.insert("true".to_owned(), ());
    used.insert("type".to_owned(), ());
    used.insert("void".to_owned(), ());
    used.insert("with".to_owned(), ());
    assert(used@.dom() =~= start + reserved_names());
}

/// The property map shared by all chunks of a build: property names mapped
/// to short names, the short names already taken, and where the search for
/// the next fresh short name starts.
pub struct PropertyMap {
    pattern: Option<String>,
    index: DashMap<String, String>,
    used: StrMap<()>,
    next_id: u32,
}

impl PropertyMap {
    /// Property name to short name.
    pub closed spec fn contents(&self) -> Map<Seq<char>, Seq<char>> {
        dashmap_contents(self.index)
    }

    /// Short names that are taken, reserved words included.
    pub closed spec fn used_names(&self) -> Set<Seq<char>> {
        self.used@.dom()
    }

    /// Where the search for the next fresh short name starts.
    pub closed spec fn next_id(&self) -> u32 {
        self.next_id
    }

    /// The renaming pattern, if any.
    pub closed spec fn pattern(&self) -> Option<Seq<char>> {
        match self.pattern {
            Some(p) => Some(p@),
            None => None,
        }
    }

    /// Every short name in the map is taken, and so are the reserved words.
    pub closed spec fn wf(&self) -> bool {
        &&& reserved_names() <= self.used_names()
        &&& forall|k: Seq<char>| #[trigger]
            self.contents().contains_key(k) ==> self.used_names().contains(self.contents()[k])
    }

    /// An empty map that renames the properties matching `pattern` (none when
    /// there is no pattern).
    pub fn new(pattern: Option<String>) -> (r: Self)
        ensures
            r.wf(),
            r.contents() == no_entries(),
            r.used_names() == reserved_names(),
            r.next_id() == 0,
            r.pattern() == (match pattern {
                Some(p) => Some(p@),
                None => None::<Seq<char>>,
            }),
    {
        let mut used = StrMap::new();
        add_reserved_keywords(&mut used);
        assert(used@.dom() =~= reserved_names());
        PropertyMap { pattern, index: dashmap_new(), used, next_id: 0 }
    }

    /// Reads a property map in its text form, one `key=value` per line, into
    /// this map; the value of each line is also taken as a short name. Lines
    /// are trimmed of ASCII whitespace and blank ones are skipped. The search
    /// for fresh short names starts over. A line that is not UTF-8, or has no
    /// `=`, stops the reading with an error; the lines before it stay read.
    pub fn import(&mut self, data: &[u8]) -> (r: Result<(), OptimizerError>)
        requires
            data@.len() < usize::MAX,
        ensures
            ({
                let out = import_lines(data@, 0, 0, old(self).contents(), old(self).used_names());
                &&& final(self).contents() == out.1
                &&& final(self).used_names() == out.2
                &&& final(self).next_id() == 0
                &&& final(self).pattern() == old(self).pattern()
                &&& match r {
                    Ok(_) => out.0 is None,
                    Err(e) => e matches OptimizerError::PropertyMapParseError(m) && out.0
                        == Some(m@),
                }
            }),
            old(self).wf() ==> final(self).wf(),
            one_to_one(old(self).contents()) && imported_values(data@, 0).no_duplicates() && (forall|k: Seq<char>|
                #[trigger] old(self).contents().contains_key(k) ==> !imported_values(data@, 0).contains(
                    old(self).contents()[k],
                )) ==> one_to_one(final(self).contents()),
    {
        proof {
            if one_to_one(old(self).contents()) && imported_values(data@, 0).no_duplicates() && (forall|k: Seq<char>|
                #[trigger] old(self).contents().contains_key(k) ==> !imported_values(data@, 0).contains(
                    old(self).contents()[k],
                )) {
                lemma_import_one_to_one(data@, 0, 0, old(self).contents(), old(self).used_names());
            }
        }
        let ghost c0 = self.contents();
        let ghost u0 = self.used_names();
        let ghost was_wf = self.wf();
        self.next_id = 0;
        let mut start: usize = 0;
        let mut line: usize = 0;
        let mut result: Result<(), OptimizerError> = Ok(());
        loop
            invariant_except_break
                result is Ok,
                start <= data@.len(),
                line <= start,
                data@.len() < usize::MAX,
                import_lines(data@, 0, 0, c0, u0) == import_lines(
                    data@,
                    start as int,
                    line as nat,
                    self.contents(),
                    self.used_names(),
                ),
            invariant
                self.next_id() == 0,
                self.pattern() == old(self).pattern(),
                was_wf ==> self.wf(),
            ensures
                ({
                    let out = import_lines(data@, 0, 0, c0, u0);
                    &&& self.contents() == out.1
                    &&& self.used_names() == out.2
                    &&& match result {
                        Ok(_) => out.0 is None,
                        Err(e) => e matches OptimizerError::PropertyMapParseError(m) && out.0
                            == Some(m@),
                    }
                }),
            decreases data@.len() + 1 - start,
        {
            let ghost c_iter = self.contents();
            let ghost u_iter = self.used_names();
            let end = find_byte_from(data, 0x0a, start);
            proof {
                lemma_find_byte(data@, 0x0a, start as int);
            }
            let seg = vstd::slice::slice_subrange(data, start, end);
            let (lo, hi) = trim_bounds(seg);
            let t = vstd::slice::slice_subrange(seg, lo, hi);
            assert(t@ =~= trim_ascii(data@.subrange(start as int, end as int)));
            if utf8_str(t).is_none() {
                let m = bad_utf8_message(line + 1);
                result = Err(OptimizerError::PropertyMapParseError(m));
                break;
            }
            if t.len() > 0 {
                let k = find_byte_from(t, 0x3d, 0);
                proof {
                    lemma_find_byte(t@, 0x3d, 0);
                }
                if k >= t.len() {
                    let m = no_value_message(line + 1);
                    result = Err(OptimizerError::PropertyMapParseError(m));
                    break;
                }
                let j = find_byte_from(t, 0x3d, k + 1);
                proof {
                    lemma_find_byte(t@, 0x3d, k + 1);
                    lemma_split_around_ascii(t@, k as int);
                    let rest = t@.subrange(k + 1, t@.len() as int);
                    if j < t@.len() {
                        lemma_split_around_ascii(rest, j - k - 1);
                        assert(rest.subrange(0, j - k - 1) =~= t@.subrange(k + 1, j as int));
                    } else {
                        assert(rest =~= t@.subrange(k + 1, j as int));
                    }
                }
                let key = text_of(vstd::slice::slice_subrange(t, 0, k));
                let value = text_of(vstd::slice::slice_subrange(t, k + 1, j));
                let value_copy = value.clone();
                let ghost c_before = self.contents();
                let ghost u_before = self.used_names();
                dashmap_insert(&mut self.index, key, value);
                self.used.insert(value_copy, ());
                proof {
                    if was_wf {
                        assert forall|q: Seq<char>| #[trigger]
                            self.contents().contains_key(q) implies self.used_names().contains(
                            self.contents()[q],
                        ) by {
                            if q != key@ {
                                assert(c_before.contains_key(q));
                            }
                        }
                    }
                }
            }
            if end >= data.len() {
                assert(import_lines(data@, start as int, line as nat, c_iter, u_iter) == (
                None::<Seq<char>>,
                self.contents(),
                self.used_names(),
                ));
                break;
            }
            start = end + 1;
            line = line + 1;
        }
        result
    }

    /// The map in its text form: one `key=value` line per entry, in byte
    /// order of the keys.
    pub fn export(&self) -> (r: Vec<u8>)
        ensures
            exists|es: Seq<(Seq<char>, Seq<char>)>|
                sorted_listing(self.contents(), es) && r@ == export_text(es),
    {
        let pairs = dashmap_pairs(&self.index);
        let ghost m = self.contents();
        let sorted = sort_by_key(&pairs);
        let mut out: Vec<u8> = Vec::new();
        let mut n: usize = 0;
        while n < sorted.len()
            invariant
                n <= sorted@.len(),
                out@ == export_text(pair_views(sorted@).subrange(0, n as int)),
            decreases sorted@.len() - n,
        {
            let (k, v) = &sorted[n];
            append_bytes(&mut out, k.as_str().as_bytes());
            out.push(0x3d);
            append_bytes(&mut out, v.as_str().as_bytes());
            out.push(0x0a);
            proof {
                let es = pair_views(sorted@).subrange(0, n + 1);
                assert(es.drop_last() =~= pair_views(sorted@).subrange(0, n as int));
            }
            n = n + 1;
        }
        proof {
            reveal(keys_sorted);
            let es = pair_views(sorted@);
            assert(es.subrange(0, es.len() as int) =~= es);
            assert forall|k: Seq<char>| m.contains_key(k) implies exists|a: int|
                0 <= a < es.len() && #[trigger] es[a].0 == k by {
                let b = choose|b: int| 0 <= b < pairs@.len() && #[trigger] pairs@[b].0@ == k;
                let a = choose|a: int| #![trigger sorted@[a]] 0 <= a < sorted@.len() && sorted@[a] == pairs@[b];
                assert(es[a].0 == k);
            }
            assert forall|a: int| 0 <= a < es.len() implies #[trigger] m.contains_key(es[a].0) && m[es[a].0] == es[a].1 by {
                let b = choose|b: int| #![trigger pairs@[b]] 0 <= b < pairs@.len() && sorted@[a] == pairs@[b];
            }
            assert(sorted_listing(m, es));
        }
        out
    }

    /// Whether `s` is to be renamed: it matches the pattern, and there is one.
    pub fn matches(&self, s: &str) -> (r: bool)
        ensures
            r == pattern_accepts(self.pattern(), s@),
    {
        match &self.pattern {
            Some(p) => pattern_matches(p.as_str(), s),
            None => false,
        }
    }
}

/// The short names one chunk has looked up, so that each property name is
/// looked up in the shared map once per chunk.
pub struct LocalPropertyMap {
    cache: StrMap<Option<String>>,
}

impl LocalPropertyMap {
    /// Property name to the short name found for it, or `None` when it is not
    /// renamed.
    pub closed spec fn cached(&self) -> Map<Seq<char>, Option<Seq<char>>> {
        self.cache@.map_values(|o: Option<String>| opt_text(o))
    }

    pub fn new() -> (r: Self)
        ensures
            r.cached() == Map::<Seq<char>, Option<Seq<char>>>::empty(),
    {
        let r = LocalPropertyMap { cache: StrMap::new() };
        assert(r.cached() =~= Map::<Seq<char>, Option<Seq<char>>>::empty());
        r
    }

    /// The short name of property `key`: the one this chunk found before; else
    /// the one in the shared map; else, when `key` matches the pattern, the
    /// first short name from `next_id` on (wrapping around after `u32::MAX`)
    /// that is not taken, which is then recorded in the shared map and taken;
    /// else none. When every one of the `2^32` indices is taken the search
    /// gives up (none).
    pub fn get(&mut self, map: &mut PropertyMap, key: &str) -> (r: Option<String>)
        ensures
            old(map).wf() ==> final(map).wf(),
            old(map).wf() && one_to_one(old(map).contents()) ==> one_to_one(final(map).contents()),
            final(map).pattern() == old(map).pattern(),
            old(self).cached().contains_key(key@) ==> {
                &&& opt_text(r) == old(self).cached()[key@]
                &&& final(self).cached() == old(self).cached()
                &&& final(map).contents() == old(map).contents()
                &&& final(map).used_names() == old(map).used_names()
                &&& final(map).next_id() == old(map).next_id()
            },
            !old(self).cached().contains_key(key@) ==> final(self).cached() == old(self).cached().insert(
                key@,
                opt_text(r),
            ),
            !old(self).cached().contains_key(key@) && old(map).contents().contains_key(key@) ==> {
                &&& opt_text(r) == Some(old(map).contents()[key@])
                &&& final(map).contents() == old(map).contents()
                &&& final(map).used_names() == old(map).used_names()
                &&& final(map).next_id() == old(map).next_id()
            },
            !old(self).cached().contains_key(key@) && !old(map).contents().contains_key(key@)
                && !pattern_accepts(old(map).pattern(), key@) ==> {
                &&& r is None
                &&& final(map).contents() == old(map).contents()
                &&& final(map).used_names() == old(map).used_names()
                &&& final(map).next_id() == old(map).next_id()
            },
            !old(self).cached().contains_key(key@) && !old(map).contents().contains_key(key@)
                && pattern_accepts(old(map).pattern(), key@) ==> match r {
                Some(name) => exists|k: nat|
                    {
                        &&& first_free(old(map).used_names(), old(map).next_id() as nat, k)
                        &&& name@ == short_name(candidate(old(map).next_id() as nat, k))
                        &&& final(map).next_id() == candidate(old(map).next_id() as nat, k + 1)
                        &&& final(map).contents() == old(map).contents().insert(key@, name@)
                        &&& final(map).used_names() == old(map).used_names().insert(name@)
                    },
                None => {
                    &&& forall|k: nat|
                        k < 0x1_0000_0000 ==> old(map).used_names().contains(
                            #[trigger] short_name(candidate(old(map).next_id() as nat, k)),
                        )
                    &&& final(map).contents() == old(map).contents()
                    &&& final(map).used_names() == old(map).used_names()
                    &&& final(map).next_id() == old(map).next_id()
                },
            },
    {
        if let Some(hit) = self.cache.get(key) {
            let r = match hit {
                Some(s) => Some(s.clone()),
                None => None,
            };
            return r;
        }
        let uid = match dashmap_get(&map.index, key) {
            Some(v) => Some(v),
            None => {
                if !map.matches(key) {
                    None
                } else {
                    match find_free(&map.used, map.next_id) {
                        Some((k, n, name)) => {
                            let ghost c_before = map.contents();
                            map.used.insert(name.clone(), ());
                            dashmap_insert(&mut map.index, key.to_owned(), name.clone());
                            map.next_id = n.wrapping_add(1);
                            proof {
                                let s0 = old(map).next_id() as nat;
                                assert(candidate(s0, k as nat + 1) == (n as nat + 1) % 0x1_0000_0000)
                                    by (nonlinear_arith)
                                    requires
                                        n as nat == (s0 + k as nat) % 0x1_0000_0000,
                                ;
                            }
                            proof {
                                if old(map).wf() {
                                    assert forall|q: Seq<char>| #[trigger]
                                        map.contents().contains_key(q) implies map.used_names().contains(
                                        map.contents()[q],
                                    ) by {
                                        if q != key@ {
                                            assert(c_before.contains_key(q));
                                            assert(old(map).used_names().contains(c_before[q]));
                                        }
                                    }
                                    assert(reserved_names() <= map.used_names());
                                    assert(map.wf());
                                    if one_to_one(c_before) {
                                        assert forall|a: Seq<char>, b: Seq<char>|
                                            #![trigger map.contents()[a], map.contents()[b]]
                                            map.contents().contains_key(a) && map.contents().contains_key(b)
                                                && a != b implies map.contents()[a] != map.contents()[b] by {
                                            if a == key@ {
                                                assert(old(map).used_names().contains(c_before[b]));
                                            } else if b == key@ {
                                                assert(old(map).used_names().contains(c_before[a]));
                                            }
                                        }
                                    }
                                }
                            }
                            Some(name)
                        },
                        None => {
                            assert(map.contents() == old(map).contents());
                            assert(map.used_names() == old(map).used_names());
                            assert(old(map).wf() ==> map.wf());
                            None
                        },
                    }
                }
            },
        };
        let stored = match &uid {
            Some(s) => Some(s.clone()),
            None => None,
        };
        self.cache.insert(key.to_owned(), stored);
        proof {
            assert(self.cached() =~= old(self).cached().insert(key@, opt_text(uid)));
        }
        uid
    }
}

} // verus!
