//! Absolute URLs: `new URL("./asset", import.meta.url).href` (also
//! `.pathname`, `["href"]`, `["pathname"]` and an argument-less
//! `.toString()`) becomes the base URL followed by the relative path.
use vstd::prelude::*;
use crate::strmap::str_eq;

verus! {

pub open spec fn is_ascii_alpha(c: char) -> bool {
    ('a' <= c && c <= 'z') || ('A' <= c && c <= 'Z')
}

pub open spec fn is_ascii_alnum(c: char) -> bool {
    is_ascii_alpha(c) || ('0' <= c && c <= '9')
}

/// A character that may follow the first in a URL scheme.
pub open spec fn scheme_char(c: char) -> bool {
    is_ascii_alnum(c) || c == '+' || c == '-' || c == '.'
}

/// `rel` starts with a scheme: a letter, scheme characters, then `:`.
pub open spec fn has_scheme(rel: Seq<char>) -> bool {
    &&& rel.len() > 0
    &&& is_ascii_alpha(rel[0])
    &&& exists|k: int|
        1 <= k < rel.len() && rel[k] == ':' && forall|j: int| 1 <= j < k ==> #[trigger] scheme_char(rel[j])
}

/// A URL that is left alone: empty, root-absolute, query- or hash-only, a
/// backslash path, or one with a scheme (`https:`, `data:`, ...).
pub open spec fn non_rewritable(rel: Seq<char>) -> bool {
    ||| rel.len() == 0
    ||| rel[0] == '/' || rel[0] == '#' || rel[0] == '?' || rel[0] == '\\'
    ||| has_scheme(rel)
}

fn is_alpha_exec(c: char) -> (r: bool)
    ensures
        r == is_ascii_alpha(c),
{
    ('a' <= c && c <= 'z') || ('A' <= c && c <= 'Z')
}

fn is_scheme_char_exec(c: char) -> (r: bool)
    ensures
        r == scheme_char(c),
{
    is_alpha_exec(c) || ('0' <= c && c <= '9') || c == '+' || c == '-' || c == '.'
}

/// Whether `rel` must be left alone.
pub fn is_non_rewritable_rel(rel: &str) -> (r: bool)
    ensures
        r == non_rewritable(rel@),
{
    let n = rel.unicode_len();
    if n == 0 {
        return true;
    }
    let first = rel.get_char(0);
    if first == '/' || first == '#' || first == '?' || first == '\\' {
        return true;
    }
    if !is_alpha_exec(first) {
        return false;
    }
    let mut i: usize = 1;
    while i < n
        invariant
            n == rel@.len(),
            1 <= i <= n,
            is_ascii_alpha(rel@[0]),
            forall|j: int| 1 <= j < i ==> #[trigger] scheme_char(rel@[j]),
        decreases n - i,
    {
        let c = rel.get_char(i);
        if c == ':' {
            return true;
        }
        if !is_scheme_char_exec(c) {
            proof {
                assert forall|k: int|
                    1 <= k < rel@.len() && rel@[k] == ':' implies !(forall|j: int|
                        1 <= j < k ==> #[trigger] scheme_char(rel@[j])) by {
                    if k < i {
                        assert(scheme_char(rel@[k]));
                    } else if k > i {
                        assert(!scheme_char(rel@[i as int]));
                    }
                }
            }
            return false;
        }
        i = i + 1;
    }
    proof {
        assert forall|k: int| 1 <= k < rel@.len() && rel@[k] == ':' implies false by {
            assert(scheme_char(rel@[k]));
        }
    }
    false
}

/// How a member access names its property: `.name`, `["text"]`,
/// `` [`text`] `` (a template without substitutions, with its cooked text
/// when it has one), or anything else.
pub enum PropKey {
    Name(String),
    Str(String),
    Template(Option<String>),
    Other,
}

/// An argument of `new URL(..)`: a string, a template without substitutions
/// (its cooked text when it has one), a member access on `import.meta` or
/// on something else, or anything else.
pub enum UrlArgument {
    Str(String),
    Template(Option<String>),
    Member { on_import_meta: bool, optional: bool, key: PropKey },
    Other,
}

/// A `new` expression: whether its callee is the unshadowed global `URL`,
/// whether it has type arguments, and its arguments.
pub struct NewUrl {
    pub global_url: bool,
    pub type_arguments: bool,
    pub arguments: Vec<UrlArgument>,
}

/// The expression visited: a member access (`.key` or `[key]`) on something
/// that may be a `new` expression, or a call of such a member access.
pub enum UrlAccess {
    Member { optional: bool, key: PropKey, object: Option<NewUrl> },
    Call {
        optional: bool,
        type_arguments: bool,
        argument_count: usize,
        callee_optional: bool,
        callee_key: PropKey,
        object: Option<NewUrl>,
    },
    Other,
}

/// The text of a key written as a string or a template without substitutions.
pub open spec fn literal_key(k: PropKey) -> Option<Seq<char>> {
    match k {
        PropKey::Str(s) => Some(s@),
        PropKey::Template(Some(s)) => Some(s@),
        _ => None,
    }
}

/// The argument is `import.meta.url` or `import.meta["url"]`.
pub open spec fn is_import_meta_url(a: UrlArgument) -> bool {
    match a {
        UrlArgument::Member { on_import_meta, optional, key } => on_import_meta && !optional && match key {
            PropKey::Name(n) => n@ == "url"@,
            _ => literal_key(key) == Some("url"@),
        },
        _ => false,
    }
}

/// The text of the first argument, when it is a string or a cooked template
/// without substitutions.
pub open spec fn argument_text(a: UrlArgument) -> Option<Seq<char>> {
    match a {
        UrlArgument::Str(s) => Some(s@),
        UrlArgument::Template(Some(s)) => Some(s@),
        _ => None,
    }
}

/// The relative URL of `new URL(rel, import.meta.url)` on the global `URL`,
/// without type arguments, when `rel` is to be rewritten.
pub open spec fn new_url_rel_spec(e: NewUrl) -> Option<Seq<char>> {
    if !e.global_url || e.type_arguments || e.arguments@.len() != 2 {
        None
    } else {
        match argument_text(e.arguments@[0]) {
            Some(rel) => if is_import_meta_url(e.arguments@[1]) && !non_rewritable(rel) {
                Some(rel)
            } else {
                None
            },
            None => None,
        }
    }
}

/// The property is `href` or `pathname`.
pub open spec fn url_property(k: PropKey) -> bool {
    match k {
        PropKey::Name(n) => n@ == "href"@ || n@ == "pathname"@,
        _ => literal_key(k) == Some("href"@) || literal_key(k) == Some("pathname"@),
    }
}

/// The relative URL that the visited expression reads, if it is one of the
/// rewritten forms.
pub open spec fn access_rel(a: UrlAccess) -> Option<Seq<char>> {
    match a {
        UrlAccess::Member { optional, key, object } => if !optional && url_property(key) {
            match object {
                Some(e) => new_url_rel_spec(e),
                None => None,
            }
        } else {
            None
        },
        UrlAccess::Call {
            optional,
            type_arguments,
            argument_count,
            callee_optional,
            callee_key,
            object,
        } => {
            let to_string = match callee_key {
                PropKey::Name(n) => n@ == "toString"@,
                PropKey::Str(s) => s@ == "toString"@,
                _ => false,
            };
            if !optional && !type_arguments && argument_count == 0 && !callee_optional && to_string {
                match object {
                    Some(e) => new_url_rel_spec(e),
                    None => None,
                }
            } else {
                None
            }
        },
        UrlAccess::Other => None,
    }
}

/// `rel` without a leading `./`.
pub open spec fn strip_dot_slash(rel: Seq<char>) -> Seq<char> {
    if rel.len() >= 2 && rel[0] == '.' && rel[1] == '/' {
        rel.subrange(2, rel.len() as int)
    } else {
        rel
    }
}

fn literal_key_text(k: &PropKey) -> (r: Option<&String>)
    ensures
        match r {
            Some(s) => literal_key(*k) == Some(s@),
            None => literal_key(*k) is None,
        },
{
    match k {
        PropKey::Str(s) => Some(s),
        PropKey::Template(Some(s)) => Some(s),
        _ => None,
    }
}

fn key_is(k: &PropKey, name: &str) -> (r: bool)
    ensures
        r == match *k {
            PropKey::Name(n) => n@ == name@,
            _ => literal_key(*k) == Some(name@),
        },
{
    match k {
        PropKey::Name(n) => str_eq(n.as_str(), name),
        _ => match literal_key_text(k) {
            Some(s) => str_eq(s.as_str(), name),
            None => false,
        },
    }
}

/// Whether the argument is `import.meta.url` or `import.meta["url"]`.
pub fn import_meta_url(a: &UrlArgument) -> (r: bool)
    ensures
        r == is_import_meta_url(*a),
{
    match a {
        UrlArgument::Member { on_import_meta, optional, key } => *on_import_meta && !*optional && key_is(
            key,
            "url",
        ),
        _ => false,
    }
}

/// The relative URL of a `new URL(rel, import.meta.url)` to rewrite.
pub fn new_url_rel(e: &NewUrl) -> (r: Option<&str>)
    ensures
        match r {
            Some(s) => new_url_rel_spec(*e) == Some(s@),
            None => new_url_rel_spec(*e) is None,
        },
{
    if !e.global_url || e.type_arguments || e.arguments.len() != 2 {
        return None;
    }
    let rel: &str = match &e.arguments[0] {
        UrlArgument::Str(s) => s.as_str(),
        UrlArgument::Template(Some(s)) => s.as_str(),
        _ => {
            return None;
        },
    };
    if !import_meta_url(&e.arguments[1]) {
        return None;
    }
    if is_non_rewritable_rel(rel) {
        return None;
    }
    Some(rel)
}

/// The text that replaces the visited expression: `base` followed by the
/// relative URL without a leading `./`, when the expression is one of the
/// rewritten forms.
pub fn url_replacement(base: &str, a: &UrlAccess) -> (r: Option<String>)
    ensures
        match access_rel(*a) {
            Some(rel) => r matches Some(s) && s@ == base@ + strip_dot_slash(rel),
            None => r is None,
        },
{
    let rel: Option<&str> = match a {
        UrlAccess::Member { optional, key, object } => {
            if !*optional && (key_is(key, "href") || key_is(key, "pathname")) {
                match object {
                    Some(e) => new_url_rel(e),
                    None => None,
                }
            } else {
                None
            }
        },
        UrlAccess::Call {
            optional,
            type_arguments,
            argument_count,
            callee_optional,
            callee_key,
            object,
        } => {
            let to_string = match callee_key {
                PropKey::Name(n) => str_eq(n.as_str(), "toString"),
                PropKey::Str(s) => str_eq(s.as_str(), "toString"),
                _ => false,
            };
            if !*optional && !*type_arguments && *argument_count == 0 && !*callee_optional && to_string {
                match object {
                    Some(e) => new_url_rel(e),
                    None => None,
                }
            } else {
                None
            }
        },
        UrlAccess::Other => None,
    };
    match rel {
        Some(rel) => {
            let n = rel.unicode_len();
            let rest = if n >= 2 && rel.get_char(0) == '.' && rel.get_char(1) == '/' {
                rel.substring_char(2, n)
            } else {
                rel
            };
            Some(String::from_str(base).concat(rest))
        },
        None => None,
    }
}

/// The property name a key names, however it is written: `.name`,
/// `["name"]` or `` [`name`] ``.
pub open spec fn key_text(k: PropKey) -> Option<Seq<char>> {
    match k {
        PropKey::Name(n) => Some(n@),
        _ => literal_key(k),
    }
}

/// A property is read the same way whether its name is written as a name,
/// a string or a template: two member accesses on the same object whose
/// keys name the same property are rewritten alike. And `.href` and
/// `.pathname` of a rewritable `new URL(rel, import.meta.url)` both read
/// `rel`, so both are replaced by the base followed by `rel` without `./`.
pub proof fn lemma_url_property_keys(
    optional: bool,
    k1: PropKey,
    k2: PropKey,
    object: Option<NewUrl>,
)
    ensures
        key_text(k1) == key_text(k2) ==> access_rel(UrlAccess::Member { optional, key: k1, object })
            == access_rel(UrlAccess::Member { optional, key: k2, object }),
        (key_text(k1) == Some("href"@) || key_text(k1) == Some("pathname"@)) && object is Some
            && new_url_rel_spec(object->0) is Some ==> access_rel(
            UrlAccess::Member { optional: false, key: k1, object },
        ) == new_url_rel_spec(object->0),
{
}

} // verus!
