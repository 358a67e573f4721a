//! Comment-based metadata annotations.
//!
//! Substring matching: any comment in leading position whose content
//! contains one of `@__HOIST__`, `@__CONST__` or `@__SCOPE__` carries an
//! annotation for the expression that follows it. When one comment holds
//! several markers, the first match in the order Hoist, Scope, Const wins.
use std::collections::HashMap;
use vstd::prelude::*;
use vstd::string::StringSliceAdditionalSpecFns;

verus! {

broadcast use vstd::std_specs::hash::group_hash_axioms;

#[derive(Clone, Copy, PartialEq, Eq, Debug, Structural)]
pub enum CommentAnnotation {
    Hoist,
    Scope,
    Const,
}

/// Marker substring for hoist annotations.
pub const HOIST_TEXT: &'static str = "@__HOIST__";
/// Marker substring for const (dedupe) annotations.
pub const CONST_TEXT: &'static str = "@__CONST__";
/// Marker substring for scope annotations.
pub const SCOPE_TEXT: &'static str = "@__SCOPE__";

/// `needle` occurs in `hay` starting at index `i`.
pub open spec fn occurs_at(hay: Seq<u8>, needle: Seq<u8>, i: int) -> bool {
    &&& 0 <= i
    &&& i + needle.len() <= hay.len()
    &&& hay.subrange(i, i + needle.len()) == needle
}

/// `needle` occurs somewhere in `hay`.
pub open spec fn has_substring(hay: Seq<u8>, needle: Seq<u8>) -> bool {
    exists|i: int| occurs_at(hay, needle, i)
}

/// The annotation that a comment with the UTF-8 content `content` carries.
pub open spec fn spec_annotation(content: Seq<u8>) -> Option<CommentAnnotation> {
    if has_substring(content, HOIST_TEXT.spec_bytes()) {
        Some(CommentAnnotation::Hoist)
    } else if has_substring(content, SCOPE_TEXT.spec_bytes()) {
        Some(CommentAnnotation::Scope)
    } else if has_substring(content, CONST_TEXT.spec_bytes()) {
        Some(CommentAnnotation::Const)
    } else {
        None
    }
}

/// Searches `needle` in `hay[start..end]`.
fn contains_in_range(hay: &[u8], start: usize, end: usize, needle: &[u8]) -> (r: bool)
    requires
        start <= end <= hay@.len(),
    ensures
        r == has_substring(hay@.subrange(start as int, end as int), needle@),
{
    let ghost sub = hay@.subrange(start as int, end as int);
    let n = needle.len();
    if n > end - start {
        proof {
            assert forall|i: int| !occurs_at(sub, needle@, i) by {}
        }
        return false;
    }
    let last = end - n;
    let mut i = start;
    while i <= last
        invariant
            start <= i,
            last == end - n,
            n == needle@.len(),
            start <= end <= hay@.len(),
            sub == hay@.subrange(start as int, end as int),
            forall|k: int| 0 <= k < i - start ==> !occurs_at(sub, needle@, k),
        decreases last + 1 - i,
    {
        let mut j: usize = 0;
        let mut same = true;
        while j < n
            invariant
                j <= n,
                n == needle@.len(),
                i + n <= end <= hay@.len(),
                same <==> (forall|q: int| 0 <= q < j ==> hay@[i + q] == needle@[q]),
            decreases n - j,
        {
            if hay[i + j] != needle[j] {
                same = false;
            }
            j += 1;
        }
        if same {
            proof {
                assert(sub.subrange(i - start, i - start + n) =~= needle@);
                assert(occurs_at(sub, needle@, i - start));
            }
            return true;
        }
        proof {
            let k = j;
            assert(!(sub.subrange(i - start, i - start + n) =~= needle@)) by {
                let q = choose|q: int| 0 <= q < n && hay@[i + q] != needle@[q];
                assert(sub.subrange(i - start, i - start + n)[q] == hay@[i + q]);
            }
        }
        i += 1;
    }
    proof {
        assert forall|k: int| !occurs_at(sub, needle@, k) by {
            if 0 <= k && k + n <= sub.len() {
                assert(k < i - start);
            }
        }
    }
    false
}

/// The annotation that `hay[start..end]` carries as comment content.
fn annotation_for_range(hay: &[u8], start: usize, end: usize) -> (r: Option<CommentAnnotation>)
    requires
        start <= end <= hay@.len(),
    ensures
        r == spec_annotation(hay@.subrange(start as int, end as int)),
{
    if contains_in_range(hay, start, end, HOIST_TEXT.as_bytes()) {
        Some(CommentAnnotation::Hoist)
    } else if contains_in_range(hay, start, end, SCOPE_TEXT.as_bytes()) {
        Some(CommentAnnotation::Scope)
    } else if contains_in_range(hay, start, end, CONST_TEXT.as_bytes()) {
        Some(CommentAnnotation::Const)
    } else {
        None
    }
}

pub fn annotation_for_content(content: &str) -> (r: Option<CommentAnnotation>)
    ensures
        r == spec_annotation(content.spec_bytes()),
{
    let bytes = content.as_bytes();
    let r = annotation_for_range(bytes, 0, bytes.len());
    assert(bytes@.subrange(0, bytes@.len() as int) =~= bytes@);
    r
}

pub fn is_annotation_content(content: &str) -> (r: bool)
    ensures
        r == spec_annotation(content.spec_bytes()).is_some(),
{
    annotation_for_content(content).is_some()
}

/// Whether a comment stays in the output: a leading comment that holds an
/// annotation marker is removed, every other comment stays.
pub fn keeps_comment(is_leading: bool, content: &str) -> (r: bool)
    ensures
        r == (!is_leading || spec_annotation(content.spec_bytes()) is None),
{
    if !is_leading {
        return true;
    }
    !is_annotation_content(content)
}

/// What the annotation pass reads of a comment: whether it stands in
/// leading position, the byte range of its content in the source text, and
/// the start offset of the token it is attached to.
#[derive(Clone, Copy, PartialEq, Eq, Debug, Structural)]
pub struct CommentInfo {
    pub is_leading: bool,
    pub content_start: u32,
    pub content_end: u32,
    pub attached_to: u32,
}

/// The content bytes of a comment whose range lies inside `source`.
pub open spec fn comment_content(source: Seq<u8>, c: CommentInfo) -> Seq<u8> {
    source.subrange(c.content_start as int, c.content_end as int)
}

/// The content range of `c` lies within `source`.
pub open spec fn comment_in_bounds(source: Seq<u8>, c: CommentInfo) -> bool {
    c.content_start <= c.content_end <= source.len()
}

/// Map from attachment offset to annotation after reading `cs` in order:
/// a later comment attached to the same offset replaces an earlier one.
pub open spec fn spec_comment_annotations(source: Seq<u8>, cs: Seq<CommentInfo>) -> Map<
    u32,
    CommentAnnotation,
>
    decreases cs.len(),
{
    if cs.len() == 0 {
        Map::empty()
    } else {
        let m = spec_comment_annotations(source, cs.drop_last());
        let c = cs.last();
        if c.is_leading && spec_annotation(comment_content(source, c)) is Some {
            m.insert(c.attached_to, spec_annotation(comment_content(source, c))->0)
        } else {
            m
        }
    }
}

/// Builds the map from `attached_to` (start offset of the following token)
/// to the annotation. Only leading comments whose content holds a marker
/// are included.
pub fn build_comment_annotations(source_text: &str, comments: &[CommentInfo]) -> (r: HashMap<
    u32,
    CommentAnnotation,
>)
    requires
        forall|i: int|
            0 <= i < comments@.len() ==> comment_in_bounds(
                source_text.spec_bytes(),
                #[trigger] comments@[i],
            ),
    ensures
        r@ == spec_comment_annotations(source_text.spec_bytes(), comments@),
{
    let src = source_text.as_bytes();
    let mut map: HashMap<u32, CommentAnnotation> = HashMap::new();
    let mut i: usize = 0;
    while i < comments.len()
        invariant
            i <= comments@.len(),
            src@ == source_text.spec_bytes(),
            forall|k: int|
                0 <= k < comments@.len() ==> comment_in_bounds(src@, #[trigger] comments@[k]),
            map@ == spec_comment_annotations(src@, comments@.subrange(0, i as int)),
        decreases comments@.len() - i,
    {
        let c = comments[i];
        proof {
            assert(comments@.subrange(0, i + 1).drop_last() =~= comments@.subrange(0, i as int));
            assert(comment_in_bounds(src@, comments@[i as int]));
        }
        if c.is_leading {
            let a = annotation_for_range(src, c.content_start as usize, c.content_end as usize);
            if let Some(ann) = a {
                map.insert(c.attached_to, ann);
            }
        }
        i += 1;
    }
    assert(comments@.subrange(0, comments@.len() as int) =~= comments@);
    map
}

} // verus!
