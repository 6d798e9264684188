//! Storage keys as sequences of path segments, the way object storage lays them out.

use vstd::prelude::*;
use object_store::path::PathPart;

verus! {

/// Whether object storage keeps a segment as it is: not `.` or `..`, and only printable
/// ASCII characters outside the ones it reserves or escapes.
pub open spec fn safe_segment(s: Seq<char>) -> bool {
    s != seq!['.'] && s != seq!['.', '.'] && forall|i: int| 0 <= i < s.len() ==> safe_char(#[trigger] s[i])
}

/// A printable ASCII character that object storage never escapes in a segment.
pub open spec fn safe_char(c: char) -> bool {
    ' ' <= c && c <= '~' && c != '/' && c != '\\' && c != '{' && c != '^' && c != '}'
        && c != '%' && c != '`' && c != ']' && c != '"' && c != '>' && c != '[' && c != '~'
        && c != '<' && c != '#' && c != '|' && c != '*' && c != '?'
}

/// Whether a segment is accepted as it is by object storage: not `.` or `..`, and no
/// ASCII control character and no `/`.
pub open spec fn parsable_segment(s: Seq<char>) -> bool {
    s != seq!['.'] && s != seq!['.', '.'] && forall|i: int| 0 <= i < s.len() ==> {
        let c = #[trigger] s[i];
        c != '/' && !(c <= '\x1f' || c == '\x7f')
    }
}

/// The segment that object storage makes of a string.
pub uninterp spec fn path_part_of(s: Seq<char>) -> Seq<char>;

/// Relies on object_store's `PathPart::from`: a string becomes a segment, with reserved,
/// control and non-ASCII bytes percent-encoded and `.` and `..` escaped; a segment made only
/// of other characters is kept as it is.
#[verifier::external_body]
pub(crate) fn encode_segment(s: &str) -> (r: String)
    ensures
        r@ == path_part_of(s@),
        safe_segment(s@) ==> r@ == s@,
{
    PathPart::from(s).as_ref().to_string()
}

/// Relies on object_store's `PathPart::parse`: it accepts a segment unless it is `.` or
/// `..`, or holds an ASCII control character or `/`.
#[verifier::external_body]
pub(crate) fn segment_parses(s: &str) -> (r: bool)
    ensures
        r == parsable_segment(s@),
{
    PathPart::parse(s).is_ok()
}

/// A storage key: its segments, from the root down.
#[derive(Clone, Debug)]
pub struct ObjPath {
    pub parts: Vec<String>,
}

pub open spec fn parts_view(parts: Seq<String>) -> Seq<Seq<char>> {
    parts.map_values(|s: String| s@)
}

impl View for ObjPath {
    type V = Seq<Seq<char>>;

    open spec fn view(&self) -> Seq<Seq<char>> {
        parts_view(self.parts@)
    }
}

/// A key with one more segment; an empty segment adds nothing, as in object storage.
pub open spec fn child_of(p: Seq<Seq<char>>, part: Seq<char>) -> Seq<Seq<char>> {
    let e = path_part_of(part);
    if e.len() == 0 { p } else { p.push(e) }
}

impl ObjPath {
    /// The root key, with no segments.
    pub fn root() -> (r: ObjPath)
        ensures
            r@ == Seq::<Seq<char>>::empty(),
    {
        let r = ObjPath { parts: Vec::new() };
        assert(r@ =~= Seq::<Seq<char>>::empty());
        r
    }

    /// This key with `part` appended as one segment, encoded as object storage does.
    pub fn child(&self, part: &str) -> (r: ObjPath)
        ensures
            r@ == child_of(self@, part@),
            safe_segment(part@) && part@.len() > 0 ==> r@ == self@.push(part@),
    {
        let e = encode_segment(part);
        let mut parts = self.parts.clone();
        assert(parts@ == self.parts@);
        if e.as_str().is_empty() {
            ObjPath { parts }
        } else {
            parts.push(e);
            let r = ObjPath { parts };
            assert(r@ =~= self@.push(e@));
            r
        }
    }
}

pub open spec fn is_prefix(p: Seq<Seq<char>>, s: Seq<Seq<char>>) -> bool {
    p.len() <= s.len() && s.subrange(0, p.len() as int) == p
}

/// What is left of `source` below `prefix`: the segments after it when `prefix` is a
/// prefix of `source`, else `source` itself.
pub open spec fn tail_of(source: Seq<Seq<char>>, prefix: Seq<Seq<char>>) -> Seq<Seq<char>> {
    if is_prefix(prefix, source) {
        source.subrange(prefix.len() as int, source.len() as int)
    } else {
        source
    }
}

/// Whether `prefix` is a prefix of `source`, segment by segment.
pub fn starts_with_path(source: &ObjPath, prefix: &ObjPath) -> (r: bool)
    ensures
        r == is_prefix(prefix@, source@),
{
    if prefix.parts.len() > source.parts.len() {
        return false;
    }
    let mut i: usize = 0;
    while i < prefix.parts.len()
        invariant
            prefix.parts.len() <= source.parts.len(),
            i <= prefix.parts.len(),
            forall|j: int| 0 <= j < i ==> source@[j] == prefix@[j],
        decreases prefix.parts.len() - i,
    {
        if source.parts[i] != prefix.parts[i] {
            assert(source@.subrange(0, prefix@.len() as int)[i as int] != prefix@[i as int]);
            return false;
        }
        i = i + 1;
    }
    assert(source@.subrange(0, prefix@.len() as int) =~= prefix@);
    true
}

/// Strips `prefix` off `source`; a key outside `prefix` is returned whole.
pub fn path_tail(source: &ObjPath, prefix: &ObjPath) -> (r: ObjPath)
    ensures
        r@ == tail_of(source@, prefix@),
{
    if starts_with_path(source, prefix) {
        let mut parts: Vec<String> = Vec::new();
        let mut i: usize = prefix.parts.len();
        while i < source.parts.len()
            invariant
                prefix.parts.len() <= i <= source.parts.len(),
                parts_view(parts@) == source@.subrange(prefix@.len() as int, i as int),
            decreases source.parts.len() - i,
        {
            let ghost before = parts@;
            let x = source.parts[i].clone();
            parts.push(x);
            assert(parts@ == before.push(x));
            assert(parts_view(parts@) =~= parts_view(before).push(x@));
            assert(parts_view(parts@) =~= source@.subrange(prefix@.len() as int, i + 1));
            i = i + 1;
        }
        ObjPath { parts }
    } else {
        let parts = source.parts.clone();
        assert(parts@ == source.parts@);
        ObjPath { parts }
    }
}

/// Hands back the source sequence as it is: the comparison sequence is not consulted.
pub fn filter_tail_iterator<T>(source: Vec<T>, comparison: Vec<T>) -> (r: Vec<T>)
    ensures
        r@ == source@,
{
    source
}

} // verus!
