//! Slug rules: a storage segment, a bounded length, and exactly one token without
//! whitespace.

use vstd::prelude::*;
use crate::error::{Entity, SlugProblem, StoreError};
use crate::objpath::{parsable_segment, segment_parses};
use crate::text::chars_of;

verus! {

/// The characters with the Unicode `White_Space` property.
pub open spec fn unicode_space(c: char) -> bool {
    ('\u{9}' <= c && c <= '\u{d}') || c == ' ' || c == '\u{85}' || c == '\u{a0}'
        || c == '\u{1680}' || ('\u{2000}' <= c && c <= '\u{200a}') || c == '\u{2028}'
        || c == '\u{2029}' || c == '\u{202f}' || c == '\u{205f}' || c == '\u{3000}'
}

/// Whether a character has the Unicode `White_Space` property.
pub fn is_space(c: char) -> (r: bool)
    ensures
        r == unicode_space(c),
{
    ('\u{9}' <= c && c <= '\u{d}') || c == ' ' || c == '\u{85}' || c == '\u{a0}'
        || c == '\u{1680}' || ('\u{2000}' <= c && c <= '\u{200a}') || c == '\u{2028}'
        || c == '\u{2029}' || c == '\u{202f}' || c == '\u{205f}' || c == '\u{3000}'
}

/// How many maximal runs of non-whitespace characters `s` holds.
pub open spec fn token_count(s: Seq<char>) -> nat
    decreases s.len(),
{
    if s.len() == 0 {
        0
    } else {
        let starts = !unicode_space(s.last()) && (s.len() == 1 || unicode_space(s[s.len() - 2]));
        token_count(s.drop_last()) + if starts { 1nat } else { 0nat }
    }
}

/// The longest a slug may be, in characters: 100 for a post, 60 for an image.
pub open spec fn slug_limit(entity: Entity) -> nat {
    match entity {
        Entity::Post => 100,
        Entity::Image => 60,
    }
}

/// The first rule that a slug breaks, if any.
pub open spec fn slug_problem(s: Seq<char>, entity: Entity) -> Option<SlugProblem> {
    if !parsable_segment(s) {
        Some(SlugProblem::NotASegment)
    } else if s.len() < 3 || s.len() > slug_limit(entity) {
        Some(SlugProblem::Length)
    } else if token_count(s) != 1 {
        Some(SlugProblem::Whitespace)
    } else {
        None
    }
}

fn count_tokens(s: &str) -> (r: usize)
    ensures
        r == token_count(s@),
{
    let cs = chars_of(s);
    let mut n: usize = 0;
    let mut i: usize = 0;
    let mut prev_space = true;
    while i < cs.len()
        invariant
            cs@ == s@,
            i <= cs.len(),
            n == token_count(s@.subrange(0, i as int)),
            n <= i,
            i > 0 ==> prev_space == unicode_space(s@[i - 1]),
            i == 0 ==> prev_space,
        decreases cs.len() - i,
    {
        let sp = is_space(cs[i]);
        assert(s@.subrange(0, i + 1).drop_last() =~= s@.subrange(0, i as int));
        if !sp && prev_space {
            n = n + 1;
        }
        prev_space = sp;
        i = i + 1;
    }
    assert(s@.subrange(0, cs.len() as int) =~= s@);
    n
}

/// Checks a slug, and names the first rule it breaks.
pub fn validate_slug(slug: &str, entity: Entity) -> (r: Result<(), StoreError>)
    ensures
        match slug_problem(slug@, entity) {
            None => r is Ok,
            Some(p) => r == Err::<(), StoreError>(StoreError::BadSlug { entity, problem: p }),
        },
{
    if !segment_parses(slug) {
        return Err(StoreError::BadSlug { entity, problem: SlugProblem::NotASegment });
    }
    let n = chars_of(slug).len();
    let limit: usize = match entity {
        Entity::Post => 100,
        Entity::Image => 60,
    };
    if n < 3 || n > limit {
        return Err(StoreError::BadSlug { entity, problem: SlugProblem::Length });
    }
    if count_tokens(slug) != 1 {
        return Err(StoreError::BadSlug { entity, problem: SlugProblem::Whitespace });
    }
    Ok(())
}

} // verus!
