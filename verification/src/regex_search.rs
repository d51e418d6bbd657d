//! The boundary to the `regex` crate.
//!
//! Nothing in this crate interprets regular expressions. What the engine
//! finds is given a name, [`regex_captures`], and every contract that depends
//! on a search speaks of that name.

use vstd::prelude::*;

verus! {

/// What the `regex` crate finds for `pattern` in `haystack`.
///
/// `None` stands for a pattern that the crate refuses to compile. Otherwise
/// the sequence holds one entry per successive non-overlapping match, and
/// each entry holds one item per capture group, group 0 being the whole
/// match: the byte offsets `(start, end)` of what the group covered, or
/// `None` for a group that took no part in the match.
pub uninterp spec fn regex_captures(pattern: Seq<char>, haystack: Seq<char>) -> Option<
    Seq<Seq<Option<(usize, usize)>>>,
>;

/// Compiles `pattern` with `regex::Regex::new` and collects what
/// `Regex::captures_iter` yields for `haystack`, reading each group's span
/// with `Match::start` and `Match::end`.
///
/// Trusted: the contract only gives the outcome its name. It relies on the
/// `regex` crate being deterministic: the same pattern and haystack always
/// produce the same matches.
#[verifier::external_body]
pub(crate) fn find_captures(pattern: &str, haystack: &str) -> (found: Option<
    Vec<Vec<Option<(usize, usize)>>>,
>)
    ensures
        found.deep_view() == regex_captures(pattern@, haystack@),
{
    let compiled = regex::Regex::new(pattern).ok()?;
    Some(
        compiled.captures_iter(haystack).map(
            |found| found.iter().map(|group| group.map(|m| (m.start(), m.end()))).collect(),
        ).collect(),
    )
}

} // verus!
