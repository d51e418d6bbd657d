//! The policy by which the latest tag of a registry entry is looked up.
//!
//! Asking a registry is the caller's business. This module tells the caller
//! which lookup to make next and when to stop: the latest release is asked
//! for first, and only when that lookup gives nothing, the most recent tag.

use vstd::prelude::*;
use crate::init::Remote;

verus! {

/// A question that a registry can be asked about one of its entries.
#[derive(Debug, Clone, Copy, PartialEq, Eq)]
pub enum Lookup {
    /// The tag of the latest published release.
    LatestRelease,
    /// The tags of the entry, most recent first.
    MostRecentTag,
}

/// What to do next when resolving the latest tag of an entry.
#[derive(Debug, PartialEq, Eq)]
pub enum ResolveStep {
    /// Make this lookup and come back with its answer.
    Ask(Lookup),
    /// The resolution is over: the latest tag, or the cause of the failure.
    Done(Result<String, String>),
}

/// What a [`ResolveStep`] stands for.
pub enum ResolveStepView {
    Ask(Lookup),
    Done(Result<Seq<char>, Seq<char>>),
}

impl View for ResolveStep {
    type V = ResolveStepView;

    open spec fn view(&self) -> ResolveStepView {
        match self {
            ResolveStep::Ask(lookup) => ResolveStepView::Ask(*lookup),
            ResolveStep::Done(Ok(tag)) => ResolveStepView::Done(Ok(tag@)),
            ResolveStep::Done(Err(cause)) => ResolveStepView::Done(Err(cause@)),
        }
    }
}

/// The answer to a lookup: the tags it found, most recent first, or the
/// cause of its failure.
pub open spec fn lookup_view(answer: Result<Vec<String>, String>) -> Result<
    Seq<Seq<char>>,
    Seq<char>,
> {
    match answer {
        Ok(tags) => Ok(tags@.map_values(|tag: String| tag@)),
        Err(cause) => Err(cause@),
    }
}

/// The cause reported for a lookup that succeeded but found no tag.
pub open spec fn no_tags_cause() -> Seq<char> {
    "no tags found"@
}

/// The step that follows the answer `answer` to the lookup `asked`.
///
/// A lookup that found a tag ends the resolution with the most recent one.
/// A release lookup that found none is followed by a tag lookup, whatever
/// the cause. A tag lookup that found none ends the resolution in failure.
pub open spec fn next_step(asked: Lookup, answer: Result<Seq<Seq<char>>, Seq<char>>)
    -> ResolveStepView {
    match answer {
        Ok(tags) if tags.len() > 0 => ResolveStepView::Done(Ok(tags[0])),
        _ => match asked {
            Lookup::LatestRelease => ResolveStepView::Ask(Lookup::MostRecentTag),
            Lookup::MostRecentTag => ResolveStepView::Done(
                Err(
                    match answer {
                        Err(cause) => cause,
                        Ok(_) => no_tags_cause(),
                    },
                ),
            ),
        },
    }
}

/// The lookup with which the resolution of an entry of `remote` begins.
pub fn first_lookup(remote: Remote) -> (lookup: Lookup)
    ensures
        lookup == Lookup::LatestRelease,
{
    match remote {
        Remote::GitHub => Lookup::LatestRelease,
    }
}

/// Decides what follows the answer to a lookup: computes [`next_step`].
pub fn after_lookup(asked: Lookup, answer: &Result<Vec<String>, String>) -> (step: ResolveStep)
    ensures
        step@ == next_step(asked, lookup_view(*answer)),
{
    match answer {
        Ok(tags) => {
            if tags.len() > 0 {
                return ResolveStep::Done(Ok(tags[0].clone()));
            }
        },
        Err(_) => {},
    }
    match asked {
        Lookup::LatestRelease => ResolveStep::Ask(Lookup::MostRecentTag),
        Lookup::MostRecentTag => match answer {
            Err(cause) => ResolveStep::Done(Err(cause.clone())),
            Ok(_) => ResolveStep::Done(Err("no tags found".to_owned())),
        },
    }
}

/// The outcome of a whole resolution, given what the release lookup and the
/// tag lookup answer. The tag lookup is made only if the release lookup
/// found nothing.
pub open spec fn resolution(
    release: Result<Seq<Seq<char>>, Seq<char>>,
    tags: Result<Seq<Seq<char>>, Seq<char>>,
) -> Result<Seq<char>, Seq<char>> {
    match next_step(Lookup::LatestRelease, release) {
        ResolveStepView::Done(outcome) => outcome,
        ResolveStepView::Ask(lookup) => match next_step(lookup, tags) {
            ResolveStepView::Done(outcome) => outcome,
            ResolveStepView::Ask(_) => Err(no_tags_cause()),
        },
    }
}

/// A resolution fails only when both lookups found nothing; the tag of the
/// release wins where there is one, and the most recent tag stands in for it
/// where there is none.
pub proof fn lemma_resolution_falls_back_once(
    release: Result<Seq<Seq<char>>, Seq<char>>,
    tags: Result<Seq<Seq<char>>, Seq<char>>,
)
    ensures
        (release matches Ok(found) && found.len() > 0) ==> resolution(release, tags) == Ok::<
            Seq<char>,
            Seq<char>,
        >(release->Ok_0[0]),
        !(release matches Ok(found) && found.len() > 0) && (tags matches Ok(found) && found.len()
            > 0) ==> resolution(release, tags) == Ok::<Seq<char>, Seq<char>>(tags->Ok_0[0]),
        resolution(release, tags) is Err <==> !(release matches Ok(found) && found.len() > 0) && !(
        tags matches Ok(found) && found.len() > 0),
{
}

} // verus!
