//! The lines that tell an operator what a run did.

use vstd::prelude::*;
use crate::cup_parser::{FileTarget, FileTargetView};
use crate::decimal::{digits, push_digits};
use crate::update::{OutcomeView, TargetOutcome};

verus! {

/// The report on one target: its name, which reads `<path>:<line>`, with
/// the new version or with the cause of the failure.
pub open spec fn report_text(target: FileTargetView, outcome: OutcomeView) -> Seq<char> {
    let name = target.extracted_config.name;
    match outcome {
        OutcomeView::Updated { version } => "Updated "@ + name + " to version "@ + version,
        OutcomeView::ResolveFailed { cause } => "Error getting latest tag for "@
            + target.extracted_config.tag.remote_tag + " in "@ + name + ": "@ + cause,
        OutcomeView::RowOutOfBounds => "Row index out of bounds for "@ + name,
        OutcomeView::NoPatternMatched => "No matching pattern found for version replacement in "@
            + name,
    }
}

/// The summary of a file in which `updated_count` lines were rewritten.
pub open spec fn summary_text(path: Seq<char>, updated_count: nat) -> Seq<char> {
    "Successfully updated "@ + digits(updated_count) + " lines in "@ + path
}

/// Whether `outcome` is reported as a failure rather than as progress.
pub fn is_failure(outcome: &TargetOutcome) -> (failed: bool)
    ensures
        failed == !(outcome@ is Updated),
{
    match outcome {
        TargetOutcome::Updated { .. } => false,
        _ => true,
    }
}

/// Writes the report on one target: computes [`report_text`].
pub fn report_line(target: &FileTarget, outcome: &TargetOutcome) -> (line: String)
    ensures
        line@ == report_text(target@, outcome@),
{
    let name = target.extracted_config.name.as_str();
    let mut line = String::new();
    match outcome {
        TargetOutcome::Updated { version } => {
            line.append("Updated ");
            line.append(name);
            line.append(" to version ");
            line.append(version.as_str());
        },
        TargetOutcome::ResolveFailed { cause } => {
            line.append("Error getting latest tag for ");
            line.append(target.extracted_config.tag.remote_tag.as_str());
            line.append(" in ");
            line.append(name);
            line.append(": ");
            line.append(cause.as_str());
        },
        TargetOutcome::RowOutOfBounds => {
            line.append("Row index out of bounds for ");
            line.append(name);
        },
        TargetOutcome::NoPatternMatched => {
            line.append("No matching pattern found for version replacement in ");
            line.append(name);
        },
    }
    line
}

/// Writes the summary of one file: computes [`summary_text`].
pub fn summary_line(path: &str, updated_count: usize) -> (line: String)
    ensures
        line@ == summary_text(path@, updated_count as nat),
{
    let mut line = String::new();
    line.append("Successfully updated ");
    push_digits(&mut line, updated_count as u128);
    line.append(" lines in ");
    line.append(path);
    line
}

} // verus!
