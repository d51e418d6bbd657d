//! The update orchestrator: groups the targets of a run by file and applies
//! the resolved tags of one file to its lines.
//!
//! Reading files, asking the registry and writing files back are left to the
//! caller. This module decides what is to be written: it takes the text of a
//! file and what the registry answered for each of its targets, and returns
//! the new text together with what became of each target.

use vstd::prelude::*;
use crate::cup_parser::{
    file_views,
    find_cup_targets,
    target_views,
    targets_in_file,
    targets_in_files,
    FileTarget,
    FileTargetView,
};
use crate::file_finder::{FileInfo, FileInfoView};
use crate::init::{Config, ConfigView};
use crate::lines::{join_lines, joined, lines, split_lines, texts};
use crate::version_extractor::{
    catalog,
    clean_tag,
    cleaned_tag,
    first_rewrite,
    try_replace_version_in_line,
};

verus! {

/// The targets of one file: the unit that is read, edited and written once.
#[derive(Debug)]
pub struct FileBatch {
    /// The path that the targets share.
    pub path: String,
    /// The targets, in the order in which the scan found them.
    pub targets: Vec<FileTarget>,
}

/// What a [`FileBatch`] stands for.
pub struct FileBatchView {
    pub path: Seq<char>,
    pub targets: Seq<FileTargetView>,
}

impl View for FileBatch {
    type V = FileBatchView;

    open spec fn view(&self) -> FileBatchView {
        FileBatchView { path: self.path@, targets: target_views(self.targets@) }
    }
}

/// The views of `batches`, in order.
pub open spec fn batch_views(batches: Seq<FileBatch>) -> Seq<FileBatchView> {
    batches.map_values(|batch: FileBatch| batch@)
}

/// The test that picks the targets of the file at `path`.
pub open spec fn lies_in(path: Seq<char>) -> spec_fn(FileTargetView) -> bool {
    |target: FileTargetView| target.file.full_path == path
}

/// Whether one of `batches` is the batch of the file at `path`.
pub open spec fn has_batch(batches: Seq<FileBatchView>, path: Seq<char>) -> bool {
    exists|i: int| 0 <= i < batches.len() && (#[trigger] batches[i]).path == path
}

/// Whether `batches` divide `targets` by file: each batch holds exactly the
/// targets of its path, in their order; no batch is empty; no two batches
/// share a path; and every target has its batch.
pub open spec fn is_partition(batches: Seq<FileBatchView>, targets: Seq<FileTargetView>) -> bool {
    &&& forall|i: int|
        0 <= i < batches.len() ==> (#[trigger] batches[i]).targets == targets.filter(
            lies_in(batches[i].path),
        )
    &&& forall|i: int| 0 <= i < batches.len() ==> (#[trigger] batches[i]).targets.len() > 0
    &&& forall|i: int, j: int|
        0 <= i < j < batches.len() ==> (#[trigger] batches[i]).path != (#[trigger] batches[j]).path
    &&& forall|k: int|
        0 <= k < targets.len() ==> has_batch(batches, (#[trigger] targets[k]).file.full_path)
}

/// The index of the batch for `path` among `batches`, if there is one.
fn batch_index(batches: &Vec<FileBatch>, path: &String) -> (found: Option<usize>)
    ensures
        match found {
            Some(i) => i < batches.len() && batches@[i as int].path@ == path@,
            None => forall|i: int| 0 <= i < batches.len() ==> batches@[i].path@ != path@,
        },
{
    let mut i: usize = 0;
    while i < batches.len()
        invariant
            i <= batches.len(),
            forall|k: int| 0 <= k < i ==> batches@[k].path@ != path@,
        decreases batches.len() - i,
    {
        if batches[i].path == *path {
            return Some(i);
        }
        i += 1;
    }
    None
}

/// The targets among `targets` that lie in the file at `path`, in order.
fn targets_of(targets: &Vec<FileTarget>, path: &String) -> (chosen: Vec<FileTarget>)
    ensures
        target_views(chosen@) == target_views(targets@).filter(lies_in(path@)),
{
    let ghost all = target_views(targets@);
    let ghost test = lies_in(path@);
    let mut chosen: Vec<FileTarget> = Vec::new();
    let mut k: usize = 0;
    while k < targets.len()
        invariant
            k <= targets.len(),
            all == target_views(targets@),
            test == lies_in(path@),
            target_views(chosen@) == all.take(k as int).filter(test),
        decreases targets.len() - k,
    {
        proof {
            reveal(Seq::filter);
            assert(all.take(k + 1).drop_last() == all.take(k as int));
        }
        if targets[k].file.full_path == *path {
            chosen.push(targets[k].clone());
        }
        k += 1;
    }
    assert(all.take(targets@.len() as int) == all);
    chosen
}

/// Groups `targets` by the file they lie in.
pub fn partition_by_file(targets: &Vec<FileTarget>) -> (batches: Vec<FileBatch>)
    ensures
        is_partition(batch_views(batches@), target_views(targets@)),
{
    let ghost all = target_views(targets@);
    let mut batches: Vec<FileBatch> = Vec::new();
    let mut k: usize = 0;
    while k < targets.len()
        invariant
            k <= targets.len(),
            all == target_views(targets@),
            forall|i: int|
                0 <= i < batches.len() ==> (#[trigger] batch_views(batches@)[i]).targets
                    == all.filter(lies_in(batch_views(batches@)[i].path)),
            forall|i: int|
                0 <= i < batches.len() ==> (#[trigger] batch_views(batches@)[i]).targets.len() > 0,
            forall|i: int, j: int|
                0 <= i < j < batches.len() ==> (#[trigger] batch_views(batches@)[i]).path != (
                #[trigger] batch_views(batches@)[j]).path,
            forall|t: int|
                0 <= t < k ==> has_batch(batch_views(batches@), (#[trigger] all[t]).file.full_path),
        decreases targets.len() - k,
    {
        let path = &targets[k].file.full_path;
        let ghost before = batch_views(batches@);
        match batch_index(&batches, path) {
            Some(i) => {
                assert(before[i as int].path == path@);
            },
            None => {
                let chosen = targets_of(targets, path);
                proof {
                    all.lemma_filter_contains(lies_in(path@), k as int);
                }
                batches.push(FileBatch { path: path.clone(), targets: chosen });
                let ghost after = batch_views(batches@);
                assert(after == before.push(after[before.len() as int]));
                assert forall|t: int| 0 <= t < k + 1 implies has_batch(
                    after,
                    (#[trigger] all[t]).file.full_path,
                ) by {
                    if t < k {
                        let i = choose|i: int|
                            0 <= i < before.len() && (#[trigger] before[i]).path
                                == all[t].file.full_path;
                        assert(after[i].path == all[t].file.full_path);
                    }
                }
            },
        }
        k += 1;
    }
    batches
}

/// Plans a run: scans `files` for annotations and groups the targets found
/// by file. Each batch can then be worked on without regard to the others.
pub fn update(config: Config, files: &[FileInfo]) -> (batches: Vec<FileBatch>)
    ensures
        is_partition(
            batch_views(batches@),
            targets_in_files(file_views(files@), config@, files@.len() as int),
        ),
{
    let targets = find_cup_targets(files, &config);
    partition_by_file(&targets)
}

/// What became of one target.
#[derive(Debug, PartialEq, Eq)]
pub enum TargetOutcome {
    /// The line was rewritten to `version`.
    Updated { version: String },
    /// The registry gave no tag; `cause` says why.
    ResolveFailed { cause: String },
    /// The file no longer has a line at the row of the target.
    RowOutOfBounds,
    /// No syntax of the catalog applies to the line.
    NoPatternMatched,
}

/// What a [`TargetOutcome`] stands for.
pub enum OutcomeView {
    Updated { version: Seq<char> },
    ResolveFailed { cause: Seq<char> },
    RowOutOfBounds,
    NoPatternMatched,
}

impl View for TargetOutcome {
    type V = OutcomeView;

    open spec fn view(&self) -> OutcomeView {
        match self {
            TargetOutcome::Updated { version } => OutcomeView::Updated { version: version@ },
            TargetOutcome::ResolveFailed { cause } => OutcomeView::ResolveFailed { cause: cause@ },
            TargetOutcome::RowOutOfBounds => OutcomeView::RowOutOfBounds,
            TargetOutcome::NoPatternMatched => OutcomeView::NoPatternMatched,
        }
    }
}

/// What the registry answered: the latest tag, or the cause of the failure.
pub open spec fn answer_view(latest: Result<String, String>) -> Result<Seq<char>, Seq<char>> {
    match latest {
        Ok(tag) => Ok(tag@),
        Err(cause) => Err(cause@),
    }
}

/// The effect of one target on the lines of its file: the lines afterwards
/// and what became of the target.
///
/// A failed lookup ends the target. Otherwise the tag is cleaned, the row is
/// checked against the lines as they are now, and the line is rewritten
/// under the catalog. Only a rewritten line changes anything.
pub open spec fn applied(
    lines: Seq<Seq<char>>,
    row: int,
    latest: Result<Seq<char>, Seq<char>>,
) -> (Seq<Seq<char>>, OutcomeView) {
    match latest {
        Err(cause) => (lines, OutcomeView::ResolveFailed { cause }),
        Ok(tag) => {
            let version = cleaned_tag(tag);
            if row < 0 || row >= lines.len() {
                (lines, OutcomeView::RowOutOfBounds)
            } else {
                match first_rewrite(catalog(), lines[row], version, 0) {
                    Some(text) => (lines.update(row, text), OutcomeView::Updated { version }),
                    None => (lines, OutcomeView::NoPatternMatched),
                }
            }
        },
    }
}

/// Applies one target to the lines of its file: computes [`applied`].
pub fn apply_target(lines: &mut Vec<String>, target: &FileTarget, latest: &Result<String, String>)
    -> (outcome: TargetOutcome)
    ensures
        (texts(final(lines)@), outcome@) == applied(
            texts(old(lines)@),
            target.row as int,
            answer_view(*latest),
        ),
{
    let tag = match latest {
        Ok(tag) => tag.clone(),
        Err(cause) => {
            return TargetOutcome::ResolveFailed { cause: cause.clone() };
        },
    };
    let version = clean_tag(tag);
    if target.row < 0 || target.row >= lines.len() as i128 {
        return TargetOutcome::RowOutOfBounds;
    }
    let row: usize = target.row as usize;
    match try_replace_version_in_line(lines[row].as_str(), version.as_str()) {
        Some(text) => {
            lines.set(row, text);
            TargetOutcome::Updated { version }
        },
        None => TargetOutcome::NoPatternMatched,
    }
}

/// A target together with what the registry answered for it.
#[derive(Debug)]
pub struct ResolvedTarget {
    pub target: FileTarget,
    /// The latest tag, or the cause of the failure.
    pub latest: Result<String, String>,
}

/// What a [`ResolvedTarget`] asks of the lines: the row to rewrite and the
/// answer of the registry.
pub open spec fn request(job: ResolvedTarget) -> (int, Result<Seq<char>, Seq<char>>) {
    (job.target.row as int, answer_view(job.latest))
}

/// The requests of `jobs`, in order.
pub open spec fn requests(jobs: Seq<ResolvedTarget>) -> Seq<(int, Result<Seq<char>, Seq<char>>)> {
    jobs.map_values(|job: ResolvedTarget| request(job))
}

/// The lines of a file after the first `upto` of `requests` have been
/// applied to `lines`, one after the other.
pub open spec fn lines_after(
    lines: Seq<Seq<char>>,
    requests: Seq<(int, Result<Seq<char>, Seq<char>>)>,
    upto: int,
) -> Seq<Seq<char>>
    decreases upto,
{
    if upto <= 0 {
        lines
    } else {
        applied(
            lines_after(lines, requests, upto - 1),
            requests[upto - 1].0,
            requests[upto - 1].1,
        ).0
    }
}

/// What becomes of request `index` when `requests` are applied to `lines`,
/// one after the other.
pub open spec fn outcome_of(
    lines: Seq<Seq<char>>,
    requests: Seq<(int, Result<Seq<char>, Seq<char>>)>,
    index: int,
) -> OutcomeView {
    applied(lines_after(lines, requests, index), requests[index].0, requests[index].1).1
}

/// How many of the first `upto` of `requests` rewrite a line.
pub open spec fn updates(
    lines: Seq<Seq<char>>,
    requests: Seq<(int, Result<Seq<char>, Seq<char>>)>,
    upto: int,
) -> nat
    decreases upto,
{
    if upto <= 0 {
        0
    } else if outcome_of(lines, requests, upto - 1) is Updated {
        updates(lines, requests, upto - 1) + 1
    } else {
        updates(lines, requests, upto - 1)
    }
}

/// What became of the targets of one file.
#[derive(Debug)]
pub struct FileOutcome {
    /// What became of each target, in the order of the targets.
    pub outcomes: Vec<TargetOutcome>,
    /// How many lines were rewritten.
    pub updated_count: usize,
    /// The text to write back, if any line was rewritten. When none was, the
    /// file is to be left alone.
    pub new_content: Option<String>,
}

/// Applies the targets of one file to its text.
///
/// `content` is the text of the file as it is now, which may differ from
/// what the scan saw. The targets are applied in order, each to the lines as
/// the targets before it left them, and a target that fails changes nothing
/// and stops nothing. The new text is the lines joined by line feeds, and
/// there is one only if some line was rewritten.
pub fn process_file_targets(content: &str, jobs: &Vec<ResolvedTarget>) -> (outcome: FileOutcome)
    ensures
        outcome.outcomes@.len() == jobs@.len(),
        forall|k: int|
            0 <= k < jobs@.len() ==> (#[trigger] outcome.outcomes@[k])@ == outcome_of(
                lines(content@),
                requests(jobs@),
                k,
            ),
        outcome.updated_count == updates(lines(content@), requests(jobs@), jobs@.len() as int),
        match outcome.new_content {
            Some(text) => outcome.updated_count > 0 && text@ == joined(
                lines_after(lines(content@), requests(jobs@), jobs@.len() as int),
            ),
            None => outcome.updated_count == 0,
        },
{
    let mut current = split_lines(content);
    let ghost start = texts(current@);
    let ghost asked = requests(jobs@);
    let mut outcomes: Vec<TargetOutcome> = Vec::new();
    let mut updated_count: usize = 0;
    let mut k: usize = 0;
    while k < jobs.len()
        invariant
            k <= jobs.len(),
            start == lines(content@),
            asked == requests(jobs@),
            outcomes@.len() == k,
            updated_count <= k,
            texts(current@) == lines_after(start, asked, k as int),
            forall|j: int| 0 <= j < k ==> (#[trigger] outcomes@[j])@ == outcome_of(start, asked, j),
            updated_count == updates(start, asked, k as int),
        decreases jobs.len() - k,
    {
        let outcome = apply_target(&mut current, &jobs[k].target, &jobs[k].latest);
        match outcome {
            TargetOutcome::Updated { .. } => {
                updated_count += 1;
            },
            _ => {},
        }
        outcomes.push(outcome);
        k += 1;
    }
    let new_content = if updated_count > 0 {
        Some(join_lines(&current))
    } else {
        None
    };
    FileOutcome { outcomes, updated_count, new_content }
}

/// A target that is not reported as updated leaves every line as it was.
pub proof fn lemma_failed_target_changes_nothing(
    lines: Seq<Seq<char>>,
    row: int,
    latest: Result<Seq<char>, Seq<char>>,
)
    requires
        !(applied(lines, row, latest).1 is Updated),
    ensures
        applied(lines, row, latest).0 == lines,
{
}

/// A target whose row is no line of the file leaves every line as it was,
/// and where the registry gave a tag, it is reported as out of bounds.
pub proof fn lemma_stale_row_changes_nothing(
    lines: Seq<Seq<char>>,
    row: int,
    latest: Result<Seq<char>, Seq<char>>,
)
    requires
        row < 0 || row >= lines.len(),
    ensures
        applied(lines, row, latest).0 == lines,
        latest is Ok ==> applied(lines, row, latest).1 == OutcomeView::RowOutOfBounds,
{
}

/// An updated target changes the line at its row and no other.
pub proof fn lemma_target_changes_its_row_only(
    lines: Seq<Seq<char>>,
    row: int,
    latest: Result<Seq<char>, Seq<char>>,
)
    ensures
        applied(lines, row, latest).0.len() == lines.len(),
        forall|other: int|
            0 <= other < lines.len() && other != row ==> applied(lines, row, latest).0[other]
                == lines[other],
{
}

/// Two targets on different rows do not touch each other: what becomes of
/// the second does not depend on the first, and the lines end up the same
/// in either order.
pub proof fn lemma_targets_on_different_rows_commute(
    lines: Seq<Seq<char>>,
    first: (int, Result<Seq<char>, Seq<char>>),
    second: (int, Result<Seq<char>, Seq<char>>),
)
    requires
        first.0 != second.0,
    ensures
        applied(applied(lines, first.0, first.1).0, second.0, second.1).1 == applied(
            lines,
            second.0,
            second.1,
        ).1,
        applied(applied(lines, first.0, first.1).0, second.0, second.1).0 == applied(
            applied(lines, second.0, second.1).0,
            first.0,
            first.1,
        ).0,
{
    lemma_target_changes_its_row_only(lines, first.0, first.1);
    lemma_target_changes_its_row_only(lines, second.0, second.1);
}

/// Where no target is reported as updated, the lines stay as they were.
pub proof fn lemma_no_update_keeps_lines(
    lines: Seq<Seq<char>>,
    requests: Seq<(int, Result<Seq<char>, Seq<char>>)>,
    upto: int,
)
    requires
        updates(lines, requests, upto) == 0,
    ensures
        lines_after(lines, requests, upto) == lines,
    decreases upto,
{
    if upto > 0 {
        lemma_no_update_keeps_lines(lines, requests, upto - 1);
    }
}

/// Among the targets of a scan, those of one path are the targets of the
/// file at that path, in line order, provided no other scanned file has the
/// same path. With [`lemma_targets_in_line_order`] it follows that the
/// targets of a batch stand on different rows.
///
/// [`lemma_targets_in_line_order`]: crate::cup_parser::lemma_targets_in_line_order
pub proof fn lemma_batch_holds_targets_of_its_file(
    files: Seq<FileInfoView>,
    config: ConfigView,
    index: int,
)
    requires
        0 <= index < files.len(),
        forall|other: int|
            0 <= other < files.len() && other != index ==> (#[trigger] files[other]).full_path
                != files[index].full_path,
    ensures
        targets_in_files(files, config, files.len() as int).filter(
            lies_in(files[index].full_path),
        ) == targets_in_file(files[index], config),
{
    lemma_targets_of_path_upto(files, config, index, files.len() as int);
}

/// The step of [`lemma_batch_holds_targets_of_its_file`]: the same for the
/// first `upto` files, which hold the file or do not hold it yet.
proof fn lemma_targets_of_path_upto(
    files: Seq<FileInfoView>,
    config: ConfigView,
    index: int,
    upto: int,
)
    requires
        0 <= index < files.len(),
        0 <= upto <= files.len(),
        forall|other: int|
            0 <= other < files.len() && other != index ==> (#[trigger] files[other]).full_path
                != files[index].full_path,
    ensures
        targets_in_files(files, config, upto).filter(lies_in(files[index].full_path)) == if index
            < upto {
            targets_in_file(files[index], config)
        } else {
            Seq::empty()
        },
    decreases upto,
{
    let test = lies_in(files[index].full_path);
    if upto > 0 {
        let before = targets_in_files(files, config, upto - 1);
        let file = files[upto - 1];
        let found = targets_in_file(file, config);
        lemma_targets_of_path_upto(files, config, index, upto - 1);
        Seq::filter_distributes_over_add(before, found, test);
        crate::cup_parser::lemma_targets_in_line_order(
            file,
            lines(file.content),
            config,
            lines(file.content).len() as int,
        );
        if upto - 1 == index {
            lemma_filter_keeps_all(found, test);
        } else {
            found.lemma_all_neg_filter_empty(test);
        }
    } else {
        Seq::<FileTargetView>::empty().lemma_filter_len(test);
    }
}

/// A filter whose test holds of every item keeps the sequence as it is.
proof fn lemma_filter_keeps_all(items: Seq<FileTargetView>, test: spec_fn(FileTargetView) -> bool)
    requires
        forall|k: int| 0 <= k < items.len() ==> test(#[trigger] items[k]),
    ensures
        items.filter(test) == items,
    decreases items.len(),
{
    reveal(Seq::filter);
    if items.len() > 0 {
        lemma_filter_keeps_all(items.drop_last(), test);
    }
}

} // verus!
