//! The annotation parser: reads the marker comment of a line and tells which
//! registry entry the line follows.
//!
//! After the first occurrence of the marker, an annotation reads
//! `[GitHub] <identifier> [anything]`: an optional keyword that names the
//! remote type, then the identifier, which is the first run of characters
//! that holds no whitespace. What follows the identifier is ignored.

use vstd::prelude::*;
use crate::decimal::{decimal, push_successor};
use crate::file_finder::{FileInfo, FileInfoView};
use crate::init::{Config, ConfigView, Remote, Tag, TagView, Target, TargetView};
use crate::lines::{lines, split_lines, texts};
use crate::text::{
    chars_of,
    copy_range,
    find,
    find_first,
    first_token,
    first_token_of,
    is_whitespace,
    lemma_skip_space,
    lemma_skip_token,
    occurs_at_index,
    starts_with,
    string_of,
    trim,
    trim_chars,
};

verus! {

/// The marker that opens an annotation unless the configuration names
/// another.
pub const CUP_COMMENT: &'static str = "[cup]";

/// One annotation, bound to the line that carries it.
#[derive(Debug, PartialEq, Eq)]
pub struct FileTarget {
    /// The file that holds the line.
    pub file: FileInfo,
    /// The index of the line in the file, counted from zero.
    pub row: i128,
    /// What the annotation asks for.
    pub extracted_config: Target,
}

/// What a [`FileTarget`] stands for.
pub struct FileTargetView {
    pub file: FileInfoView,
    pub row: int,
    pub extracted_config: TargetView,
}

impl View for FileTarget {
    type V = FileTargetView;

    open spec fn view(&self) -> FileTargetView {
        FileTargetView {
            file: self.file@,
            row: self.row as int,
            extracted_config: self.extracted_config@,
        }
    }
}

impl Clone for FileTarget {
    fn clone(&self) -> (copy: FileTarget)
        ensures
            copy == *self,
    {
        FileTarget {
            file: self.file.clone(),
            row: self.row,
            extracted_config: self.extracted_config.clone(),
        }
    }
}

/// The views of `targets`, in order.
pub open spec fn target_views(targets: Seq<FileTarget>) -> Seq<FileTargetView> {
    targets.map_values(|target: FileTarget| target@)
}

/// The views of `files`, in order.
pub open spec fn file_views(files: Seq<FileInfo>) -> Seq<FileInfoView> {
    files.map_values(|file: FileInfo| file@)
}

/// The text of the annotation on `line`: what follows the first occurrence
/// of `marker`, without the whitespace around it. There is none when the
/// marker does not occur.
pub open spec fn annotation_text(line: Seq<char>, marker: Seq<char>) -> Option<Seq<char>> {
    match find(line, marker) {
        Some(at) => Some(trim(line.skip(at + marker.len()))),
        None => None,
    }
}

/// Whether the annotation text `text` names its remote type.
pub open spec fn names_remote(text: Seq<char>) -> bool {
    starts_with(text, Remote::GitHub.spec_keyword())
}

/// The part of the annotation text `text` that begins with the identifier:
/// what follows the keyword, trimmed, when the text names its remote type,
/// and the text itself otherwise.
pub open spec fn identifier_part(text: Seq<char>) -> Seq<char> {
    if names_remote(text) {
        trim(text.skip(Remote::GitHub.spec_keyword().len() as int))
    } else {
        text
    }
}

/// The identifier that the annotation on `line` names, if the line carries
/// an annotation that names one.
pub open spec fn annotation_identifier(line: Seq<char>, marker: Seq<char>) -> Option<Seq<char>> {
    match annotation_text(line, marker) {
        Some(text) => first_token(identifier_part(text)),
        None => None,
    }
}

/// The remote type of the annotation text `text`: the one it names, or else
/// the one that the configured default selects.
pub open spec fn annotation_remote(text: Seq<char>, remote_default: Seq<char>) -> Remote {
    if names_remote(text) {
        Remote::GitHub
    } else {
        Remote::spec_from_name(remote_default)
    }
}

/// The target that line `row` of `file` yields, if the line carries an
/// annotation that names an identifier.
pub open spec fn parsed_target(file: FileInfoView, line: Seq<char>, row: int, config: ConfigView)
    -> Option<FileTargetView> {
    match annotation_identifier(line, config.cup_pattern) {
        Some(identifier) => Some(
            FileTargetView {
                file,
                row,
                extracted_config: TargetView {
                    name: file.full_path + seq![':'] + decimal(row + 1),
                    tag: TagView {
                        remote_tag: identifier,
                        remote_type: annotation_remote(
                            annotation_text(line, config.cup_pattern).unwrap(),
                            config.remote_default,
                        ),
                    },
                },
            },
        ),
        None => None,
    }
}

/// Parses the annotation on one line.
///
/// Returns the target that the line yields, or nothing when the line does
/// not hold the marker, when only whitespace follows the marker, or when
/// nothing follows the keyword.
pub fn parse_cup_line(file_info: &FileInfo, line: &str, row: i128, config: &Config) -> (parsed:
    Option<FileTarget>)
    ensures
        match parsed {
            Some(target) => {
                &&& parsed_target(file_info@, line@, row as int, config@) == Some(target@)
                &&& target.file == *file_info
            },
            None => parsed_target(file_info@, line@, row as int, config@) is None,
        },
{
    let chars = chars_of(line);
    let marker = chars_of(config.cup_pattern.as_str());
    let at = match find_first(&chars, &marker) {
        Some(at) => at,
        None => {
            return None;
        },
    };
    let after = copy_range(&chars, at + marker.len(), chars.len());
    let text = trim_chars(&after);
    let keyword = chars_of(Remote::GitHub.keyword());
    let named = occurs_at_index(&text, &keyword, 0);
    let (remote_type, token) = if named {
        let rest = copy_range(&text, keyword.len(), text.len());
        let rest = trim_chars(&rest);
        (Remote::GitHub, first_token_of(&rest))
    } else {
        (Remote::from_name(config.remote_default.as_str()), first_token_of(&text))
    };
    let identifier = match token {
        Some(identifier) => identifier,
        None => {
            return None;
        },
    };
    let mut name = file_info.full_path.clone();
    name.push(':');
    push_successor(&mut name, row);
    assert(name@ == file_info@.full_path + seq![':'] + decimal(row + 1));
    let target = Target {
        name,
        tag: Tag { remote_tag: string_of(&identifier, 0, identifier.len()), remote_type },
    };
    assert(identifier@.subrange(0, identifier@.len() as int) == identifier@);
    Some(FileTarget { file: file_info.clone(), row, extracted_config: target })
}

/// The targets that the first `upto` of `lines` yield, in line order, when
/// `lines` are the lines of `file`.
pub open spec fn targets_in_lines(
    file: FileInfoView,
    lines: Seq<Seq<char>>,
    config: ConfigView,
    upto: int,
) -> Seq<FileTargetView>
    decreases upto,
{
    if upto <= 0 {
        Seq::empty()
    } else {
        let before = targets_in_lines(file, lines, config, upto - 1);
        match parsed_target(file, lines[upto - 1], upto - 1, config) {
            Some(target) => before.push(target),
            None => before,
        }
    }
}

/// The targets that `file` yields, in line order.
pub open spec fn targets_in_file(file: FileInfoView, config: ConfigView) -> Seq<FileTargetView> {
    targets_in_lines(file, lines(file.content), config, lines(file.content).len() as int)
}

/// The targets that the first `upto` of `files` yield: file after file, and
/// within a file line after line.
pub open spec fn targets_in_files(files: Seq<FileInfoView>, config: ConfigView, upto: int) -> Seq<
    FileTargetView,
>
    decreases upto,
{
    if upto <= 0 {
        Seq::empty()
    } else {
        targets_in_files(files, config, upto - 1) + targets_in_file(files[upto - 1], config)
    }
}

/// Scans every line of every file for an annotation and returns the targets
/// found, file after file and line after line.
pub fn find_cup_targets(files: &[FileInfo], config: &Config) -> (targets: Vec<FileTarget>)
    ensures
        target_views(targets@) == targets_in_files(file_views(files@), config@, files@.len() as int),
{
    let mut targets: Vec<FileTarget> = Vec::new();
    let mut f: usize = 0;
    while f < files.len()
        invariant
            f <= files.len(),
            target_views(targets@) == targets_in_files(file_views(files@), config@, f as int),
        decreases files.len() - f,
    {
        let file_info = &files[f];
        let split = split_lines(file_info.content.as_str());
        let ghost before = target_views(targets@);
        let ghost all = texts(split@);
        let mut row: usize = 0;
        while row < split.len()
            invariant
                row <= split.len(),
                all == texts(split@),
                all == lines(file_info@.content),
                target_views(targets@) == before + targets_in_lines(
                    file_info@,
                    all,
                    config@,
                    row as int,
                ),
            decreases split.len() - row,
        {
            let ghost found = target_views(targets@);
            match parse_cup_line(file_info, split[row].as_str(), row as i128, config) {
                Some(target) => {
                    targets.push(target);
                    assert(target_views(targets@) == found.push(target@));
                },
                None => {},
            }
            row += 1;
        }
        f += 1;
    }
    targets
}

/// An annotation whose marker is followed by nothing but whitespace yields
/// no target.
pub proof fn lemma_blank_annotation_yields_nothing(
    file: FileInfoView,
    line: Seq<char>,
    row: int,
    config: ConfigView,
)
    requires
        find(line, config.cup_pattern) matches Some(at) && forall|k: int|
            at + config.cup_pattern.len() <= k < line.len() ==> is_whitespace(#[trigger] line[k]),
    ensures
        parsed_target(file, line, row, config) is None,
{
    let at = find(line, config.cup_pattern).unwrap();
    crate::text::lemma_find_from(line, config.cup_pattern, 0);
    let after = line.skip(at + config.cup_pattern.len());
    assert(forall|j: int| 0 <= j < after.len() ==> is_whitespace(#[trigger] after[j]));
    lemma_skip_space(after, 0);
    crate::text::lemma_drop_trailing_space(after, after.len() as int);
    let text = annotation_text(line, config.cup_pattern).unwrap();
    if names_remote(text) {
        let rest = text.skip(Remote::GitHub.spec_keyword().len() as int);
        lemma_skip_space(rest, 0);
    }
    lemma_skip_space(identifier_part(text), 0);
}

/// An annotation that holds more than whitespace after its marker and its
/// optional keyword yields a target, and the identifier of that target is
/// the first whitespace-delimited token after the keyword: it is not empty,
/// holds no whitespace, stands at the start of what follows the keyword, and
/// is followed there by whitespace or by nothing.
pub proof fn lemma_annotation_names_first_token(
    file: FileInfoView,
    line: Seq<char>,
    row: int,
    config: ConfigView,
)
    requires
        annotation_text(line, config.cup_pattern) matches Some(text) && identifier_part(text).len()
            > 0,
    ensures
        parsed_target(file, line, row, config) matches Some(target) && ({
            let part = identifier_part(annotation_text(line, config.cup_pattern).unwrap());
            let identifier = target.extracted_config.tag.remote_tag;
            &&& identifier.len() > 0
            &&& forall|k: int| 0 <= k < identifier.len() ==> !is_whitespace(#[trigger] identifier[k])
            &&& starts_with(part, identifier)
            &&& part.len() == identifier.len() || is_whitespace(part[identifier.len() as int])
        }),
{
    let text = annotation_text(line, config.cup_pattern).unwrap();
    let part = identifier_part(text);
    let at = find(line, config.cup_pattern).unwrap();
    crate::text::lemma_find_from(line, config.cup_pattern, 0);
    let source = if names_remote(text) {
        text.skip(Remote::GitHub.spec_keyword().len() as int)
    } else {
        line.skip(at + config.cup_pattern.len())
    };
    lemma_trimmed_starts_with_text(source);
    lemma_skip_space(part, 0);
    lemma_skip_token(part, 0);
}

/// A trimmed text that is not empty begins with a character that is not
/// whitespace.
proof fn lemma_trimmed_starts_with_text(s: Seq<char>)
    requires
        trim(s).len() > 0,
    ensures
        !is_whitespace(trim(s)[0]),
{
    lemma_skip_space(s, 0);
    crate::text::lemma_drop_trailing_space(s, s.len() as int);
}

/// The targets of a file come in line order: each stands on a line of the
/// file, names the file, and stands on a later line than the target before
/// it. So no two targets of a file share a row.
pub proof fn lemma_targets_in_line_order(
    file: FileInfoView,
    lines: Seq<Seq<char>>,
    config: ConfigView,
    upto: int,
)
    ensures
        forall|k: int|
            0 <= k < targets_in_lines(file, lines, config, upto).len() ==> {
                let target = #[trigger] targets_in_lines(file, lines, config, upto)[k];
                0 <= target.row < upto && target.file == file
            },
        forall|i: int, j: int|
            0 <= i < j < targets_in_lines(file, lines, config, upto).len() ==> (
            #[trigger] targets_in_lines(file, lines, config, upto)[i]).row < (
            #[trigger] targets_in_lines(file, lines, config, upto)[j]).row,
    decreases upto,
{
    if upto > 0 {
        lemma_targets_in_line_order(file, lines, config, upto - 1);
    }
}

} // verus!
