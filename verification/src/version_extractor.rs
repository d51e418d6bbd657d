//! The version literal engine: finds the version literal on an annotated
//! line and rewrites it, leaving every other character of the line as it was.

use vstd::prelude::*;
use crate::offsets::{char_index, char_index_of};
use crate::regex_search::{find_captures, regex_captures};
use crate::text::{chars_of, string_of};

verus! {

/// Which capture groups of a pattern surround the version literal.
///
/// Group 1 always holds the text before the literal. The groups after the
/// literal differ from pattern to pattern.
#[derive(Clone, Copy, Debug, PartialEq, Eq)]
pub enum ReplacementFormat {
    /// Group 3 holds the trailing comment; the literal is bare.
    Simple,
    /// Group 4 holds the closing delimiter and group 5 the trailing comment.
    Extended,
    /// Group 3 holds the closing delimiter and group 4 the trailing comment.
    Quoted,
}

/// The character range `(start, end)` of `line` that capture group `group` of
/// the match `found` covers.
///
/// There is none when the group took no part in the match, or when its byte
/// span does not lie on character boundaries of `line` in ascending order.
pub open spec fn group_range(line: Seq<char>, found: Seq<Option<(usize, usize)>>, group: int)
    -> Option<(int, int)> {
    if 0 <= group < found.len() && found[group] is Some {
        let span = found[group].unwrap();
        match (char_index(line, span.0 as int), char_index(line, span.1 as int)) {
            (Some(start), Some(end)) => if start <= end {
                Some((start, end))
            } else {
                None
            },
            _ => None,
        }
    } else {
        None
    }
}

/// The text of `line` that capture group `group` of the match `found`
/// covers, where [`group_range`] gives a range.
pub open spec fn group_text(line: Seq<char>, found: Seq<Option<(usize, usize)>>, group: int)
    -> Option<Seq<char>> {
    match group_range(line, found, group) {
        Some((start, end)) => Some(line.subrange(start, end)),
        None => None,
    }
}

/// The character ranges of the three parts of the match `found` that stay:
/// the text before the literal, the closing delimiter after it (empty for
/// [`ReplacementFormat::Simple`]) and the trailing comment.
pub open spec fn kept_parts(
    line: Seq<char>,
    found: Seq<Option<(usize, usize)>>,
    format: ReplacementFormat,
) -> Option<((int, int), (int, int), (int, int))> {
    let (closing, comment) = match format {
        ReplacementFormat::Simple => (
            match group_range(line, found, 3) {
                Some(comment) => Some((comment.0, comment.0)),
                None => None,
            },
            group_range(line, found, 3),
        ),
        ReplacementFormat::Extended => (group_range(line, found, 4), group_range(line, found, 5)),
        ReplacementFormat::Quoted => (group_range(line, found, 3), group_range(line, found, 4)),
    };
    match (group_range(line, found, 1), closing, comment) {
        (Some(prefix), Some(closing), Some(comment)) => Some((prefix, closing, comment)),
        _ => None,
    }
}

/// What takes the place of one match: the text before the literal, the new
/// value, the closing delimiter and the trailing comment.
pub open spec fn render(
    line: Seq<char>,
    found: Seq<Option<(usize, usize)>>,
    format: ReplacementFormat,
    new_version: Seq<char>,
) -> Option<Seq<char>> {
    match kept_parts(line, found, format) {
        Some((prefix, closing, comment)) => Some(
            line.subrange(prefix.0, prefix.1) + new_version + line.subrange(closing.0, closing.1)
                + line.subrange(comment.0, comment.1),
        ),
        None => None,
    }
}

/// `line[from..]` with each of `matches[next..]` replaced by its rendering.
///
/// There is no result when a match cannot be rendered, or when the matches
/// do not follow each other from `from` on without overlap.
pub open spec fn rewrite_from(
    line: Seq<char>,
    matches: Seq<Seq<Option<(usize, usize)>>>,
    format: ReplacementFormat,
    new_version: Seq<char>,
    next: int,
    from: int,
) -> Option<Seq<char>>
    decreases matches.len() - next,
{
    if next < 0 || from < 0 || from > line.len() {
        None
    } else if next >= matches.len() {
        Some(line.subrange(from, line.len() as int))
    } else {
        match (
            group_range(line, matches[next], 0),
            render(line, matches[next], format, new_version),
        ) {
            (Some((start, end)), Some(rendered)) => if from <= start {
                match rewrite_from(line, matches, format, new_version, next + 1, end) {
                    Some(rest) => Some(line.subrange(from, start) + rendered + rest),
                    None => None,
                }
            } else {
                None
            },
            _ => None,
        }
    }
}

/// `line` with every one of `matches` replaced by its rendering, all with
/// the same new value. There is no result when there is no match at all.
pub open spec fn rewrite(
    line: Seq<char>,
    matches: Seq<Seq<Option<(usize, usize)>>>,
    format: ReplacementFormat,
    new_version: Seq<char>,
) -> Option<Seq<char>> {
    if matches.len() == 0 {
        None
    } else {
        rewrite_from(line, matches, format, new_version, 0, 0)
    }
}

/// The character range of the literal inside the match `found`, where the
/// parts that stay and the literal between them make up the whole match:
/// the text before the literal starts the match, the closing delimiter
/// follows the literal, and the trailing comment ends the match.
pub open spec fn literal_range(
    line: Seq<char>,
    found: Seq<Option<(usize, usize)>>,
    format: ReplacementFormat,
) -> Option<(int, int)> {
    match (group_range(line, found, 0), kept_parts(line, found, format)) {
        (Some(whole), Some((prefix, closing, comment))) => if prefix.0 == whole.0 && prefix.1
            <= closing.0 && closing.1 == comment.0 && comment.1 == whole.1 {
            Some((prefix.1, closing.0))
        } else {
            None
        },
        _ => None,
    }
}

/// Whether every one of `matches` is made up of its kept parts and a literal
/// that reads `value`.
pub open spec fn literals_read(
    line: Seq<char>,
    matches: Seq<Seq<Option<(usize, usize)>>>,
    format: ReplacementFormat,
    value: Seq<char>,
) -> bool {
    forall|k: int|
        0 <= k < matches.len() ==> match literal_range(line, #[trigger] matches[k], format) {
            Some((start, end)) => line.subrange(start, end) == value,
            None => false,
        }
}

/// Rewriting a line to the value that its literals already hold gives the
/// line back, character for character.
pub proof fn lemma_same_value_keeps_line(
    line: Seq<char>,
    matches: Seq<Seq<Option<(usize, usize)>>>,
    format: ReplacementFormat,
    value: Seq<char>,
)
    requires
        rewrite(line, matches, format, value) is Some,
        literals_read(line, matches, format, value),
    ensures
        rewrite(line, matches, format, value) == Some(line),
{
    lemma_same_value_keeps_rest(line, matches, format, value, 0, 0);
}

/// The step of [`lemma_same_value_keeps_line`]: from any match on, the
/// rewritten rest of the line is the rest of the line.
proof fn lemma_same_value_keeps_rest(
    line: Seq<char>,
    matches: Seq<Seq<Option<(usize, usize)>>>,
    format: ReplacementFormat,
    value: Seq<char>,
    next: int,
    from: int,
)
    requires
        0 <= next,
        rewrite_from(line, matches, format, value, next, from) is Some,
        literals_read(line, matches, format, value),
    ensures
        rewrite_from(line, matches, format, value, next, from) == Some(
            line.subrange(from, line.len() as int),
        ),
    decreases matches.len() - next,
{
    if next < matches.len() {
        let found = matches[next];
        let whole = group_range(line, found, 0).unwrap();
        lemma_same_value_keeps_rest(line, matches, format, value, next + 1, whole.1);
    }
}

/// Computes [`group_range`].
fn group_range_of(line: &Vec<char>, found: &Vec<Option<(usize, usize)>>, group: usize) -> (range:
    Option<(usize, usize)>)
    ensures
        match range {
            Some((start, end)) => group_range(line@, found.deep_view(), group as int) == Some(
                (start as int, end as int),
            ) && start <= end <= line.len(),
            None => group_range(line@, found.deep_view(), group as int) is None,
        },
{
    if group >= found.len() {
        return None;
    }
    match found[group] {
        Some((start_byte, end_byte)) => {
            match (char_index_of(line, start_byte), char_index_of(line, end_byte)) {
                (Some(start), Some(end)) => if start <= end {
                    Some((start, end))
                } else {
                    None
                },
                _ => None,
            }
        },
        None => None,
    }
}

/// Appends `line[start..end]` to `out`.
fn push_range(out: &mut Vec<char>, line: &Vec<char>, start: usize, end: usize)
    requires
        start <= end <= line.len(),
    ensures
        final(out)@ == old(out)@ + line@.subrange(start as int, end as int),
{
    let mut i: usize = start;
    while i < end
        invariant
            start <= i <= end <= line.len(),
            out@ == old(out)@ + line@.subrange(start as int, i as int),
        decreases end - i,
    {
        out.push(line[i]);
        i += 1;
    }
}

/// Computes [`kept_parts`].
fn kept_parts_of(
    line: &Vec<char>,
    found: &Vec<Option<(usize, usize)>>,
    format: ReplacementFormat,
) -> (parts: Option<((usize, usize), (usize, usize), (usize, usize))>)
    ensures
        match parts {
            Some((prefix, closing, comment)) => {
                &&& kept_parts(line@, found.deep_view(), format) == Some(
                    (
                        (prefix.0 as int, prefix.1 as int),
                        (closing.0 as int, closing.1 as int),
                        (comment.0 as int, comment.1 as int),
                    ),
                )
                &&& prefix.0 <= prefix.1 <= line.len()
                &&& closing.0 <= closing.1 <= line.len()
                &&& comment.0 <= comment.1 <= line.len()
            },
            None => kept_parts(line@, found.deep_view(), format) is None,
        },
{
    let prefix = group_range_of(line, found, 1);
    let (closing, comment) = match format {
        ReplacementFormat::Simple => {
            let comment = group_range_of(line, found, 3);
            match comment {
                Some(range) => (Some((range.0, range.0)), comment),
                None => (None, comment),
            }
        },
        ReplacementFormat::Extended => (
            group_range_of(line, found, 4),
            group_range_of(line, found, 5),
        ),
        ReplacementFormat::Quoted => (
            group_range_of(line, found, 3),
            group_range_of(line, found, 4),
        ),
    };
    match (prefix, closing, comment) {
        (Some(prefix), Some(closing), Some(comment)) => Some((prefix, closing, comment)),
        _ => None,
    }
}

/// Computes [`render`].
fn render_match(
    line: &Vec<char>,
    found: &Vec<Option<(usize, usize)>>,
    format: ReplacementFormat,
    new_version: &Vec<char>,
) -> (rendered: Option<Vec<char>>)
    ensures
        match rendered {
            Some(text) => render(line@, found.deep_view(), format, new_version@) == Some(text@),
            None => render(line@, found.deep_view(), format, new_version@) is None,
        },
{
    match kept_parts_of(line, found, format) {
        Some((prefix, closing, comment)) => {
            let mut text: Vec<char> = Vec::new();
            push_range(&mut text, line, prefix.0, prefix.1);
            push_range(&mut text, new_version, 0, new_version.len());
            push_range(&mut text, line, closing.0, closing.1);
            push_range(&mut text, line, comment.0, comment.1);
            Some(text)
        },
        None => None,
    }
}

/// Replaces every match of one pattern on `line` with its rendering, all
/// with the same `new_version`.
///
/// `matches` is what a search found on `line`: per match, per capture group,
/// the byte span the group covered. The result is the rewritten line, or
/// nothing when `matches` is empty or does not fit `line`.
pub fn replace_matches(
    line: &str,
    matches: &Vec<Vec<Option<(usize, usize)>>>,
    format: ReplacementFormat,
    new_version: &str,
) -> (replaced: Option<String>)
    ensures
        match replaced {
            Some(text) => rewrite(line@, matches.deep_view(), format, new_version@) == Some(text@),
            None => rewrite(line@, matches.deep_view(), format, new_version@) is None,
        },
{
    if matches.len() == 0 {
        return None;
    }
    let chars = chars_of(line);
    let value = chars_of(new_version);
    let ghost all = matches.deep_view();
    let mut out: Vec<char> = Vec::new();
    let mut from: usize = 0;
    let mut next: usize = 0;
    while next < matches.len()
        invariant
            next <= matches.len(),
            from <= chars.len(),
            all == matches.deep_view(),
            chars@ == line@,
            value@ == new_version@,
            rewrite(line@, all, format, new_version@) == match rewrite_from(
                line@,
                all,
                format,
                new_version@,
                next as int,
                from as int,
            ) {
                Some(rest) => Some(out@ + rest),
                None => None,
            },
        decreases matches.len() - next,
    {
        let found = &matches[next];
        let whole = group_range_of(&chars, found, 0);
        let rendered = render_match(&chars, found, format, &value);
        match (whole, rendered) {
            (Some((start, end)), Some(text)) => {
                if from > start {
                    return None;
                }
                push_range(&mut out, &chars, from, start);
                push_range(&mut out, &text, 0, text.len());
                from = end;
                next += 1;
            },
            _ => {
                return None;
            },
        }
    }
    push_range(&mut out, &chars, from, chars.len());
    Some(string_of(&out, 0, out.len()))
}

/// One syntax in which a version literal may stand on a line.
#[derive(Debug, PartialEq, Eq)]
pub struct VersionPattern {
    /// The regular expression of the syntax. Group 1 is the text up to the
    /// literal, group 2 or 3 the literal, the last group the trailing
    /// comment.
    pub replace_regex: String,
    /// Which groups follow the literal.
    pub replacement_format: ReplacementFormat,
}

impl View for VersionPattern {
    type V = (Seq<char>, ReplacementFormat);

    open spec fn view(&self) -> (Seq<char>, ReplacementFormat) {
        (self.replace_regex@, self.replacement_format)
    }
}

impl VersionPattern {
    /// A pattern with the regular expression `source`.
    pub fn new(source: &str, format: ReplacementFormat) -> (pattern: VersionPattern)
        ensures
            pattern@ == (source@, format),
    {
        VersionPattern { replace_regex: source.to_owned(), replacement_format: format }
    }
}

/// The views of `patterns`, in order.
pub open spec fn pattern_views(patterns: Seq<VersionPattern>) -> Seq<
    (Seq<char>, ReplacementFormat),
> {
    patterns.map_values(|pattern: VersionPattern| pattern@)
}

/// The supported syntaxes, in the order in which they are tried. The order
/// matters: the first syntax that applies to a line wins.
pub open spec fn catalog() -> Seq<(Seq<char>, ReplacementFormat)> {
    seq![
        // `name = 1.2.3 // comment`
        (r"(\w+\s*=\s*)([a-zA-Z0-9][a-zA-Z0-9\.\-_]*)(\s*(?://|#).*)"@, ReplacementFormat::Simple),
        // `name := 1.2.3 // comment`
        (r"(\w+\s*:=\s*)([0-9]*\.?[0-9]+(?:\.[0-9]+)*)(\s*(?://|#).*)"@, ReplacementFormat::Simple),
        // `name: 1.2.3 // comment`
        (r"(\w+:\s*)([0-9]*\.?[0-9]+(?:\.[0-9]+)*)(\s*(?://|#).*)"@, ReplacementFormat::Simple),
        // `"name:1.2.3" // comment`
        (r#"("(\w+):)([0-9]*\.?[0-9]+(?:\.[0-9]+)*)(")(\s*(?://|#).*)"#@, ReplacementFormat::Extended),
        // `"name": "1.2.3" // comment`
        (r#"("(\w+)":\s*")([0-9]*\.?[0-9]+(?:\.[0-9]+)*)(")(\s*(?://|#).*)"#@, ReplacementFormat::Extended),
        // `name = '1.2.3' // comment`
        (r"(\w+\s*=\s*')([0-9]*\.?[0-9]+(?:\.[0-9]+)*)(')(\s*(?://|#).*)"@, ReplacementFormat::Quoted),
        // `name := '1.2.3' // comment`
        (r"(\w+\s*:=\s*')([0-9]*\.?[0-9]+(?:\.[0-9]+)*)(')(\s*(?://|#).*)"@, ReplacementFormat::Quoted),
        // `name: '1.2.3' // comment`
        (r"(\w+:\s*')([0-9]*\.?[0-9]+(?:\.[0-9]+)*)(')(\s*(?://|#).*)"@, ReplacementFormat::Quoted),
        // `'name:1.2.3' // comment`
        (r"('(\w+):)([0-9]*\.?[0-9]+(?:\.[0-9]+)*)(')(\s*(?://|#).*)"@, ReplacementFormat::Extended),
        // `'name': '1.2.3' // comment`
        (r"('(\w+)':\s*')([0-9]*\.?[0-9]+(?:\.[0-9]+)*)(')(\s*(?://|#).*)"@, ReplacementFormat::Extended),
        // `name = "1.2.3" // comment`
        (r#"(\w+\s*=\s*")([0-9]*\.?[0-9]+(?:\.[0-9]+)*)(")(\s*(?://|#).*)"#@, ReplacementFormat::Quoted),
        // `name := "1.2.3" // comment`
        (r#"(\w+\s*:=\s*")([0-9]*\.?[0-9]+(?:\.[0-9]+)*)(")(\s*(?://|#).*)"#@, ReplacementFormat::Quoted),
        // `name: "1.2.3" // comment`
        (r#"(\w+:\s*")([0-9]*\.?[0-9]+(?:\.[0-9]+)*)(")(\s*(?://|#).*)"#@, ReplacementFormat::Quoted),
        // `"name-with-dashes" = "1.2.3" // comment`
        (r#"("[\w-]+"\s*=\s*")([0-9]*\.?[0-9]+(?:\.[0-9]+)*)(")(\s*(?://|#).*)"#@, ReplacementFormat::Quoted),
        // `name = "rc-1.2.3" // comment`
        (r#"(\w+\s*=\s*")([a-zA-Z][\w\-\.]*[0-9]+(?:\.[0-9]+)*)(")(\s*(?://|#).*)"#@, ReplacementFormat::Quoted),
        // `name := "rc-1.2.3" // comment`
        (r#"(\w+\s*:=\s*")([a-zA-Z][\w\-\.]*[0-9]+(?:\.[0-9]+)*)(")(\s*(?://|#).*)"#@, ReplacementFormat::Quoted),
        // `name: "rc-1.2.3" // comment`
        (r#"(\w+:\s*")([a-zA-Z][\w\-\.]*[0-9]+(?:\.[0-9]+)*)(")(\s*(?://|#).*)"#@, ReplacementFormat::Quoted),
    ]
}

/// Builds the [`catalog`].
pub fn version_patterns() -> (patterns: Vec<VersionPattern>)
    ensures
        pattern_views(patterns@) == catalog(),
{
    let mut patterns: Vec<VersionPattern> = Vec::new();
    patterns.push(VersionPattern::new(r"(\w+\s*=\s*)([a-zA-Z0-9][a-zA-Z0-9\.\-_]*)(\s*(?://|#).*)", ReplacementFormat::Simple));
    patterns.push(VersionPattern::new(r"(\w+\s*:=\s*)([0-9]*\.?[0-9]+(?:\.[0-9]+)*)(\s*(?://|#).*)", ReplacementFormat::Simple));
    patterns.push(VersionPattern::new(r"(\w+:\s*)([0-9]*\.?[0-9]+(?:\.[0-9]+)*)(\s*(?://|#).*)", ReplacementFormat::Simple));
    patterns.push(VersionPattern::new(r#"("(\w+):)([0-9]*\.?[0-9]+(?:\.[0-9]+)*)(")(\s*(?://|#).*)"#, ReplacementFormat::Extended));
    patterns.push(VersionPattern::new(r#"("(\w+)":\s*")([0-9]*\.?[0-9]+(?:\.[0-9]+)*)(")(\s*(?://|#).*)"#, ReplacementFormat::Extended));
    patterns.push(VersionPattern::new(r"(\w+\s*=\s*')([0-9]*\.?[0-9]+(?:\.[0-9]+)*)(')(\s*(?://|#).*)", ReplacementFormat::Quoted));
    patterns.push(VersionPattern::new(r"(\w+\s*:=\s*')([0-9]*\.?[0-9]+(?:\.[0-9]+)*)(')(\s*(?://|#).*)", ReplacementFormat::Quoted));
    patterns.push(VersionPattern::new(r"(\w+:\s*')([0-9]*\.?[0-9]+(?:\.[0-9]+)*)(')(\s*(?://|#).*)", ReplacementFormat::Quoted));
    patterns.push(VersionPattern::new(r"('(\w+):)([0-9]*\.?[0-9]+(?:\.[0-9]+)*)(')(\s*(?://|#).*)", ReplacementFormat::Extended));
    patterns.push(VersionPattern::new(r"('(\w+)':\s*')([0-9]*\.?[0-9]+(?:\.[0-9]+)*)(')(\s*(?://|#).*)", ReplacementFormat::Extended));
    patterns.push(VersionPattern::new(r#"(\w+\s*=\s*")([0-9]*\.?[0-9]+(?:\.[0-9]+)*)(")(\s*(?://|#).*)"#, ReplacementFormat::Quoted));
    patterns.push(VersionPattern::new(r#"(\w+\s*:=\s*")([0-9]*\.?[0-9]+(?:\.[0-9]+)*)(")(\s*(?://|#).*)"#, ReplacementFormat::Quoted));
    patterns.push(VersionPattern::new(r#"(\w+:\s*")([0-9]*\.?[0-9]+(?:\.[0-9]+)*)(")(\s*(?://|#).*)"#, ReplacementFormat::Quoted));
    patterns.push(VersionPattern::new(r#"("[\w-]+"\s*=\s*")([0-9]*\.?[0-9]+(?:\.[0-9]+)*)(")(\s*(?://|#).*)"#, ReplacementFormat::Quoted));
    patterns.push(VersionPattern::new(r#"(\w+\s*=\s*")([a-zA-Z][\w\-\.]*[0-9]+(?:\.[0-9]+)*)(")(\s*(?://|#).*)"#, ReplacementFormat::Quoted));
    patterns.push(VersionPattern::new(r#"(\w+\s*:=\s*")([a-zA-Z][\w\-\.]*[0-9]+(?:\.[0-9]+)*)(")(\s*(?://|#).*)"#, ReplacementFormat::Quoted));
    patterns.push(VersionPattern::new(r#"(\w+:\s*")([a-zA-Z][\w\-\.]*[0-9]+(?:\.[0-9]+)*)(")(\s*(?://|#).*)"#, ReplacementFormat::Quoted));
    patterns
}

/// The rewriting of `line` under one pattern: what [`rewrite`] makes of the
/// matches that the pattern's regular expression finds on `line`.
pub open spec fn pattern_rewrite(
    pattern: (Seq<char>, ReplacementFormat),
    line: Seq<char>,
    new_version: Seq<char>,
) -> Option<Seq<char>> {
    match regex_captures(pattern.0, line) {
        Some(matches) => rewrite(line, matches, pattern.1, new_version),
        None => None,
    }
}

/// The rewriting of `line` under the first of `patterns[next..]` that
/// applies to it.
pub open spec fn first_rewrite(
    patterns: Seq<(Seq<char>, ReplacementFormat)>,
    line: Seq<char>,
    new_version: Seq<char>,
    next: int,
) -> Option<Seq<char>>
    decreases patterns.len() - next,
{
    if next < 0 || next >= patterns.len() {
        None
    } else {
        match pattern_rewrite(patterns[next], line, new_version) {
            Some(text) => Some(text),
            None => first_rewrite(patterns, line, new_version, next + 1),
        }
    }
}

/// Rewrites `line` under one pattern, with `new_version` in place of every
/// literal that the pattern matches. Returns nothing when the pattern does
/// not apply to the line.
pub fn try_replace_with_pattern(pattern: &VersionPattern, line: &str, new_version: &str) -> (replaced:
    Option<String>)
    ensures
        match replaced {
            Some(text) => pattern_rewrite(pattern@, line@, new_version@) == Some(text@),
            None => pattern_rewrite(pattern@, line@, new_version@) is None,
        },
{
    match find_captures(pattern.replace_regex.as_str(), line) {
        Some(matches) => replace_matches(line, &matches, pattern.replacement_format, new_version),
        None => None,
    }
}

/// Rewrites `line` under the first of `patterns` that applies to it. Returns
/// nothing when none applies.
pub fn try_replace_with(patterns: &Vec<VersionPattern>, line: &str, new_version: &str) -> (replaced:
    Option<String>)
    ensures
        match replaced {
            Some(text) => first_rewrite(pattern_views(patterns@), line@, new_version@, 0) == Some(
                text@,
            ),
            None => first_rewrite(pattern_views(patterns@), line@, new_version@, 0) is None,
        },
{
    let ghost views = pattern_views(patterns@);
    let mut next: usize = 0;
    while next < patterns.len()
        invariant
            next <= patterns.len(),
            views == pattern_views(patterns@),
            first_rewrite(views, line@, new_version@, 0) == first_rewrite(
                views,
                line@,
                new_version@,
                next as int,
            ),
        decreases patterns.len() - next,
    {
        match try_replace_with_pattern(&patterns[next], line, new_version) {
            Some(text) => {
                return Some(text);
            },
            None => {},
        }
        next += 1;
    }
    None
}

/// Rewrites the version literal on `line` to `new_version`.
///
/// The syntaxes of the [`catalog`] are tried in order and the first that
/// applies decides; every literal it matches on the line is replaced by the
/// same value. Returns nothing when no syntax applies: the line then stays
/// as it is.
pub fn try_replace_version_in_line(line: &str, new_version: &str) -> (replaced: Option<String>)
    ensures
        match replaced {
            Some(text) => first_rewrite(catalog(), line@, new_version@, 0) == Some(text@),
            None => first_rewrite(catalog(), line@, new_version@, 0) is None,
        },
{
    let patterns = version_patterns();
    try_replace_with(&patterns, line, new_version)
}

/// Whether `c` is the letter that release tags put before a version.
pub open spec fn is_version_prefix(c: char) -> bool {
    c == 'v' || c == 'V'
}

/// A tag as it goes into a file: one that begins with `v` or `V` loses every
/// `v` and `V` it holds, not only the first; any other tag stays as it is.
pub open spec fn cleaned_tag(tag: Seq<char>) -> Seq<char> {
    if tag.len() > 0 && is_version_prefix(tag[0]) {
        tag.filter(|c: char| !is_version_prefix(c))
    } else {
        tag
    }
}

/// Cleans a release tag for insertion: computes [`cleaned_tag`].
pub fn clean_tag(inp: String) -> (cleaned: String)
    ensures
        cleaned@ == cleaned_tag(inp@),
{
    let chars = chars_of(inp.as_str());
    if chars.len() == 0 || !(chars[0] == 'v' || chars[0] == 'V') {
        return inp;
    }
    let ghost keep = |c: char| !is_version_prefix(c);
    let mut kept: Vec<char> = Vec::new();
    let mut i: usize = 0;
    while i < chars.len()
        invariant
            i <= chars.len(),
            keep == |c: char| !is_version_prefix(c),
            kept@ == chars@.take(i as int).filter(keep),
        decreases chars.len() - i,
    {
        let c = chars[i];
        proof {
            reveal(Seq::filter);
            assert(chars@.take(i + 1).drop_last() == chars@.take(i as int));
        }
        if !(c == 'v' || c == 'V') {
            kept.push(c);
        }
        i += 1;
    }
    assert(chars@.take(chars@.len() as int) == chars@);
    string_of(&kept, 0, kept.len())
}

/// A version literal found on a line.
#[derive(Debug)]
pub struct VersionInfo {
    /// The literal as it stands on the line.
    pub version: String,
    /// The byte offset at which the literal starts.
    pub col: i128,
}

/// The syntaxes in which a literal is looked for when only its place is
/// wanted, in the order in which they are tried. In each, group 1 is the
/// name and group 2 the literal.
pub open spec fn literal_catalog() -> Seq<Seq<char>> {
    seq![
        // `name = 1.2.3`
        r"(\w+)\s*=\s*([0-9]*\.?[0-9]+(?:\.[0-9]+)*)"@,
        // `name := 1.2.3`
        r"(\w+)\s*:=\s*([0-9]*\.?[0-9]+(?:\.[0-9]+)*)"@,
        // `name: 1.2.3`
        r"(\w+):\s*([0-9]*\.?[0-9]+(?:\.[0-9]+)*)"@,
        // `"name:1.2.3"`
        r#""(\w+):([0-9]*\.?[0-9]+(?:\.[0-9]+)*)""#@,
        // `"name": "1.2.3"`
        r#""(\w+)":\s*"([0-9]*\.?[0-9]+(?:\.[0-9]+)*)""#@,
        // `name = '1.2.3'`
        r"(\w+)\s*=\s*'([0-9]*\.?[0-9]+(?:\.[0-9]+)*)'"@,
        // `name := '1.2.3'`
        r"(\w+)\s*:=\s*'([0-9]*\.?[0-9]+(?:\.[0-9]+)*)'"@,
        // `name: '1.2.3'`
        r"(\w+):\s*'([0-9]*\.?[0-9]+(?:\.[0-9]+)*)'"@,
        // `'name:1.2.3'`
        r"'(\w+):([0-9]*\.?[0-9]+(?:\.[0-9]+)*)'"@,
        // `'name': '1.2.3'`
        r"'(\w+)':\s*'([0-9]*\.?[0-9]+(?:\.[0-9]+)*)'"@,
    ]
}

/// The literal that the match `found` holds in group 2: its text and the
/// byte offset at which it starts.
pub open spec fn located_literal(line: Seq<char>, found: Seq<Option<(usize, usize)>>) -> Option<
    (Seq<char>, int),
> {
    match group_text(line, found, 2) {
        Some(text) => Some((text, found[2].unwrap().0 as int)),
        None => None,
    }
}

/// The literal on `line` under the first of `sources[next..]` that matches:
/// the one in the first match of that syntax.
pub open spec fn first_literal(sources: Seq<Seq<char>>, line: Seq<char>, next: int) -> Option<
    (Seq<char>, int),
>
    decreases sources.len() - next,
{
    if next < 0 || next >= sources.len() {
        None
    } else {
        match regex_captures(sources[next], line) {
            Some(matches) => if matches.len() > 0 {
                located_literal(line, matches[0])
            } else {
                first_literal(sources, line, next + 1)
            },
            None => first_literal(sources, line, next + 1),
        }
    }
}

/// Reads the literal out of one match on `line`: computes
/// [`located_literal`].
pub fn literal_of_match(line: &str, found: &Vec<Option<(usize, usize)>>) -> (literal: Option<
    VersionInfo,
>)
    ensures
        match literal {
            Some(info) => located_literal(line@, found.deep_view()) == Some(
                (info.version@, info.col as int),
            ),
            None => located_literal(line@, found.deep_view()) is None,
        },
{
    let chars = chars_of(line);
    match group_range_of(&chars, found, 2) {
        Some((start, end)) => {
            match found[2] {
                Some((start_byte, _)) => Some(
                    VersionInfo { version: string_of(&chars, start, end), col: start_byte as i128 },
                ),
                None => None,
            }
        },
        None => None,
    }
}

/// Finds the version literal on `line`.
///
/// The syntaxes of the [`literal_catalog`] are tried in order; the first
/// that matches anywhere on the line decides, and the literal of its first
/// match is returned.
pub fn extract_version_from_line(line: &str) -> (literal: Option<VersionInfo>)
    ensures
        match literal {
            Some(info) => first_literal(literal_catalog(), line@, 0) == Some(
                (info.version@, info.col as int),
            ),
            None => first_literal(literal_catalog(), line@, 0) is None,
        },
{
    let mut sources: Vec<&str> = Vec::new();
    sources.push(r"(\w+)\s*=\s*([0-9]*\.?[0-9]+(?:\.[0-9]+)*)");
    sources.push(r"(\w+)\s*:=\s*([0-9]*\.?[0-9]+(?:\.[0-9]+)*)");
    sources.push(r"(\w+):\s*([0-9]*\.?[0-9]+(?:\.[0-9]+)*)");
    sources.push(r#""(\w+):([0-9]*\.?[0-9]+(?:\.[0-9]+)*)""#);
    sources.push(r#""(\w+)":\s*"([0-9]*\.?[0-9]+(?:\.[0-9]+)*)""#);
    sources.push(r"(\w+)\s*=\s*'([0-9]*\.?[0-9]+(?:\.[0-9]+)*)'");
    sources.push(r"(\w+)\s*:=\s*'([0-9]*\.?[0-9]+(?:\.[0-9]+)*)'");
    sources.push(r"(\w+):\s*'([0-9]*\.?[0-9]+(?:\.[0-9]+)*)'");
    sources.push(r"'(\w+):([0-9]*\.?[0-9]+(?:\.[0-9]+)*)'");
    sources.push(r"'(\w+)':\s*'([0-9]*\.?[0-9]+(?:\.[0-9]+)*)'");
    let ghost catalog = literal_catalog();
    let mut next: usize = 0;
    while next < sources.len()
        invariant
            next <= sources.len(),
            catalog == literal_catalog(),
            sources@.len() == catalog.len(),
            forall|k: int| 0 <= k < sources@.len() ==> (#[trigger] sources@[k])@ == catalog[k],
            first_literal(catalog, line@, 0) == first_literal(catalog, line@, next as int),
        decreases sources.len() - next,
    {
        match find_captures(sources[next], line) {
            Some(matches) => {
                if matches.len() > 0 {
                    return literal_of_match(line, &matches[0]);
                }
            },
            None => {},
        }
        next += 1;
    }
    None
}

} // verus!
