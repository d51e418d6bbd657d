use cup::decimal::{push_decimal, push_digits, push_successor};
use cup::lines::{join_lines, split_lines};
use cup::offsets::{char_index_of, char_width};
use cup::text::{
    char_is_whitespace, chars_of, copy_range, drop_trailing_space_to, find_first, first_token_of,
    occurs_at_index, skip_space_from, skip_token_from, string_of, trim_chars,
};

fn chars(s: &str) -> Vec<char> {
    s.chars().collect()
}

fn text(chars: Vec<char>) -> String {
    chars.into_iter().collect()
}

fn strings(lines: &[&str]) -> Vec<String> {
    lines.iter().map(|l| l.to_string()).collect()
}

#[test]
fn chars_and_strings_convert_both_ways() {
    assert_eq!(chars_of("héllo 🦀"), chars("héllo 🦀"));
    assert_eq!(chars_of(""), Vec::new());
    let all = chars("héllo 🦀");
    assert_eq!(string_of(&all, 0, all.len()), "héllo 🦀");
    assert_eq!(string_of(&all, 1, 4), "éll");
    assert_eq!(string_of(&all, 3, 3), "");
    assert_eq!(copy_range(&all, 6, 7), vec!['🦀']);
}

#[test]
fn whitespace_follows_the_unicode_property() {
    for c in [
        '\t', '\n', '\u{b}', '\u{c}', '\r', ' ', '\u{85}', '\u{a0}', '\u{1680}', '\u{2000}',
        '\u{2005}', '\u{200a}', '\u{2028}', '\u{2029}', '\u{202f}', '\u{205f}', '\u{3000}',
    ] {
        assert!(char_is_whitespace(c), "{:?}", c);
    }
    for c in ['a', '0', '_', '\u{8}', '\u{e}', '\u{200b}', '\u{feff}', '\u{1f}', '\u{180e}'] {
        assert!(!char_is_whitespace(c), "{:?}", c);
    }
}

#[test]
fn whitespace_agrees_with_the_standard_library_everywhere() {
    for code in 0..=0x10ffff_u32 {
        if let Some(c) = char::from_u32(code) {
            assert_eq!(char_is_whitespace(c), c.is_whitespace(), "U+{:04X}", code);
        }
    }
}

#[test]
fn trim_cuts_whitespace_at_both_ends_only() {
    assert_eq!(text(trim_chars(&chars("  a b \t"))), "a b");
    assert_eq!(text(trim_chars(&chars("a b"))), "a b");
    assert_eq!(text(trim_chars(&chars(" \u{3000}\n"))), "");
    assert_eq!(text(trim_chars(&chars(""))), "");
    assert_eq!(text(trim_chars(&chars("\u{a0}x\u{a0}"))), "x");
    for sample in ["", " ", "x", " x", "x ", "  é  é  ", "\t\r\nab\u{2003}"] {
        assert_eq!(text(trim_chars(&chars(sample))), sample.trim());
    }
}

#[test]
fn skipping_stops_at_the_first_change() {
    let line = chars("  ab  c");
    assert_eq!(skip_space_from(&line, 0), 2);
    assert_eq!(skip_space_from(&line, 2), 2);
    assert_eq!(skip_token_from(&line, 2), 4);
    assert_eq!(skip_space_from(&line, 4), 6);
    assert_eq!(skip_token_from(&line, 6), 7);
    assert_eq!(skip_space_from(&line, 7), 7);
    assert_eq!(drop_trailing_space_to(&line, 7), 7);
    assert_eq!(drop_trailing_space_to(&line, 6), 4);
    assert_eq!(drop_trailing_space_to(&line, 2), 0);
}

#[test]
fn first_token_is_the_first_run_without_whitespace() {
    assert_eq!(first_token_of(&chars("  one two")).map(text), Some("one".to_string()));
    assert_eq!(first_token_of(&chars("one")).map(text), Some("one".to_string()));
    assert_eq!(first_token_of(&chars(" \t ")), None);
    assert_eq!(first_token_of(&chars("")), None);
    for sample in ["a b", "  é\u{3000}b", "x", "\ty\n"] {
        assert_eq!(
            first_token_of(&chars(sample)).map(text).as_deref(),
            sample.split_whitespace().next()
        );
    }
}

#[test]
fn find_returns_the_first_occurrence() {
    assert_eq!(find_first(&chars("a[cup]b[cup]"), &chars("[cup]")), Some(1));
    assert_eq!(find_first(&chars("[cup]"), &chars("[cup]")), Some(0));
    assert_eq!(find_first(&chars("[cu[cup"), &chars("[cup]")), None);
    assert_eq!(find_first(&chars("aaab"), &chars("aab")), Some(1));
    assert_eq!(find_first(&chars("abc"), &chars("")), Some(0));
    assert_eq!(find_first(&chars(""), &chars("")), Some(0));
    assert_eq!(find_first(&chars(""), &chars("a")), None);
    assert_eq!(find_first(&chars("ab"), &chars("abc")), None);
    // Indices count characters, not bytes.
    assert_eq!(find_first(&chars("éé[x]"), &chars("[x]")), Some(2));
}

#[test]
fn occurrence_is_checked_at_the_given_index_only() {
    let hay = chars("abcabc");
    assert!(occurs_at_index(&hay, &chars("abc"), 0));
    assert!(occurs_at_index(&hay, &chars("abc"), 3));
    assert!(!occurs_at_index(&hay, &chars("abc"), 1));
    assert!(!occurs_at_index(&hay, &chars("abc"), 4));
    assert!(occurs_at_index(&hay, &chars(""), 6));
    assert!(!occurs_at_index(&hay, &chars(""), 7));
    assert!(!occurs_at_index(&hay, &chars("abcabca"), 0));
}

#[test]
fn lines_end_at_line_feeds() {
    assert_eq!(split_lines("a\nb\nc"), strings(&["a", "b", "c"]));
    assert_eq!(split_lines("a\nb\n"), strings(&["a", "b"]));
    assert_eq!(split_lines("a\r\nb\r\n"), strings(&["a", "b"]));
    assert_eq!(split_lines("a\n\nb"), strings(&["a", "", "b"]));
    assert_eq!(split_lines("\n"), strings(&[""]));
    assert_eq!(split_lines("\n\n"), strings(&["", ""]));
    assert_eq!(split_lines(""), Vec::<String>::new());
    assert_eq!(split_lines("no end"), strings(&["no end"]));
}

#[test]
fn carriage_return_belongs_to_the_line_unless_a_line_feed_follows() {
    assert_eq!(split_lines("a\rb"), strings(&["a\rb"]));
    assert_eq!(split_lines("a\r"), strings(&["a\r"]));
    assert_eq!(split_lines("a\r\r\n"), strings(&["a\r"]));
    assert_eq!(split_lines("\r\n"), strings(&[""]));
}

#[test]
fn lines_agree_with_the_standard_library() {
    for sample in [
        "", "\n", "\r", "\r\n", "a", "a\n", "a\r\n", "a\r", "\na", "\r\na", "a\n\r\nb\r",
        "é\n🦀\r\n\n", "x\r\r\ny\n\n\nz", "\n\n", "a\rb\nc",
    ] {
        let expected: Vec<String> = sample.lines().map(str::to_string).collect();
        assert_eq!(split_lines(sample), expected, "{:?}", sample);
    }
}

#[test]
fn join_puts_a_line_feed_between_lines() {
    assert_eq!(join_lines(&strings(&["a", "b", "c"])), "a\nb\nc");
    assert_eq!(join_lines(&strings(&["only"])), "only");
    assert_eq!(join_lines(&strings(&[])), "");
    assert_eq!(join_lines(&strings(&["", ""])), "\n");
    assert_eq!(join_lines(&strings(&["a", ""])), "a\n");
}

#[test]
fn decimal_notation_of_numbers() {
    let digits = |n: u128| {
        let mut out = String::from(">");
        push_digits(&mut out, n);
        out
    };
    assert_eq!(digits(0), ">0");
    assert_eq!(digits(7), ">7");
    assert_eq!(digits(10), ">10");
    assert_eq!(digits(1234567890), ">1234567890");
    assert_eq!(digits(u128::MAX), format!(">{}", u128::MAX));
    let decimal = |n: i128| {
        let mut out = String::new();
        push_decimal(&mut out, n);
        out
    };
    for n in [0, 1, -1, 9, 10, -10, 99, 100, -12345, i128::MAX, i128::MIN, i128::MIN + 1] {
        assert_eq!(decimal(n), n.to_string());
    }
}

#[test]
fn successor_is_taken_without_wrapping() {
    let successor = |n: i128| {
        let mut out = String::new();
        push_successor(&mut out, n);
        out
    };
    assert_eq!(successor(0), "1");
    assert_eq!(successor(9), "10");
    assert_eq!(successor(-1), "0");
    assert_eq!(successor(-2), "-1");
    assert_eq!(successor(-10), "-9");
    assert_eq!(successor(i128::MAX), "170141183460469231731687303715884105728");
    assert_eq!(successor(i128::MIN), "-170141183460469231731687303715884105727");
}

#[test]
fn width_is_the_length_of_the_encoding() {
    for c in ['a', '\u{7f}', '\u{80}', 'é', '\u{7ff}', '\u{800}', '€', '\u{ffff}', '\u{10000}', '🦀', '\u{10ffff}'] {
        assert_eq!(char_width(c), c.len_utf8(), "{:?}", c);
    }
}

#[test]
fn byte_offsets_map_to_character_indices() {
    // a: 1 byte, é: 2, €: 3, 🦀: 4.
    let line = chars("aé€🦀");
    assert_eq!(char_index_of(&line, 0), Some(0));
    assert_eq!(char_index_of(&line, 1), Some(1));
    assert_eq!(char_index_of(&line, 2), None);
    assert_eq!(char_index_of(&line, 3), Some(2));
    assert_eq!(char_index_of(&line, 4), None);
    assert_eq!(char_index_of(&line, 5), None);
    assert_eq!(char_index_of(&line, 6), Some(3));
    assert_eq!(char_index_of(&line, 7), None);
    assert_eq!(char_index_of(&line, 9), None);
    assert_eq!(char_index_of(&line, 10), Some(4));
    assert_eq!(char_index_of(&line, 11), None);
    assert_eq!(char_index_of(&line, usize::MAX), None);
    assert_eq!(char_index_of(&Vec::new(), 0), Some(0));
    assert_eq!(char_index_of(&Vec::new(), 1), None);
}

#[test]
fn byte_offsets_agree_with_the_standard_library() {
    let sample = "x = \"ü1.0\" // 日本 🦀!";
    let line = chars(sample);
    for byte in 0..=sample.len() + 2 {
        let expected = if byte <= sample.len() && sample.is_char_boundary(byte) {
            Some(sample[..byte].chars().count())
        } else {
            None
        };
        assert_eq!(char_index_of(&line, byte), expected, "byte {}", byte);
    }
}
