use cup::cup_parser::{find_cup_targets, parse_cup_line, FileTarget, CUP_COMMENT};
use cup::file_finder::FileInfo;
use cup::init::{Config, Remote, Tag, Target};

fn file(path: &str, content: &str) -> FileInfo {
    FileInfo { full_path: path.to_string(), content: content.to_string() }
}

fn target(file: &FileInfo, row: i128, identifier: &str) -> FileTarget {
    FileTarget {
        file: file.clone(),
        row,
        extracted_config: Target {
            name: format!("{}:{}", file.full_path, row + 1),
            tag: Tag { remote_tag: identifier.to_string(), remote_type: Remote::GitHub },
        },
    }
}

fn identifier(line: &str) -> Option<String> {
    let info = file("src/app.toml", line);
    parse_cup_line(&info, line, 0, &Config::default()).map(|t| t.extracted_config.tag.remote_tag)
}

#[test]
fn default_configuration_uses_the_standard_marker() {
    let config = Config::default();
    assert_eq!(config.cup_pattern, "[cup]");
    assert_eq!(config.cup_pattern, CUP_COMMENT);
    assert_eq!(config.remote_default, "GitHub");
}

#[test]
fn line_with_keyword_yields_target() {
    let info = file("conf/app.toml", "irrelevant");
    let line = "app_version = 1.4.0 // [cup] GitHub acme/widget";
    let parsed = parse_cup_line(&info, line, 6, &Config::default());
    assert_eq!(parsed, Some(target(&info, 6, "acme/widget")));
    let parsed = parsed.unwrap();
    assert_eq!(parsed.extracted_config.name, "conf/app.toml:7");
    assert_eq!(parsed.row, 6);
    assert_eq!(parsed.file, info);
}

#[test]
fn line_without_keyword_uses_the_default_remote() {
    let info = file("package.json", "");
    let line = r#""lib": "2.0.0" // [cup] acme/lib"#;
    let parsed = parse_cup_line(&info, line, 0, &Config::default()).unwrap();
    assert_eq!(parsed.extracted_config.tag.remote_tag, "acme/lib");
    assert_eq!(parsed.extracted_config.tag.remote_type, Remote::GitHub);
    assert_eq!(parsed.extracted_config.name, "package.json:1");
}

#[test]
fn unknown_default_remote_falls_back_to_github() {
    let info = file("a", "");
    let config = Config { cup_pattern: "[cup]".to_string(), remote_default: "Sourcehut".to_string() };
    let parsed = parse_cup_line(&info, "x = 1 # [cup] acme/lib", 0, &config).unwrap();
    assert_eq!(parsed.extracted_config.tag.remote_type, Remote::GitHub);
    assert_eq!(parsed.extracted_config.tag.remote_tag, "acme/lib");
    assert_eq!(Remote::from_name("Sourcehut"), Remote::GitHub);
    assert_eq!(Remote::from_name("GitHub"), Remote::GitHub);
    assert_eq!(Remote::GitHub.keyword(), "GitHub");
}

#[test]
fn line_without_marker_yields_nothing() {
    assert_eq!(identifier("app_version = 1.4.0 // GitHub acme/widget"), None);
    assert_eq!(identifier(""), None);
    assert_eq!(identifier("[cu p] acme/widget"), None);
    assert_eq!(identifier("[CUP] acme/widget"), None);
}

#[test]
fn marker_followed_by_nothing_yields_nothing() {
    assert_eq!(identifier("x = 1 // [cup]"), None);
    assert_eq!(identifier("[cup]"), None);
}

#[test]
fn marker_followed_by_whitespace_only_yields_nothing() {
    assert_eq!(identifier("x = 1 // [cup]   "), None);
    assert_eq!(identifier("x = 1 // [cup]\t \r"), None);
    // No-break space, em space and ideographic space are whitespace too.
    assert_eq!(identifier("x = 1 // [cup]\u{a0}\u{2003}\u{3000}"), None);
}

#[test]
fn keyword_followed_by_nothing_yields_nothing() {
    assert_eq!(identifier("x = 1 // [cup] GitHub"), None);
    assert_eq!(identifier("x = 1 // [cup] GitHub   "), None);
}

#[test]
fn identifier_is_the_first_token() {
    assert_eq!(identifier("x = 1 // [cup] acme/widget"), Some("acme/widget".to_string()));
    assert_eq!(
        identifier("x = 1 // [cup]    acme/widget   and more words"),
        Some("acme/widget".to_string())
    );
    assert_eq!(identifier("x = 1 // [cup]acme/widget"), Some("acme/widget".to_string()));
    assert_eq!(identifier("x = 1 // [cup]\tacme/widget\tmore"), Some("acme/widget".to_string()));
    assert_eq!(
        identifier("x = 1 // [cup]\u{3000}acme/widget\u{2003}more"),
        Some("acme/widget".to_string())
    );
    assert_eq!(identifier("x = 1 // [cup] ünï/cødé rest"), Some("ünï/cødé".to_string()));
}

#[test]
fn identifier_follows_the_keyword() {
    assert_eq!(identifier("x = 1 // [cup] GitHub acme/widget"), Some("acme/widget".to_string()));
    assert_eq!(
        identifier("x = 1 // [cup]   GitHub \t acme/widget trailing"),
        Some("acme/widget".to_string())
    );
    // The keyword is stripped even when nothing separates it from the rest.
    assert_eq!(identifier("x = 1 // [cup] GitHubacme/widget"), Some("acme/widget".to_string()));
    // The keyword is matched exactly.
    assert_eq!(identifier("x = 1 // [cup] github acme/widget"), Some("github".to_string()));
    assert_eq!(identifier("x = 1 // [cup] Git Hub"), Some("Git".to_string()));
}

#[test]
fn only_the_first_marker_counts() {
    assert_eq!(
        identifier("x = 1 // [cup] first/one [cup] second/one"),
        Some("first/one".to_string())
    );
    assert_eq!(identifier("[cup][cup] a/b"), Some("[cup]".to_string()));
}

#[test]
fn configured_marker_replaces_the_standard_one() {
    let info = file("a", "");
    let config = Config { cup_pattern: "@track".to_string(), remote_default: "GitHub".to_string() };
    let parsed = parse_cup_line(&info, "v = 1 # @track acme/lib", 2, &config).unwrap();
    assert_eq!(parsed.extracted_config.tag.remote_tag, "acme/lib");
    assert_eq!(parse_cup_line(&info, "v = 1 # [cup] acme/lib", 2, &config), None);
}

#[test]
fn empty_marker_occurs_at_the_start_of_every_line() {
    let info = file("a", "");
    let config = Config { cup_pattern: String::new(), remote_default: "GitHub".to_string() };
    let parsed = parse_cup_line(&info, "  first second", 0, &config).unwrap();
    assert_eq!(parsed.extracted_config.tag.remote_tag, "first");
    assert_eq!(parse_cup_line(&info, "   ", 0, &config), None);
    assert_eq!(parse_cup_line(&info, "", 0, &config), None);
}

#[test]
fn name_counts_lines_from_one() {
    let info = file("dir/file.txt", "");
    let line = "x = 1 # [cup] a/b";
    let config = Config::default();
    let name = |row: i128| parse_cup_line(&info, line, row, &config).unwrap().extracted_config.name;
    assert_eq!(name(0), "dir/file.txt:1");
    assert_eq!(name(8), "dir/file.txt:9");
    assert_eq!(name(9), "dir/file.txt:10");
    assert_eq!(name(1234567), "dir/file.txt:1234568");
    assert_eq!(name(-1), "dir/file.txt:0");
    assert_eq!(name(-2), "dir/file.txt:-1");
    assert_eq!(name(-100), "dir/file.txt:-99");
    assert_eq!(
        name(i128::MAX),
        "dir/file.txt:170141183460469231731687303715884105728"
    );
    assert_eq!(
        name(i128::MIN),
        "dir/file.txt:-170141183460469231731687303715884105727"
    );
}

#[test]
fn scan_finds_targets_file_by_file_and_line_by_line() {
    let first = file(
        "a.toml",
        "name = \"demo\"\nversion = 1.0 # [cup] acme/a\n\nother = 2.0 # [cup] GitHub acme/b extra\n",
    );
    let second = file("b.txt", "nothing here\r\n");
    let third = file("c.json", "\"lib\": \"2.0.0\" // [cup] acme/c\r\n\"x\": 1 // [cup]   ");
    let files = vec![first.clone(), second, third.clone()];
    let found = find_cup_targets(&files, &Config::default());
    assert_eq!(
        found,
        vec![target(&first, 1, "acme/a"), target(&first, 3, "acme/b"), target(&third, 0, "acme/c")]
    );
}

#[test]
fn scan_of_nothing_finds_nothing() {
    assert_eq!(find_cup_targets(&[], &Config::default()), Vec::new());
    assert_eq!(find_cup_targets(&[file("empty", "")], &Config::default()), Vec::new());
}
