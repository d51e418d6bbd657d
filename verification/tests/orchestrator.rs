use cup::cup_parser::{find_cup_targets, FileTarget};
use cup::file_finder::FileInfo;
use cup::init::{Config, Remote, Tag, Target};
use cup::report::{is_failure, report_line, summary_line};
use cup::resolver::{after_lookup, first_lookup, Lookup, ResolveStep};
use cup::update::{
    apply_target, partition_by_file, process_file_targets, update, ResolvedTarget, TargetOutcome,
};

fn file(path: &str, content: &str) -> FileInfo {
    FileInfo { full_path: path.to_string(), content: content.to_string() }
}

fn target_at(path: &str, row: i128, identifier: &str) -> FileTarget {
    FileTarget {
        file: file(path, ""),
        row,
        extracted_config: Target {
            name: format!("{}:{}", path, row + 1),
            tag: Tag { remote_tag: identifier.to_string(), remote_type: Remote::GitHub },
        },
    }
}

fn job(row: i128, latest: Result<&str, &str>) -> ResolvedTarget {
    ResolvedTarget {
        target: target_at("f", row, "a/b"),
        latest: latest.map(str::to_string).map_err(str::to_string),
    }
}

fn updated(version: &str) -> TargetOutcome {
    TargetOutcome::Updated { version: version.to_string() }
}

#[test]
fn end_to_end_with_keyword() {
    let content = "app_version = 1.4.0 // [cup] GitHub acme/widget";
    let files = vec![file("app.conf", content)];
    let mut batches = update(Config::default(), &files);
    assert_eq!(batches.len(), 1);
    let batch = batches.remove(0);
    assert_eq!(batch.path, "app.conf");
    assert_eq!(batch.targets.len(), 1);
    assert_eq!(batch.targets[0].extracted_config.tag.remote_tag, "acme/widget");
    let jobs: Vec<ResolvedTarget> = batch
        .targets
        .into_iter()
        .map(|target| ResolvedTarget { target, latest: Ok("v1.5.2".to_string()) })
        .collect();
    let outcome = process_file_targets(content, &jobs);
    assert_eq!(outcome.outcomes, vec![updated("1.5.2")]);
    assert_eq!(outcome.updated_count, 1);
    assert_eq!(
        outcome.new_content,
        Some("app_version = 1.5.2 // [cup] GitHub acme/widget".to_string())
    );
}

#[test]
fn end_to_end_with_default_remote() {
    let content = r#""lib": "2.0.0" // [cup] acme/lib"#;
    let config = Config { cup_pattern: "[cup]".to_string(), remote_default: "GitHub".to_string() };
    let targets = find_cup_targets(&[file("package.json", content)], &config);
    assert_eq!(targets.len(), 1);
    assert_eq!(targets[0].extracted_config.tag.remote_type, Remote::GitHub);
    assert_eq!(targets[0].extracted_config.tag.remote_tag, "acme/lib");
    let jobs = vec![ResolvedTarget { target: targets[0].clone(), latest: Ok("2.1.0".to_string()) }];
    let outcome = process_file_targets(content, &jobs);
    assert_eq!(outcome.new_content, Some(r#""lib": "2.1.0" // [cup] acme/lib"#.to_string()));
}

#[test]
fn failed_lookup_does_not_stop_the_other_target() {
    let content = "first = 1.0.0 # [cup] acme/first\nkeep me\nsecond = \"2.0.0\" # [cup] acme/second";
    let mut batches = update(Config::default(), &[file("versions.conf", content)]);
    assert_eq!(batches.len(), 1);
    let jobs: Vec<ResolvedTarget> = batches
        .remove(0)
        .targets
        .into_iter()
        .map(|target| {
            let latest = if target.extracted_config.tag.remote_tag == "acme/second" {
                Err("registry unreachable".to_string())
            } else {
                Ok("v1.1.0".to_string())
            };
            ResolvedTarget { target, latest }
        })
        .collect();
    assert_eq!(jobs.iter().map(|j| j.target.row).collect::<Vec<i128>>(), vec![0, 2]);
    let outcome = process_file_targets(content, &jobs);
    assert_eq!(
        outcome.outcomes,
        vec![
            updated("1.1.0"),
            TargetOutcome::ResolveFailed { cause: "registry unreachable".to_string() },
        ]
    );
    assert_eq!(outcome.updated_count, 1);
    assert_eq!(
        outcome.new_content,
        Some(
            "first = 1.1.0 # [cup] acme/first\nkeep me\nsecond = \"2.0.0\" # [cup] acme/second"
                .to_string()
        )
    );
    // The same holds with the failing target first.
    let jobs = vec![job(2, Err("registry unreachable")), job(0, Ok("v1.1.0"))];
    let again = process_file_targets(content, &jobs);
    assert_eq!(again.new_content, outcome.new_content);
    assert_eq!(again.updated_count, 1);
    assert_eq!(again.outcomes[1], updated("1.1.0"));
}

#[test]
fn stale_row_is_reported_and_changes_nothing() {
    let content = "first = 1.0.0 # [cup] acme/first\nsecond = 2.0.0 # [cup] acme/second";
    let jobs = vec![job(2, Ok("9.9.9")), job(-1, Ok("9.9.9")), job(i128::MAX, Ok("9.9.9"))];
    let outcome = process_file_targets(content, &jobs);
    assert_eq!(
        outcome.outcomes,
        vec![
            TargetOutcome::RowOutOfBounds,
            TargetOutcome::RowOutOfBounds,
            TargetOutcome::RowOutOfBounds
        ]
    );
    assert_eq!(outcome.updated_count, 0);
    assert_eq!(outcome.new_content, None);
    // Beside a target that is in bounds, the stale one changes no line.
    let jobs = vec![job(5, Ok("9.9.9")), job(1, Ok("2.5.0"))];
    let outcome = process_file_targets(content, &jobs);
    assert_eq!(outcome.outcomes, vec![TargetOutcome::RowOutOfBounds, updated("2.5.0")]);
    assert_eq!(
        outcome.new_content,
        Some("first = 1.0.0 # [cup] acme/first\nsecond = 2.5.0 # [cup] acme/second".to_string())
    );
}

#[test]
fn stale_row_with_failed_lookup_is_reported_as_lookup_failure() {
    let outcome = process_file_targets("a = 1 # c", &vec![job(7, Err("no such entry"))]);
    assert_eq!(
        outcome.outcomes,
        vec![TargetOutcome::ResolveFailed { cause: "no such entry".to_string() }]
    );
    assert_eq!(outcome.new_content, None);
}

#[test]
fn line_without_literal_is_reported_and_changes_nothing() {
    let content = "no literal here # [cup] acme/first\nsecond = 2.0.0 # [cup] acme/second\n";
    let jobs = vec![job(0, Ok("3.0.0"))];
    let outcome = process_file_targets(content, &jobs);
    assert_eq!(outcome.outcomes, vec![TargetOutcome::NoPatternMatched]);
    assert_eq!(outcome.updated_count, 0);
    assert_eq!(outcome.new_content, None);
}

#[test]
fn no_targets_means_no_write() {
    let outcome = process_file_targets("a = 1.0 # [cup] a/b\n", &Vec::new());
    assert_eq!(outcome.outcomes, Vec::new());
    assert_eq!(outcome.updated_count, 0);
    assert_eq!(outcome.new_content, None);
}

#[test]
fn rewriting_to_the_same_value_still_counts_as_update() {
    let content = "a = 1.0 # [cup] a/b";
    let outcome = process_file_targets(content, &vec![job(0, Ok("v1.0"))]);
    assert_eq!(outcome.updated_count, 1);
    assert_eq!(outcome.new_content, Some(content.to_string()));
}

#[test]
fn new_content_joins_lines_with_line_feeds() {
    let content = "a = 1.0 # [cup] a/b\r\nplain\r\n\r\nb = 2.0 # [cup] a/c\n";
    let jobs = vec![job(0, Ok("1.1")), job(3, Ok("V2.2"))];
    let outcome = process_file_targets(content, &jobs);
    assert_eq!(outcome.updated_count, 2);
    assert_eq!(
        outcome.new_content,
        Some("a = 1.1 # [cup] a/b\nplain\n\nb = 2.2 # [cup] a/c".to_string())
    );
}

#[test]
fn two_targets_on_one_row_are_applied_one_after_the_other() {
    let content = "a = 1.0 # [cup] a/b";
    let jobs = vec![job(0, Ok("2.0")), job(0, Ok("3.0"))];
    let outcome = process_file_targets(content, &jobs);
    assert_eq!(outcome.outcomes, vec![updated("2.0"), updated("3.0")]);
    assert_eq!(outcome.updated_count, 2);
    assert_eq!(outcome.new_content, Some("a = 3.0 # [cup] a/b".to_string()));
}

#[test]
fn tag_is_cleaned_before_it_is_inserted() {
    let content = "a = 1.0 # [cup] a/b";
    let outcome = process_file_targets(content, &vec![job(0, Ok("vversion"))]);
    assert_eq!(outcome.outcomes, vec![updated("ersion")]);
    assert_eq!(outcome.new_content, Some("a = ersion # [cup] a/b".to_string()));
}

#[test]
fn apply_target_edits_the_line_in_place() {
    let mut lines = vec!["x".to_string(), "a = 1.0 # c".to_string(), "y".to_string()];
    let target = target_at("f", 1, "a/b");
    let outcome = apply_target(&mut lines, &target, &Ok("v4.5.6".to_string()));
    assert_eq!(outcome, updated("4.5.6"));
    assert_eq!(lines, vec!["x", "a = 4.5.6 # c", "y"]);

    let before = lines.clone();
    let outcome = apply_target(&mut lines, &target, &Err("down".to_string()));
    assert_eq!(outcome, TargetOutcome::ResolveFailed { cause: "down".to_string() });
    assert_eq!(lines, before);

    let outcome = apply_target(&mut lines, &target_at("f", 3, "a/b"), &Ok("1".to_string()));
    assert_eq!(outcome, TargetOutcome::RowOutOfBounds);
    assert_eq!(lines, before);

    let outcome = apply_target(&mut lines, &target_at("f", 0, "a/b"), &Ok("1".to_string()));
    assert_eq!(outcome, TargetOutcome::NoPatternMatched);
    assert_eq!(lines, before);
}

#[test]
fn targets_on_different_rows_commute() {
    let start = vec!["a = 1.0 # c".to_string(), "b: '2.0' # c".to_string()];
    let first = target_at("f", 0, "a/b");
    let second = target_at("f", 1, "a/c");
    let mut one_way = start.clone();
    apply_target(&mut one_way, &first, &Ok("v1.1".to_string()));
    apply_target(&mut one_way, &second, &Ok("v2.2".to_string()));
    let mut other_way = start.clone();
    apply_target(&mut other_way, &second, &Ok("v2.2".to_string()));
    apply_target(&mut other_way, &first, &Ok("v1.1".to_string()));
    assert_eq!(one_way, other_way);
    assert_eq!(one_way, vec!["a = 1.1 # c", "b: '2.2' # c"]);
}

#[test]
fn partition_groups_targets_by_path_and_keeps_their_order() {
    let targets = vec![
        target_at("b", 4, "x/1"),
        target_at("a", 0, "x/2"),
        target_at("b", 1, "x/3"),
        target_at("c", 2, "x/4"),
        target_at("a", 9, "x/5"),
    ];
    let mut batches = partition_by_file(&targets);
    batches.sort_by(|l, r| l.path.cmp(&r.path));
    let summary: Vec<(String, Vec<i128>)> = batches
        .iter()
        .map(|b| (b.path.clone(), b.targets.iter().map(|t| t.row).collect()))
        .collect();
    assert_eq!(
        summary,
        vec![
            ("a".to_string(), vec![0, 9]),
            ("b".to_string(), vec![4, 1]),
            ("c".to_string(), vec![2]),
        ]
    );
    for batch in &batches {
        for target in &batch.targets {
            assert_eq!(target.file.full_path, batch.path);
            assert!(targets.contains(target));
        }
    }
}

#[test]
fn partition_of_nothing_is_empty() {
    assert!(partition_by_file(&Vec::new()).is_empty());
    assert!(update(Config::default(), &[]).is_empty());
    assert!(update(Config::default(), &[file("a", "no annotation\n")]).is_empty());
}

#[test]
fn update_plans_one_batch_per_annotated_file() {
    let files = vec![
        file("one.toml", "a = 1.0 # [cup] acme/a\nb = 2.0 # [cup] acme/b\n"),
        file("plain.txt", "hello\n"),
        file("two.toml", "c = 3.0 # [cup] acme/c\n"),
    ];
    let mut batches = update(Config::default(), &files);
    batches.sort_by(|l, r| l.path.cmp(&r.path));
    assert_eq!(batches.len(), 2);
    assert_eq!(batches[0].path, "one.toml");
    assert_eq!(batches[0].targets.iter().map(|t| t.row).collect::<Vec<i128>>(), vec![0, 1]);
    assert_eq!(batches[0].targets[0].file, files[0]);
    assert_eq!(batches[1].path, "two.toml");
    assert_eq!(batches[1].targets[0].extracted_config.name, "two.toml:1");
}

#[test]
fn resolution_asks_for_the_latest_release_first() {
    assert_eq!(first_lookup(Remote::GitHub), Lookup::LatestRelease);
}

#[test]
fn release_that_was_found_ends_the_resolution() {
    let step = after_lookup(Lookup::LatestRelease, &Ok(vec!["v1.5.2".to_string()]));
    assert_eq!(step, ResolveStep::Done(Ok("v1.5.2".to_string())));
}

#[test]
fn failed_release_lookup_falls_back_to_tags() {
    let step = after_lookup(Lookup::LatestRelease, &Err("release not found".to_string()));
    assert_eq!(step, ResolveStep::Ask(Lookup::MostRecentTag));
    let step = after_lookup(Lookup::LatestRelease, &Ok(Vec::new()));
    assert_eq!(step, ResolveStep::Ask(Lookup::MostRecentTag));
}

#[test]
fn most_recent_tag_stands_in_for_the_release() {
    let tags = vec!["v2.0.0".to_string(), "v1.9.0".to_string()];
    assert_eq!(
        after_lookup(Lookup::MostRecentTag, &Ok(tags)),
        ResolveStep::Done(Ok("v2.0.0".to_string()))
    );
}

#[test]
fn resolution_fails_when_both_lookups_gave_nothing() {
    assert_eq!(
        after_lookup(Lookup::MostRecentTag, &Err("not found".to_string())),
        ResolveStep::Done(Err("not found".to_string()))
    );
    assert_eq!(
        after_lookup(Lookup::MostRecentTag, &Ok(Vec::new())),
        ResolveStep::Done(Err("no tags found".to_string()))
    );
}

#[test]
fn reports_name_the_target_and_the_cause() {
    let target = target_at("conf/app.toml", 6, "acme/widget");
    assert_eq!(
        report_line(&target, &updated("1.5.2")),
        "Updated conf/app.toml:7 to version 1.5.2"
    );
    assert_eq!(
        report_line(&target, &TargetOutcome::ResolveFailed { cause: "timeout".to_string() }),
        "Error getting latest tag for acme/widget in conf/app.toml:7: timeout"
    );
    assert_eq!(
        report_line(&target, &TargetOutcome::RowOutOfBounds),
        "Row index out of bounds for conf/app.toml:7"
    );
    assert_eq!(
        report_line(&target, &TargetOutcome::NoPatternMatched),
        "No matching pattern found for version replacement in conf/app.toml:7"
    );
    assert!(!is_failure(&updated("1")));
    assert!(is_failure(&TargetOutcome::RowOutOfBounds));
    assert!(is_failure(&TargetOutcome::NoPatternMatched));
    assert!(is_failure(&TargetOutcome::ResolveFailed { cause: String::new() }));
}

#[test]
fn summary_counts_the_rewritten_lines() {
    assert_eq!(summary_line("conf/app.toml", 1), "Successfully updated 1 lines in conf/app.toml");
    assert_eq!(summary_line("a", 120), "Successfully updated 120 lines in a");
    assert_eq!(summary_line("", 0), "Successfully updated 0 lines in ");
}
