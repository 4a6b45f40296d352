//! Deterministic policy checks.

use scaffold_ai::config::RepoConfig;
use scaffold_ai::policy::{
    build_globset, check, check_snapshot, failing_checks, skipped_globs, untested_change,
};
use scaffold_ai::pr::{
    ChangedFile, CheckConclusion, CheckRun, PullRequestRef, PullRequestSnapshot,
};
use scaffold_ai::triage::PolicyFindingKind;

fn snapshot(files: Vec<(&str, &str)>, body: &str) -> PullRequestSnapshot {
    PullRequestSnapshot {
        pr: PullRequestRef {
            installation_id: 1,
            owner: "o".to_string(),
            repo: "r".to_string(),
            number: 1,
        },
        title: "t".to_string(),
        body: body.to_string(),
        author: "a".to_string(),
        base_branch: "main".to_string(),
        head_branch: "feat".to_string(),
        head_sha: "abc".to_string(),
        draft: false,
        mergeable: Some(true),
        diff: String::new(),
        diff_truncated: false,
        changed_files: files
            .into_iter()
            .map(|(path, status)| ChangedFile {
                path: path.to_string(),
                additions: 1,
                deletions: 0,
                status: status.to_string(),
            })
            .collect(),
        checks: Vec::<CheckRun>::new(),
    }
}

#[test]
fn flags_missing_tests_for_source_only_change() {
    let s = snapshot(
        vec![("src/main.rs", "modified")],
        "A long enough description of what this change does and why.",
    );
    let findings = check(&s, &RepoConfig::default());
    assert!(findings
        .iter()
        .any(|f| f.kind == PolicyFindingKind::MissingTests));
}

#[test]
fn no_missing_tests_when_tests_touched() {
    let s = snapshot(
        vec![("src/main.rs", "modified"), ("tests/it.rs", "added")],
        "A long enough description of what this change does and why.",
    );
    let findings = check(&s, &RepoConfig::default());
    assert!(!findings
        .iter()
        .any(|f| f.kind == PolicyFindingKind::MissingTests));
}

#[test]
fn flags_short_description() {
    let s = snapshot(vec![("docs/x.md", "modified")], "fix");
    let findings = check(&s, &RepoConfig::default());
    assert!(findings
        .iter()
        .any(|f| f.kind == PolicyFindingKind::UnclearDescription));
}

#[test]
fn flags_merge_conflict() {
    let mut s = snapshot(
        vec![("docs/x.md", "modified")],
        "A long enough description of what this change does and why.",
    );
    s.mergeable = Some(false);
    let findings = check(&s, &RepoConfig::default());
    assert!(findings
        .iter()
        .any(|f| f.kind == PolicyFindingKind::MergeConflict));
}

#[test]
fn findings_come_in_order_with_their_details() {
    let mut s = snapshot(vec![("src/main.rs", "modified")], "  short  ");
    s.mergeable = Some(false);
    s.checks = vec![
        CheckRun { name: "lint".to_string(), conclusion: CheckConclusion::Failure },
        CheckRun { name: "build".to_string(), conclusion: CheckConclusion::Success },
        CheckRun { name: "e2e".to_string(), conclusion: CheckConclusion::TimedOut },
        CheckRun { name: "cla".to_string(), conclusion: CheckConclusion::ActionRequired },
        CheckRun { name: "old".to_string(), conclusion: CheckConclusion::Cancelled },
    ];
    let findings = check(&s, &RepoConfig::default());
    let details: Vec<&str> = findings.iter().map(|f| f.detail.as_str()).collect();
    assert_eq!(
        details,
        vec![
            "Branch `feat` has merge conflicts with `main`.",
            "Failing checks: lint, e2e, cla.",
            "PR description is under 40 characters; intent and context are hard to review.",
            "Source files changed but no test files were added or modified.",
        ]
    );
    assert_eq!(failing_checks(&s.checks), vec!["lint", "e2e", "cla"]);
}

#[test]
fn unknown_mergeability_is_no_conflict() {
    let mut s = snapshot(vec![], "x");
    s.mergeable = None;
    assert!(check_snapshot(&s, 0).is_empty());
}

#[test]
fn description_length_counts_characters_without_surrounding_blanks() {
    let s = snapshot(vec![], "\u{a0} äöü \n");
    assert!(check_snapshot(&s, 3).is_empty());
    assert_eq!(check_snapshot(&s, 4).len(), 1);
}

#[test]
fn untested_change_needs_source_and_no_tests() {
    assert!(untested_change(true, false).is_some());
    assert!(untested_change(true, true).is_none());
    assert!(untested_change(false, false).is_none());
    assert!(untested_change(false, true).is_none());
}

#[test]
fn invalid_globs_are_skipped() {
    let patterns = vec!["src/{".to_string(), "src/**".to_string()];
    let set = build_globset(&patterns).unwrap();
    assert!(set.is_match("src/a/b.rs"));
    assert!(!set.is_match("docs/a.md"));
    assert!(build_globset(&vec!["src/{".to_string()]).is_none());
    assert!(build_globset(&vec![]).is_none());

    let mut config = RepoConfig::default();
    config.source_globs = vec!["[".to_string(), "core/**".to_string()];
    let body = "A long enough description of what this change does and why.";
    let s = snapshot(vec![("core/x.rs", "modified")], body);
    assert_eq!(check(&s, &config).len(), 1);
    config.source_globs = vec!["[".to_string()];
    assert!(check(&s, &config).is_empty());
}

#[test]
fn findings_do_not_depend_on_the_diff() {
    let mut s = snapshot(vec![("src/main.rs", "modified")], "fix");
    let before = check(&s, &RepoConfig::default()).len();
    s.diff = "+something\n".to_string();
    assert_eq!(check(&s, &RepoConfig::default()).len(), before);
}

#[test]
fn skipped_globs_are_named() {
    let mut config = RepoConfig::default();
    assert!(skipped_globs(&config).is_empty());
    config.source_globs = vec!["src/**".to_string(), "a[".to_string()];
    config.test_globs = vec!["{b".to_string(), "tests/**".to_string(), "[z-a]".to_string()];
    assert_eq!(skipped_globs(&config), vec!["a[", "{b", "[z-a]"]);
}
