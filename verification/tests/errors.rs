//! Errors and how they read.

use scaffold_ai::error::{host_err, store_err, TriageError};
use scaffold_ai::pr::PullRequestRef;
use scaffold_ai::triage::{PrCategory, Priority};

#[test]
fn errors_read_with_their_class() {
    let s = || "x".to_string();
    assert_eq!(TriageError::InvalidModelOutput(s()).message(), "model output failed validation: x");
    assert_eq!(TriageError::Model(s()).message(), "model request failed: x");
    assert_eq!(TriageError::Host(s()).message(), "pull request host error: x");
    assert_eq!(TriageError::Billing(s()).message(), "billing error: x");
    assert_eq!(TriageError::Store(s()).message(), "storage error: x");
    assert_eq!(TriageError::Config(s()).message(), "invalid repo config: x");
    assert_eq!(host_err("fetch PR", "boom").message(), "pull request host error: fetch PR: boom");
    assert_eq!(store_err("boom").message(), "storage error: boom");
}

#[test]
fn pull_requests_compare_and_print() {
    let pr = |id, number| PullRequestRef {
        installation_id: id,
        owner: "o".to_string(),
        repo: "r".to_string(),
        number,
    };
    assert_eq!(pr(1, 20).to_text(), "o/r#20");
    assert!(pr(1, 2) == pr(1, 2).clone());
    assert!(pr(1, 2) != pr(2, 2));
    assert!(pr(1, 2) != pr(1, 3));
}

#[test]
fn labels_of_categories_and_priorities() {
    let labels: Vec<&str> = [PrCategory::BugFix, PrCategory::Feature, PrCategory::Docs, PrCategory::Chore, PrCategory::NeedsDiscussion]
        .iter()
        .map(|c| c.label())
        .collect();
    assert_eq!(labels, vec!["bug-fix", "feature", "docs", "chore", "needs-discussion"]);
    let labels: Vec<&str> = [Priority::Low, Priority::Medium, Priority::High].iter().map(|p| p.label()).collect();
    assert_eq!(labels, vec!["priority:low", "priority:medium", "priority:high"]);
}
