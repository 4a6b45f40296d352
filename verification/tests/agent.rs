//! Decisions, plans and runs of the triage agent.

use scaffold_ai::agent::{
    plan_actions, resolve_decision, skip_reason_before_fetch, validate_confidence, AgentEvent,
    AgentOutcome, TriageAgent,
};
use scaffold_ai::config::{RepoConfig, RepoConfigFile};
use scaffold_ai::error::TriageError;
use scaffold_ai::pr::{ChangedFile, CheckRun, PullRequestRef, PullRequestSnapshot};
use scaffold_ai::score::Score;
use scaffold_ai::time::UtcTime;
use scaffold_ai::triage::{
    Classification, ModelDecision, PolicyFindingKind, PrCategory, Priority, RiskLevel,
    TriageDecision, TriageTrigger,
};

fn score(value: f64) -> Score {
    Score::new(value.to_bits(), format!("{value}"))
}

fn classification(confidence: f64, category: PrCategory) -> Classification {
    Classification {
        category,
        confidence: score(confidence),
        summary: "s".to_string(),
        risk: RiskLevel::Low,
    }
}

fn model_decision(escalate: bool, confidence: f64) -> ModelDecision {
    ModelDecision {
        escalate,
        escalation_reason: None,
        comment_markdown: "c".to_string(),
        labels: vec![],
        priority: Priority::Medium,
        confidence: score(confidence),
    }
}

fn pr() -> PullRequestRef {
    PullRequestRef {
        installation_id: 42,
        owner: "acme".to_string(),
        repo: "demo".to_string(),
        number: 7,
    }
}

fn snapshot() -> PullRequestSnapshot {
    PullRequestSnapshot {
        pr: pr(),
        title: "Add add() helper".to_string(),
        body: "Adds a small addition helper used by the calculator module.".to_string(),
        author: "alice".to_string(),
        base_branch: "main".to_string(),
        head_branch: "feat/add".to_string(),
        head_sha: "abc123".to_string(),
        draft: false,
        mergeable: Some(true),
        diff: "+pub fn add() {}\n".to_string(),
        diff_truncated: false,
        changed_files: vec![ChangedFile {
            path: "src/lib.rs".to_string(),
            additions: 1,
            deletions: 0,
            status: "modified".to_string(),
        }],
        checks: Vec::<CheckRun>::new(),
    }
}

fn at(secs: i64) -> UtcTime {
    UtcTime::new(secs, 0).unwrap()
}

fn empty_file() -> RepoConfigFile {
    RepoConfigFile {
        maintainers: None,
        escalation_label: None,
        test_globs: None,
        source_globs: None,
        confidence_threshold: None,
        cooldown_minutes: None,
        triage_on_synchronize: None,
        min_description_chars: None,
        skip_drafts: None,
    }
}

fn no_config(secs: i64) -> AgentEvent {
    AgentEvent::ConfigFetched { fetched: Ok(None), now: at(secs) }
}

fn host_error() -> TriageError {
    TriageError::Host("boom".to_string())
}

#[test]
fn low_confidence_forces_escalation() {
    let d = resolve_decision(
        model_decision(false, 0.5),
        &classification(0.9, PrCategory::Feature),
        &RepoConfig::default(),
    );
    assert!(d.is_escalation());
}

#[test]
fn needs_discussion_forces_escalation() {
    let d = resolve_decision(
        model_decision(false, 0.95),
        &classification(0.95, PrCategory::NeedsDiscussion),
        &RepoConfig::default(),
    );
    assert!(d.is_escalation());
}

#[test]
fn confident_decision_proceeds() {
    let d = resolve_decision(
        model_decision(false, 0.9),
        &classification(0.9, PrCategory::BugFix),
        &RepoConfig::default(),
    );
    assert!(!d.is_escalation());
}

#[test]
fn out_of_range_confidence_is_invalid_output() {
    assert!(validate_confidence(&score(1.2), "decision").is_err());
    assert!(validate_confidence(&score(f64::NAN), "decision").is_err());
    assert!(validate_confidence(&score(0.0), "decision").is_ok());
}

#[test]
fn confidence_errors_name_the_step_and_the_value() {
    let e = validate_confidence(&score(1.2), "decision").unwrap_err();
    assert!(matches!(&e, TriageError::InvalidModelOutput(s) if s == "decision confidence 1.2 outside 0.0..=1.0"));
    let e = validate_confidence(&score(-0.5), "classification").unwrap_err();
    assert_eq!(
        e.message(),
        "model output failed validation: classification confidence -0.5 outside 0.0..=1.0"
    );
    assert!(validate_confidence(&score(-0.0), "x").is_ok());
    assert!(validate_confidence(&score(1.0), "x").is_ok());
    assert!(validate_confidence(&score(f64::INFINITY), "x").is_err());
}

#[test]
fn escalation_reasons_fall_back_in_order() {
    let config = RepoConfig::default();
    let reason = |d: ModelDecision, c: &Classification| match resolve_decision(d, c, &config) {
        TriageDecision::Escalate { reason, .. } => reason,
        TriageDecision::Proceed { .. } => panic!("expected an escalation"),
    };
    let mut given = model_decision(true, 0.9);
    given.escalation_reason = Some("touches auth".to_string());
    assert_eq!(reason(given, &classification(0.9, PrCategory::Feature)), "touches auth");
    let mut blank = model_decision(true, 0.9);
    blank.escalation_reason = Some("  \n".to_string());
    assert_eq!(
        reason(blank, &classification(0.9, PrCategory::NeedsDiscussion)),
        "PR classified as needing discussion before code review."
    );
    assert_eq!(
        reason(model_decision(false, 0.1), &classification(0.9, PrCategory::Feature)),
        "Confidence below the configured threshold (0.70)."
    );
}

#[test]
fn a_confidence_at_the_threshold_is_enough() {
    let d = resolve_decision(
        model_decision(false, 0.7),
        &classification(0.7, PrCategory::Docs),
        &RepoConfig::default(),
    );
    assert!(!d.is_escalation());
}

#[test]
fn plans_sort_labels_and_drop_repetitions() {
    let mut decision = model_decision(false, 0.9);
    decision.labels = vec![
        "needs-tests".to_string(),
        "feature".to_string(),
        "area:core".to_string(),
        "needs-tests".to_string(),
    ];
    let c = classification(0.9, PrCategory::Feature);
    let config = RepoConfig::default();
    let plan = plan_actions(&c, &resolve_decision(decision, &c, &config), &config);
    assert_eq!(plan.labels, vec!["area:core", "feature", "needs-tests", "priority:medium"]);
    assert_eq!(plan.comment, "c");
    assert!(plan.reviewers.is_empty());
}

#[test]
fn escalation_plans_mention_label_and_request() {
    let mut config = RepoConfig::default();
    let c = classification(0.9, PrCategory::Chore);
    let plan = plan_actions(&c, &resolve_decision(model_decision(true, 0.9), &c, &config), &config);
    assert_eq!(
        plan.comment,
        "c\n\n---\n\n⚠️ **Flagged for maintainer review** — cc the maintainers\n\n> Confidence below the configured threshold (0.70)."
    );
    assert_eq!(plan.labels, vec!["chore", "needs-maintainer-review", "priority:medium"]);
    assert!(plan.reviewers.is_empty());

    config.maintainers = vec!["alice".to_string(), "bob".to_string()];
    let plan = plan_actions(&c, &resolve_decision(model_decision(true, 0.9), &c, &config), &config);
    assert!(plan.comment.contains("cc @alice @bob\n\n> "));
    assert_eq!(plan.reviewers, vec!["alice", "bob"]);
}

#[test]
fn a_run_completes_step_by_step() {
    let mut decision = model_decision(false, 0.9);
    decision.labels = vec!["needs-tests".to_string()];
    let end = TriageAgent::new(pr(), TriageTrigger::Opened, None).run(vec![
        no_config(100),
        AgentEvent::SnapshotFetched(Ok(snapshot())),
        AgentEvent::Classified(Ok(classification(0.92, PrCategory::Feature))),
        AgentEvent::Decided(Ok(decision)),
        AgentEvent::CommentPosted(Ok(())),
        AgentEvent::LabelsAdded { added: Ok(()), now: at(200) },
    ]);
    match end {
        TriageAgent::Finished(Ok(AgentOutcome::Completed(report))) => {
            assert_eq!(report.pr.to_text(), "acme/demo#7");
            assert_eq!(report.finished_at.secs(), 200);
            assert!(!report.decision.is_escalation());
            assert_eq!(report.findings.len(), 1);
            assert_eq!(report.findings[0].kind, PolicyFindingKind::MissingTests);
        }
        other => panic!("unexpected end {other:?}"),
    }
}

#[test]
fn the_states_say_what_to_do() {
    let agent = TriageAgent::new(pr(), TriageTrigger::Opened, None);
    let agent = agent.step(no_config(1)).step(AgentEvent::SnapshotFetched(Ok(snapshot())));
    assert!(matches!(&agent, TriageAgent::Classify { findings, .. } if findings.len() == 1));
    let agent = agent.step(AgentEvent::Classified(Ok(classification(0.9, PrCategory::Docs))));
    assert!(matches!(&agent, TriageAgent::Decide { .. }));
    let agent = agent.step(AgentEvent::Decided(Ok(model_decision(false, 0.9))));
    match &agent {
        TriageAgent::PostComment(run) => {
            assert_eq!(run.plan.comment, "c");
            assert_eq!(run.plan.labels, vec!["docs", "priority:medium"]);
        }
        other => panic!("unexpected state {other:?}"),
    }
}

#[test]
fn a_reply_out_of_turn_changes_nothing() {
    let agent = TriageAgent::new(pr(), TriageTrigger::Opened, None);
    let agent = agent.step(AgentEvent::CommentPosted(Ok(())));
    assert!(matches!(agent, TriageAgent::FetchConfig { .. }));
    let done = agent.step(AgentEvent::ConfigFetched { fetched: Err(host_error()), now: at(0) });
    let done = done.step(AgentEvent::SnapshotFetched(Ok(snapshot())));
    assert!(matches!(done, TriageAgent::Finished(Err(TriageError::Host(_)))));
}

#[test]
fn drafts_are_skipped_unless_configured_otherwise() {
    let mut draft = snapshot();
    draft.draft = true;
    let end = TriageAgent::new(pr(), TriageTrigger::Opened, None)
        .run(vec![no_config(1), AgentEvent::SnapshotFetched(Ok(draft))]);
    assert!(matches!(end, TriageAgent::Finished(Ok(AgentOutcome::Skipped { reason })) if reason == "draft PR"));

    let mut file = empty_file();
    file.skip_drafts = Some(false);
    let mut draft = snapshot();
    draft.draft = true;
    let end = TriageAgent::new(pr(), TriageTrigger::Opened, None).run(vec![
        AgentEvent::ConfigFetched { fetched: Ok(Some(Ok(file))), now: at(1) },
        AgentEvent::SnapshotFetched(Ok(draft)),
    ]);
    assert!(matches!(end, TriageAgent::Classify { .. }));
}

#[test]
fn a_broken_config_file_falls_back_to_defaults() {
    let broken = AgentEvent::ConfigFetched {
        fetched: Ok(Some(Err("expected a value".to_string()))),
        now: at(1),
    };
    let agent = TriageAgent::new(pr(), TriageTrigger::Opened, None).step(broken);
    match agent {
        TriageAgent::FetchSnapshot { config, .. } => assert_eq!(config.cooldown_minutes, 10),
        other => panic!("unexpected state {other:?}"),
    }
}

#[test]
fn the_cooldown_holds_back_pushes_only() {
    let config = RepoConfig::default();
    let skip = |trigger, last: Option<UtcTime>, now: i64| {
        skip_reason_before_fetch(trigger, &config, &last, &at(now))
    };
    let reason = Some("within 10-minute re-triage cooldown".to_string());
    assert_eq!(skip(TriageTrigger::Synchronized, Some(at(0)), 599), reason);
    assert_eq!(skip(TriageTrigger::Synchronized, Some(at(0)), 600), None);
    assert_eq!(skip(TriageTrigger::Synchronized, None, 0), None);
    assert_eq!(skip(TriageTrigger::Opened, Some(at(0)), 1), None);
    assert_eq!(skip(TriageTrigger::Reopened, Some(at(0)), 1), None);

    let mut off = RepoConfig::default();
    off.triage_on_synchronize = false;
    assert_eq!(
        skip_reason_before_fetch(TriageTrigger::Synchronized, &off, &None, &at(0)),
        Some("triage_on_synchronize disabled in .scaffold.toml".to_string())
    );
    let mut huge = RepoConfig::default();
    huge.cooldown_minutes = u64::MAX;
    assert_eq!(
        skip_reason_before_fetch(TriageTrigger::Synchronized, &huge, &Some(at(0)), &at(1_000_000)),
        Some("within 18446744073709551615-minute re-triage cooldown".to_string())
    );
}

#[test]
fn a_run_in_the_cooldown_asks_for_nothing_more() {
    let end = TriageAgent::new(pr(), TriageTrigger::Synchronized, Some(at(0))).run(vec![
        no_config(30),
        AgentEvent::SnapshotFetched(Ok(snapshot())),
        AgentEvent::Classified(Ok(classification(0.9, PrCategory::Docs))),
    ]);
    assert!(matches!(end, TriageAgent::Finished(Ok(AgentOutcome::Skipped { .. }))));
}

#[test]
fn invalid_confidences_end_the_run() {
    let end = TriageAgent::new(pr(), TriageTrigger::Opened, None).run(vec![
        no_config(1),
        AgentEvent::SnapshotFetched(Ok(snapshot())),
        AgentEvent::Classified(Ok(classification(1.5, PrCategory::Docs))),
    ]);
    assert!(matches!(end, TriageAgent::Finished(Err(TriageError::InvalidModelOutput(_)))));
    let end = TriageAgent::new(pr(), TriageTrigger::Opened, None).run(vec![
        no_config(1),
        AgentEvent::SnapshotFetched(Ok(snapshot())),
        AgentEvent::Classified(Ok(classification(0.5, PrCategory::Docs))),
        AgentEvent::Decided(Ok(model_decision(false, -1.0))),
    ]);
    match end {
        TriageAgent::Finished(Err(TriageError::InvalidModelOutput(s))) => {
            assert_eq!(s, "decision confidence -1 outside 0.0..=1.0");
        }
        other => panic!("unexpected end {other:?}"),
    }
}

#[test]
fn every_failing_call_ends_the_run_but_the_reviewer_request() {
    let steps = |n: usize| -> Vec<AgentEvent> {
        let mut file = empty_file();
        file.maintainers = Some(vec!["alice".to_string()]);
        let all = vec![
            AgentEvent::ConfigFetched { fetched: Ok(Some(Ok(file))), now: at(1) },
            AgentEvent::SnapshotFetched(Ok(snapshot())),
            AgentEvent::Classified(Ok(classification(0.9, PrCategory::NeedsDiscussion))),
            AgentEvent::Decided(Ok(model_decision(false, 0.9))),
            AgentEvent::CommentPosted(Ok(())),
            AgentEvent::LabelsAdded { added: Ok(()), now: at(2) },
        ];
        all.into_iter().take(n).collect()
    };
    let failures = vec![
        AgentEvent::ConfigFetched { fetched: Err(host_error()), now: at(1) },
        AgentEvent::SnapshotFetched(Err(host_error())),
        AgentEvent::Classified(Err(host_error())),
        AgentEvent::Decided(Err(host_error())),
        AgentEvent::CommentPosted(Err(host_error())),
        AgentEvent::LabelsAdded { added: Err(host_error()), now: at(2) },
    ];
    for (n, failure) in failures.into_iter().enumerate() {
        let mut events = steps(n);
        events.push(failure);
        let end = TriageAgent::new(pr(), TriageTrigger::Opened, None).run(events);
        assert!(matches!(end, TriageAgent::Finished(Err(TriageError::Host(_)))));
    }
    let mut events = steps(6);
    events.push(AgentEvent::ReviewersRequested { requested: Err(host_error()), now: at(3) });
    let end = TriageAgent::new(pr(), TriageTrigger::Opened, None).run(events);
    match end {
        TriageAgent::Finished(Ok(AgentOutcome::Completed(report))) => {
            assert!(report.decision.is_escalation());
            assert_eq!(report.finished_at.secs(), 3);
        }
        other => panic!("unexpected end {other:?}"),
    }
}
