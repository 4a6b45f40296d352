//! Prompts and schemas.

use scaffold_ai::config::RepoConfig;
use scaffold_ai::json::Json;
use scaffold_ai::pr::{
    ChangedFile, CheckConclusion, CheckRun, PullRequestRef, PullRequestSnapshot,
};
use scaffold_ai::prompts::{
    classification_schema, decision_schema, render_decision_input, render_snapshot,
    CLASSIFY_SYSTEM, DECIDE_SYSTEM, DIFF_PROMPT_BUDGET,
};
use scaffold_ai::score::Score;
use scaffold_ai::triage::{
    Classification, PolicyFinding, PolicyFindingKind, PrCategory, RiskLevel,
};

fn snapshot() -> PullRequestSnapshot {
    PullRequestSnapshot {
        pr: PullRequestRef {
            installation_id: 42,
            owner: "acme".to_string(),
            repo: "demo".to_string(),
            number: 7,
        },
        title: "Add add() helper".to_string(),
        body: "Adds a helper.".to_string(),
        author: "alice".to_string(),
        base_branch: "main".to_string(),
        head_branch: "feat/add".to_string(),
        head_sha: "abc123".to_string(),
        draft: false,
        mergeable: Some(true),
        diff: "+x\n".to_string(),
        diff_truncated: false,
        changed_files: vec![
            ChangedFile {
                path: "src/lib.rs".to_string(),
                additions: 10,
                deletions: 2,
                status: "modified".to_string(),
            },
            ChangedFile {
                path: "a.md".to_string(),
                additions: 0,
                deletions: 0,
                status: "renamed".to_string(),
            },
        ],
        checks: vec![],
    }
}

/// A value as `serde_json` has it.
fn value(json: &Json) -> serde_json::Value {
    match json {
        Json::Null => serde_json::Value::Null,
        Json::Bool(b) => serde_json::Value::Bool(*b),
        Json::Int(n) => serde_json::Value::from(*n),
        Json::Number(s) => serde_json::from_str(s).unwrap(),
        Json::Str(s) => serde_json::Value::String(s.clone()),
        Json::Array(items) => serde_json::Value::Array(items.iter().map(value).collect()),
        Json::Object(members) => serde_json::Value::Object(
            members.iter().map(|m| (m.key.clone(), value(&m.value))).collect(),
        ),
    }
}

#[test]
fn snapshots_render_every_section() {
    assert_eq!(
        render_snapshot(&snapshot()),
        "# PR acme/demo#7: Add add() helper\n\nAuthor: alice\nBranch: feat/add -> main\nDraft: false\nMergeable: yes\n\n\
## Description\n\nAdds a helper.\n\n## Changed files\n\n- src/lib.rs (modified, +10 -2)\n- a.md (renamed, +0 -0)\n\
\n## Diff\n\n```diff\n+x\n\n```\n"
    );
}

#[test]
fn checks_drafts_and_conflicts_show() {
    let mut s = snapshot();
    s.draft = true;
    s.mergeable = Some(false);
    s.body = " \n".to_string();
    s.checks = vec![
        (CheckConclusion::Success, "a"),
        (CheckConclusion::Failure, "b"),
        (CheckConclusion::Neutral, "c"),
        (CheckConclusion::Cancelled, "d"),
        (CheckConclusion::TimedOut, "e"),
        (CheckConclusion::ActionRequired, "f"),
        (CheckConclusion::Skipped, "g"),
        (CheckConclusion::Pending, "h"),
    ]
    .into_iter()
    .map(|(conclusion, name)| CheckRun { name: name.to_string(), conclusion })
    .collect();
    let out = render_snapshot(&s);
    assert!(out.contains("Draft: true\nMergeable: NO (conflicts)\n"));
    assert!(out.contains("## Description\n\n(empty)\n\n"));
    assert!(out.contains(
        "\n## CI checks\n\n- a: success\n- b: FAILURE\n- c: neutral\n- d: cancelled\n- e: TIMED OUT\n- f: ACTION REQUIRED\n- g: skipped\n- h: pending\n\n## Diff"
    ));
    s.mergeable = None;
    assert!(render_snapshot(&s).contains("Mergeable: unknown\n"));
}

#[test]
fn long_diffs_are_clipped_and_marked() {
    let note = "\n(NOTE: diff truncated — judge from what is shown and lower confidence if the omitted part matters.)\n";
    let mut s = snapshot();
    s.diff = "ä".repeat(DIFF_PROMPT_BUDGET / 2);
    assert!(!render_snapshot(&s).contains("NOTE"));
    s.diff.push('x');
    let out = render_snapshot(&s);
    assert!(out.ends_with(note));
    assert_eq!(out.matches('ä').count(), DIFF_PROMPT_BUDGET / 2);
    let mut s = snapshot();
    s.diff_truncated = true;
    assert!(render_snapshot(&s).ends_with(note));
}

#[test]
fn decision_input_adds_classification_findings_and_threshold() {
    let classification = Classification {
        category: PrCategory::BugFix,
        confidence: Score::new(0.925f64.to_bits(), "0.925".to_string()),
        summary: "Fixes it.".to_string(),
        risk: RiskLevel::High,
    };
    let findings = vec![PolicyFinding {
        kind: PolicyFindingKind::FailingCi,
        detail: "Failing checks: b.".to_string(),
    }];
    let s = snapshot();
    let base = render_snapshot(&s);
    assert_eq!(
        render_decision_input(&s, &classification, &findings, &RepoConfig::default()),
        format!(
            "{base}\n## Classification (from previous step)\n\ncategory: BugFix\nconfidence: {:.2}\nrisk: High\nsummary: Fixes it.\n\
\n## Policy findings (deterministic checks — authoritative)\n\n- [FailingCi] Failing checks: b.\n\
\n## Repo policy\n\nDecisions below 0.70 confidence are escalated to a human automatically.\n",
            0.925f64
        )
    );
    let none = render_decision_input(&s, &classification, &vec![], &RepoConfig::default());
    assert!(none.contains("authoritative)\n\n(none)\n\n## Repo policy"));
}

#[test]
fn schemas_serialize_as_documented() {
    let schema = value(&classification_schema());
    assert_eq!(schema["type"], "object");
    assert_eq!(schema["additionalProperties"], false);
    assert_eq!(schema["required"].to_string(), "[\"category\",\"confidence\",\"summary\",\"risk\"]");
    assert_eq!(
        schema["properties"]["category"]["enum"].to_string(),
        "[\"bug_fix\",\"feature\",\"docs\",\"chore\",\"needs_discussion\"]"
    );
    assert_eq!(schema["properties"]["confidence"]["type"], "number");
    assert_eq!(
        schema["properties"]["risk"]["description"],
        "Blast radius if this change is wrong (core logic/security = high, docs = low)."
    );
    let schema = value(&decision_schema());
    assert_eq!(schema["properties"]["escalation_reason"]["type"].to_string(), "[\"string\",\"null\"]");
    assert_eq!(schema["properties"]["labels"]["items"]["type"], "string");
    assert_eq!(schema["properties"]["escalate"]["type"], "boolean");
    assert_eq!(schema["properties"]["priority"]["enum"].to_string(), "[\"low\",\"medium\",\"high\"]");
    assert_eq!(schema["required"].as_array().unwrap().len(), 6);
    assert_eq!(schema["properties"].as_object().unwrap().len(), 6);
}

#[test]
fn system_prompts_are_one_paragraph_each() {
    assert!(CLASSIFY_SYSTEM.starts_with("You are Scaffold AI, a pull-request triage assistant"));
    assert!(CLASSIFY_SYSTEM.ends_with("is worse than a low-confidence escalation."));
    assert!(DECIDE_SYSTEM.ends_with("mentions are added by the system."));
    assert!(!DECIDE_SYSTEM.contains('\n'));
    assert_eq!(CLASSIFY_SYSTEM.matches('\n').count(), 1);
}
