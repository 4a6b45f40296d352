//! End-to-end: a signed webhook goes in, the worker runs the full triage against
//! faked services, and the triage comment and labels come out.

use scaffold_ai::agent::{AgentEvent, AgentOutcome, TriageAgent};
use scaffold_ai::anthropic::{
    classify, decide, typed_answer, AnthropicConfig, AttemptReply, ModelCall,
};
use scaffold_ai::autumn::{
    ApiRequest, CheckReply, FeatureCheck, FeatureTrack, HttpReply, TrackReply,
};
use scaffold_ai::config::{RepoConfig, RepoConfigFile};
use scaffold_ai::error::TriageError;
use scaffold_ai::github::{
    CommentReply, CommentUpsert, FetchReply, FileEntry, PullRequestDetails, SnapshotFetch,
    COMMENT_MARKER,
};
use scaffold_ai::pr::{PullRequestRef, PullRequestSnapshot};
use scaffold_ai::routes::{
    answer_enqueued, github_webhook, handle_installation, handle_pull_request, BillingAction,
    PullRequestPlan, Route,
};
use scaffold_ai::score::Score;
use scaffold_ai::store::{InMemoryStore, MAX_JOB_ATTEMPTS};
use scaffold_ai::time::UtcTime;
use scaffold_ai::triage::{
    Classification, ModelDecision, PolicyFinding, PrCategory, Priority, RiskLevel, TriageJob,
};
use scaffold_ai::webhook::{
    sign, Installation, InstallationEvent, Owner, PullRequestEvent, Repository, RepositorySummary,
};
use scaffold_ai::wire::{ContentBlock, MessagesResponse};
use scaffold_ai::worker::{dead_job_labels, JobEvent, JobRun, RetrackEvent, Retracker, RETRACK_BATCH};

const WEBHOOK_SECRET: &str = "test-webhook-secret";

#[derive(Clone, Copy, PartialEq)]
enum Autumn {
    Allowed,
    Denied,
    Down,
}

struct Stack {
    store: InMemoryStore,
    autumn: Autumn,
    maintainers: Vec<String>,
    decision: String,
    model: AnthropicConfig,
    model_requests: Vec<String>,
    checks: usize,
    tracks: Vec<(String, String, i64)>,
    customers: Vec<String>,
    comments: Vec<String>,
    labels: Vec<Vec<String>>,
    requested: Vec<Vec<String>>,
}

fn stack(autumn: Autumn, maintainers: Vec<&str>, decision: &str) -> Stack {
    Stack {
        store: InMemoryStore::new(),
        autumn,
        maintainers: maintainers.into_iter().map(|s| s.to_string()).collect(),
        decision: decision.to_string(),
        model: AnthropicConfig::new("key", "model"),
        model_requests: vec![],
        checks: 0,
        tracks: vec![],
        customers: vec![],
        comments: vec![],
        labels: vec![],
        requested: vec![],
    }
}

const CLASSIFY: &str = "{\"category\": \"feature\", \"confidence\": 0.92, \
\"summary\": \"Adds an addition helper function.\", \"risk\": \"low\"}";

const CONFIDENT: &str = "{\"escalate\": false, \"escalation_reason\": null, \
\"comment_markdown\": \"Looks like a clean feature addition. Consider adding a unit test.\", \
\"labels\": [\"needs-tests\"], \"priority\": \"medium\", \"confidence\": 0.9}";

const UNSURE: &str = "{\"escalate\": false, \"escalation_reason\": null, \
\"comment_markdown\": \"This mixes refactoring with behavior changes.\", \
\"labels\": [], \"priority\": \"high\", \"confidence\": 0.4}";

fn score(v: &serde_json::Value) -> Option<Score> {
    v.as_f64().map(|f| Score::new(f.to_bits(), format!("{f}")))
}

fn read_classification(text: &str) -> Result<Classification, String> {
    let v: serde_json::Value = serde_json::from_str(text).map_err(|e| e.to_string())?;
    let category = match v["category"].as_str() {
        Some("feature") => PrCategory::Feature,
        _ => return Err("missing field `category`".to_string()),
    };
    Ok(Classification {
        category,
        confidence: score(&v["confidence"]).ok_or("missing field `confidence`")?,
        summary: v["summary"].as_str().ok_or("missing field `summary`")?.to_string(),
        risk: RiskLevel::Low,
    })
}

fn read_decision(text: &str) -> Result<ModelDecision, String> {
    let v: serde_json::Value = serde_json::from_str(text).map_err(|e| e.to_string())?;
    Ok(ModelDecision {
        escalate: v["escalate"].as_bool().ok_or("missing field `escalate`")?,
        escalation_reason: v["escalation_reason"].as_str().map(|s| s.to_string()),
        comment_markdown: v["comment_markdown"].as_str().ok_or("missing field")?.to_string(),
        labels: v["labels"]
            .as_array()
            .ok_or("missing field `labels`")?
            .iter()
            .map(|l| l.as_str().unwrap().to_string())
            .collect(),
        priority: match v["priority"].as_str() {
            Some("high") => Priority::High,
            _ => Priority::Medium,
        },
        confidence: score(&v["confidence"]).ok_or("missing field `confidence`")?,
    })
}

fn now() -> UtcTime {
    UtcTime::new(1_750_000_000, 0).unwrap()
}

impl Stack {
    fn post_pull_request(&mut self, delivery: &str) -> (u16, &'static str) {
        let body = "{\"action\": \"opened\", \"number\": 7, \"installation\": {\"id\": 42}, \
\"repository\": {\"name\": \"demo\", \"owner\": {\"login\": \"acme\"}}}"
            .as_bytes();
        let route = github_webhook(
            WEBHOOK_SECRET,
            body,
            &Some(sign(WEBHOOK_SECRET, body)),
            &Some("pull_request".to_string()),
            &Some(delivery.to_string()),
        );
        let delivery_id = match route {
            Route::PullRequest { delivery_id } => delivery_id,
            other => panic!("unexpected route {other:?}"),
        };
        let v: serde_json::Value = serde_json::from_slice(body).unwrap();
        let event = PullRequestEvent {
            action: v["action"].as_str().unwrap().to_string(),
            number: v["number"].as_u64().unwrap(),
            installation: Installation { id: v["installation"]["id"].as_u64().unwrap() },
            repository: Repository {
                name: v["repository"]["name"].as_str().unwrap().to_string(),
                owner: Owner {
                    login: v["repository"]["owner"]["login"].as_str().unwrap().to_string(),
                },
            },
        };
        match handle_pull_request(Ok(event)) {
            PullRequestPlan::Answered(a) => (a.status, a.text),
            PullRequestPlan::Enqueue { pr, trigger } => {
                let added = self.store.enqueue_job(&delivery_id, &pr, trigger);
                let a = answer_enqueued(&added);
                (a.status, a.text)
            }
        }
    }

    /// What the billing service answers: its status and its text.
    fn autumn_answer(&mut self, request: &ApiRequest) -> (u16, String) {
        match request.path.as_str() {
            "/check" => self.checks += 1,
            "/customers" => {
                self.customers.push(request.body.text_at("id").unwrap().to_string());
            }
            _ => {}
        }
        if self.autumn == Autumn::Down {
            return (500, "internal error".to_string());
        }
        if request.path == "/track" {
            let text = |key: &str| request.body.text_at(key).unwrap().to_string();
            self.tracks.push((
                text("customer_id"),
                text("feature_id"),
                request.body.int_at("value").unwrap(),
            ));
        }
        (200, format!("{{\"allowed\": {}}}", self.autumn == Autumn::Allowed))
    }

    fn check_triage(&mut self, installation_id: u64) -> scaffold_ai::autumn::BillingVerdict {
        let mut run = FeatureCheck::check_triage(installation_id);
        loop {
            if let FeatureCheck::Done(verdict) = run {
                return verdict;
            }
            let request = run.request().unwrap();
            let (status, body) = self.autumn_answer(&request);
            let allowed = serde_json::from_str::<serde_json::Value>(&body)
                .ok()
                .and_then(|v| v["allowed"].as_bool())
                .ok_or("missing field `allowed`".to_string());
            run = run.step(CheckReply::Checked(Ok(HttpReply {
                status,
                body,
                code: None,
                parsed: allowed,
            })));
        }
    }

    fn track(&mut self, start: FeatureTrack) -> Result<(), TriageError> {
        let mut run = start;
        loop {
            if let FeatureTrack::Done(result) = run {
                return result;
            }
            let request = run.request().unwrap();
            let (status, body) = self.autumn_answer(&request);
            run = run.step(TrackReply::Metered(Ok(HttpReply {
                status,
                body,
                code: None,
                parsed: Ok(()),
            })));
        }
    }

    fn fetch(&mut self, pr: PullRequestRef) -> Result<PullRequestSnapshot, TriageError> {
        let done = SnapshotFetch::fetch_snapshot(pr)
            .step(FetchReply::Details(Ok(PullRequestDetails {
                title: Some("Add add() helper".to_string()),
                body: Some("Adds a small addition helper used by the calculator module.".to_string()),
                author: Some("scaffold-ai[bot]".to_string()),
                base_branch: "main".to_string(),
                head_branch: "feat/add".to_string(),
                head_sha: "abc123".to_string(),
                draft: Some(false),
                mergeable: Some(true),
            })))
            .step(FetchReply::Diff(Ok(
                "diff --git a/src/lib.rs b/src/lib.rs\n+pub fn add(a: i32, b: i32) -> i32 { a + b }\n"
                    .to_string(),
            )))
            .step(FetchReply::Files(Ok(vec![FileEntry {
                filename: "src/lib.rs".to_string(),
                additions: 1,
                deletions: 0,
                status: "Modified".to_string(),
            }])))
            .step(FetchReply::Checks(Ok(vec![])));
        match done {
            SnapshotFetch::Done(result) => result,
            other => panic!("unexpected state {other:?}"),
        }
    }

    /// The text that the model answers a prompt with.
    fn ask(&mut self, prompt: String) -> Result<String, TriageError> {
        let answer = if self.decision == "::" {
            "\"::\"".to_string()
        } else if prompt.contains("Classification (from previous step)") {
            self.decision.clone()
        } else {
            CLASSIFY.to_string()
        };
        self.model_requests.push(prompt);
        let call = ModelCall::structured().step(AttemptReply::Answered {
            status: 200,
            retry_after: None,
            text: String::new(),
            response: Ok(MessagesResponse {
                content: vec![ContentBlock::Text { text: answer }],
                stop_reason: Some("end_turn".to_string()),
            }),
        });
        match call {
            ModelCall::Done(result) => result,
            other => panic!("unexpected state {other:?}"),
        }
    }

    fn ask_classification(&mut self, s: &PullRequestSnapshot) -> Result<Classification, TriageError> {
        let prompt = classify(&self.model, s).messages.remove(0).content;
        let text = self.ask(prompt)?;
        typed_answer(read_classification(&text))
    }

    fn ask_decision(
        &mut self,
        s: &PullRequestSnapshot,
        c: &Classification,
        findings: &Vec<PolicyFinding>,
        config: &RepoConfig,
    ) -> Result<ModelDecision, TriageError> {
        let prompt = decide(&self.model, s, c, findings, config).messages.remove(0).content;
        let text = self.ask(prompt)?;
        typed_answer(read_decision(&text))
    }

    fn post_comment(&mut self, body: &str) -> Result<(), TriageError> {
        let upsert =
            CommentUpsert::upsert_triage_comment(body).step(CommentReply::Listed(Ok(vec![])));
        match &upsert {
            CommentUpsert::Create { text } => self.comments.push(text.clone()),
            other => panic!("unexpected state {other:?}"),
        }
        match upsert.step(CommentReply::Created(Ok(()))) {
            CommentUpsert::Done(result) => result,
            other => panic!("unexpected state {other:?}"),
        }
    }

    fn run_agent(&mut self, start: TriageAgent) -> Result<AgentOutcome, TriageError> {
        let mut agent = start;
        loop {
            let event = match &agent {
                TriageAgent::FetchConfig { .. } => {
                    let fetched = if self.maintainers.is_empty() {
                        None
                    } else {
                        Some(Ok(RepoConfigFile {
                            maintainers: Some(self.maintainers.clone()),
                            escalation_label: None,
                            test_globs: None,
                            source_globs: None,
                            confidence_threshold: None,
                            cooldown_minutes: None,
                            triage_on_synchronize: None,
                            min_description_chars: None,
                            skip_drafts: None,
                        }))
                    };
                    AgentEvent::ConfigFetched { fetched: Ok(fetched), now: now() }
                }
                TriageAgent::FetchSnapshot { pr, .. } => {
                    AgentEvent::SnapshotFetched(self.fetch(pr.clone()))
                }
                TriageAgent::Classify { snapshot, .. } => {
                    AgentEvent::Classified(self.ask_classification(snapshot))
                }
                TriageAgent::Decide { snapshot, classification, findings, config, .. } => {
                    AgentEvent::Decided(self.ask_decision(snapshot, classification, findings, config))
                }
                TriageAgent::PostComment(run) => {
                    AgentEvent::CommentPosted(self.post_comment(&run.plan.comment))
                }
                TriageAgent::AddLabels(run) => {
                    self.labels.push(run.plan.labels.clone());
                    AgentEvent::LabelsAdded { added: Ok(()), now: now() }
                }
                TriageAgent::RequestReviewers(run) => {
                    self.requested.push(run.plan.reviewers.clone());
                    AgentEvent::ReviewersRequested { requested: Ok(()), now: now() }
                }
                TriageAgent::Finished(_) => break,
            };
            agent = agent.step(event);
        }
        match agent {
            TriageAgent::Finished(result) => result,
            other => panic!("unexpected state {other:?}"),
        }
    }

    fn process_job(&mut self, job: TriageJob) -> Result<(), TriageError> {
        let mut run = JobRun::process_job(job);
        loop {
            let comment = run.comment();
            let agent = run.agent();
            let event = match &run {
                JobRun::CheckBilling { job } => {
                    JobEvent::BillingChecked(self.check_triage(job.pr.installation_id))
                }
                JobRun::PostQuotaComment { .. } => {
                    JobEvent::QuotaCommentPosted(self.post_comment(comment.unwrap()))
                }
                JobRun::FetchLastTriage { job, .. } => {
                    JobEvent::LastTriageFetched(self.store.last_triaged_at(&job.pr))
                }
                JobRun::Triage { .. } => JobEvent::TriageEnded(self.run_agent(agent.unwrap())),
                JobRun::Meter { job, .. } => {
                    JobEvent::Metered(self.track(FeatureTrack::track_triage(job.pr.installation_id)))
                }
                JobRun::Journal { job, .. } => JobEvent::Journaled(
                    self.store.journal_untracked_usage(job.pr.installation_id, &job.pr),
                ),
                JobRun::Audit { report, .. } => JobEvent::Audited(self.store.record_audit(report)),
                JobRun::Complete { job } => JobEvent::Completed(self.store.complete_job(job.id)),
                JobRun::Fail { job, error } => JobEvent::Failed(self.store.fail_job(job.id, error)),
                JobRun::PostDeadComment { .. } => {
                    JobEvent::DeadCommentPosted(self.post_comment(comment.unwrap()))
                }
                JobRun::AddDeadLabel { .. } => {
                    self.labels.push(dead_job_labels());
                    JobEvent::DeadLabelAdded(Ok(()))
                }
                JobRun::Done(_) => break,
            };
            run = run.step(event);
        }
        match run {
            JobRun::Done(result) => result,
            other => panic!("unexpected state {other:?}"),
        }
    }

    fn drain_queue(&mut self) {
        while let Some(job) = self.store.claim_next_job().unwrap() {
            self.process_job(job).unwrap();
        }
    }

    /// One round of the re-tracker.
    fn retrack(&mut self) {
        let mut state = Retracker::run_usage_retracker().step(RetrackEvent::Woke);
        loop {
            let event = match &state {
                Retracker::Sleep => break,
                Retracker::Drain => {
                    RetrackEvent::Drained(self.store.drain_untracked_usage(RETRACK_BATCH))
                }
                Retracker::Track { batch } => {
                    let id = batch[0].installation_id;
                    RetrackEvent::Metered(self.track(FeatureTrack::track_triage(id)))
                }
                Retracker::Mark { usage_id, .. } => {
                    RetrackEvent::Marked(self.store.mark_usage_tracked(*usage_id))
                }
            };
            state = state.step(event);
        }
    }
}

#[test]
fn installation_created_onboards_customer_and_tracks_repos() {
    let mut s = stack(Autumn::Allowed, vec![], CONFIDENT);
    let body = b"{\"action\":\"created\",\"installation\":{\"id\":42},\
\"repositories\":[{\"full_name\":\"acme/demo\"}]}";
    let route = github_webhook(
        WEBHOOK_SECRET,
        body,
        &Some(sign(WEBHOOK_SECRET, body)),
        &Some("installation".to_string()),
        &Some("d-install".to_string()),
    );
    assert!(matches!(route, Route::Installation));
    let payload: serde_json::Value = serde_json::from_slice(body).unwrap();
    let (actions, answer) = handle_installation(&Ok(InstallationEvent {
        action: payload["action"].as_str().unwrap().to_string(),
        installation: Installation { id: payload["installation"]["id"].as_u64().unwrap() },
        repositories: payload["repositories"]
            .as_array()
            .unwrap()
            .iter()
            .map(|r| RepositorySummary { full_name: r["full_name"].as_str().unwrap().to_string() })
            .collect(),
    }));
    assert_eq!(answer.status, 200);
    for action in actions {
        match action {
            BillingAction::EnsureCustomer { installation_id } => {
                let request = scaffold_ai::autumn::customer_request(installation_id);
                assert_eq!(s.autumn_answer(&request).0, 200);
            }
            BillingAction::TrackRepo { installation_id, delta } => {
                s.track(FeatureTrack::track_repo(installation_id, delta)).unwrap();
            }
        }
    }
    assert_eq!(s.customers, vec!["gh-install-42"]);
    assert_eq!(s.tracks.len(), 1);
    assert_eq!(s.tracks[0].1, "repos");
    assert_eq!(s.tracks[0].2, 1);
}

#[test]
fn rejects_invalid_signature() {
    let body = b"{\"action\":\"opened\",\"installation\":{\"id\":42},\"number\":7,\
\"pull_request\":{\"number\":7},\"repository\":{\"name\":\"demo\",\"owner\":{\"login\":\"acme\"}}}";
    let route = github_webhook(
        WEBHOOK_SECRET,
        body,
        &Some("sha256=deadbeef".to_string()),
        &Some("pull_request".to_string()),
        &Some("d-1".to_string()),
    );
    assert!(matches!(route, Route::Answered(a) if a.status == 401));
}

#[test]
fn duplicate_deliveries_enqueue_once() {
    let mut s = stack(Autumn::Allowed, vec![], CONFIDENT);
    let (s1, _) = s.post_pull_request("d-dup");
    let (s2, b2) = s.post_pull_request("d-dup");
    assert_eq!(s1, 202);
    assert_eq!(s2, 200);
    assert!(b2.contains("duplicate"));

    let first = s.store.claim_next_job().unwrap();
    let second = s.store.claim_next_job().unwrap();
    assert!(first.is_some());
    assert!(second.is_none());
}

#[test]
fn full_pipeline_posts_comment_labels_and_meters_usage() {
    let mut s = stack(Autumn::Allowed, vec![], CONFIDENT);
    let (status, _) = s.post_pull_request("d-full");
    assert_eq!(status, 202);
    s.drain_queue();

    // Two model calls: classify + decide.
    assert_eq!(s.model_requests.len(), 2);

    // Billing: one check, one track, both for the installation's customer id.
    assert_eq!(s.checks, 1);
    assert_eq!(s.tracks.len(), 1);
    assert_eq!(s.tracks[0].0, "gh-install-42");
    assert_eq!(s.tracks[0].1, "pr_triage");

    // Sticky comment created with marker + model text; labels applied.
    assert_eq!(s.comments.len(), 1);
    assert!(s.comments[0].starts_with(COMMENT_MARKER));
    assert!(s.comments[0].contains("clean feature addition"));
    assert_eq!(s.labels.len(), 1);
    let has = |label: &str| s.labels[0].iter().any(|l| l == label);
    assert!(has("feature"));
    assert!(has("priority:medium"));
    assert!(has("needs-tests"));
    // Confident decision: no escalation label, nobody asked.
    assert!(!has("needs-maintainer-review"));
    assert!(s.requested.is_empty());

    // Audit recorded, nothing left in the usage journal.
    assert_eq!(s.store.audits().len(), 1);
    assert_eq!(s.store.pending_usage_count(), 0);
}

#[test]
fn low_confidence_escalates_with_mentions_and_reviewers() {
    let mut s = stack(Autumn::Allowed, vec!["alice", "bob"], UNSURE);
    s.post_pull_request("d-esc");
    s.drain_queue();

    let text = &s.comments[0];
    assert!(text.contains("@alice"));
    assert!(text.contains("@bob"));
    assert!(text.contains("Flagged for maintainer review"));
    assert!(s.labels[0].iter().any(|v| v == "needs-maintainer-review"));
    assert_eq!(s.requested.len(), 1);
    assert_eq!(s.requested[0], vec!["alice", "bob"]);
    assert!(s.store.audits()[0].decision.is_escalation());
}

#[test]
fn quota_denied_posts_quota_comment_and_skips_model() {
    let mut s = stack(Autumn::Denied, vec![], CONFIDENT);
    s.post_pull_request("d-quota");
    s.drain_queue();

    assert!(s.model_requests.is_empty());
    assert_eq!(s.comments.len(), 1);
    assert!(s.comments[0].contains("quota has been reached"));
    assert!(s.store.audits().is_empty());
}

#[test]
fn billing_outage_fails_open_and_journals_usage() {
    let mut s = stack(Autumn::Down, vec![], CONFIDENT);
    s.post_pull_request("d-outage");
    s.drain_queue();

    // Triage still happened (fail-open)...
    assert_eq!(s.comments.len(), 1);
    assert_eq!(s.store.audits().len(), 1);
    // ...and the usage is journaled for later re-tracking.
    assert_eq!(s.store.pending_usage_count(), 1);
    s.retrack();
    assert_eq!(s.store.pending_usage_count(), 1);

    // Billing recovers: the re-tracker drains the journal.
    s.autumn = Autumn::Allowed;
    s.retrack();
    assert_eq!(s.store.pending_usage_count(), 0);
    assert_eq!(s.tracks.len(), 1);
}

#[test]
fn malformed_model_output_fails_job_then_degrades_to_escalation() {
    let mut s = stack(Autumn::Allowed, vec![], "::");
    s.post_pull_request("d-bad-model");

    // Drive the job through all retry attempts to the dead state.
    for _ in 0..MAX_JOB_ATTEMPTS {
        if let Some(job) = s.store.claim_next_job().unwrap() {
            s.process_job(job).unwrap();
        }
    }

    // No audit (nothing was decided), but the failure is visible on the PR:
    // dead-job comment + escalation label.
    assert!(s.store.audits().is_empty());
    assert!(s.comments.last().unwrap().contains("could not complete automated triage"));
    assert!(s.labels.last().unwrap().iter().any(|v| v == "needs-maintainer-review"));
    assert!(s.store.claim_next_job().unwrap().is_none());
}
