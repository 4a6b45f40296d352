//! Job processing and re-tracking, state by state.

use scaffold_ai::agent::{AgentOutcome, TriageAgent};
use scaffold_ai::autumn::BillingVerdict;
use scaffold_ai::error::TriageError;
use scaffold_ai::pr::PullRequestRef;
use scaffold_ai::score::Score;
use scaffold_ai::time::UtcTime;
use scaffold_ai::triage::{
    Classification, JobDisposition, PrCategory, Priority, RiskLevel, TriageActions, TriageDecision,
    TriageJob, TriageReport, TriageTrigger, UntrackedUsage,
};
use scaffold_ai::worker::{
    dead_job_labels, run_worker, JobEvent, JobRun, RetrackEvent, Retracker, WorkerAction,
    DEAD_JOB_COMMENT, QUOTA_COMMENT, RETRACK_BATCH,
};

fn pr() -> PullRequestRef {
    PullRequestRef {
        installation_id: 42,
        owner: "acme".to_string(),
        repo: "demo".to_string(),
        number: 7,
    }
}

fn job() -> TriageJob {
    TriageJob {
        id: 1,
        delivery_id: "d".to_string(),
        pr: pr(),
        trigger: TriageTrigger::Synchronized,
        attempts: 1,
    }
}

fn report() -> TriageReport {
    TriageReport {
        pr: pr(),
        trigger: TriageTrigger::Opened,
        classification: Classification {
            category: PrCategory::Feature,
            confidence: Score::new(1.0f64.to_bits(), "1".to_string()),
            summary: "s".to_string(),
            risk: RiskLevel::Low,
        },
        findings: vec![],
        decision: TriageDecision::Proceed {
            actions: TriageActions {
                comment_markdown: "c".to_string(),
                labels: vec![],
                priority: Priority::Low,
            },
        },
        finished_at: UtcTime::new(5, 0).unwrap(),
    }
}

fn down<T>() -> Result<T, TriageError> {
    Err(TriageError::Store("down".to_string()))
}

fn to_triage(verdict: BillingVerdict) -> JobRun {
    JobRun::process_job(job())
        .step(JobEvent::BillingChecked(verdict))
        .step(JobEvent::LastTriageFetched(Ok(UtcTime::new(3, 0))))
}

fn completed() -> JobEvent {
    JobEvent::TriageEnded(Ok(AgentOutcome::Completed(report())))
}

#[test]
fn allowed_jobs_are_metered_then_audited_then_completed() {
    let run = to_triage(BillingVerdict::Allowed);
    match run.agent() {
        Some(TriageAgent::FetchConfig { pr, trigger, last_triaged_at }) => {
            assert_eq!(pr.number, 7);
            assert_eq!(trigger, TriageTrigger::Synchronized);
            assert_eq!(last_triaged_at.unwrap().secs(), 3);
        }
        other => panic!("unexpected agent {other:?}"),
    }
    let run = run.step(completed());
    assert!(matches!(run, JobRun::Meter { .. }));
    assert!(run.agent().is_none());
    let run = run.step(JobEvent::Metered(Ok(())));
    assert!(matches!(&run, JobRun::Audit { report, .. } if report.finished_at.secs() == 5));
    let run = run.step(JobEvent::Audited(Ok(())));
    assert!(matches!(&run, JobRun::Complete { job } if job.id == 1));
    assert!(matches!(run.step(JobEvent::Completed(Ok(()))), JobRun::Done(Ok(()))));
}

#[test]
fn failed_metering_is_journaled() {
    let run = to_triage(BillingVerdict::Allowed)
        .step(completed())
        .step(JobEvent::Metered(Err(TriageError::Billing("x".to_string()))));
    assert!(matches!(&run, JobRun::Journal { .. }));
    let run = run.step(JobEvent::Journaled(Ok(())));
    assert!(matches!(run, JobRun::Audit { .. }));
}

#[test]
fn outages_journal_without_metering() {
    let run = to_triage(BillingVerdict::Unavailable).step(completed());
    assert!(matches!(run, JobRun::Journal { .. }));
}

#[test]
fn denied_jobs_post_the_quota_comment() {
    let run = JobRun::process_job(job())
        .step(JobEvent::BillingChecked(BillingVerdict::Denied { reason: "r".to_string() }));
    assert_eq!(run.comment(), Some(QUOTA_COMMENT));
    let run = run.step(JobEvent::QuotaCommentPosted(down()));
    assert!(matches!(run, JobRun::Complete { .. }));
    assert_eq!(run.comment(), None);
}

#[test]
fn skipped_jobs_are_completed() {
    let skipped = AgentOutcome::Skipped { reason: "draft PR".to_string() };
    let run = to_triage(BillingVerdict::Allowed).step(JobEvent::TriageEnded(Ok(skipped)));
    assert!(matches!(run, JobRun::Complete { .. }));
}

#[test]
fn failed_jobs_retry_or_die_visibly() {
    let failing = || {
        to_triage(BillingVerdict::Allowed)
            .step(JobEvent::TriageEnded(Err(TriageError::Model("x".to_string()))))
    };
    assert!(matches!(failing(), JobRun::Fail { error, .. } if error == "model request failed: x"));
    let retried = failing().step(JobEvent::Failed(Ok(JobDisposition::Retry)));
    assert!(matches!(retried, JobRun::Done(Ok(()))));
    let dead = failing().step(JobEvent::Failed(Ok(JobDisposition::Dead)));
    assert_eq!(dead.comment(), Some(DEAD_JOB_COMMENT));
    let dead = dead.step(JobEvent::DeadCommentPosted(down()));
    assert!(matches!(dead, JobRun::AddDeadLabel { .. }));
    assert!(matches!(dead.step(JobEvent::DeadLabelAdded(down())), JobRun::Done(Ok(()))));
    assert_eq!(dead_job_labels(), vec!["needs-maintainer-review"]);
}

#[test]
fn store_errors_end_a_run() {
    let ends = vec![
        JobRun::process_job(job())
            .step(JobEvent::BillingChecked(BillingVerdict::Allowed))
            .step(JobEvent::LastTriageFetched(down())),
        to_triage(BillingVerdict::Unavailable).step(completed()).step(JobEvent::Journaled(down())),
        to_triage(BillingVerdict::Allowed)
            .step(completed())
            .step(JobEvent::Metered(Ok(())))
            .step(JobEvent::Audited(down())),
        to_triage(BillingVerdict::Allowed)
            .step(JobEvent::TriageEnded(down()))
            .step(JobEvent::Failed(down())),
    ];
    for end in ends {
        assert!(matches!(end, JobRun::Done(Err(TriageError::Store(_)))));
    }
    let run = to_triage(BillingVerdict::Allowed).step(JobEvent::Completed(Ok(())));
    assert!(matches!(run, JobRun::Triage { .. }));
}

#[test]
fn the_worker_waits_without_a_job() {
    assert!(matches!(run_worker(Ok(None)), WorkerAction::Wait));
    assert!(matches!(run_worker(down()), WorkerAction::Wait));
    assert!(matches!(run_worker(Ok(Some(job()))), WorkerAction::Process(JobRun::CheckBilling { .. })));
}

#[test]
fn retracking_goes_through_the_batch_until_billing_fails() {
    let usage = |id| UntrackedUsage { id, installation_id: 42, pr: pr() };
    assert_eq!(RETRACK_BATCH, 50);
    let state = Retracker::run_usage_retracker().step(RetrackEvent::Woke);
    assert!(matches!(state, Retracker::Drain));
    let state = state.step(RetrackEvent::Drained(Ok(vec![usage(4), usage(5), usage(6)])));
    assert!(matches!(&state, Retracker::Track { batch } if batch[0].id == 4));
    let state = state.step(RetrackEvent::Metered(Ok(())));
    assert!(matches!(&state, Retracker::Mark { usage_id: 4, rest } if rest.len() == 2));
    let state = state.step(RetrackEvent::Marked(down()));
    assert!(matches!(&state, Retracker::Track { batch } if batch[0].id == 5));
    let stopped = state.step(RetrackEvent::Metered(down()));
    assert!(matches!(stopped, Retracker::Sleep));

    let last = Retracker::Track { batch: vec![usage(6)] }
        .step(RetrackEvent::Metered(Ok(())))
        .step(RetrackEvent::Marked(Ok(())));
    assert!(matches!(last, Retracker::Sleep));
    assert!(matches!(Retracker::Drain.step(RetrackEvent::Drained(Ok(vec![]))), Retracker::Sleep));
    assert!(matches!(Retracker::Drain.step(RetrackEvent::Drained(down())), Retracker::Sleep));
    assert!(matches!(Retracker::Sleep.step(RetrackEvent::Marked(Ok(()))), Retracker::Sleep));
}
