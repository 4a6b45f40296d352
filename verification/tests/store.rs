//! The job queue, the audit log and the usage journal.

use scaffold_ai::error::TriageError;
use scaffold_ai::pr::PullRequestRef;
use scaffold_ai::score::Score;
use scaffold_ai::store::{
    backoff_secs, failure_disposition, status_after_failure, trigger_from_str, trigger_to_str,
    InMemoryStore, MAX_JOB_ATTEMPTS,
};
use scaffold_ai::time::UtcTime;
use scaffold_ai::triage::{
    Classification, JobDisposition, PrCategory, Priority, RiskLevel, TriageActions, TriageDecision,
    TriageReport, TriageTrigger,
};

fn pr(number: u64) -> PullRequestRef {
    PullRequestRef {
        installation_id: 42,
        owner: "acme".to_string(),
        repo: "demo".to_string(),
        number,
    }
}

fn report(number: u64, secs: i64) -> TriageReport {
    TriageReport {
        pr: pr(number),
        trigger: TriageTrigger::Opened,
        classification: Classification {
            category: PrCategory::Feature,
            confidence: Score::new(1.0f64.to_bits(), "1".to_string()),
            summary: "s".to_string(),
            risk: RiskLevel::Low,
        },
        findings: vec![],
        decision: TriageDecision::Proceed {
            actions: TriageActions {
                comment_markdown: "c".to_string(),
                labels: vec![],
                priority: Priority::Low,
            },
        },
        finished_at: UtcTime::new(secs, 0).unwrap(),
    }
}

#[test]
fn deliveries_enqueue_once_and_come_out_in_order() {
    let mut store = InMemoryStore::new();
    assert!(store.enqueue_job("d-1", &pr(1), TriageTrigger::Opened).unwrap());
    assert!(store.enqueue_job("d-2", &pr(2), TriageTrigger::Reopened).unwrap());
    assert!(!store.enqueue_job("d-1", &pr(3), TriageTrigger::Synchronized).unwrap());
    let first = store.claim_next_job().unwrap().unwrap();
    assert_eq!((first.id, first.delivery_id.as_str(), first.attempts), (1, "d-1", 1));
    assert_eq!(first.pr.number, 1);
    assert_eq!(first.trigger, TriageTrigger::Opened);
    let second = store.claim_next_job().unwrap().unwrap();
    assert_eq!((second.id, second.pr.number), (2, 2));
    assert!(store.claim_next_job().unwrap().is_none());
    store.complete_job(1).unwrap();
    assert!(!store.enqueue_job("d-1", &pr(1), TriageTrigger::Opened).unwrap());
    assert!(store.claim_next_job().unwrap().is_none());
}

#[test]
fn a_failing_job_dies_after_three_attempts() {
    let mut store = InMemoryStore::new();
    store.enqueue_job("d", &pr(1), TriageTrigger::Opened).unwrap();
    for attempt in 1..=MAX_JOB_ATTEMPTS {
        let job = store.claim_next_job().unwrap().unwrap();
        assert_eq!(job.attempts, attempt);
        let d = store.fail_job(job.id, "boom").unwrap();
        let expected = if attempt == 3 { JobDisposition::Dead } else { JobDisposition::Retry };
        assert_eq!(d, expected);
    }
    assert!(store.claim_next_job().unwrap().is_none());
    assert_eq!(store.fail_job(1, "again").unwrap(), JobDisposition::Dead);
    assert!(store.claim_next_job().unwrap().is_none());
}

#[test]
fn a_retried_job_keeps_its_place() {
    let mut store = InMemoryStore::new();
    store.enqueue_job("a", &pr(1), TriageTrigger::Opened).unwrap();
    store.enqueue_job("b", &pr(2), TriageTrigger::Opened).unwrap();
    let a = store.claim_next_job().unwrap().unwrap();
    store.fail_job(a.id, "x").unwrap();
    assert_eq!(store.claim_next_job().unwrap().unwrap().id, a.id);
}

#[test]
fn unknown_jobs_fail_but_complete_silently() {
    let mut store = InMemoryStore::new();
    assert!(store.complete_job(7).is_ok());
    for id in [0i64, 7, -3, i64::MAX, i64::MIN] {
        match store.fail_job(id, "x") {
            Err(TriageError::Store(s)) => assert_eq!(s, format!("no such job {id}")),
            other => panic!("unexpected outcome {other:?}"),
        }
    }
}

#[test]
fn the_last_triage_is_the_latest_of_that_pull_request() {
    let mut store = InMemoryStore::new();
    assert!(store.last_triaged_at(&pr(1)).unwrap().is_none());
    store.record_audit(&report(1, 50)).unwrap();
    store.record_audit(&report(1, 20)).unwrap();
    store.record_audit(&report(2, 90)).unwrap();
    assert_eq!(store.last_triaged_at(&pr(1)).unwrap().unwrap().secs(), 50);
    assert_eq!(store.last_triaged_at(&pr(2)).unwrap().unwrap().secs(), 90);
    assert!(store.last_triaged_at(&pr(3)).unwrap().is_none());
    let mut other = pr(1);
    other.installation_id = 1;
    assert!(store.last_triaged_at(&other).unwrap().is_none());
    assert_eq!(store.audits().len(), 3);
    assert_eq!(store.audits()[1].finished_at.secs(), 20);
}

#[test]
fn journaled_usage_stays_until_it_is_settled() {
    let mut store = InMemoryStore::new();
    for n in 1..=3 {
        store.journal_untracked_usage(n, &pr(n)).unwrap();
    }
    assert_eq!(store.pending_usage_count(), 3);
    let batch = store.drain_untracked_usage(2).unwrap();
    assert_eq!(batch.iter().map(|u| u.id).collect::<Vec<i64>>(), vec![1, 2]);
    assert_eq!(batch[1].installation_id, 2);
    assert_eq!(batch[1].pr.number, 2);
    assert_eq!(store.pending_usage_count(), 3);
    store.mark_usage_tracked(2).unwrap();
    store.mark_usage_tracked(99).unwrap();
    store.mark_usage_tracked(0).unwrap();
    assert_eq!(store.pending_usage_count(), 2);
    let ids = |limit| -> Vec<i64> {
        store.drain_untracked_usage(limit).unwrap().iter().map(|u| u.id).collect()
    };
    assert_eq!(ids(50), vec![1, 3]);
    assert_eq!(ids(1), vec![1]);
    assert_eq!(ids(0), Vec::<i64>::new());
    assert_eq!(ids(-1), vec![1, 3]);
}

#[test]
fn triggers_are_stored_and_read_back() {
    for t in [TriageTrigger::Opened, TriageTrigger::Reopened, TriageTrigger::Synchronized] {
        assert_eq!(trigger_from_str(trigger_to_str(t)), t);
    }
    assert_eq!(trigger_to_str(TriageTrigger::Synchronized), "synchronized");
    assert_eq!(trigger_from_str("anything"), TriageTrigger::Opened);
}

#[test]
fn failures_wait_longer_each_time() {
    assert_eq!(backoff_secs(1), 30);
    assert_eq!(backoff_secs(2), 60);
    assert_eq!(backoff_secs(i32::MAX), 30 * i32::MAX as i64);
    assert_eq!(failure_disposition(2), JobDisposition::Retry);
    assert_eq!(failure_disposition(3), JobDisposition::Dead);
    assert_eq!(failure_disposition(4), JobDisposition::Dead);
    assert_eq!(status_after_failure(JobDisposition::Dead), "dead");
    assert_eq!(status_after_failure(JobDisposition::Retry), "queued");
}
