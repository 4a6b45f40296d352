//! The job queue, the audit log and the usage journal: an in-memory store, and
//! the rules it shares with a database.

use vstd::prelude::*;

use crate::error::{TriageError, TriageErrorView};
use crate::pr::{PullRequestRef, PullRequestRefView};
use crate::text::{
    lemma_views_push, option_view, same_text, signed_decimal, signed_decimal_text, views,
};
use crate::time::{earlier, InstantView, UtcTime};
use crate::triage::{
    JobDisposition, TriageJob, TriageJobView, TriageReport, TriageReportView, TriageTrigger,
    UntrackedUsage, UntrackedUsageView,
};

verus! {

/// How a trigger is stored.
pub open spec fn trigger_text(t: TriageTrigger) -> Seq<char> {
    match t {
        TriageTrigger::Opened => "opened"@,
        TriageTrigger::Reopened => "reopened"@,
        TriageTrigger::Synchronized => "synchronized"@,
    }
}

/// The trigger that a stored text stands for; an unknown one reads as opened.
pub open spec fn trigger_of_text(s: Seq<char>) -> TriageTrigger {
    if s == "reopened"@ {
        TriageTrigger::Reopened
    } else if s == "synchronized"@ {
        TriageTrigger::Synchronized
    } else {
        TriageTrigger::Opened
    }
}

pub fn trigger_to_str(t: TriageTrigger) -> (s: &'static str)
    ensures
        s@ == trigger_text(t),
{
    match t {
        TriageTrigger::Opened => "opened",
        TriageTrigger::Reopened => "reopened",
        TriageTrigger::Synchronized => "synchronized",
    }
}

pub fn trigger_from_str(s: &str) -> (t: TriageTrigger)
    ensures
        t == trigger_of_text(s@),
{
    if same_text(s, "reopened") {
        TriageTrigger::Reopened
    } else if same_text(s, "synchronized") {
        TriageTrigger::Synchronized
    } else {
        TriageTrigger::Opened
    }
}

/// A stored trigger reads back as it was.
pub proof fn law_trigger_round_trip(t: TriageTrigger)
    ensures
        trigger_of_text(trigger_text(t)) == t,
{
    reveal_strlit("opened");
    reveal_strlit("reopened");
    reveal_strlit("synchronized");
    assert("opened"@.len() == 6 && "reopened"@.len() == 8 && "synchronized"@.len() == 12);
}

/// Attempts after which a job is declared dead and the worker degrades to
/// human escalation.
pub const MAX_JOB_ATTEMPTS: i32 = 3;

/// Seconds that a retry waits for each attempt made.
pub const BACKOFF_SECS: i64 = 30;

/// What happens to a job that failed after so many attempts.
pub open spec fn disposition_after(attempts: int) -> JobDisposition {
    if attempts >= MAX_JOB_ATTEMPTS {
        JobDisposition::Dead
    } else {
        JobDisposition::Retry
    }
}

/// What happens to a job that failed after so many attempts.
pub fn failure_disposition(attempts: i32) -> (d: JobDisposition)
    ensures
        d == disposition_after(attempts as int),
{
    if attempts >= MAX_JOB_ATTEMPTS {
        JobDisposition::Dead
    } else {
        JobDisposition::Retry
    }
}

/// Seconds until a failed job may be claimed again: linear in its attempts.
pub fn backoff_secs(attempts: i32) -> (secs: i64)
    ensures
        secs == 30 * attempts,
{
    BACKOFF_SECS * attempts as i64
}

/// How a job status is stored after a failure.
pub fn status_after_failure(d: JobDisposition) -> (s: &'static str)
    ensures
        s@ == (match d {
            JobDisposition::Dead => "dead"@,
            JobDisposition::Retry => "queued"@,
        }),
{
    match d {
        JobDisposition::Dead => "dead",
        JobDisposition::Retry => "queued",
    }
}

/// Where a job is on its way.
#[derive(Debug, Clone, Copy, PartialEq, Eq, Structural)]
pub enum JobStatus {
    Queued,
    Running,
    Done,
    Dead,
}

#[derive(Debug)]
struct StoredJob {
    id: i64,
    delivery_id: String,
    pr: PullRequestRef,
    trigger: TriageTrigger,
    attempts: i32,
    status: JobStatus,
}

/// A stored job's model.
pub struct StoredJobView {
    pub id: i64,
    pub delivery_id: Seq<char>,
    pub pr: PullRequestRefView,
    pub trigger: TriageTrigger,
    pub attempts: i32,
    pub status: JobStatus,
}

impl View for StoredJob {
    type V = StoredJobView;

    closed spec fn view(&self) -> StoredJobView {
        StoredJobView {
            id: self.id,
            delivery_id: self.delivery_id@,
            pr: self.pr@,
            trigger: self.trigger,
            attempts: self.attempts,
            status: self.status,
        }
    }
}

#[derive(Debug)]
struct StoredUsage {
    id: i64,
    installation_id: u64,
    pr: PullRequestRef,
    settled: bool,
}

/// A journal entry's model.
pub struct StoredUsageView {
    pub id: i64,
    pub installation_id: u64,
    pub pr: PullRequestRefView,
    pub settled: bool,
}

impl View for StoredUsage {
    type V = StoredUsageView;

    closed spec fn view(&self) -> StoredUsageView {
        StoredUsageView {
            id: self.id,
            installation_id: self.installation_id,
            pr: self.pr@,
            settled: self.settled,
        }
    }
}

/// In-memory store for tests and runs without a database: idempotent enqueue,
/// attempt-capped retries.
#[derive(Debug)]
pub struct InMemoryStore {
    jobs: Vec<StoredJob>,
    audits: Vec<TriageReport>,
    usage: Vec<StoredUsage>,
}

/// What a store holds, each list in the order of arrival.
pub struct StoreView {
    pub jobs: Seq<StoredJobView>,
    pub audits: Seq<TriageReportView>,
    pub usage: Seq<StoredUsageView>,
}

impl View for InMemoryStore {
    type V = StoreView;

    closed spec fn view(&self) -> StoreView {
        StoreView {
            jobs: views(self.jobs@),
            audits: views(self.audits@),
            usage: views(self.usage@),
        }
    }
}

/// Whether a store could have come about: ids count from one, no delivery is
/// there twice, no job has more attempts than allowed, one that waits has one
/// left and a dead one has none.
pub open spec fn valid_store(s: StoreView) -> bool {
    &&& forall|i: int| 0 <= i < s.jobs.len() ==> (#[trigger] s.jobs[i]).id == i + 1
    &&& forall|i: int|
        0 <= i < s.jobs.len() ==> 0 <= (#[trigger] s.jobs[i]).attempts <= MAX_JOB_ATTEMPTS
    &&& forall|i: int|
        0 <= i < s.jobs.len() && (#[trigger] s.jobs[i]).status == JobStatus::Queued
            ==> s.jobs[i].attempts < MAX_JOB_ATTEMPTS
    &&& forall|i: int|
        0 <= i < s.jobs.len() && (#[trigger] s.jobs[i]).status == JobStatus::Dead
            ==> s.jobs[i].attempts == MAX_JOB_ATTEMPTS
    &&& forall|i: int, j: int|
        0 <= i < j < s.jobs.len() ==> (#[trigger] s.jobs[i]).delivery_id != (
        #[trigger] s.jobs[j]).delivery_id
    &&& forall|i: int| 0 <= i < s.usage.len() ==> (#[trigger] s.usage[i]).id == i + 1
}

/// The store with nothing in it.
pub open spec fn empty_store() -> StoreView {
    StoreView { jobs: Seq::empty(), audits: Seq::empty(), usage: Seq::empty() }
}

/// Whether a delivery has been enqueued before.
pub open spec fn delivery_seen(jobs: Seq<StoredJobView>, delivery_id: Seq<char>) -> bool {
    exists|i: int| 0 <= i < jobs.len() && (#[trigger] jobs[i]).delivery_id == delivery_id
}

/// The store after a delivery: one more waiting job, unless it was seen before.
pub open spec fn enqueued(
    s: StoreView,
    delivery_id: Seq<char>,
    pr: PullRequestRefView,
    trigger: TriageTrigger,
) -> StoreView {
    if delivery_seen(s.jobs, delivery_id) {
        s
    } else {
        let job = StoredJobView {
            id: (s.jobs.len() + 1) as i64,
            delivery_id,
            pr,
            trigger,
            attempts: 0,
            status: JobStatus::Queued,
        };
        StoreView { jobs: s.jobs.push(job), ..s }
    }
}

/// Whether the job at `i` is the first that waits.
pub open spec fn is_next(jobs: Seq<StoredJobView>, i: int) -> bool {
    &&& 0 <= i < jobs.len()
    &&& jobs[i].status == JobStatus::Queued
    &&& forall|k: int| 0 <= k < i ==> (#[trigger] jobs[k]).status != JobStatus::Queued
}

/// The place of the first job that waits.
pub open spec fn next_queued(jobs: Seq<StoredJobView>) -> Option<int> {
    if exists|i: int| is_next(jobs, i) {
        Some(choose|i: int| is_next(jobs, i))
    } else {
        None
    }
}

/// The first job that waits is the only one of its kind.
proof fn lemma_next_is_unique(jobs: Seq<StoredJobView>, i: int)
    requires
        is_next(jobs, i),
    ensures
        next_queued(jobs) == Some(i),
{
    let j = choose|j: int| is_next(jobs, j);
    assert(is_next(jobs, j));
    if i < j {
        assert(jobs[i].status != JobStatus::Queued);
    } else if j < i {
        assert(jobs[j].status != JobStatus::Queued);
    }
}

/// Where no job waits, none is the first.
proof fn lemma_no_next(jobs: Seq<StoredJobView>)
    requires
        forall|k: int| 0 <= k < jobs.len() ==> (#[trigger] jobs[k]).status != JobStatus::Queued,
    ensures
        next_queued(jobs) is None,
{
    if exists|i: int| is_next(jobs, i) {
        let i = choose|i: int| is_next(jobs, i);
        assert(jobs[i].status != JobStatus::Queued);
    }
}

/// A job once it is claimed: running, with one more attempt.
pub open spec fn claimed_job(job: StoredJobView) -> StoredJobView {
    StoredJobView { attempts: (job.attempts + 1) as i32, status: JobStatus::Running, ..job }
}

/// The store after a claim.
pub open spec fn claimed(s: StoreView) -> StoreView {
    match next_queued(s.jobs) {
        Some(i) => StoreView { jobs: s.jobs.update(i, claimed_job(s.jobs[i])), ..s },
        None => s,
    }
}

/// What a claim hands out.
pub open spec fn handed_out(job: StoredJobView) -> TriageJobView {
    TriageJobView {
        id: job.id,
        delivery_id: job.delivery_id,
        pr: job.pr,
        trigger: job.trigger,
        attempts: job.attempts,
    }
}

/// Whether a job has this id.
pub open spec fn has_job(jobs: Seq<StoredJobView>, id: i64) -> bool {
    1 <= id <= jobs.len()
}

/// The store with the job of an id in another status.
pub open spec fn with_status(s: StoreView, id: i64, status: JobStatus) -> StoreView {
    if has_job(s.jobs, id) {
        StoreView {
            jobs: s.jobs.update(id - 1, StoredJobView { status, ..s.jobs[id - 1] }),
            ..s
        }
    } else {
        s
    }
}

/// The store after a job is complete.
pub open spec fn completed_store(s: StoreView, id: i64) -> StoreView {
    with_status(s, id, JobStatus::Done)
}

/// The status of a job that failed after so many attempts.
pub open spec fn failed_status(attempts: int) -> JobStatus {
    match disposition_after(attempts) {
        JobDisposition::Dead => JobStatus::Dead,
        JobDisposition::Retry => JobStatus::Queued,
    }
}

/// The store after a job failed.
pub open spec fn failed_store(s: StoreView, id: i64) -> StoreView {
    with_status(s, id, failed_status(s.jobs[id - 1].attempts as int))
}

/// The latest end among the reports of a pull request.
pub open spec fn last_triage(audits: Seq<TriageReportView>, pr: PullRequestRefView) -> Option<
    InstantView,
>
    decreases audits.len(),
{
    if audits.len() == 0 {
        None
    } else {
        let rest = last_triage(audits.drop_last(), pr);
        if audits.last().pr != pr {
            rest
        } else {
            match rest {
                Some(t) if earlier(audits.last().finished_at, t) => Some(t),
                _ => Some(audits.last().finished_at),
            }
        }
    }
}

/// The journal after one more entry.
pub open spec fn journaled(s: StoreView, installation_id: u64, pr: PullRequestRefView) -> StoreView {
    let entry = StoredUsageView {
        id: (s.usage.len() + 1) as i64,
        installation_id,
        pr,
        settled: false,
    };
    StoreView { usage: s.usage.push(entry), ..s }
}

/// The store after a journal entry has been tracked.
pub open spec fn settled_store(s: StoreView, id: i64) -> StoreView {
    if 1 <= id <= s.usage.len() {
        StoreView {
            usage: s.usage.update(id - 1, StoredUsageView { settled: true, ..s.usage[id - 1] }),
            ..s
        }
    } else {
        s
    }
}

/// The entries that are not tracked yet, oldest first.
pub open spec fn pending(usage: Seq<StoredUsageView>) -> Seq<StoredUsageView> {
    usage.filter(|u: StoredUsageView| !u.settled)
}

/// What the journal hands out of an entry.
pub open spec fn usage_event(u: StoredUsageView) -> UntrackedUsageView {
    UntrackedUsageView { id: u.id, installation_id: u.installation_id, pr: u.pr }
}

/// The first entries of a list: as many as `limit` says, all where there are
/// fewer or where it is negative.
pub open spec fn up_to<T>(list: Seq<T>, limit: i64) -> Seq<T> {
    if 0 <= limit < list.len() {
        list.take(limit as int)
    } else {
        list
    }
}

/// Filtering one more item.
proof fn lemma_filter_take<T>(list: Seq<T>, keep: spec_fn(T) -> bool, i: int)
    requires
        0 <= i < list.len(),
    ensures
        list.take(i + 1).filter(keep) == if keep(list[i]) {
            list.take(i).filter(keep).push(list[i])
        } else {
            list.take(i).filter(keep)
        },
{
    reveal(Seq::filter);
    assert(list.take(i + 1).drop_last() =~= list.take(i));
}

/// The filter of a prefix is a prefix of the filter.
proof fn lemma_filter_prefix<T>(list: Seq<T>, keep: spec_fn(T) -> bool, i: int)
    requires
        0 <= i <= list.len(),
    ensures
        list.take(i).filter(keep).len() <= list.filter(keep).len(),
        list.filter(keep).take(list.take(i).filter(keep).len() as int) == list.take(i).filter(keep),
    decreases list.len() - i,
{
    if i == list.len() {
        assert(list.take(i) =~= list);
        assert(list.filter(keep).take(list.filter(keep).len() as int) =~= list.filter(keep));
    } else {
        lemma_filter_prefix(list, keep, i + 1);
        lemma_filter_take(list, keep, i);
        let a = list.take(i).filter(keep);
        let b = list.take(i + 1).filter(keep);
        assert(list.filter(keep).take(a.len() as int) =~= b.take(a.len() as int));
        assert(b.take(a.len() as int) =~= a);
    }
}

impl InMemoryStore {
    pub fn new() -> (store: Self)
        ensures
            store@ == empty_store(),
            valid_store(store@),
    {
        let store = InMemoryStore { jobs: Vec::new(), audits: Vec::new(), usage: Vec::new() };
        proof {
            assert(store@.jobs =~= Seq::<StoredJobView>::empty());
            assert(store@.audits =~= Seq::<TriageReportView>::empty());
            assert(store@.usage =~= Seq::<StoredUsageView>::empty());
        }
        store
    }

    /// All recorded audit reports.
    pub fn audits(&self) -> (list: Vec<TriageReport>)
        ensures
            views(list@) == self@.audits,
    {
        let mut list: Vec<TriageReport> = Vec::new();
        let mut i: usize = 0;
        while i < self.audits.len()
            invariant
                i <= self.audits@.len(),
                views(list@) == self@.audits.take(i as int),
            decreases self.audits.len() - i,
        {
            let item = self.audits[i].clone();
            proof {
                lemma_views_push(list@, item);
                assert(self@.audits.take(i + 1) =~= self@.audits.take(i as int).push(item@));
            }
            list.push(item);
            i = i + 1;
        }
        proof {
            assert(self@.audits.take(self@.audits.len() as int) =~= self@.audits);
        }
        list
    }

    /// The number of journal entries that are not tracked yet.
    pub fn pending_usage_count(&self) -> (count: usize)
        ensures
            count == pending(self@.usage).len(),
    {
        let ghost keep = |u: StoredUsageView| !u.settled;
        let mut count: usize = 0;
        let mut i: usize = 0;
        proof {
            reveal(Seq::filter);
            assert(self@.usage.take(0).filter(keep).len() == 0);
        }
        while i < self.usage.len()
            invariant
                keep == (|u: StoredUsageView| !u.settled),
                i <= self.usage@.len(),
                count <= i,
                count == self@.usage.take(i as int).filter(keep).len(),
            decreases self.usage.len() - i,
        {
            proof {
                lemma_filter_take(self@.usage, keep, i as int);
            }
            if !self.usage[i].settled {
                count = count + 1;
            }
            i = i + 1;
        }
        proof {
            assert(self@.usage.take(self@.usage.len() as int) =~= self@.usage);
        }
        count
    }

    fn seen(&self, delivery_id: &str) -> (found: bool)
        ensures
            found == delivery_seen(self@.jobs, delivery_id@),
    {
        let mut i: usize = 0;
        while i < self.jobs.len()
            invariant
                i <= self.jobs@.len(),
                forall|k: int|
                    0 <= k < i ==> (#[trigger] self@.jobs[k]).delivery_id != delivery_id@,
            decreases self.jobs.len() - i,
        {
            if same_text(self.jobs[i].delivery_id.as_str(), delivery_id) {
                proof {
                    assert(self@.jobs[i as int].delivery_id == delivery_id@);
                }
                return true;
            }
            i = i + 1;
        }
        false
    }

    /// Returns false if this delivery id was already enqueued.
    pub fn enqueue_job(
        &mut self,
        delivery_id: &str,
        pr: &PullRequestRef,
        trigger: TriageTrigger,
    ) -> (added: Result<bool, TriageError>)
        requires
            valid_store(old(self)@),
            old(self)@.jobs.len() < i64::MAX,
        ensures
            added == Ok::<bool, TriageError>(!delivery_seen(old(self)@.jobs, delivery_id@)),
            final(self)@ == enqueued(old(self)@, delivery_id@, pr@, trigger),
            added == Ok::<bool, TriageError>(true) ==> final(self)@.jobs.last().delivery_id
                == delivery_id@ && final(self)@.jobs.last().pr == pr@
                && final(self)@.jobs.last().trigger == trigger,
            valid_store(final(self)@),
    {
        if self.seen(delivery_id) {
            return Ok(false);
        }
        let ghost before = self@;
        let id: i64 = self.jobs.len() as i64 + 1;
        let job = StoredJob {
            id,
            delivery_id: String::from_str(delivery_id),
            pr: pr.clone(),
            trigger,
            attempts: 0,
            status: JobStatus::Queued,
        };
        proof {
            lemma_views_push(self.jobs@, job);
        }
        self.jobs.push(job);
        proof {
            assert(self@.jobs =~= enqueued(before, delivery_id@, pr@, trigger).jobs);
            assert forall|i: int, j: int| 0 <= i < j < self@.jobs.len() implies (
            #[trigger] self@.jobs[i]).delivery_id != (#[trigger] self@.jobs[j]).delivery_id by {
                assert(before.jobs[i].delivery_id != delivery_id@);
            }
        }
        Ok(true)
    }

    /// Claim the next runnable job, if any: the one that waits longest.
    pub fn claim_next_job(&mut self) -> (claim: Result<Option<TriageJob>, TriageError>)
        requires
            valid_store(old(self)@),
        ensures
            claim is Ok,
            claim->Ok_0 is None <==> forall|j: int|
                0 <= j < old(self)@.jobs.len() ==> (#[trigger] old(self)@.jobs[j]).status
                    != JobStatus::Queued,
            option_view(claim->Ok_0) == (match next_queued(old(self)@.jobs) {
                Some(i) => Some(handed_out(claimed_job(old(self)@.jobs[i]))),
                None => None,
            }),
            claim->Ok_0 matches Some(job) ==> exists|i: int|
                0 <= i < old(self)@.jobs.len() && job@.id == (#[trigger] old(self)@.jobs[i]).id
                    && job@.delivery_id == old(self)@.jobs[i].delivery_id && job@.pr
                    == old(self)@.jobs[i].pr && job@.trigger == old(self)@.jobs[i].trigger
                    && job@.attempts == old(self)@.jobs[i].attempts + 1 && old(self)@.jobs[i].status
                    == JobStatus::Queued,
            final(self)@ == claimed(old(self)@),
            valid_store(final(self)@),
    {
        let ghost before = self@;
        let mut i: usize = 0;
        while i < self.jobs.len()
            invariant
                self@ == before,
                self@ == old(self)@,
                valid_store(before),
                i <= self.jobs@.len(),
                forall|k: int|
                    0 <= k < i ==> (#[trigger] before.jobs[k]).status != JobStatus::Queued,
            decreases self.jobs.len() - i,
        {
            proof {
                assert(before.jobs[i as int] == self.jobs@[i as int]@);
            }
            if self.jobs[i].status == JobStatus::Queued {
                let attempts: i32 = self.jobs[i].attempts + 1;
                let job = StoredJob {
                    id: self.jobs[i].id,
                    delivery_id: self.jobs[i].delivery_id.clone(),
                    pr: self.jobs[i].pr.clone(),
                    trigger: self.jobs[i].trigger,
                    attempts,
                    status: JobStatus::Running,
                };
                let claim = TriageJob {
                    id: job.id,
                    delivery_id: job.delivery_id.clone(),
                    pr: job.pr.clone(),
                    trigger: job.trigger,
                    attempts,
                };
                self.jobs.set(i, job);
                proof {
                    assert(is_next(before.jobs, i as int));
                    assert(old(self)@.jobs[i as int].status == JobStatus::Queued);
                    lemma_next_is_unique(before.jobs, i as int);
                    assert(self@.jobs =~= claimed(before).jobs);
                }
                return Ok(Some(claim));
            }
            i = i + 1;
        }
        proof {
            lemma_no_next(before.jobs);
        }
        Ok(None)
    }

    fn set_status(&mut self, id: i64, status: JobStatus)
        requires
            valid_store(old(self)@),
            has_job(old(self)@.jobs, id),
            status == JobStatus::Queued ==> old(self)@.jobs[id - 1].attempts < MAX_JOB_ATTEMPTS,
            status == JobStatus::Dead ==> old(self)@.jobs[id - 1].attempts == MAX_JOB_ATTEMPTS,
        ensures
            final(self)@ == with_status(old(self)@, id, status),
            valid_store(final(self)@),
    {
        let ghost before = self@;
        proof {
            assert(self.jobs@.len() == self.jobs.len());
        }
        let i: usize = (id - 1) as usize;
        proof {
            assert(before.jobs[i as int] == self.jobs@[i as int]@);
        }
        let job = StoredJob {
            id: self.jobs[i].id,
            delivery_id: self.jobs[i].delivery_id.clone(),
            pr: self.jobs[i].pr.clone(),
            trigger: self.jobs[i].trigger,
            attempts: self.jobs[i].attempts,
            status,
        };
        self.jobs.set(i, job);
        proof {
            assert(self@.jobs =~= with_status(before, id, status).jobs);
        }
    }

    fn knows(&self, id: i64) -> (known: bool)
        ensures
            known == has_job(self@.jobs, id),
    {
        id >= 1 && id as u64 <= self.jobs.len() as u64
    }

    /// Marks a job as done; an unknown id changes nothing.
    pub fn complete_job(&mut self, job_id: i64) -> (done: Result<(), TriageError>)
        requires
            valid_store(old(self)@),
        ensures
            done is Ok,
            final(self)@ == completed_store(old(self)@, job_id),
            valid_store(final(self)@),
    {
        if self.knows(job_id) {
            self.set_status(job_id, JobStatus::Done);
        }
        Ok(())
    }

    /// Queues a failed job again, or declares it dead.
    pub fn fail_job(&mut self, job_id: i64, _error: &str) -> (outcome: Result<
        JobDisposition,
        TriageError,
    >)
        requires
            valid_store(old(self)@),
        ensures
            outcome is Ok <==> has_job(old(self)@.jobs, job_id),
            outcome matches Ok(d) ==> d == disposition_after(
                old(self)@.jobs[job_id - 1].attempts as int,
            ),
            outcome matches Err(e) ==> e@ == TriageErrorView::Store(
                "no such job "@ + signed_decimal(job_id as int),
            ),
            final(self)@ == failed_store(old(self)@, job_id),
            valid_store(final(self)@),
    {
        if !self.knows(job_id) {
            let mut message = String::from_str("no such job ");
            let id = signed_decimal_text(job_id);
            message.append(id.as_str());
            return Err(TriageError::Store(message));
        }
        proof {
            assert(self.jobs@.len() == self.jobs.len());
            assert(self@.jobs[job_id - 1] == self.jobs@[job_id - 1]@);
        }
        let d = failure_disposition(self.jobs[(job_id - 1) as usize].attempts);
        let status = match d {
            JobDisposition::Dead => JobStatus::Dead,
            JobDisposition::Retry => JobStatus::Queued,
        };
        self.set_status(job_id, status);
        Ok(d)
    }

    /// When the same PR finished its last successful triage.
    pub fn last_triaged_at(&self, pr: &PullRequestRef) -> (last: Result<Option<UtcTime>, TriageError>)
        ensures
            last is Ok,
            option_view(last->Ok_0) == last_triage(self@.audits, pr@),
    {
        let mut latest: Option<UtcTime> = None;
        let mut i: usize = 0;
        while i < self.audits.len()
            invariant
                i <= self.audits@.len(),
                option_view(latest) == last_triage(self@.audits.take(i as int), pr@),
            decreases self.audits.len() - i,
        {
            proof {
                let longer = self@.audits.take(i + 1);
                assert(longer.drop_last() =~= self@.audits.take(i as int));
                assert(longer.last() == self.audits@[i as int]@);
            }
            let report = &self.audits[i];
            if report.pr == *pr {
                let at = report.finished_at;
                latest = match latest {
                    Some(t) => if at.before(&t) {
                        Some(t)
                    } else {
                        Some(at)
                    },
                    None => Some(at),
                };
            }
            i = i + 1;
        }
        proof {
            assert(self@.audits.take(self@.audits.len() as int) =~= self@.audits);
        }
        Ok(latest)
    }

    pub fn record_audit(&mut self, report: &TriageReport) -> (done: Result<(), TriageError>)
        requires
            valid_store(old(self)@),
        ensures
            done is Ok,
            final(self)@ == (StoreView { audits: old(self)@.audits.push(report@), ..old(self)@ }),
            valid_store(final(self)@),
    {
        let copy = report.clone();
        proof {
            lemma_views_push(self.audits@, copy);
        }
        self.audits.push(copy);
        Ok(())
    }

    /// Fail-open journal: usage that must be re-tracked once billing recovers.
    pub fn journal_untracked_usage(
        &mut self,
        installation_id: u64,
        pr: &PullRequestRef,
    ) -> (done: Result<(), TriageError>)
        requires
            valid_store(old(self)@),
            old(self)@.usage.len() < i64::MAX,
        ensures
            done is Ok,
            final(self)@ == journaled(old(self)@, installation_id, pr@),
            valid_store(final(self)@),
    {
        let ghost before = self@;
        let id: i64 = self.usage.len() as i64 + 1;
        let entry = StoredUsage { id, installation_id, pr: pr.clone(), settled: false };
        proof {
            lemma_views_push(self.usage@, entry);
        }
        self.usage.push(entry);
        proof {
            assert(self@.usage =~= journaled(before, installation_id, pr@).usage);
        }
        Ok(())
    }

    /// The oldest journal entries that are not tracked yet, at most `limit`.
    pub fn drain_untracked_usage(&self, limit: i64) -> (batch: Result<
        Vec<UntrackedUsage>,
        TriageError,
    >)
        ensures
            batch is Ok,
            views(batch->Ok_0@) == up_to(pending(self@.usage), limit).map_values(
                |u: StoredUsageView| usage_event(u),
            ),
    {
        let ghost keep = |u: StoredUsageView| !u.settled;
        let ghost event = |u: StoredUsageView| usage_event(u);
        let mut batch: Vec<UntrackedUsage> = Vec::new();
        let mut i: usize = 0;
        proof {
            reveal(Seq::filter);
            assert(self@.usage.take(0).filter(keep).len() == 0);
            assert(views(batch@) =~= self@.usage.take(0).filter(keep).map_values(event));
        }
        while i < self.usage.len() && (limit < 0 || (batch.len() as u64) < limit as u64)
            invariant
                keep == (|u: StoredUsageView| !u.settled),
                event == (|u: StoredUsageView| usage_event(u)),
                i <= self.usage@.len(),
                views(batch@) == self@.usage.take(i as int).filter(keep).map_values(event),
                limit >= 0 ==> batch@.len() <= limit,
            decreases self.usage.len() - i,
        {
            proof {
                lemma_filter_take(self@.usage, keep, i as int);
                assert(self@.usage[i as int] == self.usage@[i as int]@);
            }
            let entry = &self.usage[i];
            if !entry.settled {
                let item = UntrackedUsage {
                    id: entry.id,
                    installation_id: entry.installation_id,
                    pr: entry.pr.clone(),
                };
                proof {
                    lemma_views_push(batch@, item);
                    let kept = self@.usage.take(i as int).filter(keep);
                    assert(kept.push(self@.usage[i as int]).map_values(event)
                        =~= kept.map_values(event).push(item@));
                }
                batch.push(item);
            }
            i = i + 1;
        }
        proof {
            let kept = self@.usage.take(i as int).filter(keep);
            lemma_filter_prefix(self@.usage, keep, i as int);
            assert(views(batch@).len() == kept.len());
            if i == self.usage@.len() {
                assert(self@.usage.take(i as int) =~= self@.usage);
                if limit == pending(self@.usage).len() {
                    assert(pending(self@.usage).take(limit as int) =~= pending(self@.usage));
                }
            } else {
                assert(kept.len() == limit);
                if limit >= pending(self@.usage).len() {
                    assert(pending(self@.usage).take(limit as int) =~= pending(self@.usage));
                }
            }
        }
        Ok(batch)
    }

    /// Takes an entry off the journal's pending ones; an unknown id changes
    /// nothing.
    pub fn mark_usage_tracked(&mut self, usage_id: i64) -> (done: Result<(), TriageError>)
        requires
            valid_store(old(self)@),
        ensures
            done is Ok,
            final(self)@ == settled_store(old(self)@, usage_id),
            valid_store(final(self)@),
    {
        let ghost before = self@;
        if usage_id >= 1 && usage_id as u64 <= self.usage.len() as u64 {
            let i: usize = (usage_id - 1) as usize;
            proof {
                assert(before.usage[i as int] == self.usage@[i as int]@);
            }
            let entry = StoredUsage {
                id: self.usage[i].id,
                installation_id: self.usage[i].installation_id,
                pr: self.usage[i].pr.clone(),
                settled: true,
            };
            self.usage.set(i, entry);
            proof {
                assert(self@.usage =~= settled_store(before, usage_id).usage);
            }
        }
        Ok(())
    }
}

/// One change of a store.
pub enum StoreStep {
    Enqueue { delivery_id: Seq<char>, pr: PullRequestRefView, trigger: TriageTrigger },
    Claim,
    Complete(i64),
    Fail(i64),
    Record(TriageReportView),
    Journal { installation_id: u64, pr: PullRequestRefView },
    Settle(i64),
}

/// The store after one change.
pub open spec fn after_step(s: StoreView, step: StoreStep) -> StoreView {
    match step {
        StoreStep::Enqueue { delivery_id, pr, trigger } => enqueued(s, delivery_id, pr, trigger),
        StoreStep::Claim => claimed(s),
        StoreStep::Complete(id) => completed_store(s, id),
        StoreStep::Fail(id) => failed_store(s, id),
        StoreStep::Record(report) => StoreView { audits: s.audits.push(report), ..s },
        StoreStep::Journal { installation_id, pr } => journaled(s, installation_id, pr),
        StoreStep::Settle(id) => settled_store(s, id),
    }
}

/// The store after a list of changes.
pub open spec fn after_steps(s: StoreView, steps: Seq<StoreStep>) -> StoreView
    decreases steps.len(),
{
    if steps.len() == 0 {
        s
    } else {
        after_step(after_steps(s, steps.drop_last()), steps.last())
    }
}

proof fn lemma_step_keeps_validity(s: StoreView, step: StoreStep)
    requires
        valid_store(s),
        s.jobs.len() < i64::MAX,
        s.usage.len() < i64::MAX,
    ensures
        valid_store(after_step(s, step)),
        s.jobs.len() <= after_step(s, step).jobs.len() <= s.jobs.len() + 1,
        s.usage.len() <= after_step(s, step).usage.len() <= s.usage.len() + 1,
{
    let t = after_step(s, step);
    if let StoreStep::Enqueue { delivery_id, .. } = step {
        if !delivery_seen(s.jobs, delivery_id) {
            assert forall|i: int, j: int| 0 <= i < j < t.jobs.len() implies (
            #[trigger] t.jobs[i]).delivery_id != (#[trigger] t.jobs[j]).delivery_id by {
                assert(s.jobs[i].delivery_id != delivery_id);
            }
        }
    }
    if let StoreStep::Claim = step {
        lemma_next(s.jobs);
    }
}

/// Where some job is next, it is one that waits.
proof fn lemma_next(jobs: Seq<StoredJobView>)
    ensures
        next_queued(jobs) matches Some(i) ==> is_next(jobs, i),
{
}

proof fn lemma_reachable(steps: Seq<StoreStep>)
    requires
        steps.len() < i64::MAX,
    ensures
        valid_store(after_steps(empty_store(), steps)),
        after_steps(empty_store(), steps).jobs.len() <= steps.len(),
        after_steps(empty_store(), steps).usage.len() <= steps.len(),
    decreases steps.len(),
{
    if steps.len() > 0 {
        lemma_reachable(steps.drop_last());
        lemma_step_keeps_validity(after_steps(empty_store(), steps.drop_last()), steps.last());
    }
}

/// Whatever is done with a store, in whatever order, it stays valid.
pub proof fn law_every_store_is_valid(steps: Seq<StoreStep>)
    requires
        steps.len() < i64::MAX,
    ensures
        valid_store(after_steps(empty_store(), steps)),
{
    lemma_reachable(steps);
}

/// A delivery that comes again, with whatever contents, changes nothing.
pub proof fn law_redelivery_enqueues_once(
    s: StoreView,
    delivery_id: Seq<char>,
    pr: PullRequestRefView,
    trigger: TriageTrigger,
    again: PullRequestRefView,
    trigger_again: TriageTrigger,
)
    ensures
        delivery_seen(enqueued(s, delivery_id, pr, trigger).jobs, delivery_id),
        enqueued(enqueued(s, delivery_id, pr, trigger), delivery_id, again, trigger_again)
            == enqueued(s, delivery_id, pr, trigger),
{
    let t = enqueued(s, delivery_id, pr, trigger);
    if !delivery_seen(s.jobs, delivery_id) {
        assert(t.jobs[s.jobs.len() as int].delivery_id == delivery_id);
    }
}

/// A delivery once seen stays seen, whatever is done with the store.
pub proof fn law_deliveries_are_never_forgotten(s: StoreView, step: StoreStep, delivery_id: Seq<char>)
    requires
        delivery_seen(s.jobs, delivery_id),
    ensures
        delivery_seen(after_step(s, step).jobs, delivery_id),
{
    lemma_next(s.jobs);
    let i = choose|i: int| 0 <= i < s.jobs.len() && s.jobs[i].delivery_id == delivery_id;
    assert(after_step(s, step).jobs[i].delivery_id == delivery_id);
}

/// A claim takes the job that came first of those that wait. It is no longer
/// among them: the next claim hands out another one.
pub proof fn law_claims_come_in_order(s: StoreView)
    requires
        valid_store(s),
    ensures
        next_queued(s.jobs) is None <==> forall|j: int|
            0 <= j < s.jobs.len() ==> (#[trigger] s.jobs[j]).status != JobStatus::Queued,
        next_queued(s.jobs) matches Some(i) ==> {
            &&& 0 <= i < s.jobs.len()
            &&& forall|j: int|
                0 <= j < s.jobs.len() && (#[trigger] s.jobs[j]).status == JobStatus::Queued
                    ==> s.jobs[i].id <= s.jobs[j].id
            &&& claimed(s).jobs[i].status == JobStatus::Running
            &&& next_queued(claimed(s).jobs) != Some(i)
        },
{
    lemma_next(s.jobs);
    lemma_next(claimed(s).jobs);
    if next_queued(s.jobs) is None {
        if exists|j: int|
            0 <= j < s.jobs.len() && (#[trigger] s.jobs[j]).status == JobStatus::Queued {
            let j = choose|j: int|
                0 <= j < s.jobs.len() && (#[trigger] s.jobs[j]).status == JobStatus::Queued;
            lemma_some_is_next(s.jobs, j);
        }
    }
}

/// Where a job waits, one is the first.
proof fn lemma_some_is_next(jobs: Seq<StoredJobView>, j: int)
    requires
        0 <= j < jobs.len(),
        jobs[j].status == JobStatus::Queued,
    ensures
        exists|i: int| is_next(jobs, i),
    decreases j,
{
    if exists|k: int| 0 <= k < j && (#[trigger] jobs[k]).status == JobStatus::Queued {
        let k = choose|k: int| 0 <= k < j && (#[trigger] jobs[k]).status == JobStatus::Queued;
        lemma_some_is_next(jobs, k);
    } else {
        assert(is_next(jobs, j));
    }
}

/// How often a list of changes hands out the job of an id.
pub open spec fn times_claimed(steps: Seq<StoreStep>, id: int) -> nat
    decreases steps.len(),
{
    if steps.len() == 0 {
        0
    } else {
        let before = after_steps(empty_store(), steps.drop_last());
        times_claimed(steps.drop_last(), id) + if steps.last() is Claim && next_queued(before.jobs)
            == Some(id - 1) {
            1nat
        } else {
            0
        }
    }
}

/// No job is handed out more than three times, and its attempts count how often
/// it was.
pub proof fn law_a_job_is_tried_three_times_at_most(steps: Seq<StoreStep>, id: int)
    requires
        steps.len() < i64::MAX,
    ensures
        times_claimed(steps, id) <= 3,
        1 <= id <= after_steps(empty_store(), steps).jobs.len() ==> times_claimed(steps, id)
            == after_steps(empty_store(), steps).jobs[id - 1].attempts,
{
    lemma_attempts_count_claims(steps, id);
    lemma_reachable(steps);
}

/// A job that fails is queued again until its third attempt; failing that, it is
/// dead.
pub proof fn law_a_job_dies_with_its_third_attempt(steps: Seq<StoreStep>, id: i64)
    requires
        steps.len() < i64::MAX,
        has_job(after_steps(empty_store(), steps).jobs, id),
    ensures
        failed_store(after_steps(empty_store(), steps), id).jobs[id - 1].status == (
        if times_claimed(steps, id as int) == 3 {
            JobStatus::Dead
        } else {
            JobStatus::Queued
        }),
{
    law_a_job_is_tried_three_times_at_most(steps, id as int);
}

proof fn lemma_attempts_count_claims(steps: Seq<StoreStep>, id: int)
    requires
        steps.len() < i64::MAX,
    ensures
        ({
            let s = after_steps(empty_store(), steps);
            if 1 <= id <= s.jobs.len() {
                times_claimed(steps, id) == s.jobs[id - 1].attempts
            } else {
                times_claimed(steps, id) == 0
            }
        }),
    decreases steps.len(),
{
    if steps.len() > 0 {
        lemma_attempts_count_claims(steps.drop_last(), id);
        lemma_reachable(steps.drop_last());
        let before = after_steps(empty_store(), steps.drop_last());
        lemma_next(before.jobs);
    }
}

/// A job that failed its last attempt is dead: nothing puts it back into the
/// queue.
pub proof fn law_a_dead_job_is_never_claimed(s: StoreView, i: int, steps: Seq<StoreStep>)
    requires
        valid_store(s),
        0 <= i < s.jobs.len(),
        s.jobs[i].status == JobStatus::Dead,
        s.jobs.len() + steps.len() < i64::MAX,
        s.usage.len() + steps.len() < i64::MAX,
    ensures
        next_queued(after_steps(s, steps).jobs) != Some(i),
{
    lemma_spent_stays_spent(s, i, steps);
    lemma_next(after_steps(s, steps).jobs);
}

proof fn lemma_spent_stays_spent(s: StoreView, i: int, steps: Seq<StoreStep>)
    requires
        valid_store(s),
        0 <= i < s.jobs.len(),
        s.jobs[i].attempts == MAX_JOB_ATTEMPTS,
        s.jobs[i].status != JobStatus::Queued,
        s.jobs.len() + steps.len() < i64::MAX,
        s.usage.len() + steps.len() < i64::MAX,
    ensures
        valid_store(after_steps(s, steps)),
        s.jobs.len() <= after_steps(s, steps).jobs.len() <= s.jobs.len() + steps.len(),
        s.usage.len() <= after_steps(s, steps).usage.len() <= s.usage.len() + steps.len(),
        after_steps(s, steps).jobs[i].attempts == MAX_JOB_ATTEMPTS,
        after_steps(s, steps).jobs[i].status != JobStatus::Queued,
    decreases steps.len(),
{
    if steps.len() > 0 {
        lemma_spent_stays_spent(s, i, steps.drop_last());
        let before = after_steps(s, steps.drop_last());
        lemma_step_keeps_validity(before, steps.last());
        lemma_next(before.jobs);
    }
}

/// A journal entry stays pending until it is settled itself.
pub proof fn law_usage_is_kept_until_settled(s: StoreView, step: StoreStep, i: int)
    requires
        0 <= i < s.usage.len(),
        step != StoreStep::Settle((i + 1) as i64),
        s.usage.len() <= i64::MAX,
    ensures
        after_step(s, step).usage[i] == s.usage[i],
{
}

/// Settling an entry takes exactly that one off the pending ones.
pub proof fn law_settling_takes_one_entry(s: StoreView, id: i64, u: StoredUsageView)
    requires
        valid_store(s),
        s.usage.len() <= i64::MAX,
    ensures
        pending(settled_store(s, id).usage).contains(u) <==> pending(s.usage).contains(u) && u.id
            != id,
{
    let t = settled_store(s, id);
    lemma_pending_contains(s.usage, u);
    lemma_pending_contains(t.usage, u);
    if t.usage.contains(u) && !u.settled {
        let k = choose|k: int| 0 <= k < t.usage.len() && t.usage[k] == u;
        assert(s.usage[k] == u);
    }
    if s.usage.contains(u) && !u.settled && u.id != id {
        let k = choose|k: int| 0 <= k < s.usage.len() && s.usage[k] == u;
        assert(t.usage[k] == u);
    }
}

proof fn lemma_pending_contains(usage: Seq<StoredUsageView>, u: StoredUsageView)
    ensures
        pending(usage).contains(u) <==> usage.contains(u) && !u.settled,
{
    let keep = |u: StoredUsageView| !u.settled;
    if usage.filter(keep).contains(u) {
        usage.lemma_filter_contains_rev(keep, u);
        let k = choose|k: int| 0 <= k < usage.filter(keep).len() && usage.filter(keep)[k] == u;
        usage.lemma_filter_pred(keep, k);
    }
    if usage.contains(u) && !u.settled {
        let k = choose|k: int| 0 <= k < usage.len() && usage[k] == u;
        usage.lemma_filter_contains(keep, k);
    }
}

/// The last triage of a pull request is the latest end among its reports, and
/// there is none exactly where there is no report.
pub proof fn law_last_triage_is_the_latest(audits: Seq<TriageReportView>, pr: PullRequestRefView)
    ensures
        match last_triage(audits, pr) {
            None => forall|i: int| 0 <= i < audits.len() ==> (#[trigger] audits[i]).pr != pr,
            Some(t) => {
                &&& exists|i: int|
                    0 <= i < audits.len() && (#[trigger] audits[i]).pr == pr
                        && audits[i].finished_at == t
                &&& forall|i: int|
                    0 <= i < audits.len() && (#[trigger] audits[i]).pr == pr
                        ==> !earlier(t, audits[i].finished_at)
            },
        },
    decreases audits.len(),
{
    if audits.len() > 0 {
        let rest = audits.drop_last();
        law_last_triage_is_the_latest(rest, pr);
        let last = audits.len() - 1;
        assert(audits[last] == audits.last());
        assert forall|i: int| 0 <= i < audits.len() && i != last implies #[trigger] audits[i]
            == rest[i] by {}
        if let Some(t) = last_triage(rest, pr) {
            let k = choose|k: int|
                0 <= k < rest.len() && (#[trigger] rest[k]).pr == pr && rest[k].finished_at == t;
            assert(audits[k] == rest[k]);
        }
    }
}

/// A change touches only the job it is about: a claim the first that waits, a
/// completion or a failure the one of its id. What a job is for never changes.
pub proof fn law_a_step_changes_one_job(s: StoreView, step: StoreStep, i: int)
    requires
        valid_store(s),
        s.jobs.len() < i64::MAX,
        s.usage.len() < i64::MAX,
        0 <= i < s.jobs.len(),
    ensures
        i < after_step(s, step).jobs.len(),
        after_step(s, step).jobs[i].id == s.jobs[i].id,
        after_step(s, step).jobs[i].delivery_id == s.jobs[i].delivery_id,
        after_step(s, step).jobs[i].pr == s.jobs[i].pr,
        after_step(s, step).jobs[i].trigger == s.jobs[i].trigger,
        step is Claim && s.jobs[i].status == JobStatus::Queued && (forall|k: int|
            0 <= k < i ==> (#[trigger] s.jobs[k]).status != JobStatus::Queued) ==> after_step(
            s,
            step,
        ).jobs[i].status == JobStatus::Running && after_step(s, step).jobs[i].attempts
            == s.jobs[i].attempts + 1,
        step is Claim && (s.jobs[i].status != JobStatus::Queued || exists|k: int|
            0 <= k < i && (#[trigger] s.jobs[k]).status == JobStatus::Queued) ==> after_step(
            s,
            step,
        ).jobs[i] == s.jobs[i],
        step matches StoreStep::Complete(id) ==> after_step(s, step).jobs[i].attempts
            == s.jobs[i].attempts && after_step(s, step).jobs[i].status == (if id == s.jobs[i].id {
            JobStatus::Done
        } else {
            s.jobs[i].status
        }),
        step matches StoreStep::Fail(id) ==> after_step(s, step).jobs[i].attempts
            == s.jobs[i].attempts && after_step(s, step).jobs[i].status == (if id != s.jobs[i].id {
            s.jobs[i].status
        } else if s.jobs[i].attempts >= 3 {
            JobStatus::Dead
        } else {
            JobStatus::Queued
        }),
        step is Enqueue || step is Record || step is Journal || step is Settle ==> after_step(
            s,
            step,
        ).jobs[i] == s.jobs[i],
{
    lemma_next(s.jobs);
    if step is Claim && s.jobs[i].status == JobStatus::Queued {
        lemma_some_is_next(s.jobs, i);
        if forall|k: int| 0 <= k < i ==> (#[trigger] s.jobs[k]).status != JobStatus::Queued {
            assert(is_next(s.jobs, i));
            lemma_next_is_unique(s.jobs, i);
        }
    }
}

/// Each list of a store grows only by what is put there, at its end.
pub proof fn law_a_step_changes_one_list(s: StoreView, step: StoreStep)
    requires
        valid_store(s),
        s.jobs.len() < i64::MAX,
        s.usage.len() < i64::MAX,
    ensures
        !(step is Enqueue) ==> after_step(s, step).jobs.len() == s.jobs.len(),
        step matches StoreStep::Record(report) ==> after_step(s, step).audits == s.audits.push(
            report,
        ),
        !(step is Record) ==> after_step(s, step).audits == s.audits,
        !(step is Journal || step is Settle) ==> after_step(s, step).usage == s.usage,
        step matches StoreStep::Journal { installation_id, pr } ==> {
            let usage = after_step(s, step).usage;
            &&& usage.len() == s.usage.len() + 1
            &&& usage.drop_last() == s.usage
            &&& usage.last().installation_id == installation_id
            &&& usage.last().pr == pr
            &&& usage.last().id == usage.len()
            &&& !usage.last().settled
        },
        step matches StoreStep::Settle(id) ==> {
            let usage = after_step(s, step).usage;
            &&& usage.len() == s.usage.len()
            &&& forall|i: int|
                0 <= i < usage.len() ==> (#[trigger] usage[i]).id == s.usage[i].id
                    && usage[i].installation_id == s.usage[i].installation_id && usage[i].pr
                    == s.usage[i].pr && usage[i].settled == (s.usage[i].settled || s.usage[i].id
                    == id)
        },
{
    if step is Journal {
        assert(after_step(s, step).usage.drop_last() =~= s.usage);
    }
}

proof fn lemma_jobs_keep_what_they_are_for(s: StoreView, steps: Seq<StoreStep>, i: int)
    requires
        valid_store(s),
        s.jobs.len() + steps.len() < i64::MAX,
        s.usage.len() + steps.len() < i64::MAX,
        0 <= i < s.jobs.len(),
    ensures
        valid_store(after_steps(s, steps)),
        s.jobs.len() <= after_steps(s, steps).jobs.len() <= s.jobs.len() + steps.len(),
        after_steps(s, steps).usage.len() <= s.usage.len() + steps.len(),
        after_steps(s, steps).jobs[i].id == s.jobs[i].id,
        after_steps(s, steps).jobs[i].delivery_id == s.jobs[i].delivery_id,
        after_steps(s, steps).jobs[i].pr == s.jobs[i].pr,
        after_steps(s, steps).jobs[i].trigger == s.jobs[i].trigger,
    decreases steps.len(),
{
    if steps.len() > 0 {
        lemma_jobs_keep_what_they_are_for(s, steps.drop_last(), i);
        let before = after_steps(s, steps.drop_last());
        lemma_step_keeps_validity(before, steps.last());
        law_a_step_changes_one_job(before, steps.last(), i);
    }
}

/// A job comes out of the queue as it went in. A delivery that was not seen
/// before puts a waiting job behind the others, with the delivery id, the pull
/// request and the trigger that were given; and whatever is done with the store
/// after that, a claim that takes this job hands out that same delivery id, that
/// pull request and that trigger.
pub proof fn law_a_job_comes_out_as_it_went_in(
    s: StoreView,
    delivery_id: Seq<char>,
    pr: PullRequestRefView,
    trigger: TriageTrigger,
    steps: Seq<StoreStep>,
)
    requires
        valid_store(s),
        s.jobs.len() + 1 + steps.len() < i64::MAX,
        s.usage.len() + steps.len() < i64::MAX,
        forall|i: int|
            0 <= i < s.jobs.len() ==> (#[trigger] s.jobs[i]).delivery_id != delivery_id,
    ensures
        ({
            let put = enqueued(s, delivery_id, pr, trigger);
            let later = after_steps(put, steps);
            let i = s.jobs.len() as int;
            let out = handed_out(claimed_job(later.jobs[i]));
            &&& put.jobs.len() == i + 1
            &&& put.jobs.drop_last() == s.jobs
            &&& put.audits == s.audits
            &&& put.usage == s.usage
            &&& put.jobs.last().delivery_id == delivery_id
            &&& put.jobs.last().pr == pr
            &&& put.jobs.last().trigger == trigger
            &&& put.jobs.last().attempts == 0
            &&& put.jobs.last().status == JobStatus::Queued
            &&& put.jobs.last().id == i + 1
            &&& i < later.jobs.len()
            &&& out.delivery_id == delivery_id
            &&& out.pr == pr
            &&& out.trigger == trigger
            &&& out.id == i + 1
            &&& next_queued(later.jobs) == Some(i) ==> out.attempts == claimed(
                later,
            ).jobs[i].attempts && out.attempts == later.jobs[i].attempts + 1
        }),
{
    let put = enqueued(s, delivery_id, pr, trigger);
    let i = s.jobs.len() as int;
    assert(put.jobs.drop_last() =~= s.jobs);
    lemma_step_keeps_validity(s, StoreStep::Enqueue { delivery_id, pr, trigger });
    lemma_jobs_keep_what_they_are_for(put, steps, i);
    lemma_next(after_steps(put, steps).jobs);
}

/// A job that waits is handed out once those before it are: with no waiting job
/// before it, the next claim takes it.
pub proof fn law_a_waiting_job_is_claimed(s: StoreView, i: int)
    requires
        0 <= i < s.jobs.len(),
        s.jobs[i].status == JobStatus::Queued,
        forall|k: int| 0 <= k < i ==> (#[trigger] s.jobs[k]).status != JobStatus::Queued,
    ensures
        next_queued(s.jobs) == Some(i),
{
    assert(is_next(s.jobs, i));
    lemma_next_is_unique(s.jobs, i);
}

/// The journal hands out its open entries as they were written and in the order
/// in which they were: one stands behind as many as are open before it, if that
/// is within the limit, and no other entry is handed out.
pub proof fn law_the_journal_is_read_as_it_was_written(
    usage: Seq<StoredUsageView>,
    limit: i64,
    i: int,
)
    requires
        0 <= i < usage.len(),
    ensures
        ({
            let batch = up_to(pending(usage), limit).map_values(
                |u: StoredUsageView| usage_event(u),
            );
            let open = |u: StoredUsageView| !u.settled;
            let before = usage.take(i).filter(open).len() as int;
            &&& !usage[i].settled && (limit < 0 || before < limit) ==> before < batch.len()
                && batch[before].id == usage[i].id && batch[before].installation_id
                == usage[i].installation_id && batch[before].pr == usage[i].pr
            &&& batch.len() <= usage.filter(open).len()
            &&& limit >= 0 ==> batch.len() <= limit
            &&& batch.len() < usage.filter(open).len() ==> batch.len() == limit
        }),
{
    let open = |u: StoredUsageView| !u.settled;
    lemma_filter_prefix(usage, open, i);
    lemma_filter_prefix(usage, open, i + 1);
    lemma_filter_take(usage, open, i);
    if !usage[i].settled {
        let a = usage.take(i).filter(open);
        let b = usage.take(i + 1).filter(open);
        assert(b[a.len() as int] == usage[i]);
        assert(usage.filter(open).take(b.len() as int)[a.len() as int] == usage[i]);
    }
}

} // verus!
