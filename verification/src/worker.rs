//! The triage worker: claims jobs from the store, enforces billing, runs the
//! agent, meters usage, records the audit trail. Each state says which call its
//! driver has to make; the reply takes the work to its next state.

use vstd::prelude::*;

use crate::agent::{ack_view, reply_view, started, AgentOutcome, AgentOutcomeView, TriageAgent};
use crate::autumn::{BillingVerdict, BillingVerdictView};
use crate::error::{error_message, TriageError, TriageErrorView};
use crate::text::{option_view, views};
use crate::time::{InstantView, UtcTime};
use crate::triage::{
    JobDisposition, TriageJob, TriageJobView, TriageReport, TriageReportView, UntrackedUsage,
    UntrackedUsageView,
};

verus! {

/// Comment posted when the plan quota is exhausted. Replaced by a real triage
/// comment once quota is available again.
pub const QUOTA_COMMENT: &'static str = "Scaffold AI triage is paused for this repository: the plan's monthly \
PR-triage quota has been reached. A maintainer can upgrade the plan to resume automatic triage.";

/// Fallback comment when triage failed repeatedly — degrade to a human, never
/// to a guessed decision.
pub const DEAD_JOB_COMMENT: &'static str = "Scaffold AI could not complete automated triage for this PR after \
several attempts. Routing to a human maintainer.";

pub const DEAD_JOB_LABEL: &'static str = "needs-maintainer-review";

/// Journal entries that one round of re-tracking takes at most.
pub const RETRACK_BATCH: i64 = 50;

/// The processing of one claimed job.
#[derive(Debug)]
pub enum JobRun {
    /// Ask billing whether the installation may be triaged.
    CheckBilling { job: TriageJob },
    /// Post the quota comment.
    PostQuotaComment { job: TriageJob },
    /// Ask the store when the pull request was triaged last. `metered` says
    /// whether billing could be reached.
    FetchLastTriage { job: TriageJob, metered: bool },
    /// Run the agent.
    Triage { job: TriageJob, metered: bool, last_triaged_at: Option<UtcTime> },
    /// Meter the triage.
    Meter { job: TriageJob, report: TriageReport },
    /// Journal the triage for re-tracking.
    Journal { job: TriageJob, report: TriageReport },
    /// Record the report.
    Audit { job: TriageJob, report: TriageReport },
    /// Mark the job as done.
    Complete { job: TriageJob },
    /// Mark the job as failed.
    Fail { job: TriageJob, error: String },
    /// Post the dead-job comment.
    PostDeadComment { job: TriageJob },
    /// Add the dead-job label.
    AddDeadLabel { job: TriageJob },
    Done(Result<(), TriageError>),
}

/// The model of a job's processing.
pub enum JobRunView {
    CheckBilling { job: TriageJobView },
    PostQuotaComment { job: TriageJobView },
    FetchLastTriage { job: TriageJobView, metered: bool },
    Triage { job: TriageJobView, metered: bool, last_triaged_at: Option<InstantView> },
    Meter { job: TriageJobView, report: TriageReportView },
    Journal { job: TriageJobView, report: TriageReportView },
    Audit { job: TriageJobView, report: TriageReportView },
    Complete { job: TriageJobView },
    Fail { job: TriageJobView, error: Seq<char> },
    PostDeadComment { job: TriageJobView },
    AddDeadLabel { job: TriageJobView },
    Done(Result<(), TriageErrorView>),
}

impl View for JobRun {
    type V = JobRunView;

    open spec fn view(&self) -> JobRunView {
        match self {
            JobRun::CheckBilling { job } => JobRunView::CheckBilling { job: job@ },
            JobRun::PostQuotaComment { job } => JobRunView::PostQuotaComment { job: job@ },
            JobRun::FetchLastTriage { job, metered } => JobRunView::FetchLastTriage {
                job: job@,
                metered: *metered,
            },
            JobRun::Triage { job, metered, last_triaged_at } => JobRunView::Triage {
                job: job@,
                metered: *metered,
                last_triaged_at: option_view(*last_triaged_at),
            },
            JobRun::Meter { job, report } => JobRunView::Meter { job: job@, report: report@ },
            JobRun::Journal { job, report } => JobRunView::Journal { job: job@, report: report@ },
            JobRun::Audit { job, report } => JobRunView::Audit { job: job@, report: report@ },
            JobRun::Complete { job } => JobRunView::Complete { job: job@ },
            JobRun::Fail { job, error } => JobRunView::Fail { job: job@, error: error@ },
            JobRun::PostDeadComment { job } => JobRunView::PostDeadComment { job: job@ },
            JobRun::AddDeadLabel { job } => JobRunView::AddDeadLabel { job: job@ },
            JobRun::Done(result) => JobRunView::Done(ack_view(*result)),
        }
    }
}

/// The reply to a call of a job's processing.
#[derive(Debug)]
pub enum JobEvent {
    BillingChecked(BillingVerdict),
    QuotaCommentPosted(Result<(), TriageError>),
    LastTriageFetched(Result<Option<UtcTime>, TriageError>),
    TriageEnded(Result<AgentOutcome, TriageError>),
    Metered(Result<(), TriageError>),
    Journaled(Result<(), TriageError>),
    Audited(Result<(), TriageError>),
    Completed(Result<(), TriageError>),
    Failed(Result<JobDisposition, TriageError>),
    DeadCommentPosted(Result<(), TriageError>),
    DeadLabelAdded(Result<(), TriageError>),
}

/// An event's model.
pub enum JobEventView {
    BillingChecked(BillingVerdictView),
    QuotaCommentPosted(Result<(), TriageErrorView>),
    LastTriageFetched(Result<Option<InstantView>, TriageErrorView>),
    TriageEnded(Result<AgentOutcomeView, TriageErrorView>),
    Metered(Result<(), TriageErrorView>),
    Journaled(Result<(), TriageErrorView>),
    Audited(Result<(), TriageErrorView>),
    Completed(Result<(), TriageErrorView>),
    Failed(Result<JobDisposition, TriageErrorView>),
    DeadCommentPosted(Result<(), TriageErrorView>),
    DeadLabelAdded(Result<(), TriageErrorView>),
}

impl View for JobEvent {
    type V = JobEventView;

    open spec fn view(&self) -> JobEventView {
        match self {
            JobEvent::BillingChecked(verdict) => JobEventView::BillingChecked(verdict@),
            JobEvent::QuotaCommentPosted(r) => JobEventView::QuotaCommentPosted(ack_view(*r)),
            JobEvent::LastTriageFetched(r) => JobEventView::LastTriageFetched(
                match r {
                    Ok(last) => Ok(option_view(*last)),
                    Err(e) => Err(e@),
                },
            ),
            JobEvent::TriageEnded(r) => JobEventView::TriageEnded(reply_view(*r)),
            JobEvent::Metered(r) => JobEventView::Metered(ack_view(*r)),
            JobEvent::Journaled(r) => JobEventView::Journaled(ack_view(*r)),
            JobEvent::Audited(r) => JobEventView::Audited(ack_view(*r)),
            JobEvent::Completed(r) => JobEventView::Completed(ack_view(*r)),
            JobEvent::Failed(r) => JobEventView::Failed(
                match r {
                    Ok(d) => Ok(*d),
                    Err(e) => Err(e@),
                },
            ),
            JobEvent::DeadCommentPosted(r) => JobEventView::DeadCommentPosted(ack_view(*r)),
            JobEvent::DeadLabelAdded(r) => JobEventView::DeadLabelAdded(ack_view(*r)),
        }
    }
}

/// The end that a store error makes.
pub open spec fn store_failure(e: TriageErrorView) -> JobRunView {
    JobRunView::Done(Err(e))
}

/// The state after an event. An event that the state does not wait for changes
/// nothing. Errors of the store end the run; errors of comments and labels are
/// passed over; a triage that cannot be metered is journaled.
pub open spec fn after_event(run: JobRunView, event: JobEventView) -> JobRunView {
    match (run, event) {
        (JobRunView::CheckBilling { job }, JobEventView::BillingChecked(verdict)) => match verdict {
            BillingVerdictView::Denied { .. } => JobRunView::PostQuotaComment { job },
            BillingVerdictView::Allowed => JobRunView::FetchLastTriage { job, metered: true },
            BillingVerdictView::Unavailable => JobRunView::FetchLastTriage { job, metered: false },
        },
        (JobRunView::PostQuotaComment { job }, JobEventView::QuotaCommentPosted(_)) =>
        JobRunView::Complete { job },
        (JobRunView::FetchLastTriage { job, metered }, JobEventView::LastTriageFetched(r)) =>
        match r {
            Err(e) => store_failure(e),
            Ok(last_triaged_at) => JobRunView::Triage { job, metered, last_triaged_at },
        },
        (JobRunView::Triage { job, metered, .. }, JobEventView::TriageEnded(r)) => match r {
            Ok(AgentOutcomeView::Completed(report)) => if metered {
                JobRunView::Meter { job, report }
            } else {
                JobRunView::Journal { job, report }
            },
            Ok(AgentOutcomeView::Skipped { .. }) => JobRunView::Complete { job },
            Err(e) => JobRunView::Fail { job, error: error_message(e) },
        },
        (JobRunView::Meter { job, report }, JobEventView::Metered(r)) => match r {
            Ok(()) => JobRunView::Audit { job, report },
            Err(_) => JobRunView::Journal { job, report },
        },
        (JobRunView::Journal { job, report }, JobEventView::Journaled(r)) => match r {
            Ok(()) => JobRunView::Audit { job, report },
            Err(e) => store_failure(e),
        },
        (JobRunView::Audit { job, .. }, JobEventView::Audited(r)) => match r {
            Ok(()) => JobRunView::Complete { job },
            Err(e) => store_failure(e),
        },
        (JobRunView::Complete { .. }, JobEventView::Completed(r)) => JobRunView::Done(r),
        (JobRunView::Fail { job, .. }, JobEventView::Failed(r)) => match r {
            Ok(JobDisposition::Dead) => JobRunView::PostDeadComment { job },
            Ok(JobDisposition::Retry) => JobRunView::Done(Ok(())),
            Err(e) => store_failure(e),
        },
        (JobRunView::PostDeadComment { job }, JobEventView::DeadCommentPosted(_)) =>
        JobRunView::AddDeadLabel { job },
        (JobRunView::AddDeadLabel { .. }, JobEventView::DeadLabelAdded(_)) => JobRunView::Done(
            Ok(()),
        ),
        _ => run,
    }
}

/// The comment that a state posts.
pub open spec fn comment_of(run: JobRunView) -> Option<Seq<char>> {
    match run {
        JobRunView::PostQuotaComment { .. } => Some(QUOTA_COMMENT@),
        JobRunView::PostDeadComment { .. } => Some(DEAD_JOB_COMMENT@),
        _ => None,
    }
}

impl JobRun {
    /// The processing of exactly one already-claimed job.
    pub fn process_job(job: TriageJob) -> (run: Self)
        ensures
            run@ == (JobRunView::CheckBilling { job: job@ }),
    {
        JobRun::CheckBilling { job }
    }

    /// The comment that this state posts.
    pub fn comment(&self) -> (comment: Option<&'static str>)
        ensures
            comment is Some <==> comment_of(self@) is Some,
            comment matches Some(c) ==> comment_of(self@) == Some(c@),
    {
        match self {
            JobRun::PostQuotaComment { .. } => Some(QUOTA_COMMENT),
            JobRun::PostDeadComment { .. } => Some(DEAD_JOB_COMMENT),
            _ => None,
        }
    }

    /// The agent's run that this state waits for.
    pub fn agent(&self) -> (agent: Option<TriageAgent>)
        ensures
            option_view(agent) == (match self@ {
                JobRunView::Triage { job, last_triaged_at, .. } => Some(
                    started(job.pr, job.trigger, last_triaged_at),
                ),
                _ => None,
            }),
    {
        match self {
            JobRun::Triage { job, metered: _, last_triaged_at } => Some(
                TriageAgent::new(job.pr.clone(), job.trigger, *last_triaged_at),
            ),
            _ => None,
        }
    }

    /// Takes in the reply to the call that this state asks for.
    pub fn step(self, event: JobEvent) -> (next: Self)
        ensures
            next@ == after_event(self@, event@),
    {
        match (self, event) {
            (JobRun::CheckBilling { job }, JobEvent::BillingChecked(verdict)) => match verdict {
                BillingVerdict::Denied { .. } => JobRun::PostQuotaComment { job },
                BillingVerdict::Allowed => JobRun::FetchLastTriage { job, metered: true },
                BillingVerdict::Unavailable => JobRun::FetchLastTriage { job, metered: false },
            },
            (JobRun::PostQuotaComment { job }, JobEvent::QuotaCommentPosted(_)) =>
            JobRun::Complete { job },
            (JobRun::FetchLastTriage { job, metered }, JobEvent::LastTriageFetched(r)) => match r {
                Err(e) => JobRun::Done(Err(e)),
                Ok(last_triaged_at) => JobRun::Triage { job, metered, last_triaged_at },
            },
            (JobRun::Triage { job, metered, last_triaged_at: _ }, JobEvent::TriageEnded(r)) =>
            match r {
                Ok(AgentOutcome::Completed(report)) => if metered {
                    JobRun::Meter { job, report }
                } else {
                    JobRun::Journal { job, report }
                },
                Ok(AgentOutcome::Skipped { .. }) => JobRun::Complete { job },
                Err(e) => {
                    let error = e.message();
                    JobRun::Fail { job, error }
                },
            },
            (JobRun::Meter { job, report }, JobEvent::Metered(r)) => match r {
                Ok(()) => JobRun::Audit { job, report },
                Err(_) => JobRun::Journal { job, report },
            },
            (JobRun::Journal { job, report }, JobEvent::Journaled(r)) => match r {
                Ok(()) => JobRun::Audit { job, report },
                Err(e) => JobRun::Done(Err(e)),
            },
            (JobRun::Audit { job, report: _ }, JobEvent::Audited(r)) => match r {
                Ok(()) => JobRun::Complete { job },
                Err(e) => JobRun::Done(Err(e)),
            },
            (JobRun::Complete { .. }, JobEvent::Completed(r)) => JobRun::Done(r),
            (JobRun::Fail { job, error: _ }, JobEvent::Failed(r)) => match r {
                Ok(JobDisposition::Dead) => JobRun::PostDeadComment { job },
                Ok(JobDisposition::Retry) => JobRun::Done(Ok(())),
                Err(e) => JobRun::Done(Err(e)),
            },
            (JobRun::PostDeadComment { job }, JobEvent::DeadCommentPosted(_)) =>
            JobRun::AddDeadLabel { job },
            (JobRun::AddDeadLabel { .. }, JobEvent::DeadLabelAdded(_)) => JobRun::Done(Ok(())),
            (run, _) => run,
        }
    }
}

/// The labels of a dead job.
pub fn dead_job_labels() -> (labels: Vec<String>)
    ensures
        views(labels@) == seq![DEAD_JOB_LABEL@],
{
    let labels = vec![String::from_str(DEAD_JOB_LABEL)];
    proof {
        assert(views(labels@) =~= seq![DEAD_JOB_LABEL@]);
    }
    labels
}

/// What the worker does after a claim.
#[derive(Debug)]
pub enum WorkerAction {
    /// Process the job, then claim again.
    Process(JobRun),
    /// Wait for the poll interval, then claim again.
    Wait,
}

/// What the worker does after a claim: a job is processed at once; an empty
/// queue or an error waits.
pub fn run_worker(claim: Result<Option<TriageJob>, TriageError>) -> (action: WorkerAction)
    ensures
        match claim {
            Ok(Some(job)) => action matches WorkerAction::Process(run) && run@ == (
            JobRunView::CheckBilling { job: job@ }),
            _ => action == WorkerAction::Wait,
        },
{
    match claim {
        Ok(Some(job)) => WorkerAction::Process(JobRun::process_job(job)),
        Ok(None) => WorkerAction::Wait,
        Err(_) => WorkerAction::Wait,
    }
}

/// The background loop that re-tracks usage journaled during billing outages.
#[derive(Debug)]
pub enum Retracker {
    /// Wait for the interval.
    Sleep,
    /// Read the oldest pending entries.
    Drain,
    /// Meter the first of these entries.
    Track { batch: Vec<UntrackedUsage> },
    /// Mark this entry as settled, then go on with the rest.
    Mark { usage_id: i64, rest: Vec<UntrackedUsage> },
}

/// The loop's model.
pub enum RetrackerView {
    Sleep,
    Drain,
    Track { batch: Seq<UntrackedUsageView> },
    Mark { usage_id: i64, rest: Seq<UntrackedUsageView> },
}

impl View for Retracker {
    type V = RetrackerView;

    open spec fn view(&self) -> RetrackerView {
        match self {
            Retracker::Sleep => RetrackerView::Sleep,
            Retracker::Drain => RetrackerView::Drain,
            Retracker::Track { batch } => RetrackerView::Track { batch: views(batch@) },
            Retracker::Mark { usage_id, rest } => RetrackerView::Mark {
                usage_id: *usage_id,
                rest: views(rest@),
            },
        }
    }
}

/// What happened to the loop.
#[derive(Debug)]
pub enum RetrackEvent {
    Woke,
    Drained(Result<Vec<UntrackedUsage>, TriageError>),
    Metered(Result<(), TriageError>),
    Marked(Result<(), TriageError>),
}

/// Going on with the entries that are left.
pub open spec fn tracking(batch: Seq<UntrackedUsageView>) -> RetrackerView {
    if batch.len() == 0 {
        RetrackerView::Sleep
    } else {
        RetrackerView::Track { batch }
    }
}

/// The loop after an event. Where billing is still down, it stops and tries
/// again in the next round; an entry that could not be marked is passed over.
pub open spec fn after_retrack(state: RetrackerView, event: RetrackEvent) -> RetrackerView {
    match (state, event) {
        (RetrackerView::Sleep, RetrackEvent::Woke) => RetrackerView::Drain,
        (RetrackerView::Drain, RetrackEvent::Drained(r)) => match r {
            Ok(batch) => tracking(views(batch@)),
            Err(_) => RetrackerView::Sleep,
        },
        (RetrackerView::Track { batch }, RetrackEvent::Metered(r)) => if batch.len() == 0 {
            RetrackerView::Sleep
        } else {
            match r {
                Ok(()) => RetrackerView::Mark { usage_id: batch[0].id, rest: batch.drop_first() },
                Err(_) => RetrackerView::Sleep,
            }
        },
        (RetrackerView::Mark { rest, .. }, RetrackEvent::Marked(_)) => tracking(rest),
        _ => state,
    }
}

fn go_on(batch: Vec<UntrackedUsage>) -> (next: Retracker)
    ensures
        next@ == tracking(views(batch@)),
{
    if batch.is_empty() {
        Retracker::Sleep
    } else {
        Retracker::Track { batch }
    }
}

impl Retracker {
    /// The loop before its first round.
    pub fn run_usage_retracker() -> (state: Self)
        ensures
            state@ == RetrackerView::Sleep,
    {
        Retracker::Sleep
    }

    /// Takes in what happened.
    pub fn step(self, event: RetrackEvent) -> (next: Self)
        ensures
            next@ == after_retrack(self@, event),
    {
        match (self, event) {
            (Retracker::Sleep, RetrackEvent::Woke) => Retracker::Drain,
            (Retracker::Drain, RetrackEvent::Drained(r)) => match r {
                Ok(batch) => go_on(batch),
                Err(_) => Retracker::Sleep,
            },
            (Retracker::Track { batch }, RetrackEvent::Metered(r)) => {
                if batch.is_empty() {
                    return Retracker::Sleep;
                }
                match r {
                    Ok(()) => {
                        let mut rest = batch;
                        let first = rest.remove(0);
                        proof {
                            assert(views(rest@) =~= views(batch@).drop_first());
                        }
                        Retracker::Mark { usage_id: first.id, rest }
                    },
                    Err(_) => Retracker::Sleep,
                }
            },
            (Retracker::Mark { usage_id: _, rest }, RetrackEvent::Marked(_)) => go_on(rest),
            (state, _) => state,
        }
    }
}

/// An entry is marked only after its own metering succeeded: a round reaches
/// `Mark` from the entry at the head of what is left, and by nothing else.
pub proof fn law_only_metered_entries_are_marked(state: RetrackerView, event: RetrackEvent)
    ensures
        (after_retrack(state, event) is Mark && !(state is Mark)) ==> {
            &&& state is Track
            &&& state->batch.len() > 0
            &&& (event matches RetrackEvent::Metered(Ok(_)))
            &&& after_retrack(state, event)->usage_id == state->batch[0].id
            &&& after_retrack(state, event)->rest == state->batch.drop_first()
        },
        (after_retrack(state, event) is Mark && state is Mark) ==> after_retrack(state, event)
            == state,
{
}

/// Replies that a round waits for at most.
pub open spec fn replies_left(state: RetrackerView) -> nat {
    match state {
        RetrackerView::Track { batch } => 2 * batch.len(),
        RetrackerView::Mark { rest, .. } => 2 * rest.len() + 1,
        _ => 0,
    }
}

/// A round ends: every reply that the loop waits for, once it has its entries,
/// takes one off those that are left or sends it to sleep.
pub proof fn law_a_round_ends(state: RetrackerView, event: RetrackEvent)
    requires
        (state is Track && event is Metered) || (state is Mark && event is Marked),
    ensures
        after_retrack(state, event) is Sleep || replies_left(after_retrack(state, event))
            < replies_left(state),
{
}

/// The loop after a list of events.
pub open spec fn after_retracks(state: RetrackerView, events: Seq<RetrackEvent>) -> RetrackerView
    decreases events.len(),
{
    if events.len() == 0 {
        state
    } else {
        after_retrack(after_retracks(state, events.drop_last()), events.last())
    }
}

/// The entries that a list of events settles, in order.
pub open spec fn marked_ids(state: RetrackerView, events: Seq<RetrackEvent>) -> Seq<i64>
    decreases events.len(),
{
    if events.len() == 0 {
        Seq::empty()
    } else {
        let before = after_retracks(state, events.drop_last());
        let marked = marked_ids(state, events.drop_last());
        if before is Mark && events.last() is Marked {
            marked.push(before->usage_id)
        } else {
            marked
        }
    }
}

/// The ids of the first `n` entries of a batch.
pub open spec fn first_ids(batch: Seq<UntrackedUsageView>, n: int) -> Seq<i64> {
    batch.take(n).map_values(|u: UntrackedUsageView| u.id)
}

/// Where a round over a batch stands when `n` of its entries are settled.
pub open spec fn round_stands(
    batch: Seq<UntrackedUsageView>,
    state: RetrackerView,
    marked: Seq<i64>,
    n: int,
) -> bool {
    &&& 0 <= n <= batch.len()
    &&& marked == first_ids(batch, n)
    &&& match state {
        RetrackerView::Sleep => true,
        RetrackerView::Drain => false,
        RetrackerView::Track { batch: left } => n < batch.len() && left == batch.skip(n),
        RetrackerView::Mark { usage_id, rest } => n < batch.len() && usage_id == batch[n].id && rest
            == batch.skip(n + 1),
    }
}

/// A round settles its entries in order and each at most once: those settled so
/// far are the first ones of the batch.
pub proof fn law_a_round_settles_a_prefix(
    batch: Seq<UntrackedUsageView>,
    events: Seq<RetrackEvent>,
)
    requires
        forall|i: int| 0 <= i < events.len() ==> !((#[trigger] events[i]) is Woke),
    ensures
        exists|n: int| #[trigger]
            round_stands(
                batch,
                after_retracks(tracking(batch), events),
                marked_ids(tracking(batch), events),
                n,
            ),
    decreases events.len(),
{
    let state = after_retracks(tracking(batch), events);
    let marked = marked_ids(tracking(batch), events);
    if events.len() == 0 {
        assert(batch.skip(0) =~= batch);
        assert(marked =~= first_ids(batch, 0));
        assert(round_stands(batch, state, marked, 0));
    } else {
        let rest = events.drop_last();
        assert forall|i: int| 0 <= i < rest.len() implies !((#[trigger] rest[i]) is Woke) by {
            assert(events[i] == rest[i]);
        }
        law_a_round_settles_a_prefix(batch, rest);
        let before = after_retracks(tracking(batch), rest);
        let done = marked_ids(tracking(batch), rest);
        let n = choose|n: int| #[trigger] round_stands(batch, before, done, n);
        assert(!(events.last() is Woke));
        if before is Mark && events.last() is Marked {
            assert(marked =~= first_ids(batch, n + 1));
            assert(round_stands(batch, state, marked, n + 1));
        } else {
            if before is Track {
                assert(batch.skip(n)[0] == batch[n]);
                assert(batch.skip(n).drop_first() =~= batch.skip(n + 1));
            }
            assert(round_stands(batch, state, marked, n));
        }
    }
}

/// The run of a job after a list of events.
pub open spec fn after_events(run: JobRunView, events: Seq<JobEventView>) -> JobRunView
    decreases events.len(),
{
    if events.len() == 0 {
        run
    } else {
        after_event(after_events(run, events.drop_last()), events.last())
    }
}

/// Something that a job's processing does with lasting effect.
pub enum Deed {
    Metered,
    Journaled,
    Audited,
    Completed,
    Failed,
}

/// Whether an event reports, to the state that waits for it, that a deed is
/// done.
pub open spec fn reports(run: JobRunView, event: JobEventView, deed: Deed) -> bool {
    match deed {
        Deed::Metered => run is Meter && (event matches JobEventView::Metered(Ok(_))),
        Deed::Journaled => run is Journal && (event matches JobEventView::Journaled(Ok(_))),
        Deed::Audited => run is Audit && (event matches JobEventView::Audited(Ok(_))),
        Deed::Completed => run is Complete && (event matches JobEventView::Completed(Ok(_))),
        Deed::Failed => run is Fail && (event matches JobEventView::Failed(Ok(_))),
    }
}

/// How often a deed is done over a list of events.
pub open spec fn times_done(job: TriageJobView, events: Seq<JobEventView>, deed: Deed) -> nat
    decreases events.len(),
{
    if events.len() == 0 {
        0
    } else {
        let before = after_events(JobRunView::CheckBilling { job }, events.drop_last());
        times_done(job, events.drop_last(), deed) + if reports(before, events.last(), deed) {
            1nat
        } else {
            0
        }
    }
}

proof fn lemma_deeds(job: TriageJobView, events: Seq<JobEventView>)
    ensures
        ({
            let metered = times_done(job, events, Deed::Metered);
            let journaled = times_done(job, events, Deed::Journaled);
            let audited = times_done(job, events, Deed::Audited);
            let completed = times_done(job, events, Deed::Completed);
            let failed = times_done(job, events, Deed::Failed);
            match after_events(JobRunView::CheckBilling { job }, events) {
                JobRunView::Audit { .. } => metered + journaled == 1 && audited == 0 && completed
                    == 0 && failed == 0,
                JobRunView::Complete { .. } => metered + journaled == audited && audited <= 1
                    && completed == 0 && failed == 0,
                JobRunView::PostDeadComment { .. } => metered + journaled == 0 && audited == 0
                    && completed == 0 && failed == 1,
                JobRunView::AddDeadLabel { .. } => metered + journaled == 0 && audited == 0
                    && completed == 0 && failed == 1,
                JobRunView::Done(Ok(())) => metered + journaled == audited && audited <= 1
                    && completed + failed == 1 && audited <= completed,
                JobRunView::Done(Err(_)) => metered + journaled <= 1 && audited <= metered
                    + journaled && completed == 0 && failed == 0,
                _ => metered + journaled == 0 && audited == 0 && completed == 0 && failed == 0,
            }
        }),
    decreases events.len(),
{
    if events.len() > 0 {
        lemma_deeds(job, events.drop_last());
    }
}

/// A job that is processed without a store error is settled exactly once: it is
/// either completed or failed. One that ends in a store error is neither.
pub proof fn law_a_job_is_settled_once(job: TriageJobView, events: Seq<JobEventView>)
    ensures
        ({
            let end = after_events(JobRunView::CheckBilling { job }, events);
            let settled = times_done(job, events, Deed::Completed) + times_done(
                job,
                events,
                Deed::Failed,
            );
            &&& end == JobRunView::Done(Ok(())) ==> settled == 1
            &&& end matches JobRunView::Done(Err(_)) ==> settled == 0
        }),
{
    lemma_deeds(job, events);
}

/// Usage is never lost and never counted twice: a report is recorded only after
/// its triage was metered or journaled, and over a whole run that happens at
/// most once.
pub proof fn law_a_triage_is_metered_or_journaled(job: TriageJobView, events: Seq<JobEventView>)
    ensures
        ({
            let counted = times_done(job, events, Deed::Metered) + times_done(
                job,
                events,
                Deed::Journaled,
            );
            &&& counted <= 1
            &&& times_done(job, events, Deed::Audited) <= counted
            &&& after_events(JobRunView::CheckBilling { job }, events) == JobRunView::Done(Ok(()))
                ==> times_done(job, events, Deed::Audited) == counted
        }),
{
    lemma_deeds(job, events);
}

/// A denial blocks the triage: the quota comment is posted and the job
/// completed, and the agent never runs.
pub proof fn law_a_denied_job_is_not_triaged(
    job: TriageJobView,
    reason: Seq<char>,
    events: Seq<JobEventView>,
)
    ensures
        ({
            let denied = after_event(
                JobRunView::CheckBilling { job },
                JobEventView::BillingChecked(BillingVerdictView::Denied { reason }),
            );
            let later = after_events(denied, events);
            later is PostQuotaComment || later is Complete || later is Done
        }),
    decreases events.len(),
{
    if events.len() > 0 {
        law_a_denied_job_is_not_triaged(job, reason, events.drop_last());
    }
}

/// An outage of billing blocks nothing: the triage goes on, and a report that
/// comes of it is journaled.
pub proof fn law_an_outage_fails_open(
    job: TriageJobView,
    last_triaged_at: Option<InstantView>,
    report: TriageReportView,
)
    ensures
        after_events(
            JobRunView::CheckBilling { job },
            seq![
                JobEventView::BillingChecked(BillingVerdictView::Unavailable),
                JobEventView::LastTriageFetched(Ok(last_triaged_at)),
                JobEventView::TriageEnded(Ok(AgentOutcomeView::Completed(report))),
            ],
        ) == (JobRunView::Journal { job, report }),
{
    let billing = JobEventView::BillingChecked(BillingVerdictView::Unavailable);
    let last = JobEventView::LastTriageFetched(Ok(last_triaged_at));
    let ended = JobEventView::TriageEnded(Ok(AgentOutcomeView::Completed(report)));
    let all = seq![billing, last, ended];
    assert(all.drop_last() =~= seq![billing, last]);
    assert(seq![billing, last].drop_last() =~= seq![billing]);
    assert(seq![billing].drop_last() =~= Seq::<JobEventView>::empty());
    reveal_with_fuel(after_events, 4);
}

/// A dead job shows on the pull request: whatever comes of the comment, the
/// label follows, and the run ends well.
pub proof fn law_a_dead_job_is_made_visible(
    job: TriageJobView,
    error: Seq<char>,
    comment: Result<(), TriageErrorView>,
    label: Result<(), TriageErrorView>,
)
    ensures
        ({
            let failing = JobRunView::Fail { job, error };
            let dead = after_event(failing, JobEventView::Failed(Ok(JobDisposition::Dead)));
            let commented = after_event(dead, JobEventView::DeadCommentPosted(comment));
            let labelled = after_event(commented, JobEventView::DeadLabelAdded(label));
            &&& dead == (JobRunView::PostDeadComment { job })
            &&& comment_of(dead) == Some(DEAD_JOB_COMMENT@)
            &&& commented == (JobRunView::AddDeadLabel { job })
            &&& labelled == JobRunView::Done(Ok(()))
        }),
{
}

/// The job that a state is about; the last is about none.
pub open spec fn job_of(run: JobRunView) -> Option<TriageJobView> {
    match run {
        JobRunView::CheckBilling { job } => Some(job),
        JobRunView::PostQuotaComment { job } => Some(job),
        JobRunView::FetchLastTriage { job, .. } => Some(job),
        JobRunView::Triage { job, .. } => Some(job),
        JobRunView::Meter { job, .. } => Some(job),
        JobRunView::Journal { job, .. } => Some(job),
        JobRunView::Audit { job, .. } => Some(job),
        JobRunView::Complete { job } => Some(job),
        JobRunView::Fail { job, .. } => Some(job),
        JobRunView::PostDeadComment { job } => Some(job),
        JobRunView::AddDeadLabel { job } => Some(job),
        JobRunView::Done(_) => None,
    }
}

/// The processing is about one job from its first state to its last, whatever
/// the replies.
pub proof fn law_the_job_stays_the_same(job: TriageJobView, events: Seq<JobEventView>)
    ensures
        ({
            let run = after_events(JobRunView::CheckBilling { job }, events);
            !(run is Done) ==> job_of(run) == Some(job)
        }),
    decreases events.len(),
{
    if events.len() > 0 {
        law_the_job_stays_the_same(job, events.drop_last());
    }
}

/// The report of a triage is metered, journaled and recorded as the agent made
/// it: from its end to the audit it is the same report, whichever way it goes.
pub proof fn law_a_report_is_recorded_as_it_came(
    job: TriageJobView,
    last: Option<InstantView>,
    report: TriageReportView,
    e: TriageErrorView,
)
    ensures
        ({
            let ended = JobEventView::TriageEnded(Ok(AgentOutcomeView::Completed(report)));
            let billed = after_event(
                JobRunView::Triage { job, metered: true, last_triaged_at: last },
                ended,
            );
            let unbilled = after_event(
                JobRunView::Triage { job, metered: false, last_triaged_at: last },
                ended,
            );
            let audit = JobRunView::Audit { job, report };
            &&& billed == (JobRunView::Meter { job, report })
            &&& unbilled == (JobRunView::Journal { job, report })
            &&& after_event(billed, JobEventView::Metered(Ok(()))) == audit
            &&& after_event(billed, JobEventView::Metered(Err(e))) == unbilled
            &&& after_event(unbilled, JobEventView::Journaled(Ok(()))) == audit
            &&& after_event(audit, JobEventView::Audited(Ok(()))) == (JobRunView::Complete { job })
        }),
{
}

/// A job that billing allows is triaged with what the store says of its last
/// triage, and the verdict decides whether it is metered.
pub proof fn law_an_allowed_job_is_triaged(
    job: TriageJobView,
    last: Option<InstantView>,
    reason: Seq<char>,
)
    ensures
        ({
            let start = JobRunView::CheckBilling { job };
            let allowed = after_event(
                start,
                JobEventView::BillingChecked(BillingVerdictView::Allowed),
            );
            let down = after_event(
                start,
                JobEventView::BillingChecked(BillingVerdictView::Unavailable),
            );
            let denied = after_event(
                start,
                JobEventView::BillingChecked(BillingVerdictView::Denied { reason }),
            );
            &&& after_event(allowed, JobEventView::LastTriageFetched(Ok(last))) == (
            JobRunView::Triage { job, metered: true, last_triaged_at: last })
            &&& after_event(down, JobEventView::LastTriageFetched(Ok(last))) == (
            JobRunView::Triage { job, metered: false, last_triaged_at: last })
            &&& comment_of(denied) == Some(QUOTA_COMMENT@)
            &&& comment_of(allowed) is None
            &&& comment_of(down) is None
        }),
{
}

/// A triage that fails leads to the failing of its job with the error's message;
/// one that skips leads to its completion.
pub proof fn law_a_failed_triage_fails_the_job(
    job: TriageJobView,
    metered: bool,
    last: Option<InstantView>,
    e: TriageErrorView,
    reason: Seq<char>,
)
    ensures
        ({
            let run = JobRunView::Triage { job, metered, last_triaged_at: last };
            let failing = after_event(run, JobEventView::TriageEnded(Err(e)));
            &&& failing == (JobRunView::Fail { job, error: error_message(e) })
            &&& after_event(failing, JobEventView::Failed(Ok(JobDisposition::Retry)))
                == JobRunView::Done(Ok(()))
            &&& after_event(
                run,
                JobEventView::TriageEnded(Ok(AgentOutcomeView::Skipped { reason })),
            ) == (JobRunView::Complete { job })
        }),
{
}

/// An error of the store ends the processing and is handed on; an error of a
/// comment or a label does not.
pub proof fn law_store_errors_are_handed_on(
    job: TriageJobView,
    metered: bool,
    report: TriageReportView,
    error: Seq<char>,
    e: TriageErrorView,
)
    ensures
        after_event(
            JobRunView::FetchLastTriage { job, metered },
            JobEventView::LastTriageFetched(Err(e)),
        ) == JobRunView::Done(Err(e)),
        after_event(JobRunView::Journal { job, report }, JobEventView::Journaled(Err(e)))
            == JobRunView::Done(Err(e)),
        after_event(JobRunView::Audit { job, report }, JobEventView::Audited(Err(e)))
            == JobRunView::Done(Err(e)),
        after_event(JobRunView::Complete { job }, JobEventView::Completed(Err(e)))
            == JobRunView::Done(Err(e)),
        after_event(JobRunView::Complete { job }, JobEventView::Completed(Ok(())))
            == JobRunView::Done(Ok(())),
        after_event(JobRunView::Fail { job, error }, JobEventView::Failed(Err(e)))
            == JobRunView::Done(Err(e)),
        after_event(
            JobRunView::PostQuotaComment { job },
            JobEventView::QuotaCommentPosted(Err(e)),
        ) == (JobRunView::Complete { job }),
        after_event(
            JobRunView::PostQuotaComment { job },
            JobEventView::QuotaCommentPosted(Ok(())),
        ) == (JobRunView::Complete { job }),
{
}

/// A round goes through every entry it has read: the first is metered, then
/// settled under its own id, then the next comes, until none is left. Where
/// metering fails it stops, and an entry that could not be settled holds up none
/// of the others.
pub proof fn law_a_round_goes_through_its_entries(
    batch: Vec<UntrackedUsage>,
    first: UntrackedUsageView,
    rest: Seq<UntrackedUsageView>,
    id: i64,
    e: TriageError,
    marked: Result<(), TriageError>,
)
    ensures
        after_retrack(RetrackerView::Sleep, RetrackEvent::Woke) == RetrackerView::Drain,
        batch@.len() > 0 ==> after_retrack(
            RetrackerView::Drain,
            RetrackEvent::Drained(Ok(batch)),
        ) == (RetrackerView::Track { batch: views(batch@) }),
        batch@.len() == 0 ==> after_retrack(
            RetrackerView::Drain,
            RetrackEvent::Drained(Ok(batch)),
        ) == RetrackerView::Sleep,
        after_retrack(RetrackerView::Drain, RetrackEvent::Drained(Err(e))) == RetrackerView::Sleep,
        after_retrack(
            RetrackerView::Track { batch: seq![first] + rest },
            RetrackEvent::Metered(Ok(())),
        ) == (RetrackerView::Mark { usage_id: first.id, rest }),
        after_retrack(
            RetrackerView::Track { batch: seq![first] + rest },
            RetrackEvent::Metered(Err(e)),
        ) == RetrackerView::Sleep,
        rest.len() > 0 ==> after_retrack(
            RetrackerView::Mark { usage_id: id, rest },
            RetrackEvent::Marked(marked),
        ) == (RetrackerView::Track { batch: rest }),
        rest.len() == 0 ==> after_retrack(
            RetrackerView::Mark { usage_id: id, rest },
            RetrackEvent::Marked(marked),
        ) == RetrackerView::Sleep,
{
    assert((seq![first] + rest).drop_first() =~= rest);
}

} // verus!
