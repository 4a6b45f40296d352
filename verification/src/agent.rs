//! The triage orchestrator: gather, policy-check, classify, decide, act. Each
//! step takes the reply of one service and says which call comes next.

use vstd::prelude::*;

use crate::config::{effective_config, RepoConfig, RepoConfigFile, RepoConfigView};
use crate::error::{TriageError, TriageErrorView};
use crate::policy::{check, policy_findings};
use crate::pr::{
    PullRequestRef, PullRequestRefView, PullRequestSnapshot, PullRequestSnapshotView,
};
use crate::score::{in_unit_interval, is_less, two_places, Score, ScoreView};
use crate::text::{
    clone_texts, decimal, holds_text, is_blank, is_sorted_unique, join, joined,
    law_joining_separates, law_sorting_keeps_every_text_once, lemma_sorted_unique_exists,
    lemma_views_push, occurs_at, option_view, push_decimal, sort_unique, sorted_unique, trimmed,
    views,
};
use crate::time::{elapsed, InstantView, UtcTime, NANOS_PER_SEC};
use crate::triage::{
    category_label, priority_label, Classification, ClassificationView, ModelDecision,
    ModelDecisionView, PolicyFinding, PolicyFindingView, PrCategory, TriageActions,
    TriageActionsView, TriageDecision, TriageDecisionView, TriageReport, TriageReportView,
    TriageTrigger,
};

verus! {

/// The message of a confidence outside its range.
pub open spec fn confidence_message(step: Seq<char>, value: ScoreView) -> Seq<char> {
    step + " confidence "@ + value.shown + " outside 0.0..=1.0"@
}

/// A confidence outside zero to one means the model ignored the schema's
/// intent; treat it as invalid output rather than clamping.
pub fn validate_confidence(value: &Score, step: &str) -> (valid: Result<(), TriageError>)
    ensures
        valid is Ok <==> in_unit_interval(value.bits),
        valid matches Err(e) ==> e@ == TriageErrorView::InvalidModelOutput(
            confidence_message(step@, value@),
        ),
{
    if value.is_confidence() {
        Ok(())
    } else {
        let mut s = String::from_str(step);
        s.append(" confidence ");
        s.append(value.shown.as_str());
        s.append(" outside 0.0..=1.0");
        Err(TriageError::InvalidModelOutput(s))
    }
}

/// Whether either confidence is below the repo's threshold.
pub open spec fn below_threshold(
    decision: ModelDecisionView,
    classification: ClassificationView,
    config: RepoConfigView,
) -> bool {
    is_less(decision.confidence.bits, config.confidence_threshold.bits) || is_less(
        classification.confidence.bits,
        config.confidence_threshold.bits,
    )
}

/// Whether the PR is routed to a human.
pub open spec fn must_escalate(
    decision: ModelDecisionView,
    classification: ClassificationView,
    config: RepoConfigView,
) -> bool {
    decision.escalate || below_threshold(decision, classification, config)
        || classification.category == PrCategory::NeedsDiscussion
}

/// Why the PR is routed to a human: the model's reason, if it gave one.
pub open spec fn escalation_reason(
    decision: ModelDecisionView,
    classification: ClassificationView,
    config: RepoConfigView,
) -> Seq<char> {
    if decision.escalation_reason matches Some(reason) && trimmed(reason).len() > 0 {
        decision.escalation_reason->0
    } else if classification.category == PrCategory::NeedsDiscussion {
        "PR classified as needing discussion before code review."@
    } else {
        "Confidence below the configured threshold ("@ + two_places(
            config.confidence_threshold.bits,
        ) + ")."@
    }
}

/// The decision that comes of the model's.
pub open spec fn resolved(
    decision: ModelDecisionView,
    classification: ClassificationView,
    config: RepoConfigView,
) -> TriageDecisionView {
    let actions = TriageActionsView {
        comment_markdown: decision.comment_markdown,
        labels: decision.labels,
        priority: decision.priority,
    };
    if must_escalate(decision, classification, config) {
        TriageDecisionView::Escalate {
            reason: escalation_reason(decision, classification, config),
            actions,
        }
    } else {
        TriageDecisionView::Proceed { actions }
    }
}

/// Convert the model's flat decision into the domain decision, forcing
/// escalation whenever confidence is below the repo threshold or the PR was
/// classified as needing discussion.
pub fn resolve_decision(
    decision: ModelDecision,
    classification: &Classification,
    config: &RepoConfig,
) -> (outcome: TriageDecision)
    ensures
        outcome@ == resolved(decision@, classification@, config@),
{
    let below = decision.confidence.less_than(&config.confidence_threshold)
        || classification.confidence.less_than(&config.confidence_threshold);
    let needs_discussion = match classification.category {
        PrCategory::NeedsDiscussion => true,
        _ => false,
    };
    let escalate = decision.escalate || below || needs_discussion;
    let actions = TriageActions {
        comment_markdown: decision.comment_markdown,
        labels: decision.labels,
        priority: decision.priority,
    };
    if !escalate {
        return TriageDecision::Proceed { actions };
    }
    let given = match decision.escalation_reason {
        Some(reason) => if is_blank(reason.as_str()) {
            None
        } else {
            Some(reason)
        },
        None => None,
    };
    let reason = match given {
        Some(reason) => reason,
        None => if needs_discussion {
            String::from_str("PR classified as needing discussion before code review.")
        } else {
            let threshold = config.confidence_threshold.to_two_places();
            let mut s = String::from_str("Confidence below the configured threshold (");
            s.append(threshold.as_str());
            s.append(").");
            s
        },
    };
    TriageDecision::Escalate { reason, actions }
}

/// What is done on the pull request.
#[derive(Debug)]
pub struct ActionPlan {
    pub comment: String,
    pub labels: Vec<String>,
    /// Logins asked to review; none where no request is made.
    pub reviewers: Vec<String>,
}

/// A plan's model.
pub struct ActionPlanView {
    pub comment: Seq<char>,
    pub labels: Seq<Seq<char>>,
    pub reviewers: Seq<Seq<char>>,
}

impl View for ActionPlan {
    type V = ActionPlanView;

    open spec fn view(&self) -> ActionPlanView {
        ActionPlanView {
            comment: self.comment@,
            labels: views(self.labels@),
            reviewers: views(self.reviewers@),
        }
    }
}

/// The mention of one login.
pub open spec fn mention(login: Seq<char>) -> Seq<char> {
    "@"@ + login
}

/// The mentions of the maintainers, or words for them where none is known.
pub open spec fn mentions_text(maintainers: Seq<Seq<char>>) -> Seq<char> {
    if maintainers.len() == 0 {
        "the maintainers"@
    } else {
        joined(maintainers.map_values(|m: Seq<char>| mention(m)), " "@)
    }
}

/// The mentions of the maintainers.
fn mentions(maintainers: &Vec<String>) -> (s: String)
    ensures
        s@ == mentions_text(views(maintainers@)),
{
    if maintainers.is_empty() {
        return String::from_str("the maintainers");
    }
    let mut list: Vec<String> = Vec::new();
    let ghost all = views(maintainers@).map_values(|m: Seq<char>| mention(m));
    let mut i: usize = 0;
    proof {
        assert(views(list@) =~= all.take(0));
    }
    while i < maintainers.len()
        invariant
            all == views(maintainers@).map_values(|m: Seq<char>| mention(m)),
            i <= maintainers@.len(),
            views(list@) == all.take(i as int),
        decreases maintainers.len() - i,
    {
        let mut item = String::from_str("@");
        item.append(maintainers[i].as_str());
        proof {
            lemma_views_push(list@, item);
            assert(all.take(i + 1) =~= all.take(i as int).push(item@));
        }
        list.push(item);
        i = i + 1;
    }
    proof {
        assert(all.take(all.len() as int) =~= all);
    }
    join(&list, " ")
}

/// What an escalation adds to the comment.
pub open spec fn escalation_note(reason: Seq<char>, config: RepoConfigView) -> Seq<char> {
    "\n\n---\n\n⚠️ **Flagged for maintainer review** — cc "@ + mentions_text(config.maintainers)
        + "\n\n> "@ + reason
}

/// The triage comment of a decision.
pub open spec fn comment_text(decision: TriageDecisionView, config: RepoConfigView) -> Seq<char> {
    match decision {
        TriageDecisionView::Proceed { actions } => actions.comment_markdown,
        TriageDecisionView::Escalate { reason, actions } => actions.comment_markdown
            + escalation_note(reason, config),
    }
}

/// The labels of a decision before sorting: category, priority, those of the
/// model, and the escalation label where it escalates.
pub open spec fn label_pool(
    classification: ClassificationView,
    decision: TriageDecisionView,
    config: RepoConfigView,
) -> Seq<Seq<char>> {
    let base = seq![
        category_label(classification.category),
        priority_label(decision.actions().priority),
    ] + decision.actions().labels;
    if decision is Escalate {
        base.push(config.escalation_label)
    } else {
        base
    }
}

/// What is done on the pull request for a decision.
pub open spec fn action_plan(
    classification: ClassificationView,
    decision: TriageDecisionView,
    config: RepoConfigView,
) -> ActionPlanView {
    ActionPlanView {
        comment: comment_text(decision, config),
        labels: sorted_unique(label_pool(classification, decision, config)),
        reviewers: if decision is Escalate {
            config.maintainers
        } else {
            Seq::empty()
        },
    }
}

/// Plans what is done on the pull request.
pub fn plan_actions(
    classification: &Classification,
    decision: &TriageDecision,
    config: &RepoConfig,
) -> (plan: ActionPlan)
    ensures
        plan@ == action_plan(classification@, decision@, config@),
{
    let actions = decision.actions();
    let mut labels: Vec<String> = vec![
        String::from_str(classification.category.label()),
        String::from_str(actions.priority.label()),
    ];
    let ghost base = views(labels@);
    proof {
        assert(base =~= seq![
            category_label(classification@.category),
            priority_label(decision@.actions().priority),
        ]);
    }
    let ghost extra = views(actions.labels@);
    let mut i: usize = 0;
    while i < actions.labels.len()
        invariant
            extra == views(actions.labels@),
            i <= actions.labels@.len(),
            views(labels@) == base + extra.take(i as int),
        decreases actions.labels.len() - i,
    {
        let item = actions.labels[i].clone();
        proof {
            lemma_views_push(labels@, item);
            assert(base + extra.take(i + 1) =~= (base + extra.take(i as int)).push(item@));
        }
        labels.push(item);
        i = i + 1;
    }
    proof {
        assert(extra.take(extra.len() as int) =~= extra);
    }
    let mut comment = actions.comment_markdown.clone();
    let mut reviewers: Vec<String> = Vec::new();
    proof {
        assert(views(reviewers@) =~= Seq::<Seq<char>>::empty());
    }
    if let TriageDecision::Escalate { reason, .. } = decision {
        let label = config.escalation_label.clone();
        proof {
            lemma_views_push(labels@, label);
        }
        labels.push(label);
        let mut note = String::from_str("\n\n---\n\n⚠️ **Flagged for maintainer review** — cc ");
        let cc = mentions(&config.maintainers);
        note.append(cc.as_str());
        note.append("\n\n> ");
        note.append(reason.as_str());
        comment.append(note.as_str());
        reviewers = clone_texts(&config.maintainers);
    }
    let labels = sort_unique(labels);
    ActionPlan { comment, labels, reviewers }
}

/// Outcome of one agent run. Skipping (drafts, config opt-outs) is a normal
/// result, distinct from both success and failure.
#[derive(Debug)]
pub enum AgentOutcome {
    Completed(TriageReport),
    Skipped { reason: String },
}

/// An outcome's model.
pub enum AgentOutcomeView {
    Completed(TriageReportView),
    Skipped { reason: Seq<char> },
}

impl View for AgentOutcome {
    type V = AgentOutcomeView;

    open spec fn view(&self) -> AgentOutcomeView {
        match self {
            AgentOutcome::Completed(report) => AgentOutcomeView::Completed(report@),
            AgentOutcome::Skipped { reason } => AgentOutcomeView::Skipped { reason: reason@ },
        }
    }
}

/// The model of a reply that can fail.
pub open spec fn reply_view<T: View>(reply: Result<T, TriageError>) -> Result<T::V, TriageErrorView> {
    match reply {
        Ok(value) => Ok(value@),
        Err(e) => Err(e@),
    }
}

/// The model of a reply without contents.
pub open spec fn ack_view(reply: Result<(), TriageError>) -> Result<(), TriageErrorView> {
    match reply {
        Ok(()) => Ok(()),
        Err(e) => Err(e@),
    }
}

/// A run whose decision stands: what is left is to act.
#[derive(Debug)]
pub struct DecidedRun {
    pub pr: PullRequestRef,
    pub trigger: TriageTrigger,
    pub classification: Classification,
    pub findings: Vec<PolicyFinding>,
    pub decision: TriageDecision,
    pub plan: ActionPlan,
}

/// The model of a decided run.
pub struct DecidedRunView {
    pub pr: PullRequestRefView,
    pub trigger: TriageTrigger,
    pub classification: ClassificationView,
    pub findings: Seq<PolicyFindingView>,
    pub decision: TriageDecisionView,
    pub plan: ActionPlanView,
}

impl View for DecidedRun {
    type V = DecidedRunView;

    open spec fn view(&self) -> DecidedRunView {
        DecidedRunView {
            pr: self.pr@,
            trigger: self.trigger,
            classification: self.classification@,
            findings: views(self.findings@),
            decision: self.decision@,
            plan: self.plan@,
        }
    }
}

/// The report of a decided run that ends at an instant.
pub open spec fn report_of(run: DecidedRunView, finished_at: InstantView) -> TriageReportView {
    TriageReportView {
        pr: run.pr,
        trigger: run.trigger,
        classification: run.classification,
        findings: run.findings,
        decision: run.decision,
        finished_at,
    }
}

/// One run of the triage agent. Each state but the last says which call its
/// driver has to make; the reply takes the run to its next state.
#[derive(Debug)]
pub enum TriageAgent {
    /// Ask the host for `.scaffold.toml`.
    FetchConfig { pr: PullRequestRef, trigger: TriageTrigger, last_triaged_at: Option<UtcTime> },
    /// Ask the host for the pull request.
    FetchSnapshot { pr: PullRequestRef, trigger: TriageTrigger, config: RepoConfig },
    /// Ask the model for a classification.
    Classify {
        pr: PullRequestRef,
        trigger: TriageTrigger,
        config: RepoConfig,
        snapshot: PullRequestSnapshot,
        findings: Vec<PolicyFinding>,
    },
    /// Ask the model for a decision.
    Decide {
        pr: PullRequestRef,
        trigger: TriageTrigger,
        config: RepoConfig,
        snapshot: PullRequestSnapshot,
        findings: Vec<PolicyFinding>,
        classification: Classification,
    },
    /// Create or update the triage comment.
    PostComment(DecidedRun),
    /// Add the labels.
    AddLabels(DecidedRun),
    /// Request the reviews.
    RequestReviewers(DecidedRun),
    Finished(Result<AgentOutcome, TriageError>),
}

/// The model of a run.
pub enum TriageAgentView {
    FetchConfig { pr: PullRequestRefView, trigger: TriageTrigger, last_triaged_at: Option<InstantView> },
    FetchSnapshot { pr: PullRequestRefView, trigger: TriageTrigger, config: RepoConfigView },
    Classify {
        pr: PullRequestRefView,
        trigger: TriageTrigger,
        config: RepoConfigView,
        snapshot: PullRequestSnapshotView,
        findings: Seq<PolicyFindingView>,
    },
    Decide {
        pr: PullRequestRefView,
        trigger: TriageTrigger,
        config: RepoConfigView,
        snapshot: PullRequestSnapshotView,
        findings: Seq<PolicyFindingView>,
        classification: ClassificationView,
    },
    PostComment(DecidedRunView),
    AddLabels(DecidedRunView),
    RequestReviewers(DecidedRunView),
    Finished(Result<AgentOutcomeView, TriageErrorView>),
}

impl View for TriageAgent {
    type V = TriageAgentView;

    open spec fn view(&self) -> TriageAgentView {
        match self {
            TriageAgent::FetchConfig { pr, trigger, last_triaged_at } => TriageAgentView::FetchConfig {
                pr: pr@,
                trigger: *trigger,
                last_triaged_at: option_view(*last_triaged_at),
            },
            TriageAgent::FetchSnapshot { pr, trigger, config } => TriageAgentView::FetchSnapshot {
                pr: pr@,
                trigger: *trigger,
                config: config@,
            },
            TriageAgent::Classify { pr, trigger, config, snapshot, findings } =>
            TriageAgentView::Classify {
                pr: pr@,
                trigger: *trigger,
                config: config@,
                snapshot: snapshot@,
                findings: views(findings@),
            },
            TriageAgent::Decide { pr, trigger, config, snapshot, findings, classification } =>
            TriageAgentView::Decide {
                pr: pr@,
                trigger: *trigger,
                config: config@,
                snapshot: snapshot@,
                findings: views(findings@),
                classification: classification@,
            },
            TriageAgent::PostComment(run) => TriageAgentView::PostComment(run@),
            TriageAgent::AddLabels(run) => TriageAgentView::AddLabels(run@),
            TriageAgent::RequestReviewers(run) => TriageAgentView::RequestReviewers(run@),
            TriageAgent::Finished(result) => TriageAgentView::Finished(reply_view(*result)),
        }
    }
}

/// The reply to one of the agent's calls.
#[derive(Debug)]
pub enum AgentEvent {
    /// The file, as far as there is one and as it was read, and the time.
    ConfigFetched {
        fetched: Result<Option<Result<RepoConfigFile, String>>, TriageError>,
        now: UtcTime,
    },
    SnapshotFetched(Result<PullRequestSnapshot, TriageError>),
    Classified(Result<Classification, TriageError>),
    Decided(Result<ModelDecision, TriageError>),
    CommentPosted(Result<(), TriageError>),
    LabelsAdded { added: Result<(), TriageError>, now: UtcTime },
    /// Review requests can fail for org-permission reasons; the label and
    /// the mention already guarantee visibility, so a failure changes nothing.
    ReviewersRequested { requested: Result<(), TriageError>, now: UtcTime },
}

/// An event's model.
pub enum AgentEventView {
    ConfigFetched { config: Result<RepoConfigView, TriageErrorView>, now: InstantView },
    SnapshotFetched(Result<PullRequestSnapshotView, TriageErrorView>),
    Classified(Result<ClassificationView, TriageErrorView>),
    Decided(Result<ModelDecisionView, TriageErrorView>),
    CommentPosted(Result<(), TriageErrorView>),
    LabelsAdded { added: Result<(), TriageErrorView>, now: InstantView },
    ReviewersRequested { requested: Result<(), TriageErrorView>, now: InstantView },
}

impl View for AgentEvent {
    type V = AgentEventView;

    open spec fn view(&self) -> AgentEventView {
        match self {
            AgentEvent::ConfigFetched { fetched, now } => AgentEventView::ConfigFetched {
                config: match fetched {
                    Ok(file) => Ok(effective_config(*file)),
                    Err(e) => Err(e@),
                },
                now: now@,
            },
            AgentEvent::SnapshotFetched(reply) => AgentEventView::SnapshotFetched(
                reply_view(*reply),
            ),
            AgentEvent::Classified(reply) => AgentEventView::Classified(reply_view(*reply)),
            AgentEvent::Decided(reply) => AgentEventView::Decided(reply_view(*reply)),
            AgentEvent::CommentPosted(reply) => AgentEventView::CommentPosted(ack_view(*reply)),
            AgentEvent::LabelsAdded { added, now } => AgentEventView::LabelsAdded {
                added: ack_view(*added),
                now: now@,
            },
            AgentEvent::ReviewersRequested { requested, now } => AgentEventView::ReviewersRequested {
                requested: ack_view(*requested),
                now: now@,
            },
        }
    }
}

/// Why a push to an open PR is not triaged again, if it is not: the repo has
/// switched that off, or the last triage is not long enough ago.
pub open spec fn skip_before_fetch(
    trigger: TriageTrigger,
    config: RepoConfigView,
    last_triaged_at: Option<InstantView>,
    now: InstantView,
) -> Option<Seq<char>> {
    if trigger != TriageTrigger::Synchronized {
        None
    } else if !config.triage_on_synchronize {
        Some("triage_on_synchronize disabled in .scaffold.toml"@)
    } else if last_triaged_at matches Some(last) && elapsed(now, last) < config.cooldown_minutes
        * 60 * NANOS_PER_SEC {
        Some(
            "within "@ + decimal(config.cooldown_minutes as nat) + "-minute re-triage cooldown"@,
        )
    } else {
        None
    }
}

/// Decides [`skip_before_fetch`].
pub fn skip_reason_before_fetch(
    trigger: TriageTrigger,
    config: &RepoConfig,
    last_triaged_at: &Option<UtcTime>,
    now: &UtcTime,
) -> (reason: Option<String>)
    ensures
        option_view(reason) == skip_before_fetch(
            trigger,
            config@,
            option_view(*last_triaged_at),
            now@,
        ),
{
    match trigger {
        TriageTrigger::Synchronized => {},
        _ => {
            return None;
        },
    }
    if !config.triage_on_synchronize {
        return Some(String::from_str("triage_on_synchronize disabled in .scaffold.toml"));
    }
    if let Some(last) = last_triaged_at {
        if now.within_minutes_of(last, config.cooldown_minutes) {
            let mut s = String::from_str("within ");
            push_decimal(&mut s, config.cooldown_minutes);
            s.append("-minute re-triage cooldown");
            return Some(s);
        }
    }
    None
}

/// Only a push to an open PR is ever held back, and none is once the cooldown
/// has passed in a repo that wants pushes triaged. A PR that is opened or
/// reopened is always looked at.
pub proof fn law_only_pushes_are_held_back(
    trigger: TriageTrigger,
    config: RepoConfigView,
    last_triaged_at: Option<InstantView>,
    now: InstantView,
)
    ensures
        skip_before_fetch(trigger, config, last_triaged_at, now) is Some <==> {
            &&& trigger == TriageTrigger::Synchronized
            &&& !config.triage_on_synchronize || (last_triaged_at is Some && elapsed(
                now,
                last_triaged_at->0,
            ) < config.cooldown_minutes * 60 * NANOS_PER_SEC)
        },
{
}

/// The end of a run that fails.
pub open spec fn failed(e: TriageErrorView) -> TriageAgentView {
    TriageAgentView::Finished(Err(e))
}

/// The end of a run that skips.
pub open spec fn skipped(reason: Seq<char>) -> TriageAgentView {
    TriageAgentView::Finished(Ok(AgentOutcomeView::Skipped { reason }))
}

/// The end of a run that did everything.
pub open spec fn completed(run: DecidedRunView, now: InstantView) -> TriageAgentView {
    TriageAgentView::Finished(Ok(AgentOutcomeView::Completed(report_of(run, now))))
}

/// The state that follows a reply. A reply to another call than the one that
/// the state asks for leaves it as it is.
pub open spec fn after_reply(state: TriageAgentView, event: AgentEventView) -> TriageAgentView {
    match (state, event) {
        (
            TriageAgentView::FetchConfig { pr, trigger, last_triaged_at },
            AgentEventView::ConfigFetched { config, now },
        ) => match config {
            Err(e) => failed(e),
            Ok(config) => match skip_before_fetch(trigger, config, last_triaged_at, now) {
                Some(reason) => skipped(reason),
                None => TriageAgentView::FetchSnapshot { pr, trigger, config },
            },
        },
        (
            TriageAgentView::FetchSnapshot { pr, trigger, config },
            AgentEventView::SnapshotFetched(reply),
        ) => match reply {
            Err(e) => failed(e),
            Ok(snapshot) => if snapshot.draft && config.skip_drafts {
                skipped("draft PR"@)
            } else {
                TriageAgentView::Classify {
                    pr,
                    trigger,
                    config,
                    snapshot,
                    findings: policy_findings(snapshot, config),
                }
            },
        },
        (
            TriageAgentView::Classify { pr, trigger, config, snapshot, findings },
            AgentEventView::Classified(reply),
        ) => match reply {
            Err(e) => failed(e),
            Ok(classification) => if in_unit_interval(classification.confidence.bits) {
                TriageAgentView::Decide { pr, trigger, config, snapshot, findings, classification }
            } else {
                failed(
                    TriageErrorView::InvalidModelOutput(
                        confidence_message("classification"@, classification.confidence),
                    ),
                )
            },
        },
        (
            TriageAgentView::Decide { pr, trigger, config, snapshot, findings, classification },
            AgentEventView::Decided(reply),
        ) => match reply {
            Err(e) => failed(e),
            Ok(decision) => if in_unit_interval(decision.confidence.bits) {
                let outcome = resolved(decision, classification, config);
                TriageAgentView::PostComment(
                    DecidedRunView {
                        pr,
                        trigger,
                        classification,
                        findings,
                        decision: outcome,
                        plan: action_plan(classification, outcome, config),
                    },
                )
            } else {
                failed(
                    TriageErrorView::InvalidModelOutput(
                        confidence_message("decision"@, decision.confidence),
                    ),
                )
            },
        },
        (TriageAgentView::PostComment(run), AgentEventView::CommentPosted(reply)) => match reply {
            Err(e) => failed(e),
            Ok(()) => TriageAgentView::AddLabels(run),
        },
        (TriageAgentView::AddLabels(run), AgentEventView::LabelsAdded { added, now }) => match added {
            Err(e) => failed(e),
            Ok(()) => if run.plan.reviewers.len() > 0 {
                TriageAgentView::RequestReviewers(run)
            } else {
                completed(run, now)
            },
        },
        (
            TriageAgentView::RequestReviewers(run),
            AgentEventView::ReviewersRequested { now, .. },
        ) => completed(run, now),
        _ => state,
    }
}

/// The state after a list of replies.
pub open spec fn after_replies(state: TriageAgentView, events: Seq<AgentEventView>) -> TriageAgentView
    decreases events.len(),
{
    if events.len() == 0 {
        state
    } else {
        after_reply(after_replies(state, events.drop_last()), events.last())
    }
}

/// The first state of a run.
pub open spec fn started(
    pr: PullRequestRefView,
    trigger: TriageTrigger,
    last_triaged_at: Option<InstantView>,
) -> TriageAgentView {
    TriageAgentView::FetchConfig { pr, trigger, last_triaged_at }
}

fn finish(run: DecidedRun, now: UtcTime) -> (agent: TriageAgent)
    ensures
        agent@ == completed(run@, now@),
{
    TriageAgent::Finished(
        Ok(
            AgentOutcome::Completed(
                TriageReport {
                    pr: run.pr,
                    trigger: run.trigger,
                    classification: run.classification,
                    findings: run.findings,
                    decision: run.decision,
                    finished_at: now,
                },
            ),
        ),
    )
}

impl TriageAgent {
    /// `last_triaged_at` is the previous successful triage of this PR (from
    /// the store); it drives the debounce on `synchronized` events.
    pub fn new(
        pr: PullRequestRef,
        trigger: TriageTrigger,
        last_triaged_at: Option<UtcTime>,
    ) -> (agent: Self)
        ensures
            agent@ == started(pr@, trigger, option_view(last_triaged_at)),
    {
        TriageAgent::FetchConfig { pr, trigger, last_triaged_at }
    }

    /// Takes in the reply to the call that this state asks for.
    pub fn step(self, event: AgentEvent) -> (next: Self)
        ensures
            next@ == after_reply(self@, event@),
    {
        match (self, event) {
            (
                TriageAgent::FetchConfig { pr, trigger, last_triaged_at },
                AgentEvent::ConfigFetched { fetched, now },
            ) => match fetched {
                Err(e) => TriageAgent::Finished(Err(e)),
                Ok(file) => {
                    let config = RepoConfig::or_default(file);
                    match skip_reason_before_fetch(trigger, &config, &last_triaged_at, &now) {
                        Some(reason) => TriageAgent::Finished(Ok(AgentOutcome::Skipped { reason })),
                        None => TriageAgent::FetchSnapshot { pr, trigger, config },
                    }
                },
            },
            (
                TriageAgent::FetchSnapshot { pr, trigger, config },
                AgentEvent::SnapshotFetched(reply),
            ) => match reply {
                Err(e) => TriageAgent::Finished(Err(e)),
                Ok(snapshot) => if snapshot.draft && config.skip_drafts {
                    TriageAgent::Finished(
                        Ok(AgentOutcome::Skipped { reason: String::from_str("draft PR") }),
                    )
                } else {
                    let findings = check(&snapshot, &config);
                    TriageAgent::Classify { pr, trigger, config, snapshot, findings }
                },
            },
            (
                TriageAgent::Classify { pr, trigger, config, snapshot, findings },
                AgentEvent::Classified(reply),
            ) => match reply {
                Err(e) => TriageAgent::Finished(Err(e)),
                Ok(classification) => match validate_confidence(
                    &classification.confidence,
                    "classification",
                ) {
                    Err(e) => TriageAgent::Finished(Err(e)),
                    Ok(()) => TriageAgent::Decide {
                        pr,
                        trigger,
                        config,
                        snapshot,
                        findings,
                        classification,
                    },
                },
            },
            (
                TriageAgent::Decide { pr, trigger, config, snapshot: _, findings, classification },
                AgentEvent::Decided(reply),
            ) => match reply {
                Err(e) => TriageAgent::Finished(Err(e)),
                Ok(model_decision) => match validate_confidence(
                    &model_decision.confidence,
                    "decision",
                ) {
                    Err(e) => TriageAgent::Finished(Err(e)),
                    Ok(()) => {
                        let decision = resolve_decision(model_decision, &classification, &config);
                        let plan = plan_actions(&classification, &decision, &config);
                        TriageAgent::PostComment(
                            DecidedRun { pr, trigger, classification, findings, decision, plan },
                        )
                    },
                },
            },
            (TriageAgent::PostComment(run), AgentEvent::CommentPosted(reply)) => match reply {
                Err(e) => TriageAgent::Finished(Err(e)),
                Ok(()) => TriageAgent::AddLabels(run),
            },
            (TriageAgent::AddLabels(run), AgentEvent::LabelsAdded { added, now }) => match added {
                Err(e) => TriageAgent::Finished(Err(e)),
                Ok(()) => if run.plan.reviewers.is_empty() {
                    finish(run, now)
                } else {
                    TriageAgent::RequestReviewers(run)
                },
            },
            (TriageAgent::RequestReviewers(run), AgentEvent::ReviewersRequested { requested: _, now }) => {
                finish(run, now)
            },
            (other, _) => other,
        }
    }

    /// Takes in replies one after the other.
    pub fn run(self, events: Vec<AgentEvent>) -> (end: Self)
        ensures
            end@ == after_replies(self@, views(events@)),
    {
        let ghost start = self@;
        let ghost all = views(events@);
        let mut agent = self;
        for event in iter: events
            invariant
                all == views(iter.seq()),
                agent@ == after_replies(start, all.take(iter.index())),
        {
            proof {
                let k = iter.index();
                assert(all.take(k + 1).drop_last() =~= all.take(k));
                assert(all.take(k + 1).last() == event@);
            }
            agent = agent.step(event);
        }
        proof {
            assert(all.take(all.len() as int) =~= all);
        }
        agent
    }
}

/// A decision stands behind the model only where nothing asks for a human: it
/// escalates exactly when the model does, a confidence is below the threshold or
/// the PR needs discussion. What the model wanted done is kept either way.
pub proof fn law_escalates_exactly_when_a_human_is_needed(
    decision: ModelDecisionView,
    classification: ClassificationView,
    config: RepoConfigView,
)
    ensures
        (resolved(decision, classification, config) is Escalate) == (decision.escalate || is_less(
            decision.confidence.bits,
            config.confidence_threshold.bits,
        ) || is_less(classification.confidence.bits, config.confidence_threshold.bits)
            || classification.category == PrCategory::NeedsDiscussion),
        resolved(decision, classification, config).actions().comment_markdown
            == decision.comment_markdown,
        resolved(decision, classification, config).actions().labels == decision.labels,
        resolved(decision, classification, config).actions().priority == decision.priority,
{
}

/// Each text of a joined list shows in the whole.
proof fn lemma_joined_holds(list: Seq<Seq<char>>, sep: Seq<char>, i: int)
    requires
        0 <= i < list.len(),
    ensures
        holds_text(joined(list, sep), list[i]),
    decreases list.len(),
{
    let whole = joined(list, sep);
    if list.len() == 1 {
        assert(whole.subrange(0, list[0].len() as int) =~= list[0]);
        assert(occurs_at(whole, list[i], 0));
    } else if i == list.len() - 1 {
        let at = whole.len() - list[i].len();
        assert(whole.subrange(at, at + list[i].len()) =~= list[i]);
        assert(occurs_at(whole, list[i], at));
    } else {
        let head = joined(list.drop_last(), sep);
        lemma_joined_holds(list.drop_last(), sep, i);
        assert(list.drop_last()[i] == list[i]);
        let at = choose|at: int| occurs_at(head, list[i], at);
        assert(whole.subrange(at, at + list[i].len()) =~= head.subrange(at, at + list[i].len()));
        assert(occurs_at(whole, list[i], at));
    }
}

/// A text that holds another still does with more around it.
proof fn lemma_holds_inside(before: Seq<char>, mid: Seq<char>, after: Seq<char>, needle: Seq<char>)
    requires
        holds_text(mid, needle),
    ensures
        holds_text(before + mid + after, needle),
{
    let at = choose|at: int| occurs_at(mid, needle, at);
    let whole = before + mid + after;
    let p = before.len() + at;
    assert(whole.subrange(p, p + needle.len()) =~= mid.subrange(at, at + needle.len()));
    assert(occurs_at(whole, needle, p));
}

/// An escalation shows on the pull request: it carries the escalation label,
/// mentions every maintainer, quotes the reason, and asks the maintainers to
/// review. Without one nobody is asked.
pub proof fn law_escalation_is_visible(
    classification: ClassificationView,
    decision: TriageDecisionView,
    config: RepoConfigView,
)
    ensures
        ({
            let plan = action_plan(classification, decision, config);
            &&& decision matches TriageDecisionView::Escalate { reason, .. } ==> {
                &&& plan.labels.contains(config.escalation_label)
                &&& plan.reviewers == config.maintainers
                &&& holds_text(plan.comment, reason)
                &&& forall|i: int|
                    0 <= i < config.maintainers.len() ==> holds_text(
                        plan.comment,
                        #[trigger] mention(config.maintainers[i]),
                    )
            }
            &&& decision is Proceed ==> plan.reviewers.len() == 0 && plan.comment
                == decision.actions().comment_markdown
        }),
{
    let plan = action_plan(classification, decision, config);
    if let TriageDecisionView::Escalate { reason, actions } = decision {
        law_labels_are_sorted_and_complete(classification, decision, config);
        let pool = label_pool(classification, decision, config);
        assert(pool.last() == config.escalation_label);
        assert(pool.contains(config.escalation_label));
        let at = plan.comment.len() - reason.len();
        assert(plan.comment.subrange(at, at + reason.len()) =~= reason);
        assert(occurs_at(plan.comment, reason, at));
        let list = config.maintainers.map_values(|m: Seq<char>| mention(m));
        assert forall|i: int| 0 <= i < config.maintainers.len() implies holds_text(
            plan.comment,
            #[trigger] mention(config.maintainers[i]),
        ) by {
            lemma_joined_holds(list, " "@, i);
            let head = actions.comment_markdown
                + "\n\n---\n\n⚠️ **Flagged for maintainer review** — cc "@;
            let tail = "\n\n> "@ + reason;
            assert(plan.comment =~= head + mentions_text(config.maintainers) + tail);
            lemma_holds_inside(
                head,
                mentions_text(config.maintainers),
                tail,
                mention(config.maintainers[i]),
            );
        }
    }
}

/// The labels that are added are in ascending order without repetition, and are
/// exactly the category's, the priority's, the model's own, and on escalation
/// the escalation label.
pub proof fn law_labels_are_sorted_and_complete(
    classification: ClassificationView,
    decision: TriageDecisionView,
    config: RepoConfigView,
)
    ensures
        is_sorted_unique(
            action_plan(classification, decision, config).labels,
            label_pool(classification, decision, config),
        ),
{
    lemma_sorted_unique_exists(label_pool(classification, decision, config));
}

/// How far a run has come.
pub open spec fn phase(state: TriageAgentView) -> nat {
    match state {
        TriageAgentView::FetchConfig { .. } => 0,
        TriageAgentView::FetchSnapshot { .. } => 1,
        TriageAgentView::Classify { .. } => 2,
        TriageAgentView::Decide { .. } => 3,
        TriageAgentView::PostComment(_) => 4,
        TriageAgentView::AddLabels(_) => 5,
        TriageAgentView::RequestReviewers(_) => 6,
        TriageAgentView::Finished(_) => 7,
    }
}

/// A run only moves forward, and a finished one stays as it is. The reply that
/// a state asks for always moves it on.
pub proof fn law_runs_only_advance(state: TriageAgentView, event: AgentEventView)
    ensures
        after_reply(state, event) == state || phase(after_reply(state, event)) > phase(state),
        state is Finished ==> after_reply(state, event) == state,
        answers(state, event) ==> phase(after_reply(state, event)) > phase(state),
{
}

/// Whether an event is the reply that a state asks for.
pub open spec fn answers(state: TriageAgentView, event: AgentEventView) -> bool {
    match state {
        TriageAgentView::FetchConfig { .. } => event is ConfigFetched,
        TriageAgentView::FetchSnapshot { .. } => event is SnapshotFetched,
        TriageAgentView::Classify { .. } => event is Classified,
        TriageAgentView::Decide { .. } => event is Decided,
        TriageAgentView::PostComment(_) => event is CommentPosted,
        TriageAgentView::AddLabels(_) => event is LabelsAdded,
        TriageAgentView::RequestReviewers(_) => event is ReviewersRequested,
        TriageAgentView::Finished(_) => false,
    }
}

/// How many of a list of replies a run takes in from the model.
pub open spec fn model_answers(state: TriageAgentView, events: Seq<AgentEventView>) -> nat
    decreases events.len(),
{
    if events.len() == 0 {
        0
    } else {
        let before = after_replies(state, events.drop_last());
        model_answers(state, events.drop_last()) + if (before is Classify || before is Decide)
            && answers(before, events.last()) {
            1nat
        } else {
            0
        }
    }
}

/// The model is asked twice in a run that completes, never more often, and not
/// at all in one that skips. Nothing is done on the pull request before both
/// answers are in.
pub proof fn law_model_is_asked_exactly_twice(
    pr: PullRequestRefView,
    trigger: TriageTrigger,
    last_triaged_at: Option<InstantView>,
    events: Seq<AgentEventView>,
)
    ensures
        ({
            let start = started(pr, trigger, last_triaged_at);
            let end = after_replies(start, events);
            let asked = model_answers(start, events);
            &&& asked <= 2
            &&& end matches TriageAgentView::Finished(Ok(AgentOutcomeView::Completed(_))) ==> asked
                == 2
            &&& end matches TriageAgentView::Finished(Ok(AgentOutcomeView::Skipped { .. }))
                ==> asked == 0
            &&& end is PostComment || end is AddLabels || end is RequestReviewers ==> asked == 2
        }),
{
    lemma_model_answers(started(pr, trigger, last_triaged_at), events);
}

proof fn lemma_model_answers(start: TriageAgentView, events: Seq<AgentEventView>)
    requires
        start is FetchConfig,
    ensures
        ({
            let end = after_replies(start, events);
            let asked = model_answers(start, events);
            match end {
                TriageAgentView::FetchConfig { .. } => asked == 0,
                TriageAgentView::FetchSnapshot { .. } => asked == 0,
                TriageAgentView::Classify { .. } => asked == 0,
                TriageAgentView::Decide { .. } => asked == 1,
                TriageAgentView::PostComment(_) => asked == 2,
                TriageAgentView::AddLabels(_) => asked == 2,
                TriageAgentView::RequestReviewers(_) => asked == 2,
                TriageAgentView::Finished(Ok(AgentOutcomeView::Completed(_))) => asked == 2,
                TriageAgentView::Finished(Ok(AgentOutcomeView::Skipped { .. })) => asked == 0,
                TriageAgentView::Finished(Err(_)) => asked <= 2,
            }
        }),
    decreases events.len(),
{
    if events.len() > 0 {
        lemma_model_answers(start, events.drop_last());
    }
}

/// Whether a decided run is what the agent's rules make of some snapshot and
/// some answer of the model, both confidences being in range.
pub open spec fn run_follows(
    run: DecidedRunView,
    snapshot: PullRequestSnapshotView,
    config: RepoConfigView,
    answer: ModelDecisionView,
) -> bool {
    &&& in_unit_interval(run.classification.confidence.bits)
    &&& in_unit_interval(answer.confidence.bits)
    &&& run.findings == policy_findings(snapshot, config)
    &&& run.decision == resolved(answer, run.classification, config)
    &&& run.plan == action_plan(run.classification, run.decision, config)
}

/// Whether a run keeps to the agent's rules so far.
pub open spec fn keeps_rules(
    pr: PullRequestRefView,
    trigger: TriageTrigger,
    state: TriageAgentView,
) -> bool {
    match state {
        TriageAgentView::FetchConfig { pr: p, trigger: t, .. } => p == pr && t == trigger,
        TriageAgentView::FetchSnapshot { pr: p, trigger: t, .. } => p == pr && t == trigger,
        TriageAgentView::Classify { pr: p, trigger: t, config, snapshot, findings } => p == pr && t
            == trigger && findings == policy_findings(snapshot, config),
        TriageAgentView::Decide { pr: p, trigger: t, config, snapshot, findings, classification } =>
            p == pr && t == trigger && findings == policy_findings(snapshot, config)
            && in_unit_interval(classification.confidence.bits),
        TriageAgentView::PostComment(run) => run.pr == pr && run.trigger == trigger && exists|
            s: PullRequestSnapshotView,
            c: RepoConfigView,
            m: ModelDecisionView,
        | run_follows(run, s, c, m),
        TriageAgentView::AddLabels(run) => run.pr == pr && run.trigger == trigger && exists|
            s: PullRequestSnapshotView,
            c: RepoConfigView,
            m: ModelDecisionView,
        | run_follows(run, s, c, m),
        TriageAgentView::RequestReviewers(run) => run.pr == pr && run.trigger == trigger && exists|
            s: PullRequestSnapshotView,
            c: RepoConfigView,
            m: ModelDecisionView,
        | run_follows(run, s, c, m),
        TriageAgentView::Finished(Ok(AgentOutcomeView::Completed(report))) => report.pr == pr
            && report.trigger == trigger && exists|
            run: DecidedRunView,
            s: PullRequestSnapshotView,
            c: RepoConfigView,
            m: ModelDecisionView,
        | report == report_of(run, report.finished_at) && #[trigger] run_follows(run, s, c, m),
        TriageAgentView::Finished(_) => true,
    }
}

/// Every run keeps to the rules: whatever the replies, the findings are those
/// of the policy, a confidence out of range is never acted on, and a decision
/// and what is done for it are those of [`resolved`] and [`action_plan`].
pub proof fn law_runs_keep_the_rules(
    pr: PullRequestRefView,
    trigger: TriageTrigger,
    last_triaged_at: Option<InstantView>,
    events: Seq<AgentEventView>,
)
    ensures
        keeps_rules(pr, trigger, after_replies(started(pr, trigger, last_triaged_at), events)),
    decreases events.len(),
{
    if events.len() > 0 {
        law_runs_keep_the_rules(pr, trigger, last_triaged_at, events.drop_last());
        let before = after_replies(started(pr, trigger, last_triaged_at), events.drop_last());
        lemma_step_keeps_rules(pr, trigger, before, events.last());
    }
}

proof fn lemma_step_keeps_rules(
    pr: PullRequestRefView,
    trigger: TriageTrigger,
    before: TriageAgentView,
    event: AgentEventView,
)
    requires
        keeps_rules(pr, trigger, before),
    ensures
        keeps_rules(pr, trigger, after_reply(before, event)),
{
    let after = after_reply(before, event);
    if let TriageAgentView::Decide { config, snapshot, .. } = before {
        if let TriageAgentView::PostComment(run) = after {
            if let AgentEventView::Decided(Ok(answer)) = event {
                assert(run_follows(run, snapshot, config, answer));
            }
        }
    }
    if let TriageAgentView::Finished(Ok(AgentOutcomeView::Completed(report))) = after {
        if let TriageAgentView::AddLabels(run) = before {
            let (s, c, m) = choose|
                s: PullRequestSnapshotView,
                c: RepoConfigView,
                m: ModelDecisionView,
            | run_follows(run, s, c, m);
            assert(report == report_of(run, report.finished_at) && run_follows(run, s, c, m));
        }
        if let TriageAgentView::RequestReviewers(run) = before {
            let (s, c, m) = choose|
                s: PullRequestSnapshotView,
                c: RepoConfigView,
                m: ModelDecisionView,
            | run_follows(run, s, c, m);
            assert(report == report_of(run, report.finished_at) && run_follows(run, s, c, m));
        }
    }
}

/// Whether a decision proceeds or escalates, a label is planned exactly if it is
/// the category's, the priority's or one of the decision's own, or if it is the
/// escalation label of a decision that escalates. None is planned twice.
pub proof fn law_every_label_is_planned(
    classification: ClassificationView,
    decision: TriageDecisionView,
    config: RepoConfigView,
    label: Seq<char>,
)
    ensures
        action_plan(classification, decision, config).labels.contains(label) <==> {
            ||| label == category_label(classification.category)
            ||| label == priority_label(decision.actions().priority)
            ||| exists|i: int|
                0 <= i < decision.actions().labels.len() && #[trigger] decision.actions().labels[i]
                    == label
            ||| decision is Escalate && label == config.escalation_label
        },
        action_plan(classification, decision, config).labels.no_duplicates(),
{
    let pool = label_pool(classification, decision, config);
    let own = decision.actions().labels;
    let labels = action_plan(classification, decision, config).labels;
    lemma_sorted_unique_exists(pool);
    assert(pool[0] == category_label(classification.category));
    assert(pool[1] == priority_label(decision.actions().priority));
    if decision is Escalate {
        assert(pool[own.len() as int + 2] == config.escalation_label);
    }
    if exists|i: int| 0 <= i < own.len() && #[trigger] own[i] == label {
        let i = choose|i: int| 0 <= i < own.len() && #[trigger] own[i] == label;
        assert(pool[i + 2] == label);
        assert(pool.contains(label));
    }
    if pool.contains(label) {
        let k = choose|k: int| 0 <= k < pool.len() && pool[k] == label;
        if 2 <= k < own.len() + 2 {
            assert(own[k - 2] == label);
        }
    }
    assert forall|i: int, j: int| 0 <= i < j < labels.len() implies labels[i] != labels[j] by {
        law_sorting_keeps_every_text_once(pool, i, j);
    }
}

/// The triage comment is what the decision's actions say. An escalation puts
/// nothing before it and a note behind it, which ends with the reason; where no
/// maintainer is known, the note calls on the maintainers.
pub proof fn law_a_comment_begins_with_the_decisions(
    classification: ClassificationView,
    decision: TriageDecisionView,
    config: RepoConfigView,
)
    ensures
        ({
            let plan = action_plan(classification, decision, config);
            &&& decision matches TriageDecisionView::Proceed { actions } ==> plan.comment
                == actions.comment_markdown && plan.reviewers.len() == 0
            &&& decision matches TriageDecisionView::Escalate { reason, actions } ==> {
                &&& exists|cc: Seq<char>|
                    plan.comment == #[trigger] (actions.comment_markdown
                        + "\n\n---\n\n⚠️ **Flagged for maintainer review** — cc "@ + cc)
                        + "\n\n> "@ + reason
                &&& config.maintainers.len() == 0 ==> plan.comment == actions.comment_markdown
                    + "\n\n---\n\n⚠️ **Flagged for maintainer review** — cc "@ + "the maintainers"@
                    + "\n\n> "@ + reason
                &&& forall|i: int|
                    0 <= i < config.maintainers.len() ==> holds_text(
                        plan.comment,
                        "@"@ + #[trigger] config.maintainers[i],
                    )
                &&& plan.reviewers == config.maintainers
            }
        }),
{
    let plan = action_plan(classification, decision, config);
    law_escalation_is_visible(classification, decision, config);
    if let TriageDecisionView::Escalate { reason, actions } = decision {
        let cc = mentions_text(config.maintainers);
        assert(plan.comment =~= (actions.comment_markdown
            + "\n\n---\n\n⚠️ **Flagged for maintainer review** — cc "@ + cc) + "\n\n> "@ + reason);
        assert forall|i: int| 0 <= i < config.maintainers.len() implies holds_text(
            plan.comment,
            "@"@ + #[trigger] config.maintainers[i],
        ) by {
            assert(mention(config.maintainers[i]) == "@"@ + config.maintainers[i]);
        }
    }
}

/// One maintainer more changes the comment of an escalation by one mention, put
/// behind the others after a space.
pub proof fn law_every_maintainer_is_mentioned_in_turn(
    classification: ClassificationView,
    reason: Seq<char>,
    actions: TriageActionsView,
    config: RepoConfigView,
    login: Seq<char>,
)
    ensures
        ({
            let decision = TriageDecisionView::Escalate { reason, actions };
            let more = RepoConfigView { maintainers: config.maintainers.push(login), ..config };
            let before = action_plan(classification, decision, config);
            let after = action_plan(classification, decision, more);
            &&& after.labels == before.labels
            &&& after.reviewers == before.reviewers.push(login)
            &&& config.maintainers.len() > 0 ==> exists|head: Seq<char>|
                before.comment == #[trigger] (head + ("\n\n> "@ + reason)) && after.comment == head
                    + (" @"@ + login) + ("\n\n> "@ + reason)
            &&& config.maintainers.len() == 0 ==> exists|head: Seq<char>|
                before.comment == #[trigger] (head + ("the maintainers\n\n> "@ + reason))
                    && after.comment == head + ("@"@ + login) + ("\n\n> "@ + reason)
        }),
{
    let decision = TriageDecisionView::Escalate { reason, actions };
    let more = RepoConfigView { maintainers: config.maintainers.push(login), ..config };
    let before = action_plan(classification, decision, config);
    let after = action_plan(classification, decision, more);
    let tail = "\n\n> "@ + reason;
    let top = actions.comment_markdown + "\n\n---\n\n⚠️ **Flagged for maintainer review** — cc "@;
    let list = config.maintainers.map_values(|m: Seq<char>| mention(m));
    let longer = more.maintainers.map_values(|m: Seq<char>| mention(m));
    assert(longer =~= list.push(mention(login)));
    law_joining_separates(list, mention(login), " "@);
    assert(before.comment =~= top + mentions_text(config.maintainers) + tail);
    assert(after.comment =~= top + mentions_text(more.maintainers) + tail);
    if config.maintainers.len() > 0 {
        let head = top + mentions_text(config.maintainers);
        assert(" @"@ =~= " "@ + "@"@) by {
            reveal_strlit(" @");
            reveal_strlit(" ");
            reveal_strlit("@");
        }
        assert(after.comment =~= head + (" @"@ + login) + tail);
        assert(before.comment =~= head + tail);
    } else {
        assert("the maintainers\n\n> "@ =~= "the maintainers"@ + "\n\n> "@) by {
            reveal_strlit("the maintainers\n\n> ");
            reveal_strlit("the maintainers");
            reveal_strlit("\n\n> ");
        }
        assert(before.comment =~= top + ("the maintainers\n\n> "@ + reason));
        assert(after.comment =~= top + ("@"@ + login) + tail);
    }
}

/// An escalation gives the model's own reason where it gave one that is not
/// blank; otherwise it says that the pull request needs discussion, or else that
/// the confidence is below the threshold.
pub proof fn law_an_escalation_gives_its_reason(
    decision: ModelDecisionView,
    classification: ClassificationView,
    config: RepoConfigView,
)
    ensures
        resolved(decision, classification, config) matches TriageDecisionView::Escalate {
            reason,
            ..
        } ==> {
            let given = decision.escalation_reason is Some && trimmed(
                decision.escalation_reason->0,
            ).len() > 0;
            &&& given ==> Some(reason) == decision.escalation_reason
            &&& !given && classification.category == PrCategory::NeedsDiscussion ==> reason
                == "PR classified as needing discussion before code review."@
            &&& !given && classification.category != PrCategory::NeedsDiscussion ==> reason
                == "Confidence below the configured threshold ("@ + two_places(
                config.confidence_threshold.bits,
            ) + ")."@
        },
{
}

/// A run hands on what it is given: the pull request and the trigger that it
/// began with, the configuration, the snapshot and the model's answers as the
/// replies brought them. Where nothing holds it back, the replies lead from the
/// start to what is done on the pull request, and from there to a report of that
/// same run.
pub proof fn law_a_run_hands_on_what_it_is_given(
    pr: PullRequestRefView,
    trigger: TriageTrigger,
    last: Option<InstantView>,
    config: RepoConfigView,
    now: InstantView,
    snapshot: PullRequestSnapshotView,
    classification: ClassificationView,
    answer: ModelDecisionView,
    labelled: InstantView,
    requested: Result<(), TriageErrorView>,
    asked: InstantView,
)
    requires
        trigger == TriageTrigger::Synchronized ==> config.triage_on_synchronize,
        trigger == TriageTrigger::Synchronized && last is Some ==> elapsed(now, last->0)
            >= config.cooldown_minutes * 60 * 1_000_000_000,
        snapshot.draft ==> !config.skip_drafts,
        in_unit_interval(classification.confidence.bits),
        in_unit_interval(answer.confidence.bits),
    ensures
        ({
            let fetched = after_reply(
                started(pr, trigger, last),
                AgentEventView::ConfigFetched { config: Ok(config), now },
            );
            let seen = after_reply(fetched, AgentEventView::SnapshotFetched(Ok(snapshot)));
            let classified = after_reply(seen, AgentEventView::Classified(Ok(classification)));
            let decided = after_reply(classified, AgentEventView::Decided(Ok(answer)));
            let posted = after_reply(decided, AgentEventView::CommentPosted(Ok(())));
            let added = after_reply(
                posted,
                AgentEventView::LabelsAdded { added: Ok(()), now: labelled },
            );
            let end = after_reply(
                added,
                AgentEventView::ReviewersRequested { requested, now: asked },
            );
            &&& fetched == (TriageAgentView::FetchSnapshot { pr, trigger, config })
            &&& seen matches TriageAgentView::Classify { pr: p, trigger: t, config: c, snapshot: s, findings: f }
                && p == pr && t == trigger && c == config && s == snapshot && f == policy_findings(
                snapshot,
                config,
            )
            &&& classified matches TriageAgentView::Decide {
                pr: p,
                trigger: t,
                config: c,
                snapshot: s,
                findings: f,
                classification: cl,
            } && p == pr && t == trigger && c == config && s == snapshot && f == policy_findings(
                snapshot,
                config,
            ) && cl == classification
            &&& decided matches TriageAgentView::PostComment(run) && {
                &&& run.pr == pr
                &&& run.trigger == trigger
                &&& run.classification == classification
                &&& run.findings == policy_findings(snapshot, config)
                &&& run.decision == resolved(answer, classification, config)
                &&& run.decision.actions().labels == answer.labels
                &&& run.decision.actions().comment_markdown == answer.comment_markdown
                &&& run.decision.actions().priority == answer.priority
                &&& run.plan == action_plan(classification, run.decision, config)
                &&& posted == TriageAgentView::AddLabels(run)
                &&& run.plan.reviewers.len() > 0 ==> added == TriageAgentView::RequestReviewers(run)
                &&& run.plan.reviewers.len() == 0 ==> added is Finished
            }
            &&& end matches TriageAgentView::Finished(Ok(AgentOutcomeView::Completed(report))) && {
                &&& report.pr == pr
                &&& report.trigger == trigger
                &&& report.classification == classification
                &&& report.findings == policy_findings(snapshot, config)
                &&& report.decision == resolved(answer, classification, config)
                &&& report.finished_at == if report.decision is Escalate
                    && config.maintainers.len() > 0 {
                    asked
                } else {
                    labelled
                }
            }
        }),
{
    assert(NANOS_PER_SEC == 1_000_000_000);
    assert(config.cooldown_minutes * 60 * NANOS_PER_SEC == config.cooldown_minutes * 60
        * 1_000_000_000);
}

/// A call that fails ends the run with its error, and only a failed request for
/// a review does not: that run completes all the same.
pub proof fn law_a_failed_call_ends_the_run(
    state: TriageAgentView,
    e: TriageErrorView,
    now: InstantView,
)
    ensures
        state is FetchConfig ==> after_reply(
            state,
            AgentEventView::ConfigFetched { config: Err(e), now },
        ) == TriageAgentView::Finished(Err(e)),
        state is FetchSnapshot ==> after_reply(state, AgentEventView::SnapshotFetched(Err(e)))
            == TriageAgentView::Finished(Err(e)),
        state is Classify ==> after_reply(state, AgentEventView::Classified(Err(e)))
            == TriageAgentView::Finished(Err(e)),
        state is Decide ==> after_reply(state, AgentEventView::Decided(Err(e)))
            == TriageAgentView::Finished(Err(e)),
        state is PostComment ==> after_reply(state, AgentEventView::CommentPosted(Err(e)))
            == TriageAgentView::Finished(Err(e)),
        state is AddLabels ==> after_reply(
            state,
            AgentEventView::LabelsAdded { added: Err(e), now },
        ) == TriageAgentView::Finished(Err(e)),
        state matches TriageAgentView::RequestReviewers(run) ==> after_reply(
            state,
            AgentEventView::ReviewersRequested { requested: Err(e), now },
        ) matches TriageAgentView::Finished(Ok(AgentOutcomeView::Completed(report))) && report.pr
            == run.pr && report.decision == run.decision && report.finished_at == now,
{
}

/// A confidence that is not between zero and one ends the run: the error names
/// the step and shows the value.
pub proof fn law_a_confidence_out_of_range_ends_the_run(
    state: TriageAgentView,
    classification: ClassificationView,
    answer: ModelDecisionView,
)
    ensures
        state is Classify && !in_unit_interval(classification.confidence.bits) ==> after_reply(
            state,
            AgentEventView::Classified(Ok(classification)),
        ) == TriageAgentView::Finished(
            Err(
                TriageErrorView::InvalidModelOutput(
                    "classification"@ + " confidence "@ + classification.confidence.shown
                        + " outside 0.0..=1.0"@,
                ),
            ),
        ),
        state is Decide && !in_unit_interval(answer.confidence.bits) ==> after_reply(
            state,
            AgentEventView::Decided(Ok(answer)),
        ) == TriageAgentView::Finished(
            Err(
                TriageErrorView::InvalidModelOutput(
                    "decision"@ + " confidence "@ + answer.confidence.shown
                        + " outside 0.0..=1.0"@,
                ),
            ),
        ),
{
}

/// A run is skipped with a reason: a push where the repository does not want
/// pushes triaged, a push within the cooldown, and a draft where drafts are
/// skipped.
pub proof fn law_a_skipped_run_says_why(
    pr: PullRequestRefView,
    trigger: TriageTrigger,
    last: Option<InstantView>,
    config: RepoConfigView,
    now: InstantView,
    snapshot: PullRequestSnapshotView,
)
    ensures
        trigger == TriageTrigger::Synchronized && !config.triage_on_synchronize ==> after_reply(
            started(pr, trigger, last),
            AgentEventView::ConfigFetched { config: Ok(config), now },
        ) == TriageAgentView::Finished(
            Ok(
                AgentOutcomeView::Skipped {
                    reason: "triage_on_synchronize disabled in .scaffold.toml"@,
                },
            ),
        ),
        trigger == TriageTrigger::Synchronized && config.triage_on_synchronize && last is Some
            && elapsed(now, last->0) < config.cooldown_minutes * 60 * 1_000_000_000 ==> after_reply(
            started(pr, trigger, last),
            AgentEventView::ConfigFetched { config: Ok(config), now },
        ) == TriageAgentView::Finished(
            Ok(
                AgentOutcomeView::Skipped {
                    reason: "within "@ + decimal(config.cooldown_minutes as nat)
                        + "-minute re-triage cooldown"@,
                },
            ),
        ),
        snapshot.draft && config.skip_drafts ==> after_reply(
            TriageAgentView::FetchSnapshot { pr, trigger, config },
            AgentEventView::SnapshotFetched(Ok(snapshot)),
        ) == TriageAgentView::Finished(Ok(AgentOutcomeView::Skipped { reason: "draft PR"@ })),
        !(snapshot.draft && config.skip_drafts) ==> after_reply(
            TriageAgentView::FetchSnapshot { pr, trigger, config },
            AgentEventView::SnapshotFetched(Ok(snapshot)),
        ) is Classify,
{
    assert(config.cooldown_minutes * 60 * NANOS_PER_SEC == config.cooldown_minutes * 60
        * 1_000_000_000);
}

/// Replies are taken in one after the other: none changes nothing, and one more
/// is taken in where those before it have led.
pub proof fn law_replies_are_taken_in_turn(
    state: TriageAgentView,
    events: Seq<AgentEventView>,
    event: AgentEventView,
)
    ensures
        after_replies(state, Seq::empty()) == state,
        after_replies(state, events.push(event)) == after_reply(
            after_replies(state, events),
            event,
        ),
{
    assert(events.push(event).drop_last() =~= events);
}

} // verus!
