//! Core triage types: classification, findings, decisions, jobs.

use vstd::prelude::*;

use crate::pr::{PullRequestRef, PullRequestRefView};
use crate::score::{Score, ScoreView};
use crate::text::{clone_texts, lemma_views_push, option_view, views};
use crate::time::{InstantView, UtcTime};

verus! {

#[derive(Debug, Clone, Copy, PartialEq, Eq, Structural)]
pub enum PrCategory {
    BugFix,
    Feature,
    Docs,
    Chore,
    NeedsDiscussion,
}

/// The label of a category.
pub open spec fn category_label(category: PrCategory) -> Seq<char> {
    match category {
        PrCategory::BugFix => "bug-fix"@,
        PrCategory::Feature => "feature"@,
        PrCategory::Docs => "docs"@,
        PrCategory::Chore => "chore"@,
        PrCategory::NeedsDiscussion => "needs-discussion"@,
    }
}

/// The name of a category's variant.
pub open spec fn category_name(category: PrCategory) -> Seq<char> {
    match category {
        PrCategory::BugFix => "BugFix"@,
        PrCategory::Feature => "Feature"@,
        PrCategory::Docs => "Docs"@,
        PrCategory::Chore => "Chore"@,
        PrCategory::NeedsDiscussion => "NeedsDiscussion"@,
    }
}

impl PrCategory {
    /// Label applied for this category.
    pub fn label(&self) -> (s: &'static str)
        ensures
            s@ == category_label(*self),
    {
        match self {
            PrCategory::BugFix => "bug-fix",
            PrCategory::Feature => "feature",
            PrCategory::Docs => "docs",
            PrCategory::Chore => "chore",
            PrCategory::NeedsDiscussion => "needs-discussion",
        }
    }

    /// The variant's name.
    pub fn name(&self) -> (s: &'static str)
        ensures
            s@ == category_name(*self),
    {
        match self {
            PrCategory::BugFix => "BugFix",
            PrCategory::Feature => "Feature",
            PrCategory::Docs => "Docs",
            PrCategory::Chore => "Chore",
            PrCategory::NeedsDiscussion => "NeedsDiscussion",
        }
    }
}

#[derive(Debug, Clone, Copy, PartialEq, Eq, Structural)]
pub enum RiskLevel {
    Low,
    Medium,
    High,
}

/// The name of a risk level's variant.
pub open spec fn risk_name(risk: RiskLevel) -> Seq<char> {
    match risk {
        RiskLevel::Low => "Low"@,
        RiskLevel::Medium => "Medium"@,
        RiskLevel::High => "High"@,
    }
}

impl RiskLevel {
    /// The variant's name.
    pub fn name(&self) -> (s: &'static str)
        ensures
            s@ == risk_name(*self),
    {
        match self {
            RiskLevel::Low => "Low",
            RiskLevel::Medium => "Medium",
            RiskLevel::High => "High",
        }
    }
}

/// Output of the classify step.
#[derive(Debug)]
pub struct Classification {
    pub category: PrCategory,
    /// Model's own confidence in the classification, between zero and one.
    pub confidence: Score,
    /// One-paragraph summary of what the PR does.
    pub summary: String,
    pub risk: RiskLevel,
}

/// A classification's model.
pub struct ClassificationView {
    pub category: PrCategory,
    pub confidence: ScoreView,
    pub summary: Seq<char>,
    pub risk: RiskLevel,
}

impl View for Classification {
    type V = ClassificationView;

    open spec fn view(&self) -> ClassificationView {
        ClassificationView {
            category: self.category,
            confidence: self.confidence@,
            summary: self.summary@,
            risk: self.risk,
        }
    }
}

impl Clone for Classification {
    fn clone(&self) -> (copy: Self)
        ensures
            copy@ == self@,
    {
        Classification {
            category: self.category,
            confidence: self.confidence.clone(),
            summary: self.summary.clone(),
            risk: self.risk,
        }
    }
}

#[derive(Debug, Clone, Copy, PartialEq, Eq, Structural)]
pub enum PolicyFindingKind {
    MissingTests,
    UnclearDescription,
    MergeConflict,
    FailingCi,
}

/// The name of a finding kind's variant.
pub open spec fn finding_kind_name(kind: PolicyFindingKind) -> Seq<char> {
    match kind {
        PolicyFindingKind::MissingTests => "MissingTests"@,
        PolicyFindingKind::UnclearDescription => "UnclearDescription"@,
        PolicyFindingKind::MergeConflict => "MergeConflict"@,
        PolicyFindingKind::FailingCi => "FailingCi"@,
    }
}

impl PolicyFindingKind {
    /// The variant's name.
    pub fn name(&self) -> (s: &'static str)
        ensures
            s@ == finding_kind_name(*self),
    {
        match self {
            PolicyFindingKind::MissingTests => "MissingTests",
            PolicyFindingKind::UnclearDescription => "UnclearDescription",
            PolicyFindingKind::MergeConflict => "MergeConflict",
            PolicyFindingKind::FailingCi => "FailingCi",
        }
    }
}

/// A deterministic policy-check result. These are produced by plain code,
/// never by the model.
#[derive(Debug)]
pub struct PolicyFinding {
    pub kind: PolicyFindingKind,
    pub detail: String,
}

/// A finding's model.
pub struct PolicyFindingView {
    pub kind: PolicyFindingKind,
    pub detail: Seq<char>,
}

impl View for PolicyFinding {
    type V = PolicyFindingView;

    open spec fn view(&self) -> PolicyFindingView {
        PolicyFindingView { kind: self.kind, detail: self.detail@ }
    }
}

impl Clone for PolicyFinding {
    fn clone(&self) -> (copy: Self)
        ensures
            copy@ == self@,
    {
        PolicyFinding { kind: self.kind, detail: self.detail.clone() }
    }
}

/// A copy of a list of findings.
pub fn clone_findings(list: &Vec<PolicyFinding>) -> (copy: Vec<PolicyFinding>)
    ensures
        views(copy@) == views(list@),
{
    let mut copy: Vec<PolicyFinding> = Vec::new();
    let mut i: usize = 0;
    while i < list.len()
        invariant
            i <= list@.len(),
            views(copy@) == views(list@).take(i as int),
        decreases list.len() - i,
    {
        let item = list[i].clone();
        proof {
            lemma_views_push(copy@, item);
            assert(views(list@).take(i + 1) =~= views(list@).take(i as int).push(item@));
        }
        copy.push(item);
        i = i + 1;
    }
    proof {
        assert(views(copy@) =~= views(list@));
    }
    copy
}

#[derive(Debug, Clone, Copy, PartialEq, Eq, Structural)]
pub enum Priority {
    Low,
    Medium,
    High,
}

/// The label of a priority.
pub open spec fn priority_label(priority: Priority) -> Seq<char> {
    match priority {
        Priority::Low => "priority:low"@,
        Priority::Medium => "priority:medium"@,
        Priority::High => "priority:high"@,
    }
}

impl Priority {
    pub fn label(&self) -> (s: &'static str)
        ensures
            s@ == priority_label(*self),
    {
        match self {
            Priority::Low => "priority:low",
            Priority::Medium => "priority:medium",
            Priority::High => "priority:high",
        }
    }
}

/// Output of the decide step, flat as the model's schema has it. The agent
/// converts this into a [`TriageDecision`], applying the repo's confidence
/// threshold.
#[derive(Debug)]
pub struct ModelDecision {
    /// Model recommends routing to a human instead of standing behind the triage.
    pub escalate: bool,
    pub escalation_reason: Option<String>,
    /// Markdown body for the sticky triage comment.
    pub comment_markdown: String,
    /// Extra labels beyond category/priority (e.g. "needs-tests").
    pub labels: Vec<String>,
    pub priority: Priority,
    /// Model's confidence in this decision, between zero and one.
    pub confidence: Score,
}

/// A model decision's model.
pub struct ModelDecisionView {
    pub escalate: bool,
    pub escalation_reason: Option<Seq<char>>,
    pub comment_markdown: Seq<char>,
    pub labels: Seq<Seq<char>>,
    pub priority: Priority,
    pub confidence: ScoreView,
}

impl View for ModelDecision {
    type V = ModelDecisionView;

    open spec fn view(&self) -> ModelDecisionView {
        ModelDecisionView {
            escalate: self.escalate,
            escalation_reason: option_view(self.escalation_reason),
            comment_markdown: self.comment_markdown@,
            labels: views(self.labels@),
            priority: self.priority,
            confidence: self.confidence@,
        }
    }
}

/// What the agent will do on GitHub.
#[derive(Debug)]
pub struct TriageActions {
    pub comment_markdown: String,
    pub labels: Vec<String>,
    pub priority: Priority,
}

/// The model of the actions.
pub struct TriageActionsView {
    pub comment_markdown: Seq<char>,
    pub labels: Seq<Seq<char>>,
    pub priority: Priority,
}

impl View for TriageActions {
    type V = TriageActionsView;

    open spec fn view(&self) -> TriageActionsView {
        TriageActionsView {
            comment_markdown: self.comment_markdown@,
            labels: views(self.labels@),
            priority: self.priority,
        }
    }
}

impl Clone for TriageActions {
    fn clone(&self) -> (copy: Self)
        ensures
            copy@ == self@,
    {
        TriageActions {
            comment_markdown: self.comment_markdown.clone(),
            labels: clone_texts(&self.labels),
            priority: self.priority,
        }
    }
}

/// Final, validated outcome of a triage run. Escalation is a first-class
/// variant, not an error.
#[derive(Debug)]
pub enum TriageDecision {
    Proceed { actions: TriageActions },
    Escalate { reason: String, actions: TriageActions },
}

/// A decision's model.
pub enum TriageDecisionView {
    Proceed { actions: TriageActionsView },
    Escalate { reason: Seq<char>, actions: TriageActionsView },
}

impl View for TriageDecision {
    type V = TriageDecisionView;

    open spec fn view(&self) -> TriageDecisionView {
        match self {
            TriageDecision::Proceed { actions } => TriageDecisionView::Proceed {
                actions: actions@,
            },
            TriageDecision::Escalate { reason, actions } => TriageDecisionView::Escalate {
                reason: reason@,
                actions: actions@,
            },
        }
    }
}

impl TriageDecisionView {
    /// The actions of either variant.
    pub open spec fn actions(self) -> TriageActionsView {
        match self {
            TriageDecisionView::Proceed { actions } => actions,
            TriageDecisionView::Escalate { actions, .. } => actions,
        }
    }
}

impl Clone for TriageDecision {
    fn clone(&self) -> (copy: Self)
        ensures
            copy@ == self@,
    {
        match self {
            TriageDecision::Proceed { actions } => TriageDecision::Proceed {
                actions: actions.clone(),
            },
            TriageDecision::Escalate { reason, actions } => TriageDecision::Escalate {
                reason: reason.clone(),
                actions: actions.clone(),
            },
        }
    }
}

impl TriageDecision {
    pub fn is_escalation(&self) -> (escalation: bool)
        ensures
            escalation == (self@ is Escalate),
    {
        match self {
            TriageDecision::Proceed { .. } => false,
            TriageDecision::Escalate { .. } => true,
        }
    }

    pub fn actions(&self) -> (actions: &TriageActions)
        ensures
            actions@ == self@.actions(),
    {
        match self {
            TriageDecision::Proceed { actions } => actions,
            TriageDecision::Escalate { actions, .. } => actions,
        }
    }
}

/// Complete record of one triage run, persisted to the audit log.
#[derive(Debug)]
pub struct TriageReport {
    pub pr: PullRequestRef,
    pub trigger: TriageTrigger,
    pub classification: Classification,
    pub findings: Vec<PolicyFinding>,
    pub decision: TriageDecision,
    pub finished_at: UtcTime,
}

/// A report's model.
pub struct TriageReportView {
    pub pr: PullRequestRefView,
    pub trigger: TriageTrigger,
    pub classification: ClassificationView,
    pub findings: Seq<PolicyFindingView>,
    pub decision: TriageDecisionView,
    pub finished_at: InstantView,
}

impl View for TriageReport {
    type V = TriageReportView;

    open spec fn view(&self) -> TriageReportView {
        TriageReportView {
            pr: self.pr@,
            trigger: self.trigger,
            classification: self.classification@,
            findings: views(self.findings@),
            decision: self.decision@,
            finished_at: self.finished_at@,
        }
    }
}

impl Clone for TriageReport {
    fn clone(&self) -> (copy: Self)
        ensures
            copy@ == self@,
    {
        TriageReport {
            pr: self.pr.clone(),
            trigger: self.trigger,
            classification: self.classification.clone(),
            findings: clone_findings(&self.findings),
            decision: self.decision.clone(),
            finished_at: self.finished_at,
        }
    }
}

#[derive(Debug, Clone, Copy, PartialEq, Eq, Structural)]
pub enum TriageTrigger {
    Opened,
    Reopened,
    Synchronized,
}

/// A queued unit of work created by the webhook handler and claimed by the
/// worker loop.
#[derive(Debug)]
pub struct TriageJob {
    pub id: i64,
    /// GitHub delivery GUID, used for idempotency.
    pub delivery_id: String,
    pub pr: PullRequestRef,
    pub trigger: TriageTrigger,
    pub attempts: i32,
}

/// A job's model.
pub struct TriageJobView {
    pub id: i64,
    pub delivery_id: Seq<char>,
    pub pr: PullRequestRefView,
    pub trigger: TriageTrigger,
    pub attempts: i32,
}

impl View for TriageJob {
    type V = TriageJobView;

    open spec fn view(&self) -> TriageJobView {
        TriageJobView {
            id: self.id,
            delivery_id: self.delivery_id@,
            pr: self.pr@,
            trigger: self.trigger,
            attempts: self.attempts,
        }
    }
}

/// What the store decided after a job failure.
#[derive(Debug, Clone, Copy, PartialEq, Eq, Structural)]
pub enum JobDisposition {
    /// Job will be retried later.
    Retry,
    /// Attempts exhausted; worker must degrade to human escalation.
    Dead,
}

/// One journaled usage event that couldn't be tracked while billing was down.
#[derive(Debug)]
pub struct UntrackedUsage {
    pub id: i64,
    pub installation_id: u64,
    pub pr: PullRequestRef,
}

/// A usage event's model.
pub struct UntrackedUsageView {
    pub id: i64,
    pub installation_id: u64,
    pub pr: PullRequestRefView,
}

impl View for UntrackedUsage {
    type V = UntrackedUsageView;

    open spec fn view(&self) -> UntrackedUsageView {
        UntrackedUsageView { id: self.id, installation_id: self.installation_id, pr: self.pr@ }
    }
}

/// No two categories share a label or a name, no two priorities a label, no two
/// risks and no two kinds of findings a name.
pub proof fn law_labels_and_names_tell_apart(
    a: PrCategory,
    b: PrCategory,
    p: Priority,
    q: Priority,
    r: RiskLevel,
    s: RiskLevel,
    k: PolicyFindingKind,
    l: PolicyFindingKind,
)
    ensures
        category_label(a) == category_label(b) ==> a == b,
        category_name(a) == category_name(b) ==> a == b,
        priority_label(p) == priority_label(q) ==> p == q,
        risk_name(r) == risk_name(s) ==> r == s,
        finding_kind_name(k) == finding_kind_name(l) ==> k == l,
{
    lemma_category_labels(a);
    lemma_category_labels(b);
    lemma_other_labels(p, r, k);
    lemma_other_labels(q, s, l);
}

/// Where the labels and the names of two categories differ at the latest.
proof fn lemma_category_labels(a: PrCategory)
    ensures
        category_label(a).len() > 0,
        category_label(a)[0] == (match a {
            PrCategory::BugFix => 'b',
            PrCategory::Feature => 'f',
            PrCategory::Docs => 'd',
            PrCategory::Chore => 'c',
            PrCategory::NeedsDiscussion => 'n',
        }),
        category_name(a)[0] == (match a {
            PrCategory::BugFix => 'B',
            PrCategory::Feature => 'F',
            PrCategory::Docs => 'D',
            PrCategory::Chore => 'C',
            PrCategory::NeedsDiscussion => 'N',
        }),
{
    reveal_strlit("bug-fix");
    reveal_strlit("feature");
    reveal_strlit("docs");
    reveal_strlit("chore");
    reveal_strlit("needs-discussion");
    reveal_strlit("BugFix");
    reveal_strlit("Feature");
    reveal_strlit("Docs");
    reveal_strlit("Chore");
    reveal_strlit("NeedsDiscussion");
}

proof fn lemma_other_labels(p: Priority, r: RiskLevel, k: PolicyFindingKind)
    ensures
        priority_label(p)[9] == (match p {
            Priority::Low => 'l',
            Priority::Medium => 'm',
            Priority::High => 'h',
        }),
        risk_name(r)[0] == (match r {
            RiskLevel::Low => 'L',
            RiskLevel::Medium => 'M',
            RiskLevel::High => 'H',
        }),
        finding_kind_name(k).len() == (match k {
            PolicyFindingKind::MissingTests => 12nat,
            PolicyFindingKind::UnclearDescription => 18,
            PolicyFindingKind::MergeConflict => 13,
            PolicyFindingKind::FailingCi => 9,
        }),
{
    reveal_strlit("priority:low");
    reveal_strlit("priority:medium");
    reveal_strlit("priority:high");
    reveal_strlit("Low");
    reveal_strlit("Medium");
    reveal_strlit("High");
    reveal_strlit("MissingTests");
    reveal_strlit("UnclearDescription");
    reveal_strlit("MergeConflict");
    reveal_strlit("FailingCi");
}

} // verus!
