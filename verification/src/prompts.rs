//! Prompts and JSON schemas for the two typed model calls.

use vstd::prelude::*;

use crate::config::{RepoConfig, RepoConfigView};
use crate::json::{
    array_at, json_get, law_a_key_is_read_from_its_first_member, member, text_at, Json, JsonView,
    Member, MemberView,
};
use crate::pr::{
    pr_text, ChangedFile, ChangedFileView, CheckConclusion, CheckRun, CheckRunView,
    PullRequestSnapshot, PullRequestSnapshotView,
};
use crate::score::two_places;
use crate::text::{
    begins_with, clipped, concat, decimal, holds_text, is_blank,
    law_clipped_is_the_longest_fitting_prefix, law_parts_of_a_text, lemma_clipped_whole,
    lemma_concat_shows, lemma_shown_between, lemma_views_push, push_decimal, shows_in_order,
    stands_at, trimmed, truncate_to_budget, utf8_len, views,
};
use crate::triage::{
    category_name, finding_kind_name, risk_name, Classification, ClassificationView, PolicyFinding,
    PolicyFindingView,
};

verus! {

pub const CLASSIFY_SYSTEM: &'static str = "\
You are Scaffold AI, a pull-request triage assistant for open-source maintainers.
Classify the PR from its metadata and diff. Judge only what is in front of you; \
if the intent is genuinely unclear or the change mixes unrelated concerns, use \
needs_discussion rather than guessing. Set confidence honestly: it is used to \
decide whether a human reviews your work, and an overconfident wrong answer is \
worse than a low-confidence escalation.";

pub const DECIDE_SYSTEM: &'static str = "\
You are Scaffold AI, writing the triage comment a maintainer and the PR author \
will read. You receive a classification and a list of policy findings that were \
detected by deterministic checks — do not re-litigate them, and do not invent \
findings of your own. Write comment_markdown as a concise, friendly review \
comment: one-line summary, then the findings as actionable checklist items \
(omit the section if there are none), then any concrete suggestions. Never \
scold. Set escalate=true when the PR is high-risk, touches security-sensitive \
areas, or you are not confident a bot should decide — escalating to a human is \
a good outcome, not a failure. Do not @-mention anyone; mentions are added by \
the system.";

/// Cap on diff bytes included in a prompt. The host adapter also caps at fetch
/// time; this is a second line of defense.
pub const DIFF_PROMPT_BUDGET: usize = 120_000;

/// How a truth value is written.
pub open spec fn bool_text(b: bool) -> Seq<char> {
    if b {
        "true"@
    } else {
        "false"@
    }
}

/// How the state of a check is written.
pub open spec fn conclusion_text(c: CheckConclusion) -> Seq<char> {
    match c {
        CheckConclusion::Success => "success"@,
        CheckConclusion::Failure => "FAILURE"@,
        CheckConclusion::Neutral => "neutral"@,
        CheckConclusion::Cancelled => "cancelled"@,
        CheckConclusion::TimedOut => "TIMED OUT"@,
        CheckConclusion::ActionRequired => "ACTION REQUIRED"@,
        CheckConclusion::Skipped => "skipped"@,
        CheckConclusion::Pending => "pending"@,
    }
}

fn conclusion_str(c: CheckConclusion) -> (s: &'static str)
    ensures
        s@ == conclusion_text(c),
{
    match c {
        CheckConclusion::Success => "success",
        CheckConclusion::Failure => "FAILURE",
        CheckConclusion::Neutral => "neutral",
        CheckConclusion::Cancelled => "cancelled",
        CheckConclusion::TimedOut => "TIMED OUT",
        CheckConclusion::ActionRequired => "ACTION REQUIRED",
        CheckConclusion::Skipped => "skipped",
        CheckConclusion::Pending => "pending",
    }
}

/// How mergeability is written.
pub open spec fn mergeable_text(mergeable: Option<bool>) -> Seq<char> {
    match mergeable {
        Some(true) => "yes"@,
        Some(false) => "NO (conflicts)"@,
        None => "unknown"@,
    }
}

/// The first lines of a prompt: the pull request, its title and its metadata.
pub open spec fn heading(s: PullRequestSnapshotView) -> Seq<char> {
    "# PR "@ + pr_text(s.pr) + ": "@ + s.title + "\n\nAuthor: "@ + s.author + "\nBranch: "@
        + s.head_branch + " -> "@ + s.base_branch + "\nDraft: "@ + bool_text(s.draft)
        + "\nMergeable: "@ + mergeable_text(s.mergeable) + "\n\n"@
}

fn push_heading(out: &mut String, s: &PullRequestSnapshot)
    ensures
        final(out)@ == old(out)@ + heading(s@),
{
    let mut h = String::from_str("# PR ");
    let pr = s.pr.to_text();
    h.append(pr.as_str());
    h.append(": ");
    h.append(s.title.as_str());
    h.append("\n\nAuthor: ");
    h.append(s.author.as_str());
    h.append("\nBranch: ");
    h.append(s.head_branch.as_str());
    h.append(" -> ");
    h.append(s.base_branch.as_str());
    h.append("\nDraft: ");
    h.append(if s.draft {
        "true"
    } else {
        "false"
    });
    h.append("\nMergeable: ");
    h.append(match s.mergeable {
        Some(m) => if m {
            "yes"
        } else {
            "NO (conflicts)"
        },
        None => "unknown",
    });
    h.append("\n\n");
    out.append(h.as_str());
}

/// The description, or a word for an empty one.
pub open spec fn description(body: Seq<char>) -> Seq<char> {
    if trimmed(body).len() == 0 {
        "(empty)"@
    } else {
        body
    }
}

/// The line of one changed file.
pub open spec fn file_line(f: ChangedFileView) -> Seq<char> {
    "- "@ + f.path + " ("@ + f.status + ", +"@ + decimal(f.additions as nat) + " -"@ + decimal(
        f.deletions as nat,
    ) + ")\n"@
}

/// The lines of the changed files.
pub open spec fn file_lines(files: Seq<ChangedFileView>) -> Seq<char> {
    concat(files.map_values(|f: ChangedFileView| file_line(f)))
}

fn push_file_lines(out: &mut String, files: &Vec<ChangedFile>)
    ensures
        final(out)@ == old(out)@ + file_lines(views(files@)),
{
    let ghost start = out@;
    let ghost lines = views(files@).map_values(|f: ChangedFileView| file_line(f));
    let mut i: usize = 0;
    proof {
        assert(start + concat(lines.take(0)) =~= start);
    }
    while i < files.len()
        invariant
            lines == views(files@).map_values(|f: ChangedFileView| file_line(f)),
            i <= files@.len(),
            out@ == start + concat(lines.take(i as int)),
        decreases files.len() - i,
    {
        let f = &files[i];
        let mut line = String::from_str("- ");
        line.append(f.path.as_str());
        line.append(" (");
        line.append(f.status.as_str());
        line.append(", +");
        push_decimal(&mut line, f.additions);
        line.append(" -");
        push_decimal(&mut line, f.deletions);
        line.append(")\n");
        out.append(line.as_str());
        proof {
            let longer = lines.take(i + 1);
            assert(longer.drop_last() =~= lines.take(i as int));
            assert(longer.last() == line@);
            assert(out@ =~= start + concat(longer));
        }
        i = i + 1;
    }
    proof {
        assert(lines.take(lines.len() as int) =~= lines);
    }
}

/// The line of one check.
pub open spec fn check_line(c: CheckRunView) -> Seq<char> {
    "- "@ + c.name + ": "@ + conclusion_text(c.conclusion) + "\n"@
}

/// The section on checks; nothing where there are none.
pub open spec fn checks_section(checks: Seq<CheckRunView>) -> Seq<char> {
    if checks.len() == 0 {
        Seq::empty()
    } else {
        "\n## CI checks\n\n"@ + concat(checks.map_values(|c: CheckRunView| check_line(c)))
    }
}

fn push_checks_section(out: &mut String, checks: &Vec<CheckRun>)
    ensures
        final(out)@ == old(out)@ + checks_section(views(checks@)),
{
    if checks.is_empty() {
        proof {
            assert(out@ =~= old(out)@ + checks_section(views(checks@)));
        }
        return ;
    }
    let ghost before = out@;
    let ghost lines = views(checks@).map_values(|c: CheckRunView| check_line(c));
    out.append("\n## CI checks\n\n");
    let ghost start = out@;
    let mut i: usize = 0;
    proof {
        assert(start + concat(lines.take(0)) =~= start);
    }
    while i < checks.len()
        invariant
            lines == views(checks@).map_values(|c: CheckRunView| check_line(c)),
            i <= checks@.len(),
            out@ == start + concat(lines.take(i as int)),
        decreases checks.len() - i,
    {
        let c = &checks[i];
        let mut line = String::from_str("- ");
        line.append(c.name.as_str());
        line.append(": ");
        line.append(conclusion_str(c.conclusion));
        line.append("\n");
        out.append(line.as_str());
        proof {
            let longer = lines.take(i + 1);
            assert(longer.drop_last() =~= lines.take(i as int));
            assert(longer.last() == line@);
            assert(out@ =~= start + concat(longer));
        }
        i = i + 1;
    }
    proof {
        assert(lines.take(lines.len() as int) =~= lines);
        assert(out@ =~= before + checks_section(views(checks@)));
    }
}

/// What is said where a diff is not shown whole.
pub open spec fn truncation_note() -> Seq<char> {
    "\n(NOTE: diff truncated — judge from what is shown and lower confidence if the omitted part matters.)\n"@
}

/// The section with the diff, clipped to the budget.
pub open spec fn diff_section(s: PullRequestSnapshotView) -> Seq<char> {
    let shown = "\n## Diff\n\n```diff\n"@ + clipped(s.diff, DIFF_PROMPT_BUDGET as int)
        + "\n```\n"@;
    if s.diff_truncated || utf8_len(s.diff) > DIFF_PROMPT_BUDGET {
        shown + truncation_note()
    } else {
        shown
    }
}

fn push_diff_section(out: &mut String, s: &PullRequestSnapshot)
    ensures
        final(out)@ == old(out)@ + diff_section(s@),
{
    let mut section = String::from_str("\n## Diff\n\n```diff\n");
    let diff = truncate_to_budget(s.diff.as_str(), DIFF_PROMPT_BUDGET);
    section.append(diff);
    section.append("\n```\n");
    proof {
        law_clipped_is_the_longest_fitting_prefix(s.diff@, DIFF_PROMPT_BUDGET as int);
        if utf8_len(s.diff@) <= DIFF_PROMPT_BUDGET {
            lemma_clipped_whole(s.diff@, DIFF_PROMPT_BUDGET as int);
        }
    }
    if s.diff_truncated || diff.as_bytes().len() < s.diff.as_str().as_bytes().len() {
        section.append(
            "\n(NOTE: diff truncated — judge from what is shown and lower confidence if the omitted part matters.)\n",
        );
    }
    out.append(section.as_str());
}

/// The prompt text of a snapshot.
pub open spec fn snapshot_text(s: PullRequestSnapshotView) -> Seq<char> {
    heading(s) + "## Description\n\n"@ + description(s.body) + "\n\n## Changed files\n\n"@
        + file_lines(s.changed_files) + checks_section(s.checks) + diff_section(s)
}

pub fn render_snapshot(s: &PullRequestSnapshot) -> (out: String)
    ensures
        out@ == snapshot_text(s@),
{
    let mut out = String::new();
    push_heading(&mut out, s);
    proof {
        assert(out@ =~= heading(s@));
    }
    out.append("## Description\n\n");
    if is_blank(s.body.as_str()) {
        out.append("(empty)");
    } else {
        out.append(s.body.as_str());
    }
    out.append("\n\n## Changed files\n\n");
    push_file_lines(&mut out, &s.changed_files);
    push_checks_section(&mut out, &s.checks);
    push_diff_section(&mut out, s);
    out
}

/// The section on the classification.
pub open spec fn classification_section(c: ClassificationView) -> Seq<char> {
    "\n## Classification (from previous step)\n\ncategory: "@ + category_name(c.category)
        + "\nconfidence: "@ + two_places(c.confidence.bits) + "\nrisk: "@ + risk_name(c.risk)
        + "\nsummary: "@ + c.summary + "\n"@
}

fn push_classification_section(out: &mut String, c: &Classification)
    ensures
        final(out)@ == old(out)@ + classification_section(c@),
{
    let mut section = String::from_str("\n## Classification (from previous step)\n\ncategory: ");
    section.append(c.category.name());
    section.append("\nconfidence: ");
    let confidence = c.confidence.to_two_places();
    section.append(confidence.as_str());
    section.append("\nrisk: ");
    section.append(c.risk.name());
    section.append("\nsummary: ");
    section.append(c.summary.as_str());
    section.append("\n");
    out.append(section.as_str());
}

/// The line of one finding.
pub open spec fn finding_line(f: PolicyFindingView) -> Seq<char> {
    "- ["@ + finding_kind_name(f.kind) + "] "@ + f.detail + "\n"@
}

/// The section on the policy findings.
pub open spec fn findings_section(findings: Seq<PolicyFindingView>) -> Seq<char> {
    "\n## Policy findings (deterministic checks — authoritative)\n\n"@ + if findings.len() == 0 {
        "(none)\n"@
    } else {
        concat(findings.map_values(|f: PolicyFindingView| finding_line(f)))
    }
}

fn push_findings_section(out: &mut String, findings: &Vec<PolicyFinding>)
    ensures
        final(out)@ == old(out)@ + findings_section(views(findings@)),
{
    let ghost before = out@;
    out.append("\n## Policy findings (deterministic checks — authoritative)\n\n");
    if findings.is_empty() {
        out.append("(none)\n");
        proof {
            assert(out@ =~= before + findings_section(views(findings@)));
        }
        return ;
    }
    let ghost lines = views(findings@).map_values(|f: PolicyFindingView| finding_line(f));
    let ghost start = out@;
    let mut i: usize = 0;
    proof {
        assert(start + concat(lines.take(0)) =~= start);
    }
    while i < findings.len()
        invariant
            lines == views(findings@).map_values(|f: PolicyFindingView| finding_line(f)),
            i <= findings@.len(),
            out@ == start + concat(lines.take(i as int)),
        decreases findings.len() - i,
    {
        let f = &findings[i];
        let mut line = String::from_str("- [");
        line.append(f.kind.name());
        line.append("] ");
        line.append(f.detail.as_str());
        line.append("\n");
        out.append(line.as_str());
        proof {
            let longer = lines.take(i + 1);
            assert(longer.drop_last() =~= lines.take(i as int));
            assert(longer.last() == line@);
            assert(out@ =~= start + concat(longer));
        }
        i = i + 1;
    }
    proof {
        assert(lines.take(lines.len() as int) =~= lines);
        assert(out@ =~= before + findings_section(views(findings@)));
    }
}

/// The section on the repo's threshold.
pub open spec fn threshold_section(config: RepoConfigView) -> Seq<char> {
    "\n## Repo policy\n\nDecisions below "@ + two_places(config.confidence_threshold.bits)
        + " confidence are escalated to a human automatically.\n"@
}

/// The prompt text of the decision step.
pub open spec fn decision_text(
    snapshot: PullRequestSnapshotView,
    classification: ClassificationView,
    findings: Seq<PolicyFindingView>,
    config: RepoConfigView,
) -> Seq<char> {
    snapshot_text(snapshot) + classification_section(classification) + findings_section(findings)
        + threshold_section(config)
}

pub fn render_decision_input(
    snapshot: &PullRequestSnapshot,
    classification: &Classification,
    findings: &Vec<PolicyFinding>,
    config: &RepoConfig,
) -> (out: String)
    ensures
        out@ == decision_text(snapshot@, classification@, views(findings@), config@),
{
    let mut out = render_snapshot(snapshot);
    push_classification_section(&mut out, classification);
    push_findings_section(&mut out, findings);
    let mut section = String::from_str("\n## Repo policy\n\nDecisions below ");
    let threshold = config.confidence_threshold.to_two_places();
    section.append(threshold.as_str());
    section.append(" confidence are escalated to a human automatically.\n");
    out.append(section.as_str());
    out
}

/// Texts as JSON strings.
pub open spec fn strings(list: Seq<Seq<char>>) -> JsonView {
    JsonView::Array(list.map_values(|t: Seq<char>| JsonView::Str(t)))
}

fn string_array(list: &Vec<&'static str>) -> (value: Json)
    ensures
        value@ == strings(views(list@)),
{
    let ghost all = views(list@).map_values(|t: Seq<char>| JsonView::Str(t));
    let mut items: Vec<Json> = Vec::new();
    let mut i: usize = 0;
    proof {
        assert(views(items@) =~= all.take(0));
    }
    while i < list.len()
        invariant
            all == views(list@).map_values(|t: Seq<char>| JsonView::Str(t)),
            i <= list@.len(),
            views(items@) == all.take(i as int),
        decreases list.len() - i,
    {
        let item = Json::str(list[i]);
        proof {
            lemma_views_push(items@, item);
            assert(all.take(i + 1) =~= all.take(i as int).push(item@));
        }
        items.push(item);
        i = i + 1;
    }
    proof {
        assert(all.take(all.len() as int) =~= all);
    }
    Json::array(items)
}

/// A property of a type, with what it is for.
pub open spec fn property(kind: JsonView, about: Seq<char>) -> JsonView {
    JsonView::Object(seq![member("type"@, kind), member("description"@, JsonView::Str(about))])
}

fn property_json(kind: Json, about: &str) -> (value: Json)
    ensures
        value@ == property(kind@, about@),
{
    let members = vec![Member::new("type", kind), Member::new("description", Json::str(about))];
    proof {
        assert(views(members@) =~= seq![
            member("type"@, kind@),
            member("description"@, JsonView::Str(about@)),
        ]);
    }
    Json::object(members)
}

/// A property that is one of a list of texts.
pub open spec fn choice(options: Seq<Seq<char>>, about: Seq<char>) -> JsonView {
    JsonView::Object(
        seq![
            member("type"@, JsonView::Str("string"@)),
            member("enum"@, strings(options)),
            member("description"@, JsonView::Str(about)),
        ],
    )
}

fn choice_json(options: Vec<&'static str>, about: &str) -> (value: Json)
    ensures
        value@ == choice(views(options@), about@),
{
    let members = vec![
        Member::new("type", Json::str("string")),
        Member::new("enum", string_array(&options)),
        Member::new("description", Json::str(about)),
    ];
    proof {
        assert(views(members@) =~= seq![
            member("type"@, JsonView::Str("string"@)),
            member("enum"@, strings(views(options@))),
            member("description"@, JsonView::Str(about@)),
        ]);
    }
    Json::object(members)
}

/// A property that is a list of texts.
pub open spec fn text_list(about: Seq<char>) -> JsonView {
    JsonView::Object(
        seq![
            member("type"@, JsonView::Str("array"@)),
            member("items"@, JsonView::Object(seq![member("type"@, JsonView::Str("string"@))])),
            member("description"@, JsonView::Str(about)),
        ],
    )
}

fn text_list_json(about: &str) -> (value: Json)
    ensures
        value@ == text_list(about@),
{
    let inner = vec![Member::new("type", Json::str("string"))];
    proof {
        assert(views(inner@) =~= seq![member("type"@, JsonView::Str("string"@))]);
    }
    let members = vec![
        Member::new("type", Json::str("array")),
        Member::new("items", Json::object(inner)),
        Member::new("description", Json::str(about)),
    ];
    proof {
        assert(views(members@) =~= seq![
            member("type"@, JsonView::Str("array"@)),
            member("items"@, JsonView::Object(seq![member("type"@, JsonView::Str("string"@))])),
            member("description"@, JsonView::Str(about@)),
        ]);
    }
    Json::object(members)
}

/// The keys of a list of members.
pub open spec fn keys_of(members: Seq<MemberView>) -> Seq<Seq<char>> {
    members.map_values(|m: MemberView| m.key)
}

/// The schema of an object with exactly these properties, none of which may be
/// left out.
pub open spec fn closed_object(properties: Seq<MemberView>) -> JsonView {
    JsonView::Object(
        seq![
            member("type"@, JsonView::Str("object"@)),
            member("properties"@, JsonView::Object(properties)),
            member("required"@, strings(keys_of(properties))),
            member("additionalProperties"@, JsonView::Bool(false)),
        ],
    )
}

fn closed_object_json(properties: Vec<Member>, required: Vec<&'static str>) -> (value: Json)
    requires
        views(required@) == keys_of(views(properties@)),
    ensures
        value@ == closed_object(views(properties@)),
{
    let ghost props = views(properties@);
    let members = vec![
        Member::new("type", Json::str("object")),
        Member::new("properties", Json::object(properties)),
        Member::new("required", string_array(&required)),
        Member::new("additionalProperties", Json::Bool(false)),
    ];
    proof {
        assert(views(members@) =~= seq![
            member("type"@, JsonView::Str("object"@)),
            member("properties"@, JsonView::Object(props)),
            member("required"@, strings(keys_of(props))),
            member("additionalProperties"@, JsonView::Bool(false)),
        ]);
    }
    Json::object(members)
}

/// The properties of a classification.
pub open spec fn classification_properties() -> Seq<MemberView> {
    seq![
        member(
            "category"@,
            choice(
                seq!["bug_fix"@, "feature"@, "docs"@, "chore"@, "needs_discussion"@],
                "What kind of change this PR is. Use needs_discussion when intent is unclear or scope should be debated first."@,
            ),
        ),
        member(
            "confidence"@,
            property(
                JsonView::Str("number"@),
                "Your confidence in this classification, between 0.0 and 1.0."@,
            ),
        ),
        member(
            "summary"@,
            property(JsonView::Str("string"@), "One paragraph: what the PR does and how."@),
        ),
        member(
            "risk"@,
            choice(
                seq!["low"@, "medium"@, "high"@],
                "Blast radius if this change is wrong (core logic/security = high, docs = low)."@,
            ),
        ),
    ]
}

/// The schema of the classify step's answer.
pub fn classification_schema() -> (schema: Json)
    ensures
        schema@ == closed_object(classification_properties()),
{
    let categories = vec!["bug_fix", "feature", "docs", "chore", "needs_discussion"];
    let risks = vec!["low", "medium", "high"];
    proof {
        assert(views(categories@) =~= seq![
            "bug_fix"@,
            "feature"@,
            "docs"@,
            "chore"@,
            "needs_discussion"@,
        ]);
        assert(views(risks@) =~= seq!["low"@, "medium"@, "high"@]);
    }
    let properties = vec![
        Member::new(
            "category",
            choice_json(
                categories,
                "What kind of change this PR is. Use needs_discussion when intent is unclear or scope should be debated first.",
            ),
        ),
        Member::new(
            "confidence",
            property_json(
                Json::str("number"),
                "Your confidence in this classification, between 0.0 and 1.0.",
            ),
        ),
        Member::new(
            "summary",
            property_json(Json::str("string"), "One paragraph: what the PR does and how."),
        ),
        Member::new(
            "risk",
            choice_json(
                risks,
                "Blast radius if this change is wrong (core logic/security = high, docs = low).",
            ),
        ),
    ];
    let required = vec!["category", "confidence", "summary", "risk"];
    proof {
        assert(views(properties@) =~= classification_properties());
        assert(views(required@) =~= keys_of(classification_properties()));
    }
    closed_object_json(properties, required)
}

/// The properties of a decision.
pub open spec fn decision_properties() -> Seq<MemberView> {
    seq![
        member(
            "escalate"@,
            property(
                JsonView::Str("boolean"@),
                "True when a human maintainer should review this triage instead of trusting it."@,
            ),
        ),
        member(
            "escalation_reason"@,
            property(
                strings(seq!["string"@, "null"@]),
                "Why a human is needed. Required in spirit when escalate is true."@,
            ),
        ),
        member(
            "comment_markdown"@,
            property(
                JsonView::Str("string"@),
                "The triage comment body: summary line, findings checklist, suggestions. No @-mentions."@,
            ),
        ),
        member(
            "labels"@,
            text_list("Extra labels beyond category/priority, e.g. needs-tests. Empty if none."@),
        ),
        member(
            "priority"@,
            choice(seq!["low"@, "medium"@, "high"@], "Review priority for maintainers."@),
        ),
        member(
            "confidence"@,
            property(
                JsonView::Str("number"@),
                "Your confidence in this decision, between 0.0 and 1.0."@,
            ),
        ),
    ]
}

/// The schema of the decide step's answer.
pub fn decision_schema() -> (schema: Json)
    ensures
        schema@ == closed_object(decision_properties()),
{
    let reason_types = vec!["string", "null"];
    let priorities = vec!["low", "medium", "high"];
    proof {
        assert(views(reason_types@) =~= seq!["string"@, "null"@]);
        assert(views(priorities@) =~= seq!["low"@, "medium"@, "high"@]);
    }
    let properties = vec![
        Member::new(
            "escalate",
            property_json(
                Json::str("boolean"),
                "True when a human maintainer should review this triage instead of trusting it.",
            ),
        ),
        Member::new(
            "escalation_reason",
            property_json(
                string_array(&reason_types),
                "Why a human is needed. Required in spirit when escalate is true.",
            ),
        ),
        Member::new(
            "comment_markdown",
            property_json(
                Json::str("string"),
                "The triage comment body: summary line, findings checklist, suggestions. No @-mentions.",
            ),
        ),
        Member::new(
            "labels",
            text_list_json("Extra labels beyond category/priority, e.g. needs-tests. Empty if none."),
        ),
        Member::new("priority", choice_json(priorities, "Review priority for maintainers.")),
        Member::new(
            "confidence",
            property_json(
                Json::str("number"),
                "Your confidence in this decision, between 0.0 and 1.0.",
            ),
        ),
    ];
    let required = vec![
        "escalate",
        "escalation_reason",
        "comment_markdown",
        "labels",
        "priority",
        "confidence",
    ];
    proof {
        assert(views(properties@) =~= decision_properties());
        assert(views(required@) =~= keys_of(decision_properties()));
    }
    closed_object_json(properties, required)
}

/// A prompt shows no more of a diff than the budget allows, and says so where it
/// shows less than the whole.
pub proof fn law_prompt_shows_at_most_the_budget(s: PullRequestSnapshotView)
    ensures
        utf8_len(clipped(s.diff, DIFF_PROMPT_BUDGET as int)) <= DIFF_PROMPT_BUDGET,
        clipped(s.diff, DIFF_PROMPT_BUDGET as int) != s.diff ==> diff_section(s)
            == "\n## Diff\n\n```diff\n"@ + clipped(s.diff, DIFF_PROMPT_BUDGET as int) + "\n```\n"@
            + truncation_note(),
{
    law_clipped_is_the_longest_fitting_prefix(s.diff, DIFF_PROMPT_BUDGET as int);
    if utf8_len(s.diff) <= DIFF_PROMPT_BUDGET {
        lemma_clipped_whole(s.diff, DIFF_PROMPT_BUDGET as int);
    }
}

/// What stands before the findings in the decision step's prompt.
spec fn before_findings(s: PullRequestSnapshotView, c: ClassificationView) -> Seq<char> {
    snapshot_text(s) + classification_section(c)
        + "\n## Policy findings (deterministic checks — authoritative)\n\n"@
}

/// The decision step is told of every finding: for each of them, at whatever
/// place it stands, the prompt holds a line with the name of its kind and its
/// detail, and these lines come in the order of the findings.
#[verifier::rlimit(40)]
pub proof fn law_every_finding_is_shown(
    snapshot: PullRequestSnapshotView,
    classification: ClassificationView,
    findings: Seq<PolicyFindingView>,
    config: RepoConfigView,
)
    ensures
        forall|i: int|
            0 <= i < findings.len() ==> holds_text(
                decision_text(snapshot, classification, findings, config),
                "- ["@ + finding_kind_name((#[trigger] findings[i]).kind) + "] "@
                    + findings[i].detail + "\n"@,
            ),
        shows_in_order(
            decision_text(snapshot, classification, findings, config),
            Seq::new(
                findings.len(),
                |i: int|
                    "- ["@ + finding_kind_name(findings[i].kind) + "] "@ + findings[i].detail
                        + "\n"@,
            ),
        ),
{
    let text = decision_text(snapshot, classification, findings, config);
    let lines = Seq::new(
        findings.len(),
        |i: int| "- ["@ + finding_kind_name(findings[i].kind) + "] "@ + findings[i].detail + "\n"@,
    );
    if findings.len() > 0 {
        assert(findings.map_values(|f: PolicyFindingView| finding_line(f)) =~= lines);
        let before = before_findings(snapshot, classification);
        lemma_concat_shows(before, lines, threshold_section(config));
        assert(text =~= before + concat(lines) + threshold_section(config));
        assert forall|i: int| 0 <= i < findings.len() implies holds_text(
            text,
            "- ["@ + finding_kind_name((#[trigger] findings[i]).kind) + "] "@ + findings[i].detail
                + "\n"@,
        ) by {
            assert(holds_text(text, lines[i]));
        }
    } else {
        assert(stands_at(text, lines, Seq::empty()));
    }
}

/// One finding more puts its line behind the others and changes nothing else of
/// the prompt; the first stands where the prompt says that there is none.
#[verifier::rlimit(40)]
pub proof fn law_a_finding_more(
    snapshot: PullRequestSnapshotView,
    classification: ClassificationView,
    findings: Seq<PolicyFindingView>,
    config: RepoConfigView,
    f: PolicyFindingView,
)
    ensures
        exists|before: Seq<char>, after: Seq<char>|
            decision_text(snapshot, classification, findings.push(f), config) == #[trigger] (before
                + ("- ["@ + finding_kind_name(f.kind) + "] "@ + f.detail + "\n"@) + after)
                && decision_text(snapshot, classification, findings, config) == before
                + if findings.len() == 0 {
                "(none)\n"@ + after
            } else {
                after
            },
{
    let more = findings.push(f);
    let line = "- ["@ + finding_kind_name(f.kind) + "] "@ + f.detail + "\n"@;
    let lines = findings.map_values(|f: PolicyFindingView| finding_line(f));
    let longer = more.map_values(|f: PolicyFindingView| finding_line(f));
    assert(longer.drop_last() =~= lines);
    assert(longer.last() == line);
    let before = before_findings(snapshot, classification) + concat(lines);
    let after = threshold_section(config);
    assert(decision_text(snapshot, classification, more, config) =~= before + line + after);
    assert(decision_text(snapshot, classification, findings, config) =~= before
        + if findings.len() == 0 {
        "(none)\n"@ + after
    } else {
        after
    });
}

/// The model sees every changed file and every check, at whatever place, each
/// on a line of its own and in their order.
#[verifier::rlimit(40)]
pub proof fn law_every_file_and_check_is_shown(s: PullRequestSnapshotView)
    ensures
        forall|i: int|
            0 <= i < s.changed_files.len() ==> holds_text(
                snapshot_text(s),
                "- "@ + (#[trigger] s.changed_files[i]).path + " ("@ + s.changed_files[i].status
                    + ", +"@ + decimal(s.changed_files[i].additions as nat) + " -"@ + decimal(
                    s.changed_files[i].deletions as nat,
                ) + ")\n"@,
            ),
        shows_in_order(
            snapshot_text(s),
            Seq::new(
                s.changed_files.len(),
                |i: int|
                    "- "@ + s.changed_files[i].path + " ("@ + s.changed_files[i].status + ", +"@
                        + decimal(s.changed_files[i].additions as nat) + " -"@ + decimal(
                        s.changed_files[i].deletions as nat,
                    ) + ")\n"@,
            ),
        ),
        forall|i: int|
            0 <= i < s.checks.len() ==> holds_text(
                snapshot_text(s),
                "- "@ + (#[trigger] s.checks[i]).name + ": "@ + conclusion_text(
                    s.checks[i].conclusion,
                ) + "\n"@,
            ),
        shows_in_order(
            snapshot_text(s),
            Seq::new(
                s.checks.len(),
                |i: int|
                    "- "@ + s.checks[i].name + ": "@ + conclusion_text(s.checks[i].conclusion)
                        + "\n"@,
            ),
        ),
        s.checks.len() > 0 ==> holds_text(snapshot_text(s), "\n## CI checks\n\n"@),
{
    let text = snapshot_text(s);
    let top = heading(s) + "## Description\n\n"@ + description(s.body)
        + "\n\n## Changed files\n\n"@;
    let files = Seq::new(
        s.changed_files.len(),
        |i: int|
            "- "@ + s.changed_files[i].path + " ("@ + s.changed_files[i].status + ", +"@ + decimal(
                s.changed_files[i].additions as nat,
            ) + " -"@ + decimal(s.changed_files[i].deletions as nat) + ")\n"@,
    );
    assert(s.changed_files.map_values(|f: ChangedFileView| file_line(f)) =~= files);
    let rest = checks_section(s.checks) + diff_section(s);
    lemma_concat_shows(top, files, rest);
    assert(text =~= top + concat(files) + rest);
    assert forall|i: int| 0 <= i < s.changed_files.len() implies holds_text(
        text,
        "- "@ + (#[trigger] s.changed_files[i]).path + " ("@ + s.changed_files[i].status + ", +"@
            + decimal(s.changed_files[i].additions as nat) + " -"@ + decimal(
            s.changed_files[i].deletions as nat,
        ) + ")\n"@,
    ) by {
        assert(holds_text(text, files[i]));
    }
    let checks = Seq::new(
        s.checks.len(),
        |i: int|
            "- "@ + s.checks[i].name + ": "@ + conclusion_text(s.checks[i].conclusion) + "\n"@,
    );
    if s.checks.len() > 0 {
        assert(s.checks.map_values(|c: CheckRunView| check_line(c)) =~= checks);
        let above = top + concat(files) + "\n## CI checks\n\n"@;
        lemma_concat_shows(above, checks, diff_section(s));
        assert(text =~= above + concat(checks) + diff_section(s));
        assert forall|i: int| 0 <= i < s.checks.len() implies holds_text(
            text,
            "- "@ + (#[trigger] s.checks[i]).name + ": "@ + conclusion_text(s.checks[i].conclusion)
                + "\n"@,
        ) by {
            assert(holds_text(text, checks[i]));
        }
        let below = concat(checks) + diff_section(s);
        lemma_shown_between(top + concat(files), "\n## CI checks\n\n"@, below);
        assert(text =~= top + concat(files) + "\n## CI checks\n\n"@ + below);
    } else {
        assert(stands_at(text, checks, Seq::empty()));
    }
}

/// The model sees what the pull request says of itself: which one it is, its
/// title, its author, its branches, whether it is a draft and whether it can be
/// merged, and its description.
#[verifier::rlimit(40)]
pub proof fn law_the_pull_request_is_shown(s: PullRequestSnapshotView)
    ensures
        begins_with(snapshot_text(s), "# PR "@ + pr_text(s.pr) + ": "@ + s.title + "\n"@),
        holds_text(snapshot_text(s), "\nAuthor: "@ + s.author + "\n"@),
        holds_text(
            snapshot_text(s),
            "\nBranch: "@ + s.head_branch + " -> "@ + s.base_branch + "\n"@,
        ),
        s.draft ==> holds_text(snapshot_text(s), "\nDraft: true\n"@),
        !s.draft ==> holds_text(snapshot_text(s), "\nDraft: false\n"@),
        s.mergeable == Some(true) ==> holds_text(snapshot_text(s), "\nMergeable: yes\n"@),
        s.mergeable == Some(false) ==> holds_text(
            snapshot_text(s),
            "\nMergeable: NO (conflicts)\n"@,
        ),
        s.mergeable is None ==> holds_text(snapshot_text(s), "\nMergeable: unknown\n"@),
        trimmed(s.body).len() > 0 ==> holds_text(
            snapshot_text(s),
            "## Description\n\n"@ + s.body + "\n\n## Changed files\n\n"@,
        ),
        trimmed(s.body).len() == 0 ==> holds_text(
            snapshot_text(s),
            "## Description\n\n(empty)\n\n## Changed files\n\n"@,
        ),
{
    let rest = file_lines(s.changed_files) + checks_section(s.checks) + diff_section(s);
    let about = "## Description\n\n"@ + description(s.body) + "\n\n## Changed files\n\n"@;
    lemma_regroup(
        heading(s),
        "## Description\n\n"@,
        description(s.body),
        "\n\n## Changed files\n\n"@,
        file_lines(s.changed_files),
        checks_section(s.checks),
        diff_section(s),
    );
    lemma_heading_shows(s, about + rest);
    lemma_shown_between(heading(s), about, rest);
    assert(trimmed(s.body).len() == 0 ==> about
        =~= "## Description\n\n(empty)\n\n## Changed files\n\n"@) by {
        reveal_strlit("## Description\n\n");
        reveal_strlit("(empty)");
        reveal_strlit("\n\n## Changed files\n\n");
        reveal_strlit("## Description\n\n(empty)\n\n## Changed files\n\n");
    }
}

proof fn lemma_regroup(
    h: Seq<char>,
    a: Seq<char>,
    b: Seq<char>,
    c: Seq<char>,
    d: Seq<char>,
    e: Seq<char>,
    f: Seq<char>,
)
    ensures
        h + a + b + c + d + e + f == h + (a + b + c) + (d + e + f),
        h + a + b + c + d + e + f == h + ((a + b + c) + (d + e + f)),
{
    assert(h + a + b + c =~= h + (a + b + c));
    let top = h + (a + b + c);
    assert(top + d + e + f =~= top + (d + e + f));
    assert(top + (d + e + f) =~= h + ((a + b + c) + (d + e + f)));
}

proof fn lemma_heading_shows(s: PullRequestSnapshotView, rest: Seq<char>)
    ensures
        ({
            let text = heading(s) + rest;
            &&& begins_with(text, "# PR "@ + pr_text(s.pr) + ": "@ + s.title + "\n"@)
            &&& holds_text(text, "\nAuthor: "@ + s.author + "\n"@)
            &&& holds_text(text, "\nBranch: "@ + s.head_branch + " -> "@ + s.base_branch + "\n"@)
            &&& holds_text(
                text,
                if s.draft {
                    "\nDraft: true\n"@
                } else {
                    "\nDraft: false\n"@
                },
            )
            &&& holds_text(
                text,
                match s.mergeable {
                    Some(true) => "\nMergeable: yes\n"@,
                    Some(false) => "\nMergeable: NO (conflicts)\n"@,
                    None => "\nMergeable: unknown\n"@,
                },
            )
        }),
{
    let nl = "\n"@;
    let title = "# PR "@ + pr_text(s.pr) + ": "@ + s.title;
    let author = "Author: "@ + s.author;
    let branch = "Branch: "@ + s.head_branch + " -> "@ + s.base_branch;
    let draft = "Draft: "@ + bool_text(s.draft);
    let merge = "Mergeable: "@ + mergeable_text(s.mergeable);
    lemma_heading_lines(s);
    lemma_five_lines(title, author, branch, draft, merge, nl, rest);
    lemma_author_line(s.author);
    lemma_branch_line(s.head_branch, s.base_branch);
    lemma_draft_line(s.draft);
    lemma_mergeable_line(s.mergeable);
}

proof fn lemma_author_line(author: Seq<char>)
    ensures
        "\n"@ + ("Author: "@ + author) + "\n"@ == "\nAuthor: "@ + author + "\n"@,
{
    assert("\nAuthor: "@ =~= "\n"@ + "Author: "@) by {
        reveal_strlit("\n");
        reveal_strlit("Author: ");
        reveal_strlit("\nAuthor: ");
    }
    assert("\n"@ + ("Author: "@ + author) =~= "\n"@ + "Author: "@ + author);
}

proof fn lemma_branch_line(head: Seq<char>, base: Seq<char>)
    ensures
        "\n"@ + ("Branch: "@ + head + " -> "@ + base) + "\n"@ == "\nBranch: "@ + head + " -> "@
            + base + "\n"@,
{
    assert("\nBranch: "@ =~= "\n"@ + "Branch: "@) by {
        reveal_strlit("\n");
        reveal_strlit("Branch: ");
        reveal_strlit("\nBranch: ");
    }
    assert("\n"@ + ("Branch: "@ + head + " -> "@ + base) =~= "\n"@ + "Branch: "@ + head + " -> "@
        + base);
}

proof fn lemma_draft_line(draft: bool)
    ensures
        "\n"@ + ("Draft: "@ + bool_text(draft)) + "\n"@ == if draft {
            "\nDraft: true\n"@
        } else {
            "\nDraft: false\n"@
        },
{
    reveal_strlit("\n");
    reveal_strlit("Draft: ");
    if draft {
        reveal_strlit("true");
        reveal_strlit("\nDraft: true\n");
        assert("\n"@ + ("Draft: "@ + "true"@) + "\n"@ =~= "\nDraft: true\n"@);
    } else {
        reveal_strlit("false");
        reveal_strlit("\nDraft: false\n");
        assert("\n"@ + ("Draft: "@ + "false"@) + "\n"@ =~= "\nDraft: false\n"@);
    }
}

proof fn lemma_mergeable_line(mergeable: Option<bool>)
    ensures
        "\n"@ + ("Mergeable: "@ + mergeable_text(mergeable)) + "\n"@ == (match mergeable {
            Some(true) => "\nMergeable: yes\n"@,
            Some(false) => "\nMergeable: NO (conflicts)\n"@,
            None => "\nMergeable: unknown\n"@,
        }),
{
    reveal_strlit("\n");
    reveal_strlit("Mergeable: ");
    match mergeable {
        Some(true) => {
            reveal_strlit("yes");
            reveal_strlit("\nMergeable: yes\n");
            assert("\n"@ + ("Mergeable: "@ + "yes"@) + "\n"@ =~= "\nMergeable: yes\n"@);
        },
        Some(false) => {
            reveal_strlit("NO (conflicts)");
            reveal_strlit("\nMergeable: NO (conflicts)\n");
            assert("\n"@ + ("Mergeable: "@ + "NO (conflicts)"@) + "\n"@
                =~= "\nMergeable: NO (conflicts)\n"@);
        },
        None => {
            reveal_strlit("unknown");
            reveal_strlit("\nMergeable: unknown\n");
            assert("\n"@ + ("Mergeable: "@ + "unknown"@) + "\n"@ =~= "\nMergeable: unknown\n"@);
        },
    }
}

proof fn lemma_heading_lines(s: PullRequestSnapshotView)
    ensures
        ({
            let nl = "\n"@;
            heading(s) == ("# PR "@ + pr_text(s.pr) + ": "@ + s.title) + nl + nl + ("Author: "@
                + s.author) + nl + ("Branch: "@ + s.head_branch + " -> "@ + s.base_branch) + nl + (
            "Draft: "@ + bool_text(s.draft)) + nl + ("Mergeable: "@ + mergeable_text(s.mergeable))
                + nl + nl
        }),
{
    let nl = "\n"@;
    assert("\n\nAuthor: "@ =~= nl + nl + "Author: "@) by {
        reveal_strlit("\n");
        reveal_strlit("Author: ");
        reveal_strlit("\n\nAuthor: ");
    }
    assert("\nBranch: "@ =~= nl + "Branch: "@) by {
        reveal_strlit("\n");
        reveal_strlit("Branch: ");
        reveal_strlit("\nBranch: ");
    }
    assert("\nDraft: "@ =~= nl + "Draft: "@) by {
        reveal_strlit("\n");
        reveal_strlit("Draft: ");
        reveal_strlit("\nDraft: ");
    }
    assert("\nMergeable: "@ =~= nl + "Mergeable: "@) by {
        reveal_strlit("\n");
        reveal_strlit("Mergeable: ");
        reveal_strlit("\nMergeable: ");
    }
    assert("\n\n"@ =~= nl + nl) by {
        reveal_strlit("\n");
        reveal_strlit("\n\n");
    }
    let title = "# PR "@ + pr_text(s.pr) + ": "@ + s.title;
    let one = title + "\n\nAuthor: "@ + s.author;
    assert(one =~= title + nl + nl + ("Author: "@ + s.author));
    let two = one + "\nBranch: "@ + s.head_branch + " -> "@ + s.base_branch;
    assert(two =~= one + nl + ("Branch: "@ + s.head_branch + " -> "@ + s.base_branch));
    let three = two + "\nDraft: "@ + bool_text(s.draft);
    assert(three =~= two + nl + ("Draft: "@ + bool_text(s.draft)));
    let four = three + "\nMergeable: "@ + mergeable_text(s.mergeable);
    assert(four =~= three + nl + ("Mergeable: "@ + mergeable_text(s.mergeable)));
    assert(four + "\n\n"@ =~= four + nl + nl);
}

proof fn lemma_line_shown(before: Seq<char>, line: Seq<char>, nl: Seq<char>, after: Seq<char>)
    ensures
        holds_text(before + nl + line + nl + after, nl + line + nl),
{
    lemma_shown_between(before, nl + line + nl, after);
    assert(before + nl + line + nl + after =~= before + (nl + line + nl) + after);
}

proof fn lemma_five_lines(
    a: Seq<char>,
    b: Seq<char>,
    c: Seq<char>,
    d: Seq<char>,
    e: Seq<char>,
    nl: Seq<char>,
    rest: Seq<char>,
)
    ensures
        ({
            let text = a + nl + nl + b + nl + c + nl + d + nl + e + nl + nl + rest;
            &&& begins_with(text, a + nl)
            &&& holds_text(text, nl + b + nl)
            &&& holds_text(text, nl + c + nl)
            &&& holds_text(text, nl + d + nl)
            &&& holds_text(text, nl + e + nl)
        }),
{
    let to_b = a + nl;
    let to_c = to_b + nl + b;
    let to_d = to_c + nl + c;
    let to_e = to_d + nl + d;
    let text = to_e + nl + e + nl + nl + rest;
    let past_e = nl + rest;
    assert(text =~= to_e + nl + e + nl + past_e);
    lemma_line_shown(to_e, e, nl, past_e);
    let past_d = e + nl + past_e;
    assert(text =~= to_d + nl + d + nl + past_d);
    lemma_line_shown(to_d, d, nl, past_d);
    let past_c = d + nl + past_d;
    assert(text =~= to_c + nl + c + nl + past_c);
    lemma_line_shown(to_c, c, nl, past_c);
    let past_b = c + nl + past_c;
    assert(text =~= to_b + nl + b + nl + past_b);
    lemma_line_shown(to_b, b, nl, past_b);
    assert(text =~= to_b + (nl + b + nl + past_b));
    law_parts_of_a_text(text, to_b);
}

/// A diff within the budget is shown whole, and the prompt ends with a word on
/// what is missing exactly where it was cut, here or before.
pub proof fn law_a_diff_within_the_budget_is_shown_whole(s: PullRequestSnapshotView)
    ensures
        utf8_len(s.diff) <= 120_000 ==> holds_text(
            snapshot_text(s),
            "\n## Diff\n\n```diff\n"@ + s.diff + "\n```\n"@,
        ),
        exists|head: Seq<char>|
            snapshot_text(s) == #[trigger] (head + "\n```\n"@) + if s.diff_truncated || utf8_len(
                s.diff,
            ) > 120_000 {
                "\n(NOTE: diff truncated — judge from what is shown and lower confidence if the omitted part matters.)\n"@
            } else {
                Seq::empty()
            },
{
    let text = snapshot_text(s);
    let top = heading(s) + "## Description\n\n"@ + description(s.body)
        + "\n\n## Changed files\n\n"@ + file_lines(s.changed_files) + checks_section(s.checks);
    let note = if s.diff_truncated || utf8_len(s.diff) > DIFF_PROMPT_BUDGET {
        truncation_note()
    } else {
        Seq::empty()
    };
    let shown = clipped(s.diff, DIFF_PROMPT_BUDGET as int);
    let head = top + ("\n## Diff\n\n```diff\n"@ + shown);
    assert(text =~= (head + "\n```\n"@) + note);
    if utf8_len(s.diff) <= DIFF_PROMPT_BUDGET {
        lemma_clipped_whole(s.diff, DIFF_PROMPT_BUDGET as int);
        let part = "\n## Diff\n\n```diff\n"@ + s.diff + "\n```\n"@;
        lemma_shown_between(top, part, note);
        assert(text =~= top + part + note);
    }
}

/// The decision step sees all that the first step saw, what the first step
/// answered, and the threshold below which a decision goes to a human.
#[verifier::rlimit(40)]
pub proof fn law_the_decision_step_sees_the_first(
    snapshot: PullRequestSnapshotView,
    classification: ClassificationView,
    findings: Seq<PolicyFindingView>,
    config: RepoConfigView,
)
    ensures
        begins_with(
            decision_text(snapshot, classification, findings, config),
            snapshot_text(snapshot),
        ),
        holds_text(
            decision_text(snapshot, classification, findings, config),
            "category: "@ + category_name(classification.category) + "\n"@,
        ),
        holds_text(
            decision_text(snapshot, classification, findings, config),
            "confidence: "@ + two_places(classification.confidence.bits) + "\n"@,
        ),
        holds_text(
            decision_text(snapshot, classification, findings, config),
            "risk: "@ + risk_name(classification.risk) + "\n"@,
        ),
        holds_text(
            decision_text(snapshot, classification, findings, config),
            "summary: "@ + classification.summary + "\n"@,
        ),
        findings.len() == 0 ==> holds_text(
            decision_text(snapshot, classification, findings, config),
            "\n## Policy findings (deterministic checks — authoritative)\n\n"@ + "(none)\n"@,
        ),
        holds_text(
            decision_text(snapshot, classification, findings, config),
            "Decisions below "@ + two_places(config.confidence_threshold.bits)
                + " confidence are escalated to a human automatically.\n"@,
        ),
{
    lemma_classification_lines(classification);
    lemma_threshold_line(config);
    lemma_decision_parts(
        snapshot_text(snapshot),
        "\n## Classification (from previous step)\n\n"@,
        "category: "@ + category_name(classification.category) + "\n"@,
        "confidence: "@ + two_places(classification.confidence.bits) + "\n"@,
        "risk: "@ + risk_name(classification.risk) + "\n"@,
        "summary: "@ + classification.summary + "\n"@,
        findings_section(findings),
        "\n## Repo policy\n\n"@,
        "Decisions below "@ + two_places(config.confidence_threshold.bits)
            + " confidence are escalated to a human automatically.\n"@,
    );
}

proof fn lemma_threshold_line(config: RepoConfigView)
    ensures
        threshold_section(config) == "\n## Repo policy\n\n"@ + ("Decisions below "@ + two_places(
            config.confidence_threshold.bits,
        ) + " confidence are escalated to a human automatically.\n"@),
{
    assert("\n## Repo policy\n\nDecisions below "@ =~= "\n## Repo policy\n\n"@
        + "Decisions below "@) by {
        reveal_strlit("\n## Repo policy\n\nDecisions below ");
        reveal_strlit("\n## Repo policy\n\n");
        reveal_strlit("Decisions below ");
    }
    let last = "Decisions below "@ + two_places(config.confidence_threshold.bits)
        + " confidence are escalated to a human automatically.\n"@;
    assert(threshold_section(config) =~= "\n## Repo policy\n\n"@ + last);
}

proof fn lemma_decision_parts(
    s: Seq<char>,
    top: Seq<char>,
    a: Seq<char>,
    b: Seq<char>,
    c: Seq<char>,
    d: Seq<char>,
    found: Seq<char>,
    head: Seq<char>,
    last: Seq<char>,
)
    ensures
        ({
            let text = s + (top + a + b + c + d) + found + (head + last);
            &&& begins_with(text, s)
            &&& holds_text(text, a)
            &&& holds_text(text, b)
            &&& holds_text(text, c)
            &&& holds_text(text, d)
            &&& holds_text(text, found)
            &&& holds_text(text, last)
        }),
{
    let about = top + a + b + c + d;
    let end = head + last;
    let text = s + about + found + end;
    let rest = found + end;
    law_parts_of_a_text(text, s);
    assert(text =~= s + (about + rest));
    lemma_four_parts(s + top, a, b, c, d, rest);
    assert(s + about =~= s + top + a + b + c + d);
    assert(text =~= s + about + rest);
    lemma_shown_between(s + about, found, end);
    lemma_shown_between(s + about + found + head, last, Seq::empty());
    assert(text =~= s + about + found + head + last + Seq::<char>::empty());
}

proof fn lemma_classification_lines(c: ClassificationView)
    ensures
        classification_section(c) == "\n## Classification (from previous step)\n\n"@ + (
        "category: "@ + category_name(c.category) + "\n"@) + ("confidence: "@ + two_places(
            c.confidence.bits,
        ) + "\n"@) + ("risk: "@ + risk_name(c.risk) + "\n"@) + ("summary: "@ + c.summary
            + "\n"@),
{
    let nl = "\n"@;
    let top = "\n## Classification (from previous step)\n\n"@;
    assert("\n## Classification (from previous step)\n\ncategory: "@ =~= top + "category: "@) by {
        reveal_strlit("\n## Classification (from previous step)\n\ncategory: ");
        reveal_strlit("\n## Classification (from previous step)\n\n");
        reveal_strlit("category: ");
    }
    assert("\nconfidence: "@ =~= nl + "confidence: "@) by {
        reveal_strlit("\n");
        reveal_strlit("\nconfidence: ");
        reveal_strlit("confidence: ");
    }
    assert("\nrisk: "@ =~= nl + "risk: "@) by {
        reveal_strlit("\n");
        reveal_strlit("\nrisk: ");
        reveal_strlit("risk: ");
    }
    assert("\nsummary: "@ =~= nl + "summary: "@) by {
        reveal_strlit("\n");
        reveal_strlit("\nsummary: ");
        reveal_strlit("summary: ");
    }
    let one = "\n## Classification (from previous step)\n\ncategory: "@ + category_name(c.category);
    assert(one + nl =~= top + ("category: "@ + category_name(c.category) + nl));
    let two = one + "\nconfidence: "@ + two_places(c.confidence.bits);
    assert(two + nl =~= one + nl + ("confidence: "@ + two_places(c.confidence.bits) + nl));
    let three = two + "\nrisk: "@ + risk_name(c.risk);
    assert(three + nl =~= two + nl + ("risk: "@ + risk_name(c.risk) + nl));
    let four = three + "\nsummary: "@ + c.summary;
    assert(four + nl =~= three + nl + ("summary: "@ + c.summary + nl));
}

proof fn lemma_four_parts(
    top: Seq<char>,
    a: Seq<char>,
    b: Seq<char>,
    c: Seq<char>,
    d: Seq<char>,
    rest: Seq<char>,
)
    ensures
        ({
            let text = top + a + b + c + d + rest;
            &&& holds_text(text, a)
            &&& holds_text(text, b)
            &&& holds_text(text, c)
            &&& holds_text(text, d)
        }),
{
    let text = top + a + b + c + d + rest;
    lemma_shown_between(top + a + b + c, d, rest);
    lemma_shown_between(top + a + b, c, d + rest);
    assert(text =~= top + a + b + c + (d + rest));
    lemma_shown_between(top + a, b, c + (d + rest));
    assert(text =~= top + a + b + (c + (d + rest)));
    lemma_shown_between(top, a, b + (c + (d + rest)));
    assert(text =~= top + a + (b + (c + (d + rest))));
}

/// No two states of a check are written alike.
pub proof fn law_conclusions_are_told_apart(a: CheckConclusion, b: CheckConclusion)
    requires
        conclusion_text(a) == conclusion_text(b),
    ensures
        a == b,
{
    lemma_conclusion_text(a);
    lemma_conclusion_text(b);
}

proof fn lemma_conclusion_text(c: CheckConclusion)
    ensures
        conclusion_text(c).len() > 0,
        conclusion_text(c)[0] == (match c {
            CheckConclusion::Success => 's',
            CheckConclusion::Failure => 'F',
            CheckConclusion::Neutral => 'n',
            CheckConclusion::Cancelled => 'c',
            CheckConclusion::TimedOut => 'T',
            CheckConclusion::ActionRequired => 'A',
            CheckConclusion::Skipped => 's',
            CheckConclusion::Pending => 'p',
        }),
        conclusion_text(c)[1] == (match c {
            CheckConclusion::Success => 'u',
            CheckConclusion::Failure => 'A',
            CheckConclusion::Neutral => 'e',
            CheckConclusion::Cancelled => 'a',
            CheckConclusion::TimedOut => 'I',
            CheckConclusion::ActionRequired => 'C',
            CheckConclusion::Skipped => 'k',
            CheckConclusion::Pending => 'e',
        }),
{
    reveal_strlit("success");
    reveal_strlit("FAILURE");
    reveal_strlit("neutral");
    reveal_strlit("cancelled");
    reveal_strlit("TIMED OUT");
    reveal_strlit("ACTION REQUIRED");
    reveal_strlit("skipped");
    reveal_strlit("pending");
}

/// A schema's object has the properties given, each of which is required, and no
/// others.
pub proof fn law_a_schema_requires_every_property(properties: Seq<MemberView>, i: int)
    ensures
        ({
            let schema = closed_object(properties);
            &&& text_at(schema, "type"@) == Some("object"@)
            &&& json_get(schema, "properties"@) == Some(JsonView::Object(properties))
            &&& array_at(schema, "required"@) matches Some(list) && list.len() == properties.len()
                && (0 <= i < list.len() ==> list[i] == JsonView::Str(properties[i].key))
            &&& json_get(schema, "additionalProperties"@) == Some(JsonView::Bool(false))
        }),
{
    reveal_strlit("type");
    reveal_strlit("properties");
    reveal_strlit("required");
    reveal_strlit("additionalProperties");
    assert("type"@.len() == 4 && "properties"@.len() == 10);
    assert("required"@.len() == 8 && "additionalProperties"@.len() == 20);
    let members = closed_object(properties)->Object_0;
    law_a_key_is_read_from_its_first_member(members, "type"@, 0);
    law_a_key_is_read_from_its_first_member(members, "properties"@, 1);
    law_a_key_is_read_from_its_first_member(members, "required"@, 2);
    law_a_key_is_read_from_its_first_member(members, "additionalProperties"@, 3);
}

/// A choice is between all of its options, in their order, and says what it is
/// for.
pub proof fn law_a_choice_offers_every_option(options: Seq<Seq<char>>, about: Seq<char>, i: int)
    ensures
        text_at(choice(options, about), "type"@) == Some("string"@),
        text_at(choice(options, about), "description"@) == Some(about),
        array_at(choice(options, about), "enum"@) matches Some(list) && list.len() == options.len()
            && (0 <= i < list.len() ==> list[i] == JsonView::Str(options[i])),
{
    reveal_strlit("type");
    reveal_strlit("enum");
    reveal_strlit("description");
    assert("type"@.len() == 4 && "enum"@.len() == 4 && "description"@.len() == 11);
    assert("type"@[0] == 't' && "enum"@[0] == 'e');
    let members = choice(options, about)->Object_0;
    law_a_key_is_read_from_its_first_member(members, "type"@, 0);
    law_a_key_is_read_from_its_first_member(members, "enum"@, 1);
    law_a_key_is_read_from_its_first_member(members, "description"@, 2);
}

/// The kind that a schema's property says it is of.
pub open spec fn kind_at(properties: Seq<MemberView>, key: Seq<char>) -> Option<JsonView> {
    match json_get(JsonView::Object(properties), key) {
        Some(value) => json_get(value, "type"@),
        None => None,
    }
}

/// Whether a property offers an option.
pub open spec fn offers(properties: Seq<MemberView>, key: Seq<char>, option: Seq<char>) -> bool {
    json_get(JsonView::Object(properties), key) matches Some(value) && array_at(
        value,
        "enum"@,
    ) matches Some(list) && list.contains(JsonView::Str(option))
}

proof fn lemma_offers(
    properties: Seq<MemberView>,
    key: Seq<char>,
    options: Seq<Seq<char>>,
    about: Seq<char>,
)
    requires
        json_get(JsonView::Object(properties), key) == Some(choice(options, about)),
    ensures
        forall|i: int|
            0 <= i < options.len() ==> offers(properties, key, #[trigger] options[i]),
{
    assert forall|i: int| 0 <= i < options.len() implies offers(
        properties,
        key,
        #[trigger] options[i],
    ) by {
        law_a_choice_offers_every_option(options, about, i);
        let list = array_at(choice(options, about), "enum"@)->0;
        assert(list[i] == JsonView::Str(options[i]));
    }
}

proof fn lemma_kind(kind: JsonView, about: Seq<char>)
    ensures
        json_get(property(kind, about), "type"@) == Some(kind),
        json_get(text_list(about), "type"@) == Some(JsonView::Str("array"@)),
{
    law_a_key_is_read_from_its_first_member(property(kind, about)->Object_0, "type"@, 0);
    law_a_key_is_read_from_its_first_member(text_list(about)->Object_0, "type"@, 0);
}

/// A classification is asked for by its four parts: a category out of five, a
/// number for the confidence, a text for the summary, and a risk out of three.
#[verifier::rlimit(40)]
pub proof fn law_a_classification_is_asked_for_in_full()
    ensures
        classification_properties().len() == 4,
        offers(classification_properties(), "category"@, "bug_fix"@),
        offers(classification_properties(), "category"@, "feature"@),
        offers(classification_properties(), "category"@, "docs"@),
        offers(classification_properties(), "category"@, "chore"@),
        offers(classification_properties(), "category"@, "needs_discussion"@),
        kind_at(classification_properties(), "confidence"@) == Some(JsonView::Str("number"@)),
        kind_at(classification_properties(), "summary"@) == Some(JsonView::Str("string"@)),
        offers(classification_properties(), "risk"@, "low"@),
        offers(classification_properties(), "risk"@, "medium"@),
        offers(classification_properties(), "risk"@, "high"@),
{
    reveal_strlit("category");
    reveal_strlit("confidence");
    reveal_strlit("summary");
    reveal_strlit("risk");
    assert("category"@.len() == 8 && "confidence"@.len() == 10);
    assert("summary"@.len() == 7 && "risk"@.len() == 4);
    let p = classification_properties();
    law_a_key_is_read_from_its_first_member(p, "category"@, 0);
    law_a_key_is_read_from_its_first_member(p, "confidence"@, 1);
    law_a_key_is_read_from_its_first_member(p, "summary"@, 2);
    law_a_key_is_read_from_its_first_member(p, "risk"@, 3);
    let categories = seq!["bug_fix"@, "feature"@, "docs"@, "chore"@, "needs_discussion"@];
    lemma_offers(
        p,
        "category"@,
        categories,
        "What kind of change this PR is. Use needs_discussion when intent is unclear or scope should be debated first."@,
    );
    assert(categories[0] == "bug_fix"@ && categories[1] == "feature"@ && categories[2] == "docs"@);
    assert(categories[3] == "chore"@ && categories[4] == "needs_discussion"@);
    lemma_kind(
        JsonView::Str("number"@),
        "Your confidence in this classification, between 0.0 and 1.0."@,
    );
    lemma_kind(JsonView::Str("string"@), "One paragraph: what the PR does and how."@);
    let risks = seq!["low"@, "medium"@, "high"@];
    lemma_offers(
        p,
        "risk"@,
        risks,
        "Blast radius if this change is wrong (core logic/security = high, docs = low)."@,
    );
    assert(risks[0] == "low"@ && risks[1] == "medium"@ && risks[2] == "high"@);
}

/// A decision is asked for by its six parts: whether to escalate, a reason that
/// may be missing, the comment, a list of labels, a priority out of three, and a
/// number for the confidence.
#[verifier::rlimit(40)]
pub proof fn law_a_decision_is_asked_for_in_full()
    ensures
        decision_properties().len() == 6,
        kind_at(decision_properties(), "escalate"@) == Some(JsonView::Str("boolean"@)),
        kind_at(decision_properties(), "escalation_reason"@) == Some(
            JsonView::Array(seq![JsonView::Str("string"@), JsonView::Str("null"@)]),
        ),
        kind_at(decision_properties(), "comment_markdown"@) == Some(JsonView::Str("string"@)),
        kind_at(decision_properties(), "labels"@) == Some(JsonView::Str("array"@)),
        offers(decision_properties(), "priority"@, "low"@),
        offers(decision_properties(), "priority"@, "medium"@),
        offers(decision_properties(), "priority"@, "high"@),
        kind_at(decision_properties(), "confidence"@) == Some(JsonView::Str("number"@)),
{
    reveal_strlit("escalate");
    reveal_strlit("escalation_reason");
    reveal_strlit("comment_markdown");
    reveal_strlit("labels");
    reveal_strlit("priority");
    reveal_strlit("confidence");
    assert("escalate"@.len() == 8 && "escalation_reason"@.len() == 17);
    assert("comment_markdown"@.len() == 16 && "labels"@.len() == 6);
    assert("priority"@.len() == 8 && "confidence"@.len() == 10);
    assert("escalate"@[0] == 'e' && "priority"@[0] == 'p');
    let p = decision_properties();
    law_a_key_is_read_from_its_first_member(p, "escalate"@, 0);
    law_a_key_is_read_from_its_first_member(p, "escalation_reason"@, 1);
    law_a_key_is_read_from_its_first_member(p, "comment_markdown"@, 2);
    law_a_key_is_read_from_its_first_member(p, "labels"@, 3);
    law_a_key_is_read_from_its_first_member(p, "priority"@, 4);
    law_a_key_is_read_from_its_first_member(p, "confidence"@, 5);
    lemma_kind(
        JsonView::Str("boolean"@),
        "True when a human maintainer should review this triage instead of trusting it."@,
    );
    lemma_kind(
        strings(seq!["string"@, "null"@]),
        "Why a human is needed. Required in spirit when escalate is true."@,
    );
    assert(strings(seq!["string"@, "null"@])->Array_0 =~= seq![
        JsonView::Str("string"@),
        JsonView::Str("null"@),
    ]);
    lemma_kind(
        JsonView::Str("string"@),
        "The triage comment body: summary line, findings checklist, suggestions. No @-mentions."@,
    );
    lemma_kind(
        JsonView::Null,
        "Extra labels beyond category/priority, e.g. needs-tests. Empty if none."@,
    );
    let priorities = seq!["low"@, "medium"@, "high"@];
    lemma_offers(p, "priority"@, priorities, "Review priority for maintainers."@);
    assert(priorities[0] == "low"@ && priorities[1] == "medium"@ && priorities[2] == "high"@);
    lemma_kind(
        JsonView::Str("number"@),
        "Your confidence in this decision, between 0.0 and 1.0."@,
    );
}

} // verus!
