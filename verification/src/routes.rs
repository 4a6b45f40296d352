//! What a webhook delivery is answered. The minimum is done before responding —
//! verify, dedupe, enqueue — because GitHub times deliveries out at ten seconds
//! and a triage takes far longer.

use vstd::prelude::*;

use crate::error::TriageError;
use crate::pr::{PullRequestRef, PullRequestRefView};
use crate::text::{option_view, same_text};
use crate::triage::TriageTrigger;
use crate::webhook::{
    action_trigger, law_signed_body_is_accepted, signature_accepted, signature_of,
    verify_signature, InstallationEvent, InstallationRepositoriesEvent, PullRequestEvent,
};

verus! {

/// The answer to a request: its status and its text.
#[derive(Debug, Clone, Copy)]
pub struct Answer {
    pub status: u16,
    pub text: &'static str,
}

/// An answer's model.
pub struct AnswerView {
    pub status: u16,
    pub text: Seq<char>,
}

impl View for Answer {
    type V = AnswerView;

    open spec fn view(&self) -> AnswerView {
        AnswerView { status: self.status, text: self.text@ }
    }
}

/// An answer's model, of its parts.
pub open spec fn answer(status: u16, text: Seq<char>) -> AnswerView {
    AnswerView { status, text }
}

/// Where a delivery goes.
#[derive(Debug)]
pub enum Route {
    /// It is answered at once.
    Answered(Answer),
    /// A pull request event, of this delivery.
    PullRequest { delivery_id: String },
    /// An installation event.
    Installation,
    /// An event on an installation's repositories.
    InstallationRepositories,
}

/// A route's model.
pub enum RouteView {
    Answered(AnswerView),
    PullRequest { delivery_id: Seq<char> },
    Installation,
    InstallationRepositories,
}

impl View for Route {
    type V = RouteView;

    open spec fn view(&self) -> RouteView {
        match self {
            Route::Answered(a) => RouteView::Answered(a@),
            Route::PullRequest { delivery_id } => RouteView::PullRequest {
                delivery_id: delivery_id@,
            },
            Route::Installation => RouteView::Installation,
            Route::InstallationRepositories => RouteView::InstallationRepositories,
        }
    }
}

/// A header's text; empty where it is missing.
pub open spec fn header_text(header: Option<Seq<char>>) -> Seq<char> {
    match header {
        Some(h) => h,
        None => Seq::empty(),
    }
}

/// Where a delivery goes: nowhere without a signature of its body, nowhere
/// without an id, else by its event.
pub open spec fn route_of(
    secret: Seq<char>,
    body: Seq<u8>,
    signature: Option<Seq<char>>,
    event: Option<Seq<char>>,
    delivery: Option<Seq<char>>,
) -> RouteView {
    if !signature_accepted(secret, body, header_text(signature)) {
        RouteView::Answered(answer(401, "invalid signature"@))
    } else if header_text(delivery).len() == 0 {
        RouteView::Answered(answer(400, "missing delivery id"@))
    } else {
        event_route(header_text(event), header_text(delivery))
    }
}

/// Where an event goes.
pub open spec fn event_route(event: Seq<char>, delivery_id: Seq<char>) -> RouteView {
    if event == "pull_request"@ {
        RouteView::PullRequest { delivery_id }
    } else if event == "installation"@ {
        RouteView::Installation
    } else if event == "installation_repositories"@ {
        RouteView::InstallationRepositories
    } else if event == "ping"@ {
        RouteView::Answered(answer(200, "pong"@))
    } else {
        RouteView::Answered(answer(200, "ignored"@))
    }
}

fn header_str(header: &Option<String>) -> (s: &str)
    ensures
        s@ == header_text(option_view(*header)),
{
    match header {
        Some(h) => h.as_str(),
        None => {
            proof {
                reveal_strlit("");
                assert(""@ =~= Seq::<char>::empty());
            }
            ""
        },
    }
}

/// Where an event goes.
pub fn route_event(event: &str, delivery_id: &str) -> (route: Route)
    ensures
        route@ == event_route(event@, delivery_id@),
{
    if same_text(event, "pull_request") {
        Route::PullRequest { delivery_id: String::from_str(delivery_id) }
    } else if same_text(event, "installation") {
        Route::Installation
    } else if same_text(event, "installation_repositories") {
        Route::InstallationRepositories
    } else if same_text(event, "ping") {
        Route::Answered(Answer { status: 200, text: "pong" })
    } else {
        Route::Answered(Answer { status: 200, text: "ignored" })
    }
}

/// Webhook entry point: where a delivery goes, from its body and its headers.
pub fn github_webhook(
    secret: &str,
    body: &[u8],
    signature: &Option<String>,
    event: &Option<String>,
    delivery: &Option<String>,
) -> (route: Route)
    ensures
        route@ == route_of(
            secret@,
            body@,
            option_view(*signature),
            option_view(*event),
            option_view(*delivery),
        ),
{
    if !verify_signature(secret, body, header_str(signature)) {
        return Route::Answered(Answer { status: 401, text: "invalid signature" });
    }
    let delivery_id = header_str(delivery);
    if delivery_id.unicode_len() == 0 {
        return Route::Answered(Answer { status: 400, text: "missing delivery id" });
    }
    route_event(header_str(event), delivery_id)
}

/// What a pull request event asks for.
#[derive(Debug)]
pub enum PullRequestPlan {
    Answered(Answer),
    /// Enqueue a triage of this pull request.
    Enqueue { pr: PullRequestRef, trigger: TriageTrigger },
}

/// A plan's model.
pub enum PullRequestPlanView {
    Answered(AnswerView),
    Enqueue { pr: PullRequestRefView, trigger: TriageTrigger },
}

impl View for PullRequestPlan {
    type V = PullRequestPlanView;

    open spec fn view(&self) -> PullRequestPlanView {
        match self {
            PullRequestPlan::Answered(a) => PullRequestPlanView::Answered(a@),
            PullRequestPlan::Enqueue { pr, trigger } => PullRequestPlanView::Enqueue {
                pr: pr@,
                trigger: *trigger,
            },
        }
    }
}

/// What a payload, read as a pull request event, asks for.
pub open spec fn pull_request_plan(event: Result<PullRequestEvent, String>) -> PullRequestPlanView {
    match event {
        Err(_) => PullRequestPlanView::Answered(answer(400, "unparseable payload"@)),
        Ok(e) => match action_trigger(e.action@) {
            None => PullRequestPlanView::Answered(answer(200, "action not triaged"@)),
            Some(trigger) => PullRequestPlanView::Enqueue {
                pr: PullRequestRefView {
                    installation_id: e.installation.id,
                    owner: e.repository.owner.login@,
                    repo: e.repository.name@,
                    number: e.number,
                },
                trigger,
            },
        },
    }
}

/// What a pull request event asks for.
pub fn handle_pull_request(event: Result<PullRequestEvent, String>) -> (plan: PullRequestPlan)
    ensures
        plan@ == pull_request_plan(event),
{
    let event = match event {
        Ok(event) => event,
        Err(_) => {
            return PullRequestPlan::Answered(
                Answer { status: 400, text: "unparseable payload" },
            );
        },
    };
    match event.trigger() {
        None => PullRequestPlan::Answered(Answer { status: 200, text: "action not triaged" }),
        Some(trigger) => PullRequestPlan::Enqueue {
            pr: PullRequestRef {
                installation_id: event.installation.id,
                owner: event.repository.owner.login,
                repo: event.repository.name,
                number: event.number,
            },
            trigger,
        },
    }
}

/// The answer to a delivery that was enqueued, or was not.
pub open spec fn enqueue_answer(added: Result<bool, TriageError>) -> AnswerView {
    match added {
        Ok(true) => answer(202, "queued"@),
        Ok(false) => answer(200, "duplicate delivery"@),
        Err(_) => answer(500, "enqueue failed"@),
    }
}

/// The answer to a delivery that was enqueued, or was not. A failure is no 2xx,
/// so that GitHub redelivers.
pub fn answer_enqueued(added: &Result<bool, TriageError>) -> (a: Answer)
    ensures
        a@ == enqueue_answer(*added),
{
    match added {
        Ok(new) => if *new {
            Answer { status: 202, text: "queued" }
        } else {
            Answer { status: 200, text: "duplicate delivery" }
        },
        Err(_) => Answer { status: 500, text: "enqueue failed" },
    }
}

/// One thing to do at the billing API. A failure is logged and changes nothing.
#[derive(Debug, Clone, Copy, PartialEq, Eq, Structural)]
pub enum BillingAction {
    /// Ensure that the installation's customer exists.
    EnsureCustomer { installation_id: u64 },
    /// Meter repos that were enabled or removed.
    TrackRepo { installation_id: u64, delta: i64 },
}

/// How many items a list has, as far as a signed count goes.
pub open spec fn count_of(len: nat) -> int {
    if len > i64::MAX {
        i64::MAX as int
    } else {
        len as int
    }
}

fn count(len: usize) -> (n: i64)
    ensures
        n == count_of(len as nat),
{
    if len as u64 > i64::MAX as u64 {
        i64::MAX
    } else {
        len as i64
    }
}

/// The metering of a change in the number of repos; none where nothing changed.
pub open spec fn repo_change(installation_id: u64, delta: int) -> Seq<BillingAction> {
    if delta == 0 {
        Seq::empty()
    } else {
        seq![BillingAction::TrackRepo { installation_id, delta: delta as i64 }]
    }
}

/// What an installation event asks of billing: a new installation is onboarded,
/// and its repos are metered as they come and go.
pub open spec fn installation_actions(event: InstallationEvent) -> Seq<BillingAction> {
    let id = event.installation.id;
    let repos = count_of(event.repositories@.len());
    if event.action@ == "created"@ {
        seq![BillingAction::EnsureCustomer { installation_id: id }] + repo_change(id, repos)
    } else if event.action@ == "deleted"@ {
        repo_change(id, -repos)
    } else {
        Seq::empty()
    }
}

/// The answer to an installation payload: an unreadable one is ignored.
pub open spec fn installation_answer<T>(event: Result<T, String>) -> AnswerView {
    match event {
        Ok(_) => answer(200, "ok"@),
        Err(_) => answer(200, "ignored"@),
    }
}

fn push_repo_change(actions: &mut Vec<BillingAction>, installation_id: u64, delta: i64)
    ensures
        final(actions)@ == old(actions)@ + repo_change(installation_id, delta as int),
{
    if delta != 0 {
        actions.push(BillingAction::TrackRepo { installation_id, delta });
    }
    proof {
        assert(actions@ =~= old(actions)@ + repo_change(installation_id, delta as int));
    }
}

/// What an installation event asks of billing, and what it is answered.
pub fn handle_installation(event: &Result<InstallationEvent, String>) -> (handled: (
    Vec<BillingAction>,
    Answer,
))
    ensures
        handled.0@ == (match *event {
            Ok(e) => installation_actions(e),
            Err(_) => Seq::empty(),
        }),
        handled.1@ == installation_answer(*event),
{
    let mut actions: Vec<BillingAction> = Vec::new();
    let event = match event {
        Ok(event) => event,
        Err(_) => {
            return (actions, Answer { status: 200, text: "ignored" });
        },
    };
    let id: u64 = event.installation.id;
    let repos: i64 = count(event.repositories.len());
    if same_text(event.action.as_str(), "created") {
        actions.push(BillingAction::EnsureCustomer { installation_id: id });
        push_repo_change(&mut actions, id, repos);
    } else if same_text(event.action.as_str(), "deleted") {
        push_repo_change(&mut actions, id, -repos);
    }
    proof {
        assert(actions@ =~= installation_actions(*event));
    }
    (actions, Answer { status: 200, text: "ok" })
}

/// What an event on an installation's repositories asks of billing.
pub open spec fn repositories_actions(event: InstallationRepositoriesEvent) -> Seq<BillingAction> {
    repo_change(
        event.installation.id,
        count_of(event.repositories_added@.len()) - count_of(event.repositories_removed@.len()),
    )
}

/// What an event on an installation's repositories asks of billing, and what it
/// is answered.
pub fn handle_installation_repos(event: &Result<InstallationRepositoriesEvent, String>) -> (handled:
    (Vec<BillingAction>, Answer))
    ensures
        handled.0@ == (match *event {
            Ok(e) => repositories_actions(e),
            Err(_) => Seq::empty(),
        }),
        handled.1@ == installation_answer(*event),
{
    let mut actions: Vec<BillingAction> = Vec::new();
    let event = match event {
        Ok(event) => event,
        Err(_) => {
            return (actions, Answer { status: 200, text: "ignored" });
        },
    };
    let delta: i64 = count(event.repositories_added.len()) - count(
        event.repositories_removed.len(),
    );
    push_repo_change(&mut actions, event.installation.id, delta);
    proof {
        assert(actions@ =~= repositories_actions(*event));
    }
    (actions, Answer { status: 200, text: "ok" })
}

/// Nothing is read of a delivery whose signature does not hold, whatever its
/// headers say.
pub proof fn law_unsigned_deliveries_are_refused(
    secret: Seq<char>,
    body: Seq<u8>,
    signature: Option<Seq<char>>,
    event: Option<Seq<char>>,
    delivery: Option<Seq<char>>,
)
    requires
        !signature_accepted(secret, body, header_text(signature)),
    ensures
        route_of(secret, body, signature, event, delivery) == RouteView::Answered(
            answer(401, "invalid signature"@),
        ),
{
}

/// A delivery that is signed with the secret and has an id goes where its event
/// says.
pub proof fn law_signed_deliveries_are_routed(
    secret: Seq<char>,
    body: Seq<u8>,
    event: Seq<char>,
    delivery_id: Seq<char>,
)
    requires
        delivery_id.len() > 0,
    ensures
        route_of(
            secret,
            body,
            Some(signature_of(secret, body)),
            Some(event),
            Some(delivery_id),
        ) == event_route(event, delivery_id),
{
    law_signed_body_is_accepted(secret, body);
}

/// A pull request event is answered by an error exactly where its payload could
/// not be read or the job could not be stored, so only these are redelivered.
pub proof fn law_only_failures_are_redelivered(
    event: Result<PullRequestEvent, String>,
    added: Result<bool, TriageError>,
)
    ensures
        pull_request_plan(event) matches PullRequestPlanView::Answered(a) ==> (a.status >= 300
            <==> event is Err),
        enqueue_answer(added).status >= 300 <==> added is Err,
        pull_request_plan(event) is Enqueue <==> event is Ok && action_trigger(
            event->Ok_0.action@,
        ) is Some,
{
}

/// Repos that are added and taken away again leave no trace in the metering: a
/// new installation's repos cancel against those of its removal.
pub proof fn law_removal_undoes_installation(created: InstallationEvent, deleted: InstallationEvent)
    requires
        created.action@ == "created"@,
        deleted.action@ == "deleted"@,
        created.installation.id == deleted.installation.id,
        created.repositories@.len() == deleted.repositories@.len(),
    ensures
        metered_repos(installation_actions(created)) + metered_repos(installation_actions(deleted))
            == 0,
{
    reveal_strlit("created");
    reveal_strlit("deleted");
    assert("created"@[0] != "deleted"@[0]);
    let id = created.installation.id;
    let n = count_of(created.repositories@.len());
    lemma_metered_change(id, n);
    lemma_metered_change(id, -n);
    let first = seq![BillingAction::EnsureCustomer { installation_id: id }];
    let all = installation_actions(created);
    if n != 0 {
        assert(all.drop_last() =~= first);
        assert(first.drop_last() =~= Seq::<BillingAction>::empty());
        reveal_with_fuel(metered_repos, 3);
    } else {
        assert(all =~= first);
        assert(first.drop_last() =~= Seq::<BillingAction>::empty());
        reveal_with_fuel(metered_repos, 3);
    }
}

/// The repos that a list of actions meters in all.
pub open spec fn metered_repos(actions: Seq<BillingAction>) -> int
    decreases actions.len(),
{
    if actions.len() == 0 {
        0
    } else {
        metered_repos(actions.drop_last()) + match actions.last() {
            BillingAction::TrackRepo { delta, .. } => delta as int,
            BillingAction::EnsureCustomer { .. } => 0,
        }
    }
}

proof fn lemma_metered_change(installation_id: u64, delta: int)
    requires
        i64::MIN <= delta <= i64::MAX,
    ensures
        metered_repos(repo_change(installation_id, delta)) == delta,
{
    let actions = repo_change(installation_id, delta);
    if delta != 0 {
        assert(actions.drop_last() =~= Seq::<BillingAction>::empty());
        reveal_with_fuel(metered_repos, 2);
    }
}

/// A signed delivery goes where its event says, under the id that it came with;
/// one without an id is refused.
pub proof fn law_every_event_goes_its_way(
    secret: Seq<char>,
    body: Seq<u8>,
    event: Seq<char>,
    delivery_id: Seq<char>,
)
    ensures
        ({
            let signature = Some(signature_of(secret, body));
            let route = route_of(secret, body, signature, Some(event), Some(delivery_id));
            &&& delivery_id.len() > 0 && event == "pull_request"@ ==> route == (
            RouteView::PullRequest { delivery_id })
            &&& delivery_id.len() > 0 && event == "installation"@ ==> route
                == RouteView::Installation
            &&& delivery_id.len() > 0 && event == "installation_repositories"@ ==> route
                == RouteView::InstallationRepositories
            &&& delivery_id.len() > 0 && event == "ping"@ ==> (route matches RouteView::Answered(a)
                && a.status == 200 && a.text == "pong"@)
            &&& delivery_id.len() > 0 && event != "pull_request"@ && event != "installation"@
                && event != "installation_repositories"@ && event != "ping"@ ==> (
            route matches RouteView::Answered(a) && a.status == 200 && a.text == "ignored"@)
            &&& delivery_id.len() == 0 ==> (route matches RouteView::Answered(a) && a.status == 400
                && a.text == "missing delivery id"@)
            &&& (route_of(secret, body, signature, Some(event), None) matches RouteView::Answered(a)
                && a.status == 400)
        }),
{
    law_signed_body_is_accepted(secret, body);
    reveal_strlit("pull_request");
    reveal_strlit("installation");
    reveal_strlit("installation_repositories");
    reveal_strlit("ping");
    assert("pull_request"@[0] == 'p' && "installation"@[0] == 'i' && "ping"@[0] == 'p');
    assert("ping"@.len() == 4 && "installation_repositories"@.len() == 25);
    assert("installation"@.len() == 12 && "pull_request"@.len() == 12);
}

/// An event that is triaged asks for a triage of the pull request that it names,
/// under its action's trigger.
pub proof fn law_a_triaged_event_names_its_pull_request(e: PullRequestEvent)
    ensures
        action_trigger(e.action@) matches Some(t) ==> (pull_request_plan(
            Ok(e),
        ) matches PullRequestPlanView::Enqueue { pr, trigger } && {
            &&& trigger == t
            &&& pr.installation_id == e.installation.id
            &&& pr.owner == e.repository.owner.login@
            &&& pr.repo == e.repository.name@
            &&& pr.number == e.number
        }),
        action_trigger(e.action@) is None ==> (pull_request_plan(
            Ok(e),
        ) matches PullRequestPlanView::Answered(a) && a.status == 200 && a.text
            == "action not triaged"@),
{
}

/// The answers to a delivery tell a new job from a repeated one and from one
/// that could not be stored.
pub proof fn law_answers_tell_what_became_of_a_job(e: TriageError, unread: String)
    ensures
        enqueue_answer(Ok(true)).status == 202 && enqueue_answer(Ok(true)).text == "queued"@,
        enqueue_answer(Ok(false)).status == 200 && enqueue_answer(Ok(false)).text
            == "duplicate delivery"@,
        enqueue_answer(Err(e)).status == 500 && enqueue_answer(Err(e)).text == "enqueue failed"@,
        pull_request_plan(Err(unread)) matches PullRequestPlanView::Answered(a) && a.status == 400
            && a.text == "unparseable payload"@,
{
}

/// The repos of an installation are metered as they come and go: the change is
/// those that came less those that went, and where that is nothing there is
/// nothing to meter. A new installation is onboarded first.
pub proof fn law_repos_are_metered_as_they_come_and_go(
    e: InstallationRepositoriesEvent,
    i: InstallationEvent,
)
    requires
        e.repositories_added@.len() <= i64::MAX,
        e.repositories_removed@.len() <= i64::MAX,
        i.repositories@.len() <= i64::MAX,
    ensures
        ({
            let actions = repositories_actions(e);
            let change = e.repositories_added@.len() - e.repositories_removed@.len();
            &&& change == 0 ==> actions.len() == 0
            &&& change != 0 ==> actions.len() == 1 && (actions[0] matches BillingAction::TrackRepo {
                installation_id,
                delta,
            } && installation_id == e.installation.id && delta == change)
        }),
        ({
            let actions = installation_actions(i);
            let n = i.repositories@.len();
            let created = i.action@ == "created"@;
            let deleted = i.action@ == "deleted"@;
            &&& created ==> actions.len() == (if n == 0 {
                1nat
            } else {
                2
            }) && (actions[0] matches BillingAction::EnsureCustomer { installation_id }
                && installation_id == i.installation.id)
            &&& created && n > 0 ==> (actions[1] matches BillingAction::TrackRepo {
                installation_id,
                delta,
            } && installation_id == i.installation.id && delta == n)
            &&& deleted && n > 0 ==> actions.len() == 1 && (
            actions[0] matches BillingAction::TrackRepo { installation_id, delta }
                && installation_id == i.installation.id && delta == -n)
            &&& deleted && n == 0 ==> actions.len() == 0
            &&& !created && !deleted ==> actions.len() == 0
        }),
{
    reveal_strlit("created");
    reveal_strlit("deleted");
    assert("created"@[0] != "deleted"@[0]);
}

} // verus!
