//! What webhook deliveries are answered.

use scaffold_ai::error::TriageError;
use scaffold_ai::routes::{
    answer_enqueued, github_webhook, handle_installation, handle_installation_repos,
    handle_pull_request, route_event, BillingAction, PullRequestPlan, Route,
};
use scaffold_ai::triage::TriageTrigger;
use scaffold_ai::webhook::{
    sign, Installation, InstallationEvent, InstallationRepositoriesEvent, Owner, PullRequestEvent,
    Repository, RepositorySummary,
};

fn some(s: &str) -> Option<String> {
    Some(s.to_string())
}

fn repos(n: usize) -> Vec<RepositorySummary> {
    (0..n).map(|i| RepositorySummary { full_name: format!("acme/{i}") }).collect()
}

fn answered(route: Route) -> (u16, &'static str) {
    match route {
        Route::Answered(a) => (a.status, a.text),
        other => panic!("unexpected route {other:?}"),
    }
}

#[test]
fn deliveries_are_routed_by_their_event() {
    let body = b"{}";
    let signature = Some(sign("k", body));
    let route = |event: &str| github_webhook("k", body, &signature, &some(event), &some("d-1"));
    assert!(matches!(route("pull_request"), Route::PullRequest { delivery_id } if delivery_id == "d-1"));
    assert!(matches!(route("installation"), Route::Installation));
    assert!(matches!(route("installation_repositories"), Route::InstallationRepositories));
    assert_eq!(answered(route("ping")), (200, "pong"));
    assert_eq!(answered(route("issues")), (200, "ignored"));
    assert_eq!(answered(route_event("", "d")), (200, "ignored"));
}

#[test]
fn deliveries_without_a_signature_or_an_id_are_refused() {
    let body = b"{}";
    let signature = Some(sign("k", body));
    let event = some("ping");
    assert_eq!(
        answered(github_webhook("k", body, &None, &event, &some("d"))),
        (401, "invalid signature")
    );
    assert_eq!(
        answered(github_webhook("other", body, &signature, &event, &some("d"))),
        (401, "invalid signature")
    );
    assert_eq!(
        answered(github_webhook("k", body, &signature, &event, &None)),
        (400, "missing delivery id")
    );
    assert_eq!(
        answered(github_webhook("k", body, &signature, &event, &some(""))),
        (400, "missing delivery id")
    );
    assert_eq!(
        answered(github_webhook("k", body, &None, &None, &None)),
        (401, "invalid signature")
    );
    assert_eq!(answered(github_webhook("k", body, &signature, &None, &some("d"))), (200, "ignored"));
}

#[test]
fn pull_request_events_enqueue_or_are_answered() {
    let event = |action: &str| {
        Ok(PullRequestEvent {
            action: action.to_string(),
            number: 7,
            installation: Installation { id: 42 },
            repository: Repository {
                name: "demo".to_string(),
                owner: Owner { login: "acme".to_string() },
            },
        })
    };
    match handle_pull_request(event("synchronize")) {
        PullRequestPlan::Enqueue { pr, trigger } => {
            assert_eq!(pr.to_text(), "acme/demo#7");
            assert_eq!(pr.installation_id, 42);
            assert_eq!(trigger, TriageTrigger::Synchronized);
        }
        other => panic!("unexpected plan {other:?}"),
    }
    assert!(matches!(handle_pull_request(event("closed")),
        PullRequestPlan::Answered(a) if (a.status, a.text) == (200, "action not triaged")));
    assert!(matches!(handle_pull_request(Err("eof".to_string())),
        PullRequestPlan::Answered(a) if (a.status, a.text) == (400, "unparseable payload")));
}

#[test]
fn enqueueing_is_answered_by_its_outcome() {
    let answer = |added| {
        let a = answer_enqueued(&added);
        (a.status, a.text)
    };
    assert_eq!(answer(Ok(true)), (202, "queued"));
    assert_eq!(answer(Ok(false)), (200, "duplicate delivery"));
    assert_eq!(answer(Err(TriageError::Store("x".to_string()))), (500, "enqueue failed"));
}

#[test]
fn installations_are_onboarded_and_metered() {
    let event = |action: &str, n: usize| {
        Ok(InstallationEvent {
            action: action.to_string(),
            installation: Installation { id: 42 },
            repositories: repos(n),
        })
    };
    let ensure = BillingAction::EnsureCustomer { installation_id: 42 };
    let track = |delta| BillingAction::TrackRepo { installation_id: 42, delta };
    assert_eq!(handle_installation(&event("created", 2)).0, vec![ensure, track(2)]);
    assert_eq!(handle_installation(&event("created", 0)).0, vec![ensure]);
    assert_eq!(handle_installation(&event("deleted", 3)).0, vec![track(-3)]);
    assert_eq!(handle_installation(&event("deleted", 0)).0, vec![]);
    assert_eq!(handle_installation(&event("suspend", 3)).0, vec![]);
    let (actions, a) = handle_installation(&Err("x".to_string()));
    assert!(actions.is_empty());
    assert_eq!((a.status, a.text), (200, "ignored"));
    let (_, a) = handle_installation(&event("created", 1));
    assert_eq!((a.status, a.text), (200, "ok"));
}

#[test]
fn repository_changes_are_metered_by_their_balance() {
    let event = |added: usize, removed: usize| {
        Ok(InstallationRepositoriesEvent {
            action: "added".to_string(),
            installation: Installation { id: 9 },
            repositories_added: repos(added),
            repositories_removed: repos(removed),
        })
    };
    let track = |delta| BillingAction::TrackRepo { installation_id: 9, delta };
    assert_eq!(handle_installation_repos(&event(2, 1)).0, vec![track(1)]);
    assert_eq!(handle_installation_repos(&event(0, 4)).0, vec![track(-4)]);
    assert_eq!(handle_installation_repos(&event(3, 3)).0, vec![]);
    let (_, a) = handle_installation_repos(&event(3, 3));
    assert_eq!((a.status, a.text), (200, "ok"));
    let (_, a) = handle_installation_repos(&Err("x".to_string()));
    assert_eq!((a.status, a.text), (200, "ignored"));
}
