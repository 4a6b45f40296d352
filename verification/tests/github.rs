//! GitHub: snapshots, comments, diagnostics and the auth check.

use scaffold_ai::error::TriageError;
use scaffold_ai::github::{
    accessible_repos, anything_to_send, delivery_summaries, entry_with_status, fetch_repo_config,
    host_call,
    map_check_conclusion, set_webhook_url, token_path, webhook_diagnostics, webhook_url_patch,
    AuthCheck, AuthReply, CheckEntry, CommentReply, CommentUpsert, ContentsError, FetchReply,
    FileEntry, GithubConfig, IssueComment, PullRequestDetails, SnapshotFetch, COMMENT_MARKER,
    DIFF_BYTE_BUDGET,
};
use scaffold_ai::json::{Json, Member};
use scaffold_ai::pr::{CheckConclusion, PullRequestRef};

fn pr() -> PullRequestRef {
    PullRequestRef {
        installation_id: 42,
        owner: "acme".to_string(),
        repo: "demo".to_string(),
        number: 7,
    }
}

fn details() -> PullRequestDetails {
    PullRequestDetails {
        title: Some("T".to_string()),
        body: None,
        author: Some("alice".to_string()),
        base_branch: "main".to_string(),
        head_branch: "feat".to_string(),
        head_sha: "abc123".to_string(),
        draft: None,
        mergeable: Some(false),
    }
}

fn object(members: Vec<(&str, Json)>) -> Json {
    Json::object(members.into_iter().map(|(k, v)| Member::new(k, v)).collect())
}

fn boom<T>() -> Result<T, String> {
    Err("boom".to_string())
}

#[test]
fn snapshots_are_assembled_from_the_replies() {
    let done = SnapshotFetch::fetch_snapshot(pr())
        .step(FetchReply::Details(Ok(details())))
        .step(FetchReply::Diff(Ok("+x\n".to_string())))
        .step(FetchReply::Files(Ok(vec![FileEntry {
            filename: "src/lib.rs".to_string(),
            additions: 3,
            deletions: 1,
            status: "Modified".to_string(),
        }])))
        .step(FetchReply::Checks(Ok(vec![CheckEntry {
            name: "ci".to_string(),
            conclusion: Some("failure".to_string()),
        }])));
    match done {
        SnapshotFetch::Done(Ok(s)) => {
            assert_eq!(s.pr.to_text(), "acme/demo#7");
            assert_eq!(s.title, "T");
            assert_eq!(s.body, "");
            assert_eq!(s.author, "alice");
            assert_eq!(s.base_branch, "main");
            assert_eq!(s.head_branch, "feat");
            assert_eq!(s.head_sha, "abc123");
            assert!(!s.draft);
            assert_eq!(s.mergeable, Some(false));
            assert_eq!(s.diff, "+x\n");
            assert!(!s.diff_truncated);
            assert_eq!(s.changed_files[0].status, "modified");
            assert_eq!(s.changed_files[0].additions, 3);
            assert_eq!(s.checks[0].conclusion, CheckConclusion::Failure);
        }
        other => panic!("unexpected state {other:?}"),
    }
}

#[test]
fn unavailable_checks_degrade_quietly() {
    let done = SnapshotFetch::fetch_snapshot(pr())
        .step(FetchReply::Details(Ok(details())))
        .step(FetchReply::Diff(Ok(String::new())))
        .step(FetchReply::Files(Ok(vec![])))
        .step(FetchReply::Checks(boom()));
    assert!(matches!(done, SnapshotFetch::Done(Ok(s)) if s.checks.is_empty()));
}

#[test]
fn the_first_failing_call_ends_a_fetch() {
    let messages = [
        (SnapshotFetch::fetch_snapshot(pr()).step(FetchReply::Details(boom())), "fetch PR: boom"),
        (
            SnapshotFetch::fetch_snapshot(pr())
                .step(FetchReply::Details(Ok(details())))
                .step(FetchReply::Diff(boom())),
            "fetch diff: boom",
        ),
        (
            SnapshotFetch::fetch_snapshot(pr())
                .step(FetchReply::Details(Ok(details())))
                .step(FetchReply::Diff(Ok(String::new())))
                .step(FetchReply::Files(boom())),
            "list changed files: boom",
        ),
    ];
    for (state, expected) in messages {
        match state {
            SnapshotFetch::Done(Err(TriageError::Host(s))) => assert_eq!(s, expected),
            other => panic!("unexpected state {other:?}"),
        }
    }
    let waiting = SnapshotFetch::fetch_snapshot(pr()).step(FetchReply::Diff(Ok(String::new())));
    assert!(matches!(waiting, SnapshotFetch::Details { .. }));
}

#[test]
fn long_diffs_are_cut_at_a_boundary() {
    let fetch = |diff: String| {
        match SnapshotFetch::fetch_snapshot(pr())
            .step(FetchReply::Details(Ok(details())))
            .step(FetchReply::Diff(Ok(diff)))
            .step(FetchReply::Files(Ok(vec![])))
            .step(FetchReply::Checks(Ok(vec![])))
        {
            SnapshotFetch::Done(Ok(s)) => (s.diff, s.diff_truncated),
            other => panic!("unexpected state {other:?}"),
        }
    };
    let whole = "a".repeat(DIFF_BYTE_BUDGET);
    assert_eq!(fetch(whole.clone()), (whole.clone(), false));
    let (kept, cut) = fetch(format!("{whole}b"));
    assert!(cut);
    assert_eq!(kept, whole);
    let (kept, cut) = fetch(format!("x{}", "ä".repeat(DIFF_BYTE_BUDGET / 2)));
    assert!(cut);
    assert_eq!(kept.len(), DIFF_BYTE_BUDGET - 1);
}

#[test]
fn check_conclusions_map_by_name() {
    let map = |c: Option<&str>| map_check_conclusion("", &c.map(|s| s.to_string()));
    assert_eq!(map(Some("success")), CheckConclusion::Success);
    assert_eq!(map(Some("failure")), CheckConclusion::Failure);
    assert_eq!(map(Some("neutral")), CheckConclusion::Neutral);
    assert_eq!(map(Some("cancelled")), CheckConclusion::Cancelled);
    assert_eq!(map(Some("timed_out")), CheckConclusion::TimedOut);
    assert_eq!(map(Some("action_required")), CheckConclusion::ActionRequired);
    assert_eq!(map(Some("skipped")), CheckConclusion::Skipped);
    assert_eq!(map(Some("stale")), CheckConclusion::Pending);
    assert_eq!(map(None), CheckConclusion::Pending);
}

#[test]
fn file_status_names_are_lower_cased() {
    let status = |s: &str| {
        let done = SnapshotFetch::fetch_snapshot(pr())
            .step(FetchReply::Details(Ok(details())))
            .step(FetchReply::Diff(Ok(String::new())))
            .step(FetchReply::Files(Ok(vec![FileEntry {
                filename: "f".to_string(),
                additions: 0,
                deletions: 0,
                status: s.to_string(),
            }])))
            .step(FetchReply::Checks(Ok(vec![])));
        match done {
            SnapshotFetch::Done(Ok(s)) => s.changed_files[0].status.clone(),
            other => panic!("unexpected state {other:?}"),
        }
    };
    let entry = FileEntry {
        filename: "f".to_string(),
        additions: 4,
        deletions: 5,
        status: "Added".to_string(),
    };
    let file = entry_with_status(entry, "added".to_string());
    assert_eq!((file.path.as_str(), file.additions, file.deletions), ("f", 4, 5));
    assert_eq!(file.status, "added");
    assert_eq!(status("Added"), "added");
    assert_eq!(status("Renamed"), "renamed");
    assert_eq!(status("ÄZ@[1"), "äz@[1");
}

#[test]
fn the_config_file_may_be_absent() {
    assert_eq!(fetch_repo_config(Ok(vec![Some("a".to_string()), Some("b".to_string())])).unwrap(), Some("b".to_string()));
    assert_eq!(fetch_repo_config(Ok(vec![Some("a".to_string()), None])).unwrap(), None);
    assert_eq!(fetch_repo_config(Ok(vec![])).unwrap(), None);
    let error = |status| ContentsError { status, message: "boom".to_string() };
    assert_eq!(fetch_repo_config(Err(error(Some(404)))).unwrap(), None);
    let e = fetch_repo_config(Err(error(Some(500)))).unwrap_err();
    assert_eq!(e.message(), "pull request host error: fetch .scaffold.toml: boom");
    assert!(fetch_repo_config(Err(error(None))).is_err());
}

#[test]
fn the_triage_comment_is_sticky() {
    let comments = vec![
        IssueComment { id: 1, body: Some("hello".to_string()) },
        IssueComment { id: 2, body: None },
        IssueComment { id: 3, body: Some(format!("{COMMENT_MARKER}\nold")) },
        IssueComment { id: 4, body: Some(format!("{COMMENT_MARKER}\nolder")) },
    ];
    let upsert = CommentUpsert::upsert_triage_comment("new");
    assert!(matches!(&upsert, CommentUpsert::List { .. }));
    let upsert = upsert.step(CommentReply::Listed(Ok(comments)));
    match &upsert {
        CommentUpsert::Update { id, text } => {
            assert_eq!(*id, 3);
            assert_eq!(text, "<!-- scaffold-ai:triage -->\nnew");
        }
        other => panic!("unexpected state {other:?}"),
    }
    assert!(matches!(upsert.step(CommentReply::Updated(Ok(()))), CommentUpsert::Done(Ok(()))));

    let created = CommentUpsert::upsert_triage_comment("first")
        .step(CommentReply::Listed(Ok(vec![IssueComment { id: 1, body: Some("x".to_string()) }])));
    match &created {
        CommentUpsert::Create { text } => assert!(text.starts_with(COMMENT_MARKER)),
        other => panic!("unexpected state {other:?}"),
    }
    assert!(matches!(created.step(CommentReply::Created(Ok(()))), CommentUpsert::Done(Ok(()))));
}

#[test]
fn comment_errors_say_what_was_done() {
    let message = |c: CommentUpsert| match c {
        CommentUpsert::Done(Err(TriageError::Host(s))) => s,
        other => panic!("unexpected state {other:?}"),
    };
    let start = || CommentUpsert::upsert_triage_comment("b");
    assert_eq!(message(start().step(CommentReply::Listed(boom()))), "list comments: boom");
    let create = start().step(CommentReply::Listed(Ok(vec![])));
    assert_eq!(message(create.step(CommentReply::Created(boom()))), "create comment: boom");
    let marked = IssueComment { id: 9, body: Some(COMMENT_MARKER.to_string()) };
    let update = start().step(CommentReply::Listed(Ok(vec![marked])));
    assert_eq!(message(update.step(CommentReply::Updated(boom()))), "update comment: boom");
    let waiting = start().step(CommentReply::Created(Ok(())));
    assert!(matches!(waiting, CommentUpsert::List { .. }));
}

#[test]
fn deliveries_are_summarised_with_defaults() {
    let list = Json::array(vec![
        object(vec![
            ("event", Json::str("push")),
            ("guid", Json::str("g")),
            ("action", Json::Null),
            ("status", Json::str("OK")),
            ("status_code", Json::Int(200)),
            ("delivered_at", Json::str("now")),
        ]),
        object(vec![("status_code", Json::Number("1.5".to_string()))]),
    ]);
    let s = delivery_summaries(&list);
    assert_eq!(s.len(), 2);
    assert_eq!((s[0].event.as_str(), s[0].action.as_str(), s[0].status_code), ("push", "-", 200));
    assert_eq!(s[0].delivered_at, "now");
    assert_eq!((s[1].event.as_str(), s[1].guid.as_str(), s[1].status.as_str()), ("?", "?", "?"));
    assert_eq!((s[1].action.as_str(), s[1].status_code, s[1].delivered_at.as_str()), ("-", 0, "?"));
    assert!(delivery_summaries(&Json::Null).is_empty());
}

#[test]
fn diagnostics_need_both_answers() {
    let hook = || Ok(object(vec![("url", Json::str("https://x.test")), ("secret", Json::str("s"))]));
    let (url, list) = webhook_diagnostics(hook(), Ok(Json::array(vec![object(vec![])]))).unwrap();
    assert_eq!(url, "https://x.test");
    assert_eq!(list.len(), 1);
    let (url, _) = webhook_diagnostics(Ok(object(vec![])), Ok(Json::Null)).unwrap();
    assert_eq!(url, "(none)");
    let e = webhook_diagnostics(boom(), boom()).unwrap_err();
    assert_eq!(e.message(), "pull request host error: GET /app/hook/config: boom");
    let e = webhook_diagnostics(hook(), boom()).unwrap_err();
    assert_eq!(e.message(), "pull request host error: GET /app/hook/deliveries: boom");
}

#[test]
fn changing_the_webhook_url_sends_the_url_only() {
    match webhook_url_patch("https://y.test") {
        Json::Object(members) => {
            assert_eq!(members.len(), 1);
            assert_eq!(members[0].key, "url");
        }
        other => panic!("unexpected value {other:?}"),
    }
    assert!(set_webhook_url(Ok(Json::Null)).is_ok());
    let e = set_webhook_url(boom()).unwrap_err();
    assert_eq!(e.message(), "pull request host error: PATCH /app/hook/config: boom");
}

#[test]
fn the_auth_check_uses_the_first_installation_by_default() {
    let list = || vec![(5u64, "acme".to_string()), (6, "other".to_string())];
    let check = AuthCheck::check_app_auth(None).step(AuthReply::Installations(Ok(list())));
    assert!(matches!(&check, AuthCheck::MintToken { installation_id: 5, .. }));
    let check = check.step(AuthReply::Token(Ok(Some("soon".to_string()))));
    let repos = object(vec![(
        "repositories",
        Json::array(vec![
            object(vec![("full_name", Json::str("acme/a"))]),
            object(vec![("name", Json::str("x"))]),
            object(vec![("full_name", Json::str("acme/b"))]),
        ]),
    )]);
    match check.step(AuthReply::Repositories(Ok(repos))) {
        AuthCheck::Done(Ok(report)) => {
            assert_eq!(report.installations, list());
            assert_eq!(report.installation_id_used, 5);
            assert_eq!(report.token_expires_at.as_deref(), Some("soon"));
            assert_eq!(report.accessible_repos, vec!["acme/a", "acme/b"]);
        }
        other => panic!("unexpected state {other:?}"),
    }
    let check = AuthCheck::check_app_auth(Some(6)).step(AuthReply::Installations(Ok(list())));
    assert!(matches!(&check, AuthCheck::MintToken { installation_id: 6, .. }));
    assert!(accessible_repos(&Json::Null).is_empty());
    assert_eq!(token_path(6), "/app/installations/6/access_tokens");
}

#[test]
fn auth_errors_say_what_was_done() {
    let message = |c: AuthCheck| match c {
        AuthCheck::Done(Err(TriageError::Host(s))) => s,
        other => panic!("unexpected state {other:?}"),
    };
    let start = || AuthCheck::check_app_auth(None);
    let one = || AuthReply::Installations(Ok(vec![(1, "a".to_string())]));
    assert_eq!(
        message(start().step(AuthReply::Installations(boom()))),
        "GET /app/installations (JWT rejected or App ID wrong?): boom"
    );
    assert_eq!(
        message(start().step(AuthReply::Installations(Ok(vec![])))),
        "JWT accepted, but the App has no installations — install it on a repo first"
    );
    let minted = || start().step(one()).step(AuthReply::Token(Ok(None)));
    assert_eq!(message(start().step(one()).step(AuthReply::Token(boom()))), "minting installation token: boom");
    assert_eq!(message(minted().step(AuthReply::NoClient("boom".to_string()))), "installation client: boom");
    assert_eq!(message(minted().step(AuthReply::Repositories(boom()))), "GET /installation/repositories: boom");
    assert!(matches!(start().step(AuthReply::Token(Ok(None))), AuthCheck::ListInstallations { .. }));
}

#[test]
fn keys_that_are_none_are_host_errors() {
    let config = |pem: &str| GithubConfig {
        app_id: 1,
        private_key_pem: pem.to_string(),
        base_url: None,
    };
    let e = config("not a key").encoding_key().err().unwrap();
    assert_eq!(
        e.message(),
        "pull request host error: invalid GitHub App private key: InvalidKeyFormat"
    );
    let begin = format!("-----BEGIN RSA {} KEY-----", "PRIVATE");
    let end = format!("-----END RSA {} KEY-----", "PRIVATE");
    assert!(config(&format!("{begin}\nMAMCAQA=\n{end}\n")).clone().encoding_key().is_ok());
}

#[test]
fn calls_pass_their_values_on() {
    assert_eq!(host_call("x", Ok::<u8, String>(3)).unwrap(), 3);
    assert_eq!(host_call::<u8>("add labels", boom()).unwrap_err().message(), "pull request host error: add labels: boom");
    assert!(anything_to_send(&vec!["a".to_string()]));
    assert!(!anything_to_send(&vec![]));
}

/// What an upsert does to the comments there are.
fn upsert(comments: &mut Vec<(u64, String)>, body: &str, new_id: u64) {
    let listed = comments
        .iter()
        .map(|(id, text)| IssueComment { id: *id, body: Some(text.clone()) })
        .collect();
    let plan = CommentUpsert::upsert_triage_comment(body).step(CommentReply::Listed(Ok(listed)));
    match plan {
        CommentUpsert::Create { text } => comments.push((new_id, text)),
        CommentUpsert::Update { id, text } => {
            for c in comments.iter_mut().filter(|c| c.0 == id) {
                c.1 = text.clone();
            }
        }
        other => panic!("unexpected state {other:?}"),
    }
}

#[test]
fn any_number_of_upserts_leaves_one_triage_comment() {
    let mut comments = vec![(1, "hello".to_string())];
    upsert(&mut comments, "first", 2);
    comments.push((3, "a reply".to_string()));
    upsert(&mut comments, "second", 4);
    upsert(&mut comments, "third", 5);
    let expected = vec![
        (1, "hello".to_string()),
        (2, format!("{COMMENT_MARKER}\nthird")),
        (3, "a reply".to_string()),
    ];
    assert_eq!(comments, expected);
}
