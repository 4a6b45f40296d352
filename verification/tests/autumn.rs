//! Verdict-split behavior of billing: Allowed / Denied / self-heal on
//! customer_not_found / fail-open on feature_not_found and outages.

use scaffold_ai::autumn::{
    attach, attach_request, customer_id, ensure_customer_exists, read_reply, ApiError,
    AutumnConfig, BillingVerdict, CheckReply, CheckReport, FeatureCheck, FeatureTrack, HttpReply,
    TrackReply, FEATURE_PR_TRIAGE,
};
use scaffold_ai::error::TriageError;
use scaffold_ai::json::Json;

/// A reply of the service, with the code that its text holds.
fn reply<T>(status: u16, body: &str, parsed: Result<T, String>) -> Result<HttpReply<T>, String> {
    let code = serde_json::from_str::<serde_json::Value>(body)
        .ok()
        .and_then(|v| v["code"].as_str().map(|s| s.to_string()));
    Ok(HttpReply { status, body: body.to_string(), code, parsed })
}

fn checked(status: u16, body: &str) -> CheckReply {
    let parsed = serde_json::from_str::<serde_json::Value>(body)
        .ok()
        .and_then(|v| v["allowed"].as_bool())
        .ok_or("missing field `allowed`".to_string());
    CheckReply::Checked(reply(status, body, parsed))
}

fn metered(status: u16, body: &str) -> TrackReply {
    TrackReply::Metered(reply(status, body, Ok(())))
}

const MISSING_CUSTOMER: &str =
    "{\"code\": \"customer_not_found\", \"message\": \"not found\", \"env\": \"sandbox\"}";
const MISSING_FEATURE: &str =
    "{\"code\": \"feature_not_found\", \"message\": \"not found\", \"env\": \"sandbox\"}";

/// The path and the text members of the request that a run waits for.
fn shown(path: &str, body: &Json, key: &str) -> String {
    format!("{path} {}", body.text_at(key).unwrap_or("-"))
}

#[test]
fn allowed_check_maps_to_allowed() {
    let run = FeatureCheck::check_triage(42);
    let request = run.request().unwrap();
    assert_eq!(shown(&request.path, &request.body, "customer_id"), "/check gh-install-42");
    assert_eq!(request.body.text_at("feature_id"), Some("pr_triage"));
    let run = run.step(checked(200, "{\"allowed\": true}"));
    assert!(matches!(run, FeatureCheck::Done(BillingVerdict::Allowed)));
    assert!(run.request().is_none());
}

#[test]
fn disallowed_check_maps_to_denied() {
    let run = FeatureCheck::check_triage(42).step(checked(200, "{\"allowed\": false}"));
    match run {
        FeatureCheck::Done(verdict) => {
            assert!(matches!(&verdict, BillingVerdict::Denied { .. }));
            let reason = "plan limit reached for feature `pr_triage`".to_string();
            assert!(verdict == BillingVerdict::Denied { reason });
        }
        other => panic!("unexpected state {other:?}"),
    }
}

#[test]
fn missing_customer_self_heals_then_allows() {
    let run = FeatureCheck::check_triage(42).step(checked(404, MISSING_CUSTOMER));
    let request = run.request().unwrap();
    assert_eq!(shown(&request.path, &request.body, "id"), "/customers gh-install-42");
    assert_eq!(request.body.text_at("name"), Some("GitHub installation 42"));
    let run = run.step(CheckReply::Onboarded(reply(200, "{\"id\": \"gh-install-42\"}", Ok(()))));
    let request = run.request().unwrap();
    assert_eq!(shown(&request.path, &request.body, "customer_id"), "/check gh-install-42");
    let run = run.step(checked(200, "{\"allowed\": true}"));
    assert!(matches!(run, FeatureCheck::Done(BillingVerdict::Allowed)));
}

#[test]
fn missing_feature_fails_open_as_unavailable() {
    let run = FeatureCheck::check_triage(42).step(checked(404, MISSING_FEATURE));
    assert!(matches!(run, FeatureCheck::Done(BillingVerdict::Unavailable)));
}

#[test]
fn server_error_fails_open_as_unavailable() {
    let run = FeatureCheck::check_triage(42).step(checked(500, "boom"));
    assert!(matches!(run, FeatureCheck::Done(BillingVerdict::Unavailable)));
}

#[test]
fn track_self_heals_missing_customer() {
    let run = FeatureTrack::track_triage(42).step(metered(404, MISSING_CUSTOMER));
    let request = run.request().unwrap();
    assert_eq!(shown(&request.path, &request.body, "id"), "/customers gh-install-42");
    let run = run.step(TrackReply::Onboarded(reply(200, "{\"id\": \"gh-install-42\"}", Ok(()))));
    assert_eq!(run.request().unwrap().path, "/track");
    let run = run.step(metered(200, "{\"value\": 1}"));
    match run {
        FeatureTrack::Done(result) => {
            assert!(result.is_ok(), "expected self-healed track, got {result:?}");
        }
        other => panic!("unexpected state {other:?}"),
    }
}

#[test]
fn track_other_errors_still_fail() {
    let run = FeatureTrack::track_triage(42).step(metered(500, "boom"));
    match run {
        FeatureTrack::Done(Err(TriageError::Billing(s))) => {
            assert_eq!(s, "autumn returned 500: boom");
        }
        other => panic!("unexpected state {other:?}"),
    }
}

#[test]
fn a_check_heals_once_at_most() {
    let again = FeatureCheck::check_triage(42)
        .step(checked(404, MISSING_CUSTOMER))
        .step(CheckReply::Onboarded(reply(200, "", Ok(()))))
        .step(checked(404, MISSING_CUSTOMER));
    assert!(matches!(again, FeatureCheck::Done(BillingVerdict::Unavailable)));
    let refused = FeatureCheck::check_triage(42)
        .step(checked(404, MISSING_CUSTOMER))
        .step(CheckReply::Onboarded(reply(500, "", Ok(()))));
    assert!(matches!(refused, FeatureCheck::Done(BillingVerdict::Unavailable)));
    let denied = FeatureCheck::check_triage(42)
        .step(checked(404, MISSING_CUSTOMER))
        .step(CheckReply::Onboarded(reply(200, "", Ok(()))))
        .step(checked(200, "{\"allowed\": false}"));
    assert!(matches!(denied, FeatureCheck::Done(BillingVerdict::Denied { .. })));
}

#[test]
fn outages_and_unreadable_answers_fail_open() {
    let run = FeatureCheck::check_repo(1).step(CheckReply::Checked(Err("timeout".to_string())));
    assert!(matches!(run, FeatureCheck::Done(BillingVerdict::Unavailable)));
    let run = FeatureCheck::check_repo(1).step(checked(200, "not json"));
    assert!(matches!(run, FeatureCheck::Done(BillingVerdict::Unavailable)));
    let run = FeatureCheck::check_repo(1).step(checked(302, "{\"allowed\": false}"));
    assert!(matches!(run, FeatureCheck::Done(BillingVerdict::Unavailable)));
}

#[test]
fn a_reply_out_of_turn_is_passed_over() {
    let run = FeatureCheck::check_triage(42).step(CheckReply::Onboarded(reply(200, "", Ok(()))));
    assert!(matches!(run, FeatureCheck::Check { .. }));
    let run = FeatureTrack::track_repo(42, -2).step(TrackReply::Onboarded(reply(200, "", Ok(()))));
    assert!(matches!(run, FeatureTrack::Track { value: -2, .. }));
}

#[test]
fn track_requests_carry_the_amount() {
    let request = FeatureTrack::track_repo(42, -3).request().unwrap();
    assert_eq!(request.body.text_at("feature_id"), Some("repos"));
    assert_eq!(request.body.int_at("value"), Some(-3));
    let request = FeatureTrack::track_triage(7).request().unwrap();
    assert_eq!(request.body.text_at("feature_id"), Some(FEATURE_PR_TRIAGE));
    assert_eq!(request.body.int_at("value"), Some(1));
}

#[test]
fn track_onboarding_errors_are_reported() {
    let run = FeatureTrack::track_triage(42)
        .step(metered(404, MISSING_CUSTOMER))
        .step(TrackReply::Onboarded(Err("refused".to_string())));
    match run {
        FeatureTrack::Done(Err(e)) => {
            assert_eq!(e.message(), "billing error: autumn unreachable: refused");
        }
        other => panic!("unexpected state {other:?}"),
    }
}

#[test]
fn failures_keep_their_code() {
    let e = read_reply(reply::<()>(404, MISSING_FEATURE, Ok(()))).unwrap_err();
    assert_eq!(e.code(), Some("feature_not_found"));
    assert!(matches!(&e, ApiError::Http { status: 404, .. }));
    let e = read_reply(reply::<()>(500, "boom", Ok(()))).unwrap_err();
    assert_eq!(e.code(), None);
    let e = read_reply::<()>(Err("down".to_string())).unwrap_err();
    assert_eq!(e.code(), None);
    assert_eq!(e.message(), "autumn unreachable: down");
    assert!(read_reply(reply(299, "", Ok(5))).unwrap().is_ok());
    assert!(read_reply(reply(300, "", Ok(5))).is_err());
    assert!(read_reply(reply(199, "", Ok(5))).is_err());
}

#[test]
fn attaching_gives_the_checkout_url() {
    let request = attach_request(42, "pro");
    assert_eq!(request.path, "/attach");
    assert_eq!(request.body.text_at("product_id"), Some("pro"));
    let url = Some("https://pay.test/x".to_string());
    assert_eq!(attach(reply(200, "", Ok(url.clone()))).unwrap(), url);
    assert_eq!(attach(reply(200, "", Ok(None))).unwrap(), None);
    let e = attach(reply(200, "", Err("eof".to_string()))).unwrap_err();
    assert_eq!(e.message(), "billing error: unparseable attach response: eof");
    let e = attach(reply(402, "pay", Ok(None))).unwrap_err();
    assert_eq!(e.message(), "billing error: autumn returned 402: pay");
}

#[test]
fn onboarding_reports_failures() {
    assert!(ensure_customer_exists(reply(201, "", Ok(()))).is_ok());
    let e = ensure_customer_exists(reply(401, "no", Ok(()))).unwrap_err();
    assert_eq!(e.message(), "billing error: autumn returned 401: no");
}

#[test]
fn configuration_and_names() {
    let config = AutumnConfig::new("am_sk_test");
    assert_eq!(config.secret_key, "am_sk_test");
    assert_eq!(config.url("/check"), "https://api.useautumn.com/v1/check");
    assert_eq!(customer_id(42), "gh-install-42");
    assert_eq!(customer_id(u64::MAX), "gh-install-18446744073709551615");
    assert!(customer_id(1) != customer_id(11));
}

/// What a check reports of a reply: whether it is an error, its text, and the
/// failure that it names.
fn reported(run: &FeatureCheck, reply: &CheckReply) -> Option<(bool, &'static str, String)> {
    run.report(reply).map(|r| {
        let named = match &r {
            CheckReport::CustomerMissing { installation_id } => format!("{installation_id}"),
            CheckReport::Misconfigured { feature_id } => feature_id.clone(),
            CheckReport::OnboardingFailed { installation_id, error } => format!("{installation_id} {error}"),
            CheckReport::CheckFailed { feature_id, error } => format!("{feature_id} {error}"),
            CheckReport::StillFailing { feature_id, error } => format!("{feature_id} {error}"),
        };
        (r.is_error(), r.message(), named)
    })
}

#[test]
fn a_missing_feature_is_reported_as_misconfiguration() {
    let run = FeatureCheck::check_triage(42);
    let text = "BILLING MISCONFIGURED: feature does not exist in Autumn — failing open until fixed";
    assert_eq!(
        reported(&run, &checked(404, MISSING_FEATURE)),
        Some((true, text, "pr_triage".to_string()))
    );
    let run = run
        .step(checked(404, MISSING_CUSTOMER))
        .step(CheckReply::Onboarded(reply(200, "", Ok(()))));
    let text = "check still failing after customer creation";
    assert_eq!(
        reported(&run, &checked(404, MISSING_FEATURE)),
        Some((true, text, format!("pr_triage autumn returned 404: {MISSING_FEATURE}")))
    );
}

#[test]
fn failed_checks_are_reported() {
    let run = FeatureCheck::check_triage(42);
    assert_eq!(
        reported(&run, &checked(404, MISSING_CUSTOMER)),
        Some((false, "customer missing in Autumn — onboarding now (self-heal)", "42".to_string()))
    );
    let text = "Autumn check failed — treating as unavailable";
    let failed = |error: &str| Some((true, text, format!("pr_triage {error}")));
    assert_eq!(reported(&run, &checked(500, "boom")), failed("autumn returned 500: boom"));
    assert_eq!(
        reported(&run, &CheckReply::Checked(Err("timeout".to_string()))),
        failed("autumn unreachable: timeout")
    );
    assert_eq!(
        reported(&run, &checked(200, "not json")),
        failed("autumn unreachable: unparseable check response: missing field `allowed`")
    );
    let run = run.step(checked(404, MISSING_CUSTOMER));
    assert_eq!(
        reported(&run, &CheckReply::Onboarded(reply(500, "no", Ok(())))),
        Some((
            true,
            "self-heal customer creation failed",
            "42 billing error: autumn returned 500: no".to_string()
        ))
    );
    let run = run.step(CheckReply::Onboarded(reply(200, "", Ok(()))));
    assert_eq!(
        reported(&run, &checked(404, MISSING_CUSTOMER)),
        Some((
            true,
            "check still failing after customer creation",
            format!("pr_triage autumn returned 404: {MISSING_CUSTOMER}")
        ))
    );
}

#[test]
fn real_answers_are_not_reported() {
    let run = FeatureCheck::check_triage(42);
    assert_eq!(reported(&run, &checked(200, "{\"allowed\": true}")), None);
    assert_eq!(reported(&run, &checked(200, "{\"allowed\": false}")), None);
    assert_eq!(reported(&run, &CheckReply::Onboarded(reply(500, "", Ok(())))), None);
    let done = run.step(checked(500, "boom"));
    assert_eq!(reported(&done, &checked(500, "boom")), None);
}
