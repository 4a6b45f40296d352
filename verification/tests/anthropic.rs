//! Model calls: requests, retries and answers.

use scaffold_ai::anthropic::{
    classify, decide, read_answer, refusal_error, retry_after_secs, status_error,
    structured_request, typed_answer, AnthropicConfig, AttemptReply, ModelCall, MAX_TOKENS,
};
use scaffold_ai::config::RepoConfig;
use scaffold_ai::error::TriageError;
use scaffold_ai::json::Json;
use scaffold_ai::pr::{PullRequestRef, PullRequestSnapshot};
use scaffold_ai::prompts::{CLASSIFY_SYSTEM, DECIDE_SYSTEM};
use scaffold_ai::score::Score;
use scaffold_ai::triage::{Classification, PrCategory, RiskLevel};
use scaffold_ai::wire::{ContentBlock, MessagesResponse};

fn response(blocks: Vec<ContentBlock>, stop: Option<&str>) -> MessagesResponse {
    MessagesResponse { content: blocks, stop_reason: stop.map(|s| s.to_string()) }
}

fn text(s: &str) -> ContentBlock {
    ContentBlock::Text { text: s.to_string() }
}

fn answered(status: u16, retry_after: Option<&str>, body: &str) -> AttemptReply {
    AttemptReply::Answered {
        status,
        retry_after: retry_after.map(|s| s.to_string()),
        text: body.to_string(),
        response: Ok(response(vec![text("{}")], Some("end_turn"))),
    }
}

fn failed() -> AttemptReply {
    AttemptReply::Failed("connection reset".to_string())
}

fn snapshot() -> PullRequestSnapshot {
    PullRequestSnapshot {
        pr: PullRequestRef {
            installation_id: 1,
            owner: "o".to_string(),
            repo: "r".to_string(),
            number: 3,
        },
        title: "t".to_string(),
        body: "b".to_string(),
        author: "a".to_string(),
        base_branch: "main".to_string(),
        head_branch: "feat".to_string(),
        head_sha: "abc".to_string(),
        draft: false,
        mergeable: None,
        diff: String::new(),
        diff_truncated: false,
        changed_files: vec![],
        checks: vec![],
    }
}

#[test]
fn requests_carry_model_prompt_and_schema() {
    let config = AnthropicConfig::new("key", "some-model");
    assert_eq!(config.api_key, "key");
    assert_eq!(config.messages_url(), "https://api.anthropic.com/v1/messages");
    let r = structured_request(&config, "sys", "user text".to_string(), Json::Bool(true));
    assert_eq!(r.model, "some-model");
    assert_eq!(r.max_tokens, MAX_TOKENS);
    assert_eq!(MAX_TOKENS, 8192);
    assert_eq!(r.system, "sys");
    assert_eq!(r.messages.len(), 1);
    assert_eq!(r.messages[0].role, "user");
    assert_eq!(r.messages[0].content, "user text");
    assert_eq!(r.output_config.format.kind, "json_schema");
    assert!(matches!(r.output_config.format.schema, Json::Bool(true)));
}

#[test]
fn the_two_steps_differ_in_prompt_and_schema() {
    let config = AnthropicConfig::new("key", "m");
    let first = classify(&config, &snapshot());
    assert_eq!(first.system, CLASSIFY_SYSTEM);
    assert!(first.messages[0].content.starts_with("# PR o/r#3: t\n"));
    assert!(!first.messages[0].content.contains("Classification (from previous step)"));
    assert_eq!(first.output_config.format.schema.array_at("required").unwrap().len(), 4);
    let classification = Classification {
        category: PrCategory::Feature,
        confidence: Score::new(0.92f64.to_bits(), "0.92".to_string()),
        summary: "s".to_string(),
        risk: RiskLevel::Low,
    };
    let s = snapshot();
    let second = decide(&config, &s, &classification, &vec![], &RepoConfig::default());
    assert_eq!(second.system, DECIDE_SYSTEM);
    assert!(second.messages[0].content.contains("Classification (from previous step)"));
    assert_eq!(second.output_config.format.schema.array_at("required").unwrap().len(), 6);
}

#[test]
fn a_success_ends_the_call() {
    match ModelCall::structured().step(answered(200, None, "")) {
        ModelCall::Done(Ok(s)) => assert_eq!(s, "{}"),
        other => panic!("unexpected state {other:?}"),
    }
}

#[test]
fn passing_failures_are_retried_twice() {
    let call = ModelCall::structured();
    assert!(matches!(call, ModelCall::Send { attempt: 1, delay_secs: 0 }));
    let call = call.step(answered(429, Some("7"), ""));
    assert!(matches!(call, ModelCall::Send { attempt: 2, delay_secs: 7 }));
    let call = call.step(failed());
    assert!(matches!(call, ModelCall::Send { attempt: 3, delay_secs: 2 }));
    match call.step(answered(529, None, "overloaded")) {
        ModelCall::Done(Err(TriageError::Model(s))) => {
            assert_eq!(s, "Anthropic API returned 529 <unknown status code>: overloaded");
        }
        other => panic!("unexpected state {other:?}"),
    }
}

#[test]
fn delays_fall_back_to_the_attempt() {
    let call = ModelCall::structured().step(answered(500, Some("soon"), ""));
    assert!(matches!(call, ModelCall::Send { attempt: 2, delay_secs: 1 }));
    let call = call.step(answered(503, None, ""));
    assert!(matches!(call, ModelCall::Send { attempt: 3, delay_secs: 2 }));
    match call.step(failed()) {
        ModelCall::Done(Err(e)) => assert_eq!(e.message(), "model request failed: connection reset"),
        other => panic!("unexpected state {other:?}"),
    }
}

#[test]
fn other_refusals_end_the_call_at_once() {
    for (status, line) in [(400u16, "400 Bad Request"), (401, "401 Unauthorized"), (302, "302 Found"), (600, "600 <unknown status code>")] {
        match ModelCall::structured().step(answered(status, Some("1"), "no")) {
            ModelCall::Done(Err(TriageError::Model(s))) => {
                assert_eq!(s, format!("Anthropic API returned {line}: no"));
            }
            other => panic!("unexpected state {other:?}"),
        }
    }
    let done = ModelCall::structured().step(answered(400, None, "")).step(answered(200, None, ""));
    assert!(matches!(done, ModelCall::Done(Err(_))));
}

#[test]
fn status_errors_read_as_http_writes_them() {
    for status in 100..1000u16 {
        let line = http::StatusCode::from_u16(status).unwrap().to_string();
        assert_eq!(
            status_error(status, "x").message(),
            format!("model request failed: Anthropic API returned {line}: x")
        );
    }
    assert_eq!(
        refusal_error("418 I'm a teapot", "x").message(),
        "model request failed: Anthropic API returned 418 I'm a teapot: x"
    );
    assert_eq!(
        status_error(99, "x").message(),
        "model request failed: Anthropic API returned 99: x"
    );
}

#[test]
fn retry_after_is_a_number_of_seconds() {
    assert_eq!(retry_after_secs(&Some("12".to_string())), Some(12));
    assert_eq!(retry_after_secs(&Some("-1".to_string())), None);
    assert_eq!(retry_after_secs(&Some("Wed, 21 Oct 2015".to_string())), None);
    assert_eq!(retry_after_secs(&None), None);
}

#[test]
fn answers_are_the_first_text_block() {
    let blocks = vec![ContentBlock::Other, text("a"), text("b")];
    assert_eq!(read_answer(Ok(response(blocks, None))).unwrap(), "a");
    let e = read_answer(Ok(response(vec![ContentBlock::Other], None))).unwrap_err();
    assert!(matches!(&e, TriageError::InvalidModelOutput(s) if s == "no text block in model response"));
}

#[test]
fn refusals_and_cut_answers_are_errors() {
    let e = read_answer(Ok(response(vec![text("a")], Some("refusal")))).unwrap_err();
    assert!(matches!(&e, TriageError::Model(s) if s == "model refused the request (stop_reason: refusal)"));
    let e = read_answer(Ok(response(vec![text("a")], Some("max_tokens")))).unwrap_err();
    assert!(matches!(&e, TriageError::InvalidModelOutput(s)
        if s == "response truncated at max_tokens; structured output incomplete"));
    let e = read_answer(Err("eof".to_string())).unwrap_err();
    assert!(matches!(&e, TriageError::Model(s) if s == "unreadable API response: eof"));
    assert!(read_answer(Ok(response(vec![text("a")], Some("end_turn")))).is_ok());
}

#[test]
fn values_that_do_not_fit_are_invalid_output() {
    assert_eq!(typed_answer(Ok(5)).unwrap(), 5);
    let e = typed_answer::<u32>(Err("missing field".to_string())).unwrap_err();
    assert_eq!(
        e.message(),
        "model output failed validation: schema deserialization failed: missing field"
    );
}
