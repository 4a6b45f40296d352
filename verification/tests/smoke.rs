//! Redaction and shapes of recorded exchanges.

use scaffold_ai::json::{Json, Member};
use scaffold_ai::smoke::{
    feature_exists, fixture, fixture_file, redact, redact_text, response_value, shape_report,
};

fn object(members: Vec<(&str, Json)>) -> Json {
    Json::object(members.into_iter().map(|(k, v)| Member::new(k, v)).collect())
}

/// The texts of a value, in order.
fn texts(value: &Json) -> Vec<String> {
    match value {
        Json::Str(s) => vec![s.clone()],
        Json::Array(items) => items.iter().flat_map(|v| texts(v)).collect(),
        Json::Object(members) => members.iter().flat_map(|m| texts(&m.value)).collect(),
        _ => vec![],
    }
}

#[test]
fn secrets_and_queries_are_scrubbed() {
    assert_eq!(redact_text("Bearer s3cr3t!", "s3cr3t"), "Bearer [REDACTED_KEY]!");
    assert_eq!(redact_text("https://x.test/a?token=1?2", "s3cr3t"), "https://x.test/a?[REDACTED_QUERY]");
    assert_eq!(redact_text("https://x.test/s3cr3t/a?k=s3cr3t", "s3cr3t"), "https://x.test/[REDACTED_KEY]/a?[REDACTED_QUERY]");
    assert_eq!(redact_text("see https://x.test?a", "s3cr3t"), "see https://x.test?a");
    assert_eq!(redact_text("httpless", "s3cr3t"), "httpless");
    assert_eq!(redact_text("", "s3cr3t"), "");
}

#[test]
fn redaction_reaches_every_depth() {
    let value = object(vec![
        ("a", Json::array(vec![Json::str("x s3cr3t"), Json::Null, Json::Bool(true)])),
        ("s3cr3t", object(vec![("url", Json::str("http://h/?s3cr3t"))])),
        ("n", Json::Int(-4)),
        ("f", Json::Number("1.5e3".to_string())),
    ]);
    let out = redact(&value, "s3cr3t");
    assert_eq!(texts(&out), vec!["x [REDACTED_KEY]", "http://h/?[REDACTED_QUERY]"]);
    assert!(out.get("s3cr3t").is_some());
    assert_eq!(out.int_at("n"), Some(-4));
    assert!(matches!(out.get("f"), Some(Json::Number(s)) if s == "1.5e3"));
    assert_eq!(out.array_at("a").unwrap().len(), 3);
}

#[test]
fn records_hold_both_sides_of_an_exchange() {
    let body = object(vec![("customer_id", Json::str("c"))]);
    let value = object(vec![("allowed", Json::Bool(true)), ("key", Json::str("s3cr3t"))]);
    let record = fixture("/check", &body, 200, &value, "s3cr3t");
    let request = record.get("request").unwrap();
    assert_eq!(request.text_at("method"), Some("POST"));
    assert_eq!(request.text_at("path"), Some("/check"));
    assert_eq!(request.get("body").unwrap().text_at("customer_id"), Some("c"));
    let response = record.get("response").unwrap();
    assert_eq!(response.int_at("status"), Some(200));
    assert_eq!(response.get("body").unwrap().text_at("key"), Some("[REDACTED_KEY]"));
}

#[test]
fn shapes_compare_keys() {
    let body = object(vec![("allowed", Json::Bool(true)), ("code", Json::Null), ("z", Json::Int(1))]);
    let shape = shape_report(&body, &vec!["allowed".to_string(), "balance".to_string()]).unwrap();
    assert_eq!(shape.missing, vec!["balance"]);
    assert_eq!(shape.extra, vec!["code", "z"]);
    let shape = shape_report(&body, &vec![]).unwrap();
    assert!(shape.missing.is_empty());
    assert_eq!(shape.extra.len(), 3);
    assert!(shape_report(&Json::str("x"), &vec![]).is_none());
}

#[test]
fn unreadable_responses_are_kept_raw() {
    assert_eq!(response_value("oops", Err("no".to_string())).text_at("raw"), Some("oops"));
    assert!(matches!(response_value("1", Ok(Json::Int(1))), Json::Int(1)));
}

#[test]
fn fixture_files_are_numbered() {
    assert_eq!(fixture_file(1, "check"), "smoke-test-fixtures/01-check.json");
    assert_eq!(fixture_file(12, "track"), "smoke-test-fixtures/12-track.json");
    assert_eq!(fixture_file(123, "x"), "smoke-test-fixtures/123-x.json");
}

#[test]
fn features_exist_when_created_or_there_before() {
    assert!(feature_exists(200));
    assert!(feature_exists(299));
    assert!(feature_exists(409));
    assert!(!feature_exists(404));
    assert!(!feature_exists(300));
}

#[test]
fn only_marks_are_left_of_the_secret() {
    assert_eq!(redact_text("]xx", "]x"), "[REDACTED_KEY]x");
    assert_eq!(redact_text("httpx?", "x?["), "httpx?[REDACTED_QUERY]");
    assert_eq!(redact_text("sk sk_1 sk", "sk_1"), "sk [REDACTED_KEY] sk");
}
