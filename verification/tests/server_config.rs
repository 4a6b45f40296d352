//! Server configuration.

use scaffold_ai::server_config::{
    expand_tilde, key_from_file, load_private_key, not_numeric, optional, Environment, KeySource, ServerConfig,
};

fn some(s: &str) -> Option<String> {
    Some(s.to_string())
}

fn empty() -> Environment {
    Environment {
        bind_addr: None,
        database_url: None,
        github_webhook_secret: None,
        github_app_id: None,
        github_private_key: None,
        github_private_key_path: None,
        github_base_url: None,
        anthropic_api_key: None,
        anthropic_model: None,
        anthropic_base_url: None,
        autumn_secret_key: None,
        autumn_base_url: None,
    }
}

fn full() -> Environment {
    Environment {
        database_url: some("postgres://x"),
        github_webhook_secret: some("hush"),
        github_app_id: some(" 12 "),
        anthropic_api_key: some("ak"),
        autumn_secret_key: some("as"),
        ..empty()
    }
}

const KEY: &str = "a PRIVATE KEY of sorts";

#[test]
fn tilde_expansion() {
    let home = "/home/someone";
    assert_eq!(expand_tilde("~/x/y.pem", &some(home)), format!("{home}/x/y.pem"));
    assert_eq!(expand_tilde("/abs/path.pem", &some(home)), "/abs/path.pem");
    assert_eq!(expand_tilde("rel/path.pem", &some(home)), "rel/path.pem");
}

#[test]
fn tildes_stay_without_a_home() {
    assert_eq!(expand_tilde("~/x", &None), "~/x");
    assert_eq!(expand_tilde("~x", &some("/h")), "~x");
    assert_eq!(expand_tilde("~", &some("/h")), "~");
}

#[test]
fn a_complete_environment_loads() {
    let c = ServerConfig::load(&full(), Ok(KEY.to_string())).ok().unwrap();
    assert_eq!(c.bind_addr, "0.0.0.0:8080");
    assert_eq!(c.database_url, "postgres://x");
    assert_eq!(c.webhook_secret, "hush");
    assert_eq!(c.github_app_id, 12);
    assert_eq!(c.github_private_key_pem, KEY);
    assert_eq!(c.github_base_url, None);
    assert_eq!(c.anthropic_api_key, "ak");
    assert_eq!(c.autumn_secret_key, "as");
}

#[test]
fn overrides_are_taken_where_they_are_set() {
    let env = Environment {
        bind_addr: some(""),
        github_base_url: some("http://gh"),
        anthropic_model: some("m2"),
        anthropic_base_url: some("http://an"),
        autumn_base_url: some("  "),
        ..full()
    };
    let c = ServerConfig::load(&env, Ok(KEY.to_string())).ok().unwrap();
    assert_eq!(c.bind_addr, "");
    assert_eq!(c.autumn_base_url, None);
    let model = c.anthropic("m1");
    assert_eq!((model.model.as_str(), model.base_url.as_str()), ("m2", "http://an"));
    assert_eq!(c.autumn().base_url, "https://api.useautumn.com/v1");
    let gh = c.github();
    assert_eq!((gh.app_id, gh.base_url), (12, some("http://gh")));
    let plain = ServerConfig::load(&full(), Ok(KEY.to_string())).ok().unwrap();
    assert_eq!(plain.anthropic("m1").model, "m1");
    assert_eq!(plain.anthropic("m1").base_url, "https://api.anthropic.com");
}

#[test]
fn every_problem_is_reported_at_once() {
    let e = ServerConfig::load(&empty(), Err("no key".to_string())).err().unwrap();
    assert_eq!(
        e,
        "configuration invalid:\n  - missing required env var DATABASE_URL\n  - missing required env var GITHUB_WEBHOOK_SECRET\n  - missing required env var ANTHROPIC_API_KEY\n  - missing required env var AUTUMN_SECRET_KEY\n  - missing required env var GITHUB_APP_ID\n  - no key"
    );
    assert_eq!(not_numeric("\"x\""), "GITHUB_APP_ID must be the numeric App ID, got \"x\"");
    let env = Environment { github_app_id: some("abc\"\n"), database_url: some(" "), ..full() };
    let e = ServerConfig::load(&env, Ok(KEY.to_string())).err().unwrap();
    assert_eq!(
        e,
        format!("configuration invalid:\n  - missing required env var DATABASE_URL\n  - GITHUB_APP_ID must be the numeric App ID, got {:?}", "abc\"\n")
    );
}

#[test]
fn the_key_comes_inline_or_from_a_file() {
    let home = some("/h");
    let env = Environment { github_private_key: some(KEY), github_private_key_path: some("~/k"), ..empty() };
    assert!(matches!(load_private_key(&env, &home), KeySource::Inline(s) if s == KEY));
    let env = Environment { github_private_key: some("nonsense"), github_private_key_path: some("~/k"), ..empty() };
    assert!(matches!(load_private_key(&env, &home), KeySource::Problem(s)
        if s == "GITHUB_PRIVATE_KEY is set but does not look like a PEM private key"));
    let env = Environment { github_private_key: some(" "), github_private_key_path: some("~/k"), ..empty() };
    assert!(matches!(load_private_key(&env, &home), KeySource::File(s) if s == "/h/k"));
    assert!(matches!(load_private_key(&empty(), &home), KeySource::Problem(s)
        if s == "set GITHUB_PRIVATE_KEY (inline PEM) or GITHUB_PRIVATE_KEY_PATH"));
}

#[test]
fn key_files_must_hold_a_key() {
    assert_eq!(key_from_file("/k", Ok(KEY.to_string())), Ok(KEY.to_string()));
    assert_eq!(
        key_from_file("/k", Ok("x".to_string())),
        Err("GITHUB_PRIVATE_KEY_PATH (/k) is readable but does not contain a PEM private key".to_string())
    );
    assert_eq!(
        key_from_file("/k", Err("No such file".to_string())),
        Err("GITHUB_PRIVATE_KEY_PATH (/k) is not readable: No such file".to_string())
    );
}

#[test]
fn blank_values_count_as_unset() {
    assert_eq!(optional(&some("x")), some("x"));
    assert_eq!(optional(&some(" \t")), None);
    assert_eq!(optional(&None), None);
}
