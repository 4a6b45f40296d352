//! Webhook signatures and events.

use scaffold_ai::triage::TriageTrigger;
use scaffold_ai::webhook::{
    read_header, sign, verify_signature, write_header, Installation, Owner, PullRequestEvent,
    Repository,
};

#[test]
fn signature_roundtrip() {
    let secret = "shhh";
    let body = b"{\"hello\":\"world\"}";
    let header = sign(secret, body);
    assert!(verify_signature(secret, body, &header));
    assert!(!verify_signature("wrong", body, &header));
    assert!(!verify_signature(secret, b"tampered", &header));
    assert!(!verify_signature(secret, body, "sha256=nothex"));
    assert!(!verify_signature(secret, body, "sha1=deadbeef"));
}

#[test]
fn signatures_have_their_known_values() {
    let expected = "sha256=757107ea0eb2509fc211221cce984b8a37570b6d7586c22c46f4379c8b043e17";
    assert_eq!(sign("It's a Secret to Everybody", b"Hello, World!"), expected);
    assert!(verify_signature("It's a Secret to Everybody", b"Hello, World!", expected));
    assert_eq!(
        sign("", b""),
        "sha256=b613679a0814d9ec772f95d778c35fc5ff1697c493715653c6c712144292c5ad"
    );
}

#[test]
fn signatures_may_be_in_capitals_but_not_shorter() {
    let header = sign("k", b"body");
    let capital = format!("sha256={}", header["sha256=".len()..].to_uppercase());
    assert!(verify_signature("k", b"body", &capital));
    assert!(!verify_signature("k", b"body", &header[..header.len() - 2]));
    assert!(!verify_signature("k", b"body", &header[..header.len() - 1]));
    assert!(!verify_signature("k", b"body", ""));
    assert!(!verify_signature("k", b"body", "sha256="));
    assert!(!verify_signature("k", b"body", &format!("{header}00")));
}

#[test]
fn actions_map_to_triggers() {
    let event = |action: &str| PullRequestEvent {
        action: action.to_string(),
        number: 7,
        installation: Installation { id: 42 },
        repository: Repository {
            name: "demo".to_string(),
            owner: Owner { login: "acme".to_string() },
        },
    };
    assert_eq!(event("opened").trigger(), Some(TriageTrigger::Opened));
    assert_eq!(event("reopened").trigger(), Some(TriageTrigger::Reopened));
    assert_eq!(event("synchronize").trigger(), Some(TriageTrigger::Synchronized));
    for other in ["synchronized", "closed", "labeled", "edited", "", "Opened"] {
        assert_eq!(event(other).trigger(), None);
    }
}

#[test]
fn headers_carry_hexadecimal_codes() {
    assert_eq!(write_header(&[0x00, 0x1f, 0xab]), "sha256=001fab");
    assert_eq!(read_header("sha256=001fAB"), Some(vec![0x00, 0x1f, 0xab]));
    assert_eq!(read_header("sha256="), Some(vec![]));
    assert_eq!(read_header("sha256=0"), None);
    assert_eq!(read_header("sha256=0g"), None);
    assert_eq!(read_header("SHA256=00"), None);
    let all: Vec<u8> = (0..=255).collect();
    assert_eq!(read_header(&write_header(&all)), Some(all));
}

#[test]
fn signature_headers_have_one_length() {
    assert_eq!(sign("shhh", b"").len(), 71);
    assert_eq!(sign("", b"{\"hello\":\"world\"}").len(), 71);
}
