//! Webhook signature verification and payload types.

use hmac::Mac;
use vstd::prelude::*;
use vstd::utf8::encode_utf8;

use crate::text::{begins_with, same_text, strip_prefix};
use crate::triage::TriageTrigger;

verus! {

/// What precedes the hexadecimal digest in a signature header.
pub const SIGNATURE_PREFIX: &'static str = "sha256=";

/// The HMAC-SHA256 code of a message under a key.
pub uninterp spec fn hmac_sha256(key: Seq<u8>, message: Seq<u8>) -> Seq<u8>;

/// `Hmac::<Sha256>` with `new_from_slice`, `update` and `finalize`. The
/// construction takes a key of any length. The result is the 32-byte code of
/// the message under the key, here only named.
#[verifier::external_body]
fn message_code(key: &[u8], message: &[u8]) -> (code: Vec<u8>)
    ensures
        code@ == hmac_sha256(key@, message@),
        code@.len() == 32,
{
    let mut mac = hmac::Hmac::<sha2::Sha256>::new_from_slice(key).expect("any key length is valid");
    mac.update(message);
    mac.finalize().into_bytes().to_vec()
}

/// `Hmac::<Sha256>` with `verify_slice`: it accepts a tag, in constant time,
/// exactly if the tag is the code that `finalize` gives, byte for byte. A tag
/// of another length is refused.
#[verifier::external_body]
fn code_matches(key: &[u8], message: &[u8], tag: &[u8]) -> (same: bool)
    ensures
        same == (tag@ == hmac_sha256(key@, message@)),
{
    let mut mac = hmac::Hmac::<sha2::Sha256>::new_from_slice(key).expect("any key length is valid");
    mac.update(message);
    mac.verify_slice(tag).is_ok()
}

/// The lower-case hexadecimal digit of a number below sixteen.
pub open spec fn hex_digit(d: nat) -> char {
    if d < 10 {
        (('0' as u32) + d) as char
    } else {
        (('a' as u32) + d - 10) as char
    }
}

/// The number that a hexadecimal digit of either case stands for.
pub open spec fn hex_value(c: char) -> Option<nat> {
    if '0' <= c <= '9' {
        Some(((c as u32) - ('0' as u32)) as nat)
    } else if 'a' <= c <= 'f' {
        Some(((c as u32) - ('a' as u32) + 10) as nat)
    } else if 'A' <= c <= 'F' {
        Some(((c as u32) - ('A' as u32) + 10) as nat)
    } else {
        None
    }
}

/// Bytes written as lower-case hexadecimal, two digits for each.
pub open spec fn hex_text(bytes: Seq<u8>) -> Seq<char> {
    Seq::new(
        bytes.len() * 2,
        |i: int|
            if i % 2 == 0 {
                hex_digit((bytes[i / 2] / 16) as nat)
            } else {
                hex_digit((bytes[i / 2] % 16) as nat)
            },
    )
}

/// The bytes that a hexadecimal text stands for; none where its length is odd
/// or one of its characters is no digit.
pub open spec fn hex_bytes(s: Seq<char>) -> Option<Seq<u8>> {
    if s.len() % 2 == 0 && (forall|i: int| 0 <= i < s.len() ==> hex_value(#[trigger] s[i]) is Some) {
        Some(
            Seq::new(
                s.len() / 2,
                |i: int| (hex_value(s[2 * i])->0 * 16 + hex_value(s[2 * i + 1])->0) as u8,
            ),
        )
    } else {
        None
    }
}

/// `hex::encode`: two lower-case digits for each byte.
#[verifier::external_body]
fn encode_hex(bytes: &[u8]) -> (s: String)
    ensures
        s@ == hex_text(bytes@),
{
    hex::encode(bytes)
}

/// `hex::decode`: digits of either case, two for each byte; it fails on an odd
/// length and on any other character.
#[verifier::external_body]
fn decode_hex(s: &str) -> (bytes: Option<Vec<u8>>)
    ensures
        bytes is Some <==> hex_bytes(s@) is Some,
        bytes matches Some(b) ==> hex_bytes(s@) == Some(b@),
{
    hex::decode(s).ok()
}

/// The signature header value of a body under a secret.
pub open spec fn signature_of(secret: Seq<char>, body: Seq<u8>) -> Seq<char> {
    SIGNATURE_PREFIX@ + hex_text(hmac_sha256(encode_utf8(secret), body))
}

/// Whether a signature header vouches for a body: the prefix, then the
/// hexadecimal form, in either case, of the body's code under the secret.
pub open spec fn signature_accepted(secret: Seq<char>, body: Seq<u8>, header: Seq<char>) -> bool {
    &&& begins_with(header, SIGNATURE_PREFIX@)
    &&& hex_bytes(header.skip(SIGNATURE_PREFIX@.len() as int)) == Some(
        hmac_sha256(encode_utf8(secret), body),
    )
}

/// The code that a signature header claims: the bytes behind the prefix.
pub open spec fn claimed_code(header: Seq<char>) -> Option<Seq<u8>> {
    if begins_with(header, SIGNATURE_PREFIX@) {
        hex_bytes(header.skip(SIGNATURE_PREFIX@.len() as int))
    } else {
        None
    }
}

/// The code that a signature header claims.
pub fn read_header(signature_header: &str) -> (code: Option<Vec<u8>>)
    ensures
        code is Some <==> claimed_code(signature_header@) is Some,
        code matches Some(c) ==> claimed_code(signature_header@) == Some(c@),
{
    match strip_prefix(signature_header, SIGNATURE_PREFIX) {
        None => None,
        Some(hex_sig) => decode_hex(hex_sig.as_str()),
    }
}

/// Verify GitHub's `X-Hub-Signature-256` header (constant-time comparison)
/// against the raw request body. Must run before any JSON parsing.
pub fn verify_signature(secret: &str, body: &[u8], signature_header: &str) -> (valid: bool)
    ensures
        valid == signature_accepted(secret@, body@, signature_header@),
{
    match read_header(signature_header) {
        None => false,
        Some(sig) => code_matches(secret.as_bytes(), body, sig.as_slice()),
    }
}

/// The signature header of a code.
pub fn write_header(code: &[u8]) -> (header: String)
    ensures
        header@ == SIGNATURE_PREFIX@ + hex_text(code@),
{
    let digits = encode_hex(code);
    let mut header = String::from_str(SIGNATURE_PREFIX);
    header.append(digits.as_str());
    header
}

/// Compute the signature header value for a body.
pub fn sign(secret: &str, body: &[u8]) -> (header: String)
    ensures
        header@ == signature_of(secret@, body@),
        header@.len() == SIGNATURE_PREFIX@.len() + 64,
{
    let code = message_code(secret.as_bytes(), body);
    write_header(code.as_slice())
}

proof fn lemma_hex_digit_value(d: nat)
    requires
        d < 16,
    ensures
        hex_value(hex_digit(d)) == Some(d),
{
}

/// Reading hexadecimal undoes writing it.
pub proof fn law_hex_round_trip(bytes: Seq<u8>)
    ensures
        hex_bytes(hex_text(bytes)) == Some(bytes),
{
    let s = hex_text(bytes);
    assert forall|i: int| 0 <= i < s.len() implies hex_value(#[trigger] s[i]) is Some by {
        lemma_hex_digit_value((bytes[i / 2] / 16) as nat);
        lemma_hex_digit_value((bytes[i / 2] % 16) as nat);
    }
    let back = hex_bytes(s)->0;
    assert forall|i: int| 0 <= i < bytes.len() implies back[i] == bytes[i] by {
        lemma_hex_digit_value((bytes[i] / 16) as nat);
        lemma_hex_digit_value((bytes[i] % 16) as nat);
        assert((2 * i) / 2 == i && (2 * i) % 2 == 0);
        assert((2 * i + 1) / 2 == i && (2 * i + 1) % 2 == 1);
        assert(s[2 * i] == hex_digit((bytes[i] / 16) as nat));
        assert(s[2 * i + 1] == hex_digit((bytes[i] % 16) as nat));
    }
    assert(back =~= bytes);
}

/// A header made for one body and secret is accepted for another body and
/// secret exactly if both have the same code.
pub proof fn law_signature_binds_body_and_secret(
    secret: Seq<char>,
    body: Seq<u8>,
    other_secret: Seq<char>,
    other_body: Seq<u8>,
)
    ensures
        signature_accepted(other_secret, other_body, signature_of(secret, body)) <==> hmac_sha256(
            encode_utf8(other_secret),
            other_body,
        ) == hmac_sha256(encode_utf8(secret), body),
{
    let code = hmac_sha256(encode_utf8(secret), body);
    let header = signature_of(secret, body);
    let n = SIGNATURE_PREFIX@.len() as int;
    assert(header.take(n) =~= SIGNATURE_PREFIX@);
    assert(header.skip(n) =~= hex_text(code));
    law_hex_round_trip(code);
}

/// What `sign` makes, `verify_signature` accepts.
pub proof fn law_signed_body_is_accepted(secret: Seq<char>, body: Seq<u8>)
    ensures
        signature_accepted(secret, body, signature_of(secret, body)),
{
    law_signature_binds_body_and_secret(secret, body, secret, body);
}

#[derive(Debug)]
pub struct PullRequestEvent {
    pub action: String,
    pub number: u64,
    pub installation: Installation,
    pub repository: Repository,
}

#[derive(Debug)]
pub struct InstallationRepositoriesEvent {
    pub action: String,
    pub installation: Installation,
    pub repositories_added: Vec<RepositorySummary>,
    pub repositories_removed: Vec<RepositorySummary>,
}

#[derive(Debug)]
pub struct InstallationEvent {
    pub action: String,
    pub installation: Installation,
    pub repositories: Vec<RepositorySummary>,
}

#[derive(Debug)]
pub struct Installation {
    pub id: u64,
}

#[derive(Debug)]
pub struct Repository {
    pub name: String,
    pub owner: Owner,
}

#[derive(Debug)]
pub struct RepositorySummary {
    pub full_name: String,
}

#[derive(Debug)]
pub struct Owner {
    pub login: String,
}

/// The trigger of a webhook `action`; none for actions that are not triaged.
pub open spec fn action_trigger(action: Seq<char>) -> Option<TriageTrigger> {
    if action == "opened"@ {
        Some(TriageTrigger::Opened)
    } else if action == "reopened"@ {
        Some(TriageTrigger::Reopened)
    } else if action == "synchronize"@ {
        Some(TriageTrigger::Synchronized)
    } else {
        None
    }
}

impl PullRequestEvent {
    /// Map the webhook `action` to a triage trigger; None for actions we
    /// don't triage (closed, labeled, edited, ...).
    pub fn trigger(&self) -> (trigger: Option<TriageTrigger>)
        ensures
            trigger == action_trigger(self.action@),
    {
        let action = self.action.as_str();
        if same_text(action, "opened") {
            Some(TriageTrigger::Opened)
        } else if same_text(action, "reopened") {
            Some(TriageTrigger::Reopened)
        } else if same_text(action, "synchronize") {
            Some(TriageTrigger::Synchronized)
        } else {
            None
        }
    }
}

/// Whether two digits of a header stand for a byte: the first worth sixteen
/// times its value, the second its value.
pub open spec fn digits_stand_for(first: char, second: char, byte: u8) -> bool {
    &&& hex_value(first) is Some
    &&& hex_value(second) is Some
    &&& hex_value(first)->0 * 16 + hex_value(second)->0 == byte
}

/// A header that vouches for a body is the prefix followed by two digits for
/// each byte of the body's code.
pub proof fn law_an_accepted_header_spells_the_code(
    secret: Seq<char>,
    body: Seq<u8>,
    header: Seq<char>,
)
    requires
        signature_accepted(secret, body, header),
    ensures
        header.take(7) == "sha256="@,
        header.len() == 7 + 2 * hmac_sha256(encode_utf8(secret), body).len(),
        forall|i: int|
            0 <= i < hmac_sha256(encode_utf8(secret), body).len() ==> digits_stand_for(
                header[7 + 2 * i],
                header[8 + 2 * i],
                #[trigger] hmac_sha256(encode_utf8(secret), body)[i],
            ),
{
    let code = hmac_sha256(encode_utf8(secret), body);
    reveal_strlit("sha256=");
    let digits = header.skip(7);
    assert(hex_bytes(digits) == Some(code));
    assert forall|i: int| 0 <= i < code.len() implies digits_stand_for(
        header[7 + 2 * i],
        header[8 + 2 * i],
        #[trigger] code[i],
    ) by {
        let first = digits[2 * i];
        let second = digits[2 * i + 1];
        assert(first == header[7 + 2 * i] && second == header[8 + 2 * i]);
        assert(hex_value(first) is Some && hex_value(second) is Some);
        assert(code[i] == (hex_value(first)->0 * 16 + hex_value(second)->0) as u8);
    }
}

/// The prefix followed by two digits for each byte of a body's code, in either
/// case, vouches for the body.
pub proof fn law_a_header_that_spells_the_code_is_accepted(
    secret: Seq<char>,
    body: Seq<u8>,
    header: Seq<char>,
)
    requires
        header.len() == 7 + 2 * hmac_sha256(encode_utf8(secret), body).len(),
        header.take(7) == "sha256="@,
        forall|i: int|
            0 <= i < hmac_sha256(encode_utf8(secret), body).len() ==> digits_stand_for(
                header[7 + 2 * i],
                header[8 + 2 * i],
                #[trigger] hmac_sha256(encode_utf8(secret), body)[i],
            ),
    ensures
        signature_accepted(secret, body, header),
{
    let code = hmac_sha256(encode_utf8(secret), body);
    reveal_strlit("sha256=");
    let digits = header.skip(7);
    assert forall|k: int| 0 <= k < digits.len() implies hex_value(#[trigger] digits[k]) is Some by {
        let b = code[k / 2];
        assert(digits_stand_for(header[7 + 2 * (k / 2)], header[8 + 2 * (k / 2)], b));
        if k % 2 == 0 {
            assert(digits[k] == header[7 + 2 * (k / 2)]);
        } else {
            assert(digits[k] == header[8 + 2 * (k / 2)]);
        }
    }
    assert forall|i: int| 0 <= i < code.len() implies (hex_bytes(digits)->0)[i] == code[i] by {
        assert(digits[2 * i] == header[7 + 2 * i]);
        assert(digits[2 * i + 1] == header[8 + 2 * i]);
        assert(digits_stand_for(digits[2 * i], digits[2 * i + 1], code[i]));
    }
    assert(hex_bytes(digits)->0 =~= code);
}

/// A digit's value: the figures and the letters of either case, each one more
/// than the one before it.
pub proof fn law_hex_digits_have_their_values(c: char)
    ensures
        hex_value(c) matches Some(v) ==> v < 16,
        hex_value(c) is Some <==> ('0' <= c <= '9' || 'a' <= c <= 'f' || 'A' <= c <= 'F'),
        hex_value('0') == Some(0nat),
        hex_value('9') == Some(9nat),
        hex_value('a') == Some(10nat),
        hex_value('A') == Some(10nat),
        hex_value('f') == Some(15nat),
        hex_value('F') == Some(15nat),
{
}

/// Only three actions are triaged, each under its own trigger.
pub proof fn law_each_action_has_its_trigger(action: Seq<char>)
    ensures
        action_trigger(action) == Some(TriageTrigger::Opened) <==> action == "opened"@,
        action_trigger(action) == Some(TriageTrigger::Reopened) <==> action == "reopened"@,
        action_trigger(action) == Some(TriageTrigger::Synchronized) <==> action == "synchronize"@,
        action_trigger(action) is None <==> action != "opened"@ && action != "reopened"@ && action
            != "synchronize"@,
{
    reveal_strlit("opened");
    reveal_strlit("reopened");
    reveal_strlit("synchronize");
    assert("opened"@.len() == 6 && "reopened"@.len() == 8 && "synchronize"@.len() == 11);
}

} // verus!
