//! GitHub: App authentication, PR data, and triage actions, as decisions over
//! what the API answers.

use vstd::prelude::*;

use crate::agent::{after_reply, started, AgentEventView, AgentOutcomeView, TriageAgentView};
use crate::config::RepoConfigView;
use crate::error::{host_err, with_context, TriageError, TriageErrorView};
use crate::json::{array_at, int_at, member, text_at, Json, JsonView, Member};
use crate::pr::{
    ChangedFile, ChangedFileView, CheckConclusion, CheckRun, CheckRunView, PullRequestRef,
    PullRequestRefView, PullRequestSnapshot, PullRequestSnapshotView,
};
use crate::text::{
    begins_with, clipped, clone_option, decimal, law_clipped_is_the_longest_fitting_prefix,
    lemma_clipped_whole, lemma_views_push, option_view, push_decimal, same_text, starts_with,
    truncate_to_budget, utf8_len, views,
};
use crate::time::{elapsed, InstantView, NANOS_PER_SEC};
use crate::triage::TriageTrigger;

verus! {

/// Marker identifying the sticky triage comment across updates.
pub const COMMENT_MARKER: &'static str = "<!-- scaffold-ai:triage -->";

/// Byte cap on the fetched diff; beyond this the snapshot is marked truncated.
pub const DIFF_BYTE_BUDGET: usize = 300_000;

pub struct GithubConfig {
    pub app_id: u64,
    /// PEM-encoded RSA private key for the GitHub App.
    pub private_key_pem: String,
    /// Override for tests; None means api.github.com.
    pub base_url: Option<String>,
}

impl Clone for GithubConfig {
    fn clone(&self) -> (copy: Self)
        ensures
            copy.app_id == self.app_id,
            copy.private_key_pem@ == self.private_key_pem@,
            option_view(copy.base_url) == option_view(self.base_url),
    {
        GithubConfig {
            app_id: self.app_id,
            private_key_pem: self.private_key_pem.clone(),
            base_url: clone_option(&self.base_url),
        }
    }
}

/// `jsonwebtoken::EncodingKey`: a key to sign with.
#[verifier::external_type_specification]
#[verifier::external_body]
pub struct ExEncodingKey(jsonwebtoken::EncodingKey);

/// The RSA key that `jsonwebtoken` reads from a text in PEM, or how its error
/// reads where it refuses the text.
pub uninterp spec fn rsa_pem_key(pem: Seq<char>) -> Result<jsonwebtoken::EncodingKey, Seq<char>>;

/// A key, or the text of its refusal.
pub open spec fn key_view(key: Result<jsonwebtoken::EncodingKey, String>) -> Result<
    jsonwebtoken::EncodingKey,
    Seq<char>,
> {
    match key {
        Ok(k) => Ok(k),
        Err(e) => Err(e@),
    }
}

/// `jsonwebtoken::EncodingKey::from_rsa_pem`. Whether it accepts the text, the
/// key that it makes of it, and how its error reads are functions of the text
/// alone, here only named.
#[verifier::external_body]
fn rsa_key(pem: &str) -> (key: Result<jsonwebtoken::EncodingKey, String>)
    ensures
        key_view(key) == rsa_pem_key(pem@),
{
    jsonwebtoken::EncodingKey::from_rsa_pem(pem.as_bytes()).map_err(|e| e.to_string())
}

impl GithubConfig {
    /// The key that the App signs its tokens with: the one of the configured
    /// PEM.
    pub fn encoding_key(&self) -> (key: Result<jsonwebtoken::EncodingKey, TriageError>)
        ensures
            key is Ok <==> rsa_pem_key(self.private_key_pem@) is Ok,
            key matches Ok(k) ==> k == rsa_pem_key(self.private_key_pem@)->Ok_0,
            key matches Err(e) ==> e@ == key_error(rsa_pem_key(self.private_key_pem@)->Err_0),
    {
        key_or_error(rsa_key(self.private_key_pem.as_str()))
    }
}

/// The error of a key that is refused.
pub open spec fn key_error(refusal: Seq<char>) -> TriageErrorView {
    TriageErrorView::Host(with_context("invalid GitHub App private key"@, refusal))
}

/// A key, or the error that says why it is none.
pub fn key_or_error<T>(key: Result<T, String>) -> (k: Result<T, TriageError>)
    ensures
        k is Ok <==> key is Ok,
        k matches Ok(v) ==> key == Ok::<T, String>(v),
        k matches Err(e) ==> e@ == key_error(key->Err_0@),
{
    host_call("invalid GitHub App private key", key)
}

/// The result of a call to the host, its error with what was being done.
pub fn host_call<T>(context: &str, result: Result<T, String>) -> (r: Result<T, TriageError>)
    ensures
        r is Ok <==> result is Ok,
        r matches Ok(v) ==> result == Ok::<T, String>(v),
        r matches Err(e) ==> e@ == TriageErrorView::Host(with_context(context@, result->Err_0@)),
{
    match result {
        Ok(v) => Ok(v),
        Err(e) => Err(host_err(context, e.as_str())),
    }
}

/// A host error in a context.
pub open spec fn host_error(context: Seq<char>, e: Seq<char>) -> TriageErrorView {
    TriageErrorView::Host(with_context(context, e))
}

/// The text of an item, or another where there is none.
pub open spec fn text_or(item: Option<Seq<char>>, other: Seq<char>) -> Seq<char> {
    match item {
        Some(s) => s,
        None => other,
    }
}

fn text_at_or(value: &Json, key: &str, other: &str) -> (s: String)
    ensures
        s@ == text_or(text_at(value@, key@), other@),
{
    match value.text_at(key) {
        Some(s) => String::from_str(s),
        None => String::from_str(other),
    }
}

/// One recorded webhook delivery attempt, for diagnostics.
#[derive(Debug)]
pub struct DeliverySummary {
    pub event: String,
    pub guid: String,
    pub action: String,
    pub status: String,
    pub status_code: i64,
    pub delivered_at: String,
}

/// A summary's model.
pub struct DeliverySummaryView {
    pub event: Seq<char>,
    pub guid: Seq<char>,
    pub action: Seq<char>,
    pub status: Seq<char>,
    pub status_code: i64,
    pub delivered_at: Seq<char>,
}

impl View for DeliverySummary {
    type V = DeliverySummaryView;

    open spec fn view(&self) -> DeliverySummaryView {
        DeliverySummaryView {
            event: self.event@,
            guid: self.guid@,
            action: self.action@,
            status: self.status@,
            status_code: self.status_code,
            delivered_at: self.delivered_at@,
        }
    }
}

/// The summary of one delivery; what it lacks is marked.
pub open spec fn delivery_of(d: JsonView) -> DeliverySummaryView {
    DeliverySummaryView {
        event: text_or(text_at(d, "event"@), "?"@),
        guid: text_or(text_at(d, "guid"@), "?"@),
        action: text_or(text_at(d, "action"@), "-"@),
        status: text_or(text_at(d, "status"@), "?"@),
        status_code: match int_at(d, "status_code"@) {
            Some(n) => n,
            None => 0,
        },
        delivered_at: text_or(text_at(d, "delivered_at"@), "?"@),
    }
}

/// The summaries of a list of deliveries; none where the value is no list.
pub open spec fn deliveries_of(value: JsonView) -> Seq<DeliverySummaryView> {
    match value {
        JsonView::Array(items) => items.map_values(|d: JsonView| delivery_of(d)),
        _ => Seq::empty(),
    }
}

/// Summarises recent deliveries.
pub fn delivery_summaries(value: &Json) -> (list: Vec<DeliverySummary>)
    ensures
        views(list@) == deliveries_of(value@),
{
    let mut list: Vec<DeliverySummary> = Vec::new();
    proof {
        assert(views(list@) =~= Seq::<DeliverySummaryView>::empty());
    }
    let items = match value {
        Json::Array(items) => items,
        _ => {
            return list;
        },
    };
    let ghost all = views(items@).map_values(|d: JsonView| delivery_of(d));
    proof {
        crate::json::lemma_items_view(items@);
        assert(views(list@) =~= all.take(0));
    }
    let mut i: usize = 0;
    while i < items.len()
        invariant
            all == views(items@).map_values(|d: JsonView| delivery_of(d)),
            i <= items@.len(),
            views(list@) == all.take(i as int),
        decreases items.len() - i,
    {
        let d = &items[i];
        let item = DeliverySummary {
            event: text_at_or(d, "event", "?"),
            guid: text_at_or(d, "guid", "?"),
            action: text_at_or(d, "action", "-"),
            status: text_at_or(d, "status", "?"),
            status_code: match d.int_at("status_code") {
                Some(n) => n,
                None => 0,
            },
            delivered_at: text_at_or(d, "delivered_at", "?"),
        };
        proof {
            lemma_views_push(list@, item);
            assert(all.take(i + 1) =~= all.take(i as int).push(item@));
        }
        list.push(item);
        i = i + 1;
    }
    proof {
        assert(all.take(all.len() as int) =~= all);
    }
    list
}

/// The webhook URL of the App's hook configuration. The configuration's
/// `secret` is deliberately never read.
pub fn hook_url(reply: Result<Json, String>) -> (url: Result<String, TriageError>)
    ensures
        url is Ok <==> reply is Ok,
        url matches Ok(u) ==> u@ == text_or(text_at(reply->Ok_0@, "url"@), "(none)"@),
        url matches Err(e) ==> e@ == host_error("GET /app/hook/config"@, reply->Err_0@),
{
    match reply {
        Ok(hook) => Ok(text_at_or(&hook, "url", "(none)")),
        Err(e) => Err(host_err("GET /app/hook/config", e.as_str())),
    }
}

/// The App's webhook URL and the outcomes of recent deliveries, as the two
/// endpoints answer; the first error counts.
pub fn webhook_diagnostics(
    hook: Result<Json, String>,
    deliveries: Result<Json, String>,
) -> (report: Result<(String, Vec<DeliverySummary>), TriageError>)
    ensures
        report is Ok <==> hook is Ok && deliveries is Ok,
        report matches Ok(r) ==> r.0@ == text_or(text_at(hook->Ok_0@, "url"@), "(none)"@) && views(
            r.1@,
        ) == deliveries_of(deliveries->Ok_0@),
        report matches Err(e) ==> e@ == (match hook {
            Err(h) => host_error("GET /app/hook/config"@, h@),
            Ok(_) => host_error("GET /app/hook/deliveries"@, deliveries->Err_0@),
        }),
{
    let url = match hook_url(hook) {
        Ok(url) => url,
        Err(e) => {
            return Err(e);
        },
    };
    match deliveries {
        Ok(value) => Ok((url, delivery_summaries(&value))),
        Err(e) => Err(host_err("GET /app/hook/deliveries", e.as_str())),
    }
}

/// What is sent to change the webhook URL: only the URL, so that the secret and
/// the rest of the configuration stay as they are.
pub fn webhook_url_patch(url: &str) -> (body: Json)
    ensures
        body@ == JsonView::Object(seq![member("url"@, JsonView::Str(url@))]),
{
    let members = vec![Member::new("url", Json::str(url))];
    proof {
        assert(views(members@) =~= seq![member("url"@, JsonView::Str(url@))]);
    }
    Json::object(members)
}

/// The outcome of changing the webhook URL.
pub fn set_webhook_url(reply: Result<Json, String>) -> (done: Result<(), TriageError>)
    ensures
        done is Ok <==> reply is Ok,
        done matches Err(e) ==> e@ == host_error("PATCH /app/hook/config"@, reply->Err_0@),
{
    match reply {
        Ok(_) => Ok(()),
        Err(e) => Err(host_err("PATCH /app/hook/config", e.as_str())),
    }
}

/// Result of a live App-auth verification. Carries no secret material —
/// only installation identity and the minted token's expiry.
#[derive(Debug)]
pub struct AuthCheckReport {
    /// (installation id, account login) for every installation of the App.
    pub installations: Vec<(u64, String)>,
    /// The installation the token was minted for.
    pub installation_id_used: u64,
    pub token_expires_at: Option<String>,
    /// full_name of every repo the installation can access.
    pub accessible_repos: Vec<String>,
}

/// A report's model.
pub struct AuthCheckReportView {
    pub installations: Seq<(u64, Seq<char>)>,
    pub installation_id_used: u64,
    pub token_expires_at: Option<Seq<char>>,
    pub accessible_repos: Seq<Seq<char>>,
}

impl View for AuthCheckReport {
    type V = AuthCheckReportView;

    open spec fn view(&self) -> AuthCheckReportView {
        AuthCheckReportView {
            installations: views(self.installations@),
            installation_id_used: self.installation_id_used,
            token_expires_at: option_view(self.token_expires_at),
            accessible_repos: views(self.accessible_repos@),
        }
    }
}

/// The full names of a list of repos; one without a name is left out.
pub open spec fn full_names(items: Seq<JsonView>) -> Seq<Seq<char>>
    decreases items.len(),
{
    if items.len() == 0 {
        Seq::empty()
    } else {
        let rest = full_names(items.drop_last());
        match text_at(items.last(), "full_name"@) {
            Some(name) => rest.push(name),
            None => rest,
        }
    }
}

/// The full names of the repos that an answer lists.
pub open spec fn repos_of(value: JsonView) -> Seq<Seq<char>> {
    match array_at(value, "repositories"@) {
        Some(items) => full_names(items),
        None => Seq::empty(),
    }
}

/// The repos that an installation can access.
pub fn accessible_repos(value: &Json) -> (names: Vec<String>)
    ensures
        views(names@) == repos_of(value@),
{
    let mut names: Vec<String> = Vec::new();
    proof {
        assert(views(names@) =~= Seq::<Seq<char>>::empty());
    }
    let items = match value.array_at("repositories") {
        Some(items) => items,
        None => {
            return names;
        },
    };
    let ghost all = views(items@);
    let mut i: usize = 0;
    while i < items.len()
        invariant
            all == views(items@),
            i <= items@.len(),
            views(names@) == full_names(all.take(i as int)),
        decreases items.len() - i,
    {
        proof {
            assert(all.take(i + 1).drop_last() =~= all.take(i as int));
        }
        if let Some(name) = items[i].text_at("full_name") {
            let name = String::from_str(name);
            proof {
                lemma_views_push(names@, name);
            }
            names.push(name);
        }
        i = i + 1;
    }
    proof {
        assert(all.take(all.len() as int) =~= all);
    }
    names
}

/// A check of the auth chain — private key, JWT, installation access token. The
/// token itself never gets here.
#[derive(Debug)]
pub enum AuthCheck {
    /// List the App's installations.
    ListInstallations { installation_override: Option<u64> },
    /// Mint a token for an installation.
    MintToken { installations: Vec<(u64, String)>, installation_id: u64 },
    /// List the repos that the installation can access.
    ListRepositories {
        installations: Vec<(u64, String)>,
        installation_id: u64,
        token_expires_at: Option<String>,
    },
    Done(Result<AuthCheckReport, TriageError>),
}

/// The model of an auth check.
pub enum AuthCheckView {
    ListInstallations { installation_override: Option<u64> },
    MintToken { installations: Seq<(u64, Seq<char>)>, installation_id: u64 },
    ListRepositories {
        installations: Seq<(u64, Seq<char>)>,
        installation_id: u64,
        token_expires_at: Option<Seq<char>>,
    },
    Done(Result<AuthCheckReportView, TriageErrorView>),
}

impl View for AuthCheck {
    type V = AuthCheckView;

    open spec fn view(&self) -> AuthCheckView {
        match self {
            AuthCheck::ListInstallations { installation_override } =>
            AuthCheckView::ListInstallations { installation_override: *installation_override },
            AuthCheck::MintToken { installations, installation_id } => AuthCheckView::MintToken {
                installations: views(installations@),
                installation_id: *installation_id,
            },
            AuthCheck::ListRepositories { installations, installation_id, token_expires_at } =>
            AuthCheckView::ListRepositories {
                installations: views(installations@),
                installation_id: *installation_id,
                token_expires_at: option_view(*token_expires_at),
            },
            AuthCheck::Done(Ok(report)) => AuthCheckView::Done(Ok(report@)),
            AuthCheck::Done(Err(e)) => AuthCheckView::Done(Err(e@)),
        }
    }
}

/// The reply to a call of an auth check.
#[derive(Debug)]
pub enum AuthReply {
    Installations(Result<Vec<(u64, String)>, String>),
    /// The expiry of the token.
    Token(Result<Option<String>, String>),
    /// No client could be made for the installation.
    NoClient(String),
    Repositories(Result<Json, String>),
}

/// The error of an App that is installed nowhere.
pub open spec fn no_installations() -> TriageErrorView {
    TriageErrorView::Host(
        "JWT accepted, but the App has no installations — install it on a repo first"@,
    )
}

/// The auth check after a reply; a reply to another call changes nothing.
pub open spec fn after_auth(check: AuthCheckView, reply: AuthReply) -> AuthCheckView {
    match (check, reply) {
        (
            AuthCheckView::ListInstallations { installation_override },
            AuthReply::Installations(r),
        ) => match r {
            Err(e) => AuthCheckView::Done(
                Err(host_error("GET /app/installations (JWT rejected or App ID wrong?)"@, e@)),
            ),
            Ok(list) => if list@.len() == 0 {
                AuthCheckView::Done(Err(no_installations()))
            } else {
                AuthCheckView::MintToken {
                    installations: views(list@),
                    installation_id: match installation_override {
                        Some(id) => id,
                        None => list@[0].0,
                    },
                }
            },
        },
        (AuthCheckView::MintToken { installations, installation_id }, AuthReply::Token(r)) =>
        match r {
            Err(e) => AuthCheckView::Done(Err(host_error("minting installation token"@, e@))),
            Ok(expires) => AuthCheckView::ListRepositories {
                installations,
                installation_id,
                token_expires_at: option_view(expires),
            },
        },
        (AuthCheckView::ListRepositories { .. }, AuthReply::NoClient(e)) => AuthCheckView::Done(
            Err(host_error("installation client"@, e@)),
        ),
        (
            AuthCheckView::ListRepositories { installations, installation_id, token_expires_at },
            AuthReply::Repositories(r),
        ) => match r {
            Err(e) => AuthCheckView::Done(Err(host_error("GET /installation/repositories"@, e@))),
            Ok(value) => AuthCheckView::Done(
                Ok(
                    AuthCheckReportView {
                        installations,
                        installation_id_used: installation_id,
                        token_expires_at,
                        accessible_repos: repos_of(value@),
                    },
                ),
            ),
        },
        _ => check,
    }
}

impl AuthCheck {
    /// A check for one installation, or for the first where none is given.
    pub fn check_app_auth(installation_override: Option<u64>) -> (check: Self)
        ensures
            check@ == (AuthCheckView::ListInstallations { installation_override }),
    {
        AuthCheck::ListInstallations { installation_override }
    }

    /// Takes in the reply to the call that this state asks for.
    pub fn step(self, reply: AuthReply) -> (next: Self)
        ensures
            next@ == after_auth(self@, reply),
    {
        match (self, reply) {
            (
                AuthCheck::ListInstallations { installation_override },
                AuthReply::Installations(r),
            ) => match r {
                Err(e) => AuthCheck::Done(
                    Err(
                        host_err(
                            "GET /app/installations (JWT rejected or App ID wrong?)",
                            e.as_str(),
                        ),
                    ),
                ),
                Ok(installations) => if installations.is_empty() {
                    AuthCheck::Done(
                        Err(
                            TriageError::Host(
                                String::from_str(
                                    "JWT accepted, but the App has no installations — install it on a repo first",
                                ),
                            ),
                        ),
                    )
                } else {
                    let installation_id: u64 = match installation_override {
                        Some(id) => id,
                        None => installations[0].0,
                    };
                    AuthCheck::MintToken { installations, installation_id }
                },
            },
            (AuthCheck::MintToken { installations, installation_id }, AuthReply::Token(r)) =>
            match r {
                Err(e) => AuthCheck::Done(
                    Err(host_err("minting installation token", e.as_str())),
                ),
                Ok(token_expires_at) => AuthCheck::ListRepositories {
                    installations,
                    installation_id,
                    token_expires_at,
                },
            },
            (AuthCheck::ListRepositories { .. }, AuthReply::NoClient(e)) => AuthCheck::Done(
                Err(host_err("installation client", e.as_str())),
            ),
            (
                AuthCheck::ListRepositories { installations, installation_id, token_expires_at },
                AuthReply::Repositories(r),
            ) => match r {
                Err(e) => AuthCheck::Done(
                    Err(host_err("GET /installation/repositories", e.as_str())),
                ),
                Ok(value) => AuthCheck::Done(
                    Ok(
                        AuthCheckReport {
                            installations,
                            installation_id_used: installation_id,
                            token_expires_at,
                            accessible_repos: accessible_repos(&value),
                        },
                    ),
                ),
            },
            (check, _) => check,
        }
    }
}

/// Where a token for an installation is minted.
pub fn token_path(installation_id: u64) -> (path: String)
    ensures
        path@ == "/app/installations/"@ + decimal(installation_id as nat) + "/access_tokens"@,
{
    let mut path = String::from_str("/app/installations/");
    push_decimal(&mut path, installation_id);
    path.append("/access_tokens");
    path
}

/// The conclusion that a text stands for; any other, or none, is pending.
pub open spec fn conclusion_of(conclusion: Option<Seq<char>>) -> CheckConclusion {
    match conclusion {
        None => CheckConclusion::Pending,
        Some(c) => if c == "success"@ {
            CheckConclusion::Success
        } else if c == "failure"@ {
            CheckConclusion::Failure
        } else if c == "neutral"@ {
            CheckConclusion::Neutral
        } else if c == "cancelled"@ {
            CheckConclusion::Cancelled
        } else if c == "timed_out"@ {
            CheckConclusion::TimedOut
        } else if c == "action_required"@ {
            CheckConclusion::ActionRequired
        } else if c == "skipped"@ {
            CheckConclusion::Skipped
        } else {
            CheckConclusion::Pending
        },
    }
}

/// The conclusion of a check run, whatever its status.
pub fn map_check_conclusion(_status: &str, conclusion: &Option<String>) -> (c: CheckConclusion)
    ensures
        c == conclusion_of(option_view(*conclusion)),
{
    let text = match conclusion {
        None => {
            return CheckConclusion::Pending;
        },
        Some(text) => text.as_str(),
    };
    if same_text(text, "success") {
        CheckConclusion::Success
    } else if same_text(text, "failure") {
        CheckConclusion::Failure
    } else if same_text(text, "neutral") {
        CheckConclusion::Neutral
    } else if same_text(text, "cancelled") {
        CheckConclusion::Cancelled
    } else if same_text(text, "timed_out") {
        CheckConclusion::TimedOut
    } else if same_text(text, "action_required") {
        CheckConclusion::ActionRequired
    } else if same_text(text, "skipped") {
        CheckConclusion::Skipped
    } else {
        CheckConclusion::Pending
    }
}

/// What the pull request endpoint answers.
#[derive(Debug)]
pub struct PullRequestDetails {
    pub title: Option<String>,
    pub body: Option<String>,
    pub author: Option<String>,
    pub base_branch: String,
    pub head_branch: String,
    pub head_sha: String,
    pub draft: Option<bool>,
    pub mergeable: Option<bool>,
}

/// A file as the files endpoint answers it: its status is the name of GitHub's
/// variant.
#[derive(Debug)]
pub struct FileEntry {
    pub filename: String,
    pub additions: u64,
    pub deletions: u64,
    pub status: String,
}

/// A check run as the checks endpoint answers it.
#[derive(Debug)]
pub struct CheckEntry {
    pub name: String,
    pub conclusion: Option<String>,
}

/// A text in lower case.
pub uninterp spec fn lower_case(s: Seq<char>) -> Seq<char>;

/// The lower case of an ASCII letter; any other character as it is.
pub open spec fn ascii_lower(c: char) -> char {
    if 'A' <= c <= 'Z' {
        ((c as u32) + 32) as char
    } else {
        c
    }
}

/// `str::to_lowercase`. The result is a function of the characters; on ASCII
/// text it is the text with its capital letters made small.
#[verifier::external_body]
fn to_lower_case(s: &str) -> (lower: String)
    ensures
        lower@ == lower_case(s@),
        is_ascii_text(s@) ==> lower@ == s@.map_values(|c: char| ascii_lower(c)),
{
    s.to_lowercase()
}

/// A changed file of a snapshot, from an entry and its status.
pub fn entry_with_status(f: FileEntry, status: String) -> (file: ChangedFile)
    ensures
        file@ == (ChangedFileView {
            path: f.filename@,
            additions: f.additions,
            deletions: f.deletions,
            status: status@,
        }),
{
    ChangedFile { path: f.filename, additions: f.additions, deletions: f.deletions, status }
}

/// A changed file of a snapshot.
pub open spec fn changed_file(f: FileEntry) -> ChangedFileView {
    ChangedFileView {
        path: f.filename@,
        additions: f.additions,
        deletions: f.deletions,
        status: lower_case(f.status@),
    }
}

/// Whether a text is all ASCII.
pub open spec fn is_ascii_text(s: Seq<char>) -> bool {
    forall|i: int| 0 <= i < s.len() ==> (#[trigger] s[i] as u32) < 128
}

/// Whether each file that has a status in ASCII has it with small letters.
pub open spec fn statuses_lowered(files: Seq<FileEntry>, list: Seq<ChangedFileView>) -> bool {
    &&& files.len() == list.len()
    &&& forall|i: int|
        0 <= i < files.len() && is_ascii_text((#[trigger] files[i]).status@) ==> list[i].status
            == files[i].status@.map_values(|c: char| ascii_lower(c))
}

/// The changed files of a snapshot.
pub fn changed_files(files: Vec<FileEntry>) -> (list: Vec<ChangedFile>)
    ensures
        views(list@) == files@.map_values(|f: FileEntry| changed_file(f)),
        statuses_lowered(files@, views(list@)),
{
    let ghost all = files@.map_values(|f: FileEntry| changed_file(f));
    let mut list: Vec<ChangedFile> = Vec::new();
    proof {
        assert(views(list@) =~= all.take(0));
    }
    for f in iter: files
        invariant
            iter.seq() == files@,
            all == iter.seq().map_values(|f: FileEntry| changed_file(f)),
            views(list@) == all.take(iter.index()),
            statuses_lowered(files@.take(iter.index()), views(list@)),
    {
        let status = to_lower_case(f.status.as_str());
        let item = entry_with_status(f, status);
        proof {
            lemma_views_push(list@, item);
            assert(all.take(iter.index() + 1) =~= all.take(iter.index()).push(item@));
            assert(files@.take(iter.index() + 1) =~= files@.take(iter.index()).push(f));
        }
        list.push(item);
    }
    proof {
        assert(all.take(all.len() as int) =~= all);
        assert(files@.take(files@.len() as int) =~= files@);
    }
    list
}

/// A check of a snapshot.
pub open spec fn check_of(c: CheckEntry) -> CheckRunView {
    CheckRunView { name: c.name@, conclusion: conclusion_of(option_view(c.conclusion)) }
}

/// The checks of a snapshot; none where they are unavailable.
pub open spec fn checks_of(checks: Result<Vec<CheckEntry>, String>) -> Seq<CheckRunView> {
    match checks {
        Ok(list) => list@.map_values(|c: CheckEntry| check_of(c)),
        Err(_) => Seq::empty(),
    }
}

/// The checks of a snapshot. They can be unavailable (no CI configured); that
/// degrades quietly.
pub fn check_runs(checks: Result<Vec<CheckEntry>, String>) -> (list: Vec<CheckRun>)
    ensures
        views(list@) == checks_of(checks),
{
    let mut list: Vec<CheckRun> = Vec::new();
    proof {
        assert(views(list@) =~= Seq::<CheckRunView>::empty());
    }
    let entries = match checks {
        Ok(entries) => entries,
        Err(_) => {
            return list;
        },
    };
    let ghost all = entries@.map_values(|c: CheckEntry| check_of(c));
    proof {
        assert(views(list@) =~= all.take(0));
    }
    for c in iter: entries
        invariant
            all == iter.seq().map_values(|c: CheckEntry| check_of(c)),
            views(list@) == all.take(iter.index()),
    {
        let conclusion = map_check_conclusion("", &c.conclusion);
        let item = CheckRun { name: c.name, conclusion };
        proof {
            lemma_views_push(list@, item);
            assert(all.take(iter.index() + 1) =~= all.take(iter.index()).push(item@));
        }
        list.push(item);
    }
    proof {
        assert(all.take(all.len() as int) =~= all);
    }
    list
}

/// The snapshot of what the endpoints answered.
pub open spec fn snapshot_of(
    pr: PullRequestRefView,
    details: PullRequestDetails,
    diff: Seq<char>,
    files: Seq<FileEntry>,
    checks: Result<Vec<CheckEntry>, String>,
) -> PullRequestSnapshotView {
    PullRequestSnapshotView {
        pr,
        title: text_or(option_view(details.title), Seq::empty()),
        body: text_or(option_view(details.body), Seq::empty()),
        author: text_or(option_view(details.author), Seq::empty()),
        base_branch: details.base_branch@,
        head_branch: details.head_branch@,
        head_sha: details.head_sha@,
        draft: details.draft == Some(true),
        mergeable: details.mergeable,
        diff: clipped(diff, DIFF_BYTE_BUDGET as int),
        diff_truncated: utf8_len(diff) > DIFF_BYTE_BUDGET,
        changed_files: files.map_values(|f: FileEntry| changed_file(f)),
        checks: checks_of(checks),
    }
}

fn or_empty(item: Option<String>) -> (s: String)
    ensures
        s@ == text_or(option_view(item), Seq::empty()),
{
    match item {
        Some(s) => s,
        None => String::new(),
    }
}

/// The snapshot of a pull request.
pub fn assemble_snapshot(
    pr: PullRequestRef,
    details: PullRequestDetails,
    diff: String,
    files: Vec<FileEntry>,
    checks: Result<Vec<CheckEntry>, String>,
) -> (s: PullRequestSnapshot)
    ensures
        s@ == snapshot_of(pr@, details, diff@, files@, checks),
        statuses_lowered(files@, s@.changed_files),
        s@.draft <==> details.draft == Some(true),
        s@.mergeable == details.mergeable,
{
    let diff_truncated = diff.as_str().as_bytes().len() > DIFF_BYTE_BUDGET;
    let kept = String::from_str(truncate_to_budget(diff.as_str(), DIFF_BYTE_BUDGET));
    PullRequestSnapshot {
        pr,
        title: or_empty(details.title),
        body: or_empty(details.body),
        author: or_empty(details.author),
        base_branch: details.base_branch,
        head_branch: details.head_branch,
        head_sha: details.head_sha,
        draft: match details.draft {
            Some(d) => d,
            None => false,
        },
        mergeable: details.mergeable,
        diff: kept,
        diff_truncated,
        changed_files: changed_files(files),
        checks: check_runs(checks),
    }
}

/// The fetch of a pull request: one call after the other, stopped by the first
/// error.
#[derive(Debug)]
pub enum SnapshotFetch {
    /// Ask for the pull request.
    Details { pr: PullRequestRef },
    /// Ask for its diff.
    Diff { pr: PullRequestRef, details: PullRequestDetails },
    /// Ask for its changed files.
    Files { pr: PullRequestRef, details: PullRequestDetails, diff: String },
    /// Ask for the check runs of its head.
    Checks {
        pr: PullRequestRef,
        details: PullRequestDetails,
        diff: String,
        files: Vec<FileEntry>,
    },
    Done(Result<PullRequestSnapshot, TriageError>),
}

/// The model of a fetch.
pub enum SnapshotFetchView {
    Details { pr: PullRequestRefView },
    Diff { pr: PullRequestRefView, details: PullRequestDetails },
    Files { pr: PullRequestRefView, details: PullRequestDetails, diff: Seq<char> },
    Checks {
        pr: PullRequestRefView,
        details: PullRequestDetails,
        diff: Seq<char>,
        files: Seq<FileEntry>,
    },
    Done(Result<PullRequestSnapshotView, TriageErrorView>),
}

impl View for SnapshotFetch {
    type V = SnapshotFetchView;

    open spec fn view(&self) -> SnapshotFetchView {
        match self {
            SnapshotFetch::Details { pr } => SnapshotFetchView::Details { pr: pr@ },
            SnapshotFetch::Diff { pr, details } => SnapshotFetchView::Diff {
                pr: pr@,
                details: *details,
            },
            SnapshotFetch::Files { pr, details, diff } => SnapshotFetchView::Files {
                pr: pr@,
                details: *details,
                diff: diff@,
            },
            SnapshotFetch::Checks { pr, details, diff, files } => SnapshotFetchView::Checks {
                pr: pr@,
                details: *details,
                diff: diff@,
                files: files@,
            },
            SnapshotFetch::Done(Ok(snapshot)) => SnapshotFetchView::Done(Ok(snapshot@)),
            SnapshotFetch::Done(Err(e)) => SnapshotFetchView::Done(Err(e@)),
        }
    }
}

/// The reply to a call of a fetch.
#[derive(Debug)]
pub enum FetchReply {
    Details(Result<PullRequestDetails, String>),
    Diff(Result<String, String>),
    Files(Result<Vec<FileEntry>, String>),
    Checks(Result<Vec<CheckEntry>, String>),
}

/// The fetch after a reply; a reply to another call changes nothing.
pub open spec fn after_fetch(fetch: SnapshotFetchView, reply: FetchReply) -> SnapshotFetchView {
    match (fetch, reply) {
        (SnapshotFetchView::Details { pr }, FetchReply::Details(r)) => match r {
            Err(e) => SnapshotFetchView::Done(Err(host_error("fetch PR"@, e@))),
            Ok(details) => SnapshotFetchView::Diff { pr, details },
        },
        (SnapshotFetchView::Diff { pr, details }, FetchReply::Diff(r)) => match r {
            Err(e) => SnapshotFetchView::Done(Err(host_error("fetch diff"@, e@))),
            Ok(diff) => SnapshotFetchView::Files { pr, details, diff: diff@ },
        },
        (SnapshotFetchView::Files { pr, details, diff }, FetchReply::Files(r)) => match r {
            Err(e) => SnapshotFetchView::Done(Err(host_error("list changed files"@, e@))),
            Ok(files) => SnapshotFetchView::Checks { pr, details, diff, files: files@ },
        },
        (SnapshotFetchView::Checks { pr, details, diff, files }, FetchReply::Checks(r)) =>
        SnapshotFetchView::Done(Ok(snapshot_of(pr, details, diff, files, r))),
        _ => fetch,
    }
}

impl SnapshotFetch {
    /// The fetch of a pull request before its first call.
    pub fn fetch_snapshot(pr: PullRequestRef) -> (fetch: Self)
        ensures
            fetch@ == (SnapshotFetchView::Details { pr: pr@ }),
    {
        SnapshotFetch::Details { pr }
    }

    /// Takes in the reply to the call that this state asks for.
    pub fn step(self, reply: FetchReply) -> (next: Self)
        ensures
            next@ == after_fetch(self@, reply),
    {
        match (self, reply) {
            (SnapshotFetch::Details { pr }, FetchReply::Details(r)) => match r {
                Err(e) => SnapshotFetch::Done(Err(host_err("fetch PR", e.as_str()))),
                Ok(details) => SnapshotFetch::Diff { pr, details },
            },
            (SnapshotFetch::Diff { pr, details }, FetchReply::Diff(r)) => match r {
                Err(e) => SnapshotFetch::Done(Err(host_err("fetch diff", e.as_str()))),
                Ok(diff) => SnapshotFetch::Files { pr, details, diff },
            },
            (SnapshotFetch::Files { pr, details, diff }, FetchReply::Files(r)) => match r {
                Err(e) => SnapshotFetch::Done(Err(host_err("list changed files", e.as_str()))),
                Ok(files) => SnapshotFetch::Checks { pr, details, diff, files },
            },
            (SnapshotFetch::Checks { pr, details, diff, files }, FetchReply::Checks(r)) =>
            SnapshotFetch::Done(Ok(assemble_snapshot(pr, details, diff, files, r))),
            (fetch, _) => fetch,
        }
    }
}

/// A snapshot's diff fits the byte budget, and it is marked truncated exactly
/// where something was cut off.
pub proof fn law_snapshot_marks_a_cut_diff(
    pr: PullRequestRefView,
    details: PullRequestDetails,
    diff: Seq<char>,
    files: Seq<FileEntry>,
    checks: Result<Vec<CheckEntry>, String>,
)
    ensures
        utf8_len(snapshot_of(pr, details, diff, files, checks).diff) <= DIFF_BYTE_BUDGET,
        begins_with(diff, snapshot_of(pr, details, diff, files, checks).diff),
        snapshot_of(pr, details, diff, files, checks).diff_truncated <==> snapshot_of(
            pr,
            details,
            diff,
            files,
            checks,
        ).diff != diff,
{
    law_clipped_is_the_longest_fitting_prefix(diff, DIFF_BYTE_BUDGET as int);
    if utf8_len(diff) <= DIFF_BYTE_BUDGET {
        lemma_clipped_whole(diff, DIFF_BYTE_BUDGET as int);
    }
}

/// Why the contents of a file could not be had: the HTTP status, where the host
/// answered, and the error's text.
#[derive(Debug)]
pub struct ContentsError {
    pub status: Option<u16>,
    pub message: String,
}

/// What asking for `.scaffold.toml` comes to: the decoded contents of the last
/// item, nothing where the file is absent, or an error.
pub fn fetch_repo_config(reply: Result<Vec<Option<String>>, ContentsError>) -> (config: Result<
    Option<String>,
    TriageError,
>)
    ensures
        config is Err <==> (reply is Err && reply->Err_0.status != Some(404u16)),
        config matches Ok(raw) ==> option_view(raw) == (match reply {
            Ok(items) => if items@.len() == 0 {
                None
            } else {
                option_view(items@.last())
            },
            Err(_) => None,
        }),
        config matches Err(e) ==> e@ == host_error(
            "fetch .scaffold.toml"@,
            reply->Err_0.message@,
        ),
{
    match reply {
        Ok(items) => {
            let mut items = items;
            match items.pop() {
                Some(content) => Ok(content),
                None => Ok(None),
            }
        },
        Err(e) => match e.status {
            Some(status) if status == 404 => Ok(None),
            _ => Err(host_err("fetch .scaffold.toml", e.message.as_str())),
        },
    }
}

/// A comment on the pull request.
#[derive(Debug)]
pub struct IssueComment {
    pub id: u64,
    pub body: Option<String>,
}

/// A comment's model.
pub struct IssueCommentView {
    pub id: u64,
    pub body: Option<Seq<char>>,
}

impl View for IssueComment {
    type V = IssueCommentView;

    open spec fn view(&self) -> IssueCommentView {
        IssueCommentView { id: self.id, body: option_view(self.body) }
    }
}

/// Whether a comment is the triage comment.
pub open spec fn is_triage_comment(c: IssueCommentView) -> bool {
    match c.body {
        Some(body) => begins_with(body, COMMENT_MARKER@),
        None => false,
    }
}

/// The first triage comment of a list.
pub open spec fn triage_comment(comments: Seq<IssueCommentView>) -> Option<u64>
    decreases comments.len(),
{
    if comments.len() == 0 {
        None
    } else if is_triage_comment(comments[0]) {
        Some(comments[0].id)
    } else {
        triage_comment(comments.drop_first())
    }
}

/// The id of the first triage comment of a list.
fn find_triage_comment(comments: &Vec<IssueComment>) -> (id: Option<u64>)
    ensures
        id == triage_comment(views(comments@)),
{
    let ghost all = views(comments@);
    let mut i: usize = 0;
    proof {
        assert(all.skip(0) =~= all);
    }
    while i < comments.len()
        invariant
            all == views(comments@),
            i <= comments@.len(),
            triage_comment(all) == triage_comment(all.skip(i as int)),
        decreases comments.len() - i,
    {
        proof {
            assert(all.skip(i as int).drop_first() =~= all.skip(i + 1));
            assert(all.skip(i as int)[0] == comments@[i as int]@);
        }
        let found = match &comments[i].body {
            Some(body) => starts_with(body.as_str(), COMMENT_MARKER),
            None => false,
        };
        if found {
            return Some(comments[i].id);
        }
        i = i + 1;
    }
    None
}

/// The text of the triage comment: the marker, and the body below it.
pub open spec fn marked(body: Seq<char>) -> Seq<char> {
    COMMENT_MARKER@ + "\n"@ + body
}

/// The create-or-update of the single sticky triage comment.
#[derive(Debug)]
pub enum CommentUpsert {
    /// List the comments.
    List { body: String },
    /// Put this text into the comment of this id.
    Update { id: u64, text: String },
    /// Post this text as a comment.
    Create { text: String },
    Done(Result<(), TriageError>),
}

/// The model of an upsert.
pub enum CommentUpsertView {
    List { body: Seq<char> },
    Update { id: u64, text: Seq<char> },
    Create { text: Seq<char> },
    Done(Result<(), TriageErrorView>),
}

impl View for CommentUpsert {
    type V = CommentUpsertView;

    open spec fn view(&self) -> CommentUpsertView {
        match self {
            CommentUpsert::List { body } => CommentUpsertView::List { body: body@ },
            CommentUpsert::Update { id, text } => CommentUpsertView::Update { id: *id, text: text@ },
            CommentUpsert::Create { text } => CommentUpsertView::Create { text: text@ },
            CommentUpsert::Done(Ok(())) => CommentUpsertView::Done(Ok(())),
            CommentUpsert::Done(Err(e)) => CommentUpsertView::Done(Err(e@)),
        }
    }
}

/// The reply to a call of an upsert.
#[derive(Debug)]
pub enum CommentReply {
    Listed(Result<Vec<IssueComment>, String>),
    Updated(Result<(), String>),
    Created(Result<(), String>),
}

/// The end of an upsert whose last call came to this.
pub open spec fn comment_end(context: Seq<char>, r: Result<(), String>) -> CommentUpsertView {
    match r {
        Ok(()) => CommentUpsertView::Done(Ok(())),
        Err(e) => CommentUpsertView::Done(Err(host_error(context, e@))),
    }
}

/// What is done with the comments there are.
pub open spec fn comment_plan(
    comments: Seq<IssueCommentView>,
    body: Seq<char>,
) -> CommentUpsertView {
    match triage_comment(comments) {
        Some(id) => CommentUpsertView::Update { id, text: marked(body) },
        None => CommentUpsertView::Create { text: marked(body) },
    }
}

/// The upsert after a reply; a reply to another call changes nothing.
pub open spec fn after_comment(upsert: CommentUpsertView, reply: CommentReply) -> CommentUpsertView {
    match (upsert, reply) {
        (CommentUpsertView::List { body }, CommentReply::Listed(r)) => match r {
            Err(e) => CommentUpsertView::Done(Err(host_error("list comments"@, e@))),
            Ok(comments) => comment_plan(views(comments@), body),
        },
        (CommentUpsertView::Update { .. }, CommentReply::Updated(r)) => comment_end(
            "update comment"@,
            r,
        ),
        (CommentUpsertView::Create { .. }, CommentReply::Created(r)) => comment_end(
            "create comment"@,
            r,
        ),
        _ => upsert,
    }
}

impl CommentUpsert {
    /// The upsert of a body before its first call.
    pub fn upsert_triage_comment(body: &str) -> (upsert: Self)
        ensures
            upsert@ == (CommentUpsertView::List { body: body@ }),
    {
        CommentUpsert::List { body: String::from_str(body) }
    }

    /// Takes in the reply to the call that this state asks for.
    pub fn step(self, reply: CommentReply) -> (next: Self)
        ensures
            next@ == after_comment(self@, reply),
    {
        match (self, reply) {
            (CommentUpsert::List { body }, CommentReply::Listed(r)) => match r {
                Err(e) => CommentUpsert::Done(Err(host_err("list comments", e.as_str()))),
                Ok(comments) => {
                    let mut text = String::from_str(COMMENT_MARKER);
                    text.append("\n");
                    text.append(body.as_str());
                    match find_triage_comment(&comments) {
                        Some(id) => CommentUpsert::Update { id, text },
                        None => CommentUpsert::Create { text },
                    }
                },
            },
            (CommentUpsert::Update { .. }, CommentReply::Updated(r)) => match r {
                Ok(()) => CommentUpsert::Done(Ok(())),
                Err(e) => CommentUpsert::Done(Err(host_err("update comment", e.as_str()))),
            },
            (CommentUpsert::Create { .. }, CommentReply::Created(r)) => match r {
                Ok(()) => CommentUpsert::Done(Ok(())),
                Err(e) => CommentUpsert::Done(Err(host_err("create comment", e.as_str()))),
            },
            (upsert, _) => upsert,
        }
    }
}

/// The comments after what an upsert does: one more, under a new id, or one with
/// another text.
pub open spec fn comments_after(
    comments: Seq<IssueCommentView>,
    plan: CommentUpsertView,
    new_id: u64,
) -> Seq<IssueCommentView> {
    match plan {
        CommentUpsertView::Update { id, text } => comments.map_values(
            |c: IssueCommentView|
                if c.id == id {
                    IssueCommentView { id, body: Some(text) }
                } else {
                    c
                },
        ),
        CommentUpsertView::Create { text } => comments.push(
            IssueCommentView { id: new_id, body: Some(text) },
        ),
        _ => comments,
    }
}

/// The triage comment is sticky: after one upsert a second one, whatever its
/// body, updates the comment that the first left, and the list grows no more.
pub proof fn law_the_triage_comment_is_sticky(
    comments: Seq<IssueCommentView>,
    first: Seq<char>,
    second: Seq<char>,
    new_id: u64,
    other_id: u64,
)
    ensures
        ({
            let once = comments_after(comments, comment_plan(comments, first), new_id);
            let plan = comment_plan(once, second);
            &&& triage_comment(comments) matches Some(id) ==> once.len() == comments.len() && plan
                == (CommentUpsertView::Update { id, text: marked(second) })
            &&& triage_comment(comments) is None ==> once.len() == comments.len() + 1 && plan == (
            CommentUpsertView::Update { id: new_id, text: marked(second) })
            &&& comments_after(once, plan, other_id).len() == once.len()
        }),
{
    lemma_marked_is_triage_comment(first);
    match triage_comment(comments) {
        Some(id) => {
            lemma_update_keeps_first(comments, id, marked(first));
        },
        None => {
            lemma_push_is_first(comments, IssueCommentView { id: new_id, body: Some(marked(first)) });
        },
    }
}

proof fn lemma_marked_is_triage_comment(body: Seq<char>)
    ensures
        begins_with(marked(body), COMMENT_MARKER@),
{
    assert(marked(body).take(COMMENT_MARKER@.len() as int) =~= COMMENT_MARKER@);
}

proof fn lemma_push_is_first(comments: Seq<IssueCommentView>, c: IssueCommentView)
    requires
        triage_comment(comments) is None,
        is_triage_comment(c),
    ensures
        triage_comment(comments.push(c)) == Some(c.id),
    decreases comments.len(),
{
    let more = comments.push(c);
    if comments.len() == 0 {
        assert(more[0] == c);
    } else {
        assert(more[0] == comments[0]);
        lemma_push_is_first(comments.drop_first(), c);
        assert(more.drop_first() =~= comments.drop_first().push(c));
    }
}

proof fn lemma_update_keeps_first(comments: Seq<IssueCommentView>, id: u64, text: Seq<char>)
    requires
        triage_comment(comments) == Some(id),
        begins_with(text, COMMENT_MARKER@),
    ensures
        triage_comment(
            comments_after(comments, CommentUpsertView::Update { id, text }, 0),
        ) == Some(id),
    decreases comments.len(),
{
    let plan = CommentUpsertView::Update { id, text };
    let after = comments_after(comments, plan, 0);
    if comments[0].id != id {
        assert(after[0] == comments[0]);
        lemma_update_keeps_first(comments.drop_first(), id, text);
        assert(after.drop_first() =~= comments_after(comments.drop_first(), plan, 0));
    } else {
        assert(after[0].body == Some(text));
    }
}

/// The upsert after a list of replies.
pub open spec fn after_comments(
    upsert: CommentUpsertView,
    replies: Seq<CommentReply>,
) -> CommentUpsertView
    decreases replies.len(),
{
    if replies.len() == 0 {
        upsert
    } else {
        after_comment(after_comments(upsert, replies.drop_last()), replies.last())
    }
}

/// The writes of an upsert that a list of replies answers, in order.
pub open spec fn answered_writes(
    upsert: CommentUpsertView,
    replies: Seq<CommentReply>,
) -> Seq<CommentUpsertView>
    decreases replies.len(),
{
    if replies.len() == 0 {
        Seq::empty()
    } else {
        let before = after_comments(upsert, replies.drop_last());
        let writes = answered_writes(upsert, replies.drop_last());
        if (before is Update && replies.last() is Updated) || (before is Create
            && replies.last() is Created) {
            writes.push(before)
        } else {
            writes
        }
    }
}

/// An upsert writes once: with the comments that were listed, the one thing it
/// sends is an update of the first triage comment among them, or a new comment
/// where there is none. It ends well only after that was answered.
pub proof fn law_an_upsert_writes_once(
    body: Seq<char>,
    listed: Vec<IssueComment>,
    replies: Seq<CommentReply>,
)
    ensures
        ({
            let plan = comment_plan(views(listed@), body);
            let end = after_comments(plan, replies);
            let writes = answered_writes(plan, replies);
            &&& after_comment(CommentUpsertView::List { body }, CommentReply::Listed(Ok(listed)))
                == plan
            &&& writes.len() == 0 || writes == seq![plan]
            &&& end == CommentUpsertView::Done(Ok(())) ==> writes == seq![plan]
            &&& end is Done || (end == plan && writes.len() == 0)
        }),
    decreases replies.len(),
{
    let plan = comment_plan(views(listed@), body);
    let writes = answered_writes(plan, replies);
    if replies.len() > 0 {
        law_an_upsert_writes_once(body, listed, replies.drop_last());
        if after_comments(plan, replies.drop_last()) == plan && writes.len() > 0 {
            assert(writes =~= seq![plan]);
        }
    }
}

/// Something that happens to the comments of a pull request.
pub enum CommentEvent {
    /// An upsert of this body. A comment that it creates gets this id.
    Upsert { body: Seq<char>, new_id: u64 },
    /// A comment of somebody else.
    Other(IssueCommentView),
}

/// The id that comes with an event.
pub open spec fn event_id(event: CommentEvent) -> u64 {
    match event {
        CommentEvent::Upsert { new_id, .. } => new_id,
        CommentEvent::Other(c) => c.id,
    }
}

/// The comments of a pull request after a list of events.
pub open spec fn thread(
    comments: Seq<IssueCommentView>,
    events: Seq<CommentEvent>,
) -> Seq<IssueCommentView>
    decreases events.len(),
{
    if events.len() == 0 {
        comments
    } else {
        let before = thread(comments, events.drop_last());
        match events.last() {
            CommentEvent::Upsert { body, new_id } => comments_after(
                before,
                comment_plan(before, body),
                new_id,
            ),
            CommentEvent::Other(c) => before.push(c),
        }
    }
}

/// The comments of somebody else, in order.
pub open spec fn others(events: Seq<CommentEvent>) -> Seq<IssueCommentView>
    decreases events.len(),
{
    if events.len() == 0 {
        Seq::empty()
    } else {
        match events.last() {
            CommentEvent::Upsert { .. } => others(events.drop_last()),
            CommentEvent::Other(c) => others(events.drop_last()).push(c),
        }
    }
}

/// The body that was upserted last.
pub open spec fn last_body(events: Seq<CommentEvent>) -> Option<Seq<char>>
    decreases events.len(),
{
    if events.len() == 0 {
        None
    } else {
        match events.last() {
            CommentEvent::Upsert { body, .. } => Some(body),
            CommentEvent::Other(_) => last_body(events.drop_last()),
        }
    }
}

/// Whether nobody else writes a triage comment, before or among the events.
pub open spec fn nobody_else_marks(
    comments: Seq<IssueCommentView>,
    events: Seq<CommentEvent>,
) -> bool {
    &&& forall|i: int| 0 <= i < comments.len() ==> !is_triage_comment(#[trigger] comments[i])
    &&& forall|j: int|
        0 <= j < events.len() ==> ((#[trigger] events[j]) matches CommentEvent::Other(c)
            ==> !is_triage_comment(c))
}

/// Whether every id that comes with an event is new.
pub open spec fn ids_are_fresh(
    comments: Seq<IssueCommentView>,
    events: Seq<CommentEvent>,
) -> bool {
    &&& forall|i: int, j: int|
        0 <= i < comments.len() && 0 <= j < events.len() ==> (#[trigger] comments[i]).id
            != event_id(#[trigger] events[j])
    &&& forall|j: int, k: int|
        0 <= j < k < events.len() ==> event_id(#[trigger] events[j]) != event_id(
            #[trigger] events[k],
        )
}

/// Whether the comment at `k` is the only triage comment, holds a body, and
/// leaves the others as they are.
pub open spec fn is_the_triage_comment(
    after: Seq<IssueCommentView>,
    k: int,
    body: Seq<char>,
    rest: Seq<IssueCommentView>,
) -> bool {
    &&& 0 <= k < after.len()
    &&& after[k].body == Some(marked(body))
    &&& forall|i: int| 0 <= i < after.len() ==> (is_triage_comment(#[trigger] after[i]) <==> i == k)
    &&& after.remove(k) == rest
}

/// There is a single triage comment: on a pull request that began with none, and
/// where nobody else writes one, any number of upserts, whatever others comment
/// in between, leaves exactly one. It holds the last body, and what others wrote
/// is untouched. Without an upsert there is none.
pub proof fn law_there_is_one_triage_comment(
    comments: Seq<IssueCommentView>,
    events: Seq<CommentEvent>,
)
    requires
        nobody_else_marks(comments, events),
        ids_are_fresh(comments, events),
    ensures
        match last_body(events) {
            Some(body) => exists|k: int| #[trigger]
                is_the_triage_comment(
                    thread(comments, events),
                    k,
                    body,
                    comments + others(events),
                ),
            None => thread(comments, events) == comments + others(events) && forall|i: int|
                0 <= i < thread(comments, events).len() ==> !is_triage_comment(
                    #[trigger] thread(comments, events)[i],
                ),
        },
{
    let k = lemma_thread(comments, events);
}

/// Every comment of somebody else came with an event.
proof fn lemma_others(events: Seq<CommentEvent>, i: int) -> (j: int)
    requires
        0 <= i < others(events).len(),
    ensures
        0 <= j < events.len(),
        events[j] == CommentEvent::Other(others(events)[i]),
    decreases events.len(),
{
    let rest = events.drop_last();
    if i < others(rest).len() {
        let j = lemma_others(rest, i);
        assert(events[j] == rest[j]);
        j
    } else {
        events.len() - 1
    }
}

/// Where a single comment is a triage comment, it is the first.
proof fn lemma_only_one(comments: Seq<IssueCommentView>, k: int)
    requires
        0 <= k < comments.len(),
        is_triage_comment(comments[k]),
        forall|i: int| 0 <= i < k ==> !is_triage_comment(#[trigger] comments[i]),
    ensures
        triage_comment(comments) == Some(comments[k].id),
    decreases k,
{
    if k > 0 {
        assert(!is_triage_comment(comments[0]));
        let rest = comments.drop_first();
        assert forall|i: int| 0 <= i < k - 1 implies !is_triage_comment(#[trigger] rest[i]) by {
            assert(rest[i] == comments[i + 1]);
        }
        lemma_only_one(rest, k - 1);
    }
}

/// Where no comment is a triage comment, none is found.
proof fn lemma_none_found(comments: Seq<IssueCommentView>)
    requires
        forall|i: int| 0 <= i < comments.len() ==> !is_triage_comment(#[trigger] comments[i]),
    ensures
        triage_comment(comments) is None,
    decreases comments.len(),
{
    if comments.len() > 0 {
        assert(!is_triage_comment(comments[0]));
        let rest = comments.drop_first();
        assert forall|i: int| 0 <= i < rest.len() implies !is_triage_comment(#[trigger] rest[i]) by {
            assert(rest[i] == comments[i + 1]);
        }
        lemma_none_found(rest);
    }
}

/// Where the triage comment stands, and that its id came with an upsert.
proof fn lemma_thread(comments: Seq<IssueCommentView>, events: Seq<CommentEvent>) -> (k: int)
    requires
        nobody_else_marks(comments, events),
        ids_are_fresh(comments, events),
    ensures
        match last_body(events) {
            Some(body) => is_the_triage_comment(
                thread(comments, events),
                k,
                body,
                comments + others(events),
            ) && exists|j: int|
                0 <= j < events.len() && (#[trigger] events[j]) is Upsert && event_id(events[j])
                    == thread(comments, events)[k].id,
            None => thread(comments, events) == comments + others(events) && forall|i: int|
                0 <= i < thread(comments, events).len() ==> !is_triage_comment(
                    #[trigger] thread(comments, events)[i],
                ),
        },
    decreases events.len(),
{
    let after = thread(comments, events);
    if events.len() == 0 {
        assert(comments + others(events) =~= comments);
        0
    } else {
        let rest = events.drop_last();
        let last = events.last();
        assert(forall|j: int| 0 <= j < rest.len() ==> #[trigger] rest[j] == events[j]);
        let before = thread(comments, rest);
        let k = lemma_thread(comments, rest);
        let foreign = comments + others(rest);
        match (last_body(rest), last) {
            (None, CommentEvent::Other(c)) => {
                assert(events[events.len() - 1] == last);
                assert(after =~= comments + others(events));
                k
            },
            (None, CommentEvent::Upsert { body, new_id }) => {
                lemma_none_found(before);
                lemma_marked_is_triage_comment(body);
                let at = before.len() as int;
                assert(after.remove(at) =~= before);
                assert(events[events.len() - 1] is Upsert);
                at
            },
            (Some(_), CommentEvent::Other(c)) => {
                assert(events[events.len() - 1] == last);
                assert(after.remove(k) =~= before.remove(k).push(c));
                assert(comments + others(events) =~= foreign.push(c));
                let j = choose|j: int|
                    0 <= j < rest.len() && (#[trigger] rest[j]) is Upsert && event_id(rest[j])
                        == before[k].id;
                assert(events[j] is Upsert);
                k
            },
            (Some(_), CommentEvent::Upsert { body, new_id }) => {
                lemma_only_one(before, k);
                lemma_marked_is_triage_comment(body);
                let id = before[k].id;
                let j = choose|j: int|
                    0 <= j < rest.len() && (#[trigger] rest[j]) is Upsert && event_id(rest[j]) == id;
                assert(events[j] is Upsert);
                assert forall|i: int| 0 <= i < before.len() && i != k implies (#[trigger] before[i]).id
                    != id by {
                    let at = if i < k {
                        i
                    } else {
                        i - 1
                    };
                    assert(before.remove(k)[at] == before[i]);
                    assert(before.remove(k).len() == before.len() - 1);
                    assert(foreign.len() == comments.len() + others(rest).len());
                    if at < comments.len() {
                        assert(comments[at].id != event_id(events[j]));
                    } else {
                        let o = lemma_others(rest, at - comments.len());
                        assert(event_id(events[o]) != event_id(events[j])) by {
                            assert(o != j);
                        }
                    }
                }
                let written = IssueCommentView { id, body: Some(marked(body)) };
                assert(after =~= before.update(k, written));
                assert(after.remove(k) =~= before.remove(k));
                k
            },
        }
    }
}

/// Whether a list of labels or logins is worth a call.
pub fn anything_to_send(list: &Vec<String>) -> (yes: bool)
    ensures
        yes == (list@.len() > 0),
{
    !list.is_empty()
}

/// A snapshot says what the endpoints answered. It is a draft exactly where the
/// pull request endpoint answers that it is one; every other field is the answer
/// as it came, a text that is missing being empty; and each file and each check
/// stands at its place in the list, with its own name and figures.
pub proof fn law_a_snapshot_says_what_was_answered(
    pr: PullRequestRefView,
    details: PullRequestDetails,
    diff: Seq<char>,
    files: Seq<FileEntry>,
    checks: Result<Vec<CheckEntry>, String>,
)
    ensures
        ({
            let s = snapshot_of(pr, details, diff, files, checks);
            &&& s.draft <==> details.draft == Some(true)
            &&& s.mergeable == details.mergeable
            &&& s.pr == pr
            &&& details.title matches Some(t) ==> s.title == t@
            &&& details.title is None ==> s.title.len() == 0
            &&& details.body matches Some(t) ==> s.body == t@
            &&& details.body is None ==> s.body.len() == 0
            &&& details.author matches Some(t) ==> s.author == t@
            &&& details.author is None ==> s.author.len() == 0
            &&& s.base_branch == details.base_branch@
            &&& s.head_branch == details.head_branch@
            &&& s.head_sha == details.head_sha@
            &&& utf8_len(diff) <= 300_000 ==> s.diff == diff && !s.diff_truncated
            &&& utf8_len(diff) > 300_000 ==> s.diff != diff && s.diff_truncated
            &&& s.changed_files.len() == files.len()
            &&& forall|i: int|
                0 <= i < files.len() ==> (#[trigger] s.changed_files[i]).path == files[i].filename@
                    && s.changed_files[i].additions == files[i].additions
                    && s.changed_files[i].deletions == files[i].deletions
                    && s.changed_files[i].status == lower_case(files[i].status@)
            &&& checks matches Ok(list) ==> s.checks.len() == list@.len() && forall|i: int|
                0 <= i < list@.len() ==> (#[trigger] s.checks[i]).name == list@[i].name@
                    && s.checks[i].conclusion == conclusion_of(option_view(list@[i].conclusion))
            &&& checks is Err ==> s.checks.len() == 0
        }),
{
    law_snapshot_marks_a_cut_diff(pr, details, diff, files, checks);
    if utf8_len(diff) <= DIFF_BYTE_BUDGET {
        lemma_clipped_whole(diff, DIFF_BYTE_BUDGET as int);
    }
}

/// A fetch whose calls are answered ends with a snapshot of those answers: it is
/// a draft exactly where the first answer says so, and shows that answer's
/// branches, the diff, and each of the files and checks.
pub proof fn law_a_fetch_ends_with_what_was_answered(
    pr: PullRequestRefView,
    details: PullRequestDetails,
    diff: String,
    files: Vec<FileEntry>,
    checks: Result<Vec<CheckEntry>, String>,
)
    ensures
        ({
            let start = SnapshotFetchView::Details { pr };
            let one = after_fetch(start, FetchReply::Details(Ok(details)));
            let two = after_fetch(one, FetchReply::Diff(Ok(diff)));
            let three = after_fetch(two, FetchReply::Files(Ok(files)));
            let end = after_fetch(three, FetchReply::Checks(checks));
            end matches SnapshotFetchView::Done(Ok(s)) && {
                &&& s.draft <==> details.draft == Some(true)
                &&& s.mergeable == details.mergeable
                &&& s.pr == pr
                &&& details.title matches Some(t) ==> s.title == t@
                &&& details.body matches Some(t) ==> s.body == t@
                &&& details.author matches Some(t) ==> s.author == t@
                &&& s.base_branch == details.base_branch@
                &&& s.head_branch == details.head_branch@
                &&& s.head_sha == details.head_sha@
                &&& utf8_len(diff@) <= 300_000 ==> s.diff == diff@ && !s.diff_truncated
                &&& utf8_len(diff@) > 300_000 ==> s.diff_truncated
                &&& s.changed_files.len() == files@.len()
                &&& forall|i: int|
                    0 <= i < files@.len() ==> (#[trigger] s.changed_files[i]).path
                        == files@[i].filename@ && s.changed_files[i].additions
                        == files@[i].additions && s.changed_files[i].deletions
                        == files@[i].deletions
                &&& checks matches Ok(list) ==> s.checks.len() == list@.len() && forall|i: int|
                    0 <= i < list@.len() ==> (#[trigger] s.checks[i]).name == list@[i].name@
                        && s.checks[i].conclusion == conclusion_of(
                        option_view(list@[i].conclusion),
                    )
                &&& checks is Err ==> s.checks.len() == 0
            }
        }),
{
    law_a_snapshot_says_what_was_answered(pr, details, diff@, files@, checks);
}

/// A draft is skipped: over a whole run, a pull request whose endpoint answers
/// that it is a draft ends as skipped where the repository skips drafts. One
/// that is no draft, or whose repository triages drafts, goes on to the model
/// with the snapshot that was fetched.
pub proof fn law_a_draft_is_skipped_over_a_whole_run(
    pr: PullRequestRefView,
    trigger: TriageTrigger,
    last: Option<InstantView>,
    config: RepoConfigView,
    now: InstantView,
    details: PullRequestDetails,
    diff: String,
    files: Vec<FileEntry>,
    checks: Result<Vec<CheckEntry>, String>,
)
    requires
        trigger == TriageTrigger::Synchronized ==> config.triage_on_synchronize,
        trigger == TriageTrigger::Synchronized && last is Some ==> elapsed(now, last->0)
            >= config.cooldown_minutes * 60 * 1_000_000_000,
    ensures
        ({
            let waiting = after_reply(
                started(pr, trigger, last),
                AgentEventView::ConfigFetched { config: Ok(config), now },
            );
            let one = after_fetch(
                SnapshotFetchView::Details { pr },
                FetchReply::Details(Ok(details)),
            );
            let two = after_fetch(one, FetchReply::Diff(Ok(diff)));
            let three = after_fetch(two, FetchReply::Files(Ok(files)));
            let fetched = after_fetch(three, FetchReply::Checks(checks));
            fetched matches SnapshotFetchView::Done(reply) && {
                let end = after_reply(waiting, AgentEventView::SnapshotFetched(reply));
                &&& details.draft == Some(true) && config.skip_drafts ==> end
                    == TriageAgentView::Finished(
                    Ok(AgentOutcomeView::Skipped { reason: "draft PR"@ }),
                )
                &&& !(details.draft == Some(true) && config.skip_drafts) ==> {
                    &&& end matches TriageAgentView::Classify { snapshot, pr: p, .. }
                    &&& p == pr
                    &&& reply == Ok::<PullRequestSnapshotView, TriageErrorView>(snapshot)
                }
            }
        }),
{
    law_a_fetch_ends_with_what_was_answered(pr, details, diff, files, checks);
    assert(config.cooldown_minutes * 60 * NANOS_PER_SEC == config.cooldown_minutes * 60
        * 1_000_000_000);
}

/// A call of a fetch that fails ends it, with what was being done and the
/// error's own text; only the checks may be missing.
pub proof fn law_a_failed_fetch_says_what_failed(
    pr: PullRequestRefView,
    details: PullRequestDetails,
    diff: Seq<char>,
    files: Seq<FileEntry>,
    e: String,
)
    ensures
        after_fetch(SnapshotFetchView::Details { pr }, FetchReply::Details(Err(e)))
            == SnapshotFetchView::Done(Err(TriageErrorView::Host("fetch PR"@ + ": "@ + e@))),
        after_fetch(SnapshotFetchView::Diff { pr, details }, FetchReply::Diff(Err(e)))
            == SnapshotFetchView::Done(Err(TriageErrorView::Host("fetch diff"@ + ": "@ + e@))),
        after_fetch(SnapshotFetchView::Files { pr, details, diff }, FetchReply::Files(Err(e)))
            == SnapshotFetchView::Done(
            Err(TriageErrorView::Host("list changed files"@ + ": "@ + e@)),
        ),
        after_fetch(
            SnapshotFetchView::Checks { pr, details, diff, files },
            FetchReply::Checks(Err(e)),
        ) matches SnapshotFetchView::Done(Ok(_)),
{
}

/// Each conclusion is read from its own word and from no other; a check without
/// one, or with a word that is not known, is pending.
pub proof fn law_conclusions_are_read_from_their_words(word: Option<Seq<char>>)
    ensures
        conclusion_of(word) == CheckConclusion::Success <==> word == Some("success"@),
        conclusion_of(word) == CheckConclusion::Failure <==> word == Some("failure"@),
        conclusion_of(word) == CheckConclusion::Neutral <==> word == Some("neutral"@),
        conclusion_of(word) == CheckConclusion::Cancelled <==> word == Some("cancelled"@),
        conclusion_of(word) == CheckConclusion::TimedOut <==> word == Some("timed_out"@),
        conclusion_of(word) == CheckConclusion::ActionRequired <==> word == Some(
            "action_required"@,
        ),
        conclusion_of(word) == CheckConclusion::Skipped <==> word == Some("skipped"@),
        word is None ==> conclusion_of(word) == CheckConclusion::Pending,
{
    reveal_strlit("success");
    reveal_strlit("failure");
    reveal_strlit("neutral");
    reveal_strlit("cancelled");
    reveal_strlit("timed_out");
    reveal_strlit("action_required");
    reveal_strlit("skipped");
    assert("success"@[0] == 's' && "failure"@[0] == 'f' && "neutral"@[0] == 'n');
    assert("cancelled"@[0] == 'c' && "timed_out"@[0] == 't' && "action_required"@[0] == 'a');
    assert("skipped"@[1] == 'k' && "success"@[1] == 'u' && "skipped"@[0] == 's');
}

/// The triage comment is the first that begins with the marker, wherever it
/// stands, and there is none where no comment does.
pub proof fn law_the_triage_comment_is_the_first_marked(
    comments: Seq<IssueCommentView>,
    i: int,
    body: Seq<char>,
)
    ensures
        0 <= i < comments.len() && comments[i].body is Some && begins_with(
            comments[i].body->0,
            "<!-- scaffold-ai:triage -->"@,
        ) && (forall|k: int|
            0 <= k < i ==> !((#[trigger] comments[k]).body is Some && begins_with(
                comments[k].body->0,
                "<!-- scaffold-ai:triage -->"@,
            ))) ==> comment_plan(comments, body) == (CommentUpsertView::Update {
            id: comments[i].id,
            text: "<!-- scaffold-ai:triage -->"@ + "\n"@ + body,
        }),
        (forall|k: int|
            0 <= k < comments.len() ==> !((#[trigger] comments[k]).body is Some && begins_with(
                comments[k].body->0,
                "<!-- scaffold-ai:triage -->"@,
            ))) ==> comment_plan(comments, body) == (CommentUpsertView::Create {
            text: "<!-- scaffold-ai:triage -->"@ + "\n"@ + body,
        }),
    decreases comments.len(),
{
    if comments.len() > 0 && !is_triage_comment(comments[0]) {
        let rest = comments.drop_first();
        assert forall|k: int| 0 <= k < rest.len() implies #[trigger] rest[k] == comments[k + 1] by {}
        law_the_triage_comment_is_the_first_marked(rest, i - 1, body);
        if 0 <= i < comments.len() && forall|k: int|
            0 <= k < i ==> !((#[trigger] comments[k]).body is Some && begins_with(
                comments[k].body->0,
                "<!-- scaffold-ai:triage -->"@,
            )) {
            assert forall|k: int| 0 <= k < i - 1 implies !((#[trigger] rest[k]).body is Some
                && begins_with(rest[k].body->0, "<!-- scaffold-ai:triage -->"@)) by {
                assert(rest[k] == comments[k + 1]);
            }
        }
    }
}

/// An upsert fails with the error of the call that failed.
pub proof fn law_a_failed_upsert_says_what_failed(
    body: Seq<char>,
    id: u64,
    text: Seq<char>,
    e: String,
)
    ensures
        after_comment(CommentUpsertView::List { body }, CommentReply::Listed(Err(e)))
            == CommentUpsertView::Done(Err(TriageErrorView::Host("list comments"@ + ": "@ + e@))),
        after_comment(CommentUpsertView::Update { id, text }, CommentReply::Updated(Err(e)))
            == CommentUpsertView::Done(Err(TriageErrorView::Host("update comment"@ + ": "@ + e@))),
        after_comment(CommentUpsertView::Create { text }, CommentReply::Created(Err(e)))
            == CommentUpsertView::Done(Err(TriageErrorView::Host("create comment"@ + ": "@ + e@))),
        after_comment(CommentUpsertView::Update { id, text }, CommentReply::Updated(Ok(())))
            == CommentUpsertView::Done(Ok(())),
        after_comment(CommentUpsertView::Create { text }, CommentReply::Created(Ok(())))
            == CommentUpsertView::Done(Ok(())),
{
}

/// The accessible repos are the full names of those listed, in their order: one
/// repo more adds its own name, and one without a name adds nothing.
pub proof fn law_every_repo_is_listed(items: Seq<JsonView>, repo: JsonView, i: int)
    ensures
        full_names(items.push(repo)) == (match text_at(repo, "full_name"@) {
            Some(name) => full_names(items).push(name),
            None => full_names(items),
        }),
        full_names(Seq::empty()).len() == 0,
        0 <= i < items.len() && text_at(items[i], "full_name"@) is Some ==> full_names(
            items,
        ).contains(text_at(items[i], "full_name"@)->0),
    decreases items.len(),
{
    assert(items.push(repo).drop_last() =~= items);
    if 0 <= i < items.len() && text_at(items[i], "full_name"@) is Some {
        let rest = full_names(items.drop_last());
        let all = full_names(items);
        if i == items.len() - 1 {
            assert(all[rest.len() as int] == text_at(items[i], "full_name"@)->0);
        } else {
            law_every_repo_is_listed(items.drop_last(), repo, i);
            let name = text_at(items[i], "full_name"@)->0;
            assert(items.drop_last()[i] == items[i]);
            let k = choose|k: int| 0 <= k < rest.len() && rest[k] == name;
            assert(all[k] == name);
        }
    }
}

/// A check of the auth chain whose calls are answered reports those answers: all
/// installations, the one that was asked for or else the first, the token's
/// expiry and the repos.
pub proof fn law_an_auth_check_reports_what_was_answered(
    asked: Option<u64>,
    installations: Vec<(u64, String)>,
    expires: Option<String>,
    repos: Json,
)
    requires
        installations@.len() > 0,
    ensures
        ({
            let one = after_auth(
                AuthCheckView::ListInstallations { installation_override: asked },
                AuthReply::Installations(Ok(installations)),
            );
            let two = after_auth(one, AuthReply::Token(Ok(expires)));
            let end = after_auth(two, AuthReply::Repositories(Ok(repos)));
            end matches AuthCheckView::Done(Ok(report)) && {
                &&& report.installations.len() == installations@.len()
                &&& forall|i: int|
                    0 <= i < installations@.len() ==> (#[trigger] report.installations[i]).0
                        == installations@[i].0 && report.installations[i].1
                        == installations@[i].1@
                &&& asked matches Some(id) ==> report.installation_id_used == id
                &&& asked is None ==> report.installation_id_used == installations@[0].0
                &&& expires matches Some(t) ==> report.token_expires_at == Some(t@)
                &&& expires is None ==> report.token_expires_at is None
                &&& array_at(repos@, "repositories"@) matches Some(items)
                    ==> report.accessible_repos == full_names(items)
            }
        }),
{
}

/// A list of deliveries is summed up one by one, in its order, from the members
/// of the same names.
pub proof fn law_every_delivery_is_summed_up(items: Seq<JsonView>, i: int)
    requires
        0 <= i < items.len(),
    ensures
        ({
            let list = deliveries_of(JsonView::Array(items));
            &&& list.len() == items.len()
            &&& text_at(items[i], "event"@) matches Some(t) ==> list[i].event == t
            &&& text_at(items[i], "guid"@) matches Some(t) ==> list[i].guid == t
            &&& text_at(items[i], "action"@) matches Some(t) ==> list[i].action == t
            &&& text_at(items[i], "status"@) matches Some(t) ==> list[i].status == t
            &&& int_at(items[i], "status_code"@) matches Some(n) ==> list[i].status_code == n
            &&& text_at(items[i], "delivered_at"@) matches Some(t) ==> list[i].delivered_at == t
            &&& text_at(items[i], "event"@) is None ==> list[i].event == "?"@
            &&& text_at(items[i], "guid"@) is None ==> list[i].guid == "?"@
            &&& text_at(items[i], "action"@) is None ==> list[i].action == "-"@
            &&& text_at(items[i], "status"@) is None ==> list[i].status == "?"@
            &&& int_at(items[i], "status_code"@) is None ==> list[i].status_code == 0
            &&& text_at(items[i], "delivered_at"@) is None ==> list[i].delivered_at == "?"@
        }),
{
}

/// A check of the auth chain stops at the first call that fails, with what was
/// being done and the error's own text; and an App that is installed nowhere
/// fails it too.
pub proof fn law_a_failed_auth_check_says_what_failed(
    asked: Option<u64>,
    none: Vec<(u64, String)>,
    installations: Seq<(u64, Seq<char>)>,
    id: u64,
    expires: Option<Seq<char>>,
    e: String,
)
    requires
        none@.len() == 0,
    ensures
        ({
            let list = AuthCheckView::ListInstallations { installation_override: asked };
            let mint = AuthCheckView::MintToken { installations, installation_id: id };
            let repos = AuthCheckView::ListRepositories {
                installations,
                installation_id: id,
                token_expires_at: expires,
            };
            &&& after_auth(list, AuthReply::Installations(Err(e))) == AuthCheckView::Done(
                Err(
                    TriageErrorView::Host(
                        "GET /app/installations (JWT rejected or App ID wrong?)"@ + ": "@ + e@,
                    ),
                ),
            )
            &&& after_auth(list, AuthReply::Installations(Ok(none))) matches AuthCheckView::Done(
                Err(_),
            )
            &&& after_auth(mint, AuthReply::Token(Err(e))) == AuthCheckView::Done(
                Err(TriageErrorView::Host("minting installation token"@ + ": "@ + e@)),
            )
            &&& after_auth(repos, AuthReply::NoClient(e)) == AuthCheckView::Done(
                Err(TriageErrorView::Host("installation client"@ + ": "@ + e@)),
            )
            &&& after_auth(repos, AuthReply::Repositories(Err(e))) == AuthCheckView::Done(
                Err(TriageErrorView::Host("GET /installation/repositories"@ + ": "@ + e@)),
            )
        }),
{
}

} // verus!
