//! Billing through Autumn's hosted API: check, track, attach, customers.
//!
//! The billing customer is the GitHub App installation. Creating a customer is
//! sufficient onboarding: `POST /customers` is an idempotent upsert and the free
//! plan attaches automatically at creation time.
//!
//! Failures are told apart by the code that the API gives: a missing customer is
//! created and the call retried once; a missing feature is reported as a
//! misconfiguration; it, an outage and anything else leave the verdict open.

use vstd::prelude::*;

use crate::error::{error_message, TriageError, TriageErrorView};
use crate::json::{
    int_at, law_a_key_is_read_from_its_first_member, member, text_at, Json, JsonView, Member,
};
use crate::text::{
    clone_option, decimal, holds_text, lemma_decimal_value, lemma_shown_between, option_view,
    push_decimal, same_text, views,
};

verus! {

pub const DEFAULT_BASE_URL: &'static str = "https://api.useautumn.com/v1";

/// Metered feature: one unit per executed triage.
pub const FEATURE_PR_TRIAGE: &'static str = "pr_triage";

/// Metered feature: number of repos with Scaffold AI enabled.
pub const FEATURE_REPOS: &'static str = "repos";

/// The name of an installation's billing customer.
pub open spec fn customer_name(installation_id: u64) -> Seq<char> {
    "gh-install-"@ + decimal(installation_id as nat)
}

pub fn customer_id(installation_id: u64) -> (id: String)
    ensures
        id@ == customer_name(installation_id),
{
    let mut id = String::from_str("gh-install-");
    push_decimal(&mut id, installation_id);
    id
}

/// Two installations never share a billing customer.
pub proof fn law_customers_are_distinct(a: u64, b: u64)
    requires
        customer_name(a) == customer_name(b),
    ensures
        a == b,
{
    let head = "gh-install-"@;
    assert(customer_name(a).skip(head.len() as int) =~= decimal(a as nat));
    assert(customer_name(b).skip(head.len() as int) =~= decimal(b as nat));
    lemma_decimal_value(a as nat);
    lemma_decimal_value(b as nat);
}

#[derive(Debug)]
pub struct AutumnConfig {
    pub secret_key: String,
    pub base_url: String,
}

impl AutumnConfig {
    pub fn new(secret_key: &str) -> (config: Self)
        ensures
            config.secret_key@ == secret_key@,
            config.base_url@ == DEFAULT_BASE_URL@,
    {
        AutumnConfig {
            secret_key: String::from_str(secret_key),
            base_url: String::from_str(DEFAULT_BASE_URL),
        }
    }

    /// Where a request to `path` goes.
    pub fn url(&self, path: &str) -> (url: String)
        ensures
            url@ == self.base_url@ + path@,
    {
        let mut url = self.base_url.clone();
        url.append(path);
        url
    }
}

/// What billing says to a use.
#[derive(Debug)]
pub enum BillingVerdict {
    Allowed,
    /// A real denial from the billing API (quota exceeded, no plan). Blocks triage.
    Denied { reason: String },
    /// Billing API unreachable — policy is fail-open: proceed, journal usage.
    Unavailable,
}

/// A verdict's model.
pub enum BillingVerdictView {
    Allowed,
    Denied { reason: Seq<char> },
    Unavailable,
}

impl View for BillingVerdict {
    type V = BillingVerdictView;

    open spec fn view(&self) -> BillingVerdictView {
        match self {
            BillingVerdict::Allowed => BillingVerdictView::Allowed,
            BillingVerdict::Denied { reason } => BillingVerdictView::Denied { reason: reason@ },
            BillingVerdict::Unavailable => BillingVerdictView::Unavailable,
        }
    }
}

impl Clone for BillingVerdict {
    fn clone(&self) -> (copy: Self)
        ensures
            copy@ == self@,
    {
        match self {
            BillingVerdict::Allowed => BillingVerdict::Allowed,
            BillingVerdict::Denied { reason } => BillingVerdict::Denied { reason: reason.clone() },
            BillingVerdict::Unavailable => BillingVerdict::Unavailable,
        }
    }
}

impl vstd::std_specs::cmp::PartialEqSpecImpl for BillingVerdict {
    open spec fn obeys_eq_spec() -> bool {
        true
    }

    open spec fn eq_spec(&self, other: &Self) -> bool {
        self@ == other@
    }
}

impl PartialEq for BillingVerdict {
    fn eq(&self, other: &Self) -> (same: bool) {
        match (self, other) {
            (BillingVerdict::Allowed, BillingVerdict::Allowed) => true,
            (BillingVerdict::Denied { reason: a }, BillingVerdict::Denied { reason: b }) => *a
                == *b,
            (BillingVerdict::Unavailable, BillingVerdict::Unavailable) => true,
            _ => false,
        }
    }
}

impl Eq for BillingVerdict {

}

/// An answer over HTTP: its status, its text, the error code that the text
/// holds, and the text read as what a success holds.
#[derive(Debug)]
pub struct HttpReply<T> {
    pub status: u16,
    pub body: String,
    pub code: Option<String>,
    pub parsed: Result<T, String>,
}

/// Classified failure from one API call, so callers can branch on Autumn's
/// error `code` without string-matching messages.
#[derive(Debug)]
pub enum ApiError {
    /// Non-2xx with the parsed Autumn error code when the body had one.
    Http { status: u16, code: Option<String>, body: String },
    Network(String),
}

/// A failure's model.
pub enum ApiErrorView {
    Http { status: u16, code: Option<Seq<char>>, body: Seq<char> },
    Network(Seq<char>),
}

impl View for ApiError {
    type V = ApiErrorView;

    open spec fn view(&self) -> ApiErrorView {
        match self {
            ApiError::Http { status, code, body } => ApiErrorView::Http {
                status: *status,
                code: option_view(*code),
                body: body@,
            },
            ApiError::Network(e) => ApiErrorView::Network(e@),
        }
    }
}

/// The code of a failure, where the API gave one.
pub open spec fn failure_code(e: ApiErrorView) -> Option<Seq<char>> {
    match e {
        ApiErrorView::Http { code, .. } => code,
        ApiErrorView::Network(_) => None,
    }
}

/// How a failure reads.
pub open spec fn failure_message(e: ApiErrorView) -> Seq<char> {
    match e {
        ApiErrorView::Http { status, body, .. } => "autumn returned "@ + decimal(status as nat)
            + ": "@ + body,
        ApiErrorView::Network(e) => "autumn unreachable: "@ + e,
    }
}

/// The billing error of a failure.
pub open spec fn billing_error(e: ApiErrorView) -> TriageErrorView {
    TriageErrorView::Billing(failure_message(e))
}

impl ApiError {
    /// Autumn's error code, where the body had one.
    pub fn code(&self) -> (code: Option<&str>)
        ensures
            code is Some <==> failure_code(self@) is Some,
            code matches Some(c) ==> failure_code(self@) == Some(c@),
    {
        match self {
            ApiError::Http { code, .. } => match code {
                Some(c) => Some(c.as_str()),
                None => None,
            },
            ApiError::Network(_) => None,
        }
    }

    /// Whether the code is this one.
    fn has_code(&self, code: &str) -> (yes: bool)
        ensures
            yes == (failure_code(self@) == Some(code@)),
    {
        match self.code() {
            Some(c) => same_text(c, code),
            None => false,
        }
    }

    /// The failure as one line of text.
    pub fn message(&self) -> (s: String)
        ensures
            s@ == failure_message(self@),
    {
        match self {
            ApiError::Http { status, body, .. } => {
                let mut s = String::from_str("autumn returned ");
                push_decimal(&mut s, *status as u64);
                s.append(": ");
                s.append(body.as_str());
                s
            },
            ApiError::Network(e) => {
                let mut s = String::from_str("autumn unreachable: ");
                s.append(e.as_str());
                s
            },
        }
    }

    /// The failure as a billing error.
    pub fn into_triage_error(self) -> (e: TriageError)
        ensures
            e@ == billing_error(self@),
    {
        TriageError::Billing(self.message())
    }
}

/// Whether a status is a success.
pub open spec fn success_status(status: u16) -> bool {
    200 <= status < 300
}

/// What a call comes to: the failure, or what the success holds.
pub open spec fn call_failure<T>(reply: Result<HttpReply<T>, String>) -> Option<ApiErrorView> {
    match reply {
        Err(e) => Some(ApiErrorView::Network(e@)),
        Ok(r) => if success_status(r.status) {
            None
        } else {
            Some(
                ApiErrorView::Http { status: r.status, code: option_view(r.code), body: r.body@ },
            )
        },
    }
}

/// Tells the failures of a call from its success.
pub fn read_reply<T>(reply: Result<HttpReply<T>, String>) -> (read: Result<
    Result<T, String>,
    ApiError,
>)
    ensures
        read is Err <==> call_failure(reply) is Some,
        read matches Err(e) ==> call_failure(reply) == Some(e@),
        read matches Ok(parsed) ==> parsed == reply->Ok_0.parsed,
{
    match reply {
        Err(e) => Err(ApiError::Network(e)),
        Ok(r) => if 200 <= r.status && r.status < 300 {
            Ok(r.parsed)
        } else {
            Err(ApiError::Http { status: r.status, code: r.code, body: r.body })
        },
    }
}

/// A request to the API.
#[derive(Debug)]
pub struct ApiRequest {
    pub path: String,
    pub body: Json,
}

/// A request's model.
pub struct ApiRequestView {
    pub path: Seq<char>,
    pub body: JsonView,
}

impl View for ApiRequest {
    type V = ApiRequestView;

    open spec fn view(&self) -> ApiRequestView {
        ApiRequestView { path: self.path@, body: self.body@ }
    }
}

/// The request that creates a customer where there is none.
pub open spec fn customer_call(installation_id: u64) -> ApiRequestView {
    ApiRequestView {
        path: "/customers"@,
        body: JsonView::Object(
            seq![
                member("id"@, JsonView::Str(customer_name(installation_id))),
                member(
                    "name"@,
                    JsonView::Str("GitHub installation "@ + decimal(installation_id as nat)),
                ),
            ],
        ),
    }
}

/// The request that asks whether a feature may be used.
pub open spec fn check_call(installation_id: u64, feature_id: Seq<char>) -> ApiRequestView {
    ApiRequestView {
        path: "/check"@,
        body: JsonView::Object(
            seq![
                member("customer_id"@, JsonView::Str(customer_name(installation_id))),
                member("feature_id"@, JsonView::Str(feature_id)),
            ],
        ),
    }
}

/// The request that meters a use.
pub open spec fn track_call(
    installation_id: u64,
    feature_id: Seq<char>,
    value: i64,
) -> ApiRequestView {
    ApiRequestView {
        path: "/track"@,
        body: JsonView::Object(
            seq![
                member("customer_id"@, JsonView::Str(customer_name(installation_id))),
                member("feature_id"@, JsonView::Str(feature_id)),
                member("value"@, JsonView::Int(value)),
            ],
        ),
    }
}

/// The request that starts a subscription.
pub open spec fn attach_call(installation_id: u64, product_id: Seq<char>) -> ApiRequestView {
    ApiRequestView {
        path: "/attach"@,
        body: JsonView::Object(
            seq![
                member("customer_id"@, JsonView::Str(customer_name(installation_id))),
                member("product_id"@, JsonView::Str(product_id)),
            ],
        ),
    }
}

/// Builds [`customer_call`].
pub fn customer_request(installation_id: u64) -> (r: ApiRequest)
    ensures
        r@ == customer_call(installation_id),
{
    let id = customer_id(installation_id);
    let mut name = String::from_str("GitHub installation ");
    push_decimal(&mut name, installation_id);
    let members = vec![Member::new("id", Json::Str(id)), Member::new("name", Json::Str(name))];
    proof {
        assert(views(members@) =~= seq![
            member("id"@, JsonView::Str(customer_name(installation_id))),
            member(
                "name"@,
                JsonView::Str("GitHub installation "@ + decimal(installation_id as nat)),
            ),
        ]);
    }
    ApiRequest { path: String::from_str("/customers"), body: Json::object(members) }
}

/// Builds [`check_call`].
pub fn check_request(installation_id: u64, feature_id: &str) -> (r: ApiRequest)
    ensures
        r@ == check_call(installation_id, feature_id@),
{
    let id = customer_id(installation_id);
    let members = vec![
        Member::new("customer_id", Json::Str(id)),
        Member::new("feature_id", Json::str(feature_id)),
    ];
    proof {
        assert(views(members@) =~= seq![
            member("customer_id"@, JsonView::Str(customer_name(installation_id))),
            member("feature_id"@, JsonView::Str(feature_id@)),
        ]);
    }
    ApiRequest { path: String::from_str("/check"), body: Json::object(members) }
}

/// Builds [`track_call`].
pub fn track_request(installation_id: u64, feature_id: &str, value: i64) -> (r: ApiRequest)
    ensures
        r@ == track_call(installation_id, feature_id@, value),
{
    let id = customer_id(installation_id);
    let members = vec![
        Member::new("customer_id", Json::Str(id)),
        Member::new("feature_id", Json::str(feature_id)),
        Member::new("value", Json::Int(value)),
    ];
    proof {
        assert(views(members@) =~= seq![
            member("customer_id"@, JsonView::Str(customer_name(installation_id))),
            member("feature_id"@, JsonView::Str(feature_id@)),
            member("value"@, JsonView::Int(value)),
        ]);
    }
    ApiRequest { path: String::from_str("/track"), body: Json::object(members) }
}

/// Builds [`attach_call`].
pub fn attach_request(installation_id: u64, product_id: &str) -> (r: ApiRequest)
    ensures
        r@ == attach_call(installation_id, product_id@),
{
    let id = customer_id(installation_id);
    let members = vec![
        Member::new("customer_id", Json::Str(id)),
        Member::new("product_id", Json::str(product_id)),
    ];
    proof {
        assert(views(members@) =~= seq![
            member("customer_id"@, JsonView::Str(customer_name(installation_id))),
            member("product_id"@, JsonView::Str(product_id@)),
        ]);
    }
    ApiRequest { path: String::from_str("/attach"), body: Json::object(members) }
}

/// What onboarding comes to: success, or the failure as a billing error.
pub open spec fn onboarding_error(reply: Result<HttpReply<()>, String>) -> Option<TriageErrorView> {
    match call_failure(reply) {
        Some(e) => Some(billing_error(e)),
        None => None,
    }
}

/// Idempotent onboarding: what the reply to [`customer_request`] comes to.
pub fn ensure_customer_exists(reply: Result<HttpReply<()>, String>) -> (done: Result<
    (),
    TriageError,
>)
    ensures
        done is Err <==> onboarding_error(reply) is Some,
        done matches Err(e) ==> onboarding_error(reply) == Some(e@),
{
    match read_reply(reply) {
        Ok(_) => Ok(()),
        Err(e) => Err(e.into_triage_error()),
    }
}

/// The error of an attach call, where it fails.
pub open spec fn attach_error(reply: Result<HttpReply<Option<String>>, String>) -> Option<
    TriageErrorView,
> {
    match call_failure(reply) {
        Some(e) => Some(billing_error(e)),
        None => match reply->Ok_0.parsed {
            Ok(_) => None,
            Err(e) => Some(TriageErrorView::Billing("unparseable attach response: "@ + e@)),
        },
    }
}

/// The checkout URL that Autumn answers an attach call with, when payment is
/// needed.
pub fn attach(reply: Result<HttpReply<Option<String>>, String>) -> (url: Result<
    Option<String>,
    TriageError,
>)
    ensures
        url is Err <==> attach_error(reply) is Some,
        url matches Err(e) ==> attach_error(reply) == Some(e@),
        url matches Ok(u) ==> Ok::<Option<String>, String>(u) == reply->Ok_0.parsed,
{
    match read_reply(reply) {
        Ok(Ok(url)) => Ok(url),
        Ok(Err(e)) => {
            let mut s = String::from_str("unparseable attach response: ");
            s.append(e.as_str());
            Err(TriageError::Billing(s))
        },
        Err(e) => Err(e.into_triage_error()),
    }
}

/// The reason of a denial.
pub open spec fn denial_reason(feature_id: Seq<char>) -> Seq<char> {
    "plan limit reached for feature `"@ + feature_id + "`"@
}

/// What one check comes to, without healing.
pub open spec fn one_check(
    feature_id: Seq<char>,
    reply: Result<HttpReply<bool>, String>,
) -> Result<BillingVerdictView, ApiErrorView> {
    match call_failure(reply) {
        Some(e) => Err(e),
        None => match reply->Ok_0.parsed {
            Ok(true) => Ok(BillingVerdictView::Allowed),
            Ok(false) => Ok(BillingVerdictView::Denied { reason: denial_reason(feature_id) }),
            Err(e) => Err(ApiErrorView::Network("unparseable check response: "@ + e@)),
        },
    }
}

/// One check, no healing. A verdict only for a 2xx response.
pub fn raw_check(feature_id: &str, reply: Result<HttpReply<bool>, String>) -> (verdict: Result<
    BillingVerdict,
    ApiError,
>)
    ensures
        verdict is Ok <==> one_check(feature_id@, reply) is Ok,
        verdict matches Ok(v) ==> one_check(feature_id@, reply) == Ok::<
            BillingVerdictView,
            ApiErrorView,
        >(v@),
        verdict matches Err(e) ==> one_check(feature_id@, reply) == Err::<
            BillingVerdictView,
            ApiErrorView,
        >(e@),
{
    match read_reply(reply) {
        Err(e) => Err(e),
        Ok(Ok(allowed)) => if allowed {
            Ok(BillingVerdict::Allowed)
        } else {
            let mut reason = String::from_str("plan limit reached for feature `");
            reason.append(feature_id);
            reason.append("`");
            Ok(BillingVerdict::Denied { reason })
        },
        Ok(Err(e)) => {
            let mut s = String::from_str("unparseable check response: ");
            s.append(e.as_str());
            Err(ApiError::Network(s))
        },
    }
}

/// A check with the three-way failure split. It never fails: outages and
/// configuration errors are encoded as `Unavailable` so the caller applies the
/// fail-open policy explicitly.
#[derive(Debug)]
pub enum FeatureCheck {
    /// Send the check.
    Check { installation_id: u64, feature_id: String },
    /// The customer is missing: create it.
    Onboard { installation_id: u64, feature_id: String },
    /// Send the check once more.
    Recheck { installation_id: u64, feature_id: String },
    Done(BillingVerdict),
}

/// A check's model.
pub enum FeatureCheckView {
    Check { installation_id: u64, feature_id: Seq<char> },
    Onboard { installation_id: u64, feature_id: Seq<char> },
    Recheck { installation_id: u64, feature_id: Seq<char> },
    Done(BillingVerdictView),
}

impl View for FeatureCheck {
    type V = FeatureCheckView;

    open spec fn view(&self) -> FeatureCheckView {
        match self {
            FeatureCheck::Check { installation_id, feature_id } => FeatureCheckView::Check {
                installation_id: *installation_id,
                feature_id: feature_id@,
            },
            FeatureCheck::Onboard { installation_id, feature_id } => FeatureCheckView::Onboard {
                installation_id: *installation_id,
                feature_id: feature_id@,
            },
            FeatureCheck::Recheck { installation_id, feature_id } => FeatureCheckView::Recheck {
                installation_id: *installation_id,
                feature_id: feature_id@,
            },
            FeatureCheck::Done(verdict) => FeatureCheckView::Done(verdict@),
        }
    }
}

/// The reply to a request of a check.
#[derive(Debug)]
pub enum CheckReply {
    Checked(Result<HttpReply<bool>, String>),
    Onboarded(Result<HttpReply<()>, String>),
}

/// Whether a failure says that the customer is missing.
pub open spec fn customer_missing(e: ApiErrorView) -> bool {
    failure_code(e) == Some("customer_not_found"@)
}

/// The request that a check waits for.
pub open spec fn check_run_call(run: FeatureCheckView) -> Option<ApiRequestView> {
    match run {
        FeatureCheckView::Check { installation_id, feature_id } => Some(
            check_call(installation_id, feature_id),
        ),
        FeatureCheckView::Onboard { installation_id, .. } => Some(customer_call(installation_id)),
        FeatureCheckView::Recheck { installation_id, feature_id } => Some(
            check_call(installation_id, feature_id),
        ),
        FeatureCheckView::Done(_) => None,
    }
}

/// The check after a reply; a reply to another request changes nothing.
pub open spec fn after_check(run: FeatureCheckView, reply: CheckReply) -> FeatureCheckView {
    match (run, reply) {
        (FeatureCheckView::Check { installation_id, feature_id }, CheckReply::Checked(r)) =>
        match one_check(feature_id, r) {
            Ok(verdict) => FeatureCheckView::Done(verdict),
            Err(e) => if customer_missing(e) {
                FeatureCheckView::Onboard { installation_id, feature_id }
            } else {
                FeatureCheckView::Done(BillingVerdictView::Unavailable)
            },
        },
        (FeatureCheckView::Onboard { installation_id, feature_id }, CheckReply::Onboarded(r)) =>
        match onboarding_error(r) {
            Some(_) => FeatureCheckView::Done(BillingVerdictView::Unavailable),
            None => FeatureCheckView::Recheck { installation_id, feature_id },
        },
        (FeatureCheckView::Recheck { feature_id, .. }, CheckReply::Checked(r)) => match one_check(
            feature_id,
            r,
        ) {
            Ok(verdict) => FeatureCheckView::Done(verdict),
            Err(_) => FeatureCheckView::Done(BillingVerdictView::Unavailable),
        },
        _ => run,
    }
}

/// What has to be reported of a failed check.
#[derive(Debug)]
pub enum CheckReport {
    /// The customer is missing and is created now.
    CustomerMissing { installation_id: u64 },
    /// The feature does not exist: a mistake in our own configuration, to be
    /// fixed. Until then uses pass.
    Misconfigured { feature_id: String },
    /// The customer could not be created.
    OnboardingFailed { installation_id: u64, error: String },
    /// The check failed for any other reason.
    CheckFailed { feature_id: String, error: String },
    /// The check failed once more after the customer was created.
    StillFailing { feature_id: String, error: String },
}

/// A report's model.
pub enum CheckReportView {
    CustomerMissing { installation_id: u64 },
    Misconfigured { feature_id: Seq<char> },
    OnboardingFailed { installation_id: u64, error: Seq<char> },
    CheckFailed { feature_id: Seq<char>, error: Seq<char> },
    StillFailing { feature_id: Seq<char>, error: Seq<char> },
}

impl View for CheckReport {
    type V = CheckReportView;

    open spec fn view(&self) -> CheckReportView {
        match self {
            CheckReport::CustomerMissing { installation_id } => CheckReportView::CustomerMissing {
                installation_id: *installation_id,
            },
            CheckReport::Misconfigured { feature_id } => CheckReportView::Misconfigured {
                feature_id: feature_id@,
            },
            CheckReport::OnboardingFailed { installation_id, error } =>
            CheckReportView::OnboardingFailed { installation_id: *installation_id, error: error@ },
            CheckReport::CheckFailed { feature_id, error } => CheckReportView::CheckFailed {
                feature_id: feature_id@,
                error: error@,
            },
            CheckReport::StillFailing { feature_id, error } => CheckReportView::StillFailing {
                feature_id: feature_id@,
                error: error@,
            },
        }
    }
}

/// Whether a failure says that the feature is missing.
pub open spec fn feature_missing(e: ApiErrorView) -> bool {
    failure_code(e) == Some("feature_not_found"@)
}

/// What has to be reported of a reply: nothing where the check is answered, else
/// the failure. Of a first check a missing feature is told apart from all other
/// failures; of a check after onboarding every failure is reported as it reads.
/// A reply to another request is not reported.
pub open spec fn check_report(run: FeatureCheckView, reply: CheckReply) -> Option<CheckReportView> {
    match (run, reply) {
        (FeatureCheckView::Check { installation_id, feature_id }, CheckReply::Checked(r)) =>
        match one_check(feature_id, r) {
            Ok(_) => None,
            Err(e) => if customer_missing(e) {
                Some(CheckReportView::CustomerMissing { installation_id })
            } else if feature_missing(e) {
                Some(CheckReportView::Misconfigured { feature_id })
            } else {
                Some(CheckReportView::CheckFailed { feature_id, error: failure_message(e) })
            },
        },
        (FeatureCheckView::Onboard { installation_id, .. }, CheckReply::Onboarded(r)) =>
        match onboarding_error(r) {
            None => None,
            Some(e) => Some(
                CheckReportView::OnboardingFailed { installation_id, error: error_message(e) },
            ),
        },
        (FeatureCheckView::Recheck { feature_id, .. }, CheckReply::Checked(r)) => match one_check(
            feature_id,
            r,
        ) {
            Ok(_) => None,
            Err(e) => Some(
                CheckReportView::StillFailing { feature_id, error: failure_message(e) },
            ),
        },
        _ => None,
    }
}

/// Whether a report is an error; the other one is a warning.
pub open spec fn is_error_report(report: CheckReportView) -> bool {
    !(report is CustomerMissing)
}

/// What a report says, beside the parts that it names.
pub open spec fn report_text(report: CheckReportView) -> Seq<char> {
    match report {
        CheckReportView::CustomerMissing { .. } =>
        "customer missing in Autumn — onboarding now (self-heal)"@,
        CheckReportView::Misconfigured { .. } =>
        "BILLING MISCONFIGURED: feature does not exist in Autumn — failing open until fixed"@,
        CheckReportView::OnboardingFailed { .. } => "self-heal customer creation failed"@,
        CheckReportView::CheckFailed { .. } => "Autumn check failed — treating as unavailable"@,
        CheckReportView::StillFailing { .. } => "check still failing after customer creation"@,
    }
}

impl CheckReport {
    /// Whether this is an error; the other one is a warning.
    pub fn is_error(&self) -> (yes: bool)
        ensures
            yes == is_error_report(self@),
    {
        match self {
            CheckReport::CustomerMissing { .. } => false,
            _ => true,
        }
    }

    /// What the report says, beside the parts that it names.
    pub fn message(&self) -> (s: &'static str)
        ensures
            s@ == report_text(self@),
    {
        match self {
            CheckReport::CustomerMissing { .. } =>
            "customer missing in Autumn — onboarding now (self-heal)",
            CheckReport::Misconfigured { .. } =>
            "BILLING MISCONFIGURED: feature does not exist in Autumn — failing open until fixed",
            CheckReport::OnboardingFailed { .. } => "self-heal customer creation failed",
            CheckReport::CheckFailed { .. } => "Autumn check failed — treating as unavailable",
            CheckReport::StillFailing { .. } => "check still failing after customer creation",
        }
    }
}

/// The failure of a call, where it is one.
fn failure_of<T>(reply: &Result<HttpReply<T>, String>) -> (failure: Option<ApiError>)
    ensures
        option_view(failure) == call_failure(*reply),
{
    match reply {
        Err(e) => Some(ApiError::Network(e.clone())),
        Ok(r) => if 200 <= r.status && r.status < 300 {
            None
        } else {
            Some(
                ApiError::Http {
                    status: r.status,
                    code: clone_option(&r.code),
                    body: r.body.clone(),
                },
            )
        },
    }
}

/// The failure of one check, where it is one.
fn check_failure(feature_id: &str, reply: &Result<HttpReply<bool>, String>) -> (failure: Option<
    ApiError,
>)
    ensures
        failure is Some <==> one_check(feature_id@, *reply) is Err,
        failure matches Some(e) ==> e@ == one_check(feature_id@, *reply)->Err_0,
{
    if let Some(e) = failure_of(reply) {
        return Some(e);
    }
    match reply {
        Ok(r) => match &r.parsed {
            Ok(_) => None,
            Err(e) => {
                let mut s = String::from_str("unparseable check response: ");
                s.append(e.as_str());
                Some(ApiError::Network(s))
            },
        },
        Err(_) => None,
    }
}

impl FeatureCheck {
    /// What has to be reported of the reply to the request, before the step.
    pub fn report(&self, reply: &CheckReply) -> (report: Option<CheckReport>)
        ensures
            option_view(report) == check_report(self@, *reply),
    {
        match (self, reply) {
            (FeatureCheck::Check { installation_id, feature_id }, CheckReply::Checked(r)) => {
                match check_failure(feature_id.as_str(), r) {
                    None => None,
                    Some(e) => Some(
                        if e.has_code("customer_not_found") {
                            CheckReport::CustomerMissing { installation_id: *installation_id }
                        } else if e.has_code("feature_not_found") {
                            CheckReport::Misconfigured { feature_id: feature_id.clone() }
                        } else {
                            CheckReport::CheckFailed {
                                feature_id: feature_id.clone(),
                                error: e.message(),
                            }
                        },
                    ),
                }
            },
            (FeatureCheck::Onboard { installation_id, .. }, CheckReply::Onboarded(r)) => {
                match failure_of(r) {
                    None => None,
                    Some(e) => Some(
                        CheckReport::OnboardingFailed {
                            installation_id: *installation_id,
                            error: e.into_triage_error().message(),
                        },
                    ),
                }
            },
            (FeatureCheck::Recheck { feature_id, .. }, CheckReply::Checked(r)) => {
                match check_failure(feature_id.as_str(), r) {
                    None => None,
                    Some(e) => Some(
                        CheckReport::StillFailing {
                            feature_id: feature_id.clone(),
                            error: e.message(),
                        },
                    ),
                }
            },
            _ => None,
        }
    }

    /// A check of a feature for an installation.
    pub fn check_feature(installation_id: u64, feature_id: &str) -> (run: Self)
        ensures
            run@ == (FeatureCheckView::Check { installation_id, feature_id: feature_id@ }),
    {
        FeatureCheck::Check { installation_id, feature_id: String::from_str(feature_id) }
    }

    /// Whether an installation may have a pull request triaged.
    pub fn check_triage(installation_id: u64) -> (run: Self)
        ensures
            run@ == (FeatureCheckView::Check { installation_id, feature_id: FEATURE_PR_TRIAGE@ }),
            run@->Check_feature_id == "pr_triage"@,
    {
        FeatureCheck::check_feature(installation_id, FEATURE_PR_TRIAGE)
    }

    /// Whether an installation may enable a repo.
    pub fn check_repo(installation_id: u64) -> (run: Self)
        ensures
            run@ == (FeatureCheckView::Check { installation_id, feature_id: FEATURE_REPOS@ }),
            run@->Check_feature_id == "repos"@,
    {
        FeatureCheck::check_feature(installation_id, FEATURE_REPOS)
    }

    /// The request that this state waits for.
    pub fn request(&self) -> (r: Option<ApiRequest>)
        ensures
            option_view(r) == check_run_call(self@),
    {
        match self {
            FeatureCheck::Check { installation_id, feature_id } => Some(
                check_request(*installation_id, feature_id.as_str()),
            ),
            FeatureCheck::Onboard { installation_id, .. } => Some(customer_request(*installation_id)),
            FeatureCheck::Recheck { installation_id, feature_id } => Some(
                check_request(*installation_id, feature_id.as_str()),
            ),
            FeatureCheck::Done(_) => None,
        }
    }

    /// Takes in the reply to the request.
    pub fn step(self, reply: CheckReply) -> (next: Self)
        ensures
            next@ == after_check(self@, reply),
    {
        match (self, reply) {
            (FeatureCheck::Check { installation_id, feature_id }, CheckReply::Checked(r)) =>
            match raw_check(feature_id.as_str(), r) {
                Ok(verdict) => FeatureCheck::Done(verdict),
                Err(e) => if e.has_code("customer_not_found") {
                    FeatureCheck::Onboard { installation_id, feature_id }
                } else {
                    FeatureCheck::Done(BillingVerdict::Unavailable)
                },
            },
            (FeatureCheck::Onboard { installation_id, feature_id }, CheckReply::Onboarded(r)) =>
            match ensure_customer_exists(r) {
                Err(_) => FeatureCheck::Done(BillingVerdict::Unavailable),
                Ok(()) => FeatureCheck::Recheck { installation_id, feature_id },
            },
            (FeatureCheck::Recheck { installation_id: _, feature_id }, CheckReply::Checked(r)) =>
            match raw_check(feature_id.as_str(), r) {
                Ok(verdict) => FeatureCheck::Done(verdict),
                Err(_) => FeatureCheck::Done(BillingVerdict::Unavailable),
            },
            (run, _) => run,
        }
    }
}

/// Metering of a use, with one self-heal retry if the customer doesn't exist
/// yet (e.g. journal entries from before onboarding existed).
#[derive(Debug)]
pub enum FeatureTrack {
    /// Send the use.
    Track { installation_id: u64, feature_id: String, value: i64 },
    /// The customer is missing: create it.
    Onboard { installation_id: u64, feature_id: String, value: i64 },
    /// Send the use once more.
    Retrack { installation_id: u64, feature_id: String, value: i64 },
    Done(Result<(), TriageError>),
}

/// The model of a metering.
pub enum FeatureTrackView {
    Track { installation_id: u64, feature_id: Seq<char>, value: i64 },
    Onboard { installation_id: u64, feature_id: Seq<char>, value: i64 },
    Retrack { installation_id: u64, feature_id: Seq<char>, value: i64 },
    Done(Result<(), TriageErrorView>),
}

impl View for FeatureTrack {
    type V = FeatureTrackView;

    open spec fn view(&self) -> FeatureTrackView {
        match self {
            FeatureTrack::Track { installation_id, feature_id, value } => FeatureTrackView::Track {
                installation_id: *installation_id,
                feature_id: feature_id@,
                value: *value,
            },
            FeatureTrack::Onboard { installation_id, feature_id, value } => FeatureTrackView::Onboard {
                installation_id: *installation_id,
                feature_id: feature_id@,
                value: *value,
            },
            FeatureTrack::Retrack { installation_id, feature_id, value } => FeatureTrackView::Retrack {
                installation_id: *installation_id,
                feature_id: feature_id@,
                value: *value,
            },
            FeatureTrack::Done(Ok(())) => FeatureTrackView::Done(Ok(())),
            FeatureTrack::Done(Err(e)) => FeatureTrackView::Done(Err(e@)),
        }
    }
}

/// The reply to a request of a metering.
#[derive(Debug)]
pub enum TrackReply {
    Metered(Result<HttpReply<()>, String>),
    Onboarded(Result<HttpReply<()>, String>),
}

/// The request that a metering waits for.
pub open spec fn track_run_call(run: FeatureTrackView) -> Option<ApiRequestView> {
    match run {
        FeatureTrackView::Track { installation_id, feature_id, value } => Some(
            track_call(installation_id, feature_id, value),
        ),
        FeatureTrackView::Onboard { installation_id, .. } => Some(customer_call(installation_id)),
        FeatureTrackView::Retrack { installation_id, feature_id, value } => Some(
            track_call(installation_id, feature_id, value),
        ),
        FeatureTrackView::Done(_) => None,
    }
}

/// The end of a metering whose last call came to this.
pub open spec fn track_end(failure: Option<ApiErrorView>) -> FeatureTrackView {
    match failure {
        None => FeatureTrackView::Done(Ok(())),
        Some(e) => FeatureTrackView::Done(Err(billing_error(e))),
    }
}

/// The metering after a reply; a reply to another request changes nothing.
pub open spec fn after_track(run: FeatureTrackView, reply: TrackReply) -> FeatureTrackView {
    match (run, reply) {
        (FeatureTrackView::Track { installation_id, feature_id, value }, TrackReply::Metered(r)) =>
        match call_failure(r) {
            Some(e) if customer_missing(e) => FeatureTrackView::Onboard {
                installation_id,
                feature_id,
                value,
            },
            failure => track_end(failure),
        },
        (FeatureTrackView::Onboard { installation_id, feature_id, value }, TrackReply::Onboarded(r)) =>
        match onboarding_error(r) {
            Some(e) => FeatureTrackView::Done(Err(e)),
            None => FeatureTrackView::Retrack { installation_id, feature_id, value },
        },
        (FeatureTrackView::Retrack { .. }, TrackReply::Metered(r)) => track_end(call_failure(r)),
        _ => run,
    }
}

impl FeatureTrack {
    /// Metering of so many units of a feature.
    pub fn track_feature(installation_id: u64, feature_id: &str, value: i64) -> (run: Self)
        ensures
            run@ == (FeatureTrackView::Track { installation_id, feature_id: feature_id@, value }),
    {
        FeatureTrack::Track { installation_id, feature_id: String::from_str(feature_id), value }
    }

    /// Metering of one triage.
    pub fn track_triage(installation_id: u64) -> (run: Self)
        ensures
            run@ == (FeatureTrackView::Track {
                installation_id,
                feature_id: FEATURE_PR_TRIAGE@,
                value: 1,
            }),
            run@->Track_feature_id == "pr_triage"@,
    {
        FeatureTrack::track_feature(installation_id, FEATURE_PR_TRIAGE, 1)
    }

    /// Metering of repos: +1 on repo enabled, -1 on repo removed.
    pub fn track_repo(installation_id: u64, delta: i64) -> (run: Self)
        ensures
            run@ == (FeatureTrackView::Track {
                installation_id,
                feature_id: FEATURE_REPOS@,
                value: delta,
            }),
            run@->Track_feature_id == "repos"@,
    {
        FeatureTrack::track_feature(installation_id, FEATURE_REPOS, delta)
    }

    /// The request that this state waits for.
    pub fn request(&self) -> (r: Option<ApiRequest>)
        ensures
            option_view(r) == track_run_call(self@),
    {
        match self {
            FeatureTrack::Track { installation_id, feature_id, value } => Some(
                track_request(*installation_id, feature_id.as_str(), *value),
            ),
            FeatureTrack::Onboard { installation_id, .. } => Some(customer_request(*installation_id)),
            FeatureTrack::Retrack { installation_id, feature_id, value } => Some(
                track_request(*installation_id, feature_id.as_str(), *value),
            ),
            FeatureTrack::Done(_) => None,
        }
    }

    /// Takes in the reply to the request.
    pub fn step(self, reply: TrackReply) -> (next: Self)
        ensures
            next@ == after_track(self@, reply),
    {
        match (self, reply) {
            (FeatureTrack::Track { installation_id, feature_id, value }, TrackReply::Metered(r)) =>
            match read_reply(r) {
                Ok(_) => FeatureTrack::Done(Ok(())),
                Err(e) => if e.has_code("customer_not_found") {
                    FeatureTrack::Onboard { installation_id, feature_id, value }
                } else {
                    FeatureTrack::Done(Err(e.into_triage_error()))
                },
            },
            (FeatureTrack::Onboard { installation_id, feature_id, value }, TrackReply::Onboarded(r)) =>
            match ensure_customer_exists(r) {
                Err(e) => FeatureTrack::Done(Err(e)),
                Ok(()) => FeatureTrack::Retrack { installation_id, feature_id, value },
            },
            (FeatureTrack::Retrack { .. }, TrackReply::Metered(r)) => match read_reply(r) {
                Ok(_) => FeatureTrack::Done(Ok(())),
                Err(e) => FeatureTrack::Done(Err(e.into_triage_error())),
            },
            (run, _) => run,
        }
    }
}

/// Only a success that says `allowed: false` denies a use.
pub proof fn law_only_a_real_denial_denies(run: FeatureCheckView, reply: CheckReply)
    requires
        !(run is Done),
        after_check(run, reply) matches FeatureCheckView::Done(BillingVerdictView::Denied { .. }),
    ensures
        reply matches CheckReply::Checked(Ok(r)) && success_status(r.status) && r.parsed == Ok::<
            bool,
            String,
        >(false),
{
}

/// Every other failure lets the use pass: a check that fails is `Unavailable`,
/// unless it was the first and the customer is missing, which onboards; and so
/// is one whose onboarding fails.
pub proof fn law_failures_leave_the_verdict_open(
    installation_id: u64,
    feature_id: Seq<char>,
    reply: Result<HttpReply<bool>, String>,
    onboarding: Result<HttpReply<()>, String>,
)
    requires
        one_check(feature_id, reply) is Err,
        call_failure(onboarding) is Some,
    ensures
        after_check(
            FeatureCheckView::Check { installation_id, feature_id },
            CheckReply::Checked(reply),
        ) == (if failure_code(one_check(feature_id, reply)->Err_0) == Some(
            "customer_not_found"@,
        ) {
            FeatureCheckView::Onboard { installation_id, feature_id }
        } else {
            FeatureCheckView::Done(BillingVerdictView::Unavailable)
        }),
        after_check(
            FeatureCheckView::Recheck { installation_id, feature_id },
            CheckReply::Checked(reply),
        ) == FeatureCheckView::Done(BillingVerdictView::Unavailable),
        after_check(
            FeatureCheckView::Onboard { installation_id, feature_id },
            CheckReply::Onboarded(onboarding),
        ) == FeatureCheckView::Done(BillingVerdictView::Unavailable),
{
}

/// A missing feature lets the use pass. A first check reports it as an error of
/// our own configuration, and no other failure so; a check after onboarding
/// reports it as an error that still stands.
pub proof fn law_a_missing_feature_is_reported(
    installation_id: u64,
    feature_id: Seq<char>,
    reply: Result<HttpReply<bool>, String>,
)
    ensures
        ({
            let misconfigured = Some(CheckReportView::Misconfigured { feature_id });
            let missing = call_failure(reply) is Some && failure_code(call_failure(reply)->0)
                == Some("feature_not_found"@);
            let open = FeatureCheckView::Done(BillingVerdictView::Unavailable);
            let first = FeatureCheckView::Check { installation_id, feature_id };
            let again = FeatureCheckView::Recheck { installation_id, feature_id };
            let answer = CheckReply::Checked(reply);
            &&& missing ==> after_check(first, answer) == open && after_check(again, answer) == open
            &&& check_report(first, answer) == misconfigured <==> missing
            &&& missing ==> check_report(again, answer) == Some(
                CheckReportView::StillFailing {
                    feature_id,
                    error: failure_message(call_failure(reply)->0),
                },
            )
            &&& is_error_report(misconfigured->0)
        }),
{
    reveal_strlit("customer_not_found");
    reveal_strlit("feature_not_found");
    assert("customer_not_found"@.len() != "feature_not_found"@.len());
}

/// No failure is passed over in silence: a reply that leaves the verdict open is
/// reported as an error, one that onboards as a warning, and a real verdict not
/// at all.
pub proof fn law_failures_are_reported(run: FeatureCheckView, reply: CheckReply)
    requires
        !(run is Done),
    ensures
        match after_check(run, reply) {
            FeatureCheckView::Done(BillingVerdictView::Unavailable) => check_report(run, reply)
                is Some && is_error_report(check_report(run, reply)->0),
            FeatureCheckView::Onboard { installation_id, .. } => !(run is Onboard) ==> check_report(
                run,
                reply,
            ) == Some(CheckReportView::CustomerMissing { installation_id }),
            _ => check_report(run, reply) is None,
        },
{
}

/// The check after a list of replies.
pub open spec fn after_checks(run: FeatureCheckView, replies: Seq<CheckReply>) -> FeatureCheckView
    decreases replies.len(),
{
    if replies.len() == 0 {
        run
    } else {
        after_check(after_checks(run, replies.drop_last()), replies.last())
    }
}

/// How many of a list of replies a check takes in from onboarding.
pub open spec fn check_onboardings(run: FeatureCheckView, replies: Seq<CheckReply>) -> nat
    decreases replies.len(),
{
    if replies.len() == 0 {
        0
    } else {
        check_onboardings(run, replies.drop_last()) + if after_checks(
            run,
            replies.drop_last(),
        ) is Onboard && replies.last() is Onboarded {
            1nat
        } else {
            0
        }
    }
}

/// How many of a list of replies a check takes in from the check itself.
pub open spec fn check_attempts(run: FeatureCheckView, replies: Seq<CheckReply>) -> nat
    decreases replies.len(),
{
    if replies.len() == 0 {
        0
    } else {
        let before = after_checks(run, replies.drop_last());
        check_attempts(run, replies.drop_last()) + if (before is Check || before is Recheck)
            && replies.last() is Checked {
            1nat
        } else {
            0
        }
    }
}

/// A check heals once at most: whatever the replies, the customer is created at
/// most once and the check sent at most twice.
pub proof fn law_a_check_heals_at_most_once(
    installation_id: u64,
    feature_id: Seq<char>,
    replies: Seq<CheckReply>,
)
    ensures
        check_onboardings(FeatureCheckView::Check { installation_id, feature_id }, replies) <= 1,
        check_attempts(FeatureCheckView::Check { installation_id, feature_id }, replies) <= 2,
{
    lemma_check_counts(FeatureCheckView::Check { installation_id, feature_id }, replies);
}

proof fn lemma_check_counts(run: FeatureCheckView, replies: Seq<CheckReply>)
    requires
        run is Check,
    ensures
        ({
            let healed = check_onboardings(run, replies);
            let sent = check_attempts(run, replies);
            match after_checks(run, replies) {
                FeatureCheckView::Check { .. } => healed == 0 && sent == 0,
                FeatureCheckView::Onboard { .. } => healed == 0 && sent == 1,
                FeatureCheckView::Recheck { .. } => healed == 1 && sent == 1,
                FeatureCheckView::Done(_) => healed <= 1 && sent <= 2,
            }
        }),
    decreases replies.len(),
{
    if replies.len() > 0 {
        lemma_check_counts(run, replies.drop_last());
    }
}

/// The metering after a list of replies.
pub open spec fn after_tracks(run: FeatureTrackView, replies: Seq<TrackReply>) -> FeatureTrackView
    decreases replies.len(),
{
    if replies.len() == 0 {
        run
    } else {
        after_track(after_tracks(run, replies.drop_last()), replies.last())
    }
}

/// How many of a list of replies to the metering itself are successes that the
/// run takes in.
pub open spec fn metered(run: FeatureTrackView, replies: Seq<TrackReply>) -> nat
    decreases replies.len(),
{
    if replies.len() == 0 {
        0
    } else {
        let before = after_tracks(run, replies.drop_last());
        metered(run, replies.drop_last()) + if (before is Track || before is Retrack)
            && replies.last() is Metered && call_failure(replies.last()->Metered_0) is None {
            1nat
        } else {
            0
        }
    }
}

/// A use is metered once: a run that ends well has had exactly one success from
/// the API, and one that ends in an error has had none.
pub proof fn law_a_use_is_metered_exactly_once(
    installation_id: u64,
    feature_id: Seq<char>,
    value: i64,
    replies: Seq<TrackReply>,
)
    ensures
        ({
            let start = FeatureTrackView::Track { installation_id, feature_id, value };
            let end = after_tracks(start, replies);
            &&& end == FeatureTrackView::Done(Ok(())) ==> metered(start, replies) == 1
            &&& end != FeatureTrackView::Done(Ok(())) ==> metered(start, replies) == 0
        }),
    decreases replies.len(),
{
    if replies.len() > 0 {
        law_a_use_is_metered_exactly_once(installation_id, feature_id, value, replies.drop_last());
    }
}

/// Every request of a run speaks of the installation, the feature and the
/// amount that it was started with.
pub proof fn law_requests_keep_their_subject(
    installation_id: u64,
    feature_id: Seq<char>,
    value: i64,
    checks: Seq<CheckReply>,
    tracks: Seq<TrackReply>,
)
    ensures
        ({
            let run = after_checks(FeatureCheckView::Check { installation_id, feature_id }, checks);
            check_run_call(run) matches Some(r) ==> r == check_call(installation_id, feature_id)
                || r == customer_call(installation_id)
        }),
        ({
            let run = after_tracks(
                FeatureTrackView::Track { installation_id, feature_id, value },
                tracks,
            );
            track_run_call(run) matches Some(r) ==> r == track_call(
                installation_id,
                feature_id,
                value,
            ) || r == customer_call(installation_id)
        }),
{
    lemma_check_subject(installation_id, feature_id, checks);
    lemma_track_subject(installation_id, feature_id, value, tracks);
}

proof fn lemma_check_subject(installation_id: u64, feature_id: Seq<char>, replies: Seq<CheckReply>)
    ensures
        match after_checks(FeatureCheckView::Check { installation_id, feature_id }, replies) {
            FeatureCheckView::Check { installation_id: i, feature_id: f } => i == installation_id && f
                == feature_id,
            FeatureCheckView::Onboard { installation_id: i, feature_id: f } => i == installation_id && f
                == feature_id,
            FeatureCheckView::Recheck { installation_id: i, feature_id: f } => i == installation_id && f
                == feature_id,
            FeatureCheckView::Done(_) => true,
        },
    decreases replies.len(),
{
    if replies.len() > 0 {
        lemma_check_subject(installation_id, feature_id, replies.drop_last());
    }
}

proof fn lemma_track_subject(
    installation_id: u64,
    feature_id: Seq<char>,
    value: i64,
    replies: Seq<TrackReply>,
)
    ensures
        match after_tracks(FeatureTrackView::Track { installation_id, feature_id, value }, replies) {
            FeatureTrackView::Track { installation_id: i, feature_id: f, value: v } => i
                == installation_id && f == feature_id && v == value,
            FeatureTrackView::Onboard { installation_id: i, feature_id: f, value: v } => i
                == installation_id && f == feature_id && v == value,
            FeatureTrackView::Retrack { installation_id: i, feature_id: f, value: v } => i
                == installation_id && f == feature_id && v == value,
            FeatureTrackView::Done(_) => true,
        },
    decreases replies.len(),
{
    if replies.len() > 0 {
        lemma_track_subject(installation_id, feature_id, value, replies.drop_last());
    }
}

/// Each request says whom and what it is about: the customer of the installation
/// by its name, the feature or the product, and how much of it.
#[verifier::rlimit(40)]
pub proof fn law_a_request_says_whom_and_what(
    installation_id: u64,
    feature_id: Seq<char>,
    product_id: Seq<char>,
    value: i64,
)
    ensures
        ({
            let name = Some("gh-install-"@ + decimal(installation_id as nat));
            let check = check_call(installation_id, feature_id);
            let track = track_call(installation_id, feature_id, value);
            let attach = attach_call(installation_id, product_id);
            let customer = customer_call(installation_id);
            &&& check.path == "/check"@
            &&& text_at(check.body, "customer_id"@) == name
            &&& text_at(check.body, "feature_id"@) == Some(feature_id)
            &&& track.path == "/track"@
            &&& text_at(track.body, "customer_id"@) == name
            &&& text_at(track.body, "feature_id"@) == Some(feature_id)
            &&& int_at(track.body, "value"@) == Some(value)
            &&& attach.path == "/attach"@
            &&& text_at(attach.body, "customer_id"@) == name
            &&& text_at(attach.body, "product_id"@) == Some(product_id)
            &&& customer.path == "/customers"@
            &&& text_at(customer.body, "id"@) == name
            &&& text_at(customer.body, "name"@) == Some(
                "GitHub installation "@ + decimal(installation_id as nat),
            )
        }),
{
    reveal_strlit("customer_id");
    reveal_strlit("feature_id");
    reveal_strlit("product_id");
    reveal_strlit("value");
    reveal_strlit("id");
    reveal_strlit("name");
    assert("customer_id"@.len() == 11 && "feature_id"@.len() == 10 && "product_id"@.len() == 10);
    assert("value"@.len() == 5 && "id"@.len() == 2 && "name"@.len() == 4);
    let check = check_call(installation_id, feature_id).body->Object_0;
    law_a_key_is_read_from_its_first_member(check, "customer_id"@, 0);
    law_a_key_is_read_from_its_first_member(check, "feature_id"@, 1);
    let track = track_call(installation_id, feature_id, value).body->Object_0;
    law_a_key_is_read_from_its_first_member(track, "customer_id"@, 0);
    law_a_key_is_read_from_its_first_member(track, "feature_id"@, 1);
    law_a_key_is_read_from_its_first_member(track, "value"@, 2);
    let attach = attach_call(installation_id, product_id).body->Object_0;
    law_a_key_is_read_from_its_first_member(attach, "customer_id"@, 0);
    law_a_key_is_read_from_its_first_member(attach, "product_id"@, 1);
    let customer = customer_call(installation_id).body->Object_0;
    law_a_key_is_read_from_its_first_member(customer, "id"@, 0);
    law_a_key_is_read_from_its_first_member(customer, "name"@, 1);
}

/// A check asks for its own installation and feature, a metering for its own
/// installation, feature and amount, first and again; between the two the
/// customer is created.
pub proof fn law_each_state_sends_its_request(
    installation_id: u64,
    feature_id: Seq<char>,
    value: i64,
    verdict: BillingVerdictView,
)
    ensures
        check_run_call(FeatureCheckView::Check { installation_id, feature_id }) == Some(
            check_call(installation_id, feature_id),
        ),
        check_run_call(FeatureCheckView::Onboard { installation_id, feature_id }) == Some(
            customer_call(installation_id),
        ),
        check_run_call(FeatureCheckView::Recheck { installation_id, feature_id }) == Some(
            check_call(installation_id, feature_id),
        ),
        check_run_call(FeatureCheckView::Done(verdict)) is None,
        track_run_call(FeatureTrackView::Track { installation_id, feature_id, value }) == Some(
            track_call(installation_id, feature_id, value),
        ),
        track_run_call(FeatureTrackView::Onboard { installation_id, feature_id, value }) == Some(
            customer_call(installation_id),
        ),
        track_run_call(FeatureTrackView::Retrack { installation_id, feature_id, value }) == Some(
            track_call(installation_id, feature_id, value),
        ),
{
}

/// A success decides the check as it says, the first time and after onboarding:
/// what is allowed is allowed, what is not is denied with a reason that names the
/// feature, and an answer that cannot be read leaves the verdict open.
pub proof fn law_a_success_decides_the_check(
    installation_id: u64,
    feature_id: Seq<char>,
    r: HttpReply<bool>,
    again: bool,
)
    requires
        200 <= r.status < 300,
    ensures
        ({
            let run = if again {
                FeatureCheckView::Recheck { installation_id, feature_id }
            } else {
                FeatureCheckView::Check { installation_id, feature_id }
            };
            let end = after_check(run, CheckReply::Checked(Ok(r)));
            &&& r.parsed == Ok::<bool, String>(true) ==> end == FeatureCheckView::Done(
                BillingVerdictView::Allowed,
            )
            &&& r.parsed == Ok::<bool, String>(false) ==> (
            end matches FeatureCheckView::Done(BillingVerdictView::Denied { reason })
                && reason == "plan limit reached for feature `"@ + feature_id + "`"@ && holds_text(
                reason,
                feature_id,
            ))
            &&& r.parsed is Err ==> end == FeatureCheckView::Done(BillingVerdictView::Unavailable)
        }),
{
    lemma_shown_between("plan limit reached for feature `"@, feature_id, "`"@);
}

/// A customer that is missing is created and the call made once more, for the
/// same installation, feature and amount.
pub proof fn law_a_missing_customer_is_created(
    installation_id: u64,
    feature_id: Seq<char>,
    value: i64,
    check: HttpReply<bool>,
    track: HttpReply<()>,
    created: HttpReply<()>,
)
    requires
        !(200 <= check.status < 300),
        !(200 <= track.status < 300),
        option_view(check.code) == Some("customer_not_found"@),
        option_view(track.code) == Some("customer_not_found"@),
        200 <= created.status < 300,
    ensures
        ({
            let first = after_check(
                FeatureCheckView::Check { installation_id, feature_id },
                CheckReply::Checked(Ok(check)),
            );
            &&& first == (FeatureCheckView::Onboard { installation_id, feature_id })
            &&& after_check(first, CheckReply::Onboarded(Ok(created))) == (
            FeatureCheckView::Recheck { installation_id, feature_id })
        }),
        ({
            let first = after_track(
                FeatureTrackView::Track { installation_id, feature_id, value },
                TrackReply::Metered(Ok(track)),
            );
            &&& first == (FeatureTrackView::Onboard { installation_id, feature_id, value })
            &&& after_track(first, TrackReply::Onboarded(Ok(created))) == (
            FeatureTrackView::Retrack { installation_id, feature_id, value })
        }),
{
}

/// A metering that the API takes ends well; one that it refuses for another
/// reason, or again, or that does not reach it, ends with a billing error that
/// shows the status and the text, or why there was no answer.
pub proof fn law_a_metering_ends_as_it_was_answered(
    installation_id: u64,
    feature_id: Seq<char>,
    value: i64,
    r: HttpReply<()>,
    e: String,
    again: bool,
)
    ensures
        ({
            let run = if again {
                FeatureTrackView::Retrack { installation_id, feature_id, value }
            } else {
                FeatureTrackView::Track { installation_id, feature_id, value }
            };
            let end = after_track(run, TrackReply::Metered(Ok(r)));
            &&& 200 <= r.status < 300 ==> end == FeatureTrackView::Done(Ok(()))
            &&& !(200 <= r.status < 300) && (again || option_view(r.code) != Some(
                "customer_not_found"@,
            )) ==> end == FeatureTrackView::Done(
                Err(
                    TriageErrorView::Billing(
                        "autumn returned "@ + decimal(r.status as nat) + ": "@ + r.body@,
                    ),
                ),
            )
            &&& after_track(run, TrackReply::Metered(Err(e))) == FeatureTrackView::Done(
                Err(TriageErrorView::Billing("autumn unreachable: "@ + e@)),
            )
        }),
{
}

/// Onboarding and attaching fail exactly where the call does, or where the
/// answer to an attach cannot be read, and the error shows why.
pub proof fn law_failed_calls_are_billing_errors(
    r: HttpReply<()>,
    a: HttpReply<Option<String>>,
    e: String,
)
    ensures
        onboarding_error(Ok(r)) is None <==> 200 <= r.status < 300,
        !(200 <= r.status < 300) ==> onboarding_error(Ok(r)) == Some(
            TriageErrorView::Billing(
                "autumn returned "@ + decimal(r.status as nat) + ": "@ + r.body@,
            ),
        ),
        onboarding_error(Err(e)) == Some(TriageErrorView::Billing("autumn unreachable: "@ + e@)),
        attach_error(Ok(a)) is None <==> 200 <= a.status < 300 && a.parsed is Ok,
        !(200 <= a.status < 300) ==> attach_error(Ok(a)) == Some(
            TriageErrorView::Billing(
                "autumn returned "@ + decimal(a.status as nat) + ": "@ + a.body@,
            ),
        ),
        attach_error(Err(e)) == Some(TriageErrorView::Billing("autumn unreachable: "@ + e@)),
{
}

/// A failure is reported with what failed and how it reads: a first check by its
/// feature, a check after onboarding likewise, a failed onboarding by its
/// installation.
pub proof fn law_reports_say_what_failed(
    installation_id: u64,
    feature_id: Seq<char>,
    r: HttpReply<bool>,
    o: HttpReply<()>,
    e: String,
)
    requires
        !(200 <= r.status < 300),
        !(200 <= o.status < 300),
    ensures
        ({
            let first = FeatureCheckView::Check { installation_id, feature_id };
            let again = FeatureCheckView::Recheck { installation_id, feature_id };
            let onboarding = FeatureCheckView::Onboard { installation_id, feature_id };
            let shown = "autumn returned "@ + decimal(r.status as nat) + ": "@ + r.body@;
            let code = option_view(r.code);
            &&& code == Some("customer_not_found"@) ==> check_report(
                first,
                CheckReply::Checked(Ok(r)),
            ) == Some(CheckReportView::CustomerMissing { installation_id })
            &&& code != Some("customer_not_found"@) && code != Some("feature_not_found"@)
                ==> check_report(first, CheckReply::Checked(Ok(r))) == Some(
                CheckReportView::CheckFailed { feature_id, error: shown },
            )
            &&& check_report(again, CheckReply::Checked(Ok(r))) == Some(
                CheckReportView::StillFailing { feature_id, error: shown },
            )
            &&& check_report(first, CheckReply::Checked(Err(e))) == Some(
                CheckReportView::CheckFailed {
                    feature_id,
                    error: "autumn unreachable: "@ + e@,
                },
            )
            &&& check_report(onboarding, CheckReply::Onboarded(Ok(o))) == Some(
                CheckReportView::OnboardingFailed {
                    installation_id,
                    error: "billing error: "@ + ("autumn returned "@ + decimal(o.status as nat)
                        + ": "@ + o.body@),
                },
            )
        }),
{
}

/// Each kind of report says what happened in words of its own.
pub proof fn law_reports_are_worded_by_their_kind(id: u64, feature: Seq<char>, error: Seq<char>)
    ensures
        report_text(CheckReportView::CustomerMissing { installation_id: id })
            == "customer missing in Autumn — onboarding now (self-heal)"@,
        report_text(CheckReportView::Misconfigured { feature_id: feature })
            == "BILLING MISCONFIGURED: feature does not exist in Autumn — failing open until fixed"@,
        report_text(CheckReportView::OnboardingFailed { installation_id: id, error })
            == "self-heal customer creation failed"@,
        report_text(CheckReportView::CheckFailed { feature_id: feature, error })
            == "Autumn check failed — treating as unavailable"@,
        report_text(CheckReportView::StillFailing { feature_id: feature, error })
            == "check still failing after customer creation"@,
        !is_error_report(CheckReportView::CustomerMissing { installation_id: id }),
        is_error_report(CheckReportView::CheckFailed { feature_id: feature, error }),
        is_error_report(CheckReportView::OnboardingFailed { installation_id: id, error }),
        is_error_report(CheckReportView::StillFailing { feature_id: feature, error }),
{
}

} // verus!
