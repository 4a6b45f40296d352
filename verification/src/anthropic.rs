//! Model calls over the Anthropic Messages API. Every call asks for structured
//! output with a JSON schema, so an answer that does not fit fails loudly.

use vstd::prelude::*;

use crate::config::RepoConfig;
use crate::error::{TriageError, TriageErrorView};
use crate::json::{Json, JsonView};
use crate::pr::PullRequestSnapshot;
use crate::prompts::{
    classification_properties, classification_schema, closed_object, decision_properties,
    decision_schema, decision_text, render_decision_input, render_snapshot, snapshot_text,
    CLASSIFY_SYSTEM, DECIDE_SYSTEM,
};
use crate::text::{
    begins_with, decimal, decimal_text, law_numbers_read_back, option_view, parse_u64, parsed_u64,
    same_text, views,
};
use crate::triage::{Classification, PolicyFinding};
use crate::wire::{
    ContentBlock, ContentBlockView, Message, MessagesRequest, MessagesResponse,
    MessagesResponseView, OutputConfig, OutputFormat,
};

verus! {

pub const DEFAULT_BASE_URL: &'static str = "https://api.anthropic.com";

pub const ANTHROPIC_VERSION: &'static str = "2023-06-01";

pub const MAX_TOKENS: u32 = 8192;

pub const MAX_ATTEMPTS: u32 = 3;

#[derive(Debug)]
pub struct AnthropicConfig {
    pub api_key: String,
    pub base_url: String,
    pub model: String,
}

impl AnthropicConfig {
    /// The configuration for a model at the API's own address. Which model is
    /// asked where none is configured is the deployment's choice.
    pub fn new(api_key: &str, model: &str) -> (config: Self)
        ensures
            config.api_key@ == api_key@,
            config.base_url@ == DEFAULT_BASE_URL@,
            config.model@ == model@,
    {
        AnthropicConfig {
            api_key: String::from_str(api_key),
            base_url: String::from_str(DEFAULT_BASE_URL),
            model: String::from_str(model),
        }
    }

    /// Where messages are sent to.
    pub fn messages_url(&self) -> (url: String)
        ensures
            url@ == self.base_url@ + "/v1/messages"@,
    {
        let mut url = self.base_url.clone();
        url.append("/v1/messages");
        url
    }
}

/// Whether a request asks this of the model: one message of the user, under a
/// system text, answered by a value of a schema.
pub open spec fn asks(
    r: MessagesRequest<'_>,
    model: Seq<char>,
    system: Seq<char>,
    user: Seq<char>,
    schema: JsonView,
) -> bool {
    &&& r.model@ == model
    &&& r.max_tokens == MAX_TOKENS
    &&& r.system@ == system
    &&& r.messages@.len() == 1
    &&& r.messages@[0].role@ == "user"@
    &&& r.messages@[0].content@ == user
    &&& r.output_config.format.kind@ == "json_schema"@
    &&& r.output_config.format.schema@ == schema
}

/// One structured-output request.
pub fn structured_request<'a>(
    config: &'a AnthropicConfig,
    system: &'a str,
    user: String,
    schema: Json,
) -> (r: MessagesRequest<'a>)
    ensures
        asks(r, config.model@, system@, user@, schema@),
{
    MessagesRequest {
        model: config.model.as_str(),
        max_tokens: MAX_TOKENS,
        system,
        messages: vec![Message { role: "user", content: user }],
        output_config: OutputConfig { format: OutputFormat { kind: "json_schema", schema } },
    }
}

/// The request of the classify step.
pub fn classify<'a>(config: &'a AnthropicConfig, snapshot: &PullRequestSnapshot) -> (r:
    MessagesRequest<'a>)
    ensures
        asks(
            r,
            config.model@,
            CLASSIFY_SYSTEM@,
            snapshot_text(snapshot@),
            closed_object(classification_properties()),
        ),
{
    structured_request(config, CLASSIFY_SYSTEM, render_snapshot(snapshot), classification_schema())
}

/// The request of the decide step.
pub fn decide<'a>(
    config: &'a AnthropicConfig,
    snapshot: &PullRequestSnapshot,
    classification: &Classification,
    findings: &Vec<PolicyFinding>,
    repo: &RepoConfig,
) -> (r: MessagesRequest<'a>)
    ensures
        asks(
            r,
            config.model@,
            DECIDE_SYSTEM@,
            decision_text(snapshot@, classification@, views(findings@), repo@),
            closed_object(decision_properties()),
        ),
{
    structured_request(
        config,
        DECIDE_SYSTEM,
        render_decision_input(snapshot, classification, findings, repo),
        decision_schema(),
    )
}

/// How `http::StatusCode` writes a status: its number and its reason phrase.
pub uninterp spec fn status_phrase(status: u16) -> Seq<char>;

/// `http::StatusCode::from_u16` and the code's `Display`. A status has three
/// digits; it is written as them, a blank and a phrase that depends on the
/// number alone.
#[verifier::external_body]
fn phrase_of(status: u16) -> (phrase: Option<String>)
    ensures
        phrase is Some <==> 100 <= status < 1000,
        phrase matches Some(p) ==> p@ == status_phrase(status) && begins_with(
            p@,
            decimal(status as nat) + seq![' '],
        ),
{
    http::StatusCode::from_u16(status).ok().map(|code| code.to_string())
}

/// How a status is written; one that HTTP does not know as its number.
pub open spec fn status_text(status: u16) -> Seq<char> {
    if 100 <= status < 1000 {
        status_phrase(status)
    } else {
        decimal(status as nat)
    }
}

/// The seconds of a `retry-after` header.
pub open spec fn retry_after(header: Option<Seq<char>>) -> Option<u64> {
    match header {
        Some(h) => parsed_u64(h),
        None => None,
    }
}

/// The seconds of a `retry-after` header, where it is one.
pub fn retry_after_secs(header: &Option<String>) -> (secs: Option<u64>)
    ensures
        secs == retry_after(option_view(*header)),
{
    match header {
        Some(h) => parse_u64(h.as_str()),
        None => None,
    }
}

/// The reply to one attempt.
#[derive(Debug)]
pub enum AttemptReply {
    /// An answer: its status, its `retry-after` header, its text, and the text
    /// read as a response.
    Answered {
        status: u16,
        retry_after: Option<String>,
        text: String,
        response: Result<MessagesResponse, String>,
    },
    /// No answer, and why.
    Failed(String),
}

/// A reply's model.
pub enum AttemptReplyView {
    Answered {
        status: u16,
        retry_after: Option<Seq<char>>,
        text: Seq<char>,
        response: Result<MessagesResponseView, Seq<char>>,
    },
    Failed(Seq<char>),
}

impl View for AttemptReply {
    type V = AttemptReplyView;

    open spec fn view(&self) -> AttemptReplyView {
        match self {
            AttemptReply::Answered { status, retry_after, text, response } =>
            AttemptReplyView::Answered {
                status: *status,
                retry_after: option_view(*retry_after),
                text: text@,
                response: response_view(*response),
            },
            AttemptReply::Failed(e) => AttemptReplyView::Failed(e@),
        }
    }
}

/// The model of a response that may be unreadable.
pub open spec fn response_view(response: Result<MessagesResponse, String>) -> Result<
    MessagesResponseView,
    Seq<char>,
> {
    match response {
        Ok(r) => Ok(r@),
        Err(e) => Err(e@),
    }
}

/// The text of the first text block.
pub open spec fn first_text(content: Seq<ContentBlockView>) -> Option<Seq<char>>
    decreases content.len(),
{
    if content.len() == 0 {
        None
    } else {
        match content[0] {
            ContentBlockView::Text { text } => Some(text),
            ContentBlockView::Other => first_text(content.drop_first()),
        }
    }
}

/// What the text of an answer is, or why there is none.
pub open spec fn answer_text(response: Result<MessagesResponseView, Seq<char>>) -> Result<
    Seq<char>,
    TriageErrorView,
> {
    match response {
        Err(e) => Err(TriageErrorView::Model("unreadable API response: "@ + e)),
        Ok(r) => if r.stop_reason == Some("refusal"@) {
            Err(TriageErrorView::Model("model refused the request (stop_reason: refusal)"@))
        } else if r.stop_reason == Some("max_tokens"@) {
            Err(
                TriageErrorView::InvalidModelOutput(
                    "response truncated at max_tokens; structured output incomplete"@,
                ),
            )
        } else {
            match first_text(r.content) {
                Some(text) => Ok(text),
                None => Err(
                    TriageErrorView::InvalidModelOutput("no text block in model response"@),
                ),
            }
        },
    }
}

/// The model of a text or an error.
pub open spec fn text_or_error(result: Result<String, TriageError>) -> Result<
    Seq<char>,
    TriageErrorView,
> {
    match result {
        Ok(s) => Ok(s@),
        Err(e) => Err(e@),
    }
}

fn is_text(item: &Option<String>, text: &str) -> (yes: bool)
    ensures
        yes == (option_view(*item) == Some(text@)),
{
    match item {
        Some(s) => same_text(s.as_str(), text),
        None => false,
    }
}

/// Reads the text of an answer.
pub fn read_answer(response: Result<MessagesResponse, String>) -> (text: Result<
    String,
    TriageError,
>)
    ensures
        text_or_error(text) == answer_text(response_view(response)),
{
    let r = match response {
        Err(e) => {
            let mut s = String::from_str("unreadable API response: ");
            s.append(e.as_str());
            return Err(TriageError::Model(s));
        },
        Ok(r) => r,
    };
    if is_text(&r.stop_reason, "refusal") {
        return Err(
            TriageError::Model(String::from_str("model refused the request (stop_reason: refusal)")),
        );
    }
    proof {
        reveal_strlit("refusal");
        reveal_strlit("max_tokens");
    }
    if is_text(&r.stop_reason, "max_tokens") {
        return Err(
            TriageError::InvalidModelOutput(
                String::from_str("response truncated at max_tokens; structured output incomplete"),
            ),
        );
    }
    let ghost content = views(r.content@);
    let mut i: usize = 0;
    proof {
        assert(content.skip(0) =~= content);
    }
    while i < r.content.len()
        invariant
            content == views(r.content@),
            i <= r.content@.len(),
            response_view(response) == Ok::<MessagesResponseView, Seq<char>>(r@),
            r@.stop_reason != Some("refusal"@),
            r@.stop_reason != Some("max_tokens"@),
            first_text(content) == first_text(content.skip(i as int)),
        decreases r.content.len() - i,
    {
        proof {
            assert(content.skip(i as int).drop_first() =~= content.skip(i + 1));
        }
        match &r.content[i] {
            ContentBlock::Text { text } => {
                return Ok(text.clone());
            },
            ContentBlock::Other => {},
        }
        i = i + 1;
    }
    Err(TriageError::InvalidModelOutput(String::from_str("no text block in model response")))
}

/// A value read from the text of an answer; what does not fit the schema is
/// invalid output.
pub fn typed_answer<T>(parsed: Result<T, String>) -> (value: Result<T, TriageError>)
    ensures
        value is Ok <==> parsed is Ok,
        value matches Ok(v) ==> parsed == Ok::<T, String>(v),
        value matches Err(e) ==> e@ == TriageErrorView::InvalidModelOutput(
            "schema deserialization failed: "@ + parsed->Err_0@,
        ),
{
    match parsed {
        Ok(v) => Ok(v),
        Err(e) => {
            let mut s = String::from_str("schema deserialization failed: ");
            s.append(e.as_str());
            Err(TriageError::InvalidModelOutput(s))
        },
    }
}

/// One structured-output call: an attempt, or its end.
#[derive(Debug)]
pub enum ModelCall {
    /// Wait so many seconds, then send attempt number `attempt`.
    Send { attempt: u32, delay_secs: u64 },
    /// The text of the answer, or the error.
    Done(Result<String, TriageError>),
}

/// A call's model.
pub enum ModelCallView {
    Send { attempt: u32, delay_secs: u64 },
    Done(Result<Seq<char>, TriageErrorView>),
}

impl View for ModelCall {
    type V = ModelCallView;

    open spec fn view(&self) -> ModelCallView {
        match self {
            ModelCall::Send { attempt, delay_secs } => ModelCallView::Send {
                attempt: *attempt,
                delay_secs: *delay_secs,
            },
            ModelCall::Done(result) => ModelCallView::Done(text_or_error(*result)),
        }
    }
}

/// Whether another attempt may do better: rate limits and server errors.
pub open spec fn is_retryable(status: u16) -> bool {
    status == 429 || 500 <= status < 600
}

/// The call after a reply to an attempt.
pub open spec fn after_attempt(call: ModelCallView, reply: AttemptReplyView) -> ModelCallView {
    match call {
        ModelCallView::Done(_) => call,
        ModelCallView::Send { attempt, .. } => match reply {
            AttemptReplyView::Answered { status, retry_after: header, text, response } =>
            if 200 <= status < 300 {
                ModelCallView::Done(answer_text(response))
            } else if is_retryable(status) && attempt < MAX_ATTEMPTS {
                ModelCallView::Send {
                    attempt: (attempt + 1) as u32,
                    delay_secs: match retry_after(header) {
                        Some(secs) => secs,
                        None => attempt as u64,
                    },
                }
            } else {
                ModelCallView::Done(
                    Err(
                        TriageErrorView::Model(
                            "Anthropic API returned "@ + status_text(status) + ": "@ + text,
                        ),
                    ),
                )
            },
            AttemptReplyView::Failed(e) => if attempt < MAX_ATTEMPTS {
                ModelCallView::Send { attempt: (attempt + 1) as u32, delay_secs: attempt as u64 }
            } else {
                ModelCallView::Done(Err(TriageErrorView::Model(e)))
            },
        },
    }
}

/// The error of an answer that is no success, from its status line.
pub fn refusal_error(status_line: &str, text: &str) -> (e: TriageError)
    ensures
        e@ == TriageErrorView::Model(
            "Anthropic API returned "@ + status_line@ + ": "@ + text@,
        ),
{
    let mut s = String::from_str("Anthropic API returned ");
    s.append(status_line);
    s.append(": ");
    s.append(text);
    TriageError::Model(s)
}

/// The error of an answer that is no success. It names the status.
pub fn status_error(status: u16, text: &str) -> (e: TriageError)
    ensures
        e@ == TriageErrorView::Model(
            "Anthropic API returned "@ + status_text(status) + ": "@ + text@,
        ),
        begins_with(e@->Model_0, "Anthropic API returned "@ + decimal(status as nat)),
{
    let line = match phrase_of(status) {
        Some(phrase) => phrase,
        None => decimal_text(status as u64),
    };
    let e = refusal_error(line.as_str(), text);
    proof {
        let head = "Anthropic API returned "@;
        let number = decimal(status as nat);
        assert(line@.take(number.len() as int) =~= number);
        assert(e@->Model_0.take((head + number).len() as int) =~= head + number);
    }
    e
}

impl ModelCall {
    /// A call before its first attempt.
    pub fn structured() -> (call: Self)
        ensures
            call@ == (ModelCallView::Send { attempt: 1, delay_secs: 0 }),
    {
        ModelCall::Send { attempt: 1, delay_secs: 0 }
    }

    /// Takes in the reply to an attempt. Retries 429 and 5xx honoring
    /// `retry-after`.
    pub fn step(self, reply: AttemptReply) -> (next: Self)
        ensures
            next@ == after_attempt(self@, reply@),
    {
        let attempt: u32 = match self {
            ModelCall::Done(_) => {
                return self;
            },
            ModelCall::Send { attempt, .. } => attempt,
        };
        match reply {
            AttemptReply::Answered { status, retry_after, text, response } => {
                if 200 <= status && status < 300 {
                    return ModelCall::Done(read_answer(response));
                }
                let retryable = status == 429 || (500 <= status && status < 600);
                if retryable && attempt < MAX_ATTEMPTS {
                    let delay_secs: u64 = match retry_after_secs(&retry_after) {
                        Some(secs) => secs,
                        None => attempt as u64,
                    };
                    ModelCall::Send { attempt: attempt + 1, delay_secs }
                } else {
                    ModelCall::Done(Err(status_error(status, text.as_str())))
                }
            },
            AttemptReply::Failed(e) => if attempt < MAX_ATTEMPTS {
                ModelCall::Send { attempt: attempt + 1, delay_secs: attempt as u64 }
            } else {
                ModelCall::Done(Err(TriageError::Model(e)))
            },
        }
    }
}

/// The first state of a call.
pub open spec fn first_attempt() -> ModelCallView {
    ModelCallView::Send { attempt: 1, delay_secs: 0 }
}

/// The call after a list of replies.
pub open spec fn after_attempts(replies: Seq<AttemptReplyView>) -> ModelCallView
    decreases replies.len(),
{
    if replies.len() == 0 {
        first_attempt()
    } else {
        after_attempt(after_attempts(replies.drop_last()), replies.last())
    }
}

/// A call ends after three replies at most, and while it goes on its attempts
/// are counted.
pub proof fn law_a_call_makes_three_attempts_at_most(replies: Seq<AttemptReplyView>)
    ensures
        after_attempts(replies) matches ModelCallView::Send { attempt, .. } ==> attempt
            == replies.len() + 1 && attempt <= 3,
        replies.len() >= 3 ==> after_attempts(replies) is Done,
    decreases replies.len(),
{
    if replies.len() > 0 {
        law_a_call_makes_three_attempts_at_most(replies.drop_last());
    }
}

/// Only a rate limit, a server error or a missing answer is tried again; any
/// other refusal ends the call at once.
pub proof fn law_only_passing_failures_are_retried(
    attempt: u32,
    delay_secs: u64,
    reply: AttemptReplyView,
)
    requires
        after_attempt(ModelCallView::Send { attempt, delay_secs }, reply) is Send,
    ensures
        reply is Failed || reply->Answered_status == 429 || 500 <= reply->Answered_status < 600,
        attempt < MAX_ATTEMPTS,
{
}

/// A call yields a text only from a success that the model neither refused nor
/// cut short.
pub proof fn law_no_text_without_a_whole_answer(replies: Seq<AttemptReplyView>)
    requires
        after_attempts(replies) matches ModelCallView::Done(Ok(_)),
    ensures
        exists|i: int|
            0 <= i < replies.len() && #[trigger] whole_answer(
                replies[i],
                after_attempts(replies)->Done_0->Ok_0,
            ),
    decreases replies.len(),
{
    let before = after_attempts(replies.drop_last());
    if before is Done {
        law_no_text_without_a_whole_answer(replies.drop_last());
        let rest = replies.drop_last();
        let text = after_attempts(rest)->Done_0->Ok_0;
        let i = choose|i: int| 0 <= i < rest.len() && #[trigger] whole_answer(rest[i], text);
        assert(whole_answer(replies[i], text));
    } else {
        assert(whole_answer(replies[replies.len() - 1], after_attempts(replies)->Done_0->Ok_0));
    }
}

/// Whether a reply is a success with a text as its first text block.
pub open spec fn whole_answer(reply: AttemptReplyView, text: Seq<char>) -> bool {
    match reply {
        AttemptReplyView::Answered { status, response: Ok(r), .. } => {
            &&& 200 <= status < 300
            &&& r.stop_reason != Some("refusal"@)
            &&& r.stop_reason != Some("max_tokens"@)
            &&& first_text(r.content) == Some(text)
        },
        _ => false,
    }
}

/// A request says what is asked: one message of the user with the text given,
/// under the system text, for the model that is configured, to be answered by a
/// value of the schema within the token limit.
pub proof fn law_a_request_says_what_is_asked(
    r: MessagesRequest<'_>,
    model: Seq<char>,
    system: Seq<char>,
    user: Seq<char>,
    schema: JsonView,
)
    requires
        asks(r, model, system, user, schema),
    ensures
        r.model@ == model,
        r.max_tokens == 8192,
        r.system@ == system,
        r.messages@.len() == 1,
        r.messages@[0].role@ == "user"@,
        r.messages@[0].content@ == user,
        r.output_config.format.kind@ == "json_schema"@,
        r.output_config.format.schema@ == schema,
{
}

/// The first text block answers, at whatever place it stands; blocks of another
/// kind before it are passed over, and blocks behind it make no difference.
pub proof fn law_the_first_text_block_answers(content: Seq<ContentBlockView>, i: int)
    ensures
        0 <= i < content.len() && content[i] is Text && (forall|k: int|
            0 <= k < i ==> (#[trigger] content[k]) is Other) ==> first_text(content) == Some(
            content[i]->text,
        ),
        (forall|k: int| 0 <= k < content.len() ==> (#[trigger] content[k]) is Other)
            ==> first_text(content) is None,
    decreases content.len(),
{
    if content.len() > 0 && content[0] is Other {
        let rest = content.drop_first();
        law_the_first_text_block_answers(rest, i - 1);
        assert forall|k: int| 0 <= k < rest.len() implies #[trigger] rest[k] == content[k + 1] by {}
        if 0 < i < content.len() {
            assert(rest[i - 1] == content[i]);
        }
    }
}

/// A success gives the text of its first text block, unless the model refused or
/// was cut short; each of these, a response that cannot be read and one without
/// a text is an error of its own.
pub proof fn law_a_success_gives_its_text(
    attempt: u32,
    delay_secs: u64,
    status: u16,
    header: Option<Seq<char>>,
    body: Seq<char>,
    r: MessagesResponseView,
    i: int,
    e: Seq<char>,
)
    requires
        200 <= status < 300,
    ensures
        ({
            let call = ModelCallView::Send { attempt, delay_secs };
            let read = after_attempt(
                call,
                AttemptReplyView::Answered {
                    status,
                    retry_after: header,
                    text: body,
                    response: Ok(r),
                },
            );
            let unread = after_attempt(
                call,
                AttemptReplyView::Answered {
                    status,
                    retry_after: header,
                    text: body,
                    response: Err(e),
                },
            );
            let whole = r.stop_reason != Some("refusal"@) && r.stop_reason != Some("max_tokens"@);
            &&& whole && 0 <= i < r.content.len() && r.content[i] is Text && (forall|k: int|
                0 <= k < i ==> (#[trigger] r.content[k]) is Other) ==> read == ModelCallView::Done(
                Ok(r.content[i]->text),
            )
            &&& whole && (forall|k: int|
                0 <= k < r.content.len() ==> (#[trigger] r.content[k]) is Other) ==> read
                == ModelCallView::Done(
                Err(TriageErrorView::InvalidModelOutput("no text block in model response"@)),
            )
            &&& r.stop_reason == Some("refusal"@) ==> read == ModelCallView::Done(
                Err(TriageErrorView::Model("model refused the request (stop_reason: refusal)"@)),
            )
            &&& r.stop_reason == Some("max_tokens"@) ==> read == ModelCallView::Done(
                Err(
                    TriageErrorView::InvalidModelOutput(
                        "response truncated at max_tokens; structured output incomplete"@,
                    ),
                ),
            )
            &&& unread == ModelCallView::Done(
                Err(TriageErrorView::Model("unreadable API response: "@ + e)),
            )
        }),
{
    law_the_first_text_block_answers(r.content, i);
    reveal_strlit("refusal");
    reveal_strlit("max_tokens");
    assert("refusal"@.len() != "max_tokens"@.len());
}

/// A rate limit, a server error or a missing answer is tried again while
/// attempts are left: after the seconds that the server names, or else after as
/// many as there were attempts.
pub proof fn law_a_passing_failure_is_retried(
    attempt: u32,
    delay_secs: u64,
    status: u16,
    header: Option<Seq<char>>,
    text: Seq<char>,
    response: Result<MessagesResponseView, Seq<char>>,
    n: u64,
    e: Seq<char>,
)
    requires
        attempt < 3,
        status == 429 || 500 <= status < 600,
    ensures
        ({
            let call = ModelCallView::Send { attempt, delay_secs };
            let next = after_attempt(
                call,
                AttemptReplyView::Answered { status, retry_after: header, text, response },
            );
            &&& next matches ModelCallView::Send { attempt: a, delay_secs: d } && {
                &&& a == attempt + 1
                &&& header is None ==> d == attempt
                &&& header is Some && parsed_u64(header->0) is None ==> d == attempt
                &&& header == Some(decimal(n as nat)) ==> d == n
            }
            &&& after_attempt(call, AttemptReplyView::Failed(e)) == (ModelCallView::Send {
                attempt: (attempt + 1) as u32,
                delay_secs: attempt as u64,
            })
        }),
{
    law_numbers_read_back(n);
}

/// Any other refusal, and every failure of the third attempt, ends the call with
/// an error that shows the status and the answer's text, or why there was none.
pub proof fn law_a_last_failure_is_an_error(
    attempt: u32,
    delay_secs: u64,
    status: u16,
    header: Option<Seq<char>>,
    text: Seq<char>,
    response: Result<MessagesResponseView, Seq<char>>,
    e: Seq<char>,
)
    requires
        !(200 <= status < 300),
        attempt >= 3 || !(status == 429 || 500 <= status < 600),
    ensures
        ({
            let call = ModelCallView::Send { attempt, delay_secs };
            let end = after_attempt(
                call,
                AttemptReplyView::Answered { status, retry_after: header, text, response },
            );
            &&& end == ModelCallView::Done(
                Err(
                    TriageErrorView::Model(
                        "Anthropic API returned "@ + status_text(status) + ": "@ + text,
                    ),
                ),
            )
            &&& attempt >= 3 ==> after_attempt(call, AttemptReplyView::Failed(e))
                == ModelCallView::Done(Err(TriageErrorView::Model(e)))
        }),
{
}

} // verus!
