//! The error type that crosses every boundary.

use vstd::prelude::*;

verus! {

/// Unified error type crossing the service boundaries.
///
/// Adapters map their library-specific errors into these variants so the agent
/// and worker can reason about failure classes.
#[derive(Debug)]
pub enum TriageError {
    /// The model responded, but the payload failed schema validation or
    /// deserialization. Always a hard failure: never guess a decision.
    InvalidModelOutput(String),
    /// The model endpoint itself failed (network, 5xx, rate limit exhausted).
    Model(String),
    Host(String),
    Billing(String),
    Store(String),
    Config(String),
}

/// An error's model.
pub enum TriageErrorView {
    InvalidModelOutput(Seq<char>),
    Model(Seq<char>),
    Host(Seq<char>),
    Billing(Seq<char>),
    Store(Seq<char>),
    Config(Seq<char>),
}

impl View for TriageError {
    type V = TriageErrorView;

    open spec fn view(&self) -> TriageErrorView {
        match self {
            TriageError::InvalidModelOutput(s) => TriageErrorView::InvalidModelOutput(s@),
            TriageError::Model(s) => TriageErrorView::Model(s@),
            TriageError::Host(s) => TriageErrorView::Host(s@),
            TriageError::Billing(s) => TriageErrorView::Billing(s@),
            TriageError::Store(s) => TriageErrorView::Store(s@),
            TriageError::Config(s) => TriageErrorView::Config(s@),
        }
    }
}

/// How an error reads.
pub open spec fn error_message(e: TriageErrorView) -> Seq<char> {
    match e {
        TriageErrorView::InvalidModelOutput(s) => "model output failed validation: "@ + s,
        TriageErrorView::Model(s) => "model request failed: "@ + s,
        TriageErrorView::Host(s) => "pull request host error: "@ + s,
        TriageErrorView::Billing(s) => "billing error: "@ + s,
        TriageErrorView::Store(s) => "storage error: "@ + s,
        TriageErrorView::Config(s) => "invalid repo config: "@ + s,
    }
}

impl TriageError {
    /// The error as one line of text.
    pub fn message(&self) -> (s: String)
        ensures
            s@ == error_message(self@),
    {
        let (head, detail) = match self {
            TriageError::InvalidModelOutput(s) => ("model output failed validation: ", s),
            TriageError::Model(s) => ("model request failed: ", s),
            TriageError::Host(s) => ("pull request host error: ", s),
            TriageError::Billing(s) => ("billing error: ", s),
            TriageError::Store(s) => ("storage error: ", s),
            TriageError::Config(s) => ("invalid repo config: ", s),
        };
        let mut out = String::from_str(head);
        out.append(detail.as_str());
        out
    }
}

/// A text, a colon and a blank, another text.
pub open spec fn with_context(context: Seq<char>, e: Seq<char>) -> Seq<char> {
    context + ": "@ + e
}

/// A host error that says what was being done.
pub fn host_err(context: &str, e: &str) -> (err: TriageError)
    ensures
        err@ == TriageErrorView::Host(with_context(context@, e@)),
{
    let mut out = String::from_str(context);
    out.append(": ");
    out.append(e);
    TriageError::Host(out)
}

/// A storage error.
pub fn store_err(e: &str) -> (err: TriageError)
    ensures
        err@ == TriageErrorView::Store(e@),
{
    TriageError::Store(String::from_str(e))
}

/// An error reads as its kind and then its own text, whole and at the end; and
/// no two kinds read alike.
pub proof fn law_an_error_shows_its_text(s: Seq<char>, t: Seq<char>)
    ensures
        error_message(TriageErrorView::InvalidModelOutput(s)) == "model output failed validation: "@
            + s,
        error_message(TriageErrorView::Model(s)) == "model request failed: "@ + s,
        error_message(TriageErrorView::Host(s)) == "pull request host error: "@ + s,
        error_message(TriageErrorView::Billing(s)) == "billing error: "@ + s,
        error_message(TriageErrorView::Store(s)) == "storage error: "@ + s,
        error_message(TriageErrorView::Config(s)) == "invalid repo config: "@ + s,
        with_context(s, t) == s + ": "@ + t,
{
}

} // verus!
