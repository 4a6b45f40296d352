//! Request and response shapes of the Anthropic Messages API.

use vstd::prelude::*;

use crate::json::Json;
use crate::text::{option_view, views};

verus! {

#[derive(Debug)]
pub struct MessagesRequest<'a> {
    pub model: &'a str,
    pub max_tokens: u32,
    pub system: &'a str,
    pub messages: Vec<Message<'a>>,
    pub output_config: OutputConfig,
}

#[derive(Debug)]
pub struct Message<'a> {
    pub role: &'a str,
    pub content: String,
}

#[derive(Debug)]
pub struct OutputConfig {
    pub format: OutputFormat,
}

#[derive(Debug)]
pub struct OutputFormat {
    /// Written as `type`.
    pub kind: &'static str,
    pub schema: Json,
}

#[derive(Debug)]
pub struct MessagesResponse {
    pub content: Vec<ContentBlock>,
    pub stop_reason: Option<String>,
}

/// A response's model.
pub struct MessagesResponseView {
    pub content: Seq<ContentBlockView>,
    pub stop_reason: Option<Seq<char>>,
}

impl View for MessagesResponse {
    type V = MessagesResponseView;

    open spec fn view(&self) -> MessagesResponseView {
        MessagesResponseView {
            content: views(self.content@),
            stop_reason: option_view(self.stop_reason),
        }
    }
}

#[derive(Debug)]
pub enum ContentBlock {
    Text { text: String },
    /// Any other block.
    Other,
}

/// A block's model.
pub enum ContentBlockView {
    Text { text: Seq<char> },
    Other,
}

impl View for ContentBlock {
    type V = ContentBlockView;

    open spec fn view(&self) -> ContentBlockView {
        match self {
            ContentBlock::Text { text } => ContentBlockView::Text { text: text@ },
            ContentBlock::Other => ContentBlockView::Other,
        }
    }
}

} // verus!
