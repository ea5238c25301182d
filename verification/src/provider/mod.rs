//! Provider-neutral model contracts.

pub mod fake;
pub mod openrouter;

use vstd::prelude::*;

use crate::text::opt_text;

verus! {

/// `serde_json::Value`, carried through as an opaque value.
#[verifier::external_type_specification]
#[verifier::external_body]
pub struct ExValue(serde_json::Value);

/// `Value::clone` hands back an equal value.
pub assume_specification[ <serde_json::Value as Clone>::clone ](
    value: &serde_json::Value,
) -> (copy: serde_json::Value)
    ensures
        copy == *value,
;

/// A complete tool call normalized from a provider response.
#[derive(Debug, PartialEq, Eq)]
pub struct ToolCall {
    pub tool_call_id: String,
    pub tool_name: String,
    pub arguments: serde_json::Value,
}

/// The characters and arguments of a tool call.
#[verifier::ext_equal]
pub struct ToolCallView {
    pub tool_call_id: Seq<char>,
    pub tool_name: Seq<char>,
    pub arguments: serde_json::Value,
}

impl View for ToolCall {
    type V = ToolCallView;

    open spec fn view(&self) -> ToolCallView {
        ToolCallView {
            tool_call_id: self.tool_call_id@,
            tool_name: self.tool_name@,
            arguments: self.arguments,
        }
    }
}

impl Clone for ToolCall {
    fn clone(&self) -> (copy: Self)
        ensures
            copy == *self,
    {
        ToolCall {
            tool_call_id: self.tool_call_id.clone(),
            tool_name: self.tool_name.clone(),
            arguments: self.arguments.clone(),
        }
    }
}

/// The views of a list of tool calls, in order.
pub open spec fn tool_call_views(tool_calls: Seq<ToolCall>) -> Seq<ToolCallView> {
    tool_calls.map_values(|tool_call: ToolCall| tool_call@)
}

/// The identities of a list of tool calls, in order.
pub open spec fn tool_call_ids(tool_calls: Seq<ToolCallView>) -> Seq<Seq<char>> {
    tool_calls.map_values(|tool_call: ToolCallView| tool_call.tool_call_id)
}

/// One ordered provider-neutral message in a model request.
#[derive(Debug, PartialEq, Eq)]
pub enum ModelMessage {
    User { content: String },
    Assistant { content: String, tool_calls: Vec<ToolCall> },
    ToolResult { tool_call_id: String, content: String },
}

/// The mathematical form of a model message.
#[verifier::ext_equal]
pub enum ModelMessageView {
    User { content: Seq<char> },
    Assistant { content: Seq<char>, tool_calls: Seq<ToolCallView> },
    ToolResult { tool_call_id: Seq<char>, content: Seq<char> },
}

impl View for ModelMessage {
    type V = ModelMessageView;

    open spec fn view(&self) -> ModelMessageView {
        match *self {
            ModelMessage::User { content } => ModelMessageView::User { content: content@ },
            ModelMessage::Assistant { content, tool_calls } => ModelMessageView::Assistant {
                content: content@,
                tool_calls: tool_call_views(tool_calls@),
            },
            ModelMessage::ToolResult { tool_call_id, content } => ModelMessageView::ToolResult {
                tool_call_id: tool_call_id@,
                content: content@,
            },
        }
    }
}

impl Clone for ModelMessage {
    fn clone(&self) -> (copy: Self)
        ensures
            copy@ == self@,
    {
        match self {
            ModelMessage::User { content } => ModelMessage::User { content: content.clone() },
            ModelMessage::Assistant { content, tool_calls } => ModelMessage::Assistant {
                content: content.clone(),
                tool_calls: tool_calls.clone(),
            },
            ModelMessage::ToolResult { tool_call_id, content } => ModelMessage::ToolResult {
                tool_call_id: tool_call_id.clone(),
                content: content.clone(),
            },
        }
    }
}

/// The views of a list of messages, in order.
pub open spec fn message_views(messages: Seq<ModelMessage>) -> Seq<ModelMessageView> {
    messages.map_values(|message: ModelMessage| message@)
}

/// Copy a list of messages.
pub fn clone_messages(messages: &Vec<ModelMessage>) -> (copies: Vec<ModelMessage>)
    ensures
        message_views(copies@) == message_views(messages@),
{
    let mut copies: Vec<ModelMessage> = Vec::new();
    let mut i: usize = 0;
    while i < messages.len()
        invariant
            i <= messages@.len(),
            message_views(copies@) == message_views(messages@).take(i as int),
        decreases messages@.len() - i,
    {
        let ghost before = message_views(copies@);
        copies.push(messages[i].clone());
        assert(message_views(copies@) =~= before.push(messages@[i as int]@));
        i += 1;
    }
    assert(message_views(messages@).take(i as int) =~= message_views(messages@));
    copies
}

/// The ordered messages submitted to a provider for one model request.
#[derive(Debug, PartialEq, Eq)]
pub struct ModelRequest {
    pub model_id: String,
    pub messages: Vec<ModelMessage>,
}

/// The mathematical form of a model request.
#[verifier::ext_equal]
pub struct ModelRequestView {
    pub model_id: Seq<char>,
    pub messages: Seq<ModelMessageView>,
}

impl View for ModelRequest {
    type V = ModelRequestView;

    open spec fn view(&self) -> ModelRequestView {
        ModelRequestView { model_id: self.model_id@, messages: message_views(self.messages@) }
    }
}

impl Clone for ModelRequest {
    fn clone(&self) -> (copy: Self)
        ensures
            copy@ == self@,
    {
        ModelRequest {
            model_id: self.model_id.clone(),
            messages: clone_messages(&self.messages),
        }
    }
}

/// The limits advertised by a model.
#[derive(Debug, Clone, Copy, PartialEq, Eq)]
pub struct ModelLimits {
    pub context_window_tokens: u64,
    pub maximum_output_tokens: Option<u64>,
}

/// Local metadata describing a model.
#[derive(Debug, PartialEq, Eq)]
pub struct ModelMetadata {
    pub model_id: String,
    pub display_name: String,
    pub limits: ModelLimits,
    pub prompt_price_usd_per_million_tokens: Option<String>,
    pub completion_price_usd_per_million_tokens: Option<String>,
}

/// The mathematical form of model metadata.
#[verifier::ext_equal]
pub struct ModelMetadataView {
    pub model_id: Seq<char>,
    pub display_name: Seq<char>,
    pub limits: ModelLimits,
    pub prompt_price_usd_per_million_tokens: Option<Seq<char>>,
    pub completion_price_usd_per_million_tokens: Option<Seq<char>>,
}

impl View for ModelMetadata {
    type V = ModelMetadataView;

    open spec fn view(&self) -> ModelMetadataView {
        ModelMetadataView {
            model_id: self.model_id@,
            display_name: self.display_name@,
            limits: self.limits,
            prompt_price_usd_per_million_tokens: opt_text(self.prompt_price_usd_per_million_tokens),
            completion_price_usd_per_million_tokens: opt_text(
                self.completion_price_usd_per_million_tokens,
            ),
        }
    }
}

impl Clone for ModelMetadata {
    fn clone(&self) -> (copy: Self)
        ensures
            copy == *self,
    {
        ModelMetadata {
            model_id: self.model_id.clone(),
            display_name: self.display_name.clone(),
            limits: self.limits,
            prompt_price_usd_per_million_tokens: match &self.prompt_price_usd_per_million_tokens {
                Some(price) => Some(price.clone()),
                None => None,
            },
            completion_price_usd_per_million_tokens:
                match &self.completion_price_usd_per_million_tokens {
                Some(price) => Some(price.clone()),
                None => None,
            },
        }
    }
}

/// Cumulative token usage for a model request.
#[derive(Debug, Clone, Copy, PartialEq, Eq)]
pub struct Usage {
    pub input_tokens: u64,
    pub cached_input_tokens: u64,
    pub output_tokens: u64,
}

/// The normalized reason a provider stream finished.
#[derive(Debug, Clone, Copy, PartialEq, Eq)]
pub enum CompletionOutcome {
    Complete,
    LengthLimited,
}

/// Normalized events emitted by a provider stream.
#[derive(Debug, PartialEq, Eq)]
pub enum ModelEvent {
    TextDelta(String),
    ReasoningDelta(String),
    ToolCall(ToolCall),
    Usage(Usage),
    Finished(CompletionOutcome),
}

/// The mathematical form of a model event.
#[verifier::ext_equal]
pub enum ModelEventView {
    TextDelta(Seq<char>),
    ReasoningDelta(Seq<char>),
    ToolCall(ToolCallView),
    Usage(Usage),
    Finished(CompletionOutcome),
}

impl View for ModelEvent {
    type V = ModelEventView;

    open spec fn view(&self) -> ModelEventView {
        match *self {
            ModelEvent::TextDelta(text) => ModelEventView::TextDelta(text@),
            ModelEvent::ReasoningDelta(text) => ModelEventView::ReasoningDelta(text@),
            ModelEvent::ToolCall(tool_call) => ModelEventView::ToolCall(tool_call@),
            ModelEvent::Usage(usage) => ModelEventView::Usage(usage),
            ModelEvent::Finished(outcome) => ModelEventView::Finished(outcome),
        }
    }
}

impl Clone for ModelEvent {
    fn clone(&self) -> (copy: Self)
        ensures
            copy == *self,
    {
        match self {
            ModelEvent::TextDelta(text) => ModelEvent::TextDelta(text.clone()),
            ModelEvent::ReasoningDelta(text) => ModelEvent::ReasoningDelta(text.clone()),
            ModelEvent::ToolCall(tool_call) => ModelEvent::ToolCall(tool_call.clone()),
            ModelEvent::Usage(usage) => ModelEvent::Usage(*usage),
            ModelEvent::Finished(outcome) => ModelEvent::Finished(*outcome),
        }
    }
}

/// Errors returned while setting up or consuming a provider request.
#[derive(Debug, PartialEq, Eq)]
pub enum ProviderError {
    UnknownModel { model_id: String },
    RequestSetup(String),
    Streaming(String),
}

/// The mathematical form of a provider error.
#[verifier::ext_equal]
pub enum ProviderErrorView {
    UnknownModel { model_id: Seq<char> },
    RequestSetup(Seq<char>),
    Streaming(Seq<char>),
}

impl View for ProviderError {
    type V = ProviderErrorView;

    open spec fn view(&self) -> ProviderErrorView {
        match *self {
            ProviderError::UnknownModel { model_id } => ProviderErrorView::UnknownModel {
                model_id: model_id@,
            },
            ProviderError::RequestSetup(detail) => ProviderErrorView::RequestSetup(detail@),
            ProviderError::Streaming(detail) => ProviderErrorView::Streaming(detail@),
        }
    }
}

impl Clone for ProviderError {
    fn clone(&self) -> (copy: Self)
        ensures
            copy == *self,
    {
        match self {
            ProviderError::UnknownModel { model_id } => ProviderError::UnknownModel {
                model_id: model_id.clone(),
            },
            ProviderError::RequestSetup(detail) => ProviderError::RequestSetup(detail.clone()),
            ProviderError::Streaming(detail) => ProviderError::Streaming(detail.clone()),
        }
    }
}

/// The readable form of a provider error.
pub open spec fn provider_error_text(error: ProviderErrorView) -> Seq<char> {
    match error {
        ProviderErrorView::UnknownModel { model_id } => "unknown model: "@ + model_id,
        ProviderErrorView::RequestSetup(detail) => "request setup failed: "@ + detail,
        ProviderErrorView::Streaming(detail) => "streaming failed: "@ + detail,
    }
}

impl ProviderError {
    /// The readable form of this error.
    pub fn to_string(&self) -> (text: String)
        ensures
            text@ == provider_error_text(self@),
    {
        match self {
            ProviderError::UnknownModel { model_id } => {
                let mut text = "unknown model: ".to_owned();
                text.append(model_id.as_str());
                text
            },
            ProviderError::RequestSetup(detail) => {
                let mut text = "request setup failed: ".to_owned();
                text.append(detail.as_str());
                text
            },
            ProviderError::Streaming(detail) => {
                let mut text = "streaming failed: ".to_owned();
                text.append(detail.as_str());
                text
            },
        }
    }
}

/// One item of a provider stream, in mathematical form.
pub open spec fn stream_item(item: Result<ModelEvent, ProviderError>) -> Result<
    ModelEventView,
    ProviderErrorView,
> {
    match item {
        Ok(event) => Ok(event@),
        Err(error) => Err(error@),
    }
}

/// The items of a provider stream, in order.
pub open spec fn stream_items(items: Seq<Result<ModelEvent, ProviderError>>) -> Seq<
    Result<ModelEventView, ProviderErrorView>,
> {
    items.map_values(|item: Result<ModelEvent, ProviderError>| stream_item(item))
}

} // verus!
