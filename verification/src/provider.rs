//! The provider-neutral model protocol: requests, normalized stream events
//! and terminal responses.

use crate::json::JsonValue;
use crate::text::{is_blank, spec_is_blank};
use vstd::prelude::*;

verus! {

/// An optional text taken by view.
pub open spec fn opt_text(o: Option<String>) -> Option<Seq<char>> {
    match o {
        Some(s) => Some(s@),
        None => None,
    }
}

/// Clones an optional text into the same value.
pub fn clone_opt_text(o: &Option<String>) -> (r: Option<String>)
    ensures
        r == *o,
{
    match o {
        Some(s) => Some(s.clone()),
        None => None,
    }
}

/// Names a model provider; never blank.
#[derive(Debug, PartialEq, Eq, Hash, PartialOrd, Ord)]
pub struct ProviderId(String);

/// Names one model of a provider; never blank.
#[derive(Debug, PartialEq, Eq, Hash, PartialOrd, Ord)]
pub struct ModelId(String);

/// The provider's name for one tool call; never blank.
#[derive(Debug, PartialEq, Eq, Hash, PartialOrd, Ord)]
pub struct ToolCallId(String);

impl View for ProviderId {
    type V = Seq<char>;

    closed spec fn view(&self) -> Seq<char> {
        self.0@
    }
}

impl View for ModelId {
    type V = Seq<char>;

    closed spec fn view(&self) -> Seq<char> {
        self.0@
    }
}

impl View for ToolCallId {
    type V = Seq<char>;

    closed spec fn view(&self) -> Seq<char> {
        self.0@
    }
}

impl ProviderId {
    pub fn new(value: &str) -> (r: Result<ProviderId, &'static str>)
        ensures
            r is Ok <==> !spec_is_blank(value@),
            r matches Ok(id) ==> id@ == value@,
    {
        if is_blank(value) {
            return Err("provider id must not be empty");
        }
        Ok(ProviderId(value.to_string()))
    }

    pub fn as_str(&self) -> (r: &str)
        ensures
            r@ == self@,
    {
        self.0.as_str()
    }
}

impl Clone for ProviderId {
    fn clone(&self) -> (r: Self)
        ensures
            r == *self,
    {
        ProviderId(self.0.clone())
    }
}

impl ModelId {
    pub fn new(value: &str) -> (r: Result<ModelId, &'static str>)
        ensures
            r is Ok <==> !spec_is_blank(value@),
            r matches Ok(id) ==> id@ == value@,
    {
        if is_blank(value) {
            return Err("model id must not be empty");
        }
        Ok(ModelId(value.to_string()))
    }

    pub fn as_str(&self) -> (r: &str)
        ensures
            r@ == self@,
    {
        self.0.as_str()
    }

    /// Whether two model ids name the same model.
    pub fn same_as(&self, other: &ModelId) -> (r: bool)
        ensures
            r == (self@ == other@),
    {
        self.0 == other.0
    }
}

impl Clone for ModelId {
    fn clone(&self) -> (r: Self)
        ensures
            r == *self,
    {
        ModelId(self.0.clone())
    }
}

impl ToolCallId {
    pub fn new(value: &str) -> (r: Result<ToolCallId, &'static str>)
        ensures
            r is Ok <==> !spec_is_blank(value@),
            r matches Ok(id) ==> id@ == value@,
    {
        if is_blank(value) {
            return Err("tool call id must not be empty");
        }
        Ok(ToolCallId(value.to_string()))
    }

    pub fn as_str(&self) -> (r: &str)
        ensures
            r@ == self@,
    {
        self.0.as_str()
    }

    /// Whether two ids name the same call.
    pub fn same_as(&self, other: &ToolCallId) -> (r: bool)
        ensures
            r == (self@ == other@),
    {
        self.0 == other.0
    }
}

impl Clone for ToolCallId {
    fn clone(&self) -> (r: Self)
        ensures
            r == *self,
    {
        ToolCallId(self.0.clone())
    }
}

/// What a model supports.
#[derive(Clone, Copy, Debug, Default, PartialEq, Eq, Structural)]
pub struct ModelCapabilities {
    pub tool_calls: bool,
    pub usage: bool,
}

#[derive(Clone, Copy, Debug, PartialEq, Eq, Structural)]
pub enum MessageRole {
    User,
    Assistant,
    Tool,
}

/// A tool call as the provider finalized it.
#[derive(Debug, PartialEq)]
pub struct ToolCall {
    pub id: ToolCallId,
    pub name: String,
    pub arguments_json: String,
    pub arguments: JsonValue,
}

impl Clone for ToolCall {
    fn clone(&self) -> (r: Self)
        ensures
            r == *self,
    {
        ToolCall {
            id: self.id.clone(),
            name: self.name.clone(),
            arguments_json: self.arguments_json.clone(),
            arguments: self.arguments.clone(),
        }
    }
}

/// One part of a model message.
#[derive(Debug, PartialEq)]
pub enum MessageContent {
    Text { text: String },
    ToolCall { call: ToolCall },
    ToolResult { call_id: ToolCallId, tool_name: String, content: JsonValue, is_error: bool },
}

#[derive(Debug, PartialEq)]
pub struct ModelMessage {
    pub role: MessageRole,
    pub content: Vec<MessageContent>,
}

/// A tool as the model sees it.
#[derive(Debug, PartialEq)]
pub struct ModelToolSpec {
    pub name: String,
    pub description: String,
    pub input_schema: JsonValue,
}

#[derive(Debug, PartialEq)]
pub struct ModelRequest {
    pub model: ModelId,
    pub system_prompt: Option<String>,
    pub messages: Vec<ModelMessage>,
    pub tools: Vec<ModelToolSpec>,
}

#[derive(Debug, PartialEq, Eq)]
pub struct ProviderStarted {
    pub request_id: Option<String>,
}

impl Clone for ProviderStarted {
    fn clone(&self) -> (r: Self)
        ensures
            r == *self,
    {
        ProviderStarted { request_id: clone_opt_text(&self.request_id) }
    }
}

/// Why a model stopped.
#[derive(Clone, Copy, Debug, PartialEq, Eq, Structural)]
pub enum CompletionReason {
    Stop,
    ToolUse,
    Length,
}

/// Token counters of one response.
#[derive(Clone, Copy, Debug, Default, PartialEq, Eq, Structural)]
pub struct ModelUsage {
    pub input_tokens: u64,
    pub output_tokens: u64,
    pub cache_read_input_tokens: u64,
    pub cache_write_input_tokens: u64,
}

/// `a + b`, or the largest `u64` when the sum does not fit.
pub open spec fn saturating_sum(a: u64, b: u64) -> u64 {
    if a + b > u64::MAX {
        u64::MAX
    } else {
        (a + b) as u64
    }
}

impl ModelUsage {
    /// Input plus output tokens, saturating.
    pub fn total_tokens(self) -> (r: u64)
        ensures
            r == saturating_sum(self.input_tokens, self.output_tokens),
    {
        self.input_tokens.saturating_add(self.output_tokens)
    }

    /// No counter is smaller than in `previous`.
    pub open spec fn spec_dominates(self, previous: ModelUsage) -> bool {
        &&& self.input_tokens >= previous.input_tokens
        &&& self.output_tokens >= previous.output_tokens
        &&& self.cache_read_input_tokens >= previous.cache_read_input_tokens
        &&& self.cache_write_input_tokens >= previous.cache_write_input_tokens
    }

    pub fn dominates(self, previous: ModelUsage) -> (r: bool)
        ensures
            r == self.spec_dominates(previous),
    {
        self.input_tokens >= previous.input_tokens && self.output_tokens >= previous.output_tokens
            && self.cache_read_input_tokens >= previous.cache_read_input_tokens
            && self.cache_write_input_tokens >= previous.cache_write_input_tokens
    }
}

/// The tool calls among the parts of a message, in order.
pub open spec fn tool_calls_of(content: Seq<MessageContent>) -> Seq<ToolCall>
    decreases content.len(),
{
    if content.len() == 0 {
        Seq::empty()
    } else {
        let rest = tool_calls_of(content.drop_last());
        match content.last() {
            MessageContent::ToolCall { call } => rest.push(call),
            _ => rest,
        }
    }
}

/// A finalized assistant message.
#[derive(Debug, PartialEq)]
pub struct AssistantMessage {
    pub content: Vec<MessageContent>,
    pub stop_reason: CompletionReason,
    pub usage: Option<ModelUsage>,
    pub provider_request_id: Option<String>,
}

impl AssistantMessage {
    /// The tool calls of the message, in order.
    pub fn tool_calls(&self) -> (r: Vec<ToolCall>)
        ensures
            r@ == tool_calls_of(self.content@),
    {
        let mut calls: Vec<ToolCall> = Vec::new();
        let mut i: usize = 0;
        while i < self.content.len()
            invariant
                0 <= i <= self.content@.len(),
                calls@ == tool_calls_of(self.content@.subrange(0, i as int)),
            decreases self.content.len() - i,
        {
            proof {
                assert(self.content@.subrange(0, i + 1).drop_last() == self.content@.subrange(0, i as int));
            }
            match &self.content[i] {
                MessageContent::ToolCall { call } => {
                    calls.push(call.clone());
                },
                _ => {},
            }
            i = i + 1;
        }
        proof {
            assert(self.content@.subrange(0, self.content@.len() as int) == self.content@);
        }
        calls
    }
}

/// A provider-declared failure.
#[derive(Debug, PartialEq, Eq)]
pub struct ProviderFailure {
    pub code: String,
    pub message: String,
    pub retryable: bool,
}

impl ProviderFailure {
    pub fn new(code: &str, message: &str, retryable: bool) -> (r: ProviderFailure)
        ensures
            r.code@ == code@,
            r.message@ == message@,
            r.retryable == retryable,
    {
        ProviderFailure { code: code.to_string(), message: message.to_string(), retryable }
    }
}

/// The terminal outcome of one model stream.
#[allow(inconsistent_fields)]
#[derive(Debug, PartialEq)]
pub enum ModelResponse {
    Completed { message: AssistantMessage },
    Failed { failure: ProviderFailure },
    Aborted { message: Option<String> },
}

/// One normalized stream event.
#[derive(Debug, PartialEq)]
pub enum ModelEvent {
    Started { started: ProviderStarted },
    TextDelta { delta: String },
    ToolCallStarted { id: ToolCallId, name: String },
    ToolCallArgumentsDelta { id: ToolCallId, delta: String },
    ToolCallCompleted { id: ToolCallId },
    Usage { usage: ModelUsage },
    Completed { reason: CompletionReason },
    Failed { failure: ProviderFailure },
    Aborted { message: Option<String> },
}

impl ModelEvent {
    pub open spec fn spec_kind(&self) -> &'static str {
        match self {
            ModelEvent::Started { .. } => "started",
            ModelEvent::TextDelta { .. } => "text_delta",
            ModelEvent::ToolCallStarted { .. } => "tool_call_started",
            ModelEvent::ToolCallArgumentsDelta { .. } => "tool_call_arguments_delta",
            ModelEvent::ToolCallCompleted { .. } => "tool_call_completed",
            ModelEvent::Usage { .. } => "usage",
            ModelEvent::Completed { .. } => "completed",
            ModelEvent::Failed { .. } => "failed",
            ModelEvent::Aborted { .. } => "aborted",
        }
    }

    /// The event's name.
    pub fn kind(&self) -> (r: &'static str)
        ensures
            r == self.spec_kind(),
    {
        match self {
            ModelEvent::Started { .. } => "started",
            ModelEvent::TextDelta { .. } => "text_delta",
            ModelEvent::ToolCallStarted { .. } => "tool_call_started",
            ModelEvent::ToolCallArgumentsDelta { .. } => "tool_call_arguments_delta",
            ModelEvent::ToolCallCompleted { .. } => "tool_call_completed",
            ModelEvent::Usage { .. } => "usage",
            ModelEvent::Completed { .. } => "completed",
            ModelEvent::Failed { .. } => "failed",
            ModelEvent::Aborted { .. } => "aborted",
        }
    }
}

/// A provider error before any normalized stream exists.
#[derive(Debug, PartialEq, Eq)]
pub enum ProviderError {
    Request(String),
    Transport(String),
}

impl Clone for ProviderError {
    fn clone(&self) -> (r: Self)
        ensures
            r == *self,
    {
        match self {
            ProviderError::Request(m) => ProviderError::Request(m.clone()),
            ProviderError::Transport(m) => ProviderError::Transport(m.clone()),
        }
    }
}


/// A tool call taken by view.
pub struct ToolCallView {
    pub id: Seq<char>,
    pub name: Seq<char>,
    pub arguments_json: Seq<char>,
    pub arguments: JsonValue,
}

/// A message part taken by view.
pub enum ContentView {
    Text(Seq<char>),
    ToolCall(ToolCallView),
    ToolResult { call_id: Seq<char>, tool_name: Seq<char>, content: JsonValue, is_error: bool },
}

/// An assistant message taken by view.
pub struct MessageView {
    pub content: Seq<ContentView>,
    pub stop_reason: CompletionReason,
    pub usage: Option<ModelUsage>,
    pub provider_request_id: Option<Seq<char>>,
}

/// A provider failure taken by view.
pub struct FailureView {
    pub code: Seq<char>,
    pub message: Seq<char>,
    pub retryable: bool,
}

/// A terminal response taken by view.
pub enum ResponseView {
    Completed(MessageView),
    Failed(FailureView),
    Aborted(Option<Seq<char>>),
}

/// A stream event taken by view.
pub enum EventView {
    Started(Option<Seq<char>>),
    TextDelta(Seq<char>),
    ToolCallStarted(Seq<char>, Seq<char>),
    ToolCallArgumentsDelta(Seq<char>, Seq<char>),
    ToolCallCompleted(Seq<char>),
    Usage(ModelUsage),
    Completed(CompletionReason),
    Failed(FailureView),
    Aborted(Option<Seq<char>>),
}

impl EventView {
    pub open spec fn kind(self) -> &'static str {
        match self {
            EventView::Started(_) => "started",
            EventView::TextDelta(_) => "text_delta",
            EventView::ToolCallStarted(_, _) => "tool_call_started",
            EventView::ToolCallArgumentsDelta(_, _) => "tool_call_arguments_delta",
            EventView::ToolCallCompleted(_) => "tool_call_completed",
            EventView::Usage(_) => "usage",
            EventView::Completed(_) => "completed",
            EventView::Failed(_) => "failed",
            EventView::Aborted(_) => "aborted",
        }
    }
}

impl View for ToolCall {
    type V = ToolCallView;

    open spec fn view(&self) -> ToolCallView {
        ToolCallView {
            id: self.id@,
            name: self.name@,
            arguments_json: self.arguments_json@,
            arguments: self.arguments,
        }
    }
}

impl View for MessageContent {
    type V = ContentView;

    open spec fn view(&self) -> ContentView {
        match self {
            MessageContent::Text { text } => ContentView::Text(text@),
            MessageContent::ToolCall { call } => ContentView::ToolCall(call@),
            MessageContent::ToolResult { call_id, tool_name, content, is_error } => {
                ContentView::ToolResult {
                    call_id: call_id@,
                    tool_name: tool_name@,
                    content: *content,
                    is_error: *is_error,
                }
            },
        }
    }
}

impl View for AssistantMessage {
    type V = MessageView;

    open spec fn view(&self) -> MessageView {
        MessageView {
            content: self.content@.map_values(|c: MessageContent| c@),
            stop_reason: self.stop_reason,
            usage: self.usage,
            provider_request_id: opt_text(self.provider_request_id),
        }
    }
}

impl View for ProviderFailure {
    type V = FailureView;

    open spec fn view(&self) -> FailureView {
        FailureView { code: self.code@, message: self.message@, retryable: self.retryable }
    }
}

impl View for ModelResponse {
    type V = ResponseView;

    open spec fn view(&self) -> ResponseView {
        match self {
            ModelResponse::Completed { message } => ResponseView::Completed(message@),
            ModelResponse::Failed { failure } => ResponseView::Failed(failure@),
            ModelResponse::Aborted { message } => ResponseView::Aborted(opt_text(*message)),
        }
    }
}

impl View for ModelEvent {
    type V = EventView;

    open spec fn view(&self) -> EventView {
        match self {
            ModelEvent::Started { started } => EventView::Started(opt_text(started.request_id)),
            ModelEvent::TextDelta { delta } => EventView::TextDelta(delta@),
            ModelEvent::ToolCallStarted { id, name } => EventView::ToolCallStarted(id@, name@),
            ModelEvent::ToolCallArgumentsDelta { id, delta } => EventView::ToolCallArgumentsDelta(
                id@,
                delta@,
            ),
            ModelEvent::ToolCallCompleted { id } => EventView::ToolCallCompleted(id@),
            ModelEvent::Usage { usage } => EventView::Usage(*usage),
            ModelEvent::Completed { reason } => EventView::Completed(*reason),
            ModelEvent::Failed { failure } => EventView::Failed(failure@),
            ModelEvent::Aborted { message } => EventView::Aborted(opt_text(*message)),
        }
    }
}

/// The event's name is its view's name.
pub proof fn lemma_event_kind_view(e: ModelEvent)
    ensures
        e.spec_kind() == e@.kind(),
{
}

} // verus!
