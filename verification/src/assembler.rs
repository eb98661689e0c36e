//! The fail-closed assembler that turns one normalized provider stream into
//! one terminal response.

use crate::json::{parse_outcome, spec_parse_json, JsonValue};
use crate::provider::{
    clone_opt_text, opt_text, AssistantMessage, CompletionReason, ContentView, EventView,
    MessageContent, MessageView, ModelEvent, ModelResponse, ModelUsage, ProviderStarted,
    ResponseView, ToolCall, ToolCallId, ToolCallView,
};
use vstd::prelude::*;
use vstd::string::StringExecFns;

verus! {

/// A protocol violation in one provider stream.
#[derive(Debug, PartialEq, Eq)]
pub enum AssemblyError {
    EventBeforeStart { event: &'static str },
    DuplicateStart,
    EventAfterTerminal,
    UnexpectedEnd,
    DuplicateToolCallId(ToolCallId),
    UnknownToolCall(ToolCallId),
    ToolCallAlreadyCompleted(ToolCallId),
    DuplicateToolCallCompletion(ToolCallId),
    InvalidToolArguments(ToolCallId, String),
    IncompleteToolCall(ToolCallId),
    TruncatedToolCalls,
    ToolUseWithoutToolCall,
    StopWithToolCall,
    UsageRegression,
    Poisoned,
}

/// An assembly error taken by view.
pub enum AssemblyErrorView {
    EventBeforeStart(&'static str),
    DuplicateStart,
    EventAfterTerminal,
    UnexpectedEnd,
    DuplicateToolCallId(Seq<char>),
    UnknownToolCall(Seq<char>),
    ToolCallAlreadyCompleted(Seq<char>),
    DuplicateToolCallCompletion(Seq<char>),
    InvalidToolArguments(Seq<char>, Seq<char>),
    IncompleteToolCall(Seq<char>),
    TruncatedToolCalls,
    ToolUseWithoutToolCall,
    StopWithToolCall,
    UsageRegression,
    Poisoned,
}

impl View for AssemblyError {
    type V = AssemblyErrorView;

    open spec fn view(&self) -> AssemblyErrorView {
        match self {
            AssemblyError::EventBeforeStart { event } => AssemblyErrorView::EventBeforeStart(*event),
            AssemblyError::DuplicateStart => AssemblyErrorView::DuplicateStart,
            AssemblyError::EventAfterTerminal => AssemblyErrorView::EventAfterTerminal,
            AssemblyError::UnexpectedEnd => AssemblyErrorView::UnexpectedEnd,
            AssemblyError::DuplicateToolCallId(id) => AssemblyErrorView::DuplicateToolCallId(id@),
            AssemblyError::UnknownToolCall(id) => AssemblyErrorView::UnknownToolCall(id@),
            AssemblyError::ToolCallAlreadyCompleted(id) => AssemblyErrorView::ToolCallAlreadyCompleted(
                id@,
            ),
            AssemblyError::DuplicateToolCallCompletion(id) => {
                AssemblyErrorView::DuplicateToolCallCompletion(id@)
            },
            AssemblyError::InvalidToolArguments(id, m) => AssemblyErrorView::InvalidToolArguments(
                id@,
                m@,
            ),
            AssemblyError::IncompleteToolCall(id) => AssemblyErrorView::IncompleteToolCall(id@),
            AssemblyError::TruncatedToolCalls => AssemblyErrorView::TruncatedToolCalls,
            AssemblyError::ToolUseWithoutToolCall => AssemblyErrorView::ToolUseWithoutToolCall,
            AssemblyError::StopWithToolCall => AssemblyErrorView::StopWithToolCall,
            AssemblyError::UsageRegression => AssemblyErrorView::UsageRegression,
            AssemblyError::Poisoned => AssemblyErrorView::Poisoned,
        }
    }
}

/// One tool call while its arguments stream in; `arguments` is set once the
/// call completed and its text parsed.
pub struct PendingCallView {
    pub id: Seq<char>,
    pub name: Seq<char>,
    pub arguments_json: Seq<char>,
    pub arguments: Option<JsonValue>,
}

/// What a stream has delivered since `Started`.
pub struct StreamView {
    pub request_id: Option<Seq<char>>,
    pub text: Seq<char>,
    pub tool_calls: Seq<PendingCallView>,
    pub usage: Option<ModelUsage>,
}

/// Where the assembler stands.
pub enum AssemblerView {
    AwaitingStart,
    Streaming(StreamView),
    Terminal(ResponseView),
    Poisoned,
}

/// The index of the first call named `id`, looking from index `i` on.
pub open spec fn find_call(calls: Seq<PendingCallView>, id: Seq<char>, i: int) -> Option<int>
    decreases calls.len() - i,
{
    if i < 0 || i >= calls.len() {
        None
    } else if calls[i].id == id {
        Some(i)
    } else {
        find_call(calls, id, i + 1)
    }
}

/// The index of the first call not yet completed, looking from index `i` on.
pub open spec fn find_incomplete(calls: Seq<PendingCallView>, i: int) -> Option<int>
    decreases calls.len() - i,
{
    if i < 0 || i >= calls.len() {
        None
    } else if calls[i].arguments is None {
        Some(i)
    } else {
        find_incomplete(calls, i + 1)
    }
}

/// A completed call as it appears in the finished message.
pub open spec fn finished_call(c: PendingCallView) -> ContentView {
    ContentView::ToolCall(
        ToolCallView {
            id: c.id,
            name: c.name,
            arguments_json: c.arguments_json,
            arguments: c.arguments->0,
        },
    )
}

/// The finished message's parts: the text, when any, then every tool call
/// in the order the provider started them.
pub open spec fn finished_content(s: StreamView) -> Seq<ContentView> {
    let text = if s.text.len() == 0 {
        Seq::<ContentView>::empty()
    } else {
        seq![ContentView::Text(s.text)]
    };
    text + s.tool_calls.map_values(|c: PendingCallView| finished_call(c))
}

/// The outcome of `Completed` on a stream.
pub open spec fn spec_complete(s: StreamView, reason: CompletionReason) -> (
    AssemblerView,
    Result<Option<ResponseView>, AssemblyErrorView>,
) {
    let none_left = s.tool_calls.len() == 0;
    if find_incomplete(s.tool_calls, 0) is Some {
        (
            AssemblerView::Streaming(s),
            Err(
                AssemblyErrorView::IncompleteToolCall(
                    s.tool_calls[find_incomplete(s.tool_calls, 0)->0].id,
                ),
            ),
        )
    } else if reason is Length && !none_left {
        (AssemblerView::Streaming(s), Err(AssemblyErrorView::TruncatedToolCalls))
    } else if reason is ToolUse && none_left {
        (AssemblerView::Streaming(s), Err(AssemblyErrorView::ToolUseWithoutToolCall))
    } else if reason is Stop && !none_left {
        (AssemblerView::Streaming(s), Err(AssemblyErrorView::StopWithToolCall))
    } else {
        let response = ResponseView::Completed(
            MessageView {
                content: finished_content(s),
                stop_reason: reason,
                usage: s.usage,
                provider_request_id: s.request_id,
            },
        );
        (AssemblerView::Terminal(response), Ok(Some(response)))
    }
}

/// One event applied to a stream in progress.
pub open spec fn spec_stream_event(s: StreamView, e: EventView) -> (
    AssemblerView,
    Result<Option<ResponseView>, AssemblyErrorView>,
) {
    let same = AssemblerView::Streaming(s);
    match e {
        EventView::Started(_) => (same, Err(AssemblyErrorView::DuplicateStart)),
        EventView::TextDelta(delta) => (
            AssemblerView::Streaming(StreamView { text: s.text + delta, ..s }),
            Ok(None),
        ),
        EventView::ToolCallStarted(id, name) => if find_call(s.tool_calls, id, 0) is Some {
            (same, Err(AssemblyErrorView::DuplicateToolCallId(id)))
        } else {
            (
                AssemblerView::Streaming(
                    StreamView {
                        tool_calls: s.tool_calls.push(
                            PendingCallView {
                                id,
                                name,
                                arguments_json: Seq::empty(),
                                arguments: None,
                            },
                        ),
                        ..s
                    },
                ),
                Ok(None),
            )
        },
        EventView::ToolCallArgumentsDelta(id, delta) => match find_call(s.tool_calls, id, 0) {
            None => (same, Err(AssemblyErrorView::UnknownToolCall(id))),
            Some(i) => if s.tool_calls[i].arguments is Some {
                (same, Err(AssemblyErrorView::ToolCallAlreadyCompleted(id)))
            } else {
                let call = s.tool_calls[i];
                (
                    AssemblerView::Streaming(
                        StreamView {
                            tool_calls: s.tool_calls.update(
                                i,
                                PendingCallView {
                                    arguments_json: call.arguments_json + delta,
                                    ..call
                                },
                            ),
                            ..s
                        },
                    ),
                    Ok(None),
                )
            },
        },
        EventView::ToolCallCompleted(id) => match find_call(s.tool_calls, id, 0) {
            None => (same, Err(AssemblyErrorView::UnknownToolCall(id))),
            Some(i) => if s.tool_calls[i].arguments is Some {
                (same, Err(AssemblyErrorView::DuplicateToolCallCompletion(id)))
            } else {
                let call = s.tool_calls[i];
                match spec_parse_json(call.arguments_json) {
                    Err(message) => (
                        same,
                        Err(AssemblyErrorView::InvalidToolArguments(id, message)),
                    ),
                    Ok(value) => (
                        AssemblerView::Streaming(
                            StreamView {
                                tool_calls: s.tool_calls.update(
                                    i,
                                    PendingCallView { arguments: Some(value), ..call },
                                ),
                                ..s
                            },
                        ),
                        Ok(None),
                    ),
                }
            },
        },
        EventView::Usage(usage) => if s.usage is Some && !usage.spec_dominates(s.usage->0) {
            (same, Err(AssemblyErrorView::UsageRegression))
        } else {
            (AssemblerView::Streaming(StreamView { usage: Some(usage), ..s }), Ok(None))
        },
        EventView::Completed(reason) => spec_complete(s, reason),
        EventView::Failed(failure) => (
            AssemblerView::Terminal(ResponseView::Failed(failure)),
            Ok(Some(ResponseView::Failed(failure))),
        ),
        EventView::Aborted(message) => (
            AssemblerView::Terminal(ResponseView::Aborted(message)),
            Ok(Some(ResponseView::Aborted(message))),
        ),
    }
}

/// One event applied to the assembler, before an error poisons it.
pub open spec fn spec_push_inner(a: AssemblerView, e: EventView) -> (
    AssemblerView,
    Result<Option<ResponseView>, AssemblyErrorView>,
) {
    match a {
        AssemblerView::Poisoned => (a, Err(AssemblyErrorView::Poisoned)),
        AssemblerView::Terminal(_) => (a, Err(AssemblyErrorView::EventAfterTerminal)),
        AssemblerView::AwaitingStart => match e {
            EventView::Started(request_id) => (
                AssemblerView::Streaming(
                    StreamView {
                        request_id,
                        text: Seq::empty(),
                        tool_calls: Seq::empty(),
                        usage: None,
                    },
                ),
                Ok(None),
            ),
            _ => (a, Err(AssemblyErrorView::EventBeforeStart(e.kind()))),
        },
        AssemblerView::Streaming(s) => spec_stream_event(s, e),
    }
}

/// One event applied to the assembler: any error leaves it poisoned.
pub open spec fn spec_push(a: AssemblerView, e: EventView) -> (
    AssemblerView,
    Result<Option<ResponseView>, AssemblyErrorView>,
) {
    let (next, r) = spec_push_inner(a, e);
    if r is Err {
        (AssemblerView::Poisoned, r)
    } else {
        (next, r)
    }
}

/// A push outcome taken by view.
pub open spec fn outcome_view(r: Result<Option<ModelResponse>, AssemblyError>) -> Result<
    Option<ResponseView>,
    AssemblyErrorView,
> {
    match r {
        Ok(Some(resp)) => Ok(Some(resp@)),
        Ok(None) => Ok(None),
        Err(e) => Err(e@),
    }
}

struct ToolCallAssembly {
    id: ToolCallId,
    name: String,
    arguments_json: String,
    arguments: Option<JsonValue>,
}

impl ToolCallAssembly {
    spec fn view(&self) -> PendingCallView {
        PendingCallView {
            id: self.id@,
            name: self.name@,
            arguments_json: self.arguments_json@,
            arguments: self.arguments,
        }
    }

    fn duplicate(&self) -> (r: ToolCallAssembly)
        ensures
            r == *self,
    {
        ToolCallAssembly {
            id: self.id.clone(),
            name: self.name.clone(),
            arguments_json: self.arguments_json.clone(),
            arguments: crate::types::clone_json(&self.arguments),
        }
    }
}

struct StreamingState {
    started: ProviderStarted,
    text: String,
    tool_calls: Vec<ToolCallAssembly>,
    usage: Option<ModelUsage>,
}

impl StreamingState {
    spec fn view(&self) -> StreamView {
        StreamView {
            request_id: opt_text(self.started.request_id),
            text: self.text@,
            tool_calls: self.tool_calls@.map_values(|c: ToolCallAssembly| c.view()),
            usage: self.usage,
        }
    }
}

enum State {
    AwaitingStart,
    Streaming(StreamingState),
    Terminal(ModelResponse),
    Poisoned,
}

impl State {
    spec fn view(&self) -> AssemblerView {
        match self {
            State::AwaitingStart => AssemblerView::AwaitingStart,
            State::Streaming(s) => AssemblerView::Streaming(s.view()),
            State::Terminal(r) => AssemblerView::Terminal(r@),
            State::Poisoned => AssemblerView::Poisoned,
        }
    }
}

/// Assembles one provider stream, failing closed on any protocol violation.
pub struct ResponseAssembler {
    state: State,
}

impl View for ResponseAssembler {
    type V = AssemblerView;

    closed spec fn view(&self) -> AssemblerView {
        self.state.view()
    }
}

fn clone_content(c: &MessageContent) -> (r: MessageContent)
    ensures
        r == *c,
{
    match c {
        MessageContent::Text { text } => MessageContent::Text { text: text.clone() },
        MessageContent::ToolCall { call } => MessageContent::ToolCall { call: call.clone() },
        MessageContent::ToolResult { call_id, tool_name, content, is_error } => {
            MessageContent::ToolResult {
                call_id: call_id.clone(),
                tool_name: tool_name.clone(),
                content: content.clone(),
                is_error: *is_error,
            }
        },
    }
}

/// A copy of a response with the same view.
pub fn clone_response(r: &ModelResponse) -> (c: ModelResponse)
    ensures
        c@ == r@,
{
    match r {
        ModelResponse::Completed { message } => {
            let mut content: Vec<MessageContent> = Vec::new();
            let mut i: usize = 0;
            while i < message.content.len()
                invariant
                    0 <= i <= message.content@.len(),
                    content@ == message.content@.subrange(0, i as int),
                decreases message.content.len() - i,
            {
                content.push(clone_content(&message.content[i]));
                i = i + 1;
            }
            proof {
                assert(message.content@.subrange(0, message.content@.len() as int)
                    == message.content@);
            }
            ModelResponse::Completed {
                message: AssistantMessage {
                    content,
                    stop_reason: message.stop_reason,
                    usage: message.usage,
                    provider_request_id: clone_opt_text(&message.provider_request_id),
                },
            }
        },
        ModelResponse::Failed { failure } => ModelResponse::Failed {
            failure: crate::provider::ProviderFailure {
                code: failure.code.clone(),
                message: failure.message.clone(),
                retryable: failure.retryable,
            },
        },
        ModelResponse::Aborted { message } => ModelResponse::Aborted {
            message: clone_opt_text(message),
        },
    }
}

fn find_tool(calls: &Vec<ToolCallAssembly>, id: &ToolCallId) -> (r: Option<usize>)
    ensures
        r matches Some(i) ==> find_call(calls@.map_values(|c: ToolCallAssembly| c.view()), id@, 0)
            == Some(i as int) && i < calls@.len(),
        r is None ==> find_call(calls@.map_values(|c: ToolCallAssembly| c.view()), id@, 0) is None,
{
    let ghost views = calls@.map_values(|c: ToolCallAssembly| c.view());
    let mut i: usize = 0;
    while i < calls.len()
        invariant
            0 <= i <= calls@.len(),
            views == calls@.map_values(|c: ToolCallAssembly| c.view()),
            find_call(views, id@, 0) == find_call(views, id@, i as int),
        decreases calls.len() - i,
    {
        if calls[i].id.same_as(id) {
            return Some(i);
        }
        i = i + 1;
    }
    None
}

fn find_unfinished(calls: &Vec<ToolCallAssembly>) -> (r: Option<usize>)
    ensures
        r matches Some(i) ==> find_incomplete(calls@.map_values(|c: ToolCallAssembly| c.view()), 0)
            == Some(i as int) && i < calls@.len(),
        r is None ==> find_incomplete(calls@.map_values(|c: ToolCallAssembly| c.view()), 0) is None,
{
    let ghost views = calls@.map_values(|c: ToolCallAssembly| c.view());
    let mut i: usize = 0;
    while i < calls.len()
        invariant
            0 <= i <= calls@.len(),
            views == calls@.map_values(|c: ToolCallAssembly| c.view()),
            find_incomplete(views, 0) == find_incomplete(views, i as int),
        decreases calls.len() - i,
    {
        if calls[i].arguments.is_none() {
            return Some(i);
        }
        i = i + 1;
    }
    None
}

fn complete(s: StreamingState, reason: CompletionReason) -> (r: (
    State,
    Result<Option<ModelResponse>, AssemblyError>,
))
    ensures
        (r.0.view(), outcome_view(r.1)) == spec_complete(s.view(), reason),
{
    let ghost sv = s.view();
    if let Some(i) = find_unfinished(&s.tool_calls) {
        let id = s.tool_calls[i].id.clone();
        return (State::Streaming(s), Err(AssemblyError::IncompleteToolCall(id)));
    }
    let none_left = s.tool_calls.len() == 0;
    if reason == CompletionReason::Length && !none_left {
        return (State::Streaming(s), Err(AssemblyError::TruncatedToolCalls));
    }
    if reason == CompletionReason::ToolUse && none_left {
        return (State::Streaming(s), Err(AssemblyError::ToolUseWithoutToolCall));
    }
    if reason == CompletionReason::Stop && !none_left {
        return (State::Streaming(s), Err(AssemblyError::StopWithToolCall));
    }
    let mut content: Vec<MessageContent> = Vec::new();
    if !s.text.as_str().is_empty() {
        content.push(MessageContent::Text { text: s.text.clone() });
    }
    let ghost prefix = content@.map_values(|c: MessageContent| c@);
    proof {
        assert(find_incomplete(sv.tool_calls, 0) is None);
        assert(prefix =~= (if sv.text.len() == 0 {
            Seq::<ContentView>::empty()
        } else {
            seq![ContentView::Text(sv.text)]
        }));
    }
    let mut i: usize = 0;
    while i < s.tool_calls.len()
        invariant
            0 <= i <= s.tool_calls@.len(),
            sv == s.view(),
            find_incomplete(sv.tool_calls, 0) is None,
            content@.map_values(|c: MessageContent| c@) =~= prefix + sv.tool_calls.subrange(
                0,
                i as int,
            ).map_values(|c: PendingCallView| finished_call(c)),
        decreases s.tool_calls.len() - i,
    {
        let tool = &s.tool_calls[i];
        proof {
            lemma_complete_calls_have_arguments(sv.tool_calls, 0, i as int);
        }
        let arguments = match &tool.arguments {
            Some(a) => a.clone(),
            None => JsonValue::Null,
        };
        let call = ToolCall {
            id: tool.id.clone(),
            name: tool.name.clone(),
            arguments_json: tool.arguments_json.clone(),
            arguments,
        };
        let ghost before = content@;
        let ghost call_view = ContentView::ToolCall(call@);
        proof {
            assert(call.arguments == tool.arguments->0);
            assert(call@.id == sv.tool_calls[i as int].id);
        }
        let item = MessageContent::ToolCall { call };
        proof {
            assert(tool.view() == sv.tool_calls[i as int]);
            assert(tool.arguments is Some);
            assert(call_view == finished_call(sv.tool_calls[i as int]));
            assert(item@ == finished_call(sv.tool_calls[i as int]));
        }
        content.push(item);
        proof {
            assert(content@.map_values(|c: MessageContent| c@) =~= before.map_values(
                |c: MessageContent| c@,
            ).push(finished_call(sv.tool_calls[i as int])));
            assert(sv.tool_calls.subrange(0, i + 1).map_values(|c: PendingCallView| finished_call(c)) =~= sv.tool_calls.subrange(
                0,
                i as int,
            ).map_values(|c: PendingCallView| finished_call(c)).push(finished_call(sv.tool_calls[i as int])));
        }
        i = i + 1;
    }
    proof {
        assert(sv.tool_calls.subrange(0, sv.tool_calls.len() as int) == sv.tool_calls);
    }
    let response = ModelResponse::Completed {
        message: AssistantMessage {
            content,
            stop_reason: reason,
            usage: s.usage,
            provider_request_id: clone_opt_text(&s.started.request_id),
        },
    };
    let copy = clone_response(&response);
    (State::Terminal(copy), Ok(Some(response)))
}

proof fn lemma_complete_calls_have_arguments(calls: Seq<PendingCallView>, from: int, i: int)
    requires
        find_incomplete(calls, from) is None,
        0 <= from <= i < calls.len(),
    ensures
        calls[i].arguments is Some,
    decreases i - from,
{
    if from < i {
        lemma_complete_calls_have_arguments(calls, from + 1, i);
    }
}

fn stream_event(s: StreamingState, event: ModelEvent) -> (r: (
    State,
    Result<Option<ModelResponse>, AssemblyError>,
))
    ensures
        (r.0.view(), outcome_view(r.1)) == spec_stream_event(s.view(), event@),
{
    let mut s = s;
    let ghost sv = s.view();
    match event {
        ModelEvent::Started { .. } => (State::Streaming(s), Err(AssemblyError::DuplicateStart)),
        ModelEvent::TextDelta { delta } => {
            s.text.append(delta.as_str());
            proof {
                assert(s.view().tool_calls == sv.tool_calls);
            }
            (State::Streaming(s), Ok(None))
        },
        ModelEvent::ToolCallStarted { id, name } => {
            if find_tool(&s.tool_calls, &id).is_some() {
                return (State::Streaming(s), Err(AssemblyError::DuplicateToolCallId(id)));
            }
            let call = ToolCallAssembly {
                id,
                name,
                arguments_json: String::new(),
                arguments: None,
            };
            let ghost before = s.tool_calls@;
            s.tool_calls.push(call);
            proof {
                assert(s.tool_calls@.map_values(|c: ToolCallAssembly| c.view()) =~= before.map_values(
                    |c: ToolCallAssembly| c.view(),
                ).push(call.view()));
            }
            (State::Streaming(s), Ok(None))
        },
        ModelEvent::ToolCallArgumentsDelta { id, delta } => {
            match find_tool(&s.tool_calls, &id) {
                None => (State::Streaming(s), Err(AssemblyError::UnknownToolCall(id))),
                Some(i) => {
                    if s.tool_calls[i].arguments.is_some() {
                        return (
                            State::Streaming(s),
                            Err(AssemblyError::ToolCallAlreadyCompleted(id)),
                        );
                    }
                    let mut tool = s.tool_calls[i].duplicate();
                    tool.arguments_json.append(delta.as_str());
                    let ghost before = s.tool_calls@;
                    s.tool_calls.set(i, tool);
                    proof {
                        assert(s.tool_calls@.map_values(|c: ToolCallAssembly| c.view())
                            =~= before.map_values(|c: ToolCallAssembly| c.view()).update(
                            i as int,
                            tool.view(),
                        ));
                    }
                    (State::Streaming(s), Ok(None))
                },
            }
        },
        ModelEvent::ToolCallCompleted { id } => {
            match find_tool(&s.tool_calls, &id) {
                None => (State::Streaming(s), Err(AssemblyError::UnknownToolCall(id))),
                Some(i) => {
                    if s.tool_calls[i].arguments.is_some() {
                        return (
                            State::Streaming(s),
                            Err(AssemblyError::DuplicateToolCallCompletion(id)),
                        );
                    }
                    match JsonValue::parse_with_message(s.tool_calls[i].arguments_json.as_str()) {
                        Err(message) => {
                            (State::Streaming(s), Err(AssemblyError::InvalidToolArguments(id, message)))
                        },
                        Ok(value) => {
                            let mut tool = s.tool_calls[i].duplicate();
                            tool.arguments = Some(value);
                            let ghost before = s.tool_calls@;
                            s.tool_calls.set(i, tool);
                            proof {
                                assert(s.tool_calls@.map_values(|c: ToolCallAssembly| c.view())
                                    =~= before.map_values(|c: ToolCallAssembly| c.view()).update(
                                    i as int,
                                    tool.view(),
                                ));
                            }
                            (State::Streaming(s), Ok(None))
                        },
                    }
                },
            }
        },
        ModelEvent::Usage { usage } => {
            if let Some(previous) = s.usage {
                if !usage.dominates(previous) {
                    return (State::Streaming(s), Err(AssemblyError::UsageRegression));
                }
            }
            s.usage = Some(usage);
            (State::Streaming(s), Ok(None))
        },
        ModelEvent::Completed { reason } => complete(s, reason),
        ModelEvent::Failed { failure } => {
            let response = ModelResponse::Failed { failure };
            let copy = clone_response(&response);
            (State::Terminal(copy), Ok(Some(response)))
        },
        ModelEvent::Aborted { message } => {
            let response = ModelResponse::Aborted { message };
            let copy = clone_response(&response);
            (State::Terminal(copy), Ok(Some(response)))
        },
    }
}

fn push_inner(state: State, event: ModelEvent) -> (r: (
    State,
    Result<Option<ModelResponse>, AssemblyError>,
))
    ensures
        (r.0.view(), outcome_view(r.1)) == spec_push_inner(state.view(), event@),
{
    match state {
        State::Poisoned => (State::Poisoned, Err(AssemblyError::Poisoned)),
        State::Terminal(response) => (State::Terminal(response), Err(AssemblyError::EventAfterTerminal)),
        State::AwaitingStart => {
            match event {
                ModelEvent::Started { started } => {
                    let s = StreamingState {
                        started,
                        text: String::new(),
                        tool_calls: Vec::new(),
                        usage: None,
                    };
                    proof {
                        assert(s.view().tool_calls =~= Seq::<PendingCallView>::empty());
                    }
                    (State::Streaming(s), Ok(None))
                },
                _ => {
                    let name = event.kind();
                    proof {
                        crate::provider::lemma_event_kind_view(event);
                    }
                    (State::AwaitingStart, Err(AssemblyError::EventBeforeStart { event: name }))
                },
            }
        },
        State::Streaming(s) => stream_event(s, event),
    }
}

impl ResponseAssembler {
    /// An assembler awaiting `Started`.
    pub fn new() -> (r: ResponseAssembler)
        ensures
            r@ == AssemblerView::AwaitingStart,
    {
        ResponseAssembler { state: State::AwaitingStart }
    }

    /// Applies one event. The terminal event returns the response; any
    /// protocol violation returns its error and leaves the assembler
    /// poisoned, so that every later event is refused.
    pub fn push(&mut self, event: ModelEvent) -> (r: Result<Option<ModelResponse>, AssemblyError>)
        ensures
            (final(self)@, outcome_view(r)) == spec_push(old(self)@, event@),
    {
        let mut state = State::Poisoned;
        std::mem::swap(&mut state, &mut self.state);
        let (next, r) = push_inner(state, event);
        if r.is_err() {
            self.state = State::Poisoned;
        } else {
            self.state = next;
        }
        r
    }

    /// The terminal response once the stream ended. Over any sequence of
    /// pushes, `lemma_finish_after_pushes` in the finalize module states
    /// when this is a response, poisoned, or an unexpected end.
    pub fn finish(self) -> (r: Result<ModelResponse, AssemblyError>)
        ensures
            self@ matches AssemblerView::Terminal(resp) ==> r matches Ok(x) && x@ == resp,
            self@ is Poisoned ==> r == Err::<ModelResponse, AssemblyError>(AssemblyError::Poisoned),
            (self@ is AwaitingStart || self@ is Streaming) ==> r == Err::<
                ModelResponse,
                AssemblyError,
            >(AssemblyError::UnexpectedEnd),
    {
        match self.state {
            State::Terminal(response) => Ok(response),
            State::Poisoned => Err(AssemblyError::Poisoned),
            _ => Err(AssemblyError::UnexpectedEnd),
        }
    }
}

/// Once poisoned, an assembler refuses every event and stays poisoned.
pub proof fn lemma_poisoned_stays_closed(e: EventView)
    ensures
        spec_push(AssemblerView::Poisoned, e) == (
            AssemblerView::Poisoned,
            Err::<Option<ResponseView>, AssemblyErrorView>(AssemblyErrorView::Poisoned),
        ),
{
}

/// No event after the terminal response is accepted: it is refused and the
/// assembler is poisoned.
pub proof fn lemma_no_output_after_terminal(response: ResponseView, e: EventView)
    ensures
        spec_push(AssemblerView::Terminal(response), e) == (
            AssemblerView::Poisoned,
            Err::<Option<ResponseView>, AssemblyErrorView>(AssemblyErrorView::EventAfterTerminal),
        ),
{
}


/// A usage report replaces the one the stream holds: it is accepted exactly
/// when no counter falls below the last report, and once accepted the stream
/// holds that report and nothing else in it changes; a refused report
/// poisons the assembler.
pub proof fn lemma_usage_replaces(s: StreamView, u: ModelUsage)
    ensures
        ({
            let (next, out) = spec_push(AssemblerView::Streaming(s), EventView::Usage(u));
            let regresses = s.usage matches Some(p) && (u.input_tokens < p.input_tokens
                || u.output_tokens < p.output_tokens || u.cache_read_input_tokens
                < p.cache_read_input_tokens || u.cache_write_input_tokens
                < p.cache_write_input_tokens);
            &&& out is Ok <==> !regresses
            &&& !regresses ==> out == Ok::<Option<ResponseView>, AssemblyErrorView>(None) && next
                == AssemblerView::Streaming(
                StreamView {
                    request_id: s.request_id,
                    text: s.text,
                    tool_calls: s.tool_calls,
                    usage: Some(u),
                },
            )
            &&& regresses ==> next == AssemblerView::Poisoned && out == Err::<
                Option<ResponseView>,
                AssemblyErrorView,
            >(AssemblyErrorView::UsageRegression)
        }),
{
}

/// Text deltas accumulate: each one is appended to the text already
/// delivered, and nothing else in the stream changes.
pub proof fn lemma_text_accumulates(s: StreamView, delta: Seq<char>)
    ensures
        spec_push(AssemblerView::Streaming(s), EventView::TextDelta(delta)) == (
            AssemblerView::Streaming(
                StreamView {
                    request_id: s.request_id,
                    text: s.text + delta,
                    tool_calls: s.tool_calls,
                    usage: s.usage,
                },
            ),
            Ok::<Option<ResponseView>, AssemblyErrorView>(None),
        ),
{
}

/// A tool call is started once: a new id opens a call with no arguments yet
/// after every call already open, and an id already open is refused.
pub proof fn lemma_tool_call_starts_once(s: StreamView, id: Seq<char>, name: Seq<char>)
    ensures
        ({
            let (next, out) = spec_push(
                AssemblerView::Streaming(s),
                EventView::ToolCallStarted(id, name),
            );
            let open = exists|i: int| 0 <= i < s.tool_calls.len() && #[trigger] s.tool_calls[i].id == id;
            &&& open ==> out == Err::<Option<ResponseView>, AssemblyErrorView>(
                AssemblyErrorView::DuplicateToolCallId(id),
            ) && next == AssemblerView::Poisoned
            &&& !open ==> out == Ok::<Option<ResponseView>, AssemblyErrorView>(None)
                && next == AssemblerView::Streaming(
                StreamView {
                    request_id: s.request_id,
                    text: s.text,
                    tool_calls: s.tool_calls.push(
                        PendingCallView {
                            id,
                            name,
                            arguments_json: Seq::empty(),
                            arguments: None,
                        },
                    ),
                    usage: s.usage,
                },
            )
        }),
{
    lemma_find_call(s.tool_calls, id, 0);
}

proof fn lemma_find_call(calls: Seq<PendingCallView>, id: Seq<char>, i: int)
    requires
        0 <= i,
    ensures
        find_call(calls, id, i) matches Some(k) ==> i <= k < calls.len() && calls[k].id == id
            && forall|m: int| i <= m < k ==> (#[trigger] calls[m]).id != id,
        find_call(calls, id, i) is None ==> forall|m: int| i <= m < calls.len() ==> (#[trigger] calls[m]).id != id,
    decreases calls.len() - i,
{
    if i < calls.len() && calls[i].id != id {
        lemma_find_call(calls, id, i + 1);
    }
}

/// Argument text accumulates on the one open call it names: the delta is
/// appended to that call's text and nothing else changes; a delta for an
/// unknown or already completed call is refused.
pub proof fn lemma_arguments_accumulate(s: StreamView, id: Seq<char>, delta: Seq<char>)
    ensures
        ({
            let (next, out) = spec_push(
                AssemblerView::Streaming(s),
                EventView::ToolCallArgumentsDelta(id, delta),
            );
            &&& out is Ok ==> exists|k: int|
                0 <= k < s.tool_calls.len() && #[trigger] s.tool_calls[k].id == id
                    && s.tool_calls[k].arguments is None && next == AssemblerView::Streaming(
                    StreamView {
                        request_id: s.request_id,
                        text: s.text,
                        tool_calls: s.tool_calls.update(
                            k,
                            PendingCallView {
                                id: s.tool_calls[k].id,
                                name: s.tool_calls[k].name,
                                arguments_json: s.tool_calls[k].arguments_json + delta,
                                arguments: None,
                            },
                        ),
                        usage: s.usage,
                    },
                )
            &&& (forall|k: int| 0 <= k < s.tool_calls.len() ==> (#[trigger] s.tool_calls[k]).id != id)
                ==> out == Err::<Option<ResponseView>, AssemblyErrorView>(
                AssemblyErrorView::UnknownToolCall(id),
            )
        }),
{
    lemma_find_call(s.tool_calls, id, 0);
}

/// A completed response carries the usage the stream holds when it
/// completes: the last accepted usage report, or none.
pub proof fn lemma_completion_carries_usage(s: StreamView, reason: CompletionReason)
    ensures
        spec_push(AssemblerView::Streaming(s), EventView::Completed(reason)).1 matches Ok(
            Some(ResponseView::Completed(m)),
        ) ==> m.usage == s.usage && m.stop_reason == reason && m.provider_request_id
            == s.request_id,
{
}

/// A completed message holds the delivered text, when there is any, and
/// then every tool call in the order the provider started them, each with
/// its complete argument text and the document it parsed to; completion is
/// refused while any call is incomplete.
pub proof fn lemma_completion_holds_every_call(s: StreamView, reason: CompletionReason)
    ensures
        ({
            let out = spec_push(AssemblerView::Streaming(s), EventView::Completed(reason)).1;
            let offset: int = if s.text.len() == 0 {
                0
            } else {
                1
            };
            &&& (exists|k: int| 0 <= k < s.tool_calls.len() && (#[trigger] s.tool_calls[k]).arguments is None)
                ==> out is Err
            &&& out matches Ok(Some(ResponseView::Completed(m))) ==> {
                &&& m.content.len() == offset + s.tool_calls.len()
                &&& s.text.len() > 0 ==> m.content[0] == ContentView::Text(s.text)
                &&& forall|k: int|
                    0 <= k < s.tool_calls.len() ==> s.tool_calls[k].arguments is Some && m.content[offset
                        + k] == ContentView::ToolCall(
                        ToolCallView {
                            id: (#[trigger] s.tool_calls[k]).id,
                            name: s.tool_calls[k].name,
                            arguments_json: s.tool_calls[k].arguments_json,
                            arguments: s.tool_calls[k].arguments->0,
                        },
                    )
            }
        }),
{
    lemma_find_incomplete(s.tool_calls, 0);
}

proof fn lemma_find_incomplete(calls: Seq<PendingCallView>, i: int)
    requires
        0 <= i,
    ensures
        find_incomplete(calls, i) is None ==> forall|m: int|
            i <= m < calls.len() ==> (#[trigger] calls[m]).arguments is Some,
        find_incomplete(calls, i) matches Some(k) ==> i <= k < calls.len(),
    decreases calls.len() - i,
{
    if i < calls.len() && calls[i].arguments is Some {
        lemma_find_incomplete(calls, i + 1);
    }
}

/// Every completed call in the stream holds what its argument text parses to.
pub open spec fn stream_parsed(a: AssemblerView) -> bool {
    a matches AssemblerView::Streaming(s) ==> forall|i: int|
        0 <= i < s.tool_calls.len() && (#[trigger] s.tool_calls[i]).arguments is Some
            ==> spec_parse_json(s.tool_calls[i].arguments_json) == Ok::<JsonValue, Seq<char>>(
            s.tool_calls[i].arguments->0,
        )
}

/// A finished message is executable as it stands: it asks for tools exactly
/// when its stop reason is `ToolUse`, and each tool call carries the value its
/// argument text parses to.
pub open spec fn message_is_executable(m: MessageView) -> bool {
    &&& (m.stop_reason is ToolUse <==> exists|i: int|
        0 <= i < m.content.len() && (#[trigger] m.content[i]) is ToolCall)
    &&& forall|i: int|
        0 <= i < m.content.len() && (#[trigger] m.content[i]) is ToolCall ==> spec_parse_json(
            m.content[i]->ToolCall_0.arguments_json,
        ) == Ok::<JsonValue, Seq<char>>(m.content[i]->ToolCall_0.arguments)
}

/// The assembler keeps every completed call equal to the parse of its text.
pub proof fn lemma_push_keeps_parsed(a: AssemblerView, e: EventView)
    requires
        stream_parsed(a),
    ensures
        stream_parsed(spec_push(a, e).0),
{
    if let AssemblerView::Streaming(s) = a {
        match e {
            EventView::ToolCallArgumentsDelta(id, delta) => {
                lemma_find_call_in_range(s.tool_calls, id, 0);
            },
            EventView::ToolCallCompleted(id) => {
                lemma_find_call_in_range(s.tool_calls, id, 0);
            },
            _ => {},
        }
    }
}

proof fn lemma_find_call_in_range(calls: Seq<PendingCallView>, id: Seq<char>, from: int)
    requires
        0 <= from,
    ensures
        find_call(calls, id, from) matches Some(i) ==> from <= i < calls.len() && calls[i].id == id,
    decreases calls.len() - from,
{
    if from < calls.len() && calls[from].id != id {
        lemma_find_call_in_range(calls, id, from + 1);
    }
}

/// Every response the assembler completes is executable as it stands.
pub proof fn lemma_completed_message_is_executable(a: AssemblerView, e: EventView)
    requires
        stream_parsed(a),
    ensures
        spec_push(a, e).1 matches Ok(Some(ResponseView::Completed(m))) ==> message_is_executable(m),
{
    if let AssemblerView::Streaming(s) = a {
        if let EventView::Completed(reason) = e {
            if spec_complete(s, reason).1 is Ok {
                let content = finished_content(s);
                let text_len: int = if s.text.len() == 0 { 0 } else { 1 };
                assert(content.len() == text_len + s.tool_calls.len());
                assert forall|i: int| 0 <= i < content.len() && (#[trigger] content[i]) is ToolCall
                    implies i >= text_len && spec_parse_json(content[i]->ToolCall_0.arguments_json)
                    == Ok::<JsonValue, Seq<char>>(content[i]->ToolCall_0.arguments) by {
                    if i >= text_len {
                        let j = i - text_len;
                        assert(content[i] == finished_call(s.tool_calls[j]));
                        lemma_complete_calls_have_arguments(s.tool_calls, 0, j);
                    }
                }
                if s.tool_calls.len() > 0 {
                    assert(content[text_len] == finished_call(s.tool_calls[0]));
                    assert(content[text_len] is ToolCall);
                }
            }
        }
    }
}

} // verus!
