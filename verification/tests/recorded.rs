use workweave::finalize::finalize_items;
use workweave::json::JsonValue;
use workweave::provider::{
    CompletionReason, MessageContent, MessageRole, ModelEvent, ModelId, ModelMessage, ModelRequest,
    ModelResponse, ModelToolSpec, ProviderError, ProviderStarted, ToolCallId,
};
use workweave::recorded::{next_recorded_event, ExpectedRequest, RecordedOutcome, RecordedScript};

fn model() -> ModelId {
    ModelId::new("recorded-1").unwrap()
}

fn request(messages: Vec<ModelMessage>) -> ModelRequest {
    ModelRequest {
        model: model(),
        system_prompt: None,
        messages,
        tools: Vec::new(),
    }
}

fn user(text: &str) -> ModelMessage {
    ModelMessage {
        role: MessageRole::User,
        content: vec![MessageContent::Text { text: text.to_owned() }],
    }
}

fn started() -> ModelEvent {
    ModelEvent::Started {
        started: ProviderStarted { request_id: Some("req-1".to_owned()) },
    }
}

fn stop() -> ModelEvent {
    ModelEvent::Completed { reason: CompletionReason::Stop }
}

fn run(script: &mut RecordedScript, request: ModelRequest) -> Result<Vec<ModelEvent>, ProviderError> {
    script.receive(request)
}

#[test]
fn matching_request_replays_the_scripted_stream() {
    let mut script = RecordedScript::new();
    script.push(
        ExpectedRequest::any().model(model()).message_count(1),
        RecordedOutcome::Stream(vec![started(), ModelEvent::TextDelta { delta: "hi".to_owned() }, stop()]),
    );
    let events = run(&mut script, request(vec![user("hello")])).unwrap();
    let response = finalize_items(events.into_iter().map(Ok).collect()).unwrap();
    let ModelResponse::Completed { message } = response else {
        panic!("expected a completed response")
    };
    assert_eq!(message.stop_reason, CompletionReason::Stop);
    assert_eq!(message.content, vec![MessageContent::Text { text: "hi".to_owned() }]);
    assert_eq!(script.remaining(), 0);
    assert!(script.verify().is_ok());
}

#[test]
fn mismatched_request_is_rejected_and_recorded() {
    let mut script = RecordedScript::new();
    script.push(ExpectedRequest::any().message_count(2), RecordedOutcome::Stream(vec![started()]));
    let error = run(&mut script, request(vec![user("only one")])).unwrap_err();
    assert_eq!(
        error,
        ProviderError::Request("request 0: expected 2 messages, got 1".to_owned())
    );
    assert_eq!(script.verify().unwrap_err(), "request 0: expected 2 messages, got 1");
}

#[test]
fn extra_request_beyond_the_script_is_rejected() {
    let mut script = RecordedScript::new();
    script.push(ExpectedRequest::any(), RecordedOutcome::Stream(vec![started(), stop()]));
    assert!(run(&mut script, request(vec![user("hi")])).is_ok());
    assert!(script.verify().is_ok());
    let error = run(&mut script, request(vec![user("again")])).unwrap_err();
    assert_eq!(
        error,
        ProviderError::Request("request 1: script exhausted, no exchange remains".to_owned())
    );
    assert!(script.verify().is_err());
    assert_eq!(script.requests().len(), 2);
}

#[test]
fn unused_script_entries_fail_verification() {
    let mut script = RecordedScript::new();
    script.push(ExpectedRequest::any(), RecordedOutcome::Stream(vec![started(), stop()]));
    script.push(ExpectedRequest::any(), RecordedOutcome::Stream(vec![started()]));
    assert!(run(&mut script, request(vec![user("hi")])).is_ok());
    let error = script.verify().unwrap_err();
    assert_eq!(error, "1 scripted exchange(s) were never used");
}

#[test]
fn requests_are_captured_for_assertions() {
    let mut script = RecordedScript::new();
    script.push(
        ExpectedRequest::any().tools(vec!["test.echo".to_owned()]),
        RecordedOutcome::Stream(vec![started(), stop()]),
    );
    let mut req = request(vec![user("hi")]);
    req.tools = vec![ModelToolSpec {
        name: "test.echo".to_owned(),
        description: "echo".to_owned(),
        input_schema: JsonValue::object(vec![("type".to_owned(), JsonValue::string("object"))]),
    }];
    assert!(run(&mut script, req).is_ok());
    assert_eq!(script.requests().len(), 1);
    assert_eq!(script.requests()[0].tools[0].name, "test.echo");
    assert!(script.verify().is_ok());
}

#[test]
fn unavailable_outcome_yields_no_stream() {
    let mut script = RecordedScript::new();
    script.push(
        ExpectedRequest::any(),
        RecordedOutcome::Unavailable(ProviderError::Transport("down".to_owned())),
    );
    assert_eq!(
        run(&mut script, request(vec![user("hi")])).unwrap_err(),
        ProviderError::Transport("down".to_owned())
    );
    assert!(script.verify().is_ok());
}

#[test]
fn tool_results_must_come_in_the_expected_order() {
    let first = ToolCallId::new("a").unwrap();
    let second = ToolCallId::new("b").unwrap();
    let mut script = RecordedScript::new();
    script.push(
        ExpectedRequest::any().tool_results_in_order(vec![ToolCallId::new("a").unwrap(), ToolCallId::new("b").unwrap()]),
        RecordedOutcome::Stream(vec![started(), stop()]),
    );
    let result = |id: ToolCallId| MessageContent::ToolResult {
        call_id: id,
        tool_name: "test.echo".to_owned(),
        content: JsonValue::Bool(true),
        is_error: false,
    };
    let swapped = ModelMessage { role: MessageRole::Tool, content: vec![result(second), result(first)] };
    assert!(run(&mut script, request(vec![user("hi"), swapped])).is_err());
    assert!(script.verify().is_err());
}

#[test]
fn a_cancelled_recorded_stream_ends_with_an_abort() {
    let event = || ModelEvent::TextDelta { delta: "hi".to_owned() };
    assert_eq!(next_recorded_event(event(), false), (event(), false));
    assert_eq!(
        next_recorded_event(event(), true),
        (ModelEvent::Aborted { message: Some("cancelled".to_owned()) }, true)
    );
}
