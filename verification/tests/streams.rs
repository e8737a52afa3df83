use openagents::anthropic_stream::{AnthropicStream, ContentBlock, ContentBlockDelta, MessageDelta, MessageDeltaUsage, MessageStreamError, MessageStreamEvent, StartMessage, StartUsage};
use openagents::pi_types::{initial_output, AssistantContent, AssistantMessageEvent, Model, StopReason};
use openagents::responses_stream::{IncompleteDetails, OutputItem, ReasoningItem, ReasoningTextPart, Response, ResponseError, ResponseFunctionCall, ResponseOutputContent, ResponseOutputMessage, ResponseStreamEvent, ResponseUsage, ResponsesStream, InputTokensDetails};

fn model() -> Model {
    Model { id: "m".to_string(), api: "openai-responses".to_string(), provider: "7".to_string(), base_url: "http://x".to_string(), reasoning: true, input: vec!["text".to_string()], max_tokens: 100 }
}

fn response(status: &str) -> Response {
    Response { id: Some("resp_1".to_string()), status: Some(status.to_string()), usage: None, error: None, incomplete_details: None, output: None }
}

#[test]
fn responses_stream_builds_text_reply() {
    let mut s = ResponsesStream::new(initial_output(&model(), 5));
    let evs = s
        .process_event(ResponseStreamEvent::OutputItemAdded {
            output_index: 0,
            item: OutputItem::Message(ResponseOutputMessage { id: "msg_1".to_string(), content: vec![], status: None, phase: None }),
        })
        .ok()
        .unwrap();
    assert!(matches!(&evs[0], AssistantMessageEvent::TextStart { content_index: 0, .. }));
    let evs = s.process_event(ResponseStreamEvent::OutputTextDelta { output_index: 0, delta: "Hel".to_string() }).ok().unwrap();
    assert!(matches!(&evs[0], AssistantMessageEvent::TextDelta { delta, .. } if delta == "Hel"));
    s.process_event(ResponseStreamEvent::OutputTextDelta { output_index: 0, delta: "lo".to_string() }).ok().unwrap();
    let evs = s
        .process_event(ResponseStreamEvent::OutputItemDone {
            output_index: 0,
            item: OutputItem::Message(ResponseOutputMessage {
                id: "msg_1".to_string(),
                content: vec![ResponseOutputContent::OutputText { text: "Hello".to_string() }],
                status: Some("completed".to_string()),
                phase: None,
            }),
        })
        .ok()
        .unwrap();
    assert!(matches!(&evs[0], AssistantMessageEvent::TextEnd { content, .. } if content == "Hello"));
    let mut r = response("completed");
    r.usage = Some(ResponseUsage {
        input_tokens: 10,
        output_tokens: 4,
        total_tokens: Some(14),
        input_tokens_details: Some(InputTokensDetails { cached_tokens: 3, cache_write_tokens: 1 }),
        output_tokens_details: None,
    });
    assert!(s.process_event(ResponseStreamEvent::ResponseCompleted { response: r }).is_ok());
    assert!(s.finish().is_ok());
    assert!(s.output.stop_reason == StopReason::Stop);
    assert_eq!(s.output.usage.input, 6);
    assert_eq!(s.output.usage.cache_read, 3);
    assert_eq!(s.output.usage.total_tokens, 14);
    assert_eq!(s.output.response_id.as_deref(), Some("resp_1"));
    assert_eq!(s.output.raw_stop_reason.as_deref(), Some("completed"));
    match &s.output.content[0] {
        AssistantContent::Text(t) => {
            assert_eq!(t.text, "Hello");
            assert_eq!(t.text_signature.as_deref(), Some("{\"id\":\"msg_1\",\"v\":1}"));
        },
        _ => panic!("expected text"),
    }
}

#[test]
fn responses_stream_tool_calls_and_tool_use() {
    let mut s = ResponsesStream::new(initial_output(&model(), 5));
    s.process_event(ResponseStreamEvent::OutputItemAdded {
        output_index: 1,
        item: OutputItem::FunctionCall(ResponseFunctionCall { id: Some("fc_9".to_string()), call_id: "call_9".to_string(), name: "command".to_string(), arguments: None }),
    })
    .ok()
    .unwrap();
    s.process_event(ResponseStreamEvent::FunctionCallArgumentsDelta { output_index: 1, delta: "{\"cmd_and_args\":[\"ls".to_string() }).ok().unwrap();
    match &s.output.content[0] {
        AssistantContent::ToolCall(tc) => {
            assert_eq!(tc.id, "call_9|fc_9");
            assert_eq!(tc.arguments, "{\"cmd_and_args\":[\"ls\"]}");
        },
        _ => panic!("expected a tool call"),
    }
    let evs = s
        .process_event(ResponseStreamEvent::FunctionCallArgumentsDone { output_index: 1, arguments: "{\"cmd_and_args\":[\"ls\"]}".to_string() })
        .ok()
        .unwrap();
    assert!(matches!(&evs[0], AssistantMessageEvent::ToolcallDelta { delta, .. } if delta == "\"]}"));
    let evs = s
        .process_event(ResponseStreamEvent::OutputItemDone {
            output_index: 1,
            item: OutputItem::FunctionCall(ResponseFunctionCall { id: Some("fc_9".to_string()), call_id: "call_9".to_string(), name: "command".to_string(), arguments: None }),
        })
        .ok()
        .unwrap();
    assert!(matches!(&evs[0], AssistantMessageEvent::ToolcallEnd { tool_call, .. } if tool_call.arguments == "{\"cmd_and_args\":[\"ls\"]}"));
    s.process_event(ResponseStreamEvent::ResponseCompleted { response: response("completed") }).ok().unwrap();
    assert!(s.output.stop_reason == StopReason::ToolUse);
}

#[test]
fn responses_stream_reasoning_and_backfill() {
    let mut s = ResponsesStream::new(initial_output(&model(), 5));
    let item = ReasoningItem { id: "rs_1".to_string(), summary: vec![], content: vec![], encrypted_content: None, json: "{\"id\":\"rs_1\",\"type\":\"reasoning\"}".to_string() };
    s.process_event(ResponseStreamEvent::OutputItemAdded { output_index: 0, item: OutputItem::Reasoning(item) }).ok().unwrap();
    s.process_event(ResponseStreamEvent::ReasoningSummaryTextDelta { output_index: 0, delta: "think".to_string() }).ok().unwrap();
    s.process_event(ResponseStreamEvent::ReasoningSummaryPartDone { output_index: 0 }).ok().unwrap();
    let done = ReasoningItem {
        id: "rs_1".to_string(),
        summary: vec![
            ReasoningTextPart { part_type: "summary_text".to_string(), text: "one".to_string() },
            ReasoningTextPart { part_type: "summary_text".to_string(), text: "two".to_string() },
        ],
        content: vec![],
        encrypted_content: None,
        json: "{\"id\":\"rs_1\",\"type\":\"reasoning\"}".to_string(),
    };
    let evs = s.process_event(ResponseStreamEvent::OutputItemDone { output_index: 0, item: OutputItem::Reasoning(done) }).ok().unwrap();
    assert!(matches!(&evs[0], AssistantMessageEvent::ThinkingEnd { content, .. } if content == "one\n\ntwo"));
    let mut r = response("completed");
    r.output = Some(vec![OutputItem::Reasoning(ReasoningItem {
        id: "rs_1".to_string(),
        summary: vec![],
        content: vec![],
        encrypted_content: Some("ENC".to_string()),
        json: String::new(),
    })]);
    s.process_event(ResponseStreamEvent::ResponseCompleted { response: r }).ok().unwrap();
    match &s.output.content[0] {
        AssistantContent::Thinking(t) => assert_eq!(t.thinking_signature.as_deref(), Some("{\"encrypted_content\":\"ENC\",\"id\":\"rs_1\",\"type\":\"reasoning\"}")),
        _ => panic!("expected thinking"),
    }
}

#[test]
fn responses_stream_errors() {
    let mut s = ResponsesStream::new(initial_output(&model(), 5));
    assert_eq!(s.finish().err().unwrap(), "OpenAI Responses stream ended before a terminal response event");
    let mut failed = response("failed");
    failed.error = Some(ResponseError { code: Some("server_error".to_string()), message: None });
    assert_eq!(s.process_event(ResponseStreamEvent::ResponseFailed { response: failed }).err().unwrap(), "server_error: no message");
    let mut failed2 = response("failed");
    failed2.incomplete_details = Some(IncompleteDetails { reason: Some("x".to_string()) });
    assert_eq!(s.process_event(ResponseStreamEvent::ResponseFailed { response: failed2 }).err().unwrap(), "incomplete: x");
    assert_eq!(
        s.process_event(ResponseStreamEvent::Error { code: Some("429".to_string()), message: Some("slow down".to_string()) }).err().unwrap(),
        "Error Code 429: slow down"
    );
    assert_eq!(s.process_event(ResponseStreamEvent::ResponseCompleted { response: response("weird") }).err().unwrap(), "Unhandled stop reason: weird");
    let mut inc = response("incomplete");
    inc.incomplete_details = Some(IncompleteDetails { reason: Some("max_output_tokens".to_string()) });
    s.process_event(ResponseStreamEvent::ResponseIncomplete { response: inc }).ok().unwrap();
    assert!(s.output.stop_reason == StopReason::Length);
    assert_eq!(s.output.raw_stop_reason.as_deref(), Some("incomplete.max_output_tokens"));
}

#[test]
fn anthropic_stream_builds_reply() {
    let mut s = AnthropicStream::new(initial_output(&model(), 5));
    s.process_event(MessageStreamEvent::MessageStart {
        message: StartMessage {
            id: "msg_a".to_string(),
            model: "model-x".to_string(),
            usage: StartUsage { input_tokens: 10, output_tokens: 1, cache_creation_input_tokens: None, cache_read_input_tokens: Some(2) },
        },
    })
    .ok()
    .unwrap();
    assert_eq!(s.output.usage.total_tokens, 13);
    assert_eq!(s.output.model, "model-x");
    let evs = s.process_event(MessageStreamEvent::ContentBlockStart { index: 0, content_block: ContentBlock::Text { text: String::new() } }).ok().unwrap();
    assert!(matches!(&evs[0], AssistantMessageEvent::TextStart { content_index: 0, .. }));
    s.process_event(MessageStreamEvent::ContentBlockDelta { index: 0, delta: ContentBlockDelta::TextDelta { text: "Hi".to_string() } }).ok().unwrap();
    s.process_event(MessageStreamEvent::ContentBlockStart {
        index: 1,
        content_block: ContentBlock::ToolUse { id: "t1".to_string(), name: "command".to_string(), input: "{}".to_string() },
    })
    .ok()
    .unwrap();
    s.process_event(MessageStreamEvent::ContentBlockDelta { index: 1, delta: ContentBlockDelta::InputJsonDelta { partial_json: "{\"a\":".to_string() } }).ok().unwrap();
    s.process_event(MessageStreamEvent::ContentBlockDelta { index: 1, delta: ContentBlockDelta::InputJsonDelta { partial_json: "1}".to_string() } }).ok().unwrap();
    let evs = s.process_event(MessageStreamEvent::ContentBlockStop { index: 1 }).ok().unwrap();
    assert!(matches!(&evs[0], AssistantMessageEvent::ToolcallEnd { tool_call, .. } if tool_call.arguments == "{\"a\":1}"));
    s.process_event(MessageStreamEvent::MessageDelta {
        delta: MessageDelta { stop_reason: Some("tool_use".to_string()), stop_sequence: None, stop_details: None },
        usage: Some(MessageDeltaUsage { output_tokens: Some(20), cache_creation_input_tokens: None, cache_read_input_tokens: None, input_tokens: None, output_tokens_details: None }),
    })
    .ok()
    .unwrap();
    assert_eq!(s.output.usage.total_tokens, 32);
    match s.final_event(Ok(())) {
        AssistantMessageEvent::Done { reason, message } => {
            assert!(reason == StopReason::ToolUse);
            assert_eq!(message.content.len(), 2);
            assert!(matches!(&message.content[0], AssistantContent::Text(t) if t.text == "Hi"));
        },
        _ => panic!("expected done"),
    }
}

#[test]
fn anthropic_stream_failures() {
    let mut s = AnthropicStream::new(initial_output(&model(), 5));
    let e = s
        .process_event(MessageStreamEvent::Error { error: MessageStreamError { error_type: "overloaded_error".to_string(), message: "busy".to_string() } })
        .err()
        .unwrap();
    assert_eq!(e, "overloaded_error: busy");
    s.process_event(MessageStreamEvent::ContentBlockStart { index: 0, content_block: ContentBlock::RedactedThinking { data: "x".to_string() } }).ok().unwrap();
    match s.final_event(Ok(())) {
        AssistantMessageEvent::Error { reason, error } => {
            assert!(reason == StopReason::Error);
            assert_eq!(error.error_message.as_deref(), Some("Anthropic stream ended without a stop reason"));
            assert!(error.content.is_empty());
        },
        _ => panic!("expected an error"),
    }
}
