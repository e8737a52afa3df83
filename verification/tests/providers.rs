use openagents::anthropic::{self, AnthropicOptions, ContentBlockParam, MessageParamContent, RefusalStopDetails, ThinkingConfig, ToolResultContent};
use openagents::pi_types::{AssistantContent, AssistantMessage, Context, ImageContent, Message, Model, StopReason, TextContent, ThinkingContent, Tool, ToolCall, ToolResultMessage, Usage, UserContent, UserMessage, UserMessageContent};
use openagents::responses::{self, ConvertResponsesMessagesOptions, InputContent, InputItem, OpenAIResponsesOptions, ToolOutput};
use openagents::tool_ids::{normalize_tool_call_id, responses_tool_call_id};
use openagents::transform::{transform_messages_at, ToolCallIdNormalizer};

fn model(api: &str, provider: &str, id: &str, images: bool) -> Model {
    let mut input = vec!["text".to_string()];
    if images {
        input.push("image".to_string());
    }
    Model { id: id.to_string(), api: api.to_string(), provider: provider.to_string(), base_url: "http://x".to_string(), reasoning: true, input, max_tokens: 4096 }
}

fn user(text: &str) -> Message {
    Message::User(UserMessage { content: UserMessageContent::Text(text.to_string()), timestamp: 1 })
}

fn text_block(t: &str) -> UserContent {
    UserContent::Text(TextContent { text: t.to_string(), text_signature: None })
}

fn image_block() -> UserContent {
    UserContent::Image(ImageContent { data: "QUJD".to_string(), mime_type: "image/png".to_string() })
}

fn reply(api: &str, provider: &str, model_id: &str, content: Vec<AssistantContent>, stop: StopReason) -> Message {
    Message::Assistant(AssistantMessage {
        content,
        api: api.to_string(),
        provider: provider.to_string(),
        model: model_id.to_string(),
        response_model: None,
        response_id: None,
        usage: Usage::zero(),
        stop_reason: stop,
        error_message: None,
        raw_stop_reason: None,
        timestamp: 2,
    })
}

fn call(id: &str, name: &str, args: &str) -> AssistantContent {
    AssistantContent::ToolCall(ToolCall { id: id.to_string(), name: name.to_string(), arguments: args.to_string(), thought_signature: None })
}

fn result(id: &str, text: &str, is_error: bool) -> Message {
    Message::ToolResult(ToolResultMessage { tool_call_id: id.to_string(), tool_name: "command".to_string(), content: vec![text_block(text)], is_error, timestamp: 3 })
}

#[test]
fn anthropic_ids_are_sanitized_and_cut() {
    assert_eq!(normalize_tool_call_id("call.1|x y"), "call_1_x_y");
    let long = "a".repeat(70);
    assert_eq!(normalize_tool_call_id(&long).len(), 64);
}

#[test]
fn normalized_tool_call_ids_are_accepted_and_stable() {
    let once = normalize_tool_call_id("tool:call/äö#1");
    assert_eq!(once, "tool_call____1");
    assert!(once.chars().all(|c| c.is_ascii_alphanumeric() || c == '_' || c == '-'));
    assert_eq!(normalize_tool_call_id(&once), once);
}

#[test]
fn responses_ids_get_fc_item_parts() {
    assert_eq!(responses_tool_call_id("call_1", false), "call_1");
    assert_eq!(responses_tool_call_id("call_1|fc_2", false), "call_1|fc_2");
    assert_eq!(responses_tool_call_id("call_1|item__", false), "call_1|fc_item");
    let foreign = responses_tool_call_id("call_1|item", true);
    assert!(foreign.starts_with("call_1|fc_"));
    assert_eq!(foreign, format!("call_1|fc_{}", openagents::hash::short_hash("item")));
}

#[test]
fn anthropic_stop_reasons() {
    assert!(matches!(anthropic::map_stop_reason("end_turn", None), Ok((StopReason::Stop, None))));
    assert!(matches!(anthropic::map_stop_reason("max_tokens", None), Ok((StopReason::Length, None))));
    assert!(matches!(anthropic::map_stop_reason("tool_use", None), Ok((StopReason::ToolUse, None))));
    let (r, m) = anthropic::map_stop_reason("refusal", None).ok().unwrap();
    assert!(r == StopReason::Error);
    assert_eq!(m.unwrap(), "The model refused to complete the request");
    let details = RefusalStopDetails { details_type: "refusal".to_string(), explanation: Some("policy".to_string()) };
    assert_eq!(anthropic::map_stop_reason("refusal", Some(&details)).ok().unwrap().1.unwrap(), "policy");
    assert_eq!(anthropic::map_stop_reason("sensitive", None).ok().unwrap().1.unwrap(), "Provider stopped with: sensitive");
    assert_eq!(anthropic::map_stop_reason("weird", None).err().unwrap(), "Unhandled stop reason: weird");
}

#[test]
fn responses_stop_reasons() {
    assert!(matches!(responses::map_stop_reason(None, None), Ok((StopReason::Stop, None))));
    assert!(matches!(responses::map_stop_reason(Some("completed"), None), Ok((StopReason::Stop, None))));
    assert!(matches!(responses::map_stop_reason(Some("incomplete"), Some("max_output_tokens")), Ok((StopReason::Length, None))));
    assert_eq!(responses::map_stop_reason(Some("incomplete"), Some("content_filter")).ok().unwrap().1.unwrap(), "Response incomplete: content_filter");
    assert_eq!(responses::map_stop_reason(Some("incomplete"), None).ok().unwrap().1.unwrap(), "Response incomplete without a provider reason");
    assert!(matches!(responses::map_stop_reason(Some("failed"), None), Ok((StopReason::Error, None))));
    assert!(matches!(responses::map_stop_reason(Some("queued"), None), Ok((StopReason::Stop, None))));
    assert_eq!(responses::map_stop_reason(Some("odd"), None).err().unwrap(), "Unhandled stop reason: odd");
}

#[test]
fn anthropic_tool_result_content() {
    match anthropic::convert_content_blocks(&vec![text_block("a"), text_block("b")]) {
        ToolResultContent::Text(t) => assert_eq!(t, "a\nb"),
        _ => panic!("expected text"),
    }
    match anthropic::convert_content_blocks(&vec![image_block()]) {
        ToolResultContent::Blocks(b) => {
            assert_eq!(b.len(), 2);
            assert!(matches!(&b[0], anthropic::ToolResultBlock::Text { text } if text == "(see attached image)"));
        },
        _ => panic!("expected blocks"),
    }
}

#[test]
fn anthropic_merges_consecutive_tool_results() {
    let msgs = vec![
        user("hi"),
        user("   "),
        reply("anthropic-messages", "1", "m", vec![call("c1", "command", "{}"), call("c2", "command", "null")], StopReason::ToolUse),
        result("c1", "one", false),
        result("c2", "two", true),
        user("next"),
    ];
    let params = anthropic::convert_messages(&msgs);
    assert_eq!(params.len(), 4);
    assert_eq!(params[0].role, "user");
    assert_eq!(params[1].role, "assistant");
    match &params[1].content {
        MessageParamContent::Blocks(b) => {
            assert!(matches!(&b[1], ContentBlockParam::ToolUse { input, .. } if input == "{}"));
        },
        _ => panic!("expected blocks"),
    }
    match &params[2].content {
        MessageParamContent::Blocks(b) => {
            assert_eq!(b.len(), 2);
            assert!(matches!(&b[1], ContentBlockParam::ToolResult { tool_use_id, is_error: true, .. } if tool_use_id == "c2"));
        },
        _ => panic!("expected blocks"),
    }
    assert!(matches!(&params[3].content, MessageParamContent::Text(t) if t == "next"));
}

#[test]
fn anthropic_thinking_blocks() {
    let msgs = vec![reply(
        "anthropic-messages",
        "1",
        "m",
        vec![
            AssistantContent::Thinking(ThinkingContent { thinking: "plan".to_string(), thinking_signature: Some("sig".to_string()), redacted: None }),
            AssistantContent::Thinking(ThinkingContent { thinking: "unsigned".to_string(), thinking_signature: None, redacted: None }),
            AssistantContent::Thinking(ThinkingContent { thinking: "x".to_string(), thinking_signature: Some("data".to_string()), redacted: Some(true) }),
        ],
        StopReason::Stop,
    )];
    let params = anthropic::convert_messages(&msgs);
    match &params[0].content {
        MessageParamContent::Blocks(b) => {
            assert!(matches!(&b[0], ContentBlockParam::Thinking { thinking, signature } if thinking == "plan" && signature == "sig"));
            assert!(matches!(&b[1], ContentBlockParam::Text { text } if text == "unsigned"));
            assert!(matches!(&b[2], ContentBlockParam::RedactedThinking { data } if data == "data"));
        },
        _ => panic!("expected blocks"),
    }
}

#[test]
fn anthropic_request_parameters() {
    let m = model("anthropic-messages", "1", "model-c", false);
    let ctx = Context {
        system_prompt: Some("  ".to_string()),
        messages: vec![user("hello")],
        tools: Some(vec![Tool { name: "command".to_string(), description: "d".to_string(), parameters: "{}".to_string() }]),
    };
    let opts = AnthropicOptions { api_key: None, max_tokens: None, thinking_enabled: Some(true), thinking_budget_tokens: None };
    let req = anthropic::build_params(&m, &ctx, &opts);
    assert!(req.system.is_none());
    assert_eq!(req.tools.as_ref().unwrap().len(), 1);
    assert_eq!(req.max_tokens, 4096);
    assert!(req.stream);
    assert!(matches!(req.thinking, Some(ThinkingConfig::Enabled { budget_tokens: 1024, ref display }) if display == "summarized"));
    let opts2 = AnthropicOptions { api_key: None, max_tokens: Some(10), thinking_enabled: Some(false), thinking_budget_tokens: None };
    let ctx2 = Context { system_prompt: Some("be brief".to_string()), messages: vec![], tools: Some(vec![]) };
    let req2 = anthropic::build_params(&m, &ctx2, &opts2);
    assert_eq!(req2.system.as_ref().unwrap()[0].text, "be brief");
    assert_eq!(req2.system.as_ref().unwrap()[0].block_type, "text");
    assert!(req2.tools.is_none());
    assert!(matches!(req2.thinking, Some(ThinkingConfig::Disabled)));
    assert_eq!(req2.max_tokens, 10);
}

#[test]
fn replay_drops_failed_replies_and_answers_dangling_calls() {
    let m = model("anthropic-messages", "1", "model-c", false);
    let msgs = vec![
        user("q"),
        reply("anthropic-messages", "1", "model-c", vec![call("c1", "command", "{}")], StopReason::ToolUse),
        user("interrupt"),
        reply("anthropic-messages", "1", "model-c", vec![], StopReason::Error),
    ];
    let out = transform_messages_at(&msgs, &m, ToolCallIdNormalizer::Anthropic, 99);
    assert_eq!(out.len(), 4);
    match &out[2] {
        Message::ToolResult(tr) => {
            assert_eq!(tr.tool_call_id, "c1");
            assert!(tr.is_error);
            assert_eq!(tr.timestamp, 99);
            assert!(matches!(&tr.content[0], UserContent::Text(t) if t.text == "No result provided"));
        },
        _ => panic!("expected a synthetic result"),
    }
    assert!(matches!(&out[3], Message::User(_)));
}

#[test]
fn replay_turns_foreign_thinking_into_text() {
    let m = model("openai-responses", "2", "gpt", false);
    let msgs = vec![reply(
        "anthropic-messages",
        "1",
        "model-c",
        vec![AssistantContent::Thinking(ThinkingContent { thinking: "idea".to_string(), thinking_signature: Some("s".to_string()), redacted: None })],
        StopReason::Stop,
    )];
    let out = transform_messages_at(&msgs, &m, ToolCallIdNormalizer::OpenAIResponses, 0);
    match &out[0] {
        Message::Assistant(a) => assert!(matches!(&a.content[0], AssistantContent::Text(t) if t.text == "idea")),
        _ => panic!("expected a reply"),
    }
}

#[test]
fn responses_tool_output_shapes() {
    let m = model("openai-responses", "2", "gpt", false);
    assert!(matches!(responses::convert_tool_result_output(&m, &vec![]), ToolOutput::Text(t) if t == "(no tool output)"));
    assert!(matches!(responses::convert_tool_result_output(&m, &vec![image_block()]), ToolOutput::Text(t) if t == "(see attached image)"));
    assert!(matches!(responses::convert_tool_result_output(&m, &vec![text_block("a"), image_block()]), ToolOutput::Text(t) if t == "a"));
    let mi = model("openai-responses", "2", "gpt", true);
    match responses::convert_tool_result_output(&mi, &vec![text_block("a"), image_block()]) {
        ToolOutput::Parts(p) => {
            assert_eq!(p.len(), 2);
            assert!(matches!(&p[1], InputContent::InputImage { image_url } if image_url == "data:image/png;base64,QUJD"));
        },
        _ => panic!("expected parts"),
    }
}

#[test]
fn text_signatures_round_trip() {
    let s = responses::encode_text_signature_v1("msg_1", Some("commentary"));
    assert_eq!(s, "{\"id\":\"msg_1\",\"phase\":\"commentary\",\"v\":1}");
    let (id, phase) = responses::parse_text_signature(Some(&s)).unwrap();
    assert_eq!(id, "msg_1");
    assert_eq!(phase.unwrap(), "commentary");
    let other = responses::encode_text_signature_v1("msg_2", Some("draft"));
    assert!(responses::parse_text_signature(Some(&other)).unwrap().1.is_none());
    assert_eq!(responses::parse_text_signature(Some("legacy")).unwrap().0, "legacy");
    assert!(responses::parse_text_signature(None).is_none());
}

#[test]
fn responses_input_items() {
    let m = model("openai-responses", "2", "gpt", false);
    let ctx = Context {
        system_prompt: Some("sys".to_string()),
        messages: vec![
            user("q"),
            reply(
                "openai-responses",
                "2",
                "gpt",
                vec![
                    AssistantContent::Text(TextContent { text: "a".to_string(), text_signature: None }),
                    AssistantContent::Text(TextContent { text: "b".to_string(), text_signature: None }),
                    call("call_1|fc_1", "command", "{\"x\":1}"),
                ],
                StopReason::ToolUse,
            ),
            result("call_1|fc_1", "out", false),
        ],
        tools: None,
    };
    let items = responses::convert_responses_messages(&m, &ctx, &ConvertResponsesMessagesOptions { include_system_prompt: None });
    assert_eq!(items.len(), 6);
    assert!(matches!(&items[0], InputItem::Instruction { role, content } if role == "developer" && content == "sys"));
    assert!(matches!(&items[2], InputItem::OutputMessage { id, .. } if id == "msg_pi_1"));
    assert!(matches!(&items[3], InputItem::OutputMessage { id, .. } if id == "msg_pi_1_1"));
    assert!(matches!(&items[4], InputItem::FunctionCall { call_id, id: Some(item), .. } if call_id == "call_1" && item == "fc_1"));
    assert!(matches!(&items[5], InputItem::FunctionCallOutput { call_id, output: ToolOutput::Text(t) } if call_id == "call_1" && t == "out"));
    let no_prompt = responses::convert_responses_messages(&m, &ctx, &ConvertResponsesMessagesOptions { include_system_prompt: Some(false) });
    assert_eq!(no_prompt.len(), 5);
}

#[test]
fn responses_request_parameters() {
    let m = model("openai-responses", "2", "gpt", false);
    let ctx = Context { system_prompt: None, messages: vec![user("q")], tools: None };
    let opts = OpenAIResponsesOptions { api_key: None, max_tokens: Some(5), reasoning_effort: Some("low".to_string()), reasoning_summary: None };
    let req = responses::build_params(&m, &ctx, &opts);
    assert_eq!(req.max_output_tokens, Some(16));
    assert!(req.stream && !req.store);
    let rc = req.reasoning.unwrap();
    assert_eq!(rc.effort, "low");
    assert_eq!(rc.summary.unwrap(), "auto");
    assert_eq!(req.response_includes, vec!["reasoning.encrypted_content".to_string()]);
    let opts2 = OpenAIResponsesOptions { api_key: None, max_tokens: None, reasoning_effort: None, reasoning_summary: None };
    let req2 = responses::build_params(&m, &ctx, &opts2);
    assert_eq!(req2.reasoning.unwrap().effort, "none");
    assert!(req2.response_includes.is_empty());
    assert!(req2.max_output_tokens.is_none());
}

#[test]
fn text_signatures_read_back() {
    for phase in [None, Some("commentary"), Some("final_answer")] {
        let sig = responses::encode_text_signature_v1("msg_1", phase);
        assert_eq!(responses::parse_text_signature(Some(&sig)), Some(("msg_1".to_string(), phase.map(String::from))));
    }
    assert_eq!(responses::parse_text_signature(None), None);
    assert_eq!(responses::parse_text_signature(Some("legacy")), Some(("legacy".to_string(), None)));
}
