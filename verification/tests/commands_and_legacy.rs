use openagents::anthropic_stream::{ContentBlock, ContentBlockDelta, MessageStreamEvent};
use openagents::commands::{
    check_model_provider_command, handover_reply, handover_to_agent, handover_to_user, not_in_task, parse_agent_command, parse_bool,
    parse_i64_array, parse_id, parse_schedule_command, parse_task_command, store_reply, AgentCommand, Noun, ScheduleCommand,
    StoreAction, StoreOutcome, TaskCommand,
};
use openagents::entities::AgentEntity;
use openagents::legacy_responses::{
    legacy_input_items, legacy_responses_request, LegacyBlock, LegacyContent, LegacyInputItem, LegacyMessage, LegacyOutputItem,
    LegacyRequest, LegacyResponse, LegacyStreamEvent, LegacyTranslator, LegacyUsage,
};

fn words(ws: &[&str]) -> Vec<String> {
    ws.iter().map(|w| w.to_string()).collect()
}

#[test]
fn ids_and_flags_are_checked() {
    assert_eq!(parse_id("42", "agent_id").ok().unwrap(), 42);
    assert_eq!(parse_id("-7", "task_id").ok().unwrap(), -7);
    assert_eq!(parse_id("4x", "agent_id").err().unwrap(), "Invalid agent_id: 4x");
    assert_eq!(parse_id("", "agent_id").err().unwrap(), "Invalid agent_id: ");
    assert!(parse_bool("true", "thinking").ok().unwrap());
    assert!(!parse_bool("false", "thinking").ok().unwrap());
    assert_eq!(parse_bool("True", "enabled").err().unwrap(), "Invalid enabled: True");
}

#[test]
fn agent_commands_parse() {
    assert!(matches!(parse_agent_command(&words(&["agent", "list"])), Ok(AgentCommand::List)));
    assert!(matches!(parse_agent_command(&words(&["agent", "get", "3"])), Ok(AgentCommand::Get { agent_id: 3 })));
    match parse_agent_command(&words(&["agent", "add", "n", "d", "p", "2", "m", "true"])) {
        Ok(AgentCommand::Add { name, description, prompt, model_provider_id, model, thinking }) => {
            assert_eq!((name.as_str(), description.as_str(), prompt.as_str(), model.as_str()), ("n", "d", "p", "m"));
            assert_eq!(model_provider_id, 2);
            assert!(thinking);
        },
        _ => panic!("expected add"),
    }
    match parse_agent_command(&words(&["agent", "update", "5", "n", "d", "p", "2", "m", "false"])) {
        Ok(AgentCommand::Update { agent_id, thinking, .. }) => {
            assert_eq!(agent_id, 5);
            assert!(!thinking);
        },
        _ => panic!("expected update"),
    }
    assert_eq!(parse_agent_command(&words(&["agent", "add", "n", "d", "p", "x", "m", "maybe"])).err().unwrap(), "Invalid model_provider_id: x");
    assert_eq!(parse_agent_command(&words(&["agent", "add", "n", "d", "p", "1", "m", "maybe"])).err().unwrap(), "Invalid thinking: maybe");
    assert_eq!(parse_agent_command(&words(&["agent", "update", "q", "n", "d", "p", "x", "m", "t"])).err().unwrap(), "Invalid agent_id: q");
    assert!(matches!(parse_agent_command(&words(&["agent", "delete", "9"])), Ok(AgentCommand::Delete { agent_id: 9 })));
    assert_eq!(parse_agent_command(&words(&["agent", "list", "all"])).err().unwrap(), "Unknown agent command: agent list all");
}

#[test]
fn agent_id_arrays_are_json() {
    assert_eq!(parse_i64_array("[1, 2,3]").unwrap(), vec![1, 2, 3]);
    assert_eq!(parse_i64_array("[]").unwrap(), Vec::<i64>::new());
    assert!(parse_i64_array("[1.5]").is_none());
    assert!(parse_i64_array("[\"1\"]").is_none());
    assert!(parse_i64_array("{}").is_none());
    assert!(parse_i64_array("1,2").is_none());
}

#[test]
fn task_commands_parse() {
    match parse_task_command(&words(&["task", "handover", "user"])) {
        Ok(TaskCommand::Handover { target }) => assert_eq!(target, "user"),
        _ => panic!("expected handover"),
    }
    assert!(matches!(parse_task_command(&words(&["task", "list"])), Ok(TaskCommand::List)));
    assert!(matches!(parse_task_command(&words(&["task", "get", "4"])), Ok(TaskCommand::Get { task_id: 4 })));
    match parse_task_command(&words(&["task", "add", "T", "C", "[1,2]", "/w"])) {
        Ok(TaskCommand::Add { title, content, agent_ids, work_dir }) => {
            assert_eq!((title.as_str(), content.as_str(), work_dir.as_str()), ("T", "C", "/w"));
            assert_eq!(agent_ids, vec![1, 2]);
        },
        _ => panic!("expected add"),
    }
    assert_eq!(parse_task_command(&words(&["task", "add", "T", "C", "1,2", "/w"])).err().unwrap(), "Invalid agent_ids JSON array: 1,2");
    assert_eq!(parse_task_command(&words(&["task", "update", "x", "T", "C", "oops", "/w"])).err().unwrap(), "Invalid task_id: x");
    assert_eq!(parse_task_command(&words(&["task", "update", "3", "T", "C", "oops", "/w"])).err().unwrap(), "Invalid agent_ids JSON array: oops");
    assert!(matches!(parse_task_command(&words(&["task", "delete", "8"])), Ok(TaskCommand::Delete { task_id: 8 })));
    assert_eq!(parse_task_command(&words(&["task", "run"])).err().unwrap(), "Unknown task command: task run");
}

fn agent(id: i64, name: &str) -> AgentEntity {
    AgentEntity {
        id,
        name: name.to_string(),
        description: String::new(),
        prompt: "be careful".to_string(),
        model_provider_id: 1,
        model: "m".to_string(),
        thinking: false,
        create_time: String::new(),
        update_time: String::new(),
    }
}

#[test]
fn handovers_create_the_next_stage() {
    let u = handover_to_user("Fix bug");
    assert_eq!(u.title, "Fix bug-User");
    assert_eq!(u.system_prompt, "");
    assert!(u.agent_id.is_none());
    let bob = agent(2, "bob");
    let s = handover_to_agent("Fix bug", &vec![1, 2], 2, Some(&bob)).ok().unwrap();
    assert_eq!(s.title, "Fix bug-bob");
    assert_eq!(s.system_prompt, "be careful");
    assert_eq!(s.agent_id, Some(2));
    assert_eq!(handover_to_agent("Fix bug", &vec![1], 2, Some(&bob)).err().unwrap(), "Agent not found in task team: 2");
    assert_eq!(handover_to_agent("Fix bug", &vec![1, 2], 2, None).err().unwrap(), "Agent not found in task team: 2");
    assert_eq!(handover_reply(Some("bob")), "Task handed over to agent bob, please summarize the current progress");
    assert_eq!(handover_reply(None), "Task handed over to the user, please summarize the current progress");
    assert_eq!(not_in_task(), "Not in a task context, cannot hand over");
}

#[test]
fn schedule_commands_parse() {
    assert!(matches!(parse_schedule_command(&words(&["schedule", "list"])), Ok(ScheduleCommand::List)));
    match parse_schedule_command(&words(&["schedule", "add", "n", "c", "/w", "0 0 9 * * *", "3"])) {
        Ok(ScheduleCommand::Add { cron_expr, agent_id, .. }) => {
            assert_eq!(cron_expr, "0 0 9 * * *");
            assert_eq!(agent_id, 3);
        },
        _ => panic!("expected add"),
    }
    assert_eq!(
        parse_schedule_command(&words(&["schedule", "add", "n", "c", "/w", "every day", "x"])).err().unwrap(),
        "Invalid cron_expr: every day"
    );
    assert_eq!(parse_schedule_command(&words(&["schedule", "add", "n", "c", "/w", "0 0 9 * * *", "x"])).err().unwrap(), "Invalid agent_id: x");
    match parse_schedule_command(&words(&["schedule", "update", "4", "n", "c", "/w", "0 30 8 * * *", "3", "false"])) {
        Ok(ScheduleCommand::Update { schedule_id, enabled, .. }) => {
            assert_eq!(schedule_id, 4);
            assert!(!enabled);
        },
        _ => panic!("expected update"),
    }
    assert_eq!(
        parse_schedule_command(&words(&["schedule", "update", "4", "n", "c", "/w", "0 30 8 * * *", "3", "no"])).err().unwrap(),
        "Invalid enabled: no"
    );
    assert_eq!(parse_schedule_command(&words(&["schedule", "stop"])).err().unwrap(), "Unknown schedule command: schedule stop");
}

#[test]
fn model_provider_commands_are_list_only() {
    assert!(check_model_provider_command(&words(&["model_provider", "list"])).is_ok());
    assert_eq!(
        check_model_provider_command(&words(&["model_provider", "add", "x"])).err().unwrap(),
        "Unknown model_provider command: model_provider add x"
    );
}

#[test]
fn store_answers_become_replies() {
    assert_eq!(store_reply(Noun::Agent, &StoreOutcome::Added(7)), ("Agent added with id 7".to_string(), false));
    assert_eq!(store_reply(Noun::Task, &StoreOutcome::Updated(3)), ("Task 3 updated".to_string(), false));
    assert_eq!(store_reply(Noun::Schedule, &StoreOutcome::Deleted(-1)), ("Schedule -1 deleted".to_string(), false));
    assert_eq!(store_reply(Noun::Schedule, &StoreOutcome::NotFound(5)), ("Schedule not found: 5".to_string(), true));
    assert_eq!(
        store_reply(Noun::Agent, &StoreOutcome::Referenced(2)),
        ("Agent 2 is referenced by conversations/schedules".to_string(), true)
    );
    assert_eq!(
        store_reply(Noun::Task, &StoreOutcome::Failed { action: StoreAction::Delete, error: "locked".to_string() }),
        ("Failed to delete task: locked".to_string(), true)
    );
    assert_eq!(store_reply(Noun::Agent, &StoreOutcome::DbError("io".to_string())), ("Database error: io".to_string(), true));
}

fn blocks(role: &str, bs: Vec<LegacyBlock>) -> LegacyMessage {
    LegacyMessage { role: role.to_string(), content: LegacyContent::Blocks(bs) }
}

#[test]
fn request_messages_become_items_in_block_order() {
    let msgs = vec![
        LegacyMessage { role: "user".to_string(), content: LegacyContent::Text("hi".to_string()) },
        blocks(
            "assistant",
            vec![
                LegacyBlock::Thinking { signature: "sig".to_string() },
                LegacyBlock::Text { text: "a".to_string() },
                LegacyBlock::Text { text: "b".to_string() },
                LegacyBlock::ToolUse { id: "t1".to_string(), name: "command".to_string(), input: "{\"x\":1}".to_string() },
                LegacyBlock::Other,
            ],
        ),
        blocks("user", vec![LegacyBlock::ToolResult { tool_use_id: "t1".to_string(), content: "done".to_string() }]),
        LegacyMessage { role: "user".to_string(), content: LegacyContent::Other },
    ];
    let items = legacy_input_items(&msgs);
    assert_eq!(items.len(), 5);
    match &items[0] {
        LegacyInputItem::Message { role, content } => {
            assert_eq!(role, "user");
            assert_eq!(content.len(), 1);
            assert_eq!(content[0].part_type, "input_text");
            assert_eq!(content[0].text, "hi");
        },
        _ => panic!("expected a message"),
    }
    assert!(matches!(&items[1], LegacyInputItem::Reasoning { encrypted_content } if encrypted_content == "sig"));
    match &items[2] {
        LegacyInputItem::Message { role, content } => {
            assert_eq!(role, "assistant");
            let texts: Vec<(&str, &str)> = content.iter().map(|p| (p.part_type.as_str(), p.text.as_str())).collect();
            assert_eq!(texts, vec![("output_text", "a"), ("output_text", "b")]);
        },
        _ => panic!("expected a message"),
    }
    assert!(matches!(&items[3], LegacyInputItem::FunctionCall { call_id, arguments, .. } if call_id == "t1" && arguments == "{\"x\":1}"));
    assert!(matches!(&items[4], LegacyInputItem::FunctionCallOutput { call_id, output } if call_id == "t1" && output == "done"));
}

#[test]
fn requests_carry_thinking_as_reasoning() {
    let req = LegacyRequest { model: "m".to_string(), messages: vec![], system: Some("s".to_string()), thinking_enabled: true, max_tokens: 99 };
    let r = legacy_responses_request(&req);
    assert_eq!(r.model, "m");
    assert_eq!(r.instructions.as_deref(), Some("s"));
    let reasoning = r.reasoning.unwrap();
    assert_eq!(reasoning.effort, "high");
    assert_eq!(reasoning.summary.as_deref(), Some("auto"));
    assert_eq!(r.max_output_tokens, 99);
    assert!(r.stream && !r.store);
    assert_eq!(r.response_includes, vec!["reasoning.encrypted_content".to_string()]);
    let plain = legacy_responses_request(&LegacyRequest { thinking_enabled: false, system: None, ..req });
    assert!(plain.reasoning.is_none());
    assert!(plain.instructions.is_none());
}

fn response(status: Option<&str>, usage: Option<(u64, u64)>) -> LegacyResponse {
    LegacyResponse {
        id: "resp_1".to_string(),
        model: Some("gpt-x".to_string()),
        status: status.map(|s| s.to_string()),
        usage: usage.map(|(i, o)| LegacyUsage { input_tokens: i, output_tokens: o }),
        error: None,
    }
}

#[test]
fn stream_events_are_translated() {
    let mut t = LegacyTranslator::new();
    let start = t.translate(LegacyStreamEvent::ResponseCreated { response: response(None, None) });
    assert!(matches!(&start[0], Ok(MessageStreamEvent::MessageStart { message }) if message.id == "resp_1" && message.model == "gpt-x"));
    let added = t.translate(LegacyStreamEvent::OutputItemAdded {
        output_index: 1,
        item: LegacyOutputItem::FunctionCall { id: Some("fc_1".to_string()), call_id: "call_1".to_string(), name: "command".to_string(), arguments: None },
    });
    assert!(matches!(&added[0], Ok(MessageStreamEvent::ContentBlockStart { index: 1, content_block: ContentBlock::ToolUse { id, input, .. } }) if id == "call_1" && input == "{}"));
    let text = t.translate(LegacyStreamEvent::OutputTextDelta { output_index: 0, delta: "hey".to_string() });
    assert!(matches!(&text[0], Ok(MessageStreamEvent::ContentBlockDelta { index: 0, delta: ContentBlockDelta::TextDelta { text } }) if text == "hey"));
    let reasoning_done = t.translate(LegacyStreamEvent::OutputItemDone {
        output_index: 2,
        item: LegacyOutputItem::Reasoning { encrypted_content: Some("enc".to_string()) },
    });
    assert_eq!(reasoning_done.len(), 2);
    assert!(matches!(&reasoning_done[0], Ok(MessageStreamEvent::ContentBlockDelta { index: 2, delta: ContentBlockDelta::SignatureDelta { signature } }) if signature == "enc"));
    assert!(matches!(&reasoning_done[1], Ok(MessageStreamEvent::ContentBlockStop { index: 2 })));
    let done = t.translate(LegacyStreamEvent::ResponseCompleted { response: response(Some("incomplete"), Some((11, 4))) });
    match &done[0] {
        Ok(MessageStreamEvent::MessageDelta { delta, usage: Some(u) }) => {
            assert_eq!(delta.stop_reason.as_deref(), Some("max_tokens"));
            assert_eq!(u.input_tokens, Some(11));
            assert_eq!(u.output_tokens, Some(4));
        },
        _ => panic!("expected a message delta"),
    }
    assert!(matches!(&done[1], Ok(MessageStreamEvent::MessageStop)));
    let ended = t.translate(LegacyStreamEvent::ResponseIncomplete { response: response(Some("completed"), None) });
    assert!(matches!(&ended[0], Ok(MessageStreamEvent::MessageDelta { delta, .. }) if delta.stop_reason.as_deref() == Some("end_turn")));
    let failed = t.translate(LegacyStreamEvent::Error { message: Some("rate limited".to_string()) });
    assert!(matches!(&failed[0], Err(m) if m == "rate limited"));
    let failed2 = t.translate(LegacyStreamEvent::ResponseFailed { response: LegacyResponse { error: Some("{\"code\":1}".to_string()), ..response(None, None) } });
    assert!(matches!(&failed2[0], Err(m) if m == "{\"code\":1}"));
}

#[test]
fn streamed_arguments_are_not_sent_twice() {
    let mut t = LegacyTranslator::new();
    let call = |arguments: Option<&str>| LegacyOutputItem::FunctionCall {
        id: Some("fc_1".to_string()),
        call_id: "call_1".to_string(),
        name: "command".to_string(),
        arguments: arguments.map(|s| s.to_string()),
    };
    let mut fresh = LegacyTranslator::new();
    let once = fresh.translate(LegacyStreamEvent::OutputItemDone { output_index: 0, item: call(Some("{\"a\":1}")) });
    assert_eq!(once.len(), 2);
    assert!(matches!(&once[0], Ok(MessageStreamEvent::ContentBlockDelta { delta: ContentBlockDelta::InputJsonDelta { partial_json }, .. }) if partial_json == "{\"a\":1}"));
    t.translate(LegacyStreamEvent::FunctionCallArgumentsDelta { item_id: "fc_1".to_string(), output_index: 0, delta: "{\"a\":".to_string() });
    let done = t.translate(LegacyStreamEvent::OutputItemDone { output_index: 0, item: call(Some("{\"a\":1}")) });
    assert_eq!(done.len(), 1);
    assert!(matches!(&done[0], Ok(MessageStreamEvent::ContentBlockStop { index: 0 })));
    let empty = fresh.translate(LegacyStreamEvent::OutputItemDone { output_index: 3, item: call(Some("")) });
    assert_eq!(empty.len(), 1);
}
