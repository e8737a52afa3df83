use openagents::conversation_flow::{
    conclude_round, event_chunk, replay_chunks, stream_error_message, tool_result_chunk, tool_result_message, ChunkExtra, ConversationRun,
    RoundAction, RoundEnd,
};
use openagents::db_schema::{column_fragment, create_table_sql, plan_columns, rebuild_sqls, tables, ColumnSchema, TableSchema};
use openagents::entities::{AgentEntity, ModelProviderEntity, ScheduleEntity};
use openagents::model_client::{model_ids, stream_plan, thinking_budget_tokens, ListModelsResponse, ModelInfo, StreamPlan};
use openagents::paths::{data_dir, database_file, join_path, log_dir, resolve_path, skills_dir_list, sort_directories, DirEntry};
use openagents::pi_types::{
    AssistantContent, AssistantMessage, AssistantMessageEvent, Message, StopReason, TextContent, ThinkingContent, ToolCall,
    ToolResultMessage, Usage, UserContent, UserMessage, UserMessageContent, user_blocks_text, ImageContent,
};
use openagents::web_rules::{
    agents_md_candidates, check_complete_task, check_start_task, conversation_work_config, default_true, guess_mime_type,
    not_in_review, schedule_cron_expr, schedule_run_title, stage_title, static_asset_path, status_code, work_config, AgentChoice,
    ApiError, CreateWorkRequest, ScheduleRequest, ScheduleResponse,
};

fn reply(content: Vec<AssistantContent>, stop: StopReason) -> AssistantMessage {
    let mut usage = Usage::zero();
    usage.input = 7;
    usage.output = 3;
    usage.cache_read = 2;
    AssistantMessage {
        content,
        api: "anthropic-messages".to_string(),
        provider: "1".to_string(),
        model: "m".to_string(),
        response_model: None,
        response_id: None,
        usage,
        stop_reason: stop,
        error_message: None,
        raw_stop_reason: None,
        timestamp: 2,
    }
}

fn call(id: &str, args: &str) -> ToolCall {
    ToolCall { id: id.to_string(), name: "command".to_string(), arguments: args.to_string(), thought_signature: None }
}

#[test]
fn replay_shows_system_history_and_task() {
    let msgs = vec![
        Message::User(UserMessage { content: UserMessageContent::Text("hi".to_string()), timestamp: 1 }),
        Message::Assistant(reply(
            vec![
                AssistantContent::Thinking(ThinkingContent { thinking: "hmm".to_string(), thinking_signature: None, redacted: None }),
                AssistantContent::Text(TextContent { text: "ok".to_string(), text_signature: None }),
                AssistantContent::ToolCall(call("c1", "{\"cmd_and_args\":[\"ls\"]}")),
            ],
            StopReason::ToolUse,
        )),
        Message::ToolResult(ToolResultMessage {
            tool_call_id: "c1".to_string(),
            tool_name: "command".to_string(),
            content: vec![
                UserContent::Text(TextContent { text: "a".to_string(), text_signature: None }),
                UserContent::Text(TextContent { text: "b".to_string(), text_signature: None }),
            ],
            is_error: false,
            timestamp: 3,
        }),
    ];
    let chunks = replay_chunks("sys", &msgs, "next");
    let types: Vec<&str> = chunks.iter().map(|c| c.chunk_type.as_str()).collect();
    assert_eq!(types, vec!["system", "user", "thinking", "text", "tool_use", "usage", "tool_result", "user"]);
    assert_eq!(chunks[0].text, "sys");
    assert_eq!(chunks[1].text, "hi");
    assert!(matches!(&chunks[4].extra, ChunkExtra::ToolUse { id, name } if id == "c1" && name == "command"));
    assert!(matches!(chunks[5].extra, ChunkExtra::Usage { cache_read_input_tokens: 2, input_tokens: 7, output_tokens: 3 }));
    assert_eq!(chunks[6].text, "a\nb");
    assert!(matches!(&chunks[6].extra, ChunkExtra::ToolResult { id, is_error: false } if id == "c1"));
    assert_eq!(chunks[7].text, "next");
    assert_eq!(replay_chunks("sys", &vec![], "").len(), 1);
}

#[test]
fn live_events_become_chunks() {
    let partial = || reply(vec![AssistantContent::ToolCall(call("c9", ""))], StopReason::Stop);
    let start = event_chunk(&AssistantMessageEvent::ToolcallStart { content_index: 0, partial: partial() }).unwrap();
    assert_eq!(start.chunk_type, "tool_use");
    assert!(matches!(&start.extra, ChunkExtra::ToolUse { id, .. } if id == "c9"));
    let delta = event_chunk(&AssistantMessageEvent::TextDelta { content_index: 0, delta: "x".to_string(), partial: partial() }).unwrap();
    assert_eq!(delta.chunk_type, "delta");
    assert_eq!(delta.text, "x");
    assert!(event_chunk(&AssistantMessageEvent::ToolcallStart { content_index: 5, partial: partial() }).is_none());
    assert!(event_chunk(&AssistantMessageEvent::Start { partial: partial() }).is_none());
}

#[test]
fn stream_errors_are_reported() {
    let mut e = reply(vec![], StopReason::Error);
    assert_eq!(stream_error_message(&e), "model stream error: unknown error");
    e.error_message = Some("boom".to_string());
    assert_eq!(stream_error_message(&e), "model stream error: boom");
}

#[test]
fn rounds_conclude_in_order_of_precedence() {
    let r = || reply(vec![AssistantContent::ToolCall(call("c1", "[1]")), AssistantContent::ToolCall(call("c2", "{\"a\":1}"))], StopReason::ToolUse);
    assert!(matches!(conclude_round(true, Some("x".to_string()), Some(r())), RoundEnd::Stopped));
    assert!(matches!(conclude_round(false, Some("x".to_string()), Some(r())), RoundEnd::Failed(ref m) if m == "x"));
    assert!(matches!(conclude_round(false, None, None), RoundEnd::NoReply));
    match conclude_round(false, None, Some(r())) {
        RoundEnd::Reply { message, tool_calls } => {
            assert_eq!(tool_calls.len(), 2);
            assert_eq!(tool_calls[0].arguments, "{}");
            assert_eq!(tool_calls[1].arguments, "{\"a\":1}");
            assert!(matches!(&message.content[0], AssistantContent::ToolCall(tc) if tc.arguments == "{}"));
        },
        _ => panic!("expected a reply"),
    }
}

#[test]
fn tool_results_are_recorded_and_shown() {
    let c = call("c1", "{}");
    match tool_result_message(&c, "out".to_string(), true, 42) {
        Message::ToolResult(tr) => {
            assert_eq!(tr.tool_call_id, "c1");
            assert_eq!(tr.tool_name, "command");
            assert!(tr.is_error);
            assert_eq!(tr.timestamp, 42);
            assert!(matches!(&tr.content[0], UserContent::Text(t) if t.text == "out"));
        },
        _ => panic!("expected a tool result"),
    }
    let ch = tool_result_chunk(&c, "out", false);
    assert_eq!(ch.chunk_type, "tool_result");
    assert_eq!(ch.text, "out");
}

fn column(name: &str, ty: &str, not_null: bool, suffix: &str) -> ColumnSchema {
    ColumnSchema { name: name.to_string(), column_type: ty.to_string(), not_null, suffix: suffix.to_string() }
}

fn demo_table() -> TableSchema {
    TableSchema {
        name: "t_demo".to_string(),
        columns: vec![
            column("id", "INTEGER", false, "PRIMARY KEY AUTOINCREMENT"),
            column("name", "TEXT", true, ""),
            column("size", "INTEGER", true, ""),
            column("note", "TEXT", false, ""),
        ],
        indexes: vec![],
    }
}

#[test]
fn tables_are_created_from_their_columns() {
    assert_eq!(column_fragment(&column("id", "INTEGER", false, "PRIMARY KEY")), "id INTEGER PRIMARY KEY");
    assert_eq!(column_fragment(&column("name", "TEXT", true, "")), "name TEXT NOT NULL");
    assert_eq!(
        create_table_sql(&demo_table()),
        "CREATE TABLE IF NOT EXISTS t_demo (id INTEGER PRIMARY KEY AUTOINCREMENT, name TEXT NOT NULL, size INTEGER NOT NULL, note TEXT)"
    );
}

#[test]
fn migration_plans_add_and_drop_columns() {
    let existing = vec!["id".to_string(), "name".to_string(), "old".to_string()];
    let plan = plan_columns(&demo_table(), &existing);
    assert_eq!(
        plan.add,
        vec![
            "ALTER TABLE t_demo ADD COLUMN size INTEGER NOT NULL DEFAULT 0".to_string(),
            "ALTER TABLE t_demo ADD COLUMN note TEXT".to_string(),
        ]
    );
    assert_eq!(plan.drop, vec!["ALTER TABLE t_demo DROP COLUMN old".to_string()]);
    assert!(plan.need_rebuild);
    let same = vec!["id".to_string(), "name".to_string(), "size".to_string(), "note".to_string()];
    let plan2 = plan_columns(&demo_table(), &same);
    assert!(plan2.add.is_empty());
    assert!(plan2.drop.is_empty());
    assert!(!plan2.need_rebuild);
}

#[test]
fn rebuilds_copy_the_kept_columns() {
    let latest = vec!["id".to_string(), "note".to_string(), "gone".to_string()];
    let sqls = rebuild_sqls(&demo_table(), &latest);
    assert_eq!(sqls.len(), 4);
    assert_eq!(
        sqls[0],
        "CREATE TABLE t_demo__migrate (id INTEGER PRIMARY KEY AUTOINCREMENT, name TEXT NOT NULL, size INTEGER NOT NULL, note TEXT)"
    );
    assert_eq!(sqls[1], "INSERT INTO t_demo__migrate (id, note) SELECT id, note FROM t_demo");
    assert_eq!(sqls[2], "DROP TABLE t_demo");
    assert_eq!(sqls[3], "ALTER TABLE t_demo__migrate RENAME TO t_demo");
}

#[test]
fn the_schema_has_eight_tables() {
    let ts = tables();
    let names: Vec<&str> = ts.iter().map(|t| t.name.as_str()).collect();
    assert_eq!(
        names,
        vec!["t_model_provider", "t_agent", "t_task", "t_schedule", "t_conversation", "t_message", "t_mcp_server", "t_web_storage"]
    );
    assert!(create_table_sql(&ts[1]).contains("model_provider_id INTEGER NOT NULL REFERENCES t_model_provider(id) ON DELETE RESTRICT"));
}

#[test]
fn paths_join_like_pathbuf() {
    assert_eq!(join_path("/home/u", "x"), "/home/u/x");
    assert_eq!(join_path("/home/u/", "x"), "/home/u/x");
    assert_eq!(join_path("", "x"), "x");
    assert_eq!(join_path("/home/u", "/etc/x"), "/etc/x");
    assert_eq!(data_dir("/home/u"), "/home/u/.openagents");
    assert_eq!(database_file("/home/u"), "/home/u/.openagents/database.db");
    assert_eq!(log_dir("/home/u"), "/home/u/.openagents/log");
    assert_eq!(skills_dir_list("/h"), vec!["/h/.openagents/skills".to_string(), "/h/.agents/skills".to_string()]);
    assert_eq!(resolve_path("/work", "a/b.txt"), "/work/a/b.txt");
    assert_eq!(resolve_path("/work", "/abs.txt"), "/abs.txt");
    assert_eq!(
        agents_md_candidates("/w", "/h"),
        vec!["/w/AGENTS.md".to_string(), "/h/.openagents/AGENTS.md".to_string(), "/h/.agents/AGENTS.md".to_string()]
    );
}

#[test]
fn errors_map_to_statuses() {
    assert_eq!(status_code(&ApiError::NotFound("x".to_string())), 404);
    assert_eq!(status_code(&ApiError::Conflict("x".to_string())), 409);
    assert_eq!(status_code(&ApiError::BadRequest("x".to_string())), 400);
    assert_eq!(status_code(&ApiError::Internal("x".to_string())), 500);
    assert!(default_true());
    assert!(matches!(not_in_review(), ApiError::Conflict(ref m) if m == "Task is not in review"));
}

#[test]
fn static_files_get_their_types() {
    assert_eq!(guess_mime_type("index.html"), "text/html; charset=utf-8");
    assert_eq!(guess_mime_type("assets/app.min.js"), "application/javascript; charset=utf-8");
    assert_eq!(guess_mime_type("a.jpeg"), "image/jpeg");
    assert_eq!(guess_mime_type("font.woff2"), "font/woff2");
    assert_eq!(guess_mime_type("README"), "application/octet-stream");
    assert_eq!(static_asset_path("/static/app.js"), "app.js");
    assert_eq!(static_asset_path("/static//static/x.css"), "x.css");
    assert_eq!(static_asset_path("/static/static/x.css"), "static/x.css");
    assert_eq!(static_asset_path("other"), "other");
}

fn agent() -> AgentEntity {
    AgentEntity {
        id: 3,
        name: "a".to_string(),
        description: "d".to_string(),
        prompt: "be good".to_string(),
        model_provider_id: 1,
        model: "m1".to_string(),
        thinking: true,
        create_time: String::new(),
        update_time: String::new(),
    }
}

fn work(p: Option<i64>, m: Option<&str>, t: Option<bool>) -> CreateWorkRequest {
    CreateWorkRequest {
        task_content: "do".to_string(),
        work_dir: "/w".to_string(),
        model_provider_id: p,
        model: m.map(|s| s.to_string()),
        thinking: t,
        agent_id: None,
    }
}

#[test]
fn work_settings_come_from_the_agent_or_the_request() {
    let c = work_config(&work(None, None, None), &AgentChoice::Found(agent())).ok().unwrap();
    assert_eq!((c.model_provider_id, c.model.as_str(), c.thinking), (1, "m1", true));
    assert_eq!(c.agent_prompt.as_deref(), Some("be good"));
    let same = work_config(&work(Some(1), Some("m1"), Some(true)), &AgentChoice::Found(agent()));
    assert!(same.is_ok());
    match work_config(&work(Some(2), None, None), &AgentChoice::Found(agent())) {
        Err(ApiError::BadRequest(m)) => assert_eq!(m, "Model config must be all None or all consistent with agent config"),
        _ => panic!("expected a refusal"),
    }
    let own = work_config(&work(Some(5), Some("x"), Some(false)), &AgentChoice::NoAgent).ok().unwrap();
    assert_eq!((own.model_provider_id, own.model.as_str(), own.thinking), (5, "x", false));
    assert!(own.agent_prompt.is_none());
    match work_config(&work(Some(5), None, Some(false)), &AgentChoice::NoAgent) {
        Err(ApiError::BadRequest(m)) => assert_eq!(m, "Model config is required when agent_id is not provided"),
        _ => panic!("expected a refusal"),
    }
    assert!(matches!(work_config(&work(None, None, None), &AgentChoice::Missing), Err(ApiError::NotFound(ref m)) if m == "Agent not found"));
    let conv = conversation_work_config(&work(Some(9), None, None), &AgentChoice::Found(agent())).ok().unwrap();
    assert_eq!(conv.model_provider_id, 1);
}

#[test]
fn task_requests_are_checked() {
    assert!(matches!(check_start_task(false, true, "go", false), Err(ApiError::NotFound(ref m)) if m == "Task not found"));
    assert!(matches!(check_start_task(true, false, "go", false), Err(ApiError::NotFound(ref m)) if m == "Agent not found"));
    assert!(matches!(check_start_task(true, true, "  \n", false), Err(ApiError::BadRequest(ref m)) if m == "Message is required"));
    assert!(matches!(check_start_task(true, true, "go", true), Err(ApiError::Conflict(ref m)) if m == "Task already running"));
    assert_eq!(check_start_task(true, true, "  go on ", false).ok().unwrap(), "go on");
    assert!(matches!(check_complete_task(true, "done", true), Err(ApiError::Conflict(ref m)) if m == "Task is running"));
    assert_eq!(check_complete_task(true, " done ", false).ok().unwrap(), "done");
}

fn schedule_req(second: &str, day_of_week: &str) -> ScheduleRequest {
    ScheduleRequest {
        name: "n".to_string(),
        content: "c".to_string(),
        work_dir: "/w".to_string(),
        minute: "0".to_string(),
        hour: "9".to_string(),
        day: "*".to_string(),
        month: "*".to_string(),
        day_of_week: day_of_week.to_string(),
        second: second.to_string(),
        agent_id: 1,
        enabled: true,
    }
}

#[test]
fn cron_expressions_are_built_and_checked() {
    assert_eq!(schedule_cron_expr(&schedule_req("0", "*")).ok().unwrap(), "0 0 9 * * *");
    assert!(matches!(schedule_cron_expr(&schedule_req("x", "*")), Err(ApiError::BadRequest(ref m)) if m == "Invalid cron expression"));
}

#[test]
fn schedule_titles_and_responses() {
    assert_eq!(schedule_run_title("manual", "daily"), "[manual] daily");
    assert_eq!(stage_title("T", "bob"), "T-bob");
    let s = ScheduleEntity {
        id: 4,
        name: "n".to_string(),
        content: "c".to_string(),
        work_dir: "/w".to_string(),
        cron_expr: "0 0 9 * * *".to_string(),
        agent_id: 2,
        enabled: false,
        create_time: "t0".to_string(),
        update_time: "t1".to_string(),
    };
    let r = ScheduleResponse::from(s, Some("2030-01-01T09:00:00Z".to_string()));
    assert_eq!(r.trigger, "0 0 9 * * *");
    assert_eq!(r.next_fire_time.as_deref(), Some("2030-01-01T09:00:00Z"));
    assert!(!r.enabled);
}

fn provider(protocol: &str) -> ModelProviderEntity {
    ModelProviderEntity {
        id: 12,
        name: "p".to_string(),
        protocol_type: protocol.to_string(),
        base_url: "https://api".to_string(),
        api_key: "k".to_string(),
        create_time: String::new(),
        update_time: String::new(),
    }
}

#[test]
fn thinking_levels_have_budgets() {
    assert_eq!(thinking_budget_tokens("minimal"), 1024);
    assert_eq!(thinking_budget_tokens("low"), 2048);
    assert_eq!(thinking_budget_tokens("medium"), 8192);
    assert_eq!(thinking_budget_tokens("high"), 16384);
    assert_eq!(thinking_budget_tokens("max"), 16384);
}

#[test]
fn providers_pick_the_adapter() {
    match stream_plan(&provider("anthropic-messages"), "m", "low", 1000) {
        Ok(StreamPlan::Anthropic { model, options }) => {
            assert_eq!(model.provider, "12");
            assert_eq!(model.api, "anthropic-messages");
            assert_eq!(model.max_tokens, 1000);
            assert_eq!(options.max_tokens, Some(3048));
            assert_eq!(options.thinking_enabled, Some(true));
            assert_eq!(options.thinking_budget_tokens, Some(2048));
            assert_eq!(options.api_key.as_deref(), Some("k"));
        },
        _ => panic!("expected anthropic"),
    }
    match stream_plan(&provider("anthropic-messages"), "m", "high", u32::MAX - 1) {
        Ok(StreamPlan::Anthropic { options, .. }) => assert_eq!(options.max_tokens, Some(u32::MAX)),
        _ => panic!("expected anthropic"),
    }
    match stream_plan(&provider("openai-responses"), "gpt-x", "off", 500) {
        Ok(StreamPlan::Responses { model, options }) => {
            assert_eq!(model.id, "gpt-x");
            assert_eq!(options.max_tokens, Some(500));
            assert!(options.reasoning_effort.is_none());
        },
        _ => panic!("expected responses"),
    }
    match stream_plan(&provider("openai-responses"), "gpt-x", "high", 500) {
        Ok(StreamPlan::Responses { options, .. }) => assert_eq!(options.reasoning_effort.as_deref(), Some("high")),
        _ => panic!("expected responses"),
    }
    match stream_plan(&provider("gemini"), "m", "off", 1) {
        Err(e) => assert_eq!(e.message(), "unsupported protocol type: gemini"),
        _ => panic!("expected an error"),
    }
}

#[test]
fn model_lists_give_their_ids() {
    let list = ListModelsResponse { data: vec![ModelInfo { id: "a".to_string() }, ModelInfo { id: "b".to_string() }] };
    assert_eq!(model_ids(list), vec!["a".to_string(), "b".to_string()]);
}

fn dir(name: &str) -> DirEntry {
    DirEntry { name: name.to_string(), path: format!("/home/u/{}", name) }
}

#[test]
fn directories_are_listed_by_name() {
    let sorted = sort_directories(vec![dir("src"), dir("Docs"), dir("app"), dir("ab"), dir("é"), dir("a")]);
    let names: Vec<&str> = sorted.iter().map(|d| d.name.as_str()).collect();
    assert_eq!(names, vec!["Docs", "a", "ab", "app", "src", "é"]);
    assert_eq!(sorted[0].path, "/home/u/Docs");
    assert!(sort_directories(Vec::new()).is_empty());
}

#[test]
fn the_schema_lists_every_column() {
    let ts = tables();
    let cols: Vec<(String, String, bool, String)> =
        ts[0].columns.iter().map(|c| (c.name.clone(), c.column_type.clone(), c.not_null, c.suffix.clone())).collect();
    assert_eq!(cols.len(), 7);
    assert_eq!(cols[0], ("id".to_string(), "INTEGER".to_string(), false, "PRIMARY KEY AUTOINCREMENT".to_string()));
    assert_eq!(cols[4], ("api_key".to_string(), "TEXT".to_string(), true, String::new()));
    let thinking = ts[1].columns.iter().find(|c| c.name == "thinking").unwrap();
    assert_eq!((thinking.column_type.as_str(), thinking.not_null), ("INTEGER", true));
    assert_eq!(ts[4].indexes, vec!["CREATE INDEX IF NOT EXISTS idx_conversation_task ON t_conversation(task_id)".to_string()]);
    assert_eq!(ts[5].indexes, vec!["CREATE INDEX IF NOT EXISTS idx_message_conversation ON t_message(conversation_id)".to_string()]);
    assert!(ts[0].indexes.is_empty());
    assert_eq!(ts[7].columns[0].suffix, "PRIMARY KEY");
    assert_eq!(ts[6].columns.iter().filter(|c| !c.not_null).count(), 5);
}

fn user(text: &str) -> Message {
    Message::User(UserMessage { content: UserMessageContent::Text(text.to_string()), timestamp: 1 })
}

#[test]
fn conversation_run_keeps_its_messages() {
    let mut run = ConversationRun::start(vec![user("old")], user("task"));
    assert_eq!((run.messages.len(), run.new_messages.len()), (2, 1));
    let r = reply(vec![AssistantContent::ToolCall(call("c1", "{}"))], StopReason::ToolUse);
    let end = conclude_round(false, None, Some(r));
    match run.after_round(end) {
        RoundAction::RunTools(calls) => {
            assert_eq!(calls.len(), 1);
            run.record_result(tool_result_message(&calls[0], "ok".to_string(), false, 5));
        },
        _ => panic!("expected tool calls"),
    }
    assert_eq!((run.messages.len(), run.new_messages.len()), (4, 3));
    let done = conclude_round(false, None, Some(reply(vec![], StopReason::Stop)));
    assert!(matches!(run.after_round(done), RoundAction::Finish));
    assert_eq!(run.new_messages.len(), 4);
    match run.after_round(RoundEnd::NoReply) {
        RoundAction::FailUnsaved(e) => assert_eq!(e, "no assistant message received"),
        _ => panic!("expected an unsaved failure"),
    }
    match run.after_round(RoundEnd::Failed("boom".to_string())) {
        RoundAction::SaveAndFail(e) => assert_eq!(e, "boom"),
        _ => panic!("expected a saved failure"),
    }
    assert!(matches!(run.after_round(RoundEnd::Stopped), RoundAction::Stop));
    assert_eq!(run.new_messages.len(), 4);
}

fn text_block(t: &str) -> UserContent {
    UserContent::Text(TextContent { text: t.to_string(), text_signature: None })
}

#[test]
fn block_texts_join_across_lists() {
    let image = UserContent::Image(ImageContent { data: "x".to_string(), mime_type: "image/png".to_string() });
    let a = vec![text_block("one"), image, text_block("two")];
    let b = vec![text_block("three")];
    let both = vec![text_block("one"), UserContent::Image(ImageContent { data: "x".to_string(), mime_type: "image/png".to_string() }), text_block("two"), text_block("three")];
    assert_eq!(user_blocks_text(&both), format!("{}\n{}", user_blocks_text(&a), user_blocks_text(&b)));
    assert_eq!(user_blocks_text(&both), "one\ntwo\nthree");
}
