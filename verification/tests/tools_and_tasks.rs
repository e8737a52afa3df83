use openagents::entities::{AgentEntity, LatestConversationState, McpServerEntity};
use openagents::pi_types::{Message, UserMessage, UserMessageContent};
use openagents::skills::{collect_skills, list_skills, parse_skill, skill_command, SkillCandidate};
use openagents::task_loop::{
    handover_reminder_text, next_round, task_prompt, user_message_target, HistoryItem, LastMessage, RoundDecision, TaskLoopState,
    UserMessageTarget, MAX_HANDOVER_REMINDERS,
};
use openagents::tools::{
    build_tool_definitions, edit_text, list_tools, mcp_transport, parse_file_command, parse_mcp_command, route_tool, tool_arguments,
    FileCommand, McpCommand, McpTransport, ShellKind, ToolRoute,
};

fn words(ws: &[&str]) -> Vec<String> {
    ws.iter().map(|w| w.to_string()).collect()
}

#[test]
fn tool_calls_are_routed_by_first_word() {
    assert!(matches!(route_tool("command", &words(&["file", "read", "a"])), Ok(ToolRoute::File)));
    assert!(matches!(route_tool("command", &words(&["skill", "list"])), Ok(ToolRoute::Skill)));
    assert!(matches!(route_tool("command", &words(&["mcp", "server", "list"])), Ok(ToolRoute::Mcp)));
    assert!(matches!(route_tool("command", &words(&["task", "handover", "user"])), Ok(ToolRoute::Task)));
    assert!(matches!(route_tool("command", &words(&["schedule", "list"])), Ok(ToolRoute::Schedule)));
    assert!(matches!(route_tool("command", &words(&["agent", "list"])), Ok(ToolRoute::Agent)));
    assert!(matches!(route_tool("command", &words(&["model_provider", "list"])), Ok(ToolRoute::ModelProvider)));
    assert!(matches!(route_tool("command", &words(&["ls", "-la"])), Ok(ToolRoute::Shell)));
    assert_eq!(route_tool("search", &words(&["x"])).err().unwrap(), "Unknown tool: search");
    assert_eq!(route_tool("command", &words(&[])).err().unwrap(), "No cmd_and_args");
}

#[test]
fn tool_arguments_come_from_cmd_and_args() {
    let args = tool_arguments("{\"cmd_and_args\":[\"file\",\"read\",\"/tmp/a b.txt\"]}");
    assert_eq!(args, words(&["file", "read", "/tmp/a b.txt"]));
    assert!(tool_arguments("{\"other\":1}").is_empty());
    assert!(tool_arguments("not json").is_empty());
}

#[test]
fn file_commands_parse() {
    match parse_file_command(&words(&["file", "read", "/a"])) {
        Ok(FileCommand::Read { path }) => assert_eq!(path, "/a"),
        _ => panic!("expected read"),
    }
    match parse_file_command(&words(&["file", "write", "/a", "text"])) {
        Ok(FileCommand::Write { path, content }) => {
            assert_eq!(path, "/a");
            assert_eq!(content, "text");
        },
        _ => panic!("expected write"),
    }
    match parse_file_command(&words(&["file", "edit", "/a", "x", "y"])) {
        Ok(FileCommand::Edit { path, old_str, new_str }) => {
            assert_eq!(path, "/a");
            assert_eq!(old_str, "x");
            assert_eq!(new_str, "y");
        },
        _ => panic!("expected edit"),
    }
    assert_eq!(parse_file_command(&words(&["file", "read"])).err().unwrap(), "Unknown file command: file read");
    assert_eq!(parse_file_command(&words(&["file", "delete", "/a"])).err().unwrap(), "Unknown file command: file delete /a");
}

#[test]
fn edits_replace_every_match() {
    assert_eq!(edit_text("a-b-a", "a", "x").ok().unwrap(), "x-b-x");
    assert_eq!(edit_text("aaa", "aa", "b").ok().unwrap(), "ba");
    assert_eq!(edit_text("ab", "", "-").ok().unwrap(), "-a-b-");
    assert_eq!(edit_text("héllo wörld", "ö", "o").ok().unwrap(), "héllo world");
    assert_eq!(edit_text("abc", "zz", "y").err().unwrap(), "Target string not found in file:\nzz");
}

#[test]
fn replacing_a_text_by_itself_keeps_the_file() {
    assert_eq!(edit_text("abcabc", "bc", "bc").ok().unwrap(), "abcabc");
}

#[test]
fn mcp_commands_parse() {
    assert!(matches!(parse_mcp_command(&words(&["mcp", "server", "list"])), Ok(McpCommand::ServerList)));
    assert!(matches!(parse_mcp_command(&words(&["mcp", "server", "7", "tool", "list"])), Ok(McpCommand::ToolList { server_id: 7 })));
    match parse_mcp_command(&words(&["mcp", "server", "-3", "tool", "echo", "info"])) {
        Ok(McpCommand::ToolInfo { server_id, tool_name }) => {
            assert_eq!(server_id, -3);
            assert_eq!(tool_name, "echo");
        },
        _ => panic!("expected info"),
    }
    match parse_mcp_command(&words(&["mcp", "server", "1", "tool", "echo", "call", "{\"a\":1}"])) {
        Ok(McpCommand::ToolCall { server_id, tool_name, arguments }) => {
            assert_eq!(server_id, 1);
            assert_eq!(tool_name, "echo");
            assert_eq!(arguments, "{\"a\":1}");
        },
        _ => panic!("expected call"),
    }
    assert_eq!(parse_mcp_command(&words(&["mcp", "server", "x", "tool", "list"])).err().unwrap(), "Invalid server id x");
    assert_eq!(parse_mcp_command(&words(&["mcp", "foo"])).err().unwrap(), "Unknown command");
    assert_eq!(parse_mcp_command(&words(&["mcp", "server", "1", "tool", "echo", "call"])).err().unwrap(), "Unknown command");
}

#[test]
fn the_command_tool_lists_the_right_commands() {
    let standalone = build_tool_definitions(false, false, ShellKind::Bash);
    assert_eq!(standalone.len(), 1);
    assert_eq!(standalone[0].name, "command");
    let d = &standalone[0].description;
    assert!(d.starts_with("Execute a built-in command. Available commands:\nfile read <path> # Read file content from <path>.\n"));
    assert!(d.contains("agent list # List all agents.\n"));
    assert!(!d.contains("task handover"));
    assert!(d.ends_with("bash -c <command> # Execute a command in Bash on Linux/macOS.\n"));
    let in_task = list_tools(true, false, ShellKind::Pwsh);
    let d2 = &in_task[0].description;
    assert!(d2.contains("task handover user # Hand over the task to the user.\n"));
    assert!(!d2.contains("agent list"));
    assert!(d2.ends_with("pwsh -Command <command> # Execute a command in PowerShell 7 on Windows.\n"));
    let in_schedule = list_tools(false, true, ShellKind::WindowsPowerShell);
    let d3 = &in_schedule[0].description;
    assert!(!d3.contains("agent list"));
    assert!(!d3.contains("task handover"));
    assert!(d3.contains("powershell -Command <command>"));
    assert!(standalone[0].input_schema.contains("\"required\":[\"cmd_and_args\"]"));
}

fn server(protocol: &str, url: Option<&str>, headers: Option<&str>, command: Option<&str>, args: Option<&str>) -> McpServerEntity {
    McpServerEntity {
        id: 1,
        name: "s".to_string(),
        description: "d".to_string(),
        protocol_type: protocol.to_string(),
        url: url.map(|s| s.to_string()),
        headers: headers.map(|s| s.to_string()),
        command: command.map(|s| s.to_string()),
        args: args.map(|s| s.to_string()),
        create_time: String::new(),
        update_time: String::new(),
    }
}

#[test]
fn mcp_transports_follow_the_protocol() {
    match mcp_transport(&server("stdio", None, None, Some("npx"), Some("[\"-y\",\"pkg\"]"))) {
        Ok(McpTransport::Stdio { command, args }) => {
            assert_eq!(command, "npx");
            assert_eq!(args, words(&["-y", "pkg"]));
        },
        _ => panic!("expected stdio"),
    }
    match mcp_transport(&server("stdio", None, None, Some("srv"), None)) {
        Ok(McpTransport::Stdio { args, .. }) => assert!(args.is_empty()),
        _ => panic!("expected stdio"),
    }
    match mcp_transport(&server("streamable_http", Some("http://h/mcp"), Some("{\"Authorization\":\"Bearer t\",\"bad name\":\"v\"}"), None, None)) {
        Ok(McpTransport::StreamableHttp { url, headers }) => {
            assert_eq!(url, "http://h/mcp");
            assert_eq!(headers, vec![("Authorization".to_string(), "Bearer t".to_string())]);
        },
        _ => panic!("expected http"),
    }
    assert_eq!(mcp_transport(&server("stdio", None, None, None, None)).err().unwrap(), "missing command");
    assert_eq!(mcp_transport(&server("streamable_http", None, None, None, None)).err().unwrap(), "missing url");
    assert_eq!(mcp_transport(&server("sse", None, None, None, None)).err().unwrap(), "unsupported protocol type: sse");
}

const DEMO: &str = "---\nname: demo\ndescription:  A demo skill \n---\n\n  Do the thing.\n";

#[test]
fn skill_files_parse() {
    let (name, desc, body) = parse_skill(DEMO, "demo").unwrap();
    assert_eq!(name, "demo");
    assert_eq!(desc, "A demo skill");
    assert_eq!(body, "Do the thing.");
    assert!(parse_skill(DEMO, "other").is_none());
    assert!(parse_skill("name: demo\n", "demo").is_none());
    assert!(parse_skill("---\nname: demo\n", "demo").is_none());
    let (_, d2, b2) = parse_skill("---\nname: x\n---\nbody", "x").unwrap();
    assert_eq!(d2, "");
    assert_eq!(b2, "body");
}

fn cand(dir: &str, text: Option<&str>, path: &str) -> SkillCandidate {
    SkillCandidate { dir_name: dir.to_string(), text: text.map(|s| s.to_string()), path: path.to_string() }
}

#[test]
fn the_first_skill_of_a_name_wins() {
    let cands = vec![
        cand("demo", Some(DEMO), "/a/demo/SKILL.md"),
        cand("none", None, "/a/none/SKILL.md"),
        cand("demo", Some("---\nname: demo\ndescription: later\n---\nx"), "/b/demo/SKILL.md"),
        cand("bad", Some("---\nname: other\n---\n"), "/a/bad/SKILL.md"),
    ];
    let skills = collect_skills(&cands);
    assert_eq!(skills.len(), 1);
    assert_eq!(skills[0].path, "/a/demo/SKILL.md");
    assert_eq!(skills[0].description, "A demo skill");
    let copy = list_skills(&skills);
    assert_eq!(copy.len(), 1);
    assert_eq!(copy[0].content, "Do the thing.");
}

#[test]
fn skill_list_is_a_json_array() {
    let skills = collect_skills(&vec![cand("demo", Some(DEMO), "/a/demo/SKILL.md")]);
    let (out, is_error) = skill_command(&words(&["skill", "list"]), &skills);
    assert!(!is_error);
    assert_eq!(out, "[{\"description\":\"A demo skill\",\"name\":\"demo\",\"path\":\"/a/demo/SKILL.md\"}]");
    let (out2, err2) = skill_command(&words(&["skill", "show"]), &skills);
    assert!(err2);
    assert_eq!(out2, "Unknown command");
    let (empty, _) = skill_command(&words(&["skill", "list"]), &vec![]);
    assert_eq!(empty, "[]");
}

fn latest(id: i64, agent: Option<i64>, has_messages: bool) -> Option<LatestConversationState> {
    Some(LatestConversationState { id, agent_id: agent, has_messages })
}

#[test]
fn rounds_follow_the_latest_stage() {
    let mut st = TaskLoopState::new();
    assert!(next_round(&mut st, true, true, latest(1, Some(2), false)) == RoundDecision::Stopped);
    assert!(next_round(&mut st, false, false, latest(1, Some(2), false)) == RoundDecision::Gone);
    assert!(next_round(&mut st, false, true, None) == RoundDecision::Gone);
    assert!(next_round(&mut st, false, true, latest(1, None, true)) == RoundDecision::UserReview);
    assert!(
        next_round(&mut st, false, true, latest(2, Some(5), false))
            == RoundDecision::Run { conversation_id: 2, agent_id: 5, reminder: false }
    );
    assert_eq!(st.prev_conversation_id, Some(2));
    assert_eq!(st.consecutive_reminders, 0);
}

#[test]
fn reminders_end_the_task_after_the_limit() {
    let mut st = TaskLoopState::new();
    for k in 1..=MAX_HANDOVER_REMINDERS {
        let d = next_round(&mut st, false, true, latest(4, Some(9), true));
        assert!(d == RoundDecision::Run { conversation_id: 4, agent_id: 9, reminder: true });
        assert_eq!(st.consecutive_reminders, k);
    }
    assert!(next_round(&mut st, false, true, latest(4, Some(9), true)) == RoundDecision::ReminderLimit);
}

#[test]
fn a_handover_resets_the_reminders() {
    let mut st = TaskLoopState::new();
    for _ in 0..3 {
        next_round(&mut st, false, true, latest(4, Some(9), true));
    }
    assert_eq!(st.consecutive_reminders, 3);
    let d = next_round(&mut st, false, true, latest(5, Some(8), true));
    assert!(d == RoundDecision::Run { conversation_id: 5, agent_id: 8, reminder: true });
    assert_eq!(st.consecutive_reminders, 1);
}

#[test]
fn reminder_text_asks_for_a_handover() {
    assert!(handover_reminder_text().starts_with("[System] Your previous turn ended without handing over the task."));
}

fn agent(id: i64, name: &str, description: &str) -> AgentEntity {
    AgentEntity {
        id,
        name: name.to_string(),
        description: description.to_string(),
        prompt: String::new(),
        model_provider_id: 1,
        model: "m".to_string(),
        thinking: false,
        create_time: String::new(),
        update_time: String::new(),
    }
}

#[test]
fn task_prompt_has_task_team_history_and_handover() {
    let agents = vec![agent(1, "alice", "writes"), agent(2, "bob", "reviews")];
    let history = vec![
        HistoryItem {
            agent_name: None,
            last: LastMessage::Read(Message::User(UserMessage { content: UserMessageContent::Text("hi \"there\"".to_string()), timestamp: 1 })),
        },
        HistoryItem { agent_name: Some("alice".to_string()), last: LastMessage::Missing },
        HistoryItem { agent_name: Some("bob".to_string()), last: LastMessage::Unreadable },
    ];
    let p = task_prompt("T", "C", &agents, &vec![2], &history);
    let expected = "# Task\n{\"content\":\"C\",\"title\":\"T\"}\n\n# Team\n[{\"description\":\"reviews\",\"id\":2,\"name\":\"bob\"}]\n\n# History\n\n## User\n\"hi \\\"there\\\"\"\n\n## bob\n\"\"\n\n# Handover\nWhen your work is done, you must call the handover tool: use `task handover <agent_id>` to hand over to a teammate, or `task handover user` to hand over to the user for review. Do not end your turn without handing over.";
    assert_eq!(p, expected);
}

#[test]
fn user_messages_go_to_the_user_stage() {
    assert!(matches!(user_message_target("T", latest(3, None, true), false), UserMessageTarget::Append(3)));
    match user_message_target("T", latest(3, Some(1), true), true) {
        UserMessageTarget::CreateUserStage { title } => assert_eq!(title, "T-User"),
        _ => panic!("expected a new user stage"),
    }
    assert!(matches!(user_message_target("T", None, false), UserMessageTarget::Refused));
}

#[test]
fn mcp_headers_keep_what_http_accepts() {
    let headers = "{\"X-Key\":\"a\\tb\",\"X-Line\":\"a\\nb\",\"X-Utf\":\"café\",\"X:bad\":\"v\",\"\":\"v\",\"x~ok\":\"\"}";
    match mcp_transport(&server("streamable_http", Some("http://h/mcp"), Some(headers), None, None)) {
        Ok(McpTransport::StreamableHttp { headers, .. }) => {
            let names: Vec<&str> = headers.iter().map(|(k, _)| k.as_str()).collect();
            assert_eq!(names, vec!["X-Key", "X-Utf", "x~ok"]);
        },
        _ => panic!("expected http"),
    }
}
