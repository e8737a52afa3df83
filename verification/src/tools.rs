//! The one built-in tool, `command`: its definition, the routing of a
//! command line to the part that runs it, and the argument grammar of the
//! file and MCP commands.
use vstd::prelude::*;
use crate::json_value::{json_array_strings, json_array_strings_of, json_string_items, json_string_items_of, json_string_members, json_string_members_of};
use crate::entities::McpServerEntity;
use crate::numbers::{parse_i64, spec_parse_i64};
use crate::text::{push_str, spec_join, join_with};

verus! {

/// Which shell runs plain commands.
#[derive(Clone, Copy, PartialEq, Eq, Structural)]
pub enum ShellKind {
    /// Bash on Linux and macOS.
    Bash,
    /// PowerShell 7 on Windows.
    Pwsh,
    /// Windows PowerShell 5.1.
    WindowsPowerShell,
}

/// A tool offered to the model; `input_schema` is a JSON schema as text.
pub struct ToolDefinition {
    pub name: String,
    pub description: String,
    pub input_schema: String,
}

/// Help of the commands every conversation has.
pub open spec fn command_help() -> Seq<(Seq<char>, Seq<char>)> {
    seq![
        ("file read <path>"@, "Read file content from <path>."@),
        (
            "file write <path> <content>"@,
            "Write <content> to <path>. Creates the file if it doesn't exist, overwrites if it does."@,
        ),
        ("file edit <path> <old_str> <new_str>"@, "Replace all exact matches of <old_str> with <new_str> in <path>."@),
        ("skill list"@, "List all available skills."@),
        ("mcp server list"@, "List all MCP servers."@),
        ("mcp server <server_id> tool list"@, "List all tools of a specific MCP server."@),
        ("mcp server <server_id> tool <tool_name> info"@, "Show parameter format of a specific tool."@),
        ("mcp server <server_id> tool <tool_name> call <tool_json_args>"@, "Call a specific tool with JSON arguments."@),
    ]
}

/// Help of the hand-over commands (task conversations only).
pub open spec fn handover_help() -> Seq<(Seq<char>, Seq<char>)> {
    seq![
        ("task handover <agent_id>"@, "Hand over the task to the specified agent."@),
        ("task handover user"@, "Hand over the task to the user."@),
    ]
}

/// Help of the management commands (stand-alone conversations only).
pub open spec fn manage_help() -> Seq<(Seq<char>, Seq<char>)> {
    seq![
        ("agent list"@, "List all agents."@),
        ("agent get <agent_id>"@, "Show details of a specific agent."@),
        (
            "agent add <name> <description> <prompt> <model_provider_id> <model> <thinking>"@,
            "Add a new agent. <thinking> is true or false."@,
        ),
        (
            "agent update <agent_id> <name> <description> <prompt> <model_provider_id> <model> <thinking>"@,
            "Update an existing agent. <thinking> is true or false."@,
        ),
        (
            "agent delete <agent_id>"@,
            "Delete an agent. Fails if the agent is referenced by conversations or schedules."@,
        ),
        ("task list"@, "List all tasks."@),
        ("task get <task_id>"@, "Show details of a specific task."@),
        (
            "task add <title> <content> <agent_ids> <work_dir>"@,
            "Add a new task. <agent_ids> is a JSON array of agent ids, e.g. [1,2]."@,
        ),
        (
            "task update <task_id> <title> <content> <agent_ids> <work_dir>"@,
            "Update an existing task. <agent_ids> is a JSON array of agent ids, e.g. [1,2]."@,
        ),
        ("task delete <task_id>"@, "Delete a task. Fails if the task is running."@),
        ("schedule list"@, "List all schedules."@),
        ("schedule get <schedule_id>"@, "Show details of a specific schedule."@),
        (
            "schedule add <name> <content> <work_dir> <cron_expr> <agent_id>"@,
            "Add a new schedule. <cron_expr> has 6 fields: second minute hour day month day_of_week, e.g. \"0 0 9 * * *\"."@,
        ),
        (
            "schedule update <schedule_id> <name> <content> <work_dir> <cron_expr> <agent_id> <enabled>"@,
            "Update an existing schedule. <enabled> is true or false."@,
        ),
        ("schedule delete <schedule_id>"@, "Delete a schedule."@),
        (
            "model_provider list"@,
            "List all model providers (id, name, protocol_type, base_url) without api_key."@,
        ),
    ]
}

/// The shell command line and its help.
pub open spec fn shell_help(shell: ShellKind) -> (Seq<char>, Seq<char>) {
    match shell {
        ShellKind::Bash => ("bash -c <command>"@, "Execute a command in Bash on Linux/macOS."@),
        ShellKind::Pwsh => ("pwsh -Command <command>"@, "Execute a command in PowerShell 7 on Windows."@),
        ShellKind::WindowsPowerShell => (
            "powershell -Command <command>"@,
            "Execute a command in Windows PowerShell 5.1 on Windows."@,
        ),
    }
}

/// "<cmd> # <desc>\n" for each entry.
pub open spec fn help_lines(entries: Seq<(Seq<char>, Seq<char>)>) -> Seq<char>
    decreases entries.len(),
{
    if entries.len() == 0 {
        Seq::empty()
    } else {
        help_lines(entries.drop_last()) + entries.last().0 + " # "@ + entries.last().1 + "\n"@
    }
}

/// The description of the `command` tool: the commands of every
/// conversation, the hand-over commands in a task, the management
/// commands in a stand-alone conversation, and the shell.
pub open spec fn tool_description(has_task: bool, has_schedule: bool, shell: ShellKind) -> Seq<char> {
    "Execute a built-in command. Available commands:\n"@ + help_lines(command_help()) + (if has_task {
        help_lines(handover_help())
    } else {
        Seq::empty()
    }) + (if !has_task && !has_schedule {
        help_lines(manage_help())
    } else {
        Seq::empty()
    }) + help_lines(seq![shell_help(shell)])
}

/// The input schema of the `command` tool (JSON text).
pub open spec fn command_schema() -> Seq<char> {
    "{\"properties\":{\"cmd_and_args\":{\"description\":\"Command and its arguments as an array. The first element is the command name, followed by the corresponding arguments. Example: [\\\"file\\\", \\\"read\\\", \\\"/path/to/file.txt\\\"]\",\"items\":{\"type\":\"string\"},\"type\":\"array\"}},\"required\":[\"cmd_and_args\"],\"type\":\"object\"}"@
}

fn push_help(out: &mut String, entries: &Vec<(&str, &str)>)
    ensures
        final(out)@ == old(out)@ + help_lines(entries@.map_values(|e: (&str, &str)| (e.0@, e.1@))),
{
    let ghost ev = entries@.map_values(|e: (&str, &str)| (e.0@, e.1@));
    let ghost start = out@;
    let mut i: usize = 0;
    while i < entries.len()
        invariant
            i <= entries.len(),
            ev == entries@.map_values(|e: (&str, &str)| (e.0@, e.1@)),
            out@ == start + help_lines(ev.take(i as int)),
        decreases entries.len() - i,
    {
        let (cmd, desc) = entries[i];
        push_str(out, cmd);
        push_str(out, " # ");
        push_str(out, desc);
        push_str(out, "\n");
        assert(ev.take(i + 1).drop_last() =~= ev.take(i as int));
        assert(ev.take(i + 1).last() == (cmd@, desc@));
        assert(out@ =~= start + help_lines(ev.take(i + 1)));
        i += 1;
    }
    assert(ev.take(entries.len() as int) =~= ev);
}

fn command_help_list() -> (r: Vec<(&'static str, &'static str)>)
    ensures
        r@.map_values(|e: (&str, &str)| (e.0@, e.1@)) == command_help(),
{
    let mut v: Vec<(&'static str, &'static str)> = Vec::new();
    v.push(("file read <path>", "Read file content from <path>."));
    v.push(("file write <path> <content>", "Write <content> to <path>. Creates the file if it doesn't exist, overwrites if it does."));
    v.push(("file edit <path> <old_str> <new_str>", "Replace all exact matches of <old_str> with <new_str> in <path>."));
    v.push(("skill list", "List all available skills."));
    v.push(("mcp server list", "List all MCP servers."));
    v.push(("mcp server <server_id> tool list", "List all tools of a specific MCP server."));
    v.push(("mcp server <server_id> tool <tool_name> info", "Show parameter format of a specific tool."));
    v.push(("mcp server <server_id> tool <tool_name> call <tool_json_args>", "Call a specific tool with JSON arguments."));
    assert(v@.map_values(|e: (&str, &str)| (e.0@, e.1@)) =~= command_help());
    v
}

fn handover_help_list() -> (r: Vec<(&'static str, &'static str)>)
    ensures
        r@.map_values(|e: (&str, &str)| (e.0@, e.1@)) == handover_help(),
{
    let mut v: Vec<(&'static str, &'static str)> = Vec::new();
    v.push(("task handover <agent_id>", "Hand over the task to the specified agent."));
    v.push(("task handover user", "Hand over the task to the user."));
    assert(v@.map_values(|e: (&str, &str)| (e.0@, e.1@)) =~= handover_help());
    v
}

fn manage_help_list() -> (r: Vec<(&'static str, &'static str)>)
    ensures
        r@.map_values(|e: (&str, &str)| (e.0@, e.1@)) == manage_help(),
{
    let mut v: Vec<(&'static str, &'static str)> = Vec::new();
    v.push(("agent list", "List all agents."));
    v.push(("agent get <agent_id>", "Show details of a specific agent."));
    v.push(("agent add <name> <description> <prompt> <model_provider_id> <model> <thinking>", "Add a new agent. <thinking> is true or false."));
    v.push(("agent update <agent_id> <name> <description> <prompt> <model_provider_id> <model> <thinking>", "Update an existing agent. <thinking> is true or false."));
    v.push(("agent delete <agent_id>", "Delete an agent. Fails if the agent is referenced by conversations or schedules."));
    v.push(("task list", "List all tasks."));
    v.push(("task get <task_id>", "Show details of a specific task."));
    v.push(("task add <title> <content> <agent_ids> <work_dir>", "Add a new task. <agent_ids> is a JSON array of agent ids, e.g. [1,2]."));
    v.push(("task update <task_id> <title> <content> <agent_ids> <work_dir>", "Update an existing task. <agent_ids> is a JSON array of agent ids, e.g. [1,2]."));
    v.push(("task delete <task_id>", "Delete a task. Fails if the task is running."));
    v.push(("schedule list", "List all schedules."));
    v.push(("schedule get <schedule_id>", "Show details of a specific schedule."));
    v.push(("schedule add <name> <content> <work_dir> <cron_expr> <agent_id>", "Add a new schedule. <cron_expr> has 6 fields: second minute hour day month day_of_week, e.g. \"0 0 9 * * *\"."));
    v.push(("schedule update <schedule_id> <name> <content> <work_dir> <cron_expr> <agent_id> <enabled>", "Update an existing schedule. <enabled> is true or false."));
    v.push(("schedule delete <schedule_id>", "Delete a schedule."));
    v.push(("model_provider list", "List all model providers (id, name, protocol_type, base_url) without api_key."));
    assert(v@.map_values(|e: (&str, &str)| (e.0@, e.1@)) =~= manage_help());
    v
}

/// Builds the tool list of a conversation: the single `command` tool.
pub fn build_tool_definitions(has_task: bool, has_schedule: bool, shell: ShellKind) -> (r: Vec<ToolDefinition>)
    ensures
        r@.len() == 1,
        r@[0].name@ == "command"@,
        r@[0].description@ == tool_description(has_task, has_schedule, shell),
        r@[0].input_schema@ == command_schema(),
{
    let mut description = "Execute a built-in command. Available commands:\n".to_string();
    let ghost d0 = description@;
    push_help(&mut description, &command_help_list());
    let ghost d1 = description@;
    if has_task {
        push_help(&mut description, &handover_help_list());
    }
    let ghost d2 = description@;
    assert(d2 == d1 + (if has_task { help_lines(handover_help()) } else { Seq::empty() }));
    if !has_task && !has_schedule {
        push_help(&mut description, &manage_help_list());
    }
    let ghost d3 = description@;
    assert(d3 == d2 + (if !has_task && !has_schedule { help_lines(manage_help()) } else { Seq::empty() }));
    let shell_entry: (&str, &str) = match shell {
        ShellKind::Bash => ("bash -c <command>", "Execute a command in Bash on Linux/macOS."),
        ShellKind::Pwsh => ("pwsh -Command <command>", "Execute a command in PowerShell 7 on Windows."),
        ShellKind::WindowsPowerShell => ("powershell -Command <command>", "Execute a command in Windows PowerShell 5.1 on Windows."),
    };
    let mut shell_list: Vec<(&str, &str)> = Vec::new();
    shell_list.push(shell_entry);
    assert(shell_list@.map_values(|e: (&str, &str)| (e.0@, e.1@)) =~= seq![shell_help(shell)]);
    push_help(&mut description, &shell_list);
    assert(description@ =~= tool_description(has_task, has_schedule, shell));
    let mut v: Vec<ToolDefinition> = Vec::new();
    v.push(
        ToolDefinition {
            name: "command".to_string(),
            description,
            input_schema: "{\"properties\":{\"cmd_and_args\":{\"description\":\"Command and its arguments as an array. The first element is the command name, followed by the corresponding arguments. Example: [\\\"file\\\", \\\"read\\\", \\\"/path/to/file.txt\\\"]\",\"items\":{\"type\":\"string\"},\"type\":\"array\"}},\"required\":[\"cmd_and_args\"],\"type\":\"object\"}".to_string(),
        },
    );
    v
}

/// The tools of a conversation: with the hand-over commands in a task,
/// with the management commands when it belongs to neither a task nor a schedule.
pub fn list_tools(has_task: bool, has_schedule: bool, shell: ShellKind) -> (r: Vec<ToolDefinition>)
    ensures
        r@.len() == 1,
        r@[0].name@ == "command"@,
        r@[0].description@ == tool_description(has_task, has_schedule, shell),
        r@[0].input_schema@ == command_schema(),
{
    build_tool_definitions(has_task, has_schedule, shell)
}

/// The part of the application that runs a command.
#[derive(Clone, Copy, PartialEq, Eq, Structural)]
pub enum ToolRoute {
    File,
    Skill,
    Mcp,
    Task,
    Schedule,
    Agent,
    ModelProvider,
    /// Anything else runs as a program.
    Shell,
}

/// Where a tool call goes: only the `command` tool exists, it needs a
/// command, and its first word picks the part that runs it.
pub open spec fn spec_route_tool(name: Seq<char>, args: Seq<Seq<char>>) -> Result<ToolRoute, Seq<char>> {
    if name != "command"@ {
        Err("Unknown tool: "@ + name)
    } else if args.len() == 0 {
        Err("No cmd_and_args"@)
    } else {
        let c = args[0];
        Ok(
            if c == "file"@ {
                ToolRoute::File
            } else if c == "skill"@ {
                ToolRoute::Skill
            } else if c == "mcp"@ {
                ToolRoute::Mcp
            } else if c == "task"@ {
                ToolRoute::Task
            } else if c == "schedule"@ {
                ToolRoute::Schedule
            } else if c == "agent"@ {
                ToolRoute::Agent
            } else if c == "model_provider"@ {
                ToolRoute::ModelProvider
            } else {
                ToolRoute::Shell
            },
        )
    }
}

pub open spec fn strings_view(v: Seq<String>) -> Seq<Seq<char>> {
    v.map_values(|s: String| s@)
}

/// Routes a tool call (see `spec_route_tool`); an error is the tool's error output.
pub fn route_tool(name: &str, args: &Vec<String>) -> (r: Result<ToolRoute, String>)
    ensures
        match r {
            Ok(x) => spec_route_tool(name@, strings_view(args@)) == Ok::<ToolRoute, Seq<char>>(x),
            Err(e) => spec_route_tool(name@, strings_view(args@)) == Err::<ToolRoute, Seq<char>>(e@),
        },
{
    if name.to_string() != "command".to_string() {
        let mut m = "Unknown tool: ".to_string();
        push_str(&mut m, name);
        return Err(m);
    }
    if args.len() == 0 {
        return Err("No cmd_and_args".to_string());
    }
    assert(strings_view(args@)[0] == args@[0]@);
    let c = &args[0];
    let route = if *c == "file".to_string() {
        ToolRoute::File
    } else if *c == "skill".to_string() {
        ToolRoute::Skill
    } else if *c == "mcp".to_string() {
        ToolRoute::Mcp
    } else if *c == "task".to_string() {
        ToolRoute::Task
    } else if *c == "schedule".to_string() {
        ToolRoute::Schedule
    } else if *c == "agent".to_string() {
        ToolRoute::Agent
    } else if *c == "model_provider".to_string() {
        ToolRoute::ModelProvider
    } else {
        ToolRoute::Shell
    };
    Ok(route)
}

/// The command words of a tool call: the strings of its `cmd_and_args` array.
pub fn tool_arguments(tool_input: &str) -> (r: Vec<String>)
    ensures
        strings_view(r@) == json_string_items(tool_input@, "cmd_and_args"@),
{
    json_string_items_of(tool_input, "cmd_and_args")
}

/// A file command.
pub enum FileCommand {
    Read { path: String },
    Write { path: String, content: String },
    Edit { path: String, old_str: String, new_str: String },
}

/// The words joined by spaces.
pub open spec fn joined(args: Seq<Seq<char>>) -> Seq<char> {
    spec_join(args, " "@)
}

/// Reads a file command: `file read <path>`, `file write <path> <content>`
/// or `file edit <path> <old_str> <new_str>`; anything else is an unknown
/// file command, reported with its words.
pub open spec fn spec_file_command(args: Seq<Seq<char>>) -> Result<(Seq<char>, Seq<Seq<char>>), Seq<char>> {
    if args.len() == 3 && args[0] == "file"@ && args[1] == "read"@ {
        Ok(("read"@, args.skip(2)))
    } else if args.len() == 4 && args[0] == "file"@ && args[1] == "write"@ {
        Ok(("write"@, args.skip(2)))
    } else if args.len() == 5 && args[0] == "file"@ && args[1] == "edit"@ {
        Ok(("edit"@, args.skip(2)))
    } else {
        Err("Unknown file command: "@ + joined(args))
    }
}

pub open spec fn file_command_view(c: FileCommand) -> (Seq<char>, Seq<Seq<char>>) {
    match c {
        FileCommand::Read { path } => ("read"@, seq![path@]),
        FileCommand::Write { path, content } => ("write"@, seq![path@, content@]),
        FileCommand::Edit { path, old_str, new_str } => ("edit"@, seq![path@, old_str@, new_str@]),
    }
}

/// Parses a file command (see `spec_file_command`).
pub fn parse_file_command(args: &Vec<String>) -> (r: Result<FileCommand, String>)
    ensures
        match r {
            Ok(c) => spec_file_command(strings_view(args@)) == Ok::<(Seq<char>, Seq<Seq<char>>), Seq<char>>(
                file_command_view(c),
            ),
            Err(e) => spec_file_command(strings_view(args@)) == Err::<(Seq<char>, Seq<Seq<char>>), Seq<char>>(e@),
        },
{
    let ghost av = strings_view(args@);
    if args.len() >= 2 {
        assert(av[0] == args@[0]@ && av[1] == args@[1]@);
        if args[0] == "file".to_string() {
            if args.len() == 3 && args[1] == "read".to_string() {
                assert(av.skip(2) =~= seq![args@[2]@]);
                return Ok(FileCommand::Read { path: args[2].clone() });
            }
            if args.len() == 4 && args[1] == "write".to_string() {
                assert(av.skip(2) =~= seq![args@[2]@, args@[3]@]);
                return Ok(FileCommand::Write { path: args[2].clone(), content: args[3].clone() });
            }
            if args.len() == 5 && args[1] == "edit".to_string() {
                assert(av.skip(2) =~= seq![args@[2]@, args@[3]@, args@[4]@]);
                return Ok(FileCommand::Edit { path: args[2].clone(), old_str: args[3].clone(), new_str: args[4].clone() });
            }
        }
    }
    let mut m = "Unknown file command: ".to_string();
    let j = join_with(args, " ");
    push_str(&mut m, j.as_str());
    Err(m)
}

/// Whether `p` occurs in `s` at `i`.
pub open spec fn occurs_at(s: Seq<char>, p: Seq<char>, i: int) -> bool {
    0 <= i && i + p.len() <= s.len() && s.subrange(i, i + p.len()) == p
}

pub open spec fn occurs_in(s: Seq<char>, p: Seq<char>) -> bool {
    exists|i: int| occurs_at(s, p, i)
}

/// `s[i..]` with every occurrence of the non-empty `p` replaced by `q`,
/// scanning left to right without overlaps (as `str::replace`).
pub open spec fn replace_from(s: Seq<char>, p: Seq<char>, q: Seq<char>, i: int) -> Seq<char>
    decreases s.len() - i,
{
    if i < 0 || i >= s.len() || p.len() == 0 {
        Seq::empty()
    } else if occurs_at(s, p, i) {
        q + replace_from(s, p, q, i + p.len())
    } else {
        seq![s[i]] + replace_from(s, p, q, i + 1)
    }
}

/// `q` before every character of `s` and at its end (`str::replace` with an empty pattern).
pub open spec fn interleave(s: Seq<char>, q: Seq<char>) -> Seq<char>
    decreases s.len(),
{
    if s.len() == 0 {
        q
    } else {
        interleave(s.drop_last(), q) + seq![s.last()] + q
    }
}

pub open spec fn spec_replace(s: Seq<char>, p: Seq<char>, q: Seq<char>) -> Seq<char> {
    if p.len() == 0 {
        interleave(s, q)
    } else {
        replace_from(s, p, q, 0)
    }
}

/// The edit of a file's text: every occurrence of `old_str` replaced by
/// `new_str`, or an error when it does not occur.
pub open spec fn spec_edit_text(content: Seq<char>, old_str: Seq<char>, new_str: Seq<char>) -> Result<Seq<char>, Seq<char>> {
    if !occurs_in(content, old_str) {
        Err("Target string not found in file:\n"@ + old_str)
    } else {
        Ok(spec_replace(content, old_str, new_str))
    }
}

proof fn lemma_replace_self_from(s: Seq<char>, p: Seq<char>, i: int)
    requires
        0 <= i <= s.len(),
        p.len() > 0,
    ensures
        replace_from(s, p, p, i) == s.skip(i),
    decreases s.len() - i,
{
    if i < s.len() {
        if occurs_at(s, p, i) {
            lemma_replace_self_from(s, p, i + p.len());
            assert(s.skip(i) =~= s.subrange(i, i + p.len()) + s.skip(i + p.len()));
        } else {
            lemma_replace_self_from(s, p, i + 1);
            assert(s.skip(i) =~= seq![s[i]] + s.skip(i + 1));
        }
    } else {
        assert(s.skip(i) =~= Seq::<char>::empty());
    }
}

proof fn lemma_interleave_empty(s: Seq<char>)
    ensures
        interleave(s, Seq::empty()) == s,
    decreases s.len(),
{
    if s.len() > 0 {
        lemma_interleave_empty(s.drop_last());
        assert(s.drop_last() + seq![s.last()] + Seq::<char>::empty() =~= s);
    }
}

/// Replacing a text by itself leaves the file as it was.
pub proof fn lemma_replace_self(s: Seq<char>, p: Seq<char>)
    ensures
        spec_replace(s, p, p) == s,
{
    if p.len() == 0 {
        assert(p =~= Seq::<char>::empty());
        lemma_interleave_empty(s);
    } else {
        lemma_replace_self_from(s, p, 0);
        assert(s.skip(0) =~= s);
    }
}

fn occurs_at_exec(s: &Vec<char>, p: &Vec<char>, i: usize) -> (r: bool)
    ensures
        r == occurs_at(s@, p@, i as int),
{
    if i > s.len() || s.len() - i < p.len() {
        return false;
    }
    let mut k: usize = 0;
    while k < p.len()
        invariant
            i + p.len() <= s.len(),
            k <= p.len(),
            forall|j: int| 0 <= j < k ==> s@[i + j] == p@[j],
        decreases p.len() - k,
    {
        if s[i + k] != p[k] {
            assert(s@.subrange(i as int, i + p.len())[k as int] != p@[k as int]);
            return false;
        }
        k += 1;
    }
    assert(s@.subrange(i as int, i + p.len()) =~= p@);
    true
}

/// Applies a file edit (see `spec_edit_text`).
pub fn edit_text(content: &str, old_str: &str, new_str: &str) -> (r: Result<String, String>)
    ensures
        match r {
            Ok(t) => spec_edit_text(content@, old_str@, new_str@) == Ok::<Seq<char>, Seq<char>>(t@),
            Err(e) => spec_edit_text(content@, old_str@, new_str@) == Err::<Seq<char>, Seq<char>>(e@),
        },
{
    let s = crate::text::chars_of(content);
    let p = crate::text::chars_of(old_str);
    if p.len() == 0 {
        assert(occurs_at(s@, p@, 0)) by {
            assert(s@.subrange(0, 0) =~= p@);
        }
        let mut out = new_str.to_string();
        let mut i: usize = 0;
        while i < s.len()
            invariant
                i <= s.len(),
                out@ == interleave(s@.take(i as int), new_str@),
            decreases s.len() - i,
        {
            assert(s@.take(i + 1).drop_last() =~= s@.take(i as int));
            crate::text::push_char(&mut out, s[i]);
            push_str(&mut out, new_str);
            assert(out@ =~= interleave(s@.take(i + 1), new_str@));
            i += 1;
        }
        assert(s@.take(s.len() as int) =~= s@);
        return Ok(out);
    }
    let mut found = false;
    let mut out = String::new();
    let mut j: usize = 0;
    while j < s.len()
        invariant
            j <= s.len(),
            p.len() > 0,
            out@ + replace_from(s@, p@, new_str@, j as int) == replace_from(s@, p@, new_str@, 0),
            found ==> occurs_in(s@, p@),
            !found ==> forall|k: int| 0 <= k < j ==> !occurs_at(s@, p@, k),
        decreases s.len() - j,
    {
        let ghost before = out@;
        if occurs_at_exec(&s, &p, j) {
            found = true;
            push_str(&mut out, new_str);
            let ghost nj = j + p.len();
            assert(replace_from(s@, p@, new_str@, j as int) == new_str@ + replace_from(s@, p@, new_str@, nj as int));
            assert(out@ + replace_from(s@, p@, new_str@, nj as int) =~= before + replace_from(s@, p@, new_str@, j as int));
            j = j + p.len();
        } else {
            crate::text::push_char(&mut out, s[j]);
            assert(out@ + replace_from(s@, p@, new_str@, j + 1) =~= before + replace_from(s@, p@, new_str@, j as int));
            j += 1;
        }
    }
    if !found {
        proof {
            assert forall|k: int| !occurs_at(s@, p@, k) by {
                if 0 <= k < s@.len() {
                } else if k >= s@.len() {
                    assert(k + p@.len() > s@.len());
                }
            }
        }
        let mut m = "Target string not found in file:\n".to_string();
        push_str(&mut m, old_str);
        return Err(m);
    }
    assert(out@ + replace_from(s@, p@, new_str@, j as int) =~= out@);
    Ok(out)
}

/// An MCP command.
pub enum McpCommand {
    ServerList,
    ToolList { server_id: i64 },
    ToolInfo { server_id: i64, tool_name: String },
    ToolCall { server_id: i64, tool_name: String, arguments: String },
}

/// What an MCP command line asks for: `mcp server list`,
/// `mcp server <id> tool list`, `mcp server <id> tool <name> info` or
/// `mcp server <id> tool <name> call <json>`; the kind (0 to 3), the
/// server id and the other words.  A server id that is not an integer is
/// an error naming it; any other line is an unknown command.
pub open spec fn spec_mcp_command(args: Seq<Seq<char>>) -> Result<(int, i64, Seq<Seq<char>>), Seq<char>> {
    if args.len() == 3 && args[0] == "mcp"@ && args[1] == "server"@ && args[2] == "list"@ {
        Ok((0, 0, Seq::empty()))
    } else if args.len() >= 5 && args[0] == "mcp"@ && args[1] == "server"@ && args[3] == "tool"@ && ((args.len() == 5
        && args[4] == "list"@) || (args.len() == 6 && args[5] == "info"@) || (args.len() == 7 && args[5] == "call"@)) {
        match spec_parse_i64(args[2]) {
            None => Err("Invalid server id "@ + args[2]),
            Some(id) => if args.len() == 5 {
                Ok((1, id, Seq::empty()))
            } else if args.len() == 6 {
                Ok((2, id, seq![args[4]]))
            } else {
                Ok((3, id, seq![args[4], args[6]]))
            },
        }
    } else {
        Err("Unknown command"@)
    }
}

pub open spec fn mcp_command_view(c: McpCommand) -> (int, i64, Seq<Seq<char>>) {
    match c {
        McpCommand::ServerList => (0, 0, Seq::empty()),
        McpCommand::ToolList { server_id } => (1, server_id, Seq::empty()),
        McpCommand::ToolInfo { server_id, tool_name } => (2, server_id, seq![tool_name@]),
        McpCommand::ToolCall { server_id, tool_name, arguments } => (3, server_id, seq![tool_name@, arguments@]),
    }
}

/// Parses an MCP command (see `spec_mcp_command`).
pub fn parse_mcp_command(args: &Vec<String>) -> (r: Result<McpCommand, String>)
    ensures
        match r {
            Ok(c) => spec_mcp_command(strings_view(args@)) == Ok::<(int, i64, Seq<Seq<char>>), Seq<char>>(
                mcp_command_view(c),
            ),
            Err(e) => spec_mcp_command(strings_view(args@)) == Err::<(int, i64, Seq<Seq<char>>), Seq<char>>(e@),
        },
{
    let ghost av = strings_view(args@);
    let n = args.len();
    if n >= 3 {
        assert(av[0] == args@[0]@ && av[1] == args@[1]@ && av[2] == args@[2]@);
    }
    if n == 3 && args[0] == "mcp".to_string() && args[1] == "server".to_string() && args[2] == "list".to_string() {
        return Ok(McpCommand::ServerList);
    }
    if n >= 5 {
        assert(av[3] == args@[3]@ && av[4] == args@[4]@);
        if n >= 6 {
            assert(av[5] == args@[5]@);
        }
        if n >= 7 {
            assert(av[6] == args@[6]@);
        }
        let shape = args[0] == "mcp".to_string() && args[1] == "server".to_string() && args[3] == "tool".to_string() && (
        (n == 5 && args[4] == "list".to_string()) || (n == 6 && args[5] == "info".to_string()) || (n == 7 && args[5]
            == "call".to_string()));
        if shape {
            match parse_i64(args[2].as_str()) {
                None => {
                    let mut m = "Invalid server id ".to_string();
                    push_str(&mut m, args[2].as_str());
                    return Err(m);
                },
                Some(id) => {
                    if n == 5 {
                        return Ok(McpCommand::ToolList { server_id: id });
                    } else if n == 6 {
                        return Ok(McpCommand::ToolInfo { server_id: id, tool_name: args[4].clone() });
                    } else {
                        return Ok(McpCommand::ToolCall { server_id: id, tool_name: args[4].clone(), arguments: args[6].clone() });
                    }
                },
            }
        }
    }
    Err("Unknown command".to_string())
}

/// A token character of an HTTP header name: a letter, a digit, or one of
/// `` !#$%&'*+-.^_`|~ ``.
pub open spec fn is_header_name_char(c: char) -> bool {
    ('a' <= c && c <= 'z') || ('A' <= c && c <= 'Z') || ('0' <= c && c <= '9') || c == '!' || c == '#'
        || c == '$' || c == '%' || c == '&' || c == '\'' || c == '*' || c == '+' || c == '-' || c == '.'
        || c == '^' || c == '_' || c == '`' || c == '|' || c == '~'
}

/// What `HeaderName::from_str` accepts: 1 to 65535 token characters.
pub open spec fn is_header_name(name: Seq<char>) -> bool {
    1 <= name.len() <= 65535 && forall|i: int| 0 <= i < name.len() ==> is_header_name_char(#[trigger] name[i])
}

/// What `HeaderValue::from_str` accepts: no control character but the tab,
/// and no DEL (every byte of the text is a tab or at least 32, and not 127).
pub open spec fn is_header_value(value: Seq<char>) -> bool {
    forall|i: int|
        0 <= i < value.len() ==> (#[trigger] value[i] == '\t' || (' ' <= value[i] && value[i] != '\u{7f}'))
}

/// Whether `http` accepts a header name (`HeaderName::from_str`).
///
/// Trusted: the result is `is_header_name(name)`, as the crate's table of
/// token bytes and its length limit give it.
#[verifier::external_body]
fn header_name_ok(name: &str) -> (r: bool)
    ensures
        r == is_header_name(name@),
{
    name.parse::<http::HeaderName>().is_ok()
}

/// Whether `http` accepts a header value (`HeaderValue::from_str`).
///
/// Trusted: the result is `is_header_value(value)`, as the crate's byte
/// check gives it.
#[verifier::external_body]
fn header_value_ok(value: &str) -> (r: bool)
    ensures
        r == is_header_value(value@),
{
    value.parse::<http::HeaderValue>().is_ok()
}

/// How an MCP server is reached.
pub enum McpTransport {
    /// A child process.
    Stdio { command: String, args: Vec<String> },
    /// Streamable HTTP with extra headers.
    StreamableHttp { url: String, headers: Vec<(String, String)> },
}

/// The valid headers among the string members of a JSON object, in order.
pub open spec fn valid_headers(members: Seq<(Seq<char>, Seq<char>)>) -> Seq<(Seq<char>, Seq<char>)>
    decreases members.len(),
{
    if members.len() == 0 {
        Seq::empty()
    } else {
        let rest = valid_headers(members.drop_last());
        if is_header_name(members.last().0) && is_header_value(members.last().1) {
            rest.push(members.last())
        } else {
            rest
        }
    }
}

pub open spec fn pairs_view(v: Seq<(String, String)>) -> Seq<(Seq<char>, Seq<char>)> {
    v.map_values(|p: (String, String)| (p.0@, p.1@))
}

/// The transport of a configured MCP server: "stdio" needs a command (its
/// arguments are the strings of the `args` array); "streamable_http"
/// needs a URL (its headers are the valid string members of `headers`);
/// another protocol is unsupported.
pub open spec fn mcp_transport_ok(s: McpServerEntity, r: Result<McpTransport, String>) -> bool {
    if s.protocol_type@ == "stdio"@ {
        match s.command {
            None => r matches Err(e) && e@ == "missing command"@,
            Some(c) => match r {
                Ok(McpTransport::Stdio { command, args }) => command@ == c@ && strings_view(args@) == match s.args {
                    Some(a) => json_array_strings(a@),
                    None => Seq::<Seq<char>>::empty(),
                },
                _ => false,
            },
        }
    } else if s.protocol_type@ == "streamable_http"@ {
        match s.url {
            None => r matches Err(e) && e@ == "missing url"@,
            Some(u) => match r {
                Ok(McpTransport::StreamableHttp { url, headers }) => url@ == u@ && pairs_view(headers@) == match s.headers {
                    Some(h) => valid_headers(json_string_members(h@)),
                    None => Seq::<(Seq<char>, Seq<char>)>::empty(),
                },
                _ => false,
            },
        }
    } else {
        r matches Err(e) && e@ == "unsupported protocol type: "@ + s.protocol_type@
    }
}

/// Decides how to reach an MCP server (see `mcp_transport_ok`).
pub fn mcp_transport(s: &McpServerEntity) -> (r: Result<McpTransport, String>)
    ensures
        mcp_transport_ok(*s, r),
{
    if s.protocol_type == "stdio".to_string() {
        let command = match &s.command {
            Some(c) => c.clone(),
            None => return Err("missing command".to_string()),
        };
        let args = match &s.args {
            Some(a) => json_array_strings_of(a.as_str()),
            None => {
                let v: Vec<String> = Vec::new();
                assert(strings_view(v@) =~= Seq::<Seq<char>>::empty());
                v
            },
        };
        Ok(McpTransport::Stdio { command, args })
    } else if s.protocol_type == "streamable_http".to_string() {
        let url = match &s.url {
            Some(u) => u.clone(),
            None => return Err("missing url".to_string()),
        };
        let mut headers: Vec<(String, String)> = Vec::new();
        match &s.headers {
            Some(h) => {
                let members = json_string_members_of(h.as_str());
                let ghost mv = json_string_members(h@);
                let mut i: usize = 0;
                while i < members.len()
                    invariant
                        i <= members.len(),
                        pairs_view(members@) == mv,
                        pairs_view(headers@) == valid_headers(mv.take(i as int)),
                    decreases members.len() - i,
                {
                    assert(mv.take(i + 1).drop_last() =~= mv.take(i as int));
                    assert(mv.take(i + 1).last() == (members@[i as int].0@, members@[i as int].1@));
                    let (k, v) = (&members[i].0, &members[i].1);
                    if header_name_ok(k.as_str()) && header_value_ok(v.as_str()) {
                        let ghost before = headers@;
                        headers.push((k.clone(), v.clone()));
                        assert(pairs_view(headers@) =~= pairs_view(before).push((k@, v@)));
                    }
                    i += 1;
                }
                assert(mv.take(members.len() as int) =~= mv);
            },
            None => {
                assert(pairs_view(headers@) =~= Seq::<(Seq<char>, Seq<char>)>::empty());
            },
        }
        Ok(McpTransport::StreamableHttp { url, headers })
    } else {
        let mut m = "unsupported protocol type: ".to_string();
        push_str(&mut m, s.protocol_type.as_str());
        Err(m)
    }
}

} // verus!
