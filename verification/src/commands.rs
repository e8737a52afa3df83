//! The management commands of the `command` tool (agents, tasks, schedules,
//! model providers): how their words are read, what a hand-over creates,
//! and the replies once the store has answered.
use vstd::prelude::*;
use crate::entities::AgentEntity;
use crate::json_value::{JsonDoc, json_doc, parse_json_doc, JsonDocView, texts_view};
use crate::numbers::{parse_i64, spec_parse_i64};
use crate::text::{decimal_i64, i64_string, join_with, push_str, spec_join};
use crate::tools::strings_view;
use crate::web_rules::{cron_accepts, cron_parses};

verus! {

/// "Invalid <name>: <value>".
pub open spec fn invalid(name: Seq<char>, value: Seq<char>) -> Seq<char> {
    "Invalid "@ + name + ": "@ + value
}

/// An id argument: an `i64` (`str::parse`), else an error naming it.
pub open spec fn id_arg(s: Seq<char>, name: Seq<char>) -> Result<i64, Seq<char>> {
    match spec_parse_i64(s) {
        Some(v) => Ok(v),
        None => Err(invalid(name, s)),
    }
}

/// A flag argument: exactly "true" or "false" (`str::parse::<bool>`), else an error naming it.
pub open spec fn bool_arg(s: Seq<char>, name: Seq<char>) -> Result<bool, Seq<char>> {
    if s == "true"@ {
        Ok(true)
    } else if s == "false"@ {
        Ok(false)
    } else {
        Err(invalid(name, s))
    }
}

fn invalid_exec(name: &str, value: &str) -> (r: String)
    ensures
        r@ == invalid(name@, value@),
{
    let mut m = "Invalid ".to_string();
    push_str(&mut m, name);
    push_str(&mut m, ": ");
    push_str(&mut m, value);
    m
}

/// Reads an id argument (see `id_arg`).
pub fn parse_id(s: &str, name: &str) -> (r: Result<i64, String>)
    ensures
        match r {
            Ok(v) => id_arg(s@, name@) == Ok::<i64, Seq<char>>(v),
            Err(m) => id_arg(s@, name@) == Err::<i64, Seq<char>>(m@),
        },
{
    match parse_i64(s) {
        Some(v) => Ok(v),
        None => Err(invalid_exec(name, s)),
    }
}

/// Reads a flag argument (see `bool_arg`).
pub fn parse_bool(s: &str, name: &str) -> (r: Result<bool, String>)
    ensures
        match r {
            Ok(b) => bool_arg(s@, name@) == Ok::<bool, Seq<char>>(b),
            Err(m) => bool_arg(s@, name@) == Err::<bool, Seq<char>>(m@),
        },
{
    let t = s.to_string();
    if t == "true".to_string() {
        Ok(true)
    } else if t == "false".to_string() {
        Ok(false)
    } else {
        Err(invalid_exec(name, s))
    }
}

/// "Unknown <kind> command: <the words joined by spaces>".
pub open spec fn unknown(kind: Seq<char>, args: Seq<Seq<char>>) -> Seq<char> {
    "Unknown "@ + kind + " command: "@ + spec_join(args, " "@)
}

fn unknown_exec(kind: &str, args: &Vec<String>) -> (r: String)
    ensures
        r@ == unknown(kind@, strings_view(args@)),
{
    let mut m = "Unknown ".to_string();
    push_str(&mut m, kind);
    push_str(&mut m, " command: ");
    let j = join_with(args, " ");
    push_str(&mut m, j.as_str());
    m
}

/// An agent command.
pub enum AgentCommand {
    List,
    Get { agent_id: i64 },
    Add { name: String, description: String, prompt: String, model_provider_id: i64, model: String, thinking: bool },
    Update {
        agent_id: i64,
        name: String,
        description: String,
        prompt: String,
        model_provider_id: i64,
        model: String,
        thinking: bool,
    },
    Delete { agent_id: i64 },
}

/// An agent command as values: its kind, the id it names (0 when none),
/// its text fields (name, description, prompt, model), model provider id
/// and thinking flag.
pub struct AgentCommandView {
    pub kind: Seq<char>,
    pub agent_id: i64,
    pub texts: Seq<Seq<char>>,
    pub model_provider_id: i64,
    pub thinking: bool,
}

pub open spec fn agent_command_view(c: AgentCommand) -> AgentCommandView {
    match c {
        AgentCommand::List => AgentCommandView { kind: "list"@, agent_id: 0, texts: Seq::empty(), model_provider_id: 0, thinking: false },
        AgentCommand::Get { agent_id } => AgentCommandView {
            kind: "get"@,
            agent_id,
            texts: Seq::empty(),
            model_provider_id: 0,
            thinking: false,
        },
        AgentCommand::Add { name, description, prompt, model_provider_id, model, thinking } => AgentCommandView {
            kind: "add"@,
            agent_id: 0,
            texts: seq![name@, description@, prompt@, model@],
            model_provider_id,
            thinking,
        },
        AgentCommand::Update { agent_id, name, description, prompt, model_provider_id, model, thinking } => AgentCommandView {
            kind: "update"@,
            agent_id,
            texts: seq![name@, description@, prompt@, model@],
            model_provider_id,
            thinking,
        },
        AgentCommand::Delete { agent_id } => AgentCommandView {
            kind: "delete"@,
            agent_id,
            texts: Seq::empty(),
            model_provider_id: 0,
            thinking: false,
        },
    }
}

/// Reads an agent command: `agent list`, `agent get <agent_id>`,
/// `agent add <name> <description> <prompt> <model_provider_id> <model> <thinking>`,
/// `agent update <agent_id> <name> <description> <prompt> <model_provider_id> <model> <thinking>`
/// or `agent delete <agent_id>`; the numbers and the flag are checked in
/// the order they come.
pub open spec fn spec_agent_command(args: Seq<Seq<char>>) -> Result<AgentCommandView, Seq<char>> {
    if args.len() == 2 && args[1] == "list"@ {
        Ok(AgentCommandView { kind: "list"@, agent_id: 0, texts: Seq::empty(), model_provider_id: 0, thinking: false })
    } else if args.len() == 3 && args[1] == "get"@ {
        match id_arg(args[2], "agent_id"@) {
            Ok(id) => Ok(AgentCommandView { kind: "get"@, agent_id: id, texts: Seq::empty(), model_provider_id: 0, thinking: false }),
            Err(m) => Err(m),
        }
    } else if args.len() == 8 && args[1] == "add"@ {
        match id_arg(args[5], "model_provider_id"@) {
            Err(m) => Err(m),
            Ok(p) => match bool_arg(args[7], "thinking"@) {
                Err(m) => Err(m),
                Ok(t) => Ok(
                    AgentCommandView {
                        kind: "add"@,
                        agent_id: 0,
                        texts: seq![args[2], args[3], args[4], args[6]],
                        model_provider_id: p,
                        thinking: t,
                    },
                ),
            },
        }
    } else if args.len() == 9 && args[1] == "update"@ {
        match id_arg(args[2], "agent_id"@) {
            Err(m) => Err(m),
            Ok(id) => match id_arg(args[6], "model_provider_id"@) {
                Err(m) => Err(m),
                Ok(p) => match bool_arg(args[8], "thinking"@) {
                    Err(m) => Err(m),
                    Ok(t) => Ok(
                        AgentCommandView {
                            kind: "update"@,
                            agent_id: id,
                            texts: seq![args[3], args[4], args[5], args[7]],
                            model_provider_id: p,
                            thinking: t,
                        },
                    ),
                },
            },
        }
    } else if args.len() == 3 && args[1] == "delete"@ {
        match id_arg(args[2], "agent_id"@) {
            Ok(id) => Ok(AgentCommandView { kind: "delete"@, agent_id: id, texts: Seq::empty(), model_provider_id: 0, thinking: false }),
            Err(m) => Err(m),
        }
    } else {
        Err(unknown("agent"@, args))
    }
}

fn word_is(args: &Vec<String>, i: usize, w: &str) -> (r: bool)
    requires
        i < args.len(),
    ensures
        r == (strings_view(args@)[i as int] == w@),
{
    args[i] == w.to_string()
}

/// Parses an agent command (see `spec_agent_command`).
pub fn parse_agent_command(args: &Vec<String>) -> (r: Result<AgentCommand, String>)
    ensures
        match r {
            Ok(c) => spec_agent_command(strings_view(args@)) == Ok::<AgentCommandView, Seq<char>>(agent_command_view(c)),
            Err(m) => spec_agent_command(strings_view(args@)) == Err::<AgentCommandView, Seq<char>>(m@),
        },
{
    let ghost av = strings_view(args@);
    let n = args.len();
    if n == 2 && word_is(args, 1, "list") {
        return Ok(AgentCommand::List);
    }
    if n == 3 && word_is(args, 1, "get") {
        return match parse_id(args[2].as_str(), "agent_id") {
            Ok(id) => Ok(AgentCommand::Get { agent_id: id }),
            Err(m) => Err(m),
        };
    }
    if n == 8 && word_is(args, 1, "add") {
        let p = match parse_id(args[5].as_str(), "model_provider_id") {
            Ok(p) => p,
            Err(m) => return Err(m),
        };
        let t = match parse_bool(args[7].as_str(), "thinking") {
            Ok(t) => t,
            Err(m) => return Err(m),
        };
        return Ok(
            AgentCommand::Add {
                name: args[2].clone(),
                description: args[3].clone(),
                prompt: args[4].clone(),
                model_provider_id: p,
                model: args[6].clone(),
                thinking: t,
            },
        );
    }
    if n == 9 && word_is(args, 1, "update") {
        let id = match parse_id(args[2].as_str(), "agent_id") {
            Ok(id) => id,
            Err(m) => return Err(m),
        };
        let p = match parse_id(args[6].as_str(), "model_provider_id") {
            Ok(p) => p,
            Err(m) => return Err(m),
        };
        let t = match parse_bool(args[8].as_str(), "thinking") {
            Ok(t) => t,
            Err(m) => return Err(m),
        };
        return Ok(
            AgentCommand::Update {
                agent_id: id,
                name: args[3].clone(),
                description: args[4].clone(),
                prompt: args[5].clone(),
                model_provider_id: p,
                model: args[7].clone(),
                thinking: t,
            },
        );
    }
    if n == 3 && word_is(args, 1, "delete") {
        return match parse_id(args[2].as_str(), "agent_id") {
            Ok(id) => Ok(AgentCommand::Delete { agent_id: id }),
            Err(m) => Err(m),
        };
    }
    Err(unknown_exec("agent", args))
}

/// The integers of the JSON array items (`None` unless every item is an
/// integer that fits an `i64`).
pub open spec fn int_items(items: Seq<Seq<char>>) -> Option<Seq<i64>>
    decreases items.len(),
{
    if items.len() == 0 {
        Some(Seq::empty())
    } else {
        match int_items(items.drop_last()) {
            None => None,
            Some(rest) => match json_doc(items.last()) {
                Some(JsonDocView::Number(t)) => match spec_parse_i64(t) {
                    Some(v) => Some(rest.push(v)),
                    None => None,
                },
                _ => None,
            },
        }
    }
}

/// A JSON array of `i64` read from text (as `serde_json::from_str::<Vec<i64>>`).
pub open spec fn json_i64_array(text: Seq<char>) -> Option<Seq<i64>> {
    match json_doc(text) {
        Some(JsonDocView::Array(items)) => int_items(items),
        _ => None,
    }
}

/// Reads a JSON array of `i64` (see `json_i64_array`).
pub fn parse_i64_array(text: &str) -> (r: Option<Vec<i64>>)
    ensures
        match r {
            Some(v) => json_i64_array(text@) == Some(v@),
            None => json_i64_array(text@) is None,
        },
{
    let items = match parse_json_doc(text) {
        Some(JsonDoc::Array(items)) => items,
        _ => return None,
    };
    let ghost iv = texts_view(items@);
    let mut out: Vec<i64> = Vec::new();
    let mut i: usize = 0;
    while i < items.len()
        invariant
            i <= items.len(),
            iv == texts_view(items@),
            json_doc(text@) == Some(JsonDocView::Array(iv)),
            int_items(iv.take(i as int)) == Some(out@),
        decreases items.len() - i,
    {
        assert(iv.take(i + 1).drop_last() =~= iv.take(i as int));
        assert(iv.take(i + 1).last() == items@[i as int]@);
        match parse_json_doc(items[i].as_str()) {
            Some(JsonDoc::Number(t)) => match parse_i64(t.as_str()) {
                Some(v) => out.push(v),
                None => {
                    proof {
                        lemma_int_items_none(iv, i as int);
                    }
                    return None;
                },
            },
            _ => {
                proof {
                    lemma_int_items_none(iv, i as int);
                }
                return None;
            },
        }
        i += 1;
    }
    assert(iv.take(items.len() as int) =~= iv);
    Some(out)
}

/// An item that is no integer makes the whole array none.
proof fn lemma_int_items_none(items: Seq<Seq<char>>, i: int)
    requires
        0 <= i < items.len(),
        int_items(items.take(i + 1)) is None,
    ensures
        int_items(items) is None,
    decreases items.len() - i,
{
    if i + 1 < items.len() {
        assert(items.take(i + 2).drop_last() =~= items.take(i + 1));
        lemma_int_items_none(items, i + 1);
    } else {
        assert(items.take(i + 1) =~= items);
    }
}

/// A task command; the hand-over target is read once the task is known.
pub enum TaskCommand {
    Handover { target: String },
    List,
    Get { task_id: i64 },
    Add { title: String, content: String, agent_ids: Vec<i64>, work_dir: String },
    Update { task_id: i64, title: String, content: String, agent_ids: Vec<i64>, work_dir: String },
    Delete { task_id: i64 },
}

/// A task command as values: its kind, the task id (0 when none), its
/// text fields (the target, or title, content and working directory) and
/// the team's agent ids.
pub struct TaskCommandView {
    pub kind: Seq<char>,
    pub task_id: i64,
    pub texts: Seq<Seq<char>>,
    pub agent_ids: Seq<i64>,
}

pub open spec fn task_view(kind: Seq<char>, task_id: i64, texts: Seq<Seq<char>>, agent_ids: Seq<i64>) -> TaskCommandView {
    TaskCommandView { kind, task_id, texts, agent_ids }
}

pub open spec fn task_command_view(c: TaskCommand) -> TaskCommandView {
    match c {
        TaskCommand::Handover { target } => task_view("handover"@, 0, seq![target@], Seq::empty()),
        TaskCommand::List => task_view("list"@, 0, Seq::empty(), Seq::empty()),
        TaskCommand::Get { task_id } => task_view("get"@, task_id, Seq::empty(), Seq::empty()),
        TaskCommand::Add { title, content, agent_ids, work_dir } => task_view(
            "add"@,
            0,
            seq![title@, content@, work_dir@],
            agent_ids@,
        ),
        TaskCommand::Update { task_id, title, content, agent_ids, work_dir } => task_view(
            "update"@,
            task_id,
            seq![title@, content@, work_dir@],
            agent_ids@,
        ),
        TaskCommand::Delete { task_id } => task_view("delete"@, task_id, Seq::empty(), Seq::empty()),
    }
}

/// Reads a task command: `task handover <agent_id|user>`, `task list`,
/// `task get <task_id>`, `task add <title> <content> <agent_ids> <work_dir>`,
/// `task update <task_id> <title> <content> <agent_ids> <work_dir>` or
/// `task delete <task_id>`; the agent ids are a JSON array of integers.
pub open spec fn spec_task_command(args: Seq<Seq<char>>) -> Result<TaskCommandView, Seq<char>> {
    let is_task = args.len() >= 2 && args[0] == "task"@;
    if is_task && args.len() == 3 && args[1] == "handover"@ {
        Ok(task_view("handover"@, 0, seq![args[2]], Seq::empty()))
    } else if is_task && args.len() == 2 && args[1] == "list"@ {
        Ok(task_view("list"@, 0, Seq::empty(), Seq::empty()))
    } else if is_task && args.len() == 3 && args[1] == "get"@ {
        match id_arg(args[2], "task_id"@) {
            Ok(id) => Ok(task_view("get"@, id, Seq::empty(), Seq::empty())),
            Err(m) => Err(m),
        }
    } else if is_task && args.len() == 6 && args[1] == "add"@ {
        match json_i64_array(args[4]) {
            None => Err("Invalid agent_ids JSON array: "@ + args[4]),
            Some(ids) => Ok(task_view("add"@, 0, seq![args[2], args[3], args[5]], ids)),
        }
    } else if is_task && args.len() == 7 && args[1] == "update"@ {
        match id_arg(args[2], "task_id"@) {
            Err(m) => Err(m),
            Ok(id) => match json_i64_array(args[5]) {
                None => Err("Invalid agent_ids JSON array: "@ + args[5]),
                Some(ids) => Ok(task_view("update"@, id, seq![args[3], args[4], args[6]], ids)),
            },
        }
    } else if is_task && args.len() == 3 && args[1] == "delete"@ {
        match id_arg(args[2], "task_id"@) {
            Ok(id) => Ok(task_view("delete"@, id, Seq::empty(), Seq::empty())),
            Err(m) => Err(m),
        }
    } else {
        Err(unknown("task"@, args))
    }
}

fn invalid_ids(text: &str) -> (r: String)
    ensures
        r@ == "Invalid agent_ids JSON array: "@ + text@,
{
    let mut m = "Invalid agent_ids JSON array: ".to_string();
    push_str(&mut m, text);
    m
}


/// `task update <task_id> <title> <content> <agent_ids> <work_dir>` gives
/// an update whose title is the fourth word and whose content the fifth,
/// with the same texts and agent ids as `task add` reads from the same
/// words without the id.
pub proof fn lemma_task_update_fields(args: Seq<Seq<char>>, c: TaskCommand)
    requires
        args.len() == 7,
        args[0] == "task"@,
        args[1] == "update"@,
        spec_task_command(args) == Ok::<TaskCommandView, Seq<char>>(task_command_view(c)),
    ensures
        c matches TaskCommand::Update { task_id, title, content, agent_ids, work_dir } && spec_parse_i64(args[2])
            == Some(task_id) && title@ == args[3] && content@ == args[4] && json_i64_array(args[5]) == Some(
            agent_ids@,
        ) && work_dir@ == args[6],
        spec_task_command(seq!["task"@, "add"@] + args.subrange(3, 7)) == Ok::<TaskCommandView, Seq<char>>(
            task_view("add"@, 0, task_command_view(c).texts, task_command_view(c).agent_ids),
        ),
{
    reveal_strlit("task");
    reveal_strlit("update");
    reveal_strlit("add");
    reveal_strlit("handover");
    reveal_strlit("list");
    reveal_strlit("get");
    reveal_strlit("delete");
    let v = task_command_view(c);
    match c {
        TaskCommand::Update { task_id, title, content, agent_ids, work_dir } => {
            assert(v.texts == seq![args[3], args[4], args[6]]);
            assert(v.texts[0] == title@ && v.texts[1] == content@ && v.texts[2] == work_dir@);
        },
        _ => {
            assert("update"@.len() == 6 && "update"@[0] == 'u');
            assert("handover"@.len() == 8 && "list"@.len() == 4 && "get"@.len() == 3 && "add"@.len() == 3);
            assert("delete"@[0] == 'd');
            assert(v.kind != "update"@);
        },
    }
    let a = seq!["task"@, "add"@] + args.subrange(3, 7);
    assert(a.len() == 6);
    assert(a[0] == "task"@ && a[1] == "add"@);
    assert(a[2] == args[3] && a[3] == args[4] && a[4] == args[5] && a[5] == args[6]);
}

/// Parses a task command (see `spec_task_command`).
pub fn parse_task_command(args: &Vec<String>) -> (r: Result<TaskCommand, String>)
    ensures
        match r {
            Ok(c) => spec_task_command(strings_view(args@)) == Ok::<TaskCommandView, Seq<char>>(task_command_view(c)),
            Err(m) => spec_task_command(strings_view(args@)) == Err::<TaskCommandView, Seq<char>>(m@),
        },
{
    let n = args.len();
    let is_task = n >= 2 && word_is(args, 0, "task");
    if is_task && n == 3 && word_is(args, 1, "handover") {
        return Ok(TaskCommand::Handover { target: args[2].clone() });
    }
    if is_task && n == 2 && word_is(args, 1, "list") {
        return Ok(TaskCommand::List);
    }
    if is_task && n == 3 && word_is(args, 1, "get") {
        return match parse_id(args[2].as_str(), "task_id") {
            Ok(id) => Ok(TaskCommand::Get { task_id: id }),
            Err(m) => Err(m),
        };
    }
    if is_task && n == 6 && word_is(args, 1, "add") {
        return match parse_i64_array(args[4].as_str()) {
            None => Err(invalid_ids(args[4].as_str())),
            Some(ids) => Ok(TaskCommand::Add { title: args[2].clone(), content: args[3].clone(), agent_ids: ids, work_dir: args[5].clone() }),
        };
    }
    if is_task && n == 7 && word_is(args, 1, "update") {
        let id = match parse_id(args[2].as_str(), "task_id") {
            Ok(id) => id,
            Err(m) => return Err(m),
        };
        return match parse_i64_array(args[5].as_str()) {
            None => Err(invalid_ids(args[5].as_str())),
            Some(ids) => Ok(
                TaskCommand::Update { task_id: id, title: args[3].clone(), content: args[4].clone(), agent_ids: ids, work_dir: args[6].clone() },
            ),
        };
    }
    if is_task && n == 3 && word_is(args, 1, "delete") {
        return match parse_id(args[2].as_str(), "task_id") {
            Ok(id) => Ok(TaskCommand::Delete { task_id: id }),
            Err(m) => Err(m),
        };
    }
    Err(unknown_exec("task", args))
}

/// A stage conversation a hand-over creates.
pub struct NewStage {
    pub title: String,
    pub system_prompt: String,
    pub agent_id: Option<i64>,
}

/// The stage a hand-over to the user creates: `<title>-User`, with no prompt and no agent.
pub fn handover_to_user(task_title: &str) -> (r: NewStage)
    ensures
        r.title@ == task_title@ + "-User"@,
        r.system_prompt@.len() == 0,
        r.agent_id is None,
{
    let mut t = task_title.to_string();
    push_str(&mut t, "-User");
    NewStage { title: t, system_prompt: String::new(), agent_id: None }
}

fn contains_i64(v: &Vec<i64>, x: i64) -> (r: bool)
    ensures
        r == v@.contains(x),
{
    let mut i: usize = 0;
    while i < v.len()
        invariant
            i <= v.len(),
            forall|k: int| 0 <= k < i ==> v@[k] != x,
        decreases v.len() - i,
    {
        if v[i] == x {
            assert(v@[i as int] == x);
            return true;
        }
        i += 1;
    }
    false
}

/// The stage a hand-over to an agent creates: the agent must exist and be
/// in the task's team; the stage is `<title>-<agent name>` with the agent's prompt.
pub fn handover_to_agent(task_title: &str, team: &Vec<i64>, agent_id: i64, agent: Option<&AgentEntity>) -> (r: Result<NewStage, String>)
    ensures
        match r {
            Ok(s) => agent matches Some(a) && team@.contains(agent_id) && s.title@ == task_title@ + "-"@ + a.name@
                && s.system_prompt@ == a.prompt@ && s.agent_id == Some(agent_id),
            Err(m) => (agent is None || !team@.contains(agent_id)) && m@ == "Agent not found in task team: "@ + decimal_i64(agent_id),
        },
{
    let found = match agent {
        Some(a) => contains_i64(team, agent_id),
        None => false,
    };
    if !found {
        let mut m = "Agent not found in task team: ".to_string();
        let d = i64_string(agent_id);
        push_str(&mut m, d.as_str());
        return Err(m);
    }
    match agent {
        Some(a) => {
            let mut t = task_title.to_string();
            push_str(&mut t, "-");
            push_str(&mut t, a.name.as_str());
            Ok(NewStage { title: t, system_prompt: a.prompt.clone(), agent_id: Some(agent_id) })
        },
        None => Err(String::new()),
    }
}

/// The reply of a hand-over, to an agent by name or to the user.
pub fn handover_reply(agent_name: Option<&str>) -> (r: String)
    ensures
        r@ == match agent_name {
            Some(n) => "Task handed over to agent "@ + n@ + ", please summarize the current progress"@,
            None => "Task handed over to the user, please summarize the current progress"@,
        },
{
    match agent_name {
        Some(n) => {
            let mut m = "Task handed over to agent ".to_string();
            push_str(&mut m, n);
            push_str(&mut m, ", please summarize the current progress");
            m
        },
        None => "Task handed over to the user, please summarize the current progress".to_string(),
    }
}

/// The error of a hand-over outside a task.
pub fn not_in_task() -> (r: String)
    ensures
        r@ == "Not in a task context, cannot hand over"@,
{
    "Not in a task context, cannot hand over".to_string()
}

/// A schedule command.
pub enum ScheduleCommand {
    List,
    Get { schedule_id: i64 },
    Add { name: String, content: String, work_dir: String, cron_expr: String, agent_id: i64 },
    Update {
        schedule_id: i64,
        name: String,
        content: String,
        work_dir: String,
        cron_expr: String,
        agent_id: i64,
        enabled: bool,
    },
    Delete { schedule_id: i64 },
}

/// A schedule command as values: its kind, the schedule id and agent id
/// (0 when none), its text fields (name, content, working directory, cron
/// expression) and its enabled flag.
pub struct ScheduleCommandView {
    pub kind: Seq<char>,
    pub schedule_id: i64,
    pub agent_id: i64,
    pub texts: Seq<Seq<char>>,
    pub enabled: bool,
}

pub open spec fn schedule_view(kind: Seq<char>, schedule_id: i64, agent_id: i64, texts: Seq<Seq<char>>, enabled: bool) -> ScheduleCommandView {
    ScheduleCommandView { kind, schedule_id, agent_id, texts, enabled }
}

pub open spec fn schedule_command_view(c: ScheduleCommand) -> ScheduleCommandView {
    match c {
        ScheduleCommand::List => schedule_view("list"@, 0, 0, Seq::empty(), false),
        ScheduleCommand::Get { schedule_id } => schedule_view("get"@, schedule_id, 0, Seq::empty(), false),
        ScheduleCommand::Add { name, content, work_dir, cron_expr, agent_id } => schedule_view(
            "add"@,
            0,
            agent_id,
            seq![name@, content@, work_dir@, cron_expr@],
            false,
        ),
        ScheduleCommand::Update { schedule_id, name, content, work_dir, cron_expr, agent_id, enabled } => schedule_view(
            "update"@,
            schedule_id,
            agent_id,
            seq![name@, content@, work_dir@, cron_expr@],
            enabled,
        ),
        ScheduleCommand::Delete { schedule_id } => schedule_view("delete"@, schedule_id, 0, Seq::empty(), false),
    }
}

/// Reads a schedule command: `schedule list`, `schedule get <schedule_id>`,
/// `schedule add <name> <content> <work_dir> <cron_expr> <agent_id>`,
/// `schedule update <schedule_id> <name> <content> <work_dir> <cron_expr> <agent_id> <enabled>`
/// or `schedule delete <schedule_id>`; the cron expression must parse, and
/// the arguments are checked in the order they come.
pub open spec fn spec_schedule_command(args: Seq<Seq<char>>) -> Result<ScheduleCommandView, Seq<char>> {
    if args.len() == 2 && args[1] == "list"@ {
        Ok(schedule_view("list"@, 0, 0, Seq::empty(), false))
    } else if args.len() == 3 && args[1] == "get"@ {
        match id_arg(args[2], "schedule_id"@) {
            Ok(id) => Ok(schedule_view("get"@, id, 0, Seq::empty(), false)),
            Err(m) => Err(m),
        }
    } else if args.len() == 7 && args[1] == "add"@ {
        if !cron_accepts(args[5]) {
            Err(invalid("cron_expr"@, args[5]))
        } else {
            match id_arg(args[6], "agent_id"@) {
                Err(m) => Err(m),
                Ok(a) => Ok(schedule_view("add"@, 0, a, seq![args[2], args[3], args[4], args[5]], false)),
            }
        }
    } else if args.len() == 9 && args[1] == "update"@ {
        match id_arg(args[2], "schedule_id"@) {
            Err(m) => Err(m),
            Ok(id) => if !cron_accepts(args[6]) {
                Err(invalid("cron_expr"@, args[6]))
            } else {
                match id_arg(args[7], "agent_id"@) {
                    Err(m) => Err(m),
                    Ok(a) => match bool_arg(args[8], "enabled"@) {
                        Err(m) => Err(m),
                        Ok(e) => Ok(schedule_view("update"@, id, a, seq![args[3], args[4], args[5], args[6]], e)),
                    },
                }
            },
        }
    } else if args.len() == 3 && args[1] == "delete"@ {
        match id_arg(args[2], "schedule_id"@) {
            Ok(id) => Ok(schedule_view("delete"@, id, 0, Seq::empty(), false)),
            Err(m) => Err(m),
        }
    } else {
        Err(unknown("schedule"@, args))
    }
}

/// Parses a schedule command (see `spec_schedule_command`).
pub fn parse_schedule_command(args: &Vec<String>) -> (r: Result<ScheduleCommand, String>)
    ensures
        match r {
            Ok(c) => spec_schedule_command(strings_view(args@)) == Ok::<ScheduleCommandView, Seq<char>>(schedule_command_view(c)),
            Err(m) => spec_schedule_command(strings_view(args@)) == Err::<ScheduleCommandView, Seq<char>>(m@),
        },
{
    let n = args.len();
    if n == 2 && word_is(args, 1, "list") {
        return Ok(ScheduleCommand::List);
    }
    if n == 3 && word_is(args, 1, "get") {
        return match parse_id(args[2].as_str(), "schedule_id") {
            Ok(id) => Ok(ScheduleCommand::Get { schedule_id: id }),
            Err(m) => Err(m),
        };
    }
    if n == 7 && word_is(args, 1, "add") {
        if !cron_parses(args[5].as_str()) {
            return Err(invalid_exec("cron_expr", args[5].as_str()));
        }
        return match parse_id(args[6].as_str(), "agent_id") {
            Err(m) => Err(m),
            Ok(a) => Ok(
                ScheduleCommand::Add {
                    name: args[2].clone(),
                    content: args[3].clone(),
                    work_dir: args[4].clone(),
                    cron_expr: args[5].clone(),
                    agent_id: a,
                },
            ),
        };
    }
    if n == 9 && word_is(args, 1, "update") {
        let id = match parse_id(args[2].as_str(), "schedule_id") {
            Ok(id) => id,
            Err(m) => return Err(m),
        };
        if !cron_parses(args[6].as_str()) {
            return Err(invalid_exec("cron_expr", args[6].as_str()));
        }
        let a = match parse_id(args[7].as_str(), "agent_id") {
            Ok(a) => a,
            Err(m) => return Err(m),
        };
        let e = match parse_bool(args[8].as_str(), "enabled") {
            Ok(e) => e,
            Err(m) => return Err(m),
        };
        return Ok(
            ScheduleCommand::Update {
                schedule_id: id,
                name: args[3].clone(),
                content: args[4].clone(),
                work_dir: args[5].clone(),
                cron_expr: args[6].clone(),
                agent_id: a,
                enabled: e,
            },
        );
    }
    if n == 3 && word_is(args, 1, "delete") {
        return match parse_id(args[2].as_str(), "schedule_id") {
            Ok(id) => Ok(ScheduleCommand::Delete { schedule_id: id }),
            Err(m) => Err(m),
        };
    }
    Err(unknown_exec("schedule", args))
}

/// Checks a model provider command: only `model_provider list` exists.
pub fn check_model_provider_command(args: &Vec<String>) -> (r: Result<(), String>)
    ensures
        match r {
            Ok(_) => strings_view(args@) == seq!["model_provider"@, "list"@],
            Err(m) => strings_view(args@) != seq!["model_provider"@, "list"@] && m@ == unknown("model_provider"@, strings_view(args@)),
        },
{
    if args.len() == 2 && word_is(args, 0, "model_provider") && word_is(args, 1, "list") {
        assert(strings_view(args@) =~= seq!["model_provider"@, "list"@]);
        return Ok(());
    }
    proof {
        if strings_view(args@) == seq!["model_provider"@, "list"@] {
            assert(strings_view(args@)[0] == "model_provider"@);
            assert(strings_view(args@)[1] == "list"@);
        }
    }
    Err(unknown_exec("model_provider", args))
}

/// What a management command's store operation is about.
#[derive(Clone, Copy, PartialEq, Eq, Structural)]
pub enum Noun {
    Agent,
    Task,
    Schedule,
}

/// The operation that failed.
#[derive(Clone, Copy, PartialEq, Eq, Structural)]
pub enum StoreAction {
    Add,
    Update,
    Delete,
}

/// How the store answered a management command.
pub enum StoreOutcome {
    Added(i64),
    Updated(i64),
    Deleted(i64),
    NotFound(i64),
    /// The record is still used elsewhere and cannot be deleted.
    Referenced(i64),
    Failed { action: StoreAction, error: String },
    /// Reading the store failed.
    DbError(String),
}

pub open spec fn noun_name(n: Noun) -> Seq<char> {
    match n {
        Noun::Agent => "Agent"@,
        Noun::Task => "Task"@,
        Noun::Schedule => "Schedule"@,
    }
}

pub open spec fn noun_word(n: Noun) -> Seq<char> {
    match n {
        Noun::Agent => "agent"@,
        Noun::Task => "task"@,
        Noun::Schedule => "schedule"@,
    }
}

pub open spec fn action_word(a: StoreAction) -> Seq<char> {
    match a {
        StoreAction::Add => "add"@,
        StoreAction::Update => "update"@,
        StoreAction::Delete => "delete"@,
    }
}

/// The reply to a management command once the store answered, and whether it is an error.
pub open spec fn spec_store_reply(n: Noun, o: StoreOutcome) -> (Seq<char>, bool) {
    match o {
        StoreOutcome::Added(id) => (noun_name(n) + " added with id "@ + decimal_i64(id), false),
        StoreOutcome::Updated(id) => (noun_name(n) + " "@ + decimal_i64(id) + " updated"@, false),
        StoreOutcome::Deleted(id) => (noun_name(n) + " "@ + decimal_i64(id) + " deleted"@, false),
        StoreOutcome::NotFound(id) => (noun_name(n) + " not found: "@ + decimal_i64(id), true),
        StoreOutcome::Referenced(id) => (
            noun_name(n) + " "@ + decimal_i64(id) + " is referenced by conversations/schedules"@,
            true,
        ),
        StoreOutcome::Failed { action, error } => (
            "Failed to "@ + action_word(action) + " "@ + noun_word(n) + ": "@ + error@,
            true,
        ),
        StoreOutcome::DbError(e) => ("Database error: "@ + e@, true),
    }
}

/// The reply to a management command (see `spec_store_reply`).
pub fn store_reply(n: Noun, o: &StoreOutcome) -> (r: (String, bool))
    ensures
        (r.0@, r.1) == spec_store_reply(n, *o),
{
    let name = match n {
        Noun::Agent => "Agent",
        Noun::Task => "Task",
        Noun::Schedule => "Schedule",
    };
    let word = match n {
        Noun::Agent => "agent",
        Noun::Task => "task",
        Noun::Schedule => "schedule",
    };
    match o {
        StoreOutcome::Added(id) => {
            let mut m = name.to_string();
            push_str(&mut m, " added with id ");
            push_str(&mut m, i64_string(*id).as_str());
            (m, false)
        },
        StoreOutcome::Updated(id) => {
            let mut m = name.to_string();
            push_str(&mut m, " ");
            push_str(&mut m, i64_string(*id).as_str());
            push_str(&mut m, " updated");
            (m, false)
        },
        StoreOutcome::Deleted(id) => {
            let mut m = name.to_string();
            push_str(&mut m, " ");
            push_str(&mut m, i64_string(*id).as_str());
            push_str(&mut m, " deleted");
            (m, false)
        },
        StoreOutcome::NotFound(id) => {
            let mut m = name.to_string();
            push_str(&mut m, " not found: ");
            push_str(&mut m, i64_string(*id).as_str());
            (m, true)
        },
        StoreOutcome::Referenced(id) => {
            let mut m = name.to_string();
            push_str(&mut m, " ");
            push_str(&mut m, i64_string(*id).as_str());
            push_str(&mut m, " is referenced by conversations/schedules");
            (m, true)
        },
        StoreOutcome::Failed { action, error } => {
            let mut m = "Failed to ".to_string();
            push_str(
                &mut m,
                match action {
                    StoreAction::Add => "add",
                    StoreAction::Update => "update",
                    StoreAction::Delete => "delete",
                },
            );
            push_str(&mut m, " ");
            push_str(&mut m, word);
            push_str(&mut m, ": ");
            push_str(&mut m, error.as_str());
            (m, true)
        },
        StoreOutcome::DbError(e) => {
            let mut m = "Database error: ".to_string();
            push_str(&mut m, e.as_str());
            (m, true)
        },
    }
}

} // verus!
