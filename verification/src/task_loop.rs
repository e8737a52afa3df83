//! The multi-agent task loop: which stage conversation runs next, what it
//! is told, and when the loop ends.
use vstd::prelude::*;
use crate::entities::{AgentEntity, LatestConversationState};
use crate::json_value::{JsonScalar, JsonScalarView, fields_view, json_object, json_object_array, json_object_array_of, json_object_of, json_string, json_string_of, objects_view};
use crate::pi_types::{Message, MessageView, assistant_message_text, spec_last_text, spec_user_message_text, user_message_text};
use crate::text::{join_with, push_str, spec_join};

verus! {

/// How many times in a row a stage may end without handing over before
/// the task fails.
pub const MAX_HANDOVER_REMINDERS: u32 = 3;

/// What the loop remembers between rounds.
pub struct TaskLoopState {
    pub prev_conversation_id: Option<i64>,
    pub consecutive_reminders: u32,
}

/// What a round does.
#[derive(Clone, Copy, PartialEq, Eq, Structural)]
pub enum RoundDecision {
    /// Stop was asked for: the task is marked failed.
    Stopped,
    /// The task or its stages are gone: the loop ends.
    Gone,
    /// The stage kept ending without handing over: the task is marked failed.
    ReminderLimit,
    /// The latest stage belongs to the user: the task goes to review.
    UserReview,
    /// The agent of the latest stage runs; `reminder` says the round only
    /// reminds it to hand over.
    Run { conversation_id: i64, agent_id: i64, reminder: bool },
}

impl TaskLoopState {
    /// The state of a loop that has not run a round.
    pub fn new() -> (r: TaskLoopState)
        ensures
            r.prev_conversation_id is None,
            r.consecutive_reminders == 0,
    {
        TaskLoopState { prev_conversation_id: None, consecutive_reminders: 0 }
    }
}

/// The reminder count after seeing `latest`: reset when the stage changed,
/// then counted up when the stage has messages and an agent (it ended
/// without handing over).
pub open spec fn next_reminders(prev: Option<i64>, count: u32, latest: LatestConversationState) -> int {
    let base: int = if prev != Some(latest.id) {
        0
    } else {
        count as int
    };
    if latest.has_messages && latest.agent_id is Some {
        base + 1
    } else {
        base
    }
}

/// The decision of a round: a stop request first, then a missing task or
/// stage, then too many reminders, then a user stage, else the stage's agent runs.
pub open spec fn spec_next_round(
    prev: Option<i64>,
    count: u32,
    stop_requested: bool,
    task_exists: bool,
    latest: Option<LatestConversationState>,
) -> RoundDecision {
    if stop_requested {
        RoundDecision::Stopped
    } else if !task_exists {
        RoundDecision::Gone
    } else {
        match latest {
            None => RoundDecision::Gone,
            Some(l) => {
                let reminder = l.has_messages && l.agent_id is Some;
                if next_reminders(prev, count, l) > MAX_HANDOVER_REMINDERS {
                    RoundDecision::ReminderLimit
                } else {
                    match l.agent_id {
                        None => RoundDecision::UserReview,
                        Some(a) => RoundDecision::Run { conversation_id: l.id, agent_id: a, reminder },
                    }
                }
            },
        }
    }
}

/// The state after running the latest stage: that stage and its reminder count.
pub open spec fn recorded(
    latest: Option<LatestConversationState>,
    prev: Option<i64>,
    count: u32,
    new_prev: Option<i64>,
    new_count: u32,
) -> bool {
    match latest {
        Some(l) => new_prev == Some(l.id) && new_count == next_reminders(prev, count, l),
        None => false,
    }
}

/// Decides a round (see `spec_next_round`) and records the stage seen.
pub fn next_round(
    state: &mut TaskLoopState,
    stop_requested: bool,
    task_exists: bool,
    latest: Option<LatestConversationState>,
) -> (r: RoundDecision)
    requires
        old(state).consecutive_reminders <= MAX_HANDOVER_REMINDERS,
    ensures
        r == spec_next_round(
            old(state).prev_conversation_id,
            old(state).consecutive_reminders,
            stop_requested,
            task_exists,
            latest,
        ),
        final(state).consecutive_reminders <= MAX_HANDOVER_REMINDERS || !(r is Run),
        r is Run ==> recorded(
            latest,
            old(state).prev_conversation_id,
            old(state).consecutive_reminders,
            final(state).prev_conversation_id,
            final(state).consecutive_reminders,
        ),
{
    if stop_requested {
        return RoundDecision::Stopped;
    }
    if !task_exists {
        return RoundDecision::Gone;
    }
    let l = match latest {
        None => return RoundDecision::Gone,
        Some(l) => l,
    };
    if state.prev_conversation_id != Some(l.id) {
        state.prev_conversation_id = Some(l.id);
        state.consecutive_reminders = 0;
    }
    let reminder = l.has_messages && l.agent_id.is_some();
    if reminder {
        state.consecutive_reminders = state.consecutive_reminders + 1;
        if state.consecutive_reminders > MAX_HANDOVER_REMINDERS {
            return RoundDecision::ReminderLimit;
        }
    }
    match l.agent_id {
        None => RoundDecision::UserReview,
        Some(a) => RoundDecision::Run { conversation_id: l.id, agent_id: a, reminder },
    }
}

/// A stage that ends without handing over once more after the last
/// allowed reminder ends the task.
pub proof fn lemma_reminder_limit(l: LatestConversationState)
    requires
        l.has_messages,
        l.agent_id is Some,
    ensures
        spec_next_round(Some(l.id), MAX_HANDOVER_REMINDERS, false, true, Some(l)) == RoundDecision::ReminderLimit,
{
}

/// After a hand-over (the latest stage changed) the reminder count starts
/// again, so the new stage is never cut off by the limit.
pub proof fn lemma_handover_resets(prev: Option<i64>, count: u32, l: LatestConversationState)
    requires
        prev != Some(l.id),
    ensures
        spec_next_round(prev, count, false, true, Some(l)) != RoundDecision::ReminderLimit,
        next_reminders(prev, count, l) <= 1,
{
}

/// What a reminder round tells the agent.
pub open spec fn handover_reminder() -> Seq<char> {
    "[System] Your previous turn ended without handing over the task. You must call the handover tool now: use `task handover <agent_id>` to hand over to a teammate, or `task handover user` to hand over to the user for review."@
}

/// The closing section of a task prompt.
pub open spec fn handover_section() -> Seq<char> {
    "# Handover\nWhen your work is done, you must call the handover tool: use `task handover <agent_id>` to hand over to a teammate, or `task handover user` to hand over to the user for review. Do not end your turn without handing over."@
}

/// The text a reminder round sends.
pub fn handover_reminder_text() -> (r: String)
    ensures
        r@ == handover_reminder(),
{
    "[System] Your previous turn ended without handing over the task. You must call the handover tool now: use `task handover <agent_id>` to hand over to a teammate, or `task handover user` to hand over to the user for review.".to_string()
}

/// The last message of an earlier stage.
pub enum LastMessage {
    /// The stage has no message: it is left out of the history.
    Missing,
    /// The message could not be read.
    Unreadable,
    Read(Message),
}

/// A stage of the history: its agent's name (none for the user) and last message.
pub struct HistoryItem {
    pub agent_name: Option<String>,
    pub last: LastMessage,
}

/// The text a stage contributes: a user's text, or the last text block of
/// a reply; nothing for other or unreadable messages.
pub open spec fn history_text(m: LastMessage) -> Seq<char> {
    match m {
        LastMessage::Read(msg) => match msg@ {
            MessageView::User(u) => spec_user_message_text(u.content),
            MessageView::Assistant(a) => spec_last_text(a.content),
            _ => Seq::empty(),
        },
        _ => Seq::empty(),
    }
}

/// "## <name>\n<text as a JSON string>" for each stage with a message
/// ("User" when the stage has no agent).
pub open spec fn history_sections(items: Seq<HistoryItem>) -> Seq<Seq<char>>
    decreases items.len(),
{
    if items.len() == 0 {
        Seq::empty()
    } else {
        let rest = history_sections(items.drop_last());
        let it = items.last();
        match it.last {
            LastMessage::Missing => rest,
            _ => rest.push(
                "## "@ + (match it.agent_name {
                    Some(n) => n@,
                    None => "User"@,
                }) + "\n"@ + json_string(history_text(it.last)),
            ),
        }
    }
}

/// The agents of the task's team, in the order they are listed.
pub open spec fn team_of(agents: Seq<AgentEntity>, ids: Seq<i64>) -> Seq<AgentEntity>
    decreases agents.len(),
{
    if agents.len() == 0 {
        Seq::empty()
    } else {
        let rest = team_of(agents.drop_last(), ids);
        if ids.contains(agents.last().id) {
            rest.push(agents.last())
        } else {
            rest
        }
    }
}

pub open spec fn member_fields(a: AgentEntity) -> Seq<(Seq<char>, JsonScalarView)> {
    seq![
        ("id"@, JsonScalarView::Int(a.id)),
        ("name"@, JsonScalarView::Str(a.name@)),
        ("description"@, JsonScalarView::Str(a.description@)),
    ]
}

/// The prompt of a regular round: the task, the team, the history of the
/// stages and the hand-over instruction, separated by blank lines.
pub open spec fn spec_task_prompt(
    title: Seq<char>,
    content: Seq<char>,
    agents: Seq<AgentEntity>,
    team_ids: Seq<i64>,
    history: Seq<HistoryItem>,
) -> Seq<char> {
    let task = "# Task\n"@ + json_object(
        seq![("title"@, JsonScalarView::Str(title)), ("content"@, JsonScalarView::Str(content))],
    );
    let team = "# Team\n"@ + json_object_array(team_of(agents, team_ids).map_values(|a: AgentEntity| member_fields(a)));
    spec_join(seq![task, team, "# History"@] + history_sections(history) + seq![handover_section()], "\n\n"@)
}

fn contains_id(ids: &Vec<i64>, id: i64) -> (r: bool)
    ensures
        r == ids@.contains(id),
{
    let mut i: usize = 0;
    while i < ids.len()
        invariant
            i <= ids.len(),
            forall|k: int| 0 <= k < i ==> ids@[k] != id,
        decreases ids.len() - i,
    {
        if ids[i] == id {
            assert(ids@[i as int] == id);
            return true;
        }
        i += 1;
    }
    false
}

fn history_text_exec(m: &LastMessage) -> (r: String)
    ensures
        r@ == history_text(*m),
{
    match m {
        LastMessage::Read(msg) => match msg {
            Message::User(u) => user_message_text(&u.content),
            Message::Assistant(a) => assistant_message_text(a),
            _ => String::new(),
        },
        _ => String::new(),
    }
}

/// Builds the prompt of a regular round (see `spec_task_prompt`).
pub fn task_prompt(
    title: &str,
    content: &str,
    agents: &Vec<AgentEntity>,
    team_ids: &Vec<i64>,
    history: &Vec<HistoryItem>,
) -> (r: String)
    ensures
        r@ == spec_task_prompt(title@, content@, agents@, team_ids@, history@),
{
    let mut parts: Vec<String> = Vec::new();
    let mut fields: Vec<(String, JsonScalar)> = Vec::new();
    fields.push(("title".to_string(), JsonScalar::Str(title.to_string())));
    fields.push(("content".to_string(), JsonScalar::Str(content.to_string())));
    assert(fields_view(fields@) =~= seq![("title"@, JsonScalarView::Str(title@)), ("content"@, JsonScalarView::Str(content@))]);
    let mut task = "# Task\n".to_string();
    let obj = json_object_of(fields);
    push_str(&mut task, obj.as_str());
    parts.push(task);
    let mut members: Vec<Vec<(String, JsonScalar)>> = Vec::new();
    let ghost team = team_of(agents@, team_ids@);
    let mut i: usize = 0;
    while i < agents.len()
        invariant
            i <= agents.len(),
            objects_view(members@) == team_of(agents@.take(i as int), team_ids@).map_values(|a: AgentEntity| member_fields(a)),
        decreases agents.len() - i,
    {
        assert(agents@.take(i + 1).drop_last() =~= agents@.take(i as int));
        assert(agents@.take(i + 1).last() == agents@[i as int]);
        let a = &agents[i];
        if contains_id(team_ids, a.id) {
            let mut f: Vec<(String, JsonScalar)> = Vec::new();
            f.push(("id".to_string(), JsonScalar::Int(a.id)));
            f.push(("name".to_string(), JsonScalar::Str(a.name.clone())));
            f.push(("description".to_string(), JsonScalar::Str(a.description.clone())));
            let ghost before = members@;
            assert(fields_view(f@) =~= member_fields(*a));
            members.push(f);
            assert(objects_view(members@) =~= objects_view(before).push(member_fields(*a)));
            assert(team_of(agents@.take(i + 1), team_ids@).map_values(|x: AgentEntity| member_fields(x)) =~= team_of(
                agents@.take(i as int),
                team_ids@,
            ).map_values(|x: AgentEntity| member_fields(x)).push(member_fields(*a)));
        }
        i += 1;
    }
    assert(agents@.take(agents.len() as int) =~= agents@);
    let mut team_s = "# Team\n".to_string();
    let arr = json_object_array_of(members);
    push_str(&mut team_s, arr.as_str());
    parts.push(team_s);
    parts.push("# History".to_string());
    let ghost head = parts@.map_values(|s: String| s@);
    let mut k: usize = 0;
    while k < history.len()
        invariant
            k <= history.len(),
            parts@.map_values(|s: String| s@) == head + history_sections(history@.take(k as int)),
        decreases history.len() - k,
    {
        assert(history@.take(k + 1).drop_last() =~= history@.take(k as int));
        assert(history@.take(k + 1).last() == history@[k as int]);
        let it = &history[k];
        match &it.last {
            LastMessage::Missing => {},
            _ => {
                let mut sec = "## ".to_string();
                match &it.agent_name {
                    Some(n) => push_str(&mut sec, n.as_str()),
                    None => push_str(&mut sec, "User"),
                }
                push_str(&mut sec, "\n");
                let t = history_text_exec(&it.last);
                let js = json_string_of(t.as_str());
                push_str(&mut sec, js.as_str());
                let ghost before = parts@;
                parts.push(sec);
                assert(parts@.map_values(|s: String| s@) =~= before.map_values(|s: String| s@).push(sec@));
            },
        }
        k += 1;
    }
    assert(history@.take(history.len() as int) =~= history@);
    let ghost before = parts@;
    parts.push(
        "# Handover\nWhen your work is done, you must call the handover tool: use `task handover <agent_id>` to hand over to a teammate, or `task handover user` to hand over to the user for review. Do not end your turn without handing over.".to_string(),
    );
    assert(parts@.map_values(|s: String| s@) =~= before.map_values(|s: String| s@).push(handover_section()));
    let r = join_with(&parts, "\n\n");
    assert(parts@.map_values(|s: String| s@) =~= seq![
        "# Task\n"@ + json_object(seq![("title"@, JsonScalarView::Str(title@)), ("content"@, JsonScalarView::Str(content@))]),
        "# Team\n"@ + json_object_array(team_of(agents@, team_ids@).map_values(|a: AgentEntity| member_fields(a))),
        "# History"@,
    ] + history_sections(history@) + seq![handover_section()]);
    r
}

/// Where a user message for a task goes.
pub enum UserMessageTarget {
    /// The latest stage is the user's: the message is appended there.
    Append(i64),
    /// A user stage titled `<title>-User` is created for it.
    CreateUserStage { title: String },
    /// The latest stage is an agent's and creating one is not allowed.
    Refused,
}

/// Decides where a user message for the task `title` goes.
pub fn user_message_target(title: &str, latest: Option<LatestConversationState>, allow_create: bool) -> (r: UserMessageTarget)
    ensures
        match r {
            UserMessageTarget::Append(id) => latest matches Some(l) && l.agent_id is None && l.id == id,
            UserMessageTarget::CreateUserStage { title: t } => !(latest matches Some(l) && l.agent_id is None)
                && allow_create && t@ == title@ + "-User"@,
            UserMessageTarget::Refused => !(latest matches Some(l) && l.agent_id is None) && !allow_create,
        },
{
    match latest {
        Some(l) => {
            if l.agent_id.is_none() {
                return UserMessageTarget::Append(l.id);
            }
        },
        None => {},
    }
    if allow_create {
        let mut t = title.to_string();
        push_str(&mut t, "-User");
        UserMessageTarget::CreateUserStage { title: t }
    } else {
        UserMessageTarget::Refused
    }
}

} // verus!
