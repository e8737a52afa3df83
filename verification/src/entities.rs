//! Stored records and the rows of joined queries they are read from.
use vstd::prelude::*;

verus! {

/// The text of an optional column, empty when it is null.
pub open spec fn or_empty(o: Option<String>) -> Seq<char> {
    match o {
        Some(s) => s@,
        None => Seq::empty(),
    }
}

fn take_or_empty(o: Option<String>) -> (r: String)
    ensures
        r@ == or_empty(o),
{
    match o {
        Some(s) => s,
        None => String::new(),
    }
}

/// A configured model provider.
pub struct ModelProviderEntity {
    pub id: i64,
    pub name: String,
    pub protocol_type: String,
    pub base_url: String,
    pub api_key: String,
    pub create_time: String,
    pub update_time: String,
}

/// An agent: prompt and model settings.
pub struct AgentEntity {
    pub id: i64,
    pub name: String,
    pub description: String,
    pub prompt: String,
    pub model_provider_id: i64,
    pub model: String,
    pub thinking: bool,
    pub create_time: String,
    pub update_time: String,
}

/// An agent with its model provider, if that still exists.
pub struct AgentWithProvider {
    pub agent: AgentEntity,
    pub model_provider: Option<ModelProviderEntity>,
}

/// The provider columns of a left join (all null when there is no provider).
pub struct ProviderJoinRow {
    pub provider_id: Option<i64>,
    pub provider_name: Option<String>,
    pub provider_protocol_type: Option<String>,
    pub provider_base_url: Option<String>,
    pub provider_api_key: Option<String>,
    pub provider_create_time: Option<String>,
    pub provider_update_time: Option<String>,
}

/// The provider of a join row: present exactly when its id is, with null
/// text columns read as empty.
pub open spec fn provider_matches(r: ProviderJoinRow, p: Option<ModelProviderEntity>) -> bool {
    match r.provider_id {
        None => p is None,
        Some(id) => p matches Some(e) && e.id == id && e.name@ == or_empty(r.provider_name) && e.protocol_type@
            == or_empty(r.provider_protocol_type) && e.base_url@ == or_empty(r.provider_base_url) && e.api_key@
            == or_empty(r.provider_api_key) && e.create_time@ == or_empty(r.provider_create_time) && e.update_time@
            == or_empty(r.provider_update_time),
    }
}

/// The provider of a join row (see `provider_matches`).
pub fn provider_from_row(r: ProviderJoinRow) -> (p: Option<ModelProviderEntity>)
    ensures
        provider_matches(r, p),
{
    let ghost r0 = r;
    match r.provider_id {
        None => None,
        Some(id) => Some(
            ModelProviderEntity {
                id,
                name: take_or_empty(r.provider_name),
                protocol_type: take_or_empty(r.provider_protocol_type),
                base_url: take_or_empty(r.provider_base_url),
                api_key: take_or_empty(r.provider_api_key),
                create_time: take_or_empty(r.provider_create_time),
                update_time: take_or_empty(r.provider_update_time),
            },
        ),
    }
}

/// An agent row joined with its provider's columns.
pub struct AgentProviderRow {
    pub id: i64,
    pub name: String,
    pub description: String,
    pub prompt: String,
    pub model_provider_id: i64,
    pub model: String,
    pub thinking: bool,
    pub create_time: String,
    pub update_time: String,
    pub provider: ProviderJoinRow,
}

impl AgentWithProvider {
    /// The agent of the row with its provider.
    pub fn from(r: AgentProviderRow) -> (a: AgentWithProvider)
        ensures
            a.agent.id == r.id,
            a.agent.name@ == r.name@,
            a.agent.description@ == r.description@,
            a.agent.prompt@ == r.prompt@,
            a.agent.model_provider_id == r.model_provider_id,
            a.agent.model@ == r.model@,
            a.agent.thinking == r.thinking,
            a.agent.create_time@ == r.create_time@,
            a.agent.update_time@ == r.update_time@,
            provider_matches(r.provider, a.model_provider),
    {
        AgentWithProvider {
            agent: AgentEntity {
                id: r.id,
                name: r.name,
                description: r.description,
                prompt: r.prompt,
                model_provider_id: r.model_provider_id,
                model: r.model,
                thinking: r.thinking,
                create_time: r.create_time,
                update_time: r.update_time,
            },
            model_provider: provider_from_row(r.provider),
        }
    }
}

/// "idle".
pub const TASK_STATUS_IDLE: &'static str = "idle";

/// "running".
pub const TASK_STATUS_RUNNING: &'static str = "running";

/// "review": handed over to the user.
pub const TASK_STATUS_REVIEW: &'static str = "review";

/// "done".
pub const TASK_STATUS_DONE: &'static str = "done";

/// "failed".
pub const TASK_STATUS_FAILED: &'static str = "failed";

/// A task worked on by a team of agents.
pub struct TaskEntity {
    pub id: i64,
    pub title: String,
    pub content: String,
    pub agent_ids: Vec<i64>,
    pub work_dir: String,
    pub status: String,
    pub create_time: String,
    pub update_time: String,
}

/// A scheduled run of an agent.
pub struct ScheduleEntity {
    pub id: i64,
    pub name: String,
    pub content: String,
    pub work_dir: String,
    pub cron_expr: String,
    pub agent_id: i64,
    pub enabled: bool,
    pub create_time: String,
    pub update_time: String,
}

/// A schedule with its agent, if that still exists.
pub struct ScheduleWithAgent {
    pub schedule: ScheduleEntity,
    pub agent: Option<AgentEntity>,
}

/// The agent columns of a left join (all null when there is no agent).
pub struct AgentJoinRow {
    pub agent_ref_id: Option<i64>,
    pub agent_name: Option<String>,
    pub agent_description: Option<String>,
    pub agent_prompt: Option<String>,
    pub agent_model_provider_id: Option<i64>,
    pub agent_model: Option<String>,
    pub agent_thinking: Option<bool>,
    pub agent_create_time: Option<String>,
    pub agent_update_time: Option<String>,
}

/// The agent of a join row: present exactly when its id is, with null
/// columns read as empty, zero or false.
pub open spec fn agent_matches(r: AgentJoinRow, a: Option<AgentEntity>) -> bool {
    match r.agent_ref_id {
        None => a is None,
        Some(id) => a matches Some(e) && e.id == id && e.name@ == or_empty(r.agent_name) && e.description@ == or_empty(
            r.agent_description,
        ) && e.prompt@ == or_empty(r.agent_prompt) && e.model_provider_id == (match r.agent_model_provider_id {
            Some(x) => x,
            None => 0,
        }) && e.model@ == or_empty(r.agent_model) && e.thinking == (match r.agent_thinking {
            Some(x) => x,
            None => false,
        }) && e.create_time@ == or_empty(r.agent_create_time) && e.update_time@ == or_empty(r.agent_update_time),
    }
}

/// The agent of a join row (see `agent_matches`).
pub fn agent_from_row(r: AgentJoinRow) -> (a: Option<AgentEntity>)
    ensures
        agent_matches(r, a),
{
    match r.agent_ref_id {
        None => None,
        Some(id) => Some(
            AgentEntity {
                id,
                name: take_or_empty(r.agent_name),
                description: take_or_empty(r.agent_description),
                prompt: take_or_empty(r.agent_prompt),
                model_provider_id: match r.agent_model_provider_id {
                    Some(x) => x,
                    None => 0,
                },
                model: take_or_empty(r.agent_model),
                thinking: match r.agent_thinking {
                    Some(x) => x,
                    None => false,
                },
                create_time: take_or_empty(r.agent_create_time),
                update_time: take_or_empty(r.agent_update_time),
            },
        ),
    }
}

/// A schedule row joined with its agent's columns.
pub struct ScheduleAgentRow {
    pub id: i64,
    pub name: String,
    pub content: String,
    pub work_dir: String,
    pub cron_expr: String,
    pub agent_id: i64,
    pub enabled: bool,
    pub create_time: String,
    pub update_time: String,
    pub agent: AgentJoinRow,
}

impl ScheduleWithAgent {
    /// The schedule of the row with its agent.
    pub fn from(r: ScheduleAgentRow) -> (s: ScheduleWithAgent)
        ensures
            s.schedule.id == r.id,
            s.schedule.name@ == r.name@,
            s.schedule.content@ == r.content@,
            s.schedule.work_dir@ == r.work_dir@,
            s.schedule.cron_expr@ == r.cron_expr@,
            s.schedule.agent_id == r.agent_id,
            s.schedule.enabled == r.enabled,
            s.schedule.create_time@ == r.create_time@,
            s.schedule.update_time@ == r.update_time@,
            agent_matches(r.agent, s.agent),
    {
        ScheduleWithAgent {
            schedule: ScheduleEntity {
                id: r.id,
                name: r.name,
                content: r.content,
                work_dir: r.work_dir,
                cron_expr: r.cron_expr,
                agent_id: r.agent_id,
                enabled: r.enabled,
                create_time: r.create_time,
                update_time: r.update_time,
            },
            agent: agent_from_row(r.agent),
        }
    }
}

/// A conversation: of a task stage, of a schedule run, or stand-alone.
pub struct ConversationEntity {
    pub id: i64,
    pub task_id: Option<i64>,
    pub schedule_id: Option<i64>,
    pub agent_id: Option<i64>,
    pub title: String,
    pub work_dir: String,
    pub system_prompt: String,
    pub create_time: String,
    pub update_time: String,
}

/// A stored message; `content` is the message as JSON text.
pub struct MessageEntity {
    pub id: i64,
    pub conversation_id: i64,
    pub content: String,
}

/// A conversation with its agent and messages.
pub struct ConversationWithMessages {
    pub conversation: ConversationEntity,
    pub agent: Option<AgentEntity>,
    pub messages: Vec<MessageEntity>,
}

/// A conversation row joined with its agent's columns.
pub struct ConversationAgentRow {
    pub id: i64,
    pub task_id: Option<i64>,
    pub schedule_id: Option<i64>,
    pub agent_id: Option<i64>,
    pub title: String,
    pub work_dir: String,
    pub system_prompt: String,
    pub create_time: String,
    pub update_time: String,
    pub agent: AgentJoinRow,
}

impl ConversationWithMessages {
    /// The conversation of the row with its agent and no messages yet.
    pub fn from(r: ConversationAgentRow) -> (c: ConversationWithMessages)
        ensures
            c.conversation.id == r.id,
            c.conversation.task_id == r.task_id,
            c.conversation.schedule_id == r.schedule_id,
            c.conversation.agent_id == r.agent_id,
            c.conversation.title@ == r.title@,
            c.conversation.work_dir@ == r.work_dir@,
            c.conversation.system_prompt@ == r.system_prompt@,
            c.conversation.create_time@ == r.create_time@,
            c.conversation.update_time@ == r.update_time@,
            agent_matches(r.agent, c.agent),
            c.messages@.len() == 0,
    {
        ConversationWithMessages {
            conversation: ConversationEntity {
                id: r.id,
                task_id: r.task_id,
                schedule_id: r.schedule_id,
                agent_id: r.agent_id,
                title: r.title,
                work_dir: r.work_dir,
                system_prompt: r.system_prompt,
                create_time: r.create_time,
                update_time: r.update_time,
            },
            agent: agent_from_row(r.agent),
            messages: Vec::new(),
        }
    }
}

/// A configured MCP server; `headers` and `args` are JSON text.
pub struct McpServerEntity {
    pub id: i64,
    pub name: String,
    pub description: String,
    pub protocol_type: String,
    pub url: Option<String>,
    pub headers: Option<String>,
    pub command: Option<String>,
    pub args: Option<String>,
    pub create_time: String,
    pub update_time: String,
}

/// A key-value entry kept for the web front end.
pub struct WebStorageEntity {
    pub key: String,
    pub value: String,
    pub create_time: String,
    pub update_time: String,
}

/// The latest stage conversation of a task.
#[derive(Clone, Copy)]
pub struct LatestConversationState {
    pub id: i64,
    pub agent_id: Option<i64>,
    pub has_messages: bool,
}

/// The last message of a stage conversation (as JSON text), with the stage's agent name.
pub struct ConversationHistorySummary {
    pub agent_name: Option<String>,
    pub last_content: Option<String>,
}

/// Outcome of a delete guarded by references.
#[derive(Clone, Copy, PartialEq, Eq, Structural)]
pub enum DeleteResult {
    Deleted,
    NotFound,
    Referenced,
}

} // verus!
