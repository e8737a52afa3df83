//! The rules of the HTTP interface: request bodies, their validation, and
//! the decisions taken before a request touches the store.
use vstd::prelude::*;
use crate::entities::{AgentEntity, ScheduleEntity};
use crate::paths::{join_path, path_join};
use crate::pi_types::opt_str;
use crate::text::{chars_of, is_blank, push_str, trim, trimmed};

verus! {

/// A request refused, with the message sent back.
pub enum ApiError {
    NotFound(String),
    Conflict(String),
    BadRequest(String),
    /// A failure of the server itself.
    Internal(String),
}

/// The HTTP status of an error.
pub fn status_code(e: &ApiError) -> (r: u16)
    ensures
        r == match e {
            ApiError::NotFound(_) => 404u16,
            ApiError::Conflict(_) => 409u16,
            ApiError::BadRequest(_) => 400u16,
            ApiError::Internal(_) => 500u16,
        },
{
    match e {
        ApiError::NotFound(_) => 404,
        ApiError::Conflict(_) => 409,
        ApiError::BadRequest(_) => 400,
        ApiError::Internal(_) => 500,
    }
}

/// The default of an agent's `thinking` flag.
pub fn default_true() -> (r: bool)
    ensures
        r,
{
    true
}

/// The content type of a static file, by its extension (the text after the last '.').
pub open spec fn spec_mime_type(ext: Seq<char>) -> Seq<char> {
    if ext == "html"@ {
        "text/html; charset=utf-8"@
    } else if ext == "css"@ {
        "text/css; charset=utf-8"@
    } else if ext == "js"@ {
        "application/javascript; charset=utf-8"@
    } else if ext == "json"@ {
        "application/json"@
    } else if ext == "png"@ {
        "image/png"@
    } else if ext == "jpg"@ || ext == "jpeg"@ {
        "image/jpeg"@
    } else if ext == "gif"@ {
        "image/gif"@
    } else if ext == "svg"@ {
        "image/svg+xml"@
    } else if ext == "ico"@ {
        "image/x-icon"@
    } else if ext == "woff"@ {
        "font/woff"@
    } else if ext == "woff2"@ {
        "font/woff2"@
    } else if ext == "ttf"@ {
        "font/ttf"@
    } else {
        "application/octet-stream"@
    }
}

/// The text after the last '.' (all of it when there is none).
pub open spec fn extension(path: Seq<char>) -> Seq<char> {
    if exists|i: int| 0 <= i < path.len() && path[i] == '.' {
        let i = choose|i: int| 0 <= i < path.len() && path[i] == '.' && forall|k: int| i < k < path.len() ==> path[k] != '.';
        path.skip(i + 1)
    } else {
        path
    }
}

fn extension_exec(path: &str) -> (r: String)
    ensures
        r@ == extension(path@),
{
    let cs = chars_of(path);
    let mut i: usize = cs.len();
    while i > 0
        invariant
            i <= cs.len(),
            cs@ == path@,
            forall|k: int| i <= k < cs.len() ==> cs@[k] != '.',
        decreases i,
    {
        if cs[i - 1] == '.' {
            proof {
                let j = (i - 1) as int;
                assert(0 <= j < cs@.len() && cs@[j] == '.' && forall|k: int| j < k < cs@.len() ==> cs@[k] != '.');
                let c = choose|c: int| 0 <= c < cs@.len() && cs@[c] == '.' && forall|k: int| c < k < cs@.len() ==> cs@[k] != '.';
                if c < j {
                    assert(cs@[j] != '.');
                } else if c > j {
                    assert(cs@[c] != '.');
                }
            }
            let r = crate::text::string_from_range(&cs, i, cs.len());
            assert(cs@.subrange(i as int, cs@.len() as int) =~= cs@.skip(i as int));
            return r;
        }
        i -= 1;
    }
    path.to_string()
}

/// Guesses the content type of a static file from its extension.
pub fn guess_mime_type(path: &str) -> (r: String)
    ensures
        r@ == spec_mime_type(extension(path@)),
{
    let e = extension_exec(path);
    let s = if e == "html".to_string() {
        "text/html; charset=utf-8"
    } else if e == "css".to_string() {
        "text/css; charset=utf-8"
    } else if e == "js".to_string() {
        "application/javascript; charset=utf-8"
    } else if e == "json".to_string() {
        "application/json"
    } else if e == "png".to_string() {
        "image/png"
    } else if e == "jpg".to_string() || e == "jpeg".to_string() {
        "image/jpeg"
    } else if e == "gif".to_string() {
        "image/gif"
    } else if e == "svg".to_string() {
        "image/svg+xml"
    } else if e == "ico".to_string() {
        "image/x-icon"
    } else if e == "woff".to_string() {
        "font/woff"
    } else if e == "woff2".to_string() {
        "font/woff2"
    } else if e == "ttf".to_string() {
        "font/ttf"
    } else {
        "application/octet-stream"
    };
    s.to_string()
}

/// `s` without any number of leading `p` (as `str::trim_start_matches`).
pub open spec fn strip_all_prefix(s: Seq<char>, p: Seq<char>) -> Seq<char>
    decreases s.len(),
{
    if p.len() > 0 && p.len() <= s.len() && s.take(p.len() as int) == p {
        strip_all_prefix(s.skip(p.len() as int), p)
    } else {
        s
    }
}

/// The asset path of a request under `/static/`.
pub fn static_asset_path(uri_path: &str) -> (r: String)
    ensures
        r@ == strip_all_prefix(uri_path@, "/static/"@),
{
    let p = chars_of("/static/");
    let mut s = chars_of(uri_path);
    proof {
        reveal_strlit("/static/");
    }
    loop
        invariant
            p@ == "/static/"@,
            p.len() == 8,
            strip_all_prefix(s@, p@) == strip_all_prefix(uri_path@, "/static/"@),
        ensures
            s@ == strip_all_prefix(uri_path@, "/static/"@),
        decreases s.len(),
    {
        let mut matches = s.len() >= p.len();
        let mut k: usize = 0;
        while matches && k < p.len()
            invariant
                p.len() == 8,
                s.len() >= p.len() || !matches,
                k <= p.len(),
                matches ==> forall|j: int| 0 <= j < k ==> s@[j] == p@[j],
                !matches ==> !(p.len() <= s.len() && s@.take(p.len() as int) == p@),
            decreases p.len() - k,
        {
            if s[k] != p[k] {
                matches = false;
                assert(s@.take(p.len() as int)[k as int] != p@[k as int]);
            }
            k += 1;
        }
        if !matches {
            break;
        }
        assert(s@.take(p.len() as int) =~= p@);
        let rest = crate::text::string_from_range(&s, p.len(), s.len());
        assert(s@.subrange(p.len() as int, s@.len() as int) =~= s@.skip(p.len() as int));
        s = chars_of(rest.as_str());
    }
    crate::text::string_from_chars(&s)
}

/// Body of a request that adds or updates an agent.
pub struct AgentRequest {
    pub name: String,
    pub description: String,
    pub prompt: String,
    pub model_provider_id: i64,
    pub model: String,
    pub thinking: bool,
}

/// Query of a directory listing.
pub struct DirListQuery {
    pub path: String,
}

/// Body of a request that adds a user message.
pub struct AddMessageRequest {
    pub content: String,
}

/// Body of a request that starts a new conversation.
pub struct CreateWorkRequest {
    pub task_content: String,
    pub work_dir: String,
    pub model_provider_id: Option<i64>,
    pub model: Option<String>,
    pub thinking: Option<bool>,
    pub agent_id: Option<i64>,
}

/// Body of a request that continues a conversation.
pub struct StartWorkRequest {
    pub task_content: String,
    pub model_provider_id: i64,
    pub model: String,
    pub thinking: bool,
}

/// Body of a request that adds or updates a model provider.
pub struct ModelProviderRequest {
    pub name: String,
    pub protocol_type: String,
    pub base_url: String,
    pub api_key: String,
}

/// Body of a request that adds or updates a task.
pub struct TaskRequest {
    pub title: String,
    pub content: String,
    pub agent_ids: Vec<i64>,
    pub work_dir: String,
}

/// Body of a request that starts a task.
pub struct StartTaskRequest {
    pub agent_id: i64,
    pub message: String,
}

/// Body of a request that completes a task.
pub struct CompleteTaskRequest {
    pub message: String,
}

/// Body of a request that stores a value for the front end.
pub struct WebStorageRequest {
    pub value: String,
}

/// The agent a new conversation names, as found in the store.
pub enum AgentChoice {
    /// No agent was named.
    NoAgent,
    /// The named agent does not exist.
    Missing,
    Found(AgentEntity),
}

/// Model settings of a new conversation: provider, model, thinking, and
/// the agent's prompt when an agent is used.
pub struct WorkConfig {
    pub model_provider_id: i64,
    pub model: String,
    pub thinking: bool,
    pub agent_prompt: Option<String>,
}

/// `r` is the given refusal.
pub open spec fn refused<T>(r: Result<T, ApiError>, code: u16, msg: Seq<char>) -> bool {
    match r {
        Err(ApiError::NotFound(m)) => code == 404 && m@ == msg,
        Err(ApiError::Conflict(m)) => code == 409 && m@ == msg,
        Err(ApiError::BadRequest(m)) => code == 400 && m@ == msg,
        Err(ApiError::Internal(m)) => code == 500 && m@ == msg,
        Ok(_) => false,
    }
}

/// `r` is the given text.
pub open spec fn gives_text(r: Result<String, ApiError>, t: Seq<char>) -> bool {
    match r {
        Ok(x) => x@ == t,
        Err(_) => false,
    }
}

/// `r` is the given configuration.
pub open spec fn gives_config(r: Result<WorkConfig, ApiError>, p: i64, m: Seq<char>, t: bool, prompt: Option<Seq<char>>) -> bool {
    match r {
        Ok(c) => c.model_provider_id == p && c.model@ == m && c.thinking == t && opt_str(c.agent_prompt) == prompt,
        Err(_) => false,
    }
}

/// Settings of a new conversation: an agent's own settings and prompt
/// (a missing agent is not found); without an agent, the request's
/// settings, all of which are needed.
pub fn conversation_work_config(req: &CreateWorkRequest, agent: &AgentChoice) -> (r: Result<WorkConfig, ApiError>)
    ensures
        match agent {
            AgentChoice::Missing => refused(r, 404, "Agent not found"@),
            AgentChoice::Found(a) => gives_config(r, a.model_provider_id, a.model@, a.thinking, Some(a.prompt@)),
            AgentChoice::NoAgent => match (req.model_provider_id, req.model, req.thinking) {
                (Some(p), Some(m), Some(t)) => gives_config(r, p, m@, t, None),
                _ => refused(r, 400, "Model config is required when agent_id is not provided"@),
            },
        },
{
    match agent {
        AgentChoice::Missing => Err(ApiError::NotFound("Agent not found".to_string())),
        AgentChoice::Found(a) => Ok(
            WorkConfig {
                model_provider_id: a.model_provider_id,
                model: a.model.clone(),
                thinking: a.thinking,
                agent_prompt: Some(a.prompt.clone()),
            },
        ),
        AgentChoice::NoAgent => match (&req.model_provider_id, &req.model, &req.thinking) {
            (Some(p), Some(m), Some(t)) => Ok(
                WorkConfig { model_provider_id: *p, model: m.clone(), thinking: *t, agent_prompt: None },
            ),
            _ => Err(ApiError::BadRequest("Model config is required when agent_id is not provided".to_string())),
        },
    }
}

/// Settings of a new work: with an agent, any settings given must all
/// agree with the agent's (a missing model counts as empty, a missing
/// thinking flag as off), and the agent's are used; without one, all are needed.
pub fn work_config(req: &CreateWorkRequest, agent: &AgentChoice) -> (r: Result<WorkConfig, ApiError>)
    ensures
        match agent {
            AgentChoice::Missing => refused(r, 404, "Agent not found"@),
            AgentChoice::Found(a) => {
                let given = req.model_provider_id is Some || req.model is Some || req.thinking is Some;
                let agrees = req.model_provider_id == Some(a.model_provider_id) && (match req.model {
                    Some(m) => m@,
                    None => Seq::empty(),
                }) == a.model@ && (match req.thinking {
                    Some(t) => t,
                    None => false,
                }) == a.thinking;
                if given && !agrees {
                    refused(r, 400, "Model config must be all None or all consistent with agent config"@)
                } else {
                    gives_config(r, a.model_provider_id, a.model@, a.thinking, Some(a.prompt@))
                }
            },
            AgentChoice::NoAgent => match (req.model_provider_id, req.model, req.thinking) {
                (Some(p), Some(m), Some(t)) => gives_config(r, p, m@, t, None),
                _ => refused(r, 400, "Model config is required when agent_id is not provided"@),
            },
        },
{
    match agent {
        AgentChoice::Found(a) => {
            let given = req.model_provider_id.is_some() || req.model.is_some() || req.thinking.is_some();
            if given {
                let m = match &req.model {
                    Some(m) => m.clone(),
                    None => String::new(),
                };
                let t = match req.thinking {
                    Some(t) => t,
                    None => false,
                };
                let same_provider = match req.model_provider_id {
                    Some(p) => p == a.model_provider_id,
                    None => false,
                };
                if !same_provider || m != a.model || t != a.thinking {
                    return Err(ApiError::BadRequest("Model config must be all None or all consistent with agent config".to_string()));
                }
            }
            Ok(
                WorkConfig {
                    model_provider_id: a.model_provider_id,
                    model: a.model.clone(),
                    thinking: a.thinking,
                    agent_prompt: Some(a.prompt.clone()),
                },
            )
        },
        _ => conversation_work_config(req, agent),
    }
}

/// Where an `AGENTS.md` is looked for when no agent is used, in order:
/// the working directory, `~/.openagents`, `~/.agents`.
pub fn agents_md_candidates(work_dir: &str, home: &str) -> (r: Vec<String>)
    ensures
        r@.len() == 3,
        r@[0]@ == path_join(work_dir@, "AGENTS.md"@),
        r@[1]@ == path_join(path_join(home@, ".openagents"@), "AGENTS.md"@),
        r@[2]@ == path_join(path_join(home@, ".agents"@), "AGENTS.md"@),
{
    let mut v: Vec<String> = Vec::new();
    v.push(join_path(work_dir, "AGENTS.md"));
    let a = join_path(home, ".openagents");
    v.push(join_path(a.as_str(), "AGENTS.md"));
    let b = join_path(home, ".agents");
    v.push(join_path(b.as_str(), "AGENTS.md"));
    v
}

/// Checks a request to start a task: the task and the agent must exist,
/// the message must not be blank, and the task must not be running.
/// Gives the trimmed message.
pub fn check_start_task(task_exists: bool, agent_exists: bool, message: &str, running: bool) -> (r: Result<String, ApiError>)
    ensures
        !task_exists ==> refused(r, 404, "Task not found"@),
        task_exists && !agent_exists ==> refused(r, 404, "Agent not found"@),
        task_exists && agent_exists && trim(message@).len() == 0 ==> refused(r, 400, "Message is required"@),
        task_exists && agent_exists && trim(message@).len() > 0 && running ==> refused(r, 409, "Task already running"@),
        task_exists && agent_exists && trim(message@).len() > 0 && !running ==> gives_text(r, trim(message@)),
{
    if !task_exists {
        return Err(ApiError::NotFound("Task not found".to_string()));
    }
    if !agent_exists {
        return Err(ApiError::NotFound("Agent not found".to_string()));
    }
    let m = trimmed(message);
    if m.as_str().is_empty() {
        return Err(ApiError::BadRequest("Message is required".to_string()));
    }
    if running {
        return Err(ApiError::Conflict("Task already running".to_string()));
    }
    Ok(m)
}

/// Checks a request to complete a task: the task must exist, the message
/// must not be blank, and the task must not be running.  Gives the
/// trimmed message (the task must also be in review, which the store decides).
pub fn check_complete_task(task_exists: bool, message: &str, running: bool) -> (r: Result<String, ApiError>)
    ensures
        !task_exists ==> refused(r, 404, "Task not found"@),
        task_exists && trim(message@).len() == 0 ==> refused(r, 400, "Message is required"@),
        task_exists && trim(message@).len() > 0 && running ==> refused(r, 409, "Task is running"@),
        task_exists && trim(message@).len() > 0 && !running ==> gives_text(r, trim(message@)),
{
    if !task_exists {
        return Err(ApiError::NotFound("Task not found".to_string()));
    }
    let m = trimmed(message);
    if m.as_str().is_empty() {
        return Err(ApiError::BadRequest("Message is required".to_string()));
    }
    if running {
        return Err(ApiError::Conflict("Task is running".to_string()));
    }
    Ok(m)
}

/// The error of completing a task that is not in review.
pub fn not_in_review() -> (r: ApiError)
    ensures
        r matches ApiError::Conflict(m) && m@ == "Task is not in review"@,
{
    ApiError::Conflict("Task is not in review".to_string())
}

/// Body of a request that adds or updates a schedule; the six cron fields are separate.
pub struct ScheduleRequest {
    pub name: String,
    pub content: String,
    pub work_dir: String,
    pub minute: String,
    pub hour: String,
    pub day: String,
    pub month: String,
    pub day_of_week: String,
    pub second: String,
    pub agent_id: i64,
    pub enabled: bool,
}

/// "second minute hour day month day_of_week".
pub open spec fn spec_cron_expr(r: ScheduleRequest) -> Seq<char> {
    r.second@ + " "@ + r.minute@ + " "@ + r.hour@ + " "@ + r.day@ + " "@ + r.month@ + " "@ + r.day_of_week@
}

/// Name for whether the `cron` crate accepts an expression (`cron::Schedule::from_str`).
pub uninterp spec fn cron_accepts(expr: Seq<char>) -> bool;

/// Whether `cron::Schedule::from_str` parses the expression.
///
/// Trusted: the result is `cron_accepts(expr)`.
#[verifier::external_body]
pub(crate) fn cron_parses(expr: &str) -> (r: bool)
    ensures
        r == cron_accepts(expr@),
{
    <cron::Schedule as std::str::FromStr>::from_str(expr).is_ok()
}

/// The cron expression of a schedule request, if the `cron` crate accepts
/// it; otherwise the request is refused.
pub fn schedule_cron_expr(req: &ScheduleRequest) -> (r: Result<String, ApiError>)
    ensures
        match r {
            Ok(e) => e@ == spec_cron_expr(*req) && cron_accepts(e@),
            Err(ApiError::BadRequest(m)) => m@ == "Invalid cron expression"@ && !cron_accepts(spec_cron_expr(*req)),
            Err(_) => false,
        },
{
    let mut e = req.second.clone();
    push_str(&mut e, " ");
    push_str(&mut e, req.minute.as_str());
    push_str(&mut e, " ");
    push_str(&mut e, req.hour.as_str());
    push_str(&mut e, " ");
    push_str(&mut e, req.day.as_str());
    push_str(&mut e, " ");
    push_str(&mut e, req.month.as_str());
    push_str(&mut e, " ");
    push_str(&mut e, req.day_of_week.as_str());
    if !cron_parses(e.as_str()) {
        return Err(ApiError::BadRequest("Invalid cron expression".to_string()));
    }
    Ok(e)
}

/// A schedule as the interface shows it: its cron expression as `trigger`
/// and the next time it fires, if any.
pub struct ScheduleResponse {
    pub id: i64,
    pub name: String,
    pub content: String,
    pub work_dir: String,
    pub trigger: String,
    pub agent_id: i64,
    pub enabled: bool,
    pub next_fire_time: Option<String>,
    pub create_time: String,
    pub update_time: String,
}

impl ScheduleResponse {
    /// The response for a schedule whose next fire time was computed.
    pub fn from(s: ScheduleEntity, next_fire_time: Option<String>) -> (r: ScheduleResponse)
        ensures
            r.id == s.id,
            r.name@ == s.name@,
            r.content@ == s.content@,
            r.work_dir@ == s.work_dir@,
            r.trigger@ == s.cron_expr@,
            r.agent_id == s.agent_id,
            r.enabled == s.enabled,
            r.next_fire_time == next_fire_time,
            r.create_time@ == s.create_time@,
            r.update_time@ == s.update_time@,
    {
        ScheduleResponse {
            id: s.id,
            name: s.name,
            content: s.content,
            work_dir: s.work_dir,
            trigger: s.cron_expr,
            agent_id: s.agent_id,
            enabled: s.enabled,
            next_fire_time,
            create_time: s.create_time,
            update_time: s.update_time,
        }
    }
}

/// The title of a scheduled run: "[<trigger label>] <schedule name>".
pub fn schedule_run_title(trigger_label: &str, name: &str) -> (r: String)
    ensures
        r@ == "["@ + trigger_label@ + "] "@ + name@,
{
    let mut t = "[".to_string();
    push_str(&mut t, trigger_label);
    push_str(&mut t, "] ");
    push_str(&mut t, name);
    t
}

/// The title of a task stage: "<task title>-<agent name>".
pub fn stage_title(task_title: &str, agent_name: &str) -> (r: String)
    ensures
        r@ == task_title@ + "-"@ + agent_name@,
{
    let mut t = task_title.to_string();
    push_str(&mut t, "-");
    push_str(&mut t, agent_name);
    t
}

} // verus!
