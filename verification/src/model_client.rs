//! Which protocol adapter serves a model provider, and with what settings.
use vstd::prelude::*;
use crate::anthropic::AnthropicOptions;
use crate::entities::ModelProviderEntity;
use crate::pi_types::{Model, ModelView};
use crate::responses::OpenAIResponsesOptions;
use crate::text::{decimal_i64, i64_string};

verus! {

/// Thinking budget of a thinking level for Anthropic: minimal 1024, low
/// 2048, high and above 16384, anything else (medium) 8192.
pub open spec fn spec_thinking_budget(thinking: Seq<char>) -> u32 {
    if thinking == "minimal"@ {
        1024
    } else if thinking == "low"@ {
        2048
    } else if thinking == "high"@ || thinking == "xhigh"@ || thinking == "max"@ {
        16384
    } else {
        8192
    }
}

/// The thinking budget of a level (see `spec_thinking_budget`).
pub fn thinking_budget_tokens(thinking: &str) -> (r: u32)
    ensures
        r == spec_thinking_budget(thinking@),
{
    let t = thinking.to_string();
    if t == "minimal".to_string() {
        1024
    } else if t == "low".to_string() {
        2048
    } else if t == "high".to_string() || t == "xhigh".to_string() || t == "max".to_string() {
        16384
    } else {
        8192
    }
}

/// How a model call is made.
pub enum StreamPlan {
    Anthropic { model: Model, options: AnthropicOptions },
    Responses { model: Model, options: OpenAIResponsesOptions },
}

/// A provider of an unknown protocol.
pub struct ModelError {
    pub protocol: String,
}

impl ModelError {
    /// "unsupported protocol type: <protocol>".
    pub fn message(&self) -> (r: String)
        ensures
            r@ == "unsupported protocol type: "@ + self.protocol@,
    {
        let mut m = "unsupported protocol type: ".to_string();
        crate::text::push_str(&mut m, self.protocol.as_str());
        m
    }
}

/// The model of a call: the provider's id as its name, the given API, the
/// provider's base URL, reasoning enabled, text input.
pub open spec fn call_model(m: ModelView, provider: ModelProviderEntity, model_id: Seq<char>, api: Seq<char>, max_tokens: u32) -> bool {
    &&& m.id == model_id
    &&& m.api == api
    &&& m.provider == decimal_i64(provider.id)
    &&& m.base_url == provider.base_url@
    &&& m.reasoning
    &&& m.input == seq!["text"@]
    &&& m.max_tokens == max_tokens
}

fn make_model(provider: &ModelProviderEntity, model_id: &str, api: &str, max_tokens: u32) -> (r: Model)
    ensures
        call_model(r@, *provider, model_id@, api@, max_tokens),
{
    let mut input: Vec<String> = Vec::new();
    input.push("text".to_string());
    let r = Model {
        id: model_id.to_string(),
        api: api.to_string(),
        provider: i64_string(provider.id),
        base_url: provider.base_url.clone(),
        reasoning: true,
        input,
        max_tokens,
    };
    assert(r@.input =~= seq!["text"@]);
    r
}

/// Chooses the adapter of a call by the provider's protocol.  With
/// thinking on (any level but "off"), Anthropic gets the level's budget
/// and a token limit raised by it (saturating); Responses gets the level
/// as its reasoning effort.  Another protocol is an error.
pub fn stream_plan(provider: &ModelProviderEntity, model_id: &str, thinking: &str, max_tokens: u32) -> (r: Result<
    StreamPlan,
    ModelError,
>)
    ensures
        match r {
            Ok(StreamPlan::Anthropic { model, options }) => {
                let on = thinking@ != "off"@;
                let budget = spec_thinking_budget(thinking@);
                &&& provider.protocol_type@ == "anthropic-messages"@
                &&& call_model(model@, *provider, model_id@, "anthropic-messages"@, max_tokens)
                &&& opt_str_eq(options.api_key, provider.api_key@)
                &&& options.max_tokens == Some(
                    if on {
                        if max_tokens + budget > u32::MAX {
                            u32::MAX
                        } else {
                            (max_tokens + budget) as u32
                        }
                    } else {
                        max_tokens
                    },
                )
                &&& options.thinking_enabled == Some(on)
                &&& options.thinking_budget_tokens == if on {
                    Some(budget)
                } else {
                    None
                }
            },
            Ok(StreamPlan::Responses { model, options }) => {
                let on = thinking@ != "off"@;
                &&& provider.protocol_type@ == "openai-responses"@
                &&& call_model(model@, *provider, model_id@, "openai-responses"@, max_tokens)
                &&& opt_str_eq(options.api_key, provider.api_key@)
                &&& options.max_tokens == Some(max_tokens)
                &&& (on ==> opt_str_eq(options.reasoning_effort, thinking@))
                &&& (!on ==> options.reasoning_effort is None)
                &&& options.reasoning_summary is None
            },
            Err(e) => provider.protocol_type@ != "anthropic-messages"@ && provider.protocol_type@ != "openai-responses"@
                && e.protocol@ == provider.protocol_type@,
        },
{
    let on = thinking.to_string() != "off".to_string();
    if provider.protocol_type == "anthropic-messages".to_string() {
        let budget = thinking_budget_tokens(thinking);
        let request_max = if on { max_tokens.saturating_add(budget) } else { max_tokens };
        let model = make_model(provider, model_id, "anthropic-messages", max_tokens);
        Ok(
            StreamPlan::Anthropic {
                model,
                options: AnthropicOptions {
                    api_key: Some(provider.api_key.clone()),
                    max_tokens: Some(request_max),
                    thinking_enabled: Some(on),
                    thinking_budget_tokens: if on { Some(budget) } else { None },
                },
            },
        )
    } else if provider.protocol_type == "openai-responses".to_string() {
        let model = make_model(provider, model_id, "openai-responses", max_tokens);
        Ok(
            StreamPlan::Responses {
                model,
                options: OpenAIResponsesOptions {
                    api_key: Some(provider.api_key.clone()),
                    max_tokens: Some(max_tokens),
                    reasoning_effort: if on { Some(thinking.to_string()) } else { None },
                    reasoning_summary: None,
                },
            },
        )
    } else {
        Err(ModelError { protocol: provider.protocol_type.clone() })
    }
}

/// `o` holds text equal to `t`.
pub open spec fn opt_str_eq(o: Option<String>, t: Seq<char>) -> bool {
    match o {
        Some(s) => s@ == t,
        None => false,
    }
}

/// One model of a provider's model list.
pub struct ModelInfo {
    pub id: String,
}

/// A provider's model list.
pub struct ListModelsResponse {
    pub data: Vec<ModelInfo>,
}

/// The ids of the listed models, in order.
pub fn model_ids(list: ListModelsResponse) -> (r: Vec<String>)
    ensures
        r@.len() == list.data@.len(),
        forall|k: int| 0 <= k < r@.len() ==> (#[trigger] r@[k])@ == list.data@[k].id@,
{
    let mut out: Vec<String> = Vec::new();
    let mut i: usize = 0;
    while i < list.data.len()
        invariant
            i <= list.data.len(),
            out@.len() == i,
            forall|k: int| 0 <= k < i ==> (#[trigger] out@[k])@ == list.data@[k].id@,
        decreases list.data.len() - i,
    {
        out.push(list.data[i].id.clone());
        i += 1;
    }
    out
}

} // verus!
