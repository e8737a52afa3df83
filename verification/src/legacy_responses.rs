//! The adapter that serves Anthropic-shaped requests and event streams over
//! the OpenAI Responses API: a request's messages become Responses input
//! items, and Responses stream events become Anthropic stream events.
use vstd::prelude::*;
use crate::anthropic_stream::{ContentBlock, ContentBlockDelta, MessageDelta, MessageDeltaUsage, MessageStreamEvent, StartMessage, StartUsage};
use crate::responses::ReasoningConfig;

verus! {

/// A content block of a request message; what the adapter cannot express
/// (such as redacted thinking) is `Other`.  A missing text field reads as
/// empty, and a tool's input is kept as its JSON text.
pub enum LegacyBlock {
    Text { text: String },
    Thinking { signature: String },
    ToolUse { id: String, name: String, input: String },
    ToolResult { tool_use_id: String, content: String },
    Other,
}

/// The content of a request message: a plain string, blocks, or anything else.
pub enum LegacyContent {
    Text(String),
    Blocks(Vec<LegacyBlock>),
    Other,
}

pub struct LegacyMessage {
    pub role: String,
    pub content: LegacyContent,
}

/// A text part of a Responses message item.
pub struct InputPart {
    pub part_type: String,
    pub text: String,
}

/// A Responses input item.
pub enum LegacyInputItem {
    Message { role: String, content: Vec<InputPart> },
    /// The thinking signature sent back as encrypted content (with an empty summary).
    Reasoning { encrypted_content: String },
    FunctionCall { call_id: String, name: String, arguments: String },
    FunctionCallOutput { call_id: String, output: String },
}

pub enum ItemView {
    Message { role: Seq<char>, content: Seq<(Seq<char>, Seq<char>)> },
    Reasoning { encrypted_content: Seq<char> },
    FunctionCall { call_id: Seq<char>, name: Seq<char>, arguments: Seq<char> },
    FunctionCallOutput { call_id: Seq<char>, output: Seq<char> },
}

pub open spec fn parts_view(v: Seq<InputPart>) -> Seq<(Seq<char>, Seq<char>)> {
    v.map_values(|p: InputPart| (p.part_type@, p.text@))
}

impl View for LegacyInputItem {
    type V = ItemView;

    open spec fn view(&self) -> ItemView {
        match self {
            LegacyInputItem::Message { role, content } => ItemView::Message { role: role@, content: parts_view(content@) },
            LegacyInputItem::Reasoning { encrypted_content } => ItemView::Reasoning { encrypted_content: encrypted_content@ },
            LegacyInputItem::FunctionCall { call_id, name, arguments } => ItemView::FunctionCall {
                call_id: call_id@,
                name: name@,
                arguments: arguments@,
            },
            LegacyInputItem::FunctionCallOutput { call_id, output } => ItemView::FunctionCallOutput {
                call_id: call_id@,
                output: output@,
            },
        }
    }
}

pub open spec fn items_view(v: Seq<LegacyInputItem>) -> Seq<ItemView> {
    v.map_values(|i: LegacyInputItem| i@)
}

/// The type of a message's text parts: `output_text` for the assistant,
/// `input_text` for anyone else.
pub open spec fn text_type(role: Seq<char>) -> Seq<char> {
    if role == "assistant"@ {
        "output_text"@
    } else {
        "input_text"@
    }
}

/// The pending text parts become one message item, if there are any.
pub open spec fn flush(role: Seq<char>, items: Seq<ItemView>, parts: Seq<(Seq<char>, Seq<char>)>) -> Seq<ItemView> {
    if parts.len() == 0 {
        items
    } else {
        items.push(ItemView::Message { role, content: parts })
    }
}

/// The items and pending text parts after the blocks of a message: text
/// accumulates, and any other expressible block first flushes the pending
/// text, so that items keep the order of the blocks.
pub open spec fn blocks_acc(role: Seq<char>, blocks: Seq<LegacyBlock>) -> (Seq<ItemView>, Seq<(Seq<char>, Seq<char>)>)
    decreases blocks.len(),
{
    if blocks.len() == 0 {
        (Seq::empty(), Seq::empty())
    } else {
        let (items, parts) = blocks_acc(role, blocks.drop_last());
        match blocks.last() {
            LegacyBlock::Text { text } => (items, parts.push((text_type(role), text@))),
            LegacyBlock::Thinking { signature } => (
                flush(role, items, parts).push(ItemView::Reasoning { encrypted_content: signature@ }),
                Seq::empty(),
            ),
            LegacyBlock::ToolUse { id, name, input } => (
                flush(role, items, parts).push(ItemView::FunctionCall { call_id: id@, name: name@, arguments: input@ }),
                Seq::empty(),
            ),
            LegacyBlock::ToolResult { tool_use_id, content } => (
                flush(role, items, parts).push(ItemView::FunctionCallOutput { call_id: tool_use_id@, output: content@ }),
                Seq::empty(),
            ),
            LegacyBlock::Other => (items, parts),
        }
    }
}

/// The input items of one request message.
pub open spec fn message_items(m: LegacyMessage) -> Seq<ItemView> {
    let role = m.role@;
    match m.content {
        LegacyContent::Text(t) => flush(role, Seq::empty(), seq![(text_type(role), t@)]),
        LegacyContent::Blocks(bs) => {
            let (items, parts) = blocks_acc(role, bs@);
            flush(role, items, parts)
        },
        LegacyContent::Other => Seq::empty(),
    }
}

/// The input items of a request's messages, in order.
pub open spec fn legacy_items(ms: Seq<LegacyMessage>) -> Seq<ItemView>
    decreases ms.len(),
{
    if ms.len() == 0 {
        Seq::empty()
    } else {
        legacy_items(ms.drop_last()) + message_items(ms.last())
    }
}

fn flush_exec(role: &String, items: &mut Vec<LegacyInputItem>, parts: Vec<InputPart>)
    ensures
        items_view(final(items)@) == flush(role@, items_view(old(items)@), parts_view(parts@)),
{
    if parts.len() > 0 {
        let ghost before = items@;
        let ghost pv = parts_view(parts@);
        items.push(LegacyInputItem::Message { role: role.clone(), content: parts });
        assert(items_view(items@) =~= items_view(before).push(ItemView::Message { role: role@, content: pv }));
    } else {
        assert(parts_view(parts@) =~= Seq::<(Seq<char>, Seq<char>)>::empty());
    }
}

fn push_item(items: &mut Vec<LegacyInputItem>, it: LegacyInputItem)
    ensures
        items_view(final(items)@) == items_view(old(items)@).push(it@),
{
    let ghost before = items@;
    let ghost iv = it@;
    items.push(it);
    assert(items_view(items@) =~= items_view(before).push(iv));
}

fn text_type_exec(role: &String) -> (r: String)
    ensures
        r@ == text_type(role@),
{
    if *role == "assistant".to_string() {
        "output_text".to_string()
    } else {
        "input_text".to_string()
    }
}

fn message_items_exec(m: &LegacyMessage, items: &mut Vec<LegacyInputItem>)
    ensures
        items_view(final(items)@) == items_view(old(items)@) + message_items(*m),
{
    let ghost start = items_view(items@);
    let role = &m.role;
    match &m.content {
        LegacyContent::Text(t) => {
            let mut parts: Vec<InputPart> = Vec::new();
            parts.push(InputPart { part_type: text_type_exec(role), text: t.clone() });
            assert(parts_view(parts@) =~= seq![(text_type(role@), t@)]);
            flush_exec(role, items, parts);
            assert(flush(role@, start, seq![(text_type(role@), t@)]) =~= start + flush(
                role@,
                Seq::empty(),
                seq![(text_type(role@), t@)],
            ));
        },
        LegacyContent::Blocks(bs) => {
            let mut parts: Vec<InputPart> = Vec::new();
            let mut i: usize = 0;
            while i < bs.len()
                invariant
                    i <= bs.len(),
                    ({
                        let (its, ps) = blocks_acc(role@, bs@.take(i as int));
                        items_view(items@) == start + its && parts_view(parts@) == ps
                    }),
                decreases bs.len() - i,
            {
                assert(bs@.take(i + 1).drop_last() =~= bs@.take(i as int));
                assert(bs@.take(i + 1).last() == bs@[i as int]);
                let ghost (its, ps) = blocks_acc(role@, bs@.take(i as int));
                match &bs[i] {
                    LegacyBlock::Text { text } => {
                        let ghost before = parts@;
                        parts.push(InputPart { part_type: text_type_exec(role), text: text.clone() });
                        assert(parts_view(parts@) =~= parts_view(before).push((text_type(role@), text@)));
                    },
                    LegacyBlock::Thinking { signature } => {
                        let mut pending: Vec<InputPart> = Vec::new();
                        std::mem::swap(&mut parts, &mut pending);
                        flush_exec(role, items, pending);
                        push_item(items, LegacyInputItem::Reasoning { encrypted_content: signature.clone() });
                        assert(parts_view(parts@) =~= Seq::<(Seq<char>, Seq<char>)>::empty());
                        assert(start + flush(role@, its, ps).push(ItemView::Reasoning { encrypted_content: signature@ })
                            =~= flush(role@, start + its, ps).push(ItemView::Reasoning { encrypted_content: signature@ }));
                    },
                    LegacyBlock::ToolUse { id, name, input } => {
                        let mut pending: Vec<InputPart> = Vec::new();
                        std::mem::swap(&mut parts, &mut pending);
                        flush_exec(role, items, pending);
                        push_item(items, LegacyInputItem::FunctionCall { call_id: id.clone(), name: name.clone(), arguments: input.clone() });
                        assert(parts_view(parts@) =~= Seq::<(Seq<char>, Seq<char>)>::empty());
                        assert(start + flush(role@, its, ps).push(
                            ItemView::FunctionCall { call_id: id@, name: name@, arguments: input@ },
                        ) =~= flush(role@, start + its, ps).push(
                            ItemView::FunctionCall { call_id: id@, name: name@, arguments: input@ },
                        ));
                    },
                    LegacyBlock::ToolResult { tool_use_id, content } => {
                        let mut pending: Vec<InputPart> = Vec::new();
                        std::mem::swap(&mut parts, &mut pending);
                        flush_exec(role, items, pending);
                        push_item(items, LegacyInputItem::FunctionCallOutput { call_id: tool_use_id.clone(), output: content.clone() });
                        assert(parts_view(parts@) =~= Seq::<(Seq<char>, Seq<char>)>::empty());
                        assert(start + flush(role@, its, ps).push(
                            ItemView::FunctionCallOutput { call_id: tool_use_id@, output: content@ },
                        ) =~= flush(role@, start + its, ps).push(
                            ItemView::FunctionCallOutput { call_id: tool_use_id@, output: content@ },
                        ));
                    },
                    LegacyBlock::Other => {},
                }
                i += 1;
            }
            assert(bs@.take(bs.len() as int) =~= bs@);
            let ghost (its, ps) = blocks_acc(role@, bs@);
            flush_exec(role, items, parts);
            assert(flush(role@, start + its, ps) =~= start + flush(role@, its, ps));
        },
        LegacyContent::Other => {
            assert(start + Seq::<ItemView>::empty() =~= start);
        },
    }
}

/// The Responses input items of a request's messages (see `legacy_items`).
pub fn legacy_input_items(messages: &Vec<LegacyMessage>) -> (r: Vec<LegacyInputItem>)
    ensures
        items_view(r@) == legacy_items(messages@),
{
    let mut items: Vec<LegacyInputItem> = Vec::new();
    let mut i: usize = 0;
    while i < messages.len()
        invariant
            i <= messages.len(),
            items_view(items@) == legacy_items(messages@.take(i as int)),
        decreases messages.len() - i,
    {
        assert(messages@.take(i + 1).drop_last() =~= messages@.take(i as int));
        assert(messages@.take(i + 1).last() == messages@[i as int]);
        message_items_exec(&messages[i], &mut items);
        i += 1;
    }
    assert(messages@.take(messages.len() as int) =~= messages@);
    items
}

/// A request of the Anthropic shape, as the adapter reads it.
pub struct LegacyRequest {
    pub model: String,
    pub messages: Vec<LegacyMessage>,
    pub system: Option<String>,
    /// Whether thinking is enabled.
    pub thinking_enabled: bool,
    pub max_tokens: u32,
}

/// The Responses request the adapter sends (the tool list is carried over as is).
pub struct LegacyResponsesRequest {
    pub model: String,
    pub instructions: Option<String>,
    pub input: Vec<LegacyInputItem>,
    pub reasoning: Option<ReasoningConfig>,
    pub max_output_tokens: u32,
    pub stream: bool,
    pub store: bool,
    pub response_includes: Vec<String>,
}

/// Builds the Responses request: the system prompt as instructions, the
/// messages as input items, high reasoning effort with automatic summaries
/// when thinking is enabled, streamed, stateless, asking for the encrypted
/// reasoning content.
pub fn legacy_responses_request(req: &LegacyRequest) -> (r: LegacyResponsesRequest)
    ensures
        r.model@ == req.model@,
        crate::pi_types::opt_str(r.instructions) == crate::pi_types::opt_str(req.system),
        items_view(r.input@) == legacy_items(req.messages@),
        match r.reasoning {
            Some(c) => req.thinking_enabled && c.effort@ == "high"@ && crate::pi_types::opt_str(c.summary) == Some("auto"@),
            None => !req.thinking_enabled,
        },
        r.max_output_tokens == req.max_tokens,
        r.stream,
        !r.store,
        r.response_includes@.len() == 1,
        r.response_includes@[0]@ == "reasoning.encrypted_content"@,
{
    let mut includes: Vec<String> = Vec::new();
    includes.push("reasoning.encrypted_content".to_string());
    LegacyResponsesRequest {
        model: req.model.clone(),
        instructions: match &req.system {
            Some(s) => Some(s.clone()),
            None => None,
        },
        input: legacy_input_items(&req.messages),
        reasoning: if req.thinking_enabled {
            Some(ReasoningConfig { effort: "high".to_string(), summary: Some("auto".to_string()) })
        } else {
            None
        },
        max_output_tokens: req.max_tokens,
        stream: true,
        store: false,
        response_includes: includes,
    }
}

/// Token counts of a response.
pub struct LegacyUsage {
    pub input_tokens: u64,
    pub output_tokens: u64,
}

/// A response object of a stream event; `error` is the error's JSON text.
pub struct LegacyResponse {
    pub id: String,
    pub model: Option<String>,
    pub status: Option<String>,
    pub usage: Option<LegacyUsage>,
    pub error: Option<String>,
}

/// An output item of a stream event (the three kinds the adapter handles).
pub enum LegacyOutputItem {
    Reasoning { encrypted_content: Option<String> },
    Message,
    FunctionCall { id: Option<String>, call_id: String, name: String, arguments: Option<String> },
}

/// A Responses stream event (the kinds the adapter handles).
pub enum LegacyStreamEvent {
    ResponseCreated { response: LegacyResponse },
    ResponseCompleted { response: LegacyResponse },
    ResponseIncomplete { response: LegacyResponse },
    ResponseFailed { response: LegacyResponse },
    OutputItemAdded { output_index: u32, item: LegacyOutputItem },
    OutputItemDone { output_index: u32, item: LegacyOutputItem },
    OutputTextDelta { output_index: u32, delta: String },
    ReasoningSummaryTextDelta { output_index: u32, delta: String },
    FunctionCallArgumentsDelta { item_id: String, output_index: u32, delta: String },
    Error { message: Option<String> },
}

/// An Anthropic stream event the adapter emits, or a failure with its message.
pub enum OutView {
    Start { id: Seq<char>, model: Seq<char> },
    StartThinking { index: u32 },
    StartText { index: u32 },
    StartToolUse { index: u32, id: Seq<char>, name: Seq<char> },
    TextDelta { index: u32, text: Seq<char> },
    ThinkingDelta { index: u32, thinking: Seq<char> },
    SignatureDelta { index: u32, signature: Seq<char> },
    JsonDelta { index: u32, json: Seq<char> },
    Stop { index: u32 },
    Delta { stop_reason: Seq<char>, input_tokens: u64, output_tokens: u64 },
    MessageStop,
    Failed(Seq<char>),
}

/// Whether `e` is the event described by `v`: a message start with zero
/// usage, blocks that start empty (a tool use with `{}` input), deltas, and
/// a message delta with only the stop reason and the token counts set.
pub open spec fn emits(e: Result<MessageStreamEvent, String>, v: OutView) -> bool {
    match e {
        Err(m) => v == OutView::Failed(m@),
        Ok(ev) => match v {
            OutView::Start { id, model } => match ev {
                MessageStreamEvent::MessageStart { message } => message.id@ == id && message.model@ == model
                    && message.usage.input_tokens == 0 && message.usage.output_tokens == 0
                    && message.usage.cache_creation_input_tokens is None && message.usage.cache_read_input_tokens is None,
                _ => false,
            },
            OutView::StartThinking { index } => match ev {
                MessageStreamEvent::ContentBlockStart { index: i, content_block: ContentBlock::Thinking { thinking, signature } } =>
                    i == index && thinking@.len() == 0 && signature@.len() == 0,
                _ => false,
            },
            OutView::StartText { index } => match ev {
                MessageStreamEvent::ContentBlockStart { index: i, content_block: ContentBlock::Text { text } } => i == index
                    && text@.len() == 0,
                _ => false,
            },
            OutView::StartToolUse { index, id, name } => match ev {
                MessageStreamEvent::ContentBlockStart { index: i, content_block: ContentBlock::ToolUse { id: x, name: n, input } } =>
                    i == index && x@ == id && n@ == name && input@ == "{}"@,
                _ => false,
            },
            OutView::TextDelta { index, text } => match ev {
                MessageStreamEvent::ContentBlockDelta { index: i, delta: ContentBlockDelta::TextDelta { text: t } } => i == index
                    && t@ == text,
                _ => false,
            },
            OutView::ThinkingDelta { index, thinking } => match ev {
                MessageStreamEvent::ContentBlockDelta { index: i, delta: ContentBlockDelta::ThinkingDelta { thinking: t } } =>
                    i == index && t@ == thinking,
                _ => false,
            },
            OutView::SignatureDelta { index, signature } => match ev {
                MessageStreamEvent::ContentBlockDelta { index: i, delta: ContentBlockDelta::SignatureDelta { signature: t } } =>
                    i == index && t@ == signature,
                _ => false,
            },
            OutView::JsonDelta { index, json } => match ev {
                MessageStreamEvent::ContentBlockDelta { index: i, delta: ContentBlockDelta::InputJsonDelta { partial_json: t } } =>
                    i == index && t@ == json,
                _ => false,
            },
            OutView::Stop { index } => ev == MessageStreamEvent::ContentBlockStop { index },
            OutView::Delta { stop_reason, input_tokens, output_tokens } => match ev {
                MessageStreamEvent::MessageDelta { delta, usage: Some(u) } => (match delta.stop_reason {
                    Some(r) => r@ == stop_reason,
                    None => false,
                }) && delta.stop_sequence is None && delta.stop_details is None && u.output_tokens == Some(output_tokens)
                    && u.input_tokens == Some(input_tokens) && u.cache_creation_input_tokens is None
                    && u.cache_read_input_tokens is None && u.output_tokens_details is None,
                _ => false,
            },
            OutView::MessageStop => ev == MessageStreamEvent::MessageStop,
            OutView::Failed(_) => false,
        },
    }
}

/// The text of an optional string, empty when absent.
pub open spec fn or_empty(o: Option<String>) -> Seq<char> {
    match o {
        Some(s) => s@,
        None => Seq::empty(),
    }
}

/// The end of a response: the stop reason (`max_tokens` when the response
/// is incomplete, else `end_turn`) with its token counts (zero when not
/// reported), then the message stop.
pub open spec fn finish_events(response: LegacyResponse) -> Seq<OutView> {
    let stop = if response.status matches Some(s) && s@ == "incomplete"@ {
        "max_tokens"@
    } else {
        "end_turn"@
    };
    let (input_tokens, output_tokens) = match response.usage {
        Some(u) => (u.input_tokens, u.output_tokens),
        None => (0u64, 0u64),
    };
    seq![OutView::Delta { stop_reason: stop, input_tokens, output_tokens }, OutView::MessageStop]
}

/// What an event becomes, given the function-call items that already
/// streamed argument deltas, and that set afterwards.  An item that is done
/// ends its block: a reasoning item first gives its encrypted content as
/// the signature, and a function call whose arguments never streamed gives
/// its complete arguments (when not empty) as one delta.
pub open spec fn translate_spec(seen: Set<Seq<char>>, e: LegacyStreamEvent) -> (Set<Seq<char>>, Seq<OutView>) {
    match e {
        LegacyStreamEvent::ResponseCreated { response } => (
            seen,
            seq![OutView::Start { id: response.id@, model: or_empty(response.model) }],
        ),
        LegacyStreamEvent::OutputItemAdded { output_index, item } => (
            seen,
            seq![
                match item {
                    LegacyOutputItem::Reasoning { .. } => OutView::StartThinking { index: output_index },
                    LegacyOutputItem::Message => OutView::StartText { index: output_index },
                    LegacyOutputItem::FunctionCall { call_id, name, .. } => OutView::StartToolUse {
                        index: output_index,
                        id: call_id@,
                        name: name@,
                    },
                },
            ],
        ),
        LegacyStreamEvent::OutputTextDelta { output_index, delta } => (
            seen,
            seq![OutView::TextDelta { index: output_index, text: delta@ }],
        ),
        LegacyStreamEvent::ReasoningSummaryTextDelta { output_index, delta } => (
            seen,
            seq![OutView::ThinkingDelta { index: output_index, thinking: delta@ }],
        ),
        LegacyStreamEvent::FunctionCallArgumentsDelta { item_id, output_index, delta } => (
            seen.insert(item_id@),
            seq![OutView::JsonDelta { index: output_index, json: delta@ }],
        ),
        LegacyStreamEvent::OutputItemDone { output_index, item } => (
            seen,
            match item {
                LegacyOutputItem::Reasoning { encrypted_content } => match encrypted_content {
                    Some(enc) => seq![
                        OutView::SignatureDelta { index: output_index, signature: enc@ },
                        OutView::Stop { index: output_index },
                    ],
                    None => seq![OutView::Stop { index: output_index }],
                },
                LegacyOutputItem::FunctionCall { id, arguments, .. } => match arguments {
                    Some(a) => if !seen.contains(or_empty(id)) && a@.len() > 0 {
                        seq![OutView::JsonDelta { index: output_index, json: a@ }, OutView::Stop { index: output_index }]
                    } else {
                        seq![OutView::Stop { index: output_index }]
                    },
                    None => seq![OutView::Stop { index: output_index }],
                },
                LegacyOutputItem::Message => seq![OutView::Stop { index: output_index }],
            },
        ),
        LegacyStreamEvent::ResponseCompleted { response } => (seen, finish_events(response)),
        LegacyStreamEvent::ResponseIncomplete { response } => (seen, finish_events(response)),
        LegacyStreamEvent::ResponseFailed { response } => (seen, seq![OutView::Failed(or_empty(response.error))]),
        LegacyStreamEvent::Error { message } => (seen, seq![OutView::Failed(or_empty(message))]),
    }
}

/// The ids among the strings.
pub open spec fn id_set(v: Seq<String>) -> Set<Seq<char>> {
    Set::new(|s: Seq<char>| exists|i: int| 0 <= i < v.len() && v[i]@ == s)
}

/// Whether `out` is exactly the events described by `expected`.
pub open spec fn emits_all(out: Seq<Result<MessageStreamEvent, String>>, expected: Seq<OutView>) -> bool {
    out.len() == expected.len() && forall|i: int| 0 <= i < out.len() ==> emits(#[trigger] out[i], expected[i])
}

/// The state of the inbound conversion: the function-call items whose
/// arguments arrived as deltas.
pub struct LegacyTranslator {
    pub delta_items: Vec<String>,
}

fn or_empty_exec(o: Option<String>) -> (r: String)
    ensures
        r@ == or_empty(o),
{
    match o {
        Some(s) => s,
        None => String::new(),
    }
}

fn stop_event(index: u32) -> (r: Result<MessageStreamEvent, String>)
    ensures
        emits(r, OutView::Stop { index }),
{
    Ok(MessageStreamEvent::ContentBlockStop { index })
}

fn finish_exec(response: LegacyResponse) -> (r: Vec<Result<MessageStreamEvent, String>>)
    ensures
        emits_all(r@, finish_events(response)),
{
    let incomplete = match &response.status {
        Some(s) => *s == "incomplete".to_string(),
        None => false,
    };
    let stop = if incomplete { "max_tokens".to_string() } else { "end_turn".to_string() };
    let (input_tokens, output_tokens) = match &response.usage {
        Some(u) => (u.input_tokens, u.output_tokens),
        None => (0u64, 0u64),
    };
    let mut v: Vec<Result<MessageStreamEvent, String>> = Vec::new();
    v.push(
        Ok(
            MessageStreamEvent::MessageDelta {
                delta: MessageDelta { stop_reason: Some(stop), stop_sequence: None, stop_details: None },
                usage: Some(
                    MessageDeltaUsage {
                        output_tokens: Some(output_tokens),
                        cache_creation_input_tokens: None,
                        cache_read_input_tokens: None,
                        input_tokens: Some(input_tokens),
                        output_tokens_details: None,
                    },
                ),
            },
        ),
    );
    v.push(Ok(MessageStreamEvent::MessageStop));
    v
}

/// Arguments that streamed as deltas are not sent again when their function
/// call is done: the done event then only ends the block.
pub proof fn lemma_streamed_arguments_not_repeated(
    seen: Set<Seq<char>>,
    item_id: String,
    delta_index: u32,
    delta: String,
    done_index: u32,
    done_id: String,
    call_id: String,
    name: String,
    arguments: Option<String>,
)
    requires
        done_id@ == item_id@,
    ensures
        ({
            let after = translate_spec(
                seen,
                LegacyStreamEvent::FunctionCallArgumentsDelta { item_id, output_index: delta_index, delta },
            ).0;
            translate_spec(
                after,
                LegacyStreamEvent::OutputItemDone {
                    output_index: done_index,
                    item: LegacyOutputItem::FunctionCall { id: Some(done_id), call_id, name, arguments },
                },
            ).1 == seq![OutView::Stop { index: done_index }]
        }),
{
}

impl LegacyTranslator {
    /// A translator that has seen no argument delta.
    pub fn new() -> (r: LegacyTranslator)
        ensures
            id_set(r.delta_items@) == Set::<Seq<char>>::empty(),
    {
        let r = LegacyTranslator { delta_items: Vec::new() };
        assert(id_set(r.delta_items@) =~= Set::<Seq<char>>::empty());
        r
    }

    fn saw_delta(&self, id: &String) -> (r: bool)
        ensures
            r == id_set(self.delta_items@).contains(id@),
    {
        let mut i: usize = 0;
        while i < self.delta_items.len()
            invariant
                i <= self.delta_items.len(),
                forall|k: int| 0 <= k < i ==> self.delta_items@[k]@ != id@,
            decreases self.delta_items.len() - i,
        {
            if self.delta_items[i] == *id {
                assert(id_set(self.delta_items@).contains(id@)) by {
                    assert(self.delta_items@[i as int]@ == id@);
                }
                return true;
            }
            i += 1;
        }
        false
    }

    /// Converts one stream event (see `translate_spec`).
    pub fn translate(&mut self, e: LegacyStreamEvent) -> (r: Vec<Result<MessageStreamEvent, String>>)
        ensures
            id_set(final(self).delta_items@) == translate_spec(id_set(old(self).delta_items@), e).0,
            emits_all(r@, translate_spec(id_set(old(self).delta_items@), e).1),
    {
        let mut v: Vec<Result<MessageStreamEvent, String>> = Vec::new();
        match e {
            LegacyStreamEvent::ResponseCreated { response } => {
                let model = or_empty_exec(response.model);
                v.push(
                    Ok(
                        MessageStreamEvent::MessageStart {
                            message: StartMessage {
                                id: response.id,
                                model,
                                usage: StartUsage {
                                    input_tokens: 0,
                                    output_tokens: 0,
                                    cache_creation_input_tokens: None,
                                    cache_read_input_tokens: None,
                                },
                            },
                        },
                    ),
                );
            },
            LegacyStreamEvent::OutputItemAdded { output_index, item } => {
                let block = match item {
                    LegacyOutputItem::Reasoning { .. } => ContentBlock::Thinking { thinking: String::new(), signature: String::new() },
                    LegacyOutputItem::Message => ContentBlock::Text { text: String::new() },
                    LegacyOutputItem::FunctionCall { call_id, name, .. } => ContentBlock::ToolUse {
                        id: call_id,
                        name,
                        input: "{}".to_string(),
                    },
                };
                v.push(Ok(MessageStreamEvent::ContentBlockStart { index: output_index, content_block: block }));
            },
            LegacyStreamEvent::OutputTextDelta { output_index, delta } => {
                v.push(Ok(MessageStreamEvent::ContentBlockDelta { index: output_index, delta: ContentBlockDelta::TextDelta { text: delta } }));
            },
            LegacyStreamEvent::ReasoningSummaryTextDelta { output_index, delta } => {
                v.push(
                    Ok(MessageStreamEvent::ContentBlockDelta { index: output_index, delta: ContentBlockDelta::ThinkingDelta { thinking: delta } }),
                );
            },
            LegacyStreamEvent::FunctionCallArgumentsDelta { item_id, output_index, delta } => {
                let ghost before = self.delta_items@;
                self.delta_items.push(item_id);
                assert(id_set(self.delta_items@) =~= id_set(before).insert(self.delta_items@[before.len() as int]@)) by {
                    assert forall|s: Seq<char>| id_set(self.delta_items@).contains(s) implies id_set(before).insert(
                        self.delta_items@[before.len() as int]@,
                    ).contains(s) by {
                        let i = choose|i: int| 0 <= i < self.delta_items@.len() && self.delta_items@[i]@ == s;
                        if i < before.len() {
                            assert(before[i]@ == s);
                        }
                    }
                    assert forall|s: Seq<char>| id_set(before).insert(self.delta_items@[before.len() as int]@).contains(s) implies id_set(
                        self.delta_items@,
                    ).contains(s) by {
                        if s != self.delta_items@[before.len() as int]@ {
                            let i = choose|i: int| 0 <= i < before.len() && before[i]@ == s;
                            assert(self.delta_items@[i]@ == s);
                        }
                    }
                }
                v.push(
                    Ok(MessageStreamEvent::ContentBlockDelta { index: output_index, delta: ContentBlockDelta::InputJsonDelta { partial_json: delta } }),
                );
            },
            LegacyStreamEvent::OutputItemDone { output_index, item } => {
                match item {
                    LegacyOutputItem::Reasoning { encrypted_content } => {
                        match encrypted_content {
                            Some(enc) => {
                                v.push(
                                    Ok(MessageStreamEvent::ContentBlockDelta { index: output_index, delta: ContentBlockDelta::SignatureDelta { signature: enc } }),
                                );
                            },
                            None => {},
                        }
                    },
                    LegacyOutputItem::FunctionCall { id, arguments, .. } => {
                        let item_id = or_empty_exec(id);
                        let has_delta = self.saw_delta(&item_id);
                        if !has_delta {
                            match arguments {
                                Some(a) => {
                                    if !a.as_str().is_empty() {
                                        v.push(
                                            Ok(MessageStreamEvent::ContentBlockDelta { index: output_index, delta: ContentBlockDelta::InputJsonDelta { partial_json: a } }),
                                        );
                                    }
                                },
                                None => {},
                            }
                        }
                    },
                    LegacyOutputItem::Message => {},
                }
                v.push(stop_event(output_index));
            },
            LegacyStreamEvent::ResponseCompleted { response } => {
                v = finish_exec(response);
            },
            LegacyStreamEvent::ResponseIncomplete { response } => {
                v = finish_exec(response);
            },
            LegacyStreamEvent::ResponseFailed { response } => {
                v.push(Err(or_empty_exec(response.error)));
            },
            LegacyStreamEvent::Error { message } => {
                v.push(Err(or_empty_exec(message)));
            },
        }
        v
    }
}

} // verus!
