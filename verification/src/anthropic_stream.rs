//! Reading an Anthropic Messages event stream into an assistant reply.
//!
//! Content blocks are gathered apart from the reply; every progress event
//! carries the reply with the blocks gathered so far.  The caller feeds
//! the decoded server events to `AnthropicStream::process_event` and ends
//! with `AnthropicStream::final_event`.
use vstd::prelude::*;
use crate::anthropic::{RefusalStopDetails, map_stop_reason, spec_map_stop_reason};
use crate::json_parse::{parse_streaming_json, spec_parse_streaming};
use crate::pi_types::{AssistantContent, AssistantContentView, AssistantMessage, AssistantMessageView, AssistantMessageEvent, AssistantMessageEventView, StopReason, TextContent, TextContentView, ThinkingContent, ThinkingContentView, ToolCall, ToolCallView, Usage, assistant_contents_view, events_view, opt_str, clone_opt_str, error_event, spec_failed, spec_final_event, unknown_error};
use crate::text::push_str;

verus! {

/// Token counts of `message_start`.
pub struct StartUsage {
    pub input_tokens: u64,
    pub output_tokens: u64,
    pub cache_creation_input_tokens: Option<u64>,
    pub cache_read_input_tokens: Option<u64>,
}

/// The message announced by `message_start` (the fields the reply takes).
pub struct StartMessage {
    pub id: String,
    pub model: String,
    pub usage: StartUsage,
}

/// A content block as it starts; `input` of a tool use is JSON text.
pub enum ContentBlock {
    Thinking { thinking: String, signature: String },
    RedactedThinking { data: String },
    Text { text: String },
    ToolUse { id: String, name: String, input: String },
}

/// A delta of a content block.
pub enum ContentBlockDelta {
    ThinkingDelta { thinking: String },
    SignatureDelta { signature: String },
    TextDelta { text: String },
    InputJsonDelta { partial_json: String },
}

pub struct MessageDelta {
    pub stop_reason: Option<String>,
    pub stop_sequence: Option<String>,
    pub stop_details: Option<RefusalStopDetails>,
}

pub struct OutputTokensDetails {
    pub thinking_tokens: Option<u64>,
}

/// Token counts of `message_delta`; absent fields leave the counts as they are.
pub struct MessageDeltaUsage {
    pub output_tokens: Option<u64>,
    pub cache_creation_input_tokens: Option<u64>,
    pub cache_read_input_tokens: Option<u64>,
    pub input_tokens: Option<u64>,
    pub output_tokens_details: Option<OutputTokensDetails>,
}

pub struct MessageStreamError {
    pub error_type: String,
    pub message: String,
}

/// One server event of a Messages stream.
pub enum MessageStreamEvent {
    MessageStart { message: StartMessage },
    MessageDelta { delta: MessageDelta, usage: Option<MessageDeltaUsage> },
    MessageStop,
    ContentBlockStart { index: u32, content_block: ContentBlock },
    ContentBlockDelta { index: u32, delta: ContentBlockDelta },
    ContentBlockStop { index: u32 },
    Ping,
    Error { error: MessageStreamError },
    Unknown,
}

/// A content block being gathered, with the server's index and the tool
/// input JSON received so far.
pub struct Block {
    pub index: u32,
    pub content: AssistantContent,
    pub partial_json: String,
}

pub struct BlockView {
    pub index: u32,
    pub content: AssistantContentView,
    pub partial_json: Seq<char>,
}

impl View for Block {
    type V = BlockView;

    open spec fn view(&self) -> BlockView {
        BlockView { index: self.index, content: self.content@, partial_json: self.partial_json@ }
    }
}

pub open spec fn blocks_view(v: Seq<Block>) -> Seq<BlockView> {
    v.map_values(|b: Block| b@)
}

/// State of a stream being read.
pub struct AnthropicStream {
    /// The reply's own fields (its content stays as it started).
    pub output: AssistantMessage,
    /// Content blocks in order of arrival.
    pub blocks: Vec<Block>,
}

#[verifier::ext_equal]
pub struct AnthropicStreamView {
    pub output: AssistantMessageView,
    pub blocks: Seq<BlockView>,
}

impl View for AnthropicStream {
    type V = AnthropicStreamView;

    open spec fn view(&self) -> AnthropicStreamView {
        AnthropicStreamView { output: self.output@, blocks: blocks_view(self.blocks@) }
    }
}

/// The contents of the blocks.
pub open spec fn block_contents(b: Seq<BlockView>) -> Seq<AssistantContentView> {
    b.map_values(|x: BlockView| x.content)
}

/// The reply with the gathered blocks as its content.
pub open spec fn spec_partial(st: AnthropicStreamView) -> AssistantMessageView {
    AssistantMessageView { content: block_contents(st.blocks), ..st.output }
}

/// The sum of the four token counts (wrapping, as unsigned machine addition).
pub open spec fn usage_total(u: Usage) -> u64 {
    u.input.wrapping_add(u.output).wrapping_add(u.cache_read).wrapping_add(u.cache_write)
}

pub open spec fn with_total(u: Usage) -> Usage {
    Usage { total_tokens: usage_total(u), ..u }
}

/// `message_start`: the response id, the answering model (when given) and
/// the initial token counts.
pub open spec fn spec_message_start(st: AnthropicStreamView, m: StartMessage) -> AnthropicStreamView {
    let o = st.output;
    let u = Usage {
        input: m.usage.input_tokens,
        output: m.usage.output_tokens,
        cache_read: match m.usage.cache_read_input_tokens {
            Some(x) => x,
            None => 0,
        },
        cache_write: match m.usage.cache_creation_input_tokens {
            Some(x) => x,
            None => 0,
        },
        ..o.usage
    };
    AnthropicStreamView {
        output: AssistantMessageView {
            response_id: Some(m.id@),
            model: if m.model@.len() > 0 {
                m.model@
            } else {
                o.model
            },
            usage: with_total(u),
            ..o
        },
        ..st
    }
}

/// "[Reasoning redacted]".
pub open spec fn redacted_text() -> Seq<char> {
    "[Reasoning redacted]"@
}

/// The block a starting content block becomes.
pub open spec fn start_content(cb: ContentBlock) -> AssistantContentView {
    match cb {
        ContentBlock::Text { text } => AssistantContentView::Text(TextContentView { text: text@, text_signature: None }),
        ContentBlock::Thinking { thinking, signature } => AssistantContentView::Thinking(
            ThinkingContentView { thinking: thinking@, thinking_signature: Some(signature@), redacted: None },
        ),
        ContentBlock::RedactedThinking { data } => AssistantContentView::Thinking(
            ThinkingContentView { thinking: redacted_text(), thinking_signature: Some(data@), redacted: Some(true) },
        ),
        ContentBlock::ToolUse { id, name, input } => AssistantContentView::ToolCall(
            ToolCallView { id: id@, name: name@, arguments: input@, thought_signature: None },
        ),
    }
}

/// The start event of a block kind.
pub open spec fn start_event(c: AssistantContentView, ci: usize, p: AssistantMessageView) -> AssistantMessageEventView {
    match c {
        AssistantContentView::Text(_) => AssistantMessageEventView::TextStart { content_index: ci, partial: p },
        AssistantContentView::Thinking(_) => AssistantMessageEventView::ThinkingStart { content_index: ci, partial: p },
        AssistantContentView::ToolCall(_) => AssistantMessageEventView::ToolcallStart { content_index: ci, partial: p },
    }
}

/// Position of the first block with server index `index`.
pub open spec fn first_pos(b: Seq<BlockView>, index: u32) -> Option<int>
    decreases b.len(),
{
    if b.len() == 0 {
        None
    } else {
        match first_pos(b.drop_last(), index) {
            Some(k) => Some(k),
            None => if b.last().index == index {
                Some(b.len() - 1)
            } else {
                None
            },
        }
    }
}

pub open spec fn with_block(st: AnthropicStreamView, k: int, b: BlockView) -> AnthropicStreamView {
    AnthropicStreamView { blocks: st.blocks.update(k, b), ..st }
}

/// A delta applied to the block it names (a delta of another kind than
/// the block, or for an unknown index, is ignored; a signature delta
/// extends the signature and emits nothing).
pub open spec fn spec_block_delta(st: AnthropicStreamView, index: u32, d: ContentBlockDelta) -> (AnthropicStreamView, Seq<
    AssistantMessageEventView,
>) {
    match first_pos(st.blocks, index) {
        None => (st, Seq::empty()),
        Some(k) => {
            let b = st.blocks[k];
            let ci = k as usize;
            match (d, b.content) {
                (ContentBlockDelta::TextDelta { text }, AssistantContentView::Text(t)) => {
                    let s = with_block(
                        st,
                        k,
                        BlockView { content: AssistantContentView::Text(TextContentView { text: t.text + text@, ..t }), ..b },
                    );
                    (s, seq![AssistantMessageEventView::TextDelta { content_index: ci, delta: text@, partial: spec_partial(s) }])
                },
                (ContentBlockDelta::ThinkingDelta { thinking }, AssistantContentView::Thinking(t)) => {
                    let s = with_block(
                        st,
                        k,
                        BlockView {
                            content: AssistantContentView::Thinking(ThinkingContentView { thinking: t.thinking + thinking@, ..t }),
                            ..b
                        },
                    );
                    (
                        s,
                        seq![
                            AssistantMessageEventView::ThinkingDelta {
                                content_index: ci,
                                delta: thinking@,
                                partial: spec_partial(s),
                            },
                        ],
                    )
                },
                (ContentBlockDelta::InputJsonDelta { partial_json }, AssistantContentView::ToolCall(tc)) => {
                    let pj = b.partial_json + partial_json@;
                    let s = with_block(
                        st,
                        k,
                        BlockView {
                            index: b.index,
                            content: AssistantContentView::ToolCall(ToolCallView { arguments: spec_parse_streaming(pj), ..tc }),
                            partial_json: pj,
                        },
                    );
                    (
                        s,
                        seq![
                            AssistantMessageEventView::ToolcallDelta {
                                content_index: ci,
                                delta: partial_json@,
                                partial: spec_partial(s),
                            },
                        ],
                    )
                },
                (ContentBlockDelta::SignatureDelta { signature }, AssistantContentView::Thinking(t)) => {
                    let old_sig = match t.thinking_signature {
                        Some(x) => x,
                        None => Seq::empty(),
                    };
                    let s = with_block(
                        st,
                        k,
                        BlockView {
                            content: AssistantContentView::Thinking(
                                ThinkingContentView { thinking_signature: Some(old_sig + signature@), ..t },
                            ),
                            ..b
                        },
                    );
                    (s, Seq::empty())
                },
                _ => (st, Seq::empty()),
            }
        },
    }
}

/// A block ends: a tool call's arguments are parsed from all its JSON,
/// and the end event of its kind is emitted.
pub open spec fn spec_block_stop(st: AnthropicStreamView, index: u32) -> (AnthropicStreamView, Seq<AssistantMessageEventView>) {
    match first_pos(st.blocks, index) {
        None => (st, Seq::empty()),
        Some(k) => {
            let b = st.blocks[k];
            let ci = k as usize;
            match b.content {
                AssistantContentView::Text(t) => (
                    st,
                    seq![AssistantMessageEventView::TextEnd { content_index: ci, content: t.text, partial: spec_partial(st) }],
                ),
                AssistantContentView::Thinking(t) => (
                    st,
                    seq![
                        AssistantMessageEventView::ThinkingEnd {
                            content_index: ci,
                            content: t.thinking,
                            partial: spec_partial(st),
                        },
                    ],
                ),
                AssistantContentView::ToolCall(tc) => {
                    let tc2 = ToolCallView { arguments: spec_parse_streaming(b.partial_json), ..tc };
                    let s = with_block(st, k, BlockView { content: AssistantContentView::ToolCall(tc2), ..b });
                    (
                        s,
                        seq![
                            AssistantMessageEventView::ToolcallEnd {
                                content_index: ci,
                                tool_call: tc2,
                                partial: spec_partial(s),
                            },
                        ],
                    )
                },
            }
        },
    }
}

/// Token counts of `message_delta`: each given count replaces the old one.
pub open spec fn spec_delta_usage(u: Usage, d: Option<MessageDeltaUsage>) -> Usage {
    let u2 = match d {
        Some(x) => Usage {
            input: match x.input_tokens {
                Some(v) => v,
                None => u.input,
            },
            output: match x.output_tokens {
                Some(v) => v,
                None => u.output,
            },
            cache_read: match x.cache_read_input_tokens {
                Some(v) => v,
                None => u.cache_read,
            },
            cache_write: match x.cache_creation_input_tokens {
                Some(v) => v,
                None => u.cache_write,
            },
            reasoning: match x.output_tokens_details {
                Some(det) => match det.thinking_tokens {
                    Some(t) => Some(t),
                    None => u.reasoning,
                },
                None => u.reasoning,
            },
            ..u
        },
        None => u,
    };
    with_total(u2)
}

/// `message_delta`: a stop reason is kept raw and mapped (an unknown one
/// ends the stream with an error); the token counts are updated.
pub open spec fn spec_message_delta(st: AnthropicStreamView, delta: MessageDelta, usage: Option<MessageDeltaUsage>) -> (
    AnthropicStreamView,
    Result<(), Seq<char>>,
) {
    match delta.stop_reason {
        Some(sr) => {
            let o = AssistantMessageView { raw_stop_reason: Some(sr@), ..st.output };
            match spec_map_stop_reason(
                sr@,
                match delta.stop_details {
                    Some(d) => opt_str(d.explanation),
                    None => None,
                },
            ) {
                Err(e) => (AnthropicStreamView { output: o, ..st }, Err(e)),
                Ok((m, msg)) => (
                    AnthropicStreamView {
                        output: AssistantMessageView {
                            stop_reason: m,
                            error_message: msg,
                            usage: spec_delta_usage(o.usage, usage),
                            ..o
                        },
                        ..st
                    },
                    Ok(()),
                ),
            }
        },
        None => (
            AnthropicStreamView {
                output: AssistantMessageView { usage: spec_delta_usage(st.output.usage, usage), ..st.output },
                ..st
            },
            Ok(()),
        ),
    }
}

pub struct AnthropicOutcome {
    pub state: AnthropicStreamView,
    pub events: Seq<AssistantMessageEventView>,
    pub result: Result<(), Seq<char>>,
}

proof fn lemma_first_pos_none(b: Seq<BlockView>, index: u32)
    requires
        forall|j: int| 0 <= j < b.len() ==> #[trigger] b[j].index != index,
    ensures
        first_pos(b, index) is None,
    decreases b.len(),
{
    if b.len() > 0 {
        lemma_first_pos_none(b.drop_last(), index);
    }
}

proof fn lemma_first_pos(b: Seq<BlockView>, index: u32, k: int)
    requires
        0 <= k < b.len(),
        b[k].index == index,
        forall|j: int| 0 <= j < k ==> #[trigger] b[j].index != index,
    ensures
        first_pos(b, index) == Some(k),
    decreases b.len(),
{
    if k < b.len() - 1 {
        lemma_first_pos(b.drop_last(), index, k);
    } else {
        lemma_first_pos_none(b.drop_last(), index);
    }
}

/// A thinking delta for an open thinking block appends the delta to that
/// block's thinking text and leaves the reply and every other block as
/// they were; a text delta does the same for an open text block.
pub proof fn lemma_deltas_append(st: AnthropicStreamView, index: u32, k: int, thinking: String, text: String)
    requires
        0 <= k < st.blocks.len(),
        st.blocks[k].index == index,
        forall|j: int| 0 <= j < k ==> #[trigger] st.blocks[j].index != index,
    ensures
        st.blocks[k].content matches AssistantContentView::Thinking(old) ==> {
            let o = spec_anthropic_event(
                st,
                MessageStreamEvent::ContentBlockDelta { index, delta: ContentBlockDelta::ThinkingDelta { thinking } },
            );
            &&& o.result is Ok
            &&& o.state.output == st.output
            &&& o.state.blocks.len() == st.blocks.len()
            &&& forall|j: int| 0 <= j < st.blocks.len() && j != k ==> o.state.blocks[j] == st.blocks[j]
            &&& o.state.blocks[k].content matches AssistantContentView::Thinking(new) && new.thinking
                == old.thinking + thinking@ && new.thinking_signature == old.thinking_signature
        },
        st.blocks[k].content matches AssistantContentView::Text(old) ==> {
            let o = spec_anthropic_event(
                st,
                MessageStreamEvent::ContentBlockDelta { index, delta: ContentBlockDelta::TextDelta { text } },
            );
            &&& o.result is Ok
            &&& o.state.output == st.output
            &&& o.state.blocks.len() == st.blocks.len()
            &&& forall|j: int| 0 <= j < st.blocks.len() && j != k ==> o.state.blocks[j] == st.blocks[j]
            &&& o.state.blocks[k].content matches AssistantContentView::Text(new) && new.text == old.text
                + text@
        },
{
    lemma_first_pos(st.blocks, index, k);
}

/// Stopping a text or thinking block leaves the stream as it was and
/// reports the block's whole text: a single end event whose content is
/// the text accumulated from the block's start and deltas.
pub proof fn lemma_stop_reports_text(st: AnthropicStreamView, index: u32, k: int)
    requires
        0 <= k < st.blocks.len(),
        st.blocks[k].index == index,
        forall|j: int| 0 <= j < k ==> #[trigger] st.blocks[j].index != index,
    ensures
        ({
            let o = spec_anthropic_event(st, MessageStreamEvent::ContentBlockStop { index });
            &&& st.blocks[k].content is Thinking ==> o.state == st && o.events.len() == 1 && o.events[0] is ThinkingEnd
                && o.events[0]->ThinkingEnd_content == st.blocks[k].content->Thinking_0.thinking
            &&& st.blocks[k].content is Text ==> o.state == st && o.events.len() == 1 && o.events[0] is TextEnd
                && o.events[0]->TextEnd_content == st.blocks[k].content->Text_0.text
        }),
{
    lemma_first_pos(st.blocks, index, k);
}

/// What one server event does.
pub open spec fn spec_anthropic_event(st: AnthropicStreamView, ev: MessageStreamEvent) -> AnthropicOutcome {
    match ev {
        MessageStreamEvent::MessageStart { message } => AnthropicOutcome {
            state: spec_message_start(st, message),
            events: Seq::empty(),
            result: Ok(()),
        },
        MessageStreamEvent::ContentBlockStart { index, content_block } => {
            let c = start_content(content_block);
            let s = AnthropicStreamView {
                blocks: st.blocks.push(BlockView { index, content: c, partial_json: Seq::empty() }),
                ..st
            };
            AnthropicOutcome {
                state: s,
                events: seq![start_event(c, (s.blocks.len() - 1) as usize, spec_partial(s))],
                result: Ok(()),
            }
        },
        MessageStreamEvent::ContentBlockDelta { index, delta } => {
            let (s, e) = spec_block_delta(st, index, delta);
            AnthropicOutcome { state: s, events: e, result: Ok(()) }
        },
        MessageStreamEvent::ContentBlockStop { index } => {
            let (s, e) = spec_block_stop(st, index);
            AnthropicOutcome { state: s, events: e, result: Ok(()) }
        },
        MessageStreamEvent::MessageDelta { delta, usage } => {
            let (s, r) = spec_message_delta(st, delta, usage);
            AnthropicOutcome { state: s, events: Seq::empty(), result: r }
        },
        MessageStreamEvent::Error { error } => AnthropicOutcome {
            state: st,
            events: Seq::empty(),
            result: Err(error.error_type@ + ": "@ + error.message@),
        },
        _ => AnthropicOutcome { state: st, events: Seq::empty(), result: Ok(()) },
    }
}

/// The last event: failures carry the reply's own fields, a finished
/// reply carries the gathered blocks.
pub open spec fn spec_anthropic_final(st: AnthropicStreamView, processed: Result<(), Seq<char>>) -> AssistantMessageEventView {
    match spec_final_event(st.output, processed, "Anthropic stream ended without a stop reason"@) {
        AssistantMessageEventView::Done { reason, message } => AssistantMessageEventView::Done {
            reason,
            message: spec_partial(st),
        },
        e => e,
    }
}

fn partial_exec(output: &AssistantMessage, blocks: &Vec<Block>) -> (r: AssistantMessage)
    ensures
        r@ == spec_partial(AnthropicStreamView { output: output@, blocks: blocks_view(blocks@) }),
{
    let mut p = output.duplicate();
    let mut content: Vec<AssistantContent> = Vec::new();
    let ghost bv = blocks_view(blocks@);
    let mut i: usize = 0;
    while i < blocks.len()
        invariant
            i <= blocks.len(),
            bv == blocks_view(blocks@),
            assistant_contents_view(content@) == block_contents(bv).take(i as int),
        decreases blocks.len() - i,
    {
        let c = blocks[i].content.duplicate();
        let ghost before = content@;
        content.push(c);
        assert(block_contents(bv)[i as int] == blocks@[i as int].content@);
        assert(assistant_contents_view(content@) =~= assistant_contents_view(before).push(c@));
        assert(block_contents(bv).take(i + 1) =~= block_contents(bv).take(i as int).push(c@));
        i += 1;
    }
    assert(block_contents(bv).take(blocks.len() as int) =~= block_contents(bv));
    p.content = content;
    p
}

fn push_event(events: &mut Vec<AssistantMessageEvent>, e: AssistantMessageEvent)
    ensures
        events_view(final(events)@) == events_view(old(events)@).push(e@),
{
    let ghost ev = e@;
    events.push(e);
    assert(events_view(events@) =~= events_view(old(events)@).push(ev));
}

fn total_of(u: &Usage) -> (r: u64)
    ensures
        r == usage_total(*u),
{
    u.input.wrapping_add(u.output).wrapping_add(u.cache_read).wrapping_add(u.cache_write)
}

impl AnthropicStream {
    /// A stream that has read nothing yet, building `output`.
    pub fn new(output: AssistantMessage) -> (r: AnthropicStream)
        ensures
            r@.output == output@,
            r@.blocks.len() == 0,
    {
        AnthropicStream { output, blocks: Vec::new() }
    }

    /// The reply with the blocks gathered so far.
    pub fn partial(&self) -> (r: AssistantMessage)
        ensures
            r@ == spec_partial(self@),
    {
        partial_exec(&self.output, &self.blocks)
    }

    fn find_block(&self, index: u32) -> (r: Option<usize>)
        ensures
            match r {
                Some(k) => first_pos(self@.blocks, index) == Some(k as int) && k < self.blocks.len(),
                None => first_pos(self@.blocks, index) is None,
            },
    {
        let ghost bv = self@.blocks;
        let mut k: usize = 0;
        while k < self.blocks.len()
            invariant
                k <= self.blocks.len(),
                bv == self@.blocks,
                first_pos(bv.take(k as int), index) is None,
            decreases self.blocks.len() - k,
        {
            assert(bv.take(k + 1).drop_last() =~= bv.take(k as int));
            if self.blocks[k].index == index {
                proof {
                    lemma_first_pos_prefix(bv, k as int + 1, index);
                }
                return Some(k);
            }
            k += 1;
        }
        assert(bv.take(self.blocks.len() as int) =~= bv);
        None
    }

    /// Reads one server event (see `spec_anthropic_event`): returns the
    /// progress events to forward, or the message the stream ends with.
    pub fn process_event(&mut self, event: MessageStreamEvent) -> (r: Result<Vec<AssistantMessageEvent>, String>)
        ensures
            final(self)@ == spec_anthropic_event(old(self)@, event).state,
            match r {
                Ok(evs) => spec_anthropic_event(old(self)@, event).result == Ok::<(), Seq<char>>(())
                    && events_view(evs@) == spec_anthropic_event(old(self)@, event).events,
                Err(e) => spec_anthropic_event(old(self)@, event).result == Err::<(), Seq<char>>(e@),
            },
    {
        let ghost st = self@;
        let mut events: Vec<AssistantMessageEvent> = Vec::new();
        assert(events_view(events@) =~= Seq::<AssistantMessageEventView>::empty());
        match event {
            MessageStreamEvent::MessageStart { message } => {
                self.output.response_id = Some(message.id);
                if !message.model.as_str().is_empty() {
                    self.output.model = message.model;
                }
                self.output.usage.input = message.usage.input_tokens;
                self.output.usage.output = message.usage.output_tokens;
                self.output.usage.cache_read = match message.usage.cache_read_input_tokens {
                    Some(x) => x,
                    None => 0,
                };
                self.output.usage.cache_write = match message.usage.cache_creation_input_tokens {
                    Some(x) => x,
                    None => 0,
                };
                self.output.usage.total_tokens = total_of(&self.output.usage);
                assert(self@ =~= spec_anthropic_event(st, event).state);
            },
            MessageStreamEvent::ContentBlockStart { index, content_block } => {
                let content = match content_block {
                    ContentBlock::Text { text } => AssistantContent::Text(TextContent { text, text_signature: None }),
                    ContentBlock::Thinking { thinking, signature } => AssistantContent::Thinking(
                        ThinkingContent { thinking, thinking_signature: Some(signature), redacted: None },
                    ),
                    ContentBlock::RedactedThinking { data } => AssistantContent::Thinking(
                        ThinkingContent {
                            thinking: "[Reasoning redacted]".to_string(),
                            thinking_signature: Some(data),
                            redacted: Some(true),
                        },
                    ),
                    ContentBlock::ToolUse { id, name, input } => AssistantContent::ToolCall(
                        ToolCall { id, name, arguments: input, thought_signature: None },
                    ),
                };
                let ghost cv = content@;
                let ghost b0 = self.blocks@;
                self.blocks.push(Block { index, content, partial_json: String::new() });
                assert(blocks_view(self.blocks@) =~= blocks_view(b0).push(BlockView { index, content: cv, partial_json: Seq::empty() }));
                let ci = self.blocks.len() - 1;
                let snapshot = self.partial();
                let e = match &self.blocks[ci].content {
                    AssistantContent::Text(_) => AssistantMessageEvent::TextStart { content_index: ci, partial: snapshot },
                    AssistantContent::Thinking(_) => AssistantMessageEvent::ThinkingStart { content_index: ci, partial: snapshot },
                    AssistantContent::ToolCall(_) => AssistantMessageEvent::ToolcallStart { content_index: ci, partial: snapshot },
                };
                push_event(&mut events, e);
                assert(self@ =~= spec_anthropic_event(st, event).state);
            },
            MessageStreamEvent::ContentBlockDelta { index, delta } => {
                self.block_delta(index, delta, &mut events);
            },
            MessageStreamEvent::ContentBlockStop { index } => {
                self.block_stop(index, &mut events);
            },
            MessageStreamEvent::MessageDelta { delta, usage } => {
                match &delta.stop_reason {
                    Some(sr) => {
                        self.output.raw_stop_reason = Some(sr.clone());
                        let details: Option<&RefusalStopDetails> = match &delta.stop_details {
                            Some(d) => Some(d),
                            None => None,
                        };
                        match map_stop_reason(sr.as_str(), details) {
                            Ok((mapped, msg)) => {
                                self.output.stop_reason = mapped;
                                self.output.error_message = msg;
                            },
                            Err(e) => {
                                assert(self@ =~= spec_anthropic_event(st, event).state);
                                return Err(e);
                            },
                        }
                    },
                    None => {},
                }
                match &usage {
                    Some(u) => {
                        match u.input_tokens {
                            Some(v) => self.output.usage.input = v,
                            None => {},
                        }
                        match u.output_tokens {
                            Some(v) => self.output.usage.output = v,
                            None => {},
                        }
                        match u.cache_read_input_tokens {
                            Some(v) => self.output.usage.cache_read = v,
                            None => {},
                        }
                        match u.cache_creation_input_tokens {
                            Some(v) => self.output.usage.cache_write = v,
                            None => {},
                        }
                        match &u.output_tokens_details {
                            Some(d) => match d.thinking_tokens {
                                Some(t) => self.output.usage.reasoning = Some(t),
                                None => {},
                            },
                            None => {},
                        }
                    },
                    None => {},
                }
                self.output.usage.total_tokens = total_of(&self.output.usage);
                assert(self@ =~= spec_anthropic_event(st, event).state);
            },
            MessageStreamEvent::Error { error } => {
                let mut m = error.error_type.clone();
                push_str(&mut m, ": ");
                push_str(&mut m, error.message.as_str());
                return Err(m);
            },
            _ => {},
        }
        Ok(events)
    }

    fn block_delta(&mut self, index: u32, delta: ContentBlockDelta, events: &mut Vec<AssistantMessageEvent>)
        ensures
            final(self)@ == spec_block_delta(old(self)@, index, delta).0,
            events_view(final(events)@) == events_view(old(events)@) + spec_block_delta(old(self)@, index, delta).1,
    {
        let ghost st = self@;
        let k = match self.find_block(index) {
            Some(k) => k,
            None => {
                assert(events_view(events@) =~= events_view(old(events)@) + Seq::<AssistantMessageEventView>::empty());
                return;
            },
        };
        let ghost b = st.blocks[k as int];
        assert(b == self.blocks@[k as int]@);
        let ghost b0 = self.blocks@;
        match (delta, &self.blocks[k].content) {
            (ContentBlockDelta::TextDelta { text }, AssistantContent::Text(t)) => {
                let mut t2 = t.duplicate();
                push_str(&mut t2.text, text.as_str());
                let nb = Block { index: self.blocks[k].index, content: AssistantContent::Text(t2), partial_json: self.blocks[k].partial_json.clone() };
                let ghost nbv = nb@;
                self.blocks.set(k, nb);
                assert(blocks_view(self.blocks@) =~= blocks_view(b0).update(k as int, nbv));
                let e = AssistantMessageEvent::TextDelta { content_index: k, delta: text, partial: self.partial() };
                push_event(events, e);
            },
            (ContentBlockDelta::ThinkingDelta { thinking }, AssistantContent::Thinking(t)) => {
                let mut t2 = t.duplicate();
                push_str(&mut t2.thinking, thinking.as_str());
                let nb = Block { index: self.blocks[k].index, content: AssistantContent::Thinking(t2), partial_json: self.blocks[k].partial_json.clone() };
                let ghost nbv = nb@;
                self.blocks.set(k, nb);
                assert(blocks_view(self.blocks@) =~= blocks_view(b0).update(k as int, nbv));
                let e = AssistantMessageEvent::ThinkingDelta { content_index: k, delta: thinking, partial: self.partial() };
                push_event(events, e);
            },
            (ContentBlockDelta::InputJsonDelta { partial_json }, AssistantContent::ToolCall(tc)) => {
                let mut pj = self.blocks[k].partial_json.clone();
                push_str(&mut pj, partial_json.as_str());
                let mut tc2 = tc.duplicate();
                tc2.arguments = parse_streaming_json(pj.as_str());
                let nb = Block { index: self.blocks[k].index, content: AssistantContent::ToolCall(tc2), partial_json: pj };
                let ghost nbv = nb@;
                self.blocks.set(k, nb);
                assert(blocks_view(self.blocks@) =~= blocks_view(b0).update(k as int, nbv));
                let e = AssistantMessageEvent::ToolcallDelta { content_index: k, delta: partial_json, partial: self.partial() };
                push_event(events, e);
            },
            (ContentBlockDelta::SignatureDelta { signature }, AssistantContent::Thinking(t)) => {
                let mut t2 = t.duplicate();
                let mut sig = match &t.thinking_signature {
                    Some(x) => x.clone(),
                    None => String::new(),
                };
                push_str(&mut sig, signature.as_str());
                t2.thinking_signature = Some(sig);
                let nb = Block { index: self.blocks[k].index, content: AssistantContent::Thinking(t2), partial_json: self.blocks[k].partial_json.clone() };
                let ghost nbv = nb@;
                self.blocks.set(k, nb);
                assert(blocks_view(self.blocks@) =~= blocks_view(b0).update(k as int, nbv));
                assert(events_view(events@) =~= events_view(old(events)@) + Seq::<AssistantMessageEventView>::empty());
            },
            _ => {
                assert(events_view(events@) =~= events_view(old(events)@) + Seq::<AssistantMessageEventView>::empty());
            },
        }
        assert(self@ =~= spec_block_delta(st, index, delta).0);
    }

    fn block_stop(&mut self, index: u32, events: &mut Vec<AssistantMessageEvent>)
        ensures
            final(self)@ == spec_block_stop(old(self)@, index).0,
            events_view(final(events)@) == events_view(old(events)@) + spec_block_stop(old(self)@, index).1,
    {
        let ghost st = self@;
        let k = match self.find_block(index) {
            Some(k) => k,
            None => {
                assert(events_view(events@) =~= events_view(old(events)@) + Seq::<AssistantMessageEventView>::empty());
                return;
            },
        };
        assert(st.blocks[k as int] == self.blocks@[k as int]@);
        let ghost b0 = self.blocks@;
        match &self.blocks[k].content {
            AssistantContent::Text(t) => {
                let content = t.text.clone();
                let e = AssistantMessageEvent::TextEnd { content_index: k, content, partial: self.partial() };
                push_event(events, e);
            },
            AssistantContent::Thinking(t) => {
                let content = t.thinking.clone();
                let e = AssistantMessageEvent::ThinkingEnd { content_index: k, content, partial: self.partial() };
                push_event(events, e);
            },
            AssistantContent::ToolCall(tc) => {
                let mut tc2 = tc.duplicate();
                tc2.arguments = parse_streaming_json(self.blocks[k].partial_json.as_str());
                let tool_call = tc2.duplicate();
                let nb = Block { index: self.blocks[k].index, content: AssistantContent::ToolCall(tc2), partial_json: self.blocks[k].partial_json.clone() };
                let ghost nbv = nb@;
                self.blocks.set(k, nb);
                assert(blocks_view(self.blocks@) =~= blocks_view(b0).update(k as int, nbv));
                let e = AssistantMessageEvent::ToolcallEnd { content_index: k, tool_call, partial: self.partial() };
                push_event(events, e);
            },
        }
        assert(self@ =~= spec_block_stop(st, index).0);
    }

    /// The event that ends the stream, given how processing went (see `spec_anthropic_final`).
    pub fn final_event(self, processed: Result<(), String>) -> (r: AssistantMessageEvent)
        ensures
            r@ == spec_anthropic_final(
                self@,
                match processed {
                    Ok(()) => Ok(()),
                    Err(e) => Err(e@),
                },
            ),
    {
        let snapshot = self.partial();
        let no_stop = "Anthropic stream ended without a stop reason".to_string();
        match crate::pi_types::final_event(self.output, processed, no_stop) {
            AssistantMessageEvent::Done { reason, message: _ } => AssistantMessageEvent::Done { reason, message: snapshot },
            e => e,
        }
    }
}

proof fn lemma_first_pos_prefix(b: Seq<BlockView>, n: int, index: u32)
    requires
        0 < n <= b.len(),
        first_pos(b.take(n - 1), index) is None,
        b[n - 1].index == index,
    ensures
        first_pos(b, index) == Some(n - 1),
    decreases b.len() - n,
{
    assert(b.take(n).drop_last() =~= b.take(n - 1));
    assert(first_pos(b.take(n), index) == Some(n - 1));
    if n < b.len() {
        lemma_first_pos_extend(b, n, index);
    } else {
        assert(b.take(n) =~= b);
    }
}

proof fn lemma_first_pos_extend(b: Seq<BlockView>, n: int, index: u32)
    requires
        0 < n <= b.len(),
        first_pos(b.take(n), index) is Some,
    ensures
        first_pos(b, index) == first_pos(b.take(n), index),
    decreases b.len() - n,
{
    if n < b.len() {
        assert(b.take(n + 1).drop_last() =~= b.take(n));
        lemma_first_pos_extend(b, n + 1, index);
    } else {
        assert(b.take(n) =~= b);
    }
}

} // verus!
