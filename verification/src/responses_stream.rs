//! Reading an OpenAI Responses event stream into an assistant reply.
//!
//! The caller feeds the decoded server events one at a time to
//! `ResponsesStream::process_event`, forwards the progress events it
//! returns, and ends with `ResponsesStream::finish`.
use vstd::prelude::*;
use std::collections::HashMap;
use crate::json_parse::{parse_streaming_json, spec_parse_streaming};
use crate::pi_types::{AssistantContent, AssistantContentView, AssistantMessage, AssistantMessageView, AssistantMessageEvent, AssistantMessageEventView, StopReason, TextContent, TextContentView, ThinkingContent, ThinkingContentView, ToolCall, ToolCallView, Usage, assistant_contents_view, events_view, opt_str, clone_opt_str};
use crate::json_value::{JsonScalar, JsonScalarView, json_member, json_member_of, json_set_member, json_with_member, json_object, opt_scalar};
use crate::responses::{encode_text_signature_v1, map_stop_reason, signature_fields, spec_status_stop_reason};
use crate::text::{chars_of, push_str, spec_join, join_with, string_from_range};

verus! {

/// A text part of a reasoning item.
pub struct ReasoningTextPart {
    pub part_type: String,
    pub text: String,
}

/// A reasoning output item; `json` is the item as JSON text, kept as the
/// signature of the thinking block so it can be replayed.
pub struct ReasoningItem {
    pub id: String,
    pub summary: Vec<ReasoningTextPart>,
    pub content: Vec<ReasoningTextPart>,
    pub encrypted_content: Option<String>,
    pub json: String,
}

/// A part of an output message.
pub enum ResponseOutputContent {
    OutputText { text: String },
    Refusal { refusal: String },
    Unknown,
}

/// An output message item.
pub struct ResponseOutputMessage {
    pub id: String,
    pub content: Vec<ResponseOutputContent>,
    pub status: Option<String>,
    pub phase: Option<String>,
}

/// A function-call output item.
pub struct ResponseFunctionCall {
    pub id: Option<String>,
    pub call_id: String,
    pub name: String,
    pub arguments: Option<String>,
}

/// An output item of a response.
pub enum OutputItem {
    Reasoning(ReasoningItem),
    Message(ResponseOutputMessage),
    FunctionCall(ResponseFunctionCall),
    Unknown,
}

pub struct InputTokensDetails {
    pub cached_tokens: u64,
    pub cache_write_tokens: u64,
}

pub struct OutputTokensDetails {
    pub reasoning_tokens: Option<u64>,
}

pub struct ResponseUsage {
    pub input_tokens: u64,
    pub output_tokens: u64,
    pub total_tokens: Option<u64>,
    pub input_tokens_details: Option<InputTokensDetails>,
    pub output_tokens_details: Option<OutputTokensDetails>,
}

pub struct ResponseError {
    pub code: Option<String>,
    pub message: Option<String>,
}

pub struct IncompleteDetails {
    pub reason: Option<String>,
}

/// The response object carried by the lifecycle events.
pub struct Response {
    pub id: Option<String>,
    pub status: Option<String>,
    pub usage: Option<ResponseUsage>,
    pub error: Option<ResponseError>,
    pub incomplete_details: Option<IncompleteDetails>,
    pub output: Option<Vec<OutputItem>>,
}

/// One server event of a Responses stream.
pub enum ResponseStreamEvent {
    ResponseCreated { response: Response },
    ResponseCompleted { response: Response },
    ResponseIncomplete { response: Response },
    ResponseFailed { response: Response },
    OutputItemAdded { output_index: u32, item: OutputItem },
    OutputItemDone { output_index: u32, item: OutputItem },
    OutputTextDelta { output_index: u32, delta: String },
    RefusalDelta { output_index: u32, delta: String },
    ReasoningSummaryTextDelta { output_index: u32, delta: String },
    ReasoningSummaryPartDone { output_index: u32 },
    ReasoningTextDelta { output_index: u32, delta: String },
    FunctionCallArgumentsDelta { output_index: u32, delta: String },
    FunctionCallArgumentsDone { output_index: u32, arguments: String },
    Error { code: Option<String>, message: Option<String> },
    Unknown,
}

/// Where the deltas of an open output item go.
pub enum ResponsesOutputSlot {
    Thinking { content_index: usize },
    Text { content_index: usize },
    ToolCall { content_index: usize, partial_json: String },
}

pub enum SlotView {
    Thinking { content_index: usize },
    Text { content_index: usize },
    ToolCall { content_index: usize, partial_json: Seq<char> },
}

impl View for ResponsesOutputSlot {
    type V = SlotView;

    open spec fn view(&self) -> SlotView {
        match self {
            ResponsesOutputSlot::Thinking { content_index } => SlotView::Thinking { content_index: *content_index },
            ResponsesOutputSlot::Text { content_index } => SlotView::Text { content_index: *content_index },
            ResponsesOutputSlot::ToolCall { content_index, partial_json } => SlotView::ToolCall {
                content_index: *content_index,
                partial_json: partial_json@,
            },
        }
    }
}

impl SlotView {
    pub open spec fn index(self) -> usize {
        match self {
            SlotView::Thinking { content_index } => content_index,
            SlotView::Text { content_index } => content_index,
            SlotView::ToolCall { content_index, .. } => content_index,
        }
    }
}

/// State of a stream being read.
pub struct ResponsesStream {
    /// The reply built so far.
    pub output: AssistantMessage,
    /// Open output items by output index.
    pub slots: HashMap<u32, ResponsesOutputSlot>,
    /// Content index of each finished reasoning item, by item id (later entries win).
    pub reasoning_blocks: Vec<(String, usize)>,
    /// Whether a completed or incomplete response was seen.
    pub saw_terminal: bool,
}

#[verifier::ext_equal]
pub struct StreamView {
    pub output: AssistantMessageView,
    pub slots: Map<u32, SlotView>,
    pub reasoning_blocks: Seq<(Seq<char>, usize)>,
    pub saw_terminal: bool,
}

pub open spec fn slots_view(m: Map<u32, ResponsesOutputSlot>) -> Map<u32, SlotView> {
    m.map_values(|s: ResponsesOutputSlot| s@)
}

pub open spec fn blocks_of(v: Seq<(String, usize)>) -> Seq<(Seq<char>, usize)> {
    v.map_values(|p: (String, usize)| (p.0@, p.1))
}

impl View for ResponsesStream {
    type V = StreamView;

    open spec fn view(&self) -> StreamView {
        StreamView {
            output: self.output@,
            slots: slots_view(self.slots@),
            reasoning_blocks: blocks_of(self.reasoning_blocks@),
            saw_terminal: self.saw_terminal,
        }
    }
}

/// Every open slot and every recorded reasoning block points into the content.
pub open spec fn stream_wf(st: StreamView) -> bool {
    &&& st.slots.dom().finite()
    &&& forall|k: u32| #[trigger] st.slots.contains_key(k) ==> st.slots[k].index() < st.output.content.len()
    &&& forall|j: int|
        0 <= j < st.reasoning_blocks.len() ==> (#[trigger] st.reasoning_blocks[j]).1 < st.output.content.len()
}

/// The reply with other content.
pub open spec fn with_content(o: AssistantMessageView, c: Seq<AssistantContentView>) -> AssistantMessageView {
    AssistantMessageView { content: c, ..o }
}

/// Appends to the thinking block at `ci` (other blocks are left as they are).
pub open spec fn append_thinking(c: Seq<AssistantContentView>, ci: int, d: Seq<char>) -> Seq<AssistantContentView> {
    match c[ci] {
        AssistantContentView::Thinking(t) => c.update(
            ci,
            AssistantContentView::Thinking(ThinkingContentView { thinking: t.thinking + d, ..t }),
        ),
        _ => c,
    }
}

/// Appends to the text block at `ci`.
pub open spec fn append_text(c: Seq<AssistantContentView>, ci: int, d: Seq<char>) -> Seq<AssistantContentView> {
    match c[ci] {
        AssistantContentView::Text(t) => c.update(ci, AssistantContentView::Text(TextContentView { text: t.text + d, ..t })),
        _ => c,
    }
}

/// Sets the arguments of the tool call at `ci`.
pub open spec fn set_arguments(c: Seq<AssistantContentView>, ci: int, a: Seq<char>) -> Seq<AssistantContentView> {
    match c[ci] {
        AssistantContentView::ToolCall(tc) => c.update(
            ci,
            AssistantContentView::ToolCall(ToolCallView { arguments: a, ..tc }),
        ),
        _ => c,
    }
}

fn append_thinking_exec(c: &mut Vec<AssistantContent>, ci: usize, d: &str)
    requires
        ci < old(c).len(),
    ensures
        assistant_contents_view(final(c)@) == append_thinking(assistant_contents_view(old(c)@), ci as int, d@),
{
    let ghost cv = assistant_contents_view(c@);
    assert(cv[ci as int] == c@[ci as int]@);
    match &c[ci] {
        AssistantContent::Thinking(t) => {
            let mut t2 = t.duplicate();
            push_str(&mut t2.thinking, d);
            let ghost nb = AssistantContent::Thinking(t2)@;
            c.set(ci, AssistantContent::Thinking(t2));
            assert(assistant_contents_view(c@) =~= cv.update(ci as int, nb));
        },
        _ => {},
    }
}

fn append_text_exec(c: &mut Vec<AssistantContent>, ci: usize, d: &str)
    requires
        ci < old(c).len(),
    ensures
        assistant_contents_view(final(c)@) == append_text(assistant_contents_view(old(c)@), ci as int, d@),
{
    let ghost cv = assistant_contents_view(c@);
    assert(cv[ci as int] == c@[ci as int]@);
    match &c[ci] {
        AssistantContent::Text(t) => {
            let mut t2 = t.duplicate();
            push_str(&mut t2.text, d);
            let ghost nb = AssistantContent::Text(t2)@;
            c.set(ci, AssistantContent::Text(t2));
            assert(assistant_contents_view(c@) =~= cv.update(ci as int, nb));
        },
        _ => {},
    }
}

fn set_arguments_exec(c: &mut Vec<AssistantContent>, ci: usize, a: String)
    requires
        ci < old(c).len(),
    ensures
        assistant_contents_view(final(c)@) == set_arguments(assistant_contents_view(old(c)@), ci as int, a@),
{
    let ghost cv = assistant_contents_view(c@);
    assert(cv[ci as int] == c@[ci as int]@);
    match &c[ci] {
        AssistantContent::ToolCall(tc) => {
            let mut t2 = tc.duplicate();
            t2.arguments = a;
            let ghost nb = AssistantContent::ToolCall(t2)@;
            c.set(ci, AssistantContent::ToolCall(t2));
            assert(assistant_contents_view(c@) =~= cv.update(ci as int, nb));
        },
        _ => {},
    }
}

/// The state and the events that a step produces.
pub struct Step {
    pub state: StreamView,
    pub events: Seq<AssistantMessageEventView>,
}

pub open spec fn with_output(st: StreamView, o: AssistantMessageView) -> StreamView {
    StreamView { output: o, ..st }
}

/// Opens a slot for a new output item: an empty block of its kind is
/// appended to the reply and a start event emitted (a final-answer message
/// also sets the stop reason to `Stop`; an unknown item does nothing).
pub open spec fn spec_create_slot(st: StreamView, idx: u32, item: OutputItem) -> Step {
    match item {
        OutputItem::Reasoning(_) => {
            let o = with_content(
                st.output,
                st.output.content.push(
                    AssistantContentView::Thinking(
                        ThinkingContentView { thinking: Seq::empty(), thinking_signature: None, redacted: None },
                    ),
                ),
            );
            let ci = (o.content.len() - 1) as usize;
            Step {
                state: StreamView { output: o, slots: st.slots.insert(idx, SlotView::Thinking { content_index: ci }), ..st },
                events: seq![AssistantMessageEventView::ThinkingStart { content_index: ci, partial: o }],
            }
        },
        OutputItem::Message(m) => {
            let o0 = if opt_str(m.phase) == Some("final_answer"@) {
                AssistantMessageView { stop_reason: StopReason::Stop, ..st.output }
            } else {
                st.output
            };
            let o = with_content(
                o0,
                o0.content.push(AssistantContentView::Text(TextContentView { text: Seq::empty(), text_signature: None })),
            );
            let ci = (o.content.len() - 1) as usize;
            Step {
                state: StreamView { output: o, slots: st.slots.insert(idx, SlotView::Text { content_index: ci }), ..st },
                events: seq![AssistantMessageEventView::TextStart { content_index: ci, partial: o }],
            }
        },
        OutputItem::FunctionCall(fc) => {
            let id = fc.call_id@ + "|"@ + match fc.id {
                Some(x) => x@,
                None => Seq::empty(),
            };
            let o = with_content(
                st.output,
                st.output.content.push(
                    AssistantContentView::ToolCall(
                        ToolCallView { id, name: fc.name@, arguments: "{}"@, thought_signature: None },
                    ),
                ),
            );
            let ci = (o.content.len() - 1) as usize;
            let pj = match fc.arguments {
                Some(a) => a@,
                None => Seq::empty(),
            };
            Step {
                state: StreamView {
                    output: o,
                    slots: st.slots.insert(idx, SlotView::ToolCall { content_index: ci, partial_json: pj }),
                    ..st
                },
                events: seq![AssistantMessageEventView::ToolcallStart { content_index: ci, partial: o }],
            }
        },
        OutputItem::Unknown => Step { state: st, events: Seq::empty() },
    }
}

/// A reasoning delta goes to the thinking block of its open item.
pub open spec fn spec_thinking_delta(st: StreamView, idx: u32, d: Seq<char>) -> Step {
    if st.slots.contains_key(idx) && st.slots[idx] is Thinking {
        let ci = st.slots[idx].index();
        let o = with_content(st.output, append_thinking(st.output.content, ci as int, d));
        Step {
            state: with_output(st, o),
            events: seq![AssistantMessageEventView::ThinkingDelta { content_index: ci, delta: d, partial: o }],
        }
    } else {
        Step { state: st, events: Seq::empty() }
    }
}

/// A text or refusal delta goes to the text block of its open item.
pub open spec fn spec_text_delta(st: StreamView, idx: u32, d: Seq<char>) -> Step {
    if st.slots.contains_key(idx) && st.slots[idx] is Text {
        let ci = st.slots[idx].index();
        let o = with_content(st.output, append_text(st.output.content, ci as int, d));
        Step {
            state: with_output(st, o),
            events: seq![AssistantMessageEventView::TextDelta { content_index: ci, delta: d, partial: o }],
        }
    } else {
        Step { state: st, events: Seq::empty() }
    }
}

/// An arguments delta extends the partial JSON of its open call, whose
/// arguments become the best parse of it so far.
pub open spec fn spec_arguments_delta(st: StreamView, idx: u32, d: Seq<char>) -> Step {
    if st.slots.contains_key(idx) && st.slots[idx] is ToolCall {
        let ci = st.slots[idx].index();
        let pj = st.slots[idx]->partial_json + d;
        let o = with_content(st.output, set_arguments(st.output.content, ci as int, spec_parse_streaming(pj)));
        Step {
            state: StreamView {
                output: o,
                slots: st.slots.insert(idx, SlotView::ToolCall { content_index: ci, partial_json: pj }),
                ..st
            },
            events: seq![AssistantMessageEventView::ToolcallDelta { content_index: ci, delta: d, partial: o }],
        }
    } else {
        Step { state: st, events: Seq::empty() }
    }
}

/// Whether `p` is a prefix of `s`.
pub open spec fn is_prefix(p: Seq<char>, s: Seq<char>) -> bool {
    p.len() <= s.len() && s.take(p.len() as int) == p
}

/// The full arguments replace the partial JSON; what they add to it is
/// emitted as a last delta when it is a non-empty extension.
pub open spec fn spec_arguments_done(st: StreamView, idx: u32, args: Seq<char>) -> Step {
    if st.slots.contains_key(idx) && st.slots[idx] is ToolCall {
        let ci = st.slots[idx].index();
        let prev = st.slots[idx]->partial_json;
        let o = with_content(st.output, set_arguments(st.output.content, ci as int, spec_parse_streaming(args)));
        Step {
            state: StreamView {
                output: o,
                slots: st.slots.insert(idx, SlotView::ToolCall { content_index: ci, partial_json: args }),
                ..st
            },
            events: if is_prefix(prev, args) && args.len() > prev.len() {
                seq![
                    AssistantMessageEventView::ToolcallDelta {
                        content_index: ci,
                        delta: args.skip(prev.len() as int),
                        partial: o,
                    },
                ]
            } else {
                Seq::empty()
            },
        }
    } else {
        Step { state: st, events: Seq::empty() }
    }
}

impl ResponsesOutputSlot {
    fn copy(&self) -> (r: ResponsesOutputSlot)
        ensures
            r@ == self@,
    {
        match self {
            ResponsesOutputSlot::Thinking { content_index } => ResponsesOutputSlot::Thinking { content_index: *content_index },
            ResponsesOutputSlot::Text { content_index } => ResponsesOutputSlot::Text { content_index: *content_index },
            ResponsesOutputSlot::ToolCall { content_index, partial_json } => ResponsesOutputSlot::ToolCall {
                content_index: *content_index,
                partial_json: partial_json.clone(),
            },
        }
    }
}

fn slots_insert(m: &mut HashMap<u32, ResponsesOutputSlot>, k: u32, v: ResponsesOutputSlot)
    ensures
        slots_view(final(m)@) == slots_view(old(m)@).insert(k, v@),
{
    broadcast use vstd::std_specs::hash::group_hash_axioms;
    let ghost vv = v@;
    m.insert(k, v);
    assert(slots_view(m@) =~= slots_view(old(m)@).insert(k, vv));
}

fn slots_remove(m: &mut HashMap<u32, ResponsesOutputSlot>, k: u32)
    ensures
        slots_view(final(m)@) == slots_view(old(m)@).remove(k),
{
    broadcast use vstd::std_specs::hash::group_hash_axioms;
    m.remove(&k);
    assert(slots_view(m@) =~= slots_view(old(m)@).remove(k));
}

fn slots_get(m: &HashMap<u32, ResponsesOutputSlot>, k: u32) -> (r: Option<ResponsesOutputSlot>)
    ensures
        match r {
            Some(s) => slots_view(m@).contains_key(k) && slots_view(m@)[k] == s@,
            None => !slots_view(m@).contains_key(k),
        },
{
    broadcast use vstd::std_specs::hash::group_hash_axioms;
    match m.get(&k) {
        Some(s) => Some(s.copy()),
        None => None,
    }
}

proof fn lemma_slots_finite(m: HashMap<u32, ResponsesOutputSlot>)
    ensures
        slots_view(m@).dom().finite(),
{
    broadcast use vstd::std_specs::hash::group_hash_axioms;
    assert(slots_view(m@).dom() =~= m@.dom());
}

fn push_event(events: &mut Vec<AssistantMessageEvent>, e: AssistantMessageEvent)
    ensures
        events_view(final(events)@) == events_view(old(events)@).push(e@),
{
    let ghost ev = e@;
    events.push(e);
    assert(events_view(events@) =~= events_view(old(events)@).push(ev));
}

impl ResponsesStream {
    /// A stream that has read nothing yet, building `output`.
    pub fn new(output: AssistantMessage) -> (r: ResponsesStream)
        ensures
            r@.output == output@,
            r@.slots == Map::<u32, SlotView>::empty(),
            r@.reasoning_blocks.len() == 0,
            !r@.saw_terminal,
            stream_wf(r@),
    {
        let r = ResponsesStream { output, slots: HashMap::new(), reasoning_blocks: Vec::new(), saw_terminal: false };
        assert(r@.slots =~= Map::<u32, SlotView>::empty());
        assert(r@.reasoning_blocks =~= Seq::<(Seq<char>, usize)>::empty());
        r
    }

    fn create_slot(&mut self, idx: u32, item: &OutputItem, events: &mut Vec<AssistantMessageEvent>)
        requires
            stream_wf(old(self)@),
        ensures
            stream_wf(final(self)@),
            final(self)@ == spec_create_slot(old(self)@, idx, *item).state,
            events_view(final(events)@) == events_view(old(events)@) + spec_create_slot(old(self)@, idx, *item).events,
    {
        let ghost st = self@;
        proof {
            lemma_slots_finite(self.slots);
        }
        match item {
            OutputItem::Reasoning(_) => {
                self.output.content.push(
                    AssistantContent::Thinking(ThinkingContent { thinking: String::new(), thinking_signature: None, redacted: None }),
                );
                let ci = self.output.content.len() - 1;
                slots_insert(&mut self.slots, idx, ResponsesOutputSlot::Thinking { content_index: ci });
                let e = AssistantMessageEvent::ThinkingStart { content_index: ci, partial: self.output.duplicate() };
                push_event(events, e);
            },
            OutputItem::Message(m) => {
                let fa = "final_answer".to_string();
                let is_final = match &m.phase {
                    Some(p) => *p == fa,
                    None => false,
                };
                if is_final {
                    self.output.stop_reason = StopReason::Stop;
                }
                self.output.content.push(AssistantContent::Text(TextContent { text: String::new(), text_signature: None }));
                let ci = self.output.content.len() - 1;
                slots_insert(&mut self.slots, idx, ResponsesOutputSlot::Text { content_index: ci });
                let e = AssistantMessageEvent::TextStart { content_index: ci, partial: self.output.duplicate() };
                push_event(events, e);
            },
            OutputItem::FunctionCall(fc) => {
                let mut id = fc.call_id.clone();
                push_str(&mut id, "|");
                match &fc.id {
                    Some(x) => push_str(&mut id, x.as_str()),
                    None => {},
                }
                let pj = match &fc.arguments {
                    Some(a) => a.clone(),
                    None => String::new(),
                };
                self.output.content.push(
                    AssistantContent::ToolCall(
                        ToolCall { id, name: fc.name.clone(), arguments: "{}".to_string(), thought_signature: None },
                    ),
                );
                let ci = self.output.content.len() - 1;
                slots_insert(&mut self.slots, idx, ResponsesOutputSlot::ToolCall { content_index: ci, partial_json: pj });
                let e = AssistantMessageEvent::ToolcallStart { content_index: ci, partial: self.output.duplicate() };
                push_event(events, e);
            },
            OutputItem::Unknown => {},
        }
        proof {
            lemma_slots_finite(self.slots);
        }
        assert(self@ =~= spec_create_slot(st, idx, *item).state);
    }
}

impl ResponsesStream {
    fn thinking_delta(&mut self, idx: u32, d: String, events: &mut Vec<AssistantMessageEvent>)
        requires
            stream_wf(old(self)@),
        ensures
            stream_wf(final(self)@),
            final(self)@ == spec_thinking_delta(old(self)@, idx, d@).state,
            events_view(final(events)@) == events_view(old(events)@) + spec_thinking_delta(old(self)@, idx, d@).events,
    {
        let ghost st = self@;
        match slots_get(&self.slots, idx) {
            Some(ResponsesOutputSlot::Thinking { content_index }) => {
                append_thinking_exec(&mut self.output.content, content_index, d.as_str());
                let e = AssistantMessageEvent::ThinkingDelta { content_index, delta: d, partial: self.output.duplicate() };
                push_event(events, e);
            },
            _ => {},
        }
        assert(self@ =~= spec_thinking_delta(st, idx, d@).state);
    }

    fn text_delta(&mut self, idx: u32, d: String, events: &mut Vec<AssistantMessageEvent>)
        requires
            stream_wf(old(self)@),
        ensures
            stream_wf(final(self)@),
            final(self)@ == spec_text_delta(old(self)@, idx, d@).state,
            events_view(final(events)@) == events_view(old(events)@) + spec_text_delta(old(self)@, idx, d@).events,
    {
        let ghost st = self@;
        match slots_get(&self.slots, idx) {
            Some(ResponsesOutputSlot::Text { content_index }) => {
                append_text_exec(&mut self.output.content, content_index, d.as_str());
                let e = AssistantMessageEvent::TextDelta { content_index, delta: d, partial: self.output.duplicate() };
                push_event(events, e);
            },
            _ => {},
        }
        assert(self@ =~= spec_text_delta(st, idx, d@).state);
    }

    fn arguments_delta(&mut self, idx: u32, d: String, events: &mut Vec<AssistantMessageEvent>)
        requires
            stream_wf(old(self)@),
        ensures
            stream_wf(final(self)@),
            final(self)@ == spec_arguments_delta(old(self)@, idx, d@).state,
            events_view(final(events)@) == events_view(old(events)@) + spec_arguments_delta(old(self)@, idx, d@).events,
    {
        let ghost st = self@;
        proof {
            lemma_slots_finite(self.slots);
        }
        match slots_get(&self.slots, idx) {
            Some(ResponsesOutputSlot::ToolCall { content_index, partial_json }) => {
                let mut pj = partial_json;
                push_str(&mut pj, d.as_str());
                let arguments = parse_streaming_json(pj.as_str());
                set_arguments_exec(&mut self.output.content, content_index, arguments);
                slots_insert(&mut self.slots, idx, ResponsesOutputSlot::ToolCall { content_index, partial_json: pj });
                let e = AssistantMessageEvent::ToolcallDelta { content_index, delta: d, partial: self.output.duplicate() };
                push_event(events, e);
            },
            _ => {},
        }
        proof {
            lemma_slots_finite(self.slots);
        }
        assert(self@ =~= spec_arguments_delta(st, idx, d@).state);
    }

    fn arguments_done(&mut self, idx: u32, arguments: String, events: &mut Vec<AssistantMessageEvent>)
        requires
            stream_wf(old(self)@),
        ensures
            stream_wf(final(self)@),
            final(self)@ == spec_arguments_done(old(self)@, idx, arguments@).state,
            events_view(final(events)@) == events_view(old(events)@) + spec_arguments_done(old(self)@, idx, arguments@).events,
    {
        let ghost st = self@;
        proof {
            lemma_slots_finite(self.slots);
        }
        match slots_get(&self.slots, idx) {
            Some(ResponsesOutputSlot::ToolCall { content_index, partial_json }) => {
                let prev = chars_of(partial_json.as_str());
                let args = chars_of(arguments.as_str());
                let parsed = parse_streaming_json(arguments.as_str());
                set_arguments_exec(&mut self.output.content, content_index, parsed);
                slots_insert(&mut self.slots, idx, ResponsesOutputSlot::ToolCall { content_index, partial_json: arguments });
                let mut prefix = prev.len() <= args.len();
                let mut k: usize = 0;
                while prefix && k < prev.len()
                    invariant
                        prev.len() <= args.len() || !prefix,
                        k <= prev.len(),
                        prefix ==> forall|j: int| 0 <= j < k ==> prev@[j] == args@[j],
                        !prefix ==> !is_prefix(prev@, args@),
                    decreases prev.len() - k,
                {
                    if prev[k] != args[k] {
                        prefix = false;
                        assert(args@.take(prev@.len() as int)[k as int] != prev@[k as int]);
                    }
                    k += 1;
                }
                if prefix {
                    assert(args@.take(prev@.len() as int) =~= prev@);
                }
                if prefix && args.len() > prev.len() {
                    let delta = string_from_range(&args, prev.len(), args.len());
                    assert(args@.subrange(prev@.len() as int, args@.len() as int) =~= args@.skip(prev@.len() as int));
                    let e = AssistantMessageEvent::ToolcallDelta { content_index, delta, partial: self.output.duplicate() };
                    push_event(events, e);
                } else {
                    assert(events_view(events@) =~= events_view(old(events)@) + Seq::<AssistantMessageEventView>::empty());
                }
            },
            _ => {},
        }
        proof {
            lemma_slots_finite(self.slots);
        }
        assert(self@ =~= spec_arguments_done(st, idx, arguments@).state);
    }
}

/// The texts of reasoning parts.
pub open spec fn texts_of(parts: Seq<ReasoningTextPart>) -> Seq<Seq<char>> {
    parts.map_values(|p: ReasoningTextPart| p.text@)
}

/// Closes a thinking block: its text becomes the summary, or else the
/// reasoning text, when one is non-empty; its signature becomes `sig`.
pub open spec fn finish_thinking(
    c: Seq<AssistantContentView>,
    ci: int,
    summary: Seq<char>,
    body: Seq<char>,
    sig: Seq<char>,
) -> Seq<AssistantContentView> {
    match c[ci] {
        AssistantContentView::Thinking(t) => c.update(
            ci,
            AssistantContentView::Thinking(
                ThinkingContentView {
                    thinking: if summary.len() > 0 {
                        summary
                    } else if body.len() > 0 {
                        body
                    } else {
                        t.thinking
                    },
                    thinking_signature: Some(sig),
                    ..t
                },
            ),
        ),
        _ => c,
    }
}

pub open spec fn block_thinking(c: Seq<AssistantContentView>, ci: int) -> Seq<char> {
    match c[ci] {
        AssistantContentView::Thinking(t) => t.thinking,
        _ => Seq::empty(),
    }
}

/// The text of an output message: its parts concatenated (refusals included).
pub open spec fn message_text(parts: Seq<ResponseOutputContent>) -> Seq<char>
    decreases parts.len(),
{
    if parts.len() == 0 {
        Seq::empty()
    } else {
        message_text(parts.drop_last()) + match parts.last() {
            ResponseOutputContent::OutputText { text } => text@,
            ResponseOutputContent::Refusal { refusal } => refusal@,
            ResponseOutputContent::Unknown => Seq::empty(),
        }
    }
}

/// Closes a text block with its final text and signature.
pub open spec fn finish_text(c: Seq<AssistantContentView>, ci: int, text: Seq<char>, sig: Seq<char>) -> Seq<
    AssistantContentView,
> {
    match c[ci] {
        AssistantContentView::Text(t) => c.update(
            ci,
            AssistantContentView::Text(TextContentView { text, text_signature: Some(sig) }),
        ),
        _ => c,
    }
}

pub open spec fn block_text(c: Seq<AssistantContentView>, ci: int) -> Seq<char> {
    match c[ci] {
        AssistantContentView::Text(t) => t.text,
        _ => Seq::empty(),
    }
}

/// The JSON text a finished call is parsed from: its own non-empty
/// arguments, else the streamed partial JSON, else `{}`.
pub open spec fn call_raw_arguments(fc: ResponseFunctionCall, pj: Seq<char>) -> Seq<char> {
    match fc.arguments {
        Some(a) => if a@.len() > 0 {
            a@
        } else if pj.len() > 0 {
            pj
        } else {
            "{}"@
        },
        None => if pj.len() > 0 {
            pj
        } else {
            "{}"@
        },
    }
}

/// Closes the open slot `idx` with its finished item, when the item is of
/// the slot's kind: the block gets its final form, an end event is emitted
/// and the slot is dropped (a reasoning block is also recorded by item id).
pub open spec fn spec_close_slot(st: StreamView, idx: u32, item: OutputItem) -> Step {
    if !st.slots.contains_key(idx) {
        Step { state: st, events: Seq::empty() }
    } else {
        match (st.slots[idx], item) {
            (SlotView::Thinking { content_index }, OutputItem::Reasoning(r)) => {
                let c = finish_thinking(
                    st.output.content,
                    content_index as int,
                    spec_join(texts_of(r.summary@), "\n\n"@),
                    spec_join(texts_of(r.content@), "\n\n"@),
                    r.json@,
                );
                let o = with_content(st.output, c);
                Step {
                    state: StreamView {
                        output: o,
                        slots: st.slots.remove(idx),
                        reasoning_blocks: st.reasoning_blocks.push((r.id@, content_index)),
                        ..st
                    },
                    events: seq![
                        AssistantMessageEventView::ThinkingEnd {
                            content_index,
                            content: block_thinking(c, content_index as int),
                            partial: o,
                        },
                    ],
                }
            },
            (SlotView::Text { content_index }, OutputItem::Message(m)) => {
                let c = finish_text(
                    st.output.content,
                    content_index as int,
                    message_text(m.content@),
                    json_object(signature_fields(m.id@, opt_str(m.phase))),
                );
                let o = with_content(st.output, c);
                Step {
                    state: StreamView { output: o, slots: st.slots.remove(idx), ..st },
                    events: seq![
                        AssistantMessageEventView::TextEnd {
                            content_index,
                            content: block_text(c, content_index as int),
                            partial: o,
                        },
                    ],
                }
            },
            (SlotView::ToolCall { content_index, partial_json }, OutputItem::FunctionCall(fc)) => {
                let c = set_arguments(
                    st.output.content,
                    content_index as int,
                    spec_parse_streaming(call_raw_arguments(fc, partial_json)),
                );
                let o = with_content(st.output, c);
                match c[content_index as int] {
                    AssistantContentView::ToolCall(tc) => Step {
                        state: StreamView { output: o, slots: st.slots.remove(idx), ..st },
                        events: seq![
                            AssistantMessageEventView::ToolcallEnd { content_index, tool_call: tc, partial: o },
                        ],
                    },
                    _ => Step { state: with_output(st, o), events: Seq::empty() },
                }
            },
            _ => Step { state: st, events: Seq::empty() },
        }
    }
}

/// A finished output item: a final-answer message sets the stop reason to
/// `Stop`; a slot is opened for an item that had none; then the slot is closed.
pub open spec fn spec_item_done(st: StreamView, idx: u32, item: OutputItem) -> Step {
    let st1 = match item {
        OutputItem::Message(m) => if opt_str(m.phase) == Some("final_answer"@) {
            with_output(st, AssistantMessageView { stop_reason: StopReason::Stop, ..st.output })
        } else {
            st
        },
        _ => st,
    };
    let s2 = if st1.slots.contains_key(idx) {
        Step { state: st1, events: Seq::empty() }
    } else {
        spec_create_slot(st1, idx, item)
    };
    let s3 = spec_close_slot(s2.state, idx, item);
    Step { state: s3.state, events: s2.events + s3.events }
}

fn join_texts(parts: &Vec<ReasoningTextPart>) -> (r: String)
    ensures
        r@ == spec_join(texts_of(parts@), "\n\n"@),
{
    let mut v: Vec<String> = Vec::new();
    let mut i: usize = 0;
    while i < parts.len()
        invariant
            i <= parts.len(),
            v@.map_values(|s: String| s@) == texts_of(parts@).take(i as int),
        decreases parts.len() - i,
    {
        let ghost before = v@;
        let t = parts[i].text.clone();
        v.push(t);
        assert(texts_of(parts@)[i as int] == parts@[i as int].text@);
        assert(texts_of(parts@).take(i + 1) =~= texts_of(parts@).take(i as int).push(t@));
        assert(v@.map_values(|s: String| s@) =~= before.map_values(|s: String| s@).push(t@));
        i += 1;
    }
    assert(texts_of(parts@).take(parts.len() as int) =~= texts_of(parts@));
    join_with(&v, "\n\n")
}

fn message_text_exec(parts: &Vec<ResponseOutputContent>) -> (r: String)
    ensures
        r@ == message_text(parts@),
{
    let mut out = String::new();
    let mut i: usize = 0;
    while i < parts.len()
        invariant
            i <= parts.len(),
            out@ == message_text(parts@.take(i as int)),
        decreases parts.len() - i,
    {
        assert(parts@.take(i + 1).drop_last() =~= parts@.take(i as int));
        match &parts[i] {
            ResponseOutputContent::OutputText { text } => push_str(&mut out, text.as_str()),
            ResponseOutputContent::Refusal { refusal } => push_str(&mut out, refusal.as_str()),
            ResponseOutputContent::Unknown => {},
        }
        i += 1;
    }
    assert(parts@.take(parts.len() as int) =~= parts@);
    out
}

impl ResponsesStream {
    fn close_slot(&mut self, idx: u32, item: &OutputItem, events: &mut Vec<AssistantMessageEvent>)
        requires
            stream_wf(old(self)@),
        ensures
            stream_wf(final(self)@),
            final(self)@ == spec_close_slot(old(self)@, idx, *item).state,
            events_view(final(events)@) == events_view(old(events)@) + spec_close_slot(old(self)@, idx, *item).events,
    {
        let ghost st = self@;
        proof {
            lemma_slots_finite(self.slots);
        }
        let slot = slots_get(&self.slots, idx);
        match (slot, item) {
            (Some(ResponsesOutputSlot::Thinking { content_index }), OutputItem::Reasoning(r)) => {
                let summary = join_texts(&r.summary);
                let body = join_texts(&r.content);
                let ci = content_index;
                let ghost cv = assistant_contents_view(self.output.content@);
                assert(cv[ci as int] == self.output.content@[ci as int]@);
                match &self.output.content[ci] {
                    AssistantContent::Thinking(t) => {
                        let mut t2 = t.duplicate();
                        if !summary.as_str().is_empty() {
                            t2.thinking = summary;
                        } else if !body.as_str().is_empty() {
                            t2.thinking = body;
                        }
                        t2.thinking_signature = Some(r.json.clone());
                        let ghost nb = AssistantContent::Thinking(t2)@;
                        self.output.content.set(ci, AssistantContent::Thinking(t2));
                        assert(assistant_contents_view(self.output.content@) =~= cv.update(ci as int, nb));
                    },
                    _ => {},
                }
                let ghost rb = self.reasoning_blocks@;
                self.reasoning_blocks.push((r.id.clone(), ci));
                assert(blocks_of(self.reasoning_blocks@) =~= blocks_of(rb).push((r.id@, ci)));
                let content = match &self.output.content[ci] {
                    AssistantContent::Thinking(t) => t.thinking.clone(),
                    _ => String::new(),
                };
                let e = AssistantMessageEvent::ThinkingEnd { content_index: ci, content, partial: self.output.duplicate() };
                push_event(events, e);
                slots_remove(&mut self.slots, idx);
            },
            (Some(ResponsesOutputSlot::Text { content_index }), OutputItem::Message(m)) => {
                let text = message_text_exec(&m.content);
                let phase: Option<&str> = match &m.phase {
                    Some(p) => Some(p.as_str()),
                    None => None,
                };
                let sig = encode_text_signature_v1(m.id.as_str(), phase);
                assert(opt_str(m.phase) == match phase { Some(p) => Some(p@), None => None });
                let ci = content_index;
                let ghost cv = assistant_contents_view(self.output.content@);
                assert(cv[ci as int] == self.output.content@[ci as int]@);
                match &self.output.content[ci] {
                    AssistantContent::Text(_) => {
                        let nb = AssistantContent::Text(TextContent { text, text_signature: Some(sig) });
                        let ghost nbv = nb@;
                        self.output.content.set(ci, nb);
                        assert(assistant_contents_view(self.output.content@) =~= cv.update(ci as int, nbv));
                    },
                    _ => {},
                }
                let content = match &self.output.content[ci] {
                    AssistantContent::Text(t) => t.text.clone(),
                    _ => String::new(),
                };
                let e = AssistantMessageEvent::TextEnd { content_index: ci, content, partial: self.output.duplicate() };
                push_event(events, e);
                slots_remove(&mut self.slots, idx);
            },
            (Some(ResponsesOutputSlot::ToolCall { content_index, partial_json }), OutputItem::FunctionCall(fc)) => {
                let raw = match &fc.arguments {
                    Some(a) => if !a.as_str().is_empty() {
                        a.clone()
                    } else if !partial_json.as_str().is_empty() {
                        partial_json
                    } else {
                        "{}".to_string()
                    },
                    None => if !partial_json.as_str().is_empty() {
                        partial_json
                    } else {
                        "{}".to_string()
                    },
                };
                let arguments = parse_streaming_json(raw.as_str());
                let ci = content_index;
                set_arguments_exec(&mut self.output.content, ci, arguments);
                let ghost cv = assistant_contents_view(self.output.content@);
                assert(cv[ci as int] == self.output.content@[ci as int]@);
                match &self.output.content[ci] {
                    AssistantContent::ToolCall(tc) => {
                        let tool_call = tc.duplicate();
                        let e = AssistantMessageEvent::ToolcallEnd {
                            content_index: ci,
                            tool_call,
                            partial: self.output.duplicate(),
                        };
                        push_event(events, e);
                        slots_remove(&mut self.slots, idx);
                    },
                    _ => {},
                }
            },
            _ => {},
        }
        proof {
            lemma_slots_finite(self.slots);
        }
        assert(self@ =~= spec_close_slot(st, idx, *item).state);
    }

    fn item_done(&mut self, idx: u32, item: &OutputItem, events: &mut Vec<AssistantMessageEvent>)
        requires
            stream_wf(old(self)@),
        ensures
            stream_wf(final(self)@),
            final(self)@ == spec_item_done(old(self)@, idx, *item).state,
            events_view(final(events)@) == events_view(old(events)@) + spec_item_done(old(self)@, idx, *item).events,
    {
        let ghost st = self@;
        let ghost ev0 = events_view(events@);
        match item {
            OutputItem::Message(m) => {
                let fa = "final_answer".to_string();
                let is_final = match &m.phase {
                    Some(p) => *p == fa,
                    None => false,
                };
                if is_final {
                    self.output.stop_reason = StopReason::Stop;
                }
            },
            _ => {},
        }
        assert(self@.slots == st.slots);
        let ghost st1 = self@;
        let present = match slots_get(&self.slots, idx) {
            Some(_) => true,
            None => false,
        };
        if !present {
            self.create_slot(idx, item, events);
        } else {
            assert(events_view(events@) =~= ev0 + Seq::<AssistantMessageEventView>::empty());
        }
        let ghost ev1 = events_view(events@);
        self.close_slot(idx, item, events);
        assert(events_view(events@) =~= ev0 + spec_item_done(st, idx, *item).events);
    }
}

/// Content index recorded for a reasoning item id (the latest entry).
pub open spec fn lookup_block(blocks: Seq<(Seq<char>, usize)>, id: Seq<char>) -> Option<usize>
    decreases blocks.len(),
{
    if blocks.len() == 0 {
        None
    } else if blocks.last().0 == id {
        Some(blocks.last().1)
    } else {
        lookup_block(blocks.drop_last(), id)
    }
}

/// Whether a stored reasoning signature already has encrypted content.
pub open spec fn has_encrypted(sig: Seq<char>) -> bool {
    match json_member(sig, "encrypted_content"@) {
        Some(JsonScalarView::Str(x)) => x.len() > 0,
        _ => false,
    }
}

/// Adds the encrypted content of a final reasoning item to the signature
/// of its thinking block, when the block is known and its signature has none.
pub open spec fn backfill_one(c: Seq<AssistantContentView>, blocks: Seq<(Seq<char>, usize)>, item: OutputItem) -> Seq<
    AssistantContentView,
> {
    match item {
        OutputItem::Reasoning(r) => match r.encrypted_content {
            Some(enc) => match lookup_block(blocks, r.id@) {
                Some(ci) => if ci < c.len() {
                    match c[ci as int] {
                        AssistantContentView::Thinking(t) => match t.thinking_signature {
                            Some(sig) => if has_encrypted(sig) {
                                c
                            } else {
                                match json_with_member(sig, "encrypted_content"@, enc@) {
                                    Some(ns) => c.update(
                                        ci as int,
                                        AssistantContentView::Thinking(
                                            ThinkingContentView { thinking_signature: Some(ns), ..t },
                                        ),
                                    ),
                                    None => c,
                                }
                            },
                            None => c,
                        },
                        _ => c,
                    }
                } else {
                    c
                },
                None => c,
            },
            None => c,
        },
        _ => c,
    }
}

pub open spec fn backfill(c: Seq<AssistantContentView>, blocks: Seq<(Seq<char>, usize)>, items: Seq<OutputItem>) -> Seq<
    AssistantContentView,
>
    decreases items.len(),
{
    if items.len() == 0 {
        c
    } else {
        backfill_one(backfill(c, blocks, items.drop_last()), blocks, items.last())
    }
}

pub open spec fn sat_sub(a: u64, b: u64) -> u64 {
    if a >= b {
        (a - b) as u64
    } else {
        0
    }
}

/// Token usage of a response; cached reads and writes are taken out of the input count.
pub open spec fn spec_usage(u: ResponseUsage) -> Usage {
    let cached = match u.input_tokens_details {
        Some(d) => d.cached_tokens,
        None => 0,
    };
    let written = match u.input_tokens_details {
        Some(d) => d.cache_write_tokens,
        None => 0,
    };
    Usage {
        input: sat_sub(sat_sub(u.input_tokens, cached), written),
        output: u.output_tokens,
        cache_read: cached,
        cache_write: written,
        reasoning: match u.output_tokens_details {
            Some(d) => d.reasoning_tokens,
            None => None,
        },
        total_tokens: match u.total_tokens {
            Some(t) => t,
            None => 0,
        },
    }
}

pub open spec fn incomplete_reason_of(resp: Response) -> Option<Seq<char>> {
    match resp.incomplete_details {
        Some(d) => opt_str(d.reason),
        None => None,
    }
}

/// "<status>.<reason>", or the status alone.
pub open spec fn raw_stop_reason_text(status: Option<Seq<char>>, reason: Option<Seq<char>>) -> Seq<char> {
    let st = match status {
        Some(x) => x,
        None => Seq::empty(),
    };
    match reason {
        Some(r) => st + "."@ + r,
        None => st,
    }
}

pub open spec fn has_tool_call(c: Seq<AssistantContentView>) -> bool {
    exists|k: int| 0 <= k < c.len() && #[trigger] c[k] is ToolCall
}

/// A completed or incomplete response: signatures are backfilled, the
/// response id and usage recorded, the raw stop reason kept and the
/// status mapped to a stop reason (`ToolUse` when a plain stop has tool
/// calls); an unknown status is an error.
pub open spec fn spec_finalize(st: StreamView, resp: Response) -> (StreamView, Result<(), Seq<char>>) {
    let c = match resp.output {
        Some(items) => backfill(st.output.content, st.reasoning_blocks, items@),
        None => st.output.content,
    };
    let o1 = with_content(st.output, c);
    let o2 = match resp.id {
        Some(id) => AssistantMessageView { response_id: Some(id@), ..o1 },
        None => o1,
    };
    let o3 = match resp.usage {
        Some(u) => AssistantMessageView { usage: spec_usage(u), ..o2 },
        None => o2,
    };
    let status = opt_str(resp.status);
    let reason = incomplete_reason_of(resp);
    let o4 = AssistantMessageView { raw_stop_reason: Some(raw_stop_reason_text(status, reason)), ..o3 };
    match spec_status_stop_reason(status, reason) {
        Err(e) => (StreamView { output: o4, saw_terminal: true, ..st }, Err(e)),
        Ok((sr, msg)) => {
            let o5 = AssistantMessageView { stop_reason: sr, error_message: msg, ..o4 };
            let o6 = if has_tool_call(o5.content) && sr == StopReason::Stop {
                AssistantMessageView { stop_reason: StopReason::ToolUse, ..o5 }
            } else {
                o5
            };
            (StreamView { output: o6, saw_terminal: true, ..st }, Ok(()))
        },
    }
}

/// The error of a failed response.
pub open spec fn failed_message(resp: Response) -> Seq<char> {
    match resp.error {
        Some(e) => (match e.code {
            Some(c) => c@,
            None => "unknown"@,
        }) + ": "@ + (match e.message {
            Some(m) => m@,
            None => "no message"@,
        }),
        None => match incomplete_reason_of(resp) {
            Some(r) => "incomplete: "@ + r,
            None => "Unknown error (no error details in response)"@,
        },
    }
}

/// The error of an `error` event.
pub open spec fn error_event_message(code: Option<String>, message: Option<String>) -> Seq<char> {
    "Error Code "@ + (match code {
        Some(c) => c@,
        None => Seq::empty(),
    }) + ": "@ + (match message {
        Some(m) => m@,
        None => Seq::empty(),
    })
}

/// What one server event does: the new state, the progress events, and
/// whether reading goes on (`Err` ends the stream with that message).
pub struct Outcome {
    pub state: StreamView,
    pub events: Seq<AssistantMessageEventView>,
    pub result: Result<(), Seq<char>>,
}

pub open spec fn ok_step(s: Step) -> Outcome {
    Outcome { state: s.state, events: s.events, result: Ok(()) }
}

pub open spec fn spec_process_event(st: StreamView, ev: ResponseStreamEvent) -> Outcome {
    match ev {
        ResponseStreamEvent::ResponseCreated { response } => ok_step(
            Step {
                state: with_output(st, AssistantMessageView { response_id: opt_str(response.id), ..st.output }),
                events: Seq::empty(),
            },
        ),
        ResponseStreamEvent::ResponseCompleted { response } => {
            let (s, r) = spec_finalize(st, response);
            Outcome { state: s, events: Seq::empty(), result: r }
        },
        ResponseStreamEvent::ResponseIncomplete { response } => {
            let (s, r) = spec_finalize(st, response);
            Outcome { state: s, events: Seq::empty(), result: r }
        },
        ResponseStreamEvent::ResponseFailed { response } => Outcome {
            state: with_output(st, AssistantMessageView { raw_stop_reason: opt_str(response.status), ..st.output }),
            events: Seq::empty(),
            result: Err(failed_message(response)),
        },
        ResponseStreamEvent::OutputItemAdded { output_index, item } => ok_step(spec_create_slot(st, output_index, item)),
        ResponseStreamEvent::OutputItemDone { output_index, item } => ok_step(spec_item_done(st, output_index, item)),
        ResponseStreamEvent::OutputTextDelta { output_index, delta } => ok_step(spec_text_delta(st, output_index, delta@)),
        ResponseStreamEvent::RefusalDelta { output_index, delta } => ok_step(spec_text_delta(st, output_index, delta@)),
        ResponseStreamEvent::ReasoningSummaryTextDelta { output_index, delta } => ok_step(
            spec_thinking_delta(st, output_index, delta@),
        ),
        ResponseStreamEvent::ReasoningSummaryPartDone { output_index } => ok_step(
            spec_thinking_delta(st, output_index, "\n\n"@),
        ),
        ResponseStreamEvent::ReasoningTextDelta { output_index, delta } => ok_step(
            spec_thinking_delta(st, output_index, delta@),
        ),
        ResponseStreamEvent::FunctionCallArgumentsDelta { output_index, delta } => ok_step(
            spec_arguments_delta(st, output_index, delta@),
        ),
        ResponseStreamEvent::FunctionCallArgumentsDone { output_index, arguments } => ok_step(
            spec_arguments_done(st, output_index, arguments@),
        ),
        ResponseStreamEvent::Error { code, message } => Outcome {
            state: st,
            events: Seq::empty(),
            result: Err(error_event_message(code, message)),
        },
        ResponseStreamEvent::Unknown => Outcome { state: st, events: Seq::empty(), result: Ok(()) },
    }
}

fn lookup_block_exec(blocks: &Vec<(String, usize)>, id: &String) -> (r: Option<usize>)
    ensures
        r == lookup_block(blocks_of(blocks@), id@),
{
    let ghost bv = blocks_of(blocks@);
    let mut i: usize = blocks.len();
    assert(bv.take(blocks.len() as int) =~= bv);
    while i > 0
        invariant
            i <= blocks.len(),
            bv == blocks_of(blocks@),
            lookup_block(bv, id@) == lookup_block(bv.take(i as int), id@),
        decreases i,
    {
        assert(bv.take(i as int).drop_last() =~= bv.take(i - 1));
        assert(bv.take(i as int).last() == bv[i - 1]);
        if blocks[i - 1].0 == *id {
            return Some(blocks[i - 1].1);
        }
        i -= 1;
    }
    None
}

proof fn lemma_backfill_len(c: Seq<AssistantContentView>, blocks: Seq<(Seq<char>, usize)>, items: Seq<OutputItem>)
    ensures
        backfill(c, blocks, items).len() == c.len(),
    decreases items.len(),
{
    if items.len() > 0 {
        lemma_backfill_len(c, blocks, items.drop_last());
    }
}

impl ResponsesStream {
    fn backfill_signatures(&mut self, items: &Vec<OutputItem>)
        requires
            stream_wf(old(self)@),
        ensures
            stream_wf(final(self)@),
            final(self)@ == with_output(
                old(self)@,
                with_content(old(self)@.output, backfill(old(self)@.output.content, old(self)@.reasoning_blocks, items@)),
            ),
    {
        let ghost st = self@;
        let mut j: usize = 0;
        while j < items.len()
            invariant
                j <= items.len(),
                stream_wf(st),
                stream_wf(self@),
                self@ == with_output(
                    st,
                    with_content(st.output, backfill(st.output.content, st.reasoning_blocks, items@.take(j as int))),
                ),
            decreases items.len() - j,
        {
            assert(items@.take(j + 1).drop_last() =~= items@.take(j as int));
            assert(items@.take(j + 1).last() == items@[j as int]);
            let ghost c0 = assistant_contents_view(self.output.content@);
            match &items[j] {
                OutputItem::Reasoning(r) => {
                    match &r.encrypted_content {
                        Some(enc) => {
                            match lookup_block_exec(&self.reasoning_blocks, &r.id) {
                                Some(ci) => {
                                    if ci < self.output.content.len() {
                                        assert(c0[ci as int] == self.output.content@[ci as int]@);
                                        match &self.output.content[ci] {
                                            AssistantContent::Thinking(t) => {
                                                match &t.thinking_signature {
                                                    Some(sig) => {
                                                        let already = match json_member_of(sig.as_str(), "encrypted_content") {
                                                            Some(JsonScalar::Str(x)) => !x.as_str().is_empty(),
                                                            _ => false,
                                                        };
                                                        if !already {
                                                            match json_set_member(sig.as_str(), "encrypted_content", enc.as_str()) {
                                                                Some(ns) => {
                                                                    let mut t2 = t.duplicate();
                                                                    t2.thinking_signature = Some(ns);
                                                                    let ghost nb = AssistantContent::Thinking(t2)@;
                                                                    self.output.content.set(ci, AssistantContent::Thinking(t2));
                                                                    assert(assistant_contents_view(self.output.content@) =~= c0.update(ci as int, nb));
                                                                },
                                                                None => {},
                                                            }
                                                        }
                                                    },
                                                    None => {},
                                                }
                                            },
                                            _ => {},
                                        }
                                    }
                                },
                                None => {},
                            }
                        },
                        None => {},
                    }
                },
                _ => {},
            }
            assert(self@ =~= with_output(
                st,
                with_content(st.output, backfill(st.output.content, st.reasoning_blocks, items@.take(j + 1))),
            ));
            proof {
                lemma_backfill_len(st.output.content, st.reasoning_blocks, items@.take(j + 1));
            }
            j += 1;
        }
        assert(items@.take(items.len() as int) =~= items@);
    }

    fn finalize(&mut self, resp: Response) -> (r: Result<(), String>)
        requires
            stream_wf(old(self)@),
        ensures
            stream_wf(final(self)@),
            final(self)@ == spec_finalize(old(self)@, resp).0,
            match r {
                Ok(()) => spec_finalize(old(self)@, resp).1 == Ok::<(), Seq<char>>(()),
                Err(e) => spec_finalize(old(self)@, resp).1 == Err::<(), Seq<char>>(e@),
            },
    {
        let ghost st = self@;
        self.saw_terminal = true;
        match &resp.output {
            Some(items) => self.backfill_signatures(items),
            None => {},
        }
        assert(stream_wf(self@));
        match &resp.id {
            Some(id) => {
                self.output.response_id = Some(id.clone());
            },
            None => {},
        }
        match &resp.usage {
            Some(u) => {
                let cached = match &u.input_tokens_details {
                    Some(d) => d.cached_tokens,
                    None => 0,
                };
                let written = match &u.input_tokens_details {
                    Some(d) => d.cache_write_tokens,
                    None => 0,
                };
                let a = u.input_tokens.saturating_sub(cached);
                self.output.usage = Usage {
                    input: a.saturating_sub(written),
                    output: u.output_tokens,
                    cache_read: cached,
                    cache_write: written,
                    reasoning: match &u.output_tokens_details {
                        Some(d) => d.reasoning_tokens,
                        None => None,
                    },
                    total_tokens: match u.total_tokens {
                        Some(t) => t,
                        None => 0,
                    },
                };
            },
            None => {},
        }
        let status: Option<&str> = match &resp.status {
            Some(s) => Some(s.as_str()),
            None => None,
        };
        let reason: Option<&str> = match &resp.incomplete_details {
            Some(d) => match &d.reason {
                Some(x) => Some(x.as_str()),
                None => None,
            },
            None => None,
        };
        assert(opt_str(resp.status) == match status { Some(s) => Some(s@), None => None });
        assert(incomplete_reason_of(resp) == match reason { Some(s) => Some(s@), None => None });
        let mut raw = match status {
            Some(s) => s.to_string(),
            None => String::new(),
        };
        match reason {
            Some(x) => {
                push_str(&mut raw, ".");
                push_str(&mut raw, x);
            },
            None => {},
        }
        assert(raw@ =~= raw_stop_reason_text(opt_str(resp.status), incomplete_reason_of(resp)));
        self.output.raw_stop_reason = Some(raw);
        match map_stop_reason(status, reason) {
            Err(e) => {
                assert(self@ =~= spec_finalize(st, resp).0);
                Err(e)
            },
            Ok((mapped, msg)) => {
                self.output.stop_reason = mapped;
                self.output.error_message = msg;
                let ghost c = assistant_contents_view(self.output.content@);
                let mut any_call = false;
                let mut k: usize = 0;
                while k < self.output.content.len()
                    invariant
                        k <= self.output.content.len(),
                        c == assistant_contents_view(self.output.content@),
                        any_call ==> has_tool_call(c),
                        !any_call ==> forall|q: int| 0 <= q < k ==> !(#[trigger] c[q] is ToolCall),
                    decreases self.output.content.len() - k,
                {
                    assert(c[k as int] == self.output.content@[k as int]@);
                    match &self.output.content[k] {
                        AssistantContent::ToolCall(_) => {
                            any_call = true;
                        },
                        _ => {},
                    }
                    k += 1;
                }
                if any_call && mapped == StopReason::Stop {
                    self.output.stop_reason = StopReason::ToolUse;
                }
                assert(self@ =~= spec_finalize(st, resp).0);
                Ok(())
            },
        }
    }

    /// Reads one server event (see `spec_process_event`): returns the
    /// progress events to forward, or the message the stream ends with.
    pub fn process_event(&mut self, event: ResponseStreamEvent) -> (r: Result<Vec<AssistantMessageEvent>, String>)
        requires
            stream_wf(old(self)@),
        ensures
            stream_wf(final(self)@),
            final(self)@ == spec_process_event(old(self)@, event).state,
            match r {
                Ok(evs) => spec_process_event(old(self)@, event).result == Ok::<(), Seq<char>>(())
                    && events_view(evs@) == spec_process_event(old(self)@, event).events,
                Err(e) => spec_process_event(old(self)@, event).result == Err::<(), Seq<char>>(e@),
            },
    {
        let ghost st = self@;
        let mut events: Vec<AssistantMessageEvent> = Vec::new();
        assert(events_view(events@) =~= Seq::<AssistantMessageEventView>::empty());
        match event {
            ResponseStreamEvent::ResponseCreated { response } => {
                self.output.response_id = response.id;
                assert(self@ =~= spec_process_event(st, event).state);
            },
            ResponseStreamEvent::ResponseCompleted { response } => {
                match self.finalize(response) {
                    Ok(()) => {},
                    Err(e) => return Err(e),
                }
            },
            ResponseStreamEvent::ResponseIncomplete { response } => {
                match self.finalize(response) {
                    Ok(()) => {},
                    Err(e) => return Err(e),
                }
            },
            ResponseStreamEvent::ResponseFailed { response } => {
                self.output.raw_stop_reason = clone_opt_str(&response.status);
                let msg = match &response.error {
                    Some(e) => {
                        let mut m = match &e.code {
                            Some(c) => c.clone(),
                            None => "unknown".to_string(),
                        };
                        push_str(&mut m, ": ");
                        match &e.message {
                            Some(x) => push_str(&mut m, x.as_str()),
                            None => push_str(&mut m, "no message"),
                        }
                        m
                    },
                    None => {
                        let reason = match &response.incomplete_details {
                            Some(d) => clone_opt_str(&d.reason),
                            None => None,
                        };
                        match reason {
                            Some(x) => {
                                let mut m = "incomplete: ".to_string();
                                push_str(&mut m, x.as_str());
                                m
                            },
                            None => "Unknown error (no error details in response)".to_string(),
                        }
                    },
                };
                assert(msg@ =~= failed_message(response));
                assert(self@ =~= spec_process_event(st, event).state);
                return Err(msg);
            },
            ResponseStreamEvent::OutputItemAdded { output_index, item } => {
                self.create_slot(output_index, &item, &mut events);
            },
            ResponseStreamEvent::OutputItemDone { output_index, item } => {
                self.item_done(output_index, &item, &mut events);
            },
            ResponseStreamEvent::OutputTextDelta { output_index, delta } => {
                self.text_delta(output_index, delta, &mut events);
            },
            ResponseStreamEvent::RefusalDelta { output_index, delta } => {
                self.text_delta(output_index, delta, &mut events);
            },
            ResponseStreamEvent::ReasoningSummaryTextDelta { output_index, delta } => {
                self.thinking_delta(output_index, delta, &mut events);
            },
            ResponseStreamEvent::ReasoningSummaryPartDone { output_index } => {
                self.thinking_delta(output_index, "\n\n".to_string(), &mut events);
            },
            ResponseStreamEvent::ReasoningTextDelta { output_index, delta } => {
                self.thinking_delta(output_index, delta, &mut events);
            },
            ResponseStreamEvent::FunctionCallArgumentsDelta { output_index, delta } => {
                self.arguments_delta(output_index, delta, &mut events);
            },
            ResponseStreamEvent::FunctionCallArgumentsDone { output_index, arguments } => {
                self.arguments_done(output_index, arguments, &mut events);
            },
            ResponseStreamEvent::Error { code, message } => {
                let mut m = "Error Code ".to_string();
                match &code {
                    Some(c) => push_str(&mut m, c.as_str()),
                    None => {},
                }
                push_str(&mut m, ": ");
                match &message {
                    Some(x) => push_str(&mut m, x.as_str()),
                    None => {},
                }
                assert(m@ =~= error_event_message(code, message));
                return Err(m);
            },
            ResponseStreamEvent::Unknown => {},
        }
        Ok(events)
    }

    /// Ends reading: a stream without a completed or incomplete response is an error.
    pub fn finish(&self) -> (r: Result<(), String>)
        ensures
            r is Ok <==> self@.saw_terminal,
            r matches Err(e) ==> e@ == "OpenAI Responses stream ended before a terminal response event"@,
    {
        if self.saw_terminal {
            Ok(())
        } else {
            Err("OpenAI Responses stream ended before a terminal response event".to_string())
        }
    }
}

} // verus!
