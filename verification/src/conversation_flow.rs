//! What a running conversation shows and decides: the chunks streamed to
//! the viewer, the end of a model round, and the tool results fed back.
use vstd::prelude::*;
use crate::json_value::{json_is_object, json_is_object_of};
use crate::pi_types::{TextContentView, UserContentView, AssistantContent, AssistantContentView, AssistantMessage, AssistantMessageEvent, AssistantMessageView, Message, MessageView, TextContent, ToolCall, ToolCallView, ToolResultMessage, UserContent, Usage, assistant_contents_view, messages_view, spec_user_message_text, user_blocks_text, user_block_texts, user_contents_view, user_message_text};
use crate::text::{push_str, spec_join_newline};
use crate::transform::{tool_calls_exec, tool_calls_of, tool_calls_view};

verus! {

/// The extra fields of a chunk.
pub enum ChunkExtra {
    Plain,
    /// `_id` and `name` of a tool call.
    ToolUse { id: String, name: String },
    /// `_id` of the call and whether the result is an error.
    ToolResult { id: String, is_error: bool },
    /// Token counts of a reply.
    Usage { cache_read_input_tokens: u64, input_tokens: u64, output_tokens: u64 },
}

pub enum ChunkExtraView {
    Plain,
    ToolUse { id: Seq<char>, name: Seq<char> },
    ToolResult { id: Seq<char>, is_error: bool },
    Usage { cache_read_input_tokens: u64, input_tokens: u64, output_tokens: u64 },
}

/// One piece of a conversation's stream as the viewer receives it.
pub struct Chunk {
    pub chunk_type: String,
    pub text: String,
    pub extra: ChunkExtra,
}

pub struct ChunkView {
    pub chunk_type: Seq<char>,
    pub text: Seq<char>,
    pub extra: ChunkExtraView,
}

impl View for Chunk {
    type V = ChunkView;

    open spec fn view(&self) -> ChunkView {
        ChunkView {
            chunk_type: self.chunk_type@,
            text: self.text@,
            extra: match self.extra {
                ChunkExtra::Plain => ChunkExtraView::Plain,
                ChunkExtra::ToolUse { id, name } => ChunkExtraView::ToolUse { id: id@, name: name@ },
                ChunkExtra::ToolResult { id, is_error } => ChunkExtraView::ToolResult { id: id@, is_error },
                ChunkExtra::Usage { cache_read_input_tokens, input_tokens, output_tokens } => ChunkExtraView::Usage {
                    cache_read_input_tokens,
                    input_tokens,
                    output_tokens,
                },
            },
        }
    }
}

pub open spec fn chunks_view(v: Seq<Chunk>) -> Seq<ChunkView> {
    v.map_values(|c: Chunk| c@)
}

pub open spec fn plain(t: Seq<char>, text: Seq<char>) -> ChunkView {
    ChunkView { chunk_type: t, text, extra: ChunkExtraView::Plain }
}

/// The token counts shown for a reply.
pub open spec fn usage_chunk(u: Usage) -> ChunkView {
    ChunkView {
        chunk_type: "usage"@,
        text: Seq::empty(),
        extra: ChunkExtraView::Usage { cache_read_input_tokens: u.cache_read, input_tokens: u.input, output_tokens: u.output },
    }
}

/// The chunks of the blocks of a stored reply.
pub open spec fn block_chunks(bs: Seq<AssistantContentView>) -> Seq<ChunkView>
    decreases bs.len(),
{
    if bs.len() == 0 {
        Seq::empty()
    } else {
        block_chunks(bs.drop_last()).push(
            match bs.last() {
                AssistantContentView::Thinking(t) => plain("thinking"@, t.thinking),
                AssistantContentView::Text(t) => plain("text"@, t.text),
                AssistantContentView::ToolCall(tc) => ChunkView {
                    chunk_type: "tool_use"@,
                    text: tc.arguments,
                    extra: ChunkExtraView::ToolUse { id: tc.id, name: tc.name },
                },
            },
        )
    }
}

/// The chunks replaying one stored message.
pub open spec fn message_chunks(m: MessageView) -> Seq<ChunkView> {
    match m {
        MessageView::User(u) => seq![plain("user"@, spec_user_message_text(u.content))],
        MessageView::Assistant(a) => block_chunks(a.content).push(usage_chunk(a.usage)),
        MessageView::ToolResult(tr) => seq![
            ChunkView {
                chunk_type: "tool_result"@,
                text: spec_join_newline(user_block_texts(tr.content)),
                extra: ChunkExtraView::ToolResult { id: tr.tool_call_id, is_error: tr.is_error },
            },
        ],
    }
}

pub open spec fn history_chunks(ms: Seq<MessageView>) -> Seq<ChunkView>
    decreases ms.len(),
{
    if ms.len() == 0 {
        Seq::empty()
    } else {
        history_chunks(ms.drop_last()) + message_chunks(ms.last())
    }
}

/// What a conversation shows before it runs: its system prompt, its
/// stored messages, and the new task text when there is one.
pub open spec fn spec_replay(system_prompt: Seq<char>, ms: Seq<MessageView>, task: Seq<char>) -> Seq<ChunkView> {
    seq![plain("system"@, system_prompt)] + history_chunks(ms) + if task.len() > 0 {
        seq![plain("user"@, task)]
    } else {
        Seq::empty()
    }
}

fn push_chunk(out: &mut Vec<Chunk>, c: Chunk)
    ensures
        chunks_view(final(out)@) == chunks_view(old(out)@).push(c@),
{
    let ghost cv = c@;
    out.push(c);
    assert(chunks_view(out@) =~= chunks_view(old(out)@).push(cv));
}

fn message_chunks_exec(m: &Message, out: &mut Vec<Chunk>)
    ensures
        chunks_view(final(out)@) == chunks_view(old(out)@) + message_chunks(m@),
{
    let ghost start = chunks_view(out@);
    match m {
        Message::User(u) => {
            push_chunk(out, Chunk { chunk_type: "user".to_string(), text: user_message_text(&u.content), extra: ChunkExtra::Plain });
        },
        Message::Assistant(a) => {
            let ghost cv = assistant_contents_view(a.content@);
            let mut i: usize = 0;
            while i < a.content.len()
                invariant
                    i <= a.content.len(),
                    cv == assistant_contents_view(a.content@),
                    chunks_view(out@) == start + block_chunks(cv.take(i as int)),
                decreases a.content.len() - i,
            {
                assert(cv.take(i + 1).drop_last() =~= cv.take(i as int));
                assert(cv.take(i + 1).last() == a.content@[i as int]@);
                let c = match &a.content[i] {
                    AssistantContent::Thinking(t) => Chunk { chunk_type: "thinking".to_string(), text: t.thinking.clone(), extra: ChunkExtra::Plain },
                    AssistantContent::Text(t) => Chunk { chunk_type: "text".to_string(), text: t.text.clone(), extra: ChunkExtra::Plain },
                    AssistantContent::ToolCall(tc) => Chunk {
                        chunk_type: "tool_use".to_string(),
                        text: tc.arguments.clone(),
                        extra: ChunkExtra::ToolUse { id: tc.id.clone(), name: tc.name.clone() },
                    },
                };
                push_chunk(out, c);
                i += 1;
            }
            assert(cv.take(a.content.len() as int) =~= cv);
            push_chunk(
                out,
                Chunk {
                    chunk_type: "usage".to_string(),
                    text: String::new(),
                    extra: ChunkExtra::Usage {
                        cache_read_input_tokens: a.usage.cache_read,
                        input_tokens: a.usage.input,
                        output_tokens: a.usage.output,
                    },
                },
            );
        },
        Message::ToolResult(tr) => {
            push_chunk(
                out,
                Chunk {
                    chunk_type: "tool_result".to_string(),
                    text: user_blocks_text(&tr.content),
                    extra: ChunkExtra::ToolResult { id: tr.tool_call_id.clone(), is_error: tr.is_error },
                },
            );
        },
    }
    assert(chunks_view(out@) =~= start + message_chunks(m@));
}

/// The chunks that replay a conversation (see `spec_replay`).
pub fn replay_chunks(system_prompt: &str, messages: &Vec<Message>, task: &str) -> (r: Vec<Chunk>)
    ensures
        chunks_view(r@) == spec_replay(system_prompt@, messages_view(messages@), task@),
{
    let ghost mv = messages_view(messages@);
    let mut out: Vec<Chunk> = Vec::new();
    push_chunk(&mut out, Chunk { chunk_type: "system".to_string(), text: system_prompt.to_string(), extra: ChunkExtra::Plain });
    let ghost head = chunks_view(out@);
    let mut i: usize = 0;
    while i < messages.len()
        invariant
            i <= messages.len(),
            mv == messages_view(messages@),
            chunks_view(out@) == head + history_chunks(mv.take(i as int)),
        decreases messages.len() - i,
    {
        assert(mv.take(i + 1).drop_last() =~= mv.take(i as int));
        assert(mv.take(i + 1).last() == messages@[i as int]@);
        message_chunks_exec(&messages[i], &mut out);
        assert(chunks_view(out@) =~= head + history_chunks(mv.take(i + 1)));
        i += 1;
    }
    assert(mv.take(messages.len() as int) =~= mv);
    if !task.is_empty() {
        push_chunk(&mut out, Chunk { chunk_type: "user".to_string(), text: task.to_string(), extra: ChunkExtra::Plain });
    }
    assert(chunks_view(out@) =~= spec_replay(system_prompt@, mv, task@));
    out
}

/// The chunk a progress event shows live, if any: starts of thinking and
/// text, the start of a tool call (with its id and name), and deltas.
pub open spec fn spec_event_chunk(e: AssistantMessageEvent) -> Option<ChunkView> {
    match e {
        AssistantMessageEvent::ThinkingStart { .. } => Some(plain("thinking"@, Seq::empty())),
        AssistantMessageEvent::ThinkingDelta { delta, .. } => Some(plain("delta"@, delta@)),
        AssistantMessageEvent::TextStart { .. } => Some(plain("text"@, Seq::empty())),
        AssistantMessageEvent::TextDelta { delta, .. } => Some(plain("delta"@, delta@)),
        AssistantMessageEvent::ToolcallStart { content_index, partial } => {
            let c = partial@.content;
            if content_index < c.len() {
                match c[content_index as int] {
                    AssistantContentView::ToolCall(tc) => Some(
                        ChunkView {
                            chunk_type: "tool_use"@,
                            text: Seq::empty(),
                            extra: ChunkExtraView::ToolUse { id: tc.id, name: tc.name },
                        },
                    ),
                    _ => None,
                }
            } else {
                None
            }
        },
        AssistantMessageEvent::ToolcallDelta { delta, .. } => Some(plain("delta"@, delta@)),
        _ => None,
    }
}

/// The chunk of a progress event (see `spec_event_chunk`).
pub fn event_chunk(e: &AssistantMessageEvent) -> (r: Option<Chunk>)
    ensures
        match r {
            Some(c) => spec_event_chunk(*e) == Some(c@),
            None => spec_event_chunk(*e) is None,
        },
{
    match e {
        AssistantMessageEvent::ThinkingStart { .. } => Some(Chunk { chunk_type: "thinking".to_string(), text: String::new(), extra: ChunkExtra::Plain }),
        AssistantMessageEvent::ThinkingDelta { delta, .. } => Some(Chunk { chunk_type: "delta".to_string(), text: delta.clone(), extra: ChunkExtra::Plain }),
        AssistantMessageEvent::TextStart { .. } => Some(Chunk { chunk_type: "text".to_string(), text: String::new(), extra: ChunkExtra::Plain }),
        AssistantMessageEvent::TextDelta { delta, .. } => Some(Chunk { chunk_type: "delta".to_string(), text: delta.clone(), extra: ChunkExtra::Plain }),
        AssistantMessageEvent::ToolcallStart { content_index, partial } => {
            let ci = *content_index;
            if ci < partial.content.len() {
                assert(partial@.content[ci as int] == partial.content@[ci as int]@);
                match &partial.content[ci] {
                    AssistantContent::ToolCall(tc) => Some(
                        Chunk {
                            chunk_type: "tool_use".to_string(),
                            text: String::new(),
                            extra: ChunkExtra::ToolUse { id: tc.id.clone(), name: tc.name.clone() },
                        },
                    ),
                    _ => None,
                }
            } else {
                None
            }
        },
        AssistantMessageEvent::ToolcallDelta { delta, .. } => Some(Chunk { chunk_type: "delta".to_string(), text: delta.clone(), extra: ChunkExtra::Plain }),
        _ => None,
    }
}

/// The error a failed model stream ends the conversation with.
pub open spec fn spec_stream_error(error: AssistantMessageView) -> Seq<char> {
    "model stream error: "@ + match error.error_message {
        Some(m) => m,
        None => "unknown error"@,
    }
}

/// The error of a failed model stream.
pub fn stream_error_message(error: &AssistantMessage) -> (r: String)
    ensures
        r@ == spec_stream_error(error@),
{
    let mut m = "model stream error: ".to_string();
    match &error.error_message {
        Some(x) => push_str(&mut m, x.as_str()),
        None => push_str(&mut m, "unknown error"),
    }
    m
}

/// A reply's tool calls with arguments that are not a JSON object
/// replaced by an empty object (the API rejects them on replay).
pub open spec fn normalize_block(b: AssistantContentView) -> AssistantContentView {
    match b {
        AssistantContentView::ToolCall(tc) => if json_is_object(tc.arguments) {
            b
        } else {
            AssistantContentView::ToolCall(ToolCallView { arguments: "{}"@, ..tc })
        },
        _ => b,
    }
}

/// How a model round ended.
pub enum RoundEnd {
    /// Stop was asked for while the reply streamed.
    Stopped,
    /// The stream failed with this error; the partial reply is dropped.
    Failed(String),
    /// The stream ended without a reply.
    NoReply,
    /// The reply (tool arguments normalised) and its tool calls; none means
    /// the conversation is finished.
    Reply { message: AssistantMessage, tool_calls: Vec<ToolCall> },
}

/// Concludes a model round: a stop wins over a stream error, which wins
/// over a missing reply; a reply gets its tool arguments normalised.
pub fn conclude_round(stopped: bool, stream_error: Option<String>, reply: Option<AssistantMessage>) -> (r: RoundEnd)
    ensures
        stopped ==> r is Stopped,
        !stopped ==> match stream_error {
            Some(se) => match r {
                RoundEnd::Failed(e) => e@ == se@,
                _ => false,
            },
            None => match reply {
                None => r is NoReply,
                Some(old) => match r {
                    RoundEnd::Reply { message, tool_calls } => message@ == AssistantMessageView {
                        content: old@.content.map_values(|b: AssistantContentView| normalize_block(b)),
                        ..old@
                    } && tool_calls_view(tool_calls@) == tool_calls_of(message@.content),
                    _ => false,
                },
            },
        },
{
    if stopped {
        return RoundEnd::Stopped;
    }
    match stream_error {
        Some(e) => return RoundEnd::Failed(e),
        None => {},
    }
    let mut msg = match reply {
        Some(m) => m,
        None => return RoundEnd::NoReply,
    };
    let ghost old = msg@;
    let ghost oc = old.content;
    let mut content: Vec<AssistantContent> = Vec::new();
    let mut i: usize = 0;
    while i < msg.content.len()
        invariant
            i <= msg.content.len(),
            oc == assistant_contents_view(msg.content@),
            assistant_contents_view(content@) == oc.take(i as int).map_values(|b: AssistantContentView| normalize_block(b)),
        decreases msg.content.len() - i,
    {
        assert(oc[i as int] == msg.content@[i as int]@);
        let b = match &msg.content[i] {
            AssistantContent::ToolCall(tc) => {
                if json_is_object_of(tc.arguments.as_str()) {
                    AssistantContent::ToolCall(tc.duplicate())
                } else {
                    let mut t2 = tc.duplicate();
                    t2.arguments = "{}".to_string();
                    AssistantContent::ToolCall(t2)
                }
            },
            other => other.duplicate(),
        };
        let ghost before = content@;
        content.push(b);
        assert(assistant_contents_view(content@) =~= assistant_contents_view(before).push(normalize_block(oc[i as int])));
        assert(oc.take(i + 1) =~= oc.take(i as int).push(oc[i as int]));
        assert(oc.take(i + 1).map_values(|b: AssistantContentView| normalize_block(b)) =~= oc.take(i as int).map_values(
            |b: AssistantContentView| normalize_block(b),
        ).push(normalize_block(oc[i as int])));
        i += 1;
    }
    assert(oc.take(msg.content.len() as int) =~= oc);
    msg.content = content;
    let calls = tool_calls_exec(&msg.content);
    RoundEnd::Reply { message: msg, tool_calls: calls }
}

/// The result message of a tool call: its output as one text block.
pub fn tool_result_message(call: &ToolCall, output: String, is_error: bool, timestamp: u64) -> (r: Message)
    ensures
        match r@ {
            MessageView::ToolResult(tr) => tr.tool_call_id == call@.id && tr.tool_name == call@.name && tr.content == seq![
                UserContentView::Text(TextContentView { text: output@, text_signature: None }),
            ] && tr.is_error == is_error && tr.timestamp == timestamp,
            _ => false,
        },
{
    let mut content: Vec<UserContent> = Vec::new();
    content.push(UserContent::Text(TextContent { text: output, text_signature: None }));
    assert(user_contents_view(content@) =~= seq![UserContentView::Text(TextContentView { text: output@, text_signature: None })]);
    Message::ToolResult(
        ToolResultMessage {
            tool_call_id: call.id.clone(),
            tool_name: call.name.clone(),
            content,
            is_error,
            timestamp,
        },
    )
}

/// The chunk that shows a tool result.
pub fn tool_result_chunk(call: &ToolCall, output: &str, is_error: bool) -> (r: Chunk)
    ensures
        r@ == (ChunkView {
            chunk_type: "tool_result"@,
            text: output@,
            extra: ChunkExtraView::ToolResult { id: call@.id, is_error },
        }),
{
    Chunk {
        chunk_type: "tool_result".to_string(),
        text: output.to_string(),
        extra: ChunkExtra::ToolResult { id: call.id.clone(), is_error },
    }
}

/// What a running conversation does after a round has ended.
pub enum RoundAction {
    /// Show "stopped", save the new messages and finish.
    Stop,
    /// Save the new messages, then finish with this error.
    SaveAndFail(String),
    /// Finish with this error at once, saving nothing.
    FailUnsaved(String),
    /// Save the new messages and finish: the reply asked for no tool.
    Finish,
    /// Run these tool calls of the reply, then start another round.
    RunTools(Vec<ToolCall>),
}

/// The messages of a running conversation: all of them, as the model sees
/// them, and those added in this run, which are saved when it ends.
pub struct ConversationRun {
    pub messages: Vec<Message>,
    pub new_messages: Vec<Message>,
}

impl ConversationRun {
    /// A run on `history` started by the task message `task`.
    pub fn start(history: Vec<Message>, task: Message) -> (r: ConversationRun)
        ensures
            messages_view(r.messages@) == messages_view(history@).push(task@),
            messages_view(r.new_messages@) == seq![task@],
    {
        let mut messages = history;
        let mut new_messages: Vec<Message> = Vec::new();
        new_messages.push(task.duplicate());
        let ghost before = messages@;
        messages.push(task);
        proof {
            assert(messages_view(messages@) =~= messages_view(before).push(task@));
            assert(messages_view(new_messages@) =~= seq![task@]);
        }
        ConversationRun { messages, new_messages }
    }

    /// Records how a round ended: a reply joins both lists; a reply with
    /// tool calls asks for them to run, one without finishes the run; a
    /// stop or a failed stream ends the run after saving, and a stream that
    /// ended without a reply ends it at once, saving nothing.
    pub fn after_round(&mut self, end: RoundEnd) -> (r: RoundAction)
        ensures
            match end {
                RoundEnd::Stopped => r is Stop && *final(self) == *old(self),
                RoundEnd::Failed(e) => (match r {
                    RoundAction::SaveAndFail(x) => x@ == e@,
                    _ => false,
                }) && *final(self) == *old(self),
                RoundEnd::NoReply => (match r {
                    RoundAction::FailUnsaved(x) => x@ == "no assistant message received"@,
                    _ => false,
                }) && *final(self) == *old(self),
                RoundEnd::Reply { message, tool_calls } => {
                    &&& messages_view(final(self).messages@) == messages_view(old(self).messages@).push(
                        MessageView::Assistant(message@),
                    )
                    &&& messages_view(final(self).new_messages@) == messages_view(
                        old(self).new_messages@,
                    ).push(MessageView::Assistant(message@))
                    &&& if tool_calls@.len() == 0 {
                        r is Finish
                    } else {
                        match r {
                            RoundAction::RunTools(calls) => tool_calls_view(calls@) == tool_calls_view(
                                tool_calls@,
                            ),
                            _ => false,
                        }
                    }
                },
            },
    {
        match end {
            RoundEnd::Stopped => RoundAction::Stop,
            RoundEnd::Failed(e) => RoundAction::SaveAndFail(e),
            RoundEnd::NoReply => RoundAction::FailUnsaved("no assistant message received".to_string()),
            RoundEnd::Reply { message, tool_calls } => {
                let ghost m = message@;
                let ghost old_messages = self.messages@;
                let ghost old_new = self.new_messages@;
                let a = Message::Assistant(message);
                self.new_messages.push(a.duplicate());
                self.messages.push(a);
                proof {
                    assert(messages_view(self.messages@) =~= messages_view(old_messages).push(
                        MessageView::Assistant(m),
                    ));
                    assert(messages_view(self.new_messages@) =~= messages_view(old_new).push(
                        MessageView::Assistant(m),
                    ));
                }
                if tool_calls.len() == 0 {
                    RoundAction::Finish
                } else {
                    RoundAction::RunTools(tool_calls)
                }
            },
        }
    }

    /// Records the result of a tool call in both lists.
    pub fn record_result(&mut self, result: Message)
        ensures
            messages_view(final(self).messages@) == messages_view(old(self).messages@).push(result@),
            messages_view(final(self).new_messages@) == messages_view(old(self).new_messages@).push(
                result@,
            ),
    {
        let ghost old_messages = self.messages@;
        let ghost old_new = self.new_messages@;
        self.new_messages.push(result.duplicate());
        self.messages.push(result);
        proof {
            assert(messages_view(self.messages@) =~= messages_view(old_messages).push(result@));
            assert(messages_view(self.new_messages@) =~= messages_view(old_new).push(result@));
        }
    }
}

} // verus!
