//! The message protocol shared by every model adapter: content blocks,
//! user / assistant / tool-result messages, tools, model descriptors,
//! together with their mathematical views.
//!
//! Tool-call arguments and tool parameter schemas are carried as JSON
//! text (the serialised form of the JSON value); the library only ever
//! compares, forwards or re-parses that text.
use vstd::prelude::*;
use crate::text::{push_str, join_with_newline, lemma_join_concat, spec_join_newline};

verus! {

/// View of an optional string.
pub open spec fn opt_str(o: Option<String>) -> Option<Seq<char>> {
    match o {
        Some(s) => Some(s@),
        None => None,
    }
}

/// Copies an optional string, keeping its view.
pub fn clone_opt_str(o: &Option<String>) -> (r: Option<String>)
    ensures
        opt_str(r) == opt_str(*o),
{
    match o {
        Some(s) => Some(s.clone()),
        None => None,
    }
}

/// Plain text block.
pub struct TextContent {
    pub text: String,
    /// Provider metadata of the text item (legacy id or a signature JSON).
    pub text_signature: Option<String>,
}

pub struct TextContentView {
    pub text: Seq<char>,
    pub text_signature: Option<Seq<char>>,
}

impl View for TextContent {
    type V = TextContentView;

    open spec fn view(&self) -> TextContentView {
        TextContentView { text: self.text@, text_signature: opt_str(self.text_signature) }
    }
}

impl TextContent {
    pub fn duplicate(&self) -> (r: TextContent)
        ensures
            r@ == self@,
    {
        TextContent { text: self.text.clone(), text_signature: clone_opt_str(&self.text_signature) }
    }
}

/// Reasoning block.
pub struct ThinkingContent {
    pub thinking: String,
    /// Provider payload needed to replay the reasoning (signature or item JSON).
    pub thinking_signature: Option<String>,
    /// Set when the reasoning was redacted by the provider.
    pub redacted: Option<bool>,
}

pub struct ThinkingContentView {
    pub thinking: Seq<char>,
    pub thinking_signature: Option<Seq<char>>,
    pub redacted: Option<bool>,
}

impl View for ThinkingContent {
    type V = ThinkingContentView;

    open spec fn view(&self) -> ThinkingContentView {
        ThinkingContentView {
            thinking: self.thinking@,
            thinking_signature: opt_str(self.thinking_signature),
            redacted: self.redacted,
        }
    }
}

impl ThinkingContent {
    pub fn duplicate(&self) -> (r: ThinkingContent)
        ensures
            r@ == self@,
    {
        ThinkingContent {
            thinking: self.thinking.clone(),
            thinking_signature: clone_opt_str(&self.thinking_signature),
            redacted: self.redacted,
        }
    }
}

/// Base64 image block.
pub struct ImageContent {
    pub data: String,
    pub mime_type: String,
}

pub struct ImageContentView {
    pub data: Seq<char>,
    pub mime_type: Seq<char>,
}

impl View for ImageContent {
    type V = ImageContentView;

    open spec fn view(&self) -> ImageContentView {
        ImageContentView { data: self.data@, mime_type: self.mime_type@ }
    }
}

impl ImageContent {
    pub fn duplicate(&self) -> (r: ImageContent)
        ensures
            r@ == self@,
    {
        ImageContent { data: self.data.clone(), mime_type: self.mime_type.clone() }
    }
}

/// A tool invocation requested by the model; `arguments` is JSON text.
pub struct ToolCall {
    pub id: String,
    pub name: String,
    pub arguments: String,
    pub thought_signature: Option<String>,
}

pub struct ToolCallView {
    pub id: Seq<char>,
    pub name: Seq<char>,
    pub arguments: Seq<char>,
    pub thought_signature: Option<Seq<char>>,
}

impl View for ToolCall {
    type V = ToolCallView;

    open spec fn view(&self) -> ToolCallView {
        ToolCallView {
            id: self.id@,
            name: self.name@,
            arguments: self.arguments@,
            thought_signature: opt_str(self.thought_signature),
        }
    }
}

impl ToolCall {
    pub fn duplicate(&self) -> (r: ToolCall)
        ensures
            r@ == self@,
    {
        ToolCall {
            id: self.id.clone(),
            name: self.name.clone(),
            arguments: self.arguments.clone(),
            thought_signature: clone_opt_str(&self.thought_signature),
        }
    }
}

/// User or tool-result content block.
pub enum UserContent {
    Text(TextContent),
    Image(ImageContent),
}

pub enum UserContentView {
    Text(TextContentView),
    Image(ImageContentView),
}

impl View for UserContent {
    type V = UserContentView;

    open spec fn view(&self) -> UserContentView {
        match self {
            UserContent::Text(t) => UserContentView::Text(t@),
            UserContent::Image(i) => UserContentView::Image(i@),
        }
    }
}

impl UserContent {
    pub fn duplicate(&self) -> (r: UserContent)
        ensures
            r@ == self@,
    {
        match self {
            UserContent::Text(t) => UserContent::Text(t.duplicate()),
            UserContent::Image(i) => UserContent::Image(i.duplicate()),
        }
    }
}

/// View of a list of user content blocks.
pub open spec fn user_contents_view(v: Seq<UserContent>) -> Seq<UserContentView> {
    v.map_values(|c: UserContent| c@)
}

/// Copies a list of user content blocks.
pub fn duplicate_user_contents(v: &Vec<UserContent>) -> (r: Vec<UserContent>)
    ensures
        user_contents_view(r@) == user_contents_view(v@),
{
    let mut out: Vec<UserContent> = Vec::new();
    let mut i: usize = 0;
    while i < v.len()
        invariant
            i <= v.len(),
            out@.len() == i,
            forall|k: int| 0 <= k < i ==> #[trigger] out@[k]@ == v@[k]@,
        decreases v.len() - i,
    {
        let d = v[i].duplicate();
        out.push(d);
        i += 1;
    }
    assert(user_contents_view(out@) =~= user_contents_view(v@));
    out
}

/// Assistant content block.
pub enum AssistantContent {
    Text(TextContent),
    Thinking(ThinkingContent),
    ToolCall(ToolCall),
}

pub enum AssistantContentView {
    Text(TextContentView),
    Thinking(ThinkingContentView),
    ToolCall(ToolCallView),
}

impl View for AssistantContent {
    type V = AssistantContentView;

    open spec fn view(&self) -> AssistantContentView {
        match self {
            AssistantContent::Text(t) => AssistantContentView::Text(t@),
            AssistantContent::Thinking(t) => AssistantContentView::Thinking(t@),
            AssistantContent::ToolCall(t) => AssistantContentView::ToolCall(t@),
        }
    }
}

impl AssistantContent {
    pub fn duplicate(&self) -> (r: AssistantContent)
        ensures
            r@ == self@,
    {
        match self {
            AssistantContent::Text(t) => AssistantContent::Text(t.duplicate()),
            AssistantContent::Thinking(t) => AssistantContent::Thinking(t.duplicate()),
            AssistantContent::ToolCall(t) => AssistantContent::ToolCall(t.duplicate()),
        }
    }
}

/// View of a list of assistant content blocks.
pub open spec fn assistant_contents_view(v: Seq<AssistantContent>) -> Seq<AssistantContentView> {
    v.map_values(|c: AssistantContent| c@)
}

/// Copies a list of assistant content blocks.
pub fn duplicate_assistant_contents(v: &Vec<AssistantContent>) -> (r: Vec<AssistantContent>)
    ensures
        assistant_contents_view(r@) == assistant_contents_view(v@),
{
    let mut out: Vec<AssistantContent> = Vec::new();
    let mut i: usize = 0;
    while i < v.len()
        invariant
            i <= v.len(),
            out@.len() == i,
            forall|k: int| 0 <= k < i ==> #[trigger] out@[k]@ == v@[k]@,
        decreases v.len() - i,
    {
        let d = v[i].duplicate();
        out.push(d);
        i += 1;
    }
    assert(assistant_contents_view(out@) =~= assistant_contents_view(v@));
    out
}

/// Token usage of one assistant turn.
#[derive(Clone, Copy, PartialEq, Eq, Structural)]
pub struct Usage {
    pub input: u64,
    pub output: u64,
    pub cache_read: u64,
    pub cache_write: u64,
    /// Reasoning tokens (a part of `output`) when the provider reports them.
    pub reasoning: Option<u64>,
    pub total_tokens: u64,
}

impl Usage {
    /// All counters zero.
    pub fn zero() -> (r: Usage)
        ensures
            r == (Usage {
                input: 0,
                output: 0,
                cache_read: 0,
                cache_write: 0,
                reasoning: None,
                total_tokens: 0,
            }),
    {
        Usage { input: 0, output: 0, cache_read: 0, cache_write: 0, reasoning: None, total_tokens: 0 }
    }
}

/// Why an assistant turn ended.
#[derive(Clone, Copy, PartialEq, Eq, Structural)]
pub enum StopReason {
    Pending,
    Stop,
    Length,
    ToolUse,
    Error,
    Aborted,
}

/// User message content: a plain string or a list of blocks.
pub enum UserMessageContent {
    Text(String),
    Blocks(Vec<UserContent>),
}

pub enum UserMessageContentView {
    Text(Seq<char>),
    Blocks(Seq<UserContentView>),
}

impl View for UserMessageContent {
    type V = UserMessageContentView;

    open spec fn view(&self) -> UserMessageContentView {
        match self {
            UserMessageContent::Text(s) => UserMessageContentView::Text(s@),
            UserMessageContent::Blocks(b) => UserMessageContentView::Blocks(
                user_contents_view(b@),
            ),
        }
    }
}

/// A message from the user; `timestamp` is Unix milliseconds.
pub struct UserMessage {
    pub content: UserMessageContent,
    pub timestamp: u64,
}

pub struct UserMessageView {
    pub content: UserMessageContentView,
    pub timestamp: u64,
}

impl View for UserMessage {
    type V = UserMessageView;

    open spec fn view(&self) -> UserMessageView {
        UserMessageView { content: self.content@, timestamp: self.timestamp }
    }
}

impl UserMessage {
    pub fn duplicate(&self) -> (r: UserMessage)
        ensures
            r@ == self@,
    {
        let content = match &self.content {
            UserMessageContent::Text(s) => UserMessageContent::Text(s.clone()),
            UserMessageContent::Blocks(b) => UserMessageContent::Blocks(duplicate_user_contents(b)),
        };
        UserMessage { content, timestamp: self.timestamp }
    }
}

/// A model reply.
pub struct AssistantMessage {
    pub content: Vec<AssistantContent>,
    pub api: String,
    pub provider: String,
    pub model: String,
    pub response_model: Option<String>,
    pub response_id: Option<String>,
    pub usage: Usage,
    pub stop_reason: StopReason,
    pub error_message: Option<String>,
    pub raw_stop_reason: Option<String>,
    pub timestamp: u64,
}

#[verifier::ext_equal]
pub struct AssistantMessageView {
    pub content: Seq<AssistantContentView>,
    pub api: Seq<char>,
    pub provider: Seq<char>,
    pub model: Seq<char>,
    pub response_model: Option<Seq<char>>,
    pub response_id: Option<Seq<char>>,
    pub usage: Usage,
    pub stop_reason: StopReason,
    pub error_message: Option<Seq<char>>,
    pub raw_stop_reason: Option<Seq<char>>,
    pub timestamp: u64,
}

impl View for AssistantMessage {
    type V = AssistantMessageView;

    open spec fn view(&self) -> AssistantMessageView {
        AssistantMessageView {
            content: assistant_contents_view(self.content@),
            api: self.api@,
            provider: self.provider@,
            model: self.model@,
            response_model: opt_str(self.response_model),
            response_id: opt_str(self.response_id),
            usage: self.usage,
            stop_reason: self.stop_reason,
            error_message: opt_str(self.error_message),
            raw_stop_reason: opt_str(self.raw_stop_reason),
            timestamp: self.timestamp,
        }
    }
}

impl AssistantMessage {
    pub fn duplicate(&self) -> (r: AssistantMessage)
        ensures
            r@ == self@,
    {
        AssistantMessage {
            content: duplicate_assistant_contents(&self.content),
            api: self.api.clone(),
            provider: self.provider.clone(),
            model: self.model.clone(),
            response_model: clone_opt_str(&self.response_model),
            response_id: clone_opt_str(&self.response_id),
            usage: self.usage,
            stop_reason: self.stop_reason,
            error_message: clone_opt_str(&self.error_message),
            raw_stop_reason: clone_opt_str(&self.raw_stop_reason),
            timestamp: self.timestamp,
        }
    }
}

/// Result of one tool call, fed back to the model.
pub struct ToolResultMessage {
    pub tool_call_id: String,
    pub tool_name: String,
    pub content: Vec<UserContent>,
    pub is_error: bool,
    pub timestamp: u64,
}

pub struct ToolResultMessageView {
    pub tool_call_id: Seq<char>,
    pub tool_name: Seq<char>,
    pub content: Seq<UserContentView>,
    pub is_error: bool,
    pub timestamp: u64,
}

impl View for ToolResultMessage {
    type V = ToolResultMessageView;

    open spec fn view(&self) -> ToolResultMessageView {
        ToolResultMessageView {
            tool_call_id: self.tool_call_id@,
            tool_name: self.tool_name@,
            content: user_contents_view(self.content@),
            is_error: self.is_error,
            timestamp: self.timestamp,
        }
    }
}

impl ToolResultMessage {
    pub fn duplicate(&self) -> (r: ToolResultMessage)
        ensures
            r@ == self@,
    {
        ToolResultMessage {
            tool_call_id: self.tool_call_id.clone(),
            tool_name: self.tool_name.clone(),
            content: duplicate_user_contents(&self.content),
            is_error: self.is_error,
            timestamp: self.timestamp,
        }
    }
}

/// One message of a conversation.
pub enum Message {
    User(UserMessage),
    Assistant(AssistantMessage),
    ToolResult(ToolResultMessage),
}

pub enum MessageView {
    User(UserMessageView),
    Assistant(AssistantMessageView),
    ToolResult(ToolResultMessageView),
}

impl View for Message {
    type V = MessageView;

    open spec fn view(&self) -> MessageView {
        match self {
            Message::User(m) => MessageView::User(m@),
            Message::Assistant(m) => MessageView::Assistant(m@),
            Message::ToolResult(m) => MessageView::ToolResult(m@),
        }
    }
}

impl Message {
    pub fn duplicate(&self) -> (r: Message)
        ensures
            r@ == self@,
    {
        match self {
            Message::User(m) => Message::User(m.duplicate()),
            Message::Assistant(m) => Message::Assistant(m.duplicate()),
            Message::ToolResult(m) => Message::ToolResult(m.duplicate()),
        }
    }
}

/// View of a list of messages.
pub open spec fn messages_view(v: Seq<Message>) -> Seq<MessageView> {
    v.map_values(|m: Message| m@)
}

/// A tool offered to the model; `parameters` is a JSON schema as text.
pub struct Tool {
    pub name: String,
    pub description: String,
    pub parameters: String,
}

/// Everything a model call needs.
pub struct Context {
    pub system_prompt: Option<String>,
    pub messages: Vec<Message>,
    pub tools: Option<Vec<Tool>>,
}

/// The target model of a call.
pub struct Model {
    pub id: String,
    pub api: String,
    pub provider: String,
    pub base_url: String,
    pub reasoning: bool,
    /// Supported inputs: "text" and/or "image".
    pub input: Vec<String>,
    pub max_tokens: u32,
}

pub struct ModelView {
    pub id: Seq<char>,
    pub api: Seq<char>,
    pub provider: Seq<char>,
    pub base_url: Seq<char>,
    pub reasoning: bool,
    pub input: Seq<Seq<char>>,
    pub max_tokens: u32,
}

impl View for Model {
    type V = ModelView;

    open spec fn view(&self) -> ModelView {
        ModelView {
            id: self.id@,
            api: self.api@,
            provider: self.provider@,
            base_url: self.base_url@,
            reasoning: self.reasoning,
            input: self.input@.map_values(|s: String| s@),
            max_tokens: self.max_tokens,
        }
    }
}

/// Current time in Unix milliseconds (0 if the clock is before the epoch).
///
/// Trusted: reads the system clock (`std::time::SystemTime::now`); nothing
/// is stated of the value, which depends on the time of the call.
#[verifier::external_body]
pub fn now_timestamp() -> u64 {
    std::time::SystemTime::now()
        .duration_since(std::time::UNIX_EPOCH)
        .map(|d| d.as_millis() as u64)
        .unwrap_or(0)
}

/// A plain-text user message stamped with the current time.
pub fn user_text_message(text: &str) -> (r: Message)
    ensures
        r@ matches MessageView::User(u) && u.content == UserMessageContentView::Text(text@),
{
    let t = now_timestamp();
    Message::User(UserMessage { content: UserMessageContent::Text(text.to_string()), timestamp: t })
}

/// The texts of the text blocks, in order (images skipped).
pub open spec fn user_block_texts(blocks: Seq<UserContentView>) -> Seq<Seq<char>>
    decreases blocks.len(),
{
    if blocks.len() == 0 {
        Seq::empty()
    } else {
        let rest = user_block_texts(blocks.drop_last());
        match blocks.last() {
            UserContentView::Text(t) => rest.push(t.text),
            UserContentView::Image(_) => rest,
        }
    }
}

/// The text blocks of two block lists one after the other are those of
/// the first, then those of the second.
pub proof fn lemma_user_block_texts_concat(a: Seq<UserContentView>, b: Seq<UserContentView>)
    ensures
        user_block_texts(a + b) == user_block_texts(a) + user_block_texts(b),
    decreases b.len(),
{
    if b.len() == 0 {
        assert(a + b =~= a);
        assert(user_block_texts(a) + user_block_texts(b) =~= user_block_texts(a));
    } else {
        lemma_user_block_texts_concat(a, b.drop_last());
        assert((a + b).drop_last() =~= a + b.drop_last());
        assert((a + b).last() == b.last());
        match b.last() {
            UserContentView::Text(t) => {
                assert(user_block_texts(a) + user_block_texts(b.drop_last()).push(t.text) =~= (
                user_block_texts(a) + user_block_texts(b.drop_last())).push(t.text));
            },
            UserContentView::Image(_) => {},
        }
    }
}

/// The text of two block lists that each hold a text block, one after the
/// other, is the text of the first, a newline, and the text of the second.
pub proof fn lemma_user_blocks_text_concat(a: Seq<UserContentView>, b: Seq<UserContentView>)
    requires
        user_block_texts(a).len() >= 1,
        user_block_texts(b).len() >= 1,
    ensures
        spec_join_newline(user_block_texts(a + b)) == spec_join_newline(user_block_texts(a)) + seq!['\n']
            + spec_join_newline(user_block_texts(b)),
{
    lemma_user_block_texts_concat(a, b);
    lemma_join_concat(user_block_texts(a), user_block_texts(b), seq!['\n']);
}

/// Text of user content blocks: the text blocks joined with newlines.
pub fn user_blocks_text(blocks: &Vec<UserContent>) -> (r: String)
    ensures
        r@ == spec_join_newline(user_block_texts(user_contents_view(blocks@))),
{
    let mut parts: Vec<String> = Vec::new();
    let mut i: usize = 0;
    while i < blocks.len()
        invariant
            i <= blocks.len(),
            parts@.map_values(|s: String| s@) == user_block_texts(
                user_contents_view(blocks@.take(i as int)),
            ),
        decreases blocks.len() - i,
    {
        let ghost before = blocks@.take(i as int);
        assert(user_contents_view(blocks@.take(i + 1)).drop_last() == user_contents_view(before));
        match &blocks[i] {
            UserContent::Text(t) => {
                parts.push(t.text.clone());
            },
            UserContent::Image(_) => {},
        }
        assert(parts@.map_values(|s: String| s@) == user_block_texts(
            user_contents_view(blocks@.take(i + 1)),
        ));
        i += 1;
    }
    assert(blocks@.take(blocks.len() as int) == blocks@);
    join_with_newline(&parts)
}

/// Plain text of a user message.
pub open spec fn spec_user_message_text(c: UserMessageContentView) -> Seq<char> {
    match c {
        UserMessageContentView::Text(s) => s,
        UserMessageContentView::Blocks(b) => spec_join_newline(user_block_texts(b)),
    }
}

/// Plain text of user message content: the string itself, or the joined text blocks.
pub fn user_message_text(content: &UserMessageContent) -> (r: String)
    ensures
        r@ == spec_user_message_text(content@),
{
    match content {
        UserMessageContent::Text(s) => s.clone(),
        UserMessageContent::Blocks(blocks) => user_blocks_text(blocks),
    }
}

/// Text of the last text block of an assistant reply, empty when there is none.
pub open spec fn spec_last_text(content: Seq<AssistantContentView>) -> Seq<char>
    decreases content.len(),
{
    if content.len() == 0 {
        Seq::empty()
    } else {
        match content.last() {
            AssistantContentView::Text(t) => t.text,
            _ => spec_last_text(content.drop_last()),
        }
    }
}

/// The text of the last text block of `message` (empty when there is none).
pub fn assistant_message_text(message: &AssistantMessage) -> (r: String)
    ensures
        r@ == spec_last_text(message@.content),
{
    let mut i: usize = message.content.len();
    assert(message@.content.take(i as int) == message@.content);
    while i > 0
        invariant
            i <= message.content.len(),
            spec_last_text(message@.content) == spec_last_text(message@.content.take(i as int)),
        decreases i,
    {
        let ghost pre = message@.content.take(i as int);
        assert(pre.drop_last() == message@.content.take(i - 1));
        assert(pre.last() == message.content@[i - 1]@);
        match &message.content[i - 1] {
            AssistantContent::Text(t) => {
                return t.text.clone();
            },
            _ => {},
        }
        i -= 1;
    }
    String::new()
}

/// Progress of a streamed model reply; each event carries the reply as it
/// stands at that point (`partial`).
pub enum AssistantMessageEvent {
    Start { partial: AssistantMessage },
    TextStart { content_index: usize, partial: AssistantMessage },
    TextDelta { content_index: usize, delta: String, partial: AssistantMessage },
    TextEnd { content_index: usize, content: String, partial: AssistantMessage },
    ThinkingStart { content_index: usize, partial: AssistantMessage },
    ThinkingDelta { content_index: usize, delta: String, partial: AssistantMessage },
    ThinkingEnd { content_index: usize, content: String, partial: AssistantMessage },
    ToolcallStart { content_index: usize, partial: AssistantMessage },
    ToolcallDelta { content_index: usize, delta: String, partial: AssistantMessage },
    ToolcallEnd { content_index: usize, tool_call: ToolCall, partial: AssistantMessage },
    Done { reason: StopReason, message: AssistantMessage },
    Error { reason: StopReason, error: AssistantMessage },
}

pub enum AssistantMessageEventView {
    Start { partial: AssistantMessageView },
    TextStart { content_index: usize, partial: AssistantMessageView },
    TextDelta { content_index: usize, delta: Seq<char>, partial: AssistantMessageView },
    TextEnd { content_index: usize, content: Seq<char>, partial: AssistantMessageView },
    ThinkingStart { content_index: usize, partial: AssistantMessageView },
    ThinkingDelta { content_index: usize, delta: Seq<char>, partial: AssistantMessageView },
    ThinkingEnd { content_index: usize, content: Seq<char>, partial: AssistantMessageView },
    ToolcallStart { content_index: usize, partial: AssistantMessageView },
    ToolcallDelta { content_index: usize, delta: Seq<char>, partial: AssistantMessageView },
    ToolcallEnd { content_index: usize, tool_call: ToolCallView, partial: AssistantMessageView },
    Done { reason: StopReason, message: AssistantMessageView },
    Error { reason: StopReason, error: AssistantMessageView },
}

impl View for AssistantMessageEvent {
    type V = AssistantMessageEventView;

    open spec fn view(&self) -> AssistantMessageEventView {
        match self {
            AssistantMessageEvent::Start { partial } => AssistantMessageEventView::Start { partial: partial@ },
            AssistantMessageEvent::TextStart { content_index, partial } => AssistantMessageEventView::TextStart {
                content_index: *content_index,
                partial: partial@,
            },
            AssistantMessageEvent::TextDelta { content_index, delta, partial } => AssistantMessageEventView::TextDelta {
                content_index: *content_index,
                delta: delta@,
                partial: partial@,
            },
            AssistantMessageEvent::TextEnd { content_index, content, partial } => AssistantMessageEventView::TextEnd {
                content_index: *content_index,
                content: content@,
                partial: partial@,
            },
            AssistantMessageEvent::ThinkingStart { content_index, partial } => AssistantMessageEventView::ThinkingStart {
                content_index: *content_index,
                partial: partial@,
            },
            AssistantMessageEvent::ThinkingDelta { content_index, delta, partial } => AssistantMessageEventView::ThinkingDelta {
                content_index: *content_index,
                delta: delta@,
                partial: partial@,
            },
            AssistantMessageEvent::ThinkingEnd { content_index, content, partial } => AssistantMessageEventView::ThinkingEnd {
                content_index: *content_index,
                content: content@,
                partial: partial@,
            },
            AssistantMessageEvent::ToolcallStart { content_index, partial } => AssistantMessageEventView::ToolcallStart {
                content_index: *content_index,
                partial: partial@,
            },
            AssistantMessageEvent::ToolcallDelta { content_index, delta, partial } => AssistantMessageEventView::ToolcallDelta {
                content_index: *content_index,
                delta: delta@,
                partial: partial@,
            },
            AssistantMessageEvent::ToolcallEnd { content_index, tool_call, partial } => AssistantMessageEventView::ToolcallEnd {
                content_index: *content_index,
                tool_call: tool_call@,
                partial: partial@,
            },
            AssistantMessageEvent::Done { reason, message } => AssistantMessageEventView::Done {
                reason: *reason,
                message: message@,
            },
            AssistantMessageEvent::Error { reason, error } => AssistantMessageEventView::Error {
                reason: *reason,
                error: error@,
            },
        }
    }
}

/// View of a list of events.
pub open spec fn events_view(v: Seq<AssistantMessageEvent>) -> Seq<AssistantMessageEventView> {
    v.map_values(|e: AssistantMessageEvent| e@)
}

/// A reply that has not started: no content, zero usage, pending, for `model`.
pub open spec fn spec_initial_output(model: ModelView, timestamp: u64) -> AssistantMessageView {
    AssistantMessageView {
        content: Seq::empty(),
        api: model.api,
        provider: model.provider,
        model: model.id,
        response_model: None,
        response_id: None,
        usage: Usage { input: 0, output: 0, cache_read: 0, cache_write: 0, reasoning: None, total_tokens: 0 },
        stop_reason: StopReason::Pending,
        error_message: None,
        raw_stop_reason: None,
        timestamp,
    }
}

/// The reply a stream starts from.
pub fn initial_output(model: &Model, timestamp: u64) -> (r: AssistantMessage)
    ensures
        r@ == spec_initial_output(model@, timestamp),
{
    let r = AssistantMessage {
        content: Vec::new(),
        api: model.api.clone(),
        provider: model.provider.clone(),
        model: model.id.clone(),
        response_model: None,
        response_id: None,
        usage: Usage::zero(),
        stop_reason: StopReason::Pending,
        error_message: None,
        raw_stop_reason: None,
        timestamp,
    };
    assert(r@.content =~= Seq::<AssistantContentView>::empty());
    r
}

/// "An unknown error occurred".
pub open spec fn unknown_error() -> Seq<char> {
    seq!['A', 'n', ' ', 'u', 'n', 'k', 'n', 'o', 'w', 'n', ' ', 'e', 'r', 'r', 'o', 'r', ' ', 'o', 'c', 'c', 'u', 'r', 'r', 'e', 'd']
}

/// The reply marked failed with `message`.
pub open spec fn spec_failed(output: AssistantMessageView, message: Seq<char>) -> AssistantMessageView {
    AssistantMessageView { stop_reason: StopReason::Error, error_message: Some(message), ..output }
}

/// The error event that ends a failed stream: the reply is marked failed with `message`.
pub fn error_event(output: AssistantMessage, message: String) -> (r: AssistantMessageEvent)
    ensures
        r@ == (AssistantMessageEventView::Error {
            reason: StopReason::Error,
            error: spec_failed(output@, message@),
        }),
{
    let mut output = output;
    output.stop_reason = StopReason::Error;
    output.error_message = Some(message);
    AssistantMessageEvent::Error { reason: StopReason::Error, error: output }
}

/// The last event of a stream whose events were all processed: an error
/// when processing failed, when no stop reason was reached, or when the
/// reply was aborted or failed (with its own message, or a generic one);
/// otherwise `Done` with the reply.
pub open spec fn spec_final_event(
    output: AssistantMessageView,
    processed: Result<(), Seq<char>>,
    no_stop_reason: Seq<char>,
) -> AssistantMessageEventView {
    match processed {
        Err(e) => AssistantMessageEventView::Error { reason: StopReason::Error, error: spec_failed(output, e) },
        Ok(()) => if output.stop_reason == StopReason::Pending {
            AssistantMessageEventView::Error { reason: StopReason::Error, error: spec_failed(output, no_stop_reason) }
        } else if output.stop_reason == StopReason::Aborted || output.stop_reason == StopReason::Error {
            AssistantMessageEventView::Error {
                reason: StopReason::Error,
                error: spec_failed(
                    output,
                    match output.error_message {
                        Some(m) => m,
                        None => unknown_error(),
                    },
                ),
            }
        } else {
            AssistantMessageEventView::Done { reason: output.stop_reason, message: output }
        },
    }
}

/// Decides the last event of a stream (see `spec_final_event`);
/// `no_stop_reason` is the protocol's message for a stream that ended without one.
pub fn final_event(output: AssistantMessage, processed: Result<(), String>, no_stop_reason: String) -> (r: AssistantMessageEvent)
    ensures
        r@ == spec_final_event(
            output@,
            match processed {
                Ok(()) => Ok(()),
                Err(e) => Err(e@),
            },
            no_stop_reason@,
        ),
{
    match processed {
        Err(e) => error_event(output, e),
        Ok(()) => {
            if output.stop_reason == StopReason::Pending {
                error_event(output, no_stop_reason)
            } else if output.stop_reason == StopReason::Aborted || output.stop_reason == StopReason::Error {
                let msg = match &output.error_message {
                    Some(m) => m.clone(),
                    None => {
                        proof {
                            reveal_strlit("An unknown error occurred");
                        }
                        let m = "An unknown error occurred".to_string();
                        assert(m@ =~= unknown_error());
                        m
                    },
                };
                error_event(output, msg)
            } else {
                let reason = output.stop_reason;
                AssistantMessageEvent::Done { reason, message: output }
            }
        },
    }
}

} // verus!
