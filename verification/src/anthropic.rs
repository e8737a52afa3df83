//! Anthropic Messages adapter: request building from the shared message
//! protocol and stop-reason mapping.
use vstd::prelude::*;
use crate::pi_types::{AssistantContent, AssistantContentView, AssistantMessageView, Context, ImageContent,
    ImageContentView, Message, MessageView, Model, ModelView, StopReason, TextContentView, Tool,
    ToolResultMessage, ToolResultMessageView, UserContent, UserContentView, UserMessageContent,
    UserMessageContentView, messages_view, user_contents_view, user_block_texts, opt_str, clone_opt_str};
use crate::text::{is_blank, join_with_newline, sanitize_surrogates, spec_join_newline, trim};
use crate::transform::{ToolCallIdNormalizer, transform_messages, spec_transform};

verus! {

/// Source of an image block; `source_type` is always "base64".
pub struct ImageSource {
    pub source_type: String,
    pub media_type: String,
    pub data: String,
}

/// Block of a tool result sent back to the model.
pub enum ToolResultBlock {
    Text { text: String },
    Image { source: ImageSource },
}

/// Content of a tool result: joined text, or blocks when images are present.
pub enum ToolResultContent {
    Text(String),
    Blocks(Vec<ToolResultBlock>),
}

/// Content block of a request message.
pub enum ContentBlockParam {
    Text { text: String },
    Thinking { thinking: String, signature: String },
    RedactedThinking { data: String },
    /// `input` is JSON text.
    ToolUse { id: String, name: String, input: String },
    ToolResult { tool_use_id: String, content: ToolResultContent, is_error: bool },
    Image { source: ImageSource },
}

/// Content of a request message.
pub enum MessageParamContent {
    Text(String),
    Blocks(Vec<ContentBlockParam>),
}

/// A request message.
pub struct MessageParam {
    pub role: String,
    pub content: MessageParamContent,
}

/// Views: the same shapes over character sequences.
pub struct ImageSourceView {
    pub source_type: Seq<char>,
    pub media_type: Seq<char>,
    pub data: Seq<char>,
}

pub enum ToolResultBlockView {
    Text { text: Seq<char> },
    Image { source: ImageSourceView },
}

pub enum ToolResultContentView {
    Text(Seq<char>),
    Blocks(Seq<ToolResultBlockView>),
}

pub enum ContentBlockParamView {
    Text { text: Seq<char> },
    Thinking { thinking: Seq<char>, signature: Seq<char> },
    RedactedThinking { data: Seq<char> },
    ToolUse { id: Seq<char>, name: Seq<char>, input: Seq<char> },
    ToolResult { tool_use_id: Seq<char>, content: ToolResultContentView, is_error: bool },
    Image { source: ImageSourceView },
}

pub enum MessageParamContentView {
    Text(Seq<char>),
    Blocks(Seq<ContentBlockParamView>),
}

pub struct MessageParamView {
    pub role: Seq<char>,
    pub content: MessageParamContentView,
}

impl View for ImageSource {
    type V = ImageSourceView;

    open spec fn view(&self) -> ImageSourceView {
        ImageSourceView { source_type: self.source_type@, media_type: self.media_type@, data: self.data@ }
    }
}

impl View for ToolResultBlock {
    type V = ToolResultBlockView;

    open spec fn view(&self) -> ToolResultBlockView {
        match self {
            ToolResultBlock::Text { text } => ToolResultBlockView::Text { text: text@ },
            ToolResultBlock::Image { source } => ToolResultBlockView::Image { source: source@ },
        }
    }
}

impl View for ToolResultContent {
    type V = ToolResultContentView;

    open spec fn view(&self) -> ToolResultContentView {
        match self {
            ToolResultContent::Text(t) => ToolResultContentView::Text(t@),
            ToolResultContent::Blocks(b) => ToolResultContentView::Blocks(
                b@.map_values(|x: ToolResultBlock| x@),
            ),
        }
    }
}

impl View for ContentBlockParam {
    type V = ContentBlockParamView;

    open spec fn view(&self) -> ContentBlockParamView {
        match self {
            ContentBlockParam::Text { text } => ContentBlockParamView::Text { text: text@ },
            ContentBlockParam::Thinking { thinking, signature } => ContentBlockParamView::Thinking {
                thinking: thinking@,
                signature: signature@,
            },
            ContentBlockParam::RedactedThinking { data } => ContentBlockParamView::RedactedThinking {
                data: data@,
            },
            ContentBlockParam::ToolUse { id, name, input } => ContentBlockParamView::ToolUse {
                id: id@,
                name: name@,
                input: input@,
            },
            ContentBlockParam::ToolResult { tool_use_id, content, is_error } => ContentBlockParamView::ToolResult {
                tool_use_id: tool_use_id@,
                content: content@,
                is_error: *is_error,
            },
            ContentBlockParam::Image { source } => ContentBlockParamView::Image { source: source@ },
        }
    }
}

/// View of a list of request blocks.
pub open spec fn blocks_view(v: Seq<ContentBlockParam>) -> Seq<ContentBlockParamView> {
    v.map_values(|x: ContentBlockParam| x@)
}

impl View for MessageParamContent {
    type V = MessageParamContentView;

    open spec fn view(&self) -> MessageParamContentView {
        match self {
            MessageParamContent::Text(t) => MessageParamContentView::Text(t@),
            MessageParamContent::Blocks(b) => MessageParamContentView::Blocks(blocks_view(b@)),
        }
    }
}

impl View for MessageParam {
    type V = MessageParamView;

    open spec fn view(&self) -> MessageParamView {
        MessageParamView { role: self.role@, content: self.content@ }
    }
}

/// View of a list of request messages.
pub open spec fn params_view(v: Seq<MessageParam>) -> Seq<MessageParamView> {
    v.map_values(|x: MessageParam| x@)
}

/// "base64".
pub open spec fn base64_name() -> Seq<char> {
    seq!['b', 'a', 's', 'e', '6', '4']
}

/// Image source for an image block.
pub open spec fn image_source(i: ImageContentView) -> ImageSourceView {
    ImageSourceView { source_type: base64_name(), media_type: i.mime_type, data: i.data }
}

fn image_source_of(i: &ImageContent) -> (r: ImageSource)
    ensures
        r@ == image_source(i@),
{
    let b = "base64";
    proof {
        reveal_strlit("base64");
    }
    assert(b@ =~= base64_name());
    ImageSource { source_type: b.to_string(), media_type: i.mime_type.clone(), data: i.data.clone() }
}

/// Whether any block is an image.
pub open spec fn has_image(content: Seq<UserContentView>) -> bool {
    exists|k: int| 0 <= k < content.len() && #[trigger] content[k] is Image
}

/// Tool-result blocks for user content, in order.
pub open spec fn tool_result_blocks(content: Seq<UserContentView>) -> Seq<ToolResultBlockView> {
    content.map_values(
        |c: UserContentView| match c {
            UserContentView::Text(t) => ToolResultBlockView::Text { text: t.text },
            UserContentView::Image(i) => ToolResultBlockView::Image { source: image_source(i) },
        },
    )
}

/// "(see attached image)".
pub open spec fn see_attached_image() -> Seq<char> {
    seq!['(', 's', 'e', 'e', ' ', 'a', 't', 't', 'a', 'c', 'h', 'e', 'd', ' ', 'i', 'm', 'a', 'g', 'e', ')']
}

/// Tool-result content: the text blocks joined with newlines when there is
/// no image; otherwise the blocks, with a placeholder text first when none is text.
pub open spec fn spec_content_blocks(content: Seq<UserContentView>) -> ToolResultContentView {
    if !has_image(content) {
        ToolResultContentView::Text(spec_join_newline(user_block_texts(content)))
    } else {
        let blocks = tool_result_blocks(content);
        if exists|k: int| 0 <= k < blocks.len() && #[trigger] blocks[k] is Text {
            ToolResultContentView::Blocks(blocks)
        } else {
            ToolResultContentView::Blocks(seq![ToolResultBlockView::Text { text: see_attached_image() }] + blocks)
        }
    }
}

fn has_image_exec(content: &Vec<UserContent>) -> (r: bool)
    ensures
        r == has_image(user_contents_view(content@)),
{
    let ghost cv = user_contents_view(content@);
    let mut i: usize = 0;
    while i < content.len()
        invariant
            i <= content.len(),
            cv == user_contents_view(content@),
            forall|k: int| 0 <= k < i ==> !(#[trigger] cv[k] is Image),
        decreases content.len() - i,
    {
        match &content[i] {
            UserContent::Image(_) => {
                assert(cv[i as int] is Image);
                return true;
            },
            _ => {},
        }
        i += 1;
    }
    false
}

/// Converts tool-result content blocks for Anthropic.
pub fn convert_content_blocks(content: &Vec<UserContent>) -> (r: ToolResultContent)
    ensures
        r@ == spec_content_blocks(user_contents_view(content@)),
{
    let ghost cv = user_contents_view(content@);
    if !has_image_exec(content) {
        let t = crate::pi_types::user_blocks_text(content);
        return ToolResultContent::Text(sanitize_surrogates(t.as_str()));
    }
    let mut blocks: Vec<ToolResultBlock> = Vec::new();
    let mut has_text = false;
    let mut i: usize = 0;
    while i < content.len()
        invariant
            i <= content.len(),
            cv == user_contents_view(content@),
            blocks@.len() == i,
            forall|k: int| 0 <= k < i ==> (#[trigger] blocks@[k])@ == tool_result_blocks(cv)[k],
            has_text == exists|k: int| 0 <= k < i && #[trigger] cv[k] is Text,
        decreases content.len() - i,
    {
        match &content[i] {
            UserContent::Text(t) => {
                blocks.push(ToolResultBlock::Text { text: sanitize_surrogates(t.text.as_str()) });
                has_text = true;
                assert(cv[i as int] is Text);
            },
            UserContent::Image(img) => {
                blocks.push(ToolResultBlock::Image { source: image_source_of(img) });
            },
        }
        i += 1;
    }
    assert(blocks@.map_values(|x: ToolResultBlock| x@) =~= tool_result_blocks(cv));
    assert(has_text == exists|k: int| 0 <= k < tool_result_blocks(cv).len() && #[trigger] tool_result_blocks(cv)[k] is Text) by {
        if has_text {
            let k = choose|k: int| 0 <= k < content.len() && #[trigger] cv[k] is Text;
            assert(tool_result_blocks(cv)[k] is Text);
        }
        if exists|k: int| 0 <= k < tool_result_blocks(cv).len() && #[trigger] tool_result_blocks(cv)[k] is Text {
            let k = choose|k: int| 0 <= k < tool_result_blocks(cv).len() && #[trigger] tool_result_blocks(cv)[k] is Text;
            assert(cv[k] is Text);
        }
    }
    if !has_text {
        let ph = "(see attached image)";
        proof {
            reveal_strlit("(see attached image)");
        }
        assert(ph@ =~= see_attached_image());
        let ghost before = blocks@;
        blocks.insert(0, ToolResultBlock::Text { text: ph.to_string() });
        assert(blocks@.map_values(|x: ToolResultBlock| x@) =~= seq![
            ToolResultBlockView::Text { text: see_attached_image() },
        ] + tool_result_blocks(cv));
    }
    ToolResultContent::Blocks(blocks)
}

/// Tool-result block for a tool-result message.
pub open spec fn spec_tool_result(m: ToolResultMessageView) -> ContentBlockParamView {
    ContentBlockParamView::ToolResult {
        tool_use_id: m.tool_call_id,
        content: spec_content_blocks(m.content),
        is_error: m.is_error,
    }
}

/// Converts a tool-result message into a `tool_result` block.
pub fn convert_tool_result(msg: &ToolResultMessage) -> (r: ContentBlockParam)
    ensures
        r@ == spec_tool_result(msg@),
{
    ContentBlockParam::ToolResult {
        tool_use_id: msg.tool_call_id.clone(),
        content: convert_content_blocks(&msg.content),
        is_error: msg.is_error,
    }
}

/// A tool definition for Anthropic.
pub struct ToolParam {
    pub name: String,
    pub description: String,
    /// JSON schema text.
    pub input_schema: String,
}

/// Converts tool definitions (parameters become the input schema).
pub fn convert_tools(tools: &Vec<Tool>) -> (r: Vec<ToolParam>)
    ensures
        r@.len() == tools@.len(),
        forall|k: int|
            0 <= k < tools@.len() ==> (#[trigger] r@[k]).name@ == tools@[k].name@ && r@[k].description@
                == tools@[k].description@ && r@[k].input_schema@ == tools@[k].parameters@,
{
    let mut out: Vec<ToolParam> = Vec::new();
    let mut i: usize = 0;
    while i < tools.len()
        invariant
            i <= tools.len(),
            out@.len() == i,
            forall|k: int|
                0 <= k < i ==> (#[trigger] out@[k]).name@ == tools@[k].name@ && out@[k].description@
                    == tools@[k].description@ && out@[k].input_schema@ == tools@[k].parameters@,
        decreases tools.len() - i,
    {
        out.push(
            ToolParam {
                name: tools[i].name.clone(),
                description: tools[i].description.clone(),
                input_schema: tools[i].parameters.clone(),
            },
        );
        i += 1;
    }
    out
}

/// Details given with a `refusal` stop.
pub struct RefusalStopDetails {
    pub details_type: String,
    pub explanation: Option<String>,
}

/// "The model refused to complete the request".
pub open spec fn refusal_default() -> Seq<char> {
    "The model refused to complete the request"@
}

/// "Provider stopped with: sensitive".
pub open spec fn sensitive_message() -> Seq<char> {
    "Provider stopped with: sensitive"@
}

/// "Unhandled stop reason: " followed by the reason.
pub open spec fn unhandled_stop(reason: Seq<char>) -> Seq<char> {
    "Unhandled stop reason: "@ + reason
}

/// Stop reason of an Anthropic reply, with an error message for refusals
/// and sensitive-content stops; unknown reasons are an error.
pub open spec fn spec_map_stop_reason(reason: Seq<char>, explanation: Option<Seq<char>>) -> Result<
    (StopReason, Option<Seq<char>>),
    Seq<char>,
> {
    if reason == "end_turn"@ {
        Ok((StopReason::Stop, None))
    } else if reason == "max_tokens"@ {
        Ok((StopReason::Length, None))
    } else if reason == "tool_use"@ {
        Ok((StopReason::ToolUse, None))
    } else if reason == "refusal"@ {
        Ok(
            (
                StopReason::Error,
                Some(
                    match explanation {
                        Some(e) => e,
                        None => refusal_default(),
                    },
                ),
            ),
        )
    } else if reason == "pause_turn"@ {
        Ok((StopReason::Stop, None))
    } else if reason == "stop_sequence"@ {
        Ok((StopReason::Stop, None))
    } else if reason == "sensitive"@ {
        Ok((StopReason::Error, Some(sensitive_message())))
    } else {
        Err(unhandled_stop(reason))
    }
}

/// Maps an Anthropic stop reason.
pub fn map_stop_reason(reason: &str, stop_details: Option<&RefusalStopDetails>) -> (r: Result<
    (StopReason, Option<String>),
    String,
>)
    ensures
        match r {
            Ok((sr, msg)) => spec_map_stop_reason(
                reason@,
                match stop_details {
                    Some(d) => opt_str(d.explanation),
                    None => None,
                },
            ) == Ok::<(StopReason, Option<Seq<char>>), Seq<char>>((sr, opt_str(msg))),
            Err(e) => spec_map_stop_reason(
                reason@,
                match stop_details {
                    Some(d) => opt_str(d.explanation),
                    None => None,
                },
            ) == Err::<(StopReason, Option<Seq<char>>), Seq<char>>(e@),
        },
{
    let r = reason.to_string();
    let end_turn = "end_turn".to_string();
    let max_tokens = "max_tokens".to_string();
    let tool_use = "tool_use".to_string();
    let refusal = "refusal".to_string();
    let pause_turn = "pause_turn".to_string();
    let stop_sequence = "stop_sequence".to_string();
    let sensitive = "sensitive".to_string();
    if r == end_turn {
        Ok((StopReason::Stop, None))
    } else if r == max_tokens {
        Ok((StopReason::Length, None))
    } else if r == tool_use {
        Ok((StopReason::ToolUse, None))
    } else if r == refusal {
        let msg = match stop_details {
            Some(d) => match &d.explanation {
                Some(e) => e.clone(),
                None => "The model refused to complete the request".to_string(),
            },
            None => "The model refused to complete the request".to_string(),
        };
        Ok((StopReason::Error, Some(msg)))
    } else if r == pause_turn {
        Ok((StopReason::Stop, None))
    } else if r == stop_sequence {
        Ok((StopReason::Stop, None))
    } else if r == sensitive {
        Ok((StopReason::Error, Some("Provider stopped with: sensitive".to_string())))
    } else {
        let mut m = "Unhandled stop reason: ".to_string();
        m.append(reason);
        Err(m)
    }
}

/// Request blocks for user content blocks, blank text blocks dropped.
pub open spec fn user_param_blocks(bs: Seq<UserContentView>) -> Seq<ContentBlockParamView>
    decreases bs.len(),
{
    if bs.len() == 0 {
        Seq::empty()
    } else {
        let rest = user_param_blocks(bs.drop_last());
        match bs.last() {
            UserContentView::Text(t) => if trim(t.text).len() == 0 {
                rest
            } else {
                rest.push(ContentBlockParamView::Text { text: t.text })
            },
            UserContentView::Image(i) => rest.push(ContentBlockParamView::Image { source: image_source(i) }),
        }
    }
}

/// Text of an optional signature, empty when absent.
pub open spec fn sig_or_empty(s: Option<Seq<char>>) -> Seq<char> {
    match s {
        Some(x) => x,
        None => Seq::empty(),
    }
}

/// Request block for one block of a reply (`None`: dropped).
pub open spec fn assistant_param_block(b: AssistantContentView) -> Option<ContentBlockParamView> {
    match b {
        AssistantContentView::Text(t) => if trim(t.text).len() == 0 {
            None
        } else {
            Some(ContentBlockParamView::Text { text: t.text })
        },
        AssistantContentView::Thinking(t) => {
            if t.redacted == Some(true) {
                Some(ContentBlockParamView::RedactedThinking { data: sig_or_empty(t.thinking_signature) })
            } else {
                let sig = sig_or_empty(t.thinking_signature);
                let has_sig = trim(sig).len() != 0;
                if trim(t.thinking).len() == 0 && !has_sig {
                    None
                } else if !has_sig {
                    Some(ContentBlockParamView::Text { text: t.thinking })
                } else {
                    Some(ContentBlockParamView::Thinking { thinking: t.thinking, signature: sig })
                }
            }
        },
        AssistantContentView::ToolCall(tc) => Some(
            ContentBlockParamView::ToolUse {
                id: tc.id,
                name: tc.name,
                input: if tc.arguments == "null"@ {
                    "{}"@
                } else {
                    tc.arguments
                },
            },
        ),
    }
}

/// Request blocks of a reply.
pub open spec fn assistant_param_blocks(bs: Seq<AssistantContentView>) -> Seq<ContentBlockParamView>
    decreases bs.len(),
{
    if bs.len() == 0 {
        Seq::empty()
    } else {
        let rest = assistant_param_blocks(bs.drop_last());
        match assistant_param_block(bs.last()) {
            Some(b) => rest.push(b),
            None => rest,
        }
    }
}

/// End of the run of tool results that starts at `i`.
pub open spec fn run_end(msgs: Seq<MessageView>, i: int) -> int
    decreases msgs.len() - i,
{
    if 0 <= i < msgs.len() && msgs[i] is ToolResult {
        run_end(msgs, i + 1)
    } else {
        i
    }
}

/// Tool-result blocks for the messages `msgs[i..j]` (all tool results).
pub open spec fn result_blocks(msgs: Seq<MessageView>, i: int, j: int) -> Seq<ContentBlockParamView>
    decreases j - i,
{
    if i >= j {
        Seq::empty()
    } else {
        let rest = result_blocks(msgs, i, j - 1);
        match msgs[j - 1] {
            MessageView::ToolResult(tr) => rest.push(spec_tool_result(tr)),
            _ => rest,
        }
    }
}

/// Request messages for `msgs[i..]`: blank user text and empty messages
/// are skipped, and consecutive tool results are merged into one user message.
pub open spec fn convert_from(msgs: Seq<MessageView>, i: int) -> Seq<MessageParamView>
    decreases msgs.len() - i, 1int,
{
    if i < 0 || i >= msgs.len() {
        Seq::empty()
    } else {
        match msgs[i] {
            MessageView::User(u) => match u.content {
                UserMessageContentView::Text(t) => if trim(t).len() == 0 {
                    convert_from(msgs, i + 1)
                } else {
                    seq![MessageParamView { role: "user"@, content: MessageParamContentView::Text(t) }]
                        + convert_from(msgs, i + 1)
                },
                UserMessageContentView::Blocks(bs) => {
                    let converted = user_param_blocks(bs);
                    if converted.len() == 0 {
                        convert_from(msgs, i + 1)
                    } else {
                        seq![MessageParamView { role: "user"@, content: MessageParamContentView::Blocks(converted) }]
                            + convert_from(msgs, i + 1)
                    }
                },
            },
            MessageView::Assistant(a) => {
                let blocks = assistant_param_blocks(a.content);
                if blocks.len() == 0 {
                    convert_from(msgs, i + 1)
                } else {
                    seq![MessageParamView { role: "assistant"@, content: MessageParamContentView::Blocks(blocks) }]
                        + convert_from(msgs, i + 1)
                }
            },
            MessageView::ToolResult(_) => {
                let j = run_end_bounded(msgs, i);
                seq![
                    MessageParamView {
                        role: "user"@,
                        content: MessageParamContentView::Blocks(result_blocks(msgs, i, j)),
                    },
                ] + convert_from(msgs, j)
            },
        }
    }
}

/// `run_end`, known to move past a tool result at `i`.
pub open spec fn run_end_bounded(msgs: Seq<MessageView>, i: int) -> int {
    let j = run_end(msgs, i);
    if i < j <= msgs.len() {
        j
    } else {
        i + 1
    }
}

proof fn lemma_run_end(msgs: Seq<MessageView>, i: int, j: int)
    requires
        0 <= i <= j <= msgs.len(),
        forall|k: int| i <= k < j ==> #[trigger] msgs[k] is ToolResult,
    ensures
        run_end(msgs, i) == run_end(msgs, j),
    decreases j - i,
{
    if i < j {
        lemma_run_end(msgs, i + 1, j);
    }
}

fn user_param_blocks_exec(bs: &Vec<UserContent>) -> (r: Vec<ContentBlockParam>)
    ensures
        blocks_view(r@) == user_param_blocks(user_contents_view(bs@)),
{
    let ghost cv = user_contents_view(bs@);
    let mut out: Vec<ContentBlockParam> = Vec::new();
    let mut i: usize = 0;
    while i < bs.len()
        invariant
            i <= bs.len(),
            cv == user_contents_view(bs@),
            blocks_view(out@) == user_param_blocks(cv.take(i as int)),
        decreases bs.len() - i,
    {
        assert(cv.take(i + 1).drop_last() == cv.take(i as int));
        assert(cv.take(i + 1).last() == bs@[i as int]@);
        let ghost before = out@;
        match &bs[i] {
            UserContent::Text(t) => {
                if !is_blank(t.text.as_str()) {
                    out.push(ContentBlockParam::Text { text: sanitize_surrogates(t.text.as_str()) });
                    assert(blocks_view(out@) =~= blocks_view(before).push(out@.last()@));
                }
            },
            UserContent::Image(img) => {
                out.push(ContentBlockParam::Image { source: image_source_of(img) });
                assert(blocks_view(out@) =~= blocks_view(before).push(out@.last()@));
            },
        }
        i += 1;
    }
    assert(cv.take(bs.len() as int) == cv);
    out
}

fn assistant_param_block_exec(b: &AssistantContent) -> (r: Option<ContentBlockParam>)
    ensures
        match r {
            Some(x) => assistant_param_block(b@) == Some(x@),
            None => assistant_param_block(b@) is None,
        },
{
    match b {
        AssistantContent::Text(t) => {
            if is_blank(t.text.as_str()) {
                None
            } else {
                Some(ContentBlockParam::Text { text: sanitize_surrogates(t.text.as_str()) })
            }
        },
        AssistantContent::Thinking(t) => {
            let sig = match &t.thinking_signature {
                Some(x) => x.clone(),
                None => String::new(),
            };
            if t.redacted == Some(true) {
                return Some(ContentBlockParam::RedactedThinking { data: sig });
            }
            let has_sig = !is_blank(sig.as_str());
            if is_blank(t.thinking.as_str()) && !has_sig {
                None
            } else if !has_sig {
                Some(ContentBlockParam::Text { text: sanitize_surrogates(t.thinking.as_str()) })
            } else {
                Some(ContentBlockParam::Thinking { thinking: sanitize_surrogates(t.thinking.as_str()), signature: sig })
            }
        },
        AssistantContent::ToolCall(tc) => {
            let null = "null".to_string();
            let input = if tc.arguments == null {
                "{}".to_string()
            } else {
                tc.arguments.clone()
            };
            Some(ContentBlockParam::ToolUse { id: tc.id.clone(), name: tc.name.clone(), input })
        },
    }
}

fn assistant_param_blocks_exec(bs: &Vec<AssistantContent>) -> (r: Vec<ContentBlockParam>)
    ensures
        blocks_view(r@) == assistant_param_blocks(crate::pi_types::assistant_contents_view(bs@)),
{
    let ghost cv = crate::pi_types::assistant_contents_view(bs@);
    let mut out: Vec<ContentBlockParam> = Vec::new();
    let mut i: usize = 0;
    while i < bs.len()
        invariant
            i <= bs.len(),
            cv == crate::pi_types::assistant_contents_view(bs@),
            blocks_view(out@) == assistant_param_blocks(cv.take(i as int)),
        decreases bs.len() - i,
    {
        assert(cv.take(i + 1).drop_last() == cv.take(i as int));
        assert(cv.take(i + 1).last() == bs@[i as int]@);
        let ghost before = out@;
        match assistant_param_block_exec(&bs[i]) {
            Some(x) => {
                out.push(x);
                assert(blocks_view(out@) =~= blocks_view(before).push(out@.last()@));
            },
            None => {},
        }
        i += 1;
    }
    assert(cv.take(bs.len() as int) == cv);
    out
}

fn tool_result_at(msgs: &Vec<Message>, j: usize) -> (r: bool)
    ensures
        r == (j < msgs.len() && msgs@[j as int]@ is ToolResult),
{
    if j < msgs.len() {
        match &msgs[j] {
            Message::ToolResult(_) => true,
            _ => false,
        }
    } else {
        false
    }
}

/// Converts replayed messages into Anthropic request messages.
pub fn convert_messages(msgs: &Vec<Message>) -> (r: Vec<MessageParam>)
    ensures
        params_view(r@) == convert_from(messages_view(msgs@), 0),
{
    let ghost mv = messages_view(msgs@);
    let mut params: Vec<MessageParam> = Vec::new();
    let mut i: usize = 0;
    while i < msgs.len()
        invariant
            i <= msgs.len(),
            mv == messages_view(msgs@),
            params_view(params@) + convert_from(mv, i as int) == convert_from(mv, 0),
        decreases msgs.len() - i,
    {
        let ghost before = params@;
        assert(mv[i as int] == msgs@[i as int]@);
        match &msgs[i] {
            Message::User(u) => {
                match &u.content {
                    UserMessageContent::Text(t) => {
                        if !is_blank(t.as_str()) {
                            params.push(MessageParam { role: "user".to_string(), content: MessageParamContent::Text(sanitize_surrogates(t.as_str())) });
                            assert(params_view(params@) =~= params_view(before).push(params@.last()@));
                        }
                    },
                    UserMessageContent::Blocks(bs) => {
                        let converted = user_param_blocks_exec(bs);
                        if converted.len() > 0 {
                            params.push(MessageParam { role: "user".to_string(), content: MessageParamContent::Blocks(converted) });
                            assert(params_view(params@) =~= params_view(before).push(params@.last()@));
                        }
                    },
                }
                i += 1;
            },
            Message::Assistant(a) => {
                let blocks = assistant_param_blocks_exec(&a.content);
                if blocks.len() > 0 {
                    params.push(MessageParam { role: "assistant".to_string(), content: MessageParamContent::Blocks(blocks) });
                    assert(params_view(params@) =~= params_view(before).push(params@.last()@));
                }
                i += 1;
            },
            Message::ToolResult(tr0) => {
                let mut results: Vec<ContentBlockParam> = Vec::new();
                results.push(convert_tool_result(tr0));
                let mut j: usize = i + 1;
                proof {
                    assert(result_blocks(mv, i as int, i as int).len() == 0);
                    assert(blocks_view(results@) =~= result_blocks(mv, i as int, j as int));
                }
                while tool_result_at(msgs, j)
                    invariant
                        i < j <= msgs.len(),
                        mv == messages_view(msgs@),
                        blocks_view(results@) == result_blocks(mv, i as int, j as int),
                        forall|k: int| i <= k < j ==> #[trigger] mv[k] is ToolResult,
                    decreases msgs.len() - j,
                {
                    assert(mv[j as int] == msgs@[j as int]@);
                    match &msgs[j] {
                        Message::ToolResult(tr) => {
                            let ghost rb = results@;
                            results.push(convert_tool_result(tr));
                            assert(blocks_view(results@) =~= blocks_view(rb).push(results@.last()@));
                        },
                        _ => {},
                    }
                    j += 1;
                }
                proof {
                    lemma_run_end(mv, i as int, j as int);
                    assert(run_end(mv, j as int) == j);
                    assert(run_end_bounded(mv, i as int) == j);
                }
                let ghost rest = convert_from(mv, j as int);
                let p = MessageParam { role: "user".to_string(), content: MessageParamContent::Blocks(results) };
                proof {
                    reveal_strlit("user");
                    assert(p@ == MessageParamView {
                        role: "user"@,
                        content: MessageParamContentView::Blocks(result_blocks(mv, i as int, j as int)),
                    });
                    assert(convert_from(mv, i as int) == seq![p@] + rest);
                }
                params.push(p);
                assert(params_view(params@) =~= params_view(before).push(p@));
                assert(params_view(before).push(p@) + rest =~= params_view(before) + (seq![p@] + rest));
                i = j;
            },
        }
    }
    assert(params_view(params@) + Seq::<MessageParamView>::empty() == params_view(params@));
    params
}

/// A request message with something in it: non-blank text or at least one block.
pub open spec fn nonempty_param(p: MessageParamView) -> bool {
    match p.content {
        MessageParamContentView::Text(t) => trim(t).len() > 0,
        MessageParamContentView::Blocks(b) => b.len() > 0,
    }
}

proof fn lemma_result_blocks_len(msgs: Seq<MessageView>, i: int, j: int)
    requires
        i <= j <= msgs.len(),
        forall|k: int| i <= k < j ==> #[trigger] msgs[k] is ToolResult,
    ensures
        result_blocks(msgs, i, j).len() == j - i,
    decreases j - i,
{
    if i < j {
        lemma_result_blocks_len(msgs, i, j - 1);
    }
}

proof fn lemma_run_end_props(msgs: Seq<MessageView>, i: int)
    requires
        0 <= i <= msgs.len(),
    ensures
        i <= run_end(msgs, i) <= msgs.len(),
        forall|k: int| i <= k < run_end(msgs, i) ==> #[trigger] msgs[k] is ToolResult,
    decreases msgs.len() - i,
{
    if i < msgs.len() && msgs[i] is ToolResult {
        lemma_run_end_props(msgs, i + 1);
    }
}

proof fn lemma_param_blocks_keep_text(bs: Seq<AssistantContentView>, p: int, text: Seq<char>)
    requires
        0 <= p < bs.len(),
        bs[p] is Text,
        bs[p]->Text_0.text == text,
        trim(text).len() != 0,
    ensures
        assistant_param_blocks(bs).contains(ContentBlockParamView::Text { text }),
    decreases bs.len(),
{
    let rest = assistant_param_blocks(bs.drop_last());
    if p == bs.len() - 1 {
        let out = rest.push(ContentBlockParamView::Text { text });
        assert(out[rest.len() as int] == ContentBlockParamView::Text { text });
    } else {
        lemma_param_blocks_keep_text(bs.drop_last(), p, text);
        let k = choose|k: int| 0 <= k < rest.len() && rest[k] == ContentBlockParamView::Text { text };
        match assistant_param_block(bs.last()) {
            Some(b) => {
                assert(rest.push(b)[k] == rest[k]);
            },
            None => {},
        }
    }
}

/// No text block among `bl` is blank.
pub open spec fn text_blocks_nonblank(bl: Seq<ContentBlockParamView>) -> bool {
    forall|q: int| 0 <= q < bl.len() && (#[trigger] bl[q]) is Text ==> trim(bl[q]->Text_text).len() != 0
}

/// Whether an assistant request message holds a text block with `text`.
pub open spec fn assistant_param_has_text(m: MessageParamView, text: Seq<char>) -> bool {
    m.role == "assistant"@ && m.content is Blocks && m.content->Blocks_0.contains(ContentBlockParamView::Text { text })
}

/// Whether an assistant request message has no blank text block.
pub open spec fn assistant_param_nonblank(m: MessageParamView) -> bool {
    m.role == "assistant"@ && m.content is Blocks ==> text_blocks_nonblank(m.content->Blocks_0)
}

proof fn lemma_param_blocks_text_nonblank(bs: Seq<AssistantContentView>)
    ensures
        text_blocks_nonblank(assistant_param_blocks(bs)),
    decreases bs.len(),
{
    if bs.len() > 0 {
        lemma_param_blocks_text_nonblank(bs.drop_last());
        let rest = assistant_param_blocks(bs.drop_last());
        match assistant_param_block(bs.last()) {
            Some(x) => {
                assert forall|q: int| 0 <= q < rest.push(x).len() && (#[trigger] rest.push(x)[q]) is Text implies trim(
                    rest.push(x)[q]->Text_text,
                ).len() != 0 by {
                    if q < rest.len() {
                        assert(rest.push(x)[q] == rest[q]);
                    }
                }
            },
            None => {},
        }
    }
}

proof fn lemma_run_end_before(msgs: Seq<MessageView>, j: int, i: int)
    requires
        0 <= j <= i < msgs.len(),
        !(msgs[i] is ToolResult),
    ensures
        j <= run_end(msgs, j) <= i,
        msgs[j] is ToolResult ==> j < run_end(msgs, j),
    decreases i - j,
{
    if j < i && msgs[j] is ToolResult {
        lemma_run_end_before(msgs, j + 1, i);
    }
}

/// `convert_from(msgs, i)` ends `convert_from(msgs, j)` when `msgs[i]` is
/// not a tool result and `j <= i`.
proof fn lemma_convert_suffix(msgs: Seq<MessageView>, j: int, i: int)
    requires
        0 <= j <= i < msgs.len(),
        !(msgs[i] is ToolResult),
    ensures
        convert_from(msgs, i).len() <= convert_from(msgs, j).len(),
        convert_from(msgs, j).skip(convert_from(msgs, j).len() - convert_from(msgs, i).len()) == convert_from(
            msgs,
            i,
        ),
    decreases i - j,
{
    let x = convert_from(msgs, i);
    if j == i {
        assert(convert_from(msgs, j).skip(0) =~= x);
    } else {
        let next = if msgs[j] is ToolResult {
            lemma_run_end_before(msgs, j, i);
            run_end_bounded(msgs, j)
        } else {
            j + 1
        };
        lemma_convert_suffix(msgs, next, i);
        let y = convert_from(msgs, next);
        let z = convert_from(msgs, j);
        assert(z == y || exists|h: MessageParamView| z == seq![h] + y);
        if z != y {
            let h = choose|h: MessageParamView| z == seq![h] + y;
            assert(z.skip(z.len() - x.len()) =~= y.skip(y.len() - x.len()));
        }
    }
}

/// Every non-blank text block of a reply in the history reaches the
/// request: some assistant message of the converted request holds a text
/// block with that text.  No text block of an assistant request message
/// is blank.
pub proof fn lemma_reply_text_kept(msgs: Seq<MessageView>, i: int, p: int)
    ensures
        (0 <= i < msgs.len() && msgs[i] is Assistant && 0 <= p < msgs[i]->Assistant_0.content.len()
            && msgs[i]->Assistant_0.content[p] is Text && trim(msgs[i]->Assistant_0.content[p]->Text_0.text).len()
            != 0) ==> exists|k: int|
            0 <= k < convert_from(msgs, 0).len() && assistant_param_has_text(
                #[trigger] convert_from(msgs, 0)[k],
                msgs[i]->Assistant_0.content[p]->Text_0.text,
            ),
        forall|k: int|
            0 <= k < convert_from(msgs, 0).len() ==> assistant_param_nonblank(#[trigger] convert_from(msgs, 0)[k]),
{
    reveal_strlit("assistant");
    if 0 <= i < msgs.len() && msgs[i] is Assistant {
        let a = msgs[i]->Assistant_0;
        if 0 <= p < a.content.len() && a.content[p] is Text && trim(a.content[p]->Text_0.text).len() != 0 {
            let text = a.content[p]->Text_0.text;
            lemma_param_blocks_keep_text(a.content, p, text);
            let blocks = assistant_param_blocks(a.content);
            lemma_convert_suffix(msgs, 0, i);
            let out = convert_from(msgs, 0);
            let x = convert_from(msgs, i);
            assert(x[0] == MessageParamView { role: "assistant"@, content: MessageParamContentView::Blocks(blocks) });
            let k = out.len() - x.len();
            assert(out[k] == out.skip(k)[0]);
            assert(assistant_param_has_text(out[k], text));
        }
    }
    lemma_assistant_params_nonblank(msgs, 0);
}

proof fn lemma_assistant_params_nonblank(msgs: Seq<MessageView>, j: int)
    ensures
        forall|k: int| 0 <= k < convert_from(msgs, j).len() ==> assistant_param_nonblank(#[trigger] convert_from(msgs, j)[k]),
    decreases msgs.len() - j,
{
    reveal_strlit("user");
    reveal_strlit("assistant");
    if 0 <= j < msgs.len() {
        let next = if msgs[j] is ToolResult {
            run_end_bounded(msgs, j)
        } else {
            j + 1
        };
        assert(j < next);
        lemma_assistant_params_nonblank(msgs, next);
        let y = convert_from(msgs, next);
        let z = convert_from(msgs, j);
        if msgs[j] is Assistant {
            lemma_param_blocks_text_nonblank(msgs[j]->Assistant_0.content);
        }
        assert("user"@ != "assistant"@) by {
            assert("user"@.len() != "assistant"@.len());
        }
        assert forall|k: int| 0 <= k < z.len() implies assistant_param_nonblank(#[trigger] z[k]) by {
            if z.len() > y.len() {
                if k > 0 {
                    assert(z[k] == y[k - 1]);
                }
            } else {
                assert(z[k] == y[k]);
            }
        }
    }
}

/// Every request message that the conversion emits has content: blank
/// texts, empty messages and replies without blocks are skipped, and a
/// run of tool results gives one message with one block per result.
pub proof fn lemma_converted_nonempty(msgs: Seq<MessageView>, i: int)
    ensures
        forall|k: int| 0 <= k < convert_from(msgs, i).len() ==> nonempty_param(#[trigger] convert_from(msgs, i)[k]),
    decreases msgs.len() - i, 1int,
{
    if 0 <= i < msgs.len() {
        match msgs[i] {
            MessageView::ToolResult(_) => {
                let j = run_end_bounded(msgs, i);
                lemma_run_end_props(msgs, i);
                lemma_run_end_props(msgs, i + 1);
                assert(run_end(msgs, i) == run_end(msgs, i + 1));
                assert(i < j <= msgs.len());
                assert forall|k: int| i <= k < j implies #[trigger] msgs[k] is ToolResult by {
                    if j == run_end(msgs, i) {
                    } else {
                        assert(j == i + 1);
                    }
                }
                lemma_result_blocks_len(msgs, i, j);
                lemma_converted_nonempty(msgs, j);
                let head = MessageParamView {
                    role: "user"@,
                    content: MessageParamContentView::Blocks(result_blocks(msgs, i, j)),
                };
                assert forall|k: int| 0 <= k < convert_from(msgs, i).len() implies nonempty_param(
                    #[trigger] convert_from(msgs, i)[k],
                ) by {
                    if k > 0 {
                        assert(convert_from(msgs, i)[k] == convert_from(msgs, j)[k - 1]);
                    }
                }
            },
            _ => {
                lemma_converted_nonempty(msgs, i + 1);
                assert forall|k: int| 0 <= k < convert_from(msgs, i).len() implies nonempty_param(
                    #[trigger] convert_from(msgs, i)[k],
                ) by {
                    if convert_from(msgs, i).len() == convert_from(msgs, i + 1).len() {
                        assert(convert_from(msgs, i) == convert_from(msgs, i + 1));
                    } else if k > 0 {
                        assert(convert_from(msgs, i)[k] == convert_from(msgs, i + 1)[k - 1]);
                    }
                }
            },
        }
    }
}

/// A system prompt block (`"type": "text"`).
pub struct SystemBlock {
    pub block_type: String,
    pub text: String,
}

/// Extended thinking settings.
pub enum ThinkingConfig {
    Enabled { budget_tokens: u32, display: String },
    Disabled,
}

/// An Anthropic Messages request (always streamed).
pub struct CreateMessageRequest {
    pub model: String,
    pub messages: Vec<MessageParam>,
    pub system: Option<Vec<SystemBlock>>,
    pub tools: Option<Vec<ToolParam>>,
    pub thinking: Option<ThinkingConfig>,
    pub max_tokens: u32,
    pub stream: bool,
}

/// Options of an Anthropic call.
pub struct AnthropicOptions {
    pub api_key: Option<String>,
    pub max_tokens: Option<u32>,
    pub thinking_enabled: Option<bool>,
    pub thinking_budget_tokens: Option<u32>,
}

/// Builds the request for a model call: the conversation replayed with
/// Anthropic tool-call ids, a non-blank system prompt as one text block,
/// tools when there are any, thinking settings for reasoning models
/// (enabled with the given budget or 1024 and summarized display, or
/// explicitly disabled, or left out), and the token limit of the options
/// or of the model.
pub fn build_params(model: &Model, context: &Context, options: &AnthropicOptions) -> (r: CreateMessageRequest)
    ensures
        r.model@ == model.id@,
        exists|now: u64|
            params_view(r.messages@) == convert_from(
                spec_transform(messages_view(context.messages@), model@, ToolCallIdNormalizer::Anthropic, now),
                0,
            ),
        match context.system_prompt {
            Some(sp) => if trim(sp@).len() > 0 {
                r.system matches Some(b) && b@.len() == 1 && b@[0].block_type@ == "text"@ && b@[0].text@ == sp@
            } else {
                r.system is None
            },
            None => r.system is None,
        },
        match context.tools {
            Some(t) => if t.len() > 0 {
                r.tools matches Some(rt) && rt@.len() == t@.len() && forall|k: int|
                    0 <= k < t@.len() ==> (#[trigger] rt@[k]).name@ == t@[k].name@ && rt@[k].description@
                        == t@[k].description@ && rt@[k].input_schema@ == t@[k].parameters@
            } else {
                r.tools is None
            },
            None => r.tools is None,
        },
        !model.reasoning ==> r.thinking is None,
        model.reasoning ==> match options.thinking_enabled {
            Some(true) => r.thinking matches Some(ThinkingConfig::Enabled { budget_tokens, display })
                && budget_tokens == (match options.thinking_budget_tokens {
                    Some(b) => b,
                    None => 1024,
                }) && display@ == "summarized"@,
            Some(false) => r.thinking matches Some(ThinkingConfig::Disabled),
            None => r.thinking is None,
        },
        r.max_tokens == match options.max_tokens {
            Some(m) => m,
            None => model.max_tokens,
        },
        r.stream,
{
    let transformed = transform_messages(&context.messages, model, ToolCallIdNormalizer::Anthropic);
    let messages = convert_messages(&transformed);
    let system = match &context.system_prompt {
        Some(sp) => if !is_blank(sp.as_str()) {
            let mut v: Vec<SystemBlock> = Vec::new();
            v.push(SystemBlock { block_type: "text".to_string(), text: sanitize_surrogates(sp.as_str()) });
            Some(v)
        } else {
            None
        },
        None => None,
    };
    let tools = match &context.tools {
        Some(t) => if t.len() > 0 {
            Some(convert_tools(t))
        } else {
            None
        },
        None => None,
    };
    let thinking = if model.reasoning {
        match options.thinking_enabled {
            Some(true) => Some(
                ThinkingConfig::Enabled {
                    budget_tokens: match options.thinking_budget_tokens {
                        Some(b) => b,
                        None => 1024,
                    },
                    display: "summarized".to_string(),
                },
            ),
            Some(false) => Some(ThinkingConfig::Disabled),
            None => None,
        }
    } else {
        None
    };
    CreateMessageRequest {
        model: model.id.clone(),
        messages,
        system,
        tools,
        thinking,
        max_tokens: match options.max_tokens {
            Some(m) => m,
            None => model.max_tokens,
        },
        stream: true,
    }
}

} // verus!
