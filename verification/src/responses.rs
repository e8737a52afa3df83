//! Request side of the OpenAI Responses protocol: the input items, the
//! tool definitions, the text signatures of replayed replies and the
//! request parameters.
use vstd::prelude::*;
use crate::hash::{short_hash, spec_short_hash};
use crate::json_parse::json_from_str;
use crate::json_value::json_canonical;
use crate::json_value::{distinct_keys, has_key, JsonScalar, JsonScalarView, fields_view, json_member, json_member_of, json_object, json_object_of, opt_scalar};
use crate::pi_types::{StopReason, AssistantContent, AssistantContentView, AssistantMessage, AssistantMessageView, Context, ImageContent, ImageContentView, Message, MessageView, Model, ModelView, Tool, UserContent, UserContentView, UserMessageContent, UserMessageContentView, ToolCall, ToolCallView, assistant_contents_view, messages_view, user_block_texts, user_contents_view, opt_str};
use crate::text::{chars_of, decimal, decimal_string, is_blank, push_char, push_str, sanitize_surrogates, spec_join_newline, string_from_chars, string_from_range, trim};
use crate::tool_ids::{first_bar, starts_fc};
use crate::transform::{ToolCallIdNormalizer, spec_transform, transform_messages};
use crate::anthropic::{has_image, see_attached_image};
use crate::pi_types::user_blocks_text;
use vstd::string::*;

verus! {

/// One part of a user input: text, or an image given as a data URL.
pub enum InputContent {
    InputText { text: String },
    InputImage { image_url: String },
}

pub enum InputContentView {
    InputText { text: Seq<char> },
    InputImage { image_url: Seq<char> },
}

impl View for InputContent {
    type V = InputContentView;

    open spec fn view(&self) -> InputContentView {
        match self {
            InputContent::InputText { text } => InputContentView::InputText { text: text@ },
            InputContent::InputImage { image_url } => InputContentView::InputImage { image_url: image_url@ },
        }
    }
}

pub open spec fn parts_view(v: Seq<InputContent>) -> Seq<InputContentView> {
    v.map_values(|c: InputContent| c@)
}

/// Output of a tool call as sent back to the model: a string, or parts.
pub enum ToolOutput {
    Text(String),
    Parts(Vec<InputContent>),
}

pub enum ToolOutputView {
    Text(Seq<char>),
    Parts(Seq<InputContentView>),
}

impl View for ToolOutput {
    type V = ToolOutputView;

    open spec fn view(&self) -> ToolOutputView {
        match self {
            ToolOutput::Text(s) => ToolOutputView::Text(s@),
            ToolOutput::Parts(p) => ToolOutputView::Parts(parts_view(p@)),
        }
    }
}

/// One item of the `input` list of a Responses request.
pub enum InputItem {
    /// `{"role": role, "content": content}` (system or developer prompt).
    Instruction { role: String, content: String },
    /// `{"role": "user", "content": [...]}`.
    UserInput { content: Vec<InputContent> },
    /// A replayed reasoning item, as JSON text.
    Reasoning { item: String },
    /// `{"type": "message", "role": "assistant", ...}` with one output text.
    OutputMessage { id: String, text: String, phase: Option<String> },
    /// `{"type": "function_call", ...}`; `arguments` is JSON text.
    FunctionCall { call_id: String, name: String, arguments: String, id: Option<String> },
    /// `{"type": "function_call_output", ...}`.
    FunctionCallOutput { call_id: String, output: ToolOutput },
}

pub enum InputItemView {
    Instruction { role: Seq<char>, content: Seq<char> },
    UserInput { content: Seq<InputContentView> },
    Reasoning { item: Seq<char> },
    OutputMessage { id: Seq<char>, text: Seq<char>, phase: Option<Seq<char>> },
    FunctionCall { call_id: Seq<char>, name: Seq<char>, arguments: Seq<char>, id: Option<Seq<char>> },
    FunctionCallOutput { call_id: Seq<char>, output: ToolOutputView },
}

impl View for InputItem {
    type V = InputItemView;

    open spec fn view(&self) -> InputItemView {
        match self {
            InputItem::Instruction { role, content } => InputItemView::Instruction { role: role@, content: content@ },
            InputItem::UserInput { content } => InputItemView::UserInput { content: parts_view(content@) },
            InputItem::Reasoning { item } => InputItemView::Reasoning { item: item@ },
            InputItem::OutputMessage { id, text, phase } => InputItemView::OutputMessage {
                id: id@,
                text: text@,
                phase: opt_str(*phase),
            },
            InputItem::FunctionCall { call_id, name, arguments, id } => InputItemView::FunctionCall {
                call_id: call_id@,
                name: name@,
                arguments: arguments@,
                id: opt_str(*id),
            },
            InputItem::FunctionCallOutput { call_id, output } => InputItemView::FunctionCallOutput {
                call_id: call_id@,
                output: output@,
            },
        }
    }
}

pub open spec fn items_view(v: Seq<InputItem>) -> Seq<InputItemView> {
    v.map_values(|c: InputItem| c@)
}

/// `data:<mime>;base64,<data>`.
pub open spec fn data_url(i: ImageContentView) -> Seq<char> {
    seq!['d', 'a', 't', 'a', ':'] + i.mime_type + seq![';', 'b', 'a', 's', 'e', '6', '4', ','] + i.data
}

fn data_url_of(i: &ImageContent) -> (r: String)
    ensures
        r@ == data_url(i@),
{
    let mut s = String::new();
    push_str(&mut s, "data:");
    push_str(&mut s, i.mime_type.as_str());
    push_str(&mut s, ";base64,");
    push_str(&mut s, i.data.as_str());
    proof {
        reveal_strlit("data:");
        reveal_strlit(";base64,");
    }
    assert(s@ =~= data_url(i@));
    s
}

/// Whether the model accepts image input.
pub open spec fn accepts_images(model: ModelView) -> bool {
    model.input.contains(seq!['i', 'm', 'a', 'g', 'e'])
}

fn accepts_images_exec(model: &Model) -> (r: bool)
    ensures
        r == accepts_images(model@),
{
    let image = "image".to_string();
    proof {
        reveal_strlit("image");
    }
    let ghost inp = model@.input;
    let mut k: usize = 0;
    while k < model.input.len()
        invariant
            k <= model.input.len(),
            inp == model@.input,
            image@ == seq!['i', 'm', 'a', 'g', 'e'],
            forall|j: int| 0 <= j < k ==> inp[j] != image@,
        decreases model.input.len() - k,
    {
        if model.input[k] == image {
            assert(inp[k as int] == image@);
            return true;
        }
        k += 1;
    }
    proof {
        if inp.contains(image@) {
            let j = choose|j: int| 0 <= j < inp.len() && inp[j] == image@;
            assert(inp[j] != image@);
        }
    }
    false
}

/// The images of user content, as image parts, in order.
pub open spec fn image_parts(content: Seq<UserContentView>) -> Seq<InputContentView>
    decreases content.len(),
{
    if content.len() == 0 {
        Seq::empty()
    } else {
        let rest = image_parts(content.drop_last());
        match content.last() {
            UserContentView::Image(i) => rest.push(InputContentView::InputImage { image_url: data_url(i) }),
            _ => rest,
        }
    }
}

/// "(no tool output)".
pub open spec fn no_tool_output() -> Seq<char> {
    seq!['(', 'n', 'o', ' ', 't', 'o', 'o', 'l', ' ', 'o', 'u', 't', 'p', 'u', 't', ')']
}

/// Tool output: plain text when there is no image or the model takes
/// none (a placeholder when the text is empty), else the text (if any)
/// followed by the images.
pub open spec fn spec_tool_output(model: ModelView, content: Seq<UserContentView>) -> ToolOutputView {
    let text = spec_join_newline(user_block_texts(content));
    let has_text = text.len() > 0;
    if !has_image(content) || !accepts_images(model) {
        ToolOutputView::Text(
            if has_text {
                text
            } else if has_image(content) {
                see_attached_image()
            } else {
                no_tool_output()
            },
        )
    } else {
        ToolOutputView::Parts(
            (if has_text {
                seq![InputContentView::InputText { text }]
            } else {
                Seq::empty()
            }) + image_parts(content),
        )
    }
}

proof fn lemma_image_parts_empty(content: Seq<UserContentView>)
    requires
        !has_image(content),
    ensures
        image_parts(content).len() == 0,
    decreases content.len(),
{
    if content.len() > 0 {
        assert(!has_image(content.drop_last())) by {
            if has_image(content.drop_last()) {
                let k = choose|k: int| 0 <= k < content.drop_last().len() && #[trigger] content.drop_last()[k] is Image;
                assert(content[k] is Image);
            }
        }
        assert(!(content[content.len() - 1] is Image));
        lemma_image_parts_empty(content.drop_last());
    }
}

/// Converts the content of a tool result into Responses tool output.
pub fn convert_tool_result_output(model: &Model, content: &Vec<UserContent>) -> (r: ToolOutput)
    ensures
        r@ == spec_tool_output(model@, user_contents_view(content@)),
{
    let ghost cv = user_contents_view(content@);
    let text_result = user_blocks_text(content);
    let mut images: Vec<InputContent> = Vec::new();
    let mut i: usize = 0;
    while i < content.len()
        invariant
            i <= content.len(),
            cv == user_contents_view(content@),
            parts_view(images@) == image_parts(cv.take(i as int)),
        decreases content.len() - i,
    {
        assert(cv.take(i + 1).drop_last() == cv.take(i as int));
        assert(cv.take(i + 1).last() == content@[i as int]@);
        let ghost before = images@;
        match &content[i] {
            UserContent::Image(img) => {
                images.push(InputContent::InputImage { image_url: data_url_of(img) });
                assert(parts_view(images@) =~= parts_view(before).push(images@.last()@));
            },
            _ => {},
        }
        i += 1;
    }
    assert(cv.take(content.len() as int) == cv);
    let has_text = !text_result.as_str().is_empty();
    proof {
        if images.len() == 0 && has_image(cv) {
            let k = choose|k: int| 0 <= k < cv.len() && #[trigger] cv[k] is Image;
            lemma_image_parts_nonempty(cv, k);
        }
        if !has_image(cv) {
            lemma_image_parts_empty(cv);
        }
    }
    if images.len() == 0 || !accepts_images_exec(model) {
        let text = if has_text {
            text_result
        } else if images.len() > 0 {
            proof {
                reveal_strlit("(see attached image)");
            }
            let t = "(see attached image)".to_string();
            assert(t@ =~= see_attached_image());
            t
        } else {
            proof {
                reveal_strlit("(no tool output)");
            }
            let t = "(no tool output)".to_string();
            assert(t@ =~= no_tool_output());
            t
        };
        return ToolOutput::Text(sanitize_surrogates(text.as_str()));
    }
    let mut output: Vec<InputContent> = Vec::new();
    if has_text {
        output.push(InputContent::InputText { text: sanitize_surrogates(text_result.as_str()) });
    }
    let ghost head = parts_view(output@);
    let mut k: usize = 0;
    while k < images.len()
        invariant
            k <= images.len(),
            parts_view(output@) == head + parts_view(images@).take(k as int),
        decreases images.len() - k,
    {
        let ghost before = output@;
        let part = match &images[k] {
            InputContent::InputText { text } => InputContent::InputText { text: text.clone() },
            InputContent::InputImage { image_url } => InputContent::InputImage { image_url: image_url.clone() },
        };
        output.push(part);
        assert(parts_view(output@) =~= parts_view(before).push(part@));
        assert(parts_view(images@).take(k + 1) =~= parts_view(images@).take(k as int).push(images@[k as int]@));
        k += 1;
    }
    assert(parts_view(images@).take(images.len() as int) =~= parts_view(images@));
    assert(has_image(cv));
    assert(accepts_images(model@));
    assert(parts_view(output@) =~= (if has_text {
        seq![InputContentView::InputText { text: text_result@ }]
    } else {
        Seq::empty()
    }) + image_parts(cv));
    ToolOutput::Parts(output)
}

proof fn lemma_image_parts_nonempty(content: Seq<UserContentView>, k: int)
    requires
        0 <= k < content.len(),
        content[k] is Image,
    ensures
        image_parts(content).len() > 0,
    decreases content.len(),
{
    if k < content.len() - 1 {
        lemma_image_parts_nonempty(content.drop_last(), k);
    }
}

pub open spec fn key_v() -> Seq<char> {
    seq!['v']
}

pub open spec fn key_id() -> Seq<char> {
    seq!['i', 'd']
}

pub open spec fn key_phase() -> Seq<char> {
    seq!['p', 'h', 'a', 's', 'e']
}

pub open spec fn commentary() -> Seq<char> {
    seq!['c', 'o', 'm', 'm', 'e', 'n', 't', 'a', 'r', 'y']
}

pub open spec fn final_answer() -> Seq<char> {
    seq!['f', 'i', 'n', 'a', 'l', '_', 'a', 'n', 's', 'w', 'e', 'r']
}

/// The members of a version-1 text signature.
pub open spec fn signature_fields(id: Seq<char>, phase: Option<Seq<char>>) -> Seq<(Seq<char>, JsonScalarView)> {
    let base = seq![(key_v(), JsonScalarView::Int(1)), (key_id(), JsonScalarView::Str(id))];
    match phase {
        Some(p) => base.push((key_phase(), JsonScalarView::Str(p))),
        None => base,
    }
}

/// Encodes a version-1 text signature `{"v":1,"id":..,"phase":..}` as JSON text.
pub fn encode_text_signature_v1(id: &str, phase: Option<&str>) -> (r: String)
    ensures
        r@ == json_object(signature_fields(id@, match phase { Some(p) => Some(p@), None => None })),
        spec_parse_text_signature(Some(r@)) == Some(
            (
                id@,
                known_phase(
                    match phase {
                        Some(p) => Some(JsonScalarView::Str(p@)),
                        None => None,
                    },
                ),
            ),
        ),
        (match phase {
            Some(p) => p@ == commentary() || p@ == final_answer(),
            None => true,
        }) ==> spec_parse_text_signature(Some(r@)) == Some(
            (
                id@,
                match phase {
                    Some(p) => Some(p@),
                    None => None,
                },
            ),
        ),
{
    proof {
        reveal_strlit("v");
        reveal_strlit("id");
        reveal_strlit("phase");
    }
    let kv = "v".to_string();
    let kid = "id".to_string();
    let kph = "phase".to_string();
    assert(kv@ =~= key_v());
    assert(kid@ =~= key_id());
    assert(kph@ =~= key_phase());
    let mut fields: Vec<(String, JsonScalar)> = Vec::new();
    fields.push((kv, JsonScalar::Int(1)));
    fields.push((kid, JsonScalar::Str(id.to_string())));
    match phase {
        Some(p) => fields.push((kph, JsonScalar::Str(p.to_string()))),
        None => {},
    }
    let ghost fv = fields_view(fields@);
    assert(fv =~= signature_fields(id@, match phase { Some(p) => Some(p@), None => None }));
    proof {
        reveal_strlit("v");
        reveal_strlit("id");
        reveal_strlit("phase");
        assert(distinct_keys(fv));
    }
    let r = json_object_of(fields);
    proof {
        assert(fv[0].0 == key_v());
        assert(json_member(r@, fv[0].0) == Some(fv[0].1));
        assert(fv[1].0 == key_id());
        assert(json_member(r@, fv[1].0) == Some(fv[1].1));
        match phase {
            Some(p) => {
                assert(fv[2].0 == key_phase());
                assert(json_member(r@, fv[2].0) == Some(fv[2].1));
            },
            None => {
                assert(!has_key(fv, key_phase()));
                assert(json_member(r@, key_phase()) is None);
            },
        }
    }
    r
}

/// The phase of a signature, when it is one of the two known phases.
pub open spec fn known_phase(m: Option<JsonScalarView>) -> Option<Seq<char>> {
    match m {
        Some(JsonScalarView::Str(p)) => if p == commentary() || p == final_answer() {
            Some(p)
        } else {
            None
        },
        _ => None,
    }
}

/// A text signature read back: a JSON object of version 1 with a string
/// `id` gives that id and its known phase; any other text is itself the id.
pub open spec fn spec_parse_text_signature(sig: Option<Seq<char>>) -> Option<(Seq<char>, Option<Seq<char>>)> {
    match sig {
        None => None,
        Some(s) => {
            if s.len() > 0 && s[0] == '{' && json_member(s, key_v()) == Some(JsonScalarView::Int(1)) {
                match json_member(s, key_id()) {
                    Some(JsonScalarView::Str(id)) => Some((id, known_phase(json_member(s, key_phase())))),
                    _ => Some((s, None)),
                }
            } else {
                Some((s, None))
            }
        },
    }
}

/// A text signature read back: no signature gives nothing, and a text that
/// does not start with '{' is itself the id, with no phase.  (A signature
/// that `encode_text_signature_v1` wrote with a known phase reads back as
/// its id and phase: see its `ensures`.)
pub proof fn lemma_plain_signature(s: Seq<char>)
    ensures
        spec_parse_text_signature(None) is None,
        !(s.len() > 0 && s[0] == '{') ==> spec_parse_text_signature(Some(s)) == Some((s, None::<Seq<char>>)),
{
}

/// Reads a text signature back into its id and phase.
pub fn parse_text_signature(signature: Option<&str>) -> (r: Option<(String, Option<String>)>)
    ensures
        match r {
            None => spec_parse_text_signature(match signature { Some(s) => Some(s@), None => None }) is None,
            Some((id, ph)) => spec_parse_text_signature(match signature { Some(s) => Some(s@), None => None })
                == Some((id@, opt_str(ph))),
        },
{
    let signature = match signature {
        Some(s) => s,
        None => return None,
    };
    proof {
        reveal_strlit("v");
        reveal_strlit("id");
        reveal_strlit("phase");
        reveal_strlit("commentary");
        reveal_strlit("final_answer");
    }
    let cs = chars_of(signature);
    if cs.len() > 0 && cs[0] == '{' {
        let v = json_member_of(signature, "v");
        assert("v"@ =~= key_v());
        let is_v1 = match &v {
            Some(JsonScalar::Int(n)) => *n == 1,
            _ => false,
        };
        if is_v1 {
            let id = json_member_of(signature, "id");
            assert("id"@ =~= key_id());
            match id {
                Some(JsonScalar::Str(id)) => {
                    let phase = json_member_of(signature, "phase");
                    assert("phase"@ =~= key_phase());
                    let commentary_s = "commentary".to_string();
                    let final_s = "final_answer".to_string();
                    assert(commentary_s@ =~= commentary());
                    assert(final_s@ =~= final_answer());
                    let ph = match phase {
                        Some(JsonScalar::Str(p)) => if p == commentary_s || p == final_s {
                            Some(p)
                        } else {
                            None
                        },
                        _ => None,
                    };
                    return Some((id, ph));
                },
                _ => {},
            }
        }
    }
    Some((signature.to_string(), None))
}

/// Length in bytes of the UTF-8 encoding of `s` (what `str::len` gives).
pub open spec fn utf8_len(s: Seq<char>) -> usize {
    vstd::utf8::encode_utf8(s).len() as usize
}

/// "msg_pi_<i>" for the first text block of message `i`, "msg_pi_<i>_<k>" for the k-th.
pub open spec fn fallback_message_id(i: nat, k: nat) -> Seq<char> {
    if k == 0 {
        seq!['m', 's', 'g', '_', 'p', 'i', '_'] + decimal(i)
    } else {
        seq!['m', 's', 'g', '_', 'p', 'i', '_'] + decimal(i) + seq!['_'] + decimal(k)
    }
}

/// The replayed form of the k-th text block of message `i`: its id and
/// phase come from its signature (a hash when the id is over 64 bytes),
/// else from the fallback id.
pub open spec fn text_item(text: Seq<char>, signature: Option<Seq<char>>, i: nat, k: nat) -> InputItemView {
    match spec_parse_text_signature(signature) {
        None => InputItemView::OutputMessage { id: fallback_message_id(i, k), text, phase: None },
        Some((id, ph)) => if utf8_len(id) > 64 {
            InputItemView::OutputMessage { id: seq!['m', 's', 'g', '_'] + spec_short_hash(id), text, phase: ph }
        } else {
            InputItemView::OutputMessage { id, text, phase: ph }
        },
    }
}

/// The part of a tool-call id before the first '|' (all of it when there is none).
pub open spec fn call_part(id: Seq<char>) -> Seq<char> {
    match first_bar(id) {
        None => id,
        Some(b) => id.take(b),
    }
}

/// The part of a tool-call id after the first '|', if there is one.
pub open spec fn item_part(id: Seq<char>) -> Option<Seq<char>> {
    match first_bar(id) {
        None => None,
        Some(b) => Some(id.skip(b + 1)),
    }
}

/// A replayed tool call; its item id is kept only when it starts with
/// `fc_` and the call was made by the same provider and API with the same model.
pub open spec fn function_call_item(tc: ToolCallView, different_model: bool) -> InputItemView {
    InputItemView::FunctionCall {
        call_id: call_part(tc.id),
        name: tc.name,
        arguments: tc.arguments,
        id: match item_part(tc.id) {
            Some(p) => if starts_fc(p) && !different_model {
                Some(p)
            } else {
                None
            },
            None => None,
        },
    }
}

/// Number of text blocks.
pub open spec fn text_count(bs: Seq<AssistantContentView>) -> nat
    decreases bs.len(),
{
    if bs.len() == 0 {
        0
    } else {
        text_count(bs.drop_last()) + if bs.last() is Text {
            1nat
        } else {
            0nat
        }
    }
}

/// The item of one reply block (`k`: how many text blocks came before it).
pub open spec fn block_item(b: AssistantContentView, i: nat, k: nat, different_model: bool) -> Option<InputItemView> {
    match b {
        AssistantContentView::Thinking(t) => match t.thinking_signature {
            Some(sig) => match json_canonical(sig) {
                Some(item) => Some(InputItemView::Reasoning { item }),
                None => None,
            },
            None => None,
        },
        AssistantContentView::Text(t) => Some(text_item(t.text, t.text_signature, i, k)),
        AssistantContentView::ToolCall(tc) => Some(function_call_item(tc, different_model)),
    }
}

/// Items of the blocks of reply `i`.
pub open spec fn assistant_items(bs: Seq<AssistantContentView>, i: nat, different_model: bool) -> Seq<InputItemView>
    decreases bs.len(),
{
    if bs.len() == 0 {
        Seq::empty()
    } else {
        let rest = assistant_items(bs.drop_last(), i, different_model);
        match block_item(bs.last(), i, text_count(bs.drop_last()), different_model) {
            Some(x) => rest.push(x),
            None => rest,
        }
    }
}

proof fn lemma_assistant_items_prefix(bs: Seq<AssistantContentView>, n: int, i: nat, dm: bool)
    requires
        0 <= n <= bs.len(),
    ensures
        assistant_items(bs.take(n), i, dm).len() <= assistant_items(bs, i, dm).len(),
        assistant_items(bs, i, dm).take(assistant_items(bs.take(n), i, dm).len() as int) == assistant_items(
            bs.take(n),
            i,
            dm,
        ),
    decreases bs.len(),
{
    let small = assistant_items(bs.take(n), i, dm);
    if n == bs.len() {
        assert(bs.take(n) =~= bs);
        assert(assistant_items(bs, i, dm).take(small.len() as int) =~= small);
    } else {
        lemma_assistant_items_prefix(bs.drop_last(), n, i, dm);
        assert(bs.drop_last().take(n) =~= bs.take(n));
        let rest = assistant_items(bs.drop_last(), i, dm);
        match block_item(bs.last(), i, text_count(bs.drop_last()), dm) {
            Some(x) => {
                assert(rest.push(x).take(small.len() as int) =~= rest.take(small.len() as int));
            },
            None => {},
        }
    }
}

/// A thinking block whose signature is JSON is replayed as a reasoning
/// item holding that JSON (as `serde_json` writes it back): it comes right
/// after the items of the blocks before it, so before those of the blocks
/// that follow it.
pub proof fn lemma_reasoning_replayed(bs: Seq<AssistantContentView>, p: int, i: nat, dm: bool)
    requires
        0 <= p < bs.len(),
        bs[p] is Thinking,
        bs[p]->Thinking_0.thinking_signature is Some,
        json_canonical(bs[p]->Thinking_0.thinking_signature->Some_0) is Some,
    ensures
        ({
            let out = assistant_items(bs, i, dm);
            let before = assistant_items(bs.take(p), i, dm);
            &&& before.len() < out.len()
            &&& out.take(before.len() as int) == before
            &&& out[before.len() as int] == InputItemView::Reasoning {
                item: json_canonical(bs[p]->Thinking_0.thinking_signature->Some_0)->Some_0,
            }
        }),
{
    lemma_assistant_items_prefix(bs, p + 1, i, dm);
    lemma_assistant_items_prefix(bs, p, i, dm);
    assert(bs.take(p + 1).drop_last() =~= bs.take(p));
    assert(bs.take(p + 1).last() == bs[p]);
    let out = assistant_items(bs, i, dm);
    let upto = assistant_items(bs.take(p + 1), i, dm);
    let before = assistant_items(bs.take(p), i, dm);
    assert(upto == before.push(InputItemView::Reasoning {
        item: json_canonical(bs[p]->Thinking_0.thinking_signature->Some_0)->Some_0,
    }));
    assert(out[before.len() as int] == out.take(upto.len() as int)[before.len() as int]);
    assert(out.take(before.len() as int) =~= out.take(upto.len() as int).take(before.len() as int));
}

/// Same provider and API as the target but another model.
pub open spec fn different_model(a: AssistantMessageView, model: ModelView) -> bool {
    a.provider == model.provider && a.api == model.api && a.model != model.id
}

/// User blocks as input parts.
pub open spec fn user_parts(bs: Seq<UserContentView>) -> Seq<InputContentView> {
    bs.map_values(
        |c: UserContentView| match c {
            UserContentView::Text(t) => InputContentView::InputText { text: t.text },
            UserContentView::Image(img) => InputContentView::InputImage { image_url: data_url(img) },
        },
    )
}

/// Items of message `i`.
pub open spec fn message_items(m: MessageView, model: ModelView, i: nat) -> Seq<InputItemView> {
    match m {
        MessageView::User(u) => match u.content {
            UserMessageContentView::Text(t) => seq![
                InputItemView::UserInput { content: seq![InputContentView::InputText { text: t }] },
            ],
            UserMessageContentView::Blocks(bs) => if bs.len() == 0 {
                Seq::empty()
            } else {
                seq![InputItemView::UserInput { content: user_parts(bs) }]
            },
        },
        MessageView::Assistant(a) => assistant_items(a.content, i, different_model(a, model)),
        MessageView::ToolResult(tr) => seq![
            InputItemView::FunctionCallOutput {
                call_id: call_part(tr.tool_call_id),
                output: spec_tool_output(model, tr.content),
            },
        ],
    }
}

/// Items of the first `n` messages.
pub open spec fn input_items(msgs: Seq<MessageView>, model: ModelView, n: nat) -> Seq<InputItemView>
    decreases n,
{
    if n == 0 || n > msgs.len() {
        Seq::empty()
    } else {
        input_items(msgs, model, (n - 1) as nat) + message_items(msgs[n - 1], model, (n - 1) as nat)
    }
}

/// The system prompt item: a non-blank prompt, with role "developer" for
/// reasoning models and "system" otherwise.
pub open spec fn instruction_items(model: ModelView, system_prompt: Option<Seq<char>>, with_prompt: bool) -> Seq<InputItemView> {
    match system_prompt {
        Some(sp) => if with_prompt && trim(sp).len() > 0 {
            seq![
                InputItemView::Instruction {
                    role: if model.reasoning {
                        seq!['d', 'e', 'v', 'e', 'l', 'o', 'p', 'e', 'r']
                    } else {
                        seq!['s', 'y', 's', 't', 'e', 'm']
                    },
                    content: sp,
                },
            ]
        } else {
            Seq::empty()
        },
        None => Seq::empty(),
    }
}

/// Input of a request built from already replayed messages.
pub open spec fn spec_responses_input(
    model: ModelView,
    system_prompt: Option<Seq<char>>,
    msgs: Seq<MessageView>,
    with_prompt: bool,
) -> Seq<InputItemView> {
    instruction_items(model, system_prompt, with_prompt) + input_items(msgs, model, msgs.len())
}

proof fn lemma_input_items_prefix(msgs: Seq<MessageView>, model: ModelView, n: nat, m: nat)
    requires
        n <= m <= msgs.len(),
    ensures
        input_items(msgs, model, n).len() <= input_items(msgs, model, m).len(),
        input_items(msgs, model, m).take(input_items(msgs, model, n).len() as int) == input_items(msgs, model, n),
    decreases m,
{
    let small = input_items(msgs, model, n);
    if n == m {
        assert(input_items(msgs, model, m).take(small.len() as int) =~= small);
    } else {
        lemma_input_items_prefix(msgs, model, n, (m - 1) as nat);
        let prev = input_items(msgs, model, (m - 1) as nat);
        let more = message_items(msgs[m - 1], model, (m - 1) as nat);
        assert((prev + more).take(small.len() as int) =~= prev.take(small.len() as int));
    }
}

/// In the request built from a conversation, every thinking block of a
/// reply whose signature is JSON is replayed as a reasoning item holding
/// that JSON.
pub proof fn lemma_reasoning_in_request(
    model: ModelView,
    system_prompt: Option<Seq<char>>,
    msgs: Seq<MessageView>,
    with_prompt: bool,
    n: int,
    p: int,
)
    requires
        0 <= n < msgs.len(),
        msgs[n] is Assistant,
        0 <= p < msgs[n]->Assistant_0.content.len(),
        msgs[n]->Assistant_0.content[p] is Thinking,
        msgs[n]->Assistant_0.content[p]->Thinking_0.thinking_signature is Some,
        json_canonical(msgs[n]->Assistant_0.content[p]->Thinking_0.thinking_signature->Some_0) is Some,
    ensures
        spec_responses_input(model, system_prompt, msgs, with_prompt).contains(
            InputItemView::Reasoning {
                item: json_canonical(msgs[n]->Assistant_0.content[p]->Thinking_0.thinking_signature->Some_0)->Some_0,
            },
        ),
{
    let a = msgs[n]->Assistant_0;
    let dm = different_model(a, model);
    let item = InputItemView::Reasoning {
        item: json_canonical(a.content[p]->Thinking_0.thinking_signature->Some_0)->Some_0,
    };
    lemma_reasoning_replayed(a.content, p, n as nat, dm);
    let ai = assistant_items(a.content, n as nat, dm);
    let r = assistant_items(a.content.take(p), n as nat, dm).len() as int;
    assert(ai[r] == item);
    let head = input_items(msgs, model, n as nat);
    let upto = input_items(msgs, model, (n + 1) as nat);
    assert(upto == head + ai);
    assert(upto[head.len() + r] == item);
    lemma_input_items_prefix(msgs, model, (n + 1) as nat, msgs.len());
    let all = input_items(msgs, model, msgs.len());
    assert(all[head.len() + r] == all.take(upto.len() as int)[head.len() + r]);
    let ins = instruction_items(model, system_prompt, with_prompt);
    let req = spec_responses_input(model, system_prompt, msgs, with_prompt);
    assert(req[ins.len() + head.len() + r] == item);
}

/// Options of the conversion.
pub struct ConvertResponsesMessagesOptions {
    /// Whether the system prompt is sent (default: yes).
    pub include_system_prompt: Option<bool>,
}

fn split_first_bar(id: &str) -> (r: (String, Option<String>))
    ensures
        r.0@ == call_part(id@),
        opt_str(r.1) == item_part(id@),
{
    let cs = chars_of(id);
    let mut b: usize = 0;
    while b < cs.len() && cs[b] != '|'
        invariant
            b <= cs.len(),
            forall|k: int| 0 <= k < b ==> cs@[k] != '|',
        decreases cs.len() - b,
    {
        b += 1;
    }
    proof {
        crate::tool_ids::lemma_first_bar(cs@, b as int);
    }
    if b == cs.len() {
        return (id.to_string(), None);
    }
    let call = string_from_range(&cs, 0, b);
    let item = string_from_range(&cs, b + 1, cs.len());
    assert(cs@.subrange(0, b as int) =~= cs@.take(b as int));
    assert(cs@.subrange(b + 1, cs@.len() as int) =~= cs@.skip(b + 1));
    (call, Some(item))
}

fn starts_fc_exec(s: &str) -> (r: bool)
    ensures
        r == starts_fc(s@),
{
    let cs = chars_of(s);
    cs.len() >= 3 && cs[0] == 'f' && cs[1] == 'c' && cs[2] == '_'
}

fn fallback_message_id_exec(i: usize, k: usize) -> (r: String)
    ensures
        r@ == fallback_message_id(i as nat, k as nat),
{
    let mut s = String::new();
    push_str(&mut s, "msg_pi_");
    proof {
        reveal_strlit("msg_pi_");
    }
    let d = decimal_string(i);
    push_str(&mut s, d.as_str());
    if k > 0 {
        push_char(&mut s, '_');
        let e = decimal_string(k);
        push_str(&mut s, e.as_str());
    }
    assert(s@ =~= fallback_message_id(i as nat, k as nat));
    s
}

fn text_item_exec(text: &String, signature: &Option<String>, i: usize, k: usize) -> (r: InputItem)
    ensures
        r@ == text_item(text@, opt_str(*signature), i as nat, k as nat),
{
    let sig: Option<&str> = match signature {
        Some(s) => Some(s.as_str()),
        None => None,
    };
    assert(opt_str(*signature) == match sig { Some(s) => Some(s@), None => None });
    let text2 = sanitize_surrogates(text.as_str());
    match parse_text_signature(sig) {
        None => InputItem::OutputMessage { id: fallback_message_id_exec(i, k), text: text2, phase: None },
        Some((id, ph)) => {
            if id.as_str().len() > 64 {
                let mut h = String::new();
                push_str(&mut h, "msg_");
                proof {
                    reveal_strlit("msg_");
                }
                let sh = short_hash(id.as_str());
                push_str(&mut h, sh.as_str());
                assert(h@ =~= seq!['m', 's', 'g', '_'] + spec_short_hash(id@));
                InputItem::OutputMessage { id: h, text: text2, phase: ph }
            } else {
                InputItem::OutputMessage { id, text: text2, phase: ph }
            }
        },
    }
}

fn function_call_item_exec(tc: &ToolCall, different_model: bool) -> (r: InputItem)
    ensures
        r@ == function_call_item(tc@, different_model),
{
    let (call_id, item_raw) = split_first_bar(tc.id.as_str());
    let id = match item_raw {
        Some(p) => if starts_fc_exec(p.as_str()) && !different_model {
            Some(p)
        } else {
            None
        },
        None => None,
    };
    InputItem::FunctionCall { call_id, name: tc.name.clone(), arguments: tc.arguments.clone(), id }
}

fn assistant_items_exec(a: &AssistantMessage, i: usize, different_model: bool, out: &mut Vec<InputItem>)
    ensures
        items_view(final(out)@) == items_view(old(out)@) + assistant_items(a@.content, i as nat, different_model),
{
    let ghost cv = a@.content;
    let ghost start = items_view(out@);
    let mut k: usize = 0;
    let mut j: usize = 0;
    while j < a.content.len()
        invariant
            j <= a.content.len(),
            cv == a@.content,
            cv == assistant_contents_view(a.content@),
            k as nat == text_count(cv.take(j as int)),
            k <= j,
            items_view(out@) == start + assistant_items(cv.take(j as int), i as nat, different_model),
        decreases a.content.len() - j,
    {
        assert(cv.take(j + 1).drop_last() == cv.take(j as int));
        assert(cv.take(j + 1).last() == a.content@[j as int]@);
        let ghost before = out@;
        match &a.content[j] {
            AssistantContent::Thinking(t) => {
                match &t.thinking_signature {
                    Some(sig) => {
                        match json_from_str(sig.as_str()) {
                            Ok(item) => {
                                out.push(InputItem::Reasoning { item });
                                assert(items_view(out@) =~= items_view(before).push(out@.last()@));
                            },
                            Err(_) => {},
                        }
                    },
                    None => {},
                }
            },
            AssistantContent::Text(t) => {
                let item = text_item_exec(&t.text, &t.text_signature, i, k);
                out.push(item);
                assert(items_view(out@) =~= items_view(before).push(out@.last()@));
                k += 1;
            },
            AssistantContent::ToolCall(tc) => {
                let item = function_call_item_exec(tc, different_model);
                out.push(item);
                assert(items_view(out@) =~= items_view(before).push(out@.last()@));
            },
        }
        j += 1;
    }
    assert(cv.take(a.content.len() as int) == cv);
}

fn user_parts_exec(bs: &Vec<UserContent>) -> (r: Vec<InputContent>)
    ensures
        parts_view(r@) == user_parts(user_contents_view(bs@)),
{
    let ghost cv = user_contents_view(bs@);
    let mut out: Vec<InputContent> = Vec::new();
    let mut j: usize = 0;
    while j < bs.len()
        invariant
            j <= bs.len(),
            cv == user_contents_view(bs@),
            parts_view(out@) == user_parts(cv.take(j as int)),
        decreases bs.len() - j,
    {
        let ghost before = out@;
        let part = match &bs[j] {
            UserContent::Text(t) => InputContent::InputText { text: sanitize_surrogates(t.text.as_str()) },
            UserContent::Image(img) => InputContent::InputImage { image_url: data_url_of(img) },
        };
        out.push(part);
        assert(cv[j as int] == bs@[j as int]@);
        assert(cv.take(j + 1) =~= cv.take(j as int).push(cv[j as int]));
        assert(user_parts(cv.take(j + 1)) =~= user_parts(cv.take(j as int)).push(part@));
        assert(parts_view(out@) =~= parts_view(before).push(part@));
        j += 1;
    }
    assert(cv.take(bs.len() as int) == cv);
    out
}

fn model_of(a: &AssistantMessage, model: &Model) -> (r: bool)
    ensures
        r == different_model(a@, model@),
{
    a.provider == model.provider && a.api == model.api && a.model != model.id
}

/// Builds the input items of a request from replayed messages.
pub fn convert_transformed_messages(
    model: &Model,
    system_prompt: &Option<String>,
    msgs: &Vec<Message>,
    include_system_prompt: bool,
) -> (r: Vec<InputItem>)
    ensures
        items_view(r@) == spec_responses_input(model@, opt_str(*system_prompt), messages_view(msgs@), include_system_prompt),
{
    let ghost mv = messages_view(msgs@);
    let mut items: Vec<InputItem> = Vec::new();
    if include_system_prompt {
        match system_prompt {
            Some(sp) => {
                if !is_blank(sp.as_str()) {
                    proof {
                        reveal_strlit("developer");
                        reveal_strlit("system");
                    }
                    let role = if model.reasoning {
                        "developer".to_string()
                    } else {
                        "system".to_string()
                    };
                    assert(role@ =~= if model.reasoning {
                        seq!['d', 'e', 'v', 'e', 'l', 'o', 'p', 'e', 'r']
                    } else {
                        seq!['s', 'y', 's', 't', 'e', 'm']
                    });
                    items.push(InputItem::Instruction { role, content: sanitize_surrogates(sp.as_str()) });
                }
            },
            None => {},
        }
    }
    assert(items_view(items@) =~= instruction_items(model@, opt_str(*system_prompt), include_system_prompt));
    let ghost head = items_view(items@);
    let mut i: usize = 0;
    while i < msgs.len()
        invariant
            i <= msgs.len(),
            mv == messages_view(msgs@),
            items_view(items@) == head + input_items(mv, model@, i as nat),
        decreases msgs.len() - i,
    {
        assert(mv[i as int] == msgs@[i as int]@);
        let ghost before = items@;
        match &msgs[i] {
            Message::User(u) => match &u.content {
                UserMessageContent::Text(t) => {
                    let mut content: Vec<InputContent> = Vec::new();
                    content.push(InputContent::InputText { text: sanitize_surrogates(t.as_str()) });
                    items.push(InputItem::UserInput { content });
                    assert(items_view(items@) =~= items_view(before).push(items@.last()@));
                    assert(parts_view(content@) =~= seq![InputContentView::InputText { text: t@ }]);
                },
                UserMessageContent::Blocks(bs) => {
                    if bs.len() > 0 {
                        let content = user_parts_exec(bs);
                        items.push(InputItem::UserInput { content });
                        assert(items_view(items@) =~= items_view(before).push(items@.last()@));
                    }
                },
            },
            Message::Assistant(a) => {
                let diff = model_of(a, model);
                assistant_items_exec(a, i, diff, &mut items);
            },
            Message::ToolResult(tr) => {
                let (call_id, _) = split_first_bar(tr.tool_call_id.as_str());
                let output = convert_tool_result_output(model, &tr.content);
                items.push(InputItem::FunctionCallOutput { call_id, output });
                assert(items_view(items@) =~= items_view(before).push(items@.last()@));
            },
        }
        assert(items_view(items@) =~= head + input_items(mv, model@, (i + 1) as nat));
        i += 1;
    }
    items
}

/// Replays a conversation for OpenAI Responses (ids normalised by the
/// Responses rules) and builds the request input.
pub fn convert_responses_messages(
    model: &Model,
    context: &Context,
    options: &ConvertResponsesMessagesOptions,
) -> (r: Vec<InputItem>)
    ensures
        exists|now: u64|
            items_view(r@) == spec_responses_input(
                model@,
                opt_str(context.system_prompt),
                spec_transform(messages_view(context.messages@), model@, ToolCallIdNormalizer::OpenAIResponses, now),
                match options.include_system_prompt {
                    Some(b) => b,
                    None => true,
                },
            ),
{
    let transformed = transform_messages(&context.messages, model, ToolCallIdNormalizer::OpenAIResponses);
    let with_prompt = match options.include_system_prompt {
        Some(b) => b,
        None => true,
    };
    convert_transformed_messages(model, &context.system_prompt, &transformed, with_prompt)
}

/// A function tool of a Responses request (`"type": "function"`);
/// `parameters` is a JSON schema as text.
pub struct FunctionTool {
    pub name: String,
    pub description: String,
    pub parameters: String,
}

/// Converts tool definitions, one function tool each, in order.
pub fn convert_responses_tools(tools: &Vec<Tool>) -> (r: Vec<FunctionTool>)
    ensures
        r.len() == tools.len(),
        forall|k: int|
            0 <= k < tools.len() ==> {
                &&& (#[trigger] r@[k]).name@ == tools@[k].name@
                &&& r@[k].description@ == tools@[k].description@
                &&& r@[k].parameters@ == tools@[k].parameters@
            },
{
    let mut out: Vec<FunctionTool> = Vec::new();
    let mut i: usize = 0;
    while i < tools.len()
        invariant
            i <= tools.len(),
            out.len() == i,
            forall|k: int|
                0 <= k < i ==> {
                    &&& (#[trigger] out@[k]).name@ == tools@[k].name@
                    &&& out@[k].description@ == tools@[k].description@
                    &&& out@[k].parameters@ == tools@[k].parameters@
                },
        decreases tools.len() - i,
    {
        out.push(
            FunctionTool {
                name: tools[i].name.clone(),
                description: tools[i].description.clone(),
                parameters: tools[i].parameters.clone(),
            },
        );
        i += 1;
    }
    out
}

/// Reasoning settings of a request.
pub struct ReasoningConfig {
    pub effort: String,
    pub summary: Option<String>,
}

/// A Responses request (always streamed and stateless).
pub struct CreateResponseRequest {
    pub model: String,
    pub input: Vec<InputItem>,
    pub tools: Option<Vec<FunctionTool>>,
    pub reasoning: Option<ReasoningConfig>,
    pub max_output_tokens: Option<u32>,
    pub stream: bool,
    pub store: bool,
    /// Extra response fields asked for (the request's `include` list).
    pub response_includes: Vec<String>,
}

/// Options of a Responses call.
pub struct OpenAIResponsesOptions {
    pub api_key: Option<String>,
    pub max_tokens: Option<u32>,
    pub reasoning_effort: Option<String>,
    pub reasoning_summary: Option<String>,
}

/// The smallest `max_output_tokens` the API accepts.
pub const MIN_OUTPUT_TOKENS: u32 = 16;

/// "reasoning.encrypted_content".
pub open spec fn encrypted_content_field() -> Seq<char> {
    seq!['r', 'e', 'a', 's', 'o', 'n', 'i', 'n', 'g', '.', 'e', 'n', 'c', 'r', 'y', 'p', 't', 'e', 'd', '_', 'c', 'o', 'n', 't', 'e', 'n', 't']
}

/// Builds the request for a model call: replayed input, tools when there
/// are any, reasoning settings for reasoning models (effort "none" unless
/// an effort or summary is asked for, then the effort or "medium", the
/// summary or "auto", and the encrypted reasoning content), and the token
/// limit raised to at least `MIN_OUTPUT_TOKENS`.
pub fn build_params(model: &Model, context: &Context, options: &OpenAIResponsesOptions) -> (r: CreateResponseRequest)
    ensures
        r.model@ == model.id@,
        exists|now: u64|
            items_view(r.input@) == spec_responses_input(
                model@,
                opt_str(context.system_prompt),
                spec_transform(messages_view(context.messages@), model@, ToolCallIdNormalizer::OpenAIResponses, now),
                true,
            ),
        match context.tools {
            Some(t) => if t.len() > 0 {
                r.tools matches Some(rt) && rt.len() == t.len() && forall|k: int|
                    0 <= k < t.len() ==> {
                        &&& (#[trigger] rt@[k]).name@ == t@[k].name@
                        &&& rt@[k].description@ == t@[k].description@
                        &&& rt@[k].parameters@ == t@[k].parameters@
                    }
            } else {
                r.tools is None
            },
            None => r.tools is None,
        },
        !model.reasoning ==> r.reasoning is None && r.response_includes@.len() == 0,
        model.reasoning && options.reasoning_effort is None && options.reasoning_summary is None ==> {
            &&& r.reasoning matches Some(rc) && rc.effort@ == seq!['n', 'o', 'n', 'e'] && rc.summary is None
            &&& r.response_includes@.len() == 0
        },
        model.reasoning && (options.reasoning_effort is Some || options.reasoning_summary is Some) ==> {
            &&& r.reasoning matches Some(rc) && rc.effort@ == (match options.reasoning_effort {
                Some(e) => e@,
                None => seq!['m', 'e', 'd', 'i', 'u', 'm'],
            }) && opt_str(rc.summary) == Some(match options.reasoning_summary {
                Some(x) => x@,
                None => seq!['a', 'u', 't', 'o'],
            })
            &&& r.response_includes@.len() == 1 && r.response_includes@[0]@ == encrypted_content_field()
        },
        r.max_output_tokens == match options.max_tokens {
            Some(t) => Some(if t < MIN_OUTPUT_TOKENS { MIN_OUTPUT_TOKENS } else { t }),
            None => None,
        },
        r.stream,
        !r.store,
{
    let input = convert_responses_messages(model, context, &ConvertResponsesMessagesOptions { include_system_prompt: None });
    let mut includes: Vec<String> = Vec::new();
    proof {
        reveal_strlit("reasoning.encrypted_content");
        reveal_strlit("medium");
        reveal_strlit("auto");
        reveal_strlit("none");
    }
    let reasoning = if model.reasoning {
        if options.reasoning_effort.is_some() || options.reasoning_summary.is_some() {
            let f = "reasoning.encrypted_content".to_string();
            assert(f@ =~= encrypted_content_field());
            includes.push(f);
            let effort = match &options.reasoning_effort {
                Some(e) => e.clone(),
                None => "medium".to_string(),
            };
            let summary = match &options.reasoning_summary {
                Some(x) => x.clone(),
                None => "auto".to_string(),
            };
            assert(summary@ =~= match options.reasoning_summary {
                Some(x) => x@,
                None => seq!['a', 'u', 't', 'o'],
            });
            assert(effort@ =~= match options.reasoning_effort {
                Some(e) => e@,
                None => seq!['m', 'e', 'd', 'i', 'u', 'm'],
            });
            Some(ReasoningConfig { effort, summary: Some(summary) })
        } else {
            let none = "none".to_string();
            assert(none@ =~= seq!['n', 'o', 'n', 'e']);
            Some(ReasoningConfig { effort: none, summary: None })
        }
    } else {
        None
    };
    let tools = match &context.tools {
        Some(t) => if t.len() > 0 {
            Some(convert_responses_tools(t))
        } else {
            None
        },
        None => None,
    };
    let max_output_tokens = match options.max_tokens {
        Some(t) => Some(if t < MIN_OUTPUT_TOKENS { MIN_OUTPUT_TOKENS } else { t }),
        None => None,
    };
    CreateResponseRequest {
        model: model.id.clone(),
        input,
        tools,
        reasoning,
        max_output_tokens,
        stream: true,
        store: false,
        response_includes: includes,
    }
}

/// "Unhandled stop reason: <status>".
pub open spec fn unhandled_status(status: Seq<char>) -> Seq<char> {
    seq!['U', 'n', 'h', 'a', 'n', 'd', 'l', 'e', 'd', ' ', 's', 't', 'o', 'p', ' ', 'r', 'e', 'a', 's', 'o', 'n', ':', ' ']
        + status
}

/// "Response incomplete: <reason>".
pub open spec fn incomplete_with(reason: Seq<char>) -> Seq<char> {
    seq!['R', 'e', 's', 'p', 'o', 'n', 's', 'e', ' ', 'i', 'n', 'c', 'o', 'm', 'p', 'l', 'e', 't', 'e', ':', ' '] + reason
}

/// "Response incomplete without a provider reason".
pub open spec fn incomplete_without_reason() -> Seq<char> {
    seq!['R', 'e', 's', 'p', 'o', 'n', 's', 'e', ' ', 'i', 'n', 'c', 'o', 'm', 'p', 'l', 'e', 't', 'e', ' ', 'w', 'i', 't', 'h', 'o', 'u', 't', ' ', 'a', ' ', 'p', 'r', 'o', 'v', 'i', 'd', 'e', 'r', ' ', 'r', 'e', 'a', 's', 'o', 'n']
}

/// Stop reason (and error message) for a response status.
pub open spec fn spec_status_stop_reason(status: Option<Seq<char>>, incomplete_reason: Option<Seq<char>>) -> Result<
    (StopReason, Option<Seq<char>>),
    Seq<char>,
> {
    match status {
        None => Ok((StopReason::Stop, None)),
        Some(s) => if s == seq!['c', 'o', 'm', 'p', 'l', 'e', 't', 'e', 'd'] {
            Ok((StopReason::Stop, None))
        } else if s == seq!['i', 'n', 'c', 'o', 'm', 'p', 'l', 'e', 't', 'e'] {
            if incomplete_reason == Some(seq!['m', 'a', 'x', '_', 'o', 'u', 't', 'p', 'u', 't', '_', 't', 'o', 'k', 'e', 'n', 's']) {
                Ok((StopReason::Length, None))
            } else {
                Ok((StopReason::Error, Some(match incomplete_reason {
                    Some(r) => incomplete_with(r),
                    None => incomplete_without_reason(),
                })))
            }
        } else if s == seq!['f', 'a', 'i', 'l', 'e', 'd'] || s == seq!['c', 'a', 'n', 'c', 'e', 'l', 'l', 'e', 'd'] {
            Ok((StopReason::Error, None))
        } else if s == seq!['i', 'n', '_', 'p', 'r', 'o', 'g', 'r', 'e', 's', 's'] || s == seq!['q', 'u', 'e', 'u', 'e', 'd'] {
            Ok((StopReason::Stop, None))
        } else {
            Err(unhandled_status(s))
        },
    }
}

/// Maps a response status to a stop reason; an incomplete response keeps
/// the provider's reason in the error message, an unknown status is an error.
pub fn map_stop_reason(status: Option<&str>, incomplete_reason: Option<&str>) -> (r: Result<(StopReason, Option<String>), String>)
    ensures
        match r {
            Ok((sr, msg)) => spec_status_stop_reason(
                match status { Some(s) => Some(s@), None => None },
                match incomplete_reason { Some(s) => Some(s@), None => None },
            ) == Ok::<(StopReason, Option<Seq<char>>), Seq<char>>((sr, opt_str(msg))),
            Err(e) => spec_status_stop_reason(
                match status { Some(s) => Some(s@), None => None },
                match incomplete_reason { Some(s) => Some(s@), None => None },
            ) == Err::<(StopReason, Option<Seq<char>>), Seq<char>>(e@),
        },
{
    let status = match status {
        Some(s) => s,
        None => return Ok((StopReason::Stop, None)),
    };
    proof {
        reveal_strlit("completed");
        reveal_strlit("incomplete");
        reveal_strlit("max_output_tokens");
        reveal_strlit("failed");
        reveal_strlit("cancelled");
        reveal_strlit("in_progress");
        reveal_strlit("queued");
        reveal_strlit("Response incomplete: ");
        reveal_strlit("Response incomplete without a provider reason");
        reveal_strlit("Unhandled stop reason: ");
    }
    assert("completed"@ =~= seq!['c', 'o', 'm', 'p', 'l', 'e', 't', 'e', 'd']);
    assert("incomplete"@ =~= seq!['i', 'n', 'c', 'o', 'm', 'p', 'l', 'e', 't', 'e']);
    assert("max_output_tokens"@ =~= seq!['m', 'a', 'x', '_', 'o', 'u', 't', 'p', 'u', 't', '_', 't', 'o', 'k', 'e', 'n', 's']);
    assert("failed"@ =~= seq!['f', 'a', 'i', 'l', 'e', 'd']);
    assert("cancelled"@ =~= seq!['c', 'a', 'n', 'c', 'e', 'l', 'l', 'e', 'd']);
    assert("in_progress"@ =~= seq!['i', 'n', '_', 'p', 'r', 'o', 'g', 'r', 'e', 's', 's']);
    assert("queued"@ =~= seq!['q', 'u', 'e', 'u', 'e', 'd']);
    let st = status.to_string();
    if st == "completed".to_string() {
        return Ok((StopReason::Stop, None));
    }
    if st == "incomplete".to_string() {
        let is_length = match incomplete_reason {
            Some(r) => r.to_string() == "max_output_tokens".to_string(),
            None => false,
        };
        if is_length {
            return Ok((StopReason::Length, None));
        }
        let msg = match incomplete_reason {
            Some(r) => {
                let mut m = "Response incomplete: ".to_string();
                push_str(&mut m, r);
                assert(m@ =~= incomplete_with(r@));
                m
            },
            None => {
                let m = "Response incomplete without a provider reason".to_string();
                assert(m@ =~= incomplete_without_reason());
                m
            },
        };
        return Ok((StopReason::Error, Some(msg)));
    }
    if st == "failed".to_string() || st == "cancelled".to_string() {
        return Ok((StopReason::Error, None));
    }
    if st == "in_progress".to_string() || st == "queued".to_string() {
        return Ok((StopReason::Stop, None));
    }
    let mut m = "Unhandled stop reason: ".to_string();
    push_str(&mut m, status);
    assert(m@ =~= unhandled_status(status@));
    Err(m)
}

} // verus!
