//! Cross-model replay of a conversation.
//!
//! Before a conversation is sent to a model, its history is adapted:
//! reasoning from another model is turned into text (or dropped),
//! provider-specific signatures are dropped, tool-call ids are normalised
//! for the target provider (and the matching tool results follow), failed
//! or aborted replies are skipped, and every tool call left without a
//! result gets a synthetic error result.
use vstd::prelude::*;
use crate::pi_types::{AssistantContent, AssistantContentView, AssistantMessage, AssistantMessageView, Message, MessageView, Model, ModelView, StopReason, TextContent, TextContentView, ToolCall, ToolCallView, ToolResultMessage, ToolResultMessageView, UserContent, UserContentView, messages_view, assistant_contents_view, user_contents_view, opt_str, clone_opt_str, now_timestamp};
use crate::text::{is_blank, trim};
use crate::tool_ids::{normalize_tool_call_id, responses_tool_call_id, spec_anthropic_tool_call_id,
    spec_responses_tool_call_id};

verus! {

/// How tool-call ids of other models are rewritten for the target.
#[derive(Clone, Copy, PartialEq, Eq, Structural)]
pub enum ToolCallIdNormalizer {
    /// Ids are kept as they are.
    Unchanged,
    /// Anthropic id rules.
    Anthropic,
    /// OpenAI Responses id rules.
    OpenAIResponses,
}

/// The id that `kind` gives a tool call of message `src` for `model`, if it rewrites ids at all.
pub open spec fn spec_normalized_id(
    kind: ToolCallIdNormalizer,
    id: Seq<char>,
    model: ModelView,
    src: AssistantMessageView,
) -> Option<Seq<char>> {
    match kind {
        ToolCallIdNormalizer::Unchanged => None,
        ToolCallIdNormalizer::Anthropic => Some(spec_anthropic_tool_call_id(id)),
        ToolCallIdNormalizer::OpenAIResponses => Some(
            spec_responses_tool_call_id(id, src.provider != model.provider || src.api != model.api),
        ),
    }
}

/// Whether a reply was produced by the target model itself.
pub open spec fn same_model(a: AssistantMessageView, model: ModelView) -> bool {
    a.provider == model.provider && a.api == model.api && a.model == model.id
}

/// What becomes of one block of a reply (`None`: dropped).
pub open spec fn transform_block(
    b: AssistantContentView,
    same: bool,
    kind: ToolCallIdNormalizer,
    model: ModelView,
    src: AssistantMessageView,
) -> Option<AssistantContentView> {
    match b {
        AssistantContentView::Thinking(t) => {
            if t.redacted == Some(true) {
                if same {
                    Some(b)
                } else {
                    None
                }
            } else if same && t.thinking_signature is Some {
                Some(b)
            } else if trim(t.thinking).len() == 0 {
                None
            } else if same {
                Some(b)
            } else {
                Some(AssistantContentView::Text(TextContentView { text: t.thinking, text_signature: None }))
            }
        },
        AssistantContentView::Text(t) => {
            if same {
                Some(b)
            } else {
                Some(AssistantContentView::Text(TextContentView { text: t.text, text_signature: None }))
            }
        },
        AssistantContentView::ToolCall(tc) => {
            let id = if !same && spec_normalized_id(kind, tc.id, model, src) is Some {
                spec_normalized_id(kind, tc.id, model, src).unwrap()
            } else {
                tc.id
            };
            let sig = if same {
                tc.thought_signature
            } else {
                None
            };
            Some(AssistantContentView::ToolCall(ToolCallView { id, thought_signature: sig, ..tc }))
        },
    }
}

/// Id rewrite recorded for one block, if any: `(old, new)`.
pub open spec fn block_id_rewrite(
    b: AssistantContentView,
    same: bool,
    kind: ToolCallIdNormalizer,
    model: ModelView,
    src: AssistantMessageView,
) -> Option<(Seq<char>, Seq<char>)> {
    match b {
        AssistantContentView::ToolCall(tc) => {
            if !same && spec_normalized_id(kind, tc.id, model, src) is Some
                && spec_normalized_id(kind, tc.id, model, src).unwrap() != tc.id {
                Some((tc.id, spec_normalized_id(kind, tc.id, model, src).unwrap()))
            } else {
                None
            }
        },
        _ => None,
    }
}

/// Transformed blocks of a reply and the id rewrites they record, in order.
pub open spec fn transform_content(
    blocks: Seq<AssistantContentView>,
    same: bool,
    kind: ToolCallIdNormalizer,
    model: ModelView,
    src: AssistantMessageView,
) -> (Seq<AssistantContentView>, Seq<(Seq<char>, Seq<char>)>)
    decreases blocks.len(),
{
    if blocks.len() == 0 {
        (Seq::empty(), Seq::empty())
    } else {
        let (out, ids) = transform_content(blocks.drop_last(), same, kind, model, src);
        let b = blocks.last();
        let out2 = match transform_block(b, same, kind, model, src) {
            Some(x) => out.push(x),
            None => out,
        };
        let ids2 = match block_id_rewrite(b, same, kind, model, src) {
            Some(p) => ids.push(p),
            None => ids,
        };
        (out2, ids2)
    }
}

/// The latest rewrite recorded for `key`.
pub open spec fn lookup_rewrite(ids: Seq<(Seq<char>, Seq<char>)>, key: Seq<char>) -> Option<Seq<char>>
    decreases ids.len(),
{
    if ids.len() == 0 {
        None
    } else if ids.last().0 == key {
        Some(ids.last().1)
    } else {
        lookup_rewrite(ids.drop_last(), key)
    }
}

/// First pass on one message.
pub open spec fn pass1_step(
    out: Seq<MessageView>,
    ids: Seq<(Seq<char>, Seq<char>)>,
    m: MessageView,
    model: ModelView,
    kind: ToolCallIdNormalizer,
) -> (Seq<MessageView>, Seq<(Seq<char>, Seq<char>)>) {
    match m {
        MessageView::User(_) => (out.push(m), ids),
        MessageView::ToolResult(tr) => match lookup_rewrite(ids, tr.tool_call_id) {
            Some(n) => if n != tr.tool_call_id {
                (out.push(MessageView::ToolResult(ToolResultMessageView { tool_call_id: n, ..tr })), ids)
            } else {
                (out.push(m), ids)
            },
            None => (out.push(m), ids),
        },
        MessageView::Assistant(a) => {
            let same = same_model(a, model);
            let (content, new_ids) = transform_content(a.content, same, kind, model, a);
            (out.push(MessageView::Assistant(AssistantMessageView { content, ..a })), ids + new_ids)
        },
    }
}

/// First pass (block transformation and id normalisation) over all messages.
pub open spec fn pass1(
    msgs: Seq<MessageView>,
    model: ModelView,
    kind: ToolCallIdNormalizer,
) -> (Seq<MessageView>, Seq<(Seq<char>, Seq<char>)>)
    decreases msgs.len(),
{
    if msgs.len() == 0 {
        (Seq::empty(), Seq::empty())
    } else {
        let (out, ids) = pass1(msgs.drop_last(), model, kind);
        pass1_step(out, ids, msgs.last(), model, kind)
    }
}

/// View of recorded id rewrites.
pub open spec fn pairs_view(v: Seq<(String, String)>) -> Seq<(Seq<char>, Seq<char>)> {
    v.map_values(|p: (String, String)| (p.0@, p.1@))
}

fn normalized_id(kind: ToolCallIdNormalizer, id: &String, model: &Model, src: &AssistantMessage) -> (r:
    Option<String>)
    ensures
        opt_str(r) == spec_normalized_id(kind, id@, model@, src@),
{
    match kind {
        ToolCallIdNormalizer::Unchanged => None,
        ToolCallIdNormalizer::Anthropic => Some(normalize_tool_call_id(id.as_str())),
        ToolCallIdNormalizer::OpenAIResponses => {
            let foreign = src.provider != model.provider || src.api != model.api;
            Some(responses_tool_call_id(id.as_str(), foreign))
        },
    }
}

fn transform_block_exec(
    b: &AssistantContent,
    same: bool,
    kind: ToolCallIdNormalizer,
    model: &Model,
    src: &AssistantMessage,
) -> (r: (Option<AssistantContent>, Option<(String, String)>))
    ensures
        match r.0 {
            Some(x) => transform_block(b@, same, kind, model@, src@) == Some(x@),
            None => transform_block(b@, same, kind, model@, src@) is None,
        },
        match r.1 {
            Some(p) => block_id_rewrite(b@, same, kind, model@, src@) == Some((p.0@, p.1@)),
            None => block_id_rewrite(b@, same, kind, model@, src@) is None,
        },
{
    match b {
        AssistantContent::Thinking(t) => {
            if t.redacted == Some(true) {
                if same {
                    (Some(b.duplicate()), None)
                } else {
                    (None, None)
                }
            } else if same && t.thinking_signature.is_some() {
                (Some(b.duplicate()), None)
            } else if is_blank(t.thinking.as_str()) {
                (None, None)
            } else if same {
                (Some(b.duplicate()), None)
            } else {
                (Some(AssistantContent::Text(TextContent { text: t.thinking.clone(), text_signature: None })), None)
            }
        },
        AssistantContent::Text(t) => {
            if same {
                (Some(b.duplicate()), None)
            } else {
                (Some(AssistantContent::Text(TextContent { text: t.text.clone(), text_signature: None })), None)
            }
        },
        AssistantContent::ToolCall(tc) => {
            let mut out = tc.duplicate();
            let mut rewrite: Option<(String, String)> = None;
            if !same {
                out.thought_signature = None;
                match normalized_id(kind, &tc.id, model, src) {
                    Some(nid) => {
                        if nid != tc.id {
                            rewrite = Some((tc.id.clone(), nid.clone()));
                        }
                        out.id = nid;
                    },
                    None => {},
                }
            }
            (Some(AssistantContent::ToolCall(out)), rewrite)
        },
    }
}

fn transform_content_exec(
    blocks: &Vec<AssistantContent>,
    same: bool,
    kind: ToolCallIdNormalizer,
    model: &Model,
    src: &AssistantMessage,
) -> (r: (Vec<AssistantContent>, Vec<(String, String)>))
    ensures
        (assistant_contents_view(r.0@), pairs_view(r.1@)) == transform_content(
            assistant_contents_view(blocks@),
            same,
            kind,
            model@,
            src@,
        ),
{
    let ghost bv = assistant_contents_view(blocks@);
    let mut out: Vec<AssistantContent> = Vec::new();
    let mut ids: Vec<(String, String)> = Vec::new();
    let mut i: usize = 0;
    while i < blocks.len()
        invariant
            i <= blocks.len(),
            bv == assistant_contents_view(blocks@),
            (assistant_contents_view(out@), pairs_view(ids@)) == transform_content(
                bv.take(i as int),
                same,
                kind,
                model@,
                src@,
            ),
        decreases blocks.len() - i,
    {
        let ghost prev_out = out@;
        let ghost prev_ids = ids@;
        assert(bv.take(i + 1).drop_last() == bv.take(i as int));
        assert(bv.take(i + 1).last() == blocks@[i as int]@);
        let (b, p) = transform_block_exec(&blocks[i], same, kind, model, src);
        match b {
            Some(x) => {
                out.push(x);
                assert(assistant_contents_view(out@) =~= assistant_contents_view(prev_out).push(
                    out@.last()@,
                ));
            },
            None => {},
        }
        match p {
            Some(q) => {
                ids.push(q);
                assert(pairs_view(ids@) =~= pairs_view(prev_ids).push((ids@.last().0@, ids@.last().1@)));
            },
            None => {},
        }
        i += 1;
    }
    assert(bv.take(blocks.len() as int) == bv);
    (out, ids)
}

fn lookup_rewrite_exec(ids: &Vec<(String, String)>, key: &String) -> (r: Option<String>)
    ensures
        opt_str(r) == lookup_rewrite(pairs_view(ids@), key@),
{
    let ghost pv = pairs_view(ids@);
    let mut j: usize = ids.len();
    assert(pv.take(j as int) == pv);
    while j > 0
        invariant
            j <= ids.len(),
            pv == pairs_view(ids@),
            lookup_rewrite(pv, key@) == lookup_rewrite(pv.take(j as int), key@),
        decreases j,
    {
        assert(pv.take(j as int).drop_last() == pv.take(j - 1));
        assert(pv.take(j as int).last() == pv[j - 1]);
        if ids[j - 1].0 == *key {
            return Some(ids[j - 1].1.clone());
        }
        j -= 1;
    }
    None
}

/// First pass over the messages, with the id rewrites recorded on the way.
fn pass1_exec(messages: &Vec<Message>, model: &Model, kind: ToolCallIdNormalizer) -> (r: (
    Vec<Message>,
    Vec<(String, String)>,
))
    ensures
        (messages_view(r.0@), pairs_view(r.1@)) == pass1(messages_view(messages@), model@, kind),
{
    let ghost mv = messages_view(messages@);
    let mut out: Vec<Message> = Vec::new();
    let mut ids: Vec<(String, String)> = Vec::new();
    let mut i: usize = 0;
    while i < messages.len()
        invariant
            i <= messages.len(),
            mv == messages_view(messages@),
            (messages_view(out@), pairs_view(ids@)) == pass1(mv.take(i as int), model@, kind),
        decreases messages.len() - i,
    {
        let ghost prev_out = out@;
        let ghost prev_ids = ids@;
        assert(mv.take(i + 1).drop_last() == mv.take(i as int));
        assert(mv.take(i + 1).last() == messages@[i as int]@);
        match &messages[i] {
            Message::User(u) => {
                out.push(Message::User(u.duplicate()));
            },
            Message::ToolResult(tr) => {
                let mut m = tr.duplicate();
                match lookup_rewrite_exec(&ids, &tr.tool_call_id) {
                    Some(n) => {
                        if n != tr.tool_call_id {
                            m.tool_call_id = n;
                        }
                    },
                    None => {},
                }
                out.push(Message::ToolResult(m));
            },
            Message::Assistant(a) => {
                let same = a.provider == model.provider && a.api == model.api && a.model == model.id;
                let (content, new_ids) = transform_content_exec(&a.content, same, kind, model, a);
                let mut m = a.duplicate();
                m.content = content;
                out.push(Message::Assistant(m));
                let mut k: usize = 0;
                let ghost base = ids@;
                while k < new_ids.len()
                    invariant
                        k <= new_ids.len(),
                        pairs_view(ids@) == pairs_view(base) + pairs_view(new_ids@).take(k as int),
                    decreases new_ids.len() - k,
                {
                    let ghost before = ids@;
                    ids.push((new_ids[k].0.clone(), new_ids[k].1.clone()));
                    assert(pairs_view(ids@) =~= pairs_view(before).push(pairs_view(new_ids@)[k as int]));
                    assert(pairs_view(new_ids@).take(k + 1) == pairs_view(new_ids@).take(k as int).push(
                        pairs_view(new_ids@)[k as int],
                    ));
                    k += 1;
                }
                assert(pairs_view(new_ids@).take(new_ids.len() as int) == pairs_view(new_ids@));
            },
        }
        assert(messages_view(out@) =~= messages_view(prev_out).push(out@.last()@));
        i += 1;
    }
    assert(mv.take(messages.len() as int) == mv);
    (out, ids)
}

/// Text of the synthetic result given to a tool call that never got one.
pub open spec fn no_result_text() -> Seq<char> {
    seq!['N', 'o', ' ', 'r', 'e', 's', 'u', 'l', 't', ' ', 'p', 'r', 'o', 'v', 'i', 'd', 'e', 'd']
}

/// Synthetic error result for tool call `tc`.
pub open spec fn synthetic_result(tc: ToolCallView, now: u64) -> MessageView {
    MessageView::ToolResult(
        ToolResultMessageView {
            tool_call_id: tc.id,
            tool_name: tc.name,
            content: seq![UserContentView::Text(TextContentView { text: no_result_text(), text_signature: None })],
            is_error: true,
            timestamp: now,
        },
    )
}

/// Synthetic results for the calls of `pending` whose id has no result yet.
pub open spec fn synthetic_results(pending: Seq<ToolCallView>, existing: Set<Seq<char>>, now: u64) -> Seq<
    MessageView,
>
    decreases pending.len(),
{
    if pending.len() == 0 {
        Seq::empty()
    } else {
        let rest = synthetic_results(pending.drop_last(), existing, now);
        if existing.contains(pending.last().id) {
            rest
        } else {
            rest.push(synthetic_result(pending.last(), now))
        }
    }
}

/// State of the second pass.
pub struct Pass2 {
    pub result: Seq<MessageView>,
    /// Tool calls of the last kept reply.
    pub pending: Seq<ToolCallView>,
    /// Ids of the tool results seen since.
    pub existing: Set<Seq<char>>,
}

/// Closes the pending tool calls with synthetic results.
pub open spec fn flush(st: Pass2, now: u64) -> Pass2 {
    if st.pending.len() == 0 {
        st
    } else {
        Pass2 {
            result: st.result + synthetic_results(st.pending, st.existing, now),
            pending: Seq::empty(),
            existing: Set::empty(),
        }
    }
}

/// Tool calls among the blocks of a reply, in order.
pub open spec fn tool_calls_of(content: Seq<AssistantContentView>) -> Seq<ToolCallView>
    decreases content.len(),
{
    if content.len() == 0 {
        Seq::empty()
    } else {
        let rest = tool_calls_of(content.drop_last());
        match content.last() {
            AssistantContentView::ToolCall(tc) => rest.push(tc),
            _ => rest,
        }
    }
}

/// Whether a reply ended in error or was aborted.
pub open spec fn is_failed_reply(a: AssistantMessageView) -> bool {
    a.stop_reason == StopReason::Error || a.stop_reason == StopReason::Aborted
}

/// Second pass on one message.
pub open spec fn pass2_step(st: Pass2, m: MessageView, now: u64) -> Pass2 {
    match m {
        MessageView::Assistant(a) => {
            let st1 = flush(st, now);
            if is_failed_reply(a) {
                st1
            } else {
                let tcs = tool_calls_of(a.content);
                let st2 = if tcs.len() > 0 {
                    Pass2 { pending: tcs, existing: Set::empty(), ..st1 }
                } else {
                    st1
                };
                Pass2 { result: st2.result.push(m), ..st2 }
            }
        },
        MessageView::ToolResult(tr) => Pass2 {
            result: st.result.push(m),
            existing: st.existing.insert(tr.tool_call_id),
            ..st
        },
        MessageView::User(_) => {
            let st1 = flush(st, now);
            Pass2 { result: st1.result.push(m), ..st1 }
        },
    }
}

pub open spec fn pass2_init() -> Pass2 {
    Pass2 { result: Seq::empty(), pending: Seq::empty(), existing: Set::empty() }
}

/// Second pass over all messages (before the final flush).
pub open spec fn pass2(msgs: Seq<MessageView>, now: u64) -> Pass2
    decreases msgs.len(),
{
    if msgs.len() == 0 {
        pass2_init()
    } else {
        pass2_step(pass2(msgs.drop_last(), now), msgs.last(), now)
    }
}

/// The replayed conversation, synthetic results stamped `now`.
pub open spec fn spec_transform(
    msgs: Seq<MessageView>,
    model: ModelView,
    kind: ToolCallIdNormalizer,
    now: u64,
) -> Seq<MessageView> {
    flush(pass2(pass1(msgs, model, kind).0, now), now).result
}

/// Set of the views of `v`.
pub open spec fn id_set(v: Seq<String>) -> Set<Seq<char>> {
    Set::new(|k: Seq<char>| exists|j: int| 0 <= j < v.len() && #[trigger] v[j]@ == k)
}

fn contains_id(v: &Vec<String>, key: &String) -> (r: bool)
    ensures
        r == id_set(v@).contains(key@),
{
    let mut j: usize = 0;
    while j < v.len()
        invariant
            j <= v.len(),
            forall|k: int| 0 <= k < j ==> v@[k]@ != key@,
        decreases v.len() - j,
    {
        if v[j] == *key {
            return true;
        }
        j += 1;
    }
    false
}

/// View of a list of tool calls.
pub open spec fn tool_calls_view(v: Seq<ToolCall>) -> Seq<ToolCallView> {
    v.map_values(|t: ToolCall| t@)
}

fn flush_exec(result: &mut Vec<Message>, pending: &mut Vec<ToolCall>, existing: &mut Vec<String>, now: u64)
    ensures
        ({
            let st = flush(
                Pass2 {
                    result: messages_view(old(result)@),
                    pending: tool_calls_view(old(pending)@),
                    existing: id_set(old(existing)@),
                },
                now,
            );
            &&& messages_view(final(result)@) == st.result
            &&& tool_calls_view(final(pending)@) == st.pending
            &&& id_set(final(existing)@) == st.existing
        }),
{
    if pending.len() == 0 {
        return;
    }
    let ghost pv = tool_calls_view(pending@);
    let ghost ex = id_set(existing@);
    let ghost base = messages_view(result@);
    let mut i: usize = 0;
    while i < pending.len()
        invariant
            i <= pending.len(),
            pv == tool_calls_view(pending@),
            ex == id_set(existing@),
            messages_view(result@) == base + synthetic_results(pv.take(i as int), ex, now),
        decreases pending.len() - i,
    {
        assert(pv.take(i + 1).drop_last() == pv.take(i as int));
        assert(pv.take(i + 1).last() == pending@[i as int]@);
        let ghost before = result@;
        if !contains_id(existing, &pending[i].id) {
            let text = "No result provided";
            proof {
                reveal_strlit("No result provided");
            }
            assert(text@ =~= no_result_text());
            let mut content: Vec<UserContent> = Vec::new();
            content.push(UserContent::Text(TextContent { text: text.to_string(), text_signature: None }));
            assert(user_contents_view(content@) =~= seq![
                UserContentView::Text(TextContentView { text: no_result_text(), text_signature: None }),
            ]);
            let m = Message::ToolResult(
                ToolResultMessage {
                    tool_call_id: pending[i].id.clone(),
                    tool_name: pending[i].name.clone(),
                    content,
                    is_error: true,
                    timestamp: now,
                },
            );
            result.push(m);
            assert(messages_view(result@) =~= messages_view(before).push(result@.last()@));
        }
        i += 1;
    }
    assert(pv.take(pending.len() as int) == pv);
    pending.clear();
    existing.clear();
    assert(tool_calls_view(pending@) =~= Seq::<ToolCallView>::empty());
    assert(id_set(existing@) =~= Set::<Seq<char>>::empty());
}

pub(crate) fn tool_calls_exec(content: &Vec<AssistantContent>) -> (r: Vec<ToolCall>)
    ensures
        tool_calls_view(r@) == tool_calls_of(assistant_contents_view(content@)),
{
    let ghost cv = assistant_contents_view(content@);
    let mut out: Vec<ToolCall> = Vec::new();
    let mut i: usize = 0;
    while i < content.len()
        invariant
            i <= content.len(),
            cv == assistant_contents_view(content@),
            tool_calls_view(out@) == tool_calls_of(cv.take(i as int)),
        decreases content.len() - i,
    {
        assert(cv.take(i + 1).drop_last() == cv.take(i as int));
        assert(cv.take(i + 1).last() == content@[i as int]@);
        let ghost before = out@;
        match &content[i] {
            AssistantContent::ToolCall(tc) => {
                out.push(tc.duplicate());
                assert(tool_calls_view(out@) =~= tool_calls_view(before).push(tc@));
            },
            _ => {},
        }
        i += 1;
    }
    assert(cv.take(content.len() as int) == cv);
    out
}

/// Replays `messages` for `model`, stamping synthetic tool results with `now`.
pub fn transform_messages_at(
    messages: &Vec<Message>,
    model: &Model,
    kind: ToolCallIdNormalizer,
    now: u64,
) -> (r: Vec<Message>)
    ensures
        messages_view(r@) == spec_transform(messages_view(messages@), model@, kind, now),
{
    let (transformed, _ids) = pass1_exec(messages, model, kind);
    let ghost tv = messages_view(transformed@);
    let mut result: Vec<Message> = Vec::new();
    let mut pending: Vec<ToolCall> = Vec::new();
    let mut existing: Vec<String> = Vec::new();
    let mut i: usize = 0;
    assert(messages_view(result@) =~= Seq::<MessageView>::empty());
    assert(tool_calls_view(pending@) =~= Seq::<ToolCallView>::empty());
    assert(id_set(existing@) =~= Set::<Seq<char>>::empty());
    while i < transformed.len()
        invariant
            i <= transformed.len(),
            tv == messages_view(transformed@),
            pass2(tv.take(i as int), now) == (Pass2 {
                result: messages_view(result@),
                pending: tool_calls_view(pending@),
                existing: id_set(existing@),
            }),
        decreases transformed.len() - i,
    {
        assert(tv.take(i + 1).drop_last() == tv.take(i as int));
        assert(tv.take(i + 1).last() == transformed@[i as int]@);
        match &transformed[i] {
            Message::Assistant(a) => {
                flush_exec(&mut result, &mut pending, &mut existing, now);
                if !(a.stop_reason == StopReason::Error || a.stop_reason == StopReason::Aborted) {
                    let tcs = tool_calls_exec(&a.content);
                    if tcs.len() > 0 {
                        pending = tcs;
                        existing = Vec::new();
                        assert(id_set(existing@) =~= Set::<Seq<char>>::empty());
                    }
                    let ghost before = result@;
                    result.push(Message::Assistant(a.duplicate()));
                    assert(messages_view(result@) =~= messages_view(before).push(result@.last()@));
                }
            },
            Message::ToolResult(tr) => {
                let ghost before_ex = existing@;
                existing.push(tr.tool_call_id.clone());
                assert(id_set(existing@) =~= id_set(before_ex).insert(tr.tool_call_id@)) by {
                    assert forall|k: Seq<char>| id_set(existing@).contains(k) implies id_set(before_ex).insert(tr.tool_call_id@).contains(k) by {
                        let j = choose|j: int| 0 <= j < existing@.len() && #[trigger] existing@[j]@ == k;
                        if j < before_ex.len() {
                            assert(before_ex[j]@ == k);
                        }
                    }
                    assert forall|k: Seq<char>| id_set(before_ex).insert(tr.tool_call_id@).contains(k) implies id_set(existing@).contains(k) by {
                        if k == tr.tool_call_id@ {
                            assert(existing@[before_ex.len() as int]@ == k);
                        } else {
                            let j = choose|j: int| 0 <= j < before_ex.len() && #[trigger] before_ex[j]@ == k;
                            assert(existing@[j]@ == k);
                        }
                    }
                }
                let ghost before = result@;
                result.push(Message::ToolResult(tr.duplicate()));
                assert(messages_view(result@) =~= messages_view(before).push(result@.last()@));
            },
            Message::User(u) => {
                flush_exec(&mut result, &mut pending, &mut existing, now);
                let ghost before = result@;
                result.push(Message::User(u.duplicate()));
                assert(messages_view(result@) =~= messages_view(before).push(result@.last()@));
            },
        }
        i += 1;
    }
    assert(tv.take(transformed.len() as int) == tv);
    flush_exec(&mut result, &mut pending, &mut existing, now);
    result
}

/// Replays `messages` for `model`; synthetic results carry the current time.
pub fn transform_messages(messages: &Vec<Message>, model: &Model, kind: ToolCallIdNormalizer) -> (r: Vec<
    Message,
>)
    ensures
        exists|now: u64| messages_view(r@) == spec_transform(messages_view(messages@), model@, kind, now),
{
    let now = now_timestamp();
    transform_messages_at(messages, model, kind, now)
}

/// Every message after position `p` is a tool result.
pub open spec fn all_results_after(r: Seq<MessageView>, p: int) -> bool {
    forall|k: int| p < k < r.len() ==> #[trigger] r[k] is ToolResult
}

/// Id of the tool result at `k` (empty for other messages).
pub open spec fn result_id(m: MessageView) -> Seq<char> {
    match m {
        MessageView::ToolResult(tr) => tr.tool_call_id,
        _ => Seq::empty(),
    }
}

/// Ids of the tool results after position `p`.
pub open spec fn ids_after(r: Seq<MessageView>, p: int) -> Set<Seq<char>> {
    Set::new(
        |id: Seq<char>| exists|k: int| p < k < r.len() && #[trigger] r[k] is ToolResult && result_id(r[k]) == id,
    )
}

/// Tool calls of the message at `i` (none unless it is a reply).
pub open spec fn calls_at(r: Seq<MessageView>, i: int) -> Seq<ToolCallView> {
    match r[i] {
        MessageView::Assistant(a) => tool_calls_of(a.content),
        _ => Seq::empty(),
    }
}

/// The tool call with id `id` of the reply at `i` is answered by a tool
/// result that follows it, with only tool results in between.
pub open spec fn answered(r: Seq<MessageView>, i: int, id: Seq<char>) -> bool {
    exists|j: int|
        i < j < r.len() && #[trigger] r[j] is ToolResult && result_id(r[j]) == id && forall|k: int|
            i < k <= j ==> #[trigger] r[k] is ToolResult
}

/// No reply in `r` ended in error or was aborted.
pub open spec fn no_failed_reply(r: Seq<MessageView>) -> bool {
    forall|i: int| 0 <= i < r.len() ==> !is_failed_at(#[trigger] r[i])
}

/// Whether `m` is a reply that ended in error or was aborted.
pub open spec fn is_failed_at(m: MessageView) -> bool {
    match m {
        MessageView::Assistant(a) => is_failed_reply(a),
        _ => false,
    }
}

/// Every tool call of every reply in `r` is answered.
pub open spec fn all_calls_answered(r: Seq<MessageView>) -> bool {
    forall|i: int, t: int|
        0 <= i < r.len() && 0 <= t < calls_at(r, i).len() ==> answered(r, i, #[trigger] calls_at(r, i)[t].id)
}

/// Invariant of the second pass.
pub open spec fn pass2_inv(st: Pass2) -> bool {
    &&& no_failed_reply(st.result)
    &&& (st.pending.len() > 0 ==> exists|p: int|
        0 <= p < st.result.len() && #[trigger] st.result[p] is Assistant && calls_at(st.result, p)
            == st.pending && all_results_after(st.result, p) && st.existing == ids_after(st.result, p))
    &&& forall|i: int, t: int|
        0 <= i < st.result.len() && !(st.pending.len() > 0 && all_results_after(st.result, i)) && 0 <= t
            < calls_at(st.result, i).len() ==> answered(st.result, i, #[trigger] calls_at(st.result, i)[t].id)
}

proof fn lemma_answered_append(r: Seq<MessageView>, x: Seq<MessageView>, i: int, id: Seq<char>)
    requires
        0 <= i,
        answered(r, i, id),
    ensures
        answered(r + x, i, id),
{
    let j = choose|j: int|
        i < j < r.len() && #[trigger] r[j] is ToolResult && result_id(r[j]) == id && forall|k: int|
            i < k <= j ==> #[trigger] r[k] is ToolResult;
    assert(i < j < r.len());
    assert((r + x)[j] == r[j]);
    assert forall|k: int| i < k <= j implies #[trigger] (r + x)[k] is ToolResult by {
        assert((r + x)[k] == r[k]);
    }
}

proof fn lemma_synthetic_shape(pending: Seq<ToolCallView>, existing: Set<Seq<char>>, now: u64)
    ensures
        forall|m: int|
            0 <= m < synthetic_results(pending, existing, now).len() ==> #[trigger] synthetic_results(
                pending,
                existing,
                now,
            )[m] is ToolResult,
        forall|t: int|
            0 <= t < pending.len() && !existing.contains(#[trigger] pending[t].id) ==> exists|m: int|
                0 <= m < synthetic_results(pending, existing, now).len() && #[trigger] synthetic_results(
                    pending,
                    existing,
                    now,
                )[m] is ToolResult && result_id(synthetic_results(pending, existing, now)[m])
                    == pending[t].id,
    decreases pending.len(),
{
    if pending.len() > 0 {
        let pre = pending.drop_last();
        lemma_synthetic_shape(pre, existing, now);
        let rest = synthetic_results(pre, existing, now);
        let all = synthetic_results(pending, existing, now);
        assert forall|m: int| 0 <= m < all.len() implies #[trigger] all[m] is ToolResult by {
            if m < rest.len() {
                assert(all[m] == rest[m]);
            }
        }
        assert forall|t: int| 0 <= t < pending.len() && !existing.contains(#[trigger] pending[t].id) implies exists|m: int|
            0 <= m < all.len() && #[trigger] all[m] is ToolResult && result_id(all[m]) == pending[t].id by {
            if t < pre.len() {
                assert(pre[t] == pending[t]);
                let m = choose|m: int|
                    0 <= m < rest.len() && #[trigger] rest[m] is ToolResult && result_id(rest[m]) == pre[t].id;
                assert(all[m] == rest[m]);
            } else {
                assert(all[rest.len() as int] == synthetic_result(pending.last(), now));
            }
        }
    }
}

proof fn lemma_no_failed_append(r: Seq<MessageView>, x: Seq<MessageView>)
    requires
        no_failed_reply(r),
        no_failed_reply(x),
    ensures
        no_failed_reply(r + x),
{
    assert forall|i: int| 0 <= i < (r + x).len() implies !is_failed_at(#[trigger] (r + x)[i]) by {
        if i < r.len() {
            assert((r + x)[i] == r[i]);
        } else {
            assert((r + x)[i] == x[i - r.len()]);
        }
    }
}

proof fn lemma_flush_inv(st: Pass2, now: u64)
    requires
        pass2_inv(st),
    ensures
        pass2_inv(flush(st, now)),
        flush(st, now).pending.len() == 0,
        all_calls_answered(flush(st, now).result),
{
    let f = flush(st, now);
    if st.pending.len() == 0 {
        return;
    }
    let syn = synthetic_results(st.pending, st.existing, now);
    lemma_synthetic_shape(st.pending, st.existing, now);
    let r = st.result;
    let r2 = r + syn;
    assert(f.result == r2);
    let p = choose|p: int|
        0 <= p < r.len() && #[trigger] r[p] is Assistant && calls_at(r, p) == st.pending
            && all_results_after(r, p) && st.existing == ids_after(r, p);
    assert(no_failed_reply(syn)) by {
        assert forall|i: int| 0 <= i < syn.len() implies !is_failed_at(#[trigger] syn[i]) by {
            assert(syn[i] is ToolResult);
        }
    }
    lemma_no_failed_append(r, syn);
    assert forall|i: int, t: int| 0 <= i < r2.len() && 0 <= t < calls_at(r2, i).len() implies answered(
        r2,
        i,
        #[trigger] calls_at(r2, i)[t].id,
    ) by {
        if i >= r.len() {
            assert(r2[i] == syn[i - r.len()]);
            assert(syn[i - r.len()] is ToolResult);
        } else {
            assert(r2[i] == r[i]);
            assert(calls_at(r2, i) == calls_at(r, i));
            if i == p {
                let tc = st.pending[t];
                if st.existing.contains(tc.id) {
                    let k = choose|k: int| p < k < r.len() && #[trigger] r[k] is ToolResult && result_id(r[k]) == tc.id;
                    assert(r2[k] == r[k]);
                    assert forall|q: int| p < q <= k implies #[trigger] r2[q] is ToolResult by {
                        assert(r2[q] == r[q]);
                    }
                } else {
                    let m = choose|m: int|
                        0 <= m < syn.len() && #[trigger] syn[m] is ToolResult && result_id(syn[m])
                            == st.pending[t].id;
                    let j = r.len() + m;
                    assert(r2[j] == syn[m]);
                    assert forall|q: int| p < q <= j implies #[trigger] r2[q] is ToolResult by {
                        if q < r.len() {
                            assert(r2[q] == r[q]);
                        } else {
                            assert(r2[q] == syn[q - r.len()]);
                        }
                    }
                }
            } else {
                if all_results_after(r, i) {
                    if i < p {
                        assert(r[p] is ToolResult);
                    } else {
                        assert(r[i] is ToolResult);
                    }
                }
                lemma_answered_append(r, syn, i, calls_at(r, i)[t].id);
            }
        }
    }
}

proof fn lemma_push_keeps_answered(r: Seq<MessageView>, m: MessageView, pending_nonempty: bool)
    requires
        forall|i: int, t: int|
            0 <= i < r.len() && !(pending_nonempty && all_results_after(r, i)) && 0 <= t < calls_at(r, i).len()
                ==> answered(r, i, #[trigger] calls_at(r, i)[t].id),
        m is ToolResult || !pending_nonempty,
    ensures
        forall|i: int, t: int|
            0 <= i < r.len() && !(pending_nonempty && all_results_after(r.push(m), i)) && 0 <= t < calls_at(
                r.push(m),
                i,
            ).len() ==> answered(r.push(m), i, #[trigger] calls_at(r.push(m), i)[t].id),
{
    let r2 = r.push(m);
    assert(r + seq![m] == r2);
    assert forall|i: int, t: int|
        0 <= i < r.len() && !(pending_nonempty && all_results_after(r2, i)) && 0 <= t < calls_at(r2, i).len()
            implies answered(r2, i, #[trigger] calls_at(r2, i)[t].id) by {
        assert(r2[i] == r[i]);
        assert(calls_at(r2, i) == calls_at(r, i));
        if pending_nonempty && all_results_after(r, i) {
            assert forall|k: int| i < k < r2.len() implies #[trigger] r2[k] is ToolResult by {
                if k < r.len() {
                    assert(r2[k] == r[k]);
                }
            }
        }
        lemma_answered_append(r, seq![m], i, calls_at(r, i)[t].id);
    }
}

proof fn lemma_pass2_inv(msgs: Seq<MessageView>, now: u64)
    ensures
        pass2_inv(pass2(msgs, now)),
    decreases msgs.len(),
{
    if msgs.len() == 0 {
        return;
    }
    lemma_pass2_inv(msgs.drop_last(), now);
    let st = pass2(msgs.drop_last(), now);
    let m = msgs.last();
    let st1 = flush(st, now);
    lemma_flush_inv(st, now);
    let next = pass2_step(st, m, now);
    assert(next == pass2(msgs, now));
    match m {
        MessageView::Assistant(a) => {
            if !is_failed_reply(a) {
                let tcs = tool_calls_of(a.content);
                let r = st1.result;
                let r2 = r.push(m);
                assert(next.result == r2);
                assert(r + seq![m] == r2);
                assert(no_failed_reply(seq![m])) by {
                    assert forall|i: int| 0 <= i < 1 implies !is_failed_at(#[trigger] seq![m][i]) by {
                        assert(seq![m][i] == m);
                    }
                }
                lemma_no_failed_append(r, seq![m]);
                let p = r.len() as int;
                assert(r2[p] == m);
                if tcs.len() > 0 {
                    assert(calls_at(r2, p) == next.pending);
                    assert(ids_after(r2, p) =~= Set::<Seq<char>>::empty());
                }
                lemma_push_keeps_answered(r, m, false);
                assert forall|i: int, t: int|
                    0 <= i < r2.len() && !(next.pending.len() > 0 && all_results_after(r2, i)) && 0 <= t
                        < calls_at(r2, i).len() implies answered(r2, i, #[trigger] calls_at(r2, i)[t].id) by {
                    if i == p {
                        assert(calls_at(r2, p) == tcs);
                        assert(all_results_after(r2, p));
                    }
                }
            }
        },
        MessageView::ToolResult(tr) => {
            let r = st.result;
            let r2 = r.push(m);
            assert(next.result == r2);
            assert(r + seq![m] == r2);
            assert(no_failed_reply(seq![m])) by {
                assert forall|i: int| 0 <= i < 1 implies !is_failed_at(#[trigger] seq![m][i]) by {
                    assert(seq![m][i] == m);
                }
            }
            lemma_no_failed_append(r, seq![m]);
            if st.pending.len() > 0 {
                let p = choose|p: int|
                    0 <= p < r.len() && #[trigger] r[p] is Assistant && calls_at(r, p) == st.pending
                        && all_results_after(r, p) && st.existing == ids_after(r, p);
                assert(r2[p] == r[p]);
                assert(calls_at(r2, p) == calls_at(r, p));
                assert forall|k: int| p < k < r2.len() implies #[trigger] r2[k] is ToolResult by {
                    if k < r.len() {
                        assert(r2[k] == r[k]);
                    }
                }
                assert(ids_after(r2, p) =~= st.existing.insert(tr.tool_call_id)) by {
                    assert forall|id: Seq<char>| ids_after(r2, p).contains(id) implies st.existing.insert(
                        tr.tool_call_id,
                    ).contains(id) by {
                        let k = choose|k: int| p < k < r2.len() && #[trigger] r2[k] is ToolResult && result_id(r2[k]) == id;
                        if k < r.len() {
                            assert(r2[k] == r[k]);
                            assert(ids_after(r, p).contains(id));
                        }
                    }
                    assert forall|id: Seq<char>| st.existing.insert(tr.tool_call_id).contains(id) implies ids_after(
                        r2,
                        p,
                    ).contains(id) by {
                        if id == tr.tool_call_id {
                            assert(r2[r.len() as int] == m);
                        } else {
                            assert(ids_after(r, p).contains(id));
                            let k = choose|k: int| p < k < r.len() && #[trigger] r[k] is ToolResult && result_id(r[k]) == id;
                            assert(r2[k] == r[k]);
                        }
                    }
                }
            }
            lemma_push_keeps_answered(r, m, st.pending.len() > 0);
        },
        MessageView::User(_) => {
            let r = st1.result;
            let r2 = r.push(m);
            assert(next.result == r2);
            assert(r + seq![m] == r2);
            assert(no_failed_reply(seq![m])) by {
                assert forall|i: int| 0 <= i < 1 implies !is_failed_at(#[trigger] seq![m][i]) by {
                    assert(seq![m][i] == m);
                }
            }
            lemma_no_failed_append(r, seq![m]);
            lemma_push_keeps_answered(r, m, false);
        },
    }
}

/// Replay never keeps a reply that ended in error or was aborted, and every
/// tool call of every kept reply is followed by a tool result with its id,
/// with only tool results in between (synthetic ones where none existed).
pub proof fn lemma_replay_well_formed(
    msgs: Seq<MessageView>,
    model: ModelView,
    kind: ToolCallIdNormalizer,
    now: u64,
)
    ensures
        no_failed_reply(spec_transform(msgs, model, kind, now)),
        all_calls_answered(spec_transform(msgs, model, kind, now)),
{
    let t = pass1(msgs, model, kind).0;
    lemma_pass2_inv(t, now);
    lemma_flush_inv(pass2(t, now), now);
}

/// The id a tool call with id `id` has after replay.
pub open spec fn new_call_id(
    id: Seq<char>,
    same: bool,
    kind: ToolCallIdNormalizer,
    model: ModelView,
    src: AssistantMessageView,
) -> Seq<char> {
    if !same && spec_normalized_id(kind, id, model, src) is Some {
        spec_normalized_id(kind, id, model, src)->Some_0
    } else {
        id
    }
}

/// Whether a block of `bs` is a tool call with id `key`.
pub open spec fn has_call(bs: Seq<AssistantContentView>, key: Seq<char>) -> bool {
    exists|q: int| 0 <= q < bs.len() && (#[trigger] bs[q]) is ToolCall && bs[q]->ToolCall_0.id == key
}

proof fn lemma_lookup_cat(a: Seq<(Seq<char>, Seq<char>)>, b: Seq<(Seq<char>, Seq<char>)>, key: Seq<char>)
    ensures
        lookup_rewrite(a + b, key) == (match lookup_rewrite(b, key) {
            Some(v) => Some(v),
            None => lookup_rewrite(a, key),
        }),
    decreases b.len(),
{
    if b.len() == 0 {
        assert(a + b =~= a);
    } else {
        lemma_lookup_cat(a, b.drop_last(), key);
        assert((a + b).drop_last() =~= a + b.drop_last());
        assert((a + b).last() == b.last());
    }
}

proof fn lemma_has_call_last(bs: Seq<AssistantContentView>, key: Seq<char>)
    requires
        bs.len() > 0,
    ensures
        has_call(bs, key) == (has_call(bs.drop_last(), key) || (bs.last() is ToolCall && bs.last()->ToolCall_0.id
            == key)),
{
    let d = bs.drop_last();
    if has_call(bs, key) {
        let q = choose|q: int| 0 <= q < bs.len() && (#[trigger] bs[q]) is ToolCall && bs[q]->ToolCall_0.id == key;
        if q < d.len() {
            assert(d[q] == bs[q]);
        }
    }
    if has_call(d, key) {
        let q = choose|q: int| 0 <= q < d.len() && (#[trigger] d[q]) is ToolCall && d[q]->ToolCall_0.id == key;
        assert(bs[q] == d[q]);
    }
    if bs.last() is ToolCall && bs.last()->ToolCall_0.id == key {
        assert(bs[bs.len() - 1] == bs.last());
    }
}

/// The id rewrites a reply records give for `key` the new id of its calls
/// with that id, if that id changes.
proof fn lemma_content_lookup(
    bs: Seq<AssistantContentView>,
    same: bool,
    kind: ToolCallIdNormalizer,
    model: ModelView,
    src: AssistantMessageView,
    key: Seq<char>,
)
    ensures
        lookup_rewrite(transform_content(bs, same, kind, model, src).1, key) == (if has_call(bs, key)
            && new_call_id(key, same, kind, model, src) != key {
            Some(new_call_id(key, same, kind, model, src))
        } else {
            None
        }),
    decreases bs.len(),
{
    if bs.len() == 0 {
    } else {
        lemma_content_lookup(bs.drop_last(), same, kind, model, src, key);
        lemma_has_call_last(bs, key);
        let ids = transform_content(bs.drop_last(), same, kind, model, src).1;
        let b = bs.last();
        match block_id_rewrite(b, same, kind, model, src) {
            Some(pr) => {
                assert(ids.push(pr).drop_last() =~= ids);
                assert(ids.push(pr).last() == pr);
                assert(pr.0 == b->ToolCall_0.id);
                assert(pr.1 == new_call_id(pr.0, same, kind, model, src));
            },
            None => {
                if b is ToolCall && b->ToolCall_0.id == key {
                    assert(new_call_id(key, same, kind, model, src) == key);
                }
            },
        }
    }
}

/// A reply's tool call keeps its name and arguments and gets its new id.
proof fn lemma_content_has_call(
    bs: Seq<AssistantContentView>,
    same: bool,
    kind: ToolCallIdNormalizer,
    model: ModelView,
    src: AssistantMessageView,
    p: int,
)
    requires
        0 <= p < bs.len(),
        bs[p] is ToolCall,
    ensures
        ({
            let out = transform_content(bs, same, kind, model, src).0;
            let tc = bs[p]->ToolCall_0;
            exists|q: int|
                0 <= q < out.len() && (#[trigger] out[q]) is ToolCall && out[q]->ToolCall_0.id == new_call_id(
                    tc.id,
                    same,
                    kind,
                    model,
                    src,
                ) && out[q]->ToolCall_0.name == tc.name && out[q]->ToolCall_0.arguments == tc.arguments
        }),
    decreases bs.len(),
{
    let tc = bs[p]->ToolCall_0;
    let prev = transform_content(bs.drop_last(), same, kind, model, src).0;
    let out = transform_content(bs, same, kind, model, src).0;
    if p == bs.len() - 1 {
        assert(bs.last() == bs[p]);
        let x = transform_block(bs.last(), same, kind, model, src)->Some_0;
        assert(out == prev.push(x));
        assert(out[prev.len() as int] == x);
    } else {
        lemma_content_has_call(bs.drop_last(), same, kind, model, src, p);
        let q = choose|q: int|
            0 <= q < prev.len() && (#[trigger] prev[q]) is ToolCall && prev[q]->ToolCall_0.id == new_call_id(
                tc.id,
                same,
                kind,
                model,
                src,
            ) && prev[q]->ToolCall_0.name == tc.name && prev[q]->ToolCall_0.arguments == tc.arguments;
        match transform_block(bs.last(), same, kind, model, src) {
            Some(x) => {
                assert(out[q] == prev.push(x)[q]);
            },
            None => {},
        }
    }
}

proof fn lemma_pass1_len(msgs: Seq<MessageView>, model: ModelView, kind: ToolCallIdNormalizer)
    ensures
        pass1(msgs, model, kind).0.len() == msgs.len(),
    decreases msgs.len(),
{
    if msgs.len() > 0 {
        lemma_pass1_len(msgs.drop_last(), model, kind);
    }
}

proof fn lemma_pass1_prefix(msgs: Seq<MessageView>, model: ModelView, kind: ToolCallIdNormalizer, m: int)
    requires
        0 <= m <= msgs.len(),
    ensures
        pass1(msgs, model, kind).0.take(m) == pass1(msgs.take(m), model, kind).0,
    decreases msgs.len(),
{
    lemma_pass1_len(msgs, model, kind);
    if m == msgs.len() {
        assert(msgs.take(m) =~= msgs);
        assert(pass1(msgs, model, kind).0.take(m) =~= pass1(msgs, model, kind).0);
    } else {
        lemma_pass1_prefix(msgs.drop_last(), model, kind, m);
        lemma_pass1_len(msgs.drop_last(), model, kind);
        assert(msgs.drop_last().take(m) =~= msgs.take(m));
        let prev = pass1(msgs.drop_last(), model, kind).0;
        let cur = pass1(msgs, model, kind).0;
        assert(cur == prev.push(cur.last()));
        assert(cur.take(m) =~= prev.take(m));
    }
}

/// The rewrites recorded before message `m` give `x` the new id of the
/// calls of reply `i`, when `i` is the only reply so far with a call `x`.
proof fn lemma_pass1_ids(msgs: Seq<MessageView>, model: ModelView, kind: ToolCallIdNormalizer, i: int, m: int, x: Seq<char>)
    requires
        0 <= i < msgs.len(),
        0 <= m <= msgs.len(),
        msgs[i] is Assistant,
        has_call(msgs[i]->Assistant_0.content, x),
        forall|k: int|
            0 <= k < m && k != i && (#[trigger] msgs[k]) is Assistant ==> !has_call(msgs[k]->Assistant_0.content, x),
    ensures
        ({
            let a = msgs[i]->Assistant_0;
            let nx = new_call_id(x, same_model(a, model), kind, model, a);
            lookup_rewrite(pass1(msgs.take(m), model, kind).1, x) == (if i < m && nx != x {
                Some(nx)
            } else {
                None
            })
        }),
    decreases m,
{
    if m > 0 {
        lemma_pass1_ids(msgs, model, kind, i, m - 1, x);
        let t = msgs.take(m);
        assert(t.drop_last() =~= msgs.take(m - 1));
        assert(t.last() == msgs[m - 1]);
        let (out, ids) = pass1(msgs.take(m - 1), model, kind);
        match msgs[m - 1] {
            MessageView::Assistant(b) => {
                let same = same_model(b, model);
                let new_ids = transform_content(b.content, same, kind, model, b).1;
                lemma_lookup_cat(ids, new_ids, x);
                lemma_content_lookup(b.content, same, kind, model, b, x);
            },
            _ => {},
        }
    }
}

/// Replay renames a tool result together with its call: when reply `i` is
/// the only message before result `j` with a call of the result's id, the
/// result keeps its tool name, content and error flag, and its id is the
/// id that the call (same name and arguments) has after replay.
pub proof fn lemma_results_follow_calls(
    msgs: Seq<MessageView>,
    model: ModelView,
    kind: ToolCallIdNormalizer,
    i: int,
    p: int,
    j: int,
)
    requires
        0 <= i < j < msgs.len(),
        msgs[i] is Assistant,
        0 <= p < msgs[i]->Assistant_0.content.len(),
        msgs[i]->Assistant_0.content[p] is ToolCall,
        msgs[j] is ToolResult,
        msgs[j]->ToolResult_0.tool_call_id == msgs[i]->Assistant_0.content[p]->ToolCall_0.id,
        forall|k: int|
            0 <= k < j && k != i && (#[trigger] msgs[k]) is Assistant ==> !has_call(
                msgs[k]->Assistant_0.content,
                msgs[j]->ToolResult_0.tool_call_id,
            ),
    ensures
        ({
            let out = pass1(msgs, model, kind).0;
            let a = msgs[i]->Assistant_0;
            let tc = a.content[p]->ToolCall_0;
            let r = msgs[j]->ToolResult_0;
            &&& out.len() == msgs.len()
            &&& out[j] == MessageView::ToolResult(
                ToolResultMessageView { tool_call_id: new_call_id(tc.id, same_model(a, model), kind, model, a), ..r },
            )
            &&& out[i] is Assistant
            &&& exists|q: int|
                0 <= q < out[i]->Assistant_0.content.len() && (#[trigger] out[i]->Assistant_0.content[q]) is ToolCall
                    && out[i]->Assistant_0.content[q]->ToolCall_0.id == out[j]->ToolResult_0.tool_call_id
                    && out[i]->Assistant_0.content[q]->ToolCall_0.name == tc.name
                    && out[i]->Assistant_0.content[q]->ToolCall_0.arguments == tc.arguments
        }),
{
    let a = msgs[i]->Assistant_0;
    let tc = a.content[p]->ToolCall_0;
    let x = tc.id;
    let same = same_model(a, model);
    let nx = new_call_id(x, same, kind, model, a);
    assert(has_call(a.content, x)) by {
        assert(a.content[p] is ToolCall);
    }
    lemma_pass1_len(msgs, model, kind);
    let out = pass1(msgs, model, kind).0;
    // the result
    lemma_pass1_ids(msgs, model, kind, i, j, x);
    lemma_pass1_prefix(msgs, model, kind, j + 1);
    let t = msgs.take(j + 1);
    assert(t.drop_last() =~= msgs.take(j));
    assert(t.last() == msgs[j]);
    lemma_pass1_len(msgs.take(j), model, kind);
    let pj = pass1(msgs.take(j + 1), model, kind).0;
    assert(out[j] == out.take(j + 1)[j]);
    assert(pj[j] == pj.last());
    // the call
    lemma_pass1_prefix(msgs, model, kind, i + 1);
    let u = msgs.take(i + 1);
    assert(u.drop_last() =~= msgs.take(i));
    assert(u.last() == msgs[i]);
    lemma_pass1_len(msgs.take(i), model, kind);
    let pi = pass1(msgs.take(i + 1), model, kind).0;
    assert(out[i] == out.take(i + 1)[i]);
    assert(pi[i] == pi.last());
    lemma_content_has_call(a.content, same, kind, model, a, p);
    assert(out[i] == MessageView::Assistant(
        AssistantMessageView { content: transform_content(a.content, same, kind, model, a).0, ..a },
    ));
    let r = msgs[j]->ToolResult_0;
    assert(lookup_rewrite(pass1(msgs.take(j), model, kind).1, x) == (if nx != x { Some(nx) } else { None }));
    assert(out[j] == MessageView::ToolResult(ToolResultMessageView { tool_call_id: nx, ..r }));
    let oc = out[i]->Assistant_0.content;
    assert(oc == transform_content(a.content, same, kind, model, a).0);
    assert(exists|q: int|
        0 <= q < oc.len() && (#[trigger] oc[q]) is ToolCall && oc[q]->ToolCall_0.id == nx
            && oc[q]->ToolCall_0.name == tc.name && oc[q]->ToolCall_0.arguments == tc.arguments);
}

proof fn lemma_pass2_grows(msgs: Seq<MessageView>, now: u64)
    requires
        msgs.len() > 0,
    ensures
        pass2(msgs.drop_last(), now).result.len() <= pass2(msgs, now).result.len(),
        pass2(msgs, now).result.take(pass2(msgs.drop_last(), now).result.len() as int) == pass2(
            msgs.drop_last(),
            now,
        ).result,
{
    let st = pass2(msgs.drop_last(), now);
    let f = flush(st, now);
    assert(f.result.take(st.result.len() as int) =~= st.result);
    let r = pass2(msgs, now).result;
    match msgs.last() {
        MessageView::Assistant(a) => {
            assert(r.take(st.result.len() as int) =~= st.result);
        },
        MessageView::ToolResult(tr) => {
            assert(r.take(st.result.len() as int) =~= st.result);
        },
        MessageView::User(_) => {
            assert(r.take(st.result.len() as int) =~= st.result);
        },
    }
}

/// The second pass keeps every tool result.
proof fn lemma_pass2_keeps_results(msgs: Seq<MessageView>, now: u64, k: int)
    requires
        0 <= k < msgs.len(),
        msgs[k] is ToolResult,
    ensures
        pass2(msgs, now).result.contains(msgs[k]),
    decreases msgs.len(),
{
    let r = pass2(msgs, now).result;
    if k == msgs.len() - 1 {
        let st = pass2(msgs.drop_last(), now);
        assert(r == st.result.push(msgs[k]));
        assert(r[st.result.len() as int] == msgs[k]);
    } else {
        lemma_pass2_keeps_results(msgs.drop_last(), now, k);
        lemma_pass2_grows(msgs, now);
        let prev = pass2(msgs.drop_last(), now).result;
        let q = choose|q: int| 0 <= q < prev.len() && prev[q] == msgs[k];
        assert(r[q] == r.take(prev.len() as int)[q]);
    }
}

/// Replay keeps a tool result that answers a call of an earlier reply,
/// renamed to the id that call has after replay (see
/// `lemma_results_follow_calls`): its output is never orphaned.
pub proof fn lemma_results_kept_in_replay(
    msgs: Seq<MessageView>,
    model: ModelView,
    kind: ToolCallIdNormalizer,
    now: u64,
    i: int,
    p: int,
    j: int,
)
    requires
        0 <= i < j < msgs.len(),
        msgs[i] is Assistant,
        0 <= p < msgs[i]->Assistant_0.content.len(),
        msgs[i]->Assistant_0.content[p] is ToolCall,
        msgs[j] is ToolResult,
        msgs[j]->ToolResult_0.tool_call_id == msgs[i]->Assistant_0.content[p]->ToolCall_0.id,
        forall|k: int|
            0 <= k < j && k != i && (#[trigger] msgs[k]) is Assistant ==> !has_call(
                msgs[k]->Assistant_0.content,
                msgs[j]->ToolResult_0.tool_call_id,
            ),
    ensures
        ({
            let a = msgs[i]->Assistant_0;
            let tc = a.content[p]->ToolCall_0;
            spec_transform(msgs, model, kind, now).contains(
                MessageView::ToolResult(
                    ToolResultMessageView {
                        tool_call_id: new_call_id(tc.id, same_model(a, model), kind, model, a),
                        ..msgs[j]->ToolResult_0
                    },
                ),
            )
        }),
{
    lemma_results_follow_calls(msgs, model, kind, i, p, j);
    let out = pass1(msgs, model, kind).0;
    lemma_pass2_keeps_results(out, now, j);
    let st = pass2(out, now);
    let f = flush(st, now);
    let q = choose|q: int| 0 <= q < st.result.len() && st.result[q] == out[j];
    assert(f.result[q] == st.result[q]);
}

} // verus!
