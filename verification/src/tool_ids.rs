//! Tool-call id normalisation for the providers' id rules.
//!
//! Anthropic accepts `[A-Za-z0-9_-]{1,64}`; OpenAI Responses uses
//! composite ids `call_id|item_id` whose item part must start with `fc_`.
use vstd::prelude::*;
use crate::hash::{short_hash, spec_short_hash};
use crate::text::{chars_of, push_char, push_str, string_from_chars, string_from_range};

verus! {

/// Characters allowed in provider ids.
pub open spec fn is_id_char(c: char) -> bool {
    ('0' <= c && c <= '9') || ('a' <= c && c <= 'z') || ('A' <= c && c <= 'Z') || c == '_' || c == '-'
}

/// Each character outside `[A-Za-z0-9_-]` replaced by '_'.
pub open spec fn sanitize_id(s: Seq<char>) -> Seq<char> {
    s.map_values(|c: char| if is_id_char(c) { c } else { '_' })
}

/// At most the first `n` characters.
pub open spec fn take_at_most(s: Seq<char>, n: nat) -> Seq<char> {
    if s.len() <= n {
        s
    } else {
        s.take(n as int)
    }
}

/// Anthropic tool-call id: sanitised and cut to 64 characters.
pub open spec fn spec_anthropic_tool_call_id(id: Seq<char>) -> Seq<char> {
    take_at_most(sanitize_id(id), 64)
}

/// Sanitised copy of `cs[..limit]` (or all of `cs` when shorter).
fn sanitize_prefix(cs: &Vec<char>, limit: usize) -> (r: Vec<char>)
    ensures
        r@ == take_at_most(sanitize_id(cs@), limit as nat),
{
    let n = if cs.len() < limit { cs.len() } else { limit };
    let mut out: Vec<char> = Vec::new();
    let mut i: usize = 0;
    while i < n
        invariant
            n <= cs.len(),
            i <= n,
            out@ == sanitize_id(cs@).take(i as int),
        decreases n - i,
    {
        let c = cs[i];
        let ok = ('0' <= c && c <= '9') || ('a' <= c && c <= 'z') || ('A' <= c && c <= 'Z') || c
            == '_' || c == '-';
        out.push(if ok { c } else { '_' });
        assert(sanitize_id(cs@).take(i + 1) == sanitize_id(cs@).take(i as int).push(sanitize_id(cs@)[i as int]));
        i += 1;
    }
    assert(sanitize_id(cs@).len() == cs@.len());
    assert(n == cs@.len() ==> sanitize_id(cs@).take(n as int) == sanitize_id(cs@));
    out
}

/// Tool-call id in the form Anthropic accepts.
pub fn normalize_tool_call_id(id: &str) -> (r: String)
    ensures
        r@ == spec_anthropic_tool_call_id(id@),
{
    let cs = chars_of(id);
    let v = sanitize_prefix(&cs, 64);
    string_from_chars(&v)
}

/// A normalised Anthropic tool-call id holds only `[A-Za-z0-9_-]`, has at
/// most 64 characters, and normalising it a second time changes nothing.
pub proof fn lemma_tool_call_id_accepted(id: Seq<char>)
    ensures
        spec_anthropic_tool_call_id(id).len() <= 64,
        forall|i: int|
            0 <= i < spec_anthropic_tool_call_id(id).len() ==> is_id_char(
                #[trigger] spec_anthropic_tool_call_id(id)[i],
            ),
        spec_anthropic_tool_call_id(spec_anthropic_tool_call_id(id)) == spec_anthropic_tool_call_id(
            id,
        ),
{
    let r = spec_anthropic_tool_call_id(id);
    let s = sanitize_id(id);
    assert(s.len() == id.len());
    assert forall|i: int| 0 <= i < r.len() implies is_id_char(r[i]) by {
        assert(r[i] == s[i]);
    }
    assert(sanitize_id(r) =~= r);
}

/// `s` without trailing '_' characters.
pub open spec fn trim_end_underscores(s: Seq<char>) -> Seq<char>
    decreases s.len(),
{
    if s.len() > 0 && s.last() == '_' {
        trim_end_underscores(s.drop_last())
    } else {
        s
    }
}

/// One part of a Responses id: sanitised, cut to 64 characters, trailing '_' removed.
pub open spec fn spec_id_part(s: Seq<char>) -> Seq<char> {
    trim_end_underscores(take_at_most(sanitize_id(s), 64))
}

fn id_part(cs: &Vec<char>) -> (r: Vec<char>)
    ensures
        r@ == spec_id_part(cs@),
{
    let mut v = sanitize_prefix(cs, 64);
    while v.len() > 0 && v[v.len() - 1] == '_'
        invariant
            trim_end_underscores(v@) == spec_id_part(cs@),
        decreases v.len(),
    {
        let ghost old_v = v@;
        v.pop();
        assert(v@ == old_v.drop_last());
    }
    v
}

/// Item id for a call that came from another provider: `fc_` and a short hash, cut to 64.
pub open spec fn spec_foreign_item_id(item_id: Seq<char>) -> Seq<char> {
    take_at_most(seq!['f', 'c', '_'] + spec_short_hash(item_id), 64)
}

/// Position of the first '|' in `s`, if any.
pub open spec fn first_bar(s: Seq<char>) -> Option<int>
    decreases s.len(),
{
    if s.len() == 0 {
        None
    } else if s[0] == '|' {
        Some(0)
    } else {
        match first_bar(s.drop_first()) {
            Some(i) => Some(i + 1),
            None => None,
        }
    }
}

/// Whether `s` starts with `fc_`.
pub open spec fn starts_fc(s: Seq<char>) -> bool {
    s.len() >= 3 && s[0] == 'f' && s[1] == 'c' && s[2] == '_'
}

/// Responses tool-call id: a plain id is normalised as one part; a
/// composite `call|item` id keeps its call part normalised and gets an item
/// part that starts with `fc_` (hashed when the call came from another
/// provider or API).
pub open spec fn spec_responses_tool_call_id(id: Seq<char>, foreign: bool) -> Seq<char> {
    match first_bar(id) {
        None => spec_id_part(id),
        Some(b) => {
            let call = spec_id_part(id.take(b));
            let item_raw = id.skip(b + 1);
            let item = if foreign {
                spec_foreign_item_id(item_raw)
            } else {
                spec_id_part(item_raw)
            };
            let item2 = if starts_fc(item) {
                item
            } else {
                spec_id_part(seq!['f', 'c', '_'] + item)
            };
            call + seq!['|'] + item2
        },
    }
}

/// Where the first '|' of a text is, given that none comes before `i`.
pub(crate) proof fn lemma_first_bar(s: Seq<char>, i: int)
    requires
        0 <= i <= s.len(),
        forall|k: int| 0 <= k < i ==> s[k] != '|',
    ensures
        i < s.len() && s[i] == '|' ==> first_bar(s) == Some(i),
        i == s.len() ==> first_bar(s) is None,
    decreases i,
{
    if i > 0 {
        assert forall|k: int| 0 <= k < i - 1 implies s.drop_first()[k] != '|' by {
            assert(s.drop_first()[k] == s[k + 1]);
        }
        lemma_first_bar(s.drop_first(), i - 1);
    }
}

/// Normalises a tool-call id for OpenAI Responses; `foreign` tells whether
/// the source message came from another provider or API.
pub fn responses_tool_call_id(id: &str, foreign: bool) -> (r: String)
    ensures
        r@ == spec_responses_tool_call_id(id@, foreign),
{
    let cs = chars_of(id);
    let mut b: usize = 0;
    while b < cs.len() && cs[b] != '|'
        invariant
            b <= cs.len(),
            forall|k: int| 0 <= k < b ==> cs@[k] != '|',
        decreases cs.len() - b,
    {
        b += 1;
    }
    proof {
        lemma_first_bar(cs@, b as int);
    }
    if b == cs.len() {
        let v = id_part(&cs);
        return string_from_chars(&v);
    }
    let call_s = string_from_range(&cs, 0, b);
    let call_cs = chars_of(call_s.as_str());
    assert(cs@.subrange(0, b as int) == cs@.take(b as int));
    let call = id_part(&call_cs);
    let item_s = string_from_range(&cs, b + 1, cs.len());
    assert(cs@.subrange(b + 1, cs@.len() as int) == cs@.skip(b + 1));
    let item_cs = chars_of(item_s.as_str());
    let item: Vec<char> = if foreign {
        let h = short_hash(item_s.as_str());
        let mut t = String::new();
        push_str(&mut t, "fc_");
        proof {
            reveal_strlit("fc_");
        }
        push_str(&mut t, h.as_str());
        let tc = chars_of(t.as_str());
        let n = if tc.len() < 64 { tc.len() } else { 64 };
        let r = string_from_range(&tc, 0, n);
        assert(tc@.subrange(0, n as int) == take_at_most(tc@, 64));
        chars_of(r.as_str())
    } else {
        id_part(&item_cs)
    };
    let fc = item.len() >= 3 && item[0] == 'f' && item[1] == 'c' && item[2] == '_';
    let item2: Vec<char> = if fc {
        item
    } else {
        let mut t: Vec<char> = Vec::new();
        t.push('f');
        t.push('c');
        t.push('_');
        let mut j: usize = 0;
        while j < item.len()
            invariant
                j <= item.len(),
                t@ == seq!['f', 'c', '_'] + item@.take(j as int),
            decreases item.len() - j,
        {
            t.push(item[j]);
            assert(item@.take(j + 1) == item@.take(j as int).push(item@[j as int]));
            j += 1;
        }
        assert(item@.take(item.len() as int) == item@);
        id_part(&t)
    };
    let mut out = string_from_chars(&call);
    push_char(&mut out, '|');
    let item2_s = string_from_chars(&item2);
    push_str(&mut out, item2_s.as_str());
    out
}

} // verus!
