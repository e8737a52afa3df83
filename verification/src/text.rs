//! Character-level string helpers shared by the whole library.
use vstd::prelude::*;
use vstd::string::*;

verus! {

/// The characters of `s`, in order.
pub fn chars_of(s: &str) -> (r: Vec<char>)
    ensures
        r@ == s@,
{
    let mut out: Vec<char> = Vec::new();
    for c in it: s.chars()
        invariant
            out@ == it.seq().take(it.index() as int),
            it.seq() == s@,
    {
        out.push(c);
    }
    out
}

/// Appends one character to a `String` (std `String::push`).
#[verifier::external_body]
pub(crate) fn push_char(s: &mut String, c: char)
    ensures
        final(s)@ == old(s)@.push(c),
{
    s.push(c);
}

/// A `String` holding exactly the characters of `v`.
pub fn string_from_chars(v: &Vec<char>) -> (r: String)
    ensures
        r@ == v@,
{
    let mut out = String::new();
    let mut i: usize = 0;
    while i < v.len()
        invariant
            i <= v.len(),
            out@ == v@.take(i as int),
        decreases v.len() - i,
    {
        push_char(&mut out, v[i]);
        assert(v@.take(i + 1) == v@.take(i as int).push(v@[i as int]));
        i += 1;
    }
    assert(v@.take(v.len() as int) == v@);
    out
}

/// Appends `t` to `s`.
pub fn push_str(s: &mut String, t: &str)
    ensures
        final(s)@ == old(s)@ + t@,
{
    s.append(t);
}

/// Parts joined by a separator.
pub open spec fn spec_join(parts: Seq<Seq<char>>, sep: Seq<char>) -> Seq<char>
    decreases parts.len(),
{
    if parts.len() == 0 {
        Seq::empty()
    } else if parts.len() == 1 {
        parts[0]
    } else {
        spec_join(parts.drop_last(), sep) + sep + parts.last()
    }
}

/// Joining two non-empty lists of parts one after the other is joining
/// each and putting the separator between them.
pub proof fn lemma_join_concat(p: Seq<Seq<char>>, q: Seq<Seq<char>>, sep: Seq<char>)
    requires
        p.len() >= 1,
        q.len() >= 1,
    ensures
        spec_join(p + q, sep) == spec_join(p, sep) + sep + spec_join(q, sep),
    decreases q.len(),
{
    if q.len() == 1 {
        assert((p + q).drop_last() =~= p);
        assert((p + q).last() == q[0]);
    } else {
        lemma_join_concat(p, q.drop_last(), sep);
        assert((p + q).drop_last() =~= p + q.drop_last());
        assert((p + q).last() == q.last());
    }
}

/// Parts joined by newlines.
pub open spec fn spec_join_newline(parts: Seq<Seq<char>>) -> Seq<char> {
    spec_join(parts, seq!['\n'])
}

/// Joins `parts` with `sep` between consecutive parts.
pub fn join_with(parts: &Vec<String>, sep: &str) -> (r: String)
    ensures
        r@ == spec_join(parts@.map_values(|s: String| s@), sep@),
{
    let ghost views = parts@.map_values(|s: String| s@);
    let mut out = String::new();
    let mut i: usize = 0;
    while i < parts.len()
        invariant
            i <= parts.len(),
            views == parts@.map_values(|s: String| s@),
            out@ == spec_join(views.take(i as int), sep@),
        decreases parts.len() - i,
    {
        assert(views.take(i + 1).drop_last() == views.take(i as int));
        assert(views.take(i + 1).last() == parts@[i as int]@);
        if i != 0 {
            out.append(sep);
        }
        out.append(parts[i].as_str());
        if i == 0 {
            assert(views.take(1) == seq![views[0]]);
        }
        i += 1;
    }
    assert(views.take(parts.len() as int) == views);
    out
}

/// Joins `parts` with newlines.
pub fn join_with_newline(parts: &Vec<String>) -> (r: String)
    ensures
        r@ == spec_join_newline(parts@.map_values(|s: String| s@)),
{
    let nl = "\n";
    proof {
        reveal_strlit("\n");
    }
    assert(nl@ == seq!['\n']);
    join_with(parts, nl)
}

/// Unicode `White_Space` property, as used by `char::is_whitespace` and `str::trim`.
pub open spec fn is_ws(c: char) -> bool {
    let v = c as u32;
    (0x9 <= v && v <= 0xd) || v == 0x20 || v == 0x85 || v == 0xa0 || v == 0x1680 || (0x2000 <= v
        && v <= 0x200a) || v == 0x2028 || v == 0x2029 || v == 0x202f || v == 0x205f || v == 0x3000
}

/// Whether `c` is Unicode white space.
pub fn is_whitespace(c: char) -> (r: bool)
    ensures
        r == is_ws(c),
{
    let v = c as u32;
    (0x9 <= v && v <= 0xd) || v == 0x20 || v == 0x85 || v == 0xa0 || v == 0x1680 || (0x2000 <= v
        && v <= 0x200a) || v == 0x2028 || v == 0x2029 || v == 0x202f || v == 0x205f || v == 0x3000
}

/// `s` without leading white space.
pub open spec fn trim_start(s: Seq<char>) -> Seq<char>
    decreases s.len(),
{
    if s.len() > 0 && is_ws(s[0]) {
        trim_start(s.drop_first())
    } else {
        s
    }
}

/// `s` without trailing white space.
pub open spec fn trim_end(s: Seq<char>) -> Seq<char>
    decreases s.len(),
{
    if s.len() > 0 && is_ws(s.last()) {
        trim_end(s.drop_last())
    } else {
        s
    }
}

/// `s` without leading and trailing white space (`str::trim`).
pub open spec fn trim(s: Seq<char>) -> Seq<char> {
    trim_end(trim_start(s))
}

proof fn lemma_trim_start_skip(s: Seq<char>, i: int)
    requires
        0 <= i <= s.len(),
        forall|k: int| 0 <= k < i ==> is_ws(#[trigger] s[k]),
    ensures
        trim_start(s) == trim_start(s.subrange(i, s.len() as int)),
    decreases i,
{
    if i > 0 {
        assert(s.drop_first().subrange(i - 1, s.drop_first().len() as int) == s.subrange(i, s.len() as int));
        assert forall|k: int| 0 <= k < i - 1 implies is_ws(#[trigger] s.drop_first()[k]) by {
            assert(s.drop_first()[k] == s[k + 1]);
        }
        lemma_trim_start_skip(s.drop_first(), i - 1);
    } else {
        assert(s.subrange(0, s.len() as int) == s);
    }
}

proof fn lemma_trim_end_skip(s: Seq<char>, j: int)
    requires
        0 <= j <= s.len(),
        forall|k: int| j <= k < s.len() ==> is_ws(#[trigger] s[k]),
    ensures
        trim_end(s) == trim_end(s.subrange(0, j)),
    decreases s.len() - j,
{
    if j < s.len() {
        assert(s.drop_last().subrange(0, j) == s.subrange(0, j));
        assert forall|k: int| j <= k < s.drop_last().len() implies is_ws(#[trigger] s.drop_last()[k]) by {
            assert(s.drop_last()[k] == s[k]);
        }
        lemma_trim_end_skip(s.drop_last(), j);
    } else {
        assert(s.subrange(0, j) == s);
    }
}

/// Bounds `[start, end)` of the trimmed part of `cs`.
pub fn trim_bounds(cs: &Vec<char>) -> (r: (usize, usize))
    ensures
        r.0 <= r.1 <= cs.len(),
        cs@.subrange(r.0 as int, r.1 as int) == trim(cs@),
{
    let mut start: usize = 0;
    while start < cs.len() && is_whitespace(cs[start])
        invariant
            start <= cs.len(),
            forall|k: int| 0 <= k < start ==> is_ws(#[trigger] cs@[k]),
        decreases cs.len() - start,
    {
        start += 1;
    }
    proof {
        lemma_trim_start_skip(cs@, start as int);
    }
    let ghost rest = cs@.subrange(start as int, cs.len() as int);
    assert(start < cs.len() ==> !is_ws(rest[0]));
    assert(trim_start(rest) == rest);
    let mut end: usize = cs.len();
    while end > start && is_whitespace(cs[end - 1])
        invariant
            start <= end <= cs.len(),
            forall|k: int| end <= k < cs.len() ==> is_ws(#[trigger] cs@[k]),
        decreases end,
    {
        end -= 1;
    }
    proof {
        let rest = cs@.subrange(start as int, cs.len() as int);
        assert forall|k: int| (end - start) <= k < rest.len() implies is_ws(#[trigger] rest[k]) by {
            assert(rest[k] == cs@[k + start]);
        }
        lemma_trim_end_skip(rest, end - start);
        assert(rest.subrange(0, end - start) == cs@.subrange(start as int, end as int));
        let t = cs@.subrange(start as int, end as int);
        assert(t.len() > 0 ==> t.last() == cs@[end - 1]);
        assert(trim_end(t) == t);
    }
    (start, end)
}

/// Whether `s` is empty or white space only.
pub fn is_blank(s: &str) -> (r: bool)
    ensures
        r == (trim(s@).len() == 0),
{
    let cs = chars_of(s);
    let (a, b) = trim_bounds(&cs);
    a == b
}

/// The characters `cs[from..to]` as a `String`.
pub fn string_from_range(cs: &Vec<char>, from: usize, to: usize) -> (r: String)
    requires
        from <= to <= cs.len(),
    ensures
        r@ == cs@.subrange(from as int, to as int),
{
    let mut out = String::new();
    let mut i: usize = from;
    while i < to
        invariant
            from <= i <= to <= cs.len(),
            out@ == cs@.subrange(from as int, i as int),
        decreases to - i,
    {
        push_char(&mut out, cs[i]);
        assert(cs@.subrange(from as int, i + 1) == cs@.subrange(from as int, i as int).push(cs@[i as int]));
        i += 1;
    }
    out
}

/// `s` trimmed of white space on both ends.
pub fn trimmed(s: &str) -> (r: String)
    ensures
        r@ == trim(s@),
{
    let cs = chars_of(s);
    let (a, b) = trim_bounds(&cs);
    string_from_range(&cs, a, b)
}

/// `s` truncated to `max` characters followed by "...", or `s` itself when it is short enough.
pub open spec fn spec_truncate(s: Seq<char>, max: nat) -> Seq<char> {
    if s.len() > max {
        s.take(max as int) + seq!['.', '.', '.']
    } else {
        s
    }
}

/// Shortens long text for log lines.
pub fn truncate_str(s: &str, max: usize) -> (r: String)
    ensures
        r@ == spec_truncate(s@, max as nat),
{
    let cs = chars_of(s);
    if cs.len() > max {
        let mut out = string_from_range(&cs, 0, max);
        let dots = "...";
        proof {
            reveal_strlit("...");
        }
        out.append(dots);
        assert(cs@.subrange(0, max as int) == cs@.take(max as int));
        out
    } else {
        s.to_string()
    }
}

/// Removes unpaired UTF-16 surrogates.  A Rust string is valid UTF-8
/// and can hold none, so the text is returned unchanged.
pub fn sanitize_surrogates(text: &str) -> (r: String)
    ensures
        r@ == text@,
{
    text.to_string()
}

/// Decimal rendering of `n`, most significant digit first.
pub open spec fn decimal(n: nat) -> Seq<char>
    decreases n,
{
    if n < 10 {
        seq![((n + 48) as u8) as char]
    } else {
        decimal(n / 10).push((((n % 10) + 48) as u8) as char)
    }
}

/// Decimal rendering of a `usize` (as `format!("{}", n)` gives it).
pub fn decimal_string(n: usize) -> (r: String)
    ensures
        r@ == decimal(n as nat),
    decreases n,
{
    if n < 10 {
        let mut s = String::new();
        push_char(&mut s, ((n + 48) as u8) as char);
        s
    } else {
        let mut s = decimal_string(n / 10);
        push_char(&mut s, (((n % 10) + 48) as u8) as char);
        s
    }
}

/// Decimal rendering of a `u64`.
pub fn decimal_u64(n: u64) -> (r: String)
    ensures
        r@ == decimal(n as nat),
    decreases n,
{
    if n < 10 {
        let mut s = String::new();
        push_char(&mut s, ((n + 48) as u8) as char);
        s
    } else {
        let mut s = decimal_u64(n / 10);
        push_char(&mut s, (((n % 10) + 48) as u8) as char);
        s
    }
}

/// Decimal rendering of an `i64`, with a '-' when negative (as `i64::to_string`).
pub open spec fn decimal_i64(n: i64) -> Seq<char> {
    if n < 0 {
        seq!['-'] + decimal((-(n as int)) as nat)
    } else {
        decimal(n as nat)
    }
}

/// Renders an `i64` in decimal.
pub fn i64_string(n: i64) -> (r: String)
    ensures
        r@ == decimal_i64(n),
{
    if n < 0 {
        let m: u64 = if n == i64::MIN {
            0x8000_0000_0000_0000u64
        } else {
            (-n) as u64
        };
        let mut s = String::new();
        push_char(&mut s, '-');
        let d = decimal_u64(m);
        push_str(&mut s, d.as_str());
        s
    } else {
        decimal_u64(n as u64)
    }
}

} // verus!
