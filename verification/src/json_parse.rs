//! Tolerant JSON handling for streamed tool-call arguments: repair of
//! malformed string literals, parsing with a repair retry, and recovery
//! of a value from a truncated document.
//!
//! JSON values are handled as text: a successful parse yields the
//! serialised form of the parsed value (`json_canonical`).
use vstd::prelude::*;
use crate::json_value::{json_canonical, json_error, parse_json};
use crate::text::{chars_of, push_char, push_str, string_from_chars, string_from_range, is_ws,
    is_whitespace, trim, trim_bounds, is_blank};

verus! {

/// Control characters `U+0000..=U+001F` must be escaped inside JSON strings.
pub open spec fn is_control(c: char) -> bool {
    (c as u32) <= 0x1f
}

fn is_control_character(c: char) -> (r: bool)
    ensures
        r == is_control(c),
{
    (c as u32) <= 0x1f
}

/// Lowercase hexadecimal digit for `d < 16`.
pub open spec fn hex_digit(d: u32) -> char {
    if d < 10 {
        ((d + 48) as u8) as char
    } else {
        ((d + 87) as u8) as char
    }
}

/// Lowercase hexadecimal rendering of `n` (no padding).
pub open spec fn hex_lower(n: u32) -> Seq<char>
    decreases n,
{
    if n < 16 {
        seq![hex_digit(n)]
    } else {
        hex_lower(n / 16) + seq![hex_digit(n % 16)]
    }
}

/// `d` left-padded with '0' to at least four characters.
pub open spec fn pad4(d: Seq<char>) -> Seq<char> {
    if d.len() < 4 {
        Seq::new((4 - d.len()) as nat, |i: int| '0') + d
    } else {
        d
    }
}

/// JSON escape of a character inside a string literal.
pub open spec fn spec_escape(c: char) -> Seq<char> {
    if c == '\u{8}' {
        seq!['\\', 'b']
    } else if c == '\u{c}' {
        seq!['\\', 'f']
    } else if c == '\n' {
        seq!['\\', 'n']
    } else if c == '\r' {
        seq!['\\', 'r']
    } else if c == '\t' {
        seq!['\\', 't']
    } else {
        seq!['\\', 'u'] + pad4(hex_lower(c as u32))
    }
}

fn hex_string(n: u32) -> (r: Vec<char>)
    ensures
        r@ == hex_lower(n),
{
    let mut out: Vec<char> = Vec::new();
    let mut m: u32 = n;
    let d0: u32 = m % 16;
    let c0: char = if d0 < 10 { ((d0 + 48) as u8) as char } else { ((d0 + 87) as u8) as char };
    out.push(c0);
    m = m / 16;
    assert(hex_lower(n) == (if n < 16 { Seq::<char>::empty() } else { hex_lower(n / 16) }) + out@);
    while m > 0
        invariant
            hex_lower(n) == hex_lower(m) + out@ || (m == 0 && hex_lower(n) == out@),
            m > 0 ==> hex_lower(n) == hex_lower(m) + out@,
            m == 0 ==> hex_lower(n) == out@,
        decreases m,
    {
        let d: u32 = m % 16;
        let c: char = if d < 10 { ((d + 48) as u8) as char } else { ((d + 87) as u8) as char };
        let ghost old_out = out@;
        out.insert(0, c);
        assert(out@ == seq![c] + old_out);
        if m >= 16 {
            assert(hex_lower(m) == hex_lower(m / 16) + seq![hex_digit(m % 16)]);
        } else {
            assert(hex_lower(m) == seq![hex_digit(m)]);
        }
        m = m / 16;
    }
    out
}

/// JSON escape sequence for a control character.
fn escape_control_character(c: char) -> (r: String)
    ensures
        r@ == spec_escape(c),
{
    let mut out = String::new();
    push_char(&mut out, '\\');
    if c == '\u{8}' {
        push_char(&mut out, 'b');
    } else if c == '\u{c}' {
        push_char(&mut out, 'f');
    } else if c == '\n' {
        push_char(&mut out, 'n');
    } else if c == '\r' {
        push_char(&mut out, 'r');
    } else if c == '\t' {
        push_char(&mut out, 't');
    } else {
        push_char(&mut out, 'u');
        let digits = hex_string(c as u32);
        let mut k: usize = digits.len();
        let ghost base = out@;
        while k < 4
            invariant
                digits@.len() <= k <= 4 || (k == digits@.len() && k >= 4),
                out@ == base + Seq::new((k - digits@.len()) as nat, |i: int| '0'),
            decreases 4 - k,
        {
            push_char(&mut out, '0');
            assert(Seq::new((k + 1 - digits@.len()) as nat, |i: int| '0') == Seq::new(
                (k - digits@.len()) as nat,
                |i: int| '0',
            ).push('0'));
            k += 1;
        }
        let ghost zeros = out@;
        let mut j: usize = 0;
        while j < digits.len()
            invariant
                j <= digits.len(),
                out@ == zeros + digits@.take(j as int),
            decreases digits.len() - j,
        {
            push_char(&mut out, digits[j]);
            assert(digits@.take(j + 1) == digits@.take(j as int).push(digits@[j as int]));
            j += 1;
        }
        assert(digits@.take(digits.len() as int) == digits@);
        assert(pad4(digits@) == zeros.subrange(2, zeros.len() as int) + digits@) by {
            if digits@.len() >= 4 {
                assert(zeros == base);
            }
        }
    }
    out
}

/// Escape characters that may follow a backslash in JSON (besides `u`).
pub open spec fn is_valid_escape(c: char) -> bool {
    c == '"' || c == '\\' || c == '/' || c == 'b' || c == 'f' || c == 'n' || c == 'r' || c == 't'
}

/// ASCII hexadecimal digit.
pub open spec fn is_hex(c: char) -> bool {
    ('0' <= c && c <= '9') || ('a' <= c && c <= 'f') || ('A' <= c && c <= 'F')
}

fn is_ascii_hexdigit(c: char) -> (r: bool)
    ensures
        r == is_hex(c),
{
    ('0' <= c && c <= '9') || ('a' <= c && c <= 'f') || ('A' <= c && c <= 'F')
}

/// Four hexadecimal digits start at `i`.
pub open spec fn hex4_at(cs: Seq<char>, i: int) -> bool {
    i + 4 <= cs.len() && is_hex(cs[i]) && is_hex(cs[i + 1]) && is_hex(cs[i + 2]) && is_hex(cs[i + 3])
}

/// Repair of `cs[i..]`, `in_str` telling whether position `i` is inside a string literal.
///
/// Inside string literals raw control characters are escaped, a backslash
/// that does not start a valid escape is doubled, a `\u` with four hex
/// digits is kept, and a `\u` without them is kept as `\u`.  Outside string
/// literals every character is kept.
pub open spec fn repair_from(cs: Seq<char>, i: int, in_str: bool) -> Seq<char>
    decreases cs.len() - i,
{
    if i < 0 || i >= cs.len() {
        Seq::empty()
    } else {
        let c = cs[i];
        if !in_str {
            seq![c] + repair_from(cs, i + 1, c == '"')
        } else if c == '"' {
            seq![c] + repair_from(cs, i + 1, false)
        } else if c == '\\' {
            if i + 1 >= cs.len() {
                seq!['\\', '\\'] + repair_from(cs, i + 1, true)
            } else if cs[i + 1] == 'u' {
                if hex4_at(cs, i + 2) {
                    seq!['\\', 'u'] + cs.subrange(i + 2, i + 6) + repair_from(cs, i + 6, true)
                } else {
                    seq!['\\', 'u'] + repair_from(cs, i + 2, true)
                }
            } else if is_valid_escape(cs[i + 1]) {
                seq!['\\', cs[i + 1]] + repair_from(cs, i + 2, true)
            } else {
                seq!['\\', '\\'] + repair_from(cs, i + 1, true)
            }
        } else if is_control(c) {
            spec_escape(c) + repair_from(cs, i + 1, true)
        } else {
            seq![c] + repair_from(cs, i + 1, true)
        }
    }
}

/// The repaired text of a whole document.
pub open spec fn spec_repair(s: Seq<char>) -> Seq<char> {
    repair_from(s, 0, false)
}

proof fn lemma_hex_digit_is_hex(d: u32)
    requires
        d < 16,
    ensures
        is_hex(hex_digit(d)),
{
    assert(d < 10 ==> hex_digit(d) as int == d + 48);
    assert(d >= 10 ==> hex_digit(d) as int == d + 87);
}

/// The escape of a control character is a well-formed escape: a backslash
/// and a simple escape letter, or `\u` and four hexadecimal digits.
proof fn lemma_escape_shape(c: char)
    requires
        is_control(c),
    ensures
        spec_escape(c).len() >= 2,
        spec_escape(c)[0] == '\\',
        spec_escape(c)[1] == 'u' ==> spec_escape(c).len() == 6 && hex4_at(spec_escape(c), 2),
        spec_escape(c)[1] != 'u' ==> spec_escape(c).len() == 2 && is_valid_escape(spec_escape(c)[1]),
{
    if c == '\u{8}' || c == '\u{c}' || c == '\n' || c == '\r' || c == '\t' {
    } else {
        let v = c as u32;
        let h = hex_lower(v);
        if v < 16 {
            lemma_hex_digit_is_hex(v);
            assert(h == seq![hex_digit(v)]);
        } else {
            lemma_hex_digit_is_hex(v / 16);
            lemma_hex_digit_is_hex(v % 16);
            assert(v / 16 == 1);
            assert(hex_lower(v / 16) == seq![hex_digit(v / 16)]);
            assert(h == seq![hex_digit(v / 16), hex_digit(v % 16)]);
        }
        let p = pad4(h);
        assert(p.len() == 4);
        assert(forall|k: int| 0 <= k < 4 ==> is_hex(#[trigger] p[k]));
        let e = spec_escape(c);
        assert(e == seq!['\\', 'u'] + p);
        assert(e[2] == p[0] && e[3] == p[1] && e[4] == p[2] && e[5] == p[3]);
    }
}

/// A repaired string tail that starts with a hexadecimal digit starts with
/// that same character of the input, copied as it was.
proof fn lemma_repair_hex_head(cs: Seq<char>, j: int)
    requires
        0 <= j,
        repair_from(cs, j, true).len() >= 1,
        is_hex(repair_from(cs, j, true)[0]),
    ensures
        j < cs.len(),
        cs[j] == repair_from(cs, j, true)[0],
        repair_from(cs, j, true) == seq![cs[j]] + repair_from(cs, j + 1, true),
{
    let c = cs[j];
    if c == '\\' {
        assert(repair_from(cs, j, true)[0] == '\\');
    } else if c != '"' && is_control(c) {
        lemma_escape_shape(c);
        assert(repair_from(cs, j, true)[0] == '\\');
    }
}

/// A repaired string tail that starts with four hexadecimal digits comes
/// from an input that has them at the same place.
proof fn lemma_repair_hex4(cs: Seq<char>, j: int)
    requires
        0 <= j,
        hex4_at(repair_from(cs, j, true), 0),
    ensures
        hex4_at(cs, j),
{
    let r0 = repair_from(cs, j, true);
    lemma_repair_hex_head(cs, j);
    let r1 = repair_from(cs, j + 1, true);
    assert(r1[0] == r0[1] && r1[1] == r0[2] && r1[2] == r0[3]);
    lemma_repair_hex_head(cs, j + 1);
    let r2 = repair_from(cs, j + 2, true);
    assert(r2[0] == r1[1] && r2[1] == r1[2]);
    lemma_repair_hex_head(cs, j + 2);
    let r3 = repair_from(cs, j + 3, true);
    assert(r3[0] == r2[1]);
    lemma_repair_hex_head(cs, j + 3);
}

/// Repairing the output of a repair, from the same state, changes nothing.
proof fn lemma_repair_stable(cs: Seq<char>, i: int, st: bool, x: Seq<char>, j: int)
    requires
        0 <= i,
        0 <= j <= x.len(),
        x.subrange(j, x.len() as int) == repair_from(cs, i, st),
    ensures
        repair_from(x, j, st) == repair_from(cs, i, st),
    decreases cs.len() - i,
{
    let r = repair_from(cs, i, st);
    let xs = x.subrange(j, x.len() as int);
    if i >= cs.len() {
        assert(xs.len() == 0);
    } else {
        let c = cs[i];
        assert(xs.len() >= 1);
        assert(x[j] == xs[0]);
        if !st || c == '"' {
            let st2 = if !st { c == '"' } else { false };
            assert(r == seq![c] + repair_from(cs, i + 1, st2));
            assert(x.subrange(j + 1, x.len() as int) =~= xs.subrange(1, xs.len() as int));
            assert(xs.subrange(1, xs.len() as int) =~= repair_from(cs, i + 1, st2));
            lemma_repair_stable(cs, i + 1, st2, x, j + 1);
            assert(repair_from(x, j, st) =~= seq![c] + repair_from(x, j + 1, st2));
        } else if c == '\\' {
            assert(xs.len() >= 2);
            assert(x[j + 1] == xs[1]);
            if i + 1 >= cs.len() {
                assert(r == seq!['\\', '\\'] + repair_from(cs, i + 1, true));
                assert(x.subrange(j + 2, x.len() as int) =~= xs.subrange(2, xs.len() as int));
                assert(xs.subrange(2, xs.len() as int) =~= repair_from(cs, i + 1, true));
                lemma_repair_stable(cs, i + 1, true, x, j + 2);
                assert(repair_from(x, j, st) =~= seq!['\\', '\\'] + repair_from(x, j + 2, true));
            } else if cs[i + 1] == 'u' {
                if hex4_at(cs, i + 2) {
                    let h = cs.subrange(i + 2, i + 6);
                    assert(r == seq!['\\', 'u'] + h + repair_from(cs, i + 6, true));
                    assert(xs.len() >= 6);
                    assert forall|k: int| 0 <= k < 4 implies x.subrange(j + 2, j + 6)[k] == h[k] by {
                        assert(x.subrange(j + 2, j + 6)[k] == x[j + 2 + k]);
                        assert(x[j + 2 + k] == xs[2 + k]);
                        assert(r[2 + k] == (seq!['\\', 'u'] + h)[2 + k]);
                        assert((seq!['\\', 'u'] + h)[2 + k] == h[k]);
                    }
                    assert(x.subrange(j + 2, j + 6) =~= h);
                    assert(hex4_at(x, j + 2)) by {
                        assert(x[j + 2] == h[0] && x[j + 3] == h[1] && x[j + 4] == h[2] && x[j + 5] == h[3]);
                    }
                    assert(x.subrange(j + 6, x.len() as int) =~= xs.subrange(6, xs.len() as int));
                    assert(xs.subrange(6, xs.len() as int) =~= repair_from(cs, i + 6, true));
                    lemma_repair_stable(cs, i + 6, true, x, j + 6);
                    assert(repair_from(x, j, st) =~= seq!['\\', 'u'] + x.subrange(j + 2, j + 6)
                        + repair_from(x, j + 6, true));
                } else {
                    let rest = repair_from(cs, i + 2, true);
                    assert(r == seq!['\\', 'u'] + rest);
                    assert(x.subrange(j + 2, x.len() as int) =~= xs.subrange(2, xs.len() as int));
                    assert(xs.subrange(2, xs.len() as int) =~= rest);
                    if hex4_at(x, j + 2) {
                        assert(rest[0] == x[j + 2] && rest[1] == x[j + 3] && rest[2] == x[j + 4]
                            && rest[3] == x[j + 5]);
                        assert(hex4_at(rest, 0));
                        lemma_repair_hex4(cs, i + 2);
                    }
                    lemma_repair_stable(cs, i + 2, true, x, j + 2);
                    assert(repair_from(x, j, st) =~= seq!['\\', 'u'] + repair_from(x, j + 2, true));
                }
            } else if is_valid_escape(cs[i + 1]) {
                assert(r == seq!['\\', cs[i + 1]] + repair_from(cs, i + 2, true));
                assert(x.subrange(j + 2, x.len() as int) =~= xs.subrange(2, xs.len() as int));
                assert(xs.subrange(2, xs.len() as int) =~= repair_from(cs, i + 2, true));
                lemma_repair_stable(cs, i + 2, true, x, j + 2);
                assert(repair_from(x, j, st) =~= seq!['\\', x[j + 1]] + repair_from(x, j + 2, true));
            } else {
                assert(r == seq!['\\', '\\'] + repair_from(cs, i + 1, true));
                assert(x.subrange(j + 2, x.len() as int) =~= xs.subrange(2, xs.len() as int));
                assert(xs.subrange(2, xs.len() as int) =~= repair_from(cs, i + 1, true));
                lemma_repair_stable(cs, i + 1, true, x, j + 2);
                assert(repair_from(x, j, st) =~= seq!['\\', '\\'] + repair_from(x, j + 2, true));
            }
        } else if is_control(c) {
            lemma_escape_shape(c);
            let e = spec_escape(c);
            let rest = repair_from(cs, i + 1, true);
            assert(r == e + rest);
            assert(x[j + 1] == xs[1]);
            if e[1] == 'u' {
                assert forall|k: int| 0 <= k < 4 implies #[trigger] x.subrange(j + 2, j + 6)[k] == e[2 + k] by {
                    assert(x.subrange(j + 2, j + 6)[k] == x[j + 2 + k]);
                    assert(x[j + 2 + k] == xs[2 + k]);
                    assert(r[2 + k] == e[2 + k]);
                }
                assert(x.subrange(j + 2, j + 6) =~= e.subrange(2, 6));
                assert(hex4_at(x, j + 2)) by {
                    let w = x.subrange(j + 2, j + 6);
                    assert(w[0] == x[j + 2] && w[1] == x[j + 3] && w[2] == x[j + 4] && w[3] == x[j + 5]);
                    assert(w[0] == e[2] && w[1] == e[3] && w[2] == e[4] && w[3] == e[5]);
                }
                assert(x.subrange(j + 6, x.len() as int) =~= xs.subrange(6, xs.len() as int));
                assert(xs.subrange(6, xs.len() as int) =~= rest);
                lemma_repair_stable(cs, i + 1, true, x, j + 6);
                assert(seq!['\\', 'u'] + e.subrange(2, 6) =~= e);
                assert(repair_from(x, j, st) =~= seq!['\\', 'u'] + x.subrange(j + 2, j + 6)
                    + repair_from(x, j + 6, true));
            } else {
                assert(x.subrange(j + 2, x.len() as int) =~= xs.subrange(2, xs.len() as int));
                assert(xs.subrange(2, xs.len() as int) =~= rest);
                lemma_repair_stable(cs, i + 1, true, x, j + 2);
                assert(seq!['\\', e[1]] =~= e);
                assert(repair_from(x, j, st) =~= seq!['\\', x[j + 1]] + repair_from(x, j + 2, true));
            }
        } else {
            assert(r == seq![c] + repair_from(cs, i + 1, true));
            assert(x.subrange(j + 1, x.len() as int) =~= xs.subrange(1, xs.len() as int));
            assert(xs.subrange(1, xs.len() as int) =~= repair_from(cs, i + 1, true));
            lemma_repair_stable(cs, i + 1, true, x, j + 1);
            assert(repair_from(x, j, st) =~= seq![c] + repair_from(x, j + 1, true));
        }
    }
}

/// Repairing a repaired document changes nothing.
pub proof fn lemma_repair_idempotent(s: Seq<char>)
    ensures
        spec_repair(spec_repair(s)) == spec_repair(s),
{
    let r = spec_repair(s);
    assert(r.subrange(0, r.len() as int) =~= r);
    lemma_repair_stable(s, 0, false, r, 0);
}

/// Repairs malformed JSON string literals: escapes raw control characters
/// inside strings and doubles backslashes that start no valid escape.
pub fn repair_json(json: &str) -> (r: String)
    ensures
        r@ == spec_repair(json@),
{
    let cs = chars_of(json);
    let n = cs.len();
    let mut out = String::new();
    let mut in_string = false;
    let mut index: usize = 0;
    while index < n
        invariant
            n == cs@.len(),
            index <= n,
            out@ + repair_from(cs@, index as int, in_string) == spec_repair(cs@),
        decreases n - index,
    {
        let c = cs[index];
        let ghost rest = repair_from(cs@, index as int, in_string);
        let ghost prev = out@;
        if !in_string {
            push_char(&mut out, c);
            if c == '"' {
                in_string = true;
            }
            index += 1;
            assert(out@ + repair_from(cs@, index as int, in_string) == prev + rest);
            continue;
        }
        if c == '"' {
            push_char(&mut out, c);
            in_string = false;
            index += 1;
            assert(out@ + repair_from(cs@, index as int, in_string) == prev + rest);
            continue;
        }
        if c == '\\' {
            if index + 1 >= n {
                push_char(&mut out, '\\');
                push_char(&mut out, '\\');
                index += 1;
                assert(out@ + repair_from(cs@, index as int, in_string) == prev + rest);
                continue;
            }
            let next = cs[index + 1];
            if next == 'u' {
                if n - index >= 6 && is_ascii_hexdigit(cs[index + 2]) && is_ascii_hexdigit(cs[index + 3])
                    && is_ascii_hexdigit(cs[index + 4]) && is_ascii_hexdigit(cs[index + 5]) {
                    push_char(&mut out, '\\');
                    push_char(&mut out, 'u');
                    push_char(&mut out, cs[index + 2]);
                    push_char(&mut out, cs[index + 3]);
                    push_char(&mut out, cs[index + 4]);
                    push_char(&mut out, cs[index + 5]);
                    assert(cs@.subrange(index + 2, index + 6) == seq![cs@[index + 2], cs@[index + 3], cs@[index + 4], cs@[index + 5]]);
                    index += 6;
                    assert(out@ + repair_from(cs@, index as int, in_string) == prev + rest);
                    continue;
                }
                push_char(&mut out, '\\');
                push_char(&mut out, 'u');
                index += 2;
                assert(out@ + repair_from(cs@, index as int, in_string) == prev + rest);
                continue;
            }
            if next == '"' || next == '\\' || next == '/' || next == 'b' || next == 'f' || next == 'n'
                || next == 'r' || next == 't' {
                push_char(&mut out, '\\');
                push_char(&mut out, next);
                index += 2;
                assert(out@ + repair_from(cs@, index as int, in_string) == prev + rest);
                continue;
            }
            push_char(&mut out, '\\');
            push_char(&mut out, '\\');
            index += 1;
            assert(out@ + repair_from(cs@, index as int, in_string) == prev + rest);
            continue;
        }
        if is_control_character(c) {
            let e = escape_control_character(c);
            push_str(&mut out, e.as_str());
        } else {
            push_char(&mut out, c);
        }
        index += 1;
        assert(out@ + repair_from(cs@, index as int, in_string) == prev + rest);
    }
    out
}

/// Parses `s` (`serde_json::from_str::<Value>`) and writes the value back
/// (`Value::to_string`); the error is the message of `serde_json`'s error.
pub(crate) fn json_from_str(s: &str) -> (r: Result<String, String>)
    ensures
        r is Ok <==> json_canonical(s@) is Some,
        r matches Ok(t) ==> Some(t@) == json_canonical(s@),
        r matches Err(m) ==> m@ == json_error(s@),
{
    match parse_json(s) {
        Ok((_, t)) => Ok(t),
        Err(e) => Err(e),
    }
}

/// A JSON document that could not be parsed, with the parser's message.
pub struct JsonError {
    pub message: String,
}

/// Parses `s`, and when that fails retries once on its repaired form.
pub open spec fn spec_parse_with_repair(s: Seq<char>) -> Option<Seq<char>> {
    match json_canonical(s) {
        Some(v) => Some(v),
        None => {
            let rep = spec_repair(s);
            if rep != s && json_canonical(rep) is Some {
                json_canonical(rep)
            } else {
                None
            }
        },
    }
}

/// Parses a JSON document; on failure repairs its string literals and tries again.
/// The error is the one of the first attempt.
pub fn parse_json_with_repair(json: &str) -> (r: Result<String, JsonError>)
    ensures
        r is Ok <==> spec_parse_with_repair(json@) is Some,
        r matches Ok(v) ==> Some(v@) == spec_parse_with_repair(json@),
        r matches Err(e) ==> e.message@ == json_error(json@),
{
    match json_from_str(json) {
        Ok(v) => Ok(v),
        Err(e) => {
            let repaired = repair_json(json);
            let original = json.to_string();
            if repaired != original {
                match json_from_str(repaired.as_str()) {
                    Ok(v) => {
                        return Ok(v);
                    },
                    Err(_) => {},
                }
            }
            Err(JsonError { message: e })
        },
    }
}

/// Progress of the scan of a possibly truncated document.
pub struct ScanState {
    /// Positions (in characters) after which the prefix ends on a complete
    /// token, with the structures still open there.
    pub points: Seq<(int, Seq<char>)>,
    pub stack: Seq<char>,
    pub in_string: bool,
    pub escaped: bool,
    pub in_token: bool,
    /// A closing bracket did not match the innermost open structure.
    pub failed: bool,
}

pub open spec fn scan_init() -> ScanState {
    ScanState {
        points: Seq::empty(),
        stack: Seq::empty(),
        in_string: false,
        escaped: false,
        in_token: false,
        failed: false,
    }
}

/// Characters that continue a bare token (number or literal).
pub open spec fn is_token_char(c: char) -> bool {
    ('0' <= c && c <= '9') || ('a' <= c && c <= 'z') || ('A' <= c && c <= 'Z') || c == '.' || c
        == '-' || c == '+'
}

/// Scan step on character `c` at position `i`.
pub open spec fn scan_step(st: ScanState, c: char, i: int) -> ScanState {
    if st.failed {
        st
    } else if st.in_string {
        if st.escaped {
            ScanState { escaped: false, ..st }
        } else if c == '\\' {
            ScanState { escaped: true, ..st }
        } else if c == '"' {
            ScanState { in_string: false, points: st.points.push((i + 1, st.stack)), ..st }
        } else {
            st
        }
    } else if st.in_token && is_token_char(c) {
        st
    } else {
        let st1 = ScanState { in_token: false, ..st };
        if c == '"' {
            ScanState { in_string: true, ..st1 }
        } else if c == '{' || c == '[' {
            let stack = st1.stack.push(c);
            ScanState { stack, points: st1.points.push((i + 1, stack)), ..st1 }
        } else if c == '}' || c == ']' {
            if st1.stack.len() > 0 && ((st1.stack.last() == '{' && c == '}') || (st1.stack.last()
                == '[' && c == ']')) {
                let stack = st1.stack.drop_last();
                ScanState { stack, points: st1.points.push((i + 1, stack)), ..st1 }
            } else {
                ScanState { failed: true, ..st1 }
            }
        } else if c == ',' || c == ':' {
            ScanState { points: st1.points.push((i + 1, st1.stack)), ..st1 }
        } else if is_ws(c) {
            st1
        } else {
            ScanState { in_token: true, ..st1 }
        }
    }
}

/// State after scanning the first `n` characters of `cs`.
pub open spec fn scan(cs: Seq<char>, n: int) -> ScanState
    decreases n,
{
    if n <= 0 {
        scan_init()
    } else {
        scan_step(scan(cs, n - 1), cs[n - 1], n - 1)
    }
}

/// Closing characters for the open structures, innermost first.
pub open spec fn closers(stack: Seq<char>) -> Seq<char>
    decreases stack.len(),
{
    if stack.len() == 0 {
        Seq::empty()
    } else {
        seq![if stack.last() == '{' { '}' } else { ']' }] + closers(stack.drop_last())
    }
}

/// `s` without trailing ',' and ':' characters.
pub open spec fn strip_separators(s: Seq<char>) -> Seq<char>
    decreases s.len(),
{
    if s.len() > 0 && (s.last() == ',' || s.last() == ':') {
        strip_separators(s.drop_last())
    } else {
        s
    }
}

/// Candidates closed at the recorded points, from the point at index `k - 1` down to the first.
pub open spec fn point_candidates(cs: Seq<char>, points: Seq<(int, Seq<char>)>, k: int) -> Seq<Seq<char>>
    decreases k,
{
    if k <= 0 || k > points.len() {
        Seq::empty()
    } else {
        let p = points[k - 1];
        let cand = strip_separators(cs.take(p.0));
        let rest = point_candidates(cs, points, k - 1);
        if trim(cand).len() == 0 {
            rest
        } else {
            seq![cand + closers(p.1)] + rest
        }
    }
}

/// Completions of a truncated document, in the order they are tried: the
/// document with its open string closed (when it ends inside a string), then
/// each prefix ending on a complete token, longest first, with the open
/// structures closed.
pub open spec fn partial_candidates(cs: Seq<char>) -> Seq<Seq<char>> {
    let st = scan(cs, cs.len() as int);
    let first = if st.in_string {
        seq![cs + seq!['"'] + closers(st.stack)]
    } else {
        Seq::empty()
    };
    first + point_candidates(cs, st.points, st.points.len() as int)
}

/// The parse of the first candidate that parses.
pub open spec fn first_parse(cands: Seq<Seq<char>>) -> Option<Seq<char>>
    decreases cands.len(),
{
    if cands.len() == 0 {
        None
    } else {
        match json_canonical(cands[0]) {
            Some(v) => Some(v),
            None => first_parse(cands.drop_first()),
        }
    }
}

/// Value recovered from a truncated document.
pub open spec fn spec_partial_parse(cs: Seq<char>) -> Option<Seq<char>> {
    if scan(cs, cs.len() as int).failed {
        None
    } else {
        first_parse(partial_candidates(cs))
    }
}

/// View of the recorded scan points.
pub open spec fn points_view(v: Seq<(usize, Vec<char>)>) -> Seq<(int, Seq<char>)> {
    v.map_values(|p: (usize, Vec<char>)| (p.0 as int, p.1@))
}

fn copy_chars(v: &Vec<char>) -> (r: Vec<char>)
    ensures
        r@ == v@,
{
    let mut out: Vec<char> = Vec::new();
    let mut i: usize = 0;
    while i < v.len()
        invariant
            i <= v.len(),
            out@ == v@.take(i as int),
        decreases v.len() - i,
    {
        out.push(v[i]);
        assert(v@.take(i + 1) == v@.take(i as int).push(v@[i as int]));
        i += 1;
    }
    assert(v@.take(v.len() as int) == v@);
    out
}

fn closers_of(stack: &Vec<char>) -> (r: Vec<char>)
    ensures
        r@ == closers(stack@),
{
    let mut out: Vec<char> = Vec::new();
    let mut j: usize = stack.len();
    assert(stack@.take(j as int) == stack@);
    while j > 0
        invariant
            j <= stack.len(),
            out@ + closers(stack@.take(j as int)) == closers(stack@),
        decreases j,
    {
        let open = stack[j - 1];
        let close = if open == '{' { '}' } else { ']' };
        let ghost t = stack@.take(j as int);
        assert(t.drop_last() == stack@.take(j - 1));
        assert(t.last() == open);
        let ghost prev = out@;
        out.push(close);
        assert(out@ == prev + seq![close]);
        j -= 1;
    }
    assert(stack@.take(0) == Seq::<char>::empty());
    out
}

proof fn lemma_first_parse_cons(a: Seq<char>, rest: Seq<Seq<char>>)
    ensures
        first_parse(seq![a] + rest) == (match json_canonical(a) {
            Some(v) => Some(v),
            None => first_parse(rest),
        }),
{
    assert((seq![a] + rest).drop_first() == rest);
    assert((seq![a] + rest)[0] == a);
}

/// Recovers a value from a truncated document: closes an open string and
/// open structures, or cuts back to the last complete token.  `None` when a
/// closing bracket does not match or no completion parses.
fn partial_parse(json: &str) -> (r: Option<String>)
    ensures
        match r {
            Some(v) => spec_partial_parse(json@) == Some(v@),
            None => spec_partial_parse(json@) is None,
        },
{
    let cs = chars_of(json);
    let n = cs.len();
    let mut points: Vec<(usize, Vec<char>)> = Vec::new();
    let mut stack: Vec<char> = Vec::new();
    let mut in_string = false;
    let mut escaped = false;
    let mut in_token = false;
    let mut i: usize = 0;
    assert(points_view(points@) =~= Seq::<(int, Seq<char>)>::empty());
    while i < n
        invariant
            n == cs@.len(),
            cs@ == json@,
            i <= n,
            scan(cs@, i as int) == (ScanState {
                points: points_view(points@),
                stack: stack@,
                in_string,
                escaped,
                in_token,
                failed: false,
            }),
            forall|j: int| 0 <= j < points@.len() ==> #[trigger] points@[j].0 <= i,
        decreases n - i,
    {
        let c = cs[i];
        let ghost before = points@;
        proof {
            assert(scan(cs@, i + 1) == scan_step(scan(cs@, i as int), cs@[i as int], i as int));
        }
        if in_string {
            if escaped {
                escaped = false;
            } else if c == '\\' {
                escaped = true;
            } else if c == '"' {
                in_string = false;
                let snap = copy_chars(&stack);
                points.push((i + 1, snap));
                assert(points_view(points@) =~= points_view(before).push((i + 1, stack@)));
            }
        } else {
            let cont = in_token && (('0' <= c && c <= '9') || ('a' <= c && c <= 'z') || ('A' <= c
                && c <= 'Z') || c == '.' || c == '-' || c == '+');
            if !cont {
                in_token = false;
                if c == '"' {
                    in_string = true;
                } else if c == '{' || c == '[' {
                    stack.push(c);
                    let snap = copy_chars(&stack);
                    points.push((i + 1, snap));
                    assert(points_view(points@) =~= points_view(before).push((i + 1, stack@)));
                } else if c == '}' || c == ']' {
                    let len = stack.len();
                    if len > 0 && ((stack[len - 1] == '{' && c == '}') || (stack[len - 1] == '['
                        && c == ']')) {
                        let ghost old_stack = stack@;
                        stack.pop();
                        assert(stack@ == old_stack.drop_last());
                        let snap = copy_chars(&stack);
                        points.push((i + 1, snap));
                        assert(points_view(points@) =~= points_view(before).push((i + 1, stack@)));
                    } else {
                        assert(scan(cs@, i + 1).failed);
                        proof {
                            lemma_scan_failed_stays(cs@, i + 1, n as int);
                            assert(json@ == cs@);
                            assert(spec_partial_parse(json@) is None);
                        }
                        return None;
                    }
                } else if c == ',' || c == ':' {
                    let snap = copy_chars(&stack);
                    points.push((i + 1, snap));
                    assert(points_view(points@) =~= points_view(before).push((i + 1, stack@)));
                } else if is_whitespace(c) {
                } else {
                    in_token = true;
                }
            }
        }
        i += 1;
    }
    let ghost st = scan(cs@, n as int);
    assert(partial_candidates(cs@) == (if st.in_string {
        seq![cs@ + seq!['"'] + closers(st.stack)]
    } else {
        Seq::empty()
    }) + point_candidates(cs@, st.points, st.points.len() as int));
    if in_string {
        let mut cand = string_from_chars(&cs);
        push_char(&mut cand, '"');
        let cl = closers_of(&stack);
        let cl_s = string_from_chars(&cl);
        push_str(&mut cand, cl_s.as_str());
        assert(cand@ == cs@ + seq!['"'] + closers(st.stack));
        proof {
            lemma_first_parse_cons(cand@, point_candidates(cs@, st.points, st.points.len() as int));
        }
        match json_from_str(cand.as_str()) {
            Ok(v) => {
                return Some(v);
            },
            Err(_) => {},
        }
    } else {
        assert(Seq::<Seq<char>>::empty() + point_candidates(cs@, st.points, st.points.len() as int)
            == point_candidates(cs@, st.points, st.points.len() as int));
    }
    let mut k: usize = points.len();
    while k > 0
        invariant
            n == cs@.len(),
            cs@ == json@,
            st == scan(cs@, n as int),
            k <= points@.len(),
            st.points == points_view(points@),
            !st.failed,
            forall|j: int| 0 <= j < points@.len() ==> #[trigger] points@[j].0 <= n,
            first_parse(partial_candidates(cs@)) == first_parse(point_candidates(cs@, st.points, k as int)),
        decreases k,
    {
        let p = points[k - 1].0;
        assert(points@[k - 1].0 <= n);
        let mut end: usize = p;
        assert(cs@.take(p as int) == cs@.take(end as int));
        while end > 0 && (cs[end - 1] == ',' || cs[end - 1] == ':')
            invariant
                end <= p <= n,
                n == cs@.len(),
                strip_separators(cs@.take(p as int)) == strip_separators(cs@.take(end as int)),
            decreases end,
        {
            assert(cs@.take(end as int).drop_last() == cs@.take(end - 1));
            end -= 1;
        }
        assert(end > 0 ==> cs@.take(end as int).last() == cs@[end - 1]);
        assert(strip_separators(cs@.take(end as int)) == cs@.take(end as int));
        let prefix = string_from_range(&cs, 0, end);
        assert(cs@.subrange(0, end as int) == cs@.take(end as int));
        let ghost cand0 = cs@.take(end as int);
        let ghost pv = st.points[k - 1];
        assert(pv == (p as int, points@[k - 1].1@));
        if is_blank(prefix.as_str()) {
            assert(point_candidates(cs@, st.points, k as int) == point_candidates(cs@, st.points, k - 1));
        } else {
            let mut cand = prefix;
            let cl = closers_of(&points[k - 1].1);
            let cl_s = string_from_chars(&cl);
            push_str(&mut cand, cl_s.as_str());
            proof {
                lemma_first_parse_cons(cand@, point_candidates(cs@, st.points, k - 1));
                assert(trim(cand0).len() != 0);
                assert(cand@ == cand0 + closers(pv.1));
                assert(point_candidates(cs@, st.points, k as int) == seq![cand@] + point_candidates(
                    cs@,
                    st.points,
                    k - 1,
                ));
            }
            match json_from_str(cand.as_str()) {
                Ok(v) => {
                    assert(first_parse(point_candidates(cs@, st.points, k as int)) == Some(v@));
                    assert(json@ == cs@);
                    assert(spec_partial_parse(json@) == first_parse(partial_candidates(cs@)));
                    return Some(v);
                },
                Err(_) => {},
            }
        }
        k -= 1;
    }
    None
}

proof fn lemma_scan_failed_stays(cs: Seq<char>, m: int, n: int)
    requires
        0 <= m <= n,
        scan(cs, m).failed,
    ensures
        scan(cs, n).failed,
    decreases n - m,
{
    if m < n {
        assert(scan(cs, m + 1) == scan_step(scan(cs, m), cs[m], m));
        lemma_scan_failed_stays(cs, m + 1, n);
    }
}

/// A value found among candidates is the parse of one of them.
proof fn lemma_first_parse_witness(cands: Seq<Seq<char>>)
    requires
        first_parse(cands) is Some,
    ensures
        exists|d: Seq<char>| json_canonical(d) == first_parse(cands),
    decreases cands.len(),
{
    if json_canonical(cands[0]) is Some {
        assert(json_canonical(cands[0]) == first_parse(cands));
    } else {
        lemma_first_parse_witness(cands.drop_first());
    }
}

/// Text of the empty JSON object.
pub open spec fn empty_object() -> Seq<char> {
    seq!['{', '}']
}

/// Value of a streamed, possibly incomplete document: the empty object for
/// blank input; else the parse (with repair retry); else the recovery of
/// the truncated document; else the recovery of its repaired form; else the
/// empty object.
pub open spec fn spec_parse_streaming(s: Seq<char>) -> Seq<char> {
    if trim(s).len() == 0 {
        empty_object()
    } else if spec_parse_with_repair(s) is Some {
        spec_parse_with_repair(s).unwrap()
    } else if spec_partial_parse(s) is Some {
        spec_partial_parse(s).unwrap()
    } else if spec_repair(s) != s && spec_partial_parse(spec_repair(s)) is Some {
        spec_partial_parse(spec_repair(s)).unwrap()
    } else {
        empty_object()
    }
}

/// Parses incomplete JSON received while streaming; always yields a value,
/// falling back to the empty object.
pub fn parse_streaming_json(partial_json: &str) -> (r: String)
    ensures
        r@ == spec_parse_streaming(partial_json@),
        r@ == empty_object() || exists|d: Seq<char>| json_canonical(d) == Some(r@),
{
    let empty = "{}";
    proof {
        reveal_strlit("{}");
    }
    if is_blank(partial_json) {
        return empty.to_string();
    }
    match parse_json_with_repair(partial_json) {
        Ok(v) => {
            return v;
        },
        Err(_) => {},
    }
    match partial_parse(partial_json) {
        Some(v) => {
            proof {
                lemma_first_parse_witness(partial_candidates(partial_json@));
            }
            return v;
        },
        None => {},
    }
    let repaired = repair_json(partial_json);
    let original = partial_json.to_string();
    if repaired != original {
        match partial_parse(repaired.as_str()) {
            Some(v) => {
                proof {
                    lemma_first_parse_witness(partial_candidates(repaired@));
                }
                return v;
            },
            None => {},
        }
    }
    empty.to_string()
}

} // verus!
