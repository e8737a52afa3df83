//! Fast deterministic string hash used to shorten long identifiers.
//!
//! The hash iterates over the UTF-16 code units of the input and uses
//! 32-bit wrapping multiplication; the result is the base-36 rendering
//! of the two final state words.
use vstd::prelude::*;
use crate::text::{chars_of, string_from_chars};

verus! {

/// The base-36 digit for `d` (`0-9` then `a-z`).
pub open spec fn digit36(d: u32) -> char {
    if d < 10 {
        ((d + 48) as u8) as char
    } else {
        ((d + 87) as u8) as char
    }
}

/// Base-36 rendering of `n`, most significant digit first, `"0"` for zero.
pub open spec fn base36(n: u32) -> Seq<char>
    decreases n,
{
    if n < 36 {
        seq![digit36(n)]
    } else {
        base36(n / 36) + seq![digit36(n % 36)]
    }
}

/// The digits of `n` without the leading zero: empty for zero.
pub open spec fn base36_prefix(n: u32) -> Seq<char> {
    if n == 0 {
        Seq::empty()
    } else {
        base36(n)
    }
}

/// Value of a digit character produced by `digit36`.
pub open spec fn digit36_value(c: char) -> int {
    if '0' <= c && c <= '9' {
        c as int - 48
    } else {
        c as int - 87
    }
}

/// Reads a base-36 numeral back, most significant digit first.
pub open spec fn base36_decode(s: Seq<char>) -> int
    decreases s.len(),
{
    if s.len() == 0 {
        0
    } else {
        base36_decode(s.drop_last()) * 36 + digit36_value(s.last())
    }
}

/// Base-36 rendering of an unsigned 32-bit integer.
pub fn to_base36(n: u32) -> (r: String)
    ensures
        r@ == base36(n),
{
    if n == 0 {
        let mut z: Vec<char> = Vec::new();
        z.push('0');
        assert(z@ == seq!['0']);
        assert(base36(0) == seq![digit36(0)]);
        assert(digit36(0) == '0');
        return string_from_chars(&z);
    }
    let mut out: Vec<char> = Vec::new();
    let mut m: u32 = n;
    while m > 0
        invariant
            base36(n) == base36_prefix(m) + out@,
            n > 0,
        decreases m,
    {
        let d: u32 = m % 36;
        let c: char = if d < 10 {
            ((d + 48) as u8) as char
        } else {
            ((d + 87) as u8) as char
        };
        assert(c == digit36(d));
        let ghost old_out = out@;
        out.insert(0, c);
        assert(out@ == seq![c] + old_out);
        assert(base36_prefix(m) == base36_prefix(m / 36) + seq![digit36(m % 36)]);
        assert(base36_prefix(m / 36) + out@ == base36_prefix(m / 36) + seq![c] + old_out);
        m = m / 36;
    }
    string_from_chars(&out)
}

/// Decoding a rendered digit gives its value back.
proof fn lemma_digit36_value(d: u32)
    requires
        d < 36,
    ensures
        digit36_value(digit36(d)) == d,
{
    assert(d < 10 ==> digit36(d) as int == d + 48);
    assert(d >= 10 ==> digit36(d) as int == d + 87);
}

/// Base-36 rendering is lossless: reading the digits back gives `n`.
pub proof fn lemma_base36_roundtrip(n: u32)
    ensures
        base36_decode(base36(n)) == n,
    decreases n,
{
    if n < 36 {
        lemma_digit36_value(n);
        let s = seq![digit36(n)];
        assert(s.drop_last() == Seq::<char>::empty());
        assert(base36_decode(s.drop_last()) == 0);
        assert(base36_decode(s) == base36_decode(s.drop_last()) * 36 + digit36_value(s.last()));
    } else {
        lemma_base36_roundtrip(n / 36);
        lemma_digit36_value(n % 36);
        let s = base36(n / 36) + seq![digit36(n % 36)];
        assert(s.drop_last() == base36(n / 36));
        assert(s.last() == digit36(n % 36));
        assert(base36_decode(s) == base36_decode(s.drop_last()) * 36 + digit36_value(s.last()));
        assert((n / 36) * 36 + n % 36 == n);
    }
}

/// A base-36 digit character: `0-9` or `a-z`.
pub open spec fn is_digit36(c: char) -> bool {
    ('0' <= c && c <= '9') || ('a' <= c && c <= 'z')
}

proof fn lemma_digit36_char(d: u32)
    requires
        d < 36,
    ensures
        is_digit36(digit36(d)),
        digit36(d) == '0' <==> d == 0,
{
    assert(d < 10 ==> digit36(d) as int == d + 48);
    assert(d >= 10 ==> digit36(d) as int == d + 87);
}

/// Base-36 rendering is the standard radix-36 numeral: it is not empty,
/// every character is a digit `0-9a-z`, and it starts with '0' only for
/// zero, which renders as "0".
pub proof fn lemma_base36_canonical(n: u32)
    ensures
        base36(n).len() >= 1,
        forall|i: int| 0 <= i < base36(n).len() ==> is_digit36(#[trigger] base36(n)[i]),
        base36(n)[0] == '0' <==> n == 0,
        n == 0 ==> base36(n) == seq!['0'],
    decreases n,
{
    if n < 36 {
        lemma_digit36_char(n);
        assert(digit36(0) == '0') by {
            lemma_digit36_char(0);
        }
    } else {
        lemma_base36_canonical(n / 36);
        lemma_digit36_char(n % 36);
        let s = base36(n / 36) + seq![digit36(n % 36)];
        assert(s[0] == base36(n / 36)[0]);
        assert forall|i: int| 0 <= i < s.len() implies is_digit36(#[trigger] s[i]) by {
            if i < base36(n / 36).len() {
                assert(s[i] == base36(n / 36)[i]);
            }
        }
    }
}

/// UTF-16 code units of one character.
pub open spec fn utf16_of_char(c: char) -> Seq<u32> {
    let v = c as u32;
    if v < 0x10000 {
        seq![v]
    } else {
        seq![(0xD800 + (v - 0x10000) / 0x400) as u32, (0xDC00 + (v - 0x10000) % 0x400) as u32]
    }
}

/// UTF-16 code units of a character sequence (what `str::encode_utf16` yields).
pub open spec fn utf16_units(s: Seq<char>) -> Seq<u32>
    decreases s.len(),
{
    if s.len() == 0 {
        Seq::empty()
    } else {
        utf16_units(s.drop_last()) + utf16_of_char(s.last())
    }
}

/// One mixing step of the hash state on a code unit.
pub open spec fn mix(h: (u32, u32), unit: u32) -> (u32, u32) {
    ((h.0 ^ unit).wrapping_mul(2654435761u32), (h.1 ^ unit).wrapping_mul(1597334677u32))
}

/// Hash state after consuming `units` from the fixed seeds.
pub open spec fn hash_state(units: Seq<u32>) -> (u32, u32)
    decreases units.len(),
{
    if units.len() == 0 {
        (0xdeadbeefu32, 0x41c6ce57u32)
    } else {
        mix(hash_state(units.drop_last()), units.last())
    }
}

/// Final avalanche of the two state words.
pub open spec fn finalize(h: (u32, u32)) -> (u32, u32) {
    let h1 = (h.0 ^ (h.0 >> 16)).wrapping_mul(2246822507u32) ^ (h.1 ^ (h.1 >> 13)).wrapping_mul(
        3266489909u32,
    );
    let h2 = (h.1 ^ (h.1 >> 16)).wrapping_mul(2246822507u32) ^ (h1 ^ (h1 >> 13)).wrapping_mul(
        3266489909u32,
    );
    (h1, h2)
}

/// The short hash of a character sequence: base-36 of the second word, then of the first.
pub open spec fn spec_short_hash(s: Seq<char>) -> Seq<char> {
    let f = finalize(hash_state(utf16_units(s)));
    base36(f.1) + base36(f.0)
}

/// One exec mixing step, matching `mix`.
fn mix_step(h1: u32, h2: u32, unit: u32) -> (r: (u32, u32))
    ensures
        r == mix((h1, h2), unit),
{
    ((h1 ^ unit).wrapping_mul(2654435761), (h2 ^ unit).wrapping_mul(1597334677))
}

/// Hash state after one more character.
proof fn lemma_hash_state_step(prev: Seq<u32>, c: char)
    ensures
        hash_state(prev + utf16_of_char(c)) == ({
            let v = c as u32;
            if v < 0x10000 {
                mix(hash_state(prev), v)
            } else {
                mix(
                    mix(hash_state(prev), (0xD800 + (v - 0x10000) / 0x400) as u32),
                    (0xDC00 + (v - 0x10000) % 0x400) as u32,
                )
            }
        }),
{
    let v = c as u32;
    if v < 0x10000 {
        let s1 = prev + seq![v];
        assert(s1.drop_last() == prev);
        assert(s1.last() == v);
        assert(utf16_of_char(c) == seq![v]);
        assert(hash_state(s1) == mix(hash_state(s1.drop_last()), s1.last()));
    } else {
        let hi = (0xD800 + (v - 0x10000) / 0x400) as u32;
        let lo = (0xDC00 + (v - 0x10000) % 0x400) as u32;
        let s1 = prev + seq![hi];
        let s2 = prev + seq![hi, lo];
        assert(utf16_of_char(c) == seq![hi, lo]);
        assert(s2.drop_last() == s1);
        assert(s2.last() == lo);
        assert(s1.drop_last() == prev);
        assert(s1.last() == hi);
        assert(hash_state(s2) == mix(hash_state(s2.drop_last()), s2.last()));
        assert(hash_state(s1) == mix(hash_state(s1.drop_last()), s1.last()));
    }
}

/// Fast deterministic hash of `s`, rendered in base 36.
pub fn short_hash(s: &str) -> (r: String)
    ensures
        r@ == spec_short_hash(s@),
{
    let cs = chars_of(s);
    let mut h1: u32 = 0xdeadbeef;
    let mut h2: u32 = 0x41c6ce57;
    let mut i: usize = 0;
    while i < cs.len()
        invariant
            i <= cs.len(),
            (h1, h2) == hash_state(utf16_units(cs@.take(i as int))),
        decreases cs.len() - i,
    {
        let c = cs[i];
        let v: u32 = c as u32;
        proof {
            let prev = utf16_units(cs@.take(i as int));
            assert(cs@.take(i + 1).drop_last() == cs@.take(i as int));
            assert(utf16_units(cs@.take(i + 1)) == prev + utf16_of_char(c));
            lemma_hash_state_step(prev, c);
        }
        if v < 0x10000 {
            let r = mix_step(h1, h2, v);
            h1 = r.0;
            h2 = r.1;
        } else {
            let hi: u32 = 0xD800 + (v - 0x10000) / 0x400;
            let lo: u32 = 0xDC00 + (v - 0x10000) % 0x400;
            let r = mix_step(h1, h2, hi);
            let r2 = mix_step(r.0, r.1, lo);
            h1 = r2.0;
            h2 = r2.1;
        }
        i += 1;
    }
    assert(cs@.take(cs.len() as int) == cs@);
    let f1: u32 = (h1 ^ (h1 >> 16)).wrapping_mul(2246822507) ^ (h2 ^ (h2 >> 13)).wrapping_mul(
        3266489909,
    );
    let f2: u32 = (h2 ^ (h2 >> 16)).wrapping_mul(2246822507) ^ (f1 ^ (f1 >> 13)).wrapping_mul(
        3266489909,
    );
    let mut out = to_base36(f2);
    let tail = to_base36(f1);
    out.append(tail.as_str());
    out
}

} // verus!
