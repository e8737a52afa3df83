//! Reading decimal integers as `str::parse::<i64>` does.
use vstd::prelude::*;
use crate::text::{chars_of, decimal, decimal_i64};

verus! {

pub open spec fn is_digit(c: char) -> bool {
    '0' <= c && c <= '9'
}

pub open spec fn all_digits(s: Seq<char>) -> bool {
    forall|i: int| 0 <= i < s.len() ==> #[trigger] is_digit(s[i])
}

/// Value of a string of decimal digits.
pub open spec fn digits_value(s: Seq<char>) -> nat
    decreases s.len(),
{
    if s.len() == 0 {
        0
    } else {
        digits_value(s.drop_last()) * 10 + ((s.last() as int) - 48) as nat
    }
}

/// An optional '+' or '-' followed by at least one digit and nothing
/// else, with a value in the range of `i64`.
pub open spec fn spec_parse_i64(s: Seq<char>) -> Option<i64> {
    if s.len() == 0 {
        None
    } else {
        let neg = s[0] == '-';
        let body = if s[0] == '-' || s[0] == '+' {
            s.skip(1)
        } else {
            s
        };
        if body.len() == 0 || !all_digits(body) {
            None
        } else {
            let v: int = if neg {
                -(digits_value(body) as int)
            } else {
                digits_value(body) as int
            };
            if i64::MIN <= v && v <= i64::MAX {
                Some(v as i64)
            } else {
                None
            }
        }
    }
}

proof fn lemma_digits_monotone(s: Seq<char>, k: int)
    requires
        0 <= k <= s.len(),
        all_digits(s),
    ensures
        digits_value(s.take(k)) <= digits_value(s),
    decreases s.len() - k,
{
    if k < s.len() {
        lemma_digits_monotone(s, k + 1);
        assert(s.take(k + 1).drop_last() =~= s.take(k));
        assert(is_digit(s[k]));
    } else {
        assert(s.take(k) =~= s);
    }
}

/// Parses a decimal `i64` (see `spec_parse_i64`).
pub fn parse_i64(s: &str) -> (r: Option<i64>)
    ensures
        r == spec_parse_i64(s@),
{
    let cs = chars_of(s);
    if cs.len() == 0 {
        return None;
    }
    let neg = cs[0] == '-';
    let start: usize = if cs[0] == '-' || cs[0] == '+' { 1 } else { 0 };
    let ghost body = if cs@[0] == '-' || cs@[0] == '+' {
        cs@.skip(1)
    } else {
        cs@
    };
    assert(body =~= cs@.skip(start as int));
    if start == cs.len() {
        return None;
    }
    // 2^63 bounds the magnitude of any i64.
    let limit: u64 = 0x8000_0000_0000_0000;
    let mut acc: u64 = 0;
    let mut i: usize = start;
    let mut too_big = false;
    while i < cs.len()
        invariant
            start <= i <= cs.len(),
            start < cs.len(),
            cs@ == s@,
            start == 1 <==> (cs@[0] == '-' || cs@[0] == '+'),
            start == 0 || start == 1,
            body =~= cs@.skip(start as int),
            all_digits(body.take(i - start)),
            !too_big ==> acc == digits_value(body.take(i - start)),
            !too_big ==> acc <= limit,
            too_big ==> digits_value(body.take(i - start)) > limit,
            limit == 0x8000_0000_0000_0000u64,
        decreases cs.len() - i,
    {
        let c = cs[i];
        if !('0' <= c && c <= '9') {
            assert(body[i - start] == c);
            assert(!is_digit(body[i - start]));
            assert(!all_digits(body));
            return None;
        }
        let d: u64 = (c as u64) - 48;
        assert(body.take(i + 1 - start).drop_last() =~= body.take(i - start));
        assert(body.take(i + 1 - start).last() == c);
        if !too_big {
            if acc > (limit - d) / 10 {
                too_big = true;
                assert(acc * 10 + d > limit) by (nonlinear_arith)
                    requires
                        acc > (limit - d) / 10,
                        d <= 9,
                        limit == 0x8000_0000_0000_0000u64,
                ;
            } else {
                assert(acc * 10 + d <= limit) by (nonlinear_arith)
                    requires
                        acc <= (limit - d) / 10,
                        d <= 9,
                        limit == 0x8000_0000_0000_0000u64,
                ;
                acc = acc * 10 + d;
            }
        } else {
            assert(digits_value(body.take(i + 1 - start)) >= digits_value(body.take(i - start))) by (nonlinear_arith)
                requires
                    digits_value(body.take(i + 1 - start)) == digits_value(body.take(i - start)) * 10 + ((c as int) - 48) as nat,
            ;
        }
        i += 1;
    }
    assert(body.take(cs.len() - start) =~= body);
    if too_big {
        return None;
    }
    if neg {
        if acc == limit {
            Some(i64::MIN)
        } else {
            Some(0 - (acc as i64))
        }
    } else {
        if acc == limit {
            None
        } else {
            Some(acc as i64)
        }
    }
}

proof fn lemma_decimal_digits(n: nat)
    ensures
        all_digits(decimal(n)),
        digits_value(decimal(n)) == n,
        decimal(n).len() > 0,
        decimal(n)[0] != '-' && decimal(n)[0] != '+',
    decreases n,
{
    if n >= 10 {
        lemma_decimal_digits(n / 10);
        let d = decimal(n / 10);
        let c = (((n % 10) + 48) as u8) as char;
        assert(decimal(n) == d.push(c));
        assert(d.push(c).drop_last() =~= d);
        assert forall|i: int| 0 <= i < d.push(c).len() implies #[trigger] is_digit(d.push(c)[i]) by {
            if i < d.len() {
                assert(is_digit(d[i]));
            }
        }
        assert(d.push(c)[0] == d[0]);
        assert((c as int) == (n % 10) + 48);
        assert(d.push(c).last() == c);
        assert(digits_value(d.push(c)) == digits_value(d) * 10 + ((c as int) - 48) as nat);
        assert(n == (n / 10) * 10 + n % 10);
    } else {
        let c = ((n + 48) as u8) as char;
        assert(decimal(n) == seq![c]);
        assert((c as int) == n + 48);
        assert(seq![c].drop_last() =~= Seq::<char>::empty());
        assert(seq![c].last() == c);
        assert(digits_value(seq![c]) == digits_value(Seq::<char>::empty()) * 10 + ((c as int) - 48) as nat);
        assert(is_digit(seq![c][0]));
    }
}

/// Reading back the decimal rendering of an `i64` gives the number.
pub proof fn lemma_parse_decimal_i64(n: i64)
    ensures
        spec_parse_i64(decimal_i64(n)) == Some(n),
{
    if n < 0 {
        let m = (-(n as int)) as nat;
        lemma_decimal_digits(m);
        let s = decimal_i64(n);
        assert(s == seq!['-'] + decimal(m));
        assert(s.skip(1) =~= decimal(m));
    } else {
        lemma_decimal_digits(n as nat);
    }
}

} // verus!
