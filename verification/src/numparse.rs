//! Parsing unsigned decimal numbers from text, as the standard library's
//! integer parsing accepts them: an optional leading `+`, then one or more
//! ASCII digits, with a range check against the target type.

use vstd::prelude::*;
use vstd::string::StrSliceExecFns;
use crate::validation::is_digit_char;

verus! {

/// The numeric value of a digit string, most significant first.
pub open spec fn digits_value(s: Seq<char>) -> int
    decreases s.len(),
{
    if s.len() == 0 {
        0
    } else {
        digits_value(s.drop_last()) * 10 + (s.last() as int - '0' as int)
    }
}

/// The digit part of a number: everything after an optional leading `+`.
pub open spec fn uint_body(s: Seq<char>) -> Seq<char> {
    if s.len() > 0 && s[0] == '+' {
        s.drop_first()
    } else {
        s
    }
}

/// `s` is a well-formed unsigned decimal: an optional `+`, then at least
/// one digit and nothing else.
pub open spec fn uint_str_ok(s: Seq<char>) -> bool {
    uint_body(s).len() > 0 && forall|k: int|
        0 <= k < uint_body(s).len() ==> is_digit_char(#[trigger] uint_body(s)[k])
}

/// The value a well-formed unsigned decimal denotes.
pub open spec fn uint_str_value(s: Seq<char>) -> int {
    digits_value(uint_body(s))
}

proof fn lemma_digits_value_nonneg(s: Seq<char>)
    requires
        forall|k: int| 0 <= k < s.len() ==> is_digit_char(#[trigger] s[k]),
    ensures
        digits_value(s) >= 0,
    decreases s.len(),
{
    if s.len() > 0 {
        lemma_digits_value_nonneg(s.drop_last());
        assert(forall|k: int|
            0 <= k < s.drop_last().len() ==> is_digit_char(#[trigger] s.drop_last()[k]));
    }
}

/// Appending digits never shrinks the value: the prefix value is a lower
/// bound for the whole string's value.
proof fn lemma_digits_value_prefix(s: Seq<char>, m: int)
    requires
        0 <= m <= s.len(),
        forall|k: int| 0 <= k < s.len() ==> is_digit_char(#[trigger] s[k]),
    ensures
        digits_value(s) >= digits_value(s.subrange(0, m)),
    decreases s.len() - m,
{
    if m < s.len() {
        lemma_digits_value_prefix(s, m + 1);
        let p = s.subrange(0, m);
        let q = s.subrange(0, m + 1);
        assert(q.drop_last() =~= p);
        lemma_digits_value_nonneg(p);
        assert(digits_value(q) == digits_value(p) * 10 + (q.last() as int - '0' as int));
        assert(q.last() == s[m]);
        assert(is_digit_char(s[m]));
    } else {
        assert(s.subrange(0, m) =~= s);
    }
}

/// Parse an unsigned decimal no larger than `max`. Returns the denoted
/// value exactly when `s` is well-formed and in range; rejects malformed
/// text and values over `max`.
#[verifier::loop_isolation(false)]
pub fn parse_uint_bounded(s: &str, max: u64) -> (r: Option<u64>)
    ensures
        match r {
            Some(v) => uint_str_ok(s@) && v as int == uint_str_value(s@) && v <= max,
            None => !uint_str_ok(s@) || uint_str_value(s@) > max,
        },
{
    let n = s.unicode_len();
    let start: usize = if n > 0 && s.get_char(0) as u32 == '+' as u32 {
        1
    } else {
        0
    };
    if start >= n {
        return None;
    }
    let ghost body = uint_body(s@);
    proof {
        if start == 1 {
            assert(body =~= s@.drop_first());
        } else {
            assert(body =~= s@);
        }
    }
    let mut acc: u128 = 0;
    let mut k: usize = start;
    while k < n
        invariant
            start <= k <= n,
            body.len() == n - start,
            forall|l: int| 0 <= l < k - start ==> is_digit_char(#[trigger] body[l]),
            acc == digits_value(body.subrange(0, k - start)),
            acc <= max,
        decreases n - k,
    {
        let c = s.get_char(k);
        let u = c as u32;
        if !(u >= '0' as u32 && u <= '9' as u32) {
            proof {
                assert(body[k - start] == s@[k as int]);
            }
            return None;
        }
        let d = (u - '0' as u32) as u128;
        proof {
            assert(body[k - start] == s@[k as int]);
            assert(body.subrange(0, k - start + 1).drop_last() =~= body.subrange(0, k - start));
        }
        acc = acc * 10 + d;
        if acc > max as u128 {
            proof {
                if uint_str_ok(s@) {
                    lemma_digits_value_prefix(body, k + 1 - start);
                }
            }
            return None;
        }
        k = k + 1;
    }
    proof {
        assert(body.subrange(0, n - start) =~= body);
    }
    Some(acc as u64)
}

/// Parse a 16-bit unsigned decimal, as `parse::<u16>` accepts it.
pub fn parse_u16(s: &str) -> (r: Option<u16>)
    ensures
        match r {
            Some(v) => uint_str_ok(s@) && v as int == uint_str_value(s@),
            None => !uint_str_ok(s@) || uint_str_value(s@) > u16::MAX,
        },
{
    match parse_uint_bounded(s, 65535) {
        Some(v) => Some(v as u16),
        None => None,
    }
}

/// Parse a 32-bit unsigned decimal, as `parse::<u32>` accepts it.
pub fn parse_u32(s: &str) -> (r: Option<u32>)
    ensures
        match r {
            Some(v) => uint_str_ok(s@) && v as int == uint_str_value(s@),
            None => !uint_str_ok(s@) || uint_str_value(s@) > u32::MAX,
        },
{
    match parse_uint_bounded(s, 4294967295) {
        Some(v) => Some(v as u32),
        None => None,
    }
}

/// Parse a 64-bit unsigned decimal, as `parse::<u64>` accepts it.
pub fn parse_u64(s: &str) -> (r: Option<u64>)
    ensures
        match r {
            Some(v) => uint_str_ok(s@) && v as int == uint_str_value(s@),
            None => !uint_str_ok(s@) || uint_str_value(s@) > u64::MAX,
        },
{
    parse_uint_bounded(s, u64::MAX)
}

} // verus!
