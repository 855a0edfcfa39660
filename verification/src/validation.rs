//! Input validation: the email address grammar, password strength and API
//! key shape. The email grammar is stated declaratively — a valid address
//! splits into a local part, an `@`, a dotted domain and an alphabetic top
//! level of at least two characters — and the checker is proved to accept
//! exactly that language.

use vstd::prelude::*;
use vstd::string::StrSliceExecFns;
use vstd::string::StringSliceAdditionalSpecFns;
use crate::chars::char_lowercase;
use crate::chars::char_numeric;
use crate::chars::char_uppercase;
use crate::chars::char_whitespace;

verus! {

pub open spec fn is_alpha_char(c: char) -> bool {
    ('a' <= c && c <= 'z') || ('A' <= c && c <= 'Z')
}

pub open spec fn is_digit_char(c: char) -> bool {
    '0' <= c && c <= '9'
}

/// Characters allowed before the `@` of an address.
pub open spec fn is_local_char(c: char) -> bool {
    is_alpha_char(c) || is_digit_char(c) || c == '.' || c == '_' || c == '%' || c == '+' || c
        == '-'
}

/// Characters allowed in the domain between the `@` and the last dot.
pub open spec fn is_domain_char(c: char) -> bool {
    is_alpha_char(c) || is_digit_char(c) || c == '.' || c == '-'
}

/// `s` splits as an address at `@`-position `i` and last-dot position `j`:
/// a nonempty local part, a nonempty domain, and an alphabetic top level
/// of at least two characters.
pub open spec fn email_split_ok(s: Seq<char>, i: int, j: int) -> bool {
    &&& 0 < i
    &&& i + 1 < j
    &&& j + 3 <= s.len()
    &&& s[i] == '@'
    &&& s[j] == '.'
    &&& forall|k: int| 0 <= k < i ==> is_local_char(#[trigger] s[k])
    &&& forall|k: int| i < k < j ==> is_domain_char(#[trigger] s[k])
    &&& forall|k: int| j < k < s.len() ==> is_alpha_char(#[trigger] s[k])
}

/// The email address language: some split position works.
pub open spec fn email_valid(s: Seq<char>) -> bool {
    exists|i: int, j: int| email_split_ok(s, i, j)
}

/// In a valid split, the `@` must be the first `@` of the string and the
/// dot the last dot: the local part cannot hold an `@` and the top level
/// cannot hold a dot.
proof fn lemma_email_split_pinned(s: Seq<char>, at: int, i: int, j: int)
    requires
        email_split_ok(s, i, j),
        0 <= at < s.len(),
        s[at] == '@',
        forall|k: int| 0 <= k < at ==> s[k] != '@',
    ensures
        i == at,
{
    if i < at {
        assert(s[i] == '@');
    } else if i > at {
        assert(is_local_char(s[at]));
        assert(!is_local_char('@'));
    }
}

proof fn lemma_email_dot_pinned(s: Seq<char>, at: int, dot: int, i: int, j: int)
    requires
        email_split_ok(s, i, j),
        i == at,
        at < dot < s.len(),
        s[dot] == '.',
        forall|k: int| dot < k < s.len() ==> s[k] != '.',
    ensures
        j == dot,
{
    if j < dot {
        assert(is_alpha_char(s[dot]));
        assert(!is_alpha_char('.'));
    } else if j > dot {
        assert(s[j] == '.');
    }
}

fn is_local_char_x(c: char) -> (r: bool)
    ensures
        r == is_local_char(c),
{
    let u = c as u32;
    (u >= 'a' as u32 && u <= 'z' as u32) || (u >= 'A' as u32 && u <= 'Z' as u32) || (u >= '0'
        as u32 && u <= '9' as u32) || u == '.' as u32 || u == '_' as u32 || u == '%' as u32 || u
        == '+' as u32 || u == '-' as u32
}

fn is_domain_char_x(c: char) -> (r: bool)
    ensures
        r == is_domain_char(c),
{
    let u = c as u32;
    (u >= 'a' as u32 && u <= 'z' as u32) || (u >= 'A' as u32 && u <= 'Z' as u32) || (u >= '0'
        as u32 && u <= '9' as u32) || u == '.' as u32 || u == '-' as u32
}

fn is_alpha_char_x(c: char) -> (r: bool)
    ensures
        r == is_alpha_char(c),
{
    let u = c as u32;
    (u >= 'a' as u32 && u <= 'z' as u32) || (u >= 'A' as u32 && u <= 'Z' as u32)
}

fn char_eq(c: char, d: char) -> (r: bool)
    ensures
        r == (c == d),
{
    c as u32 == d as u32
}

/// Whether `email` is a well-formed address: accepts exactly the language
/// of `email_valid`.
#[verifier::loop_isolation(false)]
pub fn is_valid_email(email: &str) -> (r: bool)
    ensures
        r == email_valid(email@),
{
    let s = email;
    let n = s.unicode_len();
    let mut at: usize = 0;
    while at < n && !char_eq(s.get_char(at), '@')
        invariant
            0 <= at <= n,
            n == s@.len(),
            forall|k: int| 0 <= k < at ==> s@[k] != '@',
        decreases n - at,
    {
        at = at + 1;
    }
    if at == n {
        proof {
            assert forall|i: int, j: int| !email_split_ok(s@, i, j) by {
                if email_split_ok(s@, i, j) {
                    assert(s@[i] == '@');
                }
            }
        }
        return false;
    }
    if at == 0 {
        proof {
            assert forall|i: int, j: int| !email_split_ok(s@, i, j) by {
                if email_split_ok(s@, i, j) {
                    lemma_email_split_pinned(s@, 0, i, j);
                }
            }
        }
        return false;
    }
    let mut k: usize = 0;
    while k < at
        invariant
            0 <= k <= at < n,
            n == s@.len(),
            s@[at as int] == '@',
            forall|l: int| 0 <= l < at ==> s@[l] != '@',
            forall|l: int| 0 <= l < k ==> is_local_char(#[trigger] s@[l]),
        decreases at - k,
    {
        if !is_local_char_x(s.get_char(k)) {
            proof {
                assert forall|i: int, j: int| !email_split_ok(s@, i, j) by {
                    if email_split_ok(s@, i, j) {
                        lemma_email_split_pinned(s@, at as int, i, j);
                        assert(is_local_char(s@[k as int]));
                    }
                }
            }
            return false;
        }
        k = k + 1;
    }
    let mut dot: usize = n;
    let mut scan: usize = n;
    while scan > at + 1 && dot == n
        invariant
            at + 1 <= scan <= n,
            dot <= n,
            n == s@.len(),
            dot == n ==> forall|l: int| scan <= l < n ==> s@[l] != '.',
            dot < n ==> (at < dot && dot < n && s@[dot as int] == '.' && forall|l: int|
                dot < l < n ==> s@[l] != '.'),
        decreases scan,
    {
        if char_eq(s.get_char(scan - 1), '.') {
            dot = scan - 1;
        }
        scan = scan - 1;
    }
    if dot == n {
        proof {
            assert forall|i: int, j: int| !email_split_ok(s@, i, j) by {
                if email_split_ok(s@, i, j) {
                    lemma_email_split_pinned(s@, at as int, i, j);
                    assert(s@[j] == '.');
                    assert(at < j < n);
                }
            }
        }
        return false;
    }
    proof {
        assert(forall|l: int| dot < l < n ==> s@[l] != '.');
    }
    if dot == at + 1 {
        proof {
            assert forall|i: int, j: int| !email_split_ok(s@, i, j) by {
                if email_split_ok(s@, i, j) {
                    lemma_email_split_pinned(s@, at as int, i, j);
                    lemma_email_dot_pinned(s@, at as int, dot as int, i, j);
                }
            }
        }
        return false;
    }
    let mut d: usize = at + 1;
    while d < dot
        invariant
            at + 1 <= d <= dot < n,
            n == s@.len(),
            s@[at as int] == '@',
            s@[dot as int] == '.',
            at + 1 < dot,
            forall|l: int| 0 <= l < at ==> s@[l] != '@',
            forall|l: int| dot < l < n ==> s@[l] != '.',
            forall|l: int| at < l < d ==> is_domain_char(#[trigger] s@[l]),
        decreases dot - d,
    {
        if !is_domain_char_x(s.get_char(d)) {
            proof {
                assert forall|i: int, j: int| !email_split_ok(s@, i, j) by {
                    if email_split_ok(s@, i, j) {
                        lemma_email_split_pinned(s@, at as int, i, j);
                        lemma_email_dot_pinned(s@, at as int, dot as int, i, j);
                        assert(is_domain_char(s@[d as int]));
                    }
                }
            }
            return false;
        }
        d = d + 1;
    }
    if n - dot < 3 {
        proof {
            assert forall|i: int, j: int| !email_split_ok(s@, i, j) by {
                if email_split_ok(s@, i, j) {
                    lemma_email_split_pinned(s@, at as int, i, j);
                    lemma_email_dot_pinned(s@, at as int, dot as int, i, j);
                }
            }
        }
        return false;
    }
    let mut t: usize = dot + 1;
    while t < n
        invariant
            dot + 1 <= t <= n,
            n == s@.len(),
            s@[at as int] == '@',
            s@[dot as int] == '.',
            at + 1 < dot,
            forall|l: int| 0 <= l < at ==> s@[l] != '@',
            forall|l: int| dot < l < n ==> s@[l] != '.',
            forall|l: int| dot < l < t ==> is_alpha_char(#[trigger] s@[l]),
        decreases n - t,
    {
        if !is_alpha_char_x(s.get_char(t)) {
            proof {
                assert forall|i: int, j: int| !email_split_ok(s@, i, j) by {
                    if email_split_ok(s@, i, j) {
                        lemma_email_split_pinned(s@, at as int, i, j);
                        lemma_email_dot_pinned(s@, at as int, dot as int, i, j);
                        assert(is_alpha_char(s@[t as int]));
                    }
                }
            }
            return false;
        }
        t = t + 1;
    }
    proof {
        assert(email_split_ok(s@, at as int, dot as int));
    }
    true
}

/// A strong password: at least eight bytes, with an uppercase letter, a
/// lowercase letter and a numeric character somewhere in it.
pub open spec fn strong_password(s: &str) -> bool {
    &&& s.len() >= 8
    &&& exists|k: int| 0 <= k < s@.len() && char_uppercase(#[trigger] s@[k])
    &&& exists|k: int| 0 <= k < s@.len() && char_lowercase(#[trigger] s@[k])
    &&& exists|k: int| 0 <= k < s@.len() && char_numeric(#[trigger] s@[k])
}

#[verifier::loop_isolation(false)]
pub fn is_strong_password(password: &str) -> (r: bool)
    ensures
        r == strong_password(password),
{
    if password.len() < 8 {
        return false;
    }
    let n = password.unicode_len();
    let mut has_upper = false;
    let mut has_lower = false;
    let mut has_digit = false;
    let mut k: usize = 0;
    while k < n
        invariant
            0 <= k <= n,
            n == password@.len(),
            has_upper == exists|l: int| 0 <= l < k && char_uppercase(#[trigger] password@[l]),
            has_lower == exists|l: int| 0 <= l < k && char_lowercase(#[trigger] password@[l]),
            has_digit == exists|l: int| 0 <= l < k && char_numeric(#[trigger] password@[l]),
        decreases n - k,
    {
        let c = password.get_char(k);
        if c.is_uppercase() {
            has_upper = true;
        }
        if c.is_lowercase() {
            has_lower = true;
        }
        if c.is_numeric() {
            has_digit = true;
        }
        k = k + 1;
    }
    has_upper && has_lower && has_digit
}

/// A plausible API key: not blank (some non-whitespace character) and at
/// least ten bytes long.
pub open spec fn api_key_valid(s: &str) -> bool {
    &&& exists|k: int| 0 <= k < s@.len() && !char_whitespace(#[trigger] s@[k])
    &&& s.len() >= 10
}

#[verifier::loop_isolation(false)]
pub fn validate_api_key(key: &str) -> (r: bool)
    ensures
        r == api_key_valid(key),
{
    if key.len() < 10 {
        return false;
    }
    let n = key.unicode_len();
    let mut k: usize = 0;
    while k < n
        invariant
            0 <= k <= n,
            n == key@.len(),
            forall|l: int| 0 <= l < k ==> char_whitespace(#[trigger] key@[l]),
        decreases n - k,
    {
        if !key.get_char(k).is_whitespace() {
            return true;
        }
        k = k + 1;
    }
    false
}

} // verus!
