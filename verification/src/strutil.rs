//! Verified string utilities: equality, prefix handling, whitespace
//! trimming, comma splitting and decimal formatting. Every function's
//! result is pinned down over the character views of its inputs.

use vstd::prelude::*;
use vstd::string::StrSliceExecFns;
use vstd::string::StringExecFns;
use crate::chars::char_whitespace;

verus! {

/// A copy of an optional string, equal to the one given.
pub fn clone_opt_string(o: &Option<String>) -> (r: Option<String>)
    ensures
        r == *o,
{
    match o {
        Some(s) => Some(s.clone()),
        None => None,
    }
}

/// Equality of two string slices, stated over their character views.
pub fn str_eq(a: &str, b: &str) -> (r: bool)
    ensures
        r == (a@ == b@),
{
    let sa = a.to_owned();
    let sb = b.to_owned();
    sa.eq(&sb)
}

/// The tail of `s` after `prefix`, if `s` begins with `prefix`.
pub fn strip_prefix_chars(s: &str, prefix: &str) -> (r: Option<String>)
    ensures
        match r {
            Some(rest) => s@.len() >= prefix@.len()
                && s@.subrange(0, prefix@.len() as int) == prefix@
                && rest@ == s@.subrange(prefix@.len() as int, s@.len() as int),
            None => !(s@.len() >= prefix@.len()
                && s@.subrange(0, prefix@.len() as int) == prefix@),
        },
{
    let n = prefix.unicode_len();
    let m = s.unicode_len();
    if m >= n {
        let head = s.substring_char(0, n);
        if str_eq(head, prefix) {
            let tail = s.substring_char(n, m);
            Some(tail.to_owned())
        } else {
            None
        }
    } else {
        None
    }
}

/// The first `k` characters of `s`, or all of `s` when it is shorter.
pub fn take_chars(s: &str, k: usize) -> (r: String)
    ensures
        r@ == if s@.len() <= k { s@ } else { s@.subrange(0, k as int) },
{
    let m = s.unicode_len();
    if m <= k {
        proof {
            assert(s@.subrange(0, m as int) =~= s@);
        }
        s.substring_char(0, m).to_owned()
    } else {
        s.substring_char(0, k).to_owned()
    }
}

pub open spec fn drop_leading_ws(s: Seq<char>) -> Seq<char>
    decreases s.len(),
{
    if s.len() > 0 && char_whitespace(s[0]) {
        drop_leading_ws(s.drop_first())
    } else {
        s
    }
}

pub open spec fn drop_trailing_ws(s: Seq<char>) -> Seq<char>
    decreases s.len(),
{
    if s.len() > 0 && char_whitespace(s.last()) {
        drop_trailing_ws(s.drop_last())
    } else {
        s
    }
}

/// `s` with leading and trailing whitespace removed.
pub open spec fn trim_spec(s: Seq<char>) -> Seq<char> {
    drop_trailing_ws(drop_leading_ws(s))
}

proof fn lemma_drop_leading_ws_at(s: Seq<char>, i: int)
    requires
        0 <= i <= s.len(),
        forall|k: int| 0 <= k < i ==> char_whitespace(s[k]),
        i < s.len() ==> !char_whitespace(s[i]),
    ensures
        drop_leading_ws(s) == s.subrange(i, s.len() as int),
    decreases i,
{
    if i == 0 {
        if s.len() == 0 || !char_whitespace(s[0]) {
            assert(s.subrange(0, s.len() as int) =~= s);
        }
    } else {
        lemma_drop_leading_ws_at(s.drop_first(), i - 1);
        assert(s.drop_first().subrange(i - 1, s.drop_first().len() as int) =~= s.subrange(
            i,
            s.len() as int,
        ));
    }
}

proof fn lemma_drop_trailing_ws_at(s: Seq<char>, j: int)
    requires
        0 <= j <= s.len(),
        forall|k: int| j <= k < s.len() ==> char_whitespace(s[k]),
        j > 0 ==> !char_whitespace(s[j - 1]),
    ensures
        drop_trailing_ws(s) == s.subrange(0, j),
    decreases s.len() - j,
{
    if j == s.len() {
        if s.len() == 0 || !char_whitespace(s.last()) {
            assert(s.subrange(0, s.len() as int) =~= s);
        } else {
            assert(false);
        }
    } else {
        assert(char_whitespace(s.last()));
        lemma_drop_trailing_ws_at(s.drop_last(), j);
        assert(s.drop_last().subrange(0, j) =~= s.subrange(0, j));
    }
}

/// `s` with leading and trailing whitespace removed, as the standard
/// library's `trim` computes it.
pub fn trim_chars(s: &str) -> (r: String)
    ensures
        r@ == trim_spec(s@),
{
    let m = s.unicode_len();
    let mut i: usize = 0;
    while i < m && s.get_char(i).is_whitespace()
        invariant
            0 <= i <= m,
            m == s@.len(),
            forall|k: int| 0 <= k < i ==> char_whitespace(s@[k]),
        decreases m - i,
    {
        i = i + 1;
    }
    proof {
        lemma_drop_leading_ws_at(s@, i as int);
    }
    let mut j: usize = m;
    while j > i && s.get_char(j - 1).is_whitespace()
        invariant
            i <= j <= m,
            m == s@.len(),
            forall|k: int| 0 <= k < i ==> char_whitespace(s@[k]),
            forall|k: int| j <= k < m ==> char_whitespace(s@[k]),
        decreases j,
    {
        j = j - 1;
    }
    proof {
        let mid = s@.subrange(i as int, m as int);
        if j > i {
            assert(!char_whitespace(s@[j - 1]));
        }
        assert(forall|k: int| (j - i) <= k < mid.len() ==> char_whitespace(#[trigger] mid[k]));
        lemma_drop_trailing_ws_at(mid, j - i);
        assert(mid.subrange(0, j - i) =~= s@.subrange(i as int, j as int));
    }
    s.substring_char(i, j).to_owned()
}

/// Index of the first occurrence of `sep` in `s`, or -1 when absent.
pub open spec fn first_index_of(s: Seq<char>, sep: char) -> int
    decreases s.len(),
{
    if s.len() == 0 {
        -1
    } else if s[0] == sep {
        0
    } else if first_index_of(s.drop_first(), sep) == -1 {
        -1
    } else {
        first_index_of(s.drop_first(), sep) + 1
    }
}

pub proof fn lemma_first_index_found(s: Seq<char>, sep: char, j: int)
    requires
        0 <= j < s.len(),
        s[j] == sep,
        forall|k: int| 0 <= k < j ==> s[k] != sep,
    ensures
        first_index_of(s, sep) == j,
    decreases j,
{
    if j > 0 {
        lemma_first_index_found(s.drop_first(), sep, j - 1);
    }
}

pub proof fn lemma_first_index_absent(s: Seq<char>, sep: char)
    requires
        forall|k: int| 0 <= k < s.len() ==> s[k] != sep,
    ensures
        first_index_of(s, sep) == -1,
    decreases s.len(),
{
    if s.len() > 0 {
        lemma_first_index_absent(s.drop_first(), sep);
    }
}

proof fn lemma_first_index_range(s: Seq<char>, sep: char)
    ensures
        first_index_of(s, sep) == -1 || (0 <= first_index_of(s, sep) < s.len() && s[first_index_of(
            s,
            sep,
        )] == sep),
    decreases s.len(),
{
    if s.len() > 0 && s[0] != sep {
        lemma_first_index_range(s.drop_first(), sep);
    }
}

/// `s` divided at every occurrence of `sep`; an empty string yields one
/// empty field, as the standard library's `split` does.
pub open spec fn split_char(s: Seq<char>, sep: char) -> Seq<Seq<char>>
    decreases s.len(),
    via split_char_decreases
{
    if first_index_of(s, sep) == -1 {
        seq![s]
    } else {
        seq![s.subrange(0, first_index_of(s, sep))] + split_char(
            s.subrange(first_index_of(s, sep) + 1, s.len() as int),
            sep,
        )
    }
}

#[via_fn]
proof fn split_char_decreases(s: Seq<char>, sep: char) {
    lemma_first_index_range(s, sep);
}

/// `s` split at commas, each field trimmed of surrounding whitespace.
pub fn split_trim_commas(s: &str) -> (r: Vec<String>)
    ensures
        r@.len() == split_char(s@, ',').len(),
        forall|i: int|
            0 <= i < r@.len() ==> #[trigger] r@[i]@ == trim_spec(split_char(s@, ',')[i]),
    decreases s@.len(),
{
    let m = s.unicode_len();
    let mut j: usize = 0;
    while j < m && s.get_char(j) != ','
        invariant
            0 <= j <= m,
            m == s@.len(),
            forall|k: int| 0 <= k < j ==> s@[k] != ',',
        decreases m - j,
    {
        j = j + 1;
    }
    if j == m {
        proof {
            lemma_first_index_absent(s@, ',');
        }
        let field = trim_chars(s);
        let mut r: Vec<String> = Vec::new();
        r.push(field);
        proof {
            assert(split_char(s@, ',') =~= seq![s@]);
        }
        r
    } else {
        proof {
            lemma_first_index_found(s@, ',', j as int);
        }
        let head = s.substring_char(0, j);
        let field = trim_chars(head);
        let rest = s.substring_char(j + 1, m);
        let mut r = split_trim_commas(rest);
        r.insert(0, field);
        proof {
            let parts = split_char(s@, ',');
            assert(parts =~= seq![s@.subrange(0, j as int)] + split_char(
                s@.subrange(j as int + 1, m as int),
                ',',
            ));
        }
        r
    }
}

pub open spec fn dec_digit(d: int) -> char {
    if d == 0 {
        '0'
    } else if d == 1 {
        '1'
    } else if d == 2 {
        '2'
    } else if d == 3 {
        '3'
    } else if d == 4 {
        '4'
    } else if d == 5 {
        '5'
    } else if d == 6 {
        '6'
    } else if d == 7 {
        '7'
    } else if d == 8 {
        '8'
    } else {
        '9'
    }
}

/// The decimal digits of `n`, most significant first.
pub open spec fn dec_str(n: int) -> Seq<char>
    decreases n,
{
    if n < 10 {
        seq![dec_digit(n)]
    } else {
        dec_str(n / 10).push(dec_digit(n % 10))
    }
}

fn digit_str(d: u64) -> (s: &'static str)
    requires
        d < 10,
    ensures
        s@ == seq![dec_digit(d as int)],
{
    proof {
        reveal_strlit("0");
        reveal_strlit("1");
        reveal_strlit("2");
        reveal_strlit("3");
        reveal_strlit("4");
        reveal_strlit("5");
        reveal_strlit("6");
        reveal_strlit("7");
        reveal_strlit("8");
        reveal_strlit("9");
    }
    let s = if d == 0 {
        "0"
    } else if d == 1 {
        "1"
    } else if d == 2 {
        "2"
    } else if d == 3 {
        "3"
    } else if d == 4 {
        "4"
    } else if d == 5 {
        "5"
    } else if d == 6 {
        "6"
    } else if d == 7 {
        "7"
    } else if d == 8 {
        "8"
    } else {
        "9"
    };
    proof {
        assert(s@ =~= seq![dec_digit(d as int)]);
    }
    s
}

/// `n` written in decimal.
pub fn u64_to_dec(n: u64) -> (s: String)
    ensures
        s@ == dec_str(n as int),
    decreases n,
{
    if n < 10 {
        digit_str(n).to_owned()
    } else {
        let mut s = u64_to_dec(n / 10);
        s.append(digit_str(n % 10));
        proof {
            assert(s@ =~= dec_str(n as int));
        }
        s
    }
}

/// `n` written in decimal.
pub fn u32_to_dec(n: u32) -> (s: String)
    ensures
        s@ == dec_str(n as int),
{
    u64_to_dec(n as u64)
}

/// `n` written in decimal.
pub fn u16_to_dec(n: u16) -> (s: String)
    ensures
        s@ == dec_str(n as int),
{
    u64_to_dec(n as u64)
}

} // verus!
