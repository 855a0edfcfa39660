//! Character classification. The Unicode character classes used by the
//! validators are exposed as named spec functions; the standard library's
//! classifiers are trusted to compute them, together with the few concrete
//! facts about ASCII that their documentation states outright.

use vstd::prelude::*;

verus! {

pub uninterp spec fn char_uppercase(c: char) -> bool;

pub uninterp spec fn char_lowercase(c: char) -> bool;

pub uninterp spec fn char_numeric(c: char) -> bool;

pub uninterp spec fn char_whitespace(c: char) -> bool;

/// Relies on char::is_uppercase: the Unicode Uppercase property, which holds
/// of the ASCII letters A-Z.
pub assume_specification[ char::is_uppercase ](c: char) -> (r: bool)
    ensures
        r == char_uppercase(c),
        'A' <= c && c <= 'Z' ==> r,
;

/// Relies on char::is_lowercase: the Unicode Lowercase property, which holds
/// of the ASCII letters a-z.
pub assume_specification[ char::is_lowercase ](c: char) -> (r: bool)
    ensures
        r == char_lowercase(c),
        'a' <= c && c <= 'z' ==> r,
;

/// Relies on char::is_numeric: the Unicode numeric general categories, which
/// hold of the ASCII digits 0-9.
pub assume_specification[ char::is_numeric ](c: char) -> (r: bool)
    ensures
        r == char_numeric(c),
        '0' <= c && c <= '9' ==> r,
;

/// Relies on char::is_whitespace: the Unicode White_Space property, which
/// holds of space, tab, newline and carriage return, and of no ASCII letter
/// or digit.
pub assume_specification[ char::is_whitespace ](c: char) -> (r: bool)
    ensures
        r == char_whitespace(c),
        c == ' ' || c == '\t' || c == '\n' || c == '\r' ==> r,
        'a' <= c && c <= 'z' ==> !r,
        'A' <= c && c <= 'Z' ==> !r,
        '0' <= c && c <= '9' ==> !r,
;

} // verus!
