//! Character classes used by the lexer, and the UTF-8 width of a character.
use vstd::prelude::*;

verus! {

/// `char::is_lowercase`: whether the character has the Unicode `Lowercase`
/// property.
pub uninterp spec fn char_is_lowercase(c: char) -> bool;

/// `char::is_uppercase`: whether the character has the Unicode `Uppercase`
/// property.
pub uninterp spec fn char_is_uppercase(c: char) -> bool;

/// `char::is_alphanumeric`: whether the character is alphabetic or numeric.
pub uninterp spec fn char_is_alphanumeric(c: char) -> bool;

/// `char::is_numeric`: whether the character has a Unicode numeric general
/// category (`Nd`, `Nl` or `No`).
pub uninterp spec fn char_is_numeric(c: char) -> bool;

/// ASCII letters and digits, as a specification.
pub open spec fn is_ascii_lower(c: char) -> bool {
    'a' <= c <= 'z'
}

pub open spec fn is_ascii_upper(c: char) -> bool {
    'A' <= c <= 'Z'
}

pub open spec fn is_ascii_digit(c: char) -> bool {
    '0' <= c <= '9'
}

/// Calls `char::is_lowercase`. Claimed: the result is the `Lowercase`
/// property (named, not spelled out), which on ASCII holds exactly of `a`..`z`.
#[verifier::external_body]
pub(crate) fn is_lowercase(c: char) -> (r: bool)
    ensures
        r == char_is_lowercase(c),
        (c as u32) < 128 ==> (r <==> is_ascii_lower(c)),
{
    c.is_lowercase()
}

/// Calls `char::is_uppercase`. Claimed: the result is the `Uppercase`
/// property, which on ASCII holds exactly of `A`..`Z`.
#[verifier::external_body]
pub(crate) fn is_uppercase(c: char) -> (r: bool)
    ensures
        r == char_is_uppercase(c),
        (c as u32) < 128 ==> (r <==> is_ascii_upper(c)),
{
    c.is_uppercase()
}

/// Calls `char::is_alphanumeric`. Claimed: the result is named; on ASCII it
/// holds exactly of letters and digits, and every lowercase or uppercase
/// character is alphabetic, hence alphanumeric.
#[verifier::external_body]
pub(crate) fn is_alphanumeric(c: char) -> (r: bool)
    ensures
        r == char_is_alphanumeric(c),
        (c as u32) < 128 ==> (r <==> (is_ascii_lower(c) || is_ascii_upper(c) || is_ascii_digit(c))),
        char_is_lowercase(c) ==> r,
        char_is_uppercase(c) ==> r,
{
    c.is_alphanumeric()
}

/// Calls `char::is_numeric`. Claimed: the result is named; on ASCII it holds
/// exactly of the digits `0`..`9`.
#[verifier::external_body]
pub(crate) fn is_numeric(c: char) -> (r: bool)
    ensures
        r == char_is_numeric(c),
        (c as u32) < 128 ==> (r <==> is_ascii_digit(c)),
{
    c.is_numeric()
}

/// The Unicode `White_Space` characters, which `str::trim_start` removes.
pub open spec fn is_white_space(c: char) -> bool {
    let u = c as u32;
    (0x9 <= u <= 0xD) || u == 0x20 || u == 0x85 || u == 0xA0 || u == 0x1680 || (0x2000 <= u
        <= 0x200A) || u == 0x2028 || u == 0x2029 || u == 0x202F || u == 0x205F || u == 0x3000
}

/// Whether `c` is a Unicode `White_Space` character.
pub fn is_whitespace(c: char) -> (r: bool)
    ensures
        r == is_white_space(c),
{
    let u = c as u32;
    (0x9 <= u && u <= 0xD) || u == 0x20 || u == 0x85 || u == 0xA0 || u == 0x1680 || (0x2000 <= u
        && u <= 0x200A) || u == 0x2028 || u == 0x2029 || u == 0x202F || u == 0x205F || u == 0x3000
}

/// Number of bytes in the UTF-8 encoding of `c`.
pub open spec fn utf8_width(c: char) -> nat {
    let u = c as u32;
    if u < 0x80 {
        1
    } else if u < 0x800 {
        2
    } else if u < 0x10000 {
        3
    } else {
        4
    }
}

/// Number of bytes in the UTF-8 encoding of `c`.
pub fn len_utf8(c: char) -> (r: usize)
    ensures
        r == utf8_width(c),
{
    let u = c as u32;
    if u < 0x80 {
        1
    } else if u < 0x800 {
        2
    } else if u < 0x10000 {
        3
    } else {
        4
    }
}

} // verus!
