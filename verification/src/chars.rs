//! Character classification used by the lexer: newlines, whitespace,
//! decimal digits and the characters that may appear in a numeric literal.

use vstd::prelude::*;

verus! {

/// The newline characters the lexer recognizes.
pub open spec fn is_newline_char(c: char) -> bool {
    c == '\n' || c == '\r'
}

/// Whitespace as Unicode defines it (the `White_Space` property).
pub open spec fn is_whitespace_char(c: char) -> bool {
    let u = c as u32;
    ||| u == 0x09
    ||| u == 0x0A
    ||| u == 0x0B
    ||| u == 0x0C
    ||| u == 0x0D
    ||| u == 0x20
    ||| u == 0x85
    ||| u == 0xA0
    ||| u == 0x1680
    ||| (0x2000 <= u && u <= 0x200A)
    ||| u == 0x2028
    ||| u == 0x2029
    ||| u == 0x202F
    ||| u == 0x205F
    ||| u == 0x3000
}

/// A character at which whitespace skipping and identifier scanning stop
/// or continue, respectively: whitespace or a newline.
pub open spec fn is_skip_char(c: char) -> bool {
    is_whitespace_char(c) || is_newline_char(c)
}

/// An ASCII decimal digit.
pub open spec fn is_digit_char(c: char) -> bool {
    0x30 <= (c as u32) && (c as u32) <= 0x39
}

/// A character that the numeric scan consumes: a digit or a dot.
pub open spec fn is_numeric_char(c: char) -> bool {
    is_digit_char(c) || c == '.'
}

/// The numeric value of an ASCII decimal digit.
pub open spec fn digit_val(c: char) -> int {
    (c as u32) - 0x30
}

/// True on `\n` and `\r`.
pub fn is_newline(c: char) -> (r: bool)
    ensures
        r == is_newline_char(c),
{
    c == '\n' || c == '\r'
}

/// True exactly on Unicode whitespace, as `char::is_whitespace` is.
pub fn is_whitespace(c: char) -> (r: bool)
    ensures
        r == is_whitespace_char(c),
{
    let u = c as u32;
    u == 0x09 || u == 0x0A || u == 0x0B || u == 0x0C || u == 0x0D || u == 0x20 || u == 0x85
        || u == 0xA0 || u == 0x1680 || (0x2000 <= u && u <= 0x200A) || u == 0x2028 || u == 0x2029
        || u == 0x202F || u == 0x205F || u == 0x3000
}

/// True on whitespace and newlines: the characters that end a token scan.
pub fn is_skip(c: char) -> (r: bool)
    ensures
        r == is_skip_char(c),
{
    is_whitespace(c) || is_newline(c)
}

/// True on an ASCII decimal digit.
pub fn is_digit(c: char) -> (r: bool)
    ensures
        r == is_digit_char(c),
{
    let u = c as u32;
    0x30 <= u && u <= 0x39
}

/// True on the characters the numeric scan consumes.
pub fn is_numeric(c: char) -> (r: bool)
    ensures
        r == is_numeric_char(c),
{
    is_digit(c) || c == '.'
}

} // verus!
