//! Character classes of the address grammar.

use vstd::prelude::*;

verus! {

/// The code point of a character.
pub open spec fn code(c: char) -> int {
    c as u32 as int
}

/// Space or horizontal tab.
pub open spec fn is_wsp(c: char) -> bool {
    c == ' ' || c == '\t'
}

/// An ASCII letter.
pub open spec fn is_alpha(c: char) -> bool {
    (0x41 <= code(c) <= 0x5a) || (0x61 <= code(c) <= 0x7a)
}

/// An ASCII digit.
pub open spec fn is_digit(c: char) -> bool {
    0x30 <= code(c) <= 0x39
}

/// Any character beyond ASCII.
pub open spec fn is_non_ascii(c: char) -> bool {
    code(c) >= 0x80
}

/// A control character other than NUL, tab, line feed and carriage return,
/// which only the obsolete forms admit as text.
pub open spec fn is_obs_ctl(c: char) -> bool {
    (0x01 <= code(c) <= 0x08) || code(c) == 0x0b || code(c) == 0x0c || (0x0e <= code(c) <= 0x1f)
        || code(c) == 0x7f
}

/// One of the printable ASCII characters that an atom may hold besides
/// letters and digits.
pub open spec fn is_atom_symbol(c: char) -> bool {
    c == '!' || c == '#' || c == '$' || c == '%' || c == '&' || c == '\'' || c == '*' || c == '+'
        || c == '-' || c == '/' || c == '=' || c == '?' || c == '^' || c == '_' || c == '`' || c
        == '{' || c == '|' || c == '}' || c == '~'
}

/// A character of an atom.
pub open spec fn is_atext(c: char) -> bool {
    is_alpha(c) || is_digit(c) || is_atom_symbol(c) || is_non_ascii(c)
}

/// A character that may stand unescaped in a comment: printable ASCII but
/// the two parentheses and the backslash, an obsolete control character, or
/// a character beyond ASCII.
pub open spec fn is_ctext(c: char) -> bool {
    (0x21 <= code(c) <= 0x27) || (0x2a <= code(c) <= 0x5b) || (0x5d <= code(c) <= 0x7e)
        || is_obs_ctl(c) || is_non_ascii(c)
}

/// A character that may stand unescaped in a quoted string: printable ASCII
/// but the double quote and the backslash, an obsolete control character,
/// or a character beyond ASCII.
pub open spec fn is_qtext(c: char) -> bool {
    code(c) == 0x21 || (0x23 <= code(c) <= 0x5b) || (0x5d <= code(c) <= 0x7e) || is_obs_ctl(c)
        || is_non_ascii(c)
}

/// A character that may stand unescaped in a domain literal: printable
/// ASCII but the two square brackets and the backslash, an obsolete control
/// character, or a character beyond ASCII.
pub open spec fn is_dtext(c: char) -> bool {
    (0x21 <= code(c) <= 0x5a) || (0x5e <= code(c) <= 0x7e) || is_obs_ctl(c) || is_non_ascii(c)
}

/// A character that may follow a backslash: any ASCII character (the
/// printable ones and the blanks by the current form of the quoted pair,
/// the others by the obsolete one).
pub open spec fn is_escapable(c: char) -> bool {
    code(c) <= 0x7f
}

/// A character of a domain label other than the hyphen: a letter or a
/// digit, a character beyond ASCII counting as a letter.
pub open spec fn is_label_char(c: char) -> bool {
    is_alpha(c) || is_digit(c) || is_non_ascii(c)
}

pub fn blank(c: char) -> (r: bool)
    ensures
        r == is_wsp(c),
{
    c == ' ' || c == '\t'
}

pub fn obs_ctl(c: char) -> (r: bool)
    ensures
        r == is_obs_ctl(c),
{
    let n: u32 = c as u32;
    (0x01 <= n && n <= 0x08) || n == 0x0b || n == 0x0c || (0x0e <= n && n <= 0x1f) || n == 0x7f
}

pub fn atext(c: char) -> (r: bool)
    ensures
        r == is_atext(c),
{
    let n: u32 = c as u32;
    (0x41 <= n && n <= 0x5a) || (0x61 <= n && n <= 0x7a) || (0x30 <= n && n <= 0x39) || n >= 0x80
        || c == '!' || c == '#' || c == '$' || c == '%' || c == '&' || c == '\'' || c == '*' || c
        == '+' || c == '-' || c == '/' || c == '=' || c == '?' || c == '^' || c == '_' || c == '`'
        || c == '{' || c == '|' || c == '}' || c == '~'
}

pub fn ctext(c: char) -> (r: bool)
    ensures
        r == is_ctext(c),
{
    let n: u32 = c as u32;
    (0x21 <= n && n <= 0x27) || (0x2a <= n && n <= 0x5b) || (0x5d <= n && n <= 0x7e) || obs_ctl(c)
        || n >= 0x80
}

pub fn qtext(c: char) -> (r: bool)
    ensures
        r == is_qtext(c),
{
    let n: u32 = c as u32;
    n == 0x21 || (0x23 <= n && n <= 0x5b) || (0x5d <= n && n <= 0x7e) || obs_ctl(c) || n >= 0x80
}

pub fn dtext(c: char) -> (r: bool)
    ensures
        r == is_dtext(c),
{
    let n: u32 = c as u32;
    (0x21 <= n && n <= 0x5a) || (0x5e <= n && n <= 0x7e) || obs_ctl(c) || n >= 0x80
}

pub fn escapable(c: char) -> (r: bool)
    ensures
        r == is_escapable(c),
{
    let n: u32 = c as u32;
    n <= 0x7f
}

pub fn label_char(c: char) -> (r: bool)
    ensures
        r == is_label_char(c),
{
    let n: u32 = c as u32;
    (0x41 <= n && n <= 0x5a) || (0x61 <= n && n <= 0x7a) || (0x30 <= n && n <= 0x39) || n >= 0x80
}

} // verus!
