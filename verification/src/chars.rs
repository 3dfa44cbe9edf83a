//! Character classes of the document grammar and of the identifier alphabet.

use vstd::prelude::*;

verus! {

/// The characters that count as white space: the code points that carry the
/// Unicode property `White_Space`.
pub open spec fn is_space(c: char) -> bool {
    ||| '\u{9}' <= c <= '\u{d}'
    ||| c == ' '
    ||| c == '\u{85}'
    ||| c == '\u{a0}'
    ||| c == '\u{1680}'
    ||| '\u{2000}' <= c <= '\u{200a}'
    ||| c == '\u{2028}'
    ||| c == '\u{2029}'
    ||| c == '\u{202f}'
    ||| c == '\u{205f}'
    ||| c == '\u{3000}'
}

/// The ten decimal digits `0` to `9`.
pub open spec fn is_digit(c: char) -> bool {
    '0' <= c <= '9'
}

/// The lowercase form of `c` as far as it can matter to a comparison with
/// ASCII text: an ASCII capital goes to its small letter, KELVIN SIGN
/// (U+212A, the one character outside ASCII whose lowercase form is an ASCII
/// letter) goes to `k`, and every other character stays as it is.
pub open spec fn lower(c: char) -> char {
    if 'A' <= c <= 'Z' {
        ((c as u8) + 32) as char
    } else if c == '\u{212a}' {
        'k'
    } else {
        c
    }
}

/// The alphabet of an identifier: small ASCII letters, digits, `_`, `-`, `+`.
pub open spec fn is_id_char(c: char) -> bool {
    ||| 'a' <= c <= 'z'
    ||| '0' <= c <= '9'
    ||| c == '_'
    ||| c == '-'
    ||| c == '+'
}

/// What one character of a text becomes in its identifier: its lowercase
/// form where that is in the alphabet, a hyphen otherwise.
pub open spec fn id_char(c: char) -> char {
    if is_id_char(lower(c)) {
        lower(c)
    } else {
        '-'
    }
}

pub fn is_whitespace(c: char) -> (r: bool)
    ensures
        r == is_space(c),
{
    ('\u{9}' <= c && c <= '\u{d}') || c == ' ' || c == '\u{85}' || c == '\u{a0}' || c == '\u{1680}'
        || ('\u{2000}' <= c && c <= '\u{200a}') || c == '\u{2028}' || c == '\u{2029}' || c
        == '\u{202f}' || c == '\u{205f}' || c == '\u{3000}'
}

pub fn is_decimal_digit(c: char) -> (r: bool)
    ensures
        r == is_digit(c),
{
    '0' <= c && c <= '9'
}

pub fn to_lower(c: char) -> (r: char)
    ensures
        r == lower(c),
{
    if 'A' <= c && c <= 'Z' {
        let b: u8 = c as u8;
        (b + 32) as char
    } else if c == '\u{212a}' {
        'k'
    } else {
        c
    }
}

pub fn to_id_char(c: char) -> (r: char)
    ensures
        r == id_char(c),
        is_id_char(r),
{
    let l = to_lower(c);
    if ('a' <= l && l <= 'z') || ('0' <= l && l <= '9') || l == '_' || l == '-' || l == '+' {
        l
    } else {
        '-'
    }
}

} // verus!
