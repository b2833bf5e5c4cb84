//! Character classes the tokenizer skips.
use vstd::prelude::*;

verus! {

/// The characters with the Unicode `White_Space` property.
pub open spec fn white_space(c: char) -> bool {
    let v = c as u32;
    ||| 0x9 <= v <= 0xd
    ||| v == 0x20
    ||| v == 0x85
    ||| v == 0xa0
    ||| v == 0x1680
    ||| 0x2000 <= v <= 0x200a
    ||| v == 0x2028
    ||| v == 0x2029
    ||| v == 0x202f
    ||| v == 0x205f
    ||| v == 0x3000
}

/// The five characters of the WhatWG definition of ASCII whitespace:
/// space, tab, line feed, form feed and carriage return.
pub open spec fn ascii_white_space(c: char) -> bool {
    let v = c as u32;
    v == 0x20 || v == 0x9 || v == 0xa || v == 0xc || v == 0xd
}

/// Relies on `char::is_whitespace`: true exactly for the characters with the
/// Unicode `White_Space` property (listed in `white_space`).
#[verifier::external_body]
pub(crate) fn is_white_space(c: char) -> (r: bool)
    ensures
        r == white_space(c),
{
    c.is_whitespace()
}

/// Relies on `char::is_ascii_whitespace`: true exactly for U+0020, U+0009,
/// U+000A, U+000C and U+000D.
#[verifier::external_body]
pub(crate) fn is_ascii_white_space(c: char) -> (r: bool)
    ensures
        r == ascii_white_space(c),
{
    c.is_ascii_whitespace()
}

} // verus!
