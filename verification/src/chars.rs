//! Bridges between strings, character vectors and bytes.
//!
//! The codec's verified logic works on `Vec<char>`; these helpers move
//! between that form and `String` / UTF-8 bytes through the standard
//! library.

use vstd::prelude::*;

verus! {

/// Relies on `char::from_u32`: for a Unicode scalar value it returns the
/// character with exactly that code.
#[verifier::external_body]
pub(crate) fn char_of_u32(u: u32) -> (c: char)
    requires
        u < 0xD800 || (0xE000 <= u && u <= 0x10FFFF),
    ensures
        c == (u as char),
{
    char::from_u32(u).unwrap()
}

/// Relies on `String`'s `FromIterator`: collecting characters yields the
/// string of exactly those characters in order.
#[verifier::external_body]
pub(crate) fn string_from_chars(v: &Vec<char>) -> (s: String)
    ensures
        s@ == v@,
{
    v.iter().collect()
}

/// Relies on `str::chars`: the iterator yields the string's characters in
/// order.
#[verifier::external_body]
pub(crate) fn chars_of_str(s: &str) -> (v: Vec<char>)
    ensures
        v@ == s@,
{
    s.chars().collect()
}

/// Relies on `core::str::from_utf8`: it succeeds exactly on well-formed
/// UTF-8 and returns the string those bytes encode.
#[verifier::external_body]
pub(crate) fn str_of_bytes(b: &[u8]) -> (r: Option<&str>)
    ensures
        match r {
            Some(s) => vstd::utf8::valid_utf8(b@) && s@ == vstd::utf8::decode_utf8(b@),
            None => !vstd::utf8::valid_utf8(b@),
        },
{
    core::str::from_utf8(b).ok()
}

} // verus!
