//! The few operations on `String` that the game's text editing needs.
use vstd::prelude::*;
use vstd::utf8::{decode_utf8, encode_utf8, is_char_boundary};

verus! {

/// Calls `String::push_str`, which appends `tail` to `s`.
#[verifier::external_body]
pub(crate) fn push_str(s: &mut String, tail: &str)
    ensures
        final(s)@ == old(s)@ + tail@,
{
    s.push_str(tail);
}

/// Calls `String::truncate`, which keeps the first `new_len` bytes of the
/// UTF-8 encoding of `s`, or all of it when it is no longer than that, and
/// panics when `new_len` falls inside a character.
#[verifier::external_body]
pub(crate) fn truncate(s: &mut String, new_len: usize)
    requires
        new_len >= encode_utf8(old(s)@).len() || is_char_boundary(encode_utf8(old(s)@), new_len as int),
    ensures
        final(s)@ == (if new_len >= encode_utf8(old(s)@).len() {
            old(s)@
        } else {
            decode_utf8(encode_utf8(old(s)@).take(new_len as int))
        }),
{
    s.truncate(new_len);
}

/// Calls `str::eq`: two string slices are equal when they hold the same
/// characters.
#[verifier::external_body]
pub(crate) fn str_eq(a: &str, b: &str) -> (r: bool)
    ensures
        r == (a@ == b@),
{
    a == b
}

} // verus!
