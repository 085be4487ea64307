//! Editing of strings.
//!
//! The standard library's editing functions are trusted to do what their
//! documentation says; positions count bytes of UTF-8.

use vstd::prelude::*;
use vstd::utf8::{encode_scalar, encode_utf8, is_char_boundary};

verus! {

/// `String::push`: puts `ch` at the end.
#[verifier::external_body]
pub(crate) fn string_push(text: &mut String, ch: char)
    ensures
        final(text)@ == old(text)@.push(ch),
{
    text.push(ch)
}

/// `String::pop`: takes the last character off and returns it; an empty
/// string is left as it is.
#[verifier::external_body]
pub(crate) fn string_pop(text: &mut String) -> (ch: Option<char>)
    ensures
        match ch {
            Some(last) => old(text)@.len() > 0 && last == old(text)@.last() && final(text)@ == old(
                text,
            )@.drop_last(),
            None => old(text)@.len() == 0 && final(text)@ == old(text)@,
        },
{
    text.pop()
}

/// `String::insert`: puts `ch` at byte `index`, which is on a character
/// boundary, in front of what was there.
#[verifier::external_body]
pub(crate) fn string_insert(text: &mut String, index: usize, ch: char)
    requires
        is_char_boundary(encode_utf8(old(text)@), index as int),
    ensures
        encode_utf8(final(text)@) == encode_utf8(old(text)@).subrange(0, index as int)
            + encode_scalar(ch as u32) + encode_utf8(old(text)@).subrange(
            index as int,
            encode_utf8(old(text)@).len() as int,
        ),
{
    text.insert(index, ch)
}

/// `String::remove`: takes out the character that starts at byte `index`
/// and returns it.
#[verifier::external_body]
pub(crate) fn string_remove(text: &mut String, index: usize) -> (ch: char)
    requires
        index < encode_utf8(old(text)@).len(),
        is_char_boundary(encode_utf8(old(text)@), index as int),
    ensures
        index <= encode_utf8(final(text)@).len(),
        encode_utf8(old(text)@) == encode_utf8(final(text)@).subrange(0, index as int)
            + encode_scalar(ch as u32) + encode_utf8(final(text)@).subrange(
            index as int,
            encode_utf8(final(text)@).len() as int,
        ),
{
    text.remove(index)
}

/// The number of bytes that `ch` takes in UTF-8.
pub fn len_utf8(ch: char) -> (len: usize)
    ensures
        len == encode_scalar(ch as u32).len(),
        1 <= len <= 4,
{
    let code = ch as u32;
    if code < 0x80 {
        1
    } else if code < 0x800 {
        2
    } else if code < 0x10000 {
        proof {
            vstd::utf8::char_is_scalar(ch);
        }
        3
    } else {
        4
    }
}

} // verus!
