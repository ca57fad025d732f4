//! Text in messages: a string on the wire whose bytes are UTF-8.

use super::MessageError;
use crate::wire::{
    copy_range, lemma_string_at_extends, lemma_string_at_wire, read_string, string_at,
    string_from_utf8, string_wire,
};
use vstd::prelude::*;
use vstd::string::*;
use vstd::utf8::{
    decode_utf8, encode_utf8, encode_utf8_decode_utf8, encode_utf8_valid_utf8, valid_utf8,
};

verus! {

/// The text that starts at `at`, and the position behind it: the string there, which must be
/// UTF-8.
pub open spec fn text_at(data: Seq<u8>, at: int) -> Result<(Seq<char>, int), MessageError> {
    match string_at(data, at) {
        None => Err(MessageError::Truncated),
        Some((bytes, next)) => {
            if valid_utf8(bytes) {
                Ok((decode_utf8(bytes), next))
            } else {
                Err(MessageError::InvalidField)
            }
        },
    }
}

/// A text that was written as a string behind `head`, at the start of `data`, is read back from
/// there.
pub proof fn lemma_text_written(head: Seq<u8>, text: Seq<char>, data: Seq<u8>)
    requires
        encode_utf8(text).len() <= u32::MAX,
        (head + string_wire(encode_utf8(text))).is_prefix_of(data),
    ensures
        text_at(data, head.len() as int) == Ok::<(Seq<char>, int), MessageError>(
            (text, head.len() as int + 4 + encode_utf8(text).len()),
        ),
{
    let bytes = encode_utf8(text);
    let part = head + string_wire(bytes);
    lemma_string_at_wire(head, bytes, Seq::empty());
    assert(part + Seq::<u8>::empty() =~= part);
    lemma_string_at_extends(part, data, head.len() as int);
    encode_utf8_valid_utf8(text);
    encode_utf8_decode_utf8(text);
}

/// Reads the text that starts at `at`, and gives the position behind it.
pub fn read_text(data: &[u8], at: usize) -> (r: Result<(String, usize), MessageError>)
    requires
        at <= data@.len(),
    ensures
        match text_at(data@, at as int) {
            Ok((text, next)) => r matches Ok((t, after)) && t@ == text && after == next && after
                <= data@.len(),
            Err(e) => r == Err::<(String, usize), MessageError>(e),
        },
{
    let (from, to) = match read_string(data, at) {
        Some(range) => range,
        None => {
            return Err(MessageError::Truncated);
        },
    };
    match string_from_utf8(copy_range(data, from, to)) {
        Some(text) => {
            proof {
                encode_utf8_decode_utf8(text@);
            }
            Ok((text, to))
        },
        None => Err(MessageError::InvalidField),
    }
}

} // verus!
