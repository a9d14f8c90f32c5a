//! The fixed-capacity buffers of the `heapless` crate, as the proofs see them.
//!
//! Nothing in this module is proved. Each function wraps one call into
//! `heapless` or `core` and states what that call does, in terms of the
//! characters ([`text_of`]) or bytes ([`bytes_of`]) that a buffer holds. The
//! proofs of the rest of the library stand on these statements.

use vstd::prelude::*;
use vstd::utf8::{decode_utf8, encode_utf8, valid_utf8};

verus! {

/// Capacity in bytes of every text buffer of the driver.
pub const BUF_SIZE: usize = 256;

/// `heapless::String`, a text buffer of `N` bytes. The proofs do not look
/// inside it; what it holds is [`text_of`].
#[verifier::external_type_specification]
#[verifier::external_body]
pub struct ExBoundedString<const N: usize>(heapless::String<N>);

/// `heapless::Vec`, a buffer of `N` elements. The proofs do not look inside
/// it; what it holds is [`bytes_of`].
#[verifier::external_type_specification]
#[verifier::external_body]
#[verifier::reject_recursive_types(T)]
pub struct ExBoundedVec<T, const N: usize>(heapless::Vec<T, N>);

/// `core::str::Utf8Error`, the reason why bytes are no text. Nothing is said
/// of what it holds.
#[verifier::external_type_specification]
#[verifier::external_body]
pub struct ExUtf8Error(core::str::Utf8Error);

/// The characters held by a `heapless::String`, in order.
pub uninterp spec fn text_of(s: heapless::String<256>) -> Seq<char>;

/// The bytes held by a `heapless::Vec`, in order.
pub uninterp spec fn bytes_of(v: heapless::Vec<u8, 256>) -> Seq<u8>;

/// `heapless::String::new`: a buffer that holds no characters.
#[verifier::external_body]
pub(crate) fn new_text() -> (s: heapless::String<256>)
    ensures
        text_of(s) == Seq::<char>::empty(),
{
    heapless::String::new()
}

/// `heapless::String::push_str`: appends `piece` if the UTF-8 encoding of the
/// result still fits in the 256 bytes of the buffer, and otherwise reports an
/// error and leaves the buffer as it was.
#[verifier::external_body]
pub(crate) fn push_str(s: &mut heapless::String<256>, piece: &str) -> (r: Result<(), ()>)
    ensures
        r is Ok <==> encode_utf8(text_of(*old(s))).len() + encode_utf8(piece@).len() <= 256,
        r is Ok ==> text_of(*final(s)) == text_of(*old(s)) + piece@,
        r is Err ==> text_of(*final(s)) == text_of(*old(s)),
{
    s.push_str(piece)
}

/// `heapless::String::push`: appends the character `c` if its UTF-8 encoding
/// still fits in the 256 bytes of the buffer, and otherwise reports an error
/// and leaves the buffer as it was.
#[verifier::external_body]
pub(crate) fn push_char(s: &mut heapless::String<256>, c: char) -> (r: Result<(), ()>)
    ensures
        r is Ok <==> encode_utf8(text_of(*old(s))).len() + encode_utf8(seq![c]).len() <= 256,
        r is Ok ==> text_of(*final(s)) == text_of(*old(s)).push(c),
        r is Err ==> text_of(*final(s)) == text_of(*old(s)),
{
    s.push(c)
}

/// `heapless::String::as_str`: the held characters as a string slice. The
/// buffer stores them UTF-8 encoded in an array of 256 bytes, so the encoding
/// is never longer than that.
#[verifier::external_body]
pub(crate) fn as_str<'a>(s: &'a heapless::String<256>) -> (r: &'a str)
    ensures
        r@ == text_of(*s),
        encode_utf8(r@).len() <= 256,
{
    s.as_str()
}

/// `heapless::Vec::from_slice`: a byte buffer with a copy of `bytes`, or an
/// error if there are more than 256 of them.
#[verifier::external_body]
pub(crate) fn vec_from_slice(bytes: &[u8]) -> (r: Result<heapless::Vec<u8, 256>, ()>)
    ensures
        r is Ok <==> bytes@.len() <= 256,
        r matches Ok(v) ==> bytes_of(v) == bytes@,
{
    heapless::Vec::from_slice(bytes)
}

/// `heapless::String::from_utf8`: turns a byte buffer into a text buffer. It
/// succeeds exactly when the bytes are valid UTF-8, and the text is then what
/// they encode.
#[verifier::external_body]
pub(crate) fn string_from_utf8(v: heapless::Vec<u8, 256>) -> (r: Result<
    heapless::String<256>,
    core::str::Utf8Error,
>)
    ensures
        r is Ok <==> valid_utf8(bytes_of(v)),
        r matches Ok(s) ==> text_of(s) == decode_utf8(bytes_of(v)),
{
    heapless::String::from_utf8(v)
}

/// `core::str::from_utf8`: views bytes as a string slice. It succeeds exactly
/// when the bytes are valid UTF-8, and the slice is then what they encode.
#[verifier::external_body]
pub(crate) fn str_from_utf8<'a>(bytes: &'a [u8]) -> (r: Result<&'a str, core::str::Utf8Error>)
    ensures
        r is Ok <==> valid_utf8(bytes@),
        r matches Ok(s) ==> s@ == decode_utf8(bytes@),
{
    core::str::from_utf8(bytes)
}

} // verus!
