//! How many bytes a text occupies once it is UTF-8 encoded.

use vstd::prelude::*;
use vstd::utf8::{
    decode_utf8, encode_scalar, encode_utf8, is_ascii_chars, valid_utf8,
};

verus! {

/// Length in bytes of the UTF-8 encoding of `t`.
pub open spec fn utf8_len(t: Seq<char>) -> nat {
    encode_utf8(t).len()
}

/// Encoding distributes over concatenation.
pub proof fn lemma_encode_concat(a: Seq<char>, b: Seq<char>)
    ensures
        encode_utf8(a + b) == encode_utf8(a) + encode_utf8(b),
        utf8_len(a + b) == utf8_len(a) + utf8_len(b),
    decreases a.len(),
{
    if a.len() == 0 {
        assert(a + b == b);
        assert(encode_utf8(a) + encode_utf8(b) == encode_utf8(b));
    } else {
        assert((a + b).drop_first() == a.drop_first() + b);
        assert((a + b)[0] == a[0]);
        lemma_encode_concat(a.drop_first(), b);
        let head = encode_scalar(a[0] as u32);
        assert(head + (encode_utf8(a.drop_first()) + encode_utf8(b)) == (head + encode_utf8(
            a.drop_first(),
        )) + encode_utf8(b));
    }
}

/// A single character takes between one and four bytes.
pub proof fn lemma_char_width(c: char)
    ensures
        1 <= utf8_len(seq![c]) <= 4,
{
    let s = seq![c];
    assert(s.drop_first() == Seq::<char>::empty());
    assert(encode_utf8(s.drop_first()).len() == 0);
    assert(encode_utf8(s) == encode_scalar(c as u32) + encode_utf8(s.drop_first()));
}

/// Appending one character adds the bytes of that character.
pub proof fn lemma_encode_push(t: Seq<char>, c: char)
    ensures
        encode_utf8(t.push(c)) == encode_utf8(t) + encode_utf8(seq![c]),
        utf8_len(t.push(c)) == utf8_len(t) + utf8_len(seq![c]),
        utf8_len(t.push(c)) > utf8_len(t),
{
    assert(t.push(c) == t + seq![c]);
    lemma_encode_concat(t, seq![c]);
    lemma_char_width(c);
}

/// A text has at most as many characters as bytes.
pub proof fn lemma_chars_at_most_bytes(t: Seq<char>)
    ensures
        t.len() <= utf8_len(t),
    decreases t.len(),
{
    if t.len() > 0 {
        lemma_chars_at_most_bytes(t.drop_last());
        assert(t == t.drop_last().push(t.last()));
        lemma_encode_push(t.drop_last(), t.last());
    }
}

/// A part of a text takes no more bytes than the whole.
pub proof fn lemma_utf8_len_subrange(t: Seq<char>, from: int, to: int)
    requires
        0 <= from <= to <= t.len(),
    ensures
        utf8_len(t.subrange(from, to)) <= utf8_len(t),
{
    let before = t.subrange(0, from);
    let part = t.subrange(from, to);
    let after = t.subrange(to, t.len() as int);
    assert(t == (before + part) + after);
    lemma_encode_concat(before + part, after);
    lemma_encode_concat(before, part);
}

/// Dropping characters from a text never makes its encoding longer.
pub proof fn lemma_utf8_len_filter(t: Seq<char>, keep: spec_fn(char) -> bool)
    ensures
        utf8_len(t.filter(keep)) <= utf8_len(t),
    decreases t.len(),
{
    reveal(Seq::filter);
    if t.len() > 0 {
        lemma_utf8_len_filter(t.drop_last(), keep);
        assert(t == t.drop_last().push(t.last()));
        lemma_encode_push(t.drop_last(), t.last());
        if keep(t.last()) {
            lemma_encode_push(t.drop_last().filter(keep), t.last());
        }
    }
}

/// A text of ASCII characters takes one byte per character, the byte being
/// the character's code.
pub proof fn lemma_ascii_bytes(t: Seq<char>)
    requires
        is_ascii_chars(t),
    ensures
        utf8_len(t) == t.len(),
        forall|i: int| 0 <= i < t.len() ==> #[trigger] encode_utf8(t)[i] == t[i] as u8,
{
    vstd::utf8::is_ascii_chars_encode_utf8(t);
}

/// Decoding valid bytes gives a text that encodes to as many bytes again.
pub proof fn lemma_decoded_len(bytes: Seq<u8>)
    requires
        valid_utf8(bytes),
    ensures
        encode_utf8(decode_utf8(bytes)) == bytes,
        utf8_len(decode_utf8(bytes)) == bytes.len(),
{
    vstd::utf8::decode_utf8_encode_utf8(bytes);
}

/// Encoding a text and decoding the bytes gives the text back.
pub proof fn lemma_encoded_text(t: Seq<char>)
    ensures
        valid_utf8(encode_utf8(t)),
        decode_utf8(encode_utf8(t)) == t,
{
    vstd::utf8::encode_utf8_valid_utf8(t);
    vstd::utf8::encode_utf8_decode_utf8(t);
}

} // verus!
