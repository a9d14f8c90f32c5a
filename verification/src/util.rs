//! Numbers as decimal text.

use crate::encoding::{lemma_ascii_bytes, utf8_len};
use crate::response::{lemma_logical_len_push, logical_len, logical_length};
use crate::text::{new_text, text_of};
use core::fmt::Write;
use vstd::prelude::*;
use vstd::utf8::is_ascii_chars;

verus! {

/// `core::fmt::Error`, the failure of a formatted write. It holds nothing.
#[verifier::external_type_specification]
#[verifier::external_body]
pub struct ExFmtError(core::fmt::Error);

/// The character of the decimal digit `d`.
pub open spec fn digit(d: nat) -> char
    recommends
        d < 10,
{
    if d == 0 {
        '0'
    } else if d == 1 {
        '1'
    } else if d == 2 {
        '2'
    } else if d == 3 {
        '3'
    } else if d == 4 {
        '4'
    } else if d == 5 {
        '5'
    } else if d == 6 {
        '6'
    } else if d == 7 {
        '7'
    } else if d == 8 {
        '8'
    } else {
        '9'
    }
}

/// `n` in decimal, most significant digit first, without leading zeros.
pub open spec fn decimal(n: nat) -> Seq<char>
    decreases n,
{
    if n < 10 {
        seq![digit(n)]
    } else {
        decimal(n / 10).push(digit(n % 10))
    }
}

/// Ten to the power of `k`.
pub open spec fn pow10(k: nat) -> nat
    decreases k,
{
    if k == 0 {
        1
    } else {
        10 * pow10((k - 1) as nat)
    }
}

/// A number below `10^k` has at most `k` digits.
pub proof fn lemma_decimal_len(n: nat, k: nat)
    requires
        k >= 1,
        n < pow10(k),
    ensures
        1 <= decimal(n).len() <= k,
    decreases k,
{
    reveal_with_fuel(pow10, 2);
    if n >= 10 {
        lemma_decimal_len(n / 10, (k - 1) as nat);
    }
}

/// Decimal text consists of ASCII digits only: it takes one byte per digit
/// and none of its characters is fill.
pub proof fn lemma_decimal_plain(n: nat)
    ensures
        is_ascii_chars(decimal(n)),
        utf8_len(decimal(n)) == decimal(n).len(),
        logical_len(decimal(n)) == decimal(n).len(),
        forall|i: int| 0 <= i < decimal(n).len() ==> '0' <= #[trigger] decimal(n)[i] <= '9',
    decreases n,
{
    if n < 10 {
        assert(seq![digit(n)] == Seq::<char>::empty().push(digit(n)));
        lemma_logical_len_push(Seq::<char>::empty(), digit(n));
        assert(logical_len(Seq::<char>::empty()) == 0) by {
            reveal(Seq::filter);
        }
    } else {
        lemma_decimal_plain(n / 10);
        lemma_logical_len_push(decimal(n / 10), digit(n % 10));
    }
    lemma_ascii_bytes(decimal(n));
}

/// Any `usize` has at most twenty decimal digits.
pub proof fn lemma_decimal_len_usize(value: usize)
    ensures
        1 <= decimal(value as nat).len() <= 20,
{
    reveal_with_fuel(pow10, 21);
    assert(pow10(20) == 100_000_000_000_000_000_000nat);
    lemma_decimal_len(value as nat, 20);
}

/// `core::write!` of `value` with the format `{}` into a `heapless::String`.
/// Nothing of this is proved: `usize` is displayed in decimal without sign,
/// padding or leading zeros, and the buffer takes the digits if they fit in
/// what is left of its 256 bytes. When they do not fit the call fails, and
/// nothing is said of what the buffer then holds.
#[verifier::external_body]
pub(crate) fn write_decimal(s: &mut heapless::String<256>, value: usize) -> (r: Result<
    (),
    core::fmt::Error,
>)
    ensures
        r is Ok <==> utf8_len(text_of(*old(s))) + decimal(value as nat).len() <= 256,
        r is Ok ==> text_of(*final(s)) == text_of(*old(s)) + decimal(value as nat),
{
    write!(s, "{}", value)
}

/// Renders `input` in decimal into a fresh buffer and pairs it with its
/// logical length, the number of digits. A `usize` always fits.
pub fn parse_to_str(input: usize) -> (r: Result<(heapless::String<256>, usize), core::fmt::Error>)
    ensures
        r matches Ok((s, len)) && text_of(s) == decimal(input as nat) && len == decimal(
            input as nat,
        ).len(),
{
    let mut s = new_text();
    proof {
        lemma_decimal_len_usize(input);
        lemma_decimal_plain(input as nat);
        assert(utf8_len(Seq::<char>::empty()) == 0);
        assert(Seq::<char>::empty() + decimal(input as nat) == decimal(input as nat));
    }
    match write_decimal(&mut s, input) {
        Ok(()) => {
            let len = logical_length(&s);
            Ok((s, len))
        },
        Err(e) => Err(e),
    }
}

} // verus!
