//! What the module sends back: from the bytes on the wire to the text handed
//! to the caller.

use crate::encoding::{
    lemma_chars_at_most_bytes, lemma_encode_push, lemma_utf8_len_filter,
    lemma_utf8_len_subrange, utf8_len,
};
use crate::error::{Esp8266Error, StringConversionError};
use crate::text::{as_str, new_text, push_char, string_from_utf8, text_of, vec_from_slice};
use vstd::prelude::*;
use vstd::utf8::{decode_utf8, valid_utf8};

verus! {

/// A response as the driver hands it out: the text and its logical length.
pub type Response = (heapless::String<256>, usize);

/// The mathematical content of a [`Response`].
pub open spec fn response_view(r: Response) -> (Seq<char>, nat) {
    (text_of(r.0), r.1 as nat)
}

/// The mathematical content of a response that may have failed.
pub open spec fn result_view(r: Result<Response, Esp8266Error>) -> Result<
    (Seq<char>, nat),
    Esp8266Error,
> {
    match r {
        Ok(response) => Ok(response_view(response)),
        Err(e) => Err(e),
    }
}

/// Whether `c` counts towards the logical length of a text: every character
/// does, except the NUL that fills the unused part of a buffer.
pub open spec fn is_meaningful(c: char) -> bool {
    c != '\0'
}

/// Number of characters of `t` that are not fill.
pub open spec fn logical_len(t: Seq<char>) -> nat {
    t.filter(|c: char| is_meaningful(c)).len()
}

/// Whether `c` is one of the two characters that end a line.
pub open spec fn is_line_end(c: char) -> bool {
    c == '\r' || c == '\n'
}

/// `t` without the line ends it begins with.
pub open spec fn trim_start(t: Seq<char>) -> Seq<char>
    decreases t.len(),
{
    if t.len() > 0 && is_line_end(t.first()) {
        trim_start(t.drop_first())
    } else {
        t
    }
}

/// `t` without the line ends it stops with.
pub open spec fn trim_end(t: Seq<char>) -> Seq<char>
    decreases t.len(),
{
    if t.len() > 0 && is_line_end(t.last()) {
        trim_end(t.drop_last())
    } else {
        t
    }
}

/// `t` without the line ends at either side.
pub open spec fn trim_line_ends(t: Seq<char>) -> Seq<char> {
    trim_end(trim_start(t))
}

/// `t` without any carriage return.
pub open spec fn strip_cr(t: Seq<char>) -> Seq<char> {
    t.filter(|c: char| c != '\r')
}

/// The text of a response in the form the caller gets: the line ends around
/// it are cut off, then the carriage returns left inside are removed.
pub open spec fn normalize(t: Seq<char>) -> Seq<char> {
    strip_cr(trim_line_ends(t))
}

/// What the transport makes of the bytes of one read: they have to fit a
/// buffer and to be valid UTF-8, and the logical length is their number.
pub open spec fn raw_response(bytes: Seq<u8>) -> Result<(Seq<char>, nat), Esp8266Error> {
    if bytes.len() > 256 {
        Err(Esp8266Error::capacity())
    } else if !valid_utf8(bytes) {
        Err(Esp8266Error::utf8())
    } else {
        Ok((decode_utf8(bytes), bytes.len()))
    }
}

/// The normalized form of a raw text, with its logical length.
pub open spec fn normalized_response(raw: Seq<char>) -> (Seq<char>, nat) {
    (normalize(raw), logical_len(normalize(raw)))
}

/// The token by which the module reports success.
pub open spec fn success_marker() -> Seq<char> {
    seq!['O', 'K']
}

/// Whether `needle` occurs in `t` at position `i`.
pub open spec fn occurs_at(t: Seq<char>, needle: Seq<char>, i: int) -> bool {
    0 <= i && i + needle.len() <= t.len() && t.subrange(i, i + needle.len()) == needle
}

/// Whether the success marker occurs anywhere in `t`.
pub open spec fn has_success_marker(t: Seq<char>) -> bool {
    exists|i: int| occurs_at(t, success_marker(), i)
}

/// `start` and `end` delimit what is left of `t` when the line ends around it
/// are cut off.
pub open spec fn trimmed_at(t: Seq<char>, start: int, end: int) -> bool {
    &&& 0 <= start <= end <= t.len()
    &&& forall|i: int| 0 <= i < start ==> is_line_end(#[trigger] t[i])
    &&& forall|i: int| end <= i < t.len() ==> is_line_end(#[trigger] t[i])
    &&& start < end ==> !is_line_end(t[start]) && !is_line_end(t[end - 1])
}

/// Counting one more character.
pub proof fn lemma_logical_len_push(t: Seq<char>, c: char)
    ensures
        logical_len(t.push(c)) == logical_len(t) + if is_meaningful(c) {
            1nat
        } else {
            0nat
        },
        logical_len(t) <= t.len(),
{
    reveal(Seq::filter);
    assert(t.push(c).drop_last() == t);
    t.lemma_filter_len(|c: char| is_meaningful(c));
}

/// Removing carriage returns from a text with one more character.
pub proof fn lemma_strip_cr_push(t: Seq<char>, c: char)
    ensures
        strip_cr(t.push(c)) == if c == '\r' {
            strip_cr(t)
        } else {
            strip_cr(t).push(c)
        },
{
    reveal(Seq::filter);
    assert(t.push(c).drop_last() == t);
}

proof fn lemma_trim_start_at(t: Seq<char>, k: int)
    requires
        0 <= k <= t.len(),
        forall|i: int| 0 <= i < k ==> is_line_end(#[trigger] t[i]),
        k == t.len() || !is_line_end(t[k]),
    ensures
        trim_start(t) == t.subrange(k, t.len() as int),
    decreases k,
{
    if k == 0 {
        assert(t.subrange(0, t.len() as int) == t);
    } else {
        let rest = t.drop_first();
        assert(is_line_end(t[0]));
        assert forall|i: int| 0 <= i < k - 1 implies is_line_end(#[trigger] rest[i]) by {
            assert(rest[i] == t[i + 1]);
        }
        lemma_trim_start_at(rest, k - 1);
        assert(rest.subrange(k - 1, rest.len() as int) == t.subrange(k, t.len() as int));
    }
}

proof fn lemma_trim_end_at(t: Seq<char>, k: int)
    requires
        0 <= k <= t.len(),
        forall|i: int| k <= i < t.len() ==> is_line_end(#[trigger] t[i]),
        k == 0 || !is_line_end(t[k - 1]),
    ensures
        trim_end(t) == t.subrange(0, k),
    decreases t.len() - k,
{
    if k == t.len() {
        assert(t.subrange(0, t.len() as int) == t);
    } else {
        let rest = t.drop_last();
        assert(is_line_end(t[t.len() - 1]));
        assert forall|i: int| k <= i < rest.len() implies is_line_end(#[trigger] rest[i]) by {
            assert(rest[i] == t[i]);
        }
        lemma_trim_end_at(rest, k);
        assert(rest.subrange(0, k) == t.subrange(0, k));
    }
}

/// Cutting off the line ends around `t` leaves what lies between the first
/// and the last character that is none.
pub proof fn lemma_trim_bounds(t: Seq<char>, start: int, end: int)
    requires
        trimmed_at(t, start, end),
    ensures
        trim_line_ends(t) == t.subrange(start, end),
{
    if start == end {
        lemma_trim_start_at(t, t.len() as int);
        assert(t.subrange(t.len() as int, t.len() as int) == Seq::<char>::empty());
        assert(t.subrange(start, end) == Seq::<char>::empty());
    } else {
        lemma_trim_start_at(t, start);
        let tail = t.subrange(start, t.len() as int);
        lemma_trim_end_at(tail, end - start);
        assert(tail.subrange(0, end - start) == t.subrange(start, end));
    }
}

/// Finds where `s` begins and where it stops once the line ends around it
/// are cut off.
fn trim_bounds(s: &str) -> (bounds: (usize, usize))
    requires
        s@.len() <= 256,
    ensures
        trimmed_at(s@, bounds.0 as int, bounds.1 as int),
{
    broadcast use vstd::string::group_string_axioms;

    let mut start: usize = 0;
    let mut end: usize = 0;
    let mut seen = false;
    let mut i: usize = 0;
    let chars = s.chars();
    for c in it: chars
        invariant
            it.seq() == s@,
            s@.len() <= 256,
            i == it.index(),
            start <= end <= i,
            seen ==> start < end && !is_line_end(s@[start as int]) && !is_line_end(
                s@[end - 1],
            ),
            forall|j: int|
                0 <= j < (if seen {
                    start
                } else {
                    i
                }) ==> is_line_end(#[trigger] s@[j]),
            forall|j: int| end <= j < i ==> is_line_end(#[trigger] s@[j]),
    {
        if !(c == '\r' || c == '\n') {
            if !seen {
                start = i;
                seen = true;
            }
            end = i + 1;
        }
        i = i + 1;
    }
    if seen {
        (start, end)
    } else {
        (i, i)
    }
}

/// The position `k` brought into the range from `start` to `end`.
spec fn clip(k: int, start: int, end: int) -> int {
    if k < start {
        start
    } else if k > end {
        end
    } else {
        k
    }
}

/// Cuts off the line ends around the text of `raw`, removes the carriage
/// returns left inside, and counts what is not fill. The result holds no
/// carriage return and neither begins nor stops with a line feed.
pub fn normalize_response(raw: &heapless::String<256>) -> (r: Response)
    ensures
        response_view(r) == normalized_response(text_of(*raw)),
        !text_of(r.0).contains('\r'),
        text_of(r.0).len() > 0 ==> text_of(r.0).first() != '\n' && text_of(r.0).last() != '\n',
{
    broadcast use vstd::string::group_string_axioms;

    let s = as_str(raw);
    proof {
        lemma_chars_at_most_bytes(s@);
    }
    let (start, end) = trim_bounds(s);
    let mut out = new_text();
    let mut len: usize = 0;
    let mut k: usize = 0;
    proof {
        lemma_trim_bounds(s@, start as int, end as int);
        assert(s@.subrange(start as int, start as int) == Seq::<char>::empty());
        assert(strip_cr(Seq::<char>::empty()) == Seq::<char>::empty()) by {
            reveal(Seq::filter);
        }
        assert(logical_len(Seq::<char>::empty()) == 0) by {
            reveal(Seq::filter);
        }
    }
    let chars = s.chars();
    for c in it: chars
        invariant
            it.seq() == s@,
            utf8_len(s@) <= 256,
            k == it.index(),
            start <= end <= s@.len() <= 256,
            text_of(out) == strip_cr(
                s@.subrange(start as int, clip(k as int, start as int, end as int)),
            ),
            len == logical_len(text_of(out)),
            len <= k,
    {
        proof {
            if start <= k && k < end {
                let part = s@.subrange(start as int, k as int);
                assert(s@.subrange(start as int, k + 1) == part.push(c));
                lemma_strip_cr_push(part, c);
                lemma_utf8_len_subrange(s@, start as int, k + 1);
                lemma_utf8_len_filter(part.push(c), |c: char| c != '\r');
                lemma_encode_push(text_of(out), c);
                lemma_logical_len_push(text_of(out), c);
            }
        }
        if start <= k && k < end && c != '\r' {
            let _ = push_char(&mut out, c);
            if c != '\0' {
                len = len + 1;
            }
        }
        k = k + 1;
    }
    proof {
        lemma_normalize_clean(s@);
    }
    (out, len)
}

/// Counts the characters of `text` that are not fill.
pub fn logical_length(text: &heapless::String<256>) -> (n: usize)
    ensures
        n == logical_len(text_of(*text)),
{
    broadcast use vstd::string::group_string_axioms;

    let s = as_str(text);
    proof {
        lemma_chars_at_most_bytes(s@);
    }
    let mut n: usize = 0;
    let chars = s.chars();
    for c in it: chars
        invariant
            it.seq() == s@,
            s@.len() <= 256,
            n <= it.index(),
            n == logical_len(s@.take(it.index())),
    {
        proof {
            assert(s@.take(it.index() + 1) == s@.take(it.index()).push(c));
            lemma_logical_len_push(s@.take(it.index()), c);
        }
        if c != '\0' {
            n = n + 1;
        }
    }
    proof {
        assert(s@.take(s@.len() as int) == s@);
    }
    n
}

proof fn lemma_trim_start_head(t: Seq<char>)
    ensures
        trim_start(t).len() > 0 ==> !is_line_end(trim_start(t).first()),
    decreases t.len(),
{
    if t.len() > 0 && is_line_end(t.first()) {
        lemma_trim_start_head(t.drop_first());
    }
}

proof fn lemma_trim_end_tail(t: Seq<char>)
    ensures
        trim_end(t).len() > 0 ==> !is_line_end(trim_end(t).last()) && trim_end(t).first()
            == t.first(),
    decreases t.len(),
{
    if t.len() > 0 && is_line_end(t.last()) {
        lemma_trim_end_tail(t.drop_last());
    }
}

/// A text of which every character satisfies `keep` passes the filter whole.
pub proof fn lemma_filter_keeps_all(t: Seq<char>, keep: spec_fn(char) -> bool)
    requires
        forall|i: int| 0 <= i < t.len() ==> keep(#[trigger] t[i]),
    ensures
        t.filter(keep) == t,
    decreases t.len(),
{
    reveal(Seq::filter);
    if t.len() > 0 {
        lemma_filter_keeps_all(t.drop_last(), keep);
        assert(t.drop_last().push(t.last()) == t);
    }
}

/// A normalized text holds no carriage return, and neither begins nor stops
/// with a line end.
pub proof fn lemma_normalize_clean(t: Seq<char>)
    ensures
        !normalize(t).contains('\r'),
        forall|i: int| 0 <= i < normalize(t).len() ==> #[trigger] normalize(t)[i] != '\r',
        normalize(t).len() > 0 ==> !is_line_end(normalize(t).first()) && !is_line_end(
            normalize(t).last(),
        ),
{
    let u = trim_line_ends(t);
    let keep = |c: char| c != '\r';
    assert forall|i: int| 0 <= i < normalize(t).len() implies #[trigger] normalize(t)[i]
        != '\r' by {
        u.lemma_filter_pred(keep, i);
    }
    lemma_trim_start_head(t);
    lemma_trim_end_tail(trim_start(t));
    if u.len() > 0 {
        reveal(Seq::filter);
        assert(u == seq![u.first()] + u.drop_first());
        Seq::filter_distributes_over_add(seq![u.first()], u.drop_first(), keep);
        assert(seq![u.first()].drop_last() == Seq::<char>::empty());
        assert(seq![u.first()].filter(keep) == seq![u.first()]);
        assert(u.filter(keep).first() == u.first());
        assert(u.filter(keep).last() == u.last());
    } else {
        assert(u.filter(keep).len() == 0) by {
            reveal(Seq::filter);
        }
    }
}

/// Normalizing a text that is normalized already changes nothing.
pub proof fn lemma_normalize_idempotent(t: Seq<char>)
    ensures
        normalize(normalize(t)) == normalize(t),
{
    let r = normalize(t);
    lemma_normalize_clean(t);
    assert(trim_start(r) == r);
    assert(trim_end(r) == r);
    lemma_filter_keeps_all(r, |c: char| c != '\r');
}

/// Brings the bytes of one read into a text buffer. More than 256 bytes do
/// not fit; bytes that fit have to be valid UTF-8. The logical length of the
/// raw response is the number of bytes read.
pub fn read_raw(bytes: &[u8]) -> (r: Result<Response, Esp8266Error>)
    ensures
        result_view(r) == raw_response(bytes@),
{
    let vec = match vec_from_slice(bytes) {
        Ok(vec) => vec,
        Err(_) => {
            return Err(
                Esp8266Error::StringConversionError(StringConversionError::BufferConversionError),
            );
        },
    };
    match string_from_utf8(vec) {
        Ok(text) => Ok((text, bytes.len())),
        Err(_) => Err(Esp8266Error::StringConversionError(StringConversionError::Utf8Error)),
    }
}

/// Tells whether the success marker `OK` occurs in `text`.
pub fn contains_success_marker(text: &heapless::String<256>) -> (found: bool)
    ensures
        found == has_success_marker(text_of(*text)),
{
    broadcast use vstd::string::group_string_axioms;

    let s = as_str(text);
    let mut found = false;
    let mut after_o = false;
    let chars = s.chars();
    for c in it: chars
        invariant
            it.seq() == s@,
            after_o == (it.index() > 0 && s@[it.index() - 1] == 'O'),
            found == exists|i: int| i + 2 <= it.index() && occurs_at(s@, success_marker(), i),
    {
        proof {
            let n = it.index();
            if after_o && c == 'K' {
                assert(s@.subrange(n - 1, n + 1) == success_marker());
                assert(occurs_at(s@, success_marker(), n - 1));
            } else if !found {
                assert forall|i: int| i + 2 <= n + 1 implies !occurs_at(
                    s@,
                    success_marker(),
                    i,
                ) by {
                    if i + 2 == n + 1 && occurs_at(s@, success_marker(), i) {
                        assert(s@.subrange(i, i + 2)[0] == 'O');
                        assert(s@.subrange(i, i + 2)[1] == 'K');
                    }
                }
            }
        }
        if after_o && c == 'K' {
            found = true;
        }
        after_o = c == 'O';
    }
    proof {
        if has_success_marker(s@) {
            let i = choose|i: int| occurs_at(s@, success_marker(), i);
            assert(i + 2 <= s@.len());
        }
    }
    found
}

} // verus!
