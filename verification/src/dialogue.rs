//! What holds of whole dialogues: of the steps of [`next`] taken one after
//! another.

use crate::command::{framed, lemma_framed_bytes, line_of};
use crate::driver::{
    announce, answered, begin, failed, next, query, ActionView, EventView, OutcomeView, Plan,
    State, POLL_TIMEOUT_MS,
};
use crate::encoding::{lemma_encode_concat, utf8_len};
use crate::error::{Esp8266Error, RxError};
use crate::response::{
    has_success_marker, lemma_normalize_clean, logical_len, normalize, normalized_response,
    raw_response,
};
use vstd::prelude::*;
use vstd::utf8::{decode_utf8, valid_utf8};

verus! {

/// The state that the driver is in after it has taken the steps for `events`,
/// one after another, from `state`.
pub open spec fn run(state: State, events: Seq<EventView>) -> State
    decreases events.len(),
{
    if events.len() == 0 {
        state
    } else {
        run(next(state, events.first()).0, events.drop_first())
    }
}

/// The state of a poll that waits for the answer to a status query.
pub open spec fn polling(deadline: Option<u64>) -> State {
    State::Reading { plan: Plan::Poll { deadline } }
}

/// The state of a payload operation that has gathered `gathered` and waits
/// for more.
pub open spec fn draining(gathered: Seq<char>, timeout_ms: u64) -> State {
    State::Reading { plan: Plan::Drain { gathered, timeout_ms } }
}

/// Whether the read that `event` reports leaves a poll without success: the
/// module said nothing in time, or what it said holds no success marker.
pub open spec fn is_miss(event: EventView) -> bool {
    match event {
        EventView::TimedOut => true,
        EventView::Received(bytes) => raw_response(bytes) matches Ok(raw) && !has_success_marker(
            normalize(raw.0),
        ),
        _ => false,
    }
}

/// The events of a poll in which every read in `reads` is followed by the
/// write of the next status query.
pub open spec fn attempts(reads: Seq<EventView>) -> Seq<EventView>
    decreases reads.len(),
{
    if reads.len() == 0 {
        Seq::<EventView>::empty()
    } else {
        seq![reads.first(), EventView::Written] + attempts(reads.drop_first())
    }
}

/// What a payload operation holds after the responses `fragments` have come
/// in, one after another, on top of `gathered`.
pub open spec fn gather(gathered: Seq<char>, fragments: Seq<Seq<u8>>) -> Seq<char>
    decreases fragments.len(),
{
    if fragments.len() == 0 {
        gathered
    } else {
        gather(gathered + normalize(decode_utf8(fragments.first())), fragments.drop_first())
    }
}

/// The events that report the responses `fragments`, one after another.
pub open spec fn receipts(fragments: Seq<Seq<u8>>) -> Seq<EventView>
    decreases fragments.len(),
{
    if fragments.len() == 0 {
        Seq::<EventView>::empty()
    } else {
        seq![EventView::Received(fragments.first())] + receipts(fragments.drop_first())
    }
}

/// Steps taken for two runs of events are the steps of one run after the
/// other.
pub proof fn lemma_run_concat(state: State, first: Seq<EventView>, second: Seq<EventView>)
    ensures
        run(state, first + second) == run(run(state, first), second),
    decreases first.len(),
{
    if first.len() == 0 {
        assert(first + second == second);
    } else {
        assert((first + second).first() == first.first());
        assert((first + second).drop_first() == first.drop_first() + second);
        lemma_run_concat(next(state, first.first()).0, first.drop_first(), second);
    }
}

/// An operation that cannot start leaves the driver idle and asks for nothing
/// on the wire: when there is no line to write, because a piece of the
/// command was not valid UTF-8 or the line outgrew its buffer, the first
/// action is the end of the operation with that error.
pub proof fn lemma_failed_start_touches_nothing(
    line: Result<Seq<char>, Esp8266Error>,
    then: Option<(u64, Plan)>,
)
    requires
        line is Err,
    ensures
        begin(line, then).0 == State::Idle,
        begin(line, then).1 == ActionView::Finish(Err(line->Err_0)),
        line_of(line) == line,
{
}

/// A line that outgrows its buffer is never cut short: a command of valid
/// UTF-8 that leaves no room for the terminator has no line, and the reason
/// given is the capacity error.
pub proof fn lemma_long_command_has_no_line(command: Seq<u8>)
    requires
        valid_utf8(command),
        command.len() + 2 > 256,
    ensures
        framed(command) == Err::<Seq<char>, Esp8266Error>(Esp8266Error::capacity()),
{
    lemma_framed_bytes(command);
}

/// A read that runs out of time ends the operation with the timeout error
/// and without a response, whenever one response is all that the operation
/// waits for.
pub proof fn lemma_timeout_gives_no_response(plan: Plan)
    requires
        plan is Raw || plan is Normalized || plan is Prompt,
    ensures
        next(State::Reading { plan }, EventView::TimedOut) == failed(Esp8266Error::timeout()),
        next(State::Reading { plan }, EventView::TimedOut).0 == State::Idle,
        next(State::Reading { plan }, EventView::TimedOut).1 == ActionView::Finish(
            Err(Esp8266Error::RxError(RxError::Timeout)),
        ),
{
}

/// A write that fails ends the operation, whatever was to follow: nothing is
/// read after it.
pub proof fn lemma_failed_write_ends_operation(
    then: Option<(u64, Plan)>,
    e: crate::error::UartError,
)
    ensures
        next(State::Writing { then }, EventView::WriteFailed(e)).0 == State::Idle,
        next(State::Writing { then }, EventView::WriteFailed(e)).1 == ActionView::Finish(
            Err(Esp8266Error::TxError(crate::error::TxError::WriteError(e))),
        ),
{
}

/// The response that a read hands out normalized holds no carriage return,
/// and neither begins nor stops with a line feed.
pub proof fn lemma_response_is_clean(bytes: Seq<u8>)
    ensures
        next(State::Reading { plan: Plan::Normalized }, EventView::Received(bytes)).1 matches ActionView::Finish(
            Ok(OutcomeView::Response(text, len)),
        ) ==> {
            &&& raw_response(bytes) is Ok
            &&& text == normalize(decode_utf8(bytes))
            &&& len == logical_len(text)
            &&& !text.contains('\r')
            &&& text.len() > 0 ==> text.first() != '\n' && text.last() != '\n'
        },
        raw_response(bytes) is Ok ==> next(
            State::Reading { plan: Plan::Normalized },
            EventView::Received(bytes),
        ) == answered(normalized_response(decode_utf8(bytes))),
{
    if raw_response(bytes) is Ok {
        lemma_normalize_clean(decode_utf8(bytes));
    }
}

/// A poll goes on exactly as long as it has no success to show. Each read
/// that misses is answered with one more status query, and once that is
/// written the poll waits again, one second at most; so after any number of
/// misses the poll is where it was. The first response that holds the success
/// marker ends it: that response is handed out, and the driver is idle.
pub proof fn lemma_poll_goes_on_until_success(
    deadline: Option<u64>,
    misses: Seq<EventView>,
    hit: Seq<u8>,
)
    requires
        forall|i: int| 0 <= i < misses.len() ==> is_miss(#[trigger] misses[i]),
        raw_response(hit) matches Ok(raw) && has_success_marker(normalize(raw.0)),
    ensures
        forall|i: int|
            0 <= i < misses.len() ==> next(polling(deadline), #[trigger] misses[i]) == query(
                deadline,
            ),
        next(query(deadline).0, EventView::Written) == (
            polling(deadline),
            ActionView::Receive(POLL_TIMEOUT_MS),
        ),
        run(polling(deadline), attempts(misses)) == polling(deadline),
        next(run(polling(deadline), attempts(misses)), EventView::Received(hit)) == answered(
            normalized_response(decode_utf8(hit)),
        ),
    decreases misses.len(),
{
    if misses.len() > 0 {
        let rest = misses.drop_first();
        assert forall|i: int| 0 <= i < rest.len() implies is_miss(#[trigger] rest[i]) by {
            assert(rest[i] == misses[i + 1]);
        }
        lemma_poll_goes_on_until_success(deadline, rest, hit);
        assert(is_miss(misses[0]));
        let pair = seq![misses.first(), EventView::Written];
        lemma_run_concat(polling(deadline), pair, attempts(rest));
        assert(pair.drop_first() == seq![EventView::Written]);
        assert(pair.drop_first().drop_first() == Seq::<EventView>::empty());
        assert(run(polling(deadline), pair) == polling(deadline)) by {
            reveal_with_fuel(run, 3);
        }
    }
}

/// A limited poll that runs out of its time fails with the timeout error,
/// wherever it stands: while a status query is being written or while its
/// answer is awaited.
pub proof fn lemma_deadline_ends_poll(deadline: u64)
    ensures
        next(polling(Some(deadline)), EventView::DeadlineElapsed) == failed(
            Esp8266Error::timeout(),
        ),
        next(query(Some(deadline)).0, EventView::DeadlineElapsed) == failed(
            Esp8266Error::timeout(),
        ),
{
}

/// Gathering never loses what is gathered already.
pub proof fn lemma_gather_grows(gathered: Seq<char>, fragments: Seq<Seq<u8>>)
    ensures
        utf8_len(gathered) <= utf8_len(gather(gathered, fragments)),
    decreases fragments.len(),
{
    if fragments.len() > 0 {
        let more = normalize(decode_utf8(fragments.first()));
        lemma_encode_concat(gathered, more);
        lemma_gather_grows(gathered + more, fragments.drop_first());
    }
}

/// While responses come in and fit, a payload operation adds each of them,
/// normalized, to what it holds, and goes on reading.
pub proof fn lemma_drain_gathers(gathered: Seq<char>, timeout_ms: u64, fragments: Seq<Seq<u8>>)
    requires
        forall|i: int| 0 <= i < fragments.len() ==> raw_response(#[trigger] fragments[i]) is Ok,
        utf8_len(gather(gathered, fragments)) <= 256,
    ensures
        run(draining(gathered, timeout_ms), receipts(fragments)) == draining(
            gather(gathered, fragments),
            timeout_ms,
        ),
    decreases fragments.len(),
{
    if fragments.len() > 0 {
        let more = normalize(decode_utf8(fragments.first()));
        let rest = fragments.drop_first();
        assert(raw_response(fragments[0]) is Ok);
        assert forall|i: int| 0 <= i < rest.len() implies raw_response(#[trigger] rest[i])
            is Ok by {
            assert(rest[i] == fragments[i + 1]);
        }
        lemma_gather_grows(gathered + more, rest);
        lemma_drain_gathers(gathered + more, timeout_ms, rest);
        let head = seq![EventView::Received(fragments.first())];
        lemma_run_concat(draining(gathered, timeout_ms), head, receipts(rest));
        assert(head.drop_first() == Seq::<EventView>::empty());
        assert(run(draining(gathered, timeout_ms), head) == draining(gathered + more, timeout_ms))
            by {
            reveal_with_fuel(run, 2);
        }
    }
}

/// The whole of a payload operation that goes well. The announcement is
/// written; the module answers with `prompt`; the payload line is written;
/// the responses `fragments` come in; then a read brings nothing. That
/// silence is no failure: the operation ends with everything the module has
/// said, the prompt first and each response normalized, and with the logical
/// length of it.
pub proof fn lemma_payload_ends_with_silence(
    request: Seq<u8>,
    timeout_ms: u64,
    prompt: Seq<u8>,
    fragments: Seq<Seq<u8>>,
)
    requires
        framed(request) is Ok,
        raw_response(prompt) is Ok,
        forall|i: int| 0 <= i < fragments.len() ==> raw_response(#[trigger] fragments[i]) is Ok,
        utf8_len(gather(normalize(decode_utf8(prompt)), fragments)) <= 256,
    ensures
        ({
            let said = gather(normalize(decode_utf8(prompt)), fragments);
            let events = seq![EventView::Written, EventView::Received(prompt), EventView::Written]
                + receipts(fragments);
            let waiting = run(announce(request, timeout_ms).0, events);
            &&& next(announce(request, timeout_ms).0, EventView::Written).1
                == ActionView::Receive(timeout_ms)
            &&& next(
                State::Reading {
                    plan: Plan::Prompt { payload: framed(request)->Ok_0, timeout_ms },
                },
                EventView::Received(prompt),
            ).1 == ActionView::TransmitLine(framed(request)->Ok_0)
            &&& waiting == draining(said, timeout_ms)
            &&& next(waiting, EventView::TimedOut) == answered((said, logical_len(said)))
        }),
{
    let payload = framed(request)->Ok_0;
    let first = normalize(decode_utf8(prompt));
    let start = announce(request, timeout_ms).0;
    let opening = seq![EventView::Written, EventView::Received(prompt), EventView::Written];
    lemma_run_concat(start, opening, receipts(fragments));
    assert(opening.drop_first() == seq![EventView::Received(prompt), EventView::Written]);
    assert(opening.drop_first().drop_first() == seq![EventView::Written]);
    assert(opening.drop_first().drop_first().drop_first() == Seq::<EventView>::empty());
    assert(run(start, opening) == draining(first, timeout_ms)) by {
        reveal_with_fuel(run, 4);
    }
    lemma_drain_gathers(first, timeout_ms, fragments);
}

/// A response that makes what is gathered outgrow the buffer ends a payload
/// operation with the capacity error, and leaves the driver idle.
pub proof fn lemma_drain_overflow_fails(gathered: Seq<char>, timeout_ms: u64, fragment: Seq<u8>)
    requires
        raw_response(fragment) is Ok,
        utf8_len(gathered + normalize(decode_utf8(fragment))) > 256,
    ensures
        next(draining(gathered, timeout_ms), EventView::Received(fragment)) == failed(
            Esp8266Error::capacity(),
        ),
{
}

} // verus!
