//! The dialogue with the module, one step at a time.
//!
//! An operation is a short script of writes and reads. The driver keeps the
//! place in the script. A method that starts an operation answers with the
//! first [`Action`]; [`Esp8266Driver::resume`] takes the [`Event`] that the
//! action ended with and answers with the next one. [`next`] is the complete
//! table of these steps.

use crate::command::{
    announce_command, announce_text, frame, framed, join_command, joined, line_of,
    session, session_command, status_command, status_text, test_command, test_text,
    transfer_mode_command, transfer_mode_text, wifi_mode_command, wifi_mode_text,
    DataTransferMode, Protocol, WifiMode, CRLF,
};
use crate::encoding::{lemma_encode_concat, lemma_encoded_text, utf8_len};
use crate::error::{Esp8266Error, RxError, StringConversionError, TxError, UartError};
use crate::response::{
    contains_success_marker, has_success_marker, logical_len, logical_length, normalize,
    normalize_response, normalized_response, raw_response, read_raw, response_view,
};
use crate::text::{as_str, push_str, text_of};
use vstd::prelude::*;

verus! {

/// Time allowed for the answer to the connectivity test and to a mode
/// selection, in milliseconds.
pub const PROBE_TIMEOUT_MS: u64 = 1000;

/// Time allowed for the answer to a join command, in milliseconds.
pub const JOIN_TIMEOUT_MS: u64 = 10000;

/// Time allowed for the answer to each status query of a poll, in
/// milliseconds.
pub const POLL_TIMEOUT_MS: u64 = 1000;

/// What a finished operation has to show.
#[derive(Debug, PartialEq, Eq)]
pub enum Outcome {
    /// The bytes are on the wire.
    Sent,
    /// The module has answered: the text and its logical length.
    Response(heapless::String<256>, usize),
}

/// What the caller has to do next.
#[derive(Debug, PartialEq, Eq)]
pub enum Action<'a> {
    /// Write these bytes to the wire as they are, then report
    /// [`Event::Written`] or [`Event::WriteFailed`].
    Transmit(&'a [u8]),
    /// Write the bytes of this line to the wire, then report
    /// [`Event::Written`] or [`Event::WriteFailed`].
    TransmitLine(heapless::String<256>),
    /// Read until the line falls idle, for at most this many milliseconds,
    /// then report [`Event::Received`], [`Event::ReadFailed`] or
    /// [`Event::TimedOut`].
    Receive(u64),
    /// The operation is over, and this is how it ended.
    Finish(Result<Outcome, Esp8266Error>),
    /// The event answers nothing the driver has asked for. It was ignored.
    Unexpected,
}

/// What happened on the wire.
#[derive(Debug, Clone, Copy, PartialEq, Eq)]
pub enum Event<'a> {
    /// The write has completed.
    Written,
    /// The write has failed.
    WriteFailed(UartError),
    /// The line fell idle after these bytes had arrived.
    Received(&'a [u8]),
    /// The read has failed.
    ReadFailed(UartError),
    /// The time allowed for the read ran out before the line fell idle.
    TimedOut,
    /// The time allowed for the whole operation ran out.
    DeadlineElapsed,
}

/// The mathematical content of an [`Outcome`].
#[verifier::ext_equal]
pub enum OutcomeView {
    Sent,
    Response(Seq<char>, nat),
}

/// The mathematical content of an [`Action`].
#[verifier::ext_equal]
pub enum ActionView {
    Transmit(Seq<u8>),
    TransmitLine(Seq<char>),
    Receive(u64),
    Finish(Result<OutcomeView, Esp8266Error>),
    Unexpected,
}

/// The mathematical content of an [`Event`].
#[verifier::ext_equal]
pub enum EventView {
    Written,
    WriteFailed(UartError),
    Received(Seq<u8>),
    ReadFailed(UartError),
    TimedOut,
    DeadlineElapsed,
}

/// What becomes of the text of the read that is under way.
#[verifier::ext_equal]
pub enum Plan {
    /// It is handed out as it came.
    Raw,
    /// It is handed out normalized.
    Normalized,
    /// It is searched for the success marker, and the status is queried
    /// again if there is none. `deadline` is the time allowed for the whole
    /// poll, if it is limited.
    Poll { deadline: Option<u64> },
    /// It is the module's answer to the announcement of a payload. It is
    /// kept, and the line `payload` goes out.
    Prompt { payload: Seq<char>, timeout_ms: u64 },
    /// It is added to what the module has said so far about a payload.
    Drain { gathered: Seq<char>, timeout_ms: u64 },
}

/// The place of the driver in the script of an operation.
#[verifier::ext_equal]
pub enum State {
    /// No operation is under way.
    Idle,
    /// A write is under way. `then` holds the time allowed for the read that
    /// follows it and the plan for that read; without it, the operation ends
    /// with the write.
    Writing { then: Option<(u64, Plan)> },
    /// A read is under way.
    Reading { plan: Plan },
}

impl View for Outcome {
    type V = OutcomeView;

    open spec fn view(&self) -> OutcomeView {
        match *self {
            Outcome::Sent => OutcomeView::Sent,
            Outcome::Response(text, len) => OutcomeView::Response(text_of(text), len as nat),
        }
    }
}

impl<'a> View for Action<'a> {
    type V = ActionView;

    open spec fn view(&self) -> ActionView {
        match *self {
            Action::Transmit(bytes) => ActionView::Transmit(bytes@),
            Action::TransmitLine(line) => ActionView::TransmitLine(text_of(line)),
            Action::Receive(timeout_ms) => ActionView::Receive(timeout_ms),
            Action::Finish(Ok(outcome)) => ActionView::Finish(Ok(outcome@)),
            Action::Finish(Err(e)) => ActionView::Finish(Err(e)),
            Action::Unexpected => ActionView::Unexpected,
        }
    }
}

impl<'a> View for Event<'a> {
    type V = EventView;

    open spec fn view(&self) -> EventView {
        match *self {
            Event::Written => EventView::Written,
            Event::WriteFailed(e) => EventView::WriteFailed(e),
            Event::Received(bytes) => EventView::Received(bytes@),
            Event::ReadFailed(e) => EventView::ReadFailed(e),
            Event::TimedOut => EventView::TimedOut,
            Event::DeadlineElapsed => EventView::DeadlineElapsed,
        }
    }
}

impl State {
    /// The time allowed for the whole operation, if it is limited.
    pub open spec fn deadline(self) -> Option<u64> {
        match self {
            State::Writing { then: Some((_, Plan::Poll { deadline })) } => deadline,
            State::Reading { plan: Plan::Poll { deadline } } => deadline,
            _ => None,
        }
    }
}

/// The end of an operation that failed with `e`.
pub open spec fn failed(e: Esp8266Error) -> (State, ActionView) {
    (State::Idle, ActionView::Finish(Err(e)))
}

/// The end of an operation that has the response `response` to show.
pub open spec fn answered(response: (Seq<char>, nat)) -> (State, ActionView) {
    (State::Idle, ActionView::Finish(Ok(OutcomeView::Response(response.0, response.1))))
}

/// The first step of an operation that writes `line`: the line goes out if
/// there is one, and the operation has failed if there is none.
pub open spec fn begin(line: Result<Seq<char>, Esp8266Error>, then: Option<(u64, Plan)>) -> (
    State,
    ActionView,
) {
    match line {
        Ok(text) => (State::Writing { then }, ActionView::TransmitLine(text)),
        Err(e) => failed(e),
    }
}

/// One more status query of a poll.
pub open spec fn query(deadline: Option<u64>) -> (State, ActionView) {
    (
        State::Writing { then: Some((POLL_TIMEOUT_MS, Plan::Poll { deadline })) },
        ActionView::TransmitLine(status_text() + CRLF@),
    )
}

/// The step after a read that brought the raw response `raw`.
pub open spec fn accept(plan: Plan, raw: (Seq<char>, nat)) -> (State, ActionView) {
    let text = normalize(raw.0);
    match plan {
        Plan::Raw => answered(raw),
        Plan::Normalized => answered(normalized_response(raw.0)),
        Plan::Poll { deadline } => if has_success_marker(text) {
            answered(normalized_response(raw.0))
        } else {
            query(deadline)
        },
        Plan::Prompt { payload, timeout_ms } => (
            State::Writing {
                then: Some((timeout_ms, Plan::Drain { gathered: text, timeout_ms })),
            },
            ActionView::TransmitLine(payload),
        ),
        Plan::Drain { gathered, timeout_ms } => if utf8_len(gathered + text) <= 256 {
            (
                State::Reading { plan: Plan::Drain { gathered: gathered + text, timeout_ms } },
                ActionView::Receive(timeout_ms),
            )
        } else {
            failed(Esp8266Error::capacity())
        },
    }
}

/// The step after a read that ran out of time. A poll queries again, and the
/// module having no more to say about a payload is how that operation ends
/// well; any other read has failed.
pub open spec fn silence(plan: Plan) -> (State, ActionView) {
    match plan {
        Plan::Poll { deadline } => query(deadline),
        Plan::Drain { gathered, timeout_ms } => answered((gathered, logical_len(gathered))),
        _ => failed(Esp8266Error::timeout()),
    }
}

/// The step after the time for the whole operation ran out: the operation
/// has failed if its time is limited, and nothing happens if it is not.
pub open spec fn expire(state: State) -> (State, ActionView) {
    if state.deadline() is Some {
        failed(Esp8266Error::timeout())
    } else {
        (state, ActionView::Unexpected)
    }
}

/// The step that the driver takes in `state` when `event` is reported.
pub open spec fn next(state: State, event: EventView) -> (State, ActionView) {
    match state {
        State::Idle => (state, ActionView::Unexpected),
        State::Writing { then } => match event {
            EventView::Written => match then {
                None => (State::Idle, ActionView::Finish(Ok(OutcomeView::Sent))),
                Some((timeout_ms, plan)) => (
                    State::Reading { plan },
                    ActionView::Receive(timeout_ms),
                ),
            },
            EventView::WriteFailed(e) => failed(Esp8266Error::TxError(TxError::WriteError(e))),
            EventView::DeadlineElapsed => expire(state),
            _ => (state, ActionView::Unexpected),
        },
        State::Reading { plan } => match event {
            EventView::Received(bytes) => match raw_response(bytes) {
                Ok(raw) => accept(plan, raw),
                Err(e) => failed(e),
            },
            EventView::ReadFailed(e) => failed(Esp8266Error::RxError(RxError::ReadError(e))),
            EventView::TimedOut => silence(plan),
            EventView::DeadlineElapsed => expire(state),
            _ => (state, ActionView::Unexpected),
        },
    }
}

/// What becomes of the text of the read that is under way; see [`Plan`].
enum ReadPlan {
    Raw,
    Normalized,
    Poll { deadline: Option<u64> },
    Prompt { payload: heapless::String<256>, timeout_ms: u64 },
    Drain { gathered: heapless::String<256>, timeout_ms: u64 },
}

/// The place in the script of an operation; see [`State`].
enum Phase {
    Idle,
    Writing { then: Option<(u64, ReadPlan)> },
    Reading { plan: ReadPlan },
}

impl View for ReadPlan {
    type V = Plan;

    closed spec fn view(&self) -> Plan {
        match *self {
            ReadPlan::Raw => Plan::Raw,
            ReadPlan::Normalized => Plan::Normalized,
            ReadPlan::Poll { deadline } => Plan::Poll { deadline },
            ReadPlan::Prompt { payload, timeout_ms } => Plan::Prompt {
                payload: text_of(payload),
                timeout_ms,
            },
            ReadPlan::Drain { gathered, timeout_ms } => Plan::Drain {
                gathered: text_of(gathered),
                timeout_ms,
            },
        }
    }
}

impl View for Phase {
    type V = State;

    closed spec fn view(&self) -> State {
        match *self {
            Phase::Idle => State::Idle,
            Phase::Writing { then: None } => State::Writing { then: None },
            Phase::Writing { then: Some((timeout_ms, plan)) } => State::Writing {
                then: Some((timeout_ms, plan@)),
            },
            Phase::Reading { plan } => State::Reading { plan: plan@ },
        }
    }
}

/// The driver: the place in the script of the operation under way.
pub struct Esp8266Driver {
    phase: Phase,
}

impl View for Esp8266Driver {
    type V = State;

    closed spec fn view(&self) -> State {
        self.phase@
    }
}

/// The first step of the operation that sends the payload `request`: the
/// payload has to make a line of its own; the announcement of its length,
/// terminator included, goes out first.
pub open spec fn announce(request: Seq<u8>, timeout_ms: u64) -> (State, ActionView) {
    match framed(request) {
        Ok(payload) => (
            State::Writing { then: Some((timeout_ms, Plan::Prompt { payload, timeout_ms })) },
            ActionView::TransmitLine(announce_text(request.len() + 2) + CRLF@),
        ),
        Err(e) => failed(e),
    }
}

/// The mathematical content of what is to follow a write.
spec fn then_view(then: Option<(u64, ReadPlan)>) -> Option<(u64, Plan)> {
    match then {
        Some((timeout_ms, plan)) => Some((timeout_ms, plan@)),
        None => None,
    }
}

/// The mathematical content of a step: the state it leads to and the action
/// it asks for.
spec fn step_view(step: (Phase, Action<'static>)) -> (State, ActionView) {
    (step.0@, step.1@)
}

/// Ends the operation with the error `e`.
fn fail(e: Esp8266Error) -> (step: (Phase, Action<'static>))
    ensures
        step_view(step) == failed(e),
{
    (Phase::Idle, Action::Finish(Err(e)))
}

/// Ends the operation with the response `response`.
fn answer(response: (heapless::String<256>, usize)) -> (step: (Phase, Action<'static>))
    ensures
        step_view(step) == answered(response_view(response)),
{
    (Phase::Idle, Action::Finish(Ok(Outcome::Response(response.0, response.1))))
}

/// Starts the write of `line`, if there is one.
fn write_line(
    line: Result<heapless::String<256>, Esp8266Error>,
    then: Option<(u64, ReadPlan)>,
) -> (step: (Phase, Action<'static>))
    ensures
        step_view(step) == begin(crate::command::command_view(line), then_view(then)),
{
    match line {
        Ok(line) => (Phase::Writing { then }, Action::TransmitLine(line)),
        Err(e) => fail(e),
    }
}

/// Starts the write of the line that carries `command`.
fn write_command(command: &heapless::String<256>, then: Option<(u64, ReadPlan)>) -> (step: (
    Phase,
    Action<'static>,
))
    ensures
        step_view(step) == begin(line_of(Ok(text_of(*command))), then_view(then)),
{
    proof {
        lemma_encoded_text(text_of(*command));
    }
    write_line(frame(as_str(command).as_bytes()), then)
}

/// Starts the write of one more status query of a poll.
fn write_query(deadline: Option<u64>) -> (step: (Phase, Action<'static>))
    ensures
        step_view(step) == query(deadline),
{
    proof {
        crate::command::lemma_piece_lengths();
        lemma_encode_concat(status_text(), CRLF@);
    }
    write_command(&status_command(), Some((POLL_TIMEOUT_MS, ReadPlan::Poll { deadline })))
}

/// Takes the step after a read that brought the raw response `raw`.
fn on_response(plan: ReadPlan, raw: (heapless::String<256>, usize)) -> (step: (
    Phase,
    Action<'static>,
))
    ensures
        step_view(step) == accept(plan@, response_view(raw)),
{
    match plan {
        ReadPlan::Raw => answer(raw),
        ReadPlan::Normalized => answer(normalize_response(&raw.0)),
        ReadPlan::Poll { deadline } => {
            let response = normalize_response(&raw.0);
            if contains_success_marker(&response.0) {
                answer(response)
            } else {
                write_query(deadline)
            }
        },
        ReadPlan::Prompt { payload, timeout_ms } => {
            let response = normalize_response(&raw.0);
            (
                Phase::Writing {
                    then: Some((timeout_ms, ReadPlan::Drain { gathered: response.0, timeout_ms })),
                },
                Action::TransmitLine(payload),
            )
        },
        ReadPlan::Drain { gathered, timeout_ms } => {
            let response = normalize_response(&raw.0);
            let mut gathered = gathered;
            proof {
                lemma_encode_concat(text_of(gathered), text_of(response.0));
            }
            match push_str(&mut gathered, as_str(&response.0)) {
                Ok(()) => (
                    Phase::Reading { plan: ReadPlan::Drain { gathered, timeout_ms } },
                    Action::Receive(timeout_ms),
                ),
                Err(_) => fail(
                    Esp8266Error::StringConversionError(
                        StringConversionError::BufferConversionError,
                    ),
                ),
            }
        },
    }
}

/// Takes the step after a read that ran out of time.
fn on_silence(plan: ReadPlan) -> (step: (Phase, Action<'static>))
    ensures
        step_view(step) == silence(plan@),
{
    match plan {
        ReadPlan::Poll { deadline } => write_query(deadline),
        ReadPlan::Drain { gathered, timeout_ms } => {
            let len = logical_length(&gathered);
            answer((gathered, len))
        },
        _ => fail(Esp8266Error::RxError(RxError::Timeout)),
    }
}

/// The time allowed for the whole operation, if it is limited.
fn deadline_of(phase: &Phase) -> (deadline: Option<u64>)
    ensures
        deadline == phase@.deadline(),
{
    match phase {
        Phase::Writing { then: Some((_, ReadPlan::Poll { deadline })) } => *deadline,
        Phase::Reading { plan: ReadPlan::Poll { deadline } } => *deadline,
        _ => None,
    }
}

/// Takes the step after the time for the whole operation ran out.
fn on_deadline(phase: Phase) -> (step: (Phase, Action<'static>))
    ensures
        step_view(step) == expire(phase@),
{
    if deadline_of(&phase).is_some() {
        fail(Esp8266Error::RxError(RxError::Timeout))
    } else {
        (phase, Action::Unexpected)
    }
}

/// Takes the step that `event` calls for in `phase`.
fn advance(phase: Phase, event: Event<'_>) -> (step: (Phase, Action<'static>))
    ensures
        step_view(step) == next(phase@, event@),
{
    match phase {
        Phase::Idle => (Phase::Idle, Action::Unexpected),
        Phase::Writing { then } => match event {
            Event::Written => match then {
                None => (Phase::Idle, Action::Finish(Ok(Outcome::Sent))),
                Some((timeout_ms, plan)) => (Phase::Reading { plan }, Action::Receive(timeout_ms)),
            },
            Event::WriteFailed(e) => fail(Esp8266Error::TxError(TxError::WriteError(e))),
            Event::DeadlineElapsed => on_deadline(Phase::Writing { then }),
            _ => (Phase::Writing { then }, Action::Unexpected),
        },
        Phase::Reading { plan } => match event {
            Event::Received(bytes) => match read_raw(bytes) {
                Ok(raw) => on_response(plan, raw),
                Err(e) => fail(e),
            },
            Event::ReadFailed(e) => fail(Esp8266Error::RxError(RxError::ReadError(e))),
            Event::TimedOut => on_silence(plan),
            Event::DeadlineElapsed => on_deadline(Phase::Reading { plan }),
            _ => (Phase::Reading { plan }, Action::Unexpected),
        },
    }
}

impl Esp8266Driver {
    /// A driver with no operation under way.
    pub fn new() -> (driver: Self)
        ensures
            driver@ == State::Idle,
    {
        Esp8266Driver { phase: Phase::Idle }
    }

    /// Moves to the state of `step` and hands its action out.
    fn take(&mut self, step: (Phase, Action<'static>)) -> (action: Action<'static>)
        ensures
            final(self)@ == step.0@,
            action == step.1,
    {
        self.phase = step.0;
        step.1
    }

    /// The time in milliseconds allowed for the whole of the operation under
    /// way, if it is limited. The caller has to watch it from the start of
    /// the operation and to report [`Event::DeadlineElapsed`] when it is over.
    pub fn deadline_ms(&self) -> (deadline: Option<u64>)
        ensures
            deadline == self@.deadline(),
    {
        deadline_of(&self.phase)
    }

    /// Takes the step that `event` calls for, and answers with the action
    /// that follows. An event that answers nothing the driver has asked for
    /// changes nothing.
    pub fn resume(&mut self, event: Event<'_>) -> (action: Action<'static>)
        ensures
            (final(self)@, action@) == next(old(self)@, event@),
    {
        let mut phase = Phase::Idle;
        core::mem::swap(&mut self.phase, &mut phase);
        let step = advance(phase, event);
        self.take(step)
    }

    /// Starts the transmission of `command` as it is, without a terminator.
    /// Whatever was under way is given up.
    pub fn send_raw_command<'a>(&mut self, command: &'a [u8]) -> (action: Action<'a>)
        ensures
            final(self)@ == (State::Writing { then: None }),
            action@ == ActionView::Transmit(command@),
    {
        self.phase = Phase::Writing { then: None };
        Action::Transmit(command)
    }

    /// Starts a read of at most `timeout_ms` milliseconds, the text of which
    /// is handed out as it came. Whatever was under way is given up.
    pub fn read_raw_response(&mut self, timeout_ms: u64) -> (action: Action<'static>)
        ensures
            final(self)@ == (State::Reading { plan: Plan::Raw }),
            action@ == ActionView::Receive(timeout_ms),
    {
        self.phase = Phase::Reading { plan: ReadPlan::Raw };
        Action::Receive(timeout_ms)
    }

    /// Starts the transmission of `command` with one CR-LF behind it. If the
    /// command is not valid UTF-8 or does not fit a buffer together with the
    /// terminator, the operation fails at once and nothing is to be written.
    /// Whatever was under way is given up.
    pub fn send_command(&mut self, command: &[u8]) -> (action: Action<'static>)
        ensures
            (final(self)@, action@) == begin(framed(command@), None),
    {
        let step = write_line(frame(command), None);
        self.take(step)
    }

    /// Starts a read of at most `timeout_ms` milliseconds, the text of which
    /// is handed out normalized. Whatever was under way is given up.
    pub fn read_response(&mut self, timeout_ms: u64) -> (action: Action<'static>)
        ensures
            final(self)@ == (State::Reading { plan: Plan::Normalized }),
            action@ == ActionView::Receive(timeout_ms),
    {
        self.phase = Phase::Reading { plan: ReadPlan::Normalized };
        Action::Receive(timeout_ms)
    }

    /// Starts the exchange of `command` for a response: the command goes out
    /// as by [`Self::send_command`], and once it is written a read of at most
    /// `timeout_ms` milliseconds follows as by [`Self::read_response`]. If
    /// the write fails nothing is read.
    pub fn send_command_for_response(&mut self, command: &[u8], timeout_ms: u64) -> (action:
        Action<'static>)
        ensures
            (final(self)@, action@) == begin(
                framed(command@),
                Some((timeout_ms, Plan::Normalized)),
            ),
    {
        let step = write_line(frame(command), Some((timeout_ms, ReadPlan::Normalized)));
        self.take(step)
    }

    /// Starts the connectivity test.
    pub fn at_test(&mut self) -> (action: Action<'static>)
        ensures
            final(self)@ == (State::Writing { then: Some((PROBE_TIMEOUT_MS, Plan::Normalized)) }),
            action@ == ActionView::TransmitLine(test_text() + CRLF@),
    {
        proof {
            crate::command::lemma_piece_lengths();
            lemma_encode_concat(test_text(), CRLF@);
        }
        let step = write_command(&test_command(), Some((PROBE_TIMEOUT_MS, ReadPlan::Normalized)));
        self.take(step)
    }

    /// Starts the selection of the mode `mode`.
    pub fn set_wifi_mode(&mut self, mode: WifiMode) -> (action: Action<'static>)
        ensures
            final(self)@ == (State::Writing { then: Some((PROBE_TIMEOUT_MS, Plan::Normalized)) }),
            action@ == ActionView::TransmitLine(wifi_mode_text(mode) + CRLF@),
    {
        proof {
            crate::command::lemma_piece_lengths();
            crate::command::lemma_wifi_mode_token(mode);
            lemma_encode_concat(crate::command::AT_CWMODE@, mode.token());
            lemma_encode_concat(wifi_mode_text(mode), CRLF@);
        }
        let step = write_command(
            &wifi_mode_command(mode),
            Some((PROBE_TIMEOUT_MS, ReadPlan::Normalized)),
        );
        self.take(step)
    }

    /// Starts the joining of the network `ssid` with the passphrase
    /// `password`. If either is not valid UTF-8, or the command line does not
    /// fit a buffer, the operation fails at once and nothing is to be
    /// written.
    pub fn connect_to_wifi(&mut self, ssid: &[u8], password: &[u8]) -> (action: Action<'static>)
        ensures
            (final(self)@, action@) == begin(
                line_of(joined(ssid@, password@)),
                Some((JOIN_TIMEOUT_MS, Plan::Normalized)),
            ),
    {
        let step = match join_command(ssid, password) {
            Ok(command) => write_command(&command, Some((JOIN_TIMEOUT_MS, ReadPlan::Normalized))),
            Err(e) => fail(e),
        };
        self.take(step)
    }

    /// Starts one query of the association status, with `timeout_ms`
    /// milliseconds for the answer.
    pub fn check_wifi_connection(&mut self, timeout_ms: u64) -> (action: Action<'static>)
        ensures
            final(self)@ == (State::Writing { then: Some((timeout_ms, Plan::Normalized)) }),
            action@ == ActionView::TransmitLine(status_text() + CRLF@),
    {
        proof {
            crate::command::lemma_piece_lengths();
            lemma_encode_concat(status_text(), CRLF@);
        }
        let step = write_command(&status_command(), Some((timeout_ms, ReadPlan::Normalized)));
        self.take(step)
    }

    /// Starts a poll of the association status that goes on until an answer
    /// holds the success marker.
    pub fn loop_until_wifi_connected(&mut self) -> (action: Action<'static>)
        ensures
            (final(self)@, action@) == query(None),
    {
        let step = write_query(None);
        self.take(step)
    }

    /// Starts a poll of the association status that goes on until an answer
    /// holds the success marker, but for `timeout_ms` milliseconds at most.
    pub fn wait_for_wifi_connection(&mut self, timeout_ms: u64) -> (action: Action<'static>)
        ensures
            (final(self)@, action@) == query(Some(timeout_ms)),
    {
        let step = write_query(Some(timeout_ms));
        self.take(step)
    }

    /// Starts the opening of a session with `ip` at `port` over `protocol`,
    /// with `timeout_ms` milliseconds for the answer. If the address is not
    /// valid UTF-8, or the command line does not fit a buffer, the operation
    /// fails at once and nothing is to be written.
    pub fn connect_to_server(
        &mut self,
        protocol: Protocol,
        ip: &[u8],
        port: u16,
        timeout_ms: u64,
    ) -> (action: Action<'static>)
        ensures
            (final(self)@, action@) == begin(
                line_of(session(protocol, ip@, port)),
                Some((timeout_ms, Plan::Normalized)),
            ),
    {
        let step = match session_command(protocol, ip, port) {
            Ok(command) => write_command(&command, Some((timeout_ms, ReadPlan::Normalized))),
            Err(e) => fail(e),
        };
        self.take(step)
    }

    /// Starts the selection of the transfer mode `mode`, with `timeout_ms`
    /// milliseconds for the answer.
    pub fn set_data_transfer_mode(&mut self, mode: DataTransferMode, timeout_ms: u64) -> (action:
        Action<'static>)
        ensures
            final(self)@ == (State::Writing { then: Some((timeout_ms, Plan::Normalized)) }),
            action@ == ActionView::TransmitLine(transfer_mode_text(mode) + CRLF@),
    {
        proof {
            crate::command::lemma_piece_lengths();
            crate::command::lemma_transfer_mode_token(mode);
            lemma_encode_concat(crate::command::AT_CIPMODE@, mode.token());
            lemma_encode_concat(transfer_mode_text(mode), CRLF@);
        }
        let step = write_command(
            &transfer_mode_command(mode),
            Some((timeout_ms, ReadPlan::Normalized)),
        );
        self.take(step)
    }

    /// Starts the sending of the payload `request`. The payload has to be
    /// valid UTF-8 and to fit a buffer together with its terminator, or the
    /// operation fails at once and nothing is to be written. Its length,
    /// terminator included, is announced first; when the module has answered
    /// within `timeout_ms` milliseconds the payload goes out; then whatever
    /// the module says is gathered, until a read of `timeout_ms` milliseconds
    /// brings nothing.
    pub fn send_network_request(&mut self, request: &[u8], timeout_ms: u64) -> (action: Action<
        'static,
    >)
        ensures
            (final(self)@, action@) == announce(request@, timeout_ms),
    {
        let step = match frame(request) {
            Ok(payload) => {
                proof {
                    crate::command::lemma_framed_bytes(request@);
                    crate::command::lemma_piece_lengths();
                    reveal_with_fuel(crate::util::pow10, 4);
                    crate::util::lemma_decimal_len(request@.len() + 2, 3);
                    crate::util::lemma_decimal_plain(request@.len() + 2);
                    lemma_encode_concat(crate::command::AT_CIPSEND@, crate::util::decimal(request@.len() + 2));
                    lemma_encode_concat(announce_text(request@.len() + 2), CRLF@);
                }
                write_command(
                    &announce_command(request.len() + 2),
                    Some((timeout_ms, ReadPlan::Prompt { payload, timeout_ms })),
                )
            },
            Err(e) => fail(e),
        };
        self.take(step)
    }
}

} // verus!
