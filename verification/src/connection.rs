//! The protocol of one connection, as a state machine.
//!
//! The driver owns the socket. It performs the action that the machine
//! names, reports what came of it as an event, and is told the next action:
//! read, route, write, then either consume, flush and read again, or close.
//! Any failure ends in one diagnostic response and the end of the
//! connection.

use crate::request::{lossy_text, malformed_message, parse_request, Request, RequestModel};
use crate::response::{diagnostic_bytes, error_response};
use vstd::prelude::*;

verus! {

/// What the route function is given.
#[derive(Clone, Copy, Debug, PartialEq, Eq, Structural)]
pub enum Mode {
    /// The bytes of the read, as they came.
    Raw,
    /// Method, path, headers and body, parsed from the bytes of the read.
    Http,
}

/// Where a connection stands.
#[derive(Clone, Copy, Debug, PartialEq, Eq, Structural)]
pub enum Phase {
    /// A read is awaited.
    Reading,
    /// The route function was called with the bytes of a read of this
    /// length, and its outcome is awaited.
    Dispatching { read: usize },
    /// The response was handed to the writer.
    Writing { read: usize, keep_alive: bool },
    /// The read was consumed and a flush is awaited.
    Flushing,
    /// The connection has ended.
    Closed,
}

/// What the driver reports.
#[derive(Debug)]
pub enum Event {
    /// A read gave these bytes, which are not consumed yet.
    Read(Vec<u8>),
    /// A read failed, with this message.
    ReadFailed(String),
    /// The route function returned these response bytes and this keep-alive
    /// flag.
    Routed(Vec<u8>, bool),
    /// The route function was stopped by a fault, with this message.
    RouteFailed(String),
    /// The response was written.
    Written,
    /// The write failed, with this message.
    WriteFailed(String),
    /// The output was flushed.
    Flushed,
    /// The flush failed, with this message.
    FlushFailed(String),
}

/// An event as mathematical values.
pub enum EventModel {
    Read(Seq<u8>),
    ReadFailed(Seq<char>),
    Routed(Seq<u8>, bool),
    RouteFailed(Seq<char>),
    Written,
    WriteFailed(Seq<char>),
    Flushed,
    FlushFailed(Seq<char>),
}

impl View for Event {
    type V = EventModel;

    open spec fn view(&self) -> EventModel {
        match self {
            Event::Read(bytes) => EventModel::Read(bytes@),
            Event::ReadFailed(message) => EventModel::ReadFailed(message@),
            Event::Routed(response, keep_alive) => EventModel::Routed(response@, *keep_alive),
            Event::RouteFailed(message) => EventModel::RouteFailed(message@),
            Event::Written => EventModel::Written,
            Event::WriteFailed(message) => EventModel::WriteFailed(message@),
            Event::Flushed => EventModel::Flushed,
            Event::FlushFailed(message) => EventModel::FlushFailed(message@),
        }
    }
}

/// What the driver is to do next.
#[derive(Debug)]
pub enum Action {
    /// Read what is available, without consuming it.
    Read,
    /// Call the route function of raw mode with these bytes.
    RouteRaw(Vec<u8>),
    /// Call the route function of HTTP mode with this request.
    RouteHttp(Request),
    /// Write these response bytes.
    Write(Vec<u8>),
    /// Consume this many bytes of input, then flush the output.
    ConsumeAndFlush(usize),
    /// End the connection.
    Close,
    /// Write this diagnostic response, flush, and end the connection. A
    /// failure of that write or flush changes nothing. The message is the
    /// one that the response carries.
    Fail { message: String, response: Vec<u8> },
}

/// An action as mathematical values.
pub enum ActionModel {
    Read,
    RouteRaw(Seq<u8>),
    RouteHttp(RequestModel),
    Write(Seq<u8>),
    ConsumeAndFlush(usize),
    Close,
    Fail { message: Seq<char>, response: Seq<u8> },
}

impl View for Action {
    type V = ActionModel;

    open spec fn view(&self) -> ActionModel {
        match self {
            Action::Read => ActionModel::Read,
            Action::RouteRaw(bytes) => ActionModel::RouteRaw(bytes@),
            Action::RouteHttp(request) => ActionModel::RouteHttp(request@),
            Action::Write(bytes) => ActionModel::Write(bytes@),
            Action::ConsumeAndFlush(count) => ActionModel::ConsumeAndFlush(*count),
            Action::Close => ActionModel::Close,
            Action::Fail { message, response } => ActionModel::Fail {
                message: message@,
                response: response@,
            },
        }
    }
}

/// The message for a read that gave no bytes.
pub open spec fn empty_message() -> Seq<char> {
    "Empty Input!"@
}

/// The end of a connection on a failure: the diagnostic response for the
/// message is sent, and nothing follows.
pub open spec fn fail(message: Seq<char>) -> (Phase, ActionModel) {
    (Phase::Closed, ActionModel::Fail { message, response: diagnostic_bytes(message) })
}

/// What follows a read that gave `bytes`.
pub open spec fn after_read(mode: Mode, bytes: Seq<u8>) -> (Phase, ActionModel) {
    if bytes.len() == 0 {
        fail(empty_message())
    } else {
        match mode {
            Mode::Raw => (
                Phase::Dispatching { read: bytes.len() as usize },
                ActionModel::RouteRaw(bytes),
            ),
            Mode::Http => match parse_request(lossy_text(bytes)) {
                Ok(request) => (
                    Phase::Dispatching { read: bytes.len() as usize },
                    ActionModel::RouteHttp(request),
                ),
                Err(_) => fail(malformed_message()),
            },
        }
    }
}

/// The next phase and the next action, from the phase and the event. An
/// event that the phase does not await ends the connection without a
/// further write.
pub open spec fn next(mode: Mode, phase: Phase, event: EventModel) -> (Phase, ActionModel) {
    match (phase, event) {
        (Phase::Reading, EventModel::Read(bytes)) => after_read(mode, bytes),
        (Phase::Reading, EventModel::ReadFailed(message)) => fail(message),
        (Phase::Dispatching { read }, EventModel::Routed(response, keep_alive)) => (
            Phase::Writing { read, keep_alive },
            ActionModel::Write(response),
        ),
        (Phase::Dispatching { read }, EventModel::RouteFailed(message)) => fail(message),
        (Phase::Writing { read, keep_alive }, EventModel::Written) => if keep_alive {
            (Phase::Flushing, ActionModel::ConsumeAndFlush(read))
        } else {
            (Phase::Closed, ActionModel::Close)
        },
        (Phase::Writing { read, keep_alive }, EventModel::WriteFailed(message)) => fail(message),
        (Phase::Flushing, EventModel::Flushed) => (Phase::Reading, ActionModel::Read),
        (Phase::Flushing, EventModel::FlushFailed(message)) => fail(message),
        _ => (Phase::Closed, ActionModel::Close),
    }
}

/// A response that is not to keep the connection alive is the only thing
/// written: after the write the connection ends, and whatever is reported
/// later, nothing is read or written again.
pub proof fn lemma_close_after_one_write(
    mode: Mode,
    read: usize,
    response: Seq<u8>,
    later: EventModel,
)
    ensures
        next(mode, Phase::Dispatching { read }, EventModel::Routed(response, false)) == (
            Phase::Writing { read, keep_alive: false },
            ActionModel::Write(response),
        ),
        next(mode, Phase::Writing { read, keep_alive: false }, EventModel::Written) == (
            Phase::Closed,
            ActionModel::Close,
        ),
        next(mode, Phase::Closed, later) == (Phase::Closed, ActionModel::Close),
{
}

/// A response that keeps the connection alive is written; then exactly the
/// bytes of the read that it answers are consumed and the output is
/// flushed; only when the flush is done does the next read follow.
pub proof fn lemma_keep_alive_consumes_then_reads(
    mode: Mode,
    bytes: Seq<u8>,
    response: Seq<u8>,
    event: EventModel,
)
    requires
        bytes.len() <= usize::MAX,
        after_read(mode, bytes).0 is Dispatching,
    ensures
        next(mode, Phase::Reading, EventModel::Read(bytes)).0 == (Phase::Dispatching {
            read: bytes.len() as usize,
        }),
        next(
            mode,
            Phase::Dispatching { read: bytes.len() as usize },
            EventModel::Routed(response, true),
        ) == (
            Phase::Writing { read: bytes.len() as usize, keep_alive: true },
            ActionModel::Write(response),
        ),
        next(
            mode,
            Phase::Writing { read: bytes.len() as usize, keep_alive: true },
            EventModel::Written,
        ) == (Phase::Flushing, ActionModel::ConsumeAndFlush(bytes.len() as usize)),
        next(mode, Phase::Flushing, EventModel::Flushed) == (Phase::Reading, ActionModel::Read),
        next(mode, Phase::Flushing, event).1 is Read ==> event is Flushed,
        next(mode, Phase::Writing { read: bytes.len() as usize, keep_alive: true }, event).1
            !is Read,
{
}

/// Input is consumed at one point only: after the write of a response that
/// keeps the connection alive, and then by the length of the read that the
/// response answers.
pub proof fn lemma_consume_only_on_keep_alive(
    mode: Mode,
    phase: Phase,
    event: EventModel,
    count: usize,
)
    requires
        next(mode, phase, event).1 == ActionModel::ConsumeAndFlush(count),
    ensures
        phase == (Phase::Writing { read: count, keep_alive: true }),
        event is Written,
{
}

/// A failure is final: the diagnostic response is the last action but for
/// the end of the connection, and no phase but the closed one follows it.
pub proof fn lemma_failure_ends_connection(mode: Mode, phase: Phase, event: EventModel)
    ensures
        next(mode, phase, event).1 is Fail ==> next(mode, phase, event).0 == Phase::Closed,
        next(mode, phase, event).1 is Close ==> next(mode, phase, event).0 == Phase::Closed,
        next(mode, phase, event).0 == Phase::Closed ==> next(mode, phase, event).1 is Fail || next(
            mode,
            phase,
            event,
        ).1 is Close,
{
}

/// One accepted connection.
#[derive(Debug)]
pub struct Connection {
    mode: Mode,
    phase: Phase,
}

impl Connection {
    /// The mode of the connection.
    pub closed spec fn spec_mode(&self) -> Mode {
        self.mode
    }

    /// The phase of the connection.
    pub closed spec fn spec_phase(&self) -> Phase {
        self.phase
    }

    /// A connection that was just accepted. Its first action is a read.
    pub fn new(mode: Mode) -> (connection: Self)
        ensures
            connection.spec_mode() == mode,
            connection.spec_phase() == Phase::Reading,
    {
        Connection { mode, phase: Phase::Reading }
    }

    /// The mode of the connection.
    #[verifier::when_used_as_spec(spec_mode)]
    pub fn mode(&self) -> (mode: Mode)
        ensures
            mode == self.spec_mode(),
    {
        self.mode
    }

    /// The phase of the connection.
    #[verifier::when_used_as_spec(spec_phase)]
    pub fn phase(&self) -> (phase: Phase)
        ensures
            phase == self.spec_phase(),
    {
        self.phase
    }

    /// Ends the connection with the diagnostic response for a message.
    fn fail(&mut self, message: &str) -> (action: Action)
        ensures
            final(self).spec_mode() == old(self).spec_mode(),
            (final(self).spec_phase(), action@) == fail(message@),
    {
        self.phase = Phase::Closed;
        Action::Fail { message: message.to_owned(), response: error_response(message) }
    }

    /// Takes the bytes of a read.
    fn on_read(&mut self, bytes: Vec<u8>) -> (action: Action)
        ensures
            final(self).spec_mode() == old(self).spec_mode(),
            (final(self).spec_phase(), action@) == after_read(old(self).spec_mode(), bytes@),
    {
        let read = bytes.len();
        if read == 0 {
            return self.fail("Empty Input!");
        }
        match self.mode {
            Mode::Raw => {
                self.phase = Phase::Dispatching { read };
                Action::RouteRaw(bytes)
            },
            Mode::Http => match Request::parse(bytes.as_slice()) {
                Ok(request) => {
                    self.phase = Phase::Dispatching { read };
                    Action::RouteHttp(request)
                },
                Err(error) => self.fail(error.message()),
            },
        }
    }

    /// Takes an event and names the next action.
    pub fn step(&mut self, event: Event) -> (action: Action)
        ensures
            final(self).spec_mode() == old(self).spec_mode(),
            (final(self).spec_phase(), action@) == next(
                old(self).spec_mode(),
                old(self).spec_phase(),
                event@,
            ),
    {
        match (self.phase, event) {
            (Phase::Reading, Event::Read(bytes)) => self.on_read(bytes),
            (Phase::Reading, Event::ReadFailed(message)) => self.fail(message.as_str()),
            (Phase::Dispatching { read }, Event::Routed(response, keep_alive)) => {
                self.phase = Phase::Writing { read, keep_alive };
                Action::Write(response)
            },
            (Phase::Dispatching { read }, Event::RouteFailed(message)) => self.fail(
                message.as_str(),
            ),
            (Phase::Writing { read, keep_alive }, Event::Written) => {
                if keep_alive {
                    self.phase = Phase::Flushing;
                    Action::ConsumeAndFlush(read)
                } else {
                    self.phase = Phase::Closed;
                    Action::Close
                }
            },
            (Phase::Writing { read, keep_alive }, Event::WriteFailed(message)) => self.fail(
                message.as_str(),
            ),
            (Phase::Flushing, Event::Flushed) => {
                self.phase = Phase::Reading;
                Action::Read
            },
            (Phase::Flushing, Event::FlushFailed(message)) => self.fail(message.as_str()),
            _ => {
                self.phase = Phase::Closed;
                Action::Close
            },
        }
    }
}

} // verus!
