//! One upload, from its preamble to the synced file, as a state machine.
//!
//! The machine owns no socket and no file. Its driver performs the action
//! that a step hands out and reports what happened as the next event:
//!
//! `Idle → HeaderReceived → Streaming → Draining → Synced → Done`,
//! with `Aborted` reachable from every state that is not final.

use crate::header::{parse_header, spec_parse_header, ProtocolError};
use vstd::prelude::*;

verus! {

/// Where an upload stands.
#[derive(Clone, Copy, Debug, PartialEq, Eq, Structural)]
pub enum Phase {
    /// Nothing was read yet.
    Idle,
    /// The preamble was accepted; the file is not open yet.
    HeaderReceived,
    /// Body bytes are being read and forwarded.
    Streaming,
    /// The socket side is finished; the writer empties the channel and
    /// syncs the file.
    Draining,
    /// The file is durable; the result was not reported yet.
    Synced,
    /// The result was reported.
    Done,
    /// The upload was given up.
    Aborted,
}

/// Why an upload was given up.
#[derive(Clone, Copy, Debug, PartialEq, Eq, Structural)]
pub enum AbortReason {
    /// The sender broke the wire format.
    Protocol(ProtocolError),
    /// Opening, reading, writing or syncing failed.
    Io,
    /// The driver reported an event that the current state does not expect.
    Unexpected,
}

/// How a finished upload ended.
#[derive(Clone, Copy, Debug, PartialEq, Eq, Structural)]
pub enum Outcome {
    /// All declared bytes arrived and are on disk.
    Complete,
    /// The sender closed the connection early; what arrived is on disk.
    Incomplete { received: u64, declared: u64 },
}

/// What the driver observed.
#[derive(Debug)]
pub enum Event {
    /// The bytes of the preamble, as read from the socket.
    Preamble(Vec<u8>),
    /// The file named by the preamble was created.
    FileCreated,
    /// A socket read returned this many bytes, which the driver has
    /// forwarded to the writer in arrival order; zero means that the sender
    /// closed the connection.
    Received(usize),
    /// The writer emptied the channel and synced the file, having written
    /// this many bytes in all.
    Synced(u64),
    /// The result was reported.
    Acknowledged,
    /// An operation on the socket or the file failed.
    Failed,
}

/// What the driver has to do next.
#[derive(Debug, PartialEq, Eq)]
pub enum Action {
    /// Create the file with this name.
    CreateFile(Vec<u8>),
    /// Read at most `max` bytes from the socket.
    Receive { max: usize },
    /// Close the channel, let the writer empty it and sync the file.
    DrainAndSync,
    /// Report this result.
    Report(Outcome),
    /// Release everything and log this reason.
    Abort(AbortReason),
    /// Nothing is left to do.
    Halt,
}

/// Mathematical content of an `Action`.
pub ghost enum ActionSpec {
    CreateFile(Seq<u8>),
    Receive { max: usize },
    DrainAndSync,
    Report(Outcome),
    Abort(AbortReason),
    Halt,
}

impl View for Action {
    type V = ActionSpec;

    open spec fn view(&self) -> ActionSpec {
        match *self {
            Action::CreateFile(name) => ActionSpec::CreateFile(name@),
            Action::Receive { max } => ActionSpec::Receive { max },
            Action::DrainAndSync => ActionSpec::DrainAndSync,
            Action::Report(outcome) => ActionSpec::Report(outcome),
            Action::Abort(reason) => ActionSpec::Abort(reason),
            Action::Halt => ActionSpec::Halt,
        }
    }
}

/// Mathematical state of an upload.
pub ghost struct ConnSpec {
    pub phase: Phase,
    /// Largest number of bytes asked of the socket in one read.
    pub chunk_size: usize,
    /// Body size announced by the preamble.
    pub declared: u64,
    /// Body bytes read from the socket so far.
    pub received: u64,
    /// Body bytes known to be on disk.
    pub written: u64,
}

impl ConnSpec {
    pub open spec fn start(chunk_size: usize) -> ConnSpec {
        ConnSpec { phase: Phase::Idle, chunk_size, declared: 0, received: 0, written: 0 }
    }

    /// Never more is received than was declared, nor more written than
    /// received; before the preamble nothing is counted.
    pub open spec fn wf(self) -> bool {
        &&& self.written <= self.received <= self.declared
        &&& self.phase == Phase::Idle ==> self.declared == 0
        &&& (self.phase == Phase::Synced || self.phase == Phase::Done) ==> self.written
            == self.received
    }

    /// Size of the next read: a full chunk, or what is still missing where
    /// that is less.
    pub open spec fn next_read(self) -> usize {
        if self.declared - self.received < self.chunk_size {
            (self.declared - self.received) as usize
        } else {
            self.chunk_size
        }
    }

    /// How the upload ends if it ends now.
    pub open spec fn outcome(self) -> Outcome {
        if self.received == self.declared {
            Outcome::Complete
        } else {
            Outcome::Incomplete { received: self.received, declared: self.declared }
        }
    }

    pub open spec fn abort(self, reason: AbortReason) -> (ConnSpec, ActionSpec) {
        (ConnSpec { phase: Phase::Aborted, ..self }, ActionSpec::Abort(reason))
    }

    /// Either the next read, or the drain once nothing is missing.
    pub open spec fn read_or_drain(self) -> (ConnSpec, ActionSpec) {
        if self.received == self.declared {
            (ConnSpec { phase: Phase::Draining, ..self }, ActionSpec::DrainAndSync)
        } else {
            (
                ConnSpec { phase: Phase::Streaming, ..self },
                ActionSpec::Receive { max: self.next_read() },
            )
        }
    }

    /// The transition function: the state after `event`, and what the
    /// driver has to do next.
    pub open spec fn step(self, event: Event) -> (ConnSpec, ActionSpec) {
        if self.phase == Phase::Done || self.phase == Phase::Aborted {
            (self, ActionSpec::Halt)
        } else {
            match (self.phase, event) {
                (_, Event::Failed) => self.abort(AbortReason::Io),
                (Phase::Idle, Event::Preamble(bytes)) => match spec_parse_header(bytes@) {
                    Ok(h) => (
                        ConnSpec {
                            phase: Phase::HeaderReceived,
                            declared: h.declared_size,
                            ..self
                        },
                        ActionSpec::CreateFile(h.file_name),
                    ),
                    Err(e) => self.abort(AbortReason::Protocol(e)),
                },
                (Phase::HeaderReceived, Event::FileCreated) => self.read_or_drain(),
                (Phase::Streaming, Event::Received(n)) => if n == 0 {
                    (ConnSpec { phase: Phase::Draining, ..self }, ActionSpec::DrainAndSync)
                } else if n > self.next_read() {
                    self.abort(AbortReason::Protocol(ProtocolError::SizeMismatch))
                } else {
                    (ConnSpec { received: (self.received + n) as u64, ..self }).read_or_drain()
                },
                (Phase::Draining, Event::Synced(w)) => if w == self.received {
                    (
                        ConnSpec { phase: Phase::Synced, written: w, ..self },
                        ActionSpec::Report(self.outcome()),
                    )
                } else {
                    self.abort(AbortReason::Io)
                },
                (Phase::Synced, Event::Acknowledged) => (
                    ConnSpec { phase: Phase::Done, ..self },
                    ActionSpec::Halt,
                ),
                _ => self.abort(AbortReason::Unexpected),
            }
        }
    }
}

/// An error aborts the upload from every state that is not final, and a
/// final state is never left.
pub proof fn lemma_failure_aborts(s: ConnSpec, event: Event)
    ensures
        s.phase != Phase::Done && s.phase != Phase::Aborted ==> s.step(Event::Failed) == s.abort(
            AbortReason::Io,
        ),
        s.phase == Phase::Done || s.phase == Phase::Aborted ==> s.step(event) == (
            s,
            ActionSpec::Halt,
        ),
{
}

/// A step moves along `Idle → HeaderReceived → Streaming → Draining →
/// Synced → Done` or to `Aborted`; it never goes back, and it keeps the
/// byte counts in order.
pub proof fn lemma_step_moves_forward(s: ConnSpec, event: Event)
    requires
        s.wf(),
    ensures
        s.step(event).0.wf(),
        s.step(event).0.phase == Phase::Aborted || phase_rank(s.phase) <= phase_rank(
            s.step(event).0.phase,
        ),
        s.step(event).0.received >= s.received,
{
}

/// Position of a phase on the way from `Idle` to `Done`.
pub open spec fn phase_rank(phase: Phase) -> nat {
    match phase {
        Phase::Idle => 0,
        Phase::HeaderReceived => 1,
        Phase::Streaming => 2,
        Phase::Draining => 3,
        Phase::Synced => 4,
        Phase::Done => 5,
        Phase::Aborted => 6,
    }
}

/// Success is reported only for a transfer of which every declared byte
/// was received and written; a transfer that ended early is reported as
/// incomplete, with the bytes that came.
pub proof fn lemma_report_is_truthful(s: ConnSpec, event: Event, outcome: Outcome)
    requires
        s.wf(),
        s.step(event).1 == ActionSpec::Report(outcome),
    ensures
        s.phase == Phase::Draining,
        s.step(event).0.phase == Phase::Synced,
        s.step(event).0.written == s.received,
        outcome == Outcome::Complete <==> s.received == s.declared,
        outcome != Outcome::Complete ==> outcome == (Outcome::Incomplete {
            received: s.received,
            declared: s.declared,
        }),
{
}

/// No file is asked for before a preamble was accepted, and none after a
/// preamble was refused.
pub proof fn lemma_file_needs_a_valid_preamble(s: ConnSpec, event: Event, name: Seq<u8>)
    requires
        s.step(event).1 == ActionSpec::CreateFile(name),
    ensures
        s.phase == Phase::Idle,
        event matches Event::Preamble(bytes) && spec_parse_header(bytes@) matches Ok(h)
            && h.file_name == name,
{
}

/// The state of one upload.
pub struct Connection {
    phase: Phase,
    chunk_size: usize,
    declared: u64,
    received: u64,
    written: u64,
}

impl View for Connection {
    type V = ConnSpec;

    closed spec fn view(&self) -> ConnSpec {
        ConnSpec {
            phase: self.phase,
            chunk_size: self.chunk_size,
            declared: self.declared,
            received: self.received,
            written: self.written,
        }
    }
}

impl Connection {
    /// A connection that waits for its preamble and will read the body in
    /// pieces of at most `chunk_size` bytes.
    pub fn new(chunk_size: usize) -> (c: Connection)
        ensures
            c@ == ConnSpec::start(chunk_size),
            c@.wf(),
    {
        Connection { phase: Phase::Idle, chunk_size, declared: 0, received: 0, written: 0 }
    }

    pub fn phase(&self) -> (r: Phase)
        ensures
            r == self@.phase,
    {
        self.phase
    }

    pub fn declared(&self) -> (r: u64)
        ensures
            r == self@.declared,
    {
        self.declared
    }

    pub fn received(&self) -> (r: u64)
        ensures
            r == self@.received,
    {
        self.received
    }

    pub fn written(&self) -> (r: u64)
        ensures
            r == self@.written,
    {
        self.written
    }

    fn give_up(&mut self, reason: AbortReason) -> (a: Action)
        requires
            old(self)@.wf(),
        ensures
            (final(self)@, a@) == old(self)@.abort(reason),
            final(self)@.wf(),
    {
        self.phase = Phase::Aborted;
        Action::Abort(reason)
    }

    fn continue_or_drain(&mut self) -> (a: Action)
        requires
            old(self)@.wf(),
            old(self)@.phase == Phase::HeaderReceived || old(self)@.phase == Phase::Streaming,
        ensures
            (final(self)@, a@) == old(self)@.read_or_drain(),
            final(self)@.wf(),
    {
        if self.received == self.declared {
            self.phase = Phase::Draining;
            Action::DrainAndSync
        } else {
            self.phase = Phase::Streaming;
            let missing: u64 = self.declared - self.received;
            let max: usize = if missing < self.chunk_size as u64 {
                missing as usize
            } else {
                self.chunk_size
            };
            Action::Receive { max }
        }
    }

    /// Takes one event and answers with the next action.
    pub fn step(&mut self, event: Event) -> (a: Action)
        requires
            old(self)@.wf(),
        ensures
            (final(self)@, a@) == old(self)@.step(event),
            final(self)@.wf(),
    {
        match self.phase {
            Phase::Done => Action::Halt,
            Phase::Aborted => Action::Halt,
            Phase::Idle => match event {
                Event::Failed => self.give_up(AbortReason::Io),
                Event::Preamble(bytes) => match parse_header(bytes.as_slice()) {
                    Ok(h) => {
                        self.phase = Phase::HeaderReceived;
                        self.declared = h.declared_size;
                        Action::CreateFile(h.file_name)
                    },
                    Err(e) => self.give_up(AbortReason::Protocol(e)),
                },
                _ => self.give_up(AbortReason::Unexpected),
            },
            Phase::HeaderReceived => match event {
                Event::Failed => self.give_up(AbortReason::Io),
                Event::FileCreated => self.continue_or_drain(),
                _ => self.give_up(AbortReason::Unexpected),
            },
            Phase::Streaming => match event {
                Event::Failed => self.give_up(AbortReason::Io),
                Event::Received(n) => {
                    if n == 0 {
                        self.phase = Phase::Draining;
                        Action::DrainAndSync
                    } else if n as u64 > self.declared - self.received || n > self.chunk_size {
                        self.give_up(AbortReason::Protocol(ProtocolError::SizeMismatch))
                    } else {
                        self.received = self.received + n as u64;
                        self.continue_or_drain()
                    }
                },
                _ => self.give_up(AbortReason::Unexpected),
            },
            Phase::Draining => match event {
                Event::Failed => self.give_up(AbortReason::Io),
                Event::Synced(w) => {
                    if w == self.received {
                        self.phase = Phase::Synced;
                        self.written = w;
                        if self.received == self.declared {
                            Action::Report(Outcome::Complete)
                        } else {
                            Action::Report(
                                Outcome::Incomplete {
                                    received: self.received,
                                    declared: self.declared,
                                },
                            )
                        }
                    } else {
                        self.give_up(AbortReason::Io)
                    }
                },
                _ => self.give_up(AbortReason::Unexpected),
            },
            Phase::Synced => match event {
                Event::Failed => self.give_up(AbortReason::Io),
                Event::Acknowledged => {
                    self.phase = Phase::Done;
                    Action::Halt
                },
                _ => self.give_up(AbortReason::Unexpected),
            },
        }
    }
}

} // verus!
