//! The reader's state machine: one instance per open connection, fed with
//! what each read attempt produced.

use vstd::prelude::*;
use vstd::string::StringExecFns;
use crate::frame::{carry, frames_in, texts, FrameReassembler};
use crate::registry::Registry;

verus! {

/// Why a reader stopped.
#[derive(Clone, Copy, Debug, PartialEq, Eq, Structural)]
pub enum StopReason {
    /// A read returned no bytes.
    EndOfStream,
    /// The registry no longer held the connection.
    ConnectionMissing,
    /// A read failed with something other than a timeout.
    FatalReadError,
    /// The consumer could not take a frame.
    EmitFailed,
}

/// The reader's lifecycle; `Stopped` is final.
#[derive(Clone, Copy, Debug, PartialEq, Eq, Structural)]
pub enum ReaderState {
    Running,
    Stopped(StopReason),
}

/// What one iteration observed.
pub enum ReadEvent {
    /// The registry had no entry for the reader's port.
    Missing,
    /// A read returned these bytes; none at all means end of stream.
    Read(Vec<u8>),
    /// A read timed out, which is routine.
    TimedOut,
    /// A read failed; the text describes the failure.
    Failed(String),
}

/// What the caller has to deliver after one iteration: frames in order, and
/// at most one error report.
pub struct ReaderStep {
    pub frames: Vec<String>,
    pub report: Option<String>,
}

/// The text of the report for a failed read.
pub open spec fn read_error_report(cause: Seq<char>) -> Seq<char> {
    "Error reading from port: "@ + cause
}

/// Whether a reader that stopped for `reason` has to take its own entry out
/// of the registry; a missing connection is already gone.
pub open spec fn removes_own_entry(reason: StopReason) -> bool {
    reason != StopReason::ConnectionMissing
}

/// The reader for one port: its reassembly buffer and its state.
pub struct ReaderLoop {
    port: String,
    reassembler: FrameReassembler,
    state: ReaderState,
}

impl ReaderLoop {
    pub closed spec fn port_spec(&self) -> Seq<char> {
        self.port@
    }

    pub closed spec fn state_spec(&self) -> ReaderState {
        self.state
    }

    /// Bytes received after the last newline.
    pub closed spec fn pending(&self) -> Seq<u8> {
        self.reassembler.pending()
    }

    /// A running reader for `port` with an empty buffer.
    pub fn new(port: String) -> (r: Self)
        ensures
            r.port_spec() == port@,
            r.state_spec() == ReaderState::Running,
            r.pending() == Seq::<u8>::empty(),
    {
        ReaderLoop { port, reassembler: FrameReassembler::new(), state: ReaderState::Running }
    }

    /// The port this reader serves.
    pub fn port(&self) -> (r: &String)
        ensures
            r@ == self.port_spec(),
    {
        &self.port
    }

    /// The current state.
    pub fn state(&self) -> (r: ReaderState)
        ensures
            r == self.state_spec(),
    {
        self.state
    }

    /// Whether the reader is still running.
    pub fn is_running(&self) -> (r: bool)
        ensures
            r == (self.state_spec() == ReaderState::Running),
    {
        self.state == ReaderState::Running
    }

    /// Takes in what one iteration observed and says what to deliver. A
    /// stopped reader ignores every event.
    pub fn on_event(&mut self, event: ReadEvent) -> (r: ReaderStep)
        ensures
            final(self).port_spec() == old(self).port_spec(),
            old(self).state_spec() != ReaderState::Running ==> *final(self) == *old(self)
                && r.frames@.len() == 0 && r.report is None,
            old(self).state_spec() == ReaderState::Running ==> match event {
                ReadEvent::Missing => final(self).state_spec() == ReaderState::Stopped(
                    StopReason::ConnectionMissing,
                ) && final(self).pending() == old(self).pending() && r.frames@.len() == 0
                    && r.report is None,
                ReadEvent::Read(bytes) => if bytes@.len() == 0 {
                    final(self).state_spec() == ReaderState::Stopped(StopReason::EndOfStream)
                        && final(self).pending() == old(self).pending() && r.frames@.len() == 0
                        && r.report is None
                } else {
                    final(self).state_spec() == ReaderState::Running && texts(r.frames@)
                        == frames_in(old(self).pending(), bytes@) && final(self).pending()
                        == carry(old(self).pending(), bytes@) && r.report is None
                },
                ReadEvent::TimedOut => *final(self) == *old(self) && r.frames@.len() == 0
                    && r.report is None,
                ReadEvent::Failed(cause) => final(self).state_spec() == ReaderState::Stopped(
                    StopReason::FatalReadError,
                ) && final(self).pending() == old(self).pending() && r.frames@.len() == 0 && (
                r.report matches Some(t) && t@ == read_error_report(cause@)),
            },
    {
        if self.state != ReaderState::Running {
            return ReaderStep { frames: Vec::new(), report: None };
        }
        match event {
            ReadEvent::Missing => {
                self.state = ReaderState::Stopped(StopReason::ConnectionMissing);
                ReaderStep { frames: Vec::new(), report: None }
            },
            ReadEvent::Read(bytes) => {
                if bytes.len() == 0 {
                    self.state = ReaderState::Stopped(StopReason::EndOfStream);
                    ReaderStep { frames: Vec::new(), report: None }
                } else {
                    let frames = self.reassembler.feed(bytes.as_slice());
                    ReaderStep { frames, report: None }
                }
            },
            ReadEvent::TimedOut => ReaderStep { frames: Vec::new(), report: None },
            ReadEvent::Failed(cause) => {
                self.state = ReaderState::Stopped(StopReason::FatalReadError);
                let report = String::from_str("Error reading from port: ").concat(
                    cause.as_str(),
                );
                ReaderStep { frames: Vec::new(), report: Some(report) }
            },
        }
    }

    /// The consumer refused a frame: a running reader stops.
    pub fn on_emit_failed(&mut self)
        ensures
            final(self).port_spec() == old(self).port_spec(),
            final(self).pending() == old(self).pending(),
            old(self).state_spec() == ReaderState::Running ==> final(self).state_spec()
                == ReaderState::Stopped(StopReason::EmitFailed),
            old(self).state_spec() != ReaderState::Running ==> final(self).state_spec() == old(
                self,
            ).state_spec(),
    {
        if self.state == ReaderState::Running {
            self.state = ReaderState::Stopped(StopReason::EmitFailed);
        }
    }

    /// After stopping on its own account (end of stream, a failed read, a
    /// failed emit) the reader takes its entry out of the registry and hands
    /// back the handle to close. Otherwise the registry is left alone.
    pub fn release<H>(&self, registry: &mut Registry<H>) -> (r: Option<H>)
        requires
            old(registry).wf(),
        ensures
            final(registry).wf(),
            (match self.state_spec() {
                ReaderState::Stopped(reason) => removes_own_entry(reason),
                ReaderState::Running => false,
            }) ==> final(registry)@ == old(registry)@.remove(self.port_spec()) && (if old(
                registry,
            )@.contains_key(self.port_spec()) {
                r == Some(old(registry)@[self.port_spec()])
            } else {
                r is None
            }),
            !(match self.state_spec() {
                ReaderState::Stopped(reason) => removes_own_entry(reason),
                ReaderState::Running => false,
            }) ==> final(registry)@ == old(registry)@ && r is None,
    {
        match self.state {
            ReaderState::Stopped(reason) => {
                if reason != StopReason::ConnectionMissing {
                    let r = registry.remove(&self.port);
                    assert(!old(registry)@.contains_key(self.port@) ==> old(registry)@.remove(
                        self.port@,
                    ) =~= old(registry)@);
                    r
                } else {
                    None
                }
            },
            ReaderState::Running => None,
        }
    }
}

} // verus!
