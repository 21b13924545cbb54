//! Bringing the device up: waiting for its banner, then putting it into the
//! mode that the driver works in.
//!
//! The caller drives the control lines and the serial link. It asks the
//! receiver for a byte, hands what came back to [`Bringup::step`], and does
//! what the step says: ask again, or put a setup line on the wire first.

use crate::adapter::{Adapter, AdapterError};
use crate::ingress::{Ingress, Received};
use crate::protocol::Response;
use crate::queue::{NotificationQueue, ReplyQueue};
use vstd::prelude::*;
use vstd::string::StringSliceAdditionalSpecFns;

verus! {

/// The number of bytes that are kept while a marker is waited for.
pub const WINDOW: usize = 1024;

/// The number of receiver faults that are passed over while the banner is
/// waited for.
pub const FAULT_BUDGET: usize = 10_000;

/// A line that sets the device up.
#[derive(Debug, Clone, Copy, PartialEq, Eq)]
pub enum Setup {
    /// The device stops echoing commands.
    DisableEcho,
    /// The device multiplexes several links.
    EnableMux,
    /// The device keeps received data until it is asked for.
    SetRecvMode,
}

/// What the bring-up is waiting for.
#[derive(Debug, Clone, Copy, PartialEq, Eq)]
pub enum Phase {
    /// The banner `ready` that the device prints when it has started.
    Banner,
    /// The `OK` that answers the given setup line.
    Answer(Setup),
    /// Nothing: the device is up.
    Up,
}

/// What the caller does next.
#[derive(Debug, Clone, Copy, PartialEq, Eq)]
pub enum Next {
    /// It asks the receiver for a byte.
    Read,
    /// It puts the setup line on the wire, then asks the receiver for a byte.
    Send(Setup),
    /// It is done: the device is up.
    Ready,
    /// It gives up.
    Failed(AdapterError),
}

impl Setup {
    /// The line on the wire, line terminator included.
    pub open spec fn line_of(self) -> &'static str {
        match self {
            Setup::DisableEcho => "ATE0\r\n",
            Setup::EnableMux => "AT+CIPMUX=1\r\n",
            Setup::SetRecvMode => "AT+CIPRECVMODE=1\r\n",
        }
    }

    /// The line on the wire, line terminator included.
    pub fn line(&self) -> (line: &'static str)
        ensures
            line == self.line_of(),
    {
        match self {
            Setup::DisableEcho => "ATE0\r\n",
            Setup::EnableMux => "AT+CIPMUX=1\r\n",
            Setup::SetRecvMode => "AT+CIPRECVMODE=1\r\n",
        }
    }

    /// What follows once the line has been answered, or its answer has been
    /// given up on: the next setup line, or the end of the bring-up.
    pub open spec fn follow_up(self) -> (Phase, Next) {
        match self {
            Setup::DisableEcho => (Phase::Answer(Setup::EnableMux), Next::Send(Setup::EnableMux)),
            Setup::EnableMux => (
                Phase::Answer(Setup::SetRecvMode),
                Next::Send(Setup::SetRecvMode),
            ),
            Setup::SetRecvMode => (Phase::Up, Next::Ready),
        }
    }
}

impl Phase {
    /// The text whose arrival ends the phase.
    pub open spec fn marker(self) -> Seq<u8> {
        match self {
            Phase::Banner => "ready\r\n".spec_bytes(),
            _ => "OK\r\n".spec_bytes(),
        }
    }
}

/// Whether `bytes` ends with `marker`.
pub open spec fn ends_with(bytes: Seq<u8>, marker: Seq<u8>) -> bool {
    marker.len() <= bytes.len() && bytes.subrange(bytes.len() - marker.len(), bytes.len() as int)
        == marker
}

/// A bring-up as far as its steps are concerned.
pub struct Progress {
    pub phase: Phase,
    /// The bytes that have arrived in this phase.
    pub seen: Seq<u8>,
    /// The number of faults of the receiver so far.
    pub faults: nat,
}

impl Progress {
    /// The bring-up after what the receiver handed back, and what the caller
    /// does next.
    ///
    /// While the banner is waited for, a byte is kept and ends the phase
    /// where the bytes kept now end with the banner; the first setup line
    /// goes out then. A receiver that has no byte is asked again. A fault of
    /// the receiver is passed over until the budget is used up, and a window
    /// that is full without a banner cannot take another byte: both end the
    /// bring-up in failure.
    ///
    /// While the answer to a setup line is waited for, a byte is kept and
    /// ends the phase where the bytes kept now end with `OK` and a line
    /// terminator. A fault of the receiver or a full window ends the phase
    /// as well: the answer is given up on, and the bring-up goes on. After
    /// the last setup line the device is up.
    pub open spec fn step(self, received: Received) -> (Progress, Next) {
        match self.phase {
            Phase::Banner => match received {
                Received::Byte(octet) => if self.seen.len() >= WINDOW {
                    (self, Next::Failed(AdapterError::UnableToInitialize))
                } else if ends_with(self.seen.push(octet), self.phase.marker()) {
                    (
                        Progress {
                            phase: Phase::Answer(Setup::DisableEcho),
                            seen: Seq::empty(),
                            faults: self.faults,
                        },
                        Next::Send(Setup::DisableEcho),
                    )
                } else {
                    (
                        Progress {
                            phase: self.phase,
                            seen: self.seen.push(octet),
                            faults: self.faults,
                        },
                        Next::Read,
                    )
                },
                Received::WouldBlock => (self, Next::Read),
                Received::Fault => if self.faults >= FAULT_BUDGET {
                    (self, Next::Failed(AdapterError::UnableToInitialize))
                } else {
                    (
                        Progress { phase: self.phase, seen: self.seen, faults: self.faults + 1 },
                        Next::Read,
                    )
                },
            },
            Phase::Answer(setup) => match received {
                Received::Byte(octet) => if self.seen.len() >= WINDOW || ends_with(
                    self.seen.push(octet),
                    self.phase.marker(),
                ) {
                    (
                        Progress { phase: setup.follow_up().0, seen: Seq::empty(), faults: self.faults },
                        setup.follow_up().1,
                    )
                } else {
                    (
                        Progress {
                            phase: self.phase,
                            seen: self.seen.push(octet),
                            faults: self.faults,
                        },
                        Next::Read,
                    )
                },
                Received::WouldBlock => (self, Next::Read),
                Received::Fault => (
                    Progress { phase: setup.follow_up().0, seen: Seq::empty(), faults: self.faults },
                    setup.follow_up().1,
                ),
            },
            Phase::Up => (self, Next::Ready),
        }
    }
}

/// Whether the first `len` bytes of `window` end with `marker`.
fn window_ends_with(window: &[u8; 1024], len: usize, marker: &[u8]) -> (found: bool)
    requires
        len <= WINDOW,
    ensures
        found == ends_with(window@.subrange(0, len as int), marker@),
{
    let width = marker.len();
    if width > len {
        return false;
    }
    let start = len - width;
    let ghost seen = window@.subrange(0, len as int);
    let mut i: usize = 0;
    while i < width
        invariant
            i <= width,
            width == marker@.len(),
            start + width == len,
            len <= WINDOW,
            seen == window@.subrange(0, len as int),
            forall|k: int| 0 <= k < i ==> window@[start + k] == marker@[k],
        decreases width - i,
    {
        if window[start + i] != marker[i] {
            return false;
        }
        i += 1;
    }
    assert(seen.subrange(seen.len() - marker@.len(), seen.len() as int) =~= marker@);
    true
}

/// The state of a bring-up.
pub struct Bringup {
    phase: Phase,
    window: [u8; 1024],
    pos: usize,
    faults: usize,
}

impl Bringup {
    #[verifier::type_invariant]
    spec fn consistent(self) -> bool {
        self.pos <= WINDOW && self.faults <= FAULT_BUDGET
    }

    /// The bring-up as far as its steps are concerned.
    pub closed spec fn view(&self) -> Progress {
        Progress {
            phase: self.phase,
            seen: self.window@.subrange(0, self.pos as int),
            faults: self.faults as nat,
        }
    }

    /// A bring-up that waits for the banner.
    pub fn new() -> (bringup: Self)
        ensures
            bringup@ == (Progress { phase: Phase::Banner, seen: Seq::empty(), faults: 0 }),
    {
        let bringup = Bringup { phase: Phase::Banner, window: [0;1024], pos: 0, faults: 0 };
        assert(bringup.window@.subrange(0, 0) =~= Seq::<u8>::empty());
        bringup
    }

    /// Goes on to what follows `setup`.
    fn advance(&mut self, setup: Setup) -> (next: Next)
        ensures
            final(self)@ == (Progress {
                phase: setup.follow_up().0,
                seen: Seq::empty(),
                faults: old(self)@.faults,
            }),
            next == setup.follow_up().1,
    {
        proof {
            use_type_invariant(&*self);
        }
        self.pos = 0;
        assert(self.window@.subrange(0, 0) =~= Seq::<u8>::empty());
        match setup {
            Setup::DisableEcho => {
                self.phase = Phase::Answer(Setup::EnableMux);
                Next::Send(Setup::EnableMux)
            },
            Setup::EnableMux => {
                self.phase = Phase::Answer(Setup::SetRecvMode);
                Next::Send(Setup::SetRecvMode)
            },
            Setup::SetRecvMode => {
                self.phase = Phase::Up;
                Next::Ready
            },
        }
    }

    /// Keeps `octet`, and says whether the bytes kept now end with
    /// `marker`.
    fn keep(&mut self, octet: u8, marker: &str) -> (found: bool)
        requires
            old(self)@.seen.len() < WINDOW,
        ensures
            final(self)@ == (Progress {
                phase: old(self)@.phase,
                seen: old(self)@.seen.push(octet),
                faults: old(self)@.faults,
            }),
            found == ends_with(final(self)@.seen, marker.spec_bytes()),
    {
        proof {
            use_type_invariant(&*self);
        }
        self.window[self.pos] = octet;
        self.pos += 1;
        assert(self@.seen =~= old(self)@.seen.push(octet));
        window_ends_with(&self.window, self.pos, marker.as_bytes())
    }

    /// Handles what the receiver handed back, and says what the caller does
    /// next (see [`Progress::step`]).
    pub fn step(&mut self, received: Received) -> (next: Next)
        ensures
            (final(self)@, next) == old(self)@.step(received),
    {
        proof {
            use_type_invariant(&*self);
        }
        match self.phase {
            Phase::Banner => match received {
                Received::Byte(octet) => {
                    if self.pos >= WINDOW {
                        Next::Failed(AdapterError::UnableToInitialize)
                    } else if self.keep(octet, "ready\r\n") {
                        self.pos = 0;
                        self.phase = Phase::Answer(Setup::DisableEcho);
                        assert(self.window@.subrange(0, 0) =~= Seq::<u8>::empty());
                        Next::Send(Setup::DisableEcho)
                    } else {
                        Next::Read
                    }
                },
                Received::WouldBlock => Next::Read,
                Received::Fault => {
                    if self.faults >= FAULT_BUDGET {
                        Next::Failed(AdapterError::UnableToInitialize)
                    } else {
                        self.faults += 1;
                        Next::Read
                    }
                },
            },
            Phase::Answer(setup) => match received {
                Received::Byte(octet) => {
                    if self.pos >= WINDOW {
                        self.advance(setup)
                    } else if self.keep(octet, "OK\r\n") {
                        self.advance(setup)
                    } else {
                        Next::Read
                    }
                },
                Received::WouldBlock => Next::Read,
                Received::Fault => self.advance(setup),
            },
            Phase::Up => Next::Ready,
        }
    }
}

/// Splits the queues and builds the two sides of the driver on their ends:
/// an adapter with every link closed, and an ingress with an empty buffer.
/// Nothing has been sent or taken yet.
pub fn build_adapter_and_ingress<'a>(
    response_queue: &'a mut ReplyQueue,
    notification_queue: &'a mut NotificationQueue,
) -> (sides: (Adapter<'a>, Ingress<'a>))
    ensures
        sides.0.sockets() == crate::adapter::closed_sockets(),
        sides.0.replies_taken() == Seq::<Response>::empty(),
        sides.0.notifications_taken() == Seq::<Response>::empty(),
        sides.1.pending() == Seq::<u8>::empty(),
        sides.1.replies_sent() == Seq::<Response>::empty(),
        sides.1.notifications_sent() == Seq::<Response>::empty(),
{
    let (response_producer, response_consumer) = response_queue.split();
    let (notification_producer, notification_consumer) = notification_queue.split();
    (
        Adapter::new(response_consumer, notification_consumer),
        Ingress::new(response_producer, notification_producer),
    )
}

} // verus!
