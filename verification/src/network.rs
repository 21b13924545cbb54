//! What a network stack over the adapter hands to its users: socket handles
//! and the way they wait.

use crate::adapter::Blocked;
use crate::num::{ascii_chars, decimal, push_decimal};
use vstd::prelude::*;
use vstd::string::StringExecFns;

verus! {

/// Whether a socket should block when a read or write cannot be performed, or
/// return early.
#[derive(Debug, Clone, Copy, PartialEq, Eq)]
pub enum Mode {
    /// The call waits as long as necessary to complete the operation.
    Blocking,
    /// The call does not wait at all, and only does what it can.
    NonBlocking,
    /// The call waits only up to the given number of milliseconds. No
    /// operation supports this mode.
    Timeout(u16),
}

/// Handle to a socket.
#[derive(Clone, Copy, PartialEq, Eq)]
pub struct TcpSocket {
    link_id: usize,
    mode: Mode,
}

/// Why a name could not be resolved.
#[derive(Debug, Clone, Copy, PartialEq, Eq)]
pub enum DnsError {
    NoSuchHost,
}

impl Mode {
    /// The name of the mode.
    pub open spec fn name(self) -> Seq<char> {
        match self {
            Mode::Blocking => "blocking"@,
            Mode::NonBlocking => "non-blocking"@,
            Mode::Timeout(_) => "timeout"@,
        }
    }
}

impl TcpSocket {
    /// The number of the link behind the handle.
    pub closed spec fn link(&self) -> usize {
        self.link_id
    }

    /// The way the handle waits.
    pub closed spec fn waits(&self) -> Mode {
        self.mode
    }

    /// A handle to link `link_id` that waits as `mode` says.
    pub fn new(link_id: usize, mode: Mode) -> (socket: Self)
        ensures
            socket.link() == link_id,
            socket.waits() == mode,
    {
        TcpSocket { link_id, mode }
    }

    /// The number of the link behind the handle.
    pub fn link_id(&self) -> (link_id: usize)
        ensures
            link_id == self.link(),
    {
        self.link_id
    }

    /// The way the handle waits.
    pub fn mode(&self) -> (mode: Mode)
        ensures
            mode == self.waits(),
    {
        self.mode
    }

    /// Whether a read through this handle is tried again after `attempt`: a
    /// blocking handle tries again for as long as the read would block, a
    /// non-blocking one hands every outcome on.
    pub fn read_again(&self, attempt: &Result<usize, Blocked>) -> (again: bool)
        requires
            !(self.waits() is Timeout),
        ensures
            again == (self.waits() is Blocking && *attempt == Err::<usize, Blocked>(
                Blocked::WouldBlock,
            )),
    {
        match self.mode {
            Mode::Blocking => match attempt {
                Err(Blocked::WouldBlock) => true,
                _ => false,
            },
            _ => false,
        }
    }

    /// The handle as text, for a log.
    pub open spec fn debug_text(self) -> Seq<char> {
        "TcpSocket { link_id: "@ + ascii_chars(decimal(self.link() as nat)) + ", mode: \""@
            + self.waits().name() + "\" }"@
    }

    /// Formats the handle for a log: its link number and the name of its
    /// mode.
    pub fn debug_string(&self) -> (text: String)
        ensures
            text@ == self.debug_text(),
    {
        let mut text = String::from_str("TcpSocket { link_id: ");
        push_decimal(&mut text, self.link_id);
        text.append(", mode: \"");
        match self.mode {
            Mode::Blocking => text.append("blocking"),
            Mode::NonBlocking => text.append("non-blocking"),
            Mode::Timeout(_) => text.append("timeout"),
        }
        text.append("\" }");
        text
    }
}

} // verus!
