//! The foreground side: the socket table, and what each reply and each
//! notification means for it.
//!
//! The adapter never touches the serial link. For every operation it says
//! which command goes on the wire; the caller sends the command, waits for
//! the reply by polling [`Adapter::poll_response`], and hands the reply
//! back. Exactly one command is outstanding at a time.

use crate::network::DnsError;
use crate::protocol::{Command, ConnectionType, FirmwareInfo, IpAddr, IpAddresses, Response};
use crate::protocol::{SocketAddr, WifiConnectionFailure, DATA_CAPACITY};
use crate::queue::{notifications_taken, replies_taken, NotificationConsumer, ReplyConsumer};
use vstd::prelude::*;

verus! {

/// The number of links that the device multiplexes.
pub const SOCKETS: usize = 5;

/// Why the adapter could not be used.
#[derive(Debug, Clone, Copy, PartialEq, Eq)]
pub enum AdapterError {
    Timeout,
    UnableToInitialize,
}

/// Why an operation on a socket failed.
#[derive(Debug, Clone, Copy, PartialEq, Eq)]
pub enum SocketError {
    NoAvailableSockets,
    SocketNotOpen,
    UnableToOpen,
    WriteError,
    ReadError,
}

/// Why an operation that does not wait came back without a result.
#[derive(Debug, Clone, Copy, PartialEq, Eq)]
pub enum Blocked {
    /// Nothing is wrong, but there is nothing to hand out yet.
    WouldBlock,
    /// The operation failed.
    Other(SocketError),
}

/// The state of a link.
#[derive(Debug, Clone, Copy, PartialEq, Eq)]
pub enum SocketState {
    /// The peer has closed the link; data that was announced before may
    /// still be fetched.
    HalfClosed,
    Closed,
    Open,
    Connected,
}

/// One slot of the socket table. Its index is the link's number.
#[derive(Debug, Clone, Copy, PartialEq, Eq)]
pub struct Socket {
    pub state: SocketState,
    /// The number of bytes that the device has announced for the link and
    /// that have not been fetched yet.
    pub available: usize,
}

impl Socket {
    /// Whether the link is closed.
    pub fn is_closed(&self) -> (closed: bool)
        ensures
            closed == (self.state is Closed),
    {
        if let SocketState::Closed = self.state {
            true
        } else {
            false
        }
    }

    /// Whether the peer has closed the link.
    pub fn is_half_closed(&self) -> (half_closed: bool)
        ensures
            half_closed == (self.state is HalfClosed),
    {
        if let SocketState::HalfClosed = self.state {
            true
        } else {
            false
        }
    }

    /// Whether the link is open and not connected yet.
    pub fn is_open(&self) -> (open: bool)
        ensures
            open == (self.state is Open),
    {
        if let SocketState::Open = self.state {
            true
        } else {
            false
        }
    }

    /// Whether the link is connected.
    pub fn is_connected(&self) -> (connected: bool)
        ensures
            connected == (self.state is Connected),
    {
        if let SocketState::Connected = self.state {
            true
        } else {
            false
        }
    }

    /// The socket in another state, with what is available unchanged.
    pub open spec fn in_state(self, state: SocketState) -> Socket {
        Socket { state, available: self.available }
    }

    /// The socket once the device has reported that the peer closed the
    /// link: a half-closed socket is closed for good, an open or connected
    /// one is half-closed, a closed one stays closed.
    pub open spec fn peer_closed(self) -> Socket {
        match self.state {
            SocketState::HalfClosed => self.in_state(SocketState::Closed),
            SocketState::Open | SocketState::Connected => self.in_state(SocketState::HalfClosed),
            SocketState::Closed => self,
        }
    }

    /// The socket once the device has announced `len` more bytes for the
    /// link. The count stops at the largest number that it can hold.
    pub open spec fn data_announced(self, len: usize) -> Socket {
        Socket {
            state: self.state,
            available: if self.available + len <= usize::MAX {
                (self.available + len) as usize
            } else {
                usize::MAX
            },
        }
    }

    /// The socket once `len` bytes have been fetched from the link. The
    /// count stops at zero.
    pub open spec fn data_fetched(self, len: usize) -> Socket {
        Socket {
            state: self.state,
            available: if len <= self.available {
                (self.available - len) as usize
            } else {
                0
            },
        }
    }

    /// Whether data may be fetched from the socket, and why not: a closed
    /// socket is not open, nor is a half-closed one with nothing left to
    /// fetch; an open or connected one with nothing to fetch would block.
    pub open spec fn admits_read(self) -> Result<(), Blocked> {
        if self.state is Closed {
            Err(Blocked::Other(SocketError::SocketNotOpen))
        } else if self.state is HalfClosed && self.available == 0 {
            Err(Blocked::Other(SocketError::SocketNotOpen))
        } else if self.available == 0 {
            Err(Blocked::WouldBlock)
        } else {
            Ok(())
        }
    }
}

/// The socket table at start: every link closed, nothing available.
pub open spec fn closed_sockets() -> Seq<Socket> {
    Seq::new(SOCKETS as nat, |i: int| Socket { state: SocketState::Closed, available: 0 })
}

/// The socket table after a notification. Announced data adds to what is
/// available on its link; a close moves the link's state on (see
/// [`Socket::peer_closed`]). A link number beyond the table, and any other
/// response, changes nothing.
pub open spec fn notified(sockets: Seq<Socket>, notification: Response) -> Seq<Socket> {
    match notification {
        Response::DataAvailable { link_id, len } => if link_id < sockets.len() {
            sockets.update(link_id as int, sockets[link_id as int].data_announced(len))
        } else {
            sockets
        },
        Response::Closed(link_id) => if link_id < sockets.len() {
            sockets.update(link_id as int, sockets[link_id as int].peer_closed())
        } else {
            sockets
        },
        _ => sockets,
    }
}

/// Whether `index` is the first closed slot of the table.
pub open spec fn first_closed(sockets: Seq<Socket>, index: int) -> bool {
    &&& 0 <= index < sockets.len()
    &&& sockets[index].state is Closed
    &&& forall|j: int| 0 <= j < index ==> !((#[trigger] sockets[j]).state is Closed)
}

/// Whether no slot of the table is closed.
pub open spec fn none_closed(sockets: Seq<Socket>) -> bool {
    forall|j: int| 0 <= j < sockets.len() ==> !((#[trigger] sockets[j]).state is Closed)
}

/// The socket table with every link closed.
pub fn initialize_sockets() -> (sockets: [Socket; 5])
    ensures
        sockets@ == closed_sockets(),
{
    let sockets = [
        Socket { state: SocketState::Closed, available: 0 },
        Socket { state: SocketState::Closed, available: 0 },
        Socket { state: SocketState::Closed, available: 0 },
        Socket { state: SocketState::Closed, available: 0 },
        Socket { state: SocketState::Closed, available: 0 },
    ];
    sockets
}

/// Which reply a write is waiting for.
#[derive(Debug, Clone, Copy, PartialEq, Eq)]
pub enum WriteStage {
    /// The send command is on the wire; the device has to accept it.
    Command,
    /// The device has accepted the command; it has to ask for the data.
    Prompt,
    /// The data is on the wire; the device has to confirm it.
    Data,
}

/// How a write goes on after a reply.
#[derive(Debug, Clone, Copy, PartialEq, Eq)]
pub enum WriteStep {
    /// Wait for the next reply, at stage [`WriteStage::Prompt`].
    AwaitPrompt,
    /// Put the data on the wire, then wait for the next reply, at stage
    /// [`WriteStage::Data`].
    SendData,
    /// The write is done: the device has taken this many bytes.
    Done(usize),
}

/// How a write goes on when `reply` arrives at `stage`: `OK` accepts the
/// command, the prompt asks for the data, the send confirmation ends the
/// write. Anything else is a write error.
pub open spec fn write_step(stage: WriteStage, reply: Result<Response, AdapterError>) -> Result<
    WriteStep,
    SocketError,
> {
    match (stage, reply) {
        (WriteStage::Command, Ok(Response::Okay)) => Ok(WriteStep::AwaitPrompt),
        (WriteStage::Prompt, Ok(Response::ReadyForData)) => Ok(WriteStep::SendData),
        (WriteStage::Data, Ok(Response::SendOk(len))) => Ok(WriteStep::Done(len)),
        _ => Err(SocketError::WriteError),
    }
}

/// The consumer of the two queues, with the socket table.
pub struct Adapter<'a> {
    response_consumer: ReplyConsumer<'a>,
    notification_consumer: NotificationConsumer<'a>,
    sockets: [Socket; 5],
}

impl<'a> Adapter<'a> {
    /// The socket table, by link number.
    pub closed spec fn sockets(&self) -> Seq<Socket> {
        self.sockets@
    }

    /// The replies that the adapter has taken out of the reply queue,
    /// oldest first.
    pub closed spec fn replies_taken(&self) -> Seq<Response> {
        replies_taken(self.response_consumer)
    }

    /// The notifications that the adapter has taken out of the notification
    /// queue, oldest first.
    pub closed spec fn notifications_taken(&self) -> Seq<Response> {
        notifications_taken(self.notification_consumer)
    }

    /// An adapter with every link closed, which is fed by the queues behind
    /// the two consumers.
    pub fn new(
        response_consumer: ReplyConsumer<'a>,
        notification_consumer: NotificationConsumer<'a>,
    ) -> (adapter: Self)
        ensures
            adapter.sockets() == closed_sockets(),
            adapter.replies_taken() == replies_taken(response_consumer),
            adapter.notifications_taken() == notifications_taken(notification_consumer),
    {
        Adapter { response_consumer, notification_consumer, sockets: initialize_sockets() }
    }

    /// The socket of link `link_id`.
    pub fn socket(&self, link_id: usize) -> (socket: Socket)
        requires
            link_id < SOCKETS,
        ensures
            socket == self.sockets()[link_id as int],
    {
        self.sockets[link_id]
    }

    /// Whether link `link_id` is connected.
    pub fn is_connected(&self, link_id: usize) -> (connected: Result<bool, SocketError>)
        requires
            link_id < SOCKETS,
        ensures
            connected == Ok::<bool, SocketError>(
                self.sockets()[link_id as int].state is Connected,
            ),
    {
        Ok(self.sockets[link_id].is_connected())
    }

    /// Resolves a host name. The device offers no name resolution, so no
    /// host is ever found.
    pub fn get_host_by_name(&self, hostname: &str) -> (resolved: Result<IpAddr, DnsError>)
        ensures
            resolved == Err::<IpAddr, DnsError>(DnsError::NoSuchHost),
    {
        Err(DnsError::NoSuchHost)
    }

    /// Takes the next reply out of the reply queue, if there is one. A
    /// caller that waits for the reply to a command calls this until it
    /// returns one.
    pub fn poll_response(&mut self) -> (reply: Option<Response>)
        ensures
            final(self).sockets() == old(self).sockets(),
            final(self).notifications_taken() == old(self).notifications_taken(),
            final(self).replies_taken() == match reply {
                Some(response) => old(self).replies_taken().push(response),
                None => old(self).replies_taken(),
            },
    {
        self.response_consumer.dequeue()
    }

    /// The command that asks for the firmware's version.
    pub fn firmware_info_command() -> (command: Command<'static>)
        ensures
            command == Command::QueryFirmwareInfo,
    {
        Command::QueryFirmwareInfo
    }

    /// Reads the firmware's version from the reply to
    /// [`Adapter::firmware_info_command`]. Any other reply is a failure.
    pub fn get_firmware_info(&self, reply: Result<Response, AdapterError>) -> (info: Result<
        FirmwareInfo,
        (),
    >)
        ensures
            info == match reply {
                Ok(Response::FirmwareInfo(info)) => Ok::<FirmwareInfo, ()>(info),
                _ => Err::<FirmwareInfo, ()>(()),
            },
    {
        if let Ok(Response::FirmwareInfo(info)) = reply {
            Ok(info)
        } else {
            Err(())
        }
    }

    /// The command that asks for the board's addresses.
    pub fn ip_address_command() -> (command: Command<'static>)
        ensures
            command == Command::QueryIpAddress,
    {
        Command::QueryIpAddress
    }

    /// Reads the board's addresses from the reply to
    /// [`Adapter::ip_address_command`]. Any other reply is a failure.
    pub fn get_ip_address(&self, reply: Result<Response, AdapterError>) -> (addresses: Result<
        IpAddresses,
        (),
    >)
        ensures
            addresses == match reply {
                Ok(Response::IpAddresses(addresses)) => Ok::<IpAddresses, ()>(addresses),
                _ => Err::<IpAddresses, ()>(()),
            },
    {
        if let Ok(Response::IpAddresses(addresses)) = reply {
            Ok(addresses)
        } else {
            Err(())
        }
    }

    /// The command that joins the access point `ssid` with `password`.
    pub fn join_command<'c>(ssid: &'c str, password: &'c str) -> (command: Command<'c>)
        ensures
            command == (Command::JoinAp { ssid, password }),
    {
        Command::JoinAp { ssid, password }
    }

    /// Reads the reply to [`Adapter::join_command`]: `OK` is success, a
    /// failure report gives its reason, and anything else, a command that
    /// could not be sent included, is a plain connection failure.
    pub fn join(&self, reply: Result<Response, AdapterError>) -> (joined: Result<
        (),
        WifiConnectionFailure,
    >)
        ensures
            joined == match reply {
                Ok(Response::Okay) => Ok::<(), WifiConnectionFailure>(()),
                Ok(Response::WifiConnectionFailure(reason)) => Err::<(), WifiConnectionFailure>(
                    reason,
                ),
                _ => Err::<(), WifiConnectionFailure>(WifiConnectionFailure::ConnectionFailed),
            },
    {
        match reply {
            Ok(Response::Okay) => Ok(()),
            Ok(Response::WifiConnectionFailure(reason)) => Err(reason),
            _ => Err(WifiConnectionFailure::ConnectionFailed),
        }
    }

    /// Applies one notification to the socket table.
    fn notify(&mut self, notification: Response)
        ensures
            final(self).sockets() == notified(old(self).sockets(), notification),
            final(self).replies_taken() == old(self).replies_taken(),
            final(self).notifications_taken() == old(self).notifications_taken(),
    {
        match notification {
            Response::DataAvailable { link_id, len } => {
                if link_id < 5 {
                    let available = self.sockets[link_id].available;
                    self.sockets[link_id].available = available.saturating_add(len);
                }
            },
            Response::Closed(link_id) => {
                if link_id < 5 {
                    match self.sockets[link_id].state {
                        SocketState::HalfClosed => {
                            self.sockets[link_id].state = SocketState::Closed;
                        },
                        SocketState::Open | SocketState::Connected => {
                            self.sockets[link_id].state = SocketState::HalfClosed;
                        },
                        SocketState::Closed => {},
                    }
                }
            },
            _ => {},
        }
    }

    /// Takes the next notification out of the notification queue, if there
    /// is one, and applies it to the socket table (see [`notified`]). Says
    /// whether there was one: a caller that is about to read or write calls
    /// this until it says no.
    pub fn process_notifications(&mut self) -> (processed: bool)
        ensures
            final(self).replies_taken() == old(self).replies_taken(),
            processed ==> final(self).notifications_taken().len() == old(self).notifications_taken().len() + 1 && final(self).notifications_taken().drop_last()
                == old(self).notifications_taken() && final(self).sockets() == notified(
                old(self).sockets(),
                final(self).notifications_taken().last(),
            ),
            !processed ==> final(self).notifications_taken() == old(self).notifications_taken()
                && final(self).sockets() == old(self).sockets(),
    {
        match self.notification_consumer.dequeue() {
            Some(notification) => {
                self.notify(notification);
                true
            },
            None => false,
        }
    }

    /// Opens the first closed socket and returns its link number. Fails
    /// where no socket is closed.
    pub fn open(&mut self) -> (opened: Result<usize, SocketError>)
        ensures
            final(self).replies_taken() == old(self).replies_taken(),
            final(self).notifications_taken() == old(self).notifications_taken(),
            match opened {
                Ok(link_id) => first_closed(old(self).sockets(), link_id as int) && final(self).sockets() == old(self).sockets().update(
                    link_id as int,
                    old(self).sockets()[link_id as int].in_state(SocketState::Open),
                ),
                Err(error) => error == SocketError::NoAvailableSockets && none_closed(
                    old(self).sockets(),
                ) && final(self).sockets() == old(self).sockets(),
            },
    {
        let mut index: usize = 0;
        while index < 5
            invariant
                index <= 5,
                *self == *old(self),
                forall|j: int| 0 <= j < index ==> !((#[trigger] self.sockets()[j]).state is Closed),
            decreases 5 - index,
        {
            if self.sockets[index].is_closed() {
                self.sockets[index].state = SocketState::Open;
                return Ok(index);
            }
            index += 1;
        }
        Err(SocketError::NoAvailableSockets)
    }

    /// Closes the socket of link `link_id`, whatever its state.
    pub fn close(&mut self, link_id: usize) -> (closed: Result<(), SocketError>)
        requires
            link_id < SOCKETS,
        ensures
            closed == Ok::<(), SocketError>(()),
            final(self).sockets() == old(self).sockets().update(
                link_id as int,
                old(self).sockets()[link_id as int].in_state(SocketState::Closed),
            ),
            final(self).replies_taken() == old(self).replies_taken(),
            final(self).notifications_taken() == old(self).notifications_taken(),
    {
        self.sockets[link_id].state = SocketState::Closed;
        Ok(())
    }

    /// The command that connects link `link_id` to `remote` over TCP.
    pub fn connect_command(link_id: usize, remote: SocketAddr) -> (command: Command<'static>)
        ensures
            command == Command::StartConnection(link_id, ConnectionType::TCP, remote),
    {
        Command::StartConnection(link_id, ConnectionType::TCP, remote)
    }

    /// Reads the reply to [`Adapter::connect_command`]: on `OK` or a connect
    /// report the socket is connected; on anything else the connection could
    /// not be opened, and the socket stays as it is.
    pub fn connect_tcp(&mut self, link_id: usize, reply: Result<Response, AdapterError>) -> (connected:
        Result<(), SocketError>)
        requires
            link_id < SOCKETS,
        ensures
            final(self).replies_taken() == old(self).replies_taken(),
            final(self).notifications_taken() == old(self).notifications_taken(),
            match reply {
                Ok(Response::Okay) | Ok(Response::Connect(_)) => connected == Ok::<
                    (),
                    SocketError,
                >(()) && final(self).sockets() == old(self).sockets().update(
                    link_id as int,
                    old(self).sockets()[link_id as int].in_state(SocketState::Connected),
                ),
                _ => connected == Err::<(), SocketError>(SocketError::UnableToOpen) && final(self).sockets() == old(self).sockets(),
            },
    {
        match reply {
            Ok(Response::Okay) | Ok(Response::Connect(_)) => {
                self.sockets[link_id].state = SocketState::Connected;
                Ok(())
            },
            _ => Err(SocketError::UnableToOpen),
        }
    }

    /// The command that announces `len` bytes of data for link `link_id`.
    pub fn write_command(link_id: usize, len: usize) -> (command: Command<'static>)
        ensures
            command == (Command::Send { link_id, len }),
    {
        Command::Send { link_id, len }
    }

    /// Reads a reply in the course of a write, and says how the write goes
    /// on (see [`write_step`]).
    pub fn write(&self, stage: WriteStage, reply: Result<Response, AdapterError>) -> (step: Result<
        WriteStep,
        SocketError,
    >)
        ensures
            step == write_step(stage, reply),
    {
        match (stage, reply) {
            (WriteStage::Command, Ok(Response::Okay)) => Ok(WriteStep::AwaitPrompt),
            (WriteStage::Prompt, Ok(Response::ReadyForData)) => Ok(WriteStep::SendData),
            (WriteStage::Data, Ok(Response::SendOk(len))) => Ok(WriteStep::Done(len)),
            _ => Err(SocketError::WriteError),
        }
    }

    /// The command that fetches data from link `link_id` into a buffer of
    /// `capacity` bytes, where the socket admits a read (see
    /// [`Socket::admits_read`]). One command fetches 128 bytes at most.
    pub fn read_command(&self, link_id: usize, capacity: usize) -> (command: Result<
        Command<'static>,
        Blocked,
    >)
        requires
            link_id < SOCKETS,
        ensures
            command == match self.sockets()[link_id as int].admits_read() {
                Ok(()) => Ok::<Command<'static>, Blocked>(
                    Command::Receive {
                        link_id,
                        len: if capacity <= DATA_CAPACITY {
                            capacity
                        } else {
                            DATA_CAPACITY
                        },
                    },
                ),
                Err(blocked) => Err::<Command<'static>, Blocked>(blocked),
            },
    {
        let socket = self.sockets[link_id];
        if socket.is_closed() {
            return Err(Blocked::Other(SocketError::SocketNotOpen));
        }
        if socket.is_half_closed() && socket.available == 0 {
            return Err(Blocked::Other(SocketError::SocketNotOpen));
        }
        if socket.available == 0 {
            return Err(Blocked::WouldBlock);
        }
        let len = if capacity <= DATA_CAPACITY {
            capacity
        } else {
            DATA_CAPACITY
        };
        Ok(Command::Receive { link_id, len })
    }

    /// Reads the reply to [`Adapter::read_command`]. Received data that fits
    /// both its carrier and `buffer` is copied to the front of `buffer`, and
    /// its length is returned and taken off what is available on the link.
    /// Anything else is a read error, and changes nothing.
    pub fn read(
        &mut self,
        link_id: usize,
        reply: Result<Response, AdapterError>,
        buffer: &mut [u8],
    ) -> (read: Result<usize, Blocked>)
        requires
            link_id < SOCKETS,
        ensures
            final(self).replies_taken() == old(self).replies_taken(),
            final(self).notifications_taken() == old(self).notifications_taken(),
            final(buffer)@.len() == old(buffer)@.len(),
            match reply {
                Ok(Response::DataReceived(data, len)) if len <= DATA_CAPACITY && len <= old(buffer)@.len() => {
                    &&& read == Ok::<usize, Blocked>(len)
                    &&& final(buffer)@ == data@.subrange(0, len as int) + old(buffer)@.subrange(
                        len as int,
                        old(buffer)@.len() as int,
                    )
                    &&& final(self).sockets() == old(self).sockets().update(
                        link_id as int,
                        old(self).sockets()[link_id as int].data_fetched(len),
                    )
                },
                _ => {
                    &&& read == Err::<usize, Blocked>(Blocked::Other(SocketError::ReadError))
                    &&& final(buffer)@ == old(buffer)@
                    &&& final(self).sockets() == old(self).sockets()
                },
            },
    {
        match reply {
            Ok(Response::DataReceived(data, len)) => {
                if len > DATA_CAPACITY || len > buffer.len() {
                    return Err(Blocked::Other(SocketError::ReadError));
                }
                let mut i: usize = 0;
                while i < len
                    invariant
                        i <= len <= DATA_CAPACITY,
                        len <= buffer@.len(),
                        buffer@.len() == old(buffer)@.len(),
                        forall|k: int| 0 <= k < i ==> buffer@[k] == data@[k],
                        forall|k: int| i <= k < buffer@.len() ==> buffer@[k] == old(buffer)@[k],
                    decreases len - i,
                {
                    buffer[i] = data[i];
                    i += 1;
                }
                let available = self.sockets[link_id].available;
                self.sockets[link_id].available = available.saturating_sub(len);
                Ok(len)
            },
            _ => Err(Blocked::Other(SocketError::ReadError)),
        }
    }
}

/// The life of a link whose peer closes it. A connected socket is
/// half-closed by the first close notification. While it is half-closed and
/// has data available, a read is admitted, and fetching takes off what is
/// available; once nothing is available, a read fails because the socket is
/// not open. A second close notification closes the socket for good.
pub proof fn lemma_half_close_lifecycle(sockets: Seq<Socket>, link_id: usize, fetched: usize)
    requires
        sockets.len() == SOCKETS,
        link_id < SOCKETS,
        sockets[link_id as int].state is Connected,
    ensures
        ({
            let half_closed = notified(sockets, Response::Closed(link_id))[link_id as int];
            &&& half_closed == sockets[link_id as int].in_state(SocketState::HalfClosed)
            &&& half_closed.available > 0 ==> half_closed.admits_read() is Ok
            &&& fetched <= half_closed.available ==> half_closed.data_fetched(fetched).available
                == half_closed.available - fetched && half_closed.data_fetched(fetched).state
                is HalfClosed
            &&& half_closed.data_fetched(half_closed.available).admits_read() == Err::<
                (),
                Blocked,
            >(Blocked::Other(SocketError::SocketNotOpen))
            &&& notified(
                notified(sockets, Response::Closed(link_id)),
                Response::Closed(link_id),
            )[link_id as int] == sockets[link_id as int].in_state(SocketState::Closed)
        }),
{
}

} // verus!
