//! The command set and the responses of the AT dialect.

use crate::num::{ascii_chars, decimal, decimal_string, push_decimal};
use crate::num::{lemma_ascii_encoding, lemma_decimal_shape};
use vstd::prelude::*;
use vstd::slice::slice_subrange;
use vstd::string::{StringExecFns, StringSliceAdditionalSpecFns};

verus! {

/// The most bytes that one serialized command may hold.
pub const COMMAND_CAPACITY: usize = 128;

/// The most payload bytes that the device delivers for one receive command.
pub const DATA_CAPACITY: usize = 128;

/// Type of socket connection.
#[derive(Debug, Clone, Copy, PartialEq, Eq)]
pub enum ConnectionType {
    TCP,
    UDP,
}

/// An IPv4 address.
#[derive(Debug, Clone, Copy, PartialEq, Eq)]
pub struct Ipv4Addr {
    pub octets: [u8; 4],
}

impl Ipv4Addr {
    /// The address `a.b.c.d`.
    pub open spec fn of(a: u8, b: u8, c: u8, d: u8) -> Ipv4Addr {
        Ipv4Addr { octets: [a, b, c, d] }
    }

    /// The address `a.b.c.d`.
    pub fn new(a: u8, b: u8, c: u8, d: u8) -> (addr: Self)
        ensures
            addr == Ipv4Addr::of(a, b, c, d),
    {
        Ipv4Addr { octets: [a, b, c, d] }
    }

    /// The four octets, most significant first.
    pub fn octets(&self) -> (octets: [u8; 4])
        ensures
            octets == self.octets,
    {
        self.octets
    }
}

/// An IPv6 address. The device cannot be asked to connect to one.
#[derive(Debug, Clone, Copy, PartialEq, Eq)]
pub struct Ipv6Addr {
    pub segments: [u16; 8],
}

/// An IP address of either family.
#[derive(Debug, Clone, Copy, PartialEq, Eq)]
pub enum IpAddr {
    V4(Ipv4Addr),
    V6(Ipv6Addr),
}

/// An IP address and a port.
#[derive(Debug, Clone, Copy, PartialEq, Eq)]
pub struct SocketAddr {
    pub ip: IpAddr,
    pub port: u16,
}

impl SocketAddr {
    /// The address of `port` at `ip`.
    pub fn new(ip: IpAddr, port: u16) -> (addr: Self)
        ensures
            addr.ip == ip,
            addr.port == port,
    {
        SocketAddr { ip, port }
    }

    /// The IP address.
    pub fn ip(&self) -> (ip: IpAddr)
        ensures
            ip == self.ip,
    {
        self.ip
    }

    /// The port.
    pub fn port(&self) -> (port: u16)
        ensures
            port == self.port,
    {
        self.port
    }
}

/// IP addresses for the board, including its own address, netmask and gateway.
#[derive(Debug, Clone, Copy, PartialEq, Eq)]
pub struct IpAddresses {
    pub ip: Ipv4Addr,
    pub gateway: Ipv4Addr,
    pub netmask: Ipv4Addr,
}

/// Version information for the ESP board.
#[derive(Debug, Clone, Copy, PartialEq, Eq)]
pub struct FirmwareInfo {
    pub major: u8,
    pub minor: u8,
    pub patch: u8,
    pub build: u8,
}

/// Reasons for Wifi access-point join failures.
#[derive(Debug, Clone, Copy, PartialEq, Eq)]
pub enum WifiConnectionFailure {
    Timeout,
    WrongPassword,
    CannotFindTargetAp,
    ConnectionFailed,
}

impl From<u8> for WifiConnectionFailure {
    /// Maps the device's numeric failure code to its reason.
    fn from(code: u8) -> (reason: Self) {
        if code == 1 {
            WifiConnectionFailure::Timeout
        } else if code == 2 {
            WifiConnectionFailure::WrongPassword
        } else if code == 3 {
            WifiConnectionFailure::CannotFindTargetAp
        } else {
            WifiConnectionFailure::ConnectionFailed
        }
    }
}

impl vstd::std_specs::convert::FromSpecImpl<u8> for WifiConnectionFailure {
    open spec fn obeys_from_spec() -> bool {
        true
    }

    open spec fn from_spec(code: u8) -> Self {
        WifiConnectionFailure::of_code(code)
    }
}

impl WifiConnectionFailure {
    /// The reason that the device's failure code stands for: 1, 2 and 3 have
    /// a name, every other code is a plain connection failure.
    pub open spec fn of_code(code: u8) -> WifiConnectionFailure {
        if code == 1 {
            WifiConnectionFailure::Timeout
        } else if code == 2 {
            WifiConnectionFailure::WrongPassword
        } else if code == 3 {
            WifiConnectionFailure::CannotFindTargetAp
        } else {
            WifiConnectionFailure::ConnectionFailed
        }
    }
}

/// Responses (including unsolicited) which may be parsed from the board.
#[derive(Clone, Copy, PartialEq, Eq)]
pub enum Response {
    /// No message yet.
    Nothing,
    /// The device's `OK`.
    Okay,
    Error,
    FirmwareInfo(FirmwareInfo),
    ReadyForData,
    SendOk(usize),
    DataAvailable { link_id: usize, len: usize },
    DataReceived([u8; 128], usize),
    WifiConnected,
    WifiConnectionFailure(WifiConnectionFailure),
    WifiDisconnect,
    GotIp,
    IpAddresses(IpAddresses),
    Connect(usize),
    Closed(usize),
}

/// Where a response goes once it has been recognized.
#[derive(Debug, Clone, Copy, PartialEq, Eq)]
pub enum Route {
    /// To the queue of replies to commands.
    Reply,
    /// To the queue of unsolicited notifications.
    Notification,
    /// Nowhere: the response is only observed.
    Unrouted,
}

impl Response {
    /// The queue that a response belongs to. Replies to commands go to the
    /// reply queue; what the device reports of a link without being asked,
    /// connects included, goes to the notification queue; the wifi state
    /// changes and the absence of a message go nowhere.
    pub open spec fn route_of(self) -> Route {
        match self {
            Response::Okay
            | Response::Error
            | Response::FirmwareInfo(_)
            | Response::ReadyForData
            | Response::SendOk(_)
            | Response::DataReceived(_, _)
            | Response::WifiConnectionFailure(_)
            | Response::IpAddresses(_) => Route::Reply,
            Response::DataAvailable { .. } | Response::Closed(_) | Response::Connect(
                _,
            ) => Route::Notification,
            Response::Nothing
            | Response::WifiConnected
            | Response::WifiDisconnect
            | Response::GotIp => Route::Unrouted,
        }
    }

    /// Classifies the response by the queue it belongs to.
    pub fn route(&self) -> (route: Route)
        ensures
            route == self.route_of(),
    {
        match self {
            Response::Okay
            | Response::Error
            | Response::FirmwareInfo(_)
            | Response::ReadyForData
            | Response::SendOk(_)
            | Response::DataReceived(_, _)
            | Response::WifiConnectionFailure(_)
            | Response::IpAddresses(_) => Route::Reply,
            Response::DataAvailable { .. } | Response::Closed(_) | Response::Connect(
                _,
            ) => Route::Notification,
            Response::Nothing
            | Response::WifiConnected
            | Response::WifiDisconnect
            | Response::GotIp => Route::Unrouted,
        }
    }

    /// Whether received data, if the response carries any, fits its carrier.
    pub open spec fn well_formed(self) -> bool {
        self matches Response::DataReceived(_, len) ==> len <= DATA_CAPACITY
    }
}

/// The 128-byte carrier whose first `count` bytes are those of `data` and
/// whose other bytes are zero.
pub open spec fn carrier_of(data: Seq<u8>, count: nat) -> [u8; 128]
    decreases count,
{
    if count == 0 {
        vstd::array::spec_array_fill_for_copy_type::<u8, 128>(0u8)
    } else {
        vstd::array::spec_array_update(
            carrier_of(data, (count - 1) as nat),
            count - 1,
            data[count - 1],
        )
    }
}

/// The carrier holds the data in front and zeros behind.
pub proof fn lemma_carrier_contents(data: Seq<u8>, count: nat)
    requires
        count <= data.len(),
        count <= DATA_CAPACITY,
    ensures
        forall|i: int| 0 <= i < count ==> #[trigger] carrier_of(data, count)[i] == data[i],
        forall|i: int| count <= i < DATA_CAPACITY ==> #[trigger] carrier_of(data, count)[i] == 0,
    decreases count,
{
    broadcast use vstd::array::group_array_axioms;

    if count > 0 {
        let before = carrier_of(data, (count - 1) as nat);
        lemma_carrier_contents(data, (count - 1) as nat);
        assert(carrier_of(data, count)@ == before@.update(count - 1, data[count - 1]));
        assert forall|i: int| 0 <= i < count implies #[trigger] carrier_of(data, count)[i]
            == data[i] by {
            if i < count - 1 {
                assert(before[i] == data[i]);
            }
        }
        assert forall|i: int| count <= i < DATA_CAPACITY implies #[trigger] carrier_of(
            data,
            count,
        )[i] == 0 by {
            assert(before[i] == 0);
        }
    } else {
        let zeros = vstd::array::spec_array_fill_for_copy_type::<u8, 128>(0u8);
        assert forall|i: int| 0 <= i < DATA_CAPACITY implies #[trigger] zeros[i] == 0 by {
            assert(zeros@[i] == 0);
        }
    }
}

/// The carrier of `data`, built.
pub fn carrier(data: &[u8]) -> (carrier: [u8; 128])
    requires
        data@.len() <= DATA_CAPACITY,
    ensures
        carrier == carrier_of(data@, data@.len()),
{
    let mut carrier = [0u8;128];
    let mut i: usize = 0;
    while i < data.len()
        invariant
            i <= data@.len() <= DATA_CAPACITY,
            forall|k: int| 0 <= k < i ==> #[trigger] carrier[k] == data@[k],
            forall|k: int| i <= k < DATA_CAPACITY ==> #[trigger] carrier[k] == 0,
        decreases data@.len() - i,
    {
        carrier[i] = data[i];
        i += 1;
    }
    proof {
        lemma_carrier_contents(data@, data@.len());
    }
    carrier
}

/// Commands to be sent to the ESP board.
#[derive(Debug)]
pub enum Command<'a> {
    QueryFirmwareInfo,
    JoinAp { ssid: &'a str, password: &'a str },
    QueryIpAddress,
    StartConnection(usize, ConnectionType, SocketAddr),
    Send { link_id: usize, len: usize },
    Receive { link_id: usize, len: usize },
}

/// The text of one command: a heapless string of 128 bytes' capacity.
#[verifier::external_body]
pub struct CommandText {
    text: heapless::String<heapless::consts::U128>,
}

/// The bytes that a command text holds, first to last.
pub uninterp spec fn text_bytes(text: CommandText) -> Seq<u8>;

impl View for CommandText {
    type V = Seq<u8>;

    open spec fn view(&self) -> Seq<u8> {
        text_bytes(*self)
    }
}

impl CommandText {
    /// `heapless::String::new`: a string that holds nothing.
    #[verifier::external_body]
    fn new() -> (text: CommandText)
        ensures
            text_bytes(text) == Seq::<u8>::empty(),
    {
        CommandText { text: heapless::String::new() }
    }

    /// `heapless::String::push_str`: appends the bytes of `s` where all of
    /// them fit in what is left of the 128 bytes, and otherwise changes
    /// nothing and fails.
    #[verifier::external_body]
    fn push_str(&mut self, s: &str) -> (pushed: Result<(), ()>)
        ensures
            pushed is Ok <==> text_bytes(*old(self)).len() + s.spec_bytes().len() <= 128,
            pushed is Ok ==> text_bytes(*final(self)) == text_bytes(*old(self)) + s.spec_bytes(),
            pushed is Err ==> text_bytes(*final(self)) == text_bytes(*old(self)),
    {
        self.text.push_str(s)
    }

    /// `heapless::String::as_str`: the text that the string holds.
    #[verifier::external_body]
    fn text(&self) -> (text: &str)
        ensures
            text.spec_bytes() == text_bytes(*self),
    {
        self.text.as_str()
    }

    /// The command as text.
    pub fn as_str(&self) -> (text: &str)
        ensures
            text.spec_bytes() == self@,
    {
        self.text()
    }
}

impl ConnectionType {
    /// The name of the connection type as the device spells it, in quotes.
    pub open spec fn wire_name(self) -> Seq<u8> {
        match self {
            ConnectionType::TCP => "\"TCP\"".spec_bytes(),
            ConnectionType::UDP => "\"UDP\"".spec_bytes(),
        }
    }
}

/// The line that asks the device to join an access point.
pub open spec fn join_line(ssid: &str, password: &str) -> Seq<u8> {
    "AT+CWJAP_CUR=\"".spec_bytes() + ssid.spec_bytes() + "\",\"".spec_bytes()
        + password.spec_bytes() + "\"".spec_bytes()
}

/// The line that asks the device to open link `link_id` to `peer`, port `port`.
pub open spec fn connection_line(
    link_id: usize,
    connection_type: ConnectionType,
    peer: Ipv4Addr,
    port: u16,
) -> Seq<u8> {
    "AT+CIPSTART=".spec_bytes() + decimal(link_id as nat) + ",".spec_bytes()
        + connection_type.wire_name() + ",\"".spec_bytes() + decimal(peer.octets[0] as nat)
        + ".".spec_bytes() + decimal(peer.octets[1] as nat) + ".".spec_bytes() + decimal(
        peer.octets[2] as nat,
    ) + ".".spec_bytes() + decimal(peer.octets[3] as nat) + "\",".spec_bytes() + decimal(
        port as nat,
    )
}

/// A line made of a command name and two numbers with a comma between them.
pub open spec fn numbered_line(name: &str, first: usize, second: usize) -> Seq<u8> {
    name.spec_bytes() + decimal(first as nat) + ",".spec_bytes() + decimal(second as nat)
}

impl<'a> Command<'a> {
    /// The line that stands for the command on the wire, without the line
    /// terminator that the transport appends.
    pub open spec fn wire_text(self) -> Seq<u8> {
        match self {
            Command::QueryFirmwareInfo => "AT+GMR".spec_bytes(),
            Command::QueryIpAddress => "AT+CIPSTA_CUR?".spec_bytes(),
            Command::JoinAp { ssid, password } => join_line(ssid, password),
            Command::StartConnection(link_id, connection_type, socket_addr) => match socket_addr.ip {
                IpAddr::V4(peer) => connection_line(
                    link_id,
                    connection_type,
                    peer,
                    socket_addr.port,
                ),
                IpAddr::V6(_) => Seq::<u8>::empty(),
            },
            Command::Send { link_id, len } => numbered_line("AT+CIPSEND=", link_id, len),
            Command::Receive { link_id, len } => numbered_line("AT+CIPRECVDATA=", link_id, len),
        }
    }

    /// Whether the command can be put on the wire: the peer of a connection is
    /// an IPv4 address, and the line fits the command text's capacity.
    pub open spec fn serializable(self) -> bool {
        &&& self matches Command::StartConnection(_, _, socket_addr) ==> socket_addr.ip is V4
        &&& self.wire_text().len() <= COMMAND_CAPACITY
    }

    /// Serializes the command to its AT text, where it can be put on the
    /// wire (see [`Command::serializable`]).
    pub fn checked_as_bytes(&self) -> (text: Option<CommandText>)
        ensures
            text is Some <==> self.serializable(),
            text matches Some(line) ==> line@ == self.wire_text(),
    {
        match self {
            Command::QueryFirmwareInfo => begin("AT+GMR"),
            Command::QueryIpAddress => begin("AT+CIPSTA_CUR?"),
            Command::JoinAp { ssid, password } => join_text(ssid, password),
            Command::StartConnection(link_id, connection_type, socket_addr) => {
                match socket_addr.ip() {
                    IpAddr::V4(peer) => connection_text(
                        *link_id,
                        *connection_type,
                        peer,
                        socket_addr.port(),
                    ),
                    IpAddr::V6(_) => None,
                }
            },
            Command::Send { link_id, len } => numbered_text("AT+CIPSEND=", *link_id, *len),
            Command::Receive { link_id, len } => numbered_text("AT+CIPRECVDATA=", *link_id, *len),
        }
    }

    /// Serializes the command to its AT text.
    pub fn as_bytes(&self) -> (text: CommandText)
        requires
            self.serializable(),
        ensures
            text@ == self.wire_text(),
    {
        match self.checked_as_bytes() {
            Some(text) => text,
            None => vstd::pervasive::unreached(),
        }
    }
}

/// A text that holds `piece`, where it has room for it.
fn begin(piece: &str) -> (text: Option<CommandText>)
    ensures
        text is Some <==> piece.spec_bytes().len() <= COMMAND_CAPACITY,
        text matches Some(begun) ==> begun@ == piece.spec_bytes(),
{
    let mut text = CommandText::new();
    match text.push_str(piece) {
        Ok(()) => Some(text),
        Err(()) => None,
    }
}

/// The text with `piece` behind it, where it has room for it.
fn append(text: CommandText, piece: &str) -> (longer: Option<CommandText>)
    ensures
        longer is Some <==> text@.len() + piece.spec_bytes().len() <= COMMAND_CAPACITY,
        longer matches Some(appended) ==> appended@ == text@ + piece.spec_bytes(),
{
    let mut text = text;
    match text.push_str(piece) {
        Ok(()) => Some(text),
        Err(()) => None,
    }
}

/// The text with the decimal digits of `n` behind it, where it has room for
/// them.
fn append_decimal(text: CommandText, n: usize) -> (longer: Option<CommandText>)
    ensures
        longer is Some <==> text@.len() + decimal(n as nat).len() <= COMMAND_CAPACITY,
        longer matches Some(appended) ==> appended@ == text@ + decimal(n as nat),
{
    let digits = decimal_string(n);
    proof {
        lemma_decimal_shape(n as nat);
        lemma_ascii_encoding(decimal(n as nat));
    }
    append(text, digits.as_str())
}

fn join_text(ssid: &str, password: &str) -> (text: Option<CommandText>)
    ensures
        text is Some <==> join_line(ssid, password).len() <= COMMAND_CAPACITY,
        text matches Some(line) ==> line@ == join_line(ssid, password),
{
    let text = begin("AT+CWJAP_CUR=\"")?;
    let text = append(text, ssid)?;
    let text = append(text, "\",\"")?;
    let text = append(text, password)?;
    append(text, "\"")
}

fn connection_text(link_id: usize, connection_type: ConnectionType, peer: Ipv4Addr, port: u16) -> (text:
    Option<CommandText>)
    ensures
        text is Some <==> connection_line(link_id, connection_type, peer, port).len()
            <= COMMAND_CAPACITY,
        text matches Some(line) ==> line@ == connection_line(
            link_id,
            connection_type,
            peer,
            port,
        ),
{
    let octets = peer.octets();
    let text = begin("AT+CIPSTART=")?;
    let text = append_decimal(text, link_id)?;
    let text = append(text, ",")?;
    let text = match connection_type {
        ConnectionType::TCP => append(text, "\"TCP\"")?,
        ConnectionType::UDP => append(text, "\"UDP\"")?,
    };
    let text = append(text, ",\"")?;
    let text = append_decimal(text, octets[0] as usize)?;
    let text = append(text, ".")?;
    let text = append_decimal(text, octets[1] as usize)?;
    let text = append(text, ".")?;
    let text = append_decimal(text, octets[2] as usize)?;
    let text = append(text, ".")?;
    let text = append_decimal(text, octets[3] as usize)?;
    let text = append(text, "\",")?;
    append_decimal(text, port as usize)
}

fn numbered_text(name: &str, first: usize, second: usize) -> (text: Option<CommandText>)
    ensures
        text is Some <==> numbered_line(name, first, second).len() <= COMMAND_CAPACITY,
        text matches Some(line) ==> line@ == numbered_line(name, first, second),
{
    let text = begin(name)?;
    let text = append_decimal(text, first)?;
    let text = append(text, ",")?;
    append_decimal(text, second)
}

/// The character for a value below 16 in upper-case hexadecimal.
pub open spec fn hex_digit(nibble: u8) -> char {
    if nibble < 10 {
        (48 + nibble) as char
    } else {
        (55 + nibble) as char
    }
}

/// A byte in upper-case hexadecimal, without a leading zero.
pub open spec fn hex_upper(byte: u8) -> Seq<char> {
    if byte < 16 {
        seq![hex_digit(byte)]
    } else {
        seq![hex_digit(byte / 16), hex_digit(byte % 16)]
    }
}

/// The bytes in upper-case hexadecimal, with a comma and a space between
/// each two.
pub open spec fn hex_items(data: Seq<u8>) -> Seq<char>
    decreases data.len(),
{
    if data.len() == 0 {
        Seq::empty()
    } else if data.len() == 1 {
        hex_upper(data[0])
    } else {
        hex_items(data.drop_last()) + ", "@ + hex_upper(data.last())
    }
}

/// A byte of data as text: a zero byte as a backslash and a zero, any other
/// byte of 7 bits as its character, and every other byte as the replacement
/// character.
pub open spec fn data_char(byte: u8) -> Seq<char> {
    if byte == 0 {
        seq!['\\', '0']
    } else if byte <= 0x7F {
        seq![byte as char]
    } else {
        seq!['\u{FFFD}']
    }
}

/// The bytes of data as text.
pub open spec fn data_chars(data: Seq<u8>) -> Seq<char>
    decreases data.len(),
{
    if data.len() == 0 {
        Seq::empty()
    } else {
        data_chars(data.drop_last()) + data_char(data.last())
    }
}

/// The text that shows data under a name: the name, and in brackets the
/// number of bytes, the data as text in single quotes, and the bytes in
/// hexadecimal in square brackets.
pub open spec fn dump_text(name: Seq<char>, data: Seq<u8>) -> Seq<char> {
    name + "("@ + ascii_chars(decimal(data.len())) + "; '"@ + data_chars(data) + "'; ["@
        + hex_items(data) + "])"@
}

fn push_hex_digit(out: &mut String, nibble: u8)
    requires
        nibble < 16,
    ensures
        final(out)@ == old(out)@.push(hex_digit(nibble)),
{
    let c = if nibble < 10 {
        (48 + nibble) as char
    } else {
        (55 + nibble) as char
    };
    out.push(c);
}

fn push_hex_upper(out: &mut String, byte: u8)
    ensures
        final(out)@ == old(out)@ + hex_upper(byte),
{
    if byte >= 16 {
        push_hex_digit(out, byte / 16);
    }
    push_hex_digit(out, byte % 16);
}

fn push_hex_items(out: &mut String, data: &[u8])
    ensures
        final(out)@ == old(out)@ + hex_items(data@),
{
    let mut i: usize = 0;
    while i < data.len()
        invariant
            i <= data@.len(),
            out@ == old(out)@ + hex_items(data@.subrange(0, i as int)),
        decreases data@.len() - i,
    {
        if i > 0 {
            out.append(", ");
        }
        push_hex_upper(out, data[i]);
        assert(data@.subrange(0, i + 1).drop_last() =~= data@.subrange(0, i as int));
        i += 1;
    }
    assert(data@.subrange(0, i as int) =~= data@);
}

fn push_data_chars(out: &mut String, data: &[u8])
    ensures
        final(out)@ == old(out)@ + data_chars(data@),
{
    let mut i: usize = 0;
    while i < data.len()
        invariant
            i <= data@.len(),
            out@ == old(out)@ + data_chars(data@.subrange(0, i as int)),
        decreases data@.len() - i,
    {
        let byte = data[i];
        if byte == 0 {
            out.push('\\');
            out.push('0');
        } else if byte <= 0x7F {
            out.push(byte as char);
        } else {
            out.push('\u{FFFD}');
        }
        assert(data@.subrange(0, i + 1).drop_last() =~= data@.subrange(0, i as int));
        i += 1;
    }
    assert(data@.subrange(0, i as int) =~= data@);
}

/// Dump some data, which is stored in a buffer with a length indicator.
///
/// The output will contain the field name, the data as string (only 7bits)
/// and the raw bytes in hex encoding.
pub fn dump_data(name: &str, data: &[u8], len: usize) -> (text: String)
    requires
        len <= data@.len(),
    ensures
        text@ == dump_text(name@, data@.subrange(0, len as int)),
{
    let data = slice_subrange(data, 0, len);
    let mut text = String::from_str(name);
    text.append("(");
    push_decimal(&mut text, len);
    text.append("; '");
    push_data_chars(&mut text, data);
    text.append("'; [");
    push_hex_items(&mut text, data);
    text.append("])");
    text
}

impl WifiConnectionFailure {
    /// The name of the reason.
    pub open spec fn name(self) -> Seq<char> {
        match self {
            WifiConnectionFailure::Timeout => "Timeout"@,
            WifiConnectionFailure::WrongPassword => "WrongPassword"@,
            WifiConnectionFailure::CannotFindTargetAp => "CannotFindTargetAp"@,
            WifiConnectionFailure::ConnectionFailed => "ConnectionFailed"@,
        }
    }
}

impl Ipv4Addr {
    /// The address in dotted decimal notation, as text.
    pub open spec fn dotted_text(self) -> Seq<char> {
        ascii_chars(decimal(self.octets[0] as nat)) + "."@ + ascii_chars(
            decimal(self.octets[1] as nat),
        ) + "."@ + ascii_chars(decimal(self.octets[2] as nat)) + "."@ + ascii_chars(
            decimal(self.octets[3] as nat),
        )
    }
}

fn push_dotted(out: &mut String, addr: &Ipv4Addr)
    ensures
        final(out)@ == old(out)@ + addr.dotted_text(),
{
    let mut text = String::new();
    push_decimal(&mut text, addr.octets[0] as usize);
    text.append(".");
    push_decimal(&mut text, addr.octets[1] as usize);
    text.append(".");
    push_decimal(&mut text, addr.octets[2] as usize);
    text.append(".");
    push_decimal(&mut text, addr.octets[3] as usize);
    out.append(text.as_str());
}

impl FirmwareInfo {
    /// The version with its field names, as text.
    pub open spec fn debug_text(self) -> Seq<char> {
        "FirmwareInfo { major: "@ + ascii_chars(decimal(self.major as nat)) + ", minor: "@
            + ascii_chars(decimal(self.minor as nat)) + ", patch: "@ + ascii_chars(
            decimal(self.patch as nat),
        ) + ", build: "@ + ascii_chars(decimal(self.build as nat)) + " }"@
    }
}

fn push_firmware_info(out: &mut String, info: &FirmwareInfo)
    ensures
        final(out)@ == old(out)@ + info.debug_text(),
{
    let mut text = String::from_str("FirmwareInfo { major: ");
    push_decimal(&mut text, info.major as usize);
    text.append(", minor: ");
    push_decimal(&mut text, info.minor as usize);
    text.append(", patch: ");
    push_decimal(&mut text, info.patch as usize);
    text.append(", build: ");
    push_decimal(&mut text, info.build as usize);
    text.append(" }");
    out.append(text.as_str());
}

impl IpAddresses {
    /// The addresses with their field names, as text.
    pub open spec fn debug_text(self) -> Seq<char> {
        "IpAddresses { ip: "@ + self.ip.dotted_text() + ", gateway: "@
            + self.gateway.dotted_text() + ", netmask: "@ + self.netmask.dotted_text() + " }"@
    }
}

fn push_ip_addresses(out: &mut String, addresses: &IpAddresses)
    ensures
        final(out)@ == old(out)@ + addresses.debug_text(),
{
    let mut text = String::from_str("IpAddresses { ip: ");
    push_dotted(&mut text, &addresses.ip);
    text.append(", gateway: ");
    push_dotted(&mut text, &addresses.gateway);
    text.append(", netmask: ");
    push_dotted(&mut text, &addresses.netmask);
    text.append(" }");
    out.append(text.as_str());
}

/// A name and a number in brackets, as text.
pub open spec fn numbered(name: Seq<char>, value: usize) -> Seq<char> {
    name + "("@ + ascii_chars(decimal(value as nat)) + ")"@
}

fn numbered_string(name: &str, value: usize) -> (text: String)
    ensures
        text@ == numbered(name@, value),
{
    let mut text = String::from_str(name);
    text.append("(");
    push_decimal(&mut text, value);
    text.append(")");
    text
}

impl Response {
    /// The response as text, for a log.
    pub open spec fn debug_text(self) -> Seq<char> {
        match self {
            Response::Nothing => "None"@,
            Response::Okay => "Ok"@,
            Response::Error => "Error"@,
            Response::FirmwareInfo(info) => "FirmwareInfo("@ + info.debug_text() + ")"@,
            Response::ReadyForData => "ReadyForData"@,
            Response::SendOk(len) => numbered("SendOk"@, len),
            Response::DataAvailable { link_id, len } => "DataAvailable { link_id: "@
                + ascii_chars(decimal(link_id as nat)) + ", len: "@ + ascii_chars(
                decimal(len as nat),
            ) + " }"@,
            Response::DataReceived(data, len) => dump_text(
                "DataReceived"@,
                data@.subrange(0, len as int),
            ),
            Response::WifiConnected => "WifiConnected"@,
            Response::WifiConnectionFailure(reason) => "WifiConnectionFailure("@ + reason.name()
                + ")"@,
            Response::WifiDisconnect => "WifiDisconnect"@,
            Response::GotIp => "GotIp"@,
            Response::IpAddresses(addresses) => "IpAddresses("@ + addresses.debug_text() + ")"@,
            Response::Connect(link_id) => numbered("Connect"@, link_id),
            Response::Closed(link_id) => numbered("Closed"@, link_id),
        }
    }

    /// Formats the response for a log. Received data is shown with its
    /// length, as text and in hexadecimal (see [`dump_text`]).
    pub fn debug_string(&self) -> (text: String)
        requires
            self.well_formed(),
        ensures
            text@ == self.debug_text(),
    {
        match self {
            Response::Nothing => String::from_str("None"),
            Response::Okay => String::from_str("Ok"),
            Response::Error => String::from_str("Error"),
            Response::FirmwareInfo(info) => {
                let mut text = String::from_str("FirmwareInfo(");
                push_firmware_info(&mut text, info);
                text.append(")");
                text
            },
            Response::ReadyForData => String::from_str("ReadyForData"),
            Response::SendOk(len) => numbered_string("SendOk", *len),
            Response::DataAvailable { link_id, len } => {
                let mut text = String::from_str("DataAvailable { link_id: ");
                push_decimal(&mut text, *link_id);
                text.append(", len: ");
                push_decimal(&mut text, *len);
                text.append(" }");
                text
            },
            Response::DataReceived(data, len) => dump_data("DataReceived", data.as_slice(), *len),
            Response::WifiConnected => String::from_str("WifiConnected"),
            Response::WifiConnectionFailure(reason) => {
                let mut text = String::from_str("WifiConnectionFailure(");
                match reason {
                    WifiConnectionFailure::Timeout => text.append("Timeout"),
                    WifiConnectionFailure::WrongPassword => text.append("WrongPassword"),
                    WifiConnectionFailure::CannotFindTargetAp => text.append("CannotFindTargetAp"),
                    WifiConnectionFailure::ConnectionFailed => text.append("ConnectionFailed"),
                }
                text.append(")");
                text
            },
            Response::WifiDisconnect => String::from_str("WifiDisconnect"),
            Response::GotIp => String::from_str("GotIp"),
            Response::IpAddresses(addresses) => {
                let mut text = String::from_str("IpAddresses(");
                push_ip_addresses(&mut text, addresses);
                text.append(")");
                text
            },
            Response::Connect(link_id) => numbered_string("Connect", *link_id),
            Response::Closed(link_id) => numbered_string("Closed", *link_id),
        }
    }
}

} // verus!
