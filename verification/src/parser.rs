//! The parser for what the device says: one message at a time, from the front
//! of a window of bytes, as [`crate::grammar`] defines it.

use crate::grammar;
use crate::grammar::{digits_end, find_at, number_value, Outcome, Step};
use crate::num::{all_digits, atoi_usize, is_digit};
use crate::protocol::{carrier, FirmwareInfo, IpAddresses, Ipv4Addr, Response};
use crate::protocol::{WifiConnectionFailure, DATA_CAPACITY};
use vstd::prelude::*;
use vstd::slice::slice_subrange;
use vstd::string::StringSliceAdditionalSpecFns;

verus! {

/// Why a window does not start with a message.
#[derive(Debug, Clone, Copy, PartialEq, Eq)]
pub enum Failure {
    /// The window ends before the message does: more bytes may complete it.
    Incomplete,
    /// The bytes are not those of the message.
    NoMatch,
}

/// The step that the result of a part stands for.
pub open spec fn reached(result: Result<usize, Failure>) -> Step {
    match result {
        Ok(pos) => Step::At(pos as int),
        Err(Failure::Incomplete) => Step::Incomplete,
        Err(Failure::NoMatch) => Step::NoMatch,
    }
}

/// The step that the result of a part with a value stands for.
pub open spec fn reached_with<T>(result: Result<(T, usize), Failure>) -> Step {
    match result {
        Ok((_, pos)) => Step::At(pos as int),
        Err(Failure::Incomplete) => Step::Incomplete,
        Err(Failure::NoMatch) => Step::NoMatch,
    }
}

/// The outcome that the result of a production stands for.
pub open spec fn outcome(result: Result<(Response, usize), Failure>) -> Outcome {
    match result {
        Ok((response, consumed)) => Outcome::Complete { response, consumed: consumed as int },
        Err(Failure::Incomplete) => Outcome::Incomplete,
        Err(Failure::NoMatch) => Outcome::NoMatch,
    }
}

/// Matches the text `lit` at index `at`.
fn tag(input: &[u8], at: usize, lit: &str) -> (result: Result<usize, Failure>)
    requires
        at <= input@.len(),
    ensures
        reached(result) == Step::At(at as int).tag(input@, lit),
        result matches Ok(end) ==> at <= end <= input@.len(),
{
    let text = lit.as_bytes();
    let len = input.len();
    let mut i: usize = 0;
    while i < text.len()
        invariant
            i <= text@.len(),
            at + i <= input@.len(),
            len == input@.len(),
            text@ == lit.spec_bytes(),
            forall|k: int| 0 <= k < i ==> input@[at + k] == text@[k],
        decreases text@.len() - i,
    {
        if at + i >= len {
            proof {
                let have = input@.len() - at;
                assert(input@.subrange(at as int, input@.len() as int) =~= text@.subrange(
                    0,
                    have,
                ));
            }
            return Err(Failure::Incomplete);
        }
        if input[at + i] != text[i] {
            proof {
                let have = input@.len() - at;
                if have >= text@.len() {
                    assert(input@.subrange(at as int, at + text@.len())[i as int] != text@[i as int]);
                } else {
                    assert(input@.subrange(at as int, input@.len() as int)[i as int]
                        != text@.subrange(0, have)[i as int]);
                }
            }
            return Err(Failure::NoMatch);
        }
        i += 1;
    }
    proof {
        assert(input@.subrange(at as int, at + text@.len()) =~= text@);
    }
    Ok(at + text.len())
}

/// Matches a line terminator at index `at`.
fn line_break(input: &[u8], at: usize) -> (result: Result<usize, Failure>)
    requires
        at <= input@.len(),
    ensures
        reached(result) == Step::At(at as int).line_break(input@),
        result matches Ok(end) ==> at <= end <= input@.len(),
{
    tag(input, at, "\r\n")
}

/// Passes over a line terminator at index `at`, if one stands there.
fn optional_break(input: &[u8], at: usize) -> (result: Result<usize, Failure>)
    requires
        at <= input@.len(),
    ensures
        reached(result) == Step::At(at as int).optional_break(input@),
        result matches Ok(end) ==> at <= end <= input@.len(),
{
    match line_break(input, at) {
        Err(Failure::NoMatch) => Ok(at),
        other => other,
    }
}

/// Matches the line `OK`, which up to two empty lines may precede.
fn ok_line(input: &[u8], at: usize) -> (result: Result<usize, Failure>)
    requires
        at <= input@.len(),
    ensures
        reached(result) == Step::At(at as int).ok_line(input@),
        result matches Ok(end) ==> at <= end <= input@.len(),
{
    let at = optional_break(input, at)?;
    let at = optional_break(input, at)?;
    let at = tag(input, at, "OK")?;
    line_break(input, at)
}

/// The end of the run of digits that starts at index `at`.
fn digits(input: &[u8], at: usize) -> (end: usize)
    requires
        at <= input@.len(),
    ensures
        end == digits_end(input@, at as int),
        at <= end <= input@.len(),
        all_digits(input@.subrange(at as int, end as int)),
{
    let mut end = at;
    while end < input.len() && 48 <= input[end] && input[end] <= 57
        invariant
            at <= end <= input@.len(),
            digits_end(input@, at as int) == digits_end(input@, end as int),
            forall|k: int| at <= k < end ==> is_digit(#[trigger] input@[k]),
        decreases input@.len() - end,
    {
        end += 1;
    }
    end
}

/// Matches a number of at most `max` at index `at`, and reads it.
fn number(input: &[u8], at: usize, max: usize) -> (result: Result<(usize, usize), Failure>)
    requires
        at <= input@.len(),
    ensures
        reached_with(result) == Step::At(at as int).number(input@, max as int),
        result matches Ok((value, end)) ==> value == number_value(input@, at as int) && value
            <= max && at < end <= input@.len(),
{
    let end = digits(input, at);
    if end >= input.len() {
        return Err(Failure::Incomplete);
    }
    if end == at {
        return Err(Failure::NoMatch);
    }
    match atoi_usize(slice_subrange(input, at, end)) {
        Some(value) => if value <= max {
            Ok((value, end))
        } else {
            Err(Failure::NoMatch)
        },
        None => Err(Failure::NoMatch),
    }
}

/// Matches a number of at most 255 at index `at`, and reads it.
fn parse_u8(input: &[u8], at: usize) -> (result: Result<(u8, usize), Failure>)
    requires
        at <= input@.len(),
    ensures
        reached_with(result) == Step::At(at as int).number(input@, u8::MAX as int),
        result matches Ok((value, end)) ==> value == number_value(input@, at as int) && at < end
            <= input@.len(),
{
    let (value, end) = number(input, at, 255)?;
    Ok((value as u8, end))
}

/// Matches a number of platform width at index `at`, and reads it.
fn parse_usize(input: &[u8], at: usize) -> (result: Result<(usize, usize), Failure>)
    requires
        at <= input@.len(),
    ensures
        reached_with(result) == Step::At(at as int).number(input@, usize::MAX as int),
        result matches Ok((value, end)) ==> value == number_value(input@, at as int) && at < end
            <= input@.len(),
{
    number(input, at, usize::MAX)
}

/// Whether `needle` stands at index `at`.
fn stands_at(input: &[u8], at: usize, needle: &[u8]) -> (stands: bool)
    requires
        at + needle@.len() <= input@.len(),
    ensures
        stands == (input@.subrange(at as int, at + needle@.len()) == needle@),
{
    let len = input.len();
    let mut i: usize = 0;
    while i < needle.len()
        invariant
            i <= needle@.len(),
            at + needle@.len() <= input@.len(),
            len == input@.len(),
            forall|k: int| 0 <= k < i ==> input@[at + k] == needle@[k],
        decreases needle@.len() - i,
    {
        if input[at + i] != needle[i] {
            assert(input@.subrange(at as int, at + needle@.len())[i as int] != needle@[i as int]);
            return false;
        }
        i += 1;
    }
    assert(input@.subrange(at as int, at + needle@.len()) =~= needle@);
    true
}

/// Passes over the bytes from index `at` up to the first `OK`.
fn until_ok(input: &[u8], at: usize) -> (result: Result<usize, Failure>)
    requires
        at <= input@.len(),
    ensures
        reached(result) == Step::At(at as int).until_ok(input@),
        result matches Ok(end) ==> at <= end <= input@.len(),
{
    let needle = "OK".as_bytes();
    let mut i = at;
    while i < input.len() && needle.len() <= input.len() - i
        invariant
            at <= i <= input@.len(),
            needle@ == "OK".spec_bytes(),
            find_at(input@, at as int, needle@) == find_at(input@, i as int, needle@),
        decreases input@.len() - i,
    {
        if stands_at(input, i, needle) {
            return Ok(i);
        }
        i += 1;
    }
    Err(Failure::Incomplete)
}

/// Passes over `count` bytes from index `at`.
fn take(input: &[u8], at: usize, count: usize) -> (result: Result<usize, Failure>)
    requires
        at <= input@.len(),
    ensures
        reached(result) == Step::At(at as int).take(input@, count as int),
        result matches Ok(end) ==> end == at + count && end <= input@.len(),
{
    if input.len() - at >= count {
        Ok(at + count)
    } else {
        Err(Failure::Incomplete)
    }
}

/// Matches an address in dotted decimal notation at index `at`, and reads it.
fn dotted(input: &[u8], at: usize) -> (result: Result<(Ipv4Addr, usize), Failure>)
    requires
        at <= input@.len(),
    ensures
        reached_with(result) == Step::At(at as int).dotted(input@),
        result matches Ok((addr, end)) ==> addr == Step::At(at as int).address(input@) && at < end
            <= input@.len(),
{
    proof {
        reveal(Step::dotted);
        reveal(Step::address);
    }
    let (a, at) = parse_u8(input, at)?;
    let at = tag(input, at, ".")?;
    let (b, at) = parse_u8(input, at)?;
    let at = tag(input, at, ".")?;
    let (c, at) = parse_u8(input, at)?;
    let at = tag(input, at, ".")?;
    let (d, at) = parse_u8(input, at)?;
    Ok((Ipv4Addr::new(a, b, c, d), at))
}

/// Matches a dotted address, a closing quote and a line terminator.
fn quoted_address(input: &[u8], at: usize) -> (result: Result<(Ipv4Addr, usize), Failure>)
    requires
        at <= input@.len(),
    ensures
        reached_with(result) == Step::At(at as int).quoted_address(input@),
        result matches Ok((addr, end)) ==> addr == Step::At(at as int).address(input@) && at < end
            <= input@.len(),
{
    let (addr, at) = dotted(input, at)?;
    let at = tag(input, at, "\"")?;
    let at = line_break(input, at)?;
    Ok((addr, at))
}

/// `OK`
pub fn ok(input: &[u8]) -> (result: Result<(Response, usize), Failure>)
    ensures
        outcome(result) == grammar::ok(input@),
{
    let end = ok_line(input, 0)?;
    Ok((Response::Okay, end))
}

/// `ERROR`
pub fn error(input: &[u8]) -> (result: Result<(Response, usize), Failure>)
    ensures
        outcome(result) == grammar::error(input@),
{
    let at = optional_break(input, 0)?;
    let at = optional_break(input, at)?;
    let at = tag(input, at, "ERROR")?;
    let end = line_break(input, at)?;
    Ok((Response::Error, end))
}

/// `WIFI CONNECTED`
pub fn wifi_connected(input: &[u8]) -> (result: Result<(Response, usize), Failure>)
    ensures
        outcome(result) == grammar::wifi_connected(input@),
{
    let at = tag(input, 0, "WIFI CONNECTED")?;
    let end = line_break(input, at)?;
    Ok((Response::WifiConnected, end))
}

/// `WIFI DISCONNECT`
pub fn wifi_disconnect(input: &[u8]) -> (result: Result<(Response, usize), Failure>)
    ensures
        outcome(result) == grammar::wifi_disconnect(input@),
{
    let at = tag(input, 0, "WIFI DISCONNECT")?;
    let end = line_break(input, at)?;
    Ok((Response::WifiDisconnect, end))
}

/// `WIFI GOT IP`
pub fn got_ip(input: &[u8]) -> (result: Result<(Response, usize), Failure>)
    ensures
        outcome(result) == grammar::got_ip(input@),
{
    let at = tag(input, 0, "WIFI GOT IP")?;
    let end = line_break(input, at)?;
    Ok((Response::GotIp, end))
}

/// `+CWJAP:<code>`, an empty line and `FAIL`.
pub fn wifi_connection_failure(input: &[u8]) -> (result: Result<(Response, usize), Failure>)
    ensures
        outcome(result) == grammar::wifi_connection_failure(input@),
{
    let at = tag(input, 0, "+CWJAP:")?;
    let (code, at) = parse_u8(input, at)?;
    let at = line_break(input, at)?;
    let at = line_break(input, at)?;
    let at = tag(input, at, "FAIL")?;
    let end = line_break(input, at)?;
    Ok((Response::WifiConnectionFailure(WifiConnectionFailure::from(code)), end))
}

/// `AT version:<major>.<minor>.<patch>.<build>`, anything, and `OK`.
pub fn firmware_info(input: &[u8]) -> (result: Result<(Response, usize), Failure>)
    ensures
        outcome(result) == grammar::firmware_info(input@),
{
    let at = tag(input, 0, "AT version:")?;
    let (major, at) = parse_u8(input, at)?;
    let at = tag(input, at, ".")?;
    let (minor, at) = parse_u8(input, at)?;
    let at = tag(input, at, ".")?;
    let (patch, at) = parse_u8(input, at)?;
    let at = tag(input, at, ".")?;
    let (build, at) = parse_u8(input, at)?;
    let at = until_ok(input, at)?;
    let end = ok_line(input, at)?;
    Ok((Response::FirmwareInfo(FirmwareInfo { major, minor, patch, build }), end))
}

/// The three address lines, an empty line and `OK`.
pub fn ip_addresses(input: &[u8]) -> (result: Result<(Response, usize), Failure>)
    ensures
        outcome(result) == grammar::ip_addresses(input@),
{
    proof {
        broadcast use crate::framing::lemma_dotted_after_failure;

    }
    let at = tag(input, 0, "+CIPSTA_CUR:ip:\"")?;
    let (ip, at) = quoted_address(input, at)?;
    let at = tag(input, at, "+CIPSTA_CUR:gateway:\"")?;
    let (gateway, at) = quoted_address(input, at)?;
    let at = tag(input, at, "+CIPSTA_CUR:netmask:\"")?;
    let (netmask, at) = quoted_address(input, at)?;
    let at = line_break(input, at)?;
    let end = ok_line(input, at)?;
    Ok((Response::IpAddresses(IpAddresses { ip, gateway, netmask }), end))
}

/// `<link>,CONNECT` and `OK`.
pub fn connect(input: &[u8]) -> (result: Result<(Response, usize), Failure>)
    ensures
        outcome(result) == grammar::connect(input@),
{
    let (link_id, at) = parse_u8(input, 0)?;
    let at = tag(input, at, ",CONNECT")?;
    let at = line_break(input, at)?;
    let end = ok_line(input, at)?;
    Ok((Response::Connect(link_id as usize), end))
}

/// `<link>,CLOSED`
pub fn closed(input: &[u8]) -> (result: Result<(Response, usize), Failure>)
    ensures
        outcome(result) == grammar::closed(input@),
{
    let at = optional_break(input, 0)?;
    let (link_id, at) = parse_usize(input, at)?;
    let at = tag(input, at, ",CLOSED")?;
    let end = line_break(input, at)?;
    Ok((Response::Closed(link_id), end))
}

/// The prompt `> `.
pub fn ready_for_data(input: &[u8]) -> (result: Result<(Response, usize), Failure>)
    ensures
        outcome(result) == grammar::ready_for_data(input@),
{
    let end = tag(input, 0, "> ")?;
    Ok((Response::ReadyForData, end))
}

/// `Recv <len> bytes` and `SEND OK`.
pub fn send_ok(input: &[u8]) -> (result: Result<(Response, usize), Failure>)
    ensures
        outcome(result) == grammar::send_ok(input@),
{
    let at = line_break(input, 0)?;
    let at = tag(input, at, "Recv ")?;
    let (len, at) = parse_usize(input, at)?;
    let at = tag(input, at, " bytes")?;
    let at = line_break(input, at)?;
    let at = line_break(input, at)?;
    let at = tag(input, at, "SEND OK")?;
    let end = line_break(input, at)?;
    Ok((Response::SendOk(len), end))
}

/// `+IPD,<link>,<len>`
pub fn data_available(input: &[u8]) -> (result: Result<(Response, usize), Failure>)
    ensures
        outcome(result) == grammar::data_available(input@),
{
    let at = optional_break(input, 0)?;
    let at = tag(input, at, "+IPD,")?;
    let (link_id, at) = parse_usize(input, at)?;
    let at = tag(input, at, ",")?;
    let (len, at) = parse_usize(input, at)?;
    let end = line_break(input, at)?;
    Ok((Response::DataAvailable { link_id, len }, end))
}

/// `+CIPRECVDATA,<len>:`, the data and `OK`.
pub fn data_received(input: &[u8]) -> (result: Result<(Response, usize), Failure>)
    ensures
        outcome(result) == grammar::data_received(input@),
{
    let at = optional_break(input, 0)?;
    let at = tag(input, at, "+CIPRECVDATA,")?;
    let (len, at) = number(input, at, DATA_CAPACITY)?;
    let start = tag(input, at, ":")?;
    let at = take(input, start, len)?;
    let data = carrier(slice_subrange(input, start, at));
    let at = line_break(input, at)?;
    let end = ok_line(input, at)?;
    Ok((Response::DataReceived(data, len), end))
}

/// Recognizes the message that the window `input` starts with.
///
/// `Ok` holds the message and the number of bytes that it takes up; what
/// follows them in the window is not looked at. `Incomplete` asks for more
/// bytes, `NoMatch` says that no message starts like this.
pub fn parse(input: &[u8]) -> (result: Result<(Response, usize), Failure>)
    ensures
        outcome(result) == grammar::message(input@),
{
    proof {
        reveal(grammar::message);
    }
    match ok(input) {
        Err(Failure::NoMatch) => {},
        other => {
            return other;
        },
    }
    match error(input) {
        Err(Failure::NoMatch) => {},
        other => {
            return other;
        },
    }
    match firmware_info(input) {
        Err(Failure::NoMatch) => {},
        other => {
            return other;
        },
    }
    match wifi_connected(input) {
        Err(Failure::NoMatch) => {},
        other => {
            return other;
        },
    }
    match wifi_disconnect(input) {
        Err(Failure::NoMatch) => {},
        other => {
            return other;
        },
    }
    match wifi_connection_failure(input) {
        Err(Failure::NoMatch) => {},
        other => {
            return other;
        },
    }
    match got_ip(input) {
        Err(Failure::NoMatch) => {},
        other => {
            return other;
        },
    }
    match ip_addresses(input) {
        Err(Failure::NoMatch) => {},
        other => {
            return other;
        },
    }
    match connect(input) {
        Err(Failure::NoMatch) => {},
        other => {
            return other;
        },
    }
    match closed(input) {
        Err(Failure::NoMatch) => {},
        other => {
            return other;
        },
    }
    match ready_for_data(input) {
        Err(Failure::NoMatch) => {},
        other => {
            return other;
        },
    }
    match send_ok(input) {
        Err(Failure::NoMatch) => {},
        other => {
            return other;
        },
    }
    match data_available(input) {
        Err(Failure::NoMatch) => {},
        other => {
            return other;
        },
    }
    data_received(input)
}

} // verus!
