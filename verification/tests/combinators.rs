//! The grammar written down a second time, with the streaming combinators of
//! the nom crate, and held against the parser on many windows.

use esp_at_driver::parser;
use esp_at_driver::parser::Failure;
use esp_at_driver::protocol::{FirmwareInfo, IpAddresses, Ipv4Addr, Response, WifiConnectionFailure};

use nom::branch::alt;
use nom::bytes::streaming::{tag, take, take_until};
use nom::character::streaming::digit1;
use nom::combinator::opt;
use nom::error::ErrorKind;
use nom::IResult;

fn crlf(input: &[u8]) -> IResult<&[u8], &[u8]> {
    tag("\r\n")(input)
}

fn number(input: &[u8], max: usize) -> IResult<&[u8], usize> {
    let (rest, digits) = digit1(input)?;
    let mut value: usize = 0;
    for digit in digits {
        let next = value.checked_mul(10).and_then(|v| v.checked_add((digit - b'0') as usize));
        match next {
            Some(v) if v <= max => value = v,
            _ => return Err(nom::Err::Error((input, ErrorKind::Digit))),
        }
    }
    Ok((rest, value))
}

fn parse_u8(input: &[u8]) -> IResult<&[u8], u8> {
    let (rest, value) = number(input, 255)?;
    Ok((rest, value as u8))
}

fn parse_usize(input: &[u8]) -> IResult<&[u8], usize> {
    number(input, usize::MAX)
}

fn ok(input: &[u8]) -> IResult<&[u8], Response> {
    let (input, _) = opt(crlf)(input)?;
    let (input, _) = opt(crlf)(input)?;
    let (input, _) = tag("OK")(input)?;
    let (input, _) = crlf(input)?;
    Ok((input, Response::Okay))
}

fn error(input: &[u8]) -> IResult<&[u8], Response> {
    let (input, _) = opt(crlf)(input)?;
    let (input, _) = opt(crlf)(input)?;
    let (input, _) = tag("ERROR")(input)?;
    let (input, _) = crlf(input)?;
    Ok((input, Response::Error))
}

fn wifi_connected(input: &[u8]) -> IResult<&[u8], Response> {
    let (input, _) = tag("WIFI CONNECTED")(input)?;
    let (input, _) = crlf(input)?;
    Ok((input, Response::WifiConnected))
}

fn wifi_disconnect(input: &[u8]) -> IResult<&[u8], Response> {
    let (input, _) = tag("WIFI DISCONNECT")(input)?;
    let (input, _) = crlf(input)?;
    Ok((input, Response::WifiDisconnect))
}

fn got_ip(input: &[u8]) -> IResult<&[u8], Response> {
    let (input, _) = tag("WIFI GOT IP")(input)?;
    let (input, _) = crlf(input)?;
    Ok((input, Response::GotIp))
}

fn wifi_connection_failure(input: &[u8]) -> IResult<&[u8], Response> {
    let (input, _) = tag("+CWJAP:")(input)?;
    let (input, code) = parse_u8(input)?;
    let (input, _) = crlf(input)?;
    let (input, _) = crlf(input)?;
    let (input, _) = tag("FAIL")(input)?;
    let (input, _) = crlf(input)?;
    Ok((input, Response::WifiConnectionFailure(WifiConnectionFailure::from(code))))
}

fn firmware_info(input: &[u8]) -> IResult<&[u8], Response> {
    let (input, _) = tag("AT version:")(input)?;
    let (input, major) = parse_u8(input)?;
    let (input, _) = tag(".")(input)?;
    let (input, minor) = parse_u8(input)?;
    let (input, _) = tag(".")(input)?;
    let (input, patch) = parse_u8(input)?;
    let (input, _) = tag(".")(input)?;
    let (input, build) = parse_u8(input)?;
    let (input, _) = take_until("OK")(input)?;
    let (input, _) = ok(input)?;
    Ok((input, Response::FirmwareInfo(FirmwareInfo { major, minor, patch, build })))
}

fn ip_addr(input: &[u8]) -> IResult<&[u8], Ipv4Addr> {
    let (input, a) = parse_u8(input)?;
    let (input, _) = tag(".")(input)?;
    let (input, b) = parse_u8(input)?;
    let (input, _) = tag(".")(input)?;
    let (input, c) = parse_u8(input)?;
    let (input, _) = tag(".")(input)?;
    let (input, d) = parse_u8(input)?;
    Ok((input, Ipv4Addr::new(a, b, c, d)))
}

fn ip_addresses(input: &[u8]) -> IResult<&[u8], Response> {
    let (input, _) = tag("+CIPSTA_CUR:ip:\"")(input)?;
    let (input, ip) = ip_addr(input)?;
    let (input, _) = tag("\"")(input)?;
    let (input, _) = crlf(input)?;
    let (input, _) = tag("+CIPSTA_CUR:gateway:\"")(input)?;
    let (input, gateway) = ip_addr(input)?;
    let (input, _) = tag("\"")(input)?;
    let (input, _) = crlf(input)?;
    let (input, _) = tag("+CIPSTA_CUR:netmask:\"")(input)?;
    let (input, netmask) = ip_addr(input)?;
    let (input, _) = tag("\"")(input)?;
    let (input, _) = crlf(input)?;
    let (input, _) = crlf(input)?;
    let (input, _) = ok(input)?;
    Ok((input, Response::IpAddresses(IpAddresses { ip, gateway, netmask })))
}

fn connect(input: &[u8]) -> IResult<&[u8], Response> {
    let (input, link_id) = parse_u8(input)?;
    let (input, _) = tag(",CONNECT")(input)?;
    let (input, _) = crlf(input)?;
    let (input, _) = ok(input)?;
    Ok((input, Response::Connect(link_id as usize)))
}

fn ready_for_data(input: &[u8]) -> IResult<&[u8], Response> {
    let (input, _) = tag("> ")(input)?;
    Ok((input, Response::ReadyForData))
}

fn send_ok(input: &[u8]) -> IResult<&[u8], Response> {
    let (input, _) = crlf(input)?;
    let (input, _) = tag("Recv ")(input)?;
    let (input, len) = parse_usize(input)?;
    let (input, _) = tag(" bytes")(input)?;
    let (input, _) = crlf(input)?;
    let (input, _) = crlf(input)?;
    let (input, _) = tag("SEND OK")(input)?;
    let (input, _) = crlf(input)?;
    Ok((input, Response::SendOk(len)))
}

fn data_available(input: &[u8]) -> IResult<&[u8], Response> {
    let (input, _) = opt(crlf)(input)?;
    let (input, _) = tag("+IPD,")(input)?;
    let (input, link_id) = parse_usize(input)?;
    let (input, _) = tag(",")(input)?;
    let (input, len) = parse_usize(input)?;
    let (input, _) = crlf(input)?;
    Ok((input, Response::DataAvailable { link_id, len }))
}

fn closed(input: &[u8]) -> IResult<&[u8], Response> {
    let (input, _) = opt(crlf)(input)?;
    let (input, link_id) = parse_usize(input)?;
    let (input, _) = tag(",CLOSED")(input)?;
    let (input, _) = crlf(input)?;
    Ok((input, Response::Closed(link_id)))
}

fn data_received(input: &[u8]) -> IResult<&[u8], Response> {
    let (input, _) = opt(crlf)(input)?;
    let (input, _) = tag("+CIPRECVDATA,")(input)?;
    let (input, len) = number(input, 128)?;
    let (input, _) = tag(":")(input)?;
    let (input, data) = take(len)(input)?;
    let (input, _) = crlf(input)?;
    let (input, _) = ok(input)?;
    let mut buf = [0; 128];
    for (i, b) in data.iter().enumerate() {
        buf[i] = *b;
    }
    Ok((input, Response::DataReceived(buf, len)))
}

fn message(input: &[u8]) -> IResult<&[u8], Response> {
    alt((
        ok,
        error,
        firmware_info,
        wifi_connected,
        wifi_disconnect,
        wifi_connection_failure,
        got_ip,
        ip_addresses,
        connect,
        closed,
        ready_for_data,
        send_ok,
        data_available,
        data_received,
    ))(input)
}

fn expected(input: &[u8]) -> Result<(Response, usize), Failure> {
    match message(input) {
        Ok((rest, response)) => Ok((response, input.len() - rest.len())),
        Err(nom::Err::Incomplete(_)) => Err(Failure::Incomplete),
        Err(_) => Err(Failure::NoMatch),
    }
}

fn agree(input: &[u8]) {
    let ours = parser::parse(input);
    let theirs = expected(input);
    if ours != theirs {
        panic!("the parser and the combinators disagree on {:?}", String::from_utf8_lossy(input));
    }
}

fn corpus() -> Vec<Vec<u8>> {
    let mut data = b"+CIPRECVDATA,40:".to_vec();
    data.extend((0u8..40).map(|i| i.wrapping_mul(37)));
    data.extend_from_slice(b"\r\nOK\r\n");
    vec![
        b"OK\r\n".to_vec(),
        b"\r\nOK\r\n".to_vec(),
        b"\r\n\r\nOK\r\n".to_vec(),
        b"\r\n\r\nERROR\r\n".to_vec(),
        b"WIFI CONNECTED\r\n".to_vec(),
        b"WIFI DISCONNECT\r\n".to_vec(),
        b"WIFI GOT IP\r\n".to_vec(),
        b"+CWJAP:3\r\n\r\nFAIL\r\n".to_vec(),
        b"+CWJAP:17\r\n\r\nFAIL\r\n".to_vec(),
        b"AT version:1.6.2.0(Apr 13 2018 11:10:59)\r\nSDK version:2.2.1(6ab97e9)\r\n\
compile time:Jun  7 2018 19:34:26\r\nBin version(Wroom 02):1.6.2\r\nOK\r\n"
            .to_vec(),
        b"AT version:0.255.0.9 BOOK\r\n\r\nOK\r\n".to_vec(),
        b"+CIPSTA_CUR:ip:\"192.168.1.7\"\r\n+CIPSTA_CUR:gateway:\"192.168.1.1\"\r\n\
+CIPSTA_CUR:netmask:\"255.255.255.0\"\r\n\r\nOK\r\n"
            .to_vec(),
        b"0,CONNECT\r\n\r\nOK\r\n".to_vec(),
        b"4,CONNECT\r\nOK\r\n".to_vec(),
        b"1,CLOSED\r\n".to_vec(),
        b"\r\n12,CLOSED\r\n".to_vec(),
        b"> ".to_vec(),
        b"\r\nRecv 1460 bytes\r\n\r\nSEND OK\r\n".to_vec(),
        b"+IPD,3,1024\r\n".to_vec(),
        b"\r\n+IPD,0,7\r\n".to_vec(),
        b"+CIPRECVDATA,5:hello\r\nOK\r\n".to_vec(),
        b"\r\n+CIPRECVDATA,12:OK\r\n> \r\nOK\r\n\r\n\r\nOK\r\n".to_vec(),
        b"+CIPRECVDATA,0:\r\nOK\r\n".to_vec(),
        data,
        b"+CIPRECVDATA,129:x".to_vec(),
        b"256,CONNECT\r\nOK\r\n".to_vec(),
        b"99999999999999999999999999,CLOSED\r\n".to_vec(),
        b"busy p...\r\n".to_vec(),
    ]
}

#[test]
fn agrees_on_whole_messages() {
    for message in corpus() {
        agree(&message);
    }
}

#[test]
fn agrees_on_every_prefix() {
    for message in corpus() {
        for end in 0..message.len() {
            agree(&message[..end]);
        }
    }
}

#[test]
fn agrees_on_messages_in_a_row() {
    let corpus = corpus();
    for first in &corpus {
        for second in &corpus {
            let mut window = first.clone();
            window.extend_from_slice(second);
            agree(&window);
        }
    }
}

#[test]
fn agrees_when_a_byte_is_replaced() {
    for message in corpus() {
        for at in 0..message.len() {
            for replacement in [b'X', b'0', b'\r', b'\n', b',', b'O', 0u8, 0xffu8] {
                let mut window = message.clone();
                window[at] = replacement;
                agree(&window);
            }
        }
    }
}

#[test]
fn agrees_when_a_byte_is_missing_or_doubled() {
    for message in corpus() {
        for at in 0..message.len() {
            let mut missing = message.clone();
            missing.remove(at);
            agree(&missing);
            let mut doubled = message.clone();
            doubled.insert(at, message[at]);
            agree(&doubled);
        }
    }
}

#[test]
fn agrees_on_every_short_window_of_a_small_alphabet() {
    let alphabet = [b'\r', b'\n', b'O', b'K', b'1', b',', b'>', b' ', b'+'];
    let mut windows: Vec<Vec<u8>> = vec![Vec::new()];
    for _ in 0..5 {
        let mut longer = Vec::new();
        for window in &windows {
            for byte in alphabet {
                let mut next = window.clone();
                next.push(byte);
                agree(&next);
                longer.push(next);
            }
        }
        windows = longer;
    }
}
