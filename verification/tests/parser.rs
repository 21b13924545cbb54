use esp_at_driver::parser;
use esp_at_driver::parser::Failure;
use esp_at_driver::protocol::{FirmwareInfo, IpAddresses, Ipv4Addr, Response, WifiConnectionFailure};

fn complete(input: &[u8], response: Response, consumed: usize) -> bool {
    parser::parse(input) == Ok((response, consumed))
}

fn incomplete(input: &[u8]) -> bool {
    parser::parse(input) == Err(Failure::Incomplete)
}

fn no_match(input: &[u8]) -> bool {
    parser::parse(input) == Err(Failure::NoMatch)
}

#[test]
fn ok_is_recognized() {
    assert!(complete(b"OK\r\n", Response::Okay, 4));
    assert!(parser::ok(b"OK\r\n") == Ok((Response::Okay, 4)));
}

#[test]
fn ok_may_follow_up_to_two_empty_lines() {
    assert!(complete(b"\r\nOK\r\n", Response::Okay, 6));
    assert!(complete(b"\r\n\r\nOK\r\n", Response::Okay, 8));
    assert!(no_match(b"\r\n\r\n\r\nOK\r\n"));
}

#[test]
fn what_follows_a_message_is_left_alone() {
    assert!(complete(b"OK\r\nERROR\r\n", Response::Okay, 4));
    assert!(complete(b"OK\r\n\x00\xff", Response::Okay, 4));
}

#[test]
fn a_window_that_ends_early_is_incomplete() {
    assert!(incomplete(b""));
    assert!(incomplete(b"O"));
    assert!(incomplete(b"OK"));
    assert!(incomplete(b"OK\r"));
    assert!(incomplete(b"\r"));
    assert!(incomplete(b"\r\n"));
    assert!(incomplete(b"\r\n\r\n"));
    assert!(incomplete(b"\r\n\r\nO"));
}

#[test]
fn bytes_of_no_message_are_no_match() {
    assert!(no_match(b"X"));
    assert!(no_match(b"ok\r\n"));
    assert!(no_match(b"OK\n"));
    assert!(no_match(b"OKAY\r\n"));
    assert!(no_match(b"\rX"));
    assert!(no_match(b"busy p...\r\n"));
}

#[test]
fn error_is_recognized() {
    assert!(complete(b"ERROR\r\n", Response::Error, 7));
    assert!(complete(b"\r\nERROR\r\n", Response::Error, 9));
    assert!(complete(b"\r\n\r\nERROR\r\n", Response::Error, 11));
    assert!(parser::error(b"ERROR\r\n") == Ok((Response::Error, 7)));
    assert!(incomplete(b"ERR"));
    assert!(no_match(b"ERRORS\r\n"));
}

#[test]
fn wifi_state_changes_are_recognized() {
    assert!(complete(b"WIFI CONNECTED\r\n", Response::WifiConnected, 16));
    assert!(complete(b"WIFI DISCONNECT\r\n", Response::WifiDisconnect, 17));
    assert!(complete(b"WIFI GOT IP\r\n", Response::GotIp, 13));
    assert!(parser::wifi_connected(b"WIFI CONNECTED\r\n") == Ok((Response::WifiConnected, 16)));
    assert!(parser::wifi_disconnect(b"WIFI DISCONNECT\r\n") == Ok((Response::WifiDisconnect, 17)));
    assert!(parser::got_ip(b"WIFI GOT IP\r\n") == Ok((Response::GotIp, 13)));
    assert!(incomplete(b"WIFI "));
    assert!(incomplete(b"WIFI CONNECTED"));
    assert!(no_match(b"WIFI LOST\r\n"));
}

#[test]
fn wifi_connection_failures_carry_their_reason() {
    let failed = |reason| Response::WifiConnectionFailure(reason);
    assert!(complete(b"+CWJAP:1\r\n\r\nFAIL\r\n", failed(WifiConnectionFailure::Timeout), 18));
    assert!(complete(
        b"+CWJAP:2\r\n\r\nFAIL\r\n",
        failed(WifiConnectionFailure::WrongPassword),
        18
    ));
    assert!(complete(
        b"+CWJAP:3\r\n\r\nFAIL\r\n",
        failed(WifiConnectionFailure::CannotFindTargetAp),
        18
    ));
    assert!(complete(
        b"+CWJAP:4\r\n\r\nFAIL\r\n",
        failed(WifiConnectionFailure::ConnectionFailed),
        18
    ));
    assert!(complete(
        b"+CWJAP:0\r\n\r\nFAIL\r\n",
        failed(WifiConnectionFailure::ConnectionFailed),
        18
    ));
    assert!(
        parser::wifi_connection_failure(b"+CWJAP:1\r\n\r\nFAIL\r\n")
            == Ok((failed(WifiConnectionFailure::Timeout), 18))
    );
}

#[test]
fn a_failure_code_beyond_eight_bits_is_no_match() {
    assert!(no_match(b"+CWJAP:256\r\n\r\nFAIL\r\n"));
    assert!(no_match(b"+CWJAP:\r\n\r\nFAIL\r\n"));
    assert!(incomplete(b"+CWJAP:25"));
}

#[test]
fn firmware_info_is_recognized() {
    let info = Response::FirmwareInfo(FirmwareInfo { major: 1, minor: 2, patch: 3, build: 4 });
    assert!(complete(b"AT version:1.2.3.4\r\nOK\r\n", info, 24));
    assert!(parser::firmware_info(b"AT version:1.2.3.4\r\nOK\r\n") == Ok((info, 24)));
}

#[test]
fn firmware_info_skips_up_to_the_first_ok() {
    let input = b"AT version:1.1.0.0(May 11 2016 18:09:56)\r\nSDK version:1.5.4(baaeaebb)\r\n\
compile time:May 20 2016 15:08:19\r\nOK\r\n";
    let info = Response::FirmwareInfo(FirmwareInfo { major: 1, minor: 1, patch: 0, build: 0 });
    assert!(complete(input, info, input.len()));
    let mut longer = input.to_vec();
    longer.extend_from_slice(b"+IPD,0,4\r\n");
    assert!(complete(&longer, info, input.len()));
}

#[test]
fn firmware_info_needs_its_ok_on_a_line() {
    assert!(incomplete(b"AT version:1.2.3.4"));
    assert!(incomplete(b"AT version:1.2.3.4\r\n"));
    assert!(incomplete(b"AT version:1.2.3.4\r\nO"));
    assert!(incomplete(b"AT version:1.2.3.4\r\nOK"));
    assert!(no_match(b"AT version:1.2.3.4 BOOKS\r\nOK\r\n"));
    let info = Response::FirmwareInfo(FirmwareInfo { major: 1, minor: 2, patch: 3, build: 4 });
    assert!(complete(b"AT version:1.2.3.4 LOOK\r\nOK\r\n", info, 25));
    assert!(no_match(b"AT version:1.2.3\r\nOK\r\n"));
    assert!(no_match(b"AT version:1.2.3.256\r\nOK\r\n"));
    assert!(no_match(b"AT version:a.2.3.4\r\nOK\r\n"));
}

#[test]
fn ip_addresses_are_recognized() {
    let input = b"+CIPSTA_CUR:ip:\"192.168.1.7\"\r\n+CIPSTA_CUR:gateway:\"192.168.1.1\"\r\n\
+CIPSTA_CUR:netmask:\"255.255.255.0\"\r\n\r\nOK\r\n";
    let addresses = Response::IpAddresses(IpAddresses {
        ip: Ipv4Addr::new(192, 168, 1, 7),
        gateway: Ipv4Addr::new(192, 168, 1, 1),
        netmask: Ipv4Addr::new(255, 255, 255, 0),
    });
    assert!(complete(input, addresses, input.len()));
    assert!(parser::ip_addresses(input) == Ok((addresses, input.len())));
    assert!(incomplete(&input[..input.len() - 1]));
    assert!(incomplete(&input[..40]));
}

#[test]
fn ip_addresses_need_four_octets_each() {
    assert!(no_match(
        b"+CIPSTA_CUR:ip:\"192.168.1\"\r\n+CIPSTA_CUR:gateway:\"192.168.1.1\"\r\n\
+CIPSTA_CUR:netmask:\"255.255.255.0\"\r\n\r\nOK\r\n"
    ));
    assert!(no_match(
        b"+CIPSTA_CUR:ip:\"192.168.1.300\"\r\n+CIPSTA_CUR:gateway:\"192.168.1.1\"\r\n\
+CIPSTA_CUR:netmask:\"255.255.255.0\"\r\n\r\nOK\r\n"
    ));
    assert!(no_match(
        b"+CIPSTA_CUR:ip:\"192.168.1.7\"\r\n+CIPSTA_CUR:netmask:\"255.255.255.0\"\r\n\
+CIPSTA_CUR:gateway:\"192.168.1.1\"\r\n\r\nOK\r\n"
    ));
}

#[test]
fn connect_is_recognized() {
    assert!(complete(b"0,CONNECT\r\nOK\r\n", Response::Connect(0), 15));
    assert!(complete(b"4,CONNECT\r\n\r\nOK\r\n", Response::Connect(4), 17));
    assert!(complete(b"255,CONNECT\r\nOK\r\n", Response::Connect(255), 17));
    assert!(parser::connect(b"1,CONNECT\r\nOK\r\n") == Ok((Response::Connect(1), 15)));
    assert!(incomplete(b"0,CONNECT\r\n"));
    assert!(incomplete(b"0,CONN"));
    assert!(incomplete(b"0"));
    assert!(no_match(b"256,CONNECT\r\nOK\r\n"));
    assert!(no_match(b"0,CONNECT FAIL\r\n"));
}

#[test]
fn closed_is_recognized() {
    assert!(complete(b"0,CLOSED\r\n", Response::Closed(0), 10));
    assert!(complete(b"\r\n3,CLOSED\r\n", Response::Closed(3), 12));
    assert!(complete(b"300,CLOSED\r\n", Response::Closed(300), 12));
    assert!(parser::closed(b"2,CLOSED\r\n") == Ok((Response::Closed(2), 10)));
    assert!(incomplete(b"0,CLOSED"));
    assert!(no_match(b",CLOSED\r\n"));
    assert!(no_match(b"\r\n\r\n3,CLOSED\r\n"));
}

#[test]
fn a_link_number_beyond_the_platform_width_is_no_match() {
    let wide = format!("{}0,CLOSED\r\n", usize::MAX);
    assert!(no_match(wide.as_bytes()));
    let fits = format!("{},CLOSED\r\n", usize::MAX);
    assert!(complete(fits.as_bytes(), Response::Closed(usize::MAX), fits.len()));
}

#[test]
fn the_prompt_is_recognized_without_a_line_terminator() {
    assert!(complete(b"> ", Response::ReadyForData, 2));
    assert!(complete(b"> \r\n", Response::ReadyForData, 2));
    assert!(parser::ready_for_data(b"> ") == Ok((Response::ReadyForData, 2)));
    assert!(incomplete(b">"));
    assert!(no_match(b">>"));
}

#[test]
fn send_ok_is_recognized() {
    let input = b"\r\nRecv 10 bytes\r\n\r\nSEND OK\r\n";
    assert!(complete(input, Response::SendOk(10), input.len()));
    assert!(parser::send_ok(input) == Ok((Response::SendOk(10), input.len())));
    assert!(incomplete(b"\r\nRecv 10 bytes\r\n\r\nSEND"));
    assert!(incomplete(b"\r\nRecv 1"));
    assert!(no_match(b"\r\nRecv 10 bytes\r\n\r\nSEND FAIL\r\n"));
    assert!(no_match(b"\r\nRecv ten bytes\r\n\r\nSEND OK\r\n"));
    assert!(parser::send_ok(b"Recv 10 bytes\r\n\r\nSEND OK\r\n") == Err(Failure::NoMatch));
}

#[test]
fn data_available_is_recognized() {
    assert!(complete(b"+IPD,1,42\r\n", Response::DataAvailable { link_id: 1, len: 42 }, 11));
    assert!(complete(b"\r\n+IPD,0,1460\r\n", Response::DataAvailable { link_id: 0, len: 1460 }, 15));
    assert!(
        parser::data_available(b"+IPD,1,42\r\n")
            == Ok((Response::DataAvailable { link_id: 1, len: 42 }, 11))
    );
    assert!(incomplete(b"+IPD,1,42"));
    assert!(incomplete(b"+IPD,"));
    assert!(no_match(b"+IPD,1\r\n"));
    assert!(no_match(b"+IPD,1,42,7\r\n"));
}

#[test]
fn data_received_carries_its_bytes() {
    let input = b"+CIPRECVDATA,5:hello\r\nOK\r\n";
    let mut data = [0u8; 128];
    data[..5].copy_from_slice(b"hello");
    assert!(complete(input, Response::DataReceived(data, 5), input.len()));
    assert!(parser::data_received(input) == Ok((Response::DataReceived(data, 5), input.len())));
    let led = b"\r\n+CIPRECVDATA,5:hello\r\nOK\r\n";
    assert!(complete(led, Response::DataReceived(data, 5), led.len()));
}

#[test]
fn data_received_takes_its_bytes_whatever_they_are() {
    let input = b"+CIPRECVDATA,6:\r\nOK\r\n\r\nOK\r\n";
    let mut data = [0u8; 128];
    data[..6].copy_from_slice(b"\r\nOK\r\n");
    assert!(complete(input, Response::DataReceived(data, 6), input.len()));
    assert!(incomplete(b"+CIPRECVDATA,6:\r\nOK\r\n"));
    let empty = b"+CIPRECVDATA,0:\r\nOK\r\n";
    assert!(complete(empty, Response::DataReceived([0u8; 128], 0), empty.len()));
}

#[test]
fn data_received_of_the_full_capacity_is_recognized() {
    let mut input = b"+CIPRECVDATA,128:".to_vec();
    input.extend_from_slice(&[0xa5; 128]);
    input.extend_from_slice(b"\r\nOK\r\n");
    assert!(complete(&input, Response::DataReceived([0xa5; 128], 128), input.len()));
    assert!(incomplete(&input[..100]));
}

#[test]
fn data_received_beyond_the_capacity_is_rejected() {
    let mut input = b"+CIPRECVDATA,200:".to_vec();
    input.extend_from_slice(&[b'x'; 200]);
    input.extend_from_slice(b"\r\nOK\r\n");
    assert!(no_match(&input));
    assert!(parser::data_received(&input) == Err(Failure::NoMatch));
    assert!(no_match(b"+CIPRECVDATA,129:"));
    assert!(no_match(b"+CIPRECVDATA,200:xx"));
    assert!(incomplete(b"+CIPRECVDATA,200"));
}

#[test]
fn the_first_production_that_is_not_a_mismatch_decides() {
    assert!(incomplete(b"\r\n+I"));
    assert!(complete(b"\r\n+IPD,2,8\r\n", Response::DataAvailable { link_id: 2, len: 8 }, 12));
    assert!(complete(b"1,CONNECT\r\nOK\r\n", Response::Connect(1), 15));
    assert!(complete(b"1,CLOSED\r\n", Response::Closed(1), 10));
    assert!(incomplete(b"1,C"));
    assert!(no_match(b"1,CX"));
}

#[test]
fn every_prefix_of_a_message_is_incomplete() {
    let messages: [&[u8]; 8] = [
        b"OK\r\n",
        b"ERROR\r\n",
        b"AT version:1.2.3.4\r\nOK\r\n",
        b"+CWJAP:3\r\n\r\nFAIL\r\n",
        b"2,CONNECT\r\nOK\r\n",
        b"\r\nRecv 3 bytes\r\n\r\nSEND OK\r\n",
        b"+IPD,4,100\r\n",
        b"+CIPRECVDATA,3:abc\r\nOK\r\n",
    ];
    for message in messages {
        for end in 0..message.len() {
            assert!(incomplete(&message[..end]));
        }
        assert!(parser::parse(message).is_ok());
    }
}
