use esp_at_driver::protocol::{carrier, dump_data};
use esp_at_driver::protocol::{Command, ConnectionType, IpAddr, Ipv4Addr, Ipv6Addr, SocketAddr};
use esp_at_driver::protocol::{FirmwareInfo, IpAddresses, Response, Route, WifiConnectionFailure};

#[test]
fn it_works() {
    assert_eq!(2 + 2, 4);
}

#[test]
fn test_debug_no_value() {
    assert_eq!(Response::Okay.debug_string(), "Ok");
}

#[test]
fn test_debug_simple_value() {
    assert_eq!(Response::Connect(1).debug_string(), "Connect(1)");
}

#[test]
fn test_debug_data() {
    let data = b"FOO\0BAR";

    let mut array = [0u8; 128];
    for (&x, p) in data.iter().zip(array.iter_mut()) {
        *p = x;
    }

    assert_eq!(
        Response::DataReceived(array, data.len()).debug_string(),
        "DataReceived(7; 'FOO\\0BAR'; [46, 4F, 4F, 0, 42, 41, 52])"
    );
}

#[test]
fn debug_strings_of_plain_responses() {
    assert_eq!(Response::Nothing.debug_string(), "None");
    assert_eq!(Response::Error.debug_string(), "Error");
    assert_eq!(Response::ReadyForData.debug_string(), "ReadyForData");
    assert_eq!(Response::WifiConnected.debug_string(), "WifiConnected");
    assert_eq!(Response::WifiDisconnect.debug_string(), "WifiDisconnect");
    assert_eq!(Response::GotIp.debug_string(), "GotIp");
}

#[test]
fn debug_strings_of_responses_with_fields() {
    assert_eq!(Response::SendOk(1024).debug_string(), "SendOk(1024)");
    assert_eq!(Response::Closed(0).debug_string(), "Closed(0)");
    assert_eq!(
        Response::DataAvailable { link_id: 3, len: 17 }.debug_string(),
        "DataAvailable { link_id: 3, len: 17 }"
    );
    assert_eq!(
        Response::FirmwareInfo(FirmwareInfo { major: 1, minor: 20, patch: 0, build: 255 })
            .debug_string(),
        "FirmwareInfo(FirmwareInfo { major: 1, minor: 20, patch: 0, build: 255 })"
    );
    assert_eq!(
        Response::WifiConnectionFailure(WifiConnectionFailure::CannotFindTargetAp).debug_string(),
        "WifiConnectionFailure(CannotFindTargetAp)"
    );
    assert_eq!(
        Response::IpAddresses(IpAddresses {
            ip: Ipv4Addr::new(192, 168, 1, 7),
            gateway: Ipv4Addr::new(192, 168, 1, 1),
            netmask: Ipv4Addr::new(255, 255, 255, 0),
        })
        .debug_string(),
        "IpAddresses(IpAddresses { ip: 192.168.1.7, gateway: 192.168.1.1, netmask: 255.255.255.0 })"
    );
}

#[test]
fn dump_data_shows_length_text_and_hex() {
    assert_eq!(dump_data("Empty", &[1, 2, 3], 0), "Empty(0; ''; [])");
    assert_eq!(dump_data("One", &[0x0a], 1), "One(1; '\n'; [A])");
    assert_eq!(
        dump_data("High", &[0x7f, 0x80, 0xff, 0x10, 0x0f], 5),
        "High(5; '\u{7f}\u{fffd}\u{fffd}\u{10}\u{f}'; [7F, 80, FF, 10, F])"
    );
    assert_eq!(dump_data("Cut", b"abcdef", 2), "Cut(2; 'ab'; [61, 62])");
}

#[test]
fn start_connection_serializes_exactly() {
    let peer = SocketAddr::new(IpAddr::V4(Ipv4Addr::new(192, 168, 1, 5)), 80);
    let command = Command::StartConnection(2, ConnectionType::TCP, peer);
    assert_eq!(command.as_bytes().as_str(), "AT+CIPSTART=2,\"TCP\",\"192.168.1.5\",80");
}

#[test]
fn start_connection_names_the_connection_type() {
    let peer = SocketAddr::new(IpAddr::V4(Ipv4Addr::new(10, 0, 0, 255)), 65535);
    let command = Command::StartConnection(0, ConnectionType::UDP, peer);
    assert_eq!(command.as_bytes().as_str(), "AT+CIPSTART=0,\"UDP\",\"10.0.0.255\",65535");
}

#[test]
fn send_serializes_exactly() {
    let command = Command::Send { link_id: 1, len: 10 };
    assert_eq!(command.as_bytes().as_str(), "AT+CIPSEND=1,10");
}

#[test]
fn receive_serializes_exactly() {
    let command = Command::Receive { link_id: 4, len: 128 };
    assert_eq!(command.as_bytes().as_str(), "AT+CIPRECVDATA=4,128");
}

#[test]
fn queries_serialize_exactly() {
    assert_eq!(Command::QueryFirmwareInfo.as_bytes().as_str(), "AT+GMR");
    assert_eq!(Command::QueryIpAddress.as_bytes().as_str(), "AT+CIPSTA_CUR?");
}

#[test]
fn join_serializes_exactly() {
    let command = Command::JoinAp { ssid: "home net", password: "s3cr3t!" };
    assert_eq!(command.as_bytes().as_str(), "AT+CWJAP_CUR=\"home net\",\"s3cr3t!\"");
}

#[test]
fn join_serializes_text_beyond_ascii() {
    let command = Command::JoinAp { ssid: "caf\u{e9}", password: "" };
    assert_eq!(command.as_bytes().as_str(), "AT+CWJAP_CUR=\"caf\u{e9}\",\"\"");
    assert_eq!(command.as_bytes().as_str().len(), 23);
}

#[test]
fn a_command_of_exactly_the_capacity_serializes() {
    let ssid = "s".repeat(110);
    let command = Command::JoinAp { ssid: &ssid, password: "" };
    let text = command.as_bytes();
    assert_eq!(text.as_str().len(), 128);
    assert!(text.as_str().starts_with("AT+CWJAP_CUR=\"sss"));
    assert!(text.as_str().ends_with("sss\",\"\""));
}

#[test]
fn a_command_beyond_the_capacity_is_not_serialized() {
    let ssid = "s".repeat(111);
    assert!(Command::JoinAp { ssid: &ssid, password: "" }.checked_as_bytes().is_none());
    assert!(Command::JoinAp { ssid: "", password: &ssid }.checked_as_bytes().is_none());
    let long = "x".repeat(4096);
    assert!(Command::JoinAp { ssid: &long, password: &long }.checked_as_bytes().is_none());
    let fits = "s".repeat(55);
    let text = Command::JoinAp { ssid: &fits, password: &fits }.checked_as_bytes();
    assert_eq!(text.map(|t| t.as_str().len()), Some(128));
}

#[test]
fn a_connection_to_an_ipv6_peer_is_not_serialized() {
    let peer = SocketAddr::new(IpAddr::V6(Ipv6Addr { segments: [0, 0, 0, 0, 0, 0, 0, 1] }), 80);
    assert!(Command::StartConnection(0, ConnectionType::TCP, peer).checked_as_bytes().is_none());
}

#[test]
fn checked_serialization_gives_the_same_text() {
    let peer = SocketAddr::new(IpAddr::V4(Ipv4Addr::new(192, 168, 1, 5)), 80);
    let command = Command::StartConnection(2, ConnectionType::TCP, peer);
    let text = command.checked_as_bytes();
    assert_eq!(
        text.as_ref().map(|t| t.as_str()),
        Some("AT+CIPSTART=2,\"TCP\",\"192.168.1.5\",80")
    );
    let text = Command::QueryFirmwareInfo.checked_as_bytes();
    assert_eq!(text.as_ref().map(|t| t.as_str()), Some("AT+GMR"));
}

#[test]
fn large_numbers_serialize_in_full() {
    let command = Command::Send { link_id: 0, len: usize::MAX };
    assert_eq!(command.as_bytes().as_str(), format!("AT+CIPSEND=0,{}", usize::MAX));
}

#[test]
fn failure_codes_map_to_reasons() {
    assert_eq!(WifiConnectionFailure::from(1), WifiConnectionFailure::Timeout);
    assert_eq!(WifiConnectionFailure::from(2), WifiConnectionFailure::WrongPassword);
    assert_eq!(WifiConnectionFailure::from(3), WifiConnectionFailure::CannotFindTargetAp);
    assert_eq!(WifiConnectionFailure::from(0), WifiConnectionFailure::ConnectionFailed);
    assert_eq!(WifiConnectionFailure::from(4), WifiConnectionFailure::ConnectionFailed);
    assert_eq!(WifiConnectionFailure::from(255), WifiConnectionFailure::ConnectionFailed);
}

#[test]
fn replies_route_to_the_reply_queue() {
    let info = FirmwareInfo { major: 1, minor: 2, patch: 3, build: 4 };
    let addresses = IpAddresses {
        ip: Ipv4Addr::new(1, 2, 3, 4),
        gateway: Ipv4Addr::new(1, 2, 3, 1),
        netmask: Ipv4Addr::new(255, 255, 255, 0),
    };
    assert_eq!(Response::Okay.route(), Route::Reply);
    assert_eq!(Response::Error.route(), Route::Reply);
    assert_eq!(Response::FirmwareInfo(info).route(), Route::Reply);
    assert_eq!(Response::ReadyForData.route(), Route::Reply);
    assert_eq!(Response::SendOk(3).route(), Route::Reply);
    assert_eq!(Response::DataReceived([0; 128], 0).route(), Route::Reply);
    assert_eq!(
        Response::WifiConnectionFailure(WifiConnectionFailure::Timeout).route(),
        Route::Reply
    );
    assert_eq!(Response::IpAddresses(addresses).route(), Route::Reply);
}

#[test]
fn notifications_route_to_the_notification_queue() {
    assert_eq!(Response::DataAvailable { link_id: 0, len: 1 }.route(), Route::Notification);
    assert_eq!(Response::Closed(0).route(), Route::Notification);
    assert_eq!(Response::Connect(0).route(), Route::Notification);
}

#[test]
fn state_changes_route_nowhere() {
    assert_eq!(Response::Nothing.route(), Route::Unrouted);
    assert_eq!(Response::WifiConnected.route(), Route::Unrouted);
    assert_eq!(Response::WifiDisconnect.route(), Route::Unrouted);
    assert_eq!(Response::GotIp.route(), Route::Unrouted);
}

#[test]
fn carrier_holds_data_in_front_and_zeros_behind() {
    let carried = carrier(b"abc");
    assert_eq!(&carried[..3], b"abc");
    assert!(carried[3..].iter().all(|b| *b == 0));
    assert_eq!(carrier(&[]), [0u8; 128]);
    let full = [7u8; 128];
    assert_eq!(carrier(&full), full);
}

#[test]
fn addresses_give_back_their_parts() {
    let ip = Ipv4Addr::new(172, 16, 0, 9);
    assert_eq!(ip.octets(), [172, 16, 0, 9]);
    let addr = SocketAddr::new(IpAddr::V4(ip), 8080);
    assert_eq!(addr.ip(), IpAddr::V4(ip));
    assert_eq!(addr.port(), 8080);
}

#[test]
fn dump_data_shows_bytes_as_the_hex_debug_format_does() {
    let mut data = [0u8; 256];
    for (i, byte) in data.iter_mut().enumerate() {
        *byte = i as u8;
    }
    for len in [0usize, 1, 2, 15, 16, 17, 128, 255, 256] {
        let shown = dump_data("D", &data, len);
        let hex = format!("{:X?}", &data[..len]);
        assert!(shown.starts_with(&format!("D({}; '", len)));
        assert!(shown.ends_with(&format!("'; {})", hex)));
    }
}

#[test]
fn responses_show_their_fields_as_the_fields_show_themselves() {
    for info in [
        FirmwareInfo { major: 0, minor: 0, patch: 0, build: 0 },
        FirmwareInfo { major: 1, minor: 22, patch: 133, build: 255 },
    ] {
        assert_eq!(
            Response::FirmwareInfo(info).debug_string(),
            format!("FirmwareInfo({:?})", info)
        );
    }
    for reason in [
        WifiConnectionFailure::Timeout,
        WifiConnectionFailure::WrongPassword,
        WifiConnectionFailure::CannotFindTargetAp,
        WifiConnectionFailure::ConnectionFailed,
    ] {
        assert_eq!(
            Response::WifiConnectionFailure(reason).debug_string(),
            format!("WifiConnectionFailure({:?})", reason)
        );
    }
    for value in [0usize, 7, 10, 4096, usize::MAX] {
        assert_eq!(Response::SendOk(value).debug_string(), format!("SendOk({})", value));
        assert_eq!(Response::Connect(value).debug_string(), format!("Connect({})", value));
        assert_eq!(Response::Closed(value).debug_string(), format!("Closed({})", value));
        assert_eq!(
            Response::DataAvailable { link_id: value, len: value / 2 }.debug_string(),
            format!("DataAvailable {{ link_id: {}, len: {} }}", value, value / 2)
        );
    }
}

#[test]
fn commands_serialize_numbers_as_they_print() {
    for link_id in [0usize, 4, 9, 10, 255, 65536] {
        for len in [0usize, 1, 99, 128, 1460, usize::MAX] {
            assert_eq!(
                Command::Send { link_id, len }.as_bytes().as_str(),
                format!("AT+CIPSEND={},{}", link_id, len)
            );
            assert_eq!(
                Command::Receive { link_id, len }.as_bytes().as_str(),
                format!("AT+CIPRECVDATA={},{}", link_id, len)
            );
        }
    }
    for octets in [[0u8, 0, 0, 0], [1, 20, 100, 255], [255, 255, 255, 255]] {
        for port in [0u16, 80, 8080, 65535] {
            let [a, b, c, d] = octets;
            let peer = SocketAddr::new(IpAddr::V4(Ipv4Addr::new(a, b, c, d)), port);
            assert_eq!(
                Command::StartConnection(3, ConnectionType::TCP, peer).as_bytes().as_str(),
                format!("AT+CIPSTART=3,\"TCP\",\"{}.{}.{}.{}\",{}", a, b, c, d, port)
            );
        }
    }
}
