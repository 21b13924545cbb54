use esp_at_driver::buffer::{Buffer, CAPACITY};
use esp_at_driver::protocol::Response;

fn fill(buffer: &mut Buffer, bytes: &[u8]) {
    for b in bytes {
        assert_eq!(buffer.write(*b), Ok(()));
    }
}

fn next(buffer: &mut Buffer) -> Response {
    match buffer.parse() {
        Ok(response) => response,
        Err(()) => panic!("the buffer never fails"),
    }
}

#[test]
fn an_empty_buffer_yields_nothing() {
    let mut buffer = Buffer::new();
    assert!(next(&mut buffer) == Response::Nothing);
    assert!(next(&mut buffer) == Response::Nothing);
}

#[test]
fn a_whole_message_comes_out() {
    let mut buffer = Buffer::new();
    fill(&mut buffer, b"OK\r\n");
    assert!(next(&mut buffer) == Response::Okay);
    assert!(next(&mut buffer) == Response::Nothing);
}

#[test]
fn a_partial_message_stays_until_it_is_whole() {
    let mut buffer = Buffer::new();
    fill(&mut buffer, b"ERR");
    assert!(next(&mut buffer) == Response::Nothing);
    assert!(next(&mut buffer) == Response::Nothing);
    fill(&mut buffer, b"OR\r");
    assert!(next(&mut buffer) == Response::Nothing);
    fill(&mut buffer, b"\n");
    assert!(next(&mut buffer) == Response::Error);
    assert!(next(&mut buffer) == Response::Nothing);
}

#[test]
fn what_follows_a_message_moves_to_the_front() {
    let mut buffer = Buffer::new();
    fill(&mut buffer, b"OK\r\n+IPD,1,5\r\n0,CLO");
    assert!(next(&mut buffer) == Response::Okay);
    assert!(next(&mut buffer) == Response::DataAvailable { link_id: 1, len: 5 });
    assert!(next(&mut buffer) == Response::Nothing);
    fill(&mut buffer, b"SED\r\n");
    assert!(next(&mut buffer) == Response::Closed(0));
    assert!(next(&mut buffer) == Response::Nothing);
}

#[test]
fn the_remainder_is_exactly_the_bytes_behind_the_message() {
    let mut buffer = Buffer::new();
    let mut input = b"ERROR\r\n+CIPRECVDATA,9:".to_vec();
    input.extend_from_slice(&[1, 2, 3, 4, 5, 6, 7, 8, 9]);
    input.extend_from_slice(b"\r\nOK\r\n> ");
    fill(&mut buffer, &input);
    assert!(next(&mut buffer) == Response::Error);
    let mut data = [0u8; 128];
    data[..9].copy_from_slice(&[1, 2, 3, 4, 5, 6, 7, 8, 9]);
    assert!(next(&mut buffer) == Response::DataReceived(data, 9));
    assert!(next(&mut buffer) == Response::ReadyForData);
    assert!(next(&mut buffer) == Response::Nothing);
}

#[test]
fn bytes_of_no_message_stay_and_block_what_follows() {
    let mut buffer = Buffer::new();
    fill(&mut buffer, b"garbage\r\n");
    assert!(next(&mut buffer) == Response::Nothing);
    fill(&mut buffer, b"OK\r\n");
    assert!(next(&mut buffer) == Response::Nothing);
}

#[test]
fn a_full_buffer_hands_the_byte_back() {
    let mut buffer = Buffer::new();
    for i in 0..CAPACITY {
        assert_eq!(buffer.write((i % 251) as u8), Ok(()));
    }
    assert_eq!(buffer.write(0x42), Err(0x42));
    assert_eq!(buffer.write(0x43), Err(0x43));
}

#[test]
fn a_rejected_byte_leaves_the_buffer_as_it_was() {
    let mut buffer = Buffer::new();
    let tail = b"\r\nOK\r\n";
    for _ in 0..CAPACITY - tail.len() {
        assert_eq!(buffer.write(b'\r'), Ok(()));
    }
    fill(&mut buffer, &tail[..tail.len() - 1]);
    assert_eq!(buffer.write(b'\n'), Ok(()));
    assert_eq!(buffer.write(b'X'), Err(b'X'));
    assert!(next(&mut buffer) == Response::Nothing);
    assert_eq!(buffer.write(b'Y'), Err(b'Y'));
}

#[test]
fn a_full_buffer_takes_bytes_again_after_a_message_left() {
    let mut buffer = Buffer::new();
    fill(&mut buffer, b"OK\r\n");
    for _ in 0..CAPACITY - 4 {
        assert_eq!(buffer.write(b'z'), Ok(()));
    }
    assert_eq!(buffer.write(b'!'), Err(b'!'));
    assert!(next(&mut buffer) == Response::Okay);
    fill(&mut buffer, b"abcd");
    assert_eq!(buffer.write(b'!'), Err(b'!'));
}

#[test]
fn a_message_that_fills_the_buffer_comes_out() {
    let mut buffer = Buffer::new();
    fill(&mut buffer, b"AT version:1.2.3.4");
    for _ in 0..CAPACITY - 18 - 6 {
        assert_eq!(buffer.write(b'.'), Ok(()));
    }
    fill(&mut buffer, b"\r\nOK\r\n");
    assert_eq!(buffer.write(b'!'), Err(b'!'));
    assert!(matches!(next(&mut buffer), Response::FirmwareInfo(_)));
    assert_eq!(buffer.write(b'!'), Ok(()));
}
