//! Framing of the byte-stream links and of SPI.

use pico_fi::bridge::spi_frame::SpiFrame;
use pico_fi::bridge::overwrite_queue::QueueItem;
use pico_fi::protocol::i2c;
use pico_fi::protocol::spi;
use pico_fi::protocol::transfer;

#[test]
fn builds_response_frame() {
    let payload = b"pong";
    let frame = i2c::make_response_frame(i2c::RESP_COMMAND_MAGIC, payload);
    assert_eq!(frame[0], i2c::REQ_COMMAND_MAGIC);
    assert_eq!(frame[1], i2c::RESP_COMMAND_MAGIC);
    assert_eq!(&frame[2..4], &4u16.to_le_bytes());
    assert_eq!(&frame[4..8], b"pong");
    assert_eq!(frame[8], 0);
}

#[test]
fn i2c_parses_command_frame() {
    let frame = i2c::make_response_frame(i2c::REQ_COMMAND_MAGIC, b"/ping\n");
    match i2c::parse_request_frame(&frame) {
        Some(i2c::RequestFrame::Command(payload)) => assert_eq!(payload, b"/ping\n"),
        _ => panic!("command frame should parse"),
    }
}

#[test]
fn test_make_response_frame() {
    let payload = b"pong";
    let frame = spi::make_response_frame(spi::RESP_COMMAND_MAGIC, payload);
    assert_eq!(frame[0], spi::RESP_COMMAND_MAGIC);
    assert_eq!(frame[1], 4);
    assert_eq!(&frame[2..6], b"pong");
    assert_eq!(frame[6], 0);
}

#[test]
fn swapped_sync_bytes_are_accepted() {
    match i2c::parse_request_bytes(&[0x5a, 0xa5, 1, 0, 7]) {
        Some(i2c::RequestFrame::Data(payload)) => assert_eq!(payload, &[7]),
        _ => panic!("data frame should parse"),
    }
    match i2c::parse_request_bytes(&[0x5b, 0xa6, 0, 0]) {
        Some(i2c::RequestFrame::Command(payload)) => assert!(payload.is_empty()),
        _ => panic!("command frame should parse"),
    }
}

#[test]
fn raw_ascii_and_unknown_frames_are_no_requests() {
    assert!(i2c::parse_request_bytes(&[0xa7, 0x7a, 0, 0]).is_none());
    assert!(i2c::parse_request_bytes(&[0xa5, 0x5b, 0, 0]).is_none());
    assert!(i2c::parse_request_bytes(&[0xa5, 0x5a, 0]).is_none());
    assert!(i2c::parse_request_bytes(&[0xa5, 0x5a, 2, 0, 1]).is_none());
}

#[test]
fn long_payloads_are_clipped() {
    let payload = [9u8; 300];
    let frame = i2c::make_response_frame(i2c::RESP_DATA_MAGIC, &payload);
    assert_eq!(&frame[..4], &[0xa5, 0x5a, 0, 1]);
    assert!(frame[4..].iter().all(|&byte| byte == 9));
    let unknown = i2c::make_response_frame(0x11, b"x");
    assert_eq!(&unknown[..5], &[0xa5, 0x5a, 1, 0, b'x']);
}

#[test]
fn frames_are_built_in_place() {
    let mut out = [0xeeu8; 10];
    assert_eq!(i2c::build_frame_into(i2c::REQ_DATA_MAGIC, b"hello", &mut out), Some(9));
    assert_eq!(out, [0xa5, 0x5a, 5, 0, b'h', b'e', b'l', b'l', b'o', 0xee]);
    assert_eq!(i2c::build_frame_into(i2c::RESP_RAW_ASCII_MAGIC, b"hello", &mut out[..6]), Some(6));
    assert_eq!(&out[..6], &[0xa7, 0x7a, 2, 0, b'h', b'e']);
    assert_eq!(i2c::build_frame_into(0x00, b"hello", &mut out), None);
    assert_eq!(i2c::build_frame_into(i2c::REQ_DATA_MAGIC, b"hello", &mut out[..3]), None);
}

#[test]
fn documented_frames_parse() {
    let hello = [0xa5, 0x5a, 0x05, 0x00, 0x68, 0x65, 0x6c, 0x6c, 0x6f];
    match i2c::parse_request_bytes(&hello) {
        Some(i2c::RequestFrame::Data(payload)) => assert_eq!(payload, b"hello"),
        _ => panic!("data frame should parse"),
    }
    let ping = [0xa6, 0x5b, 0x06, 0x00, 0x2f, 0x70, 0x69, 0x6e, 0x67, 0x0a];
    match i2c::parse_request_bytes(&ping) {
        Some(i2c::RequestFrame::Command(payload)) => assert_eq!(payload, b"/ping\n"),
        _ => panic!("command frame should parse"),
    }
}

#[test]
fn spi_requests_parse() {
    let frame = spi::make_response_frame(spi::REQ_DATA_MAGIC, b"abc");
    match spi::parse_request_frame(&frame) {
        Some(spi::RequestFrame::Data(payload)) => assert_eq!(payload, b"abc"),
        _ => panic!("data frame should parse"),
    }
    let frame = spi::make_response_frame(spi::REQ_COMMAND_MAGIC, b"/ping\n");
    match spi::parse_request_frame(&frame) {
        Some(spi::RequestFrame::Command(payload)) => assert_eq!(payload, b"/ping\n"),
        _ => panic!("command frame should parse"),
    }
    let frame = spi::make_response_frame(spi::REQ_COMMAND_MAGIC, b"ping\n");
    match spi::parse_request_frame(&frame) {
        Some(spi::RequestFrame::Command(payload)) => assert!(payload.is_empty()),
        _ => panic!("command frame should parse"),
    }
    let frame = spi::make_response_frame(spi::RESP_DATA_MAGIC, b"abc");
    assert!(spi::parse_request_frame(&frame).is_none());
}

#[test]
fn transfers_carry_either_header() {
    let link = i2c::make_response_frame(i2c::REQ_COMMAND_MAGIC, b"hello");
    match transfer::parse_transfer(&link) {
        Some(i2c::RequestFrame::Command(payload)) => assert_eq!(payload, b"hello"),
        _ => panic!("link frame should parse"),
    }
    assert_eq!(transfer::transfer_len(&link), 9);
    let mut short = [0u8; i2c::FRAME_SIZE];
    short[..7].copy_from_slice(b"\xa5\x05hello");
    match transfer::parse_transfer(&short) {
        Some(i2c::RequestFrame::Data(payload)) => assert_eq!(payload, b"hello"),
        _ => panic!("short frame should parse"),
    }
    assert_eq!(transfer::transfer_len(&short), 7);
    short[0] = 0x5a;
    assert!(transfer::parse_transfer(&short).is_none());
    let mut oversized = link;
    oversized[3] = 0xff;
    assert!(transfer::parse_transfer(&oversized).is_none());
    assert_eq!(transfer::transfer_len(&oversized), 260);
}

#[test]
fn variable_length_spi_frames_keep_active_bytes() {
    let frame = SpiFrame::response(i2c::RESP_COMMAND_MAGIC, b"pong");
    assert_eq!(frame.as_slice(), &[0xa6, 0x5b, 4, 0, b'p', b'o', b'n', b'g']);
    assert_eq!(frame.queued_len(), 8);
    assert_eq!(frame.as_frame(), i2c::make_response_frame(i2c::RESP_COMMAND_MAGIC, b"pong"));
    let raw = SpiFrame::from_raw_frame(i2c::make_response_frame(i2c::RESP_DATA_MAGIC, b"hey"));
    assert_eq!(raw.as_slice(), &[0xa5, 0x5a, 3, 0, b'h', b'e', b'y']);
    let mut oversized = [1u8; i2c::FRAME_SIZE];
    oversized[2] = 0xff;
    oversized[3] = 0xff;
    assert_eq!(SpiFrame::from_raw_frame(oversized).as_slice().len(), 260);
    assert!(SpiFrame::response(0x00, b"pong").as_slice().is_empty());
}
