//! Host side of the framed transports.

use pico_fi::bridge::spi_pio::PioSpiTransportState;
use pico_fi::bridge::spi_pio::TransactionResult;
use pico_fi::host::i2c_backend;
use pico_fi::host::i2c_backend::CommandPoll;
use pico_fi::host::spi_backend;
use pico_fi::protocol::i2c::REQ_COMMAND_MAGIC;
use pico_fi::protocol::i2c::REQ_DATA_MAGIC;
use pico_fi::protocol::i2c::RESP_COMMAND_MAGIC;
use pico_fi::protocol::slot::KIND_COMMAND;
use pico_fi::protocol::slot::KIND_DATA;
use pico_fi::protocol::slot::KIND_ERROR;
use pico_fi::protocol::i2c::make_response_frame;
use pico_fi::protocol::i2c::RequestFrame;
use pico_fi::protocol::spi::FRAME_SIZE;
use pico_fi::protocol::transfer::parse_transfer;

#[test]
fn i2c_backend_parses_command_frame() {
    let mut raw = Vec::new();
    raw.push(REQ_COMMAND_MAGIC);
    raw.push(RESP_COMMAND_MAGIC);
    raw.extend_from_slice(&4u16.to_le_bytes());
    raw.extend_from_slice(b"pong");
    assert_eq!(
        i2c_backend::parse_response(KIND_COMMAND, &raw).unwrap(),
        i2c_backend::Frame::Command(b"pong".to_vec())
    );
}

#[test]
fn rejects_bad_magic() {
    assert!(matches!(
        i2c_backend::parse_response(KIND_ERROR, &[]),
        Err(i2c_backend::Error::InvalidFrame {
            magic: KIND_ERROR,
            len: 0
        })
    ));
}

#[test]
fn parses_spi_command_frame() {
    let mut raw = [0u8; FRAME_SIZE];
    raw[0] = RESP_COMMAND_MAGIC;
    raw[1] = 4;
    raw[2..6].copy_from_slice(b"pong");
    assert_eq!(
        spi_backend::parse_response(&raw).unwrap(),
        spi_backend::Frame::Command(b"pong".to_vec())
    );
}

#[test]
fn builds_full_sized_request_frame() {
    let frame = spi_backend::build_request_frame(REQ_COMMAND_MAGIC, b"/ping\n");
    assert_eq!(frame.len(), FRAME_SIZE);
    assert_eq!(frame[0], REQ_COMMAND_MAGIC);
    assert_eq!(frame[1], 6);
    assert_eq!(&frame[2..8], b"/ping\n");
    assert!(frame[8..].iter().all(|&byte| byte == 0));
}

#[test]
fn i2c_responses_that_do_not_decode_are_refused() {
    let error = i2c_backend::Error::InvalidFrame { magic: 0x5a, len: 5 };
    assert_eq!(
        i2c_backend::parse_response(KIND_DATA, &[0xa5, 0x5a, 5, 0, 1]),
        Err(error)
    );
    assert_eq!(
        i2c_backend::parse_response(KIND_DATA, &[0xa5, 0x5a, 0xfd, 0x0f]),
        Err(i2c_backend::Error::InvalidFrame { magic: 0x5a, len: 4093 })
    );
    assert_eq!(
        i2c_backend::parse_response(KIND_DATA, &[0x00, 0x5a, 0, 0]),
        Err(i2c_backend::Error::InvalidFrame { magic: KIND_DATA, len: 0 })
    );
    assert_eq!(error.message(), "invalid I2C frame: magic=0x5a len=5");
}

#[test]
fn spi_responses_that_do_not_decode_are_refused() {
    let mut raw = [0u8; FRAME_SIZE];
    raw[0] = 0x0f;
    raw[1] = 200;
    let error = spi_backend::parse_response(&raw).unwrap_err();
    assert_eq!(error, spi_backend::Error::InvalidFrame { magic: 0x0f, len: 200 });
    assert_eq!(error.message(), "invalid SPI frame: magic=0x0f len=200");
    raw[0] = 0x5a;
    raw[1] = 0;
    assert_eq!(
        spi_backend::parse_response(&raw).unwrap(),
        spi_backend::Frame::Data(Vec::new())
    );
}

#[test]
fn packets_are_cut_into_slots() {
    let slots = i2c_backend::encode_slots(KIND_DATA, 0x0203, &[7u8; 20]);
    assert_eq!(slots.len(), 2);
    assert_eq!(
        &slots[0][..18],
        &[0x49, 0x32, 1, 1, 1, 0, 0, 0, 0, 0, 20, 0, 0, 0, 14, 0, 0x03, 0x02]
    );
    assert!(slots[0][18..].iter().all(|&byte| byte == 7));
    assert_eq!(
        &slots[1][..18],
        &[0x49, 0x32, 1, 1, 2, 0, 14, 0, 0, 0, 20, 0, 0, 0, 6, 0, 0x03, 0x02]
    );
    assert_eq!(&slots[1][18..], &[7, 7, 7, 7, 7, 7, 0, 0, 0, 0, 0, 0, 0, 0]);
    let empty = i2c_backend::encode_slots(KIND_COMMAND, 1, &[]);
    assert_eq!(empty.len(), 1);
    assert_eq!(empty[0][4], 3);
}

#[test]
fn slots_that_do_not_decode_are_refused() {
    assert!(i2c_backend::decode_slot(&[0x00; 32]).unwrap().is_none());
    assert!(i2c_backend::decode_slot(&[0xff; 32]).unwrap().is_none());
    let mut slot = i2c_backend::encode_slots(KIND_DATA, 9, b"abc")[0];
    let decoded = i2c_backend::decode_slot(&slot).unwrap().unwrap();
    assert_eq!(decoded.kind, KIND_DATA);
    assert_eq!(decoded.flags, 3);
    assert_eq!(decoded.transfer_id, 9);
    assert_eq!(decoded.offset, 0);
    assert_eq!(decoded.total_len, 3);
    assert_eq!(decoded.data, b"abc");
    slot[14] = 15;
    assert_eq!(
        i2c_backend::decode_slot(&slot).err(),
        Some(i2c_backend::Error::InvalidFrame { magic: KIND_DATA, len: 15 })
    );
    slot[0] = 0x48;
    assert_eq!(
        i2c_backend::decode_slot(&slot).err(),
        Some(i2c_backend::Error::InvalidFrame { magic: 0x48, len: 32 })
    );
    slot[3] = 0;
    assert!(i2c_backend::decode_slot(&slot).unwrap().is_none());
}

#[test]
fn requests_carry_a_link_header() {
    assert_eq!(
        i2c_backend::build_request(REQ_COMMAND_MAGIC, b"/ping\n"),
        b"\xa6\x5b\x06\x00/ping\n"
    );
    assert_eq!(i2c_backend::build_request(REQ_DATA_MAGIC, b"hi"), b"\xa5\x5a\x02\x00hi");
    let long = i2c_backend::build_request(REQ_DATA_MAGIC, &[1u8; 5000]);
    assert_eq!(long.len(), 4096);
    assert_eq!(&long[..4], &[0xa5, 0x5a, 0xfc, 0x0f]);
    let slots = i2c_backend::request_slots(REQ_COMMAND_MAGIC, 5, b"/ping\n");
    assert_eq!(slots.len(), 1);
    assert_eq!(slots[0][3], KIND_COMMAND);
    assert_eq!(&slots[0][18..28], b"\xa6\x5b\x06\x00/ping\n");
}

#[test]
fn transfer_ids_skip_zero() {
    assert_eq!(i2c_backend::next_transfer_id(1), 2);
    assert_eq!(i2c_backend::next_transfer_id(0xffff), 1);
}

#[test]
fn command_lines_end_with_a_line_feed() {
    assert_eq!(i2c_backend::command_line("/ping"), b"/ping\n");
    assert_eq!(i2c_backend::command_line("/ping\n"), b"/ping\n");
    assert_eq!(i2c_backend::command_line(""), b"\n");
}

#[test]
fn frames_are_reassembled_from_slots() {
    let packet = i2c_backend::build_request(REQ_COMMAND_MAGIC, b"a long reply that takes three slots");
    let slots = i2c_backend::encode_slots(KIND_COMMAND, 4, &packet);
    assert_eq!(slots.len(), 3);
    let mut assembler = i2c_backend::FrameAssembler::new();
    assert_eq!(assembler.push(&slots[0]), Ok(None));
    assert_eq!(assembler.push(&[0u8; 32]), Ok(None));
    assert_eq!(assembler.push(&slots[1]), Ok(None));
    assert_eq!(
        assembler.push(&slots[2]),
        Ok(Some(i2c_backend::Frame::Command(
            b"a long reply that takes three slots".to_vec()
        )))
    );
    assert_eq!(
        assembler.push(&slots[1]),
        Err(i2c_backend::Error::InvalidFrame { magic: KIND_COMMAND, len: 39 })
    );
}

#[test]
fn a_packet_that_ends_early_is_refused() {
    let packet = i2c_backend::build_request(REQ_DATA_MAGIC, &[5u8; 30]);
    let slots = i2c_backend::encode_slots(KIND_DATA, 4, &packet);
    let mut last = slots[0];
    last[4] = 3;
    let mut assembler = i2c_backend::FrameAssembler::new();
    assert_eq!(
        assembler.push(&last),
        Err(i2c_backend::Error::InvalidFrame { magic: KIND_DATA, len: 34 })
    );
}

#[test]
fn polls_hand_out_data_only() {
    assert_eq!(i2c_backend::polled_data(i2c_backend::Frame::Data(vec![1, 2])), Some(vec![1, 2]));
    assert_eq!(i2c_backend::polled_data(i2c_backend::Frame::Data(vec![])), None);
    assert_eq!(i2c_backend::polled_data(i2c_backend::Frame::Command(vec![1])), None);
    assert!(i2c_backend::is_reported(&i2c_backend::Frame::Command(vec![])));
    assert!(!i2c_backend::is_reported(&i2c_backend::Frame::Data(vec![])));
    assert_eq!(spi_backend::polled_data(spi_backend::Frame::Data(vec![1, 2])), Some(vec![1, 2]));
    assert_eq!(spi_backend::polled_data(spi_backend::Frame::Data(vec![])), None);
    assert_eq!(spi_backend::polled_data(spi_backend::Frame::Command(vec![1])), None);
    assert!(spi_backend::is_reported(&spi_backend::Frame::Command(vec![])));
    assert!(!spi_backend::is_reported(&spi_backend::Frame::Data(vec![])));
}

#[test]
fn ioctl_numbers_match_the_driver() {
    assert_eq!(spi_backend::ioc(1, 0x6b, 1, 1), 0x4001_6b01);
    assert_eq!(spi_backend::ioc(1, 0x6b, 3, 1), 0x4001_6b03);
    assert_eq!(spi_backend::ioc(1, 0x6b, 4, 4), 0x4004_6b04);
    assert_eq!(spi_backend::spi_ioc_message(1), 0x4020_6b00);
}

#[test]
fn spi_requests_take_the_header_that_carries_them() {
    assert_eq!(FRAME_SIZE, 258);
    for len in [0, 1, 89, 90, 91, 92, 165, 254, 255] {
        let payload = vec![0x41u8; len];
        for magic in [0xa5u8, 0xa6] {
            let frame = spi_backend::build_request_frame(magic, &payload);
            if (magic == 0xa5 && len == 90) || (magic == 0xa6 && len == 91) {
                assert_eq!(&frame[..4], &[magic, magic - 0x4b, len as u8, 0]);
            } else {
                assert_eq!(&frame[..2], &[magic, len as u8]);
            }
            let mut received = [0u8; 260];
            received[..258].copy_from_slice(&frame);
            match PioSpiTransportState::new().finish_transaction(&received, 258) {
                TransactionResult::Complete(whole) => assert_eq!(whole, received),
                other => panic!("expected a whole request, got {other:?}"),
            }
            match parse_transfer(&received) {
                Some(RequestFrame::Data(bytes)) if magic == 0xa5 => assert_eq!(bytes, payload),
                Some(RequestFrame::Command(bytes)) if magic == 0xa6 => assert_eq!(bytes, payload),
                _ => panic!("the device should read the request"),
            }
        }
    }
}

#[test]
fn oversized_spi_requests_fill_the_frame() {
    for magic in [0x01, 0xa5] {
        let frame = spi_backend::build_request_frame(magic, &[2; 300]);
        assert_eq!(&frame[..2], &[magic, 0]);
        assert!(frame[2..].iter().all(|&byte| byte == 2));
    }
}

fn clocked(frame: [u8; 260]) -> [u8; FRAME_SIZE] {
    let mut raw = [0u8; FRAME_SIZE];
    raw.copy_from_slice(&frame[..FRAME_SIZE]);
    raw
}

#[test]
fn spi_responses_are_read_with_either_header() {
    let full = clocked(make_response_frame(0x5a, &[8; 254]));
    assert_eq!(
        spi_backend::parse_response(&full).unwrap(),
        spi_backend::Frame::Data(vec![8; 254])
    );
    let cut = clocked(make_response_frame(0x5b, &[8; 255]));
    assert_eq!(
        spi_backend::parse_response(&cut).unwrap_err(),
        spi_backend::Error::InvalidFrame { magic: 0xa6, len: 255 }
    );
    let pong = clocked(make_response_frame(0x5b, b"pong"));
    assert_eq!(
        spi_backend::parse_response(&pong).unwrap(),
        spi_backend::Frame::Command(b"pong".to_vec())
    );
    let raw = clocked(make_response_frame(0xa7, b"text"));
    assert_eq!(
        spi_backend::parse_response(&raw).unwrap_err(),
        spi_backend::Error::InvalidFrame { magic: 0xa7, len: 4 }
    );
    let short = pico_fi::protocol::spi::make_response_frame(0x5a, &[6; 255]);
    assert_eq!(
        spi_backend::parse_response(&short).unwrap(),
        spi_backend::Frame::Data(vec![6; 255])
    );
}

#[test]
fn command_output_is_awaited_past_data() {
    assert_eq!(i2c_backend::COMMAND_POLLS, 50);
    assert_eq!(
        spi_backend::after_command_poll(spi_backend::Frame::Command(vec![1]), 1),
        CommandPoll::Answer(vec![1])
    );
    assert_eq!(
        spi_backend::after_command_poll(spi_backend::Frame::Data(vec![1]), 50),
        CommandPoll::Again(49)
    );
    assert_eq!(
        i2c_backend::after_command_poll(i2c_backend::Frame::Command(vec![]), 3),
        CommandPoll::Answer(vec![])
    );
    let mut left = i2c_backend::COMMAND_POLLS;
    let mut reads = 1;
    while let CommandPoll::Again(more) =
        i2c_backend::after_command_poll(i2c_backend::Frame::Data(vec![]), left)
    {
        left = more;
        reads += 1;
    }
    assert_eq!(reads, 50);
}

#[test]
fn idle_slots_do_not_disturb_a_packet() {
    let idle_kind = {
        let mut slot = [0x31u8; 32];
        slot[3] = 0;
        slot
    };
    let idle = [[0u8; 32], [0xff; 32], idle_kind];
    let good = i2c_backend::build_request(0xa5, &[5; 30]);
    let bad = vec![0x11u8; 30];
    for (packet, expected) in [
        (&good, Ok(i2c_backend::Frame::Data(vec![5; 30]))),
        (
            &bad,
            Err(i2c_backend::Error::InvalidFrame {
                magic: KIND_DATA,
                len: 0x1111,
            }),
        ),
    ] {
        assert_eq!(i2c_backend::parse_response(KIND_DATA, packet), expected);
        let slots = i2c_backend::encode_slots(KIND_DATA, 9, packet);
        let mut assembler = i2c_backend::FrameAssembler::new();
        for (index, slot) in slots.iter().enumerate() {
            for quiet in &idle {
                assert_eq!(assembler.push(quiet), Ok(None));
            }
            let read = assembler.push(slot);
            if index + 1 < slots.len() {
                assert_eq!(read, Ok(None));
            } else {
                assert_eq!(read, expected.clone().map(Some));
            }
        }
    }
}
