//! SPI transaction framing.

use pico_fi::bridge::spi_pio::PioSpiTransportState;
use pico_fi::bridge::spi_pio::TransactionResult;
use pico_fi::protocol::i2c::make_response_frame;
use pico_fi::protocol::i2c::FRAME_SIZE;
use pico_fi::protocol::i2c::RESP_COMMAND_MAGIC;
use pico_fi::protocol::i2c::RESP_DATA_MAGIC;
use pico_fi::protocol::spi;

#[test]
fn default_state_returns_idle_poll() {
    let mut state = PioSpiTransportState::new();
    assert_eq!(
        state.finish_transaction(&[0; FRAME_SIZE], 0),
        TransactionResult::IdlePoll {
            received: 0,
            preview: [0; 8]
        }
    );
}

#[test]
fn captures_complete_frame() {
    let mut state = PioSpiTransportState::new();
    let mut frame = [0u8; FRAME_SIZE];
    frame[..6].copy_from_slice(&[0xa6, 0x04, b'p', b'i', b'n', b'g']);
    match state.finish_transaction(&frame, 6) {
        TransactionResult::Complete(frame) => {
            assert_eq!(frame[0], 0xa6);
            assert_eq!(frame[1], 0x04);
        }
        other => panic!("expected complete frame, got {other:?}"),
    }
}

#[test]
fn captures_partial_frame() {
    let mut state = PioSpiTransportState::new();
    let mut frame = [0u8; FRAME_SIZE];
    frame[..3].copy_from_slice(&[0xa6, 0x04, b'p']);
    assert_eq!(
        state.finish_transaction(&frame, 3),
        TransactionResult::Partial {
            received: 3,
            expected: 6,
            frame
        }
    );
}

#[test]
fn drains_staged_response_once() {
    let mut state = PioSpiTransportState::new();
    let mut staged = [0u8; FRAME_SIZE];
    staged[..spi::FRAME_SIZE].copy_from_slice(&spi::make_response_frame(RESP_COMMAND_MAGIC, b"ok"));
    state.stage_response(staged);
    let frame = state.staged_response();
    assert_eq!(frame[0], RESP_COMMAND_MAGIC);
    assert_eq!(frame[1], 2);
    let _ = state.finish_transaction(&[0; FRAME_SIZE], FRAME_SIZE);
    assert_eq!(
        state.staged_response(),
        make_response_frame(RESP_DATA_MAGIC, b"")
    );
}

#[test]
fn normalizes_shifted_command_frame() {
    let mut state = PioSpiTransportState::new();
    let mut frame = [0u8; FRAME_SIZE];
    frame[1..7].copy_from_slice(&[0xa6, 0x04, b'p', b'i', b'n', b'g']);
    match state.finish_transaction(&frame, 7) {
        TransactionResult::Complete(frame) => {
            assert_eq!(frame[0], 0xa6);
            assert_eq!(frame[1], 0x04);
            assert_eq!(&frame[2..6], b"ping");
        }
        other => panic!("expected normalized complete frame, got {other:?}"),
    }
}

#[test]
fn normalizes_duplicate_length_command_frame_with_bad_count() {
    let mut state = PioSpiTransportState::new();
    let mut frame = [0u8; FRAME_SIZE];
    frame[..17].copy_from_slice(&[
        0x0f, 0x0f, b'[', b'1', b'0', b'.', b'8', b'.', b'0', b'.', b'6', b']', b' ',
        b'h', b'e', b'y', b'\n',
    ]);
    assert!(matches!(
        state.finish_transaction(&frame, 0),
        TransactionResult::Partial { .. }
    ));
}

#[test]
fn normalizes_duplicate_length_slash_command_with_bad_count() {
    let mut state = PioSpiTransportState::new();
    let mut frame = [0u8; FRAME_SIZE];
    frame[..8].copy_from_slice(&[0x06, 0x06, b'/', b'l', b'i', b'n', b'k', b'\n']);
    assert!(matches!(
        state.finish_transaction(&frame, 1),
        TransactionResult::Partial { .. }
    ));
}

#[test]
fn counts_beyond_a_frame_are_clamped() {
    let mut state = PioSpiTransportState::new();
    assert_eq!(
        state.finish_transaction(&[0; FRAME_SIZE], 5000),
        TransactionResult::IdlePoll {
            received: 260,
            preview: [0; 8]
        }
    );
}

#[test]
fn bytes_in_front_of_a_request_are_dropped() {
    let mut state = PioSpiTransportState::new();
    let mut frame = [0u8; FRAME_SIZE];
    frame[..7].copy_from_slice(&[0x11, 0x22, 0x33, 0xa5, 0x02, b'h', b'i']);
    match state.finish_transaction(&frame, 7) {
        TransactionResult::Complete(frame) => assert_eq!(&frame[..5], &[0xa5, 2, b'h', b'i', 0]),
        other => panic!("expected complete frame, got {other:?}"),
    }
}

#[test]
fn link_frames_are_complete_with_their_last_byte() {
    let mut frame = [0u8; FRAME_SIZE];
    frame[..9].copy_from_slice(b"\xa5\x5a\x05\x00hello");
    let mut state = PioSpiTransportState::new();
    assert_eq!(state.finish_transaction(&frame, 9), TransactionResult::Complete(frame));
    assert_eq!(
        state.finish_transaction(&frame, 8),
        TransactionResult::Partial {
            received: 8,
            expected: 9,
            frame
        }
    );
    let full = make_response_frame(0xa5, &[7; 256]);
    assert_eq!(state.finish_transaction(&full, 260), TransactionResult::Complete(full));
    assert_eq!(
        state.finish_transaction(&full, 259),
        TransactionResult::Partial {
            received: 259,
            expected: 260,
            frame: full
        }
    );
}

#[test]
fn shifted_link_frames_are_moved_to_the_front() {
    let mut shifted = [0u8; FRAME_SIZE];
    shifted[3..13].copy_from_slice(b"\xa6\x5b\x06\x00/ping\n");
    let mut state = PioSpiTransportState::new();
    assert_eq!(
        state.finish_transaction(&shifted, 13),
        TransactionResult::Complete(make_response_frame(0xa6, b"/ping\n"))
    );
}
