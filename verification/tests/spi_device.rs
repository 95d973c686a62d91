//! SPI tasks and the SPI session.

use pico_fi::bridge::commands::BridgeStatus;
use pico_fi::bridge::spi;
use pico_fi::bridge::spi_diag::SpiSnapshot;
use pico_fi::bridge::spi_hw_task;
use pico_fi::bridge::spi_hw_task::TransferProgress;
use pico_fi::bridge::spi_pio::PioSpiTransportState;
use pico_fi::bridge::spi_pio::TransactionResult;
use pico_fi::bridge::spi_task;
use pico_fi::bridge::spi_task::SpiFrame;
use pico_fi::bridge::spi_task::SpiQueue;
use pico_fi::config::AddressMode;
use pico_fi::config::BridgeConfig;
use pico_fi::config::BridgeMode;
use pico_fi::config::UartPort;
use pico_fi::config::UpstreamMode;
use pico_fi::host::spi_backend;
use pico_fi::host::spi_backend::Error;
use pico_fi::host::spi_backend::Frame;
use pico_fi::protocol::i2c::make_response_frame;
use pico_fi::protocol::i2c::FRAME_SIZE;

fn parse_response(frame: &[u8; FRAME_SIZE]) -> Result<Frame, Error> {
    let mut clocked = [0u8; 258];
    clocked.copy_from_slice(&frame[..258]);
    spi_backend::parse_response(&clocked)
}

fn config(upstream_mode: UpstreamMode) -> BridgeConfig {
    BridgeConfig {
        mac_address: [0x02, 0x00, 0x00, 0x12, 0x34, 0x56],
        address_mode: AddressMode::Dhcp,
        bridge_mode: BridgeMode::TcpServer { port: 7000 },
        upstream_mode,
        uart_port: UartPort::Uart0,
    }
}

fn status() -> BridgeStatus {
    BridgeStatus {
        link_active: false,
        led_state: 2,
        spi: SpiSnapshot {
            kind: 0,
            received: 0,
            expected: 0,
            preview0: 0,
            preview1: 0,
            preview2: 0,
            preview3: 0,
            first_byte: 0,
            written: 0,
            bits: 0,
            staged_magic: 0,
            staged_len: 0,
            resets: 0,
            queued: 0,
            queued_magic: 0,
            queued_len: 0,
            status_before: 0,
            status_after: 0,
            transfer_ok: 0,
            transfer_errors: 0,
        },
    }
}

fn command(text: &str) -> Frame {
    Frame::Command(text.as_bytes().to_vec())
}

fn complete(bytes: &[u8]) -> TransactionResult {
    let mut frame = [0u8; FRAME_SIZE];
    frame[..bytes.len()].copy_from_slice(bytes);
    TransactionResult::Complete(frame)
}

struct Hardware {
    tx: SpiQueue,
    responses: SpiQueue,
    pending: Option<[u8; FRAME_SIZE]>,
}

fn hardware() -> Hardware {
    Hardware {
        tx: SpiQueue::new(),
        responses: SpiQueue::new(),
        pending: None,
    }
}

fn finalize(hw: &mut Hardware, result: TransactionResult) -> (Frame, Option<u8>) {
    let reply = spi_hw_task::finalize_transaction(
        result,
        &config(UpstreamMode::Spi),
        &status(),
        &mut hw.tx,
        &mut hw.responses,
        &mut hw.pending,
    );
    (parse_response(&reply.frame).unwrap(), reply.led)
}

#[test]
fn hardware_task_answers_commands() {
    let mut hw = hardware();
    assert_eq!(finalize(&mut hw, complete(b"\xa6\x06/ping\n")), (command("pong"), None));
    assert_eq!(finalize(&mut hw, complete(b"\xa6\x08/led on\n")), (command("ok led on"), Some(2)));
    assert_eq!(
        finalize(&mut hw, complete(b"\xa6\x5b\x06\x00/link\n")),
        (command("link down"), None)
    );
    assert_eq!(finalize(&mut hw, complete(b"\xa5\x00\x00/ping\n")), (command("pong"), None));
    assert_eq!(finalize(&mut hw, complete(b"\x06\x06/link\n")), (command("link down"), None));
    assert_eq!(
        finalize(&mut hw, complete(b"\x06\x06/pull\n")),
        (command("error unknown pico command"), None)
    );
    assert!(hw.tx.try_pop().is_none());
}

#[test]
fn hardware_task_forwards_requests() {
    let mut hw = hardware();
    let empty = Frame::Data(Vec::new());
    assert_eq!(finalize(&mut hw, complete(b"\xa5\x05hello")), (empty.clone(), None));
    assert_eq!(&hw.tx.try_pop().unwrap().data[..8], b"\xa5\x05hello\0");
    assert_eq!(finalize(&mut hw, complete(b"\xa6\x05hello")), (empty.clone(), None));
    assert_eq!(&hw.tx.try_pop().unwrap().data[..8], b"\xa6\x05hello\0");
    assert_eq!(finalize(&mut hw, complete(b"\xa5\x04hello")), (empty.clone(), None));
    assert_eq!(finalize(&mut hw, complete(b"\xa5\x00")), (empty.clone(), None));
    assert_eq!(finalize(&mut hw, complete(b"\xa6\x00")), (empty.clone(), None));
    let idle = TransactionResult::IdlePoll {
        received: 0,
        preview: [0; 8],
    };
    assert_eq!(finalize(&mut hw, idle), (empty, None));
    assert!(hw.tx.try_pop().is_none());
}

#[test]
fn hardware_task_diagnoses_what_it_cannot_use() {
    let mut hw = hardware();
    let mut frame = [0u8; FRAME_SIZE];
    frame[..3].copy_from_slice(&[0xa6, 0x04, b'p']);
    let partial = TransactionResult::Partial {
        received: 3,
        expected: 6,
        frame,
    };
    assert_eq!(
        finalize(&mut hw, partial),
        (command("part r=3 e=6 a6 04 70 00 00 00 00 00"), None)
    );
    frame[2..8].copy_from_slice(b"/ping\n");
    let partial = TransactionResult::Partial {
        received: 3,
        expected: 6,
        frame,
    };
    assert_eq!(finalize(&mut hw, partial), (command("pong"), None));
    assert_eq!(
        finalize(&mut hw, complete(b"\x11\x01\x02")),
        (command("none r=0 e=0 11 01 02 00 00 00 00 00"), None)
    );
    let mut late = [0u8; FRAME_SIZE];
    late[100] = 1;
    assert_eq!(
        finalize(&mut hw, TransactionResult::Complete(late)),
        (Frame::Data(Vec::new()), None)
    );
}

#[test]
fn ascii_commands_end_at_a_line_end_or_a_zero() {
    let mut hw = hardware();
    assert_eq!(
        finalize(&mut hw, complete(b"\x01\x00\x00/pi\xff/ping\rrest")),
        (command("pong"), None)
    );
    let mut far = [0u8; FRAME_SIZE];
    far[0] = 1;
    far[95] = b'/';
    assert_eq!(
        finalize(&mut hw, TransactionResult::Complete(far)),
        (command("error unknown pico command"), None)
    );
    far[95] = 0;
    far[96] = b'/';
    assert_eq!(
        finalize(&mut hw, TransactionResult::Complete(far)),
        (command("none r=0 e=0 01 00 00 00 00 00 00 00"), None)
    );
}

#[test]
fn pulled_responses_repeat_until_sent() {
    let mut hw = hardware();
    let pull = complete(b"\xa6\x06/pull\n");
    assert_eq!(finalize(&mut hw, pull), (Frame::Data(Vec::new()), None));
    for text in [b"one", b"two"] {
        hw.responses.push_overwrite(SpiFrame {
            data: make_response_frame(0x5a, text),
        });
    }
    assert_eq!(finalize(&mut hw, pull), (Frame::Data(b"one".to_vec()), None));
    assert_eq!(finalize(&mut hw, pull), (Frame::Data(b"one".to_vec()), None));
    let mut transport = PioSpiTransportState::new();
    let staged = hw.pending.unwrap();
    let zeros = [0u8; FRAME_SIZE];
    spi_hw_task::settle_transfer(&mut transport, staged, &zeros, 0, 6, &mut hw.pending);
    assert_eq!(transport.staged_response(), staged);
    assert!(hw.pending.is_some());
    spi_hw_task::settle_transfer(&mut transport, staged, &zeros, 0, 7, &mut hw.pending);
    assert_eq!(transport.staged_response(), make_response_frame(0x5a, b""));
    assert!(hw.pending.is_none());
    assert_eq!(finalize(&mut hw, pull), (Frame::Data(b"two".to_vec()), None));
}

#[test]
fn diagnostic_modes_stage_fixed_replies() {
    let mut hw = hardware();
    let mut transport = PioSpiTransportState::new();
    let mut rx = [0u8; FRAME_SIZE];
    rx[..2].copy_from_slice(&[0xa6, 0x04]);
    let partial = TransactionResult::Partial {
        received: 2,
        expected: 6,
        frame: rx,
    };
    let mut run = |mode, result| {
        let led = spi_hw_task::stage_after_transfer(
            &mut transport,
            result,
            &rx,
            &config(mode),
            &status(),
            &mut hw.tx,
            &mut hw.responses,
            &mut hw.pending,
        );
        assert_eq!(led, None);
        parse_response(&transport.staged_response()).unwrap()
    };
    assert_eq!(run(UpstreamMode::SpiStatic, partial), command("pong"));
    assert_eq!(
        run(UpstreamMode::SpiEcho, partial),
        command("part r=2 e=6 a6 04 00 00 00 00 00 00")
    );
    assert_eq!(
        run(
            UpstreamMode::SpiEcho,
            TransactionResult::IdlePoll {
                received: 9,
                preview: [0; 8]
            }
        ),
        command("idle r=9 e=0 00 00 00 00 00 00 00 00")
    );
    assert_eq!(run(UpstreamMode::SpiEcho, complete(b"\xa5\x01x")), command("pong"));
    assert_eq!(run(UpstreamMode::Spi, complete(b"\xa6\x06/ping\n")), command("pong"));
}

#[test]
fn hardware_flags_and_counts() {
    assert_eq!(spi_hw_task::status_bits(true, true, false, false, false), 0x03);
    assert_eq!(spi_hw_task::status_bits(true, true, true, true, true), 0x1f);
    assert!(spi_hw_task::cs_is_low(0xffff_dfff));
    assert!(!spi_hw_task::cs_is_low(0x0000_2000));
    assert!(spi_hw_task::transfer_ok(0, 1));
    assert!(!spi_hw_task::transfer_ok(0, 0));
    let mut frame = [0u8; FRAME_SIZE];
    frame[1] = 4;
    assert_eq!(spi_hw_task::expected_len_from_frame(&frame, 2), 6);
    assert_eq!(spi_hw_task::expected_len_from_frame(&frame, 1), 0);
    assert_eq!(
        spi_hw_task::render_spi_diag("idle", 1, 2, &[1, 2]).as_str(),
        "idle r=1 e=2 01 02"
    );
}

#[test]
fn transfer_progress() {
    let mut tx = [0u8; FRAME_SIZE];
    for (index, byte) in tx.iter_mut().enumerate() {
        *byte = index as u8;
    }
    let mut rx = [0u8; FRAME_SIZE];
    let mut progress = TransferProgress::new();
    let mut preloaded = Vec::new();
    while let Some(byte) = progress.next_preload(&tx, true) {
        preloaded.push(byte);
    }
    assert_eq!(preloaded, [0, 1, 2, 3, 4, 5, 6, 7]);
    assert!(!progress.wait_round());
    assert!(!progress.receive_round(&mut rx, Some(0xa5), true, true));
    assert!(!progress.receive_round(&mut rx, Some(0x01), true, true));
    assert_eq!(&rx[..3], &[0xa5, 0x01, 0]);
    assert_eq!(progress.next_byte(&tx, false), None);
    assert_eq!(progress.next_byte(&tx, true), Some(8));
    assert!(progress.pause_filling(false, false));
    assert!(!progress.pause_filling(true, false));
    assert!(!progress.all_sent(false, false, false));
    for _ in 0..31 {
        assert!(!progress.receive_round(&mut rx, None, false, false));
    }
    assert!(progress.receive_round(&mut rx, None, false, false));
    assert_eq!(progress.counts(), (2, 2));
    while progress.next_byte(&tx, true).is_some() {}
    assert!(progress.all_sent(false, false, false));
    let mut waiting = TransferProgress::new();
    let rounds = (1..).find(|_| waiting.wait_round()).unwrap();
    assert_eq!(rounds, 2048);
}

fn run_task(result: TransactionResult, tx: &mut SpiQueue) -> spi_task::TaskOutcome {
    spi_task::finalize_transaction(result, &config(UpstreamMode::Spi), &status(), tx)
}

#[test]
fn pio_task_answers_commands() {
    let mut tx = SpiQueue::new();
    let outcome = run_task(complete(b"\xa6\x0c/led status\n"), &mut tx);
    assert_eq!(parse_response(&outcome.next.unwrap()).unwrap(), command("led on"));
    assert!(outcome.activity);
    assert_eq!(outcome.led, None);
    let outcome = run_task(complete(b"\xa6\x5b\x0c\x00/led toggle\n"), &mut tx);
    assert_eq!(outcome.led, Some(3));
    let outcome = run_task(complete(b"\x00\x00junk/ping\n\0"), &mut tx);
    assert_eq!(parse_response(&outcome.next.unwrap()).unwrap(), command("pong"));
    let outcome = run_task(complete(b"\x33\x01x"), &mut tx);
    assert_eq!(
        parse_response(&outcome.next.unwrap()).unwrap(),
        command("error invalid spi frame")
    );
    assert!(!outcome.activity);
    assert!(tx.try_pop().is_none());
}

#[test]
fn pio_task_forwards_requests() {
    let mut tx = SpiQueue::new();
    let outcome = run_task(complete(b"\xa5\x05hello"), &mut tx);
    assert!(outcome.next.is_none());
    assert_eq!(&tx.try_pop().unwrap().data[..7], b"\xa5\x05hello");
    let outcome = run_task(complete(b"\xa6\x05hello"), &mut tx);
    assert!(outcome.next.is_none());
    assert_eq!(&tx.try_pop().unwrap().data[..7], b"\xa6\x05hello");
}

#[test]
fn pio_task_reports_polls_and_partial_frames() {
    let mut tx = SpiQueue::new();
    let outcome = run_task(
        TransactionResult::IdlePoll {
            received: 300,
            preview: [1, 2, 3, 4, 5, 6, 7, 8],
        },
        &mut tx,
    );
    assert_eq!(
        parse_response(&outcome.next.unwrap()).unwrap(),
        Frame::Command(vec![b'R', 255, 1, 2, 3, 4])
    );
    let outcome = run_task(
        TransactionResult::Partial {
            received: 2,
            expected: 3,
            frame: [0; FRAME_SIZE],
        },
        &mut tx,
    );
    assert_eq!(
        parse_response(&outcome.next.unwrap()).unwrap(),
        command("error partial spi frame")
    );
}

#[test]
fn pio_task_stages_by_mode() {
    let mut transport = PioSpiTransportState::new();
    let mut responses = SpiQueue::new();
    responses.push_overwrite(SpiFrame {
        data: make_response_frame(0x5a, b"queued"),
    });
    spi_task::stage_before_transfer(&mut transport, UpstreamMode::SpiStatic, &mut responses);
    assert_eq!(parse_response(&transport.staged_response()).unwrap(), command("pong"));
    spi_task::stage_before_transfer(&mut transport, UpstreamMode::SpiEcho, &mut responses);
    assert_eq!(parse_response(&transport.staged_response()).unwrap(), command("pong"));
    spi_task::stage_before_transfer(&mut transport, UpstreamMode::Spi, &mut responses);
    assert_eq!(
        parse_response(&transport.staged_response()).unwrap(),
        Frame::Data(b"queued".to_vec())
    );
    spi_task::stage_echo(&mut transport, complete(b"\xa5\x01x"));
    assert_eq!(&transport.staged_response()[..3], b"\xa5\x01x");
    spi_task::stage_echo(
        &mut transport,
        TransactionResult::IdlePoll {
            received: 0,
            preview: [0; 8],
        },
    );
    assert_eq!(transport.staged_response(), make_response_frame(0x5a, b""));
    assert_eq!(spi_task::rx_bytes_received(100, 105), 5);
    assert_eq!(spi_task::rx_bytes_received(100, 90), 0);
    assert_eq!(spi_task::rx_bytes_received(0, 1000), 260);
}

fn decide(bytes: &[u8], link_up: bool) -> (Option<Vec<u8>>, Frame, Option<u8>) {
    let mut frame = SpiFrame {
        data: [0; FRAME_SIZE],
    };
    frame.data[..bytes.len()].copy_from_slice(bytes);
    let decision =
        spi::handle_spi_request(&frame, link_up, &config(UpstreamMode::Spi), &status());
    (
        decision.forward.map(|bytes| bytes.to_vec()),
        parse_response(&decision.reply.data).unwrap(),
        decision.led,
    )
}

#[test]
fn session_bridges_data() {
    let empty = Frame::Data(Vec::new());
    assert_eq!(decide(b"\xa5\x05hello", true), (Some(b"hello".to_vec()), empty.clone(), None));
    assert_eq!(decide(b"\xa5\x05hello", false), (None, empty.clone(), None));
    assert_eq!(decide(b"\xa6\x05hello", true), (Some(b"hello".to_vec()), empty.clone(), None));
    assert_eq!(decide(b"\xa5\x00", true), (None, empty, None));
}

#[test]
fn session_answers_commands() {
    assert_eq!(decide(b"\xa6\x06/ping\n", true), (None, command("pong"), None));
    assert_eq!(decide(b"\xa6\x5b\x08\x00/led on\n", true), (None, command("ok led on"), Some(2)));
    assert_eq!(
        decide(b"\xa6\x00", true),
        (None, command("error unknown pico command"), None)
    );
    assert_eq!(
        decide(b"\x01\x02ab", true),
        (None, command("error invalid spi frame"), None)
    );
}

#[test]
fn session_queues_network_data() {
    assert!(matches!(spi::handle_net_read(None), spi::NetOutcome::Failed));
    assert!(matches!(spi::handle_net_read(Some(b"")), spi::NetOutcome::Closed));
    match spi::handle_net_read(Some(b"net")) {
        spi::NetOutcome::Reply(frame) => {
            assert_eq!(frame.data, make_response_frame(0x5a, b"net"))
        }
        _ => panic!("data should be queued"),
    }
}

#[test]
fn documented_poll_hands_out_the_pending_response() {
    let mut hw = hardware();
    let a = make_response_frame(0x5a, b"a");
    hw.pending = Some(a);
    hw.responses.push_overwrite(SpiFrame {
        data: make_response_frame(0x5a, b"b"),
    });
    let poll = complete(b"\xa6\x5b\x06\x00/pull\n");
    assert_eq!(finalize(&mut hw, poll), (Frame::Data(b"a".to_vec()), None));
    assert_eq!(hw.pending, Some(a));
    assert_eq!(hw.responses.try_pop().unwrap().data, make_response_frame(0x5a, b"b"));
    assert!(hw.tx.try_pop().is_none());
}

#[test]
fn documented_data_is_forwarded_whatever_it_reads_as() {
    let mut hw = hardware();
    let empty = Frame::Data(Vec::new());
    for payload in [&[0xff; 100][..], &[0x11; 256][..], b"a/b", b"/ping\n", b"/pull\n"] {
        for magic in [0xa5, 0x5a] {
            let frame = make_response_frame(magic, payload);
            let result = TransactionResult::Complete(frame);
            assert_eq!(finalize(&mut hw, result), (empty.clone(), None));
            assert_eq!(hw.tx.try_pop().unwrap().data, frame);
            assert!(run_task(result, &mut hw.tx).next.is_none());
            assert_eq!(hw.tx.try_pop().unwrap().data, frame);
        }
        let frame = SpiFrame {
            data: make_response_frame(0xa5, payload),
        };
        let decision =
            spi::handle_spi_request(&frame, true, &config(UpstreamMode::Spi), &status());
        assert_eq!(decision.forward, Some(payload));
        assert_eq!(decision.reply.data, make_response_frame(0x5a, b""));
    }
}

#[test]
fn documented_commands_without_slash_are_bridged() {
    let mut hw = hardware();
    for payload in [&b"hello"[..], &[0x22; 256][..]] {
        let frame = SpiFrame {
            data: make_response_frame(0xa6, payload),
        };
        let result = TransactionResult::Complete(frame.data);
        assert_eq!(finalize(&mut hw, result), (Frame::Data(Vec::new()), None));
        let queued = hw.tx.try_pop().unwrap();
        let decision =
            spi::handle_spi_request(&queued, true, &config(UpstreamMode::Spi), &status());
        assert_eq!(decision.forward, Some(payload));
        assert_eq!(decision.led, None);
    }
}

#[test]
fn stray_bytes_behind_a_link_frame_are_not_forwarded() {
    let mut hw = hardware();
    assert_eq!(
        finalize(&mut hw, complete(b"\xa5\x5a\x04\x00hello")),
        (Frame::Data(Vec::new()), None)
    );
    assert_eq!(
        finalize(&mut hw, complete(b"\xa5\x5a\x02\x00hi\x01/ping\n")),
        (command("pong"), None)
    );
    assert_eq!(
        finalize(&mut hw, complete(b"\xa5\x5a\x01\x01x")),
        (command("none r=0 e=0 a5 5a 01 01 78 00 00 00"), None)
    );
    assert!(hw.tx.try_pop().is_none());
}

#[test]
fn expected_lengths_follow_the_header() {
    let frame = make_response_frame(0x5b, &[1; 256]);
    assert_eq!(spi_hw_task::expected_len_from_frame(&frame, 260), 260);
    let frame = make_response_frame(0x5a, b"abc");
    assert_eq!(spi_hw_task::expected_len_from_frame(&frame, 4), 7);
}

#[test]
fn full_reads_from_the_peer_are_queued_whole() {
    match spi::handle_net_read(Some(&[9; 256])) {
        spi::NetOutcome::Reply(frame) => {
            assert_eq!(frame.data, make_response_frame(0x5a, &[9; 256]));
            assert_eq!(
                parse_response(&frame.data).unwrap_err(),
                Error::InvalidFrame {
                    magic: 0xa5,
                    len: 256
                }
            );
        }
        _ => panic!("data should be queued"),
    }
}
