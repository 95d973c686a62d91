//! UART and USB upstreams, test mode, the link lifecycle, TCP framing, the shell and startup.

use pico_fi::bridge::commands::BridgeStatus;
use pico_fi::bridge::i2c;
use pico_fi::bridge::runtime::LinkEvent;
use pico_fi::bridge::runtime::LinkPolicy;
use pico_fi::bridge::runtime::LinkState;
use pico_fi::bridge::runtime::OpenFailure;
use pico_fi::bridge::spi;
use pico_fi::bridge::spi_diag::SpiSnapshot;
use pico_fi::bridge::test::LedChange;
use pico_fi::bridge::uart;
use pico_fi::bridge::uart::EgressRing;
use pico_fi::bridge::uart::FlushStep;
use pico_fi::bridge::uart::ReadEvent;
use pico_fi::bridge::uart::UartFrame;
use pico_fi::bridge::uart::UartFrameReader;
use pico_fi::bridge::usb;
use pico_fi::bridge::usb::UsbLine;
use pico_fi::config::AddressMode;
use pico_fi::config::BridgeConfig;
use pico_fi::config::BridgeMode;
use pico_fi::config::Ipv4Config;
use pico_fi::config::UartPort;
use pico_fi::config::UpstreamMode;
use pico_fi::net;
use pico_fi::net::BridgeWrite;
use pico_fi::net::HandshakeEvent;
use pico_fi::net::HandshakeStep;
use pico_fi::net::Progress;
use pico_fi::shell;
use pico_fi::shell::KeyAction;
use pico_fi::shell::ShellAction;
use pico_fi::shell::ShellLine;
use pico_fi::shell::ShellRun;
use pico_fi::startup;
use pico_fi::startup::BridgeRole;
use pico_fi::startup::Heartbeat;
use pico_fi::startup::HeartbeatStep;
use pico_fi::startup::Upstreams;

fn config() -> BridgeConfig {
    BridgeConfig {
        mac_address: [0x02, 0x00, 0x00, 0x12, 0x34, 0x56],
        address_mode: AddressMode::Dhcp,
        bridge_mode: BridgeMode::TcpServer { port: 7000 },
        upstream_mode: UpstreamMode::Uart,
        uart_port: UartPort::Uart0,
    }
}

fn status() -> BridgeStatus {
    BridgeStatus {
        link_active: true,
        led_state: 1,
        spi: SpiSnapshot {
            kind: 0,
            received: 0,
            expected: 0,
            preview0: 0,
            preview1: 0,
            preview2: 0,
            preview3: 0,
            first_byte: 0,
            written: 0,
            bits: 0,
            staged_magic: 0,
            staged_len: 0,
            resets: 0,
            queued: 0,
            queued_magic: 0,
            queued_len: 0,
            status_before: 0,
            status_after: 0,
            transfer_ok: 0,
            transfer_errors: 0,
        },
    }
}

fn feed(reader: &mut UartFrameReader, bytes: &[u8]) -> Vec<ReadEvent> {
    bytes.iter().map(|&byte| reader.push(byte)).collect()
}

#[test]
fn uart_frames_are_found_behind_stray_bytes() {
    let mut reader = UartFrameReader::new();
    let events = feed(&mut reader, b"> boot\r\n\xa5\x5a\x05\x00hello");
    assert_eq!(events.last(), Some(&ReadEvent::Complete(9)));
    assert!(events[..events.len() - 1].iter().all(|&event| event == ReadEvent::Pending));
    assert_eq!(reader.frame(9), b"\xa5\x5a\x05\x00hello");
    let events = feed(&mut reader, b"\xa6\x5b\x00\x00");
    assert_eq!(events.last(), Some(&ReadEvent::Complete(4)));
}

#[test]
fn uart_lengths_beyond_the_limit_are_refused() {
    let mut reader = UartFrameReader::new();
    let events = feed(&mut reader, b"\xa5\x5a\x01\x10");
    assert_eq!(events.last(), Some(&ReadEvent::Refused));
    let events = feed(&mut reader, b"\xa5\x5a\x00\x10");
    assert_eq!(events.last(), Some(&ReadEvent::Pending));
    let events = feed(&mut reader, &[7u8; 4096]);
    assert_eq!(events.last(), Some(&ReadEvent::Complete(4100)));
}

fn decide(frame: &[u8], link_up: bool) -> (Option<Vec<u8>>, Option<Vec<u8>>, Option<u8>) {
    let decision = uart::handle_uart_request(frame, link_up, &config(), &status());
    (
        decision.forward.map(|bytes| bytes.to_vec()),
        decision.reply.map(|reply| reply.as_slice().to_vec()),
        decision.led,
    )
}

#[test]
fn uart_requests_are_dispatched() {
    let ack = Some(b"\xa5\x5a\x00\x00".to_vec());
    assert_eq!(
        decide(b"\xa5\x5a\x02\x00hi", true),
        (Some(b"hi".to_vec()), ack.clone(), None)
    );
    assert_eq!(decide(b"\xa5\x5a\x02\x00hi", false), (None, ack.clone(), None));
    assert_eq!(decide(b"\xa5\x5a\x00\x00", true), (None, None, None));
    assert_eq!(decide(b"\xa5\x5a\x00\x00", false), (None, ack, None));
    assert_eq!(
        decide(b"\xa6\x5b\x06\x00/link\n", true),
        (None, Some(b"\xa6\x5b\x07\x00link up".to_vec()), None)
    );
    assert_eq!(
        decide(b"\xa6\x5b\x08\x00/led on\n", true),
        (None, Some(b"\xa6\x5b\x09\x00ok led on".to_vec()), Some(2))
    );
    assert_eq!(
        decide(b"\xa5\x5b\x00\x00", true),
        (None, Some(b"\xa6\x5b\x18\x00error invalid uart frame".to_vec()), None)
    );
}

#[test]
fn uart_responses_leave_in_whole_frames() {
    let mut ring = EgressRing::new();
    uart::queue_frame(&mut ring, &UartFrame::response(true, b"pong"));
    uart::queue_frame(&mut ring, &UartFrame::response(false, b"data"));
    let mut chunk = [0u8; 256];
    assert_eq!(ring.peek_into(&mut chunk), 16);
    assert_eq!(&chunk[..16], b"\xa6\x5b\x04\x00pong\xa5\x5a\x04\x00data");
    assert_eq!(uart::book_write(&mut ring, 16, Some(10)), FlushStep::Stop);
    assert_eq!(ring.peek_into(&mut chunk), 6);
    assert_eq!(&chunk[..6], b"\x04\x00data");
    assert_eq!(uart::book_write(&mut ring, 6, Some(6)), FlushStep::Continue);
    assert!(ring.is_empty());
    uart::queue_frame(&mut ring, &UartFrame::response(true, b"lost"));
    assert_eq!(uart::book_write(&mut ring, 8, None), FlushStep::Stop);
    assert!(ring.is_empty());
    uart::queue_frame(&mut ring, &UartFrame::response(true, b"lost"));
    assert_eq!(uart::book_write(&mut ring, 8, Some(0)), FlushStep::Stop);
    assert!(ring.is_empty());
    assert_eq!(uart::count_chunk(0), (1, false));
    assert_eq!(uart::count_chunk(3), (0, true));
}

#[test]
fn uart_network_reads() {
    assert!(matches!(uart::handle_net_read(None), uart::NetOutcome::Failed));
    assert!(matches!(uart::handle_net_read(Some(b"")), uart::NetOutcome::Closed));
    match uart::handle_net_read(Some(&[5u8; 256])) {
        uart::NetOutcome::Reply(frame) => {
            assert_eq!(frame.as_slice().len(), 260);
            assert_eq!(&frame.as_slice()[..5], &[0xa5, 0x5a, 0, 1, 5]);
        }
        _ => panic!("data should be queued"),
    }
}

#[test]
fn usb_lines_are_gathered() {
    let mut line = UsbLine::new();
    for &byte in b"hello\r".iter().chain(&[0xc3, 0xa9]) {
        assert!(!line.push(byte));
    }
    assert!(line.push(b'\n'));
    assert_eq!(line.as_str(), "hello");
    line.clear();
    assert_eq!(line.as_str(), "");
    for _ in 0..300 {
        line.push(b'x');
    }
    assert_eq!(line.as_str().len(), 256);
}

#[test]
fn usb_lines_are_dispatched() {
    let decision = usb::handle_usb_line("/ping", true, &config(), &status());
    assert_eq!(decision.reply.unwrap().as_str(), "pong");
    assert!(!decision.forward);
    let decision = usb::handle_usb_line("/led toggle", false, &config(), &status());
    assert_eq!(decision.led, Some(3));
    let decision = usb::handle_usb_line("hello", true, &config(), &status());
    assert!(decision.reply.is_none());
    assert!(decision.forward);
    assert!(!usb::handle_usb_line("hello", false, &config(), &status()).forward);
    assert!(usb::handle_usb_line("", true, &config(), &status()).forward);
}

#[test]
fn usb_packets_take_at_most_64_bytes() {
    assert_eq!(usb::packet_end(0, 65), 64);
    assert_eq!(usb::packet_end(64, 65), 65);
    assert_eq!(usb::packet_end(0, 64), 64);
}

#[test]
fn test_mode_commands() {
    let run = |line: &str, led_on: bool| {
        let action = pico_fi::bridge::test::handle_command(line, led_on);
        (action.response, action.change, action.led_on)
    };
    assert_eq!(run("ping", true), ("pong", LedChange::Keep, true));
    assert_eq!(
        run("help", false),
        (
            "commands: ping, led on, led off, led toggle, led blink <ms>, led status",
            LedChange::Keep,
            false
        )
    );
    assert_eq!(run("led on", false), ("ok led on", LedChange::High, true));
    assert_eq!(run("led off", true), ("ok led off", LedChange::Low, false));
    assert_eq!(run("led toggle", true), ("ok led off", LedChange::Toggle, false));
    assert_eq!(run("led toggle", false), ("ok led on", LedChange::Toggle, true));
    assert_eq!(run("led status", true), ("led on", LedChange::Keep, true));
    assert_eq!(run("led status", false), ("led off", LedChange::Keep, false));
    assert_eq!(run("led blink 50", true), ("ok blink complete", LedChange::Blink(50), false));
    assert_eq!(run("led blink fast", true), ("error unknown command", LedChange::Keep, true));
    assert_eq!(run("led", false), ("error unknown command", LedChange::Keep, false));
    assert_eq!(
        pico_fi::bridge::test::parse_blink_command("led blink 18446744073709551615"),
        Some(u64::MAX)
    );
    assert_eq!(pico_fi::bridge::test::parse_blink_command("led blink 18446744073709551616"), None);
    assert_eq!(pico_fi::bridge::test::parse_blink_command("led blink 00018446744073709551615"), Some(u64::MAX));
}

#[test]
fn links_come_up_through_a_handshake() {
    let policy = spi::client_policy();
    let mut state = LinkState::initial(policy);
    assert_eq!(state, LinkState::Starting);
    assert_eq!(state.delay_ms(250, 500), 250);
    state = state.next(policy, LinkEvent::Done);
    assert_eq!(state, LinkState::Opening);
    state = state.next(policy, LinkEvent::Done);
    assert_eq!(state, LinkState::Handshaking);
    assert!(!state.link_is_up());
    assert!(!state.closes_socket(LinkEvent::Done));
    state = state.next(policy, LinkEvent::Done);
    assert!(state.link_is_up());
    assert!(state.closes_socket(LinkEvent::Failed));
    state = state.next(policy, LinkEvent::Failed);
    assert_eq!(state, LinkState::Backoff);
    assert_eq!(state.delay_ms(250, 500), 500);
    state = state.next(policy, LinkEvent::Done);
    assert_eq!(state, LinkState::Opening);
    assert_eq!(state.next(policy, LinkEvent::Failed), LinkState::Backoff);
}

#[test]
fn link_policies() {
    let server = LinkPolicy {
        client: false,
        on_open_failure: OpenFailure::Stop,
    };
    assert_eq!(spi::server_policy(), server);
    assert_eq!(usb::server_policy(), server);
    assert_eq!(LinkState::initial(server), LinkState::Opening);
    assert_eq!(LinkState::Opening.next(server, LinkEvent::Failed), LinkState::Stopped);
    assert_eq!(LinkState::Opening.next(server, LinkEvent::UpstreamLost), LinkState::Stopped);
    assert_eq!(LinkState::Opening.next(server, LinkEvent::Served), LinkState::Opening);
    assert_eq!(LinkState::InSession.next(server, LinkEvent::Done), LinkState::Opening);
    assert_eq!(LinkState::Handshaking.next(server, LinkEvent::Failed), LinkState::Opening);
    assert!(LinkState::Handshaking.closes_socket(LinkEvent::Failed));
    assert_eq!(LinkState::Stopped.next(server, LinkEvent::Done), LinkState::Stopped);
    assert_eq!(i2c::server_policy().on_open_failure, OpenFailure::Backoff);
    assert!(i2c::client_policy().client);
    assert_eq!(uart::server_policy().on_open_failure, OpenFailure::Backoff);
    assert_eq!(uart::client_policy(1_500).on_open_failure, OpenFailure::Again);
    assert_eq!(uart::client_policy(50).on_open_failure, OpenFailure::Backoff);
    assert!(usb::client_policy().client);
}

#[test]
fn bridge_frames_are_planned() {
    match net::plan_bridge_write(b"hello") {
        BridgeWrite::Inline { frame, len } => {
            assert_eq!(&frame[..len], b"\xb5\x4e\x05\x00hello")
        }
        _ => panic!("a small frame goes out in one write"),
    }
    assert!(matches!(
        net::plan_bridge_write(&[1; 508]),
        BridgeWrite::Inline { len: 512, .. }
    ));
    match net::plan_bridge_write(&[1; 509]) {
        BridgeWrite::Split { header } => assert_eq!(header, [0xb5, 0x4e, 0xfd, 0x01]),
        _ => panic!("a large frame goes out in two writes"),
    }
    assert!(matches!(
        net::plan_bridge_write(&vec![1; 65535]),
        BridgeWrite::Split { header: [0xb5, 0x4e, 0xff, 0xff] }
    ));
    assert!(matches!(net::plan_bridge_write(&vec![1; 65536]), BridgeWrite::Refused));
    assert_eq!(net::parse_bridge_header(&[0xb5, 0x4e, 0xfd, 0x01], 1024), Some(509));
    assert_eq!(net::parse_bridge_header(&[0xb5, 0x4e, 0x01, 0x04], 1024), None);
    assert_eq!(net::parse_bridge_header(&[0xb5, 0x4f, 0x01, 0x00], 1024), None);
}

#[test]
fn handshakes() {
    let magic = startup::LINK_HANDSHAKE_MAGIC.as_bytes();
    assert_eq!(magic, b"PICOFI1");
    let step = net::first_handshake_step(true);
    assert_eq!(step, HandshakeStep::Send);
    let step = net::next_handshake_step(true, step, HandshakeEvent::Sent, magic);
    assert_eq!(step, HandshakeStep::Await);
    assert_eq!(
        net::next_handshake_step(true, step, HandshakeEvent::Received(b"PICOFI1"), magic),
        HandshakeStep::Accepted
    );
    assert_eq!(
        net::next_handshake_step(true, step, HandshakeEvent::Received(b"PICOFI2"), magic),
        HandshakeStep::Rejected
    );
    assert_eq!(
        net::next_handshake_step(true, step, HandshakeEvent::Failed, magic),
        HandshakeStep::Rejected
    );
    let step = net::first_handshake_step(false);
    assert_eq!(step, HandshakeStep::Await);
    let step = net::next_handshake_step(false, step, HandshakeEvent::Received(magic), magic);
    assert_eq!(step, HandshakeStep::Send);
    assert_eq!(
        net::next_handshake_step(false, step, HandshakeEvent::Sent, magic),
        HandshakeStep::Accepted
    );
}

#[test]
fn transfers_move_whole_buffers() {
    assert_eq!(net::start_transfer(0), Progress::Done);
    assert_eq!(net::start_transfer(4), Progress::More(0));
    assert_eq!(net::continue_transfer(0, 4, Some(3)), Progress::More(3));
    assert_eq!(net::continue_transfer(3, 4, Some(1)), Progress::Done);
    assert_eq!(net::continue_transfer(3, 4, Some(0)), Progress::Failed);
    assert_eq!(net::continue_transfer(3, 4, None), Progress::Failed);
}

#[test]
fn leases_are_awaited_with_dhcp_only() {
    let mut config = config();
    assert!(net::waits_for_lease(&config));
    config.address_mode = AddressMode::Static(Ipv4Config {
        address: [1, 2, 3, 4],
        prefix_len: 8,
        gateway: [1, 0, 0, 1],
        dns: [8, 8, 8, 8],
    });
    assert!(!net::waits_for_lease(&config));
}

#[test]
fn shell_lines_are_edited() {
    let mut line = ShellLine::new();
    assert!(line.pause_ends_round());
    for &byte in b"shox" {
        assert_eq!(line.key(byte), KeyAction::Echo);
    }
    assert_eq!(line.key(0x08), KeyAction::Silent);
    assert_eq!(line.key(b'w'), KeyAction::Echo);
    assert_eq!(line.key(0x07), KeyAction::Silent);
    assert_eq!(line.as_str(), "show");
    assert!(!line.pause_ends_round());
    assert_eq!(line.key(b'\r'), KeyAction::Enter);
    assert_eq!(line.key(b'\n'), KeyAction::Enter);
    for _ in 0..4 {
        assert_eq!(line.key(0x7f), KeyAction::Silent);
    }
    assert_eq!(line.key(0x7f), KeyAction::Silent);
    assert_eq!(line.as_str(), "");
    for _ in 0..128 {
        assert_eq!(line.key(b' '), KeyAction::Echo);
    }
    assert_eq!(line.key(b' '), KeyAction::Silent);
    assert_eq!(line.as_str().len(), 128);
}

#[test]
fn shell_lines_are_run() {
    let defaults = config();
    let mut current = config();
    assert_eq!(shell::run_line(&mut current, defaults, "help"), ShellAction::Banner);
    assert_eq!(shell::run_line(&mut current, defaults, "show"), ShellAction::Show);
    assert_eq!(shell::run_line(&mut current, defaults, "set server 9"), ShellAction::Save);
    assert_eq!(current.bridge_mode, BridgeMode::TcpServer { port: 9 });
    assert_eq!(
        shell::run_line(&mut current, defaults, "what"),
        ShellAction::Complain("unknown command")
    );
    assert_eq!(shell::run_line(&mut current, defaults, "start"), ShellAction::Start);
    assert_eq!(current.bridge_mode, BridgeMode::TcpServer { port: 9 });
    assert_eq!(shell::run_line(&mut current, defaults, "reset"), ShellAction::Reset);
    assert_eq!(current, defaults);
    assert_eq!(shell::banner_line(0), "");
    assert_eq!(shell::banner_line(1), "pico-fi uart bridge");
    assert_eq!(shell::banner_line(11), "  start");
}

#[test]
fn stored_settings_count_for_uart_only_builds() {
    let compiled = config();
    let mut stored = config();
    stored.bridge_mode = BridgeMode::TcpServer { port: 1 };
    assert_eq!(startup::initial_config(compiled, Some(stored)), stored);
    assert_eq!(startup::initial_config(compiled, None), compiled);
    for upstream_mode in [
        UpstreamMode::I2c,
        UpstreamMode::Spi,
        UpstreamMode::SpiEcho,
        UpstreamMode::SpiStatic,
        UpstreamMode::SpiLineHigh,
    ] {
        let mut compiled = config();
        compiled.upstream_mode = upstream_mode;
        assert!(!startup::reads_stored_config(&compiled));
        assert_eq!(startup::initial_config(compiled, Some(stored)), compiled);
    }
    assert!(startup::reads_stored_config(&config()));
}

#[test]
fn roles_are_selected() {
    let ready = Upstreams {
        i2c: true,
        spi: true,
        usb: true,
    };
    let none = Upstreams {
        i2c: false,
        spi: false,
        usb: false,
    };
    let host = [10, 0, 0, 5];
    let mut config = config();
    for (upstream, server, client) in [
        (
            UpstreamMode::Uart,
            BridgeRole::UartServer { port: 7000 },
            BridgeRole::UartClient { host, port: 1 },
        ),
        (
            UpstreamMode::I2c,
            BridgeRole::I2cServer { port: 7000 },
            BridgeRole::I2cClient { host, port: 1 },
        ),
        (
            UpstreamMode::Usb,
            BridgeRole::UsbServer { port: 7000 },
            BridgeRole::UsbClient { host, port: 1 },
        ),
        (
            UpstreamMode::Spi,
            BridgeRole::SpiServer { port: 7000 },
            BridgeRole::SpiClient { host, port: 1 },
        ),
        (
            UpstreamMode::Test,
            BridgeRole::TestServer { port: 7000 },
            BridgeRole::TestClient { host, port: 1 },
        ),
        (UpstreamMode::SpiEcho, BridgeRole::Parked, BridgeRole::Parked),
        (UpstreamMode::SpiStatic, BridgeRole::Parked, BridgeRole::Parked),
        (UpstreamMode::SpiLineHigh, BridgeRole::Parked, BridgeRole::Parked),
    ] {
        config.upstream_mode = upstream;
        config.bridge_mode = BridgeMode::TcpServer { port: 7000 };
        assert_eq!(startup::select_role(&config, ready), server);
        config.bridge_mode = BridgeMode::TcpClient { host, port: 1 };
        assert_eq!(startup::select_role(&config, ready), client);
    }
    for upstream in [UpstreamMode::I2c, UpstreamMode::Usb, UpstreamMode::Spi] {
        config.upstream_mode = upstream;
        assert_eq!(startup::select_role(&config, none), BridgeRole::Unavailable);
    }
    config.upstream_mode = UpstreamMode::Test;
    assert!(!startup::runs_heartbeat(&config));
    assert!(startup::uses_spi(UpstreamMode::SpiStatic));
    assert!(!startup::uses_spi(UpstreamMode::I2c));
}

#[test]
fn heartbeat_rounds() {
    let mut led = Heartbeat::new();
    let step = |pulse, level, wait_ms| HeartbeatStep {
        pulse,
        level,
        wait_ms,
    };
    assert_eq!(led.round(false, None, true), step(false, true, 500));
    assert_eq!(led.round(true, None, true), step(true, true, 0));
    assert_eq!(led.round(false, None, true), step(false, false, 500));
    assert_eq!(led.round(false, None, true), step(false, true, 500));
    assert_eq!(led.round(false, None, false), step(false, false, 200));
    assert_eq!(led.round(false, Some(2), true), step(false, true, 50));
    assert_eq!(led.round(false, None, true), step(false, true, 50));
    assert_eq!(led.round(false, Some(3), true), step(false, false, 50));
    assert_eq!(led.round(false, Some(1), true), step(false, false, 50));
    assert_eq!(led.round(false, Some(9), true), step(false, true, 500));
    assert!(led.auto_mode);
}

#[test]
fn shell_runs_fold_their_lines() {
    let defaults = config();
    let mut run = ShellRun::new(defaults);
    assert_eq!(run.rounds_left, 30);
    run.pass();
    assert_eq!(run.take_line(defaults, "set server 9"), ShellAction::Save);
    assert_eq!(run.take_line(defaults, "set upstream test"), ShellAction::Save);
    run.pass();
    assert!(!run.is_over());
    assert_eq!(run.take_line(defaults, "start"), ShellAction::Start);
    assert!(run.is_over());
    assert!(run.started);
    assert_eq!(run.rounds_left, 25);
    assert_eq!(
        run.config,
        BridgeConfig {
            bridge_mode: BridgeMode::TcpServer { port: 9 },
            upstream_mode: UpstreamMode::Test,
            ..defaults
        }
    );
    let mut quiet = ShellRun::new(defaults);
    for _ in 0..30 {
        assert!(!quiet.is_over());
        quiet.pass();
    }
    assert!(quiet.is_over());
    assert!(!quiet.started);
}

#[test]
fn uart_writes_that_take_nothing_are_repeated() {
    assert_eq!(uart::bytes_taken(Some(3)), Some(3));
    assert_eq!(uart::bytes_taken(Some(0)), None);
    assert_eq!(uart::bytes_taken(None), None);
}
