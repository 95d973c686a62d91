//! Local bridge commands, LED signals and SPI diagnostics.

use pico_fi::bridge::commands::activity_pending;
use pico_fi::bridge::commands::led_command;
use pico_fi::bridge::commands::led_request;
use pico_fi::bridge::commands::led_state_code;
use pico_fi::bridge::commands::local_reply;
use pico_fi::bridge::commands::looks_like_local_command;
use pico_fi::bridge::commands::read_status;
use pico_fi::bridge::commands::render_local_bridge_command;
use pico_fi::bridge::commands::set_led_state;
use pico_fi::bridge::commands::signal_led_activity;
use pico_fi::bridge::commands::take_led_activity;
use pico_fi::bridge::commands::take_led_command;
use pico_fi::bridge::commands::trim_ascii_line;
use pico_fi::bridge::commands::LedSignals;
use pico_fi::bridge::spi_diag;
use pico_fi::bridge::spi_diag::SpiDiag;
use pico_fi::bridge::spi_diag::SpiSnapshot;
use pico_fi::config::AddressMode;
use pico_fi::config::BridgeConfig;
use pico_fi::config::BridgeMode;
use pico_fi::config::UartPort;
use pico_fi::config::UpstreamMode;
use portable_atomic::AtomicBool;
use portable_atomic::AtomicU32;
use portable_atomic::AtomicU8;

fn config() -> BridgeConfig {
    BridgeConfig {
        mac_address: [0x02, 0x00, 0x00, 0x12, 0x34, 0x56],
        address_mode: AddressMode::Dhcp,
        bridge_mode: BridgeMode::TcpServer { port: 7000 },
        upstream_mode: UpstreamMode::Uart,
        uart_port: UartPort::Uart0,
    }
}

fn leds() -> LedSignals {
    LedSignals {
        command: AtomicU8::new(0),
        state: AtomicU8::new(1),
        activity_pulses: AtomicU8::new(0),
    }
}

fn diag() -> SpiDiag {
    SpiDiag {
        last_kind: AtomicU8::new(0),
        last_received: AtomicU32::new(0),
        last_expected: AtomicU32::new(0),
        last_preview0: AtomicU8::new(0),
        last_preview1: AtomicU8::new(0),
        last_preview2: AtomicU8::new(0),
        last_preview3: AtomicU8::new(0),
        last_first_byte: AtomicU8::new(0),
        last_written: AtomicU32::new(0),
        last_bits: AtomicU32::new(0),
        last_staged_magic: AtomicU8::new(0),
        last_staged_len: AtomicU8::new(0),
        reset_count: AtomicU32::new(0),
        queued_response_count: AtomicU32::new(0),
        last_queued_magic: AtomicU8::new(0),
        last_queued_len: AtomicU8::new(0),
        last_status_before: AtomicU8::new(0),
        last_status_after: AtomicU8::new(0),
        last_transfer_ok: AtomicU8::new(0),
        transfer_error_count: AtomicU32::new(0),
    }
}

#[test]
fn fixed_replies() {
    let leds = leds();
    let diag = diag();
    let link = AtomicBool::new(false);
    let reply = |line: &str| {
        render_local_bridge_command(config(), &link, &leds, &diag, line)
            .as_str()
            .to_owned()
    };
    assert_eq!(
        reply("/help"),
        "pico commands: /help /show /ping /link /spi /led <on|off|toggle|auto|status>"
    );
    assert_eq!(
        reply("/show"),
        "mac=02:00:00:12:34:56 ip=dhcp mode=server listen=7000 upstream=uart"
    );
    assert_eq!(reply("/ping"), "pong");
    assert_eq!(reply("/link"), "link down");
    link.store(true, portable_atomic::Ordering::Relaxed);
    assert_eq!(reply("/link"), "link up");
    assert_eq!(reply("/led status"), "led off");
    set_led_state(&leds, true);
    assert_eq!(reply("/led status"), "led on");
    assert_eq!(reply("ping"), "error unknown pico command");
    assert_eq!(reply(""), "error unknown pico command");
}

#[test]
fn led_commands_reach_the_led_task() {
    let leds = leds();
    let diag = diag();
    let link = AtomicBool::new(false);
    for (line, reply, command) in [
        ("/led on", "ok led on", Some(2)),
        ("/led off", "ok led off", Some(1)),
        ("/led toggle", "ok led toggle", Some(3)),
        ("/led auto", "ok led auto", None),
    ] {
        assert_eq!(
            render_local_bridge_command(config(), &link, &leds, &diag, line).as_str(),
            reply
        );
        assert_eq!(take_led_command(&leds), command);
        assert_eq!(take_led_command(&leds), None);
    }
    assert_eq!(led_request("/led on"), Some(2));
    assert_eq!(led_request("/led auto"), Some(0));
    assert_eq!(led_request("/led status"), None);
    assert_eq!(led_command(0), None);
    assert_eq!(led_command(7), Some(7));
    assert_eq!(led_state_code(true), 2);
    assert_eq!(led_state_code(false), 1);
}

#[test]
fn activity_is_taken_once() {
    let leds = leds();
    assert!(!take_led_activity(&leds));
    signal_led_activity(&leds);
    assert!(take_led_activity(&leds));
    assert!(!take_led_activity(&leds));
    assert!(activity_pending(3));
    assert!(!activity_pending(0));
}

#[test]
fn lines_are_trimmed() {
    assert_eq!(trim_ascii_line(b" \t/ping \r\n"), "/ping");
    assert_eq!(trim_ascii_line(b"a b"), "a b");
    assert_eq!(trim_ascii_line(b"\r\n"), "");
    assert_eq!(trim_ascii_line("\u{b}gr\u{fc}n\u{b}".as_bytes()), "\u{b}gr\u{fc}n\u{b}");
    assert_eq!(trim_ascii_line(b"/ping\xff"), "");
}

#[test]
fn local_commands_are_recognised() {
    assert!(looks_like_local_command(b"/ping\r\n"));
    assert!(looks_like_local_command(b"/"));
    assert!(!looks_like_local_command(b""));
    assert!(!looks_like_local_command(b"ping"));
    assert!(!looks_like_local_command(b"/ping\0"));
    assert!(!looks_like_local_command(b"/\x7f"));
}

#[test]
fn diagnostics_are_rendered() {
    let diag = diag();
    assert_eq!(
        spi_diag::render_snapshot(&diag).as_str(),
        "spi kind=unknown r=0 e=0 fb=00 rx=00 00 00 00 w=0 b=0 tx=00/0 q=0:00/0 xfer=0 sr=00/00 \
         xerr=0 resets=0"
    );
    spi_diag::record_transaction(
        &diag,
        spi_diag::complete_kind(),
        10,
        6,
        &[0xa6, 0x04, b'p'],
        0xa6,
        12,
        96,
        0x5a,
        7,
    );
    spi_diag::record_transfer_status(&diag, 0x03, 0x1f, false);
    spi_diag::record_transfer_status(&diag, 0x03, 0x13, true);
    spi_diag::record_queued_response(&diag, 0x5b, 200);
    assert_eq!(
        spi_diag::render_snapshot(&diag).as_str(),
        "spi kind=complete r=10 e=6 fb=a6 rx=a6 04 70 00 w=12 b=96 tx=5a/7 q=1:5b/200 xfer=1 \
         sr=03/13 xerr=1 resets=0"
    );
    let status = read_status(&AtomicBool::new(true), &leds(), &diag);
    assert!(status.link_active);
    assert_eq!(status.led_state, 1);
    assert_eq!(status.spi.received, 10);
    assert_eq!(
        local_reply(&config(), &status, "/spi").as_str(),
        spi_diag::render_snapshot(&diag).as_str()
    );
}

#[test]
fn the_last_diagnostics_field_gives_way() {
    let mut values = SpiSnapshot {
        kind: spi_diag::complete_kind(),
        received: u32::MAX,
        expected: u32::MAX,
        preview0: 0xff,
        preview1: 0xff,
        preview2: 0xff,
        preview3: 0xff,
        first_byte: 0xff,
        written: u32::MAX,
        bits: u32::MAX,
        staged_magic: 0xff,
        staged_len: 0xff,
        resets: 123,
        queued: u32::MAX,
        queued_magic: 0xff,
        queued_len: 0xff,
        status_before: 0xff,
        status_after: 0xff,
        transfer_ok: 0xff,
        transfer_errors: u32::MAX,
    };
    let line = spi_diag::render_values(&values);
    assert_eq!(line.as_str().len(), 154);
    assert!(line.as_str().ends_with(" xerr=4294967295"));
    values.transfer_ok = 1;
    let line = spi_diag::render_values(&values);
    assert_eq!(line.as_str().len(), 160);
    assert!(line.as_str().ends_with(" resets="));
    values.received = 1;
    let line = spi_diag::render_values(&values);
    assert!(line.as_str().ends_with(" resets=123"));
    values.kind = spi_diag::idle_kind();
    assert!(spi_diag::render_values(&values).as_str().starts_with("spi kind=idle r=1 "));
    values.kind = spi_diag::partial_kind();
    assert!(spi_diag::render_values(&values).as_str().starts_with("spi kind=partial "));
    values.kind = spi_diag::KIND_RESET;
    assert!(spi_diag::render_values(&values).as_str().starts_with("spi kind=reset "));
}

#[test]
fn recorded_counts_saturate() {
    let record = spi_diag::transaction_record(2, usize::MAX, 5, &[], 1, 2, usize::MAX, 3, 4);
    assert_eq!(record.kind, 2);
    assert_eq!(record.received, u32::MAX);
    assert_eq!(record.expected, 5);
    assert_eq!(record.preview, [0; 4]);
    assert_eq!(record.first_byte, 1);
    assert_eq!(record.written, 2);
    assert_eq!(record.bits, u32::MAX);
    assert_eq!(record.staged_magic, 3);
    assert_eq!(record.staged_len, 4);
}
