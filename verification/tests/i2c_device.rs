//! Slot reassembly, packet dispatch and response staging on the device.

use pico_fi::bridge::commands::BridgeStatus;
use pico_fi::bridge::i2c::handle_i2c_request;
use pico_fi::bridge::i2c_task::decode_slot;
use pico_fi::bridge::i2c_task::finish_wait;
use pico_fi::bridge::i2c_task::handle_write_slot;
use pico_fi::bridge::i2c_task::make_packet;
use pico_fi::bridge::i2c_task::prepare_response;
use pico_fi::bridge::i2c_task::recover_i2c_state;
use pico_fi::bridge::i2c_task::strip_link_header;
use pico_fi::bridge::i2c_task::I2cQueue;
use pico_fi::bridge::i2c_task::RxPacketState;
use pico_fi::bridge::i2c_task::TxPacketState;
use pico_fi::bridge::spi_diag::SpiSnapshot;
use pico_fi::config::AddressMode;
use pico_fi::config::BridgeConfig;
use pico_fi::config::BridgeMode;
use pico_fi::config::UartPort;
use pico_fi::config::UpstreamMode;
use pico_fi::host::i2c_backend::encode_slots;
use pico_fi::host::i2c_backend::request_slots;
use pico_fi::host::i2c_backend::Frame;
use pico_fi::host::i2c_backend::FrameAssembler;
use pico_fi::protocol::slot::KIND_COMMAND;
use pico_fi::protocol::slot::KIND_DATA;
use pico_fi::protocol::slot::KIND_ERROR;

fn config() -> BridgeConfig {
    BridgeConfig {
        mac_address: [0x02, 0x00, 0x00, 0x12, 0x34, 0x56],
        address_mode: AddressMode::Dhcp,
        bridge_mode: BridgeMode::TcpServer { port: 7000 },
        upstream_mode: UpstreamMode::I2c,
        uart_port: UartPort::Uart0,
    }
}

fn status() -> BridgeStatus {
    BridgeStatus {
        link_active: true,
        led_state: 1,
        spi: SpiSnapshot {
            kind: 0,
            received: 0,
            expected: 0,
            preview0: 0,
            preview1: 0,
            preview2: 0,
            preview3: 0,
            first_byte: 0,
            written: 0,
            bits: 0,
            staged_magic: 0,
            staged_len: 0,
            resets: 0,
            queued: 0,
            queued_magic: 0,
            queued_len: 0,
            status_before: 0,
            status_after: 0,
            transfer_ok: 0,
            transfer_errors: 0,
        },
    }
}

struct Device {
    rx: RxPacketState,
    tx: TxPacketState,
    last_id: u16,
    queue: I2cQueue,
}

fn device() -> Device {
    Device {
        rx: RxPacketState::new(),
        tx: TxPacketState::new(),
        last_id: 1,
        queue: I2cQueue::new(),
    }
}

fn write(device: &mut Device, raw: &[u8], now_us: u64) -> Option<u8> {
    handle_write_slot(
        raw,
        now_us,
        &mut device.rx,
        &mut device.tx,
        &mut device.last_id,
        &config(),
        &status(),
        &mut device.queue,
    )
}

fn read(device: &mut Device) -> Frame {
    let mut assembler = FrameAssembler::new();
    loop {
        if let Some(frame) = assembler.push(&device.tx.next_slot_bytes()).unwrap() {
            return frame;
        }
    }
}

#[test]
fn commands_are_answered_slot_by_slot() {
    let mut device = device();
    for slot in request_slots(0xa6, 7, b"/show\n") {
        assert_eq!(write(&mut device, &slot, 0), None);
    }
    assert_eq!(device.last_id, 7);
    assert!(device.tx.has_pending());
    assert_eq!(
        read(&mut device),
        Frame::Command(
            b"mac=02:00:00:12:34:56 ip=dhcp mode=server listen=7000 upstream=i2c".to_vec()
        )
    );
    assert!(!device.tx.has_pending());
    assert_eq!(device.tx.next_slot_bytes(), [0u8; 32]);
}

#[test]
fn led_commands_are_passed_on() {
    let mut device = device();
    let slots = request_slots(0xa6, 3, b"/led on\n");
    assert_eq!(slots.len(), 1);
    assert_eq!(write(&mut device, &slots[0], 0), Some(2));
    assert_eq!(read(&mut device), Frame::Command(b"ok led on".to_vec()));
}

#[test]
fn data_goes_to_the_session() {
    let mut device = device();
    let payload: Vec<u8> = (0..200u8).collect();
    for slot in request_slots(0xa5, 9, &payload) {
        assert_eq!(write(&mut device, &slot, 0), None);
    }
    let packet = device.queue.try_pop().unwrap();
    assert_eq!(packet.kind, KIND_DATA);
    assert_eq!(packet.as_slice(), &payload[..]);
    assert!(!device.tx.has_pending());
    for slot in request_slots(0xa5, 9, b"") {
        write(&mut device, &slot, 0);
    }
    assert!(device.queue.try_pop().is_none());
    for slot in request_slots(0xa6, 9, b"no slash") {
        write(&mut device, &slot, 0);
    }
    let packet = device.queue.try_pop().unwrap();
    assert_eq!(packet.kind, KIND_DATA);
    assert_eq!(packet.as_slice(), b"no slash");
}

#[test]
fn packets_without_a_link_header_are_taken_as_they_are() {
    let mut device = device();
    for slot in encode_slots(KIND_DATA, 2, b"plain bytes") {
        write(&mut device, &slot, 0);
    }
    assert_eq!(device.queue.try_pop().unwrap().as_slice(), b"plain bytes");
    assert_eq!(strip_link_header(b"\xa5\x5a\x02\x00hi"), b"hi");
    assert_eq!(strip_link_header(b"\xa5\x5a\x03\x00hi"), b"\xa5\x5a\x03\x00hi");
}

#[test]
fn unknown_kinds_are_refused() {
    let mut device = device();
    let slots = encode_slots(0x55, 0, b"x");
    write(&mut device, &slots[0], 0);
    assert_eq!(device.last_id, 1);
    let slot = device.tx.next_slot_bytes();
    assert_eq!(slot[3], KIND_ERROR);
    let mut assembler = FrameAssembler::new();
    assert_eq!(assembler.push(&slot), Ok(None));
    assert_eq!(
        assembler.push(&device.tx.next_slot_bytes()),
        Ok(Some(Frame::Command(b"error invalid i2c frame".to_vec())))
    );
}

#[test]
fn slots_that_do_not_decode_are_answered() {
    let mut device = device();
    write(&mut device, &[1, 2, 3], 0);
    assert_eq!(read(&mut device), Frame::Command(b"error invalid i2c slot".to_vec()));
    assert_eq!(decode_slot(&[0u8; 31]).err(), Some("error invalid i2c slot"));
    assert!(decode_slot(&[0u8; 32]).ok().unwrap().is_none());
    assert!(decode_slot(&[0xff; 32]).ok().unwrap().is_none());
    let mut slot = encode_slots(KIND_DATA, 1, b"abc")[0];
    let decoded = decode_slot(&slot).ok().unwrap().unwrap();
    assert_eq!(decoded.kind, KIND_DATA);
    assert_eq!(decoded.data_len, 3);
    assert_eq!(&decoded.data[..4], b"abc\0");
    slot[3] = 0;
    assert!(decode_slot(&slot).ok().unwrap().is_none());
    slot[3] = 1;
    slot[15] = 1;
    assert_eq!(decode_slot(&slot).err(), Some("error invalid i2c slot"));
    slot[2] = 2;
    assert_eq!(decode_slot(&slot).err(), Some("error invalid i2c slot"));
}

#[test]
fn oversized_packets_are_refused() {
    let mut device = device();
    let slots = encode_slots(KIND_DATA, 1, &[1u8; 1025]);
    write(&mut device, &slots[0], 0);
    assert_eq!(read(&mut device), Frame::Command(b"error i2c payload too large".to_vec()));
}

#[test]
fn packets_that_pause_too_long_are_dropped() {
    let slots = request_slots(0xa5, 6, &[3u8; 20]);
    assert_eq!(slots.len(), 2);
    let mut late = device();
    write(&mut late, &slots[0], 1_000);
    write(&mut late, &slots[1], 51_000);
    assert!(late.queue.try_pop().is_none());
    assert_eq!(read(&mut late), Frame::Command(b"error invalid i2c slot".to_vec()));
    let mut in_time = device();
    write(&mut in_time, &slots[0], 1_000);
    write(&mut in_time, &slots[1], 50_999);
    assert_eq!(in_time.queue.try_pop().unwrap().as_slice(), &[3u8; 20]);
}

#[test]
fn slots_of_another_transfer_are_refused() {
    let mut device = device();
    let first = request_slots(0xa5, 6, &[3u8; 40]);
    let other = request_slots(0xa5, 7, &[3u8; 40]);
    write(&mut device, &first[0], 0);
    write(&mut device, &other[1], 0);
    assert!(device.tx.has_pending());
    write(&mut device, &first[1], 0);
    write(&mut device, &first[2], 0);
    assert!(device.queue.try_pop().is_none());
}

#[test]
fn slots_are_taken_in_by_the_clock() {
    let mut rx = RxPacketState::new();
    let slots = encode_slots(KIND_COMMAND, 5, b"/ping\n");
    let slot = decode_slot(&slots[0]).ok().unwrap().unwrap();
    assert_eq!(rx.push_slot(slot), Ok(Some((KIND_COMMAND, 5, 6))));
    assert_eq!(rx.payload(6), b"/ping\n");
    let slots = encode_slots(KIND_COMMAND, 5, &[b'a'; 20]);
    let first = decode_slot(&slots[0]).ok().unwrap().unwrap();
    let second = decode_slot(&slots[1]).ok().unwrap().unwrap();
    assert_eq!(rx.push_slot(first), Ok(None));
    assert_eq!(rx.push_slot(second), Ok(Some((KIND_COMMAND, 5, 20))));
    assert_eq!(rx.push_slot(second), Err("error invalid i2c slot"));
}

#[test]
fn responses_of_the_session_are_staged() {
    let mut device = device();
    let mut responses = I2cQueue::new();
    assert!(prepare_response(&mut device.tx, &mut responses, 4));
    finish_wait(&mut device.tx, None, 4);
    assert_eq!(device.tx.next_slot_bytes(), [0u8; 32]);
    responses.push_overwrite(make_packet(KIND_DATA, b"old").ok().unwrap());
    responses.push_overwrite(make_packet(KIND_DATA, b"new").ok().unwrap());
    assert!(!prepare_response(&mut device.tx, &mut responses, 4));
    assert!(responses.try_pop().is_none());
    assert!(!prepare_response(&mut device.tx, &mut responses, 4));
    assert_eq!(read(&mut device), Frame::Data(b"new".to_vec()));
    finish_wait(&mut device.tx, make_packet(KIND_DATA, b"late").ok(), 4);
    assert_eq!(read(&mut device), Frame::Data(b"late".to_vec()));
    finish_wait(&mut device.tx, make_packet(0x33, b"odd").ok(), 4);
    assert_eq!(read(&mut device), Frame::Command(b"error invalid i2c slot".to_vec()));
}

#[test]
fn bus_errors_are_reported() {
    let mut device = device();
    let slots = request_slots(0xa5, 6, &[3u8; 40]);
    write(&mut device, &slots[0], 0);
    recover_i2c_state(&mut device.rx, &mut device.tx, 6);
    assert_eq!(read(&mut device), Frame::Command(b"error invalid i2c slot".to_vec()));
    write(&mut device, &slots[1], 0);
    assert!(device.tx.has_pending());
}

#[test]
fn session_decisions() {
    let data = make_packet(KIND_DATA, b"hello").ok().unwrap();
    let decision = handle_i2c_request(&data, true, &config(), &status());
    assert_eq!(decision.forward, Some(&b"hello"[..]));
    let reply = decision.reply.unwrap();
    assert_eq!((reply.kind, reply.as_slice().len()), (KIND_DATA, 0));
    let decision = handle_i2c_request(&data, false, &config(), &status());
    assert_eq!(decision.forward, None);
    assert!(decision.reply.is_some());
    let empty = make_packet(KIND_DATA, b"").ok().unwrap();
    let decision = handle_i2c_request(&empty, true, &config(), &status());
    assert_eq!(decision.forward, None);
    assert!(decision.reply.is_some());
    assert!(handle_i2c_request(&empty, false, &config(), &status()).reply.is_none());
    let command = make_packet(KIND_COMMAND, b"/led off\n").ok().unwrap();
    let decision = handle_i2c_request(&command, true, &config(), &status());
    assert_eq!(decision.led, Some(1));
    let reply = decision.reply.unwrap();
    assert_eq!(reply.kind, KIND_COMMAND);
    assert_eq!(reply.as_slice(), b"ok led off");
    let odd = make_packet(0x44, b"").ok().unwrap();
    let reply = handle_i2c_request(&odd, true, &config(), &status()).reply.unwrap();
    assert_eq!(reply.kind, KIND_ERROR);
    assert_eq!(reply.as_slice(), b"error invalid i2c frame");
}

#[test]
fn decoded_slots_are_padded_with_zeros() {
    let mut raw = encode_slots(KIND_DATA, 3, b"abc")[0];
    for byte in raw[21..].iter_mut() {
        *byte = 7;
    }
    match decode_slot(&raw) {
        Ok(Some(slot)) => assert_eq!(&slot.data[..], b"abc\0\0\0\0\0\0\0\0\0\0\0"),
        _ => panic!("the slot should decode"),
    }
}
