//! Overwrite-on-full queues and rings.

use pico_fi::bridge::i2c_task::make_packet;
use pico_fi::bridge::i2c_task::I2cQueue;
use pico_fi::bridge::overwrite_queue::QueueItem;
use pico_fi::bridge::spi_task::SpiFrame;
use pico_fi::bridge::spi_task::SpiQueue;
use pico_fi::bridge::uart::EgressRing;
use pico_fi::protocol::i2c::make_response_frame;

fn frame(tag: u8, len: usize) -> SpiFrame {
    SpiFrame {
        data: make_response_frame(0x5a, &vec![tag; len]),
    }
}

#[test]
fn queue_is_first_in_first_out() {
    let mut queue = SpiQueue::new();
    assert!(queue.try_pop().is_none());
    assert!(queue.push_overwrite(frame(1, 3)));
    assert!(queue.push_overwrite(frame(2, 3)));
    assert_eq!(queue.try_pop().map(|item| item.data[4]), Some(1));
    assert_eq!(queue.try_pop().map(|item| item.data[4]), Some(2));
    assert!(queue.try_pop().is_none());
}

#[test]
fn a_full_queue_drops_its_oldest_frame() {
    let mut queue = SpiQueue::new();
    for tag in 0..33u8 {
        assert!(queue.push_overwrite(frame(tag, 1)));
    }
    let mut left = Vec::new();
    while let Some(item) = queue.try_pop() {
        left.push(item.data[4]);
    }
    assert_eq!(left, (1..33u8).collect::<Vec<u8>>());
}

#[test]
fn the_byte_limit_drops_as_many_old_frames_as_needed() {
    let mut queue = SpiQueue::new();
    for tag in 0..31u8 {
        assert!(queue.push_overwrite(frame(tag, 255)));
    }
    assert_eq!(frame(0, 255).queued_len(), 259);
    assert!(queue.push_overwrite(frame(100, 250)));
    let mut left = Vec::new();
    while let Some(item) = queue.try_pop() {
        left.push(item.data[4]);
    }
    assert_eq!(left[0], 1);
    assert_eq!(left.len(), 31);
    assert_eq!(left[30], 100);
}

#[test]
fn packets_count_by_their_bytes() {
    let mut queue = I2cQueue::new();
    for tag in 0..8u8 {
        assert!(queue.push_overwrite(make_packet(1, &[tag; 1024]).ok().unwrap()));
    }
    assert!(queue.push_overwrite(make_packet(1, &[50; 1]).ok().unwrap()));
    assert_eq!(queue.try_pop().map(|item| item.as_slice()[0]), Some(1));
    let latest = queue.try_pop_latest().unwrap();
    assert_eq!(latest.as_slice(), &[50]);
    assert!(queue.try_pop_latest().is_none());
    assert!(queue.try_pop().is_none());
}

#[test]
fn a_packet_takes_at_most_its_buffer() {
    assert!(make_packet(2, &[0; 1024]).is_ok());
    assert!(make_packet(2, &[0; 1025]).is_err());
    let packet = make_packet(2, b"abc").ok().unwrap();
    assert_eq!(packet.kind, 2);
    assert_eq!(packet.queued_len(), 3);
}

#[test]
fn ring_sends_bytes_in_order() {
    let mut ring = EgressRing::new();
    assert!(ring.is_empty());
    ring.push_overwrite_slices(&[b"ab", b"cd"]);
    ring.push_overwrite_slices(&[b"ef"]);
    let mut buf = [0u8; 8];
    assert_eq!(ring.peek_into(&mut buf), 6);
    assert_eq!(&buf, b"abcdef\0\0");
    ring.consume(3);
    assert_eq!(ring.peek_into(&mut buf[..2]), 2);
    assert_eq!(&buf[..2], b"de");
    ring.consume(2);
    assert_eq!(ring.peek_into(&mut buf), 1);
    assert_eq!(buf[0], b'f');
    ring.consume(10);
    assert!(ring.is_empty());
    assert_eq!(ring.peek_into(&mut buf), 0);
}

#[test]
fn an_empty_slice_ends_a_packet() {
    let mut ring = EgressRing::new();
    ring.push_overwrite_slices(&[]);
    ring.push_overwrite_slices(&[b"", b"x"]);
    assert!(ring.is_empty());
    ring.push_overwrite_slices(&[b"x", b"", b"y"]);
    let mut buf = [0u8; 4];
    assert_eq!(ring.peek_into(&mut buf), 1);
    assert_eq!(buf[0], b'x');
}

#[test]
fn a_packet_is_cut_at_its_limit() {
    let mut ring = EgressRing::new();
    ring.push_overwrite_slices(&[&[1u8; 200], &[2u8; 200]]);
    let mut buf = [0u8; 400];
    assert_eq!(ring.peek_into(&mut buf), 260);
    assert!(buf[..200].iter().all(|&byte| byte == 1));
    assert!(buf[200..260].iter().all(|&byte| byte == 2));
}

#[test]
fn a_full_ring_drops_whole_packets() {
    let mut ring = EgressRing::new();
    for tag in 0..17u8 {
        ring.push_overwrite_slices(&[&[tag, tag]]);
    }
    let mut buf = [0u8; 64];
    assert_eq!(ring.peek_into(&mut buf), 32);
    assert_eq!(&buf[..4], &[1, 1, 2, 2]);
    assert_eq!(&buf[30..32], &[16, 16]);
    ring.consume(1);
    ring.push_overwrite_slices(&[&[99]]);
    assert_eq!(ring.peek_into(&mut buf), 30);
    assert_eq!(&buf[..3], &[1, 3, 3]);
    assert_eq!(buf[29], 99);
    ring.clear();
    assert!(ring.is_empty());
}

#[test]
fn queued_frames_count_by_their_active_bytes() {
    assert_eq!(frame(0, 0).queued_len(), 4);
    assert_eq!(frame(0, 256).queued_len(), 260);
    let mut short = [0u8; 260];
    short[..2].copy_from_slice(&[0xa5, 9]);
    assert_eq!(SpiFrame { data: short }.queued_len(), 11);
}
