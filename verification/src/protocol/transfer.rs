//! Frames of SPI transfers. A transfer carries the link header (a sync pair and a 16-bit length) or
//! the short header (a magic and a length byte). The sync pair tells them apart.

use crate::bytes::clipped;
use crate::bytes::le16;
use crate::bytes::min_size;
use crate::bytes::read_le16;
use crate::bytes::zero_padded;
use crate::protocol::i2c;
use crate::protocol::i2c::frame_kind;
use crate::protocol::i2c::parse_request_frame;
use crate::protocol::i2c::response_frame;
use crate::protocol::i2c::response_frame_parses_back;
use crate::protocol::i2c::sync_kind;
use crate::protocol::i2c::FrameKind;
use crate::protocol::i2c::Request;
use crate::protocol::i2c::RequestFrame;
use crate::protocol::i2c::FRAME_HEADER_SIZE;
use crate::protocol::i2c::FRAME_SIZE;
use crate::protocol::i2c::PAYLOAD_MAX;
use crate::protocol::i2c::REQ_COMMAND_MAGIC;
use crate::protocol::i2c::REQ_DATA_MAGIC;
use crate::protocol::i2c::RESP_COMMAND_MAGIC;
use crate::protocol::i2c::RESP_DATA_MAGIC;
use crate::protocol::spi::length_byte_frame;
use vstd::prelude::*;

verus! {

/// Number of bytes in the short header.
pub const SHORT_HEADER_SIZE: usize = 2;

/// The most payload bytes that the length byte of a short header announces.
pub const SHORT_PAYLOAD_MAX: usize = 255;

/// Whether a frame starts with a sync pair, and so with the link header.
pub open spec fn has_link_header(frame: Seq<u8>) -> bool {
    sync_kind(frame[0], frame[1]) is Some
}

/// The number of bytes in front of the payload.
pub open spec fn header_len(frame: Seq<u8>) -> nat {
    if has_link_header(frame) {
        FRAME_HEADER_SIZE as nat
    } else {
        SHORT_HEADER_SIZE as nat
    }
}

/// The number of payload bytes that the header announces.
pub open spec fn payload_len(frame: Seq<u8>) -> nat {
    if has_link_header(frame) {
        le16(frame[2], frame[3])
    } else {
        frame[1] as nat
    }
}

/// The number of active bytes: the header and the payload it announces, within the buffer.
pub open spec fn frame_len(frame: Seq<u8>) -> nat {
    if header_len(frame) + payload_len(frame) < FRAME_SIZE {
        header_len(frame) + payload_len(frame)
    } else {
        FRAME_SIZE as nat
    }
}

/// The request behind a short header.
pub open spec fn short_request(frame: Seq<u8>) -> Option<Request> {
    let payload = frame.subrange(SHORT_HEADER_SIZE as int, SHORT_HEADER_SIZE + frame[1]);
    if frame[0] == REQ_DATA_MAGIC {
        Some(Request::Data(payload))
    } else if frame[0] == REQ_COMMAND_MAGIC {
        Some(Request::Command(payload))
    } else {
        None
    }
}

/// The request in a transfer.
pub open spec fn transfer_request(frame: Seq<u8>) -> Option<Request> {
    if has_link_header(frame) {
        i2c::parsed_request(frame)
    } else {
        short_request(frame)
    }
}

/// The frame with a short header, padded to the full transfer.
pub open spec fn short_frame(magic: u8, payload: Seq<u8>) -> Seq<u8> {
    zero_padded(length_byte_frame(magic, payload), FRAME_SIZE as nat)
}

/// Whether a short header can announce a payload: the length fits its byte, and the two header bytes
/// do not read as a sync pair.
pub open spec fn short_header_carries(magic: u8, len: nat) -> bool {
    len <= SHORT_PAYLOAD_MAX && sync_kind(magic, len as u8) is None
}

/// Whether a frame carries data.
pub open spec fn carries_data(frame: Seq<u8>) -> bool {
    if has_link_header(frame) {
        sync_kind(frame[0], frame[1]) == Some(FrameKind::Data)
    } else {
        frame[0] == RESP_DATA_MAGIC
    }
}

/// Whether a frame carries command output.
pub open spec fn carries_output(frame: Seq<u8>) -> bool {
    if has_link_header(frame) {
        sync_kind(frame[0], frame[1]) == Some(FrameKind::Command)
    } else {
        frame[0] == RESP_COMMAND_MAGIC
    }
}

/// Reads the header: the frame's kind behind a sync pair, and the numbers of header and payload
/// bytes.
pub(crate) fn read_header(frame: &[u8; FRAME_SIZE]) -> (r: (Option<FrameKind>, usize, usize))
    ensures
        r.0 == sync_kind(frame@[0], frame@[1]),
        r.1 == header_len(frame@),
        r.2 == payload_len(frame@),
        r.2 <= u16::MAX,
{
    let kind = frame_kind(frame[0], frame[1]);
    match kind {
        Some(_) => (kind, FRAME_HEADER_SIZE, read_le16(frame[2], frame[3]) as usize),
        None => (kind, SHORT_HEADER_SIZE, frame[1] as usize),
    }
}

/// The number of active bytes of a frame.
pub fn transfer_len(frame: &[u8; FRAME_SIZE]) -> (n: usize)
    ensures
        n == frame_len(frame@),
{
    let (_, header, payload) = read_header(frame);
    min_size(header + payload, FRAME_SIZE)
}

/// Parses the request in a transfer.
pub fn parse_transfer(frame: &[u8; FRAME_SIZE]) -> (r: Option<RequestFrame<'_>>)
    ensures
        r is Some <==> transfer_request(frame@) is Some,
        r is Some ==> transfer_request(frame@) == Some(r->0@),
{
    let (kind, _, len) = read_header(frame);
    if kind.is_some() {
        return parse_request_frame(frame);
    }
    let payload = &frame[SHORT_HEADER_SIZE..SHORT_HEADER_SIZE + len];
    match frame[0] {
        REQ_DATA_MAGIC => Some(RequestFrame::Data(payload)),
        REQ_COMMAND_MAGIC => Some(RequestFrame::Command(payload)),
        _ => None,
    }
}

/// A frame with a short header parses back to its payload, for every payload that the header can
/// announce.
pub proof fn short_frame_parses_back(payload: Seq<u8>)
    ensures
        short_header_carries(REQ_DATA_MAGIC, payload.len()) ==> transfer_request(
            short_frame(REQ_DATA_MAGIC, payload),
        ) == Some(Request::Data(payload)),
        short_header_carries(REQ_COMMAND_MAGIC, payload.len()) ==> transfer_request(
            short_frame(REQ_COMMAND_MAGIC, payload),
        ) == Some(Request::Command(payload)),
{
    if payload.len() <= SHORT_PAYLOAD_MAX {
        let data = short_frame(REQ_DATA_MAGIC, payload);
        let command = short_frame(REQ_COMMAND_MAGIC, payload);
        assert(data.subrange(2, (2 + payload.len()) as int) =~= payload);
        assert(command.subrange(2, (2 + payload.len()) as int) =~= payload);
    }
}

/// A frame with the link header parses back to its payload, for every payload up to the full size.
pub proof fn link_frame_parses_back(payload: Seq<u8>)
    requires
        payload.len() <= PAYLOAD_MAX,
    ensures
        transfer_request(response_frame(REQ_DATA_MAGIC, payload)) == Some(Request::Data(payload)),
        transfer_request(response_frame(REQ_COMMAND_MAGIC, payload)) == Some(
            Request::Command(payload),
        ),
        transfer_request(response_frame(RESP_DATA_MAGIC, payload)) == Some(Request::Data(payload)),
        transfer_request(response_frame(RESP_COMMAND_MAGIC, payload)) == Some(
            Request::Command(payload),
        ),
{
    response_frame_parses_back(REQ_DATA_MAGIC, payload);
    response_frame_parses_back(REQ_COMMAND_MAGIC, payload);
    response_frame_parses_back(RESP_DATA_MAGIC, payload);
    response_frame_parses_back(RESP_COMMAND_MAGIC, payload);
    assert(clipped(payload, PAYLOAD_MAX as nat) == payload);
}

} // verus!
