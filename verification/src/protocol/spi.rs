//! SPI frames with a one-byte length, as the host sends them. The device reads them, and frames with
//! the link header, through `transfer`.

use crate::bytes::clipped;
use crate::bytes::low_byte;
use crate::bytes::zero_padded;
use crate::protocol::i2c::Request;
use vstd::prelude::*;

verus! {

/// Total number of bytes in a single SPI transaction.
pub const FRAME_SIZE: usize = 258;

/// Number of bytes in front of the payload.
pub const FRAME_HEADER_SIZE: usize = 2;

/// Maximum application payload that fits in one framed SPI transfer.
pub const PAYLOAD_MAX: usize = FRAME_SIZE - FRAME_HEADER_SIZE;

/// Request magic for raw bridge data.
pub const REQ_DATA_MAGIC: u8 = 0xA5;

/// Request magic for local Pico commands.
pub const REQ_COMMAND_MAGIC: u8 = 0xA6;

/// Response magic for raw bridge data.
pub const RESP_DATA_MAGIC: u8 = 0x5A;

/// Response magic for local Pico command replies.
pub const RESP_COMMAND_MAGIC: u8 = 0x5B;

/// The `/` with which every local command starts.
pub const SLASH: u8 = 0x2F;

/// Decoded SPI request classification.
pub enum RequestFrame<'a> {
    /// Payload bytes that should be forwarded across the Ethernet bridge unchanged.
    Data(&'a [u8]),
    /// ASCII command bytes that should be handled locally on the Pico.
    Command(&'a [u8]),
}

impl<'a> View for RequestFrame<'a> {
    type V = Request;

    open spec fn view(&self) -> Request {
        match self {
            RequestFrame::Data(payload) => Request::Data(payload@),
            RequestFrame::Command(payload) => Request::Command(payload@),
        }
    }
}

/// The payload that a frame declares by its length byte.
pub open spec fn declared_payload(frame: Seq<u8>) -> Seq<u8> {
    frame.subrange(FRAME_HEADER_SIZE as int, FRAME_HEADER_SIZE + frame[1])
}

/// The request in a full SPI frame. A command that does not start with a slash carries no command
/// bytes.
pub open spec fn parsed_request(frame: Seq<u8>) -> Option<Request> {
    let payload = declared_payload(frame);
    if frame[0] == REQ_COMMAND_MAGIC {
        if payload.len() > 0 && payload[0] == SLASH {
            Some(Request::Command(payload))
        } else {
            Some(Request::Command(Seq::empty()))
        }
    } else if frame[0] == REQ_DATA_MAGIC {
        Some(Request::Data(payload))
    } else {
        None
    }
}

/// The full-size frame for a magic and a payload. The length byte counts modulo 256: a payload of
/// `PAYLOAD_MAX` bytes fits the frame, but only the link header of `i2c` can announce it.
pub open spec fn length_byte_frame(magic: u8, payload: Seq<u8>) -> Seq<u8> {
    let carried = clipped(payload, PAYLOAD_MAX as nat);
    zero_padded(seq![magic, low_byte(carried.len())] + carried, FRAME_SIZE as nat)
}

/// Parses a full SPI request frame into a typed request view.
pub fn parse_request_frame(frame: &[u8; FRAME_SIZE]) -> (r: Option<RequestFrame<'_>>)
    ensures
        r is Some <==> parsed_request(frame@) is Some,
        r is Some ==> parsed_request(frame@) == Some(r->0@),
{
    let magic = frame[0];
    let len: usize = frame[1] as usize;
    if magic == REQ_COMMAND_MAGIC {
        if len > 0 && frame[2] == SLASH {
            return Some(RequestFrame::Command(&frame[FRAME_HEADER_SIZE..FRAME_HEADER_SIZE + len]));
        }
        let none = &frame[0..0];
        assert(none@ == Seq::<u8>::empty());
        return Some(RequestFrame::Command(none));
    }
    if magic == REQ_DATA_MAGIC {
        return Some(RequestFrame::Data(&frame[FRAME_HEADER_SIZE..FRAME_HEADER_SIZE + len]));
    }
    None
}

/// Builds a response frame with the given magic byte and payload.
pub fn make_response_frame(magic: u8, payload: &[u8]) -> (frame: [u8; FRAME_SIZE])
    ensures
        frame@ == length_byte_frame(magic, payload@),
{
    let mut frame = [0u8; FRAME_SIZE];
    frame[0] = magic;
    let len: usize = if payload.len() > PAYLOAD_MAX {
        PAYLOAD_MAX
    } else {
        payload.len()
    };
    frame[1] = (len % 256) as u8;
    let ghost carried = clipped(payload@, PAYLOAD_MAX as nat);
    for i in 0..len
        invariant
            len <= PAYLOAD_MAX,
            len <= payload@.len(),
            carried == clipped(payload@, PAYLOAD_MAX as nat),
            carried.len() == len,
            frame@ == zero_padded(
                seq![magic, low_byte(len as nat)] + carried.take(i as int),
                FRAME_SIZE as nat,
            ),
    {
        frame[FRAME_HEADER_SIZE + i] = payload[i];
    }
    assert(carried.take(len as int) == carried);
    frame
}

/// What a frame built from a request magic and a payload parses to: a data payload comes back
/// unchanged, a command payload comes back when it starts with a slash and is dropped otherwise.
/// Payloads that the length byte can announce are meant.
pub proof fn length_byte_frame_parses_back(payload: Seq<u8>)
    requires
        payload.len() < PAYLOAD_MAX,
    ensures
        parsed_request(length_byte_frame(REQ_DATA_MAGIC, payload)) == Some(Request::Data(payload)),
        parsed_request(length_byte_frame(REQ_COMMAND_MAGIC, payload)) == Some(
            Request::Command(
                if payload.len() > 0 && payload[0] == SLASH {
                    payload
                } else {
                    Seq::empty()
                },
            ),
        ),
{
    assert(declared_payload(length_byte_frame(REQ_DATA_MAGIC, payload)) == payload);
    assert(declared_payload(length_byte_frame(REQ_COMMAND_MAGIC, payload)) == payload);
}

/// A response is never taken for a request: neither response magic starts one.
pub proof fn responses_are_not_requests(payload: Seq<u8>)
    ensures
        parsed_request(length_byte_frame(RESP_DATA_MAGIC, payload)) is None,
        parsed_request(length_byte_frame(RESP_COMMAND_MAGIC, payload)) is None,
{
}

} // verus!
