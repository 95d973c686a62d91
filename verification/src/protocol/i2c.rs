//! Framed request and response definitions shared by the byte-stream links.

use crate::bytes::clipped;
use crate::bytes::high_byte;
use crate::bytes::le16;
use crate::bytes::low_byte;
use crate::bytes::min_size;
use crate::bytes::overwritten;
use crate::bytes::read_le16;
use crate::bytes::write_at;
use crate::bytes::write_slice_at;
use crate::bytes::zero_padded;
use vstd::prelude::*;

verus! {

/// Total number of bytes in a single fixed frame transfer.
pub const FRAME_SIZE: usize = 260;

/// Number of bytes in the common link frame header.
pub const FRAME_HEADER_SIZE: usize = 4;

/// Maximum application payload that fits in one framed transfer.
pub const PAYLOAD_MAX: usize = FRAME_SIZE - FRAME_HEADER_SIZE;

/// Request magic for raw bridge data.
pub const REQ_DATA_MAGIC: u8 = 0xA5;

/// Request magic for local Pico commands.
pub const REQ_COMMAND_MAGIC: u8 = 0xA6;

/// Response magic for raw bridge data.
pub const RESP_DATA_MAGIC: u8 = 0x5A;

/// Response magic for local Pico command replies.
pub const RESP_COMMAND_MAGIC: u8 = 0x5B;

/// First header byte for raw ASCII frames consumed by the gateway board.
pub const REQ_RAW_ASCII_MAGIC: u8 = 0xA7;

/// Second header byte for raw ASCII frames consumed by the gateway board.
pub const RESP_RAW_ASCII_MAGIC: u8 = 0x7A;

/// Decoded request classification.
pub enum RequestFrame<'a> {
    /// Payload bytes that should be forwarded across the Ethernet bridge unchanged.
    Data(&'a [u8]),
    /// ASCII command bytes that should be handled locally on the Pico.
    Command(&'a [u8]),
}

/// A decoded request as a mathematical value.
pub enum Request {
    /// Bridged payload bytes.
    Data(Seq<u8>),
    /// Local command bytes.
    Command(Seq<u8>),
}

impl<'a> View for RequestFrame<'a> {
    type V = Request;

    open spec fn view(&self) -> Request {
        match self {
            RequestFrame::Data(payload) => Request::Data(payload@),
            RequestFrame::Command(payload) => Request::Command(payload@),
        }
    }
}

/// Frame classification named by the two sync bytes.
#[derive(Clone, Copy)]
pub enum FrameKind {
    /// Bridged payload.
    Data,
    /// Local command or command reply.
    Command,
    /// Gateway text that is never a request.
    RawAscii,
}

/// The frame kind that a pair of sync bytes announces. Data and command frames are recognised in
/// either byte order, raw ASCII frames in one.
pub open spec fn sync_kind(b0: u8, b1: u8) -> Option<FrameKind> {
    if (b0 == REQ_DATA_MAGIC && b1 == RESP_DATA_MAGIC) || (b0 == RESP_DATA_MAGIC && b1
        == REQ_DATA_MAGIC) {
        Some(FrameKind::Data)
    } else if (b0 == REQ_COMMAND_MAGIC && b1 == RESP_COMMAND_MAGIC) || (b0 == RESP_COMMAND_MAGIC
        && b1 == REQ_COMMAND_MAGIC) {
        Some(FrameKind::Command)
    } else if b0 == REQ_RAW_ASCII_MAGIC && b1 == RESP_RAW_ASCII_MAGIC {
        Some(FrameKind::RawAscii)
    } else {
        None
    }
}

/// The sync bytes with which a frame of the given magic starts.
pub open spec fn sync_bytes(magic: u8) -> Option<(u8, u8)> {
    if magic == REQ_DATA_MAGIC || magic == RESP_DATA_MAGIC {
        Some((REQ_DATA_MAGIC, RESP_DATA_MAGIC))
    } else if magic == REQ_COMMAND_MAGIC || magic == RESP_COMMAND_MAGIC {
        Some((REQ_COMMAND_MAGIC, RESP_COMMAND_MAGIC))
    } else if magic == REQ_RAW_ASCII_MAGIC || magic == RESP_RAW_ASCII_MAGIC {
        Some((REQ_RAW_ASCII_MAGIC, RESP_RAW_ASCII_MAGIC))
    } else {
        None
    }
}

/// The request that a byte sequence starts with, if it holds a whole one.
pub open spec fn parsed_request(frame: Seq<u8>) -> Option<Request> {
    if frame.len() < FRAME_HEADER_SIZE {
        None
    } else {
        let end = FRAME_HEADER_SIZE + le16(frame[2], frame[3]);
        if frame.len() < end {
            None
        } else {
            match sync_kind(frame[0], frame[1]) {
                Some(FrameKind::Data) => Some(
                    Request::Data(frame.subrange(FRAME_HEADER_SIZE as int, end)),
                ),
                Some(FrameKind::Command) => Some(
                    Request::Command(frame.subrange(FRAME_HEADER_SIZE as int, end)),
                ),
                _ => None,
            }
        }
    }
}

/// Header and payload of one frame.
pub open spec fn frame_bytes(sync: (u8, u8), payload: Seq<u8>) -> Seq<u8> {
    seq![sync.0, sync.1, low_byte(payload.len()), high_byte(payload.len())] + payload
}

/// The sync bytes used for a response of the given magic. An unknown magic falls back to data.
pub open spec fn response_sync(magic: u8) -> (u8, u8) {
    match sync_bytes(magic) {
        Some(sync) => sync,
        None => (REQ_DATA_MAGIC, RESP_DATA_MAGIC),
    }
}

/// The fixed-size response frame for a magic and a payload.
pub open spec fn response_frame(magic: u8, payload: Seq<u8>) -> Seq<u8> {
    zero_padded(
        frame_bytes(response_sync(magic), clipped(payload, PAYLOAD_MAX as nat)),
        FRAME_SIZE as nat,
    )
}

/// The payload that fits behind a header in `room` bytes and in the 16-bit length field.
pub open spec fn fitting_payload(payload: Seq<u8>, room: nat) -> Seq<u8> {
    let max = room - FRAME_HEADER_SIZE;
    clipped(
        payload,
        (if max < u16::MAX {
            max
        } else {
            u16::MAX as int
        }) as nat,
    )
}

/// Parses a full request frame into a typed request view.
pub fn parse_request_frame(frame: &[u8; FRAME_SIZE]) -> (r: Option<RequestFrame<'_>>)
    ensures
        r is Some <==> parsed_request(frame@) is Some,
        r is Some ==> parsed_request(frame@) == Some(r->0@),
{
    parse_request_bytes(frame)
}

/// Parses a variable-length request frame into a typed request view.
pub fn parse_request_bytes(frame: &[u8]) -> (r: Option<RequestFrame<'_>>)
    ensures
        r is Some <==> parsed_request(frame@) is Some,
        r is Some ==> parsed_request(frame@) == Some(r->0@),
{
    let (kind, len) = match parse_frame_header(frame) {
        Some(header) => header,
        None => return None,
    };
    if frame.len() < FRAME_HEADER_SIZE + len {
        return None;
    }
    let payload = &frame[FRAME_HEADER_SIZE..FRAME_HEADER_SIZE + len];
    match kind {
        FrameKind::Data => Some(RequestFrame::Data(payload)),
        FrameKind::Command => Some(RequestFrame::Command(payload)),
        FrameKind::RawAscii => None,
    }
}

/// Builds a response frame with the given magic byte and payload.
pub fn make_response_frame(magic: u8, payload: &[u8]) -> (frame: [u8; FRAME_SIZE])
    ensures
        frame@ == response_frame(magic, payload@),
{
    let mut frame = [0u8; FRAME_SIZE];
    let len: usize = min_size(payload.len(), PAYLOAD_MAX);
    let (h0, h1) = match header_for_magic(magic) {
        Some(sync) => sync,
        None => (REQ_DATA_MAGIC, RESP_DATA_MAGIC),
    };
    frame[0] = h0;
    frame[1] = h1;
    frame[2] = (len % 256) as u8;
    frame[3] = (len / 256) as u8;
    write_at(&mut frame, FRAME_HEADER_SIZE, &payload[0..len]);
    assert(payload@.subrange(0, len as int) == clipped(payload@, PAYLOAD_MAX as nat));
    frame
}

/// Writes a variable-length frame into `out`, returning the number of bytes used.
pub fn build_frame_into(magic: u8, payload: &[u8], out: &mut [u8]) -> (r: Option<usize>)
    ensures
        r is Some <==> sync_bytes(magic) is Some && old(out)@.len() >= FRAME_HEADER_SIZE,
        r is None ==> final(out)@ == old(out)@,
        r matches Some(n) ==> {
            let frame = frame_bytes(
                sync_bytes(magic)->0,
                fitting_payload(payload@, old(out)@.len()),
            );
            &&& n == frame.len()
            &&& final(out)@ == overwritten(old(out)@, 0, frame)
        },
{
    let (h0, h1) = match header_for_magic(magic) {
        Some(sync) => sync,
        None => return None,
    };
    if out.len() < FRAME_HEADER_SIZE {
        return None;
    }
    let max_payload: usize = out.len() - FRAME_HEADER_SIZE;
    let len: usize = min_size(min_size(payload.len(), max_payload), u16::MAX as usize);
    out[0] = h0;
    out[1] = h1;
    out[2] = (len % 256) as u8;
    out[3] = (len / 256) as u8;
    write_slice_at(out, FRAME_HEADER_SIZE, &payload[0..len]);
    assert(payload@.subrange(0, len as int) == fitting_payload(payload@, old(out)@.len()));
    Some(FRAME_HEADER_SIZE + len)
}

fn parse_frame_header(frame: &[u8]) -> (r: Option<(FrameKind, usize)>)
    ensures
        r is Some <==> frame@.len() >= FRAME_HEADER_SIZE && sync_kind(frame@[0], frame@[1]) is Some,
        r matches Some((kind, len)) ==> Some(kind) == sync_kind(frame@[0], frame@[1]) && len
            == le16(frame@[2], frame@[3]),
{
    if frame.len() < FRAME_HEADER_SIZE {
        return None;
    }
    let kind = match frame_kind(frame[0], frame[1]) {
        Some(kind) => kind,
        None => return None,
    };
    let len: usize = read_le16(frame[2], frame[3]) as usize;
    Some((kind, len))
}

/// The frame kind that a pair of sync bytes announces.
pub(crate) fn frame_kind(b0: u8, b1: u8) -> (r: Option<FrameKind>)
    ensures
        r == sync_kind(b0, b1),
{
    match (b0, b1) {
        (REQ_DATA_MAGIC, RESP_DATA_MAGIC) | (RESP_DATA_MAGIC, REQ_DATA_MAGIC) => Some(
            FrameKind::Data,
        ),
        (REQ_COMMAND_MAGIC, RESP_COMMAND_MAGIC) | (RESP_COMMAND_MAGIC, REQ_COMMAND_MAGIC) => Some(
            FrameKind::Command,
        ),
        (REQ_RAW_ASCII_MAGIC, RESP_RAW_ASCII_MAGIC) => Some(FrameKind::RawAscii),
        _ => None,
    }
}

fn header_for_magic(magic: u8) -> (r: Option<(u8, u8)>)
    ensures
        r == sync_bytes(magic),
{
    match magic {
        REQ_DATA_MAGIC | RESP_DATA_MAGIC => Some((REQ_DATA_MAGIC, RESP_DATA_MAGIC)),
        REQ_COMMAND_MAGIC | RESP_COMMAND_MAGIC => Some((REQ_COMMAND_MAGIC, RESP_COMMAND_MAGIC)),
        REQ_RAW_ASCII_MAGIC | RESP_RAW_ASCII_MAGIC => Some(
            (REQ_RAW_ASCII_MAGIC, RESP_RAW_ASCII_MAGIC),
        ),
        _ => None,
    }
}

/// A response frame built for a data or command magic parses back to its payload, clipped to what
/// one frame carries.
pub proof fn response_frame_parses_back(magic: u8, payload: Seq<u8>)
    ensures
        magic == REQ_DATA_MAGIC || magic == RESP_DATA_MAGIC ==> parsed_request(
            response_frame(magic, payload),
        ) == Some(Request::Data(clipped(payload, PAYLOAD_MAX as nat))),
        magic == REQ_COMMAND_MAGIC || magic == RESP_COMMAND_MAGIC ==> parsed_request(
            response_frame(magic, payload),
        ) == Some(Request::Command(clipped(payload, PAYLOAD_MAX as nat))),
        magic == REQ_RAW_ASCII_MAGIC || magic == RESP_RAW_ASCII_MAGIC ==> parsed_request(
            response_frame(magic, payload),
        ) is None,
{
    let p = clipped(payload, PAYLOAD_MAX as nat);
    let f = response_frame(magic, payload);
    assert(f.subrange(FRAME_HEADER_SIZE as int, FRAME_HEADER_SIZE + p.len()) == p);
}

/// A variable-length frame parses back to its payload, whatever bytes follow it.
pub proof fn frame_bytes_parse_back(sync: (u8, u8), payload: Seq<u8>, rest: Seq<u8>)
    requires
        payload.len() <= u16::MAX,
    ensures
        sync_kind(sync.0, sync.1) == Some(FrameKind::Data) ==> parsed_request(
            frame_bytes(sync, payload) + rest,
        ) == Some(Request::Data(payload)),
        sync_kind(sync.0, sync.1) == Some(FrameKind::Command) ==> parsed_request(
            frame_bytes(sync, payload) + rest,
        ) == Some(Request::Command(payload)),
        sync_kind(sync.0, sync.1) == Some(FrameKind::RawAscii) || sync_kind(sync.0, sync.1) is None
            ==> parsed_request(frame_bytes(sync, payload) + rest) is None,
{
    let f = frame_bytes(sync, payload) + rest;
    assert(f.subrange(FRAME_HEADER_SIZE as int, FRAME_HEADER_SIZE + payload.len()) == payload);
}

/// A request cut short before the end of its payload never parses.
pub proof fn truncated_request_is_refused(sync: (u8, u8), payload: Seq<u8>, keep: int)
    requires
        payload.len() <= u16::MAX,
        0 <= keep < FRAME_HEADER_SIZE + payload.len(),
    ensures
        parsed_request(frame_bytes(sync, payload).take(keep)) is None,
{
}

/// A frame is a pair of sync bytes, the length of the payload with its low byte first, and the
/// payload, of which a response carries up to 256 bytes.
pub proof fn frame_format(sync: (u8, u8), payload: Seq<u8>)
    requires
        payload.len() <= u16::MAX,
    ensures
        frame_bytes(sync, payload).len() == 4 + payload.len(),
        frame_bytes(sync, payload)[0] == sync.0,
        frame_bytes(sync, payload)[1] == sync.1,
        frame_bytes(sync, payload)[2] + 256 * frame_bytes(sync, payload)[3] == payload.len(),
        frame_bytes(sync, payload).skip(4) == payload,
        response_sync(RESP_DATA_MAGIC) == (0xa5u8, 0x5au8),
        response_sync(RESP_COMMAND_MAGIC) == (0xa6u8, 0x5bu8),
        payload.len() <= 256 ==> response_frame(RESP_DATA_MAGIC, payload) == zero_padded(
            frame_bytes((0xa5u8, 0x5au8), payload),
            260,
        ),
        payload.len() <= 256 ==> response_frame(RESP_COMMAND_MAGIC, payload) == zero_padded(
            frame_bytes((0xa6u8, 0x5bu8), payload),
            260,
        ),
{
    assert(frame_bytes(sync, payload).skip(4) =~= payload);
    if payload.len() <= 256 {
        assert(clipped(payload, 256) =~= payload);
    }
}

/// A payload that fits behind the header is carried whole, and one that does not is cut to what fits.
pub proof fn fitting_payloads_are_whole(payload: Seq<u8>, room: nat)
    requires
        room >= FRAME_HEADER_SIZE,
    ensures
        payload.len() + 4 <= room && payload.len() <= 65535 ==> fitting_payload(payload, room)
            == payload,
        fitting_payload(payload, room).len() + 4 <= room,
        fitting_payload(payload, room) == payload.take(
            fitting_payload(payload, room).len() as int,
        ),
{
    if payload.len() + 4 <= room && payload.len() <= 65535 {
        assert(fitting_payload(payload, room) =~= payload);
    }
    assert(payload.take(fitting_payload(payload, room).len() as int) =~= fitting_payload(
        payload,
        room,
    ));
}

} // verus!
