//! Frame type for variable-length framed SPI transfers.

use crate::bridge::overwrite_queue::QueueItem;
use crate::bytes::clipped;
use crate::bytes::le16;
use crate::bytes::min_size;
use crate::bytes::read_le16;
use crate::bytes::write_at;
use crate::bytes::zero_padded;
use crate::containers::frame_buffer;
use crate::containers::frame_buffer_extend;
use crate::containers::frame_buffer_new;
use crate::containers::frame_buffer_slice;
use crate::protocol::i2c::build_frame_into;
use crate::protocol::i2c::frame_bytes;
use crate::protocol::i2c::frame_bytes_parse_back;
use crate::protocol::i2c::parsed_request;
use crate::protocol::i2c::response_frame;
use crate::protocol::i2c::sync_bytes;
use crate::protocol::i2c::FRAME_HEADER_SIZE;
use crate::protocol::i2c::FRAME_SIZE;
use crate::protocol::i2c::PAYLOAD_MAX;
use crate::protocol::i2c::REQ_COMMAND_MAGIC;
use crate::protocol::i2c::REQ_DATA_MAGIC;
use crate::protocol::i2c::RESP_COMMAND_MAGIC;
use crate::protocol::i2c::RESP_DATA_MAGIC;
use crate::protocol::i2c::Request;
use vstd::prelude::*;

verus! {

/// Message type for framed SPI transfers that holds only the active bytes of a frame.
pub struct SpiFrame {
    data: heapless::Vec<u8, 260>,
}

/// The number of active bytes of a raw frame: its header and the payload it declares, within the
/// frame.
pub open spec fn active_len(frame: Seq<u8>) -> nat {
    let len = FRAME_HEADER_SIZE + le16(frame[2], frame[3]);
    if len < FRAME_SIZE {
        len as nat
    } else {
        FRAME_SIZE as nat
    }
}

/// The active bytes of a response. A magic that names no frame gives none.
pub open spec fn response_bytes(magic: u8, payload: Seq<u8>) -> Seq<u8> {
    match sync_bytes(magic) {
        Some(sync) => frame_bytes(sync, clipped(payload, PAYLOAD_MAX as nat)),
        None => Seq::empty(),
    }
}

impl SpiFrame {
    /// The active bytes of the frame.
    pub closed spec fn view(&self) -> Seq<u8> {
        frame_buffer(self.data)
    }

    /// Takes over the active bytes of a raw frame.
    pub fn from_raw_frame(data: [u8; FRAME_SIZE]) -> (frame: Self)
        ensures
            frame@ == data@.take(active_len(data@) as int),
    {
        let payload_len: usize = read_le16(data[2], data[3]) as usize;
        let len: usize = min_size(FRAME_HEADER_SIZE + payload_len, FRAME_SIZE);
        let mut frame = frame_buffer_new();
        let _ = frame_buffer_extend(&mut frame, &data[0..len]);
        assert(frame_buffer(frame) == data@.take(active_len(data@) as int));
        SpiFrame { data: frame }
    }

    /// Builds a response from a magic and a payload.
    pub fn response(magic: u8, payload: &[u8]) -> (frame: Self)
        ensures
            frame@ == response_bytes(magic, payload@),
    {
        let mut data = [0u8; FRAME_SIZE];
        let len: usize = match build_frame_into(magic, payload, &mut data) {
            Some(len) => len,
            None => 0,
        };
        let mut frame = frame_buffer_new();
        let _ = frame_buffer_extend(&mut frame, &data[0..len]);
        assert(frame_buffer(frame) == response_bytes(magic, payload@));
        SpiFrame { data: frame }
    }

    /// The active bytes.
    pub fn as_slice(&self) -> (r: &[u8])
        ensures
            r@ == self@,
            r@.len() <= FRAME_SIZE,
    {
        frame_buffer_slice(&self.data)
    }

    /// The frame padded with zeros to its full size.
    pub fn as_frame(&self) -> (frame: [u8; FRAME_SIZE])
        ensures
            frame@ == zero_padded(self@, FRAME_SIZE as nat),
            self@.len() <= FRAME_SIZE,
    {
        let mut frame = [0u8; FRAME_SIZE];
        write_at(&mut frame, 0, frame_buffer_slice(&self.data));
        assert(frame@ =~= zero_padded(self@, FRAME_SIZE as nat));
        frame
    }
}

impl QueueItem for SpiFrame {
    open spec fn weight(&self) -> nat {
        self@.len()
    }

    fn queued_len(&self) -> (n: usize) {
        frame_buffer_slice(&self.data).len()
    }
}

/// A response of a known magic, padded to full size, is the fixed-size response frame.
pub proof fn padded_response_is_the_full_frame(magic: u8, payload: Seq<u8>)
    requires
        sync_bytes(magic) is Some,
    ensures
        zero_padded(response_bytes(magic, payload), FRAME_SIZE as nat) == response_frame(
            magic,
            payload,
        ),
{
}

/// Taking over a fixed-size response frame keeps exactly the bytes that its response has.
pub proof fn raw_response_keeps_its_active_bytes(magic: u8, payload: Seq<u8>)
    requires
        sync_bytes(magic) is Some,
    ensures
        response_frame(magic, payload).take(active_len(response_frame(magic, payload)) as int)
            == response_bytes(magic, payload),
{
    let frame = response_frame(magic, payload);
    assert(frame.take(active_len(frame) as int) =~= response_bytes(magic, payload));
}

/// A response parses back to its payload, up to the full size.
pub proof fn responses_parse_back(payload: Seq<u8>)
    requires
        payload.len() <= PAYLOAD_MAX,
    ensures
        parsed_request(response_bytes(RESP_DATA_MAGIC, payload)) == Some(Request::Data(payload)),
        parsed_request(response_bytes(RESP_COMMAND_MAGIC, payload)) == Some(
            Request::Command(payload),
        ),
        response_bytes(RESP_DATA_MAGIC, payload).len() == 4 + payload.len(),
        response_bytes(RESP_COMMAND_MAGIC, payload).len() == 4 + payload.len(),
{
    assert(clipped(payload, PAYLOAD_MAX as nat) =~= payload);
    let data = frame_bytes((REQ_DATA_MAGIC, RESP_DATA_MAGIC), payload);
    let command = frame_bytes((REQ_COMMAND_MAGIC, RESP_COMMAND_MAGIC), payload);
    frame_bytes_parse_back((REQ_DATA_MAGIC, RESP_DATA_MAGIC), payload, Seq::empty());
    frame_bytes_parse_back((REQ_COMMAND_MAGIC, RESP_COMMAND_MAGIC), payload, Seq::empty());
    assert(data + Seq::<u8>::empty() =~= data);
    assert(command + Seq::<u8>::empty() =~= command);
}

} // verus!
