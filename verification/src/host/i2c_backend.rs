//! Host side of the slot-based I2C transport.

use crate::bridge::commands::is_local_command;
use crate::bridge::commands::line_text;
use crate::bridge::commands::replies_fit;
use crate::bridge::commands::reply_text;
use crate::bridge::commands::BridgeStatus;
use crate::bridge::i2c_task::fed;
use crate::bridge::i2c_task::freshly_staged;
use crate::bridge::i2c_task::incoming_payload;
use crate::bridge::i2c_task::no_assembly;
use crate::bridge::i2c_task::nonzero_id;
use crate::bridge::i2c_task::outgoing_bytes;
use crate::bridge::i2c_task::packet_action;
use crate::bridge::i2c_task::packet_slots;
use crate::bridge::i2c_task::packet_slots_reassemble;
use crate::bridge::i2c_task::packet_sync;
use crate::bridge::i2c_task::slot_at;
use crate::bridge::i2c_task::slots_from;
use crate::bridge::i2c_task::staged_after;
use crate::bridge::i2c_task::unsent_slots;
use crate::bridge::i2c_task::Assembly;
use crate::bridge::i2c_task::I2C_PACKET_MAX;
use crate::bridge::i2c_task::PARTIAL_PACKET_TIMEOUT_US;
use crate::bridge::i2c_task::PacketAction;
use crate::bridge::i2c_task::SlotOutcome;
use crate::bridge::i2c_task::Staged;
use crate::bytes::clipped;
use crate::bytes::le16;
use crate::bytes::le16_round_trip;
use crate::bytes::min_size;
use crate::bytes::read_le16;
use crate::config::BridgeConfig;
use crate::protocol::i2c::frame_bytes;
use crate::protocol::i2c::frame_bytes_parse_back;
use crate::protocol::i2c::parsed_request;
use crate::protocol::i2c::FRAME_HEADER_SIZE;
use crate::protocol::i2c::REQ_COMMAND_MAGIC;
use crate::protocol::i2c::REQ_DATA_MAGIC;
use crate::protocol::i2c::RESP_COMMAND_MAGIC;
use crate::protocol::i2c::RESP_DATA_MAGIC;
use crate::protocol::i2c::Request;
use crate::protocol::slot::all_equal;
use crate::protocol::slot::bytes_all_equal;
use crate::protocol::slot::declared_len;
use crate::protocol::slot::encode_slot;
use crate::protocol::slot::flags_of;
use crate::protocol::slot::has_slot_magic;
use crate::protocol::slot::is_end;
use crate::protocol::slot::is_start;
use crate::protocol::slot::read_slot_header;
use crate::protocol::slot::slot_bytes;
use crate::protocol::slot::slot_fields;
use crate::protocol::slot::slot_reads_back;
use crate::protocol::slot::FLAG_END;
use crate::protocol::slot::FLAG_START;
use crate::protocol::slot::KIND_COMMAND;
use crate::protocol::slot::KIND_DATA;
use crate::protocol::slot::KIND_ERROR;
use crate::protocol::slot::KIND_IDLE;
use crate::protocol::slot::SLOT_HEADER_SIZE;
use crate::protocol::slot::SLOT_MAGIC0;
use crate::protocol::slot::SLOT_MAGIC1;
use crate::protocol::slot::SLOT_PAYLOAD_SIZE;
use crate::protocol::slot::SLOT_SIZE;
use crate::protocol::slot::SLOT_VERSION;
use crate::protocol::slot::SlotFields;
use crate::text::decimal;
use crate::text::hex_byte;
use crate::text::string_with_decimal;
use crate::text::string_with_hex;
use vstd::prelude::*;
use vstd::slice::slice_to_vec;
use vstd::string::StringExecFns;
use vstd::string::StringSliceAdditionalSpecFns;
use vstd::utf8::encode_utf8;

verus! {

/// The most payload bytes of a request.
pub const PAYLOAD_MAX: usize = 4092;

/// A frame from the device.
#[derive(Debug, Clone, PartialEq, Eq)]
pub enum Frame {
    /// Bridged data.
    Data(Vec<u8>),
    /// Command output.
    Command(Vec<u8>),
}

/// A frame as a mathematical value.
pub enum FrameValue {
    /// Bridged data.
    Data(Seq<u8>),
    /// Command output.
    Command(Seq<u8>),
}

impl View for Frame {
    type V = FrameValue;

    open spec fn view(&self) -> FrameValue {
        match self {
            Frame::Data(bytes) => FrameValue::Data(bytes@),
            Frame::Command(bytes) => FrameValue::Command(bytes@),
        }
    }
}

/// What is wrong with a frame.
#[derive(Debug, Clone, Copy, PartialEq, Eq)]
pub enum Error {
    /// The frame does not decode.
    InvalidFrame { magic: u8, len: usize },
}

impl Error {
    /// The text of the error.
    pub fn message(&self) -> (text: String)
        ensures
            text@ == match self {
                Error::InvalidFrame { magic, len } => "invalid I2C frame: magic=0x"@ + hex_byte(
                    *magic,
                ) + " len="@ + decimal(*len as nat),
            },
    {
        match self {
            Error::InvalidFrame { magic, len } => {
                let mut text = String::from_str("invalid I2C frame: magic=0x");
                string_with_hex(&mut text, *magic);
                text.append(" len=");
                string_with_decimal(&mut text, *len as u64);
                text
            },
        }
    }
}

/// The magic of a logical packet: from its sync bytes, or else its slot kind.
pub open spec fn packet_magic(slot_kind: u8, raw: Seq<u8>) -> u8 {
    if raw[0] == REQ_DATA_MAGIC && raw[1] == RESP_DATA_MAGIC {
        RESP_DATA_MAGIC
    } else if raw[0] == REQ_COMMAND_MAGIC && raw[1] == RESP_COMMAND_MAGIC {
        RESP_COMMAND_MAGIC
    } else {
        slot_kind
    }
}

/// The frame in a logical packet, or the magic and the length of what is wrong with it.
pub open spec fn parsed_response(slot_kind: u8, raw: Seq<u8>) -> Result<FrameValue, (u8, nat)> {
    if raw.len() < FRAME_HEADER_SIZE {
        Err((slot_kind, raw.len()))
    } else {
        let magic = packet_magic(slot_kind, raw);
        let len = le16(raw[2], raw[3]);
        if len > PAYLOAD_MAX || FRAME_HEADER_SIZE + len > raw.len() || (magic != RESP_DATA_MAGIC
            && magic != RESP_COMMAND_MAGIC) {
            Err((magic, len))
        } else {
            let payload = raw.subrange(FRAME_HEADER_SIZE as int, FRAME_HEADER_SIZE + len);
            if magic == RESP_DATA_MAGIC {
                Ok(FrameValue::Data(payload))
            } else {
                Ok(FrameValue::Command(payload))
            }
        }
    }
}

/// Decodes a logical packet.
pub fn parse_response(slot_kind: u8, raw: &[u8]) -> (r: Result<Frame, Error>)
    ensures
        match r {
            Ok(frame) => parsed_response(slot_kind, raw@) == Ok::<_, (u8, nat)>(frame@),
            Err(Error::InvalidFrame { magic, len }) => parsed_response(slot_kind, raw@) == Err::<
                FrameValue,
                _,
            >((magic, len as nat)),
        },
{
    if raw.len() < FRAME_HEADER_SIZE {
        return Err(Error::InvalidFrame { magic: slot_kind, len: raw.len() });
    }
    let magic: u8 = match (raw[0], raw[1]) {
        (REQ_DATA_MAGIC, RESP_DATA_MAGIC) => RESP_DATA_MAGIC,
        (REQ_COMMAND_MAGIC, RESP_COMMAND_MAGIC) => RESP_COMMAND_MAGIC,
        _ => slot_kind,
    };
    let len: usize = read_le16(raw[2], raw[3]) as usize;
    if len > PAYLOAD_MAX {
        return Err(Error::InvalidFrame { magic, len });
    }
    let payload_end: usize = FRAME_HEADER_SIZE + len;
    if payload_end > raw.len() {
        return Err(Error::InvalidFrame { magic, len });
    }
    let payload = slice_to_vec(&raw[FRAME_HEADER_SIZE..payload_end]);
    match magic {
        RESP_DATA_MAGIC => Ok(Frame::Data(payload)),
        RESP_COMMAND_MAGIC => Ok(Frame::Command(payload)),
        _ => Err(Error::InvalidFrame { magic, len }),
    }
}

/// One decoded slot.
pub struct DecodedSlot {
    /// Packet kind.
    pub kind: u8,
    /// Start and end flags.
    pub flags: u8,
    /// Transfer that the slot belongs to.
    pub transfer_id: u16,
    /// Position of the slot's payload in the packet.
    pub offset: usize,
    /// Length of the packet.
    pub total_len: usize,
    /// The slot's payload.
    pub data: Vec<u8>,
}

impl DecodedSlot {
    /// The slot's fields.
    pub open spec fn view(&self) -> SlotFields {
        SlotFields {
            kind: self.kind,
            flags: self.flags,
            transfer_id: self.transfer_id,
            offset: self.offset as nat,
            total_len: self.total_len as nat,
            data: self.data@,
        }
    }
}

/// The slot in a bus read: nothing when the device idles, and the magic and the length of what is
/// wrong when it does not decode.
pub open spec fn read_slot(raw: Seq<u8>) -> Result<Option<SlotFields>, (u8, nat)> {
    if all_equal(raw, 0x00) || all_equal(raw, 0xff) || raw[3] == KIND_IDLE {
        Ok(None)
    } else if !has_slot_magic(raw) {
        Err((raw[0], SLOT_SIZE as nat))
    } else if declared_len(raw) > SLOT_PAYLOAD_SIZE {
        Err((raw[3], declared_len(raw)))
    } else {
        Ok(Some(slot_fields(raw)))
    }
}

/// Decodes a bus read.
pub fn decode_slot(raw: &[u8; SLOT_SIZE]) -> (r: Result<Option<DecodedSlot>, Error>)
    ensures
        match r {
            Ok(Some(slot)) => read_slot(raw@) == Ok::<_, (u8, nat)>(Some(slot@)),
            Ok(None) => read_slot(raw@) == Ok::<Option<SlotFields>, (u8, nat)>(None),
            Err(Error::InvalidFrame { magic, len }) => read_slot(raw@) == Err::<
                Option<SlotFields>,
                _,
            >((magic, len as nat)),
        },
{
    if bytes_all_equal(raw, 0x00) || bytes_all_equal(raw, 0xff) || raw[3] == KIND_IDLE {
        return Ok(None);
    }
    if raw[0] != SLOT_MAGIC0 || raw[1] != SLOT_MAGIC1 || raw[2] != SLOT_VERSION {
        return Err(Error::InvalidFrame { magic: raw[0], len: SLOT_SIZE });
    }
    let (kind, flags, transfer_id, offset, total_len, data_len) = read_slot_header(raw);
    if data_len > SLOT_PAYLOAD_SIZE {
        return Err(Error::InvalidFrame { magic: kind, len: data_len });
    }
    let data = slice_to_vec(&raw[SLOT_HEADER_SIZE..SLOT_HEADER_SIZE + data_len]);
    Ok(Some(DecodedSlot { kind, flags, transfer_id, offset, total_len, data }))
}

/// The bytes of each of a list of slots.
pub open spec fn slot_list(slots: Seq<[u8; SLOT_SIZE]>) -> Seq<Seq<u8>> {
    slots.map_values(|slot: [u8; SLOT_SIZE]| slot@)
}

/// Cuts a packet into slots.
pub fn encode_slots(kind: u8, transfer_id: u16, payload: &[u8]) -> (out: Vec<[u8; SLOT_SIZE]>)
    ensures
        slot_list(out@) == packet_slots(kind, transfer_id, payload@),
{
    let mut out: Vec<[u8; SLOT_SIZE]> = Vec::new();
    let total_len: usize = payload.len();
    let mut offset: usize = 0;
    let ghost goal = packet_slots(kind, transfer_id, payload@);
    assert(slot_list(out@) =~= Seq::<Seq<u8>>::empty());
    loop
        invariant_except_break
            total_len == payload@.len(),
            offset <= total_len,
            goal == slot_list(out@) + slots_from(kind, transfer_id, payload@, offset as nat),
        ensures
            goal == slot_list(out@),
        decreases total_len - offset,
    {
        let last = total_len - offset <= SLOT_PAYLOAD_SIZE;
        let end: usize = if last {
            total_len
        } else {
            offset + SLOT_PAYLOAD_SIZE
        };
        let mut flags: u8 = 0;
        if offset == 0 {
            flags = flags + FLAG_START;
        }
        if last {
            flags = flags + FLAG_END;
        }
        let chunk = &payload[offset..end];
        let slot = encode_slot(kind, flags, transfer_id, offset, total_len, chunk);
        let ghost before = slot_list(out@);
        out.push(slot);
        proof {
            let f = slot_at(kind, transfer_id, payload@, offset as nat);
            assert(flags == flags_of(offset == 0, last));
            assert(slot@ == slot_bytes(f));
            assert(slot_list(out@) =~= before.push(slot@));
        }
        if last {
            assert(goal =~= slot_list(out@));
            break ;
        }
        proof {
            assert(goal =~= slot_list(out@) + slots_from(
                kind,
                transfer_id,
                payload@,
                end as nat,
            ));
        }
        offset = end;
    }
    out
}

/// The logical packet of a request.
pub open spec fn request_bytes(magic: u8, payload: Seq<u8>) -> Seq<u8> {
    frame_bytes(
        (
            magic,
            if magic == REQ_COMMAND_MAGIC {
                RESP_COMMAND_MAGIC
            } else {
                RESP_DATA_MAGIC
            },
        ),
        clipped(payload, PAYLOAD_MAX as nat),
    )
}

/// The slot kind of a request.
pub open spec fn request_kind(magic: u8) -> u8 {
    if magic == REQ_COMMAND_MAGIC {
        KIND_COMMAND
    } else {
        KIND_DATA
    }
}

/// Builds the logical packet of a request.
pub fn build_request(magic: u8, payload: &[u8]) -> (frame: Vec<u8>)
    ensures
        frame@ == request_bytes(magic, payload@),
{
    let len: usize = min_size(payload.len(), PAYLOAD_MAX);
    let mut frame: Vec<u8> = Vec::with_capacity(FRAME_HEADER_SIZE + len);
    frame.push(magic);
    frame.push(
        if magic == REQ_COMMAND_MAGIC {
            RESP_COMMAND_MAGIC
        } else {
            RESP_DATA_MAGIC
        },
    );
    frame.push((len % 256) as u8);
    frame.push((len / 256) as u8);
    let part = &payload[0..len];
    assert(part@ =~= clipped(payload@, PAYLOAD_MAX as nat));
    frame.extend_from_slice(part);
    assert(frame@ =~= request_bytes(magic, payload@));
    frame
}

/// Cuts a request into the slots that are written to the device.
pub fn request_slots(magic: u8, transfer_id: u16, payload: &[u8]) -> (slots: Vec<[u8; SLOT_SIZE]>)
    ensures
        slot_list(slots@) == packet_slots(
            request_kind(magic),
            transfer_id,
            request_bytes(magic, payload@),
        ),
{
    let frame = build_request(magic, payload);
    let kind: u8 = if magic == REQ_COMMAND_MAGIC {
        KIND_COMMAND
    } else {
        KIND_DATA
    };
    encode_slots(kind, transfer_id, frame.as_slice())
}

/// The transfer id that follows. Zero is skipped.
pub open spec fn following_id(id: u16) -> u16 {
    if id == u16::MAX {
        1
    } else {
        (id + 1) as u16
    }
}

/// The transfer id that follows. Zero is skipped.
pub fn next_transfer_id(id: u16) -> (next: u16)
    ensures
        next == following_id(id),
        next != 0,
        next != id,
{
    if id == u16::MAX {
        1
    } else {
        id + 1
    }
}

/// A line that ends with a line feed: the one it has, or one that is added.
pub open spec fn ended_line(bytes: Seq<u8>) -> Seq<u8> {
    if bytes.len() > 0 && bytes.last() == 0x0a {
        bytes
    } else {
        bytes.push(0x0a)
    }
}

/// The bytes of a command line, ended by a line feed.
pub fn command_line(command: &str) -> (line: Vec<u8>)
    ensures
        line@ == ended_line(command.spec_bytes()),
{
    let bytes = command.as_bytes();
    let mut line = slice_to_vec(bytes);
    if bytes.len() == 0 || bytes[bytes.len() - 1] != 0x0a {
        line.push(0x0a);
    }
    line
}

/// The data that a poll hands out: none for command output and for empty data.
pub open spec fn handed_out(frame: FrameValue) -> Option<Seq<u8>> {
    match frame {
        FrameValue::Data(bytes) => if bytes.len() > 0 {
            Some(bytes)
        } else {
            None
        },
        FrameValue::Command(_) => None,
    }
}

/// The data that a poll hands out: none for command output and for empty data.
pub fn polled_data(frame: Frame) -> (r: Option<Vec<u8>>)
    ensures
        r is Some <==> handed_out(frame@) is Some,
        r matches Some(data) ==> handed_out(frame@) == Some(data@),
{
    match frame {
        Frame::Data(bytes) => {
            if bytes.len() > 0 {
                Some(bytes)
            } else {
                None
            }
        },
        Frame::Command(_) => None,
    }
}

/// Number of frames that are read in wait for the output of a command.
pub const COMMAND_POLLS: u32 = 50;

/// What follows a frame that was read in wait for the output of a command.
#[derive(Debug, Clone, PartialEq, Eq)]
pub enum CommandPoll {
    /// The output has come.
    Answer(Vec<u8>),
    /// Another frame is read, of this many at most.
    Again(u32),
    /// The output is given up.
    TimedOut,
}

/// Whether a frame, with `left` frames to read at most, is followed by what was decided.
pub open spec fn poll_decided(frame: FrameValue, left: u32, r: CommandPoll) -> bool {
    match frame {
        FrameValue::Command(bytes) => r matches CommandPoll::Answer(output) && output@ == bytes,
        FrameValue::Data(_) => if left <= 1 {
            r is TimedOut
        } else {
            r == CommandPoll::Again((left - 1) as u32)
        },
    }
}

/// The output of a command among the frames that are read in wait for it: that of the first command
/// frame among the first `left`.
pub open spec fn awaited_output(frames: Seq<FrameValue>, left: nat) -> Option<Seq<u8>>
    decreases frames.len(),
{
    if frames.len() == 0 || left == 0 {
        None
    } else {
        match frames[0] {
            FrameValue::Command(bytes) => Some(bytes),
            FrameValue::Data(_) => awaited_output(frames.drop_first(), (left - 1) as nat),
        }
    }
}

/// Decides what follows a frame that was read in wait for the output of a command, with `left`
/// frames to read at most.
pub fn after_command_poll(frame: Frame, left: u32) -> (r: CommandPoll)
    ensures
        poll_decided(frame@, left, r),
{
    match frame {
        Frame::Command(bytes) => CommandPoll::Answer(bytes),
        Frame::Data(_) => if left <= 1 {
            CommandPoll::TimedOut
        } else {
            CommandPoll::Again(left - 1)
        },
    }
}

/// Whether a stream reports a frame: everything but empty data.
pub open spec fn is_news(frame: FrameValue) -> bool {
    frame != FrameValue::Data(Seq::empty())
}

/// Whether a stream reports a frame: everything but empty data.
pub fn is_reported(frame: &Frame) -> (r: bool)
    ensures
        r == is_news(frame@),
{
    proof {
        if let Frame::Data(bytes) = frame {
            if bytes@.len() == 0 {
                assert(bytes@ =~= Seq::<u8>::empty());
            }
        }
    }
    match frame {
        Frame::Data(bytes) => bytes.len() > 0,
        Frame::Command(_) => true,
    }
}

/// An unfinished packet from the device.
pub struct HostAssembly {
    /// Whether a packet was started.
    pub active: bool,
    /// Its kind.
    pub kind: u8,
    /// Its transfer.
    pub transfer_id: u16,
    /// Its length.
    pub total_len: nat,
    /// The bytes received of it.
    pub data: Seq<u8>,
}

/// No packet.
pub open spec fn nothing_received() -> HostAssembly {
    HostAssembly {
        active: false,
        kind: KIND_IDLE,
        transfer_id: 0,
        total_len: 0,
        data: Seq::empty(),
    }
}

/// The unfinished packet that a slot starts or continues, if it does.
pub open spec fn host_extended(a: HostAssembly, slot: SlotFields) -> Option<HostAssembly> {
    if is_start(slot.flags) {
        Some(
            HostAssembly {
                active: true,
                kind: slot.kind,
                transfer_id: slot.transfer_id,
                total_len: slot.total_len,
                data: slot.data,
            },
        )
    } else if a.active && slot.kind == a.kind && slot.transfer_id == a.transfer_id && slot.offset
        == a.data.len() {
        Some(HostAssembly { data: a.data + slot.data, ..a })
    } else {
        None
    }
}

/// The unfinished packet after a bus read, and what the read brings: nothing yet, a frame, or the
/// magic and the length of what is wrong. A frame or an error leaves no unfinished packet.
pub open spec fn host_step(a: HostAssembly, raw: Seq<u8>) -> (
    HostAssembly,
    Result<Option<FrameValue>, (u8, nat)>,
) {
    match read_slot(raw) {
        Err(e) => (nothing_received(), Err(e)),
        Ok(None) => (a, Ok(None)),
        Ok(Some(slot)) => match host_extended(a, slot) {
            None => (nothing_received(), Err((slot.kind, slot.total_len))),
            Some(b) => if !is_end(slot.flags) {
                (b, Ok(None))
            } else if b.data.len() != b.total_len {
                (nothing_received(), Err((b.kind, b.total_len)))
            } else {
                (
                    nothing_received(),
                    match parsed_response(b.kind, b.data) {
                        Ok(frame) => Ok(Some(frame)),
                        Err(e) => Err(e),
                    },
                )
            },
        },
    }
}

/// Reassembly of packets that the host reads.
pub struct FrameAssembler {
    active: bool,
    kind: u8,
    transfer_id: u16,
    total_len: usize,
    raw: Vec<u8>,
}

impl FrameAssembler {
    /// The unfinished packet.
    pub closed spec fn view(&self) -> HostAssembly {
        HostAssembly {
            active: self.active,
            kind: self.kind,
            transfer_id: self.transfer_id,
            total_len: self.total_len as nat,
            data: self.raw@,
        }
    }

    /// Creates an idle assembler.
    pub fn new() -> (a: Self)
        ensures
            a@ == nothing_received(),
    {
        let a = FrameAssembler {
            active: false,
            kind: KIND_IDLE,
            transfer_id: 0,
            total_len: 0,
            raw: Vec::new(),
        };
        assert(a@.data =~= Seq::<u8>::empty());
        a
    }

    fn reset(&mut self)
        ensures
            final(self)@ == nothing_received(),
    {
        self.active = false;
        self.kind = KIND_IDLE;
        self.transfer_id = 0;
        self.total_len = 0;
        self.raw = Vec::new();
        assert(self@.data =~= Seq::<u8>::empty());
    }

    /// Takes in one bus read.
    pub fn push(&mut self, slot: &[u8; SLOT_SIZE]) -> (r: Result<Option<Frame>, Error>)
        ensures
            final(self)@ == host_step(old(self)@, slot@).0,
            match r {
                Ok(Some(frame)) => host_step(old(self)@, slot@).1 == Ok::<_, (u8, nat)>(
                    Some(frame@),
                ),
                Ok(None) => host_step(old(self)@, slot@).1 == Ok::<Option<FrameValue>, (u8, nat)>(
                    None,
                ),
                Err(Error::InvalidFrame { magic, len }) => host_step(old(self)@, slot@).1 == Err::<
                    Option<FrameValue>,
                    _,
                >((magic, len as nat)),
            },
    {
        let decoded = match decode_slot(slot) {
            Ok(Some(decoded)) => decoded,
            Ok(None) => return Ok(None),
            Err(e) => {
                self.reset();
                return Err(e);
            },
        };
        if decoded.flags % 2 == 1 {
            self.active = true;
            self.kind = decoded.kind;
            self.transfer_id = decoded.transfer_id;
            self.total_len = decoded.total_len;
            self.raw = decoded.data;
        } else if self.active && decoded.kind == self.kind && decoded.transfer_id
            == self.transfer_id && decoded.offset == self.raw.len() {
            let ghost before = self.raw@;
            self.raw.extend_from_slice(decoded.data.as_slice());
            assert(self.raw@ =~= before + decoded.data@);
        } else {
            self.reset();
            return Err(Error::InvalidFrame { magic: decoded.kind, len: decoded.total_len });
        }
        if (decoded.flags / 2) % 2 == 1 {
            let kind: u8 = self.kind;
            let total_len: usize = self.total_len;
            if self.raw.len() != total_len {
                self.reset();
                return Err(Error::InvalidFrame { magic: kind, len: total_len });
            }
            let r = parse_response(kind, self.raw.as_slice());
            self.reset();
            return match r {
                Ok(frame) => Ok(Some(frame)),
                Err(e) => Err(e),
            };
        }
        Ok(None)
    }
}

/// What a read of one frame gives for a run of bus reads, with the count of bus reads it takes: it
/// ends with the first one that brings a frame or an error, if there is one.
pub open spec fn frame_read(a: HostAssembly, slots: Seq<Seq<u8>>) -> Option<
    (Result<FrameValue, (u8, nat)>, nat),
>
    decreases slots.len(),
{
    if slots.len() == 0 {
        None
    } else {
        match host_step(a, slots[0]).1 {
            Ok(Some(frame)) => Some((Ok(frame), 1)),
            Err(e) => Some((Err(e), 1)),
            Ok(None) => match frame_read(host_step(a, slots[0]).0, slots.drop_first()) {
                Some((result, n)) => Some((result, n + 1)),
                None => None,
            },
        }
    }
}

/// Whether the device idles: all bytes are zero, all are set, or the kind says so.
pub open spec fn is_idle_slot(raw: Seq<u8>) -> bool {
    all_equal(raw, 0x00) || all_equal(raw, 0xff) || raw[3] == KIND_IDLE
}

/// A run of bus reads without those in which the device idles.
pub open spec fn busy_slots(slots: Seq<Seq<u8>>) -> Seq<Seq<u8>>
    decreases slots.len(),
{
    if slots.len() == 0 {
        Seq::empty()
    } else if is_idle_slot(slots[0]) {
        busy_slots(slots.drop_first())
    } else {
        seq![slots[0]] + busy_slots(slots.drop_first())
    }
}

proof fn packet_slot_is_read(kind: u8, transfer_id: u16, packet: Seq<u8>, offset: nat)
    requires
        kind != KIND_IDLE,
        offset <= packet.len() < 0x1_0000_0000,
    ensures
        read_slot(slot_bytes(slot_at(kind, transfer_id, packet, offset))) == Ok::<_, (u8, nat)>(
            Some(slot_at(kind, transfer_id, packet, offset)),
        ),
{
    let f = slot_at(kind, transfer_id, packet, offset);
    slot_reads_back(f);
    assert(slot_fields(slot_bytes(f)) == f);
}

/// What the last slot of a packet brings.
pub open spec fn packet_outcome(kind: u8, packet: Seq<u8>) -> Result<
    Option<FrameValue>,
    (u8, nat),
> {
    match parsed_response(kind, packet) {
        Ok(frame) => Ok(Some(frame)),
        Err(e) => Err(e),
    }
}

proof fn next_slot_is_read(a: HostAssembly, packet: Seq<u8>, offset: nat, raw: Seq<u8>)
    requires
        read_slot(raw) == Ok::<_, (u8, nat)>(Some(slot_at(a.kind, a.transfer_id, packet, offset))),
        a.active,
        a.kind != KIND_IDLE,
        a.total_len == packet.len() < 0x1_0000_0000,
        0 < offset < packet.len(),
        a.data == packet.take(offset as int),
    ensures
        host_step(a, raw) == if offset + SLOT_PAYLOAD_SIZE >= packet.len() {
            (nothing_received(), packet_outcome(a.kind, packet))
        } else {
            (
                HostAssembly { data: packet.take(offset + SLOT_PAYLOAD_SIZE), ..a },
                Ok::<_, (u8, nat)>(None),
            )
        },
{
    let f = slot_at(a.kind, a.transfer_id, packet, offset);
    let last = offset + SLOT_PAYLOAD_SIZE >= packet.len();
    assert(!is_start(f.flags));
    assert(is_end(f.flags) == last);
    if last {
        assert(a.data + f.data =~= packet);
    } else {
        assert(a.data + f.data =~= packet.take(offset + SLOT_PAYLOAD_SIZE));
    }
    assert(host_extended(a, f) == Some(HostAssembly { data: a.data + f.data, ..a }));
}

proof fn rest_of_packet_is_read(a: HostAssembly, packet: Seq<u8>, offset: nat)
    requires
        a.active,
        a.kind != KIND_IDLE,
        a.total_len == packet.len() < 0x1_0000_0000,
        0 < offset < packet.len(),
        a.data == packet.take(offset as int),
    ensures
        frame_read(a, slots_from(a.kind, a.transfer_id, packet, offset)) == Some(
            (
                parsed_response(a.kind, packet),
                slots_from(a.kind, a.transfer_id, packet, offset).len(),
            ),
        ),
    decreases packet.len() - offset,
{
    let slots = slots_from(a.kind, a.transfer_id, packet, offset);
    let next = (offset + SLOT_PAYLOAD_SIZE) as nat;
    assert(slots[0] == slot_bytes(slot_at(a.kind, a.transfer_id, packet, offset)));
    packet_slot_is_read(a.kind, a.transfer_id, packet, offset);
    next_slot_is_read(a, packet, offset, slots[0]);
    if next < packet.len() {
        let b = HostAssembly { data: packet.take(next as int), ..a };
        assert(slots.drop_first() =~= slots_from(a.kind, a.transfer_id, packet, next));
        rest_of_packet_is_read(b, packet, next);
    }
}

proof fn first_slot_is_read(
    a: HostAssembly,
    kind: u8,
    transfer_id: u16,
    packet: Seq<u8>,
    raw: Seq<u8>,
)
    requires
        read_slot(raw) == Ok::<_, (u8, nat)>(Some(slot_at(kind, transfer_id, packet, 0))),
    ensures
        host_step(a, raw) == if SLOT_PAYLOAD_SIZE >= packet.len() {
            (nothing_received(), packet_outcome(kind, packet))
        } else {
            (
                HostAssembly {
                    active: true,
                    kind,
                    transfer_id,
                    total_len: packet.len(),
                    data: packet.take(SLOT_PAYLOAD_SIZE as int),
                },
                Ok::<_, (u8, nat)>(None),
            )
        },
{
    let f = slot_at(kind, transfer_id, packet, 0);
    assert(is_start(f.flags));
    assert(is_end(f.flags) == (SLOT_PAYLOAD_SIZE >= packet.len()));
    if SLOT_PAYLOAD_SIZE >= packet.len() {
        assert(f.data =~= packet);
    } else {
        assert(f.data =~= packet.take(SLOT_PAYLOAD_SIZE as int));
    }
}

/// A packet that is sent slot by slot is read as what it parses to, a frame or an error, with its
/// last slot.
pub proof fn packet_slots_are_read(
    a: HostAssembly,
    kind: u8,
    transfer_id: u16,
    packet: Seq<u8>,
)
    requires
        kind != KIND_IDLE,
        packet.len() < 0x1_0000_0000,
    ensures
        frame_read(a, packet_slots(kind, transfer_id, packet)) == Some(
            (parsed_response(kind, packet), packet_slots(kind, transfer_id, packet).len()),
        ),
{
    let slots = packet_slots(kind, transfer_id, packet);
    let next = SLOT_PAYLOAD_SIZE as nat;
    packet_slot_is_read(kind, transfer_id, packet, 0);
    assert(slots[0] == slot_bytes(slot_at(kind, transfer_id, packet, 0)));
    first_slot_is_read(a, kind, transfer_id, packet, slots[0]);
    if next < packet.len() {
        let b = host_step(a, slots[0]).0;
        assert(slots.drop_first() =~= slots_from(kind, transfer_id, packet, next));
        rest_of_packet_is_read(b, packet, next);
    }
}

proof fn busy_slots_remain(slots: Seq<Seq<u8>>)
    requires
        slots.len() > 0,
        !is_idle_slot(slots.last()),
    ensures
        busy_slots(slots).len() > 0,
    decreases slots.len(),
{
    if slots.len() > 1 {
        assert(slots.drop_first().last() == slots.last());
        busy_slots_remain(slots.drop_first());
    }
}

proof fn idle_slots_are_passed_over(
    a: HostAssembly,
    slots: Seq<Seq<u8>>,
    rest: Seq<Seq<u8>>,
    result: Result<FrameValue, (u8, nat)>,
)
    requires
        slots.len() > 0,
        !is_idle_slot(slots.last()),
        frame_read(a, busy_slots(slots)) == Some((result, busy_slots(slots).len())),
    ensures
        frame_read(a, slots + rest) == Some((result, slots.len())),
    decreases slots.len(),
{
    let all = slots + rest;
    let tail = slots.drop_first();
    assert(all[0] == slots[0]);
    assert(all.drop_first() =~= tail + rest);
    if slots.len() > 1 {
        assert(tail.last() == slots.last());
        busy_slots_remain(tail);
    }
    if is_idle_slot(slots[0]) {
        idle_slots_are_passed_over(a, tail, rest, result);
    } else {
        let busy = busy_slots(slots);
        assert(busy[0] == slots[0]);
        assert(busy.drop_first() =~= busy_slots(tail));
        if slots.len() > 1 {
            idle_slots_are_passed_over(host_step(a, slots[0]).0, tail, rest, result);
        }
    }
}

/// A packet that is sent slot by slot is read as what it parses to, a frame or an error. Idle slots
/// before and between its slots have no influence, and nothing is read behind its last slot.
pub proof fn packets_are_read_among_idle_slots(
    a: HostAssembly,
    kind: u8,
    transfer_id: u16,
    packet: Seq<u8>,
    slots: Seq<Seq<u8>>,
    rest: Seq<Seq<u8>>,
)
    requires
        kind != KIND_IDLE,
        packet.len() < 0x1_0000_0000,
        busy_slots(slots) == packet_slots(kind, transfer_id, packet),
        slots.len() > 0,
        !is_idle_slot(slots.last()),
    ensures
        frame_read(a, slots + rest) == Some((parsed_response(kind, packet), slots.len())),
{
    packet_slots_are_read(a, kind, transfer_id, packet);
    idle_slots_are_passed_over(a, slots, rest, parsed_response(kind, packet));
}

/// What the device sends arrives at the host unchanged: data as data, command replies and errors as
/// command output.
pub proof fn device_packets_reach_the_host(
    a: HostAssembly,
    kind: u8,
    transfer_id: u16,
    payload: Seq<u8>,
)
    requires
        kind == KIND_DATA || kind == KIND_COMMAND || kind == KIND_ERROR,
        payload.len() <= I2C_PACKET_MAX,
    ensures
        frame_read(a, unsent_slots(freshly_staged(kind, transfer_id, payload))) == Some(
            (
                Ok::<_, (u8, nat)>(
                    if kind == KIND_DATA {
                        FrameValue::Data(payload)
                    } else {
                        FrameValue::Command(payload)
                    },
                ),
                unsent_slots(freshly_staged(kind, transfer_id, payload)).len(),
            ),
        ),
{
    let packet = outgoing_bytes(kind, payload);
    le16_round_trip(payload.len());
    assert(packet.subrange(4, (4 + payload.len()) as int) =~= payload);
    assert(packet[0] == packet_sync(kind).0);
    assert(packet[1] == packet_sync(kind).1);
    packet_slots_are_read(a, kind, transfer_id, packet);
}

/// What the host sends arrives at the device unchanged, whatever unfinished packet was there before,
/// as long as it fits in a device packet and is written without too long a pause.
pub proof fn host_requests_reach_the_device(
    a: Assembly,
    magic: u8,
    transfer_id: u16,
    payload: Seq<u8>,
    times: Seq<u64>,
)
    requires
        magic == REQ_DATA_MAGIC || magic == REQ_COMMAND_MAGIC,
        FRAME_HEADER_SIZE + payload.len() <= I2C_PACKET_MAX,
        times.len() == packet_slots(
            request_kind(magic),
            transfer_id,
            request_bytes(magic, payload),
        ).len(),
        forall|i: int|
            0 <= i < times.len() ==> (#[trigger] times[i]) - times[0] < PARTIAL_PACKET_TIMEOUT_US,
    ensures
        fed(
            a,
            packet_slots(request_kind(magic), transfer_id, request_bytes(magic, payload)),
            times,
        ) == (
            no_assembly(),
            Some(
                SlotOutcome::Complete(
                    request_kind(magic),
                    transfer_id,
                    request_bytes(magic, payload),
                ),
            ),
        ),
        incoming_payload(request_bytes(magic, payload)) == payload,
{
    let packet = request_bytes(magic, payload);
    packet_slots_reassemble(a, request_kind(magic), transfer_id, packet, times);
    frame_bytes_parse_back((packet[0], packet[1]), payload, Seq::empty());
    assert(packet + Seq::<u8>::empty() =~= packet);
}

/// Data in front of the output of a command has no influence, as long as the output comes within the
/// frames that are read.
pub proof fn data_does_not_hide_the_output(
    data: Seq<FrameValue>,
    output: Seq<u8>,
    rest: Seq<FrameValue>,
    left: nat,
)
    requires
        data.len() < left,
        forall|i: int| 0 <= i < data.len() ==> #[trigger] data[i] is Data,
    ensures
        awaited_output(data + seq![FrameValue::Command(output)] + rest, left) == Some(output),
    decreases data.len(),
{
    let frames = data + seq![FrameValue::Command(output)] + rest;
    if data.len() > 0 {
        assert(frames[0] == data[0]);
        assert(frames.drop_first() =~= data.drop_first() + seq![FrameValue::Command(output)] + rest);
        data_does_not_hide_the_output(data.drop_first(), output, rest, (left - 1) as nat);
    }
}

/// Each decision keeps to the output that is awaited: an answer is that output, a further read awaits
/// it among the frames that follow, and the wait ends only without it.
pub proof fn polls_find_the_awaited_output(
    frames: Seq<FrameValue>,
    left: u32,
    r: CommandPoll,
)
    requires
        frames.len() > 0,
        left > 0,
        poll_decided(frames[0], left, r),
    ensures
        match r {
            CommandPoll::Answer(output) => awaited_output(frames, left as nat) == Some(output@),
            CommandPoll::Again(more) => awaited_output(frames, left as nat) == awaited_output(
                frames.drop_first(),
                more as nat,
            ),
            CommandPoll::TimedOut => awaited_output(frames, left as nat) is None,
        },
{
    reveal_with_fuel(awaited_output, 2);
}

/// The whole way of a command: the host writes it, the device answers it, and the host reads the
/// whole text of the reply, whatever either side had left unfinished.
pub proof fn commands_are_answered_across_the_bus(
    a: Assembly,
    h: HostAssembly,
    before: Staged,
    transfer_id: u16,
    payload: Seq<u8>,
    times: Seq<u64>,
    config: BridgeConfig,
    status: BridgeStatus,
)
    requires
        is_local_command(payload),
        FRAME_HEADER_SIZE + payload.len() <= I2C_PACKET_MAX,
        times.len() == packet_slots(
            request_kind(REQ_COMMAND_MAGIC),
            transfer_id,
            request_bytes(REQ_COMMAND_MAGIC, payload),
        ).len(),
        forall|i: int|
            0 <= i < times.len() ==> (#[trigger] times[i]) - times[0] < PARTIAL_PACKET_TIMEOUT_US,
    ensures
        ({
            let slots = packet_slots(
                request_kind(REQ_COMMAND_MAGIC),
                transfer_id,
                request_bytes(REQ_COMMAND_MAGIC, payload),
            );
            fed(a, slots, times).1 matches Some(SlotOutcome::Complete(kind, id, packet)) && {
                let act = packet_action(kind, incoming_payload(packet));
                let staged = staged_after(before, act, nonzero_id(id), config, status);
                &&& id == transfer_id
                &&& staged.transfer_id == nonzero_id(transfer_id)
                &&& frame_read(h, unsent_slots(staged)) == Some(
                    (
                        Ok::<_, (u8, nat)>(
                            FrameValue::Command(
                                encode_utf8(reply_text(config, status, line_text(payload))),
                            ),
                        ),
                        unsent_slots(staged).len(),
                    ),
                )
            }
        }),
{
    host_requests_reach_the_device(a, REQ_COMMAND_MAGIC, transfer_id, payload, times);
    let line = line_text(payload);
    let text = encode_utf8(reply_text(config, status, line));
    replies_fit(config, status, line);
    let id = nonzero_id(transfer_id);
    device_packets_reach_the_host(h, KIND_COMMAND, id, text);
    assert(packet_action(KIND_COMMAND, payload) == PacketAction::Reply(line));
    assert(staged_after(before, PacketAction::Reply(line), id, config, status) == freshly_staged(
        KIND_COMMAND,
        id,
        text,
    ));
}

/// The whole way of data: what the host writes is handed on to the bridge session byte for byte,
/// whatever it reads as, and a command that is no local one is handed on just so.
pub proof fn data_is_forwarded_across_the_bus(
    a: Assembly,
    magic: u8,
    transfer_id: u16,
    payload: Seq<u8>,
    times: Seq<u64>,
)
    requires
        magic == REQ_DATA_MAGIC || (magic == REQ_COMMAND_MAGIC && !is_local_command(payload)),
        payload.len() > 0,
        FRAME_HEADER_SIZE + payload.len() <= I2C_PACKET_MAX,
        times.len() == packet_slots(
            request_kind(magic),
            transfer_id,
            request_bytes(magic, payload),
        ).len(),
        forall|i: int|
            0 <= i < times.len() ==> (#[trigger] times[i]) - times[0] < PARTIAL_PACKET_TIMEOUT_US,
    ensures
        ({
            let slots = packet_slots(
                request_kind(magic),
                transfer_id,
                request_bytes(magic, payload),
            );
            fed(a, slots, times).1 matches Some(SlotOutcome::Complete(kind, id, packet)) && id
                == transfer_id && packet_action(kind, incoming_payload(packet))
                == PacketAction::Forward(payload)
        }),
{
    host_requests_reach_the_device(a, magic, transfer_id, payload, times);
}

/// A request carries its whole payload, up to the limit of the host, under its own kind.
pub proof fn requests_carry_their_payload(payload: Seq<u8>)
    requires
        payload.len() <= PAYLOAD_MAX,
    ensures
        parsed_request(request_bytes(REQ_DATA_MAGIC, payload)) == Some(Request::Data(payload)),
        parsed_request(request_bytes(REQ_COMMAND_MAGIC, payload)) == Some(
            Request::Command(payload),
        ),
        request_kind(REQ_DATA_MAGIC) == KIND_DATA,
        request_kind(REQ_COMMAND_MAGIC) == KIND_COMMAND,
{
    let data = request_bytes(REQ_DATA_MAGIC, payload);
    let command = request_bytes(REQ_COMMAND_MAGIC, payload);
    assert(clipped(payload, PAYLOAD_MAX as nat) =~= payload);
    frame_bytes_parse_back((REQ_DATA_MAGIC, RESP_DATA_MAGIC), payload, Seq::empty());
    frame_bytes_parse_back((REQ_COMMAND_MAGIC, RESP_COMMAND_MAGIC), payload, Seq::empty());
    assert(data + Seq::<u8>::empty() =~= data);
    assert(command + Seq::<u8>::empty() =~= command);
}

/// Whatever the device sends, the host hands out a frame only from a packet whose slots follow each
/// other from its start to its announced length, and begins afresh after a frame or an error.
pub proof fn frames_are_made_of_whole_packets(a: HostAssembly, raw: Seq<u8>)
    ensures
        host_step(a, raw).1 matches Ok(Some(frame)) ==> {
            &&& read_slot(raw) matches Ok(Some(slot))
            &&& is_end(slot.flags)
            &&& host_step(a, raw).0 == nothing_received()
            &&& is_start(slot.flags) ==> slot.data.len() == slot.total_len && parsed_response(
                slot.kind,
                slot.data,
            ) == Ok::<_, (u8, nat)>(frame)
            &&& !is_start(slot.flags) ==> a.active && slot.kind == a.kind && slot.transfer_id
                == a.transfer_id && slot.offset == a.data.len() && a.data.len() + slot.data.len()
                == a.total_len && parsed_response(a.kind, a.data + slot.data) == Ok::<_, (u8, nat)>(
                frame,
            )
        },
        host_step(a, raw).1 is Err ==> host_step(a, raw).0 == nothing_received(),
{
}

/// The device idling changes nothing.
pub proof fn idle_reads_bring_nothing(a: HostAssembly, raw: Seq<u8>)
    requires
        raw.len() == SLOT_SIZE,
        (forall|i: int| 0 <= i < SLOT_SIZE ==> #[trigger] raw[i] == 0x00) || (forall|i: int|
            0 <= i < SLOT_SIZE ==> #[trigger] raw[i] == 0xff) || raw[3] == KIND_IDLE,
    ensures
        host_step(a, raw) == (a, Ok::<Option<FrameValue>, (u8, nat)>(None)),
{
}

/// Without command output among the frames that are read, none is made up.
pub proof fn data_is_no_output(frames: Seq<FrameValue>, left: nat)
    requires
        forall|i: int|
            0 <= i < frames.len() && i < left ==> #[trigger] frames[i] is Data,
    ensures
        awaited_output(frames, left) is None,
    decreases frames.len(),
{
    if frames.len() > 0 && left > 0 {
        assert(frames[0] is Data);
        let rest = frames.drop_first();
        assert forall|i: int| 0 <= i < rest.len() && i < left - 1 implies #[trigger] rest[i]
            is Data by {
            assert(rest[i] == frames[i + 1]);
        }
        data_is_no_output(rest, (left - 1) as nat);
    }
}

/// Two transfers in a row never share an id, an id is never zero, and no two ids are followed by the
/// same one.
pub proof fn transfer_ids_differ(id: u16, other: u16)
    ensures
        following_id(id) != 0,
        following_id(id) != id,
        id != 0 && other != 0 && id != other ==> following_id(id) != following_id(other),
        id < u16::MAX ==> following_id(id) == id + 1,
        following_id(u16::MAX) == 1,
{
}

/// A command line is the command and a line feed, with nothing added to one that has it already.
pub proof fn command_lines_end_once(bytes: Seq<u8>)
    ensures
        ended_line(bytes).last() == 0x0a,
        ended_line(ended_line(bytes)) == ended_line(bytes),
        ended_line(bytes) == bytes || ended_line(bytes).drop_last() == bytes,
        ended_line(bytes).len() <= bytes.len() + 1,
        ended_line(bytes.push(0x0a)) == bytes.push(0x0a),
{
    assert(bytes.push(0x0a).drop_last() =~= bytes);
}

/// A poll hands out data byte for byte, and nothing else. A stream reports what a poll hands out and
/// every command output.
pub proof fn polls_hand_out_all_data(bytes: Seq<u8>)
    ensures
        bytes.len() > 0 ==> handed_out(FrameValue::Data(bytes)) == Some(bytes),
        handed_out(FrameValue::Data(Seq::empty())) is None,
        handed_out(FrameValue::Command(bytes)) is None,
        bytes.len() > 0 ==> is_news(FrameValue::Data(bytes)),
        !is_news(FrameValue::Data(Seq::empty())),
        is_news(FrameValue::Command(bytes)),
{
}

/// A request may carry 4092 bytes, and 50 frames are read in wait for the output of a command.
pub proof fn request_limits()
    ensures
        PAYLOAD_MAX == 4092,
        COMMAND_POLLS == 50,
{
}

/// A packet that carries no sync bytes, is too short for a header or ends before its payload does is
/// refused, with its kind and its length.
pub proof fn broken_packets_are_refused(kind: u8, raw: Seq<u8>, payload: Seq<u8>, keep: int)
    requires
        kind == KIND_DATA || kind == KIND_COMMAND || kind == KIND_ERROR,
        payload.len() <= PAYLOAD_MAX,
        FRAME_HEADER_SIZE <= keep < FRAME_HEADER_SIZE + payload.len(),
    ensures
        raw.len() < 4 ==> parsed_response(kind, raw) == Err::<FrameValue, _>((kind, raw.len())),
        raw.len() >= 4 && !(raw[0] == 0xa5 && raw[1] == 0x5a) && !(raw[0] == 0xa6 && raw[1]
            == 0x5b) ==> parsed_response(kind, raw) == Err::<FrameValue, _>(
            (kind, le16(raw[2], raw[3])),
        ),
        parsed_response(
            kind,
            frame_bytes((REQ_DATA_MAGIC, RESP_DATA_MAGIC), payload).take(keep),
        ) == Err::<FrameValue, _>((RESP_DATA_MAGIC, payload.len())),
{
    le16_round_trip(payload.len());
    let cut = frame_bytes((REQ_DATA_MAGIC, RESP_DATA_MAGIC), payload).take(keep);
    assert(cut[0] == REQ_DATA_MAGIC && cut[1] == RESP_DATA_MAGIC);
    assert(le16(cut[2], cut[3]) == payload.len());
}

} // verus!
