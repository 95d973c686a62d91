//! Slot-based I2C upstream protocol: reassembly, response staging and packet dispatch.

use crate::bridge::commands::is_local_command;
use crate::bridge::commands::led_request;
use crate::bridge::commands::line_text;
use crate::bridge::commands::local_reply;
use crate::bridge::commands::looks_like_local_command;
use crate::bridge::commands::replies_fit;
use crate::bridge::commands::reply_text;
use crate::bridge::commands::requested_led_mode;
use crate::bridge::commands::trim_ascii_line;
use crate::bridge::commands::BridgeStatus;
use crate::bridge::overwrite_queue::items_are_dropped_only_for_room;
use crate::bridge::overwrite_queue::survivors;
use crate::bridge::overwrite_queue::total_weight;
use crate::bridge::overwrite_queue::BoundedDeque;
use crate::bridge::overwrite_queue::OverwriteQueue;
use crate::bridge::overwrite_queue::QueueItem;
use crate::bytes::clipped;
use crate::bytes::min_size;
use crate::bytes::write_at;
use crate::bytes::zeros;
use crate::config::BridgeConfig;
use crate::containers::packet_buffer;
use crate::containers::packet_buffer_extend;
use crate::containers::packet_buffer_new;
use crate::containers::packet_buffer_slice;
use crate::protocol::i2c::build_frame_into;
use crate::protocol::i2c::frame_bytes;
use crate::protocol::i2c::frame_bytes_parse_back;
use crate::protocol::i2c::parse_request_bytes;
use crate::protocol::i2c::parsed_request;
use crate::protocol::i2c::FRAME_HEADER_SIZE;
use crate::protocol::i2c::REQ_COMMAND_MAGIC;
use crate::protocol::i2c::REQ_DATA_MAGIC;
use crate::protocol::i2c::RESP_COMMAND_MAGIC;
use crate::protocol::i2c::RESP_DATA_MAGIC;
use crate::protocol::i2c::Request;
use crate::protocol::i2c::RequestFrame;
use crate::protocol::slot::all_equal;
use crate::protocol::slot::bytes_all_equal;
use crate::protocol::slot::declared_len;
use crate::protocol::slot::encode_slot;
use crate::protocol::slot::flags_of;
use crate::protocol::slot::has_slot_magic;
use crate::protocol::slot::is_end;
use crate::protocol::slot::is_start;
use crate::protocol::slot::read_slot_header;
use crate::protocol::slot::slot_bytes;
use crate::protocol::slot::slot_fields;
use crate::protocol::slot::slot_reads_back;
use crate::protocol::slot::FLAG_END;
use crate::protocol::slot::FLAG_START;
use crate::protocol::slot::KIND_COMMAND;
use crate::protocol::slot::KIND_DATA;
use crate::protocol::slot::KIND_ERROR;
use crate::protocol::slot::KIND_IDLE;
use crate::protocol::slot::SLOT_HEADER_SIZE;
use crate::protocol::slot::SLOT_MAGIC0;
use crate::protocol::slot::SLOT_MAGIC1;
use crate::protocol::slot::SLOT_PAYLOAD_SIZE;
use crate::protocol::slot::SLOT_SIZE;
use crate::protocol::slot::SLOT_VERSION;
use crate::protocol::slot::SlotFields;
use crate::text::as_str192;
use vstd::prelude::*;
use vstd::string::StringSliceAdditionalSpecFns;
use vstd::utf8::encode_utf8;
use vstd::utf8::is_ascii_chars_encode_utf8;

verus! {

/// Number of bytes of the buffer into which the bus is listened to.
pub const LISTEN_BUFFER_SIZE: usize = 64;

/// How long a read waits for a response from the session.
pub const RESPONSE_WAIT_MS: u64 = 20;

/// How long an unfinished packet is kept, in microseconds.
pub const PARTIAL_PACKET_TIMEOUT_US: u64 = 50_000;

/// The most bytes a packet carries.
pub const I2C_PACKET_MAX: usize = 1024;

/// The most bytes of a staged packet: a link header and a full packet.
pub const STAGED_MAX: usize = 1028;

/// Answer to a slot that does not decode or does not continue its packet.
pub const INVALID_SLOT_MSG: &'static str = "error invalid i2c slot";

/// Answer to a packet of unknown kind.
pub const INVALID_KIND_MSG: &'static str = "error invalid i2c frame";

/// Answer to a packet that is too long.
pub const OVERSIZE_MSG: &'static str = "error i2c payload too large";

/// Variable-length message passed between the I2C bus task and bridge session.
pub struct I2cPacket {
    /// Packet kind.
    pub kind: u8,
    /// Packet bytes.
    pub payload: heapless::Vec<u8, 1024>,
}

impl I2cPacket {
    /// The packet's bytes.
    pub open spec fn bytes(&self) -> Seq<u8> {
        packet_buffer(self.payload)
    }

    /// The packet's bytes.
    pub fn as_slice(&self) -> (r: &[u8])
        ensures
            r@ == self.bytes(),
            r@.len() <= I2C_PACKET_MAX,
    {
        packet_buffer_slice(&self.payload)
    }
}

impl QueueItem for I2cPacket {
    open spec fn weight(&self) -> nat {
        self.bytes().len()
    }

    fn queued_len(&self) -> (n: usize) {
        packet_buffer_slice(&self.payload).len()
    }
}

/// Queue of packets between the I2C task and the bridge session.
pub type I2cQueue = OverwriteQueue<I2cPacket, 8, 8192>;

/// The packets held by a queue, oldest first.
pub uninterp spec fn queued_packets(d: heapless::Deque<I2cPacket, 8>) -> Seq<I2cPacket>;

/// `heapless::Deque::<I2cPacket, 8>::new`: the new queue is empty.
#[verifier::external_body]
fn packets_new() -> (d: heapless::Deque<I2cPacket, 8>)
    ensures
        queued_packets(d) == Seq::<I2cPacket>::empty(),
{
    heapless::Deque::new()
}

/// `heapless::Deque::<I2cPacket, 8>::is_full`: whether 8 items are held.
#[verifier::external_body]
fn packets_is_full(d: &heapless::Deque<I2cPacket, 8>) -> (r: bool)
    ensures
        r == (queued_packets(*d).len() >= 8),
{
    d.is_full()
}

/// `heapless::Deque::<I2cPacket, 8>::push_back`: adds an item behind the others, or hands it back when
/// 8 are held.
#[verifier::external_body]
fn packets_push_back(d: &mut heapless::Deque<I2cPacket, 8>, item: I2cPacket) -> (r: Result<(), I2cPacket>)
    ensures
        r is Ok <==> queued_packets(*old(d)).len() < 8,
        r is Ok ==> queued_packets(*final(d)) == queued_packets(*old(d)).push(item),
        r matches Err(back) ==> back == item && queued_packets(*final(d)) == queued_packets(*old(d)),
{
    d.push_back(item)
}

/// `heapless::Deque::<I2cPacket, 8>::pop_front`: removes and returns the oldest item.
#[verifier::external_body]
fn packets_pop_front(d: &mut heapless::Deque<I2cPacket, 8>) -> (r: Option<I2cPacket>)
    ensures
        queued_packets(*old(d)).len() == 0 ==> r is None && queued_packets(*final(d)) == queued_packets(*old(d)),
        queued_packets(*old(d)).len() > 0 ==> r == Some(queued_packets(*old(d))[0]) && queued_packets(*final(d)) == queued_packets(
            *old(d),
        ).drop_first(),
{
    d.pop_front()
}

impl BoundedDeque<I2cPacket> for heapless::Deque<I2cPacket, 8> {
    open spec fn contents(&self) -> Seq<I2cPacket> {
        queued_packets(*self)
    }

    open spec fn capacity() -> nat {
        8
    }

    proof fn capacity_is_positive() {
    }

    fn empty() -> (d: Self) {
        packets_new()
    }

    fn at_capacity(&self) -> (r: bool) {
        packets_is_full(self)
    }

    fn push_last(&mut self, item: I2cPacket) -> (r: Result<(), I2cPacket>) {
        packets_push_back(self, item)
    }

    fn pop_first(&mut self) -> (r: Option<I2cPacket>) {
        packets_pop_front(self)
    }
}

/// Packs bytes into a packet of the given kind. More bytes than a packet carries are refused.
pub fn make_packet(kind: u8, payload: &[u8]) -> (r: Result<I2cPacket, ()>)
    ensures
        r is Ok <==> payload@.len() <= I2C_PACKET_MAX,
        r matches Ok(packet) ==> packet.kind == kind && packet.bytes() == payload@,
{
    let mut data = packet_buffer_new();
    match packet_buffer_extend(&mut data, payload) {
        Ok(()) => {
            assert(packet_buffer(data) == payload@);
            Ok(I2cPacket { kind, payload: data })
        },
        Err(()) => Err(()),
    }
}

/// Whether a queue took in a packet of the given kind and bytes.
pub open spec fn after_packet(
    before: Seq<I2cPacket>,
    after: Seq<I2cPacket>,
    kind: u8,
    bytes: Seq<u8>,
) -> bool {
    exists|packet: I2cPacket|
        packet.kind == kind && #[trigger] packet.bytes() == bytes && after == survivors(
            before,
            bytes.len(),
            8,
            8192,
        ).push(packet)
}

/// Puts bytes into a queue as a packet of the given kind.
pub(crate) fn queue_packet(queue: &mut I2cQueue, kind: u8, payload: &[u8]) -> (r: Result<(), ()>)
    requires
        old(queue).wf(),
    ensures
        final(queue).wf(),
        r is Ok <==> payload@.len() <= I2C_PACKET_MAX,
        r is Ok ==> after_packet(old(queue)@, final(queue)@, kind, payload@),
        r is Err ==> final(queue)@ == old(queue)@,
{
    match make_packet(kind, payload) {
        Ok(packet) => {
            let ghost bytes = packet.bytes();
            let ghost sent = packet;
            let _ = queue.push_overwrite(packet);
            assert(sent.bytes() == bytes);
            Ok(())
        },
        Err(()) => Err(()),
    }
}

/// One decoded slot.
#[derive(Clone, Copy)]
pub struct Slot {
    /// Packet kind.
    pub kind: u8,
    /// Start and end flags.
    pub flags: u8,
    /// Transfer that the slot belongs to.
    pub transfer_id: u16,
    /// Position of the slot's payload in the packet.
    pub offset: usize,
    /// Length of the packet.
    pub total_len: usize,
    /// Number of payload bytes in the slot.
    pub data_len: usize,
    /// The payload, padded with zeros.
    pub data: [u8; SLOT_PAYLOAD_SIZE],
}

impl Slot {
    /// The payload length is within the slot.
    pub open spec fn wf(&self) -> bool {
        self.data_len <= SLOT_PAYLOAD_SIZE
    }

    /// The slot's fields.
    pub open spec fn view(&self) -> SlotFields {
        SlotFields {
            kind: self.kind,
            flags: self.flags,
            transfer_id: self.transfer_id,
            offset: self.offset as nat,
            total_len: self.total_len as nat,
            data: self.data@.take(self.data_len as int),
        }
    }
}

/// The slot in a bus write: nothing when the bus idles, and a message when it does not decode.
pub open spec fn decoded_slot(raw: Seq<u8>) -> Result<Option<SlotFields>, Seq<char>> {
    if raw.len() != SLOT_SIZE {
        Err(INVALID_SLOT_MSG@)
    } else if all_equal(raw, 0x00) || all_equal(raw, 0xff) {
        Ok(None)
    } else if !has_slot_magic(raw) {
        Err(INVALID_SLOT_MSG@)
    } else if raw[3] == KIND_IDLE {
        Ok(None)
    } else if declared_len(raw) > SLOT_PAYLOAD_SIZE {
        Err(INVALID_SLOT_MSG@)
    } else {
        Ok(Some(slot_fields(raw)))
    }
}

/// Decodes a bus write into a slot.
pub fn decode_slot(raw: &[u8]) -> (r: Result<Option<Slot>, &'static str>)
    ensures
        match r {
            Ok(Some(slot)) => {
                &&& slot.wf()
                &&& decoded_slot(raw@) == Ok::<_, Seq<char>>(Some(slot@))
                &&& forall|i: int| slot.data_len <= i < SLOT_PAYLOAD_SIZE ==> slot.data@[i] == 0
            },
            Ok(None) => decoded_slot(raw@) == Ok::<Option<SlotFields>, Seq<char>>(None),
            Err(message) => decoded_slot(raw@) == Err::<Option<SlotFields>, _>(message@),
        },
{
    if raw.len() != SLOT_SIZE {
        return Err(INVALID_SLOT_MSG);
    }
    if bytes_all_equal(raw, 0x00) || bytes_all_equal(raw, 0xff) {
        return Ok(None);
    }
    if raw[0] != SLOT_MAGIC0 || raw[1] != SLOT_MAGIC1 || raw[2] != SLOT_VERSION {
        return Err(INVALID_SLOT_MSG);
    }
    let (kind, flags, transfer_id, offset, total_len, data_len) = read_slot_header(raw);
    if kind == KIND_IDLE {
        return Ok(None);
    }
    if data_len > SLOT_PAYLOAD_SIZE {
        return Err(INVALID_SLOT_MSG);
    }
    let mut data = [0u8; SLOT_PAYLOAD_SIZE];
    write_at(&mut data, 0, &raw[SLOT_HEADER_SIZE..SLOT_HEADER_SIZE + data_len]);
    let slot = Slot { kind, flags, transfer_id, offset, total_len, data_len, data };
    assert(slot@.data =~= slot_fields(raw@).data);
    Ok(Some(slot))
}

/// An unfinished packet.
pub struct Assembly {
    /// Whether a packet was started.
    pub active: bool,
    /// Its kind.
    pub kind: u8,
    /// Its transfer.
    pub transfer_id: u16,
    /// Its length.
    pub total_len: nat,
    /// The bytes received of it.
    pub data: Seq<u8>,
    /// When it was started, in microseconds.
    pub started_at: Option<u64>,
}

/// No packet.
pub open spec fn no_assembly() -> Assembly {
    Assembly {
        active: false,
        kind: KIND_IDLE,
        transfer_id: 0,
        total_len: 0,
        data: Seq::empty(),
        started_at: None,
    }
}

/// What a slot brings.
pub enum SlotOutcome {
    /// The packet is unfinished.
    Pending,
    /// The packet with this kind, transfer and bytes is complete.
    Complete(u8, u16, Seq<u8>),
    /// The slot is refused with a message.
    Refused(Seq<char>),
}

/// Whether an unfinished packet is too old to be continued.
pub open spec fn is_stale(a: Assembly, now_us: u64) -> bool {
    a.active && a.started_at is Some && now_us - a.started_at->0 >= PARTIAL_PACKET_TIMEOUT_US
}

/// The unfinished packet that a slot starts or continues, if it does.
pub open spec fn extended(a: Assembly, slot: SlotFields, now_us: u64) -> Option<Assembly> {
    if is_start(slot.flags) {
        if slot.offset != 0 || slot.data.len() > slot.total_len {
            None
        } else {
            Some(
                Assembly {
                    active: true,
                    kind: slot.kind,
                    transfer_id: slot.transfer_id,
                    total_len: slot.total_len,
                    data: slot.data,
                    started_at: Some(now_us),
                },
            )
        }
    } else if !a.active || is_stale(a, now_us) || slot.kind != a.kind || slot.transfer_id
        != a.transfer_id || slot.offset != a.data.len() || a.data.len() + slot.data.len()
        > a.total_len {
        None
    } else {
        Some(Assembly { data: a.data + slot.data, ..a })
    }
}

/// The unfinished packet after a slot, and what the slot brings.
pub open spec fn assembled(a: Assembly, slot: SlotFields, now_us: u64) -> (Assembly, SlotOutcome) {
    if slot.total_len > I2C_PACKET_MAX {
        (no_assembly(), SlotOutcome::Refused(OVERSIZE_MSG@))
    } else {
        match extended(a, slot, now_us) {
            None => (no_assembly(), SlotOutcome::Refused(INVALID_SLOT_MSG@)),
            Some(b) => if !is_end(slot.flags) {
                (b, SlotOutcome::Pending)
            } else if b.data.len() != b.total_len {
                (no_assembly(), SlotOutcome::Refused(INVALID_SLOT_MSG@))
            } else {
                (no_assembly(), SlotOutcome::Complete(b.kind, b.transfer_id, b.data))
            },
        }
    }
}

/// `embassy_time::Instant::now`, in microseconds since boot. Nothing is claimed of the time it is.
#[verifier::external_body]
fn now_micros() -> u64 {
    embassy_time::Instant::now().as_micros()
}

/// Reassembly of packets that the host writes.
pub struct RxPacketState {
    active: bool,
    kind: u8,
    transfer_id: u16,
    total_len: usize,
    next_offset: usize,
    payload: [u8; I2C_PACKET_MAX],
    started_at: Option<u64>,
}

impl RxPacketState {
    /// The unfinished packet.
    pub closed spec fn view(&self) -> Assembly {
        Assembly {
            active: self.active,
            kind: self.kind,
            transfer_id: self.transfer_id,
            total_len: self.total_len as nat,
            data: self.payload@.take(self.next_offset as int),
            started_at: self.started_at,
        }
    }

    /// The first bytes of the packet buffer.
    pub closed spec fn buffered(&self, len: int) -> Seq<u8> {
        self.payload@.take(len)
    }

    /// What was received is within the packet, and the packet within the buffer.
    pub closed spec fn wf(&self) -> bool {
        &&& self.next_offset <= self.total_len <= I2C_PACKET_MAX
        &&& !self.active ==> self@ == no_assembly()
    }

    /// A well-formed state holds no more than the packet declares, and nothing when it is idle.
    pub proof fn limits_hold(&self)
        requires
            self.wf(),
        ensures
            self@.data.len() <= self@.total_len <= I2C_PACKET_MAX,
            !self@.active ==> self@ == no_assembly(),
    {
    }

    /// Creates an idle state.
    pub fn new() -> (state: Self)
        ensures
            state.wf(),
            state@ == no_assembly(),
    {
        let state = RxPacketState {
            active: false,
            kind: KIND_IDLE,
            transfer_id: 0,
            total_len: 0,
            next_offset: 0,
            payload: [0u8; I2C_PACKET_MAX],
            started_at: None,
        };
        assert(state@.data =~= Seq::<u8>::empty());
        state
    }

    /// Drops the unfinished packet.
    pub fn reset(&mut self)
        ensures
            final(self).wf(),
            final(self)@ == no_assembly(),
    {
        self.payload = [0u8; I2C_PACKET_MAX];
        self.clear();
    }

    fn clear(&mut self)
        ensures
            final(self).wf(),
            final(self)@ == no_assembly(),
            final(self).payload == old(self).payload,
    {
        self.active = false;
        self.kind = KIND_IDLE;
        self.transfer_id = 0;
        self.total_len = 0;
        self.next_offset = 0;
        self.started_at = None;
        assert(self@.data =~= Seq::<u8>::empty());
    }

    /// Drops the unfinished packet when it is too old.
    pub fn reset_if_stale(&mut self, now_us: u64)
        requires
            old(self).wf(),
        ensures
            final(self).wf(),
            final(self)@ == if is_stale(old(self)@, now_us) {
                no_assembly()
            } else {
                old(self)@
            },
    {
        if !self.active {
            return ;
        }
        let stale = match self.started_at {
            Some(started) => now_us.saturating_sub(started) >= PARTIAL_PACKET_TIMEOUT_US,
            None => false,
        };
        if stale {
            self.reset();
        }
    }

    /// Takes in a slot at the given time.
    pub fn push_slot_at(&mut self, slot: Slot, now_us: u64) -> (r: Result<
        Option<(u8, u16, usize)>,
        &'static str,
    >)
        requires
            old(self).wf(),
            slot.wf(),
        ensures
            final(self).wf(),
            final(self)@ == assembled(old(self)@, slot@, now_us).0,
            match r {
                Ok(None) => assembled(old(self)@, slot@, now_us).1 == SlotOutcome::Pending,
                Ok(Some((kind, transfer_id, len))) => {
                    &&& len <= I2C_PACKET_MAX
                    &&& assembled(old(self)@, slot@, now_us).1 == SlotOutcome::Complete(
                        kind,
                        transfer_id,
                        final(self).buffered(len as int),
                    )
                },
                Err(message) => assembled(old(self)@, slot@, now_us).1 == SlotOutcome::Refused(
                    message@,
                ),
            },
    {
        self.reset_if_stale(now_us);
        if slot.total_len > I2C_PACKET_MAX {
            self.reset();
            return Err(OVERSIZE_MSG);
        }
        if slot.flags % 2 == 1 {
            self.reset();
            if slot.offset != 0 || slot.data_len > slot.total_len {
                return Err(INVALID_SLOT_MSG);
            }
            self.active = true;
            self.kind = slot.kind;
            self.transfer_id = slot.transfer_id;
            self.total_len = slot.total_len;
            self.next_offset = slot.data_len;
            self.started_at = Some(now_us);
            write_at(&mut self.payload, 0, &slot.data[0..slot.data_len]);
            assert(self@.data =~= slot@.data);
        } else {
            if !self.active {
                return Err(INVALID_SLOT_MSG);
            }
            if slot.kind != self.kind || slot.transfer_id != self.transfer_id || slot.offset
                != self.next_offset || slot.data_len > self.total_len - self.next_offset {
                self.reset();
                return Err(INVALID_SLOT_MSG);
            }
            let ghost before = self@;
            write_at(&mut self.payload, self.next_offset, &slot.data[0..slot.data_len]);
            self.next_offset = self.next_offset + slot.data_len;
            assert(self@.data =~= before.data + slot@.data);
        }
        if (slot.flags / 2) % 2 == 1 {
            if self.next_offset != self.total_len {
                self.reset();
                return Err(INVALID_SLOT_MSG);
            }
            let result = (self.kind, self.transfer_id, self.total_len);
            let ghost packet = self@;
            self.clear();
            assert(self.buffered(result.2 as int) == packet.data);
            Ok(Some(result))
        } else {
            Ok(None)
        }
    }

    /// Takes in a slot now.
    pub fn push_slot(&mut self, slot: Slot) -> (r: Result<Option<(u8, u16, usize)>, &'static str>)
        requires
            old(self).wf(),
            slot.wf(),
        ensures
            final(self).wf(),
            exists|now_us: u64|
                {
                    &&& final(self)@ == (#[trigger] assembled(old(self)@, slot@, now_us)).0
                    &&& match r {
                        Ok(None) => assembled(old(self)@, slot@, now_us).1 == SlotOutcome::Pending,
                        Ok(Some((kind, transfer_id, len))) => {
                            &&& len <= I2C_PACKET_MAX
                            &&& assembled(old(self)@, slot@, now_us).1 == SlotOutcome::Complete(
                                kind,
                                transfer_id,
                                final(self).buffered(len as int),
                            )
                        },
                        Err(message) => assembled(old(self)@, slot@, now_us).1
                            == SlotOutcome::Refused(message@),
                    }
                },
    {
        let now_us: u64 = now_micros();
        self.push_slot_at(slot, now_us)
    }

    /// The first `len` bytes of the packet buffer.
    pub fn payload(&self, len: usize) -> (r: &[u8])
        requires
            len <= I2C_PACKET_MAX,
        ensures
            r@ == self.buffered(len as int),
    {
        let r = &self.payload[0..len];
        assert(r@ == self.payload@.take(len as int));
        r
    }
}

/// The sync bytes in front of a packet of the given kind: commands and errors go out as command
/// replies, everything else as data.
pub open spec fn packet_sync(kind: u8) -> (u8, u8) {
    if kind == KIND_COMMAND || kind == KIND_ERROR {
        (REQ_COMMAND_MAGIC, RESP_COMMAND_MAGIC)
    } else {
        (REQ_DATA_MAGIC, RESP_DATA_MAGIC)
    }
}

/// The bytes of a packet that goes out: a link header and the payload.
pub open spec fn outgoing_bytes(kind: u8, payload: Seq<u8>) -> Seq<u8> {
    frame_bytes(packet_sync(kind), clipped(payload, I2C_PACKET_MAX as nat))
}

/// The payload of a packet that came in: what is behind its link header, or all of it without one.
pub open spec fn incoming_payload(packet: Seq<u8>) -> Seq<u8> {
    match parsed_request(packet) {
        Some(Request::Data(payload)) => payload,
        Some(Request::Command(payload)) => payload,
        None => packet,
    }
}

/// Finds the payload of a packet that came in.
pub fn strip_link_header(packet: &[u8]) -> (payload: &[u8])
    ensures
        payload@ == incoming_payload(packet@),
{
    match parse_request_bytes(packet) {
        Some(RequestFrame::Data(payload)) => payload,
        Some(RequestFrame::Command(payload)) => payload,
        None => packet,
    }
}

/// The slot of a packet at an offset.
pub open spec fn slot_at(kind: u8, transfer_id: u16, packet: Seq<u8>, offset: nat) -> SlotFields {
    let end = if offset + SLOT_PAYLOAD_SIZE < packet.len() {
        (offset + SLOT_PAYLOAD_SIZE) as nat
    } else {
        packet.len()
    };
    SlotFields {
        kind,
        flags: flags_of(offset == 0, end >= packet.len()),
        transfer_id,
        offset,
        total_len: packet.len(),
        data: packet.subrange(offset as int, end as int),
    }
}

/// The slots of a packet from an offset on.
pub open spec fn slots_from(kind: u8, transfer_id: u16, packet: Seq<u8>, offset: nat) -> Seq<Seq<u8>>
    decreases packet.len() - offset,
{
    let first = seq![slot_bytes(slot_at(kind, transfer_id, packet, offset))];
    if offset + SLOT_PAYLOAD_SIZE >= packet.len() {
        first
    } else {
        first + slots_from(
            kind,
            transfer_id,
            packet,
            (offset + SLOT_PAYLOAD_SIZE) as nat,
        )
    }
}

/// The slots of a packet.
pub open spec fn packet_slots(kind: u8, transfer_id: u16, packet: Seq<u8>) -> Seq<Seq<u8>> {
    slots_from(kind, transfer_id, packet, 0)
}

/// A packet that is going out.
pub struct Staged {
    /// Whether slots are left to send.
    pub active: bool,
    /// Packet kind.
    pub kind: u8,
    /// Transfer.
    pub transfer_id: u16,
    /// All bytes of the packet.
    pub packet: Seq<u8>,
    /// The bytes already sent.
    pub sent: nat,
}

/// No packet going out.
pub open spec fn nothing_staged(transfer_id: u16) -> Staged {
    Staged { active: false, kind: KIND_IDLE, transfer_id, packet: Seq::empty(), sent: 0 }
}

/// A packet about to go out.
pub open spec fn freshly_staged(kind: u8, transfer_id: u16, payload: Seq<u8>) -> Staged {
    Staged { active: true, kind, transfer_id, packet: outgoing_bytes(kind, payload), sent: 0 }
}

/// The slots left to send.
pub open spec fn unsent_slots(s: Staged) -> Seq<Seq<u8>> {
    if s.active {
        slots_from(s.kind, s.transfer_id, s.packet, s.sent)
    } else {
        Seq::empty()
    }
}

/// The outgoing packet after one more slot was taken.
pub open spec fn after_slot(s: Staged) -> Staged {
    if !s.active {
        s
    } else if s.sent + SLOT_PAYLOAD_SIZE >= s.packet.len() {
        nothing_staged(s.transfer_id)
    } else {
        Staged { sent: s.sent + SLOT_PAYLOAD_SIZE as nat, ..s }
    }
}

/// Packets that the host reads.
pub struct TxPacketState {
    active: bool,
    kind: u8,
    transfer_id: u16,
    payload_len: usize,
    next_offset: usize,
    payload: [u8; STAGED_MAX],
}

impl TxPacketState {
    /// The packet that is going out.
    pub closed spec fn view(&self) -> Staged {
        Staged {
            active: self.active,
            kind: self.kind,
            transfer_id: self.transfer_id,
            packet: self.payload@.take(self.payload_len as int),
            sent: self.next_offset as nat,
        }
    }

    /// The packet is within its buffer and something is left of it, or there is none.
    pub closed spec fn wf(&self) -> bool {
        &&& self.payload_len <= STAGED_MAX
        &&& self.active ==> self.next_offset < self.payload_len
        &&& !self.active ==> self@ == nothing_staged(self.transfer_id)
    }

    /// Creates an idle state.
    pub fn new() -> (state: Self)
        ensures
            state.wf(),
            state@ == nothing_staged(1),
    {
        let state = TxPacketState {
            active: false,
            kind: KIND_IDLE,
            transfer_id: 1,
            payload_len: 0,
            next_offset: 0,
            payload: [0u8; STAGED_MAX],
        };
        assert(state@.packet =~= Seq::<u8>::empty());
        state
    }

    /// Drops the packet.
    pub fn reset(&mut self)
        ensures
            final(self).wf(),
            final(self)@ == nothing_staged(old(self)@.transfer_id),
    {
        self.active = false;
        self.kind = KIND_IDLE;
        self.payload_len = 0;
        self.next_offset = 0;
        self.payload = [0u8; STAGED_MAX];
        assert(self@.packet =~= Seq::<u8>::empty());
    }

    /// Stages a packet behind a link header, clipped to what a packet carries.
    pub fn stage(&mut self, kind: u8, transfer_id: u16, payload: &[u8])
        ensures
            final(self).wf(),
            final(self)@ == freshly_staged(kind, transfer_id, payload@),
    {
        self.reset();
        let len: usize = min_size(payload.len(), I2C_PACKET_MAX);
        let magic: u8 = if kind == KIND_COMMAND || kind == KIND_ERROR {
            RESP_COMMAND_MAGIC
        } else {
            RESP_DATA_MAGIC
        };
        let part = &payload[0..len];
        assert(part@ == clipped(payload@, I2C_PACKET_MAX as nat));
        let used = build_frame_into(magic, part, &mut self.payload);
        self.active = true;
        self.kind = kind;
        self.transfer_id = transfer_id;
        self.payload_len = FRAME_HEADER_SIZE + len;
        assert(self@.packet =~= outgoing_bytes(kind, payload@));
    }

    /// Stages an error packet.
    pub fn stage_error(&mut self, transfer_id: u16, message: &str)
        ensures
            final(self).wf(),
            final(self)@ == freshly_staged(KIND_ERROR, transfer_id, message.spec_bytes()),
    {
        self.stage(KIND_ERROR, transfer_id, message.as_bytes());
    }

    /// Stages nothing under a transfer.
    pub fn stage_idle(&mut self, transfer_id: u16)
        ensures
            final(self).wf(),
            final(self)@ == nothing_staged(transfer_id),
    {
        self.transfer_id = transfer_id;
        self.reset();
    }

    /// Stages a packet from the session. A packet of unknown kind becomes an error.
    pub fn stage_bridge_packet(&mut self, transfer_id: u16, packet: I2cPacket)
        ensures
            final(self).wf(),
            final(self)@ == bridge_packet_staged(transfer_id, packet.kind, packet.bytes()),
    {
        match packet.kind {
            KIND_DATA | KIND_COMMAND | KIND_ERROR => self.stage(
                packet.kind,
                transfer_id,
                packet.as_slice(),
            ),
            _ => self.stage_error(transfer_id, INVALID_SLOT_MSG),
        }
    }

    /// Whether slots are left to send.
    pub fn has_pending(&self) -> (r: bool)
        ensures
            r == self@.active,
    {
        self.active
    }

    /// Takes the next slot to send: all zeros when there is none.
    pub fn next_slot_bytes(&mut self) -> (slot: [u8; SLOT_SIZE])
        requires
            old(self).wf(),
        ensures
            final(self).wf(),
            !old(self)@.active ==> slot@ == zeros(SLOT_SIZE as nat) && final(self)@ == old(self)@,
            old(self)@.active ==> slot@ == unsent_slots(old(self)@)[0] && unsent_slots(final(self)@)
                == unsent_slots(old(self)@).drop_first(),
            final(self)@ == after_slot(old(self)@),
    {
        if !self.active {
            let idle = [0u8; SLOT_SIZE];
            assert(idle@ =~= zeros(SLOT_SIZE as nat));
            return idle;
        }
        let ghost before = self@;
        let offset: usize = self.next_offset;
        let end: usize = min_size(offset + SLOT_PAYLOAD_SIZE, self.payload_len);
        let mut flags: u8 = 0;
        if offset == 0 {
            flags = flags + FLAG_START;
        }
        if end >= self.payload_len {
            flags = flags + FLAG_END;
        }
        let data = &self.payload[offset..end];
        assert(data@ =~= before.packet.subrange(offset as int, end as int));
        let slot = encode_slot(
            self.kind,
            flags,
            self.transfer_id,
            offset,
            self.payload_len,
            data,
        );
        assert(flags == flags_of(offset == 0, end >= self.payload_len));
        if end >= self.payload_len {
            self.reset();
            assert(unsent_slots(before).drop_first() =~= Seq::<Seq<u8>>::empty());
        } else {
            self.next_offset = end;
            assert(unsent_slots(before).drop_first() =~= unsent_slots(self@));
        }
        slot
    }
}

/// What a packet from the session stages.
pub open spec fn bridge_packet_staged(transfer_id: u16, kind: u8, payload: Seq<u8>) -> Staged {
    if kind == KIND_DATA || kind == KIND_COMMAND || kind == KIND_ERROR {
        freshly_staged(kind, transfer_id, payload)
    } else {
        freshly_staged(KIND_ERROR, transfer_id, encode_utf8(INVALID_SLOT_MSG@))
    }
}

/// A transfer id that is never zero.
pub open spec fn nonzero_id(value: u16) -> u16 {
    if value == 0 {
        1
    } else {
        value
    }
}

fn nonzero_transfer_id(value: u16) -> (id: u16)
    ensures
        id == nonzero_id(value),
{
    if value == 0 {
        1
    } else {
        value
    }
}

/// What the task does with a complete packet.
pub enum PacketAction {
    /// Nothing.
    Ignore,
    /// Answers a local command.
    Reply(Seq<char>),
    /// Hands the bytes on to the bridge session as data.
    Forward(Seq<u8>),
    /// Answers with an error.
    Refuse(Seq<char>),
}

/// What the task does with a complete packet.
pub open spec fn packet_action(kind: u8, payload: Seq<u8>) -> PacketAction {
    if kind == KIND_COMMAND {
        if is_local_command(payload) {
            PacketAction::Reply(line_text(payload))
        } else if payload.len() <= I2C_PACKET_MAX {
            PacketAction::Forward(payload)
        } else {
            PacketAction::Refuse(OVERSIZE_MSG@)
        }
    } else if kind == KIND_DATA {
        if payload.len() == 0 {
            PacketAction::Ignore
        } else if payload.len() <= I2C_PACKET_MAX {
            PacketAction::Forward(payload)
        } else {
            PacketAction::Refuse(OVERSIZE_MSG@)
        }
    } else {
        PacketAction::Refuse(INVALID_KIND_MSG@)
    }
}

/// What is staged after a packet action.
pub open spec fn staged_after(
    before: Staged,
    act: PacketAction,
    transfer_id: u16,
    config: BridgeConfig,
    status: BridgeStatus,
) -> Staged {
    match act {
        PacketAction::Reply(line) => freshly_staged(
            KIND_COMMAND,
            transfer_id,
            encode_utf8(reply_text(config, status, line)),
        ),
        PacketAction::Refuse(message) => freshly_staged(
            KIND_ERROR,
            transfer_id,
            encode_utf8(message),
        ),
        _ => before,
    }
}

/// Whether a queue is what a packet action makes of it: bytes that are handed on join it as data.
pub open spec fn packets_after(
    act: PacketAction,
    before: Seq<I2cPacket>,
    after: Seq<I2cPacket>,
) -> bool {
    match act {
        PacketAction::Forward(bytes) => after_packet(before, after, KIND_DATA, bytes),
        _ => after == before,
    }
}

/// The LED mode that a packet action asks for.
pub open spec fn packet_led(act: PacketAction) -> Option<u8> {
    match act {
        PacketAction::Reply(line) => requested_led_mode(line),
        _ => None,
    }
}

/// Runs a complete packet: answers local commands and hands data on to the bridge session. Returns
/// the LED mode that a local command asked for.
pub fn process_complete_packet(
    kind: u8,
    transfer_id: u16,
    payload: &[u8],
    bridge_config: &BridgeConfig,
    status: &BridgeStatus,
    tx_packet: &mut TxPacketState,
    tx: &mut I2cQueue,
) -> (led: Option<u8>)
    requires
        old(tx_packet).wf(),
        old(tx).wf(),
    ensures
        final(tx_packet).wf(),
        final(tx).wf(),
        final(tx_packet)@ == staged_after(
            old(tx_packet)@,
            packet_action(kind, payload@),
            nonzero_id(transfer_id),
            *bridge_config,
            *status,
        ),
        packets_after(packet_action(kind, payload@), old(tx)@, final(tx)@),
        led == packet_led(packet_action(kind, payload@)),
{
    let id: u16 = nonzero_transfer_id(transfer_id);
    match kind {
        KIND_COMMAND => {
            if looks_like_local_command(payload) {
                let line = trim_ascii_line(payload);
                let response = local_reply(bridge_config, status, line);
                tx_packet.stage(KIND_COMMAND, id, as_str192(&response).as_bytes());
                return led_request(line);
            }
            if queue_packet(tx, KIND_DATA, payload).is_err() {
                tx_packet.stage_error(id, OVERSIZE_MSG);
            }
        },
        KIND_DATA => {
            if payload.len() != 0 {
                if queue_packet(tx, KIND_DATA, payload).is_err() {
                    tx_packet.stage_error(id, OVERSIZE_MSG);
                }
            }
        },
        _ => tx_packet.stage_error(id, INVALID_KIND_MSG),
    }
    None
}

/// What a bus write brings: nothing, or what its slot brings.
pub open spec fn write_outcome(a: Assembly, raw: Seq<u8>, now_us: u64) -> (
    Assembly,
    Option<SlotOutcome>,
) {
    match decoded_slot(raw) {
        Ok(None) => (a, None),
        Ok(Some(slot)) => (assembled(a, slot, now_us).0, Some(assembled(a, slot, now_us).1)),
        Err(message) => (a, Some(SlotOutcome::Refused(message))),
    }
}

/// The transfer under which errors go out after a bus write: that of the last complete packet.
pub open spec fn id_after_write(outcome: Option<SlotOutcome>, last_id: u16) -> u16 {
    match outcome {
        Some(SlotOutcome::Complete(kind, id, packet)) => nonzero_id(id),
        _ => last_id,
    }
}

/// What is staged after a bus write.
pub open spec fn staged_after_write(
    before: Staged,
    outcome: Option<SlotOutcome>,
    last_id: u16,
    config: BridgeConfig,
    status: BridgeStatus,
) -> Staged {
    match outcome {
        Some(SlotOutcome::Complete(kind, id, packet)) => staged_after(
            before,
            packet_action(kind, incoming_payload(packet)),
            nonzero_id(id),
            config,
            status,
        ),
        Some(SlotOutcome::Refused(message)) => freshly_staged(
            KIND_ERROR,
            last_id,
            encode_utf8(message),
        ),
        _ => before,
    }
}

/// The bytes that a bus write hands on to the bridge session.
pub open spec fn forwarded_by_write(outcome: Option<SlotOutcome>) -> Option<Seq<u8>> {
    match outcome {
        Some(SlotOutcome::Complete(kind, id, packet)) => match packet_action(
            kind,
            incoming_payload(packet),
        ) {
            PacketAction::Forward(bytes) => Some(bytes),
            _ => None,
        },
        _ => None,
    }
}

/// Whether a queue is what a bus write makes of it.
pub open spec fn packets_after_write(
    outcome: Option<SlotOutcome>,
    before: Seq<I2cPacket>,
    after: Seq<I2cPacket>,
) -> bool {
    match forwarded_by_write(outcome) {
        Some(bytes) => after_packet(before, after, KIND_DATA, bytes),
        None => after == before,
    }
}

/// The LED mode that a bus write asks for.
pub open spec fn led_of_write(outcome: Option<SlotOutcome>) -> Option<u8> {
    match outcome {
        Some(SlotOutcome::Complete(kind, id, packet)) => packet_led(
            packet_action(kind, incoming_payload(packet)),
        ),
        _ => None,
    }
}

/// Takes in a bus write: reassembles packets, runs complete ones and stages an error for what does
/// not decode. Returns the LED mode that a local command asked for.
#[allow(clippy::too_many_arguments)]
pub fn handle_write_slot(
    raw: &[u8],
    now_us: u64,
    rx_packet: &mut RxPacketState,
    tx_packet: &mut TxPacketState,
    last_transfer_id: &mut u16,
    bridge_config: &BridgeConfig,
    status: &BridgeStatus,
    tx: &mut I2cQueue,
) -> (led: Option<u8>)
    requires
        old(rx_packet).wf(),
        old(tx_packet).wf(),
        old(tx).wf(),
    ensures
        final(rx_packet).wf(),
        final(tx_packet).wf(),
        final(tx).wf(),
        final(rx_packet)@ == write_outcome(old(rx_packet)@, raw@, now_us).0,
        ({
            let outcome = write_outcome(old(rx_packet)@, raw@, now_us).1;
            &&& *final(last_transfer_id) == id_after_write(outcome, *old(last_transfer_id))
            &&& final(tx_packet)@ == staged_after_write(
                old(tx_packet)@,
                outcome,
                *old(last_transfer_id),
                *bridge_config,
                *status,
            )
            &&& packets_after_write(outcome, old(tx)@, final(tx)@)
            &&& led == led_of_write(outcome)
        }),
{
    match decode_slot(raw) {
        Ok(None) => None,
        Ok(Some(slot)) => match rx_packet.push_slot_at(slot, now_us) {
            Ok(Some((kind, transfer_id, total_len))) => {
                *last_transfer_id = nonzero_transfer_id(transfer_id);
                process_complete_packet(
                    kind,
                    transfer_id,
                    strip_link_header(rx_packet.payload(total_len)),
                    bridge_config,
                    status,
                    tx_packet,
                    tx,
                )
            },
            Ok(None) => None,
            Err(message) => {
                tx_packet.stage_error(*last_transfer_id, message);
                None
            },
        },
        Err(message) => {
            tx_packet.stage_error(*last_transfer_id, message);
            None
        },
    }
}

/// Whether a bus read has to wait for a response: nothing is going out, and nothing is queued.
pub open spec fn must_wait(staged: Staged, responses: Seq<I2cPacket>) -> bool {
    !staged.active && responses.len() == 0
}

/// What a bus read is answered with: the packet that is going out, or else the newest response.
pub open spec fn response_staged(
    staged: Staged,
    responses: Seq<I2cPacket>,
    transfer_id: u16,
) -> Staged {
    if staged.active || responses.len() == 0 {
        staged
    } else {
        bridge_packet_staged(transfer_id, responses.last().kind, responses.last().bytes())
    }
}

/// The responses that stay queued: taking the newest drops the older ones.
pub open spec fn responses_left(staged: Staged, responses: Seq<I2cPacket>) -> Seq<I2cPacket> {
    if staged.active {
        responses
    } else {
        Seq::empty()
    }
}

/// Prepares what a bus read is answered with: a packet that is going out goes on, and otherwise the
/// newest response of the session is staged. Returns whether the read has to wait for a response.
pub fn prepare_response(
    tx_packet: &mut TxPacketState,
    rx_resp: &mut I2cQueue,
    transfer_id: u16,
) -> (wait: bool)
    requires
        old(tx_packet).wf(),
        old(rx_resp).wf(),
    ensures
        final(tx_packet).wf(),
        final(rx_resp).wf(),
        wait == must_wait(old(tx_packet)@, old(rx_resp)@),
        final(tx_packet)@ == response_staged(old(tx_packet)@, old(rx_resp)@, transfer_id),
        final(rx_resp)@ == responses_left(old(tx_packet)@, old(rx_resp)@),
{
    if tx_packet.has_pending() {
        return false;
    }
    match rx_resp.try_pop_latest() {
        Some(resp) => {
            tx_packet.stage_bridge_packet(transfer_id, resp);
            assert(rx_resp@ =~= Seq::<I2cPacket>::empty());
            false
        },
        None => {
            assert(rx_resp@ =~= old(rx_resp)@);
            true
        },
    }
}

/// Ends the wait of a bus read: with the response that came, or with nothing.
pub fn finish_wait(tx_packet: &mut TxPacketState, response: Option<I2cPacket>, transfer_id: u16)
    ensures
        final(tx_packet).wf(),
        final(tx_packet)@ == match response {
            Some(packet) => bridge_packet_staged(transfer_id, packet.kind, packet.bytes()),
            None => nothing_staged(transfer_id),
        },
{
    match response {
        Some(packet) => tx_packet.stage_bridge_packet(transfer_id, packet),
        None => tx_packet.stage_idle(transfer_id),
    }
}

/// Recovers from a bus error: drops what was received and answers with an error.
pub fn recover_i2c_state(
    rx_packet: &mut RxPacketState,
    tx_packet: &mut TxPacketState,
    transfer_id: u16,
)
    ensures
        final(rx_packet).wf(),
        final(tx_packet).wf(),
        final(rx_packet)@ == no_assembly(),
        final(tx_packet)@ == freshly_staged(
            KIND_ERROR,
            transfer_id,
            encode_utf8(INVALID_SLOT_MSG@),
        ),
{
    rx_packet.reset();
    tx_packet.stage_error(transfer_id, INVALID_SLOT_MSG);
}

/// The unfinished packet after a run of bus writes, and what the last of them brings. Each write
/// comes with its time.
pub open spec fn fed(a: Assembly, slots: Seq<Seq<u8>>, times: Seq<u64>) -> (
    Assembly,
    Option<SlotOutcome>,
)
    decreases slots.len(),
{
    if slots.len() == 0 {
        (a, None)
    } else {
        let step = write_outcome(a, slots[0], times[0]);
        if slots.len() == 1 {
            step
        } else {
            fed(step.0, slots.drop_first(), times.drop_first())
        }
    }
}

proof fn slot_of_packet_decodes(kind: u8, transfer_id: u16, packet: Seq<u8>, offset: nat)
    requires
        kind != KIND_IDLE,
        offset <= packet.len() <= STAGED_MAX,
    ensures
        decoded_slot(slot_bytes(slot_at(kind, transfer_id, packet, offset))) == Ok::<_, Seq<char>>(
            Some(slot_at(kind, transfer_id, packet, offset)),
        ),
{
    let f = slot_at(kind, transfer_id, packet, offset);
    slot_reads_back(f);
    let raw = slot_bytes(f);
    assert(slot_fields(raw) == f);
}

proof fn next_slot_extends(
    a: Assembly,
    packet: Seq<u8>,
    offset: nat,
    raw: Seq<u8>,
    now_us: u64,
)
    requires
        decoded_slot(raw) == Ok::<_, Seq<char>>(
            Some(slot_at(a.kind, a.transfer_id, packet, offset)),
        ),
        a.active,
        a.kind != KIND_IDLE,
        a.total_len == packet.len() <= I2C_PACKET_MAX,
        0 < offset < packet.len(),
        a.data == packet.take(offset as int),
        !is_stale(a, now_us),
    ensures
        write_outcome(a, raw, now_us) == if offset + SLOT_PAYLOAD_SIZE >= packet.len() {
            (no_assembly(), Some(SlotOutcome::Complete(a.kind, a.transfer_id, packet)))
        } else {
            (
                Assembly { data: packet.take(offset + SLOT_PAYLOAD_SIZE), ..a },
                Some(SlotOutcome::Pending),
            )
        },
{
    let f = slot_at(a.kind, a.transfer_id, packet, offset);
    let last = offset + SLOT_PAYLOAD_SIZE >= packet.len();
    assert(!is_start(f.flags));
    assert(is_end(f.flags) == last);
    if last {
        assert(a.data + f.data =~= packet);
    } else {
        assert(a.data + f.data =~= packet.take(offset + SLOT_PAYLOAD_SIZE));
    }
    assert(extended(a, f, now_us) == Some(Assembly { data: a.data + f.data, ..a }));
}

proof fn rest_of_packet_reassembles(a: Assembly, packet: Seq<u8>, offset: nat, times: Seq<u64>)
    requires
        a.active,
        a.kind != KIND_IDLE,
        a.total_len == packet.len() <= I2C_PACKET_MAX,
        0 < offset < packet.len(),
        a.data == packet.take(offset as int),
        a.started_at is Some,
        times.len() == slots_from(a.kind, a.transfer_id, packet, offset).len(),
        forall|i: int|
            0 <= i < times.len() ==> (#[trigger] times[i]) - a.started_at->0
                < PARTIAL_PACKET_TIMEOUT_US,
    ensures
        fed(a, slots_from(a.kind, a.transfer_id, packet, offset), times) == (
            no_assembly(),
            Some(SlotOutcome::Complete(a.kind, a.transfer_id, packet)),
        ),
    decreases packet.len() - offset,
{
    let slots = slots_from(a.kind, a.transfer_id, packet, offset);
    let next = (offset + SLOT_PAYLOAD_SIZE) as nat;
    assert(slots[0] == slot_bytes(slot_at(a.kind, a.transfer_id, packet, offset)));
    assert(slots.len() >= 1);
    assert(times[0] - a.started_at->0 < PARTIAL_PACKET_TIMEOUT_US);
    slot_of_packet_decodes(a.kind, a.transfer_id, packet, offset);
    next_slot_extends(a, packet, offset, slots[0], times[0]);
    if next < packet.len() {
        let b = Assembly { data: packet.take(next as int), ..a };
        assert(slots.drop_first() =~= slots_from(a.kind, a.transfer_id, packet, next));
        assert forall|i: int| 0 <= i < times.drop_first().len() implies (
        #[trigger] times.drop_first()[i]) - b.started_at->0 < PARTIAL_PACKET_TIMEOUT_US by {
            assert(times.drop_first()[i] == times[i + 1]);
        }
        rest_of_packet_reassembles(b, packet, next, times.drop_first());
    }
}

proof fn first_slot_starts(
    a: Assembly,
    kind: u8,
    transfer_id: u16,
    packet: Seq<u8>,
    raw: Seq<u8>,
    now_us: u64,
)
    requires
        packet.len() <= I2C_PACKET_MAX,
        decoded_slot(raw) == Ok::<_, Seq<char>>(Some(slot_at(kind, transfer_id, packet, 0))),
    ensures
        write_outcome(a, raw, now_us) == if SLOT_PAYLOAD_SIZE >= packet.len() {
            (no_assembly(), Some(SlotOutcome::Complete(kind, transfer_id, packet)))
        } else {
            (
                Assembly {
                    active: true,
                    kind,
                    transfer_id,
                    total_len: packet.len(),
                    data: packet.take(SLOT_PAYLOAD_SIZE as int),
                    started_at: Some(now_us),
                },
                Some(SlotOutcome::Pending),
            )
        },
{
    let f = slot_at(kind, transfer_id, packet, 0);
    assert(is_start(f.flags));
    assert(is_end(f.flags) == (SLOT_PAYLOAD_SIZE >= packet.len()));
    if SLOT_PAYLOAD_SIZE >= packet.len() {
        assert(f.data =~= packet);
    } else {
        assert(f.data =~= packet.take(SLOT_PAYLOAD_SIZE as int));
    }
}

/// A packet that is cut into slots and written slot by slot, without too long a pause, comes out
/// whole, whatever unfinished packet was there before.
#[verifier::rlimit(40)]
pub proof fn packet_slots_reassemble(
    a: Assembly,
    kind: u8,
    transfer_id: u16,
    packet: Seq<u8>,
    times: Seq<u64>,
)
    requires
        kind != KIND_IDLE,
        packet.len() <= I2C_PACKET_MAX,
        times.len() == packet_slots(kind, transfer_id, packet).len(),
        forall|i: int|
            0 <= i < times.len() ==> (#[trigger] times[i]) - times[0] < PARTIAL_PACKET_TIMEOUT_US,
    ensures
        fed(a, packet_slots(kind, transfer_id, packet), times) == (
            no_assembly(),
            Some(SlotOutcome::Complete(kind, transfer_id, packet)),
        ),
{
    let slots = packet_slots(kind, transfer_id, packet);
    let next = SLOT_PAYLOAD_SIZE as nat;
    slot_of_packet_decodes(kind, transfer_id, packet, 0);
    assert(slots[0] == slot_bytes(slot_at(kind, transfer_id, packet, 0)));
    first_slot_starts(a, kind, transfer_id, packet, slots[0], times[0]);
    if next < packet.len() {
        let b = write_outcome(a, slots[0], times[0]).0;
        assert(slots.drop_first() =~= slots_from(kind, transfer_id, packet, next));
        assert forall|i: int| 0 <= i < times.drop_first().len() implies (
        #[trigger] times.drop_first()[i]) - b.started_at->0 < PARTIAL_PACKET_TIMEOUT_US by {
            assert(times.drop_first()[i] == times[i + 1]);
        }
        rest_of_packet_reassembles(b, packet, next, times.drop_first());
    }
}

/// A slot that continues no packet, or not where it stopped, never completes one.
pub proof fn stray_slots_are_refused(a: Assembly, slot: SlotFields, now_us: u64)
    requires
        !is_start(slot.flags),
        !a.active || is_stale(a, now_us) || slot.kind != a.kind || slot.transfer_id
            != a.transfer_id || slot.offset != a.data.len(),
    ensures
        assembled(a, slot, now_us).0 == no_assembly(),
        assembled(a, slot, now_us).1 is Refused,
{
}

/// The payload of a packet with a link header comes out unchanged.
pub proof fn link_header_is_stripped(kind: u8, payload: Seq<u8>)
    requires
        payload.len() <= I2C_PACKET_MAX,
    ensures
        incoming_payload(outgoing_bytes(kind, payload)) == payload,
{
    let packet = outgoing_bytes(kind, payload);
    frame_bytes_parse_back(packet_sync(kind), payload, Seq::empty());
    assert(packet + Seq::<u8>::empty() =~= packet);
}

/// A queue holds at most 8 items and 8192 bytes.
pub proof fn i2c_queue_limits(queue: &I2cQueue)
    requires
        queue.wf(),
    ensures
        I2cQueue::depth() == 8,
        queue@.len() <= 8,
        total_weight(queue@) <= 8192,
{
    queue.limits_hold();
}

/// A data packet goes on to the bridge session byte for byte, whatever it reads as. An empty one is
/// left out.
pub proof fn data_packets_are_forwarded(payload: Seq<u8>)
    requires
        payload.len() <= I2C_PACKET_MAX,
    ensures
        payload.len() > 0 ==> packet_action(KIND_DATA, payload) == PacketAction::Forward(payload),
        payload.len() == 0 ==> packet_action(KIND_DATA, payload) is Ignore,
{
}

/// Only command packets are answered locally, and only those that start with a slash: what is handed
/// on is the whole payload, and a packet of any other kind is refused.
pub proof fn only_commands_are_answered(kind: u8, payload: Seq<u8>)
    ensures
        packet_action(kind, payload) is Reply ==> kind == KIND_COMMAND && payload.len() > 0
            && payload[0] == 0x2f,
        packet_action(kind, payload) matches PacketAction::Forward(bytes) ==> bytes == payload && (
        kind == KIND_DATA || kind == KIND_COMMAND),
        kind != KIND_DATA && kind != KIND_COMMAND ==> packet_action(kind, payload) is Refuse,
        packet_action(kind, payload) is Ignore ==> kind == KIND_DATA && payload.len() == 0,
{
}

/// A command packet that reads as a local command is answered with what its line asks for, and any
/// other goes on to the bridge session byte for byte.
pub proof fn command_packets_are_answered_or_forwarded(payload: Seq<u8>)
    requires
        payload.len() <= I2C_PACKET_MAX,
    ensures
        is_local_command(payload) ==> packet_action(KIND_COMMAND, payload) == PacketAction::Reply(
            line_text(payload),
        ),
        !is_local_command(payload) ==> packet_action(KIND_COMMAND, payload)
            == PacketAction::Forward(payload),
{
}

/// A staged packet carries its whole payload behind a link header that says what it is.
pub proof fn staged_packet_parses_back(kind: u8, transfer_id: u16, payload: Seq<u8>)
    requires
        payload.len() <= I2C_PACKET_MAX,
    ensures
        ({
            let staged = freshly_staged(kind, transfer_id, payload);
            &&& staged.active
            &&& staged.sent == 0
            &&& staged.kind == kind
            &&& staged.transfer_id == transfer_id
            &&& staged.packet.len() == FRAME_HEADER_SIZE + payload.len()
            &&& kind == KIND_DATA ==> parsed_request(staged.packet) == Some(Request::Data(payload))
            &&& kind == KIND_COMMAND || kind == KIND_ERROR ==> parsed_request(staged.packet)
                == Some(Request::Command(payload))
            &&& unsent_slots(staged) == packet_slots(kind, transfer_id, staged.packet)
        }),
{
    let packet = outgoing_bytes(kind, payload);
    assert(clipped(payload, I2C_PACKET_MAX as nat) =~= payload);
    frame_bytes_parse_back(packet_sync(kind), payload, Seq::empty());
    assert(packet + Seq::<u8>::empty() =~= packet);
}

/// The reply to a local command is staged with its whole text, under the transfer of the command.
pub proof fn replies_are_staged_in_full(
    before: Staged,
    line: Seq<char>,
    transfer_id: u16,
    config: BridgeConfig,
    status: BridgeStatus,
)
    ensures
        ({
            let staged = staged_after(
                before,
                PacketAction::Reply(line),
                transfer_id,
                config,
                status,
            );
            &&& staged.active
            &&& staged.sent == 0
            &&& staged.kind == KIND_COMMAND
            &&& staged.transfer_id == transfer_id
            &&& parsed_request(staged.packet) == Some(
                Request::Command(encode_utf8(reply_text(config, status, line))),
            )
        }),
{
    replies_fit(config, status, line);
    staged_packet_parses_back(
        KIND_COMMAND,
        transfer_id,
        encode_utf8(reply_text(config, status, line)),
    );
}

/// A refusal is staged as an error with its whole message, and what is handed on or left out leaves
/// the packet that is going out alone.
pub proof fn refusals_are_staged_in_full(
    before: Staged,
    kind: u8,
    payload: Seq<u8>,
    transfer_id: u16,
    config: BridgeConfig,
    status: BridgeStatus,
)
    ensures
        ({
            let act = packet_action(kind, payload);
            let staged = staged_after(before, act, transfer_id, config, status);
            &&& act is Forward || act is Ignore ==> staged == before
            &&& act is Refuse ==> {
                let message = if kind == KIND_DATA || kind == KIND_COMMAND {
                    "error i2c payload too large"@
                } else {
                    "error invalid i2c frame"@
                };
                &&& staged.active
                &&& staged.sent == 0
                &&& staged.kind == KIND_ERROR
                &&& staged.transfer_id == transfer_id
                &&& parsed_request(staged.packet) == Some(Request::Command(encode_utf8(message)))
            }
        }),
{
    reveal_strlit("error i2c payload too large");
    reveal_strlit("error invalid i2c frame");
    let long = "error i2c payload too large"@;
    let odd = "error invalid i2c frame"@;
    is_ascii_chars_encode_utf8(long);
    is_ascii_chars_encode_utf8(odd);
    staged_packet_parses_back(KIND_ERROR, transfer_id, encode_utf8(long));
    staged_packet_parses_back(KIND_ERROR, transfer_id, encode_utf8(odd));
}

/// A response of the session is staged byte for byte under its own kind, and one of unknown kind as
/// an error.
pub proof fn session_responses_are_staged_unchanged(transfer_id: u16, kind: u8, payload: Seq<u8>)
    requires
        payload.len() <= I2C_PACKET_MAX,
    ensures
        ({
            let staged = bridge_packet_staged(transfer_id, kind, payload);
            &&& staged.active
            &&& staged.sent == 0
            &&& staged.transfer_id == transfer_id
            &&& kind == KIND_DATA ==> staged.kind == KIND_DATA && parsed_request(staged.packet)
                == Some(Request::Data(payload))
            &&& kind == KIND_COMMAND || kind == KIND_ERROR ==> staged.kind == kind
                && parsed_request(staged.packet) == Some(Request::Command(payload))
            &&& kind != KIND_DATA && kind != KIND_COMMAND ==> staged.kind == KIND_ERROR
            &&& kind != KIND_DATA && kind != KIND_COMMAND && kind != KIND_ERROR ==> parsed_request(
                staged.packet,
            ) == Some(Request::Command(encode_utf8("error invalid i2c slot"@)))
        }),
{
    let message = "error invalid i2c slot"@;
    reveal_strlit("error invalid i2c slot");
    is_ascii_chars_encode_utf8(message);
    staged_packet_parses_back(KIND_ERROR, transfer_id, encode_utf8(message));
    staged_packet_parses_back(kind, transfer_id, payload);
}

/// A packet that is handed on becomes the newest of the queue, under its kind and with its bytes.
/// The ones in front of it stay as long as the limits of the queue allow it.
pub proof fn forwarded_packet_is_queued(
    before: Seq<I2cPacket>,
    after: Seq<I2cPacket>,
    kind: u8,
    bytes: Seq<u8>,
)
    requires
        after_packet(before, after, kind, bytes),
        bytes.len() <= I2C_PACKET_MAX,
    ensures
        after.len() > 0,
        after.last().kind == kind,
        after.last().bytes() == bytes,
        before.len() < 8 && total_weight(before) + bytes.len() <= 8192 ==> after.drop_last()
            == before,
        after.drop_last() == before.skip(before.len() + 1 - after.len()),
        after.len() <= 8,
{
    items_are_dropped_only_for_room(before, bytes.len(), 8, 8192);
    crate::bridge::overwrite_queue::survivors_are_the_longest_fitting_suffix(
        before,
        bytes.len(),
        8,
        8192,
    );
    let kept = survivors(before, bytes.len(), 8, 8192);
    let packet = choose|packet: I2cPacket|
        packet.kind == kind && #[trigger] packet.bytes() == bytes && after == kept.push(packet);
    assert(after.drop_last() =~= kept);
    assert(after.last() == packet);
}

/// A slot that comes too late continues nothing.
pub proof fn late_slots_are_refused(a: Assembly, slot: SlotFields, start: u64, now_us: u64)
    requires
        a.active,
        a.started_at == Some(start),
        now_us >= start + 50_000,
        !is_start(slot.flags),
    ensures
        assembled(a, slot, now_us).0 == no_assembly(),
        assembled(a, slot, now_us).1 is Refused,
{
}

/// A packet that announces more than a packet may carry is refused at its first slot.
pub proof fn oversized_packets_are_refused(a: Assembly, slot: SlotFields, now_us: u64)
    requires
        slot.total_len > 1024,
    ensures
        assembled(a, slot, now_us) == (
            no_assembly(),
            SlotOutcome::Refused("error i2c payload too large"@),
        ),
{
}

/// A packet that ends before its announced length is refused, and so is one that goes beyond it.
pub proof fn packets_have_their_announced_length(a: Assembly, slot: SlotFields, now_us: u64)
    requires
        a.total_len <= I2C_PACKET_MAX,
    ensures
        assembled(a, slot, now_us).1 matches SlotOutcome::Complete(kind, id, packet) ==> {
            &&& kind == slot.kind
            &&& id == slot.transfer_id
            &&& packet.len() <= I2C_PACKET_MAX
            &&& packet.len() == slot.offset + slot.data.len()
            &&& packet.skip(slot.offset as int) == slot.data
            &&& is_start(slot.flags) ==> packet == slot.data && packet.len() == slot.total_len
            &&& !is_start(slot.flags) ==> packet.take(slot.offset as int) == a.data && packet.len()
                == a.total_len
        },
{
    if let SlotOutcome::Complete(kind, id, packet) = assembled(a, slot, now_us).1 {
        if is_start(slot.flags) {
            assert(packet.skip(0) =~= packet);
        } else {
            assert(packet == a.data + slot.data);
            assert(packet.skip(a.data.len() as int) =~= slot.data);
            assert(packet.take(a.data.len() as int) =~= a.data);
        }
    }
}

/// An idle bus and idle slots bring nothing, and change nothing.
pub proof fn idle_writes_bring_nothing(a: Assembly, raw: Seq<u8>, now_us: u64)
    requires
        raw.len() == SLOT_SIZE,
        (forall|i: int| 0 <= i < SLOT_SIZE ==> #[trigger] raw[i] == 0x00) || (forall|i: int|
            0 <= i < SLOT_SIZE ==> #[trigger] raw[i] == 0xff) || (has_slot_magic(raw) && raw[3]
            == KIND_IDLE),
    ensures
        write_outcome(a, raw, now_us) == (a, None::<SlotOutcome>),
{
}

/// A write of another length than a slot's is refused, without harm to the unfinished packet.
pub proof fn odd_writes_are_refused(a: Assembly, raw: Seq<u8>, now_us: u64)
    requires
        raw.len() != SLOT_SIZE,
    ensures
        write_outcome(a, raw, now_us) == (
            a,
            Some(SlotOutcome::Refused("error invalid i2c slot"@)),
        ),
{
}

/// Replies go out under the transfer of their request, or under 1 where that is 0.
pub proof fn transfer_ids_are_kept(value: u16)
    ensures
        value != 0 ==> nonzero_id(value) == value,
        nonzero_id(0) == 1,
{
}

/// A packet that is going out is never interrupted, and no response is lost to it. Otherwise the host
/// gets the newest response of the session byte for byte, under the transfer it asked with.
pub proof fn newest_response_goes_out_next(
    staged: Staged,
    responses: Seq<I2cPacket>,
    newest: I2cPacket,
    transfer_id: u16,
)
    requires
        newest.bytes().len() <= I2C_PACKET_MAX,
        newest.kind == KIND_DATA || newest.kind == KIND_COMMAND || newest.kind == KIND_ERROR,
    ensures
        ({
            let queued = responses.push(newest);
            let next = response_staged(staged, queued, transfer_id);
            &&& !must_wait(staged, queued)
            &&& staged.active ==> next == staged && responses_left(staged, queued) == queued
            &&& !staged.active ==> {
                &&& next.active
                &&& next.sent == 0
                &&& next.kind == newest.kind
                &&& next.transfer_id == transfer_id
                &&& parsed_request(next.packet) == Some(
                    if newest.kind == KIND_DATA {
                        Request::Data(newest.bytes())
                    } else {
                        Request::Command(newest.bytes())
                    },
                )
                &&& responses_left(staged, queued).len() == 0
            }
            &&& must_wait(staged, Seq::empty()) <==> !staged.active
            &&& response_staged(staged, Seq::empty(), transfer_id) == staged
        }),
{
    session_responses_are_staged_unchanged(transfer_id, newest.kind, newest.bytes());
}

/// Each slot that is taken moves a packet on by one slot until none is left, and taking a slot of
/// nothing changes nothing.
pub proof fn taken_slots_move_the_packet_on(s: Staged)
    requires
        s.active ==> s.sent < s.packet.len(),
    ensures
        s.active ==> unsent_slots(s).len() > 0 && unsent_slots(after_slot(s)) == unsent_slots(
            s,
        ).drop_first(),
        !s.active ==> after_slot(s) == s && unsent_slots(s).len() == 0,
        after_slot(s).transfer_id == s.transfer_id,
        after_slot(s).active ==> after_slot(s).kind == s.kind && after_slot(s).packet == s.packet
            && after_slot(s).sent == s.sent + SLOT_PAYLOAD_SIZE,
{
    if s.active {
        if s.sent + SLOT_PAYLOAD_SIZE >= s.packet.len() {
            assert(unsent_slots(s).drop_first() =~= Seq::<Seq<u8>>::empty());
        } else {
            assert(unsent_slots(s).drop_first() =~= slots_from(
                s.kind,
                s.transfer_id,
                s.packet,
                (s.sent + SLOT_PAYLOAD_SIZE) as nat,
            ));
        }
    }
}

/// Only a local command can change the LED, and it changes it as its line asks.
pub proof fn only_local_commands_change_the_led(kind: u8, payload: Seq<u8>)
    ensures
        kind == KIND_COMMAND && is_local_command(payload) ==> packet_led(
            packet_action(kind, payload),
        ) == requested_led_mode(line_text(payload)),
        kind != KIND_COMMAND || !is_local_command(payload) ==> packet_led(
            packet_action(kind, payload),
        ) is None,
{
}

/// A packet may carry 1024 bytes and take 50 milliseconds.
pub proof fn packet_limits()
    ensures
        I2C_PACKET_MAX == 1024,
        STAGED_MAX == I2C_PACKET_MAX + 4,
        PARTIAL_PACKET_TIMEOUT_US == 50_000,
        SLOT_SIZE == 32,
        SLOT_PAYLOAD_SIZE == 14,
{
}

/// A packet without a link header is its own payload.
pub proof fn bare_packets_are_their_own_payload(packet: Seq<u8>)
    requires
        packet.len() < 4 || !((packet[0] == 0xa5 && packet[1] == 0x5a) || (packet[0] == 0x5a
            && packet[1] == 0xa5) || (packet[0] == 0xa6 && packet[1] == 0x5b) || (packet[0] == 0x5b
            && packet[1] == 0xa6)),
    ensures
        incoming_payload(packet) == packet,
{
}

/// A data packet that was written as a whole goes on to the bridge session byte for byte, with or
/// without a link header, and leaves what is going out and the LED alone.
pub proof fn written_data_is_forwarded(
    before: Staged,
    id: u16,
    payload: Seq<u8>,
    last_id: u16,
    config: BridgeConfig,
    status: BridgeStatus,
)
    requires
        0 < payload.len(),
        4 + payload.len() <= I2C_PACKET_MAX,
    ensures
        ({
            let packet = frame_bytes((REQ_DATA_MAGIC, RESP_DATA_MAGIC), payload);
            let outcome = Some(SlotOutcome::Complete(KIND_DATA, id, packet));
            &&& forwarded_by_write(outcome) == Some(payload)
            &&& staged_after_write(before, outcome, last_id, config, status) == before
            &&& led_of_write(outcome) is None
        }),
        parsed_request(payload) is None ==> forwarded_by_write(
            Some(SlotOutcome::Complete(KIND_DATA, id, payload)),
        ) == Some(payload),
{
    let packet = frame_bytes((REQ_DATA_MAGIC, RESP_DATA_MAGIC), payload);
    frame_bytes_parse_back((REQ_DATA_MAGIC, RESP_DATA_MAGIC), payload, Seq::empty());
    assert(packet + Seq::<u8>::empty() =~= packet);
}

/// A local command that was written as a whole is answered with the whole text of its reply under
/// its own transfer, and nothing is handed on.
pub proof fn written_commands_are_answered(
    before: Staged,
    id: u16,
    payload: Seq<u8>,
    last_id: u16,
    config: BridgeConfig,
    status: BridgeStatus,
)
    requires
        is_local_command(payload),
        4 + payload.len() <= I2C_PACKET_MAX,
    ensures
        ({
            let packet = frame_bytes((REQ_COMMAND_MAGIC, RESP_COMMAND_MAGIC), payload);
            let outcome = Some(SlotOutcome::Complete(KIND_COMMAND, id, packet));
            let staged = staged_after_write(before, outcome, last_id, config, status);
            &&& forwarded_by_write(outcome) is None
            &&& led_of_write(outcome) == requested_led_mode(line_text(payload))
            &&& id_after_write(outcome, last_id) == nonzero_id(id)
            &&& staged.active && staged.sent == 0 && staged.kind == KIND_COMMAND
            &&& staged.transfer_id == nonzero_id(id)
            &&& parsed_request(staged.packet) == Some(
                Request::Command(encode_utf8(reply_text(config, status, line_text(payload)))),
            )
        }),
{
    let packet = frame_bytes((REQ_COMMAND_MAGIC, RESP_COMMAND_MAGIC), payload);
    frame_bytes_parse_back((REQ_COMMAND_MAGIC, RESP_COMMAND_MAGIC), payload, Seq::empty());
    assert(packet + Seq::<u8>::empty() =~= packet);
    replies_are_staged_in_full(before, line_text(payload), nonzero_id(id), config, status);
}

/// A refused slot is answered with its whole message under the last transfer, and changes nothing
/// else. A slot that leaves its packet unfinished changes nothing at all.
pub proof fn refused_slots_are_answered(
    before: Staged,
    message: Seq<char>,
    last_id: u16,
    config: BridgeConfig,
    status: BridgeStatus,
)
    requires
        encode_utf8(message).len() <= I2C_PACKET_MAX,
    ensures
        ({
            let outcome = Some(SlotOutcome::Refused(message));
            let staged = staged_after_write(before, outcome, last_id, config, status);
            &&& staged.active && staged.sent == 0 && staged.kind == KIND_ERROR
            &&& staged.transfer_id == last_id
            &&& parsed_request(staged.packet) == Some(Request::Command(encode_utf8(message)))
            &&& id_after_write(outcome, last_id) == last_id
            &&& forwarded_by_write(outcome) is None
            &&& led_of_write(outcome) is None
        }),
        ({
            let outcome = Some(SlotOutcome::Pending);
            &&& staged_after_write(before, outcome, last_id, config, status) == before
            &&& id_after_write(outcome, last_id) == last_id
            &&& forwarded_by_write(outcome) is None
            &&& led_of_write(outcome) is None
        }),
        staged_after_write(before, None, last_id, config, status) == before,
        forwarded_by_write(None) is None,
        led_of_write(None) is None,
        id_after_write(None, last_id) == last_id,
{
    staged_packet_parses_back(KIND_ERROR, last_id, encode_utf8(message));
}

/// A slot with another magic or version, or with more payload than a slot has, is refused without
/// harm to the unfinished packet.
pub proof fn foreign_slots_are_refused(a: Assembly, raw: Seq<u8>, now_us: u64, at: int)
    requires
        raw.len() == SLOT_SIZE,
        0 <= at < SLOT_SIZE,
        raw[0] != raw[at],
        raw[3] != KIND_IDLE || raw[0] != 0x49 || raw[1] != 0x32 || raw[2] != 1,
        raw[0] != 0x49 || raw[1] != 0x32 || raw[2] != 1 || raw[14] + 256 * raw[15] > 14,
    ensures
        write_outcome(a, raw, now_us) == (
            a,
            Some(SlotOutcome::Refused("error invalid i2c slot"@)),
        ),
{
}

/// The session gets a data packet byte for byte, as the newest in its queue and with the older ones
/// in front of it while there is room. Nothing else reaches the session.
pub proof fn session_gets_the_data(
    payload: Seq<u8>,
    kind: u8,
    before: Seq<I2cPacket>,
    after: Seq<I2cPacket>,
)
    requires
        packets_after(packet_action(kind, payload), before, after),
    ensures
        kind == KIND_DATA && 0 < payload.len() <= I2C_PACKET_MAX ==> {
            &&& after.len() > 0
            &&& after.last().kind == KIND_DATA
            &&& after.last().bytes() == payload
            &&& before.len() < 8 && total_weight(before) + payload.len() <= 8192
                ==> after.drop_last() == before
        },
        kind != KIND_DATA && kind != KIND_COMMAND ==> after == before,
        kind == KIND_COMMAND && is_local_command(payload) ==> after == before,
{
    if kind == KIND_DATA && 0 < payload.len() <= I2C_PACKET_MAX {
        forwarded_packet_is_queued(before, after, KIND_DATA, payload);
    }
}

/// The same holds of what a bus write completes.
pub proof fn session_gets_what_is_written(
    id: u16,
    payload: Seq<u8>,
    before: Seq<I2cPacket>,
    after: Seq<I2cPacket>,
)
    requires
        0 < payload.len(),
        4 + payload.len() <= I2C_PACKET_MAX,
        packets_after_write(
            Some(
                SlotOutcome::Complete(
                    KIND_DATA,
                    id,
                    frame_bytes((REQ_DATA_MAGIC, RESP_DATA_MAGIC), payload),
                ),
            ),
            before,
            after,
        ),
    ensures
        after.len() > 0,
        after.last().kind == KIND_DATA,
        after.last().bytes() == payload,
{
    let packet = frame_bytes((REQ_DATA_MAGIC, RESP_DATA_MAGIC), payload);
    frame_bytes_parse_back((REQ_DATA_MAGIC, RESP_DATA_MAGIC), payload, Seq::empty());
    assert(packet + Seq::<u8>::empty() =~= packet);
    forwarded_packet_is_queued(before, after, KIND_DATA, payload);
}

} // verus!
