//! Fixed-size slots that carry logical I2C packets piece by piece.

use crate::bytes::high_byte;
use crate::bytes::le16;
use crate::bytes::le16_round_trip;
use crate::bytes::le32;
use crate::bytes::le32_round_trip;
use crate::bytes::le_bytes32;
use crate::bytes::low_byte;
use crate::bytes::read_le16;
use crate::bytes::read_le32;
use crate::bytes::write_at;
use crate::bytes::zero_padded;
use vstd::prelude::*;

verus! {

/// Number of bytes in one slot.
pub const SLOT_SIZE: usize = 32;

/// Number of bytes in front of a slot's payload.
pub const SLOT_HEADER_SIZE: usize = 18;

/// Number of payload bytes that one slot carries.
pub const SLOT_PAYLOAD_SIZE: usize = SLOT_SIZE - SLOT_HEADER_SIZE;

/// First byte of every slot.
pub const SLOT_MAGIC0: u8 = 0x49;

/// Second byte of every slot.
pub const SLOT_MAGIC1: u8 = 0x32;

/// Version of the slot format.
pub const SLOT_VERSION: u8 = 1;

/// Nothing to transfer.
pub const KIND_IDLE: u8 = 0x00;

/// Bridged data.
pub const KIND_DATA: u8 = 0x01;

/// Local commands and their replies.
pub const KIND_COMMAND: u8 = 0x02;

/// Protocol or parsing errors.
pub const KIND_ERROR: u8 = 0x7F;

/// Marks the first slot of a packet.
pub const FLAG_START: u8 = 0x01;

/// Marks the last slot of a packet.
pub const FLAG_END: u8 = 0x02;

/// The fields of a slot as mathematical values.
pub struct SlotFields {
    /// Packet kind.
    pub kind: u8,
    /// Start and end flags.
    pub flags: u8,
    /// Transfer that the slot belongs to.
    pub transfer_id: u16,
    /// Position of the slot's payload in the packet.
    pub offset: nat,
    /// Length of the packet.
    pub total_len: nat,
    /// The slot's payload.
    pub data: Seq<u8>,
}

/// Whether the start flag is set.
pub open spec fn is_start(flags: u8) -> bool {
    flags % 2 == 1
}

/// Whether the end flag is set.
pub open spec fn is_end(flags: u8) -> bool {
    (flags / 2) % 2 == 1
}

/// The flags of a slot.
pub open spec fn flags_of(start: bool, end: bool) -> u8 {
    ((if start {
        1int
    } else {
        0
    }) + (if end {
        2int
    } else {
        0
    })) as u8
}

/// A size reduced to 32 bits.
pub open spec fn wrapped32(size: nat) -> u32 {
    (size % 0x1_0000_0000) as u32
}

/// The bytes of a slot.
pub open spec fn slot_bytes(f: SlotFields) -> Seq<u8> {
    zero_padded(
        seq![SLOT_MAGIC0, SLOT_MAGIC1, SLOT_VERSION, f.kind, f.flags, 0u8] + le_bytes32(
            wrapped32(f.offset),
        ) + le_bytes32(wrapped32(f.total_len)) + seq![
            low_byte(f.data.len()),
            high_byte(f.data.len()),
            low_byte(f.transfer_id as nat),
            high_byte(f.transfer_id as nat),
        ] + f.data,
        SLOT_SIZE as nat,
    )
}

/// The payload length that a slot declares.
pub open spec fn declared_len(raw: Seq<u8>) -> nat {
    le16(raw[14], raw[15])
}

/// The fields that a slot declares.
pub open spec fn slot_fields(raw: Seq<u8>) -> SlotFields {
    SlotFields {
        kind: raw[3],
        flags: raw[4],
        transfer_id: le16(raw[16], raw[17]) as u16,
        offset: le32(raw[6], raw[7], raw[8], raw[9]),
        total_len: le32(raw[10], raw[11], raw[12], raw[13]),
        data: raw.subrange(SLOT_HEADER_SIZE as int, SLOT_HEADER_SIZE + declared_len(raw)),
    }
}

/// Whether all bytes have one value.
pub open spec fn all_equal(raw: Seq<u8>, value: u8) -> bool {
    forall|i: int| 0 <= i < raw.len() ==> #[trigger] raw[i] == value
}

/// Whether a slot starts with the magic and the version.
pub open spec fn has_slot_magic(raw: Seq<u8>) -> bool {
    raw[0] == SLOT_MAGIC0 && raw[1] == SLOT_MAGIC1 && raw[2] == SLOT_VERSION
}

/// Whether all bytes have one value.
pub fn bytes_all_equal(raw: &[u8], value: u8) -> (r: bool)
    ensures
        r == all_equal(raw@, value),
{
    let n: usize = raw.len();
    for i in 0..n
        invariant
            n == raw@.len(),
            forall|j: int| 0 <= j < i ==> #[trigger] raw@[j] == value,
    {
        if raw[i] != value {
            assert(raw@[i as int] != value);
            return false;
        }
    }
    true
}

/// Writes a slot.
pub fn encode_slot(
    kind: u8,
    flags: u8,
    transfer_id: u16,
    offset: usize,
    total_len: usize,
    data: &[u8],
) -> (raw: [u8; SLOT_SIZE])
    requires
        data@.len() <= SLOT_PAYLOAD_SIZE,
    ensures
        raw@ == slot_bytes(
            SlotFields {
                kind,
                flags,
                transfer_id,
                offset: offset as nat,
                total_len: total_len as nat,
                data: data@,
            },
        ),
{
    let mut raw = [0u8; SLOT_SIZE];
    let at: u32 = (offset as u64 % 0x1_0000_0000) as u32;
    let total: u32 = (total_len as u64 % 0x1_0000_0000) as u32;
    raw[0] = SLOT_MAGIC0;
    raw[1] = SLOT_MAGIC1;
    raw[2] = SLOT_VERSION;
    raw[3] = kind;
    raw[4] = flags;
    raw[6] = (at % 256) as u8;
    raw[7] = ((at / 256) % 256) as u8;
    raw[8] = ((at / 65536) % 256) as u8;
    raw[9] = (at / 16777216) as u8;
    raw[10] = (total % 256) as u8;
    raw[11] = ((total / 256) % 256) as u8;
    raw[12] = ((total / 65536) % 256) as u8;
    raw[13] = (total / 16777216) as u8;
    raw[14] = data.len() as u8;
    raw[15] = 0;
    raw[16] = (transfer_id % 256) as u8;
    raw[17] = (transfer_id / 256) as u8;
    write_at(&mut raw, SLOT_HEADER_SIZE, data);
    assert(raw@ =~= slot_bytes(
        SlotFields {
            kind,
            flags,
            transfer_id,
            offset: offset as nat,
            total_len: total_len as nat,
            data: data@,
        },
    ));
    raw
}

/// The header fields of a slot as plain values: kind, flags, transfer id, offset, packet length and
/// declared payload length.
pub fn read_slot_header(raw: &[u8]) -> (r: (u8, u8, u16, usize, usize, usize))
    requires
        raw@.len() == SLOT_SIZE,
    ensures
        r.0 == raw@[3],
        r.1 == raw@[4],
        r.2 == le16(raw@[16], raw@[17]),
        r.3 == le32(raw@[6], raw@[7], raw@[8], raw@[9]),
        r.4 == le32(raw@[10], raw@[11], raw@[12], raw@[13]),
        r.5 == declared_len(raw@),
{
    (
        raw[3],
        raw[4],
        read_le16(raw[16], raw[17]),
        read_le32(raw[6], raw[7], raw[8], raw[9]) as usize,
        read_le32(raw[10], raw[11], raw[12], raw[13]) as usize,
        read_le16(raw[14], raw[15]) as usize,
    )
}

/// Each field of a slot stands at its place on the wire, and the rest is zero.
pub proof fn slot_layout(f: SlotFields)
    requires
        f.data.len() <= SLOT_PAYLOAD_SIZE,
    ensures
        slot_bytes(f).len() == SLOT_SIZE,
        has_slot_magic(slot_bytes(f)),
        slot_bytes(f)[3] == f.kind,
        slot_bytes(f)[4] == f.flags,
        slot_bytes(f)[5] == 0,
        slot_bytes(f).subrange(6, 10) == le_bytes32(wrapped32(f.offset)),
        slot_bytes(f).subrange(10, 14) == le_bytes32(wrapped32(f.total_len)),
        slot_bytes(f)[14] == low_byte(f.data.len()),
        slot_bytes(f)[15] == high_byte(f.data.len()),
        slot_bytes(f)[16] == low_byte(f.transfer_id as nat),
        slot_bytes(f)[17] == high_byte(f.transfer_id as nat),
        forall|i: int|
            0 <= i < f.data.len() ==> slot_bytes(f)[SLOT_HEADER_SIZE + i] == #[trigger] f.data[i],
        forall|i: int|
            SLOT_HEADER_SIZE + f.data.len() <= i < SLOT_SIZE ==> #[trigger] slot_bytes(f)[i] == 0,
{
    let raw = slot_bytes(f);
    assert(raw.subrange(6, 10) =~= le_bytes32(wrapped32(f.offset)));
    assert(raw.subrange(10, 14) =~= le_bytes32(wrapped32(f.total_len)));
}

/// Reading a slot gives back the fields it was written from.
pub proof fn slot_reads_back(f: SlotFields)
    requires
        f.data.len() <= SLOT_PAYLOAD_SIZE,
        f.offset < 0x1_0000_0000,
        f.total_len < 0x1_0000_0000,
    ensures
        slot_bytes(f).len() == SLOT_SIZE,
        has_slot_magic(slot_bytes(f)),
        !all_equal(slot_bytes(f), 0),
        !all_equal(slot_bytes(f), 0xff),
        declared_len(slot_bytes(f)) == f.data.len(),
        slot_fields(slot_bytes(f)).kind == f.kind,
        slot_fields(slot_bytes(f)).flags == f.flags,
        slot_fields(slot_bytes(f)).transfer_id == f.transfer_id,
        slot_fields(slot_bytes(f)).offset == f.offset,
        slot_fields(slot_bytes(f)).total_len == f.total_len,
        slot_fields(slot_bytes(f)).data == f.data,
{
    let raw = slot_bytes(f);
    let offset = le_bytes32(wrapped32(f.offset));
    let total = le_bytes32(wrapped32(f.total_len));
    le32_round_trip(wrapped32(f.offset));
    le32_round_trip(wrapped32(f.total_len));
    le16_round_trip(f.data.len());
    le16_round_trip(f.transfer_id as nat);
    slot_layout(f);
    assert(raw[0] != 0 && raw[0] != 0xff);
    assert(raw[6] == offset[0] && raw[7] == offset[1] && raw[8] == offset[2] && raw[9]
        == offset[3]) by {
        let part = raw.subrange(6, 10);
        assert(part[0] == raw[6] && part[1] == raw[7] && part[2] == raw[8] && part[3] == raw[9]);
    }
    assert(raw[10] == total[0] && raw[11] == total[1] && raw[12] == total[2] && raw[13]
        == total[3]) by {
        let part = raw.subrange(10, 14);
        assert(part[0] == raw[10] && part[1] == raw[11] && part[2] == raw[12] && part[3]
            == raw[13]);
    }
    assert(slot_fields(raw).data =~= f.data);
}

/// The flags of a slot say whether it starts and whether it ends a packet.
pub proof fn flags_read_back(start: bool, end: bool)
    ensures
        is_start(flags_of(start, end)) == start,
        is_end(flags_of(start, end)) == end,
{
}

} // verus!
