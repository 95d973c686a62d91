//! Byte-sequence helpers shared by the framing code.

use vstd::prelude::*;

verus! {

/// `dst` with the bytes from `at` on replaced by `src`.
pub open spec fn overwritten(dst: Seq<u8>, at: int, src: Seq<u8>) -> Seq<u8> {
    Seq::new(
        dst.len(),
        |i: int|
            if at <= i < at + src.len() {
                src[i - at]
            } else {
                dst[i]
            },
    )
}

/// A run of `len` zero bytes.
pub open spec fn zeros(len: nat) -> Seq<u8> {
    Seq::new(len, |i: int| 0u8)
}

/// `src` followed by zero bytes up to a total of `len` bytes.
pub open spec fn zero_padded(src: Seq<u8>, len: nat) -> Seq<u8> {
    Seq::new(
        len,
        |i: int|
            if i < src.len() {
                src[i]
            } else {
                0u8
            },
    )
}

/// The longest prefix of `payload` that is at most `max` bytes long.
pub open spec fn clipped(payload: Seq<u8>, max: nat) -> Seq<u8> {
    if payload.len() <= max {
        payload
    } else {
        payload.take(max as int)
    }
}

/// The low byte of a little-endian 16-bit value.
pub open spec fn low_byte(value: nat) -> u8 {
    (value % 256) as u8
}

/// The high byte of a little-endian 16-bit value.
pub open spec fn high_byte(value: nat) -> u8 {
    ((value / 256) % 256) as u8
}

/// The value of two bytes read in little-endian order.
pub open spec fn le16(lo: u8, hi: u8) -> nat {
    (lo + 256 * hi) as nat
}

/// The value of four bytes read in little-endian order.
pub open spec fn le32(b0: u8, b1: u8, b2: u8, b3: u8) -> nat {
    (b0 + 256 * b1 + 65536 * b2 + 16777216 * b3) as nat
}

/// A 32-bit value as four bytes in little-endian order.
pub open spec fn le_bytes32(value: u32) -> Seq<u8> {
    seq![
        (value % 256) as u8,
        ((value / 256) % 256) as u8,
        ((value / 65536) % 256) as u8,
        (value / 16777216) as u8,
    ]
}

/// Splitting a 32-bit value into bytes and reading them back gives the value.
pub proof fn le32_round_trip(value: u32)
    ensures
        le32(
            le_bytes32(value)[0],
            le_bytes32(value)[1],
            le_bytes32(value)[2],
            le_bytes32(value)[3],
        ) == value,
{
}

/// Two different runs of four bytes stand for different values.
pub proof fn le32_tells_bytes_apart(
    a0: u8,
    a1: u8,
    a2: u8,
    a3: u8,
    b0: u8,
    b1: u8,
    b2: u8,
    b3: u8,
)
    ensures
        le32(a0, a1, a2, a3) == le32(b0, b1, b2, b3) <==> a0 == b0 && a1 == b1 && a2 == b2 && a3
            == b3,
{
}

/// Splitting a 16-bit value into bytes and reading them back gives the value.
pub proof fn le16_round_trip(value: nat)
    requires
        value < 65536,
    ensures
        le16(low_byte(value), high_byte(value)) == value,
{
}

/// The smaller of two sizes.
pub fn min_size(a: usize, b: usize) -> (r: usize)
    ensures
        r == if a <= b { a } else { b },
{
    if a <= b {
        a
    } else {
        b
    }
}

/// Reads two bytes in little-endian order.
pub fn read_le16(lo: u8, hi: u8) -> (r: u16)
    ensures
        r == le16(lo, hi),
{
    lo as u16 + 256 * (hi as u16)
}

/// Reads four bytes in little-endian order.
pub fn read_le32(b0: u8, b1: u8, b2: u8, b3: u8) -> (r: u32)
    ensures
        r == le32(b0, b1, b2, b3),
{
    b0 as u32 + 256 * (b1 as u32) + 65536 * (b2 as u32) + 16777216 * (b3 as u32)
}

/// Copies `src` over the bytes of `dst` that start at `at`.
pub fn write_at<const N: usize>(dst: &mut [u8; N], at: usize, src: &[u8])
    requires
        at + src@.len() <= N,
    ensures
        final(dst)@ == overwritten(old(dst)@, at as int, src@),
{
    let ghost before = dst@;
    let n: usize = src.len();
    for i in 0..n
        invariant
            n == src@.len(),
            at + n <= N,
            before.len() == N,
            dst@ == overwritten(before, at as int, src@.take(i as int)),
    {
        dst[at + i] = src[i];
    }
    assert(src@.take(n as int) == src@);
}

/// Copies `src` over the bytes of the slice `dst` that start at `at`.
pub fn write_slice_at(dst: &mut [u8], at: usize, src: &[u8])
    requires
        at + src@.len() <= old(dst)@.len(),
    ensures
        final(dst)@ == overwritten(old(dst)@, at as int, src@),
{
    let ghost before = dst@;
    let total: usize = dst.len();
    let n: usize = src.len();
    for i in 0..n
        invariant
            n == src@.len(),
            total == before.len(),
            at + n <= total,
            dst@ == overwritten(before, at as int, src@.take(i as int)),
    {
        dst[at + i] = src[i];
    }
    assert(src@.take(n as int) == src@);
}

/// Clipping keeps the front of a sequence, all of it where that fits.
pub proof fn clipping_keeps_the_front(src: Seq<u8>, max: nat)
    ensures
        src.len() <= max ==> clipped(src, max) == src,
        src.len() > max ==> clipped(src, max) == src.take(max as int),
{
    if src.len() <= max {
        assert(clipped(src, max) =~= src);
    } else {
        assert(clipped(src, max) =~= src.take(max as int));
    }
}

/// Padding adds nothing but zeros behind a sequence that fits.
pub proof fn padding_adds_zeros(src: Seq<u8>, len: nat)
    requires
        src.len() <= len,
    ensures
        zero_padded(src, len).len() == len,
        zero_padded(src, len).take(src.len() as int) == src,
        forall|i: int| src.len() <= i < len ==> #[trigger] zero_padded(src, len)[i] == 0,
{
    assert(zero_padded(src, len).take(src.len() as int) =~= src);
}

} // verus!
