//! Fixed-capacity byte buffers.

use vstd::prelude::*;

verus! {

/// The fixed-capacity vector type of the `heapless` crate.
#[verifier::external_type_specification]
#[verifier::external_body]
#[verifier::reject_recursive_types(T)]
pub struct ExHeaplessVec<T, const N: usize>(heapless::Vec<T, N>);

/// The bytes held by a buffer for one frame.
pub uninterp spec fn frame_buffer(v: heapless::Vec<u8, 260>) -> Seq<u8>;

/// `heapless::Vec::<u8, 260>::new`: the new buffer is empty.
#[verifier::external_body]
pub(crate) fn frame_buffer_new() -> (v: heapless::Vec<u8, 260>)
    ensures
        frame_buffer(v) == Seq::<u8>::empty(),
{
    heapless::Vec::new()
}

/// `heapless::Vec::<u8, 260>::extend_from_slice`: all bytes are appended when they fit in 260 bytes, and
/// nothing changes when they do not.
#[verifier::external_body]
pub(crate) fn frame_buffer_extend(v: &mut heapless::Vec<u8, 260>, bytes: &[u8]) -> (r: Result<(), ()>)
    ensures
        r is Ok <==> frame_buffer(*old(v)).len() + bytes@.len() <= 260,
        frame_buffer(*final(v)) == if r is Ok {
            frame_buffer(*old(v)) + bytes@
        } else {
            frame_buffer(*old(v))
        },
{
    v.extend_from_slice(bytes)
}

/// `heapless::Vec::<u8, 260>::as_slice`: the bytes held, at most 260.
#[verifier::external_body]
pub(crate) fn frame_buffer_slice(v: &heapless::Vec<u8, 260>) -> (r: &[u8])
    ensures
        r@ == frame_buffer(*v),
        r@.len() <= 260,
{
    v.as_slice()
}

/// The bytes held by a buffer for one I2C packet.
pub uninterp spec fn packet_buffer(v: heapless::Vec<u8, 1024>) -> Seq<u8>;

/// `heapless::Vec::<u8, 1024>::new`: the new buffer is empty.
#[verifier::external_body]
pub(crate) fn packet_buffer_new() -> (v: heapless::Vec<u8, 1024>)
    ensures
        packet_buffer(v) == Seq::<u8>::empty(),
{
    heapless::Vec::new()
}

/// `heapless::Vec::<u8, 1024>::extend_from_slice`: all bytes are appended when they fit in 1024 bytes, and
/// nothing changes when they do not.
#[verifier::external_body]
pub(crate) fn packet_buffer_extend(v: &mut heapless::Vec<u8, 1024>, bytes: &[u8]) -> (r: Result<(), ()>)
    ensures
        r is Ok <==> packet_buffer(*old(v)).len() + bytes@.len() <= 1024,
        packet_buffer(*final(v)) == if r is Ok {
            packet_buffer(*old(v)) + bytes@
        } else {
            packet_buffer(*old(v))
        },
{
    v.extend_from_slice(bytes)
}

/// `heapless::Vec::<u8, 1024>::as_slice`: the bytes held, at most 1024.
#[verifier::external_body]
pub(crate) fn packet_buffer_slice(v: &heapless::Vec<u8, 1024>) -> (r: &[u8])
    ensures
        r@ == packet_buffer(*v),
        r@.len() <= 1024,
{
    v.as_slice()
}

} // verus!
