//! Small overwrite-on-full buffers for lossy bridge egress paths.

use crate::bytes::min_size;
use crate::bytes::overwritten;
use crate::bytes::write_at;
use crate::bytes::write_slice_at;
use vstd::prelude::*;

verus! {

/// Number of I2C packets a queue holds. Each packet carries its payload inline, so the depth is
/// kept small.
pub const I2C_PACKET_QUEUE_DEPTH: usize = 8;

/// Number of I2C payload bytes a queue holds.
pub const I2C_PACKET_QUEUE_BYTES: usize = 8192;

/// Number of SPI frames a queue holds.
pub const SPI_PACKET_QUEUE_DEPTH: usize = 32;

/// Number of SPI frame bytes a queue holds.
pub const SPI_PACKET_QUEUE_BYTES: usize = 8192;

/// Number of packets the UART egress ring holds.
pub const BYTE_PACKET_RING_DEPTH: usize = 16;

/// Number of bytes one packet of the UART egress ring holds.
pub const BYTE_PACKET_MAX: usize = 260;

/// The fixed-capacity double-ended queue of the `heapless` crate.
#[verifier::external_type_specification]
#[verifier::external_body]
#[verifier::reject_recursive_types(T)]
pub struct ExHeaplessDeque<T, const N: usize>(heapless::Deque<T, N>);

/// An item that counts toward a queue's byte limit.
pub trait QueueItem {
    /// The number of bytes the item counts for.
    spec fn weight(&self) -> nat;

    /// Returns the number of bytes the item counts for.
    fn queued_len(&self) -> (n: usize)
        ensures
            n == self.weight(),
    ;
}

/// A first-in, first-out store of bounded length.
pub trait BoundedDeque<T>: Sized {
    /// The items held, oldest first.
    spec fn contents(&self) -> Seq<T>;

    /// The most items the store holds.
    spec fn capacity() -> nat;

    /// At least one item can be held.
    proof fn capacity_is_positive()
        ensures
            Self::capacity() > 0,
    ;

    /// Creates an empty store.
    fn empty() -> (d: Self)
        ensures
            d.contents() == Seq::<T>::empty(),
    ;

    /// Whether no further item can be held.
    fn at_capacity(&self) -> (r: bool)
        ensures
            r == (self.contents().len() >= Self::capacity()),
    ;

    /// Adds an item behind the others, or hands it back when the store is full.
    fn push_last(&mut self, item: T) -> (r: Result<(), T>)
        ensures
            r is Ok <==> old(self).contents().len() < Self::capacity(),
            r is Ok ==> final(self).contents() == old(self).contents().push(item),
            r matches Err(back) ==> back == item && final(self).contents() == old(self).contents(),
    ;

    /// Removes the oldest item.
    fn pop_first(&mut self) -> (r: Option<T>)
        ensures
            old(self).contents().len() == 0 ==> r is None && final(self).contents()
                == old(self).contents(),
            old(self).contents().len() > 0 ==> r == Some(old(self).contents()[0])
                && final(self).contents() == old(self).contents().drop_first(),
    ;
}

/// The bytes that a sequence of items counts for.
pub open spec fn total_weight<T: QueueItem>(items: Seq<T>) -> nat
    decreases items.len(),
{
    if items.len() == 0 {
        0
    } else {
        items[0].weight() + total_weight(items.drop_first())
    }
}

/// Whether an item of `added` bytes can be put behind `items`.
pub open spec fn has_room<T: QueueItem>(
    items: Seq<T>,
    added: nat,
    max_items: nat,
    max_bytes: nat,
) -> bool {
    items.len() < max_items && total_weight(items) + added <= max_bytes
}

/// What is left of `items` when the oldest are dropped, one after the other, until an item of
/// `added` bytes can be put behind the rest.
pub open spec fn survivors<T: QueueItem>(
    items: Seq<T>,
    added: nat,
    max_items: nat,
    max_bytes: nat,
) -> Seq<T>
    decreases items.len(),
{
    if items.len() == 0 || has_room(items, added, max_items, max_bytes) {
        items
    } else {
        survivors(items.drop_first(), added, max_items, max_bytes)
    }
}

/// A queue bounded in items and in bytes that makes room by dropping its oldest items.
#[verifier::reject_recursive_types(T)]
pub struct OverwriteQueue<T, const N: usize, const MAX_BYTES: usize> {
    queue: heapless::Deque<T, N>,
    queued_bytes: usize,
}

impl<T: QueueItem, const N: usize, const MAX_BYTES: usize> OverwriteQueue<T, N, MAX_BYTES> where
    heapless::Deque<T, N>: BoundedDeque<T>,
 {
    /// The items in the queue, oldest first.
    pub closed spec fn view(&self) -> Seq<T> {
        self.queue.contents()
    }

    /// The most items the queue holds.
    pub open spec fn depth() -> nat {
        <heapless::Deque<T, N> as BoundedDeque<T>>::capacity()
    }

    /// The queue is within both limits and its byte count is right.
    pub closed spec fn wf(&self) -> bool {
        &&& self@.len() <= Self::depth()
        &&& total_weight(self@) == self.queued_bytes
        &&& self.queued_bytes <= MAX_BYTES
    }

    /// A well-formed queue is within its item and byte limits.
    pub proof fn limits_hold(&self)
        requires
            self.wf(),
        ensures
            self@.len() <= Self::depth(),
            total_weight(self@) <= MAX_BYTES,
    {
    }

    /// Creates an empty queue.
    pub fn new() -> (q: Self)
        ensures
            q.wf(),
            q@ == Seq::<T>::empty(),
    {
        OverwriteQueue { queue: BoundedDeque::empty(), queued_bytes: 0 }
    }

    /// Adds an item, dropping the oldest items as far as needed. An item over the byte limit is
    /// refused and leaves the queue as it is.
    pub fn push_overwrite(&mut self, item: T) -> (pushed: bool)
        requires
            old(self).wf(),
        ensures
            final(self).wf(),
            pushed <==> item.weight() <= MAX_BYTES,
            final(self)@ == if pushed {
                survivors(old(self)@, item.weight(), Self::depth(), MAX_BYTES as nat).push(item)
            } else {
                old(self)@
            },
    {
        let item_len: usize = item.queued_len();
        if item_len > MAX_BYTES {
            return false;
        }
        let ghost before = self@;
        let ghost target = survivors(before, item_len as nat, Self::depth(), MAX_BYTES as nat);
        while self.queue.at_capacity() || self.queued_bytes > MAX_BYTES - item_len
            invariant_except_break
                self.wf(),
                item_len <= MAX_BYTES,
                item_len == item.weight(),
                target == survivors(self@, item_len as nat, Self::depth(), MAX_BYTES as nat),
            ensures
                self.wf(),
                self@ == target,
                self@.len() < Self::depth(),
                self.queued_bytes + item_len <= MAX_BYTES,
            decreases self@.len(),
        {
            let ghost held = self@;
            match self.queue.pop_first() {
                Some(dropped) => {
                    self.queued_bytes = self.queued_bytes.saturating_sub(dropped.queued_len());
                    assert(self@ == held.drop_first());
                },
                None => {
                    proof {
                        <heapless::Deque<T, N> as BoundedDeque<T>>::capacity_is_positive();
                    }
                    break ;
                },
            }
        }
        let ghost held = self@;
        let _ = self.queue.push_last(item);
        self.queued_bytes = self.queued_bytes + item_len;
        proof {
            total_weight_of_push(held, item);
        }
        true
    }

    /// Removes the oldest item.
    pub fn try_pop(&mut self) -> (r: Option<T>)
        requires
            old(self).wf(),
        ensures
            final(self).wf(),
            old(self)@.len() == 0 ==> r is None && final(self)@ == old(self)@,
            old(self)@.len() > 0 ==> r == Some(old(self)@[0]) && final(self)@
                == old(self)@.drop_first(),
    {
        match self.queue.pop_first() {
            Some(item) => {
                self.queued_bytes = self.queued_bytes.saturating_sub(item.queued_len());
                Some(item)
            },
            None => None,
        }
    }

    /// Empties the queue and returns the newest item.
    pub fn try_pop_latest(&mut self) -> (r: Option<T>)
        requires
            old(self).wf(),
        ensures
            final(self).wf(),
            final(self)@ == Seq::<T>::empty(),
            old(self)@.len() == 0 ==> r is None,
            old(self)@.len() > 0 ==> r == Some(old(self)@.last()),
    {
        let ghost before = self@;
        let mut latest = match self.queue.pop_first() {
            Some(item) => item,
            None => return None,
        };
        loop
            invariant_except_break
                before.len() > 0,
                self@.len() > 0 ==> self@.last() == before.last(),
                self@.len() == 0 ==> latest == before.last(),
            ensures
                self@.len() == 0,
                latest == before.last(),
            decreases self@.len(),
        {
            let ghost held = self@;
            match self.queue.pop_first() {
                Some(next) => {
                    latest = next;
                    assert(self@ == held.drop_first());
                },
                None => break ,
            }
        }
        self.queued_bytes = 0;
        assert(self@ == Seq::<T>::empty());
        Some(latest)
    }
}

/// Adding an item behind others adds its bytes.
pub proof fn total_weight_of_push<T: QueueItem>(items: Seq<T>, item: T)
    ensures
        total_weight(items.push(item)) == total_weight(items) + item.weight(),
    decreases items.len(),
{
    reveal_with_fuel(total_weight, 2);
    if items.len() == 0 {
        assert(items.push(item).drop_first() == Seq::<T>::empty());
    } else {
        assert(items.push(item).drop_first() == items.drop_first().push(item));
        total_weight_of_push(items.drop_first(), item);
    }
}

/// Dropping to make room drops whole items from the old end only: what is left is the longest
/// suffix behind which the new item still fits.
pub proof fn survivors_are_the_longest_fitting_suffix<T: QueueItem>(
    items: Seq<T>,
    added: nat,
    max_items: nat,
    max_bytes: nat,
)
    requires
        added <= max_bytes,
        max_items > 0,
    ensures
        survivors(items, added, max_items, max_bytes).len() <= items.len(),
        survivors(items, added, max_items, max_bytes) == items.skip(
            items.len() - survivors(items, added, max_items, max_bytes).len(),
        ),
        has_room(survivors(items, added, max_items, max_bytes), added, max_items, max_bytes),
        forall|n: int|
            0 <= n < items.len() - survivors(items, added, max_items, max_bytes).len()
                ==> !has_room(#[trigger] items.skip(n), added, max_items, max_bytes),
    decreases items.len(),
{
    let kept = survivors(items, added, max_items, max_bytes);
    assert(items.skip(0) == items);
    if items.len() > 0 && !has_room(items, added, max_items, max_bytes) {
        let rest = items.drop_first();
        survivors_are_the_longest_fitting_suffix(rest, added, max_items, max_bytes);
        assert(rest.skip(rest.len() - kept.len()) == items.skip(items.len() - kept.len()));
        assert forall|n: int| 0 <= n < items.len() - kept.len() implies !has_room(
            #[trigger] items.skip(n),
            added,
            max_items,
            max_bytes,
        ) by {
            if n > 0 {
                assert(items.skip(n) == rest.skip(n - 1));
            }
        }
    }
}

/// Nothing is dropped while another item fits, and at least the oldest item is otherwise.
pub proof fn items_are_dropped_only_for_room<T: QueueItem>(
    items: Seq<T>,
    added: nat,
    max_items: nat,
    max_bytes: nat,
)
    requires
        added <= max_bytes,
        max_items > 0,
    ensures
        items.len() < max_items && total_weight(items) + added <= max_bytes ==> survivors(
            items,
            added,
            max_items,
            max_bytes,
        ) == items,
        items.len() >= max_items || total_weight(items) + added > max_bytes ==> survivors(
            items,
            added,
            max_items,
            max_bytes,
        ).len() < items.len(),
        survivors(items, added, max_items, max_bytes).len() < max_items,
        total_weight(survivors(items, added, max_items, max_bytes)) + added <= max_bytes,
{
    survivors_are_the_longest_fitting_suffix(items, added, max_items, max_bytes);
    let kept = survivors(items, added, max_items, max_bytes);
    if kept.len() == items.len() {
        assert(items.skip(0) =~= items);
    }
}

/// A bounded store that is also read and changed at its front.
pub trait RingDeque<T>: BoundedDeque<T> {
    /// The number of items held.
    fn count(&self) -> (n: usize)
        ensures
            n == self.contents().len(),
    ;

    /// Removes the newest item.
    fn pop_last(&mut self) -> (r: Option<T>)
        ensures
            old(self).contents().len() == 0 ==> r is None && final(self).contents()
                == old(self).contents(),
            old(self).contents().len() > 0 ==> r == Some(old(self).contents().last())
                && final(self).contents() == old(self).contents().drop_last(),
    ;

    /// Puts an item in front of the others, or hands it back when the store is full.
    fn push_first(&mut self, item: T) -> (r: Result<(), T>)
        ensures
            r is Ok <==> old(self).contents().len() < Self::capacity(),
            r is Ok ==> final(self).contents() == seq![item] + old(self).contents(),
            r matches Err(back) ==> back == item && final(self).contents() == old(self).contents(),
    ;

    /// The oldest item.
    fn first(&self) -> (r: Option<&T>)
        ensures
            r is None <==> self.contents().len() == 0,
            r matches Some(item) ==> *item == self.contents()[0],
    ;

    /// The item at a position, counted from the oldest.
    fn item(&self, index: usize) -> (r: Option<&T>)
        ensures
            r is None <==> self.contents().len() <= index,
            r matches Some(item) ==> *item == self.contents()[index as int],
    ;

    /// Removes all items.
    fn remove_all(&mut self)
        ensures
            final(self).contents() == Seq::<T>::empty(),
    ;
}

/// One packet of at most `M` bytes.
pub struct BytePacket<const M: usize> {
    len: usize,
    data: [u8; M],
}

/// The bytes of `slices`, one slice after the other, up to `room` bytes. An empty slice ends the
/// packet.
pub open spec fn joined(slices: Seq<&[u8]>, room: nat) -> Seq<u8>
    decreases slices.len(),
{
    if slices.len() == 0 {
        Seq::empty()
    } else {
        let taken = if slices[0]@.len() <= room {
            slices[0]@.len()
        } else {
            room
        };
        if taken == 0 {
            Seq::empty()
        } else {
            slices[0]@.take(taken as int) + joined(slices.drop_first(), (room - taken) as nat)
        }
    }
}

impl<const M: usize> BytePacket<M> {
    /// The bytes of the packet.
    pub closed spec fn view(&self) -> Seq<u8> {
        self.data@.take(self.len as int)
    }

    /// The packet's length is within its buffer.
    pub closed spec fn wf(&self) -> bool {
        self.len <= M
    }

    fn new() -> (packet: Self)
        ensures
            packet.wf(),
            packet@ == Seq::<u8>::empty(),
            packet.len == 0,
            forall|i: int| 0 <= i < M ==> packet.data@[i] == 0,
    {
        let packet = BytePacket { len: 0, data: [0u8; M] };
        assert(packet@ == Seq::<u8>::empty());
        packet
    }

    fn from_slices(slices: &[&[u8]]) -> (packet: Self)
        ensures
            packet.wf(),
            packet@ == joined(slices@, M as nat),
            forall|i: int| packet.len <= i < M ==> packet.data@[i] == 0,
    {
        let mut packet = Self::new();
        let n: usize = slices.len();
        let mut i: usize = 0;
        proof {
            assert(slices@.skip(0) == slices@);
            assert(packet@ + joined(slices@, M as nat) == joined(slices@, M as nat));
        }
        while i < n
            invariant_except_break
                i <= n,
                n == slices@.len(),
                packet.wf(),
                forall|k: int| packet.len <= k < M ==> packet.data@[k] == 0,
                packet@.len() <= M,
                i == n ==> packet@ == joined(slices@, M as nat),
                packet@ + joined(slices@.skip(i as int), (M - packet@.len()) as nat) == joined(
                    slices@,
                    M as nat,
                ),
            ensures
                packet.wf(),
                forall|k: int| packet.len <= k < M ==> packet.data@[k] == 0,
                packet@ == joined(slices@, M as nat),
            decreases n - i,
        {
            let slice = slices[i];
            let remaining: usize = M - packet.len;
            let copy_len: usize = min_size(slice.len(), remaining);
            if copy_len == 0 {
                assert(joined(slices@.skip(i as int), remaining as nat) == Seq::<u8>::empty());
                break ;
            }
            let ghost before = packet@;
            write_at(&mut packet.data, packet.len, &slice[0..copy_len]);
            packet.len = packet.len + copy_len;
            proof {
                assert(slices@.skip(i as int).drop_first() == slices@.skip(i + 1));
                assert(packet@ == before + slice@.take(copy_len as int));
                assert(before + (slice@.take(copy_len as int) + joined(
                    slices@.skip(i + 1),
                    (remaining - copy_len) as nat,
                )) == packet@ + joined(slices@.skip(i + 1), (M - packet@.len()) as nat));
                if i + 1 == n {
                    assert(packet@ + joined(slices@.skip(i + 1), (M - packet@.len()) as nat)
                        == packet@);
                }
            }
            i = i + 1;
        }
        packet
    }
}

/// The packets as byte strings, oldest first.
pub open spec fn packet_bytes<const M: usize>(packets: Seq<BytePacket<M>>) -> Seq<Seq<u8>> {
    packets.map_values(|p: BytePacket<M>| p@)
}

/// The bytes still to be sent when `sent` bytes of the oldest packet are already out.
pub open spec fn pending_bytes(packets: Seq<Seq<u8>>, sent: nat) -> Seq<u8> {
    packets.flatten().skip(sent as int)
}

/// The packets after a packet is added. A full ring drops one whole packet: the oldest, or the one
/// behind it when a part of the oldest is already out.
pub open spec fn packets_after_push(
    packets: Seq<Seq<u8>>,
    sent: nat,
    packet: Seq<u8>,
    max_packets: nat,
) -> Seq<Seq<u8>> {
    if packet.len() == 0 {
        packets
    } else if packets.len() < max_packets {
        packets.push(packet)
    } else if sent == 0 {
        packets.drop_first().push(packet)
    } else if packets.len() > 1 {
        (seq![packets[0]] + packets.skip(2)).push(packet)
    } else {
        seq![packet]
    }
}

/// The count of sent bytes of the oldest packet after a packet is added.
pub open spec fn sent_after_push(
    packets: Seq<Seq<u8>>,
    sent: nat,
    packet: Seq<u8>,
    max_packets: nat,
) -> nat {
    if packet.len() > 0 && packets.len() >= max_packets && packets.len() <= 1 {
        0
    } else {
        sent
    }
}

/// The packets left, and the count of sent bytes of the oldest of them, after `count` further
/// bytes are sent.
pub open spec fn after_consume(packets: Seq<Seq<u8>>, sent: nat, count: nat) -> (Seq<Seq<u8>>, nat)
    decreases packets.len(),
{
    if packets.len() == 0 {
        (packets, if count == 0 { sent } else { 0 })
    } else if count == 0 {
        (packets, sent)
    } else if sent + count < packets[0].len() {
        (packets, sent + count)
    } else {
        after_consume(packets.drop_first(), 0, (sent + count - packets[0].len()) as nat)
    }
}

/// A byte-packet ring that makes room by dropping whole packets.
#[verifier::reject_recursive_types(M)]
pub struct OverwriteBytePacketRing<const N: usize, const M: usize> {
    queue: heapless::Deque<BytePacket<M>, N>,
    front_offset: usize,
}

impl<const N: usize, const M: usize> OverwriteBytePacketRing<N, M> where
    heapless::Deque<BytePacket<M>, N>: RingDeque<BytePacket<M>>,
 {
    /// The packets held, oldest first.
    pub closed spec fn view(&self) -> Seq<Seq<u8>> {
        packet_bytes(self.queue.contents())
    }

    /// The count of bytes of the oldest packet that are already out.
    pub closed spec fn sent(&self) -> nat {
        self.front_offset as nat
    }

    /// The bytes still to be sent.
    pub open spec fn pending(&self) -> Seq<u8> {
        pending_bytes(self@, self.sent())
    }

    /// The most packets the ring holds.
    pub open spec fn depth() -> nat {
        <heapless::Deque<BytePacket<M>, N> as BoundedDeque<BytePacket<M>>>::capacity()
    }

    /// No packet is empty, and the oldest has bytes left to send.
    pub closed spec fn wf(&self) -> bool {
        &&& self@.len() <= Self::depth()
        &&& forall|i: int|
            0 <= i < self.queue.contents().len() ==> {
                &&& (#[trigger] self.queue.contents()[i]).wf()
                &&& self.queue.contents()[i].len > 0
            }
        &&& self@.len() == 0 ==> self.front_offset == 0
        &&& self@.len() > 0 ==> self.front_offset < self@[0].len()
    }

    /// A well-formed ring is within its depth, holds no empty packet, and has sent only a part of
    /// its oldest packet.
    pub proof fn limits_hold(&self)
        requires
            self.wf(),
        ensures
            self@.len() <= Self::depth(),
            forall|i: int| 0 <= i < self@.len() ==> 0 < #[trigger] self@[i].len() <= M,
            self@.len() == 0 ==> self.sent() == 0,
            self@.len() > 0 ==> self.sent() < self@[0].len(),
    {
        assert forall|i: int| 0 <= i < self@.len() implies 0 < #[trigger] self@[i].len() <= M by {
            assert(self.queue.contents()[i].wf());
        }
    }

    /// Creates an empty ring.
    pub fn new() -> (ring: Self)
        ensures
            ring.wf(),
            ring@ == Seq::<Seq<u8>>::empty(),
            ring.sent() == 0,
    {
        let ring = OverwriteBytePacketRing { queue: BoundedDeque::empty(), front_offset: 0 };
        assert(ring@ == Seq::<Seq<u8>>::empty());
        ring
    }

    /// Adds the bytes of `slices` as one packet, dropping one whole packet if the ring is full.
    pub fn push_overwrite_slices(&mut self, slices: &[&[u8]])
        requires
            old(self).wf(),
        ensures
            final(self).wf(),
            final(self)@ == packets_after_push(
                old(self)@,
                old(self).sent(),
                joined(slices@, M as nat),
                Self::depth(),
            ),
            final(self).sent() == sent_after_push(
                old(self)@,
                old(self).sent(),
                joined(slices@, M as nat),
                Self::depth(),
            ),
    {
        let packet = BytePacket::from_slices(slices);
        assert(packet@.len() == packet.len);
        if packet.len == 0 {
            return ;
        }
        let ghost before = self.queue.contents();
        proof {
            <heapless::Deque<BytePacket<M>, N> as BoundedDeque<BytePacket<M>>>::capacity_is_positive();
        }
        if self.queue.at_capacity() {
            if self.front_offset == 0 {
                let _ = self.queue.pop_first();
            } else if self.queue.count() > 1 {
                let front = self.queue.pop_first();
                let _ = self.queue.pop_first();
                if let Some(front) = front {
                    let _ = self.queue.push_first(front);
                }
                assert(self.queue.contents() == seq![before[0]] + before.skip(2));
            } else {
                let _ = self.queue.pop_last();
                self.front_offset = 0;
            }
        }
        let ghost held = self.queue.contents();
        let _ = self.queue.push_last(packet);
        assert(self.queue.contents() == held.push(packet));
        assert(self@ == packets_after_push(
            old(self)@,
            old(self).sent(),
            packet@,
            Self::depth(),
        ));
    }

    /// Copies the bytes still to be sent into `buf`, as far as they fit, and returns their number.
    pub fn peek_into(&self, buf: &mut [u8]) -> (count: usize)
        requires
            self.wf(),
        ensures
            count == if self.pending().len() <= old(buf)@.len() {
                self.pending().len()
            } else {
                old(buf)@.len()
            },
            final(buf)@ == overwritten(old(buf)@, 0, self.pending().take(count as int)),
    {
        let ghost before = buf@;
        let ghost packets = self@;
        let ghost whole = self.pending();
        let n: usize = self.queue.count();
        let room: usize = buf.len();
        let mut count: usize = 0;
        let mut index: usize = 0;
        proof {
            assert(packets.skip(0) == packets);
            assert(whole.take(0) == Seq::<u8>::empty());
            assert(before == overwritten(before, 0, whole.take(0)));
            if n == 0 {
                assert(packets == Seq::<Seq<u8>>::empty());
                assert(packets.flatten() == Seq::<u8>::empty());
            }
        }
        while index < n
            invariant_except_break
                self.wf(),
                packets == self@,
                whole == self.pending(),
                n == packets.len(),
                index <= n,
                room == before.len(),
                buf@.len() == room,
                count <= room,
                count <= whole.len(),
                index == n ==> count == whole.len(),
                whole.skip(count as int) == pending_bytes(
                    packets.skip(index as int),
                    if index == 0 {
                        self.sent()
                    } else {
                        0
                    },
                ),
                buf@ == overwritten(before, 0, whole.take(count as int)),
            ensures
                count <= whole.len(),
                count == whole.len() || count == room,
                count <= room,
                buf@ == overwritten(before, 0, whole.take(count as int)),
            decreases n - index,
        {
            let packet = match self.queue.item(index) {
                Some(packet) => packet,
                None => break ,
            };
            assert(packet.wf());
            let start: usize = if index == 0 {
                self.front_offset
            } else {
                0
            };
            let available: usize = packet.len - start;
            let copy_len: usize = min_size(available, room - count);
            let ghost rest = packets.skip(index as int);
            proof {
                assert(packets[index as int] == packet@);
                assert(rest[0] == packet@);
                assert(rest.drop_first() == packets.skip(index + 1));
                assert(rest.flatten() == rest[0] + rest.drop_first().flatten());
                assert(whole.skip(count as int) == packet@.skip(start as int)
                    + rest.drop_first().flatten());
            }
            if copy_len == 0 {
                break ;
            }
            let piece = &packet.data[start..start + copy_len];
            write_slice_at(buf, count, piece);
            proof {
                assert(piece@ == whole.subrange(count as int, count + copy_len)) by {
                    assert forall|j: int| 0 <= j < copy_len implies piece@[j] == whole.subrange(
                        count as int,
                        count + copy_len,
                    )[j] by {
                        assert(whole.skip(count as int)[j] == packet@.skip(start as int)[j]);
                    }
                }
                assert(whole.take(count + copy_len) == whole.take(count as int) + piece@);
                assert(buf@ == overwritten(before, 0, whole.take(count + copy_len)));
            }
            let ghost remaining = whole.skip(count as int);
            count = count + copy_len;
            if copy_len < available {
                break ;
            }
            proof {
                assert(whole.skip(count as int) == remaining.skip(copy_len as int));
                assert(remaining.skip(copy_len as int) == packets.skip(index + 1).flatten());
                assert(packets.skip(index + 1).flatten().skip(0) == packets.skip(
                    index + 1,
                ).flatten());
            }
            index = index + 1;
            if index == n {
                assert(packets.skip(index as int) == Seq::<Seq<u8>>::empty());
                assert(packets.skip(index as int).flatten() == Seq::<u8>::empty());
            }
        }
        count
    }

    /// Marks `count` further bytes as sent.
    pub fn consume(&mut self, count: usize)
        requires
            old(self).wf(),
        ensures
            final(self).wf(),
            (final(self)@, final(self).sent()) == after_consume(
                old(self)@,
                old(self).sent(),
                count as nat,
            ),
    {
        let ghost goal = after_consume(self@, self.sent(), count as nat);
        let mut count: usize = count;
        while count != 0
            invariant_except_break
                self.wf(),
                goal == after_consume(self@, self.sent(), count as nat),
            ensures
                self.wf(),
                goal == (self@, self.sent()),
            decreases count,
        {
            let ghost held = self.queue.contents();
            let front_len: usize = match self.queue.first() {
                Some(packet) => packet.len,
                None => {
                    self.front_offset = 0;
                    break ;
                },
            };
            assert(held[0].wf());
            assert(self@[0].len() == front_len);
            let remaining: usize = front_len - self.front_offset;
            if count < remaining {
                self.front_offset = self.front_offset + count;
                break ;
            }
            let ghost packets = self@;
            count = count - remaining;
            let _ = self.queue.pop_first();
            self.front_offset = 0;
            assert(self.queue.contents() == held.drop_first());
            assert(self@ == packets.drop_first());
        }
    }

    /// Drops everything.
    pub fn clear(&mut self)
        ensures
            final(self).wf(),
            final(self)@ == Seq::<Seq<u8>>::empty(),
            final(self).sent() == 0,
    {
        self.queue.remove_all();
        self.front_offset = 0;
        assert(self@ == Seq::<Seq<u8>>::empty());
    }

    /// Whether nothing is left to send.
    pub fn is_empty(&self) -> (r: bool)
        ensures
            r == (self@.len() == 0),
    {
        self.queue.count() == 0
    }
}

/// The packets held by the UART egress store, oldest first.
pub uninterp spec fn ring_packets(d: heapless::Deque<BytePacket<260>, 16>) -> Seq<BytePacket<260>>;

/// `heapless::Deque::<BytePacket<260>, 16>::new`: the new store is empty.
#[verifier::external_body]
fn ring_new() -> (d: heapless::Deque<BytePacket<260>, 16>)
    ensures
        ring_packets(d) == Seq::<BytePacket<260>>::empty(),
{
    heapless::Deque::new()
}

/// `heapless::Deque::<BytePacket<260>, 16>::is_full`: whether 16 packets are held.
#[verifier::external_body]
fn ring_is_full(d: &heapless::Deque<BytePacket<260>, 16>) -> (r: bool)
    ensures
        r == (ring_packets(*d).len() >= 16),
{
    d.is_full()
}

/// `heapless::Deque::<BytePacket<260>, 16>::push_back`: adds a packet behind the others, or hands it
/// back when 16 are held.
#[verifier::external_body]
fn ring_push_back(
    d: &mut heapless::Deque<BytePacket<260>, 16>,
    packet: BytePacket<260>,
) -> (r: Result<(), BytePacket<260>>)
    ensures
        r is Ok <==> ring_packets(*old(d)).len() < 16,
        r is Ok ==> ring_packets(*final(d)) == ring_packets(*old(d)).push(packet),
        r matches Err(back) ==> back == packet && ring_packets(*final(d)) == ring_packets(*old(d)),
{
    d.push_back(packet)
}

/// `heapless::Deque::<BytePacket<260>, 16>::pop_front`: removes and returns the oldest packet.
#[verifier::external_body]
fn ring_pop_front(d: &mut heapless::Deque<BytePacket<260>, 16>) -> (r: Option<BytePacket<260>>)
    ensures
        ring_packets(*old(d)).len() == 0 ==> r is None && ring_packets(*final(d)) == ring_packets(
            *old(d),
        ),
        ring_packets(*old(d)).len() > 0 ==> r == Some(ring_packets(*old(d))[0]) && ring_packets(
            *final(d),
        ) == ring_packets(*old(d)).drop_first(),
{
    d.pop_front()
}

/// `heapless::Deque::<BytePacket<260>, 16>::pop_back`: removes and returns the newest packet.
#[verifier::external_body]
fn ring_pop_back(d: &mut heapless::Deque<BytePacket<260>, 16>) -> (r: Option<BytePacket<260>>)
    ensures
        ring_packets(*old(d)).len() == 0 ==> r is None && ring_packets(*final(d)) == ring_packets(
            *old(d),
        ),
        ring_packets(*old(d)).len() > 0 ==> r == Some(ring_packets(*old(d)).last())
            && ring_packets(*final(d)) == ring_packets(*old(d)).drop_last(),
{
    d.pop_back()
}

/// `heapless::Deque::<BytePacket<260>, 16>::push_front`: puts a packet in front of the others, or
/// hands it back when 16 are held.
#[verifier::external_body]
fn ring_push_front(
    d: &mut heapless::Deque<BytePacket<260>, 16>,
    packet: BytePacket<260>,
) -> (r: Result<(), BytePacket<260>>)
    ensures
        r is Ok <==> ring_packets(*old(d)).len() < 16,
        r is Ok ==> ring_packets(*final(d)) == seq![packet] + ring_packets(*old(d)),
        r matches Err(back) ==> back == packet && ring_packets(*final(d)) == ring_packets(*old(d)),
{
    d.push_front(packet)
}

/// `heapless::Deque::<BytePacket<260>, 16>::len`: the number of packets held.
#[verifier::external_body]
fn ring_len(d: &heapless::Deque<BytePacket<260>, 16>) -> (n: usize)
    ensures
        n == ring_packets(*d).len(),
{
    d.len()
}

/// `heapless::Deque::<BytePacket<260>, 16>::front`: the oldest packet, if there is one.
#[verifier::external_body]
fn ring_front(d: &heapless::Deque<BytePacket<260>, 16>) -> (r: Option<&BytePacket<260>>)
    ensures
        r is None <==> ring_packets(*d).len() == 0,
        r matches Some(packet) ==> *packet == ring_packets(*d)[0],
{
    d.front()
}

/// `heapless::Deque::<BytePacket<260>, 16>::iter`: walks the packets from the oldest on, so its item
/// at a position is the packet at that position.
#[verifier::external_body]
fn ring_item(d: &heapless::Deque<BytePacket<260>, 16>, index: usize) -> (r: Option<&BytePacket<260>>)
    ensures
        r is None <==> ring_packets(*d).len() <= index,
        r matches Some(packet) ==> *packet == ring_packets(*d)[index as int],
{
    d.iter().nth(index)
}

/// `heapless::Deque::<BytePacket<260>, 16>::clear`: the store is empty afterwards.
#[verifier::external_body]
fn ring_clear(d: &mut heapless::Deque<BytePacket<260>, 16>)
    ensures
        ring_packets(*final(d)) == Seq::<BytePacket<260>>::empty(),
{
    d.clear()
}

impl BoundedDeque<BytePacket<260>> for heapless::Deque<BytePacket<260>, 16> {
    open spec fn contents(&self) -> Seq<BytePacket<260>> {
        ring_packets(*self)
    }

    open spec fn capacity() -> nat {
        16
    }

    proof fn capacity_is_positive() {
    }

    fn empty() -> (d: Self) {
        ring_new()
    }

    fn at_capacity(&self) -> (r: bool) {
        ring_is_full(self)
    }

    fn push_last(&mut self, item: BytePacket<260>) -> (r: Result<(), BytePacket<260>>) {
        ring_push_back(self, item)
    }

    fn pop_first(&mut self) -> (r: Option<BytePacket<260>>) {
        ring_pop_front(self)
    }
}

impl RingDeque<BytePacket<260>> for heapless::Deque<BytePacket<260>, 16> {
    fn count(&self) -> (n: usize) {
        ring_len(self)
    }

    fn pop_last(&mut self) -> (r: Option<BytePacket<260>>) {
        ring_pop_back(self)
    }

    fn push_first(&mut self, item: BytePacket<260>) -> (r: Result<(), BytePacket<260>>) {
        ring_push_front(self, item)
    }

    fn first(&self) -> (r: Option<&BytePacket<260>>) {
        ring_front(self)
    }

    fn item(&self, index: usize) -> (r: Option<&BytePacket<260>>) {
        ring_item(self, index)
    }

    fn remove_all(&mut self) {
        ring_clear(self)
    }
}

/// Sending bytes takes exactly those bytes off the front of what is pending.
pub proof fn consume_takes_bytes_off_the_front(packets: Seq<Seq<u8>>, sent: nat, count: nat)
    requires
        forall|i: int| 0 <= i < packets.len() ==> #[trigger] packets[i].len() > 0,
        packets.len() == 0 ==> sent == 0,
        packets.len() > 0 ==> sent < packets[0].len(),
    ensures
        ({
            let (left, sent_left) = after_consume(packets, sent, count);
            pending_bytes(left, sent_left) == if count <= pending_bytes(packets, sent).len() {
                pending_bytes(packets, sent).skip(count as int)
            } else {
                Seq::empty()
            }
        }),
    decreases packets.len(),
{
    let pending = pending_bytes(packets, sent);
    if packets.len() > 0 {
        let rest = packets.drop_first();
        assert(packets.flatten() == packets[0] + rest.flatten());
        assert(packets.flatten().skip(sent as int) == packets[0].skip(sent as int)
            + rest.flatten());
        if count == 0 {
            assert(pending.skip(0) == pending);
        } else if sent + count < packets[0].len() {
            assert(packets.flatten().skip((sent + count) as int) == pending.skip(count as int));
        } else {
            let left = (sent + count - packets[0].len()) as nat;
            if rest.len() > 0 {
                assert(rest[0] == packets[1]);
            }
            consume_takes_bytes_off_the_front(rest, 0, left);
            assert(rest.flatten().skip(0) == rest.flatten());
            if count <= pending.len() {
                assert(rest.flatten().skip(left as int) == pending.skip(count as int));
            }
        }
    } else {
        assert(packets.flatten() == Seq::<u8>::empty());
        assert(pending == Seq::<u8>::empty());
    }
}

/// A packet that is not empty is sent whole behind everything that a full ring did not drop, and
/// the rest of a packet that is partly out is still sent in front of it.
pub proof fn push_keeps_whole_packets(
    packets: Seq<Seq<u8>>,
    sent: nat,
    packet: Seq<u8>,
    max_packets: nat,
)
    requires
        max_packets > 1,
        packet.len() > 0,
        packets.len() <= max_packets,
        packets.len() == 0 ==> sent == 0,
        packets.len() > 0 ==> sent < packets[0].len(),
    ensures
        pending_bytes(
            packets_after_push(packets, sent, packet, max_packets),
            sent_after_push(packets, sent, packet, max_packets),
        ) == (if packets.len() < max_packets {
            pending_bytes(packets, sent)
        } else if sent == 0 {
            packets.drop_first().flatten()
        } else {
            packets[0].skip(sent as int) + packets.skip(2).flatten()
        }) + packet,
{
    let kept = if packets.len() < max_packets {
        packets
    } else if sent == 0 {
        packets.drop_first()
    } else {
        seq![packets[0]] + packets.skip(2)
    };
    kept.lemma_flatten_push(packet);
    if packets.len() > 0 {
        assert(packets.flatten() == packets[0] + packets.drop_first().flatten());
    }
    if packets.len() >= max_packets && sent > 0 {
        assert(kept.drop_first() == packets.skip(2));
        assert(kept.flatten() == packets[0] + packets.skip(2).flatten());
    }
    assert((kept.flatten() + packet).skip(sent as int) == kept.flatten().skip(sent as int)
        + packet);
    if packets.len() >= max_packets {
        if sent == 0 {
            assert(kept.flatten().skip(0) == kept.flatten());
        } else {
            assert(kept.flatten().skip(sent as int) == packets[0].skip(sent as int)
                + packets.skip(2).flatten());
        }
    }
}

/// The bytes of each of a list of slices.
pub open spec fn slice_bytes(slices: Seq<&[u8]>) -> Seq<Seq<u8>> {
    slices.map_values(|s: &[u8]| s@)
}

/// A packet made of slices holds all their bytes in order, as far as they fit.
pub proof fn packets_join_their_slices(slices: Seq<&[u8]>, room: nat)
    requires
        forall|i: int| 0 <= i < slices.len() ==> (#[trigger] slices[i])@.len() > 0,
    ensures
        slice_bytes(slices).flatten().len() <= room ==> joined(slices, room) == slice_bytes(
            slices,
        ).flatten(),
        slice_bytes(slices).flatten().len() > room ==> joined(slices, room) == slice_bytes(
            slices,
        ).flatten().take(room as int),
    decreases slices.len(),
{
    let all = slice_bytes(slices).flatten();
    if slices.len() == 0 {
        assert(all =~= Seq::<u8>::empty());
    } else {
        let first = slices[0]@;
        let rest = slices.drop_first();
        assert(first.len() > 0);
        assert(slice_bytes(slices)[0] == first);
        assert(slice_bytes(slices).drop_first() =~= slice_bytes(rest));
        assert(all =~= first + slice_bytes(rest).flatten());
        assert forall|i: int| 0 <= i < rest.len() implies (#[trigger] rest[i])@.len() > 0 by {
            assert(rest[i] == slices[i + 1]);
        }
        if first.len() <= room {
            packets_join_their_slices(rest, (room - first.len()) as nat);
            assert(first.take(first.len() as int) =~= first);
            if all.len() > room {
                assert(all.take(room as int) =~= first + slice_bytes(rest).flatten().take(
                    room - first.len(),
                ));
            }
        } else {
            packets_join_their_slices(rest, 0);
            assert(all.take(room as int) =~= first.take(room as int));
            if room > 0 {
                assert(joined(rest, 0) =~= Seq::<u8>::empty());
            }
            assert(joined(slices, room) =~= first.take(room as int));
        }
    }
}

} // verus!
