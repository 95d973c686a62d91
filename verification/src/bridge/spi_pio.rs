//! Framing helpers for the upstream PIO-backed SPI slave transport.

use crate::bytes::min_size;
use crate::bytes::write_at;
use crate::bytes::zero_padded;
use crate::protocol::i2c::frame_bytes;
use crate::protocol::i2c::make_response_frame;
use crate::protocol::i2c::response_frame;
use crate::protocol::i2c::response_sync;
use crate::protocol::i2c::FRAME_HEADER_SIZE;
use crate::protocol::i2c::FRAME_SIZE;
use crate::protocol::i2c::PAYLOAD_MAX;
use crate::protocol::i2c::REQ_COMMAND_MAGIC;
use crate::protocol::i2c::REQ_DATA_MAGIC;
use crate::protocol::i2c::RESP_DATA_MAGIC;
use crate::protocol::transfer::frame_len;
use crate::protocol::transfer::short_frame;
use crate::protocol::transfer::short_header_carries;
use crate::protocol::transfer::transfer_len;
use crate::protocol::transfer::SHORT_HEADER_SIZE;
use vstd::prelude::*;

verus! {

/// Number of received bytes that are looked at whatever the receive count says.
pub const SCAN_MIN: usize = 8;

/// Result of one CS-bounded SPI transaction.
#[derive(Clone, Copy, Debug, Eq, PartialEq)]
pub enum TransactionResult {
    /// Nothing but zeros came in.
    IdlePoll { received: usize, preview: [u8; 8] },
    /// The transaction ended before the frame did.
    Partial { received: usize, expected: usize, frame: [u8; FRAME_SIZE] },
    /// A whole frame came in.
    Complete([u8; FRAME_SIZE]),
}

/// The result of a transaction as a mathematical value.
pub enum Transaction {
    /// Nothing but zeros came in.
    IdlePoll(nat, Seq<u8>),
    /// The transaction ended before the frame did.
    Partial(nat, nat, Seq<u8>),
    /// A whole frame came in.
    Complete(Seq<u8>),
}

impl View for TransactionResult {
    type V = Transaction;

    open spec fn view(&self) -> Transaction {
        match self {
            TransactionResult::IdlePoll { received, preview } => Transaction::IdlePoll(
                *received as nat,
                preview@,
            ),
            TransactionResult::Partial { received, expected, frame } => Transaction::Partial(
                *received as nat,
                *expected as nat,
                frame@,
            ),
            TransactionResult::Complete(frame) => Transaction::Complete(frame@),
        }
    }
}

/// Whether a byte starts a request.
pub open spec fn is_request_magic(byte: u8) -> bool {
    byte == REQ_DATA_MAGIC || byte == REQ_COMMAND_MAGIC
}

/// The number of bytes at the start of a buffer that are looked at.
pub open spec fn scan_len(received: nat) -> nat {
    if received < SCAN_MIN {
        SCAN_MIN as nat
    } else if received < FRAME_SIZE {
        received
    } else {
        FRAME_SIZE as nat
    }
}

/// The first position from `from` on at which a request starts, or `to` when there is none before it.
pub open spec fn request_start(bytes: Seq<u8>, from: nat, to: nat) -> nat
    decreases to - from,
{
    if from >= to {
        to
    } else if is_request_magic(bytes[from as int]) {
        from
    } else {
        request_start(bytes, from + 1, to)
    }
}

/// A received buffer moved so that the request in its scanned part comes first, with the count of
/// bytes from there on. Without a request the buffer stays as it is.
pub open spec fn normalized(rx: Seq<u8>, received: nat) -> (Seq<u8>, nat) {
    let scan = scan_len(received);
    let start = request_start(rx, 0, scan);
    if start == 0 || start >= scan {
        (
            rx,
            if received < FRAME_SIZE {
                received
            } else {
                FRAME_SIZE as nat
            },
        )
    } else {
        (zero_padded(rx.skip(start as int), FRAME_SIZE as nat), (scan - start) as nat)
    }
}

/// The number of bytes that a frame calls for. Without any header byte that is a full frame.
pub open spec fn expected_len(frame: Seq<u8>, received: nat) -> nat {
    if received >= 2 || frame[0] != 0 || frame[1] != 0 {
        frame_len(frame)
    } else {
        FRAME_SIZE as nat
    }
}

/// What a transaction brought: the frame is complete once as many bytes came in as it calls for.
pub open spec fn transaction(rx: Seq<u8>, received: nat) -> Transaction {
    let (frame, count) = normalized(rx, received);
    if frame.take(scan_len(count) as int) == Seq::new(scan_len(count), |i: int| 0u8) {
        Transaction::IdlePoll(count, frame.take(8))
    } else if count >= expected_len(frame, count) {
        Transaction::Complete(frame)
    } else {
        Transaction::Partial(count, expected_len(frame, count), frame)
    }
}

/// The empty data response.
pub open spec fn empty_response() -> Seq<u8> {
    response_frame(RESP_DATA_MAGIC, Seq::empty())
}

/// Frame staging and per-transaction bookkeeping for an SPI slave.
#[derive(Clone, Copy)]
pub struct PioSpiTransportState {
    staged_tx: [u8; FRAME_SIZE],
}

impl PioSpiTransportState {
    /// The staged response frame.
    pub closed spec fn view(&self) -> Seq<u8> {
        self.staged_tx@
    }

    /// Creates a new state with the default empty data response staged.
    pub fn new() -> (state: Self)
        ensures
            state@ == empty_response(),
    {
        PioSpiTransportState { staged_tx: make_empty_response() }
    }

    /// Stages the next response frame for clock-out on the next transaction.
    pub fn stage_response(&mut self, frame: [u8; FRAME_SIZE])
        ensures
            final(self)@ == frame@,
    {
        self.staged_tx = frame;
    }

    /// Returns the currently staged response frame.
    pub fn staged_response(&self) -> (frame: [u8; FRAME_SIZE])
        ensures
            frame@ == self@,
    {
        self.staged_tx
    }

    /// Finalizes a CS-bounded transaction from the receive buffer and stages the empty response.
    pub fn finish_transaction(&mut self, rx_frame: &[u8; FRAME_SIZE], received: usize) -> (result:
        TransactionResult)
        ensures
            result@ == transaction(rx_frame@, received as nat),
            final(self)@ == empty_response(),
    {
        let (frame, count) = normalize_request_frame(rx_frame, received);
        let scan: usize = if count < SCAN_MIN {
            SCAN_MIN
        } else {
            count
        };
        let idle = all_zero(&frame, scan);
        let expected: usize = if count >= 2 || frame[0] != 0 || frame[1] != 0 {
            transfer_len(&frame)
        } else {
            FRAME_SIZE
        };
        let result = if idle {
            let mut preview = [0u8; 8];
            write_at(&mut preview, 0, &frame[0..8]);
            assert(preview@ =~= frame@.take(8));
            TransactionResult::IdlePoll { received: count, preview }
        } else if count >= expected {
            TransactionResult::Complete(frame)
        } else {
            TransactionResult::Partial { received: count, expected, frame }
        };
        self.staged_tx = make_empty_response();
        result
    }
}

/// Builds the empty data response.
pub fn make_empty_response() -> (frame: [u8; FRAME_SIZE])
    ensures
        frame@ == empty_response(),
{
    let none = [0u8; 0];
    assert(none@ == Seq::<u8>::empty());
    make_response_frame(RESP_DATA_MAGIC, &none)
}

/// Whether the first `len` bytes of a frame are zero.
fn all_zero(frame: &[u8; FRAME_SIZE], len: usize) -> (r: bool)
    requires
        len <= FRAME_SIZE,
    ensures
        r == (frame@.take(len as int) == Seq::new(len as nat, |i: int| 0u8)),
{
    for i in 0..len
        invariant
            len <= FRAME_SIZE,
            forall|j: int| 0 <= j < i ==> frame@[j] == 0,
    {
        if frame[i] != 0 {
            assert(frame@.take(len as int)[i as int] != 0);
            return false;
        }
    }
    assert(frame@.take(len as int) =~= Seq::new(len as nat, |i: int| 0u8));
    true
}

fn normalize_request_frame(rx_frame: &[u8; FRAME_SIZE], received: usize) -> (r: (
    [u8; FRAME_SIZE],
    usize,
))
    ensures
        (r.0@, r.1 as nat) == normalized(rx_frame@, received as nat),
        r.1 <= FRAME_SIZE,
{
    let received: usize = min_size(received, FRAME_SIZE);
    let scan: usize = if received < SCAN_MIN {
        SCAN_MIN
    } else {
        received
    };
    let mut offset: usize = 0;
    while offset < scan && rx_frame[offset] != REQ_DATA_MAGIC && rx_frame[offset]
        != REQ_COMMAND_MAGIC
        invariant
            offset <= scan,
            scan <= FRAME_SIZE,
            request_start(rx_frame@, 0, scan as nat) == request_start(
                rx_frame@,
                offset as nat,
                scan as nat,
            ),
        ensures
            offset <= scan,
            offset == request_start(rx_frame@, 0, scan as nat),
        decreases scan - offset,
    {
        offset = offset + 1;
    }
    if offset == 0 || offset == scan {
        return (*rx_frame, received);
    }
    let mut moved = [0u8; FRAME_SIZE];
    write_at(&mut moved, 0, &rx_frame[offset..FRAME_SIZE]);
    assert(moved@ =~= zero_padded(rx_frame@.skip(offset as int), FRAME_SIZE as nat));
    (moved, scan - offset)
}

proof fn request_start_skips(bytes: Seq<u8>, from: nat, at: nat, to: nat)
    requires
        from <= at < to,
        is_request_magic(bytes[at as int]),
        forall|i: int| from <= i < at ==> !is_request_magic(#[trigger] bytes[i]),
    ensures
        request_start(bytes, from, to) == at,
    decreases at - from,
{
    if from < at {
        request_start_skips(bytes, from + 1, at, to);
    }
}

/// The start of a request behind bytes that start none is found, and the frame comes out moved.
proof fn moved_frame_is_complete(sent: Seq<u8>, frame: Seq<u8>, junk: nat, received: nat)
    requires
        frame.len() == FRAME_SIZE,
        sent.len() <= received <= FRAME_SIZE,
        junk < sent.len(),
        junk + frame_len(frame) <= received,
        is_request_magic(frame[0]),
        forall|i: int| 0 <= i < junk ==> !is_request_magic(#[trigger] sent[i]),
        zero_padded(sent.skip(junk as int), FRAME_SIZE as nat) == frame,
    ensures
        transaction(zero_padded(sent, FRAME_SIZE as nat), received) == Transaction::Complete(frame),
{
    let rx = zero_padded(sent, FRAME_SIZE as nat);
    let scan = scan_len(received);
    assert(sent.skip(junk as int)[0] == frame[0]);
    assert(rx[junk as int] == frame[0]);
    assert forall|i: int| 0 <= i < junk implies !is_request_magic(#[trigger] rx[i]) by {
        assert(rx[i] == sent[i]);
    }
    request_start_skips(rx, 0, junk, scan);
    assert(zero_padded(rx.skip(junk as int), FRAME_SIZE as nat) =~= frame);
    if junk == 0 {
        assert(rx =~= frame);
    }
    let (moved, count) = normalized(rx, received);
    assert(moved == frame);
    assert(frame.take(scan_len(count) as int)[0] == frame[0]);
    assert(Seq::new(scan_len(count), |i: int| 0u8)[0] == 0u8);
}

/// A whole request with the link header is recognised whatever bytes that start no request the clock
/// brought in front of it, up to the full payload.
pub proof fn whole_request_is_complete(magic: u8, payload: Seq<u8>, junk: Seq<u8>, received: nat)
    requires
        is_request_magic(magic),
        payload.len() <= PAYLOAD_MAX,
        junk.len() + FRAME_HEADER_SIZE + payload.len() <= received <= FRAME_SIZE,
        forall|i: int| 0 <= i < junk.len() ==> !is_request_magic(#[trigger] junk[i]),
    ensures
        transaction(
            zero_padded(junk + frame_bytes(response_sync(magic), payload), FRAME_SIZE as nat),
            received,
        ) == Transaction::Complete(response_frame(magic, payload)),
{
    let sent = junk + frame_bytes(response_sync(magic), payload);
    let frame = response_frame(magic, payload);
    assert(sent.skip(junk.len() as int) =~= frame_bytes(response_sync(magic), payload));
    assert(frame_len(frame) == FRAME_HEADER_SIZE + payload.len());
    assert forall|i: int| 0 <= i < junk.len() implies !is_request_magic(#[trigger] sent[i]) by {
        assert(sent[i] == junk[i]);
    }
    moved_frame_is_complete(sent, frame, junk.len(), received);
}

/// The same holds of a request with the short header, for every payload that the header can
/// announce.
pub proof fn whole_short_request_is_complete(
    magic: u8,
    payload: Seq<u8>,
    junk: Seq<u8>,
    received: nat,
)
    requires
        is_request_magic(magic),
        short_header_carries(magic, payload.len()),
        junk.len() + SHORT_HEADER_SIZE + payload.len() <= received <= FRAME_SIZE,
        forall|i: int| 0 <= i < junk.len() ==> !is_request_magic(#[trigger] junk[i]),
    ensures
        transaction(
            zero_padded(junk + seq![magic, payload.len() as u8] + payload, FRAME_SIZE as nat),
            received,
        ) == Transaction::Complete(short_frame(magic, payload)),
{
    let sent = junk + seq![magic, payload.len() as u8] + payload;
    let frame = short_frame(magic, payload);
    assert(sent.skip(junk.len() as int) =~= seq![magic, payload.len() as u8] + payload);
    assert(zero_padded(sent.skip(junk.len() as int), FRAME_SIZE as nat) =~= frame);
    assert(frame_len(frame) == SHORT_HEADER_SIZE + payload.len());
    assert forall|i: int| 0 <= i < junk.len() implies !is_request_magic(#[trigger] sent[i]) by {
        assert(sent[i] == junk[i]);
    }
    moved_frame_is_complete(sent, frame, junk.len(), received);
}

/// A transaction in which only zeros came in is an idle poll.
pub proof fn zeros_are_an_idle_poll(received: nat)
    requires
        received <= FRAME_SIZE,
    ensures
        transaction(Seq::new(FRAME_SIZE as nat, |i: int| 0u8), received) == Transaction::IdlePoll(
            received,
            Seq::new(8, |i: int| 0u8),
        ),
{
    let rx = Seq::new(FRAME_SIZE as nat, |i: int| 0u8);
    zeros_start_no_request(rx, 0, scan_len(received));
    assert(rx.take(8) =~= Seq::new(8, |i: int| 0u8));
    assert(rx.take(scan_len(received) as int) =~= Seq::new(scan_len(received), |i: int| 0u8));
}

proof fn zeros_start_no_request(bytes: Seq<u8>, from: nat, to: nat)
    requires
        from <= to <= bytes.len(),
        forall|i: int| 0 <= i < bytes.len() ==> #[trigger] bytes[i] == 0,
    ensures
        request_start(bytes, from, to) == to,
    decreases to - from,
{
    if from < to {
        zeros_start_no_request(bytes, from + 1, to);
    }
}

/// A request that the clock cut short is reported as such, with the bytes that came in and the bytes
/// that it calls for.
pub proof fn cut_requests_are_partial(magic: u8, payload: Seq<u8>, received: nat)
    requires
        is_request_magic(magic),
        payload.len() <= PAYLOAD_MAX,
        received < FRAME_HEADER_SIZE + payload.len(),
    ensures
        transaction(response_frame(magic, payload), received) == Transaction::Partial(
            received,
            (FRAME_HEADER_SIZE + payload.len()) as nat,
            response_frame(magic, payload),
        ),
        short_header_carries(magic, payload.len()) && received < SHORT_HEADER_SIZE + payload.len()
            ==> transaction(short_frame(magic, payload), received) == Transaction::Partial(
            received,
            (SHORT_HEADER_SIZE + payload.len()) as nat,
            short_frame(magic, payload),
        ),
{
    let link = response_frame(magic, payload);
    request_start_skips(link, 0, 0, scan_len(received));
    assert(link.take(scan_len(received) as int)[0] == magic);
    assert(Seq::new(scan_len(received), |i: int| 0u8)[0] == 0u8);
    assert(frame_len(link) == FRAME_HEADER_SIZE + payload.len());
    if short_header_carries(magic, payload.len()) {
        let short = short_frame(magic, payload);
        request_start_skips(short, 0, 0, scan_len(received));
        assert(short.take(scan_len(received) as int)[0] == magic);
        assert(frame_len(short) == SHORT_HEADER_SIZE + payload.len());
    }
}

/// A frame comes out of the receive buffer as it stands there, from its start on.
pub proof fn frames_come_out_unchanged(rx: Seq<u8>, received: nat)
    requires
        rx.len() == FRAME_SIZE,
    ensures
        transaction(rx, received) matches Transaction::Complete(frame) ==> exists|at: int|
            0 <= at < FRAME_SIZE && frame == zero_padded(#[trigger] rx.skip(at), FRAME_SIZE as nat),
        transaction(rx, received) matches Transaction::Partial(count, expected, frame) ==> count
            < expected && count <= FRAME_SIZE && exists|at: int|
            0 <= at < FRAME_SIZE && frame == zero_padded(#[trigger] rx.skip(at), FRAME_SIZE as nat),
{
    assert(zero_padded(rx.skip(0), FRAME_SIZE as nat) =~= rx);
    let start = request_start(rx, 0, scan_len(received)) as int;
    assert(zero_padded(rx.skip(start), FRAME_SIZE as nat) == zero_padded(
        rx.skip(start),
        FRAME_SIZE as nat,
    ));
}

/// The default response is empty data.
pub proof fn default_response_is_empty_data()
    ensures
        empty_response().len() == FRAME_SIZE,
        crate::protocol::transfer::transfer_request(empty_response()) == Some(
            crate::protocol::i2c::Request::Data(Seq::<u8>::empty()),
        ),
{
    crate::protocol::transfer::link_frame_parses_back(Seq::empty());
}

/// An idle poll is one in which every byte that came in is zero.
pub proof fn idle_polls_bring_only_zeros(rx: Seq<u8>, received: nat, at: int)
    requires
        rx.len() == FRAME_SIZE,
        0 <= at < received,
        at < FRAME_SIZE,
        rx[at] != 0,
    ensures
        !(transaction(rx, received) is IdlePoll),
{
    let scan = scan_len(received);
    let start = request_start(rx, 0, scan);
    request_start_found(rx, 0, scan);
    let (frame, count) = normalized(rx, received);
    let seen = frame.take(scan_len(count) as int);
    if start == 0 || start >= scan {
        assert(seen[at] == rx[at]);
        assert(Seq::new(scan_len(count), |i: int| 0u8)[at] == 0u8);
    } else {
        assert(seen[0] == rx[start as int]);
        assert(Seq::new(scan_len(count), |i: int| 0u8)[0] == 0u8);
    }
}

proof fn request_start_found(bytes: Seq<u8>, from: nat, to: nat)
    requires
        from <= to <= bytes.len(),
    ensures
        from <= request_start(bytes, from, to) <= to,
        request_start(bytes, from, to) < to ==> is_request_magic(
            bytes[request_start(bytes, from, to) as int],
        ),
    decreases to - from,
{
    if from < to && !is_request_magic(bytes[from as int]) {
        request_start_found(bytes, from + 1, to);
    }
}

/// A request starts with one of two bytes.
pub proof fn requests_start_with_their_magic(byte: u8)
    ensures
        is_request_magic(byte) <==> byte == 0xa5 || byte == 0xa6,
{
}

} // verus!
