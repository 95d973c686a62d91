//! Decisions of the TCP transport: bridge framing, handshake and transfer progress.

use crate::bytes::high_byte;
use crate::bytes::le16;
use crate::bytes::le16_round_trip;
use crate::bytes::low_byte;
use crate::bytes::read_le16;
use crate::bytes::write_at;
use crate::config::AddressMode;
use crate::config::BridgeConfig;
use crate::config::Ipv4Config;
use crate::text::same_bytes;
use vstd::prelude::*;

verus! {

/// Number of bytes in the Ethernet bridge frame header.
pub const BRIDGE_FRAME_HEADER_SIZE: usize = 4;

/// The most bytes of a bridge frame that goes out in one write.
pub const BRIDGE_FRAME_INLINE_WRITE_MAX: usize = 512;

/// First byte of a bridge frame.
pub const BRIDGE_FRAME_MAGIC0: u8 = 0xB5;

/// Second byte of a bridge frame.
pub const BRIDGE_FRAME_MAGIC1: u8 = 0x4E;

/// Number of bytes exchanged in the handshake.
pub const HANDSHAKE_SIZE: usize = 7;

/// The header of a bridge frame.
pub open spec fn bridge_header_bytes(len: nat) -> Seq<u8> {
    seq![BRIDGE_FRAME_MAGIC0, BRIDGE_FRAME_MAGIC1, low_byte(len), high_byte(len)]
}

/// A bridge frame.
pub open spec fn bridge_frame_bytes(payload: Seq<u8>) -> Seq<u8> {
    bridge_header_bytes(payload.len()) + payload
}

/// The payload length that a bridge header announces, if it is one and the payload fits.
pub open spec fn announced_len(header: Seq<u8>, room: nat) -> Option<nat> {
    if header[0] == BRIDGE_FRAME_MAGIC0 && header[1] == BRIDGE_FRAME_MAGIC1 && le16(
        header[2],
        header[3],
    ) <= room {
        Some(le16(header[2], header[3]))
    } else {
        None
    }
}

/// How a bridge frame is written.
pub enum BridgeWrite {
    /// In one write of the first `len` bytes of `frame`.
    Inline { frame: [u8; BRIDGE_FRAME_INLINE_WRITE_MAX], len: usize },
    /// The header first, and then the payload.
    Split { header: [u8; BRIDGE_FRAME_HEADER_SIZE] },
    /// Not at all: the payload is too long.
    Refused,
}

/// Plans how a payload is written to the peer. Small frames go out in one write.
pub fn plan_bridge_write(payload: &[u8]) -> (plan: BridgeWrite)
    ensures
        match plan {
            BridgeWrite::Inline { frame, len } => {
                &&& payload@.len() + BRIDGE_FRAME_HEADER_SIZE <= BRIDGE_FRAME_INLINE_WRITE_MAX
                &&& len == payload@.len() + BRIDGE_FRAME_HEADER_SIZE
                &&& frame@.take(len as int) == bridge_frame_bytes(payload@)
            },
            BridgeWrite::Split { header } => {
                &&& payload@.len() + BRIDGE_FRAME_HEADER_SIZE > BRIDGE_FRAME_INLINE_WRITE_MAX
                &&& payload@.len() <= u16::MAX
                &&& header@ + payload@ == bridge_frame_bytes(payload@)
            },
            BridgeWrite::Refused => payload@.len() > u16::MAX,
        },
{
    let n: usize = payload.len();
    if n > u16::MAX as usize {
        return BridgeWrite::Refused;
    }
    let header = [
        BRIDGE_FRAME_MAGIC0,
        BRIDGE_FRAME_MAGIC1,
        (n % 256) as u8,
        (n / 256) as u8,
    ];
    assert(header@ =~= bridge_header_bytes(payload@.len()));
    if n + BRIDGE_FRAME_HEADER_SIZE <= BRIDGE_FRAME_INLINE_WRITE_MAX {
        let mut frame = [0u8; BRIDGE_FRAME_INLINE_WRITE_MAX];
        let len: usize = BRIDGE_FRAME_HEADER_SIZE + n;
        write_at(&mut frame, 0, &header);
        write_at(&mut frame, BRIDGE_FRAME_HEADER_SIZE, payload);
        assert(frame@.take(len as int) =~= bridge_frame_bytes(payload@));
        return BridgeWrite::Inline { frame, len };
    }
    BridgeWrite::Split { header }
}

/// Reads a bridge header: the payload length, if the header is one and the payload fits in `room`
/// bytes.
pub fn parse_bridge_header(header: &[u8; BRIDGE_FRAME_HEADER_SIZE], room: usize) -> (r: Option<
    usize,
>)
    ensures
        r is Some <==> announced_len(header@, room as nat) is Some,
        r matches Some(len) ==> announced_len(header@, room as nat) == Some(len as nat),
{
    if header[0] != BRIDGE_FRAME_MAGIC0 || header[1] != BRIDGE_FRAME_MAGIC1 {
        return None;
    }
    let len: usize = read_le16(header[2], header[3]) as usize;
    if len > room {
        None
    } else {
        Some(len)
    }
}

/// A bridge frame announces exactly its payload to a reader with room for it.
pub proof fn bridge_frame_reads_back(payload: Seq<u8>, room: nat)
    requires
        payload.len() <= u16::MAX,
    ensures
        payload.len() <= room ==> announced_len(bridge_frame_bytes(payload).take(4), room) == Some(
            payload.len(),
        ),
        payload.len() > room ==> announced_len(bridge_frame_bytes(payload).take(4), room) is None,
        bridge_frame_bytes(payload).skip(4) == payload,
{
    le16_round_trip(payload.len());
    let frame = bridge_frame_bytes(payload);
    assert(frame.take(4) =~= bridge_header_bytes(payload.len()));
    assert(frame.skip(4) =~= payload);
}

/// One step of the handshake.
#[derive(Clone, Copy, Debug, PartialEq, Eq, Structural)]
pub enum HandshakeStep {
    /// Sends the magic.
    Send,
    /// Waits for the peer's magic.
    Await,
    /// The peer is compatible.
    Accepted,
    /// The peer is not.
    Rejected,
}

/// What came of a handshake step.
pub enum HandshakeEvent<'a> {
    /// The magic was sent.
    Sent,
    /// These bytes came in time.
    Received(&'a [u8]),
    /// Sending failed, or nothing came in time.
    Failed,
}

/// The first step: the initiator sends, its peer waits.
pub open spec fn opening_step(initiator: bool) -> HandshakeStep {
    if initiator {
        HandshakeStep::Send
    } else {
        HandshakeStep::Await
    }
}

/// The first step: the initiator sends, its peer waits.
pub fn first_handshake_step(initiator: bool) -> (step: HandshakeStep)
    ensures
        step == opening_step(initiator),
{
    if initiator {
        HandshakeStep::Send
    } else {
        HandshakeStep::Await
    }
}

/// The step that follows. An initiator is done when the magic came back, its peer when it sent the
/// magic back.
pub open spec fn handshake_after(
    initiator: bool,
    step: HandshakeStep,
    event: HandshakeEvent,
    magic: Seq<u8>,
) -> HandshakeStep {
    match (step, event) {
        (HandshakeStep::Send, HandshakeEvent::Sent) => if initiator {
            HandshakeStep::Await
        } else {
            HandshakeStep::Accepted
        },
        (HandshakeStep::Await, HandshakeEvent::Received(bytes)) => if bytes@ != magic {
            HandshakeStep::Rejected
        } else if initiator {
            HandshakeStep::Accepted
        } else {
            HandshakeStep::Send
        },
        (HandshakeStep::Accepted, _) => HandshakeStep::Accepted,
        _ => HandshakeStep::Rejected,
    }
}

/// The step that follows.
pub fn next_handshake_step(
    initiator: bool,
    step: HandshakeStep,
    event: HandshakeEvent,
    magic: &[u8],
) -> (next: HandshakeStep)
    ensures
        next == handshake_after(initiator, step, event, magic@),
{
    match step {
        HandshakeStep::Send => match event {
            HandshakeEvent::Sent => if initiator {
                HandshakeStep::Await
            } else {
                HandshakeStep::Accepted
            },
            _ => HandshakeStep::Rejected,
        },
        HandshakeStep::Await => match event {
            HandshakeEvent::Received(bytes) => {
                if !same_bytes(bytes, magic) {
                    HandshakeStep::Rejected
                } else if initiator {
                    HandshakeStep::Accepted
                } else {
                    HandshakeStep::Send
                }
            },
            _ => HandshakeStep::Rejected,
        },
        HandshakeStep::Accepted => HandshakeStep::Accepted,
        HandshakeStep::Rejected => HandshakeStep::Rejected,
    }
}

/// Two peers with the same magic accept each other.
pub proof fn matching_peers_accept(magic: &[u8])
    ensures
        ({
            let asked = handshake_after(true, HandshakeStep::Send, HandshakeEvent::Sent, magic@);
            let heard = handshake_after(
                false,
                HandshakeStep::Await,
                HandshakeEvent::Received(magic),
                magic@,
            );
            &&& asked == HandshakeStep::Await
            &&& heard == HandshakeStep::Send
            &&& handshake_after(false, heard, HandshakeEvent::Sent, magic@)
                == HandshakeStep::Accepted
            &&& handshake_after(true, asked, HandshakeEvent::Received(magic), magic@)
                == HandshakeStep::Accepted
        }),
{
}

/// A peer that sends anything else is rejected, and an acceptor then sends nothing.
pub proof fn other_peers_are_rejected(initiator: bool, magic: Seq<u8>, bytes: &[u8])
    requires
        bytes@ != magic,
    ensures
        handshake_after(initiator, HandshakeStep::Await, HandshakeEvent::Received(bytes), magic)
            == HandshakeStep::Rejected,
{
}

/// Progress of a transfer that has to move a whole buffer.
#[derive(Clone, Copy, Debug, PartialEq, Eq, Structural)]
pub enum Progress {
    /// Everything was moved.
    Done,
    /// The next call starts at this position.
    More(usize),
    /// The connection failed or closed before everything was moved.
    Failed,
}

/// Where a transfer of `total` bytes stands at the start.
pub open spec fn started(total: usize) -> Progress {
    if total == 0 {
        Progress::Done
    } else {
        Progress::More(0)
    }
}

/// Where a transfer of `total` bytes stands after a call at position `at` that moved `moved` bytes,
/// or failed.
pub open spec fn continued(at: usize, total: usize, moved: Option<usize>) -> Progress {
    match moved {
        None => Progress::Failed,
        Some(n) => if n == 0 {
            Progress::Failed
        } else if at + n == total {
            Progress::Done
        } else {
            Progress::More((at + n) as usize)
        },
    }
}

/// Where a transfer of `total` bytes stands at the start.
pub fn start_transfer(total: usize) -> (p: Progress)
    ensures
        p == started(total),
{
    if total == 0 {
        Progress::Done
    } else {
        Progress::More(0)
    }
}

/// Where a transfer stands after a call at position `at` that moved `moved` bytes, or failed. A call
/// that moves nothing means that the connection is gone.
pub fn continue_transfer(at: usize, total: usize, moved: Option<usize>) -> (p: Progress)
    requires
        at < total,
        moved matches Some(n) ==> n <= total - at,
    ensures
        p == continued(at, total, moved),
        p matches Progress::More(next) ==> at < next < total,
{
    match moved {
        None => Progress::Failed,
        Some(n) => {
            if n == 0 {
                Progress::Failed
            } else if at + n == total {
                Progress::Done
            } else {
                Progress::More(at + n)
            }
        },
    }
}

/// Whether an address mode calls for a lease.
pub open spec fn needs_lease(mode: AddressMode) -> bool {
    mode is Dhcp
}

/// Whether startup waits for an address lease.
pub fn waits_for_lease(config: &BridgeConfig) -> (r: bool)
    ensures
        r == needs_lease(config.address_mode),
{
    match config.address_mode {
        AddressMode::Dhcp => true,
        AddressMode::Static(_) => false,
    }
}

/// The number of bytes that a run of calls moves.
pub open spec fn moved_in_all(moves: Seq<usize>) -> nat
    decreases moves.len(),
{
    if moves.len() == 0 {
        0
    } else {
        moved_in_all(moves.drop_last()) + moves.last() as nat
    }
}

/// Where a transfer of `total` bytes stands after a run of calls that all moved something.
pub open spec fn after_moves(total: usize, moves: Seq<usize>) -> Progress
    decreases moves.len(),
{
    if moves.len() == 0 {
        started(total)
    } else {
        match after_moves(total, moves.drop_last()) {
            Progress::More(at) => continued(at, total, Some(moves.last())),
            ended => ended,
        }
    }
}

/// A transfer is done exactly when every byte was moved, whatever parts the calls moved, and until
/// then it goes on right behind the bytes that were.
pub proof fn transfers_move_every_byte(total: usize, moves: Seq<usize>)
    requires
        forall|i: int| 0 <= i < moves.len() ==> #[trigger] moves[i] > 0,
        moved_in_all(moves) <= total,
    ensures
        moved_in_all(moves) == total ==> after_moves(total, moves) == Progress::Done,
        moved_in_all(moves) < total ==> after_moves(total, moves) == Progress::More(
            moved_in_all(moves) as usize,
        ),
    decreases moves.len(),
{
    if moves.len() > 0 {
        let front = moves.drop_last();
        assert forall|i: int| 0 <= i < front.len() implies #[trigger] front[i] > 0 by {
            assert(front[i] == moves[i]);
        }
        assert(moves[moves.len() - 1] > 0);
        transfers_move_every_byte(total, front);
    }
}

/// A call that fails or moves nothing ends a transfer that is not done.
pub proof fn stuck_transfers_fail(at: usize, total: usize)
    requires
        at < total,
    ensures
        continued(at, total, None) == Progress::Failed,
        continued(at, total, Some(0)) == Progress::Failed,
{
}

/// A header that does not start with both magic bytes announces nothing, and neither does one whose
/// payload would not fit.
pub proof fn foreign_headers_are_refused(header: Seq<u8>, room: nat)
    requires
        header.len() == BRIDGE_FRAME_HEADER_SIZE,
    ensures
        header[0] != 0xb5 || header[1] != 0x4e ==> announced_len(header, room) is None,
        announced_len(header, room) matches Some(len) ==> len <= room && header
            == bridge_header_bytes(len),
{
    if announced_len(header, room) is Some {
        let len = announced_len(header, room)->0;
        assert(header =~= bridge_header_bytes(len));
    }
}

/// Only the initiator speaks first. A step that fails ends the handshake, and nothing that comes
/// after its end changes it.
pub proof fn handshakes_end_for_good(initiator: bool, magic: Seq<u8>, event: HandshakeEvent)
    ensures
        opening_step(true) == HandshakeStep::Send,
        opening_step(false) == HandshakeStep::Await,
        handshake_after(initiator, HandshakeStep::Send, HandshakeEvent::Failed, magic)
            == HandshakeStep::Rejected,
        handshake_after(initiator, HandshakeStep::Await, HandshakeEvent::Failed, magic)
            == HandshakeStep::Rejected,
        handshake_after(initiator, HandshakeStep::Accepted, event, magic)
            == HandshakeStep::Accepted,
        handshake_after(initiator, HandshakeStep::Rejected, event, magic)
            == HandshakeStep::Rejected,
{
}

/// A peer is accepted only after its magic came in and the own one was sent.
pub proof fn acceptance_needs_both_magics(
    initiator: bool,
    step: HandshakeStep,
    event: HandshakeEvent,
    magic: Seq<u8>,
)
    requires
        step == HandshakeStep::Send || step == HandshakeStep::Await,
        handshake_after(initiator, step, event, magic) == HandshakeStep::Accepted,
    ensures
        step != opening_step(initiator),
        initiator ==> (event matches HandshakeEvent::Received(bytes) && bytes@ == magic),
        !initiator ==> event is Sent,
{
}

/// Static settings never wait for a lease, and DHCP always does.
pub proof fn only_dhcp_waits_for_a_lease(ipv4: Ipv4Config)
    ensures
        needs_lease(AddressMode::Dhcp),
        !needs_lease(AddressMode::Static(ipv4)),
{
}

} // verus!
