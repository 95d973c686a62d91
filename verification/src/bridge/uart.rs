//! Decisions of the UART upstream bridge: request framing, dispatch and egress.

use crate::bridge::commands::led_request;
use crate::bridge::commands::line_text;
use crate::bridge::commands::local_reply;
use crate::bridge::commands::replies_fit;
use crate::bridge::commands::reply_text;
use crate::bridge::commands::requested_led_mode;
use crate::bridge::commands::trim_ascii_line;
use crate::bridge::commands::BridgeStatus;
use crate::bridge::overwrite_queue::after_consume;
use crate::bridge::overwrite_queue::consume_takes_bytes_off_the_front;
use crate::bridge::overwrite_queue::packets_after_push;
use crate::bridge::overwrite_queue::pending_bytes;
use crate::bridge::overwrite_queue::sent_after_push;
use crate::bridge::overwrite_queue::OverwriteBytePacketRing;
use crate::bridge::runtime::LinkPolicy;
use crate::bridge::runtime::OpenFailure;
use crate::bytes::clipped;
use crate::bytes::le16;
use crate::bytes::le16_round_trip;
use crate::bytes::read_le16;
use crate::config::BridgeConfig;
use crate::protocol::i2c::build_frame_into;
use crate::protocol::i2c::frame_bytes;
use crate::protocol::i2c::frame_bytes_parse_back;
use crate::protocol::i2c::parse_request_bytes;
use crate::protocol::i2c::parsed_request;
use crate::protocol::i2c::response_sync;
use crate::protocol::i2c::FRAME_HEADER_SIZE;
use crate::protocol::i2c::FRAME_SIZE;
use crate::protocol::i2c::PAYLOAD_MAX;
use crate::protocol::i2c::REQ_COMMAND_MAGIC;
use crate::protocol::i2c::REQ_DATA_MAGIC;
use crate::protocol::i2c::RESP_COMMAND_MAGIC;
use crate::protocol::i2c::RESP_DATA_MAGIC;
use crate::protocol::i2c::Request;
use crate::protocol::i2c::RequestFrame;
use crate::text::as_str192;
use vstd::prelude::*;
use vstd::utf8::encode_utf8;

verus! {

/// The most payload bytes of a request.
pub const UART_PAYLOAD_MAX: usize = 4096;

/// The most bytes of a request.
pub const UART_FRAME_MAX: usize = 4100;

/// Number of bytes written to the UART at a time.
pub const UART_EGRESS_CHUNK_BYTES: usize = 256;

/// Delay before the UART is tried again after an error.
pub const UART_RETRY_DELAY_MS: u64 = 10;

/// Number of chunks written in a row before other tasks get to run.
pub const UART_FLUSH_BATCH_CHUNKS: usize = 4;

/// How long the network is tried at a time before the link is up.
pub const UART_PRECONNECT_NET_SLICE_MS: u64 = 50;

/// How long the UART is served at a time before the link is up.
pub const UART_PRECONNECT_UART_SLICE_MS: u64 = 1;

/// Packets waiting to be written to the UART.
pub type EgressRing = OverwriteBytePacketRing<16, 260>;

/// How the client role runs its link. The UART is served between attempts, so there is no further
/// delay unless the connect timeout is shorter than one attempt.
pub fn client_policy(connect_timeout_ms: u64) -> (policy: LinkPolicy)
    ensures
        policy.client,
        policy.on_open_failure == if connect_timeout_ms <= UART_PRECONNECT_NET_SLICE_MS {
            OpenFailure::Backoff
        } else {
            OpenFailure::Again
        },
{
    if connect_timeout_ms <= UART_PRECONNECT_NET_SLICE_MS {
        LinkPolicy { client: true, on_open_failure: OpenFailure::Backoff }
    } else {
        LinkPolicy { client: true, on_open_failure: OpenFailure::Again }
    }
}

/// How the server role runs its link: it waits before it listens again.
pub fn server_policy() -> (policy: LinkPolicy)
    ensures
        policy == (LinkPolicy { client: false, on_open_failure: OpenFailure::Backoff }),
{
    LinkPolicy { client: false, on_open_failure: OpenFailure::Backoff }
}

/// What a received byte brings.
pub enum FrameEvent {
    /// No frame yet.
    Pending,
    /// A whole frame.
    Complete(Seq<u8>),
    /// A length that is too large.
    Refused,
}

/// Whether a byte starts a request.
pub open spec fn starts_request(byte: u8) -> bool {
    byte == REQ_DATA_MAGIC || byte == REQ_COMMAND_MAGIC
}

/// The bytes gathered of a frame after one more byte, and what that byte brings. Bytes in front of a
/// request are skipped.
pub open spec fn gathered(held: Seq<u8>, byte: u8) -> (Seq<u8>, FrameEvent) {
    if held.len() == 0 && !starts_request(byte) {
        (Seq::empty(), FrameEvent::Pending)
    } else {
        let now = held.push(byte);
        if now.len() < FRAME_HEADER_SIZE {
            (now, FrameEvent::Pending)
        } else if le16(now[2], now[3]) > UART_PAYLOAD_MAX {
            (Seq::empty(), FrameEvent::Refused)
        } else if now.len() >= FRAME_HEADER_SIZE + le16(now[2], now[3]) {
            (Seq::empty(), FrameEvent::Complete(now))
        } else {
            (now, FrameEvent::Pending)
        }
    }
}

/// What the reader reports of a byte.
#[derive(Clone, Copy, Debug, PartialEq, Eq)]
pub enum ReadEvent {
    /// No frame yet.
    Pending,
    /// A frame of this many bytes is in the buffer.
    Complete(usize),
    /// A length that is too large: the reader starts over.
    Refused,
}

/// Gathers request frames out of a byte stream.
pub struct UartFrameReader {
    frame: [u8; UART_FRAME_MAX],
    len: usize,
}

impl UartFrameReader {
    /// The bytes gathered of a frame.
    pub closed spec fn view(&self) -> Seq<u8> {
        self.frame@.take(self.len as int)
    }

    /// The first bytes of the buffer.
    pub closed spec fn buffered(&self, len: int) -> Seq<u8> {
        self.frame@.take(len)
    }

    /// A frame that is being gathered starts as a request, fits and is not complete.
    pub open spec fn wf(&self) -> bool {
        &&& self@.len() > 0 ==> starts_request(self@[0])
        &&& self@.len() >= FRAME_HEADER_SIZE ==> {
            &&& le16(self@[2], self@[3]) <= UART_PAYLOAD_MAX
            &&& self@.len() < FRAME_HEADER_SIZE + le16(self@[2], self@[3])
        }
        &&& self.fits()
    }

    /// The gathered bytes fit in the buffer.
    pub closed spec fn fits(&self) -> bool {
        self.len < UART_FRAME_MAX
    }

    /// Creates a reader with nothing gathered.
    pub fn new() -> (reader: Self)
        ensures
            reader.wf(),
            reader@ == Seq::<u8>::empty(),
    {
        let reader = UartFrameReader { frame: [0u8; UART_FRAME_MAX], len: 0 };
        assert(reader@ =~= Seq::<u8>::empty());
        reader
    }

    /// Takes in one byte.
    pub fn push(&mut self, byte: u8) -> (event: ReadEvent)
        requires
            old(self).wf(),
        ensures
            final(self).wf(),
            final(self)@ == gathered(old(self)@, byte).0,
            match event {
                ReadEvent::Pending => gathered(old(self)@, byte).1 == FrameEvent::Pending,
                ReadEvent::Refused => gathered(old(self)@, byte).1 == FrameEvent::Refused,
                ReadEvent::Complete(len) => {
                    &&& len <= UART_FRAME_MAX
                    &&& gathered(old(self)@, byte).1 == FrameEvent::Complete(
                        final(self).buffered(len as int),
                    )
                },
            },
    {
        let ghost held = self@;
        if self.len == 0 && byte != REQ_DATA_MAGIC && byte != REQ_COMMAND_MAGIC {
            assert(self@ =~= Seq::<u8>::empty());
            return ReadEvent::Pending;
        }
        self.frame[self.len] = byte;
        self.len = self.len + 1;
        assert(self@ =~= held.push(byte));
        if self.len < FRAME_HEADER_SIZE {
            return ReadEvent::Pending;
        }
        let payload_len: usize = read_le16(self.frame[2], self.frame[3]) as usize;
        assert(self@[2] == self.frame@[2] && self@[3] == self.frame@[3]);
        if payload_len > UART_PAYLOAD_MAX {
            self.len = 0;
            assert(self@ =~= Seq::<u8>::empty());
            return ReadEvent::Refused;
        }
        if self.len >= FRAME_HEADER_SIZE + payload_len {
            let len: usize = self.len;
            self.len = 0;
            assert(self.buffered(len as int) =~= held.push(byte));
            assert(self@ =~= Seq::<u8>::empty());
            return ReadEvent::Complete(len);
        }
        ReadEvent::Pending
    }

    /// The first `len` bytes of the buffer.
    pub fn frame(&self, len: usize) -> (r: &[u8])
        requires
            len <= UART_FRAME_MAX,
        ensures
            r@ == self.buffered(len as int),
    {
        let r = &self.frame[0..len];
        assert(r@ =~= self.frame@.take(len as int));
        r
    }
}

/// A response frame that takes only as many bytes as it has.
pub struct UartFrame {
    data: [u8; FRAME_SIZE],
    len: usize,
}

/// The bytes of a response.
pub open spec fn response_bytes(magic: u8, payload: Seq<u8>) -> Seq<u8> {
    frame_bytes(response_sync(magic), clipped(payload, PAYLOAD_MAX as nat))
}

impl UartFrame {
    /// The bytes of the frame.
    pub closed spec fn view(&self) -> Seq<u8> {
        self.data@.take(self.len as int)
    }

    /// The length is within the buffer.
    pub closed spec fn wf(&self) -> bool {
        self.len <= FRAME_SIZE
    }

    /// Builds a data or command response.
    pub fn response(command: bool, payload: &[u8]) -> (frame: Self)
        ensures
            frame.wf(),
            frame@ == response_bytes(
                if command {
                    RESP_COMMAND_MAGIC
                } else {
                    RESP_DATA_MAGIC
                },
                payload@,
            ),
    {
        let magic: u8 = if command {
            RESP_COMMAND_MAGIC
        } else {
            RESP_DATA_MAGIC
        };
        let mut data = [0u8; FRAME_SIZE];
        let len: usize = match build_frame_into(magic, payload, &mut data) {
            Some(len) => len,
            None => 0,
        };
        let frame = UartFrame { data, len };
        assert(frame@ =~= response_bytes(magic, payload@));
        frame
    }

    /// The bytes of the frame.
    pub fn as_slice(&self) -> (r: &[u8])
        requires
            self.wf(),
        ensures
            r@ == self@,
    {
        let r = &self.data[0..self.len];
        assert(r@ =~= self@);
        r
    }
}

/// The line of the local command in a request.
pub open spec fn request_line(frame: Seq<u8>) -> Option<Seq<char>> {
    match parsed_request(frame) {
        Some(Request::Command(payload)) => Some(line_text(payload)),
        _ => None,
    }
}

/// The LED mode that a request asks for.
pub open spec fn request_led_mode(frame: Seq<u8>) -> Option<u8> {
    match request_line(frame) {
        Some(line) => requested_led_mode(line),
        None => None,
    }
}

/// The bytes of a request that cross the bridge while it is up.
pub open spec fn bridged_payload(frame: Seq<u8>, link_up: bool) -> Option<Seq<u8>> {
    match parsed_request(frame) {
        Some(Request::Data(payload)) => if link_up && payload.len() > 0 {
            Some(payload)
        } else {
            None
        },
        _ => None,
    }
}

/// The response to a request. Only empty data on an active bridge has none.
pub open spec fn request_reply(
    frame: Seq<u8>,
    link_up: bool,
    config: BridgeConfig,
    status: BridgeStatus,
) -> Option<Seq<u8>> {
    match parsed_request(frame) {
        Some(Request::Data(payload)) => if link_up && payload.len() == 0 {
            None
        } else {
            Some(response_bytes(RESP_DATA_MAGIC, Seq::empty()))
        },
        Some(Request::Command(payload)) => Some(
            response_bytes(
                RESP_COMMAND_MAGIC,
                encode_utf8(reply_text(config, status, line_text(payload))),
            ),
        ),
        None => Some(
            response_bytes(RESP_COMMAND_MAGIC, encode_utf8("error invalid uart frame"@)),
        ),
    }
}

/// What the bridge does with a request.
pub struct UartDecision<'a> {
    /// Bytes to write to the peer before the response is queued.
    pub forward: Option<&'a [u8]>,
    /// The response to queue.
    pub reply: Option<UartFrame>,
    /// The LED mode that a local command asked for.
    pub led: Option<u8>,
}

/// Decides what the bridge does with a request.
pub fn handle_uart_request<'a>(
    frame: &'a [u8],
    link_up: bool,
    bridge_config: &BridgeConfig,
    status: &BridgeStatus,
) -> (d: UartDecision<'a>)
    ensures
        d.forward is Some <==> bridged_payload(frame@, link_up) is Some,
        d.forward matches Some(bytes) ==> bridged_payload(frame@, link_up) == Some(bytes@),
        d.reply is Some <==> request_reply(frame@, link_up, *bridge_config, *status) is Some,
        d.reply matches Some(reply) ==> reply.wf() && request_reply(
            frame@,
            link_up,
            *bridge_config,
            *status,
        ) == Some(reply@),
        d.led == request_led_mode(frame@),
{
    let none = [0u8; 0];
    assert(none@ == Seq::<u8>::empty());
    match parse_request_bytes(frame) {
        Some(RequestFrame::Data(payload)) => {
            if !link_up {
                UartDecision {
                    forward: None,
                    reply: Some(UartFrame::response(false, &none)),
                    led: None,
                }
            } else if payload.len() == 0 {
                UartDecision { forward: None, reply: None, led: None }
            } else {
                UartDecision {
                    forward: Some(payload),
                    reply: Some(UartFrame::response(false, &none)),
                    led: None,
                }
            }
        },
        Some(RequestFrame::Command(payload)) => {
            let line = trim_ascii_line(payload);
            let response = local_reply(bridge_config, status, line);
            UartDecision {
                forward: None,
                reply: Some(UartFrame::response(true, as_str192(&response).as_bytes())),
                led: led_request(line),
            }
        },
        None => UartDecision {
            forward: None,
            reply: Some(UartFrame::response(true, "error invalid uart frame".as_bytes())),
            led: None,
        },
    }
}

/// Queues a response as one packet of the egress ring.
pub fn queue_frame(ring: &mut EgressRing, frame: &UartFrame)
    requires
        old(ring).wf(),
        frame.wf(),
    ensures
        final(ring).wf(),
        final(ring)@ == packets_after_push(old(ring)@, old(ring).sent(), frame@, 16),
        final(ring).sent() == sent_after_push(old(ring)@, old(ring).sent(), frame@, 16),
{
    let bytes = frame.as_slice();
    let slices = [bytes];
    proof {
        reveal_with_fuel(crate::bridge::overwrite_queue::joined, 2);
        assert(bytes@.take(bytes@.len() as int) =~= bytes@);
        assert(slices@[0]@ == bytes@);
        assert(slices@.drop_first() =~= Seq::<&[u8]>::empty());
        assert(crate::bridge::overwrite_queue::joined(slices@, 260) =~= bytes@);
    }
    ring.push_overwrite_slices(&slices);
}

/// What the session makes of a read from the peer.
pub enum NetOutcome {
    /// The peer closed the connection.
    Closed,
    /// The read failed.
    Failed,
    /// The data response to queue.
    Reply(UartFrame),
}

/// Turns a read from the peer into the data response to queue. No bytes mean that the peer closed
/// the connection, and no result that the read failed.
pub fn handle_net_read(read: Option<&[u8]>) -> (r: NetOutcome)
    ensures
        match read {
            None => r is Failed,
            Some(bytes) => if bytes@.len() == 0 {
                r is Closed
            } else {
                r matches NetOutcome::Reply(frame) && frame.wf() && frame@ == response_bytes(
                    RESP_DATA_MAGIC,
                    bytes@,
                ) && (bytes@.len() <= PAYLOAD_MAX ==> parsed_request(frame@) == Some(
                    Request::Data(bytes@),
                ))
            },
        },
{
    match read {
        None => NetOutcome::Failed,
        Some(bytes) => {
            if bytes.len() == 0 {
                NetOutcome::Closed
            } else {
                proof {
                    if bytes@.len() <= PAYLOAD_MAX {
                        peer_data_reaches_the_host(bytes@);
                    }
                }
                NetOutcome::Reply(UartFrame::response(false, bytes))
            }
        },
    }
}

/// The bytes that a write of a chunk took. A write that failed or took nothing is tried again.
pub fn bytes_taken(written: Option<usize>) -> (r: Option<usize>)
    ensures
        r == if written is Some && written->0 != 0 {
            written
        } else {
            None
        },
{
    match written {
        Some(n) => if n != 0 {
            Some(n)
        } else {
            None
        },
        None => None,
    }
}

/// Whether a flush of the egress ring goes on after a write.
#[derive(Clone, Copy, Debug, PartialEq, Eq)]
pub enum FlushStep {
    /// The UART took the whole chunk.
    Continue,
    /// The UART took a part of the chunk or none of it.
    Stop,
}

/// The packets left, and the count of sent bytes of the oldest of them, after a write. A write that
/// failed or took nothing drops them all.
pub open spec fn after_write(packets: Seq<Seq<u8>>, sent: nat, written: Option<usize>) -> (
    Seq<Seq<u8>>,
    nat,
) {
    match written {
        Some(n) => if n == 0 {
            (Seq::empty(), 0)
        } else {
            after_consume(packets, sent, n as nat)
        },
        None => (Seq::empty(), 0),
    }
}

/// Whether a flush goes on after a write: the UART took the whole chunk.
pub open spec fn goes_on(chunk_len: usize, written: Option<usize>) -> bool {
    written matches Some(n) && n > 0 && n >= chunk_len
}

/// Books a write of a peeked chunk: what the UART took is consumed. A write that failed or took
/// nothing drops everything that is queued.
pub fn book_write(ring: &mut EgressRing, chunk_len: usize, written: Option<usize>) -> (step:
    FlushStep)
    requires
        old(ring).wf(),
    ensures
        final(ring).wf(),
        (final(ring)@, final(ring).sent()) == after_write(old(ring)@, old(ring).sent(), written),
        step is Continue <==> goes_on(chunk_len, written),
{
    match written {
        Some(n) => {
            if n == 0 {
                ring.clear();
                assert(ring@ =~= Seq::<Seq<u8>>::empty());
                FlushStep::Stop
            } else {
                ring.consume(n);
                if n < chunk_len {
                    FlushStep::Stop
                } else {
                    FlushStep::Continue
                }
            }
        },
        None => {
            ring.clear();
            assert(ring@ =~= Seq::<Seq<u8>>::empty());
            FlushStep::Stop
        },
    }
}

/// Counts a chunk written in a row: the new count, and whether other tasks get to run.
pub fn count_chunk(chunks: usize) -> (r: (usize, bool))
    requires
        chunks < UART_FLUSH_BATCH_CHUNKS,
    ensures
        r.0 == if r.1 {
            0
        } else {
            chunks + 1
        },
        r.1 == (chunks + 1 >= UART_FLUSH_BATCH_CHUNKS),
        r.0 < UART_FLUSH_BATCH_CHUNKS,
{
    if chunks + 1 >= UART_FLUSH_BATCH_CHUNKS {
        (0, true)
    } else {
        (chunks + 1, false)
    }
}

/// What the last of a run of received bytes brings, and the bytes gathered after it.
pub open spec fn gathered_all(held: Seq<u8>, bytes: Seq<u8>) -> (Seq<u8>, FrameEvent)
    decreases bytes.len(),
{
    if bytes.len() == 0 {
        (held, FrameEvent::Pending)
    } else {
        gathered(gathered_all(held, bytes.drop_last()).0, bytes.last())
    }
}

proof fn junk_is_skipped(junk: Seq<u8>)
    requires
        forall|i: int| 0 <= i < junk.len() ==> !starts_request(#[trigger] junk[i]),
    ensures
        gathered_all(Seq::empty(), junk).0 == Seq::<u8>::empty(),
    decreases junk.len(),
{
    if junk.len() > 0 {
        assert forall|i: int| 0 <= i < junk.drop_last().len() implies !starts_request(
            #[trigger] junk.drop_last()[i],
        ) by {
            assert(junk.drop_last()[i] == junk[i]);
        }
        junk_is_skipped(junk.drop_last());
        assert(!starts_request(junk[junk.len() - 1]));
    }
}

proof fn prefix_is_gathered(junk: Seq<u8>, frame: Seq<u8>, n: int)
    requires
        forall|i: int| 0 <= i < junk.len() ==> !starts_request(#[trigger] junk[i]),
        frame.len() >= FRAME_HEADER_SIZE,
        starts_request(frame[0]),
        le16(frame[2], frame[3]) <= UART_PAYLOAD_MAX,
        frame.len() == FRAME_HEADER_SIZE + le16(frame[2], frame[3]),
        0 <= n < frame.len(),
    ensures
        gathered_all(Seq::empty(), junk + frame.take(n)).0 == frame.take(n),
    decreases n,
{
    if n == 0 {
        assert(junk + frame.take(0) =~= junk);
        assert(frame.take(0) =~= Seq::<u8>::empty());
        junk_is_skipped(junk);
    } else {
        prefix_is_gathered(junk, frame, n - 1);
        assert((junk + frame.take(n)).drop_last() =~= junk + frame.take(n - 1));
        assert((junk + frame.take(n)).last() == frame[n - 1]);
        assert(frame.take(n - 1).push(frame[n - 1]) =~= frame.take(n));
    }
}

/// A request comes out of the byte stream whole, whatever bytes that start no request are in front
/// of it.
pub proof fn request_survives_stray_bytes(junk: Seq<u8>, command: bool, payload: Seq<u8>)
    requires
        forall|i: int| 0 <= i < junk.len() ==> !starts_request(#[trigger] junk[i]),
        payload.len() <= UART_PAYLOAD_MAX,
    ensures
        ({
            let sync = if command {
                (REQ_COMMAND_MAGIC, RESP_COMMAND_MAGIC)
            } else {
                (REQ_DATA_MAGIC, RESP_DATA_MAGIC)
            };
            gathered_all(Seq::empty(), junk + frame_bytes(sync, payload)) == (
                Seq::<u8>::empty(),
                FrameEvent::Complete(frame_bytes(sync, payload)),
            )
        }),
{
    let sync = if command {
        (REQ_COMMAND_MAGIC, RESP_COMMAND_MAGIC)
    } else {
        (REQ_DATA_MAGIC, RESP_DATA_MAGIC)
    };
    let frame = frame_bytes(sync, payload);
    crate::bytes::le16_round_trip(payload.len());
    let n = frame.len() - 1;
    prefix_is_gathered(junk, frame, n);
    assert((junk + frame).drop_last() =~= junk + frame.take(n));
    assert((junk + frame).last() == frame[n]);
    assert(frame.take(n).push(frame[n]) =~= frame);
}

/// The egress ring holds at most 16 packets of at most 260 bytes each.
pub proof fn egress_ring_limits(ring: &EgressRing)
    requires
        ring.wf(),
    ensures
        EgressRing::depth() == 16,
        ring@.len() <= 16,
        forall|i: int| 0 <= i < ring@.len() ==> #[trigger] ring@[i].len() <= 260,
{
    ring.limits_hold();
}

/// Data crosses the bridge byte for byte: the whole payload of a data request goes to the peer while
/// the link is up, and none of it otherwise. The host gets an empty data response either way.
pub proof fn data_crosses_the_bridge_unchanged(
    payload: Seq<u8>,
    config: BridgeConfig,
    status: BridgeStatus,
    link_up: bool,
)
    requires
        0 < payload.len() <= UART_PAYLOAD_MAX,
    ensures
        ({
            let frame = frame_bytes((REQ_DATA_MAGIC, RESP_DATA_MAGIC), payload);
            let reply = request_reply(frame, link_up, config, status);
            &&& bridged_payload(frame, true) == Some(payload)
            &&& bridged_payload(frame, false) is None
            &&& request_line(frame) is None
            &&& reply is Some
            &&& parsed_request(reply->0) == Some(Request::Data(Seq::<u8>::empty()))
            &&& reply->0.len() == FRAME_HEADER_SIZE
        }),
{
    let frame = frame_bytes((REQ_DATA_MAGIC, RESP_DATA_MAGIC), payload);
    frame_alone_parses_back((REQ_DATA_MAGIC, RESP_DATA_MAGIC), payload);
    frame_alone_parses_back((REQ_DATA_MAGIC, RESP_DATA_MAGIC), Seq::empty());
    assert(clipped(Seq::<u8>::empty(), PAYLOAD_MAX as nat) =~= Seq::<u8>::empty());
}

/// Empty data goes nowhere: it is not bridged, and answered only while the link is down.
pub proof fn empty_data_goes_nowhere(config: BridgeConfig, status: BridgeStatus)
    ensures
        ({
            let frame = frame_bytes((REQ_DATA_MAGIC, RESP_DATA_MAGIC), Seq::empty());
            &&& bridged_payload(frame, true) is None
            &&& bridged_payload(frame, false) is None
            &&& request_reply(frame, true, config, status) is None
            &&& request_reply(frame, false, config, status) == Some(frame)
        }),
{
    frame_alone_parses_back((REQ_DATA_MAGIC, RESP_DATA_MAGIC), Seq::empty());
    assert(clipped(Seq::<u8>::empty(), PAYLOAD_MAX as nat) =~= Seq::<u8>::empty());
}

/// A command never crosses the bridge. It is answered whether the link is up or not, and the host
/// reads the whole text of the reply out of the response.
pub proof fn commands_are_answered_in_full(
    payload: Seq<u8>,
    config: BridgeConfig,
    status: BridgeStatus,
    link_up: bool,
)
    requires
        payload.len() <= UART_PAYLOAD_MAX,
    ensures
        ({
            let frame = frame_bytes((REQ_COMMAND_MAGIC, RESP_COMMAND_MAGIC), payload);
            let reply = request_reply(frame, link_up, config, status);
            &&& bridged_payload(frame, link_up) is None
            &&& request_line(frame) == Some(line_text(payload))
            &&& reply is Some
            &&& parsed_request(reply->0) == Some(
                Request::Command(encode_utf8(reply_text(config, status, line_text(payload)))),
            )
        }),
{
    let sync = (REQ_COMMAND_MAGIC, RESP_COMMAND_MAGIC);
    frame_alone_parses_back(sync, payload);
    replies_fit(config, status, line_text(payload));
    let text = encode_utf8(reply_text(config, status, line_text(payload)));
    frame_alone_parses_back(sync, text);
    assert(clipped(text, PAYLOAD_MAX as nat) =~= text);
}

/// What is no request is neither bridged nor taken for a command, and answered with an error.
pub proof fn broken_requests_are_answered_with_an_error(
    frame: Seq<u8>,
    config: BridgeConfig,
    status: BridgeStatus,
    link_up: bool,
)
    requires
        parsed_request(frame) is None,
    ensures
        bridged_payload(frame, link_up) is None,
        request_line(frame) is None,
        request_reply(frame, link_up, config, status) is Some,
        parsed_request(request_reply(frame, link_up, config, status)->0) == Some(
            Request::Command(encode_utf8("error invalid uart frame"@)),
        ),
{
    reveal_strlit("error invalid uart frame");
    let text = encode_utf8("error invalid uart frame"@);
    vstd::utf8::is_ascii_chars_encode_utf8("error invalid uart frame"@);
    frame_alone_parses_back((REQ_COMMAND_MAGIC, RESP_COMMAND_MAGIC), text);
    assert(clipped(text, PAYLOAD_MAX as nat) =~= text);
}

/// What the peer sends in one read reaches the host byte for byte.
pub proof fn peer_data_reaches_the_host(bytes: Seq<u8>)
    requires
        bytes.len() <= PAYLOAD_MAX,
    ensures
        parsed_request(response_bytes(RESP_DATA_MAGIC, bytes)) == Some(Request::Data(bytes)),
        response_bytes(RESP_DATA_MAGIC, bytes).len() == FRAME_HEADER_SIZE + bytes.len(),
{
    frame_alone_parses_back((REQ_DATA_MAGIC, RESP_DATA_MAGIC), bytes);
    assert(clipped(bytes, PAYLOAD_MAX as nat) =~= bytes);
}

proof fn frame_alone_parses_back(sync: (u8, u8), payload: Seq<u8>)
    requires
        payload.len() <= u16::MAX,
        sync == (REQ_DATA_MAGIC, RESP_DATA_MAGIC) || sync == (REQ_COMMAND_MAGIC, RESP_COMMAND_MAGIC),
    ensures
        sync.0 == REQ_DATA_MAGIC ==> parsed_request(frame_bytes(sync, payload)) == Some(
            Request::Data(payload),
        ),
        sync.0 == REQ_COMMAND_MAGIC ==> parsed_request(frame_bytes(sync, payload)) == Some(
            Request::Command(payload),
        ),
{
    frame_bytes_parse_back(sync, payload, Seq::empty());
    assert(frame_bytes(sync, payload) + Seq::<u8>::empty() =~= frame_bytes(sync, payload));
}

/// A request whose length is beyond the limit is refused as soon as its header is in, and the next
/// byte starts afresh.
pub proof fn oversized_request_is_refused(command: bool, len: nat)
    requires
        UART_PAYLOAD_MAX < len <= u16::MAX,
    ensures
        ({
            let sync = if command {
                (REQ_COMMAND_MAGIC, RESP_COMMAND_MAGIC)
            } else {
                (REQ_DATA_MAGIC, RESP_DATA_MAGIC)
            };
            let header = seq![
                sync.0,
                sync.1,
                crate::bytes::low_byte(len),
                crate::bytes::high_byte(len),
            ];
            gathered_all(Seq::empty(), header) == (Seq::<u8>::empty(), FrameEvent::Refused)
        }),
{
    let sync = if command {
        (REQ_COMMAND_MAGIC, RESP_COMMAND_MAGIC)
    } else {
        (REQ_DATA_MAGIC, RESP_DATA_MAGIC)
    };
    le16_round_trip(len);
    let header = seq![
        sync.0,
        sync.1,
        crate::bytes::low_byte(len),
        crate::bytes::high_byte(len),
    ];
    reveal_with_fuel(gathered_all, 5);
    let three = header.drop_last();
    let two = three.drop_last();
    let one = two.drop_last();
    assert(one.drop_last() =~= Seq::<u8>::empty());
    assert(gathered_all(Seq::empty(), one).0 =~= one);
    assert(gathered_all(Seq::empty(), two).0 =~= two);
    assert(gathered_all(Seq::empty(), three).0 =~= three);
    assert(three.push(header.last()) =~= header);
}

/// What the UART took is what leaves the ring: the bytes behind it stay, in order. A write that took
/// nothing leaves nothing behind.
pub proof fn written_bytes_leave_the_ring(packets: Seq<Seq<u8>>, sent: nat, taken: usize)
    requires
        0 < taken <= pending_bytes(packets, sent).len(),
        packets.len() > 0,
        sent < packets[0].len(),
        forall|i: int| 0 <= i < packets.len() ==> (#[trigger] packets[i]).len() > 0,
    ensures
        ({
            let left = after_write(packets, sent, Some(taken));
            pending_bytes(left.0, left.1) == pending_bytes(packets, sent).skip(taken as int)
        }),
        after_write(packets, sent, None) == (Seq::<Seq<u8>>::empty(), 0nat),
        after_write(packets, sent, Some(0)) == (Seq::<Seq<u8>>::empty(), 0nat),
{
    consume_takes_bytes_off_the_front(packets, sent, taken as nat);
}

/// A flush goes on only after a chunk that went out whole.
pub proof fn flushes_stop_at_a_short_write(chunk_len: usize, taken: usize)
    ensures
        !goes_on(chunk_len, None),
        !goes_on(chunk_len, Some(0)),
        taken > 0 ==> (goes_on(chunk_len, Some(taken)) <==> taken >= chunk_len),
{
}

/// Only a command can change the LED, and it changes it as its line asks.
pub proof fn only_commands_change_the_led(payload: Seq<u8>)
    requires
        payload.len() <= UART_PAYLOAD_MAX,
    ensures
        request_led_mode(frame_bytes((REQ_COMMAND_MAGIC, RESP_COMMAND_MAGIC), payload))
            == requested_led_mode(line_text(payload)),
        request_led_mode(frame_bytes((REQ_DATA_MAGIC, RESP_DATA_MAGIC), payload)) is None,
{
    frame_alone_parses_back((REQ_COMMAND_MAGIC, RESP_COMMAND_MAGIC), payload);
    frame_alone_parses_back((REQ_DATA_MAGIC, RESP_DATA_MAGIC), payload);
}

/// A request may carry 4096 bytes, a response 256, and no frame that is being gathered outgrows its
/// buffer.
pub proof fn frame_limits()
    ensures
        UART_PAYLOAD_MAX == 4096,
        UART_FRAME_MAX == UART_PAYLOAD_MAX + 4,
        PAYLOAD_MAX == 256,
        UART_EGRESS_CHUNK_BYTES == 256,
        UART_FLUSH_BATCH_CHUNKS == 4,
{
}

/// A frame is gathered from a data or command request on, and from no other byte.
pub proof fn other_bytes_start_no_request(byte: u8)
    ensures
        byte == 0xa5 || byte == 0xa6 ==> gathered(Seq::empty(), byte) == (
            seq![byte],
            FrameEvent::Pending,
        ),
        byte != 0xa5 && byte != 0xa6 ==> gathered(Seq::empty(), byte) == (
            Seq::<u8>::empty(),
            FrameEvent::Pending,
        ),
{
    assert(Seq::<u8>::empty().push(byte) =~= seq![byte]);
}

} // verus!
