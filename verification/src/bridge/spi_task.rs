//! Decisions of the PIO-backed SPI slave task.

use crate::bridge::commands::is_local_command;
use crate::bridge::commands::led_request;
use crate::bridge::commands::line_text;
use crate::bridge::commands::local_reply;
use crate::bridge::commands::looks_like_local_command;
use crate::bridge::commands::replies_fit;
use crate::bridge::commands::reply_text;
use crate::bridge::commands::requested_led_mode;
use crate::bridge::commands::trim_ascii_line;
use crate::bridge::commands::BridgeStatus;
use crate::bridge::overwrite_queue::items_are_dropped_only_for_room;
use crate::bridge::overwrite_queue::survivors;
use crate::bridge::overwrite_queue::survivors_are_the_longest_fitting_suffix;
use crate::bridge::overwrite_queue::total_weight;
use crate::bridge::overwrite_queue::BoundedDeque;
use crate::bridge::overwrite_queue::OverwriteQueue;
use crate::bridge::overwrite_queue::QueueItem;
use crate::bridge::spi_pio::PioSpiTransportState;
use crate::bridge::spi_pio::Transaction;
use crate::bridge::spi_pio::TransactionResult;
use crate::bytes::min_size;
use crate::config::BridgeConfig;
use crate::config::UpstreamMode;
use crate::protocol::i2c::make_response_frame;
use crate::protocol::i2c::response_frame;
use crate::protocol::i2c::FRAME_SIZE;
use crate::protocol::i2c::PAYLOAD_MAX;
use crate::protocol::i2c::REQ_COMMAND_MAGIC;
use crate::protocol::i2c::REQ_DATA_MAGIC;
use crate::protocol::i2c::RESP_COMMAND_MAGIC;
use crate::protocol::i2c::RESP_DATA_MAGIC;
use crate::protocol::i2c::Request;
use crate::protocol::i2c::RequestFrame;
use crate::protocol::spi::SLASH;
use crate::protocol::transfer::frame_len;
use crate::protocol::transfer::link_frame_parses_back;
use crate::protocol::transfer::parse_transfer;
use crate::protocol::transfer::short_frame;
use crate::protocol::transfer::short_frame_parses_back;
use crate::protocol::transfer::short_header_carries;
use crate::protocol::transfer::transfer_len;
use crate::protocol::transfer::transfer_request;
use crate::text::as_str192;
use vstd::prelude::*;
use vstd::utf8::encode_utf8;
use vstd::utf8::is_ascii_chars_encode_utf8;

verus! {

/// Message type for framed SPI transfers passed between the bus task and bridge session.
#[derive(Clone, Copy)]
pub struct SpiFrame {
    /// The full frame as it stands on the wire.
    pub data: [u8; FRAME_SIZE],
}

impl QueueItem for SpiFrame {
    open spec fn weight(&self) -> nat {
        frame_len(self.data@)
    }

    fn queued_len(&self) -> (n: usize) {
        transfer_len(&self.data)
    }
}

/// Queue of frames between the SPI task and the bridge session.
pub type SpiQueue = OverwriteQueue<SpiFrame, 32, 8192>;

/// The frames held by a queue, oldest first.
pub uninterp spec fn queued_frames(d: heapless::Deque<SpiFrame, 32>) -> Seq<SpiFrame>;

/// `heapless::Deque::<SpiFrame, 32>::new`: the new queue is empty.
#[verifier::external_body]
fn frames_new() -> (d: heapless::Deque<SpiFrame, 32>)
    ensures
        queued_frames(d) == Seq::<SpiFrame>::empty(),
{
    heapless::Deque::new()
}

/// `heapless::Deque::<SpiFrame, 32>::is_full`: whether 32 items are held.
#[verifier::external_body]
fn frames_is_full(d: &heapless::Deque<SpiFrame, 32>) -> (r: bool)
    ensures
        r == (queued_frames(*d).len() >= 32),
{
    d.is_full()
}

/// `heapless::Deque::<SpiFrame, 32>::push_back`: adds an item behind the others, or hands it back when
/// 32 are held.
#[verifier::external_body]
fn frames_push_back(d: &mut heapless::Deque<SpiFrame, 32>, item: SpiFrame) -> (r: Result<(), SpiFrame>)
    ensures
        r is Ok <==> queued_frames(*old(d)).len() < 32,
        r is Ok ==> queued_frames(*final(d)) == queued_frames(*old(d)).push(item),
        r matches Err(back) ==> back == item && queued_frames(*final(d)) == queued_frames(*old(d)),
{
    d.push_back(item)
}

/// `heapless::Deque::<SpiFrame, 32>::pop_front`: removes and returns the oldest item.
#[verifier::external_body]
fn frames_pop_front(d: &mut heapless::Deque<SpiFrame, 32>) -> (r: Option<SpiFrame>)
    ensures
        queued_frames(*old(d)).len() == 0 ==> r is None && queued_frames(*final(d)) == queued_frames(*old(d)),
        queued_frames(*old(d)).len() > 0 ==> r == Some(queued_frames(*old(d))[0]) && queued_frames(*final(d)) == queued_frames(
            *old(d),
        ).drop_first(),
{
    d.pop_front()
}

impl BoundedDeque<SpiFrame> for heapless::Deque<SpiFrame, 32> {
    open spec fn contents(&self) -> Seq<SpiFrame> {
        queued_frames(*self)
    }

    open spec fn capacity() -> nat {
        32
    }

    proof fn capacity_is_positive() {
    }

    fn empty() -> (d: Self) {
        frames_new()
    }

    fn at_capacity(&self) -> (r: bool) {
        frames_is_full(self)
    }

    fn push_last(&mut self, item: SpiFrame) -> (r: Result<(), SpiFrame>) {
        frames_push_back(self, item)
    }

    fn pop_first(&mut self) -> (r: Option<SpiFrame>) {
        frames_pop_front(self)
    }
}

/// The first position from `from` on that holds `byte`, or the length when there is none.
pub open spec fn byte_position(bytes: Seq<u8>, from: nat, byte: u8) -> nat
    decreases bytes.len() - from,
{
    if from >= bytes.len() {
        bytes.len()
    } else if bytes[from as int] == byte {
        from
    } else {
        byte_position(bytes, from + 1, byte)
    }
}

/// Finds the first position from `from` on that holds `byte`.
pub(crate) fn find_byte(bytes: &[u8], from: usize, byte: u8) -> (r: usize)
    requires
        from <= bytes@.len(),
    ensures
        r == byte_position(bytes@, from as nat, byte),
        from <= r <= bytes@.len(),
        r < bytes@.len() ==> bytes@[r as int] == byte,
{
    let n: usize = bytes.len();
    let mut at: usize = from;
    while at < n && bytes[at] != byte
        invariant
            n == bytes@.len(),
            from <= at <= n,
            byte_position(bytes@, from as nat, byte) == byte_position(bytes@, at as nat, byte),
        ensures
            from <= at <= n,
            at == byte_position(bytes@, from as nat, byte),
            at < n ==> bytes@[at as int] == byte,
        decreases n - at,
    {
        at = at + 1;
    }
    at
}

/// The command in a frame whose header was lost: with a zero length byte behind a request magic or
/// a zero, the bytes from the first slash to the next zero.
pub open spec fn recovered_command(frame: Seq<u8>) -> Option<Seq<u8>> {
    let lost_header = frame[1] == 0 && (frame[0] == REQ_DATA_MAGIC || frame[0] == REQ_COMMAND_MAGIC
        || frame[0] == 0);
    let start = byte_position(frame, 2, SLASH);
    let end = byte_position(frame, start, 0);
    if lost_header && start < frame.len() && is_local_command(
        frame.subrange(start as int, end as int),
    ) {
        Some(frame.subrange(start as int, end as int))
    } else {
        None
    }
}

/// The local command in a frame: the payload of a command request that reads as one, or else what
/// can be recovered of one. Data is bridged, whatever it reads as.
pub open spec fn local_command(frame: Seq<u8>) -> Option<Seq<u8>> {
    match transfer_request(frame) {
        Some(Request::Command(payload)) if is_local_command(payload) => Some(payload),
        _ => recovered_command(frame),
    }
}

/// A response frame that carries a text.
pub open spec fn text_response(text: Seq<char>) -> Seq<u8> {
    response_frame(RESP_COMMAND_MAGIC, encode_utf8(text))
}

/// Builds a response frame that carries a text.
pub(crate) fn make_text_response(text: &str) -> (frame: [u8; FRAME_SIZE])
    ensures
        frame@ == text_response(text@),
{
    make_response_frame(RESP_COMMAND_MAGIC, text.as_bytes())
}

/// What the task does with a finished transaction.
pub struct TaskOutcome {
    /// The response to stage for the next transaction.
    pub next: Option<[u8; FRAME_SIZE]>,
    /// The LED mode that a local command asked for.
    pub led: Option<u8>,
    /// Whether the LED shows an activity pulse.
    pub activity: bool,
}

/// The response that a finished transaction stages, if it stages one.
pub open spec fn staged_reply(t: Transaction, config: BridgeConfig, status: BridgeStatus) -> Option<
    Seq<u8>,
> {
    match t {
        Transaction::IdlePoll(received, preview) => Some(
            response_frame(
                RESP_COMMAND_MAGIC,
                seq![
                    0x52u8,
                    (if received < 255 {
                        received
                    } else {
                        255
                    }) as u8,
                    preview[0],
                    preview[1],
                    preview[2],
                    preview[3],
                ],
            ),
        ),
        Transaction::Partial(_, _, _) => Some(text_response("error partial spi frame"@)),
        Transaction::Complete(frame) => match local_command(frame) {
            Some(payload) => Some(text_response(reply_text(config, status, line_text(payload)))),
            None => if transfer_request(frame) is Some {
                None
            } else {
                Some(text_response("error invalid spi frame"@))
            },
        },
    }
}

/// The local command that a finished transaction runs.
pub open spec fn run_command(t: Transaction) -> Option<Seq<u8>> {
    match t {
        Transaction::Complete(frame) => local_command(frame),
        _ => None,
    }
}

/// The LED mode that a finished transaction asks for.
pub open spec fn command_led(t: Transaction) -> Option<u8> {
    match run_command(t) {
        Some(payload) => requested_led_mode(line_text(payload)),
        None => None,
    }
}

/// The frame that a finished transaction hands on to the bridge session: every request that is no
/// local command.
pub open spec fn forwarded_frame(t: Transaction) -> Option<Seq<u8>> {
    match t {
        Transaction::Complete(frame) => if local_command(frame) is None && transfer_request(frame)
            is Some {
            Some(frame)
        } else {
            None
        },
        _ => None,
    }
}

/// A queue after a frame was handed on to the bridge session.
pub open spec fn after_forward(before: Seq<SpiFrame>, after: Seq<SpiFrame>, frame: Seq<u8>) -> bool {
    exists|item: SpiFrame| #[trigger]
        item.data@ == frame && after == survivors(before, item.weight(), 32, 8192).push(item)
}

/// Whether a queue is what a finished transaction makes of it: a frame that is handed on joins it.
pub open spec fn frames_after(t: Transaction, before: Seq<SpiFrame>, after: Seq<SpiFrame>) -> bool {
    match forwarded_frame(t) {
        Some(frame) => after_forward(before, after, frame),
        None => after == before,
    }
}

/// Turns a finished transaction into the next response and hands requests on to the session.
pub fn finalize_transaction(
    result: TransactionResult,
    bridge_config: &BridgeConfig,
    status: &BridgeStatus,
    tx: &mut SpiQueue,
) -> (outcome: TaskOutcome)
    requires
        old(tx).wf(),
    ensures
        final(tx).wf(),
        outcome.next is Some <==> staged_reply(result@, *bridge_config, *status) is Some,
        outcome.next matches Some(next) ==> staged_reply(result@, *bridge_config, *status) == Some(
            next@,
        ),
        outcome.activity == (run_command(result@) is Some),
        outcome.led == command_led(result@),
        frames_after(result@, old(tx)@, final(tx)@),
{
    let frame = match result {
        TransactionResult::IdlePoll { received, preview } => {
            let payload = [
                0x52u8,
                min_size(received, 255) as u8,
                preview[0],
                preview[1],
                preview[2],
                preview[3],
            ];
            assert(payload@ =~= seq![
                0x52u8,
                (if received < 255 {
                    received
                } else {
                    255
                }) as u8,
                preview@[0],
                preview@[1],
                preview@[2],
                preview@[3],
            ]);
            return TaskOutcome {
                next: Some(make_response_frame(RESP_COMMAND_MAGIC, &payload)),
                led: None,
                activity: false,
            };
        },
        TransactionResult::Partial { .. } => {
            return TaskOutcome {
                next: Some(make_text_response("error partial spi frame")),
                led: None,
                activity: false,
            };
        },
        TransactionResult::Complete(frame) => frame,
    };
    if let Some(payload) = extract_local_command_payload(&frame) {
        let line = trim_ascii_line(payload);
        let response = local_reply(bridge_config, status, line);
        return TaskOutcome {
            next: Some(make_text_response(as_str192(&response))),
            led: led_request(line),
            activity: true,
        };
    }
    match parse_transfer(&frame) {
        Some(_) => {
            let item = SpiFrame { data: frame };
            let _ = tx.push_overwrite(item);
            assert(item.data@ == frame@);
            TaskOutcome { next: None, led: None, activity: false }
        },
        None => TaskOutcome {
            next: Some(make_text_response("error invalid spi frame")),
            led: None,
            activity: false,
        },
    }
}

fn extract_local_command_payload(frame: &[u8; FRAME_SIZE]) -> (r: Option<&[u8]>)
    ensures
        r is Some <==> local_command(frame@) is Some,
        r matches Some(payload) ==> local_command(frame@) == Some(payload@),
{
    match parse_transfer(frame) {
        Some(RequestFrame::Command(payload)) => {
            if looks_like_local_command(payload) {
                return Some(payload);
            }
        },
        _ => {},
    }
    recover_spi_command_payload(frame)
}

fn recover_spi_command_payload(frame: &[u8; FRAME_SIZE]) -> (r: Option<&[u8]>)
    ensures
        r is Some <==> recovered_command(frame@) is Some,
        r matches Some(payload) ==> recovered_command(frame@) == Some(payload@),
{
    let lost_header = frame[1] == 0 && (frame[0] == REQ_DATA_MAGIC || frame[0] == REQ_COMMAND_MAGIC
        || frame[0] == 0);
    if !lost_header {
        return None;
    }
    let start: usize = find_byte(frame, 2, SLASH);
    if start >= FRAME_SIZE {
        return None;
    }
    let end: usize = find_byte(frame, start, 0);
    let payload = &frame[start..end];
    if looks_like_local_command(payload) {
        Some(payload)
    } else {
        None
    }
}

/// The number of bytes that a DMA transfer into a frame buffer has written, from the buffer's
/// address and the transfer's write address.
pub fn rx_bytes_received(start: usize, end: usize) -> (n: usize)
    ensures
        n == if end <= start {
            0int
        } else if end - start < FRAME_SIZE {
            end - start
        } else {
            FRAME_SIZE as int
        },
{
    min_size(end.saturating_sub(start), FRAME_SIZE)
}

/// The response that diagnostic modes stage for the next transaction. The static mode leaves the
/// staged response alone, the echo mode sends a whole frame back.
pub open spec fn echo_reply(t: Transaction) -> Seq<u8> {
    match t {
        Transaction::Complete(frame) => frame,
        Transaction::IdlePoll(_, _) => response_frame(RESP_DATA_MAGIC, Seq::empty()),
        Transaction::Partial(_, _, _) => text_response("error partial spi frame"@),
    }
}

/// Stages the response of the echo mode.
pub fn stage_echo(transport: &mut PioSpiTransportState, result: TransactionResult)
    ensures
        final(transport)@ == echo_reply(result@),
{
    match result {
        TransactionResult::Complete(frame) => transport.stage_response(frame),
        TransactionResult::IdlePoll { .. } => {
            let none = [0u8; 0];
            assert(none@ == Seq::<u8>::empty());
            transport.stage_response(make_response_frame(RESP_DATA_MAGIC, &none))
        },
        TransactionResult::Partial { .. } => transport.stage_response(
            make_text_response("error partial spi frame"),
        ),
    }
}

/// The fixed frame that the static mode answers with.
pub fn static_frame() -> (frame: [u8; FRAME_SIZE])
    ensures
        frame@ == text_response("pong"@),
{
    make_text_response("pong")
}

/// What the next transaction clocks out: the fixed frame in static mode, and otherwise, but for the
/// echo mode, the oldest queued response if there is one.
pub open spec fn staged_before(mode: UpstreamMode, staged: Seq<u8>, queue: Seq<SpiFrame>) -> Seq<
    u8,
> {
    if mode == UpstreamMode::SpiStatic {
        text_response("pong"@)
    } else if mode == UpstreamMode::SpiEcho || queue.len() == 0 {
        staged
    } else {
        queue[0].data@
    }
}

/// The responses that stay queued once one is staged.
pub open spec fn responses_left(mode: UpstreamMode, queue: Seq<SpiFrame>) -> Seq<SpiFrame> {
    if mode == UpstreamMode::SpiStatic || mode == UpstreamMode::SpiEcho || queue.len() == 0 {
        queue
    } else {
        queue.drop_first()
    }
}

/// Stages what the next transaction clocks out: the fixed frame in static mode, and otherwise, but
/// for the echo mode, the oldest queued response if there is one.
pub fn stage_before_transfer(
    transport: &mut PioSpiTransportState,
    mode: UpstreamMode,
    rx_resp: &mut SpiQueue,
)
    requires
        old(rx_resp).wf(),
    ensures
        final(rx_resp).wf(),
        final(transport)@ == staged_before(mode, old(transport)@, old(rx_resp)@),
        final(rx_resp)@ == responses_left(mode, old(rx_resp)@),
{
    match mode {
        UpstreamMode::SpiStatic => transport.stage_response(static_frame()),
        UpstreamMode::SpiEcho => {},
        _ => {
            if let Some(resp) = rx_resp.try_pop() {
                transport.stage_response(resp.data);
            }
        },
    }
}

/// A data request is handed on to the session, up to the full payload and whatever it reads as.
pub proof fn data_requests_are_forwarded(payload: Seq<u8>)
    requires
        0 < payload.len() <= PAYLOAD_MAX,
    ensures
        forwarded_frame(Transaction::Complete(response_frame(REQ_DATA_MAGIC, payload))) == Some(
            response_frame(REQ_DATA_MAGIC, payload),
        ),
        short_header_carries(REQ_DATA_MAGIC, payload.len()) ==> forwarded_frame(
            Transaction::Complete(short_frame(REQ_DATA_MAGIC, payload)),
        ) == Some(short_frame(REQ_DATA_MAGIC, payload)),
{
    link_frame_parses_back(payload);
    short_frame_parses_back(payload);
}

/// A queue holds at most 32 items and 8192 bytes.
pub proof fn spi_queue_limits(queue: &SpiQueue)
    requires
        queue.wf(),
    ensures
        SpiQueue::depth() == 32,
        queue@.len() <= 32,
        total_weight(queue@) <= 8192,
{
    queue.limits_hold();
}

/// A text response carries its whole text, up to the full payload.
pub proof fn text_responses_carry_their_text(text: Seq<char>)
    requires
        encode_utf8(text).len() <= PAYLOAD_MAX,
    ensures
        text_response(text).len() == FRAME_SIZE,
        transfer_request(text_response(text)) == Some(Request::Command(encode_utf8(text))),
{
    link_frame_parses_back(encode_utf8(text));
}

/// A command request that reads as a local command is answered with the whole text of its reply and
/// is not handed on.
pub proof fn local_commands_are_answered_in_full(
    payload: Seq<u8>,
    config: BridgeConfig,
    status: BridgeStatus,
)
    requires
        payload.len() <= PAYLOAD_MAX,
        is_local_command(payload),
    ensures
        ({
            let t = Transaction::Complete(response_frame(REQ_COMMAND_MAGIC, payload));
            &&& run_command(t) == Some(payload)
            &&& forwarded_frame(t) is None
            &&& staged_reply(t, config, status) is Some
            &&& transfer_request(staged_reply(t, config, status)->0) == Some(
                Request::Command(encode_utf8(reply_text(config, status, line_text(payload)))),
            )
        }),
        short_header_carries(REQ_COMMAND_MAGIC, payload.len()) ==> {
            let t = Transaction::Complete(short_frame(REQ_COMMAND_MAGIC, payload));
            &&& run_command(t) == Some(payload)
            &&& forwarded_frame(t) is None
            &&& staged_reply(t, config, status) is Some
            &&& transfer_request(staged_reply(t, config, status)->0) == Some(
                Request::Command(encode_utf8(reply_text(config, status, line_text(payload)))),
            )
        },
{
    link_frame_parses_back(payload);
    short_frame_parses_back(payload);
    replies_fit(config, status, line_text(payload));
    text_responses_carry_their_text(reply_text(config, status, line_text(payload)));
}

/// A command request that does not read as a local command is handed on whole and not answered.
pub proof fn other_commands_are_forwarded(
    payload: Seq<u8>,
    config: BridgeConfig,
    status: BridgeStatus,
)
    requires
        0 < payload.len() <= PAYLOAD_MAX,
        !is_local_command(payload),
    ensures
        ({
            let frame = response_frame(REQ_COMMAND_MAGIC, payload);
            &&& forwarded_frame(Transaction::Complete(frame)) == Some(frame)
            &&& staged_reply(Transaction::Complete(frame), config, status) is None
            &&& run_command(Transaction::Complete(frame)) is None
        }),
        short_header_carries(REQ_COMMAND_MAGIC, payload.len()) ==> {
            let frame = short_frame(REQ_COMMAND_MAGIC, payload);
            &&& forwarded_frame(Transaction::Complete(frame)) == Some(frame)
            &&& staged_reply(Transaction::Complete(frame), config, status) is None
            &&& run_command(Transaction::Complete(frame)) is None
        },
{
    link_frame_parses_back(payload);
    short_frame_parses_back(payload);
}

/// A transaction is answered exactly when nothing of it is handed on, and what is handed on is the
/// frame that came in.
pub proof fn requests_are_answered_or_forwarded(
    t: Transaction,
    config: BridgeConfig,
    status: BridgeStatus,
)
    ensures
        forwarded_frame(t) is Some <==> staged_reply(t, config, status) is None,
        forwarded_frame(t) matches Some(frame) ==> t == Transaction::Complete(frame),
        run_command(t) is Some ==> forwarded_frame(t) is None && t is Complete,
{
}

/// What went wrong is told in full: a frame that was cut short, and one that is no request.
pub proof fn broken_frames_are_answered_with_an_error(
    received: nat,
    expected: nat,
    frame: Seq<u8>,
    config: BridgeConfig,
    status: BridgeStatus,
)
    requires
        transfer_request(frame) is None,
        recovered_command(frame) is None,
    ensures
        ({
            let cut = staged_reply(Transaction::Partial(received, expected, frame), config, status);
            let odd = staged_reply(Transaction::Complete(frame), config, status);
            &&& cut is Some
            &&& transfer_request(cut->0) == Some(
                Request::Command(encode_utf8("error partial spi frame"@)),
            )
            &&& odd is Some
            &&& transfer_request(odd->0) == Some(
                Request::Command(encode_utf8("error invalid spi frame"@)),
            )
        }),
{
    reveal_strlit("error partial spi frame");
    reveal_strlit("error invalid spi frame");
    is_ascii_chars_encode_utf8("error partial spi frame"@);
    is_ascii_chars_encode_utf8("error invalid spi frame"@);
    text_responses_carry_their_text("error partial spi frame"@);
    text_responses_carry_their_text("error invalid spi frame"@);
}

/// An idle poll is answered with the number of bytes it clocked, as far as a byte can count them, and
/// the first four of them.
pub proof fn idle_polls_are_answered_with_their_bytes(
    received: nat,
    preview: Seq<u8>,
    config: BridgeConfig,
    status: BridgeStatus,
)
    requires
        preview.len() >= 4,
    ensures
        ({
            let reply = staged_reply(Transaction::IdlePoll(received, preview), config, status);
            &&& reply is Some
            &&& transfer_request(reply->0) == Some(
                Request::Command(
                    seq![
                        0x52u8,
                        if received <= 255 {
                            received as u8
                        } else {
                            255u8
                        },
                    ] + preview.take(4),
                ),
            )
        }),
{
    let count = if received <= 255 {
        received as u8
    } else {
        255u8
    };
    let payload = seq![0x52u8, count, preview[0], preview[1], preview[2], preview[3]];
    assert(payload =~= seq![0x52u8, count] + preview.take(4));
    link_frame_parses_back(payload);
}

/// A frame that is handed on becomes the newest of the queue, byte for byte. The ones in front of it
/// stay as long as the limits of the queue allow it.
pub proof fn forwarded_frame_is_queued(
    before: Seq<SpiFrame>,
    after: Seq<SpiFrame>,
    frame: Seq<u8>,
)
    requires
        after_forward(before, after, frame),
    ensures
        after.len() > 0,
        after.last().data@ == frame,
        before.len() < 32 && total_weight(before) + frame_len(frame) <= 8192 ==> after.drop_last()
            == before,
        after.drop_last() == before.skip(before.len() + 1 - after.len()),
        after.len() <= 32,
{
    let item = choose|item: SpiFrame| #[trigger]
        item.data@ == frame && after == survivors(before, item.weight(), 32, 8192).push(item);
    items_are_dropped_only_for_room(before, item.weight(), 32, 8192);
    survivors_are_the_longest_fitting_suffix(before, item.weight(), 32, 8192);
    assert(after.drop_last() =~= survivors(before, item.weight(), 32, 8192));
    assert(after.last() == item);
}

/// A frame counts for its header and its payload.
pub proof fn frames_count_for_their_active_bytes(payload: Seq<u8>)
    requires
        payload.len() <= PAYLOAD_MAX,
    ensures
        frame_len(response_frame(REQ_DATA_MAGIC, payload)) == 4 + payload.len(),
        frame_len(response_frame(RESP_DATA_MAGIC, payload)) == 4 + payload.len(),
        frame_len(response_frame(REQ_COMMAND_MAGIC, payload)) == 4 + payload.len(),
        frame_len(response_frame(RESP_COMMAND_MAGIC, payload)) == 4 + payload.len(),
        short_header_carries(REQ_DATA_MAGIC, payload.len()) ==> frame_len(
            short_frame(REQ_DATA_MAGIC, payload),
        ) == 2 + payload.len(),
        short_header_carries(REQ_COMMAND_MAGIC, payload.len()) ==> frame_len(
            short_frame(REQ_COMMAND_MAGIC, payload),
        ) == 2 + payload.len(),
{
    crate::bytes::le16_round_trip(payload.len());
}

/// The first position of a byte that occurs nowhere before it.
proof fn byte_position_is(bytes: Seq<u8>, from: nat, byte: u8, at: nat)
    requires
        from <= at <= bytes.len(),
        forall|i: int| from <= i < at ==> #[trigger] bytes[i] != byte,
        at < bytes.len() ==> bytes[at as int] == byte,
    ensures
        byte_position(bytes, from, byte) == at,
    decreases at - from,
{
    if from < at {
        byte_position_is(bytes, from + 1, byte, at);
    }
}

/// A command whose header was lost is recovered whole, from its slash to the zero behind it.
pub proof fn lost_headers_do_not_lose_the_command(
    first: u8,
    junk: Seq<u8>,
    line: Seq<u8>,
    rest: Seq<u8>,
)
    requires
        first == 0 || first == REQ_DATA_MAGIC || first == REQ_COMMAND_MAGIC,
        forall|i: int| 0 <= i < junk.len() ==> #[trigger] junk[i] != 0x2f,
        is_local_command(line),
    ensures
        recovered_command(seq![first, 0u8] + junk + line + seq![0u8] + rest) == Some(line),
{
    let frame = seq![first, 0u8] + junk + line + seq![0u8] + rest;
    let start = 2 + junk.len();
    let end = start + line.len();
    assert(frame[start as int] == line[0]);
    assert forall|i: int| 2 <= i < start implies #[trigger] frame[i] != 0x2f by {
        assert(frame[i] == junk[i - 2]);
    }
    byte_position_is(frame, 2, SLASH, start);
    assert(frame[end as int] == 0);
    assert forall|i: int| start <= i < end implies #[trigger] frame[i] != 0 by {
        assert(frame[i] == line[i - start]);
    }
    byte_position_is(frame, start, 0, end);
    assert(frame.subrange(start as int, end as int) =~= line);
}

/// The echo mode sends a whole frame back byte for byte, answers an idle poll with empty data and
/// tells of a frame that was cut short.
pub proof fn frames_are_echoed_unchanged(
    frame: Seq<u8>,
    received: nat,
    expected: nat,
    preview: Seq<u8>,
)
    ensures
        echo_reply(Transaction::Complete(frame)) == frame,
        transfer_request(echo_reply(Transaction::IdlePoll(received, preview))) == Some(
            Request::Data(Seq::<u8>::empty()),
        ),
        transfer_request(echo_reply(Transaction::Partial(received, expected, frame))) == Some(
            Request::Command(encode_utf8("error partial spi frame"@)),
        ),
{
    link_frame_parses_back(Seq::empty());
    reveal_strlit("error partial spi frame");
    is_ascii_chars_encode_utf8("error partial spi frame"@);
    text_responses_carry_their_text("error partial spi frame"@);
}

/// Queued responses go out in order and byte for byte, one per transaction. The diagnostic modes
/// leave them alone.
pub proof fn queued_responses_go_out_in_order(
    mode: UpstreamMode,
    staged: Seq<u8>,
    oldest: SpiFrame,
    rest: Seq<SpiFrame>,
)
    ensures
        ({
            let queue = seq![oldest] + rest;
            match mode {
                UpstreamMode::SpiStatic => {
                    &&& transfer_request(staged_before(mode, staged, queue)) == Some(
                        Request::Command(encode_utf8("pong"@)),
                    )
                    &&& responses_left(mode, queue) == queue
                },
                UpstreamMode::SpiEcho => {
                    &&& staged_before(mode, staged, queue) == staged
                    &&& responses_left(mode, queue) == queue
                },
                _ => {
                    &&& staged_before(mode, staged, queue) == oldest.data@
                    &&& responses_left(mode, queue) == rest
                    &&& staged_before(mode, staged, Seq::empty()) == staged
                    &&& responses_left(mode, Seq::empty()) == Seq::<SpiFrame>::empty()
                },
            }
        }),
{
    reveal_strlit("pong");
    is_ascii_chars_encode_utf8("pong"@);
    text_responses_carry_their_text("pong"@);
    assert((seq![oldest] + rest).drop_first() =~= rest);
    assert((seq![oldest] + rest)[0] == oldest);
}

/// Only a local command can change the LED, and it changes it as its line asks.
pub proof fn only_local_commands_change_the_led(payload: Seq<u8>)
    requires
        0 < payload.len() <= PAYLOAD_MAX,
    ensures
        is_local_command(payload) ==> command_led(
            Transaction::Complete(response_frame(REQ_COMMAND_MAGIC, payload)),
        ) == requested_led_mode(line_text(payload)),
        !is_local_command(payload) ==> command_led(
            Transaction::Complete(response_frame(REQ_COMMAND_MAGIC, payload)),
        ) is None,
        command_led(Transaction::Complete(response_frame(REQ_DATA_MAGIC, payload))) is None,
{
    link_frame_parses_back(payload);
}

/// The session gets a data request whole, as the newest in its queue. Nothing of a local command
/// reaches it, and nothing of a transaction without a whole frame.
pub proof fn session_gets_the_data(
    t: Transaction,
    payload: Seq<u8>,
    before: Seq<SpiFrame>,
    after: Seq<SpiFrame>,
)
    requires
        0 < payload.len() <= PAYLOAD_MAX,
        frames_after(t, before, after),
    ensures
        t == Transaction::Complete(response_frame(REQ_DATA_MAGIC, payload)) ==> {
            &&& after.len() > 0
            &&& transfer_request(after.last().data@) == Some(Request::Data(payload))
        },
        t == Transaction::Complete(response_frame(REQ_COMMAND_MAGIC, payload)) && is_local_command(
            payload,
        ) ==> after == before,
        !(t is Complete) ==> after == before,
{
    link_frame_parses_back(payload);
    data_requests_are_forwarded(payload);
    if t == Transaction::Complete(response_frame(REQ_DATA_MAGIC, payload)) {
        forwarded_frame_is_queued(before, after, response_frame(REQ_DATA_MAGIC, payload));
    }
}

} // verus!
