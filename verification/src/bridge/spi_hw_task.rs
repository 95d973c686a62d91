//! Decisions of the hardware SPI1 slave task.

use crate::bridge::commands::led_request;
use crate::bridge::commands::line_text;
use crate::bridge::commands::local_reply;
use crate::bridge::commands::replies_fit;
use crate::bridge::commands::reply_text;
use crate::bridge::commands::requested_led_mode;
use crate::bridge::commands::trim_ascii_line;
use crate::bridge::commands::BridgeStatus;
use crate::bridge::spi_pio::empty_response;
use crate::bridge::spi_pio::make_empty_response;
use crate::bridge::spi_pio::transaction;
use crate::bridge::spi_pio::PioSpiTransportState;
use crate::bridge::spi_pio::Transaction;
use crate::bridge::spi_pio::TransactionResult;
use crate::bridge::spi_task::after_forward;
use crate::bridge::spi_task::byte_position;
use crate::bridge::spi_task::find_byte;
use crate::bridge::spi_task::forwarded_frame_is_queued;
use crate::bridge::spi_task::make_text_response;
use crate::bridge::spi_task::static_frame;
use crate::bridge::spi_task::text_response;
use crate::bridge::spi_task::text_responses_carry_their_text;
use crate::bridge::spi_task::SpiFrame;
use crate::bridge::spi_task::SpiQueue;
use crate::bytes::le16_round_trip;
use crate::config::spaced;
use crate::config::BridgeConfig;
use crate::config::UpstreamMode;
use crate::protocol::i2c::response_frame;
use crate::protocol::i2c::FRAME_SIZE;
use crate::protocol::i2c::FrameKind;
use crate::protocol::i2c::PAYLOAD_MAX;
use crate::protocol::i2c::REQ_COMMAND_MAGIC;
use crate::protocol::i2c::REQ_DATA_MAGIC;
use crate::protocol::i2c::RESP_COMMAND_MAGIC;
use crate::protocol::i2c::RESP_DATA_MAGIC;
use crate::protocol::i2c::Request;
use crate::protocol::i2c::RequestFrame;
use crate::protocol::spi::SLASH;
use crate::protocol::transfer::carries_data;
use crate::protocol::transfer::carries_output;
use crate::protocol::transfer::frame_len;
use crate::protocol::transfer::link_frame_parses_back;
use crate::protocol::transfer::parse_transfer;
use crate::protocol::transfer::payload_len;
use crate::protocol::transfer::read_header;
use crate::protocol::transfer::short_frame;
use crate::protocol::transfer::short_frame_parses_back;
use crate::protocol::transfer::short_header_carries;
use crate::protocol::transfer::transfer_len;
use crate::protocol::transfer::transfer_request;
use crate::text::append_decimal;
use crate::text::append_hex_byte;
use crate::text::append_text;
use crate::text::as_str192;
use crate::text::as_str96;
use crate::text::checked_utf8;
use crate::text::decimal;
use crate::text::decimal_width;
use crate::text::hex_byte;
use crate::text::new96;
use crate::text::power_of_ten;
use crate::text::same_text;
use crate::text::text96;
use vstd::prelude::*;
use vstd::string::StrSliceExecFns;
use vstd::utf8::decode_utf8;
use vstd::utf8::encode_utf8;
use vstd::utf8::encode_utf8_decode_utf8;
use vstd::utf8::encode_utf8_valid_utf8;
use vstd::utf8::is_ascii_chars;
use vstd::utf8::is_ascii_chars_encode_utf8;
use vstd::utf8::valid_utf8;

verus! {

/// Number of response bytes put into the transmit FIFO before the clock starts.
pub const SPI_TX_PRELOAD_BYTES: usize = 8;

/// Number of idle rounds after which a transfer counts as over.
pub const SPI_IDLE_BREAK_SPINS: u32 = 32;

/// Number of rounds spent waiting for chip select before other tasks get to run.
pub const SPI_WAIT_YIELD_SPINS: u32 = 2048;

/// Number of frame bytes searched for an ASCII command.
pub const COMMAND_SCAN_LEN: usize = 96;

/// Whether a response frame is the empty data response.
pub open spec fn is_empty_data(frame: Seq<u8>) -> bool {
    carries_data(frame) && payload_len(frame) == 0
}

/// Whether a response that was not clocked out whole has to be kept: a command reply always, a data
/// response when it carries anything.
pub open spec fn must_resend(frame: Seq<u8>, written: nat) -> bool {
    (carries_output(frame) || (carries_data(frame) && payload_len(frame) != 0)) && written
        < frame_len(frame)
}

/// Whether a request frame holds nothing behind the payload it declares.
pub open spec fn is_strict(frame: Seq<u8>) -> bool {
    (frame[0] == REQ_DATA_MAGIC || frame[0] == REQ_COMMAND_MAGIC) && (forall|i: int|
        frame_len(frame) <= i < frame.len() ==> #[trigger] frame[i] == 0)
}

/// Whether a response carries data, and whether it carries command output.
fn response_kind(frame: &[u8; FRAME_SIZE]) -> (r: (bool, bool))
    ensures
        r.0 == carries_data(frame@),
        r.1 == carries_output(frame@),
{
    let (kind, _, _) = read_header(frame);
    match kind {
        Some(FrameKind::Data) => (true, false),
        Some(FrameKind::Command) => (false, true),
        Some(FrameKind::RawAscii) => (false, false),
        None => (frame[0] == RESP_DATA_MAGIC, frame[0] == RESP_COMMAND_MAGIC),
    }
}

fn is_default_empty_data_response(frame: &[u8; FRAME_SIZE]) -> (r: bool)
    ensures
        r == is_empty_data(frame@),
{
    let (_, _, len) = read_header(frame);
    response_kind(frame).0 && len == 0
}

fn should_preserve_staged_response(frame: &[u8; FRAME_SIZE], written: usize) -> (r: bool)
    ensures
        r == must_resend(frame@, written as nat),
{
    let (_, _, len) = read_header(frame);
    let (data, output) = response_kind(frame);
    (output || (data && len != 0)) && written < transfer_len(frame)
}

/// The number of bytes that a received frame calls for, as far as its header came in.
pub fn expected_len_from_frame(frame: &[u8; FRAME_SIZE], received: usize) -> (n: usize)
    ensures
        n == if received >= 2 {
            frame_len(frame@)
        } else {
            0
        },
{
    if received >= 2 {
        transfer_len(frame)
    } else {
        0
    }
}

fn is_strict_forward_frame(frame: &[u8; FRAME_SIZE]) -> (r: bool)
    ensures
        r == is_strict(frame@),
{
    if frame[0] != REQ_DATA_MAGIC && frame[0] != REQ_COMMAND_MAGIC {
        return false;
    }
    let start: usize = transfer_len(frame);
    let mut at: usize = start;
    while at < FRAME_SIZE
        invariant
            start == frame_len(frame@),
            start <= at <= FRAME_SIZE,
            forall|i: int| start <= i < at ==> #[trigger] frame@[i] == 0,
        decreases FRAME_SIZE - at,
    {
        if frame[at] != 0 {
            assert(frame@[at as int] != 0);
            return false;
        }
        at = at + 1;
    }
    true
}

/// The bytes of a preview in hexadecimal, each behind a space.
pub open spec fn hex_list(bytes: Seq<u8>) -> Seq<char>
    decreases bytes.len(),
{
    if bytes.len() == 0 {
        Seq::empty()
    } else {
        hex_list(bytes.drop_last()) + " "@ + hex_byte(bytes.last())
    }
}

/// The diagnostics of a transaction: its kind, both counts and up to eight received bytes.
pub open spec fn diag_text(kind: Seq<char>, received: nat, expected: nat, preview: Seq<u8>) -> Seq<
    char,
> {
    kind + " r="@ + decimal(received) + " e="@ + decimal(expected) + hex_list(
        if preview.len() <= 8 {
            preview
        } else {
            preview.take(8)
        },
    )
}

proof fn size_width(n: usize)
    ensures
        1 <= decimal(n as nat).len() <= 20,
        is_ascii_chars(decimal(n as nat)),
{
    reveal_with_fuel(power_of_ten, 21);
    decimal_width(n as nat, 20);
}

/// Renders the diagnostics of a transaction.
pub fn render_spi_diag(kind: &str, received: usize, expected: usize, preview: &[u8]) -> (out:
    heapless::String<96>)
    requires
        is_ascii_chars(kind@),
        kind@.len() <= 24,
    ensures
        text96(out) == diag_text(kind@, received as nat, expected as nat, preview@),
{
    let mut out = new96();
    proof {
        size_width(received);
        size_width(expected);
        reveal_strlit(" r=");
        reveal_strlit(" e=");
        reveal_strlit(" ");
    }
    append_text(&mut out, kind);
    append_text(&mut out, " r=");
    append_decimal(&mut out, received as u64);
    append_text(&mut out, " e=");
    append_decimal(&mut out, expected as u64);
    let ghost head = text96(out);
    assert(head == kind@ + " r="@ + decimal(received as nat) + " e="@ + decimal(expected as nat));
    let n: usize = if preview.len() < 8 {
        preview.len()
    } else {
        8
    };
    assert(preview@.take(0) == Seq::<u8>::empty());
    for i in 0..n
        invariant
            n <= 8,
            n <= preview@.len(),
            head.len() <= 70,
            " "@.len() == 1,
            is_ascii_chars(" "@),
            is_ascii_chars(text96(out)),
            text96(out).len() == head.len() + 3 * i,
            text96(out) == head + hex_list(preview@.take(i as int)),
    {
        let ghost before = text96(out);
        append_text(&mut out, " ");
        append_hex_byte(&mut out, preview[i]);
        proof {
            assert(preview@.take(i + 1).drop_last() == preview@.take(i as int));
            assert(text96(out) == head + hex_list(preview@.take(i + 1)));
        }
    }
    assert(preview@.take(n as int) == if preview@.len() <= 8 {
        preview@
    } else {
        preview@.take(8)
    });
    out
}

/// The end of the run of bytes that starts at `from`: the next zero or line end, or the length.
pub open spec fn run_end(bytes: Seq<u8>, from: nat) -> nat
    decreases bytes.len() - from,
{
    if from >= bytes.len() {
        bytes.len()
    } else if bytes[from as int] == 0 || bytes[from as int] == 0x0a || bytes[from as int] == 0x0d {
        from
    } else {
        run_end(bytes, from + 1)
    }
}

/// Whether all bytes are printable ASCII.
pub open spec fn is_printable(bytes: Seq<u8>) -> bool {
    forall|i: int| 0 <= i < bytes.len() ==> 32 <= #[trigger] bytes[i] <= 126
}

/// The first run of printable text behind a slash, from `from` on.
pub open spec fn slash_text(bytes: Seq<u8>, from: nat) -> Option<Seq<char>>
    decreases bytes.len() - from,
{
    if from >= bytes.len() {
        None
    } else if bytes[from as int] == SLASH && {
        let run = bytes.subrange(from as int, run_end(bytes, from) as int);
        valid_utf8(run) && is_printable(run)
    } {
        Some(decode_utf8(bytes.subrange(from as int, run_end(bytes, from) as int)))
    } else {
        slash_text(bytes, from + 1)
    }
}

/// The ASCII command near the start of a frame.
pub open spec fn ascii_command(frame: Seq<u8>) -> Option<Seq<char>> {
    slash_text(frame.take(COMMAND_SCAN_LEN as int), 0)
}

fn find_run_end(bytes: &[u8], from: usize) -> (r: usize)
    requires
        from <= bytes@.len(),
    ensures
        r == run_end(bytes@, from as nat),
        from <= r <= bytes@.len(),
{
    let n: usize = bytes.len();
    let mut at: usize = from;
    while at < n && bytes[at] != 0 && bytes[at] != 0x0a && bytes[at] != 0x0d
        invariant
            n == bytes@.len(),
            from <= at <= n,
            run_end(bytes@, from as nat) == run_end(bytes@, at as nat),
        ensures
            from <= at <= n,
            at == run_end(bytes@, from as nat),
        decreases n - at,
    {
        at = at + 1;
    }
    at
}

fn all_printable(bytes: &[u8]) -> (r: bool)
    ensures
        r == is_printable(bytes@),
{
    let n: usize = bytes.len();
    for i in 0..n
        invariant
            n == bytes@.len(),
            forall|j: int| 0 <= j < i ==> 32 <= #[trigger] bytes@[j] <= 126,
    {
        if bytes[i] < 32 || bytes[i] > 126 {
            assert(!(32 <= bytes@[i as int] <= 126));
            return false;
        }
    }
    true
}

proof fn slash_text_skips(bytes: Seq<u8>, from: nat, at: nat)
    requires
        from <= at <= bytes.len(),
        at == byte_position(bytes, from, SLASH),
    ensures
        slash_text(bytes, from) == slash_text(bytes, at),
    decreases bytes.len() - from,
{
    if from < at {
        slash_text_skips(bytes, from + 1, at);
    }
}

fn extract_ascii_command(frame: &[u8; FRAME_SIZE]) -> (r: Option<&str>)
    ensures
        r is Some <==> ascii_command(frame@) is Some,
        r matches Some(line) ==> ascii_command(frame@) == Some(line@),
{
    let scan = &frame[0..COMMAND_SCAN_LEN];
    assert(scan@ == frame@.take(COMMAND_SCAN_LEN as int));
    let mut start: usize = 0;
    loop
        invariant
            scan@.len() == COMMAND_SCAN_LEN,
            scan@ == frame@.take(COMMAND_SCAN_LEN as int),
            start <= COMMAND_SCAN_LEN,
            ascii_command(frame@) == slash_text(scan@, start as nat),
        decreases COMMAND_SCAN_LEN - start,
    {
        let slash: usize = find_byte(scan, start, SLASH);
        proof {
            slash_text_skips(scan@, start as nat, slash as nat);
        }
        if slash >= COMMAND_SCAN_LEN {
            return None;
        }
        let end: usize = find_run_end(scan, slash);
        let run = &scan[slash..end];
        if let Some(candidate) = checked_utf8(run) {
            if all_printable(run) {
                proof {
                    encode_utf8_decode_utf8(candidate@);
                }
                return Some(candidate);
            }
        }
        start = slash + 1;
    }
}

/// Whether a line starts with a slash.
pub open spec fn starts_with_slash(line: Seq<char>) -> bool {
    line.len() > 0 && line[0] == '/'
}

fn has_slash(line: &str) -> (r: bool)
    ensures
        r == starts_with_slash(line@),
{
    line.unicode_len() > 0 && line.get_char(0) == '/'
}

/// What the task does with a finished transaction.
pub enum Action {
    /// Hands out the oldest queued response.
    Pull,
    /// Answers a local command.
    Command(Seq<char>),
    /// Hands the frame on to the bridge session and answers with an empty data response.
    Forward(Seq<u8>),
    /// Answers with an empty data response.
    Empty,
    /// Answers with diagnostics.
    Diagnose(Seq<char>),
}

/// What the task does with a line found in a frame.
pub open spec fn line_action(line: Seq<char>) -> Action {
    if line == "/pull"@ {
        Action::Pull
    } else {
        Action::Command(line)
    }
}

/// What the task does with a request that is no local command.
pub open spec fn forward_action(frame: Seq<u8>) -> Action {
    if payload_len(frame) != 0 && is_strict(frame) {
        Action::Forward(frame)
    } else {
        Action::Empty
    }
}

/// What the task does with a finished transaction. Data is bridged, whatever it reads as; a command
/// is recovered only from data that is empty or followed by stray bytes.
pub open spec fn action(t: Transaction) -> Action {
    match t {
        Transaction::IdlePoll(_, _) => Action::Empty,
        Transaction::Partial(received, expected, frame) => match ascii_command(frame) {
            Some(line) => line_action(line),
            None => Action::Diagnose(diag_text("part"@, received, expected, frame.take(8))),
        },
        Transaction::Complete(frame) => match transfer_request(frame) {
            Some(Request::Command(payload)) => if starts_with_slash(line_text(payload)) {
                line_action(line_text(payload))
            } else {
                forward_action(frame)
            },
            Some(Request::Data(_)) => match (forward_action(frame), ascii_command(frame)) {
                (Action::Empty, Some(line)) => line_action(line),
                (forward, _) => forward,
            },
            None => match ascii_command(frame) {
                Some(line) => Action::Command(line),
                None => if frame.take(8) == Seq::new(8, |i: int| 0u8) {
                    Action::Empty
                } else {
                    Action::Diagnose(diag_text("none"@, 0, 0, frame.take(8)))
                },
            },
        },
    }
}

/// The response that a pull hands out: the one pulled before as long as it is pending, else the
/// oldest queued one, else the empty data response.
pub open spec fn pulled(queue: Seq<SpiFrame>, pending: Option<Seq<u8>>) -> Seq<u8> {
    match pending {
        Some(frame) => frame,
        None => if queue.len() > 0 {
            queue[0].data@
        } else {
            empty_response()
        },
    }
}

/// A pending pull response as a byte sequence.
pub open spec fn pending_bytes(pending: Option<[u8; FRAME_SIZE]>) -> Option<Seq<u8>> {
    match pending {
        Some(frame) => Some(frame@),
        None => None,
    }
}

/// The response that an action stages.
pub open spec fn action_reply(
    act: Action,
    config: BridgeConfig,
    status: BridgeStatus,
    queue: Seq<SpiFrame>,
    pending: Option<Seq<u8>>,
) -> Seq<u8> {
    match act {
        Action::Pull => pulled(queue, pending),
        Action::Command(line) => text_response(reply_text(config, status, line)),
        Action::Forward(_) => empty_response(),
        Action::Empty => empty_response(),
        Action::Diagnose(text) => text_response(text),
    }
}

/// Whether a queue is what an action makes of it: a frame that is handed on joins it.
pub open spec fn frames_after(act: Action, before: Seq<SpiFrame>, after: Seq<SpiFrame>) -> bool {
    match act {
        Action::Forward(frame) => after_forward(before, after, frame),
        _ => after == before,
    }
}

/// The responses that stay queued after an action: a pull takes the oldest unless one is pending.
pub open spec fn responses_after(
    act: Action,
    queue: Seq<SpiFrame>,
    pending: Option<Seq<u8>>,
) -> Seq<SpiFrame> {
    if act is Pull && pending is None && queue.len() > 0 {
        queue.drop_first()
    } else {
        queue
    }
}

/// The pulled response that is pending after an action.
pub open spec fn pending_after(
    act: Action,
    queue: Seq<SpiFrame>,
    pending: Option<Seq<u8>>,
) -> Option<Seq<u8>> {
    if act is Pull && pending is None && queue.len() > 0 {
        Some(queue[0].data@)
    } else {
        pending
    }
}

/// The LED mode that an action asks for.
pub open spec fn action_led(act: Action) -> Option<u8> {
    match act {
        Action::Command(line) => requested_led_mode(line),
        _ => None,
    }
}

fn pull_queued_response(
    rx_resp: &mut SpiQueue,
    pending_pull_response: &mut Option<[u8; FRAME_SIZE]>,
) -> (frame: [u8; FRAME_SIZE])
    requires
        old(rx_resp).wf(),
    ensures
        final(rx_resp).wf(),
        frame@ == pulled(old(rx_resp)@, pending_bytes(*old(pending_pull_response))),
        *old(pending_pull_response) is Some || old(rx_resp)@.len() == 0 ==> {
            &&& final(rx_resp)@ == old(rx_resp)@
            &&& *final(pending_pull_response) == *old(pending_pull_response)
        },
        *old(pending_pull_response) is None && old(rx_resp)@.len() > 0 ==> {
            &&& final(rx_resp)@ == old(rx_resp)@.drop_first()
            &&& *final(pending_pull_response) == Some(frame)
        },
{
    if let Some(resp) = *pending_pull_response {
        return resp;
    }
    if let Some(resp) = rx_resp.try_pop() {
        *pending_pull_response = Some(resp.data);
        return resp.data;
    }
    make_empty_response()
}

/// The response of the task to a finished transaction, with the LED mode it asks for.
pub struct HwReply {
    /// The response to stage for the next transaction.
    pub frame: [u8; FRAME_SIZE],
    /// The LED mode that a local command asked for.
    pub led: Option<u8>,
}

/// Turns a finished transaction into the next response, pulls a queued response where one is asked
/// for, and hands requests on to the session.
pub fn finalize_transaction(
    result: TransactionResult,
    bridge_config: &BridgeConfig,
    status: &BridgeStatus,
    tx: &mut SpiQueue,
    rx_resp: &mut SpiQueue,
    pending_pull_response: &mut Option<[u8; FRAME_SIZE]>,
) -> (reply: HwReply)
    requires
        old(tx).wf(),
        old(rx_resp).wf(),
    ensures
        final(tx).wf(),
        final(rx_resp).wf(),
        reply.frame@ == action_reply(
            action(result@),
            *bridge_config,
            *status,
            old(rx_resp)@,
            pending_bytes(*old(pending_pull_response)),
        ),
        reply.led == action_led(action(result@)),
        frames_after(action(result@), old(tx)@, final(tx)@),
        final(rx_resp)@ == responses_after(
            action(result@),
            old(rx_resp)@,
            pending_bytes(*old(pending_pull_response)),
        ),
        pending_bytes(*final(pending_pull_response)) == pending_after(
            action(result@),
            old(rx_resp)@,
            pending_bytes(*old(pending_pull_response)),
        ),
{
    match result {
        TransactionResult::IdlePoll { .. } => HwReply { frame: make_empty_response(), led: None },
        TransactionResult::Partial { received, expected, frame } => {
            if let Some(line) = extract_ascii_command(&frame) {
                return answer_line(
                    line,
                    bridge_config,
                    status,
                    rx_resp,
                    pending_pull_response,
                );
            }
            proof {
                reveal_strlit("part");
            }
            let text = render_spi_diag("part", received, expected, &frame[0..8]);
            assert(frame@.subrange(0, 8) == frame@.take(8));
            HwReply { frame: make_text_response(as_str96(&text)), led: None }
        },
        TransactionResult::Complete(frame) => match parse_transfer(&frame) {
            Some(RequestFrame::Command(payload)) => {
                let line = trim_ascii_line(payload);
                if has_slash(line) {
                    return answer_line(
                        line,
                        bridge_config,
                        status,
                        rx_resp,
                        pending_pull_response,
                    );
                }
                forward_request(frame, tx);
                HwReply { frame: make_empty_response(), led: None }
            },
            Some(RequestFrame::Data(_)) => {
                if !is_forwarded(&frame) {
                    if let Some(line) = extract_ascii_command(&frame) {
                        return answer_line(
                            line,
                            bridge_config,
                            status,
                            rx_resp,
                            pending_pull_response,
                        );
                    }
                }
                forward_request(frame, tx);
                HwReply { frame: make_empty_response(), led: None }
            },
            None => {
                if let Some(line) = extract_ascii_command(&frame) {
                    let response = local_reply(bridge_config, status, line);
                    return HwReply {
                        frame: make_text_response(as_str192(&response)),
                        led: led_request(line),
                    };
                }
                assert(frame@.subrange(0, 8) == frame@.take(8));
                if all_zero_prefix(&frame) {
                    HwReply { frame: make_empty_response(), led: None }
                } else {
                    proof {
                        reveal_strlit("none");
                    }
                    let text = render_spi_diag("none", 0, 0, &frame[0..8]);
                    HwReply { frame: make_text_response(as_str96(&text)), led: None }
                }
            },
        },
    }
}

fn answer_line(
    line: &str,
    bridge_config: &BridgeConfig,
    status: &BridgeStatus,
    rx_resp: &mut SpiQueue,
    pending_pull_response: &mut Option<[u8; FRAME_SIZE]>,
) -> (reply: HwReply)
    requires
        old(rx_resp).wf(),
    ensures
        final(rx_resp).wf(),
        reply.frame@ == action_reply(
            line_action(line@),
            *bridge_config,
            *status,
            old(rx_resp)@,
            pending_bytes(*old(pending_pull_response)),
        ),
        reply.led == action_led(line_action(line@)),
        line@ == "/pull"@ && *old(pending_pull_response) is None && old(rx_resp)@.len() > 0 ==> {
            &&& final(rx_resp)@ == old(rx_resp)@.drop_first()
            &&& *final(pending_pull_response) == Some(reply.frame)
        },
        line@ != "/pull"@ || *old(pending_pull_response) is Some || old(rx_resp)@.len() == 0 ==> {
            &&& final(rx_resp)@ == old(rx_resp)@
            &&& *final(pending_pull_response) == *old(pending_pull_response)
        },
{
    if same_text(line, "/pull") {
        return HwReply { frame: pull_queued_response(rx_resp, pending_pull_response), led: None };
    }
    let response = local_reply(bridge_config, status, line);
    HwReply { frame: make_text_response(as_str192(&response)), led: led_request(line) }
}

fn is_forwarded(frame: &[u8; FRAME_SIZE]) -> (r: bool)
    ensures
        r == (forward_action(frame@) is Forward),
{
    let (_, _, len) = read_header(frame);
    len != 0 && is_strict_forward_frame(frame)
}

fn forward_request(frame: [u8; FRAME_SIZE], tx: &mut SpiQueue)
    requires
        old(tx).wf(),
    ensures
        final(tx).wf(),
        match forward_action(frame@) {
            Action::Forward(bytes) => after_forward(old(tx)@, final(tx)@, bytes),
            _ => final(tx)@ == old(tx)@,
        },
{
    if is_forwarded(&frame) {
        let item = SpiFrame { data: frame };
        let _ = tx.push_overwrite(item);
        assert(item.data@ == frame@);
    }
}

fn all_zero_prefix(frame: &[u8; FRAME_SIZE]) -> (r: bool)
    ensures
        r == (frame@.take(8) == Seq::new(8, |i: int| 0u8)),
{
    for i in 0..8usize
        invariant
            forall|j: int| 0 <= j < i ==> frame@[j] == 0,
    {
        if frame[i] != 0 {
            assert(frame@.take(8)[i as int] != 0);
            return false;
        }
    }
    assert(frame@.take(8) =~= Seq::new(8, |i: int| 0u8));
    true
}

/// What is staged right after a transfer: a response that was not clocked out whole, or else the
/// empty response.
pub open spec fn kept_response(staged: Seq<u8>, written: nat) -> Seq<u8> {
    if must_resend(staged, written) {
        staged
    } else {
        empty_response()
    }
}

/// The pulled response that is pending right after a transfer: none once only the empty response is
/// staged.
pub open spec fn still_pending(
    staged: Seq<u8>,
    written: nat,
    pending: Option<Seq<u8>>,
) -> Option<Seq<u8>> {
    if is_empty_data(kept_response(staged, written)) {
        None
    } else {
        pending
    }
}

/// What is staged and pending right after a transfer: a response that was not clocked out whole
/// stays staged, and a pulled response stops pending once only the empty response is staged.
pub fn settle_transfer(
    transport: &mut PioSpiTransportState,
    staged_tx: [u8; FRAME_SIZE],
    rx_frame: &[u8; FRAME_SIZE],
    received: usize,
    written: usize,
    pending_pull_response: &mut Option<[u8; FRAME_SIZE]>,
) -> (result: TransactionResult)
    ensures
        result@ == transaction(rx_frame@, received as nat),
        final(transport)@ == kept_response(staged_tx@, written as nat),
        pending_bytes(*final(pending_pull_response)) == still_pending(
            staged_tx@,
            written as nat,
            pending_bytes(*old(pending_pull_response)),
        ),
        *final(pending_pull_response) == if is_empty_data(final(transport)@) {
            None
        } else {
            *old(pending_pull_response)
        },
{
    let result = transport.finish_transaction(rx_frame, received);
    if should_preserve_staged_response(&staged_tx, written) {
        transport.stage_response(staged_tx);
    }
    if is_default_empty_data_response(&transport.staged_response()) {
        *pending_pull_response = None;
    }
    result
}

/// The response that the echo mode stages: the fixed frame after a whole frame, and otherwise
/// diagnostics.
pub open spec fn echo_diag(t: Transaction, rx: Seq<u8>) -> Seq<u8> {
    match t {
        Transaction::Complete(_) => text_response("pong"@),
        Transaction::IdlePoll(received, preview) => text_response(
            diag_text("idle"@, received, 0, preview),
        ),
        Transaction::Partial(received, expected, _) => text_response(
            diag_text("part"@, received, expected, rx.take(8)),
        ),
    }
}

/// Builds the response that the echo mode stages.
pub fn echo_response(result: TransactionResult, rx_frame: &[u8; FRAME_SIZE]) -> (frame: [u8;
    FRAME_SIZE])
    ensures
        frame@ == echo_diag(result@, rx_frame@),
{
    match result {
        TransactionResult::Complete(_) => static_frame(),
        TransactionResult::IdlePoll { received, preview } => {
            proof {
                reveal_strlit("idle");
            }
            let text = render_spi_diag("idle", received, 0, &preview);
            make_text_response(as_str96(&text))
        },
        TransactionResult::Partial { received, expected, .. } => {
            proof {
                reveal_strlit("part");
            }
            let text = render_spi_diag("part", received, expected, &rx_frame[0..8]);
            assert(rx_frame@.subrange(0, 8) == rx_frame@.take(8));
            make_text_response(as_str96(&text))
        },
    }
}

/// The response to a finished transaction in every SPI mode: the diagnostic modes have their own, and
/// all others answer what came in.
pub open spec fn mode_reply(
    t: Transaction,
    rx: Seq<u8>,
    config: BridgeConfig,
    status: BridgeStatus,
    queue: Seq<SpiFrame>,
    pending: Option<Seq<u8>>,
) -> Seq<u8> {
    match config.upstream_mode {
        UpstreamMode::SpiStatic => text_response("pong"@),
        UpstreamMode::SpiEcho => echo_diag(t, rx),
        _ => action_reply(action(t), config, status, queue, pending),
    }
}

/// Stages the response to a finished transaction in every SPI mode and returns the LED mode that a
/// local command asked for.
#[allow(clippy::too_many_arguments)]
pub fn stage_after_transfer(
    transport: &mut PioSpiTransportState,
    result: TransactionResult,
    rx_frame: &[u8; FRAME_SIZE],
    bridge_config: &BridgeConfig,
    status: &BridgeStatus,
    tx: &mut SpiQueue,
    rx_resp: &mut SpiQueue,
    pending_pull_response: &mut Option<[u8; FRAME_SIZE]>,
) -> (led: Option<u8>)
    requires
        old(tx).wf(),
        old(rx_resp).wf(),
    ensures
        final(tx).wf(),
        final(rx_resp).wf(),
        final(transport)@ == mode_reply(
            result@,
            rx_frame@,
            *bridge_config,
            *status,
            old(rx_resp)@,
            pending_bytes(*old(pending_pull_response)),
        ),
        bridge_config.upstream_mode == UpstreamMode::SpiStatic || bridge_config.upstream_mode
            == UpstreamMode::SpiEcho ==> {
            &&& led is None
            &&& final(tx)@ == old(tx)@
            &&& final(rx_resp)@ == old(rx_resp)@
            &&& *final(pending_pull_response) == *old(pending_pull_response)
        },
        bridge_config.upstream_mode != UpstreamMode::SpiStatic && bridge_config.upstream_mode
            != UpstreamMode::SpiEcho ==> {
            &&& led == action_led(action(result@))
            &&& frames_after(action(result@), old(tx)@, final(tx)@)
            &&& final(rx_resp)@ == responses_after(
                action(result@),
                old(rx_resp)@,
                pending_bytes(*old(pending_pull_response)),
            )
            &&& pending_bytes(*final(pending_pull_response)) == pending_after(
                action(result@),
                old(rx_resp)@,
                pending_bytes(*old(pending_pull_response)),
            )
        },
{
    match bridge_config.upstream_mode {
        UpstreamMode::SpiStatic => {
            transport.stage_response(static_frame());
            None
        },
        UpstreamMode::SpiEcho => {
            transport.stage_response(echo_response(result, rx_frame));
            None
        },
        _ => {
            let reply = finalize_transaction(
                result,
                bridge_config,
                status,
                tx,
                rx_resp,
                pending_pull_response,
            );
            transport.stage_response(reply.frame);
            reply.led
        },
    }
}

/// Whether a transfer moved any byte.
pub fn transfer_ok(received: usize, written: usize) -> (ok: bool)
    ensures
        ok == (received > 0 || written > 0),
{
    received > 0 || written > 0
}

/// Packs the controller status flags into one byte.
pub fn status_bits(tfe: bool, tnf: bool, rne: bool, rff: bool, bsy: bool) -> (bits: u8)
    ensures
        bits == (if tfe {
            1int
        } else {
            0
        }) + (if tnf {
            2int
        } else {
            0
        }) + (if rne {
            4int
        } else {
            0
        }) + (if rff {
            8int
        } else {
            0
        }) + (if bsy {
            16int
        } else {
            0
        }),
{
    let mut bits: u8 = 0;
    if tfe {
        bits = bits + 1;
    }
    if tnf {
        bits = bits + 2;
    }
    if rne {
        bits = bits + 4;
    }
    if rff {
        bits = bits + 8;
    }
    if bsy {
        bits = bits + 16;
    }
    bits
}

/// Whether chip select, the input with number 13, is low.
pub fn cs_is_low(gpio_in: u32) -> (low: bool)
    ensures
        low == (gpio_in / 8192 % 2 == 0),
{
    gpio_in / 8192 % 2 == 0
}

/// Progress of one software-driven transfer.
#[derive(Clone, Copy)]
pub struct TransferProgress {
    /// Response bytes put into the transmit FIFO.
    pub tx_index: usize,
    /// Request bytes taken out of the receive FIFO.
    pub rx_index: usize,
    /// Idle rounds in a row since the last byte.
    pub idle_spins: u32,
    /// Rounds spent waiting for chip select.
    pub wait_spins: u32,
}

/// The progress and the receive buffer after a received byte, which is stored while the frame has
/// room.
pub open spec fn after_received(p: TransferProgress, rx: Seq<u8>, byte: u8) -> (
    TransferProgress,
    Seq<u8>,
) {
    if p.rx_index < FRAME_SIZE {
        (
            TransferProgress { rx_index: (p.rx_index + 1) as usize, idle_spins: 0, ..p },
            rx.update(p.rx_index as int, byte),
        )
    } else {
        (TransferProgress { idle_spins: 0, ..p }, rx)
    }
}

/// The progress after a round in which nothing came in: only a quiet line counts as idle.
pub open spec fn after_silence(p: TransferProgress, cs_low: bool, busy: bool) -> TransferProgress {
    TransferProgress {
        idle_spins: if cs_low || busy {
            0
        } else if p.idle_spins == u32::MAX {
            u32::MAX
        } else {
            (p.idle_spins + 1) as u32
        },
        ..p
    }
}

/// Whether a round in which nothing came in ends the transfer: the line has been quiet for long
/// enough.
pub open spec fn ends_transfer(p: TransferProgress, cs_low: bool, busy: bool) -> bool {
    !cs_low && !busy && p.idle_spins >= SPI_IDLE_BREAK_SPINS - 1
}

/// The next response byte for the FIFO and the progress after it, if the FIFO has room and fewer than
/// `limit` bytes are out.
pub open spec fn next_out(p: TransferProgress, tx: Seq<u8>, room: bool, limit: usize) -> (
    Option<u8>,
    TransferProgress,
) {
    if room && p.tx_index < limit {
        (
            Some(tx[p.tx_index as int]),
            TransferProgress { tx_index: (p.tx_index + 1) as usize, ..p },
        )
    } else {
        (None, p)
    }
}

impl TransferProgress {
    /// The indices are within a frame.
    pub open spec fn wf(&self) -> bool {
        self.tx_index <= FRAME_SIZE && self.rx_index <= FRAME_SIZE
    }

    /// Starts a transfer.
    pub fn new() -> (p: Self)
        ensures
            p.wf(),
            p.tx_index == 0,
            p.rx_index == 0,
            p.idle_spins == 0,
            p.wait_spins == 0,
    {
        TransferProgress { tx_index: 0, rx_index: 0, idle_spins: 0, wait_spins: 0 }
    }

    /// Before the clock starts: the next byte to preload, while the FIFO has room for it.
    pub fn next_preload(&mut self, tx_frame: &[u8; FRAME_SIZE], fifo_has_room: bool) -> (byte:
        Option<u8>)
        requires
            old(self).wf(),
        ensures
            final(self).wf(),
            (byte, *final(self)) == next_out(
                *old(self),
                tx_frame@,
                fifo_has_room,
                SPI_TX_PRELOAD_BYTES,
            ),
    {
        if self.tx_index < SPI_TX_PRELOAD_BYTES && fifo_has_room {
            let byte = tx_frame[self.tx_index];
            self.tx_index = self.tx_index + 1;
            Some(byte)
        } else {
            None
        }
    }

    /// One round of waiting for chip select: whether other tasks get to run before the next.
    pub fn wait_round(&mut self) -> (yield_now: bool)
        ensures
            yield_now == (old(self).wait_spins >= SPI_WAIT_YIELD_SPINS - 1),
            *final(self) == (TransferProgress {
                wait_spins: if yield_now {
                    0
                } else {
                    (old(self).wait_spins + 1) as u32
                },
                ..*old(self)
            }),
    {
        let spins: u32 = self.wait_spins.saturating_add(1);
        if spins >= SPI_WAIT_YIELD_SPINS {
            self.wait_spins = 0;
            true
        } else {
            self.wait_spins = spins;
            false
        }
    }

    /// One round of the transfer: stores a received byte while the frame has room, and reports
    /// whether the line has been idle for long enough to end the transfer.
    pub fn receive_round(
        &mut self,
        rx_frame: &mut [u8; FRAME_SIZE],
        received: Option<u8>,
        cs_low: bool,
        busy: bool,
    ) -> (done: bool)
        requires
            old(self).wf(),
        ensures
            final(self).wf(),
            received matches Some(byte) ==> !done && (*final(self), final(rx_frame)@)
                == after_received(*old(self), old(rx_frame)@, byte),
            received is None ==> {
                &&& final(rx_frame)@ == old(rx_frame)@
                &&& done == ends_transfer(*old(self), cs_low, busy)
                &&& *final(self) == after_silence(*old(self), cs_low, busy)
            },
    {
        match received {
            Some(byte) => {
                if self.rx_index < FRAME_SIZE {
                    rx_frame[self.rx_index] = byte;
                    self.rx_index = self.rx_index + 1;
                }
                self.idle_spins = 0;
                false
            },
            None => {
                if !cs_low && !busy {
                    self.idle_spins = self.idle_spins.saturating_add(1);
                    self.idle_spins >= SPI_IDLE_BREAK_SPINS
                } else {
                    self.idle_spins = 0;
                    false
                }
            },
        }
    }

    /// The next response byte for the FIFO, if it has room and the frame is not out yet.
    pub fn next_byte(&mut self, tx_frame: &[u8; FRAME_SIZE], fifo_has_room: bool) -> (byte: Option<
        u8,
    >)
        requires
            old(self).wf(),
        ensures
            final(self).wf(),
            (byte, *final(self)) == next_out(*old(self), tx_frame@, fifo_has_room, FRAME_SIZE),
    {
        if self.tx_index < FRAME_SIZE && fifo_has_room {
            let byte = tx_frame[self.tx_index];
            self.tx_index = self.tx_index + 1;
            Some(byte)
        } else {
            None
        }
    }

    /// Whether filling the FIFO pauses after a byte: the preload is out, chip select is high and
    /// nothing waits to be received.
    pub fn pause_filling(&self, cs_low: bool, rx_waiting: bool) -> (pause: bool)
        ensures
            pause == (self.tx_index >= SPI_TX_PRELOAD_BYTES && !cs_low && !rx_waiting),
    {
        self.tx_index >= SPI_TX_PRELOAD_BYTES && !cs_low && !rx_waiting
    }

    /// Whether the transfer is over because the whole frame is out and the line is quiet.
    pub fn all_sent(&self, cs_low: bool, busy: bool, rx_waiting: bool) -> (done: bool)
        ensures
            done == (!cs_low && !busy && !rx_waiting && self.tx_index >= FRAME_SIZE),
    {
        !cs_low && !busy && !rx_waiting && self.tx_index >= FRAME_SIZE
    }

    /// The bytes received and the response bytes clocked out for them.
    pub fn counts(&self) -> (r: (usize, usize))
        ensures
            r.0 == self.rx_index,
            r.1 == if self.rx_index <= self.tx_index {
                self.rx_index
            } else {
                self.tx_index
            },
    {
        (
            self.rx_index,
            if self.rx_index <= self.tx_index {
                self.rx_index
            } else {
                self.tx_index
            },
        )
    }
}

/// A response that was pulled is handed out again by every further pull for as long as it is
/// pending, whatever is queued meanwhile.
pub proof fn pull_repeats_while_pending(queue: Seq<SpiFrame>, later: Seq<SpiFrame>)
    requires
        queue.len() > 0,
    ensures
        pulled(later, Some(pulled(queue, None))) == pulled(queue, None),
        pulled(queue, None) == queue[0].data@,
{
}

/// A reply that the clock cut short is staged again and an empty response never is.
pub proof fn only_cut_short_replies_are_resent(frame: Seq<u8>, written: nat)
    requires
        frame.len() == FRAME_SIZE,
    ensures
        must_resend(frame, written) ==> !is_empty_data(frame) && written < FRAME_SIZE,
        written >= frame_len(frame) ==> !must_resend(frame, written),
{
}

/// A data request is handed on to the session, up to the full payload and whatever it reads as.
pub proof fn data_requests_are_forwarded(payload: Seq<u8>)
    requires
        0 < payload.len() <= PAYLOAD_MAX,
    ensures
        action(Transaction::Complete(response_frame(REQ_DATA_MAGIC, payload))) == Action::Forward(
            response_frame(REQ_DATA_MAGIC, payload),
        ),
        short_header_carries(REQ_DATA_MAGIC, payload.len()) ==> action(
            Transaction::Complete(short_frame(REQ_DATA_MAGIC, payload)),
        ) == Action::Forward(short_frame(REQ_DATA_MAGIC, payload)),
{
    link_frame_parses_back(payload);
    short_frame_parses_back(payload);
}

/// A command request is answered by its line when that starts with a slash, and otherwise handed on
/// to the session, up to the full payload.
pub proof fn command_requests_are_answered_or_forwarded(payload: Seq<u8>)
    requires
        0 < payload.len() <= PAYLOAD_MAX,
    ensures
        action(Transaction::Complete(response_frame(REQ_COMMAND_MAGIC, payload)))
            == if starts_with_slash(line_text(payload)) {
            line_action(line_text(payload))
        } else {
            Action::Forward(response_frame(REQ_COMMAND_MAGIC, payload))
        },
        short_header_carries(REQ_COMMAND_MAGIC, payload.len()) ==> action(
            Transaction::Complete(short_frame(REQ_COMMAND_MAGIC, payload)),
        ) == if starts_with_slash(line_text(payload)) {
            line_action(line_text(payload))
        } else {
            Action::Forward(short_frame(REQ_COMMAND_MAGIC, payload))
        },
{
    link_frame_parses_back(payload);
    short_frame_parses_back(payload);
}

/// A command request whose line starts with a slash and is not the pull is answered with the whole
/// text of its reply, and asks for the LED mode that the line names.
pub proof fn commands_are_answered_in_full(
    payload: Seq<u8>,
    config: BridgeConfig,
    status: BridgeStatus,
    queue: Seq<SpiFrame>,
    pending: Option<Seq<u8>>,
)
    requires
        0 < payload.len() <= PAYLOAD_MAX,
        starts_with_slash(line_text(payload)),
        line_text(payload) != "/pull"@,
    ensures
        ({
            let line = line_text(payload);
            let act = action(Transaction::Complete(response_frame(REQ_COMMAND_MAGIC, payload)));
            &&& act == Action::Command(line)
            &&& action_led(act) == requested_led_mode(line)
            &&& transfer_request(action_reply(act, config, status, queue, pending)) == Some(
                Request::Command(encode_utf8(reply_text(config, status, line))),
            )
        }),
        short_header_carries(REQ_COMMAND_MAGIC, payload.len()) ==> {
            let line = line_text(payload);
            let act = action(Transaction::Complete(short_frame(REQ_COMMAND_MAGIC, payload)));
            &&& act == Action::Command(line)
            &&& action_led(act) == requested_led_mode(line)
            &&& transfer_request(action_reply(act, config, status, queue, pending)) == Some(
                Request::Command(encode_utf8(reply_text(config, status, line))),
            )
        },
{
    command_requests_are_answered_or_forwarded(payload);
    replies_are_staged_in_full(line_text(payload), config, status, queue, pending);
}

/// Whatever transaction a local command was found in, its reply is staged with its whole text.
pub proof fn replies_are_staged_in_full(
    line: Seq<char>,
    config: BridgeConfig,
    status: BridgeStatus,
    queue: Seq<SpiFrame>,
    pending: Option<Seq<u8>>,
)
    ensures
        transfer_request(action_reply(Action::Command(line), config, status, queue, pending))
            == Some(Request::Command(encode_utf8(reply_text(config, status, line)))),
{
    replies_fit(config, status, line);
    text_responses_carry_their_text(reply_text(config, status, line));
}

/// A pull hands out the response that is pending, else the oldest queued one byte for byte, else
/// empty data.
pub proof fn pulls_hand_out_the_oldest_response(
    payload: Seq<u8>,
    config: BridgeConfig,
    status: BridgeStatus,
    queue: Seq<SpiFrame>,
    pending: Seq<u8>,
)
    requires
        0 < payload.len() <= PAYLOAD_MAX,
        line_text(payload) == "/pull"@,
    ensures
        ({
            let act = action(Transaction::Complete(response_frame(REQ_COMMAND_MAGIC, payload)));
            &&& act is Pull
            &&& action_led(act) is None
            &&& action_reply(act, config, status, queue, Some(pending)) == pending
            &&& queue.len() > 0 ==> action_reply(act, config, status, queue, None)
                == queue[0].data@
            &&& queue.len() == 0 ==> transfer_request(
                action_reply(act, config, status, queue, None),
            ) == Some(Request::Data(Seq::<u8>::empty()))
        }),
{
    reveal_strlit("/pull");
    command_requests_are_answered_or_forwarded(payload);
    empty_response_is_empty_data();
}

proof fn empty_response_is_empty_data()
    ensures
        transfer_request(empty_response()) == Some(Request::Data(Seq::<u8>::empty())),
{
    link_frame_parses_back(Seq::empty());
}

/// What is handed on, and what calls for nothing, is answered with empty data.
pub proof fn forwarded_requests_are_answered_with_empty_data(
    frame: Seq<u8>,
    config: BridgeConfig,
    status: BridgeStatus,
    queue: Seq<SpiFrame>,
    pending: Option<Seq<u8>>,
)
    ensures
        transfer_request(action_reply(Action::Forward(frame), config, status, queue, pending))
            == Some(Request::Data(Seq::<u8>::empty())),
        transfer_request(action_reply(Action::Empty, config, status, queue, pending)) == Some(
            Request::Data(Seq::<u8>::empty()),
        ),
        action_led(Action::Forward(frame)) is None,
        action_led(Action::Empty) is None,
{
    empty_response_is_empty_data();
}

/// What is handed on is the frame that came in, whole and with nothing behind its payload, and only
/// requests are handed on.
pub proof fn only_clean_requests_are_forwarded(t: Transaction)
    ensures
        action(t) matches Action::Forward(frame) ==> {
            &&& t == Transaction::Complete(frame)
            &&& frame[0] == REQ_DATA_MAGIC || frame[0] == REQ_COMMAND_MAGIC
            &&& payload_len(frame) > 0
            &&& forall|i: int| frame_len(frame) <= i < frame.len() ==> #[trigger] frame[i] == 0
        },
        t is IdlePoll ==> action(t) is Empty,
        t is Partial ==> !(action(t) is Forward) && !(action(t) is Empty),
{
}

/// A response is staged again exactly when a byte of it was not clocked out, up to its last payload
/// byte, unless it is empty data.
pub proof fn responses_are_kept_until_they_are_out(payload: Seq<u8>, written: nat)
    requires
        payload.len() <= PAYLOAD_MAX,
    ensures
        must_resend(response_frame(RESP_COMMAND_MAGIC, payload), written) <==> written < 4
            + payload.len(),
        must_resend(response_frame(RESP_DATA_MAGIC, payload), written) <==> payload.len() > 0
            && written < 4 + payload.len(),
        is_empty_data(response_frame(RESP_DATA_MAGIC, payload)) <==> payload.len() == 0,
        !is_empty_data(response_frame(RESP_COMMAND_MAGIC, payload)),
{
    le16_round_trip(payload.len());
}

/// Where the run of bytes without a zero or a line end ends.
proof fn run_end_is(bytes: Seq<u8>, from: nat, at: nat)
    requires
        from <= at <= bytes.len(),
        forall|i: int| from <= i < at ==> 32 <= #[trigger] bytes[i] <= 126,
        at < bytes.len() ==> bytes[at as int] == 0 || bytes[at as int] == 0x0a || bytes[at as int]
            == 0x0d,
    ensures
        run_end(bytes, from) == at,
    decreases at - from,
{
    if from < at {
        assert(32 <= bytes[from as int] <= 126);
        run_end_is(bytes, from + 1, at);
    }
}

/// A command near the start of a frame is found and read whole: from the first slash to the zero or
/// line end behind it.
pub proof fn stray_bytes_do_not_hide_a_command(
    junk: Seq<u8>,
    line: Seq<char>,
    end: u8,
    rest: Seq<u8>,
)
    requires
        forall|i: int| 0 <= i < junk.len() ==> #[trigger] junk[i] != 0x2f,
        line.len() > 0,
        line[0] == '/',
        forall|i: int| 0 <= i < line.len() ==> ' ' <= #[trigger] line[i] <= '~',
        end == 0 || end == 0x0a || end == 0x0d,
        junk.len() + line.len() < COMMAND_SCAN_LEN,
        junk.len() + line.len() + 1 + rest.len() >= COMMAND_SCAN_LEN,
    ensures
        ascii_command(junk + encode_utf8(line) + seq![end] + rest) == Some(line),
{
    is_ascii_chars_encode_utf8(line);
    encode_utf8_valid_utf8(line);
    encode_utf8_decode_utf8(line);
    let text = encode_utf8(line);
    let frame = junk + text + seq![end] + rest;
    let scan = frame.take(COMMAND_SCAN_LEN as int);
    let start = junk.len();
    let stop = start + text.len();
    assert forall|i: int| 0 <= i < text.len() implies 32 <= #[trigger] text[i] <= 126 by {
        assert(text[i] == line[i] as u8);
    }
    assert(scan[start as int] == text[0]);
    assert(text[0] == line[0] as u8);
    assert(scan[stop as int] == end);
    assert forall|i: int| start <= i < stop implies 32 <= #[trigger] scan[i] <= 126 by {
        assert(scan[i] == text[i - start]);
    }
    run_end_is(scan, start, stop);
    assert(scan.subrange(start as int, stop as int) =~= text);
    junk_is_passed_over(scan, 0, start);
}

proof fn junk_is_passed_over(bytes: Seq<u8>, from: nat, at: nat)
    requires
        from <= at <= bytes.len(),
        forall|i: int| from <= i < at ==> #[trigger] bytes[i] != 0x2f,
    ensures
        slash_text(bytes, from) == slash_text(bytes, at),
    decreases at - from,
{
    if from < at {
        assert(bytes[from as int] != 0x2f);
        junk_is_passed_over(bytes, from + 1, at);
    }
}

/// A preview is shown byte by byte: a space and two hexadecimal digits each.
pub proof fn previews_show_every_byte(bytes: Seq<u8>, at: int)
    requires
        0 <= at < bytes.len(),
    ensures
        hex_list(bytes).len() == 3 * bytes.len(),
        hex_list(bytes).subrange(3 * at, 3 * at + 3) == seq![' '] + hex_byte(bytes[at]),
    decreases bytes.len(),
{
    reveal_strlit(" ");
    let front = bytes.drop_last();
    let shown = hex_list(bytes);
    reveal_with_fuel(hex_list, 2);
    if front.len() > 0 {
        previews_show_every_byte(front, if at < front.len() {
            at
        } else {
            0
        });
    }
    assert(shown =~= hex_list(front) + (" "@ + hex_byte(bytes.last())));
    assert(" "@ =~= seq![' ']);
    if at < front.len() {
        assert(shown.subrange(3 * at, 3 * at + 3) =~= hex_list(front).subrange(
            3 * at,
            3 * at + 3,
        ));
    } else {
        assert(shown.subrange(3 * at, 3 * at + 3) =~= seq![' '] + hex_byte(bytes.last()));
    }
}

/// The diagnostics of a transaction are its kind, both counts and the bytes of its preview, in this
/// order and each whole.
pub proof fn diagnostics_hold_their_values(
    kind: Seq<char>,
    received: nat,
    expected: nat,
    preview: Seq<u8>,
)
    requires
        preview.len() <= 8,
    ensures
        diag_text(kind, received, expected, preview) == spaced(
            seq![kind, "r="@ + decimal(received), "e="@ + decimal(expected)],
        ) + hex_list(preview),
{
    reveal_strlit(" r=");
    reveal_strlit("r=");
    reveal_strlit(" e=");
    reveal_strlit("e=");
    let parts = seq![kind, "r="@ + decimal(received), "e="@ + decimal(expected)];
    assert(parts.drop_first() =~= seq![parts[1], parts[2]]);
    assert(parts.drop_first().drop_first() =~= seq![parts[2]]);
    reveal_with_fuel(spaced, 3);
    assert(" r="@ =~= seq![' '] + "r="@);
    assert(" e="@ =~= seq![' '] + "e="@);
    assert(kind + " r="@ + decimal(received) + " e="@ + decimal(expected) =~= spaced(parts));
}

/// The echo mode answers every whole frame alike.
pub proof fn whole_frames_are_answered_alike(frame: Seq<u8>, rx: Seq<u8>)
    ensures
        transfer_request(echo_diag(Transaction::Complete(frame), rx)) == Some(
            Request::Command(encode_utf8("pong"@)),
        ),
{
    reveal_strlit("pong");
    is_ascii_chars_encode_utf8("pong"@);
    text_responses_carry_their_text("pong"@);
}

/// A response of the session stays staged, and pending, until its last payload byte is out. After
/// that only empty data is staged and nothing is pending.
pub proof fn pulled_responses_stay_until_they_are_out(
    payload: Seq<u8>,
    written: nat,
    pending: Option<Seq<u8>>,
)
    requires
        0 < payload.len() <= PAYLOAD_MAX,
    ensures
        ({
            let data = response_frame(RESP_DATA_MAGIC, payload);
            let output = response_frame(RESP_COMMAND_MAGIC, payload);
            if written < 4 + payload.len() {
                &&& kept_response(data, written) == data
                &&& still_pending(data, written, pending) == pending
                &&& kept_response(output, written) == output
                &&& still_pending(output, written, pending) == pending
            } else {
                &&& transfer_request(kept_response(data, written)) == Some(
                    Request::Data(Seq::<u8>::empty()),
                )
                &&& still_pending(data, written, pending) is None
                &&& transfer_request(kept_response(output, written)) == Some(
                    Request::Data(Seq::<u8>::empty()),
                )
                &&& still_pending(output, written, pending) is None
            }
        }),
{
    responses_are_kept_until_they_are_out(payload, written);
    responses_are_kept_until_they_are_out(Seq::empty(), written);
    empty_response_is_empty_data();
}

/// In the bridge modes a command is answered with the whole text of its reply, and in static mode
/// every transaction is answered alike.
pub proof fn modes_answer_as_they_should(
    payload: Seq<u8>,
    t: Transaction,
    rx: Seq<u8>,
    config: BridgeConfig,
    status: BridgeStatus,
    queue: Seq<SpiFrame>,
    pending: Option<Seq<u8>>,
)
    requires
        0 < payload.len() <= PAYLOAD_MAX,
        starts_with_slash(line_text(payload)),
        line_text(payload) != "/pull"@,
    ensures
        config.upstream_mode is SpiStatic ==> transfer_request(
            mode_reply(t, rx, config, status, queue, pending),
        ) == Some(Request::Command(encode_utf8("pong"@))),
        !(config.upstream_mode is SpiStatic) && !(config.upstream_mode is SpiEcho)
            ==> transfer_request(
            mode_reply(
                Transaction::Complete(response_frame(REQ_COMMAND_MAGIC, payload)),
                rx,
                config,
                status,
                queue,
                pending,
            ),
        ) == Some(Request::Command(encode_utf8(reply_text(config, status, line_text(payload))))),
{
    whole_frames_are_answered_alike(rx, rx);
    commands_are_answered_in_full(payload, config, status, queue, pending);
}

/// The progress and the receive buffer after a run of received bytes.
pub open spec fn after_received_all(p: TransferProgress, rx: Seq<u8>, bytes: Seq<u8>) -> (
    TransferProgress,
    Seq<u8>,
)
    decreases bytes.len(),
{
    if bytes.len() == 0 {
        (p, rx)
    } else {
        let (before, buffer) = after_received_all(p, rx, bytes.drop_last());
        after_received(before, buffer, bytes.last())
    }
}

/// The bytes of a transfer are stored in order from the start of the buffer, and nothing else in it
/// is touched. Bytes beyond a frame are left out.
pub proof fn received_bytes_fill_the_frame(rx: Seq<u8>, bytes: Seq<u8>)
    requires
        rx.len() == FRAME_SIZE,
    ensures
        ({
            let start = TransferProgress {
                tx_index: 0,
                rx_index: 0,
                idle_spins: 0,
                wait_spins: 0,
            };
            let (after, buffer) = after_received_all(start, rx, bytes);
            let count = if bytes.len() < FRAME_SIZE {
                bytes.len() as int
            } else {
                FRAME_SIZE as int
            };
            &&& after.rx_index == count
            &&& after.idle_spins == 0
            &&& after.tx_index == 0
            &&& buffer == bytes.take(count) + rx.skip(count)
        }),
    decreases bytes.len(),
{
    let start = TransferProgress { tx_index: 0, rx_index: 0, idle_spins: 0, wait_spins: 0 };
    let (after, buffer) = after_received_all(start, rx, bytes);
    if bytes.len() == 0 {
        assert(buffer =~= bytes.take(0) + rx.skip(0));
    } else {
        received_bytes_fill_the_frame(rx, bytes.drop_last());
        let count = if bytes.len() < FRAME_SIZE {
            bytes.len() as int
        } else {
            FRAME_SIZE as int
        };
        assert(buffer =~= bytes.take(count) + rx.skip(count));
    }
}

/// The bytes that go out in a number of rounds in which the FIFO has room, and the progress after
/// them.
pub open spec fn bytes_out(p: TransferProgress, tx: Seq<u8>, limit: usize, rounds: nat) -> (
    Seq<u8>,
    TransferProgress,
)
    decreases rounds,
{
    if rounds == 0 {
        (Seq::empty(), p)
    } else {
        let (out, before) = bytes_out(p, tx, limit, (rounds - 1) as nat);
        match next_out(before, tx, true, limit) {
            (Some(byte), after) => (out.push(byte), after),
            (None, after) => (out, after),
        }
    }
}

/// A response goes out byte by byte and in order, right behind what is already out, and no byte goes
/// out twice or while the FIFO is full.
pub proof fn responses_go_out_in_order(p: TransferProgress, tx: Seq<u8>, rounds: nat)
    requires
        tx.len() == FRAME_SIZE,
        p.wf(),
        rounds <= FRAME_SIZE - p.tx_index,
    ensures
        bytes_out(p, tx, FRAME_SIZE, rounds).0 == tx.subrange(
            p.tx_index as int,
            p.tx_index + rounds,
        ),
        bytes_out(p, tx, FRAME_SIZE, rounds).1 == (TransferProgress {
            tx_index: (p.tx_index + rounds) as usize,
            ..p
        }),
        next_out(p, tx, false, FRAME_SIZE) == (None::<u8>, p),
    decreases rounds,
{
    if rounds > 0 {
        responses_go_out_in_order(p, tx, (rounds - 1) as nat);
    }
    assert(bytes_out(p, tx, FRAME_SIZE, rounds).0 =~= tx.subrange(
        p.tx_index as int,
        p.tx_index + rounds,
    ));
}

/// A transfer ends with the thirty-second quiet round in a row, not before. A byte, a selected chip
/// or a busy line starts the count anew.
pub proof fn quiet_lines_end_the_transfer(p: TransferProgress, rx: Seq<u8>, byte: u8, rounds: u32)
    requires
        p.idle_spins == rounds,
    ensures
        ends_transfer(p, false, false) <==> rounds >= 31,
        rounds < u32::MAX ==> after_silence(p, false, false).idle_spins == rounds + 1,
        !ends_transfer(p, true, false),
        !ends_transfer(p, false, true),
        after_silence(p, true, false).idle_spins == 0,
        after_silence(p, false, true).idle_spins == 0,
        after_received(p, rx, byte).0.idle_spins == 0,
        after_silence(p, false, false).rx_index == p.rx_index,
        after_silence(p, false, false).tx_index == p.tx_index,
{
}

/// A command is found in a frame that was cut short, in one that is no request and in data with stray
/// bytes behind it, and is then run like any other. What holds none is diagnosed.
pub proof fn commands_are_found_in_broken_frames(
    received: nat,
    expected: nat,
    frame: Seq<u8>,
    line: Seq<char>,
)
    ensures
        ascii_command(frame) == Some(line) && line != "/pull"@ ==> {
            &&& action(Transaction::Partial(received, expected, frame)) == Action::Command(line)
            &&& transfer_request(frame) is None ==> action(Transaction::Complete(frame))
                == Action::Command(line)
            &&& transfer_request(frame) is Some && transfer_request(frame)->0 is Data && (exists|
                i: int|
                frame_len(frame) <= i < frame.len() && #[trigger] frame[i] != 0) ==> action(
                Transaction::Complete(frame),
            ) == Action::Command(line)
        },
        ascii_command(frame) == Some("/pull"@) ==> action(
            Transaction::Partial(received, expected, frame),
        ) is Pull,
        ascii_command(frame) is None ==> action(Transaction::Partial(received, expected, frame))
            is Diagnose,
{
}

/// The diagnostics of a frame that was cut short are staged with their whole text.
pub proof fn diagnostics_are_staged_in_full(
    received: nat,
    expected: nat,
    frame: Seq<u8>,
    config: BridgeConfig,
    status: BridgeStatus,
    queue: Seq<SpiFrame>,
    pending: Option<Seq<u8>>,
)
    requires
        received <= FRAME_SIZE,
        expected <= FRAME_SIZE,
        frame.len() == FRAME_SIZE,
        ascii_command(frame) is None,
    ensures
        ({
            let act = action(Transaction::Partial(received, expected, frame));
            let text = spaced(
                seq!["part"@, "r="@ + decimal(received), "e="@ + decimal(expected)],
            ) + hex_list(frame.take(8));
            &&& action_led(act) is None
            &&& transfer_request(action_reply(act, config, status, queue, pending)) == Some(
                Request::Command(encode_utf8(text)),
            )
        }),
{
    let text = diag_text("part"@, received, expected, frame.take(8));
    diagnostics_hold_their_values("part"@, received, expected, frame.take(8));
    diagnostics_fit("part"@, received, expected, frame.take(8));
    text_responses_carry_their_text(text);
}

proof fn hex_list_is_ascii(bytes: Seq<u8>)
    ensures
        is_ascii_chars(hex_list(bytes)),
    decreases bytes.len(),
{
    reveal_strlit(" ");
    if bytes.len() > 0 {
        hex_list_is_ascii(bytes.drop_last());
        assert(is_ascii_chars(hex_byte(bytes.last())));
    }
}

/// The first 96 bytes of a frame are searched for a command, and 8 bytes are put out before the clock
/// starts.
pub proof fn transfer_limits()
    ensures
        COMMAND_SCAN_LEN == 96,
        SPI_TX_PRELOAD_BYTES == 8,
        SPI_IDLE_BREAK_SPINS == 32,
        FRAME_SIZE == 260,
        PAYLOAD_MAX == 256,
{
}

/// A frame that is neither a request nor holds a command is diagnosed by its first bytes, unless
/// those are zero: then it calls for nothing.
pub proof fn foreign_frames_are_diagnosed(
    frame: Seq<u8>,
    config: BridgeConfig,
    status: BridgeStatus,
    queue: Seq<SpiFrame>,
    pending: Option<Seq<u8>>,
)
    requires
        frame.len() == FRAME_SIZE,
        transfer_request(frame) is None,
        ascii_command(frame) is None,
    ensures
        ({
            let act = action(Transaction::Complete(frame));
            let text = spaced(seq!["none"@, "r=0"@, "e=0"@]) + hex_list(frame.take(8));
            if forall|i: int| 0 <= i < 8 ==> #[trigger] frame[i] == 0 {
                act is Empty
            } else {
                &&& action_led(act) is None
                &&& transfer_request(action_reply(act, config, status, queue, pending)) == Some(
                    Request::Command(encode_utf8(text)),
                )
            }
        }),
{
    let zeros = Seq::new(8, |i: int| 0u8);
    if forall|i: int| 0 <= i < 8 ==> #[trigger] frame[i] == 0 {
        assert(frame.take(8) =~= zeros);
    } else {
        let i = choose|i: int| 0 <= i < 8 && #[trigger] frame[i] != 0;
        assert(frame.take(8)[i] != zeros[i]);
        let text = diag_text("none"@, 0, 0, frame.take(8));
        diagnostics_hold_their_values("none"@, 0, 0, frame.take(8));
        reveal_strlit("r=");
        reveal_strlit("e=");
        reveal_strlit("r=0");
        reveal_strlit("e=0");
        reveal_with_fuel(decimal, 2);
        assert(decimal(0) =~= seq!['0']);
        assert("r="@ + decimal(0) =~= "r=0"@);
        assert("e="@ + decimal(0) =~= "e=0"@);
        diagnostics_fit("none"@, 0, 0, frame.take(8));
        text_responses_carry_their_text(text);
    }
}

/// Diagnostics fit in one response.
proof fn diagnostics_fit(kind: Seq<char>, received: nat, expected: nat, preview: Seq<u8>)
    requires
        kind == "none"@ || kind == "part"@ || kind == "idle"@,
        received <= FRAME_SIZE,
        expected <= FRAME_SIZE,
        preview.len() == 8,
    ensures
        encode_utf8(diag_text(kind, received, expected, preview)).len() <= PAYLOAD_MAX,
{
    let text = diag_text(kind, received, expected, preview);
    previews_show_every_byte(preview, 0);
    hex_list_is_ascii(preview);
    size_width(received as usize);
    size_width(expected as usize);
    reveal_strlit("none");
    reveal_strlit("part");
    reveal_strlit("idle");
    reveal_strlit(" r=");
    reveal_strlit(" e=");
    assert(is_ascii_chars(text));
    assert(text.len() <= 76);
    is_ascii_chars_encode_utf8(text);
}

/// The echo mode tells of an idle poll and of a frame that was cut short in full.
pub proof fn echo_mode_tells_what_came_in(received: nat, expected: nat, rx: Seq<u8>, frame: Seq<u8>)
    requires
        received <= FRAME_SIZE,
        expected <= FRAME_SIZE,
        rx.len() == FRAME_SIZE,
    ensures
        transfer_request(echo_diag(Transaction::IdlePoll(received, rx.take(8)), rx)) == Some(
            Request::Command(encode_utf8(diag_text("idle"@, received, 0, rx.take(8)))),
        ),
        transfer_request(echo_diag(Transaction::Partial(received, expected, frame), rx)) == Some(
            Request::Command(encode_utf8(diag_text("part"@, received, expected, rx.take(8)))),
        ),
{
    diagnostics_fit("idle"@, received, 0, rx.take(8));
    diagnostics_fit("part"@, received, expected, rx.take(8));
    text_responses_carry_their_text(diag_text("idle"@, received, 0, rx.take(8)));
    text_responses_carry_their_text(diag_text("part"@, received, expected, rx.take(8)));
}

/// The session gets a data request whole, as the newest in its queue, and nothing of a local
/// command.
pub proof fn session_gets_the_data(
    payload: Seq<u8>,
    before: Seq<SpiFrame>,
    after: Seq<SpiFrame>,
    line: Seq<char>,
)
    requires
        0 < payload.len() <= PAYLOAD_MAX,
    ensures
        frames_after(
            action(Transaction::Complete(response_frame(REQ_DATA_MAGIC, payload))),
            before,
            after,
        ) ==> after.len() > 0 && transfer_request(after.last().data@) == Some(
            Request::Data(payload),
        ),
        frames_after(Action::Command(line), before, after) ==> after == before,
        frames_after(Action::Pull, before, after) ==> after == before,
{
    let frame = response_frame(REQ_DATA_MAGIC, payload);
    link_frame_parses_back(payload);
    data_requests_are_forwarded(payload);
    if frames_after(action(Transaction::Complete(frame)), before, after) {
        forwarded_frame_is_queued(before, after, frame);
    }
}

/// Pulls hand out the queued responses one after the other, each until it is out: the first pull
/// takes a response off the queue, further ones repeat it and take nothing, and nothing but a pull
/// touches the queue.
pub proof fn pulls_take_one_response_at_a_time(
    config: BridgeConfig,
    status: BridgeStatus,
    oldest: SpiFrame,
    rest: Seq<SpiFrame>,
    act: Action,
    pending: Option<Seq<u8>>,
)
    ensures
        ({
            let queue = seq![oldest] + rest;
            let left = responses_after(Action::Pull, queue, None);
            let held = pending_after(Action::Pull, queue, None);
            &&& action_reply(Action::Pull, config, status, queue, None) == oldest.data@
            &&& left == rest
            &&& held == Some(oldest.data@)
            &&& action_reply(Action::Pull, config, status, left, held) == oldest.data@
            &&& responses_after(Action::Pull, left, held) == rest
            &&& pending_after(Action::Pull, left, held) == held
            &&& !(act is Pull) ==> responses_after(act, queue, pending) == queue && pending_after(
                act,
                queue,
                pending,
            ) == pending
        }),
{
    let queue = seq![oldest] + rest;
    assert(queue[0] == oldest);
    assert(queue.drop_first() =~= rest);
}

/// A pulled response is pending exactly as long as something is staged that has to go out again.
pub proof fn nothing_is_pending_without_a_response(
    staged: Seq<u8>,
    written: nat,
    pending: Option<Seq<u8>>,
)
    requires
        staged.len() == FRAME_SIZE,
    ensures
        must_resend(staged, written) ==> kept_response(staged, written) == staged && still_pending(
            staged,
            written,
            pending,
        ) == pending,
        !must_resend(staged, written) ==> still_pending(staged, written, pending) is None
            && transfer_request(kept_response(staged, written)) == Some(
            Request::Data(Seq::<u8>::empty()),
        ),
        kept_response(kept_response(staged, written), written) == kept_response(staged, written),
{
    only_cut_short_replies_are_resent(staged, written);
    responses_are_kept_until_they_are_out(Seq::empty(), written);
    empty_response_is_empty_data();
}

/// Only a frame that is handed on changes the queue of the session.
pub proof fn only_forwarded_frames_reach_the_session(
    act: Action,
    before: Seq<SpiFrame>,
    after: Seq<SpiFrame>,
)
    requires
        frames_after(act, before, after),
    ensures
        !(act is Forward) ==> after == before,
        act matches Action::Forward(frame) ==> after.len() > 0 && after.last().data@ == frame,
{
    if let Action::Forward(frame) = act {
        forwarded_frame_is_queued(before, after, frame);
    }
}

} // verus!
