//! Shared SPI transport diagnostics for field debugging.

use crate::bridge::signals::add_u32;
use crate::bridge::signals::load_u32;
use crate::bridge::signals::load_u8;
use crate::bridge::signals::store_u32;
use crate::bridge::signals::store_u8;
use crate::config::spaced;
use crate::config::spaced_first;
use crate::text::append_decimal;
use crate::text::append_hex_byte;
use crate::text::append_text;
use crate::text::as_str160;
use crate::text::decimal;
use crate::text::decimal_len;
use crate::text::decimal_width;
use crate::text::hex_byte;
use crate::text::new160;
use crate::text::power_of_ten;
use crate::text::text160;
use crate::text::TextBuf;
use portable_atomic::AtomicU32;
use portable_atomic::AtomicU8;
use vstd::prelude::*;
use vstd::utf8::is_ascii_chars;
use vstd::utf8::is_ascii_chars_encode_utf8;

verus! {

/// No transaction was recorded yet.
pub const KIND_UNKNOWN: u8 = 0;

/// The last transaction carried nothing.
pub const KIND_IDLE: u8 = 1;

/// The last transaction ended before its frame did.
pub const KIND_PARTIAL: u8 = 2;

/// The last transaction carried a whole frame.
pub const KIND_COMPLETE: u8 = 3;

/// The transport was reset.
pub const KIND_RESET: u8 = 4;

/// The cells in which the SPI task leaves its diagnostics.
pub struct SpiDiag {
    /// Kind of the last transaction.
    pub last_kind: AtomicU8,
    /// Bytes received in the last transaction.
    pub last_received: AtomicU32,
    /// Bytes the last transaction's frame called for.
    pub last_expected: AtomicU32,
    /// First byte of the last frame's preview.
    pub last_preview0: AtomicU8,
    /// Second byte of the last frame's preview.
    pub last_preview1: AtomicU8,
    /// Third byte of the last frame's preview.
    pub last_preview2: AtomicU8,
    /// Fourth byte of the last frame's preview.
    pub last_preview3: AtomicU8,
    /// First byte in the receive buffer.
    pub last_first_byte: AtomicU8,
    /// Response bytes clocked out in the last transaction.
    pub last_written: AtomicU32,
    /// Response bits clocked out in the last transaction.
    pub last_bits: AtomicU32,
    /// First byte of the staged response.
    pub last_staged_magic: AtomicU8,
    /// Length byte of the staged response.
    pub last_staged_len: AtomicU8,
    /// Number of transport resets.
    pub reset_count: AtomicU32,
    /// Number of responses queued.
    pub queued_response_count: AtomicU32,
    /// First byte of the last queued response.
    pub last_queued_magic: AtomicU8,
    /// Length byte of the last queued response.
    pub last_queued_len: AtomicU8,
    /// Controller status before the last transfer.
    pub last_status_before: AtomicU8,
    /// Controller status after the last transfer.
    pub last_status_after: AtomicU8,
    /// Whether the last transfer moved any byte.
    pub last_transfer_ok: AtomicU8,
    /// Number of transfers that moved no byte.
    pub transfer_error_count: AtomicU32,
}

/// The diagnostics as plain values.
#[derive(Clone, Copy)]
pub struct SpiSnapshot {
    /// Kind of the last transaction.
    pub kind: u8,
    /// Bytes received in the last transaction.
    pub received: u32,
    /// Bytes the last transaction's frame called for.
    pub expected: u32,
    /// First byte of the last frame's preview.
    pub preview0: u8,
    /// Second byte of the last frame's preview.
    pub preview1: u8,
    /// Third byte of the last frame's preview.
    pub preview2: u8,
    /// Fourth byte of the last frame's preview.
    pub preview3: u8,
    /// First byte in the receive buffer.
    pub first_byte: u8,
    /// Response bytes clocked out in the last transaction.
    pub written: u32,
    /// Response bits clocked out in the last transaction.
    pub bits: u32,
    /// First byte of the staged response.
    pub staged_magic: u8,
    /// Length byte of the staged response.
    pub staged_len: u8,
    /// Number of transport resets.
    pub resets: u32,
    /// Number of responses queued.
    pub queued: u32,
    /// First byte of the last queued response.
    pub queued_magic: u8,
    /// Length byte of the last queued response.
    pub queued_len: u8,
    /// Controller status before the last transfer.
    pub status_before: u8,
    /// Controller status after the last transfer.
    pub status_after: u8,
    /// Whether the last transfer moved any byte.
    pub transfer_ok: u8,
    /// Number of transfers that moved no byte.
    pub transfer_errors: u32,
}

/// What is recorded of one transaction.
#[derive(Clone, Copy)]
pub struct TransactionRecord {
    /// Kind of the transaction.
    pub kind: u8,
    /// Bytes received, saturated.
    pub received: u32,
    /// Bytes the frame called for, saturated.
    pub expected: u32,
    /// First bytes received, zero where there were none.
    pub preview: [u8; 4],
    /// First byte in the receive buffer.
    pub first_byte: u8,
    /// Response bytes clocked out, saturated.
    pub written: u32,
    /// Response bits clocked out, saturated.
    pub bits: u32,
    /// First byte of the staged response.
    pub staged_magic: u8,
    /// Length byte of the staged response.
    pub staged_len: u8,
}

/// A count as 32-bit value, saturated.
pub open spec fn saturated(count: usize) -> u32 {
    if count <= u32::MAX {
        count as u32
    } else {
        u32::MAX
    }
}

/// A byte of a preview, zero beyond its end.
pub open spec fn preview_byte(preview: Seq<u8>, at: int) -> u8 {
    if at < preview.len() {
        preview[at]
    } else {
        0
    }
}

fn saturate(count: usize) -> (r: u32)
    ensures
        r == saturated(count),
{
    if count <= u32::MAX as usize {
        count as u32
    } else {
        u32::MAX
    }
}

fn byte_or_zero(preview: &[u8], at: usize) -> (r: u8)
    ensures
        r == preview_byte(preview@, at as int),
{
    if at < preview.len() {
        preview[at]
    } else {
        0
    }
}

/// Collects what is recorded of one transaction.
#[allow(clippy::too_many_arguments)]
pub fn transaction_record(
    kind: u8,
    received: usize,
    expected: usize,
    preview: &[u8],
    first_byte: u8,
    written: usize,
    bits: usize,
    staged_magic: u8,
    staged_len: u8,
) -> (r: TransactionRecord)
    ensures
        r.kind == kind,
        r.received == saturated(received),
        r.expected == saturated(expected),
        forall|i: int| 0 <= i < 4 ==> #[trigger] r.preview[i] == preview_byte(preview@, i),
        r.first_byte == first_byte,
        r.written == saturated(written),
        r.bits == saturated(bits),
        r.staged_magic == staged_magic,
        r.staged_len == staged_len,
{
    TransactionRecord {
        kind,
        received: saturate(received),
        expected: saturate(expected),
        preview: [
            byte_or_zero(preview, 0),
            byte_or_zero(preview, 1),
            byte_or_zero(preview, 2),
            byte_or_zero(preview, 3),
        ],
        first_byte,
        written: saturate(written),
        bits: saturate(bits),
        staged_magic,
        staged_len,
    }
}

/// Records the outcome of one transaction: stores each field of its `transaction_record`. What a
/// later reader sees also rests on the other writers of the cells, so nothing is stated of it.
#[allow(clippy::too_many_arguments)]
pub fn record_transaction(
    diag: &SpiDiag,
    kind: u8,
    received: usize,
    expected: usize,
    preview: &[u8],
    first_byte: u8,
    written: usize,
    bits: usize,
    staged_magic: u8,
    staged_len: u8,
) {
    let r = transaction_record(
        kind,
        received,
        expected,
        preview,
        first_byte,
        written,
        bits,
        staged_magic,
        staged_len,
    );
    store_u8(&diag.last_kind, r.kind);
    store_u32(&diag.last_received, r.received);
    store_u32(&diag.last_expected, r.expected);
    store_u8(&diag.last_preview0, r.preview[0]);
    store_u8(&diag.last_preview1, r.preview[1]);
    store_u8(&diag.last_preview2, r.preview[2]);
    store_u8(&diag.last_preview3, r.preview[3]);
    store_u8(&diag.last_first_byte, r.first_byte);
    store_u32(&diag.last_written, r.written);
    store_u32(&diag.last_bits, r.bits);
    store_u8(&diag.last_staged_magic, r.staged_magic);
    store_u8(&diag.last_staged_len, r.staged_len);
}

/// Records the controller status around a transfer and counts a transfer that failed. What a later
/// reader sees also rests on the other writers of the cells, so nothing is stated of it.
pub fn record_transfer_status(diag: &SpiDiag, status_before: u8, status_after: u8, ok: bool) {
    store_u8(&diag.last_status_before, status_before);
    store_u8(&diag.last_status_after, status_after);
    store_u8(
        &diag.last_transfer_ok,
        if ok {
            1
        } else {
            0
        },
    );
    if !ok {
        let _ = add_u32(&diag.transfer_error_count, 1);
    }
}

/// Counts a queued response and records how it starts. What a later reader sees also rests on the
/// other writers of the cells, so nothing is stated of it.
pub fn record_queued_response(diag: &SpiDiag, magic: u8, len: u8) {
    let _ = add_u32(&diag.queued_response_count, 1);
    store_u8(&diag.last_queued_magic, magic);
    store_u8(&diag.last_queued_len, len);
}

/// Reads the diagnostics.
pub fn snapshot(diag: &SpiDiag) -> SpiSnapshot {
    SpiSnapshot {
        kind: load_u8(&diag.last_kind),
        received: load_u32(&diag.last_received),
        expected: load_u32(&diag.last_expected),
        preview0: load_u8(&diag.last_preview0),
        preview1: load_u8(&diag.last_preview1),
        preview2: load_u8(&diag.last_preview2),
        preview3: load_u8(&diag.last_preview3),
        first_byte: load_u8(&diag.last_first_byte),
        written: load_u32(&diag.last_written),
        bits: load_u32(&diag.last_bits),
        staged_magic: load_u8(&diag.last_staged_magic),
        staged_len: load_u8(&diag.last_staged_len),
        resets: load_u32(&diag.reset_count),
        queued: load_u32(&diag.queued_response_count),
        queued_magic: load_u8(&diag.last_queued_magic),
        queued_len: load_u8(&diag.last_queued_len),
        status_before: load_u8(&diag.last_status_before),
        status_after: load_u8(&diag.last_status_after),
        transfer_ok: load_u8(&diag.last_transfer_ok),
        transfer_errors: load_u32(&diag.transfer_error_count),
    }
}

/// The name of a transaction kind.
pub open spec fn kind_text(kind: u8) -> Seq<char> {
    if kind == KIND_IDLE {
        "idle"@
    } else if kind == KIND_PARTIAL {
        "partial"@
    } else if kind == KIND_COMPLETE {
        "complete"@
    } else if kind == KIND_RESET {
        "reset"@
    } else {
        "unknown"@
    }
}

/// The part of the diagnostics line on received bytes.
pub open spec fn received_text(s: SpiSnapshot) -> Seq<char> {
    "spi kind="@ + kind_text(s.kind) + " r="@ + decimal(s.received as nat) + " e="@ + decimal(
        s.expected as nat,
    ) + " fb="@ + hex_byte(s.first_byte) + " rx="@ + hex_byte(s.preview0) + " "@ + hex_byte(
        s.preview1,
    ) + " "@ + hex_byte(s.preview2) + " "@ + hex_byte(s.preview3)
}

/// The part of the diagnostics line on sent bytes.
pub open spec fn sent_text(s: SpiSnapshot) -> Seq<char> {
    " w="@ + decimal(s.written as nat) + " b="@ + decimal(s.bits as nat) + " tx="@ + hex_byte(
        s.staged_magic,
    ) + "/"@ + decimal(s.staged_len as nat)
}

/// The part of the diagnostics line on queued responses.
pub open spec fn queued_text(s: SpiSnapshot) -> Seq<char> {
    " q="@ + decimal(s.queued as nat) + ":"@ + hex_byte(s.queued_magic) + "/"@ + decimal(
        s.queued_len as nat,
    )
}

/// The part of the diagnostics line on transfer errors.
pub open spec fn status_text(s: SpiSnapshot) -> Seq<char> {
    " xfer="@ + decimal(s.transfer_ok as nat) + " sr="@ + hex_byte(s.status_before) + "/"@
        + hex_byte(s.status_after) + " xerr="@ + decimal(s.transfer_errors as nat)
}

/// The diagnostics line. Its last field is left out as far as the line would exceed 160 characters.
pub open spec fn snapshot_text(s: SpiSnapshot) -> Seq<char> {
    let head = received_text(s) + sent_text(s) + queued_text(s) + status_text(s);
    let labelled = head + " resets="@;
    if labelled.len() > 160 {
        head
    } else if labelled.len() + decimal(s.resets as nat).len() > 160 {
        labelled
    } else {
        labelled + decimal(s.resets as nat)
    }
}

proof fn count_width(n: u32)
    ensures
        1 <= decimal(n as nat).len() <= 10,
        is_ascii_chars(decimal(n as nat)),
{
    reveal_with_fuel(power_of_ten, 11);
    decimal_width(n as nat, 10);
}

proof fn byte_width(n: u8)
    ensures
        1 <= decimal(n as nat).len() <= 3,
        is_ascii_chars(decimal(n as nat)),
{
    reveal_with_fuel(power_of_ten, 4);
    decimal_width(n as nat, 3);
}

fn kind_name(kind: u8) -> (r: &'static str)
    ensures
        r@ == kind_text(kind),
        r@.len() <= 8,
        is_ascii_chars(r@),
{
    proof {
        reveal_strlit("idle");
        reveal_strlit("partial");
        reveal_strlit("complete");
        reveal_strlit("reset");
        reveal_strlit("unknown");
    }
    match kind {
        KIND_IDLE => "idle",
        KIND_PARTIAL => "partial",
        KIND_COMPLETE => "complete",
        KIND_RESET => "reset",
        _ => "unknown",
    }
}

fn push_received(out: &mut heapless::String<160>, s: &SpiSnapshot)
    requires
        text160(*old(out)).len() == 0,
    ensures
        text160(*final(out)) == received_text(*s),
        is_ascii_chars(text160(*final(out))),
        text160(*final(out)).len() <= 64,
{
    proof {
        count_width(s.received);
        count_width(s.expected);
        reveal_strlit("spi kind=");
        reveal_strlit(" r=");
        reveal_strlit(" e=");
        reveal_strlit(" fb=");
        reveal_strlit(" rx=");
        reveal_strlit(" ");
    }
    append_text(out, "spi kind=");
    append_text(out, kind_name(s.kind));
    append_text(out, " r=");
    append_decimal(out, s.received as u64);
    append_text(out, " e=");
    append_decimal(out, s.expected as u64);
    append_text(out, " fb=");
    append_hex_byte(out, s.first_byte);
    append_text(out, " rx=");
    append_hex_byte(out, s.preview0);
    append_text(out, " ");
    append_hex_byte(out, s.preview1);
    append_text(out, " ");
    append_hex_byte(out, s.preview2);
    append_text(out, " ");
    append_hex_byte(out, s.preview3);
    assert(text160(*out) == received_text(*s));
}

fn push_sent(out: &mut heapless::String<160>, s: &SpiSnapshot)
    requires
        is_ascii_chars(text160(*old(out))),
        text160(*old(out)).len() <= 64,
    ensures
        text160(*final(out)) == text160(*old(out)) + sent_text(*s),
        is_ascii_chars(text160(*final(out))),
        text160(*final(out)).len() <= 100,
{
    let ghost before = text160(*out);
    proof {
        count_width(s.written);
        count_width(s.bits);
        byte_width(s.staged_len);
        reveal_strlit(" w=");
        reveal_strlit(" b=");
        reveal_strlit(" tx=");
        reveal_strlit("/");
    }
    append_text(out, " w=");
    append_decimal(out, s.written as u64);
    append_text(out, " b=");
    append_decimal(out, s.bits as u64);
    append_text(out, " tx=");
    append_hex_byte(out, s.staged_magic);
    append_text(out, "/");
    append_decimal(out, s.staged_len as u64);
    assert(text160(*out) == before + sent_text(*s));
}

fn push_queued(out: &mut heapless::String<160>, s: &SpiSnapshot)
    requires
        is_ascii_chars(text160(*old(out))),
        text160(*old(out)).len() <= 100,
    ensures
        text160(*final(out)) == text160(*old(out)) + queued_text(*s),
        is_ascii_chars(text160(*final(out))),
        text160(*final(out)).len() <= 120,
{
    let ghost before = text160(*out);
    proof {
        count_width(s.queued);
        byte_width(s.queued_len);
        reveal_strlit("/");
        reveal_strlit(" q=");
        reveal_strlit(":");
    }
    append_text(out, " q=");
    append_decimal(out, s.queued as u64);
    append_text(out, ":");
    append_hex_byte(out, s.queued_magic);
    append_text(out, "/");
    append_decimal(out, s.queued_len as u64);
    assert(text160(*out) == before + queued_text(*s));
}

fn push_status(out: &mut heapless::String<160>, s: &SpiSnapshot)
    requires
        is_ascii_chars(text160(*old(out))),
        text160(*old(out)).len() <= 120,
    ensures
        text160(*final(out)) == text160(*old(out)) + status_text(*s),
        is_ascii_chars(text160(*final(out))),
        text160(*final(out)).len() <= 154,
{
    let ghost before = text160(*out);
    proof {
        count_width(s.transfer_errors);
        byte_width(s.transfer_ok);
        reveal_strlit(" xfer=");
        reveal_strlit(" sr=");
        reveal_strlit("/");
        reveal_strlit(" xerr=");
    }
    append_text(out, " xfer=");
    append_decimal(out, s.transfer_ok as u64);
    append_text(out, " sr=");
    append_hex_byte(out, s.status_before);
    append_text(out, "/");
    append_hex_byte(out, s.status_after);
    append_text(out, " xerr=");
    append_decimal(out, s.transfer_errors as u64);
    assert(text160(*out) == before + status_text(*s));
}

/// Renders diagnostics read earlier.
pub fn render_values(s: &SpiSnapshot) -> (out: heapless::String<160>)
    ensures
        text160(out) == snapshot_text(*s),
        is_ascii_chars(text160(out)),
        text160(out).len() <= 160,
{
    let mut out = new160();
    push_received(&mut out, s);
    push_sent(&mut out, s);
    push_queued(&mut out, s);
    push_status(&mut out, s);
    proof {
        count_width(s.resets);
        reveal_strlit(" resets=");
        is_ascii_chars_encode_utf8(text160(out));
        is_ascii_chars_encode_utf8(" resets="@);
    }
    if out.append(" resets=").is_ok() {
        proof {
            is_ascii_chars_encode_utf8(text160(out));
        }
        if as_str160(&out).len() + decimal_len(s.resets as u64) <= 160 {
            append_decimal(&mut out, s.resets as u64);
        }
    }
    out
}

/// Renders the current diagnostics.
pub fn render_snapshot(diag: &SpiDiag) -> (out: heapless::String<160>)
    ensures
        exists|s: SpiSnapshot| text160(out) == #[trigger] snapshot_text(s),
{
    let s = snapshot(diag);
    render_values(&s)
}

/// The kind recorded for a transaction that carried nothing.
pub fn idle_kind() -> (kind: u8)
    ensures
        kind == KIND_IDLE,
{
    KIND_IDLE
}

/// The kind recorded for a transaction that ended before its frame did.
pub fn partial_kind() -> (kind: u8)
    ensures
        kind == KIND_PARTIAL,
{
    KIND_PARTIAL
}

/// The kind recorded for a transaction that carried a whole frame.
pub fn complete_kind() -> (kind: u8)
    ensures
        kind == KIND_COMPLETE,
{
    KIND_COMPLETE
}

proof fn received_width(s: SpiSnapshot)
    ensures
        0 < received_text(s).len() <= 64,
        is_ascii_chars(received_text(s)),
{
    count_width(s.received);
    count_width(s.expected);
    reveal_strlit("idle");
    reveal_strlit("partial");
    reveal_strlit("complete");
    reveal_strlit("reset");
    reveal_strlit("unknown");
    reveal_strlit("spi kind=");
    reveal_strlit(" r=");
    reveal_strlit(" e=");
    reveal_strlit(" fb=");
    reveal_strlit(" rx=");
    reveal_strlit(" ");
    let numbers = "spi kind="@ + kind_text(s.kind) + " r="@ + decimal(s.received as nat) + " e="@
        + decimal(s.expected as nat);
    assert(numbers.len() <= 43);
    assert(is_ascii_chars(numbers));
}

proof fn sent_width(s: SpiSnapshot)
    ensures
        sent_text(s).len() <= 36,
        is_ascii_chars(sent_text(s)),
{
    count_width(s.written);
    count_width(s.bits);
    byte_width(s.staged_len);
    reveal_strlit(" w=");
    reveal_strlit(" b=");
    reveal_strlit(" tx=");
    reveal_strlit("/");
}

proof fn queued_width(s: SpiSnapshot)
    ensures
        queued_text(s).len() <= 20,
        is_ascii_chars(queued_text(s)),
{
    count_width(s.queued);
    byte_width(s.queued_len);
    reveal_strlit("/");
    reveal_strlit(" q=");
    reveal_strlit(":");
}

proof fn status_width(s: SpiSnapshot)
    ensures
        status_text(s).len() <= 34,
        is_ascii_chars(status_text(s)),
{
    count_width(s.transfer_errors);
    byte_width(s.transfer_ok);
    reveal_strlit(" xfer=");
    reveal_strlit(" sr=");
    reveal_strlit("/");
    reveal_strlit(" xerr=");
}

/// The diagnostics line is ASCII and within its limit, and holds everything but its last field
/// whole.
pub proof fn diagnostics_line_fits(s: SpiSnapshot)
    ensures
        0 < snapshot_text(s).len() <= 160,
        is_ascii_chars(snapshot_text(s)),
        ({
            let head = received_text(s) + sent_text(s) + queued_text(s) + status_text(s);
            let whole = head + " resets="@ + decimal(s.resets as nat);
            &&& head.len() <= 154
            &&& snapshot_text(s).take(head.len() as int) == head
            &&& whole.len() <= 160 ==> snapshot_text(s) == whole
        }),
{
    received_width(s);
    sent_width(s);
    queued_width(s);
    status_width(s);
    count_width(s.resets);
    reveal_strlit(" resets=");
    let head = received_text(s) + sent_text(s) + queued_text(s) + status_text(s);
    assert(head.len() <= 154);
    assert(is_ascii_chars(head));
    assert(snapshot_text(s).take(head.len() as int) =~= head);
}

/// A count is recorded as it is where it fits, and as the largest value otherwise.
pub proof fn counts_saturate(count: usize)
    ensures
        saturated(count) as nat == if count < 0x1_0000_0000 {
            count as nat
        } else {
            0xffff_ffff
        },
{
}

/// The diagnostics line holds every value under its label, in a fixed order: what was received, what
/// was sent, what is queued and how the transfers went.
pub proof fn diagnostics_hold_their_values(s: SpiSnapshot)
    ensures
        received_text(s) + sent_text(s) + queued_text(s) + status_text(s) == spaced(
            seq![
                "spi"@,
                "kind="@ + kind_text(s.kind),
                "r="@ + decimal(s.received as nat),
                "e="@ + decimal(s.expected as nat),
                "fb="@ + hex_byte(s.first_byte),
                "rx="@ + hex_byte(s.preview0),
                hex_byte(s.preview1),
                hex_byte(s.preview2),
                hex_byte(s.preview3),
                "w="@ + decimal(s.written as nat),
                "b="@ + decimal(s.bits as nat),
                "tx="@ + hex_byte(s.staged_magic) + "/"@ + decimal(s.staged_len as nat),
                "q="@ + decimal(s.queued as nat) + ":"@ + hex_byte(s.queued_magic) + "/"@ + decimal(
                    s.queued_len as nat,
                ),
                "xfer="@ + decimal(s.transfer_ok as nat),
                "sr="@ + hex_byte(s.status_before) + "/"@ + hex_byte(s.status_after),
                "xerr="@ + decimal(s.transfer_errors as nat),
            ],
        ),
        kind_text(1) == "idle"@,
        kind_text(2) == "partial"@,
        kind_text(3) == "complete"@,
        kind_text(4) == "reset"@,
        s.kind == 0 || s.kind > 4 ==> kind_text(s.kind) == "unknown"@,
{
    labels_follow_spaces();
    let received = seq![
        "spi"@,
        "kind="@ + kind_text(s.kind),
        "r="@ + decimal(s.received as nat),
        "e="@ + decimal(s.expected as nat),
        "fb="@ + hex_byte(s.first_byte),
        "rx="@ + hex_byte(s.preview0),
        hex_byte(s.preview1),
        hex_byte(s.preview2),
        hex_byte(s.preview3),
    ];
    let sent = seq![
        "w="@ + decimal(s.written as nat),
        "b="@ + decimal(s.bits as nat),
        "tx="@ + hex_byte(s.staged_magic) + "/"@ + decimal(s.staged_len as nat),
    ];
    let queued = seq![
        "q="@ + decimal(s.queued as nat) + ":"@ + hex_byte(s.queued_magic) + "/"@ + decimal(
            s.queued_len as nat,
        ),
    ];
    let status = seq![
        "xfer="@ + decimal(s.transfer_ok as nat),
        "sr="@ + hex_byte(s.status_before) + "/"@ + hex_byte(s.status_after),
        "xerr="@ + decimal(s.transfer_errors as nat),
    ];
    received_words(s, received);
    let sp = seq![' '];
    assert(sent_text(s) =~= sp + spaced(sent)) by {
        three_words(sent[0], sent[1], sent[2]);
        assert(sent =~= seq![sent[0], sent[1], sent[2]]);
    }
    assert(queued_text(s) =~= sp + spaced(queued));
    assert(status_text(s) =~= sp + spaced(status)) by {
        three_words(status[0], status[1], status[2]);
        assert(status =~= seq![status[0], status[1], status[2]]);
    }
    spaced_joins(received, sent);
    spaced_joins(received + sent, queued);
    spaced_joins(received + sent + queued, status);
    let all = received + sent + queued + status;
    assert(spaced(all) == received_text(s) + (sp + spaced(sent)) + (sp + spaced(queued)) + (sp
        + spaced(status)));
    assert(all =~= seq![
        received[0],
        received[1],
        received[2],
        received[3],
        received[4],
        received[5],
        received[6],
        received[7],
        received[8],
        sent[0],
        sent[1],
        sent[2],
        queued[0],
        status[0],
        status[1],
        status[2],
    ]);
}

proof fn received_words(s: SpiSnapshot, w: Seq<Seq<char>>)
    requires
        w == seq![
            "spi"@,
            "kind="@ + kind_text(s.kind),
            "r="@ + decimal(s.received as nat),
            "e="@ + decimal(s.expected as nat),
            "fb="@ + hex_byte(s.first_byte),
            "rx="@ + hex_byte(s.preview0),
            hex_byte(s.preview1),
            hex_byte(s.preview2),
            hex_byte(s.preview3),
        ],
    ensures
        spaced(w) == received_text(s),
{
    labels_follow_spaces();
    let sp = seq![' '];
    let (a, b, c) = (seq![w[0], w[1], w[2]], seq![w[3], w[4], w[5]], seq![w[6], w[7], w[8]]);
    three_words(w[0], w[1], w[2]);
    three_words(w[3], w[4], w[5]);
    three_words(w[6], w[7], w[8]);
    spaced_joins(a, b);
    spaced_joins(a + b, c);
    assert(w =~= a + b + c);
    let x = "spi kind="@ + kind_text(s.kind) + " r="@ + decimal(s.received as nat);
    assert(spaced(a) =~= x);
    let y = " e="@ + decimal(s.expected as nat) + " fb="@ + hex_byte(s.first_byte) + " rx="@
        + hex_byte(s.preview0);
    assert(sp + spaced(b) =~= y);
    let z = " "@ + hex_byte(s.preview1) + " "@ + hex_byte(s.preview2) + " "@ + hex_byte(s.preview3);
    assert(sp + spaced(c) =~= z);
    assert(spaced(w) =~= x + y + z);
    assert(received_text(s) =~= x + y + z);
}

/// Each label of the line follows a space.
proof fn labels_follow_spaces()
    ensures
        "spi kind="@ == "spi"@ + seq![' '] + "kind="@,
        " r="@ == seq![' '] + "r="@,
        " e="@ == seq![' '] + "e="@,
        " fb="@ == seq![' '] + "fb="@,
        " rx="@ == seq![' '] + "rx="@,
        " "@ == seq![' '],
        " w="@ == seq![' '] + "w="@,
        " b="@ == seq![' '] + "b="@,
        " tx="@ == seq![' '] + "tx="@,
        " q="@ == seq![' '] + "q="@,
        " xfer="@ == seq![' '] + "xfer="@,
        " sr="@ == seq![' '] + "sr="@,
        " xerr="@ == seq![' '] + "xerr="@,
{
    reveal_strlit("spi kind=");
    reveal_strlit("spi");
    reveal_strlit("kind=");
    reveal_strlit(" r=");
    reveal_strlit("r=");
    reveal_strlit(" e=");
    reveal_strlit("e=");
    reveal_strlit(" fb=");
    reveal_strlit("fb=");
    reveal_strlit(" rx=");
    reveal_strlit("rx=");
    reveal_strlit(" ");
    reveal_strlit(" w=");
    reveal_strlit("w=");
    reveal_strlit(" b=");
    reveal_strlit("b=");
    reveal_strlit(" tx=");
    reveal_strlit("tx=");
    reveal_strlit(" q=");
    reveal_strlit("q=");
    reveal_strlit(" xfer=");
    reveal_strlit("xfer=");
    reveal_strlit(" sr=");
    reveal_strlit("sr=");
    reveal_strlit(" xerr=");
    reveal_strlit("xerr=");
    assert("spi kind="@ =~= "spi"@ + seq![' '] + "kind="@);
    assert(" r="@ =~= seq![' '] + "r="@);
    assert(" e="@ =~= seq![' '] + "e="@);
    assert(" fb="@ =~= seq![' '] + "fb="@);
    assert(" rx="@ =~= seq![' '] + "rx="@);
    assert(" "@ =~= seq![' ']);
    assert(" w="@ =~= seq![' '] + "w="@);
    assert(" b="@ =~= seq![' '] + "b="@);
    assert(" tx="@ =~= seq![' '] + "tx="@);
    assert(" q="@ =~= seq![' '] + "q="@);
    assert(" xfer="@ =~= seq![' '] + "xfer="@);
    assert(" sr="@ =~= seq![' '] + "sr="@);
    assert(" xerr="@ =~= seq![' '] + "xerr="@);
}

proof fn three_words(a: Seq<char>, b: Seq<char>, c: Seq<char>)
    ensures
        spaced(seq![a, b, c]) == a + seq![' '] + b + seq![' '] + c,
{
    spaced_first(b, seq![c]);
    spaced_first(a, seq![b] + seq![c]);
    assert(seq![a, b, c] =~= seq![a] + (seq![b] + seq![c]));
    assert(a + seq![' '] + (b + seq![' '] + c) =~= a + seq![' '] + b + seq![' '] + c);
}

/// Two lists of words make one line with a space between them.
proof fn spaced_joins(a: Seq<Seq<char>>, b: Seq<Seq<char>>)
    requires
        a.len() > 0,
        b.len() > 0,
    ensures
        spaced(a + b) == spaced(a) + (seq![' '] + spaced(b)),
    decreases a.len(),
{
    let rest = a.drop_first();
    assert(a + b =~= seq![a[0]] + (rest + b));
    spaced_first(a[0], rest + b);
    if rest.len() == 0 {
        assert(rest + b =~= b);
        assert(a[0] + seq![' '] + spaced(b) =~= a[0] + (seq![' '] + spaced(b)));
    } else {
        spaced_joins(rest, b);
        spaced_first(a[0], rest);
        assert(a =~= seq![a[0]] + rest);
        assert(a[0] + seq![' '] + (spaced(rest) + (seq![' '] + spaced(b))) =~= (a[0] + seq![' ']
            + spaced(rest)) + (seq![' '] + spaced(b)));
    }
}

/// The preview that is recorded is what came in, with zeros where nothing did.
pub proof fn previews_are_recorded_as_they_came_in(preview: Seq<u8>, at: int)
    requires
        0 <= at < 4,
    ensures
        at < preview.len() ==> preview_byte(preview, at) == preview[at],
        at >= preview.len() ==> preview_byte(preview, at) == 0,
{
}

} // verus!
