//! Local bridge command rendering shared by the control paths of all upstreams.

use crate::bridge::signals::load_bool;
use crate::bridge::signals::load_u8;
use crate::bridge::signals::store_u8;
use crate::bridge::signals::swap_u8;
use crate::bridge::spi_diag;
use crate::bridge::spi_diag::diagnostics_line_fits;
use crate::bridge::spi_diag::render_values;
use crate::bridge::spi_diag::snapshot_text;
use crate::bridge::spi_diag::SpiDiag;
use crate::bridge::spi_diag::SpiSnapshot;
use crate::config::config_text;
use crate::config::render_config;
use crate::config::shown_config_fits;
use crate::config::BridgeConfig;
use crate::protocol::spi::SLASH;
use crate::scan::trim_text;
use crate::scan::trimmed;
use crate::scan::trimmed_between;
use crate::scan::trims;
use crate::scan::TrimSet;
use crate::text::as_str160;
use crate::text::checked_utf8;
use crate::text::new192;
use crate::text::push_str192;
use crate::text::same_text;
use crate::text::text160;
use crate::text::text192;
use portable_atomic::AtomicBool;
use portable_atomic::AtomicU8;
use vstd::prelude::*;
use vstd::utf8::decode_utf8;
use vstd::utf8::encode_utf8;
use vstd::utf8::encode_utf8_decode_utf8;
use vstd::utf8::encode_utf8_valid_utf8;
use vstd::utf8::is_ascii_chars;
use vstd::utf8::is_ascii_chars_encode_utf8;
use vstd::utf8::valid_utf8;

verus! {

/// The LED follows the link state. Also stands for "no command".
pub const LED_MODE_AUTO: u8 = 0;

/// The LED is off.
pub const LED_MODE_OFF: u8 = 1;

/// The LED is on.
pub const LED_MODE_ON: u8 = 2;

/// The LED changes state.
pub const LED_MODE_TOGGLE: u8 = 3;

/// The cells through which commands reach the LED task.
pub struct LedSignals {
    /// The LED mode last asked for, until the LED task takes it.
    pub command: AtomicU8,
    /// The state the LED task last reported.
    pub state: AtomicU8,
    /// Nonzero when traffic asks for an activity pulse.
    pub activity_pulses: AtomicU8,
}

/// What local commands report of the running bridge.
#[derive(Clone, Copy)]
pub struct BridgeStatus {
    /// Whether a bridge session is up.
    pub link_active: bool,
    /// The reported LED state.
    pub led_state: u8,
    /// The SPI diagnostics.
    pub spi: SpiSnapshot,
}

/// The LED command that a taken cell value stands for.
pub open spec fn taken_command(taken: u8) -> Option<u8> {
    if taken == LED_MODE_AUTO {
        None
    } else {
        Some(taken)
    }
}

/// The LED command that a taken cell value stands for.
pub fn led_command(taken: u8) -> (r: Option<u8>)
    ensures
        r == taken_command(taken),
{
    match taken {
        LED_MODE_AUTO => None,
        cmd => Some(cmd),
    }
}

/// Takes the pending LED command. Which command is pending rests on the other users of the cell.
pub fn take_led_command(leds: &LedSignals) -> (r: Option<u8>)
    ensures
        r != Some(LED_MODE_AUTO),
{
    led_command(swap_u8(&leds.command, LED_MODE_AUTO))
}

/// The cell value that reports an LED state.
pub open spec fn state_code(on: bool) -> u8 {
    if on {
        LED_MODE_ON
    } else {
        LED_MODE_OFF
    }
}

/// The cell value that reports an LED state.
pub fn led_state_code(on: bool) -> (code: u8)
    ensures
        code == state_code(on),
{
    if on {
        LED_MODE_ON
    } else {
        LED_MODE_OFF
    }
}

/// Reports the LED state: stores its `led_state_code`. What a later reader sees also rests on the
/// other writers of the cell, so nothing is stated of it.
pub fn set_led_state(leds: &LedSignals, on: bool) {
    store_u8(&leds.state, led_state_code(on));
}

/// Whether a taken activity count asks for a pulse.
pub fn activity_pending(taken: u8) -> (r: bool)
    ensures
        r == (taken != 0),
{
    taken != 0
}

/// Takes the pending activity pulse. Whether one is pending rests on the other users of the cell, so
/// nothing is stated of it.
pub fn take_led_activity(leds: &LedSignals) -> bool {
    activity_pending(swap_u8(&leds.activity_pulses, 0))
}

/// Asks for an activity pulse. What the LED task takes also rests on the other writers of the cell,
/// so nothing is stated of it.
pub fn signal_led_activity(leds: &LedSignals) {
    store_u8(&leds.activity_pulses, 1);
}

/// Reads the status that local commands report.
pub fn read_status(
    link_active: &AtomicBool,
    leds: &LedSignals,
    diag: &SpiDiag,
) -> BridgeStatus {
    BridgeStatus {
        link_active: load_bool(link_active),
        led_state: load_u8(&leds.state),
        spi: spi_diag::snapshot(diag),
    }
}

/// The reply to a locally handled bridge command.
pub open spec fn reply_text(config: BridgeConfig, status: BridgeStatus, line: Seq<char>) -> Seq<
    char,
> {
    if line == "/help"@ {
        "pico commands: /help /show /ping /link /spi /led <on|off|toggle|auto|status>"@
    } else if line == "/show"@ {
        config_text(config)
    } else if line == "/ping"@ {
        "pong"@
    } else if line == "/link"@ {
        if status.link_active {
            "link up"@
        } else {
            "link down"@
        }
    } else if line == "/spi"@ {
        snapshot_text(status.spi)
    } else if line == "/led on"@ {
        "ok led on"@
    } else if line == "/led off"@ {
        "ok led off"@
    } else if line == "/led toggle"@ {
        "ok led toggle"@
    } else if line == "/led auto"@ {
        "ok led auto"@
    } else if line == "/led status"@ {
        if status.led_state == LED_MODE_ON {
            "led on"@
        } else {
            "led off"@
        }
    } else {
        "error unknown pico command"@
    }
}

/// The LED mode that a local command asks for.
pub open spec fn requested_led_mode(line: Seq<char>) -> Option<u8> {
    if line == "/led on"@ {
        Some(LED_MODE_ON)
    } else if line == "/led off"@ {
        Some(LED_MODE_OFF)
    } else if line == "/led toggle"@ {
        Some(LED_MODE_TOGGLE)
    } else if line == "/led auto"@ {
        Some(LED_MODE_AUTO)
    } else {
        None
    }
}

/// The LED mode that a local command asks for.
pub fn led_request(line: &str) -> (r: Option<u8>)
    ensures
        r == requested_led_mode(line@),
{
    if same_text(line, "/led on") {
        Some(LED_MODE_ON)
    } else if same_text(line, "/led off") {
        Some(LED_MODE_OFF)
    } else if same_text(line, "/led toggle") {
        Some(LED_MODE_TOGGLE)
    } else if same_text(line, "/led auto") {
        Some(LED_MODE_AUTO)
    } else {
        None
    }
}

/// Passes an LED mode that a local command asked for on to the LED task. What the task takes also
/// rests on the other writers of the cell, so nothing is stated of it.
pub fn request_led(leds: &LedSignals, mode: u8) {
    store_u8(&leds.command, mode);
}

fn led_status_text(state: u8) -> (r: &'static str)
    ensures
        r@ == if state == LED_MODE_ON {
            "led on"@
        } else {
            "led off"@
        },
{
    match state {
        LED_MODE_ON => "led on",
        _ => "led off",
    }
}

fn fixed_reply(status: &BridgeStatus, line: &str) -> (r: &'static str)
    requires
        line@ != "/show"@,
        line@ != "/spi"@,
    ensures
        forall|config: BridgeConfig| r@ == #[trigger] reply_text(config, *status, line@),
        is_ascii_chars(r@),
        r@.len() <= 160,
{
    proof {
        reveal_strlit("pico commands: /help /show /ping /link /spi /led <on|off|toggle|auto|status>");
        reveal_strlit("pong");
        reveal_strlit("link up");
        reveal_strlit("link down");
        reveal_strlit("ok led on");
        reveal_strlit("ok led off");
        reveal_strlit("ok led toggle");
        reveal_strlit("ok led auto");
        reveal_strlit("led on");
        reveal_strlit("led off");
        reveal_strlit("error unknown pico command");
    }
    if same_text(line, "/help") {
        "pico commands: /help /show /ping /link /spi /led <on|off|toggle|auto|status>"
    } else if same_text(line, "/ping") {
        "pong"
    } else if same_text(line, "/link") {
        if status.link_active {
            "link up"
        } else {
            "link down"
        }
    } else if same_text(line, "/led on") {
        "ok led on"
    } else if same_text(line, "/led off") {
        "ok led off"
    } else if same_text(line, "/led toggle") {
        "ok led toggle"
    } else if same_text(line, "/led auto") {
        "ok led auto"
    } else if same_text(line, "/led status") {
        led_status_text(status.led_state)
    } else {
        "error unknown pico command"
    }
}

/// Renders the reply for a locally handled bridge command from a status read earlier.
pub fn local_reply(config: &BridgeConfig, status: &BridgeStatus, line: &str) -> (out:
    heapless::String<192>)
    ensures
        text192(out) == reply_text(*config, *status, line@),
        is_ascii_chars(text192(out)),
        text192(out).len() <= 160,
{
    let mut out = new192();
    proof {
        is_ascii_chars_encode_utf8(Seq::<char>::empty());
    }
    if same_text(line, "/show") {
        let rendered = render_config(config);
        proof {
            distinct_commands();
            is_ascii_chars_encode_utf8(text160(rendered));
        }
        let _ = push_str192(&mut out, as_str160(&rendered));
        assert(text192(out) == text160(rendered));
    } else if same_text(line, "/spi") {
        let rendered = render_values(&status.spi);
        proof {
            distinct_commands();
            is_ascii_chars_encode_utf8(text160(rendered));
        }
        let _ = push_str192(&mut out, as_str160(&rendered));
        assert(text192(out) == text160(rendered));
    } else {
        let reply = fixed_reply(status, line);
        proof {
            is_ascii_chars_encode_utf8(reply@);
        }
        let _ = push_str192(&mut out, reply);
        assert(text192(out) == reply@);
    }
    out
}

/// The commands that are answered from rendered values are different from each other and from the
/// commands in front of them.
proof fn distinct_commands()
    ensures
        "/show"@ != "/help"@,
        "/spi"@ != "/help"@,
        "/spi"@ != "/show"@,
        "/spi"@ != "/ping"@,
        "/spi"@ != "/link"@,
{
    reveal_strlit("/show");
    reveal_strlit("/help");
    reveal_strlit("/spi");
    reveal_strlit("/ping");
    reveal_strlit("/link");
    assert("/show"@[1] == 's');
    assert("/help"@[1] == 'h');
    assert("/spi"@.len() == 4);
}

/// Renders the response for a locally handled bridge command and passes an LED mode it asks for on
/// to the LED task.
pub fn render_local_bridge_command(
    bridge_config: BridgeConfig,
    link_active: &AtomicBool,
    leds: &LedSignals,
    diag: &SpiDiag,
    line: &str,
) -> (out: heapless::String<192>)
    ensures
        exists|status: BridgeStatus|
            text192(out) == #[trigger] reply_text(bridge_config, status, line@),
        is_ascii_chars(text192(out)),
        text192(out).len() <= 160,
{
    let status = read_status(link_active, leds, diag);
    if let Some(mode) = led_request(line) {
        request_led(leds, mode);
    }
    local_reply(&bridge_config, &status, line)
}

/// The text of a line of bytes: nothing when it is not UTF-8, and otherwise its characters without
/// line ends, spaces and tabs around them.
pub open spec fn line_text(buf: Seq<u8>) -> Seq<char> {
    trimmed(
        TrimSet::LineEnds,
        if valid_utf8(buf) {
            decode_utf8(buf)
        } else {
            Seq::empty()
        },
    )
}

/// Trims ASCII line endings and surrounding ASCII whitespace from a byte slice.
pub fn trim_ascii_line(buf: &[u8]) -> (r: &str)
    ensures
        r@ == line_text(buf@),
{
    let text = match checked_utf8(buf) {
        Some(text) => {
            proof {
                encode_utf8_decode_utf8(text@);
            }
            text
        },
        None => {
            proof {
                reveal_strlit("");
                assert(""@ == Seq::<char>::empty());
            }
            ""
        },
    };
    trim_text(TrimSet::LineEnds, text)
}

/// Whether a byte is printable ASCII or ends a line.
pub open spec fn is_command_byte(byte: u8) -> bool {
    byte == 0x0a || byte == 0x0d || 32 <= byte <= 126
}

/// Whether a payload reads as a local command: a slash followed by printable text and line ends.
pub open spec fn is_local_command(payload: Seq<u8>) -> bool {
    payload.len() > 0 && payload[0] == SLASH && (forall|i: int|
        0 <= i < payload.len() ==> is_command_byte(#[trigger] payload[i]))
}

/// Whether a payload reads as a local command.
pub fn looks_like_local_command(payload: &[u8]) -> (r: bool)
    ensures
        r == is_local_command(payload@),
{
    if payload.len() == 0 || payload[0] != SLASH {
        return false;
    }
    let n: usize = payload.len();
    for i in 0..n
        invariant
            n == payload@.len(),
            forall|j: int| 0 <= j < i ==> is_command_byte(#[trigger] payload@[j]),
    {
        let byte = payload[i];
        if !(byte == 0x0a || byte == 0x0d || (32 <= byte && byte <= 126)) {
            assert(!is_command_byte(payload@[i as int]));
            return false;
        }
    }
    true
}

/// Only a known LED command changes the LED, and what it asks for is acknowledged by name.
pub proof fn led_requests_are_acknowledged(config: BridgeConfig, status: BridgeStatus, line: Seq<char>)
    ensures
        requested_led_mode(line) == Some(LED_MODE_ON) <==> line == "/led on"@,
        requested_led_mode(line) == Some(LED_MODE_OFF) <==> line == "/led off"@,
        requested_led_mode(line) == Some(LED_MODE_TOGGLE) <==> line == "/led toggle"@,
        requested_led_mode(line) == Some(LED_MODE_AUTO) <==> line == "/led auto"@,
        requested_led_mode(line) is Some ==> reply_text(config, status, line) == "ok "@ + line.skip(
            1,
        ),
{
    reveal_strlit("/led on");
    reveal_strlit("/led off");
    reveal_strlit("/led toggle");
    reveal_strlit("/led auto");
    reveal_strlit("/help");
    reveal_strlit("/show");
    reveal_strlit("/ping");
    reveal_strlit("/link");
    reveal_strlit("/spi");
    reveal_strlit("ok ");
    reveal_strlit("ok led on");
    reveal_strlit("ok led off");
    reveal_strlit("ok led toggle");
    reveal_strlit("ok led auto");
    assert("/led on"@.len() == 7);
    assert("/led off"@.len() == 8);
    assert("/led toggle"@.len() == 11);
    assert("/led auto"@.len() == 9);
    assert("ok led on"@ =~= "ok "@ + "/led on"@.skip(1));
    assert("ok led off"@ =~= "ok "@ + "/led off"@.skip(1));
    assert("ok led toggle"@ =~= "ok "@ + "/led toggle"@.skip(1));
    assert("ok led auto"@ =~= "ok "@ + "/led auto"@.skip(1));
}

/// Every reply is ASCII, holds something and fits in one response.
pub proof fn replies_fit(config: BridgeConfig, status: BridgeStatus, line: Seq<char>)
    ensures
        0 < reply_text(config, status, line).len() <= 160,
        is_ascii_chars(reply_text(config, status, line)),
        encode_utf8(reply_text(config, status, line)).len() == reply_text(
            config,
            status,
            line,
        ).len(),
{
    shown_config_fits(config);
    diagnostics_line_fits(status.spi);
    fixed_replies_fit();
    is_ascii_chars_encode_utf8(reply_text(config, status, line));
}

/// The replies that are the same for every bridge.
proof fn fixed_replies_fit()
    ensures
        is_reply("pico commands: /help /show /ping /link /spi /led <on|off|toggle|auto|status>"@),
        is_reply("pong"@),
        is_reply("link up"@),
        is_reply("link down"@),
        is_reply("ok led on"@),
        is_reply("ok led off"@),
        is_reply("ok led toggle"@),
        is_reply("ok led auto"@),
        is_reply("led on"@),
        is_reply("led off"@),
        is_reply("error unknown pico command"@),
{
    assert(is_reply("pico commands: /help /show /ping /link /spi /led <on|off|toggle|auto|status>"@)) by {
        reveal_strlit("pico commands: /help /show /ping /link /spi /led <on|off|toggle|auto|status>");
    }
    assert(is_reply("pong"@)) by {
        reveal_strlit("pong");
    }
    assert(is_reply("link up"@)) by {
        reveal_strlit("link up");
    }
    assert(is_reply("link down"@)) by {
        reveal_strlit("link down");
    }
    assert(is_reply("ok led on"@)) by {
        reveal_strlit("ok led on");
    }
    assert(is_reply("ok led off"@)) by {
        reveal_strlit("ok led off");
    }
    assert(is_reply("ok led toggle"@)) by {
        reveal_strlit("ok led toggle");
    }
    assert(is_reply("ok led auto"@)) by {
        reveal_strlit("ok led auto");
    }
    assert(is_reply("led on"@)) by {
        reveal_strlit("led on");
    }
    assert(is_reply("led off"@)) by {
        reveal_strlit("led off");
    }
    assert(is_reply("error unknown pico command"@)) by {
        reveal_strlit("error unknown pico command");
    }
}

/// Whether a text is ASCII, holds something and fits in one response.
spec fn is_reply(text: Seq<char>) -> bool {
    0 < text.len() <= 160 && is_ascii_chars(text)
}

/// The replies tell what they are asked for: the whole configuration, the whole diagnostics, the
/// state of the link and that of the LED.
pub proof fn replies_report_the_bridge(config: BridgeConfig, status: BridgeStatus)
    ensures
        reply_text(config, status, "/show"@) == config_text(config),
        reply_text(config, status, "/spi"@) == snapshot_text(status.spi),
        reply_text(config, status, "/ping"@) == "pong"@,
        status.link_active ==> reply_text(config, status, "/link"@) == "link up"@,
        !status.link_active ==> reply_text(config, status, "/link"@) == "link down"@,
        status.led_state == LED_MODE_ON ==> reply_text(config, status, "/led status"@) == "led on"@,
        status.led_state != LED_MODE_ON ==> reply_text(config, status, "/led status"@)
            == "led off"@,
{
    command_lengths();
}

/// A reply rests on nothing but what it reports: on the configuration only for `/show`, on the status
/// only for `/link`, `/spi` and `/led status`.
pub proof fn replies_rest_on_what_they_report(
    config: BridgeConfig,
    other_config: BridgeConfig,
    status: BridgeStatus,
    other_status: BridgeStatus,
    line: Seq<char>,
)
    ensures
        line != "/show"@ ==> reply_text(config, status, line) == reply_text(
            other_config,
            status,
            line,
        ),
        line != "/link"@ && line != "/spi"@ && line != "/led status"@ ==> reply_text(
            config,
            status,
            line,
        ) == reply_text(config, other_status, line),
{
    command_lengths();
}

/// A line that is none of the commands is refused.
pub proof fn unknown_commands_are_refused(
    config: BridgeConfig,
    status: BridgeStatus,
    line: Seq<char>,
)
    requires
        line != "/help"@,
        line != "/show"@,
        line != "/ping"@,
        line != "/link"@,
        line != "/spi"@,
        line != "/led on"@,
        line != "/led off"@,
        line != "/led toggle"@,
        line != "/led auto"@,
        line != "/led status"@,
    ensures
        reply_text(config, status, line) == "error unknown pico command"@,
        requested_led_mode(line) is None,
{
}

/// What tells the commands apart.
proof fn command_lengths()
    ensures
        "/help"@.len() == 5 && "/help"@[1] == 'h',
        "/show"@.len() == 5 && "/show"@[1] == 's',
        "/ping"@.len() == 5 && "/ping"@[1] == 'p',
        "/link"@.len() == 5 && "/link"@[1] == 'l',
        "/spi"@.len() == 4,
        "/led on"@.len() == 7,
        "/led off"@.len() == 8,
        "/led toggle"@.len() == 11 && "/led toggle"@[5] == 't',
        "/led auto"@.len() == 9,
        "/led status"@.len() == 11 && "/led status"@[5] == 's',
{
    reveal_strlit("/help");
    reveal_strlit("/show");
    reveal_strlit("/ping");
    reveal_strlit("/link");
    reveal_strlit("/spi");
    reveal_strlit("/led on");
    reveal_strlit("/led off");
    reveal_strlit("/led toggle");
    reveal_strlit("/led auto");
    reveal_strlit("/led status");
}

/// A command is read out of its bytes without the line ends, spaces and tabs around it, and with
/// everything in between.
pub proof fn line_is_read_whole(before: Seq<char>, line: Seq<char>, after: Seq<char>)
    requires
        forall|i: int| 0 <= i < before.len() ==> trims(TrimSet::LineEnds, #[trigger] before[i]),
        forall|i: int| 0 <= i < after.len() ==> trims(TrimSet::LineEnds, #[trigger] after[i]),
        line.len() > 0 ==> !trims(TrimSet::LineEnds, line[0]) && !trims(
            TrimSet::LineEnds,
            line.last(),
        ),
    ensures
        line_text(encode_utf8(before + line + after)) == line,
{
    let whole = before + line + after;
    encode_utf8_valid_utf8(whole);
    encode_utf8_decode_utf8(whole);
    trimmed_between(TrimSet::LineEnds, before, line, after);
}

/// A typed line that starts with a slash reads as a local command, with or without its line end, and
/// one with any other byte in it does not.
pub proof fn typed_commands_are_local(line: Seq<u8>)
    ensures
        line.len() > 0 && line[0] == 0x2f && (forall|i: int|
            0 <= i < line.len() ==> 0x20 <= #[trigger] line[i] <= 0x7e) ==> is_local_command(line)
            && is_local_command(line.push(0x0a)) && is_local_command(line + seq![0x0du8, 0x0au8]),
        line.len() == 0 || line[0] != 0x2f ==> !is_local_command(line),
        (exists|i: int|
            0 <= i < line.len() && ((#[trigger] line[i]) > 0x7e || (line[i] < 0x20 && line[i]
                != 0x0a && line[i] != 0x0d))) ==> !is_local_command(line),
{
}

/// The state that the LED task reports is the one that `/led status` tells.
pub proof fn led_status_tells_the_reported_state(
    config: BridgeConfig,
    status: BridgeStatus,
    on: bool,
)
    requires
        status.led_state == state_code(on),
    ensures
        reply_text(config, status, "/led status"@) == if on {
            "led on"@
        } else {
            "led off"@
        },
{
    command_lengths();
}

/// What a local command asks of the LED is what the LED task takes, except that the automatic mode
/// and no command are the same to it.
pub proof fn led_requests_reach_the_task(line: Seq<char>)
    ensures
        requested_led_mode(line) matches Some(mode) ==> {
            &&& line == "/led auto"@ ==> taken_command(mode) is None
            &&& line != "/led auto"@ ==> taken_command(mode) == Some(mode)
        },
        LED_MODE_AUTO == 0 && LED_MODE_OFF == 1 && LED_MODE_ON == 2 && LED_MODE_TOGGLE == 3,
{
    command_lengths();
}

/// Bytes that are no text make an empty line, which is no command.
pub proof fn broken_text_is_no_command(bytes: Seq<u8>, config: BridgeConfig, status: BridgeStatus)
    requires
        !valid_utf8(bytes),
    ensures
        line_text(bytes) == Seq::<char>::empty(),
        reply_text(config, status, line_text(bytes)) == "error unknown pico command"@,
        requested_led_mode(line_text(bytes)) is None,
{
    command_lengths();
    trimmed_between(TrimSet::LineEnds, Seq::empty(), Seq::empty(), Seq::empty());
    let nothing = Seq::<char>::empty();
    assert(nothing + nothing + nothing =~= nothing);
}

} // verus!
