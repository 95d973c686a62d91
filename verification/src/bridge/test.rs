//! Commands of the TCP test mode used for quick LED and connectivity checks.

use crate::scan::decimal_reads_back;
use crate::scan::parse_unsigned;
use crate::scan::unsigned_value;
use crate::text::decimal;
use crate::text::same_text;
use vstd::prelude::*;
use vstd::string::StrSliceExecFns;

verus! {

/// First line sent to a peer.
pub const GREETING: &'static str = "pico-fi test mode\r\n";

/// Second line sent to a peer.
pub const COMMAND_LIST: &'static str =
    "commands: ping, led on, led off, led toggle, led blink <ms>, led status, help\r\n";

/// Number of blinks of a blink command.
pub const BLINK_COUNT: usize = 4;

/// What a command does to the LED.
#[derive(Clone, Copy, Debug, PartialEq, Eq, Structural)]
pub enum LedChange {
    /// Nothing.
    Keep,
    /// Switches it on.
    High,
    /// Switches it off.
    Low,
    /// Changes its state.
    Toggle,
    /// Changes its state twice per blink, with this delay in milliseconds after each change.
    Blink(u64),
}

/// What a test command does.
pub struct TestAction {
    /// The text to answer with.
    pub response: &'static str,
    /// What happens to the LED.
    pub change: LedChange,
    /// Whether the LED counts as on afterwards.
    pub led_on: bool,
}

/// The delay of a `led blink <ms>` command.
pub open spec fn blink_delay(line: Seq<char>) -> Option<nat> {
    if line.len() >= 10 && line.take(10) == "led blink "@ {
        unsigned_value(line.skip(10), u64::MAX as nat)
    } else {
        None
    }
}

/// The answer to a command.
pub open spec fn response_text(line: Seq<char>, led_on: bool) -> Seq<char> {
    if line == "ping"@ {
        "pong"@
    } else if line == "help"@ {
        "commands: ping, led on, led off, led toggle, led blink <ms>, led status"@
    } else if line == "led on"@ {
        "ok led on"@
    } else if line == "led off"@ {
        "ok led off"@
    } else if line == "led toggle"@ {
        if led_on {
            "ok led off"@
        } else {
            "ok led on"@
        }
    } else if line == "led status"@ {
        if led_on {
            "led on"@
        } else {
            "led off"@
        }
    } else if blink_delay(line) is Some {
        "ok blink complete"@
    } else {
        "error unknown command"@
    }
}

/// What a command does to the LED.
pub open spec fn led_change(line: Seq<char>) -> LedChange {
    if line == "led on"@ {
        LedChange::High
    } else if line == "led off"@ {
        LedChange::Low
    } else if line == "led toggle"@ {
        LedChange::Toggle
    } else if line != "ping"@ && line != "help"@ && line != "led status"@ && blink_delay(line)
        is Some {
        LedChange::Blink(blink_delay(line)->0 as u64)
    } else {
        LedChange::Keep
    }
}

/// Whether the LED counts as on after a change.
pub open spec fn led_after(change: LedChange, led_on: bool) -> bool {
    match change {
        LedChange::Keep => led_on,
        LedChange::High => true,
        LedChange::Low => false,
        LedChange::Toggle => !led_on,
        LedChange::Blink(_) => false,
    }
}

/// Decides what a single test command does.
pub fn handle_command(line: &str, led_on: bool) -> (action: TestAction)
    ensures
        action.response@ == response_text(line@, led_on),
        action.change == led_change(line@),
        action.led_on == led_after(led_change(line@), led_on),
{
    if same_text(line, "ping") {
        proof {
            words_differ();
        }
        TestAction { response: "pong", change: LedChange::Keep, led_on }
    } else if same_text(line, "help") {
        proof {
            words_differ();
        }
        TestAction {
            response: "commands: ping, led on, led off, led toggle, led blink <ms>, led status",
            change: LedChange::Keep,
            led_on,
        }
    } else if same_text(line, "led on") {
        TestAction { response: "ok led on", change: LedChange::High, led_on: true }
    } else if same_text(line, "led off") {
        TestAction { response: "ok led off", change: LedChange::Low, led_on: false }
    } else if same_text(line, "led toggle") {
        TestAction {
            response: if led_on {
                "ok led off"
            } else {
                "ok led on"
            },
            change: LedChange::Toggle,
            led_on: !led_on,
        }
    } else if same_text(line, "led status") {
        proof {
            words_differ();
        }
        TestAction {
            response: if led_on {
                "led on"
            } else {
                "led off"
            },
            change: LedChange::Keep,
            led_on,
        }
    } else {
        match parse_blink_command(line) {
            Some(delay_ms) => TestAction {
                response: "ok blink complete",
                change: LedChange::Blink(delay_ms),
                led_on: false,
            },
            None => TestAction {
                response: "error unknown command",
                change: LedChange::Keep,
                led_on,
            },
        }
    }
}

/// The commands that leave the LED alone are none of those that change it.
proof fn words_differ()
    ensures
        "ping"@ != "led on"@,
        "ping"@ != "led off"@,
        "ping"@ != "led toggle"@,
        "help"@ != "led on"@,
        "help"@ != "led off"@,
        "help"@ != "led toggle"@,
        "led status"@ != "led on"@,
        "led status"@ != "led off"@,
        "led status"@ != "led toggle"@,
{
    reveal_strlit("ping");
    reveal_strlit("help");
    reveal_strlit("led status");
    reveal_strlit("led on");
    reveal_strlit("led off");
    reveal_strlit("led toggle");
    assert("ping"@.len() == 4);
    assert("help"@.len() == 4);
    assert("led on"@.len() == 6);
    assert("led off"@.len() == 7);
    assert("led toggle"@.len() == 10);
    assert("led status"@[4] == 's');
    assert("led toggle"@[4] == 't');
}

/// Parses the optional `led blink <ms>` command form.
pub fn parse_blink_command(line: &str) -> (r: Option<u64>)
    ensures
        r is Some <==> blink_delay(line@) is Some,
        r matches Some(ms) ==> blink_delay(line@) == Some(ms as nat),
{
    let total: usize = line.unicode_len();
    if total < 10 {
        return None;
    }
    let head = line.substring_char(0, 10);
    assert(head@ =~= line@.take(10));
    if !same_text(head, "led blink ") {
        return None;
    }
    let value = line.substring_char(10, total);
    assert(value@ =~= line@.skip(10));
    parse_unsigned(value, u64::MAX)
}

/// The LED ends up as the command says, whatever it was: `led status` then reports it, and the answer
/// to each command names the state it brings about.
pub proof fn led_commands_are_obeyed(led_on: bool)
    ensures
        led_change("led on"@) == LedChange::High,
        led_change("led off"@) == LedChange::Low,
        led_change("led toggle"@) == LedChange::Toggle,
        led_after(led_change("led on"@), led_on),
        !led_after(led_change("led off"@), led_on),
        led_after(led_change("led toggle"@), led_on) == !led_on,
        led_after(led_change("led toggle"@), led_after(led_change("led toggle"@), led_on))
            == led_on,
        response_text("led on"@, led_on) == "ok "@ + response_text(
            "led status"@,
            led_after(led_change("led on"@), led_on),
        ),
        response_text("led off"@, led_on) == "ok "@ + response_text(
            "led status"@,
            led_after(led_change("led off"@), led_on),
        ),
        response_text("led toggle"@, led_on) == "ok "@ + response_text(
            "led status"@,
            led_after(led_change("led toggle"@), led_on),
        ),
        response_text("led status"@, true) == "led on"@,
        response_text("led status"@, false) == "led off"@,
{
    reveal_strlit("ping");
    reveal_strlit("help");
    reveal_strlit("led status");
    reveal_strlit("led on");
    reveal_strlit("led off");
    reveal_strlit("led toggle");
    reveal_strlit("ok ");
    reveal_strlit("ok led on");
    reveal_strlit("ok led off");
    assert("led status"@[4] == 's' && "led status"@.len() == 10);
    assert("led toggle"@[4] == 't' && "led toggle"@.len() == 10);
    assert("led on"@.len() == 6);
    assert("led off"@.len() == 7);
    assert("ping"@.len() == 4);
    assert("help"@.len() == 4);
    assert("ok led on"@ =~= "ok "@ + "led on"@);
    assert("ok led off"@ =~= "ok "@ + "led off"@);
}

/// Asking changes nothing, and neither does a line that is no command.
pub proof fn questions_keep_the_led(line: Seq<char>, led_on: bool)
    ensures
        led_change("ping"@) == LedChange::Keep,
        led_change("help"@) == LedChange::Keep,
        led_change("led status"@) == LedChange::Keep,
        led_after(LedChange::Keep, led_on) == led_on,
        response_text("ping"@, led_on) == "pong"@,
        response_text(line, led_on) == "error unknown command"@ ==> led_change(line)
            == LedChange::Keep,
        response_text(line, led_on) != response_text(line, !led_on) ==> line == "led toggle"@
            || line == "led status"@,
{
    words_differ();
    reveal_strlit("ping");
    reveal_strlit("help");
    reveal_strlit("led status");
    reveal_strlit("ok led on");
    reveal_strlit("ok led off");
    reveal_strlit("ok blink complete");
    reveal_strlit("error unknown command");
    assert("error unknown command"@.len() == 21);
    assert("ok blink complete"@.len() == 17);
    assert("ok led on"@.len() == 9);
    assert("ok led off"@.len() == 10);
}

/// Every delay can be asked for, and is kept exactly. The LED is off after the blinking.
pub proof fn blinking_takes_the_delay_asked_for(ms: u64, led_on: bool)
    ensures
        ({
            let line = "led blink "@ + decimal(ms as nat);
            &&& blink_delay(line) == Some(ms as nat)
            &&& led_change(line) == LedChange::Blink(ms)
            &&& !led_after(led_change(line), led_on)
            &&& response_text(line, led_on) == "ok blink complete"@
        }),
{
    let line = "led blink "@ + decimal(ms as nat);
    reveal_strlit("led blink ");
    reveal_strlit("ping");
    reveal_strlit("help");
    reveal_strlit("led status");
    reveal_strlit("led on");
    reveal_strlit("led off");
    reveal_strlit("led toggle");
    decimal_reads_back(ms as nat, u64::MAX as nat);
    assert(line.take(10) =~= "led blink "@);
    assert(line.skip(10) =~= decimal(ms as nat));
    assert(line.len() > 10);
}

/// A line that is none of the commands is refused and leaves the LED alone.
pub proof fn unknown_lines_are_refused(line: Seq<char>, led_on: bool)
    requires
        line != "ping"@,
        line != "help"@,
        line != "led on"@,
        line != "led off"@,
        line != "led toggle"@,
        line != "led status"@,
        line.len() < 10 || line.take(10) != "led blink "@,
    ensures
        response_text(line, led_on) == "error unknown command"@,
        led_change(line) == LedChange::Keep,
{
}

} // verus!
