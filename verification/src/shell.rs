//! Decisions of the boot-time configuration shell.

use crate::config::apply_command;
use crate::config::command_applied;
use crate::config::command_value;
use crate::config::commands_need_their_words;
use crate::config::ipv4_text;
use crate::config::parse_command;
use crate::config::shell_words;
use crate::config::shown_upstream_is_understood;
use crate::config::spaced;
use crate::config::spaced_words;
use crate::config::typed_client_is_understood;
use crate::config::typed_dhcp_is_understood;
use crate::config::typed_server_is_understood;
use crate::config::typed_static_is_understood;
use crate::config::upstream_text;
use crate::config::AddressMode;
use crate::config::BridgeConfig;
use crate::config::BridgeMode;
use crate::config::Command;
use crate::config::Ipv4Config;
use crate::config::MAX_WORDS;
use crate::config::UpstreamMode;
use crate::scan::is_word;
use crate::scan::words;
use crate::text::as_str128;
use crate::text::decimal;
use crate::text::new128;
use crate::text::pop128;
use crate::text::push128;
use crate::text::text128;
use vstd::prelude::*;
use vstd::utf8::is_ascii_chars;
use vstd::utf8::is_ascii_chars_encode_utf8;

verus! {

/// The most characters of a shell line.
pub const SHELL_LINE_MAX: usize = 128;

/// Number of lines or timeouts after which the bridge starts by itself.
pub const SHELL_ROUNDS: usize = 30;

/// How long one round waits for input.
pub const SHELL_TIMEOUT_MS: u64 = 100;

/// Number of lines in the banner.
pub const BANNER_LINES: usize = 12;

/// The boot banner and command summary, line by line.
pub open spec fn banner_text(index: int) -> Seq<char> {
    if index == 1 {
        "pico-fi uart bridge"@
    } else if index == 2 {
        "booting with compiled config"@
    } else if index == 3 {
        "commands available before network starts:"@
    } else if index == 4 {
        "  show"@
    } else if index == 5 {
        "  set dhcp"@
    } else if index == 6 {
        "  set static <ip>/<prefix> <gateway> <dns>"@
    } else if index == 7 {
        "  set client <dest-ip> <port>"@
    } else if index == 8 {
        "  set server <listen-port>"@
    } else if index == 9 {
        "  set upstream <uart|spi|test>"@
    } else if index == 10 {
        "  reset"@
    } else if index == 11 {
        "  start"@
    } else {
        ""@
    }
}

/// A line of the boot banner.
pub fn banner_line(index: usize) -> (r: &'static str)
    requires
        index < BANNER_LINES,
    ensures
        r@ == banner_text(index as int),
{
    match index {
        1 => "pico-fi uart bridge",
        2 => "booting with compiled config",
        3 => "commands available before network starts:",
        4 => "  show",
        5 => "  set dhcp",
        6 => "  set static <ip>/<prefix> <gateway> <dns>",
        7 => "  set client <dest-ip> <port>",
        8 => "  set server <listen-port>",
        9 => "  set upstream <uart|spi|test>",
        10 => "  reset",
        11 => "  start",
        _ => "",
    }
}

/// What a typed byte does.
#[derive(Clone, Copy, Debug, PartialEq, Eq, Structural)]
pub enum KeyAction {
    /// Ends the line.
    Enter,
    /// Was taken in and is echoed.
    Echo,
    /// Shows nothing.
    Silent,
}

/// Whether a byte is a printable ASCII character.
pub open spec fn is_typed(byte: u8) -> bool {
    32 <= byte <= 126
}

/// What a typed byte does on a line.
pub open spec fn key_action(line: Seq<char>, byte: u8) -> KeyAction {
    if byte == 0x0d || byte == 0x0a {
        KeyAction::Enter
    } else if is_typed(byte) && line.len() < SHELL_LINE_MAX {
        KeyAction::Echo
    } else {
        KeyAction::Silent
    }
}

/// The line after a typed byte: backspace and delete remove the last character, a printable
/// character is appended while there is room.
pub open spec fn line_after(line: Seq<char>, byte: u8) -> Seq<char> {
    if byte == 0x08 || byte == 0x7f {
        if line.len() > 0 {
            line.drop_last()
        } else {
            line
        }
    } else if is_typed(byte) && line.len() < SHELL_LINE_MAX {
        line.push(byte as char)
    } else {
        line
    }
}

/// The shell line that is being edited.
pub struct ShellLine {
    text: heapless::String<128>,
}

impl ShellLine {
    /// The characters typed so far.
    pub closed spec fn view(&self) -> Seq<char> {
        text128(self.text)
    }

    /// The line is ASCII and within its limit.
    pub open spec fn wf(&self) -> bool {
        is_ascii_chars(self@) && self@.len() <= SHELL_LINE_MAX
    }

    /// Creates an empty line.
    pub fn new() -> (line: Self)
        ensures
            line.wf(),
            line@ == Seq::<char>::empty(),
    {
        ShellLine { text: new128() }
    }

    /// Takes in a typed byte.
    pub fn key(&mut self, byte: u8) -> (action: KeyAction)
        requires
            old(self).wf(),
        ensures
            final(self).wf(),
            action == key_action(old(self)@, byte),
            final(self)@ == line_after(old(self)@, byte),
    {
        if byte == 0x0d || byte == 0x0a {
            return KeyAction::Enter;
        }
        if byte == 0x08 || byte == 0x7f {
            let _ = pop128(&mut self.text);
            return KeyAction::Silent;
        }
        if 32 <= byte && byte <= 126 {
            let c = byte as char;
            proof {
                is_ascii_chars_encode_utf8(text128(self.text));
                is_ascii_chars_encode_utf8(seq![c]);
            }
            if push128(&mut self.text, c).is_ok() {
                return KeyAction::Echo;
            }
        }
        KeyAction::Silent
    }

    /// Whether a pause in typing ends the round: it does as long as nothing is typed.
    pub fn pause_ends_round(&self) -> (r: bool)
        ensures
            r == (self@.len() == 0),
    {
        as_str128(&self.text).is_empty()
    }

    /// The characters typed so far.
    pub fn as_str(&self) -> (r: &str)
        ensures
            r@ == self@,
    {
        as_str128(&self.text)
    }
}

/// What the shell does after a line.
#[derive(Clone, Copy, Debug, PartialEq, Eq)]
pub enum ShellAction {
    /// Writes the banner.
    Banner,
    /// Writes the configuration.
    Show,
    /// Clears the stored override and writes the configuration.
    Reset,
    /// Writes the configuration and starts the bridge.
    Start,
    /// Stores the configuration and writes it.
    Save,
    /// Writes a message.
    Complain(&'static str),
}

/// The configuration after a shell line.
pub open spec fn config_after(
    config: BridgeConfig,
    defaults: BridgeConfig,
    line: Seq<char>,
) -> BridgeConfig {
    match command_value(shell_words(line)) {
        Ok(Command::Reset) => defaults,
        Ok(cmd) => command_applied(config, cmd),
        Err(_) => config,
    }
}

/// Whether the shell does what a line asks for: a `set` line stores the configuration, and a wrong
/// line is answered with what is wrong with it.
pub open spec fn answers_line(action: ShellAction, line: Seq<char>) -> bool {
    match command_value(shell_words(line)) {
        Ok(Command::Help) => action is Banner,
        Ok(Command::Show) => action is Show,
        Ok(Command::Reset) => action is Reset,
        Ok(Command::Start) => action is Start,
        Ok(_) => action is Save,
        Err(message) => action matches ShellAction::Complain(text) && text@ == message,
    }
}

/// Runs one shell line: changes the configuration and says what the shell does next.
pub fn run_line(config: &mut BridgeConfig, defaults: BridgeConfig, line: &str) -> (action:
    ShellAction)
    requires
        words(line@).len() <= MAX_WORDS,
    ensures
        *final(config) == config_after(*old(config), defaults, line@),
        answers_line(action, line@),
{
    match parse_command(line) {
        Ok(Command::Help) => ShellAction::Banner,
        Ok(Command::Show) => ShellAction::Show,
        Ok(Command::Reset) => {
            *config = defaults;
            ShellAction::Reset
        },
        Ok(command) => {
            if apply_command(config, command) {
                ShellAction::Start
            } else {
                ShellAction::Save
            }
        },
        Err(message) => ShellAction::Complain(message),
    }
}

/// Whether a line starts the bridge.
pub open spec fn is_start_line(line: Seq<char>) -> bool {
    command_value(shell_words(line)) == Ok::<Command, Seq<char>>(Command::Start)
}

/// The configuration after a run of shell lines: each line in turn, up to the first that starts the
/// bridge.
pub open spec fn config_after_lines(
    config: BridgeConfig,
    defaults: BridgeConfig,
    lines: Seq<Seq<char>>,
) -> BridgeConfig
    decreases lines.len(),
{
    if lines.len() == 0 || is_start_line(lines[0]) {
        config
    } else {
        config_after_lines(
            config_after(config, defaults, lines[0]),
            defaults,
            lines.drop_first(),
        )
    }
}

/// The shell between power-up and the start of the bridge.
#[derive(Clone, Copy, Debug, PartialEq, Eq)]
pub struct ShellRun {
    /// The configuration so far.
    pub config: BridgeConfig,
    /// The lines or timeouts that are left.
    pub rounds_left: usize,
    /// Whether a line has started the bridge.
    pub started: bool,
}

impl ShellRun {
    /// Whether the shell is over.
    pub open spec fn over(self) -> bool {
        self.started || self.rounds_left == 0
    }

    /// The run after one more round, with the line that came in or without one.
    pub open spec fn after_round(self, defaults: BridgeConfig, line: Option<Seq<char>>) -> ShellRun {
        ShellRun {
            config: match line {
                Some(line) => config_after(self.config, defaults, line),
                None => self.config,
            },
            rounds_left: (self.rounds_left - 1) as usize,
            started: line is Some && is_start_line(line->0),
        }
    }

    /// Begins with a configuration.
    pub fn new(config: BridgeConfig) -> (run: Self)
        ensures
            run == (ShellRun { config, rounds_left: SHELL_ROUNDS, started: false }),
    {
        ShellRun { config, rounds_left: SHELL_ROUNDS, started: false }
    }

    /// Whether the shell is over.
    pub fn is_over(&self) -> (r: bool)
        ensures
            r == self.over(),
    {
        self.started || self.rounds_left == 0
    }

    /// Takes a round in which no line came in.
    pub fn pass(&mut self)
        requires
            !old(self).over(),
        ensures
            forall|defaults: BridgeConfig|
                *final(self) == #[trigger] old(self).after_round(defaults, None),
    {
        self.rounds_left = self.rounds_left - 1;
    }

    /// Takes a round in which a line came in, and says what the shell does next.
    pub fn take_line(&mut self, defaults: BridgeConfig, line: &str) -> (action: ShellAction)
        requires
            !old(self).over(),
            words(line@).len() <= MAX_WORDS,
        ensures
            *final(self) == old(self).after_round(defaults, Some(line@)),
            answers_line(action, line@),
    {
        let action = run_line(&mut self.config, defaults, line);
        self.rounds_left = self.rounds_left - 1;
        self.started = match action {
            ShellAction::Start => true,
            _ => false,
        };
        action
    }
}

/// The run after a sequence of rounds: those after its end change nothing.
pub open spec fn after_rounds(
    run: ShellRun,
    defaults: BridgeConfig,
    rounds: Seq<Option<Seq<char>>>,
) -> ShellRun
    decreases rounds.len(),
{
    if rounds.len() == 0 || run.over() {
        run
    } else {
        after_rounds(run.after_round(defaults, rounds[0]), defaults, rounds.drop_first())
    }
}

/// The lines that came in over a sequence of rounds.
pub open spec fn lines_of(rounds: Seq<Option<Seq<char>>>) -> Seq<Seq<char>>
    decreases rounds.len(),
{
    if rounds.len() == 0 {
        Seq::empty()
    } else {
        match rounds[0] {
            Some(line) => seq![line] + lines_of(rounds.drop_first()),
            None => lines_of(rounds.drop_first()),
        }
    }
}

#[verifier::rlimit(30)]
proof fn rest_of_run_folds(
    run: ShellRun,
    defaults: BridgeConfig,
    rounds: Seq<Option<Seq<char>>>,
    count: nat,
)
    requires
        !run.started,
        count <= rounds.len(),
        count == run.rounds_left || (count == rounds.len() && count <= run.rounds_left),
    ensures
        after_rounds(run, defaults, rounds).config == config_after_lines(
            run.config,
            defaults,
            lines_of(rounds.take(count as int)),
        ),
        after_rounds(run, defaults, rounds).started <==> exists|i: int|
            0 <= i < count && #[trigger] rounds[i] is Some && is_start_line(rounds[i]->0),
    decreases rounds.len(),
{
    let seen = rounds.take(count as int);
    if count > 0 {
        let next = run.after_round(defaults, rounds[0]);
        let rest = rounds.drop_first();
        let later = (count - 1) as nat;
        assert(seen.drop_first() =~= rest.take(later as int));
        if let Some(line) = rounds[0] {
            assert(lines_of(seen)[0] == line);
            assert(lines_of(seen).drop_first() =~= lines_of(seen.drop_first()));
        }
        if !next.started {
            rest_of_run_folds(next, defaults, rest, later);
            let ended = after_rounds(next, defaults, rest).started;
            if ended {
                let i = choose|i: int|
                    0 <= i < later && #[trigger] rest[i] is Some && is_start_line(rest[i]->0);
                assert(rounds[i + 1] == rest[i]);
            }
            assert forall|i: int|
                0 <= i < count && #[trigger] rounds[i] is Some && is_start_line(
                    rounds[i]->0,
                ) implies ended by {
                assert(rest[i - 1] == rounds[i]);
            }
        } else {
            assert(rounds[0] is Some && is_start_line(rounds[0]->0));
        }
    }
}

/// The shell ends up with what its lines give one after the other: those of the first rounds count,
/// up to the first line that starts the bridge.
pub proof fn run_folds_its_lines(
    config: BridgeConfig,
    defaults: BridgeConfig,
    rounds: Seq<Option<Seq<char>>>,
)
    ensures
        ({
            let run = after_rounds(
                ShellRun { config, rounds_left: SHELL_ROUNDS, started: false },
                defaults,
                rounds,
            );
            let count = if rounds.len() < SHELL_ROUNDS {
                rounds.len()
            } else {
                SHELL_ROUNDS as nat
            };
            &&& run.config == config_after_lines(
                config,
                defaults,
                lines_of(rounds.take(count as int)),
            )
            &&& run.started <==> exists|i: int|
                0 <= i < count && #[trigger] rounds[i] is Some && is_start_line(rounds[i]->0)
        }),
{
    let count = if rounds.len() < SHELL_ROUNDS {
        rounds.len()
    } else {
        SHELL_ROUNDS as nat
    };
    rest_of_run_folds(
        ShellRun { config, rounds_left: SHELL_ROUNDS, started: false },
        defaults,
        rounds,
        count,
    );
}

/// Lines behind one that starts the bridge have no influence.
pub proof fn lines_after_start_do_not_count(
    config: BridgeConfig,
    defaults: BridgeConfig,
    lines: Seq<Seq<char>>,
    start: Seq<char>,
    rest: Seq<Seq<char>>,
)
    requires
        is_start_line(start),
    ensures
        config_after_lines(config, defaults, lines + seq![start] + rest) == config_after_lines(
            config,
            defaults,
            lines,
        ),
    decreases lines.len(),
{
    let all = lines + seq![start] + rest;
    if lines.len() == 0 {
        assert(all[0] == start);
    } else {
        assert(all[0] == lines[0]);
        assert(all.drop_first() =~= lines.drop_first() + seq![start] + rest);
        if !is_start_line(lines[0]) {
            lines_after_start_do_not_count(
                config_after(config, defaults, lines[0]),
                defaults,
                lines.drop_first(),
                start,
                rest,
            );
        }
    }
}

/// A character that is typed and then deleted leaves the line as it was.
pub proof fn delete_undoes_a_character(line: Seq<char>, byte: u8)
    requires
        is_typed(byte),
        line.len() < SHELL_LINE_MAX,
    ensures
        line_after(line_after(line, byte), 0x08) == line,
        line_after(line_after(line, byte), 0x7f) == line,
{
    assert(line.push(byte as char).drop_last() =~= line);
}

/// Each `set` line gives its one setting the value that was typed and leaves the others alone.
pub proof fn typed_settings_take_effect(
    config: BridgeConfig,
    defaults: BridgeConfig,
    ipv4: Ipv4Config,
    host: [u8; 4],
    port: u16,
    upstream: UpstreamMode,
)
    requires
        ipv4.prefix_len <= 32,
        upstream is Uart || upstream is I2c || upstream is Spi || upstream is SpiEcho
            || upstream is Test,
    ensures
        config_after(config, defaults, spaced(seq!["set"@, "dhcp"@])) == (BridgeConfig {
            mac_address: config.mac_address,
            address_mode: AddressMode::Dhcp,
            bridge_mode: config.bridge_mode,
            upstream_mode: config.upstream_mode,
            uart_port: config.uart_port,
        }),
        config_after(
            config,
            defaults,
            spaced(
                seq![
                    "set"@,
                    "static"@,
                    ipv4_text(ipv4.address) + "/"@ + decimal(ipv4.prefix_len as nat),
                    ipv4_text(ipv4.gateway),
                    ipv4_text(ipv4.dns),
                ],
            ),
        ) == (BridgeConfig {
            mac_address: config.mac_address,
            address_mode: AddressMode::Static(ipv4),
            bridge_mode: config.bridge_mode,
            upstream_mode: config.upstream_mode,
            uart_port: config.uart_port,
        }),
        config_after(
            config,
            defaults,
            spaced(seq!["set"@, "client"@, ipv4_text(host), decimal(port as nat)]),
        ) == (BridgeConfig {
            mac_address: config.mac_address,
            address_mode: config.address_mode,
            bridge_mode: BridgeMode::TcpClient { host, port },
            upstream_mode: config.upstream_mode,
            uart_port: config.uart_port,
        }),
        config_after(config, defaults, spaced(seq!["set"@, "server"@, decimal(port as nat)])) == (
        BridgeConfig {
            mac_address: config.mac_address,
            address_mode: config.address_mode,
            bridge_mode: BridgeMode::TcpServer { port },
            upstream_mode: config.upstream_mode,
            uart_port: config.uart_port,
        }),
        config_after(
            config,
            defaults,
            spaced(seq!["set"@, "upstream"@, upstream_text(upstream).skip(10)]),
        ) == (BridgeConfig {
            mac_address: config.mac_address,
            address_mode: config.address_mode,
            bridge_mode: config.bridge_mode,
            upstream_mode: upstream,
            uart_port: config.uart_port,
        }),
{
    typed_static_is_understood(ipv4);
    typed_client_is_understood(host, port as nat);
    typed_server_is_understood(port as nat);
    shown_upstream_is_understood(upstream);
    typed_dhcp_is_understood();
}

/// A reset brings every default back, whatever was set before.
pub proof fn reset_restores_the_defaults(config: BridgeConfig, defaults: BridgeConfig)
    ensures
        config_after(config, defaults, "reset"@) == defaults,
{
    reveal_strlit("reset");
    reveal_strlit("help");
    reveal_strlit("show");
    reveal_strlit("start");
    spaced_words(seq!["reset"@]);
}

/// The line `start` starts the bridge and changes nothing, and so do `help` and `show`, which do not
/// start it.
pub proof fn plain_lines_change_nothing(config: BridgeConfig, defaults: BridgeConfig)
    ensures
        config_after(config, defaults, "start"@) == config,
        config_after(config, defaults, "help"@) == config,
        config_after(config, defaults, "show"@) == config,
        is_start_line("start"@),
        !is_start_line("help"@),
        !is_start_line("show"@),
{
    reveal_strlit("reset");
    reveal_strlit("help");
    reveal_strlit("show");
    reveal_strlit("start");
    spaced_words(seq!["start"@]);
    spaced_words(seq!["help"@]);
    spaced_words(seq!["show"@]);
}

/// Only a line whose first word is `set`, or the one word `reset`, can change anything, and only the
/// one word `start` starts the bridge.
pub proof fn other_lines_change_nothing(
    config: BridgeConfig,
    defaults: BridgeConfig,
    line: Seq<char>,
)
    ensures
        config_after(config, defaults, line) != config ==> shell_words(line).len() > 0 && (
        shell_words(line)[0] == "set"@ || shell_words(line) == seq!["reset"@]),
        is_start_line(line) <==> shell_words(line) == seq!["start"@],
{
    let w = shell_words(line);
    reveal_strlit("reset");
    reveal_strlit("help");
    reveal_strlit("show");
    reveal_strlit("start");
    if w.len() == 1 && w[0] == "reset"@ {
        assert(w =~= seq!["reset"@]);
    }
    if w.len() == 1 && w[0] == "start"@ {
        assert(w =~= seq!["start"@]);
    }
}

/// The line after a run of typed bytes.
pub open spec fn line_after_all(line: Seq<char>, keys: Seq<u8>) -> Seq<char>
    decreases keys.len(),
{
    if keys.len() == 0 {
        line
    } else {
        line_after(line_after_all(line, keys.drop_last()), keys.last())
    }
}

/// What is typed is what the line holds: printable characters are taken in one by one, up to the
/// limit of a line, and what comes after that is left out.
pub proof fn typed_text_is_taken_in(keys: Seq<u8>)
    requires
        forall|i: int| 0 <= i < keys.len() ==> is_typed(#[trigger] keys[i]),
    ensures
        line_after_all(Seq::empty(), keys).len() == (if keys.len() <= SHELL_LINE_MAX {
            keys.len() as int
        } else {
            SHELL_LINE_MAX as int
        }),
        forall|i: int|
            0 <= i < line_after_all(Seq::empty(), keys).len() ==> (#[trigger] line_after_all(
                Seq::empty(),
                keys,
            )[i]) == keys[i] as char,
    decreases keys.len(),
{
    if keys.len() > 0 {
        let front = keys.drop_last();
        assert forall|i: int| 0 <= i < front.len() implies is_typed(#[trigger] front[i]) by {
            assert(front[i] == keys[i]);
        }
        typed_text_is_taken_in(front);
        assert(is_typed(keys[keys.len() - 1]));
    }
}

/// Bytes that are neither printable nor a deletion leave the line as it is.
pub proof fn other_keys_leave_the_line(line: Seq<char>, byte: u8)
    requires
        byte < 32 || byte > 126,
        byte != 0x08,
        byte != 0x7f,
    ensures
        line_after(line, byte) == line,
        key_action(line, byte) == (if byte == 0x0d || byte == 0x0a {
            KeyAction::Enter
        } else {
            KeyAction::Silent
        }),
{
}

/// A key is echoed exactly when it is added to the line.
pub proof fn echoed_keys_are_taken_in(line: Seq<char>, byte: u8)
    ensures
        key_action(line, byte) == KeyAction::Echo <==> line_after(line, byte) == line.push(
            byte as char,
        ),
{
    if line_after(line, byte) == line.push(byte as char) {
        assert(line_after(line, byte).len() == line.len() + 1);
    }
}

/// A line may have 128 characters, and the bridge starts by itself after 30 rounds.
pub proof fn shell_limits()
    ensures
        SHELL_LINE_MAX == 128,
        SHELL_ROUNDS == 30,
        SHELL_TIMEOUT_MS == 100,
{
}

/// The bridge starts by itself: without a single line the shell is over after its rounds, with the
/// configuration it began with.
pub proof fn silence_starts_the_bridge(
    run: ShellRun,
    defaults: BridgeConfig,
    rounds: Seq<Option<Seq<char>>>,
)
    requires
        !run.started,
        run.rounds_left == rounds.len(),
        forall|i: int| 0 <= i < rounds.len() ==> #[trigger] rounds[i] is None,
    ensures
        after_rounds(run, defaults, rounds).config == run.config,
        after_rounds(run, defaults, rounds).over(),
        !after_rounds(run, defaults, rounds).started,
    decreases rounds.len(),
{
    if rounds.len() > 0 {
        assert(rounds[0] is None);
        let rest = rounds.drop_first();
        assert forall|i: int| 0 <= i < rest.len() implies #[trigger] rest[i] is None by {
            assert(rest[i] == rounds[i + 1]);
        }
        silence_starts_the_bridge(run.after_round(defaults, None), defaults, rest);
    }
}

/// Whatever changes the configuration is stored, but for a reset, which clears what is stored. A line
/// that changes nothing and starts nothing stores nothing unless it sets what was set before.
pub proof fn changes_are_stored(
    config: BridgeConfig,
    defaults: BridgeConfig,
    line: Seq<char>,
    action: ShellAction,
)
    requires
        answers_line(action, line),
    ensures
        config_after(config, defaults, line) != config ==> action is Save || action is Reset,
        action is Reset <==> shell_words(line) == seq!["reset"@],
        action is Start <==> is_start_line(line),
        action is Save ==> shell_words(line)[0] == "set"@,
        action is Show <==> shell_words(line) == seq!["show"@],
        action is Banner <==> shell_words(line) == seq!["help"@],
        action is Complain <==> command_value(shell_words(line)) is Err,
{
    let w = shell_words(line);
    commands_need_their_words(w);
    assert("help"@[0] == 'h' && "show"@[1] == 'h' && "start"@[1] == 't' && "reset"@[0] == 'r'
        && "help"@.len() == 4 && "show"@.len() == 4 && "start"@.len() == 5 && "reset"@.len() == 5
        && "start"@[0] == 's' && "show"@[0] == 's') by {
        reveal_strlit("help");
        reveal_strlit("show");
        reveal_strlit("start");
        reveal_strlit("reset");
    }
}

/// The banner names every command of the shell: what stands behind the two spaces of a line without
/// values is a command as it is typed.
pub proof fn banner_names_the_commands()
    ensures
        command_value(shell_words(banner_text(4))) == Ok::<Command, Seq<char>>(Command::Show),
        command_value(shell_words(banner_text(5))) == Ok::<Command, Seq<char>>(Command::SetDhcp),
        command_value(shell_words(banner_text(10))) == Ok::<Command, Seq<char>>(Command::Reset),
        command_value(shell_words(banner_text(11))) == Ok::<Command, Seq<char>>(Command::Start),
        banner_text(6) == "  set static <ip>/<prefix> <gateway> <dns>"@,
        banner_text(7) == "  set client <dest-ip> <port>"@,
        banner_text(8) == "  set server <listen-port>"@,
        banner_text(9) == "  set upstream <uart|spi|test>"@,
{
    assert(banner_text(4) == seq![' ', ' '] + "show"@ && banner_text(5) == seq![' ', ' '] + spaced(
        seq!["set"@, "dhcp"@],
    ) && banner_text(10) == seq![' ', ' '] + "reset"@ && banner_text(11) == seq![' ', ' ']
        + "start"@) by {
        reveal_strlit("  show");
        reveal_strlit("  set dhcp");
        reveal_strlit("  reset");
        reveal_strlit("  start");
        reveal_strlit("show");
        reveal_strlit("set");
        reveal_strlit("dhcp");
        reveal_strlit("reset");
        reveal_strlit("start");
        assert(banner_text(4) =~= seq![' ', ' '] + "show"@);
        let two = seq!["set"@, "dhcp"@];
        assert(two.drop_first() =~= seq!["dhcp"@]);
        reveal_with_fuel(spaced, 2);
        assert(spaced(two) =~= "set"@ + seq![' '] + "dhcp"@);
        assert(banner_text(5) =~= seq![' ', ' '] + spaced(two));
        assert(banner_text(10) =~= seq![' ', ' '] + "reset"@);
        assert(banner_text(11) =~= seq![' ', ' '] + "start"@);
    }
    indented_words("show"@);
    indented_words(spaced(seq!["set"@, "dhcp"@]));
    indented_words("reset"@);
    indented_words("start"@);
    typed_dhcp_is_understood();
    assert("show"@[0] == 's' && "show"@.len() == 4 && "help"@[0] == 'h' && "start"@.len() == 5
        && "start"@[0] == 's' && "reset"@.len() == 5 && "reset"@[0] == 'r' && "help"@.len() == 4
        && is_word("show"@) && is_word("reset"@) && is_word("start"@)) by {
        reveal_strlit("show");
        reveal_strlit("help");
        reveal_strlit("reset");
        reveal_strlit("start");
    }
    spaced_words(seq!["show"@]);
    spaced_words(seq!["reset"@]);
    spaced_words(seq!["start"@]);
}

/// Spaces in front of a line do not change its words.
proof fn indented_words(line: Seq<char>)
    ensures
        shell_words(seq![' ', ' '] + line) == shell_words(line),
{
    let two = seq![' ', ' '] + line;
    let one = two.drop_first();
    assert(two[0] == ' ' && one[0] == ' ');
    assert(one.drop_first() =~= line);
    assert(words(two) == words(one));
    assert(words(one) == words(line));
}

} // verus!
