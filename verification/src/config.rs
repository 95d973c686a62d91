//! Runtime bridge configuration parsing and rendering.

use crate::scan::all_digits;
use crate::scan::decimal_reads_back;
use crate::scan::find_char;
use crate::scan::is_digit;
use crate::scan::is_white_space;
use crate::scan::is_word;
use crate::scan::next_word;
use crate::scan::parse_unsigned;
use crate::scan::position;
use crate::scan::position_bound;
use crate::scan::split_first;
use crate::scan::split_on;
use crate::scan::trim_text;
use crate::scan::trimmed;
use crate::scan::unsigned_value;
use crate::scan::words;
use crate::scan::words_between_spaces;
use crate::scan::TrimSet;
use crate::text::append_ascii;
use crate::text::append_decimal;
use crate::text::append_hex_byte;
use crate::text::append_text;
use crate::text::decimal;
use crate::text::decimal_width;
use crate::text::hex_byte;
use crate::text::new160;
use crate::text::power_of_ten;
use crate::text::same_text;
use crate::text::text160;
use vstd::prelude::*;
use vstd::string::StrSliceExecFns;
use vstd::utf8::is_ascii_chars;

verus! {

/// Static IPv4 configuration values used when DHCP is disabled.
#[derive(Clone, Copy, Debug, Eq, PartialEq)]
pub struct Ipv4Config {
    /// Interface IPv4 address.
    pub address: [u8; 4],
    /// CIDR prefix length for the interface address.
    pub prefix_len: u8,
    /// Default gateway IPv4 address.
    pub gateway: [u8; 4],
    /// Primary DNS server IPv4 address.
    pub dns: [u8; 4],
}

/// Supported interface address assignment modes.
#[derive(Clone, Copy, Debug, Eq, PartialEq)]
pub enum AddressMode {
    /// Requests an address from DHCP.
    Dhcp,
    /// Uses the explicitly provided static IPv4 settings.
    Static(Ipv4Config),
}

/// TCP bridge role that the Pico should run after startup.
#[derive(Clone, Copy, Debug, Eq, PartialEq)]
pub enum BridgeMode {
    /// Connects outbound to a remote TCP endpoint.
    TcpClient { host: [u8; 4], port: u16 },
    /// Listens for an inbound TCP connection.
    TcpServer { port: u16 },
}

/// Upstream physical or logical interface attached to the local device.
#[derive(Clone, Copy, Debug, Eq, PartialEq)]
pub enum UpstreamMode {
    /// Uses the control UART as the upstream payload interface.
    Uart,
    /// Uses the framed I2C slave transport as the upstream payload interface.
    I2c,
    /// Uses a USB CDC serial port as the upstream payload interface.
    Usb,
    /// Uses the simple TCP test mode instead of the normal bridge protocol.
    Test,
    /// Uses the framed SPI slave transport as the upstream payload interface.
    Spi,
    /// Uses the SPI transport in transaction-to-transaction echo mode for diagnostics.
    SpiEcho,
    /// Answers every SPI transaction with one fixed frame for diagnostics.
    SpiStatic,
    /// Holds the SPI output line high for diagnostics.
    SpiLineHigh,
}

/// UART used for the boot shell and for the UART upstream.
#[derive(Clone, Copy, Debug, Eq, PartialEq)]
pub enum UartPort {
    /// UART0 on GPIO0 and GPIO1.
    Uart0,
    /// UART1 on GPIO4 and GPIO5.
    Uart1,
}

/// Full runtime bridge configuration assembled from compiled defaults and shell overrides.
#[derive(Clone, Copy, Debug, Eq, PartialEq)]
pub struct BridgeConfig {
    /// Ethernet MAC address presented by the W5500.
    pub mac_address: [u8; 6],
    /// IP address assignment strategy.
    pub address_mode: AddressMode,
    /// Whether the bridge should listen or connect outbound.
    pub bridge_mode: BridgeMode,
    /// Which local upstream transport should feed the TCP bridge.
    pub upstream_mode: UpstreamMode,
    /// Which UART carries the boot shell.
    pub uart_port: UartPort,
}

/// Shell commands accepted before the bridge starts.
#[derive(Clone, Copy, Debug, Eq, PartialEq)]
pub enum Command {
    /// Prints the shell help text.
    Help,
    /// Renders the active configuration.
    Show,
    /// Exits the shell and starts the bridge.
    Start,
    /// Switches the interface to DHCP mode.
    SetDhcp,
    /// Switches the interface to static IPv4 mode.
    SetStatic(Ipv4Config),
    /// Selects TCP client bridge mode.
    SetClient { host: [u8; 4], port: u16 },
    /// Selects TCP server bridge mode.
    SetServer { port: u16 },
    /// Selects the upstream transport.
    SetUpstream(UpstreamMode),
    /// Restores the compiled defaults and clears any persisted override.
    Reset,
}

/// The most words a shell line may hold.
pub const MAX_WORDS: usize = 8;

/// The words held by a list of at most eight, in order.
pub uninterp spec fn word_list(v: heapless::Vec<&str, 8>) -> Seq<Seq<char>>;

/// `heapless::Vec::<&str, 8>::new`: the new list is empty.
#[verifier::external_body]
fn words_new<'a>() -> (v: heapless::Vec<&'a str, 8>)
    ensures
        word_list(v) == Seq::<Seq<char>>::empty(),
{
    heapless::Vec::new()
}

/// `heapless::Vec::<&str, 8>::push`: the word is appended when fewer than eight are held, and
/// handed back otherwise.
#[verifier::external_body]
fn words_push<'a>(v: &mut heapless::Vec<&'a str, 8>, word: &'a str) -> (r: Result<(), &'a str>)
    ensures
        r is Ok <==> word_list(*old(v)).len() < 8,
        r is Ok ==> word_list(*final(v)) == word_list(*old(v)).push(word@),
        r matches Err(back) ==> back@ == word@ && word_list(*final(v)) == word_list(*old(v)),
{
    v.push(word)
}

/// `heapless::Vec::<&str, 8>::as_slice`: the words in order.
#[verifier::external_body]
fn words_as_slice<'a, 'b>(v: &'b heapless::Vec<&'a str, 8>) -> (r: &'b [&'a str])
    ensures
        r@.len() == word_list(*v).len(),
        forall|i: int| 0 <= i < r@.len() ==> (#[trigger] r@[i])@ == word_list(*v)[i],
{
    v.as_slice()
}

/// The IPv4 address written as four dot-separated octets.
pub open spec fn ipv4_value(s: Seq<char>) -> Option<[u8; 4]> {
    let parts = split_on(s, '.');
    if parts.len() == 4 && unsigned_value(parts[0], 255) is Some && unsigned_value(parts[1], 255)
        is Some && unsigned_value(parts[2], 255) is Some && unsigned_value(parts[3], 255) is Some {
        Some(
            [
                unsigned_value(parts[0], 255)->0 as u8,
                unsigned_value(parts[1], 255)->0 as u8,
                unsigned_value(parts[2], 255)->0 as u8,
                unsigned_value(parts[3], 255)->0 as u8,
            ],
        )
    } else {
        None
    }
}

/// The static settings written as `a.b.c.d/prefix gateway dns`, or the message for what is wrong.
pub open spec fn static_value(cidr: Seq<char>, gateway: Seq<char>, dns: Seq<char>) -> Result<
    Ipv4Config,
    Seq<char>,
> {
    let slash = position(cidr, '/') as int;
    if slash >= cidr.len() {
        Err("expected cidr form a.b.c.d/prefix"@)
    } else if unsigned_value(cidr.skip(slash + 1), 255) is None || unsigned_value(
        cidr.skip(slash + 1),
        255,
    )->0 > 32 {
        Err("invalid prefix"@)
    } else if ipv4_value(cidr.take(slash)) is None || ipv4_value(gateway) is None || ipv4_value(dns)
        is None {
        Err("invalid ipv4 address"@)
    } else {
        Ok(
            Ipv4Config {
                address: ipv4_value(cidr.take(slash))->0,
                prefix_len: unsigned_value(cidr.skip(slash + 1), 255)->0 as u8,
                gateway: ipv4_value(gateway)->0,
                dns: ipv4_value(dns)->0,
            },
        )
    }
}

/// The upstream mode that the shell knows under a name.
pub open spec fn upstream_value(name: Seq<char>) -> Option<UpstreamMode> {
    if name == "uart"@ {
        Some(UpstreamMode::Uart)
    } else if name == "i2c"@ {
        Some(UpstreamMode::I2c)
    } else if name == "spi"@ {
        Some(UpstreamMode::Spi)
    } else if name == "spi_echo"@ || name == "spiecho"@ {
        Some(UpstreamMode::SpiEcho)
    } else if name == "test"@ {
        Some(UpstreamMode::Test)
    } else {
        None
    }
}

/// The command that a list of words stands for, or the message for what is wrong.
pub open spec fn command_value(w: Seq<Seq<char>>) -> Result<Command, Seq<char>> {
    if w.len() == 0 {
        Err("empty command"@)
    } else if w.len() == 1 && w[0] == "help"@ {
        Ok(Command::Help)
    } else if w.len() == 1 && w[0] == "show"@ {
        Ok(Command::Show)
    } else if w.len() == 1 && w[0] == "start"@ {
        Ok(Command::Start)
    } else if w.len() == 1 && w[0] == "reset"@ {
        Ok(Command::Reset)
    } else if w.len() == 2 && w[0] == "set"@ && w[1] == "dhcp"@ {
        Ok(Command::SetDhcp)
    } else if w.len() == 5 && w[0] == "set"@ && w[1] == "static"@ {
        match static_value(w[2], w[3], w[4]) {
            Ok(ipv4) => Ok(Command::SetStatic(ipv4)),
            Err(message) => Err(message),
        }
    } else if w.len() == 4 && w[0] == "set"@ && w[1] == "client"@ {
        if ipv4_value(w[2]) is None {
            Err("invalid ipv4 address"@)
        } else if unsigned_value(w[3], 65535) is None {
            Err("invalid port"@)
        } else {
            Ok(
                Command::SetClient {
                    host: ipv4_value(w[2])->0,
                    port: unsigned_value(w[3], 65535)->0 as u16,
                },
            )
        }
    } else if w.len() == 3 && w[0] == "set"@ && w[1] == "server"@ {
        if unsigned_value(w[2], 65535) is None {
            Err("invalid port"@)
        } else {
            Ok(Command::SetServer { port: unsigned_value(w[2], 65535)->0 as u16 })
        }
    } else if w.len() == 3 && w[0] == "set"@ && w[1] == "upstream"@ && upstream_value(w[2])
        is Some {
        Ok(Command::SetUpstream(upstream_value(w[2])->0))
    } else {
        Err("unknown command"@)
    }
}

/// The words of a shell line, with stray Unicode white space trimmed off each.
pub open spec fn shell_words(line: Seq<char>) -> Seq<Seq<char>> {
    words(line).map_values(|word: Seq<char>| trimmed(TrimSet::WhiteSpace, word))
}

/// Whether a result carries the value or the error text of its specification.
pub open spec fn same_outcome<T>(r: Result<T, &'static str>, expected: Result<T, Seq<char>>) -> bool {
    match r {
        Ok(value) => expected == Ok::<T, Seq<char>>(value),
        Err(message) => expected == Err::<T, Seq<char>>(message@),
    }
}

/// Parses a configuration shell line into a typed command.
pub fn parse_command(line: &str) -> (r: Result<Command, &'static str>)
    requires
        words(line@).len() <= MAX_WORDS,
    ensures
        same_outcome(r, command_value(shell_words(line@))),
{
    let mut list = words_new();
    let mut rest = line;
    let ghost all = words(line@);
    let ghost goal = shell_words(line@);
    loop
        invariant_except_break
            all.len() <= MAX_WORDS,
            goal.len() == all.len(),
            forall|i: int|
                0 <= i < all.len() ==> (#[trigger] goal[i]) == trimmed(TrimSet::WhiteSpace, all[i]),
            word_list(list).len() + words(rest@).len() == all.len(),
            words(rest@) == all.skip(word_list(list).len() as int),
            word_list(list) == goal.take(word_list(list).len() as int),
        ensures
            word_list(list) == goal,
        decreases rest@.len(),
    {
        match next_word(rest) {
            Some((word, after)) => {
                let ghost n = word_list(list).len() as int;
                assert(words(rest@)[0] == word@);
                assert(all[n] == word@);
                let _ = words_push(&mut list, trim_text(TrimSet::WhiteSpace, word));
                assert(words(after@) == words(rest@).skip(1));
                assert(all.skip(n).skip(1) == all.skip(n + 1));
                assert(goal.take(n).push(goal[n]) == goal.take(n + 1));
                rest = after;
            },
            None => {
                assert(goal.take(goal.len() as int) == goal);
                break ;
            },
        }
    }
    let slice = words_as_slice(&list);
    assert(texts(slice@) == goal);
    command_from_words(slice)
}

/// The characters of each of a list of texts.
pub open spec fn texts(list: Seq<&str>) -> Seq<Seq<char>> {
    list.map_values(|t: &str| t@)
}

fn command_from_words(w: &[&str]) -> (r: Result<Command, &'static str>)
    ensures
        same_outcome(r, command_value(texts(w@))),
{
    let n: usize = w.len();
    if n == 0 {
        return Err("empty command");
    }
    if n == 1 {
        if same_text(w[0], "help") {
            return Ok(Command::Help);
        }
        if same_text(w[0], "show") {
            return Ok(Command::Show);
        }
        if same_text(w[0], "start") {
            return Ok(Command::Start);
        }
        if same_text(w[0], "reset") {
            return Ok(Command::Reset);
        }
        return Err("unknown command");
    }
    if !same_text(w[0], "set") {
        return Err("unknown command");
    }
    if n == 2 && same_text(w[1], "dhcp") {
        return Ok(Command::SetDhcp);
    }
    if n == 5 && same_text(w[1], "static") {
        return match parse_static(w[2], w[3], w[4]) {
            Ok(ipv4) => Ok(Command::SetStatic(ipv4)),
            Err(message) => Err(message),
        };
    }
    if n == 4 && same_text(w[1], "client") {
        let host = match parse_ipv4(w[2]) {
            Ok(host) => host,
            Err(message) => return Err(message),
        };
        return match parse_port(w[3]) {
            Ok(port) => Ok(Command::SetClient { host, port }),
            Err(message) => Err(message),
        };
    }
    if n == 3 && same_text(w[1], "server") {
        return match parse_port(w[2]) {
            Ok(port) => Ok(Command::SetServer { port }),
            Err(message) => Err(message),
        };
    }
    if n == 3 && same_text(w[1], "upstream") {
        proof {
            reveal_strlit("server");
            reveal_strlit("upstream");
        }
        return match parse_upstream(w[2]) {
            Some(mode) => Ok(Command::SetUpstream(mode)),
            None => Err("unknown command"),
        };
    }
    Err("unknown command")
}

fn parse_upstream(name: &str) -> (r: Option<UpstreamMode>)
    ensures
        r == upstream_value(name@),
{
    if same_text(name, "uart") {
        Some(UpstreamMode::Uart)
    } else if same_text(name, "i2c") {
        Some(UpstreamMode::I2c)
    } else if same_text(name, "spi") {
        Some(UpstreamMode::Spi)
    } else if same_text(name, "spi_echo") || same_text(name, "spiecho") {
        Some(UpstreamMode::SpiEcho)
    } else if same_text(name, "test") {
        Some(UpstreamMode::Test)
    } else {
        None
    }
}

/// Applies a parsed shell command and reports whether startup should begin immediately.
pub fn apply_command(config: &mut BridgeConfig, cmd: Command) -> (start: bool)
    ensures
        start == (cmd == Command::Start),
        *final(config) == command_applied(*old(config), cmd),
{
    match cmd {
        Command::Help | Command::Show => false,
        Command::Start => true,
        Command::SetDhcp => {
            config.address_mode = AddressMode::Dhcp;
            false
        },
        Command::SetStatic(ipv4) => {
            config.address_mode = AddressMode::Static(ipv4);
            false
        },
        Command::SetClient { host, port } => {
            config.bridge_mode = BridgeMode::TcpClient { host, port };
            false
        },
        Command::SetServer { port } => {
            config.bridge_mode = BridgeMode::TcpServer { port };
            false
        },
        Command::SetUpstream(mode) => {
            config.upstream_mode = mode;
            false
        },
        Command::Reset => false,
    }
}

/// The configuration after a command: a `set` command changes its one setting, every other command
/// changes nothing.
pub open spec fn command_applied(config: BridgeConfig, cmd: Command) -> BridgeConfig {
    match cmd {
        Command::SetDhcp => BridgeConfig { address_mode: AddressMode::Dhcp, ..config },
        Command::SetStatic(ipv4) => BridgeConfig {
            address_mode: AddressMode::Static(ipv4),
            ..config
        },
        Command::SetClient { host, port } => BridgeConfig {
            bridge_mode: BridgeMode::TcpClient { host, port },
            ..config
        },
        Command::SetServer { port } => BridgeConfig {
            bridge_mode: BridgeMode::TcpServer { port },
            ..config
        },
        Command::SetUpstream(mode) => BridgeConfig { upstream_mode: mode, ..config },
        _ => config,
    }
}

/// Parses the `a.b.c.d/prefix gateway dns` static-IP shell form.
fn parse_static(cidr: &str, gateway: &str, dns: &str) -> (r: Result<Ipv4Config, &'static str>)
    ensures
        same_outcome(r, static_value(cidr@, gateway@, dns@)),
{
    let total: usize = cidr.unicode_len();
    let slash: usize = find_char(cidr, '/');
    if slash >= total {
        return Err("expected cidr form a.b.c.d/prefix");
    }
    let prefix = cidr.substring_char(slash + 1, total);
    assert(prefix@ == cidr@.skip(slash + 1));
    let prefix_len = match parse_unsigned(prefix, 255) {
        Some(value) => value,
        None => return Err("invalid prefix"),
    };
    if prefix_len > 32 {
        return Err("invalid prefix");
    }
    let addr = cidr.substring_char(0, slash);
    assert(addr@ == cidr@.take(slash as int));
    let address = match parse_ipv4(addr) {
        Ok(address) => address,
        Err(message) => return Err(message),
    };
    let gateway = match parse_ipv4(gateway) {
        Ok(gateway) => gateway,
        Err(message) => return Err(message),
    };
    let dns = match parse_ipv4(dns) {
        Ok(dns) => dns,
        Err(message) => return Err(message),
    };
    Ok(Ipv4Config { address, prefix_len: prefix_len as u8, gateway, dns })
}

/// Parses a decimal TCP or UDP port.
fn parse_port(value: &str) -> (r: Result<u16, &'static str>)
    ensures
        r is Ok <==> unsigned_value(value@, 65535) is Some,
        r matches Ok(port) ==> unsigned_value(value@, 65535) == Some(port as nat),
        r matches Err(message) ==> message@ == "invalid port"@,
{
    match parse_unsigned(value, 65535) {
        Some(port) => Ok(port as u16),
        None => Err("invalid port"),
    }
}

/// Parses a dotted-quad IPv4 address.
pub(crate) fn parse_ipv4(value: &str) -> (r: Result<[u8; 4], &'static str>)
    ensures
        r is Ok <==> ipv4_value(value@) is Some,
        r matches Ok(octets) ==> ipv4_value(value@) == Some(octets),
        r matches Err(message) ==> message@ == "invalid ipv4 address"@,
{
    let mut octets = [0u8; 4];
    let mut count: usize = 0;
    let mut rest = value;
    let ghost parts = split_on(value@, '.');
    let mut done = false;
    assert(parts.skip(0) == parts);
    while !done
        invariant
            count <= 4,
            parts == split_on(value@, '.'),
            count <= parts.len(),
            !done ==> count < parts.len() && parts.skip(count as int) == split_on(rest@, '.'),
            done ==> count == parts.len(),
            forall|i: int|
                0 <= i < count ==> unsigned_value(#[trigger] parts[i], 255) == Some(
                    octets@[i] as nat,
                ),
        decreases
                (if done {
                    0
                } else {
                    1 + rest@.len()
                }),
    {
        if count >= 4 {
            return Err("invalid ipv4 address");
        }
        let total: usize = rest.unicode_len();
        let dot: usize = find_char(rest, '.');
        let chunk = rest.substring_char(0, dot);
        proof {
            position_bound(rest@, '.');
            assert(split_on(rest@, '.')[0] == parts[count as int]);
            if dot == total {
                assert(chunk@ == rest@);
            } else {
                assert(chunk@ == rest@.take(dot as int));
            }
        }
        match parse_unsigned(chunk, 255) {
            Some(octet) => octets[count] = octet as u8,
            None => return Err("invalid ipv4 address"),
        }
        if dot == total {
            assert(split_on(rest@, '.').len() == 1);
            done = true;
        } else {
            let after = rest.substring_char(dot + 1, total);
            proof {
                assert(after@ == rest@.skip(dot + 1));
                assert(split_on(rest@, '.') == seq![chunk@] + split_on(after@, '.'));
                assert(split_on(rest@, '.').skip(1) == split_on(after@, '.'));
                assert(parts.skip(count as int).skip(1) == parts.skip(count + 1));
            }
            rest = after;
        }
        count = count + 1;
    }
    if count != 4 {
        return Err("invalid ipv4 address");
    }
    proof {
        assert(octets =~= ipv4_value(value@)->0);
    }
    Ok(octets)
}

/// The dotted form of an IPv4 address.
pub open spec fn ipv4_text(ip: [u8; 4]) -> Seq<char> {
    decimal(ip[0] as nat) + "."@ + decimal(ip[1] as nat) + "."@ + decimal(ip[2] as nat) + "."@
        + decimal(ip[3] as nat)
}

/// The colon-separated form of a MAC address.
pub open spec fn mac_text(mac: [u8; 6]) -> Seq<char> {
    hex_byte(mac[0]) + ":"@ + hex_byte(mac[1]) + ":"@ + hex_byte(mac[2]) + ":"@ + hex_byte(mac[3])
        + ":"@ + hex_byte(mac[4]) + ":"@ + hex_byte(mac[5])
}

/// The address part of a rendered configuration.
pub open spec fn address_text(mode: AddressMode) -> Seq<char> {
    match mode {
        AddressMode::Dhcp => "ip=dhcp "@,
        AddressMode::Static(ipv4) => "ip=static "@ + ipv4_text(ipv4.address) + "/"@ + decimal(
            ipv4.prefix_len as nat,
        ) + " gw="@ + ipv4_text(ipv4.gateway) + " dns="@ + ipv4_text(ipv4.dns) + " "@,
    }
}

/// The role part of a rendered configuration.
pub open spec fn bridge_text(mode: BridgeMode) -> Seq<char> {
    match mode {
        BridgeMode::TcpClient { host, port } => "mode=client dest="@ + ipv4_text(host) + ":"@
            + decimal(port as nat),
        BridgeMode::TcpServer { port } => "mode=server listen="@ + decimal(port as nat),
    }
}

/// The upstream part of a rendered configuration.
pub open spec fn upstream_text(mode: UpstreamMode) -> Seq<char> {
    match mode {
        UpstreamMode::Uart => " upstream=uart"@,
        UpstreamMode::I2c => " upstream=i2c"@,
        UpstreamMode::Usb => " upstream=usb"@,
        UpstreamMode::Test => " upstream=test"@,
        UpstreamMode::Spi => " upstream=spi"@,
        UpstreamMode::SpiEcho => " upstream=spi_echo"@,
        UpstreamMode::SpiStatic => " upstream=spi_static"@,
        UpstreamMode::SpiLineHigh => " upstream=spi_line_high"@,
    }
}

/// The one-line summary of a configuration.
pub open spec fn config_text(config: BridgeConfig) -> Seq<char> {
    "mac="@ + mac_text(config.mac_address) + " "@ + address_text(config.address_mode) + bridge_text(
        config.bridge_mode,
    ) + upstream_text(config.upstream_mode)
}

/// Digits hold no separator.
proof fn digits_hold_no(s: Seq<char>, c: char)
    requires
        all_digits(s),
        !is_digit(c),
    ensures
        !s.contains(c),
{
}

/// An address reads back from its dotted form, which holds no slash.
pub proof fn shown_address_reads_back(ip: [u8; 4])
    ensures
        ipv4_value(ipv4_text(ip)) == Some(ip),
        !ipv4_text(ip).contains('/'),
{
    reveal_strlit(".");
    assert("."@ =~= seq!['.']);
    let (a, b, c, d) = (
        decimal(ip[0] as nat),
        decimal(ip[1] as nat),
        decimal(ip[2] as nat),
        decimal(ip[3] as nat),
    );
    decimal_reads_back(ip[0] as nat, 255);
    decimal_reads_back(ip[1] as nat, 255);
    decimal_reads_back(ip[2] as nat, 255);
    decimal_reads_back(ip[3] as nat, 255);
    digits_hold_no(a, '.');
    digits_hold_no(b, '.');
    digits_hold_no(c, '.');
    digits_hold_no(d, '.');
    let from_c = c + seq!['.'] + d;
    let from_b = b + seq!['.'] + from_c;
    let from_a = a + seq!['.'] + from_b;
    split_first(d, Seq::empty(), '.');
    split_first(c, d, '.');
    split_first(b, from_c, '.');
    split_first(a, from_b, '.');
    assert(ipv4_text(ip) =~= from_a);
    assert(split_on(from_a, '.') =~= seq![a, b, c, d]);
    assert(ipv4_value(ipv4_text(ip))->0@ =~= ip@);
    assert(ipv4_value(ipv4_text(ip))->0 == ip);
    assert forall|i: int| 0 <= i < ipv4_text(ip).len() implies ipv4_text(ip)[i] != '/' by {
        assert(is_digit(from_a[i]) || from_a[i] == '.');
    }
}

/// Static settings with a valid prefix read back from the form in which they are shown.
pub proof fn shown_settings_read_back(ipv4: Ipv4Config)
    requires
        ipv4.prefix_len <= 32,
    ensures
        static_value(
            ipv4_text(ipv4.address) + "/"@ + decimal(ipv4.prefix_len as nat),
            ipv4_text(ipv4.gateway),
            ipv4_text(ipv4.dns),
        ) == Ok::<Ipv4Config, Seq<char>>(ipv4),
{
    reveal_strlit("/");
    assert("/"@ =~= seq!['/']);
    let address = ipv4_text(ipv4.address);
    let prefix = decimal(ipv4.prefix_len as nat);
    let cidr = address + "/"@ + prefix;
    shown_address_reads_back(ipv4.address);
    shown_address_reads_back(ipv4.gateway);
    shown_address_reads_back(ipv4.dns);
    decimal_reads_back(ipv4.prefix_len as nat, 255);
    split_first(address, prefix, '/');
    assert(cidr =~= address + seq!['/'] + prefix);
    assert(cidr.take(address.len() as int) =~= address);
    assert(cidr.skip(address.len() as int + 1) =~= prefix);
}

/// A command never changes the MAC address or the UART, and applying it again changes nothing more.
pub proof fn commands_settle(config: BridgeConfig, cmd: Command)
    ensures
        command_applied(config, cmd).mac_address == config.mac_address,
        command_applied(config, cmd).uart_port == config.uart_port,
        command_applied(command_applied(config, cmd), cmd) == command_applied(config, cmd),
{
}

/// A command changes the one setting it names, to the value it gives, and leaves every other
/// setting alone.
pub proof fn commands_change_only_what_they_name(config: BridgeConfig, cmd: Command)
    ensures
        ({
            let after = command_applied(config, cmd);
            let sets_address = cmd is SetDhcp || cmd is SetStatic;
            let sets_bridge = cmd is SetClient || cmd is SetServer;
            &&& after.mac_address == config.mac_address
            &&& after.uart_port == config.uart_port
            &&& !sets_address ==> after.address_mode == config.address_mode
            &&& !sets_bridge ==> after.bridge_mode == config.bridge_mode
            &&& !(cmd is SetUpstream) ==> after.upstream_mode == config.upstream_mode
            &&& match cmd {
                Command::SetDhcp => after.address_mode is Dhcp,
                Command::SetStatic(ipv4) => after.address_mode == AddressMode::Static(ipv4),
                Command::SetClient { host, port } => after.bridge_mode == (BridgeMode::TcpClient {
                    host,
                    port,
                }),
                Command::SetServer { port } => after.bridge_mode == (BridgeMode::TcpServer { port }),
                Command::SetUpstream(mode) => after.upstream_mode == mode,
                _ => after == config,
            }
        }),
{
}

/// Two commands that set different settings can be given in either order, and of two that set the
/// same one the later counts.
pub proof fn commands_for_different_settings_commute(
    config: BridgeConfig,
    first: Command,
    second: Command,
)
    ensures
        ({
            let names = |cmd: Command| match cmd {
                Command::SetDhcp | Command::SetStatic(_) => 1int,
                Command::SetClient { host, port } => 2int,
                Command::SetServer { port } => 2int,
                Command::SetUpstream(_) => 3int,
                _ => 0int,
            };
            let both = command_applied(command_applied(config, first), second);
            &&& names(first) != names(second) ==> both == command_applied(
                command_applied(config, second),
                first,
            )
            &&& names(first) == names(second) ==> both == command_applied(config, second)
        }),
{
}

/// The text of a number is one word.
proof fn number_is_word(n: nat)
    ensures
        is_word(decimal(n)),
{
    decimal_reads_back(n, n);
    assert forall|i: int| 0 <= i < decimal(n).len() implies !is_white_space(
        #[trigger] decimal(n)[i],
    ) by {
        assert(is_digit(decimal(n)[i]));
    }
}

/// The text of an address is one word.
proof fn address_is_word(ip: [u8; 4])
    ensures
        is_word(ipv4_text(ip)),
{
    reveal_strlit(".");
    number_is_word(ip[0] as nat);
    number_is_word(ip[1] as nat);
    number_is_word(ip[2] as nat);
    number_is_word(ip[3] as nat);
    word_joins(decimal(ip[0] as nat), "."@);
    word_joins(decimal(ip[0] as nat) + "."@, decimal(ip[1] as nat));
    word_joins(decimal(ip[0] as nat) + "."@ + decimal(ip[1] as nat), "."@);
    word_joins(decimal(ip[0] as nat) + "."@ + decimal(ip[1] as nat) + "."@, decimal(ip[2] as nat));
    word_joins(
        decimal(ip[0] as nat) + "."@ + decimal(ip[1] as nat) + "."@ + decimal(ip[2] as nat),
        "."@,
    );
    word_joins(
        decimal(ip[0] as nat) + "."@ + decimal(ip[1] as nat) + "."@ + decimal(ip[2] as nat) + "."@,
        decimal(ip[3] as nat),
    );
}

/// Two words without a space between them are one word.
proof fn word_joins(a: Seq<char>, b: Seq<char>)
    requires
        is_word(a),
        is_word(b),
    ensures
        is_word(a + b),
{
    assert forall|i: int| 0 <= i < (a + b).len() implies !is_white_space(#[trigger] (a + b)[i]) by {
        if i < a.len() {
            assert((a + b)[i] == a[i]);
        } else {
            assert((a + b)[i] == b[i - a.len()]);
        }
    }
}

/// The words of a line written with single spaces.
pub proof fn spaced_words(parts: Seq<Seq<char>>)
    requires
        parts.len() > 0,
        forall|i: int| 0 <= i < parts.len() ==> is_word(#[trigger] parts[i]),
    ensures
        words(spaced(parts)) == parts,
        shell_words(spaced(parts)) == parts,
    decreases parts.len(),
{
    let rest = parts.drop_first();
    assert(is_word(parts[0]));
    words_between_spaces(parts[0], spaced(rest));
    if rest.len() > 0 {
        assert forall|i: int| 0 <= i < rest.len() implies is_word(#[trigger] rest[i]) by {
            assert(rest[i] == parts[i + 1]);
        }
        spaced_words(rest);
        assert(seq![parts[0]] + rest =~= parts);
    } else {
        assert(seq![parts[0]] =~= parts);
    }
    assert forall|i: int| 0 <= i < parts.len() implies trimmed(
        TrimSet::WhiteSpace,
        #[trigger] parts[i],
    ) == parts[i] by {
        words_between_spaces(parts[i], Seq::empty());
    }
    assert(shell_words(spaced(parts)) =~= parts);
}

/// A line that holds the given words with a space between each two.
pub open spec fn spaced(parts: Seq<Seq<char>>) -> Seq<char>
    decreases parts.len(),
{
    if parts.len() == 0 {
        Seq::empty()
    } else if parts.len() == 1 {
        parts[0]
    } else {
        parts[0] + seq![' '] + spaced(parts.drop_first())
    }
}

/// DHCP can be switched on by a line.
pub proof fn typed_dhcp_is_understood()
    ensures
        command_value(shell_words(spaced(seq!["set"@, "dhcp"@]))) == Ok::<Command, Seq<char>>(
            Command::SetDhcp,
        ),
{
    reveal_strlit("set");
    reveal_strlit("dhcp");
    spaced_words(seq!["set"@, "dhcp"@]);
}

/// Every server port can be typed, and comes out as the number that was typed. Larger numbers are
/// refused.
pub proof fn typed_server_is_understood(number: nat)
    ensures
        ({
            let line = spaced(seq!["set"@, "server"@, decimal(number)]);
            if number <= u16::MAX {
                command_value(shell_words(line)) == Ok::<Command, Seq<char>>(
                    Command::SetServer { port: number as u16 },
                )
            } else {
                command_value(shell_words(line)) == Err::<Command, Seq<char>>("invalid port"@)
            }
        }),
{
    reveal_strlit("set");
    reveal_strlit("server");
    reveal_strlit("client");
    number_is_word(number);
    decimal_reads_back(number, number);
    let w = seq!["set"@, "server"@, decimal(number)];
    spaced_words(w);
    assert(decimal(number)[0] != '+') by {
        assert(is_digit(decimal(number)[0]));
    }
}

/// Every destination can be typed, and comes out as the address and the number that were typed.
/// Larger numbers are refused.
pub proof fn typed_client_is_understood(host: [u8; 4], number: nat)
    ensures
        ({
            let line = spaced(seq!["set"@, "client"@, ipv4_text(host), decimal(number)]);
            if number <= u16::MAX {
                command_value(shell_words(line)) == Ok::<Command, Seq<char>>(
                    Command::SetClient { host, port: number as u16 },
                )
            } else {
                command_value(shell_words(line)) == Err::<Command, Seq<char>>("invalid port"@)
            }
        }),
{
    reveal_strlit("set");
    reveal_strlit("client");
    number_is_word(number);
    address_is_word(host);
    shown_address_reads_back(host);
    decimal_reads_back(number, number);
    let w = seq!["set"@, "client"@, ipv4_text(host), decimal(number)];
    spaced_words(w);
    assert(decimal(number)[0] != '+') by {
        assert(is_digit(decimal(number)[0]));
    }
}

/// Every static setting can be typed, and comes out as it was typed. A prefix of more than 32 bits is
/// refused.
#[verifier::rlimit(30)]
pub proof fn typed_static_is_understood(ipv4: Ipv4Config)
    ensures
        ({
            let cidr = ipv4_text(ipv4.address) + "/"@ + decimal(ipv4.prefix_len as nat);
            let line = spaced(
                seq!["set"@, "static"@, cidr, ipv4_text(ipv4.gateway), ipv4_text(ipv4.dns)],
            );
            if ipv4.prefix_len <= 32 {
                command_value(shell_words(line)) == Ok::<Command, Seq<char>>(
                    Command::SetStatic(ipv4),
                )
            } else {
                command_value(shell_words(line)) == Err::<Command, Seq<char>>("invalid prefix"@)
            }
        }),
{
    assert(is_word("set"@) && is_word("static"@) && "/"@ == seq!['/'] && is_word("/"@)) by {
        reveal_strlit("set");
        reveal_strlit("static");
        reveal_strlit("/");
        assert("/"@ =~= seq!['/']);
    }
    let address = ipv4_text(ipv4.address);
    let prefix = decimal(ipv4.prefix_len as nat);
    let cidr = address + "/"@ + prefix;
    address_is_word(ipv4.address);
    address_is_word(ipv4.gateway);
    address_is_word(ipv4.dns);
    number_is_word(ipv4.prefix_len as nat);
    word_joins(address, "/"@);
    word_joins(address + "/"@, prefix);
    let w = seq!["set"@, "static"@, cidr, ipv4_text(ipv4.gateway), ipv4_text(ipv4.dns)];
    spaced_words(w);
    decimal_reads_back(ipv4.prefix_len as nat, 255);
    if ipv4.prefix_len <= 32 {
        shown_settings_read_back(ipv4);
    } else {
        shown_address_reads_back(ipv4.address);
        split_first(address, prefix, '/');
        assert(cidr.skip(address.len() as int + 1) =~= prefix);
    }
}

/// An upstream is set by the name under which it is shown. The ones without a name in the shell are
/// refused.
pub proof fn shown_upstream_is_understood(mode: UpstreamMode)
    ensures
        upstream_text(mode).take(10) == " upstream="@,
        ({
            let name = upstream_text(mode).skip(10);
            let outcome = command_value(shell_words(spaced(seq!["set"@, "upstream"@, name])));
            match mode {
                UpstreamMode::Usb | UpstreamMode::SpiStatic | UpstreamMode::SpiLineHigh => outcome
                    == Err::<Command, Seq<char>>("unknown command"@),
                _ => outcome == Ok::<Command, Seq<char>>(Command::SetUpstream(mode)),
            }
        }),
{
    upstream_is_word(mode);
    reveal_strlit("set");
    reveal_strlit("upstream");
    reveal_strlit("server");
    reveal_strlit("uart");
    reveal_strlit("i2c");
    reveal_strlit("spi");
    reveal_strlit("spi_echo");
    reveal_strlit("spiecho");
    reveal_strlit("test");
    reveal_strlit(" upstream=uart");
    reveal_strlit(" upstream=i2c");
    reveal_strlit(" upstream=usb");
    reveal_strlit(" upstream=test");
    reveal_strlit(" upstream=spi");
    reveal_strlit(" upstream=spi_echo");
    reveal_strlit(" upstream=spi_static");
    reveal_strlit(" upstream=spi_line_high");
    let name = upstream_text(mode).skip(10);
    spaced_words(seq!["set"@, "upstream"@, name]);
    match mode {
        UpstreamMode::Uart => assert(name =~= "uart"@),
        UpstreamMode::I2c => assert(name =~= "i2c"@),
        UpstreamMode::Usb => assert(name[0] == 'u' && name.len() == 3),
        UpstreamMode::Test => assert(name =~= "test"@),
        UpstreamMode::Spi => assert(name =~= "spi"@),
        UpstreamMode::SpiEcho => assert(name =~= "spi_echo"@),
        UpstreamMode::SpiStatic => assert(name.len() == 10),
        UpstreamMode::SpiLineHigh => assert(name.len() == 13),
    }
}

/// The shown upstream starts with its label, and its name is one word.
proof fn upstream_is_word(mode: UpstreamMode)
    ensures
        upstream_text(mode).len() > 10,
        upstream_text(mode).take(10) == " upstream="@,
        upstream_text(mode) == seq![' '] + upstream_text(mode).skip(1),
        is_word(upstream_text(mode).skip(1)),
        is_word(upstream_text(mode).skip(10)),
{
    reveal_strlit(" upstream=");
    reveal_strlit(" upstream=uart");
    reveal_strlit(" upstream=i2c");
    reveal_strlit(" upstream=usb");
    reveal_strlit(" upstream=test");
    reveal_strlit(" upstream=spi");
    reveal_strlit(" upstream=spi_echo");
    reveal_strlit(" upstream=spi_static");
    reveal_strlit(" upstream=spi_line_high");
    assert(upstream_text(mode).take(10) =~= " upstream="@);
    assert(upstream_text(mode) =~= seq![' '] + upstream_text(mode).skip(1));
}

/// The text of a MAC address is one word.
proof fn mac_is_word(mac: [u8; 6])
    ensures
        is_word(mac_text(mac)),
{
    reveal_strlit(":");
    let text = mac_text(mac);
    assert forall|i: int| 0 <= i < text.len() implies !is_white_space(#[trigger] text[i]) by {
    }
}

/// The words of a shown configuration are its settings, each under its label: the MAC address, then
/// the address, then the role with its peer, and the upstream last.
pub proof fn shown_config_holds_its_settings(config: BridgeConfig)
    ensures
        ({
            let address = match config.address_mode {
                AddressMode::Dhcp => seq!["ip=dhcp"@],
                AddressMode::Static(ipv4) => seq![
                    "ip=static"@,
                    ipv4_text(ipv4.address) + "/"@ + decimal(ipv4.prefix_len as nat),
                    "gw="@ + ipv4_text(ipv4.gateway),
                    "dns="@ + ipv4_text(ipv4.dns),
                ],
            };
            let role = match config.bridge_mode {
                BridgeMode::TcpClient { host, port } => seq![
                    "mode=client"@,
                    "dest="@ + ipv4_text(host) + ":"@ + decimal(port as nat),
                ],
                BridgeMode::TcpServer { port } => seq![
                    "mode=server"@,
                    "listen="@ + decimal(port as nat),
                ],
            };
            config_text(config) == spaced(
                seq!["mac="@ + mac_text(config.mac_address)] + address + role + seq![
                    upstream_text(config.upstream_mode).skip(1),
                ],
            )
        }),
        words(config_text(config)).len() == (if config.address_mode is Dhcp { 5int } else { 8int }),
        words(config_text(config))[0] == "mac="@ + mac_text(config.mac_address),
        words(config_text(config)).last() == upstream_text(config.upstream_mode).skip(1),
{
    reveal_strlit("mac=");
    reveal_strlit("ip=dhcp");
    reveal_strlit("ip=dhcp ");
    reveal_strlit(" ");
    let mac = "mac="@ + mac_text(config.mac_address);
    mac_is_word(config.mac_address);
    word_joins("mac="@, mac_text(config.mac_address));
    let role = role_words(config.bridge_mode);
    let last = seq![upstream_text(config.upstream_mode).skip(1)];
    let tail = role + last;
    shown_role_holds_its_settings(config.bridge_mode, config.upstream_mode);
    match config.address_mode {
        AddressMode::Dhcp => {
            let rest = seq!["ip=dhcp"@] + tail;
            let all = seq![mac] + rest;
            assert(all =~= seq![mac] + seq!["ip=dhcp"@] + role + last);
            spaced_first("ip=dhcp"@, tail);
            spaced_first(mac, rest);
            four_pieces(
                mac,
                "ip=dhcp "@,
                bridge_text(config.bridge_mode),
                upstream_text(config.upstream_mode),
            );
            assert("ip=dhcp "@ =~= "ip=dhcp"@ + seq![' ']);
            spaced_words(all);
        },
        AddressMode::Static(ipv4) => {
            let address = static_words(ipv4);
            let rest = address + tail;
            let all = seq![mac] + rest;
            assert(all =~= seq![mac] + address + role + last);
            shown_static_holds_its_settings(ipv4, tail);
            spaced_first(mac, rest);
            four_pieces(
                mac,
                address_text(config.address_mode),
                bridge_text(config.bridge_mode),
                upstream_text(config.upstream_mode),
            );
            assert forall|i: int| 0 <= i < all.len() implies is_word(#[trigger] all[i]) by {
                if 1 <= i < 5 {
                    assert(all[i] == address[i - 1]);
                }
            }
            spaced_words(all);
        },
    }
}

proof fn four_pieces(a: Seq<char>, b: Seq<char>, c: Seq<char>, d: Seq<char>)
    ensures
        a + seq![' '] + (b + (c + d)) == a + " "@ + b + c + d,
{
    reveal_strlit(" ");
    assert(" "@ =~= seq![' ']);
    assert(a + seq![' '] + (b + (c + d)) =~= a + " "@ + b + c + d);
}

/// The words in which a role is shown.
spec fn role_words(mode: BridgeMode) -> Seq<Seq<char>> {
    match mode {
        BridgeMode::TcpClient { host, port } => seq![
            "mode=client"@,
            "dest="@ + ipv4_text(host) + ":"@ + decimal(port as nat),
        ],
        BridgeMode::TcpServer { port } => seq!["mode=server"@, "listen="@ + decimal(port as nat)],
    }
}

/// The words in which static settings are shown.
spec fn static_words(ipv4: Ipv4Config) -> Seq<Seq<char>> {
    seq![
        "ip=static"@,
        ipv4_text(ipv4.address) + "/"@ + decimal(ipv4.prefix_len as nat),
        "gw="@ + ipv4_text(ipv4.gateway),
        "dns="@ + ipv4_text(ipv4.dns),
    ]
}

/// A word in front of others makes one line with them, with a space between.
pub proof fn spaced_first(first: Seq<char>, rest: Seq<Seq<char>>)
    requires
        rest.len() > 0,
    ensures
        spaced(seq![first] + rest) == first + seq![' '] + spaced(rest),
{
    assert((seq![first] + rest).drop_first() =~= rest);
}

proof fn shown_role_holds_its_settings(bridge: BridgeMode, upstream: UpstreamMode)
    ensures
        spaced(role_words(bridge) + seq![upstream_text(upstream).skip(1)]) == bridge_text(bridge)
            + upstream_text(upstream),
        is_word(role_words(bridge)[0]),
        is_word(role_words(bridge)[1]),
        is_word(upstream_text(upstream).skip(1)),
{
    reveal_strlit("mode=client dest=");
    reveal_strlit("mode=client");
    reveal_strlit("dest=");
    reveal_strlit(":");
    reveal_strlit("mode=server listen=");
    reveal_strlit("mode=server");
    reveal_strlit("listen=");
    let role = role_words(bridge);
    let last = upstream_text(upstream).skip(1);
    upstream_is_word(upstream);
    match bridge {
        BridgeMode::TcpClient { host, port } => {
            address_is_word(host);
            number_is_word(port as nat);
            word_joins("dest="@, ipv4_text(host));
            word_joins("dest="@ + ipv4_text(host), ":"@);
            word_joins("dest="@ + ipv4_text(host) + ":"@, decimal(port as nat));
            assert("mode=client dest="@ =~= "mode=client"@ + seq![' '] + "dest="@);
        },
        BridgeMode::TcpServer { port } => {
            number_is_word(port as nat);
            word_joins("listen="@, decimal(port as nat));
            assert("mode=server listen="@ =~= "mode=server"@ + seq![' '] + "listen="@);
        },
    }
    assert(bridge_text(bridge) =~= role[0] + seq![' '] + role[1]);
    assert(role + seq![last] =~= seq![role[0]] + (seq![role[1]] + seq![last]));
    spaced_first(role[1], seq![last]);
    spaced_first(role[0], seq![role[1]] + seq![last]);
    assert(spaced(role + seq![last]) =~= bridge_text(bridge) + upstream_text(upstream));
}

proof fn shown_static_holds_its_settings(ipv4: Ipv4Config, tail: Seq<Seq<char>>)
    requires
        tail.len() > 0,
    ensures
        spaced(static_words(ipv4) + tail) == address_text(AddressMode::Static(ipv4)) + spaced(tail),
        forall|i: int| 0 <= i < 4 ==> is_word(#[trigger] static_words(ipv4)[i]),
{
    reveal_strlit("ip=static");
    reveal_strlit("ip=static ");
    reveal_strlit("/");
    reveal_strlit(" gw=");
    reveal_strlit("gw=");
    reveal_strlit(" dns=");
    reveal_strlit("dns=");
    reveal_strlit(" ");
    let cidr = ipv4_text(ipv4.address) + "/"@ + decimal(ipv4.prefix_len as nat);
    let gateway = "gw="@ + ipv4_text(ipv4.gateway);
    let dns = "dns="@ + ipv4_text(ipv4.dns);
    address_is_word(ipv4.address);
    address_is_word(ipv4.gateway);
    address_is_word(ipv4.dns);
    number_is_word(ipv4.prefix_len as nat);
    word_joins(ipv4_text(ipv4.address), "/"@);
    word_joins(ipv4_text(ipv4.address) + "/"@, decimal(ipv4.prefix_len as nat));
    word_joins("gw="@, ipv4_text(ipv4.gateway));
    word_joins("dns="@, ipv4_text(ipv4.dns));
    assert("ip=static "@ =~= "ip=static"@ + seq![' ']);
    assert(" gw="@ =~= seq![' '] + "gw="@);
    assert(" dns="@ =~= seq![' '] + "dns="@);
    assert(" "@ =~= seq![' ']);
    spaced_four("ip=static"@, cidr, gateway, dns, tail);
    label_pieces(
        "ip=static"@,
        ipv4_text(ipv4.address) + "/"@ + decimal(ipv4.prefix_len as nat),
        "gw="@,
        ipv4_text(ipv4.gateway),
        "dns="@,
        ipv4_text(ipv4.dns),
    );
    let front = ipv4_text(ipv4.address);
    let back = decimal(ipv4.prefix_len as nat);
    assert("ip=static "@ + front + "/"@ + back =~= "ip=static "@ + (front + "/"@ + back));
}

proof fn spaced_four(
    a: Seq<char>,
    b: Seq<char>,
    c: Seq<char>,
    d: Seq<char>,
    tail: Seq<Seq<char>>,
)
    requires
        tail.len() > 0,
    ensures
        spaced(seq![a, b, c, d] + tail) == (a + seq![' '] + b + seq![' '] + c + seq![' '] + d
            + seq![' ']) + spaced(tail),
{
    let from_d = seq![d] + tail;
    let from_c = seq![c] + from_d;
    let from_b = seq![b] + from_c;
    spaced_first(d, tail);
    spaced_first(c, from_d);
    spaced_first(b, from_c);
    spaced_first(a, from_b);
    assert(seq![a, b, c, d] + tail =~= seq![a] + from_b);
    let end = spaced(tail);
    let s = seq![' '];
    assert(a + s + (b + s + (c + s + (d + s + end))) =~= (a + s + b + s + c + s + d + s) + end);
}

proof fn label_pieces(
    a: Seq<char>,
    b: Seq<char>,
    c: Seq<char>,
    d: Seq<char>,
    e: Seq<char>,
    f: Seq<char>,
)
    ensures
        ({
            let s = seq![' '];
            (a + s) + b + (s + c) + d + (s + e) + f + s == a + s + b + s + (c + d) + s + (e + f) + s
        }),
{
    let s = seq![' '];
    assert((a + s) + b + (s + c) + d =~= a + s + b + s + (c + d));
    let head = (a + s) + b + (s + c) + d;
    assert(head + (s + e) + f + s =~= head + s + (e + f) + s);
}

/// A decimal octet takes at most three characters.
proof fn octet_width(n: u8)
    ensures
        1 <= decimal(n as nat).len() <= 3,
        is_ascii_chars(decimal(n as nat)),
{
    reveal_with_fuel(power_of_ten, 4);
    decimal_width(n as nat, 3);
}

/// A decimal port takes at most five characters.
proof fn port_width(n: u16)
    ensures
        1 <= decimal(n as nat).len() <= 5,
        is_ascii_chars(decimal(n as nat)),
{
    reveal_with_fuel(power_of_ten, 6);
    decimal_width(n as nat, 5);
}

/// The length of a dotted address.
proof fn address_width(ip: [u8; 4])
    ensures
        7 <= ipv4_text(ip).len() <= 15,
        is_ascii_chars(ipv4_text(ip)),
{
    reveal_strlit(".");
    octet_width(ip[0]);
    octet_width(ip[1]);
    octet_width(ip[2]);
    octet_width(ip[3]);
}

/// The length of a shown address mode.
proof fn address_mode_width(mode: AddressMode)
    ensures
        0 < address_text(mode).len() <= 69,
        is_ascii_chars(address_text(mode)),
{
    reveal_strlit("ip=dhcp ");
    reveal_strlit("ip=static ");
    reveal_strlit("/");
    reveal_strlit(" gw=");
    reveal_strlit(" dns=");
    reveal_strlit(" ");
    if let AddressMode::Static(ipv4) = mode {
        octet_width(ipv4.prefix_len);
        address_width(ipv4.address);
        address_width(ipv4.gateway);
        address_width(ipv4.dns);
    }
}

/// The length of a shown role.
proof fn bridge_mode_width(mode: BridgeMode)
    ensures
        0 < bridge_text(mode).len() <= 38,
        is_ascii_chars(bridge_text(mode)),
{
    reveal_strlit("mode=client dest=");
    reveal_strlit(":");
    reveal_strlit("mode=server listen=");
    match mode {
        BridgeMode::TcpClient { host, port } => {
            address_width(host);
            port_width(port);
        },
        BridgeMode::TcpServer { port } => {
            port_width(port);
        },
    }
}

/// The length of a shown upstream.
proof fn upstream_width(mode: UpstreamMode)
    ensures
        0 < upstream_text(mode).len() <= 23,
        is_ascii_chars(upstream_text(mode)),
{
    reveal_strlit(" upstream=uart");
    reveal_strlit(" upstream=i2c");
    reveal_strlit(" upstream=usb");
    reveal_strlit(" upstream=test");
    reveal_strlit(" upstream=spi");
    reveal_strlit(" upstream=spi_echo");
    reveal_strlit(" upstream=spi_static");
    reveal_strlit(" upstream=spi_line_high");
}

/// Every configuration is shown in ASCII, within the room of one line.
pub proof fn shown_config_fits(config: BridgeConfig)
    ensures
        0 < config_text(config).len() <= 152,
        is_ascii_chars(config_text(config)),
{
    address_mode_width(config.address_mode);
    bridge_mode_width(config.bridge_mode);
    upstream_width(config.upstream_mode);
    reveal_strlit("mac=");
    reveal_strlit(":");
    reveal_strlit(" ");
    let mac = "mac="@ + mac_text(config.mac_address) + " "@;
    assert(mac.len() == 22);
    assert(is_ascii_chars(mac));
}

/// Renders the current bridge configuration into a compact single-line summary.
pub fn render_config(config: &BridgeConfig) -> (out: heapless::String<160>)
    ensures
        text160(out) == config_text(*config),
        text160(out).len() <= 152,
        is_ascii_chars(text160(out)),
{
    let mut out = new160();
    proof {
        reveal_strlit("mac=");
    }
    append_text(&mut out, "mac=");
    push_mac(&mut out, config.mac_address);
    let ghost head = text160(out);
    append_ascii(&mut out, ' ');
    proof {
        reveal_strlit(" ");
        assert(text160(out) == head + " "@);
        assert(text160(out) == "mac="@ + mac_text(config.mac_address) + " "@);
    }
    push_address(&mut out, config.address_mode);
    push_bridge(&mut out, config.bridge_mode);
    push_upstream(&mut out, config.upstream_mode);
    out
}

fn push_address(out: &mut heapless::String<160>, mode: AddressMode)
    requires
        is_ascii_chars(text160(*old(out))),
        text160(*old(out)).len() <= 22,
    ensures
        text160(*final(out)) == text160(*old(out)) + address_text(mode),
        is_ascii_chars(text160(*final(out))),
        text160(*final(out)).len() <= text160(*old(out)).len() + 69,
{
    match mode {
        AddressMode::Dhcp => {
            proof {
                reveal_strlit("ip=dhcp ");
            }
            append_text(out, "ip=dhcp ");
        },
        AddressMode::Static(ipv4) => push_static(out, ipv4),
    }
}

fn push_static(out: &mut heapless::String<160>, ipv4: Ipv4Config)
    requires
        is_ascii_chars(text160(*old(out))),
        text160(*old(out)).len() <= 22,
    ensures
        text160(*final(out)) == text160(*old(out)) + address_text(AddressMode::Static(ipv4)),
        is_ascii_chars(text160(*final(out))),
        text160(*final(out)).len() <= text160(*old(out)).len() + 69,
{
    let ghost before = text160(*out);
    proof {
        octet_width(ipv4.prefix_len);
        reveal_strlit("ip=static ");
        reveal_strlit("/");
        reveal_strlit(" gw=");
        reveal_strlit(" dns=");
        reveal_strlit(" ");
    }
    append_text(out, "ip=static ");
    push_ipv4(out, ipv4.address);
    append_text(out, "/");
    append_decimal(out, ipv4.prefix_len as u64);
    append_text(out, " gw=");
    push_ipv4(out, ipv4.gateway);
    append_text(out, " dns=");
    push_ipv4(out, ipv4.dns);
    append_text(out, " ");
    assert(text160(*out) == before + address_text(AddressMode::Static(ipv4)));
}

fn push_bridge(out: &mut heapless::String<160>, mode: BridgeMode)
    requires
        is_ascii_chars(text160(*old(out))),
        text160(*old(out)).len() <= 91,
    ensures
        text160(*final(out)) == text160(*old(out)) + bridge_text(mode),
        is_ascii_chars(text160(*final(out))),
        text160(*final(out)).len() <= text160(*old(out)).len() + 38,
{
    let ghost before = text160(*out);
    match mode {
        BridgeMode::TcpClient { host, port } => {
            proof {
                port_width(port);
                reveal_strlit("mode=client dest=");
                reveal_strlit(":");
            }
            append_text(out, "mode=client dest=");
            push_ipv4(out, host);
            append_text(out, ":");
            append_decimal(out, port as u64);
        },
        BridgeMode::TcpServer { port } => {
            proof {
                port_width(port);
                reveal_strlit("mode=server listen=");
            }
            append_text(out, "mode=server listen=");
            append_decimal(out, port as u64);
        },
    }
    assert(text160(*out) == before + bridge_text(mode));
}

fn push_upstream(out: &mut heapless::String<160>, mode: UpstreamMode)
    requires
        is_ascii_chars(text160(*old(out))),
        text160(*old(out)).len() <= 129,
    ensures
        text160(*final(out)) == text160(*old(out)) + upstream_text(mode),
        is_ascii_chars(text160(*final(out))),
        text160(*final(out)).len() <= text160(*old(out)).len() + 23,
{
    proof {
        reveal_strlit(" upstream=uart");
        reveal_strlit(" upstream=i2c");
        reveal_strlit(" upstream=usb");
        reveal_strlit(" upstream=test");
        reveal_strlit(" upstream=spi");
        reveal_strlit(" upstream=spi_echo");
        reveal_strlit(" upstream=spi_static");
        reveal_strlit(" upstream=spi_line_high");
    }
    match mode {
        UpstreamMode::Uart => append_text(out, " upstream=uart"),
        UpstreamMode::I2c => append_text(out, " upstream=i2c"),
        UpstreamMode::Usb => append_text(out, " upstream=usb"),
        UpstreamMode::Test => append_text(out, " upstream=test"),
        UpstreamMode::Spi => append_text(out, " upstream=spi"),
        UpstreamMode::SpiEcho => append_text(out, " upstream=spi_echo"),
        UpstreamMode::SpiStatic => append_text(out, " upstream=spi_static"),
        UpstreamMode::SpiLineHigh => append_text(out, " upstream=spi_line_high"),
    }
}

/// Appends a dotted-quad IPv4 address to the config render buffer.
fn push_ipv4(out: &mut heapless::String<160>, ip: [u8; 4])
    requires
        is_ascii_chars(text160(*old(out))),
        text160(*old(out)).len() <= 145,
    ensures
        text160(*final(out)) == text160(*old(out)) + ipv4_text(ip),
        is_ascii_chars(text160(*final(out))),
        text160(*final(out)).len() <= text160(*old(out)).len() + 15,
{
    let ghost before = text160(*out);
    proof {
        octet_width(ip[0]);
        octet_width(ip[1]);
        octet_width(ip[2]);
        octet_width(ip[3]);
        reveal_strlit(".");
    }
    append_decimal(out, ip[0] as u64);
    append_text(out, ".");
    append_decimal(out, ip[1] as u64);
    append_text(out, ".");
    append_decimal(out, ip[2] as u64);
    append_text(out, ".");
    append_decimal(out, ip[3] as u64);
    assert(text160(*out) == before + ipv4_text(ip));
}

/// Appends a colon-separated MAC address to the config render buffer.
fn push_mac(out: &mut heapless::String<160>, mac: [u8; 6])
    requires
        is_ascii_chars(text160(*old(out))),
        text160(*old(out)).len() <= 143,
    ensures
        text160(*final(out)) == text160(*old(out)) + mac_text(mac),
        is_ascii_chars(text160(*final(out))),
        text160(*final(out)).len() == text160(*old(out)).len() + 17,
{
    let ghost before = text160(*out);
    proof {
        reveal_strlit(":");
    }
    append_hex_byte(out, mac[0]);
    append_text(out, ":");
    append_hex_byte(out, mac[1]);
    append_text(out, ":");
    append_hex_byte(out, mac[2]);
    append_text(out, ":");
    append_hex_byte(out, mac[3]);
    append_text(out, ":");
    append_hex_byte(out, mac[4]);
    append_text(out, ":");
    append_hex_byte(out, mac[5]);
    assert(text160(*out) == before + mac_text(mac));
}

/// Four numbers with dots between them are an address exactly when none is above 255, and other
/// counts of numbers are none.
pub proof fn addresses_have_four_octets(a: nat, b: nat, c: nat, d: nat, e: nat)
    ensures
        ({
            let three = decimal(a) + seq!['.'] + (decimal(b) + seq!['.'] + decimal(c));
            let four = decimal(a) + seq!['.'] + (decimal(b) + seq!['.'] + (decimal(c) + seq!['.']
                + decimal(d)));
            let five = decimal(a) + seq!['.'] + (decimal(b) + seq!['.'] + (decimal(c) + seq!['.']
                + (decimal(d) + seq!['.'] + decimal(e))));
            &&& ipv4_value(four) is Some <==> a <= 255 && b <= 255 && c <= 255 && d <= 255
            &&& ipv4_value(four) matches Some(ip) ==> ip@ == seq![a as u8, b as u8, c as u8, d as u8]
            &&& ipv4_value(three) is None
            &&& ipv4_value(five) is None
        }),
{
    octet_is_read(a);
    octet_is_read(b);
    octet_is_read(c);
    octet_is_read(d);
    octet_is_read(e);
    let (p, q, r, s, t) = (decimal(a), decimal(b), decimal(c), decimal(d), decimal(e));
    let three = p + seq!['.'] + (q + seq!['.'] + r);
    let four = p + seq!['.'] + (q + seq!['.'] + (r + seq!['.'] + s));
    let five = p + seq!['.'] + (q + seq!['.'] + (r + seq!['.'] + (s + seq!['.'] + t)));
    split_first(t, Seq::empty(), '.');
    split_first(s, t, '.');
    split_first(s, Seq::empty(), '.');
    split_first(r, s + seq!['.'] + t, '.');
    split_first(r, s, '.');
    split_first(r, Seq::empty(), '.');
    split_first(q, r + seq!['.'] + (s + seq!['.'] + t), '.');
    split_first(q, r + seq!['.'] + s, '.');
    split_first(q, r, '.');
    split_first(p, q + seq!['.'] + (r + seq!['.'] + (s + seq!['.'] + t)), '.');
    split_first(p, q + seq!['.'] + (r + seq!['.'] + s), '.');
    split_first(p, q + seq!['.'] + r, '.');
    assert(split_on(three, '.') =~= seq![p, q, r]);
    assert(split_on(four, '.') =~= seq![p, q, r, s]);
    assert(split_on(five, '.') =~= seq![p, q, r, s, t]);
    if let Some(ip) = ipv4_value(four) {
        assert(ip@ =~= seq![a as u8, b as u8, c as u8, d as u8]);
    }
}

proof fn octet_is_read(n: nat)
    ensures
        !decimal(n).contains('.'),
        unsigned_value(decimal(n), 255) == if n <= 255 {
            Some(n)
        } else {
            None
        },
{
    decimal_reads_back(n, n);
    digits_hold_no(decimal(n), '.');
    assert(is_digit(decimal(n)[0]));
}

/// Each command comes only from its own words, with as many values as it takes.
pub proof fn commands_need_their_words(w: Seq<Seq<char>>)
    ensures
        match command_value(w) {
            Ok(Command::Help) => w == seq!["help"@],
            Ok(Command::Show) => w == seq!["show"@],
            Ok(Command::Start) => w == seq!["start"@],
            Ok(Command::Reset) => w == seq!["reset"@],
            Ok(Command::SetDhcp) => w == seq!["set"@, "dhcp"@],
            Ok(Command::SetStatic(ipv4)) => {
                &&& w.len() == 5 && w[0] == "set"@ && w[1] == "static"@
                &&& ipv4.prefix_len <= 32
                &&& ipv4_value(w[3]) == Some(ipv4.gateway)
                &&& ipv4_value(w[4]) == Some(ipv4.dns)
            },
            Ok(Command::SetClient { host, port }) => {
                &&& w.len() == 4 && w[0] == "set"@ && w[1] == "client"@
                &&& ipv4_value(w[2]) == Some(host)
                &&& unsigned_value(w[3], 65535) == Some(port as nat)
            },
            Ok(Command::SetServer { port }) => {
                &&& w.len() == 3 && w[0] == "set"@ && w[1] == "server"@
                &&& unsigned_value(w[2], 65535) == Some(port as nat)
            },
            Ok(Command::SetUpstream(mode)) => {
                &&& w.len() == 3 && w[0] == "set"@ && w[1] == "upstream"@
                &&& upstream_value(w[2]) == Some(mode)
            },
            Err(message) => w.len() == 0 <==> message == "empty command"@,
        },
{
    let made = command_value(w);
    if w.len() == 1 {
        assert(w =~= seq![w[0]]);
    }
    if w.len() == 2 {
        assert(w =~= seq![w[0], w[1]]);
    }
    assert("empty command"@.len() == 13) by {
        reveal_strlit("empty command");
    }
    assert("unknown command"@.len() == 15 && "invalid port"@.len() == 12 && "invalid prefix"@.len()
        == 14 && "invalid ipv4 address"@.len() == 20
        && "expected cidr form a.b.c.d/prefix"@.len() == 33) by {
        reveal_strlit("unknown command");
        reveal_strlit("invalid port");
        reveal_strlit("invalid prefix");
        reveal_strlit("invalid ipv4 address");
        reveal_strlit("expected cidr form a.b.c.d/prefix");
    }
}

} // verus!
