//! Build settings: from the fields of a settings file to the compiled configuration.

use crate::config::ipv4_text;
use crate::config::ipv4_value;
use crate::config::mac_text;
use crate::config::parse_ipv4;
use crate::config::shown_address_reads_back;
use crate::config::upstream_text;
use crate::config::AddressMode;
use crate::config::BridgeConfig;
use crate::config::BridgeMode;
use crate::config::Ipv4Config;
use crate::config::UartPort;
use crate::config::UpstreamMode;
use crate::scan::decimal_reads_back;
use crate::scan::find_char;
use crate::scan::hex_byte_value;
use crate::scan::hex_digits_value;
use crate::scan::is_digit;
use crate::scan::is_hex_digit;
use crate::scan::parse_hex_byte;
use crate::scan::position_bound;
use crate::scan::split_first;
use crate::scan::split_on;
use crate::text::decimal;
use crate::text::hex_byte;
use crate::text::same_text;
use crate::text::string_with_decimal;
use vstd::prelude::*;
use vstd::string::StrSliceExecFns;
use vstd::string::StringExecFns;

verus! {

/// MAC address used when the settings name none.
pub const DEFAULT_MAC: &'static str = "02:00:00:12:34:56";

/// Settings file contents.
pub struct JsonConfig {
    /// Network section.
    pub network: JsonNetworkConfig,
    /// Bridge section.
    pub bridge: JsonBridgeConfig,
    /// Upstream section.
    pub upstream: JsonUpstreamConfig,
}

/// Network section of the settings.
pub struct JsonNetworkConfig {
    /// MAC address, colon-separated.
    pub mac: Option<String>,
    /// `dhcp` or `static`.
    pub mode: String,
    /// Static address.
    pub ip: Option<String>,
    /// Static prefix length.
    pub prefix_len: Option<u8>,
    /// Static gateway.
    pub gateway: Option<String>,
    /// Static DNS server.
    pub dns: Option<String>,
}

/// Bridge section of the settings.
pub struct JsonBridgeConfig {
    /// `server` or `client`.
    pub role: String,
    /// Port that a server listens on.
    pub listen_port: Option<u16>,
    /// Address that a client connects to.
    pub remote_ip: Option<String>,
    /// Port that a client connects to.
    pub remote_port: Option<u16>,
}

/// Upstream section of the settings.
pub struct JsonUpstreamConfig {
    /// `uart`, `spi` or `test`.
    pub transport: String,
}

/// The MAC address written as six colon-separated hexadecimal bytes.
pub open spec fn mac_value(s: Seq<char>) -> Option<[u8; 6]> {
    let parts = split_on(s, ':');
    if parts.len() == 6 && hex_byte_value(parts[0]) is Some && hex_byte_value(parts[1]) is Some
        && hex_byte_value(parts[2]) is Some && hex_byte_value(parts[3]) is Some && hex_byte_value(
        parts[4],
    ) is Some && hex_byte_value(parts[5]) is Some {
        Some(
            [
                hex_byte_value(parts[0])->0,
                hex_byte_value(parts[1])->0,
                hex_byte_value(parts[2])->0,
                hex_byte_value(parts[3])->0,
                hex_byte_value(parts[4])->0,
                hex_byte_value(parts[5])->0,
            ],
        )
    } else {
        None
    }
}

/// The MAC address that the settings ask for, or the message for what is wrong.
pub open spec fn mac_setting(network: JsonNetworkConfig) -> Result<[u8; 6], Seq<char>> {
    let text = match network.mac {
        Some(mac) => mac@,
        None => DEFAULT_MAC@,
    };
    match mac_value(text) {
        Some(mac) => Ok(mac),
        None => Err("invalid mac address"@),
    }
}

/// The address in a settings field, or the message for what is wrong.
pub open spec fn address_setting(value: Option<String>, field: Seq<char>) -> Result<
    [u8; 4],
    Seq<char>,
> {
    match value {
        None => Err(field + " is required"@),
        Some(text) => match ipv4_value(text@) {
            Some(octets) => Ok(octets),
            None => Err("invalid ipv4 address in "@ + field),
        },
    }
}

/// The address mode that the settings ask for, or the message for the first thing that is wrong.
pub open spec fn network_setting(network: JsonNetworkConfig) -> Result<AddressMode, Seq<char>> {
    if network.mode@ == "dhcp"@ {
        Ok(AddressMode::Dhcp)
    } else if network.mode@ == "static"@ {
        match (
            address_setting(network.ip, "network.ip"@),
            address_setting(network.gateway, "network.gateway"@),
            address_setting(network.dns, "network.dns"@),
            network.prefix_len,
        ) {
            (Err(message), _, _, _) => Err(message),
            (Ok(_), Err(message), _, _) => Err(message),
            (Ok(_), Ok(_), Err(message), _) => Err(message),
            (Ok(_), Ok(_), Ok(_), None) => Err("network.prefix_len is required for static mode"@),
            (Ok(address), Ok(gateway), Ok(dns), Some(prefix_len)) => Ok(
                AddressMode::Static(Ipv4Config { address, prefix_len, gateway, dns }),
            ),
        }
    } else {
        Err("unsupported network.mode: "@ + network.mode@)
    }
}

/// The bridge role that the settings ask for, or the message for the first thing that is wrong.
pub open spec fn bridge_setting(bridge: JsonBridgeConfig) -> Result<BridgeMode, Seq<char>> {
    if bridge.role@ == "server"@ {
        match bridge.listen_port {
            Some(port) => Ok(BridgeMode::TcpServer { port }),
            None => Err("bridge.listen_port is required for server role"@),
        }
    } else if bridge.role@ == "client"@ {
        match (address_setting(bridge.remote_ip, "bridge.remote_ip"@), bridge.remote_port) {
            (Err(message), _) => Err(message),
            (Ok(_), None) => Err("bridge.remote_port is required for client role"@),
            (Ok(host), Some(port)) => Ok(BridgeMode::TcpClient { host, port }),
        }
    } else {
        Err("unsupported bridge.role: "@ + bridge.role@)
    }
}

/// The upstream that the settings ask for, or the message for what is wrong.
pub open spec fn upstream_setting(upstream: JsonUpstreamConfig) -> Result<UpstreamMode, Seq<char>> {
    if upstream.transport@ == "uart"@ {
        Ok(UpstreamMode::Uart)
    } else if upstream.transport@ == "spi"@ {
        Ok(UpstreamMode::Spi)
    } else if upstream.transport@ == "test"@ {
        Ok(UpstreamMode::Test)
    } else {
        Err("unsupported upstream.transport: "@ + upstream.transport@)
    }
}

/// The configuration that the settings ask for, or the message for the first thing that is wrong.
pub open spec fn config_setting(config: JsonConfig) -> Result<BridgeConfig, Seq<char>> {
    match (
        mac_setting(config.network),
        network_setting(config.network),
        bridge_setting(config.bridge),
        upstream_setting(config.upstream),
    ) {
        (Err(message), _, _, _) => Err(message),
        (Ok(_), Err(message), _, _) => Err(message),
        (Ok(_), Ok(_), Err(message), _) => Err(message),
        (Ok(_), Ok(_), Ok(_), Err(message)) => Err(message),
        (Ok(mac_address), Ok(address_mode), Ok(bridge_mode), Ok(upstream_mode)) => Ok(
            BridgeConfig {
                mac_address,
                address_mode,
                bridge_mode,
                upstream_mode,
                uart_port: UartPort::Uart0,
            },
        ),
    }
}

/// Whether a result carries the value or the message of its specification.
pub open spec fn same_setting<T>(r: Result<T, String>, expected: Result<T, Seq<char>>) -> bool {
    match r {
        Ok(value) => expected == Ok::<T, Seq<char>>(value),
        Err(message) => expected == Err::<T, Seq<char>>(message@),
    }
}

fn message(text: &str) -> (r: String)
    ensures
        r@ == text@,
{
    String::from_str(text)
}

fn message_with(text: &str, value: &str) -> (r: String)
    ensures
        r@ == text@ + value@,
{
    let mut out = String::from_str(text);
    out.append(value);
    out
}

/// Parses a colon-separated MAC address.
pub fn parse_mac(value: &str) -> (r: Option<[u8; 6]>)
    ensures
        r == mac_value(value@),
{
    let mut octets = [0u8; 6];
    let mut count: usize = 0;
    let mut rest = value;
    let ghost parts = split_on(value@, ':');
    let mut done = false;
    assert(parts.skip(0) == parts);
    while !done
        invariant
            count <= 6,
            parts == split_on(value@, ':'),
            count <= parts.len(),
            !done ==> count < parts.len() && parts.skip(count as int) == split_on(rest@, ':'),
            done ==> count == parts.len(),
            forall|i: int|
                0 <= i < count ==> hex_byte_value(#[trigger] parts[i]) == Some(octets@[i]),
        decreases
                (if done {
                    0
                } else {
                    1 + rest@.len()
                }),
    {
        if count >= 6 {
            return None;
        }
        let total: usize = rest.unicode_len();
        let colon: usize = find_char(rest, ':');
        let chunk = rest.substring_char(0, colon);
        proof {
            position_bound(rest@, ':');
            assert(split_on(rest@, ':')[0] == parts[count as int]);
            if colon == total {
                assert(chunk@ == rest@);
            } else {
                assert(chunk@ == rest@.take(colon as int));
            }
        }
        match parse_hex_byte(chunk) {
            Some(octet) => octets[count] = octet,
            None => return None,
        }
        if colon == total {
            assert(split_on(rest@, ':').len() == 1);
            done = true;
        } else {
            let after = rest.substring_char(colon + 1, total);
            proof {
                assert(after@ == rest@.skip(colon + 1));
                assert(split_on(rest@, ':') == seq![chunk@] + split_on(after@, ':'));
                assert(split_on(rest@, ':').skip(1) == split_on(after@, ':'));
                assert(parts.skip(count as int).skip(1) == parts.skip(count + 1));
            }
            rest = after;
        }
        count = count + 1;
    }
    if count != 6 {
        return None;
    }
    proof {
        assert(octets@ =~= mac_value(value@)->0@);
        assert(octets == mac_value(value@)->0);
    }
    Some(octets)
}

fn read_address(value: &Option<String>, field: &str) -> (r: Result<[u8; 4], String>)
    ensures
        same_setting(r, address_setting(*value, field@)),
{
    match value {
        None => Err(message_with(field, " is required")),
        Some(text) => match parse_ipv4(text.as_str()) {
            Ok(octets) => Ok(octets),
            Err(_) => Err(message_with("invalid ipv4 address in ", field)),
        },
    }
}

fn read_network(network: &JsonNetworkConfig) -> (r: Result<AddressMode, String>)
    ensures
        same_setting(r, network_setting(*network)),
{
    let mode = network.mode.as_str();
    if same_text(mode, "dhcp") {
        return Ok(AddressMode::Dhcp);
    }
    if same_text(mode, "static") {
        let address = match read_address(&network.ip, "network.ip") {
            Ok(address) => address,
            Err(wrong) => return Err(wrong),
        };
        let gateway = match read_address(&network.gateway, "network.gateway") {
            Ok(gateway) => gateway,
            Err(wrong) => return Err(wrong),
        };
        let dns = match read_address(&network.dns, "network.dns") {
            Ok(dns) => dns,
            Err(wrong) => return Err(wrong),
        };
        return match network.prefix_len {
            Some(prefix_len) => Ok(
                AddressMode::Static(Ipv4Config { address, prefix_len, gateway, dns }),
            ),
            None => Err(message("network.prefix_len is required for static mode")),
        };
    }
    Err(message_with("unsupported network.mode: ", mode))
}

fn read_bridge(bridge: &JsonBridgeConfig) -> (r: Result<BridgeMode, String>)
    ensures
        same_setting(r, bridge_setting(*bridge)),
{
    let role = bridge.role.as_str();
    if same_text(role, "server") {
        return match bridge.listen_port {
            Some(port) => Ok(BridgeMode::TcpServer { port }),
            None => Err(message("bridge.listen_port is required for server role")),
        };
    }
    if same_text(role, "client") {
        let host = match read_address(&bridge.remote_ip, "bridge.remote_ip") {
            Ok(host) => host,
            Err(wrong) => return Err(wrong),
        };
        return match bridge.remote_port {
            Some(port) => Ok(BridgeMode::TcpClient { host, port }),
            None => Err(message("bridge.remote_port is required for client role")),
        };
    }
    Err(message_with("unsupported bridge.role: ", role))
}

fn read_upstream(upstream: &JsonUpstreamConfig) -> (r: Result<UpstreamMode, String>)
    ensures
        same_setting(r, upstream_setting(*upstream)),
{
    let transport = upstream.transport.as_str();
    if same_text(transport, "uart") {
        Ok(UpstreamMode::Uart)
    } else if same_text(transport, "spi") {
        Ok(UpstreamMode::Spi)
    } else if same_text(transport, "test") {
        Ok(UpstreamMode::Test)
    } else {
        Err(message_with("unsupported upstream.transport: ", transport))
    }
}

/// Turns the settings into the compiled configuration, or says what is wrong with them.
pub fn compiled_config(config: &JsonConfig) -> (r: Result<BridgeConfig, String>)
    ensures
        same_setting(r, config_setting(*config)),
{
    let text = match &config.network.mac {
        Some(mac) => mac.as_str(),
        None => DEFAULT_MAC,
    };
    let mac_address = match parse_mac(text) {
        Some(mac) => mac,
        None => return Err(message("invalid mac address")),
    };
    let address_mode = match read_network(&config.network) {
        Ok(mode) => mode,
        Err(wrong) => return Err(wrong),
    };
    let bridge_mode = match read_bridge(&config.bridge) {
        Ok(mode) => mode,
        Err(wrong) => return Err(wrong),
    };
    let upstream_mode = match read_upstream(&config.upstream) {
        Ok(mode) => mode,
        Err(wrong) => return Err(wrong),
    };
    Ok(
        BridgeConfig {
            mac_address,
            address_mode,
            bridge_mode,
            upstream_mode,
            uart_port: UartPort::Uart0,
        },
    )
}

/// The numbers of a list in decimal form, separated by commas.
pub open spec fn numbers_text(bytes: Seq<u8>) -> Seq<char>
    decreases bytes.len(),
{
    if bytes.len() == 0 {
        Seq::empty()
    } else if bytes.len() == 1 {
        decimal(bytes[0] as nat)
    } else {
        numbers_text(bytes.drop_last()) + ", "@ + decimal(bytes.last() as nat)
    }
}

/// A byte array as an expression.
pub open spec fn array_source(bytes: Seq<u8>) -> Seq<char> {
    "["@ + numbers_text(bytes) + "]"@
}

/// An address mode as an expression.
pub open spec fn address_source(mode: AddressMode) -> Seq<char> {
    match mode {
        AddressMode::Dhcp => "AddressMode::Dhcp"@,
        AddressMode::Static(ipv4) => "AddressMode::Static(Ipv4Config { address: "@ + array_source(
            ipv4.address@,
        ) + ", prefix_len: "@ + decimal(ipv4.prefix_len as nat) + ", gateway: "@ + array_source(
            ipv4.gateway@,
        ) + ", dns: "@ + array_source(ipv4.dns@) + " })"@,
    }
}

/// A bridge mode as an expression.
pub open spec fn bridge_source(mode: BridgeMode) -> Seq<char> {
    match mode {
        BridgeMode::TcpServer { port } => "BridgeMode::TcpServer { port: "@ + decimal(port as nat)
            + " }"@,
        BridgeMode::TcpClient { host, port } => "BridgeMode::TcpClient { host: "@ + array_source(
            host@,
        ) + ", port: "@ + decimal(port as nat) + " }"@,
    }
}

/// An upstream mode as an expression.
pub open spec fn upstream_source(mode: UpstreamMode) -> Seq<char> {
    match mode {
        UpstreamMode::Uart => "UpstreamMode::Uart"@,
        UpstreamMode::I2c => "UpstreamMode::I2c"@,
        UpstreamMode::Usb => "UpstreamMode::Usb"@,
        UpstreamMode::Spi => "UpstreamMode::Spi"@,
        UpstreamMode::SpiEcho => "UpstreamMode::SpiEcho"@,
        UpstreamMode::SpiStatic => "UpstreamMode::SpiStatic"@,
        UpstreamMode::SpiLineHigh => "UpstreamMode::SpiLineHigh"@,
        UpstreamMode::Test => "UpstreamMode::Test"@,
    }
}

/// A UART choice as an expression.
pub open spec fn uart_source(port: UartPort) -> Seq<char> {
    match port {
        UartPort::Uart0 => "UartPort::Uart0"@,
        UartPort::Uart1 => "UartPort::Uart1"@,
    }
}

/// The source text that defines a configuration as the compiled default.
pub open spec fn config_source(config: BridgeConfig) -> Seq<char> {
    "pub const COMPILED_CONFIG: BridgeConfig = BridgeConfig {\n    mac_address: "@ + array_source(
        config.mac_address@,
    ) + ",\n    address_mode: "@ + address_source(config.address_mode) + ",\n    bridge_mode: "@
        + bridge_source(config.bridge_mode) + ",\n    upstream_mode: "@ + upstream_source(
        config.upstream_mode,
    ) + ",\n    uart_port: "@ + uart_source(config.uart_port) + ",\n};\n"@
}

fn put_array(out: &mut String, bytes: &[u8])
    ensures
        final(out)@ == old(out)@ + array_source(bytes@),
{
    let ghost before = out@;
    out.append("[");
    let ghost head = out@;
    let n: usize = bytes.len();
    assert(bytes@.take(0) == Seq::<u8>::empty());
    for i in 0..n
        invariant
            n == bytes@.len(),
            out@ == head + numbers_text(bytes@.take(i as int)),
    {
        let ghost step = out@;
        if i > 0 {
            out.append(", ");
        }
        string_with_decimal(out, bytes[i] as u64);
        proof {
            assert(bytes@.take(i + 1).drop_last() == bytes@.take(i as int));
            assert(out@ =~= head + numbers_text(bytes@.take(i + 1)));
        }
    }
    assert(bytes@.take(n as int) == bytes@);
    out.append("]");
    assert(out@ =~= before + array_source(bytes@));
}

fn put_address(out: &mut String, mode: &AddressMode)
    ensures
        final(out)@ == old(out)@ + address_source(*mode),
{
    let ghost before = out@;
    match mode {
        AddressMode::Dhcp => out.append("AddressMode::Dhcp"),
        AddressMode::Static(ipv4) => {
            out.append("AddressMode::Static(Ipv4Config { address: ");
            put_array(out, &ipv4.address);
            out.append(", prefix_len: ");
            string_with_decimal(out, ipv4.prefix_len as u64);
            out.append(", gateway: ");
            put_array(out, &ipv4.gateway);
            out.append(", dns: ");
            put_array(out, &ipv4.dns);
            out.append(" })");
        },
    }
    assert(out@ =~= before + address_source(*mode));
}

fn put_bridge(out: &mut String, mode: &BridgeMode)
    ensures
        final(out)@ == old(out)@ + bridge_source(*mode),
{
    let ghost before = out@;
    match mode {
        BridgeMode::TcpServer { port } => {
            out.append("BridgeMode::TcpServer { port: ");
            string_with_decimal(out, *port as u64);
        },
        BridgeMode::TcpClient { host, port } => {
            out.append("BridgeMode::TcpClient { host: ");
            put_array(out, host);
            out.append(", port: ");
            string_with_decimal(out, *port as u64);
        },
    }
    out.append(" }");
    assert(out@ =~= before + bridge_source(*mode));
}

fn upstream_name(mode: UpstreamMode) -> (r: &'static str)
    ensures
        r@ == upstream_source(mode),
{
    match mode {
        UpstreamMode::Uart => "UpstreamMode::Uart",
        UpstreamMode::I2c => "UpstreamMode::I2c",
        UpstreamMode::Usb => "UpstreamMode::Usb",
        UpstreamMode::Spi => "UpstreamMode::Spi",
        UpstreamMode::SpiEcho => "UpstreamMode::SpiEcho",
        UpstreamMode::SpiStatic => "UpstreamMode::SpiStatic",
        UpstreamMode::SpiLineHigh => "UpstreamMode::SpiLineHigh",
        UpstreamMode::Test => "UpstreamMode::Test",
    }
}

fn uart_name(port: UartPort) -> (r: &'static str)
    ensures
        r@ == uart_source(port),
{
    match port {
        UartPort::Uart0 => "UartPort::Uart0",
        UartPort::Uart1 => "UartPort::Uart1",
    }
}

/// Writes the source text that defines a configuration as the compiled default.
pub fn render_generated_config(config: &BridgeConfig) -> (out: String)
    ensures
        out@ == config_source(*config),
{
    let mut out = String::from_str(
        "pub const COMPILED_CONFIG: BridgeConfig = BridgeConfig {\n    mac_address: ",
    );
    put_array(&mut out, &config.mac_address);
    out.append(",\n    address_mode: ");
    put_address(&mut out, &config.address_mode);
    out.append(",\n    bridge_mode: ");
    put_bridge(&mut out, &config.bridge_mode);
    out.append(",\n    upstream_mode: ");
    out.append(upstream_name(config.upstream_mode));
    out.append(",\n    uart_port: ");
    out.append(uart_name(config.uart_port));
    out.append(",\n};\n");
    assert(out@ =~= config_source(*config));
    out
}

/// A byte reads back from its hexadecimal form, which holds no colon.
pub proof fn shown_byte_reads_back(value: u8)
    ensures
        hex_byte_value(hex_byte(value)) == Some(value),
        !hex_byte(value).contains(':'),
{
    reveal_with_fuel(hex_digits_value, 3);
    let text = hex_byte(value);
    assert(text.drop_last() =~= seq![text[0]]);
    assert(text.drop_last().drop_last() =~= Seq::<char>::empty());
    assert(is_hex_digit(text[0]) && is_hex_digit(text[1]));
}

/// A MAC address reads back from the form in which it is shown.
pub proof fn shown_mac_reads_back(mac: [u8; 6])
    ensures
        mac_value(mac_text(mac)) == Some(mac),
{
    reveal_strlit(":");
    assert(":"@ =~= seq![':']);
    let (a, b, c) = (hex_byte(mac[0]), hex_byte(mac[1]), hex_byte(mac[2]));
    let (d, e, f) = (hex_byte(mac[3]), hex_byte(mac[4]), hex_byte(mac[5]));
    shown_byte_reads_back(mac[0]);
    shown_byte_reads_back(mac[1]);
    shown_byte_reads_back(mac[2]);
    shown_byte_reads_back(mac[3]);
    shown_byte_reads_back(mac[4]);
    shown_byte_reads_back(mac[5]);
    let from_e = e + seq![':'] + f;
    let from_d = d + seq![':'] + from_e;
    let from_c = c + seq![':'] + from_d;
    let from_b = b + seq![':'] + from_c;
    let from_a = a + seq![':'] + from_b;
    split_first(f, Seq::empty(), ':');
    split_first(e, f, ':');
    split_first(d, from_e, ':');
    split_first(c, from_d, ':');
    split_first(b, from_c, ':');
    split_first(a, from_b, ':');
    assert(mac_text(mac) =~= from_a);
    assert(split_on(from_a, ':') =~= seq![a, b, c, d, e, f]);
    assert(mac_value(mac_text(mac))->0@ =~= mac@);
    assert(mac_value(mac_text(mac))->0 == mac);
}

/// A configuration that is written down in the settings, each part in the form in which it is shown,
/// is the one that comes out.
pub proof fn written_settings_are_compiled(settings: JsonConfig, config: BridgeConfig)
    requires
        settings.network.mac matches Some(mac) && mac@ == mac_text(config.mac_address),
        match config.address_mode {
            AddressMode::Dhcp => settings.network.mode@ == "dhcp"@,
            AddressMode::Static(ipv4) => {
                &&& settings.network.mode@ == "static"@
                &&& settings.network.ip matches Some(ip) && ip@ == ipv4_text(ipv4.address)
                &&& settings.network.gateway matches Some(ip) && ip@ == ipv4_text(ipv4.gateway)
                &&& settings.network.dns matches Some(ip) && ip@ == ipv4_text(ipv4.dns)
                &&& settings.network.prefix_len == Some(ipv4.prefix_len)
            },
        },
        match config.bridge_mode {
            BridgeMode::TcpServer { port } => {
                &&& settings.bridge.role@ == "server"@
                &&& settings.bridge.listen_port == Some(port)
            },
            BridgeMode::TcpClient { host, port } => {
                &&& settings.bridge.role@ == "client"@
                &&& settings.bridge.remote_ip matches Some(ip) && ip@ == ipv4_text(host)
                &&& settings.bridge.remote_port == Some(port)
            },
        },
        config.upstream_mode is Uart || config.upstream_mode is Spi || config.upstream_mode is Test,
        settings.upstream.transport@ == upstream_text(config.upstream_mode).skip(10),
    ensures
        config_setting(settings) == Ok::<BridgeConfig, Seq<char>>(
            BridgeConfig {
                mac_address: config.mac_address,
                address_mode: config.address_mode,
                bridge_mode: config.bridge_mode,
                upstream_mode: config.upstream_mode,
                uart_port: UartPort::Uart0,
            },
        ),
{
    shown_mac_reads_back(config.mac_address);
    written_network_is_compiled(settings.network, config.address_mode);
    written_role_is_compiled(settings.bridge, config.bridge_mode);
    written_upstream_is_compiled(settings.upstream, config.upstream_mode);
}

proof fn written_network_is_compiled(network: JsonNetworkConfig, mode: AddressMode)
    requires
        match mode {
            AddressMode::Dhcp => network.mode@ == "dhcp"@,
            AddressMode::Static(ipv4) => {
                &&& network.mode@ == "static"@
                &&& network.ip matches Some(ip) && ip@ == ipv4_text(ipv4.address)
                &&& network.gateway matches Some(ip) && ip@ == ipv4_text(ipv4.gateway)
                &&& network.dns matches Some(ip) && ip@ == ipv4_text(ipv4.dns)
                &&& network.prefix_len == Some(ipv4.prefix_len)
            },
        },
    ensures
        network_setting(network) == Ok::<AddressMode, Seq<char>>(mode),
{
    assert("dhcp"@.len() == 4 && "static"@.len() == 6) by {
        reveal_strlit("dhcp");
        reveal_strlit("static");
    }
    if let AddressMode::Static(ipv4) = mode {
        shown_address_reads_back(ipv4.address);
        shown_address_reads_back(ipv4.gateway);
        shown_address_reads_back(ipv4.dns);
    }
}

proof fn written_role_is_compiled(bridge: JsonBridgeConfig, mode: BridgeMode)
    requires
        match mode {
            BridgeMode::TcpServer { port } => {
                &&& bridge.role@ == "server"@
                &&& bridge.listen_port == Some(port)
            },
            BridgeMode::TcpClient { host, port } => {
                &&& bridge.role@ == "client"@
                &&& bridge.remote_ip matches Some(ip) && ip@ == ipv4_text(host)
                &&& bridge.remote_port == Some(port)
            },
        },
    ensures
        bridge_setting(bridge) == Ok::<BridgeMode, Seq<char>>(mode),
{
    assert("server"@[0] == 's' && "client"@[0] == 'c') by {
        reveal_strlit("server");
        reveal_strlit("client");
    }
    if let BridgeMode::TcpClient { host, port } = mode {
        shown_address_reads_back(host);
    }
}

proof fn written_upstream_is_compiled(upstream: JsonUpstreamConfig, mode: UpstreamMode)
    requires
        mode is Uart || mode is Spi || mode is Test,
        upstream.transport@ == upstream_text(mode).skip(10),
    ensures
        upstream_setting(upstream) == Ok::<UpstreamMode, Seq<char>>(mode),
{
    reveal_strlit("uart");
    reveal_strlit("spi");
    reveal_strlit("test");
    reveal_strlit(" upstream=uart");
    reveal_strlit(" upstream=spi");
    reveal_strlit(" upstream=test");
    assert("uart"@[0] == 'u' && "spi"@[0] == 's' && "test"@[0] == 't');
    match mode {
        UpstreamMode::Uart => assert(upstream.transport@ =~= "uart"@),
        UpstreamMode::Spi => assert(upstream.transport@ =~= "spi"@),
        _ => assert(upstream.transport@ =~= "test"@),
    }
}

/// Without a MAC address the default one counts.
pub proof fn missing_mac_is_the_default(network: JsonNetworkConfig)
    requires
        network.mac is None,
    ensures
        mac_setting(network) == Ok::<[u8; 6], Seq<char>>([0x02, 0x00, 0x00, 0x12, 0x34, 0x56]),
{
    reveal_strlit("02:00:00:12:34:56");
    reveal_strlit(":");
    let mac = [0x02u8, 0x00, 0x00, 0x12, 0x34, 0x56];
    assert(DEFAULT_MAC@ =~= mac_text(mac));
    shown_mac_reads_back(mac);
}

/// Every section has to be right. The first that is not is named: the MAC address, then the address
/// mode, then the role, then the upstream.
pub proof fn first_wrong_setting_is_named(settings: JsonConfig)
    ensures
        config_setting(settings) is Ok <==> mac_setting(settings.network) is Ok && network_setting(
            settings.network,
        ) is Ok && bridge_setting(settings.bridge) is Ok && upstream_setting(settings.upstream)
            is Ok,
        settings.network.mac matches Some(mac) && mac_value(mac@) is None ==> config_setting(
            settings,
        ) == Err::<BridgeConfig, Seq<char>>("invalid mac address"@),
        mac_setting(settings.network) is Ok ==> (network_setting(settings.network) matches Err(
            message,
        ) ==> config_setting(settings) == Err::<BridgeConfig, Seq<char>>(message)),
        mac_setting(settings.network) is Ok && network_setting(settings.network) is Ok ==> (
        bridge_setting(settings.bridge) matches Err(message) ==> config_setting(settings) == Err::<
            BridgeConfig,
            Seq<char>,
        >(message)),
        mac_setting(settings.network) is Ok && network_setting(settings.network) is Ok
            && bridge_setting(settings.bridge) is Ok ==> (upstream_setting(
            settings.upstream,
        ) matches Err(message) ==> config_setting(settings) == Err::<BridgeConfig, Seq<char>>(
            message,
        )),
{
}

/// A value outside the known ones is named in the message.
pub proof fn unknown_values_are_named(
    network: JsonNetworkConfig,
    bridge: JsonBridgeConfig,
    upstream: JsonUpstreamConfig,
)
    ensures
        network.mode@ != "dhcp"@ && network.mode@ != "static"@ ==> network_setting(network)
            == Err::<AddressMode, Seq<char>>("unsupported network.mode: "@ + network.mode@),
        bridge.role@ != "server"@ && bridge.role@ != "client"@ ==> bridge_setting(bridge) == Err::<
            BridgeMode,
            Seq<char>,
        >("unsupported bridge.role: "@ + bridge.role@),
        upstream.transport@ != "uart"@ && upstream.transport@ != "spi"@ && upstream.transport@
            != "test"@ ==> upstream_setting(upstream) == Err::<UpstreamMode, Seq<char>>(
            "unsupported upstream.transport: "@ + upstream.transport@,
        ),
{
}

/// What a static address or a role needs and does not have is named in the message.
pub proof fn missing_values_are_named(network: JsonNetworkConfig, bridge: JsonBridgeConfig)
    requires
        network.mode@ == "static"@,
    ensures
        network_setting(network) is Ok ==> network.ip is Some && network.gateway is Some
            && network.dns is Some && network.prefix_len is Some,
        network.ip is None ==> network_setting(network) == Err::<AddressMode, Seq<char>>(
            "network.ip is required"@,
        ),
        bridge.role@ == "server"@ && bridge.listen_port is None ==> bridge_setting(bridge) == Err::<
            BridgeMode,
            Seq<char>,
        >("bridge.listen_port is required for server role"@),
        bridge.role@ == "client"@ && bridge.remote_ip is None ==> bridge_setting(bridge) == Err::<
            BridgeMode,
            Seq<char>,
        >("bridge.remote_ip is required"@),
        bridge.role@ == "client"@ && bridge_setting(bridge) is Ok ==> bridge.remote_ip is Some
            && bridge.remote_port is Some,
{
    reveal_strlit("dhcp");
    reveal_strlit("static");
    reveal_strlit("server");
    reveal_strlit("client");
    reveal_strlit("network.ip");
    reveal_strlit("bridge.remote_ip");
    reveal_strlit(" is required");
    reveal_strlit("network.ip is required");
    reveal_strlit("bridge.remote_ip is required");
    assert("network.ip"@ + " is required"@ =~= "network.ip is required"@);
    assert("bridge.remote_ip"@ + " is required"@ =~= "bridge.remote_ip is required"@);
    assert("static"@.len() == 6 && "dhcp"@.len() == 4);
    assert("server"@[0] == 's' && "client"@[0] == 'c');
}

/// Whether a text is free of a character.
spec fn lacks(s: Seq<char>, c: char) -> bool {
    forall|i: int| 0 <= i < s.len() ==> #[trigger] s[i] != c
}

proof fn lacks_joins(a: Seq<char>, b: Seq<char>, c: char)
    requires
        lacks(a, c),
        lacks(b, c),
    ensures
        lacks(a + b, c),
{
    assert forall|i: int| 0 <= i < (a + b).len() implies #[trigger] (a + b)[i] != c by {
        if i < a.len() {
            assert((a + b)[i] == a[i]);
        } else {
            assert((a + b)[i] == b[i - a.len()]);
        }
    }
}

/// Two texts that agree, each cut at its first `c`, agree in front of it and behind it.
proof fn cut_at_first(a: Seq<char>, x: Seq<char>, b: Seq<char>, y: Seq<char>, c: char)
    requires
        lacks(a, c),
        lacks(b, c),
        a + seq![c] + x == b + seq![c] + y,
    ensures
        a == b,
        x == y,
{
    let whole = a + seq![c] + x;
    assert(whole[a.len() as int] == c);
    assert(whole[b.len() as int] == (b + seq![c] + y)[b.len() as int]);
    if a.len() < b.len() {
        assert(b[a.len() as int] == whole[a.len() as int]);
    }
    if b.len() < a.len() {
        assert(a[b.len() as int] == whole[b.len() as int]);
    }
    assert(a =~= whole.take(a.len() as int));
    assert(b =~= whole.take(a.len() as int));
    assert(x =~= whole.skip(a.len() as int + 1));
    assert(y =~= whole.skip(a.len() as int + 1));
}

/// The same with the cut at the last `c`.
proof fn cut_at_last(a: Seq<char>, x: Seq<char>, b: Seq<char>, y: Seq<char>, c: char)
    requires
        lacks(x, c),
        lacks(y, c),
        a + seq![c] + x == b + seq![c] + y,
    ensures
        a == b,
        x == y,
{
    let whole = a + seq![c] + x;
    let other = b + seq![c] + y;
    assert(whole.len() == a.len() + 1 + x.len());
    assert(other.len() == b.len() + 1 + y.len());
    assert(whole[a.len() as int] == c);
    assert(other[b.len() as int] == c);
    if a.len() < b.len() {
        assert(whole[b.len() as int] == x[b.len() - a.len() - 1]);
    }
    if b.len() < a.len() {
        assert(other[a.len() as int] == y[a.len() - b.len() - 1]);
    }
    assert(a =~= whole.take(a.len() as int));
    assert(b =~= whole.take(a.len() as int));
    assert(x =~= whole.skip(a.len() as int + 1));
    assert(y =~= whole.skip(a.len() as int + 1));
}

/// Two texts that agree behind the same label agree.
proof fn cut_label(label: Seq<char>, x: Seq<char>, y: Seq<char>)
    requires
        label + x == label + y,
    ensures
        x == y,
{
    assert(x =~= (label + x).skip(label.len() as int));
    assert(y =~= (label + y).skip(label.len() as int));
}

proof fn number_lacks(n: nat, c: char)
    requires
        !is_digit(c),
    ensures
        lacks(decimal(n), c),
{
    decimal_reads_back(n, n);
    assert forall|i: int| 0 <= i < decimal(n).len() implies #[trigger] decimal(n)[i] != c by {
        assert(is_digit(decimal(n)[i]));
    }
}

/// Different numbers are written differently.
proof fn numbers_differ(a: nat, b: nat)
    requires
        decimal(a) == decimal(b),
    ensures
        a == b,
{
    decimal_reads_back(a, a);
    decimal_reads_back(b, b);
}

proof fn number_list_lacks(bytes: Seq<u8>, c: char)
    requires
        !is_digit(c),
        c != ',',
        c != ' ',
    ensures
        lacks(numbers_text(bytes), c),
    decreases bytes.len(),
{
    reveal_strlit(", ");
    if bytes.len() == 1 {
        number_lacks(bytes[0] as nat, c);
    } else if bytes.len() > 1 {
        number_list_lacks(bytes.drop_last(), c);
        number_lacks(bytes.last() as nat, c);
        lacks_joins(numbers_text(bytes.drop_last()), ", "@, c);
        lacks_joins(numbers_text(bytes.drop_last()) + ", "@, decimal(bytes.last() as nat), c);
    }
}

/// Two lists of the same length are written alike only when they are the same.
proof fn number_lists_differ(a: Seq<u8>, b: Seq<u8>)
    requires
        a.len() == b.len(),
        numbers_text(a) == numbers_text(b),
    ensures
        a == b,
    decreases a.len(),
{
    reveal_strlit(", ");
    if a.len() == 1 {
        numbers_differ(a[0] as nat, b[0] as nat);
        assert(a =~= b);
    } else if a.len() > 1 {
        let (x, y) = (numbers_text(a.drop_last()), numbers_text(b.drop_last()));
        let (m, n) = (decimal(a.last() as nat), decimal(b.last() as nat));
        number_lacks(a.last() as nat, ' ');
        number_lacks(b.last() as nat, ' ');
        assert(x + ", "@ + m =~= (x + seq![',']) + seq![' '] + m);
        assert(y + ", "@ + n =~= (y + seq![',']) + seq![' '] + n);
        cut_at_last(x + seq![','], m, y + seq![','], n, ' ');
        assert((x + seq![',']).drop_last() =~= x);
        assert((y + seq![',']).drop_last() =~= y);
        numbers_differ(a.last() as nat, b.last() as nat);
        number_lists_differ(a.drop_last(), b.drop_last());
        assert(a =~= a.drop_last().push(a.last()));
        assert(b =~= b.drop_last().push(b.last()));
    } else {
        assert(a =~= b);
    }
}

/// Arrays behind the same label, with the same text behind them or not, are written alike only when
/// they are the same.
proof fn labelled_arrays_differ(
    label: Seq<char>,
    a: Seq<u8>,
    x: Seq<char>,
    b: Seq<u8>,
    y: Seq<char>,
)
    requires
        lacks(label, ']'),
        a.len() == b.len(),
        label + array_source(a) + x == label + array_source(b) + y,
    ensures
        a == b,
        x == y,
{
    reveal_strlit("[");
    reveal_strlit("]");
    let open = label + "["@;
    lacks_joins(label, "["@, ']');
    number_list_lacks(a, ']');
    number_list_lacks(b, ']');
    lacks_joins(open, numbers_text(a), ']');
    lacks_joins(open, numbers_text(b), ']');
    assert("]"@ =~= seq![']']);
    assert(label + array_source(a) + x =~= (open + numbers_text(a)) + seq![']'] + x);
    assert(label + array_source(b) + y =~= (open + numbers_text(b)) + seq![']'] + y);
    cut_at_first(open + numbers_text(a), x, open + numbers_text(b), y, ']');
    cut_label(open, numbers_text(a), numbers_text(b));
    number_lists_differ(a, b);
}

proof fn static_settings_differ(a: Ipv4Config, b: Ipv4Config)
    requires
        address_source(AddressMode::Static(a)) == address_source(AddressMode::Static(b)),
    ensures
        a == b,
{
    let head = "AddressMode::Static(Ipv4Config { address: "@;
    let prefix = ", prefix_len: "@;
    let gateway = ", gateway: "@;
    let dns = ", dns: "@;
    let end = " })"@;
    assert(lacks(head, ']')) by {
        reveal_strlit("AddressMode::Static(Ipv4Config { address: ");
    }
    assert(lacks(gateway, ']') && gateway == seq![','] + gateway.skip(1)) by {
        reveal_strlit(", gateway: ");
        assert(gateway =~= seq![','] + gateway.skip(1));
    }
    assert(lacks(dns, ']')) by {
        reveal_strlit(", dns: ");
    }
    nested(
        head,
        array_source(a.address@),
        prefix,
        decimal(a.prefix_len as nat),
        gateway,
        array_source(a.gateway@),
        dns,
        array_source(a.dns@),
        end,
    );
    nested(
        head,
        array_source(b.address@),
        prefix,
        decimal(b.prefix_len as nat),
        gateway,
        array_source(b.gateway@),
        dns,
        array_source(b.dns@),
        end,
    );
    static_parts_differ(head, prefix, gateway, dns, end, a, b);
}

proof fn static_parts_differ(
    head: Seq<char>,
    prefix: Seq<char>,
    gateway: Seq<char>,
    dns: Seq<char>,
    end: Seq<char>,
    a: Ipv4Config,
    b: Ipv4Config,
)
    requires
        lacks(head, ']'),
        lacks(gateway, ']'),
        lacks(dns, ']'),
        gateway == seq![','] + gateway.skip(1),
        head + array_source(a.address@) + (prefix + decimal(a.prefix_len as nat) + (gateway
            + array_source(a.gateway@) + (dns + array_source(a.dns@) + end))) == head
            + array_source(b.address@) + (prefix + decimal(b.prefix_len as nat) + (gateway
            + array_source(b.gateway@) + (dns + array_source(b.dns@) + end))),
    ensures
        a == b,
{
    let dns_a = dns + array_source(a.dns@) + end;
    let dns_b = dns + array_source(b.dns@) + end;
    let x = gateway + array_source(a.gateway@) + dns_a;
    let y = gateway + array_source(b.gateway@) + dns_b;
    labelled_arrays_differ(
        head,
        a.address@,
        prefix + decimal(a.prefix_len as nat) + x,
        b.address@,
        prefix + decimal(b.prefix_len as nat) + y,
    );
    assert(x =~= seq![','] + x.skip(1));
    assert(y =~= seq![','] + y.skip(1));
    labelled_numbers_differ(prefix, a.prefix_len as nat, x, b.prefix_len as nat, y);
    labelled_arrays_differ(gateway, a.gateway@, dns_a, b.gateway@, dns_b);
    labelled_arrays_differ(dns, a.dns@, end, b.dns@, end);
    assert(a.address == b.address && a.gateway == b.gateway && a.dns == b.dns);
}

/// Numbers behind the same label and in front of a comma are written alike only when they are the
/// same.
proof fn labelled_numbers_differ(label: Seq<char>, m: nat, x: Seq<char>, n: nat, y: Seq<char>)
    requires
        x == seq![','] + x.skip(1),
        y == seq![','] + y.skip(1),
        label + decimal(m) + x == label + decimal(n) + y,
    ensures
        m == n,
        x == y,
{
    number_lacks(m, ',');
    number_lacks(n, ',');
    assert(label + decimal(m) + x =~= label + (decimal(m) + seq![','] + x.skip(1)));
    assert(label + decimal(n) + y =~= label + (decimal(n) + seq![','] + y.skip(1)));
    cut_label(label, decimal(m) + seq![','] + x.skip(1), decimal(n) + seq![','] + y.skip(1));
    cut_at_first(decimal(m), x.skip(1), decimal(n), y.skip(1), ',');
    numbers_differ(m, n);
}

proof fn nested(
    a: Seq<char>,
    b: Seq<char>,
    c: Seq<char>,
    d: Seq<char>,
    e: Seq<char>,
    f: Seq<char>,
    g: Seq<char>,
    h: Seq<char>,
    i: Seq<char>,
)
    ensures
        a + b + c + d + e + f + g + h + i == a + b + (c + d + (e + f + (g + h + i))),
{
    assert(a + b + c + d + e + f + (g + h + i) =~= a + b + c + d + e + f + g + h + i);
    let t = g + h + i;
    assert(a + b + c + d + (e + f + t) =~= a + b + c + d + e + f + t);
    let u = e + f + t;
    assert(a + b + (c + d + u) =~= a + b + c + d + u);
}

proof fn address_modes_differ(a: AddressMode, b: AddressMode)
    requires
        address_source(a) == address_source(b),
    ensures
        a == b,
{
    let head = "AddressMode::Static(Ipv4Config { address: "@;
    assert("AddressMode::Dhcp"@[13] == 'D' && "AddressMode::Dhcp"@.len() == 17) by {
        reveal_strlit("AddressMode::Dhcp");
    }
    assert(head[13] == 'S' && head.len() > 17) by {
        reveal_strlit("AddressMode::Static(Ipv4Config { address: ");
    }
    match (a, b) {
        (AddressMode::Static(x), AddressMode::Static(y)) => static_settings_differ(x, y),
        _ => {},
    }
}

proof fn roles_differ(a: BridgeMode, b: BridgeMode)
    requires
        bridge_source(a) == bridge_source(b),
    ensures
        a == b,
{
    let server = "BridgeMode::TcpServer { port: "@;
    let client = "BridgeMode::TcpClient { host: "@;
    let label = ", port: "@;
    let end = " }"@;
    assert(server[15] == 'S' && server.len() > 15) by {
        reveal_strlit("BridgeMode::TcpServer { port: ");
    }
    assert(client[15] == 'C' && client.len() > 15 && lacks(client, ']')) by {
        reveal_strlit("BridgeMode::TcpClient { host: ");
    }
    assert(end == seq![' '] + seq!['}']) by {
        reveal_strlit(" }");
        assert(end =~= seq![' '] + seq!['}']);
    }
    match (a, b) {
        (BridgeMode::TcpServer { port: p }, BridgeMode::TcpServer { port: q }) => {
            port_ends(server, p, q);
        },
        (
            BridgeMode::TcpClient { host: g, port: p },
            BridgeMode::TcpClient { host: h, port: q },
        ) => {
            let x = label + decimal(p as nat) + end;
            let y = label + decimal(q as nat) + end;
            assert(client + array_source(g@) + x =~= bridge_source(a));
            assert(client + array_source(h@) + y =~= bridge_source(b));
            labelled_arrays_differ(client, g@, x, h@, y);
            port_ends(label, p, q);
            assert(g == h);
        },
        (BridgeMode::TcpServer { port: p }, BridgeMode::TcpClient { host: h, port: q }) => {
            assert(bridge_source(a)[15] == server[15]);
            assert(bridge_source(b)[15] == client[15]);
        },
        (BridgeMode::TcpClient { host: h, port: p }, BridgeMode::TcpServer { port: q }) => {
            assert(bridge_source(a)[15] == client[15]);
            assert(bridge_source(b)[15] == server[15]);
        },
    }
}

proof fn port_ends(label: Seq<char>, p: u16, q: u16)
    requires
        label + decimal(p as nat) + " }"@ == label + decimal(q as nat) + " }"@,
    ensures
        p == q,
{
    let end = " }"@;
    assert(label + decimal(p as nat) + end =~= label + (decimal(p as nat) + end));
    assert(label + decimal(q as nat) + end =~= label + (decimal(q as nat) + end));
    cut_label(label, decimal(p as nat) + end, decimal(q as nat) + end);
    assert(decimal(p as nat) =~= (decimal(p as nat) + end).take(
        (decimal(p as nat) + end).len() - end.len(),
    ));
    assert(decimal(q as nat) =~= (decimal(q as nat) + end).take(
        (decimal(q as nat) + end).len() - end.len(),
    ));
    numbers_differ(p as nat, q as nat);
}

proof fn upstreams_differ(a: UpstreamMode, b: UpstreamMode)
    ensures
        lacks(upstream_source(a), '\n'),
        upstream_source(a) == upstream_source(b) ==> a == b,
{
    reveal_strlit("UpstreamMode::Uart");
    reveal_strlit("UpstreamMode::I2c");
    reveal_strlit("UpstreamMode::Usb");
    reveal_strlit("UpstreamMode::Spi");
    reveal_strlit("UpstreamMode::SpiEcho");
    reveal_strlit("UpstreamMode::SpiStatic");
    reveal_strlit("UpstreamMode::SpiLineHigh");
    reveal_strlit("UpstreamMode::Test");
    assert(upstream_source(a).len() >= 17 && upstream_source(b).len() >= 17);
    if upstream_source(a) == upstream_source(b) {
        assert(upstream_source(a)[14] == upstream_source(b)[14]);
        assert(upstream_source(a)[15] == upstream_source(b)[15]);
    }
}

proof fn uarts_differ(a: UartPort, b: UartPort)
    ensures
        lacks(uart_source(a), '\n'),
        uart_source(a) == uart_source(b) ==> a == b,
{
    reveal_strlit("UartPort::Uart0");
    reveal_strlit("UartPort::Uart1");
    if uart_source(a) == uart_source(b) {
        assert(uart_source(a)[14] == uart_source(b)[14]);
    }
}

proof fn array_is_one_line(bytes: Seq<u8>)
    ensures
        lacks(array_source(bytes), '\n'),
{
    reveal_strlit("[");
    reveal_strlit("]");
    number_list_lacks(bytes, '\n');
    lacks_joins("["@, numbers_text(bytes), '\n');
    lacks_joins("["@ + numbers_text(bytes), "]"@, '\n');
}

proof fn address_is_one_line(mode: AddressMode)
    ensures
        lacks(address_source(mode), '\n'),
{
    match mode {
        AddressMode::Dhcp => {
            reveal_strlit("AddressMode::Dhcp");
        },
        AddressMode::Static(ipv4) => {
            let head = "AddressMode::Static(Ipv4Config { address: "@;
            assert(lacks(head, '\n')) by {
                reveal_strlit("AddressMode::Static(Ipv4Config { address: ");
            }
            assert(lacks(", prefix_len: "@, '\n') && lacks(", gateway: "@, '\n') && lacks(
                ", dns: "@,
                '\n',
            ) && lacks(" })"@, '\n')) by {
                reveal_strlit(", prefix_len: ");
                reveal_strlit(", gateway: ");
                reveal_strlit(", dns: ");
                reveal_strlit(" })");
            }
            array_is_one_line(ipv4.address@);
            array_is_one_line(ipv4.gateway@);
            array_is_one_line(ipv4.dns@);
            number_lacks(ipv4.prefix_len as nat, '\n');
            let a = head + array_source(ipv4.address@);
            let b = a + ", prefix_len: "@;
            let c = b + decimal(ipv4.prefix_len as nat);
            let d = c + ", gateway: "@;
            let e = d + array_source(ipv4.gateway@);
            let f = e + ", dns: "@;
            let g = f + array_source(ipv4.dns@);
            lacks_joins(head, array_source(ipv4.address@), '\n');
            lacks_joins(a, ", prefix_len: "@, '\n');
            lacks_joins(b, decimal(ipv4.prefix_len as nat), '\n');
            lacks_joins(c, ", gateway: "@, '\n');
            lacks_joins(d, array_source(ipv4.gateway@), '\n');
            lacks_joins(e, ", dns: "@, '\n');
            lacks_joins(f, array_source(ipv4.dns@), '\n');
            lacks_joins(g, " })"@, '\n');
        },
    }
}

proof fn role_is_one_line(mode: BridgeMode)
    ensures
        lacks(bridge_source(mode), '\n'),
{
    assert(lacks("BridgeMode::TcpServer { port: "@, '\n')) by {
        reveal_strlit("BridgeMode::TcpServer { port: ");
    }
    assert(lacks("BridgeMode::TcpClient { host: "@, '\n')) by {
        reveal_strlit("BridgeMode::TcpClient { host: ");
    }
    assert(lacks(", port: "@, '\n') && lacks(" }"@, '\n')) by {
        reveal_strlit(", port: ");
        reveal_strlit(" }");
    }
    match mode {
        BridgeMode::TcpServer { port } => {
            let head = "BridgeMode::TcpServer { port: "@;
            number_lacks(port as nat, '\n');
            lacks_joins(head, decimal(port as nat), '\n');
            lacks_joins(head + decimal(port as nat), " }"@, '\n');
        },
        BridgeMode::TcpClient { host, port } => {
            let a = "BridgeMode::TcpClient { host: "@ + array_source(host@);
            let b = a + ", port: "@;
            number_lacks(port as nat, '\n');
            array_is_one_line(host@);
            lacks_joins("BridgeMode::TcpClient { host: "@, array_source(host@), '\n');
            lacks_joins(a, ", port: "@, '\n');
            lacks_joins(b, decimal(port as nat), '\n');
            lacks_joins(b + decimal(port as nat), " }"@, '\n');
        },
    }
}

/// Two lines that agree up to the same separator, which starts with a comma and a line feed, agree in
/// front of it and behind it.
proof fn lines_differ(x: Seq<char>, y: Seq<char>, sep: Seq<char>, p: Seq<char>, q: Seq<char>)
    requires
        lacks(x, '\n'),
        lacks(y, '\n'),
        sep.len() >= 2,
        sep[0] == ',',
        sep[1] == '\n',
        x + sep + p == y + sep + q,
    ensures
        x == y,
        p == q,
{
    let rest = sep.skip(2);
    lacks_joins(x, seq![','], '\n');
    lacks_joins(y, seq![','], '\n');
    assert(x + sep + p =~= (x + seq![',']) + seq!['\n'] + (rest + p));
    assert(y + sep + q =~= (y + seq![',']) + seq!['\n'] + (rest + q));
    cut_at_first(x + seq![','], rest + p, y + seq![','], rest + q, '\n');
    cut_label(rest, p, q);
    assert((x + seq![',']).drop_last() =~= x);
    assert((y + seq![',']).drop_last() =~= y);
}

/// The generated text says everything of a configuration: no two configurations have the same.
pub proof fn generated_text_tells_configurations_apart(a: BridgeConfig, b: BridgeConfig)
    requires
        config_source(a) == config_source(b),
    ensures
        a == b,
{
    let head = "pub const COMPILED_CONFIG: BridgeConfig = BridgeConfig {\n    mac_address: "@;
    let s1 = ",\n    address_mode: "@;
    let s2 = ",\n    bridge_mode: "@;
    let s3 = ",\n    upstream_mode: "@;
    let s4 = ",\n    uart_port: "@;
    let s5 = ",\n};\n"@;
    assert(s1.len() >= 2 && s1[0] == ',' && s1[1] == '\n') by {
        reveal_strlit(",\n    address_mode: ");
    }
    assert(s2.len() >= 2 && s2[0] == ',' && s2[1] == '\n') by {
        reveal_strlit(",\n    bridge_mode: ");
    }
    assert(s3.len() >= 2 && s3[0] == ',' && s3[1] == '\n') by {
        reveal_strlit(",\n    upstream_mode: ");
    }
    assert(s4.len() >= 2 && s4[0] == ',' && s4[1] == '\n') by {
        reveal_strlit(",\n    uart_port: ");
    }
    assert(s5.len() >= 2 && s5[0] == ',' && s5[1] == '\n') by {
        reveal_strlit(",\n};\n");
    }
    let end_a = uart_source(a.uart_port) + s5;
    let end_b = uart_source(b.uart_port) + s5;
    let up_a = upstream_source(a.upstream_mode) + s4 + end_a;
    let up_b = upstream_source(b.upstream_mode) + s4 + end_b;
    let role_a = bridge_source(a.bridge_mode) + s3 + up_a;
    let role_b = bridge_source(b.bridge_mode) + s3 + up_b;
    let from_a = address_source(a.address_mode) + s2 + role_a;
    let from_b = address_source(b.address_mode) + s2 + role_b;
    unfolded(a);
    unfolded(b);
    cut_label(
        head,
        array_source(a.mac_address@) + s1 + from_a,
        array_source(b.mac_address@) + s1 + from_b,
    );
    array_is_one_line(a.mac_address@);
    array_is_one_line(b.mac_address@);
    lines_differ(
        array_source(a.mac_address@),
        array_source(b.mac_address@),
        s1,
        from_a,
        from_b,
    );
    address_is_one_line(a.address_mode);
    address_is_one_line(b.address_mode);
    lines_differ(address_source(a.address_mode), address_source(b.address_mode), s2, role_a, role_b);
    role_is_one_line(a.bridge_mode);
    role_is_one_line(b.bridge_mode);
    lines_differ(bridge_source(a.bridge_mode), bridge_source(b.bridge_mode), s3, up_a, up_b);
    upstreams_differ(a.upstream_mode, b.upstream_mode);
    upstreams_differ(b.upstream_mode, a.upstream_mode);
    lines_differ(
        upstream_source(a.upstream_mode),
        upstream_source(b.upstream_mode),
        s4,
        end_a,
        end_b,
    );
    uarts_differ(a.uart_port, b.uart_port);
    uarts_differ(b.uart_port, a.uart_port);
    assert(end_a + Seq::<char>::empty() =~= end_a);
    assert(end_b + Seq::<char>::empty() =~= end_b);
    lines_differ(
        uart_source(a.uart_port),
        uart_source(b.uart_port),
        s5,
        Seq::empty(),
        Seq::empty(),
    );
    let nothing = Seq::<char>::empty();
    assert(nothing + array_source(a.mac_address@) + nothing =~= array_source(a.mac_address@));
    assert(nothing + array_source(b.mac_address@) + nothing =~= array_source(b.mac_address@));
    labelled_arrays_differ(nothing, a.mac_address@, nothing, b.mac_address@, nothing);
    assert(a.mac_address == b.mac_address);
    address_modes_differ(a.address_mode, b.address_mode);
    roles_differ(a.bridge_mode, b.bridge_mode);
}

/// The generated text, grouped from its end.
proof fn unfolded(c: BridgeConfig)
    ensures
        config_source(c)
            == "pub const COMPILED_CONFIG: BridgeConfig = BridgeConfig {\n    mac_address: "@ + (
        array_source(c.mac_address@) + ",\n    address_mode: "@ + (address_source(c.address_mode)
            + ",\n    bridge_mode: "@ + (bridge_source(c.bridge_mode) + ",\n    upstream_mode: "@ + (
        upstream_source(c.upstream_mode) + ",\n    uart_port: "@ + (uart_source(c.uart_port)
            + ",\n};\n"@))))),
{
    let head = "pub const COMPILED_CONFIG: BridgeConfig = BridgeConfig {\n    mac_address: "@;
    nested_pairs(
        head,
        array_source(c.mac_address@),
        ",\n    address_mode: "@,
        address_source(c.address_mode),
        ",\n    bridge_mode: "@,
        bridge_source(c.bridge_mode),
        ",\n    upstream_mode: "@,
        upstream_source(c.upstream_mode),
        ",\n    uart_port: "@,
        uart_source(c.uart_port),
        ",\n};\n"@,
    );
}

proof fn nested_pairs(
    a: Seq<char>,
    b: Seq<char>,
    c: Seq<char>,
    d: Seq<char>,
    e: Seq<char>,
    f: Seq<char>,
    g: Seq<char>,
    h: Seq<char>,
    i: Seq<char>,
    j: Seq<char>,
    k: Seq<char>,
)
    ensures
        a + b + c + d + e + f + g + h + i + j + k == a + (b + c + (d + e + (f + g + (h + i + (j
            + k))))),
{
    let s9 = a + b + c + d + e + f + g + h + i;
    assert(s9 + j + k =~= s9 + (j + k));
    let t9 = j + k;
    let s7 = a + b + c + d + e + f + g;
    assert(s7 + h + i + t9 =~= s7 + (h + i + t9));
    let t7 = h + i + t9;
    let s5 = a + b + c + d + e;
    assert(s5 + f + g + t7 =~= s5 + (f + g + t7));
    let t5 = f + g + t7;
    let s3 = a + b + c;
    assert(s3 + d + e + t5 =~= s3 + (d + e + t5));
    let t3 = d + e + t5;
    assert(a + b + c + t3 =~= a + (b + c + t3));
}

/// A MAC address has six parts, each a byte in hexadecimal.
pub proof fn macs_have_six_bytes(text: Seq<char>, at: int)
    requires
        0 <= at < 6,
    ensures
        mac_value(text) matches Some(mac) ==> split_on(text, ':').len() == 6 && hex_byte_value(
            split_on(text, ':')[at],
        ) == Some(mac[at]),
        split_on(text, ':').len() != 6 ==> mac_value(text) is None,
{
}

} // verus!
