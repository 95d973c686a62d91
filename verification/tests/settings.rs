//! Build settings.

use pico_fi::config::render_config;
use pico_fi::config::AddressMode;
use pico_fi::config::BridgeConfig;
use pico_fi::config::BridgeMode;
use pico_fi::config::Ipv4Config;
use pico_fi::config::UartPort;
use pico_fi::config::UpstreamMode;
use pico_fi::scan::parse_hex_byte;
use pico_fi::settings::compiled_config;
use pico_fi::settings::parse_mac;
use pico_fi::settings::render_generated_config;
use pico_fi::settings::JsonBridgeConfig;
use pico_fi::settings::JsonConfig;
use pico_fi::settings::JsonNetworkConfig;
use pico_fi::settings::JsonUpstreamConfig;

fn text(value: &str) -> Option<String> {
    Some(value.to_string())
}

fn server_settings() -> JsonConfig {
    JsonConfig {
        network: JsonNetworkConfig {
            mac: None,
            mode: "dhcp".to_string(),
            ip: None,
            prefix_len: None,
            gateway: None,
            dns: None,
        },
        bridge: JsonBridgeConfig {
            role: "server".to_string(),
            listen_port: Some(7000),
            remote_ip: None,
            remote_port: None,
        },
        upstream: JsonUpstreamConfig {
            transport: "uart".to_string(),
        },
    }
}

fn client_settings() -> JsonConfig {
    JsonConfig {
        network: JsonNetworkConfig {
            mac: text("02:AB:cd:0:+f:56"),
            mode: "static".to_string(),
            ip: text("192.168.1.50"),
            prefix_len: Some(24),
            gateway: text("192.168.1.1"),
            dns: text("8.8.8.8"),
        },
        bridge: JsonBridgeConfig {
            role: "client".to_string(),
            listen_port: None,
            remote_ip: text("192.168.1.60"),
            remote_port: Some(9000),
        },
        upstream: JsonUpstreamConfig {
            transport: "spi".to_string(),
        },
    }
}

fn message(settings: &JsonConfig) -> String {
    match compiled_config(settings) {
        Ok(_) => panic!("the settings were accepted"),
        Err(message) => message,
    }
}

#[test]
fn server_settings_compile() {
    assert_eq!(
        compiled_config(&server_settings()),
        Ok(BridgeConfig {
            mac_address: [0x02, 0x00, 0x00, 0x12, 0x34, 0x56],
            address_mode: AddressMode::Dhcp,
            bridge_mode: BridgeMode::TcpServer { port: 7000 },
            upstream_mode: UpstreamMode::Uart,
            uart_port: UartPort::Uart0,
        })
    );
}

#[test]
fn client_settings_compile() {
    assert_eq!(
        compiled_config(&client_settings()),
        Ok(BridgeConfig {
            mac_address: [0x02, 0xab, 0xcd, 0x00, 0x0f, 0x56],
            address_mode: AddressMode::Static(Ipv4Config {
                address: [192, 168, 1, 50],
                prefix_len: 24,
                gateway: [192, 168, 1, 1],
                dns: [8, 8, 8, 8],
            }),
            bridge_mode: BridgeMode::TcpClient {
                host: [192, 168, 1, 60],
                port: 9000,
            },
            upstream_mode: UpstreamMode::Spi,
            uart_port: UartPort::Uart0,
        })
    );
}

#[test]
fn settings_become_source_text() {
    let server = compiled_config(&server_settings()).unwrap();
    assert_eq!(
        render_generated_config(&server),
        "pub const COMPILED_CONFIG: BridgeConfig = BridgeConfig {\n    mac_address: [2, 0, 0, 18, 52, 86],\n    address_mode: AddressMode::Dhcp,\n    bridge_mode: BridgeMode::TcpServer { port: 7000 },\n    upstream_mode: UpstreamMode::Uart,\n    uart_port: UartPort::Uart0,\n};\n"
    );
    let client = compiled_config(&client_settings()).unwrap();
    assert_eq!(
        render_generated_config(&client),
        "pub const COMPILED_CONFIG: BridgeConfig = BridgeConfig {\n    mac_address: [2, 171, 205, 0, 15, 86],\n    address_mode: AddressMode::Static(Ipv4Config { address: [192, 168, 1, 50], prefix_len: 24, gateway: [192, 168, 1, 1], dns: [8, 8, 8, 8] }),\n    bridge_mode: BridgeMode::TcpClient { host: [192, 168, 1, 60], port: 9000 },\n    upstream_mode: UpstreamMode::Spi,\n    uart_port: UartPort::Uart0,\n};\n"
    );
}

#[test]
fn wrong_mac_settings_are_refused() {
    for mac in ["", "02:00:00:12:34", "02:00:00:12:34:56:78", "02:00:00:12:34:100", "02:00:00:12:34:g0", "02:00:00:12:34:+", "02-00-00-12-34-56"] {
        let mut settings = server_settings();
        settings.network.mac = text(mac);
        assert_eq!(message(&settings), "invalid mac address");
        assert_eq!(parse_mac(mac), None);
    }
}

#[test]
fn wrong_network_settings_are_refused() {
    let mut settings = server_settings();
    settings.network.mode = "auto".to_string();
    assert_eq!(message(&settings), "unsupported network.mode: auto");

    let mut settings = client_settings();
    settings.network.ip = None;
    assert_eq!(message(&settings), "network.ip is required");

    let mut settings = client_settings();
    settings.network.gateway = text("192.168.1");
    assert_eq!(message(&settings), "invalid ipv4 address in network.gateway");

    let mut settings = client_settings();
    settings.network.dns = text("8.8.8.256");
    settings.network.prefix_len = None;
    assert_eq!(message(&settings), "invalid ipv4 address in network.dns");

    let mut settings = client_settings();
    settings.network.prefix_len = None;
    assert_eq!(
        message(&settings),
        "network.prefix_len is required for static mode"
    );
}

#[test]
fn wrong_bridge_settings_are_refused() {
    let mut settings = server_settings();
    settings.bridge.listen_port = None;
    assert_eq!(
        message(&settings),
        "bridge.listen_port is required for server role"
    );

    let mut settings = client_settings();
    settings.bridge.remote_ip = None;
    assert_eq!(message(&settings), "bridge.remote_ip is required");

    let mut settings = client_settings();
    settings.bridge.remote_port = None;
    assert_eq!(
        message(&settings),
        "bridge.remote_port is required for client role"
    );

    let mut settings = client_settings();
    settings.bridge.role = "peer".to_string();
    assert_eq!(message(&settings), "unsupported bridge.role: peer");
}

#[test]
fn wrong_upstream_settings_are_refused() {
    let mut settings = server_settings();
    settings.upstream.transport = "i2c".to_string();
    assert_eq!(message(&settings), "unsupported upstream.transport: i2c");
}

#[test]
fn shown_mac_can_be_set_again() {
    let mut config = compiled_config(&client_settings()).unwrap();
    config.mac_address = [0x00, 0xff, 0x1a, 0xa1, 0x9f, 0xf9];
    let shown = render_config(&config);
    assert!(shown.as_str().starts_with("mac=00:ff:1a:a1:9f:f9 "));
    assert_eq!(parse_mac(&shown.as_str()[4..21]), Some(config.mac_address));
}

#[test]
fn hexadecimal_bytes_are_read() {
    assert_eq!(parse_hex_byte("ff"), Some(255));
    assert_eq!(parse_hex_byte("0000FF"), Some(255));
    assert_eq!(parse_hex_byte("+7"), Some(7));
    assert_eq!(parse_hex_byte("100"), None);
    assert_eq!(parse_hex_byte("-1"), None);
    assert_eq!(parse_hex_byte(""), None);
}
