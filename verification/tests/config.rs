//! Shell commands, rendering and the stored configuration record.

use pico_fi::config::apply_command;
use pico_fi::config::parse_command;
use pico_fi::config::render_config;
use pico_fi::config::AddressMode;
use pico_fi::config::BridgeConfig;
use pico_fi::config::BridgeMode;
use pico_fi::config::Command;
use pico_fi::config::Ipv4Config;
use pico_fi::config::UartPort;
use pico_fi::config::UpstreamMode;
use pico_fi::scan::word_count;
use pico_fi::storage::checksum32;
use pico_fi::storage::decode_record;
use pico_fi::storage::encode_record;

fn server_config() -> BridgeConfig {
    BridgeConfig {
        mac_address: [0x02, 0x00, 0x00, 0x12, 0x34, 0x56],
        address_mode: AddressMode::Dhcp,
        bridge_mode: BridgeMode::TcpServer { port: 7000 },
        upstream_mode: UpstreamMode::Uart,
        uart_port: UartPort::Uart0,
    }
}

fn client_config() -> BridgeConfig {
    BridgeConfig {
        mac_address: [0x02, 0xab, 0xcd, 0xef, 0x00, 0xff],
        address_mode: AddressMode::Static(Ipv4Config {
            address: [192, 168, 100, 150],
            prefix_len: 24,
            gateway: [192, 168, 100, 1],
            dns: [1, 1, 1, 1],
        }),
        bridge_mode: BridgeMode::TcpClient {
            host: [10, 0, 0, 5],
            port: 65535,
        },
        upstream_mode: UpstreamMode::SpiEcho,
        uart_port: UartPort::Uart1,
    }
}

#[test]
fn parses_static() {
    let cmd = parse_command("set static 192.168.10.50/24 192.168.10.1 1.1.1.1")
        .expect("static config command should parse");
    assert_eq!(
        cmd,
        Command::SetStatic(Ipv4Config {
            address: [192, 168, 10, 50],
            prefix_len: 24,
            gateway: [192, 168, 10, 1],
            dns: [1, 1, 1, 1],
        })
    );
}

#[test]
fn parses_client() {
    let cmd = parse_command("set client 10.0.0.5 7000")
        .expect("client config command should parse");
    assert_eq!(
        cmd,
        Command::SetClient {
            host: [10, 0, 0, 5],
            port: 7000,
        }
    );
}

#[test]
fn parses_upstream_test() {
    let cmd = parse_command("set upstream test")
        .expect("upstream mode command should parse");
    assert_eq!(cmd, Command::SetUpstream(UpstreamMode::Test));
}

#[test]
fn parses_upstream_i2c() {
    let cmd = parse_command("set upstream i2c")
        .expect("upstream mode command should parse");
    assert_eq!(cmd, Command::SetUpstream(UpstreamMode::I2c));
}

#[test]
fn parses_upstream_spi() {
    let cmd = parse_command("set upstream spi")
        .expect("upstream mode command should parse");
    assert_eq!(cmd, Command::SetUpstream(UpstreamMode::Spi));
}

#[test]
fn parses_the_short_commands() {
    assert_eq!(parse_command("help"), Ok(Command::Help));
    assert_eq!(parse_command("  show\t"), Ok(Command::Show));
    assert_eq!(parse_command("start"), Ok(Command::Start));
    assert_eq!(parse_command("reset"), Ok(Command::Reset));
    assert_eq!(parse_command("set dhcp"), Ok(Command::SetDhcp));
    assert_eq!(parse_command("set  server +7000"), Ok(Command::SetServer { port: 7000 }));
    assert_eq!(
        parse_command("set upstream spiecho"),
        Ok(Command::SetUpstream(UpstreamMode::SpiEcho))
    );
    assert_eq!(
        parse_command("set upstream spi_echo"),
        Ok(Command::SetUpstream(UpstreamMode::SpiEcho))
    );
    assert_eq!(
        parse_command("set upstream \u{b}uart\u{a0}"),
        Ok(Command::SetUpstream(UpstreamMode::Uart))
    );
}

#[test]
fn refuses_what_it_does_not_know() {
    assert_eq!(parse_command(""), Err("empty command"));
    assert_eq!(parse_command(" \t "), Err("empty command"));
    assert_eq!(parse_command("help me"), Err("unknown command"));
    assert_eq!(parse_command("set upstream usb"), Err("unknown command"));
    assert_eq!(parse_command("set server 65536"), Err("invalid port"));
    assert_eq!(parse_command("set server -1"), Err("invalid port"));
    assert_eq!(parse_command("set server +"), Err("invalid port"));
    assert_eq!(parse_command("set client 10.0.0 7000"), Err("invalid ipv4 address"));
    assert_eq!(parse_command("set client 10.0.0.5.6 7000"), Err("invalid ipv4 address"));
    assert_eq!(parse_command("set client 10.0.0.256 7000"), Err("invalid ipv4 address"));
    assert_eq!(parse_command("set client 10..0.5 7000"), Err("invalid ipv4 address"));
    assert_eq!(parse_command("set client 10.0.0.5 port"), Err("invalid port"));
    assert_eq!(
        parse_command("set static 10.0.0.5 10.0.0.1 1.1.1.1"),
        Err("expected cidr form a.b.c.d/prefix")
    );
    assert_eq!(parse_command("set static 10.0.0.5/33 10.0.0.1 1.1.1.1"), Err("invalid prefix"));
    assert_eq!(parse_command("set static 10.0.0.5/ 10.0.0.1 1.1.1.1"), Err("invalid prefix"));
    assert_eq!(
        parse_command("set static 10.0.0.5/24 10.0.0.1 1.1.1"),
        Err("invalid ipv4 address")
    );
}

#[test]
fn words_are_counted() {
    assert_eq!(word_count("a b c d e f g h"), 8);
    assert_eq!(parse_command("a b c d e f g h"), Err("unknown command"));
    assert_eq!(word_count(" a b c d e f g h i "), 9);
    assert_eq!(word_count("\r\n"), 0);
}

#[test]
fn commands_change_one_setting() {
    let mut config = server_config();
    assert!(!apply_command(&mut config, Command::Help));
    assert!(!apply_command(&mut config, Command::Show));
    assert!(!apply_command(&mut config, Command::Reset));
    assert!(apply_command(&mut config, Command::Start));
    assert_eq!(config, server_config());
    assert!(!apply_command(&mut config, Command::SetUpstream(UpstreamMode::Spi)));
    assert_eq!(config.upstream_mode, UpstreamMode::Spi);
    assert!(!apply_command(
        &mut config,
        Command::SetClient {
            host: [1, 2, 3, 4],
            port: 5
        }
    ));
    assert_eq!(
        config.bridge_mode,
        BridgeMode::TcpClient {
            host: [1, 2, 3, 4],
            port: 5
        }
    );
    assert!(!apply_command(&mut config, Command::SetServer { port: 6 }));
    assert_eq!(config.bridge_mode, BridgeMode::TcpServer { port: 6 });
    let ipv4 = Ipv4Config {
        address: [1, 2, 3, 4],
        prefix_len: 8,
        gateway: [1, 0, 0, 1],
        dns: [8, 8, 8, 8],
    };
    assert!(!apply_command(&mut config, Command::SetStatic(ipv4)));
    assert_eq!(config.address_mode, AddressMode::Static(ipv4));
    assert!(!apply_command(&mut config, Command::SetDhcp));
    assert_eq!(config.address_mode, AddressMode::Dhcp);
    assert_eq!(config.mac_address, server_config().mac_address);
}

#[test]
fn renders_one_line() {
    assert_eq!(
        render_config(&server_config()).as_str(),
        "mac=02:00:00:12:34:56 ip=dhcp mode=server listen=7000 upstream=uart"
    );
    assert_eq!(
        render_config(&client_config()).as_str(),
        "mac=02:ab:cd:ef:00:ff ip=static 192.168.100.150/24 gw=192.168.100.1 dns=1.1.1.1 \
         mode=client dest=10.0.0.5:65535 upstream=spi_echo"
    );
    let mut config = server_config();
    for (mode, name) in [
        (UpstreamMode::I2c, "i2c"),
        (UpstreamMode::Usb, "usb"),
        (UpstreamMode::Test, "test"),
        (UpstreamMode::Spi, "spi"),
        (UpstreamMode::SpiStatic, "spi_static"),
        (UpstreamMode::SpiLineHigh, "spi_line_high"),
    ] {
        config.upstream_mode = mode;
        assert!(render_config(&config).as_str().ends_with(&format!(" upstream={name}")));
    }
}

#[test]
fn shown_addresses_can_be_typed_back() {
    let ipv4 = Ipv4Config {
        address: [192, 168, 100, 150],
        prefix_len: 24,
        gateway: [192, 168, 100, 1],
        dns: [1, 1, 1, 1],
    };
    assert_eq!(
        parse_command("set static 192.168.100.150/24 192.168.100.1 1.1.1.1"),
        Ok(Command::SetStatic(ipv4))
    );
}

#[test]
fn records_read_back() {
    let mut config = client_config();
    for upstream_mode in [
        UpstreamMode::Uart,
        UpstreamMode::I2c,
        UpstreamMode::Usb,
        UpstreamMode::Test,
        UpstreamMode::Spi,
        UpstreamMode::SpiEcho,
        UpstreamMode::SpiStatic,
        UpstreamMode::SpiLineHigh,
    ] {
        config.upstream_mode = upstream_mode;
        assert_eq!(decode_record(&encode_record(config)), Some(config));
    }
    assert_eq!(decode_record(&encode_record(server_config())), Some(server_config()));
}

#[test]
fn record_layout() {
    let buf = encode_record(server_config());
    assert_eq!(&buf[..4], b"PCFG");
    assert_eq!(buf[4], 2);
    assert_eq!(&buf[5..11], &[0x02, 0x00, 0x00, 0x12, 0x34, 0x56]);
    assert_eq!(buf[11], 0);
    assert!(buf[12..25].iter().all(|&byte| byte == 0xff));
    assert_eq!(buf[25], 1);
    assert!(buf[26..30].iter().all(|&byte| byte == 0xff));
    assert_eq!(&buf[30..34], &[0x58, 0x1b, 0, 0]);
    assert!(buf[34..60].iter().all(|&byte| byte == 0xff));
    assert_eq!(&buf[60..], &checksum32(&buf[..60]).to_le_bytes());
    let buf = encode_record(client_config());
    assert_eq!(
        &buf[11..34],
        &[
            1, 192, 168, 100, 150, 24, 192, 168, 100, 1, 1, 1, 1, 1, 0, 10, 0, 0, 5, 0xff, 0xff, 5, 1
        ]
    );
}

#[test]
fn checksum_values() {
    assert_eq!(checksum32(b""), 0x811c_9dc5);
    assert_eq!(checksum32(b"a"), 0xe40c_292c);
    assert_eq!(checksum32(b"foobar"), 0xbf9c_f968);
}

#[test]
fn damaged_records_are_refused() {
    let buf = encode_record(client_config());
    for index in 0..buf.len() {
        let mut damaged = buf;
        damaged[index] ^= 0x10;
        assert_eq!(decode_record(&damaged), None);
    }
    assert_eq!(decode_record(&[0xff; 64]), None);
}

#[test]
fn unknown_codes_are_refused() {
    for index in [11, 25, 32, 33] {
        let mut buf = encode_record(client_config());
        buf[index] = 8;
        let checksum = checksum32(&buf[..60]);
        buf[60..].copy_from_slice(&checksum.to_le_bytes());
        assert_eq!(decode_record(&buf), None);
    }
}
