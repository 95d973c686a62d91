//! Record format of the persisted bridge configuration.

use crate::bytes::high_byte;
use crate::bytes::le16;
use crate::bytes::le16_round_trip;
use crate::bytes::le32;
use crate::bytes::le32_round_trip;
use crate::bytes::le32_tells_bytes_apart;
use crate::bytes::le_bytes32;
use crate::bytes::low_byte;
use crate::bytes::read_le16;
use crate::bytes::read_le32;
use crate::bytes::write_at;
use crate::config::AddressMode;
use crate::config::BridgeConfig;
use crate::config::BridgeMode;
use crate::config::Ipv4Config;
use crate::config::UartPort;
use crate::config::UpstreamMode;
use vstd::arithmetic::div_mod::lemma_mod_multiples_vanish;
use vstd::arithmetic::div_mod::lemma_mul_mod_noop_left;
use vstd::arithmetic::div_mod::lemma_mul_mod_noop_right;
use vstd::arithmetic::div_mod::lemma_small_mod;
use vstd::arithmetic::mul::lemma_mul_is_associative;
use vstd::prelude::*;

verus! {

/// Total onboard flash size configured by the linker script.
pub const FLASH_SIZE_BYTES: usize = 2097152;

/// Size of the flash sector that holds the record.
pub const SECTOR_SIZE: usize = 4096;

/// Offset of the reserved config sector from the beginning of flash.
pub const CONFIG_SECTOR_OFFSET: u32 = 2093056;

/// Persistence format version for forward compatibility.
pub const CONFIG_VERSION: u8 = 2;

/// Size of the serialized config record stored in flash.
pub const RECORD_SIZE: usize = 64;

/// Number of record bytes covered by the checksum.
pub const CHECKED_SIZE: usize = 60;

/// Start value of the checksum.
pub const CHECKSUM_SEED: u32 = 0x811c9dc5;

/// Factor of the checksum.
pub const CHECKSUM_PRIME: u32 = 0x0100_0193;

/// The letters `PCFG` that identify a valid record.
pub open spec fn config_magic() -> Seq<u8> {
    seq![0x50, 0x43, 0x46, 0x47]
}

/// The checksum of a byte sequence.
pub open spec fn checksum(bytes: Seq<u8>) -> u32
    decreases bytes.len(),
{
    if bytes.len() == 0 {
        CHECKSUM_SEED
    } else {
        (checksum(bytes.drop_last()) ^ bytes.last() as u32).wrapping_mul(CHECKSUM_PRIME)
    }
}

/// A run of erased flash bytes.
pub open spec fn erased(len: nat) -> Seq<u8> {
    Seq::new(len, |i: int| 0xffu8)
}

/// The record byte of an address mode.
pub open spec fn address_code(mode: AddressMode) -> u8 {
    match mode {
        AddressMode::Dhcp => 0,
        AddressMode::Static(_) => 1,
    }
}

/// The record byte of a bridge mode.
pub open spec fn bridge_code(mode: BridgeMode) -> u8 {
    match mode {
        BridgeMode::TcpClient { host, port } => 0,
        BridgeMode::TcpServer { port } => 1,
    }
}

/// The record byte of an upstream mode.
pub open spec fn upstream_code(mode: UpstreamMode) -> u8 {
    match mode {
        UpstreamMode::Uart => 0,
        UpstreamMode::I2c => 1,
        UpstreamMode::Usb => 2,
        UpstreamMode::Test => 3,
        UpstreamMode::Spi => 4,
        UpstreamMode::SpiEcho => 5,
        UpstreamMode::SpiStatic => 6,
        UpstreamMode::SpiLineHigh => 7,
    }
}

/// The record byte of a UART.
pub open spec fn uart_code(port: UartPort) -> u8 {
    match port {
        UartPort::Uart0 => 0,
        UartPort::Uart1 => 1,
    }
}

/// The static address fields of a record, left erased without static settings.
pub open spec fn address_fields(mode: AddressMode) -> Seq<u8> {
    match mode {
        AddressMode::Dhcp => erased(13),
        AddressMode::Static(ipv4) => ipv4.address@ + seq![ipv4.prefix_len] + ipv4.gateway@
            + ipv4.dns@,
    }
}

/// The host and port fields of a record, with the host left erased in server mode.
pub open spec fn bridge_fields(mode: BridgeMode) -> Seq<u8> {
    match mode {
        BridgeMode::TcpClient { host, port } => host@ + seq![
            low_byte(port as nat),
            high_byte(port as nat),
        ],
        BridgeMode::TcpServer { port } => erased(4) + seq![
            low_byte(port as nat),
            high_byte(port as nat),
        ],
    }
}

/// The checked part of the record of a configuration.
pub open spec fn record_body(config: BridgeConfig) -> Seq<u8> {
    config_magic() + seq![CONFIG_VERSION] + config.mac_address@ + seq![
        address_code(config.address_mode),
    ] + address_fields(config.address_mode) + seq![bridge_code(config.bridge_mode)] + bridge_fields(
        config.bridge_mode,
    ) + seq![upstream_code(config.upstream_mode), uart_code(config.uart_port)] + erased(26)
}

/// The record of a configuration.
pub open spec fn record(config: BridgeConfig) -> Seq<u8> {
    record_body(config) + le_bytes32(checksum(record_body(config)))
}

/// Four bytes of a record as an address.
pub open spec fn quad_at(buf: Seq<u8>, at: int) -> [u8; 4] {
    [buf[at], buf[at + 1], buf[at + 2], buf[at + 3]]
}

/// The address mode stored in a record.
pub open spec fn stored_address(buf: Seq<u8>) -> Option<AddressMode> {
    if buf[11] == 0 {
        Some(AddressMode::Dhcp)
    } else if buf[11] == 1 {
        Some(
            AddressMode::Static(
                Ipv4Config {
                    address: quad_at(buf, 12),
                    prefix_len: buf[16],
                    gateway: quad_at(buf, 17),
                    dns: quad_at(buf, 21),
                },
            ),
        )
    } else {
        None
    }
}

/// The bridge mode stored in a record.
pub open spec fn stored_bridge(buf: Seq<u8>) -> Option<BridgeMode> {
    if buf[25] == 0 {
        Some(BridgeMode::TcpClient { host: quad_at(buf, 26), port: le16(buf[30], buf[31]) as u16 })
    } else if buf[25] == 1 {
        Some(BridgeMode::TcpServer { port: le16(buf[30], buf[31]) as u16 })
    } else {
        None
    }
}

/// The upstream mode with the given record byte.
pub open spec fn stored_upstream(code: u8) -> Option<UpstreamMode> {
    if code == 0 {
        Some(UpstreamMode::Uart)
    } else if code == 1 {
        Some(UpstreamMode::I2c)
    } else if code == 2 {
        Some(UpstreamMode::Usb)
    } else if code == 3 {
        Some(UpstreamMode::Test)
    } else if code == 4 {
        Some(UpstreamMode::Spi)
    } else if code == 5 {
        Some(UpstreamMode::SpiEcho)
    } else if code == 6 {
        Some(UpstreamMode::SpiStatic)
    } else if code == 7 {
        Some(UpstreamMode::SpiLineHigh)
    } else {
        None
    }
}

/// The UART with the given record byte.
pub open spec fn stored_uart(code: u8) -> Option<UartPort> {
    if code == 0 {
        Some(UartPort::Uart0)
    } else if code == 1 {
        Some(UartPort::Uart1)
    } else {
        None
    }
}

/// Whether a record starts with the magic and the version and carries the right checksum.
pub open spec fn record_is_intact(buf: Seq<u8>) -> bool {
    &&& buf.take(4) == config_magic()
    &&& buf[4] == CONFIG_VERSION
    &&& checksum(buf.take(CHECKED_SIZE as int)) == le32(buf[60], buf[61], buf[62], buf[63])
}

/// The configuration that a record holds, if it is intact and every code in it is known.
pub open spec fn stored_config(buf: Seq<u8>) -> Option<BridgeConfig> {
    if record_is_intact(buf) && stored_address(buf) is Some && stored_bridge(buf) is Some
        && stored_upstream(buf[32]) is Some && stored_uart(buf[33]) is Some {
        Some(
            BridgeConfig {
                mac_address: [buf[5], buf[6], buf[7], buf[8], buf[9], buf[10]],
                address_mode: stored_address(buf)->0,
                bridge_mode: stored_bridge(buf)->0,
                upstream_mode: stored_upstream(buf[32])->0,
                uart_port: stored_uart(buf[33])->0,
            },
        )
    } else {
        None
    }
}

/// Serializes a bridge config into the fixed flash record format.
#[verifier::rlimit(40)]
pub fn encode_record(config: BridgeConfig) -> (buf: [u8; RECORD_SIZE])
    ensures
        buf@ == record(config),
{
    let mut buf = [0xffu8; RECORD_SIZE];
    buf[0] = 0x50;
    buf[1] = 0x43;
    buf[2] = 0x46;
    buf[3] = 0x47;
    buf[4] = CONFIG_VERSION;
    write_at(&mut buf, 5, &config.mac_address);
    buf[11] = encode_address_mode(config.address_mode);
    match config.address_mode {
        AddressMode::Dhcp => {},
        AddressMode::Static(ipv4) => {
            write_at(&mut buf, 12, &ipv4.address);
            buf[16] = ipv4.prefix_len;
            write_at(&mut buf, 17, &ipv4.gateway);
            write_at(&mut buf, 21, &ipv4.dns);
        },
    }
    buf[25] = encode_bridge_mode(config.bridge_mode);
    match config.bridge_mode {
        BridgeMode::TcpClient { host, port } => {
            write_at(&mut buf, 26, &host);
            buf[30] = (port % 256) as u8;
            buf[31] = (port / 256) as u8;
        },
        BridgeMode::TcpServer { port } => {
            buf[30] = (port % 256) as u8;
            buf[31] = (port / 256) as u8;
        },
    }
    buf[32] = encode_upstream_mode(config.upstream_mode);
    buf[33] = encode_uart_port(config.uart_port);
    assert(buf@.take(CHECKED_SIZE as int) =~= record_body(config));
    seal_record(&mut buf);
    buf
}

/// Writes the checksum behind the checked part of a record.
fn seal_record(buf: &mut [u8; RECORD_SIZE])
    ensures
        final(buf)@ == old(buf)@.take(CHECKED_SIZE as int) + le_bytes32(
            checksum(old(buf)@.take(CHECKED_SIZE as int)),
        ),
{
    let ghost body = buf@.take(CHECKED_SIZE as int);
    let hash: u32 = checksum32(&buf[0..CHECKED_SIZE]);
    assert(buf@.subrange(0, CHECKED_SIZE as int) =~= body);
    buf[60] = (hash % 256) as u8;
    buf[61] = ((hash / 256) % 256) as u8;
    buf[62] = ((hash / 65536) % 256) as u8;
    buf[63] = (hash / 16777216) as u8;
    assert(buf@ =~= body + le_bytes32(hash));
}

/// Decodes and validates a persisted flash record into a bridge config.
pub fn decode_record(buf: &[u8; RECORD_SIZE]) -> (r: Option<BridgeConfig>)
    ensures
        r == stored_config(buf@),
{
    let magic_ok = buf[0] == 0x50 && buf[1] == 0x43 && buf[2] == 0x46 && buf[3] == 0x47;
    proof {
        if magic_ok {
            assert(buf@.take(4) =~= config_magic());
        } else {
            assert(buf@.take(4)[0] == buf@[0]);
            assert(buf@.take(4)[1] == buf@[1]);
            assert(buf@.take(4)[2] == buf@[2]);
            assert(buf@.take(4)[3] == buf@[3]);
        }
        assert(buf@.subrange(0, CHECKED_SIZE as int) == buf@.take(CHECKED_SIZE as int));
    }
    if !magic_ok || buf[4] != CONFIG_VERSION {
        return None;
    }
    let expected: u32 = read_le32(buf[60], buf[61], buf[62], buf[63]);
    if checksum32(&buf[0..CHECKED_SIZE]) != expected {
        return None;
    }
    let address_mode = match buf[11] {
        0 => AddressMode::Dhcp,
        1 => AddressMode::Static(
            Ipv4Config {
                address: read_quad(buf, 12),
                prefix_len: buf[16],
                gateway: read_quad(buf, 17),
                dns: read_quad(buf, 21),
            },
        ),
        _ => return None,
    };
    let bridge_mode = match buf[25] {
        0 => BridgeMode::TcpClient {
            host: read_quad(buf, 26),
            port: read_le16(buf[30], buf[31]),
        },
        1 => BridgeMode::TcpServer { port: read_le16(buf[30], buf[31]) },
        _ => return None,
    };
    let upstream_mode = match buf[32] {
        0 => UpstreamMode::Uart,
        1 => UpstreamMode::I2c,
        2 => UpstreamMode::Usb,
        3 => UpstreamMode::Test,
        4 => UpstreamMode::Spi,
        5 => UpstreamMode::SpiEcho,
        6 => UpstreamMode::SpiStatic,
        7 => UpstreamMode::SpiLineHigh,
        _ => return None,
    };
    let uart_port = match buf[33] {
        0 => UartPort::Uart0,
        1 => UartPort::Uart1,
        _ => return None,
    };
    Some(
        BridgeConfig {
            mac_address: [buf[5], buf[6], buf[7], buf[8], buf[9], buf[10]],
            address_mode,
            bridge_mode,
            upstream_mode,
            uart_port,
        },
    )
}

fn read_quad(buf: &[u8; RECORD_SIZE], at: usize) -> (r: [u8; 4])
    requires
        at + 4 <= RECORD_SIZE,
    ensures
        r == quad_at(buf@, at as int),
{
    [buf[at], buf[at + 1], buf[at + 2], buf[at + 3]]
}

/// Encodes the address mode into the compact flash record representation.
fn encode_address_mode(mode: AddressMode) -> (code: u8)
    ensures
        code == address_code(mode),
{
    match mode {
        AddressMode::Dhcp => 0,
        AddressMode::Static(_) => 1,
    }
}

/// Encodes the bridge mode into the compact flash record representation.
fn encode_bridge_mode(mode: BridgeMode) -> (code: u8)
    ensures
        code == bridge_code(mode),
{
    match mode {
        BridgeMode::TcpClient { .. } => 0,
        BridgeMode::TcpServer { .. } => 1,
    }
}

/// Encodes the upstream mode into the compact flash record representation.
fn encode_upstream_mode(mode: UpstreamMode) -> (code: u8)
    ensures
        code == upstream_code(mode),
{
    match mode {
        UpstreamMode::Uart => 0,
        UpstreamMode::I2c => 1,
        UpstreamMode::Usb => 2,
        UpstreamMode::Test => 3,
        UpstreamMode::Spi => 4,
        UpstreamMode::SpiEcho => 5,
        UpstreamMode::SpiStatic => 6,
        UpstreamMode::SpiLineHigh => 7,
    }
}

/// Encodes the selected UART into the compact flash record representation.
fn encode_uart_port(port: UartPort) -> (code: u8)
    ensures
        code == uart_code(port),
{
    match port {
        UartPort::Uart0 => 0,
        UartPort::Uart1 => 1,
    }
}

/// Computes a simple checksum for corruption detection on the flash record.
pub fn checksum32(bytes: &[u8]) -> (hash: u32)
    ensures
        hash == checksum(bytes@),
{
    let mut hash: u32 = CHECKSUM_SEED;
    let n: usize = bytes.len();
    assert(bytes@.take(0) == Seq::<u8>::empty());
    for i in 0..n
        invariant
            n == bytes@.len(),
            hash == checksum(bytes@.take(i as int)),
    {
        assert(bytes@.take(i + 1).drop_last() == bytes@.take(i as int));
        hash = (hash ^ bytes[i] as u32).wrapping_mul(CHECKSUM_PRIME);
    }
    assert(bytes@.take(n as int) == bytes@);
    hash
}

/// A configuration that was stored is read back unchanged.
#[verifier::rlimit(40)]
pub proof fn stored_record_reads_back(config: BridgeConfig)
    ensures
        stored_config(record(config)) == Some(config),
{
    let buf = record(config);
    let body = record_body(config);
    assert(body.len() == CHECKED_SIZE);
    assert(buf.take(CHECKED_SIZE as int) =~= body);
    assert(buf.take(4) =~= config_magic());
    let hash = checksum(body);
    assert(le32(buf[60], buf[61], buf[62], buf[63]) == hash);
    assert([buf[5], buf[6], buf[7], buf[8], buf[9], buf[10]] =~= config.mac_address);
    match config.address_mode {
        AddressMode::Static(ipv4) => {
            assert(quad_at(buf, 12) =~= ipv4.address);
            assert(quad_at(buf, 17) =~= ipv4.gateway);
            assert(quad_at(buf, 21) =~= ipv4.dns);
        },
        AddressMode::Dhcp => {},
    }
    match config.bridge_mode {
        BridgeMode::TcpClient { host, port } => {
            assert(quad_at(buf, 26) =~= host);
        },
        BridgeMode::TcpServer { port } => {},
    }
}

/// An erased sector holds no configuration.
pub proof fn erased_record_is_refused()
    ensures
        stored_config(erased(RECORD_SIZE as nat)) is None,
{
    assert(erased(RECORD_SIZE as nat).take(4)[0] == 0xff);
}

/// Multiplying by the checksum factor can be undone modulo the word size.
proof fn checksum_factor_is_invertible(a: int)
    requires
        0 <= a < 0x1_0000_0000,
    ensures
        (((a * CHECKSUM_PRIME) % 0x1_0000_0000) * 899433627) % 0x1_0000_0000 == a,
{
    let word = 0x1_0000_0000int;
    let inverse = 899433627int;
    lemma_mul_mod_noop_left(a * CHECKSUM_PRIME, inverse, word);
    lemma_mul_is_associative(a, CHECKSUM_PRIME as int, inverse);
    assert(CHECKSUM_PRIME * inverse == 3513497 * word + 1);
    lemma_mul_mod_noop_right(a, CHECKSUM_PRIME * inverse, word);
    lemma_mod_multiples_vanish(3513497, 1, word);
    lemma_small_mod(a as nat, word as nat);
}

/// One checksum step never maps two states to one, nor two bytes to one.
proof fn checksum_step_is_injective(h: u32, g: u32, b: u8, c: u8)
    ensures
        (h ^ b as u32).wrapping_mul(CHECKSUM_PRIME) == (g ^ c as u32).wrapping_mul(CHECKSUM_PRIME)
            ==> (h ^ b as u32) == (g ^ c as u32),
        h == g && (h ^ b as u32) == (g ^ c as u32) ==> b == c,
        b == c && (h ^ b as u32) == (g ^ c as u32) ==> h == g,
{
    checksum_factor_is_invertible((h ^ b as u32) as int);
    checksum_factor_is_invertible((g ^ c as u32) as int);
    assert(h ^ (b as u32) == h ^ (c as u32) ==> b == c) by (bit_vector);
    assert(h ^ (b as u32) == g ^ (b as u32) ==> h == g) by (bit_vector);
}

/// Two byte sequences that differ in one byte have different checksums.
pub proof fn checksum_detects_one_changed_byte(bytes: Seq<u8>, at: int, changed: u8)
    requires
        0 <= at < bytes.len(),
        changed != bytes[at],
    ensures
        checksum(bytes.update(at, changed)) != checksum(bytes),
    decreases bytes.len(),
{
    let other = bytes.update(at, changed);
    checksum_step_is_injective(
        checksum(bytes.drop_last()),
        checksum(other.drop_last()),
        bytes.last(),
        other.last(),
    );
    if at == bytes.len() - 1 {
        assert(other.drop_last() == bytes.drop_last());
    } else {
        assert(other.drop_last() == bytes.drop_last().update(at, changed));
        checksum_detects_one_changed_byte(bytes.drop_last(), at, changed);
    }
}

/// A stored record in which one byte was changed holds no configuration.
pub proof fn one_changed_byte_is_refused(config: BridgeConfig, at: int, changed: u8)
    requires
        0 <= at < RECORD_SIZE,
        changed != record(config)[at],
    ensures
        stored_config(record(config).update(at, changed)) is None,
{
    let body = record_body(config);
    assert(body.len() == CHECKED_SIZE);
    one_changed_byte_breaks_the_record(body, at, changed);
}

/// A checked part and its checksum no longer belong together once one byte of either is changed.
proof fn one_changed_byte_breaks_the_record(body: Seq<u8>, at: int, changed: u8)
    requires
        body.len() == CHECKED_SIZE,
        0 <= at < RECORD_SIZE,
        changed != (body + le_bytes32(checksum(body)))[at],
    ensures
        !record_is_intact((body + le_bytes32(checksum(body))).update(at, changed)),
{
    let hash = checksum(body);
    le32_round_trip(hash);
    one_changed_byte_is_noticed(body, le_bytes32(hash), at, changed);
}

proof fn one_changed_byte_is_noticed(body: Seq<u8>, tail: Seq<u8>, at: int, changed: u8)
    requires
        body.len() == CHECKED_SIZE,
        tail.len() == 4,
        le32(tail[0], tail[1], tail[2], tail[3]) == checksum(body),
        0 <= at < RECORD_SIZE,
        changed != (body + tail)[at],
    ensures
        !record_is_intact((body + tail).update(at, changed)),
{
    let bad = (body + tail).update(at, changed);
    le32_tells_bytes_apart(
        tail[0],
        tail[1],
        tail[2],
        tail[3],
        bad[60],
        bad[61],
        bad[62],
        bad[63],
    );
    if at < CHECKED_SIZE {
        assert(bad.take(CHECKED_SIZE as int) =~= body.update(at, changed));
        checksum_detects_one_changed_byte(body, at, changed);
    } else {
        assert(bad.take(CHECKED_SIZE as int) =~= body);
    }
}

/// A record that is read holds known codes in every field that has any, and the settings stand at
/// their places.
pub proof fn records_are_read_field_by_field(buf: Seq<u8>)
    requires
        buf.len() == RECORD_SIZE,
    ensures
        stored_config(buf) matches Some(config) ==> {
            &&& buf[11] <= 1 && buf[25] <= 1 && buf[32] <= 7 && buf[33] <= 1
            &&& config.mac_address@ == buf.subrange(5, 11)
            &&& config.address_mode is Dhcp <==> buf[11] == 0
            &&& config.bridge_mode is TcpClient <==> buf[25] == 0
            &&& config.address_mode matches AddressMode::Static(ipv4) ==> ipv4.address@
                + seq![ipv4.prefix_len] + ipv4.gateway@ + ipv4.dns@ == buf.subrange(12, 25)
            &&& config.bridge_mode matches BridgeMode::TcpClient { host, port } ==> host@
                == buf.subrange(26, 30) && port == buf[30] + 256 * buf[31]
            &&& config.bridge_mode matches BridgeMode::TcpServer { port } ==> port == buf[30] + 256
                * buf[31]
        },
{
    if let Some(config) = stored_config(buf) {
        assert(config.mac_address@ =~= buf.subrange(5, 11));
        if let AddressMode::Static(ipv4) = config.address_mode {
            assert(ipv4.address@ + seq![ipv4.prefix_len] + ipv4.gateway@ + ipv4.dns@
                =~= buf.subrange(12, 25));
        }
        if let BridgeMode::TcpClient { host, port } = config.bridge_mode {
            assert(host@ =~= buf.subrange(26, 30));
        }
    }
}

/// Each setting of a configuration stands at its place in the record.
#[verifier::rlimit(40)]
pub proof fn record_layout(config: BridgeConfig)
    ensures
        record(config).len() == 64,
        record(config).take(5) == seq![0x50u8, 0x43, 0x46, 0x47, 2],
        record(config).subrange(5, 11) == config.mac_address@,
        match config.address_mode {
            AddressMode::Dhcp => record(config)[11] == 0,
            AddressMode::Static(ipv4) => {
                &&& record(config)[11] == 1
                &&& record(config).subrange(12, 16) == ipv4.address@
                &&& record(config)[16] == ipv4.prefix_len
                &&& record(config).subrange(17, 21) == ipv4.gateway@
                &&& record(config).subrange(21, 25) == ipv4.dns@
            },
        },
        match config.bridge_mode {
            BridgeMode::TcpClient { host, port } => {
                &&& record(config)[25] == 0
                &&& record(config).subrange(26, 30) == host@
                &&& record(config)[30] + 256 * record(config)[31] == port
            },
            BridgeMode::TcpServer { port } => {
                &&& record(config)[25] == 1
                &&& record(config)[30] + 256 * record(config)[31] == port
            },
        },
        record(config)[32] == match config.upstream_mode {
            UpstreamMode::Uart => 0u8,
            UpstreamMode::I2c => 1u8,
            UpstreamMode::Usb => 2u8,
            UpstreamMode::Test => 3u8,
            UpstreamMode::Spi => 4u8,
            UpstreamMode::SpiEcho => 5u8,
            UpstreamMode::SpiStatic => 6u8,
            UpstreamMode::SpiLineHigh => 7u8,
        },
        record(config)[33] == match config.uart_port {
            UartPort::Uart0 => 0u8,
            UartPort::Uart1 => 1u8,
        },
        forall|i: int| 34 <= i < 60 ==> #[trigger] record(config)[i] == 0xff,
        record(config).skip(60) == le_bytes32(checksum(record(config).take(60))),
{
    let buf = record(config);
    let body = record_body(config);
    assert(body.len() == CHECKED_SIZE);
    assert(buf.take(5) =~= seq![0x50u8, 0x43, 0x46, 0x47, 2]);
    assert(buf.subrange(5, 11) =~= config.mac_address@);
    assert(buf.take(60) =~= body);
    assert(buf.skip(60) =~= le_bytes32(checksum(body)));
    if let AddressMode::Static(ipv4) = config.address_mode {
        assert(buf.subrange(12, 16) =~= ipv4.address@);
        assert(buf.subrange(17, 21) =~= ipv4.gateway@);
        assert(buf.subrange(21, 25) =~= ipv4.dns@);
    }
    match config.bridge_mode {
        BridgeMode::TcpClient { host, port } => {
            assert(buf.subrange(26, 30) =~= host@);
            le16_round_trip(port as nat);
        },
        BridgeMode::TcpServer { port } => {
            le16_round_trip(port as nat);
        },
    }
}

/// The checksum takes in one byte after the other, from a fixed start.
pub proof fn checksum_takes_in_every_byte(bytes: Seq<u8>, byte: u8)
    ensures
        checksum(Seq::empty()) == 0x811c9dc5u32,
        checksum(bytes.push(byte)) == (checksum(bytes) ^ byte as u32).wrapping_mul(0x01000193u32),
{
    assert(bytes.push(byte).drop_last() =~= bytes);
}

} // verus!
