//! Startup choices, bridge role selection and the status LED.

use crate::bridge::commands::LED_MODE_AUTO;
use crate::bridge::commands::LED_MODE_OFF;
use crate::bridge::commands::LED_MODE_ON;
use crate::bridge::commands::LED_MODE_TOGGLE;
use crate::config::BridgeConfig;
use crate::config::BridgeMode;
use crate::config::UpstreamMode;
use crate::shell::config_after_lines;
use crate::storage::erased;
use crate::storage::erased_record_is_refused;
use crate::storage::one_changed_byte_is_refused;
use crate::storage::record;
use crate::storage::stored_config;
use crate::storage::stored_record_reads_back;
use crate::storage::RECORD_SIZE;
use vstd::prelude::*;

verus! {

/// Delay before the client role attempts its first outbound TCP connection.
pub const CLIENT_STARTUP_DELAY_MS: u64 = 250;

/// Delay between failed or closed client reconnect attempts.
pub const CLIENT_RECONNECT_DELAY_MS: u64 = 500;

/// Timeout applied to outbound TCP connection establishment.
pub const LINK_CONNECT_TIMEOUT_MS: u64 = 1_500;

/// Timeout applied to the bridge handshake exchange after TCP connects.
pub const LINK_HANDSHAKE_TIMEOUT_MS: u64 = 2_000;

/// Maximum idle time on an established TCP session before forcing reconnect/listen.
pub const LINK_SESSION_TIMEOUT_MS: u64 = 20_000;

/// Fixed magic exchanged by both peers to confirm protocol compatibility.
pub const LINK_HANDSHAKE_MAGIC: &'static str = "PICOFI1";

/// Length of an activity pulse of the LED.
pub const LED_PULSE_MS: u64 = 60;

/// Whether an upstream mode runs on the SPI slave.
pub open spec fn is_spi_mode(mode: UpstreamMode) -> bool {
    mode == UpstreamMode::Spi || mode == UpstreamMode::SpiEcho || mode == UpstreamMode::SpiStatic
        || mode == UpstreamMode::SpiLineHigh
}

/// Whether an upstream mode runs on the SPI slave.
pub fn uses_spi(mode: UpstreamMode) -> (r: bool)
    ensures
        r == is_spi_mode(mode),
{
    match mode {
        UpstreamMode::Spi
        | UpstreamMode::SpiEcho
        | UpstreamMode::SpiStatic
        | UpstreamMode::SpiLineHigh => true,
        _ => false,
    }
}

/// The configuration that the shell starts from: a stored override counts only when the compiled
/// upstream is neither I2C nor SPI.
pub open spec fn starting_config(
    compiled: BridgeConfig,
    stored: Option<BridgeConfig>,
) -> BridgeConfig {
    if compiled.upstream_mode == UpstreamMode::I2c || is_spi_mode(compiled.upstream_mode) {
        compiled
    } else {
        match stored {
            Some(config) => config,
            None => compiled,
        }
    }
}

/// Whether a stored override is looked up at all: not with a compiled upstream on I2C or SPI.
pub open spec fn counts_stored(compiled: BridgeConfig) -> bool {
    compiled.upstream_mode != UpstreamMode::I2c && !is_spi_mode(compiled.upstream_mode)
}

/// Whether a stored override is looked up at all.
pub fn reads_stored_config(compiled: &BridgeConfig) -> (r: bool)
    ensures
        r == counts_stored(*compiled),
{
    match compiled.upstream_mode {
        UpstreamMode::I2c => false,
        mode => !uses_spi(mode),
    }
}

/// Chooses the configuration that the shell starts from.
pub fn initial_config(compiled: BridgeConfig, stored: Option<BridgeConfig>) -> (config:
    BridgeConfig)
    ensures
        config == starting_config(compiled, stored),
{
    if reads_stored_config(&compiled) {
        match stored {
            Some(config) => config,
            None => compiled,
        }
    } else {
        compiled
    }
}

/// Whether the LED task owns the LED with an upstream mode.
pub open spec fn has_heartbeat(mode: UpstreamMode) -> bool {
    mode != UpstreamMode::Test
}

/// Whether the LED task owns the LED. In test mode the commands do.
pub fn runs_heartbeat(config: &BridgeConfig) -> (r: bool)
    ensures
        r == has_heartbeat(config.upstream_mode),
{
    match config.upstream_mode {
        UpstreamMode::Test => false,
        _ => true,
    }
}

/// The bridge implementation that runs.
#[derive(Clone, Copy, Debug, PartialEq, Eq)]
pub enum BridgeRole {
    /// UART upstream, outbound connection.
    UartClient { host: [u8; 4], port: u16 },
    /// UART upstream, inbound connection.
    UartServer { port: u16 },
    /// I2C upstream, outbound connection.
    I2cClient { host: [u8; 4], port: u16 },
    /// I2C upstream, inbound connection.
    I2cServer { port: u16 },
    /// USB upstream, outbound connection.
    UsbClient { host: [u8; 4], port: u16 },
    /// USB upstream, inbound connection.
    UsbServer { port: u16 },
    /// SPI upstream, outbound connection.
    SpiClient { host: [u8; 4], port: u16 },
    /// SPI upstream, inbound connection.
    SpiServer { port: u16 },
    /// Test mode, outbound connection.
    TestClient { host: [u8; 4], port: u16 },
    /// Test mode, inbound connection.
    TestServer { port: u16 },
    /// No bridge: the SPI task runs diagnostics.
    Parked,
    /// No bridge: the upstream is not available.
    Unavailable,
}

/// Which upstreams were set up.
#[derive(Clone, Copy)]
pub struct Upstreams {
    /// The I2C task runs.
    pub i2c: bool,
    /// The SPI task runs.
    pub spi: bool,
    /// The USB device runs.
    pub usb: bool,
}

/// The bridge implementation for a role and an upstream transport.
pub open spec fn selected_role(
    bridge: BridgeMode,
    upstream: UpstreamMode,
    ready: Upstreams,
) -> BridgeRole {
    match (bridge, upstream) {
        (BridgeMode::TcpClient { host, port }, UpstreamMode::Uart) => BridgeRole::UartClient {
            host,
            port,
        },
        (BridgeMode::TcpServer { port }, UpstreamMode::Uart) => BridgeRole::UartServer { port },
        (BridgeMode::TcpClient { host, port }, UpstreamMode::Test) => BridgeRole::TestClient {
            host,
            port,
        },
        (BridgeMode::TcpServer { port }, UpstreamMode::Test) => BridgeRole::TestServer { port },
        (BridgeMode::TcpClient { host, port }, UpstreamMode::I2c) => if ready.i2c {
            BridgeRole::I2cClient { host, port }
        } else {
            BridgeRole::Unavailable
        },
        (BridgeMode::TcpServer { port }, UpstreamMode::I2c) => if ready.i2c {
            BridgeRole::I2cServer { port }
        } else {
            BridgeRole::Unavailable
        },
        (BridgeMode::TcpClient { host, port }, UpstreamMode::Usb) => if ready.usb {
            BridgeRole::UsbClient { host, port }
        } else {
            BridgeRole::Unavailable
        },
        (BridgeMode::TcpServer { port }, UpstreamMode::Usb) => if ready.usb {
            BridgeRole::UsbServer { port }
        } else {
            BridgeRole::Unavailable
        },
        (BridgeMode::TcpClient { host, port }, UpstreamMode::Spi) => if ready.spi {
            BridgeRole::SpiClient { host, port }
        } else {
            BridgeRole::Unavailable
        },
        (BridgeMode::TcpServer { port }, UpstreamMode::Spi) => if ready.spi {
            BridgeRole::SpiServer { port }
        } else {
            BridgeRole::Unavailable
        },
        (_, _) => BridgeRole::Parked,
    }
}

/// Selects the bridge implementation for the configured role and upstream transport.
pub fn select_role(config: &BridgeConfig, ready: Upstreams) -> (role: BridgeRole)
    ensures
        role == selected_role(config.bridge_mode, config.upstream_mode, ready),
{
    match config.bridge_mode {
        BridgeMode::TcpClient { host, port } => match config.upstream_mode {
            UpstreamMode::Uart => BridgeRole::UartClient { host, port },
            UpstreamMode::Test => BridgeRole::TestClient { host, port },
            UpstreamMode::I2c => if ready.i2c {
                BridgeRole::I2cClient { host, port }
            } else {
                BridgeRole::Unavailable
            },
            UpstreamMode::Usb => if ready.usb {
                BridgeRole::UsbClient { host, port }
            } else {
                BridgeRole::Unavailable
            },
            UpstreamMode::Spi => if ready.spi {
                BridgeRole::SpiClient { host, port }
            } else {
                BridgeRole::Unavailable
            },
            _ => BridgeRole::Parked,
        },
        BridgeMode::TcpServer { port } => match config.upstream_mode {
            UpstreamMode::Uart => BridgeRole::UartServer { port },
            UpstreamMode::Test => BridgeRole::TestServer { port },
            UpstreamMode::I2c => if ready.i2c {
                BridgeRole::I2cServer { port }
            } else {
                BridgeRole::Unavailable
            },
            UpstreamMode::Usb => if ready.usb {
                BridgeRole::UsbServer { port }
            } else {
                BridgeRole::Unavailable
            },
            UpstreamMode::Spi => if ready.spi {
                BridgeRole::SpiServer { port }
            } else {
                BridgeRole::Unavailable
            },
            _ => BridgeRole::Parked,
        },
    }
}

/// State of the LED task.
#[derive(Clone, Copy, Debug, PartialEq, Eq, Structural)]
pub struct Heartbeat {
    /// Whether the LED follows the link state.
    pub auto_mode: bool,
    /// Whether the LED is on.
    pub led_on: bool,
}

/// What the LED task does in one round.
#[derive(Clone, Copy, Debug, PartialEq, Eq, Structural)]
pub struct HeartbeatStep {
    /// Whether the LED first lights up for `LED_PULSE_MS`.
    pub pulse: bool,
    /// The LED level after that, which is also reported.
    pub level: bool,
    /// The delay before the next round.
    pub wait_ms: u64,
}

/// The state after an LED command.
pub open spec fn after_command(state: Heartbeat, command: Option<u8>) -> Heartbeat {
    match command {
        None => state,
        Some(mode) => if mode == LED_MODE_OFF {
            Heartbeat { auto_mode: false, led_on: false }
        } else if mode == LED_MODE_ON {
            Heartbeat { auto_mode: false, led_on: true }
        } else if mode == LED_MODE_TOGGLE {
            Heartbeat { auto_mode: false, led_on: !state.led_on }
        } else {
            Heartbeat { auto_mode: true, led_on: state.led_on }
        },
    }
}

/// The state after one round: an activity pulse changes nothing, and in automatic mode the LED
/// blinks while the link is up and is off otherwise.
pub open spec fn after_round(
    state: Heartbeat,
    activity: bool,
    command: Option<u8>,
    link_active: bool,
) -> Heartbeat {
    if activity {
        state
    } else {
        let told = after_command(state, command);
        if told.auto_mode {
            Heartbeat { auto_mode: true, led_on: link_active && !told.led_on }
        } else {
            told
        }
    }
}

/// What the LED task does in one round: it shows an activity pulse at once, waits shortly while it
/// takes commands, and otherwise as long as a blink or an idle link calls for.
pub open spec fn round_step(
    state: Heartbeat,
    activity: bool,
    command: Option<u8>,
    link_active: bool,
) -> HeartbeatStep {
    let after = after_round(state, activity, command, link_active);
    HeartbeatStep {
        pulse: activity,
        level: after.led_on,
        wait_ms: if activity {
            0
        } else if !after.auto_mode {
            50
        } else if link_active {
            500
        } else {
            200
        },
    }
}

impl Heartbeat {
    /// The LED task starts in automatic mode with the LED off.
    pub fn new() -> (state: Self)
        ensures
            state == (Heartbeat { auto_mode: true, led_on: false }),
    {
        Heartbeat { auto_mode: true, led_on: false }
    }

    /// Runs one round. A command is taken only in a round without an activity pulse.
    pub fn round(&mut self, activity: bool, command: Option<u8>, link_active: bool) -> (step:
        HeartbeatStep)
        ensures
            *final(self) == after_round(*old(self), activity, command, link_active),
            step == round_step(*old(self), activity, command, link_active),
    {
        if activity {
            return HeartbeatStep { pulse: true, level: self.led_on, wait_ms: 0 };
        }
        if let Some(mode) = command {
            match mode {
                LED_MODE_OFF => {
                    self.auto_mode = false;
                    self.led_on = false;
                },
                LED_MODE_ON => {
                    self.auto_mode = false;
                    self.led_on = true;
                },
                LED_MODE_TOGGLE => {
                    self.auto_mode = false;
                    self.led_on = !self.led_on;
                },
                _ => {
                    self.auto_mode = true;
                },
            }
        }
        let wait_ms: u64 = if self.auto_mode {
            if link_active {
                self.led_on = !self.led_on;
                500
            } else {
                self.led_on = false;
                200
            }
        } else {
            50
        };
        HeartbeatStep { pulse: false, level: self.led_on, wait_ms }
    }
}

/// A bridge over TCP runs exactly for the upstreams that carry traffic and are available.
pub proof fn roles_need_their_upstream(
    bridge: BridgeMode,
    upstream: UpstreamMode,
    ready: Upstreams,
)
    ensures
        selected_role(bridge, upstream, ready) is Parked <==> is_spi_mode(upstream) && upstream
            != UpstreamMode::Spi,
        selected_role(bridge, upstream, ready) is Unavailable <==> (upstream == UpstreamMode::I2c
            && !ready.i2c) || (upstream == UpstreamMode::Spi && !ready.spi) || (upstream
            == UpstreamMode::Usb && !ready.usb),
{
}

/// A configuration that was stored is the one that the shell starts from, unless the compiled
/// upstream runs on I2C or SPI: then nothing that is stored counts.
pub proof fn stored_configuration_comes_back(compiled: BridgeConfig, config: BridgeConfig)
    ensures
        match compiled.upstream_mode {
            UpstreamMode::Uart | UpstreamMode::Usb | UpstreamMode::Test => starting_config(
                compiled,
                stored_config(record(config)),
            ) == config,
            _ => starting_config(compiled, stored_config(record(config))) == compiled,
        },
{
    stored_record_reads_back(config);
}

/// Without an intact record the shell starts from the compiled configuration: an erased one counts
/// for nothing, and neither does one in which a byte was changed.
pub proof fn damaged_configuration_is_left_out(
    compiled: BridgeConfig,
    config: BridgeConfig,
    at: int,
    changed: u8,
)
    requires
        0 <= at < RECORD_SIZE,
        changed != record(config)[at],
    ensures
        starting_config(compiled, stored_config(record(config).update(at, changed))) == compiled,
        starting_config(compiled, stored_config(erased(RECORD_SIZE as nat))) == compiled,
{
    one_changed_byte_is_refused(config, at, changed);
    erased_record_is_refused();
}

/// What the shell stored in one boot is what it starts from in the next, for every sequence of lines.
pub proof fn typed_configuration_survives_a_restart(
    compiled: BridgeConfig,
    stored: Option<BridgeConfig>,
    lines: Seq<Seq<char>>,
)
    requires
        compiled.upstream_mode is Uart || compiled.upstream_mode is Usb
            || compiled.upstream_mode is Test,
    ensures
        ({
            let typed = config_after_lines(starting_config(compiled, stored), compiled, lines);
            starting_config(compiled, stored_config(record(typed))) == typed
        }),
{
    stored_record_reads_back(
        config_after_lines(starting_config(compiled, stored), compiled, lines),
    );
}

/// The role connects to exactly the configured host and port, or listens on exactly the configured
/// port, over the configured upstream.
pub proof fn roles_keep_their_peer(host: [u8; 4], port: u16, ready: Upstreams)
    ensures
        ({
            let client = BridgeMode::TcpClient { host, port };
            let server = BridgeMode::TcpServer { port };
            let role = |bridge: BridgeMode, upstream: UpstreamMode|
                selected_role(bridge, upstream, ready);
            &&& role(client, UpstreamMode::Uart) == BridgeRole::UartClient { host, port }
            &&& role(server, UpstreamMode::Uart) == BridgeRole::UartServer { port }
            &&& role(client, UpstreamMode::Test) == BridgeRole::TestClient { host, port }
            &&& role(server, UpstreamMode::Test) == BridgeRole::TestServer { port }
            &&& ready.i2c ==> role(client, UpstreamMode::I2c) == BridgeRole::I2cClient { host, port }
            &&& ready.i2c ==> role(server, UpstreamMode::I2c) == BridgeRole::I2cServer { port }
            &&& ready.usb ==> role(client, UpstreamMode::Usb) == BridgeRole::UsbClient { host, port }
            &&& ready.usb ==> role(server, UpstreamMode::Usb) == BridgeRole::UsbServer { port }
            &&& ready.spi ==> role(client, UpstreamMode::Spi) == BridgeRole::SpiClient { host, port }
            &&& ready.spi ==> role(server, UpstreamMode::Spi) == BridgeRole::SpiServer { port }
        }),
{
}

/// An activity pulse keeps the LED and its mode as they were, and the command of that round waits.
pub proof fn pulses_leave_the_led_alone(state: Heartbeat, command: Option<u8>, link_active: bool)
    ensures
        after_round(state, true, command, link_active) == state,
{
}

/// The LED obeys `on`, `off` and `toggle` whatever the link does, and stays so through every round
/// without a command. Two toggles cancel out.
pub proof fn led_commands_are_obeyed(state: Heartbeat, before: bool, after: bool, pulse: bool)
    ensures
        ({
            let on = after_round(state, false, Some(LED_MODE_ON), before);
            let off = after_round(state, false, Some(LED_MODE_OFF), before);
            let toggled = after_round(state, false, Some(LED_MODE_TOGGLE), before);
            let again = after_round(toggled, false, Some(LED_MODE_TOGGLE), after);
            &&& on.led_on && !on.auto_mode
            &&& !off.led_on && !off.auto_mode
            &&& toggled.led_on != state.led_on && !toggled.auto_mode
            &&& again.led_on == state.led_on && !again.auto_mode
            &&& after_round(on, pulse, None, after) == on
            &&& after_round(off, pulse, None, after) == off
            &&& after_round(toggled, pulse, None, after) == toggled
        }),
{
}

/// In automatic mode the LED is off while the link is down and changes its level in every round while
/// it is up. The mode lasts until a command ends it.
pub proof fn automatic_led_follows_the_link(state: Heartbeat, link_active: bool)
    ensures
        after_round(state, false, Some(LED_MODE_AUTO), link_active).auto_mode,
        after_round(state, false, Some(LED_MODE_AUTO), link_active).led_on == (link_active
            && !state.led_on),
        state.auto_mode ==> after_round(state, false, None, link_active).auto_mode,
        state.auto_mode ==> !after_round(state, false, None, false).led_on,
        state.auto_mode ==> after_round(state, false, None, true).led_on == !state.led_on,
{
}

/// The level that is shown and reported is the one that the LED then has. A pulse is shown exactly
/// when there was activity and delays nothing.
pub proof fn rounds_show_the_led(
    state: Heartbeat,
    activity: bool,
    command: Option<u8>,
    link_active: bool,
)
    ensures
        ({
            let step = round_step(state, activity, command, link_active);
            let after = after_round(state, activity, command, link_active);
            &&& step.level == after.led_on
            &&& step.pulse == activity
            &&& activity <==> step.wait_ms == 0
            &&& !activity && !after.auto_mode ==> step.wait_ms == 50
            &&& !activity && after.auto_mode && link_active ==> step.wait_ms == 500
            &&& !activity && after.auto_mode && !link_active ==> step.wait_ms == 200
        }),
{
}

/// A stored override is looked up exactly when it can count.
pub proof fn overrides_count_only_where_they_are_read(
    compiled: BridgeConfig,
    stored: Option<BridgeConfig>,
)
    ensures
        starting_config(compiled, None) == compiled,
        !counts_stored(compiled) ==> starting_config(compiled, stored) == compiled,
        counts_stored(compiled) && stored is Some ==> starting_config(compiled, stored)
            == stored->0,
        counts_stored(compiled) <==> compiled.upstream_mode is Uart || compiled.upstream_mode is Usb
            || compiled.upstream_mode is Test,
        is_spi_mode(compiled.upstream_mode) <==> compiled.upstream_mode is Spi
            || compiled.upstream_mode is SpiEcho || compiled.upstream_mode is SpiStatic
            || compiled.upstream_mode is SpiLineHigh,
{
}

/// The timing of the link and of the LED, and the magic of the handshake.
pub proof fn link_parameters()
    ensures
        CLIENT_STARTUP_DELAY_MS == 250,
        CLIENT_RECONNECT_DELAY_MS == 500,
        LINK_CONNECT_TIMEOUT_MS == 1_500,
        LINK_HANDSHAKE_TIMEOUT_MS == 2_000,
        LINK_SESSION_TIMEOUT_MS == 20_000,
        LED_PULSE_MS == 60,
        LINK_HANDSHAKE_MAGIC@ == "PICOFI1"@,
        LINK_HANDSHAKE_MAGIC@.len() == 7,
{
    reveal_strlit("PICOFI1");
}

/// Only test mode takes the LED from the LED task.
pub proof fn heartbeats_run_outside_test_mode(mode: UpstreamMode)
    ensures
        has_heartbeat(mode) <==> !(mode is Test),
{
}

} // verus!
