//! Decisions of the I2C upstream bridge session.

use crate::bridge::commands::led_request;
use crate::bridge::commands::line_text;
use crate::bridge::commands::local_reply;
use crate::bridge::commands::replies_fit;
use crate::bridge::commands::reply_text;
use crate::bridge::commands::requested_led_mode;
use crate::bridge::commands::trim_ascii_line;
use crate::bridge::commands::BridgeStatus;
use crate::bridge::i2c_task::make_packet;
use crate::bridge::i2c_task::I2cPacket;
use crate::bridge::i2c_task::INVALID_KIND_MSG;
use crate::bridge::runtime::LinkPolicy;
use crate::bridge::runtime::OpenFailure;
use crate::config::BridgeConfig;
use crate::protocol::slot::KIND_COMMAND;
use crate::protocol::slot::KIND_DATA;
use crate::protocol::slot::KIND_ERROR;
use crate::text::as_str192;
use vstd::prelude::*;
use vstd::utf8::encode_utf8;
use vstd::utf8::is_ascii_chars_encode_utf8;

verus! {

/// How the client role runs its link.
pub fn client_policy() -> (policy: LinkPolicy)
    ensures
        policy == (LinkPolicy { client: true, on_open_failure: OpenFailure::Backoff }),
{
    LinkPolicy { client: true, on_open_failure: OpenFailure::Backoff }
}

/// How the server role runs its link: it waits before it listens again.
pub fn server_policy() -> (policy: LinkPolicy)
    ensures
        policy == (LinkPolicy { client: false, on_open_failure: OpenFailure::Backoff }),
{
    LinkPolicy { client: false, on_open_failure: OpenFailure::Backoff }
}

/// The bytes of a packet that cross the bridge while it is up.
pub open spec fn bridged_payload(kind: u8, payload: Seq<u8>, link_up: bool) -> Option<Seq<u8>> {
    if kind == KIND_DATA && link_up && payload.len() > 0 {
        Some(payload)
    } else {
        None
    }
}

/// The kind and the bytes of the response to a packet. Data is acknowledged with an empty packet,
/// except for empty data without a link.
pub open spec fn packet_reply(
    kind: u8,
    payload: Seq<u8>,
    link_up: bool,
    config: BridgeConfig,
    status: BridgeStatus,
) -> Option<(u8, Seq<u8>)> {
    if kind == KIND_DATA {
        if link_up || payload.len() > 0 {
            Some((KIND_DATA, Seq::empty()))
        } else {
            None
        }
    } else if kind == KIND_COMMAND {
        Some((KIND_COMMAND, encode_utf8(reply_text(config, status, line_text(payload)))))
    } else {
        Some((KIND_ERROR, encode_utf8(INVALID_KIND_MSG@)))
    }
}

/// The LED mode that a packet asks for.
pub open spec fn packet_led(kind: u8, payload: Seq<u8>) -> Option<u8> {
    if kind == KIND_COMMAND {
        requested_led_mode(line_text(payload))
    } else {
        None
    }
}

/// What the session does with a packet.
pub struct I2cDecision<'a> {
    /// Bytes to write to the peer before the response is queued.
    pub forward: Option<&'a [u8]>,
    /// The response to queue.
    pub reply: Option<I2cPacket>,
    /// The LED mode that a local command asked for.
    pub led: Option<u8>,
}

/// Decides what the session does with a packet.
pub fn handle_i2c_request<'a>(
    packet: &'a I2cPacket,
    link_up: bool,
    bridge_config: &BridgeConfig,
    status: &BridgeStatus,
) -> (d: I2cDecision<'a>)
    ensures
        d.forward is Some <==> bridged_payload(packet.kind, packet.bytes(), link_up) is Some,
        d.forward matches Some(bytes) ==> bridged_payload(packet.kind, packet.bytes(), link_up)
            == Some(bytes@),
        match packet_reply(packet.kind, packet.bytes(), link_up, *bridge_config, *status) {
            Some((kind, bytes)) => d.reply matches Some(reply) && reply.kind == kind
                && reply.bytes() == bytes,
            None => d.reply is None,
        },
        d.led == packet_led(packet.kind, packet.bytes()),
{
    let payload = packet.as_slice();
    let none = [0u8; 0];
    assert(none@ == Seq::<u8>::empty());
    match packet.kind {
        KIND_DATA => {
            let reply = if link_up || payload.len() != 0 {
                make_packet(KIND_DATA, &none).ok()
            } else {
                None
            };
            let forward = if link_up && payload.len() != 0 {
                Some(payload)
            } else {
                None
            };
            I2cDecision { forward, reply, led: None }
        },
        KIND_COMMAND => {
            let line = trim_ascii_line(payload);
            let response = local_reply(bridge_config, status, line);
            let text = as_str192(&response);
            proof {
                is_ascii_chars_encode_utf8(text@);
            }
            I2cDecision {
                forward: None,
                reply: make_packet(KIND_COMMAND, text.as_bytes()).ok(),
                led: led_request(line),
            }
        },
        _ => {
            proof {
                reveal_strlit("error invalid i2c frame");
                is_ascii_chars_encode_utf8(INVALID_KIND_MSG@);
            }
            I2cDecision {
                forward: None,
                reply: make_packet(KIND_ERROR, INVALID_KIND_MSG.as_bytes()).ok(),
                led: None,
            }
        },
    }
}

/// Data with any content crosses an active bridge unchanged, and every packet that crosses the
/// bridge is acknowledged with empty data.
pub proof fn bridged_data_is_acknowledged(
    payload: Seq<u8>,
    config: BridgeConfig,
    status: BridgeStatus,
)
    requires
        payload.len() > 0,
    ensures
        bridged_payload(KIND_DATA, payload, true) == Some(payload),
        bridged_payload(KIND_DATA, payload, false) is None,
        packet_reply(KIND_DATA, payload, true, config, status) == Some(
            (KIND_DATA, Seq::<u8>::empty()),
        ),
{
}

/// A command never crosses the bridge, and is answered with the whole text of its reply, which fits
/// in a packet.
pub proof fn commands_are_answered_in_full(
    payload: Seq<u8>,
    config: BridgeConfig,
    status: BridgeStatus,
    link_up: bool,
)
    ensures
        bridged_payload(KIND_COMMAND, payload, link_up) is None,
        packet_reply(KIND_COMMAND, payload, link_up, config, status) == Some(
            (KIND_COMMAND, encode_utf8(reply_text(config, status, line_text(payload)))),
        ),
        encode_utf8(reply_text(config, status, line_text(payload))).len() <= 160,
{
    replies_fit(config, status, line_text(payload));
}

/// Only data crosses the bridge, and only while the link is up. Data is acknowledged with empty data
/// whether it crosses or not; without a link empty data is passed over. Any other kind is refused.
pub proof fn only_data_crosses_the_bridge(
    kind: u8,
    payload: Seq<u8>,
    config: BridgeConfig,
    status: BridgeStatus,
    link_up: bool,
)
    ensures
        bridged_payload(kind, payload, link_up) matches Some(bytes) ==> kind == KIND_DATA && link_up
            && bytes == payload && bytes.len() > 0,
        kind == KIND_DATA && payload.len() > 0 ==> packet_reply(
            kind,
            payload,
            link_up,
            config,
            status,
        ) == Some((KIND_DATA, Seq::<u8>::empty())),
        kind == KIND_DATA && payload.len() == 0 ==> (packet_reply(
            kind,
            payload,
            link_up,
            config,
            status,
        ) is None <==> !link_up),
        kind != KIND_DATA && kind != KIND_COMMAND ==> packet_reply(
            kind,
            payload,
            link_up,
            config,
            status,
        ) == Some((KIND_ERROR, encode_utf8("error invalid i2c frame"@))),
{
}

/// Only a command can change the LED, and it changes it as its line asks.
pub proof fn only_commands_change_the_led(kind: u8, payload: Seq<u8>)
    ensures
        packet_led(KIND_COMMAND, payload) == requested_led_mode(line_text(payload)),
        kind != KIND_COMMAND ==> packet_led(kind, payload) is None,
{
}

} // verus!
