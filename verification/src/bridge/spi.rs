//! Decisions of the SPI upstream bridge session.

use crate::bridge::commands::led_request;
use crate::bridge::commands::line_text;
use crate::bridge::commands::local_reply;
use crate::bridge::commands::replies_fit;
use crate::bridge::commands::reply_text;
use crate::bridge::commands::requested_led_mode;
use crate::bridge::commands::trim_ascii_line;
use crate::bridge::commands::BridgeStatus;
use crate::bridge::runtime::LinkPolicy;
use crate::bridge::runtime::OpenFailure;
use crate::bridge::spi_pio::empty_response;
use crate::bridge::spi_pio::make_empty_response;
use crate::bridge::spi_task::make_text_response;
use crate::bridge::spi_task::text_response;
use crate::bridge::spi_task::text_responses_carry_their_text;
use crate::bridge::spi_task::SpiFrame;
use crate::config::BridgeConfig;
use crate::protocol::i2c::make_response_frame;
use crate::protocol::i2c::response_frame;
use crate::protocol::i2c::PAYLOAD_MAX;
use crate::protocol::i2c::REQ_COMMAND_MAGIC;
use crate::protocol::i2c::REQ_DATA_MAGIC;
use crate::protocol::i2c::RESP_DATA_MAGIC;
use crate::protocol::i2c::Request;
use crate::protocol::i2c::RequestFrame;
use crate::protocol::spi::SLASH;
use crate::protocol::transfer::link_frame_parses_back;
use crate::protocol::transfer::parse_transfer;
use crate::protocol::transfer::short_frame;
use crate::protocol::transfer::short_frame_parses_back;
use crate::protocol::transfer::short_header_carries;
use crate::protocol::transfer::transfer_request;
use crate::text::as_str192;
use vstd::prelude::*;
use vstd::utf8::encode_utf8;
use vstd::utf8::is_ascii_chars_encode_utf8;

verus! {

/// How the client role runs its link.
pub fn client_policy() -> (policy: LinkPolicy)
    ensures
        policy == (LinkPolicy { client: true, on_open_failure: OpenFailure::Backoff }),
{
    LinkPolicy { client: true, on_open_failure: OpenFailure::Backoff }
}

/// How the server role runs its link: it ends when it cannot listen.
pub fn server_policy() -> (policy: LinkPolicy)
    ensures
        policy == (LinkPolicy { client: false, on_open_failure: OpenFailure::Stop }),
{
    LinkPolicy { client: false, on_open_failure: OpenFailure::Stop }
}

/// Whether the payload of a command request is bridged like data: it starts with no slash.
pub open spec fn is_bridged_command(payload: Seq<u8>) -> bool {
    payload.len() > 0 && payload[0] != SLASH
}

/// The line of the local command in a request.
pub open spec fn request_line(frame: Seq<u8>) -> Option<Seq<char>> {
    match transfer_request(frame) {
        Some(Request::Command(payload)) if !is_bridged_command(payload) => Some(line_text(payload)),
        _ => None,
    }
}

/// The LED mode that a request asks for.
pub open spec fn request_led_mode(frame: Seq<u8>) -> Option<u8> {
    match request_line(frame) {
        Some(line) => requested_led_mode(line),
        None => None,
    }
}

/// The response to a request.
pub open spec fn request_reply(
    frame: Seq<u8>,
    config: BridgeConfig,
    status: BridgeStatus,
) -> Seq<u8> {
    match request_line(frame) {
        Some(line) => text_response(reply_text(config, status, line)),
        None => if transfer_request(frame) is Some {
            empty_response()
        } else {
            text_response("error invalid spi frame"@)
        },
    }
}

/// The bytes of a request that cross the bridge while it is up: the payload of every request that is
/// no local command, unless it is empty.
pub open spec fn bridged_payload(frame: Seq<u8>, link_up: bool) -> Option<Seq<u8>> {
    match transfer_request(frame) {
        Some(Request::Data(payload)) if link_up && payload.len() > 0 => Some(payload),
        Some(Request::Command(payload)) if link_up && is_bridged_command(payload) => Some(payload),
        _ => None,
    }
}

/// What the session does with a request.
pub struct SpiDecision<'a> {
    /// Bytes to write to the peer before the response is queued.
    pub forward: Option<&'a [u8]>,
    /// The response to queue.
    pub reply: SpiFrame,
    /// The LED mode that a local command asked for.
    pub led: Option<u8>,
}

/// Decides what the session does with a request.
pub fn handle_spi_request<'a>(
    frame: &'a SpiFrame,
    link_up: bool,
    bridge_config: &BridgeConfig,
    status: &BridgeStatus,
) -> (d: SpiDecision<'a>)
    ensures
        d.reply.data@ == request_reply(frame.data@, *bridge_config, *status),
        d.forward is Some <==> bridged_payload(frame.data@, link_up) is Some,
        d.forward matches Some(bytes) ==> bridged_payload(frame.data@, link_up) == Some(bytes@),
        d.led == request_led_mode(frame.data@),
{
    let payload: &'a [u8] = match parse_transfer(&frame.data) {
        Some(RequestFrame::Data(payload)) => payload,
        Some(RequestFrame::Command(payload)) => {
            if payload.len() == 0 || payload[0] == SLASH {
                return answer(payload, bridge_config, status);
            }
            payload
        },
        None => {
            return SpiDecision {
                forward: None,
                reply: SpiFrame { data: make_text_response("error invalid spi frame") },
                led: None,
            };
        },
    };
    let forward = if link_up && payload.len() > 0 {
        Some(payload)
    } else {
        None
    };
    SpiDecision { forward, reply: SpiFrame { data: make_empty_response() }, led: None }
}

fn answer<'a>(payload: &[u8], bridge_config: &BridgeConfig, status: &BridgeStatus) -> (d:
    SpiDecision<'a>)
    ensures
        d.forward is None,
        d.reply.data@ == text_response(reply_text(*bridge_config, *status, line_text(payload@))),
        d.led == requested_led_mode(line_text(payload@)),
{
    let line = trim_ascii_line(payload);
    let response = local_reply(bridge_config, status, line);
    SpiDecision {
        forward: None,
        reply: SpiFrame { data: make_text_response(as_str192(&response)) },
        led: led_request(line),
    }
}

/// What the session makes of a read from the peer.
pub enum NetOutcome {
    /// The peer closed the connection.
    Closed,
    /// The read failed.
    Failed,
    /// The response to queue.
    Reply(SpiFrame),
}

/// Turns a read from the peer into the data response to queue. No bytes mean that the peer closed
/// the connection, and no result that the read failed.
pub fn handle_net_read(read: Option<&[u8]>) -> (r: NetOutcome)
    ensures
        match read {
            None => r is Failed,
            Some(bytes) => if bytes@.len() == 0 {
                r is Closed
            } else {
                r matches NetOutcome::Reply(frame) && frame.data@ == response_frame(
                    RESP_DATA_MAGIC,
                    bytes@,
                ) && (bytes@.len() <= PAYLOAD_MAX ==> transfer_request(frame.data@) == Some(
                    Request::Data(bytes@),
                ))
            },
        },
{
    match read {
        None => NetOutcome::Failed,
        Some(bytes) => {
            if bytes.len() == 0 {
                NetOutcome::Closed
            } else {
                proof {
                    if bytes@.len() <= PAYLOAD_MAX {
                        link_frame_parses_back(bytes@);
                    }
                }
                NetOutcome::Reply(SpiFrame { data: make_response_frame(RESP_DATA_MAGIC, bytes) })
            }
        },
    }
}

/// Data crosses an active bridge unchanged, up to the full payload and whatever it reads as, and is
/// answered with the empty data response.
pub proof fn data_crosses_the_bridge_unchanged(
    payload: Seq<u8>,
    config: BridgeConfig,
    status: BridgeStatus,
)
    requires
        0 < payload.len() <= PAYLOAD_MAX,
    ensures
        bridged_payload(response_frame(REQ_DATA_MAGIC, payload), true) == Some(payload),
        bridged_payload(response_frame(REQ_DATA_MAGIC, payload), false) is None,
        request_reply(response_frame(REQ_DATA_MAGIC, payload), config, status) == empty_response(),
        short_header_carries(REQ_DATA_MAGIC, payload.len()) ==> {
            &&& bridged_payload(short_frame(REQ_DATA_MAGIC, payload), true) == Some(payload)
            &&& bridged_payload(short_frame(REQ_DATA_MAGIC, payload), false) is None
            &&& request_reply(short_frame(REQ_DATA_MAGIC, payload), config, status)
                == empty_response()
        },
{
    link_frame_parses_back(payload);
    short_frame_parses_back(payload);
}

/// A command request with a payload that starts with no slash crosses an active bridge like data, up
/// to the full payload, and is answered with the empty data response.
pub proof fn commands_without_slash_cross_the_bridge(
    payload: Seq<u8>,
    config: BridgeConfig,
    status: BridgeStatus,
)
    requires
        0 < payload.len() <= PAYLOAD_MAX,
        payload[0] != SLASH,
    ensures
        bridged_payload(response_frame(REQ_COMMAND_MAGIC, payload), true) == Some(payload),
        request_reply(response_frame(REQ_COMMAND_MAGIC, payload), config, status)
            == empty_response(),
        short_header_carries(REQ_COMMAND_MAGIC, payload.len()) ==> {
            &&& bridged_payload(short_frame(REQ_COMMAND_MAGIC, payload), true) == Some(payload)
            &&& request_reply(short_frame(REQ_COMMAND_MAGIC, payload), config, status)
                == empty_response()
        },
{
    link_frame_parses_back(payload);
    short_frame_parses_back(payload);
}

/// A command request that is empty or starts with a slash never crosses the bridge, and is answered
/// with the whole text of its reply.
pub proof fn commands_are_answered_in_full(
    payload: Seq<u8>,
    config: BridgeConfig,
    status: BridgeStatus,
    link_up: bool,
)
    requires
        payload.len() <= PAYLOAD_MAX,
        payload.len() == 0 || payload[0] == SLASH,
    ensures
        ({
            let frame = response_frame(REQ_COMMAND_MAGIC, payload);
            &&& request_line(frame) == Some(line_text(payload))
            &&& bridged_payload(frame, link_up) is None
            &&& transfer_request(request_reply(frame, config, status)) == Some(
                Request::Command(encode_utf8(reply_text(config, status, line_text(payload)))),
            )
        }),
        short_header_carries(REQ_COMMAND_MAGIC, payload.len()) ==> {
            let frame = short_frame(REQ_COMMAND_MAGIC, payload);
            &&& request_line(frame) == Some(line_text(payload))
            &&& bridged_payload(frame, link_up) is None
            &&& transfer_request(request_reply(frame, config, status)) == Some(
                Request::Command(encode_utf8(reply_text(config, status, line_text(payload)))),
            )
        },
{
    link_frame_parses_back(payload);
    short_frame_parses_back(payload);
    replies_fit(config, status, line_text(payload));
    text_responses_carry_their_text(reply_text(config, status, line_text(payload)));
}

/// Nothing is bridged that is no request or while the link is down, what is bridged is no local
/// command, and it is answered with empty data.
pub proof fn only_requests_cross_the_bridge(
    frame: Seq<u8>,
    config: BridgeConfig,
    status: BridgeStatus,
)
    ensures
        bridged_payload(frame, false) is None,
        bridged_payload(frame, true) is Some ==> request_line(frame) is None && transfer_request(
            request_reply(frame, config, status),
        ) == Some(Request::Data(Seq::<u8>::empty())),
        transfer_request(frame) is None ==> bridged_payload(frame, true) is None && request_line(
            frame,
        ) is None && transfer_request(request_reply(frame, config, status)) == Some(
            Request::Command(encode_utf8("error invalid spi frame"@)),
        ),
{
    reveal_strlit("error invalid spi frame");
    is_ascii_chars_encode_utf8("error invalid spi frame"@);
    text_responses_carry_their_text("error invalid spi frame"@);
    link_frame_parses_back(Seq::empty());
}

/// Only a local command can change the LED, and it changes it as its line asks.
pub proof fn only_local_commands_change_the_led(payload: Seq<u8>)
    requires
        payload.len() <= PAYLOAD_MAX,
    ensures
        request_led_mode(response_frame(REQ_DATA_MAGIC, payload)) is None,
        payload.len() > 0 && payload[0] == SLASH ==> request_led_mode(
            response_frame(REQ_COMMAND_MAGIC, payload),
        ) == requested_led_mode(line_text(payload)),
        payload.len() > 0 && payload[0] != SLASH ==> request_led_mode(
            response_frame(REQ_COMMAND_MAGIC, payload),
        ) is None,
{
    link_frame_parses_back(payload);
}

/// What the peer sends in one read reaches the host byte for byte.
pub proof fn peer_data_reaches_the_host(bytes: Seq<u8>)
    requires
        bytes.len() <= PAYLOAD_MAX,
    ensures
        transfer_request(response_frame(RESP_DATA_MAGIC, bytes)) == Some(Request::Data(bytes)),
{
    link_frame_parses_back(bytes);
}

} // verus!
