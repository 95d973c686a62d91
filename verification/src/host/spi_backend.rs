//! Host side of the framed SPI transport.

use crate::bridge::commands::line_text;
use crate::bridge::commands::replies_fit;
use crate::bridge::commands::reply_text;
use crate::bridge::commands::requested_led_mode;
use crate::bridge::commands::BridgeStatus;
use crate::bridge::spi_hw_task::action;
use crate::bridge::spi_hw_task::action_led;
use crate::bridge::spi_hw_task::action_reply;
use crate::bridge::spi_hw_task::command_requests_are_answered_or_forwarded;
use crate::bridge::spi_hw_task::data_requests_are_forwarded;
use crate::bridge::spi_hw_task::starts_with_slash;
use crate::bridge::spi_hw_task::Action;
use crate::bridge::spi_pio::empty_response;
use crate::bridge::spi_pio::transaction;
use crate::bridge::spi_pio::whole_request_is_complete;
use crate::bridge::spi_pio::whole_short_request_is_complete;
use crate::bridge::spi_pio::Transaction;
use crate::bridge::spi_task::SpiFrame;
use crate::bytes::le16;
use crate::bytes::le16_round_trip;
use crate::bytes::read_le16;
use crate::bytes::zero_padded;
use crate::config::BridgeConfig;
use crate::host::i2c_backend::handed_out;
use crate::host::i2c_backend::is_news;
use crate::host::i2c_backend::poll_decided;
use crate::host::i2c_backend::CommandPoll;
use crate::host::i2c_backend::FrameValue;
use crate::protocol::i2c;
use crate::protocol::i2c::build_frame_into;
use crate::protocol::i2c::frame_bytes;
use crate::protocol::i2c::frame_kind;
use crate::protocol::i2c::parse_request_bytes;
use crate::protocol::i2c::parsed_request;
use crate::protocol::i2c::response_frame;
use crate::protocol::i2c::response_sync;
use crate::protocol::i2c::sync_kind;
use crate::protocol::i2c::Request;
use crate::protocol::i2c::RequestFrame;
use crate::protocol::spi::length_byte_frame;
use crate::protocol::spi::make_response_frame;
use crate::protocol::spi::FRAME_SIZE;
use crate::protocol::spi::REQ_COMMAND_MAGIC;
use crate::protocol::spi::REQ_DATA_MAGIC;
use crate::protocol::spi::RESP_COMMAND_MAGIC;
use crate::protocol::spi::RESP_DATA_MAGIC;
use crate::protocol::transfer::has_link_header;
use crate::protocol::transfer::link_frame_parses_back;
use crate::protocol::transfer::short_frame;
use crate::protocol::transfer::short_frame_parses_back;
use crate::protocol::transfer::short_header_carries;
use crate::protocol::transfer::transfer_request;
use crate::protocol::transfer::SHORT_HEADER_SIZE;
use crate::protocol::transfer::SHORT_PAYLOAD_MAX;
use crate::text::decimal;
use crate::text::hex_byte;
use crate::text::string_with_decimal;
use crate::text::string_with_hex;
use vstd::prelude::*;
use vstd::slice::slice_to_vec;
use vstd::string::StringExecFns;
use vstd::utf8::encode_utf8;

verus! {

/// Direction field of an ioctl that writes to the driver.
pub const IOC_WRITE: u32 = 1;

/// Type field of the SPI ioctls, the letter `k`.
pub const SPI_IOC_MAGIC: u32 = 0x6b;

/// Clock mode of the bus: idle high, captured on the second edge.
pub const SPI_MODE: u8 = 3;

/// The most payload bytes behind the link header in one host frame.
pub const LINK_PAYLOAD_MAX: usize = FRAME_SIZE - i2c::FRAME_HEADER_SIZE;

/// Size of one transfer descriptor.
pub const SPI_IOC_TRANSFER_SIZE: u32 = 32;

/// A frame from the device.
#[derive(Debug, Clone, PartialEq, Eq)]
pub enum Frame {
    /// Bridged data.
    Data(Vec<u8>),
    /// Command output.
    Command(Vec<u8>),
}

impl View for Frame {
    type V = FrameValue;

    open spec fn view(&self) -> FrameValue {
        match self {
            Frame::Data(bytes) => FrameValue::Data(bytes@),
            Frame::Command(bytes) => FrameValue::Command(bytes@),
        }
    }
}

/// What is wrong with a frame.
#[derive(Debug, Clone, Copy, PartialEq, Eq)]
pub enum Error {
    /// The frame does not decode.
    InvalidFrame { magic: u8, len: usize },
}

impl Error {
    /// The text of the error.
    pub fn message(&self) -> (text: String)
        ensures
            text@ == match self {
                Error::InvalidFrame { magic, len } => "invalid SPI frame: magic=0x"@ + hex_byte(
                    *magic,
                ) + " len="@ + decimal(*len as nat),
            },
    {
        match self {
            Error::InvalidFrame { magic, len } => {
                let mut text = String::from_str("invalid SPI frame: magic=0x");
                string_with_hex(&mut text, *magic);
                text.append(" len=");
                string_with_decimal(&mut text, *len as u64);
                text
            },
        }
    }
}

/// The frame in a response, or the magic and the length of what is wrong with it. A sync pair starts
/// a frame with the link header, anything else one with the short header.
pub open spec fn parsed_response(raw: Seq<u8>) -> Result<FrameValue, (u8, nat)> {
    if has_link_header(raw) {
        match parsed_request(raw) {
            Some(Request::Data(payload)) => Ok(FrameValue::Data(payload)),
            Some(Request::Command(payload)) => Ok(FrameValue::Command(payload)),
            None => Err((raw[0], le16(raw[2], raw[3]))),
        }
    } else {
        let payload = raw.subrange(SHORT_HEADER_SIZE as int, SHORT_HEADER_SIZE + raw[1]);
        if raw[0] == RESP_DATA_MAGIC {
            Ok(FrameValue::Data(payload))
        } else if raw[0] == RESP_COMMAND_MAGIC {
            Ok(FrameValue::Command(payload))
        } else {
            Err((raw[0], raw[1] as nat))
        }
    }
}

/// Decodes a response.
pub fn parse_response(raw: &[u8; FRAME_SIZE]) -> (r: Result<Frame, Error>)
    ensures
        match r {
            Ok(frame) => parsed_response(raw@) == Ok::<_, (u8, nat)>(frame@),
            Err(Error::InvalidFrame { magic, len }) => parsed_response(raw@) == Err::<
                FrameValue,
                _,
            >((magic, len as nat)),
        },
{
    let magic: u8 = raw[0];
    if frame_kind(raw[0], raw[1]).is_some() {
        return match parse_request_bytes(raw) {
            Some(RequestFrame::Data(payload)) => Ok(Frame::Data(slice_to_vec(payload))),
            Some(RequestFrame::Command(payload)) => Ok(Frame::Command(slice_to_vec(payload))),
            None => {
                let len: usize = read_le16(raw[2], raw[3]) as usize;
                Err(Error::InvalidFrame { magic, len })
            },
        };
    }
    let len: usize = raw[1] as usize;
    let payload = slice_to_vec(&raw[SHORT_HEADER_SIZE..SHORT_HEADER_SIZE + len]);
    match magic {
        RESP_DATA_MAGIC => Ok(Frame::Data(payload)),
        RESP_COMMAND_MAGIC => Ok(Frame::Command(payload)),
        _ => Err(Error::InvalidFrame { magic, len }),
    }
}

/// The frame of a request: the magic, the length byte and the payload. Where these two bytes would
/// read as a sync pair, the frame starts with the link header.
pub open spec fn request_frame(magic: u8, payload: Seq<u8>) -> Seq<u8> {
    if payload.len() <= LINK_PAYLOAD_MAX && sync_kind(magic, payload.len() as u8) is Some {
        zero_padded(frame_bytes(response_sync(magic), payload), FRAME_SIZE as nat)
    } else {
        length_byte_frame(magic, payload)
    }
}

/// Builds the full-size frame of a request.
pub fn build_request_frame(magic: u8, payload: &[u8]) -> (frame: [u8; FRAME_SIZE])
    ensures
        frame@ == request_frame(magic, payload@),
{
    if payload.len() <= LINK_PAYLOAD_MAX && frame_kind(magic, payload.len() as u8).is_some() {
        let mut frame = [0u8; FRAME_SIZE];
        let _ = build_frame_into(magic, payload, &mut frame);
        assert(frame@ =~= request_frame(magic, payload@));
        return frame;
    }
    make_response_frame(magic, payload)
}

/// The data that a poll hands out: none for command output and for empty data.
pub fn polled_data(frame: Frame) -> (r: Option<Vec<u8>>)
    ensures
        r is Some <==> handed_out(frame@) is Some,
        r matches Some(data) ==> handed_out(frame@) == Some(data@),
{
    match frame {
        Frame::Data(bytes) => {
            if bytes.len() > 0 {
                Some(bytes)
            } else {
                None
            }
        },
        Frame::Command(_) => None,
    }
}

/// Decides what follows a frame that was read in wait for the output of a command, with `left`
/// frames to read at most.
pub fn after_command_poll(frame: Frame, left: u32) -> (r: CommandPoll)
    ensures
        poll_decided(frame@, left, r),
{
    match frame {
        Frame::Command(bytes) => CommandPoll::Answer(bytes),
        Frame::Data(_) => if left <= 1 {
            CommandPoll::TimedOut
        } else {
            CommandPoll::Again(left - 1)
        },
    }
}

/// Whether a stream reports a frame: everything but empty data.
pub fn is_reported(frame: &Frame) -> (r: bool)
    ensures
        r == is_news(frame@),
{
    proof {
        if let Frame::Data(bytes) = frame {
            if bytes@.len() == 0 {
                assert(bytes@ =~= Seq::<u8>::empty());
            }
        }
    }
    match frame {
        Frame::Data(bytes) => bytes.len() > 0,
        Frame::Command(_) => true,
    }
}

/// The number of an ioctl: eight bits each for number and type, fourteen for the size and two for
/// the direction.
pub fn ioc(dir: u32, ty: u32, nr: u32, size: u32) -> (request: u64)
    requires
        dir < 4,
        ty < 256,
        nr < 256,
        size < 16384,
    ensures
        request == nr + 256 * ty + 65536 * size + 1073741824 * dir,
{
    nr as u64 + 256 * (ty as u64) + 65536 * (size as u64) + 1073741824 * (dir as u64)
}

/// The number of the ioctl that hands `n` transfer descriptors to the SPI driver.
pub fn spi_ioc_message(n: u32) -> (request: u64)
    requires
        n < 512,
    ensures
        request == 256 * 0x6b + 65536 * (32 * n) + 1073741824,
{
    ioc(IOC_WRITE, SPI_IOC_MAGIC, 0, SPI_IOC_TRANSFER_SIZE * n)
}

/// What the device receives of a host frame: the bytes that the host clocks, in its larger buffer.
pub open spec fn received_frame(frame: Seq<u8>) -> Seq<u8> {
    zero_padded(frame, i2c::FRAME_SIZE as nat)
}

/// What the host receives of a device frame: as many bytes as the host clocks.
pub open spec fn clocked_frame(frame: Seq<u8>) -> Seq<u8> {
    frame.take(FRAME_SIZE as int)
}

/// What the host sends arrives at the device as one whole request and unchanged, for every payload
/// that the length byte can announce.
pub proof fn host_data_reaches_the_device(magic: u8, payload: Seq<u8>)
    requires
        magic == REQ_DATA_MAGIC || magic == REQ_COMMAND_MAGIC,
        payload.len() <= SHORT_PAYLOAD_MAX,
    ensures
        transaction(received_frame(request_frame(magic, payload)), FRAME_SIZE as nat)
            == Transaction::Complete(received_frame(request_frame(magic, payload))),
        transfer_request(received_frame(request_frame(magic, payload))) == Some(
            if magic == REQ_DATA_MAGIC {
                Request::Data(payload)
            } else {
                Request::Command(payload)
            },
        ),
{
    let frame = received_frame(request_frame(magic, payload));
    let nothing = Seq::<u8>::empty();
    if short_header_carries(magic, payload.len()) {
        short_frame_parses_back(payload);
        whole_short_request_is_complete(magic, payload, nothing, FRAME_SIZE as nat);
        assert(zero_padded(
            nothing + seq![magic, payload.len() as u8] + payload,
            i2c::FRAME_SIZE as nat,
        ) =~= frame);
    } else {
        link_frame_parses_back(payload);
        whole_request_is_complete(magic, payload, nothing, FRAME_SIZE as nat);
        assert(response_frame(magic, payload) =~= frame);
        assert(zero_padded(
            nothing + frame_bytes(response_sync(magic), payload),
            i2c::FRAME_SIZE as nat,
        ) =~= frame);
    }
}

/// What the device answers arrives at the host unchanged, for every payload that fits behind the
/// link header in what the host clocks. A longer one is refused with its length, and never comes out
/// cut.
pub proof fn device_responses_reach_the_host(payload: Seq<u8>)
    requires
        payload.len() <= i2c::PAYLOAD_MAX,
    ensures
        payload.len() <= LINK_PAYLOAD_MAX ==> {
            &&& parsed_response(clocked_frame(response_frame(RESP_DATA_MAGIC, payload))) == Ok::<
                _,
                (u8, nat),
            >(FrameValue::Data(payload))
            &&& parsed_response(clocked_frame(response_frame(RESP_COMMAND_MAGIC, payload))) == Ok::<
                _,
                (u8, nat),
            >(FrameValue::Command(payload))
        },
        payload.len() > LINK_PAYLOAD_MAX ==> {
            &&& parsed_response(clocked_frame(response_frame(RESP_DATA_MAGIC, payload))) == Err::<
                FrameValue,
                _,
            >((REQ_DATA_MAGIC, payload.len()))
            &&& parsed_response(clocked_frame(response_frame(RESP_COMMAND_MAGIC, payload)))
                == Err::<FrameValue, _>((REQ_COMMAND_MAGIC, payload.len()))
        },
{
    le16_round_trip(payload.len());
    let data = clocked_frame(response_frame(RESP_DATA_MAGIC, payload));
    let command = clocked_frame(response_frame(RESP_COMMAND_MAGIC, payload));
    if payload.len() <= LINK_PAYLOAD_MAX {
        assert(data.subrange(4, (4 + payload.len()) as int) =~= payload);
        assert(command.subrange(4, (4 + payload.len()) as int) =~= payload);
    }
}

/// A response with the short header arrives at the host unchanged, for every payload that the header
/// can announce.
pub proof fn short_responses_reach_the_host(payload: Seq<u8>)
    ensures
        short_header_carries(RESP_DATA_MAGIC, payload.len()) ==> parsed_response(
            length_byte_frame(RESP_DATA_MAGIC, payload),
        ) == Ok::<_, (u8, nat)>(FrameValue::Data(payload)),
        short_header_carries(RESP_COMMAND_MAGIC, payload.len()) ==> parsed_response(
            length_byte_frame(RESP_COMMAND_MAGIC, payload),
        ) == Ok::<_, (u8, nat)>(FrameValue::Command(payload)),
{
    if payload.len() <= SHORT_PAYLOAD_MAX {
        let data = length_byte_frame(RESP_DATA_MAGIC, payload);
        let command = length_byte_frame(RESP_COMMAND_MAGIC, payload);
        assert(data.subrange(2, (2 + payload.len()) as int) =~= payload);
        assert(command.subrange(2, (2 + payload.len()) as int) =~= payload);
    }
}

/// The whole way of a command: the host sends it, the device answers it, and the host reads the whole
/// text of the reply out of the next frame it clocks.
pub proof fn commands_are_answered_across_the_bus(
    payload: Seq<u8>,
    config: BridgeConfig,
    status: BridgeStatus,
    queue: Seq<SpiFrame>,
    pending: Option<Seq<u8>>,
)
    requires
        payload.len() <= SHORT_PAYLOAD_MAX,
        starts_with_slash(line_text(payload)),
        line_text(payload) != "/pull"@,
    ensures
        ({
            let line = line_text(payload);
            let sent = received_frame(request_frame(REQ_COMMAND_MAGIC, payload));
            let act = action(transaction(sent, FRAME_SIZE as nat));
            let staged = action_reply(act, config, status, queue, pending);
            &&& action_led(act) == requested_led_mode(line)
            &&& transfer_request(staged) == Some(
                Request::Command(encode_utf8(reply_text(config, status, line))),
            )
            &&& parsed_response(clocked_frame(staged)) == Ok::<_, (u8, nat)>(
                FrameValue::Command(encode_utf8(reply_text(config, status, line))),
            )
        }),
{
    let line = line_text(payload);
    let text = encode_utf8(reply_text(config, status, line));
    host_data_reaches_the_device(REQ_COMMAND_MAGIC, payload);
    replies_fit(config, status, line);
    link_frame_parses_back(text);
    device_responses_reach_the_host(text);
}

/// The whole way of data: what the host sends is handed on to the bridge session byte for byte,
/// whatever it reads as, and so is a command that starts with no slash. The host reads empty data.
pub proof fn data_is_forwarded_across_the_bus(
    magic: u8,
    payload: Seq<u8>,
    config: BridgeConfig,
    status: BridgeStatus,
    queue: Seq<SpiFrame>,
    pending: Option<Seq<u8>>,
)
    requires
        0 < payload.len() <= SHORT_PAYLOAD_MAX,
        magic == REQ_DATA_MAGIC || (magic == REQ_COMMAND_MAGIC && !starts_with_slash(
            line_text(payload),
        )),
    ensures
        ({
            let sent = received_frame(request_frame(magic, payload));
            let act = action(transaction(sent, FRAME_SIZE as nat));
            let staged = action_reply(act, config, status, queue, pending);
            &&& act == Action::Forward(sent)
            &&& transfer_request(sent) == Some(
                if magic == REQ_DATA_MAGIC {
                    Request::Data(payload)
                } else {
                    Request::Command(payload)
                },
            )
            &&& parsed_response(clocked_frame(staged)) == Ok::<_, (u8, nat)>(
                FrameValue::Data(Seq::<u8>::empty()),
            )
        }),
{
    host_data_reaches_the_device(magic, payload);
    device_responses_reach_the_host(Seq::empty());
    request_is_one_of_two_frames(magic, payload);
    data_requests_are_forwarded(payload);
    command_requests_are_answered_or_forwarded(payload);
    let sent = received_frame(request_frame(magic, payload));
    assert(action_reply(Action::Forward(sent), config, status, queue, pending) == empty_response());
}

/// What the device receives of a request starts with the short header where that can announce the
/// payload, and with the link header otherwise.
proof fn request_is_one_of_two_frames(magic: u8, payload: Seq<u8>)
    requires
        magic == REQ_DATA_MAGIC || magic == REQ_COMMAND_MAGIC,
        payload.len() <= SHORT_PAYLOAD_MAX,
    ensures
        received_frame(request_frame(magic, payload)) == if short_header_carries(
            magic,
            payload.len(),
        ) {
            short_frame(magic, payload)
        } else {
            response_frame(magic, payload)
        },
{
    let frame = received_frame(request_frame(magic, payload));
    if short_header_carries(magic, payload.len()) {
        assert(frame =~= short_frame(magic, payload));
    } else {
        assert(frame =~= response_frame(magic, payload));
    }
}

/// The host clocks 258 bytes per frame, of which 254 may be payload behind the link header.
pub proof fn frame_limits()
    ensures
        FRAME_SIZE == 258,
        LINK_PAYLOAD_MAX == 254,
        SHORT_PAYLOAD_MAX == 255,
{
}

/// Whatever frame a local command was found in, the host reads the whole text of its reply, and what
/// it pulls is what the session queued, byte for byte.
pub proof fn staged_responses_reach_the_host(
    line: Seq<char>,
    payload: Seq<u8>,
    config: BridgeConfig,
    status: BridgeStatus,
    queue: Seq<SpiFrame>,
    pending: Option<Seq<u8>>,
)
    requires
        payload.len() <= 254,
    ensures
        parsed_response(
            clocked_frame(action_reply(Action::Command(line), config, status, queue, pending)),
        ) == Ok::<_, (u8, nat)>(
            FrameValue::Command(encode_utf8(reply_text(config, status, line))),
        ),
        queue.len() > 0 && queue[0].data@ == response_frame(RESP_DATA_MAGIC, payload)
            ==> parsed_response(
            clocked_frame(action_reply(Action::Pull, config, status, queue, None)),
        ) == Ok::<_, (u8, nat)>(FrameValue::Data(payload)),
        queue.len() == 0 ==> parsed_response(
            clocked_frame(action_reply(Action::Pull, config, status, queue, None)),
        ) == Ok::<_, (u8, nat)>(FrameValue::Data(Seq::<u8>::empty())),
{
    replies_fit(config, status, line);
    device_responses_reach_the_host(encode_utf8(reply_text(config, status, line)));
    device_responses_reach_the_host(payload);
    device_responses_reach_the_host(Seq::empty());
}

/// A response that starts with neither a sync pair nor a response magic is refused, with its first
/// byte and its length byte.
pub proof fn foreign_responses_are_refused(raw: Seq<u8>)
    requires
        raw.len() == FRAME_SIZE,
        raw[0] != 0xa5,
        raw[0] != 0xa6,
        raw[0] != 0xa7,
        raw[0] != 0x5a,
        raw[0] != 0x5b,
    ensures
        parsed_response(raw) == Err::<FrameValue, _>((raw[0], raw[1] as nat)),
{
}

} // verus!
