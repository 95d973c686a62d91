//! Decisions of the USB CDC upstream bridge.

use crate::bridge::commands::led_request;
use crate::bridge::commands::local_reply;
use crate::bridge::commands::reply_text;
use crate::bridge::commands::requested_led_mode;
use crate::bridge::commands::BridgeStatus;
use crate::bridge::runtime::LinkPolicy;
use crate::bridge::runtime::OpenFailure;
use crate::config::BridgeConfig;
use crate::text::as_str256;
use crate::text::clear256;
use crate::text::new256;
use crate::text::push256;
use crate::text::text192;
use crate::text::text256;
use vstd::prelude::*;
use vstd::string::StrSliceExecFns;
use vstd::utf8::is_ascii_chars;
use vstd::utf8::is_ascii_chars_encode_utf8;

verus! {

/// The most bytes of one USB packet.
pub const USB_PACKET_MAX: usize = 64;

/// The most characters of an input line.
pub const USB_LINE_MAX: usize = 256;

/// How the client role runs its link.
pub fn client_policy() -> (policy: LinkPolicy)
    ensures
        policy == (LinkPolicy { client: true, on_open_failure: OpenFailure::Backoff }),
{
    LinkPolicy { client: true, on_open_failure: OpenFailure::Backoff }
}

/// How the server role runs its link: it ends when it cannot listen.
pub fn server_policy() -> (policy: LinkPolicy)
    ensures
        policy == (LinkPolicy { client: false, on_open_failure: OpenFailure::Stop }),
{
    LinkPolicy { client: false, on_open_failure: OpenFailure::Stop }
}

/// The end of the USB packet that starts at `offset` of `len` bytes.
pub fn packet_end(offset: usize, len: usize) -> (end: usize)
    requires
        offset < len,
    ensures
        offset < end <= len,
        end == packet_stop(offset as nat, len as nat),
{
    if len - offset > USB_PACKET_MAX {
        offset + USB_PACKET_MAX
    } else {
        len
    }
}

/// The input line that is being typed.
pub struct UsbLine {
    text: heapless::String<256>,
}

/// The line after one more byte: characters are appended while there is room, and everything that is
/// no ASCII character is dropped.
pub open spec fn line_after(line: Seq<char>, byte: u8) -> Seq<char> {
    if byte != 0x0d && byte != 0x0a && byte < 128 && line.len() < USB_LINE_MAX {
        line.push(byte as char)
    } else {
        line
    }
}

impl UsbLine {
    /// The characters typed so far.
    pub closed spec fn view(&self) -> Seq<char> {
        text256(self.text)
    }

    /// The line is ASCII and within its limit.
    pub open spec fn wf(&self) -> bool {
        is_ascii_chars(self@) && self@.len() <= USB_LINE_MAX
    }

    /// Creates an empty line.
    pub fn new() -> (line: Self)
        ensures
            line.wf(),
            line@ == Seq::<char>::empty(),
    {
        UsbLine { text: new256() }
    }

    /// Takes in one byte and reports whether it ends the line.
    pub fn push(&mut self, byte: u8) -> (ended: bool)
        requires
            old(self).wf(),
        ensures
            final(self).wf(),
            ended == (byte == 0x0a),
            final(self)@ == line_after(old(self)@, byte),
    {
        if byte == 0x0a {
            return true;
        }
        if byte != 0x0d && byte < 128 {
            let c = byte as char;
            proof {
                is_ascii_chars_encode_utf8(text256(self.text));
                is_ascii_chars_encode_utf8(seq![c]);
            }
            let _ = push256(&mut self.text, c);
        }
        false
    }

    /// The characters typed so far.
    pub fn as_str(&self) -> (r: &str)
        ensures
            r@ == self@,
    {
        as_str256(&self.text)
    }

    /// Starts a new line.
    pub fn clear(&mut self)
        ensures
            final(self).wf(),
            final(self)@ == Seq::<char>::empty(),
    {
        clear256(&mut self.text);
    }
}

/// Whether a line is a local command.
pub open spec fn is_local_line(line: Seq<char>) -> bool {
    line.len() > 0 && line[0] == '/'
}

/// The answer to a finished line, if it is a local command.
pub open spec fn line_reply(line: Seq<char>, config: BridgeConfig, status: BridgeStatus) -> Option<
    Seq<char>,
> {
    if is_local_line(line) {
        Some(reply_text(config, status, line))
    } else {
        None
    }
}

/// Whether a finished line goes to the peer.
pub open spec fn is_sent_on(line: Seq<char>, link_up: bool) -> bool {
    link_up && !is_local_line(line)
}

/// The LED mode that a finished line asks for.
pub open spec fn line_led(line: Seq<char>) -> Option<u8> {
    if is_local_line(line) {
        requested_led_mode(line)
    } else {
        None
    }
}

/// What the bridge does with a finished line.
pub struct UsbDecision {
    /// The text to answer with, followed by a line end.
    pub reply: Option<heapless::String<192>>,
    /// Whether the line goes to the peer, followed by a line feed.
    pub forward: bool,
    /// The LED mode that a local command asked for.
    pub led: Option<u8>,
}

/// Decides what the bridge does with a finished line: local commands are answered, and everything
/// else goes to the peer while the link is up.
pub fn handle_usb_line(
    line: &str,
    link_up: bool,
    bridge_config: &BridgeConfig,
    status: &BridgeStatus,
) -> (d: UsbDecision)
    ensures
        d.reply is Some <==> line_reply(line@, *bridge_config, *status) is Some,
        d.reply matches Some(reply) ==> line_reply(line@, *bridge_config, *status) == Some(
            text192(reply),
        ),
        d.forward == is_sent_on(line@, link_up),
        d.led == line_led(line@),
{
    if line.unicode_len() > 0 && line.get_char(0) == '/' {
        return UsbDecision {
            reply: Some(local_reply(bridge_config, status, line)),
            forward: false,
            led: led_request(line),
        };
    }
    UsbDecision { reply: None, forward: link_up, led: None }
}

/// The line after a run of bytes without a line feed.
pub open spec fn line_after_all(line: Seq<char>, bytes: Seq<u8>) -> Seq<char>
    decreases bytes.len(),
{
    if bytes.len() == 0 {
        line
    } else {
        line_after(line_after_all(line, bytes.drop_last()), bytes.last())
    }
}

/// A typed ASCII line within the limit is taken in character by character.
pub proof fn typed_line_is_taken_in(bytes: Seq<u8>)
    requires
        bytes.len() <= USB_LINE_MAX,
        forall|i: int|
            0 <= i < bytes.len() ==> (#[trigger] bytes[i]) < 128 && bytes[i] != 0x0a && bytes[i]
                != 0x0d,
    ensures
        line_after_all(Seq::empty(), bytes) == bytes.map_values(|b: u8| b as char),
    decreases bytes.len(),
{
    let typed = bytes.map_values(|b: u8| b as char);
    if bytes.len() > 0 {
        let rest = bytes.drop_last();
        assert forall|i: int| 0 <= i < rest.len() implies (#[trigger] rest[i]) < 128 && rest[i]
            != 0x0a && rest[i] != 0x0d by {
            assert(rest[i] == bytes[i]);
        }
        typed_line_is_taken_in(rest);
        assert(bytes[bytes.len() - 1] < 128);
        assert(rest.map_values(|b: u8| b as char).push(bytes.last() as char) =~= typed);
    } else {
        assert(typed =~= Seq::<char>::empty());
    }
}

/// A line is a local command exactly when its first character is a slash.
pub proof fn slash_lines_are_local(first: char, rest: Seq<char>)
    ensures
        is_local_line(seq![first] + rest) <==> first == '/',
        !is_local_line(Seq::empty()),
{
    assert((seq![first] + rest)[0] == first);
}

/// Line ends and bytes that are no ASCII characters leave the line alone, and so does everything
/// that is typed on a full line. Any other byte is appended.
pub proof fn other_bytes_leave_the_line(line: Seq<char>, byte: u8)
    ensures
        byte == 0x0a || byte == 0x0d || byte >= 128 || line.len() >= 256 ==> line_after(line, byte)
            == line,
        byte != 0x0a && byte != 0x0d && byte < 128 && line.len() < 256 ==> line_after(line, byte)
            == line.push(byte as char),
{
}

/// A line that starts with a slash is answered with the whole text of its reply and never goes out.
/// Every other line, an empty one too, goes out while the link is up and is not answered.
pub proof fn lines_are_answered_or_sent_on(
    first: char,
    rest: Seq<char>,
    config: BridgeConfig,
    status: BridgeStatus,
    link_up: bool,
)
    ensures
        ({
            let line = seq![first] + rest;
            if first == '/' {
                &&& line_reply(line, config, status) == Some(reply_text(config, status, line))
                &&& !is_sent_on(line, link_up)
                &&& line_led(line) == requested_led_mode(line)
            } else {
                &&& line_reply(line, config, status) is None
                &&& is_sent_on(line, link_up) == link_up
                &&& line_led(line) is None
            }
        }),
        line_reply(Seq::empty(), config, status) is None,
        is_sent_on(Seq::empty(), link_up) == link_up,
        line_led(Seq::empty()) is None,
{
    slash_lines_are_local(first, rest);
}

/// The end of the USB packet that starts at `offset` of `len` bytes.
pub open spec fn packet_stop(offset: nat, len: nat) -> nat {
    if len - offset > USB_PACKET_MAX {
        offset + USB_PACKET_MAX as nat
    } else {
        len
    }
}

/// The packets in which bytes go out from an offset on.
pub open spec fn usb_packets(bytes: Seq<u8>, offset: nat) -> Seq<Seq<u8>>
    decreases bytes.len() - offset,
{
    if offset >= bytes.len() || packet_stop(offset, bytes.len()) <= offset {
        Seq::empty()
    } else {
        seq![bytes.subrange(offset as int, packet_stop(offset, bytes.len()) as int)] + usb_packets(
            bytes,
            packet_stop(offset, bytes.len()),
        )
    }
}

/// What goes out in packets is everything, in order, and no packet is too long.
pub proof fn packets_hold_every_byte(bytes: Seq<u8>, offset: nat)
    requires
        offset <= bytes.len(),
    ensures
        usb_packets(bytes, offset).flatten() == bytes.skip(offset as int),
        forall|i: int|
            0 <= i < usb_packets(bytes, offset).len() ==> 0 < (#[trigger] usb_packets(
                bytes,
                offset,
            )[i]).len() <= 64,
    decreases bytes.len() - offset,
{
    let packets = usb_packets(bytes, offset);
    if offset < bytes.len() {
        let stop = packet_stop(offset, bytes.len());
        packets_hold_every_byte(bytes, stop);
        let rest = usb_packets(bytes, stop);
        assert(packets.drop_first() =~= rest);
        assert(packets[0] =~= bytes.subrange(offset as int, stop as int));
        assert(packets.flatten() =~= packets[0] + rest.flatten());
        assert(packets.flatten() =~= bytes.skip(offset as int));
        assert forall|i: int| 0 <= i < packets.len() implies 0 < (#[trigger] packets[i]).len()
            <= 64 by {
            if i > 0 {
                assert(packets[i] == rest[i - 1]);
            }
        }
    } else {
        assert(packets.flatten() =~= bytes.skip(offset as int));
    }
}

} // verus!
