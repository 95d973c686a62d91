//! Text helpers: bounded string buffers, number rendering and string comparison.

use vstd::prelude::*;
use vstd::string::StringExecFns;
use vstd::string::StringSliceAdditionalSpecFns;
use vstd::utf8::encode_utf8;
use vstd::utf8::encode_utf8_decode_utf8;
use vstd::utf8::is_ascii_chars;
use vstd::utf8::is_ascii_chars_encode_utf8;
use vstd::utf8::valid_utf8;

verus! {

/// The fixed-capacity string type of the `heapless` crate.
#[verifier::external_type_specification]
#[verifier::external_body]
pub struct ExHeaplessString<const N: usize>(heapless::String<N>);

/// The characters held by a 96-byte string buffer.
pub uninterp spec fn text96(s: heapless::String<96>) -> Seq<char>;

/// The characters held by a 128-byte string buffer.
pub uninterp spec fn text128(s: heapless::String<128>) -> Seq<char>;

/// The characters held by a 160-byte string buffer.
pub uninterp spec fn text160(s: heapless::String<160>) -> Seq<char>;

/// The characters held by a 192-byte string buffer.
pub uninterp spec fn text192(s: heapless::String<192>) -> Seq<char>;

/// The characters held by a 256-byte string buffer.
pub uninterp spec fn text256(s: heapless::String<256>) -> Seq<char>;

/// Whether appending `added` to `held` keeps the UTF-8 encoding within `limit` bytes.
pub open spec fn fits(held: Seq<char>, added: Seq<char>, limit: nat) -> bool {
    encode_utf8(held).len() + encode_utf8(added).len() <= limit
}

/// `heapless::String::<96>::new`: the new buffer is empty.
#[verifier::external_body]
pub(crate) fn new96() -> (s: heapless::String<96>)
    ensures
        text96(s) == Seq::<char>::empty(),
{
    heapless::String::new()
}

/// `heapless::String::<96>::push_str`: the whole text is appended when it fits in 96 bytes, and
/// nothing changes when it does not.
#[verifier::external_body]
pub(crate) fn push_str96(s: &mut heapless::String<96>, t: &str) -> (r: Result<(), ()>)
    ensures
        r is Ok <==> fits(text96(*old(s)), t@, 96),
        text96(*final(s)) == if r is Ok {
            text96(*old(s)) + t@
        } else {
            text96(*old(s))
        },
{
    s.push_str(t)
}

/// `heapless::String::<96>::push`: the character is appended when it fits in 96 bytes, and nothing
/// changes when it does not.
#[verifier::external_body]
pub(crate) fn push96(s: &mut heapless::String<96>, c: char) -> (r: Result<(), ()>)
    ensures
        r is Ok <==> fits(text96(*old(s)), seq![c], 96),
        text96(*final(s)) == if r is Ok {
            text96(*old(s)).push(c)
        } else {
            text96(*old(s))
        },
{
    s.push(c)
}

/// `heapless::String::<96>::as_str`: the text held, which is at most 96 bytes long.
#[verifier::external_body]
pub(crate) fn as_str96(s: &heapless::String<96>) -> (t: &str)
    ensures
        t@ == text96(*s),
        t.spec_bytes().len() <= 96,
{
    s.as_str()
}

/// `heapless::String::<128>::new`: the new buffer is empty.
#[verifier::external_body]
pub(crate) fn new128() -> (s: heapless::String<128>)
    ensures
        text128(s) == Seq::<char>::empty(),
{
    heapless::String::new()
}

/// `heapless::String::<128>::push`: the character is appended when it fits in 128 bytes, and
/// nothing changes when it does not.
#[verifier::external_body]
pub(crate) fn push128(s: &mut heapless::String<128>, c: char) -> (r: Result<(), ()>)
    ensures
        r is Ok <==> fits(text128(*old(s)), seq![c], 128),
        text128(*final(s)) == if r is Ok {
            text128(*old(s)).push(c)
        } else {
            text128(*old(s))
        },
{
    s.push(c)
}

/// `heapless::String::<128>::pop`: removes and returns the last character, if there is one.
#[verifier::external_body]
pub(crate) fn pop128(s: &mut heapless::String<128>) -> (r: Option<char>)
    ensures
        text128(*old(s)).len() == 0 ==> r is None && text128(*final(s)) == text128(*old(s)),
        text128(*old(s)).len() > 0 ==> r == Some(text128(*old(s)).last()) && text128(*final(s))
            == text128(*old(s)).drop_last(),
{
    s.pop()
}

/// `heapless::String::<128>::as_str`: the text held, which is at most 128 bytes long.
#[verifier::external_body]
pub(crate) fn as_str128(s: &heapless::String<128>) -> (t: &str)
    ensures
        t@ == text128(*s),
        t.spec_bytes().len() <= 128,
{
    s.as_str()
}

/// `heapless::String::<160>::new`: the new buffer is empty.
#[verifier::external_body]
pub(crate) fn new160() -> (s: heapless::String<160>)
    ensures
        text160(s) == Seq::<char>::empty(),
{
    heapless::String::new()
}

/// `heapless::String::<160>::push_str`: the whole text is appended when it fits in 160 bytes, and
/// nothing changes when it does not.
#[verifier::external_body]
pub(crate) fn push_str160(s: &mut heapless::String<160>, t: &str) -> (r: Result<(), ()>)
    ensures
        r is Ok <==> fits(text160(*old(s)), t@, 160),
        text160(*final(s)) == if r is Ok {
            text160(*old(s)) + t@
        } else {
            text160(*old(s))
        },
{
    s.push_str(t)
}

/// `heapless::String::<160>::push`: the character is appended when it fits in 160 bytes, and
/// nothing changes when it does not.
#[verifier::external_body]
pub(crate) fn push160(s: &mut heapless::String<160>, c: char) -> (r: Result<(), ()>)
    ensures
        r is Ok <==> fits(text160(*old(s)), seq![c], 160),
        text160(*final(s)) == if r is Ok {
            text160(*old(s)).push(c)
        } else {
            text160(*old(s))
        },
{
    s.push(c)
}

/// `heapless::String::<160>::as_str`: the text held, which is at most 160 bytes long.
#[verifier::external_body]
pub(crate) fn as_str160(s: &heapless::String<160>) -> (t: &str)
    ensures
        t@ == text160(*s),
        t.spec_bytes().len() <= 160,
{
    s.as_str()
}

/// `heapless::String::<192>::new`: the new buffer is empty.
#[verifier::external_body]
pub(crate) fn new192() -> (s: heapless::String<192>)
    ensures
        text192(s) == Seq::<char>::empty(),
{
    heapless::String::new()
}

/// `heapless::String::<192>::push_str`: the whole text is appended when it fits in 192 bytes, and
/// nothing changes when it does not.
#[verifier::external_body]
pub(crate) fn push_str192(s: &mut heapless::String<192>, t: &str) -> (r: Result<(), ()>)
    ensures
        r is Ok <==> fits(text192(*old(s)), t@, 192),
        text192(*final(s)) == if r is Ok {
            text192(*old(s)) + t@
        } else {
            text192(*old(s))
        },
{
    s.push_str(t)
}

/// `heapless::String::<192>::as_str`: the text held, which is at most 192 bytes long.
#[verifier::external_body]
pub(crate) fn as_str192(s: &heapless::String<192>) -> (t: &str)
    ensures
        t@ == text192(*s),
        t.spec_bytes().len() <= 192,
{
    s.as_str()
}

/// `heapless::String::<256>::new`: the new buffer is empty.
#[verifier::external_body]
pub(crate) fn new256() -> (s: heapless::String<256>)
    ensures
        text256(s) == Seq::<char>::empty(),
{
    heapless::String::new()
}

/// `heapless::String::<256>::push`: the character is appended when it fits in 256 bytes, and
/// nothing changes when it does not.
#[verifier::external_body]
pub(crate) fn push256(s: &mut heapless::String<256>, c: char) -> (r: Result<(), ()>)
    ensures
        r is Ok <==> fits(text256(*old(s)), seq![c], 256),
        text256(*final(s)) == if r is Ok {
            text256(*old(s)).push(c)
        } else {
            text256(*old(s))
        },
{
    s.push(c)
}

/// `heapless::String::<256>::clear`: the buffer is empty afterwards.
#[verifier::external_body]
pub(crate) fn clear256(s: &mut heapless::String<256>)
    ensures
        text256(*final(s)) == Seq::<char>::empty(),
{
    s.clear()
}

/// `heapless::String::<256>::as_str`: the text held, which is at most 256 bytes long.
#[verifier::external_body]
pub(crate) fn as_str256(s: &heapless::String<256>) -> (t: &str)
    ensures
        t@ == text256(*s),
        t.spec_bytes().len() <= 256,
{
    s.as_str()
}

/// `core::str::from_utf8`: the bytes as text exactly when they are valid UTF-8.
#[verifier::external_body]
pub(crate) fn checked_utf8(bytes: &[u8]) -> (r: Option<&str>)
    ensures
        r is Some <==> valid_utf8(bytes@),
        r matches Some(t) ==> t.spec_bytes() == bytes@,
{
    core::str::from_utf8(bytes).ok()
}

/// A bounded text buffer that takes whole pieces of text or refuses them.
pub trait TextBuf: Sized {
    /// The characters held.
    spec fn text(&self) -> Seq<char>;

    /// The capacity in bytes.
    spec fn limit() -> nat;

    /// Appends a piece of text when all of it fits.
    fn append(&mut self, t: &str) -> (r: Result<(), ()>)
        ensures
            r is Ok <==> fits(old(self).text(), t@, Self::limit()),
            final(self).text() == if r is Ok {
                old(self).text() + t@
            } else {
                old(self).text()
            },
    ;

    /// Appends one character when it fits.
    fn append_char(&mut self, c: char) -> (r: Result<(), ()>)
        ensures
            r is Ok <==> fits(old(self).text(), seq![c], Self::limit()),
            final(self).text() == if r is Ok {
                old(self).text().push(c)
            } else {
                old(self).text()
            },
    ;
}

impl TextBuf for heapless::String<96> {
    open spec fn text(&self) -> Seq<char> {
        text96(*self)
    }

    open spec fn limit() -> nat {
        96
    }

    fn append(&mut self, t: &str) -> (r: Result<(), ()>) {
        push_str96(self, t)
    }

    fn append_char(&mut self, c: char) -> (r: Result<(), ()>) {
        push96(self, c)
    }
}

impl TextBuf for heapless::String<160> {
    open spec fn text(&self) -> Seq<char> {
        text160(*self)
    }

    open spec fn limit() -> nat {
        160
    }

    fn append(&mut self, t: &str) -> (r: Result<(), ()>) {
        push_str160(self, t)
    }

    fn append_char(&mut self, c: char) -> (r: Result<(), ()>) {
        push160(self, c)
    }
}

/// The decimal digit with the given value.
pub open spec fn digit_char(value: nat) -> char {
    (0x30 + value) as char
}

/// The lowercase hexadecimal digit with the given value.
pub open spec fn hex_char(value: nat) -> char {
    if value < 10 {
        (0x30 + value) as char
    } else {
        (0x57 + value) as char
    }
}

/// The decimal form of a number, without leading zeros.
pub open spec fn decimal(value: nat) -> Seq<char>
    decreases value,
{
    if value < 10 {
        seq![digit_char(value)]
    } else {
        decimal(value / 10).push(digit_char(value % 10))
    }
}

/// The two-digit lowercase hexadecimal form of a byte.
pub open spec fn hex_byte(value: u8) -> Seq<char> {
    seq![hex_char((value / 16) as nat), hex_char((value % 16) as nat)]
}

/// Ten to the given power.
pub open spec fn power_of_ten(exponent: nat) -> nat
    decreases exponent,
{
    if exponent == 0 {
        1
    } else {
        10 * power_of_ten((exponent - 1) as nat)
    }
}

/// A number below ten to the power `digits` takes at most `digits` decimal digits, all ASCII.
pub proof fn decimal_width(value: nat, digits: nat)
    requires
        digits > 0,
        value < power_of_ten(digits),
    ensures
        1 <= decimal(value).len() <= digits,
        is_ascii_chars(decimal(value)),
    decreases digits,
{
    if value >= 10 {
        assert(digits > 1) by {
            if digits == 1 {
                reveal_with_fuel(power_of_ten, 2);
            }
        }
        decimal_width(value / 10, (digits - 1) as nat);
    }
}

/// Two texts are equal when their encodings are.
pub proof fn encoding_is_injective(a: Seq<char>, b: Seq<char>)
    ensures
        encode_utf8(a) == encode_utf8(b) <==> a == b,
{
    encode_utf8_decode_utf8(a);
    encode_utf8_decode_utf8(b);
}

/// Whether two texts are equal.
pub fn same_text(a: &str, b: &str) -> (r: bool)
    ensures
        r == (a@ == b@),
{
    proof {
        encoding_is_injective(a@, b@);
    }
    same_bytes(a.as_bytes(), b.as_bytes())
}

/// Whether two byte strings are equal.
pub fn same_bytes(a: &[u8], b: &[u8]) -> (r: bool)
    ensures
        r == (a@ == b@),
{
    if a.len() != b.len() {
        return false;
    }
    let n: usize = a.len();
    for i in 0..n
        invariant
            n == a@.len(),
            n == b@.len(),
            forall|j: int| 0 <= j < i ==> a@[j] == b@[j],
    {
        if a[i] != b[i] {
            assert(a@[i as int] != b@[i as int]);
            return false;
        }
    }
    assert(a@ == b@);
    true
}

/// Appends ASCII text to a buffer that has room for it.
pub fn append_text<B: TextBuf>(out: &mut B, t: &str)
    requires
        is_ascii_chars(old(out).text()),
        is_ascii_chars(t@),
        old(out).text().len() + t@.len() <= B::limit(),
    ensures
        final(out).text() == old(out).text() + t@,
        is_ascii_chars(final(out).text()),
{
    proof {
        is_ascii_chars_encode_utf8(out.text());
        is_ascii_chars_encode_utf8(t@);
    }
    let _ = out.append(t);
}

/// Appends one ASCII character to a buffer that has room for it.
pub fn append_ascii<B: TextBuf>(out: &mut B, c: char)
    requires
        is_ascii_chars(old(out).text()),
        c <= '\u{7f}',
        old(out).text().len() + 1 <= B::limit(),
    ensures
        final(out).text() == old(out).text().push(c),
        is_ascii_chars(final(out).text()),
{
    proof {
        is_ascii_chars_encode_utf8(out.text());
        is_ascii_chars_encode_utf8(seq![c]);
    }
    let _ = out.append_char(c);
}

/// Appends a number in decimal form to a buffer that has room for it.
pub fn append_decimal<B: TextBuf>(out: &mut B, value: u64)
    requires
        is_ascii_chars(old(out).text()),
        old(out).text().len() + decimal(value as nat).len() <= B::limit(),
    ensures
        final(out).text() == old(out).text() + decimal(value as nat),
        is_ascii_chars(final(out).text()),
    decreases value,
{
    let ghost before = out.text();
    if value >= 10 {
        append_decimal(out, value / 10);
    }
    let digit = (0x30u8 + (value % 10) as u8) as char;
    append_ascii(out, digit);
    assert(out.text() == before + decimal(value as nat));
}

/// Counts the digits of a number in decimal form.
pub fn decimal_len(value: u64) -> (n: usize)
    ensures
        n == decimal(value as nat).len(),
        n <= 20,
{
    proof {
        reveal_with_fuel(power_of_ten, 21);
        decimal_width(value as nat, 20);
    }
    let mut n: usize = 1;
    let mut rest: u64 = value;
    while rest >= 10
        invariant
            n + decimal(rest as nat).len() == decimal(value as nat).len() + 1,
            decimal(value as nat).len() <= 20,
        decreases rest,
    {
        rest = rest / 10;
        n = n + 1;
    }
    n
}

/// Appends a byte as two lowercase hexadecimal digits to a buffer that has room for them.
pub fn append_hex_byte<B: TextBuf>(out: &mut B, value: u8)
    requires
        is_ascii_chars(old(out).text()),
        old(out).text().len() + 2 <= B::limit(),
    ensures
        final(out).text() == old(out).text() + hex_byte(value),
        is_ascii_chars(final(out).text()),
{
    let ghost before = out.text();
    append_ascii(out, hex_digit(value / 16));
    append_ascii(out, hex_digit(value % 16));
    assert(out.text() == before + hex_byte(value));
}

fn hex_digit(value: u8) -> (c: char)
    requires
        value < 16,
    ensures
        c == hex_char(value as nat),
        c <= '\u{7f}',
{
    if value < 10 {
        (0x30u8 + value) as char
    } else {
        (0x57u8 + value) as char
    }
}

fn digit_text(value: u8) -> (t: &'static str)
    requires
        value < 16,
    ensures
        t@ == seq![hex_char(value as nat)],
{
    proof {
        reveal_strlit("0");
        reveal_strlit("1");
        reveal_strlit("2");
        reveal_strlit("3");
        reveal_strlit("4");
        reveal_strlit("5");
        reveal_strlit("6");
        reveal_strlit("7");
        reveal_strlit("8");
        reveal_strlit("9");
        reveal_strlit("a");
        reveal_strlit("b");
        reveal_strlit("c");
        reveal_strlit("d");
        reveal_strlit("e");
        reveal_strlit("f");
    }
    let t = match value {
        0 => "0",
        1 => "1",
        2 => "2",
        3 => "3",
        4 => "4",
        5 => "5",
        6 => "6",
        7 => "7",
        8 => "8",
        9 => "9",
        10 => "a",
        11 => "b",
        12 => "c",
        13 => "d",
        14 => "e",
        _ => "f",
    };
    assert(t@ =~= seq![hex_char(value as nat)]);
    t
}

/// Appends a number in decimal form to a growable string.
pub fn string_with_decimal(out: &mut String, value: u64)
    ensures
        final(out)@ == old(out)@ + decimal(value as nat),
    decreases value,
{
    let ghost before = out@;
    if value >= 10 {
        string_with_decimal(out, value / 10);
    }
    out.append(digit_text((value % 10) as u8));
    assert(out@ =~= before + decimal(value as nat));
}

/// Appends a byte as two lowercase hexadecimal digits to a growable string.
pub fn string_with_hex(out: &mut String, value: u8)
    ensures
        final(out)@ == old(out)@ + hex_byte(value),
{
    let ghost before = out@;
    out.append(digit_text(value / 16));
    out.append(digit_text(value % 16));
    assert(out@ =~= before + hex_byte(value));
}

} // verus!
