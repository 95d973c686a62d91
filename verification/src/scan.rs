//! Reading words, numbers and trimmed pieces out of text.

use crate::text::decimal;
use crate::text::digit_char;
use vstd::prelude::*;
use vstd::string::StrSliceExecFns;

verus! {

/// A set of characters that is trimmed off the ends of a text.
#[derive(Clone, Copy)]
pub enum TrimSet {
    /// Carriage return, line feed, space and tab.
    LineEnds,
    /// Everything with the Unicode `White_Space` property.
    WhiteSpace,
}

/// Whether a character separates words: space, tab, line feed, form feed or carriage return.
pub open spec fn is_ascii_space(c: char) -> bool {
    c == ' ' || c == '\t' || c == '\n' || c == '\u{c}' || c == '\r'
}

/// Whether a character has the Unicode `White_Space` property.
pub open spec fn is_white_space(c: char) -> bool {
    ||| '\u{9}' <= c <= '\u{d}'
    ||| c == ' '
    ||| c == '\u{85}'
    ||| c == '\u{a0}'
    ||| c == '\u{1680}'
    ||| '\u{2000}' <= c <= '\u{200a}'
    ||| c == '\u{2028}'
    ||| c == '\u{2029}'
    ||| c == '\u{202f}'
    ||| c == '\u{205f}'
    ||| c == '\u{3000}'
}

/// Whether a character belongs to a trim set.
pub open spec fn trims(set: TrimSet, c: char) -> bool {
    match set {
        TrimSet::LineEnds => c == '\r' || c == '\n' || c == ' ' || c == '\t',
        TrimSet::WhiteSpace => is_white_space(c),
    }
}

/// The text without the characters of `set` at its start.
pub open spec fn trimmed_start(set: TrimSet, s: Seq<char>) -> Seq<char>
    decreases s.len(),
{
    if s.len() > 0 && trims(set, s[0]) {
        trimmed_start(set, s.drop_first())
    } else {
        s
    }
}

/// The text without the characters of `set` at its end.
pub open spec fn trimmed_end(set: TrimSet, s: Seq<char>) -> Seq<char>
    decreases s.len(),
{
    if s.len() > 0 && trims(set, s.last()) {
        trimmed_end(set, s.drop_last())
    } else {
        s
    }
}

/// The text without the characters of `set` at either end.
pub open spec fn trimmed(set: TrimSet, s: Seq<char>) -> Seq<char> {
    trimmed_end(set, trimmed_start(set, s))
}

/// The number of characters in front of the first word separator.
pub open spec fn word_len(s: Seq<char>) -> nat
    decreases s.len(),
{
    if s.len() == 0 || is_ascii_space(s[0]) {
        0
    } else {
        1 + word_len(s.drop_first())
    }
}

/// The maximal runs of characters that are no word separators, in order.
pub open spec fn words(s: Seq<char>) -> Seq<Seq<char>>
    decreases s.len(),
{
    if s.len() == 0 {
        Seq::empty()
    } else if is_ascii_space(s[0]) {
        words(s.drop_first())
    } else {
        let n = word_len(s) as int;
        proof {
            word_len_bound(s);
        }
        seq![s.take(n)] + words(s.skip(n))
    }
}

/// The position of the first `c`, or the length of the text when there is none.
pub open spec fn position(s: Seq<char>, c: char) -> nat
    decreases s.len(),
{
    if s.len() == 0 || s[0] == c {
        0
    } else {
        1 + position(s.drop_first(), c)
    }
}

/// The pieces between the separators `sep`, empty ones included.
pub open spec fn split_on(s: Seq<char>, sep: char) -> Seq<Seq<char>>
    decreases s.len(),
{
    let k = position(s, sep);
    if k >= s.len() {
        seq![s]
    } else {
        seq![s.take(k as int)] + split_on(s.skip((k + 1) as int), sep)
    }
}

/// Whether a character is a decimal digit.
pub open spec fn is_digit(c: char) -> bool {
    '0' <= c <= '9'
}

/// The number that a run of decimal digits stands for.
pub open spec fn digits_value(s: Seq<char>) -> nat
    decreases s.len(),
{
    if s.len() == 0 {
        0
    } else {
        10 * digits_value(s.drop_last()) + (s.last() as nat - '0' as nat) as nat
    }
}

/// Whether a text consists of decimal digits.
pub open spec fn all_digits(s: Seq<char>) -> bool {
    forall|i: int| 0 <= i < s.len() ==> is_digit(#[trigger] s[i])
}

/// The text behind an optional plus sign.
pub open spec fn without_plus(s: Seq<char>) -> Seq<char> {
    if s.len() > 0 && s[0] == '+' {
        s.drop_first()
    } else {
        s
    }
}

/// The unsigned number written in a text: one or more decimal digits, with a plus sign in front or
/// not, standing for at most `max`.
pub open spec fn unsigned_value(s: Seq<char>, max: nat) -> Option<nat> {
    let digits = without_plus(s);
    if digits.len() > 0 && all_digits(digits) && digits_value(digits) <= max {
        Some(digits_value(digits))
    } else {
        None
    }
}

/// Whether a character is a hexadecimal digit.
pub open spec fn is_hex_digit(c: char) -> bool {
    '0' <= c <= '9' || 'a' <= c <= 'f' || 'A' <= c <= 'F'
}

/// The value of a hexadecimal digit.
pub open spec fn hex_digit_value(c: char) -> nat {
    if '0' <= c <= '9' {
        (c as nat - '0' as nat) as nat
    } else if 'a' <= c <= 'f' {
        (c as nat - 'a' as nat + 10) as nat
    } else {
        (c as nat - 'A' as nat + 10) as nat
    }
}

/// The number that a run of hexadecimal digits stands for.
pub open spec fn hex_digits_value(s: Seq<char>) -> nat
    decreases s.len(),
{
    if s.len() == 0 {
        0
    } else {
        16 * hex_digits_value(s.drop_last()) + hex_digit_value(s.last())
    }
}

/// The byte written in a text: one or more hexadecimal digits, with a plus sign in front or not,
/// standing for at most 255.
pub open spec fn hex_byte_value(s: Seq<char>) -> Option<u8> {
    let digits = without_plus(s);
    if digits.len() > 0 && (forall|i: int| 0 <= i < digits.len() ==> is_hex_digit(#[trigger] digits[i]))
        && hex_digits_value(digits) <= 255 {
        Some(hex_digits_value(digits) as u8)
    } else {
        None
    }
}

/// A word is no longer than the text it starts.
pub proof fn word_len_bound(s: Seq<char>)
    ensures
        word_len(s) <= s.len(),
    decreases s.len(),
{
    if s.len() > 0 && !is_ascii_space(s[0]) {
        word_len_bound(s.drop_first());
    }
}

/// The first `c` lies within the text or there is none.
pub proof fn position_bound(s: Seq<char>, c: char)
    ensures
        position(s, c) <= s.len(),
        position(s, c) < s.len() ==> s[position(s, c) as int] == c,
        forall|i: int| 0 <= i < position(s, c) ==> s[i] != c,
    decreases s.len(),
{
    if s.len() > 0 && s[0] != c {
        position_bound(s.drop_first(), c);
        assert forall|i: int| 0 <= i < position(s, c) implies s[i] != c by {
            if i > 0 {
                assert(s[i] == s.drop_first()[i - 1]);
            }
        }
    }
}

/// A number in decimal form reads back as the number.
pub proof fn decimal_reads_back(value: nat, max: nat)
    requires
        value <= max,
    ensures
        all_digits(decimal(value)),
        decimal(value).len() > 0,
        digits_value(decimal(value)) == value,
        unsigned_value(decimal(value), max) == Some(value),
    decreases value,
{
    reveal_with_fuel(digits_value, 2);
    if value >= 10 {
        decimal_reads_back(value / 10, max);
        let front = decimal(value / 10);
        let digit = digit_char(value % 10);
        assert(decimal(value) == front.push(digit));
        assert(decimal(value).drop_last() == front);
    } else {
        assert(decimal(value).drop_last() =~= Seq::<char>::empty());
    }
    assert(is_digit(decimal(value)[0]));
}

/// A separator behind a text without it ends the first piece.
pub proof fn split_first(piece: Seq<char>, rest: Seq<char>, sep: char)
    requires
        !piece.contains(sep),
    ensures
        position(piece, sep) == piece.len(),
        position(piece + seq![sep] + rest, sep) == piece.len(),
        split_on(piece, sep) == seq![piece],
        split_on(piece + seq![sep] + rest, sep) == seq![piece] + split_on(rest, sep),
{
    let whole = piece + seq![sep] + rest;
    position_bound(piece, sep);
    position_bound(whole, sep);
    let k = position(whole, sep) as int;
    if position(piece, sep) < piece.len() {
        assert(piece.contains(piece[position(piece, sep) as int]));
    }
    if k > piece.len() {
        assert(whole[piece.len() as int] == sep);
    }
    if k < piece.len() {
        assert(piece[k] == whole[k]);
        assert(piece.contains(piece[k]));
    }
    assert(whole.take(piece.len() as int) == piece);
    assert(whole.skip(piece.len() as int + 1) == rest);
}

/// Whether a text is one word: not empty and without white space.
pub open spec fn is_word(s: Seq<char>) -> bool {
    s.len() > 0 && forall|i: int| 0 <= i < s.len() ==> !is_white_space(#[trigger] s[i])
}

/// A word in front of a space is the first word of the text, with the words behind the space after
/// it.
pub proof fn words_between_spaces(word: Seq<char>, rest: Seq<char>)
    requires
        is_word(word),
    ensures
        words(word) == seq![word],
        words(word + seq![' '] + rest) == seq![word] + words(rest),
        trimmed(TrimSet::WhiteSpace, word) == word,
{
    let line = word + seq![' '] + rest;
    word_len_up_to(word, Seq::empty());
    word_len_up_to(word, seq![' '] + rest);
    assert(line =~= word + (seq![' '] + rest));
    assert(word + Seq::<char>::empty() =~= word);
    assert(!is_white_space(word[0]));
    assert(!is_white_space(word.last()));
    assert(line[0] == word[0]);
    let n = word.len() as int;
    assert(word.take(n) =~= word);
    assert(word.skip(n) =~= Seq::<char>::empty());
    assert(words(Seq::<char>::empty()) =~= Seq::<Seq<char>>::empty());
    assert(words(word) =~= seq![word]);
    assert(line.take(n) =~= word);
    assert(line.skip(n) =~= seq![' '] + rest);
    assert((seq![' '] + rest).drop_first() =~= rest);
    assert((seq![' '] + rest)[0] == ' ');
    assert(words(seq![' '] + rest) == words(rest));
}

proof fn word_len_up_to(word: Seq<char>, rest: Seq<char>)
    requires
        forall|i: int| 0 <= i < word.len() ==> !is_white_space(#[trigger] word[i]),
        rest.len() > 0 ==> is_ascii_space(rest[0]),
    ensures
        word_len(word + rest) == word.len(),
    decreases word.len(),
{
    let s = word + rest;
    if word.len() > 0 {
        assert(s[0] == word[0]);
        assert(!is_white_space(word[0]));
        assert(s.drop_first() =~= word.drop_first() + rest);
        assert forall|i: int| 0 <= i < word.drop_first().len() implies !is_white_space(
            #[trigger] word.drop_first()[i],
        ) by {
            assert(word.drop_first()[i] == word[i + 1]);
        }
        word_len_up_to(word.drop_first(), rest);
    } else {
        assert(s =~= rest);
    }
}

/// Characters of the set around a text that neither starts nor ends with one are trimmed off, and
/// nothing else is.
pub proof fn trimmed_between(set: TrimSet, before: Seq<char>, text: Seq<char>, after: Seq<char>)
    requires
        forall|i: int| 0 <= i < before.len() ==> trims(set, #[trigger] before[i]),
        forall|i: int| 0 <= i < after.len() ==> trims(set, #[trigger] after[i]),
        text.len() > 0 ==> !trims(set, text[0]) && !trims(set, text.last()),
    ensures
        trimmed(set, before + text + after) == text,
    decreases before.len() + after.len(), after.len(),
{
    let whole = before + text + after;
    if before.len() > 0 {
        assert(trims(set, before[0]));
        assert(whole[0] == before[0]);
        let rest = before.drop_first();
        assert(whole.drop_first() =~= rest + text + after);
        assert forall|i: int| 0 <= i < rest.len() implies trims(set, #[trigger] rest[i]) by {
            assert(rest[i] == before[i + 1]);
        }
        trimmed_between(set, rest, text, after);
    } else if after.len() > 0 {
        assert(trims(set, after[after.len() - 1]));
        if text.len() == 0 {
            assert(whole =~= after);
            trimmed_between(set, after, text, before);
            assert(after + text + before =~= after);
        } else {
            assert(whole[0] == text[0]);
            let rest = after.drop_last();
            assert(whole.drop_last() =~= before + text + rest);
            assert(whole.last() == after.last());
            assert forall|i: int| 0 <= i < rest.len() implies trims(set, #[trigger] rest[i]) by {
                assert(rest[i] == after[i]);
            }
            trimmed_between(set, before, text, rest);
            assert((before + text + rest)[0] == text[0]);
        }
    } else {
        assert(whole =~= text);
    }
}

proof fn digits_value_grows(s: Seq<char>, n: int)
    requires
        0 <= n <= s.len(),
    ensures
        digits_value(s.take(n)) <= digits_value(s),
    decreases s.len(),
{
    if n == s.len() {
        assert(s.take(n) == s);
    } else {
        assert(s.take(n) == s.drop_last().take(n));
        digits_value_grows(s.drop_last(), n);
    }
}

proof fn hex_digits_value_grows(s: Seq<char>, n: int)
    requires
        0 <= n <= s.len(),
    ensures
        hex_digits_value(s.take(n)) <= hex_digits_value(s),
    decreases s.len(),
{
    if n == s.len() {
        assert(s.take(n) == s);
    } else {
        assert(s.take(n) == s.drop_last().take(n));
        hex_digits_value_grows(s.drop_last(), n);
    }
}

fn in_trim_set(set: TrimSet, c: char) -> (r: bool)
    ensures
        r == trims(set, c),
{
    match set {
        TrimSet::LineEnds => c == '\r' || c == '\n' || c == ' ' || c == '\t',
        TrimSet::WhiteSpace => {
            ('\u{9}' <= c && c <= '\u{d}') || c == ' ' || c == '\u{85}' || c == '\u{a0}' || c
                == '\u{1680}' || ('\u{2000}' <= c && c <= '\u{200a}') || c == '\u{2028}' || c
                == '\u{2029}' || c == '\u{202f}' || c == '\u{205f}' || c == '\u{3000}'
        },
    }
}

fn splits_words(c: char) -> (r: bool)
    ensures
        r == is_ascii_space(c),
{
    c == ' ' || c == '\t' || c == '\n' || c == '\u{c}' || c == '\r'
}

/// Removes the characters of `set` from both ends of a text.
pub fn trim_text(set: TrimSet, s: &str) -> (r: &str)
    ensures
        r@ == trimmed(set, s@),
{
    let total: usize = s.unicode_len();
    let mut start: usize = 0;
    assert(s@.skip(0) == s@);
    while start < total && in_trim_set(set, s.get_char(start))
        invariant
            total == s@.len(),
            start <= total,
            trimmed_start(set, s@) == trimmed_start(set, s@.skip(start as int)),
        ensures
            start <= total,
            start < total ==> !trims(set, s@[start as int]),
            trimmed_start(set, s@) == trimmed_start(set, s@.skip(start as int)),
        decreases total - start,
    {
        assert(s@.skip(start as int).drop_first() == s@.skip(start + 1));
        start = start + 1;
    }
    let ghost tail = s@.skip(start as int);
    assert(trimmed_start(set, s@) == tail);
    let mut end: usize = total;
    assert(s@.subrange(start as int, total as int) == tail);
    while end > start && in_trim_set(set, s.get_char(end - 1))
        invariant
            total == s@.len(),
            start <= end <= total,
            trimmed(set, s@) == trimmed_end(set, s@.subrange(start as int, end as int)),
        ensures
            start <= end <= total,
            end > start ==> !trims(set, s@[end - 1]),
            trimmed(set, s@) == trimmed_end(set, s@.subrange(start as int, end as int)),
        decreases end - start,
    {
        assert(s@.subrange(start as int, end as int).drop_last() == s@.subrange(
            start as int,
            end - 1,
        ));
        end = end - 1;
    }
    s.substring_char(start, end)
}

/// The first word of a text that does not start with a separator, and what follows it.
fn split_word(s: &str) -> (r: (&str, &str))
    requires
        s@.len() > 0,
        !is_ascii_space(s@[0]),
    ensures
        words(s@) == seq![r.0@] + words(r.1@),
        r.1@.len() < s@.len(),
{
    let total: usize = s.unicode_len();
    let mut n: usize = 0;
    assert(s@.skip(0) == s@);
    while n < total && !splits_words(s.get_char(n))
        invariant
            total == s@.len(),
            n <= total,
            word_len(s@) == n + word_len(s@.skip(n as int)),
        ensures
            n <= total,
            n == word_len(s@),
        decreases total - n,
    {
        assert(s@.skip(n as int).drop_first() == s@.skip(n + 1));
        n = n + 1;
    }
    assert(n > 0);
    (s.substring_char(0, n), s.substring_char(n, total))
}

/// The next word of a text, if there is one, and what follows it.
pub fn next_word(s: &str) -> (r: Option<(&str, &str)>)
    ensures
        r is None <==> words(s@).len() == 0,
        r matches Some((word, rest)) ==> words(s@) == seq![word@] + words(rest@) && rest@.len()
            < s@.len(),
{
    let total: usize = s.unicode_len();
    let mut at: usize = 0;
    assert(s@.skip(0) == s@);
    while at < total && splits_words(s.get_char(at))
        invariant
            total == s@.len(),
            at <= total,
            words(s@) == words(s@.skip(at as int)),
        ensures
            at <= total,
            at < total ==> !is_ascii_space(s@[at as int]),
            words(s@) == words(s@.skip(at as int)),
        decreases total - at,
    {
        assert(s@.skip(at as int).drop_first() == s@.skip(at + 1));
        at = at + 1;
    }
    if at == total {
        return None;
    }
    let tail = s.substring_char(at, total);
    assert(tail@ == s@.skip(at as int));
    Some(split_word(tail))
}

/// Counts the words of a text.
pub fn word_count(s: &str) -> (n: usize)
    ensures
        n == words(s@).len(),
{
    let mut rest = s;
    let mut n: usize = 0;
    let ghost all = words(s@);
    proof {
        words_are_few(s@);
    }
    let total: usize = s.unicode_len();
    loop
        invariant_except_break
            all.len() == n + words(rest@).len(),
            all.len() <= total,
        ensures
            n == all.len(),
        decreases rest@.len(),
    {
        match next_word(rest) {
            Some((_word, after)) => {
                n = n + 1;
                rest = after;
            },
            None => break ,
        }
    }
    n
}

proof fn words_are_few(s: Seq<char>)
    ensures
        words(s).len() <= s.len(),
    decreases s.len(),
{
    if s.len() > 0 {
        if is_ascii_space(s[0]) {
            words_are_few(s.drop_first());
        } else {
            word_len_bound(s);
            words_are_few(s.skip(word_len(s) as int));
        }
    }
}

/// Finds the first `c` in a text.
pub fn find_char(s: &str, c: char) -> (r: usize)
    ensures
        r == position(s@, c),
        r <= s@.len(),
{
    let total: usize = s.unicode_len();
    let mut at: usize = 0;
    assert(s@.skip(0) == s@);
    while at < total && s.get_char(at) != c
        invariant
            total == s@.len(),
            at <= total,
            position(s@, c) == at + position(s@.skip(at as int), c),
        ensures
            at <= total,
            position(s@, c) == at,
        decreases total - at,
    {
        assert(s@.skip(at as int).drop_first() == s@.skip(at + 1));
        at = at + 1;
    }
    at
}

/// Reads an unsigned decimal number of at most `max`.
pub fn parse_unsigned(s: &str, max: u64) -> (r: Option<u64>)
    requires
        max >= 9,
    ensures
        r is Some <==> unsigned_value(s@, max as nat) is Some,
        r matches Some(value) ==> unsigned_value(s@, max as nat) == Some(value as nat),
{
    let total: usize = s.unicode_len();
    let start: usize = if total > 0 && s.get_char(0) == '+' {
        1
    } else {
        0
    };
    let ghost digits = s@.skip(start as int);
    proof {
        if start == 1 {
            assert(digits == s@.drop_first());
        } else {
            assert(digits == s@);
        }
    }
    if start == total {
        return None;
    }
    let mut value: u64 = 0;
    let mut at: usize = start;
    assert(digits.take(0) == Seq::<char>::empty());
    while at < total
        invariant
            start <= at <= total,
            total == s@.len(),
            digits == s@.skip(start as int),
            digits == without_plus(s@),
            max >= 9,
            value <= max,
            value == digits_value(digits.take(at - start)),
            forall|i: int| 0 <= i < at - start ==> is_digit(#[trigger] digits[i]),
        decreases total - at,
    {
        let c = s.get_char(at);
        let ghost n = at - start;
        assert(digits[n] == c);
        if c < '0' || c > '9' {
            assert(!is_digit(digits[n]));
            return None;
        }
        let digit: u64 = c as u64 - 0x30;
        proof {
            assert(digits.take(n + 1).drop_last() == digits.take(n));
            assert(digits_value(digits.take(n + 1)) == 10 * value + digit);
        }
        if value > (max - digit) / 10 {
            proof {
                digits_value_grows(digits, n + 1);
            }
            return None;
        }
        value = value * 10 + digit;
        at = at + 1;
    }
    assert(digits.take(total - start) == digits);
    Some(value)
}

/// Reads a byte in hexadecimal form.
pub fn parse_hex_byte(s: &str) -> (r: Option<u8>)
    ensures
        r == hex_byte_value(s@),
{
    let total: usize = s.unicode_len();
    let start: usize = if total > 0 && s.get_char(0) == '+' {
        1
    } else {
        0
    };
    let ghost digits = s@.skip(start as int);
    proof {
        if start == 1 {
            assert(digits == s@.drop_first());
        } else {
            assert(digits == s@);
        }
    }
    if start == total {
        return None;
    }
    let mut value: u32 = 0;
    let mut at: usize = start;
    assert(digits.take(0) == Seq::<char>::empty());
    while at < total
        invariant
            start <= at <= total,
            total == s@.len(),
            digits == s@.skip(start as int),
            digits == without_plus(s@),
            value <= 255,
            value == hex_digits_value(digits.take(at - start)),
            forall|i: int| 0 <= i < at - start ==> is_hex_digit(#[trigger] digits[i]),
        decreases total - at,
    {
        let c = s.get_char(at);
        let ghost n = at - start;
        assert(digits[n] == c);
        let digit: u32 = if '0' <= c && c <= '9' {
            c as u32 - 0x30
        } else if 'a' <= c && c <= 'f' {
            c as u32 - 0x57
        } else if 'A' <= c && c <= 'F' {
            c as u32 - 0x37
        } else {
            assert(!is_hex_digit(digits[n]));
            return None;
        };
        proof {
            assert(digits.take(n + 1).drop_last() == digits.take(n));
            assert(hex_digits_value(digits.take(n + 1)) == 16 * value + digit);
        }
        value = value * 16 + digit;
        if value > 255 {
            proof {
                hex_digits_value_grows(digits, n + 1);
            }
            return None;
        }
        at = at + 1;
    }
    assert(digits.take(total - start) == digits);
    Some(value as u8)
}

/// A number may have a plus sign or zeros in front of it and stays the same. Without digits, or with
/// anything else in between, it is none.
pub proof fn numbers_are_read_strictly(digits: Seq<char>, max: nat, at: int)
    requires
        digits.len() > 0,
        digits[0] != '+',
    ensures
        unsigned_value(Seq::empty(), max) is None,
        unsigned_value(seq!['+'], max) is None,
        unsigned_value(seq!['+'] + digits, max) == unsigned_value(digits, max),
        unsigned_value(seq!['0'] + digits, max) == unsigned_value(digits, max),
        0 <= at < digits.len() && !('0' <= digits[at] <= '9') ==> unsigned_value(digits, max)
            is None,
        unsigned_value(digits, max) matches Some(value) ==> value <= max,
{
    assert((seq!['+'] + digits).drop_first() =~= digits);
    assert(seq!['+'].drop_first() =~= Seq::<char>::empty());
    let padded = seq!['0'] + digits;
    leading_zero_counts_nothing(digits);
    assert(padded[0] == '0');
    if all_digits(digits) {
        assert(all_digits(padded));
    }
    if all_digits(padded) {
        assert forall|i: int| 0 <= i < digits.len() implies is_digit(#[trigger] digits[i]) by {
            assert(digits[i] == padded[i + 1]);
        }
    }
}

proof fn leading_zero_counts_nothing(digits: Seq<char>)
    ensures
        digits_value(seq!['0'] + digits) == digits_value(digits),
    decreases digits.len(),
{
    let padded = seq!['0'] + digits;
    if digits.len() == 0 {
        assert(padded.drop_last() =~= Seq::<char>::empty());
        reveal_with_fuel(digits_value, 2);
    } else {
        assert(padded.drop_last() =~= seq!['0'] + digits.drop_last());
        leading_zero_counts_nothing(digits.drop_last());
    }
}

/// A hexadecimal byte reads the same in capital letters.
pub proof fn hex_digits_have_both_cases(high: nat, low: nat)
    requires
        high < 16,
        low < 16,
    ensures
        forall|a: char, b: char|
            is_hex_digit(a) && is_hex_digit(b) && hex_digit_value(a) == high && hex_digit_value(b)
                == low ==> hex_byte_value(#[trigger] seq![a, b]) == Some((16 * high + low) as u8),
        hex_digit_value('a') == 10 && hex_digit_value('A') == 10,
        hex_digit_value('f') == 15 && hex_digit_value('F') == 15,
        hex_digit_value('0') == 0 && hex_digit_value('9') == 9,
        !is_hex_digit('g') && !is_hex_digit('G'),
{
    assert forall|a: char, b: char|
        is_hex_digit(a) && is_hex_digit(b) && hex_digit_value(a) == high && hex_digit_value(b)
            == low implies hex_byte_value(#[trigger] seq![a, b]) == Some(
        (16 * high + low) as u8,
    ) by {
        let text = seq![a, b];
        reveal_with_fuel(hex_digits_value, 3);
        assert(text.drop_last() =~= seq![a]);
        assert(text.drop_last().drop_last() =~= Seq::<char>::empty());
        assert(text.last() == b);
        assert(text.drop_last().last() == a);
        assert(text[0] == a);
    }
}

/// Around a command, carriage returns, line feeds, spaces and tabs are trimmed off and no other
/// characters are. They, and form feeds, also separate the words of a line.
pub proof fn blanks_are_few(c: char)
    ensures
        trims(TrimSet::LineEnds, c) <==> c == '\r' || c == '\n' || c == ' ' || c == '\t',
        is_ascii_space(c) <==> trims(TrimSet::LineEnds, c) || c == '\u{c}',
        is_ascii_space(c) ==> trims(TrimSet::WhiteSpace, c),
        '!' <= c <= '~' ==> !trims(TrimSet::WhiteSpace, c),
{
}

} // verus!
