//! Text as UTF-16 code units.

use vstd::prelude::*;
use vstd::string::StringExecFns;

verus! {

/// The UTF-16 code units of one character: itself below 0x10000, a pair of
/// surrogates from there on.
pub open spec fn utf16_of_char(c: char) -> Seq<u16> {
    let v = c as u32;
    if v < 0x10000 {
        seq![v as u16]
    } else {
        seq![(0xD800 + (v - 0x10000) / 0x400) as u16, (0xDC00 + (v - 0x10000) % 0x400) as u16]
    }
}

/// The UTF-16 code units of a text.
pub open spec fn utf16(text: Seq<char>) -> Seq<u16>
    decreases text.len(),
{
    if text.len() == 0 {
        Seq::empty()
    } else {
        utf16(text.drop_last()) + utf16_of_char(text.last())
    }
}

/// Code units as bytes, the high byte of each unit first.
pub open spec fn utf16_be_bytes(units: Seq<u16>) -> Seq<u8> {
    Seq::new(
        2 * units.len(),
        |i: int|
            if i % 2 == 0 {
                (units[i / 2] / 256) as u8
            } else {
                (units[i / 2] % 256) as u8
            },
    )
}

/// The text that a lossy decoding of `bytes` as UTF-8 gives.
pub uninterp spec fn utf8_lossy(bytes: Seq<u8>) -> Seq<char>;

/// Calls `String::from_utf8_lossy` and takes the text as a `String`. The
/// result is a function of the bytes alone, named `utf8_lossy`.
#[verifier::external_body]
pub(crate) fn string_from_utf8_lossy(bytes: &[u8]) -> (text: String)
    ensures
        text@ == utf8_lossy(bytes@),
{
    String::from_utf8_lossy(bytes).into_owned()
}

/// The text that a lossy decoding of `units` as UTF-16 gives.
pub uninterp spec fn utf16_lossy(units: Seq<u16>) -> Seq<char>;

/// Calls `String::from_utf16_lossy`. The result is a function of the units
/// alone, named `utf16_lossy`.
#[verifier::external_body]
pub(crate) fn string_from_utf16_lossy(units: &[u16]) -> (text: String)
    ensures
        text@ == utf16_lossy(units@),
{
    String::from_utf16_lossy(units)
}

/// Calls `str::encode_utf16` and collects what it yields. The standard
/// library documents the units as the text's UTF-16 encoding.
#[verifier::external_body]
pub(crate) fn encode_utf16(text: &str) -> (units: Vec<u16>)
    ensures
        units@ == utf16(text@),
{
    text.encode_utf16().collect()
}

/// The character for one digit, up to base sixteen, in upper case.
pub open spec fn digit_char(d: int) -> char {
    if d == 0 {
        '0'
    } else if d == 1 {
        '1'
    } else if d == 2 {
        '2'
    } else if d == 3 {
        '3'
    } else if d == 4 {
        '4'
    } else if d == 5 {
        '5'
    } else if d == 6 {
        '6'
    } else if d == 7 {
        '7'
    } else if d == 8 {
        '8'
    } else if d == 9 {
        '9'
    } else if d == 10 {
        'A'
    } else if d == 11 {
        'B'
    } else if d == 12 {
        'C'
    } else if d == 13 {
        'D'
    } else if d == 14 {
        'E'
    } else {
        'F'
    }
}

/// `value` as eight hexadecimal digits in upper case.
pub open spec fn hex8(value: u32) -> Seq<char> {
    let v = value as int;
    seq![
        digit_char(v / 0x1000_0000 % 16),
        digit_char(v / 0x100_0000 % 16),
        digit_char(v / 0x10_0000 % 16),
        digit_char(v / 0x1_0000 % 16),
        digit_char(v / 0x1000 % 16),
        digit_char(v / 0x100 % 16),
        digit_char(v / 0x10 % 16),
        digit_char(v % 16),
    ]
}

/// `value` in decimal digits, without leading zeros.
pub open spec fn decimal(value: nat) -> Seq<char>
    decreases value,
{
    if value < 10 {
        seq![digit_char(value as int)]
    } else {
        decimal(value / 10).push(digit_char((value % 10) as int))
    }
}

/// `value` in decimal digits, with leading zeros up to four digits.
pub open spec fn decimal4(value: nat) -> Seq<char> {
    if value < 10000 {
        seq![
            digit_char((value / 1000) as int),
            digit_char((value / 100 % 10) as int),
            digit_char((value / 10 % 10) as int),
            digit_char((value % 10) as int),
        ]
    } else {
        decimal(value)
    }
}

/// `bytes` in hexadecimal digits in upper case, two for each byte, the high
/// one first.
pub open spec fn hex_of(bytes: Seq<u8>) -> Seq<char> {
    Seq::new(
        2 * bytes.len(),
        |i: int|
            if i % 2 == 0 {
                digit_char(bytes[i / 2] as int / 16)
            } else {
                digit_char(bytes[i / 2] as int % 16)
            },
    )
}

/// Calls `hex::encode_upper`, which gives for each byte the digit of its
/// high half and the digit of its low half, from `0123456789ABCDEF`.
#[verifier::external_body]
pub(crate) fn hex_upper(bytes: &[u8]) -> (text: String)
    ensures
        text@ == hex_of(bytes@),
{
    hex::encode_upper(bytes)
}

/// The text of one digit.
pub fn digit_str(d: u8) -> (text: &'static str)
    requires
        d < 16,
    ensures
        text@ == seq![digit_char(d as int)],
{
    proof {
        reveal_strlit("0");
        reveal_strlit("1");
        reveal_strlit("2");
        reveal_strlit("3");
        reveal_strlit("4");
        reveal_strlit("5");
        reveal_strlit("6");
        reveal_strlit("7");
        reveal_strlit("8");
        reveal_strlit("9");
        reveal_strlit("A");
        reveal_strlit("B");
        reveal_strlit("C");
        reveal_strlit("D");
        reveal_strlit("E");
        reveal_strlit("F");
    }
    let text: &'static str = match d {
        0 => "0",
        1 => "1",
        2 => "2",
        3 => "3",
        4 => "4",
        5 => "5",
        6 => "6",
        7 => "7",
        8 => "8",
        9 => "9",
        10 => "A",
        11 => "B",
        12 => "C",
        13 => "D",
        14 => "E",
        _ => "F",
    };
    assert(text@ =~= seq![digit_char(d as int)]);
    text
}

/// `value` as eight hexadecimal digits in upper case.
pub fn format_hex8(value: u32) -> (text: String)
    ensures
        text@ == hex8(value),
{
    let mut text = String::new();
    text.append(digit_str((value / 0x1000_0000 % 16) as u8));
    text.append(digit_str((value / 0x100_0000 % 16) as u8));
    text.append(digit_str((value / 0x10_0000 % 16) as u8));
    text.append(digit_str((value / 0x1_0000 % 16) as u8));
    text.append(digit_str((value / 0x1000 % 16) as u8));
    text.append(digit_str((value / 0x100 % 16) as u8));
    text.append(digit_str((value / 0x10 % 16) as u8));
    text.append(digit_str((value % 16) as u8));
    assert(text@ =~= hex8(value));
    text
}

/// Appends to `text` the decimal digits of `value`, without leading zeros.
pub fn append_decimal(text: &mut String, value: u64)
    ensures
        final(text)@ == old(text)@ + decimal(value as nat),
    decreases value,
{
    if value >= 10 {
        append_decimal(text, value / 10);
    }
    text.append(digit_str((value % 10) as u8));
    assert(text@ =~= old(text)@ + decimal(value as nat));
}

/// Appends to `text` the decimal digits of `value`, with leading zeros up
/// to four digits.
pub fn append_decimal4(text: &mut String, value: u64)
    ensures
        final(text)@ == old(text)@ + decimal4(value as nat),
{
    if value < 10000 {
        text.append(digit_str((value / 1000) as u8));
        text.append(digit_str((value / 100 % 10) as u8));
        text.append(digit_str((value / 10 % 10) as u8));
        text.append(digit_str((value % 10) as u8));
        assert(text@ =~= old(text)@ + decimal4(value as nat));
    } else {
        append_decimal(text, value);
    }
}

} // verus!
