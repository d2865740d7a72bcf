//! The text of a report: one line, made of decimal numbers and fixed words.

use crate::decibels::Decibels;
use crate::format::SampleEncoding;
use vstd::prelude::*;
use vstd::string::StrSliceExecFns;
use vstd::string::StringExecFns;

verus! {

/// The character of a decimal digit.
pub open spec fn digit_char(digit: int) -> char {
    if digit == 0 {
        '0'
    } else if digit == 1 {
        '1'
    } else if digit == 2 {
        '2'
    } else if digit == 3 {
        '3'
    } else if digit == 4 {
        '4'
    } else if digit == 5 {
        '5'
    } else if digit == 6 {
        '6'
    } else if digit == 7 {
        '7'
    } else if digit == 8 {
        '8'
    } else {
        '9'
    }
}

/// A number in decimal, without leading zeros.
pub open spec fn decimal(n: nat) -> Seq<char>
    decreases n,
{
    if n < 10 {
        seq![digit_char(n as int)]
    } else {
        decimal(n / 10).push(digit_char((n % 10) as int))
    }
}

/// `count` blanks, and none for a count below zero.
pub open spec fn blanks(count: int) -> Seq<char> {
    Seq::new(
        if count > 0 {
            count as nat
        } else {
            0
        },
        |i: int| ' ',
    )
}

/// `text` moved to the right end of a field of `width` characters. A text
/// that is longer than the field is left as it is.
pub open spec fn pad_left(text: Seq<char>, width: int) -> Seq<char> {
    blanks(width - text.len()) + text
}

/// A count of thousandths written with three decimals: `23220` is `23.220`.
pub open spec fn thousandths(n: nat) -> Seq<char> {
    decimal(n / 1000).push('.').push(digit_char((n / 100 % 10) as int)).push(
        digit_char((n / 10 % 10) as int),
    ).push(digit_char((n % 10) as int))
}

/// Thousandths rounded to tenths, halves away from zero.
pub open spec fn round_to_tenths(millis: int) -> int {
    if millis >= 0 {
        (millis + 50) / 100
    } else {
        -((50 - millis) / 100)
    }
}

/// A level written with its sign and one decimal: `-96329` is `-96.3`,
/// `0` is `+0.0`.
pub open spec fn signed_tenths(millis: int) -> Seq<char> {
    let tenths = round_to_tenths(millis);
    if tenths < 0 {
        seq!['-'] + decimal((-tenths / 10) as nat).push('.').push(digit_char(-tenths % 10))
    } else {
        seq!['+'] + decimal((tenths / 10) as nat).push('.').push(digit_char(tenths % 10))
    }
}

/// The head of a report line: frames, encoding, channels and duration.
pub open spec fn header_text(
    sample_count: nat,
    encoding: SampleEncoding,
    channel_count: nat,
    duration_micros: nat,
) -> Seq<char> {
    "input buffer: "@ + pad_left(decimal(sample_count), 6) + " "@ + encoding.label()
        + " samples * "@ + decimal(channel_count) + " channel(s), "@ + pad_left(
        thousandths(duration_micros),
        7,
    ) + " ms"@
}

/// The part of a report line for one channel: its index, bar and level.
pub open spec fn channel_text(index: nat, bar: Seq<char>, level: Decibels) -> Seq<char> {
    ", channel "@ + decimal(index) + ": ["@ + bar + "] "@ + pad_left(
        signed_tenths(level.millis as int),
        5,
    ) + " dBov"@
}

/// Whether `text` stays on one line.
pub open spec fn single_line(text: Seq<char>) -> bool {
    forall|i: int| 0 <= i < text.len() ==> text[i] != '\n'
}

/// A decimal number has a digit, and stays on one line.
pub proof fn lemma_decimal(n: nat)
    ensures
        decimal(n).len() >= 1,
        single_line(decimal(n)),
    decreases n,
{
    if n >= 10 {
        lemma_decimal(n / 10);
    }
}

/// Padding adds blanks only.
pub proof fn lemma_pad_left(text: Seq<char>, width: int)
    requires
        single_line(text),
    ensures
        single_line(pad_left(text, width)),
        pad_left(text, width).len() >= width,
        pad_left(text, width).len() >= text.len(),
        text.len() >= width ==> pad_left(text, width) == text,
{
    if text.len() >= width {
    }
}

/// A number with three decimals stays on one line.
pub proof fn lemma_thousandths(n: nat)
    ensures
        single_line(thousandths(n)),
{
    lemma_decimal(n / 1000);
}

/// A signed level stays on one line.
pub proof fn lemma_signed_tenths(millis: int)
    ensures
        single_line(signed_tenths(millis)),
{
    let tenths = round_to_tenths(millis);
    if tenths < 0 {
        lemma_decimal((-tenths / 10) as nat);
    } else {
        lemma_decimal((tenths / 10) as nat);
    }
}

/// The head of a report line stays on one line.
pub proof fn lemma_header_text(
    sample_count: nat,
    encoding: SampleEncoding,
    channel_count: nat,
    duration_micros: nat,
)
    ensures
        single_line(header_text(sample_count, encoding, channel_count, duration_micros)),
{
    reveal_strlit("input buffer: ");
    reveal_strlit(" ");
    reveal_strlit(" samples * ");
    reveal_strlit(" channel(s), ");
    reveal_strlit(" ms");
    lemma_decimal(sample_count);
    lemma_decimal(channel_count);
    lemma_thousandths(duration_micros);
    lemma_pad_left(decimal(sample_count), 6);
    lemma_pad_left(thousandths(duration_micros), 7);
}

/// The part of a report line for one channel stays on one line if its bar
/// does.
pub proof fn lemma_channel_text(index: nat, bar: Seq<char>, level: Decibels)
    requires
        single_line(bar),
    ensures
        single_line(channel_text(index, bar, level)),
{
    reveal_strlit(", channel ");
    reveal_strlit(": [");
    reveal_strlit("] ");
    reveal_strlit(" dBov");
    lemma_decimal(index);
    lemma_signed_tenths(level.millis as int);
    lemma_pad_left(signed_tenths(level.millis as int), 5);
}

/// The one-character text of a decimal digit.
pub fn digit_text(digit: u8) -> (text: &'static str)
    requires
        digit < 10,
    ensures
        text@ == seq![digit_char(digit as int)],
{
    proof {
        reveal_strlit("0");
        reveal_strlit("1");
        reveal_strlit("2");
        reveal_strlit("3");
        reveal_strlit("4");
        reveal_strlit("5");
        reveal_strlit("6");
        reveal_strlit("7");
        reveal_strlit("8");
        reveal_strlit("9");
    }
    let text = if digit == 0 {
        "0"
    } else if digit == 1 {
        "1"
    } else if digit == 2 {
        "2"
    } else if digit == 3 {
        "3"
    } else if digit == 4 {
        "4"
    } else if digit == 5 {
        "5"
    } else if digit == 6 {
        "6"
    } else if digit == 7 {
        "7"
    } else if digit == 8 {
        "8"
    } else {
        "9"
    };
    text
}

/// Writes `n` in decimal at the end of `text`.
pub fn append_decimal(text: &mut String, n: u128)
    ensures
        final(text)@ == old(text)@ + decimal(n as nat),
    decreases n,
{
    if n >= 10 {
        append_decimal(text, n / 10);
    }
    text.append(digit_text((n % 10) as u8));
}

/// Writes `n` in decimal.
pub fn decimal_text(n: u128) -> (text: String)
    ensures
        text@ == decimal(n as nat),
{
    let mut text = String::new();
    append_decimal(&mut text, n);
    text
}

/// Writes `piece` at the end of `text`, moved to the right end of a field
/// of `width` characters.
pub fn append_padded(text: &mut String, piece: &str, width: usize)
    ensures
        final(text)@ == old(text)@ + pad_left(piece@, width as int),
{
    let len: usize = piece.unicode_len();
    let mut filled: usize = len;
    proof {
        reveal_strlit(" ");
    }
    while filled < width
        invariant
            len == piece@.len(),
            len <= filled,
            filled <= width || filled == len,
            text@ == old(text)@ + blanks(filled - len),
            " "@ == seq![' '],
        decreases width - filled,
    {
        text.append(" ");
        filled += 1;
    }
    text.append(piece);
    assert(text@ =~= old(text)@ + pad_left(piece@, width as int)) by {
        if len >= width {
        }
    }
}

/// Writes a count of thousandths with three decimals.
pub fn thousandths_text(n: u128) -> (text: String)
    ensures
        text@ == thousandths(n as nat),
{
    let mut text = decimal_text(n / 1000);
    text.append(".");
    text.append(digit_text((n / 100 % 10) as u8));
    text.append(digit_text((n / 10 % 10) as u8));
    text.append(digit_text((n % 10) as u8));
    proof {
        reveal_strlit(".");
    }
    text
}

/// Writes a level with its sign and one decimal.
pub fn signed_tenths_text(level: Decibels) -> (text: String)
    ensures
        text@ == signed_tenths(level.millis as int),
{
    let millis: i64 = level.millis as i64;
    let mut text = String::new();
    let magnitude: i64;
    if millis >= 0 {
        magnitude = (millis + 50) / 100;
        text.append("+");
    } else {
        magnitude = (50 - millis) / 100;
        if magnitude > 0 {
            text.append("-");
        } else {
            text.append("+");
        }
    }
    append_decimal(&mut text, (magnitude / 10) as u128);
    text.append(".");
    text.append(digit_text((magnitude % 10) as u8));
    proof {
        reveal_strlit("+");
        reveal_strlit("-");
        reveal_strlit(".");
    }
    text
}

/// Writes the head of a report line.
pub fn header_line(
    sample_count: usize,
    encoding: SampleEncoding,
    channel_count: usize,
    duration_micros: u128,
) -> (text: String)
    ensures
        text@ == header_text(
            sample_count as nat,
            encoding,
            channel_count as nat,
            duration_micros as nat,
        ),
{
    let mut text = String::new();
    text.append("input buffer: ");
    let frames = decimal_text(sample_count as u128);
    append_padded(&mut text, frames.as_str(), 6);
    text.append(" ");
    text.append(encoding.name());
    text.append(" samples * ");
    append_decimal(&mut text, channel_count as u128);
    text.append(" channel(s), ");
    let duration = thousandths_text(duration_micros);
    append_padded(&mut text, duration.as_str(), 7);
    text.append(" ms");
    assert(text@ =~= header_text(
        sample_count as nat,
        encoding,
        channel_count as nat,
        duration_micros as nat,
    ));
    text
}

/// Writes the part of a report line for one channel at the end of `text`.
pub fn append_channel(text: &mut String, index: usize, bar: &str, level: Decibels)
    ensures
        final(text)@ == old(text)@ + channel_text(index as nat, bar@, level),
{
    text.append(", channel ");
    append_decimal(text, index as u128);
    text.append(": [");
    text.append(bar);
    text.append("] ");
    let number = signed_tenths_text(level);
    append_padded(text, number.as_str(), 5);
    text.append(" dBov");
}

} // verus!
