//! Text handling from the standard library that the protocol relies on:
//! trimming, hex and decimal parsing, splitting an address, lossy UTF-8.
use vstd::prelude::*;
use vstd::utf8::{decode_utf8, valid_utf8};
use std::num::ParseIntError;
use vstd::string::StringSliceAdditionalSpecFns;

verus! {

/// Whether `c` has the Unicode `White_Space` property, which `char::is_whitespace`
/// and `str::trim` test.
pub open spec fn is_unicode_whitespace(c: char) -> bool {
    let u = c as u32;
    ||| (0x9 <= u && u <= 0xd)
    ||| u == 0x20
    ||| u == 0x85
    ||| u == 0xa0
    ||| u == 0x1680
    ||| (0x2000 <= u && u <= 0x200a)
    ||| u == 0x2028
    ||| u == 0x2029
    ||| u == 0x202f
    ||| u == 0x205f
    ||| u == 0x3000
}

/// `s` without its leading whitespace.
pub open spec fn trim_start(s: Seq<char>) -> Seq<char>
    decreases s.len(),
{
    if s.len() > 0 && is_unicode_whitespace(s[0]) {
        trim_start(s.drop_first())
    } else {
        s
    }
}

/// `s` without its trailing whitespace.
pub open spec fn trim_end(s: Seq<char>) -> Seq<char>
    decreases s.len(),
{
    if s.len() > 0 && is_unicode_whitespace(s.last()) {
        trim_end(s.drop_last())
    } else {
        s
    }
}

/// `s` without leading and trailing whitespace.
pub open spec fn trimmed(s: Seq<char>) -> Seq<char> {
    trim_end(trim_start(s))
}

/// `str::trim`. Trusted: the result is `s` without its leading and trailing
/// characters of the Unicode `White_Space` property, as std documents.
#[verifier::external_body]
pub(crate) fn trim_str(s: &str) -> (r: &str)
    ensures
        r@ == trimmed(s@),
{
    s.trim()
}

/// The value of a hex digit character (`0-9`, `a-f`, `A-F`), `None` for
/// any other character.
pub open spec fn hex_char_value(c: char) -> Option<u8> {
    let u = c as u32;
    if 0x30 <= u && u <= 0x39 {
        Some((u - 0x30) as u8)
    } else if 0x61 <= u && u <= 0x66 {
        Some((u - 0x61 + 10) as u8)
    } else if 0x41 <= u && u <= 0x46 {
        Some((u - 0x41 + 10) as u8)
    } else {
        None
    }
}

/// Whether a character is a hex digit.
pub open spec fn is_hex_char(c: char) -> bool {
    hex_char_value(c) is Some
}

/// `u8::from_str_radix(s, 16)` on a text of one character, or of two hex
/// digits. Trusted: as std documents, a lone character parses exactly when
/// it is a hex digit (a lone sign is an error), and two hex digits parse to
/// the byte they write.
#[verifier::external_body]
pub(crate) fn parse_hex_text(s: &str) -> (r: Result<u8, ParseIntError>)
    requires
        s@.len() == 1 || (s@.len() == 2 && is_hex_char(s@[0]) && is_hex_char(s@[1])),
    ensures
        s@.len() == 1 ==> match r {
            Ok(v) => hex_char_value(s@[0]) == Some(v),
            Err(_) => !is_hex_char(s@[0]),
        },
        s@.len() == 2 ==> r is Ok,
        r matches Ok(v) ==> (s@.len() == 2 ==> v == hex_char_value(s@[0]).unwrap() * 16
            + hex_char_value(s@[1]).unwrap()),
{
    u8::from_str_radix(s, 16)
}

/// The lower-case hex digit of a value below 16.
pub open spec fn lower_hex_digit(n: u32) -> char {
    if n < 10 {
        (0x30 + n) as char
    } else {
        (0x61 + n - 10) as char
    }
}

/// The decimal digits of a number, as ASCII bytes.
pub open spec fn decimal_text(n: nat) -> Seq<u8>
    decreases n,
{
    if n < 10 {
        seq![(0x30 + n) as u8]
    } else {
        decimal_text(n / 10).push((0x30 + n % 10) as u8)
    }
}

/// Whether every byte is an ASCII decimal digit.
pub open spec fn all_decimal_digits(b: Seq<u8>) -> bool {
    forall|i: int| 0 <= i < b.len() ==> 0x30 <= #[trigger] b[i] && b[i] <= 0x39
}

/// The number written by a string of decimal digits.
pub open spec fn decimal_value(b: Seq<u8>) -> nat
    decreases b.len(),
{
    if b.len() == 0 {
        0
    } else {
        decimal_value(b.drop_last()) * 10 + (b.last() - 0x30) as nat
    }
}

/// What `str::parse::<u16>` gives for a text: an optional `+` followed by
/// at least one decimal digit, with a value that fits in 16 bits.
pub open spec fn u16_text_value(b: Seq<u8>) -> Option<u16> {
    let digits = if b.len() >= 2 && b[0] == 0x2b {
        b.drop_first()
    } else {
        b
    };
    if digits.len() > 0 && all_decimal_digits(digits) && decimal_value(digits) <= 0xffff {
        Some(decimal_value(digits) as u16)
    } else {
        None
    }
}

/// `str::parse::<u16>`. Trusted: as std documents for `from_str_radix` with
/// radix 10, an optional `+` followed by digits whose value fits.
#[verifier::external_body]
pub(crate) fn parse_u16_decimal(s: &str) -> (r: Result<u16, ParseIntError>)
    ensures
        match r {
            Ok(v) => u16_text_value(s.spec_bytes()) == Some(v),
            Err(_) => u16_text_value(s.spec_bytes()) is None,
        },
{
    s.parse::<u16>()
}

/// The index of the last `:` in `s`, or -1 when there is none.
pub open spec fn last_colon(s: Seq<char>) -> int
    decreases s.len(),
{
    if s.len() == 0 {
        -1
    } else if s.last() == ':' {
        s.len() - 1
    } else {
        last_colon(s.drop_last())
    }
}

/// `str::rsplit_once(':')`. Trusted: `None` when `s` holds no `:`, else
/// the text before the last `:` and the text after it.
#[verifier::external_body]
pub(crate) fn split_at_last_colon(s: &str) -> (r: Option<(&str, &str)>)
    ensures
        r is None <==> last_colon(s@) < 0,
        r matches Some((before, after)) ==> before@ == s@.take(last_colon(s@)) && after@ == s@.skip(
            last_colon(s@) + 1,
        ),
{
    s.rsplit_once(':')
}

/// The text that `String::from_utf8_lossy` makes of a byte string.
pub uninterp spec fn utf8_lossy_text(bytes: Seq<u8>) -> Seq<char>;

/// `String::from_utf8_lossy`, made an owned `String`. Trusted: the text is
/// `utf8_lossy_text(bytes)`, and, as std documents, valid UTF-8 is decoded
/// unchanged.
#[verifier::external_body]
pub(crate) fn decode_utf8_lossy(bytes: &[u8]) -> (text: String)
    ensures
        text@ == utf8_lossy_text(bytes@),
        valid_utf8(bytes@) ==> text@ == decode_utf8(bytes@),
{
    String::from_utf8_lossy(bytes).into_owned()
}

} // verus!
