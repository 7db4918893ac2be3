//! Values and readings shared by the records of several tables.

use vstd::prelude::*;

verus! {

/// A real number of the feed (a latitude, a longitude, a distance), held as
/// the bit pattern of its IEEE 754 binary64 value. The records carry such a
/// number through and never compute with it.
#[derive(Debug, Clone, Copy, PartialEq, Eq)]
pub struct Decimal {
    pub bits: u64,
}

/// The error of the standard library's integer parsing, carried through as
/// it was given.
#[verifier::external_type_specification]
#[verifier::external_body]
pub struct ExParseIntError(core::num::ParseIntError);

/// Whether `c` is one of the digits `0` to `9`.
pub open spec fn is_digit(c: char) -> bool {
    '0' <= c <= '9'
}

/// The number that the decimal digits `digits` write.
pub open spec fn digits_value(digits: Seq<char>) -> nat
    decreases digits.len(),
{
    if digits.len() == 0 {
        0
    } else {
        digits_value(digits.drop_last()) * 10 + (digits.last() as u32 - '0' as u32) as nat
    }
}

/// The number that `text` writes as an unsigned decimal: an optional `+`
/// and then digits, at least one, and nothing else.
pub open spec fn unsigned_decimal(text: Seq<char>) -> Option<nat> {
    let digits = if text.len() > 0 && text[0] == '+' {
        text.skip(1)
    } else {
        text
    };
    if digits.len() > 0 && forall|i: int| 0 <= i < digits.len() ==> is_digit(#[trigger] digits[i]) {
        Some(digits_value(digits))
    } else {
        None
    }
}

/// The number that `text` writes as an unsigned decimal, where it writes one
/// that is no greater than `max`.
pub open spec fn decimal_within(text: Seq<char>, max: nat) -> Option<nat> {
    match unsigned_decimal(text) {
        Some(value) => if value <= max {
            Some(value)
        } else {
            None
        },
        None => None,
    }
}

/// Whether `text` is read as a `u8` as it is written: as the number that it
/// writes in decimal where that fits, and as no number otherwise.
pub open spec fn reads_u8(text: Seq<char>) -> bool {
    match u8_parsed(text) {
        Ok(value) => decimal_within(text, u8::MAX as nat) == Some(value as nat),
        Err(_) => decimal_within(text, u8::MAX as nat) is None,
    }
}

/// Whether `text` is read as a `u32` as it is written: as the number that it
/// writes in decimal where that fits, and as no number otherwise.
pub open spec fn reads_u32(text: Seq<char>) -> bool {
    match u32_parsed(text) {
        Ok(value) => decimal_within(text, u32::MAX as nat) == Some(value as nat),
        Err(_) => decimal_within(text, u32::MAX as nat) is None,
    }
}

/// Whether `text` is read as a `usize` as it is written: as the number that
/// it writes in decimal where that fits, and as no number otherwise.
pub open spec fn reads_usize(text: Seq<char>) -> bool {
    match usize_parsed(text) {
        Ok(value) => decimal_within(text, usize::MAX as nat) == Some(value as nat),
        Err(_) => decimal_within(text, usize::MAX as nat) is None,
    }
}

/// Whether the optional `text` is read as a `usize` as it is written, where
/// it is given.
pub open spec fn optional_reads_usize(text: Option<Seq<char>>) -> bool {
    match text {
        Some(t) => reads_usize(t),
        None => true,
    }
}

/// What `str::parse::<u8>` returns for `text`.
pub uninterp spec fn u8_parsed(text: Seq<char>) -> Result<u8, core::num::ParseIntError>;

/// What `str::parse::<u32>` returns for `text`.
pub uninterp spec fn u32_parsed(text: Seq<char>) -> Result<u32, core::num::ParseIntError>;

/// What `str::parse::<usize>` returns for `text`.
pub uninterp spec fn usize_parsed(text: Seq<char>) -> Result<usize, core::num::ParseIntError>;

/// What a `ParseIntError` displays as.
pub uninterp spec fn int_error_text(error: core::num::ParseIntError) -> Seq<char>;

/// `str::parse::<u8>`: the standard library reads `text` as a decimal
/// number. It succeeds exactly on an optional `+` followed by one or more
/// digits that write a number no greater than `u8::MAX`, and then gives that
/// number. Which error it gives otherwise is not stated here, only that the
/// same text gives the same error.
#[verifier::external_body]
pub(crate) fn parse_u8(text: &str) -> (parsed: Result<u8, core::num::ParseIntError>)
    ensures
        parsed == u8_parsed(text@),
        parsed matches Ok(value) ==> unsigned_decimal(text@) == Some(value as nat),
        parsed is Err ==> !(unsigned_decimal(text@) matches Some(value) && value <= u8::MAX),
{
    text.parse::<u8>()
}

/// `str::parse::<u32>`: the standard library reads `text` as a decimal
/// number. It succeeds exactly on an optional `+` followed by one or more
/// digits that write a number no greater than `u32::MAX`, and then gives
/// that number. Which error it gives otherwise is not stated here, only that
/// the same text gives the same error.
#[verifier::external_body]
pub(crate) fn parse_u32(text: &str) -> (parsed: Result<u32, core::num::ParseIntError>)
    ensures
        parsed == u32_parsed(text@),
        parsed matches Ok(value) ==> unsigned_decimal(text@) == Some(value as nat),
        parsed is Err ==> !(unsigned_decimal(text@) matches Some(value) && value <= u32::MAX),
{
    text.parse::<u32>()
}

/// `str::parse::<usize>`: the standard library reads `text` as a decimal
/// number. It succeeds exactly on an optional `+` followed by one or more
/// digits that write a number no greater than `usize::MAX`, and then gives
/// that number. Which error it gives otherwise is not stated here, only that
/// the same text gives the same error.
#[verifier::external_body]
pub(crate) fn parse_usize(text: &str) -> (parsed: Result<usize, core::num::ParseIntError>)
    ensures
        parsed == usize_parsed(text@),
        parsed matches Ok(value) ==> unsigned_decimal(text@) == Some(value as nat),
        parsed is Err ==> !(unsigned_decimal(text@) matches Some(value) && value <= usize::MAX),
{
    text.parse::<usize>()
}

/// `ToString::to_string` on a `ParseIntError`: the message that the error
/// displays as. Nothing is stated of the message but that the same error
/// gives the same one.
#[verifier::external_body]
pub(crate) fn describe_int_error(error: &core::num::ParseIntError) -> (message: String)
    ensures
        message@ == int_error_text(*error),
{
    error.to_string()
}

/// Reads a field that may be absent: nothing where no text is given, else
/// what `parse` makes of the text, or the fault that it finds.
pub fn parse_optional_field<T, E, F: Fn(&str) -> Result<T, E>>(field: Option<&str>, parse: F) -> (parsed:
    Result<Option<T>, E>)
    requires
        field matches Some(text) ==> call_requires(parse, (text,)),
    ensures
        match field {
            None => parsed matches Ok(None),
            Some(text) => match parsed {
                Ok(Some(value)) => call_ensures(parse, (text,), Ok(value)),
                Ok(None) => false,
                Err(fault) => call_ensures(parse, (text,), Err(fault)),
            },
        },
{
    match field {
        None => Ok(None),
        Some(text) => match parse(text) {
            Ok(value) => Ok(Some(value)),
            Err(fault) => Err(fault),
        },
    }
}

} // verus!
