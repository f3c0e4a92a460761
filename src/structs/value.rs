use vstd::prelude::*;

use super::error::ParseError;

verus! {

/// Every character of `s` is an ASCII digit, and there is at least one.
pub open spec fn is_digits(s: Seq<char>) -> bool {
    s.len() > 0 && forall|i: int| 0 <= i < s.len() ==> ('0' as int) <= (#[trigger] s[i] as int) <= ('9'
        as int)
}

/// The number that a string of decimal digits writes.
pub open spec fn digits_value(s: Seq<char>) -> int
    decreases s.len(),
{
    if s.len() == 0 {
        0
    } else {
        10 * digits_value(s.drop_last()) + (s.last() as int - '0' as int)
    }
}

/// The integer that `s` writes in decimal, with an optional leading `+` or
/// `-`, if it writes one.
pub open spec fn decimal_value(s: Seq<char>) -> Option<int> {
    if s.len() > 0 && s[0] == '-' && is_digits(s.drop_first()) {
        Some(-digits_value(s.drop_first()))
    } else if s.len() > 0 && s[0] == '+' && is_digits(s.drop_first()) {
        Some(digits_value(s.drop_first()))
    } else if is_digits(s) {
        Some(digits_value(s))
    } else {
        None
    }
}

/// The `i32` that `s` writes in decimal, if it writes one in range.
pub open spec fn i32_of(s: Seq<char>) -> Option<i32> {
    match decimal_value(s) {
        Some(v) => if i32::MIN <= v <= i32::MAX {
            Some(v as i32)
        } else {
            None
        },
        None => None,
    }
}

/// The `bool` that `s` spells, if it is `true` or `false`.
pub open spec fn bool_of(s: Seq<char>) -> Option<bool> {
    if s == "true"@ {
        Some(true)
    } else if s == "false"@ {
        Some(false)
    } else {
        None
    }
}

/// The reason in words that std gives for not reading `s` as an `i32`.
pub uninterp spec fn int_error_text(s: Seq<char>) -> Seq<char>;

/// The reason in words that std gives for not reading `s` as a `bool`.
pub uninterp spec fn bool_error_text(s: Seq<char>) -> Seq<char>;

/// Relies on `str::parse::<i32>` (`i32::from_str`): an optional sign then
/// decimal digits, in range, give the number; anything else gives an error,
/// whose text (`ParseIntError`'s `Display`) depends on the input alone.
#[verifier::external_body]
fn parse_i32(s: &str) -> (r: Result<i32, String>)
    ensures
        match r {
            Ok(n) => i32_of(s@) == Some(n),
            Err(e) => i32_of(s@) is None && e@ == int_error_text(s@),
        },
{
    s.parse::<i32>().map_err(|e| e.to_string())
}

/// Relies on `str::parse::<bool>` (`bool::from_str`): exactly `true` or
/// `false`; anything else gives an error, whose text (`ParseBoolError`'s
/// `Display`) depends on the input alone.
#[verifier::external_body]
fn parse_bool(s: &str) -> (r: Result<bool, String>)
    ensures
        match r {
            Ok(b) => bool_of(s@) == Some(b),
            Err(e) => bool_of(s@) is None && e@ == bool_error_text(s@),
        },
{
    s.parse::<bool>().map_err(|e| e.to_string())
}

/// A value read from the command line, typed as its argument declares.
#[derive(Debug, PartialEq)]
pub enum ParsedValue {
    Empty,
    Number(i32),
    Boolean(bool),
    String(String),
}

/// The type each argument's value is declared with; the optional kinds give
/// no value instead of an error when the text does not fit.
#[derive(Debug, PartialEq)]
pub enum DefinedValue {
    Empty,
    Number,
    Boolean,
    String,
    OptionalNumber,
    OptionalBoolean,
    OptionalString,
}

impl ParsedValue {
    /// Reads `string` as the type `defined` names.
    pub fn try_parse(defined: DefinedValue, string: String) -> (r: Result<Self, ParseError>)
        ensures
            match defined {
                DefinedValue::Empty => r == Ok::<ParsedValue, ParseError>(ParsedValue::Empty),
                DefinedValue::Number => match i32_of(string@) {
                    Some(n) => r == Ok::<ParsedValue, ParseError>(ParsedValue::Number(n)),
                    None => r matches Err(ParseError::ParseNumberError(m)) && m@ == int_error_text(
                        string@,
                    ),
                },
                DefinedValue::Boolean => match bool_of(string@) {
                    Some(b) => r == Ok::<ParsedValue, ParseError>(ParsedValue::Boolean(b)),
                    None => r matches Err(ParseError::ParseBooleanError(m)) && m@
                        == bool_error_text(string@),
                },
                DefinedValue::String => if string@.len() == 0 {
                    r matches Err(ParseError::ParseStringError(m)) && m@ == "Empty String"@
                } else {
                    r == Ok::<ParsedValue, ParseError>(ParsedValue::String(string))
                },
                DefinedValue::OptionalNumber => match i32_of(string@) {
                    Some(n) => r == Ok::<ParsedValue, ParseError>(ParsedValue::Number(n)),
                    None => r == Ok::<ParsedValue, ParseError>(ParsedValue::Empty),
                },
                DefinedValue::OptionalBoolean => match bool_of(string@) {
                    Some(b) => r == Ok::<ParsedValue, ParseError>(ParsedValue::Boolean(b)),
                    None => r == Ok::<ParsedValue, ParseError>(ParsedValue::Empty),
                },
                DefinedValue::OptionalString => if string@.len() == 0 {
                    r == Ok::<ParsedValue, ParseError>(ParsedValue::Empty)
                } else {
                    r == Ok::<ParsedValue, ParseError>(ParsedValue::String(string))
                },
            },
    {
        match defined {
            DefinedValue::Empty => Ok(ParsedValue::Empty),
            DefinedValue::Number => match parse_i32(string.as_str()) {
                Ok(n) => Ok(ParsedValue::Number(n)),
                Err(e) => Err(ParseError::ParseNumberError(e)),
            },
            DefinedValue::Boolean => match parse_bool(string.as_str()) {
                Ok(b) => Ok(ParsedValue::Boolean(b)),
                Err(e) => Err(ParseError::ParseBooleanError(e)),
            },
            DefinedValue::String => if string.as_str().is_empty() {
                Err(ParseError::ParseStringError("Empty String".to_owned()))
            } else {
                Ok(ParsedValue::String(string))
            },
            DefinedValue::OptionalNumber => match parse_i32(string.as_str()) {
                Ok(n) => Ok(ParsedValue::Number(n)),
                Err(_) => Ok(ParsedValue::Empty),
            },
            DefinedValue::OptionalBoolean => match parse_bool(string.as_str()) {
                Ok(b) => Ok(ParsedValue::Boolean(b)),
                Err(_) => Ok(ParsedValue::Empty),
            },
            DefinedValue::OptionalString => if string.as_str().is_empty() {
                Ok(ParsedValue::Empty)
            } else {
                Ok(ParsedValue::String(string))
            },
        }
    }
}

} // verus!
