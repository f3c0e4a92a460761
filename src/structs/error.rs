use vstd::prelude::*;
use vstd::string::*;

verus! {

/// Why a value could not be read as the type it was declared with; each
/// variant carries the reason in words.
#[derive(Debug, PartialEq)]
pub enum ParseError {
    ParseNumberError(String),
    ParseBooleanError(String),
    ParseStringError(String),
}

impl ParseError {
    /// The error in words, for display.
    pub fn message(&self) -> (r: String)
        ensures
            r@ == match self {
                ParseError::ParseNumberError(s) => "Failed to parse integer: "@ + s@,
                ParseError::ParseBooleanError(s) => "Failed to parse boolean: "@ + s@,
                ParseError::ParseStringError(s) => "Failed to parse string: "@ + s@,
            },
    {
        match self {
            ParseError::ParseNumberError(s) => String::from_str("Failed to parse integer: ").concat(s.as_str()),
            ParseError::ParseBooleanError(s) => String::from_str("Failed to parse boolean: ").concat(s.as_str()),
            ParseError::ParseStringError(s) => String::from_str("Failed to parse string: ").concat(s.as_str()),
        }
    }
}

} // verus!
