use vstd::prelude::*;
use vstd::string::*;

verus! {

/// Text of the error for a token that names no declared flag.
pub open spec fn unrecognized_message(token: Seq<char>) -> Seq<char> {
    token + " is not a valid Argument!"@
}

/// Text of the error for a flag whose value is missing.
pub open spec fn missing_value_message(token: Seq<char>) -> Seq<char> {
    "Did not provide a value for "@ + token
}

/// Why parsing failed, in words.
#[derive(Debug)]
pub struct ParserError {
    details: String,
}

impl ParserError {
    /// The error's text.
    pub closed spec fn spec_details(&self) -> Seq<char> {
        self.details@
    }

    pub fn new(details: &str) -> (r: Self)
        ensures
            r.spec_details() == details@,
    {
        ParserError { details: details.to_owned() }
    }

    /// The error for a token that names no declared flag.
    pub fn unrecognized(token: &str) -> (r: Self)
        ensures
            r.spec_details() == unrecognized_message(token@),
    {
        let details = String::from_str(token).concat(" is not a valid Argument!");
        ParserError { details }
    }

    /// The error for a flag that needs a value and has none.
    pub fn missing_value(token: &str) -> (r: Self)
        ensures
            r.spec_details() == missing_value_message(token@),
    {
        let details = String::from_str("Did not provide a value for ").concat(token);
        ParserError { details }
    }

    /// The error as shown to a user.
    pub fn message(&self) -> (r: String)
        ensures
            r@ == "Failed to parse: "@ + self.spec_details(),
    {
        String::from_str("Failed to parse: ").concat(self.details.as_str())
    }

    /// The error's text.
    pub fn details(&self) -> (r: &str)
        ensures
            r@ == self.spec_details(),
    {
        self.details.as_str()
    }
}

} // verus!
