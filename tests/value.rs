use cali::structs::error::ParseError;
use cali::structs::value::{DefinedValue, ParsedValue};

#[test]
fn defined_none_ignores_input() {
    assert_eq!(ParsedValue::try_parse(DefinedValue::Empty, "abc".to_string()), Ok(ParsedValue::Empty));
}

#[test]
fn number_parses() {
    assert_eq!(ParsedValue::try_parse(DefinedValue::Number, "42".to_string()), Ok(ParsedValue::Number(42)));
    assert_eq!(ParsedValue::try_parse(DefinedValue::Number, "-7".to_string()), Ok(ParsedValue::Number(-7)));
    assert_eq!(ParsedValue::try_parse(DefinedValue::Number, "+5".to_string()), Ok(ParsedValue::Number(5)));
    assert_eq!(
        ParsedValue::try_parse(DefinedValue::Number, "-2147483648".to_string()),
        Ok(ParsedValue::Number(i32::MIN))
    );
}

#[test]
fn number_error() {
    assert_eq!(
        ParsedValue::try_parse(DefinedValue::Number, "abc".to_string()),
        Err(ParseError::ParseNumberError("invalid digit found in string".to_string()))
    );
    assert!(matches!(
        ParsedValue::try_parse(DefinedValue::Number, "2147483648".to_string()),
        Err(ParseError::ParseNumberError(_))
    ));
}

#[test]
fn boolean_parses_and_fails() {
    assert_eq!(ParsedValue::try_parse(DefinedValue::Boolean, "true".to_string()), Ok(ParsedValue::Boolean(true)));
    assert_eq!(ParsedValue::try_parse(DefinedValue::Boolean, "false".to_string()), Ok(ParsedValue::Boolean(false)));
    assert!(matches!(
        ParsedValue::try_parse(DefinedValue::Boolean, "yes".to_string()),
        Err(ParseError::ParseBooleanError(_))
    ));
}

#[test]
fn string_values() {
    assert_eq!(
        ParsedValue::try_parse(DefinedValue::String, "hi".to_string()),
        Ok(ParsedValue::String("hi".to_string()))
    );
    assert_eq!(
        ParsedValue::try_parse(DefinedValue::String, String::new()),
        Err(ParseError::ParseStringError("Empty String".to_string()))
    );
}

#[test]
fn optional_kinds_fall_back_to_empty() {
    assert_eq!(ParsedValue::try_parse(DefinedValue::OptionalNumber, "x".to_string()), Ok(ParsedValue::Empty));
    assert_eq!(ParsedValue::try_parse(DefinedValue::OptionalNumber, "12".to_string()), Ok(ParsedValue::Number(12)));
    assert_eq!(ParsedValue::try_parse(DefinedValue::OptionalBoolean, "x".to_string()), Ok(ParsedValue::Empty));
    assert_eq!(ParsedValue::try_parse(DefinedValue::OptionalBoolean, "true".to_string()), Ok(ParsedValue::Boolean(true)));
    assert_eq!(ParsedValue::try_parse(DefinedValue::OptionalString, String::new()), Ok(ParsedValue::Empty));
    assert_eq!(
        ParsedValue::try_parse(DefinedValue::OptionalString, "s".to_string()),
        Ok(ParsedValue::String("s".to_string()))
    );
}

#[test]
fn parse_error_messages() {
    assert_eq!(ParseError::ParseNumberError("bad".to_string()).message(), "Failed to parse integer: bad");
    assert_eq!(ParseError::ParseBooleanError("bad".to_string()).message(), "Failed to parse boolean: bad");
    assert_eq!(ParseError::ParseStringError("bad".to_string()).message(), "Failed to parse string: bad");
}
