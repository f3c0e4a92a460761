use cali::arguments::{ParsedArgument, RawArgument};
use cali::error::ParserError;
use cali::parser::Parser;

fn tokens(items: &[&str]) -> Vec<String> {
    items.iter().map(|s| s.to_string()).collect()
}

#[test]
fn run() {
    let mut parser = Parser::new();
    assert!(parser.parse(&tokens(&["prog"])).is_ok());
}

#[test]
fn empty_invocation_finds_nothing() {
    let mut parser = Parser::new().add_arg("h", "help", "Prints help", false, false);
    assert!(parser.parse(&Vec::new()).is_ok());
    assert!(parser.get_parsed_arguments().is_empty());
}

#[test]
fn round_trip_long_flag_with_value() {
    let mut parser = Parser::new().add_arg("t", "test", "A test Argument", true, false);
    assert!(parser.parse(&tokens(&["prog", "--test", "hello"])).is_ok());
    let parsed = parser.get_parsed_arguments();
    assert_eq!(parsed.len(), 1);
    assert_eq!(parsed[0].value, Some("hello".to_string()));
    assert_eq!(parsed[0].defined_argument.as_ref().unwrap().long, "test");
}

#[test]
fn switch_does_not_take_next_token() {
    let mut parser = Parser::new()
        .add_arg("v", "verbose", "Talk more", false, false)
        .add_arg("o", "output", "Output file", true, false);
    assert!(parser.parse(&tokens(&["prog", "-v", "-o", "out.txt"])).is_ok());
    let parsed = parser.get_parsed_arguments();
    assert_eq!(parsed.len(), 2);
    assert_eq!(parsed[0].value, None);
    assert_eq!(parsed[1].value, Some("out.txt".to_string()));
}

#[test]
fn switch_followed_by_bare_value_is_unrecognized() {
    let mut parser = Parser::new().add_arg("v", "verbose", "Talk more", false, false);
    let err = parser.parse(&tokens(&["prog", "-v", "stray"])).unwrap_err();
    assert_eq!(err.details(), "stray is not a valid Argument!");
    assert!(parser.get_parsed_arguments().is_empty());
}

#[test]
fn required_value_at_end_is_missing() {
    let mut parser = Parser::new().add_arg("t", "test", "A test Argument", true, false);
    let err = parser.parse(&tokens(&["prog", "--test"])).unwrap_err();
    assert_eq!(err.details(), "Did not provide a value for --test");
    assert!(parser.get_parsed_arguments().is_empty());
}

#[test]
fn required_value_before_flag_is_missing() {
    let mut parser = Parser::new()
        .add_arg("t", "test", "A test Argument", true, false)
        .add_arg("v", "verbose", "Talk more", false, false);
    let err = parser.parse(&tokens(&["prog", "-t", "-v"])).unwrap_err();
    assert_eq!(err.details(), "Did not provide a value for -t");
}

#[test]
fn optional_value_before_flag_is_left_out() {
    let mut parser = Parser::new()
        .add_arg("c", "color", "Colour output", true, true)
        .add_arg("v", "verbose", "Talk more", false, false);
    assert!(parser.parse(&tokens(&["prog", "--color", "-v"])).is_ok());
    let parsed = parser.get_parsed_arguments();
    assert_eq!(parsed.len(), 2);
    assert_eq!(parsed[0].value, None);
    assert!(parsed[0].long_matches("--color"));
    assert!(parsed[1].short_matches("-v"));
}

#[test]
fn optional_value_at_end_is_left_out() {
    let mut parser = Parser::new().add_arg("c", "color", "Colour output", true, true);
    assert!(parser.parse(&tokens(&["prog", "-c"])).is_ok());
    let parsed = parser.get_parsed_arguments();
    assert_eq!(parsed.len(), 1);
    assert_eq!(parsed[0].value, None);
}

#[test]
fn optional_value_taken_when_given() {
    let mut parser = Parser::new().add_arg("c", "color", "Colour output", true, true);
    assert!(parser.parse(&tokens(&["prog", "-c", "always"])).is_ok());
    let found = parser.get_parsed_argument_short("c").unwrap();
    assert_eq!(found.value, Some("always".to_string()));
}

#[test]
fn lookups_by_long_and_short_agree() {
    let mut parser = Parser::new()
        .add_arg("t", "test", "A test Argument", true, false)
        .add_arg("v", "verbose", "Talk more", false, false);
    assert!(parser.parse(&tokens(&["prog", "-v", "--test", "x", "-t", "y"])).is_ok());
    let by_long = parser.get_parsed_argument_long("test").unwrap();
    let by_short = parser.get_parsed_argument_short("t").unwrap();
    assert_eq!(by_long.value, Some("x".to_string()));
    assert_eq!(by_short.value, Some("x".to_string()));
    assert_eq!(
        by_long.defined_argument.unwrap().long,
        by_short.defined_argument.unwrap().long
    );
    assert!(parser.get_parsed_argument_long("missing").is_none());
}

#[test]
fn unrecognized_long_flag() {
    let mut parser = Parser::new().add_arg("t", "test", "A test Argument", true, false);
    let err = parser.parse(&tokens(&["prog", "--bogus"])).unwrap_err();
    assert_eq!(err.details(), "--bogus is not a valid Argument!");
    assert!(parser.get_parsed_arguments().is_empty());
}

#[test]
fn unrecognized_token_after_good_flags_adds_nothing() {
    let mut parser = Parser::new().add_arg("v", "verbose", "Talk more", false, false);
    let err = parser.parse(&tokens(&["prog", "-v", "-x"])).unwrap_err();
    assert_eq!(err.details(), "-x is not a valid Argument!");
    assert!(parser.get_parsed_arguments().is_empty());
}

#[test]
fn short_and_long_forms_are_equivalent() {
    let mut short = Parser::new().add_arg("v", "verbose", "Talk more", false, false);
    let mut long = Parser::new().add_arg("v", "verbose", "Talk more", false, false);
    assert!(short.parse(&tokens(&["prog", "-v"])).is_ok());
    assert!(long.parse(&tokens(&["prog", "--verbose"])).is_ok());
    let a = short.get_parsed_arguments();
    let b = long.get_parsed_arguments();
    assert_eq!(a.len(), 1);
    assert_eq!(b.len(), 1);
    let da = a[0].defined_argument.as_ref().unwrap();
    let db = b[0].defined_argument.as_ref().unwrap();
    assert_eq!(da.short, db.short);
    assert_eq!(da.long, db.long);
    assert_eq!(da.has_value, db.has_value);
}

#[test]
fn duplicate_flags_are_kept_in_order() {
    let mut parser = Parser::new().add_arg("n", "name", "A name", true, false);
    assert!(parser.parse(&tokens(&["prog", "-n", "a", "--name", "b"])).is_ok());
    let parsed = parser.get_parsed_arguments();
    assert_eq!(parsed.len(), 2);
    assert_eq!(parsed[0].value, Some("a".to_string()));
    assert_eq!(parsed[1].value, Some("b".to_string()));
    assert_eq!(parser.get_parsed_argument_long("--name").unwrap().value, Some("a".to_string()));
}

#[test]
fn repeated_parse_accumulates() {
    let mut parser = Parser::new().add_arg("v", "verbose", "Talk more", false, false);
    assert!(parser.parse(&tokens(&["prog", "-v"])).is_ok());
    assert!(parser.parse(&tokens(&["prog", "--verbose"])).is_ok());
    assert_eq!(parser.get_parsed_arguments().len(), 2);
}

#[test]
fn get_arguments_lists_definitions_in_order() {
    let parser = Parser::new()
        .add_arg("h", "help", "Prints this help prompt", false, false)
        .add_arg("t", "test", "None", true, false);
    let defs = parser.get_arguments();
    assert_eq!(defs.len(), 2);
    assert_eq!(defs[0].short, "h");
    assert_eq!(defs[0].description, "Prints this help prompt");
    assert_eq!(defs[1].long, "test");
    assert!(defs[1].has_value);
    assert!(!defs[1].is_optional);
}

#[test]
fn raw_argument_matching_strips_dashes() {
    let arg = RawArgument::new("v", "verbose", "Talk more", false, false);
    assert!(arg.long_matches("--verbose"));
    assert!(arg.long_matches("verbose"));
    assert!(arg.long_matches("----verbose"));
    assert!(!arg.long_matches("---verbose"));
    assert!(!arg.long_matches("--verb"));
    assert!(arg.short_matches("-v"));
    assert!(arg.short_matches("---v"));
    assert!(!arg.short_matches("-x"));
}

#[test]
fn parsed_argument_accessors() {
    let arg = RawArgument::new("c", "color", "Colour output", true, true);
    let mut parsed = ParsedArgument::new(Some(arg), Some("red".to_string()));
    assert!(parsed.has_value());
    assert!(parsed.is_optional());
    assert!(parsed.long_matches("--color"));
    assert!(parsed.short_matches("-c"));
    parsed.clear();
    assert!(parsed.defined_argument.is_none());
    assert!(parsed.value.is_none());
    assert!(!parsed.has_value());
    assert!(!parsed.is_optional());
    assert!(!parsed.long_matches("--color"));
    assert!(!parsed.short_matches("c"));
}

#[test]
fn parser_error_keeps_details() {
    assert_eq!(ParserError::new("boom").details(), "boom");
    assert_eq!(ParserError::unrecognized("x").details(), "x is not a valid Argument!");
    assert_eq!(ParserError::missing_value("-t").details(), "Did not provide a value for -t");
}

#[test]
fn help_line_pads_columns() {
    let arg = RawArgument::new("t", "test", "A test", true, false);
    assert_eq!(arg.help_line(), "-t     --test            <value>         A test");
    let wide = RawArgument::new("verbose", "verbose", "Talk", false, false);
    assert_eq!(wide.help_line(), "-verbose --verbose                         Talk");
}

#[test]
fn parser_error_message() {
    assert_eq!(ParserError::new("boom").message(), "Failed to parse: boom");
}
