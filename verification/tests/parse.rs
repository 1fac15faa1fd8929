//! Both generations of the message parser.
use rp_tool::commands::parser::{parse, Command, ParsingError};

#[test]
fn parse_ping_old_parser() {
    assert!(matches!(
        rp_tool::parser::parse("!ping"),
        Ok(rp_tool::parser::Command::Ping)
    ));
}

#[test]
fn parse_ping_with_arguments_old_parser() {
    assert!(matches!(
        rp_tool::parser::parse("!ping now"),
        Ok(rp_tool::parser::Command::Ping)
    ));
}

#[test]
fn parse_rejects_plain_text_old_parser() {
    assert!(rp_tool::parser::parse("ping").is_err());
    assert!(rp_tool::parser::parse("").is_err());
    assert!(rp_tool::parser::parse("!pong").is_err());
}

#[test]
fn parse_error_message_old_parser() {
    let err = rp_tool::parser::parse("nope").unwrap_err();
    assert_eq!(err.message(), "Couldn't parse message");
}

#[test]
fn parse_known_commands() {
    assert_eq!(parse("!help"), Ok(Command::Help));
    assert_eq!(parse("!ping"), Ok(Command::Ping));
    assert_eq!(parse("!roll"), Ok(Command::Roll));
    assert_eq!(parse("!roll d20"), Ok(Command::Roll));
}

#[test]
fn parse_no_command() {
    assert_eq!(parse("roll"), Err(ParsingError::NoCommand));
    assert_eq!(parse(""), Err(ParsingError::NoCommand));
}

#[test]
fn parse_unknown_command() {
    assert_eq!(parse("!frobnicate"), Err(ParsingError::UnknownCommand));
    assert_eq!(parse("! roll"), Err(ParsingError::UnknownCommand));
}

#[test]
fn parse_error_messages() {
    assert_eq!(ParsingError::NoCommand.message(), "Not a command");
    assert_eq!(parse("!x").unwrap_err().message(), "Unknown command");
}
