//! The message parser of the command layer: a message starting with an
//! exclamation mark names one of the known commands.
use vstd::prelude::*;

use crate::text::{first_word, str_eq, take_first_word};

verus! {

/// Returned when the parsing of a command failed
#[derive(Debug, Clone, PartialEq, Eq)]
pub enum ParsingError {
    /// The message does not look like a command at all.
    NoCommand,
    /// The message names a command this parser does not know.
    UnknownCommand,
}

impl ParsingError {
    /// The report this error renders as.
    pub fn message(&self) -> (r: &'static str)
        ensures
            self is NoCommand ==> r@ == "Not a command"@,
            self is UnknownCommand ==> r@ == "Unknown command"@,
    {
        match self {
            ParsingError::NoCommand => "Not a command",
            ParsingError::UnknownCommand => "Unknown command",
        }
    }
}

/// The commands the assistant answers to.
#[derive(Debug, Clone, PartialEq, Eq)]
pub enum Command {
    Help,
    Ping,
    Roll,
}

/// The command a message names: its first word after the leading
/// exclamation mark.
pub open spec fn parse_spec(s: Seq<char>) -> Result<Command, ParsingError> {
    if s.len() == 0 || s[0] != '!' {
        Err(ParsingError::NoCommand)
    } else {
        let word = first_word(s.skip(1));
        if word == "help"@ {
            Ok(Command::Help)
        } else if word == "ping"@ {
            Ok(Command::Ping)
        } else if word == "roll"@ {
            Ok(Command::Roll)
        } else {
            Err(ParsingError::UnknownCommand)
        }
    }
}

/// Parse a message to find out if it was a command and return it.
pub fn parse(message: &str) -> (r: Result<Command, ParsingError>)
    ensures
        r == parse_spec(message@),
{
    let n = message.unicode_len();
    if n == 0 || message.get_char(0) != '!' {
        return Err(ParsingError::NoCommand);
    }
    let rest = message.substring_char(1, n);
    proof {
        assert(rest@ =~= message@.skip(1));
    }
    let word = take_first_word(rest);
    if str_eq(word, "help") {
        Ok(Command::Help)
    } else if str_eq(word, "ping") {
        Ok(Command::Ping)
    } else if str_eq(word, "roll") {
        Ok(Command::Roll)
    } else {
        Err(ParsingError::UnknownCommand)
    }
}

} // verus!
