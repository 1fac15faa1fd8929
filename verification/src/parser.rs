//! The first message parser the assistant had: a message starting with
//! an exclamation mark names a command.
use vstd::prelude::*;

use crate::text::{first_word, str_eq, take_first_word};

verus! {

/// Returned when a message is no command of this parser.
#[derive(Debug, PartialEq, Eq)]
pub struct ParsingError;

impl ParsingError {
    /// The report this error renders as.
    pub fn message(&self) -> (r: &'static str)
        ensures
            r@ == "Couldn't parse message"@,
    {
        "Couldn't parse message"
    }
}

/// The commands this parser knows.
#[derive(Debug, PartialEq, Eq)]
pub enum Command {
    Ping,
}

/// The command a message names: its first word after the leading
/// exclamation mark.
pub open spec fn parse_spec(s: Seq<char>) -> Result<Command, ParsingError> {
    if s.len() == 0 || s[0] != '!' {
        Err(ParsingError)
    } else if first_word(s.skip(1)) == "ping"@ {
        Ok(Command::Ping)
    } else {
        Err(ParsingError)
    }
}

/// Parse a message to find out if it was a command and return it.
pub fn parse(message: &str) -> (r: Result<Command, ParsingError>)
    ensures
        r == parse_spec(message@),
{
    let n = message.unicode_len();
    if n == 0 || message.get_char(0) != '!' {
        return Err(ParsingError);
    }
    let rest = message.substring_char(1, n);
    proof {
        assert(rest@ =~= message@.skip(1));
    }
    let word = take_first_word(rest);
    if str_eq(word, "ping") {
        Ok(Command::Ping)
    } else {
        Err(ParsingError)
    }
}

} // verus!
