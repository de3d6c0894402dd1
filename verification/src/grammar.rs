//! The command grammar: the first whitespace-delimited token of the
//! trigger-stripped text selects a command; the rest is the payload.

use vstd::prelude::*;
use crate::text::{split_first_ws, split_ws};

verus! {

/// The command word: what stands before the first whitespace run of the
/// raw text, or the whole text when it holds no whitespace.
pub open spec fn word_of_raw(raw: Seq<char>) -> Seq<char> {
    match split_ws(raw) {
        Some(p) => p.0,
        None => raw,
    }
}

/// The payload: what stands after the first whitespace run of the raw
/// text, or nothing when it holds no whitespace.
pub open spec fn payload_of_raw(raw: Seq<char>) -> Option<Seq<char>> {
    match split_ws(raw) {
        Some(p) => Some(p.1),
        None => None,
    }
}

/// A chat command, the closed set the bot understands.
#[derive(Debug, Clone, Copy, PartialEq, Eq, Structural)]
pub enum Command {
    Ask,
    Help,
    List,
}

/// A parse failure of the command grammar.
#[derive(Debug)]
pub enum GrammarError {
    /// The first token is not a known command word; carries that token.
    UnknownCommand(String),
}

/// The view of an optional owned string.
pub open spec fn opt_string_view(d: Option<String>) -> Option<Seq<char>> {
    match d {
        Some(s) => Some(s@),
        None => None,
    }
}

/// What `parse` returns: the command selected by the first token together
/// with the unparsed payload, or the unknown first token itself.
pub open spec fn parse_model(raw: Seq<char>) -> Result<(Command, Option<Seq<char>>), Seq<char>> {
    let w = word_of_raw(raw);
    if w == "ask"@ {
        Ok((Command::Ask, payload_of_raw(raw)))
    } else if w == "help"@ {
        Ok((Command::Help, payload_of_raw(raw)))
    } else if w == "list"@ {
        Ok((Command::List, payload_of_raw(raw)))
    } else {
        Err(w)
    }
}

/// Parses the trigger-stripped, trimmed remainder of a chat message into a
/// command and its unparsed payload. An unknown first token — the empty
/// one of an empty input included — is returned in the error, exactly as
/// it stood in the input.
pub fn parse(raw: &str) -> (r: Result<(Command, Option<String>), GrammarError>)
    ensures
        match r {
            Ok(p) => parse_model(raw@) == Ok::<(Command, Option<Seq<char>>), Seq<char>>(
                (p.0, opt_string_view(p.1)),
            ),
            Err(e) => e matches GrammarError::UnknownCommand(w) && parse_model(raw@)
                == Err::<(Command, Option<Seq<char>>), Seq<char>>(w@),
        },
{
    let (word, data): (String, Option<String>) = match split_first_ws(raw) {
        Some(p) => (p.0, Some(p.1)),
        None => (raw.to_owned(), None),
    };
    let ask: String = "ask".to_owned();
    let help: String = "help".to_owned();
    let list: String = "list".to_owned();
    if word == ask {
        Ok((Command::Ask, data))
    } else if word == help {
        Ok((Command::Help, data))
    } else if word == list {
        Ok((Command::List, data))
    } else {
        Err(GrammarError::UnknownCommand(word))
    }
}

} // verus!
