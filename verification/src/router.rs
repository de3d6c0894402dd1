//! The message router's text half: recognises the trigger token at the
//! head of a room message, strips and trims it, and hands the remainder
//! through the grammar to the executor. Messages without the trigger get
//! no reply at all.

use vstd::prelude::*;
use crate::executor::{
    execute, unknown_command_reply, execute_model, unknown_command_reply_spec, Execution,
    ExecutionModel,
};
use crate::grammar::{parse, parse_model, GrammarError};
use crate::text::{is_prefix_of, starts_with, trim, trim_spec};

verus! {

/// The literal token that marks a room message as a bot command.
pub open spec fn bot_trigger() -> Seq<char> {
    "!llama"@
}

/// Whether the message begins with the trigger token.
pub open spec fn has_trigger(body: Seq<char>) -> bool {
    is_prefix_of(bot_trigger(), body)
}

/// The message with the trigger stripped and the remainder trimmed.
pub open spec fn stripped(body: Seq<char>) -> Seq<char> {
    trim_spec(body.skip(bot_trigger().len() as int))
}

/// What `route` returns: nothing for a message without the trigger;
/// otherwise the executor's outcome for the parsed command, or the
/// unknown-command guidance reply when parsing fails.
pub open spec fn route_model(body: Seq<char>) -> Option<ExecutionModel> {
    if !has_trigger(body) {
        None
    } else {
        match parse_model(stripped(body)) {
            Ok(p) => Some(execute_model(p.0, p.1)),
            Err(w) => Some(ExecutionModel::Reply(unknown_command_reply_spec(w))),
        }
    }
}

/// Routes one room message: recognises and strips the trigger, parses the
/// remainder, and executes the command up to the suspension point. The
/// caller publishes the reply, or queries the inference service and
/// publishes what comes back.
pub fn route(body: &str) -> (r: Option<Execution>)
    ensures
        match r {
            Some(e) => route_model(body@) == Some(e@),
            None => route_model(body@) is None,
        },
{
    let trigger_token = "!llama";
    if !starts_with(body, trigger_token) {
        return None;
    }
    let n = body.unicode_len();
    let raw_rest = body.substring_char(trigger_token.unicode_len(), n);
    let raw = trim(raw_rest);
    proof {
        assert(raw_rest@ =~= body@.skip(bot_trigger().len() as int));
    }
    match parse(raw.as_str()) {
        Ok(p) => {
            let (cmd, data) = p;
            let r = match data {
                Some(d) => execute(cmd, Some(d.as_str())),
                None => execute(cmd, None),
            };
            Some(r)
        },
        Err(GrammarError::UnknownCommand(word)) => {
            Some(Execution::Reply(unknown_command_reply(word.as_str())))
        },
    }
}

} // verus!
