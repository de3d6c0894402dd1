//! The command executor: turns a parsed command and its payload into
//! either a finished reply or an inference request for the caller to
//! carry out. Everything that can go wrong with the user's input comes
//! back as a guidance reply, never as an error.

use vstd::prelude::*;
use crate::grammar::Command;
use crate::text::{contains_seq, is_ws, split_first_ws, split_ws};

verus! {

/// The supported model set: the fixed identifiers the deployment is
/// willing to forward to the inference service.
pub open spec fn is_supported_model(m: Seq<char>) -> bool {
    m == "deepseek-r1"@ || m == "mistral"@ || m == "llama3.2"@
}

/// What executing a command asks of the caller: publish a finished reply,
/// or query the inference service with a model and a prompt and publish
/// what comes back.
pub enum Execution {
    Reply(String),
    Inference { model: String, prompt: String },
}

/// The mathematical model of an `Execution`.
pub enum ExecutionModel {
    Reply(Seq<char>),
    Inference { model: Seq<char>, prompt: Seq<char> },
}

impl View for Execution {
    type V = ExecutionModel;

    open spec fn view(&self) -> ExecutionModel {
        match self {
            Execution::Reply(t) => ExecutionModel::Reply(t@),
            Execution::Inference { model, prompt } => ExecutionModel::Inference {
                model: model@,
                prompt: prompt@,
            },
        }
    }
}

/// The fixed usage text the `help` command returns.
pub open spec fn usage_text_spec() -> Seq<char> {
    "Usage: !llama <COMMAND>\n\nCommands:\n  ask <MODEL> <PROMPT>   Send <PROMPT> to <MODEL>. See `list` for a listing of supported models.\n  list                   List supported models.\n  help                   Display this help message.\n"@
}

/// The reply of the `list` command: the supported models, comma-joined
/// behind a fixed prefix.
pub open spec fn list_reply_spec() -> Seq<char> {
    "Supported models: deepseek-r1, mistral, llama3.2"@
}

/// The guidance reply for an `ask` without a splittable payload.
pub open spec fn missing_args_reply_spec() -> Seq<char> {
    "Please provide a model and a prompt."@
}

/// The guidance reply for an `ask` naming a model outside the supported set.
pub open spec fn unsupported_model_reply_spec(model: Seq<char>) -> Seq<char> {
    model + " is an unsupported model. Run `!llama list` for a list of supported models."@
}

/// The guidance reply for an unknown command word.
pub open spec fn unknown_command_reply_spec(word: Seq<char>) -> Seq<char> {
    word + " is not a valid command. Run `!llama help` for a list of valid commands."@
}

/// What `execute` returns for a command and payload: `help` and `list`
/// reply with fixed text whatever the payload; `ask` replies with guidance
/// when the payload is missing, unsplittable or names an unsupported
/// model, and asks for an inference call otherwise.
pub open spec fn execute_model(cmd: Command, payload: Option<Seq<char>>) -> ExecutionModel {
    match cmd {
        Command::Help => ExecutionModel::Reply(usage_text_spec()),
        Command::List => ExecutionModel::Reply(list_reply_spec()),
        Command::Ask => match payload {
            None => ExecutionModel::Reply(missing_args_reply_spec()),
            Some(p) => match split_ws(p) {
                None => ExecutionModel::Reply(missing_args_reply_spec()),
                Some(q) => if is_supported_model(q.0) {
                    ExecutionModel::Inference { model: q.0, prompt: q.1 }
                } else {
                    ExecutionModel::Reply(unsupported_model_reply_spec(q.0))
                },
            },
        },
    }
}

/// The view of an optional borrowed string.
pub open spec fn opt_str_view(p: Option<&str>) -> Option<Seq<char>> {
    match p {
        Some(s) => Some(s@),
        None => None,
    }
}

/// Decides membership in the supported model set.
pub fn supported_model(m: &str) -> (r: bool)
    ensures
        r == is_supported_model(m@),
{
    let m_owned: String = m.to_owned();
    let a: String = "deepseek-r1".to_owned();
    let b: String = "mistral".to_owned();
    let c: String = "llama3.2".to_owned();
    m_owned == a || m_owned == b || m_owned == c
}

/// Returns the fixed usage text.
pub fn usage_text() -> (r: String)
    ensures
        r@ == usage_text_spec(),
{
    "Usage: !llama <COMMAND>\n\nCommands:\n  ask <MODEL> <PROMPT>   Send <PROMPT> to <MODEL>. See `list` for a listing of supported models.\n  list                   List supported models.\n  help                   Display this help message.\n".to_owned()
}

/// Renders the guidance reply for an unknown command word.
pub fn unknown_command_reply(word: &str) -> (r: String)
    ensures
        r@ == unknown_command_reply_spec(word@),
{
    let head: String = word.to_owned();
    head.concat(" is not a valid command. Run `!llama help` for a list of valid commands.")
}

/// Executes a command against its payload, up to the suspension point:
/// the returned `Execution` either holds the finished reply or names the
/// model and prompt the caller must send to the inference service.
pub fn execute(cmd: Command, payload: Option<&str>) -> (r: Execution)
    ensures
        r@ == execute_model(cmd, opt_str_view(payload)),
{
    match cmd {
        Command::Help => Execution::Reply(usage_text()),
        Command::List => Execution::Reply(
            "Supported models: deepseek-r1, mistral, llama3.2".to_owned(),
        ),
        Command::Ask => match payload {
            None => Execution::Reply("Please provide a model and a prompt.".to_owned()),
            Some(p) => match split_first_ws(p) {
                None => Execution::Reply("Please provide a model and a prompt.".to_owned()),
                Some(q) => {
                    let (model, prompt) = q;
                    if supported_model(model.as_str()) {
                        Execution::Inference { model, prompt }
                    } else {
                        let reply = model.concat(
                            " is an unsupported model. Run `!llama list` for a list of supported models.",
                        );
                        Execution::Reply(reply)
                    }
                },
            },
        },
    }
}

/// The `list` reply names every supported model: each of the three
/// identifiers occurs in it as a contiguous run.
pub proof fn lemma_list_reply_names_all_models()
    ensures
        contains_seq(list_reply_spec(), "deepseek-r1"@),
        contains_seq(list_reply_spec(), "mistral"@),
        contains_seq(list_reply_spec(), "llama3.2"@),
{
    reveal_strlit("Supported models: deepseek-r1, mistral, llama3.2");
    reveal_strlit("deepseek-r1");
    reveal_strlit("mistral");
    reveal_strlit("llama3.2");
    assert("deepseek-r1"@.len() == 11);
    assert("mistral"@.len() == 7);
    assert("llama3.2"@.len() == 8);
    assert(list_reply_spec().subrange(18, 18 + "deepseek-r1"@.len() as int) =~= "deepseek-r1"@);
    assert(list_reply_spec().subrange(31, 31 + "mistral"@.len() as int) =~= "mistral"@);
    assert(list_reply_spec().subrange(40, 40 + "llama3.2"@.len() as int) =~= "llama3.2"@);
}

/// Asking with a payload `model + ' ' + prompt` whose model holds no
/// whitespace and lies outside the supported set comes back as a guidance
/// reply that names the model — `execute` returns no inference request,
/// so no network call is made.
pub proof fn lemma_execute_ask_unsupported(model: Seq<char>, prompt: Seq<char>)
    requires
        !is_supported_model(model),
        forall|k: int| 0 <= k < model.len() ==> !is_ws(model[k]),
        prompt.len() > 0,
    ensures
        execute_model(Command::Ask, Some(model + seq![' '] + prompt)) == ExecutionModel::Reply(
            unsupported_model_reply_spec(model),
        ),
        contains_seq(unsupported_model_reply_spec(model), model),
{
    let payload = model + seq![' '] + prompt;
    assert(payload[model.len() as int] == ' ');
    crate::text::lemma_find_ws_at(payload, model.len() as int);
    assert(payload.take(model.len() as int) =~= model);
    assert(split_ws(payload) matches Some(q) && q.0 == model);
    assert(unsupported_model_reply_spec(model).subrange(0, model.len() as int) =~= model);
}

} // verus!
