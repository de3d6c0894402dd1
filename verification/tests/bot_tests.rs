use llama_bot::executor::{execute, supported_model, usage_text, unknown_command_reply, Execution};
use llama_bot::grammar::{parse, Command, GrammarError};
use llama_bot::inference::aggregate_response;
use llama_bot::router::route;
use llama_bot::text::{split_first_ws, starts_with, trim, trim_start};

const USAGE: &str = "Usage: !llama <COMMAND>\n\nCommands:\n  ask <MODEL> <PROMPT>   Send <PROMPT> to <MODEL>. See `list` for a listing of supported models.\n  list                   List supported models.\n  help                   Display this help message.\n";

fn parse_ok(raw: &str) -> (Command, Option<String>) {
    match parse(raw) {
        Ok(p) => p,
        Err(GrammarError::UnknownCommand(w)) => {
            panic!("expected a command, got unknown word {:?}", w)
        }
    }
}

fn parse_err(raw: &str) -> String {
    match parse(raw) {
        Ok(_) => panic!("expected a parse failure"),
        Err(GrammarError::UnknownCommand(w)) => w,
    }
}

fn reply_of(e: Execution) -> String {
    match e {
        Execution::Reply(t) => t,
        Execution::Inference { model, prompt } => {
            panic!("expected a reply, got an inference request for {} / {}", model, prompt)
        }
    }
}

fn inference_of(e: Execution) -> (String, String) {
    match e {
        Execution::Reply(t) => panic!("expected an inference request, got reply {:?}", t),
        Execution::Inference { model, prompt } => (model, prompt),
    }
}

#[test]
fn parse_known_commands() {
    let (c, d) = parse_ok("ask mistral hi");
    assert_eq!(c, Command::Ask);
    assert_eq!(d.as_deref(), Some("mistral hi"));

    let (c, d) = parse_ok("help");
    assert_eq!(c, Command::Help);
    assert_eq!(d, None);

    let (c, d) = parse_ok("list");
    assert_eq!(c, Command::List);
    assert_eq!(d, None);
}

#[test]
fn parse_unknown_word_is_carried_exactly() {
    assert_eq!(parse_err("foo bar"), "foo");
    assert_eq!(parse_err("foo"), "foo");
    assert_eq!(parse_err(""), "");
    assert_eq!(parse_err("Ask mistral hi"), "Ask");
    assert_eq!(parse_err("asking mistral hi"), "asking");
}

#[test]
fn parse_treats_a_whitespace_run_as_one_boundary() {
    let (c, d) = parse_ok("ask   mistral hi");
    assert_eq!(c, Command::Ask);
    assert_eq!(d.as_deref(), Some("mistral hi"));
}

#[test]
fn execute_help_returns_the_usage_text_verbatim() {
    assert_eq!(reply_of(execute(Command::Help, None)), USAGE);
    assert_eq!(reply_of(execute(Command::Help, Some("ignored payload"))), USAGE);
    assert_eq!(usage_text(), USAGE);
}

#[test]
fn execute_list_names_all_models_whatever_the_payload() {
    let expected = "Supported models: deepseek-r1, mistral, llama3.2";
    let r = reply_of(execute(Command::List, None));
    assert_eq!(r, expected);
    assert!(r.contains("deepseek-r1"));
    assert!(r.contains("mistral"));
    assert!(r.contains("llama3.2"));
    assert_eq!(reply_of(execute(Command::List, Some("junk"))), expected);
}

#[test]
fn execute_ask_without_payload_asks_for_one() {
    let expected = "Please provide a model and a prompt.";
    assert_eq!(reply_of(execute(Command::Ask, None)), expected);
    assert_eq!(reply_of(execute(Command::Ask, Some(""))), expected);
    assert_eq!(reply_of(execute(Command::Ask, Some("mistral"))), expected);
}

#[test]
fn execute_ask_with_unsupported_model_names_it_and_makes_no_request() {
    let r = reply_of(execute(Command::Ask, Some("gpt4 what is 2+2")));
    assert_eq!(
        r,
        "gpt4 is an unsupported model. Run `!llama list` for a list of supported models."
    );
    assert!(r.contains("gpt4"));
    let r = reply_of(execute(Command::Ask, Some("mistralx hello")));
    assert!(r.contains("mistralx"));
}

#[test]
fn execute_ask_with_supported_model_requests_inference() {
    let (model, prompt) = inference_of(execute(Command::Ask, Some("mistral what is 2+2")));
    assert_eq!(model, "mistral");
    assert_eq!(prompt, "what is 2+2");

    let (model, prompt) = inference_of(execute(Command::Ask, Some("deepseek-r1 hi")));
    assert_eq!(model, "deepseek-r1");
    assert_eq!(prompt, "hi");

    let (model, prompt) = inference_of(execute(Command::Ask, Some("llama3.2 hi")));
    assert_eq!(model, "llama3.2");
    assert_eq!(prompt, "hi");
}

#[test]
fn supported_model_is_exact_and_case_sensitive() {
    assert!(supported_model("mistral"));
    assert!(supported_model("deepseek-r1"));
    assert!(supported_model("llama3.2"));
    assert!(!supported_model("Mistral"));
    assert!(!supported_model("mistral "));
    assert!(!supported_model("gpt4"));
    assert!(!supported_model(""));
}

#[test]
fn aggregation_joins_fragments_in_arrival_order() {
    let body = "{\"response\":\"Hel\",\"done\":false}\n{\"response\":\"lo\",\"done\":false}\n{\"response\":\"\",\"done\":true}";
    assert_eq!(aggregate_response(body), "Hello");
}

#[test]
fn aggregation_drops_malformed_lines_without_changing_the_result() {
    let clean = "{\"response\":\"Hel\",\"done\":false}\n{\"response\":\"lo\",\"done\":false}";
    let with_garbage_middle =
        "{\"response\":\"Hel\",\"done\":false}\nnot json at all\n{\"response\":\"lo\",\"done\":false}";
    let with_garbage_front =
        "garbage\n{\"response\":\"Hel\",\"done\":false}\n{\"response\":\"lo\",\"done\":false}";
    let with_garbage_end =
        "{\"response\":\"Hel\",\"done\":false}\n{\"response\":\"lo\",\"done\":false}\n{\"respon";
    let expected = aggregate_response(clean);
    assert_eq!(expected, "Hello");
    assert_eq!(aggregate_response(with_garbage_middle), expected);
    assert_eq!(aggregate_response(with_garbage_front), expected);
    assert_eq!(aggregate_response(with_garbage_end), expected);
}

#[test]
fn aggregation_drops_lines_of_the_wrong_shape() {
    // A missing "done", a non-string "response", and a non-object are all dropped.
    let body = "{\"response\":\"x\"}\n{\"response\":5,\"done\":false}\n[1,2]\n{\"response\":\"ok\",\"done\":false}";
    assert_eq!(aggregate_response(body), "ok");
}

#[test]
fn aggregation_left_trims_but_keeps_internal_whitespace() {
    let body = "{\"response\":\" Hi\",\"done\":false}\n{\"response\":\"  there \",\"done\":false}";
    assert_eq!(aggregate_response(body), "Hi  there ");
    let tabs = "{\"response\":\"\\n\\t go\",\"done\":false}";
    assert_eq!(aggregate_response(tabs), "go");
}

#[test]
fn aggregation_of_nothing_usable_is_the_empty_string() {
    assert_eq!(aggregate_response(""), "");
    assert_eq!(aggregate_response("\n\n"), "");
    assert_eq!(aggregate_response("{\"response\":\"hidden\",\"done\":true}"), "");
}

#[test]
fn done_chunks_contribute_no_text() {
    let body = "{\"response\":\"a\",\"done\":false}\n{\"response\":\"IGNORED\",\"done\":true}\n{\"response\":\"b\",\"done\":false}";
    assert_eq!(aggregate_response(body), "ab");
}

#[test]
fn full_fields_of_the_streaming_protocol_decode_too() {
    let body = "{\"model\":\"mistral\",\"created_at\":\"2024-01-01T00:00:00Z\",\"response\":\"4\",\"done\":false}";
    assert_eq!(aggregate_response(body), "4");
}

#[test]
fn route_ignores_messages_without_the_trigger() {
    assert!(route("hello there").is_none());
    assert!(route("").is_none());
    assert!(route(" !llama help").is_none());
    assert!(route("llama help").is_none());
}

#[test]
fn route_ask_scenario_reaches_inference_and_relays_the_fragment() {
    let e = route("!llama ask mistral what is 2+2").expect("trigger present");
    let (model, prompt) = inference_of(e);
    assert_eq!(model, "mistral");
    assert_eq!(prompt, "what is 2+2");
    // The mock endpoint streams one fragment; its aggregation is the reply.
    assert_eq!(aggregate_response("{\"response\":\"4\",\"done\":false}"), "4");
}

#[test]
fn route_unknown_command_scenario() {
    let e = route("!llama foo bar").expect("trigger present");
    assert_eq!(
        reply_of(e),
        "foo is not a valid command. Run `!llama help` for a list of valid commands."
    );
}

#[test]
fn route_trims_around_the_command() {
    let e = route("!llama   help  ").expect("trigger present");
    assert_eq!(reply_of(e), USAGE);
}

#[test]
fn route_empty_remainder_is_an_unknown_empty_word() {
    let e = route("!llama").expect("trigger present");
    assert_eq!(
        reply_of(e),
        " is not a valid command. Run `!llama help` for a list of valid commands."
    );
    assert_eq!(
        unknown_command_reply(""),
        " is not a valid command. Run `!llama help` for a list of valid commands."
    );
}

#[test]
fn text_helpers_match_std_semantics() {
    assert_eq!(trim("  a b \t"), "a b");
    assert_eq!(trim(""), "");
    assert_eq!(trim(" \n "), "");
    assert_eq!(trim_start("\n  x y "), "x y ");
    assert_eq!(trim_start("x"), "x");
    assert!(starts_with("!llama help", "!llama"));
    assert!(!starts_with("!llam", "!llama"));
    assert!(starts_with("anything", ""));
    assert_eq!(split_first_ws("a b c"), Some(("a".to_string(), "b c".to_string())));
    assert_eq!(split_first_ws("a \t b"), Some(("a".to_string(), "b".to_string())));
    assert_eq!(split_first_ws("abc"), None);
    assert_eq!(split_first_ws("a "), Some(("a".to_string(), "".to_string())));
}
