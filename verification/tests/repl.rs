//! The arguments of the program, and what it prints.
use lite_agent::error::AgentError;
use lite_agent::kernel::events::{Suspension, SuspensionKind, TokenUsage};
use lite_agent::kernel::model::ModelFunctionCall;
use lite_agent::repl::{
    help_text, parse_args, print_outcome, print_stream_event, read_line, read_shell_request,
    shell_output, shell_spec, shell_timeout, truncate_output, usage_line, Command, ReplArgs,
    ReplInput,
    StreamRenderState,
};
use lite_agent::runtime::agent_loop::{
    RuntimeEvent, TurnModelEvent, TurnOutcome, TurnStateEvent, TurnStreamEvent,
};
use serde_json::Value;

fn defaults() -> ReplArgs {
    ReplArgs {
        thread: None,
        state_dir: ".lite-agent".to_string(),
        model: String::new(),
        base_url: "https://api.openai.com/v1".to_string(),
        api_key: "key".to_string(),
        reasoning_effort: String::new(),
        command_cwd: ".".to_string(),
    }
}

fn parse(args: &[&str]) -> Result<Command, AgentError> {
    let args = args.iter().map(|arg| arg.to_string()).collect();
    parse_args(&args, defaults(), "medium".to_string())
}

fn delta(text: &str) -> TurnStreamEvent {
    TurnStreamEvent::Model(TurnModelEvent::AssistantDelta { text: text.to_string() })
}

#[test]
fn assistant_delta_marks_line_open_until_newline() {
    let mut state = StreamRenderState::default();
    assert_eq!(print_stream_event(&delta("你好"), &mut state), "你好");
    assert!(state.assistant_started);
    assert!(state.line_open);
    print_stream_event(&delta("\n"), &mut state);
    assert!(state.assistant_started);
    assert!(!state.line_open);
}

#[test]
fn a_line_of_its_own_ends_what_was_open() {
    let mut state = StreamRenderState::default();
    print_stream_event(&delta("so"), &mut state);
    let calls = TurnStreamEvent::State(TurnStateEvent::FunctionCallsRequested {
        calls: vec![
            ModelFunctionCall {
                call_id: "c1".to_string(),
                name: "f".to_string(),
                arguments: Value::Null,
            },
            ModelFunctionCall {
                call_id: "c2".to_string(),
                name: "g".to_string(),
                arguments: Value::Bool(true),
            },
        ],
    });
    assert_eq!(
        print_stream_event(&calls, &mut state),
        "\n[function requested] f null\n[function requested] g true\n"
    );
    assert!(!state.line_open);
    let started = TurnStreamEvent::State(TurnStateEvent::FunctionStarted {
        call_id: "c1".to_string(),
        name: "f".to_string(),
    });
    assert_eq!(print_stream_event(&started, &mut state), "[function started] f (c1)\n");
    let iteration = TurnStreamEvent::Model(TurnModelEvent::RequestStarted { iteration: 12 });
    assert_eq!(print_stream_event(&iteration, &mut state), "[model] iteration 12\n");
    let runtime = TurnStreamEvent::Runtime(RuntimeEvent {
        source: "hook".to_string(),
        message: "late".to_string(),
        metadata: Value::Null,
    });
    assert_eq!(print_stream_event(&runtime, &mut state), "[hook] late\n");
    let whole = TurnStreamEvent::Model(TurnModelEvent::AssistantMessage { text: "x".to_string() });
    assert_eq!(print_stream_event(&whole, &mut state), "");
}

#[test]
fn the_end_of_a_turn_is_printed_once() {
    let said = TurnOutcome::AssistantMessage { text: "done".to_string() };
    let mut state = StreamRenderState::default();
    assert_eq!(print_outcome(&said, &state), "done\n");
    print_stream_event(&delta("done"), &mut state);
    assert_eq!(print_outcome(&said, &state), "\n");
    print_stream_event(&delta("\n"), &mut state);
    assert_eq!(print_outcome(&said, &state), "");
    let failed = TurnOutcome::Failed { error: "e".to_string() };
    assert_eq!(print_outcome(&failed, &state), "turn failed: e\n");
    let payload = [("prompt".to_string(), Value::String("Which?".to_string()))];
    let waiting = TurnOutcome::Suspended {
        suspension: Suspension {
            id: "r1".to_string(),
            kind: SuspensionKind::UserInput,
            payload: Value::Object(payload.into_iter().collect()),
        },
    };
    assert_eq!(print_outcome(&waiting, &state), "Which?\n");
}

#[test]
fn arguments_replace_what_the_environment_says() {
    let Ok(Command::Repl(args)) =
        parse(&["repl", "--model", "m", "--thread", "t", "--state-dir", "d", "--base-url"])
    else {
        panic!("expected settings")
    };
    assert_eq!(args.model, "m");
    assert_eq!(args.thread.as_deref(), Some("t"));
    assert_eq!(args.state_dir, "d");
    assert_eq!(args.base_url, "");
    assert_eq!(args.reasoning_effort, "medium");
    assert_eq!(args.command_cwd, ".");
}

#[test]
fn arguments_that_make_no_sense_are_refused() {
    let told = |args: &[&str]| parse(args).expect_err("refused").message();
    assert_eq!(told(&["serve"]), "model error: unsupported command: serve. expected: repl");
    assert_eq!(told(&["repl", "--color"]), "model error: unknown argument: --color");
    assert_eq!(told(&[]), "model error: missing --model or LITE_AGENT_MODEL");
    assert_eq!(
        told(&["repl", "--model", "m", "--api-key", ""]),
        "model error: missing --api-key or LITE_AGENT_API_KEY"
    );
    assert_eq!(parse(&["-h"]).ok(), Some(Command::Help));
    assert_eq!(parse(&["repl", "--model", "m", "--help", "--color"]).ok(), Some(Command::Help));
    assert!(help_text().starts_with("usage: lite-agent-repl repl"));
}

#[test]
fn lines_are_commands_or_prompts() {
    assert_eq!(read_line("  /EXIT \n"), ReplInput::Exit);
    assert_eq!(read_line("/quit"), ReplInput::Exit);
    assert_eq!(read_line(" \t"), ReplInput::Nothing);
    assert_eq!(read_line(" hi there "), ReplInput::Prompt("hi there".to_string()));
}

#[test]
fn shell_output_is_cut_off_by_characters() {
    let long = "é".repeat(20_001);
    let cut = truncate_output(&long);
    assert_eq!(cut, format!("{}\n...[truncated]", "é".repeat(20_000)));
    assert_eq!(truncate_output("short"), "short");
    let value = shell_output("/tmp", "ls", None, false, &vec![104, 105], &vec![255]);
    assert_eq!(value["stdout"], "hi");
    assert_eq!(value["stderr"], "\u{fffd}");
    assert_eq!(value["exit_code"], Value::Null);
    let ok = shell_output("/tmp", "ls", Some(0), true, &Vec::new(), &Vec::new());
    assert_eq!(ok["exit_code"], 0);
    assert_eq!(ok["success"], true);
    assert!(shell_timeout(5).message().ends_with("command timed out after 5ms"));
    let arguments = Value::Object(
        [("cmd".to_string(), Value::String("ls".to_string()))].into_iter().collect(),
    );
    assert_eq!(read_shell_request(&arguments).expect("request"), ("ls".to_string(), 30_000));
    assert!(read_shell_request(&Value::Null).is_err());
}

#[test]
fn a_thread_that_was_never_stored_used_no_tokens() {
    assert_eq!(
        usage_line(None),
        "[thread tokens] input=0, cached_input=0, output=0, total=0"
    );
    let usage = TokenUsage {
        input_tokens: 1,
        cached_input_tokens: 2,
        output_tokens: 3,
        total_tokens: 4,
    };
    assert_eq!(
        usage_line(Some(&usage)),
        "[thread tokens] input=1, cached_input=2, output=3, total=4"
    );
}

#[test]
fn the_shell_is_offered_with_its_arguments() {
    let spec = shell_spec();
    assert_eq!(spec.name, "exec_command");
    assert!(spec.description.starts_with("Run a shell command for local project testing."));
    assert_eq!(spec.parameters["type"], "object");
    assert_eq!(spec.parameters["required"][0], "cmd");
    assert_eq!(spec.parameters["properties"]["cmd"]["description"], "Shell command to run.");
    assert_eq!(spec.parameters["properties"]["timeout_ms"]["type"], "integer");
    assert_eq!(spec.parameters["additionalProperties"], false);
}
