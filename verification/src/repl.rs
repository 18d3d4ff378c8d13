//! A program that talks to an agent line by line: its arguments and what it prints.
use crate::error::{AgentError, AgentErrorView};
use crate::json::{
    self, get_text, get_u64, int_value, null_value, text_list, value_text, Fields, Json,
};
use crate::kernel::events::{self, Suspension, SuspensionView, TokenUsage};
use crate::kernel::model::{
    FunctionSpec, FunctionSpecView, ModelFunctionCall, ModelFunctionCallView,
};
use crate::runtime::agent_loop::{
    TurnModelEvent, TurnModelEventView, TurnOutcome, TurnOutcomeView, TurnStateEvent,
    TurnStateEventView, TurnStreamEvent, TurnStreamEventView,
};
use crate::runtime::functions;
use crate::text::{
    self, chars_of, decimal_text, joined, lossy_text_of, lower_ascii, text_eq, text_of, trim,
};
use crate::views;
use serde_json::Value;
use vstd::prelude::*;

verus! {

/// The settings of the program.
#[derive(Debug, PartialEq)]
pub struct ReplArgs {
    pub thread: Option<String>,
    pub state_dir: String,
    pub model: String,
    pub base_url: String,
    pub api_key: String,
    pub reasoning_effort: String,
    pub command_cwd: String,
}

/// What a `ReplArgs` holds.
#[verifier::ext_equal]
pub struct ReplArgsView {
    pub thread: Option<Seq<char>>,
    pub state_dir: Seq<char>,
    pub model: Seq<char>,
    pub base_url: Seq<char>,
    pub api_key: Seq<char>,
    pub reasoning_effort: Seq<char>,
    pub command_cwd: Seq<char>,
}

impl View for ReplArgs {
    type V = ReplArgsView;

    open spec fn view(&self) -> ReplArgsView {
        ReplArgsView {
            thread: views::opt(self.thread),
            state_dir: self.state_dir@,
            model: self.model@,
            base_url: self.base_url@,
            api_key: self.api_key@,
            reasoning_effort: self.reasoning_effort@,
            command_cwd: self.command_cwd@,
        }
    }
}

impl Clone for ReplArgs {
    fn clone(&self) -> (r: Self)
        ensures
            r@ == self@,
    {
        let r = ReplArgs {
            thread: self.thread.clone(),
            state_dir: self.state_dir.clone(),
            model: self.model.clone(),
            base_url: self.base_url.clone(),
            api_key: self.api_key.clone(),
            reasoning_effort: self.reasoning_effort.clone(),
            command_cwd: self.command_cwd.clone(),
        };
        assert(views::opt(r.thread) =~= views::opt(self.thread));
        r
    }
}

/// What the program is asked to do.
#[derive(Debug, PartialEq)]
pub enum Command {
    Help,
    Repl(ReplArgs),
}

/// What a `Command` holds.
#[verifier::ext_equal]
pub enum CommandView {
    Help,
    Repl(ReplArgsView),
}

impl View for Command {
    type V = CommandView;

    open spec fn view(&self) -> CommandView {
        match *self {
            Command::Help => CommandView::Help,
            Command::Repl(settings) => CommandView::Repl(settings@),
        }
    }
}

impl Clone for Command {
    fn clone(&self) -> (r: Self)
        ensures
            r@ == self@,
    {
        match self {
            Command::Help => Command::Help,
            Command::Repl(settings) => Command::Repl(settings.clone()),
        }
    }
}

/// What a line that was typed stands for.
#[derive(Debug, PartialEq)]
pub enum ReplInput {
    Exit,
    Nothing,
    Prompt(String),
}

/// What a `ReplInput` holds.
#[verifier::ext_equal]
pub enum ReplInputView {
    Exit,
    Nothing,
    Prompt(Seq<char>),
}

impl View for ReplInput {
    type V = ReplInputView;

    open spec fn view(&self) -> ReplInputView {
        match *self {
            ReplInput::Exit => ReplInputView::Exit,
            ReplInput::Nothing => ReplInputView::Nothing,
            ReplInput::Prompt(input) => ReplInputView::Prompt(input@),
        }
    }
}

impl Clone for ReplInput {
    fn clone(&self) -> (r: Self)
        ensures
            r@ == self@,
    {
        match self {
            ReplInput::Exit => ReplInput::Exit,
            ReplInput::Nothing => ReplInput::Nothing,
            ReplInput::Prompt(input) => ReplInput::Prompt(input.clone()),
        }
    }
}

/// Whether a text asks for help.
pub open spec fn help_flag(text: Seq<char>) -> bool {
    text == "--help"@ || text == "-h"@
}

/// The settings after flags were read; none where help was asked for.
pub open spec fn flags_read(args: Seq<Seq<char>>, so_far: ReplArgsView) -> Result<
    Option<ReplArgsView>,
    AgentErrorView,
>
    decreases args.len(),
{
    if args.len() == 0 {
        Ok(Some(so_far))
    } else {
        let flag = args[0];
        let given = if args.len() > 1 {
            Some(args[1])
        } else {
            None
        };
        let value = match given {
            Some(text) => text,
            None => Seq::empty(),
        };
        let rest = if args.len() > 1 {
            args.skip(2)
        } else {
            Seq::empty()
        };
        if flag == "--thread"@ {
            flags_read(rest, ReplArgsView { thread: given, ..so_far })
        } else if flag == "--state-dir"@ {
            flags_read(rest, ReplArgsView { state_dir: value, ..so_far })
        } else if flag == "--model"@ {
            flags_read(rest, ReplArgsView { model: value, ..so_far })
        } else if flag == "--base-url"@ {
            flags_read(rest, ReplArgsView { base_url: value, ..so_far })
        } else if flag == "--api-key"@ {
            flags_read(rest, ReplArgsView { api_key: value, ..so_far })
        } else if flag == "--reasoning-effort"@ {
            flags_read(rest, ReplArgsView { reasoning_effort: value, ..so_far })
        } else if flag == "--command-cwd"@ {
            flags_read(rest, ReplArgsView { command_cwd: value, ..so_far })
        } else if help_flag(flag) {
            Ok(None)
        } else {
            Err(AgentErrorView::Model("unknown argument: "@ + flag))
        }
    }
}

/// What a command line asks for.
pub open spec fn command_read(
    args: Seq<Seq<char>>,
    defaults: ReplArgsView,
    default_effort: Seq<char>,
) -> Result<CommandView, AgentErrorView> {
    if args.len() > 0 && help_flag(args[0]) {
        Ok(CommandView::Help)
    } else if args.len() > 0 && args[0] != "repl"@ {
        Err(AgentErrorView::Model("unsupported command: "@ + args[0] + ". expected: repl"@))
    } else {
        let rest = if args.len() > 0 {
            args.skip(1)
        } else {
            args
        };
        match flags_read(rest, defaults) {
            Err(e) => Err(e),
            Ok(None) => Ok(CommandView::Help),
            Ok(Some(settings)) => if settings.model.len() == 0 {
                Err(AgentErrorView::Model("missing --model or LITE_AGENT_MODEL"@))
            } else if settings.api_key.len() == 0 {
                Err(AgentErrorView::Model("missing --api-key or LITE_AGENT_API_KEY"@))
            } else if settings.reasoning_effort.len() == 0 {
                Ok(
                    CommandView::Repl(
                        ReplArgsView { reasoning_effort: default_effort, ..settings },
                    ),
                )
            } else {
                Ok(CommandView::Repl(settings))
            },
        }
    }
}

/// Reads the flags of a command line from a place on.
fn read_flags(args: &Vec<String>, from: usize, defaults: ReplArgs) -> (r: Result<
    Option<ReplArgs>,
    AgentError,
>)
    requires
        from <= args@.len(),
    ensures
        match flags_read(views::all(args@).skip(from as int), defaults@) {
            Ok(found) => r matches Ok(settings) && views::opt(settings) == found,
            Err(e) => r matches Err(error) && error@ == e,
        },
{
    let ghost all = views::all(args@);
    let ghost wanted = flags_read(all.skip(from as int), defaults@);
    let mut settings = defaults;
    let mut i: usize = from;
    while i < args.len()
        invariant
            i <= args@.len(),
            all == views::all(args@),
            flags_read(all.skip(i as int), settings@) == wanted,
            wanted == flags_read(all.skip(from as int), defaults@),
        decreases args@.len() - i,
    {
        let ghost left = all.skip(i as int);
        let flag = args[i].as_str();
        assert(left[0] == flag@);
        let given = if args.len() - i > 1 {
            assert(left[1] == args@[i + 1]@);
            assert(left.skip(2) =~= all.skip(i + 2));
            Some(args[i + 1].clone())
        } else {
            assert(all.skip(i + 1) =~= Seq::<Seq<char>>::empty());
            None
        };
        let value = match &given {
            Some(text) => text.clone(),
            None => {
                let nothing = String::new();
                assert(nothing@ =~= Seq::<char>::empty());
                nothing
            },
        };
        let step: usize = if args.len() - i > 1 {
            2
        } else {
            1
        };
        if text_eq(flag, "--thread") {
            settings.thread = given;
        } else if text_eq(flag, "--state-dir") {
            settings.state_dir = value;
        } else if text_eq(flag, "--model") {
            settings.model = value;
        } else if text_eq(flag, "--base-url") {
            settings.base_url = value;
        } else if text_eq(flag, "--api-key") {
            settings.api_key = value;
        } else if text_eq(flag, "--reasoning-effort") {
            settings.reasoning_effort = value;
        } else if text_eq(flag, "--command-cwd") {
            settings.command_cwd = value;
        } else if text_eq(flag, "--help") || text_eq(flag, "-h") {
            return Ok(None);
        } else {
            return Err(AgentError::Model(joined("unknown argument: ", flag)));
        }
        i = i + step;
    }
    assert(all.skip(i as int).len() == 0);
    Ok(Some(settings))
}

/// What a command line asks for. `defaults` is what the environment says, and
/// `default_effort` stands in for an effort that is empty.
pub fn parse_args(args: &Vec<String>, defaults: ReplArgs, default_effort: String) -> (r: Result<
    Command,
    AgentError,
>)
    ensures
        views::res(r) == command_read(views::all(args@), defaults@, default_effort@),
{
    let ghost all = views::all(args@);
    let mut from: usize = 0;
    assert(all.skip(0) =~= all);
    if args.len() > 0 {
        let first = args[0].as_str();
        assert(first@ == all[0]);
        if text_eq(first, "--help") || text_eq(first, "-h") {
            return Ok(Command::Help);
        }
        if !text_eq(first, "repl") {
            let mut words = joined("unsupported command: ", first);
            words.append(". expected: repl");
            return Err(AgentError::Model(words));
        }
        from = 1;
    }
    match read_flags(args, from, defaults) {
        Err(error) => Err(error),
        Ok(None) => Ok(Command::Help),
        Ok(Some(settings)) => {
            let mut settings = settings;
            if settings.model.as_str().unicode_len() == 0 {
                return Err(AgentError::Model("missing --model or LITE_AGENT_MODEL".to_string()));
            }
            if settings.api_key.as_str().unicode_len() == 0 {
                return Err(
                    AgentError::Model("missing --api-key or LITE_AGENT_API_KEY".to_string()),
                );
            }
            if settings.reasoning_effort.as_str().unicode_len() == 0 {
                settings.reasoning_effort = default_effort;
            }
            Ok(Command::Repl(settings))
        },
    }
}

/// How the program is called.
pub fn help_text() -> (r: &'static str)
    ensures
        r@
            == "usage: lite-agent-repl repl [--thread ID] [--state-dir PATH] [--model NAME] [--base-url URL] [--api-key KEY] [--reasoning-effort VALUE] [--command-cwd PATH]"@,
{
    "usage: lite-agent-repl repl [--thread ID] [--state-dir PATH] [--model NAME] [--base-url URL] [--api-key KEY] [--reasoning-effort VALUE] [--command-cwd PATH]"
}

/// How many characters of an output are shown to the model.
pub const MAX_CHARS: usize = 20000;

/// The output, cut off where it is too long.
pub open spec fn shortened(output: Seq<char>) -> Seq<char> {
    if output.len() <= MAX_CHARS {
        output
    } else {
        output.take(MAX_CHARS as int) + "\n...[truncated]"@
    }
}

/// The output, cut off where it is too long.
pub fn truncate_output(output: &str) -> (r: String)
    ensures
        r@ == shortened(output@),
{
    let chars = chars_of(output);
    if chars.len() <= MAX_CHARS {
        return output.to_string();
    }
    let mut kept = text_of(&chars, 0, MAX_CHARS);
    assert(chars@.subrange(0, MAX_CHARS as int) =~= output@.take(MAX_CHARS as int));
    kept.append("\n...[truncated]");
    kept
}

/// What was printed of a turn so far.
#[derive(Debug, Clone, Copy, PartialEq, Eq, Structural)]
pub struct StreamRenderState {
    /// Whether the assistant has said something.
    pub assistant_started: bool,
    /// Whether the last line is not finished.
    pub line_open: bool,
}

impl Default for StreamRenderState {
    fn default() -> (r: Self)
        ensures
            r == (StreamRenderState { assistant_started: false, line_open: false }),
    {
        StreamRenderState { assistant_started: false, line_open: false }
    }
}

/// A line of its own: what was said before it ends first.
pub open spec fn own_line(state: StreamRenderState, line: Seq<char>) -> Seq<char> {
    (if state.line_open {
        "\n"@
    } else {
        Seq::empty()
    }) + line + "\n"@
}

/// Lines for the calls that the model asks for.
pub open spec fn call_lines(calls: Seq<ModelFunctionCallView>) -> Seq<char>
    decreases calls.len(),
{
    if calls.len() == 0 {
        Seq::empty()
    } else {
        call_lines(calls.drop_last()) + "[function requested] "@ + calls.last().name + " "@
            + json::json_text(calls.last().arguments) + "\n"@
    }
}

/// The line that is printed for a change of the turn, if there is one.
pub open spec fn state_line(event: TurnStateEventView) -> Option<Seq<char>> {
    match event {
        TurnStateEventView::TurnStarted { thread_id, turn_id } => Some(
            "[turn started] "@ + turn_id,
        ),
        TurnStateEventView::FunctionStarted { call_id, name } => Some(
            "[function started] "@ + name + " ("@ + call_id + ")"@,
        ),
        TurnStateEventView::FunctionCompleted { call_id, name } => Some(
            "[function completed] "@ + name + " ("@ + call_id + ")"@,
        ),
        TurnStateEventView::FunctionFailed { call_id, name, error } => Some(
            "[function failed] "@ + name + " ("@ + call_id + "): "@ + error,
        ),
        TurnStateEventView::Suspended { suspension } => Some(
            "[waiting for user] "@ + prompt_in(suspension),
        ),
        TurnStateEventView::TurnFailed { error } => Some("[turn failed] "@ + error),
        TurnStateEventView::TurnAborted { reason } => Some("[turn aborted] "@ + reason),
        _ => None,
    }
}

/// The question of a suspension; empty where it asks none.
pub open spec fn prompt_in(suspension: SuspensionView) -> Seq<char> {
    match json::text_field(suspension.payload, "prompt"@) {
        Some(prompt) => prompt,
        None => Seq::empty(),
    }
}

/// What is printed for an event.
pub open spec fn rendered(state: StreamRenderState, event: TurnStreamEventView) -> Seq<char> {
    match event {
        TurnStreamEventView::State(TurnStateEventView::FunctionCallsRequested { calls }) => {
            if calls.len() == 0 {
                Seq::empty()
            } else {
                (if state.line_open {
                    "\n"@
                } else {
                    Seq::empty()
                }) + call_lines(calls)
            }
        },
        TurnStreamEventView::State(change) => match state_line(change) {
            Some(line) => own_line(state, line),
            None => Seq::empty(),
        },
        TurnStreamEventView::Model(TurnModelEventView::RequestStarted { iteration }) => own_line(
            state,
            "[model] iteration "@ + text::decimal(iteration as nat),
        ),
        TurnStreamEventView::Model(TurnModelEventView::AssistantDelta { text }) => text,
        TurnStreamEventView::Model(TurnModelEventView::AssistantMessage { text }) => Seq::empty(),
        TurnStreamEventView::Runtime(event) => own_line(
            state,
            "["@ + event.source + "] "@ + event.message,
        ),
    }
}

/// What was printed after an event.
pub open spec fn state_after(
    state: StreamRenderState,
    event: TurnStreamEventView,
) -> StreamRenderState {
    let line_printed = StreamRenderState { line_open: false, ..state };
    match event {
        TurnStreamEventView::State(TurnStateEventView::FunctionCallsRequested { calls }) => {
            if calls.len() == 0 {
                state
            } else {
                line_printed
            }
        },
        TurnStreamEventView::State(change) => if state_line(change) is Some {
            line_printed
        } else {
            state
        },
        TurnStreamEventView::Model(TurnModelEventView::RequestStarted { iteration }) => {
            line_printed
        },
        TurnStreamEventView::Model(TurnModelEventView::AssistantDelta { text }) => {
            if text.len() == 0 {
                state
            } else {
                StreamRenderState { assistant_started: true, line_open: text.last() != '\n' }
            }
        },
        TurnStreamEventView::Model(TurnModelEventView::AssistantMessage { text }) => state,
        TurnStreamEventView::Runtime(event) => line_printed,
    }
}

/// Prints a line of its own.
fn print_process_line(state: &mut StreamRenderState, line: &str) -> (r: String)
    ensures
        r@ == own_line(*old(state), line@),
        *final(state) == (StreamRenderState { line_open: false, ..*old(state) }),
{
    let mut out = String::new();
    assert(out@ =~= Seq::<char>::empty());
    if state.line_open {
        out.append("\n");
        state.line_open = false;
    }
    assert(out@ =~= (if old(state).line_open {
        "\n"@
    } else {
        Seq::empty()
    }));
    out.append(line);
    out.append("\n");
    out
}

fn render_calls(state: &mut StreamRenderState, calls: &Vec<ModelFunctionCall>) -> (r: String)
    ensures
        ({
            let event = TurnStreamEventView::State(
                TurnStateEventView::FunctionCallsRequested { calls: views::all(calls@) },
            );
            &&& r@ == rendered(*old(state), event)
            &&& *final(state) == state_after(*old(state), event)
        }),
{
    let ghost all = views::all(calls@);
    let ghost start = if state.line_open {
        "\n"@
    } else {
        Seq::<char>::empty()
    };
    let ghost before = *state;
    let mut out = String::new();
    assert(out@ =~= Seq::<char>::empty());
    let mut i: usize = 0;
    assert(all.take(0) =~= Seq::<ModelFunctionCallView>::empty());
    while i < calls.len()
        invariant
            i <= calls@.len(),
            all == views::all(calls@),
            start == if before.line_open {
                "\n"@
            } else {
                Seq::<char>::empty()
            },
            i == 0 ==> out@ == Seq::<char>::empty() && *state == before,
            i > 0 ==> out@ == start + call_lines(all.take(i as int)) && *state == (
            StreamRenderState { line_open: false, ..before }),
        decreases calls@.len() - i,
    {
        let ghost sofar = out@;
        let ghost lines = call_lines(all.take(i as int));
        assert(all.take(i + 1).drop_last() =~= all.take(i as int));
        assert(all.take(i + 1).last() == calls@[i as int]@);
        let mut line = joined("[function requested] ", calls[i].name.as_str());
        line.append(" ");
        line.append(value_text(&calls[i].arguments).as_str());
        let printed = print_process_line(state, line.as_str());
        out.append(printed.as_str());
        proof {
            if i == 0 {
                assert(all.take(0) =~= Seq::<ModelFunctionCallView>::empty());
                assert(lines =~= Seq::<char>::empty());
            }
            assert(out@ =~= start + (lines + "[function requested] "@ + calls@[i as int]@.name
                + " "@ + json::json_text(calls@[i as int]@.arguments) + "\n"@));
        }
        i = i + 1;
    }
    assert(all.take(i as int) =~= all);
    out
}

/// The line that is printed for a change of the turn, if there is one.
fn line_for(event: &TurnStateEvent) -> (r: Option<String>)
    ensures
        views::opt(r) == state_line(event@),
{
    match event {
        TurnStateEvent::TurnStarted { thread_id: _, turn_id } => Some(
            joined("[turn started] ", turn_id.as_str()),
        ),
        TurnStateEvent::FunctionStarted { call_id, name } => {
            let mut line = joined("[function started] ", name.as_str());
            line.append(" (");
            line.append(call_id.as_str());
            line.append(")");
            Some(line)
        },
        TurnStateEvent::FunctionCompleted { call_id, name } => {
            let mut line = joined("[function completed] ", name.as_str());
            line.append(" (");
            line.append(call_id.as_str());
            line.append(")");
            Some(line)
        },
        TurnStateEvent::FunctionFailed { call_id, name, error } => {
            let mut line = joined("[function failed] ", name.as_str());
            line.append(" (");
            line.append(call_id.as_str());
            line.append("): ");
            line.append(error.as_str());
            Some(line)
        },
        TurnStateEvent::Suspended { suspension } => Some(
            joined("[waiting for user] ", prompt_of(suspension).as_str()),
        ),
        TurnStateEvent::TurnFailed { error } => Some(joined("[turn failed] ", error.as_str())),
        TurnStateEvent::TurnAborted { reason } => Some(joined("[turn aborted] ", reason.as_str())),
        _ => None,
    }
}

/// The question of a suspension; empty where it asks none.
pub fn prompt_of(suspension: &Suspension) -> (r: String)
    ensures
        r@ == prompt_in(suspension@),
{
    match get_text(&suspension.payload, "prompt") {
        Some(prompt) => prompt,
        None => {
            let nothing = String::new();
            assert(nothing@ =~= Seq::<char>::empty());
            nothing
        },
    }
}

/// What is printed for an event.
pub fn print_stream_event(event: &TurnStreamEvent, state: &mut StreamRenderState) -> (r: String)
    ensures
        r@ == rendered(*old(state), event@),
        *final(state) == state_after(*old(state), event@),
{
    match event {
        TurnStreamEvent::State(TurnStateEvent::FunctionCallsRequested { calls }) => render_calls(
            state,
            calls,
        ),
        TurnStreamEvent::State(change) => match line_for(change) {
            Some(line) => print_process_line(state, line.as_str()),
            None => {
                let nothing = String::new();
                assert(nothing@ =~= Seq::<char>::empty());
                nothing
            },
        },
        TurnStreamEvent::Model(TurnModelEvent::RequestStarted { iteration }) => {
            let line = joined("[model] iteration ", decimal_text(*iteration as u128).as_str());
            print_process_line(state, line.as_str())
        },
        TurnStreamEvent::Model(TurnModelEvent::AssistantDelta { text }) => {
            let n = text.as_str().unicode_len();
            if n > 0 {
                state.assistant_started = true;
                state.line_open = text.as_str().get_char(n - 1) != '\n';
            }
            text.clone()
        },
        TurnStreamEvent::Model(TurnModelEvent::AssistantMessage { text: _ }) => {
            let nothing = String::new();
            assert(nothing@ =~= Seq::<char>::empty());
            nothing
        },
        TurnStreamEvent::Runtime(event) => {
            let mut line = joined("[", event.source.as_str());
            line.append("] ");
            line.append(event.message.as_str());
            print_process_line(state, line.as_str())
        },
    }
}

/// What a line that was typed stands for.
pub open spec fn line_meaning(line: Seq<char>) -> ReplInputView {
    let input = text::trimmed(line);
    let word = input.map_values(|c: char| text::lower(c));
    if word == "/exit"@ || word == "/quit"@ {
        ReplInputView::Exit
    } else if input.len() == 0 {
        ReplInputView::Nothing
    } else {
        ReplInputView::Prompt(input)
    }
}

/// What a line that was typed stands for.
pub fn read_line(line: &str) -> (r: ReplInput)
    ensures
        r@ == line_meaning(line@),
{
    let input = trim(line);
    let word = lower_ascii(input.as_str());
    if text_eq(word.as_str(), "/exit") || text_eq(word.as_str(), "/quit") {
        ReplInput::Exit
    } else if input.as_str().unicode_len() == 0 {
        ReplInput::Nothing
    } else {
        ReplInput::Prompt(input)
    }
}

/// What is printed at the end of a turn.
pub open spec fn farewell(state: StreamRenderState, outcome: TurnOutcomeView) -> Seq<char> {
    match outcome {
        TurnOutcomeView::AssistantMessage { text } => if !state.assistant_started {
            text + "\n"@
        } else if state.line_open {
            "\n"@
        } else {
            Seq::empty()
        },
        TurnOutcomeView::Suspended { suspension } => prompt_in(suspension) + "\n"@,
        TurnOutcomeView::Failed { error } => "turn failed: "@ + error + "\n"@,
        TurnOutcomeView::Aborted { reason } => Seq::empty(),
    }
}

/// What is printed at the end of a turn.
pub fn print_outcome(outcome: &TurnOutcome, state: &StreamRenderState) -> (r: String)
    ensures
        r@ == farewell(*state, outcome@),
{
    let mut out = String::new();
    assert(out@ =~= Seq::<char>::empty());
    match outcome {
        TurnOutcome::AssistantMessage { text } => {
            if !state.assistant_started {
                return joined(text.as_str(), "\n");
            } else if state.line_open {
                return "\n".to_string();
            }
        },
        TurnOutcome::Suspended { suspension } => {
            return joined(prompt_of(suspension).as_str(), "\n");
        },
        TurnOutcome::Failed { error } => {
            out = joined("turn failed: ", error.as_str());
            out.append("\n");
        },
        TurnOutcome::Aborted { reason: _ } => {},
    }
    out
}

/// The output of a command that a shell ran.
pub open spec fn shell_content(
    cwd: Seq<char>,
    cmd: Seq<char>,
    exit_code: Option<i32>,
    success: bool,
    stdout: Seq<u8>,
    stderr: Seq<u8>,
) -> Json {
    Json::Fields(
        Map::<Seq<char>, Json>::empty().insert("cwd"@, Json::Text(cwd)).insert(
            "cmd"@,
            Json::Text(cmd),
        ).insert(
            "exit_code"@,
            match exit_code {
                Some(code) => Json::Int(code as int),
                None => Json::Null,
            },
        ).insert("success"@, Json::Bool(success)).insert(
            "stdout"@,
            Json::Text(shortened(text::lossy_text(stdout))),
        ).insert("stderr"@, Json::Text(shortened(text::lossy_text(stderr)))),
    )
}

/// The output of a command that a shell ran.
pub fn shell_output(
    cwd: &str,
    cmd: &str,
    exit_code: Option<i32>,
    success: bool,
    stdout: &Vec<u8>,
    stderr: &Vec<u8>,
) -> (r: Value)
    ensures
        json::of(r) == shell_content(cwd@, cmd@, exit_code, success, stdout@, stderr@),
{
    let code = match exit_code {
        Some(code) => int_value(code as i64),
        None => null_value(),
    };
    let out = truncate_output(lossy_text_of(stdout.as_slice()).as_str());
    let err = truncate_output(lossy_text_of(stderr.as_slice()).as_str());
    Fields::new().with_text("cwd", cwd).with_text("cmd", cmd).with("exit_code", code).with_bool(
        "success",
        success,
    ).with_text("stdout", out.as_str()).with_text("stderr", err.as_str()).value()
}

/// The command and the time limit in milliseconds that arguments ask for.
pub open spec fn shell_request(arguments: Json) -> Result<(Seq<char>, u64), AgentErrorView> {
    match json::text_field(arguments, "cmd"@) {
        None => Err(
            AgentErrorView::InvalidFunctionArguments {
                name: "exec_command"@,
                message: "missing string field: cmd"@,
            },
        ),
        Some(cmd) => Ok(
            (
                cmd,
                match json::u64_field(arguments, "timeout_ms"@) {
                    Some(n) => n as u64,
                    None => 30000,
                },
            ),
        ),
    }
}

/// A property of the shell's arguments, as a schema.
pub open spec fn described(kind: Seq<char>, description: Seq<char>) -> Json {
    Json::Fields(
        Map::<Seq<char>, Json>::empty().insert("type"@, Json::Text(kind)).insert(
            "description"@,
            Json::Text(description),
        ),
    )
}

/// How the shell is offered to a model.
pub open spec fn shell_view() -> FunctionSpecView {
    FunctionSpecView {
        name: "exec_command"@,
        description: "Run a shell command for local project testing. Use it for multi-step tasks such as listing directories, creating files, and writing markdown inside the configured working directory."@,
        parameters: functions::object_schema(
            functions::json_texts(seq!["cmd"@]),
            Map::<Seq<char>, Json>::empty().insert(
                "cmd"@,
                described("string"@, "Shell command to run."@),
            ).insert(
                "timeout_ms"@,
                described(
                    "integer"@,
                    "Optional timeout in milliseconds. Defaults to 30000."@,
                ),
            ),
        ),
    }
}

/// How the shell is offered to a model.
pub fn shell_spec() -> (r: FunctionSpec)
    ensures
        r@ == shell_view(),
{
    let mut required: Vec<String> = Vec::new();
    required.push("cmd".to_string());
    assert(required@.map_values(|t: String| Json::Text(t@)) =~= functions::json_texts(
        seq!["cmd"@],
    ));
    let cmd = Fields::new().with_text("type", "string").with_text(
        "description",
        "Shell command to run.",
    ).value();
    let timeout_ms = Fields::new().with_text("type", "integer").with_text(
        "description",
        "Optional timeout in milliseconds. Defaults to 30000.",
    ).value();
    let properties = Fields::new().with("cmd", cmd).with("timeout_ms", timeout_ms).value();
    FunctionSpec {
        name: "exec_command".to_string(),
        description: "Run a shell command for local project testing. Use it for multi-step tasks such as listing directories, creating files, and writing markdown inside the configured working directory.".to_string(),
        parameters: Fields::new().with_text("type", "object").with(
            "required",
            text_list(&required),
        ).with("properties", properties).with_bool("additionalProperties", false).value(),
    }
}

/// The command and the time limit in milliseconds that arguments ask for.
pub fn read_shell_request(arguments: &Value) -> (r: Result<(String, u64), AgentError>)
    ensures
        match shell_request(json::of(*arguments)) {
            Ok(asked) => r matches Ok(found) && found.0@ == asked.0 && found.1 == asked.1,
            Err(e) => r matches Err(error) && error@ == e,
        },
{
    match get_text(arguments, "cmd") {
        None => Err(
            AgentError::InvalidFunctionArguments {
                name: "exec_command".to_string(),
                message: "missing string field: cmd".to_string(),
            },
        ),
        Some(cmd) => {
            let timeout_ms: u64 = match get_u64(arguments, "timeout_ms") {
                Some(n) => n,
                None => 30000,
            };
            Ok((cmd, timeout_ms))
        },
    }
}

/// The error of a command that took too long.
pub fn shell_timeout(timeout_ms: u64) -> (r: AgentError)
    ensures
        r@ == (AgentErrorView::Function {
            name: "exec_command"@,
            message: "command timed out after "@ + text::decimal(timeout_ms as nat) + "ms"@,
        }),
{
    let mut message = joined("command timed out after ", decimal_text(timeout_ms as u128).as_str());
    message.append("ms");
    AgentError::Function { name: "exec_command".to_string(), message }
}

/// The line that sums up the tokens of a thread, or that of a thread that was
/// never stored.
pub fn usage_line(usage: Option<&TokenUsage>) -> (r: String)
    ensures
        r@ == match usage {
            Some(usage) => "[thread tokens] "@ + events::usage_words(*usage),
            None => "[thread tokens] input=0, cached_input=0, output=0, total=0"@,
        },
{
    match usage {
        Some(usage) => joined("[thread tokens] ", usage.message().as_str()),
        None => "[thread tokens] input=0, cached_input=0, output=0, total=0".to_string(),
    }
}

/// What is shown of an output is never much longer than the limit, and a short
/// output is shown whole.
pub proof fn law_shortened_is_bounded(output: Seq<char>)
    ensures
        shortened(output).len() <= MAX_CHARS + 15,
        output.len() <= MAX_CHARS ==> shortened(output) == output,
{
    reveal_strlit("\n...[truncated]");
}

} // verus!
