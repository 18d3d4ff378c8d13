//! What the program that talks to an agent takes from its user, and what it shows.
use crate::error::AgentErrorView;
use crate::json::{self, Json};
use crate::kernel::events::SuspensionView;
use crate::kernel::model::ModelFunctionCallView;
use crate::repl::{self, CommandView, ReplArgsView, ReplInputView, StreamRenderState};
use crate::runtime::agent_loop::{
    RuntimeEventView, TurnModelEventView, TurnOutcomeView, TurnStateEventView, TurnStreamEventView,
};
use crate::text;
use vstd::prelude::*;

verus! {

// ---------------------------------------------------------------------------
// The command line

/// A flag sets its own setting to the argument after it and nothing else, and what
/// follows is read after that: a later flag wins. A flag at the very end sets its
/// setting to nothing. Help ends the reading, and any other argument is named in
/// the error.
pub proof fn law_flag_sets_its_own(
    flag: Seq<char>,
    value: Seq<char>,
    rest: Seq<Seq<char>>,
    so_far: ReplArgsView,
)
    ensures
        repl::flags_read(Seq::empty(), so_far) == Ok::<Option<ReplArgsView>, AgentErrorView>(
            Some(so_far),
        ),
        known(flag) ==> {
            let set = with_setting(so_far, flag, Some(value));
            &&& repl::flags_read(seq![flag, value] + rest, so_far) == repl::flags_read(rest, set)
            &&& repl::flags_read(seq![flag], so_far) == Ok::<Option<ReplArgsView>, AgentErrorView>(
                Some(with_setting(so_far, flag, None)),
            )
        },
        flag == "--help"@ || flag == "-h"@ ==> repl::flags_read(seq![flag] + rest, so_far) == Ok::<
            Option<ReplArgsView>,
            AgentErrorView,
        >(None),
        !known(flag) && flag != "--help"@ && flag != "-h"@ ==> repl::flags_read(
            seq![flag] + rest,
            so_far,
        ) == Err::<Option<ReplArgsView>, AgentErrorView>(
            AgentErrorView::Model("unknown argument: "@ + flag),
        ),
{
    lemma_flags_differ();
    let pair = seq![flag, value] + rest;
    assert(pair[0] == flag && pair[1] == value);
    assert(pair.skip(2) =~= rest);
    let one = seq![flag] + rest;
    assert(one[0] == flag);
    assert(repl::flags_read(Seq::empty(), with_setting(so_far, flag, None)) == Ok::<
        Option<ReplArgsView>,
        AgentErrorView,
    >(Some(with_setting(so_far, flag, None))));
}

/// Whether an argument is a flag that takes a value.
pub open spec fn known(flag: Seq<char>) -> bool {
    ||| flag == "--thread"@
    ||| flag == "--state-dir"@
    ||| flag == "--model"@
    ||| flag == "--base-url"@
    ||| flag == "--api-key"@
    ||| flag == "--reasoning-effort"@
    ||| flag == "--command-cwd"@
}

/// The settings with the one that a flag is for, and all else as it was.
pub open spec fn with_setting(
    so_far: ReplArgsView,
    flag: Seq<char>,
    given: Option<Seq<char>>,
) -> ReplArgsView {
    let value = match given {
        Some(value) => value,
        None => Seq::empty(),
    };
    ReplArgsView {
        thread: if flag == "--thread"@ {
            given
        } else {
            so_far.thread
        },
        state_dir: if flag == "--state-dir"@ {
            value
        } else {
            so_far.state_dir
        },
        model: if flag == "--model"@ {
            value
        } else {
            so_far.model
        },
        base_url: if flag == "--base-url"@ {
            value
        } else {
            so_far.base_url
        },
        api_key: if flag == "--api-key"@ {
            value
        } else {
            so_far.api_key
        },
        reasoning_effort: if flag == "--reasoning-effort"@ {
            value
        } else {
            so_far.reasoning_effort
        },
        command_cwd: if flag == "--command-cwd"@ {
            value
        } else {
            so_far.command_cwd
        },
    }
}

proof fn lemma_flags_differ()
    ensures
        "--thread"@.len() == 8,
        "--state-dir"@.len() == 11,
        "--model"@.len() == 7,
        "--base-url"@.len() == 10,
        "--api-key"@.len() == 9,
        "--reasoning-effort"@.len() == 18,
        "--command-cwd"@.len() == 13,
        "--help"@.len() == 6,
        "-h"@.len() == 2,
        "repl"@.len() == 4,
{
    reveal_strlit("--thread");
    reveal_strlit("--state-dir");
    reveal_strlit("--model");
    reveal_strlit("--base-url");
    reveal_strlit("--api-key");
    reveal_strlit("--reasoning-effort");
    reveal_strlit("--command-cwd");
    reveal_strlit("--help");
    reveal_strlit("-h");
    reveal_strlit("repl");
}

/// A command line runs the program with what its flags set on top of the defaults:
/// there must be a model and a key, and an effort that was left empty is the
/// default one. The first argument can ask for help and is otherwise the command,
/// of which there is one.
pub proof fn law_command_line(
    flags: Seq<Seq<char>>,
    word: Seq<char>,
    defaults: ReplArgsView,
    effort: Seq<char>,
)
    ensures
        repl::command_read(Seq::empty(), defaults, effort) == repl::command_read(
            seq!["repl"@],
            defaults,
            effort,
        ),
        word == "--help"@ || word == "-h"@ ==> repl::command_read(
            seq![word] + flags,
            defaults,
            effort,
        ) == Ok::<CommandView, AgentErrorView>(CommandView::Help),
        word != "--help"@ && word != "-h"@ && word != "repl"@ ==> repl::command_read(
            seq![word] + flags,
            defaults,
            effort,
        ) == Err::<CommandView, AgentErrorView>(
            AgentErrorView::Model("unsupported command: "@ + word + ". expected: repl"@),
        ),
        match repl::flags_read(flags, defaults) {
            Err(e) => repl::command_read(seq!["repl"@] + flags, defaults, effort) == Err::<
                CommandView,
                AgentErrorView,
            >(e),
            Ok(None) => repl::command_read(seq!["repl"@] + flags, defaults, effort) == Ok::<
                CommandView,
                AgentErrorView,
            >(CommandView::Help),
            Ok(Some(set)) => match repl::command_read(seq!["repl"@] + flags, defaults, effort) {
                Err(e) => {
                    ||| set.model.len() == 0 && e == AgentErrorView::Model(
                        "missing --model or LITE_AGENT_MODEL"@,
                    )
                    ||| set.model.len() > 0 && set.api_key.len() == 0 && e == AgentErrorView::Model(
                        "missing --api-key or LITE_AGENT_API_KEY"@,
                    )
                },
                Ok(CommandView::Help) => false,
                Ok(CommandView::Repl(run)) => {
                    &&& set.model.len() > 0
                    &&& set.api_key.len() > 0
                    &&& run.thread == set.thread
                    &&& run.state_dir == set.state_dir
                    &&& run.model == set.model
                    &&& run.base_url == set.base_url
                    &&& run.api_key == set.api_key
                    &&& run.command_cwd == set.command_cwd
                    &&& run.reasoning_effort == if set.reasoning_effort.len() == 0 {
                        effort
                    } else {
                        set.reasoning_effort
                    }
                },
            },
        },
{
    lemma_flags_differ();
    assert((seq!["repl"@] + flags).skip(1) =~= flags);
    assert(seq!["repl"@].skip(1) =~= Seq::<Seq<char>>::empty());
    assert((seq![word] + flags)[0] == word);
    assert((seq!["repl"@] + flags)[0] == "repl"@);
}

// ---------------------------------------------------------------------------
// What is typed

/// Whether a text is one of the words that end the program, in capitals or not.
pub open spec fn ends_program(word: Seq<char>) -> bool {
    same_letters(word, "/exit"@) || same_letters(word, "/quit"@)
}

/// Whether two texts are the same but for capitals.
pub open spec fn same_letters(a: Seq<char>, b: Seq<char>) -> bool {
    &&& a.len() == b.len()
    &&& forall|i: int| 0 <= i < a.len() ==> text::lower(#[trigger] a[i]) == b[i]
}

/// A line is what is typed without white space around it: one of the two words that
/// end the program ends it, an empty line is nothing, and any other text is what is
/// asked, as it was typed.
pub proof fn law_line_is_what_was_typed(line: Seq<char>)
    ensures
        ({
            let typed = text::trimmed(line);
            match repl::line_meaning(line) {
                ReplInputView::Exit => ends_program(typed),
                ReplInputView::Nothing => typed.len() == 0,
                ReplInputView::Prompt(asked) => asked == typed && typed.len() > 0 && !ends_program(
                    typed,
                ),
            }
        }),
{
    let typed = text::trimmed(line);
    let word = typed.map_values(|c: char| text::lower(c));
    if same_letters(typed, "/exit"@) {
        assert(word =~= "/exit"@);
    }
    if same_letters(typed, "/quit"@) {
        assert(word =~= "/quit"@);
    }
    if word == "/exit"@ {
        assert(same_letters(typed, "/exit"@)) by {
            assert forall|i: int| 0 <= i < typed.len() implies text::lower(#[trigger] typed[i])
                == "/exit"@[i] by {
                assert(word[i] == text::lower(typed[i]));
            }
        }
    }
    if word == "/quit"@ {
        assert(same_letters(typed, "/quit"@)) by {
            assert forall|i: int| 0 <= i < typed.len() implies text::lower(#[trigger] typed[i])
                == "/quit"@[i] by {
                assert(word[i] == text::lower(typed[i]));
            }
        }
    }
    reveal_strlit("/exit");
    reveal_strlit("/quit");
}

// ---------------------------------------------------------------------------
// What is shown

/// After an event it is known whether the last line is unfinished: it is, exactly
/// where the last character that was printed does not end a line. An event that
/// prints nothing changes nothing.
pub proof fn law_open_line_is_known(state: StreamRenderState, event: TurnStreamEventView)
    ensures
        repl::rendered(state, event).len() == 0 ==> repl::state_after(state, event) == state,
        repl::rendered(state, event).len() > 0 ==> (repl::state_after(state, event).line_open <==>
            repl::rendered(state, event).last() != '\n'),
        repl::state_after(state, event).assistant_started <==> (state.assistant_started || (
        event matches TurnStreamEventView::Model(TurnModelEventView::AssistantDelta { text })
            && text.len() > 0)),
{
    reveal_strlit("\n");
    if let TurnStreamEventView::State(TurnStateEventView::FunctionCallsRequested { calls }) =
        event {
        if calls.len() > 0 {
            lemma_call_lines_end(calls);
        }
    }
}

proof fn lemma_call_lines_end(calls: Seq<ModelFunctionCallView>)
    requires
        calls.len() > 0,
    ensures
        repl::call_lines(calls).len() > 0,
        repl::call_lines(calls).last() == '\n',
{
    reveal_strlit("\n");
}

/// What is printed for an event that is not said by the assistant is a line of its
/// own: a line that is unfinished ends first.
pub open spec fn prints_line(
    state: StreamRenderState,
    event: TurnStreamEventView,
    line: Seq<char>,
) -> bool {
    repl::rendered(state, event) =~= if state.line_open {
        seq!['\n'] + line + seq!['\n']
    } else {
        line + seq!['\n']
    }
}

/// The user is shown what the model says as it comes and once only, and a line for
/// each thing that happens: what it is, of which function and call, and with what
/// error or question.
pub proof fn law_user_is_shown_what_happens(
    state: StreamRenderState,
    a: Seq<char>,
    b: Seq<char>,
    c: Seq<char>,
    iteration: usize,
    suspension: SuspensionView,
    note: RuntimeEventView,
    calls: Seq<ModelFunctionCallView>,
    call: ModelFunctionCallView,
)
    ensures
        repl::rendered(
            state,
            TurnStreamEventView::Model(TurnModelEventView::AssistantDelta { text: a }),
        ) == a,
        repl::rendered(
            state,
            TurnStreamEventView::Model(TurnModelEventView::AssistantMessage { text: a }),
        ).len() == 0,
        prints_line(
            state,
            TurnStreamEventView::Model(TurnModelEventView::RequestStarted { iteration }),
            "[model] iteration "@ + text::decimal(iteration as nat),
        ),
        prints_line(
            state,
            TurnStreamEventView::State(
                TurnStateEventView::TurnStarted { thread_id: a, turn_id: b },
            ),
            "[turn started] "@ + b,
        ),
        prints_line(
            state,
            TurnStreamEventView::State(TurnStateEventView::FunctionStarted { call_id: a, name: b }),
            "[function started] "@ + b + " ("@ + a + ")"@,
        ),
        prints_line(
            state,
            TurnStreamEventView::State(
                TurnStateEventView::FunctionCompleted { call_id: a, name: b },
            ),
            "[function completed] "@ + b + " ("@ + a + ")"@,
        ),
        prints_line(
            state,
            TurnStreamEventView::State(
                TurnStateEventView::FunctionFailed { call_id: a, name: b, error: c },
            ),
            "[function failed] "@ + b + " ("@ + a + "): "@ + c,
        ),
        prints_line(
            state,
            TurnStreamEventView::State(TurnStateEventView::Suspended { suspension }),
            "[waiting for user] "@ + asked_in(suspension),
        ),
        prints_line(
            state,
            TurnStreamEventView::State(TurnStateEventView::TurnFailed { error: a }),
            "[turn failed] "@ + a,
        ),
        prints_line(
            state,
            TurnStreamEventView::State(TurnStateEventView::TurnAborted { reason: a }),
            "[turn aborted] "@ + a,
        ),
        prints_line(
            state,
            TurnStreamEventView::Runtime(note),
            "["@ + note.source + "] "@ + note.message,
        ),
        repl::rendered(
            state,
            TurnStreamEventView::State(
                TurnStateEventView::FunctionCallsRequested { calls: Seq::empty() },
            ),
        ).len() == 0,
        repl::rendered(
            state,
            TurnStreamEventView::State(
                TurnStateEventView::FunctionCallsRequested { calls: calls.push(call) },
            ),
        ) =~= (if calls.len() > 0 {
            repl::rendered(
                state,
                TurnStreamEventView::State(TurnStateEventView::FunctionCallsRequested { calls }),
            )
        } else if state.line_open {
            seq!['\n']
        } else {
            Seq::empty()
        }) + ("[function requested] "@ + call.name + " "@ + json::json_text(call.arguments)
            + seq!['\n']),
{
    reveal_strlit("\n");
    assert("\n"@ =~= seq!['\n']);
    assert(calls.push(call).drop_last() =~= calls);
    assert(repl::call_lines(Seq::<ModelFunctionCallView>::empty()) == Seq::<char>::empty());
}

/// The question of a suspension: the text under its name in the payload.
pub open spec fn asked_in(suspension: SuspensionView) -> Seq<char> {
    match suspension.payload {
        Json::Fields(fields) => if fields.contains_key("prompt"@) {
            match fields["prompt"@] {
                Json::Text(prompt) => prompt,
                _ => Seq::empty(),
            }
        } else {
            Seq::empty()
        },
        _ => Seq::empty(),
    }
}

/// At the end of a turn its answer stands on the screen, in lines that are finished:
/// what was not shown as it came is shown now, and what was is not shown again. A
/// question and an error are shown too.
pub proof fn law_end_of_a_turn_is_shown(
    state: StreamRenderState,
    a: Seq<char>,
    suspension: SuspensionView,
)
    ensures
        repl::farewell(state, TurnOutcomeView::AssistantMessage { text: a }) =~= (if !state
            .assistant_started {
            a + seq!['\n']
        } else if state.line_open {
            seq!['\n']
        } else {
            Seq::empty()
        }),
        repl::farewell(state, TurnOutcomeView::Suspended { suspension }) =~= asked_in(suspension)
            + seq!['\n'],
        repl::farewell(state, TurnOutcomeView::Failed { error: a }) =~= "turn failed: "@ + a + seq![
            '\n',
        ],
        repl::farewell(state, TurnOutcomeView::Aborted { reason: a }).len() == 0,
{
    reveal_strlit("\n");
    assert("\n"@ =~= seq!['\n']);
}

// ---------------------------------------------------------------------------
// The shell

/// An output is shown whole up to twenty thousand characters; of a longer one as
/// many are shown, from its start, with a note after them.
pub proof fn law_start_of_an_output_is_shown(output: Seq<char>)
    ensures
        output.len() <= 20000 ==> repl::shortened(output) == output,
        output.len() > 20000 ==> repl::shortened(output) == output.take(20000)
            + "\n...[truncated]"@,
{
}

/// The command that is run is the text under its name in the arguments, for as long
/// as they say, or for half a minute; arguments without a command are refused.
pub proof fn law_shell_runs_what_is_asked(fields: Map<Seq<char>, Json>, other: Json)
    ensures
        fields.contains_key("cmd"@) && fields["cmd"@] is Text ==> (repl::shell_request(
            Json::Fields(fields),
        ) matches Ok(asked) && {
            &&& Json::Text(asked.0) == fields["cmd"@]
            &&& asked.1 == if fields.contains_key("timeout_ms"@) {
                match fields["timeout_ms"@] {
                    Json::Int(n) => if 0 <= n <= u64::MAX {
                        n
                    } else {
                        30000
                    },
                    _ => 30000,
                }
            } else {
                30000
            }
        }),
        !(fields.contains_key("cmd"@) && fields["cmd"@] is Text) ==> repl::shell_request(
            Json::Fields(fields),
        ) == Err::<(Seq<char>, u64), AgentErrorView>(
            AgentErrorView::InvalidFunctionArguments {
                name: "exec_command"@,
                message: "missing string field: cmd"@,
            },
        ),
        !(other is Fields) ==> repl::shell_request(other) is Err,
{
}

/// The model is given the command, where it ran, how it ended and the start of what
/// it printed, each under its own name and nothing else.
pub proof fn law_shell_answers_with_the_output(
    cwd: Seq<char>,
    cmd: Seq<char>,
    exit_code: Option<i32>,
    success: bool,
    stdout: Seq<u8>,
    stderr: Seq<u8>,
)
    ensures
        repl::shell_content(cwd, cmd, exit_code, success, stdout, stderr) matches Json::Fields(
            fields,
        ) && {
            &&& fields.dom() =~= set![
                "cwd"@,
                "cmd"@,
                "exit_code"@,
                "success"@,
                "stdout"@,
                "stderr"@,
            ]
            &&& fields["cwd"@] == Json::Text(cwd)
            &&& fields["cmd"@] == Json::Text(cmd)
            &&& fields["exit_code"@] == match exit_code {
                Some(code) => Json::Int(code as int),
                None => Json::Null,
            }
            &&& fields["success"@] == Json::Bool(success)
            &&& fields["stdout"@] == Json::Text(repl::shortened(text::lossy_text(stdout)))
            &&& fields["stderr"@] == Json::Text(repl::shortened(text::lossy_text(stderr)))
        },
{
    reveal_strlit("cwd");
    reveal_strlit("cmd");
    reveal_strlit("exit_code");
    reveal_strlit("success");
    reveal_strlit("stdout");
    reveal_strlit("stderr");
    assert("cwd"@.len() == 3 && "cmd"@.len() == 3 && "exit_code"@.len() == 9 && "success"@.len()
        == 7 && "stdout"@.len() == 6 && "stderr"@.len() == 6);
    assert("cwd"@[1] == 'w' && "cmd"@[1] == 'm');
    assert("stdout"@[3] == 'o' && "stderr"@[3] == 'e');
}

} // verus!
