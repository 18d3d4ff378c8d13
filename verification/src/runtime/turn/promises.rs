//! What a turn does with each thing that it hears, told by what is stored, what is
//! asked for next and what the caller and the trace are told.
use crate::error::{self, AgentErrorView};
use crate::ids::{self, IdSource};
use crate::json::Json;
use crate::kernel::events::{
    SuspensionView, ThreadView, TokenUsage, ToolResultView, TurnItemKindView, TurnItemSource,
    TurnStatus,
};
use crate::kernel::model::{
    ModelFunctionCallView, ModelRequestView, ModelResponseView, ModelStreamEventView,
};
use crate::kernel::projection;
use crate::runtime::agent_loop::{
    FunctionCallHookResultView, TurnModelEventView, TurnOutcomeView, TurnStateEventView,
    TurnStreamEventView,
};
use crate::runtime::context::ContextBuildOutputView;
use crate::runtime::functions::{FunctionCallExecutionView, RuntimeEffectView};
use crate::runtime::recording::{self, gains, stands_at, stands_nowhere, EntryView};
use crate::runtime::store::ThreadContextCacheView;
use crate::runtime::trace::{TraceEventKindView, TraceTurnStatus};
use crate::runtime::turn::parts::{
    CallResultView, FlowView, StepView, TurnActionView, TurnInputView, TurnPhaseView,
    TurnRequestView, TurnRunView,
};
use crate::runtime::turn::transitions::{self, next};
use vstd::prelude::*;

verus! {

// ---------------------------------------------------------------------------
// What is recorded

/// A record of what a call returned.
pub open spec fn answer(call: ModelFunctionCallView, result: ToolResultView) -> EntryView {
    EntryView {
        source: TurnItemSource::Tool,
        kind: TurnItemKindView::ToolOutput { call_id: call.call_id, name: call.name, result },
    }
}

/// Records of the goals that a call sets, each beside the goal before the call.
pub open spec fn goals_set(thread: ThreadView, effects: Seq<RuntimeEffectView>) -> Seq<EntryView> {
    Seq::new(
        effects.len(),
        |k: int|
            EntryView {
                source: TurnItemSource::Runtime,
                kind: TurnItemKindView::GoalUpdated {
                    previous: projection::project(thread).goal,
                    current: match effects[k] {
                        RuntimeEffectView::SetGoal(goal) => goal,
                    },
                },
            },
    )
}

/// Records that each call after one was left out.
pub open spec fn left_out(calls: Seq<ModelFunctionCallView>, index: int) -> Seq<EntryView> {
    Seq::new(
        (calls.len() - index - 1) as nat,
        |k: int|
            answer(
                calls[index + 1 + k],
                ToolResultView::Error {
                    error: "function not executed because a previous function suspended the turn"@,
                },
            ),
    )
}

/// A record of a suspension.
pub open spec fn stop(suspension: SuspensionView) -> EntryView {
    EntryView {
        source: TurnItemSource::Runtime,
        kind: TurnItemKindView::SuspensionCreated { suspension },
    }
}

/// A record of how a turn ended early.
pub open spec fn runtime_note(kind: TurnItemKindView) -> Seq<EntryView> {
    seq![EntryView { source: TurnItemSource::Runtime, kind }]
}

/// What a function returns is recorded under its call, as it was returned: the
/// goals that it sets, then its output, in the turn that called it, and the thread
/// is stored. A call that suspends the turn leaves its suspension and an error for
/// every call after it, and the turn is suspended.
#[verifier::rlimit(50)]
#[verifier::spinoff_prover]
pub proof fn law_output_is_recorded(
    run: TurnRunView,
    execution: FunctionCallExecutionView,
    ids: IdSource,
    i: int,
)
    requires
        run.phase matches TurnPhaseView::Executing { calls, index, entered } && index
            < calls.len(),
        stands_at(run.thread.turns, run.turn_id, i),
    ensures
        ({
            let calls = run.phase->Executing_calls;
            let index = run.phase->Executing_index as int;
            let step = next(run, TurnInputView::FunctionReturned(execution), ids);
            let stored = step.run.thread;
            let running = run.thread.turns[i].status;
            let kept = step.run.phase->RecordingCall_result;
            &&& step.action == TurnActionView::Commit(stored)
            &&& step.run.phase == (TurnPhaseView::RecordingCall {
                calls,
                index: run.phase->Executing_index,
                entered: run.phase->Executing_entered,
                result: kept,
            })
            &&& step.events.len() == 0
            &&& step.traces.len() == 0
            &&& match execution {
                FunctionCallExecutionView::Completed { output, effects } => {
                    &&& kept == (CallResultView::Completed { output })
                    &&& stored.turns[i].items.last().kind == (TurnItemKindView::ToolOutput {
                        call_id: calls[index].call_id,
                        name: calls[index].name,
                        result: ToolResultView::Success { output },
                    })
                    &&& gains(
                        run.thread,
                        stored,
                        i,
                        goals_set(run.thread, effects) + seq![
                            answer(calls[index], ToolResultView::Success { output }),
                        ],
                        running,
                    )
                },
                FunctionCallExecutionView::SuspendedBeforeExecution { suspension, effects } => {
                    &&& kept == (CallResultView::SuspendedBefore { suspension })
                    &&& gains(
                        run.thread,
                        stored,
                        i,
                        goals_set(run.thread, effects) + seq![stop(suspension)] + left_out(
                            calls,
                            index,
                        ),
                        TurnStatus::Suspended,
                    )
                },
                FunctionCallExecutionView::SuspendedAfterExecution {
                    suspension,
                    output,
                    effects,
                } => {
                    &&& kept == (CallResultView::SuspendedAfter { suspension, output })
                    &&& gains(
                        run.thread,
                        stored,
                        i,
                        goals_set(run.thread, effects) + seq![
                            answer(calls[index], ToolResultView::Success { output }),
                            stop(suspension),
                        ] + left_out(calls, index),
                        TurnStatus::Suspended,
                    )
                },
            }
        }),
{
    let calls = run.phase->Executing_calls;
    let at = run.phase->Executing_index;
    let index = at as int;
    let effects = transitions::effects_of(execution);
    let entries = recording::effect_entries(run.thread, effects) + transitions::result_entries(
        calls,
        at,
        transitions::result_of(execution),
    );
    recording::law_recorded_is_gained(
        run.thread,
        run.turn_id,
        i,
        entries,
        TurnStatus::Suspended,
        ids,
    );
    assert(recording::effect_entries(run.thread, effects) =~= goals_set(run.thread, effects));
    assert(transitions::skipped_entries(transitions::later_calls(calls, at)) =~= left_out(
        calls,
        index,
    ));
    match execution {
        FunctionCallExecutionView::Completed { output, effects } => {
            assert(entries =~= goals_set(run.thread, effects) + seq![
                answer(calls[index], ToolResultView::Success { output }),
            ]);
        },
        FunctionCallExecutionView::SuspendedBeforeExecution { suspension, effects } => {
            assert(entries =~= goals_set(run.thread, effects) + seq![stop(suspension)] + left_out(
                calls,
                index,
            ));
        },
        FunctionCallExecutionView::SuspendedAfterExecution { suspension, output, effects } => {
            assert(entries =~= goals_set(run.thread, effects) + seq![
                answer(calls[index], ToolResultView::Success { output }),
                stop(suspension),
            ] + left_out(calls, index));
        },
    }
}

/// A call that fails, or that a hook refuses, is answered with the words of the
/// error, and the turn goes on running.
pub proof fn law_failure_is_recorded(
    run: TurnRunView,
    e: AgentErrorView,
    ids: IdSource,
    i: int,
)
    requires
        stands_at(run.thread.turns, run.turn_id, i),
    ensures
        run.phase matches TurnPhaseView::Executing { calls, index, entered } ==> index
            < calls.len() ==> {
            let step = next(run, TurnInputView::FunctionFailed(e), ids);
            &&& step.action == TurnActionView::Commit(step.run.thread)
            &&& step.run.phase == (TurnPhaseView::RecordingCall {
                calls,
                index,
                entered,
                result: CallResultView::Failed { error: error::words(e) },
            })
            &&& step.events.len() == 0
            &&& step.traces.len() == 0
            &&& gains(
                run.thread,
                step.run.thread,
                i,
                seq![
                    answer(calls[index as int], ToolResultView::Error { error: error::words(e) }),
                ],
                run.thread.turns[i].status,
            )
        },
        run.phase matches TurnPhaseView::BeforeHooks { calls, index, entered } ==> index
            < calls.len() && entered < run.hook_count ==> {
            let step = next(run, TurnInputView::HookFailed(e), ids);
            &&& step.action == TurnActionView::Commit(step.run.thread)
            &&& step.run.phase == (TurnPhaseView::RecordingCall {
                calls,
                index,
                entered,
                result: CallResultView::Failed { error: error::words(e) },
            })
            &&& step.events.len() == 0
            &&& step.traces.len() == 0
            &&& gains(
                run.thread,
                step.run.thread,
                i,
                seq![
                    answer(calls[index as int], ToolResultView::Error { error: error::words(e) }),
                ],
                run.thread.turns[i].status,
            )
        },
{
    let (calls, at) = match run.phase {
        TurnPhaseView::Executing { calls, index, entered } => (calls, index),
        TurnPhaseView::BeforeHooks { calls, index, entered } => (calls, index),
        _ => (Seq::empty(), 0usize),
    };
    let failed = seq![
        answer(calls[at as int], ToolResultView::Error { error: error::words(e) }),
    ];
    let entries = recording::effect_entries(run.thread, Seq::empty()) + transitions::result_entries(
        calls,
        at,
        CallResultView::Failed { error: error::words(e) },
    );
    assert(entries =~= failed);
    recording::law_recorded_is_gained(
        run.thread,
        run.turn_id,
        i,
        failed,
        TurnStatus::Suspended,
        ids,
    );
}

/// The text and the calls of an answer of the model.
pub open spec fn said(response: ModelResponseView) -> (
    Option<Seq<char>>,
    Seq<ModelFunctionCallView>,
) {
    match response {
        ModelResponseView::AssistantMessage { text } => (Some(text), Seq::empty()),
        ModelResponseView::FunctionCalls { calls } => (None, calls),
        ModelResponseView::Assistant { text, function_calls } => (text, function_calls),
    }
}

/// What the model answers is recorded as it was given, the text and every call.
/// An answer with text alone completes the turn, one that is empty fails it, and
/// after one with calls the turn goes on; the caller is told of the text and of
/// the calls.
pub proof fn law_reply_is_recorded(
    run: TurnRunView,
    response: ModelResponseView,
    ids: IdSource,
    i: int,
)
    requires
        run.phase is AwaitingModel,
        stands_at(run.thread.turns, run.turn_id, i),
    ensures
        ({
            let (text, calls) = said(response);
            let step = next(run, TurnInputView::ModelReplied(response), ids);
            let stored = step.run.thread;
            let nothing = "model returned neither assistant text nor function calls"@;
            let told = match text {
                Some(text) => seq![
                    TurnStreamEventView::Model(TurnModelEventView::AssistantMessage { text }),
                ],
                None => Seq::empty(),
            };
            let recorded = seq![
                EntryView {
                    source: TurnItemSource::Model,
                    kind: TurnItemKindView::ModelResponse { text, function_calls: calls },
                },
            ];
            &&& step.action == TurnActionView::Commit(stored)
            &&& step.traces.len() == 0
            &&& if text is None && calls.len() == 0 {
                &&& gains(
                    run.thread,
                    ThreadView { token_usage: run.thread.token_usage, ..stored },
                    i,
                    runtime_note(TurnItemKindView::TurnFailed { error: nothing }),
                    TurnStatus::Failed,
                )
                &&& charged(run.thread.token_usage, run.usage, stored.token_usage)
                &&& step.run.phase == (TurnPhaseView::Finishing {
                    outcome: TurnOutcomeView::Failed { error: nothing },
                })
                &&& step.events.len() == 0
            } else if calls.len() == 0 {
                &&& gains(run.thread, stored, i, recorded, TurnStatus::Completed)
                &&& step.run.phase == (TurnPhaseView::Completing { text: text->0 })
                &&& step.events == told
            } else {
                &&& gains(run.thread, stored, i, recorded, run.thread.turns[i].status)
                &&& step.run.phase == (TurnPhaseView::Requesting { text, calls })
                &&& step.events == told.push(
                    TurnStreamEventView::State(TurnStateEventView::FunctionCallsRequested { calls }),
                )
            }
        }),
{
    let (text, calls) = said(response);
    let nothing = "model returned neither assistant text nor function calls"@;
    recording::law_recorded_is_gained(
        run.thread,
        run.turn_id,
        i,
        transitions::reply_entries(text, calls),
        TurnStatus::Completed,
        ids,
    );
    recording::law_recorded_is_gained(
        run.thread,
        run.turn_id,
        i,
        recording::failure(nothing),
        TurnStatus::Failed,
        ids,
    );
}

/// Whether a count is a sum, or the largest number where the sum is beyond it.
pub open spec fn adds_up(a: u64, b: u64, sum: u64) -> bool {
    if a + b <= u64::MAX {
        sum == a + b
    } else {
        sum == u64::MAX
    }
}

/// Whether a usage is that of two stretches of work, each count for itself.
pub open spec fn charged(before: TokenUsage, more: TokenUsage, after: TokenUsage) -> bool {
    &&& adds_up(before.input_tokens, more.input_tokens, after.input_tokens)
    &&& adds_up(before.cached_input_tokens, more.cached_input_tokens, after.cached_input_tokens)
    &&& adds_up(before.output_tokens, more.output_tokens, after.output_tokens)
    &&& adds_up(before.total_tokens, more.total_tokens, after.total_tokens)
}

/// While the model answers, its text is passed on as it comes, and the tokens that
/// it reports are added to those of the turn; nothing else changes.
pub proof fn law_stream_is_passed_on(run: TurnRunView, event: ModelStreamEventView, ids: IdSource)
    requires
        run.phase is AwaitingModel,
    ensures
        ({
            let step = next(run, TurnInputView::Model(event), ids);
            &&& step.action is Wait
            &&& step.traces.len() == 0
            &&& step.ids == ids
            &&& match event {
                ModelStreamEventView::AssistantDelta { text } => step.run == run && step.events
                    == seq![
                    TurnStreamEventView::Model(TurnModelEventView::AssistantDelta { text }),
                ],
                ModelStreamEventView::TokenUsage { usage } => step.events.len() == 0 && charged(
                    run.usage,
                    usage,
                    step.run.usage,
                ) && step.run == (TurnRunView { usage: step.run.usage, ..run }),
            }
        }),
{
}

/// A turn that is stopped by its caller, or whose model fails, records that, is
/// stored with its tokens charged, and ends that way.
#[verifier::rlimit(50)]
#[verifier::spinoff_prover]
pub proof fn law_early_end_is_recorded(
    run: TurnRunView,
    e: AgentErrorView,
    ids: IdSource,
    i: int,
)
    requires
        stands_at(run.thread.turns, run.turn_id, i),
    ensures
        run.phase is AwaitingModel ==> {
            let step = next(run, TurnInputView::ModelFailed(e), ids);
            &&& step.action == TurnActionView::Commit(step.run.thread)
            &&& step.run.phase == (TurnPhaseView::Finishing {
                outcome: TurnOutcomeView::Failed { error: error::words(e) },
            })
            &&& gains(
                run.thread,
                ThreadView { token_usage: run.thread.token_usage, ..step.run.thread },
                i,
                runtime_note(TurnItemKindView::TurnFailed { error: error::words(e) }),
                TurnStatus::Failed,
            )
            &&& charged(run.thread.token_usage, run.usage, step.run.thread.token_usage)
            &&& step.events.len() == 0
            &&& step.traces.len() == 0
        },
        run.phase is AwaitingModel || run.phase is Executing ==> {
            let step = next(run, TurnInputView::Aborted, ids);
            &&& step.action == TurnActionView::Commit(step.run.thread)
            &&& step.run.phase == (TurnPhaseView::Finishing {
                outcome: TurnOutcomeView::Aborted { reason: "turn aborted by caller"@ },
            })
            &&& gains(
                run.thread,
                ThreadView { token_usage: run.thread.token_usage, ..step.run.thread },
                i,
                runtime_note(TurnItemKindView::TurnAborted { reason: "turn aborted by caller"@ }),
                TurnStatus::Aborted,
            )
            &&& charged(run.thread.token_usage, run.usage, step.run.thread.token_usage)
            &&& step.events.len() == 0
            &&& step.traces.len() == 0
        },
{
    recording::law_recorded_is_gained(
        run.thread,
        run.turn_id,
        i,
        recording::failure(error::words(e)),
        TurnStatus::Failed,
        ids,
    );
    recording::law_recorded_is_gained(
        run.thread,
        run.turn_id,
        i,
        recording::abortion("turn aborted by caller"@),
        TurnStatus::Aborted,
        ids,
    );
}

/// A turn that its thread does not have cannot be written to: it ends with an
/// error that names it, and the thread stays as it was.
pub proof fn law_missing_turn_is_named(run: TurnRunView, input: TurnInputView, ids: IdSource)
    requires
        stands_nowhere(run.thread.turns, run.turn_id),
        match input {
            TurnInputView::ModelReplied(response) => run.phase is AwaitingModel,
            TurnInputView::ModelFailed(e) => run.phase is AwaitingModel,
            TurnInputView::Aborted => run.phase is AwaitingModel || run.phase is Executing,
            TurnInputView::FunctionReturned(execution) => run.phase matches
                TurnPhaseView::Executing { calls, index, entered } && index < calls.len(),
            TurnInputView::FunctionFailed(e) => run.phase matches
                TurnPhaseView::Executing { calls, index, entered } && index < calls.len(),
            _ => false,
        },
    ensures
        next(run, input, ids).action == TurnActionView::Fail(
            AgentErrorView::TurnNotFound(run.turn_id),
        ),
        next(run, input, ids).run.thread == run.thread,
        next(run, input, ids).run.phase is Done,
{
    crate::kernel::events::lemma_turn_index(run.thread.turns, run.turn_id);
}

// ---------------------------------------------------------------------------
// What is done next

/// Whether a hook or a function is told of a call as it stands in a turn.
pub open spec fn concerns(
    action: TurnActionView,
    turn_id: Seq<char>,
    thread: ThreadView,
    call: ModelFunctionCallView,
) -> bool {
    match action {
        TurnActionView::BeforeHook { hook, context } => {
            &&& context.thread_id == thread.id
            &&& context.turn_id == turn_id
            &&& context.call_id == call.call_id
            &&& context.name == call.name
            &&& context.arguments == call.arguments
            &&& context.projection == projection::project(thread)
        },
        TurnActionView::AfterHook { hook, context, result } => {
            &&& context.thread_id == thread.id
            &&& context.turn_id == turn_id
            &&& context.call_id == call.call_id
            &&& context.name == call.name
            &&& context.arguments == call.arguments
            &&& context.projection == projection::project(thread)
        },
        TurnActionView::CallFunction { name, arguments, context } => {
            &&& name == call.name
            &&& arguments == call.arguments
            &&& context.thread_id == thread.id
            &&& context.turn_id == turn_id
            &&& context.call_id == call.call_id
            &&& context.projection == projection::project(thread)
        },
        _ => false,
    }
}

/// Whether a step lets the hook `entered` look at a call, or runs the call where
/// all hooks have.
pub open spec fn approaches(
    step: StepView,
    calls: Seq<ModelFunctionCallView>,
    index: int,
    entered: int,
) -> bool {
    &&& concerns(step.action, step.run.turn_id, step.run.thread, calls[index])
    &&& if entered < step.run.hook_count {
        &&& step.action matches TurnActionView::BeforeHook { hook, context }
        &&& hook == entered
        &&& step.run.phase matches TurnPhaseView::BeforeHooks { calls: c, index: k, entered: n }
        &&& c == calls && k == index && n == entered
    } else {
        &&& step.action is CallFunction
        &&& step.run.phase matches TurnPhaseView::Executing { calls: c, index: k, entered: n }
        &&& c == calls && k == index && n == entered
    }
}

/// What the caller is told when a call is taken up.
pub open spec fn started(call: ModelFunctionCallView) -> TurnStreamEventView {
    TurnStreamEventView::State(
        TurnStateEventView::FunctionStarted { call_id: call.call_id, name: call.name },
    )
}

/// What the trace says when a call is taken up.
pub open spec fn call_made(call: ModelFunctionCallView) -> TraceEventKindView {
    TraceEventKindView::FunctionCall {
        call_id: call.call_id,
        name: call.name,
        arguments: call.arguments,
    }
}

/// What the trace says of what a call returned.
pub open spec fn output_seen(
    call: ModelFunctionCallView,
    result: ToolResultView,
) -> TraceEventKindView {
    TraceEventKindView::ToolOutput { call_id: call.call_id, name: call.name, result }
}

/// Whether the trace events of a step belong to its turn and say the given things.
pub open spec fn traced(step: StepView, at: IdSource, kinds: Seq<TraceEventKindView>) -> bool {
    &&& step.traces.len() == kinds.len()
    &&& forall|k: int|
        0 <= k < kinds.len() ==> {
            &&& (#[trigger] step.traces[k]).kind == kinds[k]
            &&& step.traces[k].thread_id == step.run.thread_id
            &&& step.traces[k].turn_id == step.run.turn_id
            &&& step.traces[k].occurred_at == ids::stamp(at)
        }
}

/// Whether a step goes on after a call: it takes up the next one, or, where there
/// is none, reads the cache to ask the model again, unless the model was asked as
/// often as is allowed. `told` and `seen` is what was told and traced before.
pub open spec fn goes_on(
    before: TurnRunView,
    thread: ThreadView,
    step: StepView,
    at: IdSource,
    calls: Seq<ModelFunctionCallView>,
    index: int,
    told: Seq<TurnStreamEventView>,
    seen: Seq<TraceEventKindView>,
) -> bool {
    if index < calls.len() {
        &&& step.run.thread == thread
        &&& step.run.iteration == before.iteration
        &&& approaches(step, calls, index, 0)
        &&& step.events == told.push(started(calls[index]))
        &&& traced(step, at, seen.push(call_made(calls[index])))
    } else {
        &&& step.run.iteration == before.iteration + 1
        &&& step.events == told
        &&& traced(step, at, seen)
        &&& before.iteration + 1 < before.max_model_iterations ==> {
            &&& step.run.thread == thread
            &&& step.action is LoadCache
            &&& step.run.phase is ReadingCache
        }
        &&& before.iteration + 1 >= before.max_model_iterations ==> forall|i: int|
            #[trigger] stands_at(thread.turns, before.turn_id, i) ==> {
                let words = error::words(
                    AgentErrorView::MaxIterations(before.max_model_iterations),
                );
                &&& step.action == TurnActionView::Commit(step.run.thread)
                &&& step.run.phase == (TurnPhaseView::Finishing {
                    outcome: TurnOutcomeView::Failed { error: words },
                })
                &&& gains(
                    thread,
                    ThreadView { token_usage: thread.token_usage, ..step.run.thread },
                    i,
                    runtime_note(TurnItemKindView::TurnFailed { error: words }),
                    TurnStatus::Failed,
                )
                &&& charged(thread.token_usage, before.usage, step.run.thread.token_usage)
            }
    }
}

/// Whether a step ends a turn in a suspension: the tokens are charged, the thread
/// is stored, and the caller is told of the suspension and of each call that was
/// left out. `told` and `seen` is what was told and traced before.
pub open spec fn ends_suspended(
    before: TurnRunView,
    thread: ThreadView,
    step: StepView,
    at: IdSource,
    calls: Seq<ModelFunctionCallView>,
    index: int,
    suspension: SuspensionView,
    told: Seq<TurnStreamEventView>,
    seen: Seq<TraceEventKindView>,
) -> bool {
    &&& step.action == TurnActionView::Commit(step.run.thread)
    &&& step.run.phase == (TurnPhaseView::Finishing {
        outcome: TurnOutcomeView::Suspended { suspension },
    })
    &&& step.run.thread == (ThreadView { token_usage: step.run.thread.token_usage, ..thread })
    &&& charged(thread.token_usage, before.usage, step.run.thread.token_usage)
    &&& traced(step, at, seen)
    &&& step.events == told + seq![
        TurnStreamEventView::State(TurnStateEventView::Suspended { suspension }),
    ] + Seq::new(
        (calls.len() - index - 1) as nat,
        |k: int|
            TurnStreamEventView::State(
                TurnStateEventView::FunctionFailed {
                    call_id: calls[index + 1 + k].call_id,
                    name: calls[index + 1 + k].name,
                    error: "function not executed because a previous function suspended the turn"@,
                },
            ),
    )
}

/// Whether a step leaves a call behind as it came out: the caller is told how,
/// and the turn goes on or is suspended.
pub open spec fn leaves_behind(
    before: TurnRunView,
    thread: ThreadView,
    step: StepView,
    at: IdSource,
    calls: Seq<ModelFunctionCallView>,
    index: int,
    result: CallResultView,
    told: Seq<TurnStreamEventView>,
    seen: Seq<TraceEventKindView>,
) -> bool {
    let call = calls[index];
    let completed = TurnStreamEventView::State(
        TurnStateEventView::FunctionCompleted { call_id: call.call_id, name: call.name },
    );
    match result {
        CallResultView::Completed { output } => goes_on(
            before,
            thread,
            step,
            at,
            calls,
            index + 1,
            told.push(completed),
            seen,
        ),
        CallResultView::Failed { error } => goes_on(
            before,
            thread,
            step,
            at,
            calls,
            index + 1,
            told.push(
                TurnStreamEventView::State(
                    TurnStateEventView::FunctionFailed {
                        call_id: call.call_id,
                        name: call.name,
                        error,
                    },
                ),
            ),
            seen,
        ),
        CallResultView::SuspendedBefore { suspension } => ends_suspended(
            before,
            thread,
            step,
            at,
            calls,
            index,
            suspension,
            told,
            seen,
        ),
        CallResultView::SuspendedAfter { suspension, output } => ends_suspended(
            before,
            thread,
            step,
            at,
            calls,
            index,
            suspension,
            told.push(completed),
            seen,
        ),
    }
}

/// Whether a step lets the last of the hooks that are left look at what came of a
/// call.
pub open spec fn shows(
    step: StepView,
    calls: Seq<ModelFunctionCallView>,
    index: int,
    remaining: int,
    result: CallResultView,
) -> bool {
    &&& concerns(step.action, step.run.turn_id, step.run.thread, calls[index])
    &&& step.action matches TurnActionView::AfterHook { hook, context, result: shown }
    &&& hook == remaining - 1
    &&& match result {
        CallResultView::Completed { output } => shown == (FunctionCallHookResultView::Completed {
            output,
        }),
        CallResultView::SuspendedAfter { suspension, output } => shown == (
        FunctionCallHookResultView::Suspended { suspension, output }),
        CallResultView::SuspendedBefore { suspension } => shown == (
        FunctionCallHookResultView::Suspended { suspension, output: Json::Null }),
        CallResultView::Failed { error } => shown == (FunctionCallHookResultView::Failed { error }),
    }
    &&& step.run.phase matches TurnPhaseView::AfterHooks {
        calls: c,
        index: k,
        remaining: n,
        result: r,
    }
    &&& c == calls && k == index && n == remaining && r == result
}

proof fn lemma_tell_skipped(f: FlowView, calls: Seq<ModelFunctionCallView>, n: int)
    requires
        0 <= n <= calls.len(),
    ensures
        transitions::tell_skipped(f, calls, n) == (FlowView {
            events: f.events + Seq::new(
                n as nat,
                |k: int|
                    TurnStreamEventView::State(
                        TurnStateEventView::FunctionFailed {
                            call_id: calls[k].call_id,
                            name: calls[k].name,
                            error: "function not executed because a previous function suspended the turn"@,
                        },
                    ),
            ),
            ..f
        }),
    decreases n,
{
    if n > 0 {
        lemma_tell_skipped(f, calls, n - 1);
    }
    assert(transitions::tell_skipped(f, calls, n).events =~= f.events + Seq::new(
        n as nat,
        |k: int|
            TurnStreamEventView::State(
                TurnStateEventView::FunctionFailed {
                    call_id: calls[k].call_id,
                    name: calls[k].name,
                    error: "function not executed because a previous function suspended the turn"@,
                },
            ),
    ));
}

/// Whether a flow is an earlier one with some trace events more and a higher trace
/// number, and else unchanged.
spec fn traces_on(f: FlowView, g: FlowView, kinds: Seq<TraceEventKindView>) -> bool {
    &&& g.events == f.events
    &&& g.ids == f.ids
    &&& g.run == (TurnRunView { trace_sequence: g.run.trace_sequence, ..f.run })
    &&& g.traces.len() == f.traces.len() + kinds.len()
    &&& forall|k: int| 0 <= k < f.traces.len() ==> #[trigger] g.traces[k] == f.traces[k]
    &&& forall|k: int|
        f.traces.len() <= k < g.traces.len() ==> {
            &&& (#[trigger] g.traces[k]).kind == kinds[k - f.traces.len()]
            &&& g.traces[k].thread_id == f.run.thread_id
            &&& g.traces[k].turn_id == f.run.turn_id
            &&& g.traces[k].occurred_at == ids::stamp(f.ids)
        }
}

proof fn lemma_trace_skipped(f: FlowView, calls: Seq<ModelFunctionCallView>, n: int)
    requires
        0 <= n <= calls.len(),
    ensures
        traces_on(
            f,
            transitions::trace_skipped(f, calls, n),
            Seq::new(
                n as nat,
                |k: int|
                    output_seen(
                        calls[k],
                        ToolResultView::Error {
                            error: "function not executed because a previous function suspended the turn"@,
                        },
                    ),
            ),
        ),
    decreases n,
{
    if n > 0 {
        lemma_trace_skipped(f, calls, n - 1);
    }
}

proof fn lemma_take_up(
    before: TurnRunView,
    f: FlowView,
    at: IdSource,
    calls: Seq<ModelFunctionCallView>,
    index: int,
    told: Seq<TurnStreamEventView>,
    seen: Seq<TraceEventKindView>,
)
    requires
        0 <= index <= calls.len() <= usize::MAX,
        f.run.iteration == before.iteration,
        before.iteration < usize::MAX,
        f.run.max_model_iterations == before.max_model_iterations,
        f.run.turn_id == before.turn_id,
        f.run.usage == before.usage,
        f.ids == at,
        f.events == told,
        f.traces.len() == seen.len(),
        forall|k: int|
            0 <= k < seen.len() ==> {
                &&& (#[trigger] f.traces[k]).kind == seen[k]
                &&& f.traces[k].thread_id == f.run.thread_id
                &&& f.traces[k].turn_id == f.run.turn_id
                &&& f.traces[k].occurred_at == ids::stamp(at)
            },
    ensures
        goes_on(
            before,
            f.run.thread,
            transitions::take_up(f, calls, index),
            at,
            calls,
            index,
            told,
            seen,
        ),
{
    let words = error::words(AgentErrorView::MaxIterations(before.max_model_iterations));
    assert forall|i: int| #[trigger] stands_at(f.run.thread.turns, before.turn_id, i) implies ({
        let ended = recording::with_ending(
            f.run.thread,
            before.turn_id,
            recording::failure(words),
            TurnStatus::Failed,
            at,
        );
        ended is Some && gains(
            f.run.thread,
            ended->0,
            i,
            runtime_note(TurnItemKindView::TurnFailed { error: words }),
            TurnStatus::Failed,
        )
    }) by {
        recording::law_recorded_is_gained(
            f.run.thread,
            before.turn_id,
            i,
            recording::failure(words),
            TurnStatus::Failed,
            at,
        );
    }
}

#[verifier::rlimit(50)]
#[verifier::spinoff_prover]
proof fn lemma_settle(
    before: TurnRunView,
    f: FlowView,
    at: IdSource,
    calls: Seq<ModelFunctionCallView>,
    index: usize,
    result: CallResultView,
    told: Seq<TurnStreamEventView>,
    seen: Seq<TraceEventKindView>,
)
    requires
        index < calls.len() <= usize::MAX,
        f.run.iteration == before.iteration,
        before.iteration < usize::MAX,
        f.run.max_model_iterations == before.max_model_iterations,
        f.run.turn_id == before.turn_id,
        f.run.usage == before.usage,
        f.ids == at,
        f.events == told,
        f.traces.len() == seen.len(),
        forall|k: int|
            0 <= k < seen.len() ==> {
                &&& (#[trigger] f.traces[k]).kind == seen[k]
                &&& f.traces[k].thread_id == f.run.thread_id
                &&& f.traces[k].turn_id == f.run.turn_id
                &&& f.traces[k].occurred_at == ids::stamp(at)
            },
    ensures
        leaves_behind(
            before,
            f.run.thread,
            transitions::settle(f, calls, index, result),
            at,
            calls,
            index as int,
            result,
            told,
            seen,
        ),
{
    let call = calls[index as int];
    let step = transitions::settle(f, calls, index, result);
    let later = transitions::later_calls(calls, index);
    let completed = transitions::state(
        f,
        TurnStateEventView::FunctionCompleted { call_id: call.call_id, name: call.name },
    );
    match result {
        CallResultView::Completed { output } => {
            lemma_take_up(before, completed, at, calls, index + 1, completed.events, seen);
        },
        CallResultView::Failed { error } => {
            let failed = transitions::state(
                f,
                TurnStateEventView::FunctionFailed {
                    call_id: call.call_id,
                    name: call.name,
                    error,
                },
            );
            lemma_take_up(before, failed, at, calls, index + 1, failed.events, seen);
        },
        CallResultView::SuspendedBefore { suspension } => {
            let g = transitions::state(f, TurnStateEventView::Suspended { suspension });
            lemma_tell_skipped(g, later, later.len() as int);
            assert(step.events =~= told + seq![
                TurnStreamEventView::State(TurnStateEventView::Suspended { suspension }),
            ] + Seq::new(
                (calls.len() - index - 1) as nat,
                |k: int|
                    TurnStreamEventView::State(
                        TurnStateEventView::FunctionFailed {
                            call_id: calls[index + 1 + k].call_id,
                            name: calls[index + 1 + k].name,
                            error: "function not executed because a previous function suspended the turn"@,
                        },
                    ),
            ));
        },
        CallResultView::SuspendedAfter { suspension, output } => {
            let g = transitions::state(completed, TurnStateEventView::Suspended { suspension });
            lemma_tell_skipped(g, later, later.len() as int);
            assert(step.events =~= completed.events + seq![
                TurnStreamEventView::State(TurnStateEventView::Suspended { suspension }),
            ] + Seq::new(
                (calls.len() - index - 1) as nat,
                |k: int|
                    TurnStreamEventView::State(
                        TurnStateEventView::FunctionFailed {
                            call_id: calls[index + 1 + k].call_id,
                            name: calls[index + 1 + k].name,
                            error: "function not executed because a previous function suspended the turn"@,
                        },
                    ),
            ));
        },
    }
}

/// Once an answer that asks for calls is stored, the trace tells of it and the
/// first of the calls is taken up.
pub proof fn law_first_call_is_taken_up(run: TurnRunView, thread: ThreadView, ids: IdSource)
    requires
        run.phase matches TurnPhaseView::Requesting { text, calls } && 0 < calls.len()
            <= usize::MAX,
        run.iteration < usize::MAX,
    ensures
        ({
            let text = run.phase->Requesting_text;
            let calls = run.phase->Requesting_calls;
            goes_on(
                run,
                thread,
                next(run, TurnInputView::Committed(thread), ids),
                ids,
                calls,
                0,
                Seq::empty(),
                seq![TraceEventKindView::ModelResponse { text, function_calls: calls }],
            )
        }),
{
    let text = run.phase->Requesting_text;
    let calls = run.phase->Requesting_calls;
    let f = transitions::trace(
        transitions::on_thread(transitions::fresh(run, ids), thread),
        TraceEventKindView::ModelResponse { text, function_calls: calls },
    );
    lemma_take_up(
        run,
        f,
        ids,
        calls,
        0,
        Seq::empty(),
        seq![TraceEventKindView::ModelResponse { text, function_calls: calls }],
    );
}

/// A hook that passes a call hands it, unchanged, to the next hook or, after the
/// last, to the function that it names.
#[verifier::rlimit(50)]
#[verifier::spinoff_prover]
pub proof fn law_passed_call_is_handed_on(run: TurnRunView, ids: IdSource)
    requires
        run.phase matches TurnPhaseView::BeforeHooks { calls, index, entered } && index
            < calls.len() && entered < run.hook_count,
    ensures
        ({
            let step = next(run, TurnInputView::HookPassed, ids);
            &&& step.run.thread == run.thread
            &&& approaches(
                step,
                run.phase->BeforeHooks_calls,
                run.phase->BeforeHooks_index as int,
                run.phase->BeforeHooks_entered + 1,
            )
            &&& step.events.len() == 0
            &&& step.traces.len() == 0
        }),
{
}

/// Once what came of a call is stored, the trace tells of it, and of each call
/// that was left out; the hooks that passed the call are shown it, the last one
/// first; and without any, the call is left behind.
#[verifier::rlimit(50)]
#[verifier::spinoff_prover]
pub proof fn law_result_is_shown(run: TurnRunView, thread: ThreadView, ids: IdSource)
    requires
        run.phase matches TurnPhaseView::RecordingCall { calls, index, entered, result } && index
            < calls.len() <= usize::MAX,
        run.iteration < usize::MAX,
    ensures
        ({
            let calls = run.phase->RecordingCall_calls;
            let index = run.phase->RecordingCall_index as int;
            let entered = run.phase->RecordingCall_entered as int;
            let result = run.phase->RecordingCall_result;
            let step = next(run, TurnInputView::Committed(thread), ids);
            let skipped = Seq::new(
                (calls.len() - index - 1) as nat,
                |k: int|
                    output_seen(
                        calls[index + 1 + k],
                        ToolResultView::Error {
                            error: "function not executed because a previous function suspended the turn"@,
                        },
                    ),
            );
            let seen = match result {
                CallResultView::Completed { output } => seq![
                    output_seen(calls[index], ToolResultView::Success { output }),
                ],
                CallResultView::Failed { error } => seq![
                    output_seen(calls[index], ToolResultView::Error { error }),
                ],
                CallResultView::SuspendedBefore { suspension } => skipped,
                CallResultView::SuspendedAfter { suspension, output } => seq![
                    output_seen(calls[index], ToolResultView::Success { output }),
                ] + skipped,
            };
            if entered > 0 && !(result is SuspendedBefore) {
                &&& step.run.thread == thread
                &&& shows(step, calls, index, entered, result)
                &&& step.events.len() == 0
                &&& traced(step, ids, seen)
            } else {
                leaves_behind(run, thread, step, ids, calls, index, result, Seq::empty(), seen)
            }
        }),
{
    let calls = run.phase->RecordingCall_calls;
    let at = run.phase->RecordingCall_index;
    let index = at as int;
    let result = run.phase->RecordingCall_result;
    let call = calls[index];
    let later = transitions::later_calls(calls, at);
    let f = transitions::on_thread(transitions::fresh(run, ids), thread);
    let skipped = Seq::new(
        (calls.len() - index - 1) as nat,
        |k: int|
            output_seen(
                calls[index + 1 + k],
                ToolResultView::Error {
                    error: "function not executed because a previous function suspended the turn"@,
                },
            ),
    );
    match result {
        CallResultView::Completed { output } => {
            let told = ToolResultView::Success { output };
            let g = transitions::trace_output(f, call, told);
            lemma_settle(
                run,
                g,
                ids,
                calls,
                at,
                result,
                Seq::empty(),
                seq![output_seen(call, told)],
            );
        },
        CallResultView::Failed { error } => {
            let told = ToolResultView::Error { error };
            let g = transitions::trace_output(f, call, told);
            lemma_settle(
                run,
                g,
                ids,
                calls,
                at,
                result,
                Seq::empty(),
                seq![output_seen(call, told)],
            );
        },
        CallResultView::SuspendedBefore { suspension } => {
            lemma_trace_skipped(f, later, later.len() as int);
            let g = transitions::trace_skipped(f, later, later.len() as int);
            lemma_settle(run, g, ids, calls, at, result, Seq::empty(), skipped);
        },
        CallResultView::SuspendedAfter { suspension, output } => {
            let told = ToolResultView::Success { output };
            let g = transitions::trace_output(f, call, told);
            lemma_trace_skipped(g, later, later.len() as int);
            let h = transitions::trace_skipped(g, later, later.len() as int);
            lemma_settle(
                run,
                h,
                ids,
                calls,
                at,
                result,
                Seq::empty(),
                seq![output_seen(call, told)] + skipped,
            );
        },
    }
}

/// After a hook has seen what came of a call, the one before it is shown the same;
/// after the first of them, the call is left behind. A hook that fails at this is
/// reported, and changes nothing else.
#[verifier::rlimit(50)]
#[verifier::spinoff_prover]
pub proof fn law_hooks_see_the_result(
    run: TurnRunView,
    failure: Option<AgentErrorView>,
    ids: IdSource,
)
    requires
        run.phase matches TurnPhaseView::AfterHooks { calls, index, remaining, result } && index
            < calls.len() <= usize::MAX && remaining > 0,
        run.iteration < usize::MAX,
    ensures
        ({
            let calls = run.phase->AfterHooks_calls;
            let index = run.phase->AfterHooks_index as int;
            let remaining = run.phase->AfterHooks_remaining as int;
            let result = run.phase->AfterHooks_result;
            let step = match failure {
                None => next(run, TurnInputView::HookPassed, ids),
                Some(e) => next(run, TurnInputView::HookFailed(e), ids),
            };
            let told = step.events.take(if failure is Some { 1 } else { 0 });
            &&& failure matches Some(e) ==> step.events.len() > 0 && reports(
                step.events[0],
                calls[index],
                error::words(e),
            )
            &&& if remaining > 1 {
                &&& step.run.thread == run.thread
                &&& shows(step, calls, index, remaining - 1, result)
                &&& step.events == told
                &&& step.traces.len() == 0
            } else {
                leaves_behind(run, run.thread, step, ids, calls, index, result, told, Seq::empty())
            }
        }),
{
    let calls = run.phase->AfterHooks_calls;
    let at = run.phase->AfterHooks_index;
    let remaining = run.phase->AfterHooks_remaining as int;
    let result = run.phase->AfterHooks_result;
    let f = match failure {
        None => transitions::fresh(run, ids),
        Some(e) => transitions::emit(
            transitions::fresh(run, ids),
            TurnStreamEventView::Runtime(
                transitions::hook_failure(calls[at as int], error::words(e)),
            ),
        ),
    };
    let step = match failure {
        None => next(run, TurnInputView::HookPassed, ids),
        Some(e) => next(run, TurnInputView::HookFailed(e), ids),
    };
    if let Some(e) = failure {
        reveal_strlit("call_id");
        reveal_strlit("name");
        reveal_strlit("error");
        assert("call_id"@.len() == 7 && "name"@.len() == 4 && "error"@.len() == 5);
    }
    if remaining == 1 {
        lemma_settle(run, f, ids, calls, at, result, f.events, Seq::empty());
    }
    assert(f.events =~= step.events.take(if failure is Some { 1 } else { 0 }));
}

/// Whether an event reports that a hook failed after a call.
pub open spec fn reports(
    event: TurnStreamEventView,
    call: ModelFunctionCallView,
    error: Seq<char>,
) -> bool {
    &&& event matches TurnStreamEventView::Runtime(report)
    &&& report.source == "function_call_hook"@
    &&& report.message == "post-hook failed"@
    &&& report.metadata matches Json::Fields(fields)
    &&& fields.dom() == set!["call_id"@, "name"@, "error"@]
    &&& fields["call_id"@] == Json::Text(call.call_id)
    &&& fields["name"@] == Json::Text(call.name)
    &&& fields["error"@] == Json::Text(error)
}

/// The messages for the model are chosen from what the whole thread adds up to, at
/// the state in which it was stored and with the cache that was read; a new summary
/// is stored first; and the model is asked with exactly the messages that were
/// chosen and the functions of the turn.
pub proof fn law_model_is_asked_with_the_context(
    run: TurnRunView,
    cache: Option<ThreadContextCacheView>,
    context: ContextBuildOutputView,
    times: Seq<IdSource>,
)
    requires
        run.phase is ReadingCache,
    ensures
        ({
            let read = next(run, TurnInputView::CacheLoaded(cache), times[0]);
            let built = next(read.run, TurnInputView::ContextBuilt(context), times[1]);
            let saved = next(built.run, TurnInputView::CacheSaved, times[2]);
            let asking = if context.cache is Some {
                saved
            } else {
                built
            };
            &&& read.action == (TurnActionView::BuildContext {
                projection: projection::project(run.thread),
                revision: run.thread.revision,
                cache,
            })
            &&& read.events.len() == 0
            &&& read.run == (TurnRunView { phase: TurnPhaseView::BuildingContext, ..run })
            &&& context.cache matches Some(new) ==> built.action == TurnActionView::SaveCache(new)
                && built.events.len() == 0
            &&& asking.action == TurnActionView::CallModel(
                ModelRequestView { messages: context.messages, functions: run.functions },
            )
            &&& asking.events == seq![
                TurnStreamEventView::Model(
                    TurnModelEventView::RequestStarted { iteration: run.iteration },
                ),
            ]
            &&& asking.run == (TurnRunView { phase: TurnPhaseView::AwaitingModel, ..run })
        }),
{
}

/// A text that completes a turn is what comes of it: once it is stored, the trace
/// tells of it and the tokens of the turn are charged to the thread.
#[verifier::rlimit(50)]
#[verifier::spinoff_prover]
pub proof fn law_completed_text_is_the_outcome(
    run: TurnRunView,
    thread: ThreadView,
    ids: IdSource,
)
    requires
        run.phase is Completing,
    ensures
        ({
            let text = run.phase->Completing_text;
            let step = next(run, TurnInputView::Committed(thread), ids);
            &&& step.action == TurnActionView::Commit(step.run.thread)
            &&& step.run.thread == (ThreadView {
                token_usage: step.run.thread.token_usage,
                ..thread
            })
            &&& charged(thread.token_usage, run.usage, step.run.thread.token_usage)
            &&& step.run.phase == (TurnPhaseView::Finishing {
                outcome: TurnOutcomeView::AssistantMessage { text },
            })
            &&& step.events.len() == 0
            &&& traced(
                step,
                ids,
                seq![
                    TraceEventKindView::ModelResponse {
                        text: Some(text),
                        function_calls: Seq::empty(),
                    },
                ],
            )
        }),
{
}

/// Once a finished turn is stored, its outcome is what the turn ends with; the
/// trace says how it ended, and the caller hears why it ended early, the tokens it
/// used, if any, and last its outcome.
#[verifier::rlimit(50)]
#[verifier::spinoff_prover]
pub proof fn law_outcome_is_told(run: TurnRunView, thread: ThreadView, ids: IdSource)
    requires
        run.phase is Finishing,
    ensures
        ({
            let outcome = run.phase->Finishing_outcome;
            let step = next(run, TurnInputView::Committed(thread), ids);
            let why = match outcome {
                TurnOutcomeView::Failed { error } => seq![
                    TurnStreamEventView::State(TurnStateEventView::TurnFailed { error }),
                ],
                TurnOutcomeView::Aborted { reason } => seq![
                    TurnStreamEventView::State(TurnStateEventView::TurnAborted { reason }),
                ],
                _ => Seq::empty(),
            };
            let nothing = run.usage.input_tokens == 0 && run.usage.cached_input_tokens == 0
                && run.usage.output_tokens == 0 && run.usage.total_tokens == 0;
            let used = if nothing {
                Seq::empty()
            } else {
                seq![
                    TurnStreamEventView::State(
                        TurnStateEventView::TurnTokenUsage { usage: run.usage },
                    ),
                ]
            };
            let status = match outcome {
                TurnOutcomeView::AssistantMessage { text } => TraceTurnStatus::Completed,
                TurnOutcomeView::Suspended { suspension } => TraceTurnStatus::Suspended,
                TurnOutcomeView::Failed { error } => TraceTurnStatus::Failed,
                TurnOutcomeView::Aborted { reason } => TraceTurnStatus::Aborted,
            };
            &&& step.action == TurnActionView::Finish(outcome)
            &&& step.run.phase is Done
            &&& step.run.thread == thread
            &&& step.events == (why + used).push(
                TurnStreamEventView::State(TurnStateEventView::TurnFinished { outcome }),
            )
            &&& traced(step, ids, seq![TraceEventKindView::TurnFinished { status }])
        }),
{
    let outcome = run.phase->Finishing_outcome;
    let step = next(run, TurnInputView::Committed(thread), ids);
    let none = Seq::<TurnStreamEventView>::empty();
    assert(step.events =~= none + step.events);
    assert(none + none =~= none);
}

/// A prompt becomes a new running turn at the end of the thread, or of a new thread
/// where there was none, that holds exactly what the user said; the thread is
/// stored before anything else, then the turn starts, is traced and reads its cache.
pub proof fn law_prompt_is_recorded(
    request: TurnRequestView,
    loaded: Result<ThreadView, AgentErrorView>,
    ids: IdSource,
    stored: ThreadView,
    later: IdSource,
)
    requires
        request.user_text is Some,
        loaded matches Ok(thread) ==> projection::project(thread).pending_suspension is None,
        loaded matches Err(e) ==> e is ThreadNotFound,
    ensures
        ({
            let text = request.user_text->0;
            let begun = transitions::begin(request, loaded, ids);
            let first = begun->Ok_0;
            let made = first.run.thread;
            let turn = made.turns.last();
            let started = next(first.run, TurnInputView::Committed(stored), later);
            &&& begun is Ok
            &&& first.action == TurnActionView::Commit(made)
            &&& first.events.len() == 0
            &&& first.traces.len() == 0
            &&& match loaded {
                Ok(thread) => made == (ThreadView { turns: made.turns, ..thread })
                    && made.turns.drop_last() == thread.turns,
                Err(e) => {
                    &&& made.id == request.thread_id
                    &&& made.turns.len() == 1
                    &&& made.goal is None
                    &&& made.version == 0
                    &&& made.revision.len() == 0
                    &&& made.schema_version == 1
                    &&& made.token_usage.input_tokens == 0
                    &&& made.token_usage.cached_input_tokens == 0
                    &&& made.token_usage.output_tokens == 0
                    &&& made.token_usage.total_tokens == 0
                },
            }
            &&& made.turns.len() > 0
            &&& turn.status == TurnStatus::Running
            &&& turn.items.len() == 1
            &&& turn.items[0].source == TurnItemSource::User
            &&& turn.items[0].kind == (TurnItemKindView::UserInput { text, response_to: None })
            &&& turn.items[0].id != turn.id
            &&& first.run.turn_id == turn.id
            &&& first.run.thread_id == request.thread_id
            &&& first.run.functions == request.functions
            &&& first.run.max_model_iterations == request.max_model_iterations
            &&& first.run.hook_count == request.hook_count
            &&& first.run.trace_sequence == request.trace_sequence
            &&& first.run.iteration == 0
            &&& first.run.usage == (TokenUsage {
                input_tokens: 0,
                cached_input_tokens: 0,
                output_tokens: 0,
                total_tokens: 0,
            })
            &&& started.events == seq![
                TurnStreamEventView::State(
                    TurnStateEventView::TurnStarted {
                        thread_id: request.thread_id,
                        turn_id: turn.id,
                    },
                ),
            ]
            &&& traced(
                started,
                later,
                seq![TraceEventKindView::UserInput { text, response_to: None }],
            )
            &&& request.max_model_iterations > 0 ==> {
                &&& started.action is LoadCache
                &&& started.run.phase is ReadingCache
                &&& started.run.thread == stored
            }
        }),
{
    let thread = transitions::opened(request.thread_id, loaded, ids)->Ok_0;
    let turn = transitions::prompted_turn(request.user_text->0, None, ids);
    assert(thread.turns.push(turn).drop_last() =~= thread.turns);
    ids::law_counters_differ(ids, 0, 1);
    ids::law_ids_differ("item"@, ids::after(ids, 1), "turn"@, ids);
    assert(loaded is Err ==> projection::project(thread).pending_suspension is None) by {
        assert(loaded is Err ==> thread.turns =~= Seq::empty());
    }
}

/// A turn that goes on is the running one of its thread, and starts where the
/// thread stands; and a thread that cannot be read starts nothing.
pub proof fn law_unfinished_turn_goes_on(
    request: TurnRequestView,
    loaded: Result<ThreadView, AgentErrorView>,
    ids: IdSource,
)
    ensures
        loaded matches Err(e) ==> !(e is ThreadNotFound) ==> transitions::begin(
            request,
            loaded,
            ids,
        ) == Err::<StepView, AgentErrorView>(e),
        loaded matches Ok(thread) ==> request.user_text is None ==> {
            let state = projection::project(thread);
            let begun = transitions::begin(request, loaded, ids);
            match (state.pending_suspension, state.active_turn_id) {
                (None, Some(turn_id)) => {
                    &&& begun is Ok
                    &&& begun->Ok_0.run.turn_id == turn_id
                    &&& begun->Ok_0.events == seq![
                        TurnStreamEventView::State(
                            TurnStateEventView::TurnStarted {
                                thread_id: request.thread_id,
                                turn_id,
                            },
                        ),
                    ]
                    &&& begun->Ok_0.traces.len() == 0
                    &&& request.max_model_iterations > 0 ==> begun->Ok_0.action is LoadCache
                        && begun->Ok_0.run.phase is ReadingCache && begun->Ok_0.run.thread
                        == thread
                },
                (None, None) => begun == Err::<StepView, AgentErrorView>(
                    AgentErrorView::TurnNotFound(request.thread_id),
                ),
                (Some(pending), Some(turn_id)) if pending.turn_id == turn_id => begun is Ok
                    && begun->Ok_0.run.turn_id == turn_id,
                (Some(pending), _) => begun == Err::<StepView, AgentErrorView>(
                    AgentErrorView::SuspendedTurn {
                        thread_id: request.thread_id,
                        suspension_id: pending.suspension.id,
                    },
                ),
            }
        },
{
}

/// Whatever fails outside of a turn ends it with that error.
pub proof fn law_outside_failure_is_passed_on(run: TurnRunView, e: AgentErrorView, ids: IdSource)
    requires
        run.phase is Starting || run.phase is ReadingCache || run.phase is BuildingContext
            || run.phase is SavingCache || run.phase is Completing || run.phase is Requesting
            || run.phase is RecordingCall || run.phase is Finishing,
    ensures
        ({
            let step = next(run, TurnInputView::Failed(e), ids);
            &&& step.action == TurnActionView::Fail(e)
            &&& step.run == (TurnRunView { phase: TurnPhaseView::Done, ..run })
            &&& step.events.len() == 0
            &&& step.traces.len() == 0
        }),
{
}

} // verus!
