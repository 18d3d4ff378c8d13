//! What a turn does with each thing that it hears, told by what is stored, what is
//! asked for next and what the caller is told.
use crate::agent_core::turn::parts::{
    CallResultView, FlowView, StepView, TurnActionView, TurnInputView, TurnPhaseView,
    TurnRequestView, TurnRunView,
};
use crate::agent_core::turn::transitions::{self, next};
use crate::error::{self, AgentErrorView};
use crate::ids::{self, IdSource};
use crate::kernel::events::{
    ThreadView, TokenUsage, ToolResultView, TurnItemKindView, TurnItemSource, TurnStatus,
};
use crate::kernel::model::{
    ModelFunctionCallView, ModelRequestView, ModelResponseView, ModelStreamEventView,
};
use crate::kernel::projection::{self, ChatMessageView, ThreadProjectionView};
use crate::runtime::agent_loop::{
    FunctionCallHookResultView, TurnModelEventView, TurnOutcomeView, TurnStateEventView,
    TurnStreamEventView,
};
use crate::runtime::functions::{FunctionExecutionView, ThreadUpdateView};
use crate::runtime::recording::{self, gains, stands_at, EntryView};
use crate::runtime::turn::promises::{
    answer, charged, left_out, reports, runtime_note, said, started, stop,
};
use crate::runtime::turn::transitions as shared;
use vstd::prelude::*;

verus! {

// ---------------------------------------------------------------------------
// What is recorded

/// A thread with the goal that a call sets, if it sets one.
pub open spec fn with_goal(thread: ThreadView, update: Option<ThreadUpdateView>) -> ThreadView {
    match update {
        Some(ThreadUpdateView::Goal(goal)) => ThreadView { goal: Some(goal), ..thread },
        None => thread,
    }
}

/// A record of the goal that a call sets, if it sets one, beside the one before.
pub open spec fn goal_set(
    thread: ThreadView,
    update: Option<ThreadUpdateView>,
) -> Seq<EntryView> {
    match update {
        Some(ThreadUpdateView::Goal(goal)) => seq![
            EntryView {
                source: TurnItemSource::Runtime,
                kind: TurnItemKindView::GoalUpdated { previous: thread.goal, current: goal },
            },
        ],
        None => Seq::empty(),
    }
}

/// What a function returns is recorded under its call, as it was returned, after the
/// goal that it sets, which becomes the thread's; the thread is stored. A call that
/// suspends the turn leaves its output, its suspension and a suspended turn.
pub proof fn law_output_is_recorded(
    run: TurnRunView,
    execution: FunctionExecutionView,
    ids: IdSource,
    i: int,
)
    requires
        run.phase matches TurnPhaseView::Executing { calls, index } && index < calls.len(),
        stands_at(run.thread.turns, run.turn_id, i),
    ensures
        ({
            let calls = run.phase->Executing_calls;
            let index = run.phase->Executing_index as int;
            let step = next(run, TurnInputView::FunctionReturned(execution), ids);
            let stored = step.run.thread;
            let kept = step.run.phase->RecordingCall_result;
            &&& step.action == TurnActionView::Commit(stored)
            &&& step.run.phase == (TurnPhaseView::RecordingCall {
                calls,
                index: run.phase->Executing_index,
                before: projection::project(run.thread),
                result: kept,
            })
            &&& step.events.len() == 0
            &&& match execution {
                FunctionExecutionView::Completed { output, thread_update } => {
                    &&& kept == (CallResultView::Completed { output })
                    &&& stored.turns[i].items.last().kind == (TurnItemKindView::ToolOutput {
                        call_id: calls[index].call_id,
                        name: calls[index].name,
                        result: ToolResultView::Success { output },
                    })
                    &&& gains(
                        with_goal(run.thread, thread_update),
                        stored,
                        i,
                        goal_set(run.thread, thread_update) + seq![
                            answer(calls[index], ToolResultView::Success { output }),
                        ],
                        run.thread.turns[i].status,
                    )
                },
                FunctionExecutionView::Suspended { suspension, output, thread_update } => {
                    &&& kept == (CallResultView::Suspended { suspension, output })
                    &&& gains(
                        with_goal(run.thread, thread_update),
                        stored,
                        i,
                        goal_set(run.thread, thread_update) + seq![
                            answer(calls[index], ToolResultView::Success { output }),
                            stop(suspension),
                        ],
                        TurnStatus::Suspended,
                    )
                },
            }
        }),
{
    let calls = run.phase->Executing_calls;
    let index = run.phase->Executing_index as int;
    let update = transitions::update_of(execution);
    let entries = transitions::update_entries(run.thread, update) + transitions::result_entries(
        calls[index],
        transitions::result_of(execution),
    );
    recording::law_recorded_is_gained(
        with_goal(run.thread, update),
        run.turn_id,
        i,
        entries,
        TurnStatus::Suspended,
        ids,
    );
}

/// A call that fails, or that a hook refuses, is answered with the words of the
/// error, and the turn goes on running.
pub proof fn law_failure_is_recorded(
    run: TurnRunView,
    e: AgentErrorView,
    ids: IdSource,
    i: int,
)
    requires
        stands_at(run.thread.turns, run.turn_id, i),
    ensures
        run.phase matches TurnPhaseView::Executing { calls, index } ==> index < calls.len()
            ==> records_failure(
            run,
            next(run, TurnInputView::FunctionFailed(e), ids),
            calls,
            index,
            error::words(e),
            i,
        ),
        run.phase matches TurnPhaseView::BeforeHooks { calls, index, entered } ==> index
            < calls.len() && entered < run.hook_count ==> records_failure(
            run,
            next(run, TurnInputView::HookFailed(e), ids),
            calls,
            index,
            error::words(e),
            i,
        ),
{
    let (calls, at) = match run.phase {
        TurnPhaseView::Executing { calls, index } => (calls, index),
        TurnPhaseView::BeforeHooks { calls, index, entered } => (calls, index),
        _ => (Seq::empty(), 0usize),
    };
    let failed = seq![
        answer(calls[at as int], ToolResultView::Error { error: error::words(e) }),
    ];
    let entries = transitions::update_entries(run.thread, None) + transitions::result_entries(
        calls[at as int],
        CallResultView::Failed { error: error::words(e) },
    );
    assert(entries =~= failed);
    recording::law_recorded_is_gained(
        run.thread,
        run.turn_id,
        i,
        failed,
        TurnStatus::Suspended,
        ids,
    );
}

/// Whether a step answers a call with an error and stores that.
pub open spec fn records_failure(
    run: TurnRunView,
    step: StepView,
    calls: Seq<ModelFunctionCallView>,
    index: usize,
    error: Seq<char>,
    i: int,
) -> bool {
    &&& step.action == TurnActionView::Commit(step.run.thread)
    &&& step.run.phase == (TurnPhaseView::RecordingCall {
        calls,
        index,
        before: projection::project(run.thread),
        result: CallResultView::Failed { error },
    })
    &&& step.events.len() == 0
    &&& gains(
        run.thread,
        step.run.thread,
        i,
        seq![answer(calls[index as int], ToolResultView::Error { error })],
        run.thread.turns[i].status,
    )
}

/// Whether a step hears the calls of an answer: each is recorded, in their order,
/// and the caller is told of them; without any, the turn is completed with the text.
pub open spec fn hears(
    before: TurnRunView,
    thread: ThreadView,
    step: StepView,
    text: Seq<char>,
    calls: Seq<ModelFunctionCallView>,
    i: int,
) -> bool {
    &&& step.action == TurnActionView::Commit(step.run.thread)
    &&& if calls.len() == 0 {
        &&& step.run.phase == (TurnPhaseView::Finishing {
            outcome: TurnOutcomeView::AssistantMessage { text },
        })
        &&& gains(
            thread,
            ThreadView { token_usage: thread.token_usage, ..step.run.thread },
            i,
            Seq::empty(),
            TurnStatus::Completed,
        )
        &&& charged(thread.token_usage, before.usage, step.run.thread.token_usage)
        &&& step.events.len() == 0
    } else {
        &&& step.run.phase == (TurnPhaseView::Requesting { calls })
        &&& gains(
            thread,
            step.run.thread,
            i,
            Seq::new(
                calls.len(),
                |k: int|
                    EntryView {
                        source: TurnItemSource::Model,
                        kind: TurnItemKindView::ModelFunctionCall {
                            call_id: calls[k].call_id,
                            name: calls[k].name,
                            arguments: calls[k].arguments,
                        },
                    },
            ),
            thread.turns[i].status,
        )
        &&& step.events == seq![
            TurnStreamEventView::State(TurnStateEventView::FunctionCallsRequested { calls }),
        ]
    }
}

proof fn lemma_heard(
    f: FlowView,
    before: TurnRunView,
    text: Seq<char>,
    calls: Seq<ModelFunctionCallView>,
    i: int,
)
    requires
        stands_at(f.run.thread.turns, f.run.turn_id, i),
        f.events.len() == 0,
        f.run.usage == before.usage,
    ensures
        hears(before, f.run.thread, transitions::heard(f, text, calls), text, calls, i),
{
    recording::law_state_is_all_that_changes(
        f.run.thread,
        f.run.turn_id,
        i,
        TurnStatus::Completed,
        f.ids,
    );
    recording::law_recorded_is_gained(
        f.run.thread,
        f.run.turn_id,
        i,
        transitions::call_entries(calls),
        TurnStatus::Completed,
        f.ids,
    );
    assert(calls.len() > 0 ==> transitions::heard(f, text, calls).events =~= seq![
        TurnStreamEventView::State(TurnStateEventView::FunctionCallsRequested { calls }),
    ]);
}

/// What the model answers is recorded as it was given: its text first, which the
/// caller is told and which is stored by itself, then every call, in their order. An
/// answer without calls completes the turn with its text, charging its tokens.
pub proof fn law_reply_is_recorded(
    run: TurnRunView,
    response: ModelResponseView,
    ids: IdSource,
    thread: ThreadView,
    later: IdSource,
    i: int,
    j: int,
)
    requires
        run.phase is AwaitingModel,
        stands_at(run.thread.turns, run.turn_id, i),
        stands_at(thread.turns, run.turn_id, j),
    ensures
        ({
            let (text, calls) = said(response);
            let step = next(run, TurnInputView::ModelReplied(response), ids);
            match text {
                Some(text) => {
                    &&& step.action == TurnActionView::Commit(step.run.thread)
                    &&& step.run.phase == (TurnPhaseView::StoringText { text, calls })
                    &&& step.events == seq![
                        TurnStreamEventView::Model(TurnModelEventView::AssistantMessage { text }),
                    ]
                    &&& gains(
                        run.thread,
                        step.run.thread,
                        i,
                        seq![
                            EntryView {
                                source: TurnItemSource::Model,
                                kind: TurnItemKindView::ModelMessage { text },
                            },
                        ],
                        run.thread.turns[i].status,
                    )
                    &&& hears(
                        run,
                        thread,
                        next(step.run, TurnInputView::Committed(thread), later),
                        text,
                        calls,
                        j,
                    )
                },
                None => hears(run, run.thread, step, Seq::empty(), calls, i),
            }
        }),
{
    let (text, calls) = said(response);
    let step = next(run, TurnInputView::ModelReplied(response), ids);
    match text {
        Some(text) => {
            recording::law_recorded_is_gained(
                run.thread,
                run.turn_id,
                i,
                transitions::text_entries(text),
                TurnStatus::Completed,
                ids,
            );
            assert(step.events =~= seq![
                TurnStreamEventView::Model(TurnModelEventView::AssistantMessage { text }),
            ]);
            lemma_heard(
                transitions::on_thread(transitions::fresh(step.run, later), thread),
                run,
                text,
                calls,
                j,
            );
        },
        None => {
            lemma_heard(transitions::fresh(run, ids), run, Seq::empty(), calls, i);
        },
    }
}

/// While the model answers, its text is passed on as it comes, and the tokens that
/// it reports are added to those of the turn; nothing else changes.
pub proof fn law_stream_is_passed_on(run: TurnRunView, event: ModelStreamEventView, ids: IdSource)
    requires
        run.phase is AwaitingModel,
    ensures
        ({
            let step = next(run, TurnInputView::Model(event), ids);
            &&& step.action is Wait
            &&& step.ids == ids
            &&& match event {
                ModelStreamEventView::AssistantDelta { text } => step.run == run && step.events
                    == seq![
                    TurnStreamEventView::Model(TurnModelEventView::AssistantDelta { text }),
                ],
                ModelStreamEventView::TokenUsage { usage } => step.events.len() == 0 && charged(
                    run.usage,
                    usage,
                    step.run.usage,
                ) && step.run == (TurnRunView { usage: step.run.usage, ..run }),
            }
        }),
{
}

/// Whether a step records how a turn ended early, stores it with its tokens charged
/// and ends it that way.
pub open spec fn ends_early(
    run: TurnRunView,
    thread: ThreadView,
    step: StepView,
    i: int,
    kind: TurnItemKindView,
    status: TurnStatus,
    outcome: TurnOutcomeView,
) -> bool {
    &&& step.action == TurnActionView::Commit(step.run.thread)
    &&& step.run.phase == (TurnPhaseView::Finishing { outcome })
    &&& gains(
        thread,
        ThreadView { token_usage: thread.token_usage, ..step.run.thread },
        i,
        runtime_note(kind),
        status,
    )
    &&& charged(thread.token_usage, run.usage, step.run.thread.token_usage)
}

/// A turn that is stopped by its caller, or whose model fails, records that, is
/// stored with its tokens charged, and ends that way.
#[verifier::rlimit(50)]
#[verifier::spinoff_prover]
pub proof fn law_early_end_is_recorded(
    run: TurnRunView,
    e: AgentErrorView,
    ids: IdSource,
    i: int,
)
    requires
        stands_at(run.thread.turns, run.turn_id, i),
    ensures
        run.phase is AwaitingModel ==> ends_early(
            run,
            run.thread,
            next(run, TurnInputView::ModelFailed(e), ids),
            i,
            TurnItemKindView::TurnFailed { error: error::words(e) },
            TurnStatus::Failed,
            TurnOutcomeView::Failed { error: error::words(e) },
        ) && next(run, TurnInputView::ModelFailed(e), ids).events.len() == 0,
        run.phase is AwaitingModel || run.phase is Executing ==> ends_early(
            run,
            run.thread,
            next(run, TurnInputView::Aborted, ids),
            i,
            TurnItemKindView::TurnAborted { reason: "turn aborted by caller"@ },
            TurnStatus::Aborted,
            TurnOutcomeView::Aborted { reason: "turn aborted by caller"@ },
        ) && next(run, TurnInputView::Aborted, ids).events.len() == 0,
{
    recording::law_recorded_is_gained(
        run.thread,
        run.turn_id,
        i,
        recording::failure(error::words(e)),
        TurnStatus::Failed,
        ids,
    );
    recording::law_recorded_is_gained(
        run.thread,
        run.turn_id,
        i,
        recording::abortion("turn aborted by caller"@),
        TurnStatus::Aborted,
        ids,
    );
}

// ---------------------------------------------------------------------------
// What is done next

/// Whether a hook or a function is told of a call as it stands in a turn. A hook
/// after the call is told what the thread came to before it and comes to now.
pub open spec fn concerns(
    action: TurnActionView,
    turn_id: Seq<char>,
    thread: ThreadView,
    call: ModelFunctionCallView,
    before: ThreadProjectionView,
) -> bool {
    match action {
        TurnActionView::BeforeHook { hook, context } => {
            &&& context.thread_id == thread.id
            &&& context.turn_id == turn_id
            &&& context.call_id == call.call_id
            &&& context.name == call.name
            &&& context.arguments == call.arguments
            &&& context.projection == projection::project(thread)
            &&& context.projection_after is None
        },
        TurnActionView::AfterHook { hook, context, result } => {
            &&& context.thread_id == thread.id
            &&& context.turn_id == turn_id
            &&& context.call_id == call.call_id
            &&& context.name == call.name
            &&& context.arguments == call.arguments
            &&& context.projection == before
            &&& context.projection_after == Some(projection::project(thread))
        },
        TurnActionView::CallFunction { name, arguments, context } => {
            &&& name == call.name
            &&& arguments == call.arguments
            &&& context.thread_id == thread.id
            &&& context.turn_id == turn_id
            &&& context.call_id == call.call_id
            &&& context.projection == projection::project(thread)
        },
        _ => false,
    }
}

/// Whether a step lets the hook `entered` look at a call, or runs the call where
/// all hooks have.
pub open spec fn approaches(
    step: StepView,
    calls: Seq<ModelFunctionCallView>,
    index: int,
    entered: int,
) -> bool {
    &&& concerns(
        step.action,
        step.run.turn_id,
        step.run.thread,
        calls[index],
        projection::project(step.run.thread),
    )
    &&& if entered < step.run.hook_count {
        &&& step.action matches TurnActionView::BeforeHook { hook, context }
        &&& hook == entered
        &&& step.run.phase matches TurnPhaseView::BeforeHooks { calls: c, index: k, entered: n }
        &&& c == calls && k == index && n == entered
    } else {
        &&& step.action is CallFunction
        &&& step.run.phase matches TurnPhaseView::Executing { calls: c, index: k }
        &&& c == calls && k == index
    }
}

/// Whether a step has the messages for the model chosen from what the thread comes
/// to, with what the host adds to the request.
pub open spec fn builds(step: StepView, run: TurnRunView, thread: ThreadView) -> bool {
    &&& step.run.thread == thread
    &&& step.run.phase is BuildingContext
    &&& step.action == (TurnActionView::BuildContext {
        projection: projection::project(thread),
        runtime_context: run.runtime_context,
    })
}

/// Whether a step goes on after a call: it takes up the next one, or, where there
/// is none, builds the next request, unless the model was asked as often as is
/// allowed. `told` is what was told before.
pub open spec fn goes_on(
    before: TurnRunView,
    thread: ThreadView,
    step: StepView,
    calls: Seq<ModelFunctionCallView>,
    index: int,
    told: Seq<TurnStreamEventView>,
) -> bool {
    if index < calls.len() {
        &&& step.run.thread == thread
        &&& step.run.iteration == before.iteration
        &&& approaches(step, calls, index, 0)
        &&& step.events == told.push(started(calls[index]))
    } else {
        &&& step.run.iteration == before.iteration + 1
        &&& step.events == told
        &&& before.iteration + 1 < before.max_model_iterations ==> builds(step, before, thread)
        &&& before.iteration + 1 >= before.max_model_iterations ==> forall|i: int|
            #[trigger] stands_at(thread.turns, before.turn_id, i) ==> {
                let words = error::words(
                    AgentErrorView::MaxIterations(before.max_model_iterations),
                );
                ends_early(
                    before,
                    thread,
                    step,
                    i,
                    TurnItemKindView::TurnFailed { error: words },
                    TurnStatus::Failed,
                    TurnOutcomeView::Failed { error: words },
                )
            }
    }
}

/// Whether a step leaves a call behind as it came out: the caller is told how, and
/// the turn goes on; or, where the call suspended it, every call after it is
/// answered with an error and that is stored.
pub open spec fn leaves_behind(
    before: TurnRunView,
    thread: ThreadView,
    step: StepView,
    calls: Seq<ModelFunctionCallView>,
    index: int,
    result: CallResultView,
    told: Seq<TurnStreamEventView>,
) -> bool {
    let call = calls[index];
    let completed = TurnStreamEventView::State(
        TurnStateEventView::FunctionCompleted { call_id: call.call_id, name: call.name },
    );
    match result {
        CallResultView::Completed { output } => goes_on(
            before,
            thread,
            step,
            calls,
            index + 1,
            told.push(completed),
        ),
        CallResultView::Failed { error } => goes_on(
            before,
            thread,
            step,
            calls,
            index + 1,
            told.push(
                TurnStreamEventView::State(
                    TurnStateEventView::FunctionFailed {
                        call_id: call.call_id,
                        name: call.name,
                        error,
                    },
                ),
            ),
        ),
        CallResultView::Suspended { suspension, output } => forall|i: int|
            #[trigger] stands_at(thread.turns, before.turn_id, i) ==> {
                &&& step.action == TurnActionView::Commit(step.run.thread)
                &&& step.run.phase == (TurnPhaseView::Skipping { suspension })
                &&& gains(
                    thread,
                    step.run.thread,
                    i,
                    left_out(calls, index),
                    thread.turns[i].status,
                )
                &&& step.events == told + seq![
                    completed,
                    TurnStreamEventView::State(TurnStateEventView::Suspended { suspension }),
                ] + skipped_events(calls, index)
            },
    }
}

/// What the caller is told of the calls after one that suspended the turn.
pub open spec fn skipped_events(
    calls: Seq<ModelFunctionCallView>,
    index: int,
) -> Seq<TurnStreamEventView> {
    Seq::new(
        (calls.len() - index - 1) as nat,
        |k: int|
            TurnStreamEventView::State(
                TurnStateEventView::FunctionFailed {
                    call_id: calls[index + 1 + k].call_id,
                    name: calls[index + 1 + k].name,
                    error: "function not executed because a previous function suspended the turn"@,
                },
            ),
    )
}

/// Whether a step lets a hook look at what came of a call.
pub open spec fn shows(
    step: StepView,
    calls: Seq<ModelFunctionCallView>,
    index: int,
    before: ThreadProjectionView,
    left: int,
    result: CallResultView,
) -> bool {
    &&& concerns(step.action, step.run.turn_id, step.run.thread, calls[index], before)
    &&& step.action matches TurnActionView::AfterHook { hook, context, result: shown }
    &&& hook == left
    &&& match result {
        CallResultView::Completed { output } => shown == (FunctionCallHookResultView::Completed {
            output,
        }),
        CallResultView::Suspended { suspension, output } => shown == (
        FunctionCallHookResultView::Suspended { suspension, output }),
        CallResultView::Failed { error } => shown == (FunctionCallHookResultView::Failed { error }),
    }
    &&& step.run.phase matches TurnPhaseView::AfterHooks {
        calls: c,
        index: k,
        before: b,
        left: n,
        result: r,
    }
    &&& c == calls && k == index && b == before && n == left && r == result
}

proof fn lemma_take_up(
    before: TurnRunView,
    f: FlowView,
    calls: Seq<ModelFunctionCallView>,
    index: int,
    told: Seq<TurnStreamEventView>,
)
    requires
        0 <= index <= calls.len() <= usize::MAX,
        f.run.iteration == before.iteration,
        before.iteration < usize::MAX,
        f.run.max_model_iterations == before.max_model_iterations,
        f.run.runtime_context == before.runtime_context,
        f.run.turn_id == before.turn_id,
        f.run.usage == before.usage,
        f.events == told,
    ensures
        goes_on(
            before,
            f.run.thread,
            transitions::take_up(f, calls, index),
            calls,
            index,
            told,
        ),
{
    let words = error::words(AgentErrorView::MaxIterations(before.max_model_iterations));
    assert forall|i: int| #[trigger] stands_at(f.run.thread.turns, before.turn_id, i) implies ({
        let ended = recording::with_ending(
            f.run.thread,
            before.turn_id,
            recording::failure(words),
            TurnStatus::Failed,
            f.ids,
        );
        ended is Some && gains(
            f.run.thread,
            ended->0,
            i,
            runtime_note(TurnItemKindView::TurnFailed { error: words }),
            TurnStatus::Failed,
        )
    }) by {
        recording::law_recorded_is_gained(
            f.run.thread,
            before.turn_id,
            i,
            recording::failure(words),
            TurnStatus::Failed,
            f.ids,
        );
    }
}

proof fn lemma_tell_skipped(f: FlowView, calls: Seq<ModelFunctionCallView>, n: int)
    requires
        0 <= n <= calls.len(),
    ensures
        transitions::tell_skipped(f, calls, n) == (FlowView {
            events: f.events + Seq::new(
                n as nat,
                |k: int|
                    TurnStreamEventView::State(
                        TurnStateEventView::FunctionFailed {
                            call_id: calls[k].call_id,
                            name: calls[k].name,
                            error: "function not executed because a previous function suspended the turn"@,
                        },
                    ),
            ),
            ..f
        }),
    decreases n,
{
    if n > 0 {
        lemma_tell_skipped(f, calls, n - 1);
    }
    assert(transitions::tell_skipped(f, calls, n).events =~= f.events + Seq::new(
        n as nat,
        |k: int|
            TurnStreamEventView::State(
                TurnStateEventView::FunctionFailed {
                    call_id: calls[k].call_id,
                    name: calls[k].name,
                    error: "function not executed because a previous function suspended the turn"@,
                },
            ),
    ));
}

#[verifier::rlimit(50)]
#[verifier::spinoff_prover]
proof fn lemma_settle(
    before: TurnRunView,
    f: FlowView,
    calls: Seq<ModelFunctionCallView>,
    index: usize,
    result: CallResultView,
    told: Seq<TurnStreamEventView>,
)
    requires
        index < calls.len() <= usize::MAX,
        f.run.iteration == before.iteration,
        before.iteration < usize::MAX,
        f.run.max_model_iterations == before.max_model_iterations,
        f.run.runtime_context == before.runtime_context,
        f.run.turn_id == before.turn_id,
        f.run.usage == before.usage,
        f.events == told,
    ensures
        leaves_behind(
            before,
            f.run.thread,
            transitions::settle(f, calls, index, result),
            calls,
            index as int,
            result,
            told,
        ),
{
    let call = calls[index as int];
    let step = transitions::settle(f, calls, index, result);
    let later = shared::later_calls(calls, index);
    let completed = transitions::state(
        f,
        TurnStateEventView::FunctionCompleted { call_id: call.call_id, name: call.name },
    );
    match result {
        CallResultView::Completed { output } => {
            lemma_take_up(before, completed, calls, index + 1, completed.events);
        },
        CallResultView::Failed { error } => {
            let failed = transitions::state(
                f,
                TurnStateEventView::FunctionFailed {
                    call_id: call.call_id,
                    name: call.name,
                    error,
                },
            );
            lemma_take_up(before, failed, calls, index + 1, failed.events);
        },
        CallResultView::Suspended { suspension, output } => {
            let g = transitions::state(completed, TurnStateEventView::Suspended { suspension });
            lemma_tell_skipped(g, later, later.len() as int);
            assert(shared::skipped_entries(later) =~= left_out(calls, index as int));
            let all = told + seq![
                completed.events.last(),
                TurnStreamEventView::State(TurnStateEventView::Suspended { suspension }),
            ] + skipped_events(calls, index as int);
            assert(transitions::tell_skipped(g, later, later.len() as int).events =~= all);
            assert forall|i: int| #[trigger] stands_at(
                f.run.thread.turns,
                before.turn_id,
                i,
            ) implies recording::with_entries(
                f.run.thread,
                before.turn_id,
                left_out(calls, index as int),
                f.ids,
            ) is Some && gains(
                f.run.thread,
                recording::with_entries(
                    f.run.thread,
                    before.turn_id,
                    left_out(calls, index as int),
                    f.ids,
                )->0,
                i,
                left_out(calls, index as int),
                f.run.thread.turns[i].status,
            ) by {
                recording::law_recorded_is_gained(
                    f.run.thread,
                    before.turn_id,
                    i,
                    left_out(calls, index as int),
                    TurnStatus::Suspended,
                    f.ids,
                );
            }
        },
    }
}

/// Once the calls of an answer are stored, the first of them is taken up.
pub proof fn law_first_call_is_taken_up(run: TurnRunView, thread: ThreadView, ids: IdSource)
    requires
        run.phase matches TurnPhaseView::Requesting { calls } && 0 < calls.len() <= usize::MAX,
        run.iteration < usize::MAX,
    ensures
        goes_on(
            run,
            thread,
            next(run, TurnInputView::Committed(thread), ids),
            run.phase->Requesting_calls,
            0,
            Seq::empty(),
        ),
{
    lemma_take_up(
        run,
        transitions::on_thread(transitions::fresh(run, ids), thread),
        run.phase->Requesting_calls,
        0,
        Seq::empty(),
    );
}

/// A hook that passes a call hands it, unchanged, to the next hook or, after the
/// last, to the function that it names.
pub proof fn law_passed_call_is_handed_on(run: TurnRunView, ids: IdSource)
    requires
        run.phase matches TurnPhaseView::BeforeHooks { calls, index, entered } && index
            < calls.len() && entered < run.hook_count,
    ensures
        ({
            let step = next(run, TurnInputView::HookPassed, ids);
            &&& step.run.thread == run.thread
            &&& approaches(
                step,
                run.phase->BeforeHooks_calls,
                run.phase->BeforeHooks_index as int,
                run.phase->BeforeHooks_entered + 1,
            )
            &&& step.events.len() == 0
        }),
{
}

/// Once what came of a call is stored, the hooks are shown it, the first one first;
/// and without any, the call is left behind.
#[verifier::rlimit(50)]
#[verifier::spinoff_prover]
pub proof fn law_result_is_shown(run: TurnRunView, thread: ThreadView, ids: IdSource)
    requires
        run.phase matches TurnPhaseView::RecordingCall { calls, index, before, result } && index
            < calls.len() <= usize::MAX,
        run.iteration < usize::MAX,
    ensures
        ({
            let calls = run.phase->RecordingCall_calls;
            let index = run.phase->RecordingCall_index as int;
            let before = run.phase->RecordingCall_before;
            let result = run.phase->RecordingCall_result;
            let step = next(run, TurnInputView::Committed(thread), ids);
            if run.hook_count > 0 {
                &&& step.run.thread == thread
                &&& shows(step, calls, index, before, 0, result)
                &&& step.events.len() == 0
            } else {
                leaves_behind(run, thread, step, calls, index, result, Seq::empty())
            }
        }),
{
    if run.hook_count == 0 {
        lemma_settle(
            run,
            transitions::on_thread(transitions::fresh(run, ids), thread),
            run.phase->RecordingCall_calls,
            run.phase->RecordingCall_index,
            run.phase->RecordingCall_result,
            Seq::empty(),
        );
    }
}

/// After a hook has seen what came of a call, the next one is shown the same; after
/// the last, the call is left behind. A hook that fails at this is reported, and
/// changes nothing else.
#[verifier::rlimit(50)]
#[verifier::spinoff_prover]
pub proof fn law_hooks_see_the_result(
    run: TurnRunView,
    failure: Option<AgentErrorView>,
    ids: IdSource,
)
    requires
        run.phase matches TurnPhaseView::AfterHooks { calls, index, before, left, result } && index
            < calls.len() <= usize::MAX && left < run.hook_count,
        run.iteration < usize::MAX,
    ensures
        ({
            let calls = run.phase->AfterHooks_calls;
            let index = run.phase->AfterHooks_index as int;
            let before = run.phase->AfterHooks_before;
            let left = run.phase->AfterHooks_left as int;
            let result = run.phase->AfterHooks_result;
            let step = match failure {
                None => next(run, TurnInputView::HookPassed, ids),
                Some(e) => next(run, TurnInputView::HookFailed(e), ids),
            };
            &&& failure matches Some(e) ==> if left + 1 < run.hook_count {
                &&& step.events.len() == 1
                &&& reports(step.events[0], calls[index], error::words(e))
            } else {
                exists|event: TurnStreamEventView|
                    #[trigger] reports(event, calls[index], error::words(e)) && leaves_behind(
                        run,
                        run.thread,
                        step,
                        calls,
                        index,
                        result,
                        seq![event],
                    )
            }
            &&& left + 1 < run.hook_count ==> {
                &&& step.run.thread == run.thread
                &&& shows(step, calls, index, before, left + 1, result)
                &&& failure is None ==> step.events.len() == 0
            }
            &&& left + 1 >= run.hook_count && failure is None ==> leaves_behind(
                run,
                run.thread,
                step,
                calls,
                index,
                result,
                Seq::empty(),
            )
        }),
{
    let calls = run.phase->AfterHooks_calls;
    let at = run.phase->AfterHooks_index;
    let left = run.phase->AfterHooks_left as int;
    let result = run.phase->AfterHooks_result;
    match failure {
        None => {
            if left + 1 >= run.hook_count {
                lemma_settle(
                    run,
                    transitions::fresh(run, ids),
                    calls,
                    at,
                    result,
                    Seq::empty(),
                );
            }
        },
        Some(e) => {
            let event = TurnStreamEventView::Runtime(
                shared::hook_failure(calls[at as int], error::words(e)),
            );
            let f = transitions::emit(transitions::fresh(run, ids), event);
            reveal_strlit("call_id");
            reveal_strlit("name");
            reveal_strlit("error");
            assert("call_id"@.len() == 7 && "name"@.len() == 4 && "error"@.len() == 5);
            assert(reports(event, calls[at as int], error::words(e)));
            if left + 1 >= run.hook_count {
                assert(f.events =~= seq![event]);
                lemma_settle(run, f, calls, at, result, seq![event]);
            }
        },
    }
}

/// The model is asked with exactly the messages that were chosen and the functions
/// of the turn.
pub proof fn law_model_is_asked_with_the_context(
    run: TurnRunView,
    messages: Seq<ChatMessageView>,
    ids: IdSource,
)
    requires
        run.phase is BuildingContext,
    ensures
        ({
            let step = next(run, TurnInputView::ContextBuilt { messages }, ids);
            &&& step.action == TurnActionView::CallModel(
                ModelRequestView { messages, functions: run.functions },
            )
            &&& step.events == seq![
                TurnStreamEventView::Model(
                    TurnModelEventView::RequestStarted { iteration: run.iteration },
                ),
            ]
            &&& step.run == (TurnRunView { phase: TurnPhaseView::AwaitingModel, ..run })
        }),
{
}

/// Once the calls that a suspension leaves out are answered, the tokens are charged
/// and the turn ends in that suspension.
pub proof fn law_suspension_is_the_outcome(run: TurnRunView, thread: ThreadView, ids: IdSource)
    requires
        run.phase is Skipping,
    ensures
        ({
            let suspension = run.phase->Skipping_suspension;
            let step = next(run, TurnInputView::Committed(thread), ids);
            &&& step.action == TurnActionView::Commit(step.run.thread)
            &&& step.run.thread == (ThreadView {
                token_usage: step.run.thread.token_usage,
                ..thread
            })
            &&& charged(thread.token_usage, run.usage, step.run.thread.token_usage)
            &&& step.run.phase == (TurnPhaseView::Finishing {
                outcome: TurnOutcomeView::Suspended { suspension },
            })
            &&& step.events.len() == 0
        }),
{
}

/// Once a finished turn is stored, its outcome is what the turn ends with; the
/// caller hears why it ended early, the tokens it used, if any, and last its
/// outcome.
#[verifier::rlimit(50)]
#[verifier::spinoff_prover]
pub proof fn law_outcome_is_told(run: TurnRunView, thread: ThreadView, ids: IdSource)
    requires
        run.phase is Finishing,
    ensures
        ({
            let outcome = run.phase->Finishing_outcome;
            let step = next(run, TurnInputView::Committed(thread), ids);
            let why = match outcome {
                TurnOutcomeView::Failed { error } => seq![
                    TurnStreamEventView::State(TurnStateEventView::TurnFailed { error }),
                ],
                TurnOutcomeView::Aborted { reason } => seq![
                    TurnStreamEventView::State(TurnStateEventView::TurnAborted { reason }),
                ],
                _ => Seq::empty(),
            };
            let nothing = run.usage.input_tokens == 0 && run.usage.cached_input_tokens == 0
                && run.usage.output_tokens == 0 && run.usage.total_tokens == 0;
            let used = if nothing {
                Seq::empty()
            } else {
                seq![
                    TurnStreamEventView::State(
                        TurnStateEventView::TurnTokenUsage { usage: run.usage },
                    ),
                ]
            };
            &&& step.action == TurnActionView::Finish(outcome)
            &&& step.run.phase is Done
            &&& step.run.thread == thread
            &&& step.events == (why + used).push(
                TurnStreamEventView::State(TurnStateEventView::TurnFinished { outcome }),
            )
        }),
{
    let none = Seq::<TurnStreamEventView>::empty();
    assert(none + none =~= none);
}

/// A prompt becomes a new running turn at the end of the thread, or of a new thread
/// where there was none, that holds exactly what the user said, as the answer to the
/// suspension that the thread waits for, if there is one; the thread is stored
/// before anything else, then the turn starts and builds its first request.
pub proof fn law_prompt_is_recorded(
    request: TurnRequestView,
    loaded: Result<ThreadView, AgentErrorView>,
    ids: IdSource,
    stored: ThreadView,
    later: IdSource,
)
    ensures
        loaded matches Err(e) ==> !(e is ThreadNotFound) ==> transitions::begin(
            request,
            loaded,
            ids,
        ) == Err::<StepView, AgentErrorView>(e),
        !(loaded matches Err(e) && !(e is ThreadNotFound)) ==> {
            let begun = transitions::begin(request, loaded, ids);
            let first = begun->Ok_0;
            let made = first.run.thread;
            let turn = made.turns.last();
            let starts = next(first.run, TurnInputView::Committed(stored), later);
            &&& begun is Ok
            &&& first.action == TurnActionView::Commit(made)
            &&& first.events.len() == 0
            &&& match loaded {
                Ok(thread) => made == (ThreadView { turns: made.turns, ..thread })
                    && made.turns.drop_last() == thread.turns,
                Err(e) => {
                    &&& made.id == request.thread_id
                    &&& made.turns.len() == 1
                    &&& made.goal is None
                    &&& made.version == 0
                    &&& made.schema_version == 1
                },
            }
            &&& made.turns.len() > 0
            &&& turn.status == TurnStatus::Running
            &&& turn.items.len() == 1
            &&& turn.items[0].source == TurnItemSource::User
            &&& turn.items[0].kind == (TurnItemKindView::UserInput {
                text: request.user_text,
                response_to: match loaded {
                    Ok(thread) => match projection::project(thread).pending_suspension {
                        Some(pending) => Some(pending.suspension.id),
                        None => None,
                    },
                    Err(e) => None,
                },
            })
            &&& turn.items[0].id != turn.id
            &&& first.run.turn_id == turn.id
            &&& first.run.thread_id == request.thread_id
            &&& first.run.functions == request.functions
            &&& first.run.max_model_iterations == request.max_model_iterations
            &&& first.run.hook_count == request.hook_count
            &&& first.run.runtime_context == request.runtime_context
            &&& first.run.iteration == 0
            &&& first.run.usage == (TokenUsage {
                input_tokens: 0,
                cached_input_tokens: 0,
                output_tokens: 0,
                total_tokens: 0,
            })
            &&& starts.events == seq![
                TurnStreamEventView::State(
                    TurnStateEventView::TurnStarted {
                        thread_id: request.thread_id,
                        turn_id: turn.id,
                    },
                ),
            ]
            &&& request.max_model_iterations > 0 ==> builds(starts, first.run, stored)
        },
{
    if shared::opened(request.thread_id, loaded, ids) is Ok {
        let thread = shared::opened(request.thread_id, loaded, ids)->Ok_0;
        let turn = shared::prompted_turn(
            request.user_text,
            transitions::answered_suspension(thread),
            ids,
        );
        assert(thread.turns.push(turn).drop_last() =~= thread.turns);
        ids::law_counters_differ(ids, 0, 1);
        ids::law_ids_differ("item"@, ids::after(ids, 1), "turn"@, ids);
        assert(loaded is Err ==> projection::project(thread).pending_suspension is None) by {
            assert(loaded is Err ==> thread.turns =~= Seq::empty());
        }
    }
}

/// Whatever fails outside of a turn ends it with that error.
pub proof fn law_outside_failure_is_passed_on(run: TurnRunView, e: AgentErrorView, ids: IdSource)
    requires
        run.phase is Starting || run.phase is BuildingContext || run.phase is StoringText
            || run.phase is Requesting || run.phase is RecordingCall || run.phase is Skipping
            || run.phase is Finishing,
    ensures
        ({
            let step = next(run, TurnInputView::Failed(e), ids);
            &&& step.action == TurnActionView::Fail(e)
            &&& step.run == (TurnRunView { phase: TurnPhaseView::Done, ..run })
            &&& step.events.len() == 0
        }),
{
}

} // verus!
