//! How a turn moves from one state to the next.
use crate::agent_core::agent_loop::FunctionCallHookContextView;
use crate::agent_core::turn::parts::{
    CallResultView, FlowView, StepView, TurnActionView, TurnInputView, TurnPhaseView,
    TurnRequestView, TurnRunView,
};
use crate::error::{self, AgentErrorView};
use crate::ids::{self, IdSource};
use crate::kernel::events::{
    self, ThreadView, TokenUsage, ToolResultView, TurnItemKindView, TurnItemSource, TurnStatus,
};
use crate::kernel::model::{ModelFunctionCallView, ModelRequestView, ModelStreamEventView};
use crate::kernel::projection::{self, ChatMessageView, ThreadProjectionView};
use crate::runtime::agent_loop::{
    FunctionCallHookResultView, TurnModelEventView, TurnOutcomeView, TurnStateEventView,
    TurnStreamEventView,
};
use crate::runtime::functions::{FunctionContextView, FunctionExecutionView, ThreadUpdateView};
use crate::runtime::recording::{self, EntryView};
use crate::runtime::turn::transitions as shared;
use vstd::prelude::*;

verus! {

/// Reports an event.
pub open spec fn emit(f: FlowView, event: TurnStreamEventView) -> FlowView {
    FlowView { events: f.events.push(event), ..f }
}

/// Reports a change of state.
pub open spec fn state(f: FlowView, event: TurnStateEventView) -> FlowView {
    emit(f, TurnStreamEventView::State(event))
}

/// The thread as it now stands.
pub open spec fn on_thread(f: FlowView, thread: ThreadView) -> FlowView {
    FlowView { run: TurnRunView { thread, ..f.run }, ..f }
}

/// The flow after `n` identifiers were given out.
pub open spec fn counted(f: FlowView, n: nat) -> FlowView {
    FlowView { ids: ids::after(f.ids, n), ..f }
}

/// The end of a step.
pub open spec fn proceed(f: FlowView, phase: TurnPhaseView, action: TurnActionView) -> StepView {
    StepView { run: TurnRunView { phase, ..f.run }, action, events: f.events, ids: f.ids }
}

/// Ends the turn with an error.
pub open spec fn give_up(f: FlowView, error: AgentErrorView) -> StepView {
    proceed(f, TurnPhaseView::Done, TurnActionView::Fail(error))
}

/// Ends the turn because the thread does not have it.
pub open spec fn lost(f: FlowView, entries: Seq<EntryView>) -> StepView {
    give_up(counted(f, entries.len()), AgentErrorView::TurnNotFound(f.run.turn_id))
}

/// Records `entries` in the turn, if the thread has it.
pub open spec fn write(f: FlowView, entries: Seq<EntryView>) -> Option<FlowView> {
    match recording::with_entries(f.run.thread, f.run.turn_id, entries, f.ids) {
        Some(thread) => Some(counted(on_thread(f, thread), entries.len())),
        None => None,
    }
}

/// Records `entries` in the turn and moves it to another state, if the thread
/// has it.
pub open spec fn close(
    f: FlowView,
    entries: Seq<EntryView>,
    status: TurnStatus,
) -> Option<FlowView> {
    match recording::with_ending(f.run.thread, f.run.turn_id, entries, status, f.ids) {
        Some(thread) => Some(counted(on_thread(f, thread), entries.len())),
        None => None,
    }
}

/// Stores the thread.
pub open spec fn commit(f: FlowView, phase: TurnPhaseView) -> StepView {
    proceed(f, phase, TurnActionView::Commit(f.run.thread))
}

/// Charges the tokens and stores the finished turn.
pub open spec fn conclude(f: FlowView, outcome: TurnOutcomeView) -> StepView {
    let thread = ThreadView {
        token_usage: events::usage_sum(f.run.thread.token_usage, f.run.usage),
        ..f.run.thread
    };
    commit(on_thread(f, thread), TurnPhaseView::Finishing { outcome })
}

/// Records that the turn failed.
pub open spec fn fail(f: FlowView, error: Seq<char>) -> StepView {
    match close(f, recording::failure(error), TurnStatus::Failed) {
        Some(g) => conclude(g, TurnOutcomeView::Failed { error }),
        None => lost(f, recording::failure(error)),
    }
}

/// Records that the turn was aborted.
pub open spec fn abort(f: FlowView) -> StepView {
    match close(f, recording::abortion(shared::abort_reason()), TurnStatus::Aborted) {
        Some(g) => conclude(g, TurnOutcomeView::Aborted { reason: shared::abort_reason() }),
        None => lost(f, recording::abortion(shared::abort_reason())),
    }
}

/// Goes to the model again, unless it was asked too often.
pub open spec fn iterate(f: FlowView) -> StepView {
    if f.run.iteration < f.run.max_model_iterations {
        proceed(
            f,
            TurnPhaseView::BuildingContext,
            TurnActionView::BuildContext {
                projection: projection::project(f.run.thread),
                runtime_context: f.run.runtime_context,
            },
        )
    } else {
        fail(f, error::words(AgentErrorView::MaxIterations(f.run.max_model_iterations)))
    }
}

/// Asks the model.
pub open spec fn ask(f: FlowView, messages: Seq<ChatMessageView>) -> StepView {
    proceed(
        emit(
            f,
            TurnStreamEventView::Model(
                TurnModelEventView::RequestStarted { iteration: f.run.iteration },
            ),
        ),
        TurnPhaseView::AwaitingModel,
        TurnActionView::CallModel(ModelRequestView { messages, functions: f.run.functions }),
    )
}

/// The entries for a text of the model.
pub open spec fn text_entries(text: Seq<char>) -> Seq<EntryView> {
    seq![
        EntryView {
            source: TurnItemSource::Model,
            kind: TurnItemKindView::ModelMessage { text },
        },
    ]
}

/// The entries for calls of the model.
pub open spec fn call_entries(calls: Seq<ModelFunctionCallView>) -> Seq<EntryView> {
    Seq::new(
        calls.len(),
        |k: int|
            EntryView {
                source: TurnItemSource::Model,
                kind: TurnItemKindView::ModelFunctionCall {
                    call_id: calls[k].call_id,
                    name: calls[k].name,
                    arguments: calls[k].arguments,
                },
            },
    )
}

/// The model has answered.
pub open spec fn replied(
    f: FlowView,
    text: Option<Seq<char>>,
    calls: Seq<ModelFunctionCallView>,
) -> StepView {
    match text {
        Some(text) => {
            let told = emit(
                f,
                TurnStreamEventView::Model(TurnModelEventView::AssistantMessage { text }),
            );
            match write(told, text_entries(text)) {
                Some(g) => commit(g, TurnPhaseView::StoringText { text, calls }),
                None => lost(told, text_entries(text)),
            }
        },
        None => heard(f, Seq::empty(), calls),
    }
}

/// The text of an answer is stored: the answer was the last word, or its calls
/// are to be made.
pub open spec fn heard(
    f: FlowView,
    text: Seq<char>,
    calls: Seq<ModelFunctionCallView>,
) -> StepView {
    if calls.len() == 0 {
        match recording::with_turn_status(
            f.run.thread,
            f.run.turn_id,
            TurnStatus::Completed,
            f.ids,
        ) {
            Some(thread) => conclude(
                on_thread(f, thread),
                TurnOutcomeView::AssistantMessage { text },
            ),
            None => give_up(f, AgentErrorView::TurnNotFound(f.run.turn_id)),
        }
    } else {
        let told = state(f, TurnStateEventView::FunctionCallsRequested { calls });
        match write(told, call_entries(calls)) {
            Some(g) => commit(g, TurnPhaseView::Requesting { calls }),
            None => lost(told, call_entries(calls)),
        }
    }
}

/// What a hook is told of a call.
pub open spec fn hook_context(
    run: TurnRunView,
    call: ModelFunctionCallView,
    before: ThreadProjectionView,
    after: Option<ThreadProjectionView>,
) -> FunctionCallHookContextView {
    FunctionCallHookContextView {
        thread_id: run.thread.id,
        turn_id: run.turn_id,
        call_id: call.call_id,
        name: call.name,
        arguments: call.arguments,
        projection: before,
        projection_after: after,
    }
}

/// Lets the next hook look at a call, or runs it once all have passed it.
pub open spec fn enter(
    f: FlowView,
    calls: Seq<ModelFunctionCallView>,
    index: usize,
    entered: usize,
) -> StepView {
    let call = calls[index as int];
    let now = projection::project(f.run.thread);
    if entered < f.run.hook_count {
        proceed(
            f,
            TurnPhaseView::BeforeHooks { calls, index, entered },
            TurnActionView::BeforeHook {
                hook: entered,
                context: hook_context(f.run, call, now, None),
            },
        )
    } else {
        proceed(
            f,
            TurnPhaseView::Executing { calls, index },
            TurnActionView::CallFunction {
                name: call.name,
                arguments: call.arguments,
                context: FunctionContextView {
                    thread_id: f.run.thread.id,
                    turn_id: f.run.turn_id,
                    call_id: call.call_id,
                    projection: now,
                },
            },
        )
    }
}

/// Takes up a call, or goes back to the model when all are done.
pub open spec fn take_up(f: FlowView, calls: Seq<ModelFunctionCallView>, index: int) -> StepView {
    if 0 <= index < calls.len() {
        let call = calls[index];
        enter(
            state(
                f,
                TurnStateEventView::FunctionStarted { call_id: call.call_id, name: call.name },
            ),
            calls,
            index as usize,
            0,
        )
    } else {
        let iteration = if f.run.iteration < usize::MAX {
            (f.run.iteration + 1) as usize
        } else {
            usize::MAX
        };
        iterate(FlowView { run: TurnRunView { iteration, ..f.run }, ..f })
    }
}

/// The thread with a change that a function asked for.
pub open spec fn updated(thread: ThreadView, update: Option<ThreadUpdateView>) -> ThreadView {
    match update {
        Some(ThreadUpdateView::Goal(goal)) => ThreadView { goal: Some(goal), ..thread },
        None => thread,
    }
}

/// The entries for a change that a function asked for.
pub open spec fn update_entries(
    thread: ThreadView,
    update: Option<ThreadUpdateView>,
) -> Seq<EntryView> {
    match update {
        Some(ThreadUpdateView::Goal(goal)) => seq![
            EntryView {
                source: TurnItemSource::Runtime,
                kind: TurnItemKindView::GoalUpdated { previous: thread.goal, current: goal },
            },
        ],
        None => Seq::empty(),
    }
}

/// The entries for what came of a call, after those for its change.
pub open spec fn result_entries(
    call: ModelFunctionCallView,
    result: CallResultView,
) -> Seq<EntryView> {
    match result {
        CallResultView::Completed { output } => seq![
            shared::output_entry(call, ToolResultView::Success { output }),
        ],
        CallResultView::Suspended { suspension, output } => seq![
            shared::output_entry(call, ToolResultView::Success { output }),
            shared::suspension_entry(suspension),
        ],
        CallResultView::Failed { error } => seq![
            shared::output_entry(call, ToolResultView::Error { error }),
        ],
    }
}

/// Records what came of a call.
pub open spec fn record(
    f: FlowView,
    calls: Seq<ModelFunctionCallView>,
    index: usize,
    update: Option<ThreadUpdateView>,
    result: CallResultView,
) -> StepView {
    let before = projection::project(f.run.thread);
    let entries = update_entries(f.run.thread, update) + result_entries(
        calls[index as int],
        result,
    );
    let changed = on_thread(f, updated(f.run.thread, update));
    let written = if result is Suspended {
        close(changed, entries, TurnStatus::Suspended)
    } else {
        write(changed, entries)
    };
    match written {
        Some(g) => commit(g, TurnPhaseView::RecordingCall { calls, index, before, result }),
        None => lost(changed, entries),
    }
}

/// What hooks are told of the result of a call.
pub open spec fn hook_result(result: CallResultView) -> FunctionCallHookResultView {
    match result {
        CallResultView::Completed { output } => FunctionCallHookResultView::Completed { output },
        CallResultView::Suspended { suspension, output } => FunctionCallHookResultView::Suspended {
            suspension,
            output,
        },
        CallResultView::Failed { error } => FunctionCallHookResultView::Failed { error },
    }
}

/// Lets the hooks look at the result of a call, in their order, and then moves
/// on.
pub open spec fn leave(
    f: FlowView,
    calls: Seq<ModelFunctionCallView>,
    index: usize,
    before: ThreadProjectionView,
    left: usize,
    result: CallResultView,
) -> StepView {
    if left < f.run.hook_count {
        proceed(
            f,
            TurnPhaseView::AfterHooks { calls, index, before, left, result },
            TurnActionView::AfterHook {
                hook: left,
                context: hook_context(
                    f.run,
                    calls[index as int],
                    before,
                    Some(projection::project(f.run.thread)),
                ),
                result: hook_result(result),
            },
        )
    } else {
        settle(f, calls, index, result)
    }
}

/// Reports the first `n` calls before which the turn stopped.
pub open spec fn tell_skipped(f: FlowView, calls: Seq<ModelFunctionCallView>, n: int) -> FlowView
    decreases n,
{
    if n <= 0 {
        f
    } else {
        state(
            tell_skipped(f, calls, n - 1),
            TurnStateEventView::FunctionFailed {
                call_id: calls[n - 1].call_id,
                name: calls[n - 1].name,
                error: shared::skipped_error(),
            },
        )
    }
}

/// Moves on after a call. A suspension ends the turn; the calls after it get an
/// error for an answer, so that none is left without one.
pub open spec fn settle(
    f: FlowView,
    calls: Seq<ModelFunctionCallView>,
    index: usize,
    result: CallResultView,
) -> StepView {
    let call = calls[index as int];
    let completed = state(
        f,
        TurnStateEventView::FunctionCompleted { call_id: call.call_id, name: call.name },
    );
    match result {
        CallResultView::Completed { output } => take_up(completed, calls, index + 1),
        CallResultView::Failed { error } => take_up(
            state(
                f,
                TurnStateEventView::FunctionFailed {
                    call_id: call.call_id,
                    name: call.name,
                    error,
                },
            ),
            calls,
            index + 1,
        ),
        CallResultView::Suspended { suspension, output } => {
            let skipped = shared::later_calls(calls, index);
            let told = tell_skipped(
                state(completed, TurnStateEventView::Suspended { suspension }),
                skipped,
                skipped.len() as int,
            );
            match write(told, shared::skipped_entries(skipped)) {
                Some(g) => commit(g, TurnPhaseView::Skipping { suspension }),
                None => lost(told, shared::skipped_entries(skipped)),
            }
        },
    }
}

/// Reports why a turn ended early.
pub open spec fn tell_ending(f: FlowView, outcome: TurnOutcomeView) -> FlowView {
    match outcome {
        TurnOutcomeView::Failed { error } => state(f, TurnStateEventView::TurnFailed { error }),
        TurnOutcomeView::Aborted { reason } => state(f, TurnStateEventView::TurnAborted { reason }),
        _ => f,
    }
}

/// Reports the tokens that a turn used, if any.
pub open spec fn tell_usage(f: FlowView, usage: TokenUsage) -> FlowView {
    if usage == events::no_usage() {
        f
    } else {
        state(f, TurnStateEventView::TurnTokenUsage { usage })
    }
}

/// The turn is stored and over.
pub open spec fn finish(f: FlowView, outcome: TurnOutcomeView) -> StepView {
    proceed(
        state(
            tell_usage(tell_ending(f, outcome), f.run.usage),
            TurnStateEventView::TurnFinished { outcome },
        ),
        TurnPhaseView::Done,
        TurnActionView::Finish(outcome),
    )
}

/// A turn at the start of a step.
pub open spec fn fresh(run: TurnRunView, ids: IdSource) -> FlowView {
    FlowView {
        run: TurnRunView { phase: TurnPhaseView::Done, ..run },
        events: Seq::empty(),
        ids,
    }
}

/// A step in which nothing happens.
pub open spec fn wait(run: TurnRunView, ids: IdSource) -> StepView {
    StepView { run, action: TurnActionView::Wait, events: Seq::empty(), ids }
}

/// Whether a phase waits for the store or for the choice of messages, either of
/// which can fail.
pub open spec fn can_fail(phase: TurnPhaseView) -> bool {
    phase is Starting || phase is BuildingContext || phase is StoringText || phase is Requesting
        || phase is RecordingCall || phase is Skipping || phase is Finishing
}

/// The store has taken the thread.
pub open spec fn committed(run: TurnRunView, thread: ThreadView, ids: IdSource) -> StepView {
    let f = on_thread(fresh(run, ids), thread);
    match run.phase {
        TurnPhaseView::Starting => iterate(
            state(
                f,
                TurnStateEventView::TurnStarted {
                    thread_id: run.thread_id,
                    turn_id: run.turn_id,
                },
            ),
        ),
        TurnPhaseView::StoringText { text, calls } => heard(f, text, calls),
        TurnPhaseView::Requesting { calls } => take_up(f, calls, 0),
        TurnPhaseView::RecordingCall { calls, index, before, result } => if index < calls.len() {
            leave(f, calls, index, before, 0, result)
        } else {
            wait(run, ids)
        },
        TurnPhaseView::Skipping { suspension } => conclude(
            f,
            TurnOutcomeView::Suspended { suspension },
        ),
        TurnPhaseView::Finishing { outcome } => finish(f, outcome),
        _ => wait(run, ids),
    }
}

/// A hook has returned.
pub open spec fn hooked(
    run: TurnRunView,
    error: Option<AgentErrorView>,
    ids: IdSource,
) -> StepView {
    match run.phase {
        TurnPhaseView::BeforeHooks { calls, index, entered } => if index < calls.len() && entered
            < run.hook_count {
            match error {
                None => enter(fresh(run, ids), calls, index, (entered + 1) as usize),
                Some(e) => record(
                    fresh(run, ids),
                    calls,
                    index,
                    None,
                    CallResultView::Failed { error: error::words(e) },
                ),
            }
        } else {
            wait(run, ids)
        },
        TurnPhaseView::AfterHooks { calls, index, before, left, result } => if index < calls.len()
            && left < run.hook_count {
            let f = match error {
                None => fresh(run, ids),
                Some(e) => emit(
                    fresh(run, ids),
                    TurnStreamEventView::Runtime(
                        shared::hook_failure(calls[index as int], error::words(e)),
                    ),
                ),
            };
            leave(f, calls, index, before, (left + 1) as usize, result)
        } else {
            wait(run, ids)
        },
        _ => wait(run, ids),
    }
}

/// The result of a call that ran.
pub open spec fn result_of(execution: FunctionExecutionView) -> CallResultView {
    match execution {
        FunctionExecutionView::Completed { output, thread_update } => CallResultView::Completed {
            output,
        },
        FunctionExecutionView::Suspended { suspension, output, thread_update } => {
            CallResultView::Suspended { suspension, output }
        },
    }
}

/// The change that a call that ran asks for.
pub open spec fn update_of(execution: FunctionExecutionView) -> Option<ThreadUpdateView> {
    match execution {
        FunctionExecutionView::Completed { output, thread_update } => thread_update,
        FunctionExecutionView::Suspended { suspension, output, thread_update } => thread_update,
    }
}

/// The step that a turn takes on an input. An input that the turn does not wait
/// for changes nothing.
pub open spec fn next(run: TurnRunView, input: TurnInputView, ids: IdSource) -> StepView {
    match input {
        TurnInputView::Committed(thread) => committed(run, thread, ids),
        TurnInputView::ContextBuilt { messages } => if run.phase is BuildingContext {
            ask(fresh(run, ids), messages)
        } else {
            wait(run, ids)
        },
        TurnInputView::Model(event) => if run.phase is AwaitingModel {
            match event {
                ModelStreamEventView::AssistantDelta { text } => proceed(
                    emit(
                        fresh(run, ids),
                        TurnStreamEventView::Model(TurnModelEventView::AssistantDelta { text }),
                    ),
                    run.phase,
                    TurnActionView::Wait,
                ),
                ModelStreamEventView::TokenUsage { usage } => wait(
                    TurnRunView { usage: events::usage_sum(run.usage, usage), ..run },
                    ids,
                ),
            }
        } else {
            wait(run, ids)
        },
        TurnInputView::ModelReplied(response) => if run.phase is AwaitingModel {
            replied(
                fresh(run, ids),
                shared::reply_text(response),
                shared::reply_calls(response),
            )
        } else {
            wait(run, ids)
        },
        TurnInputView::ModelFailed(e) => if run.phase is AwaitingModel {
            fail(fresh(run, ids), error::words(e))
        } else {
            wait(run, ids)
        },
        TurnInputView::HookPassed => hooked(run, None, ids),
        TurnInputView::HookFailed(e) => hooked(run, Some(e), ids),
        TurnInputView::FunctionReturned(execution) => match run.phase {
            TurnPhaseView::Executing { calls, index } => if index < calls.len() {
                record(
                    fresh(run, ids),
                    calls,
                    index,
                    update_of(execution),
                    result_of(execution),
                )
            } else {
                wait(run, ids)
            },
            _ => wait(run, ids),
        },
        TurnInputView::FunctionFailed(e) => match run.phase {
            TurnPhaseView::Executing { calls, index } => if index < calls.len() {
                record(
                    fresh(run, ids),
                    calls,
                    index,
                    None,
                    CallResultView::Failed { error: error::words(e) },
                )
            } else {
                wait(run, ids)
            },
            _ => wait(run, ids),
        },
        TurnInputView::Aborted => if run.phase is AwaitingModel || run.phase is Executing {
            abort(fresh(run, ids))
        } else {
            wait(run, ids)
        },
        TurnInputView::Failed(e) => if can_fail(run.phase) {
            give_up(fresh(run, ids), e)
        } else {
            wait(run, ids)
        },
    }
}

// ---------------------------------------------------------------------------
// The beginning

/// The suspension that a new prompt answers.
pub open spec fn answered_suspension(thread: ThreadView) -> Option<Seq<char>> {
    match projection::project(thread).pending_suspension {
        Some(pending) => Some(pending.suspension.id),
        None => None,
    }
}

/// The first step of a turn. What the user says answers the suspension that the
/// thread waits for, if there is one.
pub open spec fn begin(
    request: TurnRequestView,
    loaded: Result<ThreadView, AgentErrorView>,
    ids: IdSource,
) -> Result<StepView, AgentErrorView> {
    match shared::opened(request.thread_id, loaded, ids) {
        Err(e) => Err(e),
        Ok(thread) => {
            let turn = shared::prompted_turn(request.user_text, answered_suspension(thread), ids);
            let run = TurnRunView {
                thread_id: request.thread_id,
                functions: request.functions,
                max_model_iterations: request.max_model_iterations,
                hook_count: request.hook_count,
                runtime_context: request.runtime_context,
                thread: ThreadView { turns: thread.turns.push(turn), ..thread },
                turn_id: turn.id,
                usage: events::no_usage(),
                iteration: 0,
                phase: TurnPhaseView::Done,
            };
            Ok(commit(fresh(run, ids::after(ids, 2)), TurnPhaseView::Starting))
        },
    }
}

} // verus!
