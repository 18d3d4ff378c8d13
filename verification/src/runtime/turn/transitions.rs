//! How a turn moves from one state to the next.
use crate::error::{self, AgentErrorView};
use crate::ids::{self, IdSource};
use crate::json::Json;
use crate::kernel::events::{
    self, SuspensionView, ThreadView, TokenUsage, ToolResultView, TurnItemKindView, TurnItemSource,
    TurnStatus, TurnView,
};
use crate::kernel::model::{
    ModelFunctionCallView, ModelRequestView, ModelResponseView, ModelStreamEventView,
};
use crate::kernel::projection::{
    self, ChatMessageView, PendingSuspensionView, ThreadProjectionView,
};
use crate::runtime::agent_loop::{
    FunctionCallHookContextView, FunctionCallHookResultView, RuntimeEventView, TurnModelEventView,
    TurnOutcomeView, TurnStateEventView, TurnStreamEventView,
};
use crate::runtime::functions::{FunctionCallExecutionView, FunctionContextView, RuntimeEffectView};
use crate::runtime::recording::{self, EntryView};
use crate::runtime::trace::{TraceEventKindView, TraceEventView, TraceTurnStatus};
use crate::runtime::turn::parts::{
    CallResultView, FlowView, StepView, TurnActionView, TurnInputView, TurnPhaseView,
    TurnRequestView, TurnRunView,
};
use vstd::prelude::*;

verus! {

// ---------------------------------------------------------------------------
// Texts

/// Why an aborted turn stopped.
pub open spec fn abort_reason() -> Seq<char> {
    "turn aborted by caller"@
}

/// Why a turn failed whose model said nothing.
pub open spec fn empty_reply() -> Seq<char> {
    "model returned neither assistant text nor function calls"@
}

/// What a call gets for an answer when the turn stopped before it.
pub open spec fn skipped_error() -> Seq<char> {
    "function not executed because a previous function suspended the turn"@
}

// ---------------------------------------------------------------------------
// The transitions

/// Reports an event.
pub open spec fn emit(f: FlowView, event: TurnStreamEventView) -> FlowView {
    FlowView { events: f.events.push(event), ..f }
}

/// Reports a change of state.
pub open spec fn state(f: FlowView, event: TurnStateEventView) -> FlowView {
    emit(f, TurnStreamEventView::State(event))
}

/// Adds to the trace.
pub open spec fn trace(f: FlowView, kind: TraceEventKindView) -> FlowView {
    let sequence = events::capped_sum(f.run.trace_sequence, 1);
    FlowView {
        run: TurnRunView { trace_sequence: sequence, ..f.run },
        traces: f.traces.push(
            TraceEventView {
                thread_id: f.run.thread_id,
                turn_id: f.run.turn_id,
                sequence,
                occurred_at: ids::stamp(f.ids),
                kind,
            },
        ),
        ..f
    }
}

/// The thread as it now stands.
pub open spec fn on_thread(f: FlowView, thread: ThreadView) -> FlowView {
    FlowView { run: TurnRunView { thread, ..f.run }, ..f }
}

/// The end of a step.
pub open spec fn proceed(f: FlowView, phase: TurnPhaseView, action: TurnActionView) -> StepView {
    StepView {
        run: TurnRunView { phase, ..f.run },
        action,
        events: f.events,
        traces: f.traces,
        ids: f.ids,
    }
}

/// Ends the turn with an error.
pub open spec fn give_up(f: FlowView, error: AgentErrorView) -> StepView {
    proceed(f, TurnPhaseView::Done, TurnActionView::Fail(error))
}

/// Records `entries` in the turn, if the thread has it.
pub open spec fn write(f: FlowView, entries: Seq<EntryView>) -> Option<FlowView> {
    match recording::with_entries(f.run.thread, f.run.turn_id, entries, f.ids) {
        Some(thread) => Some(counted(on_thread(f, thread), entries.len())),
        None => None,
    }
}

/// Records `entries` in the turn and moves it to another state, if the thread
/// has it.
pub open spec fn close(
    f: FlowView,
    entries: Seq<EntryView>,
    status: TurnStatus,
) -> Option<FlowView> {
    match recording::with_ending(f.run.thread, f.run.turn_id, entries, status, f.ids) {
        Some(thread) => Some(counted(on_thread(f, thread), entries.len())),
        None => None,
    }
}

/// The flow after `n` identifiers were given out.
pub open spec fn counted(f: FlowView, n: nat) -> FlowView {
    FlowView { ids: ids::after(f.ids, n), ..f }
}

/// Ends the turn because the thread does not have it.
pub open spec fn lost(f: FlowView, entries: Seq<EntryView>) -> StepView {
    give_up(counted(f, entries.len()), AgentErrorView::TurnNotFound(f.run.turn_id))
}

/// Stores the thread.
pub open spec fn commit(f: FlowView, phase: TurnPhaseView) -> StepView {
    proceed(f, phase, TurnActionView::Commit(f.run.thread))
}

/// Charges the tokens and stores the finished turn.
pub open spec fn conclude(f: FlowView, outcome: TurnOutcomeView) -> StepView {
    let thread = ThreadView {
        token_usage: events::usage_sum(f.run.thread.token_usage, f.run.usage),
        ..f.run.thread
    };
    commit(on_thread(f, thread), TurnPhaseView::Finishing { outcome })
}

/// Records that the turn failed.
pub open spec fn fail(f: FlowView, error: Seq<char>) -> StepView {
    match close(f, recording::failure(error), TurnStatus::Failed) {
        Some(g) => conclude(g, TurnOutcomeView::Failed { error }),
        None => lost(f, recording::failure(error)),
    }
}

/// Records that the turn was aborted.
pub open spec fn abort(f: FlowView) -> StepView {
    match close(f, recording::abortion(abort_reason()), TurnStatus::Aborted) {
        Some(g) => conclude(g, TurnOutcomeView::Aborted { reason: abort_reason() }),
        None => lost(f, recording::abortion(abort_reason())),
    }
}

/// Goes to the model again, unless it was asked too often.
pub open spec fn iterate(f: FlowView) -> StepView {
    if f.run.iteration < f.run.max_model_iterations {
        proceed(f, TurnPhaseView::ReadingCache, TurnActionView::LoadCache)
    } else {
        fail(f, error::words(AgentErrorView::MaxIterations(f.run.max_model_iterations)))
    }
}

/// The turn has begun.
pub open spec fn started(f: FlowView, user_text: Option<Seq<char>>) -> StepView {
    let traced = match user_text {
        Some(text) => trace(f, TraceEventKindView::UserInput { text, response_to: None }),
        None => f,
    };
    iterate(
        state(
            traced,
            TurnStateEventView::TurnStarted {
                thread_id: f.run.thread_id,
                turn_id: f.run.turn_id,
            },
        ),
    )
}

/// Asks the model.
pub open spec fn ask(f: FlowView, messages: Seq<ChatMessageView>) -> StepView {
    proceed(
        emit(
            f,
            TurnStreamEventView::Model(
                TurnModelEventView::RequestStarted { iteration: f.run.iteration },
            ),
        ),
        TurnPhaseView::AwaitingModel,
        TurnActionView::CallModel(ModelRequestView { messages, functions: f.run.functions }),
    )
}

/// The text of an answer.
pub open spec fn reply_text(response: ModelResponseView) -> Option<Seq<char>> {
    match response {
        ModelResponseView::AssistantMessage { text } => Some(text),
        ModelResponseView::FunctionCalls { calls } => None,
        ModelResponseView::Assistant { text, function_calls } => text,
    }
}

/// The calls that an answer asks for.
pub open spec fn reply_calls(response: ModelResponseView) -> Seq<ModelFunctionCallView> {
    match response {
        ModelResponseView::AssistantMessage { text } => Seq::empty(),
        ModelResponseView::FunctionCalls { calls } => calls,
        ModelResponseView::Assistant { text, function_calls } => function_calls,
    }
}

/// The entry for an answer.
pub open spec fn reply_entries(
    text: Option<Seq<char>>,
    calls: Seq<ModelFunctionCallView>,
) -> Seq<EntryView> {
    seq![
        EntryView {
            source: TurnItemSource::Model,
            kind: TurnItemKindView::ModelResponse { text, function_calls: calls },
        },
    ]
}

/// Reports the text of an answer.
pub open spec fn announce(f: FlowView, text: Option<Seq<char>>) -> FlowView {
    match text {
        Some(text) => emit(
            f,
            TurnStreamEventView::Model(TurnModelEventView::AssistantMessage { text }),
        ),
        None => f,
    }
}

/// The model has answered: with its last word, or with calls to be made.
pub open spec fn replied(
    f: FlowView,
    text: Option<Seq<char>>,
    calls: Seq<ModelFunctionCallView>,
) -> StepView {
    let told = announce(f, text);
    let entries = reply_entries(text, calls);
    if text is None && calls.len() == 0 {
        fail(f, empty_reply())
    } else if calls.len() == 0 {
        match close(told, entries, TurnStatus::Completed) {
            Some(g) => commit(g, TurnPhaseView::Completing { text: text->0 }),
            None => lost(told, entries),
        }
    } else {
        match write(told, entries) {
            Some(g) => commit(
                state(g, TurnStateEventView::FunctionCallsRequested { calls }),
                TurnPhaseView::Requesting { text, calls },
            ),
            None => lost(told, entries),
        }
    }
}

/// What a hook is told of a call.
pub open spec fn hook_context(
    run: TurnRunView,
    call: ModelFunctionCallView,
) -> FunctionCallHookContextView {
    FunctionCallHookContextView {
        thread_id: run.thread.id,
        turn_id: run.turn_id,
        call_id: call.call_id,
        name: call.name,
        arguments: call.arguments,
        projection: projection::project(run.thread),
    }
}

/// What a function is told of the turn that it is called in.
pub open spec fn function_context(
    run: TurnRunView,
    call: ModelFunctionCallView,
) -> FunctionContextView {
    FunctionContextView {
        thread_id: run.thread.id,
        turn_id: run.turn_id,
        call_id: call.call_id,
        projection: projection::project(run.thread),
    }
}

/// Lets the next hook look at a call, or runs it once all have passed it.
pub open spec fn enter(
    f: FlowView,
    calls: Seq<ModelFunctionCallView>,
    index: usize,
    entered: usize,
) -> StepView {
    let call = calls[index as int];
    if entered < f.run.hook_count {
        proceed(
            f,
            TurnPhaseView::BeforeHooks { calls, index, entered },
            TurnActionView::BeforeHook { hook: entered, context: hook_context(f.run, call) },
        )
    } else {
        proceed(
            f,
            TurnPhaseView::Executing { calls, index, entered },
            TurnActionView::CallFunction {
                name: call.name,
                arguments: call.arguments,
                context: function_context(f.run, call),
            },
        )
    }
}

/// Takes up a call, or goes back to the model when all are done.
pub open spec fn take_up(
    f: FlowView,
    calls: Seq<ModelFunctionCallView>,
    index: int,
) -> StepView {
    if 0 <= index < calls.len() {
        let call = calls[index];
        let told = state(
            f,
            TurnStateEventView::FunctionStarted { call_id: call.call_id, name: call.name },
        );
        let traced = trace(
            told,
            TraceEventKindView::FunctionCall {
                call_id: call.call_id,
                name: call.name,
                arguments: call.arguments,
            },
        );
        enter(traced, calls, index as usize, 0)
    } else {
        let iteration = if f.run.iteration < usize::MAX {
            (f.run.iteration + 1) as usize
        } else {
            usize::MAX
        };
        iterate(FlowView { run: TurnRunView { iteration, ..f.run }, ..f })
    }
}

/// The result of a call, as far as the turn goes.
pub open spec fn result_of(execution: FunctionCallExecutionView) -> CallResultView {
    match execution {
        FunctionCallExecutionView::Completed { output, effects } => CallResultView::Completed {
            output,
        },
        FunctionCallExecutionView::SuspendedBeforeExecution { suspension, effects } => {
            CallResultView::SuspendedBefore { suspension }
        },
        FunctionCallExecutionView::SuspendedAfterExecution { suspension, output, effects } => {
            CallResultView::SuspendedAfter { suspension, output }
        },
    }
}

/// What a call asks the runtime for.
pub open spec fn effects_of(
    execution: FunctionCallExecutionView,
) -> Seq<RuntimeEffectView> {
    match execution {
        FunctionCallExecutionView::Completed { output, effects } => effects,
        FunctionCallExecutionView::SuspendedBeforeExecution { suspension, effects } => effects,
        FunctionCallExecutionView::SuspendedAfterExecution { suspension, output, effects } => {
            effects
        },
    }
}

/// The entry for what a call returned.
pub open spec fn output_entry(call: ModelFunctionCallView, result: ToolResultView) -> EntryView {
    EntryView {
        source: TurnItemSource::Tool,
        kind: TurnItemKindView::ToolOutput { call_id: call.call_id, name: call.name, result },
    }
}

/// The answer to a call before which the turn stopped.
pub open spec fn skipped_result() -> ToolResultView {
    ToolResultView::Error { error: skipped_error() }
}

/// The entries for the calls before which the turn stopped.
pub open spec fn skipped_entries(calls: Seq<ModelFunctionCallView>) -> Seq<EntryView> {
    Seq::new(calls.len(), |k: int| output_entry(calls[k], skipped_result()))
}

/// The entry for a suspension.
pub open spec fn suspension_entry(suspension: SuspensionView) -> EntryView {
    EntryView {
        source: TurnItemSource::Runtime,
        kind: TurnItemKindView::SuspensionCreated { suspension },
    }
}

/// The calls that come after one.
pub open spec fn later_calls(
    calls: Seq<ModelFunctionCallView>,
    index: usize,
) -> Seq<ModelFunctionCallView> {
    calls.subrange(index + 1, calls.len() as int)
}

/// The entries for what came of a call, after those for its effects.
pub open spec fn result_entries(
    calls: Seq<ModelFunctionCallView>,
    index: usize,
    result: CallResultView,
) -> Seq<EntryView> {
    let call = calls[index as int];
    match result {
        CallResultView::Completed { output } => seq![
            output_entry(call, ToolResultView::Success { output }),
        ],
        CallResultView::SuspendedBefore { suspension } => seq![suspension_entry(suspension)]
            + skipped_entries(later_calls(calls, index)),
        CallResultView::SuspendedAfter { suspension, output } => seq![
            output_entry(call, ToolResultView::Success { output }),
            suspension_entry(suspension),
        ] + skipped_entries(later_calls(calls, index)),
        CallResultView::Failed { error } => seq![
            output_entry(call, ToolResultView::Error { error }),
        ],
    }
}

/// Whether a result stops the turn.
pub open spec fn suspends(result: CallResultView) -> bool {
    result is SuspendedBefore || result is SuspendedAfter
}

/// Records what came of a call.
pub open spec fn record(
    f: FlowView,
    calls: Seq<ModelFunctionCallView>,
    index: usize,
    entered: usize,
    effects: Seq<RuntimeEffectView>,
    result: CallResultView,
) -> StepView {
    let entries = recording::effect_entries(f.run.thread, effects) + result_entries(
        calls,
        index,
        result,
    );
    let written = if suspends(result) {
        close(f, entries, TurnStatus::Suspended)
    } else {
        write(f, entries)
    };
    match written {
        Some(g) => commit(g, TurnPhaseView::RecordingCall { calls, index, entered, result }),
        None => lost(f, entries),
    }
}

/// Adds the output of a call to the trace.
pub open spec fn trace_output(
    f: FlowView,
    call: ModelFunctionCallView,
    result: ToolResultView,
) -> FlowView {
    trace(
        f,
        TraceEventKindView::ToolOutput { call_id: call.call_id, name: call.name, result },
    )
}

/// Adds the first `n` calls before which the turn stopped to the trace.
pub open spec fn trace_skipped(
    f: FlowView,
    calls: Seq<ModelFunctionCallView>,
    n: int,
) -> FlowView
    decreases n,
{
    if n <= 0 {
        f
    } else {
        trace_output(trace_skipped(f, calls, n - 1), calls[n - 1], skipped_result())
    }
}

/// Reports the first `n` calls before which the turn stopped.
pub open spec fn tell_skipped(f: FlowView, calls: Seq<ModelFunctionCallView>, n: int) -> FlowView
    decreases n,
{
    if n <= 0 {
        f
    } else {
        state(
            tell_skipped(f, calls, n - 1),
            TurnStateEventView::FunctionFailed {
                call_id: calls[n - 1].call_id,
                name: calls[n - 1].name,
                error: skipped_error(),
            },
        )
    }
}

/// What hooks are told of the result of a call.
pub open spec fn hook_result(result: CallResultView) -> FunctionCallHookResultView {
    match result {
        CallResultView::Completed { output } => FunctionCallHookResultView::Completed { output },
        CallResultView::SuspendedAfter { suspension, output } => {
            FunctionCallHookResultView::Suspended { suspension, output }
        },
        CallResultView::SuspendedBefore { suspension } => FunctionCallHookResultView::Suspended {
            suspension,
            output: Json::Null,
        },
        CallResultView::Failed { error } => FunctionCallHookResultView::Failed { error },
    }
}

/// Lets the hooks that saw the call look at its result, the last one first, and
/// then moves on.
pub open spec fn leave(
    f: FlowView,
    calls: Seq<ModelFunctionCallView>,
    index: usize,
    remaining: usize,
    result: CallResultView,
) -> StepView {
    if remaining > 0 {
        proceed(
            f,
            TurnPhaseView::AfterHooks { calls, index, remaining, result },
            TurnActionView::AfterHook {
                hook: (remaining - 1) as usize,
                context: hook_context(f.run, calls[index as int]),
                result: hook_result(result),
            },
        )
    } else {
        settle(f, calls, index, result)
    }
}

/// Reports a suspension and the calls before which the turn stopped.
pub open spec fn tell_suspended(
    f: FlowView,
    suspension: SuspensionView,
    skipped: Seq<ModelFunctionCallView>,
) -> FlowView {
    tell_skipped(
        state(f, TurnStateEventView::Suspended { suspension }),
        skipped,
        skipped.len() as int,
    )
}

/// Moves on after a call.
pub open spec fn settle(
    f: FlowView,
    calls: Seq<ModelFunctionCallView>,
    index: usize,
    result: CallResultView,
) -> StepView {
    let call = calls[index as int];
    let completed = state(
        f,
        TurnStateEventView::FunctionCompleted { call_id: call.call_id, name: call.name },
    );
    match result {
        CallResultView::Completed { output } => take_up(completed, calls, index + 1),
        CallResultView::Failed { error } => take_up(
            state(
                f,
                TurnStateEventView::FunctionFailed {
                    call_id: call.call_id,
                    name: call.name,
                    error,
                },
            ),
            calls,
            index + 1,
        ),
        CallResultView::SuspendedBefore { suspension } => conclude(
            tell_suspended(f, suspension, later_calls(calls, index)),
            TurnOutcomeView::Suspended { suspension },
        ),
        CallResultView::SuspendedAfter { suspension, output } => conclude(
            tell_suspended(completed, suspension, later_calls(calls, index)),
            TurnOutcomeView::Suspended { suspension },
        ),
    }
}

/// What came of a call has been stored.
pub open spec fn recorded(
    f: FlowView,
    calls: Seq<ModelFunctionCallView>,
    index: usize,
    entered: usize,
    result: CallResultView,
) -> StepView {
    let call = calls[index as int];
    let skipped = later_calls(calls, index);
    match result {
        CallResultView::Completed { output } => leave(
            trace_output(f, call, ToolResultView::Success { output }),
            calls,
            index,
            entered,
            result,
        ),
        CallResultView::Failed { error } => leave(
            trace_output(f, call, ToolResultView::Error { error }),
            calls,
            index,
            entered,
            result,
        ),
        CallResultView::SuspendedBefore { suspension } => settle(
            trace_skipped(f, skipped, skipped.len() as int),
            calls,
            index,
            result,
        ),
        CallResultView::SuspendedAfter { suspension, output } => leave(
            trace_skipped(
                trace_output(f, call, ToolResultView::Success { output }),
                skipped,
                skipped.len() as int,
            ),
            calls,
            index,
            entered,
            result,
        ),
    }
}

/// What is reported of a hook that failed after a call.
pub open spec fn hook_failure(call: ModelFunctionCallView, error: Seq<char>) -> RuntimeEventView {
    RuntimeEventView {
        source: "function_call_hook"@,
        message: "post-hook failed"@,
        metadata: Json::Fields(
            Map::<Seq<char>, Json>::empty().insert("call_id"@, Json::Text(call.call_id)).insert(
                "name"@,
                Json::Text(call.name),
            ).insert("error"@, Json::Text(error)),
        ),
    }
}

/// How a traced turn ended.
pub open spec fn trace_status(outcome: TurnOutcomeView) -> TraceTurnStatus {
    match outcome {
        TurnOutcomeView::AssistantMessage { text } => TraceTurnStatus::Completed,
        TurnOutcomeView::Suspended { suspension } => TraceTurnStatus::Suspended,
        TurnOutcomeView::Failed { error } => TraceTurnStatus::Failed,
        TurnOutcomeView::Aborted { reason } => TraceTurnStatus::Aborted,
    }
}

/// Reports why a turn ended early.
pub open spec fn tell_ending(f: FlowView, outcome: TurnOutcomeView) -> FlowView {
    match outcome {
        TurnOutcomeView::Failed { error } => state(f, TurnStateEventView::TurnFailed { error }),
        TurnOutcomeView::Aborted { reason } => state(f, TurnStateEventView::TurnAborted { reason }),
        _ => f,
    }
}

/// Reports the tokens that a turn used, if any.
pub open spec fn tell_usage(f: FlowView, usage: TokenUsage) -> FlowView {
    if usage == events::no_usage() {
        f
    } else {
        state(f, TurnStateEventView::TurnTokenUsage { usage })
    }
}

/// The turn is stored and over.
pub open spec fn finish(f: FlowView, outcome: TurnOutcomeView) -> StepView {
    let traced = trace(
        f,
        TraceEventKindView::TurnFinished { status: trace_status(outcome) },
    );
    proceed(
        state(
            tell_usage(tell_ending(traced, outcome), f.run.usage),
            TurnStateEventView::TurnFinished { outcome },
        ),
        TurnPhaseView::Done,
        TurnActionView::Finish(outcome),
    )
}

/// A turn at the start of a step.
pub open spec fn fresh(run: TurnRunView, ids: IdSource) -> FlowView {
    FlowView {
        run: TurnRunView { phase: TurnPhaseView::Done, ..run },
        events: Seq::empty(),
        traces: Seq::empty(),
        ids,
    }
}

/// A step in which nothing happens.
pub open spec fn wait(run: TurnRunView, ids: IdSource) -> StepView {
    StepView {
        run,
        action: TurnActionView::Wait,
        events: Seq::empty(),
        traces: Seq::empty(),
        ids,
    }
}

/// Whether a phase waits for the store or for the choice of messages, either of
/// which can fail.
pub open spec fn can_fail(phase: TurnPhaseView) -> bool {
    phase is Starting || phase is ReadingCache || phase is BuildingContext || phase is SavingCache
        || phase is Completing || phase is Requesting || phase is RecordingCall
        || phase is Finishing
}

/// The store has taken the thread.
pub open spec fn committed(run: TurnRunView, thread: ThreadView, ids: IdSource) -> StepView {
    let f = on_thread(fresh(run, ids), thread);
    match run.phase {
        TurnPhaseView::Starting { user_text } => started(f, Some(user_text)),
        TurnPhaseView::Completing { text } => conclude(
            trace(
                f,
                TraceEventKindView::ModelResponse {
                    text: Some(text),
                    function_calls: Seq::empty(),
                },
            ),
            TurnOutcomeView::AssistantMessage { text },
        ),
        TurnPhaseView::Requesting { text, calls } => take_up(
            trace(f, TraceEventKindView::ModelResponse { text, function_calls: calls }),
            calls,
            0,
        ),
        TurnPhaseView::RecordingCall { calls, index, entered, result } => if index < calls.len() {
            recorded(f, calls, index, entered, result)
        } else {
            wait(run, ids)
        },
        TurnPhaseView::Finishing { outcome } => finish(f, outcome),
        _ => wait(run, ids),
    }
}

/// A hook has returned.
pub open spec fn hooked(
    run: TurnRunView,
    error: Option<AgentErrorView>,
    ids: IdSource,
) -> StepView {
    match run.phase {
        TurnPhaseView::BeforeHooks { calls, index, entered } => if index < calls.len() && entered
            < run.hook_count {
            match error {
                None => enter(fresh(run, ids), calls, index, (entered + 1) as usize),
                Some(e) => record(
                    fresh(run, ids),
                    calls,
                    index,
                    entered,
                    Seq::empty(),
                    CallResultView::Failed { error: error::words(e) },
                ),
            }
        } else {
            wait(run, ids)
        },
        TurnPhaseView::AfterHooks { calls, index, remaining, result } => if index < calls.len()
            && remaining > 0 {
            let f = match error {
                None => fresh(run, ids),
                Some(e) => emit(
                    fresh(run, ids),
                    TurnStreamEventView::Runtime(
                        hook_failure(calls[index as int], error::words(e)),
                    ),
                ),
            };
            leave(f, calls, index, (remaining - 1) as usize, result)
        } else {
            wait(run, ids)
        },
        _ => wait(run, ids),
    }
}

/// The step that a turn takes on an input. An input that the turn does not wait
/// for changes nothing.
pub open spec fn next(run: TurnRunView, input: TurnInputView, ids: IdSource) -> StepView {
    match input {
        TurnInputView::Committed(thread) => committed(run, thread, ids),
        TurnInputView::CacheLoaded(cache) => if run.phase is ReadingCache {
            proceed(
                fresh(run, ids),
                TurnPhaseView::BuildingContext,
                TurnActionView::BuildContext {
                    projection: projection::project(run.thread),
                    revision: run.thread.revision,
                    cache,
                },
            )
        } else {
            wait(run, ids)
        },
        TurnInputView::ContextBuilt(context) => if run.phase is BuildingContext {
            match context.cache {
                Some(cache) => proceed(
                    fresh(run, ids),
                    TurnPhaseView::SavingCache { messages: context.messages },
                    TurnActionView::SaveCache(cache),
                ),
                None => ask(fresh(run, ids), context.messages),
            }
        } else {
            wait(run, ids)
        },
        TurnInputView::CacheSaved => match run.phase {
            TurnPhaseView::SavingCache { messages } => ask(fresh(run, ids), messages),
            _ => wait(run, ids),
        },
        TurnInputView::Model(event) => if run.phase is AwaitingModel {
            match event {
                ModelStreamEventView::AssistantDelta { text } => proceed(
                    emit(
                        fresh(run, ids),
                        TurnStreamEventView::Model(TurnModelEventView::AssistantDelta { text }),
                    ),
                    run.phase,
                    TurnActionView::Wait,
                ),
                ModelStreamEventView::TokenUsage { usage } => wait(
                    TurnRunView { usage: events::usage_sum(run.usage, usage), ..run },
                    ids,
                ),
            }
        } else {
            wait(run, ids)
        },
        TurnInputView::ModelReplied(response) => if run.phase is AwaitingModel {
            replied(fresh(run, ids), reply_text(response), reply_calls(response))
        } else {
            wait(run, ids)
        },
        TurnInputView::ModelFailed(e) => if run.phase is AwaitingModel {
            fail(fresh(run, ids), error::words(e))
        } else {
            wait(run, ids)
        },
        TurnInputView::HookPassed => hooked(run, None, ids),
        TurnInputView::HookFailed(e) => hooked(run, Some(e), ids),
        TurnInputView::FunctionReturned(execution) => match run.phase {
            TurnPhaseView::Executing { calls, index, entered } => if index < calls.len() {
                record(
                    fresh(run, ids),
                    calls,
                    index,
                    entered,
                    effects_of(execution),
                    result_of(execution),
                )
            } else {
                wait(run, ids)
            },
            _ => wait(run, ids),
        },
        TurnInputView::FunctionFailed(e) => match run.phase {
            TurnPhaseView::Executing { calls, index, entered } => if index < calls.len() {
                record(
                    fresh(run, ids),
                    calls,
                    index,
                    entered,
                    Seq::empty(),
                    CallResultView::Failed { error: error::words(e) },
                )
            } else {
                wait(run, ids)
            },
            _ => wait(run, ids),
        },
        TurnInputView::Aborted => if run.phase is AwaitingModel || run.phase is Executing {
            abort(fresh(run, ids))
        } else {
            wait(run, ids)
        },
        TurnInputView::Failed(e) => if can_fail(run.phase) {
            give_up(fresh(run, ids), e)
        } else {
            wait(run, ids)
        },
    }
}

// ---------------------------------------------------------------------------
// The beginning

/// The thread that a turn starts on: the one that was loaded, or a new one where
/// there is none yet.
pub open spec fn opened(
    thread_id: Seq<char>,
    loaded: Result<ThreadView, AgentErrorView>,
    ids: IdSource,
) -> Result<ThreadView, AgentErrorView> {
    match loaded {
        Ok(thread) => Ok(thread),
        Err(AgentErrorView::ThreadNotFound(missing)) => Ok(events::new_thread(thread_id, ids)),
        Err(e) => Err(e),
    }
}

/// A turn on a thread, before its first step.
pub open spec fn run_on(
    request: TurnRequestView,
    thread: ThreadView,
    turn_id: Seq<char>,
) -> TurnRunView {
    TurnRunView {
        thread_id: request.thread_id,
        functions: request.functions,
        max_model_iterations: request.max_model_iterations,
        hook_count: request.hook_count,
        thread,
        turn_id,
        trace_sequence: request.trace_sequence,
        usage: events::no_usage(),
        iteration: 0,
        phase: TurnPhaseView::Done,
    }
}

/// The turn that records what the user says.
pub open spec fn prompted_turn(
    text: Seq<char>,
    response_to: Option<Seq<char>>,
    ids: IdSource,
) -> TurnView {
    events::with_item(
        events::new_turn(ids),
        events::item_view(
            ids::after(ids, 1),
            TurnItemSource::User,
            TurnItemKindView::UserInput { text, response_to },
        ),
        ids,
    )
}

/// The suspension that keeps a turn from starting. A new prompt is kept by any
/// that the thread waits for; a turn that goes on is not kept by its own.
pub open spec fn obstacle(
    state: ThreadProjectionView,
    prompted: bool,
) -> Option<PendingSuspensionView> {
    match state.pending_suspension {
        Some(pending) => if !prompted && state.active_turn_id == Some(pending.turn_id) {
            None
        } else {
            Some(pending)
        },
        None => None,
    }
}

/// The first step of a turn. A thread that waits for a suspension takes no new
/// turn, and a turn can only go on where one is running.
pub open spec fn begin(
    request: TurnRequestView,
    loaded: Result<ThreadView, AgentErrorView>,
    ids: IdSource,
) -> Result<StepView, AgentErrorView> {
    match opened(request.thread_id, loaded, ids) {
        Err(e) => Err(e),
        Ok(thread) => match obstacle(projection::project(thread), request.user_text is Some) {
            Some(pending) => Err(
                AgentErrorView::SuspendedTurn {
                    thread_id: request.thread_id,
                    suspension_id: pending.suspension.id,
                },
            ),
            None => match request.user_text {
                Some(text) => {
                    let turn = prompted_turn(text, None, ids);
                    let longer = ThreadView { turns: thread.turns.push(turn), ..thread };
                    Ok(
                        commit(
                            fresh(run_on(request, longer, turn.id), ids::after(ids, 2)),
                            TurnPhaseView::Starting { user_text: text },
                        ),
                    )
                },
                None => match projection::project(thread).active_turn_id {
                    Some(turn_id) => Ok(
                        started(fresh(run_on(request, thread, turn_id), ids), None),
                    ),
                    None => Err(AgentErrorView::TurnNotFound(request.thread_id)),
                },
            },
        },
    }
}

} // verus!
