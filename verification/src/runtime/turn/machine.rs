//! The turn itself, step by step.
use crate::error::{self, AgentError};
use crate::ids::{self, IdSource};
use crate::json::{copy_of, null_value, Fields};
use crate::kernel::events::{
    Suspension, Thread, TokenUsage, ToolResult, Turn, TurnItem, TurnItemKind, TurnItemSource,
    TurnStatus,
};
use crate::kernel::model::{
    ModelFunctionCall, ModelFunctionCallView, ModelRequest, ModelResponse, ModelStreamEvent,
};
use crate::kernel::projection::{ChatMessage, PendingSuspension, ThreadProjection};
use crate::runtime::agent_loop::{
    FunctionCallHookContext, FunctionCallHookResult, RuntimeEvent, TurnModelEvent, TurnOutcome,
    TurnStateEvent, TurnStreamEvent,
};
use crate::runtime::context::ContextBuildOutput;
use crate::runtime::functions::{
    FunctionCallExecution, FunctionContext, RuntimeEffect, RuntimeEffectView,
};
use crate::runtime::recording::{
    abort_turn, apply_runtime_effects, apply_turn_token_usage, end_turn, fail_turn, push_turn_items,
    Entry,
};
use crate::runtime::store::ThreadContextCache;
use crate::runtime::trace::{TraceEvent, TraceEventKind, TraceTurnStatus};
use crate::runtime::turn::parts::{
    CallResult, Flow, Step, TurnAction, TurnInput, TurnInputView, TurnPhase, TurnPhaseView,
    TurnRequest, TurnRun, TurnRunView,
};
use crate::runtime::turn::transitions;
use crate::text::text_eq;
use crate::views;
use vstd::prelude::*;

verus! {

impl Flow {
    /// A turn at the start of a step.
    fn fresh(run: TurnRun, ids: IdSource) -> (r: Self)
        requires
            run.phase is Done,
        ensures
            r@ == transitions::fresh(run@, ids),
    {
        broadcast use crate::views::group_views;

        Flow { run, events: Vec::new(), traces: Vec::new(), ids }
    }

    /// Reports an event.
    fn emit(self, event: TurnStreamEvent) -> (r: Self)
        ensures
            r@ == transitions::emit(self@, event@),
    {
        broadcast use crate::views::group_views;

        let mut flow = self;
        flow.events.push(event);
        flow
    }

    /// Reports a change of state.
    fn state(self, event: TurnStateEvent) -> (r: Self)
        ensures
            r@ == transitions::state(self@, event@),
    {
        self.emit(TurnStreamEvent::State(event))
    }

    /// Adds to the trace.
    fn trace(self, kind: TraceEventKind) -> (r: Self)
        ensures
            r@ == transitions::trace(self@, kind@),
    {
        broadcast use crate::views::group_views;

        let mut flow = self;
        flow.run.trace_sequence = flow.run.trace_sequence.saturating_add(1);
        flow.traces.push(
            TraceEvent {
                thread_id: flow.run.thread_id.clone(),
                turn_id: flow.run.turn_id.clone(),
                sequence: flow.run.trace_sequence,
                occurred_at: flow.ids.timestamp(),
                kind,
            },
        );
        flow
    }

    /// Takes over the thread as it now stands.
    fn on_thread(self, thread: Thread) -> (r: Self)
        ensures
            r@ == transitions::on_thread(self@, thread@),
    {
        let mut flow = self;
        flow.run.thread = thread;
        flow
    }

    /// Ends the step.
    fn proceed(self, phase: TurnPhase, action: TurnAction) -> (r: Step)
        ensures
            r@ == transitions::proceed(self@, phase@, action@),
    {
        let mut run = self.run;
        run.phase = phase;
        Step { run, action, events: self.events, traces: self.traces, ids: self.ids }
    }

    /// Ends the turn with an error.
    fn give_up(self, error: AgentError) -> (r: Step)
        ensures
            r@ == transitions::give_up(self@, error@),
    {
        self.proceed(TurnPhase::Done, TurnAction::Fail(error))
    }

    /// Stores the thread.
    fn commit(self, phase: TurnPhase) -> (r: Step)
        ensures
            r@ == transitions::commit(self@, phase@),
    {
        let thread = self.run.thread.clone();
        self.proceed(phase, TurnAction::Commit(thread))
    }

    /// Charges the tokens and stores the finished turn.
    fn conclude(self, outcome: TurnOutcome) -> (r: Step)
        ensures
            r@ == transitions::conclude(self@, outcome@),
    {
        let mut flow = self;
        let usage = flow.run.usage;
        apply_turn_token_usage(&mut flow.run.thread, usage);
        flow.commit(TurnPhase::Finishing { outcome })
    }

    /// Records `entries` in the turn, or ends it when the thread does not have it.
    fn write(self, entries: Vec<Entry>) -> (r: Result<Flow, Step>)
        ensures
            match transitions::write(self@, views::all(entries@)) {
                Some(g) => r matches Ok(flow) && flow@ == g,
                None => r matches Err(step) && step@ == transitions::lost(
                    self@,
                    views::all(entries@),
                ),
            },
    {
        let mut flow = self;
        match push_turn_items(
            &mut flow.run.thread,
            flow.run.turn_id.as_str(),
            entries,
            &mut flow.ids,
        ) {
            Ok(()) => Ok(flow),
            Err(error) => Err(flow.give_up(error)),
        }
    }

    /// Records `entries` in the turn and moves it to another state, or ends it
    /// when the thread does not have it.
    fn close(self, entries: Vec<Entry>, status: TurnStatus) -> (r: Result<Flow, Step>)
        ensures
            match transitions::close(self@, views::all(entries@), status) {
                Some(g) => r matches Ok(flow) && flow@ == g,
                None => r matches Err(step) && step@ == transitions::lost(
                    self@,
                    views::all(entries@),
                ),
            },
    {
        let mut flow = self;
        match end_turn(
            &mut flow.run.thread,
            flow.run.turn_id.as_str(),
            entries,
            status,
            &mut flow.ids,
        ) {
            Ok(()) => Ok(flow),
            Err(error) => Err(flow.give_up(error)),
        }
    }

    /// Records that the turn failed.
    fn fail(self, error: String) -> (r: Step)
        ensures
            r@ == transitions::fail(self@, error@),
    {
        let mut flow = self;
        match fail_turn(
            &mut flow.run.thread,
            flow.run.turn_id.as_str(),
            error.clone(),
            &mut flow.ids,
        ) {
            Ok(()) => flow.conclude(TurnOutcome::Failed { error }),
            Err(lost) => flow.give_up(lost),
        }
    }

    /// Records that the turn was aborted.
    fn abort(self) -> (r: Step)
        ensures
            r@ == transitions::abort(self@),
    {
        let mut flow = self;
        let reason = "turn aborted by caller".to_string();
        match abort_turn(
            &mut flow.run.thread,
            flow.run.turn_id.as_str(),
            reason.clone(),
            &mut flow.ids,
        ) {
            Ok(()) => flow.conclude(TurnOutcome::Aborted { reason }),
            Err(lost) => flow.give_up(lost),
        }
    }

    /// Goes to the model again, unless it was asked too often.
    fn iterate(self) -> (r: Step)
        ensures
            r@ == transitions::iterate(self@),
    {
        if self.run.iteration < self.run.max_model_iterations {
            self.proceed(TurnPhase::ReadingCache, TurnAction::LoadCache)
        } else {
            let error = AgentError::MaxIterations(self.run.max_model_iterations).message();
            self.fail(error)
        }
    }

    /// The turn has begun.
    fn started(self, user_text: Option<String>) -> (r: Step)
        ensures
            r@ == transitions::started(self@, views::opt(user_text)),
    {
        let event = TurnStateEvent::TurnStarted {
            thread_id: self.run.thread_id.clone(),
            turn_id: self.run.turn_id.clone(),
        };
        let flow = match user_text {
            Some(text) => self.trace(TraceEventKind::UserInput { text, response_to: None }),
            None => self,
        };
        flow.state(event).iterate()
    }

    /// Asks the model.
    fn ask(self, messages: Vec<ChatMessage>) -> (r: Step)
        ensures
            r@ == transitions::ask(self@, views::all(messages@)),
    {
        let functions = self.run.functions.clone();
        assert(views::all(functions@) =~= views::all(self.run.functions@));
        let iteration = self.run.iteration;
        self.emit(TurnStreamEvent::Model(TurnModelEvent::RequestStarted { iteration })).proceed(
            TurnPhase::AwaitingModel,
            TurnAction::CallModel(ModelRequest { messages, functions }),
        )
    }

    /// The model has answered: with its last word, or with calls to be made.
    fn replied(self, text: Option<String>, calls: Vec<ModelFunctionCall>) -> (r: Step)
        ensures
            r@ == transitions::replied(self@, views::opt(text), views::all(calls@)),
    {
        if text.is_none() && calls.len() == 0 {
            return self.fail(
                "model returned neither assistant text nor function calls".to_string(),
            );
        }
        let function_calls = calls.clone();
        assert(views::all(function_calls@) =~= views::all(calls@));
        let mut entries: Vec<Entry> = Vec::new();
        entries.push(
            Entry {
                source: TurnItemSource::Model,
                kind: TurnItemKind::ModelResponse { text: text.clone(), function_calls },
            },
        );
        assert(views::all(entries@) =~= transitions::reply_entries(
            views::opt(text),
            views::all(calls@),
        ));
        let flow = match &text {
            Some(text) => self.emit(
                TurnStreamEvent::Model(TurnModelEvent::AssistantMessage { text: text.clone() }),
            ),
            None => self,
        };
        assert(flow@ == transitions::announce(self@, views::opt(text)));
        if calls.len() == 0 {
            let last_word = match text {
                Some(text) => text,
                None => String::new(),
            };
            match flow.close(entries, TurnStatus::Completed) {
                Ok(flow) => flow.commit(TurnPhase::Completing { text: last_word }),
                Err(step) => step,
            }
        } else {
            let requested = calls.clone();
            assert(views::all(requested@) =~= views::all(calls@));
            match flow.write(entries) {
                Ok(flow) => flow.state(
                    TurnStateEvent::FunctionCallsRequested { calls: requested },
                ).commit(TurnPhase::Requesting { text, calls }),
                Err(step) => step,
            }
        }
    }

    /// What a hook is told of a call.
    fn hook_context(&self, call: &ModelFunctionCall) -> (r: FunctionCallHookContext)
        ensures
            r@ == transitions::hook_context(self@.run, call@),
    {
        FunctionCallHookContext {
            thread_id: self.run.thread.id.clone(),
            turn_id: self.run.turn_id.clone(),
            call_id: call.call_id.clone(),
            name: call.name.clone(),
            arguments: copy_of(&call.arguments),
            projection: ThreadProjection::from_thread(&self.run.thread),
        }
    }

    /// What a function is told of the turn that it is called in.
    fn function_context(&self, call: &ModelFunctionCall) -> (r: FunctionContext)
        ensures
            r@ == transitions::function_context(self@.run, call@),
    {
        FunctionContext {
            thread_id: self.run.thread.id.clone(),
            turn_id: self.run.turn_id.clone(),
            call_id: call.call_id.clone(),
            projection: ThreadProjection::from_thread(&self.run.thread),
        }
    }

    /// Lets the next hook look at a call, or runs it once all have passed it.
    fn enter(self, calls: Vec<ModelFunctionCall>, index: usize, entered: usize) -> (r: Step)
        requires
            index < calls@.len(),
        ensures
            r@ == transitions::enter(self@, views::all(calls@), index, entered),
    {
        let call = calls[index].clone();
        if entered < self.run.hook_count {
            let context = self.hook_context(&call);
            self.proceed(
                TurnPhase::BeforeHooks { calls, index, entered },
                TurnAction::BeforeHook { hook: entered, context },
            )
        } else {
            let context = self.function_context(&call);
            self.proceed(
                TurnPhase::Executing { calls, index, entered },
                TurnAction::CallFunction { name: call.name, arguments: call.arguments, context },
            )
        }
    }

    /// Takes up a call, or goes back to the model when all are done.
    fn take_up(self, calls: Vec<ModelFunctionCall>, index: usize) -> (r: Step)
        ensures
            r@ == transitions::take_up(self@, views::all(calls@), index as int),
    {
        if index < calls.len() {
            let call = calls[index].clone();
            assert(call@ == views::all(calls@)[index as int]);
            self.state(
                TurnStateEvent::FunctionStarted {
                    call_id: call.call_id.clone(),
                    name: call.name.clone(),
                },
            ).trace(
                TraceEventKind::FunctionCall {
                    call_id: call.call_id,
                    name: call.name,
                    arguments: call.arguments,
                },
            ).enter(calls, index, 0)
        } else {
            let mut flow = self;
            flow.run.iteration = flow.run.iteration.saturating_add(1);
            flow.iterate()
        }
    }

    /// Records what came of a call.
    fn record(
        self,
        calls: Vec<ModelFunctionCall>,
        index: usize,
        entered: usize,
        effects: Vec<RuntimeEffect>,
        result: CallResult,
    ) -> (r: Step)
        requires
            index < calls@.len(),
        ensures
            r@ == transitions::record(
                self@,
                views::all(calls@),
                index,
                entered,
                views::all(effects@),
                result@,
            ),
    {
        broadcast use crate::views::group_views;

        let ghost effect_views = views::all(effects@);
        let mut entries = apply_runtime_effects(&self.run.thread, effects);
        let mut outcome = result_entries(&calls, index, &result);
        entries.append(&mut outcome);
        let written = match &result {
            CallResult::SuspendedBefore { .. } => self.close(entries, TurnStatus::Suspended),
            CallResult::SuspendedAfter { .. } => self.close(entries, TurnStatus::Suspended),
            _ => self.write(entries),
        };
        match written {
            Ok(flow) => flow.commit(TurnPhase::RecordingCall { calls, index, entered, result }),
            Err(step) => step,
        }
    }

    /// Adds the output of a call to the trace.
    fn trace_output(self, call: &ModelFunctionCall, result: ToolResult) -> (r: Self)
        ensures
            r@ == transitions::trace_output(self@, call@, result@),
    {
        self.trace(
            TraceEventKind::ToolOutput {
                call_id: call.call_id.clone(),
                name: call.name.clone(),
                result,
            },
        )
    }

    /// Adds the calls after `index` to the trace, as calls that did not run.
    fn trace_skipped(self, calls: &Vec<ModelFunctionCall>, index: usize) -> (r: Self)
        requires
            index < calls@.len(),
        ensures
            r@ == transitions::trace_skipped(
                self@,
                transitions::later_calls(views::all(calls@), index),
                transitions::later_calls(views::all(calls@), index).len() as int,
            ),
    {
        let ghost skipped = transitions::later_calls(views::all(calls@), index);
        let mut flow = self;
        let n = calls.len();
        let mut i: usize = index + 1;
        while i < n
            invariant
                n == calls@.len(),
                index < i <= n,
                skipped == transitions::later_calls(views::all(calls@), index),
                flow@ == transitions::trace_skipped(self@, skipped, i - index - 1),
            decreases calls@.len() - i,
        {
            assert(skipped[i - index - 1] == calls@[i as int]@);
            flow =
            flow.trace_output(
                &calls[i],
                ToolResult::Error {
                    error: "function not executed because a previous function suspended the turn".to_string(),
                },
            );
            i = i + 1;
        }
        flow
    }

    /// Reports a suspension and the calls after `index`, which did not run.
    fn tell_suspended(
        self,
        suspension: Suspension,
        calls: &Vec<ModelFunctionCall>,
        index: usize,
    ) -> (r: Self)
        requires
            index < calls@.len(),
        ensures
            r@ == transitions::tell_suspended(
                self@,
                suspension@,
                transitions::later_calls(views::all(calls@), index),
            ),
    {
        let ghost skipped = transitions::later_calls(views::all(calls@), index);
        let mut flow = self.state(TurnStateEvent::Suspended { suspension });
        let ghost told = flow@;
        let n = calls.len();
        let mut i: usize = index + 1;
        while i < n
            invariant
                n == calls@.len(),
                index < i <= n,
                skipped == transitions::later_calls(views::all(calls@), index),
                flow@ == transitions::tell_skipped(told, skipped, i - index - 1),
            decreases calls@.len() - i,
        {
            assert(skipped[i - index - 1] == calls@[i as int]@);
            flow =
            flow.state(
                TurnStateEvent::FunctionFailed {
                    call_id: calls[i].call_id.clone(),
                    name: calls[i].name.clone(),
                    error: "function not executed because a previous function suspended the turn".to_string(),
                },
            );
            i = i + 1;
        }
        flow
    }

    /// Lets the hooks that saw the call look at its result, and then moves on.
    fn leave(
        self,
        calls: Vec<ModelFunctionCall>,
        index: usize,
        remaining: usize,
        result: CallResult,
    ) -> (r: Step)
        requires
            index < calls@.len(),
        ensures
            r@ == transitions::leave(self@, views::all(calls@), index, remaining, result@),
    {
        if remaining > 0 {
            let context = self.hook_context(&calls[index]);
            let told = hook_result(&result);
            self.proceed(
                TurnPhase::AfterHooks { calls, index, remaining, result },
                TurnAction::AfterHook { hook: remaining - 1, context, result: told },
            )
        } else {
            self.settle(calls, index, result)
        }
    }

    /// Moves on after a call.
    fn settle(self, calls: Vec<ModelFunctionCall>, index: usize, result: CallResult) -> (r: Step)
        requires
            index < calls@.len(),
        ensures
            r@ == transitions::settle(self@, views::all(calls@), index, result@),
    {
        let n = calls.len();
        let call_id = calls[index].call_id.clone();
        let name = calls[index].name.clone();
        assert(index < n);
        match result {
            CallResult::Completed { .. } => self.state(
                TurnStateEvent::FunctionCompleted { call_id, name },
            ).take_up(calls, index + 1),
            CallResult::Failed { error } => self.state(
                TurnStateEvent::FunctionFailed { call_id, name, error },
            ).take_up(calls, index + 1),
            CallResult::SuspendedBefore { suspension } => self.tell_suspended(
                suspension.clone(),
                &calls,
                index,
            ).conclude(TurnOutcome::Suspended { suspension }),
            CallResult::SuspendedAfter { suspension, .. } => self.state(
                TurnStateEvent::FunctionCompleted { call_id, name },
            ).tell_suspended(suspension.clone(), &calls, index).conclude(
                TurnOutcome::Suspended { suspension },
            ),
        }
    }

    /// What came of a call has been stored.
    fn recorded(
        self,
        calls: Vec<ModelFunctionCall>,
        index: usize,
        entered: usize,
        result: CallResult,
    ) -> (r: Step)
        requires
            index < calls@.len(),
        ensures
            r@ == transitions::recorded(self@, views::all(calls@), index, entered, result@),
    {
        match &result {
            CallResult::Completed { output } => {
                let traced = ToolResult::Success { output: copy_of(output) };
                self.trace_output(&calls[index], traced).leave(calls, index, entered, result)
            },
            CallResult::Failed { error } => {
                let traced = ToolResult::Error { error: error.clone() };
                self.trace_output(&calls[index], traced).leave(calls, index, entered, result)
            },
            CallResult::SuspendedBefore { .. } => self.trace_skipped(&calls, index).settle(
                calls,
                index,
                result,
            ),
            CallResult::SuspendedAfter { output, .. } => {
                let traced = ToolResult::Success { output: copy_of(output) };
                self.trace_output(&calls[index], traced).trace_skipped(&calls, index).leave(
                    calls,
                    index,
                    entered,
                    result,
                )
            },
        }
    }

    /// The turn is stored and over.
    fn finish(self, outcome: TurnOutcome) -> (r: Step)
        ensures
            r@ == transitions::finish(self@, outcome@),
    {
        let usage = self.run.usage;
        let status = match &outcome {
            TurnOutcome::AssistantMessage { .. } => TraceTurnStatus::Completed,
            TurnOutcome::Suspended { .. } => TraceTurnStatus::Suspended,
            TurnOutcome::Failed { .. } => TraceTurnStatus::Failed,
            TurnOutcome::Aborted { .. } => TraceTurnStatus::Aborted,
        };
        let traced = self.trace(TraceEventKind::TurnFinished { status });
        let told = match &outcome {
            TurnOutcome::Failed { error } => traced.state(
                TurnStateEvent::TurnFailed { error: error.clone() },
            ),
            TurnOutcome::Aborted { reason } => traced.state(
                TurnStateEvent::TurnAborted { reason: reason.clone() },
            ),
            _ => traced,
        };
        let counted = if usage.is_zero() {
            told
        } else {
            told.state(TurnStateEvent::TurnTokenUsage { usage })
        };
        counted.state(TurnStateEvent::TurnFinished { outcome: outcome.clone() }).proceed(
            TurnPhase::Done,
            TurnAction::Finish(outcome),
        )
    }
}

/// The entry for what a call returned.
pub(crate) fn output_entry(call: &ModelFunctionCall, result: ToolResult) -> (r: Entry)
    ensures
        r@ == transitions::output_entry(call@, result@),
{
    Entry {
        source: TurnItemSource::Tool,
        kind: TurnItemKind::ToolOutput {
            call_id: call.call_id.clone(),
            name: call.name.clone(),
            result,
        },
    }
}

/// The entry for a suspension.
pub(crate) fn suspension_entry(suspension: &Suspension) -> (r: Entry)
    ensures
        r@ == transitions::suspension_entry(suspension@),
{
    Entry {
        source: TurnItemSource::Runtime,
        kind: TurnItemKind::SuspensionCreated { suspension: suspension.clone() },
    }
}

/// Adds the entries for the calls after `index`, which did not run.
pub(crate) fn push_skipped(entries: &mut Vec<Entry>, calls: &Vec<ModelFunctionCall>, index: usize)
    requires
        index < calls@.len(),
    ensures
        views::all(final(entries)@) == views::all(old(entries)@) + transitions::skipped_entries(
            transitions::later_calls(views::all(calls@), index),
        ),
{
    broadcast use crate::views::group_views;

    let ghost skipped = transitions::skipped_entries(
        transitions::later_calls(views::all(calls@), index),
    );
    let ghost before = views::all(entries@);
    let n = calls.len();
    let mut i: usize = index + 1;
    while i < n
        invariant
            n == calls@.len(),
            index < i <= n,
            skipped == transitions::skipped_entries(
                transitions::later_calls(views::all(calls@), index),
            ),
            views::all(entries@) =~= before + skipped.take(i - index - 1),
        decreases calls@.len() - i,
    {
        let entry = output_entry(
            &calls[i],
            ToolResult::Error {
                error: "function not executed because a previous function suspended the turn".to_string(),
            },
        );
        assert(entry@ == skipped[i - index - 1]);
        assert(skipped.take(i - index) =~= skipped.take(i - index - 1).push(entry@));
        let ghost so_far = entries@;
        entries.push(entry);
        assert(views::all(entries@) =~= views::all(so_far).push(entry@));
        i = i + 1;
    }
    assert(skipped.take(i - index - 1) =~= skipped);
}

/// The entries for what came of a call, after those for its effects.
fn result_entries(calls: &Vec<ModelFunctionCall>, index: usize, result: &CallResult) -> (r: Vec<
    Entry,
>)
    requires
        index < calls@.len(),
    ensures
        views::all(r@) == transitions::result_entries(views::all(calls@), index, result@),
{
    broadcast use crate::views::group_views;

    let call = &calls[index];
    let mut entries: Vec<Entry> = Vec::new();
    match result {
        CallResult::Completed { output } => {
            entries.push(output_entry(call, ToolResult::Success { output: copy_of(output) }));
        },
        CallResult::SuspendedBefore { suspension } => {
            entries.push(suspension_entry(suspension));
            push_skipped(&mut entries, calls, index);
        },
        CallResult::SuspendedAfter { suspension, output } => {
            entries.push(output_entry(call, ToolResult::Success { output: copy_of(output) }));
            entries.push(suspension_entry(suspension));
            push_skipped(&mut entries, calls, index);
        },
        CallResult::Failed { error } => {
            entries.push(output_entry(call, ToolResult::Error { error: error.clone() }));
        },
    }
    assert(views::all(entries@) =~= transitions::result_entries(
        views::all(calls@),
        index,
        result@,
    ));
    entries
}

/// What hooks are told of the result of a call.
fn hook_result(result: &CallResult) -> (r: FunctionCallHookResult)
    ensures
        r@ == transitions::hook_result(result@),
{
    match result {
        CallResult::Completed { output } => FunctionCallHookResult::Completed {
            output: copy_of(output),
        },
        CallResult::SuspendedAfter { suspension, output } => FunctionCallHookResult::Suspended {
            suspension: suspension.clone(),
            output: copy_of(output),
        },
        CallResult::SuspendedBefore { suspension } => FunctionCallHookResult::Suspended {
            suspension: suspension.clone(),
            output: null_value(),
        },
        CallResult::Failed { error } => FunctionCallHookResult::Failed { error: error.clone() },
    }
}

/// What is reported of a hook that failed after a call.
pub(crate) fn hook_failure(call: &ModelFunctionCall, error: &AgentError) -> (r: RuntimeEvent)
    ensures
        r@ == transitions::hook_failure(call@, error::words(error@)),
{
    RuntimeEvent {
        source: "function_call_hook".to_string(),
        message: "post-hook failed".to_string(),
        metadata: Fields::new().with_text("call_id", call.call_id.as_str()).with_text(
            "name",
            call.name.as_str(),
        ).with_text("error", error.message().as_str()).value(),
    }
}

impl TurnRun {
    /// The turn without its phase, and the phase.
    fn take_phase(self) -> (r: (Self, TurnPhase))
        ensures
            r.0.phase is Done,
            r.0@ == (TurnRunView { phase: TurnPhaseView::Done, ..self@ }),
            r.1@ == self@.phase,
    {
        let mut run = self;
        let mut phase = TurnPhase::Done;
        core::mem::swap(&mut phase, &mut run.phase);
        (run, phase)
    }

    /// A step in which nothing happens.
    fn wait(self, phase: TurnPhase, ids: IdSource) -> (r: Step)
        ensures
            r@ == transitions::wait(TurnRunView { phase: phase@, ..self@ }, ids),
    {
        broadcast use crate::views::group_views;

        let mut run = self;
        run.phase = phase;
        Step { run, action: TurnAction::Wait, events: Vec::new(), traces: Vec::new(), ids }
    }

    /// The store has taken the thread.
    fn committed(self, thread: Thread, ids: IdSource) -> (r: Step)
        ensures
            r@ == transitions::committed(self@, thread@, ids),
    {
        let (run, phase) = self.take_phase();
        match phase {
            TurnPhase::Starting { user_text } => Flow::fresh(run, ids).on_thread(thread).started(
                Some(user_text),
            ),
            TurnPhase::Completing { text } => {
                let function_calls: Vec<ModelFunctionCall> = Vec::new();
                assert(views::all(function_calls@) =~= Seq::<ModelFunctionCallView>::empty());
                Flow::fresh(run, ids).on_thread(thread).trace(
                    TraceEventKind::ModelResponse { text: Some(text.clone()), function_calls },
                ).conclude(TurnOutcome::AssistantMessage { text })
            },
            TurnPhase::Requesting { text, calls } => {
                let function_calls = calls.clone();
                assert(views::all(function_calls@) =~= views::all(calls@));
                Flow::fresh(run, ids).on_thread(thread).trace(
                    TraceEventKind::ModelResponse { text, function_calls },
                ).take_up(calls, 0)
            },
            TurnPhase::RecordingCall { calls, index, entered, result } => {
                if index < calls.len() {
                    Flow::fresh(run, ids).on_thread(thread).recorded(calls, index, entered, result)
                } else {
                    run.wait(TurnPhase::RecordingCall { calls, index, entered, result }, ids)
                }
            },
            TurnPhase::Finishing { outcome } => Flow::fresh(run, ids).on_thread(thread).finish(
                outcome,
            ),
            phase => run.wait(phase, ids),
        }
    }

    /// The summary kept from earlier requests has been read.
    fn cache_loaded(self, cache: Option<ThreadContextCache>, ids: IdSource) -> (r: Step)
        ensures
            r@ == transitions::next(self@, TurnInputView::CacheLoaded(views::opt(cache)), ids),
    {
        let (run, phase) = self.take_phase();
        match phase {
            TurnPhase::ReadingCache => {
                let action = TurnAction::BuildContext {
                    projection: ThreadProjection::from_thread(&run.thread),
                    revision: run.thread.revision.clone(),
                    cache,
                };
                Flow::fresh(run, ids).proceed(TurnPhase::BuildingContext, action)
            },
            phase => run.wait(phase, ids),
        }
    }

    /// The messages for the model have been chosen.
    fn context_built(self, context: ContextBuildOutput, ids: IdSource) -> (r: Step)
        ensures
            r@ == transitions::next(self@, TurnInputView::ContextBuilt(context@), ids),
    {
        let (run, phase) = self.take_phase();
        match phase {
            TurnPhase::BuildingContext => {
                let flow = Flow::fresh(run, ids);
                match context.cache {
                    Some(cache) => flow.proceed(
                        TurnPhase::SavingCache { messages: context.messages },
                        TurnAction::SaveCache(cache),
                    ),
                    None => flow.ask(context.messages),
                }
            },
            phase => run.wait(phase, ids),
        }
    }

    /// The new summary has been stored.
    fn cache_saved(self, ids: IdSource) -> (r: Step)
        ensures
            r@ == transitions::next(self@, TurnInputView::CacheSaved, ids),
    {
        let (run, phase) = self.take_phase();
        match phase {
            TurnPhase::SavingCache { messages } => Flow::fresh(run, ids).ask(messages),
            phase => run.wait(phase, ids),
        }
    }

    /// The model reports something while it answers.
    fn model_event(self, event: ModelStreamEvent, ids: IdSource) -> (r: Step)
        ensures
            r@ == transitions::next(self@, TurnInputView::Model(event@), ids),
    {
        let (run, phase) = self.take_phase();
        match phase {
            TurnPhase::AwaitingModel => match event {
                ModelStreamEvent::AssistantDelta { text } => Flow::fresh(run, ids).emit(
                    TurnStreamEvent::Model(TurnModelEvent::AssistantDelta { text }),
                ).proceed(TurnPhase::AwaitingModel, TurnAction::Wait),
                ModelStreamEvent::TokenUsage { usage } => {
                    let mut run = run;
                    run.usage.add_assign(usage);
                    run.wait(TurnPhase::AwaitingModel, ids)
                },
            },
            phase => run.wait(phase, ids),
        }
    }

    /// The model has answered.
    fn model_replied(self, response: ModelResponse, ids: IdSource) -> (r: Step)
        ensures
            r@ == transitions::next(self@, TurnInputView::ModelReplied(response@), ids),
    {
        let (run, phase) = self.take_phase();
        match phase {
            TurnPhase::AwaitingModel => {
                let flow = Flow::fresh(run, ids);
                match response {
                    ModelResponse::AssistantMessage { text } => {
                        let calls: Vec<ModelFunctionCall> = Vec::new();
                        assert(views::all(calls@) =~= Seq::<ModelFunctionCallView>::empty());
                        flow.replied(Some(text), calls)
                    },
                    ModelResponse::FunctionCalls { calls } => flow.replied(None, calls),
                    ModelResponse::Assistant { text, function_calls } => flow.replied(
                        text,
                        function_calls,
                    ),
                }
            },
            phase => run.wait(phase, ids),
        }
    }

    /// The model could not answer.
    fn model_failed(self, error: AgentError, ids: IdSource) -> (r: Step)
        ensures
            r@ == transitions::next(self@, TurnInputView::ModelFailed(error@), ids),
    {
        let (run, phase) = self.take_phase();
        match phase {
            TurnPhase::AwaitingModel => Flow::fresh(run, ids).fail(error.message()),
            phase => run.wait(phase, ids),
        }
    }

    /// A hook has returned.
    fn hooked(self, error: Option<AgentError>, ids: IdSource) -> (r: Step)
        ensures
            r@ == transitions::hooked(self@, views::opt(error), ids),
    {
        let (run, phase) = self.take_phase();
        match phase {
            TurnPhase::BeforeHooks { calls, index, entered } => {
                if index < calls.len() && entered < run.hook_count {
                    match error {
                        None => Flow::fresh(run, ids).enter(calls, index, entered + 1),
                        Some(error) => {
                            let effects: Vec<RuntimeEffect> = Vec::new();
                            assert(views::all(effects@) =~= Seq::<RuntimeEffectView>::empty());
                            Flow::fresh(run, ids).record(
                                calls,
                                index,
                                entered,
                                effects,
                                CallResult::Failed { error: error.message() },
                            )
                        },
                    }
                } else {
                    run.wait(TurnPhase::BeforeHooks { calls, index, entered }, ids)
                }
            },
            TurnPhase::AfterHooks { calls, index, remaining, result } => {
                if index < calls.len() && remaining > 0 {
                    let flow = Flow::fresh(run, ids);
                    let told = match &error {
                        None => flow,
                        Some(error) => flow.emit(
                            TurnStreamEvent::Runtime(hook_failure(&calls[index], error)),
                        ),
                    };
                    told.leave(calls, index, remaining - 1, result)
                } else {
                    run.wait(TurnPhase::AfterHooks { calls, index, remaining, result }, ids)
                }
            },
            phase => run.wait(phase, ids),
        }
    }

    /// A function has returned.
    fn function_returned(self, execution: FunctionCallExecution, ids: IdSource) -> (r: Step)
        ensures
            r@ == transitions::next(self@, TurnInputView::FunctionReturned(execution@), ids),
    {
        let (run, phase) = self.take_phase();
        match phase {
            TurnPhase::Executing { calls, index, entered } => {
                if index < calls.len() {
                    let flow = Flow::fresh(run, ids);
                    match execution {
                        FunctionCallExecution::Completed { output, effects } => flow.record(
                            calls,
                            index,
                            entered,
                            effects,
                            CallResult::Completed { output },
                        ),
                        FunctionCallExecution::SuspendedBeforeExecution { suspension, effects } => {
                            flow.record(
                                calls,
                                index,
                                entered,
                                effects,
                                CallResult::SuspendedBefore { suspension },
                            )
                        },
                        FunctionCallExecution::SuspendedAfterExecution {
                            suspension,
                            output,
                            effects,
                        } => flow.record(
                            calls,
                            index,
                            entered,
                            effects,
                            CallResult::SuspendedAfter { suspension, output },
                        ),
                    }
                } else {
                    run.wait(TurnPhase::Executing { calls, index, entered }, ids)
                }
            },
            phase => run.wait(phase, ids),
        }
    }

    /// A function could not run, or failed.
    fn function_failed(self, error: AgentError, ids: IdSource) -> (r: Step)
        ensures
            r@ == transitions::next(self@, TurnInputView::FunctionFailed(error@), ids),
    {
        let (run, phase) = self.take_phase();
        match phase {
            TurnPhase::Executing { calls, index, entered } => {
                if index < calls.len() {
                    let effects: Vec<RuntimeEffect> = Vec::new();
                    assert(views::all(effects@) =~= Seq::<RuntimeEffectView>::empty());
                    Flow::fresh(run, ids).record(
                        calls,
                        index,
                        entered,
                        effects,
                        CallResult::Failed { error: error.message() },
                    )
                } else {
                    run.wait(TurnPhase::Executing { calls, index, entered }, ids)
                }
            },
            phase => run.wait(phase, ids),
        }
    }

    /// The caller wants the turn to stop.
    fn aborted(self, ids: IdSource) -> (r: Step)
        ensures
            r@ == transitions::next(self@, TurnInputView::Aborted, ids),
    {
        let (run, phase) = self.take_phase();
        match phase {
            TurnPhase::AwaitingModel => Flow::fresh(run, ids).abort(),
            TurnPhase::Executing { .. } => Flow::fresh(run, ids).abort(),
            phase => run.wait(phase, ids),
        }
    }

    /// The store or the choice of messages failed.
    fn failed(self, error: AgentError, ids: IdSource) -> (r: Step)
        ensures
            r@ == transitions::next(self@, TurnInputView::Failed(error@), ids),
    {
        let (run, phase) = self.take_phase();
        let expected = match &phase {
            TurnPhase::Starting { .. } => true,
            TurnPhase::ReadingCache => true,
            TurnPhase::BuildingContext => true,
            TurnPhase::SavingCache { .. } => true,
            TurnPhase::Completing { .. } => true,
            TurnPhase::Requesting { .. } => true,
            TurnPhase::RecordingCall { .. } => true,
            TurnPhase::Finishing { .. } => true,
            _ => false,
        };
        if expected {
            Flow::fresh(run, ids).give_up(error)
        } else {
            run.wait(phase, ids)
        }
    }

    /// The step that the turn takes on an input. An input that the turn does not
    /// wait for changes nothing.
    pub fn step(self, input: TurnInput, ids: IdSource) -> (r: Step)
        ensures
            r@ == transitions::next(self@, input@, ids),
    {
        match input {
            TurnInput::Committed(thread) => self.committed(thread, ids),
            TurnInput::CacheLoaded(cache) => self.cache_loaded(cache, ids),
            TurnInput::ContextBuilt(context) => self.context_built(context, ids),
            TurnInput::CacheSaved => self.cache_saved(ids),
            TurnInput::Model(event) => self.model_event(event, ids),
            TurnInput::ModelReplied(response) => self.model_replied(response, ids),
            TurnInput::ModelFailed(error) => self.model_failed(error, ids),
            TurnInput::HookPassed => self.hooked(None, ids),
            TurnInput::HookFailed(error) => self.hooked(Some(error), ids),
            TurnInput::FunctionReturned(execution) => self.function_returned(execution, ids),
            TurnInput::FunctionFailed(error) => self.function_failed(error, ids),
            TurnInput::Aborted => self.aborted(ids),
            TurnInput::Failed(error) => self.failed(error, ids),
        }
    }
}

/// The turn that records what the user says.
pub fn prompted_turn(text: String, response_to: Option<String>, ids: &mut IdSource) -> (r: Turn)
    ensures
        r@ == transitions::prompted_turn(text@, views::opt(response_to), *old(ids)),
        *final(ids) == ids::after(*old(ids), 2),
{
    let mut turn = Turn::new(ids);
    let item = TurnItem::new(
        TurnItemSource::User,
        TurnItemKind::UserInput { text, response_to },
        ids,
    );
    turn.push_item(item, ids);
    proof {
        ids::lemma_after_after(*old(ids), 1, 1);
    }
    turn
}

/// The thread that a turn starts on: the one that was loaded, or a new one where
/// there is none yet.
pub fn opened(
    thread_id: &str,
    loaded: Result<Thread, AgentError>,
    ids: &IdSource,
) -> (r: Result<Thread, AgentError>)
    ensures
        views::res(r) == transitions::opened(thread_id@, views::res(loaded), *ids),
{
    match loaded {
        Ok(thread) => Ok(thread),
        Err(AgentError::ThreadNotFound(_)) => Ok(Thread::new(thread_id, ids)),
        Err(error) => Err(error),
    }
}

/// The suspension that keeps a turn from starting.
fn obstacle(state: &ThreadProjection, prompted: bool) -> (r: Option<PendingSuspension>)
    ensures
        views::opt(r) == transitions::obstacle(state@, prompted),
{
    match &state.pending_suspension {
        Some(pending) => {
            let own = match &state.active_turn_id {
                Some(turn_id) => text_eq(turn_id.as_str(), pending.turn_id.as_str()),
                None => false,
            };
            if !prompted && own {
                None
            } else {
                Some(pending.clone())
            }
        },
        None => None,
    }
}

/// Starts a turn on a thread that was loaded.
pub fn begin(
    request: TurnRequest,
    loaded: Result<Thread, AgentError>,
    ids: IdSource,
) -> (r: Result<Step, AgentError>)
    ensures
        views::res(r) == transitions::begin(request@, views::res(loaded), ids),
{
    broadcast use crate::views::group_views;

    let mut ids = ids;
    let mut thread = match opened(request.thread_id.as_str(), loaded, &ids) {
        Ok(thread) => thread,
        Err(error) => {
            return Err(error);
        },
    };
    let state = ThreadProjection::from_thread(&thread);
    if let Some(pending) = obstacle(&state, request.user_text.is_some()) {
        return Err(
            AgentError::SuspendedTurn {
                thread_id: request.thread_id,
                suspension_id: pending.suspension.id,
            },
        );
    }
    match request.user_text {
        Some(text) => {
            let turn = prompted_turn(text.clone(), None, &mut ids);
            let turn_id = turn.id.clone();
            thread.turns.push(turn);
            let run = TurnRun {
                thread_id: request.thread_id,
                functions: request.functions,
                max_model_iterations: request.max_model_iterations,
                hook_count: request.hook_count,
                thread,
                turn_id,
                trace_sequence: request.trace_sequence,
                usage: TokenUsage::default(),
                iteration: 0,
                phase: TurnPhase::Done,
            };
            Ok(Flow::fresh(run, ids).commit(TurnPhase::Starting { user_text: text }))
        },
        None => match state.active_turn_id {
            Some(turn_id) => {
                let run = TurnRun {
                    thread_id: request.thread_id,
                    functions: request.functions,
                    max_model_iterations: request.max_model_iterations,
                    hook_count: request.hook_count,
                    thread,
                    turn_id,
                    trace_sequence: request.trace_sequence,
                    usage: TokenUsage::default(),
                    iteration: 0,
                    phase: TurnPhase::Done,
                };
                Ok(Flow::fresh(run, ids).started(None))
            },
            None => Err(AgentError::TurnNotFound(request.thread_id)),
        },
    }
}

} // verus!
