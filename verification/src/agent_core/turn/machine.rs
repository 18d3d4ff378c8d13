//! The turn itself, step by step.
use crate::agent_core::agent_loop::FunctionCallHookContext;
use crate::agent_core::turn::parts::{
    CallResult, Flow, Step, TurnAction, TurnInput, TurnInputView, TurnPhase, TurnPhaseView,
    TurnRequest, TurnRun, TurnRunView,
};
use crate::agent_core::turn::transitions;
use crate::error::AgentError;
use crate::ids::IdSource;
use crate::json::copy_of;
use crate::kernel::events::{
    Thread, TokenUsage, ToolResult, TurnItemKind, TurnItemSource, TurnStatus,
};
use crate::kernel::model::{
    ModelFunctionCall, ModelFunctionCallView, ModelRequest, ModelResponse, ModelStreamEvent,
};
use crate::kernel::projection::{ChatMessage, ThreadProjection};
use crate::runtime::agent_loop::{
    FunctionCallHookResult, TurnModelEvent, TurnOutcome, TurnStateEvent, TurnStreamEvent,
};
use crate::runtime::functions::{FunctionContext, FunctionExecution, ThreadUpdate};
use crate::runtime::recording::{
    abort_turn, apply_turn_token_usage, end_turn, fail_turn, push_turn_items, set_turn_status,
    Entry,
};
use crate::runtime::turn::machine::{
    hook_failure, opened, output_entry, prompted_turn, push_skipped, suspension_entry,
};
use crate::runtime::turn::transitions as shared;
use crate::views;
use vstd::prelude::*;

verus! {

impl Flow {
    /// A turn at the start of a step.
    fn fresh(run: TurnRun, ids: IdSource) -> (r: Self)
        requires
            run.phase is Done,
        ensures
            r@ == transitions::fresh(run@, ids),
    {
        broadcast use crate::views::group_views;

        Flow { run, events: Vec::new(), ids }
    }

    /// Reports an event.
    fn emit(self, event: TurnStreamEvent) -> (r: Self)
        ensures
            r@ == transitions::emit(self@, event@),
    {
        broadcast use crate::views::group_views;

        let mut flow = self;
        flow.events.push(event);
        flow
    }

    /// Reports a change of state.
    fn state(self, event: TurnStateEvent) -> (r: Self)
        ensures
            r@ == transitions::state(self@, event@),
    {
        self.emit(TurnStreamEvent::State(event))
    }

    /// Takes over the thread as it now stands.
    fn on_thread(self, thread: Thread) -> (r: Self)
        ensures
            r@ == transitions::on_thread(self@, thread@),
    {
        let mut flow = self;
        flow.run.thread = thread;
        flow
    }

    /// Ends the step.
    fn proceed(self, phase: TurnPhase, action: TurnAction) -> (r: Step)
        ensures
            r@ == transitions::proceed(self@, phase@, action@),
    {
        let mut run = self.run;
        run.phase = phase;
        Step { run, action, events: self.events, ids: self.ids }
    }

    /// Ends the turn with an error.
    fn give_up(self, error: AgentError) -> (r: Step)
        ensures
            r@ == transitions::give_up(self@, error@),
    {
        self.proceed(TurnPhase::Done, TurnAction::Fail(error))
    }

    /// Stores the thread.
    fn commit(self, phase: TurnPhase) -> (r: Step)
        ensures
            r@ == transitions::commit(self@, phase@),
    {
        let thread = self.run.thread.clone();
        self.proceed(phase, TurnAction::Commit(thread))
    }

    /// Charges the tokens and stores the finished turn.
    fn conclude(self, outcome: TurnOutcome) -> (r: Step)
        ensures
            r@ == transitions::conclude(self@, outcome@),
    {
        let mut flow = self;
        let usage = flow.run.usage;
        apply_turn_token_usage(&mut flow.run.thread, usage);
        flow.commit(TurnPhase::Finishing { outcome })
    }

    /// Records `entries` in the turn, or ends it when the thread does not have it.
    fn write(self, entries: Vec<Entry>) -> (r: Result<Flow, Step>)
        ensures
            match transitions::write(self@, views::all(entries@)) {
                Some(g) => r matches Ok(flow) && flow@ == g,
                None => r matches Err(step) && step@ == transitions::lost(
                    self@,
                    views::all(entries@),
                ),
            },
    {
        let mut flow = self;
        match push_turn_items(
            &mut flow.run.thread,
            flow.run.turn_id.as_str(),
            entries,
            &mut flow.ids,
        ) {
            Ok(()) => Ok(flow),
            Err(error) => Err(flow.give_up(error)),
        }
    }

    /// Records `entries` in the turn and moves it to another state, or ends it
    /// when the thread does not have it.
    fn close(self, entries: Vec<Entry>, status: TurnStatus) -> (r: Result<Flow, Step>)
        ensures
            match transitions::close(self@, views::all(entries@), status) {
                Some(g) => r matches Ok(flow) && flow@ == g,
                None => r matches Err(step) && step@ == transitions::lost(
                    self@,
                    views::all(entries@),
                ),
            },
    {
        let mut flow = self;
        match end_turn(
            &mut flow.run.thread,
            flow.run.turn_id.as_str(),
            entries,
            status,
            &mut flow.ids,
        ) {
            Ok(()) => Ok(flow),
            Err(error) => Err(flow.give_up(error)),
        }
    }

    /// Records that the turn failed.
    fn fail(self, error: String) -> (r: Step)
        ensures
            r@ == transitions::fail(self@, error@),
    {
        let mut flow = self;
        match fail_turn(
            &mut flow.run.thread,
            flow.run.turn_id.as_str(),
            error.clone(),
            &mut flow.ids,
        ) {
            Ok(()) => flow.conclude(TurnOutcome::Failed { error }),
            Err(lost) => flow.give_up(lost),
        }
    }

    /// Records that the turn was aborted.
    fn abort(self) -> (r: Step)
        ensures
            r@ == transitions::abort(self@),
    {
        let mut flow = self;
        let reason = "turn aborted by caller".to_string();
        match abort_turn(
            &mut flow.run.thread,
            flow.run.turn_id.as_str(),
            reason.clone(),
            &mut flow.ids,
        ) {
            Ok(()) => flow.conclude(TurnOutcome::Aborted { reason }),
            Err(lost) => flow.give_up(lost),
        }
    }

    /// Goes to the model again, unless it was asked too often.
    fn iterate(self) -> (r: Step)
        ensures
            r@ == transitions::iterate(self@),
    {
        if self.run.iteration < self.run.max_model_iterations {
            let action = TurnAction::BuildContext {
                projection: ThreadProjection::from_thread(&self.run.thread),
                runtime_context: self.run.runtime_context.clone(),
            };
            self.proceed(TurnPhase::BuildingContext, action)
        } else {
            let error = AgentError::MaxIterations(self.run.max_model_iterations).message();
            self.fail(error)
        }
    }

    /// Asks the model.
    fn ask(self, messages: Vec<ChatMessage>) -> (r: Step)
        ensures
            r@ == transitions::ask(self@, views::all(messages@)),
    {
        let functions = self.run.functions.clone();
        assert(views::all(functions@) =~= views::all(self.run.functions@));
        let iteration = self.run.iteration;
        self.emit(TurnStreamEvent::Model(TurnModelEvent::RequestStarted { iteration })).proceed(
            TurnPhase::AwaitingModel,
            TurnAction::CallModel(ModelRequest { messages, functions }),
        )
    }

    /// The model has answered.
    fn replied(self, text: Option<String>, calls: Vec<ModelFunctionCall>) -> (r: Step)
        ensures
            r@ == transitions::replied(self@, views::opt(text), views::all(calls@)),
    {
        match text {
            Some(text) => {
                let mut entries: Vec<Entry> = Vec::new();
                entries.push(
                    Entry {
                        source: TurnItemSource::Model,
                        kind: TurnItemKind::ModelMessage { text: text.clone() },
                    },
                );
                assert(views::all(entries@) =~= transitions::text_entries(text@));
                let told = self.emit(
                    TurnStreamEvent::Model(TurnModelEvent::AssistantMessage { text: text.clone() }),
                );
                match told.write(entries) {
                    Ok(flow) => flow.commit(TurnPhase::StoringText { text, calls }),
                    Err(step) => step,
                }
            },
            None => {
                let nothing = String::new();
                assert(nothing@ =~= Seq::<char>::empty());
                self.heard(nothing, calls)
            },
        }
    }

    /// The text of an answer is stored.
    fn heard(self, text: String, calls: Vec<ModelFunctionCall>) -> (r: Step)
        ensures
            r@ == transitions::heard(self@, text@, views::all(calls@)),
    {
        if calls.len() == 0 {
            let mut flow = self;
            match set_turn_status(
                &mut flow.run.thread,
                flow.run.turn_id.as_str(),
                TurnStatus::Completed,
                &flow.ids,
            ) {
                Ok(()) => flow.conclude(TurnOutcome::AssistantMessage { text }),
                Err(error) => flow.give_up(error),
            }
        } else {
            let requested = calls.clone();
            assert(views::all(requested@) =~= views::all(calls@));
            let entries = call_entries(&calls);
            let told = self.state(TurnStateEvent::FunctionCallsRequested { calls: requested });
            match told.write(entries) {
                Ok(flow) => flow.commit(TurnPhase::Requesting { calls }),
                Err(step) => step,
            }
        }
    }

    /// What a hook is told of a call.
    fn hook_context(
        &self,
        call: &ModelFunctionCall,
        before: ThreadProjection,
        after: Option<ThreadProjection>,
    ) -> (r: FunctionCallHookContext)
        ensures
            r@ == transitions::hook_context(self@.run, call@, before@, views::opt(after)),
    {
        FunctionCallHookContext {
            thread_id: self.run.thread.id.clone(),
            turn_id: self.run.turn_id.clone(),
            call_id: call.call_id.clone(),
            name: call.name.clone(),
            arguments: copy_of(&call.arguments),
            projection: before,
            projection_after: after,
        }
    }

    /// Lets the next hook look at a call, or runs it once all have passed it.
    fn enter(self, calls: Vec<ModelFunctionCall>, index: usize, entered: usize) -> (r: Step)
        requires
            index < calls@.len(),
        ensures
            r@ == transitions::enter(self@, views::all(calls@), index, entered),
    {
        let call = calls[index].clone();
        let now = ThreadProjection::from_thread(&self.run.thread);
        if entered < self.run.hook_count {
            let context = self.hook_context(&call, now, None);
            self.proceed(
                TurnPhase::BeforeHooks { calls, index, entered },
                TurnAction::BeforeHook { hook: entered, context },
            )
        } else {
            let context = FunctionContext {
                thread_id: self.run.thread.id.clone(),
                turn_id: self.run.turn_id.clone(),
                call_id: call.call_id,
                projection: now,
            };
            self.proceed(
                TurnPhase::Executing { calls, index },
                TurnAction::CallFunction { name: call.name, arguments: call.arguments, context },
            )
        }
    }

    /// Takes up a call, or goes back to the model when all are done.
    fn take_up(self, calls: Vec<ModelFunctionCall>, index: usize) -> (r: Step)
        ensures
            r@ == transitions::take_up(self@, views::all(calls@), index as int),
    {
        if index < calls.len() {
            let call_id = calls[index].call_id.clone();
            let name = calls[index].name.clone();
            self.state(TurnStateEvent::FunctionStarted { call_id, name }).enter(calls, index, 0)
        } else {
            let mut flow = self;
            flow.run.iteration = flow.run.iteration.saturating_add(1);
            flow.iterate()
        }
    }

    /// Records what came of a call.
    fn record(
        self,
        calls: Vec<ModelFunctionCall>,
        index: usize,
        update: Option<ThreadUpdate>,
        result: CallResult,
    ) -> (r: Step)
        requires
            index < calls@.len(),
        ensures
            r@ == transitions::record(
                self@,
                views::all(calls@),
                index,
                views::opt(update),
                result@,
            ),
    {
        broadcast use crate::views::group_views;

        let before = ThreadProjection::from_thread(&self.run.thread);
        let mut flow = self;
        let mut entries = apply_thread_update(&mut flow.run.thread, update);
        let mut outcome = result_entries(&calls[index], &result);
        entries.append(&mut outcome);
        let suspended = match &result {
            CallResult::Suspended { .. } => true,
            _ => false,
        };
        let written = if suspended {
            flow.close(entries, TurnStatus::Suspended)
        } else {
            flow.write(entries)
        };
        match written {
            Ok(flow) => flow.commit(TurnPhase::RecordingCall { calls, index, before, result }),
            Err(step) => step,
        }
    }

    /// Lets the hooks look at the result of a call, and then moves on.
    fn leave(
        self,
        calls: Vec<ModelFunctionCall>,
        index: usize,
        before: ThreadProjection,
        left: usize,
        result: CallResult,
    ) -> (r: Step)
        requires
            index < calls@.len(),
        ensures
            r@ == transitions::leave(self@, views::all(calls@), index, before@, left, result@),
    {
        if left < self.run.hook_count {
            let after = ThreadProjection::from_thread(&self.run.thread);
            let context = self.hook_context(&calls[index], before.clone(), Some(after));
            let told = hook_result(&result);
            self.proceed(
                TurnPhase::AfterHooks { calls, index, before, left, result },
                TurnAction::AfterHook { hook: left, context, result: told },
            )
        } else {
            self.settle(calls, index, result)
        }
    }

    /// Reports the calls after `index`, which did not run.
    fn tell_skipped(self, calls: &Vec<ModelFunctionCall>, index: usize) -> (r: Self)
        requires
            index < calls@.len(),
        ensures
            r@ == transitions::tell_skipped(
                self@,
                shared::later_calls(views::all(calls@), index),
                shared::later_calls(views::all(calls@), index).len() as int,
            ),
    {
        let ghost skipped = shared::later_calls(views::all(calls@), index);
        let mut flow = self;
        let n = calls.len();
        let mut i: usize = index + 1;
        while i < n
            invariant
                n == calls@.len(),
                index < i <= n,
                skipped == shared::later_calls(views::all(calls@), index),
                flow@ == transitions::tell_skipped(self@, skipped, i - index - 1),
            decreases n - i,
        {
            assert(skipped[i - index - 1] == calls@[i as int]@);
            flow =
            flow.state(
                TurnStateEvent::FunctionFailed {
                    call_id: calls[i].call_id.clone(),
                    name: calls[i].name.clone(),
                    error: "function not executed because a previous function suspended the turn".to_string(),
                },
            );
            i = i + 1;
        }
        flow
    }

    /// Moves on after a call.
    fn settle(self, calls: Vec<ModelFunctionCall>, index: usize, result: CallResult) -> (r: Step)
        requires
            index < calls@.len(),
        ensures
            r@ == transitions::settle(self@, views::all(calls@), index, result@),
    {
        let n = calls.len();
        let call_id = calls[index].call_id.clone();
        let name = calls[index].name.clone();
        assert(index < n);
        match result {
            CallResult::Completed { .. } => self.state(
                TurnStateEvent::FunctionCompleted { call_id, name },
            ).take_up(calls, index + 1),
            CallResult::Failed { error } => self.state(
                TurnStateEvent::FunctionFailed { call_id, name, error },
            ).take_up(calls, index + 1),
            CallResult::Suspended { suspension, .. } => {
                let mut entries: Vec<Entry> = Vec::new();
                push_skipped(&mut entries, &calls, index);
                assert(views::all(entries@) =~= shared::skipped_entries(
                    shared::later_calls(views::all(calls@), index),
                ));
                let told = self.state(TurnStateEvent::FunctionCompleted { call_id, name }).state(
                    TurnStateEvent::Suspended { suspension: suspension.clone() },
                ).tell_skipped(&calls, index);
                match told.write(entries) {
                    Ok(flow) => flow.commit(TurnPhase::Skipping { suspension }),
                    Err(step) => step,
                }
            },
        }
    }

    /// The turn is stored and over.
    fn finish(self, outcome: TurnOutcome) -> (r: Step)
        ensures
            r@ == transitions::finish(self@, outcome@),
    {
        let usage = self.run.usage;
        let told = match &outcome {
            TurnOutcome::Failed { error } => self.state(
                TurnStateEvent::TurnFailed { error: error.clone() },
            ),
            TurnOutcome::Aborted { reason } => self.state(
                TurnStateEvent::TurnAborted { reason: reason.clone() },
            ),
            _ => self,
        };
        let counted = if usage.is_zero() {
            told
        } else {
            told.state(TurnStateEvent::TurnTokenUsage { usage })
        };
        counted.state(TurnStateEvent::TurnFinished { outcome: outcome.clone() }).proceed(
            TurnPhase::Done,
            TurnAction::Finish(outcome),
        )
    }
}

/// The entries for calls of the model.
fn call_entries(calls: &Vec<ModelFunctionCall>) -> (r: Vec<Entry>)
    ensures
        views::all(r@) == transitions::call_entries(views::all(calls@)),
{
    let mut entries: Vec<Entry> = Vec::new();
    let mut i: usize = 0;
    while i < calls.len()
        invariant
            i <= calls@.len(),
            entries@.len() == i,
            forall|k: int|
                0 <= k < i ==> (#[trigger] entries@[k])@ == transitions::call_entries(
                    views::all(calls@),
                )[k],
        decreases calls@.len() - i,
    {
        entries.push(
            Entry {
                source: TurnItemSource::Model,
                kind: TurnItemKind::ModelFunctionCall {
                    call_id: calls[i].call_id.clone(),
                    name: calls[i].name.clone(),
                    arguments: copy_of(&calls[i].arguments),
                },
            },
        );
        i = i + 1;
    }
    assert(views::all(entries@) =~= transitions::call_entries(views::all(calls@)));
    entries
}

/// Changes the thread as a function asked for, and returns the entries for it.
pub fn apply_thread_update(thread: &mut Thread, update: Option<ThreadUpdate>) -> (r: Vec<Entry>)
    ensures
        final(thread)@ == transitions::updated(old(thread)@, views::opt(update)),
        views::all(r@) == transitions::update_entries(old(thread)@, views::opt(update)),
{
    let mut entries: Vec<Entry> = Vec::new();
    match update {
        Some(ThreadUpdate::Goal(goal)) => {
            let previous = thread.goal.clone();
            thread.goal = Some(goal.clone());
            entries.push(
                Entry {
                    source: TurnItemSource::Runtime,
                    kind: TurnItemKind::GoalUpdated { previous, current: goal },
                },
            );
        },
        None => {},
    }
    assert(views::all(entries@) =~= transitions::update_entries(
        old(thread)@,
        views::opt(update),
    ));
    entries
}

/// The entries for what came of a call, after those for its change.
fn result_entries(call: &ModelFunctionCall, result: &CallResult) -> (r: Vec<Entry>)
    ensures
        views::all(r@) == transitions::result_entries(call@, result@),
{
    let mut entries: Vec<Entry> = Vec::new();
    match result {
        CallResult::Completed { output } => {
            entries.push(output_entry(call, ToolResult::Success { output: copy_of(output) }));
        },
        CallResult::Suspended { suspension, output } => {
            entries.push(output_entry(call, ToolResult::Success { output: copy_of(output) }));
            entries.push(suspension_entry(suspension));
        },
        CallResult::Failed { error } => {
            entries.push(output_entry(call, ToolResult::Error { error: error.clone() }));
        },
    }
    assert(views::all(entries@) =~= transitions::result_entries(call@, result@));
    entries
}

/// What hooks are told of the result of a call.
fn hook_result(result: &CallResult) -> (r: FunctionCallHookResult)
    ensures
        r@ == transitions::hook_result(result@),
{
    match result {
        CallResult::Completed { output } => FunctionCallHookResult::Completed {
            output: copy_of(output),
        },
        CallResult::Suspended { suspension, output } => FunctionCallHookResult::Suspended {
            suspension: suspension.clone(),
            output: copy_of(output),
        },
        CallResult::Failed { error } => FunctionCallHookResult::Failed { error: error.clone() },
    }
}

impl TurnRun {
    /// The turn without its phase, and the phase.
    fn take_phase(self) -> (r: (Self, TurnPhase))
        ensures
            r.0.phase is Done,
            r.0@ == (TurnRunView { phase: TurnPhaseView::Done, ..self@ }),
            r.1@ == self@.phase,
    {
        let mut run = self;
        let mut phase = TurnPhase::Done;
        core::mem::swap(&mut phase, &mut run.phase);
        (run, phase)
    }

    /// A step in which nothing happens.
    fn wait(self, phase: TurnPhase, ids: IdSource) -> (r: Step)
        ensures
            r@ == transitions::wait(TurnRunView { phase: phase@, ..self@ }, ids),
    {
        broadcast use crate::views::group_views;

        let mut run = self;
        run.phase = phase;
        Step { run, action: TurnAction::Wait, events: Vec::new(), ids }
    }

    /// The store has taken the thread.
    fn committed(self, thread: Thread, ids: IdSource) -> (r: Step)
        ensures
            r@ == transitions::committed(self@, thread@, ids),
    {
        let (run, phase) = self.take_phase();
        match phase {
            TurnPhase::Starting => {
                let event = TurnStateEvent::TurnStarted {
                    thread_id: run.thread_id.clone(),
                    turn_id: run.turn_id.clone(),
                };
                Flow::fresh(run, ids).on_thread(thread).state(event).iterate()
            },
            TurnPhase::StoringText { text, calls } => Flow::fresh(run, ids).on_thread(
                thread,
            ).heard(text, calls),
            TurnPhase::Requesting { calls } => Flow::fresh(run, ids).on_thread(thread).take_up(
                calls,
                0,
            ),
            TurnPhase::RecordingCall { calls, index, before, result } => {
                if index < calls.len() {
                    Flow::fresh(run, ids).on_thread(thread).leave(calls, index, before, 0, result)
                } else {
                    run.wait(TurnPhase::RecordingCall { calls, index, before, result }, ids)
                }
            },
            TurnPhase::Skipping { suspension } => Flow::fresh(run, ids).on_thread(thread).conclude(
                TurnOutcome::Suspended { suspension },
            ),
            TurnPhase::Finishing { outcome } => Flow::fresh(run, ids).on_thread(thread).finish(
                outcome,
            ),
            phase => run.wait(phase, ids),
        }
    }

    /// The messages for the model have been chosen.
    fn context_built(self, messages: Vec<ChatMessage>, ids: IdSource) -> (r: Step)
        ensures
            r@ == transitions::next(
                self@,
                TurnInputView::ContextBuilt { messages: views::all(messages@) },
                ids,
            ),
    {
        let (run, phase) = self.take_phase();
        match phase {
            TurnPhase::BuildingContext => Flow::fresh(run, ids).ask(messages),
            phase => run.wait(phase, ids),
        }
    }

    /// The model reports something while it answers.
    fn model_event(self, event: ModelStreamEvent, ids: IdSource) -> (r: Step)
        ensures
            r@ == transitions::next(self@, TurnInputView::Model(event@), ids),
    {
        let (run, phase) = self.take_phase();
        match phase {
            TurnPhase::AwaitingModel => match event {
                ModelStreamEvent::AssistantDelta { text } => Flow::fresh(run, ids).emit(
                    TurnStreamEvent::Model(TurnModelEvent::AssistantDelta { text }),
                ).proceed(TurnPhase::AwaitingModel, TurnAction::Wait),
                ModelStreamEvent::TokenUsage { usage } => {
                    let mut run = run;
                    run.usage.add_assign(usage);
                    run.wait(TurnPhase::AwaitingModel, ids)
                },
            },
            phase => run.wait(phase, ids),
        }
    }

    /// The model has answered.
    fn model_replied(self, response: ModelResponse, ids: IdSource) -> (r: Step)
        ensures
            r@ == transitions::next(self@, TurnInputView::ModelReplied(response@), ids),
    {
        let (run, phase) = self.take_phase();
        match phase {
            TurnPhase::AwaitingModel => {
                let flow = Flow::fresh(run, ids);
                match response {
                    ModelResponse::AssistantMessage { text } => {
                        let calls: Vec<ModelFunctionCall> = Vec::new();
                        assert(views::all(calls@) =~= Seq::<ModelFunctionCallView>::empty());
                        flow.replied(Some(text), calls)
                    },
                    ModelResponse::FunctionCalls { calls } => flow.replied(None, calls),
                    ModelResponse::Assistant { text, function_calls } => flow.replied(
                        text,
                        function_calls,
                    ),
                }
            },
            phase => run.wait(phase, ids),
        }
    }

    /// The model could not answer.
    fn model_failed(self, error: AgentError, ids: IdSource) -> (r: Step)
        ensures
            r@ == transitions::next(self@, TurnInputView::ModelFailed(error@), ids),
    {
        let (run, phase) = self.take_phase();
        match phase {
            TurnPhase::AwaitingModel => Flow::fresh(run, ids).fail(error.message()),
            phase => run.wait(phase, ids),
        }
    }

    /// A hook has returned.
    fn hooked(self, error: Option<AgentError>, ids: IdSource) -> (r: Step)
        ensures
            r@ == transitions::hooked(self@, views::opt(error), ids),
    {
        let (run, phase) = self.take_phase();
        match phase {
            TurnPhase::BeforeHooks { calls, index, entered } => {
                if index < calls.len() && entered < run.hook_count {
                    match error {
                        None => Flow::fresh(run, ids).enter(calls, index, entered + 1),
                        Some(error) => Flow::fresh(run, ids).record(
                            calls,
                            index,
                            None,
                            CallResult::Failed { error: error.message() },
                        ),
                    }
                } else {
                    run.wait(TurnPhase::BeforeHooks { calls, index, entered }, ids)
                }
            },
            TurnPhase::AfterHooks { calls, index, before, left, result } => {
                if index < calls.len() && left < run.hook_count {
                    let flow = Flow::fresh(run, ids);
                    let told = match &error {
                        None => flow,
                        Some(error) => flow.emit(
                            TurnStreamEvent::Runtime(hook_failure(&calls[index], error)),
                        ),
                    };
                    told.leave(calls, index, before, left + 1, result)
                } else {
                    run.wait(TurnPhase::AfterHooks { calls, index, before, left, result }, ids)
                }
            },
            phase => run.wait(phase, ids),
        }
    }

    /// A function has returned.
    fn function_returned(self, execution: FunctionExecution, ids: IdSource) -> (r: Step)
        ensures
            r@ == transitions::next(self@, TurnInputView::FunctionReturned(execution@), ids),
    {
        let (run, phase) = self.take_phase();
        match phase {
            TurnPhase::Executing { calls, index } => {
                if index < calls.len() {
                    let flow = Flow::fresh(run, ids);
                    match execution {
                        FunctionExecution::Completed { output, thread_update } => flow.record(
                            calls,
                            index,
                            thread_update,
                            CallResult::Completed { output },
                        ),
                        FunctionExecution::Suspended { suspension, output, thread_update } => {
                            flow.record(
                                calls,
                                index,
                                thread_update,
                                CallResult::Suspended { suspension, output },
                            )
                        },
                    }
                } else {
                    run.wait(TurnPhase::Executing { calls, index }, ids)
                }
            },
            phase => run.wait(phase, ids),
        }
    }

    /// A function could not run, or failed.
    fn function_failed(self, error: AgentError, ids: IdSource) -> (r: Step)
        ensures
            r@ == transitions::next(self@, TurnInputView::FunctionFailed(error@), ids),
    {
        let (run, phase) = self.take_phase();
        match phase {
            TurnPhase::Executing { calls, index } => {
                if index < calls.len() {
                    Flow::fresh(run, ids).record(
                        calls,
                        index,
                        None,
                        CallResult::Failed { error: error.message() },
                    )
                } else {
                    run.wait(TurnPhase::Executing { calls, index }, ids)
                }
            },
            phase => run.wait(phase, ids),
        }
    }

    /// The caller wants the turn to stop.
    fn aborted(self, ids: IdSource) -> (r: Step)
        ensures
            r@ == transitions::next(self@, TurnInputView::Aborted, ids),
    {
        let (run, phase) = self.take_phase();
        match phase {
            TurnPhase::AwaitingModel => Flow::fresh(run, ids).abort(),
            TurnPhase::Executing { .. } => Flow::fresh(run, ids).abort(),
            phase => run.wait(phase, ids),
        }
    }

    /// The store or the choice of messages failed.
    fn failed(self, error: AgentError, ids: IdSource) -> (r: Step)
        ensures
            r@ == transitions::next(self@, TurnInputView::Failed(error@), ids),
    {
        let (run, phase) = self.take_phase();
        let expected = match &phase {
            TurnPhase::Starting => true,
            TurnPhase::BuildingContext => true,
            TurnPhase::StoringText { .. } => true,
            TurnPhase::Requesting { .. } => true,
            TurnPhase::RecordingCall { .. } => true,
            TurnPhase::Skipping { .. } => true,
            TurnPhase::Finishing { .. } => true,
            _ => false,
        };
        if expected {
            Flow::fresh(run, ids).give_up(error)
        } else {
            run.wait(phase, ids)
        }
    }

    /// The step that the turn takes on an input. An input that the turn does not
    /// wait for changes nothing.
    pub fn step(self, input: TurnInput, ids: IdSource) -> (r: Step)
        ensures
            r@ == transitions::next(self@, input@, ids),
    {
        match input {
            TurnInput::Committed(thread) => self.committed(thread, ids),
            TurnInput::ContextBuilt { messages } => self.context_built(messages, ids),
            TurnInput::Model(event) => self.model_event(event, ids),
            TurnInput::ModelReplied(response) => self.model_replied(response, ids),
            TurnInput::ModelFailed(error) => self.model_failed(error, ids),
            TurnInput::HookPassed => self.hooked(None, ids),
            TurnInput::HookFailed(error) => self.hooked(Some(error), ids),
            TurnInput::FunctionReturned(execution) => self.function_returned(execution, ids),
            TurnInput::FunctionFailed(error) => self.function_failed(error, ids),
            TurnInput::Aborted => self.aborted(ids),
            TurnInput::Failed(error) => self.failed(error, ids),
        }
    }
}

/// Starts a turn on a thread that was loaded.
pub fn begin(
    request: TurnRequest,
    loaded: Result<Thread, AgentError>,
    ids: IdSource,
) -> (r: Result<Step, AgentError>)
    ensures
        views::res(r) == transitions::begin(request@, views::res(loaded), ids),
{
    broadcast use crate::views::group_views;

    let mut ids = ids;
    let mut thread = match opened(request.thread_id.as_str(), loaded, &ids) {
        Ok(thread) => thread,
        Err(error) => {
            return Err(error);
        },
    };
    let response_to = match ThreadProjection::from_thread(&thread).pending_suspension {
        Some(pending) => Some(pending.suspension.id),
        None => None,
    };
    let turn = prompted_turn(request.user_text, response_to, &mut ids);
    let turn_id = turn.id.clone();
    thread.turns.push(turn);
    let run = TurnRun {
        thread_id: request.thread_id,
        functions: request.functions,
        max_model_iterations: request.max_model_iterations,
        hook_count: request.hook_count,
        runtime_context: request.runtime_context,
        thread,
        turn_id,
        usage: TokenUsage::default(),
        iteration: 0,
        phase: TurnPhase::Done,
    };
    Ok(Flow::fresh(run, ids).commit(TurnPhase::Starting))
}

} // verus!
