//! One turn of an agent, call by call, as a machine that decides and leaves the
//! doing to its caller.
use crate::error::{self, AgentError, AgentErrorView};
use crate::ids::{self, IdSource};
use crate::json::{self, copy_of, Json};
use crate::kernel::events::{
    self, Thread, ThreadView, ToolResult, ToolResultView, TurnItem, TurnItemKind, TurnItemKindView,
    TurnItemSource, TurnItemView, TurnStatus, TurnView,
};
use crate::kernel::model::{
    FunctionSpec, FunctionSpecView, ModelFunctionCall, ModelFunctionCallView,
};
use crate::lite::functions::{
    FunctionContext, FunctionContextView, FunctionExecution, FunctionExecutionView,
};
use crate::lite::model::{
    self, model_request, ModelRequest, ModelRequestView, ModelResponse, ModelResponseView,
};
use crate::lite::projection::{self, ThreadProjection};
use crate::runtime::answers;
use crate::runtime::functions::{ThreadUpdate, ThreadUpdateView};
use crate::runtime::recording::{
    self, append_items, end_turn, fail_turn, push_turn_items, set_turn_status, Entry, EntryView,
};
use crate::runtime::turn::machine::{opened, output_entry, prompted_turn};
use crate::runtime::turn::transitions;
use crate::views;
use serde_json::Value;
use vstd::multiset::Multiset;
use vstd::prelude::*;

verus! {

/// How a turn ended.
#[derive(Debug, PartialEq)]
pub enum TurnOutcome {
    AssistantMessage { text: String },
    WaitingForUser { request_id: String, prompt: String },
    Failed { error: String },
}

/// What a `TurnOutcome` holds.
#[verifier::ext_equal]
pub enum TurnOutcomeView {
    AssistantMessage { text: Seq<char> },
    WaitingForUser { request_id: Seq<char>, prompt: Seq<char> },
    Failed { error: Seq<char> },
}

impl View for TurnOutcome {
    type V = TurnOutcomeView;

    open spec fn view(&self) -> TurnOutcomeView {
        match *self {
            TurnOutcome::AssistantMessage { text } => TurnOutcomeView::AssistantMessage {
                text: text@,
            },
            TurnOutcome::WaitingForUser { request_id, prompt } => TurnOutcomeView::WaitingForUser {
                request_id: request_id@,
                prompt: prompt@,
            },
            TurnOutcome::Failed { error } => TurnOutcomeView::Failed { error: error@ },
        }
    }
}

impl Clone for TurnOutcome {
    fn clone(&self) -> (r: Self)
        ensures
            r@ == self@,
    {
        match self {
            TurnOutcome::AssistantMessage { text } => TurnOutcome::AssistantMessage {
                text: text.clone(),
            },
            TurnOutcome::WaitingForUser { request_id, prompt } => TurnOutcome::WaitingForUser {
                request_id: request_id.clone(),
                prompt: prompt.clone(),
            },
            TurnOutcome::Failed { error } => TurnOutcome::Failed { error: error.clone() },
        }
    }
}

/// What a turn waits for.
#[derive(Debug, PartialEq)]
pub enum TurnPhase {
    /// The thread with the new turn is being stored.
    Starting,
    /// The model is answering.
    AwaitingModel,
    /// A call of the model is being stored.
    StoringCall { calls: Vec<ModelFunctionCall>, index: usize },
    /// A function runs.
    Executing { calls: Vec<ModelFunctionCall>, index: usize },
    /// What came of a call is being stored.
    StoringResult { calls: Vec<ModelFunctionCall>, index: usize },
    /// The finished turn is being stored.
    Ending { outcome: TurnOutcome },
    /// There is nothing left to do.
    Done,
}

/// What a `TurnPhase` holds.
#[verifier::ext_equal]
pub enum TurnPhaseView {
    Starting,
    AwaitingModel,
    StoringCall { calls: Seq<ModelFunctionCallView>, index: usize },
    Executing { calls: Seq<ModelFunctionCallView>, index: usize },
    StoringResult { calls: Seq<ModelFunctionCallView>, index: usize },
    Ending { outcome: TurnOutcomeView },
    Done,
}

impl View for TurnPhase {
    type V = TurnPhaseView;

    open spec fn view(&self) -> TurnPhaseView {
        match *self {
            TurnPhase::Starting => TurnPhaseView::Starting,
            TurnPhase::AwaitingModel => TurnPhaseView::AwaitingModel,
            TurnPhase::StoringCall { calls, index } => TurnPhaseView::StoringCall {
                calls: views::all(calls@),
                index,
            },
            TurnPhase::Executing { calls, index } => TurnPhaseView::Executing {
                calls: views::all(calls@),
                index,
            },
            TurnPhase::StoringResult { calls, index } => TurnPhaseView::StoringResult {
                calls: views::all(calls@),
                index,
            },
            TurnPhase::Ending { outcome } => TurnPhaseView::Ending { outcome: outcome@ },
            TurnPhase::Done => TurnPhaseView::Done,
        }
    }
}

impl Clone for TurnPhase {
    fn clone(&self) -> (r: Self)
        ensures
            r@ == self@,
    {
        match self {
            TurnPhase::Starting => TurnPhase::Starting,
            TurnPhase::AwaitingModel => TurnPhase::AwaitingModel,
            TurnPhase::StoringCall { calls, index } => {
                let copy_calls = calls.clone();
                assert(views::all(copy_calls@) =~= views::all(calls@));
                TurnPhase::StoringCall { calls: copy_calls, index: *index }
            },
            TurnPhase::Executing { calls, index } => {
                let copy_calls = calls.clone();
                assert(views::all(copy_calls@) =~= views::all(calls@));
                TurnPhase::Executing { calls: copy_calls, index: *index }
            },
            TurnPhase::StoringResult { calls, index } => {
                let copy_calls = calls.clone();
                assert(views::all(copy_calls@) =~= views::all(calls@));
                TurnPhase::StoringResult { calls: copy_calls, index: *index }
            },
            TurnPhase::Ending { outcome } => TurnPhase::Ending { outcome: outcome.clone() },
            TurnPhase::Done => TurnPhase::Done,
        }
    }
}

/// What came of an action.
#[derive(Debug, PartialEq)]
pub enum TurnInput {
    /// The store took the thread, and returns it as it now stands.
    Saved(Thread),
    ModelReplied(ModelResponse),
    ModelFailed(AgentError),
    FunctionReturned(FunctionExecution),
    FunctionFailed(AgentError),
    /// The store failed.
    Failed(AgentError),
}

/// What a `TurnInput` holds.
#[verifier::ext_equal]
pub enum TurnInputView {
    Saved(ThreadView),
    ModelReplied(ModelResponseView),
    ModelFailed(AgentErrorView),
    FunctionReturned(FunctionExecutionView),
    FunctionFailed(AgentErrorView),
    Failed(AgentErrorView),
}

impl View for TurnInput {
    type V = TurnInputView;

    open spec fn view(&self) -> TurnInputView {
        match *self {
            TurnInput::Saved(inner) => TurnInputView::Saved(inner@),
            TurnInput::ModelReplied(inner) => TurnInputView::ModelReplied(inner@),
            TurnInput::ModelFailed(inner) => TurnInputView::ModelFailed(inner@),
            TurnInput::FunctionReturned(inner) => TurnInputView::FunctionReturned(inner@),
            TurnInput::FunctionFailed(inner) => TurnInputView::FunctionFailed(inner@),
            TurnInput::Failed(inner) => TurnInputView::Failed(inner@),
        }
    }
}

impl Clone for TurnInput {
    fn clone(&self) -> (r: Self)
        ensures
            r@ == self@,
    {
        match self {
            TurnInput::Saved(inner) => TurnInput::Saved(inner.clone()),
            TurnInput::ModelReplied(inner) => TurnInput::ModelReplied(inner.clone()),
            TurnInput::ModelFailed(inner) => TurnInput::ModelFailed(inner.clone()),
            TurnInput::FunctionReturned(inner) => TurnInput::FunctionReturned(inner.clone()),
            TurnInput::FunctionFailed(inner) => TurnInput::FunctionFailed(inner.clone()),
            TurnInput::Failed(inner) => TurnInput::Failed(inner.clone()),
        }
    }
}

/// What is to be done next.
#[derive(Debug, PartialEq)]
pub enum TurnAction {
    /// Store the thread.
    Save(Thread),
    CallModel(ModelRequest),
    CallFunction { name: String, arguments: Value, context: FunctionContext },
    /// Nothing new: the last action still stands.
    Wait,
    /// The turn is over.
    Finish(TurnOutcome),
    /// The turn cannot go on.
    Fail(AgentError),
}

/// What a `TurnAction` holds.
#[verifier::ext_equal]
pub enum TurnActionView {
    Save(ThreadView),
    CallModel(ModelRequestView),
    CallFunction { name: Seq<char>, arguments: Json, context: FunctionContextView },
    Wait,
    Finish(TurnOutcomeView),
    Fail(AgentErrorView),
}

impl View for TurnAction {
    type V = TurnActionView;

    open spec fn view(&self) -> TurnActionView {
        match *self {
            TurnAction::Save(inner) => TurnActionView::Save(inner@),
            TurnAction::CallModel(inner) => TurnActionView::CallModel(inner@),
            TurnAction::CallFunction { name, arguments, context } => TurnActionView::CallFunction {
                name: name@,
                arguments: json::of(arguments),
                context: context@,
            },
            TurnAction::Wait => TurnActionView::Wait,
            TurnAction::Finish(inner) => TurnActionView::Finish(inner@),
            TurnAction::Fail(inner) => TurnActionView::Fail(inner@),
        }
    }
}

impl Clone for TurnAction {
    fn clone(&self) -> (r: Self)
        ensures
            r@ == self@,
    {
        match self {
            TurnAction::Save(inner) => TurnAction::Save(inner.clone()),
            TurnAction::CallModel(inner) => TurnAction::CallModel(inner.clone()),
            TurnAction::CallFunction { name, arguments, context } => TurnAction::CallFunction {
                name: name.clone(),
                arguments: copy_of(arguments),
                context: context.clone(),
            },
            TurnAction::Wait => TurnAction::Wait,
            TurnAction::Finish(inner) => TurnAction::Finish(inner.clone()),
            TurnAction::Fail(inner) => TurnAction::Fail(inner.clone()),
        }
    }
}

/// The settings of an agent.
#[derive(Debug, PartialEq)]
pub struct AgentConfig {
    pub max_model_iterations: usize,
    pub system_prompt: String,
}

/// What a `AgentConfig` holds.
#[verifier::ext_equal]
pub struct AgentConfigView {
    pub max_model_iterations: usize,
    pub system_prompt: Seq<char>,
}

impl View for AgentConfig {
    type V = AgentConfigView;

    open spec fn view(&self) -> AgentConfigView {
        AgentConfigView {
            max_model_iterations: self.max_model_iterations,
            system_prompt: self.system_prompt@,
        }
    }
}

impl Clone for AgentConfig {
    fn clone(&self) -> (r: Self)
        ensures
            r@ == self@,
    {
        AgentConfig {
            max_model_iterations: self.max_model_iterations,
            system_prompt: self.system_prompt.clone(),
        }
    }
}

/// What a turn is started with.
#[derive(Debug, PartialEq)]
pub struct TurnRequest {
    pub thread_id: String,
    pub user_text: String,
    pub config: AgentConfig,
    /// The functions that are offered to the model.
    pub functions: Vec<FunctionSpec>,
}

/// What a `TurnRequest` holds.
#[verifier::ext_equal]
pub struct TurnRequestView {
    pub thread_id: Seq<char>,
    pub user_text: Seq<char>,
    pub config: AgentConfigView,
    pub functions: Seq<FunctionSpecView>,
}

impl View for TurnRequest {
    type V = TurnRequestView;

    open spec fn view(&self) -> TurnRequestView {
        TurnRequestView {
            thread_id: self.thread_id@,
            user_text: self.user_text@,
            config: self.config@,
            functions: views::all(self.functions@),
        }
    }
}

impl Clone for TurnRequest {
    fn clone(&self) -> (r: Self)
        ensures
            r@ == self@,
    {
        let r = TurnRequest {
            thread_id: self.thread_id.clone(),
            user_text: self.user_text.clone(),
            config: self.config.clone(),
            functions: self.functions.clone(),
        };
        assert(views::all(r.functions@) =~= views::all(self.functions@));
        r
    }
}

/// A turn under way.
#[derive(Debug, PartialEq)]
pub struct TurnRun {
    pub config: AgentConfig,
    pub functions: Vec<FunctionSpec>,
    pub thread: Thread,
    pub turn_id: String,
    pub iteration: usize,
    pub phase: TurnPhase,
}

/// What a `TurnRun` holds.
#[verifier::ext_equal]
pub struct TurnRunView {
    pub config: AgentConfigView,
    pub functions: Seq<FunctionSpecView>,
    pub thread: ThreadView,
    pub turn_id: Seq<char>,
    pub iteration: usize,
    pub phase: TurnPhaseView,
}

impl View for TurnRun {
    type V = TurnRunView;

    open spec fn view(&self) -> TurnRunView {
        TurnRunView {
            config: self.config@,
            functions: views::all(self.functions@),
            thread: self.thread@,
            turn_id: self.turn_id@,
            iteration: self.iteration,
            phase: self.phase@,
        }
    }
}

impl Clone for TurnRun {
    fn clone(&self) -> (r: Self)
        ensures
            r@ == self@,
    {
        let r = TurnRun {
            config: self.config.clone(),
            functions: self.functions.clone(),
            thread: self.thread.clone(),
            turn_id: self.turn_id.clone(),
            iteration: self.iteration,
            phase: self.phase.clone(),
        };
        assert(views::all(r.functions@) =~= views::all(self.functions@));
        r
    }
}

/// What a step leads to.
#[derive(Debug)]
pub struct Step {
    pub run: TurnRun,
    pub action: TurnAction,
    /// Where the next identifiers come from.
    pub ids: IdSource,
}

/// What a `Step` holds.
#[verifier::ext_equal]
pub struct StepView {
    pub run: TurnRunView,
    pub action: TurnActionView,
    pub ids: IdSource,
}

impl View for Step {
    type V = StepView;

    open spec fn view(&self) -> StepView {
        StepView {
            run: self.run@,
            action: self.action@,
            ids: self.ids,
        }
    }
}

impl Default for AgentConfig {
    fn default() -> (r: Self)
        ensures
            r@ == (AgentConfigView {
                max_model_iterations: 8,
                system_prompt: "You are a lite Q&A agent. Use functions only when they are useful. Thread goal is explicit durable state. Turn items are factual append-only records. Ask the user when required information is missing."@,
            }),
    {
        AgentConfig {
            max_model_iterations: 8,
            system_prompt: "You are a lite Q&A agent. Use functions only when they are useful. Thread goal is explicit durable state. Turn items are factual append-only records. Ask the user when required information is missing.".to_string(),
        }
    }
}

// ---------------------------------------------------------------------------
// The transitions

/// The end of a step.
pub open spec fn proceed(
    run: TurnRunView,
    phase: TurnPhaseView,
    action: TurnActionView,
    ids: IdSource,
) -> StepView {
    StepView { run: TurnRunView { phase, ..run }, action, ids }
}

/// Ends the turn with an error.
pub open spec fn give_up(run: TurnRunView, error: AgentErrorView, ids: IdSource) -> StepView {
    proceed(run, TurnPhaseView::Done, TurnActionView::Fail(error), ids)
}

/// Ends the turn because the thread does not have it.
pub open spec fn lost(run: TurnRunView, ids: IdSource) -> StepView {
    give_up(run, AgentErrorView::TurnNotFound(run.turn_id), ids)
}

/// Stores the thread.
pub open spec fn save(
    run: TurnRunView,
    thread: ThreadView,
    phase: TurnPhaseView,
    ids: IdSource,
) -> StepView {
    proceed(TurnRunView { thread, ..run }, phase, TurnActionView::Save(thread), ids)
}

/// Records `entries`, and stores the thread.
pub open spec fn write(
    run: TurnRunView,
    entries: Seq<EntryView>,
    phase: TurnPhaseView,
    ids: IdSource,
) -> StepView {
    let counted = ids::after(ids, entries.len());
    match recording::with_entries(run.thread, run.turn_id, entries, ids) {
        Some(thread) => save(run, thread, phase, counted),
        None => lost(run, counted),
    }
}

/// Records `entries`, moves the turn to another state and stores the thread.
pub open spec fn close(
    run: TurnRunView,
    entries: Seq<EntryView>,
    status: TurnStatus,
    outcome: TurnOutcomeView,
    ids: IdSource,
) -> StepView {
    let counted = ids::after(ids, entries.len());
    match recording::with_ending(run.thread, run.turn_id, entries, status, ids) {
        Some(thread) => save(run, thread, TurnPhaseView::Ending { outcome }, counted),
        None => lost(run, counted),
    }
}

/// Records that the turn failed.
pub open spec fn fail(run: TurnRunView, error: Seq<char>, ids: IdSource) -> StepView {
    close(
        run,
        recording::failure(error),
        TurnStatus::Failed,
        TurnOutcomeView::Failed { error },
        ids,
    )
}

/// Asks the model, unless it was asked too often.
pub open spec fn iterate(run: TurnRunView, ids: IdSource) -> StepView {
    if run.iteration < run.config.max_model_iterations {
        proceed(
            run,
            TurnPhaseView::AwaitingModel,
            TurnActionView::CallModel(
                ModelRequestView {
                    messages: model::request_messages(
                        run.config.system_prompt,
                        projection::project(run.thread),
                    ),
                    functions: run.functions,
                },
            ),
            ids,
        )
    } else {
        fail(run, error::words(AgentErrorView::MaxIterations(run.config.max_model_iterations)), ids)
    }
}

/// The entry for a call of the model.
pub open spec fn call_entry(call: ModelFunctionCallView) -> EntryView {
    EntryView {
        source: TurnItemSource::Model,
        kind: TurnItemKindView::ModelFunctionCall {
            call_id: call.call_id,
            name: call.name,
            arguments: call.arguments,
        },
    }
}

/// Takes up a call, or goes back to the model when all are done.
pub open spec fn take_up(
    run: TurnRunView,
    calls: Seq<ModelFunctionCallView>,
    index: int,
    ids: IdSource,
) -> StepView {
    if 0 <= index < calls.len() {
        write(
            run,
            seq![call_entry(calls[index])],
            TurnPhaseView::StoringCall { calls, index: index as usize },
            ids,
        )
    } else {
        let iteration = if run.iteration < usize::MAX {
            (run.iteration + 1) as usize
        } else {
            usize::MAX
        };
        iterate(TurnRunView { iteration, ..run }, ids)
    }
}

/// The model has answered.
pub open spec fn replied(run: TurnRunView, response: ModelResponseView, ids: IdSource) -> StepView {
    match response {
        ModelResponseView::AssistantMessage { text } => close(
            run,
            seq![
                EntryView {
                    source: TurnItemSource::Model,
                    kind: TurnItemKindView::ModelMessage { text },
                },
            ],
            TurnStatus::Completed,
            TurnOutcomeView::AssistantMessage { text },
            ids,
        ),
        ModelResponseView::FunctionCalls { calls } => if calls.len() == 0 {
            fail(run, "model returned an empty function call list"@, ids)
        } else {
            take_up(run, calls, 0, ids)
        },
    }
}

/// Runs the function that is called.
pub open spec fn execute(
    run: TurnRunView,
    calls: Seq<ModelFunctionCallView>,
    index: usize,
    ids: IdSource,
) -> StepView {
    let call = calls[index as int];
    proceed(
        run,
        TurnPhaseView::Executing { calls, index },
        TurnActionView::CallFunction {
            name: call.name,
            arguments: call.arguments,
            context: FunctionContextView { projection: projection::project(run.thread) },
        },
        ids,
    )
}

/// The thread with a change that a function asked for.
pub open spec fn updated(thread: ThreadView, update: Option<ThreadUpdateView>) -> ThreadView {
    match update {
        Some(ThreadUpdateView::Goal(goal)) => ThreadView { goal: Some(goal), ..thread },
        None => thread,
    }
}

/// The items for a call that ran: its own, and its output.
pub open spec fn output_items(
    extra_items: Seq<TurnItemView>,
    call: ModelFunctionCallView,
    output: Json,
    ids: IdSource,
) -> Seq<TurnItemView> {
    extra_items.push(
        events::item_view(
            ids,
            TurnItemSource::Tool,
            TurnItemKindView::ToolOutput {
                call_id: call.call_id,
                name: call.name,
                result: ToolResultView::Success { output },
            },
        ),
    )
}

/// The call has run.
pub open spec fn executed(
    run: TurnRunView,
    calls: Seq<ModelFunctionCallView>,
    index: usize,
    execution: FunctionExecutionView,
    ids: IdSource,
) -> StepView {
    let call = calls[index as int];
    let counted = ids::after(ids, 1);
    match execution {
        FunctionExecutionView::Completed { output, thread_update, extra_items } => {
            let changed = updated(run.thread, thread_update);
            match recording::with_made_items(
                changed,
                run.turn_id,
                output_items(extra_items, call, output, ids),
                ids,
            ) {
                Some(thread) => save(
                    run,
                    thread,
                    TurnPhaseView::StoringResult { calls, index },
                    counted,
                ),
                None => lost(TurnRunView { thread: changed, ..run }, counted),
            }
        },
        FunctionExecutionView::WaitingForUser {
            request_id,
            prompt,
            output,
            thread_update,
            extra_items,
        } => {
            let changed = updated(run.thread, thread_update);
            match recording::with_made_items(
                changed,
                run.turn_id,
                output_items(extra_items, call, output, ids),
                ids,
            ) {
                Some(written) => match recording::with_turn_status(
                    written,
                    run.turn_id,
                    TurnStatus::WaitingForUser,
                    counted,
                ) {
                    Some(thread) => save(
                        run,
                        thread,
                        TurnPhaseView::Ending {
                            outcome: TurnOutcomeView::WaitingForUser { request_id, prompt },
                        },
                        counted,
                    ),
                    None => lost(TurnRunView { thread: written, ..run }, counted),
                },
                None => lost(TurnRunView { thread: changed, ..run }, counted),
            }
        },
    }
}

/// A step in which nothing happens.
pub open spec fn wait(run: TurnRunView, ids: IdSource) -> StepView {
    StepView { run, action: TurnActionView::Wait, ids }
}

/// The store has taken the thread.
pub open spec fn saved(run: TurnRunView, thread: ThreadView, ids: IdSource) -> StepView {
    let next_run = TurnRunView { thread, phase: TurnPhaseView::Done, ..run };
    match run.phase {
        TurnPhaseView::Starting => iterate(next_run, ids),
        TurnPhaseView::StoringCall { calls, index } => if index < calls.len() {
            execute(next_run, calls, index, ids)
        } else {
            wait(run, ids)
        },
        TurnPhaseView::StoringResult { calls, index } => if index < calls.len() {
            take_up(next_run, calls, index + 1, ids)
        } else {
            wait(run, ids)
        },
        TurnPhaseView::Ending { outcome } => proceed(
            next_run,
            TurnPhaseView::Done,
            TurnActionView::Finish(outcome),
            ids,
        ),
        _ => wait(run, ids),
    }
}

/// The step that a turn takes on an input. An input that the turn does not wait
/// for changes nothing.
pub open spec fn next(run: TurnRunView, input: TurnInputView, ids: IdSource) -> StepView {
    let taken = TurnRunView { phase: TurnPhaseView::Done, ..run };
    match input {
        TurnInputView::Saved(thread) => saved(run, thread, ids),
        TurnInputView::ModelReplied(response) => if run.phase is AwaitingModel {
            replied(taken, response, ids)
        } else {
            wait(run, ids)
        },
        TurnInputView::ModelFailed(e) => if run.phase is AwaitingModel {
            fail(taken, error::words(e), ids)
        } else {
            wait(run, ids)
        },
        TurnInputView::FunctionReturned(execution) => match run.phase {
            TurnPhaseView::Executing { calls, index } => if index < calls.len() {
                executed(taken, calls, index, execution, ids)
            } else {
                wait(run, ids)
            },
            _ => wait(run, ids),
        },
        TurnInputView::FunctionFailed(e) => match run.phase {
            TurnPhaseView::Executing { calls, index } => if index < calls.len() {
                write(
                    taken,
                    seq![
                        transitions::output_entry(
                            calls[index as int],
                            ToolResultView::Error { error: error::words(e) },
                        ),
                    ],
                    TurnPhaseView::StoringResult { calls, index },
                    ids,
                )
            } else {
                wait(run, ids)
            },
            _ => wait(run, ids),
        },
        TurnInputView::Failed(e) => if run.phase is Starting || run.phase is StoringCall
            || run.phase is StoringResult || run.phase is Ending {
            give_up(taken, e, ids)
        } else {
            wait(run, ids)
        },
    }
}

/// The question that a new prompt answers.
pub open spec fn answered_request(thread: ThreadView) -> Option<Seq<char>> {
    match projection::project(thread).pending_user_input_request {
        Some(pending) => Some(pending.request_id),
        None => None,
    }
}

/// The first step of a turn. What the user says answers the question that the
/// thread waits for, if there is one.
pub open spec fn begin(
    request: TurnRequestView,
    loaded: Result<ThreadView, AgentErrorView>,
    ids: IdSource,
) -> Result<StepView, AgentErrorView> {
    match transitions::opened(request.thread_id, loaded, ids) {
        Err(e) => Err(e),
        Ok(thread) => {
            let turn = transitions::prompted_turn(
                request.user_text,
                answered_request(thread),
                ids,
            );
            let run = TurnRunView {
                config: request.config,
                functions: request.functions,
                thread,
                turn_id: turn.id,
                iteration: 0,
                phase: TurnPhaseView::Done,
            };
            Ok(
                save(
                    run,
                    ThreadView { turns: thread.turns.push(turn), ..thread },
                    TurnPhaseView::Starting,
                    ids::after(ids, 2),
                ),
            )
        },
    }
}

// ---------------------------------------------------------------------------

impl TurnRun {
    fn proceed(self, phase: TurnPhase, action: TurnAction, ids: IdSource) -> (r: Step)
        ensures
            r@ == proceed(self@, phase@, action@, ids),
    {
        let mut run = self;
        run.phase = phase;
        Step { run, action, ids }
    }

    fn give_up(self, error: AgentError, ids: IdSource) -> (r: Step)
        ensures
            r@ == give_up(self@, error@, ids),
    {
        self.proceed(TurnPhase::Done, TurnAction::Fail(error), ids)
    }

    /// Stores the thread as it now stands.
    fn save(self, phase: TurnPhase, ids: IdSource) -> (r: Step)
        ensures
            r@ == save(self@, self@.thread, phase@, ids),
    {
        let thread = self.thread.clone();
        self.proceed(phase, TurnAction::Save(thread), ids)
    }

    fn write(self, entries: Vec<Entry>, phase: TurnPhase, ids: IdSource) -> (r: Step)
        ensures
            r@ == write(self@, views::all(entries@), phase@, ids),
    {
        let mut run = self;
        let mut ids = ids;
        match push_turn_items(&mut run.thread, run.turn_id.as_str(), entries, &mut ids) {
            Ok(()) => run.save(phase, ids),
            Err(error) => run.give_up(error, ids),
        }
    }

    fn close(
        self,
        entries: Vec<Entry>,
        status: TurnStatus,
        outcome: TurnOutcome,
        ids: IdSource,
    ) -> (r: Step)
        ensures
            r@ == close(self@, views::all(entries@), status, outcome@, ids),
    {
        let mut run = self;
        let mut ids = ids;
        match end_turn(&mut run.thread, run.turn_id.as_str(), entries, status, &mut ids) {
            Ok(()) => run.save(TurnPhase::Ending { outcome }, ids),
            Err(error) => run.give_up(error, ids),
        }
    }

    fn fail(self, error: String, ids: IdSource) -> (r: Step)
        ensures
            r@ == fail(self@, error@, ids),
    {
        let mut run = self;
        let mut ids = ids;
        match fail_turn(&mut run.thread, run.turn_id.as_str(), error.clone(), &mut ids) {
            Ok(()) => run.save(TurnPhase::Ending { outcome: TurnOutcome::Failed { error } }, ids),
            Err(lost) => run.give_up(lost, ids),
        }
    }

    fn iterate(self, ids: IdSource) -> (r: Step)
        ensures
            r@ == iterate(self@, ids),
    {
        if self.iteration < self.config.max_model_iterations {
            let functions = self.functions.clone();
            assert(views::all(functions@) =~= views::all(self.functions@));
            let request = model_request(
                self.config.system_prompt.as_str(),
                ThreadProjection::from_thread(&self.thread),
                functions,
            );
            self.proceed(TurnPhase::AwaitingModel, TurnAction::CallModel(request), ids)
        } else {
            let error = AgentError::MaxIterations(self.config.max_model_iterations).message();
            self.fail(error, ids)
        }
    }

    fn take_up(self, calls: Vec<ModelFunctionCall>, index: usize, ids: IdSource) -> (r: Step)
        ensures
            r@ == take_up(self@, views::all(calls@), index as int, ids),
    {
        if index < calls.len() {
            let mut entries: Vec<Entry> = Vec::new();
            entries.push(
                Entry {
                    source: TurnItemSource::Model,
                    kind: TurnItemKind::ModelFunctionCall {
                        call_id: calls[index].call_id.clone(),
                        name: calls[index].name.clone(),
                        arguments: copy_of(&calls[index].arguments),
                    },
                },
            );
            assert(views::all(entries@) =~= seq![call_entry(views::all(calls@)[index as int])]);
            self.write(entries, TurnPhase::StoringCall { calls, index }, ids)
        } else {
            let mut run = self;
            run.iteration = run.iteration.saturating_add(1);
            run.iterate(ids)
        }
    }

    fn replied(self, response: ModelResponse, ids: IdSource) -> (r: Step)
        ensures
            r@ == replied(self@, response@, ids),
    {
        match response {
            ModelResponse::AssistantMessage { text } => {
                let mut entries: Vec<Entry> = Vec::new();
                entries.push(
                    Entry {
                        source: TurnItemSource::Model,
                        kind: TurnItemKind::ModelMessage { text: text.clone() },
                    },
                );
                assert(views::all(entries@) =~= seq![
                    EntryView {
                        source: TurnItemSource::Model,
                        kind: TurnItemKindView::ModelMessage { text: text@ },
                    },
                ]);
                self.close(
                    entries,
                    TurnStatus::Completed,
                    TurnOutcome::AssistantMessage { text },
                    ids,
                )
            },
            ModelResponse::FunctionCalls { calls } => {
                if calls.len() == 0 {
                    self.fail("model returned an empty function call list".to_string(), ids)
                } else {
                    self.take_up(calls, 0, ids)
                }
            },
        }
    }

    fn execute(self, calls: Vec<ModelFunctionCall>, index: usize, ids: IdSource) -> (r: Step)
        requires
            index < calls@.len(),
        ensures
            r@ == execute(self@, views::all(calls@), index, ids),
    {
        let action = TurnAction::CallFunction {
            name: calls[index].name.clone(),
            arguments: copy_of(&calls[index].arguments),
            context: FunctionContext { projection: ThreadProjection::from_thread(&self.thread) },
        };
        self.proceed(TurnPhase::Executing { calls, index }, action, ids)
    }

    /// Changes the thread as a function asked for.
    fn update(self, update: Option<ThreadUpdate>) -> (r: Self)
        ensures
            r@ == (TurnRunView { thread: updated(self@.thread, views::opt(update)), ..self@ }),
    {
        let mut run = self;
        if let Some(ThreadUpdate::Goal(goal)) = update {
            run.thread.goal = Some(goal);
        }
        run
    }

    fn executed(
        self,
        calls: Vec<ModelFunctionCall>,
        index: usize,
        execution: FunctionExecution,
        ids: IdSource,
    ) -> (r: Step)
        requires
            index < calls@.len(),
        ensures
            r@ == executed(self@, views::all(calls@), index, execution@, ids),
    {
        broadcast use crate::views::group_views;

        let mut ids = ids;
        match execution {
            FunctionExecution::Completed { output, thread_update, extra_items } => {
                let mut run = self.update(thread_update);
                let mut items = extra_items;
                items.push(output_item(&calls[index], output, &mut ids));
                match append_items(&mut run.thread, run.turn_id.as_str(), items, &ids) {
                    Ok(()) => run.save(TurnPhase::StoringResult { calls, index }, ids),
                    Err(error) => run.give_up(error, ids),
                }
            },
            FunctionExecution::WaitingForUser {
                request_id,
                prompt,
                output,
                thread_update,
                extra_items,
            } => {
                let mut run = self.update(thread_update);
                let mut items = extra_items;
                items.push(output_item(&calls[index], output, &mut ids));
                if let Err(error) = append_items(
                    &mut run.thread,
                    run.turn_id.as_str(),
                    items,
                    &ids,
                ) {
                    return run.give_up(error, ids);
                }
                match set_turn_status(
                    &mut run.thread,
                    run.turn_id.as_str(),
                    TurnStatus::WaitingForUser,
                    &ids,
                ) {
                    Ok(()) => run.save(
                        TurnPhase::Ending {
                            outcome: TurnOutcome::WaitingForUser { request_id, prompt },
                        },
                        ids,
                    ),
                    Err(error) => run.give_up(error, ids),
                }
            },
        }
    }

    /// The turn without its phase, and the phase.
    fn take_phase(self) -> (r: (Self, TurnPhase))
        ensures
            r.0@ == (TurnRunView { phase: TurnPhaseView::Done, ..self@ }),
            r.1@ == self@.phase,
    {
        let mut run = self;
        let mut phase = TurnPhase::Done;
        core::mem::swap(&mut phase, &mut run.phase);
        (run, phase)
    }

    /// A step in which nothing happens.
    fn wait(self, phase: TurnPhase, ids: IdSource) -> (r: Step)
        ensures
            r@ == wait(TurnRunView { phase: phase@, ..self@ }, ids),
    {
        self.proceed(phase, TurnAction::Wait, ids)
    }

    fn saved(self, thread: Thread, ids: IdSource) -> (r: Step)
        ensures
            r@ == saved(self@, thread@, ids),
    {
        let (taken, phase) = self.take_phase();
        match phase {
            TurnPhase::Starting => {
                let mut run = taken;
                run.thread = thread;
                run.iterate(ids)
            },
            TurnPhase::StoringCall { calls, index } => {
                if index < calls.len() {
                    let mut run = taken;
                    run.thread = thread;
                    run.execute(calls, index, ids)
                } else {
                    taken.wait(TurnPhase::StoringCall { calls, index }, ids)
                }
            },
            TurnPhase::StoringResult { calls, index } => {
                if index < calls.len() {
                    let mut run = taken;
                    run.thread = thread;
                    run.take_up(calls, index + 1, ids)
                } else {
                    taken.wait(TurnPhase::StoringResult { calls, index }, ids)
                }
            },
            TurnPhase::Ending { outcome } => {
                let mut run = taken;
                run.thread = thread;
                run.proceed(TurnPhase::Done, TurnAction::Finish(outcome), ids)
            },
            phase => taken.wait(phase, ids),
        }
    }

    /// The step that the turn takes on an input. An input that the turn does not
    /// wait for changes nothing.
    pub fn step(self, input: TurnInput, ids: IdSource) -> (r: Step)
        ensures
            r@ == next(self@, input@, ids),
    {
        if let TurnInput::Saved(thread) = input {
            return self.saved(thread, ids);
        }
        let (run, phase) = self.take_phase();
        match (phase, input) {
            (TurnPhase::AwaitingModel, TurnInput::ModelReplied(response)) => run.replied(
                response,
                ids,
            ),
            (TurnPhase::AwaitingModel, TurnInput::ModelFailed(error)) => run.fail(
                error.message(),
                ids,
            ),
            (TurnPhase::Executing { calls, index }, TurnInput::FunctionReturned(execution)) => {
                if index < calls.len() {
                    run.executed(calls, index, execution, ids)
                } else {
                    run.wait(TurnPhase::Executing { calls, index }, ids)
                }
            },
            (TurnPhase::Executing { calls, index }, TurnInput::FunctionFailed(error)) => {
                if index < calls.len() {
                    let mut entries: Vec<Entry> = Vec::new();
                    entries.push(
                        output_entry(&calls[index], ToolResult::Error { error: error.message() }),
                    );
                    assert(views::all(entries@) =~= seq![
                        transitions::output_entry(
                            views::all(calls@)[index as int],
                            ToolResultView::Error { error: error::words(error@) },
                        ),
                    ]);
                    run.write(entries, TurnPhase::StoringResult { calls, index }, ids)
                } else {
                    run.wait(TurnPhase::Executing { calls, index }, ids)
                }
            },
            (TurnPhase::Starting, TurnInput::Failed(error)) => run.give_up(error, ids),
            (TurnPhase::StoringCall { .. }, TurnInput::Failed(error)) => run.give_up(error, ids),
            (TurnPhase::StoringResult { .. }, TurnInput::Failed(error)) => run.give_up(error, ids),
            (TurnPhase::Ending { .. }, TurnInput::Failed(error)) => run.give_up(error, ids),
            (phase, _) => run.wait(phase, ids),
        }
    }
}

/// The item for the output of a call.
fn output_item(call: &ModelFunctionCall, output: Value, ids: &mut IdSource) -> (r: TurnItem)
    ensures
        r@ == events::item_view(
            *old(ids),
            TurnItemSource::Tool,
            TurnItemKindView::ToolOutput {
                call_id: call@.call_id,
                name: call@.name,
                result: ToolResultView::Success { output: json::of(output) },
            },
        ),
        *final(ids) == ids::after(*old(ids), 1),
{
    TurnItem::new(
        TurnItemSource::Tool,
        TurnItemKind::ToolOutput {
            call_id: call.call_id.clone(),
            name: call.name.clone(),
            result: ToolResult::Success { output },
        },
        ids,
    )
}

/// Starts a turn on a thread that was loaded.
pub fn begin_turn(
    request: TurnRequest,
    loaded: Result<Thread, AgentError>,
    ids: IdSource,
) -> (r: Result<Step, AgentError>)
    ensures
        views::res(r) == begin(request@, views::res(loaded), ids),
{
    broadcast use crate::views::group_views;

    let mut ids = ids;
    let mut thread = match opened(request.thread_id.as_str(), loaded, &ids) {
        Ok(thread) => thread,
        Err(error) => {
            return Err(error);
        },
    };
    let response_to = match ThreadProjection::from_thread(&thread).pending_user_input_request {
        Some(pending) => Some(pending.request_id),
        None => None,
    };
    let turn = prompted_turn(request.user_text, response_to, &mut ids);
    let turn_id = turn.id.clone();
    thread.turns.push(turn);
    let run = TurnRun {
        config: request.config,
        functions: request.functions,
        thread,
        turn_id,
        iteration: 0,
        phase: TurnPhase::Done,
    };
    Ok(run.save(TurnPhase::Starting, ids))
}

// ---------------------------------------------------------------------------
// Laws

/// Whether the thread has the turn.
pub open spec fn has_turn(run: TurnRunView) -> bool {
    events::turn_index(run.thread.turns, run.turn_id) is Some
}

/// The turn itself.
pub open spec fn turn_of(run: TurnRunView) -> TurnView {
    run.thread.turns[events::turn_index(run.thread.turns, run.turn_id)->0]
}

/// The calls of the turn that have no answer yet.
pub open spec fn open_calls(run: TurnRunView) -> Multiset<Seq<char>> {
    answers::unanswered(Multiset::empty(), turn_of(run).items)
}

/// The state of a turn that ended in a way.
pub open spec fn status_for(outcome: TurnOutcomeView) -> TurnStatus {
    match outcome {
        TurnOutcomeView::AssistantMessage { text } => TurnStatus::Completed,
        TurnOutcomeView::WaitingForUser { request_id, prompt } => TurnStatus::WaitingForUser,
        TurnOutcomeView::Failed { error } => TurnStatus::Failed,
    }
}

/// What holds of a turn in every phase: it runs until it ends, only the call in
/// hand is without an answer, and the model is not asked too often.
pub open spec fn good(run: TurnRunView) -> bool {
    let none = Multiset::<Seq<char>>::empty();
    let running = has_turn(run) && turn_of(run).status == TurnStatus::Running;
    let asking = run.iteration < run.config.max_model_iterations;
    match run.phase {
        TurnPhaseView::Starting => running && open_calls(run) == none,
        TurnPhaseView::AwaitingModel => running && asking && open_calls(run) == none,
        TurnPhaseView::StoringCall { calls, index } => running && asking && index < calls.len()
            <= usize::MAX && open_calls(run) == none.insert(calls[index as int].call_id),
        TurnPhaseView::Executing { calls, index } => running && asking && index < calls.len()
            <= usize::MAX && open_calls(run) == none.insert(calls[index as int].call_id),
        TurnPhaseView::StoringResult { calls, index } => running && asking && index < calls.len()
            <= usize::MAX && open_calls(run) == none,
        TurnPhaseView::Ending { outcome } => has_turn(run) && turn_of(run).status == status_for(
            outcome,
        ) && open_calls(run) == none,
        TurnPhaseView::Done => true,
    }
}

/// Whether an input is what the turn can count on: the store hands back the turns
/// that it was sent, answers fit into memory, and the items that a function adds
/// neither ask for calls nor answer any.
pub open spec fn sound(run: TurnRunView, input: TurnInputView) -> bool {
    match input {
        TurnInputView::Saved(thread) => thread.turns == run.thread.turns,
        TurnInputView::ModelReplied(ModelResponseView::FunctionCalls { calls }) => calls.len()
            <= usize::MAX,
        TurnInputView::FunctionReturned(execution) => neutral(
            match execution {
                FunctionExecutionView::Completed { output, thread_update, extra_items } => {
                    extra_items
                },
                FunctionExecutionView::WaitingForUser {
                    request_id,
                    prompt,
                    output,
                    thread_update,
                    extra_items,
                } => extra_items,
            },
        ),
        _ => true,
    }
}

/// Whether items neither ask for calls nor answer any.
pub open spec fn neutral(items: Seq<TurnItemView>) -> bool {
    forall|i: int|
        0 <= i < items.len() ==> {
            let kind = (#[trigger] items[i]).kind;
            !(kind is ModelResponse) && !(kind is ModelFunctionCall) && !(kind is ToolOutput)
        }
}

proof fn lemma_neutral(
    open: Multiset<Seq<char>>,
    before: Seq<TurnItemView>,
    items: Seq<TurnItemView>,
)
    requires
        neutral(items),
    ensures
        answers::unanswered(open, before + items) == answers::unanswered(open, before),
    decreases items.len(),
{
    if items.len() == 0 {
        assert(before + items =~= before);
    } else {
        lemma_neutral(open, before, items.drop_last());
        assert((before + items).drop_last() =~= before + items.drop_last());
        assert((before + items).last() == items[items.len() - 1]);
    }
}

proof fn lemma_write(
    run: TurnRunView,
    entry: EntryView,
    phase: TurnPhaseView,
    ids: IdSource,
)
    requires
        has_turn(run),
    ensures
        ({
            let step = write(run, seq![entry], phase, ids);
            &&& step.action is Save
            &&& step.run == (TurnRunView { thread: step.run.thread, phase, ..run })
            &&& has_turn(step.run)
            &&& turn_of(step.run).status == turn_of(run).status
            &&& open_calls(step.run) == answers::after_kind(open_calls(run), entry.kind)
        }),
{
    let turns = run.thread.turns;
    let i = events::turn_index(turns, run.turn_id)->0;
    let turn = recording::turn_with(turns[i], seq![entry], ids);
    events::lemma_turn_index(turns, run.turn_id);
    recording::lemma_replace_keeps_ids(turns, i, turn, run.turn_id);
    answers::lemma_recorded(Multiset::empty(), turns[i].items, seq![entry], ids);
    answers::lemma_one_entry(open_calls(run), entry);
}

proof fn lemma_close(
    run: TurnRunView,
    entry: EntryView,
    status: TurnStatus,
    outcome: TurnOutcomeView,
    ids: IdSource,
)
    requires
        has_turn(run),
    ensures
        ({
            let step = close(run, seq![entry], status, outcome, ids);
            &&& step.action is Save
            &&& step.run == (TurnRunView {
                thread: step.run.thread,
                phase: TurnPhaseView::Ending { outcome },
                ..run
            })
            &&& has_turn(step.run)
            &&& turn_of(step.run).status == status
            &&& open_calls(step.run) == answers::after_kind(open_calls(run), entry.kind)
        }),
{
    let turns = run.thread.turns;
    let i = events::turn_index(turns, run.turn_id)->0;
    let turn = recording::turn_with(turns[i], seq![entry], ids);
    let ended = events::with_status(turn, status, ids);
    events::lemma_turn_index(turns, run.turn_id);
    recording::lemma_ending_found(run.thread, run.turn_id, seq![entry], status, ids);
    recording::lemma_replace_keeps_ids(turns, i, ended, run.turn_id);
    answers::lemma_recorded(Multiset::empty(), turns[i].items, seq![entry], ids);
    answers::lemma_one_entry(open_calls(run), entry);
}

proof fn lemma_fail(run: TurnRunView, error: Seq<char>, ids: IdSource)
    requires
        has_turn(run),
        open_calls(run) == Multiset::<Seq<char>>::empty(),
    ensures
        good(fail(run, error, ids).run),
{
    let entry = recording::failure(error)[0];
    assert(recording::failure(error) =~= seq![entry]);
    lemma_close(run, entry, TurnStatus::Failed, TurnOutcomeView::Failed { error }, ids);
}

proof fn lemma_iterate(run: TurnRunView, ids: IdSource)
    requires
        has_turn(run),
        turn_of(run).status == TurnStatus::Running,
        open_calls(run) == Multiset::<Seq<char>>::empty(),
    ensures
        good(iterate(run, ids).run),
{
    lemma_fail(
        run,
        error::words(AgentErrorView::MaxIterations(run.config.max_model_iterations)),
        ids,
    );
}

proof fn lemma_take_up(
    run: TurnRunView,
    calls: Seq<ModelFunctionCallView>,
    index: int,
    ids: IdSource,
)
    requires
        has_turn(run),
        turn_of(run).status == TurnStatus::Running,
        run.iteration < run.config.max_model_iterations,
        open_calls(run) == Multiset::<Seq<char>>::empty(),
        0 <= index,
        calls.len() <= usize::MAX,
    ensures
        good(take_up(run, calls, index, ids).run),
{
    if index < calls.len() {
        lemma_write(
            run,
            call_entry(calls[index]),
            TurnPhaseView::StoringCall { calls, index: index as usize },
            ids,
        );
    } else {
        let iteration = (run.iteration + 1) as usize;
        lemma_iterate(TurnRunView { iteration, ..run }, ids);
    }
}

proof fn lemma_executed(
    run: TurnRunView,
    calls: Seq<ModelFunctionCallView>,
    index: usize,
    execution: FunctionExecutionView,
    extra_items: Seq<TurnItemView>,
    output: Json,
    update: Option<ThreadUpdateView>,
    ids: IdSource,
)
    requires
        has_turn(run),
        turn_of(run).status == TurnStatus::Running,
        run.iteration < run.config.max_model_iterations,
        index < calls.len() <= usize::MAX,
        open_calls(run) == Multiset::<Seq<char>>::empty().insert(calls[index as int].call_id),
        neutral(extra_items),
        execution == (FunctionExecutionView::Completed {
            output,
            thread_update: update,
            extra_items,
        }) || (execution matches FunctionExecutionView::WaitingForUser {
            request_id,
            prompt,
            output: o,
            thread_update: u,
            extra_items: x,
        } && o == output && u == update && x == extra_items),
    ensures
        good(executed(run, calls, index, execution, ids).run),
{
    let none = Multiset::<Seq<char>>::empty();
    let call = calls[index as int];
    let changed = updated(run.thread, update);
    let items = output_items(extra_items, call, output, ids);
    let turns = run.thread.turns;
    let i = events::turn_index(turns, run.turn_id)->0;
    let turn = recording::turn_with_items(turns[i], items, ids);
    events::lemma_turn_index(turns, run.turn_id);
    recording::lemma_replace_keeps_ids(turns, i, turn, run.turn_id);
    lemma_neutral(none, turns[i].items, extra_items);
    assert((turns[i].items + items).drop_last() =~= turns[i].items + extra_items);
    assert(none.insert(call.call_id).remove(call.call_id) =~= none);
    let written = turns.update(i, turn);
    let ended = events::with_status(turn, TurnStatus::WaitingForUser, ids::after(ids, 1));
    recording::lemma_replace_keeps_ids(written, i, ended, run.turn_id);
}

/// A turn keeps its invariant in every step.
pub proof fn law_turn_invariant(run: TurnRunView, input: TurnInputView, ids: IdSource)
    requires
        good(run),
        sound(run, input),
    ensures
        good(next(run, input, ids).run),
{
    let taken = TurnRunView { phase: TurnPhaseView::Done, ..run };
    let none = Multiset::<Seq<char>>::empty();
    match input {
        TurnInputView::Saved(thread) => {
            let next_run = TurnRunView { thread, phase: TurnPhaseView::Done, ..run };
            match run.phase {
                TurnPhaseView::Starting => {
                    lemma_iterate(next_run, ids);
                },
                TurnPhaseView::StoringResult { calls, index } => {
                    lemma_take_up(next_run, calls, index + 1, ids);
                },
                _ => {},
            }
        },
        TurnInputView::ModelReplied(response) => {
            if run.phase is AwaitingModel {
                match response {
                    ModelResponseView::AssistantMessage { text } => {
                        lemma_close(
                            taken,
                            EntryView {
                                source: TurnItemSource::Model,
                                kind: TurnItemKindView::ModelMessage { text },
                            },
                            TurnStatus::Completed,
                            TurnOutcomeView::AssistantMessage { text },
                            ids,
                        );
                    },
                    ModelResponseView::FunctionCalls { calls } => {
                        lemma_fail(taken, "model returned an empty function call list"@, ids);
                        lemma_take_up(taken, calls, 0, ids);
                    },
                }
            }
        },
        TurnInputView::ModelFailed(e) => {
            if run.phase is AwaitingModel {
                lemma_fail(taken, error::words(e), ids);
            }
        },
        TurnInputView::FunctionReturned(execution) => {
            if let TurnPhaseView::Executing { calls, index } = run.phase {
                match execution {
                    FunctionExecutionView::Completed { output, thread_update, extra_items } => {
                        lemma_executed(
                            taken,
                            calls,
                            index,
                            execution,
                            extra_items,
                            output,
                            thread_update,
                            ids,
                        );
                    },
                    FunctionExecutionView::WaitingForUser {
                        request_id,
                        prompt,
                        output,
                        thread_update,
                        extra_items,
                    } => {
                        lemma_executed(
                            taken,
                            calls,
                            index,
                            execution,
                            extra_items,
                            output,
                            thread_update,
                            ids,
                        );
                    },
                }
            }
        },
        TurnInputView::FunctionFailed(e) => {
            if let TurnPhaseView::Executing { calls, index } = run.phase {
                let id = calls[index as int].call_id;
                lemma_write(
                    taken,
                    transitions::output_entry(
                        calls[index as int],
                        ToolResultView::Error { error: error::words(e) },
                    ),
                    TurnPhaseView::StoringResult { calls, index },
                    ids,
                );
                assert(none.insert(id).remove(id) =~= none);
            }
        },
        _ => {},
    }
}

/// A turn starts with its invariant. (The new turn's identifier must not be
/// taken.)
pub proof fn law_turn_begins_well(
    request: TurnRequestView,
    loaded: Result<ThreadView, AgentErrorView>,
    ids: IdSource,
)
    requires
        begin(request, loaded, ids) is Ok,
        events::turn_index(
            transitions::opened(request.thread_id, loaded, ids)->Ok_0.turns,
            events::new_turn(ids).id,
        ) is None,
    ensures
        good(begin(request, loaded, ids)->Ok_0.run),
{
    let thread = transitions::opened(request.thread_id, loaded, ids)->Ok_0;
    let turn = transitions::prompted_turn(request.user_text, answered_request(thread), ids);
    let turns = thread.turns.push(turn);
    events::lemma_turn_index(thread.turns, turn.id);
    events::lemma_turn_index_is(turns, turn.id, turns.len() - 1);
    assert(turn.items.drop_last() =~= Seq::<TurnItemView>::empty());
    assert(answers::unanswered(Multiset::empty(), turn.items.drop_last()) == Multiset::<
        Seq<char>,
    >::empty());
}

/// Whenever the model is asked, every call that it made in this turn has an
/// answer, and it is asked no more often than the settings allow.
pub proof fn law_model_sees_answers(run: TurnRunView, input: TurnInputView, ids: IdSource)
    requires
        good(run),
        sound(run, input),
        next(run, input, ids).action is CallModel,
    ensures
        ({
            let after = next(run, input, ids).run;
            &&& open_calls(after) == Multiset::<Seq<char>>::empty()
            &&& after.iteration < after.config.max_model_iterations
        }),
{
    law_turn_invariant(run, input, ids);
}

/// A turn that is over was stored in the state that its outcome names.
pub proof fn law_stored_ending(run: TurnRunView, input: TurnInputView, ids: IdSource)
    requires
        good(run),
        next(run, input, ids).action is Finish,
    ensures
        run.phase is Ending,
        next(run, input, ids).action == TurnActionView::Finish(run.phase->outcome),
        turn_of(run).status == status_for(run.phase->outcome),
{
}

} // verus!
