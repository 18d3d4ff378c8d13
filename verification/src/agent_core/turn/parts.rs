//! The parts of a turn: what it knows, waits for, hears and asks for.
use crate::agent_core::agent_loop::{FunctionCallHookContext, FunctionCallHookContextView};
use crate::error::{AgentError, AgentErrorView};
use crate::ids::IdSource;
use crate::json::{self, copy_of, Json};
use crate::kernel::events::{Suspension, SuspensionView, Thread, ThreadView, TokenUsage};
use crate::kernel::model::{
    FunctionSpec, FunctionSpecView, ModelFunctionCall, ModelFunctionCallView, ModelRequest,
    ModelRequestView, ModelResponse, ModelResponseView, ModelStreamEvent, ModelStreamEventView,
};
use crate::kernel::projection::{
    ChatMessage, ChatMessageView, ThreadProjection, ThreadProjectionView,
};
use crate::runtime::agent_loop::{
    FunctionCallHookResult, FunctionCallHookResultView, TurnOutcome, TurnOutcomeView,
    TurnStreamEvent, TurnStreamEventView,
};
use crate::runtime::functions::{
    FunctionContext, FunctionContextView, FunctionExecution, FunctionExecutionView,
};
use crate::views;
use serde_json::Value;
use vstd::prelude::*;

verus! {

/// What a turn is started with.
#[derive(Debug, PartialEq)]
pub struct TurnRequest {
    pub thread_id: String,
    pub user_text: String,
    /// What the host says about this turn.
    pub runtime_context: Option<String>,
    /// The functions that are offered to the model.
    pub functions: Vec<FunctionSpec>,
    pub max_model_iterations: usize,
    /// How many hooks watch function calls.
    pub hook_count: usize,
}

/// What a `TurnRequest` holds.
#[verifier::ext_equal]
pub struct TurnRequestView {
    pub thread_id: Seq<char>,
    pub user_text: Seq<char>,
    pub runtime_context: Option<Seq<char>>,
    pub functions: Seq<FunctionSpecView>,
    pub max_model_iterations: usize,
    pub hook_count: usize,
}

impl View for TurnRequest {
    type V = TurnRequestView;

    open spec fn view(&self) -> TurnRequestView {
        TurnRequestView {
            thread_id: self.thread_id@,
            user_text: self.user_text@,
            runtime_context: views::opt(self.runtime_context),
            functions: views::all(self.functions@),
            max_model_iterations: self.max_model_iterations,
            hook_count: self.hook_count,
        }
    }
}

impl Clone for TurnRequest {
    fn clone(&self) -> (r: Self)
        ensures
            r@ == self@,
    {
        let r = TurnRequest {
            thread_id: self.thread_id.clone(),
            user_text: self.user_text.clone(),
            runtime_context: self.runtime_context.clone(),
            functions: self.functions.clone(),
            max_model_iterations: self.max_model_iterations,
            hook_count: self.hook_count,
        };
        assert(views::opt(r.runtime_context) =~= views::opt(self.runtime_context));
        assert(views::all(r.functions@) =~= views::all(self.functions@));
        r
    }
}

/// How a function call came out.
#[derive(Debug, PartialEq)]
pub enum CallResult {
    Completed { output: Value },
    Suspended { suspension: Suspension, output: Value },
    Failed { error: String },
}

/// What a `CallResult` holds.
#[verifier::ext_equal]
pub enum CallResultView {
    Completed { output: Json },
    Suspended { suspension: SuspensionView, output: Json },
    Failed { error: Seq<char> },
}

impl View for CallResult {
    type V = CallResultView;

    open spec fn view(&self) -> CallResultView {
        match *self {
            CallResult::Completed { output } => CallResultView::Completed {
                output: json::of(output),
            },
            CallResult::Suspended { suspension, output } => CallResultView::Suspended {
                suspension: suspension@,
                output: json::of(output),
            },
            CallResult::Failed { error } => CallResultView::Failed { error: error@ },
        }
    }
}

impl Clone for CallResult {
    fn clone(&self) -> (r: Self)
        ensures
            r@ == self@,
    {
        match self {
            CallResult::Completed { output } => CallResult::Completed { output: copy_of(output) },
            CallResult::Suspended { suspension, output } => CallResult::Suspended {
                suspension: suspension.clone(),
                output: copy_of(output),
            },
            CallResult::Failed { error } => CallResult::Failed { error: error.clone() },
        }
    }
}

/// What a turn waits for.
#[derive(Debug, PartialEq)]
pub enum TurnPhase {
    /// The thread with the new turn is being stored.
    Starting,
    /// The messages for the model are being chosen.
    BuildingContext,
    /// The model is answering.
    AwaitingModel,
    /// The text of an answer is being stored.
    StoringText { text: String, calls: Vec<ModelFunctionCall> },
    /// The calls of an answer are being stored.
    Requesting { calls: Vec<ModelFunctionCall> },
    /// A hook looks at a call before it runs.
    BeforeHooks { calls: Vec<ModelFunctionCall>, index: usize, entered: usize },
    /// A function runs.
    Executing { calls: Vec<ModelFunctionCall>, index: usize },
    /// What came of a call is being stored.
    RecordingCall {
        calls: Vec<ModelFunctionCall>,
        index: usize,
        before: ThreadProjection,
        result: CallResult,
    },
    /// A hook looks at what came of a call.
    AfterHooks {
        calls: Vec<ModelFunctionCall>,
        index: usize,
        before: ThreadProjection,
        left: usize,
        result: CallResult,
    },
    /// The calls before which the turn stopped are being stored.
    Skipping { suspension: Suspension },
    /// The finished turn is being stored.
    Finishing { outcome: TurnOutcome },
    /// There is nothing left to do.
    Done,
}

/// What a `TurnPhase` holds.
#[verifier::ext_equal]
pub enum TurnPhaseView {
    Starting,
    BuildingContext,
    AwaitingModel,
    StoringText { text: Seq<char>, calls: Seq<ModelFunctionCallView> },
    Requesting { calls: Seq<ModelFunctionCallView> },
    BeforeHooks { calls: Seq<ModelFunctionCallView>, index: usize, entered: usize },
    Executing { calls: Seq<ModelFunctionCallView>, index: usize },
    RecordingCall {
        calls: Seq<ModelFunctionCallView>,
        index: usize,
        before: ThreadProjectionView,
        result: CallResultView,
    },
    AfterHooks {
        calls: Seq<ModelFunctionCallView>,
        index: usize,
        before: ThreadProjectionView,
        left: usize,
        result: CallResultView,
    },
    Skipping { suspension: SuspensionView },
    Finishing { outcome: TurnOutcomeView },
    Done,
}

impl View for TurnPhase {
    type V = TurnPhaseView;

    open spec fn view(&self) -> TurnPhaseView {
        match *self {
            TurnPhase::Starting => TurnPhaseView::Starting,
            TurnPhase::BuildingContext => TurnPhaseView::BuildingContext,
            TurnPhase::AwaitingModel => TurnPhaseView::AwaitingModel,
            TurnPhase::StoringText { text, calls } => TurnPhaseView::StoringText {
                text: text@,
                calls: views::all(calls@),
            },
            TurnPhase::Requesting { calls } => TurnPhaseView::Requesting {
                calls: views::all(calls@),
            },
            TurnPhase::BeforeHooks { calls, index, entered } => TurnPhaseView::BeforeHooks {
                calls: views::all(calls@),
                index,
                entered,
            },
            TurnPhase::Executing { calls, index } => TurnPhaseView::Executing {
                calls: views::all(calls@),
                index,
            },
            TurnPhase::RecordingCall { calls, index, before, result } => {
                TurnPhaseView::RecordingCall {
                    calls: views::all(calls@),
                    index,
                    before: before@,
                    result: result@,
                }
            },
            TurnPhase::AfterHooks { calls, index, before, left, result } => {
                TurnPhaseView::AfterHooks {
                    calls: views::all(calls@),
                    index,
                    before: before@,
                    left,
                    result: result@,
                }
            },
            TurnPhase::Skipping { suspension } => TurnPhaseView::Skipping {
                suspension: suspension@,
            },
            TurnPhase::Finishing { outcome } => TurnPhaseView::Finishing { outcome: outcome@ },
            TurnPhase::Done => TurnPhaseView::Done,
        }
    }
}

impl Clone for TurnPhase {
    fn clone(&self) -> (r: Self)
        ensures
            r@ == self@,
    {
        match self {
            TurnPhase::Starting => TurnPhase::Starting,
            TurnPhase::BuildingContext => TurnPhase::BuildingContext,
            TurnPhase::AwaitingModel => TurnPhase::AwaitingModel,
            TurnPhase::StoringText { text, calls } => {
                let copy_calls = calls.clone();
                assert(views::all(copy_calls@) =~= views::all(calls@));
                TurnPhase::StoringText { text: text.clone(), calls: copy_calls }
            },
            TurnPhase::Requesting { calls } => {
                let copy_calls = calls.clone();
                assert(views::all(copy_calls@) =~= views::all(calls@));
                TurnPhase::Requesting { calls: copy_calls }
            },
            TurnPhase::BeforeHooks { calls, index, entered } => {
                let copy_calls = calls.clone();
                assert(views::all(copy_calls@) =~= views::all(calls@));
                TurnPhase::BeforeHooks { calls: copy_calls, index: *index, entered: *entered }
            },
            TurnPhase::Executing { calls, index } => {
                let copy_calls = calls.clone();
                assert(views::all(copy_calls@) =~= views::all(calls@));
                TurnPhase::Executing { calls: copy_calls, index: *index }
            },
            TurnPhase::RecordingCall { calls, index, before, result } => {
                let copy_calls = calls.clone();
                assert(views::all(copy_calls@) =~= views::all(calls@));
                TurnPhase::RecordingCall {
                    calls: copy_calls,
                    index: *index,
                    before: before.clone(),
                    result: result.clone(),
                }
            },
            TurnPhase::AfterHooks { calls, index, before, left, result } => {
                let copy_calls = calls.clone();
                assert(views::all(copy_calls@) =~= views::all(calls@));
                TurnPhase::AfterHooks {
                    calls: copy_calls,
                    index: *index,
                    before: before.clone(),
                    left: *left,
                    result: result.clone(),
                }
            },
            TurnPhase::Skipping { suspension } => TurnPhase::Skipping {
                suspension: suspension.clone(),
            },
            TurnPhase::Finishing { outcome } => TurnPhase::Finishing { outcome: outcome.clone() },
            TurnPhase::Done => TurnPhase::Done,
        }
    }
}

/// What came of an action.
#[derive(Debug, PartialEq)]
pub enum TurnInput {
    /// The store took the thread, and returns it as it now stands.
    Committed(Thread),
    ContextBuilt { messages: Vec<ChatMessage> },
    /// The model reports something while it answers.
    Model(ModelStreamEvent),
    ModelReplied(ModelResponse),
    ModelFailed(AgentError),
    HookPassed,
    HookFailed(AgentError),
    FunctionReturned(FunctionExecution),
    FunctionFailed(AgentError),
    /// The caller wants the turn to stop.
    Aborted,
    /// The store or the choice of messages failed.
    Failed(AgentError),
}

/// What a `TurnInput` holds.
#[verifier::ext_equal]
pub enum TurnInputView {
    Committed(ThreadView),
    ContextBuilt { messages: Seq<ChatMessageView> },
    Model(ModelStreamEventView),
    ModelReplied(ModelResponseView),
    ModelFailed(AgentErrorView),
    HookPassed,
    HookFailed(AgentErrorView),
    FunctionReturned(FunctionExecutionView),
    FunctionFailed(AgentErrorView),
    Aborted,
    Failed(AgentErrorView),
}

impl View for TurnInput {
    type V = TurnInputView;

    open spec fn view(&self) -> TurnInputView {
        match *self {
            TurnInput::Committed(inner) => TurnInputView::Committed(inner@),
            TurnInput::ContextBuilt { messages } => TurnInputView::ContextBuilt {
                messages: views::all(messages@),
            },
            TurnInput::Model(inner) => TurnInputView::Model(inner@),
            TurnInput::ModelReplied(inner) => TurnInputView::ModelReplied(inner@),
            TurnInput::ModelFailed(inner) => TurnInputView::ModelFailed(inner@),
            TurnInput::HookPassed => TurnInputView::HookPassed,
            TurnInput::HookFailed(inner) => TurnInputView::HookFailed(inner@),
            TurnInput::FunctionReturned(inner) => TurnInputView::FunctionReturned(inner@),
            TurnInput::FunctionFailed(inner) => TurnInputView::FunctionFailed(inner@),
            TurnInput::Aborted => TurnInputView::Aborted,
            TurnInput::Failed(inner) => TurnInputView::Failed(inner@),
        }
    }
}

impl Clone for TurnInput {
    fn clone(&self) -> (r: Self)
        ensures
            r@ == self@,
    {
        match self {
            TurnInput::Committed(inner) => TurnInput::Committed(inner.clone()),
            TurnInput::ContextBuilt { messages } => {
                let copy_messages = messages.clone();
                assert(views::all(copy_messages@) =~= views::all(messages@));
                TurnInput::ContextBuilt { messages: copy_messages }
            },
            TurnInput::Model(inner) => TurnInput::Model(inner.clone()),
            TurnInput::ModelReplied(inner) => TurnInput::ModelReplied(inner.clone()),
            TurnInput::ModelFailed(inner) => TurnInput::ModelFailed(inner.clone()),
            TurnInput::HookPassed => TurnInput::HookPassed,
            TurnInput::HookFailed(inner) => TurnInput::HookFailed(inner.clone()),
            TurnInput::FunctionReturned(inner) => TurnInput::FunctionReturned(inner.clone()),
            TurnInput::FunctionFailed(inner) => TurnInput::FunctionFailed(inner.clone()),
            TurnInput::Aborted => TurnInput::Aborted,
            TurnInput::Failed(inner) => TurnInput::Failed(inner.clone()),
        }
    }
}

/// What is to be done next.
#[derive(Debug, PartialEq)]
pub enum TurnAction {
    /// Store the thread.
    Commit(Thread),
    /// Choose the messages for the model.
    BuildContext { projection: ThreadProjection, runtime_context: Option<String> },
    CallModel(ModelRequest),
    /// Let a hook look at a call before it runs.
    BeforeHook { hook: usize, context: FunctionCallHookContext },
    CallFunction { name: String, arguments: Value, context: FunctionContext },
    /// Let a hook look at what came of a call.
    AfterHook { hook: usize, context: FunctionCallHookContext, result: FunctionCallHookResult },
    /// Nothing new: the last action still stands.
    Wait,
    /// The turn is over.
    Finish(TurnOutcome),
    /// The turn cannot go on.
    Fail(AgentError),
}

/// What a `TurnAction` holds.
#[verifier::ext_equal]
pub enum TurnActionView {
    Commit(ThreadView),
    BuildContext { projection: ThreadProjectionView, runtime_context: Option<Seq<char>> },
    CallModel(ModelRequestView),
    BeforeHook { hook: usize, context: FunctionCallHookContextView },
    CallFunction { name: Seq<char>, arguments: Json, context: FunctionContextView },
    AfterHook {
        hook: usize,
        context: FunctionCallHookContextView,
        result: FunctionCallHookResultView,
    },
    Wait,
    Finish(TurnOutcomeView),
    Fail(AgentErrorView),
}

impl View for TurnAction {
    type V = TurnActionView;

    open spec fn view(&self) -> TurnActionView {
        match *self {
            TurnAction::Commit(inner) => TurnActionView::Commit(inner@),
            TurnAction::BuildContext { projection, runtime_context } => {
                TurnActionView::BuildContext {
                    projection: projection@,
                    runtime_context: views::opt(runtime_context),
                }
            },
            TurnAction::CallModel(inner) => TurnActionView::CallModel(inner@),
            TurnAction::BeforeHook { hook, context } => TurnActionView::BeforeHook {
                hook,
                context: context@,
            },
            TurnAction::CallFunction { name, arguments, context } => TurnActionView::CallFunction {
                name: name@,
                arguments: json::of(arguments),
                context: context@,
            },
            TurnAction::AfterHook { hook, context, result } => TurnActionView::AfterHook {
                hook,
                context: context@,
                result: result@,
            },
            TurnAction::Wait => TurnActionView::Wait,
            TurnAction::Finish(inner) => TurnActionView::Finish(inner@),
            TurnAction::Fail(inner) => TurnActionView::Fail(inner@),
        }
    }
}

impl Clone for TurnAction {
    fn clone(&self) -> (r: Self)
        ensures
            r@ == self@,
    {
        match self {
            TurnAction::Commit(inner) => TurnAction::Commit(inner.clone()),
            TurnAction::BuildContext { projection, runtime_context } => {
                let copy_runtime_context = runtime_context.clone();
                assert(views::opt(copy_runtime_context) =~= views::opt((*runtime_context)));
                TurnAction::BuildContext {
                    projection: projection.clone(),
                    runtime_context: copy_runtime_context,
                }
            },
            TurnAction::CallModel(inner) => TurnAction::CallModel(inner.clone()),
            TurnAction::BeforeHook { hook, context } => TurnAction::BeforeHook {
                hook: *hook,
                context: context.clone(),
            },
            TurnAction::CallFunction { name, arguments, context } => TurnAction::CallFunction {
                name: name.clone(),
                arguments: copy_of(arguments),
                context: context.clone(),
            },
            TurnAction::AfterHook { hook, context, result } => TurnAction::AfterHook {
                hook: *hook,
                context: context.clone(),
                result: result.clone(),
            },
            TurnAction::Wait => TurnAction::Wait,
            TurnAction::Finish(inner) => TurnAction::Finish(inner.clone()),
            TurnAction::Fail(inner) => TurnAction::Fail(inner.clone()),
        }
    }
}

/// A turn under way.
#[derive(Debug, PartialEq)]
pub struct TurnRun {
    pub thread_id: String,
    pub functions: Vec<FunctionSpec>,
    pub max_model_iterations: usize,
    pub hook_count: usize,
    pub runtime_context: Option<String>,
    pub thread: Thread,
    pub turn_id: String,
    pub usage: TokenUsage,
    pub iteration: usize,
    pub phase: TurnPhase,
}

/// What a `TurnRun` holds.
#[verifier::ext_equal]
pub struct TurnRunView {
    pub thread_id: Seq<char>,
    pub functions: Seq<FunctionSpecView>,
    pub max_model_iterations: usize,
    pub hook_count: usize,
    pub runtime_context: Option<Seq<char>>,
    pub thread: ThreadView,
    pub turn_id: Seq<char>,
    pub usage: TokenUsage,
    pub iteration: usize,
    pub phase: TurnPhaseView,
}

impl View for TurnRun {
    type V = TurnRunView;

    open spec fn view(&self) -> TurnRunView {
        TurnRunView {
            thread_id: self.thread_id@,
            functions: views::all(self.functions@),
            max_model_iterations: self.max_model_iterations,
            hook_count: self.hook_count,
            runtime_context: views::opt(self.runtime_context),
            thread: self.thread@,
            turn_id: self.turn_id@,
            usage: self.usage,
            iteration: self.iteration,
            phase: self.phase@,
        }
    }
}

impl Clone for TurnRun {
    fn clone(&self) -> (r: Self)
        ensures
            r@ == self@,
    {
        let r = TurnRun {
            thread_id: self.thread_id.clone(),
            functions: self.functions.clone(),
            max_model_iterations: self.max_model_iterations,
            hook_count: self.hook_count,
            runtime_context: self.runtime_context.clone(),
            thread: self.thread.clone(),
            turn_id: self.turn_id.clone(),
            usage: self.usage,
            iteration: self.iteration,
            phase: self.phase.clone(),
        };
        assert(views::all(r.functions@) =~= views::all(self.functions@));
        assert(views::opt(r.runtime_context) =~= views::opt(self.runtime_context));
        r
    }
}

/// A turn in the middle of a step, with what it has reported so far.
pub struct Flow {
    pub run: TurnRun,
    pub events: Vec<TurnStreamEvent>,
    pub ids: IdSource,
}

/// What a `Flow` holds.
#[verifier::ext_equal]
pub struct FlowView {
    pub run: TurnRunView,
    pub events: Seq<TurnStreamEventView>,
    pub ids: IdSource,
}

impl View for Flow {
    type V = FlowView;

    open spec fn view(&self) -> FlowView {
        FlowView {
            run: self.run@,
            events: views::all(self.events@),
            ids: self.ids,
        }
    }
}

/// What a step leads to.
#[derive(Debug)]
pub struct Step {
    pub run: TurnRun,
    pub action: TurnAction,
    /// What the caller is told, in order, before the action is taken.
    pub events: Vec<TurnStreamEvent>,
    /// Where the next identifiers come from.
    pub ids: IdSource,
}

/// What a `Step` holds.
#[verifier::ext_equal]
pub struct StepView {
    pub run: TurnRunView,
    pub action: TurnActionView,
    pub events: Seq<TurnStreamEventView>,
    pub ids: IdSource,
}

impl View for Step {
    type V = StepView;

    open spec fn view(&self) -> StepView {
        StepView {
            run: self.run@,
            action: self.action@,
            events: views::all(self.events@),
            ids: self.ids,
        }
    }
}

} // verus!
