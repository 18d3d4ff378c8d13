//! The parts of a turn: what it knows, waits for, hears and asks for.
use crate::error::{AgentError, AgentErrorView};
use crate::ids::IdSource;
use crate::json::{self, copy_of, Json};
use crate::kernel::events::{Suspension, SuspensionView, Thread, ThreadView, TokenUsage};
use crate::kernel::model::{
    FunctionSpec, FunctionSpecView, ModelFunctionCall, ModelFunctionCallView, ModelRequest,
    ModelRequestView, ModelResponse, ModelResponseView, ModelStreamEvent, ModelStreamEventView,
};
use crate::kernel::projection::{
    ChatMessage, ChatMessageView, ThreadProjection, ThreadProjectionView,
};
use crate::kernel::revision::RevisionToken;
use crate::runtime::agent_loop::{
    FunctionCallHookContext, FunctionCallHookContextView, FunctionCallHookResult,
    FunctionCallHookResultView, TurnOutcome, TurnOutcomeView, TurnStreamEvent, TurnStreamEventView,
};
use crate::runtime::context::{ContextBuildOutput, ContextBuildOutputView};
use crate::runtime::functions::{
    FunctionCallExecution, FunctionCallExecutionView, FunctionContext, FunctionContextView,
};
use crate::runtime::store::{ThreadContextCache, ThreadContextCacheView};
use crate::runtime::trace::{TraceEvent, TraceEventView};
use crate::views;
use serde_json::Value;
use vstd::prelude::*;

verus! {

/// What a turn is started with.
#[derive(Debug, PartialEq)]
pub struct TurnRequest {
    pub thread_id: String,
    /// What the user says; none when an unfinished turn goes on.
    pub user_text: Option<String>,
    /// The functions that are offered to the model.
    pub functions: Vec<FunctionSpec>,
    pub max_model_iterations: usize,
    /// How many hooks watch function calls.
    pub hook_count: usize,
    /// The number of the last trace event before this turn.
    pub trace_sequence: u64,
}

/// What a `TurnRequest` holds.
#[verifier::ext_equal]
pub struct TurnRequestView {
    pub thread_id: Seq<char>,
    pub user_text: Option<Seq<char>>,
    pub functions: Seq<FunctionSpecView>,
    pub max_model_iterations: usize,
    pub hook_count: usize,
    pub trace_sequence: u64,
}

impl View for TurnRequest {
    type V = TurnRequestView;

    open spec fn view(&self) -> TurnRequestView {
        TurnRequestView {
            thread_id: self.thread_id@,
            user_text: views::opt(self.user_text),
            functions: views::all(self.functions@),
            max_model_iterations: self.max_model_iterations,
            hook_count: self.hook_count,
            trace_sequence: self.trace_sequence,
        }
    }
}

impl Clone for TurnRequest {
    fn clone(&self) -> (r: Self)
        ensures
            r@ == self@,
    {
        let r = TurnRequest {
            thread_id: self.thread_id.clone(),
            user_text: self.user_text.clone(),
            functions: self.functions.clone(),
            max_model_iterations: self.max_model_iterations,
            hook_count: self.hook_count,
            trace_sequence: self.trace_sequence,
        };
        assert(views::opt(r.user_text) =~= views::opt(self.user_text));
        assert(views::all(r.functions@) =~= views::all(self.functions@));
        r
    }
}

/// How a function call came out, as far as the turn goes.
#[derive(Debug, PartialEq)]
pub enum CallResult {
    Completed { output: Value },
    SuspendedBefore { suspension: Suspension },
    SuspendedAfter { suspension: Suspension, output: Value },
    Failed { error: String },
}

/// What a `CallResult` holds.
#[verifier::ext_equal]
pub enum CallResultView {
    Completed { output: Json },
    SuspendedBefore { suspension: SuspensionView },
    SuspendedAfter { suspension: SuspensionView, output: Json },
    Failed { error: Seq<char> },
}

impl View for CallResult {
    type V = CallResultView;

    open spec fn view(&self) -> CallResultView {
        match *self {
            CallResult::Completed { output } => CallResultView::Completed {
                output: json::of(output),
            },
            CallResult::SuspendedBefore { suspension } => CallResultView::SuspendedBefore {
                suspension: suspension@,
            },
            CallResult::SuspendedAfter { suspension, output } => CallResultView::SuspendedAfter {
                suspension: suspension@,
                output: json::of(output),
            },
            CallResult::Failed { error } => CallResultView::Failed { error: error@ },
        }
    }
}

impl Clone for CallResult {
    fn clone(&self) -> (r: Self)
        ensures
            r@ == self@,
    {
        match self {
            CallResult::Completed { output } => CallResult::Completed { output: copy_of(output) },
            CallResult::SuspendedBefore { suspension } => CallResult::SuspendedBefore {
                suspension: suspension.clone(),
            },
            CallResult::SuspendedAfter { suspension, output } => CallResult::SuspendedAfter {
                suspension: suspension.clone(),
                output: copy_of(output),
            },
            CallResult::Failed { error } => CallResult::Failed { error: error.clone() },
        }
    }
}

/// What a turn waits for.
#[derive(Debug, PartialEq)]
pub enum TurnPhase {
    /// The thread with the new turn is being stored.
    Starting { user_text: String },
    /// The summary kept from earlier requests is being read.
    ReadingCache,
    /// The messages for the model are being chosen.
    BuildingContext,
    /// A new summary is being stored.
    SavingCache { messages: Vec<ChatMessage> },
    /// The model is answering.
    AwaitingModel,
    /// The last answer is being stored.
    Completing { text: String },
    /// An answer that asks for function calls is being stored.
    Requesting { text: Option<String>, calls: Vec<ModelFunctionCall> },
    /// A hook looks at a call before it runs.
    BeforeHooks { calls: Vec<ModelFunctionCall>, index: usize, entered: usize },
    /// A function runs.
    Executing { calls: Vec<ModelFunctionCall>, index: usize, entered: usize },
    /// What came of a call is being stored.
    RecordingCall {
        calls: Vec<ModelFunctionCall>,
        index: usize,
        entered: usize,
        result: CallResult,
    },
    /// A hook looks at what came of a call.
    AfterHooks {
        calls: Vec<ModelFunctionCall>,
        index: usize,
        remaining: usize,
        result: CallResult,
    },
    /// The finished turn is being stored.
    Finishing { outcome: TurnOutcome },
    /// There is nothing left to do.
    Done,
}

/// What a `TurnPhase` holds.
#[verifier::ext_equal]
pub enum TurnPhaseView {
    Starting { user_text: Seq<char> },
    ReadingCache,
    BuildingContext,
    SavingCache { messages: Seq<ChatMessageView> },
    AwaitingModel,
    Completing { text: Seq<char> },
    Requesting { text: Option<Seq<char>>, calls: Seq<ModelFunctionCallView> },
    BeforeHooks { calls: Seq<ModelFunctionCallView>, index: usize, entered: usize },
    Executing { calls: Seq<ModelFunctionCallView>, index: usize, entered: usize },
    RecordingCall {
        calls: Seq<ModelFunctionCallView>,
        index: usize,
        entered: usize,
        result: CallResultView,
    },
    AfterHooks {
        calls: Seq<ModelFunctionCallView>,
        index: usize,
        remaining: usize,
        result: CallResultView,
    },
    Finishing { outcome: TurnOutcomeView },
    Done,
}

impl View for TurnPhase {
    type V = TurnPhaseView;

    open spec fn view(&self) -> TurnPhaseView {
        match *self {
            TurnPhase::Starting { user_text } => TurnPhaseView::Starting { user_text: user_text@ },
            TurnPhase::ReadingCache => TurnPhaseView::ReadingCache,
            TurnPhase::BuildingContext => TurnPhaseView::BuildingContext,
            TurnPhase::SavingCache { messages } => TurnPhaseView::SavingCache {
                messages: views::all(messages@),
            },
            TurnPhase::AwaitingModel => TurnPhaseView::AwaitingModel,
            TurnPhase::Completing { text } => TurnPhaseView::Completing { text: text@ },
            TurnPhase::Requesting { text, calls } => TurnPhaseView::Requesting {
                text: views::opt(text),
                calls: views::all(calls@),
            },
            TurnPhase::BeforeHooks { calls, index, entered } => TurnPhaseView::BeforeHooks {
                calls: views::all(calls@),
                index,
                entered,
            },
            TurnPhase::Executing { calls, index, entered } => TurnPhaseView::Executing {
                calls: views::all(calls@),
                index,
                entered,
            },
            TurnPhase::RecordingCall { calls, index, entered, result } => {
                TurnPhaseView::RecordingCall {
                    calls: views::all(calls@),
                    index,
                    entered,
                    result: result@,
                }
            },
            TurnPhase::AfterHooks { calls, index, remaining, result } => TurnPhaseView::AfterHooks {
                calls: views::all(calls@),
                index,
                remaining,
                result: result@,
            },
            TurnPhase::Finishing { outcome } => TurnPhaseView::Finishing { outcome: outcome@ },
            TurnPhase::Done => TurnPhaseView::Done,
        }
    }
}

impl Clone for TurnPhase {
    fn clone(&self) -> (r: Self)
        ensures
            r@ == self@,
    {
        match self {
            TurnPhase::Starting { user_text } => TurnPhase::Starting {
                user_text: user_text.clone(),
            },
            TurnPhase::ReadingCache => TurnPhase::ReadingCache,
            TurnPhase::BuildingContext => TurnPhase::BuildingContext,
            TurnPhase::SavingCache { messages } => {
                let copy_messages = messages.clone();
                assert(views::all(copy_messages@) =~= views::all(messages@));
                TurnPhase::SavingCache { messages: copy_messages }
            },
            TurnPhase::AwaitingModel => TurnPhase::AwaitingModel,
            TurnPhase::Completing { text } => TurnPhase::Completing { text: text.clone() },
            TurnPhase::Requesting { text, calls } => {
                let copy_text = text.clone();
                assert(views::opt(copy_text) =~= views::opt((*text)));
                let copy_calls = calls.clone();
                assert(views::all(copy_calls@) =~= views::all(calls@));
                TurnPhase::Requesting { text: copy_text, calls: copy_calls }
            },
            TurnPhase::BeforeHooks { calls, index, entered } => {
                let copy_calls = calls.clone();
                assert(views::all(copy_calls@) =~= views::all(calls@));
                TurnPhase::BeforeHooks { calls: copy_calls, index: *index, entered: *entered }
            },
            TurnPhase::Executing { calls, index, entered } => {
                let copy_calls = calls.clone();
                assert(views::all(copy_calls@) =~= views::all(calls@));
                TurnPhase::Executing { calls: copy_calls, index: *index, entered: *entered }
            },
            TurnPhase::RecordingCall { calls, index, entered, result } => {
                let copy_calls = calls.clone();
                assert(views::all(copy_calls@) =~= views::all(calls@));
                TurnPhase::RecordingCall {
                    calls: copy_calls,
                    index: *index,
                    entered: *entered,
                    result: result.clone(),
                }
            },
            TurnPhase::AfterHooks { calls, index, remaining, result } => {
                let copy_calls = calls.clone();
                assert(views::all(copy_calls@) =~= views::all(calls@));
                TurnPhase::AfterHooks {
                    calls: copy_calls,
                    index: *index,
                    remaining: *remaining,
                    result: result.clone(),
                }
            },
            TurnPhase::Finishing { outcome } => TurnPhase::Finishing { outcome: outcome.clone() },
            TurnPhase::Done => TurnPhase::Done,
        }
    }
}

/// What came of an action.
#[derive(Debug, PartialEq)]
pub enum TurnInput {
    /// The store took the thread, and returns it as it now stands.
    Committed(Thread),
    CacheLoaded(Option<ThreadContextCache>),
    ContextBuilt(ContextBuildOutput),
    CacheSaved,
    /// The model reports something while it answers.
    Model(ModelStreamEvent),
    ModelReplied(ModelResponse),
    ModelFailed(AgentError),
    HookPassed,
    HookFailed(AgentError),
    FunctionReturned(FunctionCallExecution),
    FunctionFailed(AgentError),
    /// The caller wants the turn to stop.
    Aborted,
    /// The store or the choice of messages failed.
    Failed(AgentError),
}

/// What a `TurnInput` holds.
#[verifier::ext_equal]
pub enum TurnInputView {
    Committed(ThreadView),
    CacheLoaded(Option<ThreadContextCacheView>),
    ContextBuilt(ContextBuildOutputView),
    CacheSaved,
    Model(ModelStreamEventView),
    ModelReplied(ModelResponseView),
    ModelFailed(AgentErrorView),
    HookPassed,
    HookFailed(AgentErrorView),
    FunctionReturned(FunctionCallExecutionView),
    FunctionFailed(AgentErrorView),
    Aborted,
    Failed(AgentErrorView),
}

impl View for TurnInput {
    type V = TurnInputView;

    open spec fn view(&self) -> TurnInputView {
        match *self {
            TurnInput::Committed(inner) => TurnInputView::Committed(inner@),
            TurnInput::CacheLoaded(inner) => TurnInputView::CacheLoaded(views::opt(inner)),
            TurnInput::ContextBuilt(inner) => TurnInputView::ContextBuilt(inner@),
            TurnInput::CacheSaved => TurnInputView::CacheSaved,
            TurnInput::Model(inner) => TurnInputView::Model(inner@),
            TurnInput::ModelReplied(inner) => TurnInputView::ModelReplied(inner@),
            TurnInput::ModelFailed(inner) => TurnInputView::ModelFailed(inner@),
            TurnInput::HookPassed => TurnInputView::HookPassed,
            TurnInput::HookFailed(inner) => TurnInputView::HookFailed(inner@),
            TurnInput::FunctionReturned(inner) => TurnInputView::FunctionReturned(inner@),
            TurnInput::FunctionFailed(inner) => TurnInputView::FunctionFailed(inner@),
            TurnInput::Aborted => TurnInputView::Aborted,
            TurnInput::Failed(inner) => TurnInputView::Failed(inner@),
        }
    }
}

impl Clone for TurnInput {
    fn clone(&self) -> (r: Self)
        ensures
            r@ == self@,
    {
        match self {
            TurnInput::Committed(inner) => TurnInput::Committed(inner.clone()),
            TurnInput::CacheLoaded(inner) => {
                let copy_inner = inner.clone();
                assert(views::opt(copy_inner) =~= views::opt((*inner)));
                TurnInput::CacheLoaded(copy_inner)
            },
            TurnInput::ContextBuilt(inner) => TurnInput::ContextBuilt(inner.clone()),
            TurnInput::CacheSaved => TurnInput::CacheSaved,
            TurnInput::Model(inner) => TurnInput::Model(inner.clone()),
            TurnInput::ModelReplied(inner) => TurnInput::ModelReplied(inner.clone()),
            TurnInput::ModelFailed(inner) => TurnInput::ModelFailed(inner.clone()),
            TurnInput::HookPassed => TurnInput::HookPassed,
            TurnInput::HookFailed(inner) => TurnInput::HookFailed(inner.clone()),
            TurnInput::FunctionReturned(inner) => TurnInput::FunctionReturned(inner.clone()),
            TurnInput::FunctionFailed(inner) => TurnInput::FunctionFailed(inner.clone()),
            TurnInput::Aborted => TurnInput::Aborted,
            TurnInput::Failed(inner) => TurnInput::Failed(inner.clone()),
        }
    }
}

/// What is to be done next.
#[derive(Debug, PartialEq)]
pub enum TurnAction {
    /// Store the thread.
    Commit(Thread),
    /// Read the summary kept from earlier requests.
    LoadCache,
    /// Choose the messages for the model.
    BuildContext {
        projection: ThreadProjection,
        revision: RevisionToken,
        cache: Option<ThreadContextCache>,
    },
    /// Store a new summary.
    SaveCache(ThreadContextCache),
    CallModel(ModelRequest),
    /// Let a hook look at a call before it runs.
    BeforeHook { hook: usize, context: FunctionCallHookContext },
    CallFunction { name: String, arguments: Value, context: FunctionContext },
    /// Let a hook look at what came of a call.
    AfterHook { hook: usize, context: FunctionCallHookContext, result: FunctionCallHookResult },
    /// Nothing new: the last action still stands.
    Wait,
    /// The turn is over.
    Finish(TurnOutcome),
    /// The turn cannot go on.
    Fail(AgentError),
}

/// What a `TurnAction` holds.
#[verifier::ext_equal]
pub enum TurnActionView {
    Commit(ThreadView),
    LoadCache,
    BuildContext {
        projection: ThreadProjectionView,
        revision: Seq<u8>,
        cache: Option<ThreadContextCacheView>,
    },
    SaveCache(ThreadContextCacheView),
    CallModel(ModelRequestView),
    BeforeHook { hook: usize, context: FunctionCallHookContextView },
    CallFunction { name: Seq<char>, arguments: Json, context: FunctionContextView },
    AfterHook {
        hook: usize,
        context: FunctionCallHookContextView,
        result: FunctionCallHookResultView,
    },
    Wait,
    Finish(TurnOutcomeView),
    Fail(AgentErrorView),
}

impl View for TurnAction {
    type V = TurnActionView;

    open spec fn view(&self) -> TurnActionView {
        match *self {
            TurnAction::Commit(inner) => TurnActionView::Commit(inner@),
            TurnAction::LoadCache => TurnActionView::LoadCache,
            TurnAction::BuildContext { projection, revision, cache } => {
                TurnActionView::BuildContext {
                    projection: projection@,
                    revision: revision@,
                    cache: views::opt(cache),
                }
            },
            TurnAction::SaveCache(inner) => TurnActionView::SaveCache(inner@),
            TurnAction::CallModel(inner) => TurnActionView::CallModel(inner@),
            TurnAction::BeforeHook { hook, context } => TurnActionView::BeforeHook {
                hook,
                context: context@,
            },
            TurnAction::CallFunction { name, arguments, context } => TurnActionView::CallFunction {
                name: name@,
                arguments: json::of(arguments),
                context: context@,
            },
            TurnAction::AfterHook { hook, context, result } => TurnActionView::AfterHook {
                hook,
                context: context@,
                result: result@,
            },
            TurnAction::Wait => TurnActionView::Wait,
            TurnAction::Finish(inner) => TurnActionView::Finish(inner@),
            TurnAction::Fail(inner) => TurnActionView::Fail(inner@),
        }
    }
}

impl Clone for TurnAction {
    fn clone(&self) -> (r: Self)
        ensures
            r@ == self@,
    {
        match self {
            TurnAction::Commit(inner) => TurnAction::Commit(inner.clone()),
            TurnAction::LoadCache => TurnAction::LoadCache,
            TurnAction::BuildContext { projection, revision, cache } => {
                let copy_cache = cache.clone();
                assert(views::opt(copy_cache) =~= views::opt((*cache)));
                TurnAction::BuildContext {
                    projection: projection.clone(),
                    revision: revision.clone(),
                    cache: copy_cache,
                }
            },
            TurnAction::SaveCache(inner) => TurnAction::SaveCache(inner.clone()),
            TurnAction::CallModel(inner) => TurnAction::CallModel(inner.clone()),
            TurnAction::BeforeHook { hook, context } => TurnAction::BeforeHook {
                hook: *hook,
                context: context.clone(),
            },
            TurnAction::CallFunction { name, arguments, context } => TurnAction::CallFunction {
                name: name.clone(),
                arguments: copy_of(arguments),
                context: context.clone(),
            },
            TurnAction::AfterHook { hook, context, result } => TurnAction::AfterHook {
                hook: *hook,
                context: context.clone(),
                result: result.clone(),
            },
            TurnAction::Wait => TurnAction::Wait,
            TurnAction::Finish(inner) => TurnAction::Finish(inner.clone()),
            TurnAction::Fail(inner) => TurnAction::Fail(inner.clone()),
        }
    }
}

/// A turn under way.
#[derive(Debug, PartialEq)]
pub struct TurnRun {
    pub thread_id: String,
    pub functions: Vec<FunctionSpec>,
    pub max_model_iterations: usize,
    pub hook_count: usize,
    pub thread: Thread,
    pub turn_id: String,
    pub trace_sequence: u64,
    pub usage: TokenUsage,
    pub iteration: usize,
    pub phase: TurnPhase,
}

/// What a `TurnRun` holds.
#[verifier::ext_equal]
pub struct TurnRunView {
    pub thread_id: Seq<char>,
    pub functions: Seq<FunctionSpecView>,
    pub max_model_iterations: usize,
    pub hook_count: usize,
    pub thread: ThreadView,
    pub turn_id: Seq<char>,
    pub trace_sequence: u64,
    pub usage: TokenUsage,
    pub iteration: usize,
    pub phase: TurnPhaseView,
}

impl View for TurnRun {
    type V = TurnRunView;

    open spec fn view(&self) -> TurnRunView {
        TurnRunView {
            thread_id: self.thread_id@,
            functions: views::all(self.functions@),
            max_model_iterations: self.max_model_iterations,
            hook_count: self.hook_count,
            thread: self.thread@,
            turn_id: self.turn_id@,
            trace_sequence: self.trace_sequence,
            usage: self.usage,
            iteration: self.iteration,
            phase: self.phase@,
        }
    }
}

impl Clone for TurnRun {
    fn clone(&self) -> (r: Self)
        ensures
            r@ == self@,
    {
        let r = TurnRun {
            thread_id: self.thread_id.clone(),
            functions: self.functions.clone(),
            max_model_iterations: self.max_model_iterations,
            hook_count: self.hook_count,
            thread: self.thread.clone(),
            turn_id: self.turn_id.clone(),
            trace_sequence: self.trace_sequence,
            usage: self.usage,
            iteration: self.iteration,
            phase: self.phase.clone(),
        };
        assert(views::all(r.functions@) =~= views::all(self.functions@));
        r
    }
}

/// A turn in the middle of a step, with what it has reported so far.
pub struct Flow {
    pub run: TurnRun,
    pub events: Vec<TurnStreamEvent>,
    pub traces: Vec<TraceEvent>,
    pub ids: IdSource,
}

/// What a `Flow` holds.
#[verifier::ext_equal]
pub struct FlowView {
    pub run: TurnRunView,
    pub events: Seq<TurnStreamEventView>,
    pub traces: Seq<TraceEventView>,
    pub ids: IdSource,
}

impl View for Flow {
    type V = FlowView;

    open spec fn view(&self) -> FlowView {
        FlowView {
            run: self.run@,
            events: views::all(self.events@),
            traces: views::all(self.traces@),
            ids: self.ids,
        }
    }
}

/// What a step leads to.
#[derive(Debug)]
pub struct Step {
    pub run: TurnRun,
    pub action: TurnAction,
    /// What the caller is told, in order, before the action is taken.
    pub events: Vec<TurnStreamEvent>,
    pub traces: Vec<TraceEvent>,
    /// Where the next identifiers come from.
    pub ids: IdSource,
}

/// What a `Step` holds.
#[verifier::ext_equal]
pub struct StepView {
    pub run: TurnRunView,
    pub action: TurnActionView,
    pub events: Seq<TurnStreamEventView>,
    pub traces: Seq<TraceEventView>,
    pub ids: IdSource,
}

impl View for Step {
    type V = StepView;

    open spec fn view(&self) -> StepView {
        StepView {
            run: self.run@,
            action: self.action@,
            events: views::all(self.events@),
            traces: views::all(self.traces@),
            ids: self.ids,
        }
    }
}

} // verus!
