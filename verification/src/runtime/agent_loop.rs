//! What an agent run is made of: its settings, what it reports and what it
//! hands to hooks.
use crate::json::{self, copy_of, Json};
use crate::kernel::events::{Suspension, SuspensionView, TokenUsage};
use crate::kernel::model::{ModelFunctionCall, ModelFunctionCallView};
use crate::kernel::projection::{ThreadProjection, ThreadProjectionView};
use crate::views;
use serde_json::Value;
use vstd::prelude::*;

verus! {

/// The settings of an agent.
#[derive(Debug, PartialEq)]
pub struct AgentConfig {
    pub max_model_iterations: usize,
    pub system_prompt: String,
}

/// What a `AgentConfig` holds.
#[verifier::ext_equal]
pub struct AgentConfigView {
    pub max_model_iterations: usize,
    pub system_prompt: Seq<char>,
}

impl View for AgentConfig {
    type V = AgentConfigView;

    open spec fn view(&self) -> AgentConfigView {
        AgentConfigView {
            max_model_iterations: self.max_model_iterations,
            system_prompt: self.system_prompt@,
        }
    }
}

impl Clone for AgentConfig {
    fn clone(&self) -> (r: Self)
        ensures
            r@ == self@,
    {
        AgentConfig {
            max_model_iterations: self.max_model_iterations,
            system_prompt: self.system_prompt.clone(),
        }
    }
}

/// How a turn ended.
#[derive(Debug, PartialEq)]
pub enum TurnOutcome {
    AssistantMessage { text: String },
    Suspended { suspension: Suspension },
    Failed { error: String },
    Aborted { reason: String },
}

/// What a `TurnOutcome` holds.
#[verifier::ext_equal]
pub enum TurnOutcomeView {
    AssistantMessage { text: Seq<char> },
    Suspended { suspension: SuspensionView },
    Failed { error: Seq<char> },
    Aborted { reason: Seq<char> },
}

impl View for TurnOutcome {
    type V = TurnOutcomeView;

    open spec fn view(&self) -> TurnOutcomeView {
        match *self {
            TurnOutcome::AssistantMessage { text } => TurnOutcomeView::AssistantMessage {
                text: text@,
            },
            TurnOutcome::Suspended { suspension } => TurnOutcomeView::Suspended {
                suspension: suspension@,
            },
            TurnOutcome::Failed { error } => TurnOutcomeView::Failed { error: error@ },
            TurnOutcome::Aborted { reason } => TurnOutcomeView::Aborted { reason: reason@ },
        }
    }
}

impl Clone for TurnOutcome {
    fn clone(&self) -> (r: Self)
        ensures
            r@ == self@,
    {
        match self {
            TurnOutcome::AssistantMessage { text } => TurnOutcome::AssistantMessage {
                text: text.clone(),
            },
            TurnOutcome::Suspended { suspension } => TurnOutcome::Suspended {
                suspension: suspension.clone(),
            },
            TurnOutcome::Failed { error } => TurnOutcome::Failed { error: error.clone() },
            TurnOutcome::Aborted { reason } => TurnOutcome::Aborted { reason: reason.clone() },
        }
    }
}

/// A change in the state of a turn.
#[derive(Debug, PartialEq)]
pub enum TurnStateEvent {
    TurnStarted { thread_id: String, turn_id: String },
    FunctionCallsRequested { calls: Vec<ModelFunctionCall> },
    FunctionStarted { call_id: String, name: String },
    FunctionCompleted { call_id: String, name: String },
    FunctionFailed { call_id: String, name: String, error: String },
    Suspended { suspension: Suspension },
    TurnFinished { outcome: TurnOutcome },
    TurnFailed { error: String },
    TurnAborted { reason: String },
    TurnTokenUsage { usage: TokenUsage },
}

/// What a `TurnStateEvent` holds.
#[verifier::ext_equal]
pub enum TurnStateEventView {
    TurnStarted { thread_id: Seq<char>, turn_id: Seq<char> },
    FunctionCallsRequested { calls: Seq<ModelFunctionCallView> },
    FunctionStarted { call_id: Seq<char>, name: Seq<char> },
    FunctionCompleted { call_id: Seq<char>, name: Seq<char> },
    FunctionFailed { call_id: Seq<char>, name: Seq<char>, error: Seq<char> },
    Suspended { suspension: SuspensionView },
    TurnFinished { outcome: TurnOutcomeView },
    TurnFailed { error: Seq<char> },
    TurnAborted { reason: Seq<char> },
    TurnTokenUsage { usage: TokenUsage },
}

impl View for TurnStateEvent {
    type V = TurnStateEventView;

    open spec fn view(&self) -> TurnStateEventView {
        match *self {
            TurnStateEvent::TurnStarted { thread_id, turn_id } => TurnStateEventView::TurnStarted {
                thread_id: thread_id@,
                turn_id: turn_id@,
            },
            TurnStateEvent::FunctionCallsRequested { calls } => {
                TurnStateEventView::FunctionCallsRequested { calls: views::all(calls@) }
            },
            TurnStateEvent::FunctionStarted { call_id, name } => {
                TurnStateEventView::FunctionStarted { call_id: call_id@, name: name@ }
            },
            TurnStateEvent::FunctionCompleted { call_id, name } => {
                TurnStateEventView::FunctionCompleted { call_id: call_id@, name: name@ }
            },
            TurnStateEvent::FunctionFailed { call_id, name, error } => {
                TurnStateEventView::FunctionFailed { call_id: call_id@, name: name@, error: error@ }
            },
            TurnStateEvent::Suspended { suspension } => TurnStateEventView::Suspended {
                suspension: suspension@,
            },
            TurnStateEvent::TurnFinished { outcome } => TurnStateEventView::TurnFinished {
                outcome: outcome@,
            },
            TurnStateEvent::TurnFailed { error } => TurnStateEventView::TurnFailed {
                error: error@,
            },
            TurnStateEvent::TurnAborted { reason } => TurnStateEventView::TurnAborted {
                reason: reason@,
            },
            TurnStateEvent::TurnTokenUsage { usage } => TurnStateEventView::TurnTokenUsage {
                usage,
            },
        }
    }
}

impl Clone for TurnStateEvent {
    fn clone(&self) -> (r: Self)
        ensures
            r@ == self@,
    {
        match self {
            TurnStateEvent::TurnStarted { thread_id, turn_id } => TurnStateEvent::TurnStarted {
                thread_id: thread_id.clone(),
                turn_id: turn_id.clone(),
            },
            TurnStateEvent::FunctionCallsRequested { calls } => {
                let copy_calls = calls.clone();
                assert(views::all(copy_calls@) =~= views::all(calls@));
                TurnStateEvent::FunctionCallsRequested { calls: copy_calls }
            },
            TurnStateEvent::FunctionStarted { call_id, name } => TurnStateEvent::FunctionStarted {
                call_id: call_id.clone(),
                name: name.clone(),
            },
            TurnStateEvent::FunctionCompleted { call_id, name } => {
                TurnStateEvent::FunctionCompleted { call_id: call_id.clone(), name: name.clone() }
            },
            TurnStateEvent::FunctionFailed { call_id, name, error } => {
                TurnStateEvent::FunctionFailed {
                    call_id: call_id.clone(),
                    name: name.clone(),
                    error: error.clone(),
                }
            },
            TurnStateEvent::Suspended { suspension } => TurnStateEvent::Suspended {
                suspension: suspension.clone(),
            },
            TurnStateEvent::TurnFinished { outcome } => TurnStateEvent::TurnFinished {
                outcome: outcome.clone(),
            },
            TurnStateEvent::TurnFailed { error } => TurnStateEvent::TurnFailed {
                error: error.clone(),
            },
            TurnStateEvent::TurnAborted { reason } => TurnStateEvent::TurnAborted {
                reason: reason.clone(),
            },
            TurnStateEvent::TurnTokenUsage { usage } => TurnStateEvent::TurnTokenUsage {
                usage: *usage,
            },
        }
    }
}

/// News from the model.
#[derive(Debug, PartialEq)]
pub enum TurnModelEvent {
    RequestStarted { iteration: usize },
    AssistantMessage { text: String },
    AssistantDelta { text: String },
}

/// What a `TurnModelEvent` holds.
#[verifier::ext_equal]
pub enum TurnModelEventView {
    RequestStarted { iteration: usize },
    AssistantMessage { text: Seq<char> },
    AssistantDelta { text: Seq<char> },
}

impl View for TurnModelEvent {
    type V = TurnModelEventView;

    open spec fn view(&self) -> TurnModelEventView {
        match *self {
            TurnModelEvent::RequestStarted { iteration } => TurnModelEventView::RequestStarted {
                iteration,
            },
            TurnModelEvent::AssistantMessage { text } => TurnModelEventView::AssistantMessage {
                text: text@,
            },
            TurnModelEvent::AssistantDelta { text } => TurnModelEventView::AssistantDelta {
                text: text@,
            },
        }
    }
}

impl Clone for TurnModelEvent {
    fn clone(&self) -> (r: Self)
        ensures
            r@ == self@,
    {
        match self {
            TurnModelEvent::RequestStarted { iteration } => TurnModelEvent::RequestStarted {
                iteration: *iteration,
            },
            TurnModelEvent::AssistantMessage { text } => TurnModelEvent::AssistantMessage {
                text: text.clone(),
            },
            TurnModelEvent::AssistantDelta { text } => TurnModelEvent::AssistantDelta {
                text: text.clone(),
            },
        }
    }
}

/// News from the runtime or from a hook.
#[derive(Debug, PartialEq)]
pub struct RuntimeEvent {
    pub source: String,
    pub message: String,
    pub metadata: Value,
}

/// What a `RuntimeEvent` holds.
#[verifier::ext_equal]
pub struct RuntimeEventView {
    pub source: Seq<char>,
    pub message: Seq<char>,
    pub metadata: Json,
}

impl View for RuntimeEvent {
    type V = RuntimeEventView;

    open spec fn view(&self) -> RuntimeEventView {
        RuntimeEventView {
            source: self.source@,
            message: self.message@,
            metadata: json::of(self.metadata),
        }
    }
}

impl Clone for RuntimeEvent {
    fn clone(&self) -> (r: Self)
        ensures
            r@ == self@,
    {
        RuntimeEvent {
            source: self.source.clone(),
            message: self.message.clone(),
            metadata: copy_of(&self.metadata),
        }
    }
}

/// What a caller hears while a turn runs.
#[derive(Debug, PartialEq)]
pub enum TurnStreamEvent {
    State(TurnStateEvent),
    Model(TurnModelEvent),
    Runtime(RuntimeEvent),
}

/// What a `TurnStreamEvent` holds.
#[verifier::ext_equal]
pub enum TurnStreamEventView {
    State(TurnStateEventView),
    Model(TurnModelEventView),
    Runtime(RuntimeEventView),
}

impl View for TurnStreamEvent {
    type V = TurnStreamEventView;

    open spec fn view(&self) -> TurnStreamEventView {
        match *self {
            TurnStreamEvent::State(event) => TurnStreamEventView::State(event@),
            TurnStreamEvent::Model(event) => TurnStreamEventView::Model(event@),
            TurnStreamEvent::Runtime(event) => TurnStreamEventView::Runtime(event@),
        }
    }
}

impl Clone for TurnStreamEvent {
    fn clone(&self) -> (r: Self)
        ensures
            r@ == self@,
    {
        match self {
            TurnStreamEvent::State(event) => TurnStreamEvent::State(event.clone()),
            TurnStreamEvent::Model(event) => TurnStreamEvent::Model(event.clone()),
            TurnStreamEvent::Runtime(event) => TurnStreamEvent::Runtime(event.clone()),
        }
    }
}

/// What a hook is told of a function call.
#[derive(Debug, PartialEq)]
pub struct FunctionCallHookContext {
    pub thread_id: String,
    pub turn_id: String,
    pub call_id: String,
    pub name: String,
    pub arguments: Value,
    pub projection: ThreadProjection,
}

/// What a `FunctionCallHookContext` holds.
#[verifier::ext_equal]
pub struct FunctionCallHookContextView {
    pub thread_id: Seq<char>,
    pub turn_id: Seq<char>,
    pub call_id: Seq<char>,
    pub name: Seq<char>,
    pub arguments: Json,
    pub projection: ThreadProjectionView,
}

impl View for FunctionCallHookContext {
    type V = FunctionCallHookContextView;

    open spec fn view(&self) -> FunctionCallHookContextView {
        FunctionCallHookContextView {
            thread_id: self.thread_id@,
            turn_id: self.turn_id@,
            call_id: self.call_id@,
            name: self.name@,
            arguments: json::of(self.arguments),
            projection: self.projection@,
        }
    }
}

impl Clone for FunctionCallHookContext {
    fn clone(&self) -> (r: Self)
        ensures
            r@ == self@,
    {
        FunctionCallHookContext {
            thread_id: self.thread_id.clone(),
            turn_id: self.turn_id.clone(),
            call_id: self.call_id.clone(),
            name: self.name.clone(),
            arguments: copy_of(&self.arguments),
            projection: self.projection.clone(),
        }
    }
}

/// What a hook is told of the result of a function call.
#[derive(Debug, PartialEq)]
pub enum FunctionCallHookResult {
    Completed { output: Value },
    Suspended { suspension: Suspension, output: Value },
    Failed { error: String },
}

/// What a `FunctionCallHookResult` holds.
#[verifier::ext_equal]
pub enum FunctionCallHookResultView {
    Completed { output: Json },
    Suspended { suspension: SuspensionView, output: Json },
    Failed { error: Seq<char> },
}

impl View for FunctionCallHookResult {
    type V = FunctionCallHookResultView;

    open spec fn view(&self) -> FunctionCallHookResultView {
        match *self {
            FunctionCallHookResult::Completed { output } => FunctionCallHookResultView::Completed {
                output: json::of(output),
            },
            FunctionCallHookResult::Suspended { suspension, output } => {
                FunctionCallHookResultView::Suspended {
                    suspension: suspension@,
                    output: json::of(output),
                }
            },
            FunctionCallHookResult::Failed { error } => FunctionCallHookResultView::Failed {
                error: error@,
            },
        }
    }
}

impl Clone for FunctionCallHookResult {
    fn clone(&self) -> (r: Self)
        ensures
            r@ == self@,
    {
        match self {
            FunctionCallHookResult::Completed { output } => FunctionCallHookResult::Completed {
                output: copy_of(output),
            },
            FunctionCallHookResult::Suspended { suspension, output } => {
                FunctionCallHookResult::Suspended {
                    suspension: suspension.clone(),
                    output: copy_of(output),
                }
            },
            FunctionCallHookResult::Failed { error } => FunctionCallHookResult::Failed {
                error: error.clone(),
            },
        }
    }
}

/// The instructions that an agent gives a model unless it is told otherwise.
pub open spec fn default_prompt() -> Seq<char> {
    "You are an agent runtime assistant. Use functions only when they are useful. Thread goal is explicit durable state. Turn items are factual append-only records. Ask the user when required information is missing."@
}

impl Default for AgentConfig {
    fn default() -> (r: Self)
        ensures
            r@ == (AgentConfigView { max_model_iterations: 128, system_prompt: default_prompt() }),
    {
        AgentConfig {
            max_model_iterations: 128,
            system_prompt: "You are an agent runtime assistant. Use functions only when they are useful. Thread goal is explicit durable state. Turn items are factual append-only records. Ask the user when required information is missing.".to_string(),
        }
    }
}

} // verus!
