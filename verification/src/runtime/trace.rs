//! The trace of a turn, for observers.
use crate::json::{self, copy_of, Json};
use crate::kernel::events::{ToolResult, ToolResultView};
use crate::kernel::model::{ModelFunctionCall, ModelFunctionCallView};
use crate::views;
use serde_json::Value;
use vstd::prelude::*;

verus! {

/// How a traced turn ended.
#[derive(Debug, Clone, Copy, PartialEq, Eq, Structural)]
pub enum TraceTurnStatus {
    Completed,
    Suspended,
    Failed,
    Aborted,
}

/// What a trace event tells.
#[derive(Debug, PartialEq)]
pub enum TraceEventKind {
    UserInput { text: String, response_to: Option<String> },
    ModelResponse { text: Option<String>, function_calls: Vec<ModelFunctionCall> },
    FunctionCall { call_id: String, name: String, arguments: Value },
    ToolOutput { call_id: String, name: String, result: ToolResult },
    TurnFinished { status: TraceTurnStatus },
}

/// What a `TraceEventKind` holds.
#[verifier::ext_equal]
pub enum TraceEventKindView {
    UserInput { text: Seq<char>, response_to: Option<Seq<char>> },
    ModelResponse { text: Option<Seq<char>>, function_calls: Seq<ModelFunctionCallView> },
    FunctionCall { call_id: Seq<char>, name: Seq<char>, arguments: Json },
    ToolOutput { call_id: Seq<char>, name: Seq<char>, result: ToolResultView },
    TurnFinished { status: TraceTurnStatus },
}

impl View for TraceEventKind {
    type V = TraceEventKindView;

    open spec fn view(&self) -> TraceEventKindView {
        match *self {
            TraceEventKind::UserInput { text, response_to } => TraceEventKindView::UserInput {
                text: text@,
                response_to: views::opt(response_to),
            },
            TraceEventKind::ModelResponse { text, function_calls } => {
                TraceEventKindView::ModelResponse {
                    text: views::opt(text),
                    function_calls: views::all(function_calls@),
                }
            },
            TraceEventKind::FunctionCall { call_id, name, arguments } => {
                TraceEventKindView::FunctionCall {
                    call_id: call_id@,
                    name: name@,
                    arguments: json::of(arguments),
                }
            },
            TraceEventKind::ToolOutput { call_id, name, result } => TraceEventKindView::ToolOutput {
                call_id: call_id@,
                name: name@,
                result: result@,
            },
            TraceEventKind::TurnFinished { status } => TraceEventKindView::TurnFinished { status },
        }
    }
}

impl Clone for TraceEventKind {
    fn clone(&self) -> (r: Self)
        ensures
            r@ == self@,
    {
        match self {
            TraceEventKind::UserInput { text, response_to } => {
                let copy_response_to = response_to.clone();
                assert(views::opt(copy_response_to) =~= views::opt((*response_to)));
                TraceEventKind::UserInput { text: text.clone(), response_to: copy_response_to }
            },
            TraceEventKind::ModelResponse { text, function_calls } => {
                let copy_text = text.clone();
                assert(views::opt(copy_text) =~= views::opt((*text)));
                let copy_function_calls = function_calls.clone();
                assert(views::all(copy_function_calls@) =~= views::all(function_calls@));
                TraceEventKind::ModelResponse {
                    text: copy_text,
                    function_calls: copy_function_calls,
                }
            },
            TraceEventKind::FunctionCall { call_id, name, arguments } => {
                TraceEventKind::FunctionCall {
                    call_id: call_id.clone(),
                    name: name.clone(),
                    arguments: copy_of(arguments),
                }
            },
            TraceEventKind::ToolOutput { call_id, name, result } => TraceEventKind::ToolOutput {
                call_id: call_id.clone(),
                name: name.clone(),
                result: result.clone(),
            },
            TraceEventKind::TurnFinished { status } => TraceEventKind::TurnFinished {
                status: *status,
            },
        }
    }
}

/// One step of a turn, numbered.
#[derive(Debug, PartialEq)]
pub struct TraceEvent {
    pub thread_id: String,
    pub turn_id: String,
    pub sequence: u64,
    pub occurred_at: String,
    pub kind: TraceEventKind,
}

/// What a `TraceEvent` holds.
#[verifier::ext_equal]
pub struct TraceEventView {
    pub thread_id: Seq<char>,
    pub turn_id: Seq<char>,
    pub sequence: u64,
    pub occurred_at: Seq<char>,
    pub kind: TraceEventKindView,
}

impl View for TraceEvent {
    type V = TraceEventView;

    open spec fn view(&self) -> TraceEventView {
        TraceEventView {
            thread_id: self.thread_id@,
            turn_id: self.turn_id@,
            sequence: self.sequence,
            occurred_at: self.occurred_at@,
            kind: self.kind@,
        }
    }
}

impl Clone for TraceEvent {
    fn clone(&self) -> (r: Self)
        ensures
            r@ == self@,
    {
        TraceEvent {
            thread_id: self.thread_id.clone(),
            turn_id: self.turn_id.clone(),
            sequence: self.sequence,
            occurred_at: self.occurred_at.clone(),
            kind: self.kind.clone(),
        }
    }
}

} // verus!
