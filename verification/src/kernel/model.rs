//! What is asked of a model, and what it answers.
use crate::json::{self, copy_of, Json};
use crate::kernel::events::TokenUsage;
use crate::kernel::projection::{ChatMessage, ChatMessageView};
use crate::views;
use serde_json::Value;
use vstd::prelude::*;

verus! {

/// A function as it is offered to a model.
#[derive(Debug, PartialEq)]
pub struct FunctionSpec {
    pub name: String,
    pub description: String,
    pub parameters: Value,
}

/// What a `FunctionSpec` holds.
#[verifier::ext_equal]
pub struct FunctionSpecView {
    pub name: Seq<char>,
    pub description: Seq<char>,
    pub parameters: Json,
}

impl View for FunctionSpec {
    type V = FunctionSpecView;

    open spec fn view(&self) -> FunctionSpecView {
        FunctionSpecView {
            name: self.name@,
            description: self.description@,
            parameters: json::of(self.parameters),
        }
    }
}

impl Clone for FunctionSpec {
    fn clone(&self) -> (r: Self)
        ensures
            r@ == self@,
    {
        FunctionSpec {
            name: self.name.clone(),
            description: self.description.clone(),
            parameters: copy_of(&self.parameters),
        }
    }
}

/// A call that a model asks for.
#[derive(Debug, PartialEq)]
pub struct ModelFunctionCall {
    pub call_id: String,
    pub name: String,
    pub arguments: Value,
}

/// What a `ModelFunctionCall` holds.
#[verifier::ext_equal]
pub struct ModelFunctionCallView {
    pub call_id: Seq<char>,
    pub name: Seq<char>,
    pub arguments: Json,
}

impl View for ModelFunctionCall {
    type V = ModelFunctionCallView;

    open spec fn view(&self) -> ModelFunctionCallView {
        ModelFunctionCallView {
            call_id: self.call_id@,
            name: self.name@,
            arguments: json::of(self.arguments),
        }
    }
}

impl Clone for ModelFunctionCall {
    fn clone(&self) -> (r: Self)
        ensures
            r@ == self@,
    {
        ModelFunctionCall {
            call_id: self.call_id.clone(),
            name: self.name.clone(),
            arguments: copy_of(&self.arguments),
        }
    }
}

/// One request to a model.
#[derive(Debug, PartialEq)]
pub struct ModelRequest {
    pub messages: Vec<ChatMessage>,
    pub functions: Vec<FunctionSpec>,
}

/// What a `ModelRequest` holds.
#[verifier::ext_equal]
pub struct ModelRequestView {
    pub messages: Seq<ChatMessageView>,
    pub functions: Seq<FunctionSpecView>,
}

impl View for ModelRequest {
    type V = ModelRequestView;

    open spec fn view(&self) -> ModelRequestView {
        ModelRequestView {
            messages: views::all(self.messages@),
            functions: views::all(self.functions@),
        }
    }
}

impl Clone for ModelRequest {
    fn clone(&self) -> (r: Self)
        ensures
            r@ == self@,
    {
        let r = ModelRequest {
            messages: self.messages.clone(),
            functions: self.functions.clone(),
        };
        assert(views::all(r.messages@) =~= views::all(self.messages@));
        assert(views::all(r.functions@) =~= views::all(self.functions@));
        r
    }
}

/// The answer of a model.
#[derive(Debug, PartialEq)]
pub enum ModelResponse {
    AssistantMessage { text: String },
    FunctionCalls { calls: Vec<ModelFunctionCall> },
    Assistant { text: Option<String>, function_calls: Vec<ModelFunctionCall> },
}

/// What a `ModelResponse` holds.
#[verifier::ext_equal]
pub enum ModelResponseView {
    AssistantMessage { text: Seq<char> },
    FunctionCalls { calls: Seq<ModelFunctionCallView> },
    Assistant { text: Option<Seq<char>>, function_calls: Seq<ModelFunctionCallView> },
}

impl View for ModelResponse {
    type V = ModelResponseView;

    open spec fn view(&self) -> ModelResponseView {
        match *self {
            ModelResponse::AssistantMessage { text } => ModelResponseView::AssistantMessage {
                text: text@,
            },
            ModelResponse::FunctionCalls { calls } => ModelResponseView::FunctionCalls {
                calls: views::all(calls@),
            },
            ModelResponse::Assistant { text, function_calls } => ModelResponseView::Assistant {
                text: views::opt(text),
                function_calls: views::all(function_calls@),
            },
        }
    }
}

impl Clone for ModelResponse {
    fn clone(&self) -> (r: Self)
        ensures
            r@ == self@,
    {
        match self {
            ModelResponse::AssistantMessage { text } => ModelResponse::AssistantMessage {
                text: text.clone(),
            },
            ModelResponse::FunctionCalls { calls } => {
                let copy_calls = calls.clone();
                assert(views::all(copy_calls@) =~= views::all(calls@));
                ModelResponse::FunctionCalls { calls: copy_calls }
            },
            ModelResponse::Assistant { text, function_calls } => {
                let copy_text = text.clone();
                assert(views::opt(copy_text) =~= views::opt((*text)));
                let copy_function_calls = function_calls.clone();
                assert(views::all(copy_function_calls@) =~= views::all(function_calls@));
                ModelResponse::Assistant { text: copy_text, function_calls: copy_function_calls }
            },
        }
    }
}

/// What a model reports while it answers.
#[derive(Debug, PartialEq)]
pub enum ModelStreamEvent {
    AssistantDelta { text: String },
    TokenUsage { usage: TokenUsage },
}

/// What a `ModelStreamEvent` holds.
#[verifier::ext_equal]
pub enum ModelStreamEventView {
    AssistantDelta { text: Seq<char> },
    TokenUsage { usage: TokenUsage },
}

impl View for ModelStreamEvent {
    type V = ModelStreamEventView;

    open spec fn view(&self) -> ModelStreamEventView {
        match *self {
            ModelStreamEvent::AssistantDelta { text } => ModelStreamEventView::AssistantDelta {
                text: text@,
            },
            ModelStreamEvent::TokenUsage { usage } => ModelStreamEventView::TokenUsage { usage },
        }
    }
}

impl Clone for ModelStreamEvent {
    fn clone(&self) -> (r: Self)
        ensures
            r@ == self@,
    {
        match self {
            ModelStreamEvent::AssistantDelta { text } => ModelStreamEvent::AssistantDelta {
                text: text.clone(),
            },
            ModelStreamEvent::TokenUsage { usage } => ModelStreamEvent::TokenUsage {
                usage: *usage,
            },
        }
    }
}

} // verus!
