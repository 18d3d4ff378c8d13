//! What a model is sent in plain messages, and how its answer is read.
use crate::agent_core::model::{
    self, OpenAiResponseMessage, OpenAiResponseMessageView, OpenAiToolCallView,
};
use crate::error::{AgentError, AgentErrorView};
use crate::json::{self, copy_of, list_value, parse, text_value, Fields, Json};
use crate::kernel::events::GoalStateView;
use crate::kernel::model::{
    FunctionSpec, FunctionSpecView, ModelFunctionCall, ModelFunctionCallView,
};
use crate::lite::projection::{
    ChatMessage, ChatMessageView, ChatRole, ThreadProjection, ThreadProjectionView,
};
use crate::runtime::context;
use crate::views;
use serde_json::Value;
use vstd::prelude::*;

verus! {

/// One request to a model.
#[derive(Debug, PartialEq)]
pub struct ModelRequest {
    pub messages: Vec<ChatMessage>,
    pub functions: Vec<FunctionSpec>,
}

/// What a `ModelRequest` holds.
#[verifier::ext_equal]
pub struct ModelRequestView {
    pub messages: Seq<ChatMessageView>,
    pub functions: Seq<FunctionSpecView>,
}

impl View for ModelRequest {
    type V = ModelRequestView;

    open spec fn view(&self) -> ModelRequestView {
        ModelRequestView {
            messages: views::all(self.messages@),
            functions: views::all(self.functions@),
        }
    }
}

impl Clone for ModelRequest {
    fn clone(&self) -> (r: Self)
        ensures
            r@ == self@,
    {
        let r = ModelRequest {
            messages: self.messages.clone(),
            functions: self.functions.clone(),
        };
        assert(views::all(r.messages@) =~= views::all(self.messages@));
        assert(views::all(r.functions@) =~= views::all(self.functions@));
        r
    }
}

/// The answer of a model.
#[derive(Debug, PartialEq)]
pub enum ModelResponse {
    AssistantMessage { text: String },
    FunctionCalls { calls: Vec<ModelFunctionCall> },
}

/// What a `ModelResponse` holds.
#[verifier::ext_equal]
pub enum ModelResponseView {
    AssistantMessage { text: Seq<char> },
    FunctionCalls { calls: Seq<ModelFunctionCallView> },
}

impl View for ModelResponse {
    type V = ModelResponseView;

    open spec fn view(&self) -> ModelResponseView {
        match *self {
            ModelResponse::AssistantMessage { text } => ModelResponseView::AssistantMessage {
                text: text@,
            },
            ModelResponse::FunctionCalls { calls } => ModelResponseView::FunctionCalls {
                calls: views::all(calls@),
            },
        }
    }
}

impl Clone for ModelResponse {
    fn clone(&self) -> (r: Self)
        ensures
            r@ == self@,
    {
        match self {
            ModelResponse::AssistantMessage { text } => ModelResponse::AssistantMessage {
                text: text.clone(),
            },
            ModelResponse::FunctionCalls { calls } => {
                let copy_calls = calls.clone();
                assert(views::all(copy_calls@) =~= views::all(calls@));
                ModelResponse::FunctionCalls { calls: copy_calls }
            },
        }
    }
}

/// The role of a message in words.
pub open spec fn role_text(role: ChatRole) -> Seq<char> {
    match role {
        ChatRole::System => "system"@,
        ChatRole::User => "user"@,
        ChatRole::Assistant => "assistant"@,
        ChatRole::Tool => "tool"@,
    }
}

/// A message as a JSON object. What it does not have is left out.
pub open spec fn message_body(message: ChatMessageView) -> Json {
    let plain = Map::<Seq<char>, Json>::empty().insert(
        "role"@,
        Json::Text(role_text(message.role)),
    ).insert("content"@, Json::Text(message.content));
    let named = match message.name {
        Some(name) => plain.insert("name"@, Json::Text(name)),
        None => plain,
    };
    Json::Fields(
        match message.tool_call_id {
            Some(id) => named.insert("tool_call_id"@, Json::Text(id)),
            None => named,
        },
    )
}

/// A request as a JSON object.
pub open spec fn request_body(model: Seq<char>, request: ModelRequestView) -> Json {
    Json::Fields(
        Map::<Seq<char>, Json>::empty().insert("model"@, Json::Text(model)).insert(
            "messages"@,
            Json::List(
                Seq::new(request.messages.len(), |i: int| message_body(request.messages[i])),
            ),
        ).insert(
            "tools"@,
            Json::List(
                Seq::new(request.functions.len(), |i: int| model::tool_body(request.functions[i])),
            ),
        ).insert("tool_choice"@, Json::Text("auto"@)).insert("stream"@, Json::Bool(false)),
    )
}

fn message_value(message: &ChatMessage) -> (r: Value)
    ensures
        json::of(r) == message_body(message@),
{
    let role = match message.role {
        ChatRole::System => "system",
        ChatRole::User => "user",
        ChatRole::Assistant => "assistant",
        ChatRole::Tool => "tool",
    };
    let mut fields = Fields::new().with_text("role", role).with_text(
        "content",
        message.content.as_str(),
    );
    if let Some(name) = &message.name {
        fields = fields.with_text("name", name.as_str());
    }
    if let Some(id) = &message.tool_call_id {
        fields = fields.with_text("tool_call_id", id.as_str());
    }
    fields.value()
}

/// The request as a JSON object.
pub fn request_value(model: &str, request: &ModelRequest) -> (r: Value)
    ensures
        json::of(r) == request_body(model@, request@),
{
    let mut messages: Vec<Value> = Vec::new();
    let mut i: usize = 0;
    while i < request.messages.len()
        invariant
            i <= request.messages@.len(),
            messages@.len() == i,
            forall|k: int|
                0 <= k < i ==> json::of(#[trigger] messages@[k]) == message_body(
                    request.messages@[k]@,
                ),
        decreases request.messages@.len() - i,
    {
        messages.push(message_value(&request.messages[i]));
        i = i + 1;
    }
    assert(json::all(messages@) =~= Seq::new(
        request@.messages.len(),
        |k: int| message_body(request@.messages[k]),
    ));
    let mut tools: Vec<Value> = Vec::new();
    let mut j: usize = 0;
    while j < request.functions.len()
        invariant
            j <= request.functions@.len(),
            tools@.len() == j,
            forall|k: int|
                0 <= k < j ==> json::of(#[trigger] tools@[k]) == model::tool_body(
                    request.functions@[k]@,
                ),
        decreases request.functions@.len() - j,
    {
        let function = Fields::new().with_text(
            "name",
            request.functions[j].name.as_str(),
        ).with_text("description", request.functions[j].description.as_str()).with(
            "parameters",
            copy_of(&request.functions[j].parameters),
        ).value();
        tools.push(Fields::new().with_text("type", "function").with("function", function).value());
        j = j + 1;
    }
    assert(json::all(tools@) =~= Seq::new(
        request@.functions.len(),
        |k: int| model::tool_body(request@.functions[k]),
    ));
    Fields::new().with_text("model", model).with("messages", list_value(messages)).with(
        "tools",
        list_value(tools),
    ).with_text("tool_choice", "auto").with_bool("stream", false).value()
}

/// A call whose arguments came as text. Text that is no JSON is taken as it is.
pub open spec fn received_call(call: OpenAiToolCallView) -> ModelFunctionCallView {
    ModelFunctionCallView {
        call_id: call.id,
        name: call.name,
        arguments: match json::json_read(call.arguments) {
            json::Reading::Document(arguments) => arguments,
            json::Reading::Refused(words) => Json::Text(call.arguments),
        },
    }
}

/// What the choices of an answer say: the first one counts, and calls come before
/// text.
pub open spec fn received(
    choices: Seq<OpenAiResponseMessageView>,
) -> Result<ModelResponseView, AgentErrorView> {
    if choices.len() == 0 {
        Err(AgentErrorView::Model("chat/completions returned no choices"@))
    } else {
        match choices[0].tool_calls {
            Some(calls) => Ok(
                ModelResponseView::FunctionCalls {
                    calls: Seq::new(calls.calls.len(), |i: int| received_call(calls.calls[i])),
                },
            ),
            None => match choices[0].content {
                Some(text) => Ok(ModelResponseView::AssistantMessage { text }),
                None => Err(
                    AgentErrorView::Model(
                        "chat/completions response had no content or tool calls"@,
                    ),
                ),
            },
        }
    }
}

/// What the choices of an answer say.
pub fn read_response(choices: &Vec<OpenAiResponseMessage>) -> (r: Result<
    ModelResponse,
    AgentError,
>)
    ensures
        views::res(r) == received(views::all(choices@)),
{
    if choices.len() == 0 {
        return Err(AgentError::Model("chat/completions returned no choices".to_string()));
    }
    match &choices[0].tool_calls {
        Some(tool_calls) => {
            let mut calls: Vec<ModelFunctionCall> = Vec::new();
            let mut i: usize = 0;
            while i < tool_calls.calls.len()
                invariant
                    i <= tool_calls.calls@.len(),
                    calls@.len() == i,
                    forall|k: int|
                        0 <= k < i ==> (#[trigger] calls@[k])@ == received_call(
                            tool_calls.calls@[k]@,
                        ),
                decreases tool_calls.calls@.len() - i,
            {
                let call = &tool_calls.calls[i];
                let arguments = match parse(call.arguments.as_str()) {
                    Ok(arguments) => arguments,
                    Err(_) => text_value(call.arguments.clone()),
                };
                calls.push(
                    ModelFunctionCall {
                        call_id: call.id.clone(),
                        name: call.name.clone(),
                        arguments,
                    },
                );
                i = i + 1;
            }
            assert(views::all(calls@) =~= Seq::new(
                tool_calls@.calls.len(),
                |k: int| received_call(tool_calls@.calls[k]),
            ));
            Ok(ModelResponse::FunctionCalls { calls })
        },
        None => match &choices[0].content {
            Some(text) => Ok(ModelResponse::AssistantMessage { text: text.clone() }),
            None => Err(
                AgentError::Model(
                    "chat/completions response had no content or tool calls".to_string(),
                ),
            ),
        },
    }
}

/// A message of the agent itself.
pub open spec fn instruction(content: Seq<char>) -> ChatMessageView {
    ChatMessageView { role: ChatRole::System, content, name: None, tool_call_id: None }
}

/// What is said about the goal.
pub open spec fn goal_words(goal: GoalStateView) -> Seq<char> {
    "Current thread goal: objective="@ + goal.objective + ", status="@ + context::status_name(
        goal.status,
    ) + ", notes="@ + (match goal.notes {
        Some(notes) => notes,
        None => ""@,
    })
}

/// The messages of a request: the instructions, the goal and the conversation.
pub open spec fn request_messages(
    prompt: Seq<char>,
    projection: ThreadProjectionView,
) -> Seq<ChatMessageView> {
    seq![instruction(prompt)] + (match projection.goal {
        Some(goal) => seq![instruction(goal_words(goal))],
        None => Seq::empty(),
    }) + projection.messages_for_model
}

/// The request that a state of the thread leads to.
pub fn model_request(
    prompt: &str,
    projection: ThreadProjection,
    functions: Vec<FunctionSpec>,
) -> (r: ModelRequest)
    ensures
        r@ == (ModelRequestView {
            messages: request_messages(prompt@, projection@),
            functions: views::all(functions@),
        }),
{
    let mut messages: Vec<ChatMessage> = Vec::new();
    messages.push(
        ChatMessage {
            role: ChatRole::System,
            content: prompt.to_string(),
            name: None,
            tool_call_id: None,
        },
    );
    if let Some(goal) = &projection.goal {
        let mut content = "Current thread goal: objective=".to_string();
        content.append(goal.objective.as_str());
        content.append(", status=");
        content.append(
            match goal.status {
                crate::kernel::events::GoalStatus::Active => "Active",
                crate::kernel::events::GoalStatus::Complete => "Complete",
                crate::kernel::events::GoalStatus::Blocked => "Blocked",
            },
        );
        content.append(", notes=");
        content.append(
            match &goal.notes {
                Some(notes) => notes.as_str(),
                None => "",
            },
        );
        messages.push(
            ChatMessage { role: ChatRole::System, content, name: None, tool_call_id: None },
        );
    }
    let mut conversation = projection.messages_for_model;
    messages.append(&mut conversation);
    assert(views::all(messages@) =~= request_messages(prompt@, projection@));
    ModelRequest { messages, functions }
}

} // verus!
