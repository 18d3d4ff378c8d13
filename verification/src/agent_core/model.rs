//! The client of a model that is reached over HTTP: what it sends and how it reads
//! what comes back.
use crate::error::{AgentError, AgentErrorView};
use crate::json::copy_of;
use crate::json::{self, list_value, parse, value_text, Fields, Json};
use crate::kernel::model::{
    FunctionSpec, FunctionSpecView, ModelFunctionCall, ModelFunctionCallView, ModelRequest,
    ModelRequestView, ModelResponse, ModelResponseView, ModelStreamEvent, ModelStreamEventView,
};
use crate::kernel::projection::{ChatMessage, ChatMessageView};
use crate::text::{
    self, chars_of, joined, lossy_text_of, strip_prefix, text_eq, text_of, trim, trim_end_char,
};
use crate::views;
use serde_json::Value;
use vstd::prelude::*;

verus! {

/// Where a model is reached.
#[derive(Debug)]
pub struct ModelConfig {
    pub base_url: String,
    pub api_key: String,
    pub model: String,
}

/// What a `ModelConfig` holds.
#[verifier::ext_equal]
pub struct ModelConfigView {
    pub base_url: Seq<char>,
    pub api_key: Seq<char>,
    pub model: Seq<char>,
}

impl View for ModelConfig {
    type V = ModelConfigView;

    open spec fn view(&self) -> ModelConfigView {
        ModelConfigView {
            base_url: self.base_url@,
            api_key: self.api_key@,
            model: self.model@,
        }
    }
}

impl Clone for ModelConfig {
    fn clone(&self) -> (r: Self)
        ensures
            r@ == self@,
    {
        ModelConfig {
            base_url: self.base_url.clone(),
            api_key: self.api_key.clone(),
            model: self.model.clone(),
        }
    }
}

/// A call of an earlier answer, as it is sent back.
#[derive(Debug, PartialEq)]
pub struct OpenAiRequestToolCall {
    pub id: String,
    pub name: String,
    pub arguments: String,
}

/// What a `OpenAiRequestToolCall` holds.
#[verifier::ext_equal]
pub struct OpenAiRequestToolCallView {
    pub id: Seq<char>,
    pub name: Seq<char>,
    pub arguments: Seq<char>,
}

impl View for OpenAiRequestToolCall {
    type V = OpenAiRequestToolCallView;

    open spec fn view(&self) -> OpenAiRequestToolCallView {
        OpenAiRequestToolCallView {
            id: self.id@,
            name: self.name@,
            arguments: self.arguments@,
        }
    }
}

impl Clone for OpenAiRequestToolCall {
    fn clone(&self) -> (r: Self)
        ensures
            r@ == self@,
    {
        OpenAiRequestToolCall {
            id: self.id.clone(),
            name: self.name.clone(),
            arguments: self.arguments.clone(),
        }
    }
}

/// A message as it is sent.
#[derive(Debug, PartialEq)]
pub struct OpenAiMessage {
    pub role: String,
    pub content: Option<String>,
    pub tool_call_id: Option<String>,
    pub tool_calls: Vec<OpenAiRequestToolCall>,
}

/// What a `OpenAiMessage` holds.
#[verifier::ext_equal]
pub struct OpenAiMessageView {
    pub role: Seq<char>,
    pub content: Option<Seq<char>>,
    pub tool_call_id: Option<Seq<char>>,
    pub tool_calls: Seq<OpenAiRequestToolCallView>,
}

impl View for OpenAiMessage {
    type V = OpenAiMessageView;

    open spec fn view(&self) -> OpenAiMessageView {
        OpenAiMessageView {
            role: self.role@,
            content: views::opt(self.content),
            tool_call_id: views::opt(self.tool_call_id),
            tool_calls: views::all(self.tool_calls@),
        }
    }
}

impl Clone for OpenAiMessage {
    fn clone(&self) -> (r: Self)
        ensures
            r@ == self@,
    {
        let r = OpenAiMessage {
            role: self.role.clone(),
            content: self.content.clone(),
            tool_call_id: self.tool_call_id.clone(),
            tool_calls: self.tool_calls.clone(),
        };
        assert(views::opt(r.content) =~= views::opt(self.content));
        assert(views::opt(r.tool_call_id) =~= views::opt(self.tool_call_id));
        assert(views::all(r.tool_calls@) =~= views::all(self.tool_calls@));
        r
    }
}

/// A request as it is sent.
#[derive(Debug, PartialEq)]
pub struct OpenAiChatRequest {
    pub model: String,
    pub messages: Vec<OpenAiMessage>,
    pub tools: Vec<FunctionSpec>,
    pub stream: bool,
}

/// What a `OpenAiChatRequest` holds.
#[verifier::ext_equal]
pub struct OpenAiChatRequestView {
    pub model: Seq<char>,
    pub messages: Seq<OpenAiMessageView>,
    pub tools: Seq<FunctionSpecView>,
    pub stream: bool,
}

impl View for OpenAiChatRequest {
    type V = OpenAiChatRequestView;

    open spec fn view(&self) -> OpenAiChatRequestView {
        OpenAiChatRequestView {
            model: self.model@,
            messages: views::all(self.messages@),
            tools: views::all(self.tools@),
            stream: self.stream,
        }
    }
}

impl Clone for OpenAiChatRequest {
    fn clone(&self) -> (r: Self)
        ensures
            r@ == self@,
    {
        let r = OpenAiChatRequest {
            model: self.model.clone(),
            messages: self.messages.clone(),
            tools: self.tools.clone(),
            stream: self.stream,
        };
        assert(views::all(r.messages@) =~= views::all(self.messages@));
        assert(views::all(r.tools@) =~= views::all(self.tools@));
        r
    }
}

/// A call in an answer.
#[derive(Debug, PartialEq)]
pub struct OpenAiToolCall {
    pub id: String,
    pub name: String,
    pub arguments: String,
}

/// What a `OpenAiToolCall` holds.
#[verifier::ext_equal]
pub struct OpenAiToolCallView {
    pub id: Seq<char>,
    pub name: Seq<char>,
    pub arguments: Seq<char>,
}

impl View for OpenAiToolCall {
    type V = OpenAiToolCallView;

    open spec fn view(&self) -> OpenAiToolCallView {
        OpenAiToolCallView {
            id: self.id@,
            name: self.name@,
            arguments: self.arguments@,
        }
    }
}

impl Clone for OpenAiToolCall {
    fn clone(&self) -> (r: Self)
        ensures
            r@ == self@,
    {
        OpenAiToolCall {
            id: self.id.clone(),
            name: self.name.clone(),
            arguments: self.arguments.clone(),
        }
    }
}

/// An answer.
#[derive(Debug, PartialEq)]
pub struct OpenAiResponseMessage {
    pub content: Option<String>,
    pub tool_calls: Option<OpenAiToolCalls>,
}

/// What a `OpenAiResponseMessage` holds.
#[verifier::ext_equal]
pub struct OpenAiResponseMessageView {
    pub content: Option<Seq<char>>,
    pub tool_calls: Option<OpenAiToolCallsView>,
}

impl View for OpenAiResponseMessage {
    type V = OpenAiResponseMessageView;

    open spec fn view(&self) -> OpenAiResponseMessageView {
        OpenAiResponseMessageView {
            content: views::opt(self.content),
            tool_calls: views::opt(self.tool_calls),
        }
    }
}

impl Clone for OpenAiResponseMessage {
    fn clone(&self) -> (r: Self)
        ensures
            r@ == self@,
    {
        let r = OpenAiResponseMessage {
            content: self.content.clone(),
            tool_calls: self.tool_calls.clone(),
        };
        assert(views::opt(r.content) =~= views::opt(self.content));
        assert(views::opt(r.tool_calls) =~= views::opt(self.tool_calls));
        r
    }
}

/// The calls of an answer.
#[derive(Debug, PartialEq)]
pub struct OpenAiToolCalls {
    pub calls: Vec<OpenAiToolCall>,
}

/// What a `OpenAiToolCalls` holds.
#[verifier::ext_equal]
pub struct OpenAiToolCallsView {
    pub calls: Seq<OpenAiToolCallView>,
}

impl View for OpenAiToolCalls {
    type V = OpenAiToolCallsView;

    open spec fn view(&self) -> OpenAiToolCallsView {
        OpenAiToolCallsView {
            calls: views::all(self.calls@),
        }
    }
}

impl Clone for OpenAiToolCalls {
    fn clone(&self) -> (r: Self)
        ensures
            r@ == self@,
    {
        let r = OpenAiToolCalls {
            calls: self.calls.clone(),
        };
        assert(views::all(r.calls@) =~= views::all(self.calls@));
        r
    }
}

/// A piece of a call in an answer that comes bit by bit.
#[derive(Debug, PartialEq)]
pub struct OpenAiStreamToolCall {
    pub index: usize,
    pub id: Option<String>,
    pub name: Option<String>,
    pub arguments: Option<String>,
}

/// What a `OpenAiStreamToolCall` holds.
#[verifier::ext_equal]
pub struct OpenAiStreamToolCallView {
    pub index: usize,
    pub id: Option<Seq<char>>,
    pub name: Option<Seq<char>>,
    pub arguments: Option<Seq<char>>,
}

impl View for OpenAiStreamToolCall {
    type V = OpenAiStreamToolCallView;

    open spec fn view(&self) -> OpenAiStreamToolCallView {
        OpenAiStreamToolCallView {
            index: self.index,
            id: views::opt(self.id),
            name: views::opt(self.name),
            arguments: views::opt(self.arguments),
        }
    }
}

impl Clone for OpenAiStreamToolCall {
    fn clone(&self) -> (r: Self)
        ensures
            r@ == self@,
    {
        let r = OpenAiStreamToolCall {
            index: self.index,
            id: self.id.clone(),
            name: self.name.clone(),
            arguments: self.arguments.clone(),
        };
        assert(views::opt(r.id) =~= views::opt(self.id));
        assert(views::opt(r.name) =~= views::opt(self.name));
        assert(views::opt(r.arguments) =~= views::opt(self.arguments));
        r
    }
}

/// A piece of an answer that comes bit by bit.
#[derive(Debug, PartialEq)]
pub struct OpenAiStreamDelta {
    pub content: Option<String>,
    pub tool_calls: Vec<OpenAiStreamToolCall>,
}

/// What a `OpenAiStreamDelta` holds.
#[verifier::ext_equal]
pub struct OpenAiStreamDeltaView {
    pub content: Option<Seq<char>>,
    pub tool_calls: Seq<OpenAiStreamToolCallView>,
}

impl View for OpenAiStreamDelta {
    type V = OpenAiStreamDeltaView;

    open spec fn view(&self) -> OpenAiStreamDeltaView {
        OpenAiStreamDeltaView {
            content: views::opt(self.content),
            tool_calls: views::all(self.tool_calls@),
        }
    }
}

impl Clone for OpenAiStreamDelta {
    fn clone(&self) -> (r: Self)
        ensures
            r@ == self@,
    {
        let r = OpenAiStreamDelta {
            content: self.content.clone(),
            tool_calls: self.tool_calls.clone(),
        };
        assert(views::opt(r.content) =~= views::opt(self.content));
        assert(views::all(r.tool_calls@) =~= views::all(self.tool_calls@));
        r
    }
}

/// A call as far as it has come.
#[derive(Debug, PartialEq)]
pub struct PartialToolCall {
    pub call_id: Option<String>,
    pub name: Option<String>,
    pub arguments: String,
}

/// What a `PartialToolCall` holds.
#[verifier::ext_equal]
pub struct PartialToolCallView {
    pub call_id: Option<Seq<char>>,
    pub name: Option<Seq<char>>,
    pub arguments: Seq<char>,
}

impl View for PartialToolCall {
    type V = PartialToolCallView;

    open spec fn view(&self) -> PartialToolCallView {
        PartialToolCallView {
            call_id: views::opt(self.call_id),
            name: views::opt(self.name),
            arguments: self.arguments@,
        }
    }
}

impl Clone for PartialToolCall {
    fn clone(&self) -> (r: Self)
        ensures
            r@ == self@,
    {
        let r = PartialToolCall {
            call_id: self.call_id.clone(),
            name: self.name.clone(),
            arguments: self.arguments.clone(),
        };
        assert(views::opt(r.call_id) =~= views::opt(self.call_id));
        assert(views::opt(r.name) =~= views::opt(self.name));
        r
    }
}

// ---------------------------------------------------------------------------
// What is sent

/// Where completions are asked for.
pub open spec fn completions_url(base_url: Seq<char>) -> Seq<char> {
    text::without_trailing(base_url, '/') + "/chat/completions"@
}

impl ModelConfig {
    /// Where completions are asked for.
    pub fn completions_url(&self) -> (r: String)
        ensures
            r@ == completions_url(self@.base_url),
    {
        joined(trim_end_char(self.base_url.as_str(), '/').as_str(), "/chat/completions")
    }
}

/// A call of an earlier answer, as it is sent back: with its arguments as text.
pub open spec fn sent_call(call: ModelFunctionCallView) -> OpenAiRequestToolCallView {
    OpenAiRequestToolCallView {
        id: call.call_id,
        name: call.name,
        arguments: json::json_text(call.arguments),
    }
}

/// A message as it is sent.
pub open spec fn sent_message(message: ChatMessageView) -> OpenAiMessageView {
    match message {
        ChatMessageView::System { content } => OpenAiMessageView {
            role: "system"@,
            content: Some(content),
            tool_call_id: None,
            tool_calls: Seq::empty(),
        },
        ChatMessageView::User { content } => OpenAiMessageView {
            role: "user"@,
            content: Some(content),
            tool_call_id: None,
            tool_calls: Seq::empty(),
        },
        ChatMessageView::Assistant { content, tool_calls } => OpenAiMessageView {
            role: "assistant"@,
            content,
            tool_call_id: None,
            tool_calls: Seq::new(tool_calls.len(), |i: int| sent_call(tool_calls[i])),
        },
        ChatMessageView::Tool { tool_call_id, name, content } => OpenAiMessageView {
            role: "tool"@,
            content: Some(json::json_text(content)),
            tool_call_id: Some(tool_call_id),
            tool_calls: Seq::empty(),
        },
    }
}

/// A request as it is sent.
pub open spec fn sent_request(
    model: Seq<char>,
    request: ModelRequestView,
    stream: bool,
) -> OpenAiChatRequestView {
    OpenAiChatRequestView {
        model,
        messages: Seq::new(request.messages.len(), |i: int| sent_message(request.messages[i])),
        tools: request.functions,
        stream,
    }
}

impl OpenAiMessage {
    /// A message as it is sent.
    pub fn from_message(message: ChatMessage) -> (r: Self)
        ensures
            r@ == sent_message(message@),
    {
        match message {
            ChatMessage::System { content } => OpenAiMessage::plain("system", content),
            ChatMessage::User { content } => OpenAiMessage::plain("user", content),
            ChatMessage::Assistant { content, tool_calls } => {
                let mut calls: Vec<OpenAiRequestToolCall> = Vec::new();
                let mut i: usize = 0;
                while i < tool_calls.len()
                    invariant
                        i <= tool_calls@.len(),
                        calls@.len() == i,
                        forall|k: int|
                            0 <= k < i ==> (#[trigger] calls@[k])@ == sent_call(tool_calls@[k]@),
                    decreases tool_calls@.len() - i,
                {
                    calls.push(
                        OpenAiRequestToolCall {
                            id: tool_calls[i].call_id.clone(),
                            name: tool_calls[i].name.clone(),
                            arguments: value_text(&tool_calls[i].arguments),
                        },
                    );
                    i = i + 1;
                }
                assert(views::all(calls@) =~= Seq::new(
                    tool_calls@.len(),
                    |k: int| sent_call(views::all(tool_calls@)[k]),
                ));
                OpenAiMessage {
                    role: "assistant".to_string(),
                    content,
                    tool_call_id: None,
                    tool_calls: calls,
                }
            },
            ChatMessage::Tool { tool_call_id, name: _, content } => {
                let r = OpenAiMessage {
                    role: "tool".to_string(),
                    content: Some(value_text(&content)),
                    tool_call_id: Some(tool_call_id),
                    tool_calls: Vec::new(),
                };
                assert(r@.tool_calls =~= Seq::<OpenAiRequestToolCallView>::empty());
                r
            },
        }
    }

    fn plain(role: &str, content: String) -> (r: Self)
        ensures
            r@ == (OpenAiMessageView {
                role: role@,
                content: Some(content@),
                tool_call_id: None,
                tool_calls: Seq::empty(),
            }),
    {
        let r = OpenAiMessage {
            role: role.to_string(),
            content: Some(content),
            tool_call_id: None,
            tool_calls: Vec::new(),
        };
        assert(r@.tool_calls =~= Seq::<OpenAiRequestToolCallView>::empty());
        r
    }

    /// The message as a JSON object.
    pub fn to_value(&self) -> (r: Value)
        ensures
            json::of(r) == message_body(self@),
    {
        let mut fields = Fields::new().with_text("role", self.role.as_str());
        if let Some(content) = &self.content {
            fields = fields.with_text("content", content.as_str());
        }
        if let Some(id) = &self.tool_call_id {
            fields = fields.with_text("tool_call_id", id.as_str());
        }
        if self.tool_calls.len() > 0 {
            let mut calls: Vec<Value> = Vec::new();
            let mut i: usize = 0;
            while i < self.tool_calls.len()
                invariant
                    i <= self.tool_calls@.len(),
                    calls@.len() == i,
                    forall|k: int|
                        0 <= k < i ==> json::of(#[trigger] calls@[k]) == call_body(
                            self.tool_calls@[k]@,
                        ),
                decreases self.tool_calls@.len() - i,
            {
                let function = Fields::new().with_text(
                    "name",
                    self.tool_calls[i].name.as_str(),
                ).with_text("arguments", self.tool_calls[i].arguments.as_str()).value();
                calls.push(
                    Fields::new().with_text("id", self.tool_calls[i].id.as_str()).with_text(
                        "type",
                        "function",
                    ).with("function", function).value(),
                );
                i = i + 1;
            }
            assert(json::all(calls@) =~= Seq::new(
                self@.tool_calls.len(),
                |k: int| call_body(self@.tool_calls[k]),
            ));
            fields = fields.with("tool_calls", list_value(calls));
        }
        fields.value()
    }
}

/// A call of an earlier answer as a JSON object.
pub open spec fn call_body(call: OpenAiRequestToolCallView) -> Json {
    let none = Map::<Seq<char>, Json>::empty();
    Json::Fields(
        none.insert("id"@, Json::Text(call.id)).insert("type"@, Json::Text("function"@)).insert(
            "function"@,
            Json::Fields(
                none.insert("name"@, Json::Text(call.name)).insert(
                    "arguments"@,
                    Json::Text(call.arguments),
                ),
            ),
        ),
    )
}

/// A message as a JSON object. What it does not have is left out.
pub open spec fn message_body(message: OpenAiMessageView) -> Json {
    let role = Map::<Seq<char>, Json>::empty().insert("role"@, Json::Text(message.role));
    let content = match message.content {
        Some(text) => role.insert("content"@, Json::Text(text)),
        None => role,
    };
    let answered = match message.tool_call_id {
        Some(id) => content.insert("tool_call_id"@, Json::Text(id)),
        None => content,
    };
    Json::Fields(
        if message.tool_calls.len() > 0 {
            answered.insert(
                "tool_calls"@,
                Json::List(
                    Seq::new(message.tool_calls.len(), |i: int| call_body(message.tool_calls[i])),
                ),
            )
        } else {
            answered
        },
    )
}

/// A function as it is offered.
pub open spec fn tool_body(function: FunctionSpecView) -> Json {
    let none = Map::<Seq<char>, Json>::empty();
    Json::Fields(
        none.insert("type"@, Json::Text("function"@)).insert(
            "function"@,
            Json::Fields(
                none.insert("name"@, Json::Text(function.name)).insert(
                    "description"@,
                    Json::Text(function.description),
                ).insert("parameters"@, function.parameters),
            ),
        ),
    )
}

/// A request as a JSON object.
pub open spec fn request_body(request: OpenAiChatRequestView) -> Json {
    Json::Fields(
        Map::<Seq<char>, Json>::empty().insert("model"@, Json::Text(request.model)).insert(
            "messages"@,
            Json::List(
                Seq::new(request.messages.len(), |i: int| message_body(request.messages[i])),
            ),
        ).insert(
            "tools"@,
            Json::List(Seq::new(request.tools.len(), |i: int| tool_body(request.tools[i]))),
        ).insert("tool_choice"@, Json::Text("auto"@)).insert("stream"@, Json::Bool(request.stream)),
    )
}

impl OpenAiChatRequest {
    /// A request as it is sent.
    pub fn from_model_request(model: &str, request: ModelRequest, stream: bool) -> (r: Self)
        ensures
            r@ == sent_request(model@, request@, stream),
    {
        let mut messages: Vec<OpenAiMessage> = Vec::new();
        let mut i: usize = 0;
        while i < request.messages.len()
            invariant
                i <= request.messages@.len(),
                messages@.len() == i,
                forall|k: int|
                    0 <= k < i ==> (#[trigger] messages@[k])@ == sent_message(
                        request.messages@[k]@,
                    ),
            decreases request.messages@.len() - i,
        {
            messages.push(OpenAiMessage::from_message(request.messages[i].clone()));
            i = i + 1;
        }
        assert(views::all(messages@) =~= Seq::new(
            request@.messages.len(),
            |k: int| sent_message(request@.messages[k]),
        ));
        OpenAiChatRequest { model: model.to_string(), messages, tools: request.functions, stream }
    }

    /// The request as a JSON object.
    pub fn to_value(&self) -> (r: Value)
        ensures
            json::of(r) == request_body(self@),
    {
        let mut messages: Vec<Value> = Vec::new();
        let mut i: usize = 0;
        while i < self.messages.len()
            invariant
                i <= self.messages@.len(),
                messages@.len() == i,
                forall|k: int|
                    0 <= k < i ==> json::of(#[trigger] messages@[k]) == message_body(
                        self.messages@[k]@,
                    ),
            decreases self.messages@.len() - i,
        {
            messages.push(self.messages[i].to_value());
            i = i + 1;
        }
        assert(json::all(messages@) =~= Seq::new(
            self@.messages.len(),
            |k: int| message_body(self@.messages[k]),
        ));
        let mut tools: Vec<Value> = Vec::new();
        let mut j: usize = 0;
        while j < self.tools.len()
            invariant
                j <= self.tools@.len(),
                tools@.len() == j,
                forall|k: int|
                    0 <= k < j ==> json::of(#[trigger] tools@[k]) == tool_body(self.tools@[k]@),
            decreases self.tools@.len() - j,
        {
            let function = Fields::new().with_text("name", self.tools[j].name.as_str()).with_text(
                "description",
                self.tools[j].description.as_str(),
            ).with("parameters", copy_of(&self.tools[j].parameters)).value();
            tools.push(
                Fields::new().with_text("type", "function").with("function", function).value(),
            );
            j = j + 1;
        }
        assert(json::all(tools@) =~= Seq::new(
            self@.tools.len(),
            |k: int| tool_body(self@.tools[k]),
        ));
        Fields::new().with_text("model", self.model.as_str()).with(
            "messages",
            list_value(messages),
        ).with("tools", list_value(tools)).with_text("tool_choice", "auto").with_bool(
            "stream",
            self.stream,
        ).value()
    }
}

// ---------------------------------------------------------------------------
// A whole answer

/// The words for a request that the server refused.
pub open spec fn refusal_words(status: Seq<char>, raw: Seq<char>, stream: bool) -> Seq<char> {
    "HTTP status "@ + status + (if stream {
        " for streamed chat/completions: "@
    } else {
        " for chat/completions: "@
    }) + raw
}

/// The error for a request that the server refused.
pub fn http_refusal(status: &str, raw: &str, stream: bool) -> (r: AgentError)
    ensures
        r@ == AgentErrorView::Http(refusal_words(status@, raw@, stream)),
{
    let mut words = joined("HTTP status ", status);
    words.append(
        if stream {
            " for streamed chat/completions: "
        } else {
            " for chat/completions: "
        },
    );
    words.append(raw);
    AgentError::Http(words)
}

/// A call whose arguments came as text.
pub open spec fn received_call(
    call: OpenAiToolCallView,
) -> Result<ModelFunctionCallView, AgentErrorView> {
    match json::json_read(call.arguments) {
        json::Reading::Document(arguments) => Ok(
            ModelFunctionCallView { call_id: call.id, name: call.name, arguments },
        ),
        json::Reading::Refused(words) => Err(
            AgentErrorView::Model(
                "invalid JSON arguments for tool call "@ + call.id + ": "@ + words,
            ),
        ),
    }
}

/// Calls whose arguments came as text, or the first error among them.
pub open spec fn received_calls(
    calls: Seq<OpenAiToolCallView>,
) -> Result<Seq<ModelFunctionCallView>, AgentErrorView>
    decreases calls.len(),
{
    if calls.len() == 0 {
        Ok(Seq::empty())
    } else {
        match received_calls(calls.drop_last()) {
            Err(e) => Err(e),
            Ok(earlier) => match received_call(calls.last()) {
                Err(e) => Err(e),
                Ok(call) => Ok(earlier.push(call)),
            },
        }
    }
}

/// What the choices of an answer say: the first one counts, and calls come before
/// text.
pub open spec fn received(
    choices: Seq<OpenAiResponseMessageView>,
) -> Result<ModelResponseView, AgentErrorView> {
    if choices.len() == 0 {
        Err(AgentErrorView::Model("chat/completions returned no choices"@))
    } else {
        match choices[0].tool_calls {
            Some(calls) => match received_calls(calls.calls) {
                Ok(calls) => Ok(ModelResponseView::FunctionCalls { calls }),
                Err(e) => Err(e),
            },
            None => match choices[0].content {
                Some(text) => Ok(ModelResponseView::AssistantMessage { text }),
                None => Err(
                    AgentErrorView::Model(
                        "chat/completions response had no content or tool calls"@,
                    ),
                ),
            },
        }
    }
}

/// What the choices of an answer say.
pub fn read_response(choices: &Vec<OpenAiResponseMessage>) -> (r: Result<
    ModelResponse,
    AgentError,
>)
    ensures
        views::res(r) == received(views::all(choices@)),
{
    if choices.len() == 0 {
        return Err(AgentError::Model("chat/completions returned no choices".to_string()));
    }
    match &choices[0].tool_calls {
        Some(tool_calls) => {
            let ghost all_calls = views::all(tool_calls.calls@);
            let mut calls: Vec<ModelFunctionCall> = Vec::new();
            let mut i: usize = 0;
            assert(all_calls.take(0) =~= Seq::<OpenAiToolCallView>::empty());
            assert(views::all(calls@) =~= Seq::<ModelFunctionCallView>::empty());
            while i < tool_calls.calls.len()
                invariant
                    i <= tool_calls.calls@.len(),
                    all_calls == views::all(tool_calls.calls@),
                    choices@.len() > 0,
                    views::all(choices@)[0].tool_calls == Some(tool_calls@),
                    received_calls(all_calls.take(i as int)) == Ok::<
                        Seq<ModelFunctionCallView>,
                        AgentErrorView,
                    >(views::all(calls@)),
                decreases tool_calls.calls@.len() - i,
            {
                let call = &tool_calls.calls[i];
                let ghost so_far = all_calls.take(i + 1);
                assert(so_far.drop_last() =~= all_calls.take(i as int));
                assert(so_far.last() == call@);
                match parse(call.arguments.as_str()) {
                    Ok(arguments) => {
                        let ghost before = calls@;
                        calls.push(
                            ModelFunctionCall {
                                call_id: call.id.clone(),
                                name: call.name.clone(),
                                arguments,
                            },
                        );
                        assert(views::all(calls@) =~= views::all(before).push(calls@.last()@));
                    },
                    Err(words) => {
                        let mut message = joined(
                            "invalid JSON arguments for tool call ",
                            call.id.as_str(),
                        );
                        message.append(": ");
                        message.append(words.as_str());
                        proof {
                            lemma_first_error(all_calls, i + 1);
                        }
                        return Err(AgentError::Model(message));
                    },
                }
                i = i + 1;
            }
            assert(all_calls.take(i as int) =~= all_calls);
            Ok(ModelResponse::FunctionCalls { calls })
        },
        None => match &choices[0].content {
            Some(text) => Ok(ModelResponse::AssistantMessage { text: text.clone() }),
            None => Err(
                AgentError::Model(
                    "chat/completions response had no content or tool calls".to_string(),
                ),
            ),
        },
    }
}

proof fn lemma_first_error(calls: Seq<OpenAiToolCallView>, n: int)
    requires
        0 <= n <= calls.len(),
        received_calls(calls.take(n)) is Err,
    ensures
        received_calls(calls) == received_calls(calls.take(n)),
    decreases calls.len() - n,
{
    if n == calls.len() {
        assert(calls.take(n) =~= calls);
    } else {
        assert(calls.take(n + 1).drop_last() =~= calls.take(n));
        lemma_first_error(calls, n + 1);
    }
}

/// What is reported of an answer that came as a whole.
pub open spec fn reply_told(response: ModelResponseView) -> Seq<ModelStreamEventView> {
    match response {
        ModelResponseView::AssistantMessage { text } => seq![
            ModelStreamEventView::AssistantDelta { text },
        ],
        _ => Seq::empty(),
    }
}

/// What is reported of an answer that came as a whole.
pub fn whole_reply_events(response: &ModelResponse) -> (r: Vec<ModelStreamEvent>)
    ensures
        views::all(r@) == reply_told(response@),
{
    let mut events: Vec<ModelStreamEvent> = Vec::new();
    if let ModelResponse::AssistantMessage { text } = response {
        events.push(ModelStreamEvent::AssistantDelta { text: text.clone() });
    }
    assert(views::all(events@) =~= reply_told(response@));
    events
}

// ---------------------------------------------------------------------------
// Frames

/// Where the first empty line of a text begins.
pub open spec fn frame_end(text: Seq<char>) -> Option<int>
    decreases text.len(),
{
    if text.len() < 2 {
        None
    } else if text[0] == '\n' && text[1] == '\n' {
        Some(0)
    } else {
        match frame_end(text.skip(1)) {
            Some(i) => Some(i + 1),
            None => None,
        }
    }
}

/// The first empty line lies within the text.
pub proof fn lemma_frame_end(text: Seq<char>)
    ensures
        frame_end(text) matches Some(i) ==> 0 <= i && i + 2 <= text.len() && text[i] == '\n'
            && text[i + 1] == '\n',
    decreases text.len(),
{
    if text.len() >= 2 && !(text[0] == '\n' && text[1] == '\n') {
        lemma_frame_end(text.skip(1));
    }
}

/// The parts of a text that end in an empty line.
pub open spec fn frames(text: Seq<char>) -> Seq<Seq<char>>
    decreases text.len(),
    via frames_end
{
    match frame_end(text) {
        Some(i) => seq![text.take(i)] + frames(text.skip(i + 2)),
        None => Seq::empty(),
    }
}

#[via_fn]
proof fn frames_end(text: Seq<char>) {
    lemma_frame_end(text);
}

/// What is left to be read when nothing more comes: what came after the last whole
/// frame, unless it is white space.
pub open spec fn left_over(stream: ChatStreamView) -> Option<Seq<char>> {
    if text::trimmed(stream.buffer).len() > 0 {
        Some(stream.buffer)
    } else {
        None
    }
}

/// What follows the last empty line of a text.
pub open spec fn unfinished(text: Seq<char>) -> Seq<char>
    decreases text.len(),
    via unfinished_end
{
    match frame_end(text) {
        Some(i) => unfinished(text.skip(i + 2)),
        None => text,
    }
}

#[via_fn]
proof fn unfinished_end(text: Seq<char>) {
    lemma_frame_end(text);
}

proof fn lemma_frame_end_extends(a: Seq<char>, b: Seq<char>)
    requires
        frame_end(a) is Some,
    ensures
        frame_end(a + b) == frame_end(a),
    decreases a.len(),
{
    if !(a[0] == '\n' && a[1] == '\n') {
        lemma_frame_end_extends(a.skip(1), b);
        assert((a + b).skip(1) =~= a.skip(1) + b);
    }
}

/// It does not matter where a stream is cut: the frames of two pieces are those
/// of the first, and those of what it left over with the second.
pub proof fn law_frames_across_chunks(a: Seq<char>, b: Seq<char>)
    ensures
        frames(a + b) == frames(a) + frames(unfinished(a) + b),
        unfinished(a + b) == unfinished(unfinished(a) + b),
    decreases a.len(),
{
    lemma_frame_end(a);
    match frame_end(a) {
        Some(i) => {
            lemma_frame_end_extends(a, b);
            law_frames_across_chunks(a.skip(i + 2), b);
            assert((a + b).skip(i + 2) =~= a.skip(i + 2) + b);
            assert((a + b).take(i) =~= a.take(i));
            assert(frames(a + b) =~= frames(a) + frames(unfinished(a) + b));
        },
        None => {
            assert(frames(a) + frames(a + b) =~= frames(a + b));
        },
    }
}

/// The lines of a text, without their line ends.
pub open spec fn lines(text: Seq<char>) -> Seq<Seq<char>>
    decreases text.len(),
    via lines_end
{
    if text.len() == 0 {
        Seq::empty()
    } else {
        match line_end(text) {
            Some(i) => seq![without_return(text.take(i))] + lines(text.skip(i + 1)),
            None => seq![text],
        }
    }
}

#[via_fn]
proof fn lines_end(text: Seq<char>) {
    lemma_line_end(text);
}

/// Where the first line of a text ends.
pub open spec fn line_end(text: Seq<char>) -> Option<int>
    decreases text.len(),
{
    if text.len() == 0 {
        None
    } else if text[0] == '\n' {
        Some(0)
    } else {
        match line_end(text.skip(1)) {
            Some(i) => Some(i + 1),
            None => None,
        }
    }
}

/// The first line end lies within the text.
pub proof fn lemma_line_end(text: Seq<char>)
    ensures
        line_end(text) matches Some(i) ==> 0 <= i < text.len() && text[i] == '\n' && forall|j: int|
            0 <= j < i ==> #[trigger] text[j] != '\n',
        line_end(text) is None ==> forall|j: int|
            0 <= j < text.len() ==> #[trigger] text[j] != '\n',
    decreases text.len(),
{
    if text.len() > 0 && text[0] != '\n' {
        let rest = text.skip(1);
        lemma_line_end(rest);
        assert forall|j: int| 0 < j < text.len() implies #[trigger] text[j] == rest[j - 1] by {}
    }
}

proof fn lemma_line_end_is(text: Seq<char>, i: int)
    requires
        0 <= i < text.len(),
        text[i] == '\n',
        forall|j: int| 0 <= j < i ==> #[trigger] text[j] != '\n',
    ensures
        line_end(text) == Some(i),
{
    lemma_line_end(text);
}

/// A line without a carriage return at its end.
pub open spec fn without_return(line: Seq<char>) -> Seq<char> {
    if line.len() > 0 && line.last() == '\r' {
        line.drop_last()
    } else {
        line
    }
}

/// What a line of a stream carries: what follows `data:`, unless that is empty or
/// says that the stream is done.
pub open spec fn line_data(line: Seq<char>) -> Option<Seq<char>> {
    if text::occurs_at(line, "data:"@, 0) {
        let data = text::trimmed(line.skip("data:"@.len() as int));
        if data.len() == 0 || data == "[DONE]"@ {
            None
        } else {
            Some(data)
        }
    } else {
        None
    }
}

/// What the lines of a frame carry.
pub open spec fn data_of(lines: Seq<Seq<char>>) -> Seq<Seq<char>>
    decreases lines.len(),
{
    if lines.len() == 0 {
        Seq::empty()
    } else {
        match line_data(lines.last()) {
            Some(data) => data_of(lines.drop_last()).push(data),
            None => data_of(lines.drop_last()),
        }
    }
}

/// The lines of `text`, without their line ends.
pub fn split_lines(text: &str) -> (r: Vec<String>)
    ensures
        views::all(r@) == lines(text@),
{
    let chars = chars_of(text);
    let n = chars.len();
    let mut found: Vec<String> = Vec::new();
    let mut start: usize = 0;
    let mut i: usize = 0;
    assert(text@.skip(0) =~= text@);
    assert(views::all(found@) + lines(text@) =~= lines(text@));
    while i < n
        invariant
            n == chars@.len(),
            chars@ == text@,
            start <= i <= n,
            forall|j: int| start <= j < i ==> #[trigger] chars@[j] != '\n',
            views::all(found@) + lines(text@.skip(start as int)) == lines(text@),
        decreases n - i,
    {
        if chars[i] == '\n' {
            let ghost rest = text@.skip(start as int);
            let ghost before = found@;
            assert(rest[i - start] == '\n');
            assert forall|j: int| 0 <= j < i - start implies #[trigger] rest[j] != '\n' by {
                assert(rest[j] == chars@[start + j]);
            }
            proof {
                lemma_line_end_is(rest, i - start);
            }
            let end: usize = if i > start && chars[i - 1] == '\r' {
                i - 1
            } else {
                i
            };
            let line = text_of(&chars, start, end);
            assert(line@ =~= without_return(rest.take(i - start)));
            found.push(line);
            assert(views::all(found@) =~= views::all(before).push(line@));
            assert(rest.skip(i - start + 1) =~= text@.skip(i + 1));
            assert(views::all(before) + lines(rest) =~= views::all(found@) + lines(
                text@.skip(i + 1),
            ));
            start = i + 1;
        }
        i = i + 1;
    }
    let ghost rest = text@.skip(start as int);
    proof {
        lemma_line_end(rest);
        if let Some(k) = line_end(rest) {
            assert(chars@[start + k] == rest[k]);
        }
    }
    if start < n {
        let ghost before = found@;
        let line = text_of(&chars, start, n);
        assert(line@ =~= rest);
        found.push(line);
        assert(views::all(found@) =~= views::all(before) + lines(rest));
    } else {
        assert(views::all(found@) =~= views::all(found@) + lines(rest));
    }
    found
}

/// What a frame carries, line by line.
pub fn frame_data(frame: &str) -> (r: Vec<String>)
    ensures
        views::all(r@) == data_of(lines(frame@)),
{
    let all_lines = split_lines(frame);
    let ghost line_views = views::all(all_lines@);
    let mut carried: Vec<String> = Vec::new();
    let mut i: usize = 0;
    assert(views::all(carried@) =~= data_of(line_views.take(0)));
    while i < all_lines.len()
        invariant
            i <= all_lines@.len(),
            line_views == views::all(all_lines@),
            views::all(carried@) == data_of(line_views.take(i as int)),
        decreases all_lines@.len() - i,
    {
        let ghost so_far = line_views.take(i + 1);
        assert(so_far.drop_last() =~= line_views.take(i as int));
        assert(so_far.last() == all_lines@[i as int]@);
        if let Some(rest) = strip_prefix(all_lines[i].as_str(), "data:") {
            let data = trim(rest.as_str());
            if data.as_str().unicode_len() > 0 && !text_eq(data.as_str(), "[DONE]") {
                let ghost before = carried@;
                carried.push(data);
                assert(views::all(carried@) =~= views::all(before).push(data@));
            }
        }
        i = i + 1;
    }
    assert(line_views.take(i as int) =~= line_views);
    carried
}

// ---------------------------------------------------------------------------
// An answer that comes bit by bit

/// A call with one more piece.
pub open spec fn with_piece(
    call: PartialToolCallView,
    delta: OpenAiStreamToolCallView,
) -> PartialToolCallView {
    PartialToolCallView {
        call_id: if delta.id is Some {
            delta.id
        } else {
            call.call_id
        },
        name: if delta.name is Some {
            delta.name
        } else {
            call.name
        },
        arguments: match delta.arguments {
            Some(arguments) => call.arguments + arguments,
            None => call.arguments,
        },
    }
}

/// A call of which nothing has come.
pub open spec fn no_call() -> PartialToolCallView {
    PartialToolCallView { call_id: None, name: None, arguments: Seq::empty() }
}

/// The call that the pieces of a call make, or why they make none.
pub open spec fn completed_call(
    call: PartialToolCallView,
) -> Result<ModelFunctionCallView, AgentErrorView> {
    match call.call_id {
        None => Err(AgentErrorView::Model("streamed tool call missing id"@)),
        Some(call_id) => match call.name {
            None => Err(
                AgentErrorView::Model("streamed tool call "@ + call_id + " missing name"@),
            ),
            Some(name) => match json::json_read(call.arguments) {
                json::Reading::Document(arguments) => Ok(
                    ModelFunctionCallView { call_id, name, arguments },
                ),
                json::Reading::Refused(words) => Err(
                    AgentErrorView::Model(
                        "invalid JSON arguments for streamed tool call "@ + call_id + ": "@ + words,
                    ),
                ),
            },
        },
    }
}

impl Default for PartialToolCall {
    fn default() -> (r: Self)
        ensures
            r@ == no_call(),
    {
        PartialToolCall::new()
    }
}

impl PartialToolCall {
    /// A call of which nothing has come.
    pub fn new() -> (r: Self)
        ensures
            r@ == no_call(),
    {
        let r = PartialToolCall { call_id: None, name: None, arguments: String::new() };
        assert(r@.arguments =~= Seq::<char>::empty());
        r
    }

    /// Adds a piece.
    pub fn apply_delta(&mut self, delta: OpenAiStreamToolCall)
        ensures
            final(self)@ == with_piece(old(self)@, delta@),
    {
        if let Some(id) = delta.id {
            self.call_id = Some(id);
        }
        if let Some(name) = delta.name {
            self.name = Some(name);
        }
        if let Some(arguments) = delta.arguments {
            self.arguments.append(arguments.as_str());
        }
    }

    /// The call that the pieces make, or why they make none.
    pub fn finish(&self) -> (r: Result<ModelFunctionCall, AgentError>)
        ensures
            views::res(r) == completed_call(self@),
    {
        let call_id = match &self.call_id {
            Some(call_id) => call_id.clone(),
            None => {
                return Err(AgentError::Model("streamed tool call missing id".to_string()));
            },
        };
        let name = match &self.name {
            Some(name) => name.clone(),
            None => {
                let mut words = joined("streamed tool call ", call_id.as_str());
                words.append(" missing name");
                return Err(AgentError::Model(words));
            },
        };
        match parse(self.arguments.as_str()) {
            Ok(arguments) => Ok(ModelFunctionCall { call_id, name, arguments }),
            Err(error) => {
                let mut words = joined(
                    "invalid JSON arguments for streamed tool call ",
                    call_id.as_str(),
                );
                words.append(": ");
                words.append(error.as_str());
                Err(AgentError::Model(words))
            },
        }
    }
}

/// Calls in the order of their places, with one more piece.
pub open spec fn with_delta(
    calls: Seq<(usize, PartialToolCallView)>,
    delta: OpenAiStreamToolCallView,
) -> Seq<(usize, PartialToolCallView)>
    decreases calls.len(),
{
    if calls.len() == 0 {
        seq![(delta.index, with_piece(no_call(), delta))]
    } else if calls.last().0 == delta.index {
        calls.drop_last().push((delta.index, with_piece(calls.last().1, delta)))
    } else if calls.last().0 < delta.index {
        calls.push((delta.index, with_piece(no_call(), delta)))
    } else {
        with_delta(calls.drop_last(), delta).push(calls.last())
    }
}

/// Calls in the order of their places, with more pieces.
pub open spec fn with_deltas(
    calls: Seq<(usize, PartialToolCallView)>,
    deltas: Seq<OpenAiStreamToolCallView>,
) -> Seq<(usize, PartialToolCallView)>
    decreases deltas.len(),
{
    if deltas.len() == 0 {
        calls
    } else {
        with_delta(with_deltas(calls, deltas.drop_last()), deltas.last())
    }
}

/// What an answer that comes bit by bit has come to.
#[verifier::ext_equal]
pub struct ChatStreamView {
    pub buffer: Seq<char>,
    pub text: Seq<char>,
    pub calls: Seq<(usize, PartialToolCallView)>,
}

/// An answer that comes bit by bit.
#[derive(Debug)]
pub struct ChatStream {
    buffer: String,
    text: String,
    calls: Vec<(usize, PartialToolCall)>,
}

/// The calls of an answer, each with its place.
pub open spec fn placed(calls: Seq<(usize, PartialToolCall)>) -> Seq<(usize, PartialToolCallView)> {
    Seq::new(calls.len(), |i: int| (calls[i].0, calls[i].1@))
}

impl View for ChatStream {
    type V = ChatStreamView;

    closed spec fn view(&self) -> ChatStreamView {
        ChatStreamView { buffer: self.buffer@, text: self.text@, calls: placed(self.calls@) }
    }
}

/// What one piece of an answer adds.
pub open spec fn with_choice(
    stream: ChatStreamView,
    delta: OpenAiStreamDeltaView,
) -> ChatStreamView {
    ChatStreamView {
        text: match delta.content {
            Some(content) => stream.text + content,
            None => stream.text,
        },
        calls: with_deltas(stream.calls, delta.tool_calls),
        ..stream
    }
}

/// What pieces of an answer add.
pub open spec fn with_choices(
    stream: ChatStreamView,
    deltas: Seq<OpenAiStreamDeltaView>,
) -> ChatStreamView
    decreases deltas.len(),
{
    if deltas.len() == 0 {
        stream
    } else {
        with_choice(with_choices(stream, deltas.drop_last()), deltas.last())
    }
}

/// What is reported of pieces of an answer: their texts.
pub open spec fn told(deltas: Seq<OpenAiStreamDeltaView>) -> Seq<ModelStreamEventView>
    decreases deltas.len(),
{
    if deltas.len() == 0 {
        Seq::empty()
    } else {
        match deltas.last().content {
            Some(text) => told(deltas.drop_last()).push(
                ModelStreamEventView::AssistantDelta { text },
            ),
            None => told(deltas.drop_last()),
        }
    }
}

/// The calls that their pieces make, or the first error among them.
pub open spec fn completed_calls(
    calls: Seq<(usize, PartialToolCallView)>,
) -> Result<Seq<ModelFunctionCallView>, AgentErrorView>
    decreases calls.len(),
{
    if calls.len() == 0 {
        Ok(Seq::empty())
    } else {
        match completed_calls(calls.drop_last()) {
            Err(e) => Err(e),
            Ok(earlier) => match completed_call(calls.last().1) {
                Err(e) => Err(e),
                Ok(call) => Ok(earlier.push(call)),
            },
        }
    }
}

/// The answer that all pieces make: calls, if there are any, and else the text.
pub open spec fn completed(stream: ChatStreamView) -> Result<ModelResponseView, AgentErrorView> {
    if stream.calls.len() == 0 {
        Ok(ModelResponseView::AssistantMessage { text: stream.text })
    } else {
        match completed_calls(stream.calls) {
            Ok(calls) => Ok(ModelResponseView::FunctionCalls { calls }),
            Err(e) => Err(e),
        }
    }
}

impl ChatStream {
    /// An answer of which nothing has come.
    pub fn new() -> (r: Self)
        ensures
            r@ == (ChatStreamView {
                buffer: Seq::empty(),
                text: Seq::empty(),
                calls: Seq::empty(),
            }),
    {
        let r = ChatStream { buffer: String::new(), text: String::new(), calls: Vec::new() };
        assert(r@.buffer =~= Seq::<char>::empty());
        assert(r@.text =~= Seq::<char>::empty());
        assert(r@.calls =~= Seq::<(usize, PartialToolCallView)>::empty());
        r
    }

    /// Takes in bytes, and returns the frames that they complete.
    pub fn push_chunk(&mut self, chunk: &[u8]) -> (r: Vec<String>)
        ensures
            ({
                let all_text = old(self)@.buffer + text::lossy_text(chunk@);
                &&& views::all(r@) == frames(all_text)
                &&& final(self)@ == (ChatStreamView { buffer: unfinished(all_text), ..old(self)@ })
            }),
    {
        let mut whole = self.buffer.clone();
        whole.append(lossy_text_of(chunk).as_str());
        let ghost all_text = whole@;
        let chars = chars_of(whole.as_str());
        let n = chars.len();
        let mut found: Vec<String> = Vec::new();
        let mut start: usize = 0;
        let mut i: usize = 0;
        assert(all_text.skip(0) =~= all_text);
        assert(views::all(found@) + frames(all_text) =~= frames(all_text));
        while i < n
            invariant
                n == chars@.len(),
                chars@ == all_text,
                start <= i <= n,
                i == start || frame_end(all_text.skip(start as int)) is None || frame_end(
                    all_text.skip(start as int),
                )->0 >= i - start,
                views::all(found@) + frames(all_text.skip(start as int)) == frames(all_text),
                unfinished(all_text.skip(start as int)) == unfinished(all_text),
            decreases n - i,
        {
            let ghost rest = all_text.skip(start as int);
            proof {
                lemma_frame_end(rest);
            }
            if i + 1 < n && chars[i] == '\n' && chars[i + 1] == '\n' {
                let ghost before = found@;
                proof {
                    lemma_frame_end_first(rest, i - start);
                }
                let frame = text_of(&chars, start, i);
                assert(frame@ =~= rest.take(i - start));
                found.push(frame);
                assert(views::all(found@) =~= views::all(before).push(frame@));
                assert(rest.skip(i - start + 2) =~= all_text.skip(i + 2));
                assert(views::all(before) + frames(rest) =~= views::all(found@) + frames(
                    all_text.skip(i + 2),
                ));
                start = i + 2;
                i = start;
            } else {
                assert(i + 1 < n ==> rest[i - start] == chars@[i as int] && rest[i - start + 1]
                    == chars@[i + 1]);
                i = i + 1;
            }
        }
        let ghost rest = all_text.skip(start as int);
        proof {
            lemma_frame_end(rest);
        }
        assert(frame_end(rest) is None);
        assert(views::all(found@) + frames(rest) =~= views::all(found@));
        let left = text_of(&chars, start, n);
        assert(left@ =~= rest);
        self.buffer = left;
        found
    }

    /// The last frame, if bytes are left over at the end.
    pub fn last_frame(&self) -> (r: Option<String>)
        ensures
            views::opt(r) == left_over(self@),
    {
        if trim(self.buffer.as_str()).as_str().unicode_len() > 0 {
            Some(self.buffer.clone())
        } else {
            None
        }
    }

    fn apply_call(&mut self, delta: OpenAiStreamToolCall)
        ensures
            final(self)@ == (ChatStreamView {
                calls: with_delta(old(self)@.calls, delta@),
                ..old(self)@
            }),
    {
        let ghost before = placed(self.calls@);
        let mut n: usize = self.calls.len();
        let ghost all = n as int;
        assert(before.take(n as int) =~= before);
        assert(before.subrange(n as int, n as int)
            =~= Seq::<(usize, PartialToolCallView)>::empty());
        assert(with_delta(before, delta@) =~= with_delta(before.take(n as int), delta@)
            + before.subrange(n as int, all));
        while n > 0 && self.calls[n - 1].0 > delta.index
            invariant
                *self == *old(self),
                before == placed(self.calls@),
                all == self.calls@.len(),
                n <= all,
                with_delta(before, delta@) == with_delta(before.take(n as int), delta@)
                    + before.subrange(n as int, all),
            decreases n,
        {
            let ghost part = before.take(n as int);
            assert(part.drop_last() =~= before.take(n - 1));
            assert(part.last() == before[n - 1]);
            assert(with_delta(part, delta@) + before.subrange(n as int, all) =~= with_delta(
                before.take(n - 1),
                delta@,
            ) + before.subrange(n - 1, all));
            n = n - 1;
        }
        let ghost part = before.take(n as int);
        if n > 0 && self.calls[n - 1].0 == delta.index {
            let index = delta.index;
            let ghost piece = delta@;
            let mut call = self.calls[n - 1].1.clone();
            call.apply_delta(delta);
            self.calls[n - 1] = (index, call);
            assert(part.last() == before[n - 1]);
            assert(placed(self.calls@) =~= part.drop_last().push((index, call@)) + before.subrange(
                n as int,
                all,
            ));
        } else {
            let index = delta.index;
            let mut call = PartialToolCall::new();
            call.apply_delta(delta);
            if n > 0 {
                assert(part.last() == before[n - 1]);
            }
            self.calls.insert(n, (index, call));
            assert(placed(self.calls@) =~= part.push((index, call@)) + before.subrange(
                n as int,
                all,
            ));
            assert(n == 0 ==> part =~= Seq::empty());
            assert(with_delta(part, delta@) =~= part.push((index, call@)));
        }
    }

    /// Takes in pieces of the answer, and returns what is to be reported of them.
    pub fn apply(&mut self, deltas: &Vec<OpenAiStreamDelta>) -> (r: Vec<ModelStreamEvent>)
        ensures
            final(self)@ == with_choices(old(self)@, views::all(deltas@)),
            views::all(r@) == told(views::all(deltas@)),
    {
        let ghost pieces = views::all(deltas@);
        let mut events: Vec<ModelStreamEvent> = Vec::new();
        let mut i: usize = 0;
        assert(pieces.take(0) =~= Seq::<OpenAiStreamDeltaView>::empty());
        assert(views::all(events@) =~= Seq::<ModelStreamEventView>::empty());
        while i < deltas.len()
            invariant
                i <= deltas@.len(),
                pieces == views::all(deltas@),
                self@ == with_choices(old(self)@, pieces.take(i as int)),
                views::all(events@) == told(pieces.take(i as int)),
            decreases deltas@.len() - i,
        {
            let delta = &deltas[i];
            let ghost so_far = pieces.take(i + 1);
            let ghost start = self@;
            assert(so_far.drop_last() =~= pieces.take(i as int));
            assert(so_far.last() == delta@);
            if let Some(content) = &delta.content {
                self.text.append(content.as_str());
                let ghost before = events@;
                events.push(ModelStreamEvent::AssistantDelta { text: content.clone() });
                assert(views::all(events@) =~= views::all(before).push(events@.last()@));
            }
            let ghost spoken = self@;
            let ghost calls = views::all(delta.tool_calls@);
            let mut k: usize = 0;
            assert(calls.take(0) =~= Seq::<OpenAiStreamToolCallView>::empty());
            while k < delta.tool_calls.len()
                invariant
                    k <= delta.tool_calls@.len(),
                    calls == views::all(delta.tool_calls@),
                    self@ == (ChatStreamView {
                        calls: with_deltas(spoken.calls, calls.take(k as int)),
                        ..spoken
                    }),
                decreases delta.tool_calls@.len() - k,
            {
                let ghost part = calls.take(k + 1);
                assert(part.drop_last() =~= calls.take(k as int));
                assert(part.last() == delta.tool_calls@[k as int]@);
                self.apply_call(delta.tool_calls[k].clone());
                k = k + 1;
            }
            assert(calls.take(k as int) =~= calls);
            i = i + 1;
        }
        assert(pieces.take(i as int) =~= pieces);
        events
    }

    /// The answer that all pieces make.
    pub fn finish(&self) -> (r: Result<ModelResponse, AgentError>)
        ensures
            views::res(r) == completed(self@),
    {
        if self.calls.len() == 0 {
            return Ok(ModelResponse::AssistantMessage { text: self.text.clone() });
        }
        let ghost all_calls = self@.calls;
        let mut calls: Vec<ModelFunctionCall> = Vec::new();
        let mut i: usize = 0;
        assert(all_calls.take(0) =~= Seq::<(usize, PartialToolCallView)>::empty());
        assert(views::all(calls@) =~= Seq::<ModelFunctionCallView>::empty());
        while i < self.calls.len()
            invariant
                i <= self.calls@.len(),
                all_calls == self@.calls,
                all_calls.len() > 0,
                completed_calls(all_calls.take(i as int)) == Ok::<
                    Seq<ModelFunctionCallView>,
                    AgentErrorView,
                >(views::all(calls@)),
            decreases self.calls@.len() - i,
        {
            let ghost so_far = all_calls.take(i + 1);
            assert(so_far.drop_last() =~= all_calls.take(i as int));
            assert(so_far.last().1 == self.calls@[i as int].1@);
            match self.calls[i].1.finish() {
                Ok(call) => {
                    let ghost before = calls@;
                    calls.push(call);
                    assert(views::all(calls@) =~= views::all(before).push(call@));
                },
                Err(error) => {
                    proof {
                        lemma_first_unfinished(all_calls, i + 1);
                    }
                    return Err(error);
                },
            }
            i = i + 1;
        }
        assert(all_calls.take(i as int) =~= all_calls);
        Ok(ModelResponse::FunctionCalls { calls })
    }
}

proof fn lemma_frame_end_first(text: Seq<char>, i: int)
    requires
        0 <= i,
        i + 1 < text.len(),
        text[i] == '\n',
        text[i + 1] == '\n',
        i == 0 || frame_end(text) is None || frame_end(text)->0 >= i,
    ensures
        frame_end(text) == Some(i),
    decreases text.len(),
{
    if i > 0 {
        if text[0] == '\n' && text[1] == '\n' {
        } else {
            lemma_frame_end_first(text.skip(1), i - 1);
        }
    }
}

proof fn lemma_first_unfinished(calls: Seq<(usize, PartialToolCallView)>, n: int)
    requires
        0 <= n <= calls.len(),
        completed_calls(calls.take(n)) is Err,
    ensures
        completed_calls(calls) == completed_calls(calls.take(n)),
    decreases calls.len() - n,
{
    if n == calls.len() {
        assert(calls.take(n) =~= calls);
    } else {
        assert(calls.take(n + 1).drop_last() =~= calls.take(n));
        lemma_first_unfinished(calls, n + 1);
    }
}

// ---------------------------------------------------------------------------
// Laws

/// Whether calls stand in the order of their places, none twice.
pub open spec fn in_places(calls: Seq<(usize, PartialToolCallView)>) -> bool {
    forall|i: int, j: int|
        0 <= i < j < calls.len() ==> (#[trigger] calls[i]).0 < (#[trigger] calls[j]).0
}

/// Calls stay in the order of their places, whatever pieces come in.
pub proof fn law_calls_stay_in_places(
    calls: Seq<(usize, PartialToolCallView)>,
    delta: OpenAiStreamToolCallView,
)
    requires
        in_places(calls),
    ensures
        in_places(with_delta(calls, delta)),
        forall|i: int|
            0 <= i < with_delta(calls, delta).len() ==> (#[trigger] with_delta(calls, delta)[i]).0
                == delta.index || exists|k: int|
                0 <= k < calls.len() && (#[trigger] calls[k]) == with_delta(calls, delta)[i],
    decreases calls.len(),
{
    let after = with_delta(calls, delta);
    if calls.len() > 0 {
        let rest = calls.drop_last();
        assert(in_places(rest)) by {
            assert forall|i: int, j: int| 0 <= i < j < rest.len() implies (#[trigger] rest[i]).0 < (
            #[trigger] rest[j]).0 by {
                assert(calls[i].0 < calls[j].0);
            }
        }
        law_calls_stay_in_places(rest, delta);
        if calls.last().0 == delta.index {
            assert forall|i: int, j: int| 0 <= i < j < after.len() implies (
            #[trigger] after[i]).0 < (#[trigger] after[j]).0 by {
                assert(calls[i].0 < calls[j].0);
            }
            assert forall|i: int| 0 <= i < after.len() implies (#[trigger] after[i]).0
                == delta.index || exists|k: int|
                0 <= k < calls.len() && (#[trigger] calls[k]) == after[i] by {
                if i < rest.len() {
                    assert(calls[i] == after[i]);
                }
            }
        } else if calls.last().0 < delta.index {
            assert forall|i: int, j: int| 0 <= i < j < after.len() implies (
            #[trigger] after[i]).0 < (#[trigger] after[j]).0 by {
                if j < calls.len() {
                    assert(calls[i].0 < calls[j].0);
                } else if i < calls.len() - 1 {
                    assert(calls[i].0 < calls[calls.len() - 1].0);
                }
            }
            assert forall|i: int| 0 <= i < after.len() implies (#[trigger] after[i]).0
                == delta.index || exists|k: int|
                0 <= k < calls.len() && (#[trigger] calls[k]) == after[i] by {
                if i < calls.len() {
                    assert(calls[i] == after[i]);
                }
            }
        } else {
            let shorter = with_delta(rest, delta);
            assert forall|i: int, j: int| 0 <= i < j < after.len() implies (
            #[trigger] after[i]).0 < (#[trigger] after[j]).0 by {
                if j < shorter.len() {
                    assert(shorter[i].0 < shorter[j].0);
                } else {
                    assert(after[i] == shorter[i]);
                    if shorter[i].0 != delta.index {
                        let k = choose|k: int|
                            0 <= k < rest.len() && (#[trigger] rest[k]) == shorter[i];
                        assert(calls[k].0 < calls[calls.len() - 1].0);
                    }
                }
            }
            assert forall|i: int| 0 <= i < after.len() implies (#[trigger] after[i]).0
                == delta.index || exists|k: int|
                0 <= k < calls.len() && (#[trigger] calls[k]) == after[i] by {
                if i < shorter.len() {
                    assert(after[i] == shorter[i]);
                    if shorter[i].0 != delta.index {
                        let k = choose|k: int|
                            0 <= k < rest.len() && (#[trigger] rest[k]) == shorter[i];
                        assert(calls[k] == after[i]);
                    }
                } else {
                    assert(calls[calls.len() - 1] == after[i]);
                }
            }
        }
    }
}

/// The text of an answer is the text that was reported, piece by piece.
pub open spec fn told_text(events: Seq<ModelStreamEventView>) -> Seq<char>
    decreases events.len(),
{
    if events.len() == 0 {
        Seq::empty()
    } else {
        match events.last() {
            ModelStreamEventView::AssistantDelta { text } => told_text(events.drop_last()) + text,
            _ => told_text(events.drop_last()),
        }
    }
}

/// The text of an answer grows by exactly what is reported of it.
pub proof fn law_text_is_what_was_told(
    stream: ChatStreamView,
    deltas: Seq<OpenAiStreamDeltaView>,
)
    ensures
        with_choices(stream, deltas).text == stream.text + told_text(told(deltas)),
    decreases deltas.len(),
{
    if deltas.len() == 0 {
        assert(stream.text + Seq::<char>::empty() =~= stream.text);
    } else {
        law_text_is_what_was_told(stream, deltas.drop_last());
        let before = told(deltas.drop_last());
        if let Some(text) = deltas.last().content {
            let event = ModelStreamEventView::AssistantDelta { text };
            assert(before.push(event).drop_last() =~= before);
            assert(stream.text + told_text(before) + text =~= stream.text + (told_text(before)
                + text));
        }
    }
}

} // verus!
