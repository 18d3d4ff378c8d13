//! Requests to a model, and the answers that come whole or in pieces.
use lite_agent::agent_core::model::{
    frame_data, http_refusal, read_response, split_lines, whole_reply_events, ChatStream,
    ModelConfig, OpenAiChatRequest, OpenAiResponseMessage, OpenAiStreamDelta, OpenAiStreamToolCall,
    OpenAiToolCall, OpenAiToolCalls, PartialToolCall,
};
use lite_agent::error::AgentError;
use lite_agent::kernel::model::{
    FunctionSpec, ModelFunctionCall, ModelRequest, ModelResponse, ModelStreamEvent,
};
use lite_agent::kernel::projection::ChatMessage;
use serde_json::Value;

fn object(fields: &[(&str, Value)]) -> Value {
    Value::Object(fields.iter().map(|(name, value)| (name.to_string(), value.clone())).collect())
}

fn text(value: &str) -> Value {
    Value::String(value.to_string())
}

fn optional(value: &Value) -> Option<String> {
    value.as_str().map(str::to_string)
}

/// What the chunk of a stream says in its choices.
fn deltas(data: &str) -> Vec<OpenAiStreamDelta> {
    let chunk: Value = serde_json::from_str(data).expect("chunk");
    let no_calls = Vec::new();
    chunk["choices"]
        .as_array()
        .expect("choices")
        .iter()
        .map(|choice| {
            let delta = &choice["delta"];
            let calls = delta["tool_calls"].as_array().unwrap_or(&no_calls);
            OpenAiStreamDelta {
                content: optional(&delta["content"]),
                tool_calls: calls
                    .iter()
                    .map(|call| OpenAiStreamToolCall {
                        index: call["index"].as_u64().expect("index") as usize,
                        id: optional(&call["id"]),
                        name: optional(&call["function"]["name"]),
                        arguments: optional(&call["function"]["arguments"]),
                    })
                    .collect(),
            }
        })
        .collect()
}

fn feed(stream: &mut ChatStream, frame: &str) -> Vec<ModelStreamEvent> {
    let mut events = Vec::new();
    for data in frame_data(frame) {
        events.extend(stream.apply(&deltas(&data)));
    }
    events
}

#[test]
fn serializes_structured_tool_history() {
    let request = ModelRequest {
        messages: vec![
            ChatMessage::Assistant {
                content: None,
                tool_calls: vec![ModelFunctionCall {
                    call_id: "call_1".to_string(),
                    name: "exec_command".to_string(),
                    arguments: object(&[("cmd", text("ls"))]),
                }],
            },
            ChatMessage::Tool {
                tool_call_id: "call_1".to_string(),
                name: "exec_command".to_string(),
                content: object(&[("stdout", text("src\n"))]),
            },
        ],
        functions: vec![FunctionSpec {
            name: "exec_command".to_string(),
            description: "run command".to_string(),
            parameters: object(&[("type", text("object"))]),
        }],
    };

    let body = OpenAiChatRequest::from_model_request("model", request, false);
    let value = body.to_value();
    let messages = value["messages"].as_array().expect("messages");

    assert_eq!(messages[0]["role"], "assistant");
    assert_eq!(messages[0]["tool_calls"][0]["id"], "call_1");
    assert_eq!(messages[0]["tool_calls"][0]["function"]["name"], "exec_command");
    assert_eq!(messages[1]["role"], "tool");
    assert_eq!(messages[1]["tool_call_id"], "call_1");
    assert_eq!(messages[1]["name"], Value::Null);
    assert_ne!(messages[1]["content"], Value::Null);
}

#[test]
fn parses_streaming_content_deltas() {
    let frame = r#"data: {"choices":[{"delta":{"content":"hel"}}]}

data: {"choices":[{"delta":{"content":"lo"}}]}

data: [DONE]

"#;
    let mut stream = ChatStream::new();
    let events = feed(&mut stream, frame);
    assert_eq!(events.len(), 2);
    assert!(matches!(
        stream.finish(),
        Ok(ModelResponse::AssistantMessage { text }) if text == "hello"
    ));
}

#[test]
fn parses_streaming_tool_call_deltas() {
    let frame = r#"data: {"choices":[{"delta":{"tool_calls":[{"index":0,"id":"call_1","function":{"name":"exec_command","arguments":"{\"cmd\""}}]}}]}

data: {"choices":[{"delta":{"tool_calls":[{"index":0,"function":{"arguments":":\"ls\"}"}}]}}]}

data: [DONE]

"#;
    let mut stream = ChatStream::new();
    feed(&mut stream, frame);
    let calls = match stream.finish().expect("finish") {
        ModelResponse::FunctionCalls { calls } => calls,
        ModelResponse::Assistant { function_calls, .. } => function_calls,
        other => panic!("expected calls, got {other:?}"),
    };
    assert_eq!(calls[0].call_id, "call_1");
    assert_eq!(calls[0].name, "exec_command");
    assert_eq!(calls[0].arguments, object(&[("cmd", text("ls"))]));
}

#[test]
fn frames_do_not_depend_on_where_the_text_is_cut() {
    let bytes = "data: {\"a\":1}\n\ndata: two\n\nrest".as_bytes();
    let mut whole = ChatStream::new();
    let at_once = whole.push_chunk(bytes);
    let mut pieces = ChatStream::new();
    let mut one_by_one = Vec::new();
    for byte in bytes {
        one_by_one.extend(pieces.push_chunk(&[*byte]));
    }
    assert_eq!(at_once, one_by_one);
    assert_eq!(at_once.len(), 2);
    assert_eq!(whole.last_frame(), pieces.last_frame());
    assert_eq!(whole.last_frame().as_deref(), Some("rest"));
}

#[test]
fn a_cut_character_is_replaced() {
    let mut cut = ChatStream::new();
    assert_eq!(cut.push_chunk("é\n\n".as_bytes()), vec!["é"]);
    assert!(cut.push_chunk(&[195]).is_empty());
    assert_eq!(cut.push_chunk(&[169, 10, 10]), vec!["\u{fffd}\u{fffd}"]);
    assert_eq!(cut.last_frame(), None);
}

#[test]
fn only_data_lines_of_a_frame_count() {
    let frame = ": comment\nevent: x\ndata: one\r\ndata:two\ndata: [DONE]\ndata: \n";
    assert_eq!(frame_data(frame), vec!["one", "two"]);
    assert_eq!(split_lines("a\r\nb\n\nc"), vec!["a", "b", "", "c"]);
}

#[test]
fn partial_calls_need_an_identifier_and_a_name() {
    let mut partial = PartialToolCall::new();
    assert!(partial.finish().is_err());
    partial.apply_delta(OpenAiStreamToolCall {
        index: 0,
        id: Some("c1".to_string()),
        name: None,
        arguments: Some("{".to_string()),
    });
    assert!(partial.finish().is_err());
    partial.apply_delta(OpenAiStreamToolCall {
        index: 0,
        id: None,
        name: Some("f".to_string()),
        arguments: Some("}".to_string()),
    });
    let call = partial.finish().expect("call");
    assert_eq!(call.call_id, "c1");
    assert_eq!(call.arguments, object(&[]));
}

fn answer(content: Option<&str>, arguments: Option<&str>) -> OpenAiResponseMessage {
    OpenAiResponseMessage {
        content: content.map(str::to_string),
        tool_calls: arguments.map(|arguments| OpenAiToolCalls {
            calls: vec![OpenAiToolCall {
                id: "c1".to_string(),
                name: "f".to_string(),
                arguments: arguments.to_string(),
            }],
        }),
    }
}

#[test]
fn whole_answers_are_read_by_their_first_choice() {
    assert!(matches!(
        read_response(&vec![answer(Some("hi"), None), answer(Some("no"), None)]),
        Ok(ModelResponse::AssistantMessage { text }) if text == "hi"
    ));
    assert!(matches!(
        read_response(&Vec::new()),
        Err(AgentError::Model(words)) if words == "chat/completions returned no choices"
    ));
    assert!(read_response(&vec![answer(None, None)]).is_err());
    let mixed = read_response(&vec![answer(Some("look"), Some("{\"a\":2}"))]).expect("answer");
    let ModelResponse::FunctionCalls { calls } = mixed else { panic!("expected calls") };
    assert_eq!(calls[0].arguments["a"], 2);
    assert!(matches!(
        read_response(&vec![answer(None, Some("{"))]),
        Err(AgentError::Model(words))
            if words.starts_with("invalid JSON arguments for tool call c1: EOF")
    ));
    assert!(whole_reply_events(&ModelResponse::FunctionCalls { calls: Vec::new() }).is_empty());
    assert_eq!(
        whole_reply_events(&ModelResponse::AssistantMessage { text: "hi".to_string() }),
        vec![ModelStreamEvent::AssistantDelta { text: "hi".to_string() }]
    );
}

#[test]
fn servers_are_reached_and_quoted_exactly() {
    let config = ModelConfig {
        base_url: "https://example.test/v1//".to_string(),
        api_key: "key".to_string(),
        model: "m".to_string(),
    };
    assert_eq!(config.completions_url(), "https://example.test/v1/chat/completions");
    assert_eq!(
        http_refusal("404 Not Found", "gone", false).message(),
        "http error: HTTP status 404 Not Found for chat/completions: gone"
    );
    assert_eq!(
        http_refusal("500", "x", true).message(),
        "http error: HTTP status 500 for streamed chat/completions: x"
    );
}
