//! The small agent: its turns, its functions, its requests and its log.
use lite_agent::agent_core::model::{OpenAiResponseMessage, OpenAiToolCall, OpenAiToolCalls};
use lite_agent::error::AgentError;
use lite_agent::ids::IdSource;
use lite_agent::kernel::events::{
    GoalState, GoalStatus, Thread, ToolResult, TurnItemKind, TurnStatus,
};
use lite_agent::kernel::model::{FunctionSpec, ModelFunctionCall};
use lite_agent::lite::events::{append, ThreadEvent, ThreadEventKind};
use lite_agent::lite::functions::{
    ask_user, get_goal, update_goal, FunctionContext, FunctionExecution,
};
use lite_agent::lite::model::{read_response, request_value, ModelRequest, ModelResponse};
use lite_agent::lite::projection::{ChatMessage, ChatRole, ThreadProjection};
use lite_agent::lite::turn::{
    begin_turn, AgentConfig, TurnAction, TurnInput, TurnOutcome, TurnRequest,
};
use lite_agent::runtime::functions::{ask_user_spec, get_goal_spec, update_goal_spec, ThreadUpdate};
use serde_json::Value;
use std::collections::VecDeque;

fn object(fields: &[(&str, Value)]) -> Value {
    Value::Object(fields.iter().map(|(name, value)| (name.to_string(), value.clone())).collect())
}

fn text(value: &str) -> Value {
    Value::String(value.to_string())
}

fn calls(call_id: &str, name: &str, arguments: Value) -> ModelResponse {
    ModelResponse::FunctionCalls {
        calls: vec![ModelFunctionCall {
            call_id: call_id.to_string(),
            name: name.to_string(),
            arguments,
        }],
    }
}

fn message(words: &str) -> ModelResponse {
    ModelResponse::AssistantMessage { text: words.to_string() }
}

fn goal(objective: &str) -> GoalState {
    GoalState { objective: objective.to_string(), status: GoalStatus::Active, notes: None }
}

fn empty_context() -> FunctionContext {
    FunctionContext {
        projection: ThreadProjection::from_thread(&Thread::new("t", &IdSource::new())),
    }
}

struct World {
    thread: Option<Thread>,
    responses: VecDeque<ModelResponse>,
    requests: Vec<ModelRequest>,
    config: AgentConfig,
    ids: IdSource,
}

impl World {
    fn new(responses: Vec<ModelResponse>) -> Self {
        World {
            thread: None,
            responses: VecDeque::from(responses),
            requests: Vec::new(),
            config: AgentConfig::default(),
            ids: IdSource::new(),
        }
    }

    fn call_function(
        &mut self,
        name: &str,
        arguments: &Value,
        context: &FunctionContext,
    ) -> Result<FunctionExecution, AgentError> {
        match name {
            "get_goal" => Ok(get_goal(context)),
            "update_goal" => {
                let objective = arguments["objective"].as_str().expect("objective");
                update_goal(Ok(goal(objective)), context, &mut self.ids)
            }
            "ask_user" => {
                let prompt = arguments["prompt"].as_str().expect("prompt");
                ask_user(Ok(prompt.to_string()), &mut self.ids)
            }
            _ => Err(AgentError::FunctionNotFound(name.to_string())),
        }
    }

    fn run_turn(&mut self, words: &str) -> Result<TurnOutcome, AgentError> {
        let functions: Vec<FunctionSpec> =
            vec![get_goal_spec(), update_goal_spec(), ask_user_spec()];
        let request = TurnRequest {
            thread_id: "t".to_string(),
            user_text: words.to_string(),
            config: self.config.clone(),
            functions,
        };
        let loaded = match &self.thread {
            Some(thread) => Ok(thread.clone()),
            None => Err(AgentError::ThreadNotFound("t".to_string())),
        };
        let mut step = begin_turn(request, loaded, self.ids)?;
        loop {
            self.ids = step.ids;
            let input = match step.action {
                TurnAction::Save(thread) => {
                    self.thread = Some(thread.clone());
                    TurnInput::Saved(thread)
                }
                TurnAction::CallModel(request) => {
                    self.requests.push(request);
                    match self.responses.pop_front() {
                        Some(response) => TurnInput::ModelReplied(response),
                        None => TurnInput::ModelFailed(AgentError::Model(
                            "no mock response".to_string(),
                        )),
                    }
                }
                TurnAction::CallFunction { name, arguments, context } => {
                    match self.call_function(&name, &arguments, &context) {
                        Ok(execution) => TurnInput::FunctionReturned(execution),
                        Err(error) => TurnInput::FunctionFailed(error),
                    }
                }
                TurnAction::Wait => panic!("the turn waits for nothing"),
                TurnAction::Finish(outcome) => return Ok(outcome),
                TurnAction::Fail(error) => return Err(error),
            };
            step = step.run.step(input, self.ids);
        }
    }

    fn thread(&self) -> &Thread {
        self.thread.as_ref().expect("thread")
    }

    fn has(&self, wanted: fn(&TurnItemKind) -> bool) -> bool {
        self.thread().turns[0].items.iter().any(|item| wanted(&item.kind))
    }
}

#[test]
fn lite_simple_assistant_message_ends_turn() {
    let mut world = World::new(vec![message("hello")]);
    let outcome = world.run_turn("hi").expect("turn");
    assert_eq!(outcome, TurnOutcome::AssistantMessage { text: "hello".to_string() });
    assert_eq!(world.thread().turns.len(), 1);
    assert_eq!(world.thread().turns[0].status, TurnStatus::Completed);
    assert_eq!(world.thread().turns[0].items.len(), 2);
}

#[test]
fn lite_update_goal_then_message() {
    let arguments = object(&[("objective", text("ship")), ("status", text("active"))]);
    let mut world = World::new(vec![calls("c1", "update_goal", arguments), message("goal set")]);
    let outcome = world.run_turn("set a goal").expect("turn");
    assert_eq!(outcome, TurnOutcome::AssistantMessage { text: "goal set".to_string() });
    let set = world.thread().goal.as_ref();
    assert_eq!(set.map(|goal| goal.objective.as_str()), Some("ship"));
    assert!(world.has(|kind| matches!(kind, TurnItemKind::GoalUpdated { .. })));
    assert_eq!(
        world.requests[1].messages[1].content,
        "Current thread goal: objective=ship, status=Active, notes="
    );
}

#[test]
fn lite_ask_user_stops_turn() {
    let arguments = object(&[("prompt", text("Which one?"))]);
    let mut world = World::new(vec![calls("c1", "ask_user", arguments), message("thanks")]);
    let outcome = world.run_turn("compare").expect("turn");
    assert!(matches!(outcome, TurnOutcome::WaitingForUser { .. }));
    assert_eq!(world.thread().turns[0].status, TurnStatus::WaitingForUser);
    assert!(world.has(|kind| matches!(kind, TurnItemKind::UserInputRequested { .. })));
    let TurnOutcome::WaitingForUser { request_id, prompt } = outcome else {
        panic!("expected waiting")
    };
    assert_eq!(prompt, "Which one?");
    world.run_turn("the first").expect("turn");
    assert!(matches!(
        &world.thread().turns[1].items[0].kind,
        TurnItemKind::UserInput { response_to, .. } if *response_to == Some(request_id)
    ));
}

#[test]
fn lite_function_failure_becomes_tool_error() {
    let mut world =
        World::new(vec![calls("c1", "missing", object(&[])), message("could not call it")]);
    let outcome = world.run_turn("call missing").expect("turn");
    assert!(matches!(outcome, TurnOutcome::AssistantMessage { .. }));
    assert!(world.has(|kind| matches!(
        kind,
        TurnItemKind::ToolOutput { result: ToolResult::Error { .. }, .. }
    )));
}

#[test]
fn lite_max_iterations_fails_turn() {
    let mut world = World::new(vec![calls("c1", "get_goal", object(&[]))]);
    world.config = AgentConfig { max_model_iterations: 1, ..AgentConfig::default() };
    let outcome = world.run_turn("goal?").expect("turn");
    assert!(matches!(outcome, TurnOutcome::Failed { .. }));
    assert_eq!(world.thread().turns[0].status, TurnStatus::Failed);
    assert!(world.has(|kind| matches!(kind, TurnItemKind::TurnFailed { .. })));
}

#[test]
fn lite_empty_call_list_fails_turn() {
    let mut world = World::new(vec![ModelResponse::FunctionCalls { calls: Vec::new() }]);
    let outcome = world.run_turn("hi").expect("turn");
    assert_eq!(
        outcome,
        TurnOutcome::Failed { error: "model returned an empty function call list".to_string() }
    );
    assert_eq!(AgentConfig::default().max_model_iterations, 8);
}

#[test]
fn update_goal_returns_thread_update_and_item() {
    let context = empty_context();
    let execution = update_goal(Ok(goal("ship v1")), &context, &mut IdSource::new()).expect("call");
    let FunctionExecution::Completed { thread_update, extra_items, .. } = execution else {
        panic!("expected completion");
    };
    assert!(matches!(
        thread_update,
        Some(ThreadUpdate::Goal(goal)) if goal.status == GoalStatus::Active
    ));
    assert!(matches!(extra_items[0].kind, TurnItemKind::GoalUpdated { .. }));
    let error =
        update_goal(Err("missing field".to_string()), &context, &mut IdSource::new()).unwrap_err();
    assert!(matches!(
        error,
        AgentError::InvalidFunctionArguments { name, message }
            if name == "update_goal" && message == "missing field"
    ));
}

#[test]
fn ask_user_returns_waiting_state() {
    let execution =
        ask_user(Ok("Which thread?".to_string()), &mut IdSource::new()).expect("call");
    let FunctionExecution::WaitingForUser { prompt, extra_items, output, .. } = execution else {
        panic!("expected waiting");
    };
    assert_eq!(prompt, "Which thread?");
    assert!(matches!(extra_items[0].kind, TurnItemKind::UserInputRequested { .. }));
    assert_eq!(output["status"], "waiting_for_user");
    assert!(ask_user(Err("no prompt".to_string()), &mut IdSource::new()).is_err());
}

#[test]
fn an_unset_goal_is_null() {
    let FunctionExecution::Completed { output, .. } = get_goal(&empty_context()) else {
        panic!("expected completion");
    };
    assert_eq!(output, object(&[("goal", Value::Null)]));
}

#[test]
fn plain_requests_leave_out_what_a_message_lacks() {
    let request = ModelRequest {
        messages: vec![
            ChatMessage {
                role: ChatRole::User,
                content: "hi".to_string(),
                name: None,
                tool_call_id: None,
            },
            ChatMessage {
                role: ChatRole::Assistant,
                content: "called".to_string(),
                name: None,
                tool_call_id: Some("c1".to_string()),
            },
        ],
        functions: vec![get_goal_spec()],
    };
    let value = request_value("model", &request);
    assert_eq!(value["model"], "model");
    assert_eq!(value["messages"][0], object(&[("role", text("user")), ("content", text("hi"))]));
    assert_eq!(value["messages"][1]["tool_call_id"], "c1");
    assert_eq!(value["tools"][0]["function"]["name"], "get_goal");
    assert_eq!(value["tool_choice"], "auto");
    assert_eq!(value["stream"], false);
}

#[test]
fn plain_answers_keep_arguments_that_are_no_json() {
    let answer = |arguments: &str| OpenAiResponseMessage {
        content: Some("ignored".to_string()),
        tool_calls: Some(OpenAiToolCalls {
            calls: vec![OpenAiToolCall {
                id: "c1".to_string(),
                name: "f".to_string(),
                arguments: arguments.to_string(),
            }],
        }),
    };
    let read = |arguments: &str| match read_response(&vec![answer(arguments)]) {
        Ok(ModelResponse::FunctionCalls { calls }) => calls[0].arguments.clone(),
        other => panic!("expected calls, got {other:?}"),
    };
    assert_eq!(read("{\"a\":1}")["a"], 1);
    assert_eq!(read("not json"), text("not json"));
    assert!(matches!(
        read_response(&Vec::new()),
        Err(AgentError::Model(words)) if words == "chat/completions returned no choices"
    ));
    let silent = OpenAiResponseMessage { content: None, tool_calls: None };
    assert!(matches!(
        read_response(&vec![silent]),
        Err(AgentError::Model(words))
            if words == "chat/completions response had no content or tool calls"
    ));
}

#[test]
fn round_trips_json_events() {
    let mut ids = IdSource::new();
    let event = ThreadEvent::new(
        ThreadEventKind::AssistantMessageEmitted { text: "hello".to_string() },
        &mut ids,
    );
    let missing = Err(AgentError::ThreadNotFound("t1".to_string()));
    let thread = append("t1", missing, vec![event.clone()]).expect("append");
    assert_eq!(thread.id, "t1");
    assert_eq!(thread.events.len(), 1);
    let longer = append("t1", Ok(thread), vec![event]).expect("append");
    assert_eq!(longer.events.len(), 2);
    let failed = append("t1", Err(AgentError::Model("disk".to_string())), Vec::new());
    assert!(matches!(failed, Err(AgentError::Model(_))));
}
