//! Turns of an agent with a single store, driven step by step.
use lite_agent::agent_core::agent_loop::{
    AgentConfig, RuntimeContextInput, RuntimeContextProvider,
};
use lite_agent::agent_core::context::{
    CompactingContextBuilder, ContextBuildInput, ContextCompactor,
};
use lite_agent::agent_core::store::commit;
use lite_agent::agent_core::turn::machine::begin;
use lite_agent::agent_core::turn::parts::{TurnAction, TurnInput, TurnRequest};
use lite_agent::error::AgentError;
use lite_agent::ids::IdSource;
use lite_agent::kernel::events::{
    GoalState, GoalStatus, Thread, TokenUsage, ToolResult, TurnItemKind, TurnStatus,
};
use lite_agent::kernel::model::{
    FunctionSpec, ModelFunctionCall, ModelRequest, ModelResponse, ModelStreamEvent,
};
use lite_agent::kernel::projection::{ChatMessage, ThreadProjection};
use lite_agent::runtime::agent_loop::{
    FunctionCallHookResult, TurnOutcome, TurnStateEvent, TurnStreamEvent,
};
use lite_agent::runtime::context::ApproximateTokenEstimator;
use lite_agent::runtime::functions::{
    ask_user, builtin_registry, get_goal, update_goal, FunctionContext, FunctionExecution,
    FunctionRegistry,
};
use serde_json::Value;
use std::collections::VecDeque;

fn object(fields: &[(&str, Value)]) -> Value {
    Value::Object(fields.iter().map(|(name, value)| (name.to_string(), value.clone())).collect())
}

fn text(value: &str) -> Value {
    Value::String(value.to_string())
}

fn call(call_id: &str, name: &str, arguments: Value) -> ModelFunctionCall {
    ModelFunctionCall { call_id: call_id.to_string(), name: name.to_string(), arguments }
}

fn message(words: &str) -> ModelResponse {
    ModelResponse::AssistantMessage { text: words.to_string() }
}

fn calls(calls: Vec<ModelFunctionCall>) -> ModelResponse {
    ModelResponse::FunctionCalls { calls }
}

#[derive(Clone, Copy)]
enum Builtin {
    GetGoal,
    UpdateGoal,
    AskUser,
}

struct Hook {
    label: &'static str,
    fail_before: bool,
    fail_after: bool,
}

fn hook(label: &'static str) -> Hook {
    Hook { label, fail_before: false, fail_after: false }
}

struct NoSummaries;

impl ContextCompactor for NoSummaries {
    fn compact(&self, _omitted: &Vec<ChatMessage>) -> Result<Option<ChatMessage>, AgentError> {
        Ok(None)
    }
}

fn request_messages(
    projection: &ThreadProjection,
    runtime_context: Option<&str>,
) -> Result<Vec<ChatMessage>, AgentError> {
    let builder: CompactingContextBuilder<ApproximateTokenEstimator, NoSummaries> =
        CompactingContextBuilder::default();
    let config = AgentConfig::<()>::default();
    builder.build_now(&ContextBuildInput {
        projection,
        system_prompt: &config.system_prompt,
        runtime_context,
    })
}

struct World {
    thread: Option<Thread>,
    responses: VecDeque<ModelResponse>,
    usage: Option<TokenUsage>,
    abort_model: bool,
    runtime_context: Option<String>,
    hooks: Vec<Hook>,
    hook_log: Vec<String>,
    events: Vec<TurnStreamEvent>,
    requests: Vec<ModelRequest>,
    max_model_iterations: usize,
    registry: FunctionRegistry<Builtin>,
    ids: IdSource,
}

impl World {
    fn new(responses: Vec<ModelResponse>) -> Self {
        World {
            thread: None,
            responses: VecDeque::from(responses),
            usage: None,
            abort_model: false,
            runtime_context: None,
            hooks: Vec::new(),
            hook_log: Vec::new(),
            events: Vec::new(),
            requests: Vec::new(),
            max_model_iterations: AgentConfig::<()>::default().max_model_iterations,
            registry: builtin_registry(Builtin::GetGoal, Builtin::UpdateGoal, Builtin::AskUser),
            ids: IdSource::new(),
        }
    }

    fn specs(&self) -> Vec<FunctionSpec> {
        self.registry.specs()
    }

    fn goal(arguments: &Value) -> Result<GoalState, String> {
        let objective = arguments["objective"].as_str().ok_or("missing field `objective`")?;
        let status = match arguments["status"].as_str() {
            Some("active") => GoalStatus::Active,
            Some("complete") => GoalStatus::Complete,
            Some("blocked") => GoalStatus::Blocked,
            _ => return Err("unknown status".to_string()),
        };
        Ok(GoalState { objective: objective.to_string(), status, notes: None })
    }

    fn call_function(
        &mut self,
        name: &str,
        arguments: &Value,
        context: &FunctionContext,
    ) -> Result<FunctionExecution, AgentError> {
        let builtin = *self.registry.get(name)?;
        Ok(match builtin {
            Builtin::GetGoal => get_goal(context),
            Builtin::UpdateGoal => update_goal(World::goal(arguments))?,
            Builtin::AskUser => ask_user(
                arguments["prompt"].as_str().map(str::to_string).ok_or("no prompt".to_string()),
                &mut self.ids,
            )?,
        })
    }

    fn run_turn(&mut self, words: &str) -> Result<TurnOutcome, AgentError> {
        let request = TurnRequest {
            thread_id: "t".to_string(),
            user_text: words.to_string(),
            runtime_context: self.runtime_context.clone(),
            functions: self.specs(),
            max_model_iterations: self.max_model_iterations,
            hook_count: self.hooks.len(),
        };
        let loaded = match &self.thread {
            Some(thread) => Ok(thread.clone()),
            None => Err(AgentError::ThreadNotFound("t".to_string())),
        };
        let mut step = begin(request, loaded, self.ids)?;
        loop {
            self.ids = step.ids;
            self.events.extend(step.events);
            let run = step.run;
            let input = match step.action {
                TurnAction::Commit(thread) => {
                    let version = thread.version;
                    let thread = commit(self.thread.as_ref(), thread, version, &self.ids)?;
                    self.thread = Some(thread.clone());
                    TurnInput::Committed(thread)
                }
                TurnAction::BuildContext { projection, runtime_context } => {
                    let messages = request_messages(&projection, runtime_context.as_deref())?;
                    TurnInput::ContextBuilt { messages }
                }
                TurnAction::CallModel(request) => {
                    self.requests.push(request);
                    if self.abort_model {
                        TurnInput::Aborted
                    } else if let Some(usage) = self.usage.take() {
                        let event = TurnInput::Model(ModelStreamEvent::TokenUsage { usage });
                        step = run.step(event, self.ids);
                        assert_eq!(step.action, TurnAction::Wait);
                        self.ids = step.ids;
                        self.events.extend(step.events);
                        let response = self.responses.pop_front().expect("response");
                        step = step.run.step(TurnInput::ModelReplied(response), self.ids);
                        continue;
                    } else {
                        match self.responses.pop_front() {
                            Some(response) => TurnInput::ModelReplied(response),
                            None => TurnInput::ModelFailed(AgentError::Model(
                                "no mock response".to_string(),
                            )),
                        }
                    }
                }
                TurnAction::BeforeHook { hook, context } => {
                    let hook = &self.hooks[hook];
                    self.hook_log.push(format!("before:{}:{}", hook.label, context.name));
                    if hook.fail_before {
                        TurnInput::HookFailed(AgentError::Function {
                            name: context.name,
                            message: format!("{} blocked call", hook.label),
                        })
                    } else {
                        TurnInput::HookPassed
                    }
                }
                TurnAction::CallFunction { name, arguments, context } => {
                    match self.call_function(&name, &arguments, &context) {
                        Ok(execution) => TurnInput::FunctionReturned(execution),
                        Err(error) => TurnInput::FunctionFailed(error),
                    }
                }
                TurnAction::AfterHook { hook, context, result } => {
                    let hook = &self.hooks[hook];
                    let label = match result {
                        FunctionCallHookResult::Completed { .. } => "completed",
                        FunctionCallHookResult::Suspended { .. } => "waiting",
                        FunctionCallHookResult::Failed { .. } => "failed",
                    };
                    self.hook_log.push(format!("after:{}:{}:{label}", hook.label, context.name));
                    if hook.fail_after {
                        TurnInput::HookFailed(AgentError::Function {
                            name: context.name,
                            message: format!("{} post-hook failed", hook.label),
                        })
                    } else {
                        TurnInput::HookPassed
                    }
                }
                TurnAction::Wait => panic!("the turn waits for nothing"),
                TurnAction::Finish(outcome) => return Ok(outcome),
                TurnAction::Fail(error) => return Err(error),
            };
            step = run.step(input, self.ids);
        }
    }

    fn thread(&self) -> &Thread {
        self.thread.as_ref().expect("thread")
    }

    fn first_suspension(&self) -> TurnOutcome {
        self.kinds()
            .into_iter()
            .find_map(|kind| match kind {
                TurnItemKind::SuspensionCreated { suspension } => {
                    Some(TurnOutcome::Suspended { suspension: suspension.clone() })
                }
                _ => None,
            })
            .expect("suspension")
    }

    fn kinds(&self) -> Vec<&TurnItemKind> {
        self.thread().turns[0].items.iter().map(|item| &item.kind).collect()
    }
}

#[test]
fn simple_assistant_message_ends_turn() {
    let mut world = World::new(vec![message("hello")]);
    let outcome = world.run_turn("hi").expect("turn");
    assert_eq!(outcome, TurnOutcome::AssistantMessage { text: "hello".to_string() });
    let thread = world.thread();
    assert_eq!(thread.turns.len(), 1);
    assert_eq!(thread.turns[0].status, TurnStatus::Completed);
    assert_eq!(thread.turns[0].items.len(), 2);
}

#[test]
fn persists_assistant_text_when_response_also_requests_tools() {
    let mut world = World::new(vec![
        ModelResponse::Assistant {
            text: Some("I will check the goal first.".to_string()),
            function_calls: vec![call("c1", "get_goal", object(&[]))],
        },
        ModelResponse::Assistant {
            text: Some("The goal is not set.".to_string()),
            function_calls: Vec::new(),
        },
    ]);
    world.run_turn("check").expect("turn");
    let messages = world
        .kinds()
        .into_iter()
        .filter_map(|kind| match kind {
            TurnItemKind::ModelMessage { text } => Some(text.as_str()),
            _ => None,
        })
        .collect::<Vec<_>>();
    assert_eq!(messages, vec!["I will check the goal first.", "The goal is not set."]);
}

#[test]
fn abort_during_model_request_persists_aborted_turn() {
    let mut world = World::new(Vec::new());
    world.abort_model = true;
    let outcome = world.run_turn("slow").expect("turn");
    assert!(matches!(outcome, TurnOutcome::Aborted { .. }));
    assert_eq!(world.thread().turns.len(), 1);
    assert_eq!(world.thread().turns[0].status, TurnStatus::Aborted);
    assert!(world.kinds().iter().any(|kind| matches!(kind, TurnItemKind::TurnAborted { .. })));
    assert!(world
        .events
        .iter()
        .any(|event| matches!(event, TurnStreamEvent::State(TurnStateEvent::TurnAborted { .. }))));
}

#[test]
fn stream_emits_intermediate_and_final_events() {
    let mut world =
        World::new(vec![calls(vec![call("c1", "get_goal", object(&[]))]), message("done")]);
    let outcome = world.run_turn("goal?").expect("turn");
    assert_eq!(outcome, TurnOutcome::AssistantMessage { text: "done".to_string() });
    assert!(world.events.iter().any(|event| matches!(
        event,
        TurnStreamEvent::State(TurnStateEvent::FunctionStarted { .. })
    )));
    assert!(world
        .events
        .iter()
        .any(|event| matches!(event, TurnStreamEvent::State(TurnStateEvent::TurnFinished { .. }))));
}

#[test]
fn turn_token_usage_is_emitted_and_persisted_on_thread() {
    let mut world = World::new(vec![message("done")]);
    world.usage = Some(TokenUsage {
        input_tokens: 10,
        cached_input_tokens: 2,
        output_tokens: 4,
        total_tokens: 14,
    });
    let outcome = world.run_turn("usage?").expect("turn");
    assert!(matches!(outcome, TurnOutcome::AssistantMessage { .. }));
    let usage = world
        .events
        .iter()
        .find_map(|event| match event {
            TurnStreamEvent::State(TurnStateEvent::TurnTokenUsage { usage }) => Some(*usage),
            _ => None,
        })
        .expect("usage event");
    assert_eq!(usage.input_tokens, 10);
    assert_eq!(usage.cached_input_tokens, 2);
    assert_eq!(usage.output_tokens, 4);
    assert_eq!(usage.total_tokens, 14);
    assert_eq!(world.thread().token_usage, usage);
}

#[test]
fn update_goal_then_message() {
    let arguments = object(&[("objective", text("ship")), ("status", text("active"))]);
    let mut world =
        World::new(vec![calls(vec![call("c1", "update_goal", arguments)]), message("goal set")]);
    let outcome = world.run_turn("set a goal").expect("turn");
    assert_eq!(outcome, TurnOutcome::AssistantMessage { text: "goal set".to_string() });
    let goal = world.thread().goal.as_ref();
    assert_eq!(goal.map(|goal| goal.objective.as_str()), Some("ship"));
    assert!(world.kinds().iter().any(|kind| matches!(kind, TurnItemKind::GoalUpdated { .. })));
}

#[test]
fn function_failure_becomes_tool_error() {
    let mut world = World::new(vec![
        calls(vec![call("c1", "missing", object(&[]))]),
        message("could not call it"),
    ]);
    let outcome = world.run_turn("call missing").expect("turn");
    assert!(matches!(outcome, TurnOutcome::AssistantMessage { .. }));
    assert!(world
        .kinds()
        .iter()
        .any(|kind| matches!(kind, TurnItemKind::ToolOutput { result: ToolResult::Error { .. }, .. })));
}

#[test]
fn function_call_hooks_are_stacked_in_order() {
    let mut world =
        World::new(vec![calls(vec![call("c1", "get_goal", object(&[]))]), message("done")]);
    world.hooks = vec![hook("a"), hook("b")];
    let outcome = world.run_turn("goal?").expect("turn");
    assert!(matches!(outcome, TurnOutcome::AssistantMessage { .. }));
    assert_eq!(
        world.hook_log,
        vec![
            "before:a:get_goal",
            "before:b:get_goal",
            "after:a:get_goal:completed",
            "after:b:get_goal:completed",
        ]
    );
}

#[test]
fn post_hook_failure_is_non_blocking_runtime_event() {
    let mut world =
        World::new(vec![calls(vec![call("c1", "get_goal", object(&[]))]), message("done")]);
    world.hooks = vec![Hook { fail_after: true, ..hook("audit") }];
    let outcome = world.run_turn("goal?").expect("turn");
    assert_eq!(outcome, TurnOutcome::AssistantMessage { text: "done".to_string() });
    assert_eq!(world.hook_log, vec!["before:audit:get_goal", "after:audit:get_goal:completed"]);
    assert!(world.events.iter().any(|event| matches!(
        event,
        TurnStreamEvent::Runtime(event)
            if event.source == "function_call_hook"
                && event.message == "post-hook failed"
                && event.metadata["name"] == "get_goal"
    )));
    assert!(world.kinds().iter().any(|kind| matches!(
        kind,
        TurnItemKind::ToolOutput { result: ToolResult::Success { .. }, .. }
    )));
}

#[test]
fn max_iterations_fails_turn() {
    let mut world = World::new(vec![calls(vec![call("c1", "get_goal", object(&[]))])]);
    world.max_model_iterations = 1;
    let outcome = world.run_turn("goal?").expect("turn");
    assert!(matches!(outcome, TurnOutcome::Failed { .. }));
    assert_eq!(world.thread().turns[0].status, TurnStatus::Failed);
    assert!(world.kinds().iter().any(|kind| matches!(kind, TurnItemKind::TurnFailed { .. })));
    assert_eq!(world.requests.len(), 1);
}

#[test]
fn ask_user_stops_turn() {
    let mut world = World::new(vec![
        calls(vec![call("c1", "ask_user", object(&[("prompt", text("Which one?"))]))]),
        message("thanks"),
    ]);
    let outcome = world.run_turn("compare").expect("turn");
    assert!(matches!(outcome, TurnOutcome::Suspended { .. }));
    assert_eq!(world.thread().turns[0].status, TurnStatus::Suspended);
    assert!(world
        .kinds()
        .iter()
        .any(|kind| matches!(kind, TurnItemKind::SuspensionCreated { .. })));

    let outcome = world.run_turn("the first one").expect("turn");
    assert_eq!(outcome, TurnOutcome::AssistantMessage { text: "thanks".to_string() });
    let TurnOutcome::Suspended { suspension } = world.first_suspension() else {
        panic!("the first turn was suspended")
    };
    assert!(matches!(
        &world.thread().turns[1].items[0].kind,
        TurnItemKind::UserInput { text, response_to }
            if text == "the first one" && response_to.as_deref() == Some(suspension.id.as_str())
    ));
}

#[test]
fn pre_hook_failure_blocks_function_and_records_tool_error() {
    let mut world =
        World::new(vec![calls(vec![call("c1", "get_goal", object(&[]))]), message("blocked")]);
    world.hooks = vec![Hook { fail_before: true, ..hook("policy") }];
    let outcome = world.run_turn("goal?").expect("turn");
    assert!(matches!(outcome, TurnOutcome::AssistantMessage { .. }));
    assert_eq!(world.hook_log, vec!["before:policy:get_goal", "after:policy:get_goal:failed"]);
    let outputs =
        world.kinds().iter().filter(|kind| matches!(kind, TurnItemKind::ToolOutput { .. })).count();
    assert_eq!(outputs, 1);
    assert!(world.kinds().iter().any(|kind| matches!(
        kind,
        TurnItemKind::ToolOutput { call_id, name, result: ToolResult::Error { error } }
            if call_id == "c1" && name == "get_goal" && error.contains("policy blocked call")
    )));
}

#[test]
fn model_request_includes_current_time_context() {
    let messages = request_messages(&ThreadProjection::default(), None).expect("context");
    let Some(ChatMessage::System { content }) = messages.first() else {
        panic!("missing system message");
    };
    assert!(content.contains("Current time context: local="));
    assert!(content.contains("utc="));
    assert!(content.contains("time-sensitive answers"));
}

#[test]
fn runtime_context_is_added_to_system_prompt_not_user_input() {
    let mut world = World::new(vec![message("hello")]);
    let thread_id = "thread-a";
    let query = "coffee shop lights";
    world.runtime_context =
        Some(format!("<runtime thread=\"{thread_id}\">query={query}</runtime>"));
    let outcome = world.run_turn(query);
    assert!(matches!(outcome, Ok(TurnOutcome::AssistantMessage { .. })));
    let system = world.requests[0]
        .messages
        .iter()
        .find_map(|message| match message {
            ChatMessage::System { content } => Some(content),
            _ => None,
        })
        .expect("system message");
    assert!(system.contains("<runtime thread=\"thread-a\">query=coffee shop lights</runtime>"));
    let TurnItemKind::UserInput { text, .. } = &world.thread().turns[0].items[0].kind else {
        panic!("missing user input");
    };
    assert_eq!(text, "coffee shop lights");
}

#[test]
fn a_stale_thread_is_not_stored() {
    let mut world = World::new(vec![message("hello")]);
    world.run_turn("hi").expect("turn");
    let current = world.thread().clone();
    let stale = current.version - 1;
    let error = commit(Some(&current), current.clone(), stale, &world.ids).unwrap_err();
    assert!(matches!(
        error,
        AgentError::VersionConflict { expected, actual, .. }
            if expected == stale && actual == current.version
    ));
    let stored = commit(Some(&current), current.clone(), current.version, &world.ids).unwrap();
    assert_eq!(stored.version, current.version + 1);
}

struct Echo;

impl RuntimeContextProvider for Echo {
    fn context_for_turn(&self, input: RuntimeContextInput<'_>) -> Option<String> {
        Some(format!("{}: {}", input.thread_id, input.user_text))
    }
}

#[test]
fn the_host_is_asked_about_each_turn() {
    let mut config = AgentConfig::<Echo>::default();
    assert_eq!(config.max_model_iterations, 128);
    assert_eq!(config.runtime_context("t", "hi"), None);
    config.runtime_context_provider = Some(Echo);
    assert_eq!(config.runtime_context("t", "hi").as_deref(), Some("t: hi"));
}
