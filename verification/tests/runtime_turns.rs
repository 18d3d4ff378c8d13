//! Turns of the runtime, driven step by step.
use lite_agent::error::AgentError;
use lite_agent::ids::IdSource;
use lite_agent::kernel::events::{
    GoalState, GoalStatus, Suspension, SuspensionKind, Thread, TokenUsage, ToolResult,
    TurnItemKind, TurnStatus,
};
use lite_agent::kernel::model::{
    FunctionSpec, ModelFunctionCall, ModelRequest, ModelResponse, ModelStreamEvent,
};
use lite_agent::kernel::projection::{ChatMessage, ThreadProjection};
use lite_agent::runtime::agent_loop::{
    AgentConfig, FunctionCallHookResult, TurnOutcome, TurnStateEvent, TurnStreamEvent,
};
use lite_agent::runtime::context::{
    ApproximateTokenEstimator, CompactingContextBuilder, ContextBuild, ContextBuildInput,
};
use lite_agent::runtime::functions::{
    ask_user, builtin_registry, get_goal, into_call_execution, update_goal, FunctionCallExecution,
    FunctionContext, FunctionRegistry, SuspensionResolution,
};
use lite_agent::runtime::resume::{resume_suspended_turn, ResumeAction, ResumeInput};
use lite_agent::runtime::store::{compare_and_commit, ThreadContextCache};
use lite_agent::runtime::trace::TraceEvent;
use lite_agent::runtime::turn::machine::begin;
use lite_agent::runtime::turn::parts::{TurnAction, TurnInput, TurnRequest};
use serde_json::Value;
use std::collections::VecDeque;

fn object(fields: &[(&str, Value)]) -> Value {
    Value::Object(fields.iter().map(|(name, value)| (name.to_string(), value.clone())).collect())
}

fn text(value: &str) -> Value {
    Value::String(value.to_string())
}

fn call(call_id: &str, name: &str, arguments: Value) -> ModelFunctionCall {
    ModelFunctionCall { call_id: call_id.to_string(), name: name.to_string(), arguments }
}

fn message(words: &str) -> ModelResponse {
    ModelResponse::AssistantMessage { text: words.to_string() }
}

fn calls(calls: Vec<ModelFunctionCall>) -> ModelResponse {
    ModelResponse::FunctionCalls { calls }
}

#[derive(Clone, Copy)]
enum Builtin {
    GetGoal,
    UpdateGoal,
    AskUser,
}

struct Hook {
    label: &'static str,
    fail_before: bool,
    fail_after: bool,
}

fn hook(label: &'static str) -> Hook {
    Hook { label, fail_before: false, fail_after: false }
}

struct World {
    thread: Option<Thread>,
    cache: Option<ThreadContextCache>,
    responses: VecDeque<ModelResponse>,
    usage: Option<TokenUsage>,
    abort_model: bool,
    needs_approval: bool,
    hooks: Vec<Hook>,
    hook_log: Vec<String>,
    events: Vec<TurnStreamEvent>,
    traces: Vec<TraceEvent>,
    requests: Vec<ModelRequest>,
    max_model_iterations: usize,
    registry: FunctionRegistry<Builtin>,
    ids: IdSource,
}

impl World {
    fn new(responses: Vec<ModelResponse>) -> Self {
        World {
            thread: None,
            cache: None,
            responses: VecDeque::from(responses),
            usage: None,
            abort_model: false,
            needs_approval: false,
            hooks: Vec::new(),
            hook_log: Vec::new(),
            events: Vec::new(),
            traces: Vec::new(),
            requests: Vec::new(),
            max_model_iterations: AgentConfig::default().max_model_iterations,
            registry: builtin_registry(Builtin::GetGoal, Builtin::UpdateGoal, Builtin::AskUser),
            ids: IdSource::new(),
        }
    }

    fn specs(&self) -> Vec<FunctionSpec> {
        self.registry.specs()
    }

    fn goal(arguments: &Value) -> Result<GoalState, String> {
        let objective = arguments["objective"].as_str().ok_or("missing field `objective`")?;
        let status = match arguments["status"].as_str() {
            Some("active") => GoalStatus::Active,
            Some("complete") => GoalStatus::Complete,
            Some("blocked") => GoalStatus::Blocked,
            _ => return Err("unknown status".to_string()),
        };
        Ok(GoalState { objective: objective.to_string(), status, notes: None })
    }

    fn call_function(
        &mut self,
        name: &str,
        arguments: &Value,
        context: &FunctionContext,
    ) -> Result<FunctionCallExecution, AgentError> {
        let builtin = *self.registry.get(name)?;
        if self.needs_approval {
            return Ok(FunctionCallExecution::SuspendedBeforeExecution {
                suspension: Suspension {
                    id: "s1".to_string(),
                    kind: SuspensionKind::HumanApproval,
                    payload: object(&[
                        ("call_id", text(&context.call_id)),
                        ("deferred", Value::Bool(true)),
                    ]),
                },
                effects: Vec::new(),
            });
        }
        let execution = match builtin {
            Builtin::GetGoal => get_goal(context),
            Builtin::UpdateGoal => update_goal(World::goal(arguments))?,
            Builtin::AskUser => ask_user(
                arguments["prompt"].as_str().map(str::to_string).ok_or("no prompt".to_string()),
                &mut self.ids,
            )?,
        };
        Ok(into_call_execution(execution))
    }

    fn run_turn(&mut self, words: &str) -> Result<TurnOutcome, AgentError> {
        self.drive(Some(words.to_string()), 0)
    }

    fn resume(&mut self, resolution: SuspensionResolution) -> Result<TurnOutcome, AgentError> {
        let loaded = Ok(self.thread().clone());
        let mut step = resume_suspended_turn(loaded, "s1", resolution, self.ids)?;
        loop {
            self.ids = step.ids;
            self.events.extend(step.events.into_iter().map(TurnStreamEvent::State));
            let input = match step.action {
                ResumeAction::Commit(thread) => {
                    let thread = compare_and_commit(self.thread.as_ref(), thread, &self.ids)?;
                    self.thread = Some(thread);
                    ResumeInput::Committed
                }
                ResumeAction::CallFunction { name, arguments, context } => {
                    match self.call_function(&name, &arguments, &context) {
                        Ok(execution) => ResumeInput::FunctionReturned(execution),
                        Err(error) => ResumeInput::FunctionFailed(error),
                    }
                }
                ResumeAction::Continue => return self.drive(None, 1),
                ResumeAction::Wait => panic!("the resumption waits for nothing"),
                ResumeAction::Finish(outcome) => return Ok(outcome),
                ResumeAction::Fail(error) => return Err(error),
            };
            step = step.run.step(input, self.ids);
        }
    }

    fn drive(
        &mut self,
        user_text: Option<String>,
        trace_sequence: u64,
    ) -> Result<TurnOutcome, AgentError> {
        let request = TurnRequest {
            thread_id: "t".to_string(),
            user_text,
            functions: self.specs(),
            max_model_iterations: self.max_model_iterations,
            hook_count: self.hooks.len(),
            trace_sequence,
        };
        let loaded = match &self.thread {
            Some(thread) => Ok(thread.clone()),
            None => Err(AgentError::ThreadNotFound("t".to_string())),
        };
        let mut step = begin(request, loaded, self.ids)?;
        loop {
            self.ids = step.ids;
            self.events.extend(step.events);
            self.traces.extend(step.traces);
            let run = step.run;
            let input = match step.action {
                TurnAction::Commit(thread) => {
                    let thread = compare_and_commit(self.thread.as_ref(), thread, &self.ids)?;
                    self.thread = Some(thread.clone());
                    TurnInput::Committed(thread)
                }
                TurnAction::LoadCache => TurnInput::CacheLoaded(self.cache.clone()),
                TurnAction::BuildContext { projection, revision, cache } => {
                    let builder: CompactingContextBuilder<ApproximateTokenEstimator, ()> =
                        CompactingContextBuilder::default();
                    let config = AgentConfig::default();
                    let built = builder.build_now(&ContextBuildInput {
                        thread_id: "t",
                        thread_revision: &revision,
                        projection: &projection,
                        system_prompt: &config.system_prompt,
                        runtime_context: None,
                        cached_context: cache.as_ref(),
                    })?;
                    match built {
                        ContextBuild::Ready(output) => TurnInput::ContextBuilt(output),
                        ContextBuild::Compact(_) => panic!("nothing to sum up"),
                    }
                }
                TurnAction::SaveCache(cache) => {
                    self.cache = Some(cache);
                    TurnInput::CacheSaved
                }
                TurnAction::CallModel(request) => {
                    self.requests.push(request);
                    if self.abort_model {
                        TurnInput::Aborted
                    } else if let Some(usage) = self.usage.take() {
                        let event = TurnInput::Model(ModelStreamEvent::TokenUsage { usage });
                        step = run.step(event, self.ids);
                        assert_eq!(step.action, TurnAction::Wait);
                        self.ids = step.ids;
                        self.events.extend(step.events);
                        let response = self.responses.pop_front().expect("response");
                        step = step.run.step(TurnInput::ModelReplied(response), self.ids);
                        continue;
                    } else {
                        match self.responses.pop_front() {
                            Some(response) => TurnInput::ModelReplied(response),
                            None => TurnInput::ModelFailed(AgentError::Model(
                                "no mock response".to_string(),
                            )),
                        }
                    }
                }
                TurnAction::BeforeHook { hook, context } => {
                    let hook = &self.hooks[hook];
                    self.hook_log.push(format!("before:{}:{}", hook.label, context.name));
                    if hook.fail_before {
                        TurnInput::HookFailed(AgentError::Function {
                            name: context.name,
                            message: format!("{} blocked call", hook.label),
                        })
                    } else {
                        TurnInput::HookPassed
                    }
                }
                TurnAction::CallFunction { name, arguments, context } => {
                    match self.call_function(&name, &arguments, &context) {
                        Ok(execution) => TurnInput::FunctionReturned(execution),
                        Err(error) => TurnInput::FunctionFailed(error),
                    }
                }
                TurnAction::AfterHook { hook, context, result } => {
                    let hook = &self.hooks[hook];
                    let label = match result {
                        FunctionCallHookResult::Completed { .. } => "completed",
                        FunctionCallHookResult::Suspended { .. } => "waiting",
                        FunctionCallHookResult::Failed { .. } => "failed",
                    };
                    self.hook_log.push(format!("after:{}:{}:{label}", hook.label, context.name));
                    if hook.fail_after {
                        TurnInput::HookFailed(AgentError::Function {
                            name: context.name,
                            message: format!("{} post-hook failed", hook.label),
                        })
                    } else {
                        TurnInput::HookPassed
                    }
                }
                TurnAction::Wait => panic!("the turn waits for nothing"),
                TurnAction::Finish(outcome) => return Ok(outcome),
                TurnAction::Fail(error) => return Err(error),
            };
            step = run.step(input, self.ids);
        }
    }

    fn thread(&self) -> &Thread {
        self.thread.as_ref().expect("thread")
    }

    fn kinds(&self) -> Vec<&TurnItemKind> {
        self.thread().turns[0].items.iter().map(|item| &item.kind).collect()
    }
}

#[test]
fn agent_loop_simple_assistant_message_ends_turn() {
    let mut world = World::new(vec![message("hello")]);
    let outcome = world.run_turn("hi").expect("turn");
    assert_eq!(outcome, TurnOutcome::AssistantMessage { text: "hello".to_string() });
    let thread = world.thread();
    assert_eq!(thread.turns.len(), 1);
    assert_eq!(thread.turns[0].status, TurnStatus::Completed);
    assert_eq!(thread.turns[0].items.len(), 2);
}

#[test]
fn empty_model_response_fails_turn() {
    let mut world =
        World::new(vec![ModelResponse::Assistant { text: None, function_calls: Vec::new() }]);
    let outcome = world.run_turn("hello").expect("turn");
    assert!(
        matches!(
            outcome,
            TurnOutcome::Failed { error } if error.contains(
                "neither assistant text nor function calls",
            ),
        )
    );
    assert_eq!(world.thread().turns[0].status, TurnStatus::Failed);
}

#[test]
fn agent_loop_persists_assistant_text_when_response_also_requests_tools() {
    let mut world = World::new(vec![
        ModelResponse::Assistant {
            text: Some("I will check the goal first.".to_string()),
            function_calls: vec![call("c1", "get_goal", object(&[]))],
        },
        ModelResponse::Assistant {
            text: Some("The goal is not set.".to_string()),
            function_calls: Vec::new(),
        },
    ]);
    world.run_turn("check").expect("turn");
    let messages = world
        .kinds()
        .into_iter()
        .filter_map(|kind| match kind {
            TurnItemKind::ModelResponse { text, .. } => text.as_deref(),
            _ => None,
        })
        .collect::<Vec<_>>();
    assert_eq!(messages, vec!["I will check the goal first.", "The goal is not set."]);
}

#[test]
fn agent_loop_abort_during_model_request_persists_aborted_turn() {
    let mut world = World::new(Vec::new());
    world.abort_model = true;
    let outcome = world.run_turn("slow").expect("turn");
    assert!(matches!(outcome, TurnOutcome::Aborted { .. }));
    assert_eq!(world.thread().turns.len(), 1);
    assert_eq!(world.thread().turns[0].status, TurnStatus::Aborted);
    assert!(world.kinds().iter().any(|kind| matches!(kind, TurnItemKind::TurnAborted { .. })));
    assert!(world
        .events
        .iter()
        .any(|event| matches!(event, TurnStreamEvent::State(TurnStateEvent::TurnAborted { .. }))));
}

#[test]
fn agent_loop_stream_emits_intermediate_and_final_events() {
    let mut world =
        World::new(vec![calls(vec![call("c1", "get_goal", object(&[]))]), message("done")]);
    let outcome = world.run_turn("goal?").expect("turn");
    assert_eq!(outcome, TurnOutcome::AssistantMessage { text: "done".to_string() });
    assert!(world.events.iter().any(|event| matches!(
        event,
        TurnStreamEvent::State(TurnStateEvent::FunctionStarted { .. })
    )));
    assert!(world
        .events
        .iter()
        .any(|event| matches!(event, TurnStreamEvent::State(TurnStateEvent::TurnFinished { .. }))));
}

#[test]
fn agent_loop_turn_token_usage_is_emitted_and_persisted_on_thread() {
    let mut world = World::new(vec![message("done")]);
    world.usage = Some(TokenUsage {
        input_tokens: 10,
        cached_input_tokens: 2,
        output_tokens: 4,
        total_tokens: 14,
    });
    let outcome = world.run_turn("usage?").expect("turn");
    assert!(matches!(outcome, TurnOutcome::AssistantMessage { .. }));
    let usage = world
        .events
        .iter()
        .find_map(|event| match event {
            TurnStreamEvent::State(TurnStateEvent::TurnTokenUsage { usage }) => Some(*usage),
            _ => None,
        })
        .expect("usage event");
    assert_eq!(usage.input_tokens, 10);
    assert_eq!(usage.cached_input_tokens, 2);
    assert_eq!(usage.output_tokens, 4);
    assert_eq!(usage.total_tokens, 14);
    assert_eq!(world.thread().token_usage, usage);
}

#[test]
fn agent_loop_update_goal_then_message() {
    let arguments = object(&[("objective", text("ship")), ("status", text("active"))]);
    let mut world =
        World::new(vec![calls(vec![call("c1", "update_goal", arguments)]), message("goal set")]);
    let outcome = world.run_turn("set a goal").expect("turn");
    assert_eq!(outcome, TurnOutcome::AssistantMessage { text: "goal set".to_string() });
    let projection = ThreadProjection::from_thread(world.thread());
    assert_eq!(projection.goal.as_ref().map(|goal| goal.objective.as_str()), Some("ship"));
    assert!(world.kinds().iter().any(|kind| matches!(kind, TurnItemKind::GoalUpdated { .. })));
}

#[test]
fn agent_loop_ask_user_stops_turn() {
    let mut world = World::new(vec![calls(vec![
        call("c1", "ask_user", object(&[("prompt", text("Which one?"))])),
        call("c2", "get_goal", object(&[])),
    ])]);
    let outcome = world.run_turn("compare").expect("turn");
    assert!(matches!(outcome, TurnOutcome::Suspended { .. }));
    assert_eq!(world.thread().turns[0].status, TurnStatus::Suspended);
    assert!(world
        .kinds()
        .iter()
        .any(|kind| matches!(kind, TurnItemKind::SuspensionCreated { .. })));
    let outputs =
        world.kinds().iter().filter(|kind| matches!(kind, TurnItemKind::ToolOutput { .. })).count();
    assert_eq!(outputs, 2);
    let error = world.run_turn("another prompt").unwrap_err();
    assert!(matches!(error, AgentError::SuspendedTurn { .. }));
}

fn awaiting_approval() -> World {
    let mut world = World::new(vec![
        calls(vec![call("c1", "get_goal", object(&[])), call("c2", "get_goal", object(&[]))]),
        message("done"),
    ]);
    world.needs_approval = true;
    let outcome = world.run_turn("what is the goal?").expect("turn");
    assert!(matches!(outcome, TurnOutcome::Suspended { .. }));
    let error = world.run_turn("another prompt").unwrap_err();
    assert!(matches!(error, AgentError::SuspendedTurn { .. }));
    world.events.clear();
    world
}

fn answer_to<'a>(world: &'a World, id: &str) -> &'a ToolResult {
    let found = world.kinds().into_iter().find_map(|kind| match kind {
        TurnItemKind::ToolOutput { call_id, result, .. } if call_id == id => Some(result),
        _ => None,
    });
    found.expect("answer")
}

#[test]
fn an_approved_call_lets_its_turn_complete() {
    let mut world = awaiting_approval();
    world.needs_approval = false;
    let outcome = world.resume(SuspensionResolution::Approve).expect("resumed turn");
    assert_eq!(outcome, TurnOutcome::AssistantMessage { text: "done".to_string() });
    assert_eq!(world.thread().turns.len(), 1);
    assert_eq!(world.thread().turns[0].status, TurnStatus::Completed);
    assert!(matches!(answer_to(&world, "c1"), ToolResult::Success { .. }));
    assert!(matches!(answer_to(&world, "c2"), ToolResult::Error { .. }));
    assert!(matches!(
        world.kinds().last(),
        Some(TurnItemKind::ModelResponse { text: Some(words), function_calls })
            if words == "done" && function_calls.is_empty()
    ));
    let inputs =
        world.kinds().iter().filter(|kind| matches!(kind, TurnItemKind::UserInput { .. })).count();
    assert_eq!(inputs, 1);
    assert!(matches!(
        world.events.last(),
        Some(TurnStreamEvent::State(TurnStateEvent::TurnFinished { .. }))
    ));
}

#[test]
fn a_denied_call_lets_its_turn_complete() {
    let mut world = awaiting_approval();
    let outcome = world
        .resume(SuspensionResolution::Deny { reason: "no".to_string() })
        .expect("resumed turn");
    assert_eq!(outcome, TurnOutcome::AssistantMessage { text: "done".to_string() });
    assert_eq!(world.thread().turns[0].status, TurnStatus::Completed);
    assert_eq!(
        answer_to(&world, "c1"),
        &ToolResult::Error { error: "execution denied by user: no".to_string() }
    );
    let asked = world.requests.last().expect("request");
    assert!(asked.messages.iter().any(|message| matches!(
        message,
        ChatMessage::Tool { tool_call_id, .. } if tool_call_id == "c1"
    )));
}

#[test]
fn a_caller_hears_of_a_turn_from_its_start_to_its_end() {
    let mut world =
        World::new(vec![calls(vec![call("c1", "get_goal", object(&[]))]), message("done")]);
    world.run_turn("first").expect("turn");
    let earlier = world.thread().turns.clone();
    world.responses.push_back(message("again"));
    world.events.clear();
    world.run_turn("second").expect("turn");
    assert_eq!(world.thread().turns.len(), 2);
    assert_eq!(world.thread().turns[..1], earlier[..]);
    let opens = |event: &TurnStreamEvent| {
        matches!(event, TurnStreamEvent::State(TurnStateEvent::TurnStarted { .. }))
    };
    let closes = |event: &TurnStreamEvent| {
        matches!(event, TurnStreamEvent::State(TurnStateEvent::TurnFinished { .. }))
    };
    assert!(opens(&world.events[0]));
    assert!(closes(world.events.last().expect("event")));
    assert_eq!(world.events.iter().filter(|event| opens(event)).count(), 1);
    assert_eq!(world.events.iter().filter(|event| closes(event)).count(), 1);
}

#[test]
fn agent_loop_function_failure_becomes_tool_error() {
    let mut world = World::new(vec![
        calls(vec![call("c1", "missing", object(&[]))]),
        message("could not call it"),
    ]);
    let outcome = world.run_turn("call missing").expect("turn");
    assert!(matches!(outcome, TurnOutcome::AssistantMessage { .. }));
    assert!(world
        .kinds()
        .iter()
        .any(|kind| matches!(kind, TurnItemKind::ToolOutput { result: ToolResult::Error { .. }, .. })));
}

#[test]
fn agent_loop_function_call_hooks_are_stacked_in_order() {
    let mut world =
        World::new(vec![calls(vec![call("c1", "get_goal", object(&[]))]), message("done")]);
    world.hooks = vec![hook("a"), hook("b")];
    let outcome = world.run_turn("goal?").expect("turn");
    assert!(matches!(outcome, TurnOutcome::AssistantMessage { .. }));
    assert_eq!(
        world.hook_log,
        vec![
            "before:a:get_goal",
            "before:b:get_goal",
            "after:b:get_goal:completed",
            "after:a:get_goal:completed",
        ]
    );
}

#[test]
fn agent_loop_pre_hook_failure_blocks_function_and_records_tool_error() {
    let mut world =
        World::new(vec![calls(vec![call("c1", "get_goal", object(&[]))]), message("blocked")]);
    world.hooks = vec![hook("audit"), Hook { fail_before: true, ..hook("policy") }];
    let outcome = world.run_turn("goal?").expect("turn");
    assert!(matches!(outcome, TurnOutcome::AssistantMessage { .. }));
    assert_eq!(
        world.hook_log,
        vec!["before:audit:get_goal", "before:policy:get_goal", "after:audit:get_goal:failed"]
    );
    let outputs =
        world.kinds().iter().filter(|kind| matches!(kind, TurnItemKind::ToolOutput { .. })).count();
    assert_eq!(outputs, 1);
    assert!(world.kinds().iter().any(|kind| matches!(
        kind,
        TurnItemKind::ToolOutput { call_id, name, result: ToolResult::Error { error } }
            if call_id == "c1" && name == "get_goal" && error.contains("policy blocked call")
    )));
}

#[test]
fn agent_loop_post_hook_failure_is_non_blocking_runtime_event() {
    let mut world =
        World::new(vec![calls(vec![call("c1", "get_goal", object(&[]))]), message("done")]);
    world.hooks = vec![Hook { fail_after: true, ..hook("audit") }];
    let outcome = world.run_turn("goal?").expect("turn");
    assert_eq!(outcome, TurnOutcome::AssistantMessage { text: "done".to_string() });
    assert_eq!(world.hook_log, vec!["before:audit:get_goal", "after:audit:get_goal:completed"]);
    assert!(world.events.iter().any(|event| matches!(
        event,
        TurnStreamEvent::Runtime(event)
            if event.source == "function_call_hook"
                && event.message == "post-hook failed"
                && event.metadata["name"] == "get_goal"
    )));
    assert!(world.kinds().iter().any(|kind| matches!(
        kind,
        TurnItemKind::ToolOutput { result: ToolResult::Success { .. }, .. }
    )));
}

#[test]
fn agent_loop_max_iterations_fails_turn() {
    let mut world = World::new(vec![calls(vec![call("c1", "get_goal", object(&[]))])]);
    world.max_model_iterations = 1;
    let outcome = world.run_turn("goal?").expect("turn");
    assert!(matches!(outcome, TurnOutcome::Failed { .. }));
    assert_eq!(world.thread().turns[0].status, TurnStatus::Failed);
    assert!(world.kinds().iter().any(|kind| matches!(kind, TurnItemKind::TurnFailed { .. })));
    assert_eq!(world.requests.len(), 1);
}

#[test]
fn a_model_error_fails_the_turn_in_its_words() {
    let mut world = World::new(Vec::new());
    let outcome = world.run_turn("hi").expect("turn");
    assert_eq!(
        outcome,
        TurnOutcome::Failed { error: "model error: no mock response".to_string() }
    );
}

#[test]
fn the_model_sees_every_answer_and_the_store_every_step() {
    let mut world = World::new(vec![
        calls(vec![call("c1", "get_goal", object(&[])), call("c2", "missing", object(&[]))]),
        message("done"),
    ]);
    world.run_turn("goal?").expect("turn");
    let answers = world.requests[1]
        .messages
        .iter()
        .filter_map(|message| match message {
            ChatMessage::Tool { tool_call_id, .. } => Some(tool_call_id.as_str()),
            _ => None,
        })
        .collect::<Vec<_>>();
    assert_eq!(answers, vec!["c1", "c2"]);
    assert_eq!(world.requests[0].functions, world.specs());
    let sequences: Vec<u64> = world.traces.iter().map(|trace| trace.sequence).collect();
    let expected: Vec<u64> = (1..=sequences.len() as u64).collect();
    assert_eq!(sequences, expected);
}

#[test]
fn an_input_that_nobody_waits_for_changes_nothing() {
    let world = World::new(Vec::new());
    let request = TurnRequest {
        thread_id: "t".to_string(),
        user_text: Some("hi".to_string()),
        functions: Vec::new(),
        max_model_iterations: 1,
        hook_count: 0,
        trace_sequence: 0,
    };
    let loaded = Err(AgentError::ThreadNotFound("t".to_string()));
    let step = begin(request, loaded, world.ids).expect("begin");
    let before = step.run.clone();
    let after = step.run.step(TurnInput::HookPassed, step.ids);
    assert_eq!(after.action, TurnAction::Wait);
    assert_eq!(after.run, before);
    assert_eq!(after.ids, step.ids);
}
