//! Functions, contexts, stores and sessions of the runtime.
use lite_agent::agent_core::store::{
    append_turn, append_turn_items, save, temporary_extension, thread_file_name, update_turn_status,
    validate_thread_id,
};
use lite_agent::error::AgentError;
use lite_agent::ids::{new_id, now_timestamp, IdSource};
use lite_agent::json;
use lite_agent::kernel::events::{
    GoalState, GoalStatus, Suspension, SuspensionKind, Thread, ToolResult, Turn, TurnItem,
    TurnItemKind, TurnItemSource, TurnStatus,
};
use lite_agent::kernel::model::ModelFunctionCall;
use lite_agent::kernel::projection::{ChatMessage, ThreadProjection};
use lite_agent::kernel::revision::RevisionToken;
use lite_agent::observability::{log_file_name, trace_directory_name, trace_file_name, LoggingError};
use lite_agent::runtime::agent_loop::{TurnOutcome, TurnStateEvent};
use lite_agent::runtime::context::{
    fit_oversized_group, tool_call_blocks, ApproximateTokenEstimator, CompactingContextBuilder,
    ContextBuild, ContextBuildInput, OversizedGroupPolicy, SummaryNeed, TokenEstimator,
};
use lite_agent::runtime::functions::{
    ask_user, builtin_registry, get_goal, into_call_execution, update_goal, FunctionCallExecution,
    FunctionContext, FunctionExecution, SuspensionResolution, ThreadUpdate,
};
use lite_agent::runtime::resume::{resume_suspended_turn, ResumeAction, ResumeInput};
use lite_agent::runtime::session::{LeaseFence, LocalSessionCoordinator, SessionLease};
use lite_agent::runtime::store::{compare_and_commit, ThreadContextCache};
use lite_agent::text;
use serde_json::Value;

fn object(fields: &[(&str, Value)]) -> Value {
    Value::Object(fields.iter().map(|(name, value)| (name.to_string(), value.clone())).collect())
}

fn words(value: &str) -> Value {
    Value::String(value.to_string())
}

fn user(content: &str) -> ChatMessage {
    ChatMessage::User { content: content.to_string() }
}

fn context() -> FunctionContext {
    FunctionContext {
        thread_id: "t".to_string(),
        turn_id: "turn".to_string(),
        call_id: "call".to_string(),
        projection: ThreadProjection::from_thread(&Thread::new("t", &IdSource::new())),
    }
}

// ---------------------------------------------------------------------------
// Functions

#[test]
fn functions_update_goal_returns_thread_update_and_item() {
    let goal = GoalState {
        objective: "ship v1".to_string(),
        status: GoalStatus::Active,
        notes: None,
    };
    let execution = update_goal(Ok(goal)).expect("call");
    let FunctionExecution::Completed { thread_update, .. } = execution else {
        panic!("expected completion");
    };
    assert!(matches!(
        thread_update,
        Some(ThreadUpdate::Goal(goal)) if goal.status == GoalStatus::Active
    ));
    assert!(update_goal(Err("no".to_string())).is_err());
}

#[test]
fn ask_user_returns_suspended_state() {
    let execution =
        ask_user(Ok("Which thread?".to_string()), &mut IdSource::new()).expect("call");
    let FunctionExecution::Suspended { suspension, .. } = execution else {
        panic!("expected waiting");
    };
    assert_eq!(suspension.kind, SuspensionKind::UserInput);
    assert_eq!(suspension.payload["prompt"], "Which thread?");
}

#[test]
fn functions_are_found_by_name_and_listed_in_order() {
    let registry = builtin_registry(1, 2, 3);
    let names: Vec<String> = registry.specs().into_iter().map(|spec| spec.name).collect();
    assert_eq!(names, vec!["ask_user", "get_goal", "update_goal"]);
    assert_eq!(registry.get("update_goal").ok(), Some(&2));
    assert!(matches!(
        registry.get("missing"),
        Err(AgentError::FunctionNotFound(name)) if name == "missing"
    ));
    let FunctionCallExecution::Completed { output, effects } =
        into_call_execution(get_goal(&context()))
    else {
        panic!("expected completion")
    };
    assert_eq!(output, object(&[("goal", Value::Null)]));
    assert!(effects.is_empty());
}

// ---------------------------------------------------------------------------
// Contexts

struct PerMessage;

impl TokenEstimator for PerMessage {
    fn estimate(&self, messages: &[ChatMessage]) -> usize {
        messages.len()
    }
}

fn build<E: TokenEstimator>(
    builder: &CompactingContextBuilder<E, ()>,
    projection: &ThreadProjection,
    cached: Option<&ThreadContextCache>,
) -> Result<ContextBuild, AgentError> {
    builder.build(
        &ContextBuildInput {
            thread_id: "t",
            thread_revision: &RevisionToken::from_u64(1),
            projection,
            system_prompt: "system",
            runtime_context: None,
            cached_context: cached,
        },
        "local",
        "utc",
    )
}

fn projection(messages: Vec<ChatMessage>) -> ThreadProjection {
    ThreadProjection { conversation: messages, ..ThreadProjection::default() }
}

#[test]
fn context_keeps_recent_messages_within_budget() {
    let projection = projection(vec![user("old"), user("new")]);
    let builder: CompactingContextBuilder<ApproximateTokenEstimator, ()> =
        CompactingContextBuilder { max_context_tokens: 100, ..Default::default() };
    let Ok(ContextBuild::Ready(output)) = build(&builder, &projection, None) else {
        panic!("expected a context")
    };
    assert!(output.messages.iter().any(|message| matches!(
        message,
        ChatMessage::User { content } if content == "new"
    )));
}

#[test]
fn does_not_compact_when_all_messages_fit() {
    let builder: CompactingContextBuilder<ApproximateTokenEstimator, ()> =
        CompactingContextBuilder::default().with_compactor(());
    let Ok(ContextBuild::Ready(output)) = build(&builder, &projection(vec![user("short")]), None)
    else {
        panic!("expected a context without a summary")
    };
    assert!(output.cache.is_none());
}

#[test]
fn what_does_not_fit_is_summed_up_once() {
    let builder = CompactingContextBuilder {
        max_context_tokens: 4,
        summary_budget_tokens: 1,
        oversized_group_policy: OversizedGroupPolicy::ElideToolOutputs,
        policy_version: "v".to_string(),
        estimator: PerMessage,
        compactor: Some(()),
    };
    let conversation = vec![user("a"), user("b"), user("c"), user("d")];
    let projection = projection(conversation.clone());
    let Ok(ContextBuild::Compact(plan)) = build(&builder, &projection, None) else {
        panic!("expected a summary to be asked for")
    };
    let SummaryNeed::Compact(input) = &plan.need else { panic!("expected a summary") };
    assert_eq!(input.messages, vec![user("a"), user("b")]);
    assert_eq!(input.max_summary_tokens, 1);
    let revision = RevisionToken::from_u64(1);
    let output = builder
        .finish("t", &revision, plan, Some("a and b".to_string()))
        .expect("context");
    assert_eq!(output.messages.len(), 4);
    assert_eq!(&output.messages[2..], &[user("c"), user("d")]);
    let cache = output.cache.expect("cache");
    assert_eq!(cache.covered_message_count, 2);
    assert_eq!(cache.summary, "a and b");
    let Ok(ContextBuild::Ready(again)) = build(&builder, &projection, Some(&cache)) else {
        panic!("expected the stored summary to be used")
    };
    assert_eq!(again.messages, output.messages);
}

#[test]
fn settings_of_a_context_are_kept() {
    let builder = CompactingContextBuilder::<ApproximateTokenEstimator, ()>::default()
        .with_compactor(())
        .with_summary_budget_tokens(7)
        .with_oversized_group_policy(OversizedGroupPolicy::Fail);
    assert_eq!(builder.max_context_tokens, 32_000);
    assert_eq!(builder.summary_budget_tokens, 7);
    assert_eq!(builder.oversized_group_policy, OversizedGroupPolicy::Fail);
    assert_eq!(builder.policy_version, "compacting-v1");
    assert_eq!(builder.compactor, Some(()));
}

#[test]
fn outputs_stay_with_their_calls() {
    let call = ModelFunctionCall {
        call_id: "c1".to_string(),
        name: "f".to_string(),
        arguments: object(&[]),
    };
    let asked = ChatMessage::Assistant { content: None, tool_calls: vec![call] };
    let told = ChatMessage::Tool {
        tool_call_id: "c1".to_string(),
        name: "f".to_string(),
        content: words("a long output"),
    };
    let messages = vec![user("a"), asked.clone(), told.clone(), user("b")];
    assert_eq!(
        tool_call_blocks(&messages),
        vec![vec![user("a")], vec![asked.clone(), told.clone()], vec![user("b")]]
    );
    let group = vec![asked, told];
    let failed = fit_oversized_group(&group, 1, OversizedGroupPolicy::Fail, &PerMessage);
    assert!(matches!(
        failed,
        Err(AgentError::ContextWindowExceeded { estimated: 2, limit: 1 })
    ));
    let dropped =
        fit_oversized_group(&group, 1, OversizedGroupPolicy::DropWithMarker, &PerMessage)
            .expect("marker");
    assert_eq!(dropped.len(), 1);
}

#[test]
fn tokens_are_a_quarter_of_the_bytes() {
    let estimate = ApproximateTokenEstimator.estimate(&[user("hi")]);
    let json = "[{\"role\":\"user\",\"content\":\"hi\"}]";
    assert_eq!(estimate, json.len().div_ceil(4));
}

// ---------------------------------------------------------------------------
// Stores

#[test]
fn round_trips_thread_with_turn_items() {
    let mut ids = IdSource::new();
    let mut turn = Turn::new(&mut ids);
    let turn_id = turn.id.clone();
    let item = TurnItem::new(
        TurnItemSource::Model,
        TurnItemKind::ModelMessage { text: "hello".to_string() },
        &mut ids,
    );
    turn.push_item(item, &ids);
    let thread =
        save(Thread { turns: vec![turn], ..Thread::new("t1", &ids) }, &ids).expect("save");
    assert_eq!(thread.id, "t1");
    assert_eq!(thread.turns.len(), 1);
    assert_eq!(thread.turns[0].id, turn_id);
    assert_eq!(thread.turns[0].items.len(), 1);
}

#[test]
fn appends_items_and_updates_status() {
    let mut ids = IdSource::new();
    let turn = Turn::new(&mut ids);
    let turn_id = turn.id.clone();
    let missing = Err(AgentError::ThreadNotFound("t1".to_string()));
    let thread = append_turn("t1", missing, turn, &ids).expect("append turn");
    let item = TurnItem::new(
        TurnItemSource::User,
        TurnItemKind::UserInput { text: "hi".to_string(), response_to: None },
        &mut ids,
    );
    let thread =
        append_turn_items("t1", Ok(thread), &turn_id, vec![item], &ids).expect("append items");
    let thread =
        update_turn_status("t1", Ok(thread), &turn_id, TurnStatus::Completed, &ids).expect("status");
    assert_eq!(thread.turns[0].status, TurnStatus::Completed);
    assert_eq!(thread.turns[0].items.len(), 1);
    let lost = update_turn_status("t1", Ok(thread), "other", TurnStatus::Failed, &ids);
    assert!(matches!(lost, Err(AgentError::TurnNotFound(id)) if id == "other"));
}

#[test]
fn rejects_path_traversal_thread_ids() {
    let error = validate_thread_id("../outside").expect_err("invalid id");
    assert!(matches!(error, AgentError::InvalidThreadId(value) if value == "../outside"));
    for bad in ["", ".", "..", "a/b", "a\\b"] {
        assert!(validate_thread_id(bad).is_err());
        assert_eq!(trace_file_name(bad), None);
    }
    assert!(validate_thread_id("thread_a").is_ok());
    assert_eq!(thread_file_name("thread_a"), "thread_a.json");
    assert_eq!(trace_file_name("thread_a").as_deref(), Some("thread_a.jsonl"));
    assert_eq!(trace_directory_name(), "traces");
    assert_eq!(log_file_name(), "lite-agent.log");
    let mut ids = IdSource::new();
    let first = temporary_extension(&mut ids);
    assert!(first.starts_with("json.write_") && first.ends_with(".tmp"));
    assert_ne!(first, temporary_extension(&mut ids));
}

#[test]
fn a_commit_needs_the_current_revision() {
    let ids = IdSource::new();
    let first = compare_and_commit(None, Thread::new("t", &ids), &ids).expect("first");
    let second = compare_and_commit(Some(&first), first.clone(), &ids).expect("second");
    assert_eq!(second.revision, RevisionToken::from_u64(2));
    let stale = compare_and_commit(Some(&second), first, &ids);
    assert!(matches!(stale, Err(AgentError::RevisionConflict { .. })));
}

#[test]
fn revisions_are_numbers_in_eight_bytes() {
    assert!(RevisionToken::initial().as_bytes().is_empty());
    assert_eq!(RevisionToken::from_u64(258).as_bytes(), &[0, 0, 0, 0, 0, 0, 1, 2]);
    assert_eq!(RevisionToken::from_bytes(vec![7]).as_bytes(), &[7]);
    assert!(RevisionToken::from_u64(3).same(&RevisionToken::from_u64(3)));
    assert!(!RevisionToken::from_u64(3).same(&RevisionToken::from_u64(4)));
}

#[test]
fn leases_receive_distinct_fences() {
    let mut coordinator = LocalSessionCoordinator::default();
    let slot = coordinator.slot("one");
    let first = SessionLease::new(coordinator.acquire("one").expect("first lease"), ());
    assert_eq!(coordinator.slot("one"), slot);
    assert_ne!(coordinator.slot("two"), slot);
    coordinator.release("one");
    let second = SessionLease::new(coordinator.acquire("one").expect("second lease"), ());
    assert_ne!(second.fence().as_bytes(), &[0; 8]);
    assert_ne!(first.fence(), second.fence());
    assert_eq!(LeaseFence::from_bytes(vec![1, 2]).as_bytes(), &[1, 2]);
}

#[test]
fn local_coordinator_serializes_same_thread() {
    let mut coordinator = LocalSessionCoordinator::default();
    let first = coordinator.acquire("thread").expect("first lease");
    assert_eq!(coordinator.acquire("thread"), None);
    let other = coordinator.acquire("other").expect("other lease");
    assert_eq!(coordinator.acquire("thread"), None);
    coordinator.release("other");
    assert_eq!(coordinator.acquire("thread"), None);
    coordinator.release("thread");
    let second = coordinator.acquire("thread").expect("second lease");
    assert_eq!(first.as_bytes(), &1u64.to_be_bytes());
    assert_eq!(other.as_bytes(), &2u64.to_be_bytes());
    assert_eq!(second.as_bytes(), &3u64.to_be_bytes());
    coordinator.release("never leased");
    assert_eq!(coordinator.acquire("thread"), None);
}

// ---------------------------------------------------------------------------
// Suspensions

fn suspended() -> (Thread, String, IdSource) {
    let mut ids = IdSource::new();
    let FunctionExecution::Suspended { suspension, .. } =
        ask_user(Ok("Which one?".to_string()), &mut ids).expect("question")
    else {
        panic!("expected a suspension")
    };
    let id = suspension.id.clone();
    let mut turn = Turn::new(&mut ids);
    let kind = TurnItemKind::SuspensionCreated { suspension };
    let item = TurnItem::new(TurnItemSource::Runtime, kind, &mut ids);
    turn.push_item(item, &ids);
    turn.set_status(TurnStatus::Suspended, &ids);
    let mut thread = Thread::new("t", &ids);
    thread.turns.push(turn);
    (thread, id, ids)
}

#[test]
fn an_answer_lets_the_turn_go_on() {
    let (thread, id, ids) = suspended();
    let resolution = SuspensionResolution::UserInput { text: "the first".to_string() };
    let step = resume_suspended_turn(Ok(thread), &id, resolution, ids).expect("resume");
    let ResumeAction::Commit(stored) = step.action else { panic!("expected a commit") };
    assert!(ThreadProjection::from_thread(&stored).pending_suspension.is_none());
    assert!(matches!(
        &stored.turns[0].items.last().expect("item").kind,
        TurnItemKind::UserInput { text, response_to }
            if text == "the first" && response_to.as_deref() == Some(id.as_str())
    ));
    let step = step.run.step(ResumeInput::Committed, step.ids);
    assert_eq!(step.action, ResumeAction::Continue);
}

#[test]
fn only_the_pending_suspension_is_resolved() {
    let (thread, _, ids) = suspended();
    let resolution = SuspensionResolution::UserInput { text: "late".to_string() };
    assert!(resume_suspended_turn(Ok(thread), "other", resolution, ids).is_err());
    let nothing = Ok(Thread::new("t", &ids));
    assert!(resume_suspended_turn(nothing, "other", SuspensionResolution::Approve, ids).is_err());
}

fn awaiting_approval() -> (Thread, IdSource) {
    let mut ids = IdSource::new();
    let mut turn = Turn::new(&mut ids);
    let kinds = vec![
        TurnItemKind::ModelResponse {
            text: None,
            function_calls: vec![ModelFunctionCall {
                call_id: "c1".to_string(),
                name: "exec_command".to_string(),
                arguments: object(&[("cmd", words("ls"))]),
            }],
        },
        TurnItemKind::SuspensionCreated {
            suspension: Suspension {
                id: "s1".to_string(),
                kind: SuspensionKind::HumanApproval,
                payload: object(&[("call_id", words("c1")), ("deferred", Value::Bool(true))]),
            },
        },
    ];
    for kind in kinds {
        let item = TurnItem::new(TurnItemSource::Runtime, kind, &mut ids);
        turn.push_item(item, &ids);
    }
    turn.set_status(TurnStatus::Suspended, &ids);
    let mut thread = Thread::new("t", &ids);
    thread.turns.push(turn);
    (thread, ids)
}

#[test]
fn an_approved_call_runs_in_its_turn() {
    let (thread, ids) = awaiting_approval();
    let step = resume_suspended_turn(Ok(thread.clone()), "s1", SuspensionResolution::Approve, ids)
        .expect("resume");
    assert_eq!(
        step.events,
        vec![TurnStateEvent::FunctionStarted {
            call_id: "c1".to_string(),
            name: "exec_command".to_string(),
        }]
    );
    let ResumeAction::CallFunction { name, arguments, context } = step.action else {
        panic!("expected a call")
    };
    assert_eq!(name, "exec_command");
    assert_eq!(arguments, object(&[("cmd", words("ls"))]));
    assert_eq!(context.turn_id, thread.turns[0].id);
    let execution = FunctionCallExecution::Completed { output: words("a b"), effects: Vec::new() };
    let step = step.run.step(ResumeInput::FunctionReturned(execution), step.ids);
    let ResumeAction::Commit(stored) = step.action else { panic!("expected a commit") };
    assert_eq!(stored.turns.len(), 1);
    assert_eq!(stored.turns[0].status, TurnStatus::Running);
    assert_eq!(stored.turns[0].items.len(), 3);
    assert!(matches!(
        &stored.turns[0].items[2].kind,
        TurnItemKind::ToolOutput { call_id, result: ToolResult::Success { output }, .. }
            if call_id == "c1" && *output == words("a b")
    ));
    let step = step.run.step(ResumeInput::Committed, step.ids);
    assert_eq!(
        step.events,
        vec![TurnStateEvent::FunctionCompleted {
            call_id: "c1".to_string(),
            name: "exec_command".to_string(),
        }]
    );
    assert_eq!(step.action, ResumeAction::Continue);
}

#[test]
fn a_denied_call_does_not_run() {
    let (thread, ids) = awaiting_approval();
    let resolution = SuspensionResolution::Deny { reason: "too risky".to_string() };
    let step = resume_suspended_turn(Ok(thread), "s1", resolution, ids).expect("resume");
    let ResumeAction::Commit(stored) = step.action else { panic!("expected a commit") };
    assert!(matches!(
        &stored.turns[0].items[2].kind,
        TurnItemKind::ToolOutput { result: ToolResult::Error { error }, .. }
            if error == "execution denied by user: too risky"
    ));
    let step = step.run.step(
        ResumeInput::Failed(AgentError::Io("disk full".to_string())),
        step.ids,
    );
    assert_eq!(step.action, ResumeAction::Fail(AgentError::Io("disk full".to_string())));
}

#[test]
fn resolutions_must_fit_their_suspension() {
    let (thread, ids) = awaiting_approval();
    let answer = SuspensionResolution::UserInput { text: "yes".to_string() };
    let refused = resume_suspended_turn(Ok(thread), "s1", answer, ids).expect_err("refusal");
    assert_eq!(
        refused.message(),
        "function error in resume_suspended_turn: \
         a pre-execution suspension requires approval or denial"
    );
    let (thread, id, ids) = suspended();
    let approve = SuspensionResolution::Approve;
    let refused = resume_suspended_turn(Ok(thread), &id, approve, ids).expect_err("refusal");
    assert_eq!(
        refused.message(),
        "function error in resume_suspended_turn: suspension does not identify a resumable call"
    );
}

#[test]
fn an_abort_ends_a_resumed_call() {
    let (thread, ids) = awaiting_approval();
    let step = resume_suspended_turn(Ok(thread), "s1", SuspensionResolution::Approve, ids)
        .expect("resume");
    let step = step.run.step(ResumeInput::Aborted, step.ids);
    assert_eq!(
        step.action,
        ResumeAction::Finish(TurnOutcome::Aborted { reason: "turn aborted by caller".to_string() })
    );
}

// ---------------------------------------------------------------------------
// Identifiers, texts and values

#[test]
fn identifiers_are_numbered() {
    let mut ids = IdSource { millis: 1234, counter: 7 };
    assert_eq!(ids.issue("turn"), "turn_1234_7");
    assert_eq!(ids.issue("turn"), "turn_1234_8");
    assert_eq!(ids.issue("turn_1234"), "turn_1234_1234_9");
    assert_eq!(ids.timestamp(), "1");
    let mut now = IdSource::new();
    let first = new_id("req", &mut now);
    assert!(first.starts_with("req_"));
    assert_ne!(first, new_id("req", &mut now));
    assert!(now_timestamp().parse::<u64>().expect("seconds") > 1_600_000_000);
    now.read_clock();
    assert!(now.millis > 1_600_000_000_000);
}

#[test]
fn texts_are_cut_and_joined() {
    assert_eq!(text::trim(" \t a b \n"), "a b");
    assert_eq!(text::trim("\u{2003}x"), "x");
    assert_eq!(text::trim("\u{b}\u{85}\u{a0}\u{3000}x\u{200b}"), "x\u{200b}");
    assert_eq!(text::lower_ascii("ÀB"), "Àb");
    assert_eq!(text::decimal_text(0), "0");
    assert_eq!(text::decimal_text(u128::from(u64::MAX)), "18446744073709551615");
    assert!(text::contains("abc", "bc") && !text::contains("abc", "cb"));
    assert!(text::ends_with("abc", "bc") && !text::ends_with("bc", "abc"));
    assert_eq!(text::strip_prefix("data: x", "data:").as_deref(), Some(" x"));
    assert_eq!(text::strip_prefix("date", "data"), None);
    assert_eq!(text::join(&vec!["a".to_string(), "b".to_string()], ", "), "a, b");
    assert!(text::comes_before("a", "ab") && !text::comes_before("b", "ab"));
}

#[test]
fn a_field_replaces_one_of_its_name() {
    let value = json::Fields::new()
        .with_text("a", "first")
        .with_bool("b", true)
        .with_text("a", "second")
        .value();
    assert_eq!(value, object(&[("a", words("second")), ("b", Value::Bool(true))]));
}

#[test]
fn fences_are_numbered_from_one() {
    let mut coordinator = LocalSessionCoordinator::default();
    for n in 1..=300u64 {
        if n % 7 == 0 {
            coordinator.slot(if n % 2 == 0 { "even" } else { "odd" });
        }
        let fence = coordinator.acquire("leased").expect("lease");
        assert_eq!(fence.as_bytes(), &n.to_be_bytes());
        assert_eq!(coordinator.acquire("leased"), None);
        coordinator.release("leased");
    }
    assert_eq!(coordinator.slot("odd"), 0);
    assert_eq!(coordinator.slot("even"), 1);
}

#[test]
fn values_are_read_by_name() {
    let value = json::parse("{\"a\":\"x\",\"b\":true,\"c\":3,\"d\":-1,\"e\":1.5}").expect("json");
    assert_eq!(json::get_text(&value, "a").as_deref(), Some("x"));
    assert_eq!(json::get_text(&value, "b"), None);
    assert_eq!(json::get_bool(&value, "b"), Some(true));
    assert_eq!(json::get_u64(&value, "c"), Some(3));
    assert_eq!(json::get_u64(&value, "d"), None);
    assert_eq!(json::get_u64(&value, "e"), None);
    assert_eq!(json::get_text(&words("x"), "a"), None);
    let error = json::parse("{").expect_err("no json");
    assert!(error.contains("EOF"));
}

#[test]
fn errors_are_told_in_words() {
    let told = |error: AgentError| error.message();
    assert_eq!(told(AgentError::ThreadNotFound("t".into())), "thread not found: t");
    assert_eq!(told(AgentError::InvalidThreadId("..".into())), "invalid thread id: ..");
    assert_eq!(
        told(AgentError::StoreLocked("d".into())),
        "thread store directory is already owned: d"
    );
    assert_eq!(
        told(AgentError::VersionConflict { thread_id: "t".into(), expected: 1, actual: 2 }),
        "thread version conflict for t: expected 1, actual 2"
    );
    assert_eq!(
        told(AgentError::ContextWindowExceeded { estimated: 12, limit: 10 }),
        "context window exceeded: estimated 12 tokens, limit 10"
    );
    assert_eq!(told(AgentError::TurnNotFound("x".into())), "turn not found: x");
    assert_eq!(told(AgentError::FunctionNotFound("f".into())), "function not found: f");
    assert_eq!(
        told(AgentError::Function { name: "f".into(), message: "m".into() }),
        "function error in f: m"
    );
    assert_eq!(
        told(AgentError::InvalidFunctionArguments { name: "f".into(), message: "m".into() }),
        "invalid function arguments for f: m"
    );
    assert_eq!(told(AgentError::MaxIterations(8)), "turn exceeded max model iterations: 8");
    assert_eq!(told(AgentError::Io("disk".into())), "io error: disk");
    assert_eq!(told(AgentError::Json("bad".into())), "json error: bad");
    assert_eq!(told(AgentError::Reqwest("down".into())), "http client error: down");
    assert_eq!(told(AgentError::Logging("x".into())), "logging error: x");
    assert_eq!(LoggingError::Initialization("x".into()).message(), "logging error: x");
}
