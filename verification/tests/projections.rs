//! What the items of a thread add up to.
use lite_agent::ids::IdSource;
use lite_agent::kernel::events::{
    GoalState, GoalStatus, Suspension, SuspensionKind, Thread, TokenUsage, ToolResult, Turn,
    TurnItem, TurnItemKind, TurnItemSource, TurnStatus,
};
use lite_agent::kernel::model::ModelFunctionCall;
use lite_agent::kernel::projection::{ChatMessage, ThreadProjection};
use lite_agent::lite;
use serde_json::Value;

fn object(fields: &[(&str, Value)]) -> Value {
    Value::Object(fields.iter().map(|(name, value)| (name.to_string(), value.clone())).collect())
}

fn text(value: &str) -> Value {
    Value::String(value.to_string())
}

fn turn_of(
    status: TurnStatus,
    kinds: Vec<(TurnItemSource, TurnItemKind)>,
    ids: &mut IdSource,
) -> Turn {
    let mut turn = Turn::new(ids);
    turn.set_status(status, ids);
    for (source, kind) in kinds {
        let item = TurnItem::new(source, kind, ids);
        turn.push_item(item, ids);
    }
    turn
}

fn with_goal() -> Thread {
    let mut thread = Thread::new("t", &IdSource::new());
    thread.goal = Some(GoalState {
        objective: "ship".to_string(),
        status: GoalStatus::Active,
        notes: None,
    });
    thread
}

fn question() -> TurnItemKind {
    TurnItemKind::UserInputRequested {
        request_id: "r1".to_string(),
        prompt: "Which one?".to_string(),
    }
}

fn suspension() -> TurnItemKind {
    TurnItemKind::SuspensionCreated {
        suspension: Suspension {
            id: "r1".to_string(),
            kind: SuspensionKind::UserInput,
            payload: object(&[("prompt", text("Which one?"))]),
        },
    }
}

fn answer(words: &str) -> TurnItemKind {
    TurnItemKind::UserInput { text: words.to_string(), response_to: Some("r1".to_string()) }
}

fn command(call_id: &str) -> ModelFunctionCall {
    ModelFunctionCall {
        call_id: call_id.to_string(),
        name: "exec_command".to_string(),
        arguments: object(&[("cmd", text("ls"))]),
    }
}

fn command_item(call_id: &str) -> TurnItemKind {
    let call = command(call_id);
    TurnItemKind::ModelFunctionCall {
        call_id: call.call_id,
        name: call.name,
        arguments: call.arguments,
    }
}

fn listing() -> TurnItemKind {
    TurnItemKind::ToolOutput {
        call_id: "call_1".to_string(),
        name: "exec_command".to_string(),
        result: ToolResult::Success { output: object(&[("stdout", text("src\n"))]) },
    }
}

#[test]
fn projection_copies_thread_goal() {
    let projection = ThreadProjection::from_thread(&with_goal());
    assert_eq!(projection.goal.as_ref().map(|goal| goal.objective.as_str()), Some("ship"));
}

#[test]
fn copies_thread_goal() {
    let projection = lite::projection::ThreadProjection::from_thread(&with_goal());
    assert_eq!(projection.goal.as_ref().map(|goal| goal.objective.as_str()), Some("ship"));
}

#[test]
fn tracks_pending_suspension() {
    let mut ids = IdSource::new();
    let mut thread = Thread::new("t", &ids);
    let first = vec![(TurnItemSource::Runtime, suspension())];
    thread.turns.push(turn_of(TurnStatus::Running, first, &mut ids));
    assert!(ThreadProjection::from_thread(&thread).pending_suspension.is_some());
    let second = vec![(TurnItemSource::User, answer("A"))];
    thread.turns.push(turn_of(TurnStatus::Running, second, &mut ids));
    assert!(ThreadProjection::from_thread(&thread).pending_suspension.is_none());
}

#[test]
fn projection_tracks_pending_user_input_request() {
    let mut ids = IdSource::new();
    let mut thread = Thread::new("t", &ids);
    let first = vec![(TurnItemSource::Runtime, question())];
    thread.turns.push(turn_of(TurnStatus::Running, first, &mut ids));
    assert!(ThreadProjection::from_thread(&thread).pending_user_input_request.is_some());
    let second = vec![(TurnItemSource::User, answer("A"))];
    thread.turns.push(turn_of(TurnStatus::Running, second, &mut ids));
    assert!(ThreadProjection::from_thread(&thread).pending_user_input_request.is_none());
}

#[test]
fn tracks_pending_user_input_request() {
    let mut ids = IdSource::new();
    let mut thread = Thread::new("t", &ids);
    let first = vec![(TurnItemSource::Runtime, question())];
    thread.turns.push(turn_of(TurnStatus::Running, first, &mut ids));
    let projection = lite::projection::ThreadProjection::from_thread(&thread);
    assert!(projection.pending_user_input_request.is_some());
    let second = vec![(TurnItemSource::User, answer("A"))];
    thread.turns.push(turn_of(TurnStatus::Running, second, &mut ids));
    let projection = lite::projection::ThreadProjection::from_thread(&thread);
    assert!(projection.pending_user_input_request.is_none());
}

fn assert_command_and_output(projection: &ThreadProjection) {
    assert!(matches!(
        &projection.conversation[0],
        ChatMessage::Assistant { tool_calls, .. }
            if tool_calls.len() == 1 && tool_calls[0].call_id == "call_1"
    ));
    assert!(matches!(
        &projection.conversation[1],
        ChatMessage::Tool { tool_call_id, content, .. }
            if tool_call_id == "call_1" && content == &object(&[("stdout", text("src\n"))])
    ));
}

#[test]
fn projection_projects_function_call_and_tool_output_as_structured_messages() {
    let mut ids = IdSource::new();
    let mut thread = Thread::new("t", &ids);
    let response =
        TurnItemKind::ModelResponse { text: None, function_calls: vec![command("call_1")] };
    let items = vec![(TurnItemSource::Model, response), (TurnItemSource::Tool, listing())];
    thread.turns.push(turn_of(TurnStatus::Running, items, &mut ids));
    assert_command_and_output(&ThreadProjection::from_thread(&thread));
}

#[test]
fn projects_function_call_and_tool_output_as_structured_messages() {
    let mut ids = IdSource::new();
    let mut thread = Thread::new("t", &ids);
    let items = vec![
        (TurnItemSource::Model, command_item("call_1")),
        (TurnItemSource::Tool, listing()),
    ];
    thread.turns.push(turn_of(TurnStatus::Running, items, &mut ids));
    assert_command_and_output(&ThreadProjection::from_thread(&thread));
}

#[test]
fn projection_groups_consecutive_function_calls_into_one_assistant_message() {
    let mut ids = IdSource::new();
    let mut thread = Thread::new("t", &ids);
    let response = TurnItemKind::ModelResponse {
        text: None,
        function_calls: vec![command("call_1"), command("call_2")],
    };
    let items = vec![(TurnItemSource::Model, response)];
    thread.turns.push(turn_of(TurnStatus::Running, items, &mut ids));
    let projection = ThreadProjection::from_thread(&thread);
    assert_eq!(projection.conversation.len(), 1);
    assert!(matches!(
        &projection.conversation[0],
        ChatMessage::Assistant { tool_calls, .. } if tool_calls.len() == 2
    ));
}

#[test]
fn groups_consecutive_function_calls_into_one_assistant_message() {
    let mut ids = IdSource::new();
    let mut thread = Thread::new("t", &ids);
    let items = vec![
        (TurnItemSource::Model, command_item("call_1")),
        (TurnItemSource::Model, command_item("call_2")),
    ];
    thread.turns.push(turn_of(TurnStatus::Running, items, &mut ids));
    let projection = ThreadProjection::from_thread(&thread);
    assert_eq!(projection.conversation.len(), 1);
    assert!(matches!(
        &projection.conversation[0],
        ChatMessage::Assistant { tool_calls, .. } if tool_calls.len() == 2
    ));
}

#[test]
fn answered_waiting_turn_is_not_active() {
    let mut ids = IdSource::new();
    let mut thread = Thread::new("t", &ids);
    let waiting = vec![(TurnItemSource::Runtime, question())];
    thread.turns.push(turn_of(TurnStatus::WaitingForUser, waiting, &mut ids));
    let response = vec![(TurnItemSource::User, answer("the first one"))];
    thread.turns.push(turn_of(TurnStatus::Completed, response, &mut ids));
    let projection = ThreadProjection::from_thread(&thread);
    assert_eq!(projection.active_turn_id, None);
}

#[test]
fn answered_suspended_turn_is_not_active() {
    let mut ids = IdSource::new();
    let mut thread = Thread::new("t", &ids);
    let waiting = vec![(TurnItemSource::Runtime, suspension())];
    thread.turns.push(turn_of(TurnStatus::Suspended, waiting, &mut ids));
    let response = vec![(TurnItemSource::User, answer("the first one"))];
    thread.turns.push(turn_of(TurnStatus::Completed, response, &mut ids));
    let projection = ThreadProjection::from_thread(&thread);
    assert_eq!(projection.active_turn_id, None);
}

#[test]
fn plain_messages_tell_calls_and_results_in_words() {
    let mut ids = IdSource::new();
    let mut thread = Thread::new("t", &ids);
    let failed = TurnItemKind::ToolOutput {
        call_id: "call_2".to_string(),
        name: "missing".to_string(),
        result: ToolResult::Error { error: "no such function".to_string() },
    };
    let items = vec![
        (TurnItemSource::Model, command_item("call_1")),
        (TurnItemSource::Tool, listing()),
        (TurnItemSource::Tool, failed),
        (TurnItemSource::Model, TurnItemKind::ModelMessage { text: "done".to_string() }),
    ];
    thread.turns.push(turn_of(TurnStatus::WaitingForUser, items, &mut ids));
    let projection = lite::projection::ThreadProjection::from_thread(&thread);
    let told: Vec<(lite::projection::ChatRole, &str)> = projection
        .messages_for_model
        .iter()
        .map(|message| (message.role, message.content.as_str()))
        .collect();
    assert_eq!(
        told,
        vec![
            (
                lite::projection::ChatRole::Assistant,
                "Function call requested: exec_command({\"cmd\":\"ls\"})"
            ),
            (
                lite::projection::ChatRole::User,
                "Function exec_command completed with output: {\"stdout\":\"src\\n\"}"
            ),
            (
                lite::projection::ChatRole::User,
                "Function missing with call id call_2 failed: no such function"
            ),
            (lite::projection::ChatRole::Assistant, "done"),
        ]
    );
    assert_eq!(projection.messages_for_model[0].tool_call_id.as_deref(), Some("call_1"));
    assert_eq!(projection.active_turn_id.as_deref(), Some(thread.turns[0].id.as_str()));
    assert_eq!(projection.last_assistant_message.as_deref(), Some("done"));
    assert_eq!(projection.completed_function_results.len(), 1);
}

#[test]
fn the_goal_is_the_last_that_was_set() {
    let mut ids = IdSource::new();
    let mut thread = with_goal();
    let second = GoalState {
        objective: "rest".to_string(),
        status: GoalStatus::Complete,
        notes: Some("done".to_string()),
    };
    let item = TurnItemKind::GoalUpdated { previous: thread.goal.clone(), current: second.clone() };
    thread.turns.push(turn_of(
        TurnStatus::Completed,
        vec![(TurnItemSource::Runtime, item)],
        &mut ids,
    ));
    assert_eq!(ThreadProjection::from_thread(&thread).goal, Some(second));
}

#[test]
fn usage_adds_up_and_stops_at_the_largest_number() {
    let mut usage = TokenUsage {
        input_tokens: u64::MAX - 1,
        cached_input_tokens: 1,
        output_tokens: 2,
        total_tokens: 3,
    };
    assert!(!usage.is_zero());
    usage.add_assign(TokenUsage {
        input_tokens: 5,
        cached_input_tokens: 5,
        output_tokens: 5,
        total_tokens: 5,
    });
    assert_eq!(usage.input_tokens, u64::MAX);
    assert_eq!(
        usage.message(),
        "input=18446744073709551615, cached_input=6, output=7, total=8"
    );
    let nothing = TokenUsage {
        input_tokens: 0,
        cached_input_tokens: 0,
        output_tokens: 0,
        total_tokens: 0,
    };
    assert!(nothing.is_zero());
}
