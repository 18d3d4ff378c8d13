//! What the small agent does with each thing that it hears, told by what is stored
//! and what is asked for next; and what its threads come to.
use crate::agent_core::model::OpenAiResponseMessageView;
use crate::agent_core::reading::offers;
use crate::error::{self, AgentErrorView};
use crate::ids::{self, IdSource};
use crate::json::{self, Json};
use crate::kernel::adding::one_item_more;
use crate::kernel::events::{
    self, GoalStateView, GoalStatus, ThreadView, ToolResultView, TurnItemKindView, TurnItemSource,
    TurnItemView, TurnStatus, TurnView,
};
use crate::kernel::model::ModelFunctionCallView;
use crate::kernel::projection::{CompletedFunctionCallView, UserInputRequestView};
use crate::lite::events as log;
use crate::lite::functions::{self, FunctionExecutionView};
use crate::lite::model::{self, ModelRequestView, ModelResponseView};
use crate::lite::projection::{
    self, project, ChatMessageView, ChatRole, ThreadProjectionView,
};
use crate::lite::turn::{
    self, next, StepView, TurnActionView, TurnInputView, TurnOutcomeView, TurnPhaseView,
    TurnRequestView, TurnRunView,
};
use crate::runtime::functions::{goal_output, ThreadUpdateView};
use crate::runtime::recording::{self, gains, stands_at, EntryView};
use crate::runtime::turn::promises::{answer, runtime_note};
use crate::runtime::turn::transitions;
use vstd::prelude::*;

verus! {

// ---------------------------------------------------------------------------
// What a thread comes to

/// A message that says something and nothing else.
pub open spec fn says(message: ChatMessageView, role: ChatRole, content: Seq<char>) -> bool {
    message.role == role && message.content == content && message.name is None
}

/// A thread without turns comes to its own goal and nothing else.
pub proof fn law_nothing_comes_of_no_turns(thread: ThreadView)
    requires
        thread.turns.len() == 0,
    ensures
        ({
            let p = project(thread);
            &&& p.messages_for_model.len() == 0
            &&& p.goal == thread.goal
            &&& p.pending_user_input_request is None
            &&& p.completed_function_results.len() == 0
            &&& p.last_assistant_message is None
            &&& p.latest_turn_id is None
            &&& p.active_turn_id is None
        }),
{
}

proof fn lemma_labels(
    p: ThreadProjectionView,
    q: ThreadProjectionView,
    turns: Seq<TurnView>,
)
    requires
        q == (ThreadProjectionView {
            latest_turn_id: q.latest_turn_id,
            active_turn_id: q.active_turn_id,
            ..p
        }),
    ensures
        projection::apply_turns(q, turns) == (ThreadProjectionView {
            latest_turn_id: q.latest_turn_id,
            active_turn_id: q.active_turn_id,
            ..projection::apply_turns(p, turns)
        }),
        projection::apply_turns(p, turns).latest_turn_id == p.latest_turn_id,
        projection::apply_turns(p, turns).active_turn_id == p.active_turn_id,
    decreases turns.len(),
{
    if turns.len() > 0 {
        lemma_labels(p, q, turns.drop_last());
        lemma_item_labels(
            projection::apply_turns(p, turns.drop_last()),
            projection::apply_turns(q, turns.drop_last()),
            turns.last().id,
            turns.last().items,
        );
    }
}

proof fn lemma_item_labels(
    p: ThreadProjectionView,
    q: ThreadProjectionView,
    turn_id: Seq<char>,
    items: Seq<TurnItemView>,
)
    requires
        q == (ThreadProjectionView {
            latest_turn_id: q.latest_turn_id,
            active_turn_id: q.active_turn_id,
            ..p
        }),
    ensures
        projection::apply_items(q, turn_id, items) == (ThreadProjectionView {
            latest_turn_id: q.latest_turn_id,
            active_turn_id: q.active_turn_id,
            ..projection::apply_items(p, turn_id, items)
        }),
        projection::apply_items(p, turn_id, items).latest_turn_id == p.latest_turn_id,
        projection::apply_items(p, turn_id, items).active_turn_id == p.active_turn_id,
    decreases items.len(),
{
    if items.len() > 0 {
        lemma_item_labels(p, q, turn_id, items.drop_last());
    }
}

/// A turn without items at the end of a thread is the latest, and the active one if
/// it runs or waits for the user; all else stays as it was.
pub proof fn law_empty_turn_adds_nothing(thread: ThreadView, turn: TurnView)
    requires
        turn.items.len() == 0,
    ensures
        ({
            let p = project(thread);
            let longer = ThreadView { turns: thread.turns.push(turn), ..thread };
            project(longer) == (ThreadProjectionView {
                latest_turn_id: Some(turn.id),
                active_turn_id: if turn.status == TurnStatus::Running || turn.status
                    == TurnStatus::WaitingForUser {
                    Some(turn.id)
                } else {
                    p.active_turn_id
                },
                ..p
            })
        }),
{
    let longer = ThreadView { turns: thread.turns.push(turn), ..thread };
    assert(longer.turns.drop_last() =~= thread.turns);
    lemma_labels(
        projection::before_items(thread),
        projection::before_items(longer),
        thread.turns,
    );
}

/// An item at the end of a thread adds to what the thread came to before: what was
/// said becomes a message under the right role; a call and what came of it are told
/// in words that hold the name and the arguments, the output or the error; a
/// question is pending until it is answered, or until the user says something else;
/// the goal is the one that was set last. All else stays as it was.
pub proof fn law_item_adds(before: ThreadView, after: ThreadView, item: TurnItemView)
    requires
        one_item_more(before, after, item),
    ensures
        ({
            let p = project(before);
            let q = project(after);
            let turn_id = before.turns.last().id;
            let said = q.messages_for_model.last();
            let more = |role: ChatRole, content: Seq<char>, id: Option<Seq<char>>|
                {
                    &&& q.messages_for_model.len() == p.messages_for_model.len() + 1
                    &&& q.messages_for_model.drop_last() == p.messages_for_model
                    &&& says(said, role, content)
                    &&& said.tool_call_id == id
                };
            match item.kind {
                TurnItemKindView::UserInput { text, response_to } => {
                    &&& more(ChatRole::User, text, None)
                    &&& q == (ThreadProjectionView {
                        messages_for_model: q.messages_for_model,
                        pending_user_input_request: match (
                            p.pending_user_input_request,
                            response_to,
                        ) {
                            (Some(asked), Some(id)) => if asked.request_id == id {
                                None
                            } else {
                                Some(asked)
                            },
                            _ => None,
                        },
                        ..p
                    })
                },
                TurnItemKindView::ModelMessage { text } => {
                    &&& more(ChatRole::Assistant, text, None)
                    &&& q == (ThreadProjectionView {
                        messages_for_model: q.messages_for_model,
                        last_assistant_message: Some(text),
                        ..p
                    })
                },
                TurnItemKindView::ModelFunctionCall { call_id, name, arguments } => {
                    &&& more(
                        ChatRole::Assistant,
                        "Function call requested: "@ + name + "("@ + json::json_text(arguments)
                            + ")"@,
                        Some(call_id),
                    )
                    &&& q == (ThreadProjectionView {
                        messages_for_model: q.messages_for_model,
                        ..p
                    })
                },
                TurnItemKindView::ToolOutput { call_id, name, result } => match result {
                    ToolResultView::Success { output } => {
                        &&& more(
                            ChatRole::User,
                            "Function "@ + name + " completed with output: "@ + json::json_text(
                                output,
                            ),
                            None,
                        )
                        &&& q == (ThreadProjectionView {
                            messages_for_model: q.messages_for_model,
                            completed_function_results: p.completed_function_results.push(
                                CompletedFunctionCallView { call_id, name, output },
                            ),
                            ..p
                        })
                    },
                    ToolResultView::Error { error } => {
                        &&& more(
                            ChatRole::User,
                            "Function "@ + name + " with call id "@ + call_id + " failed: "@
                                + error,
                            None,
                        )
                        &&& q == (ThreadProjectionView {
                            messages_for_model: q.messages_for_model,
                            ..p
                        })
                    },
                },
                TurnItemKindView::UserInputRequested { request_id, prompt } => q == (
                ThreadProjectionView {
                    pending_user_input_request: Some(
                        UserInputRequestView { request_id, prompt, turn_id },
                    ),
                    ..p
                }),
                TurnItemKindView::GoalUpdated { previous, current } => q == (ThreadProjectionView {
                    goal: Some(current),
                    ..p
                }),
                _ => q == p,
            }
        }),
{
    let last = before.turns.last();
    assert(before.turns =~= before.turns.drop_last().push(last));
    assert(after.turns =~= before.turns.drop_last().push(after.turns.last()));
    assert(after.turns.last().items.drop_last() =~= last.items);
    assert(after.turns.last().items.last() == item);
    assert(projection::before_items(after) =~= projection::before_items(before));
    let p = project(before);
    let q = project(after);
    if q.messages_for_model.len() == p.messages_for_model.len() + 1 {
        assert(q.messages_for_model.drop_last() =~= p.messages_for_model);
    }
}

// ---------------------------------------------------------------------------
// What a turn records

/// Whether a thread is an earlier one with items more at the end of the turn at a
/// place, in a state, and nothing else changed.
pub open spec fn takes(
    before: ThreadView,
    after: ThreadView,
    i: int,
    items: Seq<TurnItemView>,
    status: TurnStatus,
) -> bool {
    let was = before.turns[i];
    let is = after.turns[i];
    &&& after == (ThreadView { turns: after.turns, ..before })
    &&& after.turns.len() == before.turns.len()
    &&& forall|j: int|
        0 <= j < before.turns.len() && j != i ==> #[trigger] after.turns[j] == before.turns[j]
    &&& is.id == was.id
    &&& is.created_at == was.created_at
    &&& is.status == status
    &&& is.items == was.items + items
}

/// A thread with the goal that a call sets, if it sets one.
pub open spec fn with_goal(thread: ThreadView, update: Option<ThreadUpdateView>) -> ThreadView {
    match update {
        Some(ThreadUpdateView::Goal(goal)) => ThreadView { goal: Some(goal), ..thread },
        None => thread,
    }
}

/// What a function returns is recorded under its call, as it was returned, after the
/// items that it adds itself; a goal that it sets becomes the thread's; the thread
/// is stored. A question to the user ends the turn, which then waits for the user.
pub proof fn law_output_is_recorded(
    run: TurnRunView,
    execution: FunctionExecutionView,
    ids: IdSource,
    i: int,
)
    requires
        run.phase matches TurnPhaseView::Executing { calls, index } && index < calls.len(),
        stands_at(run.thread.turns, run.turn_id, i),
    ensures
        ({
            let calls = run.phase->Executing_calls;
            let index = run.phase->Executing_index as int;
            let step = next(run, TurnInputView::FunctionReturned(execution), ids);
            let stored = step.run.thread;
            let last = stored.turns[i].items.last();
            &&& step.action == TurnActionView::Save(stored)
            &&& last.source == TurnItemSource::Tool
            &&& match execution {
                FunctionExecutionView::Completed { output, thread_update, extra_items } => {
                    &&& last.kind == (TurnItemKindView::ToolOutput {
                        call_id: calls[index].call_id,
                        name: calls[index].name,
                        result: ToolResultView::Success { output },
                    })
                    &&& takes(
                        with_goal(run.thread, thread_update),
                        stored,
                        i,
                        extra_items.push(last),
                        run.thread.turns[i].status,
                    )
                    &&& step.run.phase == (TurnPhaseView::StoringResult {
                        calls,
                        index: run.phase->Executing_index,
                    })
                },
                FunctionExecutionView::WaitingForUser {
                    request_id,
                    prompt,
                    output,
                    thread_update,
                    extra_items,
                } => {
                    &&& last.kind == (TurnItemKindView::ToolOutput {
                        call_id: calls[index].call_id,
                        name: calls[index].name,
                        result: ToolResultView::Success { output },
                    })
                    &&& takes(
                        with_goal(run.thread, thread_update),
                        stored,
                        i,
                        extra_items.push(last),
                        TurnStatus::WaitingForUser,
                    )
                    &&& step.run.phase == (TurnPhaseView::Ending {
                        outcome: TurnOutcomeView::WaitingForUser { request_id, prompt },
                    })
                },
            }
        }),
{
    let calls = run.phase->Executing_calls;
    let index = run.phase->Executing_index as int;
    events::lemma_turn_index_is(run.thread.turns, run.turn_id, i);
    let (update, extra, output) = match execution {
        FunctionExecutionView::Completed { output, thread_update, extra_items } => (
            thread_update,
            extra_items,
            output,
        ),
        FunctionExecutionView::WaitingForUser {
            request_id,
            prompt,
            output,
            thread_update,
            extra_items,
        } => (thread_update, extra_items, output),
    };
    let changed = turn::updated(run.thread, update);
    let items = turn::output_items(extra, calls[index], output, ids);
    let written = recording::with_made_items(changed, run.turn_id, items, ids)->0;
    assert forall|j: int| 0 <= j < i implies (#[trigger] written.turns[j]).id != run.turn_id by {
        assert(written.turns[j] == run.thread.turns[j]);
    }
    events::lemma_turn_index_is(written.turns, run.turn_id, i);
    assert(items == extra.push(items.last()));
    assert(written.turns[i].items.last() == items.last());
}

/// A call that fails is answered with the words of the error.
pub proof fn law_failure_is_recorded(run: TurnRunView, e: AgentErrorView, ids: IdSource, i: int)
    requires
        run.phase matches TurnPhaseView::Executing { calls, index } && index < calls.len(),
        stands_at(run.thread.turns, run.turn_id, i),
    ensures
        ({
            let calls = run.phase->Executing_calls;
            let index = run.phase->Executing_index;
            let step = next(run, TurnInputView::FunctionFailed(e), ids);
            &&& step.action == TurnActionView::Save(step.run.thread)
            &&& step.run.phase == (TurnPhaseView::StoringResult { calls, index })
            &&& gains(
                run.thread,
                step.run.thread,
                i,
                seq![
                    answer(calls[index as int], ToolResultView::Error { error: error::words(e) }),
                ],
                run.thread.turns[i].status,
            )
        }),
{
    recording::law_recorded_is_gained(
        run.thread,
        run.turn_id,
        i,
        seq![
            answer(
                run.phase->Executing_calls[run.phase->Executing_index as int],
                ToolResultView::Error { error: error::words(e) },
            ),
        ],
        TurnStatus::Failed,
        ids,
    );
}

/// Whether a step records a call and stores that before the call runs.
pub open spec fn notes_call(
    before: TurnRunView,
    thread: ThreadView,
    step: StepView,
    calls: Seq<ModelFunctionCallView>,
    index: int,
    i: int,
) -> bool {
    &&& step.action == TurnActionView::Save(step.run.thread)
    &&& step.run.phase matches TurnPhaseView::StoringCall { calls: c, index: k }
    &&& c == calls && k == index
    &&& step.run.iteration == before.iteration
    &&& gains(
        thread,
        step.run.thread,
        i,
        seq![
            EntryView {
                source: TurnItemSource::Model,
                kind: TurnItemKindView::ModelFunctionCall {
                    call_id: calls[index].call_id,
                    name: calls[index].name,
                    arguments: calls[index].arguments,
                },
            },
        ],
        thread.turns[i].status,
    )
}

/// Whether a step ends a turn with something recorded.
pub open spec fn ends(
    thread: ThreadView,
    step: StepView,
    i: int,
    entries: Seq<EntryView>,
    status: TurnStatus,
    outcome: TurnOutcomeView,
) -> bool {
    &&& step.action == TurnActionView::Save(step.run.thread)
    &&& step.run.phase == (TurnPhaseView::Ending { outcome })
    &&& gains(thread, step.run.thread, i, entries, status)
}

/// A text of the model is recorded and completes the turn; calls are taken up one
/// after another, the first of them now; an empty list of calls, and a model that
/// fails, fail the turn with the words for it.
pub proof fn law_reply_is_recorded(
    run: TurnRunView,
    response: ModelResponseView,
    e: AgentErrorView,
    ids: IdSource,
    i: int,
)
    requires
        run.phase is AwaitingModel,
        stands_at(run.thread.turns, run.turn_id, i),
    ensures
        ({
            let step = next(run, TurnInputView::ModelReplied(response), ids);
            let empty = "model returned an empty function call list"@;
            match response {
                ModelResponseView::AssistantMessage { text } => ends(
                    run.thread,
                    step,
                    i,
                    seq![
                        EntryView {
                            source: TurnItemSource::Model,
                            kind: TurnItemKindView::ModelMessage { text },
                        },
                    ],
                    TurnStatus::Completed,
                    TurnOutcomeView::AssistantMessage { text },
                ),
                ModelResponseView::FunctionCalls { calls } => if calls.len() == 0 {
                    ends(
                        run.thread,
                        step,
                        i,
                        runtime_note(TurnItemKindView::TurnFailed { error: empty }),
                        TurnStatus::Failed,
                        TurnOutcomeView::Failed { error: empty },
                    )
                } else {
                    notes_call(run, run.thread, step, calls, 0, i)
                },
            }
        }),
        ends(
            run.thread,
            next(run, TurnInputView::ModelFailed(e), ids),
            i,
            runtime_note(TurnItemKindView::TurnFailed { error: error::words(e) }),
            TurnStatus::Failed,
            TurnOutcomeView::Failed { error: error::words(e) },
        ),
{
    let empty = "model returned an empty function call list"@;
    recording::law_recorded_is_gained(
        run.thread,
        run.turn_id,
        i,
        recording::failure(empty),
        TurnStatus::Failed,
        ids,
    );
    recording::law_recorded_is_gained(
        run.thread,
        run.turn_id,
        i,
        recording::failure(error::words(e)),
        TurnStatus::Failed,
        ids,
    );
    match response {
        ModelResponseView::AssistantMessage { text } => {
            recording::law_recorded_is_gained(
                run.thread,
                run.turn_id,
                i,
                seq![
                    EntryView {
                        source: TurnItemSource::Model,
                        kind: TurnItemKindView::ModelMessage { text },
                    },
                ],
                TurnStatus::Completed,
                ids,
            );
        },
        ModelResponseView::FunctionCalls { calls } => {
            if calls.len() > 0 {
                recording::law_recorded_is_gained(
                    run.thread,
                    run.turn_id,
                    i,
                    seq![turn::call_entry(calls[0])],
                    TurnStatus::Completed,
                    ids,
                );
            }
        },
    }
}

// ---------------------------------------------------------------------------
// What a turn does next

/// The messages that a request starts with and the conversation: the prompt, the
/// goal in words where there is one, and all that was said.
pub open spec fn asks(messages: Seq<ChatMessageView>, prompt: Seq<char>, thread: ThreadView) -> bool {
    let p = project(thread);
    let first = if p.goal is Some {
        2int
    } else {
        1int
    };
    &&& messages.len() == first + p.messages_for_model.len()
    &&& says(messages[0], ChatRole::System, prompt)
    &&& messages[0].tool_call_id is None
    &&& p.goal matches Some(goal) ==> messages[1].tool_call_id is None && says(
        messages[1],
        ChatRole::System,
        "Current thread goal: objective="@ + goal.objective + ", status="@ + (match goal.status {
            GoalStatus::Active => "Active"@,
            GoalStatus::Complete => "Complete"@,
            GoalStatus::Blocked => "Blocked"@,
        }) + ", notes="@ + (match goal.notes {
            Some(notes) => notes,
            None => ""@,
        }),
    )
    &&& messages.skip(first) == p.messages_for_model
}

/// Whether a step asks the model about a thread, or ends the turn where the model
/// was asked as often as is allowed.
pub open spec fn asks_or_ends(
    before: TurnRunView,
    thread: ThreadView,
    step: StepView,
    iteration: int,
) -> bool {
    &&& step.run.iteration == iteration
    &&& iteration < before.config.max_model_iterations ==> {
        &&& step.run.thread == thread
        &&& step.run.phase is AwaitingModel
        &&& step.action matches TurnActionView::CallModel(request)
        &&& asks(request.messages, before.config.system_prompt, thread)
        &&& request.functions == before.functions
    }
    &&& iteration >= before.config.max_model_iterations ==> forall|i: int|
        #[trigger] stands_at(thread.turns, before.turn_id, i) ==> {
            let words = error::words(
                AgentErrorView::MaxIterations(before.config.max_model_iterations),
            );
            ends(
                thread,
                step,
                i,
                runtime_note(TurnItemKindView::TurnFailed { error: words }),
                TurnStatus::Failed,
                TurnOutcomeView::Failed { error: words },
            )
        }
}

proof fn lemma_asks(prompt: Seq<char>, thread: ThreadView)
    ensures
        asks(model::request_messages(prompt, project(thread)), prompt, thread),
{
    let p = project(thread);
    let messages = model::request_messages(prompt, p);
    let first = if p.goal is Some {
        2int
    } else {
        1int
    };
    assert(messages.skip(first) =~= p.messages_for_model);
}

proof fn lemma_iterate(before: TurnRunView, run: TurnRunView, ids: IdSource)
    requires
        run.config == before.config,
        run.functions == before.functions,
        run.turn_id == before.turn_id,
    ensures
        asks_or_ends(before, run.thread, turn::iterate(run, ids), run.iteration as int),
{
    lemma_asks(run.config.system_prompt, run.thread);
    let words = error::words(AgentErrorView::MaxIterations(before.config.max_model_iterations));
    assert forall|i: int| #[trigger] stands_at(run.thread.turns, before.turn_id, i) implies ({
        let ended = recording::with_ending(
            run.thread,
            before.turn_id,
            recording::failure(words),
            TurnStatus::Failed,
            ids,
        );
        ended is Some && gains(
            run.thread,
            ended->0,
            i,
            runtime_note(TurnItemKindView::TurnFailed { error: words }),
            TurnStatus::Failed,
        )
    }) by {
        recording::law_recorded_is_gained(
            run.thread,
            before.turn_id,
            i,
            recording::failure(words),
            TurnStatus::Failed,
            ids,
        );
    }
}

/// Once a thread is stored, the turn goes on where it stood: a new turn asks the
/// model; a call that was noted runs, with its name and its arguments; after the
/// result of a call the next one is noted, and after the last the model is asked
/// again; and a turn that ends has its outcome.
pub proof fn law_turn_goes_on(run: TurnRunView, thread: ThreadView, ids: IdSource, i: int)
    requires
        stands_at(thread.turns, run.turn_id, i),
        run.iteration < usize::MAX,
    ensures
        ({
            let step = next(run, TurnInputView::Saved(thread), ids);
            match run.phase {
                TurnPhaseView::Starting => asks_or_ends(
                    run,
                    thread,
                    step,
                    run.iteration as int,
                ),
                TurnPhaseView::StoringCall { calls, index } => index < calls.len() ==> {
                    &&& step.run.thread == thread
                    &&& step.run.phase == (TurnPhaseView::Executing { calls, index })
                    &&& step.action matches TurnActionView::CallFunction {
                        name,
                        arguments,
                        context,
                    }
                    &&& name == calls[index as int].name
                    &&& arguments == calls[index as int].arguments
                    &&& context.projection == project(thread)
                },
                TurnPhaseView::StoringResult { calls, index } => {
                    &&& index + 1 < calls.len() <= usize::MAX ==> notes_call(
                        run,
                        thread,
                        step,
                        calls,
                        index + 1,
                        i,
                    )
                    &&& index + 1 == calls.len() ==> asks_or_ends(
                        run,
                        thread,
                        step,
                        run.iteration + 1,
                    )
                },
                TurnPhaseView::Ending { outcome } => {
                    &&& step.action == TurnActionView::Finish(outcome)
                    &&& step.run.phase is Done
                    &&& step.run.thread == thread
                },
                _ => step.action is Wait && step.run == run,
            }
        }),
{
    let next_run = TurnRunView { thread, phase: TurnPhaseView::Done, ..run };
    lemma_iterate(run, next_run, ids);
    lemma_iterate(
        run,
        TurnRunView { iteration: (run.iteration + 1) as usize, ..next_run },
        ids,
    );
    if let TurnPhaseView::StoringResult { calls, index } = run.phase {
        if index + 1 < calls.len() {
            recording::law_recorded_is_gained(
                thread,
                run.turn_id,
                i,
                seq![turn::call_entry(calls[index + 1])],
                TurnStatus::Completed,
                ids,
            );
        }
    }
}

/// A prompt becomes a new running turn at the end of the thread, or of a new thread
/// where there was none, that holds exactly what the user said, as the answer to the
/// question that the thread waits for, if there is one; and a store that fails ends
/// the turn with its error.
pub proof fn law_prompt_is_recorded(
    request: TurnRequestView,
    loaded: Result<ThreadView, AgentErrorView>,
    ids: IdSource,
)
    ensures
        loaded matches Err(e) ==> !(e is ThreadNotFound) ==> turn::begin(request, loaded, ids)
            == Err::<StepView, AgentErrorView>(e),
        !(loaded matches Err(e) && !(e is ThreadNotFound)) ==> {
            let begun = turn::begin(request, loaded, ids);
            let first = begun->Ok_0;
            let made = first.run.thread;
            let new = made.turns.last();
            &&& begun is Ok
            &&& first.action == TurnActionView::Save(made)
            &&& first.run.phase is Starting
            &&& match loaded {
                Ok(thread) => made == (ThreadView { turns: made.turns, ..thread })
                    && made.turns.drop_last() == thread.turns,
                Err(e) => {
                    &&& made.id == request.thread_id
                    &&& made.turns.len() == 1
                    &&& made.goal is None
                },
            }
            &&& made.turns.len() > 0
            &&& new.status == TurnStatus::Running
            &&& new.items.len() == 1
            &&& new.items[0].source == TurnItemSource::User
            &&& new.items[0].kind == (TurnItemKindView::UserInput {
                text: request.user_text,
                response_to: match loaded {
                    Ok(thread) => match project(thread).pending_user_input_request {
                        Some(asked) => Some(asked.request_id),
                        None => None,
                    },
                    Err(e) => None,
                },
            })
            &&& first.run.turn_id == new.id
            &&& first.run.config == request.config
            &&& first.run.functions == request.functions
            &&& first.run.iteration == 0
        },
{
    if transitions::opened(request.thread_id, loaded, ids) is Ok {
        let thread = transitions::opened(request.thread_id, loaded, ids)->Ok_0;
        let new = transitions::prompted_turn(
            request.user_text,
            turn::answered_request(thread),
            ids,
        );
        assert(thread.turns.push(new).drop_last() =~= thread.turns);
        assert(loaded is Err ==> project(thread).pending_user_input_request is None) by {
            assert(loaded is Err ==> thread.turns =~= Seq::empty());
        }
    }
}

/// Whatever fails outside of a turn ends it with that error.
pub proof fn law_outside_failure_is_passed_on(run: TurnRunView, e: AgentErrorView, ids: IdSource)
    requires
        run.phase is Starting || run.phase is StoringCall || run.phase is StoringResult
            || run.phase is Ending,
    ensures
        next(run, TurnInputView::Failed(e), ids).action == TurnActionView::Fail(e),
        next(run, TurnInputView::Failed(e), ids).run == (TurnRunView {
            phase: TurnPhaseView::Done,
            ..run
        }),
{
}

// ---------------------------------------------------------------------------
// Questions, requests and answers

/// A question to the user is recorded under the identifier that it is answered by.
pub proof fn law_question_is_recorded(prompt: Seq<char>, ids: IdSource)
    ensures
        ({
            &&& functions::question(prompt, ids) matches FunctionExecutionView::WaitingForUser {
                request_id,
                prompt: asked,
                output,
                thread_update,
                extra_items,
            }
            &&& asked == prompt
            &&& thread_update is None
            &&& extra_items.len() == 1
            &&& extra_items[0].source == TurnItemSource::Runtime
            &&& extra_items[0].kind == (TurnItemKindView::UserInputRequested {
                request_id,
                prompt,
            })
            &&& output matches Json::Fields(fields)
            &&& fields.dom() == set!["request_id"@, "prompt"@, "status"@]
            &&& fields["request_id"@] == Json::Text(request_id)
            &&& fields["prompt"@] == Json::Text(prompt)
            &&& fields["status"@] == Json::Text("waiting_for_user"@)
        }),
{
    reveal_strlit("request_id");
    reveal_strlit("prompt");
    reveal_strlit("status");
    assert("request_id"@.len() == 10 && "prompt"@.len() == 6 && "status"@.len() == 6);
    assert("prompt"@[0] != "status"@[0]);
}

/// A call for the goal gives the goal and changes nothing. A call that sets one gives
/// it back, changes the goal to it, and records what the goal was and what it is.
pub proof fn law_goal_calls(
    previous: Option<GoalStateView>,
    goal: GoalStateView,
    ids: IdSource,
)
    ensures
        functions::goal_told(previous) == (FunctionExecutionView::Completed {
            output: goal_output(previous),
            thread_update: None,
            extra_items: Seq::empty(),
        }),
        ({
            &&& functions::goal_set(previous, goal, ids) matches FunctionExecutionView::Completed {
                output,
                thread_update,
                extra_items,
            }
            &&& output == goal_output(Some(goal))
            &&& thread_update == Some(ThreadUpdateView::Goal(goal))
            &&& extra_items.len() == 1
            &&& extra_items[0].source == TurnItemSource::Runtime
            &&& extra_items[0].kind == (TurnItemKindView::GoalUpdated { previous, current: goal })
            &&& extra_items[0].id == ids::id_text("item"@, ids)
        }),
{
}

/// Events that are appended to a log stand after all that were there, in their
/// order; a log that is not there is made of them alone; any other failure to load
/// it is passed on. A new event tells what it was made of, at its time.
pub proof fn law_events_are_appended(
    thread_id: Seq<char>,
    log: log::ThreadView,
    failure: AgentErrorView,
    added: Seq<log::ThreadEventView>,
    kind: log::ThreadEventKindView,
    ids: IdSource,
)
    ensures
        log::appended(thread_id, Ok(log), added) matches Ok(after) && after.id == log.id
            && after.events == log.events + added,
        failure is ThreadNotFound ==> (log::appended(thread_id, Err(failure), added) matches Ok(
            after,
        ) && after.id == thread_id && after.events == added),
        !(failure is ThreadNotFound) ==> log::appended(thread_id, Err(failure), added) == Err::<
            log::ThreadView,
            AgentErrorView,
        >(failure),
        log::event_view(kind, ids).kind == kind,
        log::event_view(kind, ids).id == ids::id_text("evt"@, ids),
        log::event_view(kind, ids).created_at == ids::stamp(ids),
{
}

/// A request holds every message and every function, in their order.
pub proof fn law_request_carries_all(name: Seq<char>, request: ModelRequestView)
    ensures
        ({
            &&& model::request_body(name, request) matches Json::Fields(fields)
            &&& fields.dom() == set!["model"@, "messages"@, "tools"@, "tool_choice"@, "stream"@]
            &&& fields["model"@] == Json::Text(name)
            &&& fields["tool_choice"@] == Json::Text("auto"@)
            &&& fields["stream"@] == Json::Bool(false)
            &&& fields["messages"@] matches Json::List(list)
            &&& list.len() == request.messages.len()
            &&& forall|i: int|
                0 <= i < list.len() ==> #[trigger] list[i] == model::message_body(
                    request.messages[i],
                )
            &&& fields["tools"@] matches Json::List(tools)
            &&& tools.len() == request.functions.len()
            &&& forall|i: int|
                0 <= i < tools.len() ==> offers(#[trigger] tools[i], request.functions[i])
        }),
{
    reveal_strlit("model");
    reveal_strlit("messages");
    reveal_strlit("tools");
    reveal_strlit("tool_choice");
    reveal_strlit("stream");
    reveal_strlit("type");
    reveal_strlit("function");
    reveal_strlit("name");
    reveal_strlit("description");
    reveal_strlit("parameters");
    assert("model"@.len() == 5 && "messages"@.len() == 8 && "tools"@.len() == 5
        && "tool_choice"@.len() == 11 && "stream"@.len() == 6);
    assert("model"@[0] != "tools"@[0]);
    assert("type"@.len() == 4 && "function"@.len() == 8 && "name"@.len() == 4
        && "description"@.len() == 11 && "parameters"@.len() == 10);
    assert(model::request_body(name, request) matches Json::Fields(fields) && fields.dom()
        =~= set!["model"@, "messages"@, "tools"@, "tool_choice"@, "stream"@]);
}

/// A message goes as an object with what it has and nothing else.
pub proof fn law_message_body(message: ChatMessageView)
    ensures
        ({
            &&& model::message_body(message) matches Json::Fields(fields)
            &&& fields.contains_key("role"@)
            &&& fields["role"@] == Json::Text(
                match message.role {
                    ChatRole::System => "system"@,
                    ChatRole::User => "user"@,
                    ChatRole::Assistant => "assistant"@,
                    ChatRole::Tool => "tool"@,
                },
            )
            &&& fields.contains_key("content"@)
            &&& fields["content"@] == Json::Text(message.content)
            &&& match message.name {
                Some(name) => fields.contains_key("name"@) && fields["name"@] == Json::Text(name),
                None => !fields.contains_key("name"@),
            }
            &&& match message.tool_call_id {
                Some(id) => fields.contains_key("tool_call_id"@) && fields["tool_call_id"@]
                    == Json::Text(id),
                None => !fields.contains_key("tool_call_id"@),
            }
        }),
{
    reveal_strlit("role");
    reveal_strlit("content");
    reveal_strlit("name");
    reveal_strlit("tool_call_id");
    assert("role"@.len() == 4 && "content"@.len() == 7 && "name"@.len() == 4
        && "tool_call_id"@.len() == 12);
    assert("role"@[0] != "name"@[0]);
}

/// An answer is read from its first choice: all its calls where it has a list of
/// them, in their order, with their arguments as they read or, where they do not, as
/// text; and else its text.
pub proof fn law_answer_is_read(choices: Seq<OpenAiResponseMessageView>)
    ensures
        choices.len() == 0 ==> model::received(choices) == Err::<
            ModelResponseView,
            AgentErrorView,
        >(AgentErrorView::Model("chat/completions returned no choices"@)),
        choices.len() > 0 ==> match (choices[0].tool_calls, choices[0].content) {
            (Some(sent), _) => {
                &&& model::received(choices) matches Ok(response)
                &&& response matches ModelResponseView::FunctionCalls { calls }
                &&& calls.len() == sent.calls.len()
                &&& forall|i: int|
                    0 <= i < calls.len() ==> {
                        &&& (#[trigger] calls[i]).call_id == sent.calls[i].id
                        &&& calls[i].name == sent.calls[i].name
                        &&& match json::json_read(sent.calls[i].arguments) {
                            json::Reading::Document(arguments) => calls[i].arguments == arguments,
                            json::Reading::Refused(words) => calls[i].arguments == Json::Text(
                                sent.calls[i].arguments,
                            ),
                        }
                    }
            },
            (None, Some(text)) => model::received(choices) == Ok::<
                ModelResponseView,
                AgentErrorView,
            >(ModelResponseView::AssistantMessage { text }),
            (None, None) => model::received(choices) == Err::<ModelResponseView, AgentErrorView>(
                AgentErrorView::Model("chat/completions response had no content or tool calls"@),
            ),
        },
{
}

} // verus!
