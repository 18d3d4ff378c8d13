//! How each turn and each item of a thread adds to what the thread comes to.
use crate::ids::{self, IdSource};
use crate::json::Json;
use crate::kernel::events::{
    self, ThreadView, TokenUsage, ToolResultView, TurnItemKindView, TurnItemSource, TurnItemView,
    TurnStatus, TurnView,
};
use crate::kernel::model::ModelFunctionCallView;
use crate::kernel::projection::{
    self, project, ChatMessageView, CompletedFunctionCallView, PendingSuspensionView,
    ThreadProjectionView, UserInputRequestView,
};
use vstd::prelude::*;

verus! {

/// A thread without turns comes to its own goal and nothing else.
pub proof fn law_nothing_comes_of_no_turns(thread: ThreadView)
    requires
        thread.turns.len() == 0,
    ensures
        ({
            let p = project(thread);
            &&& p.conversation.len() == 0
            &&& p.goal == thread.goal
            &&& p.pending_suspension is None
            &&& p.pending_user_input_request is None
            &&& p.completed_function_results.len() == 0
            &&& p.last_assistant_message is None
            &&& p.latest_turn_id is None
            &&& p.active_turn_id is None
        }),
{
}

/// A turn without items at the end of a thread is the latest, and the active one if
/// it runs; all else stays as it was.
pub proof fn law_empty_turn_adds_nothing(thread: ThreadView, turn: TurnView)
    requires
        turn.items.len() == 0,
    ensures
        ({
            let p = project(thread);
            let longer = ThreadView { turns: thread.turns.push(turn), ..thread };
            project(longer) == (ThreadProjectionView {
                latest_turn_id: Some(turn.id),
                active_turn_id: if turn.status == TurnStatus::Running {
                    Some(turn.id)
                } else {
                    p.active_turn_id
                },
                ..p
            })
        }),
{
    projection::law_turn_appended(thread, turn);
    let longer = thread.turns.push(turn);
    assert(longer.drop_last() =~= thread.turns);
    projection::lemma_relabel_turns(
        projection::before_items(thread),
        projection::before_items(thread).latest_turn_id,
        projection::before_items(thread).active_turn_id,
        thread.turns,
    );
    assert(projection::relabel(
        projection::before_items(thread),
        projection::before_items(thread).latest_turn_id,
        projection::before_items(thread).active_turn_id,
    ) == projection::before_items(thread));
}

/// Whether a thread is another one with an item more at the end of its last turn.
pub open spec fn one_item_more(
    before: ThreadView,
    after: ThreadView,
    item: TurnItemView,
) -> bool {
    &&& before.turns.len() > 0
    &&& after.turns.len() == before.turns.len()
    &&& after.turns.drop_last() == before.turns.drop_last()
    &&& after.turns.last().id == before.turns.last().id
    &&& after.turns.last().status == before.turns.last().status
    &&& after.turns.last().items == before.turns.last().items.push(item)
    &&& after.goal == before.goal
}

/// An item at the end of a thread adds to what the thread came to before: what was
/// said becomes a message, under the right role and with all that was said; an
/// output stands under its call and its name; a suspension or a question is pending
/// until it is answered, or until the user says something else; the goal is the one
/// that was set last. Whatever an item does not speak of stays as it was.
pub proof fn law_item_adds(before: ThreadView, after: ThreadView, item: TurnItemView)
    requires
        one_item_more(before, after, item),
    ensures
        ({
            let p = project(before);
            let q = project(after);
            let turn_id = before.turns.last().id;
            match item.kind {
                TurnItemKindView::UserInput { text, response_to } => q == (ThreadProjectionView {
                    conversation: p.conversation.push(ChatMessageView::User { content: text }),
                    pending_suspension: match (p.pending_suspension, response_to) {
                        (Some(pending), Some(id)) => if pending.suspension.id == id {
                            None
                        } else {
                            Some(pending)
                        },
                        _ => None,
                    },
                    pending_user_input_request: match (p.pending_user_input_request, response_to) {
                        (Some(asked), Some(id)) => if asked.request_id == id {
                            None
                        } else {
                            Some(asked)
                        },
                        _ => None,
                    },
                    ..p
                }),
                TurnItemKindView::ModelMessage { text } => q == (ThreadProjectionView {
                    conversation: p.conversation.push(
                        ChatMessageView::Assistant {
                            content: Some(text),
                            tool_calls: Seq::empty(),
                        },
                    ),
                    last_assistant_message: Some(text),
                    ..p
                }),
                TurnItemKindView::ModelResponse { text, function_calls } => q == (
                ThreadProjectionView {
                    conversation: p.conversation.push(
                        ChatMessageView::Assistant { content: text, tool_calls: function_calls },
                    ),
                    last_assistant_message: match text {
                        Some(text) => Some(text),
                        None => p.last_assistant_message,
                    },
                    ..p
                }),
                TurnItemKindView::ToolOutput { call_id, name, result } => match result {
                    ToolResultView::Success { output } => q == (ThreadProjectionView {
                        conversation: p.conversation.push(
                            ChatMessageView::Tool { tool_call_id: call_id, name, content: output },
                        ),
                        completed_function_results: p.completed_function_results.push(
                            CompletedFunctionCallView { call_id, name, output },
                        ),
                        ..p
                    }),
                    ToolResultView::Error { error } => q == (ThreadProjectionView {
                        conversation: p.conversation.push(
                            ChatMessageView::Tool {
                                tool_call_id: call_id,
                                name,
                                content: Json::Text(error),
                            },
                        ),
                        ..p
                    }),
                },
                TurnItemKindView::UserInputRequested { request_id, prompt } => q == (
                ThreadProjectionView {
                    pending_user_input_request: Some(
                        UserInputRequestView { request_id, prompt, turn_id },
                    ),
                    ..p
                }),
                TurnItemKindView::SuspensionCreated { suspension } => q == (ThreadProjectionView {
                    pending_suspension: Some(PendingSuspensionView { suspension, turn_id }),
                    ..p
                }),
                TurnItemKindView::GoalUpdated { previous, current } => q == (ThreadProjectionView {
                    goal: Some(current),
                    ..p
                }),
                TurnItemKindView::TurnFailed { error } => q == p,
                TurnItemKindView::TurnAborted { reason } => q == p,
                TurnItemKindView::ModelFunctionCall { call_id, name, arguments } => {
                    let call = ModelFunctionCallView { call_id, name, arguments };
                    let items = before.turns.last().items;
                    if items.len() > 0 && items.last().kind is ModelFunctionCall {
                        &&& p.conversation.len() > 0
                        &&& p.conversation.last() matches ChatMessageView::Assistant {
                            content,
                            tool_calls,
                        }
                        &&& content is None
                        &&& q == (ThreadProjectionView {
                            conversation: p.conversation.drop_last().push(
                                ChatMessageView::Assistant {
                                    content: None,
                                    tool_calls: tool_calls.push(call),
                                },
                            ),
                            ..p
                        })
                    } else {
                        q == (ThreadProjectionView {
                            conversation: p.conversation.push(
                                ChatMessageView::Assistant {
                                    content: None,
                                    tool_calls: seq![call],
                                },
                            ),
                            ..p
                        })
                    }
                },
            }
        }),
{
    let last = before.turns.last();
    assert(before.turns =~= before.turns.drop_last().push(last));
    assert(after.turns =~= before.turns.drop_last().push(after.turns.last()));
    assert(after.turns.last().items.drop_last() =~= last.items);
    assert(after.turns.last().items.last() == item);
    assert(projection::before_items(after) =~= projection::before_items(before));
    let p0 = projection::apply_turns(
        projection::before_items(before),
        before.turns.drop_last(),
    );
    let (p, calls) = projection::apply_items(p0, last.id, last.items);
    lemma_gathered(p0, last.id, last.items);
    if let TurnItemKindView::ModelFunctionCall { call_id, name, arguments } = item.kind {
        let call = ModelFunctionCallView { call_id, name, arguments };
        if calls.len() > 0 {
            assert(project(before).conversation.drop_last() =~= p.conversation);
        } else {
            assert(calls.push(call) =~= seq![call]);
        }
    }
}

proof fn lemma_gathered(p: ThreadProjectionView, turn_id: Seq<char>, items: Seq<TurnItemView>)
    ensures
        projection::apply_items(p, turn_id, items).1.len() > 0 <==> items.len() > 0
            && items.last().kind is ModelFunctionCall,
{
}

/// The active turn is the last one that runs.
pub proof fn law_active_turn_is_the_last_running(thread: ThreadView, i: int)
    requires
        0 <= i < thread.turns.len(),
        thread.turns[i].status == TurnStatus::Running,
        forall|j: int|
            i < j < thread.turns.len() ==> (#[trigger] thread.turns[j]).status
                != TurnStatus::Running,
    ensures
        project(thread).active_turn_id == Some(thread.turns[i].id),
        project(thread).latest_turn_id == Some(thread.turns.last().id),
{
    projection::lemma_running_turn(thread.turns, i);
    projection::lemma_relabel_turns(
        projection::before_items(thread),
        None,
        None,
        thread.turns,
    );
    lemma_labels_stay(projection::before_items(thread), thread.turns);
}

proof fn lemma_labels_stay(p: ThreadProjectionView, turns: Seq<TurnView>)
    ensures
        projection::apply_turns(p, turns).latest_turn_id == p.latest_turn_id,
        projection::apply_turns(p, turns).active_turn_id == p.active_turn_id,
    decreases turns.len(),
{
    if turns.len() > 0 {
        lemma_labels_stay(p, turns.drop_last());
        lemma_item_labels_stay(
            projection::apply_turns(p, turns.drop_last()),
            turns.last().id,
            turns.last().items,
        );
    }
}

proof fn lemma_item_labels_stay(
    p: ThreadProjectionView,
    turn_id: Seq<char>,
    items: Seq<TurnItemView>,
)
    ensures
        projection::apply_items(p, turn_id, items).0.latest_turn_id == p.latest_turn_id,
        projection::apply_items(p, turn_id, items).0.active_turn_id == p.active_turn_id,
    decreases items.len(),
{
    if items.len() > 0 {
        lemma_item_labels_stay(p, turn_id, items.drop_last());
    }
}

/// What was used in two stretches of work is the sum of both, each count for itself,
/// as far as a count goes.
pub proof fn law_usage_adds_up(a: TokenUsage, b: TokenUsage)
    ensures
        ({
            let sum = events::usage_sum(a, b);
            &&& sum.input_tokens == least(a.input_tokens + b.input_tokens)
            &&& sum.cached_input_tokens == least(a.cached_input_tokens + b.cached_input_tokens)
            &&& sum.output_tokens == least(a.output_tokens + b.output_tokens)
            &&& sum.total_tokens == least(a.total_tokens + b.total_tokens)
        }),
{
}

/// A count, or the largest one where it is beyond that.
pub open spec fn least(n: int) -> int {
    if n > u64::MAX {
        u64::MAX as int
    } else {
        n
    }
}

/// A new turn runs and holds nothing; a new item holds what it was made of, and no
/// two made in a row have one identifier; a new thread holds nothing.
pub proof fn law_new_records(
    ids: IdSource,
    source: TurnItemSource,
    kind: TurnItemKindView,
    thread_id: Seq<char>,
)
    ensures
        events::new_turn(ids).status == TurnStatus::Running,
        events::new_turn(ids).items.len() == 0,
        events::item_view(ids, source, kind).source == source,
        events::item_view(ids, source, kind).kind == kind,
        events::item_view(ids, source, kind).id != events::item_view(
            ids::after(ids, 1),
            source,
            kind,
        ).id,
        events::new_turn(ids).id != events::new_turn(ids::after(ids, 1)).id,
        events::new_thread(thread_id, ids).id == thread_id,
        events::new_thread(thread_id, ids).turns.len() == 0,
        events::new_thread(thread_id, ids).goal is None,
        events::new_thread(thread_id, ids).version == 0,
        events::new_thread(thread_id, ids).revision.len() == 0,
        events::new_thread(thread_id, ids).schema_version == 1,
        events::new_thread(thread_id, ids).token_usage == (TokenUsage {
            input_tokens: 0,
            cached_input_tokens: 0,
            output_tokens: 0,
            total_tokens: 0,
        }),
        events::new_thread(thread_id, ids).created_at == ids::stamp(ids),
        events::new_thread(thread_id, ids).updated_at == ids::stamp(ids),
        events::new_turn(ids).created_at == ids::stamp(ids),
        events::new_turn(ids).updated_at == ids::stamp(ids),
        events::item_view(ids, source, kind).created_at == ids::stamp(ids),
{
    ids::law_counters_differ(ids, 0, 1);
    ids::law_ids_differ("item"@, ids, "item"@, ids::after(ids, 1));
    ids::law_ids_differ("turn"@, ids, "turn"@, ids::after(ids, 1));
}

/// A turn that an item is added to, or that moves to another state, keeps all else
/// but the time of its last change.
pub proof fn law_turn_changes_in_one_thing(
    turn: TurnView,
    item: TurnItemView,
    status: TurnStatus,
    ids: IdSource,
)
    ensures
        events::with_item(turn, item, ids) == (TurnView {
            items: turn.items.push(item),
            updated_at: ids::stamp(ids),
            ..turn
        }),
        events::with_status(turn, status, ids) == (TurnView {
            status,
            updated_at: ids::stamp(ids),
            ..turn
        }),
{
}

} // verus!
