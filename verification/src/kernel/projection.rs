//! The state of a thread that follows from its items.
use crate::json::{self, copy_of, text_value, Json};
use crate::kernel::events::{
    GoalState, GoalStateView, Suspension, SuspensionView, Thread, ThreadView, ToolResult,
    ToolResultView, Turn, TurnItemKind, TurnItemKindView, TurnItemView, TurnStatus, TurnView,
};
use crate::kernel::model::{ModelFunctionCall, ModelFunctionCallView};
use crate::text::text_eq;
use crate::views;
use serde_json::Value;
use vstd::prelude::*;

verus! {

/// A suspension that nothing has answered yet.
#[derive(Debug, PartialEq)]
pub struct PendingSuspension {
    pub suspension: Suspension,
    pub turn_id: String,
}

/// What a `PendingSuspension` holds.
#[verifier::ext_equal]
pub struct PendingSuspensionView {
    pub suspension: SuspensionView,
    pub turn_id: Seq<char>,
}

impl View for PendingSuspension {
    type V = PendingSuspensionView;

    open spec fn view(&self) -> PendingSuspensionView {
        PendingSuspensionView {
            suspension: self.suspension@,
            turn_id: self.turn_id@,
        }
    }
}

impl Clone for PendingSuspension {
    fn clone(&self) -> (r: Self)
        ensures
            r@ == self@,
    {
        PendingSuspension {
            suspension: self.suspension.clone(),
            turn_id: self.turn_id.clone(),
        }
    }
}

/// A question that the user has not answered yet.
#[derive(Debug, PartialEq)]
pub struct UserInputRequest {
    pub request_id: String,
    pub prompt: String,
    pub turn_id: String,
}

/// What a `UserInputRequest` holds.
#[verifier::ext_equal]
pub struct UserInputRequestView {
    pub request_id: Seq<char>,
    pub prompt: Seq<char>,
    pub turn_id: Seq<char>,
}

impl View for UserInputRequest {
    type V = UserInputRequestView;

    open spec fn view(&self) -> UserInputRequestView {
        UserInputRequestView {
            request_id: self.request_id@,
            prompt: self.prompt@,
            turn_id: self.turn_id@,
        }
    }
}

impl Clone for UserInputRequest {
    fn clone(&self) -> (r: Self)
        ensures
            r@ == self@,
    {
        UserInputRequest {
            request_id: self.request_id.clone(),
            prompt: self.prompt.clone(),
            turn_id: self.turn_id.clone(),
        }
    }
}

/// A function call that succeeded.
#[derive(Debug, PartialEq)]
pub struct CompletedFunctionCall {
    pub call_id: String,
    pub name: String,
    pub output: Value,
}

/// What a `CompletedFunctionCall` holds.
#[verifier::ext_equal]
pub struct CompletedFunctionCallView {
    pub call_id: Seq<char>,
    pub name: Seq<char>,
    pub output: Json,
}

impl View for CompletedFunctionCall {
    type V = CompletedFunctionCallView;

    open spec fn view(&self) -> CompletedFunctionCallView {
        CompletedFunctionCallView {
            call_id: self.call_id@,
            name: self.name@,
            output: json::of(self.output),
        }
    }
}

impl Clone for CompletedFunctionCall {
    fn clone(&self) -> (r: Self)
        ensures
            r@ == self@,
    {
        CompletedFunctionCall {
            call_id: self.call_id.clone(),
            name: self.name.clone(),
            output: copy_of(&self.output),
        }
    }
}

/// A message of the conversation, as a model reads it.
#[derive(Debug, PartialEq)]
pub enum ChatMessage {
    System { content: String },
    User { content: String },
    Assistant { content: Option<String>, tool_calls: Vec<ModelFunctionCall> },
    Tool { tool_call_id: String, name: String, content: Value },
}

/// What a `ChatMessage` holds.
#[verifier::ext_equal]
pub enum ChatMessageView {
    System { content: Seq<char> },
    User { content: Seq<char> },
    Assistant { content: Option<Seq<char>>, tool_calls: Seq<ModelFunctionCallView> },
    Tool { tool_call_id: Seq<char>, name: Seq<char>, content: Json },
}

impl View for ChatMessage {
    type V = ChatMessageView;

    open spec fn view(&self) -> ChatMessageView {
        match *self {
            ChatMessage::System { content } => ChatMessageView::System { content: content@ },
            ChatMessage::User { content } => ChatMessageView::User { content: content@ },
            ChatMessage::Assistant { content, tool_calls } => ChatMessageView::Assistant {
                content: views::opt(content),
                tool_calls: views::all(tool_calls@),
            },
            ChatMessage::Tool { tool_call_id, name, content } => ChatMessageView::Tool {
                tool_call_id: tool_call_id@,
                name: name@,
                content: json::of(content),
            },
        }
    }
}

impl Clone for ChatMessage {
    fn clone(&self) -> (r: Self)
        ensures
            r@ == self@,
    {
        match self {
            ChatMessage::System { content } => ChatMessage::System { content: content.clone() },
            ChatMessage::User { content } => ChatMessage::User { content: content.clone() },
            ChatMessage::Assistant { content, tool_calls } => {
                let copy_content = content.clone();
                assert(views::opt(copy_content) =~= views::opt((*content)));
                let copy_tool_calls = tool_calls.clone();
                assert(views::all(copy_tool_calls@) =~= views::all(tool_calls@));
                ChatMessage::Assistant { content: copy_content, tool_calls: copy_tool_calls }
            },
            ChatMessage::Tool { tool_call_id, name, content } => ChatMessage::Tool {
                tool_call_id: tool_call_id.clone(),
                name: name.clone(),
                content: copy_of(content),
            },
        }
    }
}

/// What the items of a thread add up to.
#[derive(Debug, PartialEq)]
pub struct ThreadProjection {
    pub conversation: Vec<ChatMessage>,
    pub goal: Option<GoalState>,
    pub pending_suspension: Option<PendingSuspension>,
    pub pending_user_input_request: Option<UserInputRequest>,
    pub completed_function_results: Vec<CompletedFunctionCall>,
    pub last_assistant_message: Option<String>,
    pub latest_turn_id: Option<String>,
    pub active_turn_id: Option<String>,
}

/// What a `ThreadProjection` holds.
#[verifier::ext_equal]
pub struct ThreadProjectionView {
    pub conversation: Seq<ChatMessageView>,
    pub goal: Option<GoalStateView>,
    pub pending_suspension: Option<PendingSuspensionView>,
    pub pending_user_input_request: Option<UserInputRequestView>,
    pub completed_function_results: Seq<CompletedFunctionCallView>,
    pub last_assistant_message: Option<Seq<char>>,
    pub latest_turn_id: Option<Seq<char>>,
    pub active_turn_id: Option<Seq<char>>,
}

impl View for ThreadProjection {
    type V = ThreadProjectionView;

    open spec fn view(&self) -> ThreadProjectionView {
        ThreadProjectionView {
            conversation: views::all(self.conversation@),
            goal: views::opt(self.goal),
            pending_suspension: views::opt(self.pending_suspension),
            pending_user_input_request: views::opt(self.pending_user_input_request),
            completed_function_results: views::all(self.completed_function_results@),
            last_assistant_message: views::opt(self.last_assistant_message),
            latest_turn_id: views::opt(self.latest_turn_id),
            active_turn_id: views::opt(self.active_turn_id),
        }
    }
}

impl Clone for ThreadProjection {
    fn clone(&self) -> (r: Self)
        ensures
            r@ == self@,
    {
        let r = ThreadProjection {
            conversation: self.conversation.clone(),
            goal: self.goal.clone(),
            pending_suspension: self.pending_suspension.clone(),
            pending_user_input_request: self.pending_user_input_request.clone(),
            completed_function_results: self.completed_function_results.clone(),
            last_assistant_message: self.last_assistant_message.clone(),
            latest_turn_id: self.latest_turn_id.clone(),
            active_turn_id: self.active_turn_id.clone(),
        };
        assert(views::all(r.conversation@) =~= views::all(self.conversation@));
        assert(views::opt(r.goal) =~= views::opt(self.goal));
        assert(views::opt(r.pending_suspension) =~= views::opt(self.pending_suspension));
        assert(views::opt(r.pending_user_input_request)
            =~= views::opt(self.pending_user_input_request));
        assert(views::all(r.completed_function_results@)
            =~= views::all(self.completed_function_results@));
        assert(views::opt(r.last_assistant_message) =~= views::opt(self.last_assistant_message));
        assert(views::opt(r.latest_turn_id) =~= views::opt(self.latest_turn_id));
        assert(views::opt(r.active_turn_id) =~= views::opt(self.active_turn_id));
        r
    }
}

// ---------------------------------------------------------------------------
// The projection of a thread

/// The last turn that is still running.
pub open spec fn running_turn(turns: Seq<TurnView>) -> Option<Seq<char>>
    decreases turns.len(),
{
    if turns.len() == 0 {
        None
    } else if turns.last().status == TurnStatus::Running {
        Some(turns.last().id)
    } else {
        running_turn(turns.drop_last())
    }
}

/// The projection before any item is read.
pub open spec fn before_items(thread: ThreadView) -> ThreadProjectionView {
    ThreadProjectionView {
        conversation: Seq::empty(),
        goal: thread.goal,
        pending_suspension: None,
        pending_user_input_request: None,
        completed_function_results: Seq::empty(),
        last_assistant_message: None,
        latest_turn_id: if thread.turns.len() > 0 {
            Some(thread.turns.last().id)
        } else {
            None
        },
        active_turn_id: running_turn(thread.turns),
    }
}

/// The projection with one message more.
pub open spec fn say(p: ThreadProjectionView, message: ChatMessageView) -> ThreadProjectionView {
    ThreadProjectionView { conversation: p.conversation.push(message), ..p }
}

/// The projection once the calls that the model asked for in a row have become
/// one message.
pub open spec fn flush(
    p: ThreadProjectionView,
    calls: Seq<ModelFunctionCallView>,
) -> ThreadProjectionView {
    if calls.len() == 0 {
        p
    } else {
        say(p, ChatMessageView::Assistant { content: None, tool_calls: calls })
    }
}

/// What is left of a pending suspension when the user says something.
pub open spec fn unanswered_suspension(
    pending: Option<PendingSuspensionView>,
    response_to: Option<Seq<char>>,
) -> Option<PendingSuspensionView> {
    match (pending, response_to) {
        (Some(p), Some(id)) => if p.suspension.id == id {
            None
        } else {
            Some(p)
        },
        _ => None,
    }
}

/// What is left of a pending question when the user says something.
pub open spec fn unanswered_request(
    pending: Option<UserInputRequestView>,
    response_to: Option<Seq<char>>,
) -> Option<UserInputRequestView> {
    match (pending, response_to) {
        (Some(p), Some(id)) => if p.request_id == id {
            None
        } else {
            Some(p)
        },
        _ => None,
    }
}

/// The projection after an item that is no single function call.
pub open spec fn apply_kind(
    p: ThreadProjectionView,
    turn_id: Seq<char>,
    kind: TurnItemKindView,
) -> ThreadProjectionView {
    match kind {
        TurnItemKindView::UserInput { text, response_to } => ThreadProjectionView {
            pending_suspension: unanswered_suspension(p.pending_suspension, response_to),
            pending_user_input_request: unanswered_request(
                p.pending_user_input_request,
                response_to,
            ),
            ..say(p, ChatMessageView::User { content: text })
        },
        TurnItemKindView::ModelMessage { text } => ThreadProjectionView {
            last_assistant_message: Some(text),
            ..say(p, ChatMessageView::Assistant { content: Some(text), tool_calls: Seq::empty() })
        },
        TurnItemKindView::ModelResponse { text, function_calls } => ThreadProjectionView {
            last_assistant_message: if text is Some {
                text
            } else {
                p.last_assistant_message
            },
            ..say(p, ChatMessageView::Assistant { content: text, tool_calls: function_calls })
        },
        TurnItemKindView::ToolOutput { call_id, name, result } => match result {
            ToolResultView::Success { output } => ThreadProjectionView {
                completed_function_results: p.completed_function_results.push(
                    CompletedFunctionCallView { call_id, name, output },
                ),
                ..say(p, ChatMessageView::Tool { tool_call_id: call_id, name, content: output })
            },
            ToolResultView::Error { error } => say(
                p,
                ChatMessageView::Tool { tool_call_id: call_id, name, content: Json::Text(error) },
            ),
        },
        TurnItemKindView::UserInputRequested { request_id, prompt } => ThreadProjectionView {
            pending_user_input_request: Some(UserInputRequestView { request_id, prompt, turn_id }),
            ..p
        },
        TurnItemKindView::SuspensionCreated { suspension } => ThreadProjectionView {
            pending_suspension: Some(PendingSuspensionView { suspension, turn_id }),
            ..p
        },
        TurnItemKindView::GoalUpdated { previous, current } => ThreadProjectionView {
            goal: Some(current),
            ..p
        },
        _ => p,
    }
}

/// The projection, and the function calls not yet in it, after an item.
pub open spec fn apply_item(
    state: (ThreadProjectionView, Seq<ModelFunctionCallView>),
    turn_id: Seq<char>,
    kind: TurnItemKindView,
) -> (ThreadProjectionView, Seq<ModelFunctionCallView>) {
    match kind {
        TurnItemKindView::ModelFunctionCall { call_id, name, arguments } => (
            state.0,
            state.1.push(ModelFunctionCallView { call_id, name, arguments }),
        ),
        _ => (apply_kind(flush(state.0, state.1), turn_id, kind), Seq::empty()),
    }
}

/// The projection, and the function calls not yet in it, after the items of a
/// turn.
pub open spec fn apply_items(
    p: ThreadProjectionView,
    turn_id: Seq<char>,
    items: Seq<TurnItemView>,
) -> (ThreadProjectionView, Seq<ModelFunctionCallView>)
    decreases items.len(),
{
    if items.len() == 0 {
        (p, Seq::empty())
    } else {
        apply_item(apply_items(p, turn_id, items.drop_last()), turn_id, items.last().kind)
    }
}

/// The projection after a turn.
pub open spec fn apply_turn(p: ThreadProjectionView, turn: TurnView) -> ThreadProjectionView {
    let (q, calls) = apply_items(p, turn.id, turn.items);
    flush(q, calls)
}

/// The projection after all turns.
pub open spec fn apply_turns(
    p: ThreadProjectionView,
    turns: Seq<TurnView>,
) -> ThreadProjectionView
    decreases turns.len(),
{
    if turns.len() == 0 {
        p
    } else {
        apply_turn(apply_turns(p, turns.drop_last()), turns.last())
    }
}

/// What the items of a thread add up to.
pub open spec fn project(thread: ThreadView) -> ThreadProjectionView {
    apply_turns(before_items(thread), thread.turns)
}

impl Default for ThreadProjection {
    fn default() -> (r: Self)
        ensures
            r@.conversation == Seq::<ChatMessageView>::empty(),
            r@.goal is None,
            r@.pending_suspension is None,
            r@.pending_user_input_request is None,
            r@.completed_function_results == Seq::<CompletedFunctionCallView>::empty(),
            r@.last_assistant_message is None,
            r@.latest_turn_id is None,
            r@.active_turn_id is None,
    {
        broadcast use crate::views::group_views;

        ThreadProjection {
            conversation: Vec::new(),
            goal: None,
            pending_suspension: None,
            pending_user_input_request: None,
            completed_function_results: Vec::new(),
            last_assistant_message: None,
            latest_turn_id: None,
            active_turn_id: None,
        }
    }
}

/// Turns the calls that the model asked for in a row into one message.
fn flush_tool_calls(
    projection: &mut ThreadProjection,
    pending_tool_calls: &mut Vec<ModelFunctionCall>,
)
    ensures
        final(projection)@ == flush(old(projection)@, views::all(old(pending_tool_calls)@)),
        final(pending_tool_calls)@.len() == 0,
{
    if pending_tool_calls.len() == 0 {
        return ;
    }
    broadcast use crate::views::group_views;

    let mut tool_calls: Vec<ModelFunctionCall> = Vec::new();
    tool_calls.append(pending_tool_calls);
    assert(tool_calls@ =~= old(pending_tool_calls)@);
    projection.conversation.push(ChatMessage::Assistant { content: None, tool_calls });
}

/// The last turn that is still running.
fn active_turn(turns: &Vec<Turn>) -> (r: Option<String>)
    ensures
        views::opt(r) == running_turn(views::all(turns@)),
{
    let mut n: usize = turns.len();
    assert(views::all(turns@).take(n as int) =~= views::all(turns@));
    while n > 0
        invariant
            n <= turns@.len(),
            running_turn(views::all(turns@)) == running_turn(views::all(turns@).take(n as int)),
        decreases n,
    {
        let ghost so_far = views::all(turns@).take(n as int);
        assert(so_far.last() == turns@[n - 1]@);
        assert(so_far.drop_last() =~= views::all(turns@).take(n - 1));
        n = n - 1;
        if turns[n].status == TurnStatus::Running {
            return Some(turns[n].id.clone());
        }
    }
    None
}

impl ThreadProjection {
    /// Reads one item that is no single function call.
    fn apply(&mut self, turn_id: &String, kind: &TurnItemKind)
        requires
            !(kind is ModelFunctionCall),
        ensures
            final(self)@ == apply_kind(old(self)@, turn_id@, kind@),
    {
        broadcast use crate::views::group_views;

        match kind {
            TurnItemKind::UserInput { text, response_to } => {
                self.conversation.push(ChatMessage::User { content: text.clone() });
                let suspension_stays = match (&self.pending_suspension, response_to) {
                    (Some(pending), Some(id)) => !text_eq(
                        pending.suspension.id.as_str(),
                        id.as_str(),
                    ),
                    _ => false,
                };
                if !suspension_stays {
                    self.pending_suspension = None;
                }
                let request_stays = match (&self.pending_user_input_request, response_to) {
                    (Some(pending), Some(id)) => !text_eq(
                        pending.request_id.as_str(),
                        id.as_str(),
                    ),
                    _ => false,
                };
                if !request_stays {
                    self.pending_user_input_request = None;
                }
            },
            TurnItemKind::ModelMessage { text } => {
                self.last_assistant_message = Some(text.clone());
                self.conversation.push(
                    ChatMessage::Assistant { content: Some(text.clone()), tool_calls: Vec::new() },
                );
            },
            TurnItemKind::ModelFunctionCall { .. } => {},
            TurnItemKind::ModelResponse { text, function_calls } => {
                if let Some(text) = text {
                    self.last_assistant_message = Some(text.clone());
                }
                let tool_calls = function_calls.clone();
                assert(views::all(tool_calls@) =~= views::all(function_calls@));
                self.conversation.push(
                    ChatMessage::Assistant { content: text.clone(), tool_calls },
                );
            },
            TurnItemKind::ToolOutput { call_id, name, result } => match result {
                ToolResult::Success { output } => {
                    self.completed_function_results.push(
                        CompletedFunctionCall {
                            call_id: call_id.clone(),
                            name: name.clone(),
                            output: copy_of(output),
                        },
                    );
                    self.conversation.push(
                        ChatMessage::Tool {
                            tool_call_id: call_id.clone(),
                            name: name.clone(),
                            content: copy_of(output),
                        },
                    );
                },
                ToolResult::Error { error } => {
                    self.conversation.push(
                        ChatMessage::Tool {
                            tool_call_id: call_id.clone(),
                            name: name.clone(),
                            content: text_value(error.clone()),
                        },
                    );
                },
            },
            TurnItemKind::UserInputRequested { request_id, prompt } => {
                self.pending_user_input_request = Some(
                    UserInputRequest {
                        request_id: request_id.clone(),
                        prompt: prompt.clone(),
                        turn_id: turn_id.clone(),
                    },
                );
            },
            TurnItemKind::SuspensionCreated { suspension } => {
                self.pending_suspension = Some(
                    PendingSuspension { suspension: suspension.clone(), turn_id: turn_id.clone() },
                );
            },
            TurnItemKind::GoalUpdated { previous: _, current } => {
                self.goal = Some(current.clone());
            },
            TurnItemKind::TurnFailed { .. } => {},
            TurnItemKind::TurnAborted { .. } => {},
        }
    }

    /// What the items of `thread` add up to.
    pub fn from_thread(thread: &Thread) -> (r: Self)
        ensures
            r@ == project(thread@),
    {
        broadcast use crate::views::group_views;

        let latest_turn_id = if thread.turns.len() > 0 {
            Some(thread.turns[thread.turns.len() - 1].id.clone())
        } else {
            None
        };
        let mut projection = ThreadProjection {
            goal: thread.goal.clone(),
            latest_turn_id,
            active_turn_id: active_turn(&thread.turns),
            ..ThreadProjection::default()
        };
        assert(projection@ =~= before_items(thread@));
        let mut i: usize = 0;
        assert(thread@.turns.take(0) =~= Seq::<TurnView>::empty());
        while i < thread.turns.len()
            invariant
                i <= thread.turns@.len(),
                projection@ == apply_turns(before_items(thread@), thread@.turns.take(i as int)),
            decreases thread.turns@.len() - i,
        {
            let turn = &thread.turns[i];
            let ghost before = projection@;
            let mut pending_tool_calls: Vec<ModelFunctionCall> = Vec::new();
            let mut k: usize = 0;
            assert(turn@.items.take(0) =~= Seq::<TurnItemView>::empty());
            while k < turn.items.len()
                invariant
                    k <= turn.items@.len(),
                    (projection@, views::all(pending_tool_calls@)) == apply_items(
                        before,
                        turn.id@,
                        turn@.items.take(k as int),
                    ),
                decreases turn.items@.len() - k,
            {
                let item = &turn.items[k];
                let ghost so_far = turn@.items.take(k + 1);
                assert(so_far.drop_last() =~= turn@.items.take(k as int));
                assert(so_far.last() == item@);
                match &item.kind {
                    TurnItemKind::ModelFunctionCall { call_id, name, arguments } => {
                        pending_tool_calls.push(
                            ModelFunctionCall {
                                call_id: call_id.clone(),
                                name: name.clone(),
                                arguments: copy_of(arguments),
                            },
                        );
                    },
                    kind => {
                        flush_tool_calls(&mut projection, &mut pending_tool_calls);
                        assert(views::all(pending_tool_calls@) =~= Seq::<
                            ModelFunctionCallView,
                        >::empty());
                        projection.apply(&turn.id, kind);
                    },
                }
                k = k + 1;
            }
            assert(turn@.items.take(k as int) =~= turn@.items);
            flush_tool_calls(&mut projection, &mut pending_tool_calls);
            let ghost so_far = thread@.turns.take(i + 1);
            assert(so_far.drop_last() =~= thread@.turns.take(i as int));
            assert(so_far.last() == turn@);
            i = i + 1;
        }
        assert(thread@.turns.take(i as int) =~= thread@.turns);
        projection
    }
}

// ---------------------------------------------------------------------------
// Laws

/// The projection under other turn identifiers.
pub open spec fn relabel(
    p: ThreadProjectionView,
    latest_turn_id: Option<Seq<char>>,
    active_turn_id: Option<Seq<char>>,
) -> ThreadProjectionView {
    ThreadProjectionView { latest_turn_id, active_turn_id, ..p }
}

pub proof fn lemma_relabel_items(
    p: ThreadProjectionView,
    latest: Option<Seq<char>>,
    active: Option<Seq<char>>,
    turn_id: Seq<char>,
    items: Seq<TurnItemView>,
)
    ensures
        apply_items(relabel(p, latest, active), turn_id, items) == (
            relabel(apply_items(p, turn_id, items).0, latest, active),
            apply_items(p, turn_id, items).1,
        ),
        apply_items(p, turn_id, items).0.latest_turn_id == p.latest_turn_id,
        apply_items(p, turn_id, items).0.active_turn_id == p.active_turn_id,
    decreases items.len(),
{
    if items.len() > 0 {
        lemma_relabel_items(p, latest, active, turn_id, items.drop_last());
    }
}

/// Which turn is the latest, and which is active, has no part in what the items
/// add up to.
pub proof fn lemma_relabel_turns(
    p: ThreadProjectionView,
    latest: Option<Seq<char>>,
    active: Option<Seq<char>>,
    turns: Seq<TurnView>,
)
    ensures
        apply_turns(relabel(p, latest, active), turns) == relabel(
            apply_turns(p, turns),
            latest,
            active,
        ),
        apply_turns(p, turns).latest_turn_id == p.latest_turn_id,
        apply_turns(p, turns).active_turn_id == p.active_turn_id,
    decreases turns.len(),
{
    if turns.len() > 0 {
        lemma_relabel_turns(p, latest, active, turns.drop_last());
        lemma_relabel_items(
            apply_turns(p, turns.drop_last()),
            latest,
            active,
            turns.last().id,
            turns.last().items,
        );
    }
}

/// The suspension that is pending after an item.
pub open spec fn pending_after(
    pending: Option<PendingSuspensionView>,
    turn_id: Seq<char>,
    kind: TurnItemKindView,
) -> Option<PendingSuspensionView> {
    match kind {
        TurnItemKindView::UserInput { text, response_to } => unanswered_suspension(
            pending,
            response_to,
        ),
        TurnItemKindView::SuspensionCreated { suspension } => Some(
            PendingSuspensionView { suspension, turn_id },
        ),
        _ => pending,
    }
}

/// The suspension that is pending after the items of a turn.
pub open spec fn pending_after_items(
    pending: Option<PendingSuspensionView>,
    turn_id: Seq<char>,
    items: Seq<TurnItemView>,
) -> Option<PendingSuspensionView>
    decreases items.len(),
{
    if items.len() == 0 {
        pending
    } else {
        pending_after(
            pending_after_items(pending, turn_id, items.drop_last()),
            turn_id,
            items.last().kind,
        )
    }
}

/// The suspension that is pending after some turns.
pub open spec fn pending_after_turns(turns: Seq<TurnView>) -> Option<PendingSuspensionView>
    decreases turns.len(),
{
    if turns.len() == 0 {
        None
    } else {
        pending_after_items(
            pending_after_turns(turns.drop_last()),
            turns.last().id,
            turns.last().items,
        )
    }
}

proof fn lemma_pending_items(
    p: ThreadProjectionView,
    turn_id: Seq<char>,
    items: Seq<TurnItemView>,
)
    ensures
        apply_items(p, turn_id, items).0.pending_suspension == pending_after_items(
            p.pending_suspension,
            turn_id,
            items,
        ),
    decreases items.len(),
{
    if items.len() > 0 {
        lemma_pending_items(p, turn_id, items.drop_last());
    }
}

proof fn lemma_pending_turns(p: ThreadProjectionView, turns: Seq<TurnView>)
    requires
        p.pending_suspension is None,
    ensures
        apply_turns(p, turns).pending_suspension == pending_after_turns(turns),
    decreases turns.len(),
{
    if turns.len() > 0 {
        lemma_pending_turns(p, turns.drop_last());
        lemma_pending_items(
            apply_turns(p, turns.drop_last()),
            turns.last().id,
            turns.last().items,
        );
    }
}

/// What is pending depends on the items alone.
pub proof fn lemma_pending(thread: ThreadView)
    ensures
        project(thread).pending_suspension == pending_after_turns(thread.turns),
{
    lemma_pending_turns(before_items(thread), thread.turns);
}

/// Items that neither ask for nor give an answer leave what is pending as it is.
pub proof fn lemma_pending_unmoved(
    pending: Option<PendingSuspensionView>,
    turn_id: Seq<char>,
    items: Seq<TurnItemView>,
    more: Seq<TurnItemView>,
)
    requires
        forall|k: int|
            0 <= k < more.len() ==> !((#[trigger] more[k]).kind is UserInput)
                && !(more[k].kind is SuspensionCreated),
    ensures
        pending_after_items(pending, turn_id, items + more) == pending_after_items(
            pending,
            turn_id,
            items,
        ),
    decreases more.len(),
{
    if more.len() == 0 {
        assert(items + more =~= items);
    } else {
        assert((items + more).drop_last() =~= items + more.drop_last());
        assert forall|k: int| 0 <= k < more.drop_last().len() implies !((
        #[trigger] more.drop_last()[k]).kind is UserInput) && !(
        more.drop_last()[k].kind is SuspensionCreated) by {
            assert(more.drop_last()[k] == more[k]);
        }
        lemma_pending_unmoved(pending, turn_id, items, more.drop_last());
        assert((items + more).last() == more[more.len() - 1]);
    }
}

/// The same, for items that are added to one of several turns.
pub proof fn lemma_pending_unmoved_in(turns: Seq<TurnView>, i: int, later: TurnView)
    requires
        0 <= i < turns.len(),
        later.id == turns[i].id,
        turns[i].items.is_prefix_of(later.items),
        forall|k: int|
            turns[i].items.len() <= k < later.items.len() ==> !((
            #[trigger] later.items[k]).kind is UserInput) && !(
            later.items[k].kind is SuspensionCreated),
    ensures
        pending_after_turns(turns.update(i, later)) == pending_after_turns(turns),
    decreases turns.len(),
{
    let changed = turns.update(i, later);
    let n = turns.len() as int;
    if i < n - 1 {
        assert(changed.drop_last() =~= turns.drop_last().update(i, later));
        lemma_pending_unmoved_in(turns.drop_last(), i, later);
    } else {
        let more = later.items.skip(turns[i].items.len() as int);
        assert(changed.drop_last() =~= turns.drop_last());
        assert(later.items =~= turns[i].items + more);
        lemma_pending_unmoved(
            pending_after_turns(turns.drop_last()),
            later.id,
            turns[i].items,
            more,
        );
    }
}

/// The last running turn is the active one.
pub proof fn lemma_running_turn(turns: Seq<TurnView>, i: int)
    requires
        0 <= i < turns.len(),
        turns[i].status == TurnStatus::Running,
        forall|j: int| i < j < turns.len() ==> (#[trigger] turns[j]).status != TurnStatus::Running,
    ensures
        running_turn(turns) == Some(turns[i].id),
    decreases turns.len(),
{
    if i < turns.len() - 1 {
        assert(turns[turns.len() - 1].status != TurnStatus::Running);
        lemma_running_turn(turns.drop_last(), i);
    }
}

/// A new turn at the end acts on what the earlier turns added up to.
pub proof fn law_turn_appended(thread: ThreadView, turn: TurnView)
    ensures
        project(ThreadView { turns: thread.turns.push(turn), ..thread }) == relabel(
            apply_turn(project(thread), turn),
            Some(turn.id),
            running_turn(thread.turns.push(turn)),
        ),
{
    let longer = ThreadView { turns: thread.turns.push(turn), ..thread };
    let latest = before_items(longer).latest_turn_id;
    let active = before_items(longer).active_turn_id;
    assert(longer.turns.drop_last() =~= thread.turns);
    assert(before_items(longer) =~= relabel(before_items(thread), latest, active));
    lemma_relabel_turns(before_items(thread), latest, active, thread.turns);
    lemma_relabel_items(project(thread), latest, active, turn.id, turn.items);
}

/// The thread with an item more in its last turn.
pub open spec fn with_last_item(thread: ThreadView, item: TurnItemView) -> ThreadView {
    let last = thread.turns.last();
    ThreadView {
        turns: thread.turns.drop_last().push(TurnView { items: last.items.push(item), ..last }),
        ..thread
    }
}

/// An item recorded at the end of a thread acts on what the thread added up to
/// before. (Single function calls are gathered into one message instead.)
pub proof fn law_item_recorded(thread: ThreadView, item: TurnItemView)
    requires
        thread.turns.len() > 0,
        !(item.kind is ModelFunctionCall),
    ensures
        project(with_last_item(thread, item)) == apply_kind(
            project(thread),
            thread.turns.last().id,
            item.kind,
        ),
{
    let next = with_last_item(thread, item);
    let turn = next.turns.last();
    assert(next.turns.drop_last() =~= thread.turns.drop_last());
    assert(turn.items.drop_last() =~= thread.turns.last().items);
    assert(before_items(next) =~= before_items(thread));
}

/// What was said stays said: a new turn only adds to the conversation.
pub proof fn law_conversation_grows(thread: ThreadView, turn: TurnView)
    ensures
        project(thread).conversation.is_prefix_of(
            project(ThreadView { turns: thread.turns.push(turn), ..thread }).conversation,
        ),
{
    law_turn_appended(thread, turn);
    lemma_items_add(project(thread), turn.id, turn.items);
}

proof fn lemma_items_add(p: ThreadProjectionView, turn_id: Seq<char>, items: Seq<TurnItemView>)
    ensures
        p.conversation.is_prefix_of(apply_items(p, turn_id, items).0.conversation),
    decreases items.len(),
{
    if items.len() > 0 {
        lemma_items_add(p, turn_id, items.drop_last());
    }
}

/// An answer to the pending suspension, or a new question of the user, leaves
/// nothing pending; an answer to anything else leaves it as it was.
pub proof fn law_answer_clears_suspension(
    thread: ThreadView,
    item: TurnItemView,
    text: Seq<char>,
    response_to: Option<Seq<char>>,
)
    requires
        thread.turns.len() > 0,
        item.kind == (TurnItemKindView::UserInput { text, response_to }),
    ensures
        project(with_last_item(thread, item)).pending_suspension == (match (
            project(thread).pending_suspension,
            response_to,
        ) {
            (Some(pending), Some(id)) if pending.suspension.id != id => Some(pending),
            _ => None,
        }),
{
    law_item_recorded(thread, item);
}

/// The pending suspension is one that an item of the named turn records.
pub open spec fn suspension_recorded(
    turns: Seq<TurnView>,
    pending: PendingSuspensionView,
) -> bool {
    exists|i: int, j: int|
        0 <= i < turns.len() && 0 <= j < turns[i].items.len() && turns[i].id == pending.turn_id && (
        #[trigger] turns[i].items[j]).kind == (TurnItemKindView::SuspensionCreated {
            suspension: pending.suspension,
        })
}

/// What is pending was created by an item, and is charged to that item's turn.
pub proof fn law_pending_suspension_recorded(thread: ThreadView)
    requires
        project(thread).pending_suspension is Some,
    ensures
        suspension_recorded(thread.turns, project(thread).pending_suspension->0),
{
    lemma_pending_in_turns(before_items(thread), thread.turns);
}

proof fn lemma_pending_in_turns(p: ThreadProjectionView, turns: Seq<TurnView>)
    requires
        p.pending_suspension is None,
    ensures
        apply_turns(p, turns).pending_suspension matches Some(pending) ==> suspension_recorded(
            turns,
            pending,
        ),
    decreases turns.len(),
{
    if turns.len() > 0 {
        let before = apply_turns(p, turns.drop_last());
        let turn = turns.last();
        lemma_pending_in_turns(p, turns.drop_last());
        lemma_pending_in_items(before, turn.id, turn.items);
        if let Some(pending) = apply_turns(p, turns).pending_suspension {
            if before.pending_suspension == Some(pending) {
                let (i, j) = choose|i: int, j: int|
                    0 <= i < turns.drop_last().len() && 0 <= j < turns.drop_last()[i].items.len()
                        && turns.drop_last()[i].id == pending.turn_id && (
                    #[trigger] turns.drop_last()[i].items[j]).kind == (
                    TurnItemKindView::SuspensionCreated { suspension: pending.suspension });
                assert(turns[i].items[j].kind == (TurnItemKindView::SuspensionCreated {
                    suspension: pending.suspension,
                }));
            } else {
                let j = choose|j: int|
                    0 <= j < turn.items.len() && (#[trigger] turn.items[j]).kind == (
                    TurnItemKindView::SuspensionCreated { suspension: pending.suspension });
                assert(turns[turns.len() - 1].items[j].kind == (
                TurnItemKindView::SuspensionCreated { suspension: pending.suspension }));
            }
        }
    }
}

proof fn lemma_pending_in_items(
    p: ThreadProjectionView,
    turn_id: Seq<char>,
    items: Seq<TurnItemView>,
)
    ensures
        apply_items(p, turn_id, items).0.pending_suspension matches Some(pending) ==> (
        p.pending_suspension == Some(pending) || (pending.turn_id == turn_id && exists|j: int|
            0 <= j < items.len() && (#[trigger] items[j]).kind == (
            TurnItemKindView::SuspensionCreated { suspension: pending.suspension }))),
    decreases items.len(),
{
    if items.len() > 0 {
        lemma_pending_in_items(p, turn_id, items.drop_last());
        let before = apply_items(p, turn_id, items.drop_last()).0;
        if let Some(pending) = apply_items(p, turn_id, items).0.pending_suspension {
            if before.pending_suspension == Some(pending) && p.pending_suspension != Some(pending) {
                let j = choose|j: int|
                    0 <= j < items.drop_last().len() && (#[trigger] items.drop_last()[j]).kind == (
                    TurnItemKindView::SuspensionCreated { suspension: pending.suspension });
                assert(items[j] == items.drop_last()[j]);
            } else if before.pending_suspension != Some(pending) {
                assert(items[items.len() - 1].kind == (TurnItemKindView::SuspensionCreated {
                    suspension: pending.suspension,
                }));
            }
        }
    }
}

/// The goal that the last goal update of the turns sets, or the one before.
pub open spec fn goal_after(
    goal: Option<GoalStateView>,
    turns: Seq<TurnView>,
) -> Option<GoalStateView>
    decreases turns.len(),
{
    if turns.len() == 0 {
        goal
    } else {
        goal_after_items(goal_after(goal, turns.drop_last()), turns.last().items)
    }
}

/// The goal that the last goal update of the items sets, or the one before.
pub open spec fn goal_after_items(
    goal: Option<GoalStateView>,
    items: Seq<TurnItemView>,
) -> Option<GoalStateView>
    decreases items.len(),
{
    if items.len() == 0 {
        goal
    } else {
        match items.last().kind {
            TurnItemKindView::GoalUpdated { previous, current } => Some(current),
            _ => goal_after_items(goal, items.drop_last()),
        }
    }
}

/// The goal is the one that was set last, and the thread's own before any was.
pub proof fn law_goal_is_last_set(thread: ThreadView)
    ensures
        project(thread).goal == goal_after(thread.goal, thread.turns),
{
    lemma_goal_turns(before_items(thread), thread.turns);
}

proof fn lemma_goal_turns(p: ThreadProjectionView, turns: Seq<TurnView>)
    ensures
        apply_turns(p, turns).goal == goal_after(p.goal, turns),
    decreases turns.len(),
{
    if turns.len() > 0 {
        lemma_goal_turns(p, turns.drop_last());
        lemma_goal_items(apply_turns(p, turns.drop_last()), turns.last().id, turns.last().items);
    }
}

proof fn lemma_goal_items(p: ThreadProjectionView, turn_id: Seq<char>, items: Seq<TurnItemView>)
    ensures
        apply_items(p, turn_id, items).0.goal == goal_after_items(p.goal, items),
    decreases items.len(),
{
    if items.len() > 0 {
        lemma_goal_items(p, turn_id, items.drop_last());
    }
}

/// A turn that is no longer running is never the active one.
pub proof fn law_active_turn_runs(thread: ThreadView)
    ensures
        project(thread).active_turn_id matches Some(id) ==> exists|i: int|
            0 <= i < thread.turns.len() && (#[trigger] thread.turns[i]).id == id
                && thread.turns[i].status == TurnStatus::Running,
        project(thread).active_turn_id is None <==> (forall|i: int|
            0 <= i < thread.turns.len() ==> (#[trigger] thread.turns[i]).status
                != TurnStatus::Running),
{
    lemma_relabel_turns(before_items(thread), None, None, thread.turns);
    lemma_running(thread.turns);
}

proof fn lemma_running(turns: Seq<TurnView>)
    ensures
        running_turn(turns) matches Some(id) ==> exists|i: int|
            0 <= i < turns.len() && (#[trigger] turns[i]).id == id && turns[i].status
                == TurnStatus::Running,
        running_turn(turns) is None <==> (forall|i: int|
            0 <= i < turns.len() ==> (#[trigger] turns[i]).status != TurnStatus::Running),
    decreases turns.len(),
{
    if turns.len() > 0 {
        lemma_running(turns.drop_last());
        assert(turns.last() == turns[turns.len() - 1]);
        assert forall|i: int| 0 <= i < turns.len() - 1 implies #[trigger] turns[i]
            == turns.drop_last()[i] by {}
        if turns.last().status != TurnStatus::Running {
            if let Some(id) = running_turn(turns.drop_last()) {
                let i = choose|i: int|
                    0 <= i < turns.drop_last().len() && (#[trigger] turns.drop_last()[i]).id == id
                        && turns.drop_last()[i].status == TurnStatus::Running;
                assert(turns[i].id == id);
            }
        }
    }
}

} // verus!
