//! The state of a thread that follows from its items, with all messages as plain
//! text.
use crate::json::{self, copy_of, value_text, Json};
use crate::kernel::events::{
    GoalState, GoalStateView, Thread, ThreadView, ToolResult, ToolResultView, Turn, TurnItemKind,
    TurnItemKindView, TurnItemView, TurnStatus, TurnView,
};
use crate::kernel::projection::{
    self, CompletedFunctionCall, CompletedFunctionCallView, UserInputRequest, UserInputRequestView,
};
use crate::text::{joined, text_eq};
use crate::views;
use vstd::prelude::*;

verus! {

/// Who a message comes from.
#[derive(Debug, Clone, Copy, PartialEq, Eq, Structural)]
pub enum ChatRole {
    System,
    User,
    Assistant,
    Tool,
}

/// A message as a model reads it.
#[derive(Debug, PartialEq)]
pub struct ChatMessage {
    pub role: ChatRole,
    pub content: String,
    pub name: Option<String>,
    pub tool_call_id: Option<String>,
}

/// What a `ChatMessage` holds.
#[verifier::ext_equal]
pub struct ChatMessageView {
    pub role: ChatRole,
    pub content: Seq<char>,
    pub name: Option<Seq<char>>,
    pub tool_call_id: Option<Seq<char>>,
}

impl View for ChatMessage {
    type V = ChatMessageView;

    open spec fn view(&self) -> ChatMessageView {
        ChatMessageView {
            role: self.role,
            content: self.content@,
            name: views::opt(self.name),
            tool_call_id: views::opt(self.tool_call_id),
        }
    }
}

impl Clone for ChatMessage {
    fn clone(&self) -> (r: Self)
        ensures
            r@ == self@,
    {
        let r = ChatMessage {
            role: self.role,
            content: self.content.clone(),
            name: self.name.clone(),
            tool_call_id: self.tool_call_id.clone(),
        };
        assert(views::opt(r.name) =~= views::opt(self.name));
        assert(views::opt(r.tool_call_id) =~= views::opt(self.tool_call_id));
        r
    }
}

/// What the items of a thread add up to.
#[derive(Debug, PartialEq)]
pub struct ThreadProjection {
    pub messages_for_model: Vec<ChatMessage>,
    pub goal: Option<GoalState>,
    pub pending_user_input_request: Option<UserInputRequest>,
    pub completed_function_results: Vec<CompletedFunctionCall>,
    pub last_assistant_message: Option<String>,
    pub latest_turn_id: Option<String>,
    pub active_turn_id: Option<String>,
}

/// What a `ThreadProjection` holds.
#[verifier::ext_equal]
pub struct ThreadProjectionView {
    pub messages_for_model: Seq<ChatMessageView>,
    pub goal: Option<GoalStateView>,
    pub pending_user_input_request: Option<UserInputRequestView>,
    pub completed_function_results: Seq<CompletedFunctionCallView>,
    pub last_assistant_message: Option<Seq<char>>,
    pub latest_turn_id: Option<Seq<char>>,
    pub active_turn_id: Option<Seq<char>>,
}

impl View for ThreadProjection {
    type V = ThreadProjectionView;

    open spec fn view(&self) -> ThreadProjectionView {
        ThreadProjectionView {
            messages_for_model: views::all(self.messages_for_model@),
            goal: views::opt(self.goal),
            pending_user_input_request: views::opt(self.pending_user_input_request),
            completed_function_results: views::all(self.completed_function_results@),
            last_assistant_message: views::opt(self.last_assistant_message),
            latest_turn_id: views::opt(self.latest_turn_id),
            active_turn_id: views::opt(self.active_turn_id),
        }
    }
}

impl Clone for ThreadProjection {
    fn clone(&self) -> (r: Self)
        ensures
            r@ == self@,
    {
        let r = ThreadProjection {
            messages_for_model: self.messages_for_model.clone(),
            goal: self.goal.clone(),
            pending_user_input_request: self.pending_user_input_request.clone(),
            completed_function_results: self.completed_function_results.clone(),
            last_assistant_message: self.last_assistant_message.clone(),
            latest_turn_id: self.latest_turn_id.clone(),
            active_turn_id: self.active_turn_id.clone(),
        };
        assert(views::all(r.messages_for_model@) =~= views::all(self.messages_for_model@));
        assert(views::opt(r.goal) =~= views::opt(self.goal));
        assert(views::opt(r.pending_user_input_request)
            =~= views::opt(self.pending_user_input_request));
        assert(views::all(r.completed_function_results@)
            =~= views::all(self.completed_function_results@));
        assert(views::opt(r.last_assistant_message) =~= views::opt(self.last_assistant_message));
        assert(views::opt(r.latest_turn_id) =~= views::opt(self.latest_turn_id));
        assert(views::opt(r.active_turn_id) =~= views::opt(self.active_turn_id));
        r
    }
}

/// A plain message.
pub open spec fn plain(role: ChatRole, content: Seq<char>) -> ChatMessageView {
    ChatMessageView { role, content, name: None, tool_call_id: None }
}

/// What is said of a call that the model asked for.
pub open spec fn call_words(name: Seq<char>, arguments: Json) -> Seq<char> {
    "Function call requested: "@ + name + "("@ + json::json_text(arguments) + ")"@
}

/// What is said of a call that succeeded.
pub open spec fn success_words(name: Seq<char>, output: Json) -> Seq<char> {
    "Function "@ + name + " completed with output: "@ + json::json_text(output)
}

/// What is said of a call that failed.
pub open spec fn failure_words(name: Seq<char>, call_id: Seq<char>, error: Seq<char>) -> Seq<char> {
    "Function "@ + name + " with call id "@ + call_id + " failed: "@ + error
}

/// The last turn that runs or waits for the user.
pub open spec fn active_turn(turns: Seq<TurnView>) -> Option<Seq<char>>
    decreases turns.len(),
{
    if turns.len() == 0 {
        None
    } else if turns.last().status == TurnStatus::Running || turns.last().status
        == TurnStatus::WaitingForUser {
        Some(turns.last().id)
    } else {
        active_turn(turns.drop_last())
    }
}

/// The projection before any item is read.
pub open spec fn before_items(thread: ThreadView) -> ThreadProjectionView {
    ThreadProjectionView {
        messages_for_model: Seq::empty(),
        goal: thread.goal,
        pending_user_input_request: None,
        completed_function_results: Seq::empty(),
        last_assistant_message: None,
        latest_turn_id: if thread.turns.len() > 0 {
            Some(thread.turns.last().id)
        } else {
            None
        },
        active_turn_id: active_turn(thread.turns),
    }
}

/// The projection with one message more.
pub open spec fn say(p: ThreadProjectionView, message: ChatMessageView) -> ThreadProjectionView {
    ThreadProjectionView { messages_for_model: p.messages_for_model.push(message), ..p }
}

/// The projection after an item.
pub open spec fn apply_kind(
    p: ThreadProjectionView,
    turn_id: Seq<char>,
    kind: TurnItemKindView,
) -> ThreadProjectionView {
    match kind {
        TurnItemKindView::UserInput { text, response_to } => ThreadProjectionView {
            pending_user_input_request: projection::unanswered_request(
                p.pending_user_input_request,
                response_to,
            ),
            ..say(p, plain(ChatRole::User, text))
        },
        TurnItemKindView::ModelMessage { text } => ThreadProjectionView {
            last_assistant_message: Some(text),
            ..say(p, plain(ChatRole::Assistant, text))
        },
        TurnItemKindView::ModelFunctionCall { call_id, name, arguments } => say(
            p,
            ChatMessageView {
                tool_call_id: Some(call_id),
                ..plain(ChatRole::Assistant, call_words(name, arguments))
            },
        ),
        TurnItemKindView::ToolOutput { call_id, name, result } => match result {
            ToolResultView::Success { output } => ThreadProjectionView {
                completed_function_results: p.completed_function_results.push(
                    CompletedFunctionCallView { call_id, name, output },
                ),
                ..say(p, plain(ChatRole::User, success_words(name, output)))
            },
            ToolResultView::Error { error } => say(
                p,
                plain(ChatRole::User, failure_words(name, call_id, error)),
            ),
        },
        TurnItemKindView::UserInputRequested { request_id, prompt } => ThreadProjectionView {
            pending_user_input_request: Some(UserInputRequestView { request_id, prompt, turn_id }),
            ..p
        },
        TurnItemKindView::GoalUpdated { previous, current } => ThreadProjectionView {
            goal: Some(current),
            ..p
        },
        _ => p,
    }
}

/// The projection after the items of a turn.
pub open spec fn apply_items(
    p: ThreadProjectionView,
    turn_id: Seq<char>,
    items: Seq<TurnItemView>,
) -> ThreadProjectionView
    decreases items.len(),
{
    if items.len() == 0 {
        p
    } else {
        apply_kind(apply_items(p, turn_id, items.drop_last()), turn_id, items.last().kind)
    }
}

/// The projection after all turns.
pub open spec fn apply_turns(
    p: ThreadProjectionView,
    turns: Seq<TurnView>,
) -> ThreadProjectionView
    decreases turns.len(),
{
    if turns.len() == 0 {
        p
    } else {
        apply_items(apply_turns(p, turns.drop_last()), turns.last().id, turns.last().items)
    }
}

/// What the items of a thread add up to.
pub open spec fn project(thread: ThreadView) -> ThreadProjectionView {
    apply_turns(before_items(thread), thread.turns)
}

impl Default for ThreadProjection {
    fn default() -> (r: Self)
        ensures
            r@.messages_for_model == Seq::<ChatMessageView>::empty(),
            r@.goal is None,
            r@.pending_user_input_request is None,
            r@.completed_function_results == Seq::<CompletedFunctionCallView>::empty(),
            r@.last_assistant_message is None,
            r@.latest_turn_id is None,
            r@.active_turn_id is None,
    {
        broadcast use crate::views::group_views;

        ThreadProjection {
            messages_for_model: Vec::new(),
            goal: None,
            pending_user_input_request: None,
            completed_function_results: Vec::new(),
            last_assistant_message: None,
            latest_turn_id: None,
            active_turn_id: None,
        }
    }
}

fn find_active_turn(turns: &Vec<Turn>) -> (r: Option<String>)
    ensures
        views::opt(r) == active_turn(views::all(turns@)),
{
    let mut n: usize = turns.len();
    assert(views::all(turns@).take(n as int) =~= views::all(turns@));
    while n > 0
        invariant
            n <= turns@.len(),
            active_turn(views::all(turns@)) == active_turn(views::all(turns@).take(n as int)),
        decreases n,
    {
        let ghost so_far = views::all(turns@).take(n as int);
        assert(so_far.last() == turns@[n - 1]@);
        assert(so_far.drop_last() =~= views::all(turns@).take(n - 1));
        n = n - 1;
        if turns[n].status == TurnStatus::Running || turns[n].status
            == TurnStatus::WaitingForUser {
            return Some(turns[n].id.clone());
        }
    }
    None
}

impl ThreadProjection {
    fn say(&mut self, role: ChatRole, content: String, tool_call_id: Option<String>)
        ensures
            final(self)@ == say(
                old(self)@,
                ChatMessageView {
                    tool_call_id: views::opt(tool_call_id),
                    ..plain(role, content@)
                },
            ),
    {
        broadcast use crate::views::group_views;

        self.messages_for_model.push(ChatMessage { role, content, name: None, tool_call_id });
    }

    /// Reads one item.
    fn apply(&mut self, turn_id: &String, kind: &TurnItemKind)
        ensures
            final(self)@ == apply_kind(old(self)@, turn_id@, kind@),
    {
        broadcast use crate::views::group_views;

        match kind {
            TurnItemKind::UserInput { text, response_to } => {
                self.say(ChatRole::User, text.clone(), None);
                let stays = match (&self.pending_user_input_request, response_to) {
                    (Some(pending), Some(id)) => !text_eq(
                        pending.request_id.as_str(),
                        id.as_str(),
                    ),
                    _ => false,
                };
                if !stays {
                    self.pending_user_input_request = None;
                }
            },
            TurnItemKind::ModelMessage { text } => {
                self.last_assistant_message = Some(text.clone());
                self.say(ChatRole::Assistant, text.clone(), None);
            },
            TurnItemKind::ModelFunctionCall { call_id, name, arguments } => {
                let mut content = joined("Function call requested: ", name.as_str());
                content.append("(");
                content.append(value_text(arguments).as_str());
                content.append(")");
                self.say(ChatRole::Assistant, content, Some(call_id.clone()));
            },
            TurnItemKind::ToolOutput { call_id, name, result } => match result {
                ToolResult::Success { output } => {
                    self.completed_function_results.push(
                        CompletedFunctionCall {
                            call_id: call_id.clone(),
                            name: name.clone(),
                            output: copy_of(output),
                        },
                    );
                    let mut content = joined("Function ", name.as_str());
                    content.append(" completed with output: ");
                    content.append(value_text(output).as_str());
                    self.say(ChatRole::User, content, None);
                },
                ToolResult::Error { error } => {
                    let mut content = joined("Function ", name.as_str());
                    content.append(" with call id ");
                    content.append(call_id.as_str());
                    content.append(" failed: ");
                    content.append(error.as_str());
                    self.say(ChatRole::User, content, None);
                },
            },
            TurnItemKind::UserInputRequested { request_id, prompt } => {
                self.pending_user_input_request = Some(
                    UserInputRequest {
                        request_id: request_id.clone(),
                        prompt: prompt.clone(),
                        turn_id: turn_id.clone(),
                    },
                );
            },
            TurnItemKind::GoalUpdated { previous: _, current } => {
                self.goal = Some(current.clone());
            },
            _ => {},
        }
    }

    /// What the items of `thread` add up to.
    pub fn from_thread(thread: &Thread) -> (r: Self)
        ensures
            r@ == project(thread@),
    {
        broadcast use crate::views::group_views;

        let latest_turn_id = if thread.turns.len() > 0 {
            Some(thread.turns[thread.turns.len() - 1].id.clone())
        } else {
            None
        };
        let mut projection = ThreadProjection {
            goal: thread.goal.clone(),
            latest_turn_id,
            active_turn_id: find_active_turn(&thread.turns),
            ..ThreadProjection::default()
        };
        assert(projection@ =~= before_items(thread@));
        let mut i: usize = 0;
        assert(thread@.turns.take(0) =~= Seq::<TurnView>::empty());
        while i < thread.turns.len()
            invariant
                i <= thread.turns@.len(),
                projection@ == apply_turns(before_items(thread@), thread@.turns.take(i as int)),
            decreases thread.turns@.len() - i,
        {
            let turn = &thread.turns[i];
            let ghost before = projection@;
            let mut k: usize = 0;
            assert(turn@.items.take(0) =~= Seq::<TurnItemView>::empty());
            while k < turn.items.len()
                invariant
                    k <= turn.items@.len(),
                    projection@ == apply_items(before, turn.id@, turn@.items.take(k as int)),
                decreases turn.items@.len() - k,
            {
                let ghost so_far = turn@.items.take(k + 1);
                assert(so_far.drop_last() =~= turn@.items.take(k as int));
                assert(so_far.last() == turn.items@[k as int]@);
                projection.apply(&turn.id, &turn.items[k].kind);
                k = k + 1;
            }
            assert(turn@.items.take(k as int) =~= turn@.items);
            let ghost so_far = thread@.turns.take(i + 1);
            assert(so_far.drop_last() =~= thread@.turns.take(i as int));
            assert(so_far.last() == turn@);
            i = i + 1;
        }
        assert(thread@.turns.take(i as int) =~= thread@.turns);
        projection
    }
}

/// An item recorded at the end of a thread acts on what the thread added up to
/// before.
pub proof fn law_item_recorded(thread: ThreadView, item: TurnItemView)
    requires
        thread.turns.len() > 0,
    ensures
        project(projection::with_last_item(thread, item)) == apply_kind(
            project(thread),
            thread.turns.last().id,
            item.kind,
        ),
{
    let next = projection::with_last_item(thread, item);
    assert(next.turns.drop_last() =~= thread.turns.drop_last());
    assert(next.turns.last().items.drop_last() =~= thread.turns.last().items);
    assert(before_items(next) =~= before_items(thread));
}

} // verus!
