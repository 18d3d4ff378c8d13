//! The built-in functions of an agent that records their effects as items.
use crate::error::{AgentError, AgentErrorView};
use crate::ids::{self, IdSource};
use crate::json::{self, copy_of, null_value, Fields, Json};
use crate::kernel::events::{
    self, GoalState, GoalStateView, TurnItem, TurnItemKind, TurnItemKindView, TurnItemSource,
    TurnItemView,
};
use crate::lite::projection::{ThreadProjection, ThreadProjectionView};
use crate::runtime::functions::{self, goal_value, ThreadUpdate, ThreadUpdateView};
use crate::views;
use serde_json::Value;
use vstd::prelude::*;

verus! {

/// What a function is told of the turn that it is called in.
#[derive(Debug, PartialEq)]
pub struct FunctionContext {
    pub projection: ThreadProjection,
}

/// What a `FunctionContext` holds.
#[verifier::ext_equal]
pub struct FunctionContextView {
    pub projection: ThreadProjectionView,
}

impl View for FunctionContext {
    type V = FunctionContextView;

    open spec fn view(&self) -> FunctionContextView {
        FunctionContextView {
            projection: self.projection@,
        }
    }
}

impl Clone for FunctionContext {
    fn clone(&self) -> (r: Self)
        ensures
            r@ == self@,
    {
        FunctionContext {
            projection: self.projection.clone(),
        }
    }
}

/// What came of a call that ran.
#[derive(Debug, PartialEq)]
pub enum FunctionExecution {
    Completed { output: Value, thread_update: Option<ThreadUpdate>, extra_items: Vec<TurnItem> },
    WaitingForUser {
        request_id: String,
        prompt: String,
        output: Value,
        thread_update: Option<ThreadUpdate>,
        extra_items: Vec<TurnItem>,
    },
}

/// What a `FunctionExecution` holds.
#[verifier::ext_equal]
pub enum FunctionExecutionView {
    Completed {
        output: Json,
        thread_update: Option<ThreadUpdateView>,
        extra_items: Seq<TurnItemView>,
    },
    WaitingForUser {
        request_id: Seq<char>,
        prompt: Seq<char>,
        output: Json,
        thread_update: Option<ThreadUpdateView>,
        extra_items: Seq<TurnItemView>,
    },
}

impl View for FunctionExecution {
    type V = FunctionExecutionView;

    open spec fn view(&self) -> FunctionExecutionView {
        match *self {
            FunctionExecution::Completed { output, thread_update, extra_items } => {
                FunctionExecutionView::Completed {
                    output: json::of(output),
                    thread_update: views::opt(thread_update),
                    extra_items: views::all(extra_items@),
                }
            },
            FunctionExecution::WaitingForUser {
                request_id,
                prompt,
                output,
                thread_update,
                extra_items,
            } => {
                FunctionExecutionView::WaitingForUser {
                    request_id: request_id@,
                    prompt: prompt@,
                    output: json::of(output),
                    thread_update: views::opt(thread_update),
                    extra_items: views::all(extra_items@),
                }
            },
        }
    }
}

impl Clone for FunctionExecution {
    fn clone(&self) -> (r: Self)
        ensures
            r@ == self@,
    {
        match self {
            FunctionExecution::Completed { output, thread_update, extra_items } => {
                let copy_thread_update = thread_update.clone();
                assert(views::opt(copy_thread_update) =~= views::opt((*thread_update)));
                let copy_extra_items = extra_items.clone();
                assert(views::all(copy_extra_items@) =~= views::all(extra_items@));
                FunctionExecution::Completed {
                    output: copy_of(output),
                    thread_update: copy_thread_update,
                    extra_items: copy_extra_items,
                }
            },
            FunctionExecution::WaitingForUser {
                request_id,
                prompt,
                output,
                thread_update,
                extra_items,
            } => {
                let copy_thread_update = thread_update.clone();
                assert(views::opt(copy_thread_update) =~= views::opt((*thread_update)));
                let copy_extra_items = extra_items.clone();
                assert(views::all(copy_extra_items@) =~= views::all(extra_items@));
                FunctionExecution::WaitingForUser {
                    request_id: request_id.clone(),
                    prompt: prompt.clone(),
                    output: copy_of(output),
                    thread_update: copy_thread_update,
                    extra_items: copy_extra_items,
                }
            },
        }
    }
}

/// What a call for the goal comes to.
pub open spec fn goal_told(goal: Option<GoalStateView>) -> FunctionExecutionView {
    FunctionExecutionView::Completed {
        output: functions::goal_output(goal),
        thread_update: None,
        extra_items: Seq::empty(),
    }
}

/// Returns the goal.
pub fn get_goal(context: &FunctionContext) -> (r: FunctionExecution)
    ensures
        r@ == goal_told(context@.projection.goal),
{
    broadcast use crate::views::group_views;

    let goal = match &context.projection.goal {
        Some(goal) => goal_value(goal),
        None => null_value(),
    };
    FunctionExecution::Completed {
        output: Fields::new().with("goal", goal).value(),
        thread_update: None,
        extra_items: Vec::new(),
    }
}

/// The item that records that the goal was set.
pub open spec fn goal_item(
    previous: Option<GoalStateView>,
    current: GoalStateView,
    ids: IdSource,
) -> TurnItemView {
    events::item_view(
        ids,
        TurnItemSource::Runtime,
        TurnItemKindView::GoalUpdated { previous, current },
    )
}

/// What a call that sets the goal comes to.
pub open spec fn goal_set(
    previous: Option<GoalStateView>,
    goal: GoalStateView,
    ids: IdSource,
) -> FunctionExecutionView {
    FunctionExecutionView::Completed {
        output: functions::goal_output(Some(goal)),
        thread_update: Some(ThreadUpdateView::Goal(goal)),
        extra_items: seq![goal_item(previous, goal, ids)],
    }
}

/// Sets the goal that the arguments name; `arguments` holds why they cannot be
/// read where they cannot.
pub fn update_goal(
    arguments: Result<GoalState, String>,
    context: &FunctionContext,
    ids: &mut IdSource,
) -> (r: Result<FunctionExecution, AgentError>)
    ensures
        match views::res(arguments) {
            Ok(goal) => {
                &&& *final(ids) == ids::after(*old(ids), 1)
                &&& r matches Ok(execution)
                &&& execution@ == goal_set(context@.projection.goal, goal, *old(ids))
            },
            Err(message) => {
                &&& *final(ids) == *old(ids)
                &&& r matches Err(e)
                &&& e@ == (AgentErrorView::InvalidFunctionArguments {
                    name: "update_goal"@,
                    message,
                })
            },
        },
{
    match arguments {
        Ok(goal) => {
            let item = TurnItem::new(
                TurnItemSource::Runtime,
                TurnItemKind::GoalUpdated {
                    previous: context.projection.goal.clone(),
                    current: goal.clone(),
                },
                ids,
            );
            let mut extra_items: Vec<TurnItem> = Vec::new();
            extra_items.push(item);
            assert(views::all(extra_items@) =~= seq![
                goal_item(context@.projection.goal, goal@, *old(ids)),
            ]);
            Ok(
                FunctionExecution::Completed {
                    output: Fields::new().with("goal", goal_value(&goal)).value(),
                    thread_update: Some(ThreadUpdate::Goal(goal)),
                    extra_items,
                },
            )
        },
        Err(message) => Err(
            AgentError::InvalidFunctionArguments { name: "update_goal".to_string(), message },
        ),
    }
}

/// What a question to the user comes to.
pub open spec fn question(prompt: Seq<char>, ids: IdSource) -> FunctionExecutionView {
    let request_id = ids::id_text("req"@, ids);
    FunctionExecutionView::WaitingForUser {
        request_id,
        prompt,
        output: Json::Fields(
            Map::<Seq<char>, Json>::empty().insert("request_id"@, Json::Text(request_id)).insert(
                "prompt"@,
                Json::Text(prompt),
            ).insert("status"@, Json::Text("waiting_for_user"@)),
        ),
        thread_update: None,
        extra_items: seq![
            events::item_view(
                ids::after(ids, 1),
                TurnItemSource::Runtime,
                TurnItemKindView::UserInputRequested { request_id, prompt },
            ),
        ],
    }
}

/// Asks the user and stops the turn; `prompt` holds why the arguments cannot be
/// read where they cannot.
pub fn ask_user(prompt: Result<String, String>, ids: &mut IdSource) -> (r: Result<
    FunctionExecution,
    AgentError,
>)
    ensures
        match views::res(prompt) {
            Ok(prompt) => {
                &&& *final(ids) == ids::after(*old(ids), 2)
                &&& r matches Ok(execution)
                &&& execution@ == question(prompt, *old(ids))
            },
            Err(message) => {
                &&& *final(ids) == *old(ids)
                &&& r matches Err(e)
                &&& e@ == (AgentErrorView::InvalidFunctionArguments { name: "ask_user"@, message })
            },
        },
{
    match prompt {
        Ok(prompt) => {
            let request_id = ids.issue("req");
            let item = TurnItem::new(
                TurnItemSource::Runtime,
                TurnItemKind::UserInputRequested {
                    request_id: request_id.clone(),
                    prompt: prompt.clone(),
                },
                ids,
            );
            proof {
                ids::lemma_after_after(*old(ids), 1, 1);
            }
            let output = Fields::new().with_text("request_id", request_id.as_str()).with_text(
                "prompt",
                prompt.as_str(),
            ).with_text("status", "waiting_for_user").value();
            let mut extra_items: Vec<TurnItem> = Vec::new();
            extra_items.push(item);
            assert(views::all(extra_items@) =~= seq![item@]);
            Ok(
                FunctionExecution::WaitingForUser {
                    request_id,
                    prompt,
                    output,
                    thread_update: None,
                    extra_items,
                },
            )
        },
        Err(message) => Err(
            AgentError::InvalidFunctionArguments { name: "ask_user".to_string(), message },
        ),
    }
}

} // verus!
