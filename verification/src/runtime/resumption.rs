//! What a resumption does with an answer of the user and with what comes of the
//! call that was stopped, told by what is stored, run and reported.
use crate::error::{self, AgentErrorView};
use crate::ids::IdSource;
use crate::json::Json;
use crate::kernel::events::{
    self, ThreadView, ToolResultView, TurnItemKindView, TurnItemSource, TurnItemView, TurnStatus,
};
use crate::kernel::model::ModelFunctionCallView;
use crate::kernel::projection::{self, PendingSuspensionView};
use crate::runtime::agent_loop::{TurnOutcomeView, TurnStateEventView};
use crate::runtime::functions::{FunctionCallExecutionView, SuspensionResolutionView};
use crate::runtime::recording::{self, gains, stands_at, EntryView};
use crate::runtime::resume::{
    self, next, resume, ResumeActionView, ResumeInputView, ResumePhaseView, ResumeRunView,
    ResumeStepView,
};
use crate::runtime::turn::promises::{answer, goals_set, runtime_note};
use vstd::prelude::*;

verus! {

/// The calls that an item of a turn asks for.
pub open spec fn calls_in(item: TurnItemView) -> Seq<ModelFunctionCallView> {
    match item.kind {
        TurnItemKindView::ModelResponse { text, function_calls } => function_calls,
        _ => Seq::empty(),
    }
}

/// Whether the call at place `c` of the item at place `k` is the one that an
/// identifier means: no later item asks for a call with it, and no earlier call of
/// the same item has it.
pub open spec fn meant(items: Seq<TurnItemView>, call_id: Seq<char>, k: int, c: int) -> bool {
    &&& 0 <= k < items.len()
    &&& 0 <= c < calls_in(items[k]).len()
    &&& calls_in(items[k])[c].call_id == call_id
    &&& forall|d: int| 0 <= d < c ==> (#[trigger] calls_in(items[k])[d]).call_id != call_id
    &&& forall|m: int, d: int|
        k < m < items.len() && 0 <= d < calls_in(items[m]).len() ==> (
        #[trigger] calls_in(items[m])[d]).call_id != call_id
}

/// Whether a suspension stopped a call before it ran, and says which one.
pub open spec fn defers(pending: PendingSuspensionView, call_id: Seq<char>) -> bool {
    &&& pending.suspension.payload matches Json::Fields(fields)
    &&& fields.contains_key("call_id"@)
    &&& fields["call_id"@] == Json::Text(call_id)
    &&& fields.contains_key("deferred"@)
    &&& fields["deferred"@] == Json::Bool(true)
}

/// Whether a turn asked for a call.
pub open spec fn asked_for(thread: ThreadView, turn_id: Seq<char>, call_id: Seq<char>) -> bool {
    exists|i: int, k: int, c: int|
        #![trigger stands_at(thread.turns, turn_id, i), meant(thread.turns[i].items, call_id, k, c)]
        stands_at(thread.turns, turn_id, i) && meant(thread.turns[i].items, call_id, k, c)
}

proof fn lemma_first_call(calls: Seq<ModelFunctionCallView>, call_id: Seq<char>)
    ensures
        match resume::first_call(calls, call_id) {
            Some(call) => exists|c: int|
                0 <= c < calls.len() && #[trigger] calls[c] == call && call.call_id == call_id
                    && forall|d: int| 0 <= d < c ==> (#[trigger] calls[d]).call_id != call_id,
            None => forall|d: int| 0 <= d < calls.len() ==> (#[trigger] calls[d]).call_id != call_id,
        },
    decreases calls.len(),
{
    if calls.len() > 0 && calls[0].call_id != call_id {
        let rest = calls.skip(1);
        lemma_first_call(rest, call_id);
        assert forall|d: int| 1 <= d < calls.len() implies #[trigger] calls[d] == rest[d - 1] by {}
        if let Some(call) = resume::first_call(rest, call_id) {
            let c = choose|c: int|
                0 <= c < rest.len() && #[trigger] rest[c] == call && call.call_id == call_id
                    && forall|d: int| 0 <= d < c ==> (#[trigger] rest[d]).call_id != call_id;
            assert(calls[c + 1] == call);
        }
    }
}

proof fn lemma_latest_call(items: Seq<TurnItemView>, call_id: Seq<char>)
    ensures
        match resume::latest_call(items, call_id) {
            Some(call) => exists|k: int, c: int|
                #[trigger] meant(items, call_id, k, c) && calls_in(items[k])[c] == call,
            None => forall|m: int, d: int|
                0 <= m < items.len() && 0 <= d < calls_in(items[m]).len() ==> (
                #[trigger] calls_in(items[m])[d]).call_id != call_id,
        },
    decreases items.len(),
{
    if items.len() > 0 {
        let last = items.len() - 1;
        let less = items.drop_last();
        lemma_first_call(calls_in(items[last]), call_id);
        lemma_latest_call(less, call_id);
        assert forall|m: int| 0 <= m < last implies #[trigger] items[m] == less[m] by {}
        match resume::first_call(calls_in(items[last]), call_id) {
            Some(call) => {
                let c = choose|c: int|
                    0 <= c < calls_in(items[last]).len() && #[trigger] calls_in(items[last])[c]
                        == call && call.call_id == call_id && forall|d: int|
                        0 <= d < c ==> (#[trigger] calls_in(items[last])[d]).call_id != call_id;
                assert(meant(items, call_id, last, c));
            },
            None => {
                if let Some(call) = resume::latest_call(less, call_id) {
                    let (k, c) = choose|k: int, c: int|
                        #[trigger] meant(less, call_id, k, c) && calls_in(less[k])[c] == call;
                    assert(meant(items, call_id, k, c));
                }
            },
        }
    }
}

proof fn lemma_meant_once(
    items: Seq<TurnItemView>,
    call_id: Seq<char>,
    k: int,
    c: int,
    l: int,
    d: int,
)
    requires
        meant(items, call_id, k, c),
        meant(items, call_id, l, d),
    ensures
        k == l && c == d,
{
    if k < l {
        assert(calls_in(items[l])[d].call_id == call_id);
    } else if l < k {
        assert(calls_in(items[k])[c].call_id == call_id);
    } else if c < d {
        assert(calls_in(items[l])[c].call_id == call_id);
    } else if d < c {
        assert(calls_in(items[k])[d].call_id == call_id);
    }
}

proof fn lemma_stopped_call(thread: ThreadView, pending: PendingSuspensionView)
    ensures
        resume::stopped_call(thread, pending) matches Ok(call) ==> defers(pending, call.call_id)
            && exists|i: int, k: int, c: int|
            #![trigger stands_at(thread.turns, pending.turn_id, i), meant(thread.turns[i].items, call.call_id, k, c)]
            stands_at(thread.turns, pending.turn_id, i) && meant(
                thread.turns[i].items,
                call.call_id,
                k,
                c,
            ) && calls_in(thread.turns[i].items[k])[c] == call,
{
    events::lemma_turn_index(thread.turns, pending.turn_id);
    if let Ok(call) = resume::stopped_call(thread, pending) {
        let i = events::turn_index(thread.turns, pending.turn_id)->0;
        let call_id = crate::json::text_field(pending.suspension.payload, "call_id"@)->0;
        lemma_latest_call(thread.turns[i].items, call_id);
        assert(stands_at(thread.turns, pending.turn_id, i));
        let (k, c) = choose|k: int, c: int|
            #[trigger] meant(thread.turns[i].items, call_id, k, c) && calls_in(
                thread.turns[i].items[k],
            )[c] == call;
        assert(meant(thread.turns[i].items, call.call_id, k, c));
    }
}

/// An approval or a denial is taken only for the suspension that the thread waits
/// for, and only for a call that this suspension stopped before it ran: the call is
/// the one that the suspension names, as the turn that was suspended asked for it
/// last.
pub proof fn law_resolution_is_of_the_stopped_call(
    thread: ThreadView,
    suspension_id: Seq<char>,
    resolution: SuspensionResolutionView,
    ids: IdSource,
)
    requires
        !(resolution is UserInput),
        resume(Ok(thread), suspension_id, resolution, ids) is Ok,
    ensures
        ({
            let pending = projection::project(thread).pending_suspension;
            &&& pending is Some
            &&& pending->0.suspension.id == suspension_id
            &&& exists|i: int, k: int, c: int, call_id: Seq<char>|
                #![trigger stands_at(thread.turns, pending->0.turn_id, i), meant(thread.turns[i].items, call_id, k, c)]
                stands_at(thread.turns, pending->0.turn_id, i) && defers(pending->0, call_id)
                    && meant(thread.turns[i].items, call_id, k, c)
        }),
{
    let pending = projection::project(thread).pending_suspension->0;
    lemma_stopped_call(thread, pending);
    let call = resume::stopped_call(thread, pending)->Ok_0;
    let (i, k, c) = choose|i: int, k: int, c: int|
        #![trigger stands_at(thread.turns, pending.turn_id, i), meant(thread.turns[i].items, call.call_id, k, c)]
        stands_at(thread.turns, pending.turn_id, i) && meant(
            thread.turns[i].items,
            call.call_id,
            k,
            c,
        ) && calls_in(thread.turns[i].items[k])[c] == call;
    assert(stands_at(thread.turns, pending.turn_id, i));
    assert(meant(thread.turns[i].items, call.call_id, k, c));
}

/// An approval runs exactly the call that the suspension names, with the name and
/// the arguments that the model gave, in the turn that it stopped; a denial answers
/// that call with the reason and lets the turn run again. Once a denial is stored,
/// the caller is told that the call failed, and the turn goes on.
pub proof fn law_resolution_acts_on_the_stopped_call(
    thread: ThreadView,
    pending: PendingSuspensionView,
    call_id: Seq<char>,
    reason: Seq<char>,
    ids: IdSource,
    later: IdSource,
    i: int,
    k: int,
    c: int,
)
    requires
        projection::project(thread).pending_suspension == Some(pending),
        defers(pending, call_id),
        stands_at(thread.turns, pending.turn_id, i),
        meant(thread.turns[i].items, call_id, k, c),
    ensures
        ({
            let call = calls_in(thread.turns[i].items[k])[c];
            let id = pending.suspension.id;
            let approved = resume(Ok(thread), id, SuspensionResolutionView::Approve, ids);
            let run = approved->Ok_0;
            let denied = resume(Ok(thread), id, SuspensionResolutionView::Deny { reason }, ids);
            let kept = denied->Ok_0;
            let words = "execution denied by user: "@ + reason;
            let told = next(kept.run, ResumeInputView::Committed, later);
            &&& approved is Ok
            &&& run.action matches ResumeActionView::CallFunction { name, arguments, context }
            &&& name == call.name
            &&& arguments == call.arguments
            &&& context.call_id == call_id
            &&& context.turn_id == pending.turn_id
            &&& context.thread_id == thread.id
            &&& context.projection == projection::project(thread)
            &&& run.events == seq![
                TurnStateEventView::FunctionStarted { call_id, name: call.name },
            ]
            &&& run.run == (ResumeRunView {
                thread,
                turn_id: pending.turn_id,
                phase: ResumePhaseView::Executing { call },
            })
            &&& denied is Ok
            &&& kept.action == ResumeActionView::Commit(kept.run.thread)
            &&& kept.run.turn_id == pending.turn_id
            &&& kept.events.len() == 0
            &&& gains(
                thread,
                kept.run.thread,
                i,
                seq![answer(call, ToolResultView::Error { error: words })],
                TurnStatus::Running,
            )
            &&& told.action is Continue
            &&& told.run.thread == kept.run.thread
            &&& told.events == seq![
                TurnStateEventView::FunctionFailed { call_id, name: call.name, error: words },
            ]
        }),
{
    let call = calls_in(thread.turns[i].items[k])[c];
    let words = "execution denied by user: "@ + reason;
    events::lemma_turn_index_is(thread.turns, pending.turn_id, i);
    lemma_latest_call(thread.turns[i].items, call_id);
    assert(calls_in(thread.turns[i].items[k])[c].call_id == call_id);
    let found = resume::latest_call(thread.turns[i].items, call_id)->0;
    let (l, d) = choose|l: int, d: int|
        #[trigger] meant(thread.turns[i].items, call_id, l, d) && calls_in(
            thread.turns[i].items[l],
        )[d] == found;
    lemma_meant_once(thread.turns[i].items, call_id, k, c, l, d);
    recording::law_recorded_is_gained(
        thread,
        pending.turn_id,
        i,
        seq![answer(call, ToolResultView::Error { error: words })],
        TurnStatus::Running,
        ids,
    );
}

/// An approval or a denial is refused, with the reason, where the suspension names
/// no call, where the suspended turn did not ask for the call, and where the call
/// has already run.
pub proof fn law_resolution_is_refused(
    thread: ThreadView,
    pending: PendingSuspensionView,
    resolution: SuspensionResolutionView,
    ids: IdSource,
)
    requires
        projection::project(thread).pending_suspension == Some(pending),
        !(resolution is UserInput),
    ensures
        ({
            let id = pending.suspension.id;
            let named = match pending.suspension.payload {
                Json::Fields(fields) => if fields.contains_key("call_id"@) {
                    match fields["call_id"@] {
                        Json::Text(call_id) => Some(call_id),
                        _ => None,
                    }
                } else {
                    None
                },
                _ => None,
            };
            let waits = match pending.suspension.payload {
                Json::Fields(fields) => fields.contains_key("deferred"@) && fields["deferred"@]
                    == Json::Bool(true),
                _ => false,
            };
            let known = named matches Some(call_id) && asked_for(thread, pending.turn_id, call_id);
            let why = |message: Seq<char>|
                Err::<ResumeStepView, AgentErrorView>(
                    AgentErrorView::Function { name: "resume_suspended_turn"@, message },
                );
            let r = resume(Ok(thread), id, resolution, ids);
            if named is None {
                r == why("suspension does not identify a resumable call"@)
            } else if !known {
                r == why("suspended function call was not found"@)
            } else if !waits {
                r == why("approval or denial can only resume a pre-execution suspension"@)
            } else {
                r is Ok
            }
        }),
{
    events::lemma_turn_index(thread.turns, pending.turn_id);
    match crate::json::text_field(pending.suspension.payload, "call_id"@) {
        Some(call_id) => {
            match events::turn_index(thread.turns, pending.turn_id) {
                Some(i) => {
                    lemma_latest_call(thread.turns[i].items, call_id);
                    assert(stands_at(thread.turns, pending.turn_id, i));
                    if resume::latest_call(thread.turns[i].items, call_id) is Some {
                        let (k, c) = choose|k: int, c: int|
                            #[trigger] meant(thread.turns[i].items, call_id, k, c) && calls_in(
                                thread.turns[i].items[k],
                            )[c] == resume::latest_call(thread.turns[i].items, call_id)->0;
                        assert(meant(thread.turns[i].items, call_id, k, c));
                        assert(asked_for(thread, pending.turn_id, call_id));
                    } else {
                        assert forall|j: int, k: int, c: int|
                            #![trigger stands_at(thread.turns, pending.turn_id, j), meant(thread.turns[j].items, call_id, k, c)]
                            stands_at(thread.turns, pending.turn_id, j) implies !meant(
                            thread.turns[j].items,
                            call_id,
                            k,
                            c,
                        ) by {
                            if meant(thread.turns[j].items, call_id, k, c) {
                                events::lemma_turn_index_is(thread.turns, pending.turn_id, j);
                                assert(calls_in(thread.turns[i].items[k])[c].call_id == call_id);
                            }
                        }
                        assert(!asked_for(thread, pending.turn_id, call_id));
                    }
                },
                None => {
                    assert(!asked_for(thread, pending.turn_id, call_id));
                },
            }
        },
        None => {},
    }
}

/// An answer of the user is recorded in the suspended turn as the answer to its
/// suspension, and the turn runs again; a call that was stopped before it ran takes
/// no such answer.
pub proof fn law_answer_is_recorded(
    thread: ThreadView,
    pending: PendingSuspensionView,
    text: Seq<char>,
    ids: IdSource,
    later: IdSource,
    i: int,
)
    requires
        projection::project(thread).pending_suspension == Some(pending),
        stands_at(thread.turns, pending.turn_id, i),
    ensures
        ({
            let id = pending.suspension.id;
            let waits = match pending.suspension.payload {
                Json::Fields(fields) => fields.contains_key("deferred"@) && fields["deferred"@]
                    == Json::Bool(true),
                _ => false,
            };
            let r = resume(Ok(thread), id, SuspensionResolutionView::UserInput { text }, ids);
            let step = r->Ok_0;
            if waits {
                r == Err::<ResumeStepView, AgentErrorView>(
                    AgentErrorView::Function {
                        name: "resume_suspended_turn"@,
                        message: "a pre-execution suspension requires approval or denial"@,
                    },
                )
            } else {
                &&& r is Ok
                &&& step.action == ResumeActionView::Commit(step.run.thread)
                &&& step.run.turn_id == pending.turn_id
                &&& step.events.len() == 0
                &&& gains(
                    thread,
                    step.run.thread,
                    i,
                    seq![
                        EntryView {
                            source: TurnItemSource::User,
                            kind: TurnItemKindView::UserInput { text, response_to: Some(id) },
                        },
                    ],
                    TurnStatus::Running,
                )
                &&& next(step.run, ResumeInputView::Committed, later).action is Continue
                &&& next(step.run, ResumeInputView::Committed, later).events.len() == 0
            }
        }),
{
    recording::law_recorded_is_gained(
        thread,
        pending.turn_id,
        i,
        seq![resume::answer_entry(text, pending.suspension.id)],
        TurnStatus::Running,
        ids,
    );
}

/// What the approved call returns is recorded under it, as it was returned, and the
/// turn runs again; the caller hears that it completed once that is stored. A call
/// that suspends again ends the resumption in that suspension, and nothing is
/// stored.
pub proof fn law_approved_output_is_recorded(
    run: ResumeRunView,
    execution: FunctionCallExecutionView,
    ids: IdSource,
    later: IdSource,
    i: int,
)
    requires
        run.phase is Executing,
        stands_at(run.thread.turns, run.turn_id, i),
    ensures
        ({
            let call = run.phase->Executing_call;
            let step = next(run, ResumeInputView::FunctionReturned(execution), ids);
            let told = next(step.run, ResumeInputView::Committed, later);
            &&& step.events.len() == 0
            &&& match execution {
                FunctionCallExecutionView::Completed { output, effects } => {
                    &&& step.action == ResumeActionView::Commit(step.run.thread)
                    &&& step.run.turn_id == run.turn_id
                    &&& step.run.thread.turns[i].items.last().kind == (
                    TurnItemKindView::ToolOutput {
                        call_id: call.call_id,
                        name: call.name,
                        result: ToolResultView::Success { output },
                    })
                    &&& gains(
                        run.thread,
                        step.run.thread,
                        i,
                        goals_set(run.thread, effects) + seq![
                            answer(call, ToolResultView::Success { output }),
                        ],
                        TurnStatus::Running,
                    )
                    &&& told.action is Continue
                    &&& told.run.thread == step.run.thread
                    &&& told.events == seq![
                        TurnStateEventView::FunctionCompleted {
                            call_id: call.call_id,
                            name: call.name,
                        },
                    ]
                },
                FunctionCallExecutionView::SuspendedBeforeExecution { suspension, effects } => {
                    &&& step.action == ResumeActionView::Finish(
                        TurnOutcomeView::Suspended { suspension },
                    )
                    &&& step.run.thread == run.thread
                },
                FunctionCallExecutionView::SuspendedAfterExecution {
                    suspension,
                    output,
                    effects,
                } => {
                    &&& step.action == ResumeActionView::Finish(
                        TurnOutcomeView::Suspended { suspension },
                    )
                    &&& step.run.thread == run.thread
                },
            }
        }),
{
    let call = run.phase->Executing_call;
    if let FunctionCallExecutionView::Completed { output, effects } = execution {
        let entries = recording::effect_entries(run.thread, effects).push(
            answer(call, ToolResultView::Success { output }),
        );
        assert(recording::effect_entries(run.thread, effects) =~= goals_set(run.thread, effects));
        assert(entries =~= goals_set(run.thread, effects) + seq![
            answer(call, ToolResultView::Success { output }),
        ]);
        recording::law_recorded_is_gained(
            run.thread,
            run.turn_id,
            i,
            entries,
            TurnStatus::Running,
            ids,
        );
    }
}

/// An approved call that fails is answered with the words of the error, and the
/// turn runs again; a resumption that is stopped records that the turn was aborted
/// and ends that way; and a store that fails ends it with that error.
pub proof fn law_approved_failure_is_recorded(
    run: ResumeRunView,
    e: AgentErrorView,
    ids: IdSource,
    later: IdSource,
    i: int,
)
    requires
        stands_at(run.thread.turns, run.turn_id, i),
    ensures
        run.phase matches ResumePhaseView::Executing { call } ==> {
            let step = next(run, ResumeInputView::FunctionFailed(e), ids);
            let told = next(step.run, ResumeInputView::Committed, later);
            let ended = next(run, ResumeInputView::Aborted, ids);
            let reason = "turn aborted by caller"@;
            &&& step.action == ResumeActionView::Commit(step.run.thread)
            &&& step.run.turn_id == run.turn_id
            &&& step.events.len() == 0
            &&& gains(
                run.thread,
                step.run.thread,
                i,
                seq![answer(call, ToolResultView::Error { error: error::words(e) })],
                TurnStatus::Running,
            )
            &&& told.action is Continue
            &&& told.events == seq![
                TurnStateEventView::FunctionFailed {
                    call_id: call.call_id,
                    name: call.name,
                    error: error::words(e),
                },
            ]
            &&& ended.action == ResumeActionView::Finish(TurnOutcomeView::Aborted { reason })
            &&& ended.events.len() == 0
            &&& gains(
                run.thread,
                ended.run.thread,
                i,
                runtime_note(TurnItemKindView::TurnAborted { reason }),
                TurnStatus::Aborted,
            )
        },
        run.phase is Storing ==> {
            let step = next(run, ResumeInputView::Failed(e), ids);
            &&& step.action == ResumeActionView::Fail(e)
            &&& step.run.thread == run.thread
            &&& step.events.len() == 0
        },
{
    if let ResumePhaseView::Executing { call } = run.phase {
        recording::law_recorded_is_gained(
            run.thread,
            run.turn_id,
            i,
            seq![answer(call, ToolResultView::Error { error: error::words(e) })],
            TurnStatus::Running,
            ids,
        );
        recording::law_recorded_is_gained(
            run.thread,
            run.turn_id,
            i,
            recording::abortion("turn aborted by caller"@),
            TurnStatus::Aborted,
            ids,
        );
    }
}

} // verus!
