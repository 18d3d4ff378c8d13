//! What holds of every turn.
use crate::agent_core::turn::parts::{
    CallResultView, FlowView, StepView, TurnActionView, TurnInputView, TurnPhaseView,
    TurnRequestView, TurnRunView,
};
use crate::agent_core::turn::transitions;
use crate::error::{self, AgentErrorView};
use crate::ids::IdSource;
use crate::kernel::events::{self, ThreadView, TokenUsage, TurnItemView, TurnStatus, TurnView};
use crate::kernel::model::ModelFunctionCallView;
use crate::kernel::projection::{self, ThreadProjectionView};
use crate::runtime::agent_loop::{
    TurnModelEventView, TurnOutcomeView, TurnStateEventView, TurnStreamEventView,
};
use crate::runtime::answers;
use crate::runtime::functions::ThreadUpdateView;
use crate::runtime::recording::{self, EntryView};
use crate::runtime::turn::laws as shared_laws;
use crate::runtime::turn::transitions as shared;
use vstd::multiset::Multiset;
use vstd::prelude::*;

verus! {

// ---------------------------------------------------------------------------
// The invariant

/// Whether the thread has the turn.
pub open spec fn has_turn(run: TurnRunView) -> bool {
    events::turn_index(run.thread.turns, run.turn_id) is Some
}

/// The turn itself.
pub open spec fn turn_of(run: TurnRunView) -> TurnView {
    run.thread.turns[events::turn_index(run.thread.turns, run.turn_id)->0]
}

/// The calls of the turn that have no answer yet.
pub open spec fn open_calls(run: TurnRunView) -> Multiset<Seq<char>> {
    answers::unanswered(Multiset::empty(), turn_of(run).items)
}

/// The state of a turn once a result is recorded.
pub open spec fn status_after(result: CallResultView) -> TurnStatus {
    if result is Suspended {
        TurnStatus::Suspended
    } else {
        TurnStatus::Running
    }
}

/// The state of a turn that ended in a way.
pub open spec fn status_for(outcome: TurnOutcomeView) -> TurnStatus {
    match outcome {
        TurnOutcomeView::AssistantMessage { text } => TurnStatus::Completed,
        TurnOutcomeView::Suspended { suspension } => TurnStatus::Suspended,
        TurnOutcomeView::Failed { error } => TurnStatus::Failed,
        TurnOutcomeView::Aborted { reason } => TurnStatus::Aborted,
    }
}

/// Whether the calls of a phase fit into memory.
pub open spec fn few_calls(phase: TurnPhaseView) -> bool {
    match phase {
        TurnPhaseView::StoringText { text, calls } => calls.len() <= usize::MAX,
        TurnPhaseView::Requesting { calls } => calls.len() <= usize::MAX,
        TurnPhaseView::BeforeHooks { calls, index, entered } => calls.len() <= usize::MAX,
        TurnPhaseView::Executing { calls, index } => calls.len() <= usize::MAX,
        TurnPhaseView::RecordingCall { calls, index, before, result } => calls.len() <= usize::MAX,
        TurnPhaseView::AfterHooks { calls, index, before, left, result } => calls.len()
            <= usize::MAX,
        _ => true,
    }
}

/// What holds of a turn in every phase.
pub open spec fn good(run: TurnRunView) -> bool {
    let turn = turn_of(run);
    let open = open_calls(run);
    let asking = run.iteration < run.max_model_iterations;
    few_calls(run.phase) && match run.phase {
        TurnPhaseView::Starting => has_turn(run) && turn.status == TurnStatus::Running && open
            == Multiset::<Seq<char>>::empty(),
        TurnPhaseView::Requesting { calls } => has_turn(run) && asking && turn.status
            == TurnStatus::Running && open == answers::calls_from(calls, 0),
        TurnPhaseView::BeforeHooks { calls, index, entered } => has_turn(run) && asking
            && turn.status == TurnStatus::Running && index < calls.len() && entered < run.hook_count
            && open == answers::calls_from(calls, index as int),
        TurnPhaseView::Executing { calls, index } => has_turn(run) && asking && turn.status
            == TurnStatus::Running && index < calls.len() && open == answers::calls_from(
            calls,
            index as int,
        ),
        TurnPhaseView::RecordingCall { calls, index, before, result } => has_turn(run) && asking
            && index < calls.len() && turn.status == status_after(result) && open
            == answers::calls_from(calls, index + 1),
        TurnPhaseView::AfterHooks { calls, index, before, left, result } => has_turn(run) && asking
            && index < calls.len() && left < run.hook_count && turn.status == status_after(result)
            && open == answers::calls_from(calls, index + 1),
        TurnPhaseView::Skipping { suspension } => has_turn(run) && turn.status
            == TurnStatus::Suspended && open == Multiset::<Seq<char>>::empty(),
        TurnPhaseView::Finishing { outcome } => has_turn(run) && turn.status == status_for(outcome)
            && (outcome is AssistantMessage || outcome is Suspended ==> open == Multiset::<
            Seq<char>,
        >::empty()),
        TurnPhaseView::Done => true,
        _ => has_turn(run) && asking && turn.status == TurnStatus::Running && open == Multiset::<
            Seq<char>,
        >::empty(),
    }
}

/// What a store that takes a thread hands back: the turns as they were sent.
pub open spec fn faithful(run: TurnRunView, input: TurnInputView) -> bool {
    input matches TurnInputView::Committed(thread) ==> thread.turns == run.thread.turns
}

/// Whether an answer of the model fits into memory.
pub open spec fn fits(input: TurnInputView) -> bool {
    input matches TurnInputView::ModelReplied(response) ==> shared::reply_calls(response).len()
        <= usize::MAX
}

proof fn lemma_write(f: FlowView, entries: Seq<EntryView>)
    requires
        has_turn(f.run),
    ensures
        transitions::write(f, entries) is Some,
        ({
            let run = transitions::write(f, entries)->0.run;
            &&& run == (TurnRunView { thread: run.thread, ..f.run })
            &&& has_turn(run)
            &&& turn_of(run).status == turn_of(f.run).status
            &&& open_calls(run) == answers::unanswered_after(open_calls(f.run), entries)
        }),
{
    let turns = f.run.thread.turns;
    let i = events::turn_index(turns, f.run.turn_id)->0;
    let turn = recording::turn_with(turns[i], entries, f.ids);
    events::lemma_turn_index(turns, f.run.turn_id);
    recording::lemma_replace_keeps_ids(turns, i, turn, f.run.turn_id);
    answers::lemma_recorded(Multiset::empty(), turns[i].items, entries, f.ids);
}

proof fn lemma_close(f: FlowView, entries: Seq<EntryView>, status: TurnStatus)
    requires
        has_turn(f.run),
    ensures
        transitions::close(f, entries, status) is Some,
        ({
            let run = transitions::close(f, entries, status)->0.run;
            &&& run == (TurnRunView { thread: run.thread, ..f.run })
            &&& has_turn(run)
            &&& turn_of(run).status == status
            &&& open_calls(run) == answers::unanswered_after(open_calls(f.run), entries)
        }),
{
    let turns = f.run.thread.turns;
    let i = events::turn_index(turns, f.run.turn_id)->0;
    let turn = recording::turn_with(turns[i], entries, f.ids);
    let ended = events::with_status(turn, status, f.ids);
    events::lemma_turn_index(turns, f.run.turn_id);
    recording::lemma_ending_found(f.run.thread, f.run.turn_id, entries, status, f.ids);
    recording::lemma_replace_keeps_ids(turns, i, ended, f.run.turn_id);
    answers::lemma_recorded(Multiset::empty(), turns[i].items, entries, f.ids);
}

proof fn lemma_fail(f: FlowView, error: Seq<char>)
    requires
        has_turn(f.run),
    ensures
        good(transitions::fail(f, error).run),
{
    lemma_close(f, recording::failure(error), TurnStatus::Failed);
}

proof fn lemma_abort(f: FlowView)
    requires
        has_turn(f.run),
    ensures
        good(transitions::abort(f).run),
{
    lemma_close(f, recording::abortion(shared::abort_reason()), TurnStatus::Aborted);
}

proof fn lemma_iterate(f: FlowView)
    requires
        has_turn(f.run),
        turn_of(f.run).status == TurnStatus::Running,
        open_calls(f.run) == Multiset::<Seq<char>>::empty(),
    ensures
        good(transitions::iterate(f).run),
{
    lemma_fail(f, error::words(AgentErrorView::MaxIterations(f.run.max_model_iterations)));
}

proof fn lemma_take_up(f: FlowView, calls: Seq<ModelFunctionCallView>, index: int)
    requires
        has_turn(f.run),
        f.run.iteration < f.run.max_model_iterations,
        turn_of(f.run).status == TurnStatus::Running,
        0 <= index <= calls.len(),
        calls.len() <= usize::MAX,
        open_calls(f.run) == answers::calls_from(calls, index),
    ensures
        good(transitions::take_up(f, calls, index).run),
{
    if index == calls.len() {
        let iteration = (f.run.iteration + 1) as usize;
        lemma_iterate(FlowView { run: TurnRunView { iteration, ..f.run }, ..f });
    }
}

proof fn lemma_call_entries(open: Multiset<Seq<char>>, calls: Seq<ModelFunctionCallView>)
    ensures
        answers::unanswered_after(open, transitions::call_entries(calls)) == open.add(
            answers::call_ids(calls),
        ),
    decreases calls.len(),
{
    let entries = transitions::call_entries(calls);
    if calls.len() == 0 {
        assert(open.add(answers::call_ids(calls)) =~= open);
    } else {
        lemma_call_entries(open, calls.drop_last());
        assert(entries.drop_last() =~= transitions::call_entries(calls.drop_last()));
        assert(open.add(answers::call_ids(calls)) =~= open.add(
            answers::call_ids(calls.drop_last()),
        ).insert(calls.last().call_id));
    }
}

proof fn lemma_heard(f: FlowView, text: Seq<char>, calls: Seq<ModelFunctionCallView>)
    requires
        has_turn(f.run),
        f.run.iteration < f.run.max_model_iterations,
        turn_of(f.run).status == TurnStatus::Running,
        open_calls(f.run) == Multiset::<Seq<char>>::empty(),
        calls.len() <= usize::MAX,
    ensures
        good(transitions::heard(f, text, calls).run),
{
    let none = Multiset::<Seq<char>>::empty();
    if calls.len() == 0 {
        let turns = f.run.thread.turns;
        let i = events::turn_index(turns, f.run.turn_id)->0;
        let ended = events::with_status(turns[i], TurnStatus::Completed, f.ids);
        events::lemma_turn_index(turns, f.run.turn_id);
        recording::lemma_replace_keeps_ids(turns, i, ended, f.run.turn_id);
    } else {
        let told = transitions::state(f, TurnStateEventView::FunctionCallsRequested { calls });
        lemma_write(told, transitions::call_entries(calls));
        lemma_call_entries(none, calls);
        assert(none.add(answers::call_ids(calls)) =~= answers::call_ids(calls));
        assert(calls.subrange(0, calls.len() as int) =~= calls);
    }
}

proof fn lemma_replied(
    f: FlowView,
    text: Option<Seq<char>>,
    calls: Seq<ModelFunctionCallView>,
)
    requires
        has_turn(f.run),
        f.run.iteration < f.run.max_model_iterations,
        turn_of(f.run).status == TurnStatus::Running,
        open_calls(f.run) == Multiset::<Seq<char>>::empty(),
        calls.len() <= usize::MAX,
    ensures
        good(transitions::replied(f, text, calls).run),
{
    match text {
        Some(text) => {
            let told = transitions::emit(
                f,
                TurnStreamEventView::Model(TurnModelEventView::AssistantMessage { text }),
            );
            lemma_write(told, transitions::text_entries(text));
            answers::lemma_one_entry(
                Multiset::<Seq<char>>::empty(),
                transitions::text_entries(text)[0],
            );
            assert(transitions::text_entries(text) =~= seq![transitions::text_entries(text)[0]]);
        },
        None => {
            lemma_heard(f, Seq::empty(), calls);
        },
    }
}

proof fn lemma_record(
    f: FlowView,
    calls: Seq<ModelFunctionCallView>,
    index: usize,
    update: Option<ThreadUpdateView>,
    result: CallResultView,
)
    requires
        has_turn(f.run),
        f.run.iteration < f.run.max_model_iterations,
        turn_of(f.run).status == TurnStatus::Running,
        index < calls.len() <= usize::MAX,
        open_calls(f.run) == answers::calls_from(calls, index as int),
    ensures
        good(transitions::record(f, calls, index, update, result).run),
{
    let open = open_calls(f.run);
    let call = calls[index as int];
    let rest = answers::calls_from(calls, index + 1);
    let changes = transitions::update_entries(f.run.thread, update);
    let outcome = transitions::result_entries(call, result);
    let changed = transitions::on_thread(f, transitions::updated(f.run.thread, update));
    answers::lemma_first_call(calls, index as int);
    assert(open.remove(call.call_id) =~= rest);
    assert(answers::unanswered_after(open, changes) == open) by {
        if changes.len() > 0 {
            answers::lemma_one_entry(open, changes[0]);
            assert(changes =~= seq![changes[0]]);
        }
    }
    answers::lemma_entries_concat(open, changes, outcome);
    answers::lemma_one_entry(open, outcome[0]);
    if result is Suspended {
        assert(outcome.drop_last() =~= seq![outcome[0]]);
        lemma_close(changed, changes + outcome, TurnStatus::Suspended);
    } else {
        assert(outcome =~= seq![outcome[0]]);
        lemma_write(changed, changes + outcome);
    }
}

proof fn lemma_tell_skipped(f: FlowView, calls: Seq<ModelFunctionCallView>, n: int)
    ensures
        transitions::tell_skipped(f, calls, n).run == f.run,
        transitions::tell_skipped(f, calls, n).ids == f.ids,
    decreases n,
{
    if n > 0 {
        lemma_tell_skipped(f, calls, n - 1);
    }
}

proof fn lemma_settle(
    f: FlowView,
    calls: Seq<ModelFunctionCallView>,
    index: usize,
    result: CallResultView,
)
    requires
        has_turn(f.run),
        f.run.iteration < f.run.max_model_iterations,
        index < calls.len() <= usize::MAX,
        turn_of(f.run).status == status_after(result),
        open_calls(f.run) == answers::calls_from(calls, index + 1),
    ensures
        good(transitions::settle(f, calls, index, result).run),
{
    let call = calls[index as int];
    let completed = transitions::state(
        f,
        TurnStateEventView::FunctionCompleted { call_id: call.call_id, name: call.name },
    );
    match result {
        CallResultView::Completed { output } => {
            lemma_take_up(completed, calls, index + 1);
        },
        CallResultView::Failed { error } => {
            lemma_take_up(
                transitions::state(
                    f,
                    TurnStateEventView::FunctionFailed {
                        call_id: call.call_id,
                        name: call.name,
                        error,
                    },
                ),
                calls,
                index + 1,
            );
        },
        CallResultView::Suspended { suspension, output } => {
            let skipped = shared::later_calls(calls, index);
            let told = transitions::state(completed, TurnStateEventView::Suspended { suspension });
            let none = Multiset::<Seq<char>>::empty();
            lemma_tell_skipped(told, skipped, skipped.len() as int);
            lemma_write(
                transitions::tell_skipped(told, skipped, skipped.len() as int),
                shared::skipped_entries(skipped),
            );
            answers::lemma_skipped_answered(none, skipped);
            assert(none.add(answers::call_ids(skipped)) =~= answers::call_ids(skipped));
        },
    }
}

proof fn lemma_leave(
    f: FlowView,
    calls: Seq<ModelFunctionCallView>,
    index: usize,
    before: ThreadProjectionView,
    left: usize,
    result: CallResultView,
)
    requires
        has_turn(f.run),
        f.run.iteration < f.run.max_model_iterations,
        index < calls.len() <= usize::MAX,
        turn_of(f.run).status == status_after(result),
        open_calls(f.run) == answers::calls_from(calls, index + 1),
    ensures
        good(transitions::leave(f, calls, index, before, left, result).run),
{
    lemma_settle(f, calls, index, result);
}

/// A turn keeps its invariant in every step, as long as the store hands back the
/// turns that it was sent.
pub proof fn law_turn_invariant(run: TurnRunView, input: TurnInputView, ids: IdSource)
    requires
        good(run),
        faithful(run, input),
        fits(input),
    ensures
        good(transitions::next(run, input, ids).run),
{
    let f = transitions::fresh(run, ids);
    match input {
        TurnInputView::Committed(thread) => {
            lemma_committed(run, thread, ids);
        },
        TurnInputView::ModelReplied(response) => {
            if run.phase is AwaitingModel {
                lemma_replied(f, shared::reply_text(response), shared::reply_calls(response));
            }
        },
        TurnInputView::ModelFailed(e) => {
            if run.phase is AwaitingModel {
                lemma_fail(f, error::words(e));
            }
        },
        TurnInputView::HookPassed => {
            if let TurnPhaseView::AfterHooks { calls, index, before, left, result } = run.phase {
                lemma_leave(f, calls, index, before, (left + 1) as usize, result);
            }
        },
        TurnInputView::HookFailed(e) => match run.phase {
            TurnPhaseView::BeforeHooks { calls, index, entered } => {
                lemma_record(
                    f,
                    calls,
                    index,
                    None,
                    CallResultView::Failed { error: error::words(e) },
                );
            },
            TurnPhaseView::AfterHooks { calls, index, before, left, result } => {
                let event = shared::hook_failure(calls[index as int], error::words(e));
                lemma_leave(
                    transitions::emit(f, TurnStreamEventView::Runtime(event)),
                    calls,
                    index,
                    before,
                    (left + 1) as usize,
                    result,
                );
            },
            _ => {},
        },
        TurnInputView::FunctionReturned(execution) => {
            if let TurnPhaseView::Executing { calls, index } = run.phase {
                lemma_record(
                    f,
                    calls,
                    index,
                    transitions::update_of(execution),
                    transitions::result_of(execution),
                );
            }
        },
        TurnInputView::FunctionFailed(e) => {
            if let TurnPhaseView::Executing { calls, index } = run.phase {
                lemma_record(
                    f,
                    calls,
                    index,
                    None,
                    CallResultView::Failed { error: error::words(e) },
                );
            }
        },
        TurnInputView::Aborted => {
            if run.phase is AwaitingModel || run.phase is Executing {
                lemma_abort(f);
            }
        },
        _ => {},
    }
}

proof fn lemma_committed(run: TurnRunView, thread: ThreadView, ids: IdSource)
    requires
        good(run),
        thread.turns == run.thread.turns,
    ensures
        good(transitions::committed(run, thread, ids).run),
{
    let f = transitions::on_thread(transitions::fresh(run, ids), thread);
    match run.phase {
        TurnPhaseView::Starting => {
            lemma_iterate(
                transitions::state(
                    f,
                    TurnStateEventView::TurnStarted {
                        thread_id: run.thread_id,
                        turn_id: run.turn_id,
                    },
                ),
            );
        },
        TurnPhaseView::StoringText { text, calls } => {
            lemma_heard(f, text, calls);
        },
        TurnPhaseView::Requesting { calls } => {
            lemma_take_up(f, calls, 0);
        },
        TurnPhaseView::RecordingCall { calls, index, before, result } => {
            lemma_leave(f, calls, index, before, 0, result);
        },
        _ => {},
    }
}

/// A turn starts with its invariant. (The new turn's identifier must not be
/// taken.)
pub proof fn law_turn_begins_well(
    request: TurnRequestView,
    loaded: Result<ThreadView, AgentErrorView>,
    ids: IdSource,
)
    requires
        transitions::begin(request, loaded, ids) is Ok,
        events::turn_index(
            shared::opened(request.thread_id, loaded, ids)->Ok_0.turns,
            events::new_turn(ids).id,
        ) is None,
    ensures
        good(transitions::begin(request, loaded, ids)->Ok_0.run),
{
    let thread = shared::opened(request.thread_id, loaded, ids)->Ok_0;
    let turn = shared::prompted_turn(
        request.user_text,
        transitions::answered_suspension(thread),
        ids,
    );
    let turns = thread.turns.push(turn);
    events::lemma_turn_index(thread.turns, turn.id);
    events::lemma_turn_index_is(turns, turn.id, turns.len() - 1);
    assert(turn.items.drop_last() =~= Seq::<TurnItemView>::empty());
    assert(answers::unanswered(Multiset::empty(), turn.items.drop_last()) == Multiset::<
        Seq<char>,
    >::empty());
}

/// A new prompt answers what the thread waits for: once its turn is stored, no
/// suspension is pending.
pub proof fn law_prompt_answers_suspension(
    request: TurnRequestView,
    thread: ThreadView,
    ids: IdSource,
)
    ensures
        ({
            let step = transitions::begin(request, Ok(thread), ids)->Ok_0;
            &&& step.action == TurnActionView::Commit(step.run.thread)
            &&& projection::project(step.run.thread).pending_suspension is None
        }),
{
    let turn = shared::prompted_turn(
        request.user_text,
        transitions::answered_suspension(thread),
        ids,
    );
    projection::law_turn_appended(thread, turn);
    assert(turn.items.drop_last() =~= Seq::<TurnItemView>::empty());
    let p = projection::project(thread);
    assert(projection::apply_items(p, turn.id, turn.items.drop_last()) == (
        p,
        Seq::<ModelFunctionCallView>::empty(),
    ));
}

/// Whenever the model is asked, every call that it made in this turn has an
/// answer, and the turn is still running.
pub proof fn law_model_sees_answers(run: TurnRunView, input: TurnInputView, ids: IdSource)
    requires
        good(run),
        faithful(run, input),
        fits(input),
        transitions::next(run, input, ids).action is CallModel,
    ensures
        open_calls(transitions::next(run, input, ids).run) == Multiset::<Seq<char>>::empty(),
        turn_of(transitions::next(run, input, ids).run).status == TurnStatus::Running,
{
    law_turn_invariant(run, input, ids);
}

/// What is stored at the end of a turn says how it ended, and a turn that ended
/// with an answer or a suspension leaves no call unanswered.
pub proof fn law_stored_ending(run: TurnRunView, input: TurnInputView, ids: IdSource)
    requires
        good(run),
        faithful(run, input),
        fits(input),
    ensures
        ({
            let step = transitions::next(run, input, ids);
            step.run.phase matches TurnPhaseView::Finishing { outcome } ==> turn_of(
                step.run,
            ).status == status_for(outcome) && (outcome is AssistantMessage || outcome is Suspended
                ==> open_calls(step.run) == Multiset::<Seq<char>>::empty())
        }),
{
    law_turn_invariant(run, input, ids);
}

// ---------------------------------------------------------------------------
// Order

/// How often the model has been asked.
pub open spec fn asked(run: TurnRunView) -> int {
    match run.phase {
        TurnPhaseView::Starting => run.iteration as int,
        TurnPhaseView::BuildingContext => run.iteration as int,
        _ => run.iteration + 1,
    }
}

/// Whether a turn is about to end.
pub open spec fn ending(run: TurnRunView) -> bool {
    run.phase is Skipping || run.phase is Finishing || run.phase is Done
}

/// Where a step starts from.
pub struct Ground {
    /// How many events of the step say that the turn starts.
    pub start: int,
    pub turns: Seq<TurnView>,
    pub turn_id: Seq<char>,
    /// The tokens charged to the thread so far.
    pub charged: TokenUsage,
    /// The tokens of the turn so far.
    pub usage: TokenUsage,
    /// How often the model may be asked.
    pub limit: usize,
}

/// A flow that has kept what the turns held and charged no tokens yet.
pub open spec fn orderly(ground: Ground, f: FlowView) -> bool {
    &&& f.run.turn_id == ground.turn_id
    &&& shared_laws::quiet(f.events, ground.start)
    &&& recording::works_on(ground.turns, f.run.thread.turns, ground.turn_id)
    &&& f.run.thread.token_usage == ground.charged
    &&& f.run.usage == ground.usage
    &&& f.run.max_model_iterations == ground.limit
}

/// A step that has kept what the turns held and charged the tokens exactly when
/// the turn ends.
pub open spec fn orderly_step(ground: Ground, step: StepView) -> bool {
    &&& step.run.turn_id == ground.turn_id
    &&& shared_laws::quiet(step.events, ground.start)
    &&& recording::works_on(ground.turns, step.run.thread.turns, ground.turn_id)
    &&& step.run.usage == ground.usage
    &&& step.run.max_model_iterations == ground.limit
    &&& step.run.thread.token_usage == if step.run.phase is Finishing {
        events::usage_sum(ground.charged, ground.usage)
    } else {
        ground.charged
    }
}

proof fn lemma_order_write(ground: Ground, f: FlowView, entries: Seq<EntryView>)
    requires
        orderly(ground, f),
    ensures
        transitions::write(f, entries) matches Some(g) ==> orderly(ground, g) && g.run.iteration
            == f.run.iteration && g.run.max_model_iterations == f.run.max_model_iterations,
{
    recording::law_recording_appends(
        f.run.thread,
        f.run.turn_id,
        entries,
        TurnStatus::Running,
        f.ids,
    );
    if let Some(g) = transitions::write(f, entries) {
        recording::lemma_works_chain(
            ground.turns,
            f.run.thread.turns,
            g.run.thread.turns,
            ground.turn_id,
        );
    }
}

proof fn lemma_order_close(
    ground: Ground,
    f: FlowView,
    entries: Seq<EntryView>,
    status: TurnStatus,
)
    requires
        orderly(ground, f),
    ensures
        transitions::close(f, entries, status) matches Some(g) ==> orderly(ground, g)
            && g.run.iteration == f.run.iteration && g.run.max_model_iterations
            == f.run.max_model_iterations,
{
    recording::law_recording_appends(f.run.thread, f.run.turn_id, entries, status, f.ids);
    if let Some(g) = transitions::close(f, entries, status) {
        recording::lemma_works_chain(
            ground.turns,
            f.run.thread.turns,
            g.run.thread.turns,
            ground.turn_id,
        );
    }
}

proof fn lemma_order_fail(ground: Ground, f: FlowView, error: Seq<char>)
    requires
        orderly(ground, f),
    ensures
        orderly_step(ground, transitions::fail(f, error)),
        ending(transitions::fail(f, error).run),
        !(transitions::fail(f, error).action is CallModel),
{
    lemma_order_close(ground, f, recording::failure(error), TurnStatus::Failed);
}

proof fn lemma_order_abort(ground: Ground, f: FlowView)
    requires
        orderly(ground, f),
    ensures
        orderly_step(ground, transitions::abort(f)),
        ending(transitions::abort(f).run),
        !(transitions::abort(f).action is CallModel),
{
    lemma_order_close(
        ground,
        f,
        recording::abortion(shared::abort_reason()),
        TurnStatus::Aborted,
    );
}

proof fn lemma_order_iterate(ground: Ground, f: FlowView)
    requires
        orderly(ground, f),
    ensures
        orderly_step(ground, transitions::iterate(f)),
        ending(transitions::iterate(f).run) || asked(transitions::iterate(f).run)
            == f.run.iteration,
        !(transitions::iterate(f).action is CallModel),
{
    lemma_order_fail(
        ground,
        f,
        error::words(AgentErrorView::MaxIterations(f.run.max_model_iterations)),
    );
}

proof fn lemma_order_take_up(
    ground: Ground,
    f: FlowView,
    calls: Seq<ModelFunctionCallView>,
    index: int,
)
    requires
        orderly(ground, f),
        f.run.iteration < f.run.max_model_iterations,
    ensures
        orderly_step(ground, transitions::take_up(f, calls, index)),
        ending(transitions::take_up(f, calls, index).run) || asked(
            transitions::take_up(f, calls, index).run,
        ) == f.run.iteration + 1,
        !(transitions::take_up(f, calls, index).action is CallModel),
{
    if !(0 <= index < calls.len()) {
        let iteration = (f.run.iteration + 1) as usize;
        lemma_order_iterate(
            ground,
            FlowView { run: TurnRunView { iteration, ..f.run }, ..f },
        );
    }
}

proof fn lemma_order_heard(
    ground: Ground,
    f: FlowView,
    text: Seq<char>,
    calls: Seq<ModelFunctionCallView>,
)
    requires
        orderly(ground, f),
    ensures
        orderly_step(ground, transitions::heard(f, text, calls)),
        ending(transitions::heard(f, text, calls).run) || asked(
            transitions::heard(f, text, calls).run,
        ) == f.run.iteration + 1,
        !(transitions::heard(f, text, calls).action is CallModel),
{
    let told = transitions::state(f, TurnStateEventView::FunctionCallsRequested { calls });
    lemma_order_write(ground, told, transitions::call_entries(calls));
    let turns = f.run.thread.turns;
    events::lemma_turn_index(turns, f.run.turn_id);
    if let Some(thread) = recording::with_turn_status(
        f.run.thread,
        f.run.turn_id,
        TurnStatus::Completed,
        f.ids,
    ) {
        assert(recording::works_on(turns, thread.turns, ground.turn_id));
        recording::lemma_works_chain(ground.turns, turns, thread.turns, ground.turn_id);
    }
}

proof fn lemma_order_record(
    ground: Ground,
    f: FlowView,
    calls: Seq<ModelFunctionCallView>,
    index: usize,
    update: Option<ThreadUpdateView>,
    result: CallResultView,
)
    requires
        orderly(ground, f),
    ensures
        ({
            let step = transitions::record(f, calls, index, update, result);
            &&& orderly_step(ground, step)
            &&& ending(step.run) || asked(step.run) == f.run.iteration + 1
            &&& !(step.action is CallModel)
        }),
{
    let entries = transitions::update_entries(f.run.thread, update) + transitions::result_entries(
        calls[index as int],
        result,
    );
    let changed = transitions::on_thread(f, transitions::updated(f.run.thread, update));
    lemma_order_close(ground, changed, entries, TurnStatus::Suspended);
    lemma_order_write(ground, changed, entries);
}

proof fn lemma_order_tell_skipped(
    ground: Ground,
    f: FlowView,
    calls: Seq<ModelFunctionCallView>,
    n: int,
)
    requires
        orderly(ground, f),
    ensures
        orderly(ground, transitions::tell_skipped(f, calls, n)),
    decreases n,
{
    if n > 0 {
        lemma_order_tell_skipped(ground, f, calls, n - 1);
    }
}

proof fn lemma_order_settle(
    ground: Ground,
    f: FlowView,
    calls: Seq<ModelFunctionCallView>,
    index: usize,
    result: CallResultView,
)
    requires
        orderly(ground, f),
        f.run.iteration < f.run.max_model_iterations,
    ensures
        ({
            let step = transitions::settle(f, calls, index, result);
            &&& orderly_step(ground, step)
            &&& ending(step.run) || asked(step.run) == f.run.iteration + 1
            &&& !(step.action is CallModel)
        }),
{
    let call = calls[index as int];
    let completed = transitions::state(
        f,
        TurnStateEventView::FunctionCompleted { call_id: call.call_id, name: call.name },
    );
    match result {
        CallResultView::Completed { output } => {
            lemma_order_take_up(ground, completed, calls, index + 1);
        },
        CallResultView::Failed { error } => {
            lemma_order_take_up(
                ground,
                transitions::state(
                    f,
                    TurnStateEventView::FunctionFailed {
                        call_id: call.call_id,
                        name: call.name,
                        error,
                    },
                ),
                calls,
                index + 1,
            );
        },
        CallResultView::Suspended { suspension, output } => {
            let skipped = shared::later_calls(calls, index);
            let told = transitions::state(completed, TurnStateEventView::Suspended { suspension });
            lemma_tell_skipped(told, skipped, skipped.len() as int);
            lemma_order_tell_skipped(ground, told, skipped, skipped.len() as int);
            lemma_order_write(
                ground,
                transitions::tell_skipped(told, skipped, skipped.len() as int),
                shared::skipped_entries(skipped),
            );
        },
    }
}

/// The turns that a step starts from: those that the store hands back, or those
/// that were there.
pub open spec fn turns_before(run: TurnRunView, input: TurnInputView) -> Seq<TurnView> {
    match input {
        TurnInputView::Committed(thread) if transitions::can_fail(run.phase) && !(
        run.phase is BuildingContext) => thread.turns,
        _ => run.thread.turns,
    }
}

/// How many events of a step say that the turn starts.
pub open spec fn openings(run: TurnRunView, input: TurnInputView) -> int {
    if run.phase is Starting && input is Committed {
        1
    } else {
        0
    }
}

/// Whether a step is the one in which a turn is stored and over.
pub open spec fn is_over(run: TurnRunView, input: TurnInputView) -> bool {
    run.phase is Finishing && input is Committed
}

/// The tokens charged to the thread that a step starts from.
pub open spec fn charged_before(run: TurnRunView, input: TurnInputView) -> TokenUsage {
    match input {
        TurnInputView::Committed(thread) => thread.token_usage,
        _ => run.thread.token_usage,
    }
}

/// In every step the settings and all other turns stay, items are only added at
/// the end of the turn, each request to the model counts once, the tokens of
/// the turn are charged when it ends, once, and a caller hears that the turn
/// starts or is over exactly where it does.
pub proof fn law_step_order(run: TurnRunView, input: TurnInputView, ids: IdSource)
    requires
        good(run),
    ensures
        ({
            let step = transitions::next(run, input, ids);
            &&& step.run.max_model_iterations == run.max_model_iterations
            &&& step.run.turn_id == run.turn_id
            &&& if is_over(run, input) {
                &&& step.events.len() > 0
                &&& shared_laws::closes(step.events.last())
                &&& shared_laws::quiet(step.events.drop_last(), 0)
            } else {
                shared_laws::quiet(step.events, openings(run, input))
            }
            &&& recording::works_on(
                turns_before(run, input),
                step.run.thread.turns,
                run.turn_id,
            )
            &&& step.action is CallModel ==> asked(step.run) == asked(run) + 1
                && !ending(step.run)
            &&& !(step.action is CallModel) && !ending(step.run) ==> asked(step.run) == asked(run)
            &&& step.run.phase is Finishing && !(run.phase is Finishing)
                ==> step.run.thread.token_usage == events::usage_sum(
                charged_before(run, input),
                run.usage,
            )
        }),
{
    let f = transitions::fresh(run, ids);
    let ground = Ground {
        turns: turns_before(run, input),
        turn_id: run.turn_id,
        start: openings(run, input),
        charged: charged_before(run, input),
        usage: run.usage,
        limit: run.max_model_iterations,
    };
    match input {
        TurnInputView::Committed(thread) => {
            let g = transitions::on_thread(f, thread);
            match run.phase {
                TurnPhaseView::Starting => {
                    lemma_order_iterate(
                        ground,
                        transitions::state(
                            g,
                            TurnStateEventView::TurnStarted {
                                thread_id: run.thread_id,
                                turn_id: run.turn_id,
                            },
                        ),
                    );
                },
                TurnPhaseView::StoringText { text, calls } => {
                    lemma_order_heard(ground, g, text, calls);
                },
                TurnPhaseView::Requesting { calls } => {
                    lemma_order_take_up(ground, g, calls, 0);
                },
                TurnPhaseView::RecordingCall { calls, index, before, result } => {
                    lemma_order_settle(ground, g, calls, index, result);
                },
                _ => {},
            }
        },
        TurnInputView::ModelReplied(response) => {
            let calls = shared::reply_calls(response);
            lemma_order_heard(ground, f, Seq::empty(), calls);
            if let Some(text) = shared::reply_text(response) {
                lemma_order_write(
                    ground,
                    transitions::emit(
                        f,
                        TurnStreamEventView::Model(TurnModelEventView::AssistantMessage { text }),
                    ),
                    transitions::text_entries(text),
                );
            }
        },
        TurnInputView::ModelFailed(e) => {
            lemma_order_fail(ground, f, error::words(e));
        },
        TurnInputView::HookPassed => {
            if let TurnPhaseView::AfterHooks { calls, index, before, left, result } = run.phase {
                lemma_order_settle(ground, f, calls, index, result);
            }
        },
        TurnInputView::HookFailed(e) => {
            let failed = CallResultView::Failed { error: error::words(e) };
            match run.phase {
                TurnPhaseView::BeforeHooks { calls, index, entered } => {
                    lemma_order_record(ground, f, calls, index, None, failed);
                },
                TurnPhaseView::AfterHooks { calls, index, before, left, result } => {
                    let event = shared::hook_failure(calls[index as int], error::words(e));
                    lemma_order_settle(
                        ground,
                        transitions::emit(f, TurnStreamEventView::Runtime(event)),
                        calls,
                        index,
                        result,
                    );
                },
                _ => {},
            }
        },
        TurnInputView::FunctionReturned(execution) => {
            if let TurnPhaseView::Executing { calls, index } = run.phase {
                lemma_order_record(
                    ground,
                    f,
                    calls,
                    index,
                    transitions::update_of(execution),
                    transitions::result_of(execution),
                );
            }
        },
        TurnInputView::FunctionFailed(e) => {
            if let TurnPhaseView::Executing { calls, index } = run.phase {
                lemma_order_record(
                    ground,
                    f,
                    calls,
                    index,
                    None,
                    CallResultView::Failed { error: error::words(e) },
                );
            }
        },
        TurnInputView::Aborted => {
            lemma_order_abort(ground, f);
        },
        _ => {},
    }
}

/// The model is asked at most as often as the settings allow.
pub proof fn law_requests_bounded(run: TurnRunView, input: TurnInputView, ids: IdSource)
    requires
        good(run),
        transitions::next(run, input, ids).action is CallModel,
    ensures
        asked(transitions::next(run, input, ids).run) <= run.max_model_iterations,
{
}

/// A turn after the given inputs, each with the identifiers at that time.
pub open spec fn played(
    run: TurnRunView,
    inputs: Seq<(TurnInputView, IdSource)>,
) -> TurnRunView
    decreases inputs.len(),
{
    if inputs.len() == 0 {
        run
    } else {
        let (input, ids) = inputs.last();
        transitions::next(played(run, inputs.drop_last()), input, ids).run
    }
}

/// How often the given inputs make a turn ask the model.
pub open spec fn requests(run: TurnRunView, inputs: Seq<(TurnInputView, IdSource)>) -> nat
    decreases inputs.len(),
{
    if inputs.len() == 0 {
        0
    } else {
        let (input, ids) = inputs.last();
        requests(run, inputs.drop_last()) + if transitions::next(
            played(run, inputs.drop_last()),
            input,
            ids,
        ).action is CallModel {
            1nat
        } else {
            0nat
        }
    }
}

/// Whether the store hands back the turns that it is sent, whenever it is, and
/// the calls of every answer fit into memory.
pub open spec fn acceptable(run: TurnRunView, inputs: Seq<(TurnInputView, IdSource)>) -> bool
    decreases inputs.len(),
{
    inputs.len() > 0 ==> {
        let input = inputs.last().0;
        &&& acceptable(run, inputs.drop_last())
        &&& faithful(played(run, inputs.drop_last()), input)
        &&& fits(input)
    }
}

proof fn lemma_ending_stays(run: TurnRunView, input: TurnInputView, ids: IdSource)
    requires
        ending(run),
    ensures
        ending(transitions::next(run, input, ids).run),
        !(transitions::next(run, input, ids).action is CallModel),
{
}

/// Over a whole turn, whatever comes in: the turn keeps its invariant, items are
/// only added to its thread, and the model is asked no more often than the
/// settings allow.
pub proof fn law_whole_turn(run: TurnRunView, inputs: Seq<(TurnInputView, IdSource)>)
    requires
        good(run),
        acceptable(run, inputs),
    ensures
        good(played(run, inputs)),
        recording::works_on(run.thread.turns, played(run, inputs).thread.turns, run.turn_id),
        played(run, inputs).turn_id == run.turn_id,
        requests(run, inputs) > 0 ==> asked(run) + requests(run, inputs)
            <= run.max_model_iterations,
        played(run, inputs).max_model_iterations == run.max_model_iterations,
        !ending(played(run, inputs)) ==> asked(played(run, inputs)) == asked(run) + requests(
            run,
            inputs,
        ),
    decreases inputs.len(),
{
    if inputs.len() > 0 {
        let before = played(run, inputs.drop_last());
        let (input, ids) = inputs.last();
        let step = transitions::next(before, input, ids);
        law_whole_turn(run, inputs.drop_last());
        law_turn_invariant(before, input, ids);
        law_step_order(before, input, ids);
        if ending(before) {
            lemma_ending_stays(before, input, ids);
        }
        if step.action is CallModel {
            law_requests_bounded(before, input, ids);
        }
        assert(turns_before(before, input) == before.thread.turns);
        recording::lemma_works_chain(
            run.thread.turns,
            before.thread.turns,
            step.run.thread.turns,
            run.turn_id,
        );
    }
}

/// All that a caller hears while the given inputs come in.
pub open spec fn told(
    run: TurnRunView,
    inputs: Seq<(TurnInputView, IdSource)>,
) -> Seq<TurnStreamEventView>
    decreases inputs.len(),
{
    if inputs.len() == 0 {
        Seq::empty()
    } else {
        let (input, ids) = inputs.last();
        told(run, inputs.drop_last()) + transitions::next(
            played(run, inputs.drop_last()),
            input,
            ids,
        ).events
    }
}

/// What comes of a turn while the given inputs come in, once it is over.
pub open spec fn outcome_of(
    run: TurnRunView,
    inputs: Seq<(TurnInputView, IdSource)>,
) -> Option<TurnOutcomeView>
    decreases inputs.len(),
{
    if inputs.len() == 0 {
        None
    } else {
        let (input, ids) = inputs.last();
        match transitions::next(played(run, inputs.drop_last()), input, ids).action {
            TurnActionView::Finish(outcome) => Some(outcome),
            _ => outcome_of(run, inputs.drop_last()),
        }
    }
}

proof fn lemma_where_a_step_leads(run: TurnRunView, input: TurnInputView, ids: IdSource)
    ensures
        !(transitions::next(run, input, ids).run.phase is Starting) || (run.phase is Starting
            && !(input is Committed)),
        transitions::next(run, input, ids).action is Finish ==> is_over(run, input),
{
}

proof fn lemma_bounds_of_a_step(run: TurnRunView, input: TurnInputView, ids: IdSource)
    requires
        good(run),
    ensures
        ({
            let step = transitions::next(run, input, ids);
            &&& run.phase is Done ==> step.run.phase is Done && step.events.len() == 0
                && !(step.action is Finish)
            &&& step.run.phase is Starting ==> run.phase is Starting && step.events.len() == 0
                && !(input is Committed)
            &&& run.phase is Starting && !(input is Committed) ==> step.events.len() == 0
                && (step.run.phase is Starting || step.run.phase is Done)
            &&& step.action is Finish <==> is_over(run, input)
            &&& is_over(run, input) ==> step.run.phase is Done && step.events.last()
                == TurnStreamEventView::State(
                TurnStateEventView::TurnFinished { outcome: step.action->Finish_0 },
            )
        }),
{
    law_step_order(run, input, ids);
    lemma_where_a_step_leads(run, input, ids);
}

/// Over a whole turn, whatever comes in: the first thing that a caller hears is
/// that the turn starts, and that is said once; the last is what came of the turn,
/// and that is said once, when it is over.
pub proof fn law_turn_is_told(run: TurnRunView, inputs: Seq<(TurnInputView, IdSource)>)
    requires
        good(run),
        run.phase is Starting,
        acceptable(run, inputs),
    ensures
        played(run, inputs).phase is Starting ==> told(run, inputs).len() == 0,
        forall|k: int|
            0 <= k < told(run, inputs).len() ==> (shared_laws::opens(
                #[trigger] told(run, inputs)[k],
            ) <==> k == 0),
        forall|k: int|
            0 <= k < told(run, inputs).len() && shared_laws::closes(
                #[trigger] told(run, inputs)[k],
            ) ==> k == told(run, inputs).len() - 1 && outcome_of(run, inputs) is Some,
        outcome_of(run, inputs) matches Some(outcome) ==> {
            &&& played(run, inputs).phase is Done
            &&& told(run, inputs).len() > 1
            &&& told(run, inputs).last() == TurnStreamEventView::State(
                TurnStateEventView::TurnFinished { outcome },
            )
        },
        !(played(run, inputs).phase is Starting) && !(played(run, inputs).phase is Done)
            ==> told(run, inputs).len() > 0,
    decreases inputs.len(),
{
    if inputs.len() > 0 {
        let rest = inputs.drop_last();
        let before = played(run, rest);
        let (input, ids) = inputs.last();
        let step = transitions::next(before, input, ids);
        let heard = told(run, rest);
        let all = told(run, inputs);
        law_turn_is_told(run, rest);
        law_whole_turn(run, rest);
        law_step_order(before, input, ids);
        lemma_bounds_of_a_step(before, input, ids);
        assert(all == heard + step.events);
        assert forall|k: int| 0 <= k < all.len() implies (shared_laws::opens(
            #[trigger] all[k],
        ) <==> k == 0) by {
            if k < heard.len() {
                assert(all[k] == heard[k]);
            } else {
                let at = k - heard.len();
                assert(all[k] == step.events[at]);
                if is_over(before, input) && at < step.events.len() - 1 {
                    assert(step.events.drop_last()[at] == step.events[at]);
                }
            }
        }
        assert forall|k: int| 0 <= k < all.len() && shared_laws::closes(#[trigger] all[k]) implies k
            == all.len() - 1 && outcome_of(run, inputs) is Some by {
            if k < heard.len() {
                assert(all[k] == heard[k]);
            } else {
                let at = k - heard.len();
                assert(all[k] == step.events[at]);
                if is_over(before, input) && at < step.events.len() - 1 {
                    assert(step.events.drop_last()[at] == step.events[at]);
                }
            }
        }
    }
}

/// A prompt gains a thread exactly one turn, at its end, that starts with what the
/// user said; whatever comes in, the turns before it stay as they were, the model
/// is asked no more often than the settings allow, and the caller hears first that
/// the turn starts and last what came of it. (The new turn's identifier must not be
/// taken.)
pub proof fn law_prompted_turn(
    request: TurnRequestView,
    loaded: Result<ThreadView, AgentErrorView>,
    ids: IdSource,
    inputs: Seq<(TurnInputView, IdSource)>,
)
    requires
        transitions::begin(request, loaded, ids) is Ok,
        events::turn_index(
            shared::opened(request.thread_id, loaded, ids)->Ok_0.turns,
            events::new_turn(ids).id,
        ) is None,
        acceptable(transitions::begin(request, loaded, ids)->Ok_0.run, inputs),
    ensures
        ({
            let before = shared::opened(request.thread_id, loaded, ids)->Ok_0.turns;
            let run = transitions::begin(request, loaded, ids)->Ok_0.run;
            let after = played(run, inputs).thread.turns;
            let all = told(run, inputs);
            &&& after.len() == before.len() + 1
            &&& after.drop_last() == before
            &&& after.last().id == events::new_turn(ids).id
            &&& shared::prompted_turn(
                request.user_text,
                transitions::answered_suspension(
                    shared::opened(request.thread_id, loaded, ids)->Ok_0,
                ),
                ids,
            ).items.is_prefix_of(after.last().items)
            &&& requests(run, inputs) <= request.max_model_iterations
            &&& forall|k: int|
                0 <= k < all.len() ==> (shared_laws::opens(#[trigger] all[k]) <==> k == 0)
            &&& forall|k: int|
                0 <= k < all.len() && shared_laws::closes(#[trigger] all[k]) ==> k == all.len() - 1
            &&& outcome_of(run, inputs) matches Some(outcome) ==> all.len() > 1 && all.last()
                == TurnStreamEventView::State(TurnStateEventView::TurnFinished { outcome })
        }),
{
    let before = shared::opened(request.thread_id, loaded, ids)->Ok_0.turns;
    let run = transitions::begin(request, loaded, ids)->Ok_0.run;
    let after = played(run, inputs).thread.turns;
    law_turn_begins_well(request, loaded, ids);
    law_whole_turn(run, inputs);
    law_turn_is_told(run, inputs);
    events::lemma_turn_index(before, events::new_turn(ids).id);
    assert forall|j: int| 0 <= j < before.len() implies before[j] == after[j] by {
        assert(run.thread.turns[j] == before[j]);
        assert(run.thread.turns[j].id != run.turn_id);
    }
    assert(after.drop_last() =~= before);
    assert(run.thread.turns[before.len() as int].id == run.turn_id);
}

/// All hooks see the result of a call, in their order, each once, whether or not
/// one of them fails.
pub proof fn law_hooks_after(run: TurnRunView, input: TurnInputView, ids: IdSource)
    requires
        good(run),
        run.phase is AfterHooks,
        input is HookPassed || input is HookFailed,
    ensures
        ({
            let left = run.phase->AfterHooks_left;
            let step = transitions::next(run, input, ids);
            if left + 1 < run.hook_count {
                step.action is AfterHook && step.action->AfterHook_hook == left + 1
            } else {
                !(step.action is AfterHook)
            }
        }),
{
}

/// Hooks are asked before a call in their order; a call runs only when all have
/// passed it.
pub proof fn law_hooks_before(run: TurnRunView, ids: IdSource)
    requires
        good(run),
        run.phase is BeforeHooks,
    ensures
        ({
            let entered = run.phase->BeforeHooks_entered;
            let action = transitions::next(run, TurnInputView::HookPassed, ids).action;
            if entered + 1 < run.hook_count {
                action is BeforeHook && action->BeforeHook_hook == entered + 1
            } else {
                action is CallFunction
            }
        }),
{
}

/// The last thing that a caller hears of a turn is how it ended.
pub proof fn law_ending_is_told_last(run: TurnRunView, input: TurnInputView, ids: IdSource)
    requires
        transitions::next(run, input, ids).action is Finish,
    ensures
        ({
            let step = transitions::next(run, input, ids);
            &&& step.run.phase is Done
            &&& step.events.len() > 0
            &&& step.events.last() == TurnStreamEventView::State(
                TurnStateEventView::TurnFinished { outcome: step.action->Finish_0 },
            )
        }),
{
}

} // verus!
