//! What holds of every turn.
use crate::error::{self, AgentErrorView};
use crate::ids::IdSource;
use crate::kernel::events::{
    self, ThreadView, TokenUsage, ToolResultView, TurnItemView, TurnStatus, TurnView,
};
use crate::kernel::model::{ModelFunctionCallView, ModelRequestView, ModelResponseView};
use crate::kernel::projection;
use crate::runtime::agent_loop::{TurnOutcomeView, TurnStateEventView, TurnStreamEventView};
use crate::runtime::answers;
use crate::runtime::context::ContextBuildOutputView;
use crate::runtime::functions::RuntimeEffectView;
use crate::runtime::recording::{self, EntryView};
use crate::runtime::store::ThreadContextCacheView;
use crate::runtime::trace::{TraceEventKindView, TraceEventView};
use crate::runtime::turn::parts::{
    CallResultView, FlowView, StepView, TurnActionView, TurnInputView, TurnPhaseView,
    TurnRequestView, TurnRunView,
};
use crate::runtime::turn::transitions;
use vstd::multiset::Multiset;
use vstd::prelude::*;

verus! {

// ---------------------------------------------------------------------------
// The invariant

/// Whether the thread has the turn.
pub open spec fn has_turn(run: TurnRunView) -> bool {
    events::turn_index(run.thread.turns, run.turn_id) is Some
}

/// The turn itself.
pub open spec fn turn_of(run: TurnRunView) -> TurnView {
    run.thread.turns[events::turn_index(run.thread.turns, run.turn_id)->0]
}

/// The calls of the turn that have no answer yet.
pub open spec fn open_calls(run: TurnRunView) -> Multiset<Seq<char>> {
    answers::unanswered(Multiset::empty(), turn_of(run).items)
}

/// The calls without an answer once a result is recorded: those still to come,
/// or the one that waits for approval.
pub open spec fn left_open(
    calls: Seq<ModelFunctionCallView>,
    index: usize,
    result: CallResultView,
) -> Multiset<Seq<char>> {
    match result {
        CallResultView::SuspendedBefore { suspension } => Multiset::singleton(
            calls[index as int].call_id,
        ),
        CallResultView::SuspendedAfter { suspension, output } => Multiset::empty(),
        _ => answers::calls_from(calls, index + 1),
    }
}

/// The state of a turn once a result is recorded.
pub open spec fn status_after(result: CallResultView) -> TurnStatus {
    if transitions::suspends(result) {
        TurnStatus::Suspended
    } else {
        TurnStatus::Running
    }
}

/// The state of a turn that ended in a way.
pub open spec fn status_for(outcome: TurnOutcomeView) -> TurnStatus {
    match outcome {
        TurnOutcomeView::AssistantMessage { text } => TurnStatus::Completed,
        TurnOutcomeView::Suspended { suspension } => TurnStatus::Suspended,
        TurnOutcomeView::Failed { error } => TurnStatus::Failed,
        TurnOutcomeView::Aborted { reason } => TurnStatus::Aborted,
    }
}

/// Whether the calls of a phase fit into memory.
pub open spec fn few_calls(phase: TurnPhaseView) -> bool {
    match phase {
        TurnPhaseView::Requesting { text, calls } => calls.len() <= usize::MAX,
        TurnPhaseView::BeforeHooks { calls, index, entered } => calls.len() <= usize::MAX,
        TurnPhaseView::Executing { calls, index, entered } => calls.len() <= usize::MAX,
        TurnPhaseView::RecordingCall { calls, index, entered, result } => calls.len()
            <= usize::MAX,
        TurnPhaseView::AfterHooks { calls, index, remaining, result } => calls.len() <= usize::MAX,
        _ => true,
    }
}

/// What holds of a turn in every phase.
pub open spec fn good(run: TurnRunView) -> bool {
    let turn = turn_of(run);
    let open = open_calls(run);
    let asking = run.iteration < run.max_model_iterations;
    few_calls(run.phase) && match run.phase {
        TurnPhaseView::Starting { user_text } => has_turn(run) && turn.status == TurnStatus::Running
            && open == Multiset::<Seq<char>>::empty(),
        TurnPhaseView::Completing { text } => has_turn(run) && turn.status == TurnStatus::Completed
            && open == Multiset::<Seq<char>>::empty(),
        TurnPhaseView::Requesting { text, calls } => has_turn(run) && asking && turn.status
            == TurnStatus::Running && open == answers::calls_from(calls, 0),
        TurnPhaseView::BeforeHooks { calls, index, entered } => has_turn(run) && asking
            && turn.status == TurnStatus::Running && index < calls.len() && entered < run.hook_count
            && open == answers::calls_from(calls, index as int),
        TurnPhaseView::Executing { calls, index, entered } => has_turn(run) && asking && turn.status
            == TurnStatus::Running && index < calls.len() && entered == run.hook_count && open
            == answers::calls_from(calls, index as int),
        TurnPhaseView::RecordingCall { calls, index, entered, result } => has_turn(run) && asking
            && index < calls.len() && entered <= run.hook_count && turn.status == status_after(
            result,
        ) && open == left_open(calls, index, result),
        TurnPhaseView::AfterHooks { calls, index, remaining, result } => has_turn(run) && asking
            && index < calls.len() && 0 < remaining <= run.hook_count && !(
        result is SuspendedBefore) && turn.status == status_after(result) && open == left_open(
            calls,
            index,
            result,
        ),
        TurnPhaseView::Finishing { outcome } => has_turn(run) && turn.status == status_for(outcome),
        TurnPhaseView::Done => true,
        _ => has_turn(run) && asking && turn.status == TurnStatus::Running && open == Multiset::<
            Seq<char>,
        >::empty(),
    }
}

/// What a store that takes a thread hands back: the turns as they were sent.
pub open spec fn faithful(run: TurnRunView, input: TurnInputView) -> bool {
    input matches TurnInputView::Committed(thread) ==> thread.turns == run.thread.turns
}

proof fn lemma_write(f: FlowView, entries: Seq<EntryView>)
    requires
        has_turn(f.run),
    ensures
        transitions::write(f, entries) is Some,
        ({
            let run = transitions::write(f, entries)->0.run;
            &&& run == (TurnRunView { thread: run.thread, ..f.run })
            &&& has_turn(run)
            &&& turn_of(run).status == turn_of(f.run).status
            &&& open_calls(run) == answers::unanswered_after(open_calls(f.run), entries)
        }),
{
    let turns = f.run.thread.turns;
    let i = events::turn_index(turns, f.run.turn_id)->0;
    let turn = recording::turn_with(turns[i], entries, f.ids);
    events::lemma_turn_index(turns, f.run.turn_id);
    recording::lemma_replace_keeps_ids(turns, i, turn, f.run.turn_id);
    answers::lemma_recorded(Multiset::empty(), turns[i].items, entries, f.ids);
}

proof fn lemma_close(f: FlowView, entries: Seq<EntryView>, status: TurnStatus)
    requires
        has_turn(f.run),
    ensures
        transitions::close(f, entries, status) is Some,
        ({
            let run = transitions::close(f, entries, status)->0.run;
            &&& run == (TurnRunView { thread: run.thread, ..f.run })
            &&& has_turn(run)
            &&& turn_of(run).status == status
            &&& open_calls(run) == answers::unanswered_after(open_calls(f.run), entries)
        }),
{
    let turns = f.run.thread.turns;
    let i = events::turn_index(turns, f.run.turn_id)->0;
    let turn = recording::turn_with(turns[i], entries, f.ids);
    let ended = events::with_status(turn, status, f.ids);
    events::lemma_turn_index(turns, f.run.turn_id);
    recording::lemma_ending_found(f.run.thread, f.run.turn_id, entries, status, f.ids);
    recording::lemma_replace_keeps_ids(turns, i, ended, f.run.turn_id);
    answers::lemma_recorded(Multiset::empty(), turns[i].items, entries, f.ids);
}

proof fn lemma_conclude(f: FlowView, outcome: TurnOutcomeView)
    requires
        has_turn(f.run),
        turn_of(f.run).status == status_for(outcome),
    ensures
        good(transitions::conclude(f, outcome).run),
{
}

proof fn lemma_fail(f: FlowView, error: Seq<char>)
    requires
        has_turn(f.run),
    ensures
        good(transitions::fail(f, error).run),
{
    lemma_close(f, recording::failure(error), TurnStatus::Failed);
    lemma_conclude(
        transitions::close(f, recording::failure(error), TurnStatus::Failed)->0,
        TurnOutcomeView::Failed { error },
    );
}

proof fn lemma_abort(f: FlowView)
    requires
        has_turn(f.run),
    ensures
        good(transitions::abort(f).run),
{
    let reason = transitions::abort_reason();
    lemma_close(f, recording::abortion(reason), TurnStatus::Aborted);
    lemma_conclude(
        transitions::close(f, recording::abortion(reason), TurnStatus::Aborted)->0,
        TurnOutcomeView::Aborted { reason },
    );
}

proof fn lemma_iterate(f: FlowView)
    requires
        has_turn(f.run),
        turn_of(f.run).status == TurnStatus::Running,
        open_calls(f.run) == Multiset::<Seq<char>>::empty(),
    ensures
        good(transitions::iterate(f).run),
{
    lemma_fail(
        f,
        error::words(AgentErrorView::MaxIterations(f.run.max_model_iterations)),
    );
}

proof fn lemma_take_up(f: FlowView, calls: Seq<ModelFunctionCallView>, index: int)
    requires
        has_turn(f.run),
        f.run.iteration < f.run.max_model_iterations,
        turn_of(f.run).status == TurnStatus::Running,
        0 <= index <= calls.len(),
        calls.len() <= usize::MAX,
        open_calls(f.run) == answers::calls_from(calls, index),
    ensures
        good(transitions::take_up(f, calls, index).run),
{
    if index == calls.len() {
        let iteration = (f.run.iteration + 1) as usize;
        lemma_iterate(FlowView { run: TurnRunView { iteration, ..f.run }, ..f });
    }
}

proof fn lemma_replied(
    f: FlowView,
    text: Option<Seq<char>>,
    calls: Seq<ModelFunctionCallView>,
)
    requires
        has_turn(f.run),
        f.run.iteration < f.run.max_model_iterations,
        turn_of(f.run).status == TurnStatus::Running,
        open_calls(f.run) == Multiset::<Seq<char>>::empty(),
        calls.len() <= usize::MAX,
    ensures
        good(transitions::replied(f, text, calls).run),
{
    let told = transitions::announce(f, text);
    let entries = transitions::reply_entries(text, calls);
    let none = Multiset::<Seq<char>>::empty();
    answers::lemma_one_entry(none, entries[0]);
    assert(entries =~= seq![entries[0]]);
    assert(answers::unanswered_after(none, entries) =~= answers::call_ids(calls));
    assert(calls.subrange(0, calls.len() as int) =~= calls);
    if text is None && calls.len() == 0 {
        lemma_fail(f, transitions::empty_reply());
    } else if calls.len() == 0 {
        lemma_close(told, entries, TurnStatus::Completed);
    } else {
        lemma_write(told, entries);
    }
}

proof fn lemma_record(
    f: FlowView,
    calls: Seq<ModelFunctionCallView>,
    index: usize,
    entered: usize,
    effects: Seq<RuntimeEffectView>,
    result: CallResultView,
)
    requires
        has_turn(f.run),
        f.run.iteration < f.run.max_model_iterations,
        turn_of(f.run).status == TurnStatus::Running,
        index < calls.len() <= usize::MAX,
        entered <= f.run.hook_count,
        open_calls(f.run) == answers::calls_from(calls, index as int),
    ensures
        good(transitions::record(f, calls, index, entered, effects, result).run),
{
    let open = open_calls(f.run);
    let id = calls[index as int].call_id;
    let rest = answers::calls_from(calls, index + 1);
    let skipped = transitions::later_calls(calls, index);
    let effect_entries = recording::effect_entries(f.run.thread, effects);
    let outcome = transitions::result_entries(calls, index, result);
    answers::lemma_first_call(calls, index as int);
    answers::lemma_effects_answer_nothing(open, f.run.thread, effects);
    answers::lemma_entries_concat(open, effect_entries, outcome);
    assert(open.remove(id) =~= rest);
    match result {
        CallResultView::SuspendedBefore { suspension } => {
            let first = seq![transitions::suspension_entry(suspension)];
            answers::lemma_one_entry(open, transitions::suspension_entry(suspension));
            answers::lemma_entries_concat(open, first, transitions::skipped_entries(skipped));
            assert(open =~= Multiset::singleton(id).add(rest));
            answers::lemma_skipped_answered(Multiset::singleton(id), skipped);
        },
        CallResultView::SuspendedAfter { suspension, output } => {
            let success = transitions::output_entry(
                calls[index as int],
                ToolResultView::Success { output },
            );
            let first = seq![success, transitions::suspension_entry(suspension)];
            answers::lemma_one_entry(open, success);
            assert(first.drop_last() =~= seq![success]);
            assert(answers::unanswered_after(open, first) == rest);
            answers::lemma_entries_concat(open, first, transitions::skipped_entries(skipped));
            assert(rest =~= Multiset::empty().add(rest));
            answers::lemma_skipped_answered(Multiset::empty(), skipped);
        },
        _ => {
            answers::lemma_one_entry(open, outcome[0]);
            assert(outcome =~= seq![outcome[0]]);
        },
    }
    if transitions::suspends(result) {
        lemma_close(f, effect_entries + outcome, TurnStatus::Suspended);
    } else {
        lemma_write(f, effect_entries + outcome);
    }
}

proof fn lemma_settle(
    f: FlowView,
    calls: Seq<ModelFunctionCallView>,
    index: usize,
    result: CallResultView,
)
    requires
        has_turn(f.run),
        f.run.iteration < f.run.max_model_iterations,
        index < calls.len() <= usize::MAX,
        turn_of(f.run).status == status_after(result),
        open_calls(f.run) == left_open(calls, index, result),
    ensures
        good(transitions::settle(f, calls, index, result).run),
{
    let call = calls[index as int];
    let completed = transitions::state(
        f,
        TurnStateEventView::FunctionCompleted { call_id: call.call_id, name: call.name },
    );
    let skipped = transitions::later_calls(calls, index);
    match result {
        CallResultView::Completed { output } => {
            lemma_take_up(completed, calls, index + 1);
        },
        CallResultView::Failed { error } => {
            lemma_take_up(
                transitions::state(
                    f,
                    TurnStateEventView::FunctionFailed {
                        call_id: call.call_id,
                        name: call.name,
                        error,
                    },
                ),
                calls,
                index + 1,
            );
        },
        CallResultView::SuspendedBefore { suspension } => {
            lemma_tell_skipped(
                transitions::state(f, TurnStateEventView::Suspended { suspension }),
                skipped,
                skipped.len() as int,
            );
        },
        CallResultView::SuspendedAfter { suspension, output } => {
            lemma_tell_skipped(
                transitions::state(completed, TurnStateEventView::Suspended { suspension }),
                skipped,
                skipped.len() as int,
            );
        },
    }
}

proof fn lemma_tell_skipped(f: FlowView, calls: Seq<ModelFunctionCallView>, n: int)
    ensures
        transitions::tell_skipped(f, calls, n).run == f.run,
        transitions::tell_skipped(f, calls, n).traces == f.traces,
    decreases n,
{
    if n > 0 {
        lemma_tell_skipped(f, calls, n - 1);
    }
}

proof fn lemma_trace_skipped(f: FlowView, calls: Seq<ModelFunctionCallView>, n: int)
    ensures
        transitions::trace_skipped(f, calls, n).run == (TurnRunView {
            trace_sequence: transitions::trace_skipped(f, calls, n).run.trace_sequence,
            ..f.run
        }),
    decreases n,
{
    if n > 0 {
        lemma_trace_skipped(f, calls, n - 1);
    }
}

proof fn lemma_leave(
    f: FlowView,
    calls: Seq<ModelFunctionCallView>,
    index: usize,
    remaining: usize,
    result: CallResultView,
)
    requires
        has_turn(f.run),
        f.run.iteration < f.run.max_model_iterations,
        index < calls.len() <= usize::MAX,
        remaining <= f.run.hook_count,
        !(result is SuspendedBefore),
        turn_of(f.run).status == status_after(result),
        open_calls(f.run) == left_open(calls, index, result),
    ensures
        good(transitions::leave(f, calls, index, remaining, result).run),
{
    lemma_settle(f, calls, index, result);
}

/// A turn keeps its invariant in every step, as long as the store hands back the
/// turns that it was sent.
pub proof fn law_turn_invariant(run: TurnRunView, input: TurnInputView, ids: IdSource)
    requires
        good(run),
        faithful(run, input),
        input matches TurnInputView::ModelReplied(response) ==> transitions::reply_calls(
            response,
        ).len() <= usize::MAX,
    ensures
        good(transitions::next(run, input, ids).run),
{
    let f = transitions::fresh(run, ids);
    match input {
        TurnInputView::Committed(thread) => {
            lemma_committed(run, thread, ids);
        },
        TurnInputView::ModelReplied(response) => {
            if run.phase is AwaitingModel {
                lemma_replied(
                    f,
                    transitions::reply_text(response),
                    transitions::reply_calls(response),
                );
            }
        },
        TurnInputView::ModelFailed(e) => {
            if run.phase is AwaitingModel {
                lemma_fail(f, error::words(e));
            }
        },
        TurnInputView::HookPassed => {
            if let TurnPhaseView::AfterHooks { calls, index, remaining, result } = run.phase {
                lemma_leave(f, calls, index, (remaining - 1) as usize, result);
            }
        },
        TurnInputView::HookFailed(e) => {
            lemma_hook_failed(run, e, ids);
        },
        TurnInputView::FunctionReturned(execution) => {
            if let TurnPhaseView::Executing { calls, index, entered } = run.phase {
                lemma_record(
                    f,
                    calls,
                    index,
                    entered,
                    transitions::effects_of(execution),
                    transitions::result_of(execution),
                );
            }
        },
        TurnInputView::FunctionFailed(e) => {
            if let TurnPhaseView::Executing { calls, index, entered } = run.phase {
                lemma_record(
                    f,
                    calls,
                    index,
                    entered,
                    Seq::empty(),
                    CallResultView::Failed { error: error::words(e) },
                );
            }
        },
        TurnInputView::Aborted => {
            if run.phase is AwaitingModel || run.phase is Executing {
                lemma_abort(f);
            }
        },
        _ => {},
    }
}

proof fn lemma_hook_failed(run: TurnRunView, e: AgentErrorView, ids: IdSource)
    requires
        good(run),
    ensures
        good(transitions::hooked(run, Some(e), ids).run),
{
    let f = transitions::fresh(run, ids);
    match run.phase {
        TurnPhaseView::BeforeHooks { calls, index, entered } => {
            lemma_record(
                f,
                calls,
                index,
                entered,
                Seq::empty(),
                CallResultView::Failed { error: error::words(e) },
            );
        },
        TurnPhaseView::AfterHooks { calls, index, remaining, result } => {
            let event = transitions::hook_failure(calls[index as int], error::words(e));
            lemma_leave(
                transitions::emit(f, TurnStreamEventView::Runtime(event)),
                calls,
                index,
                (remaining - 1) as usize,
                result,
            );
        },
        _ => {},
    }
}

proof fn lemma_committed(run: TurnRunView, thread: ThreadView, ids: IdSource)
    requires
        good(run),
        thread.turns == run.thread.turns,
    ensures
        good(transitions::committed(run, thread, ids).run),
{
    let f = transitions::on_thread(transitions::fresh(run, ids), thread);
    match run.phase {
        TurnPhaseView::Starting { user_text } => {
            let traced = transitions::trace(
                f,
                TraceEventKindView::UserInput { text: user_text, response_to: None },
            );
            lemma_iterate(
                transitions::state(
                    traced,
                    TurnStateEventView::TurnStarted {
                        thread_id: f.run.thread_id,
                        turn_id: f.run.turn_id,
                    },
                ),
            );
        },
        TurnPhaseView::Requesting { text, calls } => {
            lemma_take_up(
                transitions::trace(
                    f,
                    TraceEventKindView::ModelResponse { text, function_calls: calls },
                ),
                calls,
                0,
            );
        },
        TurnPhaseView::RecordingCall { calls, index, entered, result } => {
            let call = calls[index as int];
            let skipped = transitions::later_calls(calls, index);
            match result {
                CallResultView::Completed { output } => {
                    lemma_leave(
                        transitions::trace_output(f, call, ToolResultView::Success { output }),
                        calls,
                        index,
                        entered,
                        result,
                    );
                },
                CallResultView::Failed { error } => {
                    lemma_leave(
                        transitions::trace_output(f, call, ToolResultView::Error { error }),
                        calls,
                        index,
                        entered,
                        result,
                    );
                },
                CallResultView::SuspendedBefore { suspension } => {
                    lemma_trace_skipped(f, skipped, skipped.len() as int);
                    lemma_settle(
                        transitions::trace_skipped(f, skipped, skipped.len() as int),
                        calls,
                        index,
                        result,
                    );
                },
                CallResultView::SuspendedAfter { suspension, output } => {
                    let g = transitions::trace_output(f, call, ToolResultView::Success { output });
                    lemma_trace_skipped(g, skipped, skipped.len() as int);
                    lemma_leave(
                        transitions::trace_skipped(g, skipped, skipped.len() as int),
                        calls,
                        index,
                        entered,
                        result,
                    );
                },
            }
        },
        _ => {},
    }
}

/// A turn starts with its invariant: nothing of it is unanswered. (The new turn's
/// identifier must not be taken, and a turn that goes on must be the running one
/// and have no open calls.)
pub proof fn law_turn_begins_well(
    request: TurnRequestView,
    loaded: Result<ThreadView, AgentErrorView>,
    ids: IdSource,
)
    requires
        transitions::begin(request, loaded, ids) is Ok,
        ({
            let thread = transitions::opened(request.thread_id, loaded, ids)->Ok_0;
            let active = projection::project(thread).active_turn_id;
            match request.user_text {
                Some(text) => events::turn_index(thread.turns, events::new_turn(ids).id) is None,
                None => has_turn(transitions::run_on(request, thread, active->0)) && turn_of(
                    transitions::run_on(request, thread, active->0),
                ).status == TurnStatus::Running && open_calls(
                    transitions::run_on(request, thread, active->0),
                ) == Multiset::<Seq<char>>::empty(),
            }
        }),
    ensures
        good(transitions::begin(request, loaded, ids)->Ok_0.run),
{
    let thread = transitions::opened(request.thread_id, loaded, ids)->Ok_0;
    match request.user_text {
        Some(text) => {
            let turn = transitions::prompted_turn(text, None, ids);
            let turns = thread.turns.push(turn);
            events::lemma_turn_index(thread.turns, turn.id);
            events::lemma_turn_index_is(turns, turn.id, turns.len() - 1);
            assert(turn.items.drop_last() =~= Seq::<TurnItemView>::empty());
            assert(answers::unanswered(Multiset::empty(), turn.items.drop_last()) == Multiset::<
                Seq<char>,
            >::empty());
        },
        None => {
            let turn_id = projection::project(thread).active_turn_id->0;
            let f = transitions::fresh(transitions::run_on(request, thread, turn_id), ids);
            lemma_iterate(
                transitions::state(
                    f,
                    TurnStateEventView::TurnStarted {
                        thread_id: f.run.thread_id,
                        turn_id: f.run.turn_id,
                    },
                ),
            );
        },
    }
}

/// Whenever the model is asked, every call that it made in this turn has an
/// answer, and the turn is still running.
pub proof fn law_model_sees_answers(run: TurnRunView, input: TurnInputView, ids: IdSource)
    requires
        good(run),
        faithful(run, input),
        input matches TurnInputView::ModelReplied(response) ==> transitions::reply_calls(
            response,
        ).len() <= usize::MAX,
        transitions::next(run, input, ids).action is CallModel,
    ensures
        open_calls(transitions::next(run, input, ids).run) == Multiset::<Seq<char>>::empty(),
        turn_of(transitions::next(run, input, ids).run).status == TurnStatus::Running,
{
    law_turn_invariant(run, input, ids);
}

/// What is stored at the end of a turn says how it ended.
pub proof fn law_stored_ending(run: TurnRunView, input: TurnInputView, ids: IdSource)
    requires
        good(run),
        faithful(run, input),
        input matches TurnInputView::ModelReplied(response) ==> transitions::reply_calls(
            response,
        ).len() <= usize::MAX,
    ensures
        ({
            let step = transitions::next(run, input, ids);
            step.run.phase matches TurnPhaseView::Finishing { outcome } ==> turn_of(
                step.run,
            ).status == status_for(outcome)
        }),
{
    law_turn_invariant(run, input, ids);
}

/// A thread that waits for a suspension takes no new prompt: nothing is stored,
/// and the suspension is named.
pub proof fn law_suspended_thread_refuses(
    request: TurnRequestView,
    thread: ThreadView,
    ids: IdSource,
)
    requires
        request.user_text is Some,
        projection::project(thread).pending_suspension is Some,
    ensures
        transitions::begin(request, Ok(thread), ids) == Err::<StepView, AgentErrorView>(
            AgentErrorView::SuspendedTurn {
                thread_id: request.thread_id,
                suspension_id: projection::project(thread).pending_suspension->0.suspension.id,
            },
        ),
{
}

// ---------------------------------------------------------------------------
// Order

/// A number that stops at the largest.
pub open spec fn capped(n: int) -> int {
    if n > u64::MAX {
        u64::MAX as int
    } else {
        n
    }
}

/// Trace events numbered on from `start`.
pub open spec fn numbered(start: u64, sequence: u64, traces: Seq<TraceEventView>) -> bool {
    &&& sequence == capped(start + traces.len())
    &&& forall|k: int|
        0 <= k < traces.len() ==> (#[trigger] traces[k]).sequence == capped(start + k + 1)
}

/// Whether an event says that a turn starts.
pub open spec fn opens(event: TurnStreamEventView) -> bool {
    event matches TurnStreamEventView::State(state) && state is TurnStarted
}

/// Whether an event says that a turn is over.
pub open spec fn closes(event: TurnStreamEventView) -> bool {
    event matches TurnStreamEventView::State(state) && state is TurnFinished
}

/// Whether the first `start` events say that a turn starts, and none after them
/// says that one starts or is over.
pub open spec fn quiet(events: Seq<TurnStreamEventView>, start: int) -> bool {
    &&& 0 <= start <= events.len()
    &&& forall|k: int| 0 <= k < start ==> opens(#[trigger] events[k])
    &&& forall|k: int|
        start <= k < events.len() ==> !opens(#[trigger] events[k]) && !closes(events[k])
}

/// Where a step starts from.
pub struct Ground {
    /// How many events of the step say that the turn starts.
    pub start: int,
    pub turns: Seq<TurnView>,
    pub turn_id: Seq<char>,
    pub sequence: u64,
    /// The tokens charged to the thread so far.
    pub charged: TokenUsage,
    /// The tokens of the turn so far.
    pub usage: TokenUsage,
    /// How often the model may be asked.
    pub limit: usize,
}

/// A flow that has kept what the turns held, numbered its trace and charged no
/// tokens yet.
pub open spec fn orderly(ground: Ground, f: FlowView) -> bool {
    &&& f.run.turn_id == ground.turn_id
    &&& quiet(f.events, ground.start)
    &&& recording::works_on(ground.turns, f.run.thread.turns, ground.turn_id)
    &&& numbered(ground.sequence, f.run.trace_sequence, f.traces)
    &&& f.run.thread.token_usage == ground.charged
    &&& f.run.usage == ground.usage
    &&& f.run.max_model_iterations == ground.limit
}

/// A step that has kept what the turns held, numbered its trace and charged the
/// tokens exactly when the turn ends.
pub open spec fn orderly_step(ground: Ground, step: StepView) -> bool {
    &&& step.run.turn_id == ground.turn_id
    &&& quiet(step.events, ground.start)
    &&& recording::works_on(ground.turns, step.run.thread.turns, ground.turn_id)
    &&& numbered(ground.sequence, step.run.trace_sequence, step.traces)
    &&& step.run.usage == ground.usage
    &&& step.run.max_model_iterations == ground.limit
    &&& step.run.thread.token_usage == if step.run.phase is Finishing {
        events::usage_sum(ground.charged, ground.usage)
    } else {
        ground.charged
    }
}

/// How often the model has been asked.
pub open spec fn asked(run: TurnRunView) -> int {
    match run.phase {
        TurnPhaseView::Starting { user_text } => run.iteration as int,
        TurnPhaseView::ReadingCache => run.iteration as int,
        TurnPhaseView::BuildingContext => run.iteration as int,
        TurnPhaseView::SavingCache { messages } => run.iteration as int,
        _ => run.iteration + 1,
    }
}

/// Whether a turn is about to end.
pub open spec fn ending(run: TurnRunView) -> bool {
    run.phase is Finishing || run.phase is Done
}

proof fn lemma_order_write(ground: Ground, f: FlowView, entries: Seq<EntryView>)
    requires
        orderly(ground, f),
    ensures
        transitions::write(f, entries) matches Some(g) ==> orderly(ground, g)
            && g.run.iteration == f.run.iteration && g.run.max_model_iterations
            == f.run.max_model_iterations,
{
    recording::law_recording_appends(
        f.run.thread,
        f.run.turn_id,
        entries,
        TurnStatus::Running,
        f.ids,
    );
    if let Some(g) = transitions::write(f, entries) {
        recording::lemma_works_chain(
            ground.turns,
            f.run.thread.turns,
            g.run.thread.turns,
            ground.turn_id,
        );
    }
}

proof fn lemma_order_close(
    ground: Ground,
    f: FlowView,
    entries: Seq<EntryView>,
    status: TurnStatus,
)
    requires
        orderly(ground, f),
    ensures
        transitions::close(f, entries, status) matches Some(g) ==> orderly(ground, g)
            && g.run.iteration == f.run.iteration && g.run.max_model_iterations
            == f.run.max_model_iterations,
{
    recording::law_recording_appends(f.run.thread, f.run.turn_id, entries, status, f.ids);
    if let Some(g) = transitions::close(f, entries, status) {
        recording::lemma_works_chain(
            ground.turns,
            f.run.thread.turns,
            g.run.thread.turns,
            ground.turn_id,
        );
    }
}

proof fn lemma_order_trace(ground: Ground, f: FlowView, kind: TraceEventKindView)
    requires
        orderly(ground, f),
    ensures
        orderly(ground, transitions::trace(f, kind)),
{
}

proof fn lemma_order_trace_skipped(
    ground: Ground,
    f: FlowView,
    calls: Seq<ModelFunctionCallView>,
    n: int,
)
    requires
        orderly(ground, f),
    ensures
        orderly(ground, transitions::trace_skipped(f, calls, n)),
    decreases n,
{
    if n > 0 {
        lemma_order_trace_skipped(ground, f, calls, n - 1);
        lemma_order_trace(
            ground,
            transitions::trace_skipped(f, calls, n - 1),
            TraceEventKindView::ToolOutput {
                call_id: calls[n - 1].call_id,
                name: calls[n - 1].name,
                result: transitions::skipped_result(),
            },
        );
    }
}

proof fn lemma_order_fail(ground: Ground, f: FlowView, error: Seq<char>)
    requires
        orderly(ground, f),
    ensures
        orderly_step(ground, transitions::fail(f, error)),
        ending(transitions::fail(f, error).run),
        !(transitions::fail(f, error).action is CallModel),
{
    lemma_order_close(ground, f, recording::failure(error), TurnStatus::Failed);
}

proof fn lemma_order_abort(ground: Ground, f: FlowView)
    requires
        orderly(ground, f),
    ensures
        orderly_step(ground, transitions::abort(f)),
        ending(transitions::abort(f).run),
        !(transitions::abort(f).action is CallModel),
{
    lemma_order_close(
        ground,
        f,
        recording::abortion(transitions::abort_reason()),
        TurnStatus::Aborted,
    );
}

proof fn lemma_order_iterate(ground: Ground, f: FlowView)
    requires
        orderly(ground, f),
    ensures
        orderly_step(ground, transitions::iterate(f)),
        ending(transitions::iterate(f).run) || asked(transitions::iterate(f).run)
            == f.run.iteration,
        !(transitions::iterate(f).action is CallModel),
{
    lemma_order_fail(
        ground,
        f,
        error::words(AgentErrorView::MaxIterations(f.run.max_model_iterations)),
    );
}

proof fn lemma_order_take_up(
    ground: Ground,
    f: FlowView,
    calls: Seq<ModelFunctionCallView>,
    index: int,
)
    requires
        orderly(ground, f),
        f.run.iteration < f.run.max_model_iterations,
    ensures
        orderly_step(ground, transitions::take_up(f, calls, index)),
        ending(transitions::take_up(f, calls, index).run) || asked(
            transitions::take_up(f, calls, index).run,
        ) == f.run.iteration + 1,
        !(transitions::take_up(f, calls, index).action is CallModel),
{
    if 0 <= index < calls.len() {
        let call = calls[index];
        let told = transitions::state(
            f,
            TurnStateEventView::FunctionStarted { call_id: call.call_id, name: call.name },
        );
        lemma_order_trace(
            ground,
            told,
            TraceEventKindView::FunctionCall {
                call_id: call.call_id,
                name: call.name,
                arguments: call.arguments,
            },
        );
    } else {
        let iteration = (f.run.iteration + 1) as usize;
        lemma_order_iterate(
            ground,
            FlowView { run: TurnRunView { iteration, ..f.run }, ..f },
        );
    }
}

proof fn lemma_order_replied(
    ground: Ground,
    f: FlowView,
    text: Option<Seq<char>>,
    calls: Seq<ModelFunctionCallView>,
)
    requires
        orderly(ground, f),
    ensures
        orderly_step(ground, transitions::replied(f, text, calls)),
        ending(transitions::replied(f, text, calls).run) || asked(
            transitions::replied(f, text, calls).run,
        ) == f.run.iteration + 1,
        !(transitions::replied(f, text, calls).action is CallModel),
{
    let told = transitions::announce(f, text);
    let entries = transitions::reply_entries(text, calls);
    lemma_order_fail(ground, f, transitions::empty_reply());
    lemma_order_close(ground, told, entries, TurnStatus::Completed);
    lemma_order_write(ground, told, entries);
}

proof fn lemma_order_record(
    ground: Ground,
    f: FlowView,
    calls: Seq<ModelFunctionCallView>,
    index: usize,
    entered: usize,
    effects: Seq<RuntimeEffectView>,
    result: CallResultView,
)
    requires
        orderly(ground, f),
    ensures
        ({
            let step = transitions::record(f, calls, index, entered, effects, result);
            &&& orderly_step(ground, step)
            &&& ending(step.run) || asked(step.run) == f.run.iteration + 1
            &&& !(step.action is CallModel)
        }),
{
    let entries = recording::effect_entries(f.run.thread, effects) + transitions::result_entries(
        calls,
        index,
        result,
    );
    lemma_order_close(ground, f, entries, TurnStatus::Suspended);
    lemma_order_write(ground, f, entries);
}

proof fn lemma_order_tell_skipped(
    ground: Ground,
    f: FlowView,
    calls: Seq<ModelFunctionCallView>,
    n: int,
)
    requires
        orderly(ground, f),
    ensures
        orderly(ground, transitions::tell_skipped(f, calls, n)),
    decreases n,
{
    if n > 0 {
        lemma_order_tell_skipped(ground, f, calls, n - 1);
    }
}

proof fn lemma_order_settle(
    ground: Ground,
    f: FlowView,
    calls: Seq<ModelFunctionCallView>,
    index: usize,
    result: CallResultView,
)
    requires
        orderly(ground, f),
        f.run.iteration < f.run.max_model_iterations,
    ensures
        ({
            let step = transitions::settle(f, calls, index, result);
            &&& orderly_step(ground, step)
            &&& ending(step.run) || asked(step.run) == f.run.iteration + 1
            &&& !(step.action is CallModel)
        }),
{
    let call = calls[index as int];
    let completed = transitions::state(
        f,
        TurnStateEventView::FunctionCompleted { call_id: call.call_id, name: call.name },
    );
    let skipped = transitions::later_calls(calls, index);
    match result {
        CallResultView::Completed { output } => {
            lemma_order_take_up(ground, completed, calls, index + 1);
        },
        CallResultView::Failed { error } => {
            lemma_order_take_up(
                ground,
                transitions::state(
                    f,
                    TurnStateEventView::FunctionFailed {
                        call_id: call.call_id,
                        name: call.name,
                        error,
                    },
                ),
                calls,
                index + 1,
            );
        },
        CallResultView::SuspendedBefore { suspension } => {
            lemma_tell_skipped(
                transitions::state(f, TurnStateEventView::Suspended { suspension }),
                skipped,
                skipped.len() as int,
            );
            lemma_order_tell_skipped(
                ground,
                transitions::state(f, TurnStateEventView::Suspended { suspension }),
                skipped,
                skipped.len() as int,
            );
        },
        CallResultView::SuspendedAfter { suspension, output } => {
            lemma_tell_skipped(
                transitions::state(completed, TurnStateEventView::Suspended { suspension }),
                skipped,
                skipped.len() as int,
            );
            lemma_order_tell_skipped(
                ground,
                transitions::state(completed, TurnStateEventView::Suspended { suspension }),
                skipped,
                skipped.len() as int,
            );
        },
    }
}

proof fn lemma_order_leave(
    ground: Ground,
    f: FlowView,
    calls: Seq<ModelFunctionCallView>,
    index: usize,
    remaining: usize,
    result: CallResultView,
)
    requires
        orderly(ground, f),
        f.run.iteration < f.run.max_model_iterations,
    ensures
        ({
            let step = transitions::leave(f, calls, index, remaining, result);
            &&& orderly_step(ground, step)
            &&& ending(step.run) || asked(step.run) == f.run.iteration + 1
            &&& !(step.action is CallModel)
        }),
{
    lemma_order_settle(ground, f, calls, index, result);
}

proof fn lemma_order_recorded(
    ground: Ground,
    f: FlowView,
    calls: Seq<ModelFunctionCallView>,
    index: usize,
    entered: usize,
    result: CallResultView,
)
    requires
        orderly(ground, f),
        f.run.iteration < f.run.max_model_iterations,
    ensures
        ({
            let step = transitions::recorded(f, calls, index, entered, result);
            &&& orderly_step(ground, step)
            &&& ending(step.run) || asked(step.run) == f.run.iteration + 1
            &&& !(step.action is CallModel)
        }),
{
    let call = calls[index as int];
    let skipped = transitions::later_calls(calls, index);
    match result {
        CallResultView::Completed { output } => {
            let g = transitions::trace_output(f, call, ToolResultView::Success { output });
            lemma_order_leave(ground, g, calls, index, entered, result);
        },
        CallResultView::Failed { error } => {
            let g = transitions::trace_output(f, call, ToolResultView::Error { error });
            lemma_order_leave(ground, g, calls, index, entered, result);
        },
        CallResultView::SuspendedBefore { suspension } => {
            let n = skipped.len() as int;
            lemma_trace_skipped(f, skipped, n);
            lemma_order_trace_skipped(ground, f, skipped, n);
            let g = transitions::trace_skipped(f, skipped, n);
            lemma_order_settle(ground, g, calls, index, result);
        },
        CallResultView::SuspendedAfter { suspension, output } => {
            let n = skipped.len() as int;
            let g = transitions::trace_output(f, call, ToolResultView::Success { output });
            lemma_trace_skipped(g, skipped, n);
            lemma_order_trace_skipped(ground, g, skipped, n);
            let h = transitions::trace_skipped(g, skipped, n);
            lemma_order_leave(ground, h, calls, index, entered, result);
        },
    }
}

/// The turns that a step starts from: those that the store hands back, or those
/// that were there.
pub open spec fn turns_before(run: TurnRunView, input: TurnInputView) -> Seq<TurnView> {
    match input {
        TurnInputView::Committed(thread) if run.phase is Starting || run.phase is Completing
            || run.phase is Requesting || run.phase is RecordingCall || run.phase is Finishing => {
            thread.turns
        },
        _ => run.thread.turns,
    }
}

/// How many events of a step say that the turn starts.
pub open spec fn openings(run: TurnRunView, input: TurnInputView) -> int {
    if run.phase is Starting && input is Committed {
        1
    } else {
        0
    }
}

/// Whether a step is the one in which a turn is stored and over.
pub open spec fn is_over(run: TurnRunView, input: TurnInputView) -> bool {
    run.phase is Finishing && input is Committed
}

/// The tokens charged to the thread that a step starts from.
pub open spec fn charged_before(run: TurnRunView, input: TurnInputView) -> TokenUsage {
    match input {
        TurnInputView::Committed(thread) => thread.token_usage,
        _ => run.thread.token_usage,
    }
}

/// In every step the settings and all other turns stay, items are only added at
/// the end of the turn, the trace is numbered without a gap, each request to
/// the model counts once, the tokens of the turn are charged when it ends,
/// once, and a caller hears that the turn starts or is over exactly where it
/// does.
pub proof fn law_step_order(run: TurnRunView, input: TurnInputView, ids: IdSource)
    requires
        good(run),
    ensures
        ({
            let step = transitions::next(run, input, ids);
            &&& step.run.max_model_iterations == run.max_model_iterations
            &&& step.run.turn_id == run.turn_id
            &&& if is_over(run, input) {
                &&& step.events.len() > 0
                &&& closes(step.events.last())
                &&& quiet(step.events.drop_last(), 0)
            } else {
                quiet(step.events, openings(run, input))
            }
            &&& recording::works_on(
                turns_before(run, input),
                step.run.thread.turns,
                run.turn_id,
            )
            &&& numbered(run.trace_sequence, step.run.trace_sequence, step.traces)
            &&& step.action is CallModel ==> asked(step.run) == asked(run) + 1
                && !ending(step.run)
            &&& !(step.action is CallModel) && !ending(step.run) ==> asked(step.run) == asked(run)
            &&& step.run.phase is Finishing && !(run.phase is Finishing)
                ==> step.run.thread.token_usage == events::usage_sum(
                charged_before(run, input),
                run.usage,
            )
        }),
{
    let f = transitions::fresh(run, ids);
    let ground = Ground {
        turns: turns_before(run, input),
        turn_id: run.turn_id,
        start: openings(run, input),
        sequence: run.trace_sequence,
        charged: charged_before(run, input),
        usage: run.usage,
        limit: run.max_model_iterations,
    };
    match input {
        TurnInputView::Committed(thread) => {
            let g = transitions::on_thread(f, thread);
            match run.phase {
                TurnPhaseView::Starting { user_text } => {
                    let traced = transitions::trace(
                        g,
                        TraceEventKindView::UserInput { text: user_text, response_to: None },
                    );
                    lemma_order_iterate(
                        ground,
                        transitions::state(
                            traced,
                            TurnStateEventView::TurnStarted {
                                thread_id: run.thread_id,
                                turn_id: run.turn_id,
                            },
                        ),
                    );
                },
                TurnPhaseView::Completing { text } => {
                    lemma_order_trace(
                        ground,
                        g,
                        TraceEventKindView::ModelResponse {
                            text: Some(text),
                            function_calls: Seq::empty(),
                        },
                    );
                },
                TurnPhaseView::Requesting { text, calls } => {
                    lemma_order_take_up(
                        ground,
                        transitions::trace(
                            g,
                            TraceEventKindView::ModelResponse { text, function_calls: calls },
                        ),
                        calls,
                        0,
                    );
                },
                TurnPhaseView::RecordingCall { calls, index, entered, result } => {
                    lemma_order_recorded(ground, g, calls, index, entered, result);
                },
                TurnPhaseView::Finishing { outcome } => {
                    lemma_order_trace(
                        ground,
                        g,
                        TraceEventKindView::TurnFinished {
                            status: transitions::trace_status(outcome),
                        },
                    );
                },
                _ => {},
            }
        },
        TurnInputView::ModelReplied(response) => {
            lemma_order_replied(
                ground,
                f,
                transitions::reply_text(response),
                transitions::reply_calls(response),
            );
        },
        TurnInputView::ModelFailed(e) => {
            lemma_order_fail(ground, f, error::words(e));
        },
        TurnInputView::HookPassed => {
            if let TurnPhaseView::AfterHooks { calls, index, remaining, result } = run.phase {
                lemma_order_leave(ground, f, calls, index, (remaining - 1) as usize, result);
            }
        },
        TurnInputView::HookFailed(e) => {
            let failed = CallResultView::Failed { error: error::words(e) };
            match run.phase {
                TurnPhaseView::BeforeHooks { calls, index, entered } => {
                    lemma_order_record(
                        ground,
                        f,
                        calls,
                        index,
                        entered,
                        Seq::empty(),
                        failed,
                    );
                },
                TurnPhaseView::AfterHooks { calls, index, remaining, result } => {
                    let event = transitions::hook_failure(calls[index as int], error::words(e));
                    lemma_order_leave(
                        ground,
                        transitions::emit(f, TurnStreamEventView::Runtime(event)),
                        calls,
                        index,
                        (remaining - 1) as usize,
                        result,
                    );
                },
                _ => {},
            }
        },
        TurnInputView::FunctionReturned(execution) => {
            if let TurnPhaseView::Executing { calls, index, entered } = run.phase {
                lemma_order_record(
                    ground,
                    f,
                    calls,
                    index,
                    entered,
                    transitions::effects_of(execution),
                    transitions::result_of(execution),
                );
            }
        },
        TurnInputView::FunctionFailed(e) => {
            if let TurnPhaseView::Executing { calls, index, entered } = run.phase {
                lemma_order_record(
                    ground,
                    f,
                    calls,
                    index,
                    entered,
                    Seq::empty(),
                    CallResultView::Failed { error: error::words(e) },
                );
            }
        },
        TurnInputView::Aborted => {
            lemma_order_abort(ground, f);
        },
        _ => {},
    }
}

/// The model is asked at most as often as the settings allow.
pub proof fn law_requests_bounded(run: TurnRunView, input: TurnInputView, ids: IdSource)
    requires
        good(run),
        transitions::next(run, input, ids).action is CallModel,
    ensures
        asked(transitions::next(run, input, ids).run) <= run.max_model_iterations,
{
}

/// A turn after the given inputs, each with the identifiers at that time.
pub open spec fn played(
    run: TurnRunView,
    inputs: Seq<(TurnInputView, IdSource)>,
) -> TurnRunView
    decreases inputs.len(),
{
    if inputs.len() == 0 {
        run
    } else {
        let (input, ids) = inputs.last();
        transitions::next(played(run, inputs.drop_last()), input, ids).run
    }
}

/// How often the given inputs make a turn ask the model.
pub open spec fn requests(run: TurnRunView, inputs: Seq<(TurnInputView, IdSource)>) -> nat
    decreases inputs.len(),
{
    if inputs.len() == 0 {
        0
    } else {
        let (input, ids) = inputs.last();
        requests(run, inputs.drop_last()) + if transitions::next(
            played(run, inputs.drop_last()),
            input,
            ids,
        ).action is CallModel {
            1nat
        } else {
            0nat
        }
    }
}

/// Whether the store hands back the turns that it is sent, whenever it is, and
/// the calls of every answer fit into memory.
pub open spec fn acceptable(run: TurnRunView, inputs: Seq<(TurnInputView, IdSource)>) -> bool
    decreases inputs.len(),
{
    inputs.len() > 0 ==> {
        let input = inputs.last().0;
        &&& acceptable(run, inputs.drop_last())
        &&& faithful(played(run, inputs.drop_last()), input)
        &&& input matches TurnInputView::ModelReplied(response) ==> transitions::reply_calls(
            response,
        ).len() <= usize::MAX
    }
}

proof fn lemma_ending_stays(run: TurnRunView, input: TurnInputView, ids: IdSource)
    requires
        ending(run),
    ensures
        ending(transitions::next(run, input, ids).run),
        !(transitions::next(run, input, ids).action is CallModel),
{
}

/// Over a whole turn, whatever comes in: the turn keeps its invariant, items are
/// only added to its thread, and the model is asked no more often than the
/// settings allow.
pub proof fn law_whole_turn(run: TurnRunView, inputs: Seq<(TurnInputView, IdSource)>)
    requires
        good(run),
        acceptable(run, inputs),
    ensures
        good(played(run, inputs)),
        recording::works_on(run.thread.turns, played(run, inputs).thread.turns, run.turn_id),
        played(run, inputs).turn_id == run.turn_id,
        requests(run, inputs) > 0 ==> asked(run) + requests(run, inputs)
            <= run.max_model_iterations,
        played(run, inputs).max_model_iterations == run.max_model_iterations,
        !ending(played(run, inputs)) ==> asked(played(run, inputs)) == asked(run) + requests(
            run,
            inputs,
        ),
    decreases inputs.len(),
{
    if inputs.len() > 0 {
        let before = played(run, inputs.drop_last());
        let (input, ids) = inputs.last();
        let step = transitions::next(before, input, ids);
        law_whole_turn(run, inputs.drop_last());
        law_turn_invariant(before, input, ids);
        law_step_order(before, input, ids);
        if ending(before) {
            lemma_ending_stays(before, input, ids);
        }
        if step.action is CallModel {
            law_requests_bounded(before, input, ids);
        }
        assert(turns_before(before, input) == before.thread.turns);
        recording::lemma_works_chain(
            run.thread.turns,
            before.thread.turns,
            step.run.thread.turns,
            run.turn_id,
        );
    }
}

/// All that a caller hears while the given inputs come in.
pub open spec fn told(
    run: TurnRunView,
    inputs: Seq<(TurnInputView, IdSource)>,
) -> Seq<TurnStreamEventView>
    decreases inputs.len(),
{
    if inputs.len() == 0 {
        Seq::empty()
    } else {
        let (input, ids) = inputs.last();
        told(run, inputs.drop_last()) + transitions::next(
            played(run, inputs.drop_last()),
            input,
            ids,
        ).events
    }
}

/// What comes of a turn while the given inputs come in, once it is over.
pub open spec fn outcome_of(
    run: TurnRunView,
    inputs: Seq<(TurnInputView, IdSource)>,
) -> Option<TurnOutcomeView>
    decreases inputs.len(),
{
    if inputs.len() == 0 {
        None
    } else {
        let (input, ids) = inputs.last();
        match transitions::next(played(run, inputs.drop_last()), input, ids).action {
            TurnActionView::Finish(outcome) => Some(outcome),
            _ => outcome_of(run, inputs.drop_last()),
        }
    }
}

proof fn lemma_where_a_step_leads(run: TurnRunView, input: TurnInputView, ids: IdSource)
    ensures
        !(transitions::next(run, input, ids).run.phase is Starting) || (run.phase is Starting
            && !(input is Committed)),
        transitions::next(run, input, ids).action is Finish ==> is_over(run, input),
{
}

proof fn lemma_bounds_of_a_step(run: TurnRunView, input: TurnInputView, ids: IdSource)
    requires
        good(run),
    ensures
        ({
            let step = transitions::next(run, input, ids);
            &&& run.phase is Done ==> step.run.phase is Done && step.events.len() == 0
                && !(step.action is Finish)
            &&& step.run.phase is Starting ==> run.phase is Starting && step.events.len() == 0
                && !(input is Committed)
            &&& run.phase is Starting && !(input is Committed) ==> step.events.len() == 0
                && (step.run.phase is Starting || step.run.phase is Done)
            &&& step.action is Finish <==> is_over(run, input)
            &&& is_over(run, input) ==> step.run.phase is Done && step.events.last()
                == TurnStreamEventView::State(
                TurnStateEventView::TurnFinished { outcome: step.action->Finish_0 },
            )
        }),
{
    law_step_order(run, input, ids);
    lemma_where_a_step_leads(run, input, ids);
}

/// Over a whole turn, whatever comes in: the first thing that a caller hears is
/// that the turn starts, and that is said once; the last is what came of the turn,
/// and that is said once, when it is over.
pub proof fn law_turn_is_told(run: TurnRunView, inputs: Seq<(TurnInputView, IdSource)>)
    requires
        good(run),
        run.phase is Starting,
        acceptable(run, inputs),
    ensures
        played(run, inputs).phase is Starting ==> told(run, inputs).len() == 0,
        forall|k: int|
            0 <= k < told(run, inputs).len() ==> (opens(#[trigger] told(run, inputs)[k]) <==> k
                == 0),
        forall|k: int|
            0 <= k < told(run, inputs).len() && closes(#[trigger] told(run, inputs)[k]) ==> k
                == told(run, inputs).len() - 1 && outcome_of(run, inputs) is Some,
        outcome_of(run, inputs) matches Some(outcome) ==> {
            &&& played(run, inputs).phase is Done
            &&& told(run, inputs).len() > 1
            &&& told(run, inputs).last() == TurnStreamEventView::State(
                TurnStateEventView::TurnFinished { outcome },
            )
        },
        !(played(run, inputs).phase is Starting) && !(played(run, inputs).phase is Done)
            ==> told(run, inputs).len() > 0,
    decreases inputs.len(),
{
    if inputs.len() > 0 {
        let rest = inputs.drop_last();
        let before = played(run, rest);
        let (input, ids) = inputs.last();
        let step = transitions::next(before, input, ids);
        let heard = told(run, rest);
        let all = told(run, inputs);
        law_turn_is_told(run, rest);
        law_whole_turn(run, rest);
        law_step_order(before, input, ids);
        lemma_bounds_of_a_step(before, input, ids);
        assert(all == heard + step.events);
        assert forall|k: int| 0 <= k < all.len() implies (opens(#[trigger] all[k]) <==> k == 0) by {
            if k < heard.len() {
                assert(all[k] == heard[k]);
            } else {
                let at = k - heard.len();
                assert(all[k] == step.events[at]);
                if is_over(before, input) && at < step.events.len() - 1 {
                    assert(step.events.drop_last()[at] == step.events[at]);
                }
            }
        }
        assert forall|k: int| 0 <= k < all.len() && closes(#[trigger] all[k]) implies k
            == all.len() - 1 && outcome_of(run, inputs) is Some by {
            if k < heard.len() {
                assert(all[k] == heard[k]);
            } else {
                let at = k - heard.len();
                assert(all[k] == step.events[at]);
                if is_over(before, input) && at < step.events.len() - 1 {
                    assert(step.events.drop_last()[at] == step.events[at]);
                }
            }
        }
    }
}

/// A prompt gains a thread exactly one turn, at its end, that starts with what the
/// user said; whatever comes in, the turns before it stay as they were, the model
/// is asked no more often than the settings allow, and the caller hears first that
/// the turn starts and last what came of it. (The new turn's identifier must not be
/// taken.)
pub proof fn law_prompted_turn(
    request: TurnRequestView,
    loaded: Result<ThreadView, AgentErrorView>,
    ids: IdSource,
    inputs: Seq<(TurnInputView, IdSource)>,
)
    requires
        request.user_text is Some,
        transitions::begin(request, loaded, ids) is Ok,
        events::turn_index(
            transitions::opened(request.thread_id, loaded, ids)->Ok_0.turns,
            events::new_turn(ids).id,
        ) is None,
        acceptable(transitions::begin(request, loaded, ids)->Ok_0.run, inputs),
    ensures
        ({
            let before = transitions::opened(request.thread_id, loaded, ids)->Ok_0.turns;
            let run = transitions::begin(request, loaded, ids)->Ok_0.run;
            let after = played(run, inputs).thread.turns;
            let all = told(run, inputs);
            &&& after.len() == before.len() + 1
            &&& after.drop_last() == before
            &&& after.last().id == events::new_turn(ids).id
            &&& transitions::prompted_turn(request.user_text->0, None, ids).items.is_prefix_of(
                after.last().items,
            )
            &&& requests(run, inputs) <= request.max_model_iterations
            &&& forall|k: int| 0 <= k < all.len() ==> (opens(#[trigger] all[k]) <==> k == 0)
            &&& forall|k: int|
                0 <= k < all.len() && closes(#[trigger] all[k]) ==> k == all.len() - 1
            &&& outcome_of(run, inputs) matches Some(outcome) ==> all.len() > 1 && all.last()
                == TurnStreamEventView::State(TurnStateEventView::TurnFinished { outcome })
        }),
{
    let before = transitions::opened(request.thread_id, loaded, ids)->Ok_0.turns;
    let run = transitions::begin(request, loaded, ids)->Ok_0.run;
    let after = played(run, inputs).thread.turns;
    law_turn_begins_well(request, loaded, ids);
    law_whole_turn(run, inputs);
    law_turn_is_told(run, inputs);
    events::lemma_turn_index(before, events::new_turn(ids).id);
    assert forall|j: int| 0 <= j < before.len() implies before[j] == after[j] by {
        assert(run.thread.turns[j] == before[j]);
        assert(run.thread.turns[j].id != run.turn_id);
    }
    assert(after.drop_last() =~= before);
    assert(run.thread.turns[before.len() as int].id == run.turn_id);
}

/// The step in which a turn that is about to read its cache asks the model.
pub open spec fn question(
    run: TurnRunView,
    cache: Option<ThreadContextCacheView>,
    context: ContextBuildOutputView,
    times: Seq<IdSource>,
) -> StepView {
    let read = transitions::next(run, TurnInputView::CacheLoaded(cache), times[0]);
    let built = transitions::next(read.run, TurnInputView::ContextBuilt(context), times[1]);
    if context.cache is Some {
        transitions::next(built.run, TurnInputView::CacheSaved, times[2])
    } else {
        built
    }
}

/// A model that is asked and answers with text alone ends the turn: its answer is
/// recorded, the turn is stored as completed, and the text is what comes of it.
/// (The store must hand back the turns that it is sent.)
pub proof fn law_text_answer_completes(
    run: TurnRunView,
    cache: Option<ThreadContextCacheView>,
    context: ContextBuildOutputView,
    response: ModelResponseView,
    kept: ThreadView,
    done: ThreadView,
    times: Seq<IdSource>,
)
    requires
        run.phase is ReadingCache,
        has_turn(run),
        transitions::reply_text(response) is Some,
        transitions::reply_calls(response).len() == 0,
        ({
            let asking = question(run, cache, context, times);
            let answered = transitions::next(
                asking.run,
                TurnInputView::ModelReplied(response),
                times[3],
            );
            let stored = transitions::next(
                answered.run,
                TurnInputView::Committed(kept),
                times[4],
            );
            kept.turns == answered.run.thread.turns && done.turns == stored.run.thread.turns
        }),
    ensures
        ({
            let text = transitions::reply_text(response);
            let asking = question(run, cache, context, times);
            let answered = transitions::next(
                asking.run,
                TurnInputView::ModelReplied(response),
                times[3],
            );
            let stored = transitions::next(
                answered.run,
                TurnInputView::Committed(kept),
                times[4],
            );
            let finished = transitions::next(
                stored.run,
                TurnInputView::Committed(done),
                times[5],
            );
            &&& asking.action == TurnActionView::CallModel(
                ModelRequestView { messages: context.messages, functions: run.functions },
            )
            &&& answered.action == TurnActionView::Commit(answered.run.thread)
            &&& stored.action == TurnActionView::Commit(stored.run.thread)
            &&& finished.action == TurnActionView::Finish(
                TurnOutcomeView::AssistantMessage { text: text->0 },
            )
            &&& finished.run.turn_id == run.turn_id
            &&& has_turn(finished.run)
            &&& turn_of(finished.run).status == TurnStatus::Completed
            &&& turn_of(finished.run).items == turn_of(run).items + recording::items_for(
                transitions::reply_entries(text, Seq::empty()),
                times[3],
            )
        }),
{
    let text = transitions::reply_text(response);
    let calls = transitions::reply_calls(response);
    let entries = transitions::reply_entries(text, calls);
    assert(calls =~= Seq::<ModelFunctionCallView>::empty());
    events::lemma_turn_index(run.thread.turns, run.turn_id);
    recording::lemma_ending_found(
        run.thread,
        run.turn_id,
        entries,
        TurnStatus::Completed,
        times[3],
    );
    let i = events::turn_index(run.thread.turns, run.turn_id)->0;
    let turn = events::with_status(
        recording::turn_with(run.thread.turns[i], entries, times[3]),
        TurnStatus::Completed,
        times[3],
    );
    let turns = run.thread.turns.update(i, turn);
    assert forall|j: int| 0 <= j < i implies (#[trigger] turns[j]).id != run.turn_id by {
        assert(turns[j] == run.thread.turns[j]);
    }
    events::lemma_turn_index_is(turns, run.turn_id, i);
}

/// Hooks are asked before a call in their order; a call runs only when all have
/// passed it.
pub proof fn law_hooks_before(run: TurnRunView, ids: IdSource)
    requires
        good(run),
        run.phase is BeforeHooks,
    ensures
        ({
            let entered = run.phase->BeforeHooks_entered;
            let action = transitions::next(run, TurnInputView::HookPassed, ids).action;
            if entered + 1 < run.hook_count {
                action is BeforeHook && action->BeforeHook_hook == entered + 1
            } else {
                action is CallFunction
            }
        }),
{
}

/// A hook that refuses a call keeps it from running, and is not among the hooks
/// that see the result.
pub proof fn law_hook_refuses(run: TurnRunView, e: AgentErrorView, ids: IdSource)
    requires
        good(run),
        run.phase is BeforeHooks,
    ensures
        ({
            let step = transitions::next(run, TurnInputView::HookFailed(e), ids);
            &&& step.action is Commit
            &&& step.run.phase == (TurnPhaseView::RecordingCall {
                calls: run.phase->BeforeHooks_calls,
                index: run.phase->BeforeHooks_index,
                entered: run.phase->BeforeHooks_entered,
                result: CallResultView::Failed { error: error::words(e) },
            })
        }),
{
    let entries = recording::effect_entries(run.thread, Seq::empty()) + transitions::result_entries(
        run.phase->BeforeHooks_calls,
        run.phase->BeforeHooks_index,
        CallResultView::Failed { error: error::words(e) },
    );
    lemma_write(transitions::fresh(run, ids), entries);
}

/// The hooks that passed a call see its result in the opposite order, each once,
/// whether or not one of them fails.
pub proof fn law_hooks_after(run: TurnRunView, input: TurnInputView, ids: IdSource)
    requires
        good(run),
        run.phase is AfterHooks,
        input is HookPassed || input is HookFailed,
    ensures
        ({
            let remaining = run.phase->AfterHooks_remaining;
            let step = transitions::next(run, input, ids);
            if remaining > 1 {
                step.action is AfterHook && step.action->AfterHook_hook == remaining - 2
            } else {
                !(step.action is AfterHook)
            }
        }),
{
}

/// The last thing that a caller hears of a turn is how it ended.
pub proof fn law_ending_is_told_last(run: TurnRunView, input: TurnInputView, ids: IdSource)
    requires
        transitions::next(run, input, ids).action is Finish,
    ensures
        ({
            let step = transitions::next(run, input, ids);
            &&& step.run.phase is Done
            &&& step.events.len() > 0
            &&& step.events.last() == TurnStreamEventView::State(
                TurnStateEventView::TurnFinished { outcome: step.action->Finish_0 },
            )
            &&& step.traces.len() == 1
            &&& step.traces[0].kind == (TraceEventKindView::TurnFinished {
                status: transitions::trace_status(step.action->Finish_0),
            })
        }),
{
}

} // verus!
