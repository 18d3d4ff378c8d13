//! How a suspended turn is taken up again.
use crate::error::{self, AgentError, AgentErrorView};
use crate::ids::{self, IdSource};
use crate::json::{self, copy_of, get_bool, get_text, Json};
use crate::kernel::events::{
    self, Thread, ThreadView, ToolResult, ToolResultView, TurnItem, TurnItemKind, TurnItemKindView,
    TurnItemSource, TurnItemView, TurnStatus, TurnView,
};
use crate::kernel::model::{ModelFunctionCall, ModelFunctionCallView, ModelResponseView};
use crate::kernel::projection::{self, PendingSuspension, PendingSuspensionView, ThreadProjection};
use crate::runtime::agent_loop::{TurnOutcome, TurnOutcomeView, TurnStateEvent, TurnStateEventView};
use crate::runtime::context::ContextBuildOutputView;
use crate::runtime::functions::{
    FunctionCallExecution, FunctionCallExecutionView, FunctionContext, FunctionContextView,
    SuspensionResolution, SuspensionResolutionView,
};
use crate::runtime::recording::{
    self, abort_turn, apply_runtime_effects, end_turn, Entry, EntryView,
};
use crate::runtime::store::ThreadContextCacheView;
use crate::runtime::turn::laws;
use crate::runtime::turn::machine::output_entry;
use crate::runtime::turn::parts::{TurnActionView, TurnInputView, TurnRequestView};
use crate::runtime::turn::transitions;
use crate::text::{joined, text_eq};
use crate::views;
use serde_json::Value;
use vstd::prelude::*;

verus! {

/// What the resumption of a turn waits for.
#[derive(Debug, PartialEq)]
pub enum ResumePhase {
    /// The resumed turn is being stored; the news are told after.
    Storing { news: Option<TurnStateEvent> },
    /// The approved function runs.
    Executing { call: ModelFunctionCall },
    Done,
}

/// What a `ResumePhase` holds.
#[verifier::ext_equal]
pub enum ResumePhaseView {
    Storing { news: Option<TurnStateEventView> },
    Executing { call: ModelFunctionCallView },
    Done,
}

impl View for ResumePhase {
    type V = ResumePhaseView;

    open spec fn view(&self) -> ResumePhaseView {
        match *self {
            ResumePhase::Storing { news } => ResumePhaseView::Storing { news: views::opt(news) },
            ResumePhase::Executing { call } => ResumePhaseView::Executing { call: call@ },
            ResumePhase::Done => ResumePhaseView::Done,
        }
    }
}

impl Clone for ResumePhase {
    fn clone(&self) -> (r: Self)
        ensures
            r@ == self@,
    {
        match self {
            ResumePhase::Storing { news } => {
                let copy_news = news.clone();
                assert(views::opt(copy_news) =~= views::opt((*news)));
                ResumePhase::Storing { news: copy_news }
            },
            ResumePhase::Executing { call } => ResumePhase::Executing { call: call.clone() },
            ResumePhase::Done => ResumePhase::Done,
        }
    }
}

/// What came of an action.
#[derive(Debug, PartialEq)]
pub enum ResumeInput {
    /// The store took the thread.
    Committed,
    FunctionReturned(FunctionCallExecution),
    FunctionFailed(AgentError),
    /// The caller wants the turn to stop.
    Aborted,
    /// The store failed.
    Failed(AgentError),
}

/// What a `ResumeInput` holds.
#[verifier::ext_equal]
pub enum ResumeInputView {
    Committed,
    FunctionReturned(FunctionCallExecutionView),
    FunctionFailed(AgentErrorView),
    Aborted,
    Failed(AgentErrorView),
}

impl View for ResumeInput {
    type V = ResumeInputView;

    open spec fn view(&self) -> ResumeInputView {
        match *self {
            ResumeInput::Committed => ResumeInputView::Committed,
            ResumeInput::FunctionReturned(inner) => ResumeInputView::FunctionReturned(inner@),
            ResumeInput::FunctionFailed(inner) => ResumeInputView::FunctionFailed(inner@),
            ResumeInput::Aborted => ResumeInputView::Aborted,
            ResumeInput::Failed(inner) => ResumeInputView::Failed(inner@),
        }
    }
}

impl Clone for ResumeInput {
    fn clone(&self) -> (r: Self)
        ensures
            r@ == self@,
    {
        match self {
            ResumeInput::Committed => ResumeInput::Committed,
            ResumeInput::FunctionReturned(inner) => ResumeInput::FunctionReturned(inner.clone()),
            ResumeInput::FunctionFailed(inner) => ResumeInput::FunctionFailed(inner.clone()),
            ResumeInput::Aborted => ResumeInput::Aborted,
            ResumeInput::Failed(inner) => ResumeInput::Failed(inner.clone()),
        }
    }
}

/// What is to be done next.
#[derive(Debug, PartialEq)]
pub enum ResumeAction {
    /// Store the thread.
    Commit(Thread),
    CallFunction { name: String, arguments: Value, context: FunctionContext },
    /// Let the resumed turn go on.
    Continue,
    /// Nothing new: the last action still stands.
    Wait,
    /// The turn stops here.
    Finish(TurnOutcome),
    /// The turn cannot be resumed.
    Fail(AgentError),
}

/// What a `ResumeAction` holds.
#[verifier::ext_equal]
pub enum ResumeActionView {
    Commit(ThreadView),
    CallFunction { name: Seq<char>, arguments: Json, context: FunctionContextView },
    Continue,
    Wait,
    Finish(TurnOutcomeView),
    Fail(AgentErrorView),
}

impl View for ResumeAction {
    type V = ResumeActionView;

    open spec fn view(&self) -> ResumeActionView {
        match *self {
            ResumeAction::Commit(inner) => ResumeActionView::Commit(inner@),
            ResumeAction::CallFunction { name, arguments, context } => {
                ResumeActionView::CallFunction {
                    name: name@,
                    arguments: json::of(arguments),
                    context: context@,
                }
            },
            ResumeAction::Continue => ResumeActionView::Continue,
            ResumeAction::Wait => ResumeActionView::Wait,
            ResumeAction::Finish(inner) => ResumeActionView::Finish(inner@),
            ResumeAction::Fail(inner) => ResumeActionView::Fail(inner@),
        }
    }
}

impl Clone for ResumeAction {
    fn clone(&self) -> (r: Self)
        ensures
            r@ == self@,
    {
        match self {
            ResumeAction::Commit(inner) => ResumeAction::Commit(inner.clone()),
            ResumeAction::CallFunction { name, arguments, context } => ResumeAction::CallFunction {
                name: name.clone(),
                arguments: copy_of(arguments),
                context: context.clone(),
            },
            ResumeAction::Continue => ResumeAction::Continue,
            ResumeAction::Wait => ResumeAction::Wait,
            ResumeAction::Finish(inner) => ResumeAction::Finish(inner.clone()),
            ResumeAction::Fail(inner) => ResumeAction::Fail(inner.clone()),
        }
    }
}

/// A suspended turn that is being resumed.
#[derive(Debug, PartialEq)]
pub struct ResumeRun {
    pub thread: Thread,
    pub turn_id: String,
    pub phase: ResumePhase,
}

/// What a `ResumeRun` holds.
#[verifier::ext_equal]
pub struct ResumeRunView {
    pub thread: ThreadView,
    pub turn_id: Seq<char>,
    pub phase: ResumePhaseView,
}

impl View for ResumeRun {
    type V = ResumeRunView;

    open spec fn view(&self) -> ResumeRunView {
        ResumeRunView {
            thread: self.thread@,
            turn_id: self.turn_id@,
            phase: self.phase@,
        }
    }
}

impl Clone for ResumeRun {
    fn clone(&self) -> (r: Self)
        ensures
            r@ == self@,
    {
        ResumeRun {
            thread: self.thread.clone(),
            turn_id: self.turn_id.clone(),
            phase: self.phase.clone(),
        }
    }
}

/// What a step leads to.
#[derive(Debug)]
pub struct ResumeStep {
    pub run: ResumeRun,
    pub action: ResumeAction,
    /// What the caller is told, in order, before the action is taken.
    pub events: Vec<TurnStateEvent>,
    pub ids: IdSource,
}

/// What a `ResumeStep` holds.
#[verifier::ext_equal]
pub struct ResumeStepView {
    pub run: ResumeRunView,
    pub action: ResumeActionView,
    pub events: Seq<TurnStateEventView>,
    pub ids: IdSource,
}

impl View for ResumeStep {
    type V = ResumeStepView;

    open spec fn view(&self) -> ResumeStepView {
        ResumeStepView {
            run: self.run@,
            action: self.action@,
            events: views::all(self.events@),
            ids: self.ids,
        }
    }
}

// ---------------------------------------------------------------------------
// What a resumption does

/// Why a resumption is refused.
pub open spec fn refusal(message: Seq<char>) -> AgentErrorView {
    AgentErrorView::Function { name: "resume_suspended_turn"@, message }
}

/// Whether a suspension stopped its call before it ran.
pub open spec fn deferred(payload: Json) -> bool {
    json::bool_field(payload, "deferred"@) == Some(true)
}

/// The first call with an identifier.
pub open spec fn first_call(
    calls: Seq<ModelFunctionCallView>,
    call_id: Seq<char>,
) -> Option<ModelFunctionCallView>
    decreases calls.len(),
{
    if calls.len() == 0 {
        None
    } else if calls[0].call_id == call_id {
        Some(calls[0])
    } else {
        first_call(calls.skip(1), call_id)
    }
}

/// The call with an identifier, in the latest answer that has it.
pub open spec fn latest_call(
    items: Seq<TurnItemView>,
    call_id: Seq<char>,
) -> Option<ModelFunctionCallView>
    decreases items.len(),
{
    if items.len() == 0 {
        None
    } else {
        let here = match items.last().kind {
            TurnItemKindView::ModelResponse { text, function_calls } => first_call(
                function_calls,
                call_id,
            ),
            _ => None,
        };
        if here is Some {
            here
        } else {
            latest_call(items.drop_last(), call_id)
        }
    }
}

/// The call that a suspension stopped, or why it cannot be resumed.
pub open spec fn stopped_call(
    thread: ThreadView,
    pending: PendingSuspensionView,
) -> Result<ModelFunctionCallView, AgentErrorView> {
    match json::text_field(pending.suspension.payload, "call_id"@) {
        None => Err(refusal("suspension does not identify a resumable call"@)),
        Some(call_id) => {
            let call = match events::turn_index(thread.turns, pending.turn_id) {
                Some(i) => latest_call(thread.turns[i].items, call_id),
                None => None,
            };
            match call {
                None => Err(refusal("suspended function call was not found"@)),
                Some(call) => if deferred(pending.suspension.payload) {
                    Ok(call)
                } else {
                    Err(
                        refusal(
                            "approval or denial can only resume a pre-execution suspension"@,
                        ),
                    )
                },
            }
        },
    }
}

/// The suspension that the thread waits for, if it is the one that was named.
pub open spec fn named_suspension(
    thread: ThreadView,
    suspension_id: Seq<char>,
) -> Result<PendingSuspensionView, AgentErrorView> {
    match projection::project(thread).pending_suspension {
        Some(pending) => if pending.suspension.id == suspension_id {
            Ok(pending)
        } else {
            Err(AgentErrorView::TurnNotFound(suspension_id))
        },
        None => Err(AgentErrorView::TurnNotFound(suspension_id)),
    }
}

/// A step that ends a resumption.
pub open spec fn stop(
    run: ResumeRunView,
    action: ResumeActionView,
    ids: IdSource,
) -> ResumeStepView {
    ResumeStepView {
        run: ResumeRunView { phase: ResumePhaseView::Done, ..run },
        action,
        events: Seq::empty(),
        ids,
    }
}

/// Records `entries` in the suspended turn, sets it running again and stores it.
pub open spec fn store(
    run: ResumeRunView,
    entries: Seq<EntryView>,
    news: Option<TurnStateEventView>,
    ids: IdSource,
) -> ResumeStepView {
    let counted = ids::after(ids, entries.len());
    match recording::with_ending(run.thread, run.turn_id, entries, TurnStatus::Running, ids) {
        Some(thread) => ResumeStepView {
            run: ResumeRunView { thread, phase: ResumePhaseView::Storing { news }, ..run },
            action: ResumeActionView::Commit(thread),
            events: Seq::empty(),
            ids: counted,
        },
        None => stop(
            run,
            ResumeActionView::Fail(AgentErrorView::TurnNotFound(run.turn_id)),
            counted,
        ),
    }
}

/// The entry for an answer of the user.
pub open spec fn answer_entry(text: Seq<char>, suspension_id: Seq<char>) -> EntryView {
    EntryView {
        source: TurnItemSource::User,
        kind: TurnItemKindView::UserInput { text, response_to: Some(suspension_id) },
    }
}

/// What a denied call gets for an answer.
pub open spec fn denial(reason: Seq<char>) -> Seq<char> {
    "execution denied by user: "@ + reason
}

/// Records that a call failed, and lets the turn go on.
pub open spec fn store_failure(
    run: ResumeRunView,
    call: ModelFunctionCallView,
    error: Seq<char>,
    ids: IdSource,
) -> ResumeStepView {
    store(
        run,
        seq![transitions::output_entry(call, ToolResultView::Error { error })],
        Some(
            TurnStateEventView::FunctionFailed { call_id: call.call_id, name: call.name, error },
        ),
        ids,
    )
}

/// Runs the call that was approved.
pub open spec fn execute(
    run: ResumeRunView,
    call: ModelFunctionCallView,
    ids: IdSource,
) -> ResumeStepView {
    ResumeStepView {
        run: ResumeRunView { phase: ResumePhaseView::Executing { call }, ..run },
        action: ResumeActionView::CallFunction {
            name: call.name,
            arguments: call.arguments,
            context: FunctionContextView {
                thread_id: run.thread.id,
                turn_id: run.turn_id,
                call_id: call.call_id,
                projection: projection::project(run.thread),
            },
        },
        events: seq![
            TurnStateEventView::FunctionStarted { call_id: call.call_id, name: call.name },
        ],
        ids,
    }
}

/// The first step of a resumption. A suspension after a call takes an answer; one
/// before a call takes an approval or a denial.
pub open spec fn resume(
    loaded: Result<ThreadView, AgentErrorView>,
    suspension_id: Seq<char>,
    resolution: SuspensionResolutionView,
    ids: IdSource,
) -> Result<ResumeStepView, AgentErrorView> {
    match loaded {
        Err(e) => Err(e),
        Ok(thread) => match named_suspension(thread, suspension_id) {
            Err(e) => Err(e),
            Ok(pending) => {
                let run = ResumeRunView {
                    thread,
                    turn_id: pending.turn_id,
                    phase: ResumePhaseView::Done,
                };
                match resolution {
                    SuspensionResolutionView::UserInput { text } => if deferred(
                        pending.suspension.payload,
                    ) {
                        Err(refusal("a pre-execution suspension requires approval or denial"@))
                    } else {
                        Ok(store(run, seq![answer_entry(text, suspension_id)], None, ids))
                    },
                    SuspensionResolutionView::Deny { reason } => match stopped_call(
                        thread,
                        pending,
                    ) {
                        Err(e) => Err(e),
                        Ok(call) => Ok(store_failure(run, call, denial(reason), ids)),
                    },
                    SuspensionResolutionView::Approve => match stopped_call(thread, pending) {
                        Err(e) => Err(e),
                        Ok(call) => Ok(execute(run, call, ids)),
                    },
                }
            },
        },
    }
}

/// The approved call has run.
pub open spec fn executed(
    run: ResumeRunView,
    call: ModelFunctionCallView,
    execution: FunctionCallExecutionView,
    ids: IdSource,
) -> ResumeStepView {
    match execution {
        FunctionCallExecutionView::Completed { output, effects } => store(
            run,
            recording::effect_entries(run.thread, effects).push(
                transitions::output_entry(call, ToolResultView::Success { output }),
            ),
            Some(
                TurnStateEventView::FunctionCompleted { call_id: call.call_id, name: call.name },
            ),
            ids,
        ),
        FunctionCallExecutionView::SuspendedBeforeExecution { suspension, effects } => stop(
            run,
            ResumeActionView::Finish(TurnOutcomeView::Suspended { suspension }),
            ids,
        ),
        FunctionCallExecutionView::SuspendedAfterExecution { suspension, output, effects } => stop(
            run,
            ResumeActionView::Finish(TurnOutcomeView::Suspended { suspension }),
            ids,
        ),
    }
}

/// A step in which nothing happens.
pub open spec fn idle(run: ResumeRunView, ids: IdSource) -> ResumeStepView {
    ResumeStepView { run, action: ResumeActionView::Wait, events: Seq::empty(), ids }
}

/// The step that a resumption takes on an input. An input that it does not wait
/// for changes nothing.
pub open spec fn next(run: ResumeRunView, input: ResumeInputView, ids: IdSource) -> ResumeStepView {
    match (run.phase, input) {
        (ResumePhaseView::Storing { news }, ResumeInputView::Committed) => ResumeStepView {
            events: match news {
                Some(event) => seq![event],
                None => Seq::empty(),
            },
            ..stop(run, ResumeActionView::Continue, ids)
        },
        (ResumePhaseView::Storing { news }, ResumeInputView::Failed(e)) => stop(
            run,
            ResumeActionView::Fail(e),
            ids,
        ),
        (ResumePhaseView::Executing { call }, ResumeInputView::FunctionReturned(execution)) => {
            executed(run, call, execution, ids)
        },
        (ResumePhaseView::Executing { call }, ResumeInputView::FunctionFailed(e)) => store_failure(
            run,
            call,
            error::words(e),
            ids,
        ),
        (ResumePhaseView::Executing { call }, ResumeInputView::Aborted) => {
            let entries = recording::abortion(transitions::abort_reason());
            let counted = ids::after(ids, 1);
            match recording::with_ending(
                run.thread,
                run.turn_id,
                entries,
                TurnStatus::Aborted,
                ids,
            ) {
                Some(thread) => stop(
                    ResumeRunView { thread, ..run },
                    ResumeActionView::Finish(
                        TurnOutcomeView::Aborted { reason: transitions::abort_reason() },
                    ),
                    counted,
                ),
                None => stop(
                    run,
                    ResumeActionView::Fail(AgentErrorView::TurnNotFound(run.turn_id)),
                    counted,
                ),
            }
        },
        _ => idle(run, ids),
    }
}

// ---------------------------------------------------------------------------

fn refused(message: &str) -> (r: AgentError)
    ensures
        r@ == refusal(message@),
{
    AgentError::Function {
        name: "resume_suspended_turn".to_string(),
        message: message.to_string(),
    }
}

fn find_first_call(calls: &Vec<ModelFunctionCall>, call_id: &str) -> (r: Option<
    ModelFunctionCall,
>)
    ensures
        views::opt(r) == first_call(views::all(calls@), call_id@),
{
    let mut i: usize = 0;
    assert(views::all(calls@).skip(0) =~= views::all(calls@));
    while i < calls.len()
        invariant
            i <= calls@.len(),
            first_call(views::all(calls@), call_id@) == first_call(
                views::all(calls@).skip(i as int),
                call_id@,
            ),
        decreases calls@.len() - i,
    {
        let ghost rest = views::all(calls@).skip(i as int);
        assert(rest[0] == calls@[i as int]@);
        assert(rest.skip(1) =~= views::all(calls@).skip(i + 1));
        if text_eq(calls[i].call_id.as_str(), call_id) {
            return Some(calls[i].clone());
        }
        i = i + 1;
    }
    None
}

fn find_latest_call(items: &Vec<TurnItem>, call_id: &str) -> (r: Option<ModelFunctionCall>)
    ensures
        views::opt(r) == latest_call(views::all(items@), call_id@),
{
    let mut n: usize = items.len();
    assert(views::all(items@).take(n as int) =~= views::all(items@));
    while n > 0
        invariant
            n <= items@.len(),
            latest_call(views::all(items@), call_id@) == latest_call(
                views::all(items@).take(n as int),
                call_id@,
            ),
        decreases n,
    {
        let ghost so_far = views::all(items@).take(n as int);
        assert(so_far.last() == items@[n - 1]@);
        assert(so_far.drop_last() =~= views::all(items@).take(n - 1));
        n = n - 1;
        if let TurnItemKind::ModelResponse { function_calls, .. } = &items[n].kind {
            let found = find_first_call(function_calls, call_id);
            if found.is_some() {
                return found;
            }
        }
    }
    None
}

fn find_stopped_call(thread: &Thread, pending: &PendingSuspension) -> (r: Result<
    ModelFunctionCall,
    AgentError,
>)
    ensures
        views::res(r) == stopped_call(thread@, pending@),
{
    let call_id = match get_text(&pending.suspension.payload, "call_id") {
        Some(call_id) => call_id,
        None => {
            return Err(refused("suspension does not identify a resumable call"));
        },
    };
    let found = match thread.find_turn(pending.turn_id.as_str()) {
        Some(i) => find_latest_call(&thread.turns[i].items, call_id.as_str()),
        None => None,
    };
    match found {
        None => Err(refused("suspended function call was not found")),
        Some(call) => {
            if get_bool(&pending.suspension.payload, "deferred") == Some(true) {
                Ok(call)
            } else {
                Err(refused("approval or denial can only resume a pre-execution suspension"))
            }
        },
    }
}

impl ResumeRun {
    /// A step in which nothing happens.
    fn idle(self, ids: IdSource) -> (r: ResumeStep)
        ensures
            r@ == idle(self@, ids),
    {
        broadcast use crate::views::group_views;

        ResumeStep { run: self, action: ResumeAction::Wait, events: Vec::new(), ids }
    }

    /// Ends the resumption.
    fn stop(self, action: ResumeAction, ids: IdSource) -> (r: ResumeStep)
        ensures
            r@ == stop(self@, action@, ids),
    {
        broadcast use crate::views::group_views;

        let mut run = self;
        run.phase = ResumePhase::Done;
        ResumeStep { run, action, events: Vec::new(), ids }
    }

    /// Records `entries`, sets the turn running again and stores it.
    fn store(
        self,
        entries: Vec<Entry>,
        news: Option<TurnStateEvent>,
        ids: IdSource,
    ) -> (r: ResumeStep)
        ensures
            r@ == store(self@, views::all(entries@), views::opt(news), ids),
    {
        broadcast use crate::views::group_views;

        let mut run = self;
        let mut ids = ids;
        match end_turn(
            &mut run.thread,
            run.turn_id.as_str(),
            entries,
            TurnStatus::Running,
            &mut ids,
        ) {
            Ok(()) => {
                run.phase = ResumePhase::Storing { news };
                let action = ResumeAction::Commit(run.thread.clone());
                ResumeStep { run, action, events: Vec::new(), ids }
            },
            Err(error) => run.stop(ResumeAction::Fail(error), ids),
        }
    }

    /// Records that a call failed, and lets the turn go on.
    fn store_failure(self, call: ModelFunctionCall, error: String, ids: IdSource) -> (r: ResumeStep)
        ensures
            r@ == store_failure(self@, call@, error@, ids),
    {
        let mut entries: Vec<Entry> = Vec::new();
        entries.push(output_entry(&call, ToolResult::Error { error: error.clone() }));
        assert(views::all(entries@) =~= seq![
            transitions::output_entry(call@, ToolResultView::Error { error: error@ }),
        ]);
        self.store(
            entries,
            Some(
                TurnStateEvent::FunctionFailed { call_id: call.call_id, name: call.name, error },
            ),
            ids,
        )
    }

    /// Runs the call that was approved.
    fn execute(self, call: ModelFunctionCall, ids: IdSource) -> (r: ResumeStep)
        ensures
            r@ == execute(self@, call@, ids),
    {
        let mut run = self;
        let action = ResumeAction::CallFunction {
            name: call.name.clone(),
            arguments: copy_of(&call.arguments),
            context: FunctionContext {
                thread_id: run.thread.id.clone(),
                turn_id: run.turn_id.clone(),
                call_id: call.call_id.clone(),
                projection: ThreadProjection::from_thread(&run.thread),
            },
        };
        let mut events: Vec<TurnStateEvent> = Vec::new();
        events.push(
            TurnStateEvent::FunctionStarted {
                call_id: call.call_id.clone(),
                name: call.name.clone(),
            },
        );
        assert(views::all(events@) =~= seq![
            TurnStateEventView::FunctionStarted { call_id: call@.call_id, name: call@.name },
        ]);
        run.phase = ResumePhase::Executing { call };
        ResumeStep { run, action, events, ids }
    }

    /// The approved call has run.
    fn executed(
        self,
        call: ModelFunctionCall,
        execution: FunctionCallExecution,
        ids: IdSource,
    ) -> (r: ResumeStep)
        ensures
            r@ == executed(self@, call@, execution@, ids),
    {
        broadcast use crate::views::group_views;

        match execution {
            FunctionCallExecution::Completed { output, effects } => {
                let mut entries = apply_runtime_effects(&self.thread, effects);
                entries.push(output_entry(&call, ToolResult::Success { output }));
                self.store(
                    entries,
                    Some(
                        TurnStateEvent::FunctionCompleted {
                            call_id: call.call_id,
                            name: call.name,
                        },
                    ),
                    ids,
                )
            },
            FunctionCallExecution::SuspendedBeforeExecution { suspension, .. } => self.stop(
                ResumeAction::Finish(TurnOutcome::Suspended { suspension }),
                ids,
            ),
            FunctionCallExecution::SuspendedAfterExecution { suspension, .. } => self.stop(
                ResumeAction::Finish(TurnOutcome::Suspended { suspension }),
                ids,
            ),
        }
    }

    /// Stops the turn while the approved call runs.
    fn aborted(self, ids: IdSource) -> (r: ResumeStep)
        requires
            self.phase is Executing,
        ensures
            r@ == next(self@, ResumeInputView::Aborted, ids),
    {
        let mut run = self;
        let mut ids = ids;
        let reason = "turn aborted by caller".to_string();
        match abort_turn(&mut run.thread, run.turn_id.as_str(), reason.clone(), &mut ids) {
            Ok(()) => run.stop(ResumeAction::Finish(TurnOutcome::Aborted { reason }), ids),
            Err(error) => run.stop(ResumeAction::Fail(error), ids),
        }
    }

    /// The step that the resumption takes on an input. An input that it does not
    /// wait for changes nothing.
    pub fn step(self, input: ResumeInput, ids: IdSource) -> (r: ResumeStep)
        ensures
            r@ == next(self@, input@, ids),
    {
        let phase = self.phase.clone();
        match (phase, input) {
            (ResumePhase::Storing { news }, ResumeInput::Committed) => {
                let step = self.stop(ResumeAction::Continue, ids);
                let mut events: Vec<TurnStateEvent> = Vec::new();
                if let Some(event) = news {
                    events.push(event);
                }
                assert(views::all(events@) =~= match views::opt(news) {
                    Some(event) => seq![event],
                    None => Seq::empty(),
                });
                ResumeStep { run: step.run, action: step.action, events, ids: step.ids }
            },
            (ResumePhase::Storing { .. }, ResumeInput::Failed(error)) => self.stop(
                ResumeAction::Fail(error),
                ids,
            ),
            (ResumePhase::Executing { call }, ResumeInput::FunctionReturned(execution)) => {
                self.executed(call, execution, ids)
            },
            (ResumePhase::Executing { call }, ResumeInput::FunctionFailed(error)) => {
                self.store_failure(call, error.message(), ids)
            },
            (ResumePhase::Executing { .. }, ResumeInput::Aborted) => self.aborted(ids),
            _ => self.idle(ids),
        }
    }
}

/// Takes up the turn that waits for the named suspension.
pub fn resume_suspended_turn(
    loaded: Result<Thread, AgentError>,
    suspension_id: &str,
    resolution: SuspensionResolution,
    ids: IdSource,
) -> (r: Result<ResumeStep, AgentError>)
    ensures
        views::res(r) == resume(views::res(loaded), suspension_id@, resolution@, ids),
{
    let thread = match loaded {
        Ok(thread) => thread,
        Err(error) => {
            return Err(error);
        },
    };
    let pending = match ThreadProjection::from_thread(&thread).pending_suspension {
        Some(pending) => pending,
        None => {
            return Err(AgentError::TurnNotFound(suspension_id.to_string()));
        },
    };
    if !text_eq(pending.suspension.id.as_str(), suspension_id) {
        return Err(AgentError::TurnNotFound(suspension_id.to_string()));
    }
    match resolution {
        SuspensionResolution::UserInput { text } => {
            if get_bool(&pending.suspension.payload, "deferred") == Some(true) {
                return Err(refused("a pre-execution suspension requires approval or denial"));
            }
            let mut entries: Vec<Entry> = Vec::new();
            entries.push(
                Entry {
                    source: TurnItemSource::User,
                    kind: TurnItemKind::UserInput {
                        text,
                        response_to: Some(suspension_id.to_string()),
                    },
                },
            );
            assert(views::all(entries@) =~= seq![answer_entry(text@, suspension_id@)]);
            let run = ResumeRun { thread, turn_id: pending.turn_id, phase: ResumePhase::Done };
            Ok(run.store(entries, None, ids))
        },
        SuspensionResolution::Deny { reason } => match find_stopped_call(&thread, &pending) {
            Err(error) => Err(error),
            Ok(call) => {
                let run = ResumeRun { thread, turn_id: pending.turn_id, phase: ResumePhase::Done };
                Ok(
                    run.store_failure(
                        call,
                        joined("execution denied by user: ", reason.as_str()),
                        ids,
                    ),
                )
            },
        },
        SuspensionResolution::Approve => match find_stopped_call(&thread, &pending) {
            Err(error) => Err(error),
            Ok(call) => {
                let run = ResumeRun { thread, turn_id: pending.turn_id, phase: ResumePhase::Done };
                Ok(run.execute(call, ids))
            },
        },
    }
}

// ---------------------------------------------------------------------------
// Laws

/// An answer settles the suspension: once it is recorded, the thread waits for
/// nothing, and the turn runs again. (The turn must be the last of its thread,
/// and the only one with its identifier.)
pub proof fn law_answer_settles(
    thread: ThreadView,
    suspension_id: Seq<char>,
    text: Seq<char>,
    ids: IdSource,
)
    requires
        thread.turns.len() > 0,
        named_suspension(thread, suspension_id) matches Ok(pending) && !deferred(
            pending.suspension.payload,
        ) && events::turn_index(thread.turns, pending.turn_id) == Some(thread.turns.len() - 1),
    ensures
        ({
            let step = resume(
                Ok(thread),
                suspension_id,
                SuspensionResolutionView::UserInput { text },
                ids,
            )->Ok_0;
            &&& step.action == ResumeActionView::Commit(step.run.thread)
            &&& projection::project(step.run.thread).pending_suspension is None
            &&& step.run.thread.turns.last().status == TurnStatus::Running
        }),
{
    let pending = named_suspension(thread, suspension_id)->Ok_0;
    let entries = seq![answer_entry(text, suspension_id)];
    recording::lemma_ending_found(thread, pending.turn_id, entries, TurnStatus::Running, ids);
    let last = thread.turns.last();
    let next_turn = events::with_status(
        recording::turn_with(last, entries, ids),
        TurnStatus::Running,
        ids,
    );
    let stored = recording::replace_turn(thread, thread.turns.len() - 1, next_turn);
    let item = recording::items_for(entries, ids)[0];
    assert(recording::items_for(entries, ids) =~= seq![item]);
    assert(stored.turns.drop_last() =~= thread.turns.drop_last());
    assert(next_turn.items.drop_last() =~= last.items);
    assert(next_turn.items.last() == item);
    projection::lemma_relabel_turns(
        projection::before_items(thread),
        projection::before_items(stored).latest_turn_id,
        projection::before_items(stored).active_turn_id,
        thread.turns.drop_last(),
    );
    let p = projection::apply_turns(
        projection::before_items(thread),
        thread.turns.drop_last(),
    );
    let q = projection::apply_turns(
        projection::before_items(stored),
        thread.turns.drop_last(),
    );
    assert(projection::before_items(stored) =~= projection::relabel(
        projection::before_items(thread),
        projection::before_items(stored).latest_turn_id,
        projection::before_items(stored).active_turn_id,
    ));
    projection::lemma_relabel_items(
        p,
        projection::before_items(stored).latest_turn_id,
        projection::before_items(stored).active_turn_id,
        last.id,
        last.items,
    );
    assert(q == projection::relabel(
        p,
        projection::before_items(stored).latest_turn_id,
        projection::before_items(stored).active_turn_id,
    ));
}

/// The entries that settle a stopped call: its denial, or what came of it.
pub open spec fn settling_entries(
    thread: ThreadView,
    call: ModelFunctionCallView,
    resolution: SuspensionResolutionView,
    result: ResumeInputView,
) -> Seq<EntryView> {
    match (resolution, result) {
        (SuspensionResolutionView::Deny { reason }, _) => seq![
            transitions::output_entry(call, ToolResultView::Error { error: denial(reason) }),
        ],
        (
            _,
            ResumeInputView::FunctionReturned(
                FunctionCallExecutionView::Completed { output, effects },
            ),
        ) => recording::effect_entries(thread, effects).push(
            transitions::output_entry(call, ToolResultView::Success { output }),
        ),
        (_, ResumeInputView::FunctionFailed(e)) => seq![
            transitions::output_entry(call, ToolResultView::Error { error: error::words(e) }),
        ],
        _ => Seq::empty(),
    }
}

/// The step that stores what settles a stopped call: the first one of a denial,
/// and the one after the call of an approval.
pub open spec fn settling_step(
    thread: ThreadView,
    suspension_id: Seq<char>,
    resolution: SuspensionResolutionView,
    result: ResumeInputView,
    ids: IdSource,
) -> ResumeStepView {
    let first = resume(Ok(thread), suspension_id, resolution, ids)->Ok_0;
    if resolution is Approve {
        next(first.run, result, ids)
    } else {
        first
    }
}

/// Whether a call that was stopped comes to an answer: it is denied, or it is
/// approved and then completes or fails. The turn that it stopped must not be
/// followed by one that runs.
pub open spec fn comes_to_an_answer(
    thread: ThreadView,
    suspension_id: Seq<char>,
    resolution: SuspensionResolutionView,
    result: ResumeInputView,
    ids: IdSource,
) -> bool {
    let pending = named_suspension(thread, suspension_id)->Ok_0;
    let i = events::turn_index(thread.turns, pending.turn_id)->0;
    &&& resume(Ok(thread), suspension_id, resolution, ids) is Ok
    &&& match (resolution, result) {
        (SuspensionResolutionView::UserInput { text }, _) => false,
        (SuspensionResolutionView::Deny { reason }, _) => true,
        (_, ResumeInputView::FunctionReturned(execution)) => execution is Completed,
        (_, ResumeInputView::FunctionFailed(e)) => true,
        _ => false,
    }
    &&& forall|j: int|
        i < j < thread.turns.len() ==> (#[trigger] thread.turns[j]).status != TurnStatus::Running
}

/// A call that was stopped and comes to an answer lets its turn go on: the answer
/// is recorded and stored in the turn, the turn runs again, and once the thread is
/// loaded it is this turn that goes on and reads its cache to ask the model.
pub proof fn law_resolution_resumes(
    thread: ThreadView,
    suspension_id: Seq<char>,
    resolution: SuspensionResolutionView,
    result: ResumeInputView,
    ids: IdSource,
    request: TurnRequestView,
    loaded: ThreadView,
    later: IdSource,
)
    requires
        comes_to_an_answer(thread, suspension_id, resolution, result, ids),
        request.user_text is None,
        request.max_model_iterations > 0,
        loaded.turns == settling_step(
            thread,
            suspension_id,
            resolution,
            result,
            ids,
        ).run.thread.turns,
    ensures
        ({
            let pending = named_suspension(thread, suspension_id)->Ok_0;
            let call = stopped_call(thread, pending)->Ok_0;
            let i = events::turn_index(thread.turns, pending.turn_id)->0;
            let step = settling_step(thread, suspension_id, resolution, result, ids);
            let begun = transitions::begin(request, Ok(loaded), later);
            &&& step.action == ResumeActionView::Commit(step.run.thread)
            &&& next(step.run, ResumeInputView::Committed, later).action
                == ResumeActionView::Continue
            &&& begun is Ok
            &&& begun->Ok_0.action is LoadCache
            &&& begun->Ok_0.run.phase is ReadingCache
            &&& begun->Ok_0.run.thread == loaded
            &&& begun->Ok_0.run.turn_id == pending.turn_id
            &&& events::turn_index(loaded.turns, pending.turn_id) == Some(i)
            &&& loaded.turns[i].items == thread.turns[i].items + recording::items_for(
                settling_entries(thread, call, resolution, result),
                ids,
            )
        }),
{
    let pending = named_suspension(thread, suspension_id)->Ok_0;
    let call = stopped_call(thread, pending)->Ok_0;
    let entries = settling_entries(thread, call, resolution, result);
    let turn_id = pending.turn_id;
    events::lemma_turn_index(thread.turns, turn_id);
    recording::lemma_ending_found(thread, turn_id, entries, TurnStatus::Running, ids);
    let i = events::turn_index(thread.turns, turn_id)->0;
    let turn = events::with_status(
        recording::turn_with(thread.turns[i], entries, ids),
        TurnStatus::Running,
        ids,
    );
    assert(loaded.turns == thread.turns.update(i, turn));
    assert forall|k: int|
        thread.turns[i].items.len() <= k < turn.items.len() implies !((
    #[trigger] turn.items[k]).kind is UserInput) && !(turn.items[k].kind is SuspensionCreated) by {
        let at = k - thread.turns[i].items.len();
        assert(turn.items[k] == recording::items_for(entries, ids)[at]);
        assert(turn.items[k].kind == entries[at].kind);
    }
    projection::lemma_pending(thread);
    projection::lemma_pending(loaded);
    projection::lemma_pending_unmoved_in(thread.turns, i, turn);
    projection::lemma_running_turn(loaded.turns, i);
    projection::lemma_relabel_turns(
        projection::before_items(loaded),
        None,
        None,
        loaded.turns,
    );
    assert forall|j: int| 0 <= j < i implies (#[trigger] loaded.turns[j]).id != turn_id by {
        assert(loaded.turns[j] == thread.turns[j]);
    }
    events::lemma_turn_index_is(loaded.turns, turn_id, i);
}

/// A call that was stopped and comes to an answer has its turn resumed to the
/// end: if the model then answers with text alone, that text is what comes of the
/// turn, and the turn, with the call's answer and the model's added, is completed.
/// (The store must hand back the turns that it is sent.)
pub proof fn law_resumed_turn_completes(
    thread: ThreadView,
    suspension_id: Seq<char>,
    resolution: SuspensionResolutionView,
    result: ResumeInputView,
    ids: IdSource,
    request: TurnRequestView,
    loaded: ThreadView,
    later: IdSource,
    cache: Option<ThreadContextCacheView>,
    context: ContextBuildOutputView,
    response: ModelResponseView,
    kept: ThreadView,
    done: ThreadView,
    times: Seq<IdSource>,
)
    requires
        comes_to_an_answer(thread, suspension_id, resolution, result, ids),
        request.user_text is None,
        request.max_model_iterations > 0,
        loaded.turns == settling_step(
            thread,
            suspension_id,
            resolution,
            result,
            ids,
        ).run.thread.turns,
        transitions::reply_text(response) is Some,
        transitions::reply_calls(response).len() == 0,
        ({
            let run = transitions::begin(request, Ok(loaded), later)->Ok_0.run;
            let asking = laws::question(run, cache, context, times);
            let answered = transitions::next(
                asking.run,
                TurnInputView::ModelReplied(response),
                times[3],
            );
            let stored = transitions::next(
                answered.run,
                TurnInputView::Committed(kept),
                times[4],
            );
            kept.turns == answered.run.thread.turns && done.turns == stored.run.thread.turns
        }),
    ensures
        ({
            let text = transitions::reply_text(response);
            let pending = named_suspension(thread, suspension_id)->Ok_0;
            let call = stopped_call(thread, pending)->Ok_0;
            let i = events::turn_index(thread.turns, pending.turn_id)->0;
            let run = transitions::begin(request, Ok(loaded), later)->Ok_0.run;
            let asking = laws::question(run, cache, context, times);
            let answered = transitions::next(
                asking.run,
                TurnInputView::ModelReplied(response),
                times[3],
            );
            let stored = transitions::next(
                answered.run,
                TurnInputView::Committed(kept),
                times[4],
            );
            let finished = transitions::next(
                stored.run,
                TurnInputView::Committed(done),
                times[5],
            );
            &&& asking.action is CallModel
            &&& finished.action == TurnActionView::Finish(
                TurnOutcomeView::AssistantMessage { text: text->0 },
            )
            &&& laws::has_turn(finished.run)
            &&& finished.run.turn_id == pending.turn_id
            &&& laws::turn_of(finished.run).status == TurnStatus::Completed
            &&& laws::turn_of(finished.run).items == thread.turns[i].items
                + recording::items_for(
                settling_entries(thread, call, resolution, result),
                ids,
            ) + recording::items_for(
                transitions::reply_entries(text, Seq::empty()),
                times[3],
            )
        }),
{
    law_resolution_resumes(
        thread,
        suspension_id,
        resolution,
        result,
        ids,
        request,
        loaded,
        later,
    );
    laws::law_text_answer_completes(
        transitions::begin(request, Ok(loaded), later)->Ok_0.run,
        cache,
        context,
        response,
        kept,
        done,
        times,
    );
}

/// A resumption never takes items away.
pub proof fn law_resumption_appends(run: ResumeRunView, input: ResumeInputView, ids: IdSource)
    ensures
        recording::extends(run.thread.turns, next(run, input, ids).run.thread.turns),
{
    match (run.phase, input) {
        (ResumePhaseView::Executing { call }, ResumeInputView::FunctionReturned(execution)) => {
            if let FunctionCallExecutionView::Completed { output, effects } = execution {
                recording::law_recording_appends(
                    run.thread,
                    run.turn_id,
                    recording::effect_entries(run.thread, effects).push(
                        transitions::output_entry(call, ToolResultView::Success { output }),
                    ),
                    TurnStatus::Running,
                    ids,
                );
            }
        },
        (ResumePhaseView::Executing { call }, ResumeInputView::FunctionFailed(e)) => {
            recording::law_recording_appends(
                run.thread,
                run.turn_id,
                seq![
                    transitions::output_entry(
                        call,
                        ToolResultView::Error { error: error::words(e) },
                    ),
                ],
                TurnStatus::Running,
                ids,
            );
        },
        (ResumePhaseView::Executing { call }, ResumeInputView::Aborted) => {
            recording::law_recording_appends(
                run.thread,
                run.turn_id,
                recording::abortion(transitions::abort_reason()),
                TurnStatus::Aborted,
                ids,
            );
        },
        _ => {},
    }
}

/// Whether nothing was added to the turns of a thread but items of one turn,
/// none of which is an input of the user.
pub open spec fn only_works_on(
    earlier: Seq<TurnView>,
    later: Seq<TurnView>,
    turn_id: Seq<char>,
) -> bool {
    &&& earlier.len() == later.len()
    &&& forall|i: int|
        0 <= i < earlier.len() && (#[trigger] earlier[i]).id != turn_id ==> later[i] == earlier[i]
    &&& forall|i: int, k: int|
        0 <= i < later.len() && earlier[i].items.len() <= k < later[i].items.len() ==> !((
        #[trigger] later[i].items[k]).kind is UserInput)
}

proof fn lemma_only_works_on(
    thread: ThreadView,
    turn_id: Seq<char>,
    entries: Seq<EntryView>,
    status: TurnStatus,
    ids: IdSource,
)
    requires
        forall|k: int| 0 <= k < entries.len() ==> !((#[trigger] entries[k]).kind is UserInput),
    ensures
        recording::with_ending(thread, turn_id, entries, status, ids) matches Some(t)
            ==> only_works_on(thread.turns, t.turns, turn_id),
{
    events::lemma_turn_index(thread.turns, turn_id);
    recording::lemma_ending_found(thread, turn_id, entries, status, ids);
    if let Some(t) = recording::with_ending(thread, turn_id, entries, status, ids) {
        let at = events::turn_index(thread.turns, turn_id)->0;
        let made = recording::items_for(entries, ids);
        assert forall|i: int, k: int|
            0 <= i < t.turns.len() && thread.turns[i].items.len() <= k
                < t.turns[i].items.len() implies !((
        #[trigger] t.turns[i].items[k]).kind is UserInput) by {
            assert(i == at);
            assert(t.turns[i].items[k] == made[k - thread.turns[i].items.len()]);
            assert(!(entries[k - thread.turns[i].items.len()].kind is UserInput));
        }
    }
}

/// An approval lets the call that was stopped run in the turn that it stopped,
/// and a denial answers it without running it. Neither adds a turn or an input
/// of the user.
pub proof fn law_resolution_stays_in_its_turn(
    thread: ThreadView,
    suspension_id: Seq<char>,
    resolution: SuspensionResolutionView,
    ids: IdSource,
)
    requires
        !(resolution is UserInput),
    ensures
        resume(Ok(thread), suspension_id, resolution, ids) matches Ok(step) ==> {
            let pending = named_suspension(thread, suspension_id)->Ok_0;
            let call = stopped_call(thread, pending)->Ok_0;
            &&& named_suspension(thread, suspension_id) is Ok
            &&& stopped_call(thread, pending) is Ok
            &&& only_works_on(thread.turns, step.run.thread.turns, pending.turn_id)
            &&& resolution is Approve ==> {
                &&& step.action matches ResumeActionView::CallFunction { name, arguments, context }
                &&& name == call.name
                &&& arguments == call.arguments
                &&& context.call_id == call.call_id
                &&& context.turn_id == pending.turn_id
            }
            &&& resolution is Deny ==> !(step.action is CallFunction)
        },
{
    if let SuspensionResolutionView::Deny { reason } = resolution {
        if let Ok(pending) = named_suspension(thread, suspension_id) {
            if let Ok(call) = stopped_call(thread, pending) {
                lemma_only_works_on(
                    thread,
                    pending.turn_id,
                    seq![
                        transitions::output_entry(
                            call,
                            ToolResultView::Error { error: denial(reason) },
                        ),
                    ],
                    TurnStatus::Running,
                    ids,
                );
            }
        }
    }
}

/// What comes of the approved call is recorded in the turn that it stopped, and
/// adds neither a turn nor an input of the user.
pub proof fn law_resumption_stays_in_its_turn(
    run: ResumeRunView,
    input: ResumeInputView,
    ids: IdSource,
)
    ensures
        only_works_on(run.thread.turns, next(run, input, ids).run.thread.turns, run.turn_id),
{
    match (run.phase, input) {
        (ResumePhaseView::Executing { call }, ResumeInputView::FunctionReturned(execution)) => {
            if let FunctionCallExecutionView::Completed { output, effects } = execution {
                lemma_only_works_on(
                    run.thread,
                    run.turn_id,
                    recording::effect_entries(run.thread, effects).push(
                        transitions::output_entry(call, ToolResultView::Success { output }),
                    ),
                    TurnStatus::Running,
                    ids,
                );
            }
        },
        (ResumePhaseView::Executing { call }, ResumeInputView::FunctionFailed(e)) => {
            lemma_only_works_on(
                run.thread,
                run.turn_id,
                seq![
                    transitions::output_entry(
                        call,
                        ToolResultView::Error { error: error::words(e) },
                    ),
                ],
                TurnStatus::Running,
                ids,
            );
        },
        (ResumePhaseView::Executing { call }, ResumeInputView::Aborted) => {
            lemma_only_works_on(
                run.thread,
                run.turn_id,
                recording::abortion(transitions::abort_reason()),
                TurnStatus::Aborted,
                ids,
            );
        },
        _ => {},
    }
}

/// Only the suspension that a thread waits for can be resumed.
pub proof fn law_only_the_pending_suspension(
    thread: ThreadView,
    suspension_id: Seq<char>,
    resolution: SuspensionResolutionView,
    ids: IdSource,
)
    requires
        projection::project(thread).pending_suspension matches Some(pending)
            ==> pending.suspension.id != suspension_id,
    ensures
        resume(Ok(thread), suspension_id, resolution, ids) == Err::<
            ResumeStepView,
            AgentErrorView,
        >(AgentErrorView::TurnNotFound(suspension_id)),
{
}

} // verus!
