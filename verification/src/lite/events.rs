//! A conversation kept as a log of events.
use crate::error::{AgentError, AgentErrorView};
use crate::ids::{self, IdSource};
use crate::json::{self, copy_of, Json};
use crate::kernel::events::GoalStatus;
use crate::views;
use serde_json::Value;
use vstd::prelude::*;

verus! {

pub type ThreadId = String;

pub type EventId = String;

/// What an event records.
#[derive(Debug, PartialEq)]
pub enum ThreadEventKind {
    UserInputReceived { text: String, response_to: Option<String> },
    AssistantMessageEmitted { text: String },
    FunctionCallRequested { call_id: String, name: String, arguments: Value },
    FunctionCallCompleted { call_id: String, name: String, output: Value },
    FunctionCallFailed { call_id: String, name: String, error: String },
    GoalUpdated { objective: String, status: GoalStatus, notes: Option<String> },
    UserInputRequested { request_id: String, prompt: String },
    TurnFailed { error: String },
}

/// What a `ThreadEventKind` holds.
#[verifier::ext_equal]
pub enum ThreadEventKindView {
    UserInputReceived { text: Seq<char>, response_to: Option<Seq<char>> },
    AssistantMessageEmitted { text: Seq<char> },
    FunctionCallRequested { call_id: Seq<char>, name: Seq<char>, arguments: Json },
    FunctionCallCompleted { call_id: Seq<char>, name: Seq<char>, output: Json },
    FunctionCallFailed { call_id: Seq<char>, name: Seq<char>, error: Seq<char> },
    GoalUpdated { objective: Seq<char>, status: GoalStatus, notes: Option<Seq<char>> },
    UserInputRequested { request_id: Seq<char>, prompt: Seq<char> },
    TurnFailed { error: Seq<char> },
}

impl View for ThreadEventKind {
    type V = ThreadEventKindView;

    open spec fn view(&self) -> ThreadEventKindView {
        match *self {
            ThreadEventKind::UserInputReceived { text, response_to } => {
                ThreadEventKindView::UserInputReceived {
                    text: text@,
                    response_to: views::opt(response_to),
                }
            },
            ThreadEventKind::AssistantMessageEmitted { text } => {
                ThreadEventKindView::AssistantMessageEmitted { text: text@ }
            },
            ThreadEventKind::FunctionCallRequested { call_id, name, arguments } => {
                ThreadEventKindView::FunctionCallRequested {
                    call_id: call_id@,
                    name: name@,
                    arguments: json::of(arguments),
                }
            },
            ThreadEventKind::FunctionCallCompleted { call_id, name, output } => {
                ThreadEventKindView::FunctionCallCompleted {
                    call_id: call_id@,
                    name: name@,
                    output: json::of(output),
                }
            },
            ThreadEventKind::FunctionCallFailed { call_id, name, error } => {
                ThreadEventKindView::FunctionCallFailed {
                    call_id: call_id@,
                    name: name@,
                    error: error@,
                }
            },
            ThreadEventKind::GoalUpdated { objective, status, notes } => {
                ThreadEventKindView::GoalUpdated {
                    objective: objective@,
                    status,
                    notes: views::opt(notes),
                }
            },
            ThreadEventKind::UserInputRequested { request_id, prompt } => {
                ThreadEventKindView::UserInputRequested { request_id: request_id@, prompt: prompt@ }
            },
            ThreadEventKind::TurnFailed { error } => ThreadEventKindView::TurnFailed {
                error: error@,
            },
        }
    }
}

impl Clone for ThreadEventKind {
    fn clone(&self) -> (r: Self)
        ensures
            r@ == self@,
    {
        match self {
            ThreadEventKind::UserInputReceived { text, response_to } => {
                let copy_response_to = response_to.clone();
                assert(views::opt(copy_response_to) =~= views::opt((*response_to)));
                ThreadEventKind::UserInputReceived {
                    text: text.clone(),
                    response_to: copy_response_to,
                }
            },
            ThreadEventKind::AssistantMessageEmitted { text } => {
                ThreadEventKind::AssistantMessageEmitted { text: text.clone() }
            },
            ThreadEventKind::FunctionCallRequested { call_id, name, arguments } => {
                ThreadEventKind::FunctionCallRequested {
                    call_id: call_id.clone(),
                    name: name.clone(),
                    arguments: copy_of(arguments),
                }
            },
            ThreadEventKind::FunctionCallCompleted { call_id, name, output } => {
                ThreadEventKind::FunctionCallCompleted {
                    call_id: call_id.clone(),
                    name: name.clone(),
                    output: copy_of(output),
                }
            },
            ThreadEventKind::FunctionCallFailed { call_id, name, error } => {
                ThreadEventKind::FunctionCallFailed {
                    call_id: call_id.clone(),
                    name: name.clone(),
                    error: error.clone(),
                }
            },
            ThreadEventKind::GoalUpdated { objective, status, notes } => {
                let copy_notes = notes.clone();
                assert(views::opt(copy_notes) =~= views::opt((*notes)));
                ThreadEventKind::GoalUpdated {
                    objective: objective.clone(),
                    status: *status,
                    notes: copy_notes,
                }
            },
            ThreadEventKind::UserInputRequested { request_id, prompt } => {
                ThreadEventKind::UserInputRequested {
                    request_id: request_id.clone(),
                    prompt: prompt.clone(),
                }
            },
            ThreadEventKind::TurnFailed { error } => ThreadEventKind::TurnFailed {
                error: error.clone(),
            },
        }
    }
}

/// One record of an event log.
#[derive(Debug, PartialEq)]
pub struct ThreadEvent {
    pub id: String,
    pub created_at: String,
    pub kind: ThreadEventKind,
}

/// What a `ThreadEvent` holds.
#[verifier::ext_equal]
pub struct ThreadEventView {
    pub id: Seq<char>,
    pub created_at: Seq<char>,
    pub kind: ThreadEventKindView,
}

impl View for ThreadEvent {
    type V = ThreadEventView;

    open spec fn view(&self) -> ThreadEventView {
        ThreadEventView {
            id: self.id@,
            created_at: self.created_at@,
            kind: self.kind@,
        }
    }
}

impl Clone for ThreadEvent {
    fn clone(&self) -> (r: Self)
        ensures
            r@ == self@,
    {
        ThreadEvent {
            id: self.id.clone(),
            created_at: self.created_at.clone(),
            kind: self.kind.clone(),
        }
    }
}

/// A conversation as a log of events.
#[derive(Debug, PartialEq)]
pub struct Thread {
    pub id: String,
    pub events: Vec<ThreadEvent>,
}

/// What a `Thread` holds.
#[verifier::ext_equal]
pub struct ThreadView {
    pub id: Seq<char>,
    pub events: Seq<ThreadEventView>,
}

impl View for Thread {
    type V = ThreadView;

    open spec fn view(&self) -> ThreadView {
        ThreadView {
            id: self.id@,
            events: views::all(self.events@),
        }
    }
}

impl Clone for Thread {
    fn clone(&self) -> (r: Self)
        ensures
            r@ == self@,
    {
        let r = Thread {
            id: self.id.clone(),
            events: self.events.clone(),
        };
        assert(views::all(r.events@) =~= views::all(self.events@));
        r
    }
}

impl Thread {
    /// A log without events.
    pub fn new(id: &str) -> (r: Self)
        ensures
            r@ == (ThreadView { id: id@, events: Seq::empty() }),
    {
        let r = Thread { id: id.to_string(), events: Vec::new() };
        assert(r@.events =~= Seq::<ThreadEventView>::empty());
        r
    }
}

/// The event that records `kind` and takes its identifier from `ids`.
pub open spec fn event_view(kind: ThreadEventKindView, ids: IdSource) -> ThreadEventView {
    ThreadEventView { id: ids::id_text("evt"@, ids), created_at: ids::stamp(ids), kind }
}

impl ThreadEvent {
    /// A new record.
    pub fn new(kind: ThreadEventKind, ids: &mut IdSource) -> (r: Self)
        ensures
            r@ == event_view(kind@, *old(ids)),
            *final(ids) == ids::after(*old(ids), 1),
    {
        let created_at = ids.timestamp();
        ThreadEvent { id: ids.issue("evt"), created_at, kind }
    }
}

/// What comes of appending events to a log; one that is not there yet is made.
pub open spec fn appended(
    thread_id: Seq<char>,
    loaded: Result<ThreadView, AgentErrorView>,
    events: Seq<ThreadEventView>,
) -> Result<ThreadView, AgentErrorView> {
    match loaded {
        Ok(thread) => Ok(ThreadView { events: thread.events + events, ..thread }),
        Err(AgentErrorView::ThreadNotFound(missing)) => Ok(ThreadView { id: thread_id, events }),
        Err(e) => Err(e),
    }
}

/// The log to be written when events are appended. A log that is not there yet
/// is made.
pub fn append(
    thread_id: &str,
    loaded: Result<Thread, AgentError>,
    events: Vec<ThreadEvent>,
) -> (r: Result<Thread, AgentError>)
    ensures
        views::res(r) == appended(thread_id@, views::res(loaded), views::all(events@)),
{
    broadcast use crate::views::group_views;

    let mut events = events;
    let mut thread = match loaded {
        Ok(thread) => thread,
        Err(AgentError::ThreadNotFound(_)) => Thread::new(thread_id),
        Err(error) => {
            return Err(error);
        },
    };
    let ghost before = thread@;
    let ghost added = views::all(events@);
    thread.events.append(&mut events);
    assert(Seq::<ThreadEventView>::empty() + added =~= added);
    Ok(thread)
}

} // verus!
