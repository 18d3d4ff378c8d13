//! What can go wrong.
use crate::kernel::revision::RevisionToken;
use crate::text::{self, decimal_text, joined};
use vstd::prelude::*;

verus! {

/// Why an operation of the agent failed.
#[derive(Debug, PartialEq)]
pub enum AgentError {
    ThreadNotFound(String),
    InvalidThreadId(String),
    StoreLocked(String),
    VersionConflict { thread_id: String, expected: u64, actual: u64 },
    RevisionConflict { thread_id: String, expected: RevisionToken, actual: RevisionToken },
    SuspendedTurn { thread_id: String, suspension_id: String },
    SessionCoordinator(String),
    ContextWindowExceeded { estimated: usize, limit: usize },
    ContextCompactorContractViolation { estimated: usize, limit: usize },
    TurnNotFound(String),
    Io(String),
    Json(String),
    Http(String),
    Reqwest(String),
    Model(String),
    FunctionNotFound(String),
    Function { name: String, message: String },
    InvalidFunctionArguments { name: String, message: String },
    MaxIterations(usize),
    Logging(String),
}

/// What a `AgentError` holds.
#[verifier::ext_equal]
pub enum AgentErrorView {
    ThreadNotFound(Seq<char>),
    InvalidThreadId(Seq<char>),
    StoreLocked(Seq<char>),
    VersionConflict { thread_id: Seq<char>, expected: u64, actual: u64 },
    RevisionConflict { thread_id: Seq<char>, expected: Seq<u8>, actual: Seq<u8> },
    SuspendedTurn { thread_id: Seq<char>, suspension_id: Seq<char> },
    SessionCoordinator(Seq<char>),
    ContextWindowExceeded { estimated: usize, limit: usize },
    ContextCompactorContractViolation { estimated: usize, limit: usize },
    TurnNotFound(Seq<char>),
    Io(Seq<char>),
    Json(Seq<char>),
    Http(Seq<char>),
    Reqwest(Seq<char>),
    Model(Seq<char>),
    FunctionNotFound(Seq<char>),
    Function { name: Seq<char>, message: Seq<char> },
    InvalidFunctionArguments { name: Seq<char>, message: Seq<char> },
    MaxIterations(usize),
    Logging(Seq<char>),
}

impl View for AgentError {
    type V = AgentErrorView;

    open spec fn view(&self) -> AgentErrorView {
        match *self {
            AgentError::ThreadNotFound(detail) => AgentErrorView::ThreadNotFound(detail@),
            AgentError::InvalidThreadId(detail) => AgentErrorView::InvalidThreadId(detail@),
            AgentError::StoreLocked(detail) => AgentErrorView::StoreLocked(detail@),
            AgentError::VersionConflict { thread_id, expected, actual } => {
                AgentErrorView::VersionConflict { thread_id: thread_id@, expected, actual }
            },
            AgentError::RevisionConflict { thread_id, expected, actual } => {
                AgentErrorView::RevisionConflict {
                    thread_id: thread_id@,
                    expected: expected@,
                    actual: actual@,
                }
            },
            AgentError::SuspendedTurn { thread_id, suspension_id } => {
                AgentErrorView::SuspendedTurn {
                    thread_id: thread_id@,
                    suspension_id: suspension_id@,
                }
            },
            AgentError::SessionCoordinator(detail) => AgentErrorView::SessionCoordinator(detail@),
            AgentError::ContextWindowExceeded { estimated, limit } => {
                AgentErrorView::ContextWindowExceeded { estimated, limit }
            },
            AgentError::ContextCompactorContractViolation { estimated, limit } => {
                AgentErrorView::ContextCompactorContractViolation { estimated, limit }
            },
            AgentError::TurnNotFound(detail) => AgentErrorView::TurnNotFound(detail@),
            AgentError::Io(detail) => AgentErrorView::Io(detail@),
            AgentError::Json(detail) => AgentErrorView::Json(detail@),
            AgentError::Http(detail) => AgentErrorView::Http(detail@),
            AgentError::Reqwest(detail) => AgentErrorView::Reqwest(detail@),
            AgentError::Model(detail) => AgentErrorView::Model(detail@),
            AgentError::FunctionNotFound(detail) => AgentErrorView::FunctionNotFound(detail@),
            AgentError::Function { name, message } => AgentErrorView::Function {
                name: name@,
                message: message@,
            },
            AgentError::InvalidFunctionArguments { name, message } => {
                AgentErrorView::InvalidFunctionArguments { name: name@, message: message@ }
            },
            AgentError::MaxIterations(detail) => AgentErrorView::MaxIterations(detail),
            AgentError::Logging(detail) => AgentErrorView::Logging(detail@),
        }
    }
}

impl Clone for AgentError {
    fn clone(&self) -> (r: Self)
        ensures
            r@ == self@,
    {
        match self {
            AgentError::ThreadNotFound(detail) => AgentError::ThreadNotFound(detail.clone()),
            AgentError::InvalidThreadId(detail) => AgentError::InvalidThreadId(detail.clone()),
            AgentError::StoreLocked(detail) => AgentError::StoreLocked(detail.clone()),
            AgentError::VersionConflict { thread_id, expected, actual } => {
                AgentError::VersionConflict {
                    thread_id: thread_id.clone(),
                    expected: *expected,
                    actual: *actual,
                }
            },
            AgentError::RevisionConflict { thread_id, expected, actual } => {
                AgentError::RevisionConflict {
                    thread_id: thread_id.clone(),
                    expected: expected.clone(),
                    actual: actual.clone(),
                }
            },
            AgentError::SuspendedTurn { thread_id, suspension_id } => AgentError::SuspendedTurn {
                thread_id: thread_id.clone(),
                suspension_id: suspension_id.clone(),
            },
            AgentError::SessionCoordinator(detail) => AgentError::SessionCoordinator(
                detail.clone(),
            ),
            AgentError::ContextWindowExceeded { estimated, limit } => {
                AgentError::ContextWindowExceeded { estimated: *estimated, limit: *limit }
            },
            AgentError::ContextCompactorContractViolation { estimated, limit } => {
                AgentError::ContextCompactorContractViolation {
                    estimated: *estimated,
                    limit: *limit,
                }
            },
            AgentError::TurnNotFound(detail) => AgentError::TurnNotFound(detail.clone()),
            AgentError::Io(detail) => AgentError::Io(detail.clone()),
            AgentError::Json(detail) => AgentError::Json(detail.clone()),
            AgentError::Http(detail) => AgentError::Http(detail.clone()),
            AgentError::Reqwest(detail) => AgentError::Reqwest(detail.clone()),
            AgentError::Model(detail) => AgentError::Model(detail.clone()),
            AgentError::FunctionNotFound(detail) => AgentError::FunctionNotFound(detail.clone()),
            AgentError::Function { name, message } => AgentError::Function {
                name: name.clone(),
                message: message.clone(),
            },
            AgentError::InvalidFunctionArguments { name, message } => {
                AgentError::InvalidFunctionArguments {
                    name: name.clone(),
                    message: message.clone(),
                }
            },
            AgentError::MaxIterations(detail) => AgentError::MaxIterations(*detail),
            AgentError::Logging(detail) => AgentError::Logging(detail.clone()),
        }
    }
}

/// The words that an error is reported with.
pub open spec fn words(error: AgentErrorView) -> Seq<char> {
    match error {
        AgentErrorView::ThreadNotFound(detail) => "thread not found: "@ + detail,
        AgentErrorView::InvalidThreadId(detail) => "invalid thread id: "@ + detail,
        AgentErrorView::StoreLocked(detail) => {
            "thread store directory is already owned: "@ + detail
        },
        AgentErrorView::VersionConflict { thread_id, expected, actual } => {
            "thread version conflict for "@
                + thread_id
                + ": expected "@
                + text::decimal(expected as nat)
                + ", actual "@
                + text::decimal(actual as nat)
        },
        AgentErrorView::RevisionConflict { thread_id, .. } => {
            "thread revision conflict for "@ + thread_id
        },
        AgentErrorView::SuspendedTurn { thread_id, suspension_id } => {
            "thread "@ + thread_id + " waits for suspension "@ + suspension_id
        },
        AgentErrorView::SessionCoordinator(detail) => "session coordinator error: "@ + detail,
        AgentErrorView::ContextWindowExceeded { estimated, limit } => {
            "context window exceeded: estimated "@
                + text::decimal(estimated as nat)
                + " tokens, limit "@
                + text::decimal(limit as nat)
        },
        AgentErrorView::ContextCompactorContractViolation { estimated, limit } => {
            "context compactor exceeded its budget: estimated "@
                + text::decimal(estimated as nat)
                + " tokens, limit "@
                + text::decimal(limit as nat)
        },
        AgentErrorView::TurnNotFound(detail) => "turn not found: "@ + detail,
        AgentErrorView::Io(detail) => "io error: "@ + detail,
        AgentErrorView::Json(detail) => "json error: "@ + detail,
        AgentErrorView::Http(detail) => "http error: "@ + detail,
        AgentErrorView::Reqwest(detail) => "http client error: "@ + detail,
        AgentErrorView::Model(detail) => "model error: "@ + detail,
        AgentErrorView::FunctionNotFound(detail) => "function not found: "@ + detail,
        AgentErrorView::Function { name, message } => {
            "function error in "@ + name + ": "@ + message
        },
        AgentErrorView::InvalidFunctionArguments { name, message } => {
            "invalid function arguments for "@ + name + ": "@ + message
        },
        AgentErrorView::MaxIterations(detail) => {
            "turn exceeded max model iterations: "@ + text::decimal(detail as nat)
        },
        AgentErrorView::Logging(detail) => "logging error: "@ + detail,
    }
}

impl AgentError {
    /// The words that the error is reported with.
    pub fn message(&self) -> (r: String)
        ensures
            r@ == words(self@),
    {
        match self {
            AgentError::ThreadNotFound(detail) => joined("thread not found: ", detail.as_str()),
            AgentError::InvalidThreadId(detail) => joined("invalid thread id: ", detail.as_str()),
            AgentError::StoreLocked(detail) => joined(
                "thread store directory is already owned: ",
                detail.as_str(),
            ),
            AgentError::VersionConflict { thread_id, expected, actual } => {
                let mut r = "thread version conflict for ".to_string();
                r.append(thread_id.as_str());
                r.append(": expected ");
                r.append(decimal_text(*expected as u128).as_str());
                r.append(", actual ");
                r.append(decimal_text(*actual as u128).as_str());
                r
            },
            AgentError::RevisionConflict { thread_id, .. } => joined(
                "thread revision conflict for ",
                thread_id.as_str(),
            ),
            AgentError::SuspendedTurn { thread_id, suspension_id } => {
                let mut r = "thread ".to_string();
                r.append(thread_id.as_str());
                r.append(" waits for suspension ");
                r.append(suspension_id.as_str());
                r
            },
            AgentError::SessionCoordinator(detail) => joined(
                "session coordinator error: ",
                detail.as_str(),
            ),
            AgentError::ContextWindowExceeded { estimated, limit } => {
                let mut r = "context window exceeded: estimated ".to_string();
                r.append(decimal_text(*estimated as u128).as_str());
                r.append(" tokens, limit ");
                r.append(decimal_text(*limit as u128).as_str());
                r
            },
            AgentError::ContextCompactorContractViolation { estimated, limit } => {
                let mut r = "context compactor exceeded its budget: estimated ".to_string();
                r.append(decimal_text(*estimated as u128).as_str());
                r.append(" tokens, limit ");
                r.append(decimal_text(*limit as u128).as_str());
                r
            },
            AgentError::TurnNotFound(detail) => joined("turn not found: ", detail.as_str()),
            AgentError::Io(detail) => joined("io error: ", detail.as_str()),
            AgentError::Json(detail) => joined("json error: ", detail.as_str()),
            AgentError::Http(detail) => joined("http error: ", detail.as_str()),
            AgentError::Reqwest(detail) => joined("http client error: ", detail.as_str()),
            AgentError::Model(detail) => joined("model error: ", detail.as_str()),
            AgentError::FunctionNotFound(detail) => joined("function not found: ", detail.as_str()),
            AgentError::Function { name, message } => {
                let mut r = "function error in ".to_string();
                r.append(name.as_str());
                r.append(": ");
                r.append(message.as_str());
                r
            },
            AgentError::InvalidFunctionArguments { name, message } => {
                let mut r = "invalid function arguments for ".to_string();
                r.append(name.as_str());
                r.append(": ");
                r.append(message.as_str());
                r
            },
            AgentError::MaxIterations(detail) => {
                let mut r = "turn exceeded max model iterations: ".to_string();
                r.append(decimal_text(*detail as u128).as_str());
                r
            },
            AgentError::Logging(detail) => joined("logging error: ", detail.as_str()),
        }
    }
}

} // verus!
