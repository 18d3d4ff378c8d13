//! Where logs and traces go.
use crate::agent_core::store::{self, validate_thread_id};
use crate::text::joined;
use crate::views;
use vstd::prelude::*;

verus! {

/// Why there is no log.
#[derive(Debug, PartialEq)]
pub enum LoggingError {
    Initialization(String),
}

/// What a `LoggingError` holds.
#[verifier::ext_equal]
pub enum LoggingErrorView {
    Initialization(Seq<char>),
}

impl View for LoggingError {
    type V = LoggingErrorView;

    open spec fn view(&self) -> LoggingErrorView {
        match *self {
            LoggingError::Initialization(words) => LoggingErrorView::Initialization(words@),
        }
    }
}

impl Clone for LoggingError {
    fn clone(&self) -> (r: Self)
        ensures
            r@ == self@,
    {
        match self {
            LoggingError::Initialization(words) => LoggingError::Initialization(words.clone()),
        }
    }
}

/// An error in words.
pub open spec fn logging_words(error: LoggingErrorView) -> Seq<char> {
    match error {
        LoggingErrorView::Initialization(words) => "logging error: "@ + words,
    }
}

impl LoggingError {
    /// The error in words.
    pub fn message(&self) -> (r: String)
        ensures
            r@ == logging_words(self@),
    {
        match self {
            LoggingError::Initialization(words) => joined("logging error: ", words.as_str()),
        }
    }
}

/// The name of the log below the state directory.
pub fn log_file_name() -> (r: &'static str)
    ensures
        r@ == "lite-agent.log"@,
{
    "lite-agent.log"
}

/// The name of the directory for traces below the state directory.
pub fn trace_directory_name() -> (r: &'static str)
    ensures
        r@ == "traces"@,
{
    "traces"
}

/// The name of the file for the trace of a thread, if the identifier can name one.
pub open spec fn trace_file(thread_id: Seq<char>) -> Option<Seq<char>> {
    if store::valid_thread_id(thread_id) {
        Some(thread_id + ".jsonl"@)
    } else {
        None
    }
}

/// The name of the file for the trace of a thread, if the identifier can name one.
pub fn trace_file_name(thread_id: &str) -> (r: Option<String>)
    ensures
        views::opt(r) == trace_file(thread_id@),
{
    match validate_thread_id(thread_id) {
        Ok(()) => Some(joined(thread_id, ".jsonl")),
        Err(_) => None,
    }
}

/// Threads do not share traces, and no trace lies outside the directory.
pub proof fn law_one_trace_per_thread(a: Seq<char>, b: Seq<char>)
    requires
        trace_file(a) is Some,
        trace_file(b) is Some,
    ensures
        trace_file(a) == trace_file(b) ==> a == b,
        !trace_file(a)->0.contains('/'),
        !trace_file(a)->0.contains('\\'),
{
    reveal_strlit(".jsonl");
    let x = trace_file(a)->0;
    let y = trace_file(b)->0;
    assert(x.take(a.len() as int) =~= a);
    assert(y.take(b.len() as int) =~= b);
    assert forall|i: int| 0 <= i < x.len() implies #[trigger] x[i] != '/' && x[i] != '\\' by {
        if i < a.len() {
            assert(a.contains(a[i]));
        } else {
            assert(x[i] == ".jsonl"@[i - a.len()]);
        }
    }
}

} // verus!
