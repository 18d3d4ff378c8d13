//! What a store keeps, and when it takes a changed thread.
use crate::error::{AgentError, AgentErrorView};
use crate::ids::{self, IdSource};
use crate::kernel::events::{Thread, ThreadView};
use crate::kernel::revision::{self, RevisionToken};
use crate::views;
use vstd::prelude::*;

verus! {

/// A summary of the oldest messages of a thread, kept between requests.
#[derive(Debug, PartialEq)]
pub struct ThreadContextCache {
    pub thread_id: String,
    /// The state of the thread that the summary was made from.
    pub source_revision: RevisionToken,
    pub policy_version: String,
    /// How many messages the summary stands for.
    pub covered_message_count: usize,
    pub summary: String,
}

/// What a `ThreadContextCache` holds.
#[verifier::ext_equal]
pub struct ThreadContextCacheView {
    pub thread_id: Seq<char>,
    pub source_revision: Seq<u8>,
    pub policy_version: Seq<char>,
    pub covered_message_count: usize,
    pub summary: Seq<char>,
}

impl View for ThreadContextCache {
    type V = ThreadContextCacheView;

    open spec fn view(&self) -> ThreadContextCacheView {
        ThreadContextCacheView {
            thread_id: self.thread_id@,
            source_revision: self.source_revision@,
            policy_version: self.policy_version@,
            covered_message_count: self.covered_message_count,
            summary: self.summary@,
        }
    }
}

impl Clone for ThreadContextCache {
    fn clone(&self) -> (r: Self)
        ensures
            r@ == self@,
    {
        ThreadContextCache {
            thread_id: self.thread_id.clone(),
            source_revision: self.source_revision.clone(),
            policy_version: self.policy_version.clone(),
            covered_message_count: self.covered_message_count,
            summary: self.summary.clone(),
        }
    }
}

/// The number that a token stands for: its eight bytes, or 0 for any other token.
pub open spec fn token_number(token: Seq<u8>) -> int {
    if token.len() == 8 {
        revision::be_value(token)
    } else {
        0
    }
}

/// The token after another.
pub open spec fn next_token(token: Seq<u8>) -> Seq<u8> {
    let n = token_number(token);
    revision::be_bytes(
        if n < u64::MAX {
            (n + 1) as u64
        } else {
            u64::MAX
        },
    )
}

fn token_after(token: &RevisionToken) -> (r: RevisionToken)
    ensures
        r@ == next_token(token@),
{
    let bytes = token.as_bytes();
    let number: u64 = if bytes.len() == 8 {
        let high: u64 = bytes[0] as u64 * 0x100_0000 + bytes[1] as u64 * 0x1_0000 + bytes[2] as u64
            * 0x100 + bytes[3] as u64;
        let low: u64 = bytes[4] as u64 * 0x100_0000 + bytes[5] as u64 * 0x1_0000 + bytes[6] as u64
            * 0x100 + bytes[7] as u64;
        assert(high <= 0xffff_ffff && low <= 0xffff_ffff);
        assert(high * 0x1_0000_0000 + low == revision::be_value(bytes@));
        high * 0x1_0000_0000 + low
    } else {
        0
    };
    RevisionToken::from_u64(number.saturating_add(1))
}

/// The token of the state that is stored.
pub open spec fn stored_token(stored: Option<ThreadView>) -> Seq<u8> {
    match stored {
        Some(thread) => thread.revision,
        None => Seq::empty(),
    }
}

/// What comes of a commit: the thread under the next token, if it was made from
/// the state that is stored.
pub open spec fn committed(
    stored: Option<ThreadView>,
    thread: ThreadView,
    ids: IdSource,
) -> Result<ThreadView, AgentErrorView> {
    if stored_token(stored) == thread.revision {
        Ok(
            ThreadView {
                revision: next_token(thread.revision),
                updated_at: ids::stamp(ids),
                ..thread
            },
        )
    } else {
        Err(
            AgentErrorView::RevisionConflict {
                thread_id: thread.id,
                expected: thread.revision,
                actual: stored_token(stored),
            },
        )
    }
}

/// The view of a thread that may be stored.
pub open spec fn stored_view(stored: Option<&Thread>) -> Option<ThreadView> {
    match stored {
        Some(thread) => Some(thread@),
        None => None,
    }
}

/// Commits `thread` only when its embedded revision still matches storage.
pub fn compare_and_commit(stored: Option<&Thread>, thread: Thread, ids: &IdSource) -> (r: Result<
    Thread,
    AgentError,
>)
    ensures
        views::res(r) == committed(stored_view(stored), thread@, *ids),
{
    let current = match stored {
        Some(stored) => stored.revision.clone(),
        None => RevisionToken::initial(),
    };
    if !current.same(&thread.revision) {
        return Err(
            AgentError::RevisionConflict {
                thread_id: thread.id,
                expected: thread.revision,
                actual: current,
            },
        );
    }
    let mut next = thread;
    next.revision = token_after(&next.revision);
    next.touch(ids);
    Ok(next)
}

/// Of two changes made from one state, only the first is taken: once it is
/// stored, the second is refused. (The numbering must not have reached its end.)
pub proof fn law_second_commit_refused(
    stored: Option<ThreadView>,
    first: ThreadView,
    second: ThreadView,
    ids: IdSource,
    later: IdSource,
)
    requires
        committed(stored, first, ids) is Ok,
        second.revision == first.revision,
        token_number(first.revision) < u64::MAX,
    ensures
        committed(Some(committed(stored, first, ids)->Ok_0), second, later) == Err::<
            ThreadView,
            AgentErrorView,
        >(
            AgentErrorView::RevisionConflict {
                thread_id: second.id,
                expected: second.revision,
                actual: next_token(first.revision),
            },
        ),
{
    let n = (token_number(first.revision) + 1) as u64;
    revision::law_be_bytes_value(n);
    if first.revision.len() == 8 {
        assert(token_number(next_token(first.revision)) == n);
    }
}

/// A change made from the state that is stored is taken, and nothing of it is
/// lost.
pub proof fn law_current_commit_taken(stored: ThreadView, thread: ThreadView, ids: IdSource)
    requires
        thread.revision == stored.revision,
    ensures
        committed(Some(stored), thread, ids) matches Ok(t) && t.turns == thread.turns && t.goal
            == thread.goal && t.token_usage == thread.token_usage && t.id == thread.id,
{
}

} // verus!
