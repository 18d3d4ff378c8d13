//! What a store of threads in files does to them.
use crate::error::{AgentError, AgentErrorView};
use crate::ids::{self, IdSource};
use crate::kernel::events::{
    self, Thread, ThreadView, Turn, TurnItem, TurnItemView, TurnStatus, TurnView,
};
use crate::runtime::turn::machine::opened;
use crate::runtime::turn::transitions;
use crate::text::{contains_char, joined, text_eq};
use crate::views;
use vstd::prelude::*;

verus! {

/// Whether an identifier can name a file of its own.
pub open spec fn valid_thread_id(id: Seq<char>) -> bool {
    id.len() > 0 && id != "."@ && id != ".."@ && !id.contains('/') && !id.contains('\\')
}

/// Refuses an identifier that cannot name a file of its own.
pub fn validate_thread_id(thread_id: &str) -> (r: Result<(), AgentError>)
    ensures
        r is Ok <==> valid_thread_id(thread_id@),
        r matches Err(e) ==> e@ == AgentErrorView::InvalidThreadId(thread_id@),
{
    if thread_id.unicode_len() == 0 || text_eq(thread_id, ".") || text_eq(thread_id, "..")
        || contains_char(thread_id, '/') || contains_char(thread_id, '\\') {
        return Err(AgentError::InvalidThreadId(thread_id.to_string()));
    }
    Ok(())
}

/// The name of the file that holds a thread.
pub fn thread_file_name(thread_id: &str) -> (r: String)
    ensures
        r@ == thread_id@ + ".json"@,
{
    joined(thread_id, ".json")
}

/// The ending of a file that is still being written.
pub fn temporary_extension(ids: &mut IdSource) -> (r: String)
    ensures
        r@ == "json."@ + ids::id_text("write"@, *old(ids)) + ".tmp"@,
        *final(ids) == ids::after(*old(ids), 1),
{
    let mut r = joined("json.", ids.issue("write").as_str());
    r.append(".tmp");
    r
}

/// A thread that was just changed.
pub open spec fn touched(thread: ThreadView, ids: IdSource) -> ThreadView {
    ThreadView { updated_at: ids::stamp(ids), ..thread }
}

/// What comes of saving a whole thread.
pub open spec fn saved(thread: ThreadView, ids: IdSource) -> Result<ThreadView, AgentErrorView> {
    if valid_thread_id(thread.id) {
        Ok(touched(thread, ids))
    } else {
        Err(AgentErrorView::InvalidThreadId(thread.id))
    }
}

/// The thread to be written when a whole thread is saved.
pub fn save(thread: Thread, ids: &IdSource) -> (r: Result<Thread, AgentError>)
    ensures
        views::res(r) == saved(thread@, *ids),
{
    match validate_thread_id(thread.id.as_str()) {
        Ok(()) => {
            let mut thread = thread;
            thread.touch(ids);
            Ok(thread)
        },
        Err(error) => Err(error),
    }
}

/// What comes of appending a turn to a thread; one that is not there yet is made.
pub open spec fn with_turn(
    thread_id: Seq<char>,
    loaded: Result<ThreadView, AgentErrorView>,
    turn: TurnView,
    ids: IdSource,
) -> Result<ThreadView, AgentErrorView> {
    if !valid_thread_id(thread_id) {
        Err(AgentErrorView::InvalidThreadId(thread_id))
    } else {
        match transitions::opened(thread_id, loaded, ids) {
            Ok(thread) => Ok(
                touched(ThreadView { turns: thread.turns.push(turn), ..thread }, ids),
            ),
            Err(e) => Err(e),
        }
    }
}

/// The thread to be written when a turn is appended. A thread that is not there
/// yet is made.
pub fn append_turn(
    thread_id: &str,
    loaded: Result<Thread, AgentError>,
    turn: Turn,
    ids: &IdSource,
) -> (r: Result<Thread, AgentError>)
    ensures
        views::res(r) == with_turn(thread_id@, views::res(loaded), turn@, *ids),
{
    broadcast use crate::views::group_views;

    match validate_thread_id(thread_id) {
        Ok(()) => match opened(thread_id, loaded, ids) {
            Ok(thread) => {
                let mut thread = thread;
                thread.turns.push(turn);
                thread.touch(ids);
                Ok(thread)
            },
            Err(error) => Err(error),
        },
        Err(error) => Err(error),
    }
}

/// A thread with items appended to one of its turns.
pub open spec fn with_items(
    thread: ThreadView,
    turn_id: Seq<char>,
    items: Seq<TurnItemView>,
    ids: IdSource,
) -> Result<ThreadView, AgentErrorView> {
    match events::turn_index(thread.turns, turn_id) {
        Some(i) => {
            let turn = thread.turns[i];
            let longer = TurnView {
                items: turn.items + items,
                updated_at: if items.len() > 0 {
                    ids::stamp(ids)
                } else {
                    turn.updated_at
                },
                ..turn
            };
            Ok(touched(ThreadView { turns: thread.turns.update(i, longer), ..thread }, ids))
        },
        None => Err(AgentErrorView::TurnNotFound(turn_id)),
    }
}

/// What comes of appending items to a turn of the thread under an identifier.
pub open spec fn with_items_in(
    thread_id: Seq<char>,
    loaded: Result<ThreadView, AgentErrorView>,
    turn_id: Seq<char>,
    items: Seq<TurnItemView>,
    ids: IdSource,
) -> Result<ThreadView, AgentErrorView> {
    if !valid_thread_id(thread_id) {
        Err(AgentErrorView::InvalidThreadId(thread_id))
    } else {
        match loaded {
            Ok(thread) => with_items(thread, turn_id, items, ids),
            Err(e) => Err(e),
        }
    }
}

/// The thread to be written when items are appended to one of its turns.
pub fn append_turn_items(
    thread_id: &str,
    loaded: Result<Thread, AgentError>,
    turn_id: &str,
    items: Vec<TurnItem>,
    ids: &IdSource,
) -> (r: Result<Thread, AgentError>)
    ensures
        views::res(r) == with_items_in(
            thread_id@,
            views::res(loaded),
            turn_id@,
            views::all(items@),
            *ids,
        ),
{
    broadcast use crate::views::group_views;

    if let Err(error) = validate_thread_id(thread_id) {
        return Err(error);
    }
    let mut thread = match loaded {
        Ok(thread) => thread,
        Err(error) => {
            return Err(error);
        },
    };
    let ghost before = thread@;
    let ghost added = views::all(items@);
    match thread.find_turn(turn_id) {
        Some(i) => {
            let mut items = items;
            let changed = items.len() > 0;
            let turn = &mut thread.turns[i];
            let ghost turn_before = turn@;
            turn.items.append(&mut items);
            if changed {
                turn.updated_at = ids.timestamp();
            }
            assert(turn@.items =~= turn_before.items + added);
            thread.touch(ids);
            Ok(thread)
        },
        None => Err(AgentError::TurnNotFound(turn_id.to_string())),
    }
}

/// What comes of moving a turn of the thread under an identifier to another state.
pub open spec fn with_status_in(
    thread_id: Seq<char>,
    loaded: Result<ThreadView, AgentErrorView>,
    turn_id: Seq<char>,
    status: TurnStatus,
    ids: IdSource,
) -> Result<ThreadView, AgentErrorView> {
    if !valid_thread_id(thread_id) {
        Err(AgentErrorView::InvalidThreadId(thread_id))
    } else {
        match loaded {
            Ok(thread) => match events::turn_index(thread.turns, turn_id) {
                Some(i) => Ok(
                    touched(
                        ThreadView {
                            turns: thread.turns.update(
                                i,
                                events::with_status(thread.turns[i], status, ids),
                            ),
                            ..thread
                        },
                        ids,
                    ),
                ),
                None => Err(AgentErrorView::TurnNotFound(turn_id)),
            },
            Err(e) => Err(e),
        }
    }
}

/// The thread to be written when one of its turns moves to another state.
pub fn update_turn_status(
    thread_id: &str,
    loaded: Result<Thread, AgentError>,
    turn_id: &str,
    status: TurnStatus,
    ids: &IdSource,
) -> (r: Result<Thread, AgentError>)
    ensures
        views::res(r) == with_status_in(thread_id@, views::res(loaded), turn_id@, status, *ids),
{
    broadcast use crate::views::group_views;

    if let Err(error) = validate_thread_id(thread_id) {
        return Err(error);
    }
    let mut thread = match loaded {
        Ok(thread) => thread,
        Err(error) => {
            return Err(error);
        },
    };
    match thread.find_turn(turn_id) {
        Some(i) => {
            thread.turns[i].set_status(status, ids);
            thread.touch(ids);
            Ok(thread)
        },
        None => Err(AgentError::TurnNotFound(turn_id.to_string())),
    }
}

/// The version of the state that is stored.
pub open spec fn stored_version(stored: Option<ThreadView>) -> u64 {
    match stored {
        Some(thread) => thread.version,
        None => 0,
    }
}

/// What comes of committing a change that was made from a version.
pub open spec fn versioned(
    stored: Option<ThreadView>,
    thread: ThreadView,
    expected_version: u64,
    ids: IdSource,
) -> Result<ThreadView, AgentErrorView> {
    let actual = stored_version(stored);
    if actual == expected_version {
        Ok(
            touched(
                ThreadView {
                    version: if expected_version == u64::MAX {
                        u64::MAX
                    } else {
                        (expected_version + 1) as u64
                    },
                    ..thread
                },
                ids,
            ),
        )
    } else {
        Err(
            AgentErrorView::VersionConflict {
                thread_id: thread.id,
                expected: expected_version,
                actual,
            },
        )
    }
}

/// The thread to be written when a change made from `expected_version` is
/// committed.
pub fn commit(
    stored: Option<&Thread>,
    thread: Thread,
    expected_version: u64,
    ids: &IdSource,
) -> (r: Result<Thread, AgentError>)
    ensures
        views::res(r) == versioned(
            crate::runtime::store::stored_view(stored),
            thread@,
            expected_version,
            *ids,
        ),
{
    let actual = match stored {
        Some(stored) => stored.version,
        None => 0,
    };
    if actual != expected_version {
        return Err(
            AgentError::VersionConflict {
                thread_id: thread.id,
                expected: expected_version,
                actual,
            },
        );
    }
    let mut next = thread;
    next.version = expected_version.saturating_add(1);
    next.touch(ids);
    Ok(next)
}

// ---------------------------------------------------------------------------
// Laws

/// The file of a thread lies where the files of threads lie: its name leads into
/// no other directory.
pub proof fn law_file_stays_in_its_directory(thread_id: Seq<char>)
    requires
        valid_thread_id(thread_id),
    ensures
        !(thread_id + ".json"@).contains('/'),
        !(thread_id + ".json"@).contains('\\'),
        thread_id + ".json"@ != "."@,
        thread_id + ".json"@ != ".."@,
{
    reveal_strlit(".json");
    reveal_strlit(".");
    reveal_strlit("..");
    let name = thread_id + ".json"@;
    assert(name.len() == thread_id.len() + 5);
    assert forall|i: int| 0 <= i < name.len() implies name[i] != '/' && name[i] != '\\' by {
        if i < thread_id.len() {
            assert(name[i] == thread_id[i]);
            assert(thread_id.contains(thread_id[i]));
        }
    }
}

/// Different threads have different files.
pub proof fn law_files_differ(a: Seq<char>, b: Seq<char>)
    requires
        a != b,
    ensures
        a + ".json"@ != b + ".json"@,
{
    reveal_strlit(".json");
    if a + ".json"@ == b + ".json"@ {
        assert((a + ".json"@).len() == a.len() + ".json"@.len());
        assert((b + ".json"@).len() == b.len() + ".json"@.len());
        assert(a =~= (a + ".json"@).take(a.len() as int));
        assert(b =~= (b + ".json"@).take(b.len() as int));
    }
}

/// What was appended to a turn can be read back at its end, and what was there
/// before is still there.
pub proof fn law_appended_items_are_kept(
    thread: ThreadView,
    turn_id: Seq<char>,
    items: Seq<TurnItemView>,
    ids: IdSource,
)
    requires
        with_items(thread, turn_id, items, ids) is Ok,
    ensures
        ({
            let i = events::turn_index(thread.turns, turn_id)->0;
            let after = with_items(thread, turn_id, items, ids)->Ok_0;
            &&& after.turns.len() == thread.turns.len()
            &&& after.turns[i].items == thread.turns[i].items + items
            &&& forall|j: int|
                0 <= j < thread.turns.len() && j != i ==> after.turns[j] == thread.turns[j]
        }),
{
    events::lemma_turn_index(thread.turns, turn_id);
}

} // verus!
