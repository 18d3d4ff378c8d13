//! How a running turn is written into its thread.
use crate::error::{AgentError, AgentErrorView};
use crate::ids::{self, IdSource};
use crate::kernel::events::{
    self, Thread, ThreadView, TokenUsage, TurnItem, TurnItemKind, TurnItemKindView, TurnItemSource,
    TurnItemView, TurnStatus, TurnView,
};
use crate::kernel::projection::{self, ThreadProjection};
use crate::runtime::functions::{RuntimeEffect, RuntimeEffectView};
use crate::views;
use vstd::prelude::*;

verus! {

/// Something to be recorded: an item that has no identifier yet.
#[derive(Debug, PartialEq)]
pub struct Entry {
    pub source: TurnItemSource,
    pub kind: TurnItemKind,
}

/// What a `Entry` holds.
#[verifier::ext_equal]
pub struct EntryView {
    pub source: TurnItemSource,
    pub kind: TurnItemKindView,
}

impl View for Entry {
    type V = EntryView;

    open spec fn view(&self) -> EntryView {
        EntryView {
            source: self.source,
            kind: self.kind@,
        }
    }
}

impl Clone for Entry {
    fn clone(&self) -> (r: Self)
        ensures
            r@ == self@,
    {
        Entry {
            source: self.source,
            kind: self.kind.clone(),
        }
    }
}

/// The items that record `entries`, each under the next identifier.
pub open spec fn items_for(entries: Seq<EntryView>, ids: IdSource) -> Seq<TurnItemView> {
    Seq::new(
        entries.len(),
        |k: int| events::item_view(ids::after(ids, k as nat), entries[k].source, entries[k].kind),
    )
}

/// A turn with `entries` recorded at its end.
pub open spec fn turn_with(turn: TurnView, entries: Seq<EntryView>, ids: IdSource) -> TurnView {
    TurnView {
        items: turn.items + items_for(entries, ids),
        updated_at: if entries.len() > 0 {
            ids::stamp(ids)
        } else {
            turn.updated_at
        },
        ..turn
    }
}

/// A thread with another turn in a place.
pub open spec fn replace_turn(thread: ThreadView, i: int, turn: TurnView) -> ThreadView {
    ThreadView { turns: thread.turns.update(i, turn), ..thread }
}

/// A thread with `entries` recorded in one of its turns, if it has that turn.
pub open spec fn with_entries(
    thread: ThreadView,
    turn_id: Seq<char>,
    entries: Seq<EntryView>,
    ids: IdSource,
) -> Option<ThreadView> {
    match events::turn_index(thread.turns, turn_id) {
        Some(i) => Some(replace_turn(thread, i, turn_with(thread.turns[i], entries, ids))),
        None => None,
    }
}

/// A thread with one of its turns in another state, if it has that turn.
pub open spec fn with_turn_status(
    thread: ThreadView,
    turn_id: Seq<char>,
    status: TurnStatus,
    ids: IdSource,
) -> Option<ThreadView> {
    match events::turn_index(thread.turns, turn_id) {
        Some(i) => Some(
            replace_turn(thread, i, events::with_status(thread.turns[i], status, ids)),
        ),
        None => None,
    }
}

/// A thread with `entries` recorded in a turn that then changes its state, if it
/// has that turn.
pub open spec fn with_ending(
    thread: ThreadView,
    turn_id: Seq<char>,
    entries: Seq<EntryView>,
    status: TurnStatus,
    ids: IdSource,
) -> Option<ThreadView> {
    match with_entries(thread, turn_id, entries, ids) {
        Some(t) => with_turn_status(t, turn_id, status, ids::after(ids, entries.len())),
        None => None,
    }
}

/// The entry for a turn that failed.
pub open spec fn failure(error: Seq<char>) -> Seq<EntryView> {
    seq![
        EntryView {
            source: TurnItemSource::Runtime,
            kind: TurnItemKindView::TurnFailed { error },
        },
    ]
}

/// The entry for a turn that was aborted.
pub open spec fn abortion(reason: Seq<char>) -> Seq<EntryView> {
    seq![
        EntryView {
            source: TurnItemSource::Runtime,
            kind: TurnItemKindView::TurnAborted { reason },
        },
    ]
}

/// The entries for what a function asks the runtime for. Each goal update names
/// the goal that the thread had before the call.
pub open spec fn effect_entries(
    thread: ThreadView,
    effects: Seq<RuntimeEffectView>,
) -> Seq<EntryView> {
    Seq::new(
        effects.len(),
        |k: int|
            match effects[k] {
                RuntimeEffectView::SetGoal(goal) => EntryView {
                    source: TurnItemSource::Runtime,
                    kind: TurnItemKindView::GoalUpdated {
                        previous: projection::project(thread).goal,
                        current: goal,
                    },
                },
            },
    )
}

// ---------------------------------------------------------------------------

/// The items that record `entries`.
pub fn make_items(entries: Vec<Entry>, ids: &mut IdSource) -> (r: Vec<TurnItem>)
    ensures
        views::all(r@) == items_for(views::all(entries@), *old(ids)),
        *final(ids) == ids::after(*old(ids), entries@.len()),
{
    let mut items: Vec<TurnItem> = Vec::new();
    let mut i: usize = 0;
    while i < entries.len()
        invariant
            i <= entries@.len(),
            items@.len() == i,
            *ids == ids::after(*old(ids), i as nat),
            forall|k: int|
                0 <= k < i ==> (#[trigger] items@[k])@ == items_for(
                    views::all(entries@),
                    *old(ids),
                )[k],
        decreases entries@.len() - i,
    {
        proof {
            ids::lemma_after_after(*old(ids), i as nat, 1);
        }
        items.push(TurnItem::new(entries[i].source, entries[i].kind.clone(), ids));
        i = i + 1;
    }
    assert(views::all(items@) =~= items_for(views::all(entries@), *old(ids)));
    items
}

/// Records `entries` in the turn `turn_id`.
pub fn push_turn_items(
    thread: &mut Thread,
    turn_id: &str,
    entries: Vec<Entry>,
    ids: &mut IdSource,
) -> (r: Result<(), AgentError>)
    ensures
        *final(ids) == ids::after(*old(ids), entries@.len()),
        match with_entries(old(thread)@, turn_id@, views::all(entries@), *old(ids)) {
            Some(t) => r is Ok && final(thread)@ == t,
            None => r matches Err(e) && e@ == AgentErrorView::TurnNotFound(turn_id@)
                && *final(thread) == *old(thread),
        },
{
    broadcast use crate::views::group_views;

    let ghost all_entries = views::all(entries@);
    let mut items = make_items(entries, ids);
    let stamp_source = *ids;
    match thread.find_turn(turn_id) {
        Some(i) => {
            let changed = items.len() > 0;
            let ghost before = thread.turns@[i as int]@;
            assert(before == thread@.turns[i as int]);
            let ghost old_items = items@;
            let turn = &mut thread.turns[i];
            turn.items.append(&mut items);
            if changed {
                turn.updated_at = stamp_source.timestamp();
            }
            assert(turn@ =~= turn_with(before, all_entries, *old(ids)));
            Ok(())
        },
        None => Err(AgentError::TurnNotFound(turn_id.to_string())),
    }
}

/// A turn with items at its end that were made before.
pub open spec fn turn_with_items(
    turn: TurnView,
    items: Seq<TurnItemView>,
    ids: IdSource,
) -> TurnView {
    TurnView {
        items: turn.items + items,
        updated_at: if items.len() > 0 {
            ids::stamp(ids)
        } else {
            turn.updated_at
        },
        ..turn
    }
}

/// A thread with items that were made before at the end of one of its turns, if
/// it has that turn.
pub open spec fn with_made_items(
    thread: ThreadView,
    turn_id: Seq<char>,
    items: Seq<TurnItemView>,
    ids: IdSource,
) -> Option<ThreadView> {
    match events::turn_index(thread.turns, turn_id) {
        Some(i) => Some(replace_turn(thread, i, turn_with_items(thread.turns[i], items, ids))),
        None => None,
    }
}

/// Puts items that were made before at the end of the turn `turn_id`.
pub fn append_items(
    thread: &mut Thread,
    turn_id: &str,
    items: Vec<TurnItem>,
    ids: &IdSource,
) -> (r: Result<(), AgentError>)
    ensures
        match with_made_items(old(thread)@, turn_id@, views::all(items@), *ids) {
            Some(t) => r is Ok && final(thread)@ == t,
            None => r matches Err(e) && e@ == AgentErrorView::TurnNotFound(turn_id@)
                && *final(thread) == *old(thread),
        },
{
    broadcast use crate::views::group_views;

    let ghost added = views::all(items@);
    let mut items = items;
    match thread.find_turn(turn_id) {
        Some(i) => {
            let changed = items.len() > 0;
            let ghost before = thread.turns@[i as int]@;
            assert(before == thread@.turns[i as int]);
            let turn = &mut thread.turns[i];
            turn.items.append(&mut items);
            if changed {
                turn.updated_at = ids.timestamp();
            }
            assert(turn@ =~= turn_with_items(before, added, *ids));
            Ok(())
        },
        None => Err(AgentError::TurnNotFound(turn_id.to_string())),
    }
}

/// Moves the turn `turn_id` to another state.
pub fn set_turn_status(
    thread: &mut Thread,
    turn_id: &str,
    status: TurnStatus,
    ids: &IdSource,
) -> (r: Result<(), AgentError>)
    ensures
        match with_turn_status(old(thread)@, turn_id@, status, *ids) {
            Some(t) => r is Ok && final(thread)@ == t,
            None => r matches Err(e) && e@ == AgentErrorView::TurnNotFound(turn_id@)
                && *final(thread) == *old(thread),
        },
{
    broadcast use crate::views::group_views;

    match thread.turn_mut(turn_id) {
        Some(turn) => {
            turn.set_status(status, ids);
            Ok(())
        },
        None => Err(AgentError::TurnNotFound(turn_id.to_string())),
    }
}

/// Records `entries` and moves the turn to another state.
pub fn end_turn(
    thread: &mut Thread,
    turn_id: &str,
    entries: Vec<Entry>,
    status: TurnStatus,
    ids: &mut IdSource,
) -> (r: Result<(), AgentError>)
    ensures
        *final(ids) == ids::after(*old(ids), entries@.len()),
        match with_ending(old(thread)@, turn_id@, views::all(entries@), status, *old(ids)) {
            Some(t) => r is Ok && final(thread)@ == t,
            None => r matches Err(e) && e@ == AgentErrorView::TurnNotFound(turn_id@)
                && *final(thread) == *old(thread),
        },
{
    proof {
        lemma_ending_found(thread@, turn_id@, views::all(entries@), status, *ids);
    }
    match push_turn_items(thread, turn_id, entries, ids) {
        Ok(()) => set_turn_status(thread, turn_id, status, ids),
        Err(error) => Err(error),
    }
}

/// Records that the turn failed.
pub fn fail_turn(
    thread: &mut Thread,
    turn_id: &str,
    error: String,
    ids: &mut IdSource,
) -> (r: Result<(), AgentError>)
    ensures
        *final(ids) == ids::after(*old(ids), 1),
        match with_ending(
            old(thread)@,
            turn_id@,
            failure(error@),
            TurnStatus::Failed,
            *old(ids),
        ) {
            Some(t) => r is Ok && final(thread)@ == t,
            None => r matches Err(e) && e@ == AgentErrorView::TurnNotFound(turn_id@)
                && *final(thread) == *old(thread),
        },
{
    let mut entries: Vec<Entry> = Vec::new();
    entries.push(
        Entry { source: TurnItemSource::Runtime, kind: TurnItemKind::TurnFailed { error } },
    );
    assert(views::all(entries@) =~= failure(error@));
    end_turn(thread, turn_id, entries, TurnStatus::Failed, ids)
}

/// Records that the turn was aborted.
pub fn abort_turn(
    thread: &mut Thread,
    turn_id: &str,
    reason: String,
    ids: &mut IdSource,
) -> (r: Result<(), AgentError>)
    ensures
        *final(ids) == ids::after(*old(ids), 1),
        match with_ending(
            old(thread)@,
            turn_id@,
            abortion(reason@),
            TurnStatus::Aborted,
            *old(ids),
        ) {
            Some(t) => r is Ok && final(thread)@ == t,
            None => r matches Err(e) && e@ == AgentErrorView::TurnNotFound(turn_id@)
                && *final(thread) == *old(thread),
        },
{
    let mut entries: Vec<Entry> = Vec::new();
    entries.push(
        Entry { source: TurnItemSource::Runtime, kind: TurnItemKind::TurnAborted { reason } },
    );
    assert(views::all(entries@) =~= abortion(reason@));
    end_turn(thread, turn_id, entries, TurnStatus::Aborted, ids)
}

/// The entries for what a function asks the runtime for.
pub fn apply_runtime_effects(thread: &Thread, effects: Vec<RuntimeEffect>) -> (r: Vec<Entry>)
    ensures
        views::all(r@) == effect_entries(thread@, views::all(effects@)),
{
    let mut entries: Vec<Entry> = Vec::new();
    let mut i: usize = 0;
    while i < effects.len()
        invariant
            i <= effects@.len(),
            entries@.len() == i,
            forall|k: int|
                0 <= k < i ==> (#[trigger] entries@[k])@ == effect_entries(
                    thread@,
                    views::all(effects@),
                )[k],
        decreases effects@.len() - i,
    {
        match &effects[i] {
            RuntimeEffect::SetGoal(goal) => {
                let previous = ThreadProjection::from_thread(thread).goal;
                entries.push(
                    Entry {
                        source: TurnItemSource::Runtime,
                        kind: TurnItemKind::GoalUpdated { previous, current: goal.clone() },
                    },
                );
            },
        }
        i = i + 1;
    }
    assert(views::all(entries@) =~= effect_entries(thread@, views::all(effects@)));
    entries
}

/// Charges a turn's usage to its thread.
pub fn apply_turn_token_usage(thread: &mut Thread, usage: TokenUsage)
    ensures
        final(thread)@ == (ThreadView {
            token_usage: events::usage_sum(old(thread)@.token_usage, usage),
            ..old(thread)@
        }),
{
    if !usage.is_zero() {
        thread.token_usage.add_assign(usage);
    } else {
        proof {
            events::law_usage_sum(thread@.token_usage, usage, usage);
        }
    }
}

// ---------------------------------------------------------------------------
// Laws

/// Recording in a turn neither removes a turn nor renames one.
pub proof fn lemma_replace_keeps_ids(
    turns: Seq<TurnView>,
    i: int,
    turn: TurnView,
    turn_id: Seq<char>,
)
    requires
        0 <= i < turns.len(),
        turn.id == turns[i].id,
    ensures
        events::turn_index(turns.update(i, turn), turn_id) == events::turn_index(turns, turn_id),
{
    let changed = turns.update(i, turn);
    events::lemma_turn_index(turns, turn_id);
    events::lemma_turn_index(changed, turn_id);
    assert forall|j: int| 0 <= j < turns.len() implies (#[trigger] turns[j]).id
        == changed[j].id by {}
    assert forall|j: int| 0 <= j < turns.len() implies (#[trigger] changed[j]).id
        == turns[j].id by {}
}

/// A turn that can be written to can also be ended.
pub proof fn lemma_ending_found(
    thread: ThreadView,
    turn_id: Seq<char>,
    entries: Seq<EntryView>,
    status: TurnStatus,
    ids: IdSource,
)
    ensures
        with_ending(thread, turn_id, entries, status, ids) is Some <==> events::turn_index(
            thread.turns,
            turn_id,
        ) is Some,
        events::turn_index(thread.turns, turn_id) matches Some(i) ==> with_ending(
            thread,
            turn_id,
            entries,
            status,
            ids,
        ) == Some(
            replace_turn(
                thread,
                i,
                events::with_status(turn_with(thread.turns[i], entries, ids), status, ids),
            ),
        ),
{
    events::lemma_turn_index(thread.turns, turn_id);
    if let Some(i) = events::turn_index(thread.turns, turn_id) {
        let turn = turn_with(thread.turns[i], entries, ids);
        lemma_replace_keeps_ids(thread.turns, i, turn, turn_id);
        assert(thread.turns.update(i, turn).update(
            i,
            events::with_status(turn, status, ids),
        ) =~= thread.turns.update(i, events::with_status(turn, status, ids)));
    }
}

/// `later` holds all that `earlier` held: no turn is lost, renamed or reordered,
/// and each keeps its items in order.
pub open spec fn extends(earlier: Seq<TurnView>, later: Seq<TurnView>) -> bool {
    &&& earlier.len() <= later.len()
    &&& forall|i: int|
        0 <= i < earlier.len() ==> (#[trigger] earlier[i]).id == later[i].id
            && earlier[i].items.is_prefix_of(later[i].items)
}

/// `later` holds the turns of `earlier`, and all but the one with an identifier
/// are as they were; that one has only been added to.
pub open spec fn works_on(
    earlier: Seq<TurnView>,
    later: Seq<TurnView>,
    turn_id: Seq<char>,
) -> bool {
    &&& extends(earlier, later)
    &&& earlier.len() == later.len()
    &&& forall|i: int|
        0 <= i < earlier.len() && (#[trigger] earlier[i]).id != turn_id ==> later[i] == earlier[i]
}

/// Turn items are append-only: recording keeps every item that was there, and
/// every turn but the one that it records in.
pub proof fn law_recording_appends(
    thread: ThreadView,
    turn_id: Seq<char>,
    entries: Seq<EntryView>,
    status: TurnStatus,
    ids: IdSource,
)
    ensures
        with_entries(thread, turn_id, entries, ids) matches Some(t) ==> works_on(
            thread.turns,
            t.turns,
            turn_id,
        ),
        with_ending(thread, turn_id, entries, status, ids) matches Some(t) ==> works_on(
            thread.turns,
            t.turns,
            turn_id,
        ),
{
    events::lemma_turn_index(thread.turns, turn_id);
    lemma_ending_found(thread, turn_id, entries, status, ids);
}

/// Keeping all that was held carries over from step to step.
pub proof fn lemma_works_chain(
    a: Seq<TurnView>,
    b: Seq<TurnView>,
    c: Seq<TurnView>,
    turn_id: Seq<char>,
)
    requires
        works_on(a, b, turn_id),
        works_on(b, c, turn_id),
    ensures
        works_on(a, c, turn_id),
{
    assert forall|i: int| 0 <= i < a.len() implies (#[trigger] a[i]).id == c[i].id
        && a[i].items.is_prefix_of(c[i].items) by {
        assert(b[i].id == c[i].id);
        assert(a[i].items =~= c[i].items.take(a[i].items.len() as int));
    }
}

/// Whether the first turn with an identifier stands at a place.
pub open spec fn stands_at(turns: Seq<TurnView>, turn_id: Seq<char>, i: int) -> bool {
    &&& 0 <= i < turns.len()
    &&& turns[i].id == turn_id
    &&& forall|j: int| 0 <= j < i ==> (#[trigger] turns[j]).id != turn_id
}

/// Whether no turn has an identifier.
pub open spec fn stands_nowhere(turns: Seq<TurnView>, turn_id: Seq<char>) -> bool {
    forall|j: int| 0 <= j < turns.len() ==> (#[trigger] turns[j]).id != turn_id
}

/// Whether a thread is an earlier one with nothing changed but the turn at a
/// place: that one is in the given state, and has one item more at its end for
/// each of the given entries, in their order, no two under one identifier.
pub open spec fn gains(
    before: ThreadView,
    after: ThreadView,
    i: int,
    entries: Seq<EntryView>,
    status: TurnStatus,
) -> bool {
    let was = before.turns[i];
    let is = after.turns[i];
    &&& after.schema_version == before.schema_version
    &&& after.id == before.id
    &&& after.goal == before.goal
    &&& after.token_usage == before.token_usage
    &&& after.version == before.version
    &&& after.revision == before.revision
    &&& after.created_at == before.created_at
    &&& after.updated_at == before.updated_at
    &&& after.turns.len() == before.turns.len()
    &&& forall|j: int|
        0 <= j < before.turns.len() && j != i ==> #[trigger] after.turns[j] == before.turns[j]
    &&& is.id == was.id
    &&& is.created_at == was.created_at
    &&& is.status == status
    &&& is.items.len() == was.items.len() + entries.len()
    &&& forall|k: int| 0 <= k < was.items.len() ==> #[trigger] is.items[k] == was.items[k]
    &&& forall|k: int|
        was.items.len() <= k < is.items.len() ==> (#[trigger] is.items[k]).kind == entries[k
            - was.items.len()].kind && is.items[k].source == entries[k - was.items.len()].source
    &&& entries.len() <= u64::MAX ==> forall|k: int, l: int|
        was.items.len() <= k < l < is.items.len() ==> (#[trigger] is.items[k]).id != (
        #[trigger] is.items[l]).id
}

/// What is recorded in a turn is what the turn gains, whether or not its state
/// changes; and nothing can be recorded in a turn that the thread does not have.
pub proof fn law_recorded_is_gained(
    thread: ThreadView,
    turn_id: Seq<char>,
    i: int,
    entries: Seq<EntryView>,
    status: TurnStatus,
    ids: IdSource,
)
    ensures
        stands_at(thread.turns, turn_id, i) ==> {
            let written = with_entries(thread, turn_id, entries, ids);
            let ended = with_ending(thread, turn_id, entries, status, ids);
            &&& written is Some
            &&& gains(thread, written->0, i, entries, thread.turns[i].status)
            &&& ended is Some
            &&& gains(thread, ended->0, i, entries, status)
            &&& ended->0.turns[i].updated_at == ids::stamp(ids)
            &&& entries.len() > 0 ==> written->0.turns[i].updated_at == ids::stamp(ids)
        },
        stands_nowhere(thread.turns, turn_id) ==> {
            &&& with_entries(thread, turn_id, entries, ids) is None
            &&& with_ending(thread, turn_id, entries, status, ids) is None
        },
{
    events::lemma_turn_index(thread.turns, turn_id);
    lemma_ending_found(thread, turn_id, entries, status, ids);
    if stands_at(thread.turns, turn_id, i) {
        events::lemma_turn_index_is(thread.turns, turn_id, i);
        let was = thread.turns[i];
        let more = items_for(entries, ids);
        let items = was.items + more;
        if entries.len() <= u64::MAX {
            assert forall|k: int, l: int| was.items.len() <= k < l < items.len() implies (
            #[trigger] items[k]).id != (#[trigger] items[l]).id by {
                let a = (k - was.items.len()) as nat;
                let b = (l - was.items.len()) as nat;
                ids::law_counters_differ(ids, a, b);
                ids::law_ids_differ("item"@, ids::after(ids, a), "item"@, ids::after(ids, b));
            }
        }
    }
}

/// A turn that changes its state gains nothing else.
pub proof fn law_state_is_all_that_changes(
    thread: ThreadView,
    turn_id: Seq<char>,
    i: int,
    status: TurnStatus,
    ids: IdSource,
)
    ensures
        stands_at(thread.turns, turn_id, i) ==> {
            let moved = with_turn_status(thread, turn_id, status, ids);
            &&& moved is Some
            &&& gains(thread, moved->0, i, Seq::empty(), status)
            &&& moved->0.turns[i].updated_at == ids::stamp(ids)
        },
        stands_nowhere(thread.turns, turn_id) ==> with_turn_status(
            thread,
            turn_id,
            status,
            ids,
        ) is None,
{
    events::lemma_turn_index(thread.turns, turn_id);
    if stands_at(thread.turns, turn_id, i) {
        events::lemma_turn_index_is(thread.turns, turn_id, i);
    }
}

} // verus!
