//! Which function calls of a turn still wait for their output.
use crate::ids::IdSource;
use crate::kernel::events::{ThreadView, TurnItemKindView, TurnItemView};
use crate::kernel::model::ModelFunctionCallView;
use crate::runtime::functions::RuntimeEffectView;
use crate::runtime::recording::{self, EntryView};
use crate::runtime::turn::transitions;
use vstd::multiset::Multiset;
use vstd::prelude::*;

verus! {

/// The calls without an answer after one more item.
pub open spec fn after_kind(
    open: Multiset<Seq<char>>,
    kind: TurnItemKindView,
) -> Multiset<Seq<char>> {
    match kind {
        TurnItemKindView::ModelResponse { text, function_calls } => open.add(
            call_ids(function_calls),
        ),
        TurnItemKindView::ModelFunctionCall { call_id, name, arguments } => open.insert(call_id),
        TurnItemKindView::ToolOutput { call_id, name, result } => open.remove(call_id),
        _ => open,
    }
}

/// The identifiers of calls.
pub open spec fn call_ids(calls: Seq<ModelFunctionCallView>) -> Multiset<Seq<char>>
    decreases calls.len(),
{
    if calls.len() == 0 {
        Multiset::empty()
    } else {
        call_ids(calls.drop_last()).insert(calls.last().call_id)
    }
}

/// The calls without an answer after the items of a turn, when `open` were
/// without one before.
pub open spec fn unanswered(
    open: Multiset<Seq<char>>,
    items: Seq<TurnItemView>,
) -> Multiset<Seq<char>>
    decreases items.len(),
{
    if items.len() == 0 {
        open
    } else {
        after_kind(unanswered(open, items.drop_last()), items.last().kind)
    }
}

/// The calls without an answer once `entries` are recorded.
pub open spec fn unanswered_after(
    open: Multiset<Seq<char>>,
    entries: Seq<EntryView>,
) -> Multiset<Seq<char>>
    decreases entries.len(),
{
    if entries.len() == 0 {
        open
    } else {
        after_kind(unanswered_after(open, entries.drop_last()), entries.last().kind)
    }
}

pub proof fn lemma_recorded(
    open: Multiset<Seq<char>>,
    items: Seq<TurnItemView>,
    entries: Seq<EntryView>,
    ids: IdSource,
)
    ensures
        unanswered(open, items + recording::items_for(entries, ids)) == unanswered_after(
            unanswered(open, items),
            entries,
        ),
    decreases entries.len(),
{
    let more = recording::items_for(entries, ids);
    if entries.len() == 0 {
        assert(items + more =~= items);
    } else {
        lemma_recorded(open, items, entries.drop_last(), ids);
        assert((items + more).drop_last() =~= items + recording::items_for(
            entries.drop_last(),
            ids,
        ));
        assert((items + more).last().kind == entries.last().kind);
    }
}

pub proof fn lemma_one_entry(open: Multiset<Seq<char>>, entry: EntryView)
    ensures
        unanswered_after(open, seq![entry]) == after_kind(open, entry.kind),
{
    assert(seq![entry].drop_last() =~= Seq::<EntryView>::empty());
    assert(unanswered_after(open, Seq::<EntryView>::empty()) == open);
}

pub proof fn lemma_entries_concat(
    open: Multiset<Seq<char>>,
    a: Seq<EntryView>,
    b: Seq<EntryView>,
)
    ensures
        unanswered_after(open, a + b) == unanswered_after(unanswered_after(open, a), b),
    decreases b.len(),
{
    if b.len() == 0 {
        assert(a + b =~= a);
    } else {
        lemma_entries_concat(open, a, b.drop_last());
        assert((a + b).drop_last() =~= a + b.drop_last());
        assert((a + b).last() == b.last());
    }
}

pub proof fn lemma_effects_answer_nothing(
    open: Multiset<Seq<char>>,
    thread: ThreadView,
    effects: Seq<RuntimeEffectView>,
)
    ensures
        unanswered_after(open, recording::effect_entries(thread, effects)) == open,
    decreases effects.len(),
{
    let entries = recording::effect_entries(thread, effects);
    if effects.len() > 0 {
        lemma_effects_answer_nothing(open, thread, effects.drop_last());
        assert(entries.drop_last() =~= recording::effect_entries(thread, effects.drop_last()));
        assert(entries.last().kind is GoalUpdated);
    }
}

pub proof fn lemma_skipped_answered(
    open: Multiset<Seq<char>>,
    calls: Seq<ModelFunctionCallView>,
)
    ensures
        unanswered_after(open.add(call_ids(calls)), transitions::skipped_entries(calls)) == open,
    decreases calls.len(),
{
    let entries = transitions::skipped_entries(calls);
    if calls.len() == 0 {
        assert(open.add(call_ids(calls)) =~= open);
    } else {
        let last = calls.last().call_id;
        lemma_skipped_answered(open.insert(last), calls.drop_last());
        assert(open.add(call_ids(calls)) =~= open.insert(last).add(call_ids(calls.drop_last())));
        assert(entries.drop_last() =~= transitions::skipped_entries(calls.drop_last()));
        assert(open.insert(last).remove(last) =~= open);
    }
}

pub proof fn lemma_first_call(calls: Seq<ModelFunctionCallView>, index: int)
    requires
        0 <= index < calls.len(),
    ensures
        call_ids(calls.subrange(index, calls.len() as int)) == call_ids(
            calls.subrange(index + 1, calls.len() as int),
        ).insert(calls[index].call_id),
    decreases calls.len(),
{
    let all = calls.subrange(index, calls.len() as int);
    let rest = calls.subrange(index + 1, calls.len() as int);
    let id = calls[index].call_id;
    if index == calls.len() - 1 {
        assert(all.drop_last() =~= rest);
    } else {
        let shorter = calls.drop_last();
        lemma_first_call(shorter, index);
        assert(all.drop_last() =~= shorter.subrange(index, shorter.len() as int));
        assert(rest.drop_last() =~= shorter.subrange(index + 1, shorter.len() as int));
        let last = calls.last().call_id;
        let fewer = call_ids(rest.drop_last());
        assert(fewer.insert(id).insert(last) =~= fewer.insert(last).insert(id));
    }
}

/// The calls from a place on.
pub open spec fn calls_from(
    calls: Seq<ModelFunctionCallView>,
    index: int,
) -> Multiset<Seq<char>> {
    call_ids(calls.subrange(index, calls.len() as int))
}

} // verus!
