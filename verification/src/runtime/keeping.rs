//! What is kept of a thread when it is stored, and what the built-in functions give.
use crate::agent_core::store as files;
use crate::error::AgentErrorView;
use crate::ids::{self, IdSource};
use crate::json::Json;
use crate::kernel::events::{
    self, GoalStateView, GoalStatus, SuspensionKind, SuspensionView, ThreadView, TurnItemView,
    TurnStatus, TurnView,
};
use crate::kernel::model::FunctionSpecView;
use crate::kernel::revision;
use crate::runtime::functions::{
    self, lookup, FunctionCallExecutionView, FunctionExecutionView, RuntimeEffectView,
    ThreadUpdateView,
};
use crate::runtime::recording::{stands_at, stands_nowhere};
use crate::runtime::store;
use vstd::prelude::*;

verus! {

// ---------------------------------------------------------------------------
// Stores

/// A thread is stored exactly where it was made from the state that is stored, or
/// was never stored where nothing is: then nothing of it changes but the time and
/// the revision, which is numbered one on. Else the two revisions are named.
pub proof fn law_commit_compares_revisions(
    stored: Option<ThreadView>,
    thread: ThreadView,
    ids: IdSource,
)
    ensures
        ({
            let current = match stored {
                Some(kept) => kept.revision,
                None => Seq::empty(),
            };
            match store::committed(stored, thread, ids) {
                Ok(kept) => {
                    &&& thread.revision == current
                    &&& kept == (ThreadView {
                        revision: kept.revision,
                        updated_at: ids::stamp(ids),
                        ..thread
                    })
                    &&& kept.revision.len() == 8
                    &&& thread.revision.len() == 8 && revision::be_value(thread.revision)
                        < u64::MAX ==> revision::be_value(kept.revision) == revision::be_value(
                        thread.revision,
                    ) + 1
                    &&& thread.revision.len() != 8 ==> revision::be_value(kept.revision) == 1
                },
                Err(e) => thread.revision != current && e == (AgentErrorView::RevisionConflict {
                    thread_id: thread.id,
                    expected: thread.revision,
                    actual: current,
                }),
            }
        }),
{
    let n = store::token_number(thread.revision);
    assert(thread.revision.len() == 8 ==> 0 <= revision::be_value(thread.revision)
        <= u64::MAX);
    revision::law_be_bytes_value(
        if n < u64::MAX {
            (n + 1) as u64
        } else {
            u64::MAX
        },
    );
}

/// Items that are appended to a turn stand at its end, in their order, and nothing
/// else changes but the times; a turn that the thread does not have is named.
pub proof fn law_appended_items(
    thread: ThreadView,
    turn_id: Seq<char>,
    items: Seq<TurnItemView>,
    ids: IdSource,
    i: int,
)
    ensures
        stands_at(thread.turns, turn_id, i) ==> {
            &&& files::with_items(thread, turn_id, items, ids) matches Ok(after)
            &&& after == (ThreadView {
                turns: after.turns,
                updated_at: ids::stamp(ids),
                ..thread
            })
            &&& after.turns.len() == thread.turns.len()
            &&& forall|j: int|
                0 <= j < thread.turns.len() && j != i ==> #[trigger] after.turns[j]
                    == thread.turns[j]
            &&& after.turns[i].items == thread.turns[i].items + items
            &&& after.turns[i].id == turn_id
            &&& after.turns[i].status == thread.turns[i].status
            &&& after.turns[i].created_at == thread.turns[i].created_at
        },
        stands_nowhere(thread.turns, turn_id) ==> files::with_items(thread, turn_id, items, ids)
            == Err::<ThreadView, AgentErrorView>(AgentErrorView::TurnNotFound(turn_id)),
{
    events::lemma_turn_index(thread.turns, turn_id);
    if stands_at(thread.turns, turn_id, i) {
        events::lemma_turn_index_is(thread.turns, turn_id, i);
    }
}

/// Whether an identifier can name a file: it is not empty, is no directory that
/// every directory has, and holds nothing that leads into another one.
pub open spec fn names_a_file(id: Seq<char>) -> bool {
    &&& id.len() > 0
    &&& id != seq!['.']
    &&& id != seq!['.', '.']
    &&& forall|i: int| 0 <= i < id.len() ==> #[trigger] id[i] != '/' && id[i] != '\\'
}

proof fn lemma_names_a_file(id: Seq<char>)
    ensures
        files::valid_thread_id(id) == names_a_file(id),
{
    reveal_strlit(".");
    reveal_strlit("..");
    assert("."@ =~= seq!['.']);
    assert(".."@ =~= seq!['.', '.']);
    assert forall|i: int| 0 <= i < id.len() implies id.contains(#[trigger] id[i]) by {}
}

/// A thread is saved as it is, with the time; one whose identifier names no file is
/// refused with that identifier.
pub proof fn law_saved_as_it_is(thread: ThreadView, ids: IdSource)
    ensures
        names_a_file(thread.id) ==> files::saved(thread, ids) == Ok::<ThreadView, AgentErrorView>(
            ThreadView { updated_at: ids::stamp(ids), ..thread },
        ),
        !names_a_file(thread.id) ==> files::saved(thread, ids) == Err::<
            ThreadView,
            AgentErrorView,
        >(AgentErrorView::InvalidThreadId(thread.id)),
{
    lemma_names_a_file(thread.id);
}

/// A turn that is appended is the last one of its thread, after all that were
/// there; a thread that is not there is made with nothing else in it; any other
/// failure to load it is passed on.
pub proof fn law_appended_turn_is_last(
    thread_id: Seq<char>,
    thread: ThreadView,
    failure: AgentErrorView,
    turn: TurnView,
    ids: IdSource,
)
    ensures
        names_a_file(thread_id) ==> {
            &&& files::with_turn(thread_id, Ok(thread), turn, ids) matches Ok(after)
            &&& after == (ThreadView {
                turns: after.turns,
                updated_at: ids::stamp(ids),
                ..thread
            })
            &&& after.turns == thread.turns.push(turn)
        },
        names_a_file(thread_id) && failure is ThreadNotFound ==> {
            &&& files::with_turn(thread_id, Err(failure), turn, ids) matches Ok(after)
            &&& after.id == thread_id
            &&& after.turns =~= seq![turn]
            &&& after.goal is None
            &&& after.version == 0
        },
        names_a_file(thread_id) && !(failure is ThreadNotFound) ==> files::with_turn(
            thread_id,
            Err(failure),
            turn,
            ids,
        ) == Err::<ThreadView, AgentErrorView>(failure),
        !names_a_file(thread_id) ==> files::with_turn(thread_id, Ok(thread), turn, ids) == Err::<
            ThreadView,
            AgentErrorView,
        >(AgentErrorView::InvalidThreadId(thread_id)),
{
    lemma_names_a_file(thread_id);
}

/// A turn that moves to another state keeps all else that it holds, and so does its
/// thread; what cannot be loaded, a turn that is not there and an identifier that
/// names no file are errors.
pub proof fn law_status_is_all_that_moves(
    thread_id: Seq<char>,
    thread: ThreadView,
    failure: AgentErrorView,
    turn_id: Seq<char>,
    status: TurnStatus,
    items: Seq<TurnItemView>,
    ids: IdSource,
    i: int,
)
    ensures
        names_a_file(thread_id) && stands_at(thread.turns, turn_id, i) ==> {
            &&& files::with_status_in(thread_id, Ok(thread), turn_id, status, ids) matches Ok(after)
            &&& after == (ThreadView {
                turns: after.turns,
                updated_at: ids::stamp(ids),
                ..thread
            })
            &&& after.turns.len() == thread.turns.len()
            &&& forall|j: int|
                0 <= j < thread.turns.len() && j != i ==> #[trigger] after.turns[j]
                    == thread.turns[j]
            &&& after.turns[i].status == status
            &&& after.turns[i].id == turn_id
            &&& after.turns[i].items == thread.turns[i].items
            &&& after.turns[i].created_at == thread.turns[i].created_at
        },
        names_a_file(thread_id) && stands_nowhere(thread.turns, turn_id) ==> files::with_status_in(
            thread_id,
            Ok(thread),
            turn_id,
            status,
            ids,
        ) == Err::<ThreadView, AgentErrorView>(AgentErrorView::TurnNotFound(turn_id)),
        names_a_file(thread_id) ==> {
            &&& files::with_status_in(thread_id, Err(failure), turn_id, status, ids) == Err::<
                ThreadView,
                AgentErrorView,
            >(failure)
            &&& files::with_items_in(thread_id, Err(failure), turn_id, items, ids) == Err::<
                ThreadView,
                AgentErrorView,
            >(failure)
            &&& files::with_items_in(thread_id, Ok(thread), turn_id, items, ids)
                == files::with_items(thread, turn_id, items, ids)
        },
        !names_a_file(thread_id) ==> {
            &&& files::with_status_in(thread_id, Ok(thread), turn_id, status, ids) == Err::<
                ThreadView,
                AgentErrorView,
            >(AgentErrorView::InvalidThreadId(thread_id))
            &&& files::with_items_in(thread_id, Ok(thread), turn_id, items, ids) == Err::<
                ThreadView,
                AgentErrorView,
            >(AgentErrorView::InvalidThreadId(thread_id))
        },
{
    lemma_names_a_file(thread_id);
    events::lemma_turn_index(thread.turns, turn_id);
    if stands_at(thread.turns, turn_id, i) {
        events::lemma_turn_index_is(thread.turns, turn_id, i);
    }
}

/// A change is committed exactly where it was made from the version that is stored,
/// or from version 0 where nothing is: then nothing of it changes but the time and
/// the version, which is one more, up to the largest. Else the two versions are
/// named.
pub proof fn law_commit_compares_versions(
    stored: Option<ThreadView>,
    thread: ThreadView,
    expected: u64,
    ids: IdSource,
)
    ensures
        ({
            let current = match stored {
                Some(kept) => kept.version,
                None => 0,
            };
            match files::versioned(stored, thread, expected, ids) {
                Ok(kept) => {
                    &&& expected == current
                    &&& kept == (ThreadView {
                        version: kept.version,
                        updated_at: ids::stamp(ids),
                        ..thread
                    })
                    &&& expected < u64::MAX ==> kept.version == expected + 1
                    &&& expected == u64::MAX ==> kept.version == expected
                },
                Err(e) => expected != current && e == (AgentErrorView::VersionConflict {
                    thread_id: thread.id,
                    expected,
                    actual: current,
                }),
            }
        }),
{
}

/// Of two changes made from one version, the second is refused once the first is
/// stored. (The numbering must not have reached its end.)
pub proof fn law_second_change_is_refused(
    stored: Option<ThreadView>,
    first: ThreadView,
    second: ThreadView,
    expected: u64,
    ids: IdSource,
    later: IdSource,
)
    requires
        files::versioned(stored, first, expected, ids) is Ok,
        expected < u64::MAX,
    ensures
        files::versioned(
            Some(files::versioned(stored, first, expected, ids)->Ok_0),
            second,
            expected,
            later,
        ) == Err::<ThreadView, AgentErrorView>(
            AgentErrorView::VersionConflict {
                thread_id: second.id,
                expected,
                actual: (expected + 1) as u64,
            },
        ),
{
}

// ---------------------------------------------------------------------------
// Functions

/// The function that a name reaches is registered under that name, and none that is
/// registered later has the name; a name that reaches none is registered nowhere.
pub proof fn law_lookup_by_name<H>(entries: Seq<(FunctionSpecView, H)>, name: Seq<char>)
    ensures
        match lookup(entries, name) {
            Some(entry) => entry.0.name == name && exists|i: int|
                0 <= i < entries.len() && #[trigger] entries[i] == entry && forall|j: int|
                    i < j < entries.len() ==> (#[trigger] entries[j]).0.name != name,
            None => forall|j: int| 0 <= j < entries.len() ==> (#[trigger] entries[j]).0.name
                != name,
        },
    decreases entries.len(),
{
    if entries.len() > 0 {
        let less = entries.drop_last();
        let last = entries.len() - 1;
        law_lookup_by_name(less, name);
        assert(entries[last] == entries.last());
        assert forall|j: int| 0 <= j < last implies #[trigger] entries[j] == less[j] by {}
        if entries.last().0.name != name {
            if let Some(entry) = lookup(less, name) {
                let i = choose|i: int|
                    0 <= i < less.len() && #[trigger] less[i] == entry && forall|j: int|
                        i < j < less.len() ==> (#[trigger] less[j]).0.name != name;
                assert(entries[i] == entry);
            }
        }
    }
}

/// Whether a JSON value is the object of a goal.
pub open spec fn is_goal(value: Json, goal: GoalStateView) -> bool {
    &&& value matches Json::Fields(fields)
    &&& fields.dom() == set!["objective"@, "status"@, "notes"@]
    &&& fields["objective"@] == Json::Text(goal.objective)
    &&& fields["status"@] == Json::Text(
        match goal.status {
            GoalStatus::Active => "active"@,
            GoalStatus::Complete => "complete"@,
            GoalStatus::Blocked => "blocked"@,
        },
    )
    &&& match goal.notes {
        Some(notes) => fields["notes"@] == Json::Text(notes),
        None => fields["notes"@] is Null,
    }
}

/// A goal is given with all that it holds; where there is none, nothing is.
pub proof fn law_goal_is_given(goal: Option<GoalStateView>)
    ensures
        functions::goal_output(goal) matches Json::Fields(fields) && fields.dom() == set!["goal"@]
            && match goal {
            Some(goal) => is_goal(fields["goal"@], goal),
            None => fields["goal"@] is Null,
        },
{
    reveal_strlit("objective");
    reveal_strlit("status");
    reveal_strlit("notes");
    assert("objective"@.len() == 9 && "status"@.len() == 6 && "notes"@.len() == 5);
    if let Some(goal) = goal {
        assert(functions::goal_json(goal) matches Json::Fields(fields) && fields.dom()
            =~= set!["objective"@, "status"@, "notes"@]);
    }
    assert(functions::goal_output(goal) matches Json::Fields(fields) && fields.dom()
        =~= set!["goal"@]);
}

/// A change of the goal asks the runtime to set exactly that goal, and no change
/// asks for nothing.
pub proof fn law_goal_change_is_asked_for(goal: GoalStateView)
    ensures
        functions::effects_for(Some(ThreadUpdateView::Goal(goal))) == seq![
            RuntimeEffectView::SetGoal(goal),
        ],
        functions::effects_for(None).len() == 0,
{
}

/// A call for the goal gives the goal and changes nothing; a call that sets one
/// gives it back and changes the goal to it; and arguments that cannot be read are
/// refused with the reason.
pub proof fn law_goal_calls(
    current: Option<GoalStateView>,
    goal: GoalStateView,
    message: Seq<char>,
)
    ensures
        functions::goal_told(current) == (FunctionExecutionView::Completed {
            output: functions::goal_output(current),
            thread_update: None,
        }),
        functions::goal_set(Ok(goal)) == Ok::<FunctionExecutionView, AgentErrorView>(
            FunctionExecutionView::Completed {
                output: functions::goal_output(Some(goal)),
                thread_update: Some(ThreadUpdateView::Goal(goal)),
            },
        ),
        functions::goal_set(Err(message)) == Err::<FunctionExecutionView, AgentErrorView>(
            AgentErrorView::InvalidFunctionArguments { name: "update_goal"@, message },
        ),
{
}

/// A question stops the turn under an identifier of its own, which the model is
/// told as well; the question is what was asked, and nothing else changes.
pub proof fn law_question_stops_the_turn(prompt: Seq<char>, ids: IdSource)
    ensures
        ({
            &&& functions::question(prompt, ids) matches FunctionExecutionView::Suspended {
                suspension,
                output,
                thread_update,
            }
            &&& thread_update is None
            &&& suspension.id == ids::id_text("req"@, ids)
            &&& suspension.kind == SuspensionKind::UserInput
            &&& suspension.payload matches Json::Fields(asked)
            &&& asked.dom() =~= set!["prompt"@]
            &&& asked["prompt"@] == Json::Text(prompt)
            &&& output matches Json::Fields(fields)
            &&& fields.dom() =~= set!["request_id"@, "prompt"@, "status"@]
            &&& fields["request_id"@] == Json::Text(suspension.id)
            &&& fields["prompt"@] == Json::Text(prompt)
            &&& fields["status"@] == Json::Text("suspended"@)
        }),
{
    reveal_strlit("request_id");
    reveal_strlit("prompt");
    reveal_strlit("status");
    assert("request_id"@.len() == 10 && "prompt"@.len() == 6 && "status"@.len() == 6);
    assert("prompt"@[0] != "status"@[0]);
}

/// The runtime takes a call with the output that it gave and the change that it
/// asks for; a call that stopped the turn has run.
pub proof fn law_call_is_taken_with_its_output(
    output: Json,
    suspension: SuspensionView,
    goal: GoalStateView,
)
    ensures
        functions::taken(FunctionExecutionView::Completed { output, thread_update: None }) == (
        FunctionCallExecutionView::Completed { output, effects: Seq::empty() }),
        functions::taken(
            FunctionExecutionView::Completed {
                output,
                thread_update: Some(ThreadUpdateView::Goal(goal)),
            },
        ) == (FunctionCallExecutionView::Completed {
            output,
            effects: seq![RuntimeEffectView::SetGoal(goal)],
        }),
        functions::taken(
            FunctionExecutionView::Suspended { suspension, output, thread_update: None },
        ) == (FunctionCallExecutionView::SuspendedAfterExecution {
            suspension,
            output,
            effects: Seq::empty(),
        }),
        functions::taken(
            FunctionExecutionView::Suspended {
                suspension,
                output,
                thread_update: Some(ThreadUpdateView::Goal(goal)),
            },
        ) == (FunctionCallExecutionView::SuspendedAfterExecution {
            suspension,
            output,
            effects: seq![RuntimeEffectView::SetGoal(goal)],
        }),
{
}

/// Whether a schema asks for an object: these properties and no other, of which
/// some must be there.
pub open spec fn asks_for(
    schema: Json,
    required: Seq<Seq<char>>,
    properties: Map<Seq<char>, Json>,
) -> bool {
    &&& schema matches Json::Fields(fields)
    &&& fields.dom() =~= set!["type"@, "required"@, "properties"@, "additionalProperties"@]
    &&& fields["type"@] == Json::Text("object"@)
    &&& fields["required"@] matches Json::List(names)
    &&& names.len() == required.len()
    &&& forall|i: int| 0 <= i < names.len() ==> #[trigger] names[i] == Json::Text(required[i])
    &&& fields["properties"@] == Json::Fields(properties)
    &&& fields["additionalProperties"@] == Json::Bool(false)
}

/// A schema of an object asks for what it is made of.
pub proof fn law_schema_asks_for(required: Seq<Seq<char>>, properties: Map<Seq<char>, Json>)
    ensures
        asks_for(
            functions::object_schema(functions::json_texts(required), properties),
            required,
            properties,
        ),
{
    reveal_strlit("type");
    reveal_strlit("required");
    reveal_strlit("properties");
    reveal_strlit("additionalProperties");
    assert("type"@.len() == 4 && "required"@.len() == 8 && "properties"@.len() == 10
        && "additionalProperties"@.len() == 20);
}

/// The built-in functions are offered under their names, with what they take: none
/// for the goal; an objective, one of three states and notes to set it, of which the
/// notes may be left out; and a question for the user.
pub proof fn law_built_in_functions_are_offered()
    ensures
        functions::get_goal_view().name == "get_goal"@,
        functions::get_goal_view().parameters matches Json::Fields(none) && none.dom() =~= set![
            "type"@,
            "properties"@,
            "additionalProperties"@,
        ] && none["type"@] == Json::Text("object"@) && none["properties"@] == Json::Fields(
            Map::empty(),
        ) && none["additionalProperties"@] == Json::Bool(false),
        functions::update_goal_view().name == "update_goal"@,
        ({
            &&& functions::update_goal_view().parameters matches Json::Fields(fields)
            &&& fields["properties"@] matches Json::Fields(properties)
            &&& properties.dom() =~= set!["objective"@, "status"@, "notes"@]
            &&& asks_for(
                functions::update_goal_view().parameters,
                seq!["objective"@, "status"@],
                properties,
            )
            &&& properties["objective"@] == functions::text_schema()
            &&& properties["notes"@] == functions::text_schema()
            &&& properties["status"@] matches Json::Fields(status)
            &&& status.dom() =~= set!["type"@, "enum"@]
            &&& status["type"@] == Json::Text("string"@)
            &&& status["enum"@] matches Json::List(states)
            &&& states =~= seq![
                Json::Text("active"@),
                Json::Text("complete"@),
                Json::Text("blocked"@),
            ]
        }),
        functions::ask_user_view().name == "ask_user"@,
        ({
            &&& functions::ask_user_view().parameters matches Json::Fields(fields)
            &&& fields["properties"@] matches Json::Fields(properties)
            &&& properties.dom() =~= set!["prompt"@]
            &&& asks_for(functions::ask_user_view().parameters, seq!["prompt"@], properties)
            &&& properties["prompt"@] == functions::text_schema()
        }),
        functions::text_schema() matches Json::Fields(text) && text.dom() =~= set!["type"@]
            && text["type"@] == Json::Text("string"@),
{
    reveal_strlit("type");
    reveal_strlit("required");
    reveal_strlit("properties");
    reveal_strlit("additionalProperties");
    reveal_strlit("enum");
    reveal_strlit("objective");
    reveal_strlit("status");
    reveal_strlit("notes");
    assert("type"@.len() == 4 && "required"@.len() == 8 && "properties"@.len() == 10
        && "additionalProperties"@.len() == 20 && "enum"@.len() == 4);
    assert("type"@[0] != "enum"@[0]);
    assert("objective"@.len() == 9 && "status"@.len() == 6 && "notes"@.len() == 5);
    let goal = functions::update_goal_parameters()->Fields_0["properties"@]->Fields_0;
    law_schema_asks_for(seq!["objective"@, "status"@], goal);
    let asked = functions::ask_user_view().parameters->Fields_0["properties"@]->Fields_0;
    law_schema_asks_for(seq!["prompt"@], asked);
}

} // verus!
