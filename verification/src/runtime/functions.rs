//! Functions that a model can call.
use crate::error::{AgentError, AgentErrorView};
use crate::ids::{self, IdSource};
use crate::json::{self, copy_of, null_value, text_list, text_value, Fields, Json};
use crate::kernel::events::{
    GoalState, GoalStateView, GoalStatus, Suspension, SuspensionKind, SuspensionView,
};
use crate::kernel::model::{FunctionSpec, FunctionSpecView};
use crate::kernel::projection::{ThreadProjection, ThreadProjectionView};
use crate::text::{self, comes_before, text_eq};
use crate::views;
use serde_json::Value;
use vstd::prelude::*;

verus! {

/// What a function is told of the turn that it is called in.
#[derive(Debug, PartialEq)]
pub struct FunctionContext {
    pub thread_id: String,
    pub turn_id: String,
    pub call_id: String,
    pub projection: ThreadProjection,
}

/// What a `FunctionContext` holds.
#[verifier::ext_equal]
pub struct FunctionContextView {
    pub thread_id: Seq<char>,
    pub turn_id: Seq<char>,
    pub call_id: Seq<char>,
    pub projection: ThreadProjectionView,
}

impl View for FunctionContext {
    type V = FunctionContextView;

    open spec fn view(&self) -> FunctionContextView {
        FunctionContextView {
            thread_id: self.thread_id@,
            turn_id: self.turn_id@,
            call_id: self.call_id@,
            projection: self.projection@,
        }
    }
}

impl Clone for FunctionContext {
    fn clone(&self) -> (r: Self)
        ensures
            r@ == self@,
    {
        FunctionContext {
            thread_id: self.thread_id.clone(),
            turn_id: self.turn_id.clone(),
            call_id: self.call_id.clone(),
            projection: self.projection.clone(),
        }
    }
}

/// A change that a function asks for.
#[derive(Debug, PartialEq)]
pub enum ThreadUpdate {
    Goal(GoalState),
}

/// What a `ThreadUpdate` holds.
#[verifier::ext_equal]
pub enum ThreadUpdateView {
    Goal(GoalStateView),
}

impl View for ThreadUpdate {
    type V = ThreadUpdateView;

    open spec fn view(&self) -> ThreadUpdateView {
        match *self {
            ThreadUpdate::Goal(goal) => ThreadUpdateView::Goal(goal@),
        }
    }
}

impl Clone for ThreadUpdate {
    fn clone(&self) -> (r: Self)
        ensures
            r@ == self@,
    {
        match self {
            ThreadUpdate::Goal(goal) => ThreadUpdate::Goal(goal.clone()),
        }
    }
}

/// A change that a function asks the runtime for.
#[derive(Debug, PartialEq)]
pub enum RuntimeEffect {
    SetGoal(GoalState),
}

/// What a `RuntimeEffect` holds.
#[verifier::ext_equal]
pub enum RuntimeEffectView {
    SetGoal(GoalStateView),
}

impl View for RuntimeEffect {
    type V = RuntimeEffectView;

    open spec fn view(&self) -> RuntimeEffectView {
        match *self {
            RuntimeEffect::SetGoal(goal) => RuntimeEffectView::SetGoal(goal@),
        }
    }
}

impl Clone for RuntimeEffect {
    fn clone(&self) -> (r: Self)
        ensures
            r@ == self@,
    {
        match self {
            RuntimeEffect::SetGoal(goal) => RuntimeEffect::SetGoal(goal.clone()),
        }
    }
}

/// What came of a call that ran.
#[derive(Debug, PartialEq)]
pub enum FunctionExecution {
    Completed { output: Value, thread_update: Option<ThreadUpdate> },
    Suspended { suspension: Suspension, output: Value, thread_update: Option<ThreadUpdate> },
}

/// What a `FunctionExecution` holds.
#[verifier::ext_equal]
pub enum FunctionExecutionView {
    Completed { output: Json, thread_update: Option<ThreadUpdateView> },
    Suspended { suspension: SuspensionView, output: Json, thread_update: Option<ThreadUpdateView> },
}

impl View for FunctionExecution {
    type V = FunctionExecutionView;

    open spec fn view(&self) -> FunctionExecutionView {
        match *self {
            FunctionExecution::Completed { output, thread_update } => {
                FunctionExecutionView::Completed {
                    output: json::of(output),
                    thread_update: views::opt(thread_update),
                }
            },
            FunctionExecution::Suspended { suspension, output, thread_update } => {
                FunctionExecutionView::Suspended {
                    suspension: suspension@,
                    output: json::of(output),
                    thread_update: views::opt(thread_update),
                }
            },
        }
    }
}

impl Clone for FunctionExecution {
    fn clone(&self) -> (r: Self)
        ensures
            r@ == self@,
    {
        match self {
            FunctionExecution::Completed { output, thread_update } => {
                let copy_thread_update = thread_update.clone();
                assert(views::opt(copy_thread_update) =~= views::opt((*thread_update)));
                FunctionExecution::Completed {
                    output: copy_of(output),
                    thread_update: copy_thread_update,
                }
            },
            FunctionExecution::Suspended { suspension, output, thread_update } => {
                let copy_thread_update = thread_update.clone();
                assert(views::opt(copy_thread_update) =~= views::opt((*thread_update)));
                FunctionExecution::Suspended {
                    suspension: suspension.clone(),
                    output: copy_of(output),
                    thread_update: copy_thread_update,
                }
            },
        }
    }
}

/// What came of a call: it ran, or the turn stops before or after it.
#[derive(Debug, PartialEq)]
pub enum FunctionCallExecution {
    Completed { output: Value, effects: Vec<RuntimeEffect> },
    SuspendedBeforeExecution { suspension: Suspension, effects: Vec<RuntimeEffect> },
    SuspendedAfterExecution { suspension: Suspension, output: Value, effects: Vec<RuntimeEffect> },
}

/// What a `FunctionCallExecution` holds.
#[verifier::ext_equal]
pub enum FunctionCallExecutionView {
    Completed { output: Json, effects: Seq<RuntimeEffectView> },
    SuspendedBeforeExecution { suspension: SuspensionView, effects: Seq<RuntimeEffectView> },
    SuspendedAfterExecution {
        suspension: SuspensionView,
        output: Json,
        effects: Seq<RuntimeEffectView>,
    },
}

impl View for FunctionCallExecution {
    type V = FunctionCallExecutionView;

    open spec fn view(&self) -> FunctionCallExecutionView {
        match *self {
            FunctionCallExecution::Completed { output, effects } => {
                FunctionCallExecutionView::Completed {
                    output: json::of(output),
                    effects: views::all(effects@),
                }
            },
            FunctionCallExecution::SuspendedBeforeExecution { suspension, effects } => {
                FunctionCallExecutionView::SuspendedBeforeExecution {
                    suspension: suspension@,
                    effects: views::all(effects@),
                }
            },
            FunctionCallExecution::SuspendedAfterExecution { suspension, output, effects } => {
                FunctionCallExecutionView::SuspendedAfterExecution {
                    suspension: suspension@,
                    output: json::of(output),
                    effects: views::all(effects@),
                }
            },
        }
    }
}

impl Clone for FunctionCallExecution {
    fn clone(&self) -> (r: Self)
        ensures
            r@ == self@,
    {
        match self {
            FunctionCallExecution::Completed { output, effects } => {
                let copy_effects = effects.clone();
                assert(views::all(copy_effects@) =~= views::all(effects@));
                FunctionCallExecution::Completed { output: copy_of(output), effects: copy_effects }
            },
            FunctionCallExecution::SuspendedBeforeExecution { suspension, effects } => {
                let copy_effects = effects.clone();
                assert(views::all(copy_effects@) =~= views::all(effects@));
                FunctionCallExecution::SuspendedBeforeExecution {
                    suspension: suspension.clone(),
                    effects: copy_effects,
                }
            },
            FunctionCallExecution::SuspendedAfterExecution { suspension, output, effects } => {
                let copy_effects = effects.clone();
                assert(views::all(copy_effects@) =~= views::all(effects@));
                FunctionCallExecution::SuspendedAfterExecution {
                    suspension: suspension.clone(),
                    output: copy_of(output),
                    effects: copy_effects,
                }
            },
        }
    }
}

/// How a suspension is settled.
#[derive(Debug, PartialEq)]
pub enum SuspensionResolution {
    Approve,
    Deny { reason: String },
    UserInput { text: String },
}

/// What a `SuspensionResolution` holds.
#[verifier::ext_equal]
pub enum SuspensionResolutionView {
    Approve,
    Deny { reason: Seq<char> },
    UserInput { text: Seq<char> },
}

impl View for SuspensionResolution {
    type V = SuspensionResolutionView;

    open spec fn view(&self) -> SuspensionResolutionView {
        match *self {
            SuspensionResolution::Approve => SuspensionResolutionView::Approve,
            SuspensionResolution::Deny { reason } => SuspensionResolutionView::Deny {
                reason: reason@,
            },
            SuspensionResolution::UserInput { text } => SuspensionResolutionView::UserInput {
                text: text@,
            },
        }
    }
}

impl Clone for SuspensionResolution {
    fn clone(&self) -> (r: Self)
        ensures
            r@ == self@,
    {
        match self {
            SuspensionResolution::Approve => SuspensionResolution::Approve,
            SuspensionResolution::Deny { reason } => SuspensionResolution::Deny {
                reason: reason.clone(),
            },
            SuspensionResolution::UserInput { text } => SuspensionResolution::UserInput {
                text: text.clone(),
            },
        }
    }
}

// ---------------------------------------------------------------------------
// The registry

/// A function that can be called, and what calls it.
pub struct Registered<H> {
    pub spec: FunctionSpec,
    pub handler: H,
}

/// The functions that can be called, in the order of their names.
pub struct FunctionRegistry<H> {
    entries: Vec<Registered<H>>,
}

/// What a list of functions holds.
pub open spec fn listed<H>(entries: Seq<Registered<H>>) -> Seq<(FunctionSpecView, H)> {
    Seq::new(entries.len(), |i: int| (entries[i].spec@, entries[i].handler))
}

/// The function of a name.
pub open spec fn lookup<H>(entries: Seq<(FunctionSpecView, H)>, name: Seq<char>) -> Option<
    (FunctionSpecView, H),
>
    decreases entries.len(),
{
    if entries.len() == 0 {
        None
    } else if entries.last().0.name == name {
        Some(entries.last())
    } else {
        lookup(entries.drop_last(), name)
    }
}

/// Whether functions stand in the order of their names, none twice.
pub open spec fn in_order<H>(entries: Seq<(FunctionSpecView, H)>) -> bool {
    forall|i: int, j: int|
        0 <= i < j < entries.len() ==> #[trigger] text::precedes(
            entries[i].0.name,
            entries[j].0.name,
        )
}

proof fn lemma_lookup<H>(entries: Seq<(FunctionSpecView, H)>, name: Seq<char>)
    requires
        in_order(entries),
    ensures
        lookup(entries, name) is None ==> forall|i: int|
            0 <= i < entries.len() ==> (#[trigger] entries[i]).0.name != name,
        forall|i: int|
            0 <= i < entries.len() && (#[trigger] entries[i]).0.name == name ==> lookup(
                entries,
                name,
            ) == Some(entries[i]),
        lookup(entries, name) matches Some(entry) ==> entry.0.name == name,
    decreases entries.len(),
{
    if entries.len() > 0 {
        let rest = entries.drop_last();
        assert(in_order(rest)) by {
            assert forall|i: int, j: int| 0 <= i < j < rest.len() implies #[trigger] text::precedes(
                rest[i].0.name,
                rest[j].0.name,
            ) by {
                assert(text::precedes(entries[i].0.name, entries[j].0.name));
            }
        }
        lemma_lookup(rest, name);
        assert forall|i: int| 0 <= i < entries.len() && (
        #[trigger] entries[i]).0.name == name implies lookup(entries, name) == Some(
            entries[i],
        ) by {
            if i < entries.len() - 1 {
                assert(rest[i] == entries[i]);
                assert(text::precedes(entries[i].0.name, entries[entries.len() - 1].0.name));
                text::lemma_precedes_total(name, name);
            }
        }
        if lookup(entries, name) is None {
            assert forall|i: int| 0 <= i < entries.len() implies (
            #[trigger] entries[i]).0.name != name by {
                if i < entries.len() - 1 {
                    assert(rest[i] == entries[i]);
                }
            }
        }
    }
}

impl<H> View for FunctionRegistry<H> {
    type V = Seq<(FunctionSpecView, H)>;

    closed spec fn view(&self) -> Seq<(FunctionSpecView, H)> {
        listed(self.entries@)
    }
}

impl<H> Default for FunctionRegistry<H> {
    fn default() -> (r: Self)
        ensures
            r@ == Seq::<(FunctionSpecView, H)>::empty(),
    {
        FunctionRegistry::new()
    }
}

impl<H> FunctionRegistry<H> {
    #[verifier::type_invariant]
    spec fn named_in_order(&self) -> bool {
        in_order(listed(self.entries@))
    }

    /// A registry without functions.
    pub fn new() -> (r: Self)
        ensures
            r@ == Seq::<(FunctionSpecView, H)>::empty(),
    {
        let r = FunctionRegistry { entries: Vec::new() };
        assert(r@ =~= Seq::<(FunctionSpecView, H)>::empty());
        r
    }

    /// Adds a function. It takes the place of one of the same name.
    pub fn register(&mut self, spec: FunctionSpec, handler: H)
        ensures
            forall|name: Seq<char>| #[trigger]
                lookup(final(self)@, name) == if name == spec@.name {
                    Some((spec@, handler))
                } else {
                    lookup(old(self)@, name)
                },
    {
        proof {
            use_type_invariant(&*self);
        }
        let ghost before = self@;
        let ghost entry = (spec@, handler);
        let mut entries: Vec<Registered<H>> = Vec::new();
        std::mem::swap(&mut entries, &mut self.entries);
        let n = entries.len();
        let mut i: usize = 0;
        while i < n && comes_before(entries[i].spec.name.as_str(), spec.name.as_str())
            invariant
                listed(entries@) == before,
                n == entries@.len(),
                n == before.len(),
                i <= n,
                forall|k: int|
                    0 <= k < i ==> text::precedes(
                        (#[trigger] before[k]).0.name,
                        spec@.name,
                    ),
            decreases n - i,
        {
            i = i + 1;
        }
        if i < n && text_eq(entries[i].spec.name.as_str(), spec.name.as_str()) {
            entries[i] = Registered { spec, handler };
            assert(listed(entries@) =~= before.update(i as int, entry));
            assert(before[i as int].0.name == spec@.name);
            assert(in_order(listed(entries@))) by {
                assert forall|a: int, b: int|
                    0 <= a < b < listed(entries@).len() implies #[trigger] text::precedes(
                    listed(entries@)[a].0.name,
                    listed(entries@)[b].0.name,
                ) by {
                    assert(text::precedes(before[a].0.name, before[b].0.name));
                }
            }
        } else {
            proof {
                if i < n {
                    text::lemma_precedes_total(before[i as int].0.name, spec@.name);
                }
                assert forall|k: int| i <= k < n implies text::precedes(
                    spec@.name,
                    (#[trigger] before[k]).0.name,
                ) by {
                    if k > i {
                        assert(text::precedes(before[i as int].0.name, before[k].0.name));
                        text::lemma_precedes_chain(
                            spec@.name,
                            before[i as int].0.name,
                            before[k].0.name,
                        );
                    }
                }
            }
            entries.insert(i, Registered { spec, handler });
            assert(listed(entries@) =~= before.insert(i as int, entry));
            assert(in_order(listed(entries@))) by {
                assert forall|a: int, b: int|
                    0 <= a < b < listed(entries@).len() implies #[trigger] text::precedes(
                    listed(entries@)[a].0.name,
                    listed(entries@)[b].0.name,
                ) by {
                    if a < i && b < i {
                        assert(text::precedes(before[a].0.name, before[b].0.name));
                    } else if a < i && b == i {
                        assert(before[a] == listed(entries@)[a]);
                    } else if a < i {
                        assert(text::precedes(before[a].0.name, before[b - 1].0.name));
                    } else if a == i {
                        assert(before[b - 1] == listed(entries@)[b]);
                    } else {
                        assert(text::precedes(before[a - 1].0.name, before[b - 1].0.name));
                    }
                }
            }
        }
        let ghost after = listed(entries@);
        self.entries = entries;
        proof {
            assert(after[i as int] == entry);
            assert forall|name: Seq<char>| #[trigger]
                lookup(after, name) == if name == spec@.name {
                    Some(entry)
                } else {
                    lookup(before, name)
                } by {
                lemma_lookup(after, name);
                lemma_lookup(before, name);
                if name != spec@.name {
                    if lookup(before, name) is None {
                        if lookup(after, name) is Some {
                            let k = lemma_lookup_place(after, name);
                            if k < i {
                                assert(before[k] == after[k]);
                            } else if after.len() == before.len() {
                                assert(before[k] == after[k]);
                            } else {
                                assert(before[k - 1] == after[k]);
                            }
                        }
                    } else {
                        let k = lemma_lookup_place(before, name);
                        if k < i {
                            assert(before[k] == after[k]);
                        } else if after.len() == before.len() {
                            assert(before[k] == after[k]);
                        } else {
                            assert(before[k] == after[k + 1]);
                        }
                    }
                }
            }
        }
    }

    /// How the functions are offered to a model, in the order of their names.
    pub fn specs(&self) -> (r: Vec<FunctionSpec>)
        ensures
            views::all(r@) == Seq::new(self@.len(), |i: int| self@[i].0),
            in_order(self@),
    {
        proof {
            use_type_invariant(self);
        }
        let mut specs: Vec<FunctionSpec> = Vec::new();
        let mut i: usize = 0;
        while i < self.entries.len()
            invariant
                i <= self.entries@.len(),
                specs@.len() == i,
                forall|k: int| 0 <= k < i ==> (#[trigger] specs@[k])@ == self@[k].0,
            decreases self.entries@.len() - i,
        {
            specs.push(self.entries[i].spec.clone());
            i = i + 1;
        }
        assert(views::all(specs@) =~= Seq::new(self@.len(), |k: int| self@[k].0));
        specs
    }

    /// What calls the function of a name.
    pub fn get(&self, name: &str) -> (r: Result<&H, AgentError>)
        ensures
            match lookup(self@, name@) {
                Some(entry) => r matches Ok(handler) && *handler == entry.1,
                None => r matches Err(e) && e@ == AgentErrorView::FunctionNotFound(name@),
            },
    {
        proof {
            use_type_invariant(self);
            lemma_lookup(self@, name@);
        }
        let mut i: usize = 0;
        while i < self.entries.len()
            invariant
                i <= self.entries@.len(),
                forall|k: int| 0 <= k < i ==> (#[trigger] self@[k]).0.name != name@,
                forall|k: int|
                    0 <= k < self@.len() && (#[trigger] self@[k]).0.name == name@ ==> lookup(
                        self@,
                        name@,
                    ) == Some(self@[k]),
            decreases self.entries@.len() - i,
        {
            assert(self@[i as int].0 == self.entries@[i as int].spec@);
            if text_eq(self.entries[i].spec.name.as_str(), name) {
                return Ok(&self.entries[i].handler);
            }
            i = i + 1;
        }
        proof {
            if lookup(self@, name@) is Some {
                let k = lemma_lookup_place(self@, name@);
            }
        }
        Err(AgentError::FunctionNotFound(name.to_string()))
    }
}

proof fn lemma_lookup_place<H>(entries: Seq<(FunctionSpecView, H)>, name: Seq<char>) -> (i: int)
    requires
        lookup(entries, name) is Some,
    ensures
        0 <= i < entries.len(),
        entries[i].0.name == name,
        lookup(entries, name) == Some(entries[i]),
    decreases entries.len(),
{
    if entries.last().0.name == name {
        entries.len() - 1
    } else {
        lemma_lookup_place(entries.drop_last(), name)
    }
}

/// What is registered under a name is what a call by that name reaches, and
/// nothing registered under another name changes that.
pub proof fn law_registered_function_is_found<H>(
    before: Seq<(FunctionSpecView, H)>,
    after: Seq<(FunctionSpecView, H)>,
    spec: FunctionSpecView,
    handler: H,
    other: Seq<char>,
)
    requires
        forall|name: Seq<char>| #[trigger]
            lookup(after, name) == if name == spec.name {
                Some((spec, handler))
            } else {
                lookup(before, name)
            },
        other != spec.name,
    ensures
        lookup(after, spec.name) == Some((spec, handler)),
        lookup(after, other) == lookup(before, other),
{
}

// ---------------------------------------------------------------------------
// Built-in functions

/// An object without fields, as a schema.
pub open spec fn no_parameters() -> Json {
    let none = Map::<Seq<char>, Json>::empty();
    Json::Fields(
        none.insert("type"@, Json::Text("object"@)).insert(
            "properties"@,
            Json::Fields(none),
        ).insert(
            "additionalProperties"@,
            Json::Bool(false),
        ),
    )
}

/// A text, as a schema.
pub open spec fn text_schema() -> Json {
    Json::Fields(Map::<Seq<char>, Json>::empty().insert("type"@, Json::Text("string"@)))
}

/// An object, as a schema.
pub open spec fn object_schema(required: Seq<Json>, properties: Map<Seq<char>, Json>) -> Json {
    Json::Fields(
        Map::<Seq<char>, Json>::empty().insert("type"@, Json::Text("object"@)).insert(
            "required"@,
            Json::List(required),
        ).insert("properties"@, Json::Fields(properties)).insert(
            "additionalProperties"@,
            Json::Bool(false),
        ),
    )
}

fn text_schema_value() -> (r: Value)
    ensures
        json::of(r) == text_schema(),
{
    Fields::new().with_text("type", "string").value()
}

/// Texts as JSON values.
pub open spec fn json_texts(texts: Seq<Seq<char>>) -> Seq<Json> {
    Seq::new(texts.len(), |i: int| Json::Text(texts[i]))
}

/// How the function that returns the goal is offered.
pub open spec fn get_goal_view() -> FunctionSpecView {
    FunctionSpecView {
        name: "get_goal"@,
        description: "Return the current thread goal, if one has been set."@,
        parameters: no_parameters(),
    }
}

/// How the function that returns the goal is offered.
pub fn get_goal_spec() -> (r: FunctionSpec)
    ensures
        r@ == get_goal_view(),
{
    FunctionSpec {
        name: "get_goal".to_string(),
        description: "Return the current thread goal, if one has been set.".to_string(),
        parameters: Fields::new().with_text("type", "object").with(
            "properties",
            Fields::new().value(),
        ).with_bool("additionalProperties", false).value(),
    }
}

/// The parameters of the function that sets the goal.
pub open spec fn update_goal_parameters() -> Json {
    object_schema(
        json_texts(seq!["objective"@, "status"@]),
        Map::<Seq<char>, Json>::empty().insert("objective"@, text_schema()).insert(
            "status"@,
            Json::Fields(
                Map::<Seq<char>, Json>::empty().insert("type"@, Json::Text("string"@)).insert(
                    "enum"@,
                    Json::List(json_texts(seq!["active"@, "complete"@, "blocked"@])),
                ),
            ),
        ).insert("notes"@, text_schema()),
    )
}

/// How the function that sets the goal is offered.
pub open spec fn update_goal_view() -> FunctionSpecView {
    FunctionSpecView {
        name: "update_goal"@,
        description: "Set or update the explicit goal state for this thread."@,
        parameters: update_goal_parameters(),
    }
}

/// How the function that sets the goal is offered.
pub fn update_goal_spec() -> (r: FunctionSpec)
    ensures
        r@ == update_goal_view(),
{
    let mut states: Vec<String> = Vec::new();
    states.push("active".to_string());
    states.push("complete".to_string());
    states.push("blocked".to_string());
    assert(states@.map_values(|t: String| Json::Text(t@)) =~= json_texts(
        seq!["active"@, "complete"@, "blocked"@],
    ));
    let mut required: Vec<String> = Vec::new();
    required.push("objective".to_string());
    required.push("status".to_string());
    assert(required@.map_values(|t: String| Json::Text(t@)) =~= json_texts(
        seq!["objective"@, "status"@],
    ));
    let status = Fields::new().with_text("type", "string").with("enum", text_list(&states)).value();
    let properties = Fields::new().with("objective", text_schema_value()).with(
        "status",
        status,
    ).with("notes", text_schema_value()).value();
    FunctionSpec {
        name: "update_goal".to_string(),
        description: "Set or update the explicit goal state for this thread.".to_string(),
        parameters: Fields::new().with_text("type", "object").with(
            "required",
            text_list(&required),
        ).with("properties", properties).with_bool("additionalProperties", false).value(),
    }
}

/// How the function that asks the user is offered.
pub open spec fn ask_user_view() -> FunctionSpecView {
    FunctionSpecView {
        name: "ask_user"@,
        description: "Ask the user a follow-up question and stop the current turn."@,
        parameters: object_schema(
            json_texts(seq!["prompt"@]),
            Map::<Seq<char>, Json>::empty().insert("prompt"@, text_schema()),
        ),
    }
}

/// How the function that asks the user is offered.
pub fn ask_user_spec() -> (r: FunctionSpec)
    ensures
        r@ == ask_user_view(),
{
    let mut required: Vec<String> = Vec::new();
    required.push("prompt".to_string());
    assert(required@.map_values(|t: String| Json::Text(t@)) =~= json_texts(seq!["prompt"@]));
    let properties = Fields::new().with("prompt", text_schema_value()).value();
    FunctionSpec {
        name: "ask_user".to_string(),
        description: "Ask the user a follow-up question and stop the current turn.".to_string(),
        parameters: Fields::new().with_text("type", "object").with(
            "required",
            text_list(&required),
        ).with("properties", properties).with_bool("additionalProperties", false).value(),
    }
}

/// The registry of the built-in functions.
pub fn builtin_registry<H>(get_goal: H, update_goal: H, ask_user: H) -> (r: FunctionRegistry<H>)
    ensures
        forall|name: Seq<char>| #[trigger]
            lookup(r@, name) == if name == "ask_user"@ {
                Some((ask_user_view(), ask_user))
            } else if name == "update_goal"@ {
                Some((update_goal_view(), update_goal))
            } else if name == "get_goal"@ {
                Some((get_goal_view(), get_goal))
            } else {
                None
            },
{
    let mut registry = FunctionRegistry::new();
    registry.register(get_goal_spec(), get_goal);
    registry.register(update_goal_spec(), update_goal);
    registry.register(ask_user_spec(), ask_user);
    registry
}

/// The name of a goal's state in JSON.
pub open spec fn status_text(status: GoalStatus) -> Seq<char> {
    match status {
        GoalStatus::Active => "active"@,
        GoalStatus::Complete => "complete"@,
        GoalStatus::Blocked => "blocked"@,
    }
}

/// A goal as a JSON object.
pub open spec fn goal_json(goal: GoalStateView) -> Json {
    Json::Fields(
        Map::<Seq<char>, Json>::empty().insert("objective"@, Json::Text(goal.objective)).insert(
            "status"@,
            Json::Text(status_text(goal.status)),
        ).insert(
            "notes"@,
            match goal.notes {
                Some(notes) => Json::Text(notes),
                None => Json::Null,
            },
        ),
    )
}

pub(crate) fn goal_value(goal: &GoalState) -> (r: Value)
    ensures
        json::of(r) == goal_json(goal@),
{
    let status = match goal.status {
        GoalStatus::Active => "active",
        GoalStatus::Complete => "complete",
        GoalStatus::Blocked => "blocked",
    };
    let notes = match &goal.notes {
        Some(notes) => text_value(notes.clone()),
        None => null_value(),
    };
    Fields::new().with_text("objective", goal.objective.as_str()).with_text("status", status).with(
        "notes",
        notes,
    ).value()
}

/// An object with the goal as its one field.
pub open spec fn goal_output(goal: Option<GoalStateView>) -> Json {
    Json::Fields(
        Map::<Seq<char>, Json>::empty().insert(
            "goal"@,
            match goal {
                Some(goal) => goal_json(goal),
                None => Json::Null,
            },
        ),
    )
}

/// What a call for the goal comes to.
pub open spec fn goal_told(goal: Option<GoalStateView>) -> FunctionExecutionView {
    FunctionExecutionView::Completed { output: goal_output(goal), thread_update: None }
}

/// Returns the goal.
pub fn get_goal(context: &FunctionContext) -> (r: FunctionExecution)
    ensures
        r@ == goal_told(context@.projection.goal),
{
    let goal = match &context.projection.goal {
        Some(goal) => goal_value(goal),
        None => null_value(),
    };
    FunctionExecution::Completed {
        output: Fields::new().with("goal", goal).value(),
        thread_update: None,
    }
}

/// What a call that sets the goal comes to.
pub open spec fn goal_set(arguments: Result<GoalStateView, Seq<char>>) -> Result<
    FunctionExecutionView,
    AgentErrorView,
> {
    match arguments {
        Ok(goal) => Ok(
            FunctionExecutionView::Completed {
                output: goal_output(Some(goal)),
                thread_update: Some(ThreadUpdateView::Goal(goal)),
            },
        ),
        Err(message) => Err(
            AgentErrorView::InvalidFunctionArguments { name: "update_goal"@, message },
        ),
    }
}

/// Sets the goal that the arguments name; `arguments` holds why they cannot be
/// read where they cannot.
pub fn update_goal(arguments: Result<GoalState, String>) -> (r: Result<
    FunctionExecution,
    AgentError,
>)
    ensures
        views::res(r) == goal_set(views::res(arguments)),
{
    match arguments {
        Ok(goal) => Ok(
            FunctionExecution::Completed {
                output: Fields::new().with("goal", goal_value(&goal)).value(),
                thread_update: Some(ThreadUpdate::Goal(goal)),
            },
        ),
        Err(message) => Err(
            AgentError::InvalidFunctionArguments { name: "update_goal".to_string(), message },
        ),
    }
}

/// What a question to the user comes to.
pub open spec fn question(prompt: Seq<char>, ids: IdSource) -> FunctionExecutionView {
    let id = ids::id_text("req"@, ids);
    let none = Map::<Seq<char>, Json>::empty();
    FunctionExecutionView::Suspended {
        suspension: SuspensionView {
            id,
            kind: SuspensionKind::UserInput,
            payload: Json::Fields(none.insert("prompt"@, Json::Text(prompt))),
        },
        output: Json::Fields(
            none.insert("request_id"@, Json::Text(id)).insert(
                "prompt"@,
                Json::Text(prompt),
            ).insert("status"@, Json::Text("suspended"@)),
        ),
        thread_update: None,
    }
}

/// Asks the user and stops the turn; `prompt` holds why the arguments cannot be
/// read where they cannot.
pub fn ask_user(prompt: Result<String, String>, ids: &mut IdSource) -> (r: Result<
    FunctionExecution,
    AgentError,
>)
    ensures
        match views::res(prompt) {
            Ok(prompt) => {
                &&& *final(ids) == ids::after(*old(ids), 1)
                &&& r matches Ok(execution)
                &&& execution@ == question(prompt, *old(ids))
            },
            Err(message) => {
                &&& *final(ids) == *old(ids)
                &&& r matches Err(e)
                &&& e@ == (AgentErrorView::InvalidFunctionArguments { name: "ask_user"@, message })
            },
        },
{
    match prompt {
        Ok(prompt) => {
            let id = ids.issue("req");
            let payload = Fields::new().with_text("prompt", prompt.as_str()).value();
            let output = Fields::new().with_text("request_id", id.as_str()).with_text(
                "prompt",
                prompt.as_str(),
            ).with_text("status", "suspended").value();
            Ok(
                FunctionExecution::Suspended {
                    suspension: Suspension { id, kind: SuspensionKind::UserInput, payload },
                    output,
                    thread_update: None,
                },
            )
        },
        Err(message) => Err(
            AgentError::InvalidFunctionArguments { name: "ask_user".to_string(), message },
        ),
    }
}

/// What a change to the thread asks the runtime for.
pub open spec fn effects_for(update: Option<ThreadUpdateView>) -> Seq<RuntimeEffectView> {
    match update {
        Some(ThreadUpdateView::Goal(goal)) => seq![RuntimeEffectView::SetGoal(goal)],
        None => Seq::empty(),
    }
}

/// A call that ran, as the runtime takes it.
pub open spec fn taken(execution: FunctionExecutionView) -> FunctionCallExecutionView {
    match execution {
        FunctionExecutionView::Completed { output, thread_update } => {
            FunctionCallExecutionView::Completed { output, effects: effects_for(thread_update) }
        },
        FunctionExecutionView::Suspended { suspension, output, thread_update } => {
            FunctionCallExecutionView::SuspendedAfterExecution {
                suspension,
                output,
                effects: effects_for(thread_update),
            }
        },
    }
}

/// A call that ran, as the runtime takes it: a suspension comes after the call.
pub fn into_call_execution(execution: FunctionExecution) -> (r: FunctionCallExecution)
    ensures
        r@ == taken(execution@),
{
    match execution {
        FunctionExecution::Completed { output, thread_update } => {
            FunctionCallExecution::Completed { output, effects: effects_of(thread_update) }
        },
        FunctionExecution::Suspended { suspension, output, thread_update } => {
            FunctionCallExecution::SuspendedAfterExecution {
                suspension,
                output,
                effects: effects_of(thread_update),
            }
        },
    }
}

fn effects_of(update: Option<ThreadUpdate>) -> (r: Vec<RuntimeEffect>)
    ensures
        views::all(r@) == effects_for(views::opt(update)),
{
    let mut effects: Vec<RuntimeEffect> = Vec::new();
    if let Some(ThreadUpdate::Goal(goal)) = update {
        effects.push(RuntimeEffect::SetGoal(goal));
    }
    assert(views::all(effects@) =~= effects_for(views::opt(update)));
    effects
}

} // verus!
