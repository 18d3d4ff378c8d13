//! The durable record of a conversation: threads, turns and their items.
use crate::ids::{self, IdSource};
use crate::json::{self, copy_of, Json};
use crate::kernel::model::{ModelFunctionCall, ModelFunctionCallView};
use crate::kernel::revision::RevisionToken;
use crate::text::{self, decimal_text, text_eq};
use crate::views;
use serde_json::Value;
use vstd::prelude::*;

verus! {

pub type ThreadId = String;

pub type TurnId = String;

pub type TurnItemId = String;

/// How far a goal has come.
#[derive(Debug, Clone, Copy, PartialEq, Eq, Structural)]
pub enum GoalStatus {
    Active,
    Complete,
    Blocked,
}

/// What a thread is working towards.
#[derive(Debug, PartialEq)]
pub struct GoalState {
    pub objective: String,
    pub status: GoalStatus,
    pub notes: Option<String>,
}

/// What a `GoalState` holds.
#[verifier::ext_equal]
pub struct GoalStateView {
    pub objective: Seq<char>,
    pub status: GoalStatus,
    pub notes: Option<Seq<char>>,
}

impl View for GoalState {
    type V = GoalStateView;

    open spec fn view(&self) -> GoalStateView {
        GoalStateView {
            objective: self.objective@,
            status: self.status,
            notes: views::opt(self.notes),
        }
    }
}

impl Clone for GoalState {
    fn clone(&self) -> (r: Self)
        ensures
            r@ == self@,
    {
        let r = GoalState {
            objective: self.objective.clone(),
            status: self.status,
            notes: self.notes.clone(),
        };
        assert(views::opt(r.notes) =~= views::opt(self.notes));
        r
    }
}

/// What a suspended turn waits for.
#[derive(Debug, Clone, Copy, PartialEq, Eq, Structural)]
pub enum SuspensionKind {
    UserInput,
    HumanApproval,
}

/// Why a turn stopped before its end.
#[derive(Debug, PartialEq)]
pub struct Suspension {
    pub id: String,
    pub kind: SuspensionKind,
    pub payload: Value,
}

/// What a `Suspension` holds.
#[verifier::ext_equal]
pub struct SuspensionView {
    pub id: Seq<char>,
    pub kind: SuspensionKind,
    pub payload: Json,
}

impl View for Suspension {
    type V = SuspensionView;

    open spec fn view(&self) -> SuspensionView {
        SuspensionView {
            id: self.id@,
            kind: self.kind,
            payload: json::of(self.payload),
        }
    }
}

impl Clone for Suspension {
    fn clone(&self) -> (r: Self)
        ensures
            r@ == self@,
    {
        Suspension {
            id: self.id.clone(),
            kind: self.kind,
            payload: copy_of(&self.payload),
        }
    }
}

/// What came of a function call.
#[derive(Debug, PartialEq)]
pub enum ToolResult {
    Success { output: Value },
    Error { error: String },
}

/// What a `ToolResult` holds.
#[verifier::ext_equal]
pub enum ToolResultView {
    Success { output: Json },
    Error { error: Seq<char> },
}

impl View for ToolResult {
    type V = ToolResultView;

    open spec fn view(&self) -> ToolResultView {
        match *self {
            ToolResult::Success { output } => ToolResultView::Success { output: json::of(output) },
            ToolResult::Error { error } => ToolResultView::Error { error: error@ },
        }
    }
}

impl Clone for ToolResult {
    fn clone(&self) -> (r: Self)
        ensures
            r@ == self@,
    {
        match self {
            ToolResult::Success { output } => ToolResult::Success { output: copy_of(output) },
            ToolResult::Error { error } => ToolResult::Error { error: error.clone() },
        }
    }
}

/// Where a turn stands.
#[derive(Debug, Clone, Copy, PartialEq, Eq, Structural)]
pub enum TurnStatus {
    Running,
    WaitingForUser,
    Suspended,
    Completed,
    Failed,
    Aborted,
}

/// Who an item comes from.
#[derive(Debug, Clone, Copy, PartialEq, Eq, Structural)]
pub enum TurnItemSource {
    User,
    Model,
    Tool,
    Runtime,
}

/// What an item records.
#[derive(Debug, PartialEq)]
pub enum TurnItemKind {
    UserInput { text: String, response_to: Option<String> },
    ModelMessage { text: String },
    ModelFunctionCall { call_id: String, name: String, arguments: Value },
    ModelResponse { text: Option<String>, function_calls: Vec<ModelFunctionCall> },
    ToolOutput { call_id: String, name: String, result: ToolResult },
    UserInputRequested { request_id: String, prompt: String },
    SuspensionCreated { suspension: Suspension },
    GoalUpdated { previous: Option<GoalState>, current: GoalState },
    TurnFailed { error: String },
    TurnAborted { reason: String },
}

/// What a `TurnItemKind` holds.
#[verifier::ext_equal]
pub enum TurnItemKindView {
    UserInput { text: Seq<char>, response_to: Option<Seq<char>> },
    ModelMessage { text: Seq<char> },
    ModelFunctionCall { call_id: Seq<char>, name: Seq<char>, arguments: Json },
    ModelResponse { text: Option<Seq<char>>, function_calls: Seq<ModelFunctionCallView> },
    ToolOutput { call_id: Seq<char>, name: Seq<char>, result: ToolResultView },
    UserInputRequested { request_id: Seq<char>, prompt: Seq<char> },
    SuspensionCreated { suspension: SuspensionView },
    GoalUpdated { previous: Option<GoalStateView>, current: GoalStateView },
    TurnFailed { error: Seq<char> },
    TurnAborted { reason: Seq<char> },
}

impl View for TurnItemKind {
    type V = TurnItemKindView;

    open spec fn view(&self) -> TurnItemKindView {
        match *self {
            TurnItemKind::UserInput { text, response_to } => TurnItemKindView::UserInput {
                text: text@,
                response_to: views::opt(response_to),
            },
            TurnItemKind::ModelMessage { text } => TurnItemKindView::ModelMessage { text: text@ },
            TurnItemKind::ModelFunctionCall { call_id, name, arguments } => {
                TurnItemKindView::ModelFunctionCall {
                    call_id: call_id@,
                    name: name@,
                    arguments: json::of(arguments),
                }
            },
            TurnItemKind::ModelResponse { text, function_calls } => {
                TurnItemKindView::ModelResponse {
                    text: views::opt(text),
                    function_calls: views::all(function_calls@),
                }
            },
            TurnItemKind::ToolOutput { call_id, name, result } => TurnItemKindView::ToolOutput {
                call_id: call_id@,
                name: name@,
                result: result@,
            },
            TurnItemKind::UserInputRequested { request_id, prompt } => {
                TurnItemKindView::UserInputRequested { request_id: request_id@, prompt: prompt@ }
            },
            TurnItemKind::SuspensionCreated { suspension } => TurnItemKindView::SuspensionCreated {
                suspension: suspension@,
            },
            TurnItemKind::GoalUpdated { previous, current } => TurnItemKindView::GoalUpdated {
                previous: views::opt(previous),
                current: current@,
            },
            TurnItemKind::TurnFailed { error } => TurnItemKindView::TurnFailed { error: error@ },
            TurnItemKind::TurnAborted { reason } => TurnItemKindView::TurnAborted {
                reason: reason@,
            },
        }
    }
}

impl Clone for TurnItemKind {
    fn clone(&self) -> (r: Self)
        ensures
            r@ == self@,
    {
        match self {
            TurnItemKind::UserInput { text, response_to } => {
                let copy_response_to = response_to.clone();
                assert(views::opt(copy_response_to) =~= views::opt((*response_to)));
                TurnItemKind::UserInput { text: text.clone(), response_to: copy_response_to }
            },
            TurnItemKind::ModelMessage { text } => TurnItemKind::ModelMessage {
                text: text.clone(),
            },
            TurnItemKind::ModelFunctionCall { call_id, name, arguments } => {
                TurnItemKind::ModelFunctionCall {
                    call_id: call_id.clone(),
                    name: name.clone(),
                    arguments: copy_of(arguments),
                }
            },
            TurnItemKind::ModelResponse { text, function_calls } => {
                let copy_text = text.clone();
                assert(views::opt(copy_text) =~= views::opt((*text)));
                let copy_function_calls = function_calls.clone();
                assert(views::all(copy_function_calls@) =~= views::all(function_calls@));
                TurnItemKind::ModelResponse { text: copy_text, function_calls: copy_function_calls }
            },
            TurnItemKind::ToolOutput { call_id, name, result } => TurnItemKind::ToolOutput {
                call_id: call_id.clone(),
                name: name.clone(),
                result: result.clone(),
            },
            TurnItemKind::UserInputRequested { request_id, prompt } => {
                TurnItemKind::UserInputRequested {
                    request_id: request_id.clone(),
                    prompt: prompt.clone(),
                }
            },
            TurnItemKind::SuspensionCreated { suspension } => TurnItemKind::SuspensionCreated {
                suspension: suspension.clone(),
            },
            TurnItemKind::GoalUpdated { previous, current } => {
                let copy_previous = previous.clone();
                assert(views::opt(copy_previous) =~= views::opt((*previous)));
                TurnItemKind::GoalUpdated { previous: copy_previous, current: current.clone() }
            },
            TurnItemKind::TurnFailed { error } => TurnItemKind::TurnFailed { error: error.clone() },
            TurnItemKind::TurnAborted { reason } => TurnItemKind::TurnAborted {
                reason: reason.clone(),
            },
        }
    }
}

/// One record of a turn.
#[derive(Debug, PartialEq)]
pub struct TurnItem {
    pub id: String,
    pub created_at: String,
    pub source: TurnItemSource,
    pub kind: TurnItemKind,
}

/// What a `TurnItem` holds.
#[verifier::ext_equal]
pub struct TurnItemView {
    pub id: Seq<char>,
    pub created_at: Seq<char>,
    pub source: TurnItemSource,
    pub kind: TurnItemKindView,
}

impl View for TurnItem {
    type V = TurnItemView;

    open spec fn view(&self) -> TurnItemView {
        TurnItemView {
            id: self.id@,
            created_at: self.created_at@,
            source: self.source,
            kind: self.kind@,
        }
    }
}

impl Clone for TurnItem {
    fn clone(&self) -> (r: Self)
        ensures
            r@ == self@,
    {
        TurnItem {
            id: self.id.clone(),
            created_at: self.created_at.clone(),
            source: self.source,
            kind: self.kind.clone(),
        }
    }
}

/// One exchange: what was asked, and all that followed.
#[derive(Debug, PartialEq)]
pub struct Turn {
    pub id: String,
    pub status: TurnStatus,
    pub items: Vec<TurnItem>,
    pub created_at: String,
    pub updated_at: String,
}

/// What a `Turn` holds.
#[verifier::ext_equal]
pub struct TurnView {
    pub id: Seq<char>,
    pub status: TurnStatus,
    pub items: Seq<TurnItemView>,
    pub created_at: Seq<char>,
    pub updated_at: Seq<char>,
}

impl View for Turn {
    type V = TurnView;

    open spec fn view(&self) -> TurnView {
        TurnView {
            id: self.id@,
            status: self.status,
            items: views::all(self.items@),
            created_at: self.created_at@,
            updated_at: self.updated_at@,
        }
    }
}

impl Clone for Turn {
    fn clone(&self) -> (r: Self)
        ensures
            r@ == self@,
    {
        let r = Turn {
            id: self.id.clone(),
            status: self.status,
            items: self.items.clone(),
            created_at: self.created_at.clone(),
            updated_at: self.updated_at.clone(),
        };
        assert(views::all(r.items@) =~= views::all(self.items@));
        r
    }
}

/// Tokens spent on model requests.
#[derive(Debug, Clone, Copy, PartialEq, Eq, Structural)]
pub struct TokenUsage {
    pub input_tokens: u64,
    pub cached_input_tokens: u64,
    pub output_tokens: u64,
    pub total_tokens: u64,
}

/// A conversation and the state that outlives its turns.
#[derive(Debug, PartialEq)]
pub struct Thread {
    pub schema_version: u32,
    pub id: String,
    pub goal: Option<GoalState>,
    pub turns: Vec<Turn>,
    pub token_usage: TokenUsage,
    pub version: u64,
    pub revision: RevisionToken,
    pub created_at: String,
    pub updated_at: String,
}

/// What a `Thread` holds.
#[verifier::ext_equal]
pub struct ThreadView {
    pub schema_version: u32,
    pub id: Seq<char>,
    pub goal: Option<GoalStateView>,
    pub turns: Seq<TurnView>,
    pub token_usage: TokenUsage,
    pub version: u64,
    pub revision: Seq<u8>,
    pub created_at: Seq<char>,
    pub updated_at: Seq<char>,
}

impl View for Thread {
    type V = ThreadView;

    open spec fn view(&self) -> ThreadView {
        ThreadView {
            schema_version: self.schema_version,
            id: self.id@,
            goal: views::opt(self.goal),
            turns: views::all(self.turns@),
            token_usage: self.token_usage,
            version: self.version,
            revision: self.revision@,
            created_at: self.created_at@,
            updated_at: self.updated_at@,
        }
    }
}

impl Clone for Thread {
    fn clone(&self) -> (r: Self)
        ensures
            r@ == self@,
    {
        let r = Thread {
            schema_version: self.schema_version,
            id: self.id.clone(),
            goal: self.goal.clone(),
            turns: self.turns.clone(),
            token_usage: self.token_usage,
            version: self.version,
            revision: self.revision.clone(),
            created_at: self.created_at.clone(),
            updated_at: self.updated_at.clone(),
        };
        assert(views::opt(r.goal) =~= views::opt(self.goal));
        assert(views::all(r.turns@) =~= views::all(self.turns@));
        r
    }
}

// ---------------------------------------------------------------------------
// Token usage

/// A sum that stops at the largest number.
pub open spec fn capped_sum(a: u64, b: u64) -> u64 {
    if a + b > u64::MAX {
        u64::MAX
    } else {
        (a + b) as u64
    }
}

/// The usage of two stretches of work together.
pub open spec fn usage_sum(a: TokenUsage, b: TokenUsage) -> TokenUsage {
    TokenUsage {
        input_tokens: capped_sum(a.input_tokens, b.input_tokens),
        cached_input_tokens: capped_sum(a.cached_input_tokens, b.cached_input_tokens),
        output_tokens: capped_sum(a.output_tokens, b.output_tokens),
        total_tokens: capped_sum(a.total_tokens, b.total_tokens),
    }
}

/// No usage at all.
pub open spec fn no_usage() -> TokenUsage {
    TokenUsage { input_tokens: 0, cached_input_tokens: 0, output_tokens: 0, total_tokens: 0 }
}

/// The words for a usage.
pub open spec fn usage_words(usage: TokenUsage) -> Seq<char> {
    "input="@ + text::decimal(usage.input_tokens as nat) + ", cached_input="@ + text::decimal(
        usage.cached_input_tokens as nat,
    ) + ", output="@ + text::decimal(usage.output_tokens as nat) + ", total="@ + text::decimal(
        usage.total_tokens as nat,
    )
}

impl Default for TokenUsage {
    fn default() -> (r: Self)
        ensures
            r == no_usage(),
    {
        TokenUsage { input_tokens: 0, cached_input_tokens: 0, output_tokens: 0, total_tokens: 0 }
    }
}

impl TokenUsage {
    /// Whether nothing was used.
    pub fn is_zero(&self) -> (r: bool)
        ensures
            r == (*self == no_usage()),
    {
        self.input_tokens == 0 && self.cached_input_tokens == 0 && self.output_tokens == 0
            && self.total_tokens == 0
    }

    /// Adds `usage` on top.
    pub fn add_assign(&mut self, usage: TokenUsage)
        ensures
            *final(self) == usage_sum(*old(self), usage),
    {
        self.input_tokens = self.input_tokens.saturating_add(usage.input_tokens);
        self.cached_input_tokens = self.cached_input_tokens.saturating_add(
            usage.cached_input_tokens,
        );
        self.output_tokens = self.output_tokens.saturating_add(usage.output_tokens);
        self.total_tokens = self.total_tokens.saturating_add(usage.total_tokens);
    }

    /// The usage in words.
    pub fn message(&self) -> (r: String)
        ensures
            r@ == usage_words(*self),
    {
        let mut r = "input=".to_string();
        r.append(decimal_text(self.input_tokens as u128).as_str());
        r.append(", cached_input=");
        r.append(decimal_text(self.cached_input_tokens as u128).as_str());
        r.append(", output=");
        r.append(decimal_text(self.output_tokens as u128).as_str());
        r.append(", total=");
        r.append(decimal_text(self.total_tokens as u128).as_str());
        r
    }
}

/// Usages can be added in any order and any grouping.
pub proof fn law_usage_sum(a: TokenUsage, b: TokenUsage, c: TokenUsage)
    ensures
        usage_sum(a, b) == usage_sum(b, a),
        usage_sum(usage_sum(a, b), c) == usage_sum(a, usage_sum(b, c)),
        usage_sum(a, no_usage()) == a,
{
}

// ---------------------------------------------------------------------------
// Items

/// The item that records `kind` and takes its identifier from `ids`.
pub open spec fn item_view(
    ids: IdSource,
    source: TurnItemSource,
    kind: TurnItemKindView,
) -> TurnItemView {
    TurnItemView { id: ids::id_text("item"@, ids), created_at: ids::stamp(ids), source, kind }
}

impl TurnItem {
    /// A new record.
    pub fn new(source: TurnItemSource, kind: TurnItemKind, ids: &mut IdSource) -> (r: Self)
        ensures
            r@ == item_view(*old(ids), source, kind@),
            *final(ids) == ids::after(*old(ids), 1),
    {
        let created_at = ids.timestamp();
        TurnItem { id: ids.issue("item"), created_at, source, kind }
    }
}

// ---------------------------------------------------------------------------
// Turns

/// A turn that has just begun.
pub open spec fn new_turn(ids: IdSource) -> TurnView {
    TurnView {
        id: ids::id_text("turn"@, ids),
        status: TurnStatus::Running,
        items: Seq::empty(),
        created_at: ids::stamp(ids),
        updated_at: ids::stamp(ids),
    }
}

/// A turn with one item more.
pub open spec fn with_item(turn: TurnView, item: TurnItemView, ids: IdSource) -> TurnView {
    TurnView { items: turn.items.push(item), updated_at: ids::stamp(ids), ..turn }
}

/// A turn in another state.
pub open spec fn with_status(turn: TurnView, status: TurnStatus, ids: IdSource) -> TurnView {
    TurnView { status, updated_at: ids::stamp(ids), ..turn }
}

impl Turn {
    /// A turn that has just begun.
    pub fn new(ids: &mut IdSource) -> (r: Self)
        ensures
            r@ == new_turn(*old(ids)),
            *final(ids) == ids::after(*old(ids), 1),
    {
        let now = ids.timestamp();
        let r = Turn {
            id: ids.issue("turn"),
            status: TurnStatus::Running,
            items: Vec::new(),
            created_at: now.clone(),
            updated_at: now,
        };
        assert(r@.items =~= Seq::<TurnItemView>::empty());
        r
    }

    /// Appends `item`.
    pub fn push_item(&mut self, item: TurnItem, ids: &IdSource)
        ensures
            final(self)@ == with_item(old(self)@, item@, *ids),
    {
        broadcast use crate::views::group_views;

        self.items.push(item);
        self.updated_at = ids.timestamp();
    }

    /// Moves the turn to another state.
    pub fn set_status(&mut self, status: TurnStatus, ids: &IdSource)
        ensures
            final(self)@ == with_status(old(self)@, status, *ids),
    {
        self.status = status;
        self.updated_at = ids.timestamp();
    }
}

// ---------------------------------------------------------------------------
// Threads

/// The layout of stored threads.
pub fn current_schema_version() -> (r: u32)
    ensures
        r == 1,
{
    1
}

/// A thread in which nothing has happened yet.
pub open spec fn new_thread(id: Seq<char>, ids: IdSource) -> ThreadView {
    ThreadView {
        schema_version: 1,
        id,
        goal: None,
        turns: Seq::empty(),
        token_usage: no_usage(),
        version: 0,
        revision: Seq::empty(),
        created_at: ids::stamp(ids),
        updated_at: ids::stamp(ids),
    }
}

/// The place of the first turn that has the identifier.
pub open spec fn turn_index(turns: Seq<TurnView>, turn_id: Seq<char>) -> Option<int>
    decreases turns.len(),
{
    if turns.len() == 0 {
        None
    } else {
        match turn_index(turns.drop_last(), turn_id) {
            Some(i) => Some(i),
            None => if turns.last().id == turn_id {
                Some(turns.len() - 1)
            } else {
                None
            },
        }
    }
}

/// What the place of a turn says of the turns.
pub proof fn lemma_turn_index(turns: Seq<TurnView>, turn_id: Seq<char>)
    ensures
        match turn_index(turns, turn_id) {
            Some(i) => 0 <= i < turns.len() && turns[i].id == turn_id && forall|j: int|
                0 <= j < i ==> (#[trigger] turns[j]).id != turn_id,
            None => forall|j: int| 0 <= j < turns.len() ==> (#[trigger] turns[j]).id != turn_id,
        },
    decreases turns.len(),
{
    if turns.len() > 0 {
        lemma_turn_index(turns.drop_last(), turn_id);
        assert forall|j: int| 0 <= j < turns.len() - 1 implies #[trigger] turns[j]
            == turns.drop_last()[j] by {}
    }
}

/// The first turn with an identifier is the only one that `turn_index` names.
pub proof fn lemma_turn_index_is(turns: Seq<TurnView>, turn_id: Seq<char>, i: int)
    requires
        0 <= i < turns.len(),
        turns[i].id == turn_id,
        forall|j: int| 0 <= j < i ==> (#[trigger] turns[j]).id != turn_id,
    ensures
        turn_index(turns, turn_id) == Some(i),
{
    lemma_turn_index(turns, turn_id);
}

impl Thread {
    /// A thread in which nothing has happened yet.
    pub fn new(id: &str, ids: &IdSource) -> (r: Self)
        ensures
            r@ == new_thread(id@, *ids),
    {
        let now = ids.timestamp();
        let r = Thread {
            schema_version: current_schema_version(),
            id: id.to_string(),
            goal: None,
            turns: Vec::new(),
            token_usage: TokenUsage::default(),
            version: 0,
            revision: RevisionToken::initial(),
            created_at: now.clone(),
            updated_at: now,
        };
        assert(r@.turns =~= Seq::<TurnView>::empty());
        r
    }

    /// Notes that the thread was changed.
    pub fn touch(&mut self, ids: &IdSource)
        ensures
            final(self)@ == (ThreadView { updated_at: ids::stamp(*ids), ..old(self)@ }),
    {
        self.updated_at = ids.timestamp();
    }

    /// The place of the first turn that has the identifier.
    pub fn find_turn(&self, turn_id: &str) -> (r: Option<usize>)
        ensures
            r is Some <==> turn_index(self@.turns, turn_id@) is Some,
            r matches Some(i) ==> turn_index(self@.turns, turn_id@) == Some(i as int) && i
                < self.turns@.len(),
    {
        let mut i: usize = 0;
        while i < self.turns.len()
            invariant
                i <= self.turns@.len(),
                forall|j: int| 0 <= j < i ==> (#[trigger] self@.turns[j]).id != turn_id@,
            decreases self.turns@.len() - i,
        {
            assert(self@.turns[i as int] == self.turns@[i as int]@);
            if text_eq(self.turns[i].id.as_str(), turn_id) {
                proof {
                    lemma_turn_index_is(self@.turns, turn_id@, i as int);
                }
                return Some(i);
            }
            i = i + 1;
        }
        proof {
            lemma_turn_index(self@.turns, turn_id@);
        }
        None
    }

    /// The first turn that has the identifier.
    pub fn turn_mut(&mut self, turn_id: &str) -> (r: Option<&mut Turn>)
        ensures
            match turn_index(old(self)@.turns, turn_id@) {
                Some(i) => r matches Some(turn) && 0 <= i < old(self).turns@.len() && *turn == old(
                    self,
                ).turns@[i] && final(self)@ == (ThreadView {
                    turns: old(self)@.turns.update(i, final(turn)@),
                    ..old(self)@
                }),
                None => r is None && *final(self) == *old(self),
            },
    {
        match self.find_turn(turn_id) {
            Some(i) => {
                broadcast use crate::views::group_views;

                Some(&mut self.turns[i])
            },
            None => None,
        }
    }
}

} // verus!
