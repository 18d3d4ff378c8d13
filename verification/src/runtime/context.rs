//! Which messages of a conversation a model gets to read.
use crate::clock::{self, now_in_words};
use crate::error::{AgentError, AgentErrorView};
use crate::json::{self, copy_of, list_value, null_value, text_value, value_text, Fields, Json};
use crate::kernel::events::{GoalState, GoalStateView, GoalStatus};
use crate::kernel::model::{ModelFunctionCall, ModelFunctionCallView};
use crate::kernel::projection::{ChatMessage, ChatMessageView, ThreadProjection};
use crate::kernel::revision::RevisionToken;
use crate::runtime::store::{ThreadContextCache, ThreadContextCacheView};
use crate::text::{self, text_eq, trim};
use crate::views;
use serde_json::Value;
use vstd::prelude::*;

verus! {

/// What becomes of the newest messages when they do not fit.
#[derive(Debug, Clone, Copy, PartialEq, Eq, Structural)]
pub enum OversizedGroupPolicy {
    ElideToolOutputs,
    DropWithMarker,
    Fail,
}

/// The messages chosen for a request, and the summary to keep.
#[derive(Debug, PartialEq)]
pub struct ContextBuildOutput {
    pub messages: Vec<ChatMessage>,
    pub cache: Option<ThreadContextCache>,
}

/// What a `ContextBuildOutput` holds.
#[verifier::ext_equal]
pub struct ContextBuildOutputView {
    pub messages: Seq<ChatMessageView>,
    pub cache: Option<ThreadContextCacheView>,
}

impl View for ContextBuildOutput {
    type V = ContextBuildOutputView;

    open spec fn view(&self) -> ContextBuildOutputView {
        ContextBuildOutputView {
            messages: views::all(self.messages@),
            cache: views::opt(self.cache),
        }
    }
}

impl Clone for ContextBuildOutput {
    fn clone(&self) -> (r: Self)
        ensures
            r@ == self@,
    {
        let r = ContextBuildOutput {
            messages: self.messages.clone(),
            cache: self.cache.clone(),
        };
        assert(views::all(r.messages@) =~= views::all(self.messages@));
        assert(views::opt(r.cache) =~= views::opt(self.cache));
        r
    }
}

/// Messages to be summed up.
#[derive(Debug, PartialEq)]
pub struct CompactionInput {
    pub messages: Vec<ChatMessage>,
    /// What stands for the messages before these.
    pub previous_summary: Option<String>,
    pub max_summary_tokens: usize,
}

/// What a `CompactionInput` holds.
#[verifier::ext_equal]
pub struct CompactionInputView {
    pub messages: Seq<ChatMessageView>,
    pub previous_summary: Option<Seq<char>>,
    pub max_summary_tokens: usize,
}

impl View for CompactionInput {
    type V = CompactionInputView;

    open spec fn view(&self) -> CompactionInputView {
        CompactionInputView {
            messages: views::all(self.messages@),
            previous_summary: views::opt(self.previous_summary),
            max_summary_tokens: self.max_summary_tokens,
        }
    }
}

impl Clone for CompactionInput {
    fn clone(&self) -> (r: Self)
        ensures
            r@ == self@,
    {
        let r = CompactionInput {
            messages: self.messages.clone(),
            previous_summary: self.previous_summary.clone(),
            max_summary_tokens: self.max_summary_tokens,
        };
        assert(views::all(r.messages@) =~= views::all(self.messages@));
        assert(views::opt(r.previous_summary) =~= views::opt(self.previous_summary));
        r
    }
}

/// Where the summary of the messages that are left out comes from.
#[derive(Debug, PartialEq)]
pub enum SummaryNeed {
    /// There is none.
    Nothing,
    /// It was made for an earlier request.
    Cached(String),
    /// It is still to be made.
    Compact(CompactionInput),
}

/// What a `SummaryNeed` holds.
#[verifier::ext_equal]
pub enum SummaryNeedView {
    Nothing,
    Cached(Seq<char>),
    Compact(CompactionInputView),
}

impl View for SummaryNeed {
    type V = SummaryNeedView;

    open spec fn view(&self) -> SummaryNeedView {
        match *self {
            SummaryNeed::Nothing => SummaryNeedView::Nothing,
            SummaryNeed::Cached(inner) => SummaryNeedView::Cached(inner@),
            SummaryNeed::Compact(inner) => SummaryNeedView::Compact(inner@),
        }
    }
}

impl Clone for SummaryNeed {
    fn clone(&self) -> (r: Self)
        ensures
            r@ == self@,
    {
        match self {
            SummaryNeed::Nothing => SummaryNeed::Nothing,
            SummaryNeed::Cached(inner) => SummaryNeed::Cached(inner.clone()),
            SummaryNeed::Compact(inner) => SummaryNeed::Compact(inner.clone()),
        }
    }
}

/// The messages chosen for a request, before there is a summary.
#[derive(Debug, PartialEq)]
pub struct ContextPlan {
    pub system: ChatMessage,
    pub system_tokens: usize,
    /// What the conversation and its summary may take.
    pub budget: usize,
    /// What the summary may take.
    pub reserved: usize,
    pub selected: Vec<ChatMessage>,
    pub selected_tokens: usize,
    pub omitted: Vec<ChatMessage>,
    pub need: SummaryNeed,
}

/// What a `ContextPlan` holds.
#[verifier::ext_equal]
pub struct ContextPlanView {
    pub system: ChatMessageView,
    pub system_tokens: usize,
    pub budget: usize,
    pub reserved: usize,
    pub selected: Seq<ChatMessageView>,
    pub selected_tokens: usize,
    pub omitted: Seq<ChatMessageView>,
    pub need: SummaryNeedView,
}

impl View for ContextPlan {
    type V = ContextPlanView;

    open spec fn view(&self) -> ContextPlanView {
        ContextPlanView {
            system: self.system@,
            system_tokens: self.system_tokens,
            budget: self.budget,
            reserved: self.reserved,
            selected: views::all(self.selected@),
            selected_tokens: self.selected_tokens,
            omitted: views::all(self.omitted@),
            need: self.need@,
        }
    }
}

impl Clone for ContextPlan {
    fn clone(&self) -> (r: Self)
        ensures
            r@ == self@,
    {
        let r = ContextPlan {
            system: self.system.clone(),
            system_tokens: self.system_tokens,
            budget: self.budget,
            reserved: self.reserved,
            selected: self.selected.clone(),
            selected_tokens: self.selected_tokens,
            omitted: self.omitted.clone(),
            need: self.need.clone(),
        };
        assert(views::all(r.selected@) =~= views::all(self.selected@));
        assert(views::all(r.omitted@) =~= views::all(self.omitted@));
        r
    }
}

// ---------------------------------------------------------------------------
// Counting tokens

/// A way to count the tokens of messages.
pub trait TokenEstimator {
    /// The tokens that messages take. They depend on the messages alone.
    closed spec fn tokens(&self, messages: Seq<ChatMessageView>) -> usize {
        arbitrary()
    }

    /// The tokens that `messages` take.
    fn estimate(&self, messages: &[ChatMessage]) -> (r: usize)
        ensures
            r == self.tokens(views::all(messages@)),
    ;
}

/// Counts four bytes of JSON as one token.
#[derive(Debug, Default)]
pub struct ApproximateTokenEstimator;

/// A call as a JSON object.
pub open spec fn call_json(call: ModelFunctionCallView) -> Json {
    Json::Fields(
        Map::<Seq<char>, Json>::empty().insert("call_id"@, Json::Text(call.call_id)).insert(
            "name"@,
            Json::Text(call.name),
        ).insert("arguments"@, call.arguments),
    )
}

/// A message as a JSON object.
pub open spec fn message_json(message: ChatMessageView) -> Json {
    let none = Map::<Seq<char>, Json>::empty();
    match message {
        ChatMessageView::System { content } => Json::Fields(
            none.insert("role"@, Json::Text("system"@)).insert("content"@, Json::Text(content)),
        ),
        ChatMessageView::User { content } => Json::Fields(
            none.insert("role"@, Json::Text("user"@)).insert("content"@, Json::Text(content)),
        ),
        ChatMessageView::Assistant { content, tool_calls } => Json::Fields(
            none.insert("role"@, Json::Text("assistant"@)).insert(
                "content"@,
                match content {
                    Some(text) => Json::Text(text),
                    None => Json::Null,
                },
            ).insert(
                "tool_calls"@,
                Json::List(Seq::new(tool_calls.len(), |i: int| call_json(tool_calls[i]))),
            ),
        ),
        ChatMessageView::Tool { tool_call_id, name, content } => Json::Fields(
            none.insert("role"@, Json::Text("tool"@)).insert(
                "tool_call_id"@,
                Json::Text(tool_call_id),
            ).insert("name"@, Json::Text(name)).insert("content"@, content),
        ),
    }
}

/// Messages as a JSON list.
pub open spec fn messages_json(messages: Seq<ChatMessageView>) -> Json {
    Json::List(Seq::new(messages.len(), |i: int| message_json(messages[i])))
}

/// A quarter, rounded up.
pub open spec fn quarter(n: usize) -> usize {
    ((n + 3) / 4) as usize
}

fn call_value(call: &ModelFunctionCall) -> (r: Value)
    ensures
        json::of(r) == call_json(call@),
{
    Fields::new().with_text("call_id", call.call_id.as_str()).with_text(
        "name",
        call.name.as_str(),
    ).with("arguments", copy_of(&call.arguments)).value()
}

fn message_value(message: &ChatMessage) -> (r: Value)
    ensures
        json::of(r) == message_json(message@),
{
    match message {
        ChatMessage::System { content } => Fields::new().with_text("role", "system").with_text(
            "content",
            content.as_str(),
        ).value(),
        ChatMessage::User { content } => Fields::new().with_text("role", "user").with_text(
            "content",
            content.as_str(),
        ).value(),
        ChatMessage::Assistant { content, tool_calls } => {
            let said = match content {
                Some(text) => text_value(text.clone()),
                None => null_value(),
            };
            let mut calls: Vec<Value> = Vec::new();
            let mut i: usize = 0;
            while i < tool_calls.len()
                invariant
                    i <= tool_calls@.len(),
                    calls@.len() == i,
                    forall|k: int|
                        0 <= k < i ==> json::of(#[trigger] calls@[k]) == call_json(
                            tool_calls@[k]@,
                        ),
                decreases tool_calls@.len() - i,
            {
                calls.push(call_value(&tool_calls[i]));
                i = i + 1;
            }
            assert(json::all(calls@) =~= Seq::new(
                tool_calls@.len(),
                |k: int| call_json(views::all(tool_calls@)[k]),
            ));
            Fields::new().with_text("role", "assistant").with("content", said).with(
                "tool_calls",
                list_value(calls),
            ).value()
        },
        ChatMessage::Tool { tool_call_id, name, content } => Fields::new().with_text(
            "role",
            "tool",
        ).with_text("tool_call_id", tool_call_id.as_str()).with_text("name", name.as_str()).with(
            "content",
            copy_of(content),
        ).value(),
    }
}

/// `messages` as a JSON list.
pub fn messages_value(messages: &[ChatMessage]) -> (r: Value)
    ensures
        json::of(r) == messages_json(views::all(messages@)),
{
    let mut values: Vec<Value> = Vec::new();
    let mut i: usize = 0;
    while i < messages.len()
        invariant
            i <= messages@.len(),
            values@.len() == i,
            forall|k: int|
                0 <= k < i ==> json::of(#[trigger] values@[k]) == message_json(messages@[k]@),
        decreases messages@.len() - i,
    {
        values.push(message_value(&messages[i]));
        i = i + 1;
    }
    assert(json::all(values@) =~= Seq::new(
        messages@.len(),
        |k: int| message_json(views::all(messages@)[k]),
    ));
    list_value(values)
}

impl TokenEstimator for ApproximateTokenEstimator {
    open spec fn tokens(&self, messages: Seq<ChatMessageView>) -> usize {
        quarter(
            vstd::utf8::encode_utf8(json::json_text(messages_json(messages))).len() as usize,
        )
    }

    fn estimate(&self, messages: &[ChatMessage]) -> (r: usize) {
        let value = messages_value(messages);
        let encoded = value_text(&value);
        let n = encoded.as_str().len();
        if n % 4 == 0 {
            n / 4
        } else {
            n / 4 + 1
        }
    }
}

// ---------------------------------------------------------------------------
// Blocks

/// How many tool outputs a conversation starts with.
pub open spec fn leading_outputs(messages: Seq<ChatMessageView>) -> nat
    decreases messages.len(),
{
    if messages.len() > 0 && messages[0] is Tool {
        1 + leading_outputs(messages.skip(1))
    } else {
        0
    }
}

/// Whether a message asks for function calls.
pub open spec fn asks_for_calls(message: ChatMessageView) -> bool {
    message matches ChatMessageView::Assistant { content, tool_calls } && tool_calls.len() > 0
}

/// How many messages belong together at the start of a conversation: a message
/// that asks for calls and their outputs, or a single message.
pub open spec fn block_len(messages: Seq<ChatMessageView>) -> nat {
    if asks_for_calls(messages[0]) {
        1 + leading_outputs(messages.skip(1))
    } else {
        1
    }
}

/// A conversation in blocks that are kept or left out as a whole.
pub open spec fn blocks(messages: Seq<ChatMessageView>) -> Seq<Seq<ChatMessageView>>
    decreases messages.len(),
    via blocks_end
{
    if messages.len() == 0 {
        Seq::empty()
    } else {
        seq![messages.take(block_len(messages) as int)] + blocks(
            messages.skip(block_len(messages) as int),
        )
    }
}

#[via_fn]
proof fn blocks_end(messages: Seq<ChatMessageView>) {
    if messages.len() > 0 {
        lemma_leading_outputs(messages.skip(1));
    }
}

/// A conversation starts with no more tool outputs than it has messages.
pub proof fn lemma_leading_outputs(messages: Seq<ChatMessageView>)
    ensures
        leading_outputs(messages) <= messages.len(),
        forall|i: int| 0 <= i < leading_outputs(messages) ==> #[trigger] messages[i] is Tool,
        leading_outputs(messages) < messages.len() ==> !(messages[leading_outputs(
            messages,
        ) as int] is Tool),
    decreases messages.len(),
{
    if messages.len() > 0 && messages[0] is Tool {
        let rest = messages.skip(1);
        lemma_leading_outputs(rest);
        assert forall|i: int|
            0 <= i < leading_outputs(messages) implies #[trigger] messages[i] is Tool by {
            if i > 0 {
                assert(messages[i] == rest[i - 1]);
            }
        }
        if leading_outputs(messages) < messages.len() {
            assert(messages[leading_outputs(messages) as int] == rest[leading_outputs(
                rest,
            ) as int]);
        }
    }
}

/// The views of the messages of several blocks.
pub open spec fn nested(groups: Seq<Vec<ChatMessage>>) -> Seq<Seq<ChatMessageView>> {
    Seq::new(groups.len(), |i: int| views::all(groups[i]@))
}

/// A conversation in blocks that are kept or left out as a whole.
pub fn tool_call_blocks(messages: &Vec<ChatMessage>) -> (r: Vec<Vec<ChatMessage>>)
    ensures
        nested(r@) == blocks(views::all(messages@)),
{
    let ghost all_messages = views::all(messages@);
    let mut groups: Vec<Vec<ChatMessage>> = Vec::new();
    let mut index: usize = 0;
    let n = messages.len();
    assert(nested(groups@) + blocks(all_messages.skip(0)) =~= blocks(all_messages)) by {
        assert(all_messages.skip(0) =~= all_messages);
    }
    while index < n
        invariant
            n == messages@.len(),
            index <= n,
            all_messages == views::all(messages@),
            nested(groups@) + blocks(all_messages.skip(index as int)) == blocks(all_messages),
        decreases n - index,
    {
        let ghost rest = all_messages.skip(index as int);
        let start = index;
        let mut group: Vec<ChatMessage> = Vec::new();
        group.push(messages[index].clone());
        index = index + 1;
        let asks = match &messages[start] {
            ChatMessage::Assistant { tool_calls, .. } => tool_calls.len() > 0,
            _ => false,
        };
        assert(rest[0] == messages@[start as int]@);
        assert(asks == asks_for_calls(rest[0]));
        if asks {
            let ghost tail = rest.skip(1);
            assert(tail.skip(0) =~= tail);
            while index < n && is_tool(&messages[index])
                invariant
                    n == messages@.len(),
                    start < index <= n,
                    all_messages == views::all(messages@),
                    rest == all_messages.skip(start as int),
                    tail == rest.skip(1),
                    group@.len() == index - start,
                    forall|k: int|
                        0 <= k < group@.len() ==> (#[trigger] group@[k])@ == rest[k],
                    leading_outputs(tail) == index - start - 1 + leading_outputs(
                        tail.skip(index - start - 1),
                    ),
                decreases n - index,
            {
                let ghost here = tail.skip(index - start - 1);
                assert(here[0] == messages@[index as int]@);
                assert(here.skip(1) =~= tail.skip(index - start));
                group.push(messages[index].clone());
                index = index + 1;
            }
            proof {
                let here = tail.skip(index - start - 1);
                if index < n {
                    assert(here[0] == messages@[index as int]@);
                }
                assert(leading_outputs(here) == 0);
            }
        }
        assert(index - start == block_len(rest));
        assert(views::all(group@) =~= rest.take(block_len(rest) as int));
        assert(rest.skip(block_len(rest) as int) =~= all_messages.skip(index as int));
        let ghost before = groups@;
        groups.push(group);
        assert(nested(groups@) =~= nested(before).push(views::all(group@)));
        assert(nested(groups@) + blocks(all_messages.skip(index as int)) =~= nested(before)
            + blocks(rest));
    }
    assert(all_messages.skip(index as int) =~= Seq::<ChatMessageView>::empty());
    assert(nested(groups@) + blocks(all_messages.skip(index as int)) =~= nested(groups@));
    groups
}

fn is_tool(message: &ChatMessage) -> (r: bool)
    ensures
        r == (message@ is Tool),
{
    match message {
        ChatMessage::Tool { .. } => true,
        _ => false,
    }
}

/// The messages of the blocks from `from` up to `to`.
pub fn flatten(groups: &Vec<Vec<ChatMessage>>, from: usize, to: usize) -> (r: Vec<ChatMessage>)
    requires
        from <= to <= groups@.len(),
    ensures
        views::all(r@) == nested(groups@).subrange(from as int, to as int).flatten(),
{
    let mut messages: Vec<ChatMessage> = Vec::new();
    let mut i: usize = from;
    let ghost all_groups = nested(groups@);
    assert(views::all(messages@) =~= all_groups.subrange(from as int, from as int).flatten());
    while i < to
        invariant
            from <= i <= to <= groups@.len(),
            all_groups == nested(groups@),
            views::all(messages@) == all_groups.subrange(from as int, i as int).flatten(),
        decreases to - i,
    {
        let mut group = groups[i].clone();
        assert(views::all(group@) =~= all_groups[i as int]);
        let ghost before = messages@;
        let ghost part = group@;
        messages.append(&mut group);
        assert(views::all(messages@) =~= views::all(before) + views::all(part));
        assert(all_groups.subrange(from as int, i + 1) =~= all_groups.subrange(
            from as int,
            i as int,
        ).push(all_groups[i as int]));
        proof {
            all_groups.subrange(from as int, i as int).lemma_flatten_push(all_groups[i as int]);
        }
        i = i + 1;
    }
    messages
}

// ---------------------------------------------------------------------------
// The instructions

/// What is said about the time.
pub open spec fn time_context(local: Seq<char>, utc: Seq<char>) -> Seq<char> {
    "\nCurrent time context: local="@ + local + ", utc="@ + utc
        + ". Use this as the current date/time for time-sensitive answers."@
}

/// The name of a goal's state.
pub open spec fn status_name(status: GoalStatus) -> Seq<char> {
    match status {
        GoalStatus::Active => "Active"@,
        GoalStatus::Complete => "Complete"@,
        GoalStatus::Blocked => "Blocked"@,
    }
}

/// What is said about the goal.
pub open spec fn goal_context(goal: Option<GoalStateView>) -> Seq<char> {
    match goal {
        Some(goal) => "\nCurrent thread goal: objective="@ + goal.objective + ", status="@
            + status_name(goal.status) + ", notes="@ + (match goal.notes {
            Some(notes) => notes,
            None => ""@,
        }),
        None => Seq::empty(),
    }
}

/// What is said about the host.
pub open spec fn host_context(runtime_context: Option<Seq<char>>) -> Seq<char> {
    match runtime_context {
        Some(context) => if text::trimmed(context).len() > 0 {
            "\nCurrent turn runtime context. This host-supplied context applies only to this model request and is not durable thread state:\n"@
                + text::trimmed(context)
        } else {
            Seq::empty()
        },
        None => Seq::empty(),
    }
}

/// The instructions for the model.
pub open spec fn system_content(
    prompt: Seq<char>,
    runtime_context: Option<Seq<char>>,
    local: Seq<char>,
    utc: Seq<char>,
    goal: Option<GoalStateView>,
) -> Seq<char> {
    prompt + host_context(runtime_context) + time_context(local, utc) + goal_context(goal)
}

/// The view of an optional text.
pub open spec fn opt_text(text: Option<&str>) -> Option<Seq<char>> {
    match text {
        Some(t) => Some(t@),
        None => None,
    }
}

/// The instructions for the model.
pub fn system_message(
    prompt: &str,
    runtime_context: Option<&str>,
    local: &str,
    utc: &str,
    goal: &Option<GoalState>,
) -> (r: ChatMessage)
    ensures
        r@ == (ChatMessageView::System {
            content: system_content(
                prompt@,
                opt_text(runtime_context),
                local@,
                utc@,
                views::opt(*goal),
            ),
        }),
{
    let mut content = prompt.to_string();
    if let Some(context) = runtime_context {
        let context = trim(context);
        if context.as_str().unicode_len() > 0 {
            content.append(
                "\nCurrent turn runtime context. This host-supplied context applies only to this model request and is not durable thread state:\n",
            );
            content.append(context.as_str());
        }
    }
    assert(content@ =~= prompt@ + host_context(opt_text(runtime_context)));
    content.append("\nCurrent time context: local=");
    content.append(local);
    content.append(", utc=");
    content.append(utc);
    content.append(". Use this as the current date/time for time-sensitive answers.");
    assert(content@ =~= prompt@ + host_context(opt_text(runtime_context)) + time_context(
        local@,
        utc@,
    ));
    if let Some(goal) = goal {
        content.append("\nCurrent thread goal: objective=");
        content.append(goal.objective.as_str());
        content.append(", status=");
        content.append(
            match goal.status {
                GoalStatus::Active => "Active",
                GoalStatus::Complete => "Complete",
                GoalStatus::Blocked => "Blocked",
            },
        );
        content.append(", notes=");
        match &goal.notes {
            Some(notes) => {
                content.append(notes.as_str());
            },
            None => {
                content.append("");
            },
        }
    }
    assert(content@ =~= system_content(
        prompt@,
        opt_text(runtime_context),
        local@,
        utc@,
        views::opt(*goal),
    ));
    ChatMessage::System { content }
}

// ---------------------------------------------------------------------------
// Choosing

/// A sum that stops at the largest number.
pub open spec fn capped_tokens(a: usize, b: usize) -> usize {
    if a + b > usize::MAX {
        usize::MAX
    } else {
        (a + b) as usize
    }
}

/// Where the blocks that are kept begin, and the tokens that they take, when the
/// blocks from `n` on take `used`. The newest block may take the whole budget,
/// older ones only what is not reserved.
pub open spec fn kept_from<E: TokenEstimator>(
    estimator: E,
    groups: Seq<Seq<ChatMessageView>>,
    n: nat,
    used: usize,
    budget: usize,
    history_budget: usize,
) -> (nat, usize)
    decreases n,
{
    if n == 0 {
        (0, used)
    } else {
        let total = capped_tokens(used, estimator.tokens(groups[n - 1]));
        let limit = if n == groups.len() {
            budget
        } else {
            history_budget
        };
        if total > limit {
            (n, used)
        } else {
            kept_from(estimator, groups, (n - 1) as nat, total, budget, history_budget)
        }
    }
}

/// A message with its tool output left out.
pub open spec fn elided(message: ChatMessageView) -> ChatMessageView {
    match message {
        ChatMessageView::Tool { tool_call_id, name, content } => ChatMessageView::Tool {
            tool_call_id,
            name,
            content: Json::Text("[tool output elided because it exceeded the context budget]"@),
        },
        _ => message,
    }
}

/// Messages with their tool outputs left out.
pub open spec fn all_elided(messages: Seq<ChatMessageView>) -> Seq<ChatMessageView> {
    Seq::new(messages.len(), |i: int| elided(messages[i]))
}

/// What stands for messages that were left out.
pub open spec fn truncation_marker() -> ChatMessageView {
    ChatMessageView::System {
        content: "[conversation block omitted because it exceeded the context budget]"@,
    }
}

/// The marker, if it fits.
pub open spec fn marker_within<E: TokenEstimator>(estimator: E, budget: usize) -> Seq<
    ChatMessageView,
> {
    if estimator.tokens(seq![truncation_marker()]) <= budget {
        seq![truncation_marker()]
    } else {
        Seq::empty()
    }
}

/// What becomes of the newest block when it does not fit.
pub open spec fn fitted<E: TokenEstimator>(
    estimator: E,
    group: Seq<ChatMessageView>,
    budget: usize,
    policy: OversizedGroupPolicy,
) -> Result<Seq<ChatMessageView>, AgentErrorView> {
    match policy {
        OversizedGroupPolicy::Fail => Err(
            AgentErrorView::ContextWindowExceeded {
                estimated: estimator.tokens(group),
                limit: budget,
            },
        ),
        OversizedGroupPolicy::DropWithMarker => Ok(marker_within(estimator, budget)),
        OversizedGroupPolicy::ElideToolOutputs => if estimator.tokens(all_elided(group))
            <= budget {
            Ok(all_elided(group))
        } else {
            Ok(marker_within(estimator, budget))
        },
    }
}

/// Messages that are kept, their tokens, and messages that are left out.
#[verifier::ext_equal]
pub struct Selection {
    pub messages: Seq<ChatMessageView>,
    pub tokens: usize,
    pub omitted: Seq<ChatMessageView>,
}

/// Which messages are kept: the newest blocks that fit, and always something of
/// the newest.
pub open spec fn selection<E: TokenEstimator>(
    estimator: E,
    conversation: Seq<ChatMessageView>,
    budget: usize,
    history_budget: usize,
    policy: OversizedGroupPolicy,
) -> Result<Selection, AgentErrorView> {
    let groups = blocks(conversation);
    let n = groups.len() as int;
    let (from, used) = kept_from(estimator, groups, groups.len(), 0, budget, history_budget);
    if n > 0 && from == n {
        match fitted(estimator, groups.last(), budget, policy) {
            Ok(messages) => Ok(
                Selection {
                    messages,
                    tokens: estimator.tokens(messages),
                    omitted: groups.subrange(0, n - 1).flatten(),
                },
            ),
            Err(e) => Err(e),
        }
    } else {
        Ok(
            Selection {
                messages: groups.subrange(from as int, n).flatten(),
                tokens: used,
                omitted: groups.subrange(0, from as int).flatten(),
            },
        )
    }
}

fn context_truncation_marker<E: TokenEstimator>(estimator: &E, budget: usize) -> (r: Vec<
    ChatMessage,
>)
    ensures
        views::all(r@) == marker_within(*estimator, budget),
{
    let mut marker: Vec<ChatMessage> = Vec::new();
    marker.push(
        ChatMessage::System {
            content: "[conversation block omitted because it exceeded the context budget]".to_string(),
        },
    );
    assert(views::all(marker@) =~= seq![truncation_marker()]);
    if estimator.estimate(marker.as_slice()) <= budget {
        marker
    } else {
        let none: Vec<ChatMessage> = Vec::new();
        assert(views::all(none@) =~= Seq::<ChatMessageView>::empty());
        none
    }
}

/// What becomes of the newest block when it does not fit.
pub fn fit_oversized_group<E: TokenEstimator>(
    group: &Vec<ChatMessage>,
    budget: usize,
    policy: OversizedGroupPolicy,
    estimator: &E,
) -> (r: Result<Vec<ChatMessage>, AgentError>)
    ensures
        match fitted(*estimator, views::all(group@), budget, policy) {
            Ok(messages) => r matches Ok(kept) && views::all(kept@) == messages,
            Err(e) => r matches Err(error) && error@ == e,
        },
{
    match policy {
        OversizedGroupPolicy::Fail => Err(
            AgentError::ContextWindowExceeded {
                estimated: estimator.estimate(group.as_slice()),
                limit: budget,
            },
        ),
        OversizedGroupPolicy::DropWithMarker => Ok(context_truncation_marker(estimator, budget)),
        OversizedGroupPolicy::ElideToolOutputs => {
            let mut reduced: Vec<ChatMessage> = Vec::new();
            let mut i: usize = 0;
            while i < group.len()
                invariant
                    i <= group@.len(),
                    reduced@.len() == i,
                    forall|k: int|
                        0 <= k < i ==> (#[trigger] reduced@[k])@ == elided(group@[k]@),
                decreases group@.len() - i,
            {
                let message = match &group[i] {
                    ChatMessage::Tool { tool_call_id, name, .. } => ChatMessage::Tool {
                        tool_call_id: tool_call_id.clone(),
                        name: name.clone(),
                        content: text_value(
                            "[tool output elided because it exceeded the context budget]".to_string(),
                        ),
                    },
                    message => message.clone(),
                };
                reduced.push(message);
                i = i + 1;
            }
            assert(views::all(reduced@) =~= all_elided(views::all(group@)));
            if estimator.estimate(reduced.as_slice()) <= budget {
                Ok(reduced)
            } else {
                Ok(context_truncation_marker(estimator, budget))
            }
        },
    }
}

// ---------------------------------------------------------------------------
// Building

/// What a context is built from.
pub struct ContextBuildInput<'a> {
    pub thread_id: &'a str,
    pub thread_revision: &'a RevisionToken,
    pub projection: &'a ThreadProjection,
    pub system_prompt: &'a str,
    pub runtime_context: Option<&'a str>,
    pub cached_context: Option<&'a ThreadContextCache>,
}

/// Chooses the newest messages that fit, and has the rest summed up. `E` counts
/// tokens and `C` makes summaries.
pub struct CompactingContextBuilder<E, C> {
    pub max_context_tokens: usize,
    /// Budget reserved for a generated summary when a compactor is configured.
    pub summary_budget_tokens: usize,
    pub oversized_group_policy: OversizedGroupPolicy,
    pub policy_version: String,
    pub estimator: E,
    pub compactor: Option<C>,
}

impl<C> Default for CompactingContextBuilder<ApproximateTokenEstimator, C> {
    /// The usual settings, without a way to make summaries.
    fn default() -> (r: Self)
        ensures
            r.max_context_tokens == 32_000,
            r.summary_budget_tokens == 1_024,
            r.oversized_group_policy == OversizedGroupPolicy::ElideToolOutputs,
            r.policy_version@ == "compacting-v1"@,
            r.compactor is None,
    {
        CompactingContextBuilder {
            max_context_tokens: 32_000,
            summary_budget_tokens: 1_024,
            oversized_group_policy: OversizedGroupPolicy::ElideToolOutputs,
            policy_version: "compacting-v1".to_string(),
            estimator: ApproximateTokenEstimator,
            compactor: None,
        }
    }
}

/// What is kept of a context when its thread and its rules are still the same.
pub open spec fn cache_is_current(
    cache: ThreadContextCacheView,
    revision: Seq<u8>,
    policy_version: Seq<char>,
    omitted: nat,
) -> bool {
    cache.source_revision == revision && cache.policy_version == policy_version
        && cache.covered_message_count == omitted
}

/// What is to be summed up: all that was left out, or only what an earlier
/// summary does not cover.
pub open spec fn compaction(
    cache: Option<ThreadContextCacheView>,
    policy_version: Seq<char>,
    omitted: Seq<ChatMessageView>,
    max_summary_tokens: usize,
) -> CompactionInputView {
    match cache {
        Some(c) if c.policy_version == policy_version => {
            let covered = if c.covered_message_count <= omitted.len() {
                c.covered_message_count as int
            } else {
                omitted.len() as int
            };
            CompactionInputView {
                messages: omitted.skip(covered),
                previous_summary: if c.covered_message_count <= omitted.len() {
                    Some(c.summary)
                } else {
                    None
                },
                max_summary_tokens,
            }
        },
        _ => CompactionInputView {
            messages: omitted,
            previous_summary: None,
            max_summary_tokens,
        },
    }
}

impl<E: TokenEstimator, C> CompactingContextBuilder<E, C> {
    /// The builder with a way to make summaries.
    pub fn with_compactor(self, compactor: C) -> (r: Self)
        ensures
            r == (CompactingContextBuilder { compactor: Some(compactor), ..self }),
    {
        CompactingContextBuilder { compactor: Some(compactor), ..self }
    }

    /// The builder with another budget for summaries.
    pub fn with_summary_budget_tokens(self, tokens: usize) -> (r: Self)
        ensures
            r == (CompactingContextBuilder { summary_budget_tokens: tokens, ..self }),
    {
        CompactingContextBuilder { summary_budget_tokens: tokens, ..self }
    }

    /// The builder with another rule for messages that do not fit.
    pub fn with_oversized_group_policy(self, policy: OversizedGroupPolicy) -> (r: Self)
        ensures
            r == (CompactingContextBuilder { oversized_group_policy: policy, ..self }),
    {
        CompactingContextBuilder { oversized_group_policy: policy, ..self }
    }

    /// The part of the budget that is kept for a summary.
    pub open spec fn reserved(&self, budget: usize) -> usize {
        if self.compactor is None {
            0
        } else if self.summary_budget_tokens <= budget {
            self.summary_budget_tokens
        } else {
            budget
        }
    }

    /// Where the summary comes from.
    pub open spec fn need_for(
        &self,
        cache: Option<ThreadContextCacheView>,
        revision: Seq<u8>,
        omitted: Seq<ChatMessageView>,
        reserved: usize,
    ) -> SummaryNeedView {
        if omitted.len() == 0 {
            SummaryNeedView::Nothing
        } else if cache is Some && cache_is_current(
            cache->0,
            revision,
            self.policy_version@,
            omitted.len(),
        ) {
            SummaryNeedView::Cached(cache->0.summary)
        } else if self.compactor is Some {
            SummaryNeedView::Compact(
                compaction(cache, self.policy_version@, omitted, reserved),
            )
        } else {
            SummaryNeedView::Nothing
        }
    }

    /// Which messages go into a request.
    pub open spec fn planned(
        &self,
        input: ContextBuildInput<'_>,
        local: Seq<char>,
        utc: Seq<char>,
    ) -> Result<ContextPlanView, AgentErrorView> {
        let system = ChatMessageView::System {
            content: system_content(
                input.system_prompt@,
                opt_text(input.runtime_context),
                local,
                utc,
                input.projection@.goal,
            ),
        };
        let system_tokens = self.estimator.tokens(seq![system]);
        if system_tokens >= self.max_context_tokens {
            Err(
                AgentErrorView::ContextWindowExceeded {
                    estimated: system_tokens,
                    limit: self.max_context_tokens,
                },
            )
        } else {
            let budget = (self.max_context_tokens - system_tokens) as usize;
            let reserved = self.reserved(budget);
            let history_budget = (budget - reserved) as usize;
            match selection(
                self.estimator,
                input.projection@.conversation,
                budget,
                history_budget,
                self.oversized_group_policy,
            ) {
                Err(e) => Err(e),
                Ok(kept) => Ok(
                    ContextPlanView {
                        system,
                        system_tokens,
                        budget,
                        reserved,
                        selected: kept.messages,
                        selected_tokens: kept.tokens,
                        omitted: kept.omitted,
                        need: self.need_for(
                            cached_view(input.cached_context),
                            input.thread_revision@,
                            kept.omitted,
                            reserved,
                        ),
                    },
                ),
            }
        }
    }

    /// The context that a plan and a summary make.
    pub open spec fn finished(
        &self,
        thread_id: Seq<char>,
        revision: Seq<u8>,
        plan: ContextPlanView,
        summary: Option<Seq<char>>,
    ) -> Result<ContextBuildOutputView, AgentErrorView> {
        match summary {
            None => Ok(
                ContextBuildOutputView { messages: seq![plan.system] + plan.selected, cache: None },
            ),
            Some(content) => {
                let message = ChatMessageView::System { content };
                let summary_tokens = self.estimator.tokens(seq![message]);
                if summary_tokens > plan.reserved {
                    Err(
                        AgentErrorView::ContextCompactorContractViolation {
                            estimated: summary_tokens,
                            limit: plan.reserved,
                        },
                    )
                } else if capped_tokens(plan.selected_tokens, summary_tokens) > plan.budget {
                    Err(
                        AgentErrorView::ContextWindowExceeded {
                            estimated: capped_tokens(
                                capped_tokens(plan.system_tokens, plan.selected_tokens),
                                summary_tokens,
                            ),
                            limit: self.max_context_tokens,
                        },
                    )
                } else {
                    Ok(
                        ContextBuildOutputView {
                            messages: seq![plan.system, message] + plan.selected,
                            cache: Some(
                                ThreadContextCacheView {
                                    thread_id,
                                    source_revision: revision,
                                    policy_version: self.policy_version@,
                                    covered_message_count: plan.omitted.len() as usize,
                                    summary: content,
                                },
                            ),
                        },
                    )
                }
            },
        }
    }

    /// Which messages are kept.
    fn select(
        &self,
        conversation: &Vec<ChatMessage>,
        budget: usize,
        history_budget: usize,
    ) -> (r: Result<(Vec<ChatMessage>, usize, Vec<ChatMessage>), AgentError>)
        ensures
            match selection(
                self.estimator,
                views::all(conversation@),
                budget,
                history_budget,
                self.oversized_group_policy,
            ) {
                Ok(kept) => r matches Ok(s) && views::all(s.0@) == kept.messages && s.1
                    == kept.tokens && views::all(s.2@) == kept.omitted,
                Err(e) => r matches Err(error) && error@ == e,
            },
    {
        let groups = tool_call_blocks(conversation);
        let count = groups.len();
        let ghost all_groups = nested(groups@);
        let mut n: usize = count;
        let mut used: usize = 0;
        let mut full = false;
        while n > 0 && !full
            invariant
                count == groups@.len(),
                n <= count,
                all_groups == nested(groups@),
                kept_from(
                    self.estimator,
                    all_groups,
                    all_groups.len(),
                    0,
                    budget,
                    history_budget,
                ) == if full {
                    (n as nat, used)
                } else {
                    kept_from(
                        self.estimator,
                        all_groups,
                        n as nat,
                        used,
                        budget,
                        history_budget,
                    )
                },
            decreases n + (if full {
                0int
            } else {
                1int
            }),
        {
            let group_tokens = self.estimator.estimate(groups[n - 1].as_slice());
            assert(all_groups[n - 1] == views::all(groups@[n - 1]@));
            let limit = if n == count {
                budget
            } else {
                history_budget
            };
            let total = used.saturating_add(group_tokens);
            if total > limit {
                full = true;
            } else {
                n = n - 1;
                used = total;
            }
        }
        if count > 0 && n == count {
            match fit_oversized_group(
                &groups[count - 1],
                budget,
                self.oversized_group_policy,
                &self.estimator,
            ) {
                Ok(reduced) => {
                    let tokens = self.estimator.estimate(reduced.as_slice());
                    Ok((reduced, tokens, flatten(&groups, 0, count - 1)))
                },
                Err(error) => Err(error),
            }
        } else {
            Ok((flatten(&groups, n, count), used, flatten(&groups, 0, n)))
        }
    }

    /// What is to be summed up.
    fn compaction(
        &self,
        cache: Option<&ThreadContextCache>,
        omitted: &Vec<ChatMessage>,
        max_summary_tokens: usize,
    ) -> (r: CompactionInput)
        ensures
            r@ == compaction(
                cached_view(cache),
                self.policy_version@,
                views::all(omitted@),
                max_summary_tokens,
            ),
    {
        let mut start: usize = 0;
        let mut previous_summary: Option<String> = None;
        if let Some(c) = cache {
            if text_eq(c.policy_version.as_str(), self.policy_version.as_str()) {
                if c.covered_message_count <= omitted.len() {
                    start = c.covered_message_count;
                    previous_summary = Some(c.summary.clone());
                } else {
                    start = omitted.len();
                }
            }
        }
        let mut messages: Vec<ChatMessage> = Vec::new();
        let mut i: usize = start;
        while i < omitted.len()
            invariant
                start <= i <= omitted@.len(),
                messages@.len() == i - start,
                forall|k: int|
                    0 <= k < messages@.len() ==> (#[trigger] messages@[k])@ == omitted@[start
                        + k]@,
            decreases omitted@.len() - i,
        {
            messages.push(omitted[i].clone());
            i = i + 1;
        }
        assert(views::all(messages@) =~= views::all(omitted@).skip(start as int));
        assert(views::all(omitted@).skip(0) =~= views::all(omitted@));
        CompactionInput { messages, previous_summary, max_summary_tokens }
    }

    /// Which messages go into a request at the given time.
    pub fn plan(&self, input: &ContextBuildInput<'_>, local: &str, utc: &str) -> (r: Result<
        ContextPlan,
        AgentError,
    >)
        ensures
            views::res(r) == self.planned(*input, local@, utc@),
    {
        let system = system_message(
            input.system_prompt,
            input.runtime_context,
            local,
            utc,
            &input.projection.goal,
        );
        let mut single: Vec<ChatMessage> = Vec::new();
        single.push(system.clone());
        assert(views::all(single@) =~= seq![system@]);
        let system_tokens = self.estimator.estimate(single.as_slice());
        if system_tokens >= self.max_context_tokens {
            return Err(
                AgentError::ContextWindowExceeded {
                    estimated: system_tokens,
                    limit: self.max_context_tokens,
                },
            );
        }
        let budget = self.max_context_tokens - system_tokens;
        let reserved = match &self.compactor {
            Some(_) => if self.summary_budget_tokens <= budget {
                self.summary_budget_tokens
            } else {
                budget
            },
            None => 0,
        };
        let (selected, selected_tokens, omitted) = match self.select(
            &input.projection.conversation,
            budget,
            budget - reserved,
        ) {
            Ok(kept) => kept,
            Err(error) => {
                return Err(error);
            },
        };
        let current = match input.cached_context {
            Some(cache) => cache.source_revision.same(input.thread_revision) && text_eq(
                cache.policy_version.as_str(),
                self.policy_version.as_str(),
            ) && cache.covered_message_count == omitted.len(),
            None => false,
        };
        let need = if omitted.len() == 0 {
            SummaryNeed::Nothing
        } else if current {
            match input.cached_context {
                Some(cache) => SummaryNeed::Cached(cache.summary.clone()),
                None => SummaryNeed::Nothing,
            }
        } else if self.compactor.is_some() {
            SummaryNeed::Compact(self.compaction(input.cached_context, &omitted, reserved))
        } else {
            SummaryNeed::Nothing
        };
        Ok(
            ContextPlan {
                system,
                system_tokens,
                budget,
                reserved,
                selected,
                selected_tokens,
                omitted,
                need,
            },
        )
    }

    /// The context that a plan and a summary make.
    pub fn finish(
        &self,
        thread_id: &str,
        thread_revision: &RevisionToken,
        plan: ContextPlan,
        summary: Option<String>,
    ) -> (r: Result<ContextBuildOutput, AgentError>)
        ensures
            views::res(r) == self.finished(
                thread_id@,
                thread_revision@,
                plan@,
                views::opt(summary),
            ),
    {
        broadcast use crate::views::group_views;

        let mut selected = plan.selected;
        let mut messages: Vec<ChatMessage> = Vec::new();
        messages.push(plan.system);
        match summary {
            None => {
                messages.append(&mut selected);
                assert(views::all(messages@) =~= seq![plan@.system] + plan@.selected);
                Ok(ContextBuildOutput { messages, cache: None })
            },
            Some(content) => {
                let message = ChatMessage::System { content: content.clone() };
                let mut single: Vec<ChatMessage> = Vec::new();
                single.push(message.clone());
                assert(views::all(single@) =~= seq![message@]);
                let summary_tokens = self.estimator.estimate(single.as_slice());
                if summary_tokens > plan.reserved {
                    return Err(
                        AgentError::ContextCompactorContractViolation {
                            estimated: summary_tokens,
                            limit: plan.reserved,
                        },
                    );
                }
                if plan.selected_tokens.saturating_add(summary_tokens) > plan.budget {
                    return Err(
                        AgentError::ContextWindowExceeded {
                            estimated: plan.system_tokens.saturating_add(
                                plan.selected_tokens,
                            ).saturating_add(summary_tokens),
                            limit: self.max_context_tokens,
                        },
                    );
                }
                messages.push(message);
                messages.append(&mut selected);
                assert(views::all(messages@) =~= seq![plan@.system, message@] + plan@.selected);
                let cache = ThreadContextCache {
                    thread_id: thread_id.to_string(),
                    source_revision: thread_revision.clone(),
                    policy_version: self.policy_version.clone(),
                    covered_message_count: plan.omitted.len(),
                    summary: content,
                };
                Ok(ContextBuildOutput { messages, cache: Some(cache) })
            },
        }
    }
}

/// How far a context can be built before a summary is made.
#[derive(Debug)]
pub enum ContextBuild {
    /// The context is complete.
    Ready(ContextBuildOutput),
    /// What was left out must be summed up first.
    Compact(ContextPlan),
}

impl<E: TokenEstimator, C> CompactingContextBuilder<E, C> {
    /// What comes of a context at the given time: the plan where a summary must
    /// be made first, and the context itself where not.
    pub open spec fn builds(
        &self,
        input: ContextBuildInput<'_>,
        local: Seq<char>,
        utc: Seq<char>,
        result: Result<ContextBuild, AgentError>,
    ) -> bool {
        match self.planned(input, local, utc) {
            Err(e) => result matches Err(error) && error@ == e,
            Ok(plan) => match plan.need {
                SummaryNeedView::Compact(omitted) => result matches Ok(ContextBuild::Compact(p))
                    && p@ == plan,
                SummaryNeedView::Cached(summary) => match self.finished(
                    input.thread_id@,
                    input.thread_revision@,
                    plan,
                    Some(summary),
                ) {
                    Ok(output) => result matches Ok(ContextBuild::Ready(o)) && o@ == output,
                    Err(e) => result matches Err(error) && error@ == e,
                },
                SummaryNeedView::Nothing => match self.finished(
                    input.thread_id@,
                    input.thread_revision@,
                    plan,
                    None,
                ) {
                    Ok(output) => result matches Ok(ContextBuild::Ready(o)) && o@ == output,
                    Err(e) => result matches Err(error) && error@ == e,
                },
            },
        }
    }

    /// Builds the context for a request at the given time, as far as it goes
    /// without a new summary.
    pub fn build(&self, input: &ContextBuildInput<'_>, local: &str, utc: &str) -> (r: Result<
        ContextBuild,
        AgentError,
    >)
        ensures
            self.builds(*input, local@, utc@, r),
    {
        let plan = match self.plan(input, local, utc) {
            Ok(plan) => plan,
            Err(error) => {
                return Err(error);
            },
        };
        let summary = match &plan.need {
            SummaryNeed::Compact(_) => {
                return Ok(ContextBuild::Compact(plan));
            },
            SummaryNeed::Cached(summary) => Some(summary.clone()),
            SummaryNeed::Nothing => None,
        };
        match self.finish(input.thread_id, input.thread_revision, plan, summary) {
            Ok(output) => Ok(ContextBuild::Ready(output)),
            Err(error) => Err(error),
        }
    }

    /// Builds the context for a request now, as far as it goes without a new
    /// summary.
    pub fn build_now(&self, input: &ContextBuildInput<'_>) -> (r: Result<ContextBuild, AgentError>)
        ensures
            exists|local: Seq<char>, seconds: i64, nanos: u32|
                #[trigger] self.builds(*input, local, clock::utc_words(seconds, nanos), r),
    {
        let (local, utc) = now_in_words();
        self.build(input, local.as_str(), utc.as_str())
    }
}

/// What a cache holds, if there is one.
pub open spec fn cached_view(cache: Option<&ThreadContextCache>) -> Option<
    ThreadContextCacheView,
> {
    match cache {
        Some(c) => Some(c@),
        None => None,
    }
}

// ---------------------------------------------------------------------------
// Laws

/// The blocks of a conversation are the conversation, cut into pieces.
pub proof fn law_blocks_are_the_conversation(messages: Seq<ChatMessageView>)
    ensures
        blocks(messages).flatten() == messages,
        forall|i: int|
            0 <= i < blocks(messages).len() ==> (#[trigger] blocks(messages)[i]).len() > 0,
    decreases messages.len(),
{
    if messages.len() > 0 {
        lemma_leading_outputs(messages.skip(1));
        let n = block_len(messages) as int;
        let first = messages.take(n);
        let rest = blocks(messages.skip(n));
        law_blocks_are_the_conversation(messages.skip(n));
        let whole = blocks(messages);
        assert(whole.first() == first);
        assert(whole.drop_first() =~= rest);
        assert(messages =~= first + messages.skip(n));
        assert forall|i: int| 0 <= i < whole.len() implies (#[trigger] whole[i]).len() > 0 by {
            if i > 0 {
                assert(whole[i] == rest[i - 1]);
            }
        }
    }
}

/// A tool output is never cut off from the calls that it answers: where a block
/// starts with one, the block before it asked for no calls.
pub proof fn law_outputs_stay_with_calls(messages: Seq<ChatMessageView>, i: int)
    requires
        0 < i < blocks(messages).len(),
        blocks(messages)[i][0] is Tool,
    ensures
        !asks_for_calls(blocks(messages)[i - 1][0]),
    decreases messages.len(),
{
    lemma_leading_outputs(messages.skip(1));
    let n = block_len(messages) as int;
    let rest = messages.skip(n);
    law_blocks_are_the_conversation(rest);
    assert(blocks(messages)[i] == blocks(rest)[i - 1]);
    if i == 1 {
        lemma_leading_outputs(rest.skip(1));
        assert(blocks(rest)[0] == rest.take(block_len(rest) as int));
        assert(rest[0] == messages[n]);
        if asks_for_calls(messages[0]) {
            assert(messages.skip(1)[n - 1] == messages[n]);
        }
    } else {
        law_outputs_stay_with_calls(rest, i - 1);
        assert(blocks(messages)[i - 1] == blocks(rest)[i - 2]);
    }
}

/// Blocks are kept from a place within the conversation, and within the budget.
pub proof fn lemma_kept_from<E: TokenEstimator>(
    estimator: E,
    groups: Seq<Seq<ChatMessageView>>,
    n: nat,
    used: usize,
    budget: usize,
    history_budget: usize,
)
    requires
        n <= groups.len(),
        used <= budget,
        history_budget <= budget,
    ensures
        ({
            let (from, total) = kept_from(estimator, groups, n, used, budget, history_budget);
            from <= n && total <= budget && (from == n ==> total == used)
        }),
    decreases n,
{
    if n > 0 {
        let total = capped_tokens(used, estimator.tokens(groups[n - 1]));
        let limit = if n == groups.len() {
            budget
        } else {
            history_budget
        };
        if total <= limit {
            lemma_kept_from(estimator, groups, (n - 1) as nat, total, budget, history_budget);
            lemma_kept_below(estimator, groups, (n - 1) as nat, total, budget, history_budget);
        }
    }
}

proof fn lemma_kept_below<E: TokenEstimator>(
    estimator: E,
    groups: Seq<Seq<ChatMessageView>>,
    n: nat,
    used: usize,
    budget: usize,
    history_budget: usize,
)
    ensures
        kept_from(estimator, groups, n, used, budget, history_budget).0 <= n,
    decreases n,
{
    if n > 0 {
        lemma_kept_below(
            estimator,
            groups,
            (n - 1) as nat,
            capped_tokens(used, estimator.tokens(groups[n - 1])),
            budget,
            history_budget,
        );
    }
}

/// What is kept and what is left out make up the conversation, unless the newest
/// block had to be cut; and what is kept stays within the budget.
pub proof fn law_selection<E: TokenEstimator>(
    estimator: E,
    conversation: Seq<ChatMessageView>,
    budget: usize,
    history_budget: usize,
    policy: OversizedGroupPolicy,
)
    requires
        history_budget <= budget,
        selection(estimator, conversation, budget, history_budget, policy) is Ok,
    ensures
        ({
            let kept = selection(estimator, conversation, budget, history_budget, policy)->Ok_0;
            let groups = blocks(conversation);
            let newest_fits = groups.len() == 0 || estimator.tokens(groups.last()) <= budget;
            &&& newest_fits ==> kept.omitted + kept.messages == conversation && kept.tokens
                <= budget
            &&& !newest_fits ==> kept.omitted + groups.last() == conversation && (
            kept.messages.len() == 0 || kept.tokens <= budget)
        }),
{
    let groups = blocks(conversation);
    let n = groups.len() as int;
    law_blocks_are_the_conversation(conversation);
    lemma_kept_from(estimator, groups, groups.len(), 0, budget, history_budget);
    let from = kept_from(estimator, groups, groups.len(), 0, budget, history_budget).0 as int;
    if n > 0 && from == n {
        if estimator.tokens(groups.last()) <= budget {
            lemma_kept_below(
                estimator,
                groups,
                (n - 1) as nat,
                estimator.tokens(groups[n - 1]),
                budget,
                history_budget,
            );
        }
        assert(groups =~= groups.subrange(0, n - 1).push(groups.last()));
        groups.subrange(0, n - 1).lemma_flatten_push(groups.last());
    } else {
        assert(groups =~= groups.subrange(0, from) + groups.subrange(from, n));
        vstd::seq_lib::lemma_flatten_concat(groups.subrange(0, from), groups.subrange(from, n));
        if n > 0 && estimator.tokens(groups.last()) > budget {
            assert(from == n);
        }
    }
}

/// A context stays within the limit: the instructions, what is kept of the
/// conversation and the summary together take no more than is allowed.
pub proof fn law_context_within_limit<E: TokenEstimator, C>(
    builder: CompactingContextBuilder<E, C>,
    input: ContextBuildInput<'_>,
    local: Seq<char>,
    utc: Seq<char>,
    summary: Option<Seq<char>>,
)
    requires
        builder.planned(input, local, utc) matches Ok(plan) && builder.finished(
            input.thread_id@,
            input.thread_revision@,
            plan,
            summary,
        ) is Ok,
    ensures
        ({
            let plan = builder.planned(input, local, utc)->Ok_0;
            let summary_tokens = match summary {
                Some(content) => builder.estimator.tokens(
                    seq![ChatMessageView::System { content }],
                ),
                None => 0,
            };
            plan.selected.len() == 0 && summary is None || plan.system_tokens + capped_tokens(
                plan.selected_tokens,
                summary_tokens,
            ) <= builder.max_context_tokens
        }),
{
    let plan = builder.planned(input, local, utc)->Ok_0;
    law_selection(
        builder.estimator,
        input.projection@.conversation,
        plan.budget,
        (plan.budget - plan.reserved) as usize,
        builder.oversized_group_policy,
    );
}

/// Where nothing is left out, nothing is summed up and nothing is kept for later.
pub proof fn law_nothing_omitted_nothing_compacted<E: TokenEstimator, C>(
    builder: CompactingContextBuilder<E, C>,
    input: ContextBuildInput<'_>,
    local: Seq<char>,
    utc: Seq<char>,
)
    requires
        builder.planned(input, local, utc) matches Ok(plan) && plan.omitted.len() == 0,
    ensures
        ({
            let plan = builder.planned(input, local, utc)->Ok_0;
            &&& plan.need is Nothing
            &&& builder.finished(input.thread_id@, input.thread_revision@, plan, None) == Ok::<
                ContextBuildOutputView,
                AgentErrorView,
            >(
                ContextBuildOutputView {
                    messages: seq![plan.system] + plan.selected,
                    cache: None,
                },
            )
        }),
{
}

/// A summary that was stored is used again for the same state of the thread, and
/// what it covers is what would be left out.
pub proof fn law_stored_summary_is_reused<E: TokenEstimator, C>(
    builder: CompactingContextBuilder<E, C>,
    input: ContextBuildInput<'_>,
    plan: ContextPlanView,
    summary: Seq<char>,
)
    requires
        plan.omitted.len() > 0,
        plan.omitted.len() <= usize::MAX,
        builder.finished(input.thread_id@, input.thread_revision@, plan, Some(summary)) is Ok,
    ensures
        builder.need_for(
            builder.finished(
                input.thread_id@,
                input.thread_revision@,
                plan,
                Some(summary),
            )->Ok_0.cache,
            input.thread_revision@,
            plan.omitted,
            plan.reserved,
        ) == SummaryNeedView::Cached(summary),
{
}

} // verus!
