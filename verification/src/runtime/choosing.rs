//! Which messages go into a request, which are left out, and what becomes of those.
use crate::error::AgentErrorView;
use crate::json::Json;
use crate::kernel::events::GoalStatus;
use crate::kernel::projection::ChatMessageView;
use crate::runtime::context::{
    self, ApproximateTokenEstimator, CompactingContextBuilder, ContextBuild, ContextBuildInput,
    ContextBuildOutputView, ContextPlanView, OversizedGroupPolicy, Selection, SummaryNeedView,
    TokenEstimator,
};
use crate::runtime::store::ThreadContextCacheView;
use crate::text;
use vstd::prelude::*;

verus! {

// ---------------------------------------------------------------------------
// Summaries

/// What an earlier summary covers, if it was made by the same rules and covers no
/// more than is left out now.
pub open spec fn usable(
    cache: Option<ThreadContextCacheView>,
    policy_version: Seq<char>,
    omitted: nat,
) -> bool {
    cache matches Some(c) && c.policy_version == policy_version && c.covered_message_count
        <= omitted
}

/// Whatever is left out is either covered by the earlier summary, which is handed
/// on, or handed over to be summed up, and nothing is both: the messages that the
/// summary covers and those handed over are, in this order, those left out. Without
/// an earlier summary by the same rules, all that is left out is handed over. The
/// new summary may take what is kept free for it.
pub proof fn law_every_omitted_message_is_covered<E: TokenEstimator, C>(
    builder: CompactingContextBuilder<E, C>,
    input: ContextBuildInput<'_>,
    local: Seq<char>,
    utc: Seq<char>,
)
    requires
        builder.planned(input, local, utc) matches Ok(plan) && plan.need is Compact,
    ensures
        ({
            let plan = builder.planned(input, local, utc)->Ok_0;
            let work = plan.need->Compact_0;
            let cache = context::cached_view(input.cached_context);
            &&& builder.compactor is Some
            &&& plan.omitted.len() > 0
            &&& usable(cache, builder.policy_version@, plan.omitted.len()) ==> {
                &&& work.previous_summary == Some(cache->0.summary)
                &&& work.messages.len() == plan.omitted.len() - cache->0.covered_message_count
                &&& plan.omitted.take(cache->0.covered_message_count as int) + work.messages
                    == plan.omitted
            }
            &&& work.previous_summary is Some ==> usable(
                cache,
                builder.policy_version@,
                plan.omitted.len(),
            )
            &&& !(cache matches Some(c) && c.policy_version == builder.policy_version@)
                ==> work.previous_summary is None && work.messages == plan.omitted
            &&& cache matches Some(c) ==> c.policy_version == builder.policy_version@
                && c.covered_message_count > plan.omitted.len() ==> work.previous_summary is None
                && work.messages.len() == 0
            &&& work.max_summary_tokens == plan.reserved
        }),
{
    let plan = builder.planned(input, local, utc)->Ok_0;
    if let Some(c) = context::cached_view(input.cached_context) {
        if c.covered_message_count <= plan.omitted.len() {
            let n = c.covered_message_count as int;
            assert(plan.omitted.take(n) + plan.omitted.skip(n) =~= plan.omitted);
        }
    }
}

/// An earlier summary is used as it is exactly where something is left out and the
/// summary was made of the same state of the thread, by the same rules, and covers
/// as many messages as are left out. Where something else is left out, it is summed
/// up if there is a way to, and else dropped.
pub proof fn law_where_a_summary_comes_from<E: TokenEstimator, C>(
    builder: CompactingContextBuilder<E, C>,
    input: ContextBuildInput<'_>,
    local: Seq<char>,
    utc: Seq<char>,
)
    requires
        builder.planned(input, local, utc) is Ok,
    ensures
        ({
            let plan = builder.planned(input, local, utc)->Ok_0;
            let cache = context::cached_view(input.cached_context);
            let current = match cache {
                Some(c) => c.source_revision == input.thread_revision@ && c.policy_version
                    == builder.policy_version@ && c.covered_message_count == plan.omitted.len(),
                None => false,
            };
            if plan.omitted.len() == 0 {
                plan.need is Nothing
            } else if current {
                plan.need == SummaryNeedView::Cached(cache->0.summary)
            } else if builder.compactor is Some {
                plan.need is Compact
            } else {
                plan.need is Nothing
            }
        }),
{
}

/// What is kept free for a summary: nothing where none can be made, and else what
/// the settings say, as far as there is room beside the instructions.
pub proof fn law_room_for_a_summary<E: TokenEstimator, C>(
    builder: CompactingContextBuilder<E, C>,
    input: ContextBuildInput<'_>,
    local: Seq<char>,
    utc: Seq<char>,
)
    ensures
        match builder.planned(input, local, utc) {
            Ok(plan) => {
                &&& plan.system_tokens == builder.estimator.tokens(seq![plan.system])
                &&& plan.system_tokens + plan.budget == builder.max_context_tokens
                &&& plan.budget > 0
                &&& builder.compactor is None ==> plan.reserved == 0
                &&& builder.compactor is Some && builder.summary_budget_tokens <= plan.budget
                    ==> plan.reserved == builder.summary_budget_tokens
                &&& builder.compactor is Some && builder.summary_budget_tokens > plan.budget
                    ==> plan.reserved == plan.budget
            },
            Err(e) => e is ContextWindowExceeded,
        },
{
}

/// The instructions are what the request starts with: the prompt, what the host
/// adds, the time and the goal, in this order.
pub proof fn law_instructions<E: TokenEstimator, C>(
    builder: CompactingContextBuilder<E, C>,
    input: ContextBuildInput<'_>,
    local: Seq<char>,
    utc: Seq<char>,
)
    requires
        builder.planned(input, local, utc) is Ok,
    ensures
        ({
            let plan = builder.planned(input, local, utc)->Ok_0;
            let host = match input.runtime_context {
                Some(words) => if text::trimmed(words@).len() > 0 {
                    "\nCurrent turn runtime context. This host-supplied context applies only to this model request and is not durable thread state:\n"@
                        + text::trimmed(words@)
                } else {
                    Seq::empty()
                },
                None => Seq::empty(),
            };
            let time = "\nCurrent time context: local="@ + local + ", utc="@ + utc
                + ". Use this as the current date/time for time-sensitive answers."@;
            let goal = match input.projection@.goal {
                Some(goal) => "\nCurrent thread goal: objective="@ + goal.objective + ", status="@
                    + (match goal.status {
                    GoalStatus::Active => "Active"@,
                    GoalStatus::Complete => "Complete"@,
                    GoalStatus::Blocked => "Blocked"@,
                }) + ", notes="@ + (match goal.notes {
                    Some(notes) => notes,
                    None => ""@,
                }),
                None => Seq::empty(),
            };
            plan.system == (ChatMessageView::System {
                content: input.system_prompt@ + host + time + goal,
            })
        }),
{
}

// ---------------------------------------------------------------------------
// Choosing

/// A block is a single message, or a message that asks for calls and the tool
/// outputs right after it, all of them.
pub proof fn law_blocks_are_calls_with_outputs(messages: Seq<ChatMessageView>, i: int)
    requires
        0 <= i < context::blocks(messages).len(),
    ensures
        ({
            let block = context::blocks(messages)[i];
            &&& block.len() > 0
            &&& block.len() > 1 ==> {
                &&& block[0] matches ChatMessageView::Assistant { content, tool_calls }
                &&& tool_calls.len() > 0
                &&& forall|k: int| 1 <= k < block.len() ==> #[trigger] block[k] is Tool
            }
        }),
    decreases messages.len(),
{
    context::law_blocks_are_the_conversation(messages);
    context::lemma_leading_outputs(messages.skip(1));
    let n = context::block_len(messages) as int;
    let rest = messages.skip(n);
    if i > 0 {
        assert(context::blocks(messages)[i] == context::blocks(rest)[i - 1]);
        law_blocks_are_calls_with_outputs(rest, i - 1);
    } else {
        let block = context::blocks(messages)[0];
        assert(block == messages.take(n));
        assert forall|k: int| 1 <= k < block.len() implies #[trigger] block[k] is Tool by {
            assert(messages.skip(1)[k - 1] == messages[k]);
        }
    }
}

/// The tokens of the blocks from a place on.
pub open spec fn tokens_from<E: TokenEstimator>(
    estimator: E,
    groups: Seq<Seq<ChatMessageView>>,
    from: int,
) -> int
    decreases groups.len() - from,
{
    if 0 <= from < groups.len() {
        estimator.tokens(groups[from]) + tokens_from(estimator, groups, from + 1)
    } else {
        0
    }
}

/// A number, or the largest one where it is beyond that.
pub open spec fn at_most(n: int) -> int {
    if n > usize::MAX {
        usize::MAX as int
    } else {
        n
    }
}

/// What the blocks from a place on may take: the newest one alone has the whole
/// budget, several have what is not kept free.
pub open spec fn allowance(budget: usize, history_budget: usize, count: int, from: int) -> int {
    if from >= count - 1 {
        budget as int
    } else {
        history_budget as int
    }
}

proof fn lemma_kept<E: TokenEstimator>(
    estimator: E,
    groups: Seq<Seq<ChatMessageView>>,
    n: nat,
    used: usize,
    budget: usize,
    history_budget: usize,
)
    requires
        n <= groups.len(),
        used == at_most(tokens_from(estimator, groups, n as int)),
        n < groups.len() ==> used <= allowance(
            budget,
            history_budget,
            groups.len() as int,
            n as int,
        ),
    ensures
        ({
            let (from, total) = context::kept_from(
                estimator,
                groups,
                n,
                used,
                budget,
                history_budget,
            );
            let count = groups.len() as int;
            &&& from <= n
            &&& total == at_most(tokens_from(estimator, groups, from as int))
            &&& from < count ==> total <= allowance(budget, history_budget, count, from as int)
            &&& from > 0 ==> at_most(tokens_from(estimator, groups, from - 1)) > allowance(
                budget,
                history_budget,
                count,
                from - 1,
            )
        }),
    decreases n,
{
    if n > 0 {
        let total = context::capped_tokens(used, estimator.tokens(groups[n - 1]));
        lemma_tokens_nonnegative(estimator, groups, n as int);
        assert(tokens_from(estimator, groups, n - 1) == estimator.tokens(groups[n - 1])
            + tokens_from(estimator, groups, n as int));
        let limit = if n == groups.len() {
            budget
        } else {
            history_budget
        };
        if total <= limit {
            lemma_kept(estimator, groups, (n - 1) as nat, total, budget, history_budget);
        }
    }
}

/// Blocks are kept from the end, as many as fit.
pub proof fn lemma_kept_from_the_end<E: TokenEstimator>(
    estimator: E,
    groups: Seq<Seq<ChatMessageView>>,
    budget: usize,
    history_budget: usize,
)
    ensures
        ({
            let (from, total) = context::kept_from(
                estimator,
                groups,
                groups.len(),
                0,
                budget,
                history_budget,
            );
            let count = groups.len() as int;
            &&& from <= groups.len()
            &&& total == at_most(tokens_from(estimator, groups, from as int))
            &&& from < count ==> total <= allowance(budget, history_budget, count, from as int)
            &&& from > 0 ==> at_most(tokens_from(estimator, groups, from - 1)) > allowance(
                budget,
                history_budget,
                count,
                from - 1,
            )
        }),
{
    lemma_kept(estimator, groups, groups.len(), 0, budget, history_budget);
}

proof fn lemma_tokens_nonnegative<E: TokenEstimator>(
    estimator: E,
    groups: Seq<Seq<ChatMessageView>>,
    from: int,
)
    ensures
        tokens_from(estimator, groups, from) >= 0,
    decreases groups.len() - from,
{
    if 0 <= from < groups.len() {
        lemma_tokens_nonnegative(estimator, groups, from + 1);
    }
}

/// As many of the newest blocks are kept as fit, and no block more would fit: they
/// are kept in their order, their tokens are counted, and all before them is left
/// out. Where not even the newest fits, all before it is left out and the newest is
/// dealt with by itself.
pub proof fn law_newest_blocks_are_kept<E: TokenEstimator>(
    estimator: E,
    conversation: Seq<ChatMessageView>,
    budget: usize,
    history_budget: usize,
    policy: OversizedGroupPolicy,
) -> (from: int)
    ensures
        ({
            let groups = context::blocks(conversation);
            let count = groups.len() as int;
            let r = context::selection(estimator, conversation, budget, history_budget, policy);
            &&& 0 <= from <= count
            &&& from > 0 ==> at_most(tokens_from(estimator, groups, from - 1)) > allowance(
                budget,
                history_budget,
                count,
                from - 1,
            )
            &&& from < count ==> at_most(tokens_from(estimator, groups, from)) <= allowance(
                budget,
                history_budget,
                count,
                from,
            )
            &&& count == 0 || from < count ==> r == Ok::<Selection, AgentErrorView>(
                Selection {
                    messages: groups.skip(from).flatten(),
                    tokens: at_most(tokens_from(estimator, groups, from)) as usize,
                    omitted: groups.take(from).flatten(),
                },
            )
            &&& count > 0 && from == count ==> match context::fitted(
                estimator,
                groups.last(),
                budget,
                policy,
            ) {
                Ok(messages) => r == Ok::<Selection, AgentErrorView>(
                    Selection {
                        messages,
                        tokens: estimator.tokens(messages),
                        omitted: groups.drop_last().flatten(),
                    },
                ),
                Err(e) => r == Err::<Selection, AgentErrorView>(e),
            }
        }),
{
    let groups = context::blocks(conversation);
    let count = groups.len() as int;
    lemma_kept(estimator, groups, groups.len(), 0, budget, history_budget);
    let from = context::kept_from(
        estimator,
        groups,
        groups.len(),
        0,
        budget,
        history_budget,
    ).0 as int;
    assert(groups.subrange(from, count) =~= groups.skip(from));
    assert(groups.subrange(0, from) =~= groups.take(from));
    if count > 0 {
        assert(groups.subrange(0, count - 1) =~= groups.drop_last());
    }
    from
}

/// The note that stands for messages that were dropped.
pub open spec fn dropped_note() -> Seq<ChatMessageView> {
    seq![
        ChatMessageView::System {
            content: "[conversation block omitted because it exceeded the context budget]"@,
        },
    ]
}

/// What becomes of a newest block that does not fit is within the budget: it is
/// refused with its tokens and the budget; or it is kept without its tool outputs,
/// which a note stands for under the same call and name while all other messages
/// stay; or one note stands for it all; or nothing, where not even the note fits.
pub proof fn law_oversized_block<E: TokenEstimator>(
    estimator: E,
    group: Seq<ChatMessageView>,
    budget: usize,
    policy: OversizedGroupPolicy,
)
    ensures
        ({
            let r = context::fitted(estimator, group, budget, policy);
            let noted = if estimator.tokens(dropped_note()) <= budget {
                dropped_note()
            } else {
                Seq::empty()
            };
            match policy {
                OversizedGroupPolicy::Fail => r == Err::<Seq<ChatMessageView>, AgentErrorView>(
                    AgentErrorView::ContextWindowExceeded {
                        estimated: estimator.tokens(group),
                        limit: budget,
                    },
                ),
                OversizedGroupPolicy::DropWithMarker => r == Ok::<
                    Seq<ChatMessageView>,
                    AgentErrorView,
                >(noted),
                OversizedGroupPolicy::ElideToolOutputs => exists|less: Seq<ChatMessageView>|
                    #[trigger] without_outputs(group, less) && r == Ok::<
                        Seq<ChatMessageView>,
                        AgentErrorView,
                    >(
                        if estimator.tokens(less) <= budget {
                            less
                        } else {
                            noted
                        },
                    ),
            }
        }),
{
    assert(seq![context::truncation_marker()] =~= dropped_note());
    assert(without_outputs(group, context::all_elided(group)));
}

/// Whether messages are the given ones with a note in place of each tool output.
pub open spec fn without_outputs(
    group: Seq<ChatMessageView>,
    less: Seq<ChatMessageView>,
) -> bool {
    &&& less.len() == group.len()
    &&& forall|k: int|
        0 <= k < group.len() ==> match #[trigger] group[k] {
            ChatMessageView::Tool { tool_call_id, name, content } => less[k] == (
            ChatMessageView::Tool {
                tool_call_id,
                name,
                content: Json::Text(
                    "[tool output elided because it exceeded the context budget]"@,
                ),
            }),
            _ => less[k] == group[k],
        }
}

// ---------------------------------------------------------------------------
// Building

/// A request holds the instructions, the summary where there is one, and what is
/// kept of the conversation, in this order; a summary is kept for later with the
/// state that it was made of, the rules that it was made by and the number of
/// messages that it covers. A summary that takes more than is kept free for it, or
/// that does not fit beside what is kept, is refused.
pub proof fn law_request_is_put_together<E: TokenEstimator, C>(
    builder: CompactingContextBuilder<E, C>,
    thread_id: Seq<char>,
    revision: Seq<u8>,
    plan: ContextPlanView,
    summary: Option<Seq<char>>,
)
    requires
        plan.omitted.len() <= usize::MAX,
    ensures
        ({
            let r = builder.finished(thread_id, revision, plan, summary);
            let taken = match summary {
                Some(content) => builder.estimator.tokens(
                    seq![ChatMessageView::System { content }],
                ),
                None => 0,
            };
            match summary {
                None => {
                    &&& r matches Ok(made)
                    &&& made.messages == seq![plan.system] + plan.selected
                    &&& made.cache is None
                },
                Some(content) => if taken > plan.reserved {
                    r == Err::<ContextBuildOutputView, AgentErrorView>(
                        AgentErrorView::ContextCompactorContractViolation {
                            estimated: taken,
                            limit: plan.reserved,
                        },
                    )
                } else if at_most(plan.selected_tokens + taken) > plan.budget {
                    r == Err::<ContextBuildOutputView, AgentErrorView>(
                        AgentErrorView::ContextWindowExceeded {
                            estimated: at_most(
                                plan.system_tokens + plan.selected_tokens + taken,
                            ) as usize,
                            limit: builder.max_context_tokens,
                        },
                    )
                } else {
                    &&& r matches Ok(made)
                    &&& made.messages == seq![
                        plan.system,
                        ChatMessageView::System { content },
                    ] + plan.selected
                    &&& made.cache matches Some(cache)
                    &&& cache.thread_id == thread_id
                    &&& cache.source_revision == revision
                    &&& cache.policy_version == builder.policy_version@
                    &&& cache.covered_message_count == plan.omitted.len()
                    &&& cache.summary == content
                },
            }
        }),
{
}

/// A context that is built without a new summary holds the earlier summary where
/// that is current, and none where nothing is to be summed up; where a summary must
/// be made first, the plan says of what.
pub proof fn law_context_is_built_as_planned<E: TokenEstimator, C>(
    builder: CompactingContextBuilder<E, C>,
    input: ContextBuildInput<'_>,
    local: Seq<char>,
    utc: Seq<char>,
    result: Result<ContextBuild, crate::error::AgentError>,
)
    requires
        builder.builds(input, local, utc, result),
    ensures
        match result {
            Ok(ContextBuild::Ready(output)) => {
                &&& builder.planned(input, local, utc) matches Ok(plan)
                &&& match plan.need {
                    SummaryNeedView::Nothing => output@.messages == seq![plan.system]
                        + plan.selected && output@.cache is None,
                    SummaryNeedView::Cached(content) => output@.messages == seq![
                        plan.system,
                        ChatMessageView::System { content },
                    ] + plan.selected,
                    SummaryNeedView::Compact(work) => false,
                }
            },
            Ok(ContextBuild::Compact(plan)) => {
                &&& builder.planned(input, local, utc) == Ok::<ContextPlanView, AgentErrorView>(
                    plan@,
                )
                &&& plan@.need is Compact
            },
            Err(e) => {
                ||| builder.planned(input, local, utc) == Err::<ContextPlanView, AgentErrorView>(
                    e@,
                )
                ||| {
                    &&& builder.planned(input, local, utc) matches Ok(plan)
                    &&& plan.need matches SummaryNeedView::Cached(content)
                    &&& builder.finished(
                        input.thread_id@,
                        input.thread_revision@,
                        plan,
                        Some(content),
                    ) == Err::<ContextBuildOutputView, AgentErrorView>(e@)
                }
            },
        },
{
}

/// The conversation that is planned with is the one that the thread adds up to, and
/// the plan keeps and leaves out what is chosen from it.
pub proof fn law_plan_is_of_the_conversation<E: TokenEstimator, C>(
    builder: CompactingContextBuilder<E, C>,
    input: ContextBuildInput<'_>,
    local: Seq<char>,
    utc: Seq<char>,
)
    requires
        builder.planned(input, local, utc) is Ok,
    ensures
        ({
            let plan = builder.planned(input, local, utc)->Ok_0;
            let conversation = input.projection@.conversation;
            let groups = context::blocks(conversation);
            let newest_fits = groups.len() == 0 || builder.estimator.tokens(groups.last())
                <= plan.budget;
            &&& newest_fits ==> plan.omitted + plan.selected == conversation
            &&& !newest_fits ==> plan.omitted + groups.last() == conversation
            &&& newest_fits ==> plan.selected_tokens <= plan.budget
            &&& exists|from: int|
                0 <= from <= groups.len() && (newest_fits && from > 0 ==> at_most(
                    #[trigger] tokens_from(builder.estimator, groups, from - 1),
                ) > allowance(
                    plan.budget,
                    (plan.budget - plan.reserved) as usize,
                    groups.len() as int,
                    from - 1,
                )) && (newest_fits ==> plan.omitted == groups.take(from).flatten())
        }),
{
    let plan = builder.planned(input, local, utc)->Ok_0;
    let conversation = input.projection@.conversation;
    let groups = context::blocks(conversation);
    let history = (plan.budget - plan.reserved) as usize;
    context::law_selection(
        builder.estimator,
        conversation,
        plan.budget,
        history,
        builder.oversized_group_policy,
    );
    let from = law_newest_blocks_are_kept(
        builder.estimator,
        conversation,
        plan.budget,
        history,
        builder.oversized_group_policy,
    );
    if groups.len() > 0 {
        let last = groups.len() - 1;
        assert(tokens_from(builder.estimator, groups, last) == builder.estimator.tokens(
            groups[last],
        ) + tokens_from(builder.estimator, groups, last + 1));
    }
    let seen = tokens_from(builder.estimator, groups, from - 1);
}

// ---------------------------------------------------------------------------
// Counting

/// Four bytes of the messages' JSON text count as one token, and what is left over
/// as one more.
pub proof fn law_four_bytes_are_a_token(messages: Seq<ChatMessageView>)
    requires
        vstd::utf8::encode_utf8(
            crate::json::json_text(context::messages_json(messages)),
        ).len() <= usize::MAX,
    ensures
        ({
            let bytes = vstd::utf8::encode_utf8(
                crate::json::json_text(context::messages_json(messages)),
            ).len();
            let tokens = ApproximateTokenEstimator.tokens(messages);
            4 * tokens - 3 <= bytes + 0 <= 4 * tokens || bytes == 0 && tokens == 0
        }),
{
}

/// The JSON of messages is a list with one object for each, in their order, that
/// holds who speaks and all that the message holds.
pub proof fn law_messages_as_json(messages: Seq<ChatMessageView>, i: int)
    requires
        0 <= i < messages.len(),
    ensures
        context::messages_json(messages) matches Json::List(items) && items.len() == messages.len()
            && holds(items[i], messages[i]),
{
    reveal_strlit("role");
    reveal_strlit("content");
    reveal_strlit("tool_calls");
    reveal_strlit("tool_call_id");
    reveal_strlit("name");
    reveal_strlit("call_id");
    reveal_strlit("arguments");
    assert("role"@.len() == 4 && "content"@.len() == 7 && "tool_calls"@.len() == 10
        && "tool_call_id"@.len() == 12 && "name"@.len() == 4 && "call_id"@.len() == 7
        && "arguments"@.len() == 9);
    assert("role"@[0] != "name"@[0]);
    assert("content"@[1] != "call_id"@[1]);
}

/// Whether a JSON value is the object of a message.
pub open spec fn holds(value: Json, message: ChatMessageView) -> bool {
    &&& value matches Json::Fields(fields)
    &&& match message {
        ChatMessageView::System { content } => {
            &&& fields.dom() == set!["role"@, "content"@]
            &&& fields["role"@] == Json::Text("system"@)
            &&& fields["content"@] == Json::Text(content)
        },
        ChatMessageView::User { content } => {
            &&& fields.dom() == set!["role"@, "content"@]
            &&& fields["role"@] == Json::Text("user"@)
            &&& fields["content"@] == Json::Text(content)
        },
        ChatMessageView::Assistant { content, tool_calls } => {
            &&& fields.dom() == set!["role"@, "content"@, "tool_calls"@]
            &&& fields["role"@] == Json::Text("assistant"@)
            &&& content matches Some(text) ==> fields["content"@] == Json::Text(text)
            &&& content is None ==> fields["content"@] is Null
            &&& fields["tool_calls"@] matches Json::List(calls)
            &&& calls.len() == tool_calls.len()
            &&& forall|c: int|
                0 <= c < calls.len() ==> {
                    &&& #[trigger] calls[c] matches Json::Fields(call)
                    &&& call.dom() == set!["call_id"@, "name"@, "arguments"@]
                    &&& call["call_id"@] == Json::Text(tool_calls[c].call_id)
                    &&& call["name"@] == Json::Text(tool_calls[c].name)
                    &&& call["arguments"@] == tool_calls[c].arguments
                }
        },
        ChatMessageView::Tool { tool_call_id, name, content } => {
            &&& fields.dom() == set!["role"@, "tool_call_id"@, "name"@, "content"@]
            &&& fields["role"@] == Json::Text("tool"@)
            &&& fields["tool_call_id"@] == Json::Text(tool_call_id)
            &&& fields["name"@] == Json::Text(name)
            &&& fields["content"@] == content
        },
    }
}

} // verus!
