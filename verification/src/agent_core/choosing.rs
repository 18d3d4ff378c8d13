//! Which messages go into a request, and which of the others are summed up.
use crate::agent_core::context::{
    CompactingContextBuilder, ContextBuildInput, ContextCompactor, ContextPlanView,
};
use crate::error::{AgentError, AgentErrorView};
use crate::kernel::events::GoalStatus;
use crate::kernel::projection::{ChatMessage, ChatMessageView};
use crate::runtime::choosing::{at_most, lemma_kept_from_the_end, tokens_from};
use crate::runtime::context::{self, TokenEstimator};
use crate::text;
use crate::views;
use vstd::prelude::*;

verus! {

/// As many of the newest blocks are kept as fit beside the instructions, and no
/// block more would fit; the block before them is dropped, and those before that
/// are what can be summed up. Where the instructions, or the newest block with
/// them, do not fit, there is no request, and the error says what it would take.
pub proof fn law_newest_blocks_are_kept<E: TokenEstimator, C>(
    builder: CompactingContextBuilder<E, C>,
    input: ContextBuildInput<'_>,
    local: Seq<char>,
    utc: Seq<char>,
) -> (from: int)
    ensures
        ({
            let groups = context::blocks(input.projection@.conversation);
            let count = groups.len() as int;
            let r = builder.planned(input, local, utc);
            let exceeded = |estimated: int|
                r == Err::<ContextPlanView, AgentErrorView>(
                    AgentErrorView::ContextWindowExceeded {
                        estimated: estimated as usize,
                        limit: builder.max_context_tokens,
                    },
                );
            match r {
                Ok(plan) => {
                    let taken = builder.estimator.tokens(seq![plan.system]);
                    &&& taken + plan.budget == builder.max_context_tokens
                    &&& plan.budget > 0
                    &&& count == 0 || 0 <= from < count
                    &&& count == 0 ==> from == 0
                    &&& plan.selected == groups.skip(from).flatten()
                    &&& plan.selected_tokens == at_most(
                        tokens_from(builder.estimator, groups, from),
                    )
                    &&& plan.selected_tokens <= plan.budget
                    &&& from > 0 ==> at_most(tokens_from(builder.estimator, groups, from - 1))
                        > plan.budget
                    &&& from > 0 ==> plan.omitted == groups.take(from - 1).flatten()
                    &&& from == 0 ==> plan.omitted.len() == 0
                },
                Err(e) => exists|system: Seq<char>|
                    {
                        let taken = builder.estimator.tokens(
                            seq![ChatMessageView::System { content: system }],
                        );
                        #[trigger] instructs(input, local, utc, system) && if taken
                            >= builder.max_context_tokens {
                            exceeded(taken as int)
                        } else {
                            count > 0 && builder.estimator.tokens(groups.last())
                                > builder.max_context_tokens - taken && exceeded(
                                at_most(builder.estimator.tokens(groups.last()) + taken),
                            )
                        }
                    },
            }
        }),
{
    let groups = context::blocks(input.projection@.conversation);
    let count = groups.len() as int;
    let content = context::system_content(
        input.system_prompt@,
        context::opt_text(input.runtime_context),
        local,
        utc,
        input.projection@.goal,
    );
    let system = ChatMessageView::System { content };
    let taken = builder.estimator.tokens(seq![system]);
    assert(instructs(input, local, utc, content));
    if taken < builder.max_context_tokens {
        let budget = (builder.max_context_tokens - taken) as usize;
        lemma_kept_from_the_end(builder.estimator, groups, budget, budget);
        let from = context::kept_from(
            builder.estimator,
            groups,
            groups.len(),
            0,
            budget,
            budget,
        ).0 as int;
        assert(groups.subrange(from, count) =~= groups.skip(from));
        if from > 0 {
            assert(groups.subrange(0, from - 1) =~= groups.take(from - 1));
        } else {
            assert(groups.subrange(0, 0) =~= Seq::<Seq<ChatMessageView>>::empty());
        }
        if count > 0 {
            assert(tokens_from(builder.estimator, groups, count - 1) == builder.estimator.tokens(
                groups[count - 1],
            ) + tokens_from(builder.estimator, groups, count));
        }
        from
    } else {
        0
    }
}

/// Whether a text is the instructions for a request: the prompt, what the host adds,
/// the time and the goal, in this order.
pub open spec fn instructs(
    input: ContextBuildInput<'_>,
    local: Seq<char>,
    utc: Seq<char>,
    content: Seq<char>,
) -> bool {
    let host = match input.runtime_context {
        Some(words) => if text::trimmed(words@).len() > 0 {
            "\nCurrent turn runtime context. This host-supplied context applies only to this model request and is not durable thread state:\n"@
                + text::trimmed(words@)
        } else {
            Seq::empty()
        },
        None => Seq::empty(),
    };
    let time = "\nCurrent time context: local="@ + local + ", utc="@ + utc
        + ". Use this as the current date/time for time-sensitive answers."@;
    let goal = match input.projection@.goal {
        Some(goal) => "\nCurrent thread goal: objective="@ + goal.objective + ", status="@ + (
        match goal.status {
            GoalStatus::Active => "Active"@,
            GoalStatus::Complete => "Complete"@,
            GoalStatus::Blocked => "Blocked"@,
        }) + ", notes="@ + (match goal.notes {
            Some(notes) => notes,
            None => ""@,
        }),
        None => Seq::empty(),
    };
    content == input.system_prompt@ + host + time + goal
}

/// A request starts with the instructions and ends in what is kept of the
/// conversation; a summary stands between them where it fits, and is left out where
/// it does not.
pub proof fn law_request_is_put_together<E: TokenEstimator, C>(
    builder: CompactingContextBuilder<E, C>,
    input: ContextBuildInput<'_>,
    local: Seq<char>,
    utc: Seq<char>,
    summary: Option<ChatMessageView>,
)
    requires
        builder.planned(input, local, utc) is Ok,
    ensures
        ({
            let plan = builder.planned(input, local, utc)->Ok_0;
            let fits = match summary {
                Some(message) => at_most(
                    plan.selected_tokens + builder.estimator.tokens(seq![message]),
                ) <= plan.budget,
                None => false,
            };
            &&& plan.system matches ChatMessageView::System { content }
            &&& instructs(input, local, utc, content)
            &&& builder.assembled(plan, summary) == if fits {
                seq![plan.system, summary->0] + plan.selected
            } else {
                seq![plan.system] + plan.selected
            }
        }),
{
}

/// A summary is asked for exactly where something is left out and there is a way to
/// make one, of exactly what is left out; what it says goes into the request, and
/// what keeps it from being made is the error.
pub proof fn law_summary_is_of_what_is_left_out<E: TokenEstimator, C: ContextCompactor>(
    builder: CompactingContextBuilder<E, C>,
    input: ContextBuildInput<'_>,
    local: Seq<char>,
    utc: Seq<char>,
    result: Result<Vec<ChatMessage>, AgentError>,
)
    requires
        builder.builds(input, local, utc, result),
    ensures
        match builder.planned(input, local, utc) {
            Err(e) => result matches Err(error) && error@ == e,
            Ok(plan) => if builder.compactor is Some && plan.omitted.len() > 0 {
                exists|handed: Vec<ChatMessage>, reply: Result<Option<ChatMessage>, AgentError>|
                    {
                        &&& #[trigger] call_ensures(
                            C::compact,
                            (&builder.compactor->0, &handed),
                            reply,
                        )
                        &&& views::all(handed@) == plan.omitted
                        &&& match (reply, result) {
                            (Ok(summary), Ok(messages)) => views::all(messages@)
                                == builder.assembled(plan, views::opt(summary)),
                            (Err(e), Err(error)) => error == e,
                            _ => false,
                        }
                    }
            } else {
                result matches Ok(messages) && views::all(messages@) == seq![plan.system]
                    + plan.selected
            },
        },
{
}

} // verus!
