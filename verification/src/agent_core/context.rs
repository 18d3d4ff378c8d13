//! Which messages of a conversation a model gets to read, chosen in one go.
use crate::clock::{self, now_in_words};
use crate::error::{AgentError, AgentErrorView};
use crate::kernel::projection::{ChatMessage, ChatMessageView, ThreadProjection};
use crate::runtime::context::{
    self, flatten, system_message, tool_call_blocks, ApproximateTokenEstimator, TokenEstimator,
};
use crate::views;
use vstd::prelude::*;

verus! {

/// The messages chosen for a request, before there is a summary.
#[derive(Debug, PartialEq)]
pub struct ContextPlan {
    pub system: ChatMessage,
    /// What the conversation and its summary may take.
    pub budget: usize,
    pub selected: Vec<ChatMessage>,
    pub selected_tokens: usize,
    /// What a summary is made of.
    pub omitted: Vec<ChatMessage>,
}

/// What a `ContextPlan` holds.
#[verifier::ext_equal]
pub struct ContextPlanView {
    pub system: ChatMessageView,
    pub budget: usize,
    pub selected: Seq<ChatMessageView>,
    pub selected_tokens: usize,
    pub omitted: Seq<ChatMessageView>,
}

impl View for ContextPlan {
    type V = ContextPlanView;

    open spec fn view(&self) -> ContextPlanView {
        ContextPlanView {
            system: self.system@,
            budget: self.budget,
            selected: views::all(self.selected@),
            selected_tokens: self.selected_tokens,
            omitted: views::all(self.omitted@),
        }
    }
}

impl Clone for ContextPlan {
    fn clone(&self) -> (r: Self)
        ensures
            r@ == self@,
    {
        let r = ContextPlan {
            system: self.system.clone(),
            budget: self.budget,
            selected: self.selected.clone(),
            selected_tokens: self.selected_tokens,
            omitted: self.omitted.clone(),
        };
        assert(views::all(r.selected@) =~= views::all(self.selected@));
        assert(views::all(r.omitted@) =~= views::all(self.omitted@));
        r
    }
}

/// What a context is built from.
pub struct ContextBuildInput<'a> {
    pub projection: &'a ThreadProjection,
    pub system_prompt: &'a str,
    pub runtime_context: Option<&'a str>,
}

/// A way to sum up messages that are left out.
pub trait ContextCompactor {
    fn compact(&self, omitted: &Vec<ChatMessage>) -> Result<Option<ChatMessage>, AgentError>;
}

/// Chooses the newest messages that fit, and has older ones summed up. `E` counts
/// tokens and `C` makes summaries.
pub struct CompactingContextBuilder<E, C> {
    pub max_context_tokens: usize,
    pub estimator: E,
    pub compactor: Option<C>,
}

impl<C> Default for CompactingContextBuilder<ApproximateTokenEstimator, C> {
    fn default() -> (r: Self)
        ensures
            r.max_context_tokens == 32_000,
            r.compactor is None,
    {
        CompactingContextBuilder {
            max_context_tokens: 32_000,
            estimator: ApproximateTokenEstimator,
            compactor: None,
        }
    }
}

/// The conversation in blocks that are kept or left out as a whole.
pub fn message_groups(messages: &Vec<ChatMessage>) -> (r: Vec<Vec<ChatMessage>>)
    ensures
        context::nested(r@) == context::blocks(views::all(messages@)),
{
    tool_call_blocks(messages)
}

impl<E: TokenEstimator, C> CompactingContextBuilder<E, C> {
    /// The builder with a way to make summaries.
    pub fn with_compactor(self, compactor: C) -> (r: Self)
        ensures
            r == (CompactingContextBuilder { compactor: Some(compactor), ..self }),
    {
        CompactingContextBuilder { compactor: Some(compactor), ..self }
    }

    /// Which messages go into a request. Blocks are taken from the newest on until
    /// one does not fit. That one is dropped, and those before it are summed up;
    /// where not even the newest fits, there is no request.
    pub open spec fn planned(
        &self,
        input: ContextBuildInput<'_>,
        local: Seq<char>,
        utc: Seq<char>,
    ) -> Result<ContextPlanView, AgentErrorView> {
        let system = ChatMessageView::System {
            content: context::system_content(
                input.system_prompt@,
                context::opt_text(input.runtime_context),
                local,
                utc,
                input.projection@.goal,
            ),
        };
        let system_tokens = self.estimator.tokens(seq![system]);
        if system_tokens >= self.max_context_tokens {
            Err(
                AgentErrorView::ContextWindowExceeded {
                    estimated: system_tokens,
                    limit: self.max_context_tokens,
                },
            )
        } else {
            let budget = (self.max_context_tokens - system_tokens) as usize;
            let groups = context::blocks(input.projection@.conversation);
            let n = groups.len() as int;
            let (from, used) = context::kept_from(
                self.estimator,
                groups,
                groups.len(),
                0,
                budget,
                budget,
            );
            if n > 0 && from == n {
                Err(
                    AgentErrorView::ContextWindowExceeded {
                        estimated: context::capped_tokens(
                            self.estimator.tokens(groups.last()),
                            system_tokens,
                        ),
                        limit: self.max_context_tokens,
                    },
                )
            } else {
                Ok(
                    ContextPlanView {
                        system,
                        budget,
                        selected: groups.subrange(from as int, n).flatten(),
                        selected_tokens: used,
                        omitted: groups.subrange(
                            0,
                            if from > 0 {
                                from - 1
                            } else {
                                0
                            },
                        ).flatten(),
                    },
                )
            }
        }
    }

    /// The messages of a request. A summary that does not fit is left out.
    pub open spec fn assembled(
        &self,
        plan: ContextPlanView,
        summary: Option<ChatMessageView>,
    ) -> Seq<ChatMessageView> {
        match summary {
            Some(message) if context::capped_tokens(
                plan.selected_tokens,
                self.estimator.tokens(seq![message]),
            ) <= plan.budget => seq![plan.system, message] + plan.selected,
            _ => seq![plan.system] + plan.selected,
        }
    }

    /// Which messages go into a request at the given time.
    pub fn plan(&self, input: &ContextBuildInput<'_>, local: &str, utc: &str) -> (r: Result<
        ContextPlan,
        AgentError,
    >)
        ensures
            views::res(r) == self.planned(*input, local@, utc@),
    {
        let system = system_message(
            input.system_prompt,
            input.runtime_context,
            local,
            utc,
            &input.projection.goal,
        );
        let mut single: Vec<ChatMessage> = Vec::new();
        single.push(system.clone());
        assert(views::all(single@) =~= seq![system@]);
        let system_tokens = self.estimator.estimate(single.as_slice());
        if system_tokens >= self.max_context_tokens {
            return Err(
                AgentError::ContextWindowExceeded {
                    estimated: system_tokens,
                    limit: self.max_context_tokens,
                },
            );
        }
        let budget = self.max_context_tokens - system_tokens;
        let groups = message_groups(&input.projection.conversation);
        let count = groups.len();
        let ghost all_groups = context::nested(groups@);
        let mut n: usize = count;
        let mut used: usize = 0;
        let mut full = false;
        while n > 0 && !full
            invariant
                count == groups@.len(),
                n <= count,
                all_groups == context::nested(groups@),
                context::kept_from(
                    self.estimator,
                    all_groups,
                    all_groups.len(),
                    0,
                    budget,
                    budget,
                ) == if full {
                    (n as nat, used)
                } else {
                    context::kept_from(
                        self.estimator,
                        all_groups,
                        n as nat,
                        used,
                        budget,
                        budget,
                    )
                },
            decreases
                    n + (if full {
                        0int
                    } else {
                        1int
                    }),
        {
            let group_tokens = self.estimator.estimate(groups[n - 1].as_slice());
            assert(all_groups[n - 1] == views::all(groups@[n - 1]@));
            let total = used.saturating_add(group_tokens);
            if total > budget {
                full = true;
            } else {
                n = n - 1;
                used = total;
            }
        }
        if count > 0 && n == count {
            assert(all_groups.last() == views::all(groups@[count - 1]@));
            let newest = self.estimator.estimate(groups[count - 1].as_slice());
            return Err(
                AgentError::ContextWindowExceeded {
                    estimated: newest.saturating_add(system_tokens),
                    limit: self.max_context_tokens,
                },
            );
        }
        let omitted_end: usize = if n > 0 {
            n - 1
        } else {
            0
        };
        Ok(
            ContextPlan {
                system,
                budget,
                selected: flatten(&groups, n, count),
                selected_tokens: used,
                omitted: flatten(&groups, 0, omitted_end),
            },
        )
    }

    /// The messages of a request.
    pub fn assemble(&self, plan: ContextPlan, summary: Option<ChatMessage>) -> (r: Vec<ChatMessage>)
        ensures
            views::all(r@) == self.assembled(plan@, views::opt(summary)),
    {
        let mut selected = plan.selected;
        let mut messages: Vec<ChatMessage> = Vec::new();
        messages.push(plan.system);
        if let Some(message) = summary {
            let mut single: Vec<ChatMessage> = Vec::new();
            single.push(message.clone());
            assert(views::all(single@) =~= seq![message@]);
            let summary_tokens = self.estimator.estimate(single.as_slice());
            if plan.selected_tokens.saturating_add(summary_tokens) <= plan.budget {
                messages.push(message);
            }
        }
        messages.append(&mut selected);
        assert(views::all(messages@) =~= self.assembled(plan@, views::opt(summary)));
        messages
    }
}

impl<E: TokenEstimator, C: ContextCompactor> CompactingContextBuilder<E, C> {
    /// Whether a summary is asked for.
    pub open spec fn compacts(&self, plan: ContextPlanView) -> bool {
        self.compactor is Some && plan.omitted.len() > 0
    }

    /// What comes of a context at the given time, whatever the compactor says.
    pub open spec fn builds(
        &self,
        input: ContextBuildInput<'_>,
        local: Seq<char>,
        utc: Seq<char>,
        result: Result<Vec<ChatMessage>, AgentError>,
    ) -> bool {
        match self.planned(input, local, utc) {
            Err(e) => result matches Err(error) && error@ == e,
            Ok(plan) => if self.compacts(plan) {
                exists|handed: Vec<ChatMessage>, reply: Result<Option<ChatMessage>, AgentError>|
                    {
                        &&& #[trigger] call_ensures(
                            C::compact,
                            (&self.compactor->0, &handed),
                            reply,
                        )
                        &&& views::all(handed@) == plan.omitted
                        &&& match reply {
                            Ok(summary) => result matches Ok(messages) && views::all(messages@)
                                == self.assembled(plan, views::opt(summary)),
                            Err(e) => result matches Err(error) && error == e,
                        }
                    }
            } else {
                result matches Ok(messages) && views::all(messages@) == self.assembled(plan, None)
            },
        }
    }

    /// Builds the messages for a request at the given time.
    pub fn build(&self, input: &ContextBuildInput<'_>, local: &str, utc: &str) -> (r: Result<
        Vec<ChatMessage>,
        AgentError,
    >)
        ensures
            self.builds(*input, local@, utc@, r),
    {
        let plan = match self.plan(input, local, utc) {
            Ok(plan) => plan,
            Err(error) => {
                return Err(error);
            },
        };
        let summary = match &self.compactor {
            Some(compactor) => if plan.omitted.len() > 0 {
                match compactor.compact(&plan.omitted) {
                    Ok(summary) => summary,
                    Err(error) => {
                        return Err(error);
                    },
                }
            } else {
                None
            },
            None => None,
        };
        Ok(self.assemble(plan, summary))
    }

    /// Builds the messages for a request now.
    pub fn build_now(&self, input: &ContextBuildInput<'_>) -> (r: Result<
        Vec<ChatMessage>,
        AgentError,
    >)
        ensures
            exists|local: Seq<char>, seconds: i64, nanos: u32|
                #[trigger] self.builds(*input, local, clock::utc_words(seconds, nanos), r),
    {
        let (local, utc) = now_in_words();
        self.build(input, local.as_str(), utc.as_str())
    }
}

// ---------------------------------------------------------------------------
// Laws

/// What is kept is the end of the conversation, and stays within the budget.
pub proof fn law_keeps_the_newest<E: TokenEstimator, C>(
    builder: CompactingContextBuilder<E, C>,
    input: ContextBuildInput<'_>,
    local: Seq<char>,
    utc: Seq<char>,
)
    requires
        builder.planned(input, local, utc) is Ok,
    ensures
        ({
            let plan = builder.planned(input, local, utc)->Ok_0;
            &&& plan.selected.is_suffix_of(input.projection@.conversation)
            &&& plan.omitted.is_prefix_of(input.projection@.conversation)
            &&& plan.selected_tokens <= plan.budget <= builder.max_context_tokens
            &&& input.projection@.conversation.len() > 0 ==> plan.selected.len() > 0
        }),
{
    let plan = builder.planned(input, local, utc)->Ok_0;
    let conversation = input.projection@.conversation;
    let groups = context::blocks(conversation);
    let n = groups.len() as int;
    let (from, used) = context::kept_from(
        builder.estimator,
        groups,
        groups.len(),
        0,
        plan.budget,
        plan.budget,
    );
    context::law_blocks_are_the_conversation(conversation);
    context::lemma_kept_from(builder.estimator, groups, groups.len(), 0, plan.budget, plan.budget);
    let from = from as int;
    let end = if from > 0 {
        from - 1
    } else {
        0
    };
    assert(groups =~= groups.subrange(0, from) + groups.subrange(from, n));
    vstd::seq_lib::lemma_flatten_concat(groups.subrange(0, from), groups.subrange(from, n));
    assert(groups =~= groups.subrange(0, end) + groups.subrange(end, n));
    vstd::seq_lib::lemma_flatten_concat(groups.subrange(0, end), groups.subrange(end, n));
    let head = groups.subrange(0, from).flatten();
    assert(conversation == head + plan.selected);
    assert(conversation.subrange(
        conversation.len() - plan.selected.len(),
        conversation.len() as int,
    ) =~= plan.selected);
    assert(conversation.take(plan.omitted.len() as int) =~= plan.omitted);
    if conversation.len() > 0 {
        if n == 0 {
            assert(groups =~= Seq::empty());
        }
        let tail = groups.subrange(from, n);
        assert(tail.first() == groups[from]);
        assert(tail.flatten() == tail.first() + tail.drop_first().flatten());
    }
}

} // verus!
