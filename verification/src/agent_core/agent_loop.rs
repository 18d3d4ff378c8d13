//! The settings of an agent, and what it hands to hooks.
use crate::json::{self, copy_of, Json};
use crate::kernel::projection::{ThreadProjection, ThreadProjectionView};
use crate::runtime::agent_loop;
use crate::views;
use serde_json::Value;
use vstd::prelude::*;

verus! {

/// What a hook is told of a function call.
#[derive(Debug, PartialEq)]
pub struct FunctionCallHookContext {
    pub thread_id: String,
    pub turn_id: String,
    pub call_id: String,
    pub name: String,
    pub arguments: Value,
    pub projection: ThreadProjection,
    /// Set for after-hooks, once the resulting state of the thread is known.
    pub projection_after: Option<ThreadProjection>,
}

/// What a `FunctionCallHookContext` holds.
#[verifier::ext_equal]
pub struct FunctionCallHookContextView {
    pub thread_id: Seq<char>,
    pub turn_id: Seq<char>,
    pub call_id: Seq<char>,
    pub name: Seq<char>,
    pub arguments: Json,
    pub projection: ThreadProjectionView,
    pub projection_after: Option<ThreadProjectionView>,
}

impl View for FunctionCallHookContext {
    type V = FunctionCallHookContextView;

    open spec fn view(&self) -> FunctionCallHookContextView {
        FunctionCallHookContextView {
            thread_id: self.thread_id@,
            turn_id: self.turn_id@,
            call_id: self.call_id@,
            name: self.name@,
            arguments: json::of(self.arguments),
            projection: self.projection@,
            projection_after: views::opt(self.projection_after),
        }
    }
}

impl Clone for FunctionCallHookContext {
    fn clone(&self) -> (r: Self)
        ensures
            r@ == self@,
    {
        let r = FunctionCallHookContext {
            thread_id: self.thread_id.clone(),
            turn_id: self.turn_id.clone(),
            call_id: self.call_id.clone(),
            name: self.name.clone(),
            arguments: copy_of(&self.arguments),
            projection: self.projection.clone(),
            projection_after: self.projection_after.clone(),
        };
        assert(views::opt(r.projection_after) =~= views::opt(self.projection_after));
        r
    }
}

/// The settings of an agent. `P` tells what the host has to say about a turn.
pub struct AgentConfig<P> {
    pub max_model_iterations: usize,
    pub system_prompt: String,
    pub runtime_context_provider: Option<P>,
}

/// The turn that a host is asked about.
pub struct RuntimeContextInput<'a> {
    pub thread_id: &'a str,
    pub user_text: &'a str,
}

/// Says what a host has to tell the model in one turn, and in no other.
pub trait RuntimeContextProvider {
    fn context_for_turn(&self, input: RuntimeContextInput<'_>) -> Option<String>;
}

impl<P: RuntimeContextProvider> AgentConfig<P> {
    /// What the provider says of a turn; nothing where there is no provider.
    pub fn runtime_context(&self, thread_id: &str, user_text: &str) -> (r: Option<String>)
        ensures
            match self.runtime_context_provider {
                Some(provider) => call_ensures(
                    P::context_for_turn,
                    (&provider, RuntimeContextInput { thread_id, user_text }),
                    r,
                ),
                None => r is None,
            },
    {
        match &self.runtime_context_provider {
            Some(provider) => provider.context_for_turn(
                RuntimeContextInput { thread_id, user_text },
            ),
            None => None,
        }
    }
}

impl<P> Default for AgentConfig<P> {
    fn default() -> (r: Self)
        ensures
            r.max_model_iterations == 128,
            r.system_prompt@ == agent_loop::default_prompt(),
            r.runtime_context_provider is None,
    {
        let settings = agent_loop::AgentConfig::default();
        AgentConfig {
            max_model_iterations: settings.max_model_iterations,
            system_prompt: settings.system_prompt,
            runtime_context_provider: None,
        }
    }
}

} // verus!
