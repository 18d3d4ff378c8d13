//! A runtime for tool-using conversational agents.
pub mod agent_core;
pub mod clock;
pub mod error;
pub mod ids;
pub mod json;
pub mod kernel;
pub mod lite;
pub mod observability;
pub mod repl;
pub mod runtime;
pub mod showing;
pub mod text;
pub mod tools;
pub mod tools_native;
pub mod views;
pub mod wording;
