//! The agent: how a turn runs, what it costs and what is kept of it.
pub mod agent_loop;
pub mod answers;
pub mod choosing;
pub mod context;
pub mod functions;
pub mod keeping;
pub mod recording;
pub mod resume;
pub mod resumption;
pub mod session;
pub mod store;
pub mod trace;
pub mod turn;
