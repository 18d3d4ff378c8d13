//! An agent whose threads are numbered by version and stored as files, and the
//! model client that it talks through.
pub mod agent_loop;
pub mod choosing;
pub mod context;
pub mod model;
pub mod reading;
pub mod store;
pub mod turn;
