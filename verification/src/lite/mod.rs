//! A small agent: plain messages, no streaming, one call at a time.
pub mod events;
pub mod functions;
pub mod model;
pub mod promises;
pub mod projection;
pub mod turn;
