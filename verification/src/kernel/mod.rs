//! Threads, turns and what follows from them.
pub mod adding;
pub mod events;
pub mod model;
pub mod projection;
pub mod revision;
