//! One turn of an agent, as a machine that decides and leaves the doing to its
//! caller: each step takes what came of the last action and names the next.
pub mod laws;
pub mod machine;
pub mod parts;
pub mod promises;
pub mod transitions;
