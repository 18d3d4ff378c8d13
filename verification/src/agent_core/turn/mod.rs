//! One turn of an agent that keeps its calls as single items and its goal in the
//! thread, as a machine that decides and leaves the doing to its caller.
pub mod laws;
pub mod machine;
pub mod parts;
pub mod promises;
pub mod transitions;
