//! Tools that observe the host or act on it.
pub mod exec_command;
pub mod launching;
pub mod limits;
pub mod offering;
pub mod path;
pub mod sandbox;
pub mod time;
