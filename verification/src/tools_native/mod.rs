//! Sandboxes of the operating systems.
pub mod linux;
pub mod policy;
pub mod resolving;
pub mod seatbelt;
