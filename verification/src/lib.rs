//! Clock roles: for every tracked (community, timezone) pair a chat role whose
//! display name shows the current local time of that zone.
//!
//! The crate holds the role registry, the label renderer, the command
//! decisions and the resynchronisation scheduler. It performs no I/O: the
//! caller talks to the chat platform and to storage and feeds the results back.

pub mod commands;
pub mod gateway;
pub mod registry;
pub mod render;
pub mod scheduler;
pub mod text;
pub mod zone;

pub use registry::Role;
