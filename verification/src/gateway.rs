//! The narrow view this crate has of the chat platform: every call to it
//! (create, rename or delete a role) either succeeds or fails in one of two
//! ways. The calls themselves are made by the caller of this crate.

use vstd::prelude::*;

verus! {

/// The time, in milliseconds, after which the caller is to give up on a call
/// that a command asked for (creating or deleting a role) and take it as a
/// transient failure. Renames get their limit from the scheduler.
pub const COMMAND_CALL_LIMIT_MILLIS: u64 = 5_000;

/// How a call to the chat platform failed.
#[derive(Clone, Copy, Debug, PartialEq, Eq)]
pub enum GatewayError {
    /// The network or a rate limit got in the way, or the call took too
    /// long. The same call may succeed later.
    Transient,
    /// The role is no longer there: it was deleted behind the registry's
    /// back.
    NotFound,
}

} // verus!
