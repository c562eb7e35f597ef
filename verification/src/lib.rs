//! Session process manager for line-delimited JSON subprocess streams.
//!
//! The library models one running subprocess per conversation thread: a
//! registry of sessions keyed by thread identity, a translator that turns
//! one line of the subprocess's wire protocol into a normalized event, a
//! pump that drains a whole output stream into tagged events, the decision
//! logic around isolated working copies, and the normalization of a path
//! chosen in the host's folder picker. All the I/O the registry decides on
//! — spawning, writing, terminating — is performed by the embedding host.

pub mod json;
pub mod protocol;
pub mod pump;
pub mod manager;
pub mod worktree;
pub mod picker;
