//! The failure conditions of the dumpster engine.
//!
//! Every operation returns a result carrying one of these kinds; none of
//! them aborts a batch. The variants that the verified core can itself
//! produce name the rule that rejected the input; the two lookup failures
//! and `IoFailure` are raised by the callers that perform the platform
//! lookups and the filesystem moves, which surface the platform message
//! verbatim.

use vstd::prelude::*;

verus! {

/// A single operation's reason for failing.
#[derive(Debug, PartialEq, Eq)]
pub enum YeetError {
    /// The platform reports no home directory; fatal at startup.
    HomeDirectoryUnavailable,
    /// The current working directory cannot be resolved.
    WorkingDirectoryUnavailable,
    /// A yeet target already lies under the dumpster root.
    AlreadyInDumpster,
    /// A yeet target does not lie under the home directory.
    OutsideHomeDirectory,
    /// A restore target does not lie under the dumpster root.
    NotInDumpster,
    /// The resolved path has no final filename component.
    MissingFilename,
    /// The collision resolver exhausted its suffix space.
    DuplicateLimitExceeded,
    /// An underlying filesystem call failed; the platform message is kept.
    IoFailure(String),
}

} // verus!
