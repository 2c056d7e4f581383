//! The ways in which an operation on an entry or on the log can fail.

use vstd::prelude::*;

verus! {

/// Why an operation was refused.
#[derive(Clone, Copy, Debug, PartialEq, Eq, Structural)]
pub enum TrackError {
    /// A task was given an empty name.
    InvalidInput,
    /// The entry already has an end.
    AlreadyStopped,
    /// The log holds no entry to act on.
    EmptyStore,
    /// A record or a timestamp of the log cannot be read.
    CorruptStore,
    /// The backing file cannot be read or written.
    IOFailure,
}

} // verus!
