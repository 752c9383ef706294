//! The ways a timing run can fail.

use vstd::prelude::*;

verus! {

/// Why no timing came out of a run.
#[derive(Clone, Copy, Debug, PartialEq, Eq, Structural)]
pub enum TimingError {
    /// The tracer, or the program it was to run, could not be started.
    LaunchFailure,
    /// The tracer ended abnormally, by a signal or an error of its own.
    ChildCrashed,
    /// The log is empty or unreadable, or its first record is not a
    /// process start.
    MalformedTrace,
    /// The log is well formed, but the program never wrote to standard output.
    NoOutputObserved,
}

} // verus!
