//! Error kinds and the exit kinds of one run of the target.
use vstd::prelude::*;

verus! {

/// The kinds of failure that the fuzzing core reports.
#[derive(Clone, Copy, Debug, PartialEq, Eq, Structural)]
pub enum Error {
    /// No corpus entries (the target may not be instrumented).
    Empty,
    /// A scheduler or corpus invariant was violated (for instance an unknown id).
    IllegalState,
    /// Disk, shared memory or network failure.
    IO,
    /// A frame could not be encoded or decoded.
    Serialize,
    /// Cooperative exit signal.
    ShuttingDown,
    /// A run of the target went over its time budget.
    Timeout,
    /// A bad command-line or configuration value.
    IllegalArgument,
    /// Absent metadata, or an observer that was not found by its handle.
    KeyNotFound,
}

impl Error {
    /// A sentence for the user about this kind of failure.
    pub fn describe(&self) -> (r: &'static str)
        ensures
            *self == Error::Empty ==> r@ == "No entries in corpus. This often implies the target is not properly instrumented."@,
    {
        match self {
            Error::Empty => "No entries in corpus. This often implies the target is not properly instrumented.",
            Error::IllegalState => "The fuzzer reached an illegal state.",
            Error::IO => "An input/output operation failed.",
            Error::Serialize => "Bytes could not be encoded or decoded.",
            Error::ShuttingDown => "Fuzzing stopped by user. Good bye.",
            Error::Timeout => "The target timed out.",
            Error::IllegalArgument => "An argument was not valid.",
            Error::KeyNotFound => "A key was not found.",
        }
    }
}

/// How one run of the target ended.
#[derive(Clone, Copy, Debug, PartialEq, Eq, Structural, Hash)]
pub enum ExitKind {
    Normal,
    Crash,
    Oom,
    Timeout,
}

impl ExitKind {
    /// Whether this exit makes the input a solution candidate: a crash, an
    /// out-of-memory or a timeout.
    pub open spec fn spec_is_fault(self) -> bool {
        self != ExitKind::Normal
    }

    pub fn is_fault(&self) -> (r: bool)
        ensures
            r == self.spec_is_fault(),
    {
        !matches!(self, ExitKind::Normal)
    }
}

} // verus!
