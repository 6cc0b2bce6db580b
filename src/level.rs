//! Log verbosity of the debugging front end.
use vstd::prelude::*;

verus! {

/// Verbosity of the debugging front end's log.
#[derive(Clone, Copy, Debug, PartialEq, Eq, Structural)]
pub enum Level {
    Off,
    Error,
    Warn,
    Info,
    Debug,
    Trace,
}

} // verus!
