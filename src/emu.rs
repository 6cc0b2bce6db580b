//! Exit results of an emulated run, as the driver reports them to the fuzzer.
use vstd::prelude::*;

use crate::error::ExitKind;

verus! {

/// Why the emulator stopped.
#[derive(Clone, Debug, PartialEq, Eq)]
pub enum EmulatorExitResult<C> {
    /// The emulator ended; the shutdown cause as the emulator numbers it.
    QemuExit(i32),
    /// A breakpoint at this guest address was hit.
    Breakpoint(u64),
    /// The guest asked, through the synchronous backdoor, for this command.
    CustomInsn(C),
    Crash,
    Timeout,
}

/// What the emulator driver makes of an exit.
#[derive(Clone, Debug, PartialEq, Eq)]
pub enum EmulatorDriverResult<C> {
    /// Hand the exit back to the caller.
    ReturnToClient(EmulatorExitResult<C>),
    /// The run of the harness is over, with this exit kind.
    EndOfRun(ExitKind),
    /// The guest asked the fuzzer to stop.
    ShutdownRequest,
}

impl<C> EmulatorDriverResult<C> {
    /// The exit kind when the run is over.
    pub fn end_of_run(&self) -> (r: Option<ExitKind>)
        ensures
            r == match self {
                EmulatorDriverResult::EndOfRun(k) => Some(*k),
                _ => None,
            },
    {
        match self {
            EmulatorDriverResult::EndOfRun(exit_kind) => Some(*exit_kind),
            _ => None,
        }
    }
}

/// A guest address, physical or virtual.
#[derive(Clone, Copy, Debug, PartialEq, Eq, Structural)]
pub enum GuestAddrKind {
    Physical(u64),
    Virtual(u64),
}

impl GuestAddrKind {
    /// The same kind of address, `rhs` bytes further.
    pub fn offset(self, rhs: u64) -> (r: GuestAddrKind)
        requires
            match self {
                GuestAddrKind::Physical(a) => a + rhs <= u64::MAX,
                GuestAddrKind::Virtual(a) => a + rhs <= u64::MAX,
            },
        ensures
            r == match self {
                GuestAddrKind::Physical(a) => GuestAddrKind::Physical((a + rhs) as u64),
                GuestAddrKind::Virtual(a) => GuestAddrKind::Virtual((a + rhs) as u64),
            },
    {
        match self {
            GuestAddrKind::Physical(paddr) => GuestAddrKind::Physical(paddr + rhs),
            GuestAddrKind::Virtual(vaddr) => GuestAddrKind::Virtual(vaddr + rhs),
        }
    }
}

} // verus!
