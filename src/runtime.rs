//! Decisions of the libFuzzer-compatible runtime and of the launcher: which
//! outputs to mute, how to run, and what to do when a worker exits.
use vstd::prelude::*;

verus! {

/// Which standard outputs are redirected to the null device.
#[derive(Clone, Copy, Debug, PartialEq, Eq, Structural)]
pub struct MutedOutputs {
    pub stdout: bool,
    pub stderr: bool,
}

/// With the terminal UI both outputs are muted; otherwise bit 0 of
/// `close_fd_mask` mutes stdout and bit 1 mutes stderr.
pub fn outputs_to_mute(close_fd_mask: u8, tui: bool) -> (r: MutedOutputs)
    ensures
        tui ==> r == (MutedOutputs { stdout: true, stderr: true }),
        !tui ==> r == (MutedOutputs { stdout: close_fd_mask & 1 != 0, stderr: close_fd_mask & 2 != 0 }),
{
    if tui {
        MutedOutputs { stdout: true, stderr: true }
    } else {
        MutedOutputs { stdout: close_fd_mask & 1 != 0, stderr: close_fd_mask & 2 != 0 }
    }
}

/// How a libFuzzer-compatible run is organized.
#[derive(Clone, Copy, Debug, PartialEq, Eq, Structural)]
pub enum FuzzMode {
    /// One worker in this process.
    InProcess,
    /// One worker in a child process that is restarted after each crash.
    SingleForking,
    /// A broker and this many worker processes.
    ManyForking(usize),
}

/// `forks = Some(1)` runs one restarting child, `Some(n)` otherwise `n`
/// workers under a broker; without `forks`, the terminal UI asks for one
/// worker under a broker, and else everything runs in this process.
pub fn fuzz_mode(forks: Option<usize>, tui: bool) -> (r: FuzzMode)
    ensures
        forks == Some(1usize) ==> r == FuzzMode::SingleForking,
        forks.is_some() && forks != Some(1usize) ==> r == FuzzMode::ManyForking(forks.unwrap()),
        forks.is_none() && tui ==> r == FuzzMode::ManyForking(1),
        forks.is_none() && !tui ==> r == FuzzMode::InProcess,
{
    match forks {
        Some(n) => if n == 1 {
            FuzzMode::SingleForking
        } else {
            FuzzMode::ManyForking(n)
        },
        None => if tui {
            FuzzMode::ManyForking(1)
        } else {
            FuzzMode::InProcess
        },
    }
}

/// How a worker process ended.
#[derive(Clone, Copy, Debug, PartialEq, Eq, Structural)]
pub enum WorkerExit {
    /// Exit status 0.
    Clean,
    /// A non-zero status or a signal.
    Failed,
    /// The worker asked for the whole session to stop.
    ShuttingDown,
}

/// What the launcher does next.
#[derive(Clone, Copy, Debug, PartialEq, Eq, Structural)]
pub enum LauncherAction {
    /// Start the worker again on its core; it resumes from its saved state.
    Respawn,
    /// The worker is done; nothing to start.
    Retire,
    /// Stop every worker and leave.
    ShutdownAll,
    /// Give up: the worker keeps dying before it loaded its initial inputs.
    Fatal,
}

/// What the launcher knows of one worker slot.
#[derive(Clone, Copy, Debug, PartialEq, Eq, Structural)]
pub struct WorkerSlot {
    /// The worker reported that it loaded its initial inputs.
    pub loaded_initial_inputs: bool,
    /// Failures in a row before the initial inputs were loaded.
    pub early_failures: u32,
}

/// Decides on a worker's exit. A shutdown request stops everyone; a clean
/// exit retires the slot; a failure respawns the worker, unless it failed
/// `max_early_failures` times in a row before loading its initial inputs,
/// which is fatal.
pub fn on_worker_exit(slot: &mut WorkerSlot, exit: WorkerExit, max_early_failures: u32) -> (r: LauncherAction)
    ensures
        exit == WorkerExit::ShuttingDown ==> r == LauncherAction::ShutdownAll && *final(slot) == *old(slot),
        exit == WorkerExit::Clean ==> r == LauncherAction::Retire && *final(slot) == *old(slot),
        exit == WorkerExit::Failed && old(slot).loaded_initial_inputs ==> r == LauncherAction::Respawn
            && *final(slot) == *old(slot),
        exit == WorkerExit::Failed && !old(slot).loaded_initial_inputs ==> {
            let n = if old(slot).early_failures < u32::MAX { (old(slot).early_failures + 1) as u32 } else { u32::MAX };
            &&& final(slot).early_failures == n
            &&& final(slot).loaded_initial_inputs == old(slot).loaded_initial_inputs
            &&& r == if n >= max_early_failures { LauncherAction::Fatal } else { LauncherAction::Respawn }
        },
{
    match exit {
        WorkerExit::ShuttingDown => LauncherAction::ShutdownAll,
        WorkerExit::Clean => LauncherAction::Retire,
        WorkerExit::Failed => {
            if slot.loaded_initial_inputs {
                LauncherAction::Respawn
            } else {
                slot.early_failures = slot.early_failures.saturating_add(1);
                if slot.early_failures >= max_early_failures {
                    LauncherAction::Fatal
                } else {
                    LauncherAction::Respawn
                }
            }
        },
    }
}

/// The PNG dictionary: the 8-byte file magic and the chunk names `IHDR`,
/// `IDAT`, `PLTE` and `IEND`.
pub open spec fn png_dictionary() -> Seq<Seq<u8>> {
    seq![
        seq![137u8, 80u8, 78u8, 71u8, 13u8, 10u8, 26u8, 10u8],
        seq![73u8, 72u8, 68u8, 82u8],
        seq![73u8, 68u8, 65u8, 84u8],
        seq![80u8, 76u8, 84u8, 69u8],
        seq![73u8, 69u8, 78u8, 68u8],
    ]
}

/// The tokens a PNG fuzzer starts with.
pub fn png_tokens() -> (r: Vec<Vec<u8>>)
    ensures
        r@.len() == 5,
        forall|i: int| 0 <= i < 5 ==> #[trigger] r@[i]@ == png_dictionary()[i],
{
    let mut r: Vec<Vec<u8>> = Vec::new();
    r.push(vec![137u8, 80u8, 78u8, 71u8, 13u8, 10u8, 26u8, 10u8]);
    r.push(vec![73u8, 72u8, 68u8, 82u8]);
    r.push(vec![73u8, 68u8, 65u8, 84u8]);
    r.push(vec![80u8, 76u8, 84u8, 69u8]);
    r.push(vec![73u8, 69u8, 78u8, 68u8]);
    assert(r@[0]@ =~= png_dictionary()[0]);
    assert(r@[1]@ =~= png_dictionary()[1]);
    assert(r@[2]@ =~= png_dictionary()[2]);
    assert(r@[3]@ =~= png_dictionary()[3]);
    assert(r@[4]@ =~= png_dictionary()[4]);
    r
}

/// In the centralized setup the main worker only gathers and re-broadcasts
/// testcases: it runs no stages. Every other worker runs the mutational stage.
pub fn runs_stages(is_main: bool) -> (r: bool)
    ensures
        r == !is_main,
{
    !is_main
}

} // verus!
