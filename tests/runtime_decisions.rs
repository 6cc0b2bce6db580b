use fuzzcore::emu::{EmulatorDriverResult, EmulatorExitResult, GuestAddrKind};
use fuzzcore::level::Level;
use fuzzcore::error::ExitKind;
use fuzzcore::runtime::{fuzz_mode, on_worker_exit, outputs_to_mute, FuzzMode, LauncherAction, MutedOutputs, WorkerExit, WorkerSlot};
use fuzzcore::stage::{ExecutionCountRestartHelper, RetryCountRestartHelper, StageIds};
use fuzzcore::corpus::CorpusId;

#[test]
fn close_fd_mask_bits() {
    assert_eq!(outputs_to_mute(0, false), MutedOutputs { stdout: false, stderr: false });
    assert_eq!(outputs_to_mute(1, false), MutedOutputs { stdout: true, stderr: false });
    assert_eq!(outputs_to_mute(2, false), MutedOutputs { stdout: false, stderr: true });
    assert_eq!(outputs_to_mute(3, false), MutedOutputs { stdout: true, stderr: true });
    assert_eq!(outputs_to_mute(0, true), MutedOutputs { stdout: true, stderr: true });
}

#[test]
fn fuzz_modes() {
    assert_eq!(fuzz_mode(None, false), FuzzMode::InProcess);
    assert_eq!(fuzz_mode(None, true), FuzzMode::ManyForking(1));
    assert_eq!(fuzz_mode(Some(1), false), FuzzMode::SingleForking);
    assert_eq!(fuzz_mode(Some(4), true), FuzzMode::ManyForking(4));
}

#[test]
fn launcher_respawns_a_killed_worker() {
    let mut a = WorkerSlot { loaded_initial_inputs: true, early_failures: 0 };
    let mut b = WorkerSlot { loaded_initial_inputs: true, early_failures: 0 };
    assert_eq!(on_worker_exit(&mut a, WorkerExit::Failed, 3), LauncherAction::Respawn);
    assert_eq!(on_worker_exit(&mut b, WorkerExit::Clean, 3), LauncherAction::Retire);
    assert_eq!(on_worker_exit(&mut a, WorkerExit::ShuttingDown, 3), LauncherAction::ShutdownAll);
}

#[test]
fn launcher_gives_up_on_early_crashes() {
    let mut s = WorkerSlot { loaded_initial_inputs: false, early_failures: 0 };
    assert_eq!(on_worker_exit(&mut s, WorkerExit::Failed, 2), LauncherAction::Respawn);
    assert_eq!(on_worker_exit(&mut s, WorkerExit::Failed, 2), LauncherAction::Fatal);
    assert_eq!(s.early_failures, 2);
}

#[test]
fn end_of_run_reports_the_exit_kind() {
    let r: EmulatorDriverResult<u8> = EmulatorDriverResult::EndOfRun(ExitKind::Crash);
    assert_eq!(r.end_of_run(), Some(ExitKind::Crash));
    let r: EmulatorDriverResult<u8> = EmulatorDriverResult::ReturnToClient(EmulatorExitResult::Timeout);
    assert_eq!(r.end_of_run(), None);
    let r: EmulatorDriverResult<u8> = EmulatorDriverResult::ShutdownRequest;
    assert_eq!(r.end_of_run(), None);
}

#[test]
fn guest_addresses_keep_their_kind() {
    assert_eq!(GuestAddrKind::Physical(0x1000).offset(0x10), GuestAddrKind::Physical(0x1010));
    assert_eq!(GuestAddrKind::Virtual(7).offset(1), GuestAddrKind::Virtual(8));
    assert_ne!(Level::Off, Level::Trace);
}

#[test]
fn stage_ids_are_fresh() {
    let mut ids = StageIds::new();
    assert_eq!(ids.fresh(), 0);
    assert_eq!(ids.fresh(), 1);
}

#[test]
fn restart_helpers() {
    let mut e = ExecutionCountRestartHelper::new();
    assert_eq!(e.execs_since_progress_start(10), 0);
    assert_eq!(e.execs_since_progress_start(15), 5);
    e.clear_progress();
    assert_eq!(e.started_at, None);
    let mut r = RetryCountRestartHelper::new();
    assert!(r.no_retry(CorpusId(1)));
    assert!(!r.no_retry(CorpusId(1)));
    assert!(r.no_retry(CorpusId(2)));
    r.clear_progress();
    assert!(r.no_retry(CorpusId(2)));
}

#[test]
fn png_dictionary_and_stage_set() {
    let t = fuzzcore::runtime::png_tokens();
    assert_eq!(t[0], vec![137, 80, 78, 71, 13, 10, 26, 10]);
    assert_eq!(t[1], b"IHDR".to_vec());
    assert_eq!(t[2], b"IDAT".to_vec());
    assert_eq!(t[3], b"PLTE".to_vec());
    assert_eq!(t[4], b"IEND".to_vec());
    assert!(fuzzcore::runtime::runs_stages(false));
    assert!(!fuzzcore::runtime::runs_stages(true));
}
