use flightcore::launch::{
    check_launch_preconditions, contains_lowercase, handoff_ops, restore_ops, GuardFiles, GuardOp,
    LaunchError, LaunchPhase, LaunchSequencer, WatchAction, WatchPhase, Watchdog, GRACE_MS,
    POLL_INTERVAL_MS, POLL_LIMIT,
};
use flightcore::InstallType;

fn run_cycle(files: &mut GuardFiles) {
    let ops = handoff_ops(files.guard.is_some());
    files.apply_all(&ops);
    assert_eq!(files.guard, Some(vec![b'1']));
    let mut dog = Watchdog::new(false);
    // the game is seen at once
    assert_eq!(dog.step(true), WatchAction::Sleep(GRACE_MS));
    assert_eq!(dog.step(false), WatchAction::Restore);
    let ops = restore_ops(files.backup.is_some());
    files.apply_all(&ops);
}

#[test]
fn cycle_without_prior_guard_leaves_no_files() {
    let mut files = GuardFiles { guard: None, backup: None };
    run_cycle(&mut files);
    assert_eq!(files.guard, None);
    assert_eq!(files.backup, None);
}

#[test]
fn cycle_with_prior_guard_restores_its_content() {
    let mut files = GuardFiles { guard: Some(b"custom".to_vec()), backup: None };
    run_cycle(&mut files);
    assert_eq!(files.guard, Some(b"custom".to_vec()));
    assert_eq!(files.backup, None);
}

#[test]
fn handoff_replaces_stale_backup_with_current_guard() {
    let mut files = GuardFiles { guard: Some(b"new".to_vec()), backup: Some(b"old".to_vec()) };
    let ops = handoff_ops(true);
    assert_eq!(ops, vec![GuardOp::MoveGuardToBackup, GuardOp::WriteGuard]);
    files.apply_all(&ops);
    assert_eq!(files.backup, Some(b"new".to_vec()));
    assert_eq!(restore_ops(true), vec![GuardOp::RemoveGuard, GuardOp::MoveBackupToGuard]);
    assert_eq!(restore_ops(false), vec![GuardOp::RemoveGuard]);
}

#[test]
fn watchdog_times_out_after_poll_limit() {
    let mut dog = Watchdog::new(false);
    let mut sleeps = 0u32;
    loop {
        match dog.step(false) {
            WatchAction::Sleep(ms) if ms == POLL_INTERVAL_MS => sleeps += 1,
            WatchAction::Sleep(ms) => assert_eq!(ms, GRACE_MS),
            WatchAction::Restore => break,
            WatchAction::Idle => panic!("restore was skipped"),
        }
    }
    assert_eq!(sleeps, POLL_LIMIT);
    assert_eq!(dog.phase, WatchPhase::Finished);
    assert_eq!(dog.step(false), WatchAction::Idle);
}

#[test]
fn watchdog_fast_fails_when_start_failed() {
    let mut dog = Watchdog::new(true);
    assert_eq!(dog.step(false), WatchAction::Sleep(GRACE_MS));
    assert_eq!(dog.step(false), WatchAction::Restore);
}

#[test]
fn launch_preconditions() {
    assert_eq!(
        check_launch_preconditions(InstallType::ORIGIN, true, true, None),
        Err(LaunchError::NotSteam)
    );
    assert_eq!(
        check_launch_preconditions(InstallType::STEAM, false, true, None),
        Err(LaunchError::DirectoryUnavailable)
    );
    assert_eq!(check_launch_preconditions(InstallType::STEAM, true, true, None), Ok(()));
    assert_eq!(
        check_launch_preconditions(InstallType::STEAM, true, false, None),
        Err(LaunchError::NoCompatTool)
    );
    assert_eq!(
        check_launch_preconditions(InstallType::STEAM, true, false, Some("Proton 8.0".to_string())),
        Err(LaunchError::WrongCompatTool)
    );
    assert_eq!(
        check_launch_preconditions(
            InstallType::STEAM,
            true,
            false,
            Some("NorthstarProton8-28".to_string())
        ),
        Ok(())
    );
}

#[test]
fn case_insensitive_contains() {
    assert!(contains_lowercase("NORTHSTARPROTON", "northstarproton"));
    assert!(contains_lowercase("xxNorthStarProtonyy", "northstarproton"));
    assert!(!contains_lowercase("northstar-proton", "northstarproton"));
    assert!(!contains_lowercase("", "northstarproton"));
}

#[test]
fn launch_error_messages() {
    assert_eq!(LaunchError::NotSteam.message(), "Titanfall2 was not installed via Steam");
    assert_eq!(LaunchError::StartFailed.message(), "Failed to launch Titanfall 2 via Steam");
}

#[test]
fn sequencer_full_cycle_restores_prior_guard() {
    let mut files = GuardFiles { guard: Some(b"mine".to_vec()), backup: None };
    let mut seq = LaunchSequencer::new();
    assert_eq!(seq.prepare(InstallType::STEAM, true, true, None), Ok(()));
    assert_eq!(seq.phase, LaunchPhase::Prepared);
    files.apply_all(&seq.handoff(files.guard.is_some()));
    assert_eq!(files.guard, Some(vec![b'1']));
    assert_eq!(files.backup, Some(b"mine".to_vec()));
    assert_eq!(seq.launched(true), Ok("Started game".to_string()));
    assert_eq!(seq.watch(false), WatchAction::Sleep(POLL_INTERVAL_MS));
    assert_eq!(seq.watch(true), WatchAction::Sleep(GRACE_MS));
    assert_eq!(seq.watch(false), WatchAction::Restore);
    files.apply_all(&seq.restore(files.backup.is_some()));
    assert_eq!(seq.phase, LaunchPhase::Restored);
    assert_eq!(files.guard, Some(b"mine".to_vec()));
    assert_eq!(files.backup, None);
}

#[test]
fn sequencer_refusal_is_final() {
    let mut seq = LaunchSequencer::new();
    assert_eq!(seq.prepare(InstallType::EAPLAY, true, true, None), Err(LaunchError::NotSteam));
    assert_eq!(seq.phase, LaunchPhase::Refused);
}

#[test]
fn sequencer_failed_start_still_restores() {
    let mut seq = LaunchSequencer::new();
    seq.prepare(InstallType::STEAM, true, true, None).unwrap();
    let _ = seq.handoff(false);
    assert_eq!(seq.launched(false), Err(LaunchError::StartFailed));
    assert_eq!(seq.watch(false), WatchAction::Sleep(GRACE_MS));
    assert_eq!(seq.watch(false), WatchAction::Restore);
    assert_eq!(seq.restore(false), vec![GuardOp::RemoveGuard]);
}
