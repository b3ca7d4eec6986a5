use std::time::Instant;

use apprunner::process::restart::{RestartPolicy, MAX_RETRIES};
use apprunner::process::{
    plan_tick, plan_tick_cron, restart_failed_state, ExitObservation, ProcessState, TickStep,
};

#[test]
fn tick_without_running_child_changes_nothing() {
    let mut policy = RestartPolicy::new();
    assert_eq!(plan_tick(false, true, ExitObservation::ExitedFailed, &mut policy), TickStep::Unchanged);
    assert_eq!(plan_tick(true, false, ExitObservation::ExitedFailed, &mut policy), TickStep::Unchanged);
    assert_eq!(policy.crash_count(), 0);
}

#[test]
fn tick_normal_exit_stops() {
    let mut policy = RestartPolicy::new();
    assert_eq!(plan_tick(true, true, ExitObservation::ExitedOk, &mut policy), TickStep::Stop);
    assert_eq!(plan_tick(true, true, ExitObservation::StillRunning, &mut policy), TickStep::Unchanged);
    assert_eq!(policy.crash_count(), 0);
}

#[test]
fn tick_crashes_restart_until_exhausted() {
    let mut policy = RestartPolicy::new();
    for _ in 0..MAX_RETRIES {
        assert_eq!(plan_tick(true, true, ExitObservation::ExitedFailed, &mut policy), TickStep::Restart);
    }
    match plan_tick(true, true, ExitObservation::ExitedFailed, &mut policy) {
        TickStep::GiveUp(ProcessState::Crashed { retries, last_error }) => {
            assert_eq!(retries, MAX_RETRIES + 1);
            assert_eq!(last_error, "Process exited with non-zero status");
        }
        other => panic!("unexpected {:?}", other),
    }
}

#[test]
fn cron_tick_reports_any_exit() {
    assert!(plan_tick_cron(true, true, ExitObservation::ExitedOk));
    assert!(plan_tick_cron(true, true, ExitObservation::ExitedFailed));
    assert!(!plan_tick_cron(true, true, ExitObservation::StillRunning));
    assert!(!plan_tick_cron(false, true, ExitObservation::ExitedOk));
}

#[test]
fn restart_failure_state_carries_count() {
    let mut policy = RestartPolicy::new();
    policy.record_crash();
    match restart_failed_state(&policy) {
        ProcessState::Crashed { retries, last_error } => {
            assert_eq!(retries, 1);
            assert_eq!(last_error, "Failed to restart process");
        }
        other => panic!("unexpected {:?}", other),
    }
}

#[test]
fn running_state_queries() {
    let running = ProcessState::Running { pid: 1, started_at: Instant::now() };
    assert!(running.is_running());
    assert!(!running.can_start());
    assert!(ProcessState::Stopped.can_start());
    assert!(ProcessState::Crashed { retries: 1, last_error: String::new() }.can_start());
    assert!(!ProcessState::Attached.can_start());
}

#[test]
fn test_tick_with_dead_process_triggers_restart() {
    let mut policy = RestartPolicy::new();
    let step = plan_tick(true, true, ExitObservation::ExitedFailed, &mut policy);
    assert_eq!(step, TickStep::Restart);
    assert_eq!(policy.crash_count(), 1);
}

#[test]
fn test_tick_after_5_crashes_sets_crashed_state() {
    let mut policy = RestartPolicy::new();
    for _ in 0..4 {
        policy.record_crash();
    }
    let step = plan_tick(true, true, ExitObservation::ExitedFailed, &mut policy);
    assert_eq!(step, TickStep::Restart);
    let step = plan_tick(true, true, ExitObservation::ExitedFailed, &mut policy);
    assert!(matches!(step, TickStep::GiveUp(ProcessState::Crashed { .. })));
}

#[test]
fn test_tick_normal_exit_sets_stopped() {
    let mut policy = RestartPolicy::new();
    let step = plan_tick(true, true, ExitObservation::ExitedOk, &mut policy);
    assert_eq!(step, TickStep::Stop);
}
