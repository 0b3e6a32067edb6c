use with_gpu::selector::{ExclusionCounts, SelectionCriteria, SelectionError};
use with_gpu::wait::{
    wait_is_over, wait_start, wait_step, RetryReport, WaitAction, WaitConfig, WaitError,
    WaitEvent, WaitState, POLL_INTERVAL_SECS,
};
use with_gpu::GpuInfo;

fn gpu(index: usize, used: u64, procs: usize) -> GpuInfo {
    GpuInfo {
        index,
        memory_used_mb: used,
        memory_total_mb: 24000,
        utilization_percent: 0,
        process_count: procs,
        hidden_usage_mb: 0,
    }
}

fn config(require_idle: bool, timeout_secs: Option<u64>) -> WaitConfig {
    WaitConfig {
        criteria: SelectionCriteria {
            min_gpus: 1,
            max_gpus: 1,
            require_idle,
            min_memory_mb: None,
            max_utilization: None,
        },
        timeout_secs,
        manual_gpu_indices: None,
    }
}

fn snapshot(gpus: Vec<GpuInfo>, elapsed_secs: u64) -> WaitEvent {
    WaitEvent::Snapshot { gpus, claims: vec![], elapsed_secs }
}

#[test]
fn a_wait_begins_with_the_first_attempt() {
    let (state, action) = wait_start();
    assert_eq!(state, WaitState::Attempting { attempt: 1 });
    assert!(matches!(action, WaitAction::Query));
    assert_eq!(POLL_INTERVAL_SECS, 5);
}

#[test]
fn the_first_success_ends_the_wait() {
    let (state, action) = wait_step(
        &config(true, None),
        WaitState::Attempting { attempt: 3 },
        snapshot(vec![gpu(0, 9000, 2), gpu(1, 10, 0)], 10),
    );
    assert_eq!(state, WaitState::Succeeded);
    match action {
        WaitAction::Finish { selection, candidates, attempts } => {
            assert_eq!(selection.gpu_indices, vec![1]);
            assert!(selection.all_idle);
            assert_eq!(candidates.len(), 2);
            assert_eq!(attempts, 3);
        }
        _ => panic!("not finished"),
    }
    assert!(wait_is_over(&state));
}

#[test]
fn a_failed_attempt_without_deadline_sleeps_and_tries_again() {
    let busy = vec![gpu(0, 9000, 2), gpu(3, 100, 0), gpu(1, 9000, 1)];
    let mut cfg = config(true, None);
    cfg.criteria.min_gpus = 2;
    cfg.criteria.max_gpus = 2;
    let (state, action) =
        wait_step(&cfg, WaitState::Attempting { attempt: 1 }, snapshot(busy, u64::MAX));
    assert_eq!(state, WaitState::Retrying { attempt: 1 });
    match action {
        WaitAction::Retry { secs, report } => {
            assert_eq!(secs, 5);
            assert_eq!(
                report,
                RetryReport {
                    attempt: 1,
                    elapsed_secs: u64::MAX,
                    candidate_count: 3,
                    idle_count: 1,
                    idle_indices: vec![3],
                }
            );
        }
        _ => panic!("not retried"),
    }
    assert!(!wait_is_over(&state));
    let (state, action) = wait_step(&cfg, state, WaitEvent::Slept);
    assert_eq!(state, WaitState::Attempting { attempt: 2 });
    assert!(matches!(action, WaitAction::Query));
}

#[test]
fn the_deadline_is_met_when_the_elapsed_time_reaches_it() {
    let failure = SelectionError::InsufficientCount { needed: 1, available: 0, idle_only: true };
    for (elapsed, timed_out) in [(0u64, false), (29, false), (30, true), (31, true)] {
        let (state, action) = wait_step(
            &config(true, Some(30)),
            WaitState::Attempting { attempt: 7 },
            snapshot(vec![gpu(0, 9000, 2)], elapsed),
        );
        if timed_out {
            assert_eq!(state, WaitState::TimedOut);
            match action {
                WaitAction::Fail { error } => {
                    assert_eq!(error, WaitError::Timeout { elapsed_secs: elapsed, last: failure })
                }
                _ => panic!("not failed"),
            }
        } else {
            assert_eq!(state, WaitState::Retrying { attempt: 7 });
            assert!(matches!(action, WaitAction::Retry { secs: 5, .. }));
        }
    }
    let (state, _) = wait_step(
        &config(true, Some(0)),
        WaitState::Attempting { attempt: 1 },
        snapshot(vec![gpu(0, 9000, 2)], 0),
    );
    assert_eq!(state, WaitState::TimedOut);
}

#[test]
fn no_matching_candidates_is_retried() {
    let claimed = WaitEvent::Snapshot {
        gpus: vec![gpu(0, 0, 0)],
        claims: vec![(0, 4242)],
        elapsed_secs: 3,
    };
    let (state, action) =
        wait_step(&config(false, Some(100)), WaitState::Attempting { attempt: 1 }, claimed);
    assert_eq!(state, WaitState::Retrying { attempt: 1 });
    assert!(matches!(action, WaitAction::Retry { .. }));
}

#[test]
fn a_telemetry_failure_is_not_retried() {
    let (state, action) = wait_step(
        &config(false, None),
        WaitState::Attempting { attempt: 1 },
        WaitEvent::TelemetryFailed { reason: "Failed to initialize NVML".to_string() },
    );
    assert_eq!(state, WaitState::HardFailure);
    match action {
        WaitAction::Fail { error } => {
            assert_eq!(
                error,
                WaitError::Telemetry { reason: "Failed to initialize NVML".to_string() }
            );
            assert_eq!(error.message(), "Failed to initialize NVML");
        }
        _ => panic!("not failed"),
    }
    assert!(wait_is_over(&state));
}

#[test]
fn a_snapshot_without_devices_is_not_retried() {
    let (state, action) =
        wait_step(&config(false, None), WaitState::Attempting { attempt: 1 }, snapshot(vec![], 0));
    assert_eq!(state, WaitState::HardFailure);
    assert!(matches!(action, WaitAction::Fail { error: WaitError::NoDevices }));
    let mut manual = config(false, None);
    manual.manual_gpu_indices = Some(vec![4]);
    let (state, _) = wait_step(
        &manual,
        WaitState::Attempting { attempt: 1 },
        snapshot(vec![gpu(0, 0, 0)], 0),
    );
    assert_eq!(state, WaitState::HardFailure);
}

#[test]
fn a_manual_choice_narrows_what_is_selected() {
    let mut manual = config(false, None);
    manual.manual_gpu_indices = Some(vec![2, 1]);
    let (state, action) = wait_step(
        &manual,
        WaitState::Attempting { attempt: 1 },
        snapshot(vec![gpu(0, 0, 0), gpu(1, 500, 0), gpu(2, 600, 1)], 0),
    );
    assert_eq!(state, WaitState::Succeeded);
    match action {
        WaitAction::Finish { selection, candidates, .. } => {
            assert_eq!(selection.gpu_indices, vec![1]);
            assert_eq!(candidates.iter().map(|g| g.index).collect::<Vec<_>>(), vec![1, 2]);
        }
        _ => panic!("not finished"),
    }
}

#[test]
fn events_that_a_state_does_not_wait_for_change_nothing() {
    let cfg = config(false, None);
    let cases = [
        (WaitState::Attempting { attempt: 2 }, WaitEvent::Slept),
        (WaitState::Retrying { attempt: 2 }, snapshot(vec![gpu(0, 0, 0)], 0)),
        (
            WaitState::Retrying { attempt: 2 },
            WaitEvent::TelemetryFailed { reason: String::new() },
        ),
        (WaitState::Succeeded, WaitEvent::Slept),
        (WaitState::Succeeded, snapshot(vec![gpu(0, 0, 0)], 0)),
        (WaitState::TimedOut, WaitEvent::Slept),
        (WaitState::HardFailure, snapshot(vec![gpu(0, 0, 0)], 0)),
    ];
    for (state, event) in cases {
        let (next, action) = wait_step(&cfg, state, event);
        assert_eq!(next, state);
        assert!(matches!(action, WaitAction::Ignore));
    }
}

#[test]
fn the_attempt_count_stops_at_its_largest_value() {
    let (state, _) =
        wait_step(&config(false, None), WaitState::Retrying { attempt: u64::MAX }, WaitEvent::Slept);
    assert_eq!(state, WaitState::Attempting { attempt: u64::MAX });
    let (state, _) = wait_step(
        &config(false, None),
        WaitState::Retrying { attempt: u64::MAX - 1 },
        WaitEvent::Slept,
    );
    assert_eq!(state, WaitState::Attempting { attempt: u64::MAX });
}

#[test]
fn a_timeout_message_carries_the_last_failure() {
    let error = WaitError::Timeout {
        elapsed_secs: 301,
        last: SelectionError::InsufficientCount { needed: 2, available: 1, idle_only: false },
    };
    assert_eq!(
        error.message(),
        "Timeout after 301 seconds waiting for GPUs: Need 2 GPUs but only 1 available (use --status to see GPU state)"
    );
    let none = WaitError::Timeout {
        elapsed_secs: 5,
        last: SelectionError::NoCandidatesMatch {
            excluded: ExclusionCounts {
                claimed: 1,
                hidden_usage: 0,
                low_memory: 0,
                high_utilization: 0,
            },
            min_memory_mb: None,
            max_utilization: None,
        },
    };
    assert_eq!(
        none.message(),
        "Timeout after 5 seconds waiting for GPUs: No GPUs found matching criteria: 1 GPU(s) claimed by other processes (use --status to see GPU state)"
    );
    assert_eq!(WaitError::NoDevices.message(), "No GPUs detected");
}

#[test]
fn a_whole_wait_runs_until_devices_come_free() {
    let cfg = config(true, Some(60));
    let snapshots = vec![
        (vec![gpu(0, 9000, 1)], 0u64),
        (vec![gpu(0, 9000, 1)], 5),
        (vec![gpu(0, 100, 0)], 10),
    ];
    let (mut state, mut action) = wait_start();
    let mut queries = 0;
    let mut sleeps = 0;
    let found = loop {
        match action {
            WaitAction::Query => {
                let (gpus, elapsed) = snapshots[queries].clone();
                queries += 1;
                (state, action) = wait_step(&cfg, state, snapshot(gpus, elapsed));
            }
            WaitAction::Retry { secs, report } => {
                assert_eq!(secs, 5);
                assert_eq!(report.attempt, sleeps + 1);
                sleeps += 1;
                (state, action) = wait_step(&cfg, state, WaitEvent::Slept);
            }
            WaitAction::Finish { selection, attempts, .. } => break (selection, attempts),
            _ => panic!("unexpected action"),
        }
    };
    assert_eq!(found.0.gpu_indices, vec![0]);
    assert_eq!(found.1, 3);
    assert_eq!((queries, sleeps), (3, 2));
    assert_eq!(state, WaitState::Succeeded);
}

#[test]
fn a_snapshot_without_devices_at_the_deadline_is_a_timeout() {
    for (elapsed, timed_out) in [(0u64, false), (9, false), (10, true), (11, true)] {
        let (state, action) = wait_step(
            &config(false, Some(10)),
            WaitState::Attempting { attempt: 2 },
            snapshot(vec![], elapsed),
        );
        match action {
            WaitAction::Fail { error } if timed_out => {
                assert_eq!(state, WaitState::TimedOut);
                assert_eq!(
                    error,
                    WaitError::Timeout {
                        elapsed_secs: elapsed,
                        last: SelectionError::NoDevicesDetected
                    }
                );
                assert_eq!(
                    error.message(),
                    format!("Timeout after {} seconds waiting for GPUs: No GPUs detected", elapsed)
                );
            }
            WaitAction::Fail { error } => {
                assert_eq!(state, WaitState::HardFailure);
                assert_eq!(error, WaitError::NoDevices);
            }
            _ => panic!("not failed"),
        }
    }
    let mut manual = config(true, Some(3));
    manual.manual_gpu_indices = Some(vec![4]);
    let (state, action) = wait_step(
        &manual,
        WaitState::Attempting { attempt: 1 },
        snapshot(vec![gpu(0, 0, 0)], 3),
    );
    assert_eq!(state, WaitState::TimedOut);
    assert!(matches!(
        action,
        WaitAction::Fail {
            error: WaitError::Timeout { elapsed_secs: 3, last: SelectionError::NoDevicesDetected }
        }
    ));
}

#[test]
fn a_deadline_of_zero_ends_the_wait_on_the_first_failed_attempt() {
    let failures = [
        (vec![], SelectionError::NoDevicesDetected),
        (
            vec![gpu(0, 9000, 1)],
            SelectionError::InsufficientCount { needed: 1, available: 0, idle_only: true },
        ),
    ];
    for (gpus, failure) in failures {
        let cfg = config(true, Some(0));
        let (mut state, mut action) = wait_start();
        let mut queries = 0;
        let mut sleeps = 0;
        let error = loop {
            match action {
                WaitAction::Query => {
                    queries += 1;
                    (state, action) = wait_step(&cfg, state, snapshot(gpus.clone(), 0));
                }
                WaitAction::Retry { .. } => {
                    sleeps += 1;
                    (state, action) = wait_step(&cfg, state, WaitEvent::Slept);
                }
                WaitAction::Fail { error } => break error,
                _ => panic!("unexpected action"),
            }
        };
        assert_eq!(error, WaitError::Timeout { elapsed_secs: 0, last: failure });
        assert_eq!(state, WaitState::TimedOut);
        assert_eq!((queries, sleeps), (1, 0));
    }
}
