//! Waiting for devices: the policy of the poll loop, one decision at a time.
//!
//! The caller owns the loop. It performs what the last step asked for (pull a
//! snapshot, sleep), reports what came of it as an event, and gets the next
//! state and the next thing to do. A selection that fails once the deadline
//! is reached ends the wait as a timeout, whatever the failure. Before that,
//! only a selection that found too few candidates is tried again; a snapshot
//! source that fails, or one that sees no device at all, ends the wait at
//! once.

use vstd::prelude::*;
use vstd::string::*;
use crate::selector::{
    candidate_gpus, idle_pred, indices_of, leading_indices, manual_candidates, manual_view,
    partition_gpus, select_gpus, select_spec, SelectionCriteria, SelectionError,
};
use crate::text::{decimal, push_decimal};
use crate::{GpuInfo, GpuSelection, GpuSelectionView};

verus! {

/// Seconds between two attempts.
pub const POLL_INTERVAL_SECS: u64 = 5;

/// What a wait is for.
pub struct WaitConfig {
    pub criteria: SelectionCriteria,
    /// Seconds after which a failed attempt ends the wait; `None` waits on.
    pub timeout_secs: Option<u64>,
    /// The devices that the user named, if any.
    pub manual_gpu_indices: Option<Vec<usize>>,
}

/// Where a wait stands.
#[derive(Debug, Clone, Copy, PartialEq, Eq)]
pub enum WaitState {
    /// A snapshot has been asked for; `attempt` counts from one.
    Attempting { attempt: u64 },
    /// The attempt failed and the poll sleep is under way.
    Retrying { attempt: u64 },
    Succeeded,
    TimedOut,
    HardFailure,
}

/// What the caller reports.
pub enum WaitEvent {
    /// A fresh snapshot, the live claims at that moment, and the seconds
    /// since the wait began.
    Snapshot { gpus: Vec<GpuInfo>, claims: Vec<(usize, u32)>, elapsed_secs: u64 },
    /// The snapshot source could not be queried.
    TelemetryFailed { reason: String },
    /// The poll sleep is over.
    Slept,
}

/// Why a wait ended without a selection.
#[derive(Debug, Clone, PartialEq, Eq)]
pub enum WaitError {
    /// The deadline passed; `last` is the failure of the final attempt.
    Timeout { elapsed_secs: u64, last: SelectionError },
    /// The snapshot source could not be queried.
    Telemetry { reason: String },
    /// The snapshot held no device to choose from.
    NoDevices,
}

impl WaitError {
    /// The text of `message`.
    pub open spec fn message_text(self) -> Seq<char> {
        match self {
            WaitError::Timeout { elapsed_secs, last } => "Timeout after "@ + decimal(
                elapsed_secs as nat,
            ) + " seconds waiting for GPUs: "@ + last.message_text(),
            WaitError::Telemetry { reason } => reason@,
            WaitError::NoDevices => "No GPUs detected"@,
        }
    }

    /// What to tell the user; a timeout names the seconds waited and the
    /// failure of the final attempt.
    pub fn message(&self) -> (text: String)
        ensures
            text@ == self.message_text(),
    {
        match self {
            WaitError::Timeout { elapsed_secs, last } => {
                let mut text = String::from_str("Timeout after ");
                push_decimal(&mut text, *elapsed_secs);
                text.append(" seconds waiting for GPUs: ");
                let reason = last.message();
                text.append(reason.as_str());
                text
            },
            WaitError::Telemetry { reason } => reason.clone(),
            WaitError::NoDevices => String::from_str("No GPUs detected"),
        }
    }
}

/// What a failed attempt looked like, for the caller to show.
#[derive(Debug, Clone, PartialEq, Eq)]
pub struct RetryReport {
    pub attempt: u64,
    pub elapsed_secs: u64,
    /// The devices under consideration, and how many of them are idle.
    pub candidate_count: usize,
    pub idle_count: usize,
    pub idle_indices: Vec<usize>,
}

/// What the caller is to do next.
pub enum WaitAction {
    /// Pull a snapshot and report it.
    Query,
    /// Sleep for `secs` seconds and report `Slept`.
    Retry { secs: u64, report: RetryReport },
    /// Done: claim `selection`, which was made among `candidates`.
    Finish { selection: GpuSelection, candidates: Vec<GpuInfo>, attempts: u64 },
    /// Done: give up with `error`.
    Fail { error: WaitError },
    /// The event is not one that the state waits for; nothing has changed.
    Ignore,
}

/// Whether a failed attempt after `elapsed_secs` seconds is the last one.
pub open spec fn deadline_reached(timeout_secs: Option<u64>, elapsed_secs: u64) -> bool {
    timeout_secs matches Some(limit) && elapsed_secs >= limit
}

/// The number of the attempt after `attempt`; the count stops at the largest
/// number it can hold.
pub open spec fn next_attempt(attempt: u64) -> u64 {
    if attempt < u64::MAX {
        (attempt + 1) as u64
    } else {
        attempt
    }
}

/// The step relation of the wait: `next` and `action` are what follows when
/// `event` arrives in `state`.
pub open spec fn wait_step_spec(
    config: WaitConfig,
    state: WaitState,
    event: WaitEvent,
    next: WaitState,
    action: WaitAction,
) -> bool {
    match (state, event) {
        (WaitState::Attempting { attempt }, WaitEvent::Snapshot { gpus, claims, elapsed_secs }) => {
            let pool = manual_candidates(gpus@, manual_view(config.manual_gpu_indices));
            match select_spec(pool, claims@, config.criteria) {
                Ok(chosen) => {
                    &&& next == WaitState::Succeeded
                    &&& action matches WaitAction::Finish { selection, candidates, attempts }
                    &&& selection@ == chosen
                    &&& candidates@ == pool
                    &&& attempts == attempt
                },
                Err(failure) => if deadline_reached(config.timeout_secs, elapsed_secs) {
                    &&& next == WaitState::TimedOut
                    &&& action matches WaitAction::Fail { error }
                    &&& error == (WaitError::Timeout { elapsed_secs, last: failure })
                } else if failure is NoDevicesDetected {
                    &&& next == WaitState::HardFailure
                    &&& action matches WaitAction::Fail { error }
                    &&& error == WaitError::NoDevices
                } else {
                    &&& next == (WaitState::Retrying { attempt })
                    &&& action matches WaitAction::Retry { secs, report }
                    &&& secs == POLL_INTERVAL_SECS
                    &&& report.attempt == attempt
                    &&& report.elapsed_secs == elapsed_secs
                    &&& report.candidate_count == pool.len()
                    &&& report.idle_count == pool.filter(idle_pred()).len()
                    &&& report.idle_indices@ == indices_of(pool.filter(idle_pred()))
                },
            }
        },
        (WaitState::Attempting { .. }, WaitEvent::TelemetryFailed { reason }) => {
            &&& next == WaitState::HardFailure
            &&& action matches WaitAction::Fail { error }
            &&& error matches WaitError::Telemetry { reason: told }
            &&& told@ == reason@
        },
        (WaitState::Retrying { attempt }, WaitEvent::Slept) => {
            &&& next == (WaitState::Attempting { attempt: next_attempt(attempt) })
            &&& action is Query
        },
        _ => next == state && action is Ignore,
    }
}

/// Whether `state` is one in which a wait has ended.
pub open spec fn is_over(state: WaitState) -> bool {
    state is Succeeded || state is TimedOut || state is HardFailure
}

/// A wait that has ended stays as it ended, whatever is reported to it.
pub proof fn lemma_ended_wait_stays(
    config: WaitConfig,
    state: WaitState,
    event: WaitEvent,
    next: WaitState,
    action: WaitAction,
)
    requires
        wait_step_spec(config, state, event, next, action),
        is_over(state),
    ensures
        next == state,
        action is Ignore,
{
}

/// A wait ends only on a snapshot or on the failure to get one. It times
/// out exactly where the selector fails with the deadline reached, whatever
/// the failure, and then hands that failure on. It fails hard exactly where
/// there is no snapshot, or no device in it and the deadline is not reached.
/// It succeeds only with the selection that the selector makes on the
/// snapshot.
pub proof fn lemma_wait_ends_for_cause(
    config: WaitConfig,
    state: WaitState,
    event: WaitEvent,
    next: WaitState,
    action: WaitAction,
)
    requires
        wait_step_spec(config, state, event, next, action),
        !is_over(state),
        is_over(next),
    ensures
        state is Attempting,
        event is Snapshot || event is TelemetryFailed,
        next is HardFailure <==> event is TelemetryFailed || (select_spec(
            manual_candidates(event->gpus@, manual_view(config.manual_gpu_indices)),
            event->claims@,
            config.criteria,
        ) == Err::<GpuSelectionView, SelectionError>(SelectionError::NoDevicesDetected)
            && !deadline_reached(config.timeout_secs, event->elapsed_secs)),
        next is TimedOut <==> event is Snapshot && deadline_reached(
            config.timeout_secs,
            event->elapsed_secs,
        ) && select_spec(
            manual_candidates(event->gpus@, manual_view(config.manual_gpu_indices)),
            event->claims@,
            config.criteria,
        ) is Err,
        next is TimedOut ==> {
            &&& event is Snapshot
            &&& deadline_reached(config.timeout_secs, event->elapsed_secs)
            &&& action matches WaitAction::Fail { error: WaitError::Timeout { elapsed_secs, last } }
            &&& elapsed_secs == event->elapsed_secs
            &&& select_spec(
                manual_candidates(event->gpus@, manual_view(config.manual_gpu_indices)),
                event->claims@,
                config.criteria,
            ) == Err::<GpuSelectionView, SelectionError>(last)
        },
        next is Succeeded ==> {
            &&& event is Snapshot
            &&& action matches WaitAction::Finish { selection, .. }
            &&& select_spec(
                manual_candidates(event->gpus@, manual_view(config.manual_gpu_indices)),
                event->claims@,
                config.criteria,
            ) == Ok::<GpuSelectionView, SelectionError>(selection@)
        },
{
}

/// How a wait begins: with the first attempt and a query for its snapshot.
pub fn wait_start() -> (step: (WaitState, WaitAction))
    ensures
        step.0 == (WaitState::Attempting { attempt: 1 }),
        step.1 is Query,
{
    (WaitState::Attempting { attempt: 1 }, WaitAction::Query)
}

/// Whether `state` is one that no event leaves.
pub fn wait_is_over(state: &WaitState) -> (over: bool)
    ensures
        over == is_over(*state),
{
    match state {
        WaitState::Succeeded | WaitState::TimedOut | WaitState::HardFailure => true,
        _ => false,
    }
}

/// One decision of the wait: what `event` leads to in `state`.
pub fn wait_step(config: &WaitConfig, state: WaitState, event: WaitEvent) -> (step: (
    WaitState,
    WaitAction,
))
    ensures
        wait_step_spec(*config, state, event, step.0, step.1),
{
    match state {
        WaitState::Attempting { attempt } => match event {
            WaitEvent::Snapshot { gpus, claims, elapsed_secs } => {
                let candidates = candidate_gpus(gpus.as_slice(), &config.manual_gpu_indices);
                match select_gpus(candidates.as_slice(), claims.as_slice(), &config.criteria) {
                    Ok(selection) => (
                        WaitState::Succeeded,
                        WaitAction::Finish { selection, candidates, attempts: attempt },
                    ),
                    Err(failure) => {
                        let expired = match config.timeout_secs {
                            Some(limit) => elapsed_secs >= limit,
                            None => false,
                        };
                        if expired {
                            (
                                WaitState::TimedOut,
                                WaitAction::Fail {
                                    error: WaitError::Timeout { elapsed_secs, last: failure },
                                },
                            )
                        } else if matches!(failure, SelectionError::NoDevicesDetected) {
                            (
                                WaitState::HardFailure,
                                WaitAction::Fail { error: WaitError::NoDevices },
                            )
                        } else {
                            let (idle, _used) = partition_gpus(candidates.as_slice());
                            let idle_indices = leading_indices(&idle, idle.len());
                            assert(idle@.take(idle@.len() as int) == idle@);
                            let report = RetryReport {
                                attempt,
                                elapsed_secs,
                                candidate_count: candidates.len(),
                                idle_count: idle.len(),
                                idle_indices,
                            };
                            (
                                WaitState::Retrying { attempt },
                                WaitAction::Retry { secs: POLL_INTERVAL_SECS, report },
                            )
                        }
                    },
                }
            },
            WaitEvent::TelemetryFailed { reason } => (
                WaitState::HardFailure,
                WaitAction::Fail { error: WaitError::Telemetry { reason } },
            ),
            WaitEvent::Slept => (state, WaitAction::Ignore),
        },
        WaitState::Retrying { attempt } => match event {
            WaitEvent::Slept => {
                let following = if attempt < u64::MAX {
                    attempt + 1
                } else {
                    attempt
                };
                (WaitState::Attempting { attempt: following }, WaitAction::Query)
            },
            _ => (state, WaitAction::Ignore),
        },
        _ => (state, WaitAction::Ignore),
    }
}

} // verus!
