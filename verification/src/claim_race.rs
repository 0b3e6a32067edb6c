//! Two instances claiming one device at once.
//!
//! Each claimant takes its steps in its own time; what one step asks of the
//! lock store is answered before anyone's next step. However the steps of two
//! claimants interleave on a device that no live process holds, one of them
//! gets the device and the other learns who did.
//!
//! The device may have a record that is corrupt or whose owner is gone. Both
//! claimants may read it and find it so; but a removal names the owner that
//! was read, and so never takes away the record that the other claimant has
//! put in its place by then.

use vstd::prelude::*;
use crate::lock_store::Store;
use crate::lockfile::{
    claim_record_owner, claim_step, is_pid_alive, lemma_claim_record_round_trip, ClaimErrorView,
    ClaimPhase, ClaimStepView, LookupPhase, ProbeOutcome, StoreReplyView,
};
use crate::text::{decimal, lemma_decimal_injective};

verus! {

/// A claim attempt in flight.
pub struct Claimant {
    pub pid: u32,
    pub phase: ClaimPhase,
    /// The reply to the request that led into `phase`.
    pub reply: Option<StoreReplyView>,
    /// How the attempt ended, once it has.
    pub result: Option<Result<(), ClaimErrorView>>,
}

impl Claimant {
    /// An attempt that has not begun.
    pub open spec fn new(pid: u32) -> Claimant {
        Claimant { pid, phase: ClaimPhase::Start, reply: None, result: None }
    }
}

/// One turn of a claimant on `gpu_index`: it takes its next step, and what
/// that step asks for the store answers at once. A claimant that is done
/// stays as it is.
pub open spec fn turn(store: Store, gpu_index: usize, claimant: Claimant) -> (Store, Claimant) {
    if claimant.result is Some {
        (store, claimant)
    } else {
        match claim_step(gpu_index, claimant.pid, claimant.phase, claimant.reply) {
            ClaimStepView::Done { result } => (
                store,
                Claimant { result: Some(result), ..claimant },
            ),
            ClaimStepView::Ask { phase, request } => (
                store.answer(request).0,
                Claimant { phase, reply: Some(store.answer(request).1), ..claimant },
            ),
        }
    }
}

/// The store and two claimants after the turns that `schedule` gives them,
/// `true` for a turn of the first and `false` for one of the second.
pub open spec fn run_schedule(
    store: Store,
    gpu_index: usize,
    first: Claimant,
    second: Claimant,
    schedule: Seq<bool>,
) -> (Store, Claimant, Claimant)
    decreases schedule.len(),
{
    if schedule.len() == 0 {
        (store, first, second)
    } else {
        let before = run_schedule(store, gpu_index, first, second, schedule.drop_last());
        if schedule.last() {
            (turn(before.0, gpu_index, before.1).0, turn(before.0, gpu_index, before.1).1, before.2)
        } else {
            (turn(before.0, gpu_index, before.2).0, before.1, turn(before.0, gpu_index, before.2).1)
        }
    }
}

/// Whether the record of `gpu_index` is the one written for `pid`.
pub open spec fn held_by(store: Store, gpu_index: usize, pid: u32) -> bool {
    store.records.contains_key(gpu_index) && store.records[gpu_index] == decimal(pid as nat)
}

/// Whether the record that the race began with is out of the way: the
/// device has no record, or that of one of the two claimants.
pub open spec fn cleared(store: Store, gpu_index: usize, first: u32, second: u32) -> bool {
    ||| !store.records.contains_key(gpu_index)
    ||| held_by(store, gpu_index, first)
    ||| held_by(store, gpu_index, second)
}

/// What is true of a claimant at every moment of a race against `rival`
/// for a device whose record, if it had one, named `stale`.
pub open spec fn in_step(
    store: Store,
    gpu_index: usize,
    claimant: Claimant,
    rival: u32,
    stale: Option<u32>,
) -> bool {
    match claimant.result {
        Some(Ok(())) => held_by(store, gpu_index, claimant.pid),
        Some(Err(error)) => {
            &&& error == (ClaimErrorView::AlreadyClaimed { gpu_index, pid: rival })
            &&& held_by(store, gpu_index, rival)
        },
        None => match claimant.phase {
            ClaimPhase::Start => true,
            ClaimPhase::EnsuringDir => claimant.reply == Some(StoreReplyView::DirReady),
            ClaimPhase::Checking { lookup: LookupPhase::Reading, retried } => {
                ||| {
                    &&& !retried
                    &&& claimant.reply == Some(StoreReplyView::NoRecord)
                    &&& cleared(store, gpu_index, claimant.pid, rival)
                }
                ||| {
                    &&& held_by(store, gpu_index, rival)
                    &&& claimant.reply == Some(
                        StoreReplyView::Record { contents: decimal(rival as nat) },
                    )
                }
                ||| {
                    &&& !retried
                    &&& claimant.reply matches Some(StoreReplyView::Record { contents })
                    &&& claim_record_owner(contents) == stale
                }
            },
            ClaimPhase::Checking { lookup: LookupPhase::Probing { pid }, retried } => {
                ||| {
                    &&& pid == rival
                    &&& held_by(store, gpu_index, rival)
                    &&& claimant.reply matches Some(StoreReplyView::Probed { outcome })
                    &&& is_pid_alive(outcome)
                }
                ||| {
                    &&& !retried
                    &&& stale == Some(pid)
                    &&& claimant.reply == Some(
                        StoreReplyView::Probed { outcome: ProbeOutcome::Gone },
                    )
                }
            },
            ClaimPhase::Checking { lookup: LookupPhase::Purging, retried } => {
                &&& !retried
                &&& cleared(store, gpu_index, claimant.pid, rival)
            },
            ClaimPhase::Checking { .. } => false,
            ClaimPhase::Creating { retried } => {
                &&& !retried
                &&& {
                    ||| {
                        &&& claimant.reply == Some(StoreReplyView::Created)
                        &&& held_by(store, gpu_index, claimant.pid)
                    }
                    ||| {
                        &&& claimant.reply matches Some(StoreReplyView::AlreadyExists { .. })
                        &&& held_by(store, gpu_index, rival)
                    }
                }
            },
        },
    }
}

/// Whether the claimant's create has gone through.
pub open spec fn has_created(claimant: Claimant) -> bool {
    ||| claimant.result == Some(Ok::<(), ClaimErrorView>(()))
    ||| {
        &&& claimant.result is None
        &&& claimant.phase == (ClaimPhase::Creating { retried: false })
        &&& claimant.reply == Some(StoreReplyView::Created)
    }
}

/// What is true at every moment of a race of two live processes for a
/// device that no live process held. `stale` is the owner that the device's
/// record named when the race began, if it had a record and that named one.
/// The record is the one that the race began with, or that of one of the
/// two claimants; each claimant is in step with it; and a claimant's record
/// is there only once its create has gone through.
pub open spec fn race_invariant(
    store: Store,
    gpu_index: usize,
    first: Claimant,
    second: Claimant,
    stale: Option<u32>,
) -> bool {
    &&& first.pid != second.pid
    &&& store.live.contains(first.pid)
    &&& store.live.contains(second.pid)
    &&& stale matches Some(owner) ==> !store.live.contains(owner)
    &&& cleared(store, gpu_index, first.pid, second.pid) || claim_record_owner(
        store.records[gpu_index],
    ) == stale
    &&& in_step(store, gpu_index, first, second.pid, stale)
    &&& in_step(store, gpu_index, second, first.pid, stale)
    &&& held_by(store, gpu_index, first.pid) ==> has_created(first)
    &&& held_by(store, gpu_index, second.pid) ==> has_created(second)
}

/// The owner that the record of `gpu_index` names, if there is a record and
/// it names one.
pub open spec fn named_owner(store: Store, gpu_index: usize) -> Option<u32> {
    if store.records.contains_key(gpu_index) {
        claim_record_owner(store.records[gpu_index])
    } else {
        None
    }
}

/// The end of an attempt that found `gpu_index` held by `winner`.
pub open spec fn refused(gpu_index: usize, winner: u32) -> Option<Result<(), ClaimErrorView>> {
    Some(Err(ClaimErrorView::AlreadyClaimed { gpu_index, pid: winner }))
}

proof fn lemma_records_differ(store: Store, gpu_index: usize, first: u32, second: u32)
    requires
        first != second,
    ensures
        !(held_by(store, gpu_index, first) && held_by(store, gpu_index, second)),
{
    if decimal(first as nat) == decimal(second as nat) {
        lemma_decimal_injective(first as nat, second as nat);
    }
}

/// A turn of either claimant keeps the race invariant.
pub proof fn lemma_turn_keeps_invariant(
    store: Store,
    gpu_index: usize,
    mover: Claimant,
    other: Claimant,
    stale: Option<u32>,
)
    requires
        race_invariant(store, gpu_index, mover, other, stale),
    ensures
        race_invariant(
            turn(store, gpu_index, mover).0,
            gpu_index,
            turn(store, gpu_index, mover).1,
            other,
            stale,
        ),
        race_invariant(
            turn(store, gpu_index, mover).0,
            gpu_index,
            other,
            turn(store, gpu_index, mover).1,
            stale,
        ),
{
    lemma_claim_record_round_trip(other.pid);
    lemma_records_differ(turn(store, gpu_index, mover).0, gpu_index, mover.pid, other.pid);
}

/// The race invariant holds throughout every schedule.
pub proof fn lemma_schedule_keeps_invariant(
    store: Store,
    gpu_index: usize,
    first: Claimant,
    second: Claimant,
    stale: Option<u32>,
    schedule: Seq<bool>,
)
    requires
        race_invariant(store, gpu_index, first, second, stale),
    ensures
        race_invariant(
            run_schedule(store, gpu_index, first, second, schedule).0,
            gpu_index,
            run_schedule(store, gpu_index, first, second, schedule).1,
            run_schedule(store, gpu_index, first, second, schedule).2,
            stale,
        ),
    decreases schedule.len(),
{
    if schedule.len() > 0 {
        lemma_schedule_keeps_invariant(
            store,
            gpu_index,
            first,
            second,
            stale,
            schedule.drop_last(),
        );
        let before = run_schedule(store, gpu_index, first, second, schedule.drop_last());
        if schedule.last() {
            lemma_turn_keeps_invariant(before.0, gpu_index, before.1, before.2, stale);
        } else {
            lemma_turn_keeps_invariant(before.0, gpu_index, before.2, before.1, stale);
        }
    }
}

/// Two live processes claim a device that no live process holds, whether it
/// has no record, a corrupt one or one whose owner is gone; their steps
/// interleave in any way. Once both are done, exactly one of them has
/// succeeded, the record is the winner's, and the other was refused with the
/// winner's process id.
pub proof fn lemma_concurrent_claims_exclusive(
    store: Store,
    gpu_index: usize,
    first: u32,
    second: u32,
    schedule: Seq<bool>,
)
    requires
        store.holder(gpu_index) is None,
        store.live.contains(first),
        store.live.contains(second),
        first != second,
    ensures
        ({
            let end = run_schedule(
                store,
                gpu_index,
                Claimant::new(first),
                Claimant::new(second),
                schedule,
            );
            end.1.result is Some && end.2.result is Some ==> {
                ||| {
                    &&& end.1.result == Some(Ok::<(), ClaimErrorView>(()))
                    &&& end.2.result == refused(gpu_index, first)
                    &&& held_by(end.0, gpu_index, first)
                }
                ||| {
                    &&& end.2.result == Some(Ok::<(), ClaimErrorView>(()))
                    &&& end.1.result == refused(gpu_index, second)
                    &&& held_by(end.0, gpu_index, second)
                }
            }
        }),
{
    let a = Claimant::new(first);
    let b = Claimant::new(second);
    lemma_race_begins(store, gpu_index, first, second);
    lemma_schedule_keeps_invariant(store, gpu_index, a, b, named_owner(store, gpu_index), schedule);
    let end = run_schedule(store, gpu_index, a, b, schedule);
    lemma_schedule_pids(store, gpu_index, a, b, schedule);
    lemma_records_differ(end.0, gpu_index, first, second);
}

/// The race invariant holds when two live processes set out to claim a
/// device that no live process holds.
pub proof fn lemma_race_begins(store: Store, gpu_index: usize, first: u32, second: u32)
    requires
        store.holder(gpu_index) is None,
        store.live.contains(first),
        store.live.contains(second),
        first != second,
    ensures
        race_invariant(
            store,
            gpu_index,
            Claimant::new(first),
            Claimant::new(second),
            named_owner(store, gpu_index),
        ),
{
    lemma_claim_record_round_trip(first);
    lemma_claim_record_round_trip(second);
}

/// How many turns `schedule` gives to the first claimant (`who` true) or to
/// the second.
pub open spec fn turns_of(schedule: Seq<bool>, who: bool) -> nat
    decreases schedule.len(),
{
    if schedule.len() == 0 {
        0
    } else if schedule.last() == who {
        turns_of(schedule.drop_last(), who) + 1
    } else {
        turns_of(schedule.drop_last(), who)
    }
}

/// A bound on the turns that a claimant in a race still needs. The longest
/// way leads over a stale record and a lost create: make sure of the
/// directory, read, probe, remove, create, read again, probe again.
pub open spec fn turns_left(claimant: Claimant) -> nat {
    if claimant.result is Some {
        0
    } else {
        match claimant.phase {
            ClaimPhase::Start => 8,
            ClaimPhase::EnsuringDir => 7,
            ClaimPhase::Checking { lookup: LookupPhase::Reading, retried } => if retried {
                2
            } else if claimant.reply == Some(StoreReplyView::NoRecord) {
                4
            } else {
                6
            },
            ClaimPhase::Checking { lookup: LookupPhase::Probing { .. }, .. } => if claimant.reply
                == Some(StoreReplyView::Probed { outcome: ProbeOutcome::Gone }) {
                5
            } else {
                1
            },
            ClaimPhase::Checking { .. } => 4,
            ClaimPhase::Creating { .. } => if claimant.reply == Some(StoreReplyView::Created) {
                1
            } else {
                3
            },
        }
    }
}

/// Every turn brings a claimant in a race closer to its end.
pub proof fn lemma_turn_makes_progress(
    store: Store,
    gpu_index: usize,
    mover: Claimant,
    other: Claimant,
    stale: Option<u32>,
)
    requires
        race_invariant(store, gpu_index, mover, other, stale),
        mover.result is None,
    ensures
        turns_left(turn(store, gpu_index, mover).1) < turns_left(mover),
{
    lemma_claim_record_round_trip(other.pid);
}

proof fn lemma_schedule_makes_progress(
    store: Store,
    gpu_index: usize,
    first: Claimant,
    second: Claimant,
    stale: Option<u32>,
    schedule: Seq<bool>,
)
    requires
        race_invariant(store, gpu_index, first, second, stale),
    ensures
        ({
            let end = run_schedule(store, gpu_index, first, second, schedule);
            &&& turns_left(end.1) + turns_of(schedule, true) <= turns_left(first) || turns_left(
                end.1,
            ) == 0
            &&& turns_left(end.2) + turns_of(schedule, false) <= turns_left(second) || turns_left(
                end.2,
            ) == 0
        }),
    decreases schedule.len(),
{
    if schedule.len() > 0 {
        let earlier = schedule.drop_last();
        lemma_schedule_makes_progress(store, gpu_index, first, second, stale, earlier);
        lemma_schedule_keeps_invariant(store, gpu_index, first, second, stale, earlier);
        let before = run_schedule(store, gpu_index, first, second, earlier);
        if schedule.last() {
            if before.1.result is None {
                lemma_turn_makes_progress(before.0, gpu_index, before.1, before.2, stale);
            }
        } else {
            if before.2.result is None {
                lemma_turn_makes_progress(before.0, gpu_index, before.2, before.1, stale);
            }
        }
    }
}

/// Two live processes claim a device that no live process holds. Whatever
/// the order of their steps, a claimant is done after eight turns of its
/// own; and once both are done, exactly one of them has the device.
pub proof fn lemma_claim_race_decided(
    store: Store,
    gpu_index: usize,
    first: u32,
    second: u32,
    schedule: Seq<bool>,
)
    requires
        store.holder(gpu_index) is None,
        store.live.contains(first),
        store.live.contains(second),
        first != second,
        turns_of(schedule, true) >= 8,
        turns_of(schedule, false) >= 8,
    ensures
        ({
            let end = run_schedule(
                store,
                gpu_index,
                Claimant::new(first),
                Claimant::new(second),
                schedule,
            );
            ||| {
                &&& end.1.result == Some(Ok::<(), ClaimErrorView>(()))
                &&& end.2.result == refused(gpu_index, first)
                &&& held_by(end.0, gpu_index, first)
            }
            ||| {
                &&& end.2.result == Some(Ok::<(), ClaimErrorView>(()))
                &&& end.1.result == refused(gpu_index, second)
                &&& held_by(end.0, gpu_index, second)
            }
        }),
{
    let a = Claimant::new(first);
    let b = Claimant::new(second);
    lemma_race_begins(store, gpu_index, first, second);
    lemma_schedule_makes_progress(store, gpu_index, a, b, named_owner(store, gpu_index), schedule);
    lemma_concurrent_claims_exclusive(store, gpu_index, first, second, schedule);
}

proof fn lemma_schedule_pids(
    store: Store,
    gpu_index: usize,
    first: Claimant,
    second: Claimant,
    schedule: Seq<bool>,
)
    ensures
        run_schedule(store, gpu_index, first, second, schedule).1.pid == first.pid,
        run_schedule(store, gpu_index, first, second, schedule).2.pid == second.pid,
    decreases schedule.len(),
{
    if schedule.len() > 0 {
        lemma_schedule_pids(store, gpu_index, first, second, schedule.drop_last());
    }
}

} // verus!
