//! A model of the lock store, and what the registry's protocols come to
//! when they run against it.
//!
//! The model holds the records by device and the names that its directory
//! lists, and knows which processes are alive. It answers every request as a
//! store that never fails. Run against it without interruption, a lookup is
//! one liveness-checked read, a claim is that read followed by one exclusive
//! create, and a listing is a lookup of each device that it is about.

use vstd::prelude::*;
use crate::lockfile::{
    claim_record_owner, claim_step, distinct_devices, first_owner, is_claimed,
    is_strictly_ascending, lemma_claim_record_round_trip, lemma_first_owner,
    lemma_first_owner_member, lemma_lock_file_name_round_trip, lemma_lock_file_names_differ,
    lemma_sorted_claims, lemma_sorted_claims_members, lemma_sorted_claims_strict, list_advance,
    list_step, lock_file_indices, lock_file_name, lookup_step, sorted_claims, with_found,
    ClaimErrorView, ClaimPhase, ClaimStepView, ListPhaseView, ListStage, ListStepView,
    LookupPhase, LookupStep, ProbeOutcome, StoreReplyView, StoreRequest,
};
use crate::selector::{
    chosen_devices, indices_of, lemma_selection_sound, select_spec, SelectionCriteria,
};
use crate::text::decimal;
use crate::GpuInfo;

verus! {

/// The lock store and the processes around it.
pub struct Store {
    /// The contents of each device's lock file, where there is one.
    pub records: Map<usize, Seq<char>>,
    /// The names that the lock directory lists, in the order in which it
    /// lists them. There may be names among them that are no lock file's.
    pub names: Seq<Seq<char>>,
    /// The processes that exist.
    pub live: Set<u32>,
    /// Those among them that may not be signalled.
    pub foreign: Set<u32>,
}

/// The names other than the lock file's of `gpu_index`.
pub open spec fn other_names(gpu_index: usize) -> spec_fn(Seq<char>) -> bool {
    |name: Seq<char>| name != lock_file_name(gpu_index)
}

/// Whether every one of `claims` names the live holder of its device.
pub open spec fn truthful(store: Store, claims: Seq<(usize, u32)>) -> bool {
    forall|k: int|
        0 <= k < claims.len() ==> store.holder((#[trigger] claims[k]).0) == Some(claims[k].1)
}

impl Store {
    /// Whether the directory lists the lock file of every device that has a
    /// record.
    pub open spec fn lists_records(self) -> bool {
        forall|gpu_index: usize| #[trigger]
            self.records.contains_key(gpu_index) ==> self.names.contains(
                lock_file_name(gpu_index),
            )
    }

    /// The store without the lock file of `gpu_index`.
    pub open spec fn without(self, gpu_index: usize) -> Store {
        Store {
            records: self.records.remove(gpu_index),
            names: self.names.filter(other_names(gpu_index)),
            ..self
        }
    }

    /// The store with a lock file for `gpu_index` that names `pid`.
    pub open spec fn with_claim(self, gpu_index: usize, pid: u32) -> Store {
        Store {
            records: self.records.insert(gpu_index, decimal(pid as nat)),
            names: if self.names.contains(lock_file_name(gpu_index)) {
                self.names
            } else {
                self.names.push(lock_file_name(gpu_index))
            },
            ..self
        }
    }

    /// The live process that the record of `gpu_index` names, if there is one.
    pub open spec fn holder(self, gpu_index: usize) -> Option<u32> {
        if self.records.contains_key(gpu_index) {
            match claim_record_owner(self.records[gpu_index]) {
                Some(pid) => if self.live.contains(pid) {
                    Some(pid)
                } else {
                    None
                },
                None => None,
            }
        } else {
            None
        }
    }

    /// What probing `pid` comes to.
    pub open spec fn probe(self, pid: u32) -> ProbeOutcome {
        if !self.live.contains(pid) {
            ProbeOutcome::Gone
        } else if self.foreign.contains(pid) {
            ProbeOutcome::Denied
        } else {
            ProbeOutcome::Reachable
        }
    }

    /// The store after `request`, and its reply. A record is removed only if
    /// it names the owner that the request names, and created only if there
    /// is none.
    pub open spec fn answer(self, request: StoreRequest) -> (Store, StoreReplyView) {
        match request {
            StoreRequest::EnsureDir => (self, StoreReplyView::DirReady),
            StoreRequest::ReadRecord { gpu_index } => if self.records.contains_key(gpu_index) {
                (self, StoreReplyView::Record { contents: self.records[gpu_index] })
            } else {
                (self, StoreReplyView::NoRecord)
            },
            StoreRequest::ProbeOwner { pid } => (
                self,
                StoreReplyView::Probed { outcome: self.probe(pid) },
            ),
            StoreRequest::RemoveRecord { gpu_index, owner } => if self.records.contains_key(
                gpu_index,
            ) && claim_record_owner(self.records[gpu_index]) == owner {
                (self.without(gpu_index), StoreReplyView::Removed)
            } else {
                (self, StoreReplyView::Removed)
            },
            StoreRequest::CreateRecord { gpu_index, pid } => if self.records.contains_key(
                gpu_index,
            ) {
                (self, StoreReplyView::AlreadyExists { reason: Seq::empty() })
            } else {
                (self.with_claim(gpu_index, pid), StoreReplyView::Created)
            },
            StoreRequest::ListRecords => (self, StoreReplyView::Names { names: self.names }),
        }
    }

    /// A lookup as one step: the live holder of `gpu_index`, and the store
    /// without the record if there is one that names no live process.
    pub open spec fn lookup(self, gpu_index: usize) -> (Store, Option<u32>) {
        if self.holder(gpu_index) is None && self.records.contains_key(gpu_index) {
            (self.without(gpu_index), None)
        } else {
            (self, self.holder(gpu_index))
        }
    }

    /// A claim as one step: a lookup, and unless that finds a live holder
    /// the claimant's record in place of whatever record there was.
    pub open spec fn claim(self, gpu_index: usize, pid: u32) -> (
        Store,
        Result<(), ClaimErrorView>,
    ) {
        match self.holder(gpu_index) {
            Some(owner) => (self, Err(ClaimErrorView::AlreadyClaimed { gpu_index, pid: owner })),
            None => (self.lookup(gpu_index).0.with_claim(gpu_index, pid), Ok(())),
        }
    }

    /// The claims that a listing holds once it has looked up `devices`,
    /// beginning with `found`: one for each device that a live process
    /// holds, in the order in which the devices first occur.
    pub open spec fn gather(self, found: Seq<(usize, u32)>, devices: Seq<usize>) -> Seq<
        (usize, u32),
    >
        decreases devices.len(),
    {
        if devices.len() == 0 {
            found
        } else {
            self.gather(
                with_found(found, devices[0], self.holder(devices[0])),
                devices.skip(1),
            )
        }
    }

    /// The live claims on `devices`, by ascending device index.
    pub open spec fn live_claims(self, devices: Seq<usize>) -> Seq<(usize, u32)> {
        sorted_claims(self.gather(Seq::empty(), devices))
    }

    /// The store after a lookup of each of `devices`: without the records
    /// among theirs that name no live process.
    pub open spec fn purged(self, devices: Seq<usize>) -> Store
        decreases devices.len(),
    {
        if devices.len() == 0 {
            self
        } else {
            self.lookup(devices[0]).0.purged(devices.skip(1))
        }
    }
}

/// The lookup protocol run against the model: each request is answered by
/// the store, until the lookup is done or `fuel` requests have been made.
pub open spec fn run_lookup(
    store: Store,
    gpu_index: usize,
    phase: LookupPhase,
    reply: Option<StoreReplyView>,
    fuel: nat,
) -> (Store, Option<Option<u32>>)
    decreases fuel,
{
    match lookup_step(gpu_index, phase, reply) {
        LookupStep::Done { claim } => (store, Some(claim)),
        LookupStep::Ask { phase, request } => if fuel == 0 {
            (store, None)
        } else {
            run_lookup(
                store.answer(request).0,
                gpu_index,
                phase,
                Some(store.answer(request).1),
                (fuel - 1) as nat,
            )
        },
    }
}

/// The claim protocol run against the model, in the same way.
pub open spec fn run_claim(
    store: Store,
    gpu_index: usize,
    own_pid: u32,
    phase: ClaimPhase,
    reply: Option<StoreReplyView>,
    fuel: nat,
) -> (Store, Option<Result<(), ClaimErrorView>>)
    decreases fuel,
{
    match claim_step(gpu_index, own_pid, phase, reply) {
        ClaimStepView::Done { result } => (store, Some(result)),
        ClaimStepView::Ask { phase, request } => if fuel == 0 {
            (store, None)
        } else {
            run_claim(
                store.answer(request).0,
                gpu_index,
                own_pid,
                phase,
                Some(store.answer(request).1),
                (fuel - 1) as nat,
            )
        },
    }
}

/// The listing protocol run against the model, in the same way, from the
/// step it has come to.
pub open spec fn run_list(store: Store, step: ListStepView, fuel: nat) -> (
    Store,
    Option<Seq<(usize, u32)>>,
)
    decreases fuel,
{
    match step {
        ListStepView::Done { claims } => (store, Some(claims)),
        ListStepView::Ask { phase, request } => if fuel == 0 {
            (store, None)
        } else {
            run_list(
                store.answer(request).0,
                list_step(phase, Some(store.answer(request).1)),
                (fuel - 1) as nat,
            )
        },
    }
}

/// The phase in which a listing of the directory begins.
pub open spec fn listing_begins() -> ListPhaseView {
    ListPhaseView { stage: ListStage::Start, pending: Seq::empty(), found: Seq::empty() }
}

/// A lookup that runs without interruption makes at most three requests,
/// and comes to what `Store::lookup` says.
pub proof fn lemma_lookup_runs(store: Store, gpu_index: usize, fuel: nat)
    requires
        fuel >= 3,
    ensures
        run_lookup(store, gpu_index, LookupPhase::Start, None, fuel) == (
            store.lookup(gpu_index).0,
            Some(store.lookup(gpu_index).1),
        ),
{
    reveal_with_fuel(run_lookup, 4);
}

/// A claim that runs without interruption makes at most five requests, and
/// comes to what `Store::claim` says.
pub proof fn lemma_claim_runs(store: Store, gpu_index: usize, own_pid: u32, fuel: nat)
    requires
        fuel >= 5,
    ensures
        run_claim(store, gpu_index, own_pid, ClaimPhase::Start, None, fuel) == (
            store.claim(gpu_index, own_pid).0,
            Some(store.claim(gpu_index, own_pid).1),
        ),
{
    reveal_with_fuel(run_claim, 6);
}

/// A lookup changes nothing about who holds which device.
pub proof fn lemma_lookup_keeps_holders(store: Store, looked_up: usize, gpu_index: usize)
    ensures
        store.lookup(looked_up).0.holder(gpu_index) == store.holder(gpu_index),
{
}

/// What a listing gathers is the same after a lookup as before.
pub proof fn lemma_lookup_keeps_claims(
    store: Store,
    looked_up: usize,
    found: Seq<(usize, u32)>,
    devices: Seq<usize>,
)
    ensures
        store.lookup(looked_up).0.gather(found, devices) == store.gather(found, devices),
    decreases devices.len(),
{
    if devices.len() > 0 {
        lemma_lookup_keeps_claims(
            store,
            looked_up,
            with_found(found, devices[0], store.holder(devices[0])),
            devices.skip(1),
        );
    }
}

/// A listing that runs without interruption makes at most three requests
/// for each device that is left to look up, returns what it found and what
/// it gathers from those devices by device, and leaves the store without
/// their records that name no live process.
pub proof fn lemma_list_runs(
    store: Store,
    devices: Seq<usize>,
    found: Seq<(usize, u32)>,
    fuel: nat,
)
    requires
        fuel >= 3 * devices.len(),
    ensures
        run_list(store, list_advance(devices, found), fuel) == (
            store.purged(devices),
            Some(sorted_claims(store.gather(found, devices))),
        ),
    decreases devices.len(),
{
    reveal_with_fuel(run_list, 4);
    if devices.len() > 0 {
        let gpu_index = devices[0];
        let rest = devices.skip(1);
        let after = store.lookup(gpu_index).0;
        let found_after = with_found(found, gpu_index, store.holder(gpu_index));
        lemma_lookup_keeps_claims(store, gpu_index, found_after, rest);
        if !store.records.contains_key(gpu_index) {
            lemma_list_runs(after, rest, found_after, (fuel - 1) as nat);
        } else {
            match claim_record_owner(store.records[gpu_index]) {
                Some(pid) => {
                    if store.live.contains(pid) {
                        lemma_list_runs(after, rest, found_after, (fuel - 2) as nat);
                    } else {
                        lemma_list_runs(after, rest, found_after, (fuel - 3) as nat);
                    }
                },
                None => {
                    lemma_list_runs(after, rest, found_after, (fuel - 2) as nat);
                },
            }
        }
    }
}

/// A listing of the claims on given devices that runs without interruption
/// returns the live claims on them and purges their other records.
pub proof fn lemma_device_listing_runs(store: Store, devices: Seq<usize>, fuel: nat)
    requires
        fuel >= 3 * devices.len(),
    ensures
        run_list(
            store,
            list_step(
                ListPhaseView { stage: ListStage::Given, pending: devices, found: Seq::empty() },
                None,
            ),
            fuel,
        ) == (store.purged(devices), Some(store.live_claims(devices))),
{
    lemma_list_runs(store, devices, Seq::empty(), fuel);
}

/// A listing of the directory that runs without interruption reads the
/// names, and is then a listing of the claims on the devices that the names
/// stand for.
pub proof fn lemma_directory_listing_runs(store: Store, fuel: nat)
    requires
        fuel >= 3 * lock_file_indices(store.names).len() + 1,
    ensures
        run_list(store, list_step(listing_begins(), None), fuel) == (
            store.purged(lock_file_indices(store.names)),
            Some(store.live_claims(lock_file_indices(store.names))),
        ),
{
    reveal_with_fuel(run_list, 2);
    lemma_list_runs(store, lock_file_indices(store.names), Seq::empty(), (fuel - 1) as nat);
}

/// A device is among those that a directory listing stands for if its lock
/// file's name is listed.
pub proof fn lemma_listed_name_is_looked_up(names: Seq<Seq<char>>, gpu_index: usize)
    requires
        names.contains(lock_file_name(gpu_index)),
    ensures
        lock_file_indices(names).contains(gpu_index),
    decreases names.len(),
{
    lemma_lock_file_name_round_trip(gpu_index);
    let front = lock_file_indices(names.drop_last());
    if names.last() == lock_file_name(gpu_index) {
        assert(front.push(gpu_index).last() == gpu_index);
    } else {
        let k = choose|k: int| 0 <= k < names.len() && names[k] == lock_file_name(gpu_index);
        assert(names.drop_last()[k] == lock_file_name(gpu_index));
        lemma_listed_name_is_looked_up(names.drop_last(), gpu_index);
        let m = choose|m: int| 0 <= m < front.len() && front[m] == gpu_index;
        assert(lock_file_indices(names)[m] == gpu_index);
    }
}

/// What one lookup adds to the claims found: the device counts as claimed
/// afterwards if it did before or a live process holds it, no device is
/// there twice, and every claim names the holder of its device.
pub proof fn lemma_with_found(
    store: Store,
    found: Seq<(usize, u32)>,
    looked_up: usize,
    gpu_index: usize,
)
    ensures
        is_claimed(with_found(found, looked_up, store.holder(looked_up)), gpu_index)
            <==> is_claimed(found, gpu_index) || (looked_up == gpu_index && store.holder(
            gpu_index,
        ) is Some),
        distinct_devices(found) ==> distinct_devices(
            with_found(found, looked_up, store.holder(looked_up)),
        ),
        truthful(store, found) ==> truthful(
            store,
            with_found(found, looked_up, store.holder(looked_up)),
        ),
{
    let after = with_found(found, looked_up, store.holder(looked_up));
    if store.holder(looked_up) is Some && !is_claimed(found, looked_up) {
        let claim = (looked_up, store.holder(looked_up)->Some_0);
        assert(after == found.push(claim));
        assert(after[found.len() as int].0 == looked_up);
        if is_claimed(found, gpu_index) {
            let k = choose|k: int| 0 <= k < found.len() && (#[trigger] found[k]).0 == gpu_index;
            assert(after[k].0 == gpu_index);
        }
        if is_claimed(after, gpu_index) {
            let k = choose|k: int| 0 <= k < after.len() && (#[trigger] after[k]).0 == gpu_index;
            if k < found.len() {
                assert(found[k].0 == gpu_index);
            }
        }
        if distinct_devices(found) {
            assert forall|i: int, j: int| 0 <= i < j < after.len() implies after[i].0
                != after[j].0 by {
                if j == found.len() {
                    assert(found[i].0 != looked_up);
                } else {
                    assert(after[i] == found[i] && after[j] == found[j]);
                }
            }
        }
        if truthful(store, found) {
            assert forall|k: int| 0 <= k < after.len() implies store.holder(
                (#[trigger] after[k]).0,
            ) == Some(after[k].1) by {
                if k < found.len() {
                    assert(after[k] == found[k]);
                }
            }
        }
    }
}

/// What a listing gathers: a device counts as claimed if it did before or it
/// is looked up and a live process holds it; no device is there twice; and
/// every claim names the holder of its device.
pub proof fn lemma_gathered(
    store: Store,
    found: Seq<(usize, u32)>,
    devices: Seq<usize>,
    gpu_index: usize,
)
    ensures
        is_claimed(store.gather(found, devices), gpu_index) <==> is_claimed(found, gpu_index) || (
        devices.contains(gpu_index) && store.holder(gpu_index) is Some),
        distinct_devices(found) ==> distinct_devices(store.gather(found, devices)),
        truthful(store, found) ==> truthful(store, store.gather(found, devices)),
    decreases devices.len(),
{
    if devices.len() > 0 {
        let rest = devices.skip(1);
        lemma_with_found(store, found, devices[0], gpu_index);
        lemma_gathered(
            store,
            with_found(found, devices[0], store.holder(devices[0])),
            rest,
            gpu_index,
        );
        if rest.contains(gpu_index) {
            let m = choose|m: int| 0 <= m < rest.len() && rest[m] == gpu_index;
            assert(devices[m + 1] == gpu_index);
        }
        if devices.contains(gpu_index) && devices[0] != gpu_index {
            let m = choose|m: int| 0 <= m < devices.len() && devices[m] == gpu_index;
            assert(rest[m - 1] == gpu_index);
        }
    }
}

/// What a listing of the claims on given devices shows. It is in strictly
/// ascending order of device index, so no device is there twice. A device
/// counts as claimed exactly when it is one of those looked up and a live
/// process holds it; and the owner shown for it is that process. So a record
/// whose owner has terminated leaves its device available.
pub proof fn lemma_listed_claims(store: Store, devices: Seq<usize>, gpu_index: usize)
    ensures
        is_strictly_ascending(store.live_claims(devices)),
        is_claimed(store.live_claims(devices), gpu_index) <==> devices.contains(gpu_index)
            && store.holder(gpu_index) is Some,
        first_owner(store.live_claims(devices), gpu_index) == if devices.contains(gpu_index) {
            store.holder(gpu_index)
        } else {
            None
        },
{
    let gathered = store.gather(Seq::empty(), devices);
    let listing = store.live_claims(devices);
    lemma_gathered(store, Seq::empty(), devices, gpu_index);
    lemma_sorted_claims_strict(gathered);
    lemma_sorted_claims_members(gathered, gpu_index);
    lemma_first_owner(listing, gpu_index);
    if first_owner(listing, gpu_index) is Some {
        let claim = (gpu_index, first_owner(listing, gpu_index)->Some_0);
        lemma_first_owner_member(listing, gpu_index);
        lemma_sorted_claims(gathered);
        vstd::seq_lib::to_multiset_contains(listing, claim);
        vstd::seq_lib::to_multiset_contains(gathered, claim);
        let k = choose|k: int| 0 <= k < gathered.len() && gathered[k] == claim;
        assert(store.holder(gathered[k].0) == Some(gathered[k].1));
    }
}

/// What a listing of the directory shows, where the directory lists the lock
/// file of every device that has a record: for every device the live
/// process that holds it, and for no other device anything.
pub proof fn lemma_directory_listing(store: Store, gpu_index: usize)
    requires
        store.lists_records(),
    ensures
        first_owner(store.live_claims(lock_file_indices(store.names)), gpu_index) == store.holder(
            gpu_index,
        ),
        is_strictly_ascending(store.live_claims(lock_file_indices(store.names))),
{
    let devices = lock_file_indices(store.names);
    lemma_listed_claims(store, devices, gpu_index);
    if store.holder(gpu_index) is Some {
        assert(store.records.contains_key(gpu_index));
        lemma_listed_name_is_looked_up(store.names, gpu_index);
    }
}

/// Whatever is asked of a store whose directory lists the lock file of every
/// device that has a record, it does so afterwards.
pub proof fn lemma_answer_keeps_listing(store: Store, request: StoreRequest)
    requires
        store.lists_records(),
    ensures
        store.answer(request).0.lists_records(),
{
    let after = store.answer(request).0;
    assert forall|gpu_index: usize| #[trigger]
        after.records.contains_key(gpu_index) implies after.names.contains(
        lock_file_name(gpu_index),
    ) by {
        let name = lock_file_name(gpu_index);
        match request {
            StoreRequest::RemoveRecord { gpu_index: removed, .. } => {
                if after != store {
                    assert(store.records.contains_key(gpu_index));
                    if name == lock_file_name(removed) {
                        lemma_lock_file_names_differ(gpu_index, removed);
                    }
                }
            },
            StoreRequest::CreateRecord { gpu_index: created, .. } => {
                if after != store {
                    if gpu_index == created {
                        if !store.names.contains(name) {
                            assert(store.names.push(name).last() == name);
                        }
                    } else {
                        assert(store.records.contains_key(gpu_index));
                        let k = choose|k: int| 0 <= k < store.names.len() && store.names[k] == name;
                        assert(after.names[k] == name);
                    }
                }
            },
            _ => {},
        }
    }
}

/// Lookups leave a device with the holder it had; with the record it had if
/// a live process held it; and without a record if it had none, or if they
/// looked it up and no live process held it.
pub proof fn lemma_purged_record(store: Store, devices: Seq<usize>, gpu_index: usize)
    ensures
        store.purged(devices).holder(gpu_index) == store.holder(gpu_index),
        store.holder(gpu_index) is Some ==> store.purged(devices).records.contains_key(gpu_index)
            && store.purged(devices).records[gpu_index] == store.records[gpu_index],
        store.holder(gpu_index) is None && (devices.contains(gpu_index)
            || !store.records.contains_key(gpu_index)) ==> !store.purged(
            devices,
        ).records.contains_key(gpu_index),
    decreases devices.len(),
{
    if devices.len() > 0 {
        let after = store.lookup(devices[0]).0;
        lemma_purged_record(after, devices.skip(1), gpu_index);
        if devices.contains(gpu_index) && devices[0] != gpu_index {
            let m = choose|m: int| 0 <= m < devices.len() && devices[m] == gpu_index;
            assert(devices.skip(1)[m - 1] == gpu_index);
        }
    }
}

/// A record whose owner has terminated does not stand in the way: a lookup
/// finds the device free and removes the record, a listing shows the device
/// as available, and a claim succeeds and puts the claimant's record in the
/// record's place.
pub proof fn lemma_stale_claim_reclaimed(
    store: Store,
    gpu_index: usize,
    claimant: u32,
    devices: Seq<usize>,
)
    requires
        store.records.contains_key(gpu_index),
        claim_record_owner(store.records[gpu_index]) matches Some(owner) ==> !store.live.contains(
            owner,
        ),
    ensures
        store.lookup(gpu_index).1 is None,
        !store.lookup(gpu_index).0.records.contains_key(gpu_index),
        run_lookup(store, gpu_index, LookupPhase::Start, None, 3) == (
            store.lookup(gpu_index).0,
            Some(None::<u32>),
        ),
        !is_claimed(store.live_claims(devices), gpu_index),
        devices.contains(gpu_index) ==> !store.purged(devices).records.contains_key(gpu_index),
        store.claim(gpu_index, claimant).1 is Ok,
        store.claim(gpu_index, claimant).0.records[gpu_index] == decimal(claimant as nat),
        run_claim(store, gpu_index, claimant, ClaimPhase::Start, None, 5) == (
            store.claim(gpu_index, claimant).0,
            Some(Ok::<(), ClaimErrorView>(())),
        ),
{
    lemma_lookup_runs(store, gpu_index, 3);
    lemma_claim_runs(store, gpu_index, claimant, 5);
    lemma_listed_claims(store, devices, gpu_index);
    lemma_purged_record(store, devices, gpu_index);
}

/// The registry and the selector together: when the claims handed to a
/// selection are those listed for the devices of the snapshot, no device
/// that a live process holds is selected.
pub proof fn lemma_held_devices_not_selected(
    store: Store,
    gpus: Seq<GpuInfo>,
    criteria: SelectionCriteria,
)
    requires
        select_spec(gpus, store.live_claims(indices_of(gpus)), criteria) is Ok,
    ensures
        ({
            let claims = store.live_claims(indices_of(gpus));
            let chosen = chosen_devices(gpus, claims, criteria);
            forall|k: int|
                0 <= k < chosen.len() ==> store.holder((#[trigger] chosen[k]).index) is None
        }),
{
    let devices = indices_of(gpus);
    let claims = store.live_claims(devices);
    let chosen = chosen_devices(gpus, claims, criteria);
    lemma_selection_sound(gpus, claims, criteria);
    assert forall|k: int| 0 <= k < chosen.len() implies store.holder(
        (#[trigger] chosen[k]).index,
    ) is None by {
        let m = choose|m: int| 0 <= m < gpus.len() && gpus[m] == chosen[k];
        assert(devices[m] == chosen[k].index);
        lemma_listed_claims(store, devices, chosen[k].index);
    }
}

/// A live owner's claim is never overwritten: a claim on its device is
/// refused with the owner's process id, and the store stays as it is.
pub proof fn lemma_live_claim_stands(store: Store, gpu_index: usize, claimant: u32)
    requires
        store.holder(gpu_index) is Some,
    ensures
        store.claim(gpu_index, claimant) == (
            store,
            Err::<(), ClaimErrorView>(
                ClaimErrorView::AlreadyClaimed { gpu_index, pid: store.holder(gpu_index)->Some_0 },
            ),
        ),
        store.lookup(gpu_index) == (store, store.holder(gpu_index)),
{
}

/// Of two claims on a device that no live process holds, made one after the
/// other, the first succeeds, and the second is refused with the process id
/// of the first for as long as that process is alive.
pub proof fn lemma_second_claim_refused(store: Store, gpu_index: usize, first: u32, second: u32)
    requires
        store.holder(gpu_index) is None,
        store.live.contains(first),
    ensures
        store.claim(gpu_index, first).1 is Ok,
        store.claim(gpu_index, first).0.claim(gpu_index, second) == (
            store.claim(gpu_index, first).0,
            Err::<(), ClaimErrorView>(ClaimErrorView::AlreadyClaimed { gpu_index, pid: first }),
        ),
{
    lemma_claim_record_round_trip(first);
}

} // verus!
