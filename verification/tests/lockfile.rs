use std::collections::{BTreeMap, BTreeSet};
use with_gpu::lockfile::{
    claim_gpu, claim_owner, claim_record, classify_probe, get_claimed_gpus, get_gpu_claim, is_gpu_available,
    is_pid_alive, lock_dir, lock_path, parse_claim_record, parse_lock_file_name, read_probe,
    ClaimError, ClaimPhase, ClaimStep, ListPhase, ListStage, ListStep, LookupPhase, LookupStep,
    ProbeOutcome, StoreReply, StoreRequest,
};

/// A lock store in memory, with a log of what was asked of it.
struct FakeStore {
    records: BTreeMap<usize, String>,
    live: BTreeSet<u32>,
    foreign: BTreeSet<u32>,
    extra_names: Vec<String>,
    log: Vec<StoreRequest>,
}

impl FakeStore {
    fn new(records: &[(usize, &str)], live: &[u32]) -> FakeStore {
        FakeStore {
            records: records.iter().map(|(i, c)| (*i, c.to_string())).collect(),
            live: live.iter().copied().collect(),
            foreign: BTreeSet::new(),
            extra_names: Vec::new(),
            log: Vec::new(),
        }
    }

    fn perform(&mut self, request: StoreRequest) -> StoreReply {
        self.log.push(request);
        match request {
            StoreRequest::EnsureDir => StoreReply::DirReady,
            StoreRequest::ReadRecord { gpu_index } => match self.records.get(&gpu_index) {
                Some(contents) => StoreReply::Record { contents: contents.clone() },
                None => StoreReply::NoRecord,
            },
            StoreRequest::ProbeOwner { pid } => StoreReply::Probed {
                outcome: if !self.live.contains(&pid) {
                    ProbeOutcome::Gone
                } else if self.foreign.contains(&pid) {
                    ProbeOutcome::Denied
                } else {
                    ProbeOutcome::Reachable
                },
            },
            StoreRequest::RemoveRecord { gpu_index, owner } => {
                let named = self.records.get(&gpu_index).map(|c| parse_claim_record(c));
                if named == Some(owner) {
                    self.records.remove(&gpu_index);
                }
                StoreReply::Removed
            }
            StoreRequest::CreateRecord { gpu_index, pid } => {
                if self.records.contains_key(&gpu_index) {
                    StoreReply::AlreadyExists { reason: "File exists (os error 17)".to_string() }
                } else {
                    self.records.insert(gpu_index, claim_record(pid));
                    StoreReply::Created
                }
            }
            StoreRequest::ListRecords => {
                let mut names: Vec<String> = self
                    .records
                    .keys()
                    .rev()
                    .map(|i| lock_path(*i).rsplit('/').next().unwrap().to_string())
                    .collect();
                names.extend(self.extra_names.iter().cloned());
                StoreReply::Names { names }
            }
        }
    }

    fn lookup(&mut self, gpu_index: usize) -> Option<u32> {
        let mut phase = LookupPhase::Start;
        let mut reply = None;
        loop {
            match get_gpu_claim(gpu_index, phase, reply) {
                LookupStep::Ask { phase: next, request } => {
                    reply = Some(self.perform(request));
                    phase = next;
                }
                LookupStep::Done { claim } => return claim,
            }
        }
    }

    fn claim(&mut self, gpu_index: usize, pid: u32) -> Result<(), ClaimError> {
        let mut phase = ClaimPhase::Start;
        let mut reply = None;
        loop {
            match claim_gpu(gpu_index, pid, phase, reply) {
                ClaimStep::Ask { phase: next, request } => {
                    reply = Some(self.perform(request));
                    phase = next;
                }
                ClaimStep::Done { result } => return result,
            }
        }
    }

    fn list(&mut self) -> Vec<(usize, u32)> {
        self.run_listing(ListPhase::new())
    }

    fn claims_on(&mut self, devices: &[usize]) -> Vec<(usize, u32)> {
        self.run_listing(ListPhase::for_devices(devices.to_vec()))
    }

    fn run_listing(&mut self, mut phase: ListPhase) -> Vec<(usize, u32)> {
        let mut reply = None;
        loop {
            match get_claimed_gpus(phase, reply) {
                ListStep::Ask { phase: next, request } => {
                    reply = Some(self.perform(request));
                    phase = next;
                }
                ListStep::Done { claims } => return claims,
            }
        }
    }
}

/// One claim attempt that is stepped by hand, to interleave it with others.
struct Claimant {
    gpu_index: usize,
    pid: u32,
    phase: ClaimPhase,
    reply: Option<StoreReply>,
    result: Option<Result<(), ClaimError>>,
}

impl Claimant {
    fn new(gpu_index: usize, pid: u32) -> Claimant {
        Claimant { gpu_index, pid, phase: ClaimPhase::Start, reply: None, result: None }
    }

    fn step(&mut self, store: &mut FakeStore) {
        if self.result.is_some() {
            return;
        }
        match claim_gpu(self.gpu_index, self.pid, self.phase, self.reply.take()) {
            ClaimStep::Ask { phase, request } => {
                self.reply = Some(store.perform(request));
                self.phase = phase;
            }
            ClaimStep::Done { result } => self.result = Some(result),
        }
    }
}

#[test]
fn lock_files_are_named_after_their_device() {
    assert_eq!(lock_dir(), "/tmp/with-gpu");
    assert_eq!(lock_path(0), "/tmp/with-gpu/gpu-0.lock");
    assert_eq!(lock_path(13), "/tmp/with-gpu/gpu-13.lock");
    assert_eq!(lock_path(usize::MAX), format!("/tmp/with-gpu/gpu-{}.lock", usize::MAX));
}

#[test]
fn lock_file_names_lead_back_to_the_device() {
    for index in [0usize, 1, 9, 10, 255, 65536, usize::MAX] {
        let path = lock_path(index);
        let name = path.rsplit('/').next().unwrap();
        assert_eq!(parse_lock_file_name(name), Some(index));
    }
}

#[test]
fn only_lock_file_names_denote_a_device() {
    assert_eq!(parse_lock_file_name("gpu-3.lock"), Some(3));
    assert_eq!(parse_lock_file_name("gpu-03.lock"), Some(3));
    assert_eq!(parse_lock_file_name("gpu-+3.lock"), Some(3));
    for name in [
        "", "gpu-.lock", "gpu-lock", "gpu-3.loc", "gpu3.lock", "GPU-3.lock", "gpu-3.lock ",
        " gpu-3.lock", "gpu- 3.lock", "gpu--3.lock", "gpu-3.5.lock", "gpu-x.lock", "gpu-3.lock.bak",
        "xgpu-3.lock", "gpu-.lock.lock", ".lock", "gpu-", "gpu-99999999999999999999999.lock",
    ] {
        assert_eq!(parse_lock_file_name(name), None, "{:?}", name);
    }
    for name in ["gpu-3.lock", "gpu-+3.lock", "gpu-.lock", "gpu-x.lock", "a", "gpu-1.lock.lock"] {
        let expected = name
            .strip_prefix("gpu-")
            .and_then(|s| s.strip_suffix(".lock"))
            .and_then(|s| s.parse::<usize>().ok());
        assert_eq!(parse_lock_file_name(name), expected, "{:?}", name);
    }
}

#[test]
fn a_claim_record_is_the_decimal_process_id() {
    assert_eq!(claim_record(0), "0");
    assert_eq!(claim_record(4242), "4242");
    assert_eq!(claim_record(u32::MAX), "4294967295");
    for pid in [0u32, 1, 4242, 65535, u32::MAX] {
        assert_eq!(parse_claim_record(&claim_record(pid)), Some(pid));
    }
}

#[test]
fn unparsable_records_are_corrupt() {
    assert_eq!(parse_claim_record("4242\n"), Some(4242));
    assert_eq!(parse_claim_record("  +17 "), Some(17));
    for contents in ["", " ", "pid 3", "3 4", "-3", "4294967296", "0x10", "3.0", "12\u{0}"] {
        assert_eq!(parse_claim_record(contents), None, "{:?}", contents);
        assert_eq!(parse_claim_record(contents), contents.trim().parse::<u32>().ok());
    }
}

#[test]
fn a_process_that_may_not_be_signalled_is_alive() {
    assert!(is_pid_alive(ProbeOutcome::Reachable));
    assert!(is_pid_alive(ProbeOutcome::Denied));
    assert!(!is_pid_alive(ProbeOutcome::Gone));
    assert_eq!(read_probe(0, 0, 1), ProbeOutcome::Reachable);
    assert_eq!(read_probe(0, 1, 1), ProbeOutcome::Reachable);
    assert_eq!(read_probe(-1, 1, 1), ProbeOutcome::Denied);
    assert_eq!(read_probe(-1, 3, 1), ProbeOutcome::Gone);
    assert_eq!(read_probe(-1, 0, 1), ProbeOutcome::Gone);
    assert_eq!(read_probe(7, 63, 63), ProbeOutcome::Denied);
}

#[test]
fn probes_are_read_with_the_platform_error_number() {
    assert_eq!(classify_probe(0, 0), ProbeOutcome::Reachable);
    assert_eq!(classify_probe(0, libc::ESRCH), ProbeOutcome::Reachable);
    assert_eq!(classify_probe(-1, libc::EPERM), ProbeOutcome::Denied);
    assert_eq!(classify_probe(-1, libc::ESRCH), ProbeOutcome::Gone);
    assert_eq!(classify_probe(-1, libc::EINVAL), ProbeOutcome::Gone);
}

#[test]
fn availability_is_the_absence_of_a_live_claim() {
    let claims = [(0usize, 10u32), (3, 11), (3, 12)];
    assert!(!is_gpu_available(&claims, 0));
    assert!(!is_gpu_available(&claims, 3));
    assert!(is_gpu_available(&claims, 1));
    assert!(is_gpu_available(&claims, 10));
    assert!(is_gpu_available(&[], 0));
    assert_eq!(claim_owner(&claims, 0), Some(10));
    assert_eq!(claim_owner(&claims, 3), Some(11));
    assert_eq!(claim_owner(&claims, 1), None);
    assert_eq!(claim_owner(&[], 3), None);
}

#[test]
fn lookup_of_a_free_device_only_reads() {
    let mut store = FakeStore::new(&[(1, "77")], &[77]);
    assert_eq!(store.lookup(0), None);
    assert_eq!(store.log, vec![StoreRequest::ReadRecord { gpu_index: 0 }]);
    assert_eq!(store.records.len(), 1);
}

#[test]
fn lookup_finds_a_live_owner_and_leaves_the_record() {
    let mut store = FakeStore::new(&[(2, " 77\n")], &[77]);
    assert_eq!(store.lookup(2), Some(77));
    assert_eq!(
        store.log,
        vec![StoreRequest::ReadRecord { gpu_index: 2 }, StoreRequest::ProbeOwner { pid: 77 }]
    );
    assert_eq!(store.records.get(&2).map(String::as_str), Some(" 77\n"));
    store.foreign.insert(77);
    assert_eq!(store.lookup(2), Some(77));
    assert!(store.records.contains_key(&2));
}

#[test]
fn stale_record_is_removed_by_a_lookup() {
    let mut store = FakeStore::new(&[(2, "77")], &[5]);
    assert_eq!(store.lookup(2), None);
    assert_eq!(
        store.log,
        vec![
            StoreRequest::ReadRecord { gpu_index: 2 },
            StoreRequest::ProbeOwner { pid: 77 },
            StoreRequest::RemoveRecord { gpu_index: 2, owner: Some(77) },
        ]
    );
    assert!(store.records.is_empty());
}

#[test]
fn corrupt_record_is_removed_without_a_probe() {
    let mut store = FakeStore::new(&[(2, "not a pid")], &[5]);
    assert_eq!(store.lookup(2), None);
    assert_eq!(
        store.log,
        vec![
            StoreRequest::ReadRecord { gpu_index: 2 },
            StoreRequest::RemoveRecord { gpu_index: 2, owner: None },
        ]
    );
    assert!(store.records.is_empty());
}

#[test]
fn lookup_takes_a_missing_reply_for_a_failed_request() {
    assert_eq!(
        get_gpu_claim(4, LookupPhase::Start, None),
        LookupStep::Ask {
            phase: LookupPhase::Reading,
            request: StoreRequest::ReadRecord { gpu_index: 4 }
        }
    );
    assert_eq!(get_gpu_claim(4, LookupPhase::Reading, None), LookupStep::Done { claim: None });
    assert_eq!(
        get_gpu_claim(4, LookupPhase::Reading, Some(StoreReply::Removed)),
        LookupStep::Done { claim: None }
    );
    assert_eq!(
        get_gpu_claim(4, LookupPhase::Probing { pid: 9 }, Some(StoreReply::NoRecord)),
        LookupStep::Done { claim: Some(9) }
    );
    assert_eq!(
        get_gpu_claim(
            4,
            LookupPhase::Purging,
            Some(StoreReply::Failed { reason: "busy".to_string() })
        ),
        LookupStep::Done { claim: None }
    );
}

#[test]
fn claim_of_a_free_device_creates_the_record() {
    let mut store = FakeStore::new(&[], &[100]);
    assert_eq!(store.claim(3, 100), Ok(()));
    assert_eq!(
        store.log,
        vec![
            StoreRequest::EnsureDir,
            StoreRequest::ReadRecord { gpu_index: 3 },
            StoreRequest::CreateRecord { gpu_index: 3, pid: 100 },
        ]
    );
    assert_eq!(store.records.get(&3).map(String::as_str), Some("100"));
}

#[test]
fn claim_never_overwrites_a_live_owner() {
    let mut store = FakeStore::new(&[(3, "77")], &[77, 100]);
    assert_eq!(store.claim(3, 100), Err(ClaimError::AlreadyClaimed { gpu_index: 3, pid: 77 }));
    assert_eq!(store.records.get(&3).map(String::as_str), Some("77"));
    assert!(!store.log.iter().any(|r| matches!(r, StoreRequest::CreateRecord { .. })));
    assert!(!store.log.iter().any(|r| matches!(r, StoreRequest::RemoveRecord { .. })));
}

#[test]
fn claim_reclaims_a_stale_record() {
    let mut store = FakeStore::new(&[(3, "77")], &[100]);
    assert_eq!(store.claim(3, 100), Ok(()));
    assert_eq!(store.records.get(&3).map(String::as_str), Some("100"));
    let mut corrupt = FakeStore::new(&[(3, "")], &[100]);
    assert_eq!(corrupt.claim(3, 100), Ok(()));
    assert_eq!(corrupt.records.get(&3).map(String::as_str), Some("100"));
}

#[test]
fn second_of_two_claims_is_refused_with_the_pid_of_the_first() {
    for (first, second) in [(100u32, 200u32), (200, 100)] {
        let mut store = FakeStore::new(&[], &[100, 200]);
        assert_eq!(store.claim(0, first), Ok(()));
        assert_eq!(
            store.claim(0, second),
            Err(ClaimError::AlreadyClaimed { gpu_index: 0, pid: first })
        );
        assert_eq!(store.records.get(&0), Some(&claim_record(first)));
    }
}

fn race(records: &[(usize, &str)], schedule: u32) -> (FakeStore, Claimant, Claimant) {
    let mut store = FakeStore::new(records, &[100, 200]);
    let mut a = Claimant::new(0, 100);
    let mut b = Claimant::new(0, 200);
    for turn in 0..16 {
        if schedule & (1 << turn) == 0 {
            a.step(&mut store);
        } else {
            b.step(&mut store);
        }
    }
    for _ in 0..9 {
        a.step(&mut store);
        b.step(&mut store);
    }
    (store, a, b)
}

fn assert_one_winner(records: &[(usize, &str)]) {
    // Every way of interleaving the first sixteen turns of two claimants, as a bit mask.
    for schedule in 0..(1u32 << 16) {
        let (store, a, b) = race(records, schedule);
        let results = (a.result.clone().unwrap(), b.result.clone().unwrap());
        match results {
            (Ok(()), Err(ClaimError::AlreadyClaimed { gpu_index: 0, pid: 100 })) => {
                assert_eq!(store.records.get(&0).map(String::as_str), Some("100"));
            }
            (Err(ClaimError::AlreadyClaimed { gpu_index: 0, pid: 200 }), Ok(())) => {
                assert_eq!(store.records.get(&0).map(String::as_str), Some("200"));
            }
            other => panic!("records {:?}, schedule {:b}: {:?}", records, schedule, other),
        }
    }
}

#[test]
fn of_two_interleaved_claims_on_a_free_device_exactly_one_succeeds() {
    assert_one_winner(&[]);
    assert_one_winner(&[(1, "100"), (2, "200")]);
}

#[test]
fn of_two_interleaved_claims_on_a_stale_record_exactly_one_succeeds() {
    assert_one_winner(&[(0, "77")]);
    assert_one_winner(&[(0, " 77\n")]);
}

#[test]
fn of_two_interleaved_claims_on_a_corrupt_record_exactly_one_succeeds() {
    assert_one_winner(&[(0, "")]);
    assert_one_winner(&[(0, "not a pid")]);
}

#[test]
fn a_late_removal_leaves_the_record_of_the_winner() {
    // Both read the stale record and probe its owner before either removes it.
    let mut store = FakeStore::new(&[(0, "1")], &[2, 3]);
    let mut a = Claimant::new(0, 2);
    let mut b = Claimant::new(0, 3);
    for _ in 0..3 {
        a.step(&mut store);
    }
    for _ in 0..6 {
        b.step(&mut store);
    }
    assert_eq!(b.result, Some(Ok(())));
    assert_eq!(store.records.get(&0).map(String::as_str), Some("3"));
    for _ in 0..8 {
        a.step(&mut store);
    }
    assert_eq!(a.result, Some(Err(ClaimError::AlreadyClaimed { gpu_index: 0, pid: 3 })));
    assert_eq!(store.records.get(&0).map(String::as_str), Some("3"));
    assert_eq!(
        store.log.iter().filter(|r| matches!(r, StoreRequest::RemoveRecord { .. })).count(),
        2
    );
}

#[test]
fn removal_is_of_the_record_that_was_read() {
    let mut store = FakeStore::new(&[(0, "77"), (1, "junk")], &[100]);
    store.perform(StoreRequest::RemoveRecord { gpu_index: 0, owner: Some(78) });
    store.perform(StoreRequest::RemoveRecord { gpu_index: 0, owner: None });
    store.perform(StoreRequest::RemoveRecord { gpu_index: 1, owner: Some(77) });
    assert_eq!(store.records.len(), 2);
    store.perform(StoreRequest::RemoveRecord { gpu_index: 0, owner: Some(77) });
    store.perform(StoreRequest::RemoveRecord { gpu_index: 1, owner: None });
    store.perform(StoreRequest::RemoveRecord { gpu_index: 2, owner: None });
    assert!(store.records.is_empty());
    assert_eq!(
        get_gpu_claim(
            4,
            LookupPhase::Reading,
            Some(StoreReply::Record { contents: "junk".to_string() })
        ),
        LookupStep::Ask {
            phase: LookupPhase::Purging,
            request: StoreRequest::RemoveRecord { gpu_index: 4, owner: None }
        }
    );
    assert_eq!(
        get_gpu_claim(
            4,
            LookupPhase::Probing { pid: 9 },
            Some(StoreReply::Probed { outcome: ProbeOutcome::Gone })
        ),
        LookupStep::Ask {
            phase: LookupPhase::Purging,
            request: StoreRequest::RemoveRecord { gpu_index: 4, owner: Some(9) }
        }
    );
}

#[test]
fn claim_that_loses_the_create_looks_again_and_retries_once() {
    // The record appears between the lookup and the create, held by a live owner.
    assert_eq!(
        claim_gpu(
            1,
            100,
            ClaimPhase::Creating { retried: false },
            Some(StoreReply::AlreadyExists { reason: "exists".to_string() })
        ),
        ClaimStep::Ask {
            phase: ClaimPhase::Checking { lookup: LookupPhase::Reading, retried: true },
            request: StoreRequest::ReadRecord { gpu_index: 1 }
        }
    );
    // The record that was in the way is stale: it is removed and the create tried again.
    assert_eq!(
        claim_gpu(
            1,
            100,
            ClaimPhase::Checking { lookup: LookupPhase::Purging, retried: true },
            Some(StoreReply::Removed)
        ),
        ClaimStep::Ask {
            phase: ClaimPhase::Creating { retried: true },
            request: StoreRequest::CreateRecord { gpu_index: 1, pid: 100 }
        }
    );
    // A second loss is final.
    assert_eq!(
        claim_gpu(
            1,
            100,
            ClaimPhase::Creating { retried: true },
            Some(StoreReply::AlreadyExists { reason: "File exists".to_string() })
        ),
        ClaimStep::Done { result: Err(ClaimError::IoError("File exists".to_string())) }
    );
    assert_eq!(
        claim_gpu(1, 100, ClaimPhase::Creating { retried: true }, Some(StoreReply::Created)),
        ClaimStep::Done { result: Ok(()) }
    );
}

#[test]
fn storage_failures_end_a_claim_with_the_store_s_words() {
    assert_eq!(
        claim_gpu(
            1,
            100,
            ClaimPhase::EnsuringDir,
            Some(StoreReply::Failed { reason: "Permission denied".to_string() })
        ),
        ClaimStep::Done { result: Err(ClaimError::IoError("Permission denied".to_string())) }
    );
    assert_eq!(
        claim_gpu(
            1,
            100,
            ClaimPhase::Creating { retried: false },
            Some(StoreReply::Failed { reason: "No space left".to_string() })
        ),
        ClaimStep::Done { result: Err(ClaimError::IoError("No space left".to_string())) }
    );
    assert_eq!(
        claim_gpu(1, 100, ClaimPhase::EnsuringDir, None),
        ClaimStep::Done {
            result: Err(ClaimError::IoError("unexpected reply from the lock store".to_string()))
        }
    );
    assert_eq!(
        claim_gpu(1, 100, ClaimPhase::Creating { retried: false }, Some(StoreReply::DirReady)),
        ClaimStep::Done {
            result: Err(ClaimError::IoError("unexpected reply from the lock store".to_string()))
        }
    );
}

#[test]
fn claim_error_messages_name_the_owner() {
    assert_eq!(
        ClaimError::AlreadyClaimed { gpu_index: 2, pid: 4242 }.message(),
        "GPU 2 is claimed by process 4242"
    );
    assert_eq!(
        ClaimError::IoError("Permission denied (os error 13)".to_string()).message(),
        "Lock file error: Permission denied (os error 13)"
    );
}

#[test]
fn listing_gives_the_live_claims_by_device_and_prunes_the_rest() {
    let mut store = FakeStore::new(
        &[(4, "40"), (0, "10"), (2, "garbage"), (7, "70"), (1, "11")],
        &[10, 11, 40],
    );
    store.extra_names = vec!["README".to_string(), "gpu-x.lock".to_string()];
    assert_eq!(store.list(), vec![(0, 10), (1, 11), (4, 40)]);
    assert_eq!(store.records.keys().copied().collect::<Vec<_>>(), vec![0, 1, 4]);
    assert_eq!(store.log[0], StoreRequest::ListRecords);
    assert_eq!(store.list(), vec![(0, 10), (1, 11), (4, 40)]);
}

#[test]
fn listing_an_empty_or_unreadable_directory_gives_no_claims() {
    let mut store = FakeStore::new(&[], &[]);
    assert_eq!(store.list(), Vec::new());
    let step = get_claimed_gpus(
        ListPhase { stage: ListStage::Listing, pending: vec![], found: vec![] },
        Some(StoreReply::Failed { reason: "No such file or directory".to_string() }),
    );
    assert_eq!(step, ListStep::Done { claims: vec![] });
}

#[test]
fn listing_shows_a_device_once_whatever_names_stand_for_it() {
    let mut store = FakeStore::new(&[(3, "30")], &[30]);
    store.extra_names = vec!["gpu-03.lock".to_string(), "gpu-1.lock".to_string()];
    assert_eq!(store.list(), vec![(3, 30)]);
    assert_eq!(
        store.log,
        vec![
            StoreRequest::ListRecords,
            StoreRequest::ReadRecord { gpu_index: 3 },
            StoreRequest::ProbeOwner { pid: 30 },
            StoreRequest::ReadRecord { gpu_index: 3 },
            StoreRequest::ProbeOwner { pid: 30 },
            StoreRequest::ReadRecord { gpu_index: 1 },
        ]
    );
}

#[test]
fn claims_on_given_devices_are_looked_up_without_reading_the_directory() {
    let mut store = FakeStore::new(&[(0, "10"), (1, "dead"), (2, "20"), (3, "30")], &[10, 30]);
    assert_eq!(store.claims_on(&[3, 1, 0, 5]), vec![(0, 10), (3, 30)]);
    assert!(!store.log.contains(&StoreRequest::ListRecords));
    assert_eq!(store.records.keys().copied().collect::<Vec<_>>(), vec![0, 2, 3]);
    assert_eq!(store.claims_on(&[]), Vec::new());
    assert_eq!(store.claims_on(&[2, 2]), Vec::new());
    assert_eq!(store.records.keys().copied().collect::<Vec<_>>(), vec![0, 3]);
}

#[test]
fn stale_record_leaves_its_device_available() {
    let mut store = FakeStore::new(&[(0, "77"), (1, "88")], &[88]);
    let claims = store.claims_on(&[0, 1]);
    assert!(is_gpu_available(&claims, 0));
    assert!(!is_gpu_available(&claims, 1));
    assert!(!store.records.contains_key(&0));
}


#[test]
fn listing_is_strictly_ascending_by_device() {
    let mut store = FakeStore::new(&[(9, "90"), (1, "10"), (4, "40")], &[10, 40, 90]);
    store.extra_names = vec!["gpu-04.lock".to_string(), "gpu-+9.lock".to_string()];
    let listing = store.list();
    assert_eq!(listing, vec![(1, 10), (4, 40), (9, 90)]);
    assert!(listing.windows(2).all(|pair| pair[0].0 < pair[1].0));
    assert_eq!(store.claims_on(&[9, 4, 9, 4, 4]), vec![(4, 40), (9, 90)]);
    for device in [1usize, 4, 9] {
        assert_eq!(claim_owner(&listing, device), Some(device as u32 * 10));
    }
    assert_eq!(claim_owner(&listing, 2), None);
}
