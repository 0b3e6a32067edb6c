//! The claim registry: one lock file per device, holding the process id of the
//! instance that reserved it.
//!
//! A claim is valid for as long as its owner is alive. Nothing ever releases
//! one: whoever reads a record whose owner is gone, or whose contents are no
//! process id, removes it, unless the record has changed by then. The
//! registry never touches the disk itself. Each
//! operation is a short dialogue in which the registry asks for one thing at
//! a time (read a record, probe a process, create a record) and decides from
//! the reply what to ask next; the caller does the asking.

use vstd::prelude::*;
use vstd::string::*;
use crate::text::{
    chars_of, decimal, lemma_decimal_parses, parse_number, parse_number_range, push_decimal,
    texts_of, trim_range, trimmed,
};

verus! {

/// Whether `claims`, a listing of live claims as pairs of device index and
/// owning process id, holds one for `gpu_index`.
pub open spec fn is_claimed(claims: Seq<(usize, u32)>, gpu_index: usize) -> bool {
    exists|k: int| 0 <= k < claims.len() && (#[trigger] claims[k]).0 == gpu_index
}

/// The owner of the first claim on `gpu_index` in `claims`.
pub open spec fn first_owner(claims: Seq<(usize, u32)>, gpu_index: usize) -> Option<u32>
    decreases claims.len(),
{
    if claims.len() == 0 {
        None
    } else if claims[0].0 == gpu_index {
        Some(claims[0].1)
    } else {
        first_owner(claims.skip(1), gpu_index)
    }
}

/// A listing names an owner for exactly the devices that it shows as
/// claimed.
pub proof fn lemma_first_owner(claims: Seq<(usize, u32)>, gpu_index: usize)
    ensures
        first_owner(claims, gpu_index) is Some <==> is_claimed(claims, gpu_index),
    decreases claims.len(),
{
    if claims.len() > 0 && claims[0].0 != gpu_index {
        let rest = claims.skip(1);
        lemma_first_owner(rest, gpu_index);
        if is_claimed(rest, gpu_index) {
            let k = choose|k: int| 0 <= k < rest.len() && (#[trigger] rest[k]).0 == gpu_index;
            assert(claims[k + 1].0 == gpu_index);
        }
        if is_claimed(claims, gpu_index) {
            let k = choose|k: int| 0 <= k < claims.len() && (#[trigger] claims[k]).0 == gpu_index;
            assert(rest[k - 1].0 == gpu_index);
        }
    }
}

/// The process that `claims` shows as the holder of `gpu_index`, if any.
pub fn claim_owner(claims: &[(usize, u32)], gpu_index: usize) -> (owner: Option<u32>)
    ensures
        owner == first_owner(claims@, gpu_index),
{
    let mut k: usize = 0;
    assert(claims@.skip(0) == claims@);
    while k < claims.len()
        invariant
            k <= claims.len(),
            first_owner(claims@, gpu_index) == first_owner(claims@.skip(k as int), gpu_index),
        decreases claims.len() - k,
    {
        if claims[k].0 == gpu_index {
            return Some(claims[k].1);
        }
        assert(claims@.skip(k as int).skip(1) == claims@.skip(k + 1));
        k += 1;
    }
    None
}

/// Whether no live process holds a claim on `gpu_index`.
pub fn is_gpu_available(claims: &[(usize, u32)], gpu_index: usize) -> (free: bool)
    ensures
        free == !is_claimed(claims@, gpu_index),
{
    proof {
        lemma_first_owner(claims@, gpu_index);
    }
    claim_owner(claims, gpu_index).is_none()
}

/// The name of the lock file of device `gpu_index`.
pub open spec fn lock_file_name(gpu_index: usize) -> Seq<char> {
    "gpu-"@ + decimal(gpu_index as nat) + ".lock"@
}

/// The directory that holds the lock files.
pub fn lock_dir() -> (dir: String)
    ensures
        dir@ == "/tmp/with-gpu"@,
{
    String::from_str("/tmp/with-gpu")
}

/// The path of the lock file of device `gpu_index`.
pub fn lock_path(gpu_index: usize) -> (path: String)
    ensures
        path@ == "/tmp/with-gpu"@ + "/"@ + lock_file_name(gpu_index),
{
    let mut path = lock_dir();
    path.append("/");
    path.append("gpu-");
    push_decimal(&mut path, gpu_index as u64);
    path.append(".lock");
    path
}

/// The device whose lock file is called `name`: the number between `gpu-`
/// and `.lock`, written as an optional `+` and decimal digits.
pub open spec fn lock_file_index(name: Seq<char>) -> Option<usize> {
    let prefix = "gpu-"@;
    let suffix = ".lock"@;
    if name.len() >= prefix.len() + suffix.len() && name.take(prefix.len() as int) == prefix
        && name.skip(name.len() - suffix.len()) == suffix {
        match parse_number(
            name.subrange(prefix.len() as int, name.len() - suffix.len()),
            usize::MAX as nat,
        ) {
            Some(index) => Some(index as usize),
            None => None,
        }
    } else {
        None
    }
}

fn matches_at(chars: &[char], at: usize, word: &[char]) -> (same: bool)
    requires
        at + word.len() <= chars.len(),
    ensures
        same == (chars@.subrange(at as int, at + word@.len()) == word@),
{
    let mut k: usize = 0;
    while k < word.len()
        invariant
            k <= word.len(),
            at + word.len() <= chars.len(),
            forall|j: int| 0 <= j < k ==> chars@[at + j] == word@[j],
        decreases word.len() - k,
    {
        if chars[at + k] != word[k] {
            return false;
        }
        k += 1;
    }
    assert(chars@.subrange(at as int, at + word@.len()) =~= word@);
    true
}

/// Reads the device index out of a lock file's name; `None` for a name that
/// is not a lock file's.
pub fn parse_lock_file_name(name: &str) -> (index: Option<usize>)
    ensures
        index == lock_file_index(name@),
{
    let chars = chars_of(name);
    let prefix = chars_of("gpu-");
    let suffix = chars_of(".lock");
    proof {
        reveal_strlit("gpu-");
        reveal_strlit(".lock");
    }
    let n = chars.len();
    if n < prefix.len() + suffix.len() {
        return None;
    }
    if !matches_at(chars.as_slice(), 0, prefix.as_slice()) {
        return None;
    }
    if !matches_at(chars.as_slice(), n - suffix.len(), suffix.as_slice()) {
        return None;
    }
    match parse_number_range(chars.as_slice(), prefix.len(), n - suffix.len(), usize::MAX as u64) {
        Some(index) => Some(index as usize),
        None => None,
    }
}

/// What a lock file holds for owner `pid`: its decimal notation.
pub fn claim_record(pid: u32) -> (contents: String)
    ensures
        contents@ == decimal(pid as nat),
{
    let mut contents = String::new();
    push_decimal(&mut contents, pid as u64);
    contents
}

/// The owner that a lock file's contents name: white space at both ends
/// aside, an optional `+` and decimal digits that fit a process id. `None`
/// marks the record as corrupt.
pub open spec fn claim_record_owner(contents: Seq<char>) -> Option<u32> {
    match parse_number(trimmed(contents), u32::MAX as nat) {
        Some(pid) => Some(pid as u32),
        None => None,
    }
}

/// Reads the owner out of a lock file's contents.
pub fn parse_claim_record(contents: &str) -> (owner: Option<u32>)
    ensures
        owner == claim_record_owner(contents@),
{
    let chars = chars_of(contents);
    let (lo, hi) = trim_range(chars.as_slice(), 0, chars.len());
    assert(chars@.subrange(0, chars@.len() as int) == chars@);
    match parse_number_range(chars.as_slice(), lo, hi, u32::MAX as u64) {
        Some(pid) => Some(pid as u32),
        None => None,
    }
}

/// A record that was written for `pid` names `pid` when it is read.
pub proof fn lemma_claim_record_round_trip(pid: u32)
    ensures
        claim_record_owner(decimal(pid as nat)) == Some(pid),
{
    lemma_decimal_parses(pid as nat, u32::MAX as nat);
}

/// The name of a device's lock file leads back to the device.
pub proof fn lemma_lock_file_name_round_trip(gpu_index: usize)
    ensures
        lock_file_index(lock_file_name(gpu_index)) == Some(gpu_index),
{
    let prefix = "gpu-"@;
    let suffix = ".lock"@;
    let number = decimal(gpu_index as nat);
    let name = lock_file_name(gpu_index);
    lemma_decimal_parses(gpu_index as nat, usize::MAX as nat);
    assert(name.take(prefix.len() as int) == prefix);
    assert(name.skip(name.len() - suffix.len()) == suffix);
    assert(name.subrange(prefix.len() as int, name.len() - suffix.len()) == number);
}

/// Two devices never share a lock file.
pub proof fn lemma_lock_file_names_differ(a: usize, b: usize)
    requires
        lock_file_name(a) == lock_file_name(b),
    ensures
        a == b,
{
    lemma_lock_file_name_round_trip(a);
    lemma_lock_file_name_round_trip(b);
}

/// What probing a process for existence came to.
#[derive(Debug, Clone, Copy, PartialEq, Eq)]
pub enum ProbeOutcome {
    /// The process exists and may be signalled.
    Reachable,
    /// The process exists and belongs to someone else.
    Denied,
    /// Anything else: there is no such process.
    Gone,
}

/// How the result of a null signal reads: `ret` is what the call returned,
/// `errno` the error number it left, `denied_errno` the error number that
/// stands for "permission denied".
pub open spec fn probe_outcome(ret: i32, errno: i32, denied_errno: i32) -> ProbeOutcome {
    if ret == 0 {
        ProbeOutcome::Reachable
    } else if errno == denied_errno {
        ProbeOutcome::Denied
    } else {
        ProbeOutcome::Gone
    }
}

/// Reads the result of a null signal, given the platform's error number for
/// "permission denied".
pub fn read_probe(ret: i32, errno: i32, denied_errno: i32) -> (outcome: ProbeOutcome)
    ensures
        outcome == probe_outcome(ret, errno, denied_errno),
{
    if ret == 0 {
        ProbeOutcome::Reachable
    } else if errno == denied_errno {
        ProbeOutcome::Denied
    } else {
        ProbeOutcome::Gone
    }
}

/// `libc::EPERM`, the platform's error number for "permission denied".
/// Nothing is claimed of its value, which differs between platforms.
#[verifier::external_body]
fn permission_denied_errno() -> i32 {
    libc::EPERM
}

/// Reads the result of a null signal on this platform. A call that returned
/// zero found the process; of any other result the outcome depends on the
/// platform's error numbers, as `read_probe` says.
pub fn classify_probe(ret: i32, errno: i32) -> (outcome: ProbeOutcome)
    ensures
        exists|denied_errno: i32| outcome == probe_outcome(ret, errno, denied_errno),
        ret == 0 <==> outcome is Reachable,
{
    let denied_errno = permission_denied_errno();
    let outcome = read_probe(ret, errno, denied_errno);
    outcome
}

/// What `is_pid_alive` returns.
pub open spec fn spec_is_pid_alive(outcome: ProbeOutcome) -> bool {
    outcome is Reachable || outcome is Denied
}

/// Whether a probed process counts as alive. A process that may not be
/// signalled exists, so its claims stand.
#[verifier::when_used_as_spec(spec_is_pid_alive)]
pub fn is_pid_alive(outcome: ProbeOutcome) -> (alive: bool)
    ensures
        alive == spec_is_pid_alive(outcome),
{
    match outcome {
        ProbeOutcome::Reachable | ProbeOutcome::Denied => true,
        ProbeOutcome::Gone => false,
    }
}

/// Why a claim was not made.
#[derive(Debug, Clone, PartialEq, Eq)]
pub enum ClaimError {
    /// A live process holds the device.
    AlreadyClaimed { gpu_index: usize, pid: u32 },
    /// The lock store failed; the text is its own.
    IoError(String),
}

/// A claim error as plain mathematical values.
pub enum ClaimErrorView {
    AlreadyClaimed { gpu_index: usize, pid: u32 },
    IoError(Seq<char>),
}

impl View for ClaimError {
    type V = ClaimErrorView;

    open spec fn view(&self) -> ClaimErrorView {
        match self {
            ClaimError::AlreadyClaimed { gpu_index, pid } => ClaimErrorView::AlreadyClaimed {
                gpu_index: *gpu_index,
                pid: *pid,
            },
            ClaimError::IoError(reason) => ClaimErrorView::IoError(reason@),
        }
    }
}

impl ClaimError {
    /// The text of `message`.
    pub open spec fn message_text(self) -> Seq<char> {
        match self {
            ClaimError::AlreadyClaimed { gpu_index, pid } => "GPU "@ + decimal(gpu_index as nat)
                + " is claimed by process "@ + decimal(pid as nat),
            ClaimError::IoError(reason) => "Lock file error: "@ + reason@,
        }
    }

    /// What to tell the user; a conflict names the process that holds the
    /// device.
    pub fn message(&self) -> (text: String)
        ensures
            text@ == self.message_text(),
    {
        match self {
            ClaimError::AlreadyClaimed { gpu_index, pid } => {
                let mut text = String::from_str("GPU ");
                push_decimal(&mut text, *gpu_index as u64);
                text.append(" is claimed by process ");
                push_decimal(&mut text, *pid as u64);
                text
            },
            ClaimError::IoError(reason) => {
                let mut text = String::from_str("Lock file error: ");
                text.append(reason.as_str());
                text
            },
        }
    }
}

/// What the registry asks of the lock store. The record of a device is the
/// file at `lock_path` of its index.
#[derive(Debug, Clone, Copy, PartialEq, Eq)]
pub enum StoreRequest {
    /// Make sure that the lock directory exists.
    EnsureDir,
    /// Read the record of a device.
    ReadRecord { gpu_index: usize },
    /// Probe a process for existence, with the null signal.
    ProbeOwner { pid: u32 },
    /// Remove the record of a device if it still names `owner`, or where
    /// `owner` is `None` still names no process. A record that has changed
    /// since it was read stays. The comparison and the removal are one step.
    RemoveRecord { gpu_index: usize, owner: Option<u32> },
    /// Create the record of a device with `claim_record(pid)` for its
    /// contents. The create is exclusive: it fails if there is a record.
    CreateRecord { gpu_index: usize, pid: u32 },
    /// List the names in the lock directory.
    ListRecords,
}

/// What the lock store answers.
#[derive(Debug, Clone, PartialEq, Eq)]
pub enum StoreReply {
    DirReady,
    /// There is no record, or none that can be read.
    NoRecord,
    Record { contents: String },
    Probed { outcome: ProbeOutcome },
    /// The removal was carried out, whether or not it found the record that
    /// it was to remove.
    Removed,
    Created,
    /// The record to create is there already.
    AlreadyExists { reason: String },
    /// The request failed for any other reason.
    Failed { reason: String },
    Names { names: Vec<String> },
}

/// A reply as plain mathematical values.
pub enum StoreReplyView {
    DirReady,
    NoRecord,
    Record { contents: Seq<char> },
    Probed { outcome: ProbeOutcome },
    Removed,
    Created,
    AlreadyExists { reason: Seq<char> },
    Failed { reason: Seq<char> },
    Names { names: Seq<Seq<char>> },
}

impl View for StoreReply {
    type V = StoreReplyView;

    open spec fn view(&self) -> StoreReplyView {
        match self {
            StoreReply::DirReady => StoreReplyView::DirReady,
            StoreReply::NoRecord => StoreReplyView::NoRecord,
            StoreReply::Record { contents } => StoreReplyView::Record { contents: contents@ },
            StoreReply::Probed { outcome } => StoreReplyView::Probed { outcome: *outcome },
            StoreReply::Removed => StoreReplyView::Removed,
            StoreReply::Created => StoreReplyView::Created,
            StoreReply::AlreadyExists { reason } => StoreReplyView::AlreadyExists {
                reason: reason@,
            },
            StoreReply::Failed { reason } => StoreReplyView::Failed { reason: reason@ },
            StoreReply::Names { names } => StoreReplyView::Names { names: texts_of(names@) },
        }
    }
}

/// The reply to the last request, if one was made.
pub open spec fn reply_view(reply: Option<StoreReply>) -> Option<StoreReplyView> {
    match reply {
        Some(reply) => Some(reply@),
        None => None,
    }
}

/// Where the lookup of one device's claim stands.
#[derive(Debug, Clone, Copy, PartialEq, Eq)]
pub enum LookupPhase {
    /// Nothing has been asked yet.
    Start,
    /// The record has been asked for.
    Reading,
    /// The record names `pid`, which is being probed.
    Probing { pid: u32 },
    /// The record is corrupt or stale, and is being removed if it is still
    /// the record that was read.
    Purging,
}

/// What a lookup does next.
#[derive(Debug, Clone, Copy, PartialEq, Eq)]
pub enum LookupStep {
    /// Make `request` and come back in `phase` with the reply.
    Ask { phase: LookupPhase, request: StoreRequest },
    /// The device is held by the live process `claim`, or by none.
    Done { claim: Option<u32> },
}

/// The lookup protocol. No record means no claim. A record that names no
/// process is removed, and so is one whose owner is gone; either way there is
/// no claim. What is removed is the record that was read: the removal names
/// the owner that the record named, and leaves a record that names another.
/// A record whose owner is alive is a claim. A reply that does not answer
/// the request counts as the request's failure: a record that cannot be read
/// is no claim, an owner that cannot be probed is taken to be alive, and a
/// removal that fails is let be.
pub open spec fn lookup_step(
    gpu_index: usize,
    phase: LookupPhase,
    reply: Option<StoreReplyView>,
) -> LookupStep {
    match phase {
        LookupPhase::Start => LookupStep::Ask {
            phase: LookupPhase::Reading,
            request: StoreRequest::ReadRecord { gpu_index },
        },
        LookupPhase::Reading => match reply {
            Some(StoreReplyView::Record { contents }) => match claim_record_owner(contents) {
                Some(pid) => LookupStep::Ask {
                    phase: LookupPhase::Probing { pid },
                    request: StoreRequest::ProbeOwner { pid },
                },
                None => LookupStep::Ask {
                    phase: LookupPhase::Purging,
                    request: StoreRequest::RemoveRecord { gpu_index, owner: None },
                },
            },
            _ => LookupStep::Done { claim: None },
        },
        LookupPhase::Probing { pid } => match reply {
            Some(StoreReplyView::Probed { outcome }) => if is_pid_alive(outcome) {
                LookupStep::Done { claim: Some(pid) }
            } else {
                LookupStep::Ask {
                    phase: LookupPhase::Purging,
                    request: StoreRequest::RemoveRecord { gpu_index, owner: Some(pid) },
                }
            },
            _ => LookupStep::Done { claim: Some(pid) },
        },
        LookupPhase::Purging => LookupStep::Done { claim: None },
    }
}

/// One step of looking up who holds device `gpu_index`: begin in
/// `LookupPhase::Start` without a reply, make each request that is asked for,
/// and come back with its reply until the step is `Done`.
pub fn get_gpu_claim(gpu_index: usize, phase: LookupPhase, reply: Option<StoreReply>) -> (step:
    LookupStep)
    ensures
        step == lookup_step(gpu_index, phase, reply_view(reply)),
{
    match phase {
        LookupPhase::Start => LookupStep::Ask {
            phase: LookupPhase::Reading,
            request: StoreRequest::ReadRecord { gpu_index },
        },
        LookupPhase::Reading => match reply {
            Some(StoreReply::Record { contents }) => match parse_claim_record(contents.as_str()) {
                Some(pid) => LookupStep::Ask {
                    phase: LookupPhase::Probing { pid },
                    request: StoreRequest::ProbeOwner { pid },
                },
                None => LookupStep::Ask {
                    phase: LookupPhase::Purging,
                    request: StoreRequest::RemoveRecord { gpu_index, owner: None },
                },
            },
            _ => LookupStep::Done { claim: None },
        },
        LookupPhase::Probing { pid } => match reply {
            Some(StoreReply::Probed { outcome }) => if is_pid_alive(outcome) {
                LookupStep::Done { claim: Some(pid) }
            } else {
                LookupStep::Ask {
                    phase: LookupPhase::Purging,
                    request: StoreRequest::RemoveRecord { gpu_index, owner: Some(pid) },
                }
            },
            _ => LookupStep::Done { claim: Some(pid) },
        },
        LookupPhase::Purging => LookupStep::Done { claim: None },
    }
}

/// Where a claim attempt stands.
#[derive(Debug, Clone, Copy, PartialEq, Eq)]
pub enum ClaimPhase {
    /// Nothing has been asked yet.
    Start,
    /// The lock directory is being made sure of.
    EnsuringDir,
    /// The device's present claim is being looked up; `retried` tells the
    /// lookup after a lost race from the one before the first create.
    Checking { lookup: LookupPhase, retried: bool },
    /// The record is being created.
    Creating { retried: bool },
}

/// What a claim attempt does next.
#[derive(Debug, PartialEq, Eq)]
pub enum ClaimStep {
    /// Make `request` and come back in `phase` with the reply.
    Ask { phase: ClaimPhase, request: StoreRequest },
    /// The attempt is over.
    Done { result: Result<(), ClaimError> },
}

/// A claim step as plain mathematical values.
pub enum ClaimStepView {
    Ask { phase: ClaimPhase, request: StoreRequest },
    Done { result: Result<(), ClaimErrorView> },
}

impl View for ClaimStep {
    type V = ClaimStepView;

    open spec fn view(&self) -> ClaimStepView {
        match self {
            ClaimStep::Ask { phase, request } => ClaimStepView::Ask {
                phase: *phase,
                request: *request,
            },
            ClaimStep::Done { result } => ClaimStepView::Done {
                result: match result {
                    Ok(()) => Ok(()),
                    Err(error) => Err(error@),
                },
            },
        }
    }
}

/// The error text for a reply that does not answer the request.
pub open spec fn unexpected_reply() -> Seq<char> {
    "unexpected reply from the lock store"@
}

/// How a claim attempt goes on from a step of its lookup: it passes the
/// lookup's requests on, gives up where the device is held, and creates the
/// record where it is free.
pub open spec fn claim_after_lookup(
    gpu_index: usize,
    own_pid: u32,
    retried: bool,
    lookup: LookupStep,
) -> ClaimStepView {
    match lookup {
        LookupStep::Ask { phase, request } => ClaimStepView::Ask {
            phase: ClaimPhase::Checking { lookup: phase, retried },
            request,
        },
        LookupStep::Done { claim: Some(pid) } => ClaimStepView::Done {
            result: Err(ClaimErrorView::AlreadyClaimed { gpu_index, pid }),
        },
        LookupStep::Done { claim: None } => ClaimStepView::Ask {
            phase: ClaimPhase::Creating { retried },
            request: StoreRequest::CreateRecord { gpu_index, pid: own_pid },
        },
    }
}

/// The claim protocol. The lock directory is made sure of, the device's
/// present claim is looked up, and the record is created unless there is
/// one. Where the create finds a record after all, the claim is looked up
/// again and the create tried once more, and no further. A claim held by a
/// live process ends the attempt with that process's id. Any failure of the
/// lock store ends it with the store's own words.
pub open spec fn claim_step(
    gpu_index: usize,
    own_pid: u32,
    phase: ClaimPhase,
    reply: Option<StoreReplyView>,
) -> ClaimStepView {
    match phase {
        ClaimPhase::Start => ClaimStepView::Ask {
            phase: ClaimPhase::EnsuringDir,
            request: StoreRequest::EnsureDir,
        },
        ClaimPhase::EnsuringDir => match reply {
            Some(StoreReplyView::DirReady) => claim_after_lookup(
                gpu_index,
                own_pid,
                false,
                lookup_step(gpu_index, LookupPhase::Start, None),
            ),
            Some(StoreReplyView::Failed { reason }) => ClaimStepView::Done {
                result: Err(ClaimErrorView::IoError(reason)),
            },
            _ => ClaimStepView::Done { result: Err(ClaimErrorView::IoError(unexpected_reply())) },
        },
        ClaimPhase::Checking { lookup, retried } => claim_after_lookup(
            gpu_index,
            own_pid,
            retried,
            lookup_step(gpu_index, lookup, reply),
        ),
        ClaimPhase::Creating { retried } => match reply {
            Some(StoreReplyView::Created) => ClaimStepView::Done { result: Ok(()) },
            Some(StoreReplyView::AlreadyExists { reason }) => if retried {
                ClaimStepView::Done { result: Err(ClaimErrorView::IoError(reason)) }
            } else {
                claim_after_lookup(
                    gpu_index,
                    own_pid,
                    true,
                    lookup_step(gpu_index, LookupPhase::Start, None),
                )
            },
            Some(StoreReplyView::Failed { reason }) => ClaimStepView::Done {
                result: Err(ClaimErrorView::IoError(reason)),
            },
            _ => ClaimStepView::Done { result: Err(ClaimErrorView::IoError(unexpected_reply())) },
        },
    }
}

fn after_lookup(gpu_index: usize, own_pid: u32, retried: bool, lookup: LookupStep) -> (step:
    ClaimStep)
    ensures
        step@ == claim_after_lookup(gpu_index, own_pid, retried, lookup),
{
    match lookup {
        LookupStep::Ask { phase, request } => ClaimStep::Ask {
            phase: ClaimPhase::Checking { lookup: phase, retried },
            request,
        },
        LookupStep::Done { claim: Some(pid) } => ClaimStep::Done {
            result: Err(ClaimError::AlreadyClaimed { gpu_index, pid }),
        },
        LookupStep::Done { claim: None } => ClaimStep::Ask {
            phase: ClaimPhase::Creating { retried },
            request: StoreRequest::CreateRecord { gpu_index, pid: own_pid },
        },
    }
}

fn store_failure(reason: String) -> (step: ClaimStep)
    ensures
        step@ == (ClaimStepView::Done { result: Err(ClaimErrorView::IoError(reason@)) }),
{
    ClaimStep::Done { result: Err(ClaimError::IoError(reason)) }
}

/// One step of claiming device `gpu_index` for the process `own_pid`: begin
/// in `ClaimPhase::Start` without a reply, make each request that is asked
/// for, and come back with its reply until the step is `Done`.
pub fn claim_gpu(
    gpu_index: usize,
    own_pid: u32,
    phase: ClaimPhase,
    reply: Option<StoreReply>,
) -> (step: ClaimStep)
    ensures
        step@ == claim_step(gpu_index, own_pid, phase, reply_view(reply)),
{
    match phase {
        ClaimPhase::Start => ClaimStep::Ask {
            phase: ClaimPhase::EnsuringDir,
            request: StoreRequest::EnsureDir,
        },
        ClaimPhase::EnsuringDir => match reply {
            Some(StoreReply::DirReady) => after_lookup(
                gpu_index,
                own_pid,
                false,
                get_gpu_claim(gpu_index, LookupPhase::Start, None),
            ),
            Some(StoreReply::Failed { reason }) => store_failure(reason),
            _ => store_failure(String::from_str("unexpected reply from the lock store")),
        },
        ClaimPhase::Checking { lookup, retried } => after_lookup(
            gpu_index,
            own_pid,
            retried,
            get_gpu_claim(gpu_index, lookup, reply),
        ),
        ClaimPhase::Creating { retried } => match reply {
            Some(StoreReply::Created) => ClaimStep::Done { result: Ok(()) },
            Some(StoreReply::AlreadyExists { reason }) => if retried {
                store_failure(reason)
            } else {
                after_lookup(
                    gpu_index,
                    own_pid,
                    true,
                    get_gpu_claim(gpu_index, LookupPhase::Start, None),
                )
            },
            Some(StoreReply::Failed { reason }) => store_failure(reason),
            _ => store_failure(String::from_str("unexpected reply from the lock store")),
        },
    }
}

/// Where `claim` goes into the listing `sorted`: behind every claim on a
/// device of the same or a lower index.
pub open spec fn claim_position(sorted: Seq<(usize, u32)>, claim: (usize, u32)) -> int
    decreases sorted.len(),
{
    if sorted.len() > 0 && claim.0 < sorted.last().0 {
        claim_position(sorted.drop_last(), claim)
    } else {
        sorted.len() as int
    }
}

/// `claims` by ascending device index, claims on one device in the order
/// given.
pub open spec fn sorted_claims(claims: Seq<(usize, u32)>) -> Seq<(usize, u32)>
    decreases claims.len(),
{
    if claims.len() == 0 {
        claims
    } else {
        let front = sorted_claims(claims.drop_last());
        front.insert(claim_position(front, claims.last()), claims.last())
    }
}

/// Whether `claims` is in ascending order of device index.
pub open spec fn is_ascending(claims: Seq<(usize, u32)>) -> bool {
    forall|i: int, j: int| 0 <= i < j < claims.len() ==> claims[i].0 <= claims[j].0
}

/// In an ascending listing the position of a claim parts the claims on
/// devices of the same or a lower index from those on higher ones.
pub proof fn lemma_claim_position_splits(sorted: Seq<(usize, u32)>, claim: (usize, u32))
    requires
        is_ascending(sorted),
    ensures
        0 <= claim_position(sorted, claim) <= sorted.len(),
        forall|k: int| 0 <= k < claim_position(sorted, claim) ==> sorted[k].0 <= claim.0,
        forall|k: int| claim_position(sorted, claim) <= k < sorted.len() ==> claim.0 < sorted[k].0,
    decreases sorted.len(),
{
    if sorted.len() > 0 && claim.0 < sorted.last().0 {
        let front = sorted.drop_last();
        lemma_claim_position_splits(front, claim);
        let p = claim_position(front, claim);
        assert forall|k: int| 0 <= k < p implies sorted[k].0 <= claim.0 by {
            assert(front[k] == sorted[k]);
        }
        assert forall|k: int| p <= k < sorted.len() implies claim.0 < sorted[k].0 by {
            if k < front.len() {
                assert(front[k] == sorted[k]);
            }
        }
    }
}

/// A sorted listing holds exactly the claims that it was made from, in
/// ascending order of device index.
pub proof fn lemma_sorted_claims(claims: Seq<(usize, u32)>)
    ensures
        sorted_claims(claims).len() == claims.len(),
        is_ascending(sorted_claims(claims)),
        sorted_claims(claims).to_multiset() == claims.to_multiset(),
    decreases claims.len(),
{
    if claims.len() > 0 {
        let rest = claims.drop_last();
        let front = sorted_claims(rest);
        let claim = claims.last();
        let p = claim_position(front, claim);
        lemma_sorted_claims(rest);
        lemma_claim_position_splits(front, claim);
        vstd::seq_lib::to_multiset_insert(front, p, claim);
        vstd::seq_lib::to_multiset_build(rest, claim);
        assert(rest.push(claim) == claims);
    }
}

/// Whether no two of `claims` are on one device.
pub open spec fn distinct_devices(claims: Seq<(usize, u32)>) -> bool {
    forall|i: int, j: int| 0 <= i < j < claims.len() ==> claims[i].0 != claims[j].0
}

/// Whether `claims` is in strictly ascending order of device index.
pub open spec fn is_strictly_ascending(claims: Seq<(usize, u32)>) -> bool {
    forall|i: int, j: int| 0 <= i < j < claims.len() ==> claims[i].0 < claims[j].0
}

/// Claims on distinct devices are still on distinct devices once sorted, and
/// so in strictly ascending order.
pub proof fn lemma_sorted_claims_strict(claims: Seq<(usize, u32)>)
    requires
        distinct_devices(claims),
    ensures
        distinct_devices(sorted_claims(claims)),
        is_strictly_ascending(sorted_claims(claims)),
    decreases claims.len(),
{
    if claims.len() > 0 {
        let rest = claims.drop_last();
        let front = sorted_claims(rest);
        let claim = claims.last();
        let p = claim_position(front, claim);
        let all = sorted_claims(claims);
        lemma_sorted_claims_strict(rest);
        lemma_sorted_claims(rest);
        lemma_claim_position_splits(front, claim);
        assert forall|k: int| 0 <= k < front.len() implies front[k].0 != claim.0 by {
            vstd::seq_lib::to_multiset_contains(front, front[k]);
            vstd::seq_lib::to_multiset_contains(rest, front[k]);
            assert(front.contains(front[k]));
            let m = choose|m: int| 0 <= m < rest.len() && rest[m] == front[k];
            assert(claims[m] == rest[m]);
        }
        assert forall|i: int, j: int| 0 <= i < j < all.len() implies all[i].0 != all[j].0 by {
            if j == p {
                assert(all[i] == front[i]);
            } else if i == p {
                assert(all[j] == front[j - 1]);
            } else {
                let fi = if i < p {
                    i
                } else {
                    i - 1
                };
                let fj = if j < p {
                    j
                } else {
                    j - 1
                };
                assert(all[i] == front[fi] && all[j] == front[fj]);
            }
        }
    }
    let all = sorted_claims(claims);
    assert forall|i: int, j: int| 0 <= i < j < all.len() implies all[i].0 < all[j].0 by {
        assert(all[i].0 <= all[j].0);
    }
}

/// A claim that a listing names an owner for is one of the listing's.
pub proof fn lemma_first_owner_member(claims: Seq<(usize, u32)>, gpu_index: usize)
    requires
        first_owner(claims, gpu_index) is Some,
    ensures
        claims.contains((gpu_index, first_owner(claims, gpu_index)->Some_0)),
    decreases claims.len(),
{
    if claims[0].0 == gpu_index {
        assert(claims[0] == (gpu_index, first_owner(claims, gpu_index)->Some_0));
    } else {
        let rest = claims.skip(1);
        lemma_first_owner_member(rest, gpu_index);
        let claim = (gpu_index, first_owner(claims, gpu_index)->Some_0);
        let k = choose|k: int| 0 <= k < rest.len() && rest[k] == claim;
        assert(claims[k + 1] == claim);
    }
}

/// Sorting a listing changes nothing about which devices it shows as
/// claimed.
pub proof fn lemma_sorted_claims_members(claims: Seq<(usize, u32)>, gpu_index: usize)
    ensures
        is_claimed(sorted_claims(claims), gpu_index) <==> is_claimed(claims, gpu_index),
{
    let sorted = sorted_claims(claims);
    lemma_sorted_claims(claims);
    if is_claimed(sorted, gpu_index) {
        let k = choose|k: int| 0 <= k < sorted.len() && (#[trigger] sorted[k]).0 == gpu_index;
        vstd::seq_lib::to_multiset_contains(sorted, sorted[k]);
        vstd::seq_lib::to_multiset_contains(claims, sorted[k]);
        let m = choose|m: int| 0 <= m < claims.len() && claims[m] == sorted[k];
        assert(claims[m].0 == gpu_index);
    }
    if is_claimed(claims, gpu_index) {
        let k = choose|k: int| 0 <= k < claims.len() && (#[trigger] claims[k]).0 == gpu_index;
        vstd::seq_lib::to_multiset_contains(sorted, claims[k]);
        vstd::seq_lib::to_multiset_contains(claims, claims[k]);
        let m = choose|m: int| 0 <= m < sorted.len() && sorted[m] == claims[k];
        assert(sorted[m].0 == gpu_index);
    }
}

fn sort_claims(claims: &Vec<(usize, u32)>) -> (sorted: Vec<(usize, u32)>)
    ensures
        sorted@ == sorted_claims(claims@),
{
    let mut sorted: Vec<(usize, u32)> = Vec::new();
    let mut i: usize = 0;
    while i < claims.len()
        invariant
            i <= claims.len(),
            sorted@ == sorted_claims(claims@.take(i as int)),
        decreases claims.len() - i,
    {
        let claim = claims[i];
        let mut at: usize = sorted.len();
        assert(sorted@.take(at as int) == sorted@);
        while at > 0 && claim.0 < sorted[at - 1].0
            invariant
                at <= sorted.len(),
                claim_position(sorted@, claim) == claim_position(sorted@.take(at as int), claim),
            decreases at,
        {
            assert(sorted@.take(at as int).drop_last() == sorted@.take(at - 1));
            at -= 1;
        }
        assert(claims@.take(i + 1).drop_last() == claims@.take(i as int));
        sorted.insert(at, claim);
        i += 1;
    }
    assert(claims@.take(claims@.len() as int) == claims@);
    sorted
}

/// The devices that the names of a directory listing stand for, in the order
/// of the listing; names that are no lock file's are passed over.
pub open spec fn lock_file_indices(names: Seq<Seq<char>>) -> Seq<usize>
    decreases names.len(),
{
    if names.len() == 0 {
        Seq::empty()
    } else {
        let front = lock_file_indices(names.drop_last());
        match lock_file_index(names.last()) {
            Some(gpu_index) => front.push(gpu_index),
            None => front,
        }
    }
}

fn parse_lock_file_names(names: &Vec<String>) -> (indices: Vec<usize>)
    ensures
        indices@ == lock_file_indices(texts_of(names@)),
{
    let ghost texts = texts_of(names@);
    let mut indices: Vec<usize> = Vec::new();
    let mut i: usize = 0;
    while i < names.len()
        invariant
            i <= names.len(),
            texts == texts_of(names@),
            indices@ == lock_file_indices(texts.take(i as int)),
        decreases names.len() - i,
    {
        assert(texts.take(i + 1).drop_last() == texts.take(i as int));
        if let Some(gpu_index) = parse_lock_file_name(names[i].as_str()) {
            indices.push(gpu_index);
        }
        i += 1;
    }
    assert(texts.take(texts.len() as int) == texts);
    indices
}

/// What a listing is doing.
#[derive(Debug, Clone, Copy, PartialEq, Eq)]
pub enum ListStage {
    /// Nothing has been asked yet; the lock directory is to be read.
    Start,
    /// Nothing has been asked yet; the devices to look up are given.
    Given,
    /// The names in the lock directory have been asked for.
    Listing,
    /// The claim on `gpu_index` is being looked up.
    Looking { gpu_index: usize, lookup: LookupPhase },
}

/// Where a listing stands.
#[derive(Debug, Clone, PartialEq, Eq)]
pub struct ListPhase {
    pub stage: ListStage,
    /// The devices still to look up, next one first.
    pub pending: Vec<usize>,
    /// The live claims found so far, in the order of the directory listing.
    pub found: Vec<(usize, u32)>,
}

/// A listing's phase as plain mathematical values.
pub struct ListPhaseView {
    pub stage: ListStage,
    pub pending: Seq<usize>,
    pub found: Seq<(usize, u32)>,
}

impl View for ListPhase {
    type V = ListPhaseView;

    open spec fn view(&self) -> ListPhaseView {
        ListPhaseView { stage: self.stage, pending: self.pending@, found: self.found@ }
    }
}

/// What a listing does next.
#[derive(Debug, Clone, PartialEq, Eq)]
pub enum ListStep {
    /// Make `request` and come back in `phase` with the reply.
    Ask { phase: ListPhase, request: StoreRequest },
    /// The live claims, by ascending device index.
    Done { claims: Vec<(usize, u32)> },
}

/// A listing's step as plain mathematical values.
pub enum ListStepView {
    Ask { phase: ListPhaseView, request: StoreRequest },
    Done { claims: Seq<(usize, u32)> },
}

impl View for ListStep {
    type V = ListStepView;

    open spec fn view(&self) -> ListStepView {
        match self {
            ListStep::Ask { phase, request } => ListStepView::Ask {
                phase: phase@,
                request: *request,
            },
            ListStep::Done { claims } => ListStepView::Done { claims: claims@ },
        }
    }
}

/// The claims found once the lookup of `gpu_index` has come to `claim`: a
/// live holder is added, unless the device is among the claims already.
pub open spec fn with_found(
    found: Seq<(usize, u32)>,
    gpu_index: usize,
    claim: Option<u32>,
) -> Seq<(usize, u32)> {
    match claim {
        Some(pid) => if is_claimed(found, gpu_index) {
            found
        } else {
            found.push((gpu_index, pid))
        },
        None => found,
    }
}

/// How a listing goes on once a lookup is over: with the lookup of the next
/// pending device, or with the sorted result when none is left.
pub open spec fn list_advance(pending: Seq<usize>, found: Seq<(usize, u32)>) -> ListStepView {
    if pending.len() == 0 {
        ListStepView::Done { claims: sorted_claims(found) }
    } else {
        ListStepView::Ask {
            phase: ListPhaseView {
                stage: ListStage::Looking { gpu_index: pending[0], lookup: LookupPhase::Reading },
                pending: pending.skip(1),
                found,
            },
            request: StoreRequest::ReadRecord { gpu_index: pending[0] },
        }
    }
}

/// The listing protocol. The names in the lock directory are read; a
/// directory that cannot be read holds no claims. For each name that is a
/// lock file's the claim on its device is looked up, which removes the
/// record if it is corrupt or stale. The claims that are live are returned
/// by ascending device index, each device once even where several names
/// stand for it. A listing of given devices skips the directory and looks up
/// those.
pub open spec fn list_step(phase: ListPhaseView, reply: Option<StoreReplyView>) -> ListStepView {
    match phase.stage {
        ListStage::Start => ListStepView::Ask {
            phase: ListPhaseView {
                stage: ListStage::Listing,
                pending: Seq::empty(),
                found: Seq::empty(),
            },
            request: StoreRequest::ListRecords,
        },
        ListStage::Given => list_advance(phase.pending, phase.found),
        ListStage::Listing => match reply {
            Some(StoreReplyView::Names { names }) => list_advance(
                lock_file_indices(names),
                Seq::empty(),
            ),
            _ => ListStepView::Done { claims: Seq::empty() },
        },
        ListStage::Looking { gpu_index, lookup } => match lookup_step(gpu_index, lookup, reply) {
            LookupStep::Ask { phase: lookup, request } => ListStepView::Ask {
                phase: ListPhaseView {
                    stage: ListStage::Looking { gpu_index, lookup },
                    pending: phase.pending,
                    found: phase.found,
                },
                request,
            },
            LookupStep::Done { claim } => list_advance(
                phase.pending,
                with_found(phase.found, gpu_index, claim),
            ),
        },
    }
}

fn advance_listing(pending: Vec<usize>, found: Vec<(usize, u32)>) -> (step: ListStep)
    ensures
        step@ == list_advance(pending@, found@),
{
    if pending.len() == 0 {
        ListStep::Done { claims: sort_claims(&found) }
    } else {
        let mut pending = pending;
        let gpu_index = pending.remove(0);
        ListStep::Ask {
            phase: ListPhase {
                stage: ListStage::Looking { gpu_index, lookup: LookupPhase::Reading },
                pending,
                found,
            },
            request: StoreRequest::ReadRecord { gpu_index },
        }
    }
}

impl ListPhase {
    /// The phase in which a listing begins.
    pub fn new() -> (phase: ListPhase)
        ensures
            phase@ == (ListPhaseView {
                stage: ListStage::Start,
                pending: Seq::empty(),
                found: Seq::empty(),
            }),
    {
        ListPhase { stage: ListStage::Start, pending: Vec::new(), found: Vec::new() }
    }

    /// The phase in which a listing of the claims on `devices` begins.
    pub fn for_devices(devices: Vec<usize>) -> (phase: ListPhase)
        ensures
            phase@ == (ListPhaseView {
                stage: ListStage::Given,
                pending: devices@,
                found: Seq::empty(),
            }),
    {
        ListPhase { stage: ListStage::Given, pending: devices, found: Vec::new() }
    }
}

/// One step of listing the live claims: begin in `ListPhase::new()`, or for
/// the claims on given devices in `ListPhase::for_devices(..)`, without a
/// reply; make each request that is asked for, and come back with its reply
/// until the step is `Done`.
pub fn get_claimed_gpus(phase: ListPhase, reply: Option<StoreReply>) -> (step: ListStep)
    ensures
        step@ == list_step(phase@, reply_view(reply)),
{
    let ListPhase { stage, pending, found } = phase;
    match stage {
        ListStage::Start => ListStep::Ask {
            phase: ListPhase { stage: ListStage::Listing, pending: Vec::new(), found: Vec::new() },
            request: StoreRequest::ListRecords,
        },
        ListStage::Given => advance_listing(pending, found),
        ListStage::Listing => match reply {
            Some(StoreReply::Names { names }) => advance_listing(
                parse_lock_file_names(&names),
                Vec::new(),
            ),
            _ => ListStep::Done { claims: Vec::new() },
        },
        ListStage::Looking { gpu_index, lookup } => match get_gpu_claim(gpu_index, lookup, reply) {
            LookupStep::Ask { phase: lookup, request } => ListStep::Ask {
                phase: ListPhase {
                    stage: ListStage::Looking { gpu_index, lookup },
                    pending,
                    found,
                },
                request,
            },
            LookupStep::Done { claim: Some(pid) } => {
                let mut found = found;
                if is_gpu_available(found.as_slice(), gpu_index) {
                    found.push((gpu_index, pid));
                }
                advance_listing(pending, found)
            },
            LookupStep::Done { claim: None } => advance_listing(pending, found),
        },
    }
}

} // verus!
