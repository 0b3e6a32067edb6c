//! The candidate selector: which devices a workload gets, given one telemetry
//! snapshot, the live claims of other instances and the caller's criteria.
//!
//! Selection filters, ranks and takes. A device is a candidate unless it is
//! claimed, shows hidden memory usage or misses a threshold. Candidates are
//! ranked by most free memory, then fewest attached processes, then lowest
//! index. Without `require_idle` the ranking runs over idle and busy
//! candidates alike, so a busy device with more free memory is preferred to an
//! idle one with less, and a warning says so.

use vstd::prelude::*;
use vstd::string::*;
use crate::lockfile::{is_claimed, is_gpu_available};
use crate::ranking::{
    is_ranked, lemma_ranked_distinct, lemma_ranked_is_ranked, lemma_ranked_len,
    lemma_ranked_members, lemma_ties_broken_by_index, ranked, ranks_before, sort_by_most_free,
};
use crate::seqs::{
    lemma_filter_distinct, lemma_filter_member, lemma_filter_none, lemma_filter_take_step,
};
use crate::text::{
    chars_of, decimal, join_with, lemma_split_commas_stable, parse_number, parse_number_range,
    push_decimal, push_join, split_commas, texts_of, trim_range, trimmed,
};
use crate::{
    distinct_indices, has_device, GpuInfo, GpuSelection, GpuSelectionView,
    HIDDEN_USAGE_THRESHOLD_MB,
};

verus! {

/// What the caller asks of a selection.
#[derive(Debug, Clone, Copy)]
pub struct SelectionCriteria {
    pub min_gpus: usize,
    pub max_gpus: usize,
    pub require_idle: bool,
    /// Least free memory in MB; `None` sets no floor.
    pub min_memory_mb: Option<u64>,
    /// Highest utilization in percent; `None` sets no ceiling.
    pub max_utilization: Option<u8>,
}

impl Default for SelectionCriteria {
    /// One device, busy ones allowed, with 2048 MB free.
    fn default() -> (criteria: Self)
        ensures
            criteria == (SelectionCriteria {
                min_gpus: 1,
                max_gpus: 1,
                require_idle: false,
                min_memory_mb: Some(2048u64),
                max_utilization: None,
            }),
    {
        SelectionCriteria {
            min_gpus: 1,
            max_gpus: 1,
            require_idle: false,
            min_memory_mb: Some(2048),
            max_utilization: None,
        }
    }
}

/// Why criteria were turned down.
#[derive(Debug, Clone, Copy, PartialEq, Eq)]
pub enum CriteriaError {
    /// More devices are asked for at least than at most.
    MinAboveMax { min_gpus: usize, max_gpus: usize },
    /// The utilization ceiling is no percentage.
    UtilizationOutOfRange { max_utilization: u8 },
}

impl CriteriaError {
    /// The text of `message`.
    pub open spec fn message_text(self) -> Seq<char> {
        match self {
            CriteriaError::MinAboveMax { min_gpus, max_gpus } => "min-gpus ("@ + decimal(
                min_gpus as nat,
            ) + ") cannot be greater than max-gpus ("@ + decimal(max_gpus as nat) + ")"@,
            CriteriaError::UtilizationOutOfRange { max_utilization } => {
                "max-util must be between 0 and 100, got "@ + decimal(max_utilization as nat)
            },
        }
    }

    /// What to tell the user.
    pub fn message(&self) -> (text: String)
        ensures
            text@ == self.message_text(),
    {
        match self {
            CriteriaError::MinAboveMax { min_gpus, max_gpus } => {
                let mut text = String::from_str("min-gpus (");
                push_decimal(&mut text, *min_gpus as u64);
                text.append(") cannot be greater than max-gpus (");
                push_decimal(&mut text, *max_gpus as u64);
                text.append(")");
                text
            },
            CriteriaError::UtilizationOutOfRange { max_utilization } => {
                let mut text = String::from_str("max-util must be between 0 and 100, got ");
                push_decimal(&mut text, *max_utilization as u64);
                text
            },
        }
    }
}

impl SelectionCriteria {
    /// Criteria are consistent when they ask for no more devices at least
    /// than at most, and for a utilization ceiling that is a percentage.
    pub open spec fn consistent(&self) -> bool {
        &&& self.min_gpus <= self.max_gpus
        &&& (self.max_utilization matches Some(ceiling) ==> ceiling <= 100)
    }

    /// Checks that the criteria are consistent; the count of devices is
    /// looked at first.
    pub fn validate(&self) -> (result: Result<(), CriteriaError>)
        ensures
            result is Ok <==> self.consistent(),
            result matches Err(CriteriaError::MinAboveMax { min_gpus, max_gpus }) ==> {
                &&& self.min_gpus > self.max_gpus
                &&& min_gpus == self.min_gpus
                &&& max_gpus == self.max_gpus
            },
            result matches Err(CriteriaError::UtilizationOutOfRange { max_utilization }) ==> {
                &&& self.min_gpus <= self.max_gpus
                &&& self.max_utilization == Some(max_utilization)
                &&& max_utilization > 100
            },
    {
        if self.min_gpus > self.max_gpus {
            return Err(
                CriteriaError::MinAboveMax { min_gpus: self.min_gpus, max_gpus: self.max_gpus },
            );
        }
        if let Some(ceiling) = self.max_utilization {
            if ceiling > 100 {
                return Err(CriteriaError::UtilizationOutOfRange { max_utilization: ceiling });
            }
        }
        Ok(())
    }
}

/// How many devices of a snapshot each filter turned away. A device that
/// fails several filters is counted under each.
#[derive(Debug, Clone, Copy, PartialEq, Eq)]
pub struct ExclusionCounts {
    pub claimed: usize,
    pub hidden_usage: usize,
    pub low_memory: usize,
    pub high_utilization: usize,
}

/// Why a selection failed.
#[derive(Debug, Clone, Copy, PartialEq, Eq)]
pub enum SelectionError {
    /// The snapshot holds no device at all.
    NoDevicesDetected,
    /// Every device was filtered out.
    NoCandidatesMatch {
        excluded: ExclusionCounts,
        min_memory_mb: Option<u64>,
        max_utilization: Option<u8>,
    },
    /// Candidates exist, but fewer than `needed`.
    InsufficientCount { needed: usize, available: usize, idle_only: bool },
}

/// The reasons that a "no candidates" message lists: the claimed and the
/// hidden-usage devices where there are any, and each threshold that was set,
/// with the number of devices that missed it.
pub open spec fn exclusion_reasons(
    excluded: ExclusionCounts,
    min_memory_mb: Option<u64>,
    max_utilization: Option<u8>,
) -> Seq<Seq<char>> {
    let claimed = if excluded.claimed > 0 {
        seq![decimal(excluded.claimed as nat) + " GPU(s) claimed by other processes"@]
    } else {
        Seq::empty()
    };
    let hidden = if excluded.hidden_usage > 0 {
        seq![decimal(excluded.hidden_usage as nat) + " GPU(s) have suspected hidden memory usage"@]
    } else {
        Seq::empty()
    };
    let memory = match min_memory_mb {
        Some(floor) => seq![
            decimal(floor as nat) + "+ MB free memory required ("@ + decimal(
                excluded.low_memory as nat,
            ) + " GPU(s) below)"@,
        ],
        None => Seq::empty(),
    };
    let utilization = match max_utilization {
        Some(ceiling) => seq![
            "\u{2264}"@ + decimal(ceiling as nat) + "% utilization required ("@ + decimal(
                excluded.high_utilization as nat,
            ) + " GPU(s) above)"@,
        ],
        None => Seq::empty(),
    };
    claimed + hidden + memory + utilization
}

fn exclusion_reason_texts(
    excluded: &ExclusionCounts,
    min_memory_mb: Option<u64>,
    max_utilization: Option<u8>,
) -> (reasons: Vec<String>)
    ensures
        texts_of(reasons@) == exclusion_reasons(*excluded, min_memory_mb, max_utilization),
{
    let mut reasons: Vec<String> = Vec::new();
    if excluded.claimed > 0 {
        let mut reason = String::new();
        push_decimal(&mut reason, excluded.claimed as u64);
        reason.append(" GPU(s) claimed by other processes");
        reasons.push(reason);
    }
    if excluded.hidden_usage > 0 {
        let mut reason = String::new();
        push_decimal(&mut reason, excluded.hidden_usage as u64);
        reason.append(" GPU(s) have suspected hidden memory usage");
        reasons.push(reason);
    }
    if let Some(floor) = min_memory_mb {
        let mut reason = String::new();
        push_decimal(&mut reason, floor);
        reason.append("+ MB free memory required (");
        push_decimal(&mut reason, excluded.low_memory as u64);
        reason.append(" GPU(s) below)");
        reasons.push(reason);
    }
    if let Some(ceiling) = max_utilization {
        let mut reason = String::from_str("\u{2264}");
        push_decimal(&mut reason, ceiling as u64);
        reason.append("% utilization required (");
        push_decimal(&mut reason, excluded.high_utilization as u64);
        reason.append(" GPU(s) above)");
        reasons.push(reason);
    }
    reasons
}

impl SelectionError {
    /// The text of `message`.
    pub open spec fn message_text(self) -> Seq<char> {
        match self {
            SelectionError::NoDevicesDetected => "No GPUs detected"@,
            SelectionError::NoCandidatesMatch { excluded, min_memory_mb, max_utilization } => {
                "No GPUs found matching criteria: "@ + join_with(
                    exclusion_reasons(excluded, min_memory_mb, max_utilization),
                    ", "@,
                ) + " (use --status to see GPU state)"@
            },
            SelectionError::InsufficientCount { needed, available, idle_only } => {
                (if idle_only {
                    "Require "@ + decimal(needed as nat) + " idle GPUs but only "@
                } else {
                    "Need "@ + decimal(needed as nat) + " GPUs but only "@
                }) + decimal(available as nat) + " available (use --status to see GPU state)"@
            },
        }
    }

    /// What to tell the user: the counts behind a mismatch, and for an empty
    /// candidate set what each filter turned away.
    pub fn message(&self) -> (text: String)
        ensures
            text@ == self.message_text(),
    {
        match self {
            SelectionError::NoDevicesDetected => String::from_str("No GPUs detected"),
            SelectionError::NoCandidatesMatch { excluded, min_memory_mb, max_utilization } => {
                let reasons = exclusion_reason_texts(excluded, *min_memory_mb, *max_utilization);
                let mut text = String::from_str("No GPUs found matching criteria: ");
                push_join(&mut text, &reasons, ", ");
                text.append(" (use --status to see GPU state)");
                text
            },
            SelectionError::InsufficientCount { needed, available, idle_only } => {
                let mut text = if *idle_only {
                    String::from_str("Require ")
                } else {
                    String::from_str("Need ")
                };
                push_decimal(&mut text, *needed as u64);
                if *idle_only {
                    text.append(" idle GPUs but only ");
                } else {
                    text.append(" GPUs but only ");
                }
                push_decimal(&mut text, *available as u64);
                text.append(" available (use --status to see GPU state)");
                text
            },
        }
    }
}

/// Whether `gpu` survives the filter stage.
pub open spec fn passes_filter(
    gpu: GpuInfo,
    claims: Seq<(usize, u32)>,
    criteria: SelectionCriteria,
) -> bool {
    &&& !is_claimed(claims, gpu.index)
    &&& !gpu.has_hidden_usage(HIDDEN_USAGE_THRESHOLD_MB)
    &&& (criteria.min_memory_mb matches Some(floor) ==> gpu.memory_free_mb() >= floor)
    &&& (criteria.max_utilization matches Some(ceiling) ==> gpu.utilization_percent <= ceiling)
}

/// The filter stage as a predicate on devices.
pub open spec fn filter_pred(claims: Seq<(usize, u32)>, criteria: SelectionCriteria) -> spec_fn(
    GpuInfo,
) -> bool {
    |gpu: GpuInfo| passes_filter(gpu, claims, criteria)
}

/// Idleness as a predicate on devices.
pub open spec fn idle_pred() -> spec_fn(GpuInfo) -> bool {
    |gpu: GpuInfo| gpu.is_idle()
}

/// The opposite of idleness as a predicate on devices.
pub open spec fn busy_pred() -> spec_fn(GpuInfo) -> bool {
    |gpu: GpuInfo| !gpu.is_idle()
}

/// The devices of `gpus` that survive the filter stage, in snapshot order.
pub open spec fn candidates(
    gpus: Seq<GpuInfo>,
    claims: Seq<(usize, u32)>,
    criteria: SelectionCriteria,
) -> Seq<GpuInfo> {
    gpus.filter(filter_pred(claims, criteria))
}

fn check_filter(gpu: &GpuInfo, claims: &[(usize, u32)], criteria: &SelectionCriteria) -> (keep:
    bool)
    ensures
        keep == passes_filter(*gpu, claims@, *criteria),
{
    if !is_gpu_available(claims, gpu.index) {
        return false;
    }
    if gpu.has_hidden_usage(HIDDEN_USAGE_THRESHOLD_MB) {
        return false;
    }
    if let Some(floor) = criteria.min_memory_mb {
        if gpu.memory_free_mb() < floor {
            return false;
        }
    }
    if let Some(ceiling) = criteria.max_utilization {
        if gpu.utilization_percent > ceiling {
            return false;
        }
    }
    true
}

fn filter_candidates(
    gpus: &[GpuInfo],
    claims: &[(usize, u32)],
    criteria: &SelectionCriteria,
) -> (kept: Vec<GpuInfo>)
    ensures
        kept@ == candidates(gpus@, claims@, *criteria),
{
    let mut kept: Vec<GpuInfo> = Vec::new();
    let mut i: usize = 0;
    while i < gpus.len()
        invariant
            i <= gpus.len(),
            kept@ == candidates(gpus@.take(i as int), claims@, *criteria),
        decreases gpus.len() - i,
    {
        proof {
            lemma_filter_take_step(gpus@, filter_pred(claims@, *criteria), i as int);
        }
        if check_filter(&gpus[i], claims, criteria) {
            kept.push(gpus[i]);
        }
        i += 1;
    }
    assert(gpus@.take(gpus@.len() as int) == gpus@);
    kept
}

/// Splits `gpus` into the idle and the busy ones, each in the order given.
pub fn partition_gpus(gpus: &[GpuInfo]) -> (parts: (Vec<GpuInfo>, Vec<GpuInfo>))
    ensures
        parts.0@ == gpus@.filter(idle_pred()),
        parts.1@ == gpus@.filter(busy_pred()),
{
    let mut idle: Vec<GpuInfo> = Vec::new();
    let mut used: Vec<GpuInfo> = Vec::new();
    let mut i: usize = 0;
    while i < gpus.len()
        invariant
            i <= gpus.len(),
            idle@ == gpus@.take(i as int).filter(idle_pred()),
            used@ == gpus@.take(i as int).filter(busy_pred()),
        decreases gpus.len() - i,
    {
        proof {
            lemma_filter_take_step(gpus@, idle_pred(), i as int);
            lemma_filter_take_step(gpus@, busy_pred(), i as int);
        }
        if gpus[i].is_idle() {
            idle.push(gpus[i]);
        } else {
            used.push(gpus[i]);
        }
        i += 1;
    }
    assert(gpus@.take(gpus@.len() as int) == gpus@);
    (idle, used)
}

/// The device indices of `gpus`, in order.
pub open spec fn indices_of(gpus: Seq<GpuInfo>) -> Seq<usize> {
    gpus.map_values(|gpu: GpuInfo| gpu.index)
}

/// The indices of the first `count` devices of `sorted`.
pub(crate) fn leading_indices(sorted: &Vec<GpuInfo>, count: usize) -> (indices: Vec<usize>)
    requires
        count <= sorted.len(),
    ensures
        indices@ == indices_of(sorted@.take(count as int)),
{
    let mut indices: Vec<usize> = Vec::new();
    let mut i: usize = 0;
    while i < count
        invariant
            i <= count <= sorted.len(),
            indices@ == indices_of(sorted@.take(i as int)),
        decreases count - i,
    {
        indices.push(sorted[i].index);
        i += 1;
    }
    indices
}

fn count_busy(sorted: &Vec<GpuInfo>, count: usize) -> (busy: usize)
    requires
        count <= sorted.len(),
    ensures
        busy == sorted@.take(count as int).filter(busy_pred()).len(),
{
    let ghost chosen = sorted@.take(count as int);
    let mut busy: usize = 0;
    let mut i: usize = 0;
    while i < count
        invariant
            i <= count <= sorted.len(),
            chosen == sorted@.take(count as int),
            busy == chosen.take(i as int).filter(busy_pred()).len(),
            busy <= i,
        decreases count - i,
    {
        proof {
            lemma_filter_take_step(chosen, busy_pred(), i as int);
        }
        if !sorted[i].is_idle() {
            busy += 1;
        }
        i += 1;
    }
    assert(chosen.take(count as int) == chosen);
    busy
}

/// The devices that `claims` lists as held.
pub open spec fn claimed_pred(claims: Seq<(usize, u32)>) -> spec_fn(GpuInfo) -> bool {
    |gpu: GpuInfo| is_claimed(claims, gpu.index)
}

/// The devices with hidden usage beyond the tolerance.
pub open spec fn hidden_pred() -> spec_fn(GpuInfo) -> bool {
    |gpu: GpuInfo| gpu.has_hidden_usage(HIDDEN_USAGE_THRESHOLD_MB)
}

/// The devices with less free memory than the criteria ask for.
pub open spec fn low_memory_pred(criteria: SelectionCriteria) -> spec_fn(GpuInfo) -> bool {
    |gpu: GpuInfo| criteria.min_memory_mb matches Some(floor) && gpu.memory_free_mb() < floor
}

/// The devices with a higher utilization than the criteria allow.
pub open spec fn high_utilization_pred(criteria: SelectionCriteria) -> spec_fn(GpuInfo) -> bool {
    |gpu: GpuInfo|
        criteria.max_utilization matches Some(ceiling) && gpu.utilization_percent > ceiling
}

/// How many devices of `gpus` each filter turns away.
pub open spec fn exclusion_counts(
    gpus: Seq<GpuInfo>,
    claims: Seq<(usize, u32)>,
    criteria: SelectionCriteria,
) -> ExclusionCounts {
    ExclusionCounts {
        claimed: gpus.filter(claimed_pred(claims)).len() as usize,
        hidden_usage: gpus.filter(hidden_pred()).len() as usize,
        low_memory: gpus.filter(low_memory_pred(criteria)).len() as usize,
        high_utilization: gpus.filter(high_utilization_pred(criteria)).len() as usize,
    }
}

fn count_exclusions(
    gpus: &[GpuInfo],
    claims: &[(usize, u32)],
    criteria: &SelectionCriteria,
) -> (excluded: ExclusionCounts)
    ensures
        excluded == exclusion_counts(gpus@, claims@, *criteria),
{
    let mut claimed: usize = 0;
    let mut hidden_usage: usize = 0;
    let mut low_memory: usize = 0;
    let mut high_utilization: usize = 0;
    let mut i: usize = 0;
    while i < gpus.len()
        invariant
            i <= gpus.len(),
            claimed == gpus@.take(i as int).filter(claimed_pred(claims@)).len() <= i,
            hidden_usage == gpus@.take(i as int).filter(hidden_pred()).len() <= i,
            low_memory == gpus@.take(i as int).filter(low_memory_pred(*criteria)).len() <= i,
            high_utilization == gpus@.take(i as int).filter(
                high_utilization_pred(*criteria),
            ).len() <= i,
        decreases gpus.len() - i,
    {
        proof {
            lemma_filter_take_step(gpus@, claimed_pred(claims@), i as int);
            lemma_filter_take_step(gpus@, hidden_pred(), i as int);
            lemma_filter_take_step(gpus@, low_memory_pred(*criteria), i as int);
            lemma_filter_take_step(gpus@, high_utilization_pred(*criteria), i as int);
        }
        let gpu = &gpus[i];
        if !is_gpu_available(claims, gpu.index) {
            claimed += 1;
        }
        if gpu.has_hidden_usage(HIDDEN_USAGE_THRESHOLD_MB) {
            hidden_usage += 1;
        }
        if let Some(floor) = criteria.min_memory_mb {
            if gpu.memory_free_mb() < floor {
                low_memory += 1;
            }
        }
        if let Some(ceiling) = criteria.max_utilization {
            if gpu.utilization_percent > ceiling {
                high_utilization += 1;
            }
        }
        i += 1;
    }
    assert(gpus@.take(gpus@.len() as int) == gpus@);
    ExclusionCounts { claimed, hidden_usage, low_memory, high_utilization }
}

/// The warning attached to a selection that holds `busy` busy devices while
/// `idle` idle candidates existed.
pub open spec fn busy_warning(busy: nat, idle: nat) -> Seq<char> {
    "Warning: Using "@ + decimal(busy)
        + " non-idle GPU(s) with most available memory (only "@ + decimal(idle)
        + " idle GPU(s) available)"@
}

fn busy_warning_text(busy: usize, idle: usize) -> (text: String)
    ensures
        text@ == busy_warning(busy as nat, idle as nat),
{
    let mut text = String::from_str("Warning: Using ");
    push_decimal(&mut text, busy as u64);
    text.append(" non-idle GPU(s) with most available memory (only ");
    push_decimal(&mut text, idle as u64);
    text.append(" idle GPU(s) available)");
    text
}

/// Whether every device of `gpus` is idle.
pub open spec fn every_idle(gpus: Seq<GpuInfo>) -> bool {
    forall|k: int| 0 <= k < gpus.len() ==> (#[trigger] gpus[k]).is_idle()
}

/// The smaller of two numbers.
pub open spec fn spec_min(a: int, b: int) -> int {
    if a <= b {
        a
    } else {
        b
    }
}

/// The devices that a selection draws on: the candidates, or under
/// `require_idle` the idle ones among them.
pub open spec fn eligible(
    gpus: Seq<GpuInfo>,
    claims: Seq<(usize, u32)>,
    criteria: SelectionCriteria,
) -> Seq<GpuInfo> {
    if criteria.require_idle {
        candidates(gpus, claims, criteria).filter(idle_pred())
    } else {
        candidates(gpus, claims, criteria)
    }
}

/// The devices behind a successful selection, best ranked first: as many of
/// the eligible ones as `max_gpus` allows.
pub open spec fn chosen_devices(
    gpus: Seq<GpuInfo>,
    claims: Seq<(usize, u32)>,
    criteria: SelectionCriteria,
) -> Seq<GpuInfo> {
    let drawn = eligible(gpus, claims, criteria);
    ranked(drawn).take(spec_min(criteria.max_gpus as int, drawn.len() as int))
}

/// What a selection over `gpus` must return. A snapshot without devices is
/// a failure of its own. One without candidates is another, unless no device
/// is asked for. Fewer devices than `min_gpus` are a count mismatch: under
/// `require_idle` the idle candidates are counted, else the candidates that
/// `max_gpus` lets through. In every other case the best ranked eligible
/// devices are chosen, with a warning if any of them is busy.
pub open spec fn select_spec(
    gpus: Seq<GpuInfo>,
    claims: Seq<(usize, u32)>,
    criteria: SelectionCriteria,
) -> Result<GpuSelectionView, SelectionError> {
    let pool = candidates(gpus, claims, criteria);
    let chosen = chosen_devices(gpus, claims, criteria);
    let available = if criteria.require_idle {
        pool.filter(idle_pred()).len()
    } else {
        chosen.len()
    };
    if gpus.len() == 0 {
        Err(SelectionError::NoDevicesDetected)
    } else if pool.len() == 0 && criteria.min_gpus > 0 {
        Err(
            SelectionError::NoCandidatesMatch {
                excluded: exclusion_counts(gpus, claims, criteria),
                min_memory_mb: criteria.min_memory_mb,
                max_utilization: criteria.max_utilization,
            },
        )
    } else if available < criteria.min_gpus {
        Err(
            SelectionError::InsufficientCount {
                needed: criteria.min_gpus,
                available: available as usize,
                idle_only: criteria.require_idle,
            },
        )
    } else {
        Ok(
            GpuSelectionView {
                gpu_indices: indices_of(chosen),
                all_idle: every_idle(chosen),
                warning: if every_idle(chosen) {
                    None
                } else {
                    Some(
                        busy_warning(
                            chosen.filter(busy_pred()).len(),
                            pool.filter(idle_pred()).len(),
                        ),
                    )
                },
            },
        )
    }
}

/// As many devices are chosen as are eligible, up to `max_gpus`; and under
/// `require_idle` all of them are idle.
pub proof fn lemma_chosen_devices(
    gpus: Seq<GpuInfo>,
    claims: Seq<(usize, u32)>,
    criteria: SelectionCriteria,
)
    ensures
        chosen_devices(gpus, claims, criteria).len() == spec_min(
            criteria.max_gpus as int,
            eligible(gpus, claims, criteria).len() as int,
        ),
        eligible(gpus, claims, criteria).len() <= candidates(gpus, claims, criteria).len(),
        criteria.require_idle ==> every_idle(chosen_devices(gpus, claims, criteria)),
{
    let pool = candidates(gpus, claims, criteria);
    let drawn = eligible(gpus, claims, criteria);
    let chosen = chosen_devices(gpus, claims, criteria);
    lemma_ranked_len(drawn);
    lemma_ranked_members(drawn);
    if criteria.require_idle {
        assert forall|k: int| 0 <= k < chosen.len() implies (#[trigger] chosen[k]).is_idle() by {
            lemma_filter_member(pool, idle_pred(), chosen[k]);
        }
    }
}

/// A selection result as plain mathematical values.
pub open spec fn outcome_view(result: Result<GpuSelection, SelectionError>) -> Result<
    GpuSelectionView,
    SelectionError,
> {
    match result {
        Ok(selection) => Ok(selection@),
        Err(error) => Err(error),
    }
}

/// Chooses the devices for one workload from the snapshot `gpus`, leaving out
/// those that `claims` lists as held by a live process.
pub fn select_gpus(
    gpus: &[GpuInfo],
    claims: &[(usize, u32)],
    criteria: &SelectionCriteria,
) -> (result: Result<GpuSelection, SelectionError>)
    ensures
        outcome_view(result) == select_spec(gpus@, claims@, *criteria),
{
    if gpus.len() == 0 {
        return Err(SelectionError::NoDevicesDetected);
    }
    let filtered = filter_candidates(gpus, claims, criteria);
    proof {
        lemma_chosen_devices(gpus@, claims@, *criteria);
    }
    if filtered.len() == 0 {
        if criteria.min_gpus == 0 {
            assert(indices_of(chosen_devices(gpus@, claims@, *criteria)) == Seq::<usize>::empty());
            return Ok(GpuSelection { gpu_indices: Vec::new(), all_idle: true, warning: None });
        }
        return Err(
            SelectionError::NoCandidatesMatch {
                excluded: count_exclusions(gpus, claims, criteria),
                min_memory_mb: criteria.min_memory_mb,
                max_utilization: criteria.max_utilization,
            },
        );
    }
    let (idle_gpus, _used_gpus) = partition_gpus(filtered.as_slice());

    if criteria.require_idle {
        if idle_gpus.len() < criteria.min_gpus {
            return Err(
                SelectionError::InsufficientCount {
                    needed: criteria.min_gpus,
                    available: idle_gpus.len(),
                    idle_only: true,
                },
            );
        }
        let sorted_idle = sort_by_most_free(idle_gpus.as_slice());
        proof {
            lemma_ranked_len(idle_gpus@);
        }
        let count = if criteria.max_gpus < sorted_idle.len() {
            criteria.max_gpus
        } else {
            sorted_idle.len()
        };
        let gpu_indices = leading_indices(&sorted_idle, count);
        return Ok(GpuSelection { gpu_indices, all_idle: true, warning: None });
    }
    let all_sorted = sort_by_most_free(filtered.as_slice());
    proof {
        lemma_ranked_len(filtered@);
    }
    let count = if criteria.max_gpus < all_sorted.len() {
        criteria.max_gpus
    } else {
        all_sorted.len()
    };
    if count < criteria.min_gpus {
        return Err(
            SelectionError::InsufficientCount {
                needed: criteria.min_gpus,
                available: count,
                idle_only: false,
            },
        );
    }
    let busy = count_busy(&all_sorted, count);
    proof {
        lemma_filter_none(all_sorted@.take(count as int), busy_pred());
    }
    let warning = if busy > 0 {
        Some(busy_warning_text(busy, idle_gpus.len()))
    } else {
        None
    };
    let gpu_indices = leading_indices(&all_sorted, count);
    Ok(GpuSelection { gpu_indices, all_idle: busy == 0, warning })
}

/// Every eligible device is a device of the snapshot that survives the
/// filter stage, and under `require_idle` an idle one.
pub proof fn lemma_eligible_member(
    gpus: Seq<GpuInfo>,
    claims: Seq<(usize, u32)>,
    criteria: SelectionCriteria,
    gpu: GpuInfo,
)
    requires
        eligible(gpus, claims, criteria).contains(gpu),
    ensures
        gpus.contains(gpu),
        passes_filter(gpu, claims, criteria),
        criteria.require_idle ==> gpu.is_idle(),
{
    let pool = candidates(gpus, claims, criteria);
    if criteria.require_idle {
        lemma_filter_member(pool, idle_pred(), gpu);
    }
    lemma_filter_member(gpus, filter_pred(claims, criteria), gpu);
}

/// What holds of every successful selection. It names at most `max_gpus`
/// devices and, where the criteria are consistent, at least `min_gpus`. Each
/// is a device of the snapshot that is unclaimed, free of hidden usage and
/// within the thresholds, and under `require_idle` idle. They stand in rank
/// order, and no eligible device that was left out is strictly preferred to
/// one that was chosen. A warning is attached exactly when not all of them
/// are idle. Indices that are distinct in the snapshot are distinct in the
/// selection.
pub proof fn lemma_selection_sound(
    gpus: Seq<GpuInfo>,
    claims: Seq<(usize, u32)>,
    criteria: SelectionCriteria,
)
    requires
        select_spec(gpus, claims, criteria) is Ok,
    ensures
        ({
            let selection = select_spec(gpus, claims, criteria)->Ok_0;
            let chosen = chosen_devices(gpus, claims, criteria);
            &&& selection.gpu_indices.len() == chosen.len() <= criteria.max_gpus
            &&& criteria.min_gpus <= criteria.max_gpus ==> criteria.min_gpus <= chosen.len()
            &&& forall|k: int|
                0 <= k < chosen.len() ==> {
                    &&& gpus.contains(#[trigger] chosen[k])
                    &&& passes_filter(chosen[k], claims, criteria)
                    &&& !is_claimed(claims, chosen[k].index)
                    &&& !chosen[k].has_hidden_usage(HIDDEN_USAGE_THRESHOLD_MB)
                    &&& criteria.require_idle ==> chosen[k].is_idle()
                }
            &&& is_ranked(chosen)
            &&& forall|left_out: GpuInfo, k: int|
                #![trigger ranks_before(&left_out, &chosen[k])]
                eligible(gpus, claims, criteria).contains(left_out) && !chosen.contains(left_out)
                    && 0 <= k < chosen.len() ==> !ranks_before(&left_out, &chosen[k])
            &&& selection.warning is None <==> selection.all_idle
            &&& distinct_indices(gpus) ==> selection.gpu_indices.no_duplicates()
        }),
{
    let pool = candidates(gpus, claims, criteria);
    let drawn = eligible(gpus, claims, criteria);
    let chosen = chosen_devices(gpus, claims, criteria);
    lemma_ranked_len(drawn);
    lemma_ranked_members(drawn);
    lemma_ranked_is_ranked(drawn);
    assert forall|k: int| 0 <= k < chosen.len() implies {
        &&& gpus.contains(#[trigger] chosen[k])
        &&& passes_filter(chosen[k], claims, criteria)
        &&& !is_claimed(claims, chosen[k].index)
        &&& !chosen[k].has_hidden_usage(HIDDEN_USAGE_THRESHOLD_MB)
        &&& criteria.require_idle ==> chosen[k].is_idle()
    } by {
        lemma_eligible_member(gpus, claims, criteria, chosen[k]);
    }
    assert(is_ranked(chosen));
    assert forall|left_out: GpuInfo, k: int|
        #![trigger ranks_before(&left_out, &chosen[k])]
        drawn.contains(left_out) && !chosen.contains(left_out) && 0 <= k
            < chosen.len() implies !ranks_before(&left_out, &chosen[k]) by {
        let m = choose|m: int| 0 <= m < ranked(drawn).len() && ranked(drawn)[m] == left_out;
        if m < chosen.len() {
            assert(chosen[m] == left_out);
        }
        assert(!ranks_before(&ranked(drawn)[m], &ranked(drawn)[k]));
    }
    if distinct_indices(gpus) {
        lemma_filter_distinct(gpus, filter_pred(claims, criteria));
        if criteria.require_idle {
            lemma_filter_distinct(pool, idle_pred());
        }
        lemma_ranked_distinct(drawn);
        assert(indices_of(chosen).no_duplicates());
    }
}

/// In a snapshot without two devices of one index, `all_idle` speaks of the
/// devices that the selection names: it is set exactly when every device of
/// the snapshot whose index is selected is idle.
pub proof fn lemma_all_idle_by_index(
    gpus: Seq<GpuInfo>,
    claims: Seq<(usize, u32)>,
    criteria: SelectionCriteria,
)
    requires
        select_spec(gpus, claims, criteria) is Ok,
        distinct_indices(gpus),
    ensures
        ({
            let selection = select_spec(gpus, claims, criteria)->Ok_0;
            selection.all_idle <==> forall|k: int, m: int|
                0 <= k < selection.gpu_indices.len() && 0 <= m < gpus.len() && (
                #[trigger] gpus[m]).index == #[trigger] selection.gpu_indices[k]
                    ==> gpus[m].is_idle()
        }),
{
    let selection = select_spec(gpus, claims, criteria)->Ok_0;
    let chosen = chosen_devices(gpus, claims, criteria);
    lemma_selection_sound(gpus, claims, criteria);
    if selection.all_idle {
        assert forall|k: int, m: int|
            0 <= k < selection.gpu_indices.len() && 0 <= m < gpus.len() && (
            #[trigger] gpus[m]).index == #[trigger] selection.gpu_indices[k] implies gpus[m].is_idle() by {
            assert(gpus.contains(chosen[k]));
            let n = choose|n: int| 0 <= n < gpus.len() && gpus[n] == chosen[k];
            if n < m {
                assert(gpus[n].index != gpus[m].index);
            } else if m < n {
                assert(gpus[m].index != gpus[n].index);
            }
            assert(chosen[k].is_idle());
        }
    } else {
        let k = choose|k: int| 0 <= k < chosen.len() && !(#[trigger] chosen[k]).is_idle();
        assert(gpus.contains(chosen[k]));
        let n = choose|n: int| 0 <= n < gpus.len() && gpus[n] == chosen[k];
        assert(gpus[n].index == selection.gpu_indices[k]);
    }
}

/// A selection succeeds on every snapshot that holds a device, under
/// consistent criteria, as soon as `min_gpus` devices are eligible. It then
/// names between `min_gpus` and `max_gpus` devices of the snapshot, none of
/// them twice.
pub proof fn lemma_selection_succeeds(
    gpus: Seq<GpuInfo>,
    claims: Seq<(usize, u32)>,
    criteria: SelectionCriteria,
)
    requires
        gpus.len() > 0,
        distinct_indices(gpus),
        criteria.min_gpus <= criteria.max_gpus,
        eligible(gpus, claims, criteria).len() >= criteria.min_gpus,
    ensures
        select_spec(gpus, claims, criteria) is Ok,
        ({
            let indices = select_spec(gpus, claims, criteria)->Ok_0.gpu_indices;
            &&& criteria.min_gpus <= indices.len() <= criteria.max_gpus
            &&& indices.no_duplicates()
            &&& forall|k: int| 0 <= k < indices.len() ==> has_device(gpus, #[trigger] indices[k])
        }),
{
    lemma_chosen_devices(gpus, claims, criteria);
    lemma_selection_sound(gpus, claims, criteria);
    let indices = select_spec(gpus, claims, criteria)->Ok_0.gpu_indices;
    let chosen = chosen_devices(gpus, claims, criteria);
    assert forall|k: int| 0 <= k < indices.len() implies has_device(
        gpus,
        #[trigger] indices[k],
    ) by {
        let m = choose|m: int| 0 <= m < gpus.len() && gpus[m] == chosen[k];
        assert(gpus[m].index == indices[k]);
    }
}

/// Selection is a function of its inputs: two results for one snapshot, one
/// set of claims and the same criteria agree in every index, in their order,
/// in `all_idle` and in the warning.
pub proof fn lemma_selection_repeatable(
    first: Result<GpuSelection, SelectionError>,
    second: Result<GpuSelection, SelectionError>,
    gpus: Seq<GpuInfo>,
    claims: Seq<(usize, u32)>,
    criteria: SelectionCriteria,
)
    requires
        outcome_view(first) == select_spec(gpus, claims, criteria),
        outcome_view(second) == select_spec(gpus, claims, criteria),
    ensures
        outcome_view(first) == outcome_view(second),
{
}

/// Within a selection, of two devices with as much free memory and as many
/// attached processes the one with the lower index is named first.
pub proof fn lemma_selection_tie_break(
    gpus: Seq<GpuInfo>,
    claims: Seq<(usize, u32)>,
    criteria: SelectionCriteria,
    i: int,
    j: int,
)
    requires
        select_spec(gpus, claims, criteria) is Ok,
        0 <= i < j < chosen_devices(gpus, claims, criteria).len(),
        chosen_devices(gpus, claims, criteria)[i].memory_free_mb() == chosen_devices(
            gpus,
            claims,
            criteria,
        )[j].memory_free_mb(),
        chosen_devices(gpus, claims, criteria)[i].process_count == chosen_devices(
            gpus,
            claims,
            criteria,
        )[j].process_count,
    ensures
        ({
            let indices = select_spec(gpus, claims, criteria)->Ok_0.gpu_indices;
            &&& indices[i] <= indices[j]
            &&& distinct_indices(gpus) ==> indices[i] < indices[j]
        }),
{
    let pool = candidates(gpus, claims, criteria);
    let drawn = eligible(gpus, claims, criteria);
    lemma_ranked_len(drawn);
    if distinct_indices(gpus) {
        lemma_filter_distinct(gpus, filter_pred(claims, criteria));
        if criteria.require_idle {
            lemma_filter_distinct(pool, idle_pred());
        }
    }
    lemma_ties_broken_by_index(drawn, i, j);
}

/// Why a manual choice of devices was turned down.
#[derive(Debug, Clone, PartialEq, Eq)]
pub enum ManualSelectionError {
    /// A piece of the list is no device index.
    InvalidGpuId { text: String },
    /// The snapshot holds no device at all.
    NoGpusDetected,
    /// The snapshot holds no device with this index.
    GpuNotFound { index: usize, highest: usize },
}

impl ManualSelectionError {
    /// The text of `message`.
    pub open spec fn message_text(self) -> Seq<char> {
        match self {
            ManualSelectionError::InvalidGpuId { text } => "Invalid GPU ID: '"@ + text@ + "'"@,
            ManualSelectionError::NoGpusDetected => "No GPUs detected on this system"@,
            ManualSelectionError::GpuNotFound { index, highest } => "GPU "@ + decimal(
                index as nat,
            ) + " not found (available: 0-"@ + decimal(highest as nat) + ")"@,
        }
    }

    /// What to tell the user.
    pub fn message(&self) -> (text: String)
        ensures
            text@ == self.message_text(),
    {
        match self {
            ManualSelectionError::InvalidGpuId { text } => {
                let mut message = String::from_str("Invalid GPU ID: '");
                message.append(text.as_str());
                message.append("'");
                message
            },
            ManualSelectionError::NoGpusDetected => String::from_str(
                "No GPUs detected on this system",
            ),
            ManualSelectionError::GpuNotFound { index, highest } => {
                let mut message = String::from_str("GPU ");
                push_decimal(&mut message, *index as u64);
                message.append(" not found (available: 0-");
                push_decimal(&mut message, *highest as u64);
                message.append(")");
                message
            },
        }
    }
}

/// The device index that one piece of a manual list denotes: white space at
/// both ends aside, an optional `+` and decimal digits that fit a `usize`.
pub open spec fn parse_gpu_id(piece: Seq<char>) -> Option<usize> {
    match parse_number(trimmed(piece), usize::MAX as nat) {
        Some(index) => Some(index as usize),
        None => None,
    }
}

/// The indices that `pieces` denote, or the first piece that denotes none.
pub open spec fn parse_pieces(pieces: Seq<Seq<char>>) -> Result<Seq<usize>, Seq<char>>
    decreases pieces.len(),
{
    if pieces.len() == 0 {
        Ok(Seq::empty())
    } else {
        match parse_pieces(pieces.drop_last()) {
            Err(text) => Err(text),
            Ok(indices) => match parse_gpu_id(pieces.last()) {
                Some(index) => Ok(indices.push(index)),
                None => Err(pieces.last()),
            },
        }
    }
}

/// Once a piece denotes no index, no further piece changes the outcome.
pub proof fn lemma_parse_pieces_stops(pieces: Seq<Seq<char>>, n: int)
    requires
        0 <= n <= pieces.len(),
        parse_pieces(pieces.take(n)) is Err,
    ensures
        parse_pieces(pieces) == parse_pieces(pieces.take(n)),
    decreases pieces.len() - n,
{
    if n < pieces.len() {
        assert(pieces.take(n + 1).drop_last() == pieces.take(n));
        lemma_parse_pieces_stops(pieces, n + 1);
    } else {
        assert(pieces.take(n) == pieces);
    }
}

proof fn lemma_parse_pieces_fails(closed: Seq<Seq<char>>, s: Seq<char>, i: int)
    requires
        0 <= i < s.len(),
        s[i] == ',',
        split_commas(s.take(i)) == closed,
        parse_pieces(closed) is Err,
    ensures
        parse_pieces(split_commas(s)) == parse_pieces(closed),
{
    lemma_split_commas_stable(s, i, s.len() as int);
    assert(s.take(s.len() as int) == s);
    lemma_parse_pieces_stops(split_commas(s), closed.len() as int);
}

fn parse_piece(input: &str, chars: &[char], from: usize, to: usize) -> (result: Result<
    usize,
    ManualSelectionError,
>)
    requires
        chars@ == input@,
        from <= to <= chars.len(),
    ensures
        match result {
            Ok(index) => parse_gpu_id(input@.subrange(from as int, to as int)) == Some(index),
            Err(ManualSelectionError::InvalidGpuId { text }) => {
                &&& parse_gpu_id(input@.subrange(from as int, to as int)) is None
                &&& text@ == input@.subrange(from as int, to as int)
            },
            Err(_) => false,
        },
{
    let (lo, hi) = trim_range(chars, from, to);
    match parse_number_range(chars, lo, hi, usize::MAX as u64) {
        Some(index) => Ok(index as usize),
        None => Err(
            ManualSelectionError::InvalidGpuId {
                text: String::from_str(input.substring_char(from, to)),
            },
        ),
    }
}

/// Reads a manual choice of devices such as `1` or `0,1,2`: the pieces
/// between the commas, each one a device index. Fails on the first piece that
/// is none, and hands that piece back.
pub fn parse_manual_gpu_selection(input: &str) -> (result: Result<
    Vec<usize>,
    ManualSelectionError,
>)
    ensures
        match result {
            Ok(indices) => parse_pieces(split_commas(input@)) == Ok::<Seq<usize>, Seq<char>>(
                indices@,
            ),
            Err(ManualSelectionError::InvalidGpuId { text }) => parse_pieces(
                split_commas(input@),
            ) == Err::<Seq<usize>, Seq<char>>(text@),
            Err(_) => false,
        },
{
    let chars = chars_of(input);
    let mut indices: Vec<usize> = Vec::new();
    let ghost mut done: Seq<Seq<char>> = Seq::empty();
    let mut start: usize = 0;
    let mut i: usize = 0;
    proof {
        assert(chars@.subrange(0, 0) == Seq::<char>::empty());
    }
    while i < chars.len()
        invariant
            chars@ == input@,
            start <= i <= chars.len(),
            split_commas(chars@.take(i as int)) == done.push(
                chars@.subrange(start as int, i as int),
            ),
            parse_pieces(done) == Ok::<Seq<usize>, Seq<char>>(indices@),
        decreases chars.len() - i,
    {
        let ghost piece = chars@.subrange(start as int, i as int);
        assert(chars@.take(i + 1).drop_last() == chars@.take(i as int));
        assert(done.push(piece).drop_last() == done);
        if chars[i] == ',' {
            match parse_piece(input, chars.as_slice(), start, i) {
                Ok(index) => {
                    indices.push(index);
                },
                Err(error) => {
                    proof {
                        lemma_parse_pieces_fails(done.push(piece), chars@, i as int);
                    }
                    return Err(error);
                },
            }
            proof {
                done = done.push(piece);
            }
            start = i + 1;
            assert(chars@.subrange(start as int, start as int) == Seq::<char>::empty());
        } else {
            assert(chars@.subrange(start as int, i + 1) == piece.push(chars@[i as int]));
        }
        i += 1;
    }
    assert(chars@.take(chars@.len() as int) == chars@);
    let ghost piece = chars@.subrange(start as int, i as int);
    assert(done.push(piece).drop_last() == done);
    match parse_piece(input, chars.as_slice(), start, i) {
        Ok(index) => {
            indices.push(index);
            Ok(indices)
        },
        Err(error) => Err(error),
    }
}

fn contains_index(indices: &[usize], index: usize) -> (found: bool)
    ensures
        found == indices@.contains(index),
{
    let mut k: usize = 0;
    while k < indices.len()
        invariant
            k <= indices.len(),
            forall|j: int| 0 <= j < k ==> indices@[j] != index,
        decreases indices.len() - k,
    {
        if indices[k] == index {
            return true;
        }
        k += 1;
    }
    false
}

fn holds_device(gpus: &[GpuInfo], index: usize) -> (found: bool)
    ensures
        found == has_device(gpus@, index),
{
    let mut k: usize = 0;
    while k < gpus.len()
        invariant
            k <= gpus.len(),
            forall|j: int| 0 <= j < k ==> (#[trigger] gpus@[j]).index != index,
        decreases gpus.len() - k,
    {
        if gpus[k].index == index {
            return true;
        }
        k += 1;
    }
    false
}

/// Checks a manual choice against the snapshot: every index named must belong
/// to a device of the snapshot. Fails on the first one that does not.
pub fn validate_manual_selection(gpus: &[GpuInfo], indices: &[usize]) -> (result: Result<
    (),
    ManualSelectionError,
>)
    ensures
        match result {
            Ok(()) => {
                &&& gpus@.len() > 0
                &&& forall|k: int|
                    0 <= k < indices@.len() ==> has_device(gpus@, #[trigger] indices@[k])
            },
            Err(ManualSelectionError::NoGpusDetected) => gpus@.len() == 0,
            Err(ManualSelectionError::GpuNotFound { index, highest }) => {
                &&& gpus@.len() > 0
                &&& highest == gpus@.len() - 1
                &&& !has_device(gpus@, index)
                &&& exists|k: int|
                    {
                        &&& 0 <= k < indices@.len()
                        &&& #[trigger] indices@[k] == index
                        &&& forall|j: int| 0 <= j < k ==> has_device(gpus@, #[trigger] indices@[j])
                    }
            },
            Err(ManualSelectionError::InvalidGpuId { .. }) => false,
        },
{
    if gpus.len() == 0 {
        return Err(ManualSelectionError::NoGpusDetected);
    }
    let mut k: usize = 0;
    while k < indices.len()
        invariant
            k <= indices.len(),
            gpus@.len() > 0,
            forall|j: int| 0 <= j < k ==> has_device(gpus@, #[trigger] indices@[j]),
        decreases indices.len() - k,
    {
        if !holds_device(gpus, indices[k]) {
            return Err(
                ManualSelectionError::GpuNotFound { index: indices[k], highest: gpus.len() - 1 },
            );
        }
        k += 1;
    }
    Ok(())
}

/// The devices that a manual choice names.
pub open spec fn manual_pred(indices: Seq<usize>) -> spec_fn(GpuInfo) -> bool {
    |gpu: GpuInfo| indices.contains(gpu.index)
}

/// The devices that a selection may consider: those of the snapshot that a
/// manual choice names, in snapshot order, or all of them where there is no
/// manual choice.
pub open spec fn manual_candidates(gpus: Seq<GpuInfo>, manual: Option<Seq<usize>>) -> Seq<
    GpuInfo,
> {
    match manual {
        Some(indices) => gpus.filter(manual_pred(indices)),
        None => gpus,
    }
}

/// A manual choice as plain mathematical values.
pub open spec fn manual_view(manual: Option<Vec<usize>>) -> Option<Seq<usize>> {
    match manual {
        Some(indices) => Some(indices@),
        None => None,
    }
}

/// Narrows a snapshot to the devices that a manual choice names.
pub fn candidate_gpus(gpus: &[GpuInfo], manual_gpu_indices: &Option<Vec<usize>>) -> (kept: Vec<
    GpuInfo,
>)
    ensures
        kept@ == manual_candidates(gpus@, manual_view(*manual_gpu_indices)),
{
    let mut kept: Vec<GpuInfo> = Vec::new();
    let mut i: usize = 0;
    while i < gpus.len()
        invariant
            i <= gpus.len(),
            kept@ == manual_candidates(gpus@.take(i as int), manual_view(*manual_gpu_indices)),
        decreases gpus.len() - i,
    {
        let keep = match manual_gpu_indices {
            Some(indices) => {
                proof {
                    lemma_filter_take_step(gpus@, manual_pred(indices@), i as int);
                }
                contains_index(indices.as_slice(), gpus[i].index)
            },
            None => {
                true
            },
        };
        if keep {
            kept.push(gpus[i]);
        }
        i += 1;
    }
    assert(gpus@.take(gpus@.len() as int) == gpus@);
    kept
}

} // verus!
