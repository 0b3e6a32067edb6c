//! GPU selection and cross-process claim coordination for a single host.
//!
//! Given a snapshot of every device's memory, utilization and attached
//! processes, the library ranks the devices that a new workload may use and
//! drives the lock-file protocol by which concurrent instances on one host
//! keep their hands off each other's devices.

use vstd::prelude::*;

pub mod claim_race;
pub mod cuda;
pub mod lock_store;
pub mod lockfile;
pub mod nvidia;
pub mod ranking;
pub mod selector;
pub mod seqs;
pub mod text;
pub mod wait;

use vstd::string::*;
use crate::text::{decimal, join_decimal, push_decimal, push_joined};

verus! {

/// Hidden usage up to this many MB is taken for driver jitter.
pub const HIDDEN_USAGE_THRESHOLD_MB: u64 = 512;

/// A device that uses this many MB or more is never idle.
pub const IDLE_MEMORY_THRESHOLD_MB: u64 = 500;

/// One device's telemetry at one point in time.
#[derive(Debug, Clone, Copy)]
pub struct GpuInfo {
    pub index: usize,
    pub memory_used_mb: u64,
    pub memory_total_mb: u64,
    pub utilization_percent: u8,
    pub process_count: usize,
    /// Memory in use that no visible process accounts for.
    pub hidden_usage_mb: u64,
}

impl GpuInfo {
    /// What `has_hidden_usage` returns.
    pub open spec fn spec_has_hidden_usage(&self, threshold_mb: u64) -> bool {
        self.hidden_usage_mb > threshold_mb
    }

    /// Whether the unattributed memory exceeds `threshold_mb`.
    #[verifier::when_used_as_spec(spec_has_hidden_usage)]
    pub fn has_hidden_usage(&self, threshold_mb: u64) -> (flagged: bool)
        ensures
            flagged == (self.hidden_usage_mb > threshold_mb),
    {
        self.hidden_usage_mb > threshold_mb
    }

    /// What `is_idle` returns.
    pub open spec fn spec_is_idle(&self) -> bool {
        &&& self.process_count == 0
        &&& self.memory_used_mb < IDLE_MEMORY_THRESHOLD_MB
        &&& self.hidden_usage_mb <= HIDDEN_USAGE_THRESHOLD_MB
    }

    /// A device is idle when nothing is attached to it and both its used and
    /// its unattributed memory stay within the fixed tolerances.
    #[verifier::when_used_as_spec(spec_is_idle)]
    pub fn is_idle(&self) -> (idle: bool)
        ensures
            idle == self.spec_is_idle(),
            self.process_count > 0 ==> !idle,
    {
        self.process_count == 0 && self.memory_used_mb < IDLE_MEMORY_THRESHOLD_MB
            && !self.has_hidden_usage(HIDDEN_USAGE_THRESHOLD_MB)
    }

    /// What `memory_free_mb` returns.
    pub open spec fn spec_memory_free_mb(&self) -> u64 {
        if self.memory_total_mb >= self.memory_used_mb {
            (self.memory_total_mb - self.memory_used_mb) as u64
        } else {
            0
        }
    }

    /// Total minus used memory, zero where more is used than there is.
    #[verifier::when_used_as_spec(spec_memory_free_mb)]
    pub fn memory_free_mb(&self) -> (free: u64)
        ensures
            free == self.spec_memory_free_mb(),
    {
        self.memory_total_mb.saturating_sub(self.memory_used_mb)
    }

    /// The text of `display`.
    pub open spec fn display_text(&self, usage_percent: Seq<char>) -> Seq<char> {
        "GPU "@ + decimal(self.index as nat) + ": "@ + (if self.is_idle() {
            "IDLE"@
        } else {
            "USED"@
        }) + " - "@ + decimal(self.memory_used_mb as nat) + "/"@ + decimal(
            self.memory_total_mb as nat,
        ) + " MB ("@ + usage_percent + "%), "@ + decimal(self.utilization_percent as nat)
            + " util, "@ + decimal(self.process_count as nat) + " processes"@ + (
        if self.has_hidden_usage(HIDDEN_USAGE_THRESHOLD_MB) {
            " (suspected hidden usage: "@ + decimal(self.hidden_usage_mb as nat) + " MB)"@
        } else {
            Seq::empty()
        })
    }

    /// The device as one line of a status listing. `usage_percent` is the
    /// share of the memory that is in use, as the caller wants it shown.
    /// Hidden usage is mentioned only where it exceeds the tolerance.
    pub fn display(&self, usage_percent: &str) -> (line: String)
        ensures
            line@ == self.display_text(usage_percent@),
    {
        let mut line = String::from_str("GPU ");
        push_decimal(&mut line, self.index as u64);
        line.append(": ");
        if self.is_idle() {
            line.append("IDLE");
        } else {
            line.append("USED");
        }
        line.append(" - ");
        push_decimal(&mut line, self.memory_used_mb);
        line.append("/");
        push_decimal(&mut line, self.memory_total_mb);
        line.append(" MB (");
        line.append(usage_percent);
        line.append("%), ");
        push_decimal(&mut line, self.utilization_percent as u64);
        line.append(" util, ");
        push_decimal(&mut line, self.process_count as u64);
        line.append(" processes");
        if self.has_hidden_usage(HIDDEN_USAGE_THRESHOLD_MB) {
            line.append(" (suspected hidden usage: ");
            push_decimal(&mut line, self.hidden_usage_mb);
            line.append(" MB)");
        }
        line
    }
}

/// No two devices share an index, as holds within one snapshot.
pub open spec fn distinct_indices(gpus: Seq<GpuInfo>) -> bool {
    forall|i: int, j: int| 0 <= i < j < gpus.len() ==> gpus[i].index != gpus[j].index
}

/// Whether the snapshot `gpus` holds a device with index `index`.
pub open spec fn has_device(gpus: Seq<GpuInfo>, index: usize) -> bool {
    exists|m: int| 0 <= m < gpus.len() && (#[trigger] gpus[m]).index == index
}

/// The devices chosen for one workload.
#[derive(Debug, Clone)]
pub struct GpuSelection {
    /// The chosen devices, best ranked first.
    pub gpu_indices: Vec<usize>,
    /// Whether every chosen device was idle.
    pub all_idle: bool,
    /// Set where busy devices had to be used.
    pub warning: Option<String>,
}

/// A selection as plain mathematical values.
pub struct GpuSelectionView {
    pub gpu_indices: Seq<usize>,
    pub all_idle: bool,
    pub warning: Option<Seq<char>>,
}

impl View for GpuSelection {
    type V = GpuSelectionView;

    open spec fn view(&self) -> GpuSelectionView {
        GpuSelectionView {
            gpu_indices: self.gpu_indices@,
            all_idle: self.all_idle,
            warning: match self.warning {
                Some(text) => Some(text@),
                None => None,
            },
        }
    }
}

impl GpuSelection {
    /// The chosen indices in the form that `CUDA_VISIBLE_DEVICES` takes:
    /// decimal, comma-separated, in ranked order.
    pub fn to_cuda_visible_devices(&self) -> (list: String)
        ensures
            list@ == join_decimal(self.gpu_indices@),
    {
        let mut list = String::new();
        push_joined(&mut list, self.gpu_indices.as_slice());
        list
    }
}

} // verus!
