//! Telemetry: how the readings of the management library and of the CUDA
//! driver become one device record, and the records of one query a
//! snapshot.
//!
//! The driver's memory figures are preferred where it has any for a device,
//! since the management library's can be stale. Memory that is in use but
//! that no reported process accounts for is the device's hidden usage.

use vstd::prelude::*;
use crate::cuda::{CudaMemoryInfo, BYTES_PER_MB};
use crate::GpuInfo;

verus! {

/// The device memory that one attached process uses, where it is known.
#[derive(Debug, Clone, Copy, PartialEq, Eq)]
pub enum ProcessMemory {
    /// So many bytes.
    Used(u64),
    /// The management library cannot tell.
    Unavailable,
}

/// What the management library reports of one device.
#[derive(Debug, Clone)]
pub struct DeviceReading {
    pub index: u32,
    pub memory_used_bytes: u64,
    pub memory_total_bytes: u64,
    /// Percent of time over the past sample period in which the device was
    /// busy.
    pub utilization_gpu: u32,
    /// One entry for each attached compute process.
    pub process_memory: Vec<ProcessMemory>,
}

/// The whole MB that one process's memory comes to; nothing where it is not
/// known.
pub open spec fn process_mb(memory: ProcessMemory) -> nat {
    match memory {
        ProcessMemory::Used(bytes) => (bytes / BYTES_PER_MB) as nat,
        ProcessMemory::Unavailable => 0,
    }
}

/// The memory in MB that the processes account for.
pub open spec fn attributed_mb(processes: Seq<ProcessMemory>) -> nat
    decreases processes.len(),
{
    if processes.len() == 0 {
        0
    } else {
        attributed_mb(processes.drop_last()) + process_mb(processes.last())
    }
}

/// The first of the driver's reports that is about device `index`.
pub open spec fn driver_report(cuda_memory: Seq<CudaMemoryInfo>, index: usize) -> Option<
    CudaMemoryInfo,
>
    decreases cuda_memory.len(),
{
    if cuda_memory.len() == 0 {
        None
    } else if cuda_memory[0].device_index == index {
        Some(cuda_memory[0])
    } else {
        driver_report(cuda_memory.skip(1), index)
    }
}

/// The record of the device that `index`, `used_bytes` and the rest were
/// read from.
pub open spec fn gpu_record(
    index: u32,
    used_bytes: u64,
    total_bytes: u64,
    utilization_gpu: u32,
    processes: Seq<ProcessMemory>,
    cuda_memory: Seq<CudaMemoryInfo>,
) -> GpuInfo {
    let used_mb = match driver_report(cuda_memory, index as usize) {
        Some(report) => report.used_mb(),
        None => used_bytes / BYTES_PER_MB,
    };
    let total_mb = match driver_report(cuda_memory, index as usize) {
        Some(report) => report.total_mb(),
        None => total_bytes / BYTES_PER_MB,
    };
    GpuInfo {
        index: index as usize,
        memory_used_mb: used_mb,
        memory_total_mb: total_mb,
        utilization_percent: utilization_gpu as u8,
        process_count: processes.len() as usize,
        hidden_usage_mb: if used_mb >= attributed_mb(processes) {
            (used_mb - attributed_mb(processes)) as u64
        } else {
            0
        },
    }
}

fn find_driver_report(cuda_memory: &[CudaMemoryInfo], index: usize) -> (report: Option<
    CudaMemoryInfo,
>)
    ensures
        report == driver_report(cuda_memory@, index),
{
    let mut k: usize = 0;
    assert(cuda_memory@.skip(0) == cuda_memory@);
    while k < cuda_memory.len()
        invariant
            k <= cuda_memory.len(),
            driver_report(cuda_memory@, index) == driver_report(cuda_memory@.skip(k as int), index),
        decreases cuda_memory.len() - k,
    {
        if cuda_memory[k].device_index == index {
            return Some(cuda_memory[k]);
        }
        assert(cuda_memory@.skip(k as int).skip(1) == cuda_memory@.skip(k + 1));
        k += 1;
    }
    None
}

/// The memory that `processes` account for, in MB; `u64::MAX` stands for
/// that and for anything beyond.
fn sum_attributed(processes: &[ProcessMemory]) -> (total: u64)
    ensures
        total == if attributed_mb(processes@) <= u64::MAX {
            attributed_mb(processes@)
        } else {
            u64::MAX as nat
        },
{
    let mut total: u64 = 0;
    let mut k: usize = 0;
    while k < processes.len()
        invariant
            k <= processes.len(),
            total == if attributed_mb(processes@.take(k as int)) <= u64::MAX {
                attributed_mb(processes@.take(k as int))
            } else {
                u64::MAX as nat
            },
        decreases processes.len() - k,
    {
        assert(processes@.take(k + 1).drop_last() == processes@.take(k as int));
        if let ProcessMemory::Used(bytes) = processes[k] {
            total = total.saturating_add(bytes / BYTES_PER_MB);
        }
        k += 1;
    }
    assert(processes@.take(processes@.len() as int) == processes@);
    total
}

fn build_gpu_info(reading: &DeviceReading, cuda_memory: &[CudaMemoryInfo]) -> (gpu: GpuInfo)
    ensures
        gpu == gpu_record(
            reading.index,
            reading.memory_used_bytes,
            reading.memory_total_bytes,
            reading.utilization_gpu,
            reading.process_memory@,
            cuda_memory@,
        ),
{
    let index = reading.index as usize;
    let (memory_used_mb, memory_total_mb) = match find_driver_report(cuda_memory, index) {
        Some(report) => (report.used_mb(), report.total_mb()),
        None => (
            reading.memory_used_bytes / BYTES_PER_MB,
            reading.memory_total_bytes / BYTES_PER_MB,
        ),
    };
    let attributed = sum_attributed(reading.process_memory.as_slice());
    GpuInfo {
        index,
        memory_used_mb,
        memory_total_mb,
        utilization_percent: #[verifier::truncate]
        (reading.utilization_gpu as u8),
        process_count: reading.process_memory.len(),
        hidden_usage_mb: memory_used_mb.saturating_sub(attributed),
    }
}

/// The snapshot that the readings of one query make: one record for each
/// device that could be read, in the order read. A device whose reading
/// failed is left out.
pub open spec fn snapshot_of(
    readings: Seq<Option<DeviceReading>>,
    cuda_memory: Seq<CudaMemoryInfo>,
) -> Seq<GpuInfo>
    decreases readings.len(),
{
    if readings.len() == 0 {
        Seq::empty()
    } else {
        let front = snapshot_of(readings.drop_last(), cuda_memory);
        match readings.last() {
            Some(reading) => front.push(
                gpu_record(
                    reading.index,
                    reading.memory_used_bytes,
                    reading.memory_total_bytes,
                    reading.utilization_gpu,
                    reading.process_memory@,
                    cuda_memory,
                ),
            ),
            None => front,
        }
    }
}

/// Turns the readings of one query into the snapshot. `None` stands for a
/// device that could not be read; it is left out, and the others stay.
pub fn query_gpus(readings: &[Option<DeviceReading>], cuda_memory: &[CudaMemoryInfo]) -> (gpus:
    Vec<GpuInfo>)
    ensures
        gpus@ == snapshot_of(readings@, cuda_memory@),
{
    let mut gpus: Vec<GpuInfo> = Vec::new();
    let mut i: usize = 0;
    while i < readings.len()
        invariant
            i <= readings.len(),
            gpus@ == snapshot_of(readings@.take(i as int), cuda_memory@),
        decreases readings.len() - i,
    {
        assert(readings@.take(i + 1).drop_last() == readings@.take(i as int));
        if let Some(reading) = &readings[i] {
            let gpu = build_gpu_info(reading, cuda_memory);
            gpus.push(gpu);
        }
        i += 1;
    }
    assert(readings@.take(readings@.len() as int) == readings@);
    gpus
}

} // verus!
