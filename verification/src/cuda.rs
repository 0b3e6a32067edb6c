//! Device memory as the CUDA driver reports it.

use vstd::prelude::*;

verus! {

/// Bytes in one MB.
pub const BYTES_PER_MB: u64 = 1024 * 1024;

/// The free and total memory of one device, in bytes.
#[derive(Debug, Clone, Copy)]
pub struct CudaMemoryInfo {
    pub device_index: usize,
    pub free_bytes: u64,
    pub total_bytes: u64,
}

impl CudaMemoryInfo {
    /// What `used_bytes` returns.
    pub open spec fn spec_used_bytes(&self) -> u64 {
        if self.total_bytes >= self.free_bytes {
            (self.total_bytes - self.free_bytes) as u64
        } else {
            0
        }
    }

    /// Total minus free bytes, zero where more is free than there is.
    #[verifier::when_used_as_spec(spec_used_bytes)]
    pub fn used_bytes(&self) -> (used: u64)
        ensures
            used == self.spec_used_bytes(),
    {
        self.total_bytes.saturating_sub(self.free_bytes)
    }

    /// What `used_mb` returns.
    pub open spec fn spec_used_mb(&self) -> u64 {
        self.used_bytes() / BYTES_PER_MB
    }

    /// The used memory in whole MB.
    #[verifier::when_used_as_spec(spec_used_mb)]
    pub fn used_mb(&self) -> (used: u64)
        ensures
            used == self.used_bytes() / BYTES_PER_MB,
    {
        self.used_bytes() / BYTES_PER_MB
    }

    /// What `free_mb` returns.
    pub open spec fn spec_free_mb(&self) -> u64 {
        self.free_bytes / BYTES_PER_MB
    }

    /// The free memory in whole MB.
    #[verifier::when_used_as_spec(spec_free_mb)]
    pub fn free_mb(&self) -> (free: u64)
        ensures
            free == self.free_bytes / BYTES_PER_MB,
    {
        self.free_bytes / BYTES_PER_MB
    }

    /// What `total_mb` returns.
    pub open spec fn spec_total_mb(&self) -> u64 {
        self.total_bytes / BYTES_PER_MB
    }

    /// The total memory in whole MB.
    #[verifier::when_used_as_spec(spec_total_mb)]
    pub fn total_mb(&self) -> (total: u64)
        ensures
            total == self.total_bytes / BYTES_PER_MB,
    {
        self.total_bytes / BYTES_PER_MB
    }
}

} // verus!
