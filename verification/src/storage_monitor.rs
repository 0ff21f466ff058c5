//! Buffer disk health: free-space and write-latency alarms.
use vstd::prelude::*;

verus! {

/// Below this much free space the buffer disk is reported as low.
pub const WARN_FREE_BYTES: u64 = 500 * 1024 * 1024;

/// Below this much free space the buffer disk is reported as full.
pub const FULL_FREE_BYTES: u64 = 100 * 1024 * 1024;

/// A write probe slower than this marks the disk as slow.
pub const SLOW_WRITE_THRESHOLD_MS: u64 = 2000;

/// Size of the write probe file.
pub const PROBE_SIZE_BYTES: usize = 1024 * 1024;

/// The write-latency probe runs on every sixth sampling tick.
pub const PROBE_EVERY_TICKS: u32 = 6;

/// Current disk alarms of the buffer storage.
#[derive(Debug, Clone, Copy)]
pub struct StorageMonitor {
    disk_warning: bool,
    disk_full: bool,
    slow_disk: bool,
}

impl StorageMonitor {
    pub closed spec fn warning_flag(&self) -> bool {
        self.disk_warning
    }

    pub closed spec fn full_flag(&self) -> bool {
        self.disk_full
    }

    pub closed spec fn slow_flag(&self) -> bool {
        self.slow_disk
    }

    /// No alarm raised yet.
    pub fn new() -> (r: Self)
        ensures
            !r.warning_flag(),
            !r.full_flag(),
            !r.slow_flag(),
    {
        StorageMonitor { disk_warning: false, disk_full: false, slow_disk: false }
    }

    pub fn disk_warning(&self) -> (r: bool)
        ensures
            r == self.warning_flag(),
    {
        self.disk_warning
    }

    pub fn disk_full(&self) -> (r: bool)
        ensures
            r == self.full_flag(),
    {
        self.disk_full
    }

    pub fn slow_disk(&self) -> (r: bool)
        ensures
            r == self.slow_flag(),
    {
        self.slow_disk
    }

    /// Records a free-space sample: full below 100 MiB; warning below 500 MiB or
    /// while writes are slow. Returns whether the disk is nearly full.
    pub fn record_free_space(&mut self, available_bytes: u64) -> (full: bool)
        ensures
            final(self).full_flag() == (available_bytes < FULL_FREE_BYTES),
            final(self).warning_flag() == (available_bytes < WARN_FREE_BYTES || old(self).slow_flag()),
            final(self).slow_flag() == old(self).slow_flag(),
            full == final(self).full_flag(),
    {
        self.disk_full = available_bytes < FULL_FREE_BYTES;
        self.disk_warning = available_bytes < WARN_FREE_BYTES || self.slow_disk;
        self.disk_full
    }

    /// Records a write-probe latency: slow above 2 s. Returns whether it was slow.
    pub fn record_write_latency(&mut self, latency_ms: u64) -> (slow: bool)
        ensures
            final(self).slow_flag() == (latency_ms > SLOW_WRITE_THRESHOLD_MS),
            final(self).full_flag() == old(self).full_flag(),
            final(self).warning_flag() == old(self).warning_flag(),
            slow == final(self).slow_flag(),
    {
        self.slow_disk = latency_ms > SLOW_WRITE_THRESHOLD_MS;
        self.slow_disk
    }
}

/// The sampling tick that follows `counter` (wrapping).
pub open spec fn next_tick_spec(counter: u32) -> u32 {
    if counter == u32::MAX {
        0
    } else {
        (counter + 1) as u32
    }
}

/// Advances the sampling counter and says whether this tick runs a write probe.
pub fn next_tick(counter: u32) -> (r: (u32, bool))
    ensures
        r.0 == next_tick_spec(counter),
        r.1 == (next_tick_spec(counter) % PROBE_EVERY_TICKS == 0),
{
    let next = counter.wrapping_add(1);
    (next, next % PROBE_EVERY_TICKS == 0)
}

} // verus!
