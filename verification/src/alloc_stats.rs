//! Allocation constants, strategies and the bookkeeping of allocation counters.
//!
//! The counters themselves are process-wide; this module states how one
//! allocation or one free changes them.
use vstd::prelude::*;

verus! {

/// Minimum alignment of every allocation: the width of an AVX-512 register.
pub const SIMD_ALIGN: usize = 64;

/// CPU cache-line size on x86-64 and ARM Cortex-A.
pub const CACHE_LINE: usize = 64;

/// Allocations larger than this (1 MiB) are backed by anonymous mmap rather
/// than the heap.
pub const MMAP_THRESHOLD: usize = 1048576;

/// Byte written over freed memory in debug builds.
pub const POISON_BYTE: u8 = 0xDE;

/// The mechanism that backs an allocation.
#[derive(Debug, Clone, Copy, PartialEq, Eq, Hash, Structural)]
pub enum Strategy {
    /// Zero-size: the pointer is dangling and must not be dereferenced.
    ZeroSize,
    /// Aligned heap allocation.
    Heap,
    /// Anonymous memory-mapped region, committed lazily by the OS.
    Mmap,
}

/// Kernel hints for how a memory region will be accessed.
#[derive(Debug, Clone, Copy, PartialEq, Eq, Hash, Structural)]
pub enum MmapAdvice {
    /// No special advice.
    Normal,
    /// Sequential access expected: read ahead aggressively.
    Sequential,
    /// Random access expected: no read-ahead.
    Random,
    /// Pages will be needed soon: fault them in now.
    WillNeed,
    /// Pages are no longer needed: they may be evicted without write-back.
    DontNeed,
    /// Enable transparent huge pages on the range.
    HugePage,
    /// Disable transparent huge pages on the range.
    NoHugePage,
    /// Pages may be reclaimed lazily (and read back as zero).
    Free,
}

/// A snapshot of the global allocation counters.
#[derive(Debug, Clone, Copy, PartialEq, Eq, Structural)]
pub struct AllocStats {
    /// Net bytes currently held by live buffers.
    pub live_bytes: i64,
    /// Largest `live_bytes` observed (read as `u64`).
    pub peak_bytes: u64,
    /// Number of allocations performed.
    pub alloc_count: u64,
    /// Number of frees performed.
    pub free_count: u64,
    /// Bytes currently held by heap allocations.
    pub heap_live_bytes: i64,
    /// Bytes currently held by mmap allocations.
    pub mmap_live_bytes: i64,
}

/// `a + b` wrapped into `i64`, as an atomic fetch-add leaves it.
pub open spec fn wrap_add_i64(a: i64, b: i64) -> i64 {
    vstd::wrapping::i64_specs::wrapping_add(a, b)
}

/// `a - b` wrapped into `i64`, as an atomic fetch-sub leaves it.
pub open spec fn wrap_sub_i64(a: i64, b: i64) -> i64 {
    vstd::wrapping::i64_specs::wrapping_sub(a, b)
}

/// `a + 1` wrapped into `u64`.
pub open spec fn wrap_inc_u64(a: u64) -> u64 {
    vstd::wrapping::u64_specs::wrapping_add(a, 1)
}

/// The counters after one allocation of `bytes` bytes backed by `strategy`:
/// live bytes grow, the peak follows them up, the allocation count and the
/// strategy's own live bytes grow.
pub open spec fn after_alloc(s: AllocStats, bytes: usize, strategy: Strategy) -> AllocStats {
    let b = bytes as i64;
    let live = (s.live_bytes + b) as i64;
    AllocStats {
        live_bytes: live,
        peak_bytes: if live as u64 > s.peak_bytes { live as u64 } else { s.peak_bytes },
        alloc_count: wrap_inc_u64(s.alloc_count),
        free_count: s.free_count,
        heap_live_bytes: if strategy is Heap { wrap_add_i64(s.heap_live_bytes, b) } else { s.heap_live_bytes },
        mmap_live_bytes: if strategy is Mmap { wrap_add_i64(s.mmap_live_bytes, b) } else { s.mmap_live_bytes },
    }
}

/// The counters after one free of `bytes` bytes backed by `strategy`: live
/// bytes shrink, the free count grows, the peak stays.
pub open spec fn after_free(s: AllocStats, bytes: usize, strategy: Strategy) -> AllocStats {
    let b = bytes as i64;
    AllocStats {
        live_bytes: wrap_sub_i64(s.live_bytes, b),
        peak_bytes: s.peak_bytes,
        alloc_count: s.alloc_count,
        free_count: wrap_inc_u64(s.free_count),
        heap_live_bytes: if strategy is Heap { wrap_sub_i64(s.heap_live_bytes, b) } else { s.heap_live_bytes },
        mmap_live_bytes: if strategy is Mmap { wrap_sub_i64(s.mmap_live_bytes, b) } else { s.mmap_live_bytes },
    }
}

impl AllocStats {
    /// `alloc_count - free_count`, each read as `i64`.
    pub fn live_count(self) -> (r: i64)
        requires
            i64::MIN <= (self.alloc_count as i64) - (self.free_count as i64) <= i64::MAX,
        ensures
            r == (self.alloc_count as i64) - (self.free_count as i64),
    {
        self.alloc_count as i64 - self.free_count as i64
    }
}

/// Records one allocation of `bytes` bytes in `stats`.
pub fn record_alloc(stats: &mut AllocStats, bytes: usize, strategy: Strategy)
    requires
        i64::MIN <= old(stats).live_bytes + (bytes as i64) <= i64::MAX,
    ensures
        *final(stats) == after_alloc(*old(stats), bytes, strategy),
{
    let b = bytes as i64;
    let new = stats.live_bytes + b;
    stats.live_bytes = new;
    if (new as u64) > stats.peak_bytes {
        stats.peak_bytes = new as u64;
    }
    stats.alloc_count = stats.alloc_count.wrapping_add(1);
    match strategy {
        Strategy::Heap => {
            stats.heap_live_bytes = stats.heap_live_bytes.wrapping_add(b);
        },
        Strategy::Mmap => {
            stats.mmap_live_bytes = stats.mmap_live_bytes.wrapping_add(b);
        },
        Strategy::ZeroSize => {},
    }
}

/// Records one free of `bytes` bytes in `stats`.
pub fn record_free(stats: &mut AllocStats, bytes: usize, strategy: Strategy)
    ensures
        *final(stats) == after_free(*old(stats), bytes, strategy),
{
    let b = bytes as i64;
    stats.live_bytes = stats.live_bytes.wrapping_sub(b);
    stats.free_count = stats.free_count.wrapping_add(1);
    match strategy {
        Strategy::Heap => {
            stats.heap_live_bytes = stats.heap_live_bytes.wrapping_sub(b);
        },
        Strategy::Mmap => {
            stats.mmap_live_bytes = stats.mmap_live_bytes.wrapping_sub(b);
        },
        Strategy::ZeroSize => {},
    }
}

/// The peak never falls: after an allocation it is at least the old peak and
/// at least the new live byte count (read as `u64`), and a free keeps it.
pub proof fn lemma_peak_monotone(s: AllocStats, bytes: usize, strategy: Strategy)
    requires
        i64::MIN <= s.live_bytes + (bytes as i64) <= i64::MAX,
    ensures
        after_alloc(s, bytes, strategy).peak_bytes >= s.peak_bytes,
        after_alloc(s, bytes, strategy).peak_bytes >= after_alloc(s, bytes, strategy).live_bytes as u64,
        after_free(s, bytes, strategy).peak_bytes == s.peak_bytes,
{
}

/// An allocation followed by a free of the same size and strategy leaves the
/// live byte counts where they were, and each count grows by one.
pub proof fn lemma_alloc_then_free(s: AllocStats, bytes: usize, strategy: Strategy)
    requires
        i64::MIN <= s.live_bytes + (bytes as i64) <= i64::MAX,
    ensures
        after_free(after_alloc(s, bytes, strategy), bytes, strategy).live_bytes == s.live_bytes,
        after_free(after_alloc(s, bytes, strategy), bytes, strategy).heap_live_bytes == s.heap_live_bytes,
        after_free(after_alloc(s, bytes, strategy), bytes, strategy).mmap_live_bytes == s.mmap_live_bytes,
        after_free(after_alloc(s, bytes, strategy), bytes, strategy).alloc_count == wrap_inc_u64(s.alloc_count),
        after_free(after_alloc(s, bytes, strategy), bytes, strategy).free_count == wrap_inc_u64(s.free_count),
{
    let b = bytes as i64;
    assert(wrap_sub_i64(wrap_add_i64(s.heap_live_bytes, b), b) == s.heap_live_bytes);
    assert(wrap_sub_i64(wrap_add_i64(s.mmap_live_bytes, b), b) == s.mmap_live_bytes);
}

} // verus!
