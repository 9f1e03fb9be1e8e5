//! Data model of the hypervisor's memory interface: the balloon and
//! memory figures a guest reports, and the arithmetic derived from them.
//!
//! The socket conversation with the hypervisor is carried out by the
//! binaries; the figures and their derived quantities are specified
//! here.

use vstd::prelude::*;

verus! {

/// The balloon's current size in bytes.
#[derive(Debug, Clone, Copy, PartialEq, Eq, Structural)]
pub struct BalloonInfo {
    pub actual: usize,
}

/// The machine's memory totals in bytes.
#[derive(Debug, Clone, Copy, PartialEq, Eq, Structural)]
pub struct MemoryInfo {
    pub base_memory: usize,
    pub plugged_memory: usize,
}

/// The guest's own free and available figures in bytes.
#[derive(Debug, Clone, Copy, PartialEq, Eq, Structural)]
pub struct GuestMemoryStats {
    pub stat_available_memory: usize,
    pub stat_free_memory: usize,
}

/// A guest memory report: when it was taken and what it says.
#[derive(Debug, Clone, Copy, PartialEq, Eq, Structural)]
pub struct GuestMemoryInfo {
    pub last_update: usize,
    pub stats: GuestMemoryStats,
}

/// A hypervisor control endpoint: the path of its socket.
#[derive(Debug, Clone, PartialEq, Eq)]
pub struct Endpoint {
    pub path: String,
}

impl Endpoint {
    pub fn new(path: String) -> (r: Self)
        ensures
            r.path == path,
    {
        Endpoint { path }
    }
}

/// A snapshot of one guest's memory situation.
#[derive(Debug, Clone, Copy, PartialEq, Eq, Structural)]
pub struct MemoryStats {
    pub balloon_size: usize,
    pub base_memory: usize,
    pub plugged_memory: usize,
    pub total_memory: usize,
    pub free_memory: usize,
    pub available_memory: usize,
}

/// The pressure figure derived from a balloon size `b` and available
/// memory `a`: about one hundred times the used fraction, rounded to the
/// nearest per cent.
pub open spec fn spec_pressure(b: int, a: int) -> int {
    (201 * b - 200 * a) / b / 2
}

impl MemoryStats {
    /// Combine the hypervisor's memory totals, the guest's own figures
    /// and the balloon size into one snapshot.
    pub fn new(mem_info: &MemoryInfo, guest_info: &GuestMemoryInfo, bal_info: &BalloonInfo) -> (r:
        Self)
        requires
            mem_info.base_memory + mem_info.plugged_memory <= usize::MAX,
        ensures
            r.balloon_size == bal_info.actual,
            r.base_memory == mem_info.base_memory,
            r.plugged_memory == mem_info.plugged_memory,
            r.total_memory == mem_info.base_memory + mem_info.plugged_memory,
            r.free_memory == guest_info.stats.stat_free_memory,
            r.available_memory == guest_info.stats.stat_available_memory,
    {
        MemoryStats {
            balloon_size: bal_info.actual,
            base_memory: mem_info.base_memory,
            plugged_memory: mem_info.plugged_memory,
            total_memory: mem_info.base_memory + mem_info.plugged_memory,
            free_memory: guest_info.stats.stat_free_memory,
            available_memory: guest_info.stats.stat_available_memory,
        }
    }

    /// Memory pressure as a percentage, zero when the whole balloon is
    /// available and one hundred when none of it is.
    pub fn pressure(&self) -> (r: u8)
        requires
            self.balloon_size > 0,
            self.available_memory <= self.balloon_size,
            201 * self.balloon_size <= usize::MAX,
        ensures
            r == spec_pressure(self.balloon_size as int, self.available_memory as int),
            r <= 100,
    {
        let b = self.balloon_size;
        let a = self.available_memory;
        let num = 201 * b - 200 * a;
        proof {
            assert(num / b <= 201) by (nonlinear_arith)
                requires
                    b > 0,
                    a >= 0,
                    num == 201 * b - 200 * a,
                    a <= b,
            ;
            assert(num / b >= 0) by (nonlinear_arith)
                requires
                    b > 0,
                    num >= 0,
            ;
        }
        let q = num / b;
        (q / 2) as u8
    }

    /// The bytes of the balloon the guest has spoken for.
    pub fn reserved(&self) -> (r: usize)
        requires
            self.available_memory <= self.balloon_size,
        ensures
            r == self.balloon_size - self.available_memory,
    {
        self.balloon_size - self.available_memory
    }

    /// The balloon size that would bring the pressure to `target`.
    pub fn adjusted(&self, target: u8) -> (r: usize)
        requires
            target > 0,
            self.available_memory <= self.balloon_size,
            (self.balloon_size - self.available_memory) * 100 <= usize::MAX,
        ensures
            r == (self.balloon_size - self.available_memory) * 100 / (target as int),
    {
        self.reserved() * 100 / (target as usize)
    }

    /// The balloon adjustment when the pressure leaves the `[min, max]`
    /// window: aim at `min` when below it, at slightly under `max` when
    /// above it, nothing inside it.
    pub fn window(&self, min: u8, max: u8) -> (r: Option<usize>)
        requires
            self.balloon_size > 0,
            self.available_memory <= self.balloon_size,
            201 * self.balloon_size <= usize::MAX,
            (self.balloon_size - self.available_memory) * 100 <= usize::MAX,
            max >= 3,
        ensures
            ({
                let p = spec_pressure(self.balloon_size as int, self.available_memory as int);
                let reserved = self.balloon_size - self.available_memory;
                if p < min {
                    r == Some((reserved * 100 / (min as int)) as usize)
                } else if p > max {
                    r == Some((reserved * 100 / (max - 2)) as usize)
                } else {
                    r is None
                }
            }),
    {
        let p = self.pressure();
        if p < min {
            Some(self.adjusted(min))
        } else if p > max {
            Some(self.adjusted(max - 2))
        } else {
            None
        }
    }
}

} // verus!
