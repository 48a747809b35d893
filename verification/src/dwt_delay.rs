//! Cycle arithmetic for a busy-wait of one microsecond against a free-running
//! 32-bit cycle counter.

use vstd::prelude::*;

verus! {

/// Number of counter values before a 32-bit cycle counter wraps to zero.
pub open spec fn counter_modulus() -> int {
    0x1_0000_0000
}

/// Cycles that lie between two readings of a 32-bit counter that only counts
/// upwards and wraps to zero after its largest value.
pub open spec fn cycles_between(start: u32, current: u32) -> int {
    (current - start) % counter_modulus()
}

/// Delay provider for a core clocked at a known frequency.
#[derive(Debug, Clone, Copy)]
pub struct DwtDelay {
    cycles_per_us: u32,
}

impl DwtDelay {
    /// Cycles that make up one microsecond.
    pub closed spec fn cycles_per_us_spec(&self) -> u32 {
        self.cycles_per_us
    }

    /// A delay provider for a core that runs at `cpu_freq_hz`.
    ///
    /// The cycles per microsecond are the frequency divided by one million,
    /// rounded down. Below 1 MHz that is zero, and every delay is over as soon
    /// as it is begun.
    pub fn new(cpu_freq_hz: u32) -> (delay: Self)
        ensures
            delay.cycles_per_us_spec() == cpu_freq_hz / 1_000_000,
    {
        Self { cycles_per_us: cpu_freq_hz / 1_000_000 }
    }

    /// Cycles that make up one microsecond.
    #[verifier::when_used_as_spec(cycles_per_us_spec)]
    pub fn cycles_per_us(&self) -> (cycles: u32)
        ensures
            cycles == self.cycles_per_us_spec(),
    {
        self.cycles_per_us
    }

    /// Cycles elapsed since the counter read `start`, given that it now reads
    /// `current`. Correct across one wrap of the counter.
    pub fn elapsed(start: u32, current: u32) -> (cycles: u32)
        ensures
            cycles == cycles_between(start, current),
    {
        if current >= start {
            current - start
        } else {
            u32::MAX - start + current + 1
        }
    }

    /// Whether a delay of one microsecond that began when the counter read
    /// `start` is over when it reads `current`.
    pub fn is_over(&self, start: u32, current: u32) -> (over: bool)
        ensures
            over == (cycles_between(start, current) >= self.cycles_per_us_spec()),
    {
        Self::elapsed(start, current) >= self.cycles_per_us
    }
}

} // verus!
