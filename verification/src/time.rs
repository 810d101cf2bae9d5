//! # Time
//!
//! Instants of a monotonic clock and the arithmetic between them and
//! durations. A clock counts ticks of a fixed period, given in femtoseconds;
//! durations are counted in nanoseconds.
use vstd::prelude::*;

verus! {

/// The amount of femtoseconds in a nanosecond.
pub const FEMTOS_PER_NANO: u64 = 1_000_000;

/// A moment in time: a raw value of the monotonic clock.
#[derive(Clone, Copy, Debug, Eq, Hash, Ord, PartialEq, PartialOrd)]
pub struct Instant {
    value: u64,
}

impl Instant {
    /// The raw clock value of this instant.
    pub closed spec fn raw(self) -> u64 {
        self.value
    }

    /// The latest instant there is.
    pub fn max() -> (i: Self)
        ensures
            i.raw() == u64::MAX,
    {
        Self { value: u64::MAX }
    }

    /// Create a new instant from a raw clock value.
    pub fn from_raw(value: u64) -> (i: Self)
        ensures
            i.raw() == value,
    {
        Self { value }
    }

    /// Get the raw clock value that represents this instant.
    pub fn into_raw(self) -> (value: u64)
        ensures
            value == self.raw(),
    {
        self.value
    }

    /// The nanoseconds (rounded down) that have passed between `earlier` and
    /// this instant, on a clock whose ticks last `period` femtoseconds;
    /// `None` if `earlier` is later than this instant.
    pub fn checked_duration_since(&self, earlier: Self, period: u64) -> (nanos: Option<u128>)
        ensures
            nanos == if earlier.raw() <= self.raw() {
                Some(((self.raw() - earlier.raw()) * period / (FEMTOS_PER_NANO as int)) as u128)
            } else {
                None::<u128>
            },
    {
        if earlier.value <= self.value {
            let delta = (self.value - earlier.value) as u128;
            proof {
                vstd::arithmetic::mul::lemma_mul_upper_bound(
                    delta as int, u64::MAX as int, period as int, u64::MAX as int);
                assert(u64::MAX as int * u64::MAX as int <= u128::MAX) by (nonlinear_arith);
            }
            let femtos = delta * (period as u128);
            Some(femtos / (FEMTOS_PER_NANO as u128))
        } else {
            None
        }
    }

    /// The nanoseconds (rounded down) that have passed between `earlier` and
    /// this instant, on a clock whose ticks last `period` femtoseconds; zero
    /// if `earlier` is later than this instant.
    pub fn duration_since(&self, earlier: Self, period: u64) -> (nanos: u128)
        ensures
            nanos == if earlier.raw() <= self.raw() {
                ((self.raw() - earlier.raw()) * period / (FEMTOS_PER_NANO as int)) as u128
            } else {
                0
            },
    {
        match self.checked_duration_since(earlier, period) {
            Some(nanos) => nanos,
            None => 0,
        }
    }

    /// The instant `nanos` nanoseconds after this one, on a clock whose ticks
    /// last `period` femtoseconds: the ticks are rounded down and kept to
    /// their low 64 bits; `None` if the clock value would overflow.
    pub fn checked_add_duration(&self, nanos: u128, period: u64) -> (r: Option<Self>)
        requires
            period > 0,
            nanos * FEMTOS_PER_NANO <= u128::MAX,
        ensures
            ({
                let ticks = (nanos * FEMTOS_PER_NANO / (period as int)) as u64;
                &&& r is Some <==> self.raw() + ticks <= u64::MAX
                &&& r matches Some(i) ==> i.raw() == self.raw() + ticks
            }),
    {
        let femtos = nanos * (FEMTOS_PER_NANO as u128);
        let delta = femtos / (period as u128);
        let ticks = delta as u64;
        match self.value.checked_add(ticks) {
            Some(value) => Some(Self::from_raw(value)),
            None => None,
        }
    }

    /// The instant `nanos` nanoseconds after this one (see
    /// [`Instant::checked_add_duration`]), or the latest instant there is
    /// when the clock value would overflow.
    pub fn add_duration(&self, nanos: u128, period: u64) -> (r: Self)
        requires
            period > 0,
            nanos * FEMTOS_PER_NANO <= u128::MAX,
        ensures
            ({
                let ticks = (nanos * FEMTOS_PER_NANO / (period as int)) as u64;
                r.raw() == if self.raw() + ticks <= u64::MAX {
                    self.raw() + ticks
                } else {
                    u64::MAX as int
                }
            }),
    {
        match self.checked_add_duration(nanos, period) {
            Some(i) => i,
            None => Self::max(),
        }
    }
}

} // verus!
