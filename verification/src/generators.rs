//! Deterministic seeded generation for testability: an explicit
//! linear-congruential state object, never ambient randomness, so every
//! replay is bit-reproducible.

use vstd::prelude::*;

verus! {

/// Readiness probe for the simulation workspace.
pub fn workspace_bootstrap() -> (r: bool)
    ensures
        r,
{
    true
}

/// One step of the linear congruential generator.
pub open spec fn lcg_next(state: u64) -> u64 {
    state.wrapping_mul(6364136223846793005).wrapping_add(1442695040888963407)
}

/// The lower bound of the lag band.
pub open spec fn lag_band_min(base_lag_ms: u64, jitter_ms: u64) -> u64 {
    base_lag_ms.saturating_sub(jitter_ms)
}

/// The upper bound of the lag band.
pub open spec fn lag_band_max(base_lag_ms: u64, jitter_ms: u64) -> u64 {
    base_lag_ms.saturating_add(jitter_ms)
}

/// Deterministic market-lag sampler: each draw lands in the jitter band
/// around the base lag.
#[derive(Debug, Clone)]
pub struct MarketLagGenerator {
    state: u64,
    base_lag_ms: u64,
    jitter_ms: u64,
}

impl MarketLagGenerator {
    pub closed spec fn state(&self) -> u64 {
        self.state
    }

    pub closed spec fn base_lag(&self) -> u64 {
        self.base_lag_ms
    }

    pub closed spec fn jitter(&self) -> u64 {
        self.jitter_ms
    }

    pub fn new(seed: u64, base_lag_ms: u64, jitter_ms: u64) -> (r: MarketLagGenerator)
        ensures
            r.state() == seed,
            r.base_lag() == base_lag_ms,
            r.jitter() == jitter_ms,
    {
        MarketLagGenerator { state: seed, base_lag_ms, jitter_ms }
    }

    /// Draws the next lag sample. Without jitter the base lag comes back
    /// unchanged; with jitter the draw is the generator's next value folded
    /// into the saturating band around the base, and the generator state
    /// advances by exactly one step.
    pub fn next_lag_ms(&mut self) -> (r: u64)
        ensures
            final(self).base_lag() == old(self).base_lag(),
            final(self).jitter() == old(self).jitter(),
            old(self).jitter() == 0 ==> r == old(self).base_lag() && final(self).state() == old(
                self,
            ).state(),
            old(self).jitter() != 0 ==> final(self).state() == lcg_next(old(self).state()),
            old(self).jitter() != 0 ==> {
                let min = lag_band_min(old(self).base_lag(), old(self).jitter());
                let max = lag_band_max(old(self).base_lag(), old(self).jitter());
                if max - min == u64::MAX {
                    r == lcg_next(old(self).state())
                } else {
                    r == min + (lcg_next(old(self).state()) % ((max - min + 1) as u64))
                }
            },
            old(self).jitter() != 0 ==> lag_band_min(old(self).base_lag(), old(self).jitter())
                <= r <= lag_band_max(old(self).base_lag(), old(self).jitter()),
    {
        if self.jitter_ms == 0 {
            return self.base_lag_ms;
        }

        let min = self.base_lag_ms.saturating_sub(self.jitter_ms);
        let max = self.base_lag_ms.saturating_add(self.jitter_ms);
        let width = max - min;

        if width == u64::MAX {
            return next_u64(&mut self.state);
        }

        let span = width + 1;
        let offset = next_u64(&mut self.state) % span;
        min + offset
    }
}

/// Advances the linear congruential state and returns it.
pub fn next_u64(state: &mut u64) -> (r: u64)
    ensures
        *final(state) == lcg_next(*old(state)),
        r == *final(state),
{
    *state = state.wrapping_mul(6364136223846793005).wrapping_add(1442695040888963407);
    *state
}

} // verus!
