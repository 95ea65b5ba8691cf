//! Export layer of a power-consumption telemetry agent.
//!
//! Periodic energy snapshots from a sensor/topology layer are turned into two
//! external representations: a Prometheus-style text metrics endpoint, and a
//! per-virtual-machine cumulative energy counter tree mimicking a hardware
//! energy-accounting pseudo-filesystem.

use vstd::prelude::*;

pub mod counters;
pub mod decimal;
pub mod metrics;
pub mod prometheus;
pub mod qemu;
pub mod text;

verus! {

/// Fixed-point scale for attribution factors: a factor of one is one million
/// parts per million.
pub const FACTOR_SCALE: u64 = 1_000_000;

/// Share of an interval's dynamic energy attributed to one process, given the
/// process's attribution factor in parts per million.
pub fn attributed_energy(energy_uj: u64, factor_ppm: u64) -> (r: u64)
    requires
        factor_ppm <= FACTOR_SCALE,
    ensures
        r == (energy_uj * factor_ppm) / (FACTOR_SCALE as int),
{
    proof {
        assert((energy_uj as int) * (factor_ppm as int) <= 0xffff_ffff_ffff_ffff * 1_000_000)
            by (nonlinear_arith)
            requires
                energy_uj <= 0xffff_ffff_ffff_ffffu64,
                factor_ppm <= 1_000_000,
        ;
    }
    let prod: u128 = (energy_uj as u128) * (factor_ppm as u128);
    let q: u128 = prod / (FACTOR_SCALE as u128);
    proof {
        assert(q <= energy_uj) by (nonlinear_arith)
            requires
                prod == (energy_uj as int) * (factor_ppm as int),
                factor_ppm <= 1_000_000,
                q == prod / 1_000_000,
        ;
    }
    q as u64
}

} // verus!
