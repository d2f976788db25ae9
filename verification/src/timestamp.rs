//! The time grid: prices are recorded at multiples of the resolution.

use vstd::prelude::*;

verus! {

/// The slot of the grid that `timestamp` falls in: the largest multiple of
/// `resolution` that is not later than `timestamp`.
pub open spec fn quantize_spec(timestamp: int, resolution: int) -> int {
    timestamp - timestamp % resolution
}

/// Snaps `timestamp` down to the grid of step `resolution`.
pub fn quantize(timestamp: u64, resolution: u64) -> (slot: u64)
    requires
        resolution > 0,
    ensures
        slot == quantize_spec(timestamp as int, resolution as int),
        slot <= timestamp,
        timestamp - slot < resolution,
        slot % resolution == 0,
{
    proof {
        lemma_quantize(timestamp as int, resolution as int);
    }
    timestamp - timestamp % resolution
}

/// A quantized timestamp is a multiple of the resolution, not later than the
/// timestamp and less than one step before it.
pub proof fn lemma_quantize(timestamp: int, resolution: int)
    requires
        timestamp >= 0,
        resolution > 0,
    ensures
        0 <= quantize_spec(timestamp, resolution) <= timestamp,
        timestamp - quantize_spec(timestamp, resolution) < resolution,
        quantize_spec(timestamp, resolution) % resolution == 0,
        quantize_spec(timestamp, resolution) == resolution * (timestamp / resolution),
{
    vstd::arithmetic::div_mod::lemma_fundamental_div_mod(timestamp, resolution);
    vstd::arithmetic::div_mod::lemma_mod_multiples_basic(timestamp / resolution, resolution);
    assert(resolution * (timestamp / resolution) == (timestamp / resolution) * resolution)
        by (nonlinear_arith);
}

/// Quantizing is idempotent: a slot of the grid is its own slot.
pub proof fn lemma_quantize_idempotent(timestamp: u64, resolution: u64)
    requires
        resolution > 0,
    ensures
        quantize_spec(quantize_spec(timestamp as int, resolution as int), resolution as int)
            == quantize_spec(timestamp as int, resolution as int),
{
    lemma_quantize(timestamp as int, resolution as int);
}

} // verus!
