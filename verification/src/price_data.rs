//! A price observation.

use vstd::prelude::*;

verus! {

/// The price of an asset at one slot of the time grid.
#[derive(Clone, Copy, PartialEq, Eq, Structural, Debug)]
pub struct PriceData {
    /// Fixed-point price.
    pub price: i128,
    /// The slot, in seconds.
    pub timestamp: u64,
}

} // verus!
