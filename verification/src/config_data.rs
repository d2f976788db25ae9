//! The configuration an administrator installs.

use vstd::prelude::*;
use crate::address::Address;

verus! {

/// Everything `config` installs in one step.
#[derive(Clone, Debug, PartialEq, Eq)]
pub struct ConfigData {
    /// The principal allowed to write prices and to reconfigure.
    pub admin: Address,
    /// Retention window of price records, in seconds.
    pub period: u64,
    /// The registered assets, in the order in which price updates list them.
    pub assets: Vec<Address>,
    /// Fee of one price lookup.
    pub base_fee: i128,
    /// The asset in which prices are expressed.
    pub base_asset: Address,
    /// Number of fractional decimal digits of a price.
    pub decimals: u32,
    /// Step of the time grid, in seconds.
    pub resolution: u32,
}

} // verus!
