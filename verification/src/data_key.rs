//! Keys of the stored values.

use vstd::prelude::*;
use crate::address::Address;

verus! {

/// Key of one price record: an asset at a slot of the time grid.
#[derive(Clone, Copy, PartialEq, Eq, Structural, Debug, Hash)]
pub struct AssetPriceKey {
    pub asset: Address,
    pub timestamp: u64,
}

/// Names each value the oracle keeps.
#[derive(Clone, Copy, PartialEq, Eq, Structural, Debug, Hash)]
pub enum DataKey {
    Admin,
    Base,
    Price(AssetPriceKey),
    Timestamp,
    Decimals,
    RdmPeriod,
    Resolution,
    Assets,
    BaseFee,
    Balance(Address),
}

} // verus!
