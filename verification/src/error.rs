//! Why an operation was refused.

use vstd::prelude::*;

verus! {

/// The reasons for which the oracle refuses a call. A refused call changes nothing.
#[derive(Clone, Copy, PartialEq, Eq, Structural, Debug, Hash)]
pub enum Error {
    /// The caller is not the principal the operation is reserved for.
    Unauthorized,
    /// An asset to register is registered already, or is named twice.
    AssetAlreadyPresented,
    /// A price update does not hold one price per registered asset.
    InvalidUpdatesLength,
    /// A price is not positive, or a cross price has no representable value.
    InvalidPriceValue,
    /// No earlier price is on record.
    NoPrevPrice,
    /// A cross price was asked of an asset against itself.
    InvalidAssetPair,
    /// The grid step of a configuration is zero.
    InvalidResolution,
    /// A deposit names an asset other than the fee asset.
    InvalidFeeAsset,
    /// A deposit is not positive, or would carry a balance past its largest value.
    InvalidDepositAmount,
    /// A balance does not cover the fee of a query.
    InsufficientBalance,
}

} // verus!
