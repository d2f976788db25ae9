//! A time-series price oracle: quantized price records, point and historical
//! queries, cross prices in exact fixed-point arithmetic, time-weighted
//! averages, and a prepaid balance gate on top of them.
//!
//! * [`i128_extensions`], [`average`], [`timestamp`]: the arithmetic.
//! * [`table`], [`env`]: the stored state and the lookups made on it.
//! * [`oracle`]: the rules of the oracle, on a state it is handed.
//! * [`price_oracle`], [`price_oracle_plus`]: the oracle with free and with
//!   paid queries, each keeping its own state.
//! * [`nonce_oracle`]: a plain oracle that keeps the last price of each asset.
//! * [`theorems`]: what follows from the contracts above.

pub mod address;
pub mod average;
pub mod config_data;
pub mod data_key;
pub mod env;
pub mod error;
pub mod i128_extensions;
pub mod nonce_oracle;
pub mod oracle;
pub mod price_data;
pub mod price_oracle;
pub mod price_oracle_plus;
pub mod table;
pub mod theorems;
pub mod timestamp;
