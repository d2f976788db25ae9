//! The oracle as a contract that keeps its own state: every query is free.

use vstd::prelude::*;
use crate::address::Address;
use crate::config_data::ConfigData;
use crate::data_key::DataKey;
use crate::env::{found_view, records_view, Env, EnvView};
use crate::error::Error;
use crate::oracle::{
    add_assets_spec, config_spec, is_blank, is_valid, lastprice_spec, price_spec, prices_spec,
    set_price_spec, transition, twap_spec, valid, x_last_price_spec, x_price_spec, x_prices_spec,
    x_twap_spec, PriceOracle,
};
use crate::price_data::PriceData;

verus! {

/// A price oracle and the state it keeps.
pub struct PriceOracleContract {
    env: Env,
}

impl View for PriceOracleContract {
    type V = EnvView;

    closed spec fn view(&self) -> EnvView {
        self.env@
    }
}

impl PriceOracleContract {
    /// What holds of the oracle between calls, see [`valid`].
    pub open spec fn wf(&self) -> bool {
        valid(self@)
    }

    /// An oracle that nobody has configured yet.
    pub fn new() -> (c: PriceOracleContract)
        ensures
            c.wf(),
            is_blank(c@),
            c@.numbers == Map::<DataKey, i128>::empty(),
    {
        PriceOracleContract { env: Env::new() }
    }

    /// The oracle that continues from the stored state `env`; none where that
    /// state is not one an oracle can be in.
    pub fn open(env: Env) -> (r: Option<PriceOracleContract>)
        ensures
            match r {
                Some(c) => valid(env@) && c.wf() && c@ == env@,
                None => !valid(env@),
            },
    {
        if is_valid(&env) {
            Some(PriceOracleContract { env })
        } else {
            None
        }
    }

    /// The state that the oracle has reached.
    pub fn close(self) -> (env: Env)
        ensures
            env@ == self@,
    {
        self.env
    }

    /// Installs `config`. Anyone may configure a blank oracle; afterwards only
    /// its administrator may.
    pub fn config(&mut self, user: Address, config: ConfigData) -> (r: Result<(), Error>)
        requires
            old(self).wf(),
        ensures
            final(self).wf(),
            transition(old(self)@, final(self)@, r, config_spec(old(self)@, user, config)),
    {
        PriceOracle::config(&mut self.env, user, config)
    }

    /// Registers `assets` after those that are registered. Administrator only.
    pub fn add_assets(&mut self, user: Address, assets: Vec<Address>) -> (r: Result<(), Error>)
        requires
            old(self).wf(),
        ensures
            final(self).wf(),
            transition(old(self)@, final(self)@, r, add_assets_spec(old(self)@, user, assets@)),
    {
        PriceOracle::add_assets(&mut self.env, user, assets)
    }

    /// Records one price per registered asset at the slot of `timestamp`, and
    /// makes that slot the last write. Administrator only.
    pub fn set_price(&mut self, user: Address, updates: Vec<i128>, timestamp: u64) -> (r: Result<
        (),
        Error,
    >)
        requires
            old(self).wf(),
        ensures
            final(self).wf(),
            transition(
                old(self)@,
                final(self)@,
                r,
                set_price_spec(old(self)@, user, updates@, timestamp),
            ),
    {
        PriceOracle::set_price(&mut self.env, user, updates, timestamp)
    }

    /// The administrator.
    pub fn admin(&self) -> (r: Option<Address>)
        ensures
            r == self@.admin,
    {
        PriceOracle::admin(&self.env)
    }

    /// The asset in which prices are expressed.
    pub fn base(&self) -> (r: Option<Address>)
        ensures
            r == self@.base,
    {
        PriceOracle::base(&self.env)
    }

    /// Number of fractional decimal digits of a price.
    pub fn decimals(&self) -> (r: Option<u32>)
        ensures
            r == self@.decimals,
    {
        PriceOracle::decimals(&self.env)
    }

    /// Step of the time grid, in seconds.
    pub fn resolution(&self) -> (r: Option<u32>)
        ensures
            r == self@.resolution,
    {
        PriceOracle::resolution(&self.env)
    }

    /// Retention window of price records, in seconds.
    pub fn period(&self) -> (r: Option<u64>)
        ensures
            r == self@.rdm_period,
    {
        PriceOracle::period(&self.env)
    }

    /// The registered assets.
    pub fn assets(&self) -> (r: Option<Vec<Address>>)
        ensures
            match r {
                Some(list) => self@.assets == Some(list@),
                None => self@.assets is None,
            },
    {
        PriceOracle::assets(&self.env)
    }

    /// The slot of the last write.
    pub fn get_last_timestamp(&self) -> (r: Option<u64>)
        ensures
            r == self@.last_timestamp,
    {
        self.env.get_last_timestamp()
    }

    /// The record of `asset` at the slot that `timestamp` falls in.
    pub fn price(&self, asset: Address, timestamp: u64) -> (r: Option<PriceData>)
        requires
            self.wf(),
        ensures
            r == price_spec(self@, asset, timestamp),
    {
        PriceOracle::price(&self.env, asset, timestamp)
    }

    /// The record of `asset` at the last write.
    pub fn lastprice(&self, asset: Address) -> (r: Option<PriceData>)
        requires
            self.wf(),
        ensures
            r == lastprice_spec(self@, asset),
    {
        PriceOracle::lastprice(&self.env, asset)
    }

    /// The price of `base_asset` in units of `quote_asset` at the slot that
    /// `timestamp` falls in.
    pub fn x_price(&self, base_asset: Address, quote_asset: Address, timestamp: u64) -> (r: Result<
        Option<PriceData>,
        Error,
    >)
        requires
            self.wf(),
        ensures
            r == x_price_spec(self@, base_asset, quote_asset, timestamp),
    {
        PriceOracle::x_price(&self.env, base_asset, quote_asset, timestamp)
    }

    /// The price of `base_asset` in units of `quote_asset` at the last write.
    pub fn x_last_price(&self, base_asset: Address, quote_asset: Address) -> (r: Result<
        Option<PriceData>,
        Error,
    >)
        requires
            self.wf(),
        ensures
            r == x_last_price_spec(self@, base_asset, quote_asset),
    {
        PriceOracle::x_last_price(&self.env, base_asset, quote_asset)
    }

    /// The last `records` prices of `asset`, newest first. Slots without a
    /// record are passed over; the answer is absent where none has one.
    pub fn prices(&self, asset: Address, records: u32) -> (r: Option<Vec<PriceData>>)
        ensures
            found_view(r) == prices_spec(self@, asset, records),
    {
        PriceOracle::prices(&self.env, asset, records)
    }

    /// The last `records` prices of `base_asset` in units of `quote_asset`,
    /// newest first. Slots at which either asset has no record are passed over.
    pub fn x_prices(&self, base_asset: Address, quote_asset: Address, records: u32) -> (r: Result<
        Option<Vec<PriceData>>,
        Error,
    >)
        ensures
            records_view(r) == x_prices_spec(self@, base_asset, quote_asset, records),
    {
        PriceOracle::x_prices(&self.env, base_asset, quote_asset, records)
    }

    /// The mean of the prices that `prices` finds, rounded down.
    pub fn twap(&self, asset: Address, records: u32) -> (r: Option<i128>)
        ensures
            r == twap_spec(self@, asset, records),
    {
        PriceOracle::twap(&self.env, asset, records)
    }

    /// The mean of the cross prices that `x_prices` finds, rounded down.
    pub fn x_twap(&self, base_asset: Address, quote_asset: Address, records: u32) -> (r: Result<
        Option<i128>,
        Error,
    >)
        ensures
            r == x_twap_spec(self@, base_asset, quote_asset, records),
    {
        PriceOracle::x_twap(&self.env, base_asset, quote_asset, records)
    }
}

} // verus!
