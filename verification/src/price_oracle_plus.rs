//! The oracle with paid queries: each account prepays a balance in the fee
//! asset, and every query takes its fee from the balance of who asks.

use vstd::prelude::*;
use crate::address::Address;
use crate::config_data::ConfigData;
use crate::data_key::DataKey;
use crate::env::{
    balance_key, balance_of, base_fee_of, can_inc_balance, number_at, records_view, Env, EnvView,
};
use crate::error::Error;
use crate::oracle::{
    add_assets_spec, config_spec, is_blank, is_valid, lastprice_spec, price_spec, prices_spec,
    set_price_spec, transition, twap_spec, valid, x_last_price_spec, x_price_spec, x_prices_spec,
    x_twap_spec, PriceOracle,
};
use crate::price_data::PriceData;

verus! {

/// A transfer of the fee asset into the oracle's custody, to be made for a deposit.
#[derive(Clone, Copy, PartialEq, Eq, Structural, Debug)]
pub struct Transfer {
    /// Who pays.
    pub from: Address,
    /// The asset to move.
    pub asset: Address,
    /// How much of it.
    pub amount: i128,
    /// The account whose balance the deposit is for.
    pub account: Address,
}

/// The fee of `units` price lookups.
pub open spec fn fee_for(numbers: Map<DataKey, i128>, units: u64) -> int {
    base_fee_of(numbers) * units
}

/// The state after `account` paid for `units` price lookups. The payment is
/// refused where the balance does not cover the fee, and where the fee or
/// the balance that would result is no `i128`.
pub open spec fn charge_spec(pre: EnvView, account: Address, units: u64) -> Result<EnvView, Error> {
    let fee = fee_for(pre.numbers, units);
    if i128::MIN <= -fee <= i128::MAX && can_inc_balance(pre.numbers, account, (-fee) as i128) {
        Ok(
            EnvView {
                numbers: pre.numbers.insert(
                    balance_key(account),
                    (balance_of(pre.numbers, account) - fee) as i128,
                ),
                ..pre
            },
        )
    } else {
        Err(Error::InsufficientBalance)
    }
}

/// What a paid query comes to: refused for an unknown invoker, then where the
/// fee cannot be paid, then where the query itself is refused; else the state
/// after the payment, and the answer.
pub open spec fn billed<T>(
    pre: EnvView,
    invoker: Option<Address>,
    units: u64,
    answer: Result<T, Error>,
) -> Result<(EnvView, T), Error> {
    match invoker {
        None => Err(Error::Unauthorized),
        Some(account) => match charge_spec(pre, account, units) {
            Err(e) => Err(e),
            Ok(post) => match answer {
                Ok(a) => Ok((post, a)),
                Err(e) => Err(e),
            },
        },
    }
}

/// A paid query was served as expected: on success the fee was taken and the
/// answer is the expected one, on refusal nothing has changed.
pub open spec fn served<T>(
    pre: EnvView,
    post: EnvView,
    outcome: Result<T, Error>,
    expected: Result<(EnvView, T), Error>,
) -> bool {
    match outcome {
        Ok(a) => expected == Ok::<(EnvView, T), Error>((post, a)),
        Err(e) => expected == Err::<(EnvView, T), Error>(e) && post == pre,
    }
}

/// The state after `config` was installed, the fee of one lookup included.
pub open spec fn config_with_fee_spec(pre: EnvView, user: Address, config: ConfigData) -> Result<
    EnvView,
    Error,
> {
    match config_spec(pre, user, config) {
        Ok(post) => Ok(
            EnvView { numbers: post.numbers.insert(DataKey::BaseFee, config.base_fee), ..post },
        ),
        Err(e) => Err(e),
    }
}

/// The state after `user` set the fee of one lookup.
pub open spec fn set_fee_spec(pre: EnvView, user: Address, fee: i128) -> Result<EnvView, Error> {
    if pre.admin != Some(user) {
        Err(Error::Unauthorized)
    } else {
        Ok(EnvView { numbers: pre.numbers.insert(DataKey::BaseFee, fee), ..pre })
    }
}

/// The state after `amount` of `asset` was deposited for `account`, where
/// `fee_asset` is the asset that fees are paid in.
pub open spec fn deposit_spec(
    pre: EnvView,
    fee_asset: Address,
    account: Address,
    asset: Address,
    amount: i128,
) -> Result<EnvView, Error> {
    if amount <= 0 {
        Err(Error::InvalidDepositAmount)
    } else if asset != fee_asset {
        Err(Error::InvalidFeeAsset)
    } else if !can_inc_balance(pre.numbers, account, amount) {
        Err(Error::InvalidDepositAmount)
    } else {
        Ok(
            EnvView {
                numbers: pre.numbers.insert(
                    balance_key(account),
                    (balance_of(pre.numbers, account) + amount) as i128,
                ),
                ..pre
            },
        )
    }
}

/// Where neither the fee nor the balance is negative, a payment goes through
/// exactly when the balance covers the fee, and leaves the difference.
pub proof fn lemma_charge_covers(pre: EnvView, account: Address, units: u64)
    requires
        base_fee_of(pre.numbers) >= 0,
        balance_of(pre.numbers, account) >= 0,
    ensures
        charge_spec(pre, account, units) is Ok <==> fee_for(pre.numbers, units) <= balance_of(
            pre.numbers,
            account,
        ),
        charge_spec(pre, account, units) matches Ok(post) ==> balance_of(post.numbers, account)
            == balance_of(pre.numbers, account) - fee_for(pre.numbers, units),
{
    let fee = fee_for(pre.numbers, units);
    assert(fee >= 0) by (nonlinear_arith)
        requires
            fee == base_fee_of(pre.numbers) * units,
            base_fee_of(pre.numbers) >= 0,
    ;
}

/// The invoker of a paid query, who must be known.
pub fn get_invoker(invoker: Option<Address>) -> (r: Result<Address, Error>)
    ensures
        r == match invoker {
            Some(account) => Ok::<Address, Error>(account),
            None => Err::<Address, Error>(Error::Unauthorized),
        },
{
    match invoker {
        Some(account) => Ok(account),
        None => Err(Error::Unauthorized),
    }
}

/// A price oracle with paid queries, and the state it keeps.
pub struct PriceOracleContract {
    env: Env,
    fee_asset: Address,
}

impl View for PriceOracleContract {
    type V = EnvView;

    closed spec fn view(&self) -> EnvView {
        self.env@
    }
}

impl PriceOracleContract {
    /// What holds of the oracle between calls, see [`valid`].
    pub open spec fn wf(&self) -> bool {
        valid(self@)
    }

    /// The asset that deposits are made in.
    pub closed spec fn designated_fee_asset(&self) -> Address {
        self.fee_asset
    }

    /// An oracle that nobody has configured yet, with fees paid in `fee_asset`.
    pub fn new(fee_asset: Address) -> (c: PriceOracleContract)
        ensures
            c.wf(),
            is_blank(c@),
            c@.numbers == Map::<DataKey, i128>::empty(),
            c.designated_fee_asset() == fee_asset,
    {
        PriceOracleContract { env: Env::new(), fee_asset }
    }

    /// The oracle that continues from the stored state `env`, with fees paid
    /// in `fee_asset`; none where that state is not one an oracle can be in.
    pub fn open(env: Env, fee_asset: Address) -> (r: Option<PriceOracleContract>)
        ensures
            match r {
                Some(c) => valid(env@) && c.wf() && c@ == env@ && c.designated_fee_asset()
                    == fee_asset,
                None => !valid(env@),
            },
    {
        if is_valid(&env) {
            Some(PriceOracleContract { env, fee_asset })
        } else {
            None
        }
    }

    /// The state that the oracle has reached.
    pub fn close(self) -> (env: Env)
        ensures
            env@ == self@,
    {
        self.env
    }

    /// Installs `config`, the fee of one lookup included. Anyone may configure
    /// a blank oracle; afterwards only its administrator may.
    pub fn config(&mut self, user: Address, config: ConfigData) -> (r: Result<(), Error>)
        requires
            old(self).wf(),
        ensures
            final(self).wf(),
            final(self).designated_fee_asset() == old(self).designated_fee_asset(),
            transition(old(self)@, final(self)@, r, config_with_fee_spec(old(self)@, user, config)),
    {
        let base_fee = config.base_fee;
        match PriceOracle::config(&mut self.env, user, config) {
            Ok(()) => {
                self.env.set_base_fee(base_fee);
                Ok(())
            },
            Err(e) => Err(e),
        }
    }

    /// Registers `assets` after those that are registered. Administrator only.
    pub fn add_assets(&mut self, user: Address, assets: Vec<Address>) -> (r: Result<(), Error>)
        requires
            old(self).wf(),
        ensures
            final(self).wf(),
            final(self).designated_fee_asset() == old(self).designated_fee_asset(),
            transition(old(self)@, final(self)@, r, add_assets_spec(old(self)@, user, assets@)),
    {
        PriceOracle::add_assets(&mut self.env, user, assets)
    }

    /// Sets the fee of one price lookup. Administrator only.
    pub fn set_fee(&mut self, user: Address, fee: i128) -> (r: Result<(), Error>)
        requires
            old(self).wf(),
        ensures
            final(self).wf(),
            final(self).designated_fee_asset() == old(self).designated_fee_asset(),
            transition(old(self)@, final(self)@, r, set_fee_spec(old(self)@, user, fee)),
    {
        if !self.env.is_authorized(&user) {
            return Err(Error::Unauthorized);
        }
        self.env.set_base_fee(fee);
        Ok(())
    }

    /// Records one price per registered asset at the slot of `timestamp`, and
    /// makes that slot the last write. Administrator only.
    pub fn set_price(&mut self, user: Address, updates: Vec<i128>, timestamp: u64) -> (r: Result<
        (),
        Error,
    >)
        requires
            old(self).wf(),
        ensures
            final(self).wf(),
            final(self).designated_fee_asset() == old(self).designated_fee_asset(),
            transition(
                old(self)@,
                final(self)@,
                r,
                set_price_spec(old(self)@, user, updates@, timestamp),
            ),
    {
        PriceOracle::set_price(&mut self.env, user, updates, timestamp)
    }

    /// Admits a deposit of `amount` of `asset` by `user` for `account`, and
    /// names the transfer that has to be made for it. Nothing is credited
    /// yet: see [`Self::credit`].
    pub fn deposit(&self, user: Address, account: Address, asset: Address, amount: i128) -> (r:
        Result<Transfer, Error>)
        ensures
            match r {
                Ok(transfer) => transfer == (Transfer { from: user, asset, amount, account })
                    && deposit_spec(self@, self.designated_fee_asset(), account, asset, amount)
                    is Ok,
                Err(e) => deposit_spec(self@, self.designated_fee_asset(), account, asset, amount)
                    == Err::<EnvView, Error>(e),
            },
    {
        if amount <= 0 {
            return Err(Error::InvalidDepositAmount);
        }
        if self.fee_asset != asset {
            return Err(Error::InvalidFeeAsset);
        }
        let balance = match self.env.get_balance(account) {
            Some(balance) => balance,
            None => 0,
        };
        match balance.checked_add(amount) {
            Some(sum) => {
                if sum < 0 {
                    return Err(Error::InvalidDepositAmount);
                }
            },
            None => {
                return Err(Error::InvalidDepositAmount);
            },
        }
        Ok(Transfer { from: user, asset, amount, account })
    }

    /// Credits a deposit whose transfer was made: the balance of the account
    /// grows by the amount.
    pub fn credit(&mut self, transfer: Transfer) -> (r: Result<(), Error>)
        requires
            old(self).wf(),
        ensures
            final(self).wf(),
            final(self).designated_fee_asset() == old(self).designated_fee_asset(),
            transition(
                old(self)@,
                final(self)@,
                r,
                deposit_spec(
                    old(self)@,
                    old(self).designated_fee_asset(),
                    transfer.account,
                    transfer.asset,
                    transfer.amount,
                ),
            ),
    {
        if transfer.amount <= 0 {
            return Err(Error::InvalidDepositAmount);
        }
        if self.fee_asset != transfer.asset {
            return Err(Error::InvalidFeeAsset);
        }
        if self.env.try_inc_balance(transfer.account, transfer.amount) {
            Ok(())
        } else {
            Err(Error::InvalidDepositAmount)
        }
    }

    /// The amount to add to the balance of `account` in payment of `units`
    /// lookups, where the payment can be made.
    fn fee_amount(&self, account: Address, units: u64) -> (r: Option<i128>)
        ensures
            match r {
                Some(amount) => amount == -fee_for(self@.numbers, units) && can_inc_balance(
                    self@.numbers,
                    account,
                    amount,
                ) && charge_spec(self@, account, units) is Ok,
                None => charge_spec(self@, account, units) is Err,
            },
    {
        let base_fee = match self.env.get_base_fee() {
            Some(fee) => fee,
            None => 0,
        };
        let fee = match base_fee.checked_mul(units as i128) {
            Some(fee) => fee,
            None => {
                return None;
            },
        };
        let amount = match 0i128.checked_sub(fee) {
            Some(amount) => amount,
            None => {
                return None;
            },
        };
        let balance = match self.env.get_balance(account) {
            Some(balance) => balance,
            None => 0,
        };
        match balance.checked_add(amount) {
            Some(sum) => if sum >= 0 {
                Some(amount)
            } else {
                None
            },
            None => None,
        }
    }

    /// Takes the fee of `units` price lookups from the balance of `account`.
    pub fn charge(&mut self, account: Address, units: u64) -> (r: Result<(), Error>)
        requires
            old(self).wf(),
        ensures
            final(self).wf(),
            final(self).designated_fee_asset() == old(self).designated_fee_asset(),
            transition(old(self)@, final(self)@, r, charge_spec(old(self)@, account, units)),
    {
        match self.fee_amount(account, units) {
            Some(amount) => {
                self.env.try_inc_balance(account, amount);
                Ok(())
            },
            None => Err(Error::InsufficientBalance),
        }
    }

    /// The prepaid balance of `account`.
    pub fn balance(&self, account: Address) -> (r: Option<i128>)
        ensures
            r == number_at(self@.numbers, balance_key(account)),
    {
        self.env.get_balance(account)
    }

    /// The asset that deposits are made in.
    pub fn fee_asset(&self) -> (r: Address)
        ensures
            r == self.designated_fee_asset(),
    {
        self.fee_asset
    }

    /// The fee of one price lookup.
    pub fn base_fee(&self) -> (r: Option<i128>)
        ensures
            r == number_at(self@.numbers, DataKey::BaseFee),
    {
        self.env.get_base_fee()
    }

    /// The administrator.
    pub fn admin(&self) -> (r: Option<Address>)
        ensures
            r == self@.admin,
    {
        PriceOracle::admin(&self.env)
    }

    /// The asset in which prices are expressed.
    pub fn base(&self) -> (r: Option<Address>)
        ensures
            r == self@.base,
    {
        PriceOracle::base(&self.env)
    }

    /// Number of fractional decimal digits of a price.
    pub fn decimals(&self) -> (r: Option<u32>)
        ensures
            r == self@.decimals,
    {
        PriceOracle::decimals(&self.env)
    }

    /// Step of the time grid, in seconds.
    pub fn resolution(&self) -> (r: Option<u32>)
        ensures
            r == self@.resolution,
    {
        PriceOracle::resolution(&self.env)
    }

    /// Retention window of price records, in seconds.
    pub fn period(&self) -> (r: Option<u64>)
        ensures
            r == self@.rdm_period,
    {
        PriceOracle::period(&self.env)
    }

    /// The registered assets.
    pub fn assets(&self) -> (r: Option<Vec<Address>>)
        ensures
            match r {
                Some(list) => self@.assets == Some(list@),
                None => self@.assets is None,
            },
    {
        PriceOracle::assets(&self.env)
    }

    /// The slot of the last write.
    pub fn get_last_timestamp(&self) -> (r: Option<u64>)
        ensures
            r == self@.last_timestamp,
    {
        self.env.get_last_timestamp()
    }

    /// The record of `asset` at the slot that `timestamp` falls in, for the
    /// fee of one lookup.
    pub fn price(&mut self, invoker: Option<Address>, asset: Address, timestamp: u64) -> (r: Result<
        Option<PriceData>,
        Error,
    >)
        requires
            old(self).wf(),
        ensures
            final(self).wf(),
            final(self).designated_fee_asset() == old(self).designated_fee_asset(),
            served(
                old(self)@,
                final(self)@,
                r,
                billed(
                    old(self)@,
                    invoker,
                    1,
                    Ok::<Option<PriceData>, Error>(price_spec(old(self)@, asset, timestamp)),
                ),
            ),
    {
        let invoker = get_invoker(invoker)?;
        let price = PriceOracle::price(&self.env, asset, timestamp);
        self.charge(invoker, 1)?;
        Ok(price)
    }

    /// The record of `asset` at the last write, for the fee of one lookup.
    pub fn lastprice(&mut self, invoker: Option<Address>, asset: Address) -> (r: Result<
        Option<PriceData>,
        Error,
    >)
        requires
            old(self).wf(),
        ensures
            final(self).wf(),
            final(self).designated_fee_asset() == old(self).designated_fee_asset(),
            served(
                old(self)@,
                final(self)@,
                r,
                billed(
                    old(self)@,
                    invoker,
                    1,
                    Ok::<Option<PriceData>, Error>(lastprice_spec(old(self)@, asset)),
                ),
            ),
    {
        let invoker = get_invoker(invoker)?;
        let price = PriceOracle::lastprice(&self.env, asset);
        self.charge(invoker, 1)?;
        Ok(price)
    }

    /// The price of `base_asset` in units of `quote_asset` at the slot that
    /// `timestamp` falls in, for the fee of two lookups.
    pub fn x_price(
        &mut self,
        invoker: Option<Address>,
        base_asset: Address,
        quote_asset: Address,
        timestamp: u64,
    ) -> (r: Result<Option<PriceData>, Error>)
        requires
            old(self).wf(),
        ensures
            final(self).wf(),
            final(self).designated_fee_asset() == old(self).designated_fee_asset(),
            served(
                old(self)@,
                final(self)@,
                r,
                billed(
                    old(self)@,
                    invoker,
                    2,
                    x_price_spec(old(self)@, base_asset, quote_asset, timestamp),
                ),
            ),
    {
        let invoker = get_invoker(invoker)?;
        if self.fee_amount(invoker, 2).is_none() {
            return Err(Error::InsufficientBalance);
        }
        let price = PriceOracle::x_price(&self.env, base_asset, quote_asset, timestamp)?;
        self.charge(invoker, 2)?;
        Ok(price)
    }

    /// The price of `base_asset` in units of `quote_asset` at the last write,
    /// for the fee of two lookups.
    pub fn x_lt_price(
        &mut self,
        invoker: Option<Address>,
        base_asset: Address,
        quote_asset: Address,
    ) -> (r: Result<Option<PriceData>, Error>)
        requires
            old(self).wf(),
        ensures
            final(self).wf(),
            final(self).designated_fee_asset() == old(self).designated_fee_asset(),
            served(
                old(self)@,
                final(self)@,
                r,
                billed(
                    old(self)@,
                    invoker,
                    2,
                    x_last_price_spec(old(self)@, base_asset, quote_asset),
                ),
            ),
    {
        let invoker = get_invoker(invoker)?;
        if self.fee_amount(invoker, 2).is_none() {
            return Err(Error::InsufficientBalance);
        }
        let price = PriceOracle::x_last_price(&self.env, base_asset, quote_asset)?;
        self.charge(invoker, 2)?;
        Ok(price)
    }

    /// The last `records` prices of `asset`, newest first, for the fee of
    /// `records` lookups.
    pub fn prices(&mut self, invoker: Option<Address>, asset: Address, records: u32) -> (r: Result<
        Option<Vec<PriceData>>,
        Error,
    >)
        requires
            old(self).wf(),
        ensures
            final(self).wf(),
            final(self).designated_fee_asset() == old(self).designated_fee_asset(),
            served(
                old(self)@,
                final(self)@,
                records_view(r),
                billed(
                    old(self)@,
                    invoker,
                    records as u64,
                    Ok::<Option<Seq<PriceData>>, Error>(prices_spec(old(self)@, asset, records)),
                ),
            ),
    {
        let invoker = get_invoker(invoker)?;
        let prices = PriceOracle::prices(&self.env, asset, records);
        self.charge(invoker, records as u64)?;
        Ok(prices)
    }

    /// The last `records` prices of `base_asset` in units of `quote_asset`,
    /// newest first, for the fee of two lookups per record.
    pub fn x_prices(
        &mut self,
        invoker: Option<Address>,
        base_asset: Address,
        quote_asset: Address,
        records: u32,
    ) -> (r: Result<Option<Vec<PriceData>>, Error>)
        requires
            old(self).wf(),
        ensures
            final(self).wf(),
            final(self).designated_fee_asset() == old(self).designated_fee_asset(),
            served(
                old(self)@,
                final(self)@,
                records_view(r),
                billed(
                    old(self)@,
                    invoker,
                    (2 * records) as u64,
                    x_prices_spec(old(self)@, base_asset, quote_asset, records),
                ),
            ),
    {
        let invoker = get_invoker(invoker)?;
        let units = 2 * (records as u64);
        if self.fee_amount(invoker, units).is_none() {
            return Err(Error::InsufficientBalance);
        }
        let prices = PriceOracle::x_prices(&self.env, base_asset, quote_asset, records)?;
        self.charge(invoker, units)?;
        Ok(prices)
    }

    /// The mean of the prices that `prices` finds, for the fee of `records` lookups.
    pub fn twap(&mut self, invoker: Option<Address>, asset: Address, records: u32) -> (r: Result<
        Option<i128>,
        Error,
    >)
        requires
            old(self).wf(),
        ensures
            final(self).wf(),
            final(self).designated_fee_asset() == old(self).designated_fee_asset(),
            served(
                old(self)@,
                final(self)@,
                r,
                billed(
                    old(self)@,
                    invoker,
                    records as u64,
                    Ok::<Option<i128>, Error>(twap_spec(old(self)@, asset, records)),
                ),
            ),
    {
        let invoker = get_invoker(invoker)?;
        let mean = PriceOracle::twap(&self.env, asset, records);
        self.charge(invoker, records as u64)?;
        Ok(mean)
    }

    /// The mean of the cross prices that `x_prices` finds, for the fee of
    /// `records` lookups.
    pub fn x_twap(
        &mut self,
        invoker: Option<Address>,
        base_asset: Address,
        quote_asset: Address,
        records: u32,
    ) -> (r: Result<Option<i128>, Error>)
        requires
            old(self).wf(),
        ensures
            final(self).wf(),
            final(self).designated_fee_asset() == old(self).designated_fee_asset(),
            served(
                old(self)@,
                final(self)@,
                r,
                billed(
                    old(self)@,
                    invoker,
                    records as u64,
                    x_twap_spec(old(self)@, base_asset, quote_asset, records),
                ),
            ),
    {
        let invoker = get_invoker(invoker)?;
        if self.fee_amount(invoker, records as u64).is_none() {
            return Err(Error::InsufficientBalance);
        }
        let mean = PriceOracle::x_twap(&self.env, base_asset, quote_asset, records)?;
        self.charge(invoker, records as u64)?;
        Ok(mean)
    }
}

} // verus!
