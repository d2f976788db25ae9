//! The state an oracle keeps between calls, and the lookups made on it.

use vstd::prelude::*;
use crate::address::Address;
use crate::data_key::{AssetPriceKey, DataKey};
use crate::error::Error;
use crate::i128_extensions::{checked_fixed_div_floor, fixed_div_floor_fits, fixed_div_floor_spec};
use crate::price_data::PriceData;
use crate::table::Table;

verus! {

/// The stored values: the settings, each absent until it is first set, the
/// marker of the last write, and the numbers kept under a key each: the price
/// records, the fee of a lookup and the prepaid balances.
pub struct Env {
    admin: Option<Address>,
    base: Option<Address>,
    decimals: Option<u32>,
    resolution: Option<u32>,
    rdm_period: Option<u64>,
    assets: Option<Vec<Address>>,
    last_timestamp: Option<u64>,
    numbers: Table<DataKey, i128>,
}

/// What an [`Env`] holds, as mathematical values.
pub struct EnvView {
    pub admin: Option<Address>,
    pub base: Option<Address>,
    pub decimals: Option<u32>,
    pub resolution: Option<u32>,
    pub rdm_period: Option<u64>,
    pub assets: Option<Seq<Address>>,
    pub last_timestamp: Option<u64>,
    pub numbers: Map<DataKey, i128>,
}

/// The key of the price of `asset` at `timestamp`.
pub open spec fn price_key(asset: Address, timestamp: u64) -> DataKey {
    DataKey::Price(AssetPriceKey { asset, timestamp })
}

/// The number held under `key`, where there is one.
pub open spec fn number_at(numbers: Map<DataKey, i128>, key: DataKey) -> Option<i128> {
    if numbers.contains_key(key) {
        Some(numbers[key])
    } else {
        None
    }
}

/// The recorded price of `asset` at exactly `timestamp`.
pub open spec fn price_at(numbers: Map<DataKey, i128>, asset: Address, timestamp: u64) -> Option<
    i128,
> {
    number_at(numbers, price_key(asset, timestamp))
}

/// The price of `base` in units of `quote` at exactly `timestamp`, with
/// `decimals` fractional digits: absent where either price is, refused for an
/// asset against itself and where the quotient has no value that fits.
pub open spec fn cross_price_at(
    numbers: Map<DataKey, i128>,
    base: Address,
    quote: Address,
    timestamp: u64,
    decimals: u32,
) -> Result<Option<i128>, Error> {
    if base == quote {
        Err(Error::InvalidAssetPair)
    } else {
        match (price_at(numbers, base, timestamp), price_at(numbers, quote, timestamp)) {
            (Some(b), Some(q)) => if fixed_div_floor_fits(b as int, q as int, decimals as nat) {
                Ok(Some(fixed_div_floor_spec(b as int, q as int, decimals as nat) as i128))
            } else {
                Err(Error::InvalidPriceValue)
            },
            _ => Ok(None),
        }
    }
}

/// The assets of a view, none where the list was never set.
pub open spec fn assets_of(view: EnvView) -> Seq<Address> {
    match view.assets {
        Some(assets) => assets,
        None => Seq::empty(),
    }
}

/// Whether a value is stored under `key`.
pub open spec fn has_spec(view: EnvView, key: DataKey) -> bool {
    match key {
        DataKey::Admin => view.admin is Some,
        DataKey::Base => view.base is Some,
        DataKey::Timestamp => view.last_timestamp is Some,
        DataKey::Decimals => view.decimals is Some,
        DataKey::RdmPeriod => view.rdm_period is Some,
        DataKey::Resolution => view.resolution is Some,
        DataKey::Assets => view.assets is Some,
        DataKey::Price(_) => view.numbers.contains_key(key),
        DataKey::BaseFee => view.numbers.contains_key(key),
        DataKey::Balance(_) => view.numbers.contains_key(key),
    }
}

/// The key of the prepaid balance of `account`.
pub open spec fn balance_key(account: Address) -> DataKey {
    DataKey::Balance(account)
}

/// The prepaid balance of `account`, zero where none is kept.
pub open spec fn balance_of(numbers: Map<DataKey, i128>, account: Address) -> int {
    match number_at(numbers, balance_key(account)) {
        Some(balance) => balance as int,
        None => 0,
    }
}

/// The fee of one price lookup, zero where none is set.
pub open spec fn base_fee_of(numbers: Map<DataKey, i128>) -> int {
    match number_at(numbers, DataKey::BaseFee) {
        Some(fee) => fee as int,
        None => 0,
    }
}

/// `amount` can be added to the balance of `account`: the sum is an `i128`
/// that is not negative.
pub open spec fn can_inc_balance(numbers: Map<DataKey, i128>, account: Address, amount: i128)
    -> bool {
    0 <= balance_of(numbers, account) + amount <= i128::MAX
}

/// What a historical query reads at each slot of the grid.
#[derive(Clone, Copy, PartialEq, Eq, Structural, Debug)]
pub enum Series {
    /// The price of one asset.
    Asset(Address),
    /// The price of `base` in units of `quote`, with `decimals` fractional digits.
    Cross { base: Address, quote: Address, decimals: u32 },
}

/// What `series` gives at exactly `timestamp`.
pub open spec fn value_at(numbers: Map<DataKey, i128>, series: Series, timestamp: u64) -> Result<
    Option<i128>,
    Error,
> {
    match series {
        Series::Asset(asset) => Ok(price_at(numbers, asset, timestamp)),
        Series::Cross { base, quote, decimals } => cross_price_at(
            numbers,
            base,
            quote,
            timestamp,
            decimals,
        ),
    }
}

/// The record of `series` at `timestamp`, where it has a value there.
pub open spec fn record_at(numbers: Map<DataKey, i128>, series: Series, timestamp: u64) -> Option<
    PriceData,
> {
    match value_at(numbers, series, timestamp) {
        Ok(Some(price)) => Some(PriceData { price, timestamp }),
        _ => None,
    }
}

/// [`record_at`] as a function of the timestamp.
pub open spec fn recorder(numbers: Map<DataKey, i128>, series: Series) -> spec_fn(u64) -> Option<
    PriceData,
> {
    |timestamp: u64| record_at(numbers, series, timestamp)
}

/// `series` has no value at `timestamp` for a reason that refuses the query.
pub open spec fn fails_at(numbers: Map<DataKey, i128>, series: Series, timestamp: u64) -> bool {
    value_at(numbers, series, timestamp) is Err
}

/// The one reason for which `series` can refuse a query.
pub open spec fn series_error(series: Series) -> Error {
    match series {
        Series::Asset(_) => Error::InvalidPriceValue,
        Series::Cross { base, quote, decimals } => if base == quote {
            Error::InvalidAssetPair
        } else {
            Error::InvalidPriceValue
        },
    }
}

/// The slots a historical query visits: `start`, then one `step` earlier each
/// time, at most `rounds` of them and none before time zero. Newest first.
pub open spec fn slots(start: u64, step: u64, rounds: nat) -> Seq<u64>
    decreases rounds,
{
    if rounds == 0 {
        Seq::empty()
    } else if rounds == 1 || start < step {
        seq![start]
    } else {
        seq![start] + slots((start - step) as u64, step, (rounds - 1) as nat)
    }
}

/// The records of `series` at those of `visited` where it has a value, in the
/// order of `visited`; refused where it fails at one of them.
pub open spec fn collect(numbers: Map<DataKey, i128>, series: Series, visited: Seq<u64>) -> Result<
    Seq<PriceData>,
    Error,
> {
    if exists|k: int| 0 <= k < visited.len() && fails_at(numbers, series, #[trigger] visited[k]) {
        Err(series_error(series))
    } else {
        Ok(visited.filter_map(recorder(numbers, series)))
    }
}

/// The last `rounds` records of `series`, walking back from the last write
/// in steps of `timeframe`. Absent where nothing was written yet or no
/// visited slot has a record.
pub open spec fn prices_spec(view: EnvView, series: Series, rounds: u32, timeframe: u64) -> Result<
    Option<Seq<PriceData>>,
    Error,
> {
    match view.last_timestamp {
        None => Ok(None),
        Some(last) => match collect(view.numbers, series, slots(last, timeframe, rounds as nat)) {
            Err(e) => Err(e),
            Ok(found) => if found.len() == 0 {
                Ok(None)
            } else {
                Ok(Some(found))
            },
        },
    }
}

/// The records of a query's answer, as a sequence.
pub open spec fn records_view(answer: Result<Option<Vec<PriceData>>, Error>) -> Result<
    Option<Seq<PriceData>>,
    Error,
> {
    match answer {
        Ok(Some(records)) => Ok(Some(records@)),
        Ok(None) => Ok(None),
        Err(e) => Err(e),
    }
}

/// The records of an answer that cannot be refused, as a sequence.
pub open spec fn found_view(answer: Option<Vec<PriceData>>) -> Option<Seq<PriceData>> {
    match answer {
        Some(records) => Some(records@),
        None => None,
    }
}

/// The cross price at `timestamp`, absent while the number of decimals is not set.
pub open spec fn get_x_price_spec(view: EnvView, base: Address, quote: Address, timestamp: u64)
    -> Result<Option<i128>, Error> {
    match view.decimals {
        None => Ok(None),
        Some(decimals) => cross_price_at(view.numbers, base, quote, timestamp, decimals),
    }
}

/// The last `rounds` prices of `asset`, absent while resolution or decimals are not set.
pub open spec fn get_prices_spec(view: EnvView, asset: Address, rounds: u32) -> Option<
    Seq<PriceData>,
> {
    match (view.resolution, view.decimals) {
        (Some(resolution), Some(_)) => match prices_spec(
            view,
            Series::Asset(asset),
            rounds,
            resolution as u64,
        ) {
            Ok(found) => found,
            Err(_) => None,
        },
        _ => None,
    }
}

/// The last `rounds` cross prices, absent while resolution or decimals are not set.
pub open spec fn get_x_prices_spec(view: EnvView, base: Address, quote: Address, rounds: u32)
    -> Result<Option<Seq<PriceData>>, Error> {
    match (view.resolution, view.decimals) {
        (Some(resolution), Some(decimals)) => prices_spec(
            view,
            Series::Cross { base, quote, decimals },
            rounds,
            resolution as u64,
        ),
        _ => Ok(None),
    }
}

/// A copy of a list of addresses.
pub fn copy_addresses(list: &Vec<Address>) -> (copy: Vec<Address>)
    ensures
        copy@ == list@,
{
    let mut copy: Vec<Address> = Vec::new();
    let mut i: usize = 0;
    while i < list.len()
        invariant
            i <= list@.len(),
            copy@ == list@.take(i as int),
        decreases list@.len() - i,
    {
        copy.push(list[i]);
        assert(list@.take(i + 1) =~= list@.take(i as int).push(list@[i as int]));
        i = i + 1;
    }
    assert(list@.take(list@.len() as int) =~= list@);
    copy
}

impl View for Env {
    type V = EnvView;

    closed spec fn view(&self) -> EnvView {
        EnvView {
            admin: self.admin,
            base: self.base,
            decimals: self.decimals,
            resolution: self.resolution,
            rdm_period: self.rdm_period,
            assets: match self.assets {
                Some(assets) => Some(assets@),
                None => None,
            },
            last_timestamp: self.last_timestamp,
            numbers: self.numbers@,
        }
    }
}

impl Env {
    /// The state in which nothing was stored yet.
    pub fn new() -> (e: Env)
        ensures
            e@ == (EnvView {
                admin: None,
                base: None,
                decimals: None,
                resolution: None,
                rdm_period: None,
                assets: None,
                last_timestamp: None,
                numbers: Map::empty(),
            }),
    {
        Env {
            admin: None,
            base: None,
            decimals: None,
            resolution: None,
            rdm_period: None,
            assets: None,
            last_timestamp: None,
            numbers: Table::new(),
        }
    }

    /// Whether a value is stored under `key`.
    pub fn has(&self, key: DataKey) -> (r: bool)
        ensures
            r == has_spec(self@, key),
    {
        match key {
            DataKey::Admin => self.admin.is_some(),
            DataKey::Base => self.base.is_some(),
            DataKey::Timestamp => self.last_timestamp.is_some(),
            DataKey::Decimals => self.decimals.is_some(),
            DataKey::RdmPeriod => self.rdm_period.is_some(),
            DataKey::Resolution => self.resolution.is_some(),
            DataKey::Assets => self.assets.is_some(),
            DataKey::Price(_) => self.numbers.has(key),
            DataKey::BaseFee => self.numbers.has(key),
            DataKey::Balance(_) => self.numbers.has(key),
        }
    }

    /// Whether `invoker` is the administrator. Nobody is while none is set.
    pub fn is_authorized(&self, invoker: &Address) -> (r: bool)
        ensures
            r == (self@.admin == Some(*invoker)),
    {
        match self.admin {
            Some(admin) => *invoker == admin,
            None => false,
        }
    }

    /// Whether an administrator is set.
    pub fn is_initialized(&self) -> (r: bool)
        ensures
            r == self@.admin is Some,
    {
        self.admin.is_some()
    }

    /// The administrator.
    pub fn get_admin(&self) -> (r: Option<Address>)
        ensures
            r == self@.admin,
    {
        self.admin
    }

    /// Makes `admin` the administrator.
    pub fn set_admin(&mut self, admin: &Address)
        ensures
            final(self)@ == (EnvView { admin: Some(*admin), ..old(self)@ }),
    {
        self.admin = Some(*admin);
    }

    /// The asset in which prices are expressed.
    pub fn get_base(&self) -> (r: Option<Address>)
        ensures
            r == self@.base,
    {
        self.base
    }

    /// Sets the asset in which prices are expressed.
    pub fn set_base(&mut self, base: Address)
        ensures
            final(self)@ == (EnvView { base: Some(base), ..old(self)@ }),
    {
        self.base = Some(base);
    }

    /// The recorded price of `asset` at exactly `timestamp`.
    pub fn get_price(&self, asset: Address, timestamp: u64) -> (r: Option<i128>)
        ensures
            r == price_at(self@.numbers, asset, timestamp),
    {
        self.numbers.get(DataKey::Price(AssetPriceKey { asset, timestamp }))
    }

    /// Records `price` for `asset` at `timestamp`, over any price recorded there.
    pub fn set_price(&mut self, asset: Address, price: i128, timestamp: u64)
        ensures
            final(self)@ == (EnvView {
                numbers: old(self)@.numbers.insert(price_key(asset, timestamp), price),
                ..old(self)@
            }),
    {
        self.numbers.set(DataKey::Price(AssetPriceKey { asset, timestamp }), price);
    }

    /// The timestamp of the last write.
    pub fn get_last_timestamp(&self) -> (r: Option<u64>)
        ensures
            r == self@.last_timestamp,
    {
        self.last_timestamp
    }

    /// Moves the marker of the last write.
    pub fn set_last_timestamp(&mut self, timestamp: u64)
        ensures
            final(self)@ == (EnvView { last_timestamp: Some(timestamp), ..old(self)@ }),
    {
        self.last_timestamp = Some(timestamp);
    }

    /// The registered assets, none while the list was never set.
    pub fn get_assets(&self) -> (r: Vec<Address>)
        ensures
            r@ == assets_of(self@),
    {
        match &self.assets {
            Some(assets) => copy_addresses(assets),
            None => Vec::new(),
        }
    }

    /// Replaces the list of registered assets.
    pub fn set_assets(&mut self, assets: Vec<Address>)
        ensures
            final(self)@ == (EnvView { assets: Some(assets@), ..old(self)@ }),
    {
        self.assets = Some(assets);
    }

    /// Number of fractional decimal digits of a price.
    pub fn get_decimals(&self) -> (r: Option<u32>)
        ensures
            r == self@.decimals,
    {
        self.decimals
    }

    /// Sets the number of fractional decimal digits of a price.
    pub fn set_decimals(&mut self, decimals: u32)
        ensures
            final(self)@ == (EnvView { decimals: Some(decimals), ..old(self)@ }),
    {
        self.decimals = Some(decimals);
    }

    /// Retention window of price records, in seconds.
    pub fn get_rdm_period(&self) -> (r: Option<u64>)
        ensures
            r == self@.rdm_period,
    {
        self.rdm_period
    }

    /// Sets the retention window of price records.
    pub fn set_rdm_period(&mut self, rdm_period: u64)
        ensures
            final(self)@ == (EnvView { rdm_period: Some(rdm_period), ..old(self)@ }),
    {
        self.rdm_period = Some(rdm_period);
    }

    /// Step of the time grid, in seconds.
    pub fn get_resolution(&self) -> (r: Option<u32>)
        ensures
            r == self@.resolution,
    {
        self.resolution
    }

    /// Sets the step of the time grid.
    pub fn set_resolution(&mut self, resolution: u32)
        ensures
            final(self)@ == (EnvView { resolution: Some(resolution), ..old(self)@ }),
    {
        self.resolution = Some(resolution);
    }

    /// The fee of one price lookup.
    pub fn get_base_fee(&self) -> (r: Option<i128>)
        ensures
            r == number_at(self@.numbers, DataKey::BaseFee),
    {
        self.numbers.get(DataKey::BaseFee)
    }

    /// Sets the fee of one price lookup.
    pub fn set_base_fee(&mut self, base_fee: i128)
        ensures
            final(self)@ == (EnvView {
                numbers: old(self)@.numbers.insert(DataKey::BaseFee, base_fee),
                ..old(self)@
            }),
    {
        self.numbers.set(DataKey::BaseFee, base_fee);
    }

    /// The prepaid balance of `account`.
    pub fn get_balance(&self, account: Address) -> (r: Option<i128>)
        ensures
            r == number_at(self@.numbers, balance_key(account)),
    {
        self.numbers.get(DataKey::Balance(account))
    }

    /// Adds `amount`, which may be negative, to the balance of `account`,
    /// unless the balance would become negative or exceed an `i128`: then
    /// nothing changes and the answer is `false`.
    pub fn try_inc_balance(&mut self, account: Address, amount: i128) -> (r: bool)
        ensures
            r == can_inc_balance(old(self)@.numbers, account, amount),
            r ==> final(self)@ == (EnvView {
                numbers: old(self)@.numbers.insert(
                    balance_key(account),
                    (balance_of(old(self)@.numbers, account) + amount) as i128,
                ),
                ..old(self)@
            }),
            !r ==> final(self)@ == old(self)@,
    {
        let balance = match self.get_balance(account) {
            Some(balance) => balance,
            None => 0,
        };
        match balance.checked_add(amount) {
            Some(sum) => {
                if sum < 0 {
                    return false;
                }
                self.numbers.set(DataKey::Balance(account), sum);
                true
            },
            None => false,
        }
    }

    /// The price of `base` in units of `quote` at exactly `timestamp`.
    pub fn get_x_price(&self, base_asset: Address, quote_asset: Address, timestamp: u64) -> (r:
        Result<Option<i128>, Error>)
        ensures
            r == get_x_price_spec(self@, base_asset, quote_asset, timestamp),
    {
        match self.decimals {
            None => Ok(None),
            Some(decimals) => get_x_price(self, &base_asset, &quote_asset, timestamp, decimals),
        }
    }

    /// What `series` gives at exactly `timestamp`.
    pub fn lookup(&self, series: Series, timestamp: u64) -> (r: Result<Option<i128>, Error>)
        ensures
            r == value_at(self@.numbers, series, timestamp),
    {
        match series {
            Series::Asset(asset) => Ok(self.get_price(asset, timestamp)),
            Series::Cross { base, quote, decimals } => get_x_price(
                self,
                &base,
                &quote,
                timestamp,
                decimals,
            ),
        }
    }

    /// The last `rounds` prices of `asset`, newest first.
    pub fn get_prices(&self, asset: Address, rounds: u32) -> (r: Option<Vec<PriceData>>)
        ensures
            found_view(r) == get_prices_spec(self@, asset, rounds),
    {
        match (self.resolution, self.decimals) {
            (Some(timeframe), Some(_)) => match prices(
                self,
                Series::Asset(asset),
                rounds,
                timeframe as u64,
            ) {
                Ok(found) => found,
                Err(_) => None,
            },
            _ => None,
        }
    }

    /// The last `rounds` prices of `base` in units of `quote`, newest first.
    pub fn get_x_prices(&self, base_asset: Address, quote_asset: Address, rounds: u32) -> (r:
        Result<Option<Vec<PriceData>>, Error>)
        ensures
            records_view(r) == get_x_prices_spec(self@, base_asset, quote_asset, rounds),
    {
        match (self.resolution, self.decimals) {
            (Some(timeframe), Some(decimals)) => prices(
                self,
                Series::Cross { base: base_asset, quote: quote_asset, decimals },
                rounds,
                timeframe as u64,
            ),
            _ => Ok(None),
        }
    }
}

/// The price of `base_asset` in units of `quote_asset` at exactly `timestamp`:
/// `floor(base_price * 10^decimals / quote_price)`.
pub fn get_x_price(
    e: &Env,
    base_asset: &Address,
    quote_asset: &Address,
    timestamp: u64,
    decimals: u32,
) -> (r: Result<Option<i128>, Error>)
    ensures
        r == cross_price_at(e@.numbers, *base_asset, *quote_asset, timestamp, decimals),
{
    if *base_asset == *quote_asset {
        return Err(Error::InvalidAssetPair);
    }
    let base_asset_price = match e.get_price(*base_asset, timestamp) {
        Some(price) => price,
        None => {
            return Ok(None);
        },
    };
    let quote_asset_price = match e.get_price(*quote_asset, timestamp) {
        Some(price) => price,
        None => {
            return Ok(None);
        },
    };
    match checked_fixed_div_floor(base_asset_price, quote_asset_price, decimals) {
        Some(price) => Ok(Some(price)),
        None => Err(Error::InvalidPriceValue),
    }
}

/// The slots that a walk of `rounds` steps of `timeframe` back from `start`
/// visits, newest first: what [`prices`] reads.
pub fn visited_slots(start: u64, timeframe: u64, rounds: u32) -> (r: Vec<u64>)
    ensures
        r@ == slots(start, timeframe, rounds as nat),
{
    let ghost all = slots(start, timeframe, rounds as nat);
    let mut visited: Vec<u64> = Vec::new();
    let mut timestamp = start;
    let mut left: u32 = rounds;
    proof {
        assert(all =~= visited@ + slots(timestamp, timeframe, left as nat));
    }
    while left > 0
        invariant
            all == visited@ + slots(timestamp, timeframe, left as nat),
        decreases left,
    {
        let ghost before = visited@;
        visited.push(timestamp);
        if left > 1 && timestamp >= timeframe {
            proof {
                assert(all =~= visited@ + slots(
                    (timestamp - timeframe) as u64,
                    timeframe,
                    (left - 1) as nat,
                ));
            }
            timestamp = timestamp - timeframe;
            left = left - 1;
        } else {
            proof {
                assert(all =~= visited@ + slots(timestamp, timeframe, 0));
            }
            left = 0;
        }
    }
    proof {
        assert(all =~= visited@);
    }
    visited
}

/// The last `rounds` records of `series`: starting at the last write and
/// stepping back by `timeframe`, the records of the slots that have one.
/// A slot without a record is passed over.
pub fn prices(e: &Env, series: Series, rounds: u32, timeframe: u64) -> (r: Result<
    Option<Vec<PriceData>>,
    Error,
>)
    ensures
        records_view(r) == prices_spec(e@, series, rounds, timeframe),
{
    let mut timestamp = match e.get_last_timestamp() {
        Some(last) => last,
        None => {
            return Ok(None);
        },
    };
    let ghost numbers = e@.numbers;
    let ghost start = timestamp;
    let ghost all = slots(timestamp, timeframe, rounds as nat);
    let ghost mut done: Seq<u64> = Seq::empty();
    let mut found: Vec<PriceData> = Vec::new();
    let mut left: u32 = rounds;
    proof {
        assert(all =~= done + slots(timestamp, timeframe, left as nat));
    }
    while left > 0
        invariant
            numbers == e@.numbers,
            e@.last_timestamp == Some(start),
            all == slots(start, timeframe, rounds as nat),
            all == done + slots(timestamp, timeframe, left as nat),
            forall|k: int| 0 <= k < done.len() ==> !fails_at(numbers, series, #[trigger] done[k]),
            found@ == done.filter_map(recorder(numbers, series)),
        decreases left,
    {
        let ghost tail = slots(timestamp, timeframe, left as nat);
        assert(tail[0] == timestamp);
        match e.lookup(series, timestamp) {
            Err(error) => {
                proof {
                    let at = done.len() as int;
                    assert(0 <= at < all.len() && all[at] == timestamp);
                    assert(fails_at(numbers, series, all[at]));
                    assert(error == series_error(series));
                }
                return Err(error);
            },
            Ok(Some(price)) => {
                found.push(PriceData { price, timestamp });
            },
            Ok(None) => {},
        }
        proof {
            let next = done.push(timestamp);
            assert(next.drop_last() =~= done);
            assert(next.last() == timestamp);
            assert(found@ =~= next.filter_map(recorder(numbers, series)));
            assert forall|k: int| 0 <= k < next.len() implies !fails_at(
                numbers,
                series,
                #[trigger] next[k],
            ) by {
                if k < done.len() {
                    assert(next[k] == done[k]);
                }
            }
            done = next;
        }
        if left > 1 && timestamp >= timeframe {
            timestamp = timestamp - timeframe;
            left = left - 1;
            proof {
                assert(all =~= done + slots(timestamp, timeframe, left as nat));
            }
        } else {
            left = 0;
            proof {
                assert(all =~= done + slots(timestamp, timeframe, 0));
            }
        }
    }
    proof {
        assert(all =~= done);
    }
    if found.len() == 0 {
        Ok(None)
    } else {
        Ok(Some(found))
    }
}

} // verus!
