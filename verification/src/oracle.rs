//! The oracle's rules: who may configure it and write prices, and what each
//! query answers. Every operation works on the stored state it is handed.

use vstd::prelude::*;
use crate::address::Address;
use crate::average::{mean_floor, mean_spec};
use crate::config_data::ConfigData;
use crate::env::{
    assets_of, copy_addresses, cross_price_at, found_view, get_prices_spec, get_x_prices_spec,
    price_at, price_key, records_view, Env, EnvView,
};
use crate::data_key::DataKey;
use crate::error::Error;
use crate::price_data::PriceData;
use crate::timestamp::{quantize, quantize_spec};

verus! {

/// Every setting is present.
pub open spec fn is_configured(view: EnvView) -> bool {
    &&& view.admin is Some
    &&& view.base is Some
    &&& view.decimals is Some
    &&& view.resolution is Some
    &&& view.rdm_period is Some
    &&& view.assets is Some
}

/// Nothing was configured or written yet.
pub open spec fn is_blank(view: EnvView) -> bool {
    &&& view.admin is None
    &&& view.base is None
    &&& view.decimals is None
    &&& view.resolution is None
    &&& view.rdm_period is None
    &&& view.assets is None
    &&& view.last_timestamp is None
}

/// What holds of an oracle between calls: it is configured as a whole or not
/// at all, the step of its grid is positive, and no asset is registered twice.
pub open spec fn valid(view: EnvView) -> bool {
    &&& is_configured(view) || is_blank(view)
    &&& view.resolution matches Some(resolution) ==> resolution > 0
    &&& assets_of(view).no_duplicates()
}

/// The slot of the grid of `view` that `timestamp` falls in.
pub open spec fn slot_of(view: EnvView, timestamp: u64) -> u64 {
    quantize_spec(timestamp as int, view.resolution.unwrap() as int) as u64
}

/// The state after `user` installs `config`, or why the call is refused.
pub open spec fn config_spec(pre: EnvView, user: Address, config: ConfigData) -> Result<
    EnvView,
    Error,
> {
    if pre.admin is Some && pre.admin != Some(user) {
        Err(Error::Unauthorized)
    } else if config.resolution == 0 {
        Err(Error::InvalidResolution)
    } else if !config.assets@.no_duplicates() {
        Err(Error::AssetAlreadyPresented)
    } else {
        Ok(
            EnvView {
                admin: Some(config.admin),
                base: Some(config.base_asset),
                decimals: Some(config.decimals),
                resolution: Some(config.resolution),
                rdm_period: Some(config.period),
                assets: Some(config.assets@),
                ..pre
            },
        )
    }
}

/// The state after `user` registers `assets`, or why the call is refused.
pub open spec fn add_assets_spec(pre: EnvView, user: Address, assets: Seq<Address>) -> Result<
    EnvView,
    Error,
> {
    if pre.admin != Some(user) {
        Err(Error::Unauthorized)
    } else if !(assets_of(pre) + assets).no_duplicates() {
        Err(Error::AssetAlreadyPresented)
    } else {
        Ok(EnvView { assets: Some(assets_of(pre) + assets), ..pre })
    }
}

/// `numbers` after the first `count` of `updates` were recorded at `slot`,
/// each for the asset at its position.
pub open spec fn write_prices(
    numbers: Map<DataKey, i128>,
    assets: Seq<Address>,
    updates: Seq<i128>,
    slot: u64,
    count: nat,
) -> Map<DataKey, i128>
    decreases count,
{
    if count == 0 {
        numbers
    } else {
        write_prices(numbers, assets, updates, slot, (count - 1) as nat).insert(
            price_key(assets[count - 1], slot),
            updates[count - 1],
        )
    }
}

/// The state after `user` records `updates` at `timestamp`, or why the call
/// is refused.
pub open spec fn set_price_spec(pre: EnvView, user: Address, updates: Seq<i128>, timestamp: u64)
    -> Result<EnvView, Error> {
    if pre.admin != Some(user) {
        Err(Error::Unauthorized)
    } else if updates.len() != assets_of(pre).len() {
        Err(Error::InvalidUpdatesLength)
    } else if exists|i: int| 0 <= i < updates.len() && #[trigger] updates[i] <= 0 {
        Err(Error::InvalidPriceValue)
    } else {
        Ok(
            EnvView {
                numbers: write_prices(
                    pre.numbers,
                    assets_of(pre),
                    updates,
                    slot_of(pre, timestamp),
                    updates.len(),
                ),
                last_timestamp: Some(slot_of(pre, timestamp)),
                ..pre
            },
        )
    }
}

/// The record of `asset` at the slot of `timestamp`.
pub open spec fn price_spec(view: EnvView, asset: Address, timestamp: u64) -> Option<PriceData> {
    match (view.resolution, view.decimals) {
        (Some(_), Some(_)) => match price_at(view.numbers, asset, slot_of(view, timestamp)) {
            Some(price) => Some(PriceData { price, timestamp: slot_of(view, timestamp) }),
            None => None,
        },
        _ => None,
    }
}

/// The record of `asset` at the last write.
pub open spec fn lastprice_spec(view: EnvView, asset: Address) -> Option<PriceData> {
    match view.last_timestamp {
        Some(timestamp) => price_spec(view, asset, timestamp),
        None => None,
    }
}

/// The price of `base` in units of `quote` at the slot of `timestamp`.
pub open spec fn x_price_spec(view: EnvView, base: Address, quote: Address, timestamp: u64)
    -> Result<Option<PriceData>, Error> {
    if base == quote {
        Err(Error::InvalidAssetPair)
    } else {
        match (view.resolution, view.decimals) {
            (Some(_), Some(decimals)) => match cross_price_at(
                view.numbers,
                base,
                quote,
                slot_of(view, timestamp),
                decimals,
            ) {
                Ok(Some(price)) => Ok(
                    Some(PriceData { price, timestamp: slot_of(view, timestamp) }),
                ),
                Ok(None) => Ok(None),
                Err(e) => Err(e),
            },
            _ => Ok(None),
        }
    }
}

/// The price of `base` in units of `quote` at the last write.
pub open spec fn x_last_price_spec(view: EnvView, base: Address, quote: Address) -> Result<
    Option<PriceData>,
    Error,
> {
    if base == quote {
        Err(Error::InvalidAssetPair)
    } else {
        match view.last_timestamp {
            Some(timestamp) => x_price_spec(view, base, quote, timestamp),
            None => Ok(None),
        }
    }
}

/// The last `records` prices of `asset`, newest first.
pub open spec fn prices_spec(view: EnvView, asset: Address, records: u32) -> Option<
    Seq<PriceData>,
> {
    get_prices_spec(view, asset, records)
}

/// The last `records` prices of `base` in units of `quote`, newest first.
pub open spec fn x_prices_spec(view: EnvView, base: Address, quote: Address, records: u32)
    -> Result<Option<Seq<PriceData>>, Error> {
    if base == quote {
        Err(Error::InvalidAssetPair)
    } else {
        get_x_prices_spec(view, base, quote, records)
    }
}

/// The mean of the records found, where any were.
pub open spec fn mean_of(found: Option<Seq<PriceData>>) -> Option<i128> {
    match found {
        Some(records) => match mean_spec(records) {
            Some(mean) => Some(mean as i128),
            None => None,
        },
        None => None,
    }
}

/// The mean of the last `records` prices of `asset` that are on record.
pub open spec fn twap_spec(view: EnvView, asset: Address, records: u32) -> Option<i128> {
    mean_of(prices_spec(view, asset, records))
}

/// The mean of the last `records` cross prices that are on record.
pub open spec fn x_twap_spec(view: EnvView, base: Address, quote: Address, records: u32) -> Result<
    Option<i128>,
    Error,
> {
    match x_prices_spec(view, base, quote, records) {
        Ok(found) => Ok(mean_of(found)),
        Err(e) => Err(e),
    }
}

/// Whether no address occurs twice in `list`.
pub fn all_distinct(list: &Vec<Address>) -> (r: bool)
    ensures
        r == list@.no_duplicates(),
{
    let mut i: usize = 0;
    while i < list.len()
        invariant
            i <= list@.len(),
            list@.take(i as int).no_duplicates(),
        decreases list@.len() - i,
    {
        let mut j: usize = 0;
        while j < i
            invariant
                j <= i,
                i < list@.len(),
                forall|k: int| 0 <= k < j ==> list@[k] != list@[i as int],
            decreases i - j,
        {
            if list[j] == list[i] {
                return false;
            }
            j = j + 1;
        }
        assert(list@.take(i + 1).no_duplicates()) by {
            let longer = list@.take(i + 1);
            let shorter = list@.take(i as int);
            assert forall|a: int, b: int| 0 <= a < longer.len() && 0 <= b < longer.len() && a
                != b implies longer[a] != longer[b] by {
                if a < i && b < i {
                    assert(shorter[a] != shorter[b]);
                }
            }
        }
        i = i + 1;
    }
    assert(list@.take(list@.len() as int) =~= list@);
    true
}

/// Whether a stored state is one that an oracle can be in, see [`valid`].
pub fn is_valid(e: &Env) -> (r: bool)
    ensures
        r == valid(e@),
{
    let configured = e.has(DataKey::Admin) && e.has(DataKey::Base) && e.has(DataKey::Decimals)
        && e.has(DataKey::Resolution) && e.has(DataKey::RdmPeriod) && e.has(DataKey::Assets);
    let blank = !e.has(DataKey::Admin) && !e.has(DataKey::Base) && !e.has(DataKey::Decimals)
        && !e.has(DataKey::Resolution) && !e.has(DataKey::RdmPeriod) && !e.has(DataKey::Assets)
        && !e.has(DataKey::Timestamp);
    if !configured && !blank {
        return false;
    }
    match e.get_resolution() {
        Some(resolution) => {
            if resolution == 0 {
                return false;
            }
        },
        None => {},
    }
    let assets = e.get_assets();
    all_distinct(&assets)
}

/// A change of state: on success the state is the expected one, on refusal
/// the reason is the expected one and nothing has changed.
pub open spec fn transition(
    pre: EnvView,
    post: EnvView,
    outcome: Result<(), Error>,
    expected: Result<EnvView, Error>,
) -> bool {
    match outcome {
        Ok(()) => expected == Ok::<EnvView, Error>(post),
        Err(e) => expected == Err::<EnvView, Error>(e) && post == pre,
    }
}

/// The operations of the oracle.
pub struct PriceOracle;

impl PriceOracle {
    /// Installs `config`. Anyone may configure a blank oracle; afterwards only
    /// its administrator may.
    pub fn config(e: &mut Env, user: Address, config: ConfigData) -> (r: Result<(), Error>)
        requires
            valid(old(e)@),
        ensures
            valid(final(e)@),
            transition(old(e)@, final(e)@, r, config_spec(old(e)@, user, config)),
    {
        if e.is_initialized() && !e.is_authorized(&user) {
            return Err(Error::Unauthorized);
        }
        if config.resolution == 0 {
            return Err(Error::InvalidResolution);
        }
        if !all_distinct(&config.assets) {
            return Err(Error::AssetAlreadyPresented);
        }
        e.set_admin(&config.admin);
        e.set_base(config.base_asset);
        e.set_decimals(config.decimals);
        e.set_resolution(config.resolution);
        e.set_rdm_period(config.period);
        e.set_assets(copy_addresses(&config.assets));
        Ok(())
    }

    /// Registers `assets` after those that are registered. Administrator only.
    pub fn add_assets(e: &mut Env, user: Address, assets: Vec<Address>) -> (r: Result<(), Error>)
        requires
            valid(old(e)@),
        ensures
            valid(final(e)@),
            transition(old(e)@, final(e)@, r, add_assets_spec(old(e)@, user, assets@)),
    {
        if !e.is_authorized(&user) {
            return Err(Error::Unauthorized);
        }
        let mut presented = e.get_assets();
        let ghost registered = presented@;
        let mut i: usize = 0;
        while i < assets.len()
            invariant
                i <= assets@.len(),
                presented@ == registered + assets@.take(i as int),
            decreases assets@.len() - i,
        {
            presented.push(assets[i]);
            assert(assets@.take(i + 1) =~= assets@.take(i as int).push(assets@[i as int]));
            assert(presented@ =~= registered + assets@.take(i + 1));
            i = i + 1;
        }
        assert(assets@.take(assets@.len() as int) =~= assets@);
        if !all_distinct(&presented) {
            return Err(Error::AssetAlreadyPresented);
        }
        e.set_assets(presented);
        Ok(())
    }

    /// Records one price per registered asset at the slot of `timestamp`, and
    /// makes that slot the last write. Administrator only.
    pub fn set_price(e: &mut Env, user: Address, updates: Vec<i128>, timestamp: u64) -> (r: Result<
        (),
        Error,
    >)
        requires
            valid(old(e)@),
        ensures
            valid(final(e)@),
            transition(old(e)@, final(e)@, r, set_price_spec(old(e)@, user, updates@, timestamp)),
    {
        if !e.is_authorized(&user) {
            return Err(Error::Unauthorized);
        }
        let assets = e.get_assets();
        if updates.len() != assets.len() {
            return Err(Error::InvalidUpdatesLength);
        }
        let ghost pre = e@;
        let mut i: usize = 0;
        while i < updates.len()
            invariant
                i <= updates@.len(),
                forall|k: int| 0 <= k < i ==> updates@[k] > 0,
                *e == *old(e),
                pre == e@,
                valid(pre),
                pre.admin == Some(user),
                updates@.len() == assets_of(pre).len(),
            decreases updates@.len() - i,
        {
            if updates[i] <= 0 {
                return Err(Error::InvalidPriceValue);
            }
            i = i + 1;
        }
        let resolution = e.get_resolution().unwrap();
        let slot = quantize(timestamp, resolution as u64);
        let mut i: usize = 0;
        while i < updates.len()
            invariant
                i <= updates@.len(),
                updates@.len() == assets@.len(),
                assets@ == assets_of(pre),
                valid(pre),
                e@ == (EnvView {
                    numbers: write_prices(pre.numbers, assets@, updates@, slot, i as nat),
                    ..pre
                }),
            decreases updates@.len() - i,
        {
            e.set_price(assets[i], updates[i], slot);
            i = i + 1;
        }
        e.set_last_timestamp(slot);
        Ok(())
    }

    /// The administrator.
    pub fn admin(e: &Env) -> (r: Option<Address>)
        ensures
            r == e@.admin,
    {
        e.get_admin()
    }

    /// The asset in which prices are expressed.
    pub fn base(e: &Env) -> (r: Option<Address>)
        ensures
            r == e@.base,
    {
        e.get_base()
    }

    /// Number of fractional decimal digits of a price.
    pub fn decimals(e: &Env) -> (r: Option<u32>)
        ensures
            r == e@.decimals,
    {
        e.get_decimals()
    }

    /// Step of the time grid, in seconds.
    pub fn resolution(e: &Env) -> (r: Option<u32>)
        ensures
            r == e@.resolution,
    {
        e.get_resolution()
    }

    /// Retention window of price records, in seconds.
    pub fn period(e: &Env) -> (r: Option<u64>)
        ensures
            r == e@.rdm_period,
    {
        e.get_rdm_period()
    }

    /// The registered assets.
    pub fn assets(e: &Env) -> (r: Option<Vec<Address>>)
        ensures
            match r {
                Some(list) => e@.assets == Some(list@),
                None => e@.assets is None,
            },
    {
        if e.has(DataKey::Assets) {
            Some(e.get_assets())
        } else {
            None
        }
    }

    /// The record of `asset` at the slot that `timestamp` falls in.
    pub fn price(e: &Env, asset: Address, timestamp: u64) -> (r: Option<PriceData>)
        requires
            valid(e@),
        ensures
            r == price_spec(e@, asset, timestamp),
    {
        match (e.get_resolution(), e.get_decimals()) {
            (Some(resolution), Some(_)) => {
                let slot = quantize(timestamp, resolution as u64);
                match e.get_price(asset, slot) {
                    Some(price) => Some(PriceData { price, timestamp: slot }),
                    None => None,
                }
            },
            _ => None,
        }
    }

    /// The record of `asset` at the last write.
    pub fn lastprice(e: &Env, asset: Address) -> (r: Option<PriceData>)
        requires
            valid(e@),
        ensures
            r == lastprice_spec(e@, asset),
    {
        match e.get_last_timestamp() {
            Some(timestamp) => Self::price(e, asset, timestamp),
            None => None,
        }
    }

    /// The price of `base_asset` in units of `quote_asset` at the slot that
    /// `timestamp` falls in.
    pub fn x_price(e: &Env, base_asset: Address, quote_asset: Address, timestamp: u64) -> (r:
        Result<Option<PriceData>, Error>)
        requires
            valid(e@),
        ensures
            r == x_price_spec(e@, base_asset, quote_asset, timestamp),
    {
        if base_asset == quote_asset {
            return Err(Error::InvalidAssetPair);
        }
        match e.get_resolution() {
            Some(resolution) => {
                let slot = quantize(timestamp, resolution as u64);
                match e.get_x_price(base_asset, quote_asset, slot) {
                    Ok(Some(price)) => Ok(Some(PriceData { price, timestamp: slot })),
                    Ok(None) => Ok(None),
                    Err(e) => Err(e),
                }
            },
            None => Ok(None),
        }
    }

    /// The price of `base_asset` in units of `quote_asset` at the last write.
    pub fn x_last_price(e: &Env, base_asset: Address, quote_asset: Address) -> (r: Result<
        Option<PriceData>,
        Error,
    >)
        requires
            valid(e@),
        ensures
            r == x_last_price_spec(e@, base_asset, quote_asset),
    {
        if base_asset == quote_asset {
            return Err(Error::InvalidAssetPair);
        }
        match e.get_last_timestamp() {
            Some(timestamp) => Self::x_price(e, base_asset, quote_asset, timestamp),
            None => Ok(None),
        }
    }

    /// The last `records` prices of `asset`, newest first. Slots without a
    /// record are passed over; the answer is absent where none has one.
    pub fn prices(e: &Env, asset: Address, records: u32) -> (r: Option<Vec<PriceData>>)
        ensures
            found_view(r) == prices_spec(e@, asset, records),
    {
        e.get_prices(asset, records)
    }

    /// The last `records` prices of `base_asset` in units of `quote_asset`,
    /// newest first. Slots at which either asset has no record are passed over.
    pub fn x_prices(e: &Env, base_asset: Address, quote_asset: Address, records: u32) -> (r: Result<
        Option<Vec<PriceData>>,
        Error,
    >)
        ensures
            records_view(r) == x_prices_spec(e@, base_asset, quote_asset, records),
    {
        if base_asset == quote_asset {
            return Err(Error::InvalidAssetPair);
        }
        e.get_x_prices(base_asset, quote_asset, records)
    }

    /// The mean of the prices that `prices` finds, rounded down.
    pub fn twap(e: &Env, asset: Address, records: u32) -> (r: Option<i128>)
        ensures
            r == twap_spec(e@, asset, records),
    {
        match Self::prices(e, asset, records) {
            Some(found) => {
                proof {
                    crate::average::lemma_mean_fits(found@);
                }
                mean_floor(&found)
            },
            None => None,
        }
    }

    /// The mean of the cross prices that `x_prices` finds, rounded down.
    pub fn x_twap(e: &Env, base_asset: Address, quote_asset: Address, records: u32) -> (r: Result<
        Option<i128>,
        Error,
    >)
        ensures
            r == x_twap_spec(e@, base_asset, quote_asset, records),
    {
        match Self::x_prices(e, base_asset, quote_asset, records) {
            Ok(Some(found)) => {
                proof {
                    crate::average::lemma_mean_fits(found@);
                }
                Ok(mean_floor(&found))
            },
            Ok(None) => Ok(None),
            Err(e) => Err(e),
        }
    }
}

} // verus!
