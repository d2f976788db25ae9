//! What follows from the contracts of the oracle's operations, proved from
//! the same functions that those contracts are stated with.

use vstd::prelude::*;
use crate::address::Address;
use crate::data_key::DataKey;
use crate::env::{
    assets_of, collect, fails_at, number_at, price_at, price_key, recorder, slots, EnvView, Series,
};
use crate::error::Error;
use crate::i128_extensions::{fixed_div_floor_fits, fixed_div_floor_spec};
use crate::price_data::PriceData;
use crate::average::{lemma_mean_fits, total};
use crate::oracle::{
    add_assets_spec, is_configured, lastprice_spec, price_spec, prices_spec, set_price_spec,
    slot_of, twap_spec, valid, write_prices, x_price_spec,
};

verus! {

/// Writing a batch of prices leaves, for each asset of the batch, its own
/// price at the slot, as long as no asset is listed twice; every other key
/// keeps what it held.
pub proof fn lemma_write_prices(
    numbers: Map<DataKey, i128>,
    assets: Seq<Address>,
    updates: Seq<i128>,
    slot: u64,
    count: nat,
)
    requires
        assets.no_duplicates(),
        count <= assets.len(),
        count <= updates.len(),
    ensures
        forall|i: int|
            0 <= i < count ==> #[trigger] price_at(
                write_prices(numbers, assets, updates, slot, count),
                assets[i],
                slot,
            ) == Some(updates[i]),
        forall|key: DataKey|
            !(exists|i: int| 0 <= i < count && key == price_key(#[trigger] assets[i], slot))
                ==> #[trigger] number_at(
                write_prices(numbers, assets, updates, slot, count),
                key,
            ) == number_at(numbers, key),
    decreases count,
{
    if count > 0 {
        let before = (count - 1) as nat;
        lemma_write_prices(numbers, assets, updates, slot, before);
        let written = write_prices(numbers, assets, updates, slot, count);
        let earlier = write_prices(numbers, assets, updates, slot, before);
        assert forall|i: int| 0 <= i < count implies #[trigger] price_at(written, assets[i], slot)
            == Some(updates[i]) by {
            if i < before {
                assert(assets[i] != assets[before as int]);
                assert(price_at(earlier, assets[i], slot) == Some(updates[i]));
            }
        }
        assert forall|key: DataKey|
            !(exists|i: int|
                0 <= i < count && key == price_key(
                    #[trigger] assets[i],
                    slot,
                )) implies #[trigger] number_at(written, key) == number_at(numbers, key) by {
            assert(key != price_key(assets[before as int], slot));
            assert forall|i: int| 0 <= i < before implies key != price_key(
                #[trigger] assets[i],
                slot,
            ) by {}
            assert(number_at(earlier, key) == number_at(numbers, key));
        }
    }
}

/// After a successful `set_price`, the price of each registered asset at the
/// timestamp of the call is the price given for it, at the slot of that
/// timestamp.
pub proof fn lemma_set_price_then_price(
    pre: EnvView,
    user: Address,
    updates: Seq<i128>,
    timestamp: u64,
    i: int,
)
    requires
        valid(pre),
        set_price_spec(pre, user, updates, timestamp) is Ok,
        0 <= i < updates.len(),
    ensures
        price_spec(
            set_price_spec(pre, user, updates, timestamp)->Ok_0,
            assets_of(pre)[i],
            timestamp,
        ) == Some(PriceData { price: updates[i], timestamp: slot_of(pre, timestamp) }),
{
    let post = set_price_spec(pre, user, updates, timestamp)->Ok_0;
    lemma_write_prices(
        pre.numbers,
        assets_of(pre),
        updates,
        slot_of(pre, timestamp),
        updates.len(),
    );
    assert(is_configured(pre));
    assert(slot_of(post, timestamp) == slot_of(pre, timestamp));
}

/// After a successful `set_price`, the marker of the last write is the slot
/// of the timestamp of the call, and `lastprice` gives the prices of that call.
/// Where that slot is not earlier than the marker was, the marker did not go back.
pub proof fn lemma_set_price_moves_marker(
    pre: EnvView,
    user: Address,
    updates: Seq<i128>,
    timestamp: u64,
)
    requires
        valid(pre),
        set_price_spec(pre, user, updates, timestamp) is Ok,
    ensures
        ({
            let post = set_price_spec(pre, user, updates, timestamp)->Ok_0;
            let slot = slot_of(pre, timestamp);
            &&& valid(post)
            &&& post.last_timestamp == Some(slot)
            &&& forall|i: int|
                0 <= i < updates.len() ==> lastprice_spec(post, #[trigger] assets_of(pre)[i])
                    == Some(PriceData { price: updates[i], timestamp: slot })
            &&& (pre.last_timestamp matches Some(earlier) && earlier <= slot)
                ==> post.last_timestamp.unwrap() >= pre.last_timestamp.unwrap()
        }),
{
    let post = set_price_spec(pre, user, updates, timestamp)->Ok_0;
    let slot = slot_of(pre, timestamp);
    let resolution = pre.resolution.unwrap();
    crate::timestamp::lemma_quantize(timestamp as int, resolution as int);
    crate::timestamp::lemma_quantize_idempotent(timestamp, resolution as u64);
    assert(slot_of(post, slot) == slot);
    assert forall|i: int| 0 <= i < updates.len() implies lastprice_spec(
        post,
        #[trigger] assets_of(pre)[i],
    ) == Some(PriceData { price: updates[i], timestamp: slot }) by {
        lemma_set_price_then_price(pre, user, updates, timestamp, i);
        assert(price_spec(post, assets_of(pre)[i], timestamp) == price_spec(
            post,
            assets_of(pre)[i],
            slot,
        ));
    }
}

/// A successful `set_price` changes no record of another slot or of an asset
/// that is not registered: records are only ever added or overwritten at the
/// slot of the call.
pub proof fn lemma_set_price_keeps_other_records(
    pre: EnvView,
    user: Address,
    updates: Seq<i128>,
    timestamp: u64,
    asset: Address,
    other: u64,
)
    requires
        valid(pre),
        set_price_spec(pre, user, updates, timestamp) is Ok,
        other != slot_of(pre, timestamp) || !assets_of(pre).contains(asset),
    ensures
        price_at(set_price_spec(pre, user, updates, timestamp)->Ok_0.numbers, asset, other)
            == price_at(pre.numbers, asset, other),
{
    lemma_write_prices(
        pre.numbers,
        assets_of(pre),
        updates,
        slot_of(pre, timestamp),
        updates.len(),
    );
    let key = price_key(asset, other);
    let post = set_price_spec(pre, user, updates, timestamp)->Ok_0;
    assert forall|i: int| 0 <= i < updates.len() implies key != price_key(
        #[trigger] assets_of(pre)[i],
        slot_of(pre, timestamp),
    ) by {
        if other == slot_of(pre, timestamp) {
            assert(assets_of(pre)[i] != asset);
        }
    }
    assert(number_at(post.numbers, key) == number_at(pre.numbers, key));
}

/// Registering assets is refused as a duplicate exactly when the administrator
/// names an asset that is registered already, or names one twice. Where it is
/// accepted, the assets that were registered keep their places and the new
/// ones follow in the order given.
pub proof fn lemma_add_assets(pre: EnvView, user: Address, assets: Seq<Address>)
    requires
        valid(pre),
    ensures
        add_assets_spec(pre, user, assets) == Err::<EnvView, Error>(Error::AssetAlreadyPresented)
            <==> pre.admin == Some(user) && (!assets.no_duplicates() || exists|i: int|
            0 <= i < assets.len() && assets_of(pre).contains(#[trigger] assets[i])),
        add_assets_spec(pre, user, assets) matches Ok(post) ==> {
            &&& valid(post)
            &&& assets_of(post).len() == assets_of(pre).len() + assets.len()
            &&& forall|i: int|
                0 <= i < assets_of(pre).len() ==> #[trigger] assets_of(post)[i] == assets_of(
                    pre,
                )[i]
            &&& forall|i: int|
                0 <= i < assets.len() ==> #[trigger] assets_of(post)[assets_of(pre).len() + i]
                    == assets[i]
        },
{
    let registered = assets_of(pre);
    let all = registered + assets;
    let n = registered.len() as int;
    if !assets.no_duplicates() {
        let (a, b) = choose|a: int, b: int|
            0 <= a < assets.len() && 0 <= b < assets.len() && a != b && assets[a] == assets[b];
        assert(all[n + a] == assets[a] && all[n + b] == assets[b]);
        assert(!all.no_duplicates());
    }
    if exists|i: int| 0 <= i < assets.len() && registered.contains(#[trigger] assets[i]) {
        let i = choose|i: int| 0 <= i < assets.len() && registered.contains(#[trigger] assets[i]);
        let j = choose|j: int| 0 <= j < registered.len() && registered[j] == assets[i];
        assert(all[j] == registered[j] && all[n + i] == assets[i]);
        assert(!all.no_duplicates());
    }
    if !all.no_duplicates() {
        let (a, b) = choose|a: int, b: int|
            0 <= a < all.len() && 0 <= b < all.len() && a != b && all[a] == all[b];
        let (lo, hi) = if a < b {
            (a, b)
        } else {
            (b, a)
        };
        assert(all[lo] == all[hi] && lo < hi);
        if hi < n {
            assert(registered[lo] == registered[hi]);
        } else if lo < n {
            assert(registered[lo] == assets[hi - n]);
            assert(registered.contains(assets[hi - n]));
        } else {
            assert(assets[lo - n] == assets[hi - n]);
        }
    }
}

/// The slots a historical query visits are `start`, `start - step`,
/// `start - 2 * step` and so on: at most `rounds` of them, and at least one
/// where `rounds` is not zero.
pub proof fn lemma_slots(start: u64, step: u64, rounds: nat)
    ensures
        slots(start, step, rounds).len() <= rounds,
        rounds > 0 ==> slots(start, step, rounds).len() >= 1,
        forall|k: int|
            0 <= k < slots(start, step, rounds).len() ==> #[trigger] slots(start, step, rounds)[k]
                == start - k * step,
        step > 0 && rounds > 0 ==> slots(start, step, rounds).len() == if rounds <= start / step {
            rounds
        } else {
            (start / step + 1) as nat
        },
    decreases rounds,
{
    if rounds == 0 {
    } else if rounds == 1 || start < step {
        assert(slots(start, step, rounds) == seq![start]);
        assert(0 * step == 0);
        if step > 0 && start < step {
            vstd::arithmetic::div_mod::lemma_basic_div(start as int, step as int);
        }
        if step > 0 && rounds == 1 && start >= step {
            vstd::arithmetic::div_mod::lemma_div_non_zero(start as int, step as int);
        }
    } else {
        let rest = slots((start - step) as u64, step, (rounds - 1) as nat);
        lemma_slots((start - step) as u64, step, (rounds - 1) as nat);
        let all = slots(start, step, rounds);
        assert(all == seq![start] + rest);
        assert forall|k: int| 0 <= k < all.len() implies #[trigger] all[k] == start - k * step by {
            if k > 0 {
                assert(all[k] == rest[k - 1]);
                assert((k - 1) * step == k * step - step) by (nonlinear_arith);
            } else {
                assert(0 * step == 0);
            }
        }
        if step > 0 {
            let s = step as int;
            vstd::arithmetic::div_mod::lemma_div_plus_one((start - step) as int, s);
            assert((start - step) + s == start);
            assert((start as int) / s == (start - step) / s + 1);
        }
    }
}

/// The records found at a sequence of strictly descending slots come in
/// strictly descending order of time, each at one of the slots.
proof fn lemma_found_descends(numbers: Map<DataKey, i128>, series: Series, visited: Seq<u64>)
    requires
        forall|a: int, b: int| 0 <= a < b < visited.len() ==> visited[a] > visited[b],
    ensures
        ({
            let found = visited.filter_map(recorder(numbers, series));
            &&& forall|j: int|
                0 <= j < found.len() ==> visited.contains(#[trigger] found[j].timestamp)
            &&& forall|i: int, j: int|
                0 <= i < j < found.len() ==> (#[trigger] found[i]).timestamp > (
                #[trigger] found[j]).timestamp
        }),
    decreases visited.len(),
{
    let f = recorder(numbers, series);
    let found = visited.filter_map(f);
    if visited.len() > 0 {
        let rest = visited.drop_last();
        let last = visited.last();
        lemma_found_descends(numbers, series, rest);
        let earlier = rest.filter_map(f);
        assert forall|j: int| 0 <= j < earlier.len() implies visited.contains(
            #[trigger] earlier[j].timestamp,
        ) && earlier[j].timestamp > last by {
            let t = earlier[j].timestamp;
            assert(rest.contains(t));
            let k = choose|k: int| 0 <= k < rest.len() && rest[k] == t;
            assert(visited[k] == t);
        }
        match f(last) {
            Some(record) => {
                assert(found =~= earlier + seq![record]);
                assert(record.timestamp == last);
                assert(visited[visited.len() - 1] == last);
                assert forall|j: int| 0 <= j < found.len() implies visited.contains(
                    #[trigger] found[j].timestamp,
                ) by {
                    if j < earlier.len() {
                        assert(found[j] == earlier[j]);
                    }
                }
                assert forall|i: int, j: int| 0 <= i < j < found.len() implies (
                #[trigger] found[i]).timestamp > (#[trigger] found[j]).timestamp by {
                    assert(found[i] == earlier[i]);
                    if j < earlier.len() {
                        assert(found[j] == earlier[j]);
                    }
                }
            },
            None => {
                assert(found =~= earlier);
            },
        }
    }
}

/// Gaps are passed over. Where the oracle is configured and something was
/// written, `prices` answers with exactly the records of the visited slots
/// that have one: each record it gives is on record at a visited slot, each
/// visited slot with a record is in the answer, and the answer runs from the
/// newest record to the oldest. It is absent only where no visited slot has
/// a record.
pub proof fn lemma_prices_skip_gaps(view: EnvView, asset: Address, records: u32)
    requires
        valid(view),
        is_configured(view),
        view.last_timestamp is Some,
    ensures
        ({
            let visited = slots(
                view.last_timestamp.unwrap(),
                view.resolution.unwrap() as u64,
                records as nat,
            );
            match prices_spec(view, asset, records) {
                Some(found) => {
                    &&& 0 < found.len() <= visited.len() <= records
                    &&& forall|j: int|
                        0 <= j < found.len() ==> visited.contains(#[trigger] found[j].timestamp)
                            && price_at(view.numbers, asset, found[j].timestamp) == Some(
                            found[j].price,
                        )
                    &&& forall|k: int|
                        0 <= k < visited.len() && price_at(view.numbers, asset, visited[k])
                            is Some ==> found.contains(
                            PriceData {
                                price: price_at(view.numbers, asset, #[trigger] visited[k])->Some_0,
                                timestamp: visited[k],
                            },
                        )
                    &&& forall|i: int, j: int|
                        0 <= i < j < found.len() ==> (#[trigger] found[i]).timestamp > (
                        #[trigger] found[j]).timestamp
                },
                None => forall|k: int|
                    0 <= k < visited.len() ==> price_at(view.numbers, asset, #[trigger] visited[k])
                        is None,
            }
        }),
{
    let last = view.last_timestamp.unwrap();
    let step = view.resolution.unwrap() as u64;
    let series = Series::Asset(asset);
    let visited = slots(last, step, records as nat);
    let f = recorder(view.numbers, series);
    let found = visited.filter_map(f);
    lemma_slots(last, step, records as nat);
    assert forall|a: int, b: int| 0 <= a < b < visited.len() implies visited[a] > visited[b] by {
        assert(a * step < b * step) by (nonlinear_arith)
            requires
                a < b,
                step > 0,
        ;
    }
    lemma_found_descends(view.numbers, series, visited);
    assert(collect(view.numbers, series, visited) == Ok::<Seq<PriceData>, Error>(found)) by {
        assert forall|k: int| 0 <= k < visited.len() implies !fails_at(
            view.numbers,
            series,
            #[trigger] visited[k],
        ) by {}
    }
    lemma_found_length(view.numbers, series, visited);
    assert forall|j: int| 0 <= j < found.len() implies price_at(
        view.numbers,
        asset,
        (#[trigger] found[j]).timestamp,
    ) == Some(found[j].price) by {
        visited.lemma_filter_map_contains(f, found[j]);
        assert(found.contains(found[j]));
    }
    assert forall|k: int|
        0 <= k < visited.len() && price_at(view.numbers, asset, visited[k])
            is Some implies found.contains(
        PriceData {
            price: price_at(view.numbers, asset, #[trigger] visited[k])->Some_0,
            timestamp: visited[k],
        },
    ) by {
        lemma_found_has(view.numbers, series, visited, k);
    }
    if found.len() == 0 {
        assert forall|k: int| 0 <= k < visited.len() implies price_at(
            view.numbers,
            asset,
            #[trigger] visited[k],
        ) is None by {
            if price_at(view.numbers, asset, visited[k]) is Some {
                let record = PriceData {
                    price: price_at(view.numbers, asset, visited[k])->Some_0,
                    timestamp: visited[k],
                };
                assert(found.contains(record));
            }
        }
    }
}

/// The record of a visited slot that has one is among the records found.
proof fn lemma_found_has(numbers: Map<DataKey, i128>, series: Series, visited: Seq<u64>, k: int)
    requires
        0 <= k < visited.len(),
        recorder(numbers, series)(visited[k]) is Some,
    ensures
        visited.filter_map(recorder(numbers, series)).contains(
            recorder(numbers, series)(visited[k])->Some_0,
        ),
    decreases visited.len(),
{
    let f = recorder(numbers, series);
    let found = visited.filter_map(f);
    let rest = visited.drop_last();
    let earlier = rest.filter_map(f);
    let wanted = f(visited[k])->Some_0;
    if k < visited.len() - 1 {
        lemma_found_has(numbers, series, rest, k);
        let j = choose|j: int| 0 <= j < earlier.len() && earlier[j] == wanted;
        match f(visited.last()) {
            Some(record) => {
                assert(found =~= earlier + seq![record]);
                assert(found[j] == wanted);
            },
            None => {
                assert(found =~= earlier);
                assert(found[j] == wanted);
            },
        }
    } else {
        assert(found =~= earlier + seq![wanted]);
        assert(found[earlier.len() as int] == wanted);
    }
}

/// No more records are found than slots are visited.
proof fn lemma_found_length(numbers: Map<DataKey, i128>, series: Series, visited: Seq<u64>)
    ensures
        visited.filter_map(recorder(numbers, series)).len() <= visited.len(),
    decreases visited.len(),
{
    if visited.len() > 0 {
        lemma_found_length(numbers, series, visited.drop_last());
    }
}

/// The time-weighted average is the sum of the prices found divided by the
/// number of prices found, rounded down: slots without a record count
/// neither in the sum nor in the divisor, and nothing is lost to the width
/// of the result.
pub proof fn lemma_twap_is_mean_of_found(view: EnvView, asset: Address, records: u32)
    ensures
        match prices_spec(view, asset, records) {
            Some(found) => found.len() > 0 && twap_spec(view, asset, records) is Some
                && twap_spec(view, asset, records)->Some_0 == total(found) / (found.len() as int),
            None => twap_spec(view, asset, records) is None,
        },
{
    match prices_spec(view, asset, records) {
        Some(found) => {
            lemma_mean_fits(found);
        },
        None => {},
    }
}

/// The cross price of two different assets that both have a price at a
/// timestamp is `floor(base_price * 10^decimals / quote_price)` at the slot of
/// that timestamp; it is refused where that quotient does not exist or does
/// not fit, and is absent where either price is.
pub proof fn lemma_x_price_is_quotient(view: EnvView, base: Address, quote: Address, timestamp: u64)
    requires
        valid(view),
        base != quote,
    ensures
        match (price_spec(view, base, timestamp), price_spec(view, quote, timestamp)) {
            (Some(b), Some(q)) => {
                let decimals = view.decimals.unwrap() as nat;
                x_price_spec(view, base, quote, timestamp) == if fixed_div_floor_fits(
                    b.price as int,
                    q.price as int,
                    decimals,
                ) {
                    Ok::<Option<PriceData>, Error>(
                        Some(
                            PriceData {
                                price: fixed_div_floor_spec(
                                    b.price as int,
                                    q.price as int,
                                    decimals,
                                ) as i128,
                                timestamp: slot_of(view, timestamp),
                            },
                        ),
                    )
                } else {
                    Err::<Option<PriceData>, Error>(Error::InvalidPriceValue)
                }
            },
            _ => x_price_spec(view, base, quote, timestamp) == Ok::<Option<PriceData>, Error>(None),
        },
{
}

/// A cross price of an asset against itself is refused, whatever is on record.
pub proof fn lemma_x_price_same_asset(view: EnvView, asset: Address, timestamp: u64)
    ensures
        x_price_spec(view, asset, asset, timestamp) == Err::<Option<PriceData>, Error>(
            Error::InvalidAssetPair,
        ),
{
}

} // verus!
