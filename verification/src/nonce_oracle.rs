//! A plain oracle: the last price of each asset, written by an administrator
//! whose calls are numbered.

use vstd::prelude::*;
use crate::address::Address;
use crate::table::Table;

verus! {

/// The reasons for which the plain oracle refuses a call.
#[derive(Clone, Copy, PartialEq, Eq, Structural, Debug, Hash)]
pub enum Error {
    /// The number given with a call is not the invoker's next one.
    IncorrectNonce,
    /// The invoker is not the administrator.
    Unauthorized,
    /// The administrator to set is not an account.
    InvalidAddressType,
}

/// A price and the time at which it was written.
#[derive(Clone, Copy, PartialEq, Eq, Structural, Debug)]
pub struct AssetPriceData {
    pub price: u64,
    pub timestamp: u64,
}

/// What is known of the price of an asset.
#[derive(Clone, Copy, PartialEq, Eq, Structural, Debug)]
pub enum AssetPrice {
    /// No price was ever written.
    Absent,
    /// The last price written.
    AssetPrice(AssetPriceData),
}

/// A new price for an asset.
#[derive(Clone, Copy, PartialEq, Eq, Structural, Debug)]
pub struct AssetPriceUpdate {
    pub asset: Address,
    pub price: u64,
}

/// What an [`OracleContract`] holds, as mathematical values.
pub struct OracleView {
    pub admin: Option<Address>,
    pub nonces: Map<Address, u128>,
    pub prices: Map<Address, AssetPriceData>,
}

/// The number that the next call of `invoker` has to carry: how many of its
/// calls were accepted.
pub open spec fn nonce_of(view: OracleView, invoker: Address) -> u128 {
    if view.nonces.contains_key(invoker) {
        view.nonces[invoker]
    } else {
        0
    }
}

/// What is known of the price of `asset`.
pub open spec fn price_of(view: OracleView, asset: Address) -> AssetPrice {
    if view.prices.contains_key(asset) {
        AssetPrice::AssetPrice(view.prices[asset])
    } else {
        AssetPrice::Absent
    }
}

/// The state after `invoker` made `admin` the administrator. Anyone may set
/// the first administrator; afterwards only the administrator may.
pub open spec fn set_admin_spec(pre: OracleView, invoker: Address, admin: Address) -> Result<
    OracleView,
    Error,
> {
    if pre.admin is Some && pre.admin != Some(invoker) {
        Err(Error::Unauthorized)
    } else if !(admin.kind is Account) {
        Err(Error::InvalidAddressType)
    } else {
        Ok(OracleView { admin: Some(admin), ..pre })
    }
}

/// `prices` after the first `count` of `updates` were written at `timestamp`,
/// one after the other.
pub open spec fn write_updates(
    prices: Map<Address, AssetPriceData>,
    updates: Seq<AssetPriceUpdate>,
    timestamp: u64,
    count: nat,
) -> Map<Address, AssetPriceData>
    decreases count,
{
    if count == 0 {
        prices
    } else {
        write_updates(prices, updates, timestamp, (count - 1) as nat).insert(
            updates[count - 1].asset,
            AssetPriceData { price: updates[count - 1].price, timestamp },
        )
    }
}

/// The state after the administrator wrote `updates` at `timestamp` in its
/// call number `nonce`. The last number a counter can hold is never accepted.
pub open spec fn set_price_spec(
    pre: OracleView,
    invoker: Address,
    nonce: u128,
    updates: Seq<AssetPriceUpdate>,
    timestamp: u64,
) -> Result<OracleView, Error> {
    if pre.admin != Some(invoker) {
        Err(Error::Unauthorized)
    } else if nonce != nonce_of(pre, invoker) || nonce == u128::MAX {
        Err(Error::IncorrectNonce)
    } else {
        Ok(
            OracleView {
                nonces: pre.nonces.insert(invoker, (nonce + 1) as u128),
                prices: write_updates(pre.prices, updates, timestamp, updates.len()),
                ..pre
            },
        )
    }
}

/// A change of state: on success the state is the expected one, on refusal
/// the reason is the expected one and nothing has changed.
pub open spec fn transition(
    pre: OracleView,
    post: OracleView,
    outcome: Result<(), Error>,
    expected: Result<OracleView, Error>,
) -> bool {
    match outcome {
        Ok(()) => expected == Ok::<OracleView, Error>(post),
        Err(e) => expected == Err::<OracleView, Error>(e) && post == pre,
    }
}

/// A batch of updates leaves the price of an asset that it does not name as
/// it was.
pub proof fn lemma_write_updates_keeps(
    prices: Map<Address, AssetPriceData>,
    updates: Seq<AssetPriceUpdate>,
    timestamp: u64,
    count: nat,
    asset: Address,
)
    requires
        count <= updates.len(),
        forall|i: int| 0 <= i < count ==> (#[trigger] updates[i]).asset != asset,
    ensures
        write_updates(prices, updates, timestamp, count).contains_key(asset)
            == prices.contains_key(asset),
        prices.contains_key(asset) ==> write_updates(prices, updates, timestamp, count)[asset]
            == prices[asset],
    decreases count,
{
    if count > 0 {
        lemma_write_updates_keeps(prices, updates, timestamp, (count - 1) as nat, asset);
        assert(updates[count - 1].asset != asset);
    }
}

/// After a batch of updates, the price of an asset that the batch names is
/// that of its last update in the batch, at the time of the batch.
pub proof fn lemma_write_updates_last(
    prices: Map<Address, AssetPriceData>,
    updates: Seq<AssetPriceUpdate>,
    timestamp: u64,
    count: nat,
    i: int,
)
    requires
        count <= updates.len(),
        0 <= i < count,
        forall|j: int| i < j < count ==> (#[trigger] updates[j]).asset != updates[i].asset,
    ensures
        write_updates(prices, updates, timestamp, count).contains_key(updates[i].asset),
        write_updates(prices, updates, timestamp, count)[updates[i].asset] == (AssetPriceData {
            price: updates[i].price,
            timestamp,
        }),
    decreases count,
{
    if i < count - 1 {
        lemma_write_updates_last(prices, updates, timestamp, (count - 1) as nat, i);
        assert(updates[count - 1].asset != updates[i].asset);
    }
}

/// The oracle and the state it keeps.
pub struct OracleContract {
    admin: Option<Address>,
    nonces: Table<Address, u128>,
    prices: Table<Address, AssetPriceData>,
}

impl View for OracleContract {
    type V = OracleView;

    closed spec fn view(&self) -> OracleView {
        OracleView { admin: self.admin, nonces: self.nonces@, prices: self.prices@ }
    }
}

impl OracleContract {
    /// An oracle without an administrator and without prices.
    pub fn new() -> (c: OracleContract)
        ensures
            c@ == (OracleView { admin: None, nonces: Map::empty(), prices: Map::empty() }),
    {
        OracleContract { admin: None, nonces: Table::new(), prices: Table::new() }
    }

    /// Puts back an administrator that was set before.
    pub fn restore_admin(&mut self, admin: Address)
        ensures
            final(self)@ == (OracleView { admin: Some(admin), ..old(self)@ }),
    {
        self.admin = Some(admin);
    }

    /// Puts back the number of calls counted for `invoker` before.
    pub fn restore_nonce(&mut self, invoker: Address, nonce: u128)
        ensures
            final(self)@ == (OracleView {
                nonces: old(self)@.nonces.insert(invoker, nonce),
                ..old(self)@
            }),
    {
        self.nonces.set(invoker, nonce);
    }

    /// Puts back a price that was written before.
    pub fn restore_price(&mut self, asset: Address, data: AssetPriceData)
        ensures
            final(self)@ == (OracleView {
                prices: old(self)@.prices.insert(asset, data),
                ..old(self)@
            }),
    {
        self.prices.set(asset, data);
    }

    /// Whether an administrator is set.
    pub fn is_initialized(&self) -> (r: bool)
        ensures
            r == self@.admin is Some,
    {
        self.admin.is_some()
    }

    /// Whether `invoker` is the administrator.
    pub fn is_authorized(&self, invoker: &Address) -> (r: bool)
        ensures
            r == (self@.admin == Some(*invoker)),
    {
        match self.admin {
            Some(admin) => *invoker == admin,
            None => false,
        }
    }

    /// Refuses an invoker who is not the administrator.
    pub fn check_authorization(&self, invoker: &Address) -> (r: Result<(), Error>)
        ensures
            r == if self@.admin == Some(*invoker) {
                Ok::<(), Error>(())
            } else {
                Err::<(), Error>(Error::Unauthorized)
            },
    {
        if !self.is_authorized(invoker) {
            return Err(Error::Unauthorized);
        }
        Ok(())
    }

    /// Makes `admin`, which has to be an account, the administrator.
    pub fn set_admin(&mut self, invoker: Address, admin: Address) -> (r: Result<(), Error>)
        ensures
            transition(old(self)@, final(self)@, r, set_admin_spec(old(self)@, invoker, admin)),
    {
        if self.is_initialized() && !self.is_authorized(&invoker) {
            return Err(Error::Unauthorized);
        }
        if !admin.is_account() {
            return Err(Error::InvalidAddressType);
        }
        self.admin = Some(admin);
        Ok(())
    }

    /// The administrator.
    pub fn get_admin(&self) -> (r: Option<Address>)
        ensures
            r == self@.admin,
    {
        self.admin
    }

    /// The number that the next call of `invoker` has to carry.
    pub fn nonce(&self, invoker: Address) -> (r: u128)
        ensures
            r == nonce_of(self@, invoker),
    {
        match self.nonces.get(invoker) {
            Some(nonce) => nonce,
            None => 0,
        }
    }

    /// Accepts `nonce` as the number of this call of `invoker`, and counts
    /// the call.
    fn verify_and_consume_nonce(&mut self, invoker: &Address, nonce: u128) -> (r: Result<
        (),
        Error,
    >)
        ensures
            final(self)@.admin == old(self)@.admin,
            final(self)@.prices == old(self)@.prices,
            match r {
                Ok(()) => nonce == nonce_of(old(self)@, *invoker) && nonce < u128::MAX
                    && final(self)@.nonces == old(self)@.nonces.insert(
                    *invoker,
                    (nonce + 1) as u128,
                ),
                Err(e) => e == Error::IncorrectNonce && (nonce != nonce_of(old(self)@, *invoker)
                    || nonce == u128::MAX) && final(self)@ == old(self)@,
            },
    {
        if nonce != self.nonce(*invoker) || nonce == u128::MAX {
            return Err(Error::IncorrectNonce);
        }
        self.nonces.set(*invoker, nonce + 1);
        Ok(())
    }

    /// Writes the prices of `updates`, each with `timestamp`, the time of the
    /// call. Administrator only, in the call numbered `nonce`.
    pub fn set_price(
        &mut self,
        invoker: Address,
        nonce: u128,
        updates: Vec<AssetPriceUpdate>,
        timestamp: u64,
    ) -> (r: Result<(), Error>)
        ensures
            transition(
                old(self)@,
                final(self)@,
                r,
                set_price_spec(old(self)@, invoker, nonce, updates@, timestamp),
            ),
    {
        self.check_authorization(&invoker)?;
        self.verify_and_consume_nonce(&invoker, nonce)?;
        let ghost pre = self@;
        let mut i: usize = 0;
        while i < updates.len()
            invariant
                i <= updates@.len(),
                self@ == (OracleView {
                    prices: write_updates(pre.prices, updates@, timestamp, i as nat),
                    ..pre
                }),
            decreases updates@.len() - i,
        {
            let update = updates[i];
            self.prices.set(update.asset, AssetPriceData { price: update.price, timestamp });
            i = i + 1;
        }
        Ok(())
    }

    /// What is known of the price of `asset`.
    pub fn get_price(&self, asset: Address) -> (r: AssetPrice)
        ensures
            r == price_of(self@, asset),
    {
        match self.prices.get(asset) {
            Some(data) => AssetPrice::AssetPrice(data),
            None => AssetPrice::Absent,
        }
    }
}

} // verus!
