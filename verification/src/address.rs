//! Principals: the identity an operation is performed by, for, or about.

use vstd::prelude::*;

verus! {

/// What an address names.
#[derive(Clone, Copy, PartialEq, Eq, Structural, Debug, Hash)]
pub enum AddressKind {
    /// A key-holding account.
    Account,
    /// A deployed contract, such as a token.
    Contract,
}

/// An administrator, a paying account or an asset: a kind and a 256-bit
/// identifier, held as two halves. Two addresses are the same principal
/// exactly when kind and identifier agree.
#[derive(Clone, Copy, PartialEq, Eq, Structural, Debug, Hash)]
pub struct Address {
    pub kind: AddressKind,
    pub hi: u128,
    pub lo: u128,
}

impl Address {
    /// The account with the given identifier.
    pub fn account(hi: u128, lo: u128) -> (a: Address)
        ensures
            a == (Address { kind: AddressKind::Account, hi, lo }),
    {
        Address { kind: AddressKind::Account, hi, lo }
    }

    /// The contract with the given identifier.
    pub fn contract(hi: u128, lo: u128) -> (a: Address)
        ensures
            a == (Address { kind: AddressKind::Contract, hi, lo }),
    {
        Address { kind: AddressKind::Contract, hi, lo }
    }

    /// Whether this address names an account.
    pub fn is_account(&self) -> (r: bool)
        ensures
            r == (self.kind == AddressKind::Account),
    {
        self.kind == AddressKind::Account
    }
}

} // verus!
