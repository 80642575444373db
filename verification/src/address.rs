//! Identities on the ledger.

use vstd::prelude::*;

verus! {

/// What an [`Address`] stands for.
#[derive(Clone, Copy, Debug, PartialEq, Eq, Structural, Hash)]
pub enum AddressKind {
    /// An account, named by its public key.
    Account,
    /// A contract, named by the hash that identifies it.
    Contract,
}

/// An identity that can hold a balance and authorize operations: a kind and
/// the 256 bits that name it, as two halves.
///
/// Two addresses are the same identity exactly when all three fields agree.
#[derive(Clone, Copy, Debug, PartialEq, Eq, Structural, Hash)]
pub struct Address {
    pub kind: AddressKind,
    pub hi: u128,
    pub lo: u128,
}

impl Address {
    /// The account named by the 256 bits `hi`, `lo`.
    pub fn account(hi: u128, lo: u128) -> (a: Address)
        ensures
            a == (Address { kind: AddressKind::Account, hi, lo }),
    {
        Address { kind: AddressKind::Account, hi, lo }
    }

    /// The contract named by the 256 bits `hi`, `lo`.
    pub fn contract(hi: u128, lo: u128) -> (a: Address)
        ensures
            a == (Address { kind: AddressKind::Contract, hi, lo }),
    {
        Address { kind: AddressKind::Contract, hi, lo }
    }
}

/// The two parties of an allowance: the `owner` of the funds and the `spender`
/// that may draw from them.
#[derive(Clone, Copy, Debug, PartialEq, Eq, Structural, Hash)]
pub struct Grant {
    pub owner: Address,
    pub spender: Address,
}

} // verus!
