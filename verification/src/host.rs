//! Plain values that stand for what the ledger host hands out, and the calls
//! that the contract asks the host to make.
use vstd::prelude::*;

use crate::events::Event;
use crate::storage::DataKey;
use crate::table::TableKey;

verus! {

/// What an [`Address`] names.
#[derive(Copy, Clone, Debug, PartialEq, Eq, Structural)]
pub enum AddressKind {
    /// An account, by its public key.
    Account,
    /// A contract, by its hash.
    Contract,
}

/// A ledger address: its kind and its 32 bytes, as two big-endian halves.
#[derive(Copy, Clone, Debug, PartialEq, Eq, Structural)]
pub struct Address {
    pub kind: AddressKind,
    pub hi: u128,
    pub lo: u128,
}

impl View for Address {
    type V = Address;

    open spec fn view(&self) -> Address {
        *self
    }
}

impl TableKey for Address {
    fn same(&self, other: &Self) -> (r: bool) {
        *self == *other
    }
}

/// A token under the rules of one organisation.
#[derive(Copy, Clone, Debug, PartialEq, Eq, Structural)]
pub struct OrgToken {
    pub org: Address,
    pub token: Address,
}

impl TableKey for OrgToken {
    fn same(&self, other: &Self) -> (r: bool) {
        *self == *other
    }
}

/// The 32-byte hash of a contract's code, as two big-endian halves.
#[derive(Copy, Clone, Debug, PartialEq, Eq, Structural)]
pub struct WasmHash {
    pub hi: u128,
    pub lo: u128,
}

/// One call that the contract asks the ledger host to make.
#[derive(Copy, Clone, Debug, PartialEq, Eq, Structural)]
pub enum HostCall {
    /// Extend the life of the contract instance to `extend_to` when what
    /// remains of it is below `threshold`.
    ExtendInstance { threshold: u32, extend_to: u32 },
    /// The same for one persistent row.
    ExtendRow { key: DataKey, threshold: u32, extend_to: u32 },
    /// Move `amount` of `token`.
    Transfer { token: Address, from: Address, to: Address, amount: i128 },
    /// Publish an event.
    Publish { event: Event },
    /// Replace the contract's code.
    ReplaceCode { hash: WasmHash },
}

} // verus!
