//! The generator's settings and the contracts waiting to be claimed.
use vstd::prelude::*;
use crate::amount::Amount;
use crate::collections::{AddressSetMap, set_of, sets_unique};
use crate::data::Address;

verus! {

/// What the generator's storage holds.
pub struct StorageView {
    /// The contract that new contracts are deployed from; none until it is set.
    pub source: Option<Address>,
    /// The price of one generated contract, in EGLD.
    pub price: nat,
    /// For each caller, the contracts generated for it and not claimed yet.
    pub unclaimed: Map<Address, Seq<Address>>,
}

/// The contracts waiting for `caller` to claim them.
pub open spec fn unclaimed_of(v: StorageView, caller: Address) -> Seq<Address> {
    set_of(v.unclaimed, caller)
}

/// The generator's storage.
pub struct StorageModule {
    pub source_contract: Option<Address>,
    pub contract_price: Amount,
    pub unclaimed_contracts: AddressSetMap,
}

impl View for StorageModule {
    type V = StorageView;

    open spec fn view(&self) -> StorageView {
        StorageView {
            source: self.source_contract,
            price: self.contract_price@,
            unclaimed: self.unclaimed_contracts@,
        }
    }
}

impl StorageModule {
    /// Empty storage: no source contract, a price of zero, nothing to claim.
    pub fn new() -> (r: StorageModule)
        ensures
            r@.source is None,
            r@.price == 0,
            r@.unclaimed == Map::<Address, Seq<Address>>::empty(),
            sets_unique(r@.unclaimed),
    {
        let r = StorageModule {
            source_contract: None,
            contract_price: Amount::zero(),
            unclaimed_contracts: AddressSetMap::new(),
        };
        r
    }

    /// The source contract, if set.
    pub fn get_source_contract(&self) -> (r: Option<Address>)
        ensures
            r == self@.source,
    {
        self.source_contract
    }

    /// The price of one generated contract.
    pub fn get_generation_price(&self) -> (r: Amount)
        ensures
            r@ == self@.price,
    {
        self.contract_price.duplicate()
    }

    /// The contracts waiting for `address` to claim them, in stored order.
    pub fn get_unclaimed_contracts(&self, address: &Address) -> (r: Vec<Address>)
        ensures
            r@ == unclaimed_of(self@, *address),
    {
        self.unclaimed_contracts.members(address)
    }
}

} // verus!
