//! A contract that sells contracts deployed from a source, and distributes payments.
use vstd::prelude::*;
use crate::amount::Amount;
use crate::data::Address;

pub mod base;
pub mod generator;
pub mod smart_send;
pub mod storage;
pub mod transfer;

use self::generator::GeneratorModule;
use self::storage::StorageModule;

verus! {

/// The contract's state.
pub struct RemarkableToolsSmartSend {
    pub generator: GeneratorModule,
}

impl RemarkableToolsSmartSend {
    /// A new contract deploying from `smart_send_source`, at a price of zero.
    pub fn init(smart_send_source: Address) -> (r: RemarkableToolsSmartSend)
        ensures
            r.generator.storage@.source == Some(smart_send_source),
            r.generator.storage@.price == 0,
            r.generator.storage@.unclaimed == Map::<Address, Seq<Address>>::empty(),
    {
        let mut storage = StorageModule::new();
        storage.contract_price = Amount::zero();
        storage.source_contract = Some(smart_send_source);
        RemarkableToolsSmartSend { generator: GeneratorModule { storage } }
    }

    /// An upgrade keeps the state as it is.
    pub fn upgrade(&mut self)
        ensures
            final(self).generator.storage@ == old(self).generator.storage@,
    {
    }
}

} // verus!
