//! A generator contract that starts with empty storage (no source contract, a
//! price of zero) and deploys with half of the gas left.
use vstd::prelude::*;
use crate::amount::Amount;
use crate::collections::sets_unique;
use crate::data::{DeployRequest, is_plain_deploy, Action, ActionView, Address, Error, PaymentView, TransferView, actions_view, egld_bytes};
use crate::remarkable_tools::generator::{GeneratorModule, claimed, generated};
use crate::remarkable_tools::storage::{StorageModule, StorageView, unclaimed_of};

verus! {

/// The contract's state.
pub struct RemarkableToolsSmartSend {
    pub generator: GeneratorModule,
}

impl RemarkableToolsSmartSend {
    /// A new contract with empty storage.
    pub fn init() -> (r: RemarkableToolsSmartSend)
        ensures
            r.generator.storage@.source is None,
            r.generator.storage@.price == 0,
            r.generator.storage@.unclaimed == Map::<Address, Seq<Address>>::empty(),
    {
        RemarkableToolsSmartSend { generator: GeneratorModule { storage: StorageModule::new() } }
    }

    /// An upgrade keeps the state as it is.
    pub fn upgrade(&mut self)
        ensures
            final(self).generator.storage@ == old(self).generator.storage@,
    {
    }

    /// Checks a purchase and gives the deployment to make: from the source
    /// contract, with no EGLD, upgradeable and readable, no `init` arguments,
    /// and half of `gas_left`.
    pub fn generate(&self, egld_payment: &Amount, gas_left: u64) -> (r: Result<DeployRequest, Error>)
        ensures
            egld_payment@ != self.generator.storage@.price ==> r == Err::<DeployRequest, Error>(
                Error::InvalidEgldPayment,
            ),
            egld_payment@ == self.generator.storage@.price && self.generator.storage@.source is None
                ==> r == Err::<DeployRequest, Error>(Error::SourceContractUnset),
            egld_payment@ == self.generator.storage@.price && self.generator.storage@.source is Some
                ==> (r matches Ok(req) && is_plain_deploy(
                req,
                self.generator.storage@.source->0,
                Some((gas_left / 2) as u64),
            )),
    {
        match self.generator.generate(egld_payment) {
            Ok(req) => {
                let mut req = req;
                req.gas = Some(gas_left / 2);
                Ok(req)
            },
            Err(e) => Err(e),
        }
    }

    /// Completes a purchase once `contract_address` was deployed.
    pub fn finish_generate(
        &mut self,
        owner: Address,
        caller: Address,
        contract_address: Address,
        egld_payment: Amount,
    ) -> (r: Vec<Action>)
        ensures
            final(self).generator.storage@ == generated(
                old(self).generator.storage@,
                caller,
                contract_address,
            ),
            sets_unique(final(self).generator.storage@.unclaimed),
            actions_view(r@) == seq![
                ActionView::Send(
                    TransferView {
                        receiver: owner,
                        payment: PaymentView { token: egld_bytes(), nonce: 0, amount: egld_payment@ },
                    },
                ),
            ],
    {
        self.generator.finish_generate(owner, caller, contract_address, egld_payment)
    }

    /// Hands `contract_address` over to `caller`, who must have it waiting to be claimed.
    pub fn claim_ownership(&mut self, caller: Address, contract_address: Address) -> (r: Result<
        Action,
        Error,
    >)
        ensures
            !unclaimed_of(old(self).generator.storage@, caller).contains(contract_address) ==> r
                == Err::<Action, Error>(Error::NothingToClaim) && final(self).generator.storage@
                == old(self).generator.storage@,
            unclaimed_of(old(self).generator.storage@, caller).contains(contract_address) ==> r
                == Ok::<Action, Error>(Action::ChangeOwner { contract: contract_address, new_owner: caller })
                && final(self).generator.storage@ == claimed(
                old(self).generator.storage@,
                caller,
                contract_address,
            ) && !unclaimed_of(final(self).generator.storage@, caller).contains(contract_address),
            sets_unique(final(self).generator.storage@.unclaimed),
    {
        self.generator.claim_ownership(caller, contract_address)
    }

    /// Sets the source contract; only the owner may call this.
    pub fn set_source_contract(&mut self, owner: Address, caller: Address, contract: Address) -> (r: Result<
        (),
        Error,
    >)
        ensures
            caller != owner ==> r == Err::<(), Error>(Error::NotOwner) && final(self).generator.storage@
                == old(self).generator.storage@,
            caller == owner ==> r is Ok && final(self).generator.storage@ == (StorageView {
                source: Some(contract),
                ..old(self).generator.storage@
            }),
    {
        self.generator.set_source_contract(owner, caller, contract)
    }

    /// Sets the price of a generated contract; only the owner may call this.
    pub fn set_contract_price(&mut self, owner: Address, caller: Address, price: Amount) -> (r: Result<
        (),
        Error,
    >)
        ensures
            caller != owner ==> r == Err::<(), Error>(Error::NotOwner) && final(self).generator.storage@
                == old(self).generator.storage@,
            caller == owner ==> r is Ok && final(self).generator.storage@ == (StorageView {
                price: price@,
                ..old(self).generator.storage@
            }),
    {
        self.generator.set_contract_price(owner, caller, price)
    }
}

} // verus!
