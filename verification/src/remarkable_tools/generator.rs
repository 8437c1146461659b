//! Selling new contracts deployed from a source contract, and handing their
//! ownership to the buyer.
use vstd::prelude::*;
use crate::amount::Amount;
use crate::collections::{set_inserted, set_removed, sets_unique};
use crate::data::{DeployRequest, is_plain_deploy, Action, ActionView, Address, Error, Payment, PaymentView, TransferView, egld_bytes, Transfer, actions_view};
use crate::remarkable_tools::storage::{StorageModule, StorageView, unclaimed_of};

verus! {

/// The storage after `contract` was generated for `caller`.
pub open spec fn generated(v: StorageView, caller: Address, contract: Address) -> StorageView {
    StorageView {
        unclaimed: v.unclaimed.insert(caller, set_inserted(unclaimed_of(v, caller), contract)),
        ..v
    }
}

/// The storage after `caller` claimed `contract`.
pub open spec fn claimed(v: StorageView, caller: Address, contract: Address) -> StorageView {
    StorageView {
        unclaimed: v.unclaimed.insert(caller, set_removed(unclaimed_of(v, caller), contract)),
        ..v
    }
}

/// Generating contracts for a price, and claiming them.
pub struct GeneratorModule {
    pub storage: StorageModule,
}

impl GeneratorModule {
    /// Checks a purchase: the EGLD paid must equal the price, and the source
    /// contract must be set. Gives the deployment to make: from the source
    /// contract, with no EGLD, upgradeable and readable, through an `init`
    /// without arguments, with the chain's default gas.
    pub fn generate(&self, egld_payment: &Amount) -> (r: Result<DeployRequest, Error>)
        ensures
            egld_payment@ != self.storage@.price ==> r == Err::<DeployRequest, Error>(
                Error::InvalidEgldPayment,
            ),
            egld_payment@ == self.storage@.price && self.storage@.source is None ==> r == Err::<
                DeployRequest,
                Error,
            >(Error::SourceContractUnset),
            egld_payment@ == self.storage@.price && self.storage@.source is Some ==> (r matches Ok(
                req,
            ) && is_plain_deploy(req, self.storage@.source->0, None)),
    {
        if !egld_payment.equals(&self.storage.contract_price) {
            return Err(Error::InvalidEgldPayment);
        }
        match self.storage.source_contract {
            Some(source) => Ok(DeployRequest::plain(source, None)),
            None => Err(Error::SourceContractUnset),
        }
    }

    /// Completes a purchase once `contract_address` was deployed: the contract
    /// waits for `caller` to claim it, and the payment goes to the owner.
    pub fn finish_generate(
        &mut self,
        owner: Address,
        caller: Address,
        contract_address: Address,
        egld_payment: Amount,
    ) -> (r: Vec<Action>)
        ensures
            final(self).storage@ == generated(old(self).storage@, caller, contract_address),
            sets_unique(final(self).storage@.unclaimed),
            actions_view(r@) == seq![
                ActionView::Send(
                    TransferView {
                        receiver: owner,
                        payment: PaymentView { token: egld_bytes(), nonce: 0, amount: egld_payment@ },
                    },
                ),
            ],
    {
        let ghost before = self.storage@;
        self.storage.unclaimed_contracts.insert(caller, contract_address);
        assert(self.storage@ =~= generated(before, caller, contract_address));
        let mut actions: Vec<Action> = Vec::new();
        actions.push(Action::Send(Transfer::new(owner, Payment::egld(egld_payment))));
        assert(actions_view(actions@) =~= seq![
            ActionView::Send(
                TransferView {
                    receiver: owner,
                    payment: PaymentView { token: egld_bytes(), nonce: 0, amount: egld_payment@ },
                },
            ),
        ]);
        actions
    }

    /// Hands `contract_address` over to `caller`, who must have it waiting to be claimed.
    pub fn claim_ownership(&mut self, caller: Address, contract_address: Address) -> (r: Result<
        Action,
        Error,
    >)
        ensures
            !unclaimed_of(old(self).storage@, caller).contains(contract_address) ==> r == Err::<
                Action,
                Error,
            >(Error::NothingToClaim) && final(self).storage@ == old(self).storage@,
            unclaimed_of(old(self).storage@, caller).contains(contract_address) ==> r == Ok::<
                Action,
                Error,
            >(Action::ChangeOwner { contract: contract_address, new_owner: caller })
                && final(self).storage@ == claimed(old(self).storage@, caller, contract_address)
                && !unclaimed_of(final(self).storage@, caller).contains(contract_address),
            sets_unique(final(self).storage@.unclaimed),
    {
        let ghost before = self.storage@;
        self.storage.unclaimed_contracts.unique();
        if !self.storage.unclaimed_contracts.contains(&caller, &contract_address) {
            return Err(Error::NothingToClaim);
        }
        self.storage.unclaimed_contracts.swap_remove(&caller, &contract_address);
        assert(self.storage@ =~= claimed(before, caller, contract_address));
        Ok(Action::ChangeOwner { contract: contract_address, new_owner: caller })
    }

    /// Sets the contract that new contracts are deployed from; only the owner may call this.
    pub fn set_source_contract(&mut self, owner: Address, caller: Address, contract: Address) -> (r: Result<
        (),
        Error,
    >)
        ensures
            caller != owner ==> r == Err::<(), Error>(Error::NotOwner) && final(self).storage@
                == old(self).storage@,
            caller == owner ==> r is Ok && final(self).storage@ == (StorageView {
                source: Some(contract),
                ..old(self).storage@
            }),
    {
        if !caller.same(&owner) {
            return Err(Error::NotOwner);
        }
        self.storage.source_contract = Some(contract);
        Ok(())
    }

    /// Sets the price of a generated contract; only the owner may call this.
    pub fn set_contract_price(&mut self, owner: Address, caller: Address, price: Amount) -> (r: Result<
        (),
        Error,
    >)
        ensures
            caller != owner ==> r == Err::<(), Error>(Error::NotOwner) && final(self).storage@
                == old(self).storage@,
            caller == owner ==> r is Ok && final(self).storage@ == (StorageView {
                price: price@,
                ..old(self).storage@
            }),
    {
        if !caller.same(&owner) {
            return Err(Error::NotOwner);
        }
        self.storage.contract_price = price;
        Ok(())
    }
}

/// A step of the purchase history: a contract generated for a caller, or a
/// caller asking to claim a contract.
pub enum ClaimEvent {
    Generated { caller: Address, contract: Address },
    Claimed { caller: Address, contract: Address },
}

/// The storage after the events, in order. A claim of a contract that is not
/// waiting for its caller fails and changes nothing.
pub open spec fn replay(v: StorageView, events: Seq<ClaimEvent>) -> StorageView
    decreases events.len(),
{
    if events.len() == 0 {
        v
    } else {
        let w = replay(v, events.drop_last());
        match events.last() {
            ClaimEvent::Generated { caller, contract } => generated(w, caller, contract),
            ClaimEvent::Claimed { caller, contract } => if unclaimed_of(w, caller).contains(contract) {
                claimed(w, caller, contract)
            } else {
                w
            },
        }
    }
}

/// Whether the last event about `caller` and `contract` generated the
/// contract for the caller (rather than the caller claiming it).
pub open spec fn waiting_after(events: Seq<ClaimEvent>, caller: Address, contract: Address) -> bool
    decreases events.len(),
{
    if events.len() == 0 {
        false
    } else if events.last() == (ClaimEvent::Generated { caller, contract }) {
        true
    } else if events.last() == (ClaimEvent::Claimed { caller, contract }) {
        false
    } else {
        waiting_after(events.drop_last(), caller, contract)
    }
}

proof fn lemma_generated_keeps_unique(v: StorageView, caller: Address, contract: Address)
    requires
        sets_unique(v.unclaimed),
    ensures
        sets_unique(generated(v, caller, contract).unclaimed),
        forall|c: Address, d: Address|
            #[trigger] unclaimed_of(generated(v, caller, contract), c).contains(d) <==> (
            unclaimed_of(v, c).contains(d) || (c == caller && d == contract)),
{
    let w = generated(v, caller, contract);
    crate::collections::lemma_set_inserted(unclaimed_of(v, caller), contract);
    assert forall|k: Address| #[trigger] w.unclaimed.dom().contains(k) implies w.unclaimed[k].no_duplicates() by {
        if k != caller {
            assert(v.unclaimed.dom().contains(k));
        }
    }
}

proof fn lemma_claimed_keeps_unique(v: StorageView, caller: Address, contract: Address)
    requires
        sets_unique(v.unclaimed),
    ensures
        sets_unique(claimed(v, caller, contract).unclaimed),
        forall|c: Address, d: Address|
            #[trigger] unclaimed_of(claimed(v, caller, contract), c).contains(d) <==> (
            unclaimed_of(v, c).contains(d) && !(c == caller && d == contract)),
{
    let w = claimed(v, caller, contract);
    crate::collections::lemma_set_removed(unclaimed_of(v, caller), contract);
    assert forall|k: Address| #[trigger] w.unclaimed.dom().contains(k) implies w.unclaimed[k].no_duplicates() by {
        if k != caller {
            assert(v.unclaimed.dom().contains(k));
        }
    }
}

/// Law: after any sequence of generations and claims, a contract waits for a
/// caller exactly when the last event about the two generated it for that
/// caller. So a claim succeeds only for a contract generated for the claiming
/// caller and not claimed since; no one else can claim it, and it cannot be
/// claimed twice.
pub proof fn lemma_claims_follow_history(
    v: StorageView,
    events: Seq<ClaimEvent>,
    caller: Address,
    contract: Address,
)
    requires
        sets_unique(v.unclaimed),
        !unclaimed_of(v, caller).contains(contract),
    ensures
        unclaimed_of(replay(v, events), caller).contains(contract) <==> waiting_after(
            events,
            caller,
            contract,
        ),
        sets_unique(replay(v, events).unclaimed),
    decreases events.len(),
{
    if events.len() > 0 {
        let rest = events.drop_last();
        lemma_claims_follow_history(v, rest, caller, contract);
        let w = replay(v, rest);
        match events.last() {
            ClaimEvent::Generated { caller: c, contract: d } => {
                lemma_generated_keeps_unique(w, c, d);
                assert(unclaimed_of(generated(w, c, d), caller).contains(contract) <==> (unclaimed_of(
                    w,
                    caller,
                ).contains(contract) || (caller == c && contract == d)));
            },
            ClaimEvent::Claimed { caller: c, contract: d } => {
                lemma_claimed_keeps_unique(w, c, d);
                assert(unclaimed_of(claimed(w, c, d), caller).contains(contract) <==> (unclaimed_of(
                    w,
                    caller,
                ).contains(contract) && !(caller == c && contract == d)));
            },
        }
    }
}

} // verus!
