//! Distribution endpoints restricted to the owner and allowed users.
use vstd::prelude::*;
use crate::amount::Amount;
use crate::data::{Address, Error, Payment, TokenIdentifier, Transfer, transfers_view};
use crate::distribution::{
    DistributionModule, distribution_plan, nft_plan, nft_requests_view, requests_view,
};
use crate::smart_send_v2::users::UsersModule;

verus! {

/// Distribution endpoints checked against the allowed users.
pub struct TransferModule;

impl TransferModule {
    /// Splits the payment among the receivers, for an allowed caller.
    pub fn smart_send(
        users: &UsersModule,
        owner: Address,
        caller: Address,
        payment: &Payment,
        params: &Vec<(Address, Amount)>,
    ) -> (r: Result<Vec<Transfer>, Error>)
        ensures
            match r {
                Ok(out) => users.allows(owner, caller) && transfers_view(out@) == distribution_plan(
                    caller,
                    payment@,
                    requests_view(params@),
                ),
                Err(e) => !users.allows(owner, caller) && e == Error::CallerNotAllowed,
            },
    {
        match users.require_user_is_allowed(owner, caller) {
            Err(e) => Err(e),
            Ok(()) => Ok(DistributionModule::distribute_egld_or_esdt(caller, payment, params)),
        }
    }

    /// Hands out NFTs, for an allowed caller.
    pub fn smart_nft_send(
        users: &UsersModule,
        owner: Address,
        caller: Address,
        payments: &Vec<Payment>,
        params: &Vec<(Address, TokenIdentifier, u64)>,
    ) -> (r: Result<Vec<Transfer>, Error>)
        ensures
            match r {
                Ok(out) => users.allows(owner, caller) && params.len() == payments.len()
                    && transfers_view(out@) == nft_plan(nft_requests_view(params@)),
                Err(e) => if !users.allows(owner, caller) {
                    e == Error::CallerNotAllowed
                } else {
                    params.len() != payments.len() && e == Error::NftCountMismatch
                },
            },
    {
        match users.require_user_is_allowed(owner, caller) {
            Err(e) => Err(e),
            Ok(()) => DistributionModule::distribute_nfts(payments, params),
        }
    }
}

} // verus!
