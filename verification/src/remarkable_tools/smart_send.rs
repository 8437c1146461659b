//! Open distribution endpoints: anyone may split a payment or hand out NFTs.
use vstd::prelude::*;
use crate::amount::Amount;
use crate::data::{Address, Error, Payment, TokenIdentifier, Transfer, transfers_view};
use crate::distribution::{
    DistributionModule, distribution_plan, nft_plan, nft_requests_view, requests_view,
};

verus! {

/// Distribution endpoints open to any caller.
pub trait SmartSendModule {
    /// EGLD, fungible or meta ESDT: pays each receiver its amount; the rest of
    /// the payment goes back to the caller.
    fn token_distribution(
        caller: Address,
        payment: &Payment,
        params: &Vec<(Address, Amount)>,
    ) -> (r: Vec<Transfer>)
        ensures
            transfers_view(r@) == distribution_plan(caller, payment@, requests_view(params@)),
    {
        DistributionModule::distribute_egld_or_esdt(caller, payment, params)
    }

    /// NFTs: one unit of each requested token to its receiver; there must be
    /// as many received payments as requests.
    fn nft_distribution(
        payments: &Vec<Payment>,
        params: &Vec<(Address, TokenIdentifier, u64)>,
    ) -> (r: Result<Vec<Transfer>, Error>)
        ensures
            match r {
                Ok(out) => params.len() == payments.len() && transfers_view(out@) == nft_plan(
                    nft_requests_view(params@),
                ),
                Err(e) => params.len() != payments.len() && e == Error::NftCountMismatch,
            },
    {
        DistributionModule::distribute_nfts(payments, params)
    }

    /// SFT: the single ESDT payment is split as in `token_distribution`.
    fn sft_distribution(
        caller: Address,
        payment: &Payment,
        params: &Vec<(Address, Amount)>,
    ) -> (r: Vec<Transfer>)
        ensures
            transfers_view(r@) == distribution_plan(caller, payment@, requests_view(params@)),
    {
        DistributionModule::distribute_egld_or_esdt(caller, payment, params)
    }
}

/// The open distribution endpoints, as a contract offers them.
pub struct OpenSmartSend;

impl SmartSendModule for OpenSmartSend {}

} // verus!
