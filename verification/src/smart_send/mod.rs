//! A distribution contract that only its owner and the users it allowed may use.
use vstd::prelude::*;
use crate::amount::Amount;
use crate::collections::{set_inserted, set_removed};
use crate::data::{Address, Error, Payment, TokenIdentifier, Transfer, transfers_view};
use crate::distribution::{
    DistributionModule, distribution_plan, nft_plan, nft_requests_view, requests_view,
};
use crate::smart_send_v2::users::{UsersModule, allowed_by};

pub mod transfer;

verus! {

/// A distribution contract that only its owner and the users it allowed may use.
pub trait SmartSendContract: Sized {
    /// The users allowed besides the owner, in stored order.
    spec fn allowed_users_view(&self) -> Seq<Address>;

    /// A new contract with no allowed user.
    fn init() -> (r: Self)
        ensures
            r.allowed_users_view() == Seq::<Address>::empty(),
    ;

    /// An upgrade keeps the state as it is.
    fn upgrade(&mut self)
        ensures
            final(self).allowed_users_view() == old(self).allowed_users_view(),
    ;

    /// Lets `user` use the contract; only the owner may call this.
    fn add_user(&mut self, owner: Address, caller: Address, user: Address) -> (r: Result<(), Error>)
        ensures
            caller == owner ==> r is Ok && final(self).allowed_users_view() == set_inserted(
                old(self).allowed_users_view(),
                user,
            ),
            caller != owner ==> r == Err::<(), Error>(Error::NotOwner)
                && final(self).allowed_users_view() == old(self).allowed_users_view(),
    ;

    /// Withdraws `user`'s permission; only the owner may call this.
    fn remove_user(&mut self, owner: Address, caller: Address, user: Address) -> (r: Result<(), Error>)
        ensures
            caller == owner ==> r is Ok && final(self).allowed_users_view() == set_removed(
                old(self).allowed_users_view(),
                user,
            ) && !final(self).allowed_users_view().contains(user),
            caller != owner ==> r == Err::<(), Error>(Error::NotOwner)
                && final(self).allowed_users_view() == old(self).allowed_users_view(),
    ;

    /// EGLD or fungible ESDT: pays each receiver its amount; the rest of the
    /// payment goes back to the caller. Only for the owner and allowed users.
    fn token_distribution(
        &self,
        owner: Address,
        caller: Address,
        payment: &Payment,
        params: &Vec<(Address, Amount)>,
    ) -> (r: Result<Vec<Transfer>, Error>)
        ensures
            match r {
                Ok(out) => allowed_by(self.allowed_users_view(), owner, caller) && transfers_view(out@)
                    == distribution_plan(caller, payment@, requests_view(params@)),
                Err(e) => !allowed_by(self.allowed_users_view(), owner, caller) && e
                    == Error::CallerNotAllowed,
            },
    ;

    /// NFTs: one unit of each requested token to its receiver; there must be as
    /// many received payments as requests. Only for the owner and allowed users.
    fn nft_distribution(
        &self,
        owner: Address,
        caller: Address,
        payments: &Vec<Payment>,
        params: &Vec<(Address, TokenIdentifier, u64)>,
    ) -> (r: Result<Vec<Transfer>, Error>)
        ensures
            match r {
                Ok(out) => allowed_by(self.allowed_users_view(), owner, caller) && params.len()
                    == payments.len() && transfers_view(out@) == nft_plan(nft_requests_view(params@)),
                Err(e) => if !allowed_by(self.allowed_users_view(), owner, caller) {
                    e == Error::CallerNotAllowed
                } else {
                    params.len() != payments.len() && e == Error::NftCountMismatch
                },
            },
    ;

    /// SFT: the single ESDT payment is split as in `token_distribution`.
    fn sft_distribution(
        &self,
        owner: Address,
        caller: Address,
        payment: &Payment,
        params: &Vec<(Address, Amount)>,
    ) -> (r: Result<Vec<Transfer>, Error>)
        ensures
            match r {
                Ok(out) => allowed_by(self.allowed_users_view(), owner, caller) && transfers_view(out@)
                    == distribution_plan(caller, payment@, requests_view(params@)),
                Err(e) => !allowed_by(self.allowed_users_view(), owner, caller) && e
                    == Error::CallerNotAllowed,
            },
    ;

    /// The allowed users, in stored order.
    fn get_allowed_users(&self) -> (r: &[Address])
        ensures
            r@ == self.allowed_users_view(),
    ;
}

/// The state of a distribution contract: the users allowed besides the owner.
pub struct SmartSend {
    pub users: UsersModule,
}

impl SmartSendContract for SmartSend {
    open spec fn allowed_users_view(&self) -> Seq<Address> {
        self.users.allowed_users@
    }

    fn init() -> (r: SmartSend) {
        SmartSend { users: UsersModule::new() }
    }

    fn upgrade(&mut self) {
    }

    fn add_user(&mut self, owner: Address, caller: Address, user: Address) -> (r: Result<(), Error>) {
        self.users.add_user(owner, caller, user)
    }

    fn remove_user(&mut self, owner: Address, caller: Address, user: Address) -> (r: Result<(), Error>) {
        self.users.remove_user(owner, caller, user)
    }

    fn token_distribution(
        &self,
        owner: Address,
        caller: Address,
        payment: &Payment,
        params: &Vec<(Address, Amount)>,
    ) -> (r: Result<Vec<Transfer>, Error>) {
        match self.users.require_user_is_allowed(owner, caller) {
            Err(e) => Err(e),
            Ok(()) => Ok(DistributionModule::distribute_egld_or_esdt(caller, payment, params)),
        }
    }

    fn nft_distribution(
        &self,
        owner: Address,
        caller: Address,
        payments: &Vec<Payment>,
        params: &Vec<(Address, TokenIdentifier, u64)>,
    ) -> (r: Result<Vec<Transfer>, Error>) {
        match self.users.require_user_is_allowed(owner, caller) {
            Err(e) => Err(e),
            Ok(()) => DistributionModule::distribute_nfts(payments, params),
        }
    }

    fn sft_distribution(
        &self,
        owner: Address,
        caller: Address,
        payment: &Payment,
        params: &Vec<(Address, Amount)>,
    ) -> (r: Result<Vec<Transfer>, Error>) {
        match self.users.require_user_is_allowed(owner, caller) {
            Err(e) => Err(e),
            Ok(()) => Ok(DistributionModule::distribute_egld_or_esdt(caller, payment, params)),
        }
    }

    fn get_allowed_users(&self) -> (r: &[Address]) {
        self.users.allowed_users()
    }
}

} // verus!
