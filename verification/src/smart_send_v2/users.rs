//! Who may use the contract: its owner, and the users the owner allowed.
use vstd::prelude::*;
use crate::collections::{AddressSet, lemma_set_removed, set_inserted, set_removed};
use crate::data::{Address, Error};

verus! {

/// Whether `user` may use a contract owned by `owner` that allows `allowed`.
pub open spec fn allowed_by(allowed: Seq<Address>, owner: Address, user: Address) -> bool {
    user == owner || allowed.contains(user)
}

/// The users that the owner allowed to use the contract.
pub struct UsersModule {
    pub allowed_users: AddressSet,
}

impl UsersModule {
    /// No user allowed yet.
    pub fn new() -> (r: UsersModule)
        ensures
            r.allowed_users@ == Seq::<Address>::empty(),
    {
        UsersModule { allowed_users: AddressSet::new() }
    }

    /// Whether `user` may use the contract whose owner is `owner`.
    pub open spec fn allows(&self, owner: Address, user: Address) -> bool {
        allowed_by(self.allowed_users@, owner, user)
    }

    /// Lets `user` use the contract; only the owner may call this.
    pub fn add_user(&mut self, owner: Address, caller: Address, user: Address) -> (r: Result<(), Error>)
        ensures
            caller == owner ==> r is Ok && final(self).allowed_users@ == set_inserted(
                old(self).allowed_users@,
                user,
            ),
            caller != owner ==> r == Err::<(), Error>(Error::NotOwner) && final(self).allowed_users@
                == old(self).allowed_users@,
    {
        if !caller.same(&owner) {
            return Err(Error::NotOwner);
        }
        self.allowed_users.insert(user);
        Ok(())
    }

    /// Withdraws `user`'s permission; only the owner may call this.
    pub fn remove_user(&mut self, owner: Address, caller: Address, user: Address) -> (r: Result<(), Error>)
        ensures
            caller == owner ==> r is Ok && final(self).allowed_users@ == set_removed(
                old(self).allowed_users@,
                user,
            ) && !final(self).allowed_users@.contains(user),
            caller != owner ==> r == Err::<(), Error>(Error::NotOwner) && final(self).allowed_users@
                == old(self).allowed_users@,
    {
        if !caller.same(&owner) {
            return Err(Error::NotOwner);
        }
        self.allowed_users.swap_remove(&user);
        Ok(())
    }

    /// Refuses a user that is neither the owner nor allowed.
    pub fn require_user_is_allowed(&self, owner: Address, user: Address) -> (r: Result<(), Error>)
        ensures
            r is Ok <==> self.allows(owner, user),
            r is Err ==> r == Err::<(), Error>(Error::CallerNotAllowed),
    {
        if owner.same(&user) || self.allowed_users.contains(&user) {
            Ok(())
        } else {
            Err(Error::CallerNotAllowed)
        }
    }

    /// The allowed users, in stored order.
    pub fn allowed_users(&self) -> (r: &[Address])
        ensures
            r@ == self.allowed_users@,
    {
        self.allowed_users.as_slice()
    }
}

/// Law: after the owner adds `user`, that user may use the contract, and
/// every other address may use it exactly when it could before.
pub proof fn lemma_add_user_allows(allowed: Seq<Address>, owner: Address, user: Address, other: Address)
    ensures
        allowed_by(set_inserted(allowed, user), owner, user),
        other != user ==> (allowed_by(set_inserted(allowed, user), owner, other) <==> allowed_by(
            allowed,
            owner,
            other,
        )),
{
    if !allowed.contains(user) {
        let s = allowed.push(user);
        assert(s[s.len() - 1] == user);
        if allowed.contains(other) {
            let i = allowed.index_of(other);
            assert(s[i] == other);
        }
        if other != user && s.contains(other) {
            let j = choose|j: int| 0 <= j < s.len() && s[j] == other;
            assert(allowed[j] == other);
        }
    }
}

/// Law: after the owner removes `user`, that user may use the contract only
/// if it is the owner, and every other address may use it exactly when it
/// could before.
pub proof fn lemma_remove_user_denies(
    allowed: Seq<Address>,
    owner: Address,
    user: Address,
    other: Address,
)
    requires
        allowed.no_duplicates(),
    ensures
        allowed_by(set_removed(allowed, user), owner, user) <==> user == owner,
        other != user ==> (allowed_by(set_removed(allowed, user), owner, other) <==> allowed_by(
            allowed,
            owner,
            other,
        )),
{
    lemma_set_removed(allowed, user);
}

} // verus!
