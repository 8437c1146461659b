//! A distribution contract for allowed users that can also save a
//! distribution for an executor to carry out later.
use vstd::prelude::*;
use crate::data::{Address, TokenIdentifier};

pub mod storage;
pub mod transfer;
pub mod users;

use self::storage::StorageModule;
use self::transfer::{TransferModule, TransferModuleView};
use self::users::UsersModule;

verus! {

/// The state of the contract: its users, its wrapped-EGLD settings and its saved distributions.
pub struct SmartSendV2 {
    pub users: UsersModule,
    pub storage: StorageModule,
    pub transfers: TransferModule,
}

impl SmartSendV2 {
    /// A new contract that unwraps `wegld_identifier` through `wegld_contract`.
    pub fn init(wegld_identifier: TokenIdentifier, wegld_contract: Address) -> (r: SmartSendV2)
        ensures
            r.storage.wegld_identifier@ == wegld_identifier@,
            r.storage.wegld_contract == wegld_contract,
            r.users.allowed_users@ == Seq::<Address>::empty(),
            r.transfers@ == (TransferModuleView {
                initiators: Map::empty(),
                executors: Map::empty(),
                lists: Map::empty(),
            }),
    {
        SmartSendV2 {
            users: UsersModule::new(),
            storage: StorageModule::new(wegld_identifier, wegld_contract),
            transfers: TransferModule::new(),
        }
    }

    /// An upgrade keeps the state as it is.
    pub fn upgrade(&mut self)
        ensures
            final(self).users.allowed_users@ == old(self).users.allowed_users@,
            final(self).storage.wegld_identifier@ == old(self).storage.wegld_identifier@,
            final(self).storage.wegld_contract == old(self).storage.wegld_contract,
            final(self).transfers@ == old(self).transfers@,
    {
    }
}

} // verus!
