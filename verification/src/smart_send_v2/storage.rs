//! The wrapped-EGLD token and the contract that unwraps it.
use vstd::prelude::*;
use crate::data::{Address, TokenIdentifier};

verus! {

/// The token accepted as the first payment of a saved distribution, and the
/// contract that turns it back into EGLD.
pub struct StorageModule {
    pub wegld_identifier: TokenIdentifier,
    pub wegld_contract: Address,
}

impl StorageModule {
    pub fn new(wegld_identifier: TokenIdentifier, wegld_contract: Address) -> (r: StorageModule)
        ensures
            r.wegld_identifier@ == wegld_identifier@,
            r.wegld_contract == wegld_contract,
    {
        StorageModule { wegld_identifier, wegld_contract }
    }
}

} // verus!
