use crate::contract::{ExtStakingPool, ExtWhitelist};
use vstd::prelude::*;

verus! {

/// A whitelist authority that approves the pools of a fixed list.
#[derive(Debug)]
pub struct ListedPools {
    pub approved: Vec<String>,
}

/// The pool `pool` is on the list.
pub open spec fn listed(approved: Seq<String>, pool: Seq<char>) -> bool {
    exists|i: int| 0 <= i < approved.len() && (#[trigger] approved[i])@ == pool
}

impl ExtWhitelist for ListedPools {
    open spec fn approves(&self, pool: Seq<char>) -> bool {
        listed(self.approved@, pool)
    }

    fn is_whitelisted(&self, staking_pool_account_id: String) -> (r: bool) {
        let mut i: usize = 0;
        while i < self.approved.len()
            invariant
                i <= self.approved@.len(),
                forall|j: int|
                    0 <= j < i ==> (#[trigger] self.approved@[j])@ != staking_pool_account_id@,
            decreases self.approved@.len() - i,
        {
            if self.approved[i] == staking_pool_account_id {
                return true;
            }
            i += 1;
        }
        false
    }
}

/// A staking pool whose owner is fixed.
#[derive(Debug)]
pub struct OwnedPool {
    pub owner_id: String,
}

impl ExtStakingPool for OwnedPool {
    open spec fn owner(&self) -> Seq<char> {
        self.owner_id@
    }

    fn get_owner_id(&self) -> (r: String) {
        self.owner_id.clone()
    }
}

} // verus!
