//! How many hold the slots of a client.
use std::sync::Arc;
use vstd::prelude::*;

use crate::admission::ClientLimit;

verus! {

/// A number of holders, and whose slots they hold. It comes from counting, and
/// from nothing else.
pub struct HolderCount {
    limit: Arc<ClientLimit>,
    holders: usize,
}

impl HolderCount {
    /// The slots whose holders were counted.
    pub closed spec fn limit(self) -> Arc<ClientLimit> {
        self.limit
    }

    /// How many there were.
    pub closed spec fn holders(self) -> usize {
        self.holders
    }

    /// How many there were.
    pub fn number(&self) -> (result: usize)
        ensures
            result == self.holders(),
    {
        self.holders
    }
}

/// `Arc::strong_count`: how many hold these slots at this moment. The count is
/// that of these slots; nothing is known of the number beforehand.
#[verifier::external_body]
pub(crate) fn count_holders(limit: &Arc<ClientLimit>) -> (result: HolderCount)
    ensures
        result.limit() == *limit,
{
    let holders = Arc::strong_count(limit);
    HolderCount { limit: limit.clone(), holders }
}

} // verus!
