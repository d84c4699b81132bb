//! Errors surfaced to clients and errors of the subscription table.

use vstd::prelude::*;

verus! {

/// An error handed back to the client of a request.
#[derive(Debug, Clone, PartialEq, Eq)]
pub enum ChainHeadRpcError {
    /// The block hash is not pinned by the named subscription.
    InvalidBlock,
    /// The backend failed while the header was fetched.
    FetchBlockHeader(String),
    /// A parameter is malformed, or a flag that the request needs is not set.
    InvalidParam(String),
}

/// Why the subscription table refused an operation.
#[derive(Debug, Clone, Copy, PartialEq, Eq, Structural)]
pub enum SubscriptionManagementError {
    /// No subscription goes by the given id.
    SubscriptionAbsent,
    /// The block hash is not pinned by the subscription.
    BlockHashAbsent,
    /// The block hash is already in the subscription's registry.
    DuplicateHash,
    /// The subscription cannot pin another block within its limits.
    LimitExceeded,
    /// Any other failure: the block carries as many guards as can be counted.
    Other,
}

impl SubscriptionManagementError {
    /// The words that describe the error towards a client.
    pub open spec fn text(self) -> Seq<char> {
        match self {
            SubscriptionManagementError::SubscriptionAbsent => "Subscription is absent"@,
            SubscriptionManagementError::BlockHashAbsent => "Block hash is absent"@,
            SubscriptionManagementError::DuplicateHash => "Block hash is already pinned"@,
            SubscriptionManagementError::LimitExceeded => "Exceeded pinning limits"@,
            SubscriptionManagementError::Other => "Exceeded the number of guards on a block"@,
        }
    }

    /// The words that describe the error towards a client.
    pub fn message(&self) -> (r: String)
        ensures
            r@ == self.text(),
    {
        match self {
            SubscriptionManagementError::SubscriptionAbsent => "Subscription is absent".to_string(),
            SubscriptionManagementError::BlockHashAbsent => "Block hash is absent".to_string(),
            SubscriptionManagementError::DuplicateHash => "Block hash is already pinned".to_string(),
            SubscriptionManagementError::LimitExceeded => "Exceeded pinning limits".to_string(),
            SubscriptionManagementError::Other => "Exceeded the number of guards on a block".to_string(),
        }
    }
}

} // verus!
