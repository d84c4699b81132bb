//! A pending sink that can be resolved once.
//!
//! The transport hands every subscription-style request a pending sink,
//! which must be accepted or rejected exactly once. The cell below gives
//! the sink out to the first of the two that asks, and to nobody after.

use vstd::prelude::*;
use crate::error::ChainHeadRpcError;

verus! {

/// The sink was resolved before: there is nothing left to accept.
#[derive(Debug, Clone, Copy, PartialEq, Eq, Structural)]
pub struct PendingSubscriptionAcceptError;

/// A pending sink of type `T`, or the place where one was.
#[derive(Debug)]
pub struct MaybePendingSubscription<T> {
    pending: Option<T>,
}

impl<T> View for MaybePendingSubscription<T> {
    type V = Option<T>;

    closed spec fn view(&self) -> Option<T> {
        self.pending
    }
}

impl<T> MaybePendingSubscription<T> {
    /// The cell that holds the pending sink `p`.
    pub fn new(p: T) -> (r: Self)
        ensures
            r@ == Some(p),
    {
        MaybePendingSubscription { pending: Some(p) }
    }

    /// Whether the sink is still to be resolved.
    pub fn is_pending(&self) -> (r: bool)
        ensures
            r == (self@ is Some),
    {
        self.pending.is_some()
    }

    /// Takes the sink out to accept it. Fails if it was taken out before.
    pub fn accept(&mut self) -> (r: Result<T, PendingSubscriptionAcceptError>)
        ensures
            final(self)@ is None,
            match old(self)@ {
                Some(p) => r == Ok::<T, PendingSubscriptionAcceptError>(p),
                None => r is Err,
            },
    {
        match self.pending.take() {
            Some(p) => Ok(p),
            None => Err(PendingSubscriptionAcceptError),
        }
    }

    /// Takes the sink out to reject it with `err`. Returns the sink together
    /// with the error to reject it with, or nothing if the sink was taken
    /// out before.
    pub fn reject(&mut self, err: ChainHeadRpcError) -> (r: Option<(T, ChainHeadRpcError)>)
        ensures
            final(self)@ is None,
            match old(self)@ {
                Some(p) => r == Some((p, err)),
                None => r is None,
            },
    {
        match self.pending.take() {
            Some(p) => Some((p, err)),
            None => None,
        }
    }
}

/// What a cell that started with a sink holds after `calls` calls of
/// `accept` or `reject`, in whatever mix.
pub open spec fn cell_after<T>(p: T, calls: nat) -> Option<T>
    decreases calls,
{
    if calls == 0 {
        Some(p)
    } else {
        match cell_after(p, (calls - 1) as nat) {
            Some(_) => None,
            None => None,
        }
    }
}

/// A pending sink is resolved at most once: of all the calls of `accept`
/// and `reject` on one cell, the first gets the sink and no later one does.
pub proof fn law_sink_resolved_once<T>(p: T, calls: nat)
    ensures
        cell_after(p, calls) is Some <==> calls == 0,
    decreases calls,
{
    if calls > 0 {
        law_sink_resolved_once(p, (calls - 1) as nat);
    }
}

} // verus!
