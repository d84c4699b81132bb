//! The events that go out to clients.

use vstd::prelude::*;
use crate::bytes::rows;

verus! {

/// The result of a request that was carried out.
#[derive(Debug, Clone, PartialEq, Eq)]
pub struct ChainHeadResult<T> {
    /// What the request produced.
    pub result: T,
}

/// The description of a failure.
#[derive(Debug, Clone, PartialEq, Eq)]
pub struct ErrorEvent {
    /// What went wrong, in words.
    pub error: String,
}

/// The one event that answers an on-demand request.
#[derive(Debug, Clone, PartialEq, Eq)]
pub enum ChainHeadEvent<T> {
    /// The request was carried out.
    Done(ChainHeadResult<T>),
    /// The backend failed.
    Error(ErrorEvent),
    /// The subscription is gone, or no longer holds what was asked for.
    Disjoint,
}

impl<T> ChainHeadEvent<T> {
    /// Whether this is the error event with the words `text`.
    pub open spec fn is_error(self, text: Seq<char>) -> bool {
        self matches ChainHeadEvent::Error(e) && e.error@ == text
    }
}

/// Whether `event` reports success with the string `text`.
pub open spec fn is_done(event: ChainHeadEvent<String>, text: Seq<char>) -> bool {
    event matches ChainHeadEvent::Done(r) && r.result@ == text
}

/// Whether `event` reports success with the string `text`, or with no
/// value where `text` is `None`.
pub open spec fn is_done_with(event: ChainHeadEvent<Option<String>>, text: Option<Seq<char>>) -> bool {
    event matches ChainHeadEvent::Done(r) && match r.result {
        Some(s) => text == Some(s@),
        None => text is None,
    }
}

/// An event on the stream of a follow subscription.
#[derive(Debug, Clone, PartialEq, Eq)]
pub enum FollowEvent {
    /// The stream begins at this finalized block.
    Initialized {
        /// The finalized head when the subscription started.
        finalized_block_hash: Vec<u8>,
    },
    /// A block was imported.
    NewBlock {
        /// The imported block.
        block_hash: Vec<u8>,
    },
    /// Another block is the best one now.
    BestBlockChanged {
        /// The new best block.
        best_block_hash: Vec<u8>,
    },
    /// Blocks were finalized, and the forks beside them pruned.
    Finalized {
        /// The blocks that were finalized, oldest first.
        finalized_block_hashes: Vec<Vec<u8>>,
        /// The blocks that were pruned.
        pruned_block_hashes: Vec<Vec<u8>>,
    },
    /// The subscription has ended. Nothing follows.
    Stop,
}

/// A follow event as contracts see it.
pub enum FollowEventState {
    /// The stream begins at this finalized block.
    Initialized { finalized_block_hash: Seq<u8> },
    /// A block was imported.
    NewBlock { block_hash: Seq<u8> },
    /// Another block is the best one now.
    BestBlockChanged { best_block_hash: Seq<u8> },
    /// Blocks were finalized, and the forks beside them pruned.
    Finalized { finalized_block_hashes: Seq<Seq<u8>>, pruned_block_hashes: Seq<Seq<u8>> },
    /// The subscription has ended.
    Stop,
}

impl View for FollowEvent {
    type V = FollowEventState;

    open spec fn view(&self) -> FollowEventState {
        match *self {
            FollowEvent::Initialized { finalized_block_hash } => FollowEventState::Initialized {
                finalized_block_hash: finalized_block_hash@,
            },
            FollowEvent::NewBlock { block_hash } => FollowEventState::NewBlock {
                block_hash: block_hash@,
            },
            FollowEvent::BestBlockChanged { best_block_hash } => FollowEventState::BestBlockChanged {
                best_block_hash: best_block_hash@,
            },
            FollowEvent::Finalized {
                finalized_block_hashes,
                pruned_block_hashes,
            } => FollowEventState::Finalized {
                finalized_block_hashes: rows(finalized_block_hashes@),
                pruned_block_hashes: rows(pruned_block_hashes@),
            },
            FollowEvent::Stop => FollowEventState::Stop,
        }
    }
}

/// A list of follow events as contracts see it.
pub open spec fn events_of(list: Seq<FollowEvent>) -> Seq<FollowEventState> {
    Seq::new(list.len(), |i: int| list[i]@)
}

} // verus!
