//! The service itself: what each request does to the table of
//! subscriptions, and how it is answered.
//!
//! A request that comes with a pending sink is answered in two moves. The
//! first looks the block up and says what is to be done with the sink, as a
//! [`Step`]. Where the backend has to be asked, the caller asks it while it
//! holds the guard, and hands the answer to the second move, which gives
//! the guard back and returns the event to deliver.

use vstd::prelude::*;
use crate::bytes::rows;
use crate::encoding::{encodable, scale_encode, scale_encoded};
use crate::error::{ChainHeadRpcError, SubscriptionManagementError};
use crate::event::{
    events_of, is_done, is_done_with, ChainHeadEvent, ChainHeadResult, ErrorEvent, FollowEvent,
    FollowEventState,
};
use crate::follow::{driver_step, ChainEvent, ChainHeadFollower, FollowerState, Phase};
use crate::hex::{hex_text, param_bytes, parse_hex_param, to_hex};
use crate::storage_keys::{is_reserved, is_reserved_key};
use crate::subscription::{BlockGuard, SubscriptionManagement, TableState};
use crate::subscription_laws::law_release_block_undoes_lock;

verus! {

/// What is to be done with a request and its pending sink. Every value
/// resolves the sink exactly once: `Reject` rejects it, the other two
/// accept it.
#[derive(Debug)]
pub enum Step<W, T> {
    /// Reject the sink with this error. The request ends without events.
    Reject(ChainHeadRpcError),
    /// Accept the sink and deliver this event. The request ends.
    Respond(ChainHeadEvent<T>),
    /// Accept the sink, ask the backend, and hand its answer on together
    /// with what is held here. If the sink cannot be accepted, give the
    /// guard back with [`ChainHead::release`].
    Proceed(W),
}

impl<W, T> Step<W, T> {
    /// Whether the step rejects the sink.
    pub open spec fn rejects(self) -> bool {
        self is Reject
    }

    /// Whether the step accepts the sink.
    pub open spec fn accepts(self) -> bool {
        self is Respond || self is Proceed
    }

    /// Whether the step rejects the sink because `hash` is not pinned.
    pub open spec fn rejects_block(self) -> bool {
        self matches Step::Reject(e) && e is InvalidBlock
    }

    /// Whether the step rejects the sink because of a parameter, with the
    /// words `text`.
    pub open spec fn rejects_param(self, text: Seq<char>) -> bool {
        self matches Step::Reject(e) && e matches ChainHeadRpcError::InvalidParam(s) && s@ == text
    }

    /// Whether the step answers that the subscription is gone.
    pub open spec fn responds_disjoint(self) -> bool {
        self matches Step::Respond(ev) && ev is Disjoint
    }

    /// Whether the step answers with an error event of the words `text`.
    pub open spec fn responds_error(self, text: Seq<char>) -> bool {
        self matches Step::Respond(ev) && ev.is_error(text)
    }
}

/// A storage value to read, under the guard that keeps its block.
#[derive(Debug)]
pub struct StorageQuery {
    /// The guard on the block.
    pub guard: BlockGuard,
    /// The key to read.
    pub key: Vec<u8>,
    /// The key of the child trie to read it from, if not the main trie.
    pub child_key: Option<Vec<u8>>,
}

/// A runtime call to make, under the guard that keeps its block.
#[derive(Debug)]
pub struct RuntimeCall {
    /// The guard on the block.
    pub guard: BlockGuard,
    /// The parameters of the call.
    pub call_parameters: Vec<u8>,
}

/// What is to be done with a request for a header.
#[derive(Debug)]
pub enum HeaderStep {
    /// Fetch the header under this guard.
    Fetch(BlockGuard),
    /// Answer with this at once.
    Done(Result<Option<String>, ChainHeadRpcError>),
}

/// What is to be done with a request to follow.
#[derive(Debug)]
pub enum FollowStep {
    /// Run this driver until it stops, then remove the subscription.
    Drive(ChainHeadFollower),
    /// Deliver this event and close the stream.
    Respond(FollowEvent),
}

/// The words with which a runtime call is refused on a subscription that
/// does not report runtime updates.
pub open spec fn runtime_flag_text() -> Seq<char> {
    "The runtime updates flag must be set"@
}

/// The key that decides whether a storage request is answered without
/// asking: that of the child trie if the request names one, else the key
/// itself.
pub open spec fn decisive_key(key: Seq<u8>, child_key: Option<Seq<u8>>) -> Seq<u8> {
    match child_key {
        Some(child) => child,
        None => key,
    }
}

/// The chain-head service.
pub struct ChainHead {
    subscriptions: SubscriptionManagement,
    genesis_hash: String,
}

impl ChainHead {
    /// The table of subscriptions.
    pub closed spec fn table(&self) -> TableState {
        self.subscriptions@
    }

    /// The genesis hash in its wire form.
    pub closed spec fn genesis(&self) -> Seq<char> {
        self.genesis_hash@
    }

    /// The invariant of the service, which every operation keeps.
    pub closed spec fn wf(&self) -> bool {
        self.subscriptions.wf()
    }

    /// A well-formed service has a well-formed table.
    pub proof fn lemma_wf(&self)
        requires
            self.wf(),
        ensures
            self.table().wf(),
    {
        self.subscriptions.lemma_wf();
    }

    /// A service without subscriptions for the chain that begins at
    /// `genesis_hash`. Each subscription will pin at most
    /// `max_pinned_blocks` blocks and let none stand in the way of a new
    /// one for longer than `max_pinned_duration`.
    pub fn new(genesis_hash: &Vec<u8>, max_pinned_blocks: usize, max_pinned_duration: u64) -> (r: Self)
        ensures
            r.wf(),
            r.table() == TableState::empty(max_pinned_blocks, max_pinned_duration),
            r.genesis() == hex_text(genesis_hash@),
    {
        ChainHead {
            subscriptions: SubscriptionManagement::new(max_pinned_blocks, max_pinned_duration),
            genesis_hash: to_hex(genesis_hash),
        }
    }

    /// The table of subscriptions.
    pub fn subscriptions(&self) -> (r: &SubscriptionManagement)
        requires
            self.wf(),
        ensures
            r.wf(),
            r@ == self.table(),
    {
        &self.subscriptions
    }

    /// The genesis hash in its wire form.
    pub fn chain_head_unstable_genesis_hash(&self) -> (r: Result<String, ChainHeadRpcError>)
        ensures
            r matches Ok(s) && s@ == self.genesis(),
    {
        Ok(self.genesis_hash.clone())
    }

    /// The common beginning of every request on a block: the block is
    /// locked, and what comes of that decides about the sink.
    fn lock_for_request<T>(&mut self, follow_subscription: &String, hash: &Vec<u8>) -> (r: Step<
        BlockGuard,
        T,
    >)
        requires
            old(self).wf(),
        ensures
            final(self).wf(),
            final(self).genesis() == old(self).genesis(),
            final(self).table() == old(self).table().after_lock_block(follow_subscription@, hash@),
            match old(self).table().lock_block_result(follow_subscription@, hash@) {
                Ok(g) => r matches Step::Proceed(guard) && guard@ == g,
                Err(SubscriptionManagementError::SubscriptionAbsent) => r.responds_disjoint(),
                Err(SubscriptionManagementError::BlockHashAbsent) => r.rejects_block(),
                Err(other) => r.responds_error(other.text()),
            },
    {
        match self.subscriptions.lock_block(follow_subscription, hash) {
            Ok(guard) => Step::Proceed(guard),
            Err(SubscriptionManagementError::SubscriptionAbsent) => Step::Respond(
                ChainHeadEvent::Disjoint,
            ),
            Err(SubscriptionManagementError::BlockHashAbsent) => Step::Reject(
                ChainHeadRpcError::InvalidBlock,
            ),
            Err(error) => Step::Respond(ChainHeadEvent::Error(ErrorEvent { error: error.message() })),
        }
    }

    /// Gives a guard back without an answer from the backend, for a request
    /// that ended before it could ask.
    pub fn release(&mut self, guard: BlockGuard)
        requires
            old(self).wf(),
        ensures
            final(self).wf(),
            final(self).genesis() == old(self).genesis(),
            final(self).table() == old(self).table().after_release_block(guard@),
    {
        self.subscriptions.release_block(guard);
    }

    /// Begins a request for the body of `hash` on `follow_subscription`.
    ///
    /// A pinned block is locked and the request proceeds under its guard.
    /// Without such a subscription the sink is accepted and told so; a
    /// block that the subscription has not pinned rejects the sink.
    pub fn chain_head_unstable_body(&mut self, follow_subscription: &String, hash: &Vec<u8>) -> (r:
        Step<BlockGuard, String>)
        requires
            old(self).wf(),
        ensures
            final(self).wf(),
            final(self).genesis() == old(self).genesis(),
            final(self).table() == old(self).table().after_lock_block(follow_subscription@, hash@),
            match old(self).table().lock_block_result(follow_subscription@, hash@) {
                Ok(g) => r matches Step::Proceed(guard) && guard@ == g,
                Err(SubscriptionManagementError::SubscriptionAbsent) => r.responds_disjoint(),
                Err(SubscriptionManagementError::BlockHashAbsent) => r.rejects_block(),
                Err(other) => r.responds_error(other.text()),
            },
    {
        self.lock_for_request(follow_subscription, hash)
    }

    /// Ends a request for a body: gives the guard back and turns what the
    /// backend returned into the event to deliver.
    ///
    /// The extrinsics of the block are serialized and sent in wire form. A
    /// block whose body the backend no longer has ends the whole
    /// subscription: it is removed, and the request is told so. A failure
    /// of the backend is passed on in words.
    pub fn body_event(
        &mut self,
        guard: BlockGuard,
        fetched: Result<Option<Vec<Vec<u8>>>, String>,
    ) -> (r: ChainHeadEvent<String>)
        requires
            old(self).wf(),
            fetched matches Ok(Some(extrinsics)) ==> encodable(rows(extrinsics@)),
        ensures
            final(self).wf(),
            final(self).genesis() == old(self).genesis(),
            match fetched {
                Ok(Some(extrinsics)) => is_done(r, hex_text(scale_encoded(rows(extrinsics@))))
                    && final(self).table() == old(self).table().after_release_block(guard@),
                Ok(None) => r is Disjoint && final(self).table() == old(self).table().after_remove(
                    guard@.subscription_id,
                ),
                Err(error) => r.is_error(error@) && final(self).table() == old(
                    self,
                ).table().after_release_block(guard@),
            },
    {
        match fetched {
            Ok(Some(extrinsics)) => {
                self.subscriptions.release_block(guard);
                body_response(Ok(Some(scale_encode(&extrinsics))))
            },
            Ok(None) => {
                let _ = self.subscriptions.remove_subscription(guard.subscription_id());
                proof {
                    self.subscriptions.lemma_wf();
                }
                let ghost removed = self.subscriptions@;
                self.subscriptions.release_block(guard);
                assert(!removed.attached(guard@));
                body_response(Ok(None))
            },
            Err(error) => {
                self.subscriptions.release_block(guard);
                body_response(Err(error))
            },
        }
    }

    /// Begins a request for the header of `hash` on `follow_subscription`.
    ///
    /// A pinned block is locked and its header is to be fetched. Without
    /// such a subscription the answer is no header; a block that the
    /// subscription has not pinned is an invalid block.
    pub fn chain_head_unstable_header(&mut self, follow_subscription: &String, hash: &Vec<u8>) -> (r:
        HeaderStep)
        requires
            old(self).wf(),
        ensures
            final(self).wf(),
            final(self).genesis() == old(self).genesis(),
            final(self).table() == old(self).table().after_lock_block(follow_subscription@, hash@),
            match old(self).table().lock_block_result(follow_subscription@, hash@) {
                Ok(g) => r matches HeaderStep::Fetch(guard) && guard@ == g,
                Err(SubscriptionManagementError::SubscriptionAbsent) => r matches HeaderStep::Done(
                    Ok(None),
                ),
                Err(_) => r matches HeaderStep::Done(Err(e)) && e is InvalidBlock,
            },
    {
        match self.subscriptions.lock_block(follow_subscription, hash) {
            Ok(guard) => HeaderStep::Fetch(guard),
            Err(SubscriptionManagementError::SubscriptionAbsent) => HeaderStep::Done(Ok(None)),
            Err(_) => HeaderStep::Done(Err(ChainHeadRpcError::InvalidBlock)),
        }
    }

    /// Ends a request for a header: gives the guard back and turns what the
    /// backend returned into the answer. A header is sent in wire form; that
    /// the backend has none is no error.
    pub fn header_response(
        &mut self,
        guard: BlockGuard,
        fetched: Result<Option<Vec<u8>>, String>,
    ) -> (r: Result<Option<String>, ChainHeadRpcError>)
        requires
            old(self).wf(),
        ensures
            final(self).wf(),
            final(self).genesis() == old(self).genesis(),
            final(self).table() == old(self).table().after_release_block(guard@),
            match fetched {
                Ok(Some(header)) => r matches Ok(Some(s)) && s@ == hex_text(header@),
                Ok(None) => r matches Ok(None),
                Err(error) => r matches Err(ChainHeadRpcError::FetchBlockHeader(s)) && s@ == error@,
            },
    {
        self.subscriptions.release_block(guard);
        match fetched {
            Ok(Some(header)) => Ok(Some(to_hex(&header))),
            Ok(None) => Ok(None),
            Err(error) => Err(ChainHeadRpcError::FetchBlockHeader(error)),
        }
    }

    /// Begins a request for the storage value under `key` at `hash` on
    /// `follow_subscription`, in the child trie `child_key` if one is given.
    ///
    /// The keys are parsed first, the key before the child key: one that
    /// is no hex rejects the sink. Then the block is looked up as for a
    /// body. With the block locked, a request whose decisive key lies under
    /// a reserved prefix is answered with no value, without asking the
    /// backend, and the guard is given back at once; any other proceeds
    /// under the guard.
    pub fn chain_head_unstable_storage(
        &mut self,
        follow_subscription: &String,
        hash: &Vec<u8>,
        key: String,
        child_key: Option<String>,
    ) -> (r: Step<StorageQuery, Option<String>>)
        requires
            old(self).wf(),
        ensures
            final(self).wf(),
            final(self).genesis() == old(self).genesis(),
            storage_step(old(self).table(), follow_subscription@, hash@, key@, child_key, r),
            final(self).table() == if r is Proceed {
                old(self).table().after_lock_block(follow_subscription@, hash@)
            } else {
                old(self).table()
            },
    {
        let ghost key_text = key@;
        let key = match parse_hex_param(key) {
            Ok(key) => key,
            Err(e) => {
                return Step::Reject(e);
            },
        };
        let child_key = match child_key {
            Some(text) => {
                match parse_hex_param(text) {
                    Ok(child) => Some(child),
                    Err(e) => {
                        return Step::Reject(e);
                    },
                }
            },
            None => None,
        };
        let guard = match self.lock_for_request::<Option<String>>(follow_subscription, hash) {
            Step::Proceed(guard) => guard,
            Step::Respond(ev) => {
                return Step::Respond(ev);
            },
            Step::Reject(e) => {
                return Step::Reject(e);
            },
        };
        let reserved = match &child_key {
            Some(child) => is_reserved_key(child),
            None => is_reserved_key(&key),
        };
        if reserved {
            proof {
                old(self).subscriptions.lemma_wf();
                law_release_block_undoes_lock(old(self).table(), follow_subscription@, hash@);
            }
            self.subscriptions.release_block(guard);
            return Step::Respond(ChainHeadEvent::Done(ChainHeadResult { result: None }));
        }
        Step::Proceed(StorageQuery { guard, key, child_key })
    }

    /// Ends a request for a storage value: gives the guard back and turns
    /// what the backend returned into the event to deliver. A value is sent
    /// in wire form; a failure of the backend is passed on in words.
    pub fn storage_event(
        &mut self,
        guard: BlockGuard,
        fetched: Result<Option<Vec<u8>>, String>,
    ) -> (r: ChainHeadEvent<Option<String>>)
        requires
            old(self).wf(),
        ensures
            final(self).wf(),
            final(self).genesis() == old(self).genesis(),
            final(self).table() == old(self).table().after_release_block(guard@),
            match fetched {
                Ok(Some(value)) => is_done_with(r, Some(hex_text(value@))),
                Ok(None) => is_done_with(r, None),
                Err(error) => r.is_error(error@),
            },
    {
        self.subscriptions.release_block(guard);
        match fetched {
            Ok(Some(value)) => ChainHeadEvent::Done(ChainHeadResult { result: Some(to_hex(&value)) }),
            Ok(None) => ChainHeadEvent::Done(ChainHeadResult { result: None }),
            Err(error) => ChainHeadEvent::Error(ErrorEvent { error }),
        }
    }

    /// Begins a request to call `function` of the runtime at `hash` on
    /// `follow_subscription` with `call_parameters`.
    ///
    /// The parameters are parsed first: if they are no hex the sink is
    /// rejected. Then the block is looked up as for a body. With the block
    /// locked, a subscription that does not report runtime updates rejects
    /// the sink, whatever the function, and the guard is given back at
    /// once; any other proceeds under the guard.
    pub fn chain_head_unstable_call(
        &mut self,
        follow_subscription: &String,
        hash: &Vec<u8>,
        function: &String,
        call_parameters: String,
    ) -> (r: Step<RuntimeCall, String>)
        requires
            old(self).wf(),
        ensures
            final(self).wf(),
            final(self).genesis() == old(self).genesis(),
            call_step(old(self).table(), follow_subscription@, hash@, call_parameters@, r),
            final(self).table() == if r is Proceed {
                old(self).table().after_lock_block(follow_subscription@, hash@)
            } else {
                old(self).table()
            },
    {
        let call_parameters = match parse_hex_param(call_parameters) {
            Ok(bytes) => bytes,
            Err(e) => {
                return Step::Reject(e);
            },
        };
        let guard = match self.lock_for_request::<String>(follow_subscription, hash) {
            Step::Proceed(guard) => guard,
            Step::Respond(ev) => {
                return Step::Respond(ev);
            },
            Step::Reject(e) => {
                return Step::Reject(e);
            },
        };
        if !guard.has_runtime() {
            proof {
                old(self).subscriptions.lemma_wf();
                law_release_block_undoes_lock(old(self).table(), follow_subscription@, hash@);
            }
            self.subscriptions.release_block(guard);
            return Step::Reject(
                ChainHeadRpcError::InvalidParam("The runtime updates flag must be set".to_string()),
            );
        }
        Step::Proceed(RuntimeCall { guard, call_parameters })
    }

    /// Ends a runtime call: gives the guard back and turns what the call
    /// returned into the event to deliver. The returned bytes are sent in
    /// wire form; a failure is passed on in words.
    pub fn call_event(&mut self, guard: BlockGuard, outcome: Result<Vec<u8>, String>) -> (r:
        ChainHeadEvent<String>)
        requires
            old(self).wf(),
        ensures
            final(self).wf(),
            final(self).genesis() == old(self).genesis(),
            final(self).table() == old(self).table().after_release_block(guard@),
            match outcome {
                Ok(bytes) => is_done(r, hex_text(bytes@)),
                Err(error) => r.is_error(error@),
            },
    {
        self.subscriptions.release_block(guard);
        match outcome {
            Ok(bytes) => ChainHeadEvent::Done(ChainHeadResult { result: to_hex(&bytes) }),
            Err(error) => ChainHeadEvent::Error(ErrorEvent { error }),
        }
    }

    /// Unpins `hash` on `follow_subscription`.
    ///
    /// To unpin on a subscription that is gone does nothing and is no
    /// error. A block that the subscription has not pinned is an invalid
    /// block.
    pub fn chain_head_unstable_unpin(&mut self, follow_subscription: &String, hash: &Vec<u8>) -> (r:
        Result<(), ChainHeadRpcError>)
        requires
            old(self).wf(),
        ensures
            final(self).wf(),
            final(self).genesis() == old(self).genesis(),
            final(self).table() == old(self).table().after_unpin_block(follow_subscription@, hash@),
            match old(self).table().unpin_block_result(follow_subscription@, hash@) {
                Ok(()) => r is Ok,
                Err(SubscriptionManagementError::SubscriptionAbsent) => r is Ok,
                Err(_) => r matches Err(e) && e is InvalidBlock,
            },
    {
        match self.subscriptions.unpin_block(follow_subscription, hash) {
            Ok(()) => Ok(()),
            Err(SubscriptionManagementError::SubscriptionAbsent) => Ok(()),
            Err(_) => Err(ChainHeadRpcError::InvalidBlock),
        }
    }

    /// Begins a follow subscription under the id `sub_id`, which the
    /// transport gave to the accepted sink, at time `now`.
    ///
    /// The subscription is entered into the table and its driver is
    /// returned. If a subscription already goes by that id, nothing is
    /// entered and the stream is to be closed with `Stop`.
    pub fn chain_head_unstable_follow(&mut self, sub_id: String, runtime_updates: bool, now: u64) -> (r:
        FollowStep)
        requires
            old(self).wf(),
        ensures
            final(self).wf(),
            final(self).genesis() == old(self).genesis(),
            final(self).table() == old(self).table().after_insert(sub_id@, runtime_updates, now),
            if old(self).table().can_insert(sub_id@) {
                r matches FollowStep::Drive(follower) && follower@ == (FollowerState {
                    id: sub_id@,
                    serial: old(self).table().next_serial,
                    runtime_updates,
                    phase: Phase::Starting,
                    stop_reason: None,
                })
            } else {
                r matches FollowStep::Respond(ev) && ev@ == FollowEventState::Stop
            },
    {
        match self.subscriptions.insert_subscription(sub_id, runtime_updates, now) {
            Some(rx_stop) => FollowStep::Drive(ChainHeadFollower::new(rx_stop, runtime_updates)),
            None => FollowStep::Respond(FollowEvent::Stop),
        }
    }

    /// Hands one event of the backend, met at time `now`, to the driver of
    /// a follow subscription, and returns the events to put on its sink, in
    /// this order. See [`driver_step`].
    pub fn follow_step(&mut self, follower: &mut ChainHeadFollower, input: ChainEvent, now: u64) -> (events:
        Vec<FollowEvent>)
        requires
            old(self).wf(),
        ensures
            final(self).wf(),
            final(self).genesis() == old(self).genesis(),
            final(self).table() == driver_step(old(self).table(), old(follower)@, input@, now).table,
            final(follower)@ == driver_step(old(self).table(), old(follower)@, input@, now).follower,
            events_of(events@) == driver_step(old(self).table(), old(follower)@, input@, now).events,
    {
        follower.step(&mut self.subscriptions, input, now)
    }

    /// Removes the subscription `sub_id`, as when its stream has ended or
    /// its client has gone. Returns whether there was such a subscription.
    pub fn remove_subscription(&mut self, sub_id: &String) -> (r: bool)
        requires
            old(self).wf(),
        ensures
            final(self).wf(),
            final(self).genesis() == old(self).genesis(),
            final(self).table() == old(self).table().after_remove(sub_id@),
            r == old(self).table().has(sub_id@),
    {
        self.subscriptions.remove_subscription(sub_id)
    }
}

/// The event that answers a request for a body, given the serialized
/// extrinsics that were fetched.
pub fn body_response(encoded: Result<Option<Vec<u8>>, String>) -> (r: ChainHeadEvent<String>)
    ensures
        match encoded {
            Ok(Some(bytes)) => is_done(r, hex_text(bytes@)),
            Ok(None) => r is Disjoint,
            Err(error) => r.is_error(error@),
        },
{
    match encoded {
        Ok(Some(bytes)) => ChainHeadEvent::Done(ChainHeadResult { result: to_hex(&bytes) }),
        Ok(None) => ChainHeadEvent::Disjoint,
        Err(error) => ChainHeadEvent::Error(ErrorEvent { error }),
    }
}

/// What the beginning of a storage request comes to, on the table `t`.
pub open spec fn storage_step(
    t: TableState,
    id: Seq<char>,
    hash: Seq<u8>,
    key: Seq<char>,
    child_key: Option<String>,
    r: Step<StorageQuery, Option<String>>,
) -> bool {
    if param_bytes(key) is None {
        r.rejects_param(key)
    } else if child_key matches Some(text) && param_bytes(text@) is None {
        r.rejects_param(child_key->0@)
    } else {
        let key_bytes = param_bytes(key)->0;
        let child_bytes = match child_key {
            Some(text) => Some(param_bytes(text@)->0),
            None => None,
        };
        match t.lock_block_result(id, hash) {
            Err(SubscriptionManagementError::SubscriptionAbsent) => r.responds_disjoint(),
            Err(SubscriptionManagementError::BlockHashAbsent) => r.rejects_block(),
            Err(other) => r.responds_error(other.text()),
            Ok(g) => if is_reserved(decisive_key(key_bytes, child_bytes)) {
                r matches Step::Respond(ev) && is_done_with(ev, None)
            } else {
                &&& r matches Step::Proceed(query)
                &&& query.guard@ == g
                &&& query.key@ == key_bytes
                &&& match query.child_key {
                    Some(c) => child_bytes == Some(c@),
                    None => child_bytes is None,
                }
            },
        }
    }
}

/// What the beginning of a runtime call comes to, on the table `t`.
pub open spec fn call_step(
    t: TableState,
    id: Seq<char>,
    hash: Seq<u8>,
    call_parameters: Seq<char>,
    r: Step<RuntimeCall, String>,
) -> bool {
    if param_bytes(call_parameters) is None {
        r.rejects_param(call_parameters)
    } else {
        match t.lock_block_result(id, hash) {
            Err(SubscriptionManagementError::SubscriptionAbsent) => r.responds_disjoint(),
            Err(SubscriptionManagementError::BlockHashAbsent) => r.rejects_block(),
            Err(other) => r.responds_error(other.text()),
            Ok(g) => if !g.has_runtime {
                r.rejects_param(runtime_flag_text())
            } else {
                &&& r matches Step::Proceed(call)
                &&& call.guard@ == g
                &&& call.call_parameters@ == param_bytes(call_parameters)->0
            },
        }
    }
}

} // verus!
