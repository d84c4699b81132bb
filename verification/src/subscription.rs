//! The table of subscriptions: every follow subscription by its id, each
//! with its registry of pinned blocks, and the guards that requests hold on
//! those blocks.

use vstd::prelude::*;
use crate::bytes::copy_bytes;
use crate::error::SubscriptionManagementError;
use crate::keyed::{distinct_keys, lemma_lookup, lemma_push, lemma_remove, lemma_update, to_map};
use crate::registry::{Absent, BlockRegistry, LockError, PinError, RegistryState};

verus! {

/// One subscription as contracts see it.
pub struct SubscriptionState {
    /// Whether runtime calls are permitted on this subscription. Fixed when
    /// the subscription is made.
    pub runtime_updates: bool,
    /// The blocks that the subscription has pinned.
    pub registry: RegistryState,
    /// The number under which the table made this subscription. No two
    /// subscriptions of one table ever share it, whatever their ids.
    pub serial: u64,
    /// The time at which the subscription was made.
    pub created_at: u64,
}

/// A guard as contracts see it.
pub struct GuardState {
    /// The subscription on which the block was locked.
    pub subscription_id: Seq<char>,
    /// The locked block.
    pub block_hash: Seq<u8>,
    /// The runtime-updates flag of that subscription.
    pub has_runtime: bool,
    /// The serial of that subscription.
    pub serial: u64,
}

/// The table as contracts see it.
pub struct TableState {
    /// The subscriptions by id.
    pub subs: Map<Seq<char>, SubscriptionState>,
    /// The serial that the next subscription gets.
    pub next_serial: u64,
    /// The limit on the pinned blocks of each subscription.
    pub max_pinned_blocks: usize,
    /// The limit on the age of a pinned block.
    pub max_pinned_duration: u64,
}

impl TableState {
    /// The table without subscriptions.
    pub open spec fn empty(max_pinned_blocks: usize, max_pinned_duration: u64) -> Self {
        TableState { subs: Map::empty(), next_serial: 0, max_pinned_blocks, max_pinned_duration }
    }

    /// Every registry is well formed under the table's limits, and every
    /// serial in use was handed out before.
    pub open spec fn wf(self) -> bool {
        forall|id: Seq<char>| #[trigger]
            self.subs.dom().contains(id) ==> {
                &&& self.subs[id].registry.wf()
                &&& self.subs[id].registry.max_count == self.max_pinned_blocks
                &&& self.subs[id].registry.max_age == self.max_pinned_duration
                &&& self.subs[id].serial < self.next_serial
            }
    }

    /// Whether a subscription goes by `id`.
    pub open spec fn has(self, id: Seq<char>) -> bool {
        self.subs.dom().contains(id)
    }

    /// The registry of the subscription `id`.
    pub open spec fn registry(self, id: Seq<char>) -> RegistryState {
        self.subs[id].registry
    }

    /// Whether the subscription `id` keeps an entry for `hash`, pinned or
    /// not.
    pub open spec fn holds(self, id: Seq<char>, hash: Seq<u8>) -> bool {
        self.has(id) && self.registry(id).holds(hash)
    }

    /// How many guards are alive on `hash` in the subscription `id`: none
    /// where the subscription keeps no entry for it.
    pub open spec fn live_guards(self, id: Seq<char>, hash: Seq<u8>) -> int {
        if self.holds(id, hash) {
            self.registry(id).entry(hash).live_guards as int
        } else {
            0
        }
    }

    /// Whether `hash` is pinned by the subscription `id`.
    pub open spec fn is_pinned(self, id: Seq<char>, hash: Seq<u8>) -> bool {
        self.has(id) && self.registry(id).is_pinned(hash)
    }

    /// The table in which the subscription `id` has the registry `registry`.
    pub open spec fn with_registry(self, id: Seq<char>, registry: RegistryState) -> Self {
        TableState {
            subs: self.subs.insert(id, SubscriptionState { registry, ..self.subs[id] }),
            ..self
        }
    }

    /// Whether a subscription can be made under `id`: the id is free, and a
    /// serial is left to give.
    pub open spec fn can_insert(self, id: Seq<char>) -> bool {
        !self.has(id) && self.next_serial < u64::MAX
    }

    /// The subscription that an insertion makes.
    pub open spec fn fresh(self, runtime_updates: bool, now: u64) -> SubscriptionState {
        SubscriptionState {
            runtime_updates,
            registry: RegistryState::empty(self.max_pinned_blocks, self.max_pinned_duration),
            serial: self.next_serial,
            created_at: now,
        }
    }

    /// The table after the insertion of `id`.
    pub open spec fn after_insert(self, id: Seq<char>, runtime_updates: bool, now: u64) -> Self {
        if self.can_insert(id) {
            TableState {
                subs: self.subs.insert(id, self.fresh(runtime_updates, now)),
                next_serial: (self.next_serial + 1) as u64,
                ..self
            }
        } else {
            self
        }
    }

    /// The table after the removal of `id`.
    pub open spec fn after_remove(self, id: Seq<char>) -> Self {
        TableState { subs: self.subs.remove(id), ..self }
    }

    /// Whether the stop signal of the subscription that was made under `id`
    /// with the serial `serial` has fired: that subscription is gone.
    pub open spec fn stop_fired(self, id: Seq<char>, serial: u64) -> bool {
        !(self.has(id) && self.subs[id].serial == serial)
    }

    /// What a lock of `hash` on the subscription `id` returns.
    pub open spec fn lock_block_result(self, id: Seq<char>, hash: Seq<u8>) -> Result<
        GuardState,
        SubscriptionManagementError,
    > {
        if !self.has(id) {
            Err(SubscriptionManagementError::SubscriptionAbsent)
        } else {
            match self.registry(id).lock_result(hash) {
                Ok(()) => Ok(
                    GuardState {
                        subscription_id: id,
                        block_hash: hash,
                        has_runtime: self.subs[id].runtime_updates,
                        serial: self.subs[id].serial,
                    },
                ),
                Err(LockError::Absent) => Err(SubscriptionManagementError::BlockHashAbsent),
                Err(LockError::GuardsExhausted) => Err(SubscriptionManagementError::Other),
            }
        }
    }

    /// The table after a lock of `hash` on the subscription `id`.
    pub open spec fn after_lock_block(self, id: Seq<char>, hash: Seq<u8>) -> Self {
        if self.lock_block_result(id, hash) is Ok {
            self.with_registry(id, self.registry(id).after_lock(hash))
        } else {
            self
        }
    }

    /// What an unpin of `hash` on the subscription `id` returns.
    pub open spec fn unpin_block_result(self, id: Seq<char>, hash: Seq<u8>) -> Result<
        (),
        SubscriptionManagementError,
    > {
        if !self.has(id) {
            Err(SubscriptionManagementError::SubscriptionAbsent)
        } else if !self.registry(id).is_pinned(hash) {
            Err(SubscriptionManagementError::BlockHashAbsent)
        } else {
            Ok(())
        }
    }

    /// The table after an unpin of `hash` on the subscription `id`.
    pub open spec fn after_unpin_block(self, id: Seq<char>, hash: Seq<u8>) -> Self {
        if self.unpin_block_result(id, hash) is Ok {
            self.with_registry(id, self.registry(id).after_unpin(hash))
        } else {
            self
        }
    }

    /// What a pin of `hash` on the subscription `id` at time `now` returns.
    pub open spec fn pin_block_result(self, id: Seq<char>, hash: Seq<u8>, now: u64) -> Result<
        (),
        SubscriptionManagementError,
    > {
        if !self.has(id) {
            Err(SubscriptionManagementError::SubscriptionAbsent)
        } else {
            match self.registry(id).pin_result(hash, now) {
                Ok(()) => Ok(()),
                Err(PinError::DuplicateHash) => Err(SubscriptionManagementError::DuplicateHash),
                Err(PinError::LimitExceeded) => Err(SubscriptionManagementError::LimitExceeded),
            }
        }
    }

    /// The table after a pin of `hash` on the subscription `id` at time `now`.
    pub open spec fn after_pin_block(self, id: Seq<char>, hash: Seq<u8>, now: u64) -> Self {
        if self.pin_block_result(id, hash, now) is Ok {
            self.with_registry(id, self.registry(id).after_pin(hash, now))
        } else {
            self
        }
    }

    /// Whether the subscription on which `guard` was made is still there.
    pub open spec fn attached(self, guard: GuardState) -> bool {
        self.has(guard.subscription_id) && self.subs[guard.subscription_id].serial == guard.serial
    }

    /// Whether the release of `guard` changes the table: its subscription is
    /// still there and counts a guard on the block.
    pub open spec fn release_counts(self, guard: GuardState) -> bool {
        let registry = self.registry(guard.subscription_id);
        self.attached(guard) && registry.holds(guard.block_hash) && registry.entry(
            guard.block_hash,
        ).live_guards > 0
    }

    /// The table after the release of `guard`.
    pub open spec fn after_release_block(self, guard: GuardState) -> Self {
        if self.release_counts(guard) {
            self.with_registry(
                guard.subscription_id,
                self.registry(guard.subscription_id).after_release(guard.block_hash),
            )
        } else {
            self
        }
    }
}

/// A scoped handle on one pinned block. While it is alive the block's entry
/// stays in the registry of its subscription; it is given back to the table
/// exactly once, by [`SubscriptionManagement::release_block`].
#[derive(Debug)]
pub struct BlockGuard {
    subscription_id: String,
    block_hash: Vec<u8>,
    has_runtime_flag: bool,
    serial: u64,
}

impl View for BlockGuard {
    type V = GuardState;

    closed spec fn view(&self) -> GuardState {
        GuardState {
            subscription_id: self.subscription_id@,
            block_hash: self.block_hash@,
            has_runtime: self.has_runtime_flag,
            serial: self.serial,
        }
    }
}

impl BlockGuard {
    /// Whether the subscription of this guard permits runtime calls.
    pub fn has_runtime(&self) -> (r: bool)
        ensures
            r == self@.has_runtime,
    {
        self.has_runtime_flag
    }

    /// The id of the subscription on which the block was locked.
    pub fn subscription_id(&self) -> (r: &String)
        ensures
            r@ == self@.subscription_id,
    {
        &self.subscription_id
    }

    /// The hash of the locked block.
    pub fn block_hash(&self) -> (r: &Vec<u8>)
        ensures
            r@ == self@.block_hash,
    {
        &self.block_hash
    }
}

/// The receiving end of a subscription's stop signal. The signal fires, once
/// and for good, when the subscription is removed from the table.
#[derive(Debug)]
pub struct StopReceiver {
    subscription_id: String,
    serial: u64,
}

impl StopReceiver {
    /// The id of the subscription that this end listens to.
    pub closed spec fn id(&self) -> Seq<char> {
        self.subscription_id@
    }

    /// The serial of the subscription that this end listens to.
    pub closed spec fn serial(&self) -> u64 {
        self.serial
    }

    /// The id of the subscription that this end listens to.
    pub fn subscription_id(&self) -> (r: &String)
        ensures
            r@ == self.id(),
    {
        &self.subscription_id
    }
}

/// One follow subscription.
struct Subscription {
    id: String,
    runtime_updates: bool,
    registry: BlockRegistry,
    serial: u64,
    created_at: u64,
}

impl Subscription {
    spec fn state(&self) -> SubscriptionState {
        SubscriptionState {
            runtime_updates: self.runtime_updates,
            registry: self.registry@,
            serial: self.serial,
            created_at: self.created_at,
        }
    }

    spec fn keyed(&self) -> (Seq<char>, SubscriptionState) {
        (self.id@, self.state())
    }
}

/// The subscriptions of one service.
pub struct SubscriptionManagement {
    subs: Vec<Subscription>,
    next_serial: u64,
    max_pinned_blocks: usize,
    max_pinned_duration: u64,
}

impl View for SubscriptionManagement {
    type V = TableState;

    closed spec fn view(&self) -> TableState {
        TableState {
            subs: to_map(self.keyed()),
            next_serial: self.next_serial,
            max_pinned_blocks: self.max_pinned_blocks,
            max_pinned_duration: self.max_pinned_duration,
        }
    }
}

impl SubscriptionManagement {
    spec fn keyed(&self) -> Seq<(Seq<char>, SubscriptionState)> {
        Seq::new(self.subs@.len(), |i: int| self.subs@[i].keyed())
    }

    /// The invariant of the table, which every operation keeps.
    pub closed spec fn wf(&self) -> bool {
        distinct_keys(self.keyed()) && self@.wf()
    }

    /// A well-formed table has a well-formed view.
    pub proof fn lemma_wf(&self)
        requires
            self.wf(),
        ensures
            self@.wf(),
    {
    }

    /// A table without subscriptions, whose subscriptions will each pin at
    /// most `max_pinned_blocks` blocks and let none stand in the way for
    /// longer than `max_pinned_duration`.
    pub fn new(max_pinned_blocks: usize, max_pinned_duration: u64) -> (r: Self)
        ensures
            r.wf(),
            r@ == TableState::empty(max_pinned_blocks, max_pinned_duration),
    {
        let r = SubscriptionManagement {
            subs: Vec::new(),
            next_serial: 0,
            max_pinned_blocks,
            max_pinned_duration,
        };
        assert(r@.subs =~= Map::empty());
        r
    }

    /// Where the subscription `id` stands.
    fn find(&self, id: &String) -> (r: Option<usize>)
        requires
            self.wf(),
        ensures
            match r {
                Some(i) => i < self.subs.len() && self.subs[i as int].id@ == id@ && self@.has(id@)
                    && self@.subs[id@] == self.subs[i as int].state(),
                None => !self@.has(id@),
            },
    {
        let mut i: usize = 0;
        while i < self.subs.len()
            invariant
                self.wf(),
                i <= self.subs.len(),
                forall|j: int| 0 <= j < i ==> (#[trigger] self.keyed()[j]).0 != id@,
            decreases self.subs.len() - i,
        {
            if self.subs[i].id == *id {
                proof {
                    assert(self.keyed()[i as int].0 == id@);
                    lemma_lookup(self.keyed(), i as int);
                }
                return Some(i);
            }
            i += 1;
        }
        None
    }

    /// The registry at `i` was replaced by one that is well formed under
    /// the table's limits: the view follows, and the table stays well formed.
    proof fn lemma_registry_replaced(&self, before: &Self, i: int)
        requires
            before.wf(),
            0 <= i < before.subs.len(),
            self.subs.len() == before.subs.len(),
            self.next_serial == before.next_serial,
            self.max_pinned_blocks == before.max_pinned_blocks,
            self.max_pinned_duration == before.max_pinned_duration,
            forall|j: int| 0 <= j < self.subs.len() && j != i ==> self.subs[j] == before.subs[j],
            self.subs[i].id == before.subs[i].id,
            self.subs[i].runtime_updates == before.subs[i].runtime_updates,
            self.subs[i].serial == before.subs[i].serial,
            self.subs[i].created_at == before.subs[i].created_at,
            self.subs[i].registry@.wf(),
            self.subs[i].registry@.max_count == before.subs[i].registry@.max_count,
            self.subs[i].registry@.max_age == before.subs[i].registry@.max_age,
        ensures
            self.wf(),
            self@ == before@.with_registry(before.subs[i].id@, self.subs[i].registry@),
    {
        let id = before.subs[i].id@;
        assert(before.keyed()[i].0 == id);
        lemma_lookup(before.keyed(), i);
        lemma_update(before.keyed(), i, self.subs[i].state());
        assert(self.keyed() =~= before.keyed().update(i, (id, self.subs[i].state())));
        assert(self@.subs == before@.subs.insert(id, self.subs[i].state()));
        assert(self.subs[i].state() == SubscriptionState {
            registry: self.subs[i].registry@,
            ..before@.subs[id]
        });
        assert forall|other: Seq<char>| #[trigger] self@.subs.dom().contains(other) implies {
            &&& self@.subs[other].registry.wf()
            &&& self@.subs[other].registry.max_count == self@.max_pinned_blocks
            &&& self@.subs[other].registry.max_age == self@.max_pinned_duration
            &&& self@.subs[other].serial < self@.next_serial
        } by {
            assert(before@.subs.dom().contains(other));
        }
    }

    /// Makes the subscription `sub_id` at time `now`.
    ///
    /// Returns the receiving end of its stop signal, or nothing if a
    /// subscription already goes by that id (or no serial is left to give):
    /// the table is then unchanged, and the caller tears its sink down.
    pub fn insert_subscription(&mut self, sub_id: String, runtime_updates: bool, now: u64) -> (r:
        Option<StopReceiver>)
        requires
            old(self).wf(),
        ensures
            final(self).wf(),
            final(self)@ == old(self)@.after_insert(sub_id@, runtime_updates, now),
            r is Some <==> old(self)@.can_insert(sub_id@),
            r matches Some(rx) ==> rx.id() == sub_id@ && rx.serial() == old(self)@.next_serial,
    {
        if self.find(&sub_id).is_some() || self.next_serial == u64::MAX {
            return None;
        }
        let serial: u64 = self.next_serial;
        let rx = StopReceiver { subscription_id: sub_id.clone(), serial };
        let sub = Subscription {
            id: sub_id,
            runtime_updates,
            registry: BlockRegistry::new(self.max_pinned_blocks, self.max_pinned_duration),
            serial,
            created_at: now,
        };
        self.subs.push(sub);
        self.next_serial = serial + 1;
        proof {
            let before = old(self);
            let fresh = before@.fresh(runtime_updates, now);
            lemma_push(before.keyed(), sub_id@, fresh);
            assert(self.keyed() =~= before.keyed().push((sub_id@, fresh)));
            assert forall|other: Seq<char>| #[trigger] self@.subs.dom().contains(other) implies {
                &&& self@.subs[other].registry.wf()
                &&& self@.subs[other].registry.max_count == self@.max_pinned_blocks
                &&& self@.subs[other].registry.max_age == self@.max_pinned_duration
                &&& self@.subs[other].serial < self@.next_serial
            } by {
                if other != sub_id@ {
                    assert(before@.subs.dom().contains(other));
                }
            }
        }
        Some(rx)
    }

    /// Removes the subscription `sub_id` with everything it has pinned,
    /// whatever guards are alive, and so fires its stop signal. Returns
    /// whether there was such a subscription; without one nothing changes.
    pub fn remove_subscription(&mut self, sub_id: &String) -> (r: bool)
        requires
            old(self).wf(),
        ensures
            final(self).wf(),
            final(self)@ == old(self)@.after_remove(sub_id@),
            r == old(self)@.has(sub_id@),
    {
        match self.find(sub_id) {
            Some(i) => {
                let _ = self.subs.remove(i);
                proof {
                    let before = old(self);
                    lemma_remove(before.keyed(), i as int);
                    assert(self.keyed() =~= before.keyed().remove(i as int));
                    assert forall|other: Seq<char>| #[trigger]
                        self@.subs.dom().contains(other) implies {
                        &&& self@.subs[other].registry.wf()
                        &&& self@.subs[other].registry.max_count == self@.max_pinned_blocks
                        &&& self@.subs[other].registry.max_age == self@.max_pinned_duration
                        &&& self@.subs[other].serial < self@.next_serial
                    } by {
                        assert(before@.subs.dom().contains(other));
                    }
                }
                true
            },
            None => {
                proof {
                    assert(self@.subs.remove(sub_id@) =~= self@.subs);
                }
                false
            },
        }
    }

    /// Whether the stop signal that `rx` listens to has fired.
    pub fn stop_fired(&self, rx: &StopReceiver) -> (r: bool)
        requires
            self.wf(),
        ensures
            r == self@.stop_fired(rx.id(), rx.serial()),
    {
        match self.find(&rx.subscription_id) {
            Some(i) => self.subs[i].serial != rx.serial,
            None => true,
        }
    }

    /// Whether a subscription goes by `sub_id`.
    pub fn contains_subscription(&self, sub_id: &String) -> (r: bool)
        requires
            self.wf(),
        ensures
            r == self@.has(sub_id@),
    {
        self.find(sub_id).is_some()
    }

    /// Whether the subscription `sub_id` keeps an entry for `hash`, pinned
    /// or not.
    pub fn contains_block(&self, sub_id: &String, hash: &Vec<u8>) -> (r: bool)
        requires
            self.wf(),
        ensures
            r == self@.holds(sub_id@, hash@),
    {
        match self.find(sub_id) {
            Some(i) => self.subs[i].registry.contains(hash),
            None => false,
        }
    }

    /// Whether `hash` is pinned by the subscription `sub_id`.
    pub fn is_pinned(&self, sub_id: &String, hash: &Vec<u8>) -> (r: bool)
        requires
            self.wf(),
        ensures
            r == self@.is_pinned(sub_id@, hash@),
    {
        match self.find(sub_id) {
            Some(i) => self.subs[i].registry.is_pinned(hash),
            None => false,
        }
    }

    /// How many guards are alive on `hash` in the subscription `sub_id`, if
    /// the subscription keeps an entry for it.
    pub fn live_guards(&self, sub_id: &String, hash: &Vec<u8>) -> (r: Option<u64>)
        requires
            self.wf(),
        ensures
            r == if self@.holds(sub_id@, hash@) {
                Some(self@.registry(sub_id@).entry(hash@).live_guards)
            } else {
                None
            },
    {
        match self.find(sub_id) {
            Some(i) => self.subs[i].registry.live_guards(hash),
            None => None,
        }
    }

    /// How many entries the subscription `sub_id` keeps, if there is such
    /// a subscription.
    pub fn pinned_count(&self, sub_id: &String) -> (r: Option<usize>)
        requires
            self.wf(),
        ensures
            r == if self@.has(sub_id@) {
                Some(self@.registry(sub_id@).pins.len() as usize)
            } else {
                None
            },
    {
        match self.find(sub_id) {
            Some(i) => Some(self.subs[i].registry.len()),
            None => None,
        }
    }

    /// Pins `hash` on the subscription `sub_id` at time `now`, as
    /// [`BlockRegistry::pin`] does.
    pub fn pin_block(&mut self, sub_id: &String, hash: Vec<u8>, now: u64) -> (r: Result<
        (),
        SubscriptionManagementError,
    >)
        requires
            old(self).wf(),
        ensures
            final(self).wf(),
            r == old(self)@.pin_block_result(sub_id@, hash@, now),
            final(self)@ == old(self)@.after_pin_block(sub_id@, hash@, now),
    {
        let i = match self.find(sub_id) {
            Some(i) => i,
            None => {
                return Err(SubscriptionManagementError::SubscriptionAbsent);
            },
        };
        let res = self.subs[i].registry.pin(hash, now);
        proof {
            self.lemma_registry_replaced(old(self), i as int);
            if res is Err {
                assert(self@.subs =~= old(self)@.subs);
            }
        }
        match res {
            Ok(()) => Ok(()),
            Err(PinError::DuplicateHash) => Err(SubscriptionManagementError::DuplicateHash),
            Err(PinError::LimitExceeded) => Err(SubscriptionManagementError::LimitExceeded),
        }
    }

    /// Locks `hash` on the subscription `sub_id` for the length of one
    /// request.
    ///
    /// The id is looked up first, then the hash in that subscription's
    /// registry. On success the block's entry counts one more guard, and
    /// the guard that is returned carries the subscription's
    /// runtime-updates flag.
    pub fn lock_block(&mut self, sub_id: &String, hash: &Vec<u8>) -> (r: Result<
        BlockGuard,
        SubscriptionManagementError,
    >)
        requires
            old(self).wf(),
        ensures
            final(self).wf(),
            final(self)@ == old(self)@.after_lock_block(sub_id@, hash@),
            match r {
                Ok(guard) => old(self)@.lock_block_result(sub_id@, hash@) == Ok::<
                    GuardState,
                    SubscriptionManagementError,
                >(guard@),
                Err(e) => old(self)@.lock_block_result(sub_id@, hash@) == Err::<
                    GuardState,
                    SubscriptionManagementError,
                >(e),
            },
    {
        let i = match self.find(sub_id) {
            Some(i) => i,
            None => {
                return Err(SubscriptionManagementError::SubscriptionAbsent);
            },
        };
        let res = self.subs[i].registry.lock(hash);
        proof {
            self.lemma_registry_replaced(old(self), i as int);
            if res is Err {
                assert(self@.subs =~= old(self)@.subs);
            }
        }
        match res {
            Ok(()) => {
                Ok(
                    BlockGuard {
                        subscription_id: sub_id.clone(),
                        block_hash: copy_bytes(hash),
                        has_runtime_flag: self.subs[i].runtime_updates,
                        serial: self.subs[i].serial,
                    },
                )
            },
            Err(LockError::Absent) => Err(SubscriptionManagementError::BlockHashAbsent),
            Err(LockError::GuardsExhausted) => Err(SubscriptionManagementError::Other),
        }
    }

    /// Unpins `hash` on the subscription `sub_id`, as
    /// [`BlockRegistry::unpin`] does.
    pub fn unpin_block(&mut self, sub_id: &String, hash: &Vec<u8>) -> (r: Result<
        (),
        SubscriptionManagementError,
    >)
        requires
            old(self).wf(),
        ensures
            final(self).wf(),
            r == old(self)@.unpin_block_result(sub_id@, hash@),
            final(self)@ == old(self)@.after_unpin_block(sub_id@, hash@),
    {
        let i = match self.find(sub_id) {
            Some(i) => i,
            None => {
                return Err(SubscriptionManagementError::SubscriptionAbsent);
            },
        };
        let res = self.subs[i].registry.unpin(hash);
        proof {
            self.lemma_registry_replaced(old(self), i as int);
            if res is Err {
                assert(self@.subs =~= old(self)@.subs);
            }
        }
        match res {
            Ok(()) => Ok(()),
            Err(Absent) => Err(SubscriptionManagementError::BlockHashAbsent),
        }
    }

    /// Gives `guard` back.
    ///
    /// The block's entry loses one guard, and leaves the registry if that
    /// was its last and the block had been unpinned meanwhile. Where the
    /// subscription on which the guard was made is gone, nothing happens,
    /// also if another subscription goes by the same id since.
    pub fn release_block(&mut self, guard: BlockGuard)
        requires
            old(self).wf(),
        ensures
            final(self).wf(),
            final(self)@ == old(self)@.after_release_block(guard@),
    {
        let i = match self.find(&guard.subscription_id) {
            Some(i) => i,
            None => {
                return ;
            },
        };
        if self.subs[i].serial != guard.serial {
            return ;
        }
        self.subs[i].registry.release(&guard.block_hash);
        proof {
            self.lemma_registry_replaced(old(self), i as int);
            if !old(self)@.release_counts(guard@) {
                assert(self@.subs =~= old(self)@.subs);
            }
        }
    }

    /// The limit on the pinned blocks of each subscription.
    pub fn max_pinned_blocks(&self) -> (r: usize)
        ensures
            r == self@.max_pinned_blocks,
    {
        self.max_pinned_blocks
    }

    /// The limit on the age of a pinned block.
    pub fn max_pinned_duration(&self) -> (r: u64)
        ensures
            r == self@.max_pinned_duration,
    {
        self.max_pinned_duration
    }
}

} // verus!
