//! The blocks that one subscription has pinned, in the order in which they
//! were pinned, under a limit on their number and on their age.

use vstd::prelude::*;
use crate::bytes::same_bytes;

verus! {

/// One pinned block as contracts see it.
pub struct PinState {
    /// The block's hash.
    pub hash: Seq<u8>,
    /// The time at which the block was pinned.
    pub inserted_at: u64,
    /// How many guards on this block are alive.
    pub live_guards: u64,
    /// Whether the block was unpinned while guards on it were alive. Such
    /// an entry is no longer pinned; it leaves when its last guard does.
    pub unpinned: bool,
}

/// A registry as contracts see it: its entries, oldest first, and its limits.
pub struct RegistryState {
    /// The entries in the order in which they were pinned.
    pub pins: Seq<PinState>,
    /// The most entries the registry holds at any time.
    pub max_count: usize,
    /// The age beyond which an entry stands in the way of a new pin.
    pub max_age: u64,
}

/// Why a block could not be pinned.
#[derive(Debug, Clone, Copy, PartialEq, Eq, Structural)]
pub enum PinError {
    /// The hash is already in the registry.
    DuplicateHash,
    /// The registry is full, or its oldest entry is over age and guarded.
    LimitExceeded,
}

/// Why a block could not be locked.
#[derive(Debug, Clone, Copy, PartialEq, Eq, Structural)]
pub enum LockError {
    /// The hash is not pinned.
    Absent,
    /// The block carries as many guards as can be counted.
    GuardsExhausted,
}

/// The hash is not pinned.
#[derive(Debug, Clone, Copy, PartialEq, Eq, Structural)]
pub struct Absent;

impl RegistryState {
    /// The registry with no entries.
    pub open spec fn empty(max_count: usize, max_age: u64) -> Self {
        RegistryState { pins: Seq::empty(), max_count, max_age }
    }

    /// No more entries than the limit, no hash twice, and no unpinned entry
    /// without a guard that keeps it.
    pub open spec fn wf(self) -> bool {
        &&& self.pins.len() <= self.max_count
        &&& forall|i: int, j: int|
            0 <= i < j < self.pins.len() ==> (#[trigger] self.pins[i]).hash != (
            #[trigger] self.pins[j]).hash
        &&& forall|i: int|
            0 <= i < self.pins.len() && (#[trigger] self.pins[i]).unpinned
                ==> self.pins[i].live_guards > 0
    }

    /// Whether an entry for `hash` is physically present.
    pub open spec fn holds(self, hash: Seq<u8>) -> bool {
        exists|i: int| 0 <= i < self.pins.len() && (#[trigger] self.pins[i]).hash == hash
    }

    /// Where the entry for `hash` stands, if the registry holds one.
    pub open spec fn index_of(self, hash: Seq<u8>) -> int {
        choose|i: int| 0 <= i < self.pins.len() && (#[trigger] self.pins[i]).hash == hash
    }

    /// The entry for `hash`, if the registry holds one.
    pub open spec fn entry(self, hash: Seq<u8>) -> PinState {
        self.pins[self.index_of(hash)]
    }

    /// Whether `hash` is pinned: present and not unpinned since.
    pub open spec fn is_pinned(self, hash: Seq<u8>) -> bool {
        self.holds(hash) && !self.entry(hash).unpinned
    }

    /// The pinned hashes.
    pub open spec fn pinned(self) -> Set<Seq<u8>> {
        Set::new(|hash: Seq<u8>| self.is_pinned(hash))
    }

    /// Whether the entry at `i` is older than the age limit at time `now`.
    pub open spec fn expired(self, i: int, now: u64) -> bool {
        now - self.pins[i].inserted_at > self.max_age
    }

    /// Whether the entry at `i` may be reclaimed at time `now`: it is over
    /// age and no guard is alive on it.
    pub open spec fn evictable(self, i: int, now: u64) -> bool {
        self.expired(i, now) && self.pins[i].live_guards == 0
    }

    /// How many entries from `from` on are evictable without a gap.
    pub open spec fn evictable_run(self, from: int, now: u64) -> int
        decreases self.pins.len() - from,
    {
        if 0 <= from < self.pins.len() && self.evictable(from, now) {
            1 + self.evictable_run(from + 1, now)
        } else {
            0
        }
    }

    /// How many of the oldest entries a pin at time `now` reclaims.
    pub open spec fn reclaimed(self, now: u64) -> int {
        self.evictable_run(0, now)
    }

    /// Whether a pin of `hash` at time `now` succeeds, and why not.
    pub open spec fn pin_result(self, hash: Seq<u8>, now: u64) -> Result<(), PinError> {
        let k = self.reclaimed(now);
        if self.holds(hash) {
            Err(PinError::DuplicateHash)
        } else if k < self.pins.len() && self.expired(k, now) {
            Err(PinError::LimitExceeded)
        } else if self.pins.len() - k >= self.max_count {
            Err(PinError::LimitExceeded)
        } else {
            Ok(())
        }
    }

    /// The registry after a pin of `hash` at time `now`. A pin that
    /// succeeds reclaims the oldest evictable entries and appends the new
    /// one; a pin that fails changes nothing.
    pub open spec fn after_pin(self, hash: Seq<u8>, now: u64) -> Self {
        if self.pin_result(hash, now) is Ok {
            RegistryState {
                pins: self.pins.skip(self.reclaimed(now)).push(
                    PinState { hash, inserted_at: now, live_guards: 0, unpinned: false },
                ),
                ..self
            }
        } else {
            self
        }
    }

    /// Whether a lock of `hash` succeeds, and why not.
    pub open spec fn lock_result(self, hash: Seq<u8>) -> Result<(), LockError> {
        if !self.is_pinned(hash) {
            Err(LockError::Absent)
        } else if self.entry(hash).live_guards == u64::MAX {
            Err(LockError::GuardsExhausted)
        } else {
            Ok(())
        }
    }

    /// The registry after a lock of `hash`: one more guard on its entry if
    /// the lock succeeds, no change otherwise.
    pub open spec fn after_lock(self, hash: Seq<u8>) -> Self {
        if self.lock_result(hash) is Ok {
            let e = self.entry(hash);
            RegistryState {
                pins: self.pins.update(
                    self.index_of(hash),
                    PinState { live_guards: (e.live_guards + 1) as u64, ..e },
                ),
                ..self
            }
        } else {
            self
        }
    }

    /// Whether an unpin of `hash` succeeds.
    pub open spec fn unpin_result(self, hash: Seq<u8>) -> Result<(), Absent> {
        if self.is_pinned(hash) {
            Ok(())
        } else {
            Err(Absent)
        }
    }

    /// The registry after an unpin of `hash`. A pinned entry without guards
    /// leaves at once; one with guards is marked and stays until the last
    /// guard is released.
    pub open spec fn after_unpin(self, hash: Seq<u8>) -> Self {
        if self.is_pinned(hash) {
            let e = self.entry(hash);
            if e.live_guards == 0 {
                RegistryState { pins: self.pins.remove(self.index_of(hash)), ..self }
            } else {
                RegistryState {
                    pins: self.pins.update(self.index_of(hash), PinState { unpinned: true, ..e }),
                    ..self
                }
            }
        } else {
            self
        }
    }

    /// The registry after one guard on `hash` was released. The entry loses
    /// a guard; if that was its last and the entry had been unpinned, the
    /// entry leaves. Without an entry, or without a guard on it, nothing
    /// changes.
    pub open spec fn after_release(self, hash: Seq<u8>) -> Self {
        if self.holds(hash) && self.entry(hash).live_guards > 0 {
            let e = self.entry(hash);
            if e.live_guards == 1 && e.unpinned {
                RegistryState { pins: self.pins.remove(self.index_of(hash)), ..self }
            } else {
                RegistryState {
                    pins: self.pins.update(
                        self.index_of(hash),
                        PinState { live_guards: (e.live_guards - 1) as u64, ..e },
                    ),
                    ..self
                }
            }
        } else {
            self
        }
    }
}

/// An entry with a given hash is the only one: it is where `index_of` points.
pub proof fn lemma_index_unique(s: RegistryState, i: int, hash: Seq<u8>)
    requires
        s.wf(),
        0 <= i < s.pins.len(),
        s.pins[i].hash == hash,
    ensures
        s.holds(hash),
        s.index_of(hash) == i,
        s.entry(hash) == s.pins[i],
{
    let j = s.index_of(hash);
    assert(s.pins[j].hash == hash);
    if j < i {
        assert(s.pins[j].hash != s.pins[i].hash);
    } else if i < j {
        assert(s.pins[i].hash != s.pins[j].hash);
    }
}

/// The oldest `reclaimed` entries are evictable, and the next one is not.
pub proof fn lemma_reclaimed_run(s: RegistryState, from: int, now: u64)
    requires
        0 <= from <= s.pins.len(),
    ensures
        0 <= s.evictable_run(from, now) <= s.pins.len() - from,
        forall|i: int| from <= i < from + s.evictable_run(from, now) ==> s.evictable(i, now),
        from + s.evictable_run(from, now) < s.pins.len() ==> !s.evictable(
            from + s.evictable_run(from, now),
            now,
        ),
    decreases s.pins.len() - from,
{
    if from < s.pins.len() && s.evictable(from, now) {
        lemma_reclaimed_run(s, from + 1, now);
    }
}

/// A pin keeps the registry well formed.
pub proof fn lemma_pin_keeps_wf(s: RegistryState, hash: Seq<u8>, now: u64)
    requires
        s.wf(),
    ensures
        s.after_pin(hash, now).wf(),
{
    if s.pin_result(hash, now) is Ok {
        let k = s.reclaimed(now);
        lemma_reclaimed_run(s, 0, now);
        let t = s.after_pin(hash, now);
        assert forall|i: int, j: int| 0 <= i < j < t.pins.len() implies (#[trigger] t.pins[i]).hash
            != (#[trigger] t.pins[j]).hash by {
            assert(t.pins[i] == s.pins[i + k]);
            if j < t.pins.len() - 1 {
                assert(t.pins[j] == s.pins[j + k]);
            }
        }
        assert forall|i: int| 0 <= i < t.pins.len() && (#[trigger] t.pins[i]).unpinned implies t.pins[i].live_guards
            > 0 by {
            if i < t.pins.len() - 1 {
                assert(t.pins[i] == s.pins[i + k]);
            }
        }
    }
}

/// A lock keeps the registry well formed.
pub proof fn lemma_lock_keeps_wf(s: RegistryState, hash: Seq<u8>)
    requires
        s.wf(),
    ensures
        s.after_lock(hash).wf(),
{
    if s.lock_result(hash) is Ok {
        let t = s.after_lock(hash);
        let at = s.index_of(hash);
        assert forall|i: int, j: int| 0 <= i < j < t.pins.len() implies (#[trigger] t.pins[i]).hash
            != (#[trigger] t.pins[j]).hash by {
            assert(t.pins[i].hash == s.pins[i].hash);
            assert(t.pins[j].hash == s.pins[j].hash);
        }
        assert forall|i: int| 0 <= i < t.pins.len() && (#[trigger] t.pins[i]).unpinned implies t.pins[i].live_guards
            > 0 by {
            if i != at {
                assert(t.pins[i] == s.pins[i]);
            }
        }
    }
}

/// Taking one entry out keeps the registry well formed.
proof fn lemma_remove_keeps_wf(s: RegistryState, at: int)
    requires
        s.wf(),
        0 <= at < s.pins.len(),
    ensures
        (RegistryState { pins: s.pins.remove(at), ..s }).wf(),
{
    let t = RegistryState { pins: s.pins.remove(at), ..s };
    assert forall|i: int, j: int| 0 <= i < j < t.pins.len() implies (#[trigger] t.pins[i]).hash != (
    #[trigger] t.pins[j]).hash by {
        let a = if i < at { i } else { i + 1 };
        let b = if j < at { j } else { j + 1 };
        assert(t.pins[i] == s.pins[a]);
        assert(t.pins[j] == s.pins[b]);
    }
    assert forall|i: int| 0 <= i < t.pins.len() && (#[trigger] t.pins[i]).unpinned implies t.pins[i].live_guards
        > 0 by {
        let a = if i < at { i } else { i + 1 };
        assert(t.pins[i] == s.pins[a]);
    }
}

/// Replacing one entry by one of the same hash keeps the registry well
/// formed, if the new entry is itself in order.
proof fn lemma_update_keeps_wf(s: RegistryState, at: int, e: PinState)
    requires
        s.wf(),
        0 <= at < s.pins.len(),
        e.hash == s.pins[at].hash,
        e.unpinned ==> e.live_guards > 0,
    ensures
        (RegistryState { pins: s.pins.update(at, e), ..s }).wf(),
{
    let t = RegistryState { pins: s.pins.update(at, e), ..s };
    assert forall|i: int, j: int| 0 <= i < j < t.pins.len() implies (#[trigger] t.pins[i]).hash != (
    #[trigger] t.pins[j]).hash by {
        assert(t.pins[i].hash == s.pins[i].hash);
        assert(t.pins[j].hash == s.pins[j].hash);
    }
    assert forall|i: int| 0 <= i < t.pins.len() && (#[trigger] t.pins[i]).unpinned implies t.pins[i].live_guards
        > 0 by {
        if i != at {
            assert(t.pins[i] == s.pins[i]);
        }
    }
}

/// An unpin keeps the registry well formed.
pub proof fn lemma_unpin_keeps_wf(s: RegistryState, hash: Seq<u8>)
    requires
        s.wf(),
    ensures
        s.after_unpin(hash).wf(),
{
    if s.is_pinned(hash) {
        let at = s.index_of(hash);
        let e = s.entry(hash);
        if e.live_guards == 0 {
            lemma_remove_keeps_wf(s, at);
        } else {
            lemma_update_keeps_wf(s, at, PinState { unpinned: true, ..e });
        }
    }
}

/// A release keeps the registry well formed.
pub proof fn lemma_release_keeps_wf(s: RegistryState, hash: Seq<u8>)
    requires
        s.wf(),
    ensures
        s.after_release(hash).wf(),
{
    if s.holds(hash) && s.entry(hash).live_guards > 0 {
        let at = s.index_of(hash);
        let e = s.entry(hash);
        if e.live_guards == 1 && e.unpinned {
            lemma_remove_keeps_wf(s, at);
        } else {
            lemma_update_keeps_wf(s, at, PinState { live_guards: (e.live_guards - 1) as u64, ..e });
        }
    }
}

/// One pinned block.
struct PinEntry {
    hash: Vec<u8>,
    inserted_at: u64,
    live_guards: u64,
    unpinned: bool,
}

impl PinEntry {
    spec fn state(&self) -> PinState {
        PinState {
            hash: self.hash@,
            inserted_at: self.inserted_at,
            live_guards: self.live_guards,
            unpinned: self.unpinned,
        }
    }
}

/// The pinned blocks of one subscription.
pub struct BlockRegistry {
    entries: Vec<PinEntry>,
    max_count: usize,
    max_age: u64,
}

impl View for BlockRegistry {
    type V = RegistryState;

    closed spec fn view(&self) -> RegistryState {
        RegistryState {
            pins: Seq::new(self.entries@.len(), |i: int| self.entries@[i].state()),
            max_count: self.max_count,
            max_age: self.max_age,
        }
    }
}

impl BlockRegistry {
    /// The invariant of the registry, which every operation keeps.
    pub open spec fn wf(&self) -> bool {
        self@.wf()
    }

    /// A registry without entries that holds at most `max_count` blocks and
    /// lets none of them stand in the way for longer than `max_age`.
    pub fn new(max_count: usize, max_age: u64) -> (r: Self)
        ensures
            r.wf(),
            r@ == RegistryState::empty(max_count, max_age),
    {
        let r = BlockRegistry { entries: Vec::new(), max_count, max_age };
        assert(r@.pins =~= Seq::empty());
        r
    }

    /// Where the entry for `hash` stands.
    fn find(&self, hash: &Vec<u8>) -> (r: Option<usize>)
        requires
            self.wf(),
        ensures
            match r {
                Some(i) => i < self.entries.len() && self@.holds(hash@) && self@.index_of(hash@)
                    == i,
                None => !self@.holds(hash@),
            },
    {
        let mut i: usize = 0;
        while i < self.entries.len()
            invariant
                self.wf(),
                i <= self.entries.len(),
                forall|j: int| 0 <= j < i ==> (#[trigger] self@.pins[j]).hash != hash@,
            decreases self.entries.len() - i,
        {
            if same_bytes(&self.entries[i].hash, hash) {
                proof {
                    lemma_index_unique(self@, i as int, hash@);
                }
                return Some(i);
            }
            i += 1;
        }
        None
    }

    /// Whether the entry at `i` is over age at time `now`.
    fn expired_at(&self, i: usize, now: u64) -> (r: bool)
        requires
            i < self.entries.len(),
        ensures
            r == self@.expired(i as int, now),
    {
        let at: u64 = self.entries[i].inserted_at;
        now > at && now - at > self.max_age
    }

    /// Pins `hash` at time `now`.
    ///
    /// A hash that the registry already holds is refused. Otherwise the
    /// oldest entries that are over age and unguarded are given up. If the
    /// oldest entry that then remains is over age as well, a guard keeps it
    /// and the pin is refused; so it is if the registry is still full. A
    /// refused pin leaves the registry as it was.
    pub fn pin(&mut self, hash: Vec<u8>, now: u64) -> (r: Result<(), PinError>)
        requires
            old(self).wf(),
        ensures
            final(self).wf(),
            r == old(self)@.pin_result(hash@, now),
            final(self)@ == old(self)@.after_pin(hash@, now),
    {
        if self.find(&hash).is_some() {
            return Err(PinError::DuplicateHash);
        }
        let n: usize = self.entries.len();
        let mut k: usize = 0;
        let mut scanning: bool = true;
        while scanning && k < n
            invariant
                n == self.entries.len(),
                k <= n,
                self@.reclaimed(now) == k + self@.evictable_run(k as int, now),
                !scanning ==> self@.evictable_run(k as int, now) == 0,
            decreases (n - k) + (if scanning { 1int } else { 0int }),
        {
            if self.expired_at(k, now) && self.entries[k].live_guards == 0 {
                k += 1;
            } else {
                scanning = false;
            }
        }
        if k < n && self.expired_at(k, now) {
            return Err(PinError::LimitExceeded);
        }
        if n - k >= self.max_count {
            return Err(PinError::LimitExceeded);
        }
        let rest = self.entries.split_off(k);
        self.entries = rest;
        self.entries.push(PinEntry { hash, inserted_at: now, live_guards: 0, unpinned: false });
        proof {
            let before = old(self)@;
            let fresh = PinState { hash: hash@, inserted_at: now, live_guards: 0, unpinned: false };
            assert(self@.pins =~= before.pins.skip(k as int).push(fresh));
            lemma_pin_keeps_wf(before, hash@, now);
        }
        Ok(())
    }

    /// Puts one more guard on `hash`.
    ///
    /// Only a pinned hash can be locked: one that was never pinned, or was
    /// unpinned since, is absent.
    pub fn lock(&mut self, hash: &Vec<u8>) -> (r: Result<(), LockError>)
        requires
            old(self).wf(),
        ensures
            final(self).wf(),
            r == old(self)@.lock_result(hash@),
            final(self)@ == old(self)@.after_lock(hash@),
    {
        let i = match self.find(hash) {
            Some(i) => i,
            None => {
                return Err(LockError::Absent);
            },
        };
        if self.entries[i].unpinned {
            return Err(LockError::Absent);
        }
        if self.entries[i].live_guards == u64::MAX {
            return Err(LockError::GuardsExhausted);
        }
        self.entries[i].live_guards = self.entries[i].live_guards + 1;
        proof {
            let before = old(self)@;
            let e = before.entry(hash@);
            assert(self@.pins =~= before.pins.update(
                i as int,
                PinState { live_guards: (e.live_guards + 1) as u64, ..e },
            ));
            lemma_lock_keeps_wf(before, hash@);
        }
        Ok(())
    }

    /// Unpins `hash`.
    ///
    /// Without a guard on it the entry leaves at once. With guards alive it
    /// stays, no longer pinned, until the last of them is released. A hash
    /// that is not pinned is absent, whether or not an entry is still kept.
    pub fn unpin(&mut self, hash: &Vec<u8>) -> (r: Result<(), Absent>)
        requires
            old(self).wf(),
        ensures
            final(self).wf(),
            r == old(self)@.unpin_result(hash@),
            final(self)@ == old(self)@.after_unpin(hash@),
    {
        let i = match self.find(hash) {
            Some(i) => i,
            None => {
                return Err(Absent);
            },
        };
        if self.entries[i].unpinned {
            return Err(Absent);
        }
        if self.entries[i].live_guards == 0 {
            let _ = self.entries.remove(i);
            proof {
                assert(self@.pins =~= old(self)@.pins.remove(i as int));
            }
        } else {
            self.entries[i].unpinned = true;
            proof {
                let e = old(self)@.entry(hash@);
                assert(self@.pins =~= old(self)@.pins.update(i as int, PinState { unpinned: true, ..e }));
            }
        }
        proof {
            lemma_unpin_keeps_wf(old(self)@, hash@);
        }
        Ok(())
    }

    /// Gives back one guard on `hash`.
    ///
    /// The entry loses a guard, and leaves if that was its last and the
    /// block had been unpinned meanwhile. Where the registry holds no entry
    /// for `hash`, or none with a guard, nothing happens.
    pub fn release(&mut self, hash: &Vec<u8>)
        requires
            old(self).wf(),
        ensures
            final(self).wf(),
            final(self)@ == old(self)@.after_release(hash@),
    {
        let i = match self.find(hash) {
            Some(i) => i,
            None => {
                return ;
            },
        };
        let guards: u64 = self.entries[i].live_guards;
        if guards == 0 {
            return ;
        }
        if guards == 1 && self.entries[i].unpinned {
            let _ = self.entries.remove(i);
            proof {
                assert(self@.pins =~= old(self)@.pins.remove(i as int));
            }
        } else {
            self.entries[i].live_guards = guards - 1;
            proof {
                let e = old(self)@.entry(hash@);
                assert(self@.pins =~= old(self)@.pins.update(
                    i as int,
                    PinState { live_guards: (e.live_guards - 1) as u64, ..e },
                ));
            }
        }
        proof {
            lemma_release_keeps_wf(old(self)@, hash@);
        }
    }

    /// Whether an entry for `hash` is kept, pinned or not.
    pub fn contains(&self, hash: &Vec<u8>) -> (r: bool)
        requires
            self.wf(),
        ensures
            r == self@.holds(hash@),
    {
        self.find(hash).is_some()
    }

    /// Whether `hash` is pinned.
    pub fn is_pinned(&self, hash: &Vec<u8>) -> (r: bool)
        requires
            self.wf(),
        ensures
            r == self@.is_pinned(hash@),
    {
        match self.find(hash) {
            Some(i) => !self.entries[i].unpinned,
            None => false,
        }
    }

    /// How many guards are alive on `hash`, if an entry for it is kept.
    pub fn live_guards(&self, hash: &Vec<u8>) -> (r: Option<u64>)
        requires
            self.wf(),
        ensures
            r == if self@.holds(hash@) {
                Some(self@.entry(hash@).live_guards)
            } else {
                None
            },
    {
        match self.find(hash) {
            Some(i) => Some(self.entries[i].live_guards),
            None => None,
        }
    }

    /// How many entries are kept.
    pub fn len(&self) -> (r: usize)
        ensures
            r == self@.pins.len(),
    {
        self.entries.len()
    }

    /// The most entries the registry keeps.
    pub fn max_count(&self) -> (r: usize)
        ensures
            r == self@.max_count,
    {
        self.max_count
    }

    /// The age beyond which an entry stands in the way of a new pin.
    pub fn max_age(&self) -> (r: u64)
        ensures
            r == self@.max_age,
    {
        self.max_age
    }
}

} // verus!
