//! What holds of a registry whatever is done with it.

use vstd::prelude::*;
use vstd::seq_lib::seq_to_set_is_finite;
use vstd::set_lib::lemma_len_subset;
use crate::registry::{lemma_index_unique, lemma_reclaimed_run, Absent, LockError, PinState, RegistryState};

verus! {

/// The pinned hashes of a well-formed registry are never more than its
/// limit allows.
pub proof fn law_pinned_within_limit(s: RegistryState)
    requires
        s.wf(),
    ensures
        s.pinned().finite(),
        s.pinned().len() <= s.pins.len() <= s.max_count,
{
    let hashes = s.pins.map_values(|p: PinState| p.hash);
    assert(s.pinned().subset_of(hashes.to_set())) by {
        assert forall|h: Seq<u8>| s.pinned().contains(h) implies hashes.to_set().contains(h) by {
            let i = s.index_of(h);
            assert(hashes[i] == h);
        }
    }
    seq_to_set_is_finite(hashes);
    hashes.lemma_cardinality_of_set();
    lemma_len_subset(s.pinned(), hashes.to_set());
}

/// A lock succeeds only on a hash that is pinned at that moment, and leaves
/// its entry with one guard more than before.
pub proof fn law_lock_needs_pin(s: RegistryState, hash: Seq<u8>)
    requires
        s.wf(),
        s.lock_result(hash) is Ok,
    ensures
        s.pinned().contains(hash),
        s.after_lock(hash).holds(hash),
        s.after_lock(hash).entry(hash).live_guards == s.entry(hash).live_guards + 1,
        s.after_lock(hash).pinned().contains(hash),
{
    let t = s.after_lock(hash);
    let at = s.index_of(hash);
    crate::registry::lemma_lock_keeps_wf(s, hash);
    assert(t.pins[at].hash == hash);
    lemma_index_unique(t, at, hash);
}

/// An entry with a live guard cannot be taken out of the registry by
/// anything but the release of its own last guard: it outlives every pin
/// (with what a pin reclaims), every lock, every unpin and every release of
/// a guard on another block, and its guards are counted as before.
pub proof fn law_guarded_entry_stays(s: RegistryState, guarded: Seq<u8>, other: Seq<u8>, now: u64)
    requires
        s.wf(),
        s.holds(guarded),
        s.entry(guarded).live_guards > 0,
    ensures
        s.after_pin(other, now).holds(guarded),
        s.after_pin(other, now).entry(guarded).live_guards == s.entry(guarded).live_guards,
        s.after_unpin(other).holds(guarded),
        s.after_unpin(other).entry(guarded).live_guards == s.entry(guarded).live_guards,
        other != guarded ==> s.after_lock(other).holds(guarded) && s.after_lock(other).entry(
            guarded,
        ).live_guards == s.entry(guarded).live_guards,
        other != guarded ==> s.after_release(other).holds(guarded) && s.after_release(other).entry(
            guarded,
        ).live_guards == s.entry(guarded).live_guards,
{
    let at = s.index_of(guarded);
    let e = s.pins[at];
    // pin
    crate::registry::lemma_pin_keeps_wf(s, other, now);
    if s.pin_result(other, now) is Ok {
        let k = s.reclaimed(now);
        lemma_reclaimed_run(s, 0, now);
        let t = s.after_pin(other, now);
        assert(at >= k) by {
            if at < k {
                assert(s.evictable(at, now));
            }
        }
        assert(t.pins[at - k] == e);
        lemma_index_unique(t, at - k, guarded);
    }
    // unpin
    crate::registry::lemma_unpin_keeps_wf(s, other);
    lemma_entry_survives_unpin(s, guarded, other);
    // lock
    crate::registry::lemma_lock_keeps_wf(s, other);
    if other != guarded {
        let t = s.after_lock(other);
        if s.lock_result(other) is Ok {
            let o = s.index_of(other);
            assert(o != at);
            assert(t.pins[at] == e);
        }
        lemma_index_unique(t, at, guarded);
    }
    // release
    crate::registry::lemma_release_keeps_wf(s, other);
    if other != guarded {
        lemma_entry_survives_removal_of_other(s, guarded, other);
    }
}

/// An unpin, of whatever hash, leaves a guarded entry in place with the
/// guards it had.
proof fn lemma_entry_survives_unpin(s: RegistryState, guarded: Seq<u8>, other: Seq<u8>)
    requires
        s.wf(),
        s.after_unpin(other).wf(),
        s.holds(guarded),
        s.entry(guarded).live_guards > 0,
    ensures
        s.after_unpin(other).holds(guarded),
        s.after_unpin(other).entry(guarded).live_guards == s.entry(guarded).live_guards,
{
    let at = s.index_of(guarded);
    let e = s.pins[at];
    let t = s.after_unpin(other);
    if s.is_pinned(other) {
        let o = s.index_of(other);
        let eo = s.entry(other);
        if eo.live_guards == 0 {
            assert(o != at);
            let to = if at < o { at } else { at - 1 };
            assert(t.pins[to] == e);
            lemma_index_unique(t, to, guarded);
        } else {
            assert(t.pins[at].hash == guarded);
            assert(t.pins[at].live_guards == e.live_guards);
            lemma_index_unique(t, at, guarded);
        }
    } else {
        lemma_index_unique(t, at, guarded);
    }
}

/// The release of a guard on another block leaves a guarded entry in place
/// with the guards it had.
proof fn lemma_entry_survives_removal_of_other(s: RegistryState, guarded: Seq<u8>, other: Seq<u8>)
    requires
        s.wf(),
        s.after_release(other).wf(),
        s.holds(guarded),
        other != guarded,
    ensures
        s.after_release(other).holds(guarded),
        s.after_release(other).entry(guarded) == s.entry(guarded),
{
    let at = s.index_of(guarded);
    let e = s.pins[at];
    let t = s.after_release(other);
    if s.holds(other) && s.entry(other).live_guards > 0 {
        let o = s.index_of(other);
        assert(o != at);
        let eo = s.entry(other);
        if eo.live_guards == 1 && eo.unpinned {
            let to = if at < o { at } else { at - 1 };
            assert(t.pins[to] == e);
            lemma_index_unique(t, to, guarded);
        } else {
            assert(t.pins[at] == e);
            lemma_index_unique(t, at, guarded);
        }
    } else {
        lemma_index_unique(t, at, guarded);
    }
}

/// The release of one guard takes exactly one guard off the entry, and the
/// entry leaves only with its last guard, and only if it was unpinned.
pub proof fn law_release_counts_down(s: RegistryState, hash: Seq<u8>)
    requires
        s.wf(),
        s.holds(hash),
        s.entry(hash).live_guards > 0,
    ensures
        s.after_release(hash).holds(hash) <==> !(s.entry(hash).live_guards == 1 && s.entry(
            hash,
        ).unpinned),
        s.after_release(hash).holds(hash) ==> s.after_release(hash).entry(hash).live_guards
            == s.entry(hash).live_guards - 1 && s.after_release(hash).entry(hash).unpinned
            == s.entry(hash).unpinned,
{
    let at = s.index_of(hash);
    let e = s.pins[at];
    let t = s.after_release(hash);
    crate::registry::lemma_release_keeps_wf(s, hash);
    if e.live_guards == 1 && e.unpinned {
        if t.holds(hash) {
            let j = t.index_of(hash);
            let back = if j < at { j } else { j + 1 };
            assert(t.pins[j] == s.pins[back]);
            assert(s.pins[back].hash == s.pins[at].hash);
            if back < at {
                assert(s.pins[back].hash != s.pins[at].hash);
            } else {
                assert(s.pins[at].hash != s.pins[back].hash);
            }
        }
    } else {
        assert(t.pins[at].hash == hash);
        lemma_index_unique(t, at, hash);
    }
}

/// After an unpin that succeeded the hash is no longer pinned: every later
/// lock and every later unpin of it finds it absent and changes nothing,
/// however often they are tried.
pub proof fn law_unpin_settles(s: RegistryState, hash: Seq<u8>)
    requires
        s.wf(),
        s.unpin_result(hash) is Ok,
    ensures
        !s.after_unpin(hash).is_pinned(hash),
        s.after_unpin(hash).lock_result(hash) == Err::<(), LockError>(LockError::Absent),
        s.after_unpin(hash).after_lock(hash) == s.after_unpin(hash),
        s.after_unpin(hash).unpin_result(hash) == Err::<(), Absent>(Absent),
        s.after_unpin(hash).after_unpin(hash) == s.after_unpin(hash),
{
    let at = s.index_of(hash);
    let e = s.pins[at];
    let t = s.after_unpin(hash);
    crate::registry::lemma_unpin_keeps_wf(s, hash);
    if e.live_guards == 0 {
        if t.holds(hash) {
            let j = t.index_of(hash);
            let back = if j < at { j } else { j + 1 };
            assert(t.pins[j] == s.pins[back]);
            if back < at {
                assert(s.pins[back].hash != s.pins[at].hash);
            } else {
                assert(s.pins[at].hash != s.pins[back].hash);
            }
        }
    } else {
        assert(t.pins[at].hash == hash);
        lemma_index_unique(t, at, hash);
    }
}

/// Whether the entries were pinned at times that never went backwards.
pub open spec fn chronological(s: RegistryState) -> bool {
    forall|i: int, j: int|
        0 <= i <= j < s.pins.len() ==> (#[trigger] s.pins[i]).inserted_at <= (
        #[trigger] s.pins[j]).inserted_at
}

/// A pin makes the age limit hard. After a pin that succeeded at time `now`
/// the oldest entry is within the limit; and where the entries were pinned
/// at times that never went backwards, and `now` is no earlier than the
/// last of them, every entry is within the limit and the order of times is
/// kept.
pub proof fn law_pin_enforces_age(s: RegistryState, hash: Seq<u8>, now: u64)
    requires
        s.wf(),
        s.pin_result(hash, now) is Ok,
    ensures
        !s.after_pin(hash, now).expired(0, now),
        chronological(s) && (s.pins.len() > 0 ==> s.pins.last().inserted_at <= now) ==> chronological(
            s.after_pin(hash, now),
        ) && forall|i: int|
            0 <= i < s.after_pin(hash, now).pins.len() ==> !s.after_pin(hash, now).expired(i, now),
{
    let k = s.reclaimed(now);
    let t = s.after_pin(hash, now);
    lemma_reclaimed_run(s, 0, now);
    if k < s.pins.len() {
        assert(t.pins[0] == s.pins[k]);
    }
    if chronological(s) && (s.pins.len() > 0 ==> s.pins.last().inserted_at <= now) {
        assert forall|i: int, j: int| 0 <= i <= j < t.pins.len() implies (
        #[trigger] t.pins[i]).inserted_at <= (#[trigger] t.pins[j]).inserted_at by {
            if j < t.pins.len() - 1 {
                assert(t.pins[i] == s.pins[i + k]);
                assert(t.pins[j] == s.pins[j + k]);
            } else if i < j {
                assert(t.pins[i] == s.pins[i + k]);
                assert(s.pins[i + k].inserted_at <= s.pins[s.pins.len() - 1].inserted_at);
            }
        }
        assert forall|i: int| 0 <= i < t.pins.len() implies !t.expired(i, now) by {
            if i < t.pins.len() - 1 {
                assert(t.pins[i] == s.pins[i + k]);
                assert(s.pins[k].inserted_at <= s.pins[i + k].inserted_at);
            }
        }
    }
}

/// Giving a guard back undoes the lock that made it: after a lock that
/// succeeded and the release of its guard, the registry is as it was.
pub proof fn law_release_undoes_lock(s: RegistryState, hash: Seq<u8>)
    requires
        s.wf(),
        s.lock_result(hash) is Ok,
    ensures
        s.after_lock(hash).after_release(hash) == s,
{
    let at = s.index_of(hash);
    let t = s.after_lock(hash);
    crate::registry::lemma_lock_keeps_wf(s, hash);
    assert(t.pins[at].hash == hash);
    lemma_index_unique(t, at, hash);
    assert(t.after_release(hash).pins =~= s.pins);
}

} // verus!
