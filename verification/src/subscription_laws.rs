//! What holds of the subscription table whatever is done with it.

use vstd::prelude::*;
use crate::error::SubscriptionManagementError;
use crate::registry::{
    lemma_lock_keeps_wf, lemma_pin_keeps_wf, lemma_release_keeps_wf, lemma_unpin_keeps_wf,
};
use crate::registry_laws::{
    law_guarded_entry_stays, law_lock_needs_pin, law_pinned_within_limit, law_unpin_settles,
};
use crate::subscription::{GuardState, TableState};

verus! {

/// Every operation of the table leaves it well formed.
pub proof fn law_table_stays_well_formed(
    t: TableState,
    id: Seq<char>,
    hash: Seq<u8>,
    flag: bool,
    now: u64,
    guard: GuardState,
)
    requires
        t.wf(),
    ensures
        t.after_insert(id, flag, now).wf(),
        t.after_remove(id).wf(),
        t.after_pin_block(id, hash, now).wf(),
        t.after_lock_block(id, hash).wf(),
        t.after_unpin_block(id, hash).wf(),
        t.after_release_block(guard).wf(),
{
    assert(t.after_insert(id, flag, now).wf()) by {
        let u = t.after_insert(id, flag, now);
        assert forall|other: Seq<char>| #[trigger] u.subs.dom().contains(other) implies {
            &&& u.subs[other].registry.wf()
            &&& u.subs[other].registry.max_count == u.max_pinned_blocks
            &&& u.subs[other].registry.max_age == u.max_pinned_duration
            &&& u.subs[other].serial < u.next_serial
        } by {
            if other != id {
                assert(t.subs.dom().contains(other));
            }
        }
    }
    assert(t.after_remove(id).wf()) by {
        let u = t.after_remove(id);
        assert forall|other: Seq<char>| #[trigger] u.subs.dom().contains(other) implies {
            &&& u.subs[other].registry.wf()
            &&& u.subs[other].registry.max_count == u.max_pinned_blocks
            &&& u.subs[other].registry.max_age == u.max_pinned_duration
            &&& u.subs[other].serial < u.next_serial
        } by {
            assert(t.subs.dom().contains(other));
        }
    }
    if t.has(id) {
        assert(t.subs.dom().contains(id));
        lemma_pin_keeps_wf(t.registry(id), hash, now);
        lemma_lock_keeps_wf(t.registry(id), hash);
        lemma_unpin_keeps_wf(t.registry(id), hash);
        lemma_with_registry_wf(t, id, t.registry(id).after_pin(hash, now));
        lemma_with_registry_wf(t, id, t.registry(id).after_lock(hash));
        lemma_with_registry_wf(t, id, t.registry(id).after_unpin(hash));
    }
    if t.attached(guard) {
        let gid = guard.subscription_id;
        assert(t.subs.dom().contains(gid));
        lemma_release_keeps_wf(t.registry(gid), guard.block_hash);
        lemma_with_registry_wf(t, gid, t.registry(gid).after_release(guard.block_hash));
    }
}

/// Giving a subscription another well-formed registry under the same limits
/// leaves the table well formed.
proof fn lemma_with_registry_wf(t: TableState, id: Seq<char>, registry: crate::registry::RegistryState)
    requires
        t.wf(),
        t.has(id),
        registry.wf(),
        registry.max_count == t.max_pinned_blocks,
        registry.max_age == t.max_pinned_duration,
    ensures
        t.with_registry(id, registry).wf(),
{
    let u = t.with_registry(id, registry);
    assert forall|other: Seq<char>| #[trigger] u.subs.dom().contains(other) implies {
        &&& u.subs[other].registry.wf()
        &&& u.subs[other].registry.max_count == u.max_pinned_blocks
        &&& u.subs[other].registry.max_age == u.max_pinned_duration
        &&& u.subs[other].serial < u.next_serial
    } by {
        assert(t.subs.dom().contains(other));
    }
}

/// No subscription of a well-formed table has more blocks pinned than the
/// table's limit allows.
pub proof fn law_subscription_within_limit(t: TableState, id: Seq<char>)
    requires
        t.wf(),
        t.has(id),
    ensures
        t.registry(id).pinned().finite(),
        t.registry(id).pinned().len() <= t.max_pinned_blocks,
{
    assert(t.subs.dom().contains(id));
    law_pinned_within_limit(t.registry(id));
}

/// A subscription that was inserted is there for whoever looks next, under
/// the flag it was made with and with nothing pinned.
pub proof fn law_inserted_subscription_is_seen(
    t: TableState,
    id: Seq<char>,
    flag: bool,
    now: u64,
    hash: Seq<u8>,
)
    requires
        t.wf(),
        t.can_insert(id),
    ensures
        t.after_insert(id, flag, now).has(id),
        t.after_insert(id, flag, now).subs[id].runtime_updates == flag,
        t.after_insert(id, flag, now).lock_block_result(id, hash) == Err::<
            GuardState,
            SubscriptionManagementError,
        >(SubscriptionManagementError::BlockHashAbsent),
        !t.after_insert(id, flag, now).stop_fired(id, t.next_serial),
{
    let u = t.after_insert(id, flag, now);
    assert(!u.registry(id).holds(hash));
}

/// Removal is idempotent, and it fires the stop signal: once a subscription
/// is removed, a second removal changes nothing, every request on its id
/// finds no subscription, and its stop signal has fired.
pub proof fn law_removal_is_final(t: TableState, id: Seq<char>, hash: Seq<u8>, serial: u64)
    ensures
        !t.after_remove(id).has(id),
        t.after_remove(id).after_remove(id) == t.after_remove(id),
        t.after_remove(id).lock_block_result(id, hash) == Err::<
            GuardState,
            SubscriptionManagementError,
        >(SubscriptionManagementError::SubscriptionAbsent),
        t.after_remove(id).unpin_block_result(id, hash) == Err::<(), SubscriptionManagementError>(
            SubscriptionManagementError::SubscriptionAbsent,
        ),
        t.after_remove(id).stop_fired(id, serial),
{
    assert(t.after_remove(id).subs.remove(id) =~= t.after_remove(id).subs);
}

/// A lock succeeds only on a block that its subscription has pinned at that
/// moment. The guard it returns belongs to that subscription, and the
/// block's entry counts one guard more than before.
pub proof fn law_lock_block_needs_pin(t: TableState, id: Seq<char>, hash: Seq<u8>)
    requires
        t.wf(),
        t.lock_block_result(id, hash) is Ok,
    ensures
        t.is_pinned(id, hash),
        t.registry(id).pinned().contains(hash),
        t.after_lock_block(id, hash).attached(t.lock_block_result(id, hash)->Ok_0),
        t.after_lock_block(id, hash).registry(id).holds(hash),
        t.after_lock_block(id, hash).registry(id).entry(hash).live_guards == t.registry(id).entry(
            hash,
        ).live_guards + 1,
{
    assert(t.subs.dom().contains(id));
    law_lock_needs_pin(t.registry(id), hash);
}

/// While a guard on a block is alive, the block's entry stays in the
/// registry of its subscription, with the guards it has, through every pin
/// and unpin on that subscription, through locks and releases on its other
/// blocks, and through whatever is done to other subscriptions. A lock on
/// the block itself adds a guard. Only the release of its own last guard,
/// or the removal of the whole subscription, lets the entry go.
pub proof fn law_guarded_block_stays(
    t: TableState,
    id: Seq<char>,
    guarded: Seq<u8>,
    other_id: Seq<char>,
    other: Seq<u8>,
    flag: bool,
    now: u64,
    guard: GuardState,
)
    requires
        t.wf(),
        t.live_guards(id, guarded) > 0,
    ensures
        t.after_pin_block(other_id, other, now).live_guards(id, guarded) == t.live_guards(
            id,
            guarded,
        ),
        t.after_unpin_block(other_id, other).live_guards(id, guarded) == t.live_guards(id, guarded),
        t.after_lock_block(other_id, other).live_guards(id, guarded) >= t.live_guards(id, guarded),
        !(other_id == id && other == guarded) ==> t.after_lock_block(other_id, other).live_guards(
            id,
            guarded,
        ) == t.live_guards(id, guarded),
        t.after_insert(other_id, flag, now).live_guards(id, guarded) == t.live_guards(id, guarded),
        other_id != id ==> t.after_remove(other_id).live_guards(id, guarded) == t.live_guards(
            id,
            guarded,
        ),
        !(guard.subscription_id == id && guard.block_hash == guarded) ==> t.after_release_block(
            guard,
        ).live_guards(id, guarded) == t.live_guards(id, guarded),
{
    assert(t.subs.dom().contains(id));
    let r = t.registry(id);
    law_guarded_entry_stays(r, guarded, other, now);
    if other_id == id && other == guarded {
        if r.lock_result(other) is Ok {
            law_lock_needs_pin(r, other);
        }
    }
    if guard.subscription_id == id && guard.block_hash != guarded {
        law_guarded_entry_stays(r, guarded, guard.block_hash, now);
    }
}

/// An unpin is idempotent in what later requests see. After an unpin that
/// succeeded, every lock and every further unpin of the same block on the
/// same subscription is answered with `BlockHashAbsent` and changes
/// nothing, however often they are tried.
pub proof fn law_unpin_block_settles(t: TableState, id: Seq<char>, hash: Seq<u8>)
    requires
        t.wf(),
        t.unpin_block_result(id, hash) is Ok,
    ensures
        t.after_unpin_block(id, hash).lock_block_result(id, hash) == Err::<
            GuardState,
            SubscriptionManagementError,
        >(SubscriptionManagementError::BlockHashAbsent),
        t.after_unpin_block(id, hash).after_lock_block(id, hash) == t.after_unpin_block(id, hash),
        t.after_unpin_block(id, hash).unpin_block_result(id, hash) == Err::<
            (),
            SubscriptionManagementError,
        >(SubscriptionManagementError::BlockHashAbsent),
        t.after_unpin_block(id, hash).after_unpin_block(id, hash) == t.after_unpin_block(id, hash),
{
    assert(t.subs.dom().contains(id));
    law_unpin_settles(t.registry(id), hash);
}

/// A guard whose subscription is gone is inert: its release changes
/// nothing, and no subscription made later, under whatever id, takes it
/// for one of its own.
pub proof fn law_detached_guard_is_inert(
    t: TableState,
    guard: GuardState,
    id: Seq<char>,
    flag: bool,
    now: u64,
)
    requires
        t.wf(),
        guard.serial < t.next_serial,
        !t.attached(guard),
    ensures
        t.after_release_block(guard) == t,
        !t.after_insert(id, flag, now).attached(guard),
        guard.serial < t.after_insert(id, flag, now).next_serial,
{
}

/// Giving a guard back undoes the lock that made it: after a lock that
/// succeeded and the release of its guard, the table is as it was.
pub proof fn law_release_block_undoes_lock(t: TableState, id: Seq<char>, hash: Seq<u8>)
    requires
        t.wf(),
        t.lock_block_result(id, hash) is Ok,
    ensures
        t.after_lock_block(id, hash).after_release_block(t.lock_block_result(id, hash)->Ok_0) == t,
{
    assert(t.subs.dom().contains(id));
    let r = t.registry(id);
    law_lock_needs_pin(r, hash);
    crate::registry_laws::law_release_undoes_lock(r, hash);
    let u = t.after_lock_block(id, hash);
    let g = t.lock_block_result(id, hash)->Ok_0;
    assert(u.release_counts(g));
    assert(u.after_release_block(g).subs =~= t.subs);
}

} // verus!
