//! What holds of every request, whatever the table holds.

use vstd::prelude::*;
use crate::chain_head::{call_step, decisive_key, runtime_flag_text, storage_step, RuntimeCall, Step, StorageQuery};
use crate::event::is_done_with;
use crate::hex::param_bytes;
use crate::storage_keys::is_reserved;
use crate::subscription::{GuardState, TableState};

verus! {

/// Every step resolves the pending sink exactly once: it either accepts the
/// sink or rejects it, never both and never neither.
pub proof fn law_step_resolves_sink_once<W, T>(step: Step<W, T>)
    ensures
        step.accepts() != step.rejects(),
{
}

/// A storage request whose decisive key lies under a reserved prefix never
/// reaches the backend; on a block that is pinned it is answered with no
/// value.
pub proof fn law_reserved_key_is_never_queried(
    t: TableState,
    id: Seq<char>,
    hash: Seq<u8>,
    key: Seq<char>,
    child_key: Option<String>,
    r: Step<StorageQuery, Option<String>>,
)
    requires
        storage_step(t, id, hash, key, child_key, r),
        param_bytes(key) is Some,
        child_key matches Some(text) ==> param_bytes(text@) is Some,
        is_reserved(
            decisive_key(
                param_bytes(key)->0,
                match child_key {
                    Some(text) => Some(param_bytes(text@)->0),
                    None => None,
                },
            ),
        ),
    ensures
        !(r is Proceed),
        t.lock_block_result(id, hash) is Ok ==> (r matches Step::Respond(ev) && is_done_with(
            ev,
            None,
        )),
{
}

/// On a subscription that was made without runtime updates no runtime call
/// is ever made. Where the parameters decode and the block is pinned, the
/// sink is rejected with the words of [`runtime_flag_text`].
pub proof fn law_call_needs_runtime_flag(
    t: TableState,
    id: Seq<char>,
    hash: Seq<u8>,
    call_parameters: Seq<char>,
    r: Step<RuntimeCall, String>,
)
    requires
        t.has(id),
        !t.subs[id].runtime_updates,
        call_step(t, id, hash, call_parameters, r),
    ensures
        !(r is Proceed),
        param_bytes(call_parameters) is Some && t.lock_block_result(id, hash) is Ok ==> r.rejects_param(
            runtime_flag_text(),
        ),
{
}

/// The runtime-updates flag of a subscription is fixed when the
/// subscription is made: no pin, lock, unpin or release changes it, nor
/// does the making or the removal of another subscription.
pub proof fn law_runtime_flag_is_fixed(
    t: TableState,
    id: Seq<char>,
    other_id: Seq<char>,
    hash: Seq<u8>,
    flag: bool,
    now: u64,
    guard: GuardState,
)
    requires
        t.has(id),
    ensures
        t.after_pin_block(other_id, hash, now).has(id),
        t.after_pin_block(other_id, hash, now).subs[id].runtime_updates == t.subs[id].runtime_updates,
        t.after_lock_block(other_id, hash).has(id),
        t.after_lock_block(other_id, hash).subs[id].runtime_updates == t.subs[id].runtime_updates,
        t.after_unpin_block(other_id, hash).has(id),
        t.after_unpin_block(other_id, hash).subs[id].runtime_updates == t.subs[id].runtime_updates,
        t.after_release_block(guard).has(id),
        t.after_release_block(guard).subs[id].runtime_updates == t.subs[id].runtime_updates,
        t.after_insert(other_id, flag, now).has(id),
        t.after_insert(other_id, flag, now).subs[id].runtime_updates == t.subs[id].runtime_updates,
        other_id != id ==> t.after_remove(other_id).has(id) && t.after_remove(
            other_id,
        ).subs[id].runtime_updates == t.subs[id].runtime_updates,
{
}

} // verus!
