//! What holds of every run of a follow driver, whatever the backend reports
//! and whatever happens to the table between two steps.

use vstd::prelude::*;
use crate::event::FollowEventState;
use crate::follow::{announce, driver_step, unpin_all, ChainEventState, FollowerState};
use crate::registry::lemma_index_unique;
use crate::subscription::TableState;
use crate::subscription_laws::{law_guarded_block_stays, law_table_stays_well_formed};

verus! {

/// One round of a driver: the table as the driver finds it, the event that
/// the backend reports, and the time.
pub struct Round {
    /// The table at the start of the round.
    pub table: TableState,
    /// What the backend reports.
    pub input: ChainEventState,
    /// The time of the round.
    pub now: u64,
}

/// What a run leaves behind.
pub struct Run {
    /// The driver after the last round.
    pub follower: FollowerState,
    /// Every event that went out, in the order in which it was produced.
    pub events: Seq<FollowEventState>,
}

/// The run of a driver that starts as `f` through `rounds`. Between two
/// rounds the table may have changed in any way: each round brings its own.
pub open spec fn drive(f: FollowerState, rounds: Seq<Round>) -> Run
    decreases rounds.len(),
{
    if rounds.len() == 0 {
        Run { follower: f, events: Seq::empty() }
    } else {
        let earlier = drive(f, rounds.drop_last());
        let last = rounds.last();
        let s = driver_step(last.table, earlier.follower, last.input, last.now);
        Run { follower: s.follower, events: earlier.events + s.events }
    }
}

/// An announcement emits nothing but `NewBlock` events.
proof fn lemma_announce_emits_new_blocks(
    t: TableState,
    id: Seq<char>,
    hashes: Seq<Seq<u8>>,
    from: int,
    now: u64,
)
    ensures
        forall|i: int|
            0 <= i < announce(t, id, hashes, from, now).events.len() ==> (#[trigger] announce(
                t,
                id,
                hashes,
                from,
                now,
            ).events[i]) is NewBlock,
    decreases hashes.len() - from,
{
    if from < 0 || from >= hashes.len() {
    } else if t.holds(id, hashes[from]) {
        lemma_announce_emits_new_blocks(t, id, hashes, from + 1, now);
    } else if t.pin_block_result(id, hashes[from], now) is Ok {
        lemma_announce_emits_new_blocks(
            t.after_pin_block(id, hashes[from], now),
            id,
            hashes,
            from + 1,
            now,
        );
    }
}

/// In the events of one step, `Stop` can only be the last, and a step that
/// emits it leaves the driver stopped. A stopped driver emits nothing and
/// stays as it is.
pub proof fn law_step_stops_once(t: TableState, f: FollowerState, input: ChainEventState, now: u64)
    ensures
        forall|i: int|
            0 <= i < driver_step(t, f, input, now).events.len() && (#[trigger] driver_step(
                t,
                f,
                input,
                now,
            ).events[i]) is Stop ==> i == driver_step(t, f, input, now).events.len() - 1
                && driver_step(t, f, input, now).follower.phase is Stopped,
        f.phase is Stopped ==> driver_step(t, f, input, now).events.len() == 0 && driver_step(
            t,
            f,
            input,
            now,
        ).follower == f && driver_step(t, f, input, now).table == t,
{
    if let ChainEventState::Finalized { finalized, pruned } = input {
        lemma_announce_emits_new_blocks(t, f.id, finalized, 0, now);
    }
}

/// Once `Stop` has gone out, nothing goes out any more: in the events of a
/// whole run, whatever its rounds, `Stop` occurs at most once, as the last
/// event, and the driver is stopped from then on.
pub proof fn law_nothing_after_stop(f: FollowerState, rounds: Seq<Round>)
    ensures
        forall|i: int|
            0 <= i < drive(f, rounds).events.len() && (#[trigger] drive(f, rounds).events[i]) is Stop
                ==> i == drive(f, rounds).events.len() - 1 && drive(
                f,
                rounds,
            ).follower.phase is Stopped,
    decreases rounds.len(),
{
    if rounds.len() > 0 {
        let earlier = drive(f, rounds.drop_last());
        let last = rounds.last();
        law_nothing_after_stop(f, rounds.drop_last());
        law_step_stops_once(last.table, earlier.follower, last.input, last.now);
        let s = driver_step(last.table, earlier.follower, last.input, last.now);
        let all = drive(f, rounds).events;
        assert forall|i: int| 0 <= i < all.len() && (#[trigger] all[i]) is Stop implies i
            == all.len() - 1 && drive(f, rounds).follower.phase is Stopped by {
            if i < earlier.events.len() {
                assert(all[i] == earlier.events[i]);
                assert(earlier.follower.phase is Stopped);
            } else {
                assert(all[i] == s.events[i - earlier.events.len()]);
            }
        }
    }
}

/// Events go out in the order in which the driver produced them: what a
/// run emits through its first rounds comes first and unchanged, and what
/// the later rounds emit follows.
pub proof fn law_events_keep_their_order(f: FollowerState, first: Seq<Round>, then: Seq<Round>)
    ensures
        drive(f, first + then).follower == drive(drive(f, first).follower, then).follower,
        drive(f, first + then).events == drive(f, first).events + drive(
            drive(f, first).follower,
            then,
        ).events,
    decreases then.len(),
{
    if then.len() == 0 {
        assert(first + then =~= first);
        assert(drive(f, first).events + Seq::<FollowEventState>::empty() =~= drive(f, first).events);
    } else {
        let all = first + then;
        assert(all.drop_last() =~= first + then.drop_last());
        assert(all.last() == then.last());
        law_events_keep_their_order(f, first, then.drop_last());
        let mid = drive(f, first);
        let before = drive(mid.follower, then.drop_last());
        let last = then.last();
        let s = driver_step(last.table, before.follower, last.input, last.now);
        assert((mid.events + before.events) + s.events =~= mid.events + (before.events + s.events));
    }
}

/// A block is pinned when its announcement goes out: after a step that
/// announces an imported block, the subscription has that block pinned.
pub proof fn law_announced_block_is_pinned(
    t: TableState,
    f: FollowerState,
    hash: Seq<u8>,
    is_best: bool,
    now: u64,
)
    requires
        t.wf(),
        driver_step(t, f, ChainEventState::NewBlock { hash, is_best }, now).events.len() > 0,
        driver_step(t, f, ChainEventState::NewBlock { hash, is_best }, now).events[0] is NewBlock,
    ensures
        driver_step(t, f, ChainEventState::NewBlock { hash, is_best }, now).table.is_pinned(f.id, hash),
{
    assert(t.pin_block_result(f.id, hash, now) is Ok);
    assert(t.subs.dom().contains(f.id));
    let r = t.registry(f.id);
    let after = r.after_pin(hash, now);
    crate::registry::lemma_pin_keeps_wf(r, hash, now);
    assert(after.pins[after.pins.len() - 1].hash == hash);
    lemma_index_unique(after, after.pins.len() - 1, hash);
}

/// An announcement leaves the table well formed.
proof fn lemma_announce_keeps_wf(t: TableState, id: Seq<char>, hashes: Seq<Seq<u8>>, from: int, now: u64)
    requires
        t.wf(),
    ensures
        announce(t, id, hashes, from, now).table.wf(),
    decreases hashes.len() - from,
{
    if from < 0 || from >= hashes.len() {
    } else if t.holds(id, hashes[from]) {
        lemma_announce_keeps_wf(t, id, hashes, from + 1, now);
    } else if t.pin_block_result(id, hashes[from], now) is Ok {
        law_table_stays_well_formed(t, id, hashes[from], false, now, arbitrary());
        lemma_announce_keeps_wf(t.after_pin_block(id, hashes[from], now), id, hashes, from + 1, now);
    }
}

/// Unpinning a list of blocks leaves the table well formed.
proof fn lemma_unpin_all_keeps_wf(t: TableState, id: Seq<char>, hashes: Seq<Seq<u8>>, from: int)
    requires
        t.wf(),
    ensures
        unpin_all(t, id, hashes, from).wf(),
    decreases hashes.len() - from,
{
    if 0 <= from < hashes.len() {
        law_table_stays_well_formed(t, id, hashes[from], false, 0, arbitrary());
        lemma_unpin_all_keeps_wf(t.after_unpin_block(id, hashes[from]), id, hashes, from + 1);
    }
}

/// Every step of a driver leaves the table well formed, so that no
/// subscription ever has more blocks pinned than its limit allows.
pub proof fn law_step_keeps_table_well_formed(
    t: TableState,
    f: FollowerState,
    input: ChainEventState,
    now: u64,
)
    requires
        t.wf(),
    ensures
        driver_step(t, f, input, now).table.wf(),
{
    law_table_stays_well_formed(t, f.id, Seq::empty(), false, now, arbitrary());
    match input {
        ChainEventState::NewBlock { hash, is_best } => {
            law_table_stays_well_formed(t, f.id, hash, false, now, arbitrary());
        },
        ChainEventState::Finalized { finalized, pruned } => {
            lemma_announce_keeps_wf(t, f.id, finalized, 0, now);
            let announced = announce(t, f.id, finalized, 0, now);
            lemma_unpin_all_keeps_wf(announced.table, f.id, pruned, 0);
            law_table_stays_well_formed(announced.table, f.id, Seq::empty(), false, now, arbitrary());
        },
        _ => {},
    }
}

/// An announcement leaves every guarded block where it is.
proof fn lemma_announce_keeps_guarded(
    t: TableState,
    id: Seq<char>,
    hashes: Seq<Seq<u8>>,
    from: int,
    now: u64,
    of: Seq<char>,
    guarded: Seq<u8>,
)
    requires
        t.wf(),
        t.live_guards(of, guarded) > 0,
    ensures
        announce(t, id, hashes, from, now).table.live_guards(of, guarded) == t.live_guards(
            of,
            guarded,
        ),
    decreases hashes.len() - from,
{
    if from < 0 || from >= hashes.len() {
    } else if t.holds(id, hashes[from]) {
        lemma_announce_keeps_guarded(t, id, hashes, from + 1, now, of, guarded);
    } else if t.pin_block_result(id, hashes[from], now) is Ok {
        law_table_stays_well_formed(t, id, hashes[from], false, now, arbitrary());
        law_guarded_block_stays(t, of, guarded, id, hashes[from], false, now, arbitrary());
        lemma_announce_keeps_guarded(
            t.after_pin_block(id, hashes[from], now),
            id,
            hashes,
            from + 1,
            now,
            of,
            guarded,
        );
    }
}

/// Unpinning a list of blocks leaves every guarded block where it is.
proof fn lemma_unpin_all_keeps_guarded(
    t: TableState,
    id: Seq<char>,
    hashes: Seq<Seq<u8>>,
    from: int,
    of: Seq<char>,
    guarded: Seq<u8>,
)
    requires
        t.wf(),
        t.live_guards(of, guarded) > 0,
    ensures
        unpin_all(t, id, hashes, from).live_guards(of, guarded) == t.live_guards(of, guarded),
    decreases hashes.len() - from,
{
    if 0 <= from < hashes.len() {
        law_table_stays_well_formed(t, id, hashes[from], false, 0, arbitrary());
        law_guarded_block_stays(t, of, guarded, id, hashes[from], false, 0, arbitrary());
        lemma_unpin_all_keeps_guarded(
            t.after_unpin_block(id, hashes[from]),
            id,
            hashes,
            from + 1,
            of,
            guarded,
        );
    }
}

/// No step of a driver takes a guarded block out of a registry, short of
/// ending the subscription: a block with a live guard, on whatever
/// subscription, is kept with its guards through every step of every
/// driver, unless the step stops the driver of that very subscription.
pub proof fn law_step_keeps_guarded_blocks(
    t: TableState,
    f: FollowerState,
    input: ChainEventState,
    now: u64,
    of: Seq<char>,
    guarded: Seq<u8>,
)
    requires
        t.wf(),
        t.live_guards(of, guarded) > 0,
        of != f.id || !(driver_step(t, f, input, now).follower.phase is Stopped),
    ensures
        driver_step(t, f, input, now).table.live_guards(of, guarded) == t.live_guards(of, guarded),
{
    law_guarded_block_stays(t, of, guarded, f.id, guarded, false, now, arbitrary());
    match input {
        ChainEventState::NewBlock { hash, is_best } => {
            law_guarded_block_stays(t, of, guarded, f.id, hash, false, now, arbitrary());
        },
        ChainEventState::Finalized { finalized, pruned } => {
            lemma_announce_keeps_guarded(t, f.id, finalized, 0, now, of, guarded);
            lemma_announce_keeps_wf(t, f.id, finalized, 0, now);
            let announced = announce(t, f.id, finalized, 0, now);
            lemma_unpin_all_keeps_guarded(announced.table, f.id, pruned, 0, of, guarded);
            law_guarded_block_stays(announced.table, of, guarded, f.id, guarded, false, now, arbitrary());
        },
        _ => {},
    }
}

} // verus!
