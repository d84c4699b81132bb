//! The driver of one follow subscription, as a state machine.
//!
//! The caller reads chain events from the backend and hands them in one by
//! one; each step pins what it announces and returns the events to put on
//! the subscription's sink, in order. Whatever ends the stream ends it with
//! a `Stop` event, and with the subscription removed from the table.

use vstd::prelude::*;
use crate::bytes::{copy_bytes, rows};
use crate::event::{events_of, FollowEvent, FollowEventState};
use crate::subscription::{StopReceiver, SubscriptionManagement, TableState};

verus! {

/// Where the driver stands.
#[derive(Debug, Clone, Copy, PartialEq, Eq, Structural)]
pub enum Phase {
    /// Nothing was announced yet.
    Starting,
    /// The stream is open.
    Running,
    /// `Stop` was emitted. Nothing follows.
    Stopped,
}

/// Why the driver stopped.
#[derive(Debug, Clone, Copy, PartialEq, Eq, Structural)]
pub enum StopReason {
    /// A block could not be pinned within the subscription's limits.
    Limit,
    /// The backend's stream of events failed, or broke its own order.
    Backend,
    /// The sink did not take an event in time.
    SlowConsumer,
    /// The stop signal had fired, or the caller asked the driver to stop.
    Cancelled,
}

/// What the backend reports to the driver.
#[derive(Debug, Clone, PartialEq, Eq)]
pub enum ChainEvent {
    /// The stream opens; this is the finalized head at that moment.
    Start {
        /// The finalized head.
        head: Vec<u8>,
    },
    /// A block was imported.
    NewBlock {
        /// The imported block.
        hash: Vec<u8>,
        /// Whether it is the best block now.
        is_best: bool,
    },
    /// Blocks were finalized.
    Finalized {
        /// The finalized blocks, oldest first.
        finalized: Vec<Vec<u8>>,
        /// The blocks of the forks that were pruned.
        pruned: Vec<Vec<u8>>,
    },
    /// The backend's stream failed.
    BackendError,
    /// The sink did not take an event within the time allowed.
    SinkCongested,
    /// The subscription is to end: its stop signal was seen, or the
    /// service shuts down.
    StopSignal,
}

/// A chain event as contracts see it.
pub enum ChainEventState {
    /// The stream opens.
    Start { head: Seq<u8> },
    /// A block was imported.
    NewBlock { hash: Seq<u8>, is_best: bool },
    /// Blocks were finalized.
    Finalized { finalized: Seq<Seq<u8>>, pruned: Seq<Seq<u8>> },
    /// The backend's stream failed.
    BackendError,
    /// The sink did not take an event in time.
    SinkCongested,
    /// The subscription is to end.
    StopSignal,
}

impl View for ChainEvent {
    type V = ChainEventState;

    open spec fn view(&self) -> ChainEventState {
        match *self {
            ChainEvent::Start { head } => ChainEventState::Start { head: head@ },
            ChainEvent::NewBlock { hash, is_best } => ChainEventState::NewBlock {
                hash: hash@,
                is_best,
            },
            ChainEvent::Finalized { finalized, pruned } => ChainEventState::Finalized {
                finalized: rows(finalized@),
                pruned: rows(pruned@),
            },
            ChainEvent::BackendError => ChainEventState::BackendError,
            ChainEvent::SinkCongested => ChainEventState::SinkCongested,
            ChainEvent::StopSignal => ChainEventState::StopSignal,
        }
    }
}

/// The driver as contracts see it.
pub struct FollowerState {
    /// The id of the subscription that is driven.
    pub id: Seq<char>,
    /// The serial of that subscription.
    pub serial: u64,
    /// Whether the subscription reports runtime updates.
    pub runtime_updates: bool,
    /// Where the driver stands.
    pub phase: Phase,
    /// Why it stopped, once it has.
    pub stop_reason: Option<StopReason>,
}

/// What one step of the driver leaves behind.
pub struct StepState {
    /// The table after the step.
    pub table: TableState,
    /// The driver after the step.
    pub follower: FollowerState,
    /// The events that the step emits, in order.
    pub events: Seq<FollowEventState>,
}

/// What the announcement of a list of blocks leaves behind.
pub struct Announced {
    /// The table after the blocks were pinned.
    pub table: TableState,
    /// One `NewBlock` for each block that was pinned, in order.
    pub events: Seq<FollowEventState>,
    /// Whether every block that had to be pinned was pinned.
    pub complete: bool,
}

/// Announces the blocks of `hashes` from `from` on that the subscription
/// `id` does not hold yet: each is pinned and gets a `NewBlock` event. The
/// first one that cannot be pinned ends the announcement.
pub open spec fn announce(t: TableState, id: Seq<char>, hashes: Seq<Seq<u8>>, from: int, now: u64) -> Announced
    decreases hashes.len() - from,
{
    if from < 0 || from >= hashes.len() {
        Announced { table: t, events: Seq::empty(), complete: true }
    } else if t.holds(id, hashes[from]) {
        announce(t, id, hashes, from + 1, now)
    } else if t.pin_block_result(id, hashes[from], now) is Ok {
        let rest = announce(t.after_pin_block(id, hashes[from], now), id, hashes, from + 1, now);
        Announced {
            table: rest.table,
            events: seq![FollowEventState::NewBlock { block_hash: hashes[from] }] + rest.events,
            complete: rest.complete,
        }
    } else {
        Announced { table: t, events: Seq::empty(), complete: false }
    }
}

/// The table after each of `hashes` from `from` on was unpinned on the
/// subscription `id`, as far as it was pinned.
pub open spec fn unpin_all(t: TableState, id: Seq<char>, hashes: Seq<Seq<u8>>, from: int) -> TableState
    decreases hashes.len() - from,
{
    if from < 0 || from >= hashes.len() {
        t
    } else {
        unpin_all(t.after_unpin_block(id, hashes[from]), id, hashes, from + 1)
    }
}

/// The driver stops: after the events in `events`, `Stop` is emitted, and
/// the subscription is removed from the table.
pub open spec fn stop(t: TableState, f: FollowerState, reason: StopReason, events: Seq<FollowEventState>) -> StepState {
    StepState {
        table: t.after_remove(f.id),
        follower: FollowerState { phase: Phase::Stopped, stop_reason: Some(reason), ..f },
        events: events.push(FollowEventState::Stop),
    }
}

/// One step of the driver: what the event `input`, met at time `now` with
/// the table `t`, makes of the table and the driver, and which events go
/// out.
///
/// A driver that has stopped does nothing. One whose stop signal has fired
/// emits `Stop` and nothing else. Otherwise the event decides: the start of
/// the stream announces the finalized head and opens the stream; an
/// imported block is pinned and announced, as the new best one too where it
/// is; finalized blocks that the subscription does not hold are pinned and
/// announced first, then the finalization itself, and the pruned blocks are
/// unpinned. A block that cannot be pinned, a failure of the backend, an
/// event out of turn, a congested sink and a stop signal each stop the
/// driver.
pub open spec fn driver_step(t: TableState, f: FollowerState, input: ChainEventState, now: u64) -> StepState {
    if f.phase is Stopped {
        StepState { table: t, follower: f, events: Seq::empty() }
    } else if t.stop_fired(f.id, f.serial) {
        StepState {
            table: t,
            follower: FollowerState {
                phase: Phase::Stopped,
                stop_reason: Some(StopReason::Cancelled),
                ..f
            },
            events: seq![FollowEventState::Stop],
        }
    } else {
        match input {
            ChainEventState::BackendError => stop(t, f, StopReason::Backend, Seq::empty()),
            ChainEventState::SinkCongested => stop(t, f, StopReason::SlowConsumer, Seq::empty()),
            ChainEventState::StopSignal => stop(t, f, StopReason::Cancelled, Seq::empty()),
            ChainEventState::Start { head } => if f.phase is Running {
                stop(t, f, StopReason::Backend, Seq::empty())
            } else {
                StepState {
                    table: t,
                    follower: FollowerState { phase: Phase::Running, ..f },
                    events: seq![FollowEventState::Initialized { finalized_block_hash: head }],
                }
            },
            ChainEventState::NewBlock { hash, is_best } => if f.phase is Starting {
                stop(t, f, StopReason::Backend, Seq::empty())
            } else if t.pin_block_result(f.id, hash, now) is Ok {
                StepState {
                    table: t.after_pin_block(f.id, hash, now),
                    follower: f,
                    events: if is_best {
                        seq![
                            FollowEventState::NewBlock { block_hash: hash },
                            FollowEventState::BestBlockChanged { best_block_hash: hash },
                        ]
                    } else {
                        seq![FollowEventState::NewBlock { block_hash: hash }]
                    },
                }
            } else {
                stop(t, f, StopReason::Limit, Seq::empty())
            },
            ChainEventState::Finalized { finalized, pruned } => if f.phase is Starting {
                stop(t, f, StopReason::Backend, Seq::empty())
            } else {
                let announced = announce(t, f.id, finalized, 0, now);
                if announced.complete {
                    StepState {
                        table: unpin_all(announced.table, f.id, pruned, 0),
                        follower: f,
                        events: announced.events.push(
                            FollowEventState::Finalized {
                                finalized_block_hashes: finalized,
                                pruned_block_hashes: pruned,
                            },
                        ),
                    }
                } else {
                    stop(announced.table, f, StopReason::Limit, announced.events)
                }
            },
        }
    }
}

/// The driver of one follow subscription.
#[derive(Debug)]
pub struct ChainHeadFollower {
    rx_stop: StopReceiver,
    runtime_updates: bool,
    phase: Phase,
    stop_reason: Option<StopReason>,
}

impl View for ChainHeadFollower {
    type V = FollowerState;

    closed spec fn view(&self) -> FollowerState {
        FollowerState {
            id: self.rx_stop.id(),
            serial: self.rx_stop.serial(),
            runtime_updates: self.runtime_updates,
            phase: self.phase,
            stop_reason: self.stop_reason,
        }
    }
}

impl ChainHeadFollower {
    /// The driver of the subscription whose stop signal `rx_stop` listens
    /// to, before anything was announced.
    pub fn new(rx_stop: StopReceiver, runtime_updates: bool) -> (r: Self)
        ensures
            r@ == (FollowerState {
                id: rx_stop.id(),
                serial: rx_stop.serial(),
                runtime_updates,
                phase: Phase::Starting,
                stop_reason: None,
            }),
    {
        ChainHeadFollower { rx_stop, runtime_updates, phase: Phase::Starting, stop_reason: None }
    }

    /// Where the driver stands.
    pub fn phase(&self) -> (r: Phase)
        ensures
            r == self@.phase,
    {
        self.phase
    }

    /// Why the driver stopped, once it has.
    pub fn stop_reason(&self) -> (r: Option<StopReason>)
        ensures
            r == self@.stop_reason,
    {
        self.stop_reason
    }

    /// Whether the subscription reports runtime updates.
    pub fn runtime_updates(&self) -> (r: bool)
        ensures
            r == self@.runtime_updates,
    {
        self.runtime_updates
    }

    /// The id of the subscription that is driven.
    pub fn subscription_id(&self) -> (r: &String)
        ensures
            r@ == self@.id,
    {
        self.rx_stop.subscription_id()
    }

    /// Whether the stop signal of the driven subscription has fired.
    pub fn is_cancelled(&self, subs: &SubscriptionManagement) -> (r: bool)
        requires
            subs.wf(),
        ensures
            r == subs@.stop_fired(self@.id, self@.serial),
    {
        subs.stop_fired(&self.rx_stop)
    }

    /// Stops the driver: `Stop` goes out after what `events` holds, and the
    /// subscription is removed from the table.
    fn halt(&mut self, subs: &mut SubscriptionManagement, reason: StopReason, events: &mut Vec<FollowEvent>)
        requires
            old(subs).wf(),
        ensures
            final(subs).wf(),
            final(subs)@ == old(subs)@.after_remove(old(self)@.id),
            final(self)@ == (FollowerState {
                phase: Phase::Stopped,
                stop_reason: Some(reason),
                ..old(self)@
            }),
            events_of(final(events)@) == events_of(old(events)@).push(FollowEventState::Stop),
    {
        let _ = subs.remove_subscription(self.rx_stop.subscription_id());
        self.phase = Phase::Stopped;
        self.stop_reason = Some(reason);
        events.push(FollowEvent::Stop);
        assert(events_of(events@) =~= events_of(old(events)@).push(FollowEventState::Stop));
    }

    /// Takes one event from the backend, met at time `now`, and returns the
    /// events to put on the sink, in this order. See [`driver_step`].
    pub fn step(&mut self, subs: &mut SubscriptionManagement, input: ChainEvent, now: u64) -> (events:
        Vec<FollowEvent>)
        requires
            old(subs).wf(),
        ensures
            final(subs).wf(),
            final(subs)@ == driver_step(old(subs)@, old(self)@, input@, now).table,
            final(self)@ == driver_step(old(subs)@, old(self)@, input@, now).follower,
            events_of(events@) == driver_step(old(subs)@, old(self)@, input@, now).events,
    {
        let mut events: Vec<FollowEvent> = Vec::new();
        assert(events_of(events@) =~= Seq::empty());
        if self.phase == Phase::Stopped {
            return events;
        }
        if subs.stop_fired(&self.rx_stop) {
            self.phase = Phase::Stopped;
            self.stop_reason = Some(StopReason::Cancelled);
            events.push(FollowEvent::Stop);
            assert(events_of(events@) =~= seq![FollowEventState::Stop]);
            return events;
        }
        let id = self.rx_stop.subscription_id().clone();
        match input {
            ChainEvent::BackendError => {
                self.halt(subs, StopReason::Backend, &mut events);
            },
            ChainEvent::SinkCongested => {
                self.halt(subs, StopReason::SlowConsumer, &mut events);
            },
            ChainEvent::StopSignal => {
                self.halt(subs, StopReason::Cancelled, &mut events);
            },
            ChainEvent::Start { head } => {
                if self.phase == Phase::Running {
                    self.halt(subs, StopReason::Backend, &mut events);
                } else {
                    self.phase = Phase::Running;
                    events.push(FollowEvent::Initialized { finalized_block_hash: head });
                    assert(events_of(events@) =~= seq![
                        FollowEventState::Initialized { finalized_block_hash: head@ },
                    ]);
                }
            },
            ChainEvent::NewBlock { hash, is_best } => {
                if self.phase == Phase::Starting {
                    self.halt(subs, StopReason::Backend, &mut events);
                } else {
                    match subs.pin_block(&id, copy_bytes(&hash), now) {
                        Ok(()) => {
                            if is_best {
                                events.push(FollowEvent::NewBlock { block_hash: copy_bytes(&hash) });
                                events.push(FollowEvent::BestBlockChanged { best_block_hash: hash });
                                assert(events_of(events@) =~= seq![
                                    FollowEventState::NewBlock { block_hash: hash@ },
                                    FollowEventState::BestBlockChanged { best_block_hash: hash@ },
                                ]);
                            } else {
                                events.push(FollowEvent::NewBlock { block_hash: hash });
                                assert(events_of(events@) =~= seq![
                                    FollowEventState::NewBlock { block_hash: hash@ },
                                ]);
                            }
                        },
                        Err(_) => {
                            self.halt(subs, StopReason::Limit, &mut events);
                        },
                    }
                }
            },
            ChainEvent::Finalized { finalized, pruned } => {
                if self.phase == Phase::Starting {
                    self.halt(subs, StopReason::Backend, &mut events);
                } else {
                    let complete = announce_blocks(subs, &id, &finalized, now, &mut events);
                    if complete {
                        unpin_blocks(subs, &id, &pruned);
                        events.push(
                            FollowEvent::Finalized {
                                finalized_block_hashes: finalized,
                                pruned_block_hashes: pruned,
                            },
                        );
                        assert(events_of(events@) =~= announce(
                            old(subs)@,
                            id@,
                            rows(finalized@),
                            0,
                            now,
                        ).events.push(
                            FollowEventState::Finalized {
                                finalized_block_hashes: rows(finalized@),
                                pruned_block_hashes: rows(pruned@),
                            },
                        ));
                    } else {
                        self.halt(subs, StopReason::Limit, &mut events);
                    }
                }
            },
        }
        events
    }
}

/// Pins and announces those of `hashes` that the subscription `id` does not
/// hold yet, until one cannot be pinned. Returns whether all were.
fn announce_blocks(
    subs: &mut SubscriptionManagement,
    id: &String,
    hashes: &Vec<Vec<u8>>,
    now: u64,
    events: &mut Vec<FollowEvent>,
) -> (complete: bool)
    requires
        old(subs).wf(),
        old(events)@.len() == 0,
    ensures
        final(subs).wf(),
        final(subs)@ == announce(old(subs)@, id@, rows(hashes@), 0, now).table,
        events_of(final(events)@) == announce(old(subs)@, id@, rows(hashes@), 0, now).events,
        complete == announce(old(subs)@, id@, rows(hashes@), 0, now).complete,
{
    let ghost whole = announce(old(subs)@, id@, rows(hashes@), 0, now);
    let ghost list = rows(hashes@);
    let mut complete: bool = true;
    let mut i: usize = 0;
    assert(events_of(events@) =~= Seq::empty());
    while complete && i < hashes.len()
        invariant
            subs.wf(),
            i <= hashes.len(),
            list == rows(hashes@),
            whole == announce(old(subs)@, id@, list, 0, now),
            complete ==> {
                let rest = announce(subs@, id@, list, i as int, now);
                &&& whole.table == rest.table
                &&& whole.complete == rest.complete
                &&& whole.events == events_of(events@) + rest.events
            },
            !complete ==> {
                &&& whole.table == subs@
                &&& !whole.complete
                &&& whole.events == events_of(events@)
            },
        decreases (hashes.len() - i) + (if complete { 1int } else { 0int }),
    {
        let ghost before = subs@;
        let ghost sent = events_of(events@);
        assert(list[i as int] == hashes[i as int]@);
        proof {
            subs.lemma_wf();
        }
        if subs.contains_block(id, &hashes[i]) {
            i += 1;
        } else {
            match subs.pin_block(id, copy_bytes(&hashes[i]), now) {
                Ok(()) => {
                    events.push(FollowEvent::NewBlock { block_hash: copy_bytes(&hashes[i]) });
                    proof {
                        let added = FollowEventState::NewBlock { block_hash: list[i as int] };
                        let rest = announce(subs@, id@, list, i + 1, now);
                        assert(events_of(events@) =~= sent.push(added));
                        assert(sent + (seq![added] + rest.events) =~= sent.push(added) + rest.events);
                    }
                    i += 1;
                },
                Err(_) => {
                    complete = false;
                    proof {
                        assert(sent + Seq::<FollowEventState>::empty() =~= sent);
                    }
                },
            }
        }
    }
    proof {
        if complete {
            assert(events_of(events@) + Seq::<FollowEventState>::empty() =~= events_of(events@));
        }
    }
    complete
}

/// Unpins each of `hashes` on the subscription `id`, as far as it is pinned.
fn unpin_blocks(subs: &mut SubscriptionManagement, id: &String, hashes: &Vec<Vec<u8>>)
    requires
        old(subs).wf(),
    ensures
        final(subs).wf(),
        final(subs)@ == unpin_all(old(subs)@, id@, rows(hashes@), 0),
{
    let ghost list = rows(hashes@);
    let mut i: usize = 0;
    while i < hashes.len()
        invariant
            subs.wf(),
            i <= hashes.len(),
            list == rows(hashes@),
            unpin_all(old(subs)@, id@, list, 0) == unpin_all(subs@, id@, list, i as int),
        decreases hashes.len() - i,
    {
        assert(list[i as int] == hashes[i as int]@);
        let _ = subs.unpin_block(id, &hashes[i]);
        i += 1;
    }
}

} // verus!
