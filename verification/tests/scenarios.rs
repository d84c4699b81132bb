use chain_head::chain_head::{ChainHead, FollowStep, HeaderStep, Step};
use chain_head::encoding::encode_extrinsics;
use chain_head::error::{ChainHeadRpcError, SubscriptionManagementError};
use chain_head::event::{ChainHeadEvent, ChainHeadResult, FollowEvent};
use chain_head::follow::{ChainEvent, ChainHeadFollower, Phase, StopReason};
use chain_head::hex::to_hex;
use chain_head::subscription::SubscriptionManagement;

fn h(n: u8) -> Vec<u8> {
    vec![n; 32]
}

fn id(s: &str) -> String {
    s.to_string()
}

fn follow(ch: &mut ChainHead, sub: &str, runtime_updates: bool) -> ChainHeadFollower {
    match ch.chain_head_unstable_follow(id(sub), runtime_updates, 0) {
        FollowStep::Drive(f) => f,
        FollowStep::Respond(_) => panic!("the id is free"),
    }
}

#[test]
fn happy_path_follow_and_body() {
    let mut ch = ChainHead::new(&h(0), 8, 60);
    let mut follower = follow(&mut ch, "sub", false);
    let ev = ch.follow_step(&mut follower, ChainEvent::Start { head: h(0) }, 0);
    assert_eq!(ev, vec![FollowEvent::Initialized { finalized_block_hash: h(0) }]);
    let ev = ch.follow_step(&mut follower, ChainEvent::NewBlock { hash: h(1), is_best: false }, 1);
    assert_eq!(ev, vec![FollowEvent::NewBlock { block_hash: h(1) }]);

    let extrinsics = vec![vec![0x11, 0x22, 0x33], vec![], vec![0x44]];
    let guard = match ch.chain_head_unstable_body(&id("sub"), &h(1)) {
        Step::Proceed(guard) => guard,
        other => panic!("{:?}", other),
    };
    let ev = ch.body_event(guard, Ok(Some(extrinsics.clone())));
    let expected = to_hex(&encode_extrinsics(&extrinsics).unwrap());
    assert_eq!(expected, "0x0c0c112233000444");
    assert_eq!(ev, ChainHeadEvent::Done(ChainHeadResult { result: expected }));

    assert_eq!(ch.chain_head_unstable_unpin(&id("sub"), &h(1)), Ok(()));
    match ch.chain_head_unstable_body(&id("sub"), &h(1)) {
        Step::Reject(e) => assert_eq!(e, ChainHeadRpcError::InvalidBlock),
        other => panic!("{:?}", other),
    }
}

#[test]
fn unknown_subscription() {
    let mut ch = ChainHead::new(&h(0), 8, 60);
    match ch.chain_head_unstable_body(&id("nonexistent"), &h(1)) {
        Step::Respond(ev) => assert_eq!(ev, ChainHeadEvent::Disjoint),
        other => panic!("{:?}", other),
    }
}

#[test]
fn unknown_block_in_known_subscription() {
    let mut ch = ChainHead::new(&h(0), 8, 60);
    let mut follower = follow(&mut ch, "S1", false);
    let _ = ch.follow_step(&mut follower, ChainEvent::Start { head: h(0) }, 0);
    let _ = ch.follow_step(&mut follower, ChainEvent::NewBlock { hash: h(1), is_best: true }, 1);
    match ch.chain_head_unstable_header(&id("S1"), &h(77)) {
        HeaderStep::Done(r) => assert_eq!(r, Err(ChainHeadRpcError::InvalidBlock)),
        other => panic!("{:?}", other),
    }
}

#[test]
fn runtime_flag_gating() {
    let mut ch = ChainHead::new(&h(0), 8, 60);
    let mut without = follow(&mut ch, "S", false);
    let _ = ch.follow_step(&mut without, ChainEvent::Start { head: h(0) }, 0);
    let _ = ch.follow_step(&mut without, ChainEvent::NewBlock { hash: h(1), is_best: true }, 1);
    match ch.chain_head_unstable_call(&id("S"), &h(1), &id("Core_version"), id("0x")) {
        Step::Reject(e) => assert_eq!(
            e,
            ChainHeadRpcError::InvalidParam("The runtime updates flag must be set".to_string())
        ),
        other => panic!("{:?}", other),
    }

    let mut with = follow(&mut ch, "S'", true);
    let _ = ch.follow_step(&mut with, ChainEvent::Start { head: h(0) }, 2);
    let _ = ch.follow_step(&mut with, ChainEvent::NewBlock { hash: h(1), is_best: true }, 3);
    let call = match ch.chain_head_unstable_call(&id("S'"), &h(1), &id("Core_version"), id("0x")) {
        Step::Proceed(call) => call,
        other => panic!("{:?}", other),
    };
    assert_eq!(call.call_parameters, Vec::<u8>::new());
    let result = vec![0x10, 0x20, 0x30];
    let ev = ch.call_event(call.guard, Ok(result.clone()));
    assert_eq!(ev, ChainHeadEvent::Done(ChainHeadResult { result: to_hex(&result) }));
    assert_eq!(to_hex(&result), "0x102030");
}

#[test]
fn limit_breach() {
    let mut t = SubscriptionManagement::new(2, 60);
    let rx = t.insert_subscription(id("S"), false, 0).unwrap();
    let mut follower = ChainHeadFollower::new(rx, false);
    let _ = follower.step(&mut t, ChainEvent::Start { head: h(0) }, 0);
    let ev = follower.step(&mut t, ChainEvent::NewBlock { hash: h(1), is_best: false }, 1);
    assert_eq!(ev, vec![FollowEvent::NewBlock { block_hash: h(1) }]);
    let ev = follower.step(&mut t, ChainEvent::NewBlock { hash: h(2), is_best: false }, 2);
    assert_eq!(ev, vec![FollowEvent::NewBlock { block_hash: h(2) }]);
    let ev = follower.step(&mut t, ChainEvent::NewBlock { hash: h(3), is_best: false }, 3);
    assert_eq!(ev, vec![FollowEvent::Stop]);
    assert_eq!(follower.phase(), Phase::Stopped);
    assert_eq!(follower.stop_reason(), Some(StopReason::Limit));
    assert_eq!(
        t.lock_block(&id("S"), &h(1)).unwrap_err(),
        SubscriptionManagementError::SubscriptionAbsent
    );
}

#[test]
fn pruned_body() {
    let mut ch = ChainHead::new(&h(0), 8, 60);
    let mut follower = follow(&mut ch, "sub", false);
    let _ = ch.follow_step(&mut follower, ChainEvent::Start { head: h(0) }, 0);
    let _ = ch.follow_step(&mut follower, ChainEvent::NewBlock { hash: h(1), is_best: true }, 1);
    let _ = ch.follow_step(&mut follower, ChainEvent::NewBlock { hash: h(2), is_best: true }, 2);
    let guard = match ch.chain_head_unstable_body(&id("sub"), &h(1)) {
        Step::Proceed(guard) => guard,
        other => panic!("{:?}", other),
    };
    let ev = ch.body_event(guard, Ok(None));
    assert_eq!(ev, ChainHeadEvent::Disjoint);
    for hash in [h(0), h(1), h(2), h(3)] {
        match ch.chain_head_unstable_body(&id("sub"), &hash) {
            Step::Respond(ev) => assert_eq!(ev, ChainHeadEvent::Disjoint),
            other => panic!("{:?}", other),
        }
    }
    // The driver learns of it at its next step.
    let ev = ch.follow_step(&mut follower, ChainEvent::NewBlock { hash: h(3), is_best: true }, 3);
    assert_eq!(ev, vec![FollowEvent::Stop]);
    assert_eq!(follower.stop_reason(), Some(StopReason::Cancelled));
}
