use chain_head::chain_head::{ChainHead, FollowStep, HeaderStep, Step};
use chain_head::error::ChainHeadRpcError;
use chain_head::event::{ChainHeadEvent, ChainHeadResult, ErrorEvent, FollowEvent};
use chain_head::follow::{ChainEvent, ChainHeadFollower};

fn h(n: u8) -> Vec<u8> {
    vec![n; 32]
}

fn id(s: &str) -> String {
    s.to_string()
}

/// A service with the subscription `s` that has the block `h(1)` pinned.
fn service(runtime_updates: bool) -> (ChainHead, ChainHeadFollower) {
    let mut ch = ChainHead::new(&vec![0xaa, 0xbb], 4, 60);
    let mut follower = match ch.chain_head_unstable_follow(id("s"), runtime_updates, 0) {
        FollowStep::Drive(f) => f,
        FollowStep::Respond(_) => panic!("the id is free"),
    };
    let _ = ch.follow_step(&mut follower, ChainEvent::Start { head: h(0) }, 0);
    let ev = ch.follow_step(&mut follower, ChainEvent::NewBlock { hash: h(1), is_best: true }, 1);
    assert_eq!(ev.len(), 2);
    (ch, follower)
}

fn guards(ch: &ChainHead, hash: &Vec<u8>) -> Option<u64> {
    ch.subscriptions().live_guards(&id("s"), hash)
}

#[test]
fn genesis_hash_is_kept_in_wire_form() {
    let ch = ChainHead::new(&vec![0x01, 0xfe], 4, 60);
    assert_eq!(ch.chain_head_unstable_genesis_hash(), Ok("0x01fe".to_string()));
    let ch = ChainHead::new(&vec![], 4, 60);
    assert_eq!(ch.chain_head_unstable_genesis_hash(), Ok("0x".to_string()));
}

#[test]
fn new_service_has_the_limits_it_was_made_with() {
    let ch = ChainHead::new(&vec![1], 7, 90);
    assert_eq!(ch.subscriptions().max_pinned_blocks(), 7);
    assert_eq!(ch.subscriptions().max_pinned_duration(), 90);
    assert!(!ch.subscriptions().contains_subscription(&id("s")));
}

#[test]
fn follow_enters_the_subscription() {
    let (ch, follower) = service(true);
    assert!(ch.subscriptions().contains_subscription(&id("s")));
    assert!(follower.runtime_updates());
    assert_eq!(follower.subscription_id(), "s");
}

#[test]
fn follow_under_a_used_id_closes_with_stop() {
    let (mut ch, _follower) = service(true);
    match ch.chain_head_unstable_follow(id("s"), false, 5) {
        FollowStep::Respond(ev) => assert_eq!(ev, FollowEvent::Stop),
        FollowStep::Drive(_) => panic!("the id is in use"),
    }
    assert!(ch.subscriptions().is_pinned(&id("s"), &h(1)));
}

#[test]
fn body_of_a_pinned_block_is_sent_encoded() {
    let (mut ch, _f) = service(false);
    let guard = match ch.chain_head_unstable_body(&id("s"), &h(1)) {
        Step::Proceed(guard) => guard,
        other => panic!("{:?}", other),
    };
    assert_eq!(guards(&ch, &h(1)), Some(1));
    let ev = ch.body_event(guard, Ok(Some(vec![vec![1, 2], vec![3]])));
    assert_eq!(
        ev,
        ChainHeadEvent::Done(ChainHeadResult { result: "0x080801020403".to_string() })
    );
    assert_eq!(guards(&ch, &h(1)), Some(0));
    assert!(ch.subscriptions().is_pinned(&id("s"), &h(1)));
}

#[test]
fn body_of_a_block_without_extrinsics_is_the_empty_list() {
    let (mut ch, _f) = service(false);
    let guard = match ch.chain_head_unstable_body(&id("s"), &h(1)) {
        Step::Proceed(guard) => guard,
        other => panic!("{:?}", other),
    };
    let ev = ch.body_event(guard, Ok(Some(vec![])));
    assert_eq!(ev, ChainHeadEvent::Done(ChainHeadResult { result: "0x00".to_string() }));
}

#[test]
fn body_on_unknown_subscription_is_disjoint_on_an_accepted_sink() {
    let (mut ch, _f) = service(false);
    match ch.chain_head_unstable_body(&id("nonexistent"), &h(1)) {
        Step::Respond(ev) => assert_eq!(ev, ChainHeadEvent::Disjoint),
        other => panic!("{:?}", other),
    }
}

#[test]
fn body_of_an_unpinned_block_rejects_the_sink() {
    let (mut ch, _f) = service(false);
    match ch.chain_head_unstable_body(&id("s"), &h(9)) {
        Step::Reject(e) => assert_eq!(e, ChainHeadRpcError::InvalidBlock),
        other => panic!("{:?}", other),
    }
    assert_eq!(guards(&ch, &h(9)), None);
}

#[test]
fn body_that_was_pruned_ends_the_subscription() {
    let (mut ch, _f) = service(false);
    let guard = match ch.chain_head_unstable_body(&id("s"), &h(1)) {
        Step::Proceed(guard) => guard,
        other => panic!("{:?}", other),
    };
    let ev = ch.body_event(guard, Ok(None));
    assert_eq!(ev, ChainHeadEvent::Disjoint);
    assert!(!ch.subscriptions().contains_subscription(&id("s")));
}

#[test]
fn body_backend_failure_is_an_error_event_and_the_subscription_stays() {
    let (mut ch, _f) = service(false);
    let guard = match ch.chain_head_unstable_body(&id("s"), &h(1)) {
        Step::Proceed(guard) => guard,
        other => panic!("{:?}", other),
    };
    let ev = ch.body_event(guard, Err("database is closed".to_string()));
    assert_eq!(ev, ChainHeadEvent::Error(ErrorEvent { error: "database is closed".to_string() }));
    assert!(ch.subscriptions().is_pinned(&id("s"), &h(1)));
    assert_eq!(guards(&ch, &h(1)), Some(0));
}

#[test]
fn header_of_a_pinned_block_is_sent_in_wire_form() {
    let (mut ch, _f) = service(false);
    let guard = match ch.chain_head_unstable_header(&id("s"), &h(1)) {
        HeaderStep::Fetch(guard) => guard,
        other => panic!("{:?}", other),
    };
    assert_eq!(guards(&ch, &h(1)), Some(1));
    assert_eq!(
        ch.header_response(guard, Ok(Some(vec![0xde, 0xad]))),
        Ok(Some("0xdead".to_string()))
    );
    assert_eq!(guards(&ch, &h(1)), Some(0));
}

#[test]
fn header_that_the_backend_lacks_is_none_and_no_error() {
    let (mut ch, _f) = service(false);
    let guard = match ch.chain_head_unstable_header(&id("s"), &h(1)) {
        HeaderStep::Fetch(guard) => guard,
        other => panic!("{:?}", other),
    };
    assert_eq!(ch.header_response(guard, Ok(None)), Ok(None));
}

#[test]
fn header_backend_failure_is_fetch_block_header() {
    let (mut ch, _f) = service(false);
    let guard = match ch.chain_head_unstable_header(&id("s"), &h(1)) {
        HeaderStep::Fetch(guard) => guard,
        other => panic!("{:?}", other),
    };
    assert_eq!(
        ch.header_response(guard, Err("no such column".to_string())),
        Err(ChainHeadRpcError::FetchBlockHeader("no such column".to_string()))
    );
    assert_eq!(guards(&ch, &h(1)), Some(0));
}

#[test]
fn header_of_an_unrelated_block_is_invalid_block() {
    let (mut ch, _f) = service(false);
    match ch.chain_head_unstable_header(&id("s"), &h(9)) {
        HeaderStep::Done(r) => assert_eq!(r, Err(ChainHeadRpcError::InvalidBlock)),
        other => panic!("{:?}", other),
    }
}

#[test]
fn header_on_unknown_subscription_is_none() {
    let (mut ch, _f) = service(false);
    match ch.chain_head_unstable_header(&id("gone"), &h(1)) {
        HeaderStep::Done(r) => assert_eq!(r, Ok(None)),
        other => panic!("{:?}", other),
    }
}

#[test]
fn storage_query_proceeds_with_the_parsed_keys() {
    let (mut ch, _f) = service(false);
    let query = match ch.chain_head_unstable_storage(&id("s"), &h(1), id("0x3a636f6465"), None) {
        Step::Proceed(query) => query,
        other => panic!("{:?}", other),
    };
    assert_eq!(query.key, b":code".to_vec());
    assert_eq!(query.child_key, None);
    assert_eq!(guards(&ch, &h(1)), Some(1));
    let ev = ch.storage_event(query.guard, Ok(Some(vec![0x01, 0x02])));
    assert_eq!(ev, ChainHeadEvent::Done(ChainHeadResult { result: Some("0x0102".to_string()) }));
    assert_eq!(guards(&ch, &h(1)), Some(0));
}

#[test]
fn storage_query_in_a_child_trie_carries_the_child_key() {
    let (mut ch, _f) = service(false);
    let query =
        match ch.chain_head_unstable_storage(&id("s"), &h(1), id("0x0a"), Some(id("0x6162"))) {
            Step::Proceed(query) => query,
            other => panic!("{:?}", other),
        };
    assert_eq!(query.key, vec![0x0a]);
    assert_eq!(query.child_key, Some(b"ab".to_vec()));
    let ev = ch.storage_event(query.guard, Ok(None));
    assert_eq!(ev, ChainHeadEvent::Done(ChainHeadResult { result: None }));
}

#[test]
fn storage_backend_failure_is_an_error_event() {
    let (mut ch, _f) = service(false);
    let query = match ch.chain_head_unstable_storage(&id("s"), &h(1), id("0x0a"), None) {
        Step::Proceed(query) => query,
        other => panic!("{:?}", other),
    };
    let ev = ch.storage_event(query.guard, Err("trie is broken".to_string()));
    assert_eq!(ev, ChainHeadEvent::Error(ErrorEvent { error: "trie is broken".to_string() }));
    assert!(ch.subscriptions().contains_subscription(&id("s")));
}

#[test]
fn storage_under_a_reserved_key_is_null_without_a_query() {
    let (mut ch, _f) = service(false);
    // ":child_storage:" and ":child_storage:default:ab" as main keys
    for key in [
        "0x3a6368696c645f73746f726167653a",
        "0x3a6368696c645f73746f726167653a64656661756c743a6162",
    ] {
        match ch.chain_head_unstable_storage(&id("s"), &h(1), id(key), None) {
            Step::Respond(ev) => {
                assert_eq!(ev, ChainHeadEvent::Done(ChainHeadResult { result: None }))
            },
            other => panic!("{:?}", other),
        }
        assert_eq!(guards(&ch, &h(1)), Some(0));
    }
}

#[test]
fn storage_under_a_reserved_child_key_is_null_without_a_query() {
    let (mut ch, _f) = service(false);
    match ch.chain_head_unstable_storage(
        &id("s"),
        &h(1),
        id("0x0a"),
        Some(id("0x3a6368696c645f73746f726167653a64656661756c743a")),
    ) {
        Step::Respond(ev) => assert_eq!(ev, ChainHeadEvent::Done(ChainHeadResult { result: None })),
        other => panic!("{:?}", other),
    }
    assert_eq!(guards(&ch, &h(1)), Some(0));
}

#[test]
fn storage_with_a_child_key_does_not_judge_the_main_key() {
    let (mut ch, _f) = service(false);
    match ch.chain_head_unstable_storage(
        &id("s"),
        &h(1),
        id("0x3a6368696c645f73746f726167653a"),
        Some(id("0x6162")),
    ) {
        Step::Proceed(query) => ch.release(query.guard),
        other => panic!("{:?}", other),
    }
    assert_eq!(guards(&ch, &h(1)), Some(0));
}

#[test]
fn storage_with_a_malformed_key_rejects_before_any_lookup() {
    let (mut ch, _f) = service(false);
    match ch.chain_head_unstable_storage(&id("gone"), &h(1), id("0xzz"), Some(id("0xyy"))) {
        Step::Reject(e) => assert_eq!(e, ChainHeadRpcError::InvalidParam("0xzz".to_string())),
        other => panic!("{:?}", other),
    }
    match ch.chain_head_unstable_storage(&id("s"), &h(1), id("0x0a"), Some(id("0xyy"))) {
        Step::Reject(e) => assert_eq!(e, ChainHeadRpcError::InvalidParam("0xyy".to_string())),
        other => panic!("{:?}", other),
    }
    assert_eq!(guards(&ch, &h(1)), Some(0));
}

#[test]
fn storage_with_an_empty_key_reads_the_empty_key() {
    let (mut ch, _f) = service(false);
    match ch.chain_head_unstable_storage(&id("s"), &h(1), String::new(), None) {
        Step::Proceed(query) => {
            assert_eq!(query.key, Vec::<u8>::new());
            ch.release(query.guard);
        },
        other => panic!("{:?}", other),
    }
}

#[test]
fn storage_on_unknown_subscription_or_block() {
    let (mut ch, _f) = service(false);
    match ch.chain_head_unstable_storage(&id("gone"), &h(1), id("0x0a"), None) {
        Step::Respond(ev) => assert_eq!(ev, ChainHeadEvent::Disjoint),
        other => panic!("{:?}", other),
    }
    match ch.chain_head_unstable_storage(&id("s"), &h(9), id("0x0a"), None) {
        Step::Reject(e) => assert_eq!(e, ChainHeadRpcError::InvalidBlock),
        other => panic!("{:?}", other),
    }
    // A reserved key does not hide that the subscription is gone.
    match ch.chain_head_unstable_storage(
        &id("gone"),
        &h(1),
        id("0x3a6368696c645f73746f726167653a"),
        None,
    ) {
        Step::Respond(ev) => assert_eq!(ev, ChainHeadEvent::Disjoint),
        other => panic!("{:?}", other),
    }
}

#[test]
fn call_without_the_runtime_flag_is_rejected_whatever_the_function() {
    let (mut ch, _f) = service(false);
    for function in ["Core_version", "Metadata_metadata", "", "no such function"] {
        match ch.chain_head_unstable_call(&id("s"), &h(1), &id(function), id("0x")) {
            Step::Reject(e) => assert_eq!(
                e,
                ChainHeadRpcError::InvalidParam("The runtime updates flag must be set".to_string())
            ),
            other => panic!("{:?}", other),
        }
        assert_eq!(guards(&ch, &h(1)), Some(0));
    }
}

#[test]
fn call_with_the_runtime_flag_proceeds_and_returns_the_result() {
    let (mut ch, _f) = service(true);
    let call = match ch.chain_head_unstable_call(&id("s"), &h(1), &id("Core_version"), id("0x0102"))
    {
        Step::Proceed(call) => call,
        other => panic!("{:?}", other),
    };
    assert_eq!(call.call_parameters, vec![1, 2]);
    assert!(call.guard.has_runtime());
    assert_eq!(guards(&ch, &h(1)), Some(1));
    let ev = ch.call_event(call.guard, Ok(vec![0xca, 0xfe]));
    assert_eq!(ev, ChainHeadEvent::Done(ChainHeadResult { result: "0xcafe".to_string() }));
    assert_eq!(guards(&ch, &h(1)), Some(0));
}

#[test]
fn call_failure_is_an_error_event() {
    let (mut ch, _f) = service(true);
    let call = match ch.chain_head_unstable_call(&id("s"), &h(1), &id("f"), String::new()) {
        Step::Proceed(call) => call,
        other => panic!("{:?}", other),
    };
    assert_eq!(call.call_parameters, Vec::<u8>::new());
    let ev = ch.call_event(call.guard, Err("runtime trapped".to_string()));
    assert_eq!(ev, ChainHeadEvent::Error(ErrorEvent { error: "runtime trapped".to_string() }));
}

#[test]
fn call_with_malformed_parameters_is_rejected_first() {
    let (mut ch, _f) = service(false);
    match ch.chain_head_unstable_call(&id("gone"), &h(9), &id("f"), id("0x1")) {
        Step::Reject(e) => assert_eq!(e, ChainHeadRpcError::InvalidParam("0x1".to_string())),
        other => panic!("{:?}", other),
    }
}

#[test]
fn call_on_unknown_subscription_or_block() {
    let (mut ch, _f) = service(false);
    match ch.chain_head_unstable_call(&id("gone"), &h(1), &id("f"), id("0x")) {
        Step::Respond(ev) => assert_eq!(ev, ChainHeadEvent::Disjoint),
        other => panic!("{:?}", other),
    }
    match ch.chain_head_unstable_call(&id("s"), &h(9), &id("f"), id("0x")) {
        Step::Reject(e) => assert_eq!(e, ChainHeadRpcError::InvalidBlock),
        other => panic!("{:?}", other),
    }
}

#[test]
fn unpin_releases_the_block() {
    let (mut ch, _f) = service(false);
    assert_eq!(ch.chain_head_unstable_unpin(&id("s"), &h(1)), Ok(()));
    assert!(!ch.subscriptions().contains_block(&id("s"), &h(1)));
}

#[test]
fn unpin_on_a_vanished_subscription_is_a_no_op() {
    let (mut ch, _f) = service(false);
    assert_eq!(ch.chain_head_unstable_unpin(&id("gone"), &h(1)), Ok(()));
    assert!(ch.subscriptions().is_pinned(&id("s"), &h(1)));
}

#[test]
fn unpin_of_an_unknown_block_is_invalid_block() {
    let (mut ch, _f) = service(false);
    assert_eq!(
        ch.chain_head_unstable_unpin(&id("s"), &h(9)),
        Err(ChainHeadRpcError::InvalidBlock)
    );
    assert_eq!(ch.chain_head_unstable_unpin(&id("s"), &h(1)), Ok(()));
    assert_eq!(
        ch.chain_head_unstable_unpin(&id("s"), &h(1)),
        Err(ChainHeadRpcError::InvalidBlock)
    );
}

#[test]
fn release_gives_a_guard_back_without_an_answer() {
    let (mut ch, _f) = service(false);
    let guard = match ch.chain_head_unstable_body(&id("s"), &h(1)) {
        Step::Proceed(guard) => guard,
        other => panic!("{:?}", other),
    };
    assert_eq!(guards(&ch, &h(1)), Some(1));
    ch.release(guard);
    assert_eq!(guards(&ch, &h(1)), Some(0));
}

#[test]
fn remove_subscription_ends_it_for_every_request() {
    let (mut ch, mut follower) = service(false);
    assert!(ch.remove_subscription(&id("s")));
    assert!(!ch.remove_subscription(&id("s")));
    match ch.chain_head_unstable_body(&id("s"), &h(1)) {
        Step::Respond(ev) => assert_eq!(ev, ChainHeadEvent::Disjoint),
        other => panic!("{:?}", other),
    }
    let ev = ch.follow_step(&mut follower, ChainEvent::NewBlock { hash: h(2), is_best: false }, 2);
    assert_eq!(ev, vec![FollowEvent::Stop]);
}
