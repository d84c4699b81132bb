use chain_head::error::SubscriptionManagementError;
use chain_head::subscription::SubscriptionManagement;

fn h(n: u8) -> Vec<u8> {
    vec![n; 32]
}

fn id(s: &str) -> String {
    s.to_string()
}

#[test]
fn new_table_has_no_subscriptions() {
    let t = SubscriptionManagement::new(2, 60);
    assert!(!t.contains_subscription(&id("a")));
    assert_eq!(t.pinned_count(&id("a")), None);
    assert_eq!(t.max_pinned_blocks(), 2);
    assert_eq!(t.max_pinned_duration(), 60);
}

#[test]
fn insert_makes_an_empty_subscription() {
    let mut t = SubscriptionManagement::new(2, 60);
    let rx = t.insert_subscription(id("a"), true, 5).unwrap();
    assert_eq!(rx.subscription_id(), "a");
    assert!(t.contains_subscription(&id("a")));
    assert_eq!(t.pinned_count(&id("a")), Some(0));
    assert!(!t.stop_fired(&rx));
}

#[test]
fn insert_refuses_an_id_twice() {
    let mut t = SubscriptionManagement::new(2, 60);
    assert!(t.insert_subscription(id("a"), true, 5).is_some());
    assert_eq!(t.pin_block(&id("a"), h(1), 6), Ok(()));
    assert!(t.insert_subscription(id("a"), false, 7).is_none());
    // The first subscription is untouched.
    assert!(t.is_pinned(&id("a"), &h(1)));
    assert!(t.lock_block(&id("a"), &h(1)).unwrap().has_runtime());
}

#[test]
fn remove_is_idempotent_and_fires_the_stop_signal() {
    let mut t = SubscriptionManagement::new(2, 60);
    let rx = t.insert_subscription(id("a"), true, 5).unwrap();
    assert!(t.remove_subscription(&id("a")));
    assert!(t.stop_fired(&rx));
    assert!(!t.contains_subscription(&id("a")));
    assert!(!t.remove_subscription(&id("a")));
    assert!(t.stop_fired(&rx));
}

#[test]
fn stop_signal_stays_fired_when_the_id_is_used_again() {
    let mut t = SubscriptionManagement::new(2, 60);
    let rx1 = t.insert_subscription(id("a"), true, 5).unwrap();
    assert!(t.remove_subscription(&id("a")));
    let rx2 = t.insert_subscription(id("a"), true, 6).unwrap();
    assert!(t.stop_fired(&rx1));
    assert!(!t.stop_fired(&rx2));
}

#[test]
fn lock_block_on_unknown_subscription_is_subscription_absent() {
    let mut t = SubscriptionManagement::new(2, 60);
    assert_eq!(
        t.lock_block(&id("a"), &h(1)).unwrap_err(),
        SubscriptionManagementError::SubscriptionAbsent
    );
}

#[test]
fn lock_block_on_unknown_hash_is_block_hash_absent() {
    let mut t = SubscriptionManagement::new(2, 60);
    t.insert_subscription(id("a"), true, 0).unwrap();
    assert_eq!(t.pin_block(&id("a"), h(1), 0), Ok(()));
    assert_eq!(
        t.lock_block(&id("a"), &h(2)).unwrap_err(),
        SubscriptionManagementError::BlockHashAbsent
    );
}

#[test]
fn lock_block_returns_a_guard_with_the_subscriptions_flag() {
    let mut t = SubscriptionManagement::new(2, 60);
    t.insert_subscription(id("a"), true, 0).unwrap();
    t.insert_subscription(id("b"), false, 0).unwrap();
    assert_eq!(t.pin_block(&id("a"), h(1), 0), Ok(()));
    assert_eq!(t.pin_block(&id("b"), h(1), 0), Ok(()));
    let ga = t.lock_block(&id("a"), &h(1)).unwrap();
    let gb = t.lock_block(&id("b"), &h(1)).unwrap();
    assert!(ga.has_runtime());
    assert!(!gb.has_runtime());
    assert_eq!(ga.subscription_id(), "a");
    assert_eq!(gb.subscription_id(), "b");
    assert_eq!(ga.block_hash(), &h(1));
    t.release_block(ga);
    t.release_block(gb);
}

#[test]
fn blocks_are_pinned_per_subscription() {
    let mut t = SubscriptionManagement::new(2, 60);
    t.insert_subscription(id("a"), true, 0).unwrap();
    t.insert_subscription(id("b"), true, 0).unwrap();
    assert_eq!(t.pin_block(&id("a"), h(1), 0), Ok(()));
    assert!(t.is_pinned(&id("a"), &h(1)));
    assert!(!t.is_pinned(&id("b"), &h(1)));
    assert_eq!(
        t.lock_block(&id("b"), &h(1)).unwrap_err(),
        SubscriptionManagementError::BlockHashAbsent
    );
}

#[test]
fn pin_block_reports_each_failure() {
    let mut t = SubscriptionManagement::new(1, 60);
    assert_eq!(
        t.pin_block(&id("a"), h(1), 0),
        Err(SubscriptionManagementError::SubscriptionAbsent)
    );
    t.insert_subscription(id("a"), true, 0).unwrap();
    assert_eq!(t.pin_block(&id("a"), h(1), 0), Ok(()));
    assert_eq!(
        t.pin_block(&id("a"), h(1), 0),
        Err(SubscriptionManagementError::DuplicateHash)
    );
    assert_eq!(
        t.pin_block(&id("a"), h(2), 0),
        Err(SubscriptionManagementError::LimitExceeded)
    );
    assert_eq!(t.pinned_count(&id("a")), Some(1));
}

#[test]
fn unpin_block_reports_each_failure() {
    let mut t = SubscriptionManagement::new(2, 60);
    assert_eq!(
        t.unpin_block(&id("a"), &h(1)),
        Err(SubscriptionManagementError::SubscriptionAbsent)
    );
    t.insert_subscription(id("a"), true, 0).unwrap();
    assert_eq!(
        t.unpin_block(&id("a"), &h(1)),
        Err(SubscriptionManagementError::BlockHashAbsent)
    );
    assert_eq!(t.pin_block(&id("a"), h(1), 0), Ok(()));
    assert_eq!(t.unpin_block(&id("a"), &h(1)), Ok(()));
    assert!(!t.contains_block(&id("a"), &h(1)));
}

#[test]
fn unpin_block_is_idempotent_for_later_locks() {
    let mut t = SubscriptionManagement::new(2, 60);
    t.insert_subscription(id("a"), true, 0).unwrap();
    assert_eq!(t.pin_block(&id("a"), h(1), 0), Ok(()));
    assert_eq!(t.unpin_block(&id("a"), &h(1)), Ok(()));
    assert_eq!(
        t.lock_block(&id("a"), &h(1)).unwrap_err(),
        SubscriptionManagementError::BlockHashAbsent
    );
    assert_eq!(
        t.unpin_block(&id("a"), &h(1)),
        Err(SubscriptionManagementError::BlockHashAbsent)
    );
    assert_eq!(
        t.lock_block(&id("a"), &h(1)).unwrap_err(),
        SubscriptionManagementError::BlockHashAbsent
    );
}

#[test]
fn guard_keeps_the_entry_through_an_unpin() {
    let mut t = SubscriptionManagement::new(2, 60);
    t.insert_subscription(id("a"), true, 0).unwrap();
    assert_eq!(t.pin_block(&id("a"), h(1), 0), Ok(()));
    let g = t.lock_block(&id("a"), &h(1)).unwrap();
    assert_eq!(t.unpin_block(&id("a"), &h(1)), Ok(()));
    assert!(t.contains_block(&id("a"), &h(1)));
    assert!(!t.is_pinned(&id("a"), &h(1)));
    assert_eq!(t.pinned_count(&id("a")), Some(1));
    t.release_block(g);
    assert!(!t.contains_block(&id("a"), &h(1)));
    assert_eq!(t.pinned_count(&id("a")), Some(0));
}

#[test]
fn guard_of_a_removed_subscription_releases_cleanly() {
    let mut t = SubscriptionManagement::new(2, 60);
    t.insert_subscription(id("a"), true, 0).unwrap();
    assert_eq!(t.pin_block(&id("a"), h(1), 0), Ok(()));
    let g = t.lock_block(&id("a"), &h(1)).unwrap();
    assert!(t.remove_subscription(&id("a")));
    t.release_block(g);
    assert!(!t.contains_subscription(&id("a")));
}

#[test]
fn stale_guard_does_not_touch_a_later_subscription_of_the_same_id() {
    let mut t = SubscriptionManagement::new(2, 60);
    t.insert_subscription(id("a"), true, 0).unwrap();
    assert_eq!(t.pin_block(&id("a"), h(1), 0), Ok(()));
    let stale = t.lock_block(&id("a"), &h(1)).unwrap();
    assert!(t.remove_subscription(&id("a")));

    t.insert_subscription(id("a"), true, 1).unwrap();
    assert_eq!(t.pin_block(&id("a"), h(1), 1), Ok(()));
    let fresh = t.lock_block(&id("a"), &h(1)).unwrap();
    assert_eq!(t.unpin_block(&id("a"), &h(1)), Ok(()));
    // The entry is kept by the fresh guard alone; the stale one is inert.
    t.release_block(stale);
    assert!(t.contains_block(&id("a"), &h(1)));
    t.release_block(fresh);
    assert!(!t.contains_block(&id("a"), &h(1)));
}

#[test]
fn each_subscription_has_the_tables_limits() {
    let mut t = SubscriptionManagement::new(2, 60);
    t.insert_subscription(id("a"), true, 0).unwrap();
    t.insert_subscription(id("b"), true, 0).unwrap();
    for n in 0..10u8 {
        let _ = t.pin_block(&id("a"), h(n), 0);
        let _ = t.pin_block(&id("b"), h(n), 0);
        assert!(t.pinned_count(&id("a")).unwrap() <= 2);
        assert!(t.pinned_count(&id("b")).unwrap() <= 2);
    }
    assert_eq!(t.pinned_count(&id("a")), Some(2));
}

#[test]
fn error_messages_name_the_failure() {
    assert_eq!(
        SubscriptionManagementError::SubscriptionAbsent.message(),
        "Subscription is absent"
    );
    assert_eq!(SubscriptionManagementError::BlockHashAbsent.message(), "Block hash is absent");
    assert_eq!(
        SubscriptionManagementError::DuplicateHash.message(),
        "Block hash is already pinned"
    );
    assert_eq!(SubscriptionManagementError::LimitExceeded.message(), "Exceeded pinning limits");
    assert_eq!(
        SubscriptionManagementError::Other.message(),
        "Exceeded the number of guards on a block"
    );
}
