use chain_head::error::ChainHeadRpcError;
use chain_head::pending::{MaybePendingSubscription, PendingSubscriptionAcceptError};

#[test]
fn accept_gives_the_sink_out_once() {
    let mut cell = MaybePendingSubscription::new(7u32);
    assert!(cell.is_pending());
    assert_eq!(cell.accept(), Ok(7));
    assert!(!cell.is_pending());
    assert_eq!(cell.accept(), Err(PendingSubscriptionAcceptError));
}

#[test]
fn reject_gives_the_sink_out_once() {
    let mut cell = MaybePendingSubscription::new("sink");
    assert_eq!(
        cell.reject(ChainHeadRpcError::InvalidBlock),
        Some(("sink", ChainHeadRpcError::InvalidBlock))
    );
    assert_eq!(cell.reject(ChainHeadRpcError::InvalidBlock), None);
}

#[test]
fn reject_after_accept_reaches_nothing() {
    let mut cell = MaybePendingSubscription::new(1u8);
    assert_eq!(cell.accept(), Ok(1));
    assert_eq!(cell.reject(ChainHeadRpcError::InvalidParam("x".to_string())), None);
    assert_eq!(cell.accept(), Err(PendingSubscriptionAcceptError));
}

#[test]
fn accept_after_reject_fails() {
    let mut cell = MaybePendingSubscription::new(1u8);
    assert!(cell.reject(ChainHeadRpcError::InvalidBlock).is_some());
    assert_eq!(cell.accept(), Err(PendingSubscriptionAcceptError));
    assert!(!cell.is_pending());
}
