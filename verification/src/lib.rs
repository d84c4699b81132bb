//! Subscription and pinning lifecycle of a chain-head observation service.
//!
//! A client follows the head of a chain through a long-lived subscription.
//! Every block announced on that subscription is pinned until the client
//! releases it, so that bodies, headers, storage values and runtime calls can
//! be requested against it at any later moment. This crate holds the state
//! and the decisions of that service: the per-subscription registry of pinned
//! blocks, the table of subscriptions, the follow driver as a state machine
//! and the classification of every on-demand request. Transport and backend
//! stay outside: callers hand in what they read and carry out what is
//! decided here.

pub mod bytes;
pub mod chain_head;
pub mod chain_head_laws;
pub mod encoding;
pub mod error;
pub mod event;
pub mod follow;
pub mod follow_laws;
pub mod hex;
pub mod keyed;
pub mod pending;
pub mod registry;
pub mod registry_laws;
pub mod storage_keys;
pub mod subscription;
pub mod subscription_laws;
