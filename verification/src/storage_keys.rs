//! The storage keys that no request may read: those under the prefixes that
//! name child tries.

use vstd::prelude::*;

verus! {

/// The bytes of `:child_storage:`, the prefix of every key that names a
/// child trie.
pub open spec fn child_storage_prefix() -> Seq<u8> {
    seq![
        0x3au8, 0x63u8, 0x68u8, 0x69u8, 0x6cu8, 0x64u8, 0x5fu8, 0x73u8, 0x74u8, 0x6fu8, 0x72u8,
        0x61u8, 0x67u8, 0x65u8, 0x3au8,
    ]
}

/// The bytes of `:child_storage:default:`, the prefix of every key that
/// names a child trie of the default kind.
pub open spec fn default_child_storage_prefix() -> Seq<u8> {
    child_storage_prefix() + seq![0x64u8, 0x65u8, 0x66u8, 0x61u8, 0x75u8, 0x6cu8, 0x74u8, 0x3au8]
}

/// Whether `key` lies under one of the two reserved prefixes.
pub open spec fn is_reserved(key: Seq<u8>) -> bool {
    default_child_storage_prefix().is_prefix_of(key) || child_storage_prefix().is_prefix_of(key)
}

/// `sp_core::storage::well_known_keys::is_child_storage_key`: whether the
/// key starts with `:child_storage:`.
#[verifier::external_body]
fn is_child_storage_key(key: &[u8]) -> (r: bool)
    ensures
        r == child_storage_prefix().is_prefix_of(key@),
{
    sp_core::storage::well_known_keys::is_child_storage_key(key)
}

/// `sp_core::storage::well_known_keys::is_default_child_storage_key`:
/// whether the key starts with `:child_storage:default:`.
#[verifier::external_body]
fn is_default_child_storage_key(key: &[u8]) -> (r: bool)
    ensures
        r == default_child_storage_prefix().is_prefix_of(key@),
{
    sp_core::storage::well_known_keys::is_default_child_storage_key(key)
}

/// Whether `key` lies under one of the two reserved prefixes.
pub fn is_reserved_key(key: &Vec<u8>) -> (r: bool)
    ensures
        r == is_reserved(key@),
{
    is_default_child_storage_key(key.as_slice()) || is_child_storage_key(key.as_slice())
}

} // verus!
