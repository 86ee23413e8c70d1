//! The storage-key scheme of the sandbox: every key starts with a tag byte
//! naming the kind of entry, followed by the entry's own identifier. Keys of
//! different kinds are therefore distinct, and keys of one kind are distinct
//! exactly when their identifiers are.
use crate::codec::append_bytes;
use vstd::bytes::{lemma_auto_spec_u64_to_from_le_bytes, spec_u64_to_le_bytes, u64_to_le_bytes};
use vstd::prelude::*;

verus! {

/// Tag of the key holding the current block height.
pub const TAG_HEIGHT: u8 = 1;

/// Tag of the key holding the parent hash recorded at block initialization.
pub const TAG_PARENT_HASH: u8 = 2;

/// Tag of the key holding the current block's timestamp.
pub const TAG_TIMESTAMP: u8 = 3;

/// Tag of the key holding the number of events of the current block.
pub const TAG_EVENT_COUNT: u8 = 4;

/// Tag of the keys holding the events of the current block, one per index.
pub const TAG_EVENT: u8 = 5;

/// Tag of the keys holding account balances.
pub const TAG_BALANCE: u8 = 6;

/// Tag of the keys holding uploaded module bytes, by content hash.
pub const TAG_CODE: u8 = 7;

/// Tag of the keys holding instantiated contracts' code hashes, by address.
pub const TAG_CONTRACT: u8 = 8;

/// The key of the block-height entry.
pub open spec fn spec_height_key() -> Seq<u8> {
    seq![TAG_HEIGHT]
}

/// The key of the parent-hash entry.
pub open spec fn spec_parent_hash_key() -> Seq<u8> {
    seq![TAG_PARENT_HASH]
}

/// The key of the timestamp entry.
pub open spec fn spec_timestamp_key() -> Seq<u8> {
    seq![TAG_TIMESTAMP]
}

/// The key of the event-count entry.
pub open spec fn spec_event_count_key() -> Seq<u8> {
    seq![TAG_EVENT_COUNT]
}

/// The key of the event entry at index `i`.
pub open spec fn spec_event_key(i: u64) -> Seq<u8> {
    seq![TAG_EVENT] + spec_u64_to_le_bytes(i)
}

/// The key of the balance entry of account `a`.
pub open spec fn spec_balance_key(a: Seq<u8>) -> Seq<u8> {
    seq![TAG_BALANCE] + a
}

/// The key of the code entry under content hash `h`.
pub open spec fn spec_code_key(h: Seq<u8>) -> Seq<u8> {
    seq![TAG_CODE] + h
}

/// The key of the contract entry at address `a`.
pub open spec fn spec_contract_key(a: Seq<u8>) -> Seq<u8> {
    seq![TAG_CONTRACT] + a
}

/// The tag byte a key starts with.
pub open spec fn spec_key_tag(k: Seq<u8>) -> u8
    recommends
        k.len() >= 1,
{
    k[0]
}

/// Every key of the scheme starts with its tag.
pub proof fn lemma_key_tags()
    ensures
        spec_key_tag(spec_height_key()) == TAG_HEIGHT && spec_height_key().len() == 1,
        spec_key_tag(spec_parent_hash_key()) == TAG_PARENT_HASH && spec_parent_hash_key().len()
            == 1,
        spec_key_tag(spec_timestamp_key()) == TAG_TIMESTAMP && spec_timestamp_key().len() == 1,
        spec_key_tag(spec_event_count_key()) == TAG_EVENT_COUNT && spec_event_count_key().len()
            == 1,
        forall|i: u64|
            spec_key_tag(#[trigger] spec_event_key(i)) == TAG_EVENT && spec_event_key(i).len()
                == 9,
        forall|a: Seq<u8>|
            spec_key_tag(#[trigger] spec_balance_key(a)) == TAG_BALANCE && spec_balance_key(
                a,
            ).len() == a.len() + 1,
        forall|h: Seq<u8>|
            spec_key_tag(#[trigger] spec_code_key(h)) == TAG_CODE && spec_code_key(h).len()
                == h.len() + 1,
        forall|a: Seq<u8>|
            spec_key_tag(#[trigger] spec_contract_key(a)) == TAG_CONTRACT && spec_contract_key(
                a,
            ).len() == a.len() + 1,
{
    lemma_auto_spec_u64_to_from_le_bytes();
}

/// Tagged keys with the same tag and equal identifiers are the same key, and
/// ones with equal keys have equal identifiers.
pub proof fn lemma_tagged_key_injective(t: u8, a: Seq<u8>, b: Seq<u8>)
    requires
        seq![t] + a == seq![t] + b,
    ensures
        a == b,
{
    assert((seq![t] + a).len() == 1 + a.len());
    assert((seq![t] + b).len() == 1 + b.len());
    assert(a.len() == b.len());
    assert forall|i: int| 0 <= i < a.len() implies a[i] == b[i] by {
        assert((seq![t] + a)[i + 1] == a[i]);
        assert((seq![t] + b)[i + 1] == b[i]);
    }
    assert(a =~= b);
}

/// Event keys are injective in the index.
pub proof fn lemma_event_key_injective(i: u64, j: u64)
    requires
        spec_event_key(i) == spec_event_key(j),
    ensures
        i == j,
{
    lemma_auto_spec_u64_to_from_le_bytes();
    lemma_tagged_key_injective(TAG_EVENT, spec_u64_to_le_bytes(i), spec_u64_to_le_bytes(j));
}

/// Build the block-height key.
pub fn height_key() -> (r: Vec<u8>)
    ensures
        r@ == spec_height_key(),
{
    tag_key(TAG_HEIGHT)
}

/// Build the parent-hash key.
pub fn parent_hash_key() -> (r: Vec<u8>)
    ensures
        r@ == spec_parent_hash_key(),
{
    tag_key(TAG_PARENT_HASH)
}

/// Build the timestamp key.
pub fn timestamp_key() -> (r: Vec<u8>)
    ensures
        r@ == spec_timestamp_key(),
{
    tag_key(TAG_TIMESTAMP)
}

/// Build the event-count key.
pub fn event_count_key() -> (r: Vec<u8>)
    ensures
        r@ == spec_event_count_key(),
{
    tag_key(TAG_EVENT_COUNT)
}

/// Build the event key at index `i`.
pub fn event_key(i: u64) -> (r: Vec<u8>)
    ensures
        r@ == spec_event_key(i),
{
    let mut r = tag_key(TAG_EVENT);
    let ix = u64_to_le_bytes(i);
    append_bytes(&mut r, ix.as_slice());
    r
}

/// Build the balance key of account `a`.
pub fn balance_key(a: &[u8; 32]) -> (r: Vec<u8>)
    ensures
        r@ == spec_balance_key(a@),
{
    let mut r = tag_key(TAG_BALANCE);
    append_bytes(&mut r, a.as_slice());
    r
}

/// Build the code key under content hash `h`.
pub fn code_key(h: &[u8; 32]) -> (r: Vec<u8>)
    ensures
        r@ == spec_code_key(h@),
{
    let mut r = tag_key(TAG_CODE);
    append_bytes(&mut r, h.as_slice());
    r
}

/// Build the contract key at address `a`.
pub fn contract_key(a: &[u8; 32]) -> (r: Vec<u8>)
    ensures
        r@ == spec_contract_key(a@),
{
    let mut r = tag_key(TAG_CONTRACT);
    append_bytes(&mut r, a.as_slice());
    r
}

/// A one-byte key holding only a tag.
fn tag_key(t: u8) -> (r: Vec<u8>)
    ensures
        r@ == seq![t],
{
    let mut r: Vec<u8> = Vec::new();
    r.push(t);
    proof {
        assert(r@ =~= seq![t]);
    }
    r
}

} // verus!
