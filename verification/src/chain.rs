//! The chain state as read out of the storage backend's mapping: accessors
//! for the block height, parent hash, timestamp, event log, balances,
//! uploaded code and instantiated contracts, the well-formedness those
//! entries obey, and the frame lemmas describing how a single storage write
//! moves the state.
use crate::codec::spec_u128_from_le_bytes;
use crate::events::{spec_decode_event, EventView};
use crate::keys::{
    lemma_event_key_injective, lemma_key_tags, spec_balance_key, spec_code_key, spec_contract_key,
    spec_event_count_key, spec_event_key, spec_height_key, spec_key_tag, spec_parent_hash_key,
    spec_timestamp_key, TAG_BALANCE, TAG_CODE, TAG_CONTRACT, TAG_EVENT, TAG_EVENT_COUNT,
};
use vstd::bytes::{lemma_auto_spec_u64_to_from_le_bytes, spec_u64_from_le_bytes,
    spec_u64_to_le_bytes};
use vstd::prelude::*;

verus! {

/// The chain storage mapping.
pub type ChainMap = Map<Seq<u8>, Seq<u8>>;

/// The block height the storage holds.
pub open spec fn spec_height_of(m: ChainMap) -> u64 {
    spec_u64_from_le_bytes(m[spec_height_key()])
}

/// The parent hash the storage holds.
pub open spec fn spec_parent_hash_of(m: ChainMap) -> Seq<u8> {
    m[spec_parent_hash_key()]
}

/// The timestamp the storage holds.
pub open spec fn spec_timestamp_of(m: ChainMap) -> u64 {
    spec_u64_from_le_bytes(m[spec_timestamp_key()])
}

/// The number of events of the current block.
pub open spec fn spec_event_count_of(m: ChainMap) -> u64 {
    spec_u64_from_le_bytes(m[spec_event_count_key()])
}

/// The event stored at index `i`, well-defined wherever the storage is
/// well-formed and `i` is below the event count.
pub open spec fn spec_event_at(m: ChainMap, i: u64) -> EventView {
    match spec_decode_event(m[spec_event_key(i)]) {
        Option::Some(e) => e,
        Option::None => EventView::CodeStored { code_hash: Seq::empty() },
    }
}

/// The ordered event log of the current block.
pub open spec fn spec_events_of(m: ChainMap) -> Seq<EventView> {
    Seq::new(spec_event_count_of(m) as nat, |i: int| spec_event_at(m, i as u64))
}

/// The free balance of account `a`: absent accounts hold nothing.
pub open spec fn spec_balance_of(m: ChainMap, a: Seq<u8>) -> u128 {
    if m.contains_key(spec_balance_key(a)) {
        spec_u128_from_le_bytes(m[spec_balance_key(a)])
    } else {
        0
    }
}

/// The module bytes stored under content hash `h`, if any.
pub open spec fn spec_code_of(m: ChainMap, h: Seq<u8>) -> Option<Seq<u8>> {
    if m.contains_key(spec_code_key(h)) {
        Option::Some(m[spec_code_key(h)])
    } else {
        Option::None
    }
}

/// The code hash of the contract instantiated at address `a`, if any.
pub open spec fn spec_contract_code_of(m: ChainMap, a: Seq<u8>) -> Option<Seq<u8>> {
    if m.contains_key(spec_contract_key(a)) {
        Option::Some(m[spec_contract_key(a)])
    } else {
        Option::None
    }
}

/// Well-formedness of the chain storage: the block entries exist with their
/// widths, every event below the count decodes, and balance and contract
/// entries have their widths.
pub open spec fn chain_wf(m: ChainMap) -> bool {
    &&& m.contains_key(spec_height_key()) && m[spec_height_key()].len() == 8
    &&& m.contains_key(spec_parent_hash_key()) && m[spec_parent_hash_key()].len() == 32
    &&& m.contains_key(spec_timestamp_key()) && m[spec_timestamp_key()].len() == 8
    &&& m.contains_key(spec_event_count_key()) && m[spec_event_count_key()].len() == 8
    &&& forall|i: u64|
        i < spec_event_count_of(m) ==> m.contains_key(#[trigger] spec_event_key(i))
            && spec_decode_event(m[spec_event_key(i)]).is_some()
    &&& forall|a: Seq<u8>|
        m.contains_key(#[trigger] spec_balance_key(a)) ==> m[spec_balance_key(a)].len() == 16
    &&& forall|a: Seq<u8>|
        m.contains_key(#[trigger] spec_contract_key(a)) ==> m[spec_contract_key(a)].len() == 32
}

/// How one write under a non-event key moves the chain state: the written
/// entry changes, every other accessor keeps its value, and well-formedness
/// is preserved when the written value has its kind's width.
pub proof fn lemma_chain_insert(m: ChainMap, k: Seq<u8>, v: Seq<u8>)
    requires
        chain_wf(m),
        k.len() >= 1,
        spec_key_tag(k) != TAG_EVENT,
        k != spec_event_count_key(),
        k == spec_height_key() ==> v.len() == 8,
        k == spec_parent_hash_key() ==> v.len() == 32,
        k == spec_timestamp_key() ==> v.len() == 8,
        spec_key_tag(k) == TAG_BALANCE ==> v.len() == 16,
        spec_key_tag(k) == TAG_CONTRACT ==> v.len() == 32,
    ensures
        chain_wf(m.insert(k, v)),
        k != spec_height_key() ==> spec_height_of(m.insert(k, v)) == spec_height_of(m),
        k != spec_parent_hash_key() ==> spec_parent_hash_of(m.insert(k, v)) == spec_parent_hash_of(
            m,
        ),
        k != spec_timestamp_key() ==> spec_timestamp_of(m.insert(k, v)) == spec_timestamp_of(m),
        spec_event_count_of(m.insert(k, v)) == spec_event_count_of(m),
        spec_events_of(m.insert(k, v)) == spec_events_of(m),
        forall|a: Seq<u8>|
            spec_balance_key(a) != k ==> spec_balance_of(m.insert(k, v), a) == spec_balance_of(
                m,
                a,
            ),
        forall|h: Seq<u8>|
            spec_code_key(h) != k ==> spec_code_of(m.insert(k, v), h) == spec_code_of(m, h),
        forall|a: Seq<u8>|
            spec_contract_key(a) != k ==> spec_contract_code_of(m.insert(k, v), a)
                == spec_contract_code_of(m, a),
{
    lemma_key_tags();
    let m2 = m.insert(k, v);
    assert forall|i: u64| i < spec_event_count_of(m2) implies m2.contains_key(
        #[trigger] spec_event_key(i),
    ) && spec_decode_event(m2[spec_event_key(i)]).is_some() by {
        assert(spec_event_key(i) != k);
    }
    assert(spec_events_of(m2) =~= spec_events_of(m));
}

/// How appending one event moves the chain state: the event is written at the
/// old count, the count grows by one, the event log gains the event at its
/// end, and everything else keeps its value.
pub proof fn lemma_chain_append_event(m: ChainMap, ev: EventView, encoded: Seq<u8>)
    requires
        chain_wf(m),
        spec_decode_event(encoded) == Option::Some(ev),
        spec_event_count_of(m) < 0xffff_ffff_ffff_ffffu64,
    ensures
        ({
            let c = spec_event_count_of(m);
            let m2 = m.insert(spec_event_key(c), encoded).insert(
                spec_event_count_key(),
                spec_u64_to_le_bytes((c + 1) as u64),
            );
            &&& chain_wf(m2)
            &&& spec_height_of(m2) == spec_height_of(m)
            &&& spec_parent_hash_of(m2) == spec_parent_hash_of(m)
            &&& spec_timestamp_of(m2) == spec_timestamp_of(m)
            &&& spec_event_count_of(m2) == c + 1
            &&& spec_events_of(m2) == spec_events_of(m).push(ev)
            &&& forall|a: Seq<u8>| spec_balance_of(m2, a) == spec_balance_of(m, a)
            &&& forall|h: Seq<u8>| spec_code_of(m2, h) == spec_code_of(m, h)
            &&& forall|a: Seq<u8>| spec_contract_code_of(m2, a) == spec_contract_code_of(m, a)
        }),
{
    lemma_key_tags();
    lemma_auto_spec_u64_to_from_le_bytes();
    let c = spec_event_count_of(m);
    let m2 = m.insert(spec_event_key(c), encoded).insert(
        spec_event_count_key(),
        spec_u64_to_le_bytes((c + 1) as u64),
    );
    assert(spec_event_count_of(m2) == c + 1);
    assert forall|i: u64| i < spec_event_count_of(m2) implies m2.contains_key(
        #[trigger] spec_event_key(i),
    ) && spec_decode_event(m2[spec_event_key(i)]).is_some() by {
        assert(spec_event_key(i) != spec_event_count_key());
        if i < c {
            if spec_event_key(i) == spec_event_key(c) {
                lemma_event_key_injective(i, c);
            }
            assert(m2[spec_event_key(i)] == m[spec_event_key(i)]);
        } else {
            assert(i == c);
            assert(m2[spec_event_key(i)] == encoded);
        }
    }
    assert forall|a: Seq<u8>| m2.contains_key(#[trigger] spec_balance_key(a)) implies m2[
        spec_balance_key(a)] .len() == 16 by {
        assert(spec_balance_key(a) != spec_event_key(c));
        assert(spec_balance_key(a) != spec_event_count_key());
    }
    assert forall|a: Seq<u8>| m2.contains_key(#[trigger] spec_contract_key(a)) implies m2[
        spec_contract_key(a)] .len() == 32 by {
        assert(spec_contract_key(a) != spec_event_key(c));
        assert(spec_contract_key(a) != spec_event_count_key());
    }
    assert(spec_events_of(m2) =~= spec_events_of(m).push(ev)) by {
        assert forall|i: int| 0 <= i < c + 1 implies spec_events_of(m2)[i] == spec_events_of(
            m,
        ).push(ev)[i] by {
            if i < c {
                if spec_event_key(i as u64) == spec_event_key(c) {
                    lemma_event_key_injective(i as u64, c);
                }
                assert(m2[spec_event_key(i as u64)] == m[spec_event_key(i as u64)]);
            } else {
                assert(m2[spec_event_key(c)] == encoded);
            }
        }
    }
    assert forall|a: Seq<u8>| spec_balance_of(m2, a) == spec_balance_of(m, a) by {
        assert(spec_balance_key(a) != spec_event_key(c));
        assert(spec_balance_key(a) != spec_event_count_key());
    }
    assert forall|h: Seq<u8>| spec_code_of(m2, h) == spec_code_of(m, h) by {
        assert(spec_code_key(h) != spec_event_key(c));
        assert(spec_code_key(h) != spec_event_count_key());
    }
    assert forall|a: Seq<u8>| spec_contract_code_of(m2, a) == spec_contract_code_of(m, a) by {
        assert(spec_contract_key(a) != spec_event_key(c));
        assert(spec_contract_key(a) != spec_event_count_key());
    }
}

/// How resetting the event log moves the chain state: the count becomes zero,
/// the event log becomes empty, and everything else keeps its value.
pub proof fn lemma_chain_reset_events(m: ChainMap)
    requires
        chain_wf(m),
    ensures
        ({
            let m2 = m.insert(spec_event_count_key(), spec_u64_to_le_bytes(0));
            &&& chain_wf(m2)
            &&& spec_height_of(m2) == spec_height_of(m)
            &&& spec_parent_hash_of(m2) == spec_parent_hash_of(m)
            &&& spec_timestamp_of(m2) == spec_timestamp_of(m)
            &&& spec_events_of(m2) == Seq::<EventView>::empty()
            &&& forall|a: Seq<u8>| spec_balance_of(m2, a) == spec_balance_of(m, a)
            &&& forall|h: Seq<u8>| spec_code_of(m2, h) == spec_code_of(m, h)
            &&& forall|a: Seq<u8>| spec_contract_code_of(m2, a) == spec_contract_code_of(m, a)
        }),
{
    lemma_key_tags();
    lemma_auto_spec_u64_to_from_le_bytes();
    let m2 = m.insert(spec_event_count_key(), spec_u64_to_le_bytes(0));
    assert(spec_event_count_of(m2) == 0);
    assert(spec_events_of(m2) =~= Seq::<EventView>::empty());
    assert forall|a: Seq<u8>| spec_balance_of(m2, a) == spec_balance_of(m, a) by {
        assert(spec_balance_key(a) != spec_event_count_key());
    }
    assert forall|h: Seq<u8>| spec_code_of(m2, h) == spec_code_of(m, h) by {
        assert(spec_code_key(h) != spec_event_count_key());
    }
    assert forall|a: Seq<u8>| spec_contract_code_of(m2, a) == spec_contract_code_of(m, a) by {
        assert(spec_contract_key(a) != spec_event_count_key());
    }
}

/// Read the block height out of a well-formed backend.
pub fn read_height(backend: &crate::storage::StorageBackend) -> (r: u64)
    requires
        backend.wf(),
        chain_wf(backend@),
    ensures
        r == spec_height_of(backend@),
{
    let key = crate::keys::height_key();
    match backend.get(key.as_slice()) {
        Some(v) => vstd::bytes::u64_from_le_bytes(v.as_slice()),
        None => vstd::pervasive::unreached(),
    }
}

/// Read the parent hash out of a well-formed backend.
pub fn read_parent_hash(backend: &crate::storage::StorageBackend) -> (r: [u8; 32])
    requires
        backend.wf(),
        chain_wf(backend@),
    ensures
        r@ == spec_parent_hash_of(backend@),
{
    let key = crate::keys::parent_hash_key();
    match backend.get(key.as_slice()) {
        Some(v) => crate::account::bytes32_of(v.as_slice()),
        None => vstd::pervasive::unreached(),
    }
}

/// Read the timestamp out of a well-formed backend.
pub fn read_timestamp(backend: &crate::storage::StorageBackend) -> (r: u64)
    requires
        backend.wf(),
        chain_wf(backend@),
    ensures
        r == spec_timestamp_of(backend@),
{
    let key = crate::keys::timestamp_key();
    match backend.get(key.as_slice()) {
        Some(v) => vstd::bytes::u64_from_le_bytes(v.as_slice()),
        None => vstd::pervasive::unreached(),
    }
}

/// Read the event count out of a well-formed backend.
pub fn read_event_count(backend: &crate::storage::StorageBackend) -> (r: u64)
    requires
        backend.wf(),
        chain_wf(backend@),
    ensures
        r == spec_event_count_of(backend@),
{
    let key = crate::keys::event_count_key();
    match backend.get(key.as_slice()) {
        Some(v) => vstd::bytes::u64_from_le_bytes(v.as_slice()),
        None => vstd::pervasive::unreached(),
    }
}

/// Read the free balance of `a` out of a well-formed backend.
pub fn read_balance(backend: &crate::storage::StorageBackend, a: &[u8; 32]) -> (r: u128)
    requires
        backend.wf(),
        chain_wf(backend@),
    ensures
        r == spec_balance_of(backend@, a@),
{
    let key = crate::keys::balance_key(a);
    match backend.get(key.as_slice()) {
        Some(v) => crate::codec::u128_from_le_bytes(v.as_slice()),
        None => 0,
    }
}

} // verus!
