//! The block-lifecycle controller: the ordered hooks that open and close a
//! block against the storage backend. Initialization resets the event log,
//! records the new height and parent linkage, and advances the timestamp by
//! one block step; finalization checks the height and computes the block
//! hash that links the next block to this one.
use crate::account::BlockHash;
use crate::chain::{
    chain_wf, read_parent_hash, read_timestamp, spec_balance_of, spec_code_of,
    spec_contract_code_of, spec_events_of, spec_height_of, spec_parent_hash_of, spec_timestamp_of,
};
use crate::codec::{copy_bytes, sat_add_u64, spec_sat_add_u64};
use crate::events::EventView;
use crate::hashing::{block_hash, spec_block_hash};
use crate::keys::{event_count_key, height_key, parent_hash_key, timestamp_key};
use crate::storage::StorageBackend;
use vstd::bytes::{lemma_auto_spec_u64_to_from_le_bytes, u64_to_le_bytes};
use vstd::prelude::*;

verus! {

/// How far the timestamp advances at every block initialization.
pub const TIMESTAMP_STEP: u64 = 1000;

/// The error block finalization can surface.
#[derive(Clone, Copy, PartialEq, Eq, Structural, Debug)]
pub enum FinalizeError {
    /// The height handed to finalization is not the open block's height.
    HeightMismatch,
}

/// The block-lifecycle hooks, in their fixed order.
pub struct BlockBuilder;

impl BlockBuilder {
    /// Open the block at `height` whose parent hash is `parent_hash`: the
    /// event log is reset, the height and parent linkage are recorded, and
    /// the timestamp advances by one block step. Balances, stored code and
    /// contracts are untouched.
    pub fn initialize_block(backend: &mut StorageBackend, height: u64, parent_hash: &BlockHash)
        requires
            old(backend).wf(),
            chain_wf(old(backend)@),
        ensures
            final(backend).wf(),
            chain_wf(final(backend)@),
            spec_height_of(final(backend)@) == height,
            spec_parent_hash_of(final(backend)@) == parent_hash@,
            spec_events_of(final(backend)@) == Seq::<EventView>::empty(),
            spec_timestamp_of(final(backend)@) == spec_sat_add_u64(
                spec_timestamp_of(old(backend)@),
                TIMESTAMP_STEP,
            ),
            forall|a: Seq<u8>|
                spec_balance_of(final(backend)@, a) == spec_balance_of(old(backend)@, a),
            forall|h: Seq<u8>| spec_code_of(final(backend)@, h) == spec_code_of(old(backend)@, h),
            forall|a: Seq<u8>|
                spec_contract_code_of(final(backend)@, a) == spec_contract_code_of(
                    old(backend)@,
                    a,
                ),
    {
        proof {
            lemma_auto_spec_u64_to_from_le_bytes();
            crate::keys::lemma_key_tags();
        }
        let ts = read_timestamp(backend);
        let new_ts = sat_add_u64(ts, TIMESTAMP_STEP);

        proof {
            crate::chain::lemma_chain_reset_events(backend@);
        }
        backend.set(event_count_key(), u64_to_le_bytes(0));

        proof {
            crate::chain::lemma_chain_insert(
                backend@,
                crate::keys::spec_height_key(),
                vstd::bytes::spec_u64_to_le_bytes(height),
            );
        }
        backend.set(height_key(), u64_to_le_bytes(height));

        proof {
            crate::chain::lemma_chain_insert(backend@, crate::keys::spec_parent_hash_key(), parent_hash@);
        }
        backend.set(parent_hash_key(), copy_bytes(parent_hash.as_slice()));

        proof {
            crate::chain::lemma_chain_insert(
                backend@,
                crate::keys::spec_timestamp_key(),
                vstd::bytes::spec_u64_to_le_bytes(new_ts),
            );
        }
        backend.set(timestamp_key(), u64_to_le_bytes(new_ts));
    }

    /// Close the block at `height`: the computed block hash links the next
    /// block to this one. A height other than the open block's is refused,
    /// and the backend is never changed.
    pub fn finalize_block(backend: &StorageBackend, height: u64) -> (r: Result<
        BlockHash,
        FinalizeError,
    >)
        requires
            backend.wf(),
            chain_wf(backend@),
        ensures
            match r {
                Ok(h) => height == spec_height_of(backend@) && h@ == spec_block_hash(
                    height,
                    spec_parent_hash_of(backend@),
                ),
                Err(e) => height != spec_height_of(backend@) && e
                    == FinalizeError::HeightMismatch,
            },
    {
        let current = crate::chain::read_height(backend);
        if height != current {
            return Err(FinalizeError::HeightMismatch);
        }
        let parent = read_parent_hash(backend);
        Ok(block_hash(height, &parent))
    }
}

} // verus!
