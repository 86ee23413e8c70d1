//! The sandbox's content hash: a deterministic 32-byte digest of a byte
//! string, used as the identifier of uploaded module bytes, as the derived
//! address of an instantiated contract, and as the block hash computed at
//! finalization.
//!
//! The digest runs four fold lanes over the input, each a xor-and-multiply
//! fold with its own starting constant, and concatenates their little-endian
//! encodings.
use crate::account::bytes32_of;
use crate::codec::append_bytes;
use vstd::bytes::{lemma_auto_spec_u64_to_from_le_bytes, spec_u64_to_le_bytes, u64_to_le_bytes};
use vstd::prelude::*;

verus! {

/// The multiplier of the fold step.
pub const LANE_PRIME: u64 = 0x100_0000_01b3;

/// Starting constant of the first lane.
pub const LANE_INIT_0: u64 = 0xcbf2_9ce4_8422_2325;

/// Starting constant of the second lane.
pub const LANE_INIT_1: u64 = 0x9e37_79b9_7f4a_7c15;

/// Starting constant of the third lane.
pub const LANE_INIT_2: u64 = 0x517c_c1b7_2722_0a95;

/// Starting constant of the fourth lane.
pub const LANE_INIT_3: u64 = 0x2545_f491_4f6c_dd1d;

/// Multiplication on `u64` that wraps around.
pub open spec fn spec_wrap_mul(a: u64, b: u64) -> u64 {
    (((a as int) * (b as int)) % 0x1_0000_0000_0000_0000) as u64
}

/// One fold lane over `s`, started at `acc`: each byte is mixed in by xor,
/// then the accumulator is multiplied by the lane prime.
pub open spec fn spec_lane(s: Seq<u8>, acc: u64) -> u64
    decreases s.len(),
{
    if s.len() == 0 {
        acc
    } else {
        spec_wrap_mul(spec_lane(s.drop_last(), acc) ^ (s.last() as u64), LANE_PRIME)
    }
}

/// The 32-byte content hash of `s`: the four lanes, each encoded as eight
/// little-endian bytes.
pub open spec fn spec_content_hash(s: Seq<u8>) -> Seq<u8> {
    spec_u64_to_le_bytes(spec_lane(s, LANE_INIT_0)) + spec_u64_to_le_bytes(
        spec_lane(s, LANE_INIT_1),
    ) + spec_u64_to_le_bytes(spec_lane(s, LANE_INIT_2)) + spec_u64_to_le_bytes(
        spec_lane(s, LANE_INIT_3),
    )
}

/// Multiply two `u64` values, wrapping around.
fn wrap_mul(a: u64, b: u64) -> (r: u64)
    ensures
        r == spec_wrap_mul(a, b),
{
    proof {
        assert((a as u128) * (b as u128) <= 0xffff_ffff_ffff_ffffu128 * 0xffff_ffff_ffff_ffffu128)
            by (nonlinear_arith)
            requires
                a <= 0xffff_ffff_ffff_ffffu64 && b <= 0xffff_ffff_ffff_ffffu64,
        ;
    }
    let wide: u128 = (a as u128) * (b as u128);
    (wide % 0x1_0000_0000_0000_0000) as u64
}

/// One fold lane over `bytes`, started at `init`.
fn lane(bytes: &[u8], init: u64) -> (r: u64)
    ensures
        r == spec_lane(bytes@, init),
{
    let mut acc = init;
    let mut i: usize = 0;
    proof {
        assert(bytes@.subrange(0, 0) =~= Seq::<u8>::empty());
    }
    while i < bytes.len()
        invariant
            i <= bytes@.len(),
            acc == spec_lane(bytes@.subrange(0, i as int), init),
        decreases bytes@.len() - i,
    {
        let b = bytes[i];
        acc = wrap_mul(acc ^ (b as u64), LANE_PRIME);
        proof {
            let pre = bytes@.subrange(0, i as int);
            let post = bytes@.subrange(0, i + 1);
            assert(post.drop_last() =~= pre);
            assert(post.last() == bytes@[i as int]);
        }
        i += 1;
    }
    proof {
        assert(bytes@.subrange(0, bytes@.len() as int) =~= bytes@);
    }
    acc
}

/// The 32-byte content hash of `bytes`.
pub fn content_hash(bytes: &[u8]) -> (r: [u8; 32])
    ensures
        r@ == spec_content_hash(bytes@),
{
    proof {
        lemma_auto_spec_u64_to_from_le_bytes();
    }
    let l0 = u64_to_le_bytes(lane(bytes, LANE_INIT_0));
    let l1 = u64_to_le_bytes(lane(bytes, LANE_INIT_1));
    let l2 = u64_to_le_bytes(lane(bytes, LANE_INIT_2));
    let l3 = u64_to_le_bytes(lane(bytes, LANE_INIT_3));
    let mut out: Vec<u8> = Vec::new();
    append_bytes(&mut out, l0.as_slice());
    append_bytes(&mut out, l1.as_slice());
    append_bytes(&mut out, l2.as_slice());
    append_bytes(&mut out, l3.as_slice());
    proof {
        assert(out@ =~= spec_content_hash(bytes@));
    }
    bytes32_of(out.as_slice())
}

/// The preimage whose content hash is the address of a contract instantiated
/// by `deployer` from code `code_hash` with `salt`.
pub open spec fn spec_address_preimage(deployer: Seq<u8>, code_hash: Seq<u8>, salt: Seq<u8>) -> Seq<
    u8,
> {
    deployer + code_hash + salt
}

/// The deterministic address of a contract instantiated by `deployer` from
/// code `code_hash` with `salt`.
pub open spec fn spec_contract_address(deployer: Seq<u8>, code_hash: Seq<u8>, salt: Seq<u8>) -> Seq<
    u8,
> {
    spec_content_hash(spec_address_preimage(deployer, code_hash, salt))
}

/// Derive the address of a contract instantiated by `deployer` from code
/// `code_hash` with `salt`.
pub fn contract_address(deployer: &[u8; 32], code_hash: &[u8; 32], salt: &[u8]) -> (r: [u8; 32])
    ensures
        r@ == spec_contract_address(deployer@, code_hash@, salt@),
{
    let mut preimage: Vec<u8> = Vec::new();
    append_bytes(&mut preimage, deployer.as_slice());
    append_bytes(&mut preimage, code_hash.as_slice());
    append_bytes(&mut preimage, salt);
    proof {
        assert(preimage@ =~= spec_address_preimage(deployer@, code_hash@, salt@));
    }
    content_hash(preimage.as_slice())
}

/// The preimage whose content hash is the hash of the block at `height` whose
/// parent hash is `parent`.
pub open spec fn spec_block_hash_preimage(height: u64, parent: Seq<u8>) -> Seq<u8> {
    spec_u64_to_le_bytes(height) + parent
}

/// The hash of the block at `height` whose parent hash is `parent`.
pub open spec fn spec_block_hash(height: u64, parent: Seq<u8>) -> Seq<u8> {
    spec_content_hash(spec_block_hash_preimage(height, parent))
}

/// Compute the hash of the block at `height` whose parent hash is `parent`.
pub fn block_hash(height: u64, parent: &[u8; 32]) -> (r: [u8; 32])
    ensures
        r@ == spec_block_hash(height, parent@),
{
    let mut preimage = u64_to_le_bytes(height);
    append_bytes(&mut preimage, parent.as_slice());
    content_hash(preimage.as_slice())
}

} // verus!
