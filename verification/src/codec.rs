//! Little-endian byte encodings for the integer values the sandbox keeps in
//! its storage backend, together with round-trip lemmas and small byte-slice
//! helpers shared by the other modules.
use vstd::bytes::{
    lemma_auto_spec_u64_to_from_le_bytes, spec_u64_from_le_bytes, spec_u64_to_le_bytes,
    u64_from_le_bytes, u64_to_le_bytes,
};
use vstd::prelude::*;
use vstd::slice::slice_subrange;

verus! {

/// The `u128` encoded by 16 little-endian bytes: the low half first.
pub open spec fn spec_u128_from_le_bytes(s: Seq<u8>) -> u128
    recommends
        s.len() == 16,
{
    (spec_u64_from_le_bytes(s.subrange(0, 8)) + spec_u64_from_le_bytes(s.subrange(8, 16))
        * 0x1_0000_0000_0000_0000) as u128
}

/// The 16 little-endian bytes encoding a `u128`: the low half first.
pub open spec fn spec_u128_to_le_bytes(x: u128) -> Seq<u8> {
    spec_u64_to_le_bytes((x & 0xffff_ffff_ffff_ffff) as u64) + spec_u64_to_le_bytes(
        (x >> 64) as u64,
    )
}

/// A `u128` splits into its two `u64` halves.
proof fn lemma_u128_halves(x: u128)
    ensures
        x == ((x & 0xffff_ffff_ffff_ffff) as u64) + ((x >> 64) as u64) * 0x1_0000_0000_0000_0000,
        ((x & 0xffff_ffff_ffff_ffff) as u64) == x as u64,
{
    assert(x == ((x & 0xffff_ffff_ffff_ffff) as u64) + ((x >> 64) as u64)
        * 0x1_0000_0000_0000_0000) by (bit_vector);
    assert(((x & 0xffff_ffff_ffff_ffff) as u64) == x as u64) by (bit_vector);
}

/// Encoding a `u128` and decoding the bytes gives the value back, and the
/// encoding is 16 bytes long.
pub proof fn lemma_u128_round_trip(x: u128)
    ensures
        spec_u128_to_le_bytes(x).len() == 16,
        spec_u128_from_le_bytes(spec_u128_to_le_bytes(x)) == x,
{
    lemma_auto_spec_u64_to_from_le_bytes();
    let lo = (x & 0xffff_ffff_ffff_ffff) as u64;
    let hi = (x >> 64) as u64;
    let s = spec_u128_to_le_bytes(x);
    assert(s.subrange(0, 8) =~= spec_u64_to_le_bytes(lo));
    assert(s.subrange(8, 16) =~= spec_u64_to_le_bytes(hi));
    lemma_u128_halves(x);
}

/// Encode a `u128` as 16 little-endian bytes.
pub fn u128_to_le_bytes(x: u128) -> (s: Vec<u8>)
    ensures
        s@ == spec_u128_to_le_bytes(x),
        s@.len() == 16,
{
    proof {
        lemma_auto_spec_u64_to_from_le_bytes();
        lemma_u128_halves(x);
    }
    let lo: u64 = (x & 0xffff_ffff_ffff_ffff) as u64;
    let hi: u64 = (x >> 64) as u64;
    let mut s = u64_to_le_bytes(lo);
    let hi_bytes = u64_to_le_bytes(hi);
    let mut i: usize = 0;
    while i < hi_bytes.len()
        invariant
            i <= hi_bytes.len(),
            s@ == spec_u64_to_le_bytes(lo) + hi_bytes@.subrange(0, i as int),
            hi_bytes@ == spec_u64_to_le_bytes(hi),
        decreases hi_bytes.len() - i,
    {
        s.push(hi_bytes[i]);
        proof {
            assert(s@ =~= spec_u64_to_le_bytes(lo) + hi_bytes@.subrange(0, i + 1));
        }
        i += 1;
    }
    proof {
        assert(hi_bytes@.subrange(0, 8) =~= hi_bytes@);
        assert(s@ =~= spec_u128_to_le_bytes(x));
    }
    s
}

/// Decode a `u128` from 16 little-endian bytes.
pub fn u128_from_le_bytes(s: &[u8]) -> (x: u128)
    requires
        s@.len() == 16,
    ensures
        x == spec_u128_from_le_bytes(s@),
{
    proof {
        lemma_auto_spec_u64_to_from_le_bytes();
    }
    let lo_slice = slice_subrange(s, 0, 8);
    let hi_slice = slice_subrange(s, 8, 16);
    let lo = u64_from_le_bytes(lo_slice);
    let hi = u64_from_le_bytes(hi_slice);
    proof {
        assert((lo as u128) + (hi as u128) * 0x1_0000_0000_0000_0000 <= 0xffff_ffff_ffff_ffff
            + 0xffff_ffff_ffff_ffff * 0x1_0000_0000_0000_0000) by (nonlinear_arith)
            requires
                lo <= 0xffff_ffff_ffff_ffffu64 && hi <= 0xffff_ffff_ffff_ffffu64,
        ;
    }
    (lo as u128) + (hi as u128) * 0x1_0000_0000_0000_0000
}

/// Whether two byte slices hold the same bytes.
pub fn bytes_eq(a: &[u8], b: &[u8]) -> (r: bool)
    ensures
        r == (a@ == b@),
{
    if a.len() != b.len() {
        proof {
            assert(a@.len() != b@.len());
        }
        return false;
    }
    let mut i: usize = 0;
    while i < a.len()
        invariant
            i <= a@.len(),
            a@.len() == b@.len(),
            forall|j: int| 0 <= j < i ==> a@[j] == b@[j],
        decreases a@.len() - i,
    {
        if a[i] != b[i] {
            return false;
        }
        i += 1;
    }
    proof {
        assert(a@ =~= b@);
    }
    true
}

/// An owned copy of a byte slice.
pub fn copy_bytes(v: &[u8]) -> (r: Vec<u8>)
    ensures
        r@ == v@,
{
    let mut r: Vec<u8> = Vec::new();
    let mut i: usize = 0;
    while i < v.len()
        invariant
            i <= v@.len(),
            r@ == v@.subrange(0, i as int),
        decreases v@.len() - i,
    {
        r.push(v[i]);
        proof {
            assert(r@ =~= v@.subrange(0, i + 1));
        }
        i += 1;
    }
    proof {
        assert(r@ =~= v@);
    }
    r
}

/// Append every byte of `src` to `dst`.
pub fn append_bytes(dst: &mut Vec<u8>, src: &[u8])
    ensures
        final(dst)@ == old(dst)@ + src@,
{
    let mut i: usize = 0;
    while i < src.len()
        invariant
            i <= src@.len(),
            dst@ == old(dst)@ + src@.subrange(0, i as int),
        decreases src@.len() - i,
    {
        dst.push(src[i]);
        proof {
            assert(dst@ =~= old(dst)@ + src@.subrange(0, i + 1));
        }
        i += 1;
    }
    proof {
        assert(dst@ =~= old(dst)@ + src@);
    }
}

/// Addition on `u64` that stops at the largest value.
pub open spec fn spec_sat_add_u64(a: u64, b: u64) -> u64 {
    if a + b <= 0xffff_ffff_ffff_ffffu64 {
        (a + b) as u64
    } else {
        0xffff_ffff_ffff_ffffu64
    }
}

/// Add two `u64` values, stopping at the largest value.
pub fn sat_add_u64(a: u64, b: u64) -> (r: u64)
    ensures
        r == spec_sat_add_u64(a, b),
{
    if a <= u64::MAX - b {
        a + b
    } else {
        u64::MAX
    }
}

} // verus!
