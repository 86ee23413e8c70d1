//! Account identifiers and fixed-size hashes, and the helpers that move them
//! between their array form and the byte sequences the storage backend holds.
use vstd::prelude::*;

verus! {

/// The number of bytes in an account identifier, a code hash and a block hash.
pub const ID_BYTES: usize = 32;

/// An account identifier: 32 raw bytes.
pub type AccountId = [u8; 32];

/// A content hash of uploaded module bytes: 32 raw bytes.
pub type CodeHash = [u8; 32];

/// A block hash: 32 raw bytes.
pub type BlockHash = [u8; 32];

/// The calling identity under which a dispatch runs.
#[derive(Clone, Copy, PartialEq, Eq, Debug)]
pub enum Origin {
    /// A call signed by an account.
    Signed(AccountId),
    /// The chain's root authority.
    Root,
    /// No identity at all.
    Unsigned,
}

/// The 32-byte array holding the first 32 bytes of `s`.
pub fn bytes32_of(s: &[u8]) -> (r: [u8; 32])
    requires
        s@.len() == 32,
    ensures
        r@ == s@,
{
    let mut r: [u8; 32] = [0u8; 32];
    let mut i: usize = 0;
    while i < 32
        invariant
            i <= 32,
            s@.len() == 32,
            r@.len() == 32,
            forall|j: int| 0 <= j < i ==> r@[j] == s@[j],
        decreases 32 - i,
    {
        r[i] = s[i];
        i += 1;
    }
    proof {
        assert(r@ =~= s@);
    }
    r
}

/// Whether two 32-byte identifiers are equal.
pub fn id_eq(a: &[u8; 32], b: &[u8; 32]) -> (r: bool)
    ensures
        r == (a@ == b@),
{
    crate::codec::bytes_eq(a.as_slice(), b.as_slice())
}

} // verus!
