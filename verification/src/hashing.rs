//! The 256-bit Blake2b hash of the runtime, and the hash of a value as the
//! hash of its SCALE bytes.

use vstd::prelude::*;
use crate::scale::{encode_bytes, spec_encode_bytes};
use crate::types::H256;

verus! {

/// What Blake2b with a 256-bit output returns for `data`.
pub uninterp spec fn spec_blake2_256(data: Seq<u8>) -> Seq<u8>;

/// Calls `<sp_core::Blake2Hasher as sp_core::Hasher>::hash`, the hasher of
/// the runtime. The contract claims only that the 32 bytes returned are
/// `spec_blake2_256` of the bytes passed: a function of its argument.
#[verifier::external_body]
pub(crate) fn blake2_256(data: &[u8]) -> (h: H256)
    ensures
        h@ == spec_blake2_256(data@),
{
    <sp_core::Blake2Hasher as sp_core::Hasher>::hash(data).0
}

/// Whether two hashes are the same 32 bytes.
pub fn hash_eq(a: &H256, b: &H256) -> (r: bool)
    ensures
        r == (a@ == b@),
{
    let mut i: usize = 0;
    while i < 32
        invariant
            i <= 32,
            forall|j: int| 0 <= j < i ==> a@[j] == b@[j],
        decreases 32 - i,
    {
        if a[i] != b[i] {
            return false;
        }
        i = i + 1;
    }
    assert(a@ =~= b@);
    true
}

/// The hash of a byte string: Blake2b of its SCALE encoding.
pub open spec fn spec_hash_of_bytes(b: Seq<u8>) -> Seq<u8> {
    spec_blake2_256(spec_encode_bytes(b))
}

/// Hashes the SCALE encoding of the byte string `b`.
pub fn hash_of_bytes(b: &[u8]) -> (h: H256)
    requires
        b@.len() < 0x1_0000_0000,
    ensures
        h@ == spec_hash_of_bytes(b@),
{
    let bytes = encode_bytes(b);
    blake2_256(bytes.as_slice())
}

} // verus!
