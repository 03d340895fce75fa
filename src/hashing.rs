use vstd::prelude::*;

verus! {

/// The Keccak-256 digest of a byte string.
pub uninterp spec fn keccak_256_of(data: Seq<u8>) -> Seq<u8>;

/// Relies on sp_io::hashing::keccak_256, which returns the 32-byte
/// Keccak-256 digest of its input.
#[verifier::external_body]
pub(crate) fn keccak_256(data: &Vec<u8>) -> (r: [u8; 32])
    ensures
        r@ == keccak_256_of(data@),
{
    sp_io::hashing::keccak_256(data.as_slice())
}

/// Byte-wise equality of two digests.
pub fn digest_eq(a: &[u8; 32], b: &[u8; 32]) -> (r: bool)
    ensures
        r == (a@ == b@),
{
    let mut i: usize = 0;
    while i < 32
        invariant
            i <= 32,
            a@.len() == 32,
            b@.len() == 32,
            forall|k: int| 0 <= k < i ==> a@[k] == b@[k],
        decreases 32 - i,
    {
        if a[i] != b[i] {
            return false;
        }
        i = i + 1;
    }
    assert(a@ =~= b@);
    true
}

} // verus!
