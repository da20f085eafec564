//! BLAKE3 digests, computed by the `blake3` crate.
use vstd::prelude::*;

verus! {

/// The lowercase hexadecimal BLAKE3 digest of `data`.
pub uninterp spec fn blake3_hex(data: Seq<u8>) -> Seq<char>;

/// `blake3::hash(data).to_hex()`: the 32-byte digest as 64 hexadecimal digits.
#[verifier::external_body]
pub(crate) fn blake3_hex_digest(data: &[u8]) -> (r: String)
    ensures
        r@ == blake3_hex(data@),
        r@.len() == 64,
{
    blake3::hash(data).to_hex().to_string()
}

} // verus!
