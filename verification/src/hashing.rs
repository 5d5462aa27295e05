use vstd::bytes::spec_u64_to_le_bytes;
use vstd::prelude::*;

verus! {

/// The 64-bit XX hash of `data` under `seed`, as the `twox_hash` crate
/// computes it.  Deterministic: it depends on the seed and the bytes alone.
pub uninterp spec fn xxhash64_of(seed: u64, data: Seq<u8>) -> u64;

/// The 128-bit Twox hash: the two 64-bit digests under seeds 0 and 1,
/// each laid down in little-endian order.
pub open spec fn twox_128_of(data: Seq<u8>) -> Seq<u8> {
    spec_u64_to_le_bytes(xxhash64_of(0u64, data)) + spec_u64_to_le_bytes(
        xxhash64_of(1u64, data),
    )
}

/// Relies on `twox_hash::XxHash64::oneshot`, a pure function of the seed and
/// the input bytes; it is called once with seed 0 and once with seed 1, and
/// the two digests are written out little-endian.
#[verifier::external_body]
pub(crate) fn twox_128(data: &[u8]) -> (r: [u8; 16])
    ensures
        r@ == spec_u64_to_le_bytes(xxhash64_of(0u64, data@)) + spec_u64_to_le_bytes(
            xxhash64_of(1u64, data@),
        ),
{
    let h0 = twox_hash::XxHash64::oneshot(0, data).to_le_bytes();
    let h1 = twox_hash::XxHash64::oneshot(1, data).to_le_bytes();
    let mut out = [0u8; 16];
    out[..8].copy_from_slice(&h0);
    out[8..].copy_from_slice(&h1);
    out
}

} // verus!
