//! Deterministic request fingerprint: FNV-1a, a pinned 64-bit hash over the
//! request's canonical encoding, so cache keys are stable across processes
//! and rebuilds.

use vstd::prelude::*;
use crate::codec::spec_enc_request;
use crate::ipc::RequestView;

verus! {

/// FNV-1a offset basis.
pub const FNV_OFFSET_BASIS: u64 = 0xcbf29ce484222325;

/// FNV-1a prime.
pub const FNV_PRIME: u64 = 0x100000001b3;

/// FNV-1a over `bytes`, starting from accumulator `acc`: each byte is folded
/// in by xor, then the accumulator is multiplied by the prime modulo 2^64.
pub open spec fn spec_fnv1a_from(bytes: Seq<u8>, acc: u64) -> u64
    decreases bytes.len(),
{
    if bytes.len() == 0 {
        acc
    } else {
        spec_fnv1a_from(bytes.drop_first(), (acc ^ (bytes[0] as u64)).wrapping_mul(FNV_PRIME))
    }
}

/// FNV-1a of a byte sequence.
pub open spec fn spec_fnv1a(bytes: Seq<u8>) -> u64 {
    spec_fnv1a_from(bytes, FNV_OFFSET_BASIS)
}

/// The fingerprint of a request: FNV-1a of its canonical encoding. Two
/// field-for-field equal requests always produce the same fingerprint.
pub open spec fn spec_fingerprint(v: RequestView) -> u64 {
    spec_fnv1a(spec_enc_request(v))
}

/// Compute FNV-1a of a byte slice.
pub fn fnv1a(bytes: &[u8]) -> (r: u64)
    ensures
        r == spec_fnv1a(bytes@),
{
    let mut acc: u64 = FNV_OFFSET_BASIS;
    let mut i: usize = 0;
    proof {
        assert(bytes@.skip(0) =~= bytes@);
    }
    while i < bytes.len()
        invariant
            i <= bytes@.len(),
            spec_fnv1a(bytes@) == spec_fnv1a_from(bytes@.skip(i as int), acc),
        decreases bytes@.len() - i,
    {
        let b = *vstd::slice::slice_index_get(bytes, i);
        proof {
            assert(bytes@.skip(i as int)[0] == bytes@[i as int]);
            assert(bytes@.skip(i as int).drop_first() =~= bytes@.skip(i as int + 1));
        }
        acc = (acc ^ (b as u64)).wrapping_mul(FNV_PRIME);
        i = i + 1;
    }
    proof {
        assert(bytes@.skip(bytes@.len() as int) =~= Seq::<u8>::empty());
    }
    acc
}

} // verus!
