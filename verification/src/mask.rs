//! Payload masking: the XOR transform that the framing layer applies to
//! client-to-server payloads with a 4-byte key.

use vstd::prelude::*;

verus! {

/// Byte `i` of the masked payload is byte `i` of the input XORed with the
/// key byte at index `i % 4`.
pub open spec fn spec_xor_with_key(p: Seq<u8>, k: Seq<u8>) -> Seq<u8> {
    Seq::new(p.len(), |i: int| p[i] ^ k[i % 4])
}

/// Apply the 4-byte masking key to a payload, per the frame masking scheme.
pub fn xor_with_key(payload: &[u8], key: &[u8]) -> (r: Vec<u8>)
    requires
        key@.len() == 4,
    ensures
        r@ == spec_xor_with_key(payload@, key@),
{
    let mut out: Vec<u8> = Vec::new();
    let mut i: usize = 0;
    while i < payload.len()
        invariant
            key@.len() == 4,
            i <= payload@.len(),
            out@.len() == i,
            forall|j: int| 0 <= j < i ==> out@[j] == (payload@[j] ^ key@[j % 4]),
        decreases payload@.len() - i,
    {
        let b = payload[i] ^ key[i % 4];
        out.push(b);
        i += 1;
    }
    proof {
        assert(out@ =~= spec_xor_with_key(payload@, key@));
    }
    out
}

/// Masking is an involution: masking a payload twice with the same 4-byte
/// key gives back the original payload.
pub proof fn lemma_xor_with_key_involutive(p: Seq<u8>, k: Seq<u8>)
    requires
        k.len() == 4,
    ensures
        spec_xor_with_key(spec_xor_with_key(p, k), k) == p,
{
    assert forall|i: int| 0 <= i < p.len() implies spec_xor_with_key(
        spec_xor_with_key(p, k),
        k,
    )[i] == p[i] by {
        let a = p[i];
        let b = k[i % 4];
        assert((a ^ b) ^ b == a) by (bit_vector);
    }
    assert(spec_xor_with_key(spec_xor_with_key(p, k), k) =~= p);
}

} // verus!
