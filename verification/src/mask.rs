//! Payload masking: a rolling XOR with a four-byte key.

use vstd::prelude::*;

verus! {

/// `data` with byte `i` XORed with byte `i mod 4` of the key.
pub open spec fn masked(data: Seq<u8>, key: [u8; 4]) -> Seq<u8> {
    Seq::new(data.len(), |i: int| data[i] ^ key[i % 4])
}

/// Masks or unmasks `buf` in place: byte `i` is XORed with `mask[i mod 4]`.
pub fn apply_mask(buf: &mut [u8], mask: [u8; 4])
    ensures
        final(buf)@ == masked(old(buf)@, mask),
{
    let n: usize = buf.len();
    let ghost before = buf@;
    let mut i: usize = 0;
    while i < n
        invariant
            i <= n,
            buf@.len() == n,
            before.len() == n,
            forall|j: int| 0 <= j < i ==> buf@[j] == before[j] ^ mask[j % 4],
            forall|j: int| i <= j < n ==> buf@[j] == before[j],
        decreases n - i,
    {
        let b: u8 = buf[i] ^ mask[i % 4];
        buf[i] = b;
        i += 1;
    }
    assert(buf@ =~= masked(before, mask));
}

/// Masking twice with one key gives the bytes back.
pub proof fn lemma_mask_involution(data: Seq<u8>, key: [u8; 4])
    ensures
        masked(masked(data, key), key) == data,
        masked(data, key).len() == data.len(),
{
    assert forall|i: int| 0 <= i < data.len() implies #[trigger] masked(masked(data, key), key)[i]
        == data[i] by {
        let d = data[i];
        let k = key[i % 4];
        assert(masked(data, key)[i] == d ^ k);
        assert((d ^ k) ^ k == d) by (bit_vector);
    }
    assert(masked(masked(data, key), key) =~= data);
}

} // verus!
