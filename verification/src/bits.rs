//! Decomposition of bytes into bits, least-significant bit of each byte first.

use vstd::prelude::*;

verus! {

/// Bit `j` of `byte`, counted from the least-significant end.
pub open spec fn bit_of(byte: u8, j: u8) -> bool {
    (byte >> j) & 1u8 == 1u8
}

/// The bit sequence of `bytes`: position `8k + j` holds bit `j` of byte `k`.
pub open spec fn bits_of(bytes: Seq<u8>) -> Seq<bool> {
    Seq::new(bytes.len() * 8, |p: int| bit_of(bytes[p / 8], (p % 8) as u8))
}

/// `bytes` with the bit at position `p` of its bit sequence inverted.
pub open spec fn flip_bit(bytes: Seq<u8>, p: int) -> Seq<u8> {
    bytes.update(p / 8, bytes[p / 8] ^ (1u8 << ((p % 8) as u8)))
}

/// Inverting a bit of a byte inverts that bit and no other.
pub proof fn lemma_flip_bit_of_byte(byte: u8, k: u8, j: u8)
    requires
        k < 8,
        j < 8,
    ensures
        bit_of(byte ^ (1u8 << k), j) == if j == k {
            !bit_of(byte, j)
        } else {
            bit_of(byte, j)
        },
{
    assert(((byte ^ (1u8 << k)) >> j) & 1u8 == 1u8 <==> if j == k {
        !((byte >> j) & 1u8 == 1u8)
    } else {
        (byte >> j) & 1u8 == 1u8
    }) by (bit_vector)
        requires
            k < 8,
            j < 8,
    ;
}

/// Inverting bit `p` of a byte sequence inverts bit `p` of its bit sequence
/// and leaves every other bit as it was.
pub proof fn lemma_flip_bit(bytes: Seq<u8>, p: int)
    requires
        0 <= p < bytes.len() * 8,
    ensures
        bits_of(flip_bit(bytes, p)) == bits_of(bytes).update(p, !bits_of(bytes)[p]),
{
    let flipped = flip_bit(bytes, p);
    let want = bits_of(bytes).update(p, !bits_of(bytes)[p]);
    assert forall|q: int| 0 <= q < bytes.len() * 8 implies bits_of(flipped)[q] == want[q] by {
        if q / 8 == p / 8 {
            lemma_flip_bit_of_byte(bytes[p / 8], (p % 8) as u8, (q % 8) as u8);
        }
    }
    assert(bits_of(flipped) =~= want);
}

/// Decomposes `bytes` into `8 * bytes.len()` bits, least-significant bit of
/// each byte first.
pub fn bytes_to_bits(bytes: &[u8]) -> (bits: Vec<bool>)
    ensures
        bits@ == bits_of(bytes@),
{
    let mut bits: Vec<bool> = Vec::new();
    let mut k: usize = 0;
    while k < bytes.len()
        invariant
            k <= bytes.len(),
            bits@ == bits_of(bytes@.take(k as int)),
        decreases bytes.len() - k,
    {
        let byte: u8 = bytes[k];
        let ghost before = bits@;
        let mut j: u8 = 0;
        while j < 8
            invariant
                j <= 8,
                k < bytes.len(),
                byte == bytes@[k as int],
                before == bits_of(bytes@.take(k as int)),
                bits@.len() == before.len() + j,
                bits@.take(before.len() as int) == before,
                forall|p: int|
                    before.len() <= p < bits@.len() ==> #[trigger] bits@[p] == bit_of(
                        byte,
                        (p - before.len()) as u8,
                    ),
            decreases 8 - j,
        {
            let bit: u8 = (byte >> j) & 1u8;
            bits.push(bit == 1u8);
            j = j + 1;
        }
        k = k + 1;
        assert(bits@ =~= bits_of(bytes@.take(k as int))) by {
            let target = bits_of(bytes@.take(k as int));
            assert(before.len() == 8 * (k - 1));
            assert forall|p: int| 0 <= p < bits@.len() implies bits@[p] == target[p] by {
                if p < before.len() {
                    assert(bits@[p] == bits@.take(before.len() as int)[p]);
                    assert(bytes@.take(k as int)[p / 8] == bytes@.take(k - 1)[p / 8]);
                } else {
                    assert(p / 8 == k - 1);
                    assert(p % 8 == p - before.len());
                }
            }
        }
    }
    assert(bytes@.take(k as int) =~= bytes@);
    bits
}

} // verus!
