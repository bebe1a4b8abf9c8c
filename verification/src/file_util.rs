//! The compressed data file format: every 7 bytes hold 8 characters of 7
//! bits each, packed most significant bit first.
use vstd::prelude::*;

verus! {

/// The 56 bits of the 7-byte chunk of `b` starting at `at`, most significant first.
pub open spec fn chunk_bits(b: Seq<u8>, at: int) -> u64 {
    (b[at] as u64) << 48u64 | (b[at + 1] as u64) << 40u64 | (b[at + 2] as u64) << 32u64 | (b[at + 3] as u64) << 24u64
        | (b[at + 4] as u64) << 16u64 | (b[at + 5] as u64) << 8u64 | (b[at + 6] as u64)
}

/// Character `k` (from 0 to 7) of a chunk of 56 bits `n`: its `k`-th group of 7 bits.
pub open spec fn septet(n: u64, k: int) -> u8 {
    ((n >> ((49 - 7 * k) as u64)) & 0x7f) as u8
}

/// The characters that the bytes `b` hold: 8 for each whole chunk of 7 bytes.
pub open spec fn decompressed(b: Seq<u8>) -> Seq<char> {
    Seq::new(((b.len() / 7) * 8) as nat, |j: int| septet(chunk_bits(b, (j / 8) * 7), j % 8) as char)
}

/// Whether `decompress` takes `b` in whole chunks: at least one byte, and a
/// length that is a multiple of 7, or one more.
pub open spec fn decompressible(b: Seq<u8>) -> bool {
    b.len() >= 1 && (b.len() % 7 == 0 || b.len() % 7 == 1)
}

proof fn lemma_septets(b0: u8, b1: u8, b2: u8, b3: u8, b4: u8, b5: u8, b6: u8, n: u64)
    by (bit_vector)
    requires
        n == (b0 as u64) << 48u64 | (b1 as u64) << 40u64 | (b2 as u64) << 32u64 | (b3 as u64) << 24u64
            | (b4 as u64) << 16u64 | (b5 as u64) << 8u64 | (b6 as u64),
    ensures
        ((b0 >> 1u8) & 0x7fu8) == ((n >> 49u64) & 0x7f) as u8,
        (((b1 >> 2u8) | ((b0 & 1u8) << 6u8)) & 0x7fu8) == ((n >> 42u64) & 0x7f) as u8,
        (((b2 >> 3u8) | ((b1 & 3u8) << 5u8)) & 0x7fu8) == ((n >> 35u64) & 0x7f) as u8,
        (((b3 >> 4u8) | ((b2 & 7u8) << 4u8)) & 0x7fu8) == ((n >> 28u64) & 0x7f) as u8,
        (((b4 >> 5u8) | ((b3 & 15u8) << 3u8)) & 0x7fu8) == ((n >> 21u64) & 0x7f) as u8,
        (((b5 >> 6u8) | ((b4 & 31u8) << 2u8)) & 0x7fu8) == ((n >> 14u64) & 0x7f) as u8,
        (((b6 >> 7u8) | ((b5 & 63u8) << 1u8)) & 0x7fu8) == ((n >> 7u64) & 0x7f) as u8,
        (b6 & 0x7fu8) == ((n >> 0u64) & 0x7f) as u8,
{
}

/// Decompresses the 7 bytes of `compressed` starting at `at` into 8
/// characters, added to `expanded`.
fn decompress_chunk(compressed: &Vec<u8>, at: usize, expanded: &mut Vec<char>)
    requires
        at + 7 <= compressed.len(),
    ensures
        final(expanded)@ == old(expanded)@ + Seq::new(8, |k: int| septet(chunk_bits(compressed@, at as int), k) as char),
{
    let b0 = compressed[at];
    let b1 = compressed[at + 1];
    let b2 = compressed[at + 2];
    let b3 = compressed[at + 3];
    let b4 = compressed[at + 4];
    let b5 = compressed[at + 5];
    let b6 = compressed[at + 6];
    let ghost n = chunk_bits(compressed@, at as int);
    proof {
        lemma_septets(b0, b1, b2, b3, b4, b5, b6, n);
    }
    let c0 = (b0 >> 1u8) & 0x7fu8;
    let c1 = ((b1 >> 2u8) | ((b0 & 1u8) << 6u8)) & 0x7fu8;
    let c2 = ((b2 >> 3u8) | ((b1 & 3u8) << 5u8)) & 0x7fu8;
    let c3 = ((b3 >> 4u8) | ((b2 & 7u8) << 4u8)) & 0x7fu8;
    let c4 = ((b4 >> 5u8) | ((b3 & 15u8) << 3u8)) & 0x7fu8;
    let c5 = ((b5 >> 6u8) | ((b4 & 31u8) << 2u8)) & 0x7fu8;
    let c6 = ((b6 >> 7u8) | ((b5 & 63u8) << 1u8)) & 0x7fu8;
    let c7 = b6 & 0x7fu8;
    assert(c0 == septet(n, 0) && c1 == septet(n, 1) && c2 == septet(n, 2) && c3 == septet(n, 3));
    assert(c4 == septet(n, 4) && c5 == septet(n, 5) && c6 == septet(n, 6) && c7 == septet(n, 7));
    expanded.push(c0 as char);
    expanded.push(c1 as char);
    expanded.push(c2 as char);
    expanded.push(c3 as char);
    expanded.push(c4 as char);
    expanded.push(c5 as char);
    expanded.push(c6 as char);
    expanded.push(c7 as char);
    assert(expanded@ =~= old(expanded)@ + Seq::new(8, |k: int| septet(n, k) as char));
}

/// Decompresses a data file's bytes into its characters.
pub fn decompress(compressed: &Vec<u8>) -> (res: Vec<char>)
    requires
        decompressible(compressed@),
    ensures
        res@ == decompressed(compressed@),
{
    let mut expanded: Vec<char> = Vec::new();
    let mut i: usize = 0;
    while i < compressed.len() - 1
        invariant
            decompressible(compressed@),
            i % 7 == 0,
            i <= compressed@.len(),
            expanded@ =~= decompressed(compressed@).take(((i / 7) * 8) as int),
        decreases compressed.len() - i,
    {
        decompress_chunk(compressed, i, &mut expanded);
        assert(expanded@ =~= decompressed(compressed@).take((((i + 7) / 7) * 8) as int));
        i = i + 7;
    }
    assert(decompressed(compressed@).take(((i / 7) * 8) as int) =~= decompressed(compressed@));
    expanded
}

} // verus!
