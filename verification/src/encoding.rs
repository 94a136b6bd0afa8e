//! Candidate-scalar encoding: the bit-reassembly between the 32-byte
//! big-endian wire form of a 256-bit candidate and the eight 32-bit limbs the
//! compute kernel consumes.
//!
//! Limb index 7 holds the first four bytes and limb index 0 the last four;
//! each limb packs its four bytes big-endian:
//! `limb[7 - byte/4] |= byte_value << ((3 - byte%4)*8)`.

use vstd::prelude::*;

verus! {

/// Bytes in one candidate scalar.
pub const SCALAR_BYTES: usize = 32;

/// 32-bit limbs in one encoded candidate scalar.
pub const SCALAR_WORDS: usize = 8;

/// Four bytes packed big-endian into one 32-bit word.
pub open spec fn be_word(b0: u8, b1: u8, b2: u8, b3: u8) -> u32 {
    ((b0 as u32) << 24u32) | ((b1 as u32) << 16u32) | ((b2 as u32) << 8u32) | (b3 as u32)
}

/// Limb `j` of the kernel encoding of a 32-byte candidate.
pub open spec fn scalar_limb(bytes: Seq<u8>, j: int) -> u32
    recommends
        bytes.len() == SCALAR_BYTES,
        0 <= j < SCALAR_WORDS,
{
    be_word(
        bytes[4 * (7 - j)],
        bytes[4 * (7 - j) + 1],
        bytes[4 * (7 - j) + 2],
        bytes[4 * (7 - j) + 3],
    )
}

/// The kernel encoding of a 32-byte candidate: eight limbs.
pub open spec fn encoded_limbs(bytes: Seq<u8>) -> Seq<u32>
    recommends
        bytes.len() == SCALAR_BYTES,
{
    Seq::new(SCALAR_WORDS as nat, |j: int| scalar_limb(bytes, j))
}

/// Byte `i` of the 32-byte big-endian form recovered from eight limbs.
pub open spec fn limb_byte(limbs: Seq<u32>, i: int) -> u8
    recommends
        limbs.len() == SCALAR_WORDS,
        0 <= i < SCALAR_BYTES,
{
    ((limbs[7 - i / 4] >> (((3 - i % 4) * 8) as u32)) & 0xFF) as u8
}

/// The 32-byte big-endian form recovered from eight limbs.
pub open spec fn decoded_bytes(limbs: Seq<u32>) -> Seq<u8>
    recommends
        limbs.len() == SCALAR_WORDS,
{
    Seq::new(SCALAR_BYTES as nat, |i: int| limb_byte(limbs, i))
}

proof fn lemma_be_word_unpack(b0: u8, b1: u8, b2: u8, b3: u8)
    by (bit_vector)
    ensures
        ((be_word(b0, b1, b2, b3) >> 24u32) & 0xFF) as u8 == b0,
        ((be_word(b0, b1, b2, b3) >> 16u32) & 0xFF) as u8 == b1,
        ((be_word(b0, b1, b2, b3) >> 8u32) & 0xFF) as u8 == b2,
        ((be_word(b0, b1, b2, b3) >> 0u32) & 0xFF) as u8 == b3,
{
}

/// Law: decoding the kernel encoding of any 32-byte candidate yields the
/// original byte sequence.
pub proof fn lemma_scalar_round_trip(bytes: Seq<u8>)
    requires
        bytes.len() == SCALAR_BYTES,
    ensures
        decoded_bytes(encoded_limbs(bytes)) == bytes,
{
    let limbs = encoded_limbs(bytes);
    assert forall|i: int| 0 <= i < 32 implies limb_byte(limbs, i) == bytes[i] by {
        let k = i / 4;
        let r = i % 4;
        assert(i == 4 * k + r && 0 <= k < 8 && 0 <= r < 4);
        let j = 7 - k;
        assert(limbs[j] == scalar_limb(bytes, j));
        assert(4 * (7 - j) == 4 * k);
        lemma_be_word_unpack(bytes[4 * k], bytes[4 * k + 1], bytes[4 * k + 2], bytes[4 * k + 3]);
        if r == 0 {
            assert(((3 - i % 4) * 8) as u32 == 24u32);
        } else if r == 1 {
            assert(((3 - i % 4) * 8) as u32 == 16u32);
        } else if r == 2 {
            assert(((3 - i % 4) * 8) as u32 == 8u32);
        } else {
            assert(((3 - i % 4) * 8) as u32 == 0u32);
        }
    }
    assert(decoded_bytes(limbs) =~= bytes);
}

fn scalar_limb_at(bytes: &Vec<u8>, base: usize, j: usize) -> (r: u32)
    requires
        base + SCALAR_BYTES <= bytes@.len(),
        j < SCALAR_WORDS,
    ensures
        r == scalar_limb(bytes@.subrange(base as int, base as int + SCALAR_BYTES), j as int),
{
    proof {
        assert(bytes.len() == bytes@.len());
    }
    let o = base + 4 * (7 - j);
    let w = ((bytes[o] as u32) << 24u32) | ((bytes[o + 1] as u32) << 16u32) | ((bytes[o + 2]
        as u32) << 8u32) | (bytes[o + 3] as u32);
    proof {
        let sub = bytes@.subrange(base as int, base as int + SCALAR_BYTES);
        assert(sub[4 * (7 - j)] == bytes@[o as int]);
        assert(sub[4 * (7 - j) + 1] == bytes@[o as int + 1]);
        assert(sub[4 * (7 - j) + 2] == bytes@[o as int + 2]);
        assert(sub[4 * (7 - j) + 3] == bytes@[o as int + 3]);
    }
    w
}

/// Encodes one 32-byte big-endian candidate into the eight limbs the kernel
/// consumes.
pub fn encode_scalar(bytes: &Vec<u8>) -> (r: Vec<u32>)
    requires
        bytes@.len() == SCALAR_BYTES,
    ensures
        r@ == encoded_limbs(bytes@),
{
    let mut limbs: Vec<u32> = Vec::new();
    let mut j: usize = 0;
    while j < SCALAR_WORDS
        invariant
            j <= SCALAR_WORDS,
            bytes@.len() == SCALAR_BYTES,
            limbs@.len() == j,
            forall|m: int| 0 <= m < j ==> limbs@[m] == scalar_limb(bytes@, m),
        decreases SCALAR_WORDS - j,
    {
        let w = scalar_limb_at(bytes, 0, j);
        proof {
            assert(bytes@.subrange(0, SCALAR_BYTES as int) =~= bytes@);
        }
        limbs.push(w);
        j += 1;
    }
    proof {
        assert(limbs@ =~= encoded_limbs(bytes@));
    }
    limbs
}

/// Encodes a batch of candidates, 32 bytes each, into the kernel's input
/// buffer image: candidate `c`'s limb `j` lands at word `c * 8 + j`.
pub fn encode_candidates(bytes: &Vec<u8>) -> (r: Vec<u32>)
    requires
        bytes@.len() as int % SCALAR_BYTES as int == 0,
    ensures
        r@.len() == (bytes@.len() as int / SCALAR_BYTES as int) * SCALAR_WORDS as int,
        forall|c: int, j: int|
            0 <= c < bytes@.len() as int / SCALAR_BYTES as int && 0 <= j < SCALAR_WORDS ==> #[trigger] r@[c
                * SCALAR_WORDS + j] == scalar_limb(
                bytes@.subrange(c * SCALAR_BYTES, (c + 1) * SCALAR_BYTES),
                j,
            ),
{
    let count = bytes.len() / SCALAR_BYTES;
    let mut words: Vec<u32> = Vec::new();
    let mut c: usize = 0;
    while c < count
        invariant
            c <= count,
            count == bytes@.len() as int / SCALAR_BYTES as int,
            bytes@.len() == count * SCALAR_BYTES,
            words@.len() == c * SCALAR_WORDS,
            forall|m: int, j: int|
                0 <= m < c && 0 <= j < SCALAR_WORDS ==> #[trigger] words@[m * SCALAR_WORDS + j]
                    == scalar_limb(bytes@.subrange(m * SCALAR_BYTES, (m + 1) * SCALAR_BYTES), j),
        decreases count - c,
    {
        proof {
            assert(c * SCALAR_BYTES + SCALAR_BYTES <= count * SCALAR_BYTES) by (nonlinear_arith)
                requires
                    c < count,
            ;
            assert(0 <= c * SCALAR_BYTES) by (nonlinear_arith)
                requires
                    0 <= c,
            ;
            assert(bytes.len() == bytes@.len());
        }
        let base = c * SCALAR_BYTES;
        let mut j: usize = 0;
        while j < SCALAR_WORDS
            invariant
                j <= SCALAR_WORDS,
                base == c * SCALAR_BYTES,
                base + SCALAR_BYTES <= bytes@.len(),
                words@.len() == c * SCALAR_WORDS + j,
                forall|m: int, jj: int|
                    0 <= m < c && 0 <= jj < SCALAR_WORDS ==> #[trigger] words@[m * SCALAR_WORDS
                        + jj] == scalar_limb(
                        bytes@.subrange(m * SCALAR_BYTES, (m + 1) * SCALAR_BYTES),
                        jj,
                    ),
                forall|jj: int|
                    0 <= jj < j ==> #[trigger] words@[c * SCALAR_WORDS + jj] == scalar_limb(
                        bytes@.subrange(c * SCALAR_BYTES, (c + 1) * SCALAR_BYTES),
                        jj,
                    ),
            decreases SCALAR_WORDS - j,
        {
            let w = scalar_limb_at(bytes, base, j);
            proof {
                assert(base as int + SCALAR_BYTES == (c + 1) * SCALAR_BYTES) by (nonlinear_arith)
                    requires
                        base == c * SCALAR_BYTES,
                ;
            }
            words.push(w);
            j += 1;
        }
        c += 1;
        proof {
            assert(words@.len() == (c - 1) * SCALAR_WORDS + SCALAR_WORDS == c * SCALAR_WORDS)
                by (nonlinear_arith)
                requires
                    words@.len() == (c - 1) * SCALAR_WORDS + SCALAR_WORDS,
            ;
        }
    }
    proof {
        assert(count * SCALAR_WORDS == (bytes@.len() as int / SCALAR_BYTES as int) * SCALAR_WORDS as int);
    }
    words
}

/// Decodes eight kernel limbs back into the 32-byte big-endian form.
pub fn decode_scalar(limbs: &Vec<u32>) -> (r: Vec<u8>)
    requires
        limbs@.len() == SCALAR_WORDS,
    ensures
        r@ == decoded_bytes(limbs@),
{
    let mut bytes: Vec<u8> = Vec::new();
    let mut i: usize = 0;
    while i < SCALAR_BYTES
        invariant
            i <= SCALAR_BYTES,
            limbs@.len() == SCALAR_WORDS,
            bytes@.len() == i,
            forall|m: int| 0 <= m < i ==> bytes@[m] == limb_byte(limbs@, m),
        decreases SCALAR_BYTES - i,
    {
        let sh = ((3 - i % 4) * 8) as u32;
        let b = ((limbs[7 - i / 4] >> sh) & 0xFF) as u8;
        bytes.push(b);
        i += 1;
    }
    proof {
        assert(bytes@ =~= decoded_bytes(limbs@));
    }
    bytes
}

} // verus!
