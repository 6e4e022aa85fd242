//! Canonical normalization of backend results: a little-endian byte-to-integer
//! fold, so that values coming out of different numeric libraries are
//! bit-for-bit comparable.

use vstd::arithmetic::power2::{
    lemma2_to64, lemma2_to64_rest, lemma_pow2_adds, lemma_pow2_strictly_increases, pow2,
};
use vstd::prelude::*;

verus! {

/// The value encoded by a little-endian byte sequence: byte `i` carries
/// weight `256^i`.
pub open spec fn le_bytes_value(s: Seq<u8>) -> int
    decreases s.len(),
{
    if s.len() == 0 {
        0
    } else {
        s[0] + 256 * le_bytes_value(s.drop_first())
    }
}

/// A sequence of `n` bytes encodes a value below `256^n`.
pub proof fn lemma_le_bytes_value_bound(s: Seq<u8>)
    ensures
        0 <= le_bytes_value(s) < pow2((8 * s.len()) as nat),
    decreases s.len(),
{
    lemma2_to64();
    if s.len() > 0 {
        lemma_le_bytes_value_bound(s.drop_first());
        lemma_pow2_adds(8, (8 * (s.len() - 1)) as nat);
        assert(pow2((8 * s.len()) as nat) == 256 * pow2((8 * (s.len() - 1)) as nat));
    }
}

/// Folds a little-endian byte sequence into a 128-bit integer. At most 16
/// bytes are accepted, so the encoded value always fits.
pub fn le_bytes_to_u128(bytes: &[u8]) -> (out: u128)
    requires
        bytes@.len() <= 16,
    ensures
        out == le_bytes_value(bytes@),
{
    let len: usize = bytes.len();
    let mut out: u128 = 0;
    let mut j: usize = len;
    proof {
        assert(bytes@.skip(len as int) =~= Seq::<u8>::empty());
    }
    while j > 0
        invariant
            j <= len,
            len == bytes@.len(),
            len <= 16,
            out == le_bytes_value(bytes@.skip(j as int)),
        decreases j,
    {
        proof {
            lemma_le_bytes_value_bound(bytes@.skip(j as int));
            lemma2_to64();
            lemma2_to64_rest();
            lemma_pow2_adds(64, 64);
            lemma_pow2_adds(8, 120);
            if 8 * (len - j) < 120 {
                lemma_pow2_strictly_increases((8 * (len - j)) as nat, 120);
            }
            assert(le_bytes_value(bytes@.skip(j as int)) < pow2(120));
            assert(bytes@.skip(j - 1).drop_first() =~= bytes@.skip(j as int));
        }
        j = j - 1;
        out = out * 256 + (bytes[j] as u128);
    }
    proof {
        assert(bytes@.skip(0) =~= bytes@);
    }
    out
}

/// Normalization is pure: the canonical 128-bit value depends on the bytes
/// alone, so converting the same native representation twice yields the same
/// value.
pub proof fn lemma_normalization_pure(s: Seq<u8>, r1: u128, r2: u128)
    requires
        r1 == le_bytes_value(s),
        r2 == le_bytes_value(s),
    ensures
        r1 == r2,
{
}

} // verus!
