//! The three arbitrary-precision backends under comparison, each behind a
//! thin call that returns the little-endian bytes of its reduced result, and
//! the verified modular-multiplication step built on top of them.

use crate::codec::{le_bytes_to_u128, le_bytes_value};
use crypto_bigint::Encoding;
use vstd::arithmetic::div_mod::lemma_mod_bound;
use vstd::arithmetic::mul::lemma_mul_nonnegative;
use vstd::arithmetic::power::{lemma0_pow, lemma_pow0, lemma_pow_positive, pow};
use vstd::prelude::*;

verus! {

/// The backends under comparison, in declaration (reporting) order.
#[derive(Clone, Copy, PartialEq, Eq, Structural, Debug)]
pub enum Backend {
    NumBigint,
    Ibig,
    CryptoBigint,
}

/// Relies on num_bigint: `*` on `BigUint` is the exact product, `%` its
/// remainder (which panics on a zero modulus), and `to_bytes_le` the
/// little-endian bytes of the value, so at most 16 bytes for a value below
/// the 128-bit modulus.
#[verifier::external_body]
fn num_bigint_mul_mod_bytes(a: u128, b: u128, p: u128) -> (r: Vec<u8>)
    requires
        p > 1,
    ensures
        le_bytes_value(r@) == (a as int * b as int) % (p as int),
        r@.len() <= 16,
{
    let pb = num_bigint::BigUint::from(p);
    let prod = (num_bigint::BigUint::from(a) * num_bigint::BigUint::from(b)) % &pb;
    prod.to_bytes_le()
}

/// Relies on ibig: `ModuloRing::new` sets up the ring mod `p` (panicking on a
/// zero modulus), `*` on ring elements is the ring product, `residue` its
/// representative in `[0, p)`, and `to_le_bytes` the little-endian bytes of
/// that value, so at most 16 bytes for a 128-bit modulus.
#[verifier::external_body]
fn ibig_mul_mod_bytes(a: u128, b: u128, p: u128) -> (r: Vec<u8>)
    requires
        p > 1,
    ensures
        le_bytes_value(r@) == (a as int * b as int) % (p as int),
        r@.len() <= 16,
{
    let ring = ibig::modular::ModuloRing::new(&ibig::UBig::from(p));
    let prod = ring.from(a) * ring.from(b);
    prod.residue().to_le_bytes()
}

/// Relies on crypto_bigint: `DynResidueParams::new` sets up Montgomery
/// arithmetic mod `p` (panicking unless `p` is odd), `DynResidue::new` and
/// `mul` carry exact residues, `retrieve` gives the reduced representative in
/// `[0, p)`, and `to_le_bytes` its exactly 16 little-endian bytes.
#[verifier::external_body]
fn crypto_bigint_mul_mod_bytes(a: u128, b: u128, p: u128) -> (r: Vec<u8>)
    requires
        p > 1,
        p % 2 == 1,
    ensures
        le_bytes_value(r@) == (a as int * b as int) % (p as int),
        r@.len() == 16,
{
    let params = crypto_bigint::modular::runtime_mod::DynResidueParams::new(
        &crypto_bigint::U128::from_u128(p),
    );
    let ra = crypto_bigint::modular::runtime_mod::DynResidue::new(
        &crypto_bigint::U128::from_u128(a),
        params,
    );
    let rb = crypto_bigint::modular::runtime_mod::DynResidue::new(
        &crypto_bigint::U128::from_u128(b),
        params,
    );
    ra.mul(&rb).retrieve().to_le_bytes().to_vec()
}

/// Relies on num_bigint's `BigUint::modpow`: `(self ^ exponent) % modulus`
/// (panicking on a zero modulus), returned through the little-endian bytes of
/// the reduced value, so at most 16 bytes for a 128-bit modulus.
#[verifier::external_body]
fn num_bigint_modexp_bytes(b: u128, e: u128, p: u128) -> (r: Vec<u8>)
    requires
        p > 1,
    ensures
        le_bytes_value(r@) == pow(b as int, e as nat) % (p as int),
        r@.len() <= 16,
{
    let pb = num_bigint::BigUint::from(p);
    let res = num_bigint::BigUint::from(b).modpow(&num_bigint::BigUint::from(e), &pb);
    res.to_bytes_le()
}

/// One modular-multiplication step `(a * b) mod p`, performed by the chosen
/// backend and normalized to the canonical 128-bit integer. The Montgomery
/// backend additionally needs an odd modulus.
pub fn mul_mod(backend: Backend, a: u128, b: u128, p: u128) -> (r: u128)
    requires
        p > 1,
        backend == Backend::CryptoBigint ==> p % 2 == 1,
    ensures
        r == (a as int * b as int) % (p as int),
        r < p,
{
    let bytes = match backend {
        Backend::NumBigint => num_bigint_mul_mod_bytes(a, b, p),
        Backend::Ibig => ibig_mul_mod_bytes(a, b, p),
        Backend::CryptoBigint => crypto_bigint_mul_mod_bytes(a, b, p),
    };
    proof {
        lemma_mul_nonnegative(a as int, b as int);
        lemma_mod_bound(a as int * b as int, p as int);
    }
    le_bytes_to_u128(bytes.as_slice())
}

/// Modular exponentiation `(b ^ e) mod p` through the num_bigint backend.
pub fn modexp(b: u128, e: u128, p: u128) -> (r: u128)
    requires
        p > 1,
    ensures
        r == pow(b as int, e as nat) % (p as int),
        r < p,
{
    let bytes = num_bigint_modexp_bytes(b, e, p);
    proof {
        if b > 0 {
            lemma_pow_positive(b as int, e as nat);
        } else if e > 0 {
            lemma0_pow(e as nat);
        } else {
            lemma_pow0(0);
        }
        lemma_mod_bound(pow(b as int, e as nat), p as int);
    }
    le_bytes_to_u128(bytes.as_slice())
}

} // verus!
