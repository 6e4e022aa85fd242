//! The benchmarked computation: the accumulator sequence of repeated modular
//! multiplications, generated by any backend, together with the laws that the
//! backends' outputs agree pointwise and that a run is deterministic.

use crate::backends::{modexp, mul_mod, Backend};
use vstd::arithmetic::div_mod::{lemma_fundamental_div_mod_converse, lemma_small_mod};
use vstd::arithmetic::mul::{lemma_mul_inequality, lemma_mul_is_distributive_add_other_way};
use vstd::arithmetic::power::pow;
use vstd::prelude::*;

verus! {

/// Benchmark parameters: modulus `p`, generator `g`, and the number of terms
/// `n` of the accumulator sequence.
#[derive(Clone, Copy, PartialEq, Eq, Structural, Debug)]
pub struct BenchConfig {
    pub p: u128,
    pub g: u128,
    pub n: usize,
}

impl BenchConfig {
    /// The constraints every backend runs under: a modulus above one, a
    /// generator already reduced mod `p`, and at least one term.
    pub open spec fn valid(self) -> bool {
        &&& self.p > 1
        &&& self.g < self.p
        &&& self.n >= 1
    }
}

/// Term `i` of the accumulator sequence: term 0 is `g mod p`, and each later
/// term is the previous one times `g`, reduced mod `p`.
pub open spec fn mod_mul_term(p: int, g: int, i: nat) -> int
    decreases i,
{
    if i == 0 {
        g % p
    } else {
        (mod_mul_term(p, g, (i - 1) as nat) * g) % p
    }
}

/// The accumulator sequence of `n` terms.
pub open spec fn mod_mul_seq(p: int, g: int, n: nat) -> Seq<int> {
    Seq::new(n, |i: int| mod_mul_term(p, g, i as nat))
}

/// The accumulator sequence as one backend computes it: `cfg.n` terms, each
/// the previous one times `cfg.g`, reduced mod `cfg.p`, as a strict
/// left-to-right fold. The Montgomery backend additionally needs an odd
/// modulus.
pub fn mul_sequence(backend: Backend, cfg: BenchConfig) -> (out: Vec<u128>)
    requires
        cfg.valid(),
        backend == Backend::CryptoBigint ==> cfg.p % 2 == 1,
    ensures
        out@.len() == cfg.n,
        forall|i: int|
            0 <= i < cfg.n ==> out@[i] == mod_mul_term(cfg.p as int, cfg.g as int, i as nat),
{
    let mut out: Vec<u128> = Vec::new();
    proof {
        lemma_small_mod(cfg.g as nat, cfg.p as nat);
    }
    out.push(cfg.g);
    let mut i: usize = 1;
    while i < cfg.n
        invariant
            1 <= i <= cfg.n,
            out@.len() == i,
            cfg.valid(),
            backend == Backend::CryptoBigint ==> cfg.p % 2 == 1,
            forall|k: int|
                0 <= k < i ==> out@[k] == mod_mul_term(cfg.p as int, cfg.g as int, k as nat),
        decreases cfg.n - i,
    {
        let prev = out[i - 1];
        let next = mul_mod(backend, prev, cfg.g, cfg.p);
        out.push(next);
        i = i + 1;
    }
    out
}

/// Cross-backend agreement, and determinism of a single backend: any two
/// result sequences that meet the generator's contract for the same
/// parameters — whether produced by two different backends or by two runs of
/// the same backend — are pointwise equal.
pub proof fn lemma_backends_agree(p: int, g: int, n: nat, out1: Seq<u128>, out2: Seq<u128>)
    requires
        out1.len() == n,
        out2.len() == n,
        forall|i: int| 0 <= i < n ==> out1[i] == mod_mul_term(p, g, i as nat),
        forall|i: int| 0 <= i < n ==> out2[i] == mod_mul_term(p, g, i as nat),
    ensures
        forall|i: int| 0 <= i < n ==> out1[i] == out2[i],
{
}

/// A one-term run holds exactly the reduced generator, `g mod p`.
pub proof fn lemma_single_term(p: int, g: int)
    ensures
        mod_mul_seq(p, g, 1) == seq![g % p],
{
    assert(mod_mul_seq(p, g, 1) =~= seq![g % p]);
}

/// The entry of the modular-power table at flat index `idx` for bound `k`:
/// the table walks bases `1 ..= k` in the outer position and exponents
/// `1 ..= k` in the inner one, so entry `idx` is
/// `((idx / k + 1) ^ (idx % k + 1)) mod p`.
pub open spec fn modexp_entry(p: int, k: int, idx: int) -> int {
    pow(idx / k + 1, (idx % k + 1) as nat) % p
}

/// The table of modular powers `(b ^ e) mod p` for all bases and exponents
/// in `1 ..= k`, in base-major order, through the num_bigint backend.
pub fn modexp_table(p: u128, k: usize) -> (out: Vec<u128>)
    requires
        p > 1,
        k * k <= usize::MAX,
    ensures
        out@.len() == k * k,
        forall|idx: int|
            0 <= idx < k * k ==> #[trigger] out@[idx] == modexp_entry(p as int, k as int, idx),
{
    let mut out: Vec<u128> = Vec::new();
    let mut bi: usize = 0;
    while bi < k
        invariant
            bi <= k,
            out@.len() == bi * k,
            p > 1,
            k * k <= usize::MAX,
            forall|idx: int|
                0 <= idx < bi * k ==> #[trigger] out@[idx] == modexp_entry(p as int, k as int, idx),
        decreases k - bi,
    {
        proof {
            lemma_mul_inequality(bi as int + 1, k as int, k as int);
            lemma_mul_is_distributive_add_other_way(k as int, bi as int, 1);
        }
        let mut ei: usize = 0;
        while ei < k
            invariant
                ei <= k,
                bi < k,
                out@.len() == bi * k + ei,
                (bi + 1) * k == bi * k + k,
                (bi + 1) * k <= k * k <= usize::MAX,
                p > 1,
                forall|idx: int|
                    0 <= idx < bi * k + ei ==> #[trigger] out@[idx] == modexp_entry(
                        p as int,
                        k as int,
                        idx,
                    ),
            decreases k - ei,
        {
            let r = modexp((bi as u128) + 1, (ei as u128) + 1, p);
            out.push(r);
            proof {
                lemma_fundamental_div_mod_converse(
                    bi * k + ei,
                    k as int,
                    bi as int,
                    ei as int,
                );
            }
            ei = ei + 1;
        }
        bi = bi + 1;
    }
    out
}

} // verus!
