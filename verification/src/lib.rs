//! A benchmark harness comparing three arbitrary-precision integer backends
//! on repeated modular multiplication over a fixed modulus.
//!
//! Each backend produces the same accumulator sequence — term 0 is `g mod p`,
//! every later term is the previous one times `g`, reduced mod `p` — and the
//! results are normalized to canonical 128-bit integers so they can be
//! compared pointwise across backends.

pub mod backends;
pub mod checker;
pub mod codec;
pub mod sequence;
