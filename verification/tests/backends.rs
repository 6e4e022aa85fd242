use modmul_bench::backends::{modexp, mul_mod, Backend};

const ALL_BACKENDS: [Backend; 3] = [Backend::NumBigint, Backend::Ibig, Backend::CryptoBigint];

#[test]
fn mul_mod_small_values() {
    for backend in ALL_BACKENDS {
        assert_eq!(mul_mod(backend, 2, 3, 5), 1);
        assert_eq!(mul_mod(backend, 4, 6, 7), 3);
        assert_eq!(mul_mod(backend, 0, 9, 11), 0);
        assert_eq!(mul_mod(backend, 1, 1, 3), 1);
    }
}

#[test]
fn mul_mod_reduces_unreduced_operands() {
    for backend in ALL_BACKENDS {
        assert_eq!(mul_mod(backend, 100, 100, 7), 10_000 % 7);
    }
}

#[test]
fn overflow_boundary_largest_modulus() {
    // Worst case for the wide-multiply path: with p the largest 128-bit
    // value (odd, so every backend accepts it), (p-1)*(p-1) == 1 mod p,
    // since p-1 == -1 mod p. A silently truncated product would not give 1.
    let p = u128::MAX;
    for backend in ALL_BACKENDS {
        assert_eq!(mul_mod(backend, p - 1, p - 1, p), 1);
    }
}

#[test]
fn modexp_small_values() {
    assert_eq!(modexp(2, 10, 1000), 24);
    assert_eq!(modexp(3, 0, 10), 1);
    assert_eq!(modexp(0, 5, 10), 0);
    assert_eq!(modexp(0, 0, 10), 1);
    assert_eq!(modexp(7, 1, 100), 7);
}

#[test]
fn modexp_large_modulus() {
    let p: u128 = 1 + 407 * (1u128 << 119);
    let g: u128 = 85408008396924667383611388730472331217;
    // g^2 mod p equals the product of g with itself mod p.
    assert_eq!(modexp(g, 2, p), mul_mod(Backend::NumBigint, g, g, p));
}
