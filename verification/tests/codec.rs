use modmul_bench::codec::le_bytes_to_u128;

#[test]
fn empty_bytes_are_zero() {
    assert_eq!(le_bytes_to_u128(&[]), 0);
}

#[test]
fn single_zero_byte_is_zero() {
    assert_eq!(le_bytes_to_u128(&[0]), 0);
}

#[test]
fn little_endian_weights() {
    assert_eq!(le_bytes_to_u128(&[0x01, 0x02]), 0x0201);
    assert_eq!(le_bytes_to_u128(&[0xff, 0x00, 0x01]), 0x0100ff);
}

#[test]
fn sixteen_max_bytes_are_u128_max() {
    assert_eq!(le_bytes_to_u128(&[0xff; 16]), u128::MAX);
}

#[test]
fn normalization_is_pure() {
    // Converting the same representation twice yields the same value.
    let bytes = vec![0x12u8, 0x34, 0x56, 0x78, 0x9a, 0xbc, 0xde, 0xf0];
    let first = le_bytes_to_u128(&bytes);
    let second = le_bytes_to_u128(&bytes);
    assert_eq!(first, second);
    assert_eq!(first, 0xf0de_bc9a_7856_3412);
}
