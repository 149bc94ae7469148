use cryptal::primitives::U256;

#[test]
fn u256_one_be_layout() {
    let one = U256::one_be();
    assert_eq!(one.0[31], 1);
    assert!(one.0[..31].iter().all(|&b| b == 0));
}

#[test]
fn u256_leading_zeros_examples() {
    let zero = U256([0u8; 32]);
    assert_eq!(zero.leading_zeros(), 256);

    let one = U256::one_be();
    assert_eq!(one.leading_zeros(), 255);

    // Only the fourth byte is non-zero (0x01): 3 * 8 + 7 = 31 leading zeros.
    let mut arr = [0u8; 32];
    arr[3] = 1;
    assert_eq!(U256(arr).leading_zeros(), 31);

    let mut top = [0u8; 32];
    top[0] = 0x80;
    assert_eq!(U256(top).leading_zeros(), 0);
}
