use pi_nif::u32_to_dec;

#[test]
fn single_digits() {
    assert_eq!(u32_to_dec(0), "0");
    assert_eq!(u32_to_dec(7), "7");
    assert_eq!(u32_to_dec(9), "9");
}

#[test]
fn multiple_digits() {
    assert_eq!(u32_to_dec(10), "10");
    assert_eq!(u32_to_dec(64), "64");
    assert_eq!(u32_to_dec(100), "100");
    assert_eq!(u32_to_dec(305), "305");
}

#[test]
fn largest_value() {
    assert_eq!(u32_to_dec(u32::MAX), "4294967295");
}
