use smart_send::amount::Amount;

#[test]
fn amount_from_u64_round_trips_through_bytes() {
    let a = Amount::from_u64(0x0102_0304);
    assert_eq!(a.to_be_bytes(), vec![1u8, 2, 3, 4]);
    assert_eq!(Amount::from_u64(0).to_be_bytes(), Vec::<u8>::new());
}

#[test]
fn amount_from_be_bytes_ignores_leading_zeros() {
    let a = Amount::from_be_bytes(&[0u8, 0, 1, 0]);
    assert_eq!(a, Amount::from_u64(256));
    assert_eq!(a.to_be_bytes(), vec![1u8, 0]);
}

#[test]
fn amount_add_carries_past_u128() {
    let max = Amount::from_u128(u128::MAX);
    let one = Amount::from_u64(1);
    let sum = max.add(&one);
    let mut expected = vec![1u8];
    expected.extend(std::iter::repeat(0u8).take(16));
    assert_eq!(sum.to_be_bytes(), expected);
    assert!(sum.gt(&max));
    assert_eq!(sum.sub(&one), max);
}

#[test]
fn amount_sub_to_zero_is_canonical() {
    let a = Amount::from_u64(1000);
    let z = a.sub(&Amount::from_u64(1000));
    assert!(z.is_zero());
    assert_eq!(z, Amount::zero());
}

#[test]
fn amount_comparisons() {
    let a = Amount::from_u64(255);
    let b = Amount::from_u64(256);
    assert!(a.lt(&b));
    assert!(!b.lt(&a));
    assert!(b.gt(&a));
    assert!(!a.gt(&a));
    assert!(a.equals(&Amount::from_be_bytes(&[0u8, 255])));
    assert!(!a.equals(&b));
}

#[test]
fn amount_arithmetic_exact_values() {
    let a = Amount::from_u128(123_456_789_012_345_678_901_234_567_890);
    let b = Amount::from_u128(987_654_321_098_765_432_109_876_543_210);
    assert_eq!(a.add(&b), Amount::from_u128(1_111_111_110_111_111_111_011_111_111_100));
    assert_eq!(b.sub(&a), Amount::from_u128(864_197_532_086_419_753_208_641_975_320));
    assert_eq!(a.duplicate(), a);
    assert_eq!(a.clone(), a);
}
