use frequalizer::big_nat::power_of;
use frequalizer::big_nat::BigNat;

#[test]
fn big_numbers_compare_by_value() {
    let one = BigNat::from_u32(1);
    let two = BigNat::from_u32(2);
    assert!(one.le(&two));
    assert!(!two.le(&one));
    assert!(two.le(&two));
    assert!(BigNat::from_u32(0).le(&one));
    assert!(BigNat::from_u32(0).le(&BigNat::from_u32(0)));
}

#[test]
fn big_numbers_multiply_beyond_a_limb() {
    let large = BigNat::from_u32(u32::MAX).mul_small(u32::MAX);
    let larger = BigNat::from_u32(u32::MAX).mul_small(u32::MAX).mul_small(2);
    assert!(large.le(&larger));
    assert!(!larger.le(&large));
    assert!(BigNat::from_u32(u32::MAX).le(&large));
    assert!(!large.le(&BigNat::from_u32(u32::MAX)));
    let zero = large.mul_small(0);
    assert!(zero.le(&BigNat::from_u32(0)));
    assert!(BigNat::from_u32(0).le(&zero));
    let six = BigNat::from_u32(2).mul_small(3);
    assert!(six.le(&BigNat::from_u32(6)));
    assert!(BigNat::from_u32(6).le(&six));
    assert!(!six.le(&BigNat::from_u32(5)));
}

#[test]
fn powers_compare_exactly() {
    assert!(power_of(3, 50).le(&power_of(2, 80)));
    assert!(!power_of(2, 80).le(&power_of(3, 50)));
    assert!(!power_of(3, 51).le(&power_of(2, 80)));
    assert!(power_of(2, 64).le(&power_of(4, 32)));
    assert!(power_of(4, 32).le(&power_of(2, 64)));
    assert!(power_of(7, 0).le(&BigNat::from_u32(1)));
    assert!(BigNat::from_u32(1).le(&power_of(7, 0)));
    assert!(power_of(0, 3).le(&BigNat::from_u32(0)));
    let mut target = power_of(30_000, 17);
    for _ in 0..17 {
        target = target.mul_small(18_000_000);
    }
    assert!(power_of(734_846, 34).le(&target));
    assert!(!power_of(734_847, 34).le(&target));
}
