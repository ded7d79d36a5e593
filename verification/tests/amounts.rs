use trading_ledger::amount::{Amount, MAX_MANTISSA, MAX_SCALE};

fn dec(mantissa: i128, scale: u32) -> Amount {
    Amount::new(mantissa, scale).unwrap()
}

#[test]
fn new_accepts_what_fits() {
    assert!(Amount::new(0, 0).is_some());
    assert!(Amount::new(MAX_MANTISSA, MAX_SCALE).is_some());
    assert!(Amount::new(-MAX_MANTISSA, 0).is_some());
    let a = dec(-12345678, 7);
    assert_eq!(a.mantissa(), -12345678);
    assert_eq!(a.scale(), 7);
}

#[test]
fn new_rejects_what_does_not_fit() {
    assert!(Amount::new(MAX_MANTISSA + 1, 0).is_none());
    assert!(Amount::new(-MAX_MANTISSA - 1, 0).is_none());
    assert!(Amount::new(1, MAX_SCALE + 1).is_none());
    assert!(Amount::new(i128::MAX, 0).is_none());
    assert!(Amount::new(i128::MIN, 0).is_none());
}

#[test]
fn whole_numbers_have_scale_zero() {
    let a = Amount::from_i64(-42);
    assert_eq!(a.mantissa(), -42);
    assert_eq!(a.scale(), 0);
    assert_eq!(Amount::zero().mantissa(), 0);
    assert_eq!(Amount::zero().scale(), 0);
    assert_eq!(Amount::from_i64(i64::MIN).mantissa(), i64::MIN as i128);
}

#[test]
fn sign_is_read_from_the_mantissa() {
    assert!(Amount::zero().is_sign_nonnegative());
    assert!(dec(1, 28).is_sign_nonnegative());
    assert!(!dec(-1, 28).is_sign_nonnegative());
}

#[test]
fn sum_of_whole_numbers() {
    let s = Amount::from_i64(1).checked_add(Amount::from_i64(2)).unwrap();
    assert_eq!((s.mantissa(), s.scale()), (3, 0));
}

#[test]
fn sum_aligns_scales() {
    let s = dec(15, 1).checked_add(dec(25, 2)).unwrap();
    assert_eq!((s.mantissa(), s.scale()), (175, 2));
}

#[test]
fn difference_of_whole_numbers() {
    let d = Amount::from_i64(5).checked_sub(Amount::from_i64(3)).unwrap();
    assert_eq!((d.mantissa(), d.scale()), (2, 0));
    let n = Amount::from_i64(3).checked_sub(Amount::from_i64(5)).unwrap();
    assert_eq!((n.mantissa(), n.scale()), (-2, 0));
}

#[test]
fn product_of_whole_numbers() {
    let p = Amount::from_i64(2).checked_mul(Amount::from_i64(2500)).unwrap();
    assert_eq!((p.mantissa(), p.scale()), (5000, 0));
}

#[test]
fn product_adds_scales() {
    let p = dec(15, 1).checked_mul(dec(25, 2)).unwrap();
    assert_eq!((p.mantissa(), p.scale()), (375, 3));
}

#[test]
fn quotient_of_whole_numbers() {
    let q = Amount::from_i64(50).checked_div(Amount::from_i64(10000)).unwrap();
    assert_eq!((q.mantissa(), q.scale()), (5, 3));
    let n = Amount::from_i64(-100).checked_div(Amount::from_i64(10000)).unwrap();
    assert_eq!((n.mantissa(), n.scale()), (-1, 2));
}

#[test]
fn overflow_is_reported() {
    let max = dec(MAX_MANTISSA, 0);
    assert!(max.checked_add(Amount::from_i64(1)).is_none());
    assert!(max.checked_mul(Amount::from_i64(2)).is_none());
    assert!(dec(-MAX_MANTISSA, 0).checked_sub(Amount::from_i64(1)).is_none());
}

#[test]
fn division_by_zero_is_reported() {
    assert!(Amount::from_i64(1).checked_div(Amount::zero()).is_none());
}

#[test]
fn comparison_is_by_value() {
    let two = Amount::from_i64(2);
    let three = Amount::from_i64(3);
    assert!(three.ge(&two));
    assert!(!two.ge(&three));
    assert!(two.ge(&two));
    assert!(dec(25, 1).ge(&two));
    assert!(!dec(25, 2).ge(&two));
    assert!(two.ge(&dec(-1, 28)));
    assert!(!dec(-1, 28).ge(&Amount::zero()));
    assert!(dec(MAX_MANTISSA, 0).ge(&dec(MAX_MANTISSA, 28)));
}

#[test]
fn equal_values_may_differ_in_scale() {
    assert!(dec(10, 1).eq_value(&Amount::from_i64(1)));
    assert!(dec(100, 2).eq_value(&dec(10, 1)));
    assert!(!dec(101, 2).eq_value(&Amount::from_i64(1)));
    assert!(Amount::zero().eq_value(&dec(0, 5)));
}

#[test]
fn sums_of_nonnegative_numbers_are_not_negative() {
    let a = dec(MAX_MANTISSA, 3);
    let s = a.checked_add(dec(MAX_MANTISSA, 5)).unwrap();
    assert!(s.is_sign_nonnegative());
    assert!(Amount::zero().checked_add(Amount::zero()).unwrap().is_sign_nonnegative());
}

#[test]
fn differences_of_ordered_numbers_are_not_negative() {
    let a = dec(1, 28);
    let b = dec(1, 27);
    assert!(b.ge(&a));
    assert!(b.checked_sub(a).unwrap().is_sign_nonnegative());
    assert!(a.checked_sub(a).unwrap().is_sign_nonnegative());
    let n = dec(-3, 0);
    assert!(n.checked_sub(dec(-4, 0)).unwrap().is_sign_nonnegative());
}

#[test]
fn products_of_nonnegative_numbers_are_not_negative() {
    let tiny = dec(1, 28);
    let p = tiny.checked_mul(tiny).unwrap();
    assert!(p.is_sign_nonnegative());
    assert!(Amount::zero().checked_mul(dec(-5, 0)).unwrap().is_sign_nonnegative());
}
