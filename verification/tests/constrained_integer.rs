//! The range-constrained integer: construction never validates; checking the
//! declared constraint is a separate, explicit step.

use num_bigint::BigInt;
use rasn_types::constraints::Bounded;
use rasn_types::integer::{ConstrainedInteger, Integer};
use rasn_types::tag::Tag;
use rasn_types::types::AsnType;

#[test]
fn construction_does_not_validate() {
    let ci = ConstrainedInteger::from_i128(0, 255, 300);
    assert_eq!(ci.start, 0);
    assert_eq!(ci.end, 255);
    assert_eq!(ci.value, BigInt::from(300));
}

#[test]
fn out_of_range_value_is_reported_by_explicit_check() {
    let ci = ConstrainedInteger::from_i128(0, 255, 300);
    let cs = ci.constraints();
    let value = cs.value_constraint().unwrap();
    assert!(!value.extensible);
    assert_eq!(value.constraint, Bounded::new_range(0, 255));
    assert!(!value.constraint.contains(300));
    assert!(value.constraint.contains(255));
    assert!(value.constraint.contains(0));
}

#[test]
fn constrained_integer_is_tagged_integer() {
    assert_eq!(ConstrainedInteger::tag(), Tag::integer());
}

#[test]
fn wrapping_an_arbitrary_precision_value() {
    let big: BigInt = BigInt::from(7) << 200u32;
    let ci = ConstrainedInteger::new(-5, 5, big.clone());
    assert_eq!(ci.value, big);
    assert_eq!(ci.start, -5);
    assert_eq!(ci.end, 5);
}

#[test]
fn integer_binding_tag() {
    assert_eq!(<Integer as AsnType>::tag(), Tag::integer());
}

#[test]
fn negative_values_are_stored_exactly() {
    let ci = ConstrainedInteger::from_i128(-100, 100, -12345);
    assert_eq!(ci.value, BigInt::from(-12345i64));
}
