//! The arbitrary-precision `INTEGER` binding and the range-constrained
//! integer value type.

use crate::constraints::{Bounded, Constraint, Constraints, Extensible};
use crate::tag::Tag;
use crate::types::AsnType;
use vstd::prelude::*;

verus! {

/// `num_bigint::BigInt`, declared so the wrapped arbitrary-precision value
/// can stand in this crate's types; the value itself is opaque here.
#[verifier::external_type_specification]
#[verifier::external_body]
pub struct ExBigInt(num_bigint::BigInt);

/// The arbitrary-precision integer backing `INTEGER` values.
pub type Integer = num_bigint::BigInt;

/// The mathematical integer a `BigInt` holds: a name for its value, which
/// depends on nothing but the `BigInt` itself.
pub uninterp spec fn int_of(value: num_bigint::BigInt) -> int;

/// Relies on `num_bigint::BigInt`'s `From<i128>`: the constructed
/// arbitrary-precision integer equals the argument.
#[verifier::external_body]
pub(crate) fn integer_from_i128(value: i128) -> (r: num_bigint::BigInt)
    ensures
        int_of(r) == value as int,
{
    num_bigint::BigInt::from(value)
}

impl AsnType for num_bigint::BigInt {
    open spec fn spec_tag() -> Tag {
        Tag::integer()
    }

    fn tag() -> (t: Tag) {
        Tag::integer()
    }
}

/// An integer which has an encoded constraint range between `start` and
/// `end`, carried as instance metadata and exposed as a `Value` constraint.
///
/// Construction does not validate the value against the range: checking a
/// value against the constraint is a separate, explicit step that belongs to
/// the codec.
pub struct ConstrainedInteger {
    pub start: i128,
    pub end: i128,
    pub value: num_bigint::BigInt,
}

impl ConstrainedInteger {
    /// Wraps an arbitrary-precision value with its declared inclusive range.
    pub fn new(start: i128, end: i128, value: num_bigint::BigInt) -> (r: ConstrainedInteger)
        ensures
            r.start == start,
            r.end == end,
            r.value == value,
    {
        ConstrainedInteger { start, end, value }
    }

    /// Builds the value from a fixed-width integer; the value is stored even
    /// when it lies outside the declared range.
    pub fn from_i128(start: i128, end: i128, value: i128) -> (r: ConstrainedInteger)
        ensures
            r.start == start,
            r.end == end,
            int_of(r.value) == value as int,
    {
        ConstrainedInteger { start, end, value: integer_from_i128(value) }
    }

    /// The tag of every constrained integer: `INTEGER`.
    pub fn tag() -> (t: Tag)
        ensures
            t == Tag::integer(),
    {
        Tag::integer()
    }

    /// The single non-extensible `Value` constraint covering the declared
    /// range.
    pub fn constraints(&self) -> (c: Constraints)
        ensures
            c@ == seq![
                Constraint::Value(Extensible::new(Bounded::new_range(self.start, self.end))),
            ],
    {
        let mut items: Vec<Constraint> = Vec::new();
        items.push(Constraint::Value(Extensible::new(Bounded::new_range(self.start, self.end))));
        let c = Constraints::new(items);
        proof {
            assert(c@ =~= seq![
                Constraint::Value(Extensible::new(Bounded::new_range(self.start, self.end))),
            ]);
        }
        c
    }
}

} // verus!
