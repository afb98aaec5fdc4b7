//! The fixed table of ASN.1 bindings for primitive and standard types:
//! booleans, the fixed-width integers (each with its native range as a value
//! constraint), text, sequences, sets, fixed-size arrays, and the transparent
//! forwarding wrappers.

use crate::constraints::{Bounded, Constraint, Constraints, Extensible};
use crate::tag::{Tag, TagTree};
use crate::types::AsnType;
use vstd::prelude::*;

verus! {

/// The `SEQUENCE OF` type.
pub type SequenceOf<T> = Vec<T>;

/// The `SET OF` type.
pub type SetOf<T> = std::collections::BTreeSet<T>;

/// The `UTF8String` type.
pub type Utf8String = String;

/// A single `Value` constraint covering the inclusive range from `min` to
/// `max`: the constraint list of every fixed-width integer type.
pub fn integer_range_constraints(min: i128, max: i128) -> (c: Constraints)
    ensures
        c@ == seq![Constraint::Value(Extensible::new(Bounded::new_range(min, max)))],
{
    let mut items: Vec<Constraint> = Vec::new();
    items.push(Constraint::Value(Extensible::new(Bounded::new_range(min, max))));
    let c = Constraints::new(items);
    proof {
        assert(c@ =~= seq![Constraint::Value(Extensible::new(Bounded::new_range(min, max)))]);
    }
    c
}

impl AsnType for bool {
    open spec fn spec_tag() -> Tag {
        Tag::boolean()
    }

    fn tag() -> (t: Tag) {
        Tag::boolean()
    }
}

impl AsnType for () {
    open spec fn spec_tag() -> Tag {
        Tag::null()
    }

    fn tag() -> (t: Tag) {
        Tag::null()
    }
}

impl AsnType for String {
    open spec fn spec_tag() -> Tag {
        Tag::utf8_string()
    }

    fn tag() -> (t: Tag) {
        Tag::utf8_string()
    }
}

impl AsnType for i8 {
    open spec fn spec_tag() -> Tag {
        Tag::integer()
    }

    fn tag() -> (t: Tag) {
        Tag::integer()
    }

    fn constraints() -> (c: Constraints)
        ensures
            c@ == seq![
                Constraint::Value(
                    Extensible::new(Bounded::new_range(i8::MIN as i128, i8::MAX as i128)),
                ),
            ],
    {
        integer_range_constraints(i8::MIN as i128, i8::MAX as i128)
    }
}

impl AsnType for i16 {
    open spec fn spec_tag() -> Tag {
        Tag::integer()
    }

    fn tag() -> (t: Tag) {
        Tag::integer()
    }

    fn constraints() -> (c: Constraints)
        ensures
            c@ == seq![
                Constraint::Value(
                    Extensible::new(Bounded::new_range(i16::MIN as i128, i16::MAX as i128)),
                ),
            ],
    {
        integer_range_constraints(i16::MIN as i128, i16::MAX as i128)
    }
}

impl AsnType for i32 {
    open spec fn spec_tag() -> Tag {
        Tag::integer()
    }

    fn tag() -> (t: Tag) {
        Tag::integer()
    }

    fn constraints() -> (c: Constraints)
        ensures
            c@ == seq![
                Constraint::Value(
                    Extensible::new(Bounded::new_range(i32::MIN as i128, i32::MAX as i128)),
                ),
            ],
    {
        integer_range_constraints(i32::MIN as i128, i32::MAX as i128)
    }
}

impl AsnType for i64 {
    open spec fn spec_tag() -> Tag {
        Tag::integer()
    }

    fn tag() -> (t: Tag) {
        Tag::integer()
    }

    fn constraints() -> (c: Constraints)
        ensures
            c@ == seq![
                Constraint::Value(
                    Extensible::new(Bounded::new_range(i64::MIN as i128, i64::MAX as i128)),
                ),
            ],
    {
        integer_range_constraints(i64::MIN as i128, i64::MAX as i128)
    }
}

impl AsnType for i128 {
    open spec fn spec_tag() -> Tag {
        Tag::integer()
    }

    fn tag() -> (t: Tag) {
        Tag::integer()
    }

    fn constraints() -> (c: Constraints)
        ensures
            c@ == seq![
                Constraint::Value(Extensible::new(Bounded::new_range(i128::MIN, i128::MAX))),
            ],
    {
        integer_range_constraints(i128::MIN, i128::MAX)
    }
}

impl AsnType for isize {
    open spec fn spec_tag() -> Tag {
        Tag::integer()
    }

    fn tag() -> (t: Tag) {
        Tag::integer()
    }

    fn constraints() -> (c: Constraints)
        ensures
            c@ == seq![
                Constraint::Value(
                    Extensible::new(Bounded::new_range(isize::MIN as i128, isize::MAX as i128)),
                ),
            ],
    {
        integer_range_constraints(isize::MIN as i128, isize::MAX as i128)
    }
}

impl AsnType for u8 {
    open spec fn spec_tag() -> Tag {
        Tag::integer()
    }

    fn tag() -> (t: Tag) {
        Tag::integer()
    }

    fn constraints() -> (c: Constraints)
        ensures
            c@ == seq![
                Constraint::Value(
                    Extensible::new(Bounded::new_range(u8::MIN as i128, u8::MAX as i128)),
                ),
            ],
    {
        integer_range_constraints(u8::MIN as i128, u8::MAX as i128)
    }
}

impl AsnType for u16 {
    open spec fn spec_tag() -> Tag {
        Tag::integer()
    }

    fn tag() -> (t: Tag) {
        Tag::integer()
    }

    fn constraints() -> (c: Constraints)
        ensures
            c@ == seq![
                Constraint::Value(
                    Extensible::new(Bounded::new_range(u16::MIN as i128, u16::MAX as i128)),
                ),
            ],
    {
        integer_range_constraints(u16::MIN as i128, u16::MAX as i128)
    }
}

impl AsnType for u32 {
    open spec fn spec_tag() -> Tag {
        Tag::integer()
    }

    fn tag() -> (t: Tag) {
        Tag::integer()
    }

    fn constraints() -> (c: Constraints)
        ensures
            c@ == seq![
                Constraint::Value(
                    Extensible::new(Bounded::new_range(u32::MIN as i128, u32::MAX as i128)),
                ),
            ],
    {
        integer_range_constraints(u32::MIN as i128, u32::MAX as i128)
    }
}

impl AsnType for u64 {
    open spec fn spec_tag() -> Tag {
        Tag::integer()
    }

    fn tag() -> (t: Tag) {
        Tag::integer()
    }

    fn constraints() -> (c: Constraints)
        ensures
            c@ == seq![
                Constraint::Value(
                    Extensible::new(Bounded::new_range(u64::MIN as i128, u64::MAX as i128)),
                ),
            ],
    {
        integer_range_constraints(u64::MIN as i128, u64::MAX as i128)
    }
}

impl AsnType for u128 {
    open spec fn spec_tag() -> Tag {
        Tag::integer()
    }

    fn tag() -> (t: Tag) {
        Tag::integer()
    }

    fn constraints() -> (c: Constraints)
        ensures
            c@ == seq![
                Constraint::Value(
                    Extensible::new(Bounded::new_range(u128::MIN as i128, i128::MAX)),
                ),
            ],
    {
        integer_range_constraints(u128::MIN as i128, i128::MAX)
    }
}

impl AsnType for usize {
    open spec fn spec_tag() -> Tag {
        Tag::integer()
    }

    fn tag() -> (t: Tag) {
        Tag::integer()
    }

    fn constraints() -> (c: Constraints)
        ensures
            c@ == seq![
                Constraint::Value(
                    Extensible::new(Bounded::new_range(usize::MIN as i128, usize::MAX as i128)),
                ),
            ],
    {
        integer_range_constraints(usize::MIN as i128, usize::MAX as i128)
    }
}

impl<T: AsnType> AsnType for Vec<T> {
    open spec fn spec_tag() -> Tag {
        Tag::sequence()
    }

    fn tag() -> (t: Tag) {
        Tag::sequence()
    }
}

impl<T> AsnType for std::collections::BTreeSet<T> {
    open spec fn spec_tag() -> Tag {
        Tag::set()
    }

    fn tag() -> (t: Tag) {
        Tag::set()
    }
}

impl<T: AsnType> AsnType for Box<T> {
    open spec fn spec_tag() -> Tag {
        T::spec_tag()
    }

    fn tag() -> (t: Tag) {
        T::tag()
    }

    fn tag_tree() -> (t: TagTree)
        ensures
            call_ensures(T::tag_tree, (), t),
    {
        T::tag_tree()
    }
}

impl<T: AsnType> AsnType for Option<T> {
    open spec fn spec_tag() -> Tag {
        T::spec_tag()
    }

    fn tag() -> (t: Tag) {
        T::tag()
    }

    fn tag_tree() -> (t: TagTree)
        ensures
            call_ensures(T::tag_tree, (), t),
    {
        T::tag_tree()
    }
}

impl<'a, T: AsnType> AsnType for &'a T {
    open spec fn spec_tag() -> Tag {
        T::spec_tag()
    }

    fn tag() -> (t: Tag) {
        T::tag()
    }

    fn tag_tree() -> (t: TagTree)
        ensures
            call_ensures(T::tag_tree, (), t),
    {
        T::tag_tree()
    }
}

impl<'a> AsnType for &'a str {
    open spec fn spec_tag() -> Tag {
        Tag::utf8_string()
    }

    fn tag() -> (t: Tag) {
        Tag::utf8_string()
    }
}

impl<'a, T> AsnType for &'a [T] {
    open spec fn spec_tag() -> Tag {
        Tag::sequence()
    }

    fn tag() -> (t: Tag) {
        Tag::sequence()
    }
}

impl<T: AsnType, const N: usize> AsnType for [T; N] {
    open spec fn spec_tag() -> Tag {
        Tag::sequence()
    }

    fn tag() -> (t: Tag) {
        Tag::sequence()
    }

    fn constraints() -> (c: Constraints)
        ensures
            c@ == seq![Constraint::Size(Extensible::new(Bounded::single_value(N)))],
    {
        let mut items: Vec<Constraint> = Vec::new();
        items.push(Constraint::Size(Extensible::new(Bounded::single_value(N))));
        let c = Constraints::new(items);
        proof {
            assert(c@ =~= seq![Constraint::Size(Extensible::new(Bounded::single_value(N)))]);
        }
        c
    }
}

} // verus!
