//! Tags, tag trees, constraints and field descriptors on the builtin
//! bindings.

use rasn_types::bindings::{SequenceOf, Utf8String};
use rasn_types::constraints::{Bounded, Constraint, Constraints, Extensible};
use rasn_types::fields::{Field, FieldPresence, Fields};
use rasn_types::tag::{Class, Tag, TagTree};
use rasn_types::types::AsnType;

#[test]
fn universal_tag_numbers() {
    assert_eq!(Tag::eoc(), Tag::new(Class::Universal, 0));
    assert_eq!(Tag::boolean(), Tag::new(Class::Universal, 1));
    assert_eq!(Tag::integer(), Tag::new(Class::Universal, 2));
    assert_eq!(Tag::bit_string(), Tag::new(Class::Universal, 3));
    assert_eq!(Tag::octet_string(), Tag::new(Class::Universal, 4));
    assert_eq!(Tag::null(), Tag::new(Class::Universal, 5));
    assert_eq!(Tag::object_identifier(), Tag::new(Class::Universal, 6));
    assert_eq!(Tag::enumerated(), Tag::new(Class::Universal, 10));
    assert_eq!(Tag::utf8_string(), Tag::new(Class::Universal, 12));
    assert_eq!(Tag::sequence(), Tag::new(Class::Universal, 16));
    assert_eq!(Tag::set(), Tag::new(Class::Universal, 17));
    assert_eq!(Tag::utc_time(), Tag::new(Class::Universal, 23));
    assert_eq!(Tag::generalized_time(), Tag::new(Class::Universal, 24));
}

#[test]
fn builtin_tags() {
    assert_eq!(<bool as AsnType>::tag(), Tag::boolean());
    assert_eq!(<() as AsnType>::tag(), Tag::null());
    assert_eq!(<Utf8String as AsnType>::tag(), Tag::utf8_string());
    assert_eq!(<u8 as AsnType>::tag(), Tag::integer());
    assert_eq!(<i64 as AsnType>::tag(), Tag::integer());
    assert_eq!(<SequenceOf<bool> as AsnType>::tag(), Tag::sequence());
    assert_eq!(
        <std::collections::BTreeSet<u8> as AsnType>::tag(),
        Tag::set()
    );
}

#[test]
fn default_tag_tree_is_leaf_of_tag() {
    assert_eq!(
        <bool as AsnType>::tag_tree(),
        TagTree::Leaf(Tag::boolean())
    );
    assert_eq!(
        <u32 as AsnType>::tag_tree(),
        TagTree::Leaf(Tag::integer())
    );
    assert_eq!(
        <String as AsnType>::tag_tree(),
        TagTree::Leaf(Tag::utf8_string())
    );
    assert_eq!(
        <Vec<bool> as AsnType>::tag_tree(),
        TagTree::Leaf(Tag::sequence())
    );
}

#[test]
fn wrappers_forward_tags_transparently() {
    assert_eq!(<Option<bool> as AsnType>::tag(), Tag::boolean());
    assert_eq!(
        <Option<bool> as AsnType>::tag_tree(),
        TagTree::Leaf(Tag::boolean())
    );
    assert_eq!(<Box<u16> as AsnType>::tag(), Tag::integer());
    assert_eq!(
        <Box<u16> as AsnType>::tag_tree(),
        TagTree::Leaf(Tag::integer())
    );
}

#[test]
fn fixed_width_integers_carry_their_native_range() {
    let cs = <u8 as AsnType>::constraints();
    let value = cs.value_constraint().unwrap();
    assert!(!value.extensible);
    assert_eq!(value.constraint, Bounded::new_range(0, 255));

    let cs = <i16 as AsnType>::constraints();
    let value = cs.value_constraint().unwrap();
    assert_eq!(value.constraint, Bounded::new_range(-32768, 32767));

    let cs = <i64 as AsnType>::constraints();
    let value = cs.value_constraint().unwrap();
    assert_eq!(
        value.constraint,
        Bounded::new_range(i64::MIN as i128, i64::MAX as i128)
    );
}

#[test]
fn unconstrained_types_declare_nothing() {
    let cs = <bool as AsnType>::constraints();
    assert_eq!(cs.len(), 0);
    assert_eq!(cs.value_constraint(), None);
    assert_eq!(cs.size_constraint(), None);
}

#[test]
fn fixed_size_array_carries_its_length() {
    let cs = <[bool; 4] as AsnType>::constraints();
    let size = cs.size_constraint().unwrap();
    assert!(!size.extensible);
    assert_eq!(size.constraint, Bounded::single_value(4));
    assert_eq!(cs.value_constraint(), None);
    assert_eq!(<[bool; 4] as AsnType>::tag(), Tag::sequence());
}

#[test]
fn bounded_range_checks() {
    let range = Bounded::new_range(0, 255);
    assert!(range.contains(0));
    assert!(range.contains(255));
    assert!(!range.contains(-1));
    assert!(!range.contains(256));

    let single = Bounded::single_value(7i128);
    assert!(single.contains(7));
    assert!(!single.contains(8));

    let open = Bounded::<i128>::Unbounded;
    assert!(open.contains(i128::MIN));
    assert!(open.contains(i128::MAX));

    let half = Bounded::Range { start: Some(10i128), end: None };
    assert!(half.contains(10));
    assert!(half.contains(i128::MAX));
    assert!(!half.contains(9));
}

#[test]
fn bounded_length_checks() {
    let size = Bounded::new_range(1usize, 8usize);
    assert!(size.contains_length(1));
    assert!(size.contains_length(8));
    assert!(!size.contains_length(0));
    assert!(!size.contains_length(9));
}

#[test]
fn extensible_marker() {
    let closed = Extensible::new(Bounded::single_value(3usize));
    assert!(!closed.extensible);
    let open = Extensible::new_extensible(Bounded::single_value(3usize));
    assert!(open.extensible);
}

#[test]
fn constraints_report_first_match() {
    let items = vec![
        Constraint::Size(Extensible::new(Bounded::single_value(2usize))),
        Constraint::Value(Extensible::new(Bounded::new_range(0, 10))),
        Constraint::Value(Extensible::new(Bounded::new_range(5, 6))),
    ];
    let cs = Constraints::new(items);
    assert_eq!(cs.len(), 3);
    assert_eq!(
        cs.value_constraint(),
        Some(Extensible::new(Bounded::new_range(0, 10)))
    );
    assert_eq!(
        cs.size_constraint(),
        Some(Extensible::new(Bounded::single_value(2usize)))
    );
}

#[test]
fn empty_constraints() {
    let cs = Constraints::none();
    assert_eq!(cs.len(), 0);
    assert_eq!(cs.value_constraint(), None);
}

#[test]
fn field_presence_counting() {
    let fields = Fields::new(vec![
        Field::new_required(Tag::integer()),
        Field::new_optional(Tag::boolean()),
        Field::new_defaulted(Tag::utf8_string()),
        Field::new_required(Tag::sequence()),
    ]);
    assert_eq!(fields.len(), 4);
    assert_eq!(fields.number_of_optional_and_default_fields(), 2);
    assert_eq!(fields.0[0].presence, FieldPresence::Required);
    assert_eq!(fields.0[1].presence, FieldPresence::Optional);
}

#[test]
fn empty_fields() {
    let fields = Fields::empty();
    assert_eq!(fields.len(), 0);
    assert!(fields.is_empty());
    assert_eq!(fields.number_of_optional_and_default_fields(), 0);
}
