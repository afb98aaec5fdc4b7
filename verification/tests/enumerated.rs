//! The ENUMERATED capability on the sample type with an extension variant.

use rasn_types::sample::Color;
use rasn_types::types::{AsnType, Enumerated};
use rasn_types::tag::{Class, Tag, TagTree};

#[test]
fn variance_counts() {
    assert_eq!(Color::variance(), 3);
    assert_eq!(Color::extended_variance(), 1);
    assert_eq!(Color::complete_variance(), 4);
}

#[test]
fn variance_sums_to_complete_variance() {
    assert_eq!(
        Color::variance() + Color::extended_variance(),
        Color::complete_variance()
    );
}

#[test]
fn variant_tables() {
    assert_eq!(
        Color::variants(),
        vec![Color::Red, Color::Green, Color::Blue]
    );
    assert_eq!(Color::extended_variants(), Some(vec![Color::Purple]));
    assert_eq!(
        Color::discriminants(),
        vec![(Color::Red, 0), (Color::Green, 1), (Color::Blue, 2)]
    );
    assert_eq!(
        Color::extended_discriminants(),
        Some(vec![(Color::Purple, 10)])
    );
}

#[test]
fn extended_variant_flag() {
    assert!(!Color::Red.is_extended_variant());
    assert!(!Color::Green.is_extended_variant());
    assert!(!Color::Blue.is_extended_variant());
    assert!(Color::Purple.is_extended_variant());
}

#[test]
fn discriminant_values() {
    assert_eq!(Color::Red.discriminant(), 0);
    assert_eq!(Color::Green.discriminant(), 1);
    assert_eq!(Color::Blue.discriminant(), 2);
    assert_eq!(Color::Purple.discriminant(), 10);
}

#[test]
fn discriminant_round_trip_for_every_variant() {
    for v in [Color::Red, Color::Green, Color::Blue, Color::Purple] {
        assert_eq!(Color::from_discriminant(v.discriminant()), Some(v));
    }
}

#[test]
fn enumeration_index_round_trip_for_root_variants() {
    for v in [Color::Red, Color::Green, Color::Blue] {
        assert!(!v.is_extended_variant());
        assert_eq!(Color::from_enumeration_index(v.enumeration_index()), Some(v));
    }
}

#[test]
fn enumeration_index_round_trip_for_extension_variants() {
    let v = Color::Purple;
    assert!(v.is_extended_variant());
    assert_eq!(v.enumeration_index(), 0);
    assert_eq!(
        Color::from_extended_enumeration_index(v.enumeration_index()),
        Some(v)
    );
}

#[test]
fn discriminants_are_unique() {
    let mut all = Color::discriminants();
    all.extend(Color::extended_discriminants().unwrap());
    for (i, (_, a)) in all.iter().enumerate() {
        for (j, (_, b)) in all.iter().enumerate() {
            if i != j {
                assert_ne!(a, b);
            }
        }
    }
}

#[test]
fn unknown_discriminant_is_absent() {
    assert_eq!(Color::from_discriminant(99), None);
    assert_eq!(Color::from_discriminant(-1), None);
    assert_eq!(Color::from_discriminant(3), None);
}

#[test]
fn out_of_range_indices_are_absent() {
    assert_eq!(Color::from_enumeration_index(3), None);
    assert_eq!(Color::from_enumeration_index(usize::MAX), None);
    assert_eq!(Color::from_extended_enumeration_index(1), None);
}

#[test]
fn enumerated_scenario() {
    assert_eq!(Color::variance(), 3);
    assert_eq!(Color::extended_variance(), 1);
    assert_eq!(Color::complete_variance(), 4);
    assert_eq!(Color::Blue.discriminant(), 2);
    assert_eq!(Color::from_discriminant(10), Some(Color::Purple));
    assert_eq!(Color::from_discriminant(99), None);
}

#[test]
fn enumerated_tag_binding() {
    assert_eq!(<Color as AsnType>::tag(), Tag::new(Class::Universal, 10));
    assert_eq!(
        <Color as AsnType>::tag_tree(),
        TagTree::Leaf(Tag::enumerated())
    );
}
