//! CHOICE metadata and tag-driven variant resolution.

use rasn_types::sample::{LabeledNumber, NumberOrText};
use rasn_types::tag::{Tag, TagTree};
use rasn_types::types::{AsnType, Choice, Constructed, DecodeChoice};

#[test]
fn choice_tag_is_placeholder() {
    assert_eq!(<NumberOrText as AsnType>::tag(), Tag::eoc());
}

#[test]
fn choice_tag_tree_lists_variants() {
    let tree = <NumberOrText as AsnType>::tag_tree();
    assert_eq!(
        tree,
        TagTree::Choice(vec![
            TagTree::Leaf(Tag::integer()),
            TagTree::Leaf(Tag::utf8_string()),
        ])
    );
}

#[test]
fn choice_variant_tables() {
    assert_eq!(
        NumberOrText::variants(),
        vec![
            TagTree::Leaf(Tag::integer()),
            TagTree::Leaf(Tag::utf8_string()),
        ]
    );
    assert_eq!(NumberOrText::extended_variants(), None);
    assert_eq!(NumberOrText::identifiers(), vec!["number", "text"]);
}

#[test]
fn from_tag_resolves_first_match() {
    assert_eq!(NumberOrText::from_tag(Tag::integer()), Some(0));
    assert_eq!(NumberOrText::from_tag(Tag::utf8_string()), Some(1));
}

#[test]
fn from_tag_reports_no_match() {
    assert_eq!(NumberOrText::from_tag(Tag::boolean()), None);
    assert_eq!(NumberOrText::from_tag(Tag::sequence()), None);
}

#[test]
fn choice_scenario() {
    assert_eq!(NumberOrText::from_tag(Tag::utf8_string()), Some(1));
    assert_eq!(NumberOrText::from_tag(Tag::boolean()), None);
}

#[test]
fn tag_tree_containment_is_recursive() {
    let nested = TagTree::Choice(vec![
        TagTree::Leaf(Tag::integer()),
        TagTree::Choice(vec![TagTree::Leaf(Tag::boolean())]),
    ]);
    assert!(nested.contains_tag(Tag::integer()));
    assert!(nested.contains_tag(Tag::boolean()));
    assert!(!nested.contains_tag(Tag::utf8_string()));
}

#[test]
fn empty_choice_tree_contains_nothing() {
    let open_tree = TagTree::Choice(vec![]);
    assert!(!open_tree.contains_tag(Tag::integer()));
    assert!(!open_tree.contains_tag(Tag::eoc()));
}

#[test]
fn constructed_field_layout() {
    let fields = LabeledNumber::fields();
    assert_eq!(fields.len(), 2);
    assert!(!fields.is_empty());
    assert_eq!(fields.number_of_optional_and_default_fields(), 1);
    assert_eq!(LabeledNumber::extended_fields(), None);
    assert_eq!(<LabeledNumber as AsnType>::tag(), Tag::sequence());
}
