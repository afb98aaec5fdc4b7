//! Hand-written descriptor tables for a few small ASN.1 types.
//!
//! These show the shape of the tables a code generator emits for
//! user-declared types, and they discharge the capabilities' proof
//! obligations on concrete tables: an ENUMERATED type with an extension
//! variant, a CHOICE over two tagged alternatives, and a SEQUENCE with an
//! optional member.

use crate::fields::{Field, Fields};
use crate::lookup::{distinct_values, ext_or_empty, has_variant_entry};
use crate::tag::{Tag, TagTree};
use crate::types::{AsnType, Choice, Constructed, DecodeChoice, Enumerated};
use vstd::prelude::*;

verus! {

/// An ENUMERATED type with root variants `Red = 0`, `Green = 1` and
/// `Blue = 2`, and one variant `Purple = 10` declared after the extension
/// marker.
#[derive(Clone, Copy, PartialEq, Eq, Structural, Debug)]
pub enum Color {
    Red,
    Green,
    Blue,
    Purple,
}

impl AsnType for Color {
    open spec fn spec_tag() -> Tag {
        Tag::enumerated()
    }

    fn tag() -> (t: Tag) {
        Tag::enumerated()
    }
}

impl Enumerated for Color {
    open spec fn spec_variants() -> Seq<Color> {
        seq![Color::Red, Color::Green, Color::Blue]
    }

    open spec fn spec_extended_variants() -> Option<Seq<Color>> {
        Some(seq![Color::Purple])
    }

    open spec fn spec_discriminants() -> Seq<(Color, isize)> {
        seq![(Color::Red, 0isize), (Color::Green, 1isize), (Color::Blue, 2isize)]
    }

    open spec fn spec_extended_discriminants() -> Option<Seq<(Color, isize)>> {
        Some(seq![(Color::Purple, 10isize)])
    }

    fn variants() -> (v: Vec<Color>) {
        let mut v: Vec<Color> = Vec::new();
        v.push(Color::Red);
        v.push(Color::Green);
        v.push(Color::Blue);
        proof {
            assert(v@ =~= Self::spec_variants());
        }
        v
    }

    fn extended_variants() -> (v: Option<Vec<Color>>) {
        let mut list: Vec<Color> = Vec::new();
        list.push(Color::Purple);
        proof {
            assert(list@ =~= seq![Color::Purple]);
        }
        Some(list)
    }

    fn discriminants() -> (v: Vec<(Color, isize)>) {
        let mut v: Vec<(Color, isize)> = Vec::new();
        v.push((Color::Red, 0isize));
        v.push((Color::Green, 1isize));
        v.push((Color::Blue, 2isize));
        proof {
            assert(v@ =~= Self::spec_discriminants());
        }
        v
    }

    fn extended_discriminants() -> (v: Option<Vec<(Color, isize)>>) {
        let mut list: Vec<(Color, isize)> = Vec::new();
        list.push((Color::Purple, 10isize));
        proof {
            assert(list@ =~= seq![(Color::Purple, 10isize)]);
        }
        Some(list)
    }

    fn eq_variant(&self, other: &Color) -> (r: bool) {
        *self == *other
    }

    proof fn tables_consistent() {
        let vars = Self::spec_variants();
        let exts = ext_or_empty(Self::spec_extended_variants());
        let discs = Self::spec_discriminants();
        let ext_discs = ext_or_empty(Self::spec_extended_discriminants());
        let all = discs + ext_discs;
        assert(all.len() == 4);
        assert(all[0] == (Color::Red, 0isize));
        assert(all[1] == (Color::Green, 1isize));
        assert(all[2] == (Color::Blue, 2isize));
        assert(all[3] == (Color::Purple, 10isize));
        assert forall|i: int| 0 <= i < vars.len() implies has_variant_entry(
            discs,
            vars[i],
        ) by {
            if i == 0 {
                assert(discs[0].0 == vars[i]);
            } else if i == 1 {
                assert(discs[1].0 == vars[i]);
            } else {
                assert(discs[2].0 == vars[i]);
            }
        }
        assert forall|i: int| 0 <= i < exts.len() implies has_variant_entry(
            ext_discs,
            exts[i],
        ) by {
            assert(ext_discs[0].0 == exts[i]);
        }
        assert(distinct_values(all)) by {
            assert forall|j: int, k: int| 0 <= j < k < all.len() implies all[j].1 != all[k].1 by {
                assert(all[0].1 == 0 && all[1].1 == 1 && all[2].1 == 2 && all[3].1 == 10);
            }
        }
    }
}

/// A CHOICE between an INTEGER alternative and a UTF8String alternative.
#[derive(PartialEq, Eq, Debug)]
pub enum NumberOrText {
    Number(i64),
    Text(String),
}

impl AsnType for NumberOrText {
    open spec fn spec_tag() -> Tag {
        Tag::eoc()
    }

    fn tag() -> (t: Tag) {
        Tag::eoc()
    }

    fn tag_tree() -> (t: TagTree)
        ensures
            t matches TagTree::Choice(list) && list@ == seq![
                TagTree::Leaf(Tag::integer()),
                TagTree::Leaf(Tag::utf8_string()),
            ],
    {
        let mut list: Vec<TagTree> = Vec::new();
        list.push(TagTree::Leaf(Tag::integer()));
        list.push(TagTree::Leaf(Tag::utf8_string()));
        proof {
            assert(list@ =~= seq![TagTree::Leaf(Tag::integer()), TagTree::Leaf(Tag::utf8_string())]);
        }
        TagTree::Choice(list)
    }
}

impl Choice for NumberOrText {
    open spec fn spec_variants() -> Seq<TagTree> {
        seq![TagTree::Leaf(Tag::integer()), TagTree::Leaf(Tag::utf8_string())]
    }

    open spec fn spec_extended_variants() -> Option<Seq<TagTree>> {
        None
    }

    open spec fn spec_identifiers() -> Seq<&'static str> {
        seq!["number", "text"]
    }

    fn variants() -> (v: Vec<TagTree>) {
        let mut v: Vec<TagTree> = Vec::new();
        v.push(TagTree::Leaf(Tag::integer()));
        v.push(TagTree::Leaf(Tag::utf8_string()));
        proof {
            assert(v@ =~= Self::spec_variants());
        }
        v
    }

    fn extended_variants() -> (v: Option<Vec<TagTree>>) {
        None
    }

    fn identifiers() -> (v: Vec<&'static str>) {
        let mut v: Vec<&'static str> = Vec::new();
        v.push("number");
        v.push("text");
        proof {
            assert(v@ =~= Self::spec_identifiers());
        }
        v
    }
}

impl DecodeChoice for NumberOrText {
}

/// A SEQUENCE with a required INTEGER member and an optional UTF8String
/// member.
#[derive(PartialEq, Eq, Debug)]
pub struct LabeledNumber {
    pub number: i64,
    pub label: Option<String>,
}

impl AsnType for LabeledNumber {
    open spec fn spec_tag() -> Tag {
        Tag::sequence()
    }

    fn tag() -> (t: Tag) {
        Tag::sequence()
    }
}

impl Constructed for LabeledNumber {
    open spec fn spec_fields() -> Seq<Field> {
        seq![Field::new_required(Tag::integer()), Field::new_optional(Tag::utf8_string())]
    }

    fn fields() -> (f: Fields) {
        let mut v: Vec<Field> = Vec::new();
        v.push(Field::new_required(Tag::integer()));
        v.push(Field::new_optional(Tag::utf8_string()));
        let f = Fields::new(v);
        proof {
            assert(f@ =~= Self::spec_fields());
        }
        f
    }
}

} // verus!
