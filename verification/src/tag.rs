//! Identity and structural shape of an ASN.1 type's tag(s).
//!
//! A [`Tag`] is a `(class, number)` pair identifying a type's wire identity.
//! A [`TagTree`] is the recursive shape a CHOICE type exposes: a `Leaf` for an
//! ordinary type, or a `Choice` over the trees of its alternatives.

use vstd::prelude::*;

verus! {

/// The class of an ASN.1 tag.
#[derive(Clone, Copy, PartialEq, Eq, Structural, Debug, Hash, PartialOrd, Ord)]
pub enum Class {
    Universal,
    Application,
    Context,
    Private,
}

/// An ASN.1 tag: a class together with a non-negative tag number. Totally
/// ordered, so tag-tree traversal can be made deterministic.
#[derive(Clone, Copy, PartialEq, Eq, Structural, Debug, Hash, PartialOrd, Ord)]
pub struct Tag {
    pub class: Class,
    pub number: u32,
}

impl Tag {
    /// Builds the tag with the given class and number.
    #[verifier::allow_in_spec]
    pub fn new(class: Class, number: u32) -> Tag
        returns
            (Tag { class, number }),
    {
        Tag { class, number }
    }

    /// The end-of-contents sentinel, also used as the placeholder tag of
    /// CHOICE types.
    #[verifier::allow_in_spec]
    pub fn eoc() -> Tag
        returns
            (Tag { class: Class::Universal, number: 0 }),
    {
        Tag { class: Class::Universal, number: 0 }
    }

    /// The universal tag of BOOLEAN.
    #[verifier::allow_in_spec]
    pub fn boolean() -> Tag
        returns
            (Tag { class: Class::Universal, number: 1 }),
    {
        Tag { class: Class::Universal, number: 1 }
    }

    /// The universal tag of INTEGER.
    #[verifier::allow_in_spec]
    pub fn integer() -> Tag
        returns
            (Tag { class: Class::Universal, number: 2 }),
    {
        Tag { class: Class::Universal, number: 2 }
    }

    /// The universal tag of BIT STRING.
    #[verifier::allow_in_spec]
    pub fn bit_string() -> Tag
        returns
            (Tag { class: Class::Universal, number: 3 }),
    {
        Tag { class: Class::Universal, number: 3 }
    }

    /// The universal tag of OCTET STRING.
    #[verifier::allow_in_spec]
    pub fn octet_string() -> Tag
        returns
            (Tag { class: Class::Universal, number: 4 }),
    {
        Tag { class: Class::Universal, number: 4 }
    }

    /// The universal tag of NULL.
    #[verifier::allow_in_spec]
    pub fn null() -> Tag
        returns
            (Tag { class: Class::Universal, number: 5 }),
    {
        Tag { class: Class::Universal, number: 5 }
    }

    /// The universal tag of OBJECT IDENTIFIER.
    #[verifier::allow_in_spec]
    pub fn object_identifier() -> Tag
        returns
            (Tag { class: Class::Universal, number: 6 }),
    {
        Tag { class: Class::Universal, number: 6 }
    }

    /// The universal tag of ENUMERATED.
    #[verifier::allow_in_spec]
    pub fn enumerated() -> Tag
        returns
            (Tag { class: Class::Universal, number: 10 }),
    {
        Tag { class: Class::Universal, number: 10 }
    }

    /// The universal tag of UTF8String.
    #[verifier::allow_in_spec]
    pub fn utf8_string() -> Tag
        returns
            (Tag { class: Class::Universal, number: 12 }),
    {
        Tag { class: Class::Universal, number: 12 }
    }

    /// The universal tag of SEQUENCE and SEQUENCE OF.
    #[verifier::allow_in_spec]
    pub fn sequence() -> Tag
        returns
            (Tag { class: Class::Universal, number: 16 }),
    {
        Tag { class: Class::Universal, number: 16 }
    }

    /// The universal tag of SET and SET OF.
    #[verifier::allow_in_spec]
    pub fn set() -> Tag
        returns
            (Tag { class: Class::Universal, number: 17 }),
    {
        Tag { class: Class::Universal, number: 17 }
    }

    /// The universal tag of UTCTime.
    #[verifier::allow_in_spec]
    pub fn utc_time() -> Tag
        returns
            (Tag { class: Class::Universal, number: 23 }),
    {
        Tag { class: Class::Universal, number: 23 }
    }

    /// The universal tag of GeneralizedTime.
    #[verifier::allow_in_spec]
    pub fn generalized_time() -> Tag
        returns
            (Tag { class: Class::Universal, number: 24 }),
    {
        Tag { class: Class::Universal, number: 24 }
    }
}

/// The tree of tags a type can begin with: a single `Leaf` for ordinary
/// types, or a `Choice` over the alternatives' trees for CHOICE types.
/// `Choice` of an empty list denotes the abstract open ("any") type.
#[derive(PartialEq, Eq, Debug)]
pub enum TagTree {
    Leaf(Tag),
    Choice(Vec<TagTree>),
}

impl TagTree {
    /// Whether `tag` occurs at some leaf of the tree.
    pub open spec fn spec_contains(self, tag: Tag) -> bool
        decreases self,
    {
        match self {
            TagTree::Leaf(leaf) => leaf == tag,
            TagTree::Choice(subtrees) => exists|i: int|
                0 <= i < subtrees@.len() && (#[trigger] subtrees@[i]).spec_contains(tag),
        }
    }

    /// Whether `tag` occurs at some leaf of the tree.
    pub fn contains_tag(&self, tag: Tag) -> (r: bool)
        ensures
            r == self.spec_contains(tag),
        decreases *self,
    {
        match self {
            TagTree::Leaf(leaf) => *leaf == tag,
            TagTree::Choice(subtrees) => {
                let n = subtrees.len();
                let mut i: usize = 0;
                while i < n
                    invariant
                        *self == TagTree::Choice(*subtrees),
                        n == subtrees@.len(),
                        0 <= i <= n,
                        forall|j: int| 0 <= j < i ==> !(#[trigger] subtrees@[j]).spec_contains(tag),
                    decreases n - i,
                {
                    proof {
                        assert(*self == TagTree::Choice(*subtrees));
                        assert(decreases_to!(*self => self->Choice_0));
                        assert(decreases_to!(*subtrees => subtrees@[i as int]));
                    }
                    if subtrees[i].contains_tag(tag) {
                        proof {
                            assert(subtrees@[i as int].spec_contains(tag));
                            assert(self.spec_contains(tag));
                        }
                        return true;
                    }
                    i += 1;
                }
                false
            },
        }
    }
}

/// The zero-based position of the first tree in `trees` that contains `tag`,
/// if any tree does.
pub open spec fn first_matching(trees: Seq<TagTree>, tag: Tag) -> Option<int>
    decreases trees.len(),
{
    if trees.len() == 0 {
        None
    } else if trees[0].spec_contains(tag) {
        Some(0int)
    } else {
        match first_matching(trees.subrange(1, trees.len() as int), tag) {
            Some(i) => Some(i + 1),
            None => None,
        }
    }
}

/// If no tree before position `i` contains `tag`, then a match at `i` is the
/// first match, and no match at all leaves the whole search empty-handed.
pub proof fn lemma_first_matching_from(trees: Seq<TagTree>, tag: Tag, i: int)
    requires
        0 <= i <= trees.len(),
        forall|j: int| 0 <= j < i ==> !(#[trigger] trees[j]).spec_contains(tag),
    ensures
        i < trees.len() && trees[i].spec_contains(tag) ==> first_matching(trees, tag) == Some(i),
        i == trees.len() ==> first_matching(trees, tag) is None,
    decreases trees.len(),
{
    if i == 0 {
    } else {
        let tail = trees.subrange(1, trees.len() as int);
        assert(forall|j: int| 0 <= j < i - 1 ==> tail[j] == trees[j + 1]);
        lemma_first_matching_from(tail, tag, i - 1);
        if i < trees.len() && trees[i].spec_contains(tag) {
            assert(tail[i - 1] == trees[i]);
        }
    }
}

} // verus!
