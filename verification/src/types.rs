//! The capability traits that give a type machine-readable ASN.1 semantics.
//!
//! A concrete type implements one or more of these traits (by hand or through
//! a generator); a codec then reads the descriptors alone to drive tag
//! matching, bound enforcement, member iteration and variant resolution, with
//! no per-type logic of its own.

use crate::constraints::{Constraint, Constraints};
use crate::fields::{Field, Fields};
use crate::lookup::{
    distinct_values, enum_tables_wf, ext_or_empty, find_value, find_variant, first_index,
    has_variant_entry, index_lookup, lemma_discriminant_round_trip, lemma_find_value_from,
    lemma_find_variant_from, lemma_first_index_from, lemma_index_round_trip,
};
use crate::tag::{first_matching, lemma_first_matching_from, Tag, TagTree};
use vstd::pervasive::unreached;
use vstd::prelude::*;

verus! {

/// A trait representing any type that can be represented in ASN.1.
pub trait AsnType {
    /// The tag of the type, at the specification level.
    spec fn spec_tag() -> Tag;

    /// The associated tag for the type.
    ///
    /// CHOICE types set this to `Tag::eoc()` and carry their real tags in
    /// [`Self::tag_tree`].
    fn tag() -> (t: Tag)
        ensures
            t == Self::spec_tag(),
    ;

    /// The root of the type's tree of tags. By default a leaf holding the
    /// type's own tag; CHOICE types override it with the tree of their
    /// variants' tags.
    fn tag_tree() -> (t: TagTree)
        default_ensures
            t == TagTree::Leaf(Self::spec_tag()),
    {
        TagTree::Leaf(Self::tag())
    }

    /// The constraints the type declares; none by default.
    fn constraints() -> (c: Constraints)
        default_ensures
            c@ == Seq::<Constraint>::empty(),
    {
        Constraints::none()
    }
}

/// A `SET` or `SEQUENCE` value.
pub trait Constructed {
    /// The members of the root component list, at the specification level.
    spec fn spec_fields() -> Seq<Field>;

    /// Fields contained in the root component list.
    fn fields() -> (f: Fields)
        ensures
            f@ == Self::spec_fields(),
    ;

    /// Fields contained in the list of extensions; `None` when the type is
    /// not extensible, which is the default.
    fn extended_fields() -> (f: Option<Fields>)
        default_ensures
            f is None,
    {
        None
    }
}

/// A `CHOICE` value.
pub trait Choice: Sized {
    /// The root variants' tag trees, at the specification level.
    spec fn spec_variants() -> Seq<TagTree>;

    /// The extension variants' tag trees, `None` when not extensible.
    spec fn spec_extended_variants() -> Option<Seq<TagTree>>;

    /// The variant names, at the specification level.
    spec fn spec_identifiers() -> Seq<&'static str>;

    /// Variants contained in the root component list.
    fn variants() -> (v: Vec<TagTree>)
        ensures
            v@ == Self::spec_variants(),
    ;

    /// Variants contained in the list of extensions.
    fn extended_variants() -> (v: Option<Vec<TagTree>>)
        ensures
            match v {
                Some(list) => Self::spec_extended_variants() == Some(list@),
                None => Self::spec_extended_variants() is None,
            },
    ;

    /// Variant identifiers for text-based encoding rules: one name for each
    /// root and extension variant, in declaration order.
    fn identifiers() -> (v: Vec<&'static str>)
        ensures
            v@ == Self::spec_identifiers(),
            v@.len() == Self::spec_variants().len() + ext_or_empty(
                Self::spec_extended_variants(),
            ).len(),
    ;
}

/// Every variant tree of a CHOICE type: the root trees first, then the
/// extension trees in declaration order.
pub open spec fn all_choice_variants<C: Choice>() -> Seq<TagTree> {
    C::spec_variants() + ext_or_empty(C::spec_extended_variants())
}

/// A `CHOICE` value that can be resolved from a decoded tag.
pub trait DecodeChoice: Choice {
    /// The position of the variant a decoder should read for `tag`: the first
    /// variant, roots before extensions, whose tag tree contains `tag`.
    /// Reports absence when no variant's tree does; the calling codec turns
    /// that into a structured decode error.
    fn from_tag(tag: Tag) -> (r: Option<usize>)
        requires
            all_choice_variants::<Self>().len() <= usize::MAX,
        ensures
            match r {
                Some(i) => first_matching(all_choice_variants::<Self>(), tag) == Some(i as int),
                None => first_matching(all_choice_variants::<Self>(), tag) is None,
            },
    {
        let ghost all = all_choice_variants::<Self>();
        let vars = Self::variants();
        let n = vars.len();
        let mut i: usize = 0;
        while i < n
            invariant
                all == all_choice_variants::<Self>(),
                vars@ == Self::spec_variants(),
                n == vars@.len(),
                0 <= i <= n,
                forall|j: int| 0 <= j < i ==> !(#[trigger] all[j]).spec_contains(tag),
            decreases n - i,
        {
            proof {
                assert(all[i as int] == vars@[i as int]);
            }
            if vars[i].contains_tag(tag) {
                proof {
                    lemma_first_matching_from(all, tag, i as int);
                }
                return Some(i);
            }
            i += 1;
        }
        match Self::extended_variants() {
            Some(ext) => {
                let m = ext.len();
                let mut k: usize = 0;
                while k < m
                    invariant
                        all == all_choice_variants::<Self>(),
                        Self::spec_extended_variants() == Some(ext@),
                        n == Self::spec_variants().len(),
                        m == ext@.len(),
                        all.len() == n + m,
                        all.len() <= usize::MAX,
                        0 <= k <= m,
                        forall|j: int|
                            0 <= j < n + k ==> !(#[trigger] all[j]).spec_contains(tag),
                    decreases m - k,
                {
                    proof {
                        assert(all[n as int + k as int] == ext@[k as int]);
                    }
                    if ext[k].contains_tag(tag) {
                        proof {
                            lemma_first_matching_from(all, tag, n as int + k as int);
                        }
                        return Some(n + k);
                    }
                    k += 1;
                }
                proof {
                    lemma_first_matching_from(all, tag, all.len() as int);
                }
                None
            },
            None => {
                proof {
                    assert(all =~= Self::spec_variants());
                    lemma_first_matching_from(all, tag, all.len() as int);
                }
                None
            },
        }
    }
}

/// The combined discriminant table of an ENUMERATED type: root entries first,
/// then extension entries.
pub open spec fn all_discriminants<E: Enumerated>() -> Seq<(E, isize)> {
    E::spec_discriminants() + ext_or_empty(E::spec_extended_discriminants())
}

/// Every variant of an ENUMERATED type: roots first, then extensions.
pub open spec fn all_variants<E: Enumerated>() -> Seq<E> {
    E::spec_variants() + ext_or_empty(E::spec_extended_variants())
}

/// An `ENUMERATED` value.
///
/// The split between fatal and fail-soft lookups is deliberate: encoding
/// queries (variant to index or discriminant) walk author-controlled tables,
/// so a missing entry is a schema defect and is excluded by precondition;
/// decoding queries (wire value to variant) stay total and report absence.
pub trait Enumerated: Sized + Copy {
    /// The root variants, in declaration order, at the specification level.
    spec fn spec_variants() -> Seq<Self>;

    /// The extension variants, `None` when not extensible.
    spec fn spec_extended_variants() -> Option<Seq<Self>>;

    /// The root discriminant table, at the specification level.
    spec fn spec_discriminants() -> Seq<(Self, isize)>;

    /// The extension discriminant table, `None` when not extensible.
    spec fn spec_extended_discriminants() -> Option<Seq<(Self, isize)>>;

    /// Variants contained in the root component list.
    fn variants() -> (v: Vec<Self>)
        ensures
            v@ == Self::spec_variants(),
    ;

    /// Variants contained in the list of extensions.
    fn extended_variants() -> (v: Option<Vec<Self>>)
        ensures
            match v {
                Some(list) => Self::spec_extended_variants() == Some(list@),
                None => Self::spec_extended_variants() is None,
            },
    ;

    /// Root variants mapped to their respective discriminant.
    fn discriminants() -> (v: Vec<(Self, isize)>)
        ensures
            v@ == Self::spec_discriminants(),
    ;

    /// Extension variants mapped to their respective discriminant, if
    /// present.
    fn extended_discriminants() -> (v: Option<Vec<(Self, isize)>>)
        ensures
            match v {
                Some(list) => Self::spec_extended_discriminants() == Some(list@),
                None => Self::spec_extended_discriminants() is None,
            },
    ;

    /// Equality of variants, agreeing with specification-level equality.
    fn eq_variant(&self, other: &Self) -> (r: bool)
        ensures
            r == (*self == *other),
    ;

    /// The obligation every implementation discharges: its tables are well
    /// formed, so in particular discriminants are unique across the combined
    /// root and extension tables.
    proof fn tables_consistent()
        ensures
            enum_tables_wf(
                Self::spec_variants(),
                Self::spec_extended_variants(),
                Self::spec_discriminants(),
                Self::spec_extended_discriminants(),
            ),
    ;

    /// Returns the number of root variants.
    fn variance() -> (n: usize)
        ensures
            n == Self::spec_variants().len(),
    {
        let v = Self::variants();
        v.len()
    }

    /// Returns the number of extension variants, zero when there are none.
    fn extended_variance() -> (n: usize)
        ensures
            n == ext_or_empty(Self::spec_extended_variants()).len(),
    {
        match Self::extended_variants() {
            Some(list) => list.len(),
            None => 0,
        }
    }

    /// Returns the number of root and extension variants together.
    fn complete_variance() -> (n: usize)
        requires
            Self::spec_variants().len() + ext_or_empty(Self::spec_extended_variants()).len()
                <= usize::MAX,
        ensures
            n == Self::spec_variants().len() + ext_or_empty(
                Self::spec_extended_variants(),
            ).len(),
    {
        let root = Self::variance();
        let ext = Self::extended_variance();
        root + ext
    }

    /// Whether `self` is one of the extension variants.
    fn is_extended_variant(&self) -> (r: bool)
        ensures
            r == ext_or_empty(Self::spec_extended_variants()).contains(*self),
    {
        match Self::extended_variants() {
            Some(list) => {
                let n = list.len();
                let mut i: usize = 0;
                while i < n
                    invariant
                        Self::spec_extended_variants() == Some(list@),
                        n == list@.len(),
                        0 <= i <= n,
                        forall|j: int| 0 <= j < i ==> list@[j] != *self,
                    decreases n - i,
                {
                    if list[i].eq_variant(self) {
                        return true;
                    }
                    i += 1;
                }
                false
            },
            None => false,
        }
    }

    /// The enumeration index of the variant: its position within the
    /// extension variants when it is one of them, otherwise its position
    /// within the root variants. A variant missing from its own tables is a
    /// schema defect and is excluded by precondition.
    fn enumeration_index(&self) -> (r: usize)
        requires
            Self::spec_variants().contains(*self) || ext_or_empty(
                Self::spec_extended_variants(),
            ).contains(*self),
        ensures
            ext_or_empty(Self::spec_extended_variants()).contains(*self) ==> r as int
                == first_index(ext_or_empty(Self::spec_extended_variants()), *self),
            !ext_or_empty(Self::spec_extended_variants()).contains(*self) ==> r as int
                == first_index(Self::spec_variants(), *self),
    {
        if self.is_extended_variant() {
            match Self::extended_variants() {
                Some(list) => {
                    let n = list.len();
                    let mut i: usize = 0;
                    while i < n
                        invariant
                            Self::spec_extended_variants() == Some(list@),
                            list@.contains(*self),
                            n == list@.len(),
                            0 <= i <= n,
                            forall|j: int| 0 <= j < i ==> list@[j] != *self,
                        decreases n - i,
                    {
                        if list[i].eq_variant(self) {
                            proof {
                                lemma_first_index_from(list@, *self, i as int);
                            }
                            return i;
                        }
                        i += 1;
                    }
                    proof {
                        lemma_first_index_from(list@, *self, n as int);
                        assert(false);
                    }
                    unreached()
                },
                None => unreached(),
            }
        } else {
            let list = Self::variants();
            let n = list.len();
            let mut i: usize = 0;
            while i < n
                invariant
                    list@ == Self::spec_variants(),
                    list@.contains(*self),
                    !ext_or_empty(Self::spec_extended_variants()).contains(*self),
                    n == list@.len(),
                    0 <= i <= n,
                    forall|j: int| 0 <= j < i ==> list@[j] != *self,
                decreases n - i,
            {
                if list[i].eq_variant(self) {
                    proof {
                        lemma_first_index_from(list@, *self, i as int);
                    }
                    return i;
                }
                i += 1;
            }
            proof {
                lemma_first_index_from(list@, *self, n as int);
                assert(false);
            }
            unreached()
        }
    }

    /// The discriminant of the variant: the value of its first entry in the
    /// root table, then the extension table. A variant missing from both is a
    /// schema defect and is excluded by precondition.
    fn discriminant(&self) -> (r: isize)
        requires
            has_variant_entry((Self::spec_discriminants() + ext_or_empty(Self::spec_extended_discriminants())), *self),
        ensures
            Some(r) == find_value((Self::spec_discriminants() + ext_or_empty(Self::spec_extended_discriminants())), *self),
    {
        let ghost all = (Self::spec_discriminants() + ext_or_empty(Self::spec_extended_discriminants()));
        let discs = Self::discriminants();
        let n = discs.len();
        let mut i: usize = 0;
        while i < n
            invariant
                all == (Self::spec_discriminants() + ext_or_empty(Self::spec_extended_discriminants())),
                discs@ == Self::spec_discriminants(),
                n == discs@.len(),
                0 <= i <= n,
                forall|j: int| 0 <= j < i ==> (#[trigger] all[j]).0 != *self,
            decreases n - i,
        {
            proof {
                assert(all[i as int] == discs@[i as int]);
            }
            let entry = discs[i];
            if entry.0.eq_variant(self) {
                proof {
                    lemma_find_value_from(all, *self, i as int);
                }
                return entry.1;
            }
            i += 1;
        }
        match Self::extended_discriminants() {
            Some(ext) => {
                let m = ext.len();
                let mut k: usize = 0;
                while k < m
                    invariant
                        all == (Self::spec_discriminants() + ext_or_empty(Self::spec_extended_discriminants())),
                        Self::spec_extended_discriminants() == Some(ext@),
                        n == Self::spec_discriminants().len(),
                        m == ext@.len(),
                        all.len() == n + m,
                        0 <= k <= m,
                        forall|j: int| 0 <= j < n + k ==> (#[trigger] all[j]).0 != *self,
                    decreases m - k,
                {
                    proof {
                        assert(all[n as int + k as int] == ext@[k as int]);
                    }
                    let entry = ext[k];
                    if entry.0.eq_variant(self) {
                        proof {
                            lemma_find_value_from(all, *self, n as int + k as int);
                        }
                        return entry.1;
                    }
                    k += 1;
                }
                proof {
                    lemma_find_value_from(all, *self, all.len() as int);
                    assert(false);
                }
                unreached()
            },
            None => {
                proof {
                    assert(all =~= Self::spec_discriminants());
                    lemma_find_value_from(all, *self, all.len() as int);
                    assert(false);
                }
                unreached()
            },
        }
    }

    /// Returns the variant carrying `value` as its discriminant, the root
    /// table searched before the extension table, or absence when no entry
    /// carries it. Driven by wire data, so it never fails.
    fn from_discriminant(value: isize) -> (r: Option<Self>)
        ensures
            r == find_variant((Self::spec_discriminants() + ext_or_empty(Self::spec_extended_discriminants())), value),
    {
        let ghost all = (Self::spec_discriminants() + ext_or_empty(Self::spec_extended_discriminants()));
        let discs = Self::discriminants();
        let n = discs.len();
        let mut i: usize = 0;
        while i < n
            invariant
                all == (Self::spec_discriminants() + ext_or_empty(Self::spec_extended_discriminants())),
                discs@ == Self::spec_discriminants(),
                n == discs@.len(),
                0 <= i <= n,
                forall|j: int| 0 <= j < i ==> (#[trigger] all[j]).1 != value,
            decreases n - i,
        {
            proof {
                assert(all[i as int] == discs@[i as int]);
            }
            let entry = discs[i];
            if entry.1 == value {
                proof {
                    lemma_find_variant_from(all, value, i as int);
                }
                return Some(entry.0);
            }
            i += 1;
        }
        match Self::extended_discriminants() {
            Some(ext) => {
                let m = ext.len();
                let mut k: usize = 0;
                while k < m
                    invariant
                        all == (Self::spec_discriminants() + ext_or_empty(Self::spec_extended_discriminants())),
                        Self::spec_extended_discriminants() == Some(ext@),
                        n == Self::spec_discriminants().len(),
                        m == ext@.len(),
                        all.len() == n + m,
                        0 <= k <= m,
                        forall|j: int| 0 <= j < n + k ==> (#[trigger] all[j]).1 != value,
                    decreases m - k,
                {
                    proof {
                        assert(all[n as int + k as int] == ext@[k as int]);
                    }
                    let entry = ext[k];
                    if entry.1 == value {
                        proof {
                            lemma_find_variant_from(all, value, n as int + k as int);
                        }
                        return Some(entry.0);
                    }
                    k += 1;
                }
                proof {
                    lemma_find_variant_from(all, value, all.len() as int);
                }
                None
            },
            None => {
                proof {
                    assert(all =~= Self::spec_discriminants());
                    lemma_find_variant_from(all, value, all.len() as int);
                }
                None
            },
        }
    }

    /// Returns the root variant at `index`, or absence when the index is out
    /// of range. Driven by wire data, so it never fails.
    fn from_enumeration_index(index: usize) -> (r: Option<Self>)
        ensures
            r == index_lookup(Self::spec_variants(), index as int),
    {
        let list = Self::variants();
        if index < list.len() {
            Some(list[index])
        } else {
            None
        }
    }

    /// Returns the extension variant at `index`, or absence when the index is
    /// out of range or there are no extension variants.
    fn from_extended_enumeration_index(index: usize) -> (r: Option<Self>)
        ensures
            r == index_lookup(ext_or_empty(Self::spec_extended_variants()), index as int),
    {
        match Self::extended_variants() {
            Some(list) => {
                if index < list.len() {
                    Some(list[index])
                } else {
                    None
                }
            },
            None => None,
        }
    }
}

/// Law: for every ENUMERATED type, discriminant values are pairwise distinct
/// across the combined root and extension tables.
pub proof fn lemma_enumerated_distinct_discriminants<E: Enumerated>()
    ensures
        distinct_values(all_discriminants::<E>()),
{
    E::tables_consistent();
}

/// Law: for every ENUMERATED type and every declared variant, looking the
/// variant's discriminant back up returns that variant.
pub proof fn lemma_enumerated_discriminant_round_trip<E: Enumerated>(v: E)
    requires
        all_variants::<E>().contains(v),
    ensures
        find_value(all_discriminants::<E>(), v) is Some,
        find_variant(all_discriminants::<E>(), find_value(all_discriminants::<E>(), v)->0)
            == Some(v),
{
    E::tables_consistent();
    let all = all_discriminants::<E>();
    let roots = E::spec_variants();
    let exts = ext_or_empty(E::spec_extended_variants());
    let discs = E::spec_discriminants();
    let ext_discs = ext_or_empty(E::spec_extended_discriminants());
    let w = choose|w: int| 0 <= w < all_variants::<E>().len() && all_variants::<E>()[w] == v;
    if w < roots.len() {
        assert(roots[w] == v);
        assert(has_variant_entry(discs, v));
        let j = choose|j: int| 0 <= j < discs.len() && (#[trigger] discs[j]).0 == v;
        assert(all[j] == discs[j]);
        assert(has_variant_entry(all, v));
    } else {
        assert(exts[w - roots.len()] == v);
        let j = choose|j: int| 0 <= j < ext_discs.len() && (#[trigger] ext_discs[j]).0 == v;
        assert(all[discs.len() + j] == ext_discs[j]);
        assert(has_variant_entry(all, v));
    }
    lemma_discriminant_round_trip(all, v);
}

/// Law: a root variant's first index looks back up to that variant, and an
/// extension variant's first extension index likewise.
pub proof fn lemma_enumerated_index_round_trip<E: Enumerated>(v: E)
    ensures
        E::spec_variants().contains(v) ==> index_lookup(
            E::spec_variants(),
            first_index(E::spec_variants(), v),
        ) == Some(v),
        ext_or_empty(E::spec_extended_variants()).contains(v) ==> index_lookup(
            ext_or_empty(E::spec_extended_variants()),
            first_index(ext_or_empty(E::spec_extended_variants()), v),
        ) == Some(v),
{
    if E::spec_variants().contains(v) {
        lemma_index_round_trip(E::spec_variants(), v);
    }
    if ext_or_empty(E::spec_extended_variants()).contains(v) {
        lemma_index_round_trip(ext_or_empty(E::spec_extended_variants()), v);
    }
}

} // verus!
