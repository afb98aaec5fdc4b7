//! First-match lookup over variant and discriminant tables, and the laws the
//! ENUMERATED capability guarantees over well-formed tables.
//!
//! Encode-direction queries (variant to number) walk author-controlled tables
//! and assume the tables are consistent; decode-direction queries (number to
//! variant) must stay total, since their input comes off the wire.

use vstd::prelude::*;

verus! {

/// The extension list of a table, or the empty sequence when the table has
/// none.
pub open spec fn ext_or_empty<T>(ext: Option<Seq<T>>) -> Seq<T> {
    match ext {
        Some(s) => s,
        None => Seq::empty(),
    }
}

/// Zero-based position of the first occurrence of `x` in `s`; meaningful only
/// when `s` contains `x`.
pub open spec fn first_index<T>(s: Seq<T>, x: T) -> int
    decreases s.len(),
{
    if s.len() == 0 {
        0
    } else if s[0] == x {
        0
    } else {
        1 + first_index(s.subrange(1, s.len() as int), x)
    }
}

/// The value of the first entry whose variant is `x`, if any entry's is.
pub open spec fn find_value<T>(entries: Seq<(T, isize)>, x: T) -> Option<isize>
    decreases entries.len(),
{
    if entries.len() == 0 {
        None
    } else if entries[0].0 == x {
        Some(entries[0].1)
    } else {
        find_value(entries.subrange(1, entries.len() as int), x)
    }
}

/// The variant of the first entry whose value is `d`, if any entry's is.
pub open spec fn find_variant<T>(entries: Seq<(T, isize)>, d: isize) -> Option<T>
    decreases entries.len(),
{
    if entries.len() == 0 {
        None
    } else if entries[0].1 == d {
        Some(entries[0].0)
    } else {
        find_variant(entries.subrange(1, entries.len() as int), d)
    }
}

/// Bounds-checked positional lookup.
pub open spec fn index_lookup<T>(s: Seq<T>, i: int) -> Option<T> {
    if 0 <= i < s.len() {
        Some(s[i])
    } else {
        None
    }
}

/// Whether some entry's variant is `x`.
pub open spec fn has_variant_entry<T>(entries: Seq<(T, isize)>, x: T) -> bool {
    exists|j: int| 0 <= j < entries.len() && (#[trigger] entries[j]).0 == x
}

/// Whether the entries carry pairwise distinct values.
pub open spec fn distinct_values<T>(entries: Seq<(T, isize)>) -> bool {
    forall|j: int, k: int|
        0 <= j < k < entries.len() ==> (#[trigger] entries[j]).1 != (#[trigger] entries[k]).1
}

/// Well-formedness of an ENUMERATED type's tables: the extension variant list
/// and the extension discriminant table are declared together; every root and
/// extension variant has an entry in its discriminant table; and discriminant
/// values are unique across the combined root and extension tables.
pub open spec fn enum_tables_wf<T>(
    variants: Seq<T>,
    extended_variants: Option<Seq<T>>,
    discriminants: Seq<(T, isize)>,
    extended_discriminants: Option<Seq<(T, isize)>>,
) -> bool {
    &&& (extended_variants is Some <==> extended_discriminants is Some)
    &&& (forall|i: int|
        0 <= i < variants.len() ==> has_variant_entry(discriminants, #[trigger] variants[i]))
    &&& (forall|i: int|
        0 <= i < ext_or_empty(extended_variants).len() ==> has_variant_entry(
            ext_or_empty(extended_discriminants),
            #[trigger] ext_or_empty(extended_variants)[i],
        ))
    &&& distinct_values(discriminants + ext_or_empty(extended_discriminants))
}

/// If no entry before position `i` has variant `x`, then an entry at `i` with
/// variant `x` is the one `find_value` reports, and no entry at all means the
/// search is empty-handed.
pub proof fn lemma_find_value_from<T>(entries: Seq<(T, isize)>, x: T, i: int)
    requires
        0 <= i <= entries.len(),
        forall|j: int| 0 <= j < i ==> (#[trigger] entries[j]).0 != x,
    ensures
        i < entries.len() && entries[i].0 == x ==> find_value(entries, x) == Some(entries[i].1),
        i == entries.len() ==> find_value(entries, x) is None,
    decreases entries.len(),
{
    if i > 0 {
        let tail = entries.subrange(1, entries.len() as int);
        assert(forall|j: int| 0 <= j < i - 1 ==> tail[j] == entries[j + 1]);
        lemma_find_value_from(tail, x, i - 1);
        if i < entries.len() {
            assert(tail[i - 1] == entries[i]);
        }
    }
}

/// The mirror of [`lemma_find_value_from`] for searching by value.
pub proof fn lemma_find_variant_from<T>(entries: Seq<(T, isize)>, d: isize, i: int)
    requires
        0 <= i <= entries.len(),
        forall|j: int| 0 <= j < i ==> (#[trigger] entries[j]).1 != d,
    ensures
        i < entries.len() && entries[i].1 == d ==> find_variant(entries, d) == Some(entries[i].0),
        i == entries.len() ==> find_variant(entries, d) is None,
    decreases entries.len(),
{
    if i > 0 {
        let tail = entries.subrange(1, entries.len() as int);
        assert(forall|j: int| 0 <= j < i - 1 ==> tail[j] == entries[j + 1]);
        lemma_find_variant_from(tail, d, i - 1);
        if i < entries.len() {
            assert(tail[i - 1] == entries[i]);
        }
    }
}

/// If no element before position `i` equals `x`, an element at `i` equal to
/// `x` makes `i` the first index, and no element at all means `s` does not
/// contain `x`.
pub proof fn lemma_first_index_from<T>(s: Seq<T>, x: T, i: int)
    requires
        0 <= i <= s.len(),
        forall|j: int| 0 <= j < i ==> s[j] != x,
    ensures
        i < s.len() && s[i] == x ==> first_index(s, x) == i,
        i == s.len() ==> !s.contains(x),
    decreases s.len(),
{
    if i > 0 {
        let tail = s.subrange(1, s.len() as int);
        assert(forall|j: int| 0 <= j < i - 1 ==> tail[j] == s[j + 1]);
        lemma_first_index_from(tail, x, i - 1);
        if i < s.len() {
            assert(tail[i - 1] == s[i]);
        }
    }
}

/// Searching for a value that sits at entry `j` of a table with pairwise
/// distinct values finds exactly that entry.
pub proof fn lemma_find_variant_unique<T>(entries: Seq<(T, isize)>, j: int)
    requires
        distinct_values(entries),
        0 <= j < entries.len(),
    ensures
        find_variant(entries, entries[j].1) == Some(entries[j].0),
{
    assert(forall|l: int| 0 <= l < j ==> (#[trigger] entries[l]).1 != entries[j].1);
    lemma_find_variant_from(entries, entries[j].1, j);
}

/// When some entry has variant `x`, `find_value` reports the first such
/// entry: this names its position.
pub proof fn lemma_find_value_witness<T>(entries: Seq<(T, isize)>, x: T) -> (j: int)
    requires
        has_variant_entry(entries, x),
    ensures
        0 <= j < entries.len(),
        entries[j].0 == x,
        find_value(entries, x) == Some(entries[j].1),
        forall|l: int| 0 <= l < j ==> (#[trigger] entries[l]).0 != x,
    decreases entries.len(),
{
    if entries[0].0 == x {
        lemma_find_value_from(entries, x, 0);
        0
    } else {
        let tail = entries.subrange(1, entries.len() as int);
        let w = choose|w: int| 0 <= w < entries.len() && (#[trigger] entries[w]).0 == x;
        assert(tail[w - 1] == entries[w]);
        assert(has_variant_entry(tail, x));
        let jt = lemma_find_value_witness(tail, x);
        assert(forall|l: int| 1 <= l < jt + 1 ==> (#[trigger] entries[l]) == tail[l - 1]);
        jt + 1
    }
}

/// Looking a variant's discriminant back up returns that variant: the
/// encode/decode round trip over any table with distinct values in which the
/// variant appears.
pub proof fn lemma_discriminant_round_trip<T>(entries: Seq<(T, isize)>, v: T)
    requires
        distinct_values(entries),
        has_variant_entry(entries, v),
    ensures
        find_value(entries, v) is Some,
        find_variant(entries, find_value(entries, v)->0) == Some(v),
{
    let j = lemma_find_value_witness(entries, v);
    lemma_find_variant_unique(entries, j);
}

/// Looking a variant's first index back up returns that variant: the
/// index round trip over any list that contains the variant.
pub proof fn lemma_index_round_trip<T>(s: Seq<T>, v: T)
    requires
        s.contains(v),
    ensures
        0 <= first_index(s, v) < s.len(),
        s[first_index(s, v)] == v,
        index_lookup(s, first_index(s, v)) == Some(v),
    decreases s.len(),
{
    if s[0] == v {
    } else {
        let tail = s.subrange(1, s.len() as int);
        let w = choose|w: int| 0 <= w < s.len() && s[w] == v;
        assert(tail[w - 1] == s[w]);
        assert(tail.contains(v));
        lemma_index_round_trip(tail, v);
    }
}

/// A discriminant no entry carries is reported as absent, and conversely:
/// decode-direction lookups degrade to an absent result instead of failing.
pub proof fn lemma_unmatched_discriminant<T>(entries: Seq<(T, isize)>, d: isize)
    ensures
        find_variant(entries, d) is None <==> forall|j: int|
            0 <= j < entries.len() ==> (#[trigger] entries[j]).1 != d,
    decreases entries.len(),
{
    if entries.len() > 0 {
        let tail = entries.subrange(1, entries.len() as int);
        lemma_unmatched_discriminant(tail, d);
        assert(forall|j: int| 1 <= j < entries.len() ==> tail[j - 1] == (#[trigger] entries[j]));
        if entries[0].1 != d && (forall|j: int|
            0 <= j < tail.len() ==> (#[trigger] tail[j]).1 != d) {
            assert(forall|j: int|
                0 <= j < entries.len() ==> (#[trigger] entries[j]).1 != d) by {
                assert forall|j: int| 0 <= j < entries.len() implies (#[trigger] entries[j]).1 != d
                by {
                    if j > 0 {
                        assert(tail[j - 1] == entries[j]);
                    }
                }
            }
        }
    }
}

} // verus!
