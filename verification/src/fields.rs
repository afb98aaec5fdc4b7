//! Ordered metadata describing the members of a SEQUENCE or SET type.

use crate::tag::Tag;
use vstd::prelude::*;

verus! {

/// Whether a member must appear, may be absent, or falls back to a declared
/// default value when absent.
#[derive(Clone, Copy, PartialEq, Eq, Structural, Debug)]
pub enum FieldPresence {
    Required,
    Optional,
    Defaulted,
}

/// One member of a constructed type: its tag and its presence rule.
#[derive(Clone, Copy, PartialEq, Eq, Structural, Debug)]
pub struct Field {
    pub tag: Tag,
    pub presence: FieldPresence,
}

impl Field {
    /// A member that must always appear.
    #[verifier::allow_in_spec]
    pub fn new_required(tag: Tag) -> Field
        returns
            (Field { tag: tag, presence: FieldPresence::Required }),
    {
        Field { tag, presence: FieldPresence::Required }
    }

    /// A member that may be absent.
    #[verifier::allow_in_spec]
    pub fn new_optional(tag: Tag) -> Field
        returns
            (Field { tag: tag, presence: FieldPresence::Optional }),
    {
        Field { tag, presence: FieldPresence::Optional }
    }

    /// A member that falls back to a default value when absent.
    #[verifier::allow_in_spec]
    pub fn new_defaulted(tag: Tag) -> Field
        returns
            (Field { tag: tag, presence: FieldPresence::Defaulted }),
    {
        Field { tag, presence: FieldPresence::Defaulted }
    }

    /// Whether the member is allowed to be absent on the wire.
    pub open spec fn is_not_required(self) -> bool {
        self.presence != FieldPresence::Required
    }
}

/// How many members of the list may be absent on the wire.
pub open spec fn count_not_required(s: Seq<Field>) -> int
    decreases s.len(),
{
    if s.len() == 0 {
        0
    } else {
        (if s[0].is_not_required() {
            1int
        } else {
            0int
        }) + count_not_required(s.subrange(1, s.len() as int))
    }
}

/// The counted members are never more numerous than the list.
pub proof fn lemma_count_not_required_bound(s: Seq<Field>)
    ensures
        0 <= count_not_required(s) <= s.len(),
    decreases s.len(),
{
    if s.len() > 0 {
        lemma_count_not_required_bound(s.subrange(1, s.len() as int));
    }
}

/// The ordered member list of a constructed type, in declaration order.
#[derive(PartialEq, Eq, Debug)]
pub struct Fields(pub Vec<Field>);

impl View for Fields {
    type V = Seq<Field>;

    open spec fn view(&self) -> Seq<Field> {
        self.0@
    }
}

impl Fields {
    /// Wraps an ordered member list.
    pub fn new(items: Vec<Field>) -> (f: Fields)
        ensures
            f@ == items@,
    {
        Fields(items)
    }

    /// The member list of a type with no members.
    pub fn empty() -> (f: Fields)
        ensures
            f@ == Seq::<Field>::empty(),
    {
        Fields(Vec::new())
    }

    /// How many members the list holds.
    pub fn len(&self) -> (n: usize)
        ensures
            n == self@.len(),
    {
        self.0.len()
    }

    /// Whether the list holds no member.
    pub fn is_empty(&self) -> (r: bool)
        ensures
            r == (self@.len() == 0),
    {
        self.0.len() == 0
    }

    /// How many members may be absent on the wire: the count a codec needs to
    /// size a presence preamble.
    pub fn number_of_optional_and_default_fields(&self) -> (n: usize)
        ensures
            n == count_not_required(self@),
    {
        let total = self.0.len();
        proof {
            assert(self@.subrange(0, total as int) =~= self@);
        }
        let mut n: usize = 0;
        let mut i: usize = 0;
        while i < total
            invariant
                total == self@.len(),
                0 <= i <= total,
                n <= i,
                n + count_not_required(self@.subrange(i as int, total as int))
                    == count_not_required(self@),
            decreases total - i,
        {
            proof {
                lemma_count_not_required_bound(self@.subrange(i as int, total as int));
                assert(self@.subrange(i as int, total as int)[0] == self@[i as int]);
                assert(self@.subrange(i as int, total as int).subrange(
                    1,
                    (total - i) as int,
                ) =~= self@.subrange(i as int + 1, total as int));
            }
            let field = self.0[i];
            match field.presence {
                FieldPresence::Required => {},
                FieldPresence::Optional => {
                    n += 1;
                },
                FieldPresence::Defaulted => {
                    n += 1;
                },
            }
            i += 1;
        }
        proof {
            assert(self@.subrange(total as int, total as int).len() == 0);
        }
        n
    }
}

} // verus!
