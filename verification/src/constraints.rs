//! Bounds and extensibility metadata for values and sizes.
//!
//! A [`Constraint`] restricts either a numeric value or a length; a
//! [`Constraints`] is the ordered list of restrictions a type declares.
//! Checking a value against a bound is a separate, explicit step: nothing in
//! this module rejects values on its own.

use vstd::prelude::*;

verus! {

/// A bound on a value or a length: absent, a single admitted value, or an
/// inclusive range whose ends may each be open.
#[derive(Clone, Copy, PartialEq, Eq, Debug)]
pub enum Bounded<T> {
    Unbounded,
    Single(T),
    Range { start: Option<T>, end: Option<T> },
}

impl<T> Bounded<T> {
    /// The inclusive range from `start` to `end`.
    #[verifier::allow_in_spec]
    pub fn new_range(start: T, end: T) -> Bounded<T>
        returns
            (Bounded::Range { start: Some(start), end: Some(end) }),
    {
        Bounded::Range { start: Some(start), end: Some(end) }
    }

    /// The bound admitting exactly `value`.
    #[verifier::allow_in_spec]
    pub fn single_value(value: T) -> Bounded<T>
        returns
            (Bounded::Single(value)),
    {
        Bounded::Single(value)
    }
}

impl Bounded<i128> {
    /// Whether `value` satisfies the bound.
    pub open spec fn spec_contains(self, value: i128) -> bool {
        match self {
            Bounded::Unbounded => true,
            Bounded::Single(single) => value == single,
            Bounded::Range { start, end } => (match start {
                Some(s) => s <= value,
                None => true,
            }) && (match end {
                Some(e) => value <= e,
                None => true,
            }),
        }
    }

    /// Whether `value` satisfies the bound.
    pub fn contains(&self, value: i128) -> (r: bool)
        ensures
            r == self.spec_contains(value),
    {
        match self {
            Bounded::Unbounded => true,
            Bounded::Single(single) => value == *single,
            Bounded::Range { start, end } => {
                let above = match start {
                    Some(s) => *s <= value,
                    None => true,
                };
                let below = match end {
                    Some(e) => value <= *e,
                    None => true,
                };
                above && below
            },
        }
    }
}

impl Bounded<usize> {
    /// Whether `length` satisfies the bound.
    pub open spec fn spec_contains_length(self, length: usize) -> bool {
        match self {
            Bounded::Unbounded => true,
            Bounded::Single(single) => length == single,
            Bounded::Range { start, end } => (match start {
                Some(s) => s <= length,
                None => true,
            }) && (match end {
                Some(e) => length <= e,
                None => true,
            }),
        }
    }

    /// Whether `length` satisfies the bound.
    pub fn contains_length(&self, length: usize) -> (r: bool)
        ensures
            r == self.spec_contains_length(length),
    {
        match self {
            Bounded::Unbounded => true,
            Bounded::Single(single) => length == *single,
            Bounded::Range { start, end } => {
                let above = match start {
                    Some(s) => *s <= length,
                    None => true,
                };
                let below = match end {
                    Some(e) => length <= *e,
                    None => true,
                };
                above && below
            },
        }
    }
}

/// A constraint together with the ASN.1 extension marker (`...`): when
/// `extensible` is set, values beyond the bound are tolerated rather than
/// rejected outright.
#[derive(Clone, Copy, PartialEq, Eq, Debug)]
pub struct Extensible<T> {
    pub constraint: T,
    pub extensible: bool,
}

impl<T> Extensible<T> {
    /// Wraps a constraint without the extension marker.
    #[verifier::allow_in_spec]
    pub fn new(constraint: T) -> Extensible<T>
        returns
            (Extensible { constraint: constraint, extensible: false }),
    {
        Extensible { constraint, extensible: false }
    }

    /// Wraps a constraint carrying the extension marker.
    #[verifier::allow_in_spec]
    pub fn new_extensible(constraint: T) -> Extensible<T>
        returns
            (Extensible { constraint: constraint, extensible: true }),
    {
        Extensible { constraint, extensible: true }
    }
}

/// A single restriction: on the numeric value, or on the length.
#[derive(Clone, Copy, PartialEq, Eq, Debug)]
pub enum Constraint {
    Value(Extensible<Bounded<i128>>),
    Size(Extensible<Bounded<usize>>),
}

/// The first `Value` constraint in the list, if one is present.
pub open spec fn spec_value_constraint(s: Seq<Constraint>) -> Option<Extensible<Bounded<i128>>>
    decreases s.len(),
{
    if s.len() == 0 {
        None
    } else {
        match s[0] {
            Constraint::Value(v) => Some(v),
            Constraint::Size(_) => spec_value_constraint(s.subrange(1, s.len() as int)),
        }
    }
}

/// The first `Size` constraint in the list, if one is present.
pub open spec fn spec_size_constraint(s: Seq<Constraint>) -> Option<Extensible<Bounded<usize>>>
    decreases s.len(),
{
    if s.len() == 0 {
        None
    } else {
        match s[0] {
            Constraint::Size(v) => Some(v),
            Constraint::Value(_) => spec_size_constraint(s.subrange(1, s.len() as int)),
        }
    }
}

/// The ordered list of constraints a type declares; the empty list means the
/// type is unconstrained.
#[derive(PartialEq, Eq, Debug)]
pub struct Constraints(pub Vec<Constraint>);

impl View for Constraints {
    type V = Seq<Constraint>;

    open spec fn view(&self) -> Seq<Constraint> {
        self.0@
    }
}

impl Constraints {
    /// The empty constraint list: an unconstrained type.
    pub fn none() -> (c: Constraints)
        ensures
            c@ == Seq::<Constraint>::empty(),
    {
        Constraints(Vec::new())
    }

    /// Wraps an ordered list of constraints.
    pub fn new(items: Vec<Constraint>) -> (c: Constraints)
        ensures
            c@ == items@,
    {
        Constraints(items)
    }

    /// How many constraints the list holds.
    pub fn len(&self) -> (n: usize)
        ensures
            n == self@.len(),
    {
        self.0.len()
    }

    /// The first `Value` constraint, if one is present.
    pub fn value_constraint(&self) -> (r: Option<Extensible<Bounded<i128>>>)
        ensures
            r == spec_value_constraint(self@),
    {
        let n = self.0.len();
        proof {
            assert(self@.subrange(0, n as int) =~= self@);
        }
        let mut i: usize = 0;
        while i < n
            invariant
                n == self@.len(),
                0 <= i <= n,
                spec_value_constraint(self@) == spec_value_constraint(
                    self@.subrange(i as int, n as int),
                ),
            decreases n - i,
        {
            proof {
                assert(self@.subrange(i as int, n as int)[0] == self@[i as int]);
                assert(self@.subrange(i as int, n as int).subrange(
                    1,
                    (n - i) as int,
                ) =~= self@.subrange(i as int + 1, n as int));
            }
            match self.0[i] {
                Constraint::Value(v) => {
                    return Some(v);
                },
                Constraint::Size(_) => {},
            }
            i += 1;
        }
        proof {
            assert(self@.subrange(n as int, n as int).len() == 0);
        }
        None
    }

    /// The first `Size` constraint, if one is present.
    pub fn size_constraint(&self) -> (r: Option<Extensible<Bounded<usize>>>)
        ensures
            r == spec_size_constraint(self@),
    {
        let n = self.0.len();
        proof {
            assert(self@.subrange(0, n as int) =~= self@);
        }
        let mut i: usize = 0;
        while i < n
            invariant
                n == self@.len(),
                0 <= i <= n,
                spec_size_constraint(self@) == spec_size_constraint(
                    self@.subrange(i as int, n as int),
                ),
            decreases n - i,
        {
            proof {
                assert(self@.subrange(i as int, n as int)[0] == self@[i as int]);
                assert(self@.subrange(i as int, n as int).subrange(
                    1,
                    (n - i) as int,
                ) =~= self@.subrange(i as int + 1, n as int));
            }
            match self.0[i] {
                Constraint::Size(v) => {
                    return Some(v);
                },
                Constraint::Value(_) => {},
            }
            i += 1;
        }
        proof {
            assert(self@.subrange(n as int, n as int).len() == 0);
        }
        None
    }
}

} // verus!
