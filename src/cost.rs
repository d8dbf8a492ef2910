use std::cmp::Ordering;
use vstd::prelude::*;

verus! {

/// What a card costs to acquire: nothing, an amount of trade, or an amount
/// of military strength.
#[derive(Debug, Clone, Copy, PartialEq, Eq, Structural)]
pub enum Cost {
    Free,
    Trade(i32),
    Military(i32),
}

/// The integer ordering of `a` against `b`.
pub open spec fn ordering_of(a: int, b: int) -> Ordering {
    if a < b {
        Ordering::Less
    } else if a == b {
        Ordering::Equal
    } else {
        Ordering::Greater
    }
}

fn compare_ints(a: i32, b: i32) -> (r: Ordering)
    ensures
        r == ordering_of(a as int, b as int),
{
    if a < b {
        Ordering::Less
    } else if a == b {
        Ordering::Equal
    } else {
        Ordering::Greater
    }
}

impl Cost {
    /// The amount embedded in the cost, `Free` counting as zero.
    pub open spec fn magnitude(self) -> int {
        match self {
            Cost::Free => 0,
            Cost::Trade(n) => n as int,
            Cost::Military(n) => n as int,
        }
    }

    /// The partial order on costs: `Free` lies below every other cost, costs
    /// of one kind are ordered by their amounts, and a trade cost is never
    /// comparable with a military one.
    pub open spec fn spec_partial_compare(self, other: Cost) -> Option<Ordering> {
        match (self, other) {
            (Cost::Free, Cost::Free) => Some(Ordering::Equal),
            (Cost::Free, _) => Some(Ordering::Less),
            (Cost::Trade(a), Cost::Trade(b)) => Some(ordering_of(a as int, b as int)),
            (Cost::Military(a), Cost::Military(b)) => Some(ordering_of(a as int, b as int)),
            (Cost::Trade(_), Cost::Free) => Some(Ordering::Greater),
            (Cost::Military(_), Cost::Free) => Some(Ordering::Greater),
            _ => None,
        }
    }

    pub fn free() -> (r: Cost)
        ensures
            r == Cost::Free,
    {
        Cost::Free
    }

    pub fn trade(n: i32) -> (r: Cost)
        ensures
            r == Cost::Trade(n),
    {
        Cost::Trade(n)
    }

    pub fn military(n: i32) -> (r: Cost)
        ensures
            r == Cost::Military(n),
    {
        Cost::Military(n)
    }

    /// Compares the embedded amount with `k`, whatever the kind of the cost.
    pub fn compare_to_scalar(&self, k: i32) -> (r: Ordering)
        ensures
            r == ordering_of(self.magnitude(), k as int),
    {
        match *self {
            Cost::Free => compare_ints(0, k),
            Cost::Trade(n) => compare_ints(n, k),
            Cost::Military(n) => compare_ints(n, k),
        }
    }

    /// Compares two costs; `None` when they are of incomparable kinds.
    pub fn partial_compare(&self, other: &Cost) -> (r: Option<Ordering>)
        ensures
            r == self.spec_partial_compare(*other),
    {
        match (*self, *other) {
            (Cost::Free, Cost::Free) => Some(Ordering::Equal),
            (Cost::Free, _) => Some(Ordering::Less),
            (Cost::Trade(a), Cost::Trade(b)) => Some(compare_ints(a, b)),
            (Cost::Military(a), Cost::Military(b)) => Some(compare_ints(a, b)),
            (Cost::Trade(_), Cost::Free) => Some(Ordering::Greater),
            (Cost::Military(_), Cost::Free) => Some(Ordering::Greater),
            _ => None,
        }
    }
}

impl Default for Cost {
    fn default() -> (r: Cost)
        ensures
            r == Cost::Free,
    {
        Cost::Free
    }
}

impl PartialOrd for Cost {
    fn partial_cmp(&self, other: &Cost) -> (r: Option<Ordering>) {
        self.partial_compare(other)
    }
}

impl vstd::std_specs::cmp::PartialOrdSpecImpl for Cost {
    open spec fn obeys_partial_cmp_spec() -> bool {
        true
    }

    open spec fn partial_cmp_spec(&self, other: &Cost) -> Option<Ordering> {
        self.spec_partial_compare(*other)
    }
}

impl PartialEq<i32> for Cost {
    fn eq(&self, k: &i32) -> (r: bool) {
        self.magnitude_value() == *k
    }
}

impl vstd::std_specs::cmp::PartialEqSpecImpl<i32> for Cost {
    open spec fn obeys_eq_spec() -> bool {
        true
    }

    open spec fn eq_spec(&self, k: &i32) -> bool {
        self.magnitude() == *k as int
    }
}

impl PartialOrd<i32> for Cost {
    fn partial_cmp(&self, k: &i32) -> (r: Option<Ordering>) {
        Some(self.compare_to_scalar(*k))
    }
}

impl vstd::std_specs::cmp::PartialOrdSpecImpl<i32> for Cost {
    open spec fn obeys_partial_cmp_spec() -> bool {
        true
    }

    open spec fn partial_cmp_spec(&self, k: &i32) -> Option<Ordering> {
        Some(ordering_of(self.magnitude(), *k as int))
    }
}

impl Cost {
    pub fn is_military(&self) -> (r: bool)
        ensures
            r == self is Military,
    {
        match *self {
            Cost::Military(_) => true,
            _ => false,
        }
    }

    /// The embedded amount, `Free` counting as zero.
    pub fn magnitude_value(&self) -> (r: i32)
        ensures
            r as int == self.magnitude(),
    {
        match *self {
            Cost::Free => 0,
            Cost::Trade(n) => n,
            Cost::Military(n) => n,
        }
    }
}

} // verus!
