use vstd::prelude::*;

verus! {

/// A closed enumeration whose values can all be listed at run time.
pub trait Variants: Sized {
    /// Every value of the type, each once, in declaration order.
    spec fn all_variants() -> Seq<Self>;

    fn variants() -> (r: Vec<Self>)
        ensures
            r@ == Self::all_variants(),
    ;
}

/// A set of values that can be tested for membership.
pub trait Contains<T> {
    spec fn holds(&self, needle: T) -> bool;

    fn contains(&self, needle: &T) -> (r: bool)
        ensures
            r == self.holds(*needle),
    ;
}

impl Contains<usize> for std::ops::Range<usize> {
    open spec fn holds(&self, needle: usize) -> bool {
        self.start <= needle < self.end
    }

    fn contains(&self, needle: &usize) -> (r: bool) {
        *needle >= self.start && *needle < self.end
    }
}

impl<'a> Contains<usize> for &'a Vec<usize> {
    open spec fn holds(&self, needle: usize) -> bool {
        self@.contains(needle)
    }

    fn contains(&self, needle: &usize) -> (r: bool) {
        let mut i: usize = 0;
        while i < self.len()
            invariant
                i <= self@.len(),
                forall|j: int| 0 <= j < i ==> self@[j] != *needle,
            decreases self@.len() - i,
        {
            if self[i] == *needle {
                return true;
            }
            i = i + 1;
        }
        false
    }
}

} // verus!
