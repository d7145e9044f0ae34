//! What the automaton asks of the types of its states and symbols, and the
//! membership test on vectors of them.

use vstd::prelude::*;
use vstd::std_specs::cmp::PartialEqSpec;

verus! {

/// `==` on `T` in compiled code decides whether two values are the same.
pub open spec fn eq_decides<T: PartialEq>() -> bool {
    &&& T::obeys_eq_spec()
    &&& forall|x: T, y: T| #[trigger] x.eq_spec(&y) <==> x == y
}

/// A clone of a `T` is the value it was cloned from.
pub open spec fn clone_copies<T: Clone>() -> bool {
    forall|x: T, y: T| #[trigger] call_ensures(T::clone, (&x,), y) ==> x == y
}

/// Whether `x` occurs in `items`.
pub fn contains<T: PartialEq>(items: &Vec<T>, x: &T) -> (found: bool)
    requires
        eq_decides::<T>(),
    ensures
        found == items@.contains(*x),
{
    let mut i: usize = 0;
    while i < items.len()
        invariant
            eq_decides::<T>(),
            i <= items.len(),
            forall|j: int| 0 <= j < i ==> items@[j] != *x,
        decreases items.len() - i,
    {
        if items[i] == *x {
            return true;
        }
        i += 1;
    }
    false
}

} // verus!
