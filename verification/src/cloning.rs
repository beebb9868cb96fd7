//! What is required of values that are copied by cloning.

use vstd::prelude::*;

verus! {

/// Whether a clone of a value of this type stands for the same value: that of an
/// integer, a string, or a handle that names what it was cloned from.
pub open spec fn faithful<T: Clone>() -> bool {
    forall|value: T, copy: T| #[trigger] cloned(value, copy) ==> value == copy
}

/// A copy of a value whose clones stand for it.
pub fn copied<T: Clone>(value: &T) -> (copy: T)
    requires
        faithful::<T>(),
    ensures
        copy == *value,
{
    let copy = value.clone();
    assert(cloned(*value, copy));
    copy
}

} // verus!
