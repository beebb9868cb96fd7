//! Positive machine integers.

use vstd::prelude::*;

verus! {

/// A positive `u64`.
#[derive(Debug, Clone, Copy, PartialEq, Eq, PartialOrd, Ord, Hash, Structural)]
pub struct NonZeroU64 {
    value: u64,
}

impl View for NonZeroU64 {
    type V = u64;

    closed spec fn view(&self) -> u64 {
        self.value
    }
}

impl NonZeroU64 {
    /// No value of this type is zero.
    #[verifier::type_invariant]
    pub open spec fn positive(self) -> bool {
        self@ > 0
    }

    /// The positive integer `value`, unless it is zero.
    pub fn new(value: u64) -> (positive: Option<Self>)
        ensures
            match positive {
                Some(n) => n@ == value && value > 0,
                None => value == 0,
            },
    {
        if value == 0 {
            None
        } else {
            Some(NonZeroU64 { value })
        }
    }

    /// The integer itself.
    pub fn get(self) -> (value: u64)
        ensures
            value == self@,
            value > 0,
    {
        proof {
            use_type_invariant(&self);
        }
        self.value
    }
}

/// A positive integer is known by its value.
pub(crate) proof fn lemma_u64_is_its_value(a: NonZeroU64, b: NonZeroU64)
    ensures
        a@ == b@ <==> a == b,
{
}

/// A positive `usize`.
#[derive(Debug, Clone, Copy, PartialEq, Eq, PartialOrd, Ord, Hash, Structural)]
pub struct NonZeroUsize {
    value: usize,
}

impl View for NonZeroUsize {
    type V = usize;

    closed spec fn view(&self) -> usize {
        self.value
    }
}

impl NonZeroUsize {
    /// No value of this type is zero.
    #[verifier::type_invariant]
    pub open spec fn positive(self) -> bool {
        self@ > 0
    }

    /// The positive integer `value`, unless it is zero.
    pub fn new(value: usize) -> (positive: Option<Self>)
        ensures
            match positive {
                Some(n) => n@ == value && value > 0,
                None => value == 0,
            },
    {
        if value == 0 {
            None
        } else {
            Some(NonZeroUsize { value })
        }
    }

    /// The integer itself.
    pub fn get(self) -> (value: usize)
        ensures
            value == self@,
            value > 0,
    {
        proof {
            use_type_invariant(&self);
        }
        self.value
    }
}

} // verus!
