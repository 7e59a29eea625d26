//! A 64-bit count that is never zero.

use vstd::prelude::*;

verus! {

/// An unsigned 64-bit integer that is known not to be zero.
#[derive(Debug, Copy, Clone)]
pub struct NonZeroU64 {
    value: u64,
}

impl View for NonZeroU64 {
    type V = u64;

    closed spec fn view(&self) -> u64 {
        self.value
    }
}

impl NonZeroU64 {
    #[verifier::type_invariant]
    spec fn is_positive(&self) -> bool {
        self.value > 0
    }

    /// The value `n`, unless it is zero.
    pub fn new(n: u64) -> (value: Option<Self>)
        ensures
            value is None <==> n == 0,
            value matches Some(v) ==> v@ == n,
    {
        if n == 0 {
            None
        } else {
            Some(NonZeroU64 { value: n })
        }
    }

    /// The value as a plain integer.
    pub fn get(self) -> (n: u64)
        ensures
            n == self@,
            n > 0,
    {
        proof {
            use_type_invariant(&self);
        }
        self.value
    }
}

} // verus!
