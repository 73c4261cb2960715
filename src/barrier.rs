//! The optimization barrier that keeps a timed result alive.
use vstd::prelude::*;

verus! {

/// Relies on std::hint::black_box, documented as an identity function that
/// the optimizer must treat as using its argument: the value comes back
/// unchanged.
#[verifier::external_body]
pub(crate) fn observe<T>(value: T) -> (r: T)
    ensures
        r == value,
{
    std::hint::black_box(value)
}

} // verus!
