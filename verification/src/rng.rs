use vstd::prelude::*;

use rand::Rng;

verus! {

/// Relies on rand's `thread_rng().gen_range(0..n)`: returns a uniformly
/// random index strictly below `n`; panics only on an empty range, which
/// the precondition rules out.
#[verifier::external_body]
pub(crate) fn rand_index(n: usize) -> (r: usize)
    requires
        n > 0,
    ensures
        r < n,
{
    rand::thread_rng().gen_range(0..n)
}

/// Relies on rand's `thread_rng().gen_range(min..=max)`: returns a uniformly
/// random value in the inclusive range; panics only on an empty range, which
/// the precondition rules out.
#[verifier::external_body]
pub(crate) fn rand_range_inclusive_u32(min: u32, max: u32) -> (r: u32)
    requires
        min <= max,
    ensures
        min <= r <= max,
{
    rand::thread_rng().gen_range(min..=max)
}

/// Relies on rand's `thread_rng().gen::<bool>()`: a coin flip; nothing can be
/// promised of the outcome.
#[verifier::external_body]
pub(crate) fn rand_bool() -> bool {
    rand::thread_rng().gen()
}

} // verus!
