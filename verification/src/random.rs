//! The one place the simulation touches a random source.

use vstd::prelude::*;

verus! {

/// Relies on `rand::Rng::gen_range` over `0..n`: it returns a uniformly
/// sampled index strictly below `n`, and panics only when the range is
/// empty, which the precondition rules out.  Nothing more can be promised
/// of a random draw; callers must hold for every value below `n`.
#[verifier::external_body]
pub(crate) fn pick_index(n: usize) -> (r: usize)
    requires
        n > 0,
    ensures
        r < n,
{
    rand::Rng::gen_range(&mut rand::thread_rng(), 0..n)
}

} // verus!
