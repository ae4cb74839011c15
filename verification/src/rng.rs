use vstd::prelude::*;

verus! {

/// Relies on rand::Rng::gen_range over `0..n`: returns a uniformly drawn
/// value of that nonempty range. Nothing more is assumed of which value
/// comes back.
#[verifier::external_body]
pub fn random_below(n: u64) -> (r: u64)
    requires
        n > 0,
    ensures
        r < n,
{
    rand::Rng::gen_range(&mut rand::thread_rng(), 0..n)
}

} // verus!
