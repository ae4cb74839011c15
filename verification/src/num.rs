use vstd::prelude::*;

verus! {

/// The magnitude of a negative signed value, as an unsigned one; total even
/// at the far end of the signed range.
pub fn neg_magnitude(n: i64) -> (r: u64)
    requires
        n < 0,
    ensures
        r == -(n as int),
{
    ((-(n + 1)) as u64) + 1
}

/// The integer square root: the largest `r` with `r * r <= n`, for values
/// whose root fits comfortably below the machine limit.
pub fn isqrt(n: u64) -> (r: u64)
    requires
        n < 0x1000000000000,
    ensures
        r * r <= n < (r + 1) * (r + 1),
{
    let mut lo: u64 = 0;
    let mut hi: u64 = 0x1000000;
    // The root lies in [lo, hi]; shrink by bisection.
    while lo < hi
        invariant
            lo <= hi <= 0x1000000,
            lo * lo <= n,
            n < (hi + 1) * (hi + 1),
        decreases hi - lo,
    {
        let mid = lo + (hi - lo + 1) / 2;
        proof {
            assert(mid * mid <= 0x1000000000000) by (nonlinear_arith)
                requires
                    0 <= mid <= 0x1000000,
            ;
        }
        if mid * mid <= n {
            lo = mid;
        } else {
            hi = mid - 1;
        }
    }
    lo
}

} // verus!
