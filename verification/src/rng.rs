//! Randomness for the sketches: fresh words drawn from the system generator,
//! with verified range reduction on top.

use vstd::prelude::*;

verus! {

/// Relies on `rand::random`: a fresh sample of the standard distribution for
/// the requested type.  The value depends on the generator's state, so
/// nothing is promised of it.
pub assume_specification<T>[ rand::random::<T> ]() -> (r: T)
    where
        rand::distributions::Standard: rand::distributions::Distribution<T>,
;

/// A fair coin flip.
pub fn coin() -> bool {
    rand::random::<bool>()
}

/// A draw in `[0, n)`.
pub fn rand_below(n: u64) -> (r: u64)
    requires
        n >= 1,
    ensures
        r < n,
{
    let w: u64 = rand::random::<u64>();
    w % n
}

/// A draw in `[lo, hi)`.
pub fn rand_in_range(lo: i64, hi: i64) -> (r: i64)
    requires
        lo < hi,
        hi - lo <= i64::MAX,
    ensures
        lo <= r < hi,
{
    let span: i64 = hi - lo;
    let d: u64 = rand_below(span as u64);
    lo + (d as i64)
}

} // verus!
