//! Random integers.

use vstd::prelude::*;
use rand::Rng;

verus! {

/// A random integer of `[min, max]`, both ends included.
///
/// Calls `rand::Rng::gen_range` on the thread's generator, `rand::thread_rng`,
/// with the range `min..=max`. That call panics for an empty range, which the
/// precondition leaves out. For every other range it draws until a draw falls
/// into the zone that maps evenly onto the range, and returns `min` plus an
/// offset below the range's length: a number of the range. Which one is
/// claimed of no call.
///
/// Two panics of the generator depend on the operating system and on no
/// argument, so no precondition leaves them out: it is seeded from the
/// system when a thread first asks for it, and seeded anew after every 64 KiB
/// of output and after a fork of the process, and it panics where the system
/// has no seed to give, the first time or any later one.
#[verifier::external_body]
pub fn uint(min: usize, max: usize) -> (r: usize)
    requires
        min <= max,
    ensures
        min <= r <= max,
{
    rand::thread_rng().gen_range(min..=max)
}

} // verus!
