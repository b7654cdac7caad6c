//! The random source that picks the kind of each new block.

use vstd::prelude::*;
use vstd::pervasive::unreached;
use rand::Rng;
use crate::block::{BlockKind, KIND_COUNT};

verus! {

/// Draws a number below `bound` from the thread's random number generator:
/// `rand::thread_rng` and `Rng::gen_range` on the half-open range from 0 to
/// `bound`. `gen_range` panics on an empty range, so `bound` must not be 0.
/// All that is claimed of the result, and not proved here, is that it lies in
/// the range; which number comes differs from call to call. The generator
/// itself gives up if the system has no source of randomness for it.
#[verifier::external_body]
fn random_below(bound: u8) -> (n: u8)
    requires
        bound > 0,
    ensures
        n < bound,
{
    rand::thread_rng().gen_range(0..bound)
}

/// Draws a block kind: a number below `KIND_COUNT` from the random source,
/// and the kind with that index. The source draws each number of its range
/// with the same chance, so each kind comes with the same chance; nothing in
/// the contract says so.
pub fn random_kind() -> (kind: BlockKind) {
    match BlockKind::from_index(random_below(KIND_COUNT)) {
        Some(kind) => kind,
        None => unreached(),
    }
}

} // verus!
