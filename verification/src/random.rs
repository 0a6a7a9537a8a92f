//! Random choice of the next piece.

use rand::Rng;
use vstd::prelude::*;
use vstd::pervasive::unreached;
use crate::block::{Shape, SHAPE_COUNT};

verus! {

/// Trusted: `rand::thread_rng()` followed by `Rng::gen_range` on the range
/// `0..n`. The claim is that the number returned lies in that range, that is,
/// it is at least 0 and less than `n`. `gen_range` panics on an empty range,
/// which the precondition rules out. Nothing is claimed about which number
/// comes back or how the numbers are distributed, and two calls may differ.
/// `thread_rng` panics when the system gives it no seed; no argument of
/// this function has a part in that.
#[verifier::external_body]
fn random_below(n: i32) -> (r: i32)
    requires
        0 < n,
    ensures
        0 <= r < n,
{
    rand::thread_rng().gen_range(0..n)
}

/// A shape drawn at random among the seven. The generator decides which one
/// comes back, and each of the seven may, so nothing is promised of the
/// result: what a number drawn stands for is the contract of
/// `Shape::from_index`.
pub(crate) fn random_shape() -> Shape {
    let index = random_below(SHAPE_COUNT);
    match Shape::from_index(index) {
        Some(shape) => shape,
        None => unreached(),
    }
}

} // verus!
