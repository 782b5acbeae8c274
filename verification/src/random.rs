//! The source of randomness: uniform numbers in `[0, 1)`.
use crate::scalar::{Scalar, SCALE};
use vstd::prelude::*;

verus! {

/// Calls `rand::random::<u32>()`, which draws a word from the thread-local
/// generator. Nothing is claimed of the word: each call may return any value.
#[verifier::external_body]
fn random_word() -> (w: u32) {
    rand::random::<u32>()
}

/// The number lies in `[0, 1)`.
pub open spec fn in_unit_interval(u: Scalar) -> bool {
    0 <= u.raw < SCALE
}

/// A number drawn uniformly from `[0, 1)`: 32 random bits as the fraction.
pub fn random_unit() -> (r: Scalar)
    ensures
        in_unit_interval(r),
{
    let w: u32 = random_word();
    unit_from_word(w)
}

/// The number in `[0, 1)` whose 32 fractional bits are `w`.
pub fn unit_from_word(w: u32) -> (r: Scalar)
    ensures
        r.raw == w,
        in_unit_interval(r),
{
    Scalar { raw: w as i64 }
}

} // verus!
