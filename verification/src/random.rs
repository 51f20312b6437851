//! Random draws. Nothing is known of a draw but its range.

use vstd::prelude::*;

verus! {

/// Calls `rand::Rng::gen_range` on the operating system's generator,
/// `rand::rngs::OsRng`, with the half-open range `low..high`. Trusted: the
/// draw lies in the range. The range must not be empty, as the call
/// panics on an empty one.
#[verifier::external_body]
pub(crate) fn random_in_range(low: u64, high: u64) -> (draw: u64)
    requires
        low < high,
    ensures
        low <= draw < high,
{
    rand::Rng::gen_range(&mut rand::rngs::OsRng, low..high)
}

/// Calls `rand::Rng::gen` on `rand::thread_rng()` for a `u64`. Trusted,
/// and nothing is claimed of the draw.
#[verifier::external_body]
pub(crate) fn random_u64() -> (draw: u64) {
    rand::Rng::gen::<u64>(&mut rand::thread_rng())
}

/// A position in a list of `len` items, drawn at random.
pub fn random_index(len: usize) -> (index: usize)
    requires
        len > 0,
    ensures
        index < len,
{
    random_in_range(0, len as u64) as usize
}

} // verus!
