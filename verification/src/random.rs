use vstd::prelude::*;

use rand::rngs::StdRng;
use rand::{Rng, SeedableRng};

verus! {

/// Draws one code point of the printable ASCII generation range.
///
/// Relies on rand: `Rng::random_range(32..=126)` returns a value of the
/// inclusive range `32..=126`, drawn uniformly; `StdRng::from_rng` seeds a
/// fresh generator from the thread-local one. The range is never empty, so
/// the call cannot panic.
#[verifier::external_body]
pub fn random_ascii() -> (code: u32)
    ensures
        32 <= code <= 126,
{
    StdRng::from_rng(&mut rand::rng()).random_range(32..=126)
}

/// Draws an index below `n`.
///
/// Relies on rand: `Rng::random_range(0..n)` returns a value of the range
/// `0..n`, drawn uniformly. The call panics on an empty range, so `n > 0`
/// is required.
#[verifier::external_body]
pub(crate) fn random_index(n: usize) -> (i: usize)
    requires
        n > 0,
    ensures
        i < n,
{
    StdRng::from_rng(&mut rand::rng()).random_range(0..n)
}

} // verus!
