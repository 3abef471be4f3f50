//! Drawing the secret number.

use rand::Rng;
use vstd::prelude::*;

verus! {

/// The smallest number the secret can be.
pub const LOWEST_SECRET: u32 = 1;

/// The largest number the secret can be.
pub const HIGHEST_SECRET: u32 = 100;

/// A number may serve as the secret.
pub open spec fn is_secret(n: u32) -> bool {
    LOWEST_SECRET <= n <= HIGHEST_SECRET
}

/// Trusted: calls `rand::thread_rng()` and, on the generator it returns,
/// `rand::Rng::gen_range` with the half-open range `low..high`.
///
/// `gen_range` panics on an empty range, which the precondition rules out.
/// All that is claimed of the result is what holds of every draw: it lies in
/// the range. Nothing is said about how the draws are distributed, and two
/// calls may differ. (`thread_rng` itself panics if the operating system
/// cannot seed the generator; no argument decides that.)
#[verifier::external_body]
fn random_in_range(low: u32, high: u32) -> (r: u32)
    requires
        low < high,
    ensures
        low <= r < high,
{
    rand::thread_rng().gen_range(low..high)
}

/// Draws a secret: some number from `LOWEST_SECRET` to `HIGHEST_SECRET`, both
/// included.
pub fn draw_secret() -> (s: u32)
    ensures
        is_secret(s),
{
    random_in_range(LOWEST_SECRET, HIGHEST_SECRET + 1)
}

} // verus!
