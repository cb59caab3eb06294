//! The secret number of a session.

use rand::Rng;
use vstd::prelude::*;

verus! {

/// The smallest number that can be the secret.
pub const SECRET_MIN: u32 = 1;

/// The largest number that can be the secret.
pub const SECRET_MAX: u32 = 100;

/// A number that can be the secret of a session.
pub open spec fn is_secret(n: u32) -> bool {
    SECRET_MIN <= n <= SECRET_MAX
}

/// A number drawn at random from `low..high`.
///
/// Trusted: calls `rand::Rng::gen_range` on `rand::thread_rng()` with the
/// half-open range `low..high`. For a range of `u32` that is not empty the
/// call returns a number of the range; which one is left open, so two calls
/// may differ. An empty range would make it panic, and `requires` leaves that
/// out. The call also panics where the system cannot seed the generator.
#[verifier::external_body]
fn random_in_range(low: u32, high: u32) -> (n: u32)
    requires
        low < high,
    ensures
        low <= n < high,
{
    rand::thread_rng().gen_range(low..high)
}

/// Draws the secret number of a new session, at random between `SECRET_MIN`
/// and `SECRET_MAX`, both included.
pub fn initialize() -> (secret: u32)
    ensures
        is_secret(secret),
{
    random_in_range(SECRET_MIN, SECRET_MAX + 1)
}

} // verus!
