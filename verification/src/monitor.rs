//! Rate limit on how often the yields of the candidate protocols are compared.

use vstd::prelude::*;

verus! {

/// Minimum number of seconds between two yield evaluations.
pub const COOLDOWN_SECONDS: i64 = 300;

/// Whether a yield evaluation is due: at least `cooldown_seconds` have passed
/// since the last completed one.
pub open spec fn due(now: int, last_check: int, cooldown_seconds: int) -> bool {
    now - last_check >= cooldown_seconds
}

/// Decides whether a yield evaluation is due at `now`. The difference is taken
/// in a wider type, so no pair of timestamps overflows.
pub fn is_due(now: i64, last_check: i64, cooldown_seconds: i64) -> (result: bool)
    ensures
        result == due(now as int, last_check as int, cooldown_seconds as int),
{
    let elapsed: i128 = now as i128 - last_check as i128;
    elapsed >= cooldown_seconds as i128
}

} // verus!
