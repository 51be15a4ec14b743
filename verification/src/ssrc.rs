//! Random SSRC allocation.

use vstd::prelude::*;

verus! {

/// Smallest SSRC the negotiation core hands out.
pub const SSRC_MIN: u32 = 100_000_000;

/// All allocated SSRCs lie strictly below this bound.
pub const SSRC_MAX: u32 = 999_999_999;

/// Relies on fastrand::u32: a draw from a half-open range lies inside
/// it, and the range given here is never empty. Nothing else is assumed
/// of the value; every caller handles any outcome in range.
#[verifier::external_body]
pub(crate) fn generate_ssrc() -> (r: u32)
    ensures
        SSRC_MIN <= r < SSRC_MAX,
{
    fastrand::u32(SSRC_MIN..SSRC_MAX)
}

} // verus!
