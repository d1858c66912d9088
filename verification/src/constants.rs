use vstd::prelude::*;

verus! {

/// One whole unit of the base asset, in its smallest denomination.
pub const ONE_INJ: u128 = 1_000_000_000_000_000_000;

/// Denominator for fees expressed in basis points.
pub const FEE_PRECISION: u16 = 10_000;

/// Fixed-point scaling factor carried in the share price numerator.
pub const SHARE_PRICE_SCALING_FACTOR: u128 = 1_000_000_000_000_000_000;

/// The required time period for unbonding operations, as specified by the
/// network. Currently set to 21 days, in seconds.
pub const UNBONDING_PERIOD_SECONDS: u64 = 21 * 24 * 60 * 60;

} // verus!
