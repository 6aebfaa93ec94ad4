//! Error taxonomy for the pool core.
//!
//! Every fallible operation reports one of these codes; no operation panics.
//! Validation errors are raised before any state is touched, so a caller that
//! sees an error may assume the operation mutated nothing.

use vstd::prelude::*;

verus! {

/// Error codes surfaced by the pool core.
#[derive(Clone, Copy, Debug, PartialEq, Eq, Structural)]
pub enum ErrorCode {
    /// A tick index is out of bounds or outside a tick array's window.
    InvalidTickIndex,
    /// `tick_lower >= tick_upper`.
    InvalidTickRange,
    /// A tick index is not a multiple of the pool's tick spacing, or the
    /// spacing itself is outside [1, 100].
    InvalidTickSpacing,
    /// A fee rate above the 10% maximum.
    InvalidFeeRate,
    /// A protocol fee rate outside [1, 25].
    InvalidProtocolFeeRate,
    /// A swap price limit outside the global sqrt-price bounds or on the
    /// wrong side of the current price.
    InvalidPriceLimit,
    /// A price range with `lower >= upper`, or a price outside it.
    InvalidPriceRange,
    /// The current price lies outside a required range.
    PriceLimitReached,
    /// A zero or otherwise unusable amount.
    InvalidAmount,
    /// Token identities are equal or not in canonical order.
    InvalidTokenPair,
    /// A caller is not the expected authority.
    InvalidAuthority,
    /// An operation would create or act on zero liquidity.
    ZeroLiquidity,
    /// A removal asks for more liquidity than the position holds.
    InsufficientLiquidity,
    /// Fewer protocol fees collected than requested.
    InsufficientProtocolFees,
    /// A position still holds liquidity or uncollected fees.
    NonZeroLiquidity,
    /// Output below the caller's slippage floor.
    ExcessiveSlippage,
    /// A checked arithmetic step overflowed or divided by zero.
    MathOverflow,
}

} // verus!
