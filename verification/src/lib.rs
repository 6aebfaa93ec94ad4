//! Concentrated-liquidity pool math core.
//!
//! Tick-indexed price ranges, Q64.64 fixed-point sqrt prices, fee-growth
//! accounting, position bookkeeping and swap-step pricing, in the style of
//! Uniswap-v3 / Raydium AMM v3 concentrated-liquidity pools. All state
//! transitions are pure functions over plain structs; token transfers and
//! account plumbing are left to the host that embeds this library.

pub mod errors;
pub mod fees;
pub mod laws;
pub mod pool;
pub mod position;
pub mod security;
pub mod state;
pub mod swap;
pub mod tick_array;
pub mod tick_math;
