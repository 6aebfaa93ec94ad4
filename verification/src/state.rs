//! Pool, tick and position records.
//!
//! Plain in-memory structs addressed by explicit identifiers; the host that
//! embeds the library keys them however it likes. Each type carries a
//! well-formedness predicate that constructors establish and every operation
//! preserves.

use vstd::prelude::*;

use crate::tick_math::{
    sqrt_price_at, tick_in_range, MAX_SQRT_PRICE_X64, MAX_TICK, MIN_SQRT_PRICE_X64,
};

verus! {

/// Largest admissible trading fee rate: 10% in parts per million.
pub const MAX_FEE_RATE: u32 = 100_000;

/// Largest admissible tick spacing.
pub const MAX_TICK_SPACING: u16 = 100;

/// Number of tick slots in one tick array.
pub const TICK_ARRAY_SIZE: usize = 88;

/// One trading pair's concentrated-liquidity market.
#[derive(Clone, Copy, Debug, PartialEq, Eq, Structural)]
pub struct Pool {
    /// Identifier of the first asset; by convention below `token_mint_1`.
    pub token_mint_0: u64,
    /// Identifier of the second asset.
    pub token_mint_1: u64,
    /// Trading fee in hundredths of a bip (parts per million).
    pub fee_rate: u32,
    /// Protocol share of the trading fee, in percent of the fee.
    pub protocol_fee_rate: u8,
    /// Granularity constraint on usable tick indices.
    pub tick_spacing: u16,
    /// Total liquidity of all in-range positions.
    pub liquidity: u128,
    /// Current sqrt price in Q64.64.
    pub sqrt_price_x64: u128,
    /// The tick whose price bucket contains `sqrt_price_x64`.
    pub tick_current: i32,
    /// Cumulative fee per unit of liquidity for token 0, Q64.64, modular.
    pub fee_growth_global_0_x64: u128,
    /// Cumulative fee per unit of liquidity for token 1, Q64.64, modular.
    pub fee_growth_global_1_x64: u128,
    /// Uncollected protocol fees in token 0.
    pub protocol_fees_0: u64,
    /// Uncollected protocol fees in token 1.
    pub protocol_fees_1: u64,
}

impl Pool {
    /// Structural invariant: configuration in range, price within the global
    /// bounds, and the current tick's price bucket containing the price.
    pub open spec fn wf(self) -> bool {
        &&& self.token_mint_0 < self.token_mint_1
        &&& self.fee_rate <= MAX_FEE_RATE
        &&& crate::fees::MIN_PROTOCOL_FEE_RATE <= self.protocol_fee_rate
            <= crate::fees::MAX_PROTOCOL_FEE_RATE
        &&& 1 <= self.tick_spacing <= MAX_TICK_SPACING
        &&& MIN_SQRT_PRICE_X64 <= self.sqrt_price_x64 <= MAX_SQRT_PRICE_X64
        &&& tick_in_range(self.tick_current as int)
        &&& sqrt_price_at(self.tick_current as int) <= self.sqrt_price_x64 as int
        &&& (self.tick_current < MAX_TICK ==> (self.sqrt_price_x64 as int) < sqrt_price_at(
            self.tick_current as int + 1,
        ))
    }
}

/// One initialized price point: liquidity bookkeeping and the fee growth
/// accumulated outside it, in the flip-on-cross convention.
#[derive(Clone, Copy, Debug, PartialEq, Eq, Structural)]
pub struct Tick {
    /// The tick's own price coordinate.
    pub index: i32,
    /// Liquidity added to the pool when the price crosses this tick upward.
    pub liquidity_net: i128,
    /// Total liquidity of all positions referencing this tick.
    pub liquidity_gross: u128,
    /// Fee growth outside this tick for token 0 at the last crossing.
    pub fee_growth_outside_0_x64: u128,
    /// Fee growth outside this tick for token 1 at the last crossing.
    pub fee_growth_outside_1_x64: u128,
}

impl Tick {
    /// A zeroed tick slot at the given coordinate.
    pub fn zeroed(index: i32) -> (r: Tick)
        ensures
            r == (Tick {
                index,
                liquidity_net: 0,
                liquidity_gross: 0,
                fee_growth_outside_0_x64: 0,
                fee_growth_outside_1_x64: 0,
            }),
    {
        Tick {
            index,
            liquidity_net: 0,
            liquidity_gross: 0,
            fee_growth_outside_0_x64: 0,
            fee_growth_outside_1_x64: 0,
        }
    }
}

/// A fixed window of consecutive tick slots starting at `start_tick_index`.
#[derive(Debug, PartialEq, Eq)]
pub struct TickArray {
    /// Coordinate of the first slot.
    pub start_tick_index: i32,
    /// The slots; slot `i` holds the tick at `start_tick_index + i`.
    pub ticks: Vec<Tick>,
}

impl TickArray {
    /// Structural invariant: exactly `TICK_ARRAY_SIZE` slots, the window
    /// starting in the tick domain, each slot at its own coordinate.
    pub open spec fn wf(self) -> bool {
        &&& tick_in_range(self.start_tick_index as int)
        &&& self.ticks.len() == TICK_ARRAY_SIZE
        &&& forall|i: int|
            0 <= i < TICK_ARRAY_SIZE ==> (#[trigger] self.ticks[i].index) as int
                == self.start_tick_index + i
    }

    /// Whether a tick coordinate falls inside this array's window.
    pub open spec fn holds_tick(self, tick_index: int) -> bool {
        self.start_tick_index <= tick_index < self.start_tick_index + TICK_ARRAY_SIZE
    }
}

/// A liquidity provider's stake in one `[tick_lower, tick_upper)` range of
/// one pool.
#[derive(Clone, Copy, Debug, PartialEq, Eq, Structural)]
pub struct Position {
    /// Identifier of the pool the position belongs to.
    pub pool: u64,
    /// Identifier of the position's owner.
    pub owner: u64,
    /// Lower bound of the range.
    pub tick_lower_index: i32,
    /// Upper bound of the range.
    pub tick_upper_index: i32,
    /// The position's liquidity contribution.
    pub liquidity: u128,
    /// Snapshot of the range's token-0 fee growth at the last settlement.
    pub fee_growth_inside_0_last_x64: u128,
    /// Snapshot of the range's token-1 fee growth at the last settlement.
    pub fee_growth_inside_1_last_x64: u128,
    /// Settled but uncollected token-0 fees.
    pub tokens_owed_0: u64,
    /// Settled but uncollected token-1 fees.
    pub tokens_owed_1: u64,
}

/// A usable position range: ordered, within the tick domain, and aligned to
/// the pool's tick spacing.
pub open spec fn valid_tick_range(tick_lower: int, tick_upper: int, tick_spacing: int) -> bool {
    &&& tick_lower < tick_upper
    &&& tick_in_range(tick_lower)
    &&& tick_in_range(tick_upper)
    &&& tick_lower % tick_spacing == 0
    &&& tick_upper % tick_spacing == 0
}

} // verus!
