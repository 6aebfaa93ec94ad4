use btb_finance_clmm::errors::ErrorCode;
use btb_finance_clmm::tick_math::{
    sqrt_price_x64_to_tick, tick_to_sqrt_price_x64, MAX_SQRT_PRICE_X64, MAX_TICK,
    MIN_SQRT_PRICE_X64, MIN_TICK, Q64, SQRT_RATIO_X64,
};

#[test]
fn test_tick_to_sqrt_price_values() {
    // tick zero is a price of exactly 1.0 in Q64.64
    assert_eq!(tick_to_sqrt_price_x64(0).unwrap(), Q64);
    // one tick up is one ratio step
    assert_eq!(tick_to_sqrt_price_x64(1).unwrap(), SQRT_RATIO_X64);
    // a hundred ticks up, computed by iterating the ratio
    assert_eq!(tick_to_sqrt_price_x64(100).unwrap(), 18_539_204_128_674_405_672);
    // the mirrored tick holds the Q64.64 reciprocal
    assert_eq!(tick_to_sqrt_price_x64(-100).unwrap(), 18_354_745_142_194_483_702);
    assert_eq!(tick_to_sqrt_price_x64(-1).unwrap(), 18_445_821_805_675_392_312);
    // the extreme ticks stay within the global bounds
    assert_eq!(tick_to_sqrt_price_x64(MIN_TICK).unwrap(), MIN_SQRT_PRICE_X64);
    let top = tick_to_sqrt_price_x64(MAX_TICK).unwrap();
    assert!(top <= MAX_SQRT_PRICE_X64);
    assert!(top > tick_to_sqrt_price_x64(MAX_TICK - 1).unwrap());
}

#[test]
fn test_tick_to_sqrt_price_domain() {
    assert_eq!(tick_to_sqrt_price_x64(MAX_TICK + 1), Err(ErrorCode::InvalidTickIndex));
    assert_eq!(tick_to_sqrt_price_x64(MIN_TICK - 1), Err(ErrorCode::InvalidTickIndex));
    assert!(tick_to_sqrt_price_x64(MAX_TICK).is_ok());
    assert!(tick_to_sqrt_price_x64(MIN_TICK).is_ok());
}

#[test]
fn test_tick_to_sqrt_price_monotonic() {
    let samples = [MIN_TICK, -1000, -1, 0, 1, 1000, MAX_TICK];
    let mut previous: Option<u128> = None;
    for t in samples {
        let p = tick_to_sqrt_price_x64(t).unwrap();
        if let Some(prev) = previous {
            assert!(prev < p, "sqrt price must strictly increase with the tick");
        }
        previous = Some(p);
    }
}

#[test]
fn test_sqrt_price_to_tick_round_trip() {
    // converting a tick's own sqrt price back lands on the same tick
    for t in [MIN_TICK, -4000, -100, -1, 0, 1, 100, 4000, MAX_TICK] {
        let p = tick_to_sqrt_price_x64(t).unwrap();
        assert_eq!(sqrt_price_x64_to_tick(p).unwrap(), t);
    }
    // a price strictly inside a bucket still maps to the bucket's tick
    let p0 = tick_to_sqrt_price_x64(0).unwrap();
    assert_eq!(sqrt_price_x64_to_tick(p0 + 1).unwrap(), 0);
    // the mapped tick's price never exceeds the input price
    let probe = 123_456_789_000_000_000_000u128;
    let t = sqrt_price_x64_to_tick(probe).unwrap();
    assert!(tick_to_sqrt_price_x64(t).unwrap() <= probe);
    assert!(tick_to_sqrt_price_x64(t + 1).unwrap() > probe);
}

#[test]
fn test_sqrt_price_to_tick_domain() {
    assert_eq!(
        sqrt_price_x64_to_tick(MIN_SQRT_PRICE_X64 - 1),
        Err(ErrorCode::InvalidPriceLimit)
    );
    assert_eq!(
        sqrt_price_x64_to_tick(MAX_SQRT_PRICE_X64 + 1),
        Err(ErrorCode::InvalidPriceLimit)
    );
    assert_eq!(sqrt_price_x64_to_tick(MIN_SQRT_PRICE_X64).unwrap(), MIN_TICK);
    assert!(sqrt_price_x64_to_tick(MAX_SQRT_PRICE_X64).is_ok());
}
