use mev_bot::amount::Amount;
use mev_bot::primitives::Address;
use mev_bot::estimator::{
    estimate, gas_cost, ArbitrageInput, Estimate, EstimateInput, LiquidationInput, Pool,
    SandwichInput, BASIS_POINTS,
};

const E: u128 = 1_000_000_000_000_000_000;

fn amt(v: u128) -> Amount {
    Amount::from_u128(v)
}

fn low(a: Amount) -> u128 {
    assert_eq!(a.limbs[2], 0);
    assert_eq!(a.limbs[3], 0);
    ((a.limbs[1] as u128) << 64) + a.limbs[0] as u128
}

fn pool(reserve_in: u128, reserve_out: u128, fee_bps: u16) -> Pool {
    Pool { reserve_in: amt(reserve_in), reserve_out: amt(reserve_out), fee_bps }
}

fn sandwich_input(front: u128, victim: u128, min_out: u128, p: Pool) -> SandwichInput {
    SandwichInput {
        front_amount: amt(front),
        victim_amount: amt(victim),
        victim_min_out: amt(min_out),
        pool: p,
        gas_units: 100_000,
        gas_price: 50_000_000_000,
    }
}

fn position(collateral: u128, debt: u128) -> LiquidationInput {
    LiquidationInput {
        collateral_value: amt(collateral),
        debt_value: amt(debt),
        min_collateral_ratio_bps: 11_000,
        close_factor_bps: 5_000,
        bonus_bps: 500,
        flash_fee_bps: 9,
        gas_units: 500_000,
        gas_price: 2,
    }
}

#[test]
fn basis_points_are_ten_thousand() {
    assert_eq!(BASIS_POINTS, 10_000);
}

#[test]
fn quote_follows_the_constant_product_formula() {
    // 100 * 9970 * 1000 / (1000 * 10000 + 100 * 9970) = 90.66..
    assert_eq!(low(pool(1_000, 1_000, 30).quote(&amt(100)).unwrap()), 90);
    // 10000 * 9970 * 1000000 / (1000000 * 10000 + 10000 * 9970) = 9871.58..
    assert_eq!(low(pool(1_000_000, 1_000_000, 30).quote(&amt(10_000)).unwrap()), 9_871);
    // without a fee: 100 * 1000 / 1100 = 90.9..
    assert_eq!(low(pool(1_000, 1_000, 0).quote(&amt(100)).unwrap()), 90);
    assert_eq!(low(pool(1_000, 2_000, 0).quote(&amt(1_000)).unwrap()), 1_000);
}

#[test]
fn quote_of_nothing_is_nothing() {
    assert!(pool(1_000, 1_000, 30).quote(&Amount::zero()).unwrap().is_zero());
}

#[test]
fn quote_never_reaches_the_reserve() {
    let out = pool(1_000, 1_000, 0).quote(&amt(u128::MAX)).unwrap();
    assert_eq!(low(out), 999);
}

#[test]
fn quote_needs_liquidity_on_both_sides() {
    assert!(pool(0, 1_000, 30).quote(&amt(100)).is_none());
    assert!(pool(1_000, 0, 30).quote(&amt(100)).is_none());
    assert!(pool(0, 0, 30).quote(&amt(100)).is_none());
}

#[test]
fn quote_refuses_a_fee_of_everything() {
    assert!(pool(1_000, 1_000, 10_000).quote(&amt(100)).is_none());
    assert!(pool(1_000, 1_000, 20_000).quote(&amt(100)).is_none());
    assert_eq!(low(pool(1_000, 1_000, 9_999).quote(&amt(100_000)).unwrap()), 9);
}

#[test]
fn quote_refuses_numbers_beyond_256_bits() {
    let huge = Amount { limbs: [0, 0, 0, 1 << 58] };
    let p = Pool { reserve_in: huge, reserve_out: amt(1), fee_bps: 30 };
    assert!(p.quote(&huge).is_none());
    let large = Amount { limbs: [0, 0, 0, 1 << 8] };
    let p = Pool { reserve_in: large, reserve_out: large, fee_bps: 30 };
    let out = p.quote(&large).unwrap();
    assert!(out.lt(&large));
    assert!(!out.is_zero());
}

#[test]
fn after_trade_moves_the_reserves() {
    let p = pool(1_000, 1_000, 30).after_trade(&amt(100), &amt(90)).unwrap();
    assert_eq!(low(p.reserve_in), 1_100);
    assert_eq!(low(p.reserve_out), 910);
    assert_eq!(p.fee_bps, 30);
    assert!(pool(1_000, 1_000, 30).after_trade(&amt(100), &amt(1_001)).is_none());
    let full = Pool { reserve_in: Amount { limbs: [u64::MAX; 4] }, reserve_out: amt(5), fee_bps: 1 };
    assert!(full.after_trade(&amt(1), &amt(1)).is_none());
}

#[test]
fn oriented_puts_the_reserve_paid_into_first() {
    let a = Address::from_bytes([0xa1; 20]);
    let b = Address::from_bytes([0xb2; 20]);
    let p = Pool::oriented(&a, &a, amt(1_000), amt(2_000), 30);
    assert_eq!(low(p.reserve_in), 1_000);
    assert_eq!(low(p.reserve_out), 2_000);
    assert_eq!(p.fee_bps, 30);
    let p = Pool::oriented(&b, &a, amt(1_000), amt(2_000), 25);
    assert_eq!(low(p.reserve_in), 2_000);
    assert_eq!(low(p.reserve_out), 1_000);
    assert_eq!(p.fee_bps, 25);
}

#[test]
fn reversed_swaps_the_sides() {
    let p = pool(1_000, 2_000, 30).reversed();
    assert_eq!(low(p.reserve_in), 2_000);
    assert_eq!(low(p.reserve_out), 1_000);
    assert_eq!(p.fee_bps, 30);
}

#[test]
fn gas_cost_is_units_times_price() {
    assert_eq!(low(gas_cost(100_000, 50_000_000_000)), 5_000_000_000_000_000);
    assert!(gas_cost(0, 50).is_zero());
    assert!(gas_cost(50, 0).is_zero());
    // 2^64 - 1 times 2^128 - 1 needs three words
    let c = gas_cost(u64::MAX, u128::MAX);
    assert_eq!(c.limbs, [1, u64::MAX, u64::MAX - 1, 0]);
}

#[test]
fn sandwich_without_fee_returns_more_than_it_paid() {
    // front 100 buys 90; the victim's 100 buy 75; selling 90 returns 116
    let input = sandwich_input(100, 100, 0, pool(1_000, 1_000, 0));
    assert_eq!(low(input.back_leg_return().unwrap()), 116);
    let e = input.estimate();
    assert_eq!(low(e.profit), 16);
    assert_eq!(low(e.gas), 5_000_000_000_000_000);
}

#[test]
fn sandwich_around_a_swap_of_ten_units() {
    let input = sandwich_input(10 * E, 10 * E, 0, pool(100 * E, 100 * E, 30));
    assert_eq!(low(input.back_leg_return().unwrap()), 11_736_835_253_111_770_839);
    let e = input.estimate();
    assert_eq!(low(e.profit), 1_736_835_253_111_770_839);
    assert_eq!(low(e.gas), 5_000_000_000_000_000);
    assert_eq!(low(e.net_profit()), 1_731_835_253_111_770_839);
    assert!(e.pays_for_gas());
}

#[test]
fn sandwich_is_void_when_the_victim_would_revert() {
    // after the front leg the victim takes out 7556980027341411449
    let at_minimum = sandwich_input(10 * E, 10 * E, 7_556_980_027_341_411_449, pool(100 * E, 100 * E, 30));
    assert_eq!(low(at_minimum.estimate().profit), 1_736_835_253_111_770_839);
    let above = sandwich_input(10 * E, 10 * E, 7_556_980_027_341_411_450, pool(100 * E, 100 * E, 30));
    assert!(above.back_leg_return().is_none());
    assert!(above.estimate().profit.is_zero());
}

#[test]
fn sandwich_with_insufficient_liquidity_has_zero_profit() {
    let dry = sandwich_input(10 * E, 10 * E, 0, pool(100 * E, 0, 30));
    assert!(dry.back_leg_return().is_none());
    assert!(dry.estimate().profit.is_zero());
    assert_eq!(low(dry.estimate().gas), 5_000_000_000_000_000);
    let dry = sandwich_input(10 * E, 10 * E, 0, pool(0, 100 * E, 30));
    assert!(dry.estimate().profit.is_zero());
    // a front leg that buys nothing
    let dust = sandwich_input(1, 10, 0, pool(100 * E, 1, 30));
    assert!(dust.back_leg_return().is_none());
    assert!(dust.estimate().profit.is_zero());
}

#[test]
fn sandwich_that_returns_less_than_it_paid_has_zero_profit() {
    // nobody in between: buying and selling back only pays the fee twice
    let input = sandwich_input(10 * E, 0, 0, pool(100 * E, 100 * E, 30));
    let back = input.back_leg_return().unwrap();
    assert!(back.lt(&amt(10 * E)));
    assert!(input.estimate().profit.is_zero());
    assert!(!input.estimate().pays_for_gas());
}

#[test]
fn arbitrage_gains_the_spread_between_two_venues() {
    let input = ArbitrageInput {
        amount_in: amt(100),
        buy_pool: pool(100_000, 200_000, 30),
        sell_pool: pool(100_000, 100_000, 30),
        router_fee: amt(8),
        gas_units: 300_000,
        gas_price: 0,
    };
    // 100 buy 199, which sell for 198
    assert_eq!(low(input.round_trip_return().unwrap()), 198);
    assert_eq!(low(input.spread()), 98);
    let e = input.estimate();
    assert_eq!(low(e.profit), 90);
    assert!(e.gas.is_zero());
}

#[test]
fn arbitrage_without_a_spread_has_zero_profit() {
    let input = ArbitrageInput {
        amount_in: amt(1_000),
        buy_pool: pool(100_000, 101_000, 30),
        sell_pool: pool(100_000, 100_000, 30),
        router_fee: Amount::zero(),
        gas_units: 300_000,
        gas_price: 1,
    };
    // 1000 buy 997, which sell for 984
    assert_eq!(low(input.round_trip_return().unwrap()), 984);
    assert!(input.spread().is_zero());
    assert!(input.estimate().profit.is_zero());
    assert_eq!(low(input.estimate().gas), 300_000);
}

#[test]
fn arbitrage_with_insufficient_liquidity_has_zero_profit() {
    let mut input = ArbitrageInput {
        amount_in: amt(100),
        buy_pool: pool(100_000, 200_000, 30),
        sell_pool: pool(0, 100_000, 30),
        router_fee: Amount::zero(),
        gas_units: 1,
        gas_price: 1,
    };
    assert!(input.round_trip_return().is_none());
    assert!(input.estimate().profit.is_zero());
    input.sell_pool = pool(100_000, 100_000, 30);
    input.buy_pool = pool(100_000, 0, 30);
    assert!(input.estimate().profit.is_zero());
}

#[test]
fn router_fee_above_the_spread_leaves_zero_profit() {
    let input = ArbitrageInput {
        amount_in: amt(100),
        buy_pool: pool(100_000, 200_000, 30),
        sell_pool: pool(100_000, 100_000, 30),
        router_fee: amt(98),
        gas_units: 0,
        gas_price: 0,
    };
    assert!(input.estimate().profit.is_zero());
}

#[test]
fn position_below_the_ratio_may_be_liquidated() {
    // 1,050,000 * 10,000 < 1,000,000 * 11,000
    assert!(position(1_050_000, 1_000_000).is_liquidatable());
    assert!(position(1_099_999, 1_000_000).is_liquidatable());
}

#[test]
fn position_exactly_at_the_ratio_is_not_liquidated() {
    // 1,100,000 * 10,000 = 1,000,000 * 11,000
    let at = position(1_100_000, 1_000_000);
    assert!(!at.is_liquidatable());
    assert!(at.max_repay().is_none());
    assert!(at.estimate().profit.is_zero());
    assert!(!position(1_100_001, 1_000_000).is_liquidatable());
}

#[test]
fn liquidation_repays_the_close_factor_of_the_debt() {
    let p = position(1_050_000, 1_000_000);
    assert_eq!(low(p.max_repay().unwrap()), 500_000);
    // bonus 5% of 500,000 = 25,000; flash fee 0.09% = 450
    let e = p.estimate();
    assert_eq!(low(e.profit), 24_550);
    assert_eq!(low(e.gas), 1_000_000);
}

#[test]
fn liquidation_is_capped_by_the_collateral() {
    let p = position(300_000, 1_000_000);
    // 300,000 * 10,000 / 10,500 = 285,714.28..
    assert_eq!(low(p.max_repay().unwrap()), 285_714);
    // bonus 14,285; fee 257
    assert_eq!(low(p.estimate().profit), 14_028);
}

#[test]
fn liquidation_of_nothing_has_zero_profit() {
    let p = position(0, 1_000_000);
    assert!(p.is_liquidatable());
    assert!(p.max_repay().is_none());
    assert!(p.estimate().profit.is_zero());
    let none = position(0, 0);
    assert!(!none.is_liquidatable());
    assert!(none.estimate().profit.is_zero());
}

#[test]
fn liquidation_fee_above_the_bonus_leaves_zero_profit() {
    let mut p = position(1_050_000, 1_000_000);
    p.flash_fee_bps = 600;
    assert!(p.estimate().profit.is_zero());
    p.flash_fee_bps = 500;
    assert!(p.estimate().profit.is_zero());
    p.flash_fee_bps = 499;
    assert_eq!(low(p.estimate().profit), 50);
}

#[test]
fn liquidation_ratio_is_compared_over_512_bits() {
    let huge = Amount { limbs: [0, 0, 0, 1 << 63] };
    let mut p = position(0, 0);
    p.collateral_value = huge;
    p.debt_value = huge;
    p.min_collateral_ratio_bps = 10_001;
    assert!(p.is_liquidatable());
    p.min_collateral_ratio_bps = 10_000;
    assert!(!p.is_liquidatable());
}

#[test]
fn estimate_dispatches_on_the_kind() {
    let s = sandwich_input(100, 100, 0, pool(1_000, 1_000, 0));
    assert_eq!(low(estimate(&EstimateInput::Sandwich(s)).profit), 16);
    let l = position(1_050_000, 1_000_000);
    assert_eq!(low(estimate(&EstimateInput::Liquidation(l)).profit), 24_550);
    let a = ArbitrageInput {
        amount_in: amt(100),
        buy_pool: pool(100_000, 200_000, 30),
        sell_pool: pool(100_000, 100_000, 30),
        router_fee: Amount::zero(),
        gas_units: 3,
        gas_price: 7,
    };
    let e = estimate(&EstimateInput::Arbitrage(a));
    assert_eq!(low(e.profit), 98);
    assert_eq!(low(e.gas), 21);
}

#[test]
fn estimate_of_an_incomplete_trade_is_exactly_zero() {
    let inputs = vec![
        EstimateInput::Sandwich(sandwich_input(10, 10, 0, pool(0, 0, 30))),
        EstimateInput::Sandwich(sandwich_input(10, 10, 1_000, pool(1_000, 1_000, 30))),
        EstimateInput::Liquidation(position(2_000_000, 1_000_000)),
        EstimateInput::Arbitrage(ArbitrageInput {
            amount_in: amt(5),
            buy_pool: pool(1, 0, 0),
            sell_pool: pool(1, 1, 0),
            router_fee: Amount::zero(),
            gas_units: 1,
            gas_price: 1,
        }),
    ];
    for input in inputs {
        assert_eq!(estimate(&input).profit.limbs, [0, 0, 0, 0]);
    }
}

#[test]
fn net_profit_is_profit_less_gas_or_zero() {
    let e = Estimate { profit: amt(55), gas: amt(5) };
    assert_eq!(low(e.net_profit()), 50);
    assert!(e.pays_for_gas());
    let e = Estimate { profit: amt(5), gas: amt(5) };
    assert!(e.net_profit().is_zero());
    assert!(!e.pays_for_gas());
    let e = Estimate { profit: amt(5), gas: amt(55) };
    assert!(e.net_profit().is_zero());
    assert!(!e.pays_for_gas());
    let e = Estimate::nothing(amt(9));
    assert!(e.profit.is_zero());
    assert_eq!(low(e.gas), 9);
}
