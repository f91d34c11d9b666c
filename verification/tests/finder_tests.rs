use mev_bot::amount::Amount;
use mev_bot::calldata::{decode_swap, encode_liquidation};
use mev_bot::estimator::Pool;
use mev_bot::finder::{
    ArbitrageSettings, ChainContext, LiquidationRules, OpportunityFinder, PairSnapshot, Position,
    DEFAULT_ARBITRAGE_GAS, DEFAULT_LIQUIDATION_GAS, DEFAULT_MARGIN_BPS,
};
use mev_bot::opportunity::OpportunityType;
use mev_bot::primitives::{Address, ConfigurationError};

const E: u128 = 1_000_000_000_000_000_000;

fn amt(v: u128) -> Amount {
    Amount::from_u128(v)
}

fn low(a: Amount) -> u128 {
    assert_eq!(a.limbs[2], 0);
    assert_eq!(a.limbs[3], 0);
    ((a.limbs[1] as u128) << 64) + a.limbs[0] as u128
}

fn pool(reserve_in: u128, reserve_out: u128) -> Pool {
    Pool { reserve_in: amt(reserve_in), reserve_out: amt(reserve_out), fee_bps: 30 }
}

fn ctx() -> ChainContext {
    ChainContext {
        head: 1_234,
        gas_price: 50_000_000_000,
        account: Address::from_bytes([0xac; 20]),
        deadline: Amount::from_u64(1_700_000_000),
    }
}

fn pair(buy_out: u128) -> PairSnapshot {
    PairSnapshot {
        token_in: Address::from_bytes([0xa1; 20]),
        token_out: Address::from_bytes([0xb2; 20]),
        buy_venue: "uniswap_v2".to_string(),
        sell_venue: "sushiswap".to_string(),
        buy_pool: pool(100 * E, buy_out),
        sell_pool: pool(200 * E, 100 * E),
        amount_in: amt(E),
    }
}

fn position(user: u8, collateral: u128, debt: u128) -> Position {
    Position {
        protocol: "aave".to_string(),
        pool: Address::from_bytes([0x99; 20]),
        user: Address::from_bytes([user; 20]),
        collateral: Address::from_bytes([0xc0; 20]),
        debt: Address::from_bytes([0xd0; 20]),
        collateral_value: amt(collateral),
        debt_value: amt(debt),
    }
}

fn rules(min_ratio: u32, gas_units: u64) -> LiquidationRules {
    LiquidationRules {
        min_collateral_ratio_bps: min_ratio,
        close_factor_bps: 5_000,
        bonus_bps: 500,
        flash_fee_bps: 9,
        gas_units,
    }
}

fn settings(margin_bps: u16, gas_units: u64) -> ArbitrageSettings {
    ArbitrageSettings { margin_bps, router_fee: Amount::zero(), gas_units }
}

fn finder(margin_bps: u16, arbitrage_gas: u64, min_ratio: u32, liquidation_gas: u64) -> OpportunityFinder {
    let mut f = OpportunityFinder::new().unwrap();
    f.configure(settings(margin_bps, arbitrage_gas), rules(min_ratio, liquidation_gas)).unwrap();
    f
}

#[test]
fn default_constants() {
    assert_eq!(DEFAULT_MARGIN_BPS, 50);
    assert_eq!(DEFAULT_ARBITRAGE_GAS, 300_000);
    assert_eq!(DEFAULT_LIQUIDATION_GAS, 500_000);
}

#[test]
fn new_finder_knows_uniswap_and_sushiswap() {
    let f = OpportunityFinder::new().unwrap();
    let uniswap = f.router_of(&"uniswap_v2".to_string()).unwrap();
    let sushiswap = f.router_of(&"sushiswap".to_string()).unwrap();
    assert_eq!(
        uniswap.bytes,
        Address::from_hex("0x7a250d5630B4cF539739dF2C5dAcb4c659F2488D").unwrap().bytes
    );
    assert_eq!(
        sushiswap.bytes,
        Address::from_hex("0xd9e1cE17f2641f24aE83637ab66a2cca9C378B9F").unwrap().bytes
    );
    assert!(f.router_of(&"uniswap_v3".to_string()).is_none());
    assert!(f.router_of(&"".to_string()).is_none());
}

#[test]
fn empty_finder_knows_no_venue() {
    let f = OpportunityFinder::empty();
    assert!(f.router_of(&"uniswap_v2".to_string()).is_none());
    assert!(f.detect_arbitrage(&pair(210 * E), &ctx()).is_none());
}

#[test]
fn register_adds_and_replaces_venues() {
    let mut f = OpportunityFinder::empty();
    let one = Address::from_bytes([1; 20]);
    let two = Address::from_bytes([2; 20]);
    let three = Address::from_bytes([3; 20]);
    assert!(f.register("a".to_string(), one).is_none());
    assert!(f.register("b".to_string(), two).is_none());
    assert_eq!(f.router_of(&"a".to_string()).unwrap().bytes, [1; 20]);
    assert_eq!(f.router_of(&"b".to_string()).unwrap().bytes, [2; 20]);
    // the same name again replaces the router and returns the old one
    assert_eq!(f.register("a".to_string(), three).unwrap().bytes, [1; 20]);
    assert_eq!(f.router_of(&"a".to_string()).unwrap().bytes, [3; 20]);
    assert_eq!(f.router_of(&"b".to_string()).unwrap().bytes, [2; 20]);
    assert_eq!(f.register("a".to_string(), one).unwrap().bytes, [3; 20]);
}

#[test]
fn has_router_knows_the_routers_of_the_venues() {
    let mut f = OpportunityFinder::empty();
    assert!(!f.has_router(&Address::from_bytes([1; 20])));
    f.register("a".to_string(), Address::from_bytes([1; 20]));
    f.register("b".to_string(), Address::from_bytes([2; 20]));
    assert!(f.has_router(&Address::from_bytes([1; 20])));
    assert!(f.has_router(&Address::from_bytes([2; 20])));
    assert!(!f.has_router(&Address::from_bytes([3; 20])));
    f.register("a".to_string(), Address::from_bytes([3; 20]));
    assert!(!f.has_router(&Address::from_bytes([1; 20])));
    assert!(f.has_router(&Address::from_bytes([3; 20])));
}

#[test]
fn trade_paths_pair_every_venue_with_every_other() {
    let pair = |a: &str, b: &str| (a.to_string(), b.to_string());
    let mut f = OpportunityFinder::empty();
    assert!(f.trade_paths().is_empty());
    f.register("a".to_string(), Address::from_bytes([1; 20]));
    assert!(f.trade_paths().is_empty());
    f.register("b".to_string(), Address::from_bytes([2; 20]));
    assert_eq!(f.trade_paths(), vec![pair("a", "b"), pair("b", "a")]);
    f.register("c".to_string(), Address::from_bytes([3; 20]));
    assert_eq!(
        f.trade_paths(),
        vec![
            pair("a", "b"),
            pair("a", "c"),
            pair("b", "a"),
            pair("b", "c"),
            pair("c", "a"),
            pair("c", "b"),
        ]
    );
    let f = OpportunityFinder::new().unwrap();
    assert_eq!(
        f.trade_paths(),
        vec![pair("uniswap_v2", "sushiswap"), pair("sushiswap", "uniswap_v2")]
    );
}

#[test]
fn configure_refuses_shares_above_the_whole() {
    let mut f = OpportunityFinder::new().unwrap();
    assert_eq!(
        f.configure(settings(10_001, 1), rules(11_000, 1)),
        Err(ConfigurationError::InvalidSetting)
    );
    let mut bad = rules(11_000, 1);
    bad.close_factor_bps = 10_001;
    assert_eq!(f.configure(settings(50, 1), bad), Err(ConfigurationError::InvalidSetting));
    let mut bad = rules(11_000, 1);
    bad.bonus_bps = 10_001;
    assert_eq!(f.configure(settings(50, 1), bad), Err(ConfigurationError::InvalidSetting));
    let mut bad = rules(11_000, 1);
    bad.flash_fee_bps = 10_001;
    assert_eq!(f.configure(settings(50, 1), bad), Err(ConfigurationError::InvalidSetting));
    // the ratio may be above 10,000: 110% is usual
    assert_eq!(f.configure(settings(10_000, 1), rules(15_000, 1)), Ok(()));
}

#[test]
fn refused_configuration_changes_nothing() {
    let mut f = finder(0, 0, 11_000, 0);
    assert!(f.detect_arbitrage(&pair(210 * E), &ctx()).is_some());
    assert!(f.configure(settings(10_001, 0), rules(11_000, 0)).is_err());
    assert!(f.detect_arbitrage(&pair(210 * E), &ctx()).is_some());
}

#[test]
fn arbitrage_is_reported_with_its_numbers() {
    // gas: 100,000 units at 50 gwei = 5e15; margin: 0.5% of 1e18 = 5e15
    let f = finder(50, 100_000, 11_000, 500_000);
    let o = f.detect_arbitrage(&pair(210 * E), &ctx()).unwrap();
    // 1e18 buys 2073031872233828727, which sells for 1022836332308546096
    assert_eq!(low(o.profit_estimate), 22_836_332_308_546_096);
    assert_eq!(low(o.gas_estimate), 5_000_000_000_000_000);
    assert_eq!(o.block_number, 1_234);
    match &o.opportunity_type {
        OpportunityType::Arbitrage { token_in, token_out, dex_path } => {
            assert_eq!(token_in.bytes, [0xa1; 20]);
            assert_eq!(token_out.bytes, [0xb2; 20]);
            assert_eq!(dex_path, &vec!["uniswap_v2".to_string(), "sushiswap".to_string()]);
        }
        other => panic!("not an arbitrage: {:?}", other),
    }
    assert_eq!(o.transaction_data.len(), 2);
    let first = &o.transaction_data[0];
    let second = &o.transaction_data[1];
    assert_eq!(first.to.bytes, f.router_of(&"uniswap_v2".to_string()).unwrap().bytes);
    assert_eq!(second.to.bytes, f.router_of(&"sushiswap".to_string()).unwrap().bytes);
    assert!(first.value.is_zero() && second.value.is_zero());
    assert_eq!(first.gas, 50_000);
    assert_eq!(second.gas, 50_000);
    let buy = decode_swap(&first.data).unwrap();
    assert_eq!(low(buy.amount_in), E);
    assert_eq!(low(buy.amount_out_min), 2_073_031_872_233_828_727);
    assert_eq!(buy.path[0].bytes, [0xa1; 20]);
    assert_eq!(buy.path[1].bytes, [0xb2; 20]);
    assert_eq!(buy.recipient.bytes, [0xac; 20]);
    assert_eq!(low(buy.deadline), 1_700_000_000);
    let sell = decode_swap(&second.data).unwrap();
    assert_eq!(low(sell.amount_in), 2_073_031_872_233_828_727);
    assert_eq!(low(sell.amount_out_min), E);
    assert_eq!(sell.path[0].bytes, [0xb2; 20]);
    assert_eq!(sell.path[1].bytes, [0xa1; 20]);
}

#[test]
fn arbitrage_must_clear_gas_and_margin_strictly() {
    // profit 22836332308546096; margin 5e15 at 50 basis points
    let profit: u128 = 22_836_332_308_546_096;
    let margin: u128 = 5_000_000_000_000_000;
    let mut context = ctx();
    context.gas_price = 1;
    // gas of profit - margin - 1 leaves one unit above the floor
    let f = finder(50, (profit - margin - 1) as u64, 11_000, 0);
    assert!(f.detect_arbitrage(&pair(210 * E), &context).is_some());
    // gas of profit - margin puts the profit exactly at the floor
    let f = finder(50, (profit - margin) as u64, 11_000, 0);
    assert!(f.detect_arbitrage(&pair(210 * E), &context).is_none());
}

#[test]
fn spread_below_the_margin_is_never_reported() {
    // the spread is 22836332308546096, 2.28% of what goes in
    let mut context = ctx();
    context.gas_price = 0;
    assert!(finder(228, 0, 11_000, 0).detect_arbitrage(&pair(210 * E), &context).is_some());
    assert!(finder(229, 0, 11_000, 0).detect_arbitrage(&pair(210 * E), &context).is_none());
    assert!(finder(10_000, 0, 11_000, 0).detect_arbitrage(&pair(210 * E), &context).is_none());
}

#[test]
fn round_trip_at_a_loss_is_not_reported() {
    let mut context = ctx();
    context.gas_price = 0;
    assert!(finder(0, 0, 11_000, 0).detect_arbitrage(&pair(200 * E), &context).is_none());
}

#[test]
fn arbitrage_at_an_unknown_venue_is_not_reported() {
    let f = finder(0, 0, 11_000, 0);
    let mut p = pair(210 * E);
    p.sell_venue = "curve".to_string();
    assert!(f.detect_arbitrage(&p, &ctx()).is_none());
    let mut p = pair(210 * E);
    p.buy_venue = "curve".to_string();
    assert!(f.detect_arbitrage(&p, &ctx()).is_none());
}

#[test]
fn find_arbitrage_reports_the_pairs_worth_it_in_order() {
    let f = finder(50, 100_000, 11_000, 0);
    let mut third = pair(220 * E);
    third.token_in = Address::from_bytes([0xa3; 20]);
    let pairs = vec![pair(200 * E), pair(210 * E), pair(100 * E), third];
    let found = f.find_arbitrage_opportunities(&pairs, &ctx());
    assert_eq!(found.len(), 2);
    assert_eq!(low(found[0].profit_estimate), 22_836_332_308_546_096);
    match &found[1].opportunity_type {
        OpportunityType::Arbitrage { token_in, .. } => assert_eq!(token_in.bytes, [0xa3; 20]),
        other => panic!("not an arbitrage: {:?}", other),
    }
    assert!(found[1].profit_estimate.gt(&found[0].profit_estimate));
    assert!(f.find_arbitrage_opportunities(&Vec::new(), &ctx()).is_empty());
    assert!(f.find_arbitrage_opportunities(&vec![pair(200 * E)], &ctx()).is_empty());
}

#[test]
fn liquidation_is_reported_with_its_numbers() {
    let mut context = ctx();
    context.gas_price = 2;
    let f = finder(50, 0, 11_000, 500_000);
    let p = position(7, 105 * E, 100 * E);
    let o = f.detect_liquidation(&p, &context).unwrap();
    // repay 50e18; bonus 2.5e18; flash fee 0.045e18
    assert_eq!(low(o.profit_estimate), 2_455_000_000_000_000_000);
    assert_eq!(low(o.gas_estimate), 1_000_000);
    assert_eq!(o.block_number, 1_234);
    match &o.opportunity_type {
        OpportunityType::Liquidation { protocol, user, collateral, debt } => {
            assert_eq!(protocol, "aave");
            assert_eq!(user.bytes, [7; 20]);
            assert_eq!(collateral.bytes, [0xc0; 20]);
            assert_eq!(debt.bytes, [0xd0; 20]);
        }
        other => panic!("not a liquidation: {:?}", other),
    }
    assert_eq!(o.transaction_data.len(), 1);
    let tx = &o.transaction_data[0];
    assert_eq!(tx.to.bytes, [0x99; 20]);
    assert!(tx.value.is_zero());
    assert_eq!(tx.gas, 500_000);
    assert_eq!(tx.data, encode_liquidation(&p.collateral, &p.debt, &p.user, &amt(50 * E)));
}

#[test]
fn position_exactly_at_the_threshold_is_not_flagged() {
    let f = finder(50, 0, 11_000, 0);
    // 110 over 100 is exactly 110%
    assert!(f.detect_liquidation(&position(7, 110 * E, 100 * E), &ctx()).is_none());
    assert!(f.detect_liquidation(&position(7, 110 * E + 1, 100 * E), &ctx()).is_none());
    assert!(f.detect_liquidation(&position(7, 110 * E - 1, 100 * E), &ctx()).is_some());
}

#[test]
fn liquidation_must_pay_for_its_gas_strictly() {
    let mut context = ctx();
    context.gas_price = 1;
    // profit of repaying 500,000 is 24,550
    let p = position(7, 1_050_000, 1_000_000);
    assert!(finder(50, 0, 11_000, 24_549).detect_liquidation(&p, &context).is_some());
    assert!(finder(50, 0, 11_000, 24_550).detect_liquidation(&p, &context).is_none());
    assert!(finder(50, 0, 11_000, 24_551).detect_liquidation(&p, &context).is_none());
}

#[test]
fn find_block_opportunities_reports_the_positions_under_water_in_order() {
    let mut context = ctx();
    context.gas_price = 0;
    let f = finder(50, 0, 11_000, 0);
    let positions = vec![
        position(1, 200 * E, 100 * E),
        position(2, 105 * E, 100 * E),
        position(3, 110 * E, 100 * E),
        position(4, 50 * E, 100 * E),
        position(5, 0, 100 * E),
    ];
    let found = f.find_block_opportunities(&positions, &context);
    assert_eq!(found.len(), 2);
    let users: Vec<[u8; 20]> = found
        .iter()
        .map(|o| match &o.opportunity_type {
            OpportunityType::Liquidation { user, .. } => user.bytes,
            other => panic!("not a liquidation: {:?}", other),
        })
        .collect();
    assert_eq!(users, vec![[2u8; 20], [4u8; 20]]);
    assert!(f.find_block_opportunities(&Vec::new(), &context).is_empty());
}
