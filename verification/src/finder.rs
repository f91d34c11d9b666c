//! Detection of arbitrage between venues and of positions that may be
//! liquidated, from a snapshot of pools and positions that the caller has
//! read at one chain head.

use crate::amount::{scaled, Amount};
use crate::calldata::{
    decoded_swap, encode_liquidation, encode_swap, is_liquidation_call, SwapCall, SwapCallView,
};
use crate::estimator::{
    arbitrage_spread, expected_gas, expected_profit, liquidation_repay_of, quoted, ArbitrageInput,
    EstimateInput, LiquidationInput, Pool,
};
use crate::opportunity::{path_view, MEVOpportunity, OpportunityType, TxRequest};
use crate::primitives::{hex_address, Address, ConfigurationError};
use vstd::prelude::*;

verus! {

/// A venue: its name and the address of its router.
#[derive(Clone, Debug)]
pub struct Venue {
    pub name: String,
    pub router: Address,
}

/// What holds at the chain head that a snapshot was read at.
#[derive(Clone, Copy, Debug)]
pub struct ChainContext {
    /// The chain head.
    pub head: u64,
    /// Price of one gas unit.
    pub gas_price: u128,
    /// The account that trades.
    pub account: Address,
    /// The time after which transactions built now are void.
    pub deadline: Amount,
}

/// How arbitrage is judged.
#[derive(Clone, Copy, Debug)]
pub struct ArbitrageSettings {
    /// A round trip is reported only when its profit is above its gas by
    /// more than this share of what it starts with, in basis points.
    pub margin_bps: u16,
    /// What the router charges for a round trip.
    pub router_fee: Amount,
    /// Gas units of a round trip.
    pub gas_units: u64,
}

/// The rules of a lending protocol for closing positions.
#[derive(Clone, Copy, Debug)]
pub struct LiquidationRules {
    /// A position may be liquidated once collateral over debt is below this
    /// ratio, in basis points.
    pub min_collateral_ratio_bps: u32,
    /// The share of the debt that one liquidation may repay, in basis points.
    pub close_factor_bps: u16,
    /// The bonus on the repaid amount, in basis points.
    pub bonus_bps: u16,
    /// The fee for borrowing the repaid amount, in basis points.
    pub flash_fee_bps: u16,
    /// Gas units of a liquidation.
    pub gas_units: u64,
}

/// One token pair at two venues, as read at one chain head.
#[derive(Clone, Debug)]
pub struct PairSnapshot {
    /// The token that the round trip starts and ends with.
    pub token_in: Address,
    /// The token in between.
    pub token_out: Address,
    /// The venue where `token_in` is sold.
    pub buy_venue: String,
    /// The venue where `token_out` is sold back.
    pub sell_venue: String,
    /// The pool at `buy_venue`: `token_in` in, `token_out` out.
    pub buy_pool: Pool,
    /// The pool at `sell_venue`: `token_out` in, `token_in` out.
    pub sell_pool: Pool,
    /// What the round trip starts with.
    pub amount_in: Amount,
}

/// One borrower's position, as read at one chain head. Values are in units
/// of the debt asset.
#[derive(Clone, Debug)]
pub struct Position {
    /// The lending protocol.
    pub protocol: String,
    /// The protocol's contract that takes liquidations.
    pub pool: Address,
    /// The borrower.
    pub user: Address,
    /// The asset held as collateral.
    pub collateral: Address,
    /// The asset owed.
    pub debt: Address,
    /// Value of the collateral.
    pub collateral_value: Amount,
    /// Value of the debt.
    pub debt_value: Amount,
}

/// No name occurs twice.
pub open spec fn distinct_names(venues: Seq<Venue>) -> bool {
    forall|i: int, j: int|
        0 <= i < venues.len() && 0 <= j < venues.len() && i != j ==> venues[i].name@
            != venues[j].name@
}

/// The router of the venue called `name`, if there is one.
pub open spec fn router_named(venues: Seq<Venue>, name: Seq<char>) -> Option<Seq<u8>> {
    if exists|i: int| 0 <= i < venues.len() && #[trigger] venues[i].name@ == name {
        Some(
            venues[choose|i: int| 0 <= i < venues.len() && #[trigger] venues[i].name@ == name].router@,
        )
    } else {
        None
    }
}

/// The sizes of a round trip through the pools of `pair`.
pub open spec fn arbitrage_input(
    pair: PairSnapshot,
    settings: ArbitrageSettings,
    ctx: ChainContext,
) -> ArbitrageInput {
    ArbitrageInput {
        amount_in: pair.amount_in,
        buy_pool: pair.buy_pool,
        sell_pool: pair.sell_pool,
        router_fee: settings.router_fee,
        gas_units: settings.gas_units,
        gas_price: ctx.gas_price,
    }
}

/// A round trip is reported when both venues are known and its profit is
/// above its gas by more than the margin.
pub open spec fn arbitrage_found(
    venues: Seq<Venue>,
    pair: PairSnapshot,
    settings: ArbitrageSettings,
    ctx: ChainContext,
) -> bool {
    let input = EstimateInput::Arbitrage(arbitrage_input(pair, settings, ctx));
    &&& router_named(venues, pair.buy_venue@) is Some
    &&& router_named(venues, pair.sell_venue@) is Some
    &&& scaled(pair.amount_in@, settings.margin_bps as nat, 10_000) matches Some(margin)
    &&& expected_profit(input) > expected_gas(input) + margin
}

/// What the first trade of a round trip buys.
pub open spec fn trip_bought(pair: PairSnapshot) -> nat {
    match quoted(
        pair.amount_in@,
        pair.buy_pool.reserve_in@,
        pair.buy_pool.reserve_out@,
        pair.buy_pool.fee_bps as nat,
    ) {
        Some(bought) => bought,
        None => 0,
    }
}

/// The two transactions of a round trip: sell at the first venue for no less
/// than was quoted, sell that back at the second for no less than went in.
pub open spec fn is_arbitrage_bundle(
    bundle: Seq<TxRequest>,
    venues: Seq<Venue>,
    pair: PairSnapshot,
    settings: ArbitrageSettings,
    ctx: ChainContext,
) -> bool {
    &&& bundle.len() == 2
    &&& Some(bundle[0].to@) == router_named(venues, pair.buy_venue@)
    &&& Some(bundle[1].to@) == router_named(venues, pair.sell_venue@)
    &&& bundle[0].value@ == 0
    &&& bundle[1].value@ == 0
    &&& bundle[0].gas == settings.gas_units / 2
    &&& bundle[1].gas == settings.gas_units - settings.gas_units / 2
    &&& decoded_swap(bundle[0].data@) == Some(
        SwapCallView {
            amount_in: pair.amount_in@,
            amount_out_min: trip_bought(pair),
            path: seq![pair.token_in@, pair.token_out@],
            recipient: ctx.account@,
            deadline: ctx.deadline@,
        },
    )
    &&& decoded_swap(bundle[1].data@) == Some(
        SwapCallView {
            amount_in: trip_bought(pair),
            amount_out_min: pair.amount_in@,
            path: seq![pair.token_out@, pair.token_in@],
            recipient: ctx.account@,
            deadline: ctx.deadline@,
        },
    )
}

/// What a reported round trip says.
pub open spec fn describes_arbitrage(
    o: MEVOpportunity,
    venues: Seq<Venue>,
    pair: PairSnapshot,
    settings: ArbitrageSettings,
    ctx: ChainContext,
) -> bool {
    let input = EstimateInput::Arbitrage(arbitrage_input(pair, settings, ctx));
    &&& o.opportunity_type matches OpportunityType::Arbitrage { token_in, token_out, dex_path }
    &&& token_in@ == pair.token_in@
    &&& token_out@ == pair.token_out@
    &&& path_view(dex_path@) == seq![pair.buy_venue@, pair.sell_venue@]
    &&& o.profit_estimate@ == expected_profit(input)
    &&& o.gas_estimate@ == expected_gas(input)
    &&& o.block_number == ctx.head
    &&& is_arbitrage_bundle(o.transaction_data@, venues, pair, settings, ctx)
}

/// The sizes of a liquidation of `position`.
pub open spec fn liquidation_input(
    position: Position,
    rules: LiquidationRules,
    ctx: ChainContext,
) -> LiquidationInput {
    LiquidationInput {
        collateral_value: position.collateral_value,
        debt_value: position.debt_value,
        min_collateral_ratio_bps: rules.min_collateral_ratio_bps,
        close_factor_bps: rules.close_factor_bps,
        bonus_bps: rules.bonus_bps,
        flash_fee_bps: rules.flash_fee_bps,
        gas_units: rules.gas_units,
        gas_price: ctx.gas_price,
    }
}

/// A position is reported when it may be liquidated and the largest
/// repayment leaves a profit strictly above the gas.
pub open spec fn liquidation_found(position: Position, rules: LiquidationRules, ctx: ChainContext) -> bool {
    let input = liquidation_input(position, rules, ctx);
    &&& liquidation_repay_of(input) is Some
    &&& expected_profit(EstimateInput::Liquidation(input)) > expected_gas(
        EstimateInput::Liquidation(input),
    )
}

/// What a reported liquidation says.
pub open spec fn describes_liquidation(
    o: MEVOpportunity,
    position: Position,
    rules: LiquidationRules,
    ctx: ChainContext,
) -> bool {
    let input = liquidation_input(position, rules, ctx);
    &&& o.opportunity_type matches OpportunityType::Liquidation { protocol, user, collateral, debt }
    &&& protocol@ == position.protocol@
    &&& user@ == position.user@
    &&& collateral@ == position.collateral@
    &&& debt@ == position.debt@
    &&& o.profit_estimate@ == expected_profit(EstimateInput::Liquidation(input))
    &&& o.gas_estimate@ == expected_gas(EstimateInput::Liquidation(input))
    &&& o.block_number == ctx.head
    &&& o.transaction_data@.len() == 1
    &&& o.transaction_data@[0].to@ == position.pool@
    &&& o.transaction_data@[0].value@ == 0
    &&& o.transaction_data@[0].gas == rules.gas_units
    &&& liquidation_repay_of(input) matches Some(repay)
    &&& is_liquidation_call(
        o.transaction_data@[0].data@,
        position.collateral@,
        position.debt@,
        position.user@,
        repay,
    )
}

/// `picks` names places below `n` in rising order.
pub open spec fn is_selection(picks: Seq<int>, n: int) -> bool {
    &&& forall|i: int| 0 <= i < picks.len() ==> 0 <= #[trigger] picks[i] < n
    &&& forall|i: int, j: int| 0 <= i < j < picks.len() ==> picks[i] < picks[j]
}

/// `found` holds one report for each place below `n` that is wanted, and no
/// other, in rising order of place: report `i` is of place `picks[i]`, and
/// is what is due for that place.
pub open spec fn selects(
    found: Seq<MEVOpportunity>,
    picks: Seq<int>,
    n: int,
    wanted: spec_fn(int) -> bool,
    due: spec_fn(int, MEVOpportunity) -> bool,
) -> bool {
    &&& picks.len() == found.len()
    &&& is_selection(picks, n)
    &&& forall|i: int|
        0 <= i < found.len() ==> wanted(#[trigger] picks[i]) && due(picks[i], found[i])
    &&& forall|j: int| 0 <= j < n && #[trigger] wanted(j) ==> picks.contains(j)
}

/// A selection among the first `n` places, with the report of place `n`
/// added, is a selection among the first `n + 1`.
pub proof fn lemma_select_next(
    found: Seq<MEVOpportunity>,
    picks: Seq<int>,
    n: int,
    wanted: spec_fn(int) -> bool,
    due: spec_fn(int, MEVOpportunity) -> bool,
    report: MEVOpportunity,
)
    requires
        0 <= n,
        selects(found, picks, n, wanted, due),
        wanted(n),
        due(n, report),
    ensures
        selects(found.push(report), picks.push(n), n + 1, wanted, due),
{
    let more = picks.push(n);
    assert forall|j: int| 0 <= j < n + 1 && #[trigger] wanted(j) implies more.contains(j) by {
        if j < n {
            let w = choose|w: int| 0 <= w < picks.len() && picks[w] == j;
            assert(more[w] == j);
        } else {
            assert(more[picks.len() as int] == j);
        }
    }
    assert forall|i: int| 0 <= i < found.push(report).len() implies wanted(#[trigger] more[i])
        && due(more[i], found.push(report)[i]) by {
        if i < found.len() {
            assert(more[i] == picks[i]);
        }
    }
}

/// A selection among the first `n` places is one among the first `n + 1`
/// where place `n` is not wanted.
pub proof fn lemma_select_skip(
    found: Seq<MEVOpportunity>,
    picks: Seq<int>,
    n: int,
    wanted: spec_fn(int) -> bool,
    due: spec_fn(int, MEVOpportunity) -> bool,
)
    requires
        selects(found, picks, n, wanted, due),
        !wanted(n),
    ensures
        selects(found, picks, n + 1, wanted, due),
{
}

/// Which pairs of a snapshot are to be reported.
pub open spec fn arbitrage_wanted(
    venues: Seq<Venue>,
    pairs: Seq<PairSnapshot>,
    settings: ArbitrageSettings,
    ctx: ChainContext,
) -> spec_fn(int) -> bool {
    |j: int| arbitrage_found(venues, pairs[j], settings, ctx)
}

/// What the report of a pair of a snapshot says.
pub open spec fn arbitrage_due(
    venues: Seq<Venue>,
    pairs: Seq<PairSnapshot>,
    settings: ArbitrageSettings,
    ctx: ChainContext,
) -> spec_fn(int, MEVOpportunity) -> bool {
    |j: int, o: MEVOpportunity| describes_arbitrage(o, venues, pairs[j], settings, ctx)
}

/// Which positions of a snapshot are to be reported.
pub open spec fn liquidation_wanted(
    positions: Seq<Position>,
    rules: LiquidationRules,
    ctx: ChainContext,
) -> spec_fn(int) -> bool {
    |j: int| liquidation_found(positions[j], rules, ctx)
}

/// What the report of a position of a snapshot says.
pub open spec fn liquidation_due(
    positions: Seq<Position>,
    rules: LiquidationRules,
    ctx: ChainContext,
) -> spec_fn(int, MEVOpportunity) -> bool {
    |j: int, o: MEVOpportunity| describes_liquidation(o, positions[j], rules, ctx)
}

/// `found` holds one report for each pair that is to be reported, and no
/// other, in the order of the pairs: report `i` is of pair `picks[i]`.
pub open spec fn reports_arbitrage(
    found: Seq<MEVOpportunity>,
    picks: Seq<int>,
    venues: Seq<Venue>,
    pairs: Seq<PairSnapshot>,
    settings: ArbitrageSettings,
    ctx: ChainContext,
) -> bool {
    selects(
        found,
        picks,
        pairs.len() as int,
        arbitrage_wanted(venues, pairs, settings, ctx),
        arbitrage_due(venues, pairs, settings, ctx),
    )
}

/// `found` holds one report for each position that is to be reported, and no
/// other, in the order of the positions: report `i` is of position
/// `picks[i]`.
pub open spec fn reports_liquidations(
    found: Seq<MEVOpportunity>,
    picks: Seq<int>,
    positions: Seq<Position>,
    rules: LiquidationRules,
    ctx: ChainContext,
) -> bool {
    selects(
        found,
        picks,
        positions.len() as int,
        liquidation_wanted(positions, rules, ctx),
        liquidation_due(positions, rules, ctx),
    )
}

/// Whether `address` is the router of one of `venues`.
pub open spec fn is_router(venues: Seq<Venue>, address: Seq<u8>) -> bool {
    exists|i: int| 0 <= i < venues.len() && #[trigger] venues[i].router@ == address
}

/// A round trip whose spread is not above the margin is never reported.
pub proof fn law_spread_within_margin_not_reported(
    venues: Seq<Venue>,
    pair: PairSnapshot,
    settings: ArbitrageSettings,
    ctx: ChainContext,
)
    requires
        scaled(pair.amount_in@, settings.margin_bps as nat, 10_000) matches Some(margin)
            && arbitrage_spread(arbitrage_input(pair, settings, ctx)) <= margin,
    ensures
        !arbitrage_found(venues, pair, settings, ctx),
{
}

/// A position whose collateral over debt is at the protocol's ratio or above
/// it is never reported.
pub proof fn law_position_at_threshold_not_reported(
    position: Position,
    rules: LiquidationRules,
    ctx: ChainContext,
)
    requires
        position.collateral_value@ * 10_000 >= position.debt_value@
            * rules.min_collateral_ratio_bps,
    ensures
        !liquidation_found(position, rules, ctx),
{
}

/// Default: a round trip must clear its gas by half a percent of its size.
pub const DEFAULT_MARGIN_BPS: u16 = 50;

/// Default gas units of a round trip.
pub const DEFAULT_ARBITRAGE_GAS: u64 = 300_000;

/// Default gas units of a liquidation.
pub const DEFAULT_LIQUIDATION_GAS: u64 = 500_000;

/// Finds arbitrage and liquidations in snapshots of the chain. It holds the
/// registry of known venues, which does not change once the finder is
/// configured.
#[derive(Debug)]
pub struct OpportunityFinder {
    dex_contracts: Vec<Venue>,
    arbitrage: ArbitrageSettings,
    liquidation: LiquidationRules,
}

impl OpportunityFinder {
    /// The known venues.
    pub closed spec fn venues(&self) -> Seq<Venue> {
        self.dex_contracts@
    }

    /// How arbitrage is judged.
    pub closed spec fn arbitrage_settings(&self) -> ArbitrageSettings {
        self.arbitrage
    }

    /// The rules for liquidations.
    pub closed spec fn liquidation_rules(&self) -> LiquidationRules {
        self.liquidation
    }

    /// No venue name is registered twice. Every operation keeps this.
    pub closed spec fn wf(&self) -> bool {
        distinct_names(self.dex_contracts@)
    }

    /// A finder that knows no venue, with the default settings.
    pub fn empty() -> (r: OpportunityFinder)
        ensures
            r.wf(),
            r.venues().len() == 0,
            has_default_settings(r),
    {
        OpportunityFinder {
            dex_contracts: Vec::new(),
            arbitrage: ArbitrageSettings {
                margin_bps: DEFAULT_MARGIN_BPS,
                router_fee: Amount::zero(),
                gas_units: DEFAULT_ARBITRAGE_GAS,
            },
            liquidation: LiquidationRules {
                min_collateral_ratio_bps: 10_000,
                close_factor_bps: 5_000,
                bonus_bps: 500,
                flash_fee_bps: 9,
                gas_units: DEFAULT_LIQUIDATION_GAS,
            },
        }
    }

    /// A finder with the default settings that knows the routers of Uniswap
    /// V2, as `uniswap_v2`, and of SushiSwap, as `sushiswap`.
    pub fn new() -> (r: Result<OpportunityFinder, ConfigurationError>)
        ensures
            match r {
                Ok(f) => is_default_finder(f),
                Err(e) => {
                    &&& e == ConfigurationError::InvalidAddress
                    &&& (hex_address(uniswap_v2_router()) is None || hex_address(sushiswap_router())
                        is None)
                },
            },
    {
        let uniswap = match Address::from_hex("0x7a250d5630B4cF539739dF2C5dAcb4c659F2488D") {
            Some(a) => a,
            None => {
                return Err(ConfigurationError::InvalidAddress);
            },
        };
        let sushiswap = match Address::from_hex("0xd9e1cE17f2641f24aE83637ab66a2cca9C378B9F") {
            Some(a) => a,
            None => {
                return Err(ConfigurationError::InvalidAddress);
            },
        };
        let mut finder = OpportunityFinder::empty();
        let _ = finder.register("uniswap_v2".to_owned(), uniswap);
        let _ = finder.register("sushiswap".to_owned(), sushiswap);
        proof {
            reveal_strlit("uniswap_v2");
            reveal_strlit("sushiswap");
            assert("uniswap_v2"@.len() != "sushiswap"@.len());
        }
        assert(finder.dex_contracts@.len() == 2);
        Ok(finder)
    }

    /// Where the venue called `name` stands, if it is known.
    fn position_of(&self, name: &String) -> (r: Option<usize>)
        requires
            self.wf(),
        ensures
            match r {
                Some(i) => {
                    &&& i < self.dex_contracts.len()
                    &&& self.dex_contracts[i as int].name@ == name@
                    &&& router_named(self.dex_contracts@, name@) == Some(
                        self.dex_contracts[i as int].router@,
                    )
                },
                None => router_named(self.dex_contracts@, name@) is None,
            },
    {
        let mut i: usize = 0;
        while i < self.dex_contracts.len()
            invariant
                self.wf(),
                i <= self.dex_contracts.len(),
                forall|j: int| 0 <= j < i ==> self.dex_contracts[j].name@ != name@,
            decreases self.dex_contracts.len() - i,
        {
            if self.dex_contracts[i].name == *name {
                proof {
                    lemma_named(self.dex_contracts@, i as int);
                }
                return Some(i);
            }
            i += 1;
        }
        None
    }

    /// The router of the venue called `name`, if it is known.
    pub fn router_of(&self, name: &String) -> (r: Option<Address>)
        requires
            self.wf(),
        ensures
            match r {
                Some(a) => router_named(self.venues(), name@) == Some(a@),
                None => router_named(self.venues(), name@) is None,
            },
    {
        match self.position_of(name) {
            Some(i) => Some(self.dex_contracts[i].router),
            None => None,
        }
    }

    /// Whether `address` is the router of a known venue.
    pub fn has_router(&self, address: &Address) -> (r: bool)
        ensures
            r == is_router(self.venues(), address@),
    {
        let mut i: usize = 0;
        while i < self.dex_contracts.len()
            invariant
                i <= self.dex_contracts.len(),
                forall|j: int| 0 <= j < i ==> self.dex_contracts@[j].router@ != address@,
            decreases self.dex_contracts.len() - i,
        {
            if self.dex_contracts[i].router.eq(address) {
                return true;
            }
            i += 1;
        }
        false
    }

    /// The trade paths through two venues: every venue to buy at with every
    /// other venue to sell at, in the order of the registry.
    pub fn trade_paths(&self) -> (r: Vec<(String, String)>)
        ensures
            is_all_paths(r@, self.venues()),
    {
        let n = self.dex_contracts.len();
        let mut paths: Vec<(String, String)> = Vec::new();
        let mut i: usize = 0;
        while i < n
            invariant
                i <= n,
                n == self.dex_contracts.len(),
                paths.len() == i * (n - 1),
                forall|a: int, b: int|
                    0 <= a < i && 0 <= b < n && a != b ==> is_path(
                        paths@,
                        self.dex_contracts@,
                        #[trigger] path_index(n as int, a, b),
                        a,
                        b,
                    ),
            decreases n - i,
        {
            let mut j: usize = 0;
            while j < n
                invariant
                    i < n,
                    j <= n,
                    n == self.dex_contracts.len(),
                    paths.len() == path_index(n as int, i as int, j as int) + if j == i {
                        1int
                    } else {
                        0int
                    },
                    forall|a: int, b: int|
                        0 <= a < i && 0 <= b < n && a != b ==> is_path(
                            paths@,
                            self.dex_contracts@,
                            #[trigger] path_index(n as int, a, b),
                            a,
                            b,
                        ),
                    forall|b: int|
                        0 <= b < j && b != i ==> is_path(
                            paths@,
                            self.dex_contracts@,
                            #[trigger] path_index(n as int, i as int, b),
                            i as int,
                            b,
                        ),
                decreases n - j,
            {
                if j != i {
                    let ghost before = paths@;
                    proof {
                        lemma_path_index_bounds(n as int, i as int, j as int);
                    }
                    paths.push(
                        (self.dex_contracts[i].name.clone(), self.dex_contracts[j].name.clone()),
                    );
                    proof {
                        assert forall|a: int, b: int|
                            0 <= a < i && 0 <= b < n && a != b implies is_path(
                            paths@,
                            self.dex_contracts@,
                            #[trigger] path_index(n as int, a, b),
                            a,
                            b,
                        ) by {
                            lemma_path_index_order(n as int, a, b, i as int, j as int);
                            assert(is_path(before, self.dex_contracts@, path_index(n as int, a, b), a, b));
                        }
                        assert forall|b: int| 0 <= b < j + 1 && b != i implies is_path(
                            paths@,
                            self.dex_contracts@,
                            #[trigger] path_index(n as int, i as int, b),
                            i as int,
                            b,
                        ) by {
                            if b < j {
                                lemma_path_index_order(n as int, i as int, b, i as int, j as int);
                                assert(is_path(
                                    before,
                                    self.dex_contracts@,
                                    path_index(n as int, i as int, b),
                                    i as int,
                                    b,
                                ));
                            }
                        }
                    }
                }
                j += 1;
            }
            proof {
                lemma_path_index_row(n as int, i as int);
            }
            i += 1;
        }
        proof {
            assert(paths.len() == n * (n - 1));
        }
        paths
    }

    /// Registers a venue. A venue of the same name is replaced, and its
    /// router returned.
    pub fn register(&mut self, name: String, router: Address) -> (r: Option<Address>)
        requires
            old(self).wf(),
        ensures
            final(self).wf(),
            final(self).arbitrage_settings() == old(self).arbitrage_settings(),
            final(self).liquidation_rules() == old(self).liquidation_rules(),
            router_named(final(self).venues(), name@) == Some(router@),
            final(self).venues().len() == old(self).venues().len() + if r is Some {
                0int
            } else {
                1int
            },
            match r {
                Some(a) => router_named(old(self).venues(), name@) == Some(a@),
                None => router_named(old(self).venues(), name@) is None,
            },
            forall|other: Seq<char>|
                other != name@ ==> router_named(final(self).venues(), other) == router_named(
                    old(self).venues(),
                    other,
                ),
    {
        let ghost before = self.dex_contracts@;
        let found = self.position_of(&name);
        let replaced = match found {
            Some(i) => {
                let gone = self.dex_contracts.remove(i);
                Some(gone.router)
            },
            None => None,
        };
        let ghost between = self.dex_contracts@;
        let venue = Venue { name, router };
        self.dex_contracts.push(venue);
        proof {
            let after = self.dex_contracts@;
            let last = after.len() - 1;
            assert(after[last].name@ == name@);
            assert forall|a: int| 0 <= a < between.len() implies (#[trigger] between[a]).name@
                != name@ by {
                match found {
                    Some(i) => {
                        let b = if a < i {
                            a
                        } else {
                            a + 1
                        };
                        assert(before[b] == between[a]);
                        assert(before[b].name@ != before[i as int].name@);
                    },
                    None => {
                        assert(before[a] == between[a]);
                        assert(before[a].name@ != name@);
                    },
                }
            }
            assert(distinct_names(after)) by {
                assert forall|x: int, y: int|
                    0 <= x < after.len() && 0 <= y < after.len() && x != y implies after[x].name@
                    != after[y].name@ by {
                    if x < last && y < last {
                        match found {
                            Some(i) => {
                                let x0 = if x < i {
                                    x
                                } else {
                                    x + 1
                                };
                                let y0 = if y < i {
                                    y
                                } else {
                                    y + 1
                                };
                                assert(before[x0] == after[x] && before[y0] == after[y]);
                            },
                            None => {
                                assert(before[x] == after[x] && before[y] == after[y]);
                            },
                        }
                    } else if x < last {
                        assert(after[x] == between[x]);
                    } else {
                        assert(after[y] == between[y]);
                    }
                }
            }
            lemma_named(after, last);
            assert forall|other: Seq<char>| other != name@ implies router_named(after, other)
                == router_named(before, other) by {
                if exists|i: int| 0 <= i < before.len() && #[trigger] before[i].name@ == other {
                    let b = choose|i: int| 0 <= i < before.len() && #[trigger] before[i].name@ == other;
                    lemma_named(before, b);
                    let a = match found {
                        Some(i) => if b < i {
                            b
                        } else {
                            b - 1
                        },
                        None => b,
                    };
                    assert(after[a] == before[b]);
                    lemma_named(after, a);
                } else {
                    if exists|i: int| 0 <= i < after.len() && #[trigger] after[i].name@ == other {
                        let a = choose|i: int| 0 <= i < after.len() && #[trigger] after[i].name@ == other;
                        assert(a < last);
                        assert(after[a] == between[a]);
                    }
                }
            }
        }
        replaced
    }

    /// Sets how arbitrage and liquidations are judged. Shares above 10,000
    /// basis points are refused, and nothing changes.
    pub fn configure(&mut self, arbitrage: ArbitrageSettings, liquidation: LiquidationRules) -> (r:
        Result<(), ConfigurationError>)
        requires
            old(self).wf(),
        ensures
            final(self).wf(),
            final(self).venues() == old(self).venues(),
            r is Ok == settings_valid(arbitrage, liquidation),
            r is Ok ==> final(self).arbitrage_settings() == arbitrage
                && final(self).liquidation_rules() == liquidation,
            r is Err ==> r == Err::<(), ConfigurationError>(ConfigurationError::InvalidSetting)
                && final(self).arbitrage_settings() == old(self).arbitrage_settings()
                && final(self).liquidation_rules() == old(self).liquidation_rules(),
    {
        if arbitrage.margin_bps > 10_000 || liquidation.close_factor_bps > 10_000
            || liquidation.bonus_bps > 10_000 || liquidation.flash_fee_bps > 10_000 {
            return Err(ConfigurationError::InvalidSetting);
        }
        self.arbitrage = arbitrage;
        self.liquidation = liquidation;
        Ok(())
    }

    /// Judges one pair. A round trip is reported when both venues are known
    /// and its profit is above its gas by more than the margin.
    pub fn detect_arbitrage(&self, pair: &PairSnapshot, ctx: &ChainContext) -> (r: Option<
        MEVOpportunity,
    >)
        requires
            self.wf(),
        ensures
            r is Some == arbitrage_found(self.venues(), *pair, self.arbitrage_settings(), *ctx),
            r matches Some(o) ==> describes_arbitrage(
                o,
                self.venues(),
                *pair,
                self.arbitrage_settings(),
                *ctx,
            ),
    {
        let buy_router = match self.router_of(&pair.buy_venue) {
            Some(a) => a,
            None => {
                return None;
            },
        };
        let sell_router = match self.router_of(&pair.sell_venue) {
            Some(a) => a,
            None => {
                return None;
            },
        };
        let input = ArbitrageInput {
            amount_in: pair.amount_in,
            buy_pool: pair.buy_pool,
            sell_pool: pair.sell_pool,
            router_fee: self.arbitrage.router_fee,
            gas_units: self.arbitrage.gas_units,
            gas_price: ctx.gas_price,
        };
        let estimate = input.estimate();
        let margin = match pair.amount_in.mul_div(
            Amount::from_u64(self.arbitrage.margin_bps as u64),
            Amount::from_u64(10_000),
        ) {
            Some(m) => m,
            None => {
                return None;
            },
        };
        let floor = match estimate.gas.checked_add(margin) {
            Some(f) => f,
            None => {
                return None;
            },
        };
        if !estimate.profit.gt(&floor) {
            return None;
        }
        let bought = match pair.buy_pool.quote(&pair.amount_in) {
            Some(b) => b,
            None => Amount::zero(),
        };
        let mut forth: Vec<Address> = Vec::new();
        forth.push(pair.token_in);
        forth.push(pair.token_out);
        let mut back: Vec<Address> = Vec::new();
        back.push(pair.token_out);
        back.push(pair.token_in);
        let first = SwapCall {
            amount_in: pair.amount_in,
            amount_out_min: bought,
            path: forth,
            recipient: ctx.account,
            deadline: ctx.deadline,
        };
        let second = SwapCall {
            amount_in: bought,
            amount_out_min: pair.amount_in,
            path: back,
            recipient: ctx.account,
            deadline: ctx.deadline,
        };
        proof {
            assert(first@.path =~= seq![pair.token_in@, pair.token_out@]);
            assert(second@.path =~= seq![pair.token_out@, pair.token_in@]);
        }
        let first_gas = self.arbitrage.gas_units / 2;
        let mut bundle: Vec<TxRequest> = Vec::new();
        bundle.push(
            TxRequest {
                to: buy_router,
                value: Amount::zero(),
                data: encode_swap(&first),
                gas: first_gas,
            },
        );
        bundle.push(
            TxRequest {
                to: sell_router,
                value: Amount::zero(),
                data: encode_swap(&second),
                gas: self.arbitrage.gas_units - first_gas,
            },
        );
        let mut dex_path: Vec<String> = Vec::new();
        dex_path.push(pair.buy_venue.clone());
        dex_path.push(pair.sell_venue.clone());
        proof {
            assert(path_view(dex_path@) =~= seq![pair.buy_venue@, pair.sell_venue@]);
        }
        Some(
            MEVOpportunity {
                opportunity_type: OpportunityType::Arbitrage {
                    token_in: pair.token_in,
                    token_out: pair.token_out,
                    dex_path,
                },
                profit_estimate: estimate.profit,
                gas_estimate: estimate.gas,
                block_number: ctx.head,
                transaction_data: bundle,
            },
        )
    }

    /// Judges one position. It is reported when it may be liquidated and the
    /// largest repayment leaves a profit strictly above the gas.
    pub fn detect_liquidation(&self, position: &Position, ctx: &ChainContext) -> (r: Option<
        MEVOpportunity,
    >)
        ensures
            r is Some == liquidation_found(*position, self.liquidation_rules(), *ctx),
            r matches Some(o) ==> describes_liquidation(o, *position, self.liquidation_rules(), *ctx),
    {
        let input = LiquidationInput {
            collateral_value: position.collateral_value,
            debt_value: position.debt_value,
            min_collateral_ratio_bps: self.liquidation.min_collateral_ratio_bps,
            close_factor_bps: self.liquidation.close_factor_bps,
            bonus_bps: self.liquidation.bonus_bps,
            flash_fee_bps: self.liquidation.flash_fee_bps,
            gas_units: self.liquidation.gas_units,
            gas_price: ctx.gas_price,
        };
        let repay = match input.max_repay() {
            Some(r) => r,
            None => {
                return None;
            },
        };
        let estimate = input.estimate();
        if !estimate.pays_for_gas() {
            return None;
        }
        let mut bundle: Vec<TxRequest> = Vec::new();
        bundle.push(
            TxRequest {
                to: position.pool,
                value: Amount::zero(),
                data: encode_liquidation(
                    &position.collateral,
                    &position.debt,
                    &position.user,
                    &repay,
                ),
                gas: self.liquidation.gas_units,
            },
        );
        Some(
            MEVOpportunity {
                opportunity_type: OpportunityType::Liquidation {
                    protocol: position.protocol.clone(),
                    user: position.user,
                    collateral: position.collateral,
                    debt: position.debt,
                },
                profit_estimate: estimate.profit,
                gas_estimate: estimate.gas,
                block_number: ctx.head,
                transaction_data: bundle,
            },
        )
    }

    /// Judges every pair of a snapshot, and reports the round trips that are
    /// worth making, in the order of the pairs.
    pub fn find_arbitrage_opportunities(&self, pairs: &Vec<PairSnapshot>, ctx: &ChainContext) -> (r:
        Vec<MEVOpportunity>)
        requires
            self.wf(),
        ensures
            exists|picks: Seq<int>|
                reports_arbitrage(
                    r@,
                    picks,
                    self.venues(),
                    pairs@,
                    self.arbitrage_settings(),
                    *ctx,
                ),
    {
        let ghost wanted = arbitrage_wanted(self.venues(), pairs@, self.arbitrage_settings(), *ctx);
        let ghost due = arbitrage_due(self.venues(), pairs@, self.arbitrage_settings(), *ctx);
        let mut found: Vec<MEVOpportunity> = Vec::new();
        let ghost mut picks: Seq<int> = Seq::empty();
        let mut j: usize = 0;
        while j < pairs.len()
            invariant
                self.wf(),
                j <= pairs.len(),
                wanted == arbitrage_wanted(self.venues(), pairs@, self.arbitrage_settings(), *ctx),
                due == arbitrage_due(self.venues(), pairs@, self.arbitrage_settings(), *ctx),
                selects(found@, picks, j as int, wanted, due),
            decreases pairs.len() - j,
        {
            match self.detect_arbitrage(&pairs[j], ctx) {
                Some(o) => {
                    proof {
                        lemma_select_next(found@, picks, j as int, wanted, due, o);
                        picks = picks.push(j as int);
                    }
                    found.push(o);
                },
                None => {
                    proof {
                        lemma_select_skip(found@, picks, j as int, wanted, due);
                    }
                },
            }
            j += 1;
        }
        assert(reports_arbitrage(
            found@,
            picks,
            self.venues(),
            pairs@,
            self.arbitrage_settings(),
            *ctx,
        ));
        found
    }

    /// Judges every position of a snapshot taken at a new block, and reports
    /// the liquidations that are worth making, in the order of the
    /// positions.
    pub fn find_block_opportunities(&self, positions: &Vec<Position>, ctx: &ChainContext) -> (r: Vec<
        MEVOpportunity,
    >)
        ensures
            exists|picks: Seq<int>|
                reports_liquidations(r@, picks, positions@, self.liquidation_rules(), *ctx),
    {
        let ghost wanted = liquidation_wanted(positions@, self.liquidation_rules(), *ctx);
        let ghost due = liquidation_due(positions@, self.liquidation_rules(), *ctx);
        let mut found: Vec<MEVOpportunity> = Vec::new();
        let ghost mut picks: Seq<int> = Seq::empty();
        let mut j: usize = 0;
        while j < positions.len()
            invariant
                j <= positions.len(),
                wanted == liquidation_wanted(positions@, self.liquidation_rules(), *ctx),
                due == liquidation_due(positions@, self.liquidation_rules(), *ctx),
                selects(found@, picks, j as int, wanted, due),
            decreases positions.len() - j,
        {
            match self.detect_liquidation(&positions[j], ctx) {
                Some(o) => {
                    proof {
                        lemma_select_next(found@, picks, j as int, wanted, due, o);
                        picks = picks.push(j as int);
                    }
                    found.push(o);
                },
                None => {
                    proof {
                        lemma_select_skip(found@, picks, j as int, wanted, due);
                    }
                },
            }
            j += 1;
        }
        assert(reports_liquidations(found@, picks, positions@, self.liquidation_rules(), *ctx));
        found
    }
}

/// Where the path that buys at venue `i` and sells at venue `j` stands in the
/// list of all paths through `n` venues.
pub open spec fn path_index(n: int, i: int, j: int) -> int {
    i * (n - 1) + if j < i {
        j
    } else {
        j - 1
    }
}

/// Entry `at` of `paths` buys at venue `i` and sells at venue `j`.
pub open spec fn is_path(
    paths: Seq<(String, String)>,
    venues: Seq<Venue>,
    at: int,
    i: int,
    j: int,
) -> bool {
    &&& 0 <= at < paths.len()
    &&& paths[at].0@ == venues[i].name@
    &&& paths[at].1@ == venues[j].name@
}

/// `paths` holds every pair of two different venues once: the pairs that buy
/// at the first venue, then those that buy at the second, and so on.
pub open spec fn is_all_paths(paths: Seq<(String, String)>, venues: Seq<Venue>) -> bool {
    let n = venues.len() as int;
    &&& paths.len() == n * (n - 1)
    &&& forall|i: int, j: int|
        0 <= i < n && 0 <= j < n && i != j ==> is_path(
            paths,
            venues,
            #[trigger] path_index(n, i, j),
            i,
            j,
        )
}

/// A path stands within the rows before and after it.
pub proof fn lemma_path_index_bounds(n: int, i: int, j: int)
    requires
        0 <= i < n,
        0 <= j < n,
        i != j,
    ensures
        i * (n - 1) <= path_index(n, i, j) < (i + 1) * (n - 1),
        0 <= path_index(n, i, j) < n * (n - 1),
{
    assert((i + 1) * (n - 1) == i * (n - 1) + (n - 1)) by (nonlinear_arith);
    assert(0 <= i * (n - 1)) by (nonlinear_arith)
        requires
            0 <= i,
            0 <= n - 1,
    ;
    assert((i + 1) * (n - 1) <= n * (n - 1)) by (nonlinear_arith)
        requires
            i + 1 <= n,
            0 <= n - 1,
    ;
}

/// A path stands before every path that comes later in the order of the
/// registry.
pub proof fn lemma_path_index_order(n: int, a: int, b: int, i: int, j: int)
    requires
        0 <= a < n,
        0 <= b < n,
        a != b,
        0 <= i < n,
        0 <= j < n,
        i != j,
        a < i || (a == i && b < j),
    ensures
        0 <= path_index(n, a, b) < path_index(n, i, j),
{
    lemma_path_index_bounds(n, a, b);
    lemma_path_index_bounds(n, i, j);
    if a < i {
        assert((a + 1) * (n - 1) <= i * (n - 1)) by (nonlinear_arith)
            requires
                a + 1 <= i,
                0 <= n - 1,
        ;
    }
}

/// The row of a venue ends where the next begins.
pub proof fn lemma_path_index_row(n: int, i: int)
    requires
        0 <= i < n,
    ensures
        (i + 1) * (n - 1) == i * (n - 1) + (n - 1),
{
    assert((i + 1) * (n - 1) == i * (n - 1) + (n - 1)) by (nonlinear_arith);
}

/// The settings of a finder that has not been configured: a margin of half
/// a percent, no router fee, and the rules of a protocol that liquidates
/// below a ratio of one, lets half the debt be repaid at once, pays a bonus
/// of five percent and lends at nine basis points.
pub open spec fn has_default_settings(f: OpportunityFinder) -> bool {
    &&& f.arbitrage_settings().margin_bps == DEFAULT_MARGIN_BPS
    &&& f.arbitrage_settings().router_fee@ == 0
    &&& f.arbitrage_settings().gas_units == DEFAULT_ARBITRAGE_GAS
    &&& f.liquidation_rules() == (LiquidationRules {
        min_collateral_ratio_bps: 10_000,
        close_factor_bps: 5_000,
        bonus_bps: 500,
        flash_fee_bps: 9,
        gas_units: DEFAULT_LIQUIDATION_GAS,
    })
}

/// A finder as `OpportunityFinder::new` makes it: the default settings, and
/// the routers of Uniswap V2 and SushiSwap under their names.
pub open spec fn is_default_finder(f: OpportunityFinder) -> bool {
    &&& f.wf()
    &&& f.venues().len() == 2
    &&& hex_address(uniswap_v2_router()) is Some
    &&& hex_address(sushiswap_router()) is Some
    &&& router_named(f.venues(), "uniswap_v2"@) == hex_address(uniswap_v2_router())
    &&& router_named(f.venues(), "sushiswap"@) == hex_address(sushiswap_router())
    &&& has_default_settings(f)
}

/// The router of Uniswap V2, as written.
pub open spec fn uniswap_v2_router() -> Seq<char> {
    "0x7a250d5630B4cF539739dF2C5dAcb4c659F2488D"@
}

/// The router of SushiSwap, as written.
pub open spec fn sushiswap_router() -> Seq<char> {
    "0xd9e1cE17f2641f24aE83637ab66a2cca9C378B9F"@
}

/// Shares are at most 10,000 basis points.
pub open spec fn settings_valid(arbitrage: ArbitrageSettings, liquidation: LiquidationRules) -> bool {
    &&& arbitrage.margin_bps <= 10_000
    &&& liquidation.close_factor_bps <= 10_000
    &&& liquidation.bonus_bps <= 10_000
    &&& liquidation.flash_fee_bps <= 10_000
}

/// A venue of a registry without repeated names is found under its name.
pub proof fn lemma_named(venues: Seq<Venue>, i: int)
    requires
        distinct_names(venues),
        0 <= i < venues.len(),
    ensures
        router_named(venues, venues[i].name@) == Some(venues[i].router@),
{
    let name = venues[i].name@;
    let p = choose|p: int| 0 <= p < venues.len() && #[trigger] venues[p].name@ == name;
    assert(p == i);
}

} // verus!
