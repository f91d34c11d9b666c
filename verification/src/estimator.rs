//! Expected profit and gas cost of a candidate, from the reserves and prices
//! the caller has read. A trade that cannot be completed on those numbers has
//! a profit of exactly zero.

use crate::amount::{amount_limit, scaled, Amount};
use crate::primitives::Address;
use vstd::arithmetic::div_mod::{lemma_div_is_ordered, lemma_div_multiples_vanish};
use vstd::arithmetic::mul::{lemma_mul_inequality, lemma_mul_is_commutative};
use vstd::prelude::*;

verus! {

/// Fees, thresholds and margins are given in hundredths of a percent.
pub const BASIS_POINTS: u64 = 10_000;

/// The reserves of a constant-product pool as seen by one trade, and the
/// fee it takes from the input.
#[derive(Clone, Copy, Debug)]
pub struct Pool {
    /// Reserve of the token that the trade pays in.
    pub reserve_in: Amount,
    /// Reserve of the token that the trade takes out.
    pub reserve_out: Amount,
    /// Fee on the input, in basis points.
    pub fee_bps: u16,
}

/// The profit and the gas cost of one candidate, in the same unit. The profit
/// is what the trades yield before gas is paid.
#[derive(Clone, Copy, Debug)]
pub struct Estimate {
    pub profit: Amount,
    pub gas: Amount,
}

/// The input of a trade that counts after the fee, times 10,000.
pub open spec fn after_fee(amount_in: nat, fee_bps: nat) -> nat {
    (amount_in * (10_000 - fee_bps)) as nat
}

/// A pool can price the trade: it has liquidity on both sides, takes less
/// than the whole input as fee, and the numbers stay below 2^256.
pub open spec fn swap_possible(amount_in: nat, reserve_in: nat, reserve_out: nat, fee_bps: nat) -> bool {
    &&& fee_bps < 10_000
    &&& reserve_in > 0
    &&& reserve_out > 0
    &&& reserve_in * 10_000 + after_fee(amount_in, fee_bps) < amount_limit()
}

/// What a constant-product pool pays out for `amount_in`, rounded down.
pub open spec fn swap_out(amount_in: nat, reserve_in: nat, reserve_out: nat, fee_bps: nat) -> nat {
    (after_fee(amount_in, fee_bps) * reserve_out) / (reserve_in * 10_000 + after_fee(
        amount_in,
        fee_bps,
    ))
}

/// The price of a trade, or `None` where the pool cannot price it.
pub open spec fn quoted(amount_in: nat, reserve_in: nat, reserve_out: nat, fee_bps: nat) -> Option<
    nat,
> {
    if swap_possible(amount_in, reserve_in, reserve_out, fee_bps) {
        Some(swap_out(amount_in, reserve_in, reserve_out, fee_bps))
    } else {
        None
    }
}

/// A part of `x` is at most `x`.
pub proof fn lemma_part_at_most_whole(x: nat, n: nat, d: nat)
    requires
        n <= d,
        d > 0,
    ensures
        (n * x) / d <= x,
{
    lemma_mul_inequality(n as int, d as int, x as int);
    lemma_div_is_ordered((n * x) as int, (d * x) as int, d as int);
    lemma_div_multiples_vanish(x as int, d as int);
    lemma_mul_is_commutative(d as int, x as int);
}

/// A pool never pays out more than it holds.
pub proof fn lemma_swap_out_within_reserve(
    amount_in: nat,
    reserve_in: nat,
    reserve_out: nat,
    fee_bps: nat,
)
    requires
        fee_bps < 10_000,
        reserve_in > 0,
    ensures
        swap_out(amount_in, reserve_in, reserve_out, fee_bps) <= reserve_out,
{
    let paid = after_fee(amount_in, fee_bps);
    lemma_part_at_most_whole(reserve_out, paid, reserve_in * 10_000 + paid);
}

/// The input counts for at least itself after the fee is taken from 10,000
/// times its size.
pub proof fn lemma_after_fee_at_least_input(amount_in: nat, fee_bps: nat)
    requires
        fee_bps < 10_000,
    ensures
        after_fee(amount_in, fee_bps) >= amount_in,
        after_fee(amount_in, fee_bps) == amount_in * ((10_000 - fee_bps) as nat),
{
    assert(amount_in * (10_000 - fee_bps) >= amount_in * 1) by (nonlinear_arith)
        requires
            10_000 - fee_bps >= 1,
    ;
}

/// The gas cost of `gas_units` at `gas_price` per unit.
pub fn gas_cost(gas_units: u64, gas_price: u128) -> (r: Amount)
    ensures
        r@ == gas_units * gas_price,
{
    assert(gas_units * gas_price < amount_limit()) by (nonlinear_arith)
        requires
            gas_units <= 0xffff_ffff_ffff_ffff,
            gas_price <= 0xffff_ffff_ffff_ffff_ffff_ffff_ffff_ffff,
            amount_limit()
                == 0x1_0000_0000_0000_0000_0000_0000_0000_0000_0000_0000_0000_0000_0000_0000_0000_0000,
    ;
    match Amount::from_u64(gas_units).checked_mul(Amount::from_u128(gas_price)) {
        Some(c) => c,
        None => Amount::zero(),
    }
}

impl Pool {
    /// What the pool pays out for `amount_in`, or `None` where it cannot
    /// price the trade.
    pub fn quote(&self, amount_in: &Amount) -> (r: Option<Amount>)
        ensures
            match r {
                Some(out) => quoted(amount_in@, self.reserve_in@, self.reserve_out@, self.fee_bps as nat)
                    == Some(out@),
                None => quoted(amount_in@, self.reserve_in@, self.reserve_out@, self.fee_bps as nat)
                    is None,
            },
    {
        if self.fee_bps >= 10_000 || self.reserve_in.is_zero() || self.reserve_out.is_zero() {
            return None;
        }
        let keep: u64 = 10_000 - self.fee_bps as u64;
        proof {
            lemma_after_fee_at_least_input(amount_in@, self.fee_bps as nat);
        }
        let paid = match amount_in.checked_mul(Amount::from_u64(keep)) {
            Some(p) => p,
            None => {
                return None;
            },
        };
        let scaled = match self.reserve_in.checked_mul(Amount::from_u64(BASIS_POINTS)) {
            Some(s) => s,
            None => {
                return None;
            },
        };
        let divisor = match scaled.checked_add(paid) {
            Some(d) => d,
            None => {
                return None;
            },
        };
        proof {
            lemma_swap_out_within_reserve(
                amount_in@,
                self.reserve_in@,
                self.reserve_out@,
                self.fee_bps as nat,
            );
        }
        paid.mul_div(self.reserve_out, divisor)
    }

    /// The pool after a trade paid in `paid_in` and took out `taken_out`, or
    /// `None` where a reserve would leave the range of an amount.
    pub fn after_trade(&self, paid_in: &Amount, taken_out: &Amount) -> (r: Option<Pool>)
        ensures
            match r {
                Some(p) => {
                    &&& p.reserve_in@ == self.reserve_in@ + paid_in@
                    &&& p.reserve_out@ == self.reserve_out@ - taken_out@
                    &&& p.fee_bps == self.fee_bps
                },
                None => self.reserve_in@ + paid_in@ >= amount_limit() || taken_out@
                    > self.reserve_out@,
            },
    {
        match (self.reserve_in.checked_add(*paid_in), self.reserve_out.checked_sub(*taken_out)) {
            (Some(reserve_in), Some(reserve_out)) => Some(
                Pool { reserve_in, reserve_out, fee_bps: self.fee_bps },
            ),
            _ => None,
        }
    }

    /// The pool of a pair that holds its reserves in the order of its two
    /// tokens, as seen by a trade that pays in `token_in`: the first reserve
    /// is the one paid into where `token_in` is the pair's first token, and
    /// the second where it is not.
    pub fn oriented(
        token_in: &Address,
        first_token: &Address,
        first_reserve: Amount,
        second_reserve: Amount,
        fee_bps: u16,
    ) -> (r: Pool)
        ensures
            r.fee_bps == fee_bps,
            token_in@ == first_token@ ==> r.reserve_in == first_reserve && r.reserve_out
                == second_reserve,
            token_in@ != first_token@ ==> r.reserve_in == second_reserve && r.reserve_out
                == first_reserve,
    {
        if token_in.eq(first_token) {
            Pool { reserve_in: first_reserve, reserve_out: second_reserve, fee_bps }
        } else {
            Pool { reserve_in: second_reserve, reserve_out: first_reserve, fee_bps }
        }
    }

    /// The same pool seen by a trade in the other direction.
    pub fn reversed(&self) -> (r: Pool)
        ensures
            r.reserve_in == self.reserve_out,
            r.reserve_out == self.reserve_in,
            r.fee_bps == self.fee_bps,
    {
        Pool { reserve_in: self.reserve_out, reserve_out: self.reserve_in, fee_bps: self.fee_bps }
    }
}

impl Estimate {
    /// An estimate of no profit at the given gas cost.
    pub fn nothing(gas: Amount) -> (r: Estimate)
        ensures
            r.profit@ == 0,
            r.gas == gas,
    {
        Estimate { profit: Amount::zero(), gas }
    }

    /// The profit that is left when gas is paid, or zero where gas eats it.
    pub fn net_profit(&self) -> (r: Amount)
        ensures
            r@ == if self.profit@ >= self.gas@ { self.profit@ - self.gas@ } else { 0 },
    {
        self.profit.saturating_sub(self.gas)
    }

    /// Whether the profit is strictly above the gas cost.
    pub fn pays_for_gas(&self) -> (r: bool)
        ensures
            r == (self.profit@ > self.gas@),
    {
        self.profit.gt(&self.gas)
    }
}

/// A sandwich around a pending swap: a buy before it and a sale after it, in
/// the pool that the swap trades in.
#[derive(Clone, Copy, Debug)]
pub struct SandwichInput {
    /// What the front leg pays in, in the token that the target pays in.
    pub front_amount: Amount,
    /// What the target transaction pays in.
    pub victim_amount: Amount,
    /// The least that the target transaction accepts to take out.
    pub victim_min_out: Amount,
    /// The pool before the three trades, in the target's direction.
    pub pool: Pool,
    /// Gas units of both legs together.
    pub gas_units: u64,
    /// Price of one gas unit.
    pub gas_price: u128,
}

/// A round trip through two venues: sell the input token at the first, sell
/// what that bought at the second.
#[derive(Clone, Copy, Debug)]
pub struct ArbitrageInput {
    /// What the round trip starts with.
    pub amount_in: Amount,
    /// The first venue's pool: input token in, other token out.
    pub buy_pool: Pool,
    /// The second venue's pool: other token in, input token out.
    pub sell_pool: Pool,
    /// What the router charges for the round trip.
    pub router_fee: Amount,
    /// Gas units of the round trip.
    pub gas_units: u64,
    /// Price of one gas unit.
    pub gas_price: u128,
}

/// A borrower's position and the lending protocol's rules for closing it.
#[derive(Clone, Copy, Debug)]
pub struct LiquidationInput {
    /// Value of the collateral.
    pub collateral_value: Amount,
    /// Value of the debt, in the same unit.
    pub debt_value: Amount,
    /// A position may be liquidated once collateral over debt is below this
    /// ratio, in basis points.
    pub min_collateral_ratio_bps: u32,
    /// The share of the debt that one liquidation may repay, in basis points.
    pub close_factor_bps: u16,
    /// The bonus on the repaid amount, in basis points.
    pub bonus_bps: u16,
    /// The fee for borrowing the repaid amount, in basis points.
    pub flash_fee_bps: u16,
    /// Gas units of the liquidation.
    pub gas_units: u64,
    /// Price of one gas unit.
    pub gas_price: u128,
}

/// What is to be estimated.
#[derive(Clone, Copy, Debug)]
pub enum EstimateInput {
    Arbitrage(ArbitrageInput),
    Liquidation(LiquidationInput),
    Sandwich(SandwichInput),
}

/// What the back leg of a sandwich returns, in the token that the front leg
/// paid in; `None` where one of the three trades cannot be completed: a pool
/// cannot price it, the front leg buys nothing, or the target would take out
/// less than its minimum and revert.
pub open spec fn sandwich_return(
    front: nat,
    victim: nat,
    min_out: nat,
    reserve_in: nat,
    reserve_out: nat,
    fee_bps: nat,
) -> Option<nat> {
    match quoted(front, reserve_in, reserve_out, fee_bps) {
        None => None,
        Some(bought) => if bought == 0 {
            None
        } else {
            match quoted(victim, reserve_in + front, (reserve_out - bought) as nat, fee_bps) {
                None => None,
                Some(victim_out) => if victim_out < min_out {
                    None
                } else {
                    quoted(
                        bought,
                        (reserve_out - bought - victim_out) as nat,
                        reserve_in + front + victim,
                        fee_bps,
                    )
                },
            }
        },
    }
}

/// `sandwich_return` of an input.
pub open spec fn sandwich_return_of(i: SandwichInput) -> Option<nat> {
    sandwich_return(
        i.front_amount@,
        i.victim_amount@,
        i.victim_min_out@,
        i.pool.reserve_in@,
        i.pool.reserve_out@,
        i.pool.fee_bps as nat,
    )
}

/// What the second venue returns in a round trip; `None` where a pool cannot
/// price its trade or the first trade buys nothing.
pub open spec fn arbitrage_return_of(i: ArbitrageInput) -> Option<nat> {
    match quoted(
        i.amount_in@,
        i.buy_pool.reserve_in@,
        i.buy_pool.reserve_out@,
        i.buy_pool.fee_bps as nat,
    ) {
        None => None,
        Some(bought) => if bought == 0 {
            None
        } else {
            quoted(
                bought,
                i.sell_pool.reserve_in@,
                i.sell_pool.reserve_out@,
                i.sell_pool.fee_bps as nat,
            )
        },
    }
}

/// What a trade gains: what came back beyond what was paid in, or zero.
pub open spec fn gain(returned: Option<nat>, paid: nat) -> nat {
    match returned {
        Some(back) => if back > paid {
            (back - paid) as nat
        } else {
            0
        },
        None => 0,
    }
}

/// The spread of a round trip: what comes back beyond what went in.
pub open spec fn arbitrage_spread(i: ArbitrageInput) -> nat {
    gain(arbitrage_return_of(i), i.amount_in@)
}

/// `a - b`, or zero where `b` is the larger.
pub open spec fn minus_or_zero(a: nat, b: nat) -> nat {
    if a > b {
        (a - b) as nat
    } else {
        0
    }
}

/// A position may be liquidated when collateral over debt is strictly below
/// the protocol's ratio.
pub open spec fn liquidatable(collateral: nat, debt: nat, min_ratio_bps: nat) -> bool {
    collateral * 10_000 < debt * min_ratio_bps
}

/// The most that one liquidation may repay: the close factor's share of the
/// debt, and no more than the collateral can pay back with the bonus on top.
/// `None` where the position may not be liquidated or nothing can be repaid.
pub open spec fn liquidation_repay_of(i: LiquidationInput) -> Option<nat> {
    if !liquidatable(i.collateral_value@, i.debt_value@, i.min_collateral_ratio_bps as nat) {
        None
    } else {
        match (
            scaled(i.debt_value@, i.close_factor_bps as nat, 10_000),
            scaled(i.collateral_value@, 10_000, 10_000 + i.bonus_bps as nat),
        ) {
            (Some(by_debt), Some(by_collateral)) => {
                let repay = if by_debt <= by_collateral {
                    by_debt
                } else {
                    by_collateral
                };
                if repay == 0 {
                    None
                } else {
                    Some(repay)
                }
            },
            _ => None,
        }
    }
}

/// The bonus on the largest repayment, less the fee for borrowing it.
pub open spec fn liquidation_profit(i: LiquidationInput) -> nat {
    match liquidation_repay_of(i) {
        None => 0,
        Some(repay) => match (
            scaled(repay, i.bonus_bps as nat, 10_000),
            scaled(repay, i.flash_fee_bps as nat, 10_000),
        ) {
            (Some(bonus), Some(fee)) => minus_or_zero(bonus, fee),
            _ => 0,
        },
    }
}

/// Whether the trades of a candidate can be completed on the numbers given.
pub open spec fn completes(input: EstimateInput) -> bool {
    match input {
        EstimateInput::Arbitrage(i) => arbitrage_return_of(i) is Some,
        EstimateInput::Liquidation(i) => liquidation_repay_of(i) is Some,
        EstimateInput::Sandwich(i) => sandwich_return_of(i) is Some,
    }
}

/// The profit before gas of a candidate.
pub open spec fn expected_profit(input: EstimateInput) -> nat {
    match input {
        EstimateInput::Arbitrage(i) => minus_or_zero(arbitrage_spread(i), i.router_fee@),
        EstimateInput::Liquidation(i) => liquidation_profit(i),
        EstimateInput::Sandwich(i) => gain(sandwich_return_of(i), i.front_amount@),
    }
}

/// The gas cost of a candidate.
pub open spec fn expected_gas(input: EstimateInput) -> nat {
    match input {
        EstimateInput::Arbitrage(i) => (i.gas_units * i.gas_price) as nat,
        EstimateInput::Liquidation(i) => (i.gas_units * i.gas_price) as nat,
        EstimateInput::Sandwich(i) => (i.gas_units * i.gas_price) as nat,
    }
}

/// A candidate whose trades cannot be completed, for want of liquidity or
/// for any other reason, has a profit of exactly zero.
pub proof fn law_incomplete_trade_has_zero_profit(input: EstimateInput)
    requires
        !completes(input),
    ensures
        expected_profit(input) == 0,
{
}

/// What came back beyond what was paid in, or zero.
fn gain_of(returned: Option<Amount>, paid: &Amount) -> (r: Amount)
    ensures
        r@ == gain(
            match returned {
                Some(b) => Some(b@),
                None => None,
            },
            paid@,
        ),
{
    match returned {
        Some(back) => back.saturating_sub(*paid),
        None => Amount::zero(),
    }
}

impl SandwichInput {
    /// What the back leg returns, if the three trades can be completed.
    pub fn back_leg_return(&self) -> (r: Option<Amount>)
        ensures
            match r {
                Some(back) => sandwich_return_of(*self) == Some(back@),
                None => sandwich_return_of(*self) is None,
            },
    {
        let bought = match self.pool.quote(&self.front_amount) {
            Some(b) => b,
            None => {
                return None;
            },
        };
        if bought.is_zero() {
            return None;
        }
        proof {
            lemma_swap_out_within_reserve(
                self.front_amount@,
                self.pool.reserve_in@,
                self.pool.reserve_out@,
                self.pool.fee_bps as nat,
            );
        }
        let after_front = match self.pool.after_trade(&self.front_amount, &bought) {
            Some(p) => p,
            None => {
                return None;
            },
        };
        let victim_out = match after_front.quote(&self.victim_amount) {
            Some(v) => v,
            None => {
                return None;
            },
        };
        if victim_out.lt(&self.victim_min_out) {
            return None;
        }
        proof {
            lemma_swap_out_within_reserve(
                self.victim_amount@,
                after_front.reserve_in@,
                after_front.reserve_out@,
                after_front.fee_bps as nat,
            );
            lemma_after_fee_at_least_input(self.victim_amount@, after_front.fee_bps as nat);
        }
        let after_victim = match after_front.after_trade(&self.victim_amount, &victim_out) {
            Some(p) => p,
            None => {
                return None;
            },
        };
        after_victim.reversed().quote(&bought)
    }

    /// Profit and gas cost of the sandwich.
    pub fn estimate(&self) -> (r: Estimate)
        ensures
            r.profit@ == expected_profit(EstimateInput::Sandwich(*self)),
            r.gas@ == expected_gas(EstimateInput::Sandwich(*self)),
    {
        let back = self.back_leg_return();
        Estimate {
            profit: gain_of(back, &self.front_amount),
            gas: gas_cost(self.gas_units, self.gas_price),
        }
    }
}

impl ArbitrageInput {
    /// What the second venue returns, if both trades can be completed.
    pub fn round_trip_return(&self) -> (r: Option<Amount>)
        ensures
            match r {
                Some(back) => arbitrage_return_of(*self) == Some(back@),
                None => arbitrage_return_of(*self) is None,
            },
    {
        let bought = match self.buy_pool.quote(&self.amount_in) {
            Some(b) => b,
            None => {
                return None;
            },
        };
        if bought.is_zero() {
            return None;
        }
        self.sell_pool.quote(&bought)
    }

    /// What comes back beyond what went in, before router fee and gas.
    pub fn spread(&self) -> (r: Amount)
        ensures
            r@ == arbitrage_spread(*self),
    {
        gain_of(self.round_trip_return(), &self.amount_in)
    }

    /// Profit and gas cost of the round trip.
    pub fn estimate(&self) -> (r: Estimate)
        ensures
            r.profit@ == expected_profit(EstimateInput::Arbitrage(*self)),
            r.gas@ == expected_gas(EstimateInput::Arbitrage(*self)),
    {
        Estimate {
            profit: self.spread().saturating_sub(self.router_fee),
            gas: gas_cost(self.gas_units, self.gas_price),
        }
    }
}

impl LiquidationInput {
    /// Whether the position may be liquidated.
    pub fn is_liquidatable(&self) -> (r: bool)
        ensures
            r == liquidatable(
                self.collateral_value@,
                self.debt_value@,
                self.min_collateral_ratio_bps as nat,
            ),
    {
        Amount::product_lt(
            self.collateral_value,
            Amount::from_u64(BASIS_POINTS),
            self.debt_value,
            Amount::from_u64(self.min_collateral_ratio_bps as u64),
        )
    }

    /// The most that one liquidation may repay, if the position may be
    /// liquidated and anything can be repaid.
    pub fn max_repay(&self) -> (r: Option<Amount>)
        ensures
            match r {
                Some(repay) => liquidation_repay_of(*self) == Some(repay@),
                None => liquidation_repay_of(*self) is None,
            },
    {
        if !self.is_liquidatable() {
            return None;
        }
        let by_debt = self.debt_value.mul_div(
            Amount::from_u64(self.close_factor_bps as u64),
            Amount::from_u64(BASIS_POINTS),
        );
        let by_collateral = self.collateral_value.mul_div(
            Amount::from_u64(BASIS_POINTS),
            Amount::from_u64(BASIS_POINTS + self.bonus_bps as u64),
        );
        match (by_debt, by_collateral) {
            (Some(d), Some(c)) => {
                let repay = d.min(c);
                if repay.is_zero() {
                    None
                } else {
                    Some(repay)
                }
            },
            _ => None,
        }
    }

    /// Profit and gas cost of the liquidation.
    pub fn estimate(&self) -> (r: Estimate)
        ensures
            r.profit@ == expected_profit(EstimateInput::Liquidation(*self)),
            r.gas@ == expected_gas(EstimateInput::Liquidation(*self)),
    {
        let gas = gas_cost(self.gas_units, self.gas_price);
        let repay = match self.max_repay() {
            Some(r) => r,
            None => {
                return Estimate::nothing(gas);
            },
        };
        let bonus = repay.mul_div(
            Amount::from_u64(self.bonus_bps as u64),
            Amount::from_u64(BASIS_POINTS),
        );
        let fee = repay.mul_div(
            Amount::from_u64(self.flash_fee_bps as u64),
            Amount::from_u64(BASIS_POINTS),
        );
        match (bonus, fee) {
            (Some(b), Some(f)) => Estimate { profit: b.saturating_sub(f), gas },
            _ => Estimate::nothing(gas),
        }
    }
}

/// Expected profit before gas, and gas cost, of a candidate. The profit is
/// exactly zero where its trades cannot be completed.
pub fn estimate(input: &EstimateInput) -> (r: Estimate)
    ensures
        r.profit@ == expected_profit(*input),
        r.gas@ == expected_gas(*input),
        !completes(*input) ==> r.profit@ == 0,
{
    match input {
        EstimateInput::Arbitrage(i) => i.estimate(),
        EstimateInput::Liquidation(i) => i.estimate(),
        EstimateInput::Sandwich(i) => i.estimate(),
    }
}

} // verus!
