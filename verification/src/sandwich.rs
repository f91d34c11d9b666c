//! What a sandwich around a pending swap is: when one is reported, what it
//! is expected to yield, and which two transactions make it.

use crate::amount::Amount;
use crate::calldata::{decode_swap, decoded_swap, encode_swap, SwapCall, SwapCallView};
use crate::estimator::{gain, quoted, sandwich_return, Estimate, Pool, SandwichInput};
use crate::finder::{is_router, Venue};
use crate::opportunity::{MEVOpportunity, OpportunityType, TxRequest};
use crate::primitives::{Address, TxHash};
use vstd::prelude::*;

verus! {

/// A transaction as the node reports it while it is pending.
#[derive(Clone, Debug)]
pub struct PendingTransaction {
    pub hash: TxHash,
    /// The contract it calls; `None` for a contract creation.
    pub to: Option<Address>,
    /// Its call data.
    pub input: Vec<u8>,
    /// The block it is in, once it is in one.
    pub block_number: Option<u64>,
}

/// What the caller has read from the chain to judge one pending swap.
#[derive(Clone, Copy, Debug)]
pub struct SandwichContext {
    /// The pool that the swap trades in, in the swap's direction.
    pub pool: Pool,
    /// The most that the front transaction may pay in.
    pub max_front: Amount,
    /// Gas units of the front and the back transaction together.
    pub gas_units: u64,
    /// Price of one gas unit.
    pub gas_price: u128,
    /// The chain head that the pool was read at.
    pub head: u64,
    /// The account that trades.
    pub account: Address,
    /// The time after which the two transactions are void.
    pub deadline: Amount,
}

/// The swap that a pending transaction makes at the router of one of
/// `venues`, if it makes one through a single pool. A transaction that is in
/// a block already is no target.
pub open spec fn swap_target(venues: Seq<Venue>, tx: PendingTransaction) -> Option<SwapCallView> {
    match tx.to {
        Some(to) => if tx.block_number is None && is_router(venues, to@) {
            match decoded_swap(tx.input@) {
                Some(call) => if call.path.len() == 2 {
                    Some(call)
                } else {
                    None
                },
                None => None,
            }
        } else {
            None
        },
        None => None,
    }
}

/// What the front transaction pays in: as much as the swap it runs ahead of,
/// capped by what the context allows.
pub open spec fn front_size(call: SwapCallView, ctx: SandwichContext) -> nat {
    if call.amount_in <= ctx.max_front@ {
        call.amount_in
    } else {
        ctx.max_front@
    }
}

/// The profit before gas of a sandwich around `call`.
pub open spec fn sandwich_profit(call: SwapCallView, ctx: SandwichContext) -> nat {
    gain(
        sandwich_return(
            front_size(call, ctx),
            call.amount_in,
            call.amount_out_min,
            ctx.pool.reserve_in@,
            ctx.pool.reserve_out@,
            ctx.pool.fee_bps as nat,
        ),
        front_size(call, ctx),
    )
}

/// The gas cost of a sandwich.
pub open spec fn sandwich_gas(ctx: SandwichContext) -> nat {
    (ctx.gas_units * ctx.gas_price) as nat
}

/// A sandwich is reported when the transaction is a swap through one pool at
/// the router of a known venue and the profit is strictly above the gas of
/// both legs.
pub open spec fn sandwich_found(
    venues: Seq<Venue>,
    tx: PendingTransaction,
    ctx: SandwichContext,
) -> bool {
    match swap_target(venues, tx) {
        Some(call) => sandwich_profit(call, ctx) > sandwich_gas(ctx),
        None => false,
    }
}

/// What the front transaction buys.
pub open spec fn front_bought(call: SwapCallView, ctx: SandwichContext) -> nat {
    match quoted(
        front_size(call, ctx),
        ctx.pool.reserve_in@,
        ctx.pool.reserve_out@,
        ctx.pool.fee_bps as nat,
    ) {
        Some(bought) => bought,
        None => 0,
    }
}

/// The swap of the front transaction: pay in `front_size`, take out no less
/// than was quoted.
pub open spec fn front_call(call: SwapCallView, ctx: SandwichContext) -> SwapCallView {
    SwapCallView {
        amount_in: front_size(call, ctx),
        amount_out_min: front_bought(call, ctx),
        path: call.path,
        recipient: ctx.account@,
        deadline: ctx.deadline@,
    }
}

/// The swap of the back transaction: sell what the front bought, the other
/// way round, for no less than the front paid.
pub open spec fn back_call(call: SwapCallView, ctx: SandwichContext) -> SwapCallView {
    SwapCallView {
        amount_in: front_bought(call, ctx),
        amount_out_min: front_size(call, ctx),
        path: seq![call.path[1], call.path[0]],
        recipient: ctx.account@,
        deadline: ctx.deadline@,
    }
}

/// The two transactions of a sandwich, front first.
pub open spec fn is_sandwich_bundle(
    bundle: Seq<TxRequest>,
    router: Seq<u8>,
    call: SwapCallView,
    ctx: SandwichContext,
) -> bool {
    &&& bundle.len() == 2
    &&& bundle[0].to@ == router
    &&& bundle[1].to@ == router
    &&& bundle[0].value@ == 0
    &&& bundle[1].value@ == 0
    &&& bundle[0].gas == ctx.gas_units / 2
    &&& bundle[1].gas == ctx.gas_units - ctx.gas_units / 2
    &&& decoded_swap(bundle[0].data@) == Some(front_call(call, ctx))
    &&& decoded_swap(bundle[1].data@) == Some(back_call(call, ctx))
}

/// What a reported sandwich says.
pub open spec fn describes_sandwich(
    o: MEVOpportunity,
    tx: PendingTransaction,
    call: SwapCallView,
    ctx: SandwichContext,
) -> bool {
    &&& o.opportunity_type matches OpportunityType::Sandwich { target_tx, token, amount }
    &&& target_tx@ == tx.hash@
    &&& token@ == call.path[0]
    &&& amount@ == call.amount_in
    &&& o.profit_estimate@ == sandwich_profit(call, ctx)
    &&& o.gas_estimate@ == sandwich_gas(ctx)
    &&& o.block_number == ctx.head
    &&& tx.to is Some
    &&& is_sandwich_bundle(o.transaction_data@, tx.to->Some_0@, call, ctx)
}

/// The sizes of the three trades of a sandwich around `call`.
pub fn sandwich_input(call: &SwapCall, ctx: &SandwichContext) -> (r: SandwichInput)
    ensures
        r.front_amount@ == front_size(call@, *ctx),
        r.victim_amount@ == call@.amount_in,
        r.victim_min_out@ == call@.amount_out_min,
        r.pool == ctx.pool,
        r.gas_units == ctx.gas_units,
        r.gas_price == ctx.gas_price,
{
    SandwichInput {
        front_amount: call.amount_in.min(ctx.max_front),
        victim_amount: call.amount_in,
        victim_min_out: call.amount_out_min,
        pool: ctx.pool,
        gas_units: ctx.gas_units,
        gas_price: ctx.gas_price,
    }
}

/// Profit before gas, and gas cost, of a sandwich around `call`.
pub fn calculate_sandwich_profit(call: &SwapCall, ctx: &SandwichContext) -> (r: Estimate)
    ensures
        r.profit@ == sandwich_profit(call@, *ctx),
        r.gas@ == sandwich_gas(*ctx),
{
    sandwich_input(call, ctx).estimate()
}

/// The front and the back transaction of a sandwich around `call` at
/// `router`, in that order. A sandwich is built around a swap through one
/// pool only: for a path of any other length than two there is no bundle,
/// and nothing is returned.
pub fn build_sandwich_transactions(router: &Address, call: &SwapCall, ctx: &SandwichContext) -> (r:
    Vec<TxRequest>)
    ensures
        call.path.len() == 2 ==> is_sandwich_bundle(r@, router@, call@, *ctx),
        call.path.len() != 2 ==> r@.len() == 0,
{
    if call.path.len() != 2 {
        return Vec::new();
    }
    let front = call.amount_in.min(ctx.max_front);
    let bought = match ctx.pool.quote(&front) {
        Some(b) => b,
        None => Amount::zero(),
    };
    let mut forth: Vec<Address> = Vec::new();
    forth.push(call.path[0]);
    forth.push(call.path[1]);
    let mut back: Vec<Address> = Vec::new();
    back.push(call.path[1]);
    back.push(call.path[0]);
    let front_swap = SwapCall {
        amount_in: front,
        amount_out_min: bought,
        path: forth,
        recipient: ctx.account,
        deadline: ctx.deadline,
    };
    let back_swap = SwapCall {
        amount_in: bought,
        amount_out_min: front,
        path: back,
        recipient: ctx.account,
        deadline: ctx.deadline,
    };
    proof {
        assert(front_swap@.path =~= call@.path);
        assert(back_swap@.path =~= seq![call@.path[1], call@.path[0]]);
        assert(front_swap@ == front_call(call@, *ctx));
        assert(back_swap@ == back_call(call@, *ctx));
    }
    let front_gas = ctx.gas_units / 2;
    let mut bundle: Vec<TxRequest> = Vec::new();
    bundle.push(
        TxRequest {
            to: *router,
            value: Amount::zero(),
            data: encode_swap(&front_swap),
            gas: front_gas,
        },
    );
    bundle.push(
        TxRequest {
            to: *router,
            value: Amount::zero(),
            data: encode_swap(&back_swap),
            gas: ctx.gas_units - front_gas,
        },
    );
    bundle
}

/// Reads the call data of a pending transaction as a swap, and returns the
/// token that the swap pays in and how much of it; `None` for anything that
/// is not a swap in the plain layout.
pub fn parse_swap_data(data: &[u8]) -> (r: Option<(Address, Amount)>)
    ensures
        match r {
            Some((token, amount)) => {
                &&& decoded_swap(data@) matches Some(call)
                &&& token@ == call.path[0]
                &&& amount@ == call.amount_in
            },
            None => decoded_swap(data@) is None,
        },
{
    match decode_swap(data) {
        Some(call) => {
            assert(call@.path[0] == call.path@[0]@);
            Some((call.path[0], call.amount_in))
        },
        None => None,
    }
}

} // verus!
