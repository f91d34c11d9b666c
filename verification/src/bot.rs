//! The pipeline from event to submission: detect, estimate, filter, submit.
//! The bot owns the executor and the finder, and decides for each candidate
//! what becomes of it. Its caller feeds it what it has read from the chain,
//! and carries out the steps it returns.

use crate::amount::Amount;
use crate::calldata::decode_swap;
use crate::executor::{
    event_handled, submission_made, swept, Event, ExecError, Step, SubmissionHandle,
    TransactionExecutor,
};
use crate::finder::{
    describes_liquidation, is_default_finder, is_router, liquidation_found, reports_arbitrage,
    reports_liquidations, sushiswap_router, uniswap_v2_router, ChainContext, OpportunityFinder,
    PairSnapshot, Position,
};
use crate::inflight::Flight;
use crate::opportunity::{key_of, KeyView, MEVOpportunity, OpportunityType};
use crate::primitives::{hex_address, Address, ConfigurationError};
use crate::ranker::{accept, decision_for, is_ranking, rank, Decision};
use crate::sandwich::{
    build_sandwich_transactions, calculate_sandwich_profit, describes_sandwich, sandwich_found,
    swap_target, PendingTransaction, SandwichContext,
};
use vstd::prelude::*;

verus! {

/// What became of a candidate.
#[derive(Debug)]
pub enum Verdict {
    /// The bot is shutting down: nothing new is started.
    Stopped,
    /// The ranker rejected the candidate.
    Rejected(Decision),
    /// The ranker admitted it, but the executor did not submit it.
    Refused(ExecError),
    /// It is in flight; the step says what to send first.
    Submitted(SubmissionHandle, Step),
}

/// One candidate of a batch and what became of it.
#[derive(Debug)]
pub struct Considered {
    /// The candidate's place in the batch.
    pub place: usize,
    pub verdict: Verdict,
}

/// What a monitoring loop hands over when it fires, with what it has read
/// from the chain.
#[derive(Clone, Debug)]
pub enum Trigger {
    /// The mempool loop saw a pending transaction.
    Pending { tx: PendingTransaction, sandwich: SandwichContext, watched: Vec<Position> },
    /// The block loop saw a new block.
    Block { positions: Vec<Position> },
    /// The timer of the arbitrage scan fired.
    Tick { pairs: Vec<PairSnapshot> },
}

/// The places of a batch in the order in which it was considered.
pub open spec fn places(batch: Seq<Considered>) -> Seq<usize> {
    Seq::new(batch.len(), |i: int| batch[i].place)
}

/// Whether the target of candidate `i` is still pending: what `pending`
/// says, and no where it says nothing.
pub open spec fn pending_at(pending: Seq<bool>, i: int) -> bool {
    0 <= i < pending.len() && pending[i]
}

/// The position at `j` is at the contract that the transaction calls and is
/// to be reported.
pub open spec fn touched_and_found(
    tx: PendingTransaction,
    watched: Seq<Position>,
    j: int,
    finder: OpportunityFinder,
    ctx: ChainContext,
) -> bool {
    &&& tx.to matches Some(to)
    &&& watched[j].pool@ == to@
    &&& liquidation_found(watched[j], finder.liquidation_rules(), ctx)
}

/// The liquidation that a pending transaction may have opened: of the
/// watched positions at the contract it calls, the first to be reported.
pub open spec fn reports_first_touched(
    r: Option<MEVOpportunity>,
    tx: PendingTransaction,
    watched: Seq<Position>,
    finder: OpportunityFinder,
    ctx: ChainContext,
) -> bool {
    &&& r is Some == exists|j: int|
        0 <= j < watched.len() && touched_and_found(tx, watched, j, finder, ctx)
    &&& r matches Some(o) ==> exists|j: int|
        {
            &&& 0 <= j < watched.len()
            &&& touched_and_found(tx, watched, j, finder, ctx)
            &&& describes_liquidation(o, watched[j], finder.liquidation_rules(), ctx)
            &&& forall|k: int| 0 <= k < j ==> !touched_and_found(tx, watched, k, finder, ctx)
        }
}

/// What the analysis of a pending transaction gives: the sandwich where one
/// is to be reported, else the liquidation that the transaction may have
/// opened.
pub open spec fn analysed(
    r: Option<MEVOpportunity>,
    tx: PendingTransaction,
    sandwich: SandwichContext,
    watched: Seq<Position>,
    finder: OpportunityFinder,
    ctx: ChainContext,
) -> bool {
    if sandwich_found(finder.venues(), tx, sandwich) {
        &&& r matches Some(o)
        &&& swap_target(finder.venues(), tx) matches Some(call)
        &&& describes_sandwich(o, tx, call, sandwich)
    } else {
        reports_first_touched(r, tx, watched, finder, ctx)
    }
}

/// The decision logic of the bot. Nothing in it reads the chain or sends
/// anything.
#[derive(Debug)]
pub struct MEVBot {
    account: Address,
    opportunity_finder: OpportunityFinder,
    executor: TransactionExecutor,
    min_profit_threshold: Amount,
    staleness_tolerance: u64,
    stopping: bool,
}

impl MEVBot {
    /// The account that trades.
    pub closed spec fn account(&self) -> Address {
        self.account
    }

    /// The finder of arbitrage and liquidations, which holds the registry of
    /// venues.
    pub closed spec fn finder(&self) -> OpportunityFinder {
        self.opportunity_finder
    }

    /// The executor.
    pub closed spec fn executor(&self) -> TransactionExecutor {
        self.executor
    }

    /// The profit that a candidate must exceed.
    pub closed spec fn threshold(&self) -> nat {
        self.min_profit_threshold@
    }

    /// How many blocks a candidate may lag behind the chain head.
    pub closed spec fn tolerance(&self) -> u64 {
        self.staleness_tolerance
    }

    /// Whether the bot has been told to shut down.
    pub closed spec fn stopped(&self) -> bool {
        self.stopping
    }

    /// The parts are sound. Every operation keeps this.
    pub closed spec fn wf(&self) -> bool {
        self.opportunity_finder.wf() && self.executor.wf()
    }

    /// A bot for `account` around a finder that has been configured, with
    /// nothing in flight. It admits candidates whose expected profit is above
    /// `min_profit_wei`; its first transaction gets `start_nonce`. The
    /// finder's registry is the one registry of venues: it does not change
    /// from here on.
    pub fn with_finder(
        account: Address,
        finder: OpportunityFinder,
        min_profit_wei: Amount,
        start_nonce: u64,
        staleness_tolerance: u64,
        atomic_bundles: bool,
        wait_blocks: u64,
    ) -> (r: MEVBot)
        requires
            finder.wf(),
        ensures
            r.wf(),
            !r.stopped(),
            r.account() == account,
            r.finder() == finder,
            r.threshold() == min_profit_wei@,
            r.tolerance() == staleness_tolerance,
            r.executor().nonce() == start_nonce,
            r.executor().submission_count() == 0,
            r.executor().flights() == Map::<KeyView, Flight>::empty(),
            r.executor().atomic() == atomic_bundles,
            r.executor().wait() == wait_blocks,
    {
        MEVBot {
            account,
            opportunity_finder: finder,
            executor: TransactionExecutor::new(start_nonce, atomic_bundles, wait_blocks),
            min_profit_threshold: min_profit_wei,
            staleness_tolerance,
            stopping: false,
        }
    }

    /// A bot for `account` with the default registry, which holds the routers
    /// of Uniswap V2 and SushiSwap, and nothing in flight. It admits
    /// candidates whose expected profit is above `min_profit_wei`; its first
    /// transaction gets `start_nonce`.
    pub fn new(
        account: Address,
        min_profit_wei: Amount,
        start_nonce: u64,
        staleness_tolerance: u64,
        atomic_bundles: bool,
        wait_blocks: u64,
    ) -> (r: Result<MEVBot, ConfigurationError>)
        ensures
            match r {
                Ok(bot) => {
                    &&& bot.wf()
                    &&& !bot.stopped()
                    &&& bot.account() == account
                    &&& bot.threshold() == min_profit_wei@
                    &&& bot.tolerance() == staleness_tolerance
                    &&& is_default_finder(bot.finder())
                    &&& bot.executor().nonce() == start_nonce
                    &&& bot.executor().submission_count() == 0
                    &&& bot.executor().flights() == Map::<KeyView, Flight>::empty()
                    &&& bot.executor().atomic() == atomic_bundles
                    &&& bot.executor().wait() == wait_blocks
                },
                Err(e) => {
                    &&& e == ConfigurationError::InvalidAddress
                    &&& (hex_address(uniswap_v2_router()) is None || hex_address(sushiswap_router())
                        is None)
                },
            },
    {
        match OpportunityFinder::new() {
            Ok(finder) => Ok(
                MEVBot::with_finder(
                    account,
                    finder,
                    min_profit_wei,
                    start_nonce,
                    staleness_tolerance,
                    atomic_bundles,
                    wait_blocks,
                ),
            ),
            Err(e) => Err(e),
        }
    }

    /// The finder of arbitrage and liquidations.
    pub fn opportunity_finder(&self) -> (r: &OpportunityFinder)
        requires
            self.wf(),
        ensures
            *r == self.finder(),
            r.wf(),
    {
        &self.opportunity_finder
    }

    /// The executor.
    pub fn transaction_executor(&self) -> (r: &TransactionExecutor)
        requires
            self.wf(),
        ensures
            *r == self.executor(),
            r.wf(),
    {
        &self.executor
    }

    /// Whether `address` is the router of a venue in the registry.
    pub fn is_dex_swap(&self, address: &Address) -> (r: bool)
        ensures
            r == is_router(self.finder().venues(), address@),
    {
        self.opportunity_finder.has_router(address)
    }

    /// Judges one pending transaction as the target of a sandwich. One is
    /// reported when the transaction is a swap through one pool at the
    /// router of a venue in the registry, and the buy before it and the sale
    /// after it leave a profit strictly above their gas.
    pub fn check_sandwich_opportunity(&self, tx: &PendingTransaction, ctx: &SandwichContext) -> (r:
        Option<MEVOpportunity>)
        ensures
            r is Some == sandwich_found(self.finder().venues(), *tx, *ctx),
            r matches Some(o) ==> {
                &&& swap_target(self.finder().venues(), *tx) matches Some(call)
                &&& describes_sandwich(o, *tx, call, *ctx)
            },
    {
        let to = match tx.to {
            Some(to) => to,
            None => {
                return None;
            },
        };
        if tx.block_number.is_some() || !self.is_dex_swap(&to) {
            return None;
        }
        let call = match decode_swap(tx.input.as_slice()) {
            Some(c) => c,
            None => {
                return None;
            },
        };
        if call.path.len() != 2 {
            return None;
        }
        let estimate = calculate_sandwich_profit(&call, ctx);
        if !estimate.pays_for_gas() {
            return None;
        }
        assert(call@.path[0] == call.path@[0]@);
        Some(
            MEVOpportunity {
                opportunity_type: OpportunityType::Sandwich {
                    target_tx: tx.hash,
                    token: call.path[0],
                    amount: call.amount_in,
                },
                profit_estimate: estimate.profit,
                gas_estimate: estimate.gas,
                block_number: ctx.head,
                transaction_data: build_sandwich_transactions(&to, &call, ctx),
            },
        )
    }

    /// Looks for a liquidation that a pending transaction may have opened:
    /// of the watched positions at the contract that the transaction calls,
    /// the first that is to be reported.
    pub fn check_liquidation_opportunity(
        &self,
        tx: &PendingTransaction,
        watched: &Vec<Position>,
        ctx: &ChainContext,
    ) -> (r: Option<MEVOpportunity>)
        ensures
            reports_first_touched(r, *tx, watched@, self.finder(), *ctx),
    {
        let to = match tx.to {
            Some(to) => to,
            None => {
                return None;
            },
        };
        let mut j: usize = 0;
        while j < watched.len()
            invariant
                j <= watched.len(),
                tx.to == Some(to),
                forall|k: int|
                    0 <= k < j ==> !touched_and_found(*tx, watched@, k, self.finder(), *ctx),
            decreases watched.len() - j,
        {
            if watched[j].pool.eq(&to) {
                match self.opportunity_finder.detect_liquidation(&watched[j], ctx) {
                    Some(o) => {
                        assert(touched_and_found(*tx, watched@, j as int, self.finder(), *ctx));
                        return Some(o);
                    },
                    None => {},
                }
            }
            j += 1;
        }
        None
    }

    /// Judges one pending transaction: as the target of a sandwich first,
    /// and where that gives nothing, as the opening of a liquidation.
    pub fn analyze_transaction(
        &self,
        tx: &PendingTransaction,
        sandwich: &SandwichContext,
        watched: &Vec<Position>,
        ctx: &ChainContext,
    ) -> (r: Option<MEVOpportunity>)
        ensures
            analysed(r, *tx, *sandwich, watched@, self.finder(), *ctx),
    {
        match self.check_sandwich_opportunity(tx, sandwich) {
            Some(o) => Some(o),
            None => self.check_liquidation_opportunity(tx, watched, ctx),
        }
    }

    /// Looks for opportunities in what a monitoring loop hands over: a
    /// pending transaction is analysed, the positions of a new block are
    /// judged for liquidation, the pairs of a scan for arbitrage.
    pub fn detect(&self, trigger: &Trigger, ctx: &ChainContext) -> (r: Vec<MEVOpportunity>)
        requires
            self.wf(),
        ensures
            detected(r@, *self, *trigger, *ctx),
    {
        match trigger {
            Trigger::Pending { tx, sandwich, watched } => {
                let mut found: Vec<MEVOpportunity> = Vec::new();
                let analysis = self.analyze_transaction(tx, sandwich, watched, ctx);
                match analysis {
                    Some(o) => {
                        found.push(o);
                        assert(found.len() == 1 && Some(found[0]) == analysis);
                    },
                    None => {
                        assert(found.len() == 0);
                    },
                }
                assert(only(found@) == analysis);
                found
            },
            Trigger::Block { positions } => {
                let found = self.opportunity_finder.find_block_opportunities(positions, ctx);
                proof {
                    let picks = choose|picks: Seq<int>|
                        reports_liquidations(
                            found@,
                            picks,
                            positions@,
                            self.opportunity_finder.liquidation_rules(),
                            *ctx,
                        );
                    assert(reports_liquidations(
                        found@,
                        picks,
                        positions@,
                        self.finder().liquidation_rules(),
                        *ctx,
                    ));
                }
                found
            },
            Trigger::Tick { pairs } => {
                let found = self.opportunity_finder.find_arbitrage_opportunities(pairs, ctx);
                proof {
                    let picks = choose|picks: Seq<int>|
                        reports_arbitrage(
                            found@,
                            picks,
                            self.opportunity_finder.venues(),
                            pairs@,
                            self.opportunity_finder.arbitrage_settings(),
                            *ctx,
                        );
                    assert(reports_arbitrage(
                        found@,
                        picks,
                        self.finder().venues(),
                        pairs@,
                        self.finder().arbitrage_settings(),
                        *ctx,
                    ));
                }
                found
            },
        }
    }

    /// Decides what becomes of a candidate at chain head `head`, and submits
    /// it where it is admitted. `target_pending` says whether the transaction
    /// that a sandwich was built around is still pending.
    ///
    /// After a shutdown nothing is started. A candidate that the ranker does
    /// not admit changes nothing. An admitted candidate goes to the
    /// executor, which submits or refuses it. Nothing but the executor ever
    /// changes.
    pub fn consider(&mut self, candidate: &MEVOpportunity, head: u64, target_pending: bool) -> (r:
        Verdict)
        requires
            old(self).wf(),
        ensures
            final(self).wf(),
            considered(*old(self), *final(self), *candidate, head, target_pending, r),
    {
        if self.stopping {
            return Verdict::Stopped;
        }
        let decision = accept(
            candidate,
            self.executor.in_flight(),
            &self.min_profit_threshold,
            head,
            self.staleness_tolerance,
        );
        match decision {
            Decision::Admit => {},
            _ => {
                return Verdict::Rejected(decision);
            },
        }
        match self.executor.execute_opportunity(candidate, head, target_pending) {
            Ok((handle, step)) => Verdict::Submitted(handle, step),
            Err(e) => Verdict::Refused(e),
        }
    }

    /// Considers a batch of candidates, the greatest expected profit first,
    /// so that where they compete for nonces the best is served first. Each
    /// is judged as `consider` judges it, against the same threshold and
    /// tolerance and against what the candidates before it have put in
    /// flight. `pending` says for each candidate whether the transaction
    /// that a sandwich was built around is still pending; a candidate that it
    /// does not reach counts as not pending.
    pub fn consider_all(
        &mut self,
        candidates: &Vec<MEVOpportunity>,
        head: u64,
        pending: &Vec<bool>,
    ) -> (r: Vec<Considered>)
        requires
            old(self).wf(),
        ensures
            final(self).wf(),
            same_settings(*old(self), *final(self)),
            is_ranking(candidates@, places(r@)),
            exists|states: Seq<MEVBot>|
                considered_in_turn(states, *old(self), *final(self), *candidates, head, pending@, r@),
    {
        let order = rank(candidates);
        let mut batch: Vec<Considered> = Vec::new();
        let ghost mut states: Seq<MEVBot> = seq![*self];
        let mut i: usize = 0;
        while i < order.len()
            invariant
                self.wf(),
                i <= order.len(),
                is_ranking(candidates@, order@),
                batch.len() == i,
                forall|k: int| 0 <= k < i ==> (#[trigger] batch[k]).place == order[k],
                considered_in_turn(states, *old(self), *self, *candidates, head, pending@, batch@),
            decreases order.len() - i,
        {
            let place = order[i];
            let target_pending = place < pending.len() && pending[place];
            let ghost before = *self;
            let ghost done = batch@;
            let ghost seen = states;
            let verdict = self.consider(&candidates[place], head, target_pending);
            batch.push(Considered { place, verdict });
            proof {
                states = states.push(*self);
                assert forall|k: int| 0 <= k < batch@.len() implies considered(
                    #[trigger] states[k],
                    states[k + 1],
                    candidates@[batch@[k].place as int],
                    head,
                    pending_at(pending@, batch@[k].place as int),
                    batch@[k].verdict,
                ) by {
                    if k < i {
                        assert(states[k] == seen[k] && states[k + 1] == seen[k + 1]);
                        assert(batch@[k] == done[k]);
                    } else {
                        assert(states[k] == before);
                    }
                }
                assert forall|k: int| 0 <= k < states.len() implies same_settings(
                    *old(self),
                    #[trigger] states[k],
                ) by {
                    if k <= i {
                        assert(states[k] == seen[k]);
                    } else {
                        assert(same_settings(*old(self), before));
                    }
                }
            }
            i += 1;
        }
        proof {
            assert(places(batch@) =~= order@);
        }
        batch
    }

    /// A new block stands at `head`: the submissions whose wait has run out
    /// leave the set of opportunities in flight. Returns how many did.
    pub fn on_head(&mut self, head: u64) -> (r: usize)
        requires
            old(self).wf(),
        ensures
            final(self).wf(),
            same_settings(*old(self), *final(self)),
            swept(old(self).executor(), final(self).executor(), head),
            old(self).executor().flights().dom().finite(),
            final(self).executor().flights().dom().finite(),
            r == old(self).executor().flights().dom().len()
                - final(self).executor().flights().dom().len(),
    {
        self.executor.sweep(head)
    }

    /// Takes in what the network or the chain said about a submission, and
    /// says what to do next. This goes on after a shutdown: what is in
    /// flight is followed to its end.
    pub fn on_event(&mut self, handle: &SubmissionHandle, event: Event) -> (r: Step)
        requires
            old(self).wf(),
        ensures
            final(self).wf(),
            same_settings(*old(self), *final(self)),
            event_handled(old(self).executor(), final(self).executor(), *handle, event, r),
    {
        self.executor.on_event(handle, event)
    }

    /// Tells the bot to shut down: from now on `consider` starts nothing.
    pub fn shutdown(&mut self)
        requires
            old(self).wf(),
        ensures
            final(self).wf(),
            final(self).stopped(),
            final(self).account() == old(self).account(),
            final(self).finder() == old(self).finder(),
            final(self).executor() == old(self).executor(),
            final(self).threshold() == old(self).threshold(),
            final(self).tolerance() == old(self).tolerance(),
    {
        self.stopping = true;
    }
}

/// The bot's settings are as they were: account, finder and registry,
/// threshold, tolerance, and whether it is shutting down.
pub open spec fn same_settings(before: MEVBot, after: MEVBot) -> bool {
    &&& after.account() == before.account()
    &&& after.finder() == before.finder()
    &&& after.threshold() == before.threshold()
    &&& after.tolerance() == before.tolerance()
    &&& after.stopped() == before.stopped()
}

/// The one opportunity of a list of one, and none of any other list.
pub open spec fn only(found: Seq<MEVOpportunity>) -> Option<MEVOpportunity> {
    if found.len() == 1 {
        Some(found[0])
    } else {
        None
    }
}

/// What `detect` finds for a trigger: for a pending transaction what its
/// analysis gives, as a list of one or none; for a new block the
/// liquidations to report; for a tick of the scan the round trips to report.
pub open spec fn detected(
    found: Seq<MEVOpportunity>,
    bot: MEVBot,
    trigger: Trigger,
    ctx: ChainContext,
) -> bool {
    match trigger {
        Trigger::Pending { tx, sandwich, watched } => {
            &&& found.len() <= 1
            &&& analysed(only(found), tx, sandwich, watched@, bot.finder(), ctx)
        },
        Trigger::Block { positions } => exists|picks: Seq<int>|
            reports_liquidations(found, picks, positions@, bot.finder().liquidation_rules(), ctx),
        Trigger::Tick { pairs } => exists|picks: Seq<int>|
            reports_arbitrage(
                found,
                picks,
                bot.finder().venues(),
                pairs@,
                bot.finder().arbitrage_settings(),
                ctx,
            ),
    }
}

/// What `consider_all` has done: `states` holds the bot before the batch,
/// after each candidate, and at the end. Every state has the settings of the
/// first, and each verdict is what `consider` gives from one state to the
/// next.
pub open spec fn considered_in_turn(
    states: Seq<MEVBot>,
    before: MEVBot,
    after: MEVBot,
    candidates: Vec<MEVOpportunity>,
    head: u64,
    pending: Seq<bool>,
    batch: Seq<Considered>,
) -> bool {
    &&& states.len() == batch.len() + 1
    &&& states[0] == before
    &&& states[batch.len() as int] == after
    &&& forall|k: int| 0 <= k < states.len() ==> same_settings(before, #[trigger] states[k])
    &&& forall|k: int|
        0 <= k < batch.len() ==> considered(
            #[trigger] states[k],
            states[k + 1],
            candidates@[batch[k].place as int],
            head,
            pending_at(pending, batch[k].place as int),
            batch[k].verdict,
        )
}

/// What `consider` has done, given the bot before and after. The settings
/// stay as they are. After a shutdown, and for a candidate that the ranker
/// does not admit, the executor stays as it is too; an admitted candidate is
/// submitted or refused by the executor.
pub open spec fn considered(
    before: MEVBot,
    after: MEVBot,
    candidate: MEVOpportunity,
    head: u64,
    target_pending: bool,
    r: Verdict,
) -> bool {
    let decision = decision_for(
        candidate,
        before.executor().flights(),
        before.threshold(),
        head,
        before.tolerance(),
    );
    &&& same_settings(before, after)
    &&& if before.stopped() {
        r is Stopped && after.executor() == before.executor()
    } else if decision != Decision::Admit {
        r == Verdict::Rejected(decision) && after.executor() == before.executor()
    } else {
        match r {
            Verdict::Submitted(handle, step) => submission_made(
                before.executor(),
                after.executor(),
                candidate,
                head,
                target_pending,
                Ok((handle, step)),
            ),
            Verdict::Refused(e) => submission_made(
                before.executor(),
                after.executor(),
                candidate,
                head,
                target_pending,
                Err(e),
            ),
            _ => false,
        }
    }
}

/// A candidate of a batch whose expected profit is not strictly above the
/// threshold is rejected for that, wherever in the batch it stands and
/// whatever stood before it, and it leaves the executor as it was.
pub proof fn law_batch_keeps_the_threshold(
    states: Seq<MEVBot>,
    before: MEVBot,
    after: MEVBot,
    candidates: Vec<MEVOpportunity>,
    head: u64,
    pending: Seq<bool>,
    batch: Seq<Considered>,
    k: int,
)
    requires
        !before.stopped(),
        considered_in_turn(states, before, after, candidates, head, pending, batch),
        0 <= k < batch.len(),
        candidates@[batch[k].place as int].profit_estimate@ <= before.threshold(),
    ensures
        batch[k].verdict == Verdict::Rejected(Decision::RejectBelowThreshold),
        states[k + 1].executor() == states[k].executor(),
{
    assert(same_settings(before, states[k]));
    assert(considered(
        states[k],
        states[k + 1],
        candidates@[batch[k].place as int],
        head,
        pending_at(pending, batch[k].place as int),
        batch[k].verdict,
    ));
}

/// A candidate of a batch is submitted only if its expected profit is
/// strictly above the threshold, it is not stale, and no opportunity with
/// its key was in flight when its turn came.
pub proof fn law_batch_submits_only_the_admitted(
    states: Seq<MEVBot>,
    before: MEVBot,
    after: MEVBot,
    candidates: Vec<MEVOpportunity>,
    head: u64,
    pending: Seq<bool>,
    batch: Seq<Considered>,
    k: int,
)
    requires
        considered_in_turn(states, before, after, candidates, head, pending, batch),
        0 <= k < batch.len(),
        batch[k].verdict is Submitted,
    ensures
        !before.stopped(),
        candidates@[batch[k].place as int].profit_estimate@ > before.threshold(),
        head <= candidates@[batch[k].place as int].block_number + before.tolerance(),
        !states[k].executor().flights().dom().contains(
            key_of(candidates@[batch[k].place as int].opportunity_type),
        ),
{
    assert(same_settings(before, states[k]));
    assert(considered(
        states[k],
        states[k + 1],
        candidates@[batch[k].place as int],
        head,
        pending_at(pending, batch[k].place as int),
        batch[k].verdict,
    ));
}

/// A candidate whose key is in flight is not submitted, and considering it
/// changes nothing.
pub proof fn law_key_in_flight_is_not_submitted(
    before: MEVBot,
    after: MEVBot,
    candidate: MEVOpportunity,
    head: u64,
    target_pending: bool,
    r: Verdict,
)
    requires
        before.executor().flights().dom().contains(key_of(candidate.opportunity_type)),
        considered(before, after, candidate, head, target_pending, r),
    ensures
        !(r is Submitted),
        !(r is Refused),
        after.executor() == before.executor(),
{
}

/// After a shutdown no candidate is submitted, whatever it promises.
pub proof fn law_nothing_starts_after_shutdown(
    before: MEVBot,
    after: MEVBot,
    candidate: MEVOpportunity,
    head: u64,
    target_pending: bool,
    r: Verdict,
)
    requires
        before.stopped(),
        considered(before, after, candidate, head, target_pending, r),
    ensures
        r is Stopped,
        after.executor() == before.executor(),
{
}

} // verus!
