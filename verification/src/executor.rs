//! The submission path: which nonces an opportunity's transactions get, which
//! of them is to be sent next, and what becomes of the submission on each
//! answer from the network. The executor decides; the caller signs, sends and
//! reports back.

use crate::inflight::{nonce_ceiling, unexpired, Flight, InFlightSet};
use crate::opportunity::{key_of, DedupKey, KeyView, MEVOpportunity, OpportunityType};
use vstd::prelude::*;

verus! {

/// Names one submission: the opportunity's key and the submission's number.
#[derive(Debug)]
pub struct SubmissionHandle {
    pub id: u64,
    pub key: DedupKey,
}

/// How a submission ended.
#[derive(Clone, Copy, Debug, PartialEq, Eq, Structural)]
pub enum Outcome {
    /// Included and executed.
    Confirmed,
    /// Included, but the execution reverted.
    Reverted,
    /// The network no longer knows the transactions.
    Dropped,
    /// The wait ran out with no confirmation.
    TimedOut,
}

/// The states of a submission. It starts as `Built`, becomes `Submitted`,
/// and ends in one of the other three, in which it is no longer in flight.
#[derive(Clone, Copy, Debug, PartialEq, Eq, Structural)]
pub enum Stage {
    /// Nonces are assigned; the network has accepted nothing yet.
    Built,
    /// The network holds at least the first transaction as pending.
    Submitted,
    /// Included and executed.
    Confirmed,
    /// Included, but the execution reverted.
    Reverted,
    /// Given up: the network lost the transactions, or the wait ran out.
    Dropped,
}

/// What the node says of one transaction that was sent.
#[derive(Clone, Copy, Debug, PartialEq, Eq, Structural)]
pub enum LegStatus {
    /// It is in a block.
    Included { success: bool },
    /// The node holds it as pending.
    Pending,
    /// The node does not know it.
    Unknown,
}

/// Default: a submission waits three blocks for its confirmation.
pub const DEFAULT_WAIT_BLOCKS: u64 = 3;

/// The state in which a submission rests that ended with `outcome`.
pub open spec fn resting_stage(outcome: Outcome) -> Stage {
    match outcome {
        Outcome::Confirmed => Stage::Confirmed,
        Outcome::Reverted => Stage::Reverted,
        Outcome::Dropped => Stage::Dropped,
        Outcome::TimedOut => Stage::Dropped,
    }
}

/// Whether the node knows none of some transaction.
pub open spec fn any_unknown(statuses: Seq<LegStatus>) -> bool {
    exists|i: int| 0 <= i < statuses.len() && #[trigger] statuses[i] == LegStatus::Unknown
}

/// Whether every transaction is in a block.
pub open spec fn all_included(statuses: Seq<LegStatus>) -> bool {
    forall|i: int| 0 <= i < statuses.len() ==> #[trigger] statuses[i] is Included
}

/// Whether every transaction is in a block and succeeded.
pub open spec fn all_succeeded(statuses: Seq<LegStatus>) -> bool {
    forall|i: int|
        0 <= i < statuses.len() ==> #[trigger] statuses[i] == (LegStatus::Included {
            success: true,
        })
}

/// What a new block at height `head` means for a submission whose
/// transactions stand as `statuses` say: a transaction that the node does
/// not know means they vanished; all of them in a block means inclusion,
/// successful when each of them succeeded; else only the head has moved.
pub open spec fn observed(statuses: Seq<LegStatus>, head: u64) -> Event {
    if any_unknown(statuses) {
        Event::Vanished
    } else if statuses.len() > 0 && all_included(statuses) {
        Event::Included { success: all_succeeded(statuses) }
    } else {
        Event::Head { head }
    }
}

/// What a new block at height `head` means for a submission whose
/// transactions stand as `statuses` say.
pub fn observe(statuses: &Vec<LegStatus>, head: u64) -> (r: Event)
    ensures
        r == observed(statuses@, head),
{
    let mut included = true;
    let mut succeeded = true;
    let mut i: usize = 0;
    while i < statuses.len()
        invariant
            i <= statuses.len(),
            !any_unknown(statuses@.subrange(0, i as int)),
            included == all_included(statuses@.subrange(0, i as int)),
            succeeded == all_succeeded(statuses@.subrange(0, i as int)),
        decreases statuses.len() - i,
    {
        let ghost seen = statuses@.subrange(0, i as int);
        let ghost more = statuses@.subrange(0, i + 1);
        proof {
            assert(more[i as int] == statuses@[i as int]);
            assert forall|j: int| 0 <= j < i implies more[j] == seen[j] by {}
        }
        match statuses[i] {
            LegStatus::Unknown => {
                assert(any_unknown(statuses@));
                return Event::Vanished;
            },
            LegStatus::Pending => {
                included = false;
                succeeded = false;
                assert(!(more[i as int] is Included));
            },
            LegStatus::Included { success } => {
                if !success {
                    succeeded = false;
                    assert(more[i as int] != (LegStatus::Included { success: true }));
                }
            },
        }
        proof {
            if any_unknown(more) {
                let j = choose|j: int| 0 <= j < more.len() && #[trigger] more[j] == LegStatus::Unknown;
                if j < i {
                    assert(seen[j] == LegStatus::Unknown);
                }
            }
            if all_included(seen) && more[i as int] is Included {
                assert forall|j: int| 0 <= j < more.len() implies #[trigger] more[j] is Included by {
                    if j < i {
                        assert(seen[j] is Included);
                    }
                }
            }
            if !all_included(seen) {
                let j = choose|j: int| 0 <= j < seen.len() && !(#[trigger] seen[j] is Included);
                assert(more[j] == seen[j]);
            }
            if all_succeeded(seen) && more[i as int] == (LegStatus::Included { success: true }) {
                assert forall|j: int| 0 <= j < more.len() implies #[trigger] more[j] == (
                LegStatus::Included { success: true }) by {
                    if j < i {
                        assert(seen[j] == (LegStatus::Included { success: true }));
                    }
                }
            }
            if !all_succeeded(seen) {
                let j = choose|j: int|
                    0 <= j < seen.len() && #[trigger] seen[j] != (LegStatus::Included {
                        success: true,
                    });
                assert(more[j] == seen[j]);
            }
        }
        i += 1;
    }
    proof {
        assert(statuses@.subrange(0, i as int) =~= statuses@);
    }
    if statuses.len() > 0 && included {
        Event::Included { success: succeeded }
    } else {
        Event::Head { head }
    }
}

impl Outcome {
    /// The state in which a submission rests that ended this way: a wait
    /// that ran out leaves it dropped.
    pub fn stage(&self) -> (r: Stage)
        ensures
            r == resting_stage(*self),
    {
        match self {
            Outcome::Confirmed => Stage::Confirmed,
            Outcome::Reverted => Stage::Reverted,
            Outcome::Dropped => Stage::Dropped,
            Outcome::TimedOut => Stage::Dropped,
        }
    }
}

/// What the network or the chain said about a submission.
#[derive(Clone, Copy, Debug, PartialEq, Eq, Structural)]
pub enum Event {
    /// The node took what was sent last into its pending state.
    Accepted,
    /// The node rejected what was sent last. `chain_nonce` is the account's
    /// next nonce, read from the chain after the rejection.
    Rejected { chain_nonce: u64 },
    /// The transactions were included in a block.
    Included { success: bool },
    /// The node no longer knows the transactions.
    Vanished,
    /// The chain head stands at `head`.
    Head { head: u64 },
}

/// What the caller is to do next for a submission.
#[derive(Clone, Copy, Debug, PartialEq, Eq, Structural)]
pub enum Step {
    /// Sign transaction number `leg` of the bundle with `nonce` and send it.
    Send { leg: u64, nonce: u64 },
    /// Sign all `legs` transactions of the bundle, the first with
    /// `first_nonce` and each next one with the next nonce, and send them as
    /// one bundle in that order.
    SendBundle { first_nonce: u64, legs: u64 },
    /// Wait for the next event.
    Wait,
    /// The submission has ended.
    Done(Outcome),
    /// The node rejected the submission: nothing more of it is to be sent.
    Failed,
    /// The event does not apply: the handle names no submission, or none in
    /// a state that the event fits.
    Ignored,
}

/// Why an opportunity was not submitted.
#[derive(Clone, Copy, Debug, PartialEq, Eq, Structural)]
pub enum ExecError {
    /// The transaction that a sandwich was built around is no longer pending.
    VoidTarget,
    /// The bundle is empty, or a sandwich has fewer than two transactions.
    MalformedBundle,
    /// An opportunity with the same key is in flight.
    Duplicate,
    /// No nonce or submission number is left.
    Exhausted,
}

/// What every flight of an executor satisfies.
pub open spec fn flight_ok(f: Flight) -> bool {
    &&& 1 <= f.legs
    &&& 1 <= f.sent <= f.legs
    &&& f.accepted <= f.sent
    &&& f.first_nonce + f.legs <= u64::MAX
}

/// The stage of a flight.
pub open spec fn stage_of(f: Flight) -> Stage {
    if f.accepted == 0 {
        Stage::Built
    } else {
        Stage::Submitted
    }
}

/// The nonce of transaction number `leg` of a flight.
pub open spec fn leg_nonce(f: Flight, leg: int) -> int {
    f.first_nonce + leg
}

/// What an event does to a flight: the flight afterwards, or `None` where the
/// submission ends, and the step for the caller.
///
/// * `Accepted` acknowledges what was sent last. Where transactions are left,
///   the next one is sent; else the caller waits.
/// * `Rejected` refuses what was sent last: the submission fails, and nothing
///   more of it is sent.
/// * `Included` ends a submission all of whose transactions the network has
///   accepted.
/// * `Vanished` ends a submission of which the network has accepted
///   something.
/// * `Head` ends the submission once the head is past its expiry height.
/// * An event that fits none of these is ignored.
pub open spec fn next_step(f: Flight, event: Event) -> (Option<Flight>, Step) {
    match event {
        Event::Accepted => if f.accepted == f.sent {
            (Some(f), Step::Ignored)
        } else if f.sent < f.legs {
            (
                Some(Flight { sent: (f.sent + 1) as u64, accepted: f.sent, ..f }),
                Step::Send { leg: f.sent, nonce: (f.first_nonce + f.sent) as u64 },
            )
        } else {
            (Some(Flight { accepted: f.sent, ..f }), Step::Wait)
        },
        Event::Rejected { chain_nonce } => if f.accepted == f.sent {
            (Some(f), Step::Ignored)
        } else {
            (None, Step::Failed)
        },
        Event::Included { success } => if f.accepted < f.legs {
            (Some(f), Step::Ignored)
        } else if success {
            (None, Step::Done(Outcome::Confirmed))
        } else {
            (None, Step::Done(Outcome::Reverted))
        },
        Event::Vanished => if f.accepted == 0 {
            (Some(f), Step::Ignored)
        } else {
            (None, Step::Done(Outcome::Dropped))
        },
        Event::Head { head } => if head > f.expires_at {
            (None, Step::Done(Outcome::TimedOut))
        } else {
            (Some(f), Step::Wait)
        },
    }
}

/// What an event does to a flight.
pub fn advance(f: Flight, event: Event) -> (r: (Option<Flight>, Step))
    requires
        flight_ok(f),
    ensures
        r == next_step(f, event),
        r.0 matches Some(g) ==> {
            &&& flight_ok(g)
            &&& g.id == f.id
            &&& g.first_nonce == f.first_nonce
            &&& g.legs == f.legs
            &&& g.expires_at == f.expires_at
        },
{
    match event {
        Event::Accepted => {
            if f.accepted == f.sent {
                (Some(f), Step::Ignored)
            } else if f.sent < f.legs {
                (
                    Some(Flight { sent: f.sent + 1, accepted: f.sent, ..f }),
                    Step::Send { leg: f.sent, nonce: f.first_nonce + f.sent },
                )
            } else {
                (Some(Flight { accepted: f.sent, ..f }), Step::Wait)
            }
        },
        Event::Rejected { chain_nonce: _ } => {
            if f.accepted == f.sent {
                (Some(f), Step::Ignored)
            } else {
                (None, Step::Failed)
            }
        },
        Event::Included { success } => {
            if f.accepted < f.legs {
                (Some(f), Step::Ignored)
            } else if success {
                (None, Step::Done(Outcome::Confirmed))
            } else {
                (None, Step::Done(Outcome::Reverted))
            }
        },
        Event::Vanished => {
            if f.accepted == 0 {
                (Some(f), Step::Ignored)
            } else {
                (None, Step::Done(Outcome::Dropped))
            }
        },
        Event::Head { head } => {
            if head > f.expires_at {
                (None, Step::Done(Outcome::TimedOut))
            } else {
                (Some(f), Step::Wait)
            }
        },
    }
}

/// Where the nonce counter stands after a rejection: at the chain's next
/// nonce, but not below a nonce that a flight still holds.
pub open spec fn resynced(chain_nonce: u64, flights: Map<KeyView, Flight>) -> u64 {
    if chain_nonce >= nonce_ceiling(flights) {
        chain_nonce
    } else {
        nonce_ceiling(flights)
    }
}

/// Why the opportunity is not submitted, or `None` where it is. The tests are
/// made in the order in which they stand.
pub open spec fn refusal(
    opportunity: MEVOpportunity,
    flights: Map<KeyView, Flight>,
    next_nonce: u64,
    next_id: u64,
    target_pending: bool,
) -> Option<ExecError> {
    let legs = opportunity.transaction_data.len();
    let sandwich = opportunity.opportunity_type is Sandwich;
    if sandwich && !target_pending {
        Some(ExecError::VoidTarget)
    } else if legs == 0 || (sandwich && legs < 2) {
        Some(ExecError::MalformedBundle)
    } else if flights.dom().contains(key_of(opportunity.opportunity_type)) {
        Some(ExecError::Duplicate)
    } else if next_nonce + legs > u64::MAX || next_id == u64::MAX {
        Some(ExecError::Exhausted)
    } else {
        None
    }
}

/// `head + wait`, capped at the largest height.
pub open spec fn expiry_height(head: u64, wait: u64) -> u64 {
    if head + wait > u64::MAX {
        u64::MAX
    } else {
        (head + wait) as u64
    }
}

/// The flight of a submission that has just been built.
pub open spec fn first_flight(
    id: u64,
    first_nonce: u64,
    legs: u64,
    head: u64,
    wait: u64,
    atomic: bool,
) -> Flight {
    Flight {
        id,
        expires_at: expiry_height(head, wait),
        first_nonce,
        legs,
        sent: if atomic {
            legs
        } else {
            1
        },
        accepted: 0,
    }
}

/// The first step of a submission that has just been built.
pub open spec fn first_step(first_nonce: u64, legs: u64, atomic: bool) -> Step {
    if atomic {
        Step::SendBundle { first_nonce, legs }
    } else {
        Step::Send { leg: 0, nonce: first_nonce }
    }
}

/// Turns accepted opportunities into submissions. It owns the nonce counter
/// and the set of opportunities in flight.
#[derive(Debug)]
pub struct TransactionExecutor {
    next_nonce: u64,
    next_id: u64,
    in_flight: InFlightSet,
    atomic_bundles: bool,
    wait_blocks: u64,
}

impl TransactionExecutor {
    /// The nonce that the next transaction gets.
    pub closed spec fn nonce(&self) -> u64 {
        self.next_nonce
    }

    /// The number that the next submission gets.
    pub closed spec fn submission_count(&self) -> u64 {
        self.next_id
    }

    /// The opportunities in flight.
    pub closed spec fn flights(&self) -> Map<KeyView, Flight> {
        self.in_flight@
    }

    /// Whether the network takes a bundle as a whole and keeps its order.
    pub closed spec fn atomic(&self) -> bool {
        self.atomic_bundles
    }

    /// How many blocks a submission waits for its confirmation.
    pub closed spec fn wait(&self) -> u64 {
        self.wait_blocks
    }

    /// Every flight is sound, holds nonces below the counter, and has a
    /// number below the next one. Every operation keeps this.
    pub closed spec fn wf(&self) -> bool {
        &&& self.in_flight.wf()
        &&& forall|k: KeyView| #[trigger]
            self.in_flight@.dom().contains(k) ==> {
                &&& flight_ok(self.in_flight@[k])
                &&& self.in_flight@[k].first_nonce + self.in_flight@[k].legs <= self.next_nonce
                &&& self.in_flight@[k].id < self.next_id
            }
    }

    /// An executor with nothing in flight, whose first transaction gets
    /// `start_nonce`.
    pub fn new(start_nonce: u64, atomic_bundles: bool, wait_blocks: u64) -> (r: TransactionExecutor)
        ensures
            r.wf(),
            r.nonce() == start_nonce,
            r.submission_count() == 0,
            r.flights() == Map::<KeyView, Flight>::empty(),
            r.atomic() == atomic_bundles,
            r.wait() == wait_blocks,
    {
        TransactionExecutor {
            next_nonce: start_nonce,
            next_id: 0,
            in_flight: InFlightSet::new(),
            atomic_bundles,
            wait_blocks,
        }
    }

    /// The nonce that the next transaction gets.
    pub fn next_nonce(&self) -> (r: u64)
        ensures
            r == self.nonce(),
    {
        self.next_nonce
    }

    /// The opportunities in flight.
    pub fn in_flight(&self) -> (r: &InFlightSet)
        requires
            self.wf(),
        ensures
            r.wf(),
            r@ == self.flights(),
    {
        &self.in_flight
    }

    /// Whether the handle names a submission that is in flight.
    pub open spec fn is_current(&self, handle: SubmissionHandle) -> bool {
        self.flights().dom().contains(handle.key@) && self.flights()[handle.key@].id == handle.id
    }

    /// The stage of a submission, if it is in flight.
    pub fn stage(&self, handle: &SubmissionHandle) -> (r: Option<Stage>)
        requires
            self.wf(),
        ensures
            self.is_current(*handle) ==> r == Some(stage_of(self.flights()[handle.key@])),
            !self.is_current(*handle) ==> r.is_none(),
    {
        match self.in_flight.get(&handle.key) {
            Some(f) => {
                if f.id != handle.id {
                    None
                } else if f.accepted == 0 {
                    Some(Stage::Built)
                } else {
                    Some(Stage::Submitted)
                }
            },
            None => None,
        }
    }

    /// Builds the submission of an opportunity whose checks have passed.
    fn start(&mut self, opportunity: &MEVOpportunity, head: u64) -> (r: Result<
        (SubmissionHandle, Step),
        ExecError,
    >)
        requires
            old(self).wf(),
            opportunity.transaction_data.len() >= 1,
        ensures
            final(self).wf(),
            final(self).atomic() == old(self).atomic(),
            final(self).wait() == old(self).wait(),
            match r {
                Ok((handle, step)) => {
                    let legs = opportunity.transaction_data.len() as u64;
                    &&& !old(self).flights().dom().contains(key_of(opportunity.opportunity_type))
                    &&& old(self).nonce() + opportunity.transaction_data.len() <= u64::MAX
                    &&& old(self).submission_count() < u64::MAX
                    &&& handle.key@ == key_of(opportunity.opportunity_type)
                    &&& handle.id == old(self).submission_count()
                    &&& final(self).submission_count() == old(self).submission_count() + 1
                    &&& final(self).nonce() == old(self).nonce() + legs
                    &&& final(self).flights() == old(self).flights().insert(
                        handle.key@,
                        first_flight(
                            handle.id,
                            old(self).nonce(),
                            legs,
                            head,
                            old(self).wait(),
                            old(self).atomic(),
                        ),
                    )
                    &&& step == first_step(old(self).nonce(), legs, old(self).atomic())
                },
                Err(e) => {
                    &&& final(self).nonce() == old(self).nonce()
                    &&& final(self).submission_count() == old(self).submission_count()
                    &&& final(self).flights() == old(self).flights()
                    &&& if old(self).flights().dom().contains(key_of(opportunity.opportunity_type)) {
                        e == ExecError::Duplicate
                    } else {
                        &&& e == ExecError::Exhausted
                        &&& (old(self).nonce() + opportunity.transaction_data.len() > u64::MAX
                            || old(self).submission_count() == u64::MAX)
                    }
                },
            },
    {
        let key = opportunity.dedup_key();
        if self.in_flight.contains(&key) {
            return Err(ExecError::Duplicate);
        }
        let count = opportunity.transaction_data.len();
        if count as u128 > u64::MAX as u128 {
            return Err(ExecError::Exhausted);
        }
        let legs: u64 = count as u64;
        let first_nonce = self.next_nonce;
        let after = match first_nonce.checked_add(legs) {
            Some(n) => n,
            None => {
                return Err(ExecError::Exhausted);
            },
        };
        if self.next_id == u64::MAX {
            return Err(ExecError::Exhausted);
        }
        let id = self.next_id;
        let flight = Flight {
            id,
            expires_at: head.saturating_add(self.wait_blocks),
            first_nonce,
            legs,
            sent: if self.atomic_bundles {
                legs
            } else {
                1
            },
            accepted: 0,
        };
        let handle = SubmissionHandle { id, key: key.duplicate() };
        let _ = self.in_flight.insert(key, flight);
        self.next_nonce = after;
        self.next_id = id + 1;
        let step = if self.atomic_bundles {
            Step::SendBundle { first_nonce, legs }
        } else {
            Step::Send { leg: 0, nonce: first_nonce }
        };
        Ok((handle, step))
    }

    /// Submits an arbitrage: any bundle of at least one transaction.
    fn execute_arbitrage(&mut self, opportunity: &MEVOpportunity, head: u64) -> (r: Result<
        (SubmissionHandle, Step),
        ExecError,
    >)
        requires
            old(self).wf(),
            opportunity.opportunity_type is Arbitrage,
        ensures
            final(self).wf(),
            submission_made(*old(self), *final(self), *opportunity, head, true, r),
    {
        if opportunity.transaction_data.len() == 0 {
            return Err(ExecError::MalformedBundle);
        }
        self.start(opportunity, head)
    }

    /// Submits a liquidation: any bundle of at least one transaction.
    fn execute_liquidation(&mut self, opportunity: &MEVOpportunity, head: u64) -> (r: Result<
        (SubmissionHandle, Step),
        ExecError,
    >)
        requires
            old(self).wf(),
            opportunity.opportunity_type is Liquidation,
        ensures
            final(self).wf(),
            submission_made(*old(self), *final(self), *opportunity, head, true, r),
    {
        if opportunity.transaction_data.len() == 0 {
            return Err(ExecError::MalformedBundle);
        }
        self.start(opportunity, head)
    }

    /// Submits a sandwich: a front and a back transaction at least, and only
    /// while the transaction between them is still pending.
    fn execute_sandwich(
        &mut self,
        opportunity: &MEVOpportunity,
        head: u64,
        target_pending: bool,
    ) -> (r: Result<(SubmissionHandle, Step), ExecError>)
        requires
            old(self).wf(),
            opportunity.opportunity_type is Sandwich,
        ensures
            final(self).wf(),
            submission_made(*old(self), *final(self), *opportunity, head, target_pending, r),
    {
        if !target_pending {
            return Err(ExecError::VoidTarget);
        }
        if opportunity.transaction_data.len() < 2 {
            return Err(ExecError::MalformedBundle);
        }
        self.start(opportunity, head)
    }

    /// Submits an opportunity at chain head `head`. `target_pending` says
    /// whether the transaction that a sandwich was built around is still
    /// pending; it is not read for the other kinds.
    ///
    /// On success the opportunity is in flight, its transactions hold the
    /// next nonces in the order of the bundle, and the step says what to send
    /// first: the whole bundle where the network takes bundles, else its
    /// first transaction. On refusal nothing changes.
    pub fn execute_opportunity(
        &mut self,
        opportunity: &MEVOpportunity,
        head: u64,
        target_pending: bool,
    ) -> (r: Result<(SubmissionHandle, Step), ExecError>)
        requires
            old(self).wf(),
        ensures
            final(self).wf(),
            submission_made(*old(self), *final(self), *opportunity, head, target_pending, r),
    {
        match &opportunity.opportunity_type {
            OpportunityType::Arbitrage { .. } => self.execute_arbitrage(opportunity, head),
            OpportunityType::Liquidation { .. } => self.execute_liquidation(opportunity, head),
            OpportunityType::Sandwich { .. } => self.execute_sandwich(
                opportunity,
                head,
                target_pending,
            ),
        }
    }

    /// Drops every submission whose wait has run out at chain head `head`,
    /// whether or not anybody follows it, and returns how many were dropped.
    /// The nonce counter stays as it is.
    pub fn sweep(&mut self, head: u64) -> (r: usize)
        requires
            old(self).wf(),
        ensures
            final(self).wf(),
            swept(*old(self), *final(self), head),
            final(self).flights().dom().finite(),
            old(self).flights().dom().finite(),
            r == old(self).flights().dom().len() - final(self).flights().dom().len(),
    {
        self.in_flight.expire(head)
    }

    /// Takes in what the network or the chain said about a submission, and
    /// says what to do next. A submission that ends leaves the set of
    /// opportunities in flight; after a rejection the nonce counter is set
    /// from the chain's next nonce.
    pub fn on_event(&mut self, handle: &SubmissionHandle, event: Event) -> (r: Step)
        requires
            old(self).wf(),
        ensures
            final(self).wf(),
            event_handled(*old(self), *final(self), *handle, event, r),
    {
        let flight = match self.in_flight.get(&handle.key) {
            Some(f) => f,
            None => {
                return Step::Ignored;
            },
        };
        if flight.id != handle.id {
            return Step::Ignored;
        }
        let (next, step) = advance(flight, event);
        match next {
            Some(g) => {
                let _ = self.in_flight.replace(&handle.key, g);
            },
            None => {
                let _ = self.in_flight.remove(&handle.key);
                match event {
                    Event::Rejected { chain_nonce } => {
                        let top = self.in_flight.reserved_top();
                        self.next_nonce = if chain_nonce >= top {
                            chain_nonce
                        } else {
                            top
                        };
                    },
                    _ => {},
                }
            },
        }
        step
    }
}

/// What `execute_opportunity` has done, given the executor before and after.
pub open spec fn submission_made(
    before: TransactionExecutor,
    after: TransactionExecutor,
    opportunity: MEVOpportunity,
    head: u64,
    target_pending: bool,
    r: Result<(SubmissionHandle, Step), ExecError>,
) -> bool {
    let legs = opportunity.transaction_data.len() as u64;
    let refused = refusal(
        opportunity,
        before.flights(),
        before.nonce(),
        before.submission_count(),
        target_pending,
    );
    &&& after.atomic() == before.atomic()
    &&& after.wait() == before.wait()
    &&& match r {
        Ok((handle, step)) => {
            &&& refused is None
            &&& handle.key@ == key_of(opportunity.opportunity_type)
            &&& handle.id == before.submission_count()
            &&& after.submission_count() == before.submission_count() + 1
            &&& after.nonce() == before.nonce() + legs
            &&& after.flights() == before.flights().insert(
                handle.key@,
                first_flight(
                    handle.id,
                    before.nonce(),
                    legs,
                    head,
                    before.wait(),
                    before.atomic(),
                ),
            )
            &&& step == first_step(before.nonce(), legs, before.atomic())
        },
        Err(e) => {
            &&& refused == Some(e)
            &&& after.nonce() == before.nonce()
            &&& after.submission_count() == before.submission_count()
            &&& after.flights() == before.flights()
        },
    }
}

/// Of two transactions of one bundle the earlier has the lower nonce: the
/// front transaction of a sandwich is always below its back transaction.
pub proof fn law_bundle_order_is_nonce_order(f: Flight, earlier: int, later: int)
    requires
        0 <= earlier < later < f.legs,
    ensures
        leg_nonce(f, earlier) < leg_nonce(f, later),
{
}

/// A single transaction is only ever sent with the nonce of its place in the
/// bundle, and a transaction after the first only when the network has just
/// accepted the one before it.
pub proof fn law_sent_leg_carries_its_nonce(f: Flight, event: Event)
    requires
        flight_ok(f),
    ensures
        next_step(f, event).1 matches Step::Send { leg, nonce } ==> {
            &&& event == Event::Accepted
            &&& f.accepted < f.sent
            &&& leg == f.sent
            &&& 1 <= leg < f.legs
            &&& nonce == leg_nonce(f, leg as int)
        },
{
}

/// Submissions made one after the other get rising nonces: every nonce of
/// the second is above every nonce of the first.
pub proof fn law_sequential_nonces_rise(
    before: TransactionExecutor,
    between: TransactionExecutor,
    after: TransactionExecutor,
    first: MEVOpportunity,
    second: MEVOpportunity,
    first_head: u64,
    second_head: u64,
    first_pending: bool,
    second_pending: bool,
    first_made: Result<(SubmissionHandle, Step), ExecError>,
    second_made: Result<(SubmissionHandle, Step), ExecError>,
)
    requires
        submission_made(before, between, first, first_head, first_pending, first_made),
        submission_made(between, after, second, second_head, second_pending, second_made),
        first_made is Ok,
        second_made is Ok,
    ensures
        ({
            let f = after.flights()[first_made->Ok_0.0.key@];
            let g = after.flights()[second_made->Ok_0.0.key@];
            &&& after.flights().dom().contains(first_made->Ok_0.0.key@)
            &&& after.flights().dom().contains(second_made->Ok_0.0.key@)
            &&& f.legs >= 1 && g.legs >= 1
            &&& forall|i: int, j: int|
                0 <= i < f.legs && 0 <= j < g.legs ==> leg_nonce(f, i) < leg_nonce(g, j)
        }),
{
}

/// While an opportunity is in flight, no opportunity with the same key is
/// submitted: the executor refuses it and changes nothing.
pub proof fn law_one_submission_per_key(
    before: TransactionExecutor,
    between: TransactionExecutor,
    after: TransactionExecutor,
    first: MEVOpportunity,
    second: MEVOpportunity,
    first_head: u64,
    second_head: u64,
    first_pending: bool,
    second_pending: bool,
    first_made: Result<(SubmissionHandle, Step), ExecError>,
    second_made: Result<(SubmissionHandle, Step), ExecError>,
)
    requires
        key_of(first.opportunity_type) == key_of(second.opportunity_type),
        submission_made(before, between, first, first_head, first_pending, first_made),
        first_made is Ok,
        submission_made(between, after, second, second_head, second_pending, second_made),
    ensures
        second_made is Err,
        after.flights() == between.flights(),
        after.nonce() == between.nonce(),
{
}

/// After a rejection the counter is set from the chain. Where the chain's
/// next nonce is above the nonce that was rejected, the next submission's
/// nonces are all above it: the rejected nonce is not used again.
pub proof fn law_rejected_nonce_not_reused(
    before: TransactionExecutor,
    after: TransactionExecutor,
    later: TransactionExecutor,
    handle: SubmissionHandle,
    chain_nonce: u64,
    step: Step,
    next: MEVOpportunity,
    head: u64,
    pending: bool,
    made: Result<(SubmissionHandle, Step), ExecError>,
)
    requires
        before.is_current(handle),
        flight_ok(before.flights()[handle.key@]),
        event_handled(before, after, handle, Event::Rejected { chain_nonce }, step),
        step == Step::Failed,
        chain_nonce > leg_nonce(
            before.flights()[handle.key@],
            before.flights()[handle.key@].sent - 1,
        ),
        submission_made(after, later, next, head, pending, made),
        made is Ok,
    ensures
        later.flights().dom().contains(made->Ok_0.0.key@),
        later.flights()[made->Ok_0.0.key@].first_nonce > leg_nonce(
            before.flights()[handle.key@],
            before.flights()[handle.key@].sent - 1,
        ),
{
}

/// When the network rejects the front transaction of a bundle that is sent
/// one by one, the submission ends there: the handle names nothing any more,
/// so no later event makes the executor send the back transaction. The
/// counter is set from the chain, and where neither the chain nor another
/// flight stands above it, the back transaction's nonce is free again.
pub proof fn law_rejected_front_aborts_back(
    before: TransactionExecutor,
    after: TransactionExecutor,
    handle: SubmissionHandle,
    chain_nonce: u64,
    step: Step,
)
    requires
        before.is_current(handle),
        before.flights()[handle.key@].sent == 1,
        before.flights()[handle.key@].accepted == 0,
        event_handled(before, after, handle, Event::Rejected { chain_nonce }, step),
    ensures
        step == Step::Failed,
        !after.is_current(handle),
        !after.flights().dom().contains(handle.key@),
        after.nonce() == resynced(chain_nonce, after.flights()),
        chain_nonce <= before.flights()[handle.key@].first_nonce + 1 && nonce_ceiling(
            after.flights(),
        ) <= before.flights()[handle.key@].first_nonce + 1 ==> after.nonce()
            <= before.flights()[handle.key@].first_nonce + 1,
{
}

/// What `sweep` has done, given the executor before and after: the flights
/// that have lapsed at `head` are gone, and nothing else has changed.
pub open spec fn swept(before: TransactionExecutor, after: TransactionExecutor, head: u64) -> bool {
    &&& after.flights() == unexpired(before.flights(), head)
    &&& after.nonce() == before.nonce()
    &&& after.submission_count() == before.submission_count()
    &&& after.atomic() == before.atomic()
    &&& after.wait() == before.wait()
}

/// What `on_event` has done, given the executor before and after.
pub open spec fn event_handled(
    before: TransactionExecutor,
    after: TransactionExecutor,
    handle: SubmissionHandle,
    event: Event,
    r: Step,
) -> bool {
    &&& after.atomic() == before.atomic()
    &&& after.wait() == before.wait()
    &&& after.submission_count() == before.submission_count()
    &&& if !before.is_current(handle) {
        &&& r == Step::Ignored
        &&& after.nonce() == before.nonce()
        &&& after.flights() == before.flights()
    } else {
        let (next, step) = next_step(before.flights()[handle.key@], event);
        &&& r == step
        &&& match next {
            Some(g) => {
                &&& after.flights() == before.flights().insert(handle.key@, g)
                &&& after.nonce() == before.nonce()
            },
            None => {
                &&& after.flights() == before.flights().remove(handle.key@)
                &&& after.nonce() == match event {
                    Event::Rejected { chain_nonce } => resynced(chain_nonce, after.flights()),
                    _ => before.nonce(),
                }
            },
        }
    }
}

} // verus!
