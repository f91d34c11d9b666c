//! Filtering and ordering of candidates: which are worth executing, and which
//! comes first when several compete for the next nonce.

use crate::amount::Amount;
use crate::inflight::{Flight, InFlightSet};
use crate::opportunity::{key_of, KeyView, MEVOpportunity};
use vstd::prelude::*;

verus! {

/// What the ranker decides about one candidate.
#[derive(Clone, Copy, Debug, PartialEq, Eq, Structural)]
pub enum Decision {
    /// The candidate may be executed.
    Admit,
    /// Its expected profit is not above the threshold.
    RejectBelowThreshold,
    /// An opportunity with the same key is in flight.
    RejectDuplicate,
    /// The chain has moved too far past the block it was evaluated against.
    RejectStale,
}

/// Default: an opportunity must be executed at the head it was evaluated
/// against.
pub const DEFAULT_STALENESS_TOLERANCE: u64 = 0;

/// An opportunity evaluated against `trigger_block` is stale once the chain
/// head is more than `tolerance` blocks past it.
pub open spec fn is_stale(trigger_block: u64, head: u64, tolerance: u64) -> bool {
    head > trigger_block + tolerance
}

/// The decision for a candidate with the given profit, tested in this order:
/// threshold, duplicate, staleness.
pub open spec fn decide(profit: nat, threshold: nat, duplicate: bool, stale: bool) -> Decision {
    if profit <= threshold {
        Decision::RejectBelowThreshold
    } else if duplicate {
        Decision::RejectDuplicate
    } else if stale {
        Decision::RejectStale
    } else {
        Decision::Admit
    }
}

/// The decision for `candidate` against the opportunities `in_flight`.
pub open spec fn decision_for(
    candidate: MEVOpportunity,
    in_flight: Map<KeyView, Flight>,
    threshold: nat,
    head: u64,
    tolerance: u64,
) -> Decision {
    decide(
        candidate.profit_estimate@,
        threshold,
        in_flight.dom().contains(key_of(candidate.opportunity_type)),
        is_stale(candidate.block_number, head, tolerance),
    )
}

/// Whether the chain head is more than `tolerance` blocks past
/// `trigger_block`.
pub fn stale_at(trigger_block: u64, head: u64, tolerance: u64) -> (r: bool)
    ensures
        r == is_stale(trigger_block, head, tolerance),
{
    match trigger_block.checked_add(tolerance) {
        Some(limit) => head > limit,
        None => false,
    }
}

/// Decides whether `candidate` may be executed at chain head `head`. It is
/// admitted when its expected profit is strictly above
/// `min_profit_threshold`, no opportunity with its key is in flight, and it
/// is not stale; otherwise the first of these that fails names the
/// rejection.
pub fn accept(
    candidate: &MEVOpportunity,
    in_flight: &InFlightSet,
    min_profit_threshold: &Amount,
    head: u64,
    staleness_tolerance: u64,
) -> (r: Decision)
    requires
        in_flight.wf(),
    ensures
        r == decision_for(*candidate, in_flight@, min_profit_threshold@, head, staleness_tolerance),
        r == Decision::Admit ==> candidate.profit_estimate@ > min_profit_threshold@,
        r == Decision::Admit ==> !in_flight@.dom().contains(key_of(candidate.opportunity_type)),
        r == Decision::Admit ==> head <= candidate.block_number + staleness_tolerance,
{
    if candidate.profit_estimate.le(min_profit_threshold) {
        return Decision::RejectBelowThreshold;
    }
    let key = candidate.dedup_key();
    if in_flight.contains(&key) {
        return Decision::RejectDuplicate;
    }
    if stale_at(candidate.block_number, head, staleness_tolerance) {
        return Decision::RejectStale;
    }
    Decision::Admit
}

/// While an opportunity is in flight, no candidate with the same key is
/// admitted, whatever its profit and age.
pub proof fn law_one_admission_per_key(
    first: MEVOpportunity,
    second: MEVOpportunity,
    in_flight: Map<KeyView, Flight>,
    flight: Flight,
    threshold: nat,
    head: u64,
    tolerance: u64,
)
    requires
        key_of(first.opportunity_type) == key_of(second.opportunity_type),
    ensures
        decision_for(
            second,
            in_flight.insert(key_of(first.opportunity_type), flight),
            threshold,
            head,
            tolerance,
        ) != Decision::Admit,
{
}

/// A candidate whose expected profit is not strictly above the threshold is
/// rejected for that, whatever else holds of it.
pub proof fn law_threshold_is_strict(
    candidate: MEVOpportunity,
    in_flight: Map<KeyView, Flight>,
    threshold: nat,
    head: u64,
    tolerance: u64,
)
    requires
        candidate.profit_estimate@ <= threshold,
    ensures
        decision_for(candidate, in_flight, threshold, head, tolerance)
            == Decision::RejectBelowThreshold,
{
}

/// A candidate evaluated more than `tolerance` blocks before the chain head
/// is never admitted.
pub proof fn law_stale_never_admitted(
    candidate: MEVOpportunity,
    in_flight: Map<KeyView, Flight>,
    threshold: nat,
    head: u64,
    tolerance: u64,
)
    requires
        head > candidate.block_number + tolerance,
    ensures
        decision_for(candidate, in_flight, threshold, head, tolerance) != Decision::Admit,
{
}

/// Candidate `a` is executed before candidate `b`: it has the greater
/// expected profit, or the same and was found first.
pub open spec fn goes_before(candidates: Seq<MEVOpportunity>, a: int, b: int) -> bool {
    candidates[a].profit_estimate@ > candidates[b].profit_estimate@ || (
    candidates[a].profit_estimate@ == candidates[b].profit_estimate@ && a < b)
}

/// `order` lists every position of `candidates` once, greatest expected
/// profit first, and among equal profits the earlier candidate first.
pub open spec fn is_ranking(candidates: Seq<MEVOpportunity>, order: Seq<usize>) -> bool {
    &&& order.len() == candidates.len()
    &&& forall|i: int| 0 <= i < order.len() ==> (#[trigger] order[i]) < candidates.len()
    &&& forall|i: int, j: int|
        0 <= i < j < order.len() ==> goes_before(candidates, order[i] as int, order[j] as int)
}

/// The order in which to execute `candidates`: their positions by expected
/// profit, greatest first; candidates of equal profit keep their order.
pub fn rank(candidates: &Vec<MEVOpportunity>) -> (order: Vec<usize>)
    ensures
        is_ranking(candidates@, order@),
{
    let mut order: Vec<usize> = Vec::new();
    let mut k: usize = 0;
    while k < candidates.len()
        invariant
            k <= candidates.len(),
            order.len() == k,
            forall|i: int| 0 <= i < order.len() ==> (#[trigger] order[i]) < k,
            forall|i: int, j: int|
                0 <= i < j < order.len() ==> goes_before(
                    candidates@,
                    order[i] as int,
                    order[j] as int,
                ),
        decreases candidates.len() - k,
    {
        let mut at: usize = 0;
        while at < order.len() && candidates[order[at]].profit_estimate.ge(
            &candidates[k].profit_estimate,
        )
            invariant
                at <= order.len(),
                order.len() == k,
                k < candidates.len(),
                forall|i: int| 0 <= i < order.len() ==> (#[trigger] order[i]) < k,
                forall|i: int|
                    0 <= i < at ==> candidates[(#[trigger] order[i]) as int].profit_estimate@
                        >= candidates[k as int].profit_estimate@,
            decreases order.len() - at,
        {
            at += 1;
        }
        let ghost before = order@;
        order.insert(at, k);
        proof {
            assert forall|i: int, j: int| 0 <= i < j < order.len() implies goes_before(
                candidates@,
                order[i] as int,
                order[j] as int,
            ) by {
                if j < at {
                    assert(order[i] == before[i] && order[j] == before[j]);
                } else if j == at {
                    assert(order[i] == before[i]);
                } else if i < at {
                    assert(order[i] == before[i] && order[j] == before[j - 1]);
                } else if i == at {
                    assert(order[j] == before[j - 1]);
                    assert(at < before.len());
                    if j - 1 > at {
                        assert(goes_before(candidates@, before[at as int] as int, before[j - 1] as int));
                    }
                } else {
                    assert(order[i] == before[i - 1] && order[j] == before[j - 1]);
                }
            }
            assert forall|i: int| 0 <= i < order.len() implies (#[trigger] order[i]) < k + 1 by {
                if i < at {
                    assert(order[i] == before[i]);
                } else if i > at {
                    assert(order[i] == before[i - 1]);
                }
            }
        }
        k += 1;
    }
    order
}

/// The position of the candidate to execute first, if there is any.
pub fn best(candidates: &Vec<MEVOpportunity>) -> (r: Option<usize>)
    ensures
        candidates.len() == 0 ==> r.is_none(),
        candidates.len() > 0 ==> r.is_some() && r.unwrap() < candidates.len(),
        r matches Some(b) ==> forall|i: int|
            0 <= i < candidates.len() && i != b ==> goes_before(candidates@, b as int, i),
{
    if candidates.len() == 0 {
        return None;
    }
    let mut b: usize = 0;
    let mut i: usize = 1;
    while i < candidates.len()
        invariant
            1 <= i <= candidates.len(),
            b < i,
            forall|j: int| 0 <= j < i && j != b ==> goes_before(candidates@, b as int, j),
        decreases candidates.len() - i,
    {
        if candidates[i].profit_estimate.gt(&candidates[b].profit_estimate) {
            assert forall|j: int| 0 <= j < i + 1 && j != i implies goes_before(
                candidates@,
                i as int,
                j,
            ) by {
                if j != b {
                    assert(goes_before(candidates@, b as int, j));
                }
            }
            b = i;
        }
        i += 1;
    }
    Some(b)
}

} // verus!
