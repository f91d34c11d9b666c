use mev_bot::amount::Amount;
use mev_bot::inflight::{Flight, InFlightSet};
use mev_bot::opportunity::{DedupKey, MEVOpportunity, OpportunityType};
use mev_bot::primitives::{Address, TxHash};
use mev_bot::ranker::{accept, best, rank, stale_at, Decision};

fn flight(id: u64) -> Flight {
    Flight { id, expires_at: 100, first_nonce: 0, legs: 1, sent: 1, accepted: 0 }
}

fn sandwich(target: u8, profit: u64, gas: u64, block: u64) -> MEVOpportunity {
    MEVOpportunity {
        opportunity_type: OpportunityType::Sandwich {
            target_tx: TxHash::from_bytes([target; 32]),
            token: Address::from_bytes([0xaa; 20]),
            amount: Amount::from_u64(10),
        },
        profit_estimate: Amount::from_u64(profit),
        gas_estimate: Amount::from_u64(gas),
        block_number: block,
        transaction_data: Vec::new(),
    }
}

fn liquidation(user: u8, protocol: &str, profit: u64) -> MEVOpportunity {
    MEVOpportunity {
        opportunity_type: OpportunityType::Liquidation {
            protocol: protocol.to_string(),
            user: Address::from_bytes([user; 20]),
            collateral: Address::from_bytes([1; 20]),
            debt: Address::from_bytes([2; 20]),
        },
        profit_estimate: Amount::from_u64(profit),
        gas_estimate: Amount::from_u64(1),
        block_number: 50,
        transaction_data: Vec::new(),
    }
}

#[test]
fn swap_of_ten_units_with_profit_above_threshold_is_admitted() {
    // 55 before gas, 5 of gas: 50 are left
    let candidate = sandwich(1, 55, 5, 50);
    let set = InFlightSet::new();
    assert_eq!(
        candidate.profit_estimate.saturating_sub(candidate.gas_estimate).limbs,
        [50, 0, 0, 0]
    );
    assert_eq!(accept(&candidate, &set, &Amount::from_u64(10), 50, 0), Decision::Admit);
    assert_eq!(
        accept(&candidate, &set, &Amount::from_u64(60), 50, 0),
        Decision::RejectBelowThreshold
    );
}

#[test]
fn profit_equal_to_threshold_is_rejected() {
    let set = InFlightSet::new();
    let threshold = Amount::from_u64(1_000);
    assert_eq!(
        accept(&sandwich(1, 1_000, 0, 7), &set, &threshold, 7, 0),
        Decision::RejectBelowThreshold
    );
    assert_eq!(
        accept(&sandwich(1, 999, 0, 7), &set, &threshold, 7, 0),
        Decision::RejectBelowThreshold
    );
    assert_eq!(accept(&sandwich(1, 1_001, 0, 7), &set, &threshold, 7, 0), Decision::Admit);
}

#[test]
fn zero_profit_is_rejected_at_zero_threshold() {
    let set = InFlightSet::new();
    assert_eq!(
        accept(&sandwich(1, 0, 0, 7), &set, &Amount::zero(), 7, 0),
        Decision::RejectBelowThreshold
    );
    assert_eq!(accept(&sandwich(1, 1, 0, 7), &set, &Amount::zero(), 7, 0), Decision::Admit);
}

#[test]
fn threshold_is_compared_over_all_256_bits() {
    let set = InFlightSet::new();
    let mut candidate = sandwich(1, 0, 0, 7);
    candidate.profit_estimate = Amount { limbs: [0, 0, 0, 1] };
    let threshold = Amount { limbs: [u64::MAX, u64::MAX, u64::MAX, 0] };
    assert_eq!(accept(&candidate, &set, &threshold, 7, 0), Decision::Admit);
    candidate.profit_estimate = threshold;
    assert_eq!(
        accept(&candidate, &set, &Amount { limbs: [0, 0, 0, 1] }, 7, 0),
        Decision::RejectBelowThreshold
    );
}

#[test]
fn candidate_past_the_staleness_tolerance_is_rejected() {
    let set = InFlightSet::new();
    let threshold = Amount::from_u64(10);
    // tolerance 0: the head must not be past the trigger block
    assert_eq!(accept(&sandwich(1, 55, 5, 100), &set, &threshold, 100, 0), Decision::Admit);
    assert_eq!(accept(&sandwich(1, 55, 5, 100), &set, &threshold, 101, 0), Decision::RejectStale);
    // tolerance 2: heads 100, 101, 102 are fine, 103 is not
    assert_eq!(accept(&sandwich(1, 55, 5, 100), &set, &threshold, 102, 2), Decision::Admit);
    assert_eq!(accept(&sandwich(1, 55, 5, 100), &set, &threshold, 103, 2), Decision::RejectStale);
    // a head before the trigger block is not stale
    assert_eq!(accept(&sandwich(1, 55, 5, 100), &set, &threshold, 99, 0), Decision::Admit);
}

#[test]
fn staleness_does_not_overflow() {
    assert!(!stale_at(u64::MAX, u64::MAX, 0));
    assert!(!stale_at(u64::MAX - 1, u64::MAX, 5));
    assert!(!stale_at(5, u64::MAX, u64::MAX));
    assert!(stale_at(5, u64::MAX, 10));
    assert!(stale_at(0, 1, 0));
    assert!(!stale_at(0, 0, 0));
}

#[test]
fn candidate_with_a_key_in_flight_is_rejected() {
    let first = sandwich(9, 55, 5, 100);
    let mut second = sandwich(9, 500, 5, 100);
    second.gas_estimate = Amount::from_u64(1);
    let other = sandwich(8, 55, 5, 100);
    let threshold = Amount::from_u64(10);
    let mut set = InFlightSet::new();
    assert_eq!(accept(&first, &set, &threshold, 100, 0), Decision::Admit);
    assert!(set.insert(first.dedup_key(), flight(0)));
    assert_eq!(accept(&second, &set, &threshold, 100, 0), Decision::RejectDuplicate);
    assert_eq!(accept(&first, &set, &threshold, 100, 0), Decision::RejectDuplicate);
    assert_eq!(accept(&other, &set, &threshold, 100, 0), Decision::Admit);
    assert!(set.remove(&first.dedup_key()).is_some());
    assert_eq!(accept(&second, &set, &threshold, 100, 0), Decision::Admit);
}

#[test]
fn rejections_are_tested_in_order() {
    let candidate = sandwich(9, 5, 5, 100);
    let mut set = InFlightSet::new();
    assert!(set.insert(candidate.dedup_key(), flight(0)));
    // below threshold, duplicate and stale: the threshold is named
    assert_eq!(
        accept(&candidate, &set, &Amount::from_u64(10), 200, 0),
        Decision::RejectBelowThreshold
    );
    // duplicate and stale: the duplicate is named
    assert_eq!(accept(&candidate, &set, &Amount::from_u64(1), 200, 0), Decision::RejectDuplicate);
}

#[test]
fn liquidations_of_one_borrower_at_one_protocol_are_duplicates() {
    let threshold = Amount::from_u64(1);
    let mut set = InFlightSet::new();
    assert!(set.insert(liquidation(3, "aave", 100).dedup_key(), flight(0)));
    assert_eq!(
        accept(&liquidation(3, "aave", 900), &set, &threshold, 50, 0),
        Decision::RejectDuplicate
    );
    assert_eq!(accept(&liquidation(3, "compound", 900), &set, &threshold, 50, 0), Decision::Admit);
    assert_eq!(accept(&liquidation(4, "aave", 900), &set, &threshold, 50, 0), Decision::Admit);
}

#[test]
fn rank_puts_the_greatest_profit_first() {
    let candidates = vec![
        sandwich(0, 30, 0, 1),
        sandwich(1, 70, 0, 1),
        sandwich(2, 10, 0, 1),
        sandwich(3, 50, 0, 1),
    ];
    assert_eq!(rank(&candidates), vec![1, 3, 0, 2]);
}

#[test]
fn rank_keeps_the_order_of_equal_profits() {
    let candidates = vec![
        sandwich(0, 5, 0, 1),
        sandwich(1, 9, 0, 1),
        sandwich(2, 5, 0, 1),
        sandwich(3, 9, 0, 1),
        sandwich(4, 5, 0, 1),
    ];
    assert_eq!(rank(&candidates), vec![1, 3, 0, 2, 4]);
}

#[test]
fn rank_of_nothing_and_of_one() {
    assert_eq!(rank(&Vec::new()), Vec::<usize>::new());
    assert_eq!(rank(&vec![sandwich(0, 5, 0, 1)]), vec![0]);
}

#[test]
fn rank_lists_every_position_once() {
    let profits = [3u64, 1, 4, 1, 5, 9, 2, 6, 5, 3, 5];
    let candidates: Vec<MEVOpportunity> =
        profits.iter().map(|p| sandwich(0, *p, 0, 1)).collect();
    let order = rank(&candidates);
    let mut seen = order.clone();
    seen.sort();
    assert_eq!(seen, (0..profits.len()).collect::<Vec<usize>>());
    for pair in order.windows(2) {
        let (a, b) = (pair[0], pair[1]);
        assert!(profits[a] > profits[b] || (profits[a] == profits[b] && a < b));
    }
}

#[test]
fn best_is_the_first_of_the_ranking() {
    assert_eq!(best(&Vec::new()), None);
    let candidates = vec![
        sandwich(0, 5, 0, 1),
        sandwich(1, 9, 0, 1),
        sandwich(2, 5, 0, 1),
        sandwich(3, 9, 0, 1),
    ];
    assert_eq!(best(&candidates), Some(1));
    assert_eq!(best(&candidates), rank(&candidates).first().copied());
    assert_eq!(best(&vec![sandwich(0, 0, 0, 1)]), Some(0));
}

#[test]
fn dedup_key_of_a_sandwich_is_its_target() {
    let a = sandwich(1, 10, 0, 1).dedup_key();
    let b = sandwich(1, 999, 7, 55).dedup_key();
    let c = sandwich(2, 10, 0, 1).dedup_key();
    assert!(a.same(&b));
    assert!(!a.same(&c));
    assert!(matches!(a, DedupKey::Sandwich { .. }));
}

#[test]
fn default_tolerance_is_the_same_block() {
    assert_eq!(mev_bot::ranker::DEFAULT_STALENESS_TOLERANCE, 0);
}
