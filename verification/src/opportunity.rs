//! The opportunity record that detectors produce and the rest of the pipeline
//! consumes, and the key by which two records count as the same opportunity.

use crate::amount::Amount;
use crate::primitives::{Address, TxHash};
use vstd::prelude::*;

verus! {

/// An unsigned transaction: what is to be sent, before a nonce and a
/// signature are put on it.
#[derive(Clone, Debug)]
pub struct TxRequest {
    pub to: Address,
    pub value: Amount,
    pub data: Vec<u8>,
    pub gas: u64,
}

/// What kind of opportunity a record describes, with the facts that identify
/// it.
#[derive(Clone, Debug)]
pub enum OpportunityType {
    /// Buy on one venue and sell on another, along `dex_path`.
    Arbitrage { token_in: Address, token_out: Address, dex_path: Vec<String> },
    /// Close an undercollateralised position of `user` at `protocol`.
    Liquidation { protocol: String, user: Address, collateral: Address, debt: Address },
    /// Trade before and after the pending transaction `target_tx`.
    Sandwich { target_tx: TxHash, token: Address, amount: Amount },
}

/// A detected opportunity. A record is never changed after it is made:
/// evaluating again makes a new one.
#[derive(Clone, Debug)]
pub struct MEVOpportunity {
    pub opportunity_type: OpportunityType,
    /// Expected profit before gas.
    pub profit_estimate: Amount,
    /// Expected gas cost, in the unit of `profit_estimate`.
    pub gas_estimate: Amount,
    /// The block height the record was evaluated against.
    pub block_number: u64,
    /// The transactions to send, in the order in which they must land.
    pub transaction_data: Vec<TxRequest>,
}

/// The names of a venue path, each as its characters.
pub open spec fn path_view(path: Seq<String>) -> Seq<Seq<char>> {
    Seq::new(path.len(), |i: int| path[i]@)
}

/// The mathematical form of a deduplication key.
pub enum KeyView {
    Arbitrage { token_in: Seq<u8>, token_out: Seq<u8>, path: Seq<Seq<char>> },
    Liquidation { protocol: Seq<char>, borrower: Seq<u8> },
    Sandwich { target: Seq<u8> },
}

/// The key of an opportunity of the given kind: the target transaction of a
/// sandwich, borrower and protocol of a liquidation, token pair and path of
/// an arbitrage.
pub open spec fn key_of(kind: OpportunityType) -> KeyView {
    match kind {
        OpportunityType::Arbitrage { token_in, token_out, dex_path } => KeyView::Arbitrage {
            token_in: token_in@,
            token_out: token_out@,
            path: path_view(dex_path@),
        },
        OpportunityType::Liquidation { protocol, user, collateral, debt } => KeyView::Liquidation {
            protocol: protocol@,
            borrower: user@,
        },
        OpportunityType::Sandwich { target_tx, token, amount } => KeyView::Sandwich {
            target: target_tx@,
        },
    }
}

/// The key under which an opportunity is tracked while it is in flight.
#[derive(Clone, Debug)]
pub enum DedupKey {
    Arbitrage { token_in: Address, token_out: Address, path: Vec<String> },
    Liquidation { protocol: String, borrower: Address },
    Sandwich { target: TxHash },
}

impl View for DedupKey {
    type V = KeyView;

    open spec fn view(&self) -> KeyView {
        match *self {
            DedupKey::Arbitrage { token_in, token_out, path } => KeyView::Arbitrage {
                token_in: token_in@,
                token_out: token_out@,
                path: path_view(path@),
            },
            DedupKey::Liquidation { protocol, borrower } => KeyView::Liquidation {
                protocol: protocol@,
                borrower: borrower@,
            },
            DedupKey::Sandwich { target } => KeyView::Sandwich { target: target@ },
        }
    }
}

/// A copy of a list of names.
pub fn copy_names(names: &Vec<String>) -> (r: Vec<String>)
    ensures
        path_view(r@) == path_view(names@),
{
    let mut out: Vec<String> = Vec::new();
    let mut i: usize = 0;
    while i < names.len()
        invariant
            i <= names.len(),
            out.len() == i,
            forall|j: int| 0 <= j < i ==> out@[j]@ == names@[j]@,
        decreases names.len() - i,
    {
        out.push(names[i].clone());
        i += 1;
    }
    assert(path_view(out@) =~= path_view(names@));
    out
}

/// Whether two lists hold the same names in the same order.
pub fn same_names(a: &Vec<String>, b: &Vec<String>) -> (r: bool)
    ensures
        r == (path_view(a@) == path_view(b@)),
{
    if a.len() != b.len() {
        assert(path_view(a@).len() != path_view(b@).len());
        return false;
    }
    let mut i: usize = 0;
    while i < a.len()
        invariant
            i <= a.len(),
            a.len() == b.len(),
            forall|j: int| 0 <= j < i ==> a@[j]@ == b@[j]@,
        decreases a.len() - i,
    {
        if !(a[i] == b[i]) {
            assert(path_view(a@)[i as int] != path_view(b@)[i as int]);
            return false;
        }
        i += 1;
    }
    assert(path_view(a@) =~= path_view(b@));
    true
}

impl OpportunityType {
    /// The key under which an opportunity of this kind is deduplicated.
    pub fn dedup_key(&self) -> (r: DedupKey)
        ensures
            r@ == key_of(*self),
    {
        match self {
            OpportunityType::Arbitrage { token_in, token_out, dex_path } => DedupKey::Arbitrage {
                token_in: *token_in,
                token_out: *token_out,
                path: copy_names(dex_path),
            },
            OpportunityType::Liquidation { protocol, user, .. } => DedupKey::Liquidation {
                protocol: protocol.clone(),
                borrower: *user,
            },
            OpportunityType::Sandwich { target_tx, .. } => DedupKey::Sandwich { target: *target_tx },
        }
    }
}

impl DedupKey {
    /// Whether both keys name the same opportunity.
    pub fn same(&self, other: &DedupKey) -> (r: bool)
        ensures
            r == (self@ == other@),
    {
        match (self, other) {
            (
                DedupKey::Arbitrage { token_in: a_in, token_out: a_out, path: a_path },
                DedupKey::Arbitrage { token_in: b_in, token_out: b_out, path: b_path },
            ) => a_in.eq(b_in) && a_out.eq(b_out) && same_names(a_path, b_path),
            (
                DedupKey::Liquidation { protocol: a_protocol, borrower: a_borrower },
                DedupKey::Liquidation { protocol: b_protocol, borrower: b_borrower },
            ) => *a_protocol == *b_protocol && a_borrower.eq(b_borrower),
            (DedupKey::Sandwich { target: a }, DedupKey::Sandwich { target: b }) => a.eq(b),
            _ => false,
        }
    }

    /// A copy of the key.
    pub fn duplicate(&self) -> (r: DedupKey)
        ensures
            r@ == self@,
    {
        match self {
            DedupKey::Arbitrage { token_in, token_out, path } => DedupKey::Arbitrage {
                token_in: *token_in,
                token_out: *token_out,
                path: copy_names(path),
            },
            DedupKey::Liquidation { protocol, borrower } => DedupKey::Liquidation {
                protocol: protocol.clone(),
                borrower: *borrower,
            },
            DedupKey::Sandwich { target } => DedupKey::Sandwich { target: *target },
        }
    }
}

impl MEVOpportunity {
    /// The key under which this opportunity is deduplicated.
    pub fn dedup_key(&self) -> (r: DedupKey)
        ensures
            r@ == key_of(self.opportunity_type),
    {
        self.opportunity_type.dedup_key()
    }
}

} // verus!
