//! The set of opportunities that have been submitted and are neither
//! confirmed nor given up: at most one entry per deduplication key, each with
//! the nonces it holds, how far its transactions have got, and the last block
//! height at which it still counts as in flight.

use crate::opportunity::{DedupKey, KeyView};
use vstd::prelude::*;

verus! {

/// What is known of one opportunity in flight.
#[derive(Clone, Copy, Debug, PartialEq, Eq, Structural)]
pub struct Flight {
    /// Tells this submission from an earlier one under the same key.
    pub id: u64,
    /// The entry lapses once the chain head is above this height.
    pub expires_at: u64,
    /// The nonce of its first transaction; the others follow one by one.
    pub first_nonce: u64,
    /// How many transactions its bundle has.
    pub legs: u64,
    /// How many of them have been handed over for sending.
    pub sent: u64,
    /// How many of them the network has accepted as pending.
    pub accepted: u64,
}

/// One opportunity in flight.
#[derive(Debug)]
pub struct InFlightEntry {
    pub key: DedupKey,
    pub flight: Flight,
}

/// No key occurs twice.
pub open spec fn distinct_keys(entries: Seq<InFlightEntry>) -> bool {
    forall|i: int, j: int|
        0 <= i < entries.len() && 0 <= j < entries.len() && i != j ==> entries[i].key@
            != entries[j].key@
}

/// Whether some entry has the key `k`.
pub open spec fn has_key(entries: Seq<InFlightEntry>, k: KeyView) -> bool {
    exists|i: int| 0 <= i < entries.len() && #[trigger] entries[i].key@ == k
}

/// The position of an entry with the key `k`.
pub open spec fn position_of(entries: Seq<InFlightEntry>, k: KeyView) -> int {
    choose|i: int| 0 <= i < entries.len() && #[trigger] entries[i].key@ == k
}

/// The entries as a map from key to what is known of the flight.
pub open spec fn entries_map(entries: Seq<InFlightEntry>) -> Map<KeyView, Flight> {
    Map::new(
        |k: KeyView| has_key(entries, k),
        |k: KeyView| entries[position_of(entries, k)].flight,
    )
}

/// An entry of a list without repeated keys is found under its key.
pub proof fn lemma_entry_is_mapped(entries: Seq<InFlightEntry>, i: int)
    requires
        distinct_keys(entries),
        0 <= i < entries.len(),
    ensures
        entries_map(entries).dom().contains(entries[i].key@),
        entries_map(entries)[entries[i].key@] == entries[i].flight,
{
    let k = entries[i].key@;
    assert(has_key(entries, k));
    let p = position_of(entries, k);
    assert(0 <= p < entries.len() && entries[p].key@ == k);
    assert(p == i);
}

/// Appending an entry with a new key inserts it in the map.
pub proof fn lemma_push_inserts(entries: Seq<InFlightEntry>, e: InFlightEntry)
    requires
        distinct_keys(entries),
        !has_key(entries, e.key@),
    ensures
        distinct_keys(entries.push(e)),
        entries_map(entries.push(e)) == entries_map(entries).insert(e.key@, e.flight),
{
    let after = entries.push(e);
    assert forall|i: int, j: int|
        0 <= i < after.len() && 0 <= j < after.len() && i != j implies after[i].key@
        != after[j].key@ by {
        if i < entries.len() && j < entries.len() {
            assert(after[i] == entries[i] && after[j] == entries[j]);
        } else if i < entries.len() {
            assert(after[i] == entries[i]);
            assert(entries[i].key@ != e.key@);
        } else {
            assert(after[j] == entries[j]);
            assert(entries[j].key@ != e.key@);
        }
    }
    let want = entries_map(entries).insert(e.key@, e.flight);
    assert forall|k: KeyView| entries_map(after).dom().contains(k) <==> want.dom().contains(
        k,
    ) by {
        if has_key(after, k) {
            let p = position_of(after, k);
            if p < entries.len() {
                assert(entries[p].key@ == k);
            }
        }
        if has_key(entries, k) {
            let p = position_of(entries, k);
            assert(after[p].key@ == k);
        }
        if k == e.key@ {
            assert(after[entries.len() as int].key@ == k);
        }
    }
    assert forall|k: KeyView| entries_map(after).dom().contains(k) implies entries_map(after)[k]
        == want[k] by {
        let p = position_of(after, k);
        lemma_entry_is_mapped(after, p);
        if p < entries.len() {
            assert(after[p] == entries[p]);
            lemma_entry_is_mapped(entries, p);
        }
    }
    assert(entries_map(after) =~= want);
}

/// A list without repeated keys holds as many keys as entries.
pub proof fn lemma_one_key_per_entry(entries: Seq<InFlightEntry>)
    requires
        distinct_keys(entries),
    ensures
        entries_map(entries).dom().finite(),
        entries_map(entries).dom().len() == entries.len(),
    decreases entries.len(),
{
    if entries.len() == 0 {
        assert(entries_map(entries).dom() =~= Set::<KeyView>::empty());
    } else {
        let front = entries.drop_last();
        let last = entries.last();
        assert(distinct_keys(front)) by {
            assert forall|i: int, j: int|
                0 <= i < front.len() && 0 <= j < front.len() && i != j implies front[i].key@
                != front[j].key@ by {
                assert(front[i] == entries[i] && front[j] == entries[j]);
            }
        }
        assert(!has_key(front, last.key@)) by {
            if has_key(front, last.key@) {
                let p = position_of(front, last.key@);
                assert(entries[p] == front[p]);
                assert(entries[p].key@ == entries[entries.len() - 1].key@);
            }
        }
        lemma_one_key_per_entry(front);
        lemma_push_inserts(front, last);
        assert(front.push(last) =~= entries);
        assert(entries_map(entries).dom() =~= entries_map(front).dom().insert(last.key@));
    }
}

/// Taking an entry out removes its key from the map.
pub proof fn lemma_remove_removes(entries: Seq<InFlightEntry>, i: int)
    requires
        distinct_keys(entries),
        0 <= i < entries.len(),
    ensures
        distinct_keys(entries.remove(i)),
        entries_map(entries.remove(i)) == entries_map(entries).remove(entries[i].key@),
{
    let after = entries.remove(i);
    assert forall|a: int| 0 <= a < after.len() implies after[a] == entries[if a < i {
        a
    } else {
        a + 1
    }] by {}
    assert forall|a: int, b: int|
        0 <= a < after.len() && 0 <= b < after.len() && a != b implies after[a].key@
        != after[b].key@ by {
        let a0 = if a < i { a } else { a + 1 };
        let b0 = if b < i { b } else { b + 1 };
        assert(after[a] == entries[a0] && after[b] == entries[b0]);
    }
    let want = entries_map(entries).remove(entries[i].key@);
    assert forall|k: KeyView| entries_map(after).dom().contains(k) <==> want.dom().contains(
        k,
    ) by {
        if has_key(after, k) {
            let p = position_of(after, k);
            let origin = if p < i { p } else { p + 1 };
            assert(after[p] == entries[origin]);
            assert(entries[origin].key@ == k);
            assert(origin != i);
        }
        if has_key(entries, k) && k != entries[i].key@ {
            let p = position_of(entries, k);
            let q = if p < i { p } else { p - 1 };
            assert(after[q] == entries[p]);
            assert(after[q].key@ == k);
        }
    }
    assert forall|k: KeyView| entries_map(after).dom().contains(k) implies entries_map(after)[k]
        == want[k] by {
        let p = position_of(after, k);
        let origin = if p < i { p } else { p + 1 };
        assert(after[p] == entries[origin]);
        lemma_entry_is_mapped(after, p);
        lemma_entry_is_mapped(entries, origin);
    }
    assert(entries_map(after) =~= want);
}

/// The opportunities in flight.
#[derive(Debug)]
pub struct InFlightSet {
    entries: Vec<InFlightEntry>,
}

impl View for InFlightSet {
    type V = Map<KeyView, Flight>;

    closed spec fn view(&self) -> Map<KeyView, Flight> {
        entries_map(self.entries@)
    }
}

impl InFlightSet {
    /// No key is held twice. Every operation keeps this.
    pub closed spec fn wf(&self) -> bool {
        distinct_keys(self.entries@)
    }

    /// How many opportunities are in flight.
    pub fn len(&self) -> (r: usize)
        requires
            self.wf(),
        ensures
            self@.dom().finite(),
            r == self@.dom().len(),
    {
        proof {
            lemma_one_key_per_entry(self.entries@);
        }
        self.entries.len()
    }

    /// The empty set.
    pub fn new() -> (r: InFlightSet)
        ensures
            r.wf(),
            r@ == Map::<KeyView, Flight>::empty(),
    {
        let r = InFlightSet { entries: Vec::new() };
        assert(r@ =~= Map::<KeyView, Flight>::empty());
        r
    }

    /// Where the entry with this key stands, if there is one.
    fn find(&self, key: &DedupKey) -> (r: Option<usize>)
        requires
            self.wf(),
        ensures
            match r {
                Some(i) => i < self.entries.len() && self.entries[i as int].key@ == key@,
                None => !has_key(self.entries@, key@),
            },
    {
        let mut i: usize = 0;
        while i < self.entries.len()
            invariant
                i <= self.entries.len(),
                forall|j: int| 0 <= j < i ==> self.entries[j].key@ != key@,
            decreases self.entries.len() - i,
        {
            if self.entries[i].key.same(key) {
                return Some(i);
            }
            i += 1;
        }
        None
    }

    /// Whether an opportunity with this key is in flight.
    pub fn contains(&self, key: &DedupKey) -> (r: bool)
        requires
            self.wf(),
        ensures
            r == self@.dom().contains(key@),
    {
        match self.find(key) {
            Some(_) => true,
            None => false,
        }
    }

    /// Whether nothing is in flight.
    pub fn is_empty(&self) -> (r: bool)
        requires
            self.wf(),
        ensures
            r == (self@ == Map::<KeyView, Flight>::empty()),
    {
        if self.entries.len() == 0 {
            assert(self@ =~= Map::<KeyView, Flight>::empty());
            true
        } else {
            proof {
                lemma_entry_is_mapped(self.entries@, 0);
            }
            false
        }
    }

    /// What is known of the opportunity with this key, if it is in flight.
    pub fn get(&self, key: &DedupKey) -> (r: Option<Flight>)
        requires
            self.wf(),
        ensures
            self@.dom().contains(key@) ==> r == Some(self@[key@]),
            !self@.dom().contains(key@) ==> r.is_none(),
    {
        match self.find(key) {
            Some(i) => {
                proof {
                    lemma_entry_is_mapped(self.entries@, i as int);
                }
                Some(self.entries[i].flight)
            },
            None => None,
        }
    }

    /// Puts an opportunity in flight. Returns `false`, and changes nothing,
    /// where its key is in flight already.
    pub fn insert(&mut self, key: DedupKey, flight: Flight) -> (r: bool)
        requires
            old(self).wf(),
        ensures
            final(self).wf(),
            r == !old(self)@.dom().contains(key@),
            r ==> final(self)@ == old(self)@.insert(key@, flight),
            !r ==> final(self)@ == old(self)@,
    {
        match self.find(&key) {
            Some(_) => false,
            None => {
                let entry = InFlightEntry { key, flight };
                proof {
                    lemma_push_inserts(self.entries@, entry);
                }
                self.entries.push(entry);
                true
            },
        }
    }

    /// Takes the opportunity with this key out of flight, and returns what
    /// was known of it.
    pub fn remove(&mut self, key: &DedupKey) -> (r: Option<Flight>)
        requires
            old(self).wf(),
        ensures
            final(self).wf(),
            old(self)@.dom().contains(key@) ==> r == Some(old(self)@[key@]),
            !old(self)@.dom().contains(key@) ==> r.is_none(),
            final(self)@ == old(self)@.remove(key@),
    {
        match self.find(key) {
            Some(i) => {
                proof {
                    lemma_entry_is_mapped(self.entries@, i as int);
                    lemma_remove_removes(self.entries@, i as int);
                }
                let entry = self.entries.remove(i);
                Some(entry.flight)
            },
            None => {
                assert(self@.remove(key@) =~= self@);
                None
            },
        }
    }

    /// Records new facts about the opportunity with this key. Returns
    /// `false`, and changes nothing, where it is not in flight.
    pub fn replace(&mut self, key: &DedupKey, flight: Flight) -> (r: bool)
        requires
            old(self).wf(),
        ensures
            final(self).wf(),
            r == old(self)@.dom().contains(key@),
            r ==> final(self)@ == old(self)@.insert(key@, flight),
            !r ==> final(self)@ == old(self)@,
    {
        match self.find(key) {
            Some(i) => {
                let ghost before = self@;
                proof {
                    lemma_entry_is_mapped(self.entries@, i as int);
                    lemma_remove_removes(self.entries@, i as int);
                }
                let entry = self.entries.remove(i);
                let renewed = InFlightEntry { key: entry.key, flight };
                proof {
                    assert(!has_key(self.entries@, renewed.key@)) by {
                        assert(!self@.dom().contains(key@));
                    }
                    lemma_push_inserts(self.entries@, renewed);
                    assert(before.remove(key@).insert(key@, flight) =~= before.insert(key@, flight));
                }
                self.entries.push(renewed);
                true
            },
            None => false,
        }
    }

    /// One more than the highest nonce held by an opportunity in flight, or
    /// zero where none is in flight.
    pub fn reserved_top(&self) -> (r: u64)
        requires
            self.wf(),
        ensures
            r == nonce_ceiling(self@),
            is_nonce_ceiling(self@, r),
    {
        let mut top: u64 = 0;
        let mut i: usize = 0;
        while i < self.entries.len()
            invariant
                self.wf(),
                i <= self.entries.len(),
                forall|j: int| 0 <= j < i ==> flight_end(self.entries[j].flight) <= top,
                top == 0 || exists|j: int| 0 <= j < i && flight_end(self.entries[j].flight) == top,
            decreases self.entries.len() - i,
        {
            let flight = self.entries[i].flight;
            let end = flight.first_nonce.saturating_add(flight.legs);
            if end > top {
                top = end;
            }
            i += 1;
        }
        proof {
            let m = self@;
            assert forall|k: KeyView| m.dom().contains(k) implies flight_end(m[k]) <= top by {
                let p = position_of(self.entries@, k);
                lemma_entry_is_mapped(self.entries@, p);
            }
            if top != 0 {
                let j = choose|j: int|
                    0 <= j < self.entries.len() && flight_end(self.entries[j].flight) == top;
                lemma_entry_is_mapped(self.entries@, j);
                assert(m.dom().contains(self.entries[j].key@));
            }
            lemma_ceiling_is_unique(m, top);
        }
        top
    }

    /// Drops every entry that has lapsed at chain head `head`, and returns how
    /// many were dropped.
    pub fn expire(&mut self, head: u64) -> (r: usize)
        requires
            old(self).wf(),
        ensures
            final(self).wf(),
            final(self)@ == unexpired(old(self)@, head),
            old(self)@.dom().finite(),
            final(self)@.dom().finite(),
            r == old(self)@.dom().len() - final(self)@.dom().len(),
    {
        proof {
            lemma_one_key_per_entry(self.entries@);
        }
        let ghost before = self@;
        let mut dropped: usize = 0;
        let mut i: usize = 0;
        while i < self.entries.len()
            invariant
                self.wf(),
                i <= self.entries.len(),
                i + dropped <= old(self).entries.len(),
                self.entries.len() + dropped == old(self).entries.len(),
                before == old(self)@,
                forall|j: int| 0 <= j < i ==> self.entries[j].flight.expires_at >= head,
                forall|k: KeyView| #[trigger]
                    self@.dom().contains(k) ==> before.dom().contains(k) && before[k] == self@[k],
                forall|k: KeyView| #[trigger]
                    before.dom().contains(k) && before[k].expires_at >= head ==> self@.dom().contains(
                        k,
                    ),
            decreases self.entries.len() - i,
        {
            if self.entries[i].flight.expires_at < head {
                let ghost gone = self.entries[i as int].key@;
                let ghost pre = self@;
                let ghost pre_entries = self.entries@;
                proof {
                    lemma_entry_is_mapped(pre_entries, i as int);
                    lemma_remove_removes(pre_entries, i as int);
                    assert(pre.dom().contains(gone));
                    assert(before.dom().contains(gone) && before[gone].expires_at < head);
                }
                let _ = self.entries.remove(i);
                dropped += 1;
                proof {
                    assert(self@ == pre.remove(gone));
                    assert forall|k: KeyView| self@.dom().contains(k) implies before.dom().contains(
                        k,
                    ) && before[k] == self@[k] by {
                        assert(pre.dom().contains(k));
                    }
                    assert forall|k: KeyView|
                        before.dom().contains(k) && before[k].expires_at >= head implies self@.dom().contains(
                        k,
                    ) by {
                        assert(pre.dom().contains(k));
                    }
                    assert forall|j: int| 0 <= j < i implies self.entries[j].flight.expires_at
                        >= head by {
                        assert(self.entries[j] == pre_entries[j]);
                    }
                }
            } else {
                i += 1;
            }
        }
        proof {
            assert forall|k: KeyView| self@.dom().contains(k) implies before[k].expires_at
                >= head by {
                let p = position_of(self.entries@, k);
                lemma_entry_is_mapped(self.entries@, p);
            }
            assert(self@ =~= unexpired(before, head));
            lemma_one_key_per_entry(self.entries@);
        }
        dropped
    }
}

/// The entries of `m` that have not lapsed at chain head `head`.
pub open spec fn unexpired(m: Map<KeyView, Flight>, head: u64) -> Map<KeyView, Flight> {
    Map::new(|k: KeyView| m.dom().contains(k) && m[k].expires_at >= head, |k: KeyView| m[k])
}

/// One more than the last nonce that a flight holds, capped at the largest
/// nonce.
pub open spec fn flight_end(f: Flight) -> u64 {
    if f.first_nonce + f.legs > u64::MAX {
        u64::MAX
    } else {
        (f.first_nonce + f.legs) as u64
    }
}

/// `top` is zero where nothing is in flight, and else the largest
/// `flight_end` of the flights in `m`.
pub open spec fn is_nonce_ceiling(m: Map<KeyView, Flight>, top: u64) -> bool {
    &&& forall|k: KeyView| m.dom().contains(k) ==> flight_end(#[trigger] m[k]) <= top
    &&& top == 0 || exists|k: KeyView| m.dom().contains(k) && flight_end(#[trigger] m[k]) == top
}

/// One more than the highest nonce held by a flight in `m`, or zero.
pub open spec fn nonce_ceiling(m: Map<KeyView, Flight>) -> u64 {
    choose|top: u64| is_nonce_ceiling(m, top)
}

/// There is one ceiling at most.
pub proof fn lemma_ceiling_is_unique(m: Map<KeyView, Flight>, top: u64)
    requires
        is_nonce_ceiling(m, top),
    ensures
        nonce_ceiling(m) == top,
{
    let other = nonce_ceiling(m);
    assert(is_nonce_ceiling(m, other));
    if other < top {
        let k = choose|k: KeyView| m.dom().contains(k) && flight_end(#[trigger] m[k]) == top;
        assert(flight_end(m[k]) <= other);
    } else if top < other {
        let k = choose|k: KeyView| m.dom().contains(k) && flight_end(#[trigger] m[k]) == other;
        assert(flight_end(m[k]) <= top);
    }
}

} // verus!
