//! The bid ledger: an insertion-ordered mapping from bidder identity to
//! (amount, synthetic-flag), with at most one entry per bidder.
//!
//! Ties are broken deterministically by insertion order: among entries with
//! an equal amount, `max_by_key` and `get_lowest_bid` both pick the earliest
//! inserted one.

use vstd::prelude::*;

use crate::account::AccountId;

verus! {

/// One standing bid. A synthetic entry is an administrator-asserted bid
/// backed by no funds in the auction's funds container.
#[derive(Clone, Copy, Debug)]
pub struct BidEntry {
    pub bidder: AccountId,
    pub amount: u64,
    pub synthetic: bool,
}

/// No bidder appears twice.
pub open spec fn unique_bidders(s: Seq<BidEntry>) -> bool {
    forall|i: int, j: int| 0 <= i < j < s.len() ==> s[i].bidder@ != s[j].bidder@
}

/// The (amount, synthetic) pair of the first entry for `id`, if any.
pub open spec fn entry_for(s: Seq<BidEntry>, id: Seq<u8>) -> Option<(u64, bool)>
    decreases s.len(),
{
    if s.len() == 0 {
        None
    } else if s[0].bidder@ == id {
        Some((s[0].amount, s[0].synthetic))
    } else {
        entry_for(s.subrange(1, s.len() as int), id)
    }
}

/// The index of the first entry for `id`; `s.len()` when there is none.
pub open spec fn index_of(s: Seq<BidEntry>, id: Seq<u8>) -> int
    decreases s.len(),
{
    if s.len() == 0 {
        0
    } else if s[0].bidder@ == id {
        0
    } else {
        1 + index_of(s.subrange(1, s.len() as int), id)
    }
}

/// The index `max_by_key` picks: the first entry holding the maximum amount.
pub open spec fn max_index(s: Seq<BidEntry>) -> int
    decreases s.len(),
{
    if s.len() <= 1 {
        0
    } else {
        let m = max_index(s.drop_last());
        if s.last().amount > s[m].amount {
            s.len() - 1
        } else {
            m
        }
    }
}

/// The index `get_lowest_bid` picks: the first entry holding the minimum
/// amount.
pub open spec fn min_index(s: Seq<BidEntry>) -> int
    decreases s.len(),
{
    if s.len() <= 1 {
        0
    } else {
        let m = min_index(s.drop_last());
        if s.last().amount < s[m].amount {
            s.len() - 1
        } else {
            m
        }
    }
}

/// The ledger after recording a bid for a bidder who may or may not
/// already hold an entry: an existing entry is overwritten in place, a new
/// bidder lands at the end.
pub open spec fn upsert_entry(
    s: Seq<BidEntry>,
    bidder: AccountId,
    amount: u64,
    synthetic: bool,
) -> Seq<BidEntry> {
    match entry_for(s, bidder@) {
        Some(_) => s.update(index_of(s, bidder@), BidEntry { bidder, amount, synthetic }),
        None => s.push(BidEntry { bidder, amount, synthetic }),
    }
}

/// Recording a bid keeps the ledger duplicate-free and makes that bid the
/// bidder's standing entry.
pub proof fn lemma_upsert_entry_props(s: Seq<BidEntry>, bidder: AccountId, amount: u64, synthetic: bool)
    requires
        unique_bidders(s),
    ensures
        unique_bidders(upsert_entry(s, bidder, amount, synthetic)),
        entry_for(upsert_entry(s, bidder, amount, synthetic), bidder@) == Some(
            (amount, synthetic),
        ),
        index_of(upsert_entry(s, bidder, amount, synthetic), bidder@) == (if entry_for(
            s,
            bidder@,
        ) is Some {
            index_of(s, bidder@)
        } else {
            s.len() as int
        }),
{
    lemma_entry_for_props(s, bidder@);
    let u = upsert_entry(s, bidder, amount, synthetic);
    if entry_for(s, bidder@) is Some {
        let k = index_of(s, bidder@);
        assert forall|p: int, q: int| 0 <= p < q < u.len() implies u[p].bidder@
            != u[q].bidder@ by {
            assert(u[p].bidder@ == s[p].bidder@ && u[q].bidder@ == s[q].bidder@);
        }
        lemma_entry_at_index(u, k);
    } else {
        assert forall|p: int, q: int| 0 <= p < q < u.len() implies u[p].bidder@
            != u[q].bidder@ by {
            if q == u.len() - 1 {
                assert(u[p] == s[p]);
                assert(s[p].bidder@ != bidder@);
            } else {
                assert(u[p] == s[p] && u[q] == s[q]);
            }
        }
        lemma_entry_at_index(u, u.len() - 1);
    }
}

/// The value held in the auction's funds container on behalf of the ledger:
/// the sum of all non-synthetic amounts.
pub open spec fn ledger_funds(s: Seq<BidEntry>) -> int
    decreases s.len(),
{
    if s.len() == 0 {
        0
    } else {
        ledger_funds(s.drop_last()) + if s.last().synthetic {
            0
        } else {
            s.last().amount as int
        }
    }
}

pub proof fn lemma_entry_for_props(s: Seq<BidEntry>, id: Seq<u8>)
    ensures
        (entry_for(s, id) is Some) <==> (exists|i: int|
            0 <= i < s.len() && s[i].bidder@ == id),
        entry_for(s, id) is Some ==> {
            let k = index_of(s, id);
            &&& 0 <= k < s.len()
            &&& s[k].bidder@ == id
            &&& entry_for(s, id) == Some((s[k].amount, s[k].synthetic))
            &&& forall|j: int| 0 <= j < k ==> s[j].bidder@ != id
        },
        (entry_for(s, id) is None) ==> index_of(s, id) == s.len(),
    decreases s.len(),
{
    if s.len() == 0 {
    } else if s[0].bidder@ == id {
    } else {
        let t = s.subrange(1, s.len() as int);
        lemma_entry_for_props(t, id);
        assert forall|i: int| 0 <= i < s.len() && s[i].bidder@ == id implies entry_for(
            s,
            id,
        ) is Some by {
            assert(t[i - 1] == s[i]);
        }
        if entry_for(s, id) is Some {
            let k = index_of(s, id);
            let kt = index_of(t, id);
            assert(k == 1 + kt);
            assert(s[k] == t[kt]);
            assert forall|j: int| 0 <= j < k implies s[j].bidder@ != id by {
                if j > 0 {
                    assert(t[j - 1] == s[j]);
                }
            }
        }
    }
}

/// In a duplicate-free ledger, the entry found for the bidder at any index
/// is that index's own entry.
pub proof fn lemma_entry_at_index(s: Seq<BidEntry>, i: int)
    requires
        unique_bidders(s),
        0 <= i < s.len(),
    ensures
        entry_for(s, s[i].bidder@) == Some((s[i].amount, s[i].synthetic)),
        index_of(s, s[i].bidder@) == i,
{
    lemma_entry_for_props(s, s[i].bidder@);
    let k = index_of(s, s[i].bidder@);
    if k != i {
        assert(s[k].bidder@ == s[i].bidder@);
    }
}

pub proof fn lemma_max_index_props(s: Seq<BidEntry>)
    requires
        s.len() > 0,
    ensures
        0 <= max_index(s) < s.len(),
        forall|j: int| 0 <= j < s.len() ==> (#[trigger] s[j]).amount <= s[max_index(s)].amount,
        forall|j: int|
            0 <= j < s.len() && (#[trigger] s[j]).amount == s[max_index(s)].amount ==> max_index(s) <= j,
    decreases s.len(),
{
    if s.len() > 1 {
        lemma_max_index_props(s.drop_last());
        assert forall|j: int| 0 <= j < s.len() implies (#[trigger] s[j]).amount <= s[max_index(s)].amount by {
            if j < s.len() - 1 {
                assert(s.drop_last()[j] == s[j]);
            }
        }
        assert forall|j: int|
            0 <= j < s.len() && (#[trigger] s[j]).amount == s[max_index(s)].amount implies max_index(s)
            <= j by {
            if j < s.len() - 1 {
                assert(s.drop_last()[j] == s[j]);
            }
        }
    }
}

pub proof fn lemma_min_index_props(s: Seq<BidEntry>)
    requires
        s.len() > 0,
    ensures
        0 <= min_index(s) < s.len(),
        forall|j: int| 0 <= j < s.len() ==> s[min_index(s)].amount <= (#[trigger] s[j]).amount,
        forall|j: int|
            0 <= j < s.len() && (#[trigger] s[j]).amount == s[min_index(s)].amount ==> min_index(s) <= j,
    decreases s.len(),
{
    if s.len() > 1 {
        lemma_min_index_props(s.drop_last());
        assert forall|j: int| 0 <= j < s.len() implies s[min_index(s)].amount <= (#[trigger] s[j]).amount by {
            if j < s.len() - 1 {
                assert(s.drop_last()[j] == s[j]);
            }
        }
        assert forall|j: int|
            0 <= j < s.len() && (#[trigger] s[j]).amount == s[min_index(s)].amount implies min_index(s)
            <= j by {
            if j < s.len() - 1 {
                assert(s.drop_last()[j] == s[j]);
            }
        }
    }
}

/// The ordered bid ledger.
#[derive(Debug)]
pub struct Bids {
    entries: Vec<BidEntry>,
}

impl View for Bids {
    type V = Seq<BidEntry>;

    closed spec fn view(&self) -> Seq<BidEntry> {
        self.entries@
    }
}

impl Bids {
    /// Each bidder holds at most one entry.
    pub open spec fn wf(&self) -> bool {
        unique_bidders(self@)
    }

    /// An empty ledger.
    pub fn new() -> (r: Bids)
        ensures
            r@ == Seq::<BidEntry>::empty(),
            r.wf(),
    {
        Bids { entries: Vec::new() }
    }

    pub fn len(&self) -> (r: usize)
        ensures
            r == self@.len(),
    {
        self.entries.len()
    }

    pub fn is_empty(&self) -> (r: bool)
        ensures
            r == (self@.len() == 0),
    {
        self.entries.is_empty()
    }

    /// The entry at a ledger position, in insertion order.
    pub fn entry_at(&self, i: usize) -> (r: &BidEntry)
        requires
            i < self@.len(),
        ensures
            *r == self@[i as int],
    {
        &self.entries[i]
    }

    /// The standing (amount, synthetic) pair of a bidder.
    pub fn get(&self, bidder: &AccountId) -> (r: Option<(u64, bool)>)
        ensures
            r == entry_for(self@, bidder@),
    {
        proof {
            lemma_entry_for_props(self@, bidder@);
        }
        let ghost k = index_of(self@, bidder@);
        let n = self.entries.len();
        let mut i: usize = 0;
        while i < n
            invariant
                n == self@.len(),
                i <= n,
                i <= k,
                k == index_of(self@, bidder@),
                entry_for(self@, bidder@) is Some ==> k < n && self@[k].bidder@ == bidder@
                    && entry_for(self@, bidder@) == Some((self@[k].amount, self@[k].synthetic)),
                entry_for(self@, bidder@) is None ==> k == n,
                forall|j: int| 0 <= j < k ==> self@[j].bidder@ != bidder@,
            decreases n - i,
        {
            let e = &self.entries[i];
            if e.bidder.same(bidder) {
                proof {
                    if entry_for(self@, bidder@) is None {
                        assert(i < k);
                        assert(self@[i as int].bidder@ != bidder@);
                    }
                    if i < k {
                        assert(self@[i as int].bidder@ != bidder@);
                    }
                    assert(i == k);
                }
                return Some((e.amount, e.synthetic));
            }
            proof {
                if i == k {
                    assert(self@[k].bidder@ == bidder@);
                }
            }
            i += 1;
        }
        None
    }

    /// Record a first bid for a new bidder at the end of the ledger.
    pub fn insert(&mut self, bidder: &AccountId, amount: u64, synthetic: bool)
        requires
            old(self).wf(),
            entry_for(old(self)@, bidder@) is None,
        ensures
            final(self)@ == old(self)@.push(
                BidEntry { bidder: *bidder, amount, synthetic },
            ),
            final(self).wf(),
    {
        proof {
            lemma_entry_for_props(self@, bidder@);
        }
        self.entries.push(BidEntry { bidder: *bidder, amount, synthetic });
        proof {
            let s = self@;
            assert forall|i: int, j: int| 0 <= i < j < s.len() implies s[i].bidder@
                != s[j].bidder@ by {
                if j == s.len() - 1 {
                    assert(s[i].bidder@ != bidder@);
                }
            }
        }
    }

    /// Overwrite the standing bid of an existing bidder, keeping its place.
    pub fn replace(&mut self, bidder: &AccountId, amount: u64, synthetic: bool)
        requires
            old(self).wf(),
            entry_for(old(self)@, bidder@) is Some,
        ensures
            final(self)@ == old(self)@.update(
                index_of(old(self)@, bidder@),
                BidEntry { bidder: *bidder, amount, synthetic },
            ),
            final(self).wf(),
    {
        broadcast use vstd::seq_lib::lemma_update_is_remove_insert;

        proof {
            lemma_entry_for_props(self@, bidder@);
        }
        let ghost s0 = self@;
        let ghost k = index_of(s0, bidder@);
        let n = self.entries.len();
        let mut i: usize = 0;
        while i < n
            invariant
                self@ == s0,
                old(self)@ == s0,
                n == s0.len(),
                i <= n,
                i <= k,
                k == index_of(s0, bidder@),
                0 <= k < n,
                s0[k].bidder@ == bidder@,
                unique_bidders(s0),
                forall|j: int| 0 <= j < k ==> s0[j].bidder@ != bidder@,
            decreases n - i,
        {
            let e = &self.entries[i];
            if e.bidder.same(bidder) {
                proof {
                    if i < k {
                        assert(s0[i as int].bidder@ != bidder@);
                    }
                    assert(i == k);
                }
                let e2 = BidEntry { bidder: *bidder, amount, synthetic };
                self.entries.remove(i);
                self.entries.insert(i, e2);
                proof {
                    assert(self@ == s0.update(i as int, e2));
                    let s = self@;
                    assert forall|p: int, q: int| 0 <= p < q < s.len() implies s[p].bidder@
                        != s[q].bidder@ by {
                        if p != i && q != i {
                            assert(s[p] == s0[p] && s[q] == s0[q]);
                        } else if p == i {
                            assert(s[p].bidder@ == bidder@ && s0[p].bidder@ == bidder@ && s[q] == s0[q]);
                        } else {
                            assert(s[q].bidder@ == bidder@ && s0[q].bidder@ == bidder@ && s[p] == s0[p]);
                        }
                    }
                }
                return ;
            }
            proof {
                if i == k {
                    assert(s0[k].bidder@ == bidder@);
                }
            }
            i += 1;
        }
    }

    /// Remove a bidder's entry, closing the gap.
    pub fn remove_by_key(&mut self, bidder: &AccountId)
        requires
            old(self).wf(),
            entry_for(old(self)@, bidder@) is Some,
        ensures
            final(self)@ == old(self)@.remove(index_of(old(self)@, bidder@)),
            final(self).wf(),
    {
        proof {
            lemma_entry_for_props(self@, bidder@);
        }
        let ghost s0 = self@;
        let ghost k = index_of(s0, bidder@);
        let n = self.entries.len();
        let mut i: usize = 0;
        while i < n
            invariant
                self@ == s0,
                old(self)@ == s0,
                n == s0.len(),
                i <= n,
                i <= k,
                k == index_of(s0, bidder@),
                0 <= k < n,
                s0[k].bidder@ == bidder@,
                unique_bidders(s0),
                forall|j: int| 0 <= j < k ==> s0[j].bidder@ != bidder@,
            decreases n - i,
        {
            let e = &self.entries[i];
            if e.bidder.same(bidder) {
                proof {
                    if i < k {
                        assert(s0[i as int].bidder@ != bidder@);
                    }
                    assert(i == k);
                }
                self.entries.remove(i);
                proof {
                    let s = self@;
                    assert forall|p: int, q: int| 0 <= p < q < s.len() implies s[p].bidder@
                        != s[q].bidder@ by {
                        let p0 = if p < i { p } else { p + 1 };
                        let q0 = if q < i { q } else { q + 1 };
                        assert(s[p] == s0[p0] && s[q] == s0[q0]);
                    }
                }
                return ;
            }
            proof {
                if i == k {
                    assert(s0[k].bidder@ == bidder@);
                }
            }
            i += 1;
        }
    }

    /// The current best bid: the greatest amount, earliest entry on a tie.
    /// Returns `(None, None, false)` on an empty ledger.
    pub fn max_by_key(&self) -> (r: (Option<AccountId>, Option<u64>, bool))
        ensures
            self@.len() == 0 ==> r == (None::<AccountId>, None::<u64>, false),
            self@.len() > 0 ==> {
                let e = self@[max_index(self@)];
                r == (Some(e.bidder), Some(e.amount), e.synthetic)
            },
    {
        let n = self.entries.len();
        if n == 0 {
            return (None, None, false);
        }
        let mut best: usize = 0;
        let mut i: usize = 1;
        while i < n
            invariant
                n == self@.len(),
                1 <= i <= n,
                best == max_index(self@.subrange(0, i as int)),
                best < i,
            decreases n - i,
        {
            let ghost pre = self@.subrange(0, i as int);
            let ghost cur = self@.subrange(0, i + 1 as int);
            proof {
                assert(cur.drop_last() =~= pre);
                assert(cur.last() == self@[i as int]);
            }
            if self.entries[i].amount > self.entries[best].amount {
                best = i;
            }
            i += 1;
        }
        proof {
            assert(self@.subrange(0, n as int) =~= self@);
        }
        let e = &self.entries[best];
        (Some(e.bidder), Some(e.amount), e.synthetic)
    }

    /// The entry a cap eviction would remove: the smallest amount, earliest
    /// entry on a tie, and only when that amount is beaten by the candidate.
    pub fn get_lowest_bid(&self, candidate_amount: u64) -> (r: Option<(AccountId, (u64, bool))>)
        ensures
            r == (if self@.len() > 0 && self@[min_index(self@)].amount < candidate_amount {
                let e = self@[min_index(self@)];
                Some((e.bidder, (e.amount, e.synthetic)))
            } else {
                None::<(AccountId, (u64, bool))>
            }),
    {
        let n = self.entries.len();
        if n == 0 {
            return None;
        }
        let mut low: usize = 0;
        let mut i: usize = 1;
        while i < n
            invariant
                n == self@.len(),
                1 <= i <= n,
                low == min_index(self@.subrange(0, i as int)),
                low < i,
            decreases n - i,
        {
            let ghost pre = self@.subrange(0, i as int);
            let ghost cur = self@.subrange(0, i + 1 as int);
            proof {
                assert(cur.drop_last() =~= pre);
                assert(cur.last() == self@[i as int]);
            }
            if self.entries[i].amount < self.entries[low].amount {
                low = i;
            }
            i += 1;
        }
        proof {
            assert(self@.subrange(0, n as int) =~= self@);
        }
        let e = &self.entries[low];
        if e.amount < candidate_amount {
            Some((e.bidder, (e.amount, e.synthetic)))
        } else {
            None
        }
    }

    /// Record a bid whether or not the bidder already holds an entry.
    pub fn upsert(&mut self, bidder: &AccountId, amount: u64, synthetic: bool)
        requires
            old(self).wf(),
        ensures
            final(self)@ == upsert_entry(old(self)@, *bidder, amount, synthetic),
            final(self).wf(),
            entry_for(final(self)@, bidder@) == Some((amount, synthetic)),
    {
        let existing = self.get(bidder);
        if existing.is_some() {
            proof {
                lemma_entry_for_props(self@, bidder@);
            }
            self.replace(bidder, amount, synthetic);
            proof {
                lemma_entry_at_index(self@, index_of(old(self)@, bidder@));
            }
        } else {
            self.insert(bidder, amount, synthetic);
            proof {
                lemma_entry_at_index(self@, self@.len() - 1);
            }
        }
    }

    /// Empty the ledger.
    pub fn clear(&mut self)
        ensures
            final(self)@ == Seq::<BidEntry>::empty(),
            final(self).wf(),
    {
        self.entries.clear();
        proof {
            assert(final(self)@ =~= Seq::<BidEntry>::empty());
        }
    }
}

} // verus!
