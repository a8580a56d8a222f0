//! The detached gift/escrow flow: a token is recorded for deferred claim
//! or cancellation, and the record is consumed exactly once.

use vstd::prelude::*;

use crate::account::{AccountId, CollectionRef};
use crate::error::AuctionError;
use crate::events::{emit, AuctionEvent, EventLog};

verus! {

/// One escrowed token: who gifted it and which collection holds it.
#[derive(Clone, Copy, Debug)]
pub struct GiftRecord {
    pub sender: AccountId,
    pub collection: CollectionRef,
}

/// The token movement the host must perform after a claim or a
/// cancellation.
#[derive(Debug)]
pub struct GiftTransfer {
    pub recipient: AccountId,
    pub token_id: String,
    pub collection: CollectionRef,
}

/// The record stored for a token identifier, if any.
pub open spec fn gift_for(s: Seq<(String, GiftRecord)>, id: Seq<char>) -> Option<GiftRecord>
    decreases s.len(),
{
    if s.len() == 0 {
        None
    } else if s[0].0@ == id {
        Some(s[0].1)
    } else {
        gift_for(s.subrange(1, s.len() as int), id)
    }
}

/// The index of the record for a token identifier; `s.len()` when absent.
pub open spec fn gift_index_of(s: Seq<(String, GiftRecord)>, id: Seq<char>) -> int
    decreases s.len(),
{
    if s.len() == 0 {
        0
    } else if s[0].0@ == id {
        0
    } else {
        1 + gift_index_of(s.subrange(1, s.len() as int), id)
    }
}

/// No token identifier is recorded twice.
pub open spec fn unique_gifts(s: Seq<(String, GiftRecord)>) -> bool {
    forall|i: int, j: int| 0 <= i < j < s.len() ==> s[i].0@ != s[j].0@
}

proof fn lemma_gift_for_props(s: Seq<(String, GiftRecord)>, id: Seq<char>)
    ensures
        (gift_for(s, id) is Some) <==> (exists|i: int| 0 <= i < s.len() && s[i].0@ == id),
        gift_for(s, id) is Some ==> {
            let k = gift_index_of(s, id);
            &&& 0 <= k < s.len()
            &&& s[k].0@ == id
            &&& gift_for(s, id) == Some(s[k].1)
            &&& forall|j: int| 0 <= j < k ==> s[j].0@ != id
        },
        (gift_for(s, id) is None) ==> gift_index_of(s, id) == s.len(),
    decreases s.len(),
{
    if s.len() == 0 {
    } else if s[0].0@ == id {
    } else {
        let t = s.subrange(1, s.len() as int);
        lemma_gift_for_props(t, id);
        assert forall|i: int| 0 <= i < s.len() && s[i].0@ == id implies gift_for(
            s,
            id,
        ) is Some by {
            assert(t[i - 1] == s[i]);
        }
        if gift_for(s, id) is Some {
            let k = gift_index_of(s, id);
            let kt = gift_index_of(t, id);
            assert(s[k] == t[kt]);
            assert forall|j: int| 0 <= j < k implies s[j].0@ != id by {
                if j > 0 {
                    assert(t[j - 1] == s[j]);
                }
            }
        }
    }
}

/// The gift contract's own persisted state: the escrow records, the
/// administrator allowed to drive the flow, and the event log.
pub struct GiftStore {
    pub records: Vec<(String, GiftRecord)>,
    pub admin: AccountId,
    pub events: EventLog,
}

impl GiftStore {
    /// The escrow records, in recording order.
    pub open spec fn records_view(&self) -> Seq<(String, GiftRecord)> {
        self.records@
    }

    pub open spec fn wf(&self) -> bool {
        unique_gifts(self.records_view())
    }

    /// An empty store driven by the given administrator.
    pub fn new(admin: AccountId) -> (r: GiftStore)
        ensures
            r.records_view() == Seq::<(String, GiftRecord)>::empty(),
            r.admin == admin,
            r.events@ == Seq::<AuctionEvent>::empty(),
            r.wf(),
    {
        GiftStore { records: Vec::new(), admin, events: EventLog::new() }
    }

    /// The record stored for a token, if any.
    pub fn get(&self, token_id: &String) -> (r: Option<GiftRecord>)
        ensures
            r == gift_for(self.records_view(), token_id@),
    {
        proof {
            lemma_gift_for_props(self.records_view(), token_id@);
        }
        let ghost s = self.records_view();
        let ghost k = gift_index_of(s, token_id@);
        let n = self.records.len();
        let mut i: usize = 0;
        while i < n
            invariant
                i <= n,
                n == s.len(),
                s == self.records_view(),
                k == gift_index_of(s, token_id@),
                gift_for(s, token_id@) is Some ==> k < n && s[k].0@ == token_id@ && gift_for(
                    s,
                    token_id@,
                ) == Some(s[k].1),
                gift_for(s, token_id@) is None ==> k == n,
                forall|j: int| 0 <= j < k ==> s[j].0@ != token_id@,
                i <= k,
            decreases n - i,
        {
            if self.records[i].0 == *token_id {
                proof {
                    if i < k {
                        assert(s[i as int].0@ != token_id@);
                    }
                    if gift_for(s, token_id@) is None {
                        assert(s[i as int].0@ != token_id@);
                    }
                    assert(i == k);
                }
                return Some(self.records[i].1);
            }
            proof {
                if i == k {
                    assert(s[k].0@ == token_id@);
                }
            }
            i += 1;
        }
        None
    }

    /// Store a record under a token identifier, overwriting in place any
    /// record that identifier already has.
    fn set(&mut self, token_id: String, record: GiftRecord)
        requires
            old(self).wf(),
        ensures
            final(self).records_view() == (match gift_for(old(self).records_view(), token_id@) {
                Some(_) => old(self).records_view().update(
                    gift_index_of(old(self).records_view(), token_id@),
                    (token_id, record),
                ),
                None => old(self).records_view().push((token_id, record)),
            }),
            final(self).wf(),
            gift_for(final(self).records_view(), token_id@) is Some,
            final(self).admin == old(self).admin,
            final(self).events == old(self).events,
    {
        proof {
            lemma_gift_for_props(self.records_view(), token_id@);
        }
        let ghost s0 = self.records_view();
        let ghost k = gift_index_of(s0, token_id@);
        let n = self.records.len();
        let mut i: usize = 0;
        while i < n
            invariant
                i <= n,
                n == s0.len(),
                s0 == self.records_view(),
                *self == *old(self),
                k == gift_index_of(s0, token_id@),
                gift_for(s0, token_id@) is Some ==> k < n && s0[k].0@ == token_id@,
                gift_for(s0, token_id@) is None ==> k == n,
                forall|j: int| 0 <= j < k ==> s0[j].0@ != token_id@,
                i <= k,
                unique_gifts(s0),
            decreases n - i,
        {
            if self.records[i].0 == *&token_id {
                proof {
                    if i < k {
                        assert(s0[i as int].0@ != token_id@);
                    }
                    if gift_for(s0, token_id@) is None {
                        assert(s0[i as int].0@ != token_id@);
                    }
                    assert(i == k);
                }
                let ghost idv = token_id@;
                self.records.remove(i);
                self.records.insert(i, (token_id, record));
                proof {
                    assert(self.records_view() =~= s0.update(i as int, (token_id, record)));
                    assert(self.records_view()[i as int].0@ == idv);
                    let s = self.records_view();
                    assert forall|p: int, q: int| 0 <= p < q < s.len() implies s[p].0@
                        != s[q].0@ by {
                        if p != i && q != i {
                            assert(s[p] == s0[p] && s[q] == s0[q]);
                        } else if p == i {
                            assert(s[p].0@ == idv && s0[p].0@ == idv && s[q] == s0[q]);
                        } else {
                            assert(s[q].0@ == idv && s0[q].0@ == idv && s[p] == s0[p]);
                        }
                    }
                    lemma_gift_for_props(s, idv);
                    assert(gift_for(s, idv) is Some);
                }
                return ;
            }
            proof {
                if i == k {
                    assert(s0[k].0@ == token_id@);
                }
            }
            i += 1;
        }
        let ghost idv = token_id@;
        self.records.push((token_id, record));
        proof {
            let s = self.records_view();
            assert forall|p: int, q: int| 0 <= p < q < s.len() implies s[p].0@ != s[q].0@ by {
                if q == s.len() - 1 {
                    assert(s[p] == s0[p]);
                    assert(s0[p].0@ != idv);
                } else {
                    assert(s[p] == s0[p] && s[q] == s0[q]);
                }
            }
            lemma_gift_for_props(s, idv);
            assert(s[s.len() - 1].0@ == idv);
        }
    }

    /// Remove the record of a token identifier.
    fn remove(&mut self, token_id: &String)
        requires
            old(self).wf(),
            gift_for(old(self).records_view(), token_id@) is Some,
        ensures
            final(self).records_view() == old(self).records_view().remove(
                gift_index_of(old(self).records_view(), token_id@),
            ),
            final(self).wf(),
            final(self).admin == old(self).admin,
            final(self).events == old(self).events,
    {
        proof {
            lemma_gift_for_props(self.records_view(), token_id@);
        }
        let ghost s0 = self.records_view();
        let ghost k = gift_index_of(s0, token_id@);
        let n = self.records.len();
        let mut i: usize = 0;
        while i < n
            invariant
                i <= n,
                n == s0.len(),
                s0 == self.records_view(),
                *self == *old(self),
                k == gift_index_of(s0, token_id@),
                0 <= k < n,
                s0[k].0@ == token_id@,
                forall|j: int| 0 <= j < k ==> s0[j].0@ != token_id@,
                i <= k,
                unique_gifts(s0),
            decreases n - i,
        {
            if self.records[i].0 == *token_id {
                proof {
                    if i < k {
                        assert(s0[i as int].0@ != token_id@);
                    }
                    assert(i == k);
                }
                self.records.remove(i);
                proof {
                    let s = self.records_view();
                    assert forall|p: int, q: int| 0 <= p < q < s.len() implies s[p].0@
                        != s[q].0@ by {
                        let p0 = if p < i {
                            p
                        } else {
                            p + 1
                        };
                        let q0 = if q < i {
                            q
                        } else {
                            q + 1
                        };
                        assert(s[p] == s0[p0] && s[q] == s0[q0]);
                    }
                }
                return ;
            }
            proof {
                if i == k {
                    assert(s0[k].0@ == token_id@);
                }
            }
            i += 1;
        }
        proof {
            assert(s0[k].0@ == token_id@);
            assert(false);
        }
    }
}

/// The escrow flow.
pub struct Gift;

impl Gift {
    /// Record a gifted token: the sender and its collection are stored
    /// under the token identifier until exactly one claim or cancellation
    /// consumes them.
    pub fn gift(
        store: &mut GiftStore,
        sender: AccountId,
        token_id: String,
        token_package_hash: CollectionRef,
    )
        requires
            old(store).wf(),
        ensures
            final(store).wf(),
            final(store).records_view() == (match gift_for(
                old(store).records_view(),
                token_id@,
            ) {
                Some(_) => old(store).records_view().update(
                    gift_index_of(old(store).records_view(), token_id@),
                    (token_id, GiftRecord { sender, collection: token_package_hash }),
                ),
                None => old(store).records_view().push(
                    (token_id, GiftRecord { sender, collection: token_package_hash }),
                ),
            }),
            gift_for(final(store).records_view(), token_id@) is Some,
            final(store).events@ == old(store).events@.push(
                AuctionEvent::Gifted { account: sender, token_id },
            ),
            final(store).admin == old(store).admin,
    {
        let record = GiftRecord { sender, collection: token_package_hash };
        let event_id = token_id.clone();
        store.set(token_id, record);
        emit(&mut store.events, AuctionEvent::Gifted { account: sender, token_id: event_id });
    }

    /// Claim a gifted token for a receiver: the record is removed before
    /// the transfer instruction is handed out, so a second claim or
    /// cancellation fails with `TokenNotFound`.
    pub fn claim(store: &mut GiftStore, receiver: AccountId, token_id: String) -> (r: Result<
        GiftTransfer,
        AuctionError,
    >)
        requires
            old(store).wf(),
        ensures
            final(store).wf(),
            final(store).admin == old(store).admin,
            r matches Err(e) ==> {
                &&& *final(store) == *old(store)
                &&& gift_for(old(store).records_view(), token_id@) is None
                &&& e == AuctionError::TokenNotFound
            },
            r matches Ok(out) ==> {
                &&& gift_for(old(store).records_view(), token_id@) matches Some(rec)
                &&& out.recipient == receiver
                &&& out.token_id@ == token_id@
                &&& out.collection == gift_for(
                    old(store).records_view(),
                    token_id@,
                ).unwrap().collection
                &&& final(store).records_view() == old(store).records_view().remove(
                    gift_index_of(old(store).records_view(), token_id@),
                )
                &&& gift_for(final(store).records_view(), token_id@) is None
                &&& final(store).events@ == old(store).events@.push(
                    AuctionEvent::Claimed { account: receiver, token_id },
                )
            },
    {
        let record = match store.get(&token_id) {
            Some(rec) => rec,
            None => {
                return Err(AuctionError::TokenNotFound);
            },
        };
        store.remove(&token_id);
        proof {
            lemma_gift_absent_after_remove(old(store).records_view(), token_id@);
        }
        let transfer = GiftTransfer {
            recipient: receiver,
            token_id: token_id.clone(),
            collection: record.collection,
        };
        emit(&mut store.events, AuctionEvent::Claimed { account: receiver, token_id });
        Ok(transfer)
    }

    /// Cancel a gift: the record is removed and the token goes back to
    /// the recorded sender. A missing record fails with `TokenNotFound`.
    pub fn cancel(store: &mut GiftStore, token_id: String) -> (r: Result<
        GiftTransfer,
        AuctionError,
    >)
        requires
            old(store).wf(),
        ensures
            final(store).wf(),
            final(store).admin == old(store).admin,
            r matches Err(e) ==> {
                &&& *final(store) == *old(store)
                &&& gift_for(old(store).records_view(), token_id@) is None
                &&& e == AuctionError::TokenNotFound
            },
            r matches Ok(out) ==> {
                &&& gift_for(old(store).records_view(), token_id@) matches Some(rec)
                &&& out.recipient == gift_for(old(store).records_view(), token_id@).unwrap().sender
                &&& out.token_id@ == token_id@
                &&& out.collection == gift_for(
                    old(store).records_view(),
                    token_id@,
                ).unwrap().collection
                &&& final(store).records_view() == old(store).records_view().remove(
                    gift_index_of(old(store).records_view(), token_id@),
                )
                &&& gift_for(final(store).records_view(), token_id@) is None
                &&& final(store).events@ == old(store).events@.push(AuctionEvent::Cancelled)
            },
    {
        let record = match store.get(&token_id) {
            Some(rec) => rec,
            None => {
                return Err(AuctionError::TokenNotFound);
            },
        };
        store.remove(&token_id);
        proof {
            lemma_gift_absent_after_remove(old(store).records_view(), token_id@);
        }
        let transfer = GiftTransfer {
            recipient: record.sender,
            token_id,
            collection: record.collection,
        };
        emit(&mut store.events, AuctionEvent::Cancelled);
        Ok(transfer)
    }
}

/// Removing a token's record leaves no record for that token.
proof fn lemma_gift_absent_after_remove(s: Seq<(String, GiftRecord)>, id: Seq<char>)
    requires
        unique_gifts(s),
        gift_for(s, id) is Some,
    ensures
        gift_for(s.remove(gift_index_of(s, id)), id) is None,
{
    lemma_gift_for_props(s, id);
    let k = gift_index_of(s, id);
    let s1 = s.remove(k);
    lemma_gift_for_props(s1, id);
    if gift_for(s1, id) is Some {
        let j = choose|j: int| 0 <= j < s1.len() && s1[j].0@ == id;
        if j < k {
            assert(s[j].0@ == id);
        } else {
            assert(s[j + 1].0@ == id);
        }
    }
}

} // verus!
