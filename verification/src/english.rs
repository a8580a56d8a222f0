//! The ascending English auction: competing bids, bidder-cap eviction,
//! anti-snipe extension, cancellation of bids, and finalization.

use vstd::prelude::*;

use crate::account::AccountId;
use crate::auction::{
    raw_opt_view, settle_err_of, settle_ok_describes, Auction, Payout, PayoutReason,
    SettleOutcome,
};
use crate::bids::{
    entry_for, index_of, lemma_entry_at_index, lemma_entry_for_props, max_index, min_index,
    BidEntry,
};
use crate::commission::RawCommissions;
use crate::data::{extended_end, AuctionData, AuctionStatus};
use crate::error::AuctionError;
use crate::events::{emit, AuctionEvent};

verus! {

/// What the host must execute after an accepted English bid: pull the
/// deposit from the bidder's purse, and refund an evicted bidder if one
/// was pushed out.
#[derive(Debug)]
pub struct EnglishBidOutcome {
    pub deposit: u64,
    pub eviction_refund: Option<Payout>,
}

/// The configured minimum increment, defaulting to none.
pub open spec fn min_step_of(d: AuctionData) -> u64 {
    match d.minimum_bid_step {
        Some(s) => s,
        None => 0,
    }
}

/// Why an English bid is rejected, if it is: it must reach the reserve,
/// beat a standing winning bid by at least the minimum step, and exceed
/// the bidder's own standing bid.
pub open spec fn english_bid_rejection(d: AuctionData, bidder: AccountId, amount: u64) -> Option<
    AuctionError,
> {
    if amount < d.reserve_price.unwrap() {
        Some(AuctionError::BidBelowReserve)
    } else if (match d.winning_bid {
        Some(wb) => amount <= wb.0 || amount - wb.0 < min_step_of(d),
        None => false,
    }) {
        Some(AuctionError::BidTooLow)
    } else {
        match entry_for(d.bids@, bidder@) {
            Some(cur) => if amount <= cur.0 {
                Some(AuctionError::NewBidLower)
            } else {
                None
            },
            None => None,
        }
    }
}

/// The ledger index a new bidder's arrival evicts, if any: the ledger is
/// at its cap and its lowest entry is beaten by the new amount.
pub open spec fn eviction_of(d: AuctionData, bidder: AccountId, amount: u64) -> Option<int> {
    if entry_for(d.bids@, bidder@) is Some {
        None
    } else {
        match d.bidder_count_cap {
            Some(cap) => if cap <= d.bids@.len() && d.bids@.len() > 0 && d.bids@[min_index(
                d.bids@,
            )].amount < amount {
                Some(min_index(d.bids@))
            } else {
                None
            },
            None => None,
        }
    }
}

/// The ledger after an accepted English bid: an existing bidder's entry is
/// overwritten in place; a new bidder lands at the end, after the eviction
/// if one happens.
pub open spec fn english_post_ledger(
    d: AuctionData,
    bidder: AccountId,
    amount: u64,
    synthetic: bool,
) -> Seq<BidEntry> {
    match entry_for(d.bids@, bidder@) {
        Some(_) => d.bids@.update(
            index_of(d.bids@, bidder@),
            BidEntry { bidder, amount, synthetic },
        ),
        None => {
            let l1 = match eviction_of(d, bidder, amount) {
                Some(i) => d.bids@.remove(i),
                None => d.bids@,
            };
            l1.push(BidEntry { bidder, amount, synthetic })
        },
    }
}

/// The deposit an accepted English bid pulls from the bidder: nothing for
/// a synthetic bid, the increase over their standing bid otherwise.
pub open spec fn english_deposit(d: AuctionData, bidder: AccountId, amount: u64, synthetic: bool) -> u64 {
    if synthetic {
        0
    } else {
        match entry_for(d.bids@, bidder@) {
            Some(cur) => (amount - cur.0) as u64,
            None => amount,
        }
    }
}

/// The refund an accepted English bid triggers: the evicted entry's
/// amount, unless the evicted bid was synthetic.
pub open spec fn english_eviction_refund(d: AuctionData, bidder: AccountId, amount: u64) -> Option<
    Payout,
> {
    match eviction_of(d, bidder, amount) {
        Some(i) => if d.bids@[i].synthetic {
            None
        } else {
            Some(
                Payout {
                    to: d.bids@[i].bidder,
                    amount: d.bids@[i].amount,
                    reason: PayoutReason::ReturnLowestBid,
                },
            )
        },
        None => None,
    }
}

/// The whole behavior of an English bid: the first failing check names
/// the error and nothing changes; otherwise the bid is recorded, the
/// bidder becomes the winner, the anti-snipe rule may extend the deadline,
/// and the host owes the deposit and any eviction refund.
pub open spec fn english_bid_behavior(
    pre: AuctionData,
    post: AuctionData,
    account: AccountId,
    bid: u64,
    synthetic: bool,
    now: u64,
    r: Result<EnglishBidOutcome, AuctionError>,
) -> bool {
    match english_bid_rejection(pre, account, bid) {
        Some(e) => r == Err::<EnglishBidOutcome, AuctionError>(e) && post == pre,
        None => (r matches Ok(out) && {
            &&& post.bids@ == english_post_ledger(pre, account, bid, synthetic)
            &&& post.current_winner == Some(account)
            &&& post.winning_bid == Some((bid, synthetic))
            &&& post.end_time == extended_end(pre.end_time, pre.timer_extension, now)
            &&& post.events@ == pre.events@.push(AuctionEvent::Bid { account, bid, synthetic })
            &&& post == (AuctionData {
                bids: post.bids,
                current_winner: Some(account),
                winning_bid: Some((bid, synthetic)),
                end_time: post.end_time,
                events: post.events,
                ..pre
            })
            &&& out.deposit == english_deposit(pre, account, bid, synthetic)
            &&& out.eviction_refund == english_eviction_refund(pre, account, bid)
        }),
    }
}

/// The whole behavior of a bid withdrawal: without a standing bid it
/// fails with `NoBid`; otherwise the entry leaves the ledger, the
/// non-synthetic amount is owed back, and the best remaining bid becomes
/// the winner.
pub open spec fn english_cancel_bid_behavior(
    pre: AuctionData,
    post: AuctionData,
    account: AccountId,
    r: Result<Option<Payout>, AuctionError>,
) -> bool {
    match entry_for(pre.bids@, account@) {
        None => r == Err::<Option<Payout>, AuctionError>(AuctionError::NoBid) && post == pre,
        Some(cur) => (r matches Ok(out) && {
            let l2 = pre.bids@.remove(index_of(pre.bids@, account@));
            &&& out == (if cur.1 {
                None::<Payout>
            } else {
                Some(
                    Payout {
                        to: account,
                        amount: cur.0,
                        reason: PayoutReason::ReturnCancelledBid,
                    },
                )
            })
            &&& post.bids@ == l2
            &&& (l2.len() == 0 ==> post.current_winner is None && post.winning_bid is None)
            &&& (l2.len() > 0 ==> post.current_winner == Some(l2[max_index(l2)].bidder)
                && post.winning_bid == Some((l2[max_index(l2)].amount, l2[max_index(l2)].synthetic)))
            &&& post.events@ == pre.events@.push(AuctionEvent::BidCancelled { account })
            &&& post == (AuctionData {
                bids: post.bids,
                current_winner: post.current_winner,
                winning_bid: post.winning_bid,
                events: post.events,
                ..pre
            })
        }),
    }
}

/// The whole behavior of finalization: refinalizing fails with
/// `BadState`, an early call with the time check on fails with
/// `EarlyFinalize`; otherwise a synthetic winner stalls the auction at
/// `PendingSettle`, and any other outcome settles it.
pub open spec fn english_finalize_behavior(
    pre: AuctionData,
    post: AuctionData,
    time_check: bool,
    now: u64,
    rawo: Option<Seq<(Seq<u8>, Seq<u8>)>>,
    r: Result<Option<SettleOutcome>, AuctionError>,
) -> bool {
    if pre.status != AuctionStatus::Live {
        r == Err::<Option<SettleOutcome>, AuctionError>(AuctionError::BadState) && post == pre
    } else if time_check && now < pre.end_time {
        r == Err::<Option<SettleOutcome>, AuctionError>(AuctionError::EarlyFinalize) && post == pre
    } else {
        match pre.winning_bid {
            Some(wb) => {
                if wb.1 {
                    &&& r matches Ok(out) && out is None
                    &&& post.status == AuctionStatus::PendingSettle
                    &&& post.events@ == pre.events@.push(
                        AuctionEvent::PendingSettlement { account: pre.current_winner.unwrap(), bid: wb },
                    )
                    &&& post == (AuctionData {
                        status: AuctionStatus::PendingSettle,
                        events: post.events,
                        ..pre
                    })
                } else {
                    match settle_err_of(pre, pre.bids@, pre.current_winner, rawo) {
                        Some(e) => r == Err::<Option<SettleOutcome>, AuctionError>(e) && post
                            == pre,
                        None => (r matches Ok(out) && out matches Some(so) && {
                            &&& settle_ok_describes(
                                pre,
                                pre.bids@,
                                pre.current_winner,
                                rawo,
                                so.token_recipient,
                                so.payouts@,
                            )
                            &&& post.bids@ == Seq::<BidEntry>::empty()
                            &&& post.status == AuctionStatus::Settled
                            &&& post.events@ == pre.events@.push(
                                AuctionEvent::Settled {
                                    account: pre.current_winner,
                                    bid: pre.winning_bid,
                                },
                            )
                            &&& post == (AuctionData {
                                bids: post.bids,
                                status: AuctionStatus::Settled,
                                events: post.events,
                                ..pre
                            })
                        }),
                    }
                }
            },
            None => (r matches Ok(out) && out matches Some(so) && {
                &&& so.token_recipient == pre.token_owner
                &&& settle_ok_describes(
                    pre,
                    pre.bids@,
                    None,
                    rawo,
                    so.token_recipient,
                    so.payouts@,
                )
                &&& post.bids@ == Seq::<BidEntry>::empty()
                &&& post.status == AuctionStatus::Settled
                &&& post.events@ == pre.events@.push(
                    AuctionEvent::Settled { account: None::<AccountId>, bid: None::<(u64, bool)> },
                )
                &&& post == (AuctionData {
                    bids: post.bids,
                    status: AuctionStatus::Settled,
                    events: post.events,
                    ..pre
                })
            }),
        }
    }
}

/// The ascending-auction strategy.
pub struct EnglishAuction;

impl EnglishAuction {
    /// The guard for bid cancellation: the auction must be live, and the
    /// clock must still be before the configured cancellation deadline.
    pub fn check_valid(data: &AuctionData, now: u64) -> (r: Result<(), AuctionError>)
        ensures
            r == (if now < data.start_time {
                Err::<(), AuctionError>(AuctionError::EarlyBid)
            } else if now >= data.end_time {
                Err::<(), AuctionError>(AuctionError::LateBid)
            } else if data.status != AuctionStatus::Live {
                Err::<(), AuctionError>(AuctionError::BadState)
            } else if (match data.cancel_time {
                Some(c) => now >= c,
                None => false,
            }) {
                Err::<(), AuctionError>(AuctionError::LateCancellation)
            } else {
                Ok::<(), AuctionError>(())
            }),
    {
        match Auction::check_valid(data, now) {
            Ok(_) => (),
            Err(e) => {
                return Err(e);
            },
        }
        match data.cancel_time() {
            Some(c) => {
                if now >= c {
                    return Err(AuctionError::LateCancellation);
                }
            },
            None => (),
        }
        Ok(())
    }

    /// Record an accepted bid in the ledger: evict the lowest bidder if
    /// the cap demands it, then insert or overwrite the bidder's entry.
    /// A repeat bid must exceed the bidder's standing one.
    fn add_bid(data: &mut AuctionData, bidder: &AccountId, new_bid: u64, synthetic: bool) -> (r:
        Result<EnglishBidOutcome, AuctionError>)
        requires
            old(data).wf(),
        ensures
            r matches Err(e) ==> {
                &&& *final(data) == *old(data)
                &&& entry_for(old(data).bids@, bidder@) matches Some(cur) && new_bid <= cur.0
                &&& e == AuctionError::NewBidLower
            },
            r matches Ok(out) ==> {
                &&& (entry_for(old(data).bids@, bidder@) matches Some(cur) ==> new_bid > cur.0)
                &&& final(data).bids@ == english_post_ledger(*old(data), *bidder, new_bid, synthetic)
                &&& final(data).bids.wf()
                &&& entry_for(final(data).bids@, bidder@) == Some((new_bid, synthetic))
                &&& *final(data) == (AuctionData { bids: final(data).bids, ..*old(data) })
                &&& out.deposit == english_deposit(*old(data), *bidder, new_bid, synthetic)
                &&& out.eviction_refund == english_eviction_refund(*old(data), *bidder, new_bid)
            },
    {
        let ghost pre = *old(data);
        let existing = data.bids.get(bidder);
        let mut eviction_refund: Option<Payout> = None;
        if existing.is_none() {
            if let Some(cap) = data.bidder_count_cap() {
                if cap <= data.bids.len() as u64 {
                    match data.bids.get_lowest_bid(new_bid) {
                        Some((lowest_bidder, lowest_bid)) => {
                            proof {
                                lemma_min_entry(pre.bids@);
                            }
                            data.bids.remove_by_key(&lowest_bidder);
                            proof {
                                assert(exists|i: int|
                                    0 <= i < pre.bids@.len() && data.bids@ == pre.bids@.remove(
                                        i,
                                    )) by {
                                    assert(data.bids@ == pre.bids@.remove(
                                        index_of(pre.bids@, lowest_bidder@),
                                    ));
                                }
                            }
                            if !lowest_bid.1 {
                                eviction_refund = Some(
                                    Payout {
                                        to: lowest_bidder,
                                        amount: lowest_bid.0,
                                        reason: PayoutReason::ReturnLowestBid,
                                    },
                                );
                            }
                        },
                        None => (),
                    }
                }
            }
        }
        let bid_amount: u64 = match existing {
            Some(current_bid) => {
                if new_bid <= current_bid.0 {
                    return Err(AuctionError::NewBidLower);
                }
                new_bid - current_bid.0
            },
            None => new_bid,
        };
        let deposit: u64 = if synthetic {
            0
        } else {
            bid_amount
        };
        if existing.is_none() {
            proof {
                lemma_absent_after_remove(pre.bids@, data.bids@, bidder@);
            }
            data.bids.insert(bidder, new_bid, synthetic);
            proof {
                lemma_entry_at_index(data.bids@, data.bids@.len() - 1);
            }
        } else {
            data.bids.replace(bidder, new_bid, synthetic);
            proof {
                lemma_entry_for_props(pre.bids@, bidder@);
                lemma_entry_at_index(data.bids@, index_of(pre.bids@, bidder@));
            }
        }
        Ok(EnglishBidOutcome { deposit, eviction_refund })
    }

    /// Place a bid. If it clears the reserve, the step over the standing
    /// winning bid and the bidder's own standing bid, it is recorded, the
    /// bidder becomes the current winner, and the anti-snipe rule may
    /// extend the deadline. A bid below the reserve fails with
    /// `BidBelowReserve`; one that does not beat the winning bid by the
    /// minimum step fails with `BidTooLow`; a repeat bid not above the
    /// bidder's standing one fails with `NewBidLower`.
    pub fn bid(
        data: &mut AuctionData,
        account: AccountId,
        bid: u64,
        synthetic: bool,
        now: u64,
    ) -> (r: Result<EnglishBidOutcome, AuctionError>)
        requires
            old(data).wf(),
            old(data).reserve_price is Some,
        ensures
            final(data).wf(),
            english_bid_behavior(*old(data), *final(data), account, bid, synthetic, now, r),
    {
        if bid < data.reserve_price() {
            return Err(AuctionError::BidBelowReserve);
        }
        let (_, winning_bid) = data.current_winner();
        match winning_bid {
            Some(wb) => {
                if bid <= wb.0 {
                    return Err(AuctionError::BidTooLow);
                }
                let min_step = match data.minimum_bid_step() {
                    Some(s) => s,
                    None => 0,
                };
                if bid - wb.0 < min_step {
                    return Err(AuctionError::BidTooLow);
                }
            },
            None => (),
        }
        let out = match Self::add_bid(data, &account, bid, synthetic) {
            Ok(out) => out,
            Err(e) => {
                return Err(e);
            },
        };
        data.update_current_winner(Some(account), Some(bid), synthetic);
        data.extend_auction(now);
        emit(&mut data.events, AuctionEvent::Bid { account, bid, synthetic });
        Ok(out)
    }

    /// Withdraw a standing bid before the cancellation deadline: the
    /// bidder is refunded (unless the bid was synthetic), the entry is
    /// removed, and the best remaining bid becomes the winner. Without a
    /// standing bid the call fails with `NoBid`.
    pub fn cancel_bid(data: &mut AuctionData, account: AccountId) -> (r: Result<
        Option<Payout>,
        AuctionError,
    >)
        requires
            old(data).wf(),
            old(data).status == AuctionStatus::Live,
        ensures
            final(data).wf(),
            english_cancel_bid_behavior(*old(data), *final(data), account, r),
    {
        let current_bid = match data.bids.get(&account) {
            Some(b) => b,
            None => {
                return Err(AuctionError::NoBid);
            },
        };
        let refund: Option<Payout> = if !current_bid.1 {
            Some(Payout { to: account, amount: current_bid.0, reason: PayoutReason::ReturnCancelledBid })
        } else {
            None
        };
        data.bids.remove_by_key(&account);
        let (new_winner, new_bid, new_synth) = data.bids.max_by_key();
        proof {
            if data.bids@.len() > 0 {
                crate::bids::lemma_max_index_props(data.bids@);
                lemma_entry_at_index(data.bids@, max_index(data.bids@));
            }
        }
        data.update_current_winner(new_winner, new_bid, new_synth);
        emit(&mut data.events, AuctionEvent::BidCancelled { account });
        Ok(refund)
    }

    /// Close the auction. With no winner, the token returns to the owner
    /// and all bids are refunded. A synthetic winning bid stalls at
    /// `PendingSettle` for the administrator; otherwise the auction
    /// settles at once. Finalizing an auction that has already left
    /// `Live` fails with `BadState`; with the time check on, finalizing
    /// before `end_time` fails with `EarlyFinalize`.
    pub fn finalize(
        data: &mut AuctionData,
        time_check: bool,
        now: u64,
        commissions: Option<&RawCommissions>,
    ) -> (r: Result<Option<SettleOutcome>, AuctionError>)
        requires
            old(data).wf(),
        ensures
            final(data).wf(),
            english_finalize_behavior(
                *old(data),
                *final(data),
                time_check,
                now,
                raw_opt_view(commissions),
                r,
            ),
    {
        if data.is_done() {
            return Err(AuctionError::BadState);
        }
        if time_check && now < data.end_time() {
            return Err(AuctionError::EarlyFinalize);
        }
        let (winner, winning_bid) = data.current_winner();
        match (winner, winning_bid) {
            (Some(bidder), Some(wb)) => {
                if wb.1 {
                    data.update_status(AuctionStatus::PendingSettle);
                    emit(
                        &mut data.events,
                        AuctionEvent::PendingSettlement { account: bidder, bid: wb },
                    );
                    Ok(None)
                } else {
                    let out = match Auction::settle(data, Some(bidder), commissions) {
                        Ok(out) => out,
                        Err(e) => {
                            return Err(e);
                        },
                    };
                    data.update_status(AuctionStatus::Settled);
                    emit(
                        &mut data.events,
                        AuctionEvent::Settled { account: Some(bidder), bid: Some(wb) },
                    );
                    Ok(Some(out))
                }
            },
            _ => {
                let out = match Auction::settle(data, None, commissions) {
                    Ok(out) => out,
                    Err(e) => {
                        return Err(e);
                    },
                };
                data.update_status(AuctionStatus::Settled);
                emit(&mut data.events, AuctionEvent::Settled { account: None, bid: None });
                Ok(Some(out))
            },
        }
    }

    /// Cancel the auction, only possible while nobody has won: the token
    /// returns to the owner and any recorded bids are refunded. With a
    /// standing winner the call fails with `CannotCancelAuction`.
    pub fn cancel(data: &mut AuctionData) -> (r: Result<SettleOutcome, AuctionError>)
        requires
            old(data).wf(),
        ensures
            final(data).wf(),
            (old(data).current_winner is Some || old(data).winning_bid is Some) ==> r == Err::<
                SettleOutcome,
                AuctionError,
            >(AuctionError::CannotCancelAuction) && *final(data) == *old(data),
            old(data).current_winner is None && old(data).winning_bid is None ==> (r matches Ok(
                out,
            ) && crate::auction::cancel_transition(
                *old(data),
                *final(data),
                out.token_recipient,
                out.payouts@,
            )),
    {
        let (winner, winning_bid) = data.current_winner();
        if winner.is_none() && winning_bid.is_none() {
            let out = match Auction::settle(data, None, None) {
                Ok(out) => out,
                Err(e) => {
                    return Err(e);
                },
            };
            data.update_status(AuctionStatus::Cancelled);
            emit(&mut data.events, AuctionEvent::Cancelled);
            return Ok(out);
        }
        Err(AuctionError::CannotCancelAuction)
    }
}

/// A removal never introduces an entry: a bidder absent from the ledger is
/// still absent after any index is removed.
proof fn lemma_absent_after_remove(s0: Seq<BidEntry>, s1: Seq<BidEntry>, id: Seq<u8>)
    requires
        entry_for(s0, id) is None,
        s1 == s0 || exists|i: int| 0 <= i < s0.len() && s1 == s0.remove(i),
    ensures
        entry_for(s1, id) is None,
{
    lemma_entry_for_props(s0, id);
    lemma_entry_for_props(s1, id);
    if entry_for(s1, id) is Some {
        let j = choose|j: int| 0 <= j < s1.len() && s1[j].bidder@ == id;
        if s1 == s0 {
        } else {
            let i = choose|i: int| 0 <= i < s0.len() && s1 == s0.remove(i);
            if j < i {
                assert(s0[j].bidder@ == id);
            } else {
                assert(s0[j + 1].bidder@ == id);
            }
        }
    }
}

/// The minimum entry of a non-empty ledger is a real entry, so removing it
/// by key removes exactly its index.
proof fn lemma_min_entry(s: Seq<BidEntry>)
    requires
        s.len() > 0,
        crate::bids::unique_bidders(s),
    ensures
        0 <= min_index(s) < s.len(),
        entry_for(s, s[min_index(s)].bidder@) == Some(
            (s[min_index(s)].amount, s[min_index(s)].synthetic),
        ),
        index_of(s, s[min_index(s)].bidder@) == min_index(s),
{
    crate::bids::lemma_min_index_props(s);
    lemma_entry_at_index(s, min_index(s));
}

} // verus!
