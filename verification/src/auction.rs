//! The shared guard checks and the settlement engine.
//!
//! A transition never moves value itself: it returns the exact payouts the
//! host must perform out of the auction's funds container, plus the token
//! recipient. The host executes them transactionally; if any leg fails it
//! aborts the whole action and discards the new state.

use vstd::prelude::*;

use crate::account::AccountId;
use crate::bids::{entry_for, index_of, ledger_funds, BidEntry};
use crate::commission::{computed_commissions, raw_view, rates_sum, RawCommissions};
use crate::data::{AuctionData, AuctionStatus};
use crate::error::AuctionError;
use crate::events::{emit, AuctionEvent};

verus! {

/// Why a payout leaves the auction's funds container. The host reports a
/// failed leg with the matching error.
#[derive(Clone, Copy, Debug, PartialEq, Eq, Structural)]
pub enum PayoutReason {
    /// The marketplace fee of a settlement.
    MarketplaceShare,
    /// One royalty share of a settlement.
    CommissionShare,
    /// The seller's remainder of a settlement.
    BeneficiaryShare,
    /// A bid returned when the auction ends without that bidder winning.
    ReturnBid,
    /// The lowest bid returned on a cap eviction.
    ReturnLowestBid,
    /// A bid returned to its bidder on cancellation.
    ReturnCancelledBid,
}

/// One transfer out of the auction's funds container.
#[derive(Clone, Copy, Debug)]
pub struct Payout {
    pub to: AccountId,
    pub amount: u64,
    pub reason: PayoutReason,
}

impl Payout {
    /// The error the host reports when this leg of the fund movement
    /// fails.
    pub fn failure_error(&self) -> (r: AuctionError)
        ensures
            r == (match self.reason {
                PayoutReason::MarketplaceShare => AuctionError::TransferMarketPlaceShare,
                PayoutReason::CommissionShare => AuctionError::TransferCommissionShare,
                PayoutReason::BeneficiaryShare => AuctionError::TransferBeneficiaryShare,
                PayoutReason::ReturnBid => AuctionError::AuctionEndReturnBids,
                PayoutReason::ReturnLowestBid => AuctionError::BidReturnLowest,
                PayoutReason::ReturnCancelledBid => AuctionError::AuctionCancelReturnBid,
            }),
    {
        match self.reason {
            PayoutReason::MarketplaceShare => AuctionError::TransferMarketPlaceShare,
            PayoutReason::CommissionShare => AuctionError::TransferCommissionShare,
            PayoutReason::BeneficiaryShare => AuctionError::TransferBeneficiaryShare,
            PayoutReason::ReturnBid => AuctionError::AuctionEndReturnBids,
            PayoutReason::ReturnLowestBid => AuctionError::BidReturnLowest,
            PayoutReason::ReturnCancelledBid => AuctionError::AuctionCancelReturnBid,
        }
    }
}

/// What the host must execute after a settlement: move the token, then pay
/// each payout in order.
#[derive(Debug)]
pub struct SettleOutcome {
    pub token_recipient: AccountId,
    pub payouts: Vec<Payout>,
}

/// The sum of the amounts of a payout list.
pub open spec fn payouts_total(ps: Seq<Payout>) -> int
    decreases ps.len(),
{
    if ps.len() == 0 {
        0
    } else {
        payouts_total(ps.drop_last()) + ps.last().amount
    }
}

pub proof fn lemma_payouts_total_concat(a: Seq<Payout>, b: Seq<Payout>)
    ensures
        payouts_total(a + b) == payouts_total(a) + payouts_total(b),
    decreases b.len(),
{
    if b.len() == 0 {
        assert(a + b =~= a);
    } else {
        assert((a + b).drop_last() =~= a + b.drop_last());
        lemma_payouts_total_concat(a, b.drop_last());
    }
}

/// The refunds a ledger owes: every non-synthetic entry in order, paid in
/// full.
pub open spec fn refund_payouts(s: Seq<BidEntry>, reason: PayoutReason) -> Seq<Payout>
    decreases s.len(),
{
    if s.len() == 0 {
        Seq::empty()
    } else {
        refund_payouts(s.drop_last(), reason) + (if s.last().synthetic {
            Seq::<Payout>::empty()
        } else {
            seq![Payout { to: s.last().bidder, amount: s.last().amount, reason }]
        })
    }
}

/// Refunding a ledger pays out exactly the value its non-synthetic entries
/// hold in the funds container.
pub proof fn lemma_refund_total(s: Seq<BidEntry>, reason: PayoutReason)
    ensures
        payouts_total(refund_payouts(s, reason)) == ledger_funds(s),
    decreases s.len(),
{
    if s.len() > 0 {
        lemma_refund_total(s.drop_last(), reason);
        let tail = if s.last().synthetic {
            Seq::<Payout>::empty()
        } else {
            seq![Payout { to: s.last().bidder, amount: s.last().amount, reason }]
        };
        lemma_payouts_total_concat(refund_payouts(s.drop_last(), reason), tail);
        assert(payouts_total(Seq::<Payout>::empty()) == 0);
        if !s.last().synthetic {
            assert(tail.drop_last() =~= Seq::<Payout>::empty());
            assert(payouts_total(tail) == s.last().amount);
        }
    }
}

/// The marketplace fee of a winning amount: the amount's thousandth part,
/// rounded down, times the marketplace rate.
pub open spec fn market_share_of(amount: u64, rate: u32) -> int {
    (amount as int / 1000) * rate
}

/// The slice each commission rate point earns: a thousandth of the
/// proceeds left after the marketplace fee, rounded down.
pub open spec fn share_piece_of(amount: u64, rate: u32) -> int {
    (amount - market_share_of(amount, rate)) / 1000
}

/// Whether some commission entry would be paid exactly nothing, which the
/// settlement treats as a fatal inconsistency.
pub open spec fn has_zero_share(tbl: Seq<(Seq<u8>, u16)>, piece: int) -> bool {
    exists|j: int| 0 <= j < tbl.len() && piece * (#[trigger] tbl[j]).1 == 0
}

/// The commission metadata a settlement was handed, viewed.
pub open spec fn raw_opt_view(commissions: Option<&RawCommissions>) -> Option<
    Seq<(Seq<u8>, Seq<u8>)>,
> {
    match commissions {
        Some(raw) => Some(raw_view(raw@)),
        None => None,
    }
}

/// Why a settlement would abort, if it would: a winner with a standing
/// ledger entry needs the commission metadata, the metadata must convert,
/// and no share may be zero.
pub open spec fn settle_err_of(
    pre: AuctionData,
    ledger: Seq<BidEntry>,
    winner: Option<AccountId>,
    rawo: Option<Seq<(Seq<u8>, Seq<u8>)>>,
) -> Option<AuctionError> {
    match winner {
        Some(w) => match entry_for(ledger, w@) {
            Some(entry) => match rawo {
                None => Some(AuctionError::MissingCommissions),
                Some(rv) => match computed_commissions(rv) {
                    Err(e) => Some(e),
                    Ok((tbl, _s)) => if has_zero_share(
                        tbl,
                        share_piece_of(entry.0, pre.marketplace_commission),
                    ) {
                        Some(AuctionError::BadState)
                    } else {
                        None
                    },
                },
            },
            None => None,
        },
        None => None,
    }
}

/// What a successful settlement pays, and to whom the token goes.
///
/// With a winner holding a standing entry of amount `amt`: the token goes
/// to the winner; the marketplace is paid its fee; each commission entry
/// is paid its rate times the share piece; the beneficiary absorbs the
/// remaining proceeds, rounding dust included, so the split sums to
/// exactly `amt`; and every other non-synthetic bidder is refunded in
/// full. Otherwise everything is refunded, and the token goes to the
/// winner if one was named, else back to the owner.
pub open spec fn settle_ok_describes(
    pre: AuctionData,
    ledger: Seq<BidEntry>,
    winner: Option<AccountId>,
    rawo: Option<Seq<(Seq<u8>, Seq<u8>)>>,
    token_recipient: AccountId,
    ps: Seq<Payout>,
) -> bool {
    match winner {
        Some(w) => match entry_for(ledger, w@) {
            Some(entry) => {
                let amt = entry.0;
                let market = market_share_of(amt, pre.marketplace_commission);
                let piece = share_piece_of(amt, pre.marketplace_commission);
                let rest = ledger.remove(index_of(ledger, w@));
                &&& token_recipient == w
                &&& rawo matches Some(rv)
                &&& computed_commissions(rawo.unwrap()) matches Ok(pair)
                &&& {
                    let tbl = computed_commissions(rawo.unwrap()).unwrap().0;
                    &&& ps.len() == 2 + tbl.len() + refund_payouts(
                        rest,
                        PayoutReason::ReturnBid,
                    ).len()
                    &&& ps[0] == (Payout {
                        to: pre.marketplace_account,
                        amount: market as u64,
                        reason: PayoutReason::MarketplaceShare,
                    })
                    &&& (forall|j: int|
                        0 <= j < tbl.len() ==> {
                            &&& (#[trigger] ps[1 + j]).to@ == tbl[j].0
                            &&& ps[1 + j].amount == piece * tbl[j].1
                            &&& ps[1 + j].reason == PayoutReason::CommissionShare
                        })
                    &&& ps[1 + tbl.len() as int] == (Payout {
                        to: pre.beneficiary_account,
                        amount: (amt - market - piece * rates_sum(tbl)) as u64,
                        reason: PayoutReason::BeneficiaryShare,
                    })
                    &&& ps.skip(2 + tbl.len() as int) == refund_payouts(rest, PayoutReason::ReturnBid)
                    &&& payouts_total(ps.take(2 + tbl.len() as int)) == amt
                    &&& payouts_total(ps) == amt + ledger_funds(rest)
                }
            },
            None => {
                &&& token_recipient == w
                &&& ps == refund_payouts(ledger, PayoutReason::ReturnBid)
                &&& payouts_total(ps) == ledger_funds(ledger)
            },
        },
        None => {
            &&& token_recipient == pre.token_owner
            &&& ps == refund_payouts(ledger, PayoutReason::ReturnBid)
            &&& payouts_total(ps) == ledger_funds(ledger)
        },
    }
}

/// A cancellation: the token returns to the owner, every non-synthetic
/// recorded bid is refunded, the ledger is emptied and the status becomes
/// `Cancelled`; nothing else changes.
pub open spec fn cancel_transition(
    pre: AuctionData,
    post: AuctionData,
    token_recipient: AccountId,
    ps: Seq<Payout>,
) -> bool {
    &&& token_recipient == pre.token_owner
    &&& ps == refund_payouts(pre.bids@, PayoutReason::ReturnBid)
    &&& payouts_total(ps) == ledger_funds(pre.bids@)
    &&& post.bids@ == Seq::<BidEntry>::empty()
    &&& post.status == AuctionStatus::Cancelled
    &&& post.events@ == pre.events@.push(AuctionEvent::Cancelled)
    &&& post == (AuctionData {
        bids: post.bids,
        status: AuctionStatus::Cancelled,
        events: post.events,
        ..pre
    })
}

/// The format-independent guard checks and the settlement engine.
pub struct Auction;

impl Auction {
    /// The auction must still accept actions: the clock must be inside the
    /// window and the status must still be `Live`.
    pub fn check_valid(data: &AuctionData, now: u64) -> (r: Result<(), AuctionError>)
        ensures
            r == (if now < data.start_time {
                Err::<(), AuctionError>(AuctionError::EarlyBid)
            } else if now >= data.end_time {
                Err::<(), AuctionError>(AuctionError::LateBid)
            } else if data.status != AuctionStatus::Live {
                Err::<(), AuctionError>(AuctionError::BadState)
            } else {
                Ok::<(), AuctionError>(())
            }),
    {
        match data.is_auction_live(now) {
            Ok(_) => (),
            Err(e) => {
                return Err(e);
            },
        }
        if data.is_done() {
            return Err(AuctionError::BadState);
        }
        Ok(())
    }

    /// The KYC service must have answered positively for the account.
    pub fn verify(kyc_verified: bool) -> (r: Result<(), AuctionError>)
        ensures
            r == (if kyc_verified {
                Ok::<(), AuctionError>(())
            } else {
                Err::<(), AuctionError>(AuctionError::KYCError)
            }),
    {
        if kyc_verified {
            Ok(())
        } else {
            Err(AuctionError::KYCError)
        }
    }

    /// The permission service must allow the account a synthetic bid of
    /// the amount.
    pub fn synth_allowed(allowed: bool) -> (r: Result<(), AuctionError>)
        ensures
            r == (if allowed {
                Ok::<(), AuctionError>(())
            } else {
                Err::<(), AuctionError>(AuctionError::SyntheticBidNotAllowed)
            }),
    {
        if allowed {
            Ok(())
        } else {
            Err(AuctionError::SyntheticBidNotAllowed)
        }
    }

    /// The permission service must have synthetic bidding enabled for the
    /// account.
    pub fn synth_enabled(enabled: bool) -> (r: Result<(), AuctionError>)
        ensures
            r == (if enabled {
                Ok::<(), AuctionError>(())
            } else {
                Err::<(), AuctionError>(AuctionError::SyntheticBidNotAllowed)
            }),
    {
        if enabled {
            Ok(())
        } else {
            Err(AuctionError::SyntheticBidNotAllowed)
        }
    }

    /// Only the token owner may proceed.
    pub fn check_owner(data: &AuctionData, caller: &AccountId) -> (r: Result<(), AuctionError>)
        ensures
            r == (if caller@ == data.token_owner@ {
                Ok::<(), AuctionError>(())
            } else {
                Err::<(), AuctionError>(AuctionError::InvalidCaller)
            }),
    {
        if caller.same(&data.token_owner) {
            Ok(())
        } else {
            Err(AuctionError::InvalidCaller)
        }
    }

    /// Only the marketplace administrator may proceed.
    pub fn check_admin(data: &AuctionData, caller: &AccountId) -> (r: Result<(), AuctionError>)
        ensures
            r == (if caller@ == data.marketplace_account@ {
                Ok::<(), AuctionError>(())
            } else {
                Err::<(), AuctionError>(AuctionError::InvalidCaller)
            }),
    {
        if caller.same(&data.marketplace_account) {
            Ok(())
        } else {
            Err(AuctionError::InvalidCaller)
        }
    }

    /// Distribute the token and the funds. With a winner holding a ledger
    /// entry, the winning amount is split into the marketplace fee, one
    /// share per commission entry and the beneficiary's remainder — the
    /// split sums to exactly the winning amount — and every other
    /// non-synthetic bidder is refunded; otherwise every non-synthetic
    /// bidder is refunded and the token returns to the owner unless a
    /// winner was named. The ledger is cleared; nothing else changes.
    pub fn settle(
        data: &mut AuctionData,
        winner: Option<AccountId>,
        commissions: Option<&RawCommissions>,
    ) -> (r: Result<SettleOutcome, AuctionError>)
        requires
            old(data).wf(),
        ensures
            r matches Err(e) ==> {
                &&& *final(data) == *old(data)
                &&& settle_err_of(*old(data), old(data).bids@, winner, raw_opt_view(commissions))
                    == Some(e)
            },
            r matches Ok(out) ==> {
                &&& settle_err_of(*old(data), old(data).bids@, winner, raw_opt_view(commissions))
                    is None
                &&& settle_ok_describes(
                    *old(data),
                    old(data).bids@,
                    winner,
                    raw_opt_view(commissions),
                    out.token_recipient,
                    out.payouts@,
                )
                &&& final(data).bids@ == Seq::<BidEntry>::empty()
                &&& *final(data) == (AuctionData { bids: final(data).bids, ..*old(data) })
            },
    {
        let ghost pre = *old(data);
        let entry = match winner {
            Some(w) => match data.bids.get(&w) {
                Some(e) => Some((w, e)),
                None => None,
            },
            None => None,
        };
        match entry {
            Some((w, (amt, wsynth))) => {
                let raw = match commissions {
                    Some(raw) => raw,
                    None => {
                        return Err(AuctionError::MissingCommissions);
                    },
                };
                let table = match AuctionData::compute_commissions(raw) {
                    Ok(t) => t,
                    Err(e) => {
                        return Err(e);
                    },
                };
                let ghost tbl = crate::commission::tbl_view(table@);
                let (marketplace_account, marketplace_commission) = data.marketplace_data();
                let quotient = amt / 1000;
                proof {
                    vstd::arithmetic::div_mod::lemma_fundamental_div_mod(amt as int, 1000);
                    vstd::arithmetic::mul::lemma_mul_inequality(
                        marketplace_commission as int,
                        1000,
                        quotient as int,
                    );
                    vstd::arithmetic::mul::lemma_mul_is_commutative(
                        quotient as int,
                        marketplace_commission as int,
                    );
                    vstd::arithmetic::mul::lemma_mul_is_commutative(quotient as int, 1000);
                    assert(quotient * marketplace_commission <= amt);
                }
                let market_share = quotient * (marketplace_commission as u64);
                let proceeds = amt - market_share;
                let share_piece = proceeds / 1000;
                let ghost piece = share_piece_of(amt, pre.marketplace_commission);
                proof {
                    assert(market_share == market_share_of(amt, pre.marketplace_commission));
                    assert(share_piece == piece);
                }
                let mut payouts: Vec<Payout> = Vec::new();
                payouts.push(
                    Payout {
                        to: marketplace_account,
                        amount: market_share,
                        reason: PayoutReason::MarketplaceShare,
                    },
                );
                proof {
                    vstd::arithmetic::div_mod::lemma_fundamental_div_mod(proceeds as int, 1000);
                    crate::commission::lemma_rates_sum_nonneg(tbl);
                    assert(payouts@.drop_last() =~= Seq::<Payout>::empty());
                    assert(payouts_total(Seq::<Payout>::empty()) == 0);
                    assert(payouts_total(payouts@) == market_share);
                }
                let mut given_as_shares: u64 = 0;
                let tn = table.len();
                let mut ti: usize = 0;
                while ti < tn
                    invariant
                        *data == pre,
                        *old(data) == pre,
                        pre.wf(),
                        winner == Some(w),
                        entry_for(pre.bids@, w@) == Some((amt, wsynth)),
                        commissions matches Some(c) && c@ == raw@,
                        raw_opt_view(commissions) == Some(raw_view(raw@)),
                        computed_commissions(raw_view(raw@)) matches Ok(pr) && pr.0 == tbl,
                        ti <= tn,
                        tn == table@.len(),
                        tbl == crate::commission::tbl_view(table@),
                        rates_sum(tbl) <= 1000,
                        piece == share_piece as int,
                        piece == share_piece_of(amt, pre.marketplace_commission),
                        share_piece == proceeds / 1000,
                        proceeds == amt - market_share,
                        given_as_shares == piece * rates_sum(tbl.take(ti as int)),
                        given_as_shares <= proceeds,
                        payouts@.len() == 1 + ti,
                        payouts@[0] == (Payout {
                            to: pre.marketplace_account,
                            amount: market_share,
                            reason: PayoutReason::MarketplaceShare,
                        }),
                        forall|j: int|
                            0 <= j < ti ==> {
                                &&& (#[trigger] payouts@[1 + j]).to@ == tbl[j].0
                                &&& payouts@[1 + j].amount == piece * tbl[j].1
                                &&& payouts@[1 + j].reason == PayoutReason::CommissionShare
                            },
                        forall|j: int| 0 <= j < ti ==> piece * (#[trigger] tbl[j]).1 != 0,
                        payouts_total(payouts@) == market_share + given_as_shares,
                        marketplace_account == pre.marketplace_account,
                        market_share == market_share_of(amt, pre.marketplace_commission),
                    decreases tn - ti,
                {
                    let (acct, rate) = table[ti];
                    let ghost sum_pre = rates_sum(tbl.take(ti as int));
                    proof {
                        assert(tbl[ti as int] == (table@[ti as int].0@, table@[ti as int].1));
                        assert(tbl.take(ti + 1 as int).drop_last() =~= tbl.take(ti as int));
                        assert(rates_sum(tbl.take(ti + 1 as int)) == sum_pre + rate);
                        crate::commission::lemma_rates_sum_nonneg(tbl.take(ti as int));
                        crate::commission::lemma_rates_sum_prefix(tbl, ti + 1);
                        crate::commission::lemma_rates_sum_nonneg(tbl.skip(ti + 1));
                        // share fits: piece * rate <= piece * 1000 <= proceeds
                        vstd::arithmetic::mul::lemma_mul_inequality(
                            sum_pre + rate,
                            1000,
                            piece,
                        );
                        vstd::arithmetic::mul::lemma_mul_is_commutative(piece, sum_pre + rate);
                        vstd::arithmetic::mul::lemma_mul_is_commutative(piece, 1000);
                        assert(piece * (sum_pre + rate) <= piece * 1000);
                        assert(piece * 1000 <= proceeds);
                        vstd::arithmetic::mul::lemma_mul_is_distributive_add(
                            piece,
                            sum_pre,
                            rate as int,
                        );
                        assert(piece * (sum_pre + rate) == piece * sum_pre + piece * rate);
                        crate::commission::lemma_rates_sum_nonneg(tbl.take(ti as int));
                        vstd::arithmetic::mul::lemma_mul_nonnegative(piece, sum_pre);
                        vstd::arithmetic::mul::lemma_mul_nonnegative(piece, rate as int);
                    }
                    let actor_share = share_piece * (rate as u64);
                    if actor_share == 0 {
                        proof {
                            assert(piece * tbl[ti as int].1 == 0);
                        }
                        return Err(AuctionError::BadState);
                    }
                    let ghost payouts0 = payouts@;
                    payouts.push(
                        Payout { to: acct, amount: actor_share, reason: PayoutReason::CommissionShare },
                    );
                    proof {
                        assert(payouts@.drop_last() =~= payouts0);
                        assert(payouts_total(payouts@) == payouts_total(payouts0) + actor_share);
                        assert forall|j: int| 0 <= j < ti + 1 implies {
                            &&& (#[trigger] payouts@[1 + j]).to@ == tbl[j].0
                            &&& payouts@[1 + j].amount == piece * tbl[j].1
                            &&& payouts@[1 + j].reason == PayoutReason::CommissionShare
                        } by {
                            if j < ti {
                                assert(payouts@[1 + j] == payouts0[1 + j]);
                            }
                        }
                    }
                    given_as_shares = given_as_shares + actor_share;
                    ti += 1;
                }
                proof {
                    assert(tbl.take(tn as int) =~= tbl);
                    assert(!has_zero_share(tbl, piece));
                }
                let beneficiary_share = proceeds - given_as_shares;
                let ghost payouts1 = payouts@;
                payouts.push(
                    Payout {
                        to: data.beneficiary_account,
                        amount: beneficiary_share,
                        reason: PayoutReason::BeneficiaryShare,
                    },
                );
                proof {
                    assert(payouts@.drop_last() =~= payouts1);
                    assert(payouts_total(payouts@) == amt);
                }
                let ghost split = payouts@;
                data.bids.remove_by_key(&w);
                let ghost rest = data.bids@;
                proof {
                    assert(rest == pre.bids@.remove(index_of(pre.bids@, w@)));
                }
                push_refunds(&mut payouts, &data.bids, PayoutReason::ReturnBid);
                data.bids.clear();
                proof {
                    lemma_payouts_total_concat(split, refund_payouts(rest, PayoutReason::ReturnBid));
                    lemma_refund_total(rest, PayoutReason::ReturnBid);
                    assert(payouts@.take(split.len() as int) =~= split);
                    assert(payouts@.skip(split.len() as int) =~= refund_payouts(
                        rest,
                        PayoutReason::ReturnBid,
                    ));
                }
                Ok(SettleOutcome { token_recipient: w, payouts })
            },
            None => {
                let token_recipient = match winner {
                    Some(w) => w,
                    None => data.token_owner,
                };
                let mut payouts: Vec<Payout> = Vec::new();
                push_refunds(&mut payouts, &data.bids, PayoutReason::ReturnBid);
                data.bids.clear();
                proof {
                    assert(Seq::<Payout>::empty() + refund_payouts(
                        pre.bids@,
                        PayoutReason::ReturnBid,
                    ) =~= refund_payouts(pre.bids@, PayoutReason::ReturnBid));
                    lemma_refund_total(pre.bids@, PayoutReason::ReturnBid);
                }
                Ok(SettleOutcome { token_recipient, payouts })
            },
        }
    }

    /// The administrator accepts a pending settlement: the auction settles
    /// for the recorded winner and the status becomes `Settled`.
    /// Calling it in any other status fails with `BadState` and changes
    /// nothing.
    pub fn approve(
        data: &mut AuctionData,
        caller: &AccountId,
        commissions: Option<&RawCommissions>,
    ) -> (r: Result<SettleOutcome, AuctionError>)
        requires
            old(data).wf(),
        ensures
            final(data).wf(),
            caller@ != old(data).marketplace_account@ ==> r == Err::<SettleOutcome, AuctionError>(
                AuctionError::InvalidCaller,
            ) && *final(data) == *old(data),
            caller@ == old(data).marketplace_account@ && old(data).status
                != AuctionStatus::PendingSettle ==> r == Err::<SettleOutcome, AuctionError>(
                AuctionError::BadState,
            ) && *final(data) == *old(data),
            caller@ == old(data).marketplace_account@ && old(data).status
                == AuctionStatus::PendingSettle ==> {
                let w = old(data).current_winner;
                match settle_err_of(*old(data), old(data).bids@, w, raw_opt_view(commissions)) {
                    Some(e) => r == Err::<SettleOutcome, AuctionError>(e) && *final(data) == *old(
                        data,
                    ),
                    None => (r matches Ok(out) && {
                        &&& settle_ok_describes(
                            *old(data),
                            old(data).bids@,
                            w,
                            raw_opt_view(commissions),
                            out.token_recipient,
                            out.payouts@,
                        )
                        &&& final(data).bids@ == Seq::<BidEntry>::empty()
                        &&& final(data).status == AuctionStatus::Settled
                        &&& final(data).events@ == old(data).events@.push(
                            AuctionEvent::Settled {
                                account: old(data).current_winner,
                                bid: old(data).winning_bid,
                            },
                        )
                        &&& *final(data) == (AuctionData {
                            bids: final(data).bids,
                            status: AuctionStatus::Settled,
                            events: final(data).events,
                            ..*old(data)
                        })
                    }),
                }
            },
    {
        match Self::check_admin(data, caller) {
            Ok(_) => (),
            Err(e) => {
                return Err(e);
            },
        }
        if data.status() != AuctionStatus::PendingSettle {
            return Err(AuctionError::BadState);
        }
        let (winner, bid) = data.current_winner();
        let out = match Self::settle(data, winner, commissions) {
            Ok(out) => out,
            Err(e) => {
                return Err(e);
            },
        };
        data.update_status(AuctionStatus::Settled);
        emit(&mut data.events, AuctionEvent::Settled { account: winner, bid });
        Ok(out)
    }

    /// The administrator rejects a pending settlement: the token returns
    /// to the owner, every non-synthetic bid is refunded, and the status
    /// becomes `Rejected`. Calling it in any other status fails with
    /// `BadState` and changes nothing.
    pub fn reject(data: &mut AuctionData, caller: &AccountId) -> (r: Result<
        SettleOutcome,
        AuctionError,
    >)
        requires
            old(data).wf(),
        ensures
            final(data).wf(),
            caller@ != old(data).marketplace_account@ ==> r == Err::<SettleOutcome, AuctionError>(
                AuctionError::InvalidCaller,
            ) && *final(data) == *old(data),
            caller@ == old(data).marketplace_account@ && old(data).status
                != AuctionStatus::PendingSettle ==> r == Err::<SettleOutcome, AuctionError>(
                AuctionError::BadState,
            ) && *final(data) == *old(data),
            caller@ == old(data).marketplace_account@ && old(data).status
                == AuctionStatus::PendingSettle ==> (r matches Ok(out) && {
                &&& out.token_recipient == old(data).token_owner
                &&& out.payouts@ == refund_payouts(old(data).bids@, PayoutReason::ReturnBid)
                &&& payouts_total(out.payouts@) == ledger_funds(old(data).bids@)
                &&& final(data).bids@ == Seq::<BidEntry>::empty()
                &&& final(data).status == AuctionStatus::Rejected
                &&& final(data).events@ == old(data).events@.push(
                    AuctionEvent::SettlementRejected { account: old(data).current_winner },
                )
                &&& *final(data) == (AuctionData {
                    bids: final(data).bids,
                    status: AuctionStatus::Rejected,
                    events: final(data).events,
                    ..*old(data)
                })
            }),
    {
        match Self::check_admin(data, caller) {
            Ok(_) => (),
            Err(e) => {
                return Err(e);
            },
        }
        if data.status() != AuctionStatus::PendingSettle {
            return Err(AuctionError::BadState);
        }
        let (winner, _bid) = data.current_winner();
        let out = match Self::settle(data, None, None) {
            Ok(out) => out,
            Err(e) => {
                return Err(e);
            },
        };
        data.update_status(AuctionStatus::Rejected);
        emit(&mut data.events, AuctionEvent::SettlementRejected { account: winner });
        Ok(out)
    }
}

/// The share piece of a split: a thousandth of the proceeds left after
/// the marketplace fee.
pub(crate) fn split_share_piece(amount: u64, rate: u32) -> (r: u64)
    requires
        rate <= 1000,
    ensures
        r as int == share_piece_of(amount, rate),
{
    let quotient = amount / 1000;
    proof {
        vstd::arithmetic::div_mod::lemma_fundamental_div_mod(amount as int, 1000);
        vstd::arithmetic::mul::lemma_mul_inequality(rate as int, 1000, quotient as int);
        vstd::arithmetic::mul::lemma_mul_is_commutative(quotient as int, rate as int);
        vstd::arithmetic::mul::lemma_mul_is_commutative(quotient as int, 1000);
        assert(quotient * rate <= amount);
    }
    let market_share = quotient * (rate as u64);
    let proceeds = amount - market_share;
    proceeds / 1000
}

/// Whether the split would pay some commission entry exactly nothing.
pub(crate) fn find_zero_share(share_piece: u64, table: &Vec<(AccountId, u16)>) -> (r: bool)
    ensures
        r == has_zero_share(crate::commission::tbl_view(table@), share_piece as int),
{
    let ghost tbl = crate::commission::tbl_view(table@);
    let n = table.len();
    let mut i: usize = 0;
    while i < n
        invariant
            i <= n,
            n == table@.len(),
            tbl == crate::commission::tbl_view(table@),
            forall|j: int| 0 <= j < i ==> (share_piece as int) * (#[trigger] tbl[j]).1 != 0,
        decreases n - i,
    {
        let rate = table[i].1;
        proof {
            assert(tbl[i as int] == (table@[i as int].0@, table@[i as int].1));
            assert((share_piece as int) * (rate as int) <= 0xFFFFFFFFFFFFFFFF * 0xFFFF)
                by (nonlinear_arith)
                requires
                    share_piece <= 0xFFFFFFFFFFFFFFFFu64,
                    rate <= 0xFFFFu16,
            ;
        }
        let share = (share_piece as u128) * (rate as u128);
        if share == 0 {
            return true;
        }
        i += 1;
    }
    false
}

/// Append the refunds a ledger owes, in ledger order.
fn push_refunds(payouts: &mut Vec<Payout>, bids: &crate::bids::Bids, reason: PayoutReason)
    ensures
        final(payouts)@ == old(payouts)@ + refund_payouts(bids@, reason),
{
    let ghost base = payouts@;
    let n = bids.len();
    let mut i: usize = 0;
    proof {
        assert(payouts@ =~= base + refund_payouts(bids@.take(0), reason));
    }
    while i < n
        invariant
            i <= n,
            n == bids@.len(),
            payouts@ == base + refund_payouts(bids@.take(i as int), reason),
        decreases n - i,
    {
        let e = bids.entry_at(i);
        proof {
            assert(bids@.take(i + 1 as int).drop_last() =~= bids@.take(i as int));
            assert(bids@.take(i + 1 as int).last() == bids@[i as int]);
        }
        if !e.synthetic {
            payouts.push(Payout { to: e.bidder, amount: e.amount, reason });
        }
        proof {
            assert(payouts@ =~= base + refund_payouts(bids@.take(i + 1 as int), reason));
        }
        i += 1;
    }
    proof {
        assert(bids@.take(n as int) =~= bids@);
    }
}

} // verus!
