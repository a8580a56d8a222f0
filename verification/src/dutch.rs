//! The descending-price Dutch auction: the price falls linearly from the
//! starting price to the reserve, and the first bid at or above the
//! current price wins and settles in the same call.

use vstd::prelude::*;

use crate::account::AccountId;
use crate::auction::{
    cancel_transition, find_zero_share, raw_opt_view, settle_err_of, settle_ok_describes,
    split_share_piece, Auction, SettleOutcome,
};
use crate::bids::{upsert_entry, BidEntry};
use crate::commission::RawCommissions;
use crate::data::{AuctionData, AuctionStatus};
use crate::error::AuctionError;
use crate::events::{emit, AuctionEvent};

verus! {

/// What the host must execute after an accepted Dutch or Swap bid: pull
/// the deposit from the bidder's purse, and, unless the bid was synthetic,
/// carry out the settlement that happened in the same call.
#[derive(Debug)]
pub struct InstantBidOutcome {
    pub deposit: u64,
    pub settlement: Option<SettleOutcome>,
}

/// The Dutch price at time `now`, as the accessor computes it.
pub open spec fn dutch_price(d: AuctionData, now: u64) -> int {
    d.start_price.unwrap() - ((d.start_price.unwrap() - d.reserve_price.unwrap()) / (d.end_time
        - d.start_time)) * (now - d.start_time)
}

/// The whole behavior of an instant-settle bid recorded at amount
/// `charged`: the bidder's entry is recorded and they become the winner;
/// a synthetic bid stalls the auction at `PendingSettle`, any other bid
/// settles it in the same call, with the deposit owed alongside the
/// settlement's payouts.
pub open spec fn instant_bid_behavior(
    pre: AuctionData,
    post: AuctionData,
    account: AccountId,
    charged: u64,
    synthetic: bool,
    rawo: Option<Seq<(Seq<u8>, Seq<u8>)>>,
    r: Result<InstantBidOutcome, AuctionError>,
) -> bool {
    let mid = upsert_entry(pre.bids@, account, charged, synthetic);
    if synthetic {
        &&& r matches Ok(out) && out.deposit == 0 && out.settlement is None
        &&& post.bids@ == mid
        &&& post.current_winner == Some(account)
        &&& post.winning_bid == Some((charged, true))
        &&& post.status == AuctionStatus::PendingSettle
        &&& post.events@ == pre.events@.push(
            AuctionEvent::PendingSettlement { account, bid: (charged, true) },
        )
        &&& post == (AuctionData {
            bids: post.bids,
            current_winner: Some(account),
            winning_bid: Some((charged, true)),
            status: AuctionStatus::PendingSettle,
            events: post.events,
            ..pre
        })
    } else {
        match settle_err_of(pre, mid, Some(account), rawo) {
            Some(e) => r == Err::<InstantBidOutcome, AuctionError>(e) && post == pre,
            None => (r matches Ok(out) && out.settlement matches Some(so) && {
                &&& out.deposit == charged
                &&& settle_ok_describes(pre, mid, Some(account), rawo, so.token_recipient, so.payouts@)
                &&& so.token_recipient == account
                &&& post.bids@ == Seq::<BidEntry>::empty()
                &&& post.current_winner == Some(account)
                &&& post.winning_bid == Some((charged, false))
                &&& post.status == AuctionStatus::Settled
                &&& post.events@ == pre.events@.push(
                    AuctionEvent::Settled { account: Some(account), bid: Some((charged, false)) },
                )
                &&& post == (AuctionData {
                    bids: post.bids,
                    current_winner: Some(account),
                    winning_bid: Some((charged, false)),
                    status: AuctionStatus::Settled,
                    events: post.events,
                    ..pre
                })
            }),
        }
    }
}

/// The descending-price strategy.
pub struct DutchAuction;

impl DutchAuction {
    /// Place a bid. The first bid at or above the current computed price
    /// wins immediately: the bidder becomes the winner and, unless the
    /// bid is synthetic, the auction settles in the same call; a
    /// synthetic winning bid stalls at `PendingSettle`. A bid below the
    /// current price fails with `BidTooLow`.
    pub fn bid(
        data: &mut AuctionData,
        account: AccountId,
        bid: u64,
        synthetic: bool,
        now: u64,
        commissions: Option<&RawCommissions>,
    ) -> (r: Result<InstantBidOutcome, AuctionError>)
        requires
            old(data).wf(),
            old(data).dutch_configured(),
            old(data).start_time <= now < old(data).end_time,
        ensures
            final(data).wf(),
            bid < dutch_price(*old(data), now) ==> r == Err::<InstantBidOutcome, AuctionError>(
                AuctionError::BidTooLow,
            ) && *final(data) == *old(data),
            bid >= dutch_price(*old(data), now) ==> instant_bid_behavior(
                *old(data),
                *final(data),
                account,
                bid,
                synthetic,
                raw_opt_view(commissions),
                r,
            ),
    {
        let current_price = data.current_price(now);
        if bid < current_price {
            return Err(AuctionError::BidTooLow);
        }
        instant_bid(data, account, bid, synthetic, commissions)
    }

    /// Cancel the auction before a bid has taken it: the token returns to
    /// the owner and any recorded bids are refunded.
    pub fn cancel(data: &mut AuctionData) -> (r: Result<SettleOutcome, AuctionError>)
        requires
            old(data).wf(),
        ensures
            final(data).wf(),
            (r matches Ok(out) && cancel_transition(
                *old(data),
                *final(data),
                out.token_recipient,
                out.payouts@,
            )),
    {
        cancel_with_refunds(data)
    }
}

/// Record the winning bid of a Dutch or Swap auction and resolve it in
/// the same call: settle at once for an ordinary bid, stall at
/// `PendingSettle` for a synthetic one. `charged` is the amount recorded
/// and settled.
pub(crate) fn instant_bid(
    data: &mut AuctionData,
    account: AccountId,
    charged: u64,
    synthetic: bool,
    commissions: Option<&RawCommissions>,
) -> (r: Result<InstantBidOutcome, AuctionError>)
    requires
        old(data).wf(),
    ensures
        final(data).wf(),
        instant_bid_behavior(
            *old(data),
            *final(data),
            account,
            charged,
            synthetic,
            raw_opt_view(commissions),
            r,
        ),
{
    let ghost pre = *old(data);
    let ghost mid = upsert_entry(pre.bids@, account, charged, synthetic);
    proof {
        crate::bids::lemma_upsert_entry_props(pre.bids@, account, charged, synthetic);
    }
    if !synthetic {
        let raw = match commissions {
            Some(raw) => raw,
            None => {
                return Err(AuctionError::MissingCommissions);
            },
        };
        let table = match AuctionData::compute_commissions(raw) {
            Ok(t) => t,
            Err(e) => {
                return Err(e);
            },
        };
        let (_, marketplace_commission) = data.marketplace_data();
        let piece = split_share_piece(charged, marketplace_commission);
        if find_zero_share(piece, &table) {
            return Err(AuctionError::BadState);
        }
        data.bids.upsert(&account, charged, synthetic);
        data.update_current_winner(Some(account), Some(charged), synthetic);
        let out = match Auction::settle(data, Some(account), commissions) {
            Ok(out) => out,
            Err(e) => {
                proof {
                    assert(false);
                }
                return Err(e);
            },
        };
        data.update_status(AuctionStatus::Settled);
        emit(
            &mut data.events,
            AuctionEvent::Settled { account: Some(account), bid: Some((charged, false)) },
        );
        Ok(InstantBidOutcome { deposit: charged, settlement: Some(out) })
    } else {
        data.bids.upsert(&account, charged, synthetic);
        data.update_current_winner(Some(account), Some(charged), synthetic);
        data.update_status(AuctionStatus::PendingSettle);
        emit(&mut data.events, AuctionEvent::PendingSettlement { account, bid: (charged, true) });
        Ok(InstantBidOutcome { deposit: 0, settlement: None })
    }
}

/// Cancel an instant-settle auction: refund whatever the ledger holds and
/// return the token to the owner.
pub(crate) fn cancel_with_refunds(data: &mut AuctionData) -> (r: Result<
    SettleOutcome,
    AuctionError,
>)
    requires
        old(data).wf(),
    ensures
        final(data).wf(),
        (r matches Ok(out) && cancel_transition(
            *old(data),
            *final(data),
            out.token_recipient,
            out.payouts@,
        )),
{
    let out = match Auction::settle(data, None, None) {
        Ok(out) => out,
        Err(e) => {
            proof {
                assert(false);
            }
            return Err(e);
        },
    };
    data.update_status(AuctionStatus::Cancelled);
    emit(&mut data.events, AuctionEvent::Cancelled);
    Ok(out)
}

} // verus!
