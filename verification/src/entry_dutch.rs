//! The entry actions of the Dutch auction contract: guard checks composed
//! with the descending-price strategy, in the order the contract performs
//! them.

use vstd::prelude::*;

use crate::account::AccountId;
use crate::auction::{cancel_transition, raw_opt_view, Auction, SettleOutcome};
use crate::commission::RawCommissions;
use crate::data::{AuctionData, AuctionStatus};
use crate::dutch::{dutch_price, instant_bid_behavior, DutchAuction, InstantBidOutcome};
use crate::entry_swap::{session_bid_guard, synthetic_bid_guard};
use crate::error::AuctionError;

verus! {

/// Place a bid at the current computed price, as the contract's bid entry
/// point does.
pub fn bid(
    data: &mut AuctionData,
    direct_session: bool,
    kyc_verified: bool,
    account: AccountId,
    bid_amount: u64,
    now: u64,
    commissions: Option<&RawCommissions>,
) -> (r: Result<InstantBidOutcome, AuctionError>)
    requires
        old(data).wf(),
        old(data).dutch_configured(),
    ensures
        final(data).wf(),
        (match session_bid_guard(*old(data), direct_session, kyc_verified, now) {
            Some(e) => r == Err::<InstantBidOutcome, AuctionError>(e)
                && *final(data) == *old(data),
            None => if bid_amount < dutch_price(*old(data), now) {
                r == Err::<InstantBidOutcome, AuctionError>(AuctionError::BidTooLow)
                    && *final(data) == *old(data)
            } else {
                instant_bid_behavior(
                    *old(data),
                    *final(data),
                    account,
                    bid_amount,
                    false,
                    raw_opt_view(commissions),
                    r,
                )
            },
        }),
{
    if !direct_session {
        return Err(AuctionError::DisallowedMiddleware);
    }
    match Auction::check_valid(data, now) {
        Ok(_) => (),
        Err(e) => {
            return Err(e);
        },
    }
    match Auction::verify(kyc_verified) {
        Ok(_) => (),
        Err(e) => {
            return Err(e);
        },
    }
    DutchAuction::bid(data, account, bid_amount, false, now, commissions)
}

/// Place a synthetic bid at the current computed price on a bidder's
/// behalf.
pub fn synthetic_bid(
    data: &mut AuctionData,
    caller: AccountId,
    allowed: bool,
    bidder: AccountId,
    bid_amount: u64,
    now: u64,
    commissions: Option<&RawCommissions>,
) -> (r: Result<InstantBidOutcome, AuctionError>)
    requires
        old(data).wf(),
        old(data).dutch_configured(),
    ensures
        final(data).wf(),
        (match synthetic_bid_guard(*old(data), caller, allowed, now) {
            Some(e) => r == Err::<InstantBidOutcome, AuctionError>(e)
                && *final(data) == *old(data),
            None => if bid_amount < dutch_price(*old(data), now) {
                r == Err::<InstantBidOutcome, AuctionError>(AuctionError::BidTooLow)
                    && *final(data) == *old(data)
            } else {
                instant_bid_behavior(
                    *old(data),
                    *final(data),
                    bidder,
                    bid_amount,
                    true,
                    raw_opt_view(commissions),
                    r,
                )
            },
        }),
{
    match Auction::check_valid(data, now) {
        Ok(_) => (),
        Err(e) => {
            return Err(e);
        },
    }
    match Auction::synth_allowed(allowed) {
        Ok(_) => (),
        Err(e) => {
            return Err(e);
        },
    }
    match Auction::check_admin(data, &caller) {
        Ok(_) => (),
        Err(e) => {
            return Err(e);
        },
    }
    DutchAuction::bid(data, bidder, bid_amount, true, now, commissions)
}

/// Cancel the auction, as the owner-only entry point does.
pub fn cancel_auction(data: &mut AuctionData, caller: AccountId, now: u64) -> (r: Result<
    SettleOutcome,
    AuctionError,
>)
    requires
        old(data).wf(),
    ensures
        final(data).wf(),
        (if now < old(data).start_time {
            r == Err::<SettleOutcome, AuctionError>(AuctionError::EarlyBid)
                && *final(data) == *old(data)
        } else if now >= old(data).end_time {
            r == Err::<SettleOutcome, AuctionError>(AuctionError::LateBid)
                && *final(data) == *old(data)
        } else if old(data).status != AuctionStatus::Live {
            r == Err::<SettleOutcome, AuctionError>(AuctionError::BadState)
                && *final(data) == *old(data)
        } else if caller@ != old(data).token_owner@ {
            r == Err::<SettleOutcome, AuctionError>(AuctionError::InvalidCaller)
                && *final(data) == *old(data)
        } else {
            (r matches Ok(out) && cancel_transition(
                *old(data),
                *final(data),
                out.token_recipient,
                out.payouts@,
            ))
        }),
{
    match Auction::check_valid(data, now) {
        Ok(_) => (),
        Err(e) => {
            return Err(e);
        },
    }
    match Auction::check_owner(data, &caller) {
        Ok(_) => (),
        Err(e) => {
            return Err(e);
        },
    }
    DutchAuction::cancel(data)
}

} // verus!
