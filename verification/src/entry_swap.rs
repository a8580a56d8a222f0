//! The entry actions of the Swap contract: guard checks composed with the
//! fixed-price strategy, in the order the contract performs them.

use vstd::prelude::*;

use crate::account::AccountId;
use crate::auction::{cancel_transition, raw_opt_view, Auction, SettleOutcome};
use crate::bids::entry_for;
use crate::commission::RawCommissions;
use crate::data::{AuctionData, AuctionStatus};
use crate::dutch::{instant_bid_behavior, InstantBidOutcome};
use crate::error::AuctionError;
use crate::swap::Swap;

verus! {

/// The guard outcome of an ordinary Swap bid: straight from a session
/// account, while the listing is live, from a verified bidder.
pub open spec fn session_bid_guard(
    d: AuctionData,
    direct_session: bool,
    kyc_verified: bool,
    now: u64,
) -> Option<AuctionError> {
    if !direct_session {
        Some(AuctionError::DisallowedMiddleware)
    } else if now < d.start_time {
        Some(AuctionError::EarlyBid)
    } else if now >= d.end_time {
        Some(AuctionError::LateBid)
    } else if d.status != AuctionStatus::Live {
        Some(AuctionError::BadState)
    } else if !kyc_verified {
        Some(AuctionError::KYCError)
    } else {
        None
    }
}

/// The guard outcome of a synthetic Swap bid, checked in the contract's
/// order: the listing must be live, the account allowed the amount, and
/// the caller must be the administrator.
pub open spec fn synthetic_bid_guard(
    d: AuctionData,
    caller: AccountId,
    allowed: bool,
    now: u64,
) -> Option<AuctionError> {
    if now < d.start_time {
        Some(AuctionError::EarlyBid)
    } else if now >= d.end_time {
        Some(AuctionError::LateBid)
    } else if d.status != AuctionStatus::Live {
        Some(AuctionError::BadState)
    } else if !allowed {
        Some(AuctionError::SyntheticBidNotAllowed)
    } else if caller@ != d.marketplace_account@ {
        Some(AuctionError::InvalidCaller)
    } else {
        None
    }
}

/// Hit the swap, as the contract's bid entry point does.
pub fn bid(
    data: &mut AuctionData,
    direct_session: bool,
    kyc_verified: bool,
    account: AccountId,
    bid_amount: u64,
    now: u64,
    commissions: Option<&RawCommissions>,
) -> (r: Result<InstantBidOutcome, AuctionError>)
    requires
        old(data).wf(),
        old(data).swap_price is Some,
    ensures
        final(data).wf(),
        (match session_bid_guard(*old(data), direct_session, kyc_verified, now) {
            Some(e) => r == Err::<InstantBidOutcome, AuctionError>(e)
                && *final(data) == *old(data),
            None => if bid_amount < old(data).swap_price.unwrap() {
                r == Err::<InstantBidOutcome, AuctionError>(AuctionError::BidTooLow)
                    && *final(data) == *old(data)
            } else {
                instant_bid_behavior(
                    *old(data),
                    *final(data),
                    account,
                    old(data).swap_price.unwrap(),
                    false,
                    raw_opt_view(commissions),
                    r,
                )
            },
        }),
{
    if !direct_session {
        return Err(AuctionError::DisallowedMiddleware);
    }
    match Auction::check_valid(data, now) {
        Ok(_) => (),
        Err(e) => {
            return Err(e);
        },
    }
    match Auction::verify(kyc_verified) {
        Ok(_) => (),
        Err(e) => {
            return Err(e);
        },
    }
    Swap::bid(data, account, bid_amount, false, commissions)
}

/// Place a synthetic Swap bid on a bidder's behalf.
pub fn synthetic_bid(
    data: &mut AuctionData,
    caller: AccountId,
    allowed: bool,
    bidder: AccountId,
    bid_amount: u64,
    now: u64,
    commissions: Option<&RawCommissions>,
) -> (r: Result<InstantBidOutcome, AuctionError>)
    requires
        old(data).wf(),
        old(data).swap_price is Some,
    ensures
        final(data).wf(),
        (match synthetic_bid_guard(*old(data), caller, allowed, now) {
            Some(e) => r == Err::<InstantBidOutcome, AuctionError>(e)
                && *final(data) == *old(data),
            None => if bid_amount < old(data).swap_price.unwrap() {
                r == Err::<InstantBidOutcome, AuctionError>(AuctionError::BidTooLow)
                    && *final(data) == *old(data)
            } else {
                instant_bid_behavior(
                    *old(data),
                    *final(data),
                    bidder,
                    old(data).swap_price.unwrap(),
                    true,
                    raw_opt_view(commissions),
                    r,
                )
            },
        }),
{
    match Auction::check_valid(data, now) {
        Ok(_) => (),
        Err(e) => {
            return Err(e);
        },
    }
    match Auction::synth_allowed(allowed) {
        Ok(_) => (),
        Err(e) => {
            return Err(e);
        },
    }
    match Auction::check_admin(data, &caller) {
        Ok(_) => (),
        Err(e) => {
            return Err(e);
        },
    }
    Swap::bid(data, bidder, bid_amount, true, commissions)
}

/// Cancel the listing, as the owner-only entry point does.
pub fn cancel_auction(data: &mut AuctionData, caller: AccountId, now: u64) -> (r: Result<
    SettleOutcome,
    AuctionError,
>)
    requires
        old(data).wf(),
    ensures
        final(data).wf(),
        (if now < old(data).start_time {
            r == Err::<SettleOutcome, AuctionError>(AuctionError::EarlyBid)
                && *final(data) == *old(data)
        } else if now >= old(data).end_time {
            r == Err::<SettleOutcome, AuctionError>(AuctionError::LateBid)
                && *final(data) == *old(data)
        } else if old(data).status != AuctionStatus::Live {
            r == Err::<SettleOutcome, AuctionError>(AuctionError::BadState)
                && *final(data) == *old(data)
        } else if caller@ != old(data).token_owner@ {
            r == Err::<SettleOutcome, AuctionError>(AuctionError::InvalidCaller)
                && *final(data) == *old(data)
        } else {
            (r matches Ok(out) && cancel_transition(
                *old(data),
                *final(data),
                out.token_recipient,
                out.payouts@,
            ))
        }),
{
    match Auction::check_valid(data, now) {
        Ok(_) => (),
        Err(e) => {
            return Err(e);
        },
    }
    match Auction::check_owner(data, &caller) {
        Ok(_) => (),
        Err(e) => {
            return Err(e);
        },
    }
    Swap::cancel(data)
}

/// Read the caller's standing bid, as the read-only entry point does.
pub fn get_bid(data: &AuctionData, account: &AccountId) -> (r: Option<(u64, bool)>)
    ensures
        r == entry_for(data.bids@, account@),
{
    data.bids.get(account)
}

} // verus!
