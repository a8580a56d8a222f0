//! The entry actions of the English auction contract: each composes the
//! guard checks with the strategy, in the order the contract performs
//! them. Host facts — who called, whether the call came straight from the
//! session account, what the KYC and permission services answered, the
//! clock, and the commission metadata — arrive as arguments.

use vstd::prelude::*;

use crate::account::AccountId;
use crate::auction::{raw_opt_view, Auction, Payout, SettleOutcome};
use crate::commission::RawCommissions;
use crate::data::{AuctionData, AuctionStatus};
use crate::english::{
    english_bid_behavior, english_cancel_bid_behavior, english_finalize_behavior, EnglishAuction,
    EnglishBidOutcome,
};
use crate::error::AuctionError;

verus! {

/// The guard outcome of an ordinary bid: it must come straight from a
/// session account, while the auction is live, from a verified bidder.
pub open spec fn session_bid_guard(
    d: AuctionData,
    direct_session: bool,
    kyc_verified: bool,
    now: u64,
) -> Option<AuctionError> {
    if !direct_session {
        Some(AuctionError::DisallowedMiddleware)
    } else if now < d.start_time {
        Some(AuctionError::EarlyBid)
    } else if now >= d.end_time {
        Some(AuctionError::LateBid)
    } else if d.status != AuctionStatus::Live {
        Some(AuctionError::BadState)
    } else if !kyc_verified {
        Some(AuctionError::KYCError)
    } else {
        None
    }
}

/// The guard outcome of a synthetic bid: only the administrator, while
/// the auction is live, for an allowed account and amount.
pub open spec fn synthetic_bid_guard(
    d: AuctionData,
    caller: AccountId,
    allowed: bool,
    now: u64,
) -> Option<AuctionError> {
    if caller@ != d.marketplace_account@ {
        Some(AuctionError::InvalidCaller)
    } else if now < d.start_time {
        Some(AuctionError::EarlyBid)
    } else if now >= d.end_time {
        Some(AuctionError::LateBid)
    } else if d.status != AuctionStatus::Live {
        Some(AuctionError::BadState)
    } else if !allowed {
        Some(AuctionError::SyntheticBidNotAllowed)
    } else {
        None
    }
}

/// The live-and-before-cancel-deadline check shared by both cancellation
/// entries.
pub open spec fn cancel_window_guard(d: AuctionData, now: u64) -> Option<AuctionError> {
    if now < d.start_time {
        Some(AuctionError::EarlyBid)
    } else if now >= d.end_time {
        Some(AuctionError::LateBid)
    } else if d.status != AuctionStatus::Live {
        Some(AuctionError::BadState)
    } else if (match d.cancel_time {
        Some(c) => now >= c,
        None => false,
    }) {
        Some(AuctionError::LateCancellation)
    } else {
        None
    }
}

/// Place an ordinary bid, as the contract's bid entry point does: the
/// bidder pays the deposit from their purse on acceptance.
pub fn bid(
    data: &mut AuctionData,
    direct_session: bool,
    kyc_verified: bool,
    account: AccountId,
    bid_amount: u64,
    now: u64,
) -> (r: Result<EnglishBidOutcome, AuctionError>)
    requires
        old(data).wf(),
        old(data).reserve_price is Some,
    ensures
        final(data).wf(),
        (match session_bid_guard(*old(data), direct_session, kyc_verified, now) {
            Some(e) => r == Err::<EnglishBidOutcome, AuctionError>(e)
                && *final(data) == *old(data),
            None => english_bid_behavior(
                *old(data),
                *final(data),
                account,
                bid_amount,
                false,
                now,
                r,
            ),
        }),
{
    if !direct_session {
        return Err(AuctionError::DisallowedMiddleware);
    }
    match Auction::check_valid(data, now) {
        Ok(_) => (),
        Err(e) => {
            return Err(e);
        },
    }
    match Auction::verify(kyc_verified) {
        Ok(_) => (),
        Err(e) => {
            return Err(e);
        },
    }
    EnglishAuction::bid(data, account, bid_amount, false, now)
}

/// Place a synthetic bid on a bidder's behalf, as the administrator-only
/// entry point does: no funds move at bid time.
pub fn synthetic_bid(
    data: &mut AuctionData,
    caller: AccountId,
    allowed: bool,
    bidder: AccountId,
    bid_amount: u64,
    now: u64,
) -> (r: Result<EnglishBidOutcome, AuctionError>)
    requires
        old(data).wf(),
        old(data).reserve_price is Some,
    ensures
        final(data).wf(),
        (match synthetic_bid_guard(*old(data), caller, allowed, now) {
            Some(e) => r == Err::<EnglishBidOutcome, AuctionError>(e)
                && *final(data) == *old(data),
            None => english_bid_behavior(
                *old(data),
                *final(data),
                bidder,
                bid_amount,
                true,
                now,
                r,
            ),
        }),
{
    match Auction::check_admin(data, &caller) {
        Ok(_) => (),
        Err(e) => {
            return Err(e);
        },
    }
    match Auction::check_valid(data, now) {
        Ok(_) => (),
        Err(e) => {
            return Err(e);
        },
    }
    match Auction::synth_allowed(allowed) {
        Ok(_) => (),
        Err(e) => {
            return Err(e);
        },
    }
    EnglishAuction::bid(data, bidder, bid_amount, true, now)
}

/// Withdraw the caller's own bid, as the cancel entry point does.
pub fn cancel_bid(data: &mut AuctionData, kyc_verified: bool, account: AccountId, now: u64) -> (r:
    Result<Option<Payout>, AuctionError>)
    requires
        old(data).wf(),
    ensures
        final(data).wf(),
        (match cancel_window_guard(*old(data), now) {
            Some(e) => r == Err::<Option<Payout>, AuctionError>(e) && *final(data) == *old(data),
            None => if !kyc_verified {
                r == Err::<Option<Payout>, AuctionError>(AuctionError::KYCError) && *final(data)
                    == *old(data)
            } else {
                english_cancel_bid_behavior(*old(data), *final(data), account, r)
            },
        }),
{
    match EnglishAuction::check_valid(data, now) {
        Ok(_) => (),
        Err(e) => {
            return Err(e);
        },
    }
    match Auction::verify(kyc_verified) {
        Ok(_) => (),
        Err(e) => {
            return Err(e);
        },
    }
    EnglishAuction::cancel_bid(data, account)
}

/// Withdraw a synthetic bid on a bidder's behalf, as the
/// administrator-only entry point does.
pub fn cancel_synthetic_bid(
    data: &mut AuctionData,
    caller: AccountId,
    enabled: bool,
    bidder: AccountId,
    now: u64,
) -> (r: Result<Option<Payout>, AuctionError>)
    requires
        old(data).wf(),
    ensures
        final(data).wf(),
        caller@ != old(data).marketplace_account@ ==> r == Err::<Option<Payout>, AuctionError>(
            AuctionError::InvalidCaller,
        ) && *final(data) == *old(data),
        caller@ == old(data).marketplace_account@ ==> (match cancel_window_guard(
            *old(data),
            now,
        ) {
            Some(e) => r == Err::<Option<Payout>, AuctionError>(e) && *final(data) == *old(data),
            None => if !enabled {
                r == Err::<Option<Payout>, AuctionError>(AuctionError::SyntheticBidNotAllowed)
                    && *final(data) == *old(data)
            } else {
                english_cancel_bid_behavior(*old(data), *final(data), bidder, r)
            },
        }),
{
    match Auction::check_admin(data, &caller) {
        Ok(_) => (),
        Err(e) => {
            return Err(e);
        },
    }
    match EnglishAuction::check_valid(data, now) {
        Ok(_) => (),
        Err(e) => {
            return Err(e);
        },
    }
    match Auction::synth_enabled(enabled) {
        Ok(_) => (),
        Err(e) => {
            return Err(e);
        },
    }
    EnglishAuction::cancel_bid(data, bidder)
}

/// Cancel the whole auction, as the owner-only entry point does.
pub fn cancel_auction(data: &mut AuctionData, caller: AccountId, now: u64) -> (r: Result<
    SettleOutcome,
    AuctionError,
>)
    requires
        old(data).wf(),
    ensures
        final(data).wf(),
        (if now < old(data).start_time {
            r == Err::<SettleOutcome, AuctionError>(AuctionError::EarlyBid) && *final(data)
                == *old(data)
        } else if now >= old(data).end_time {
            r == Err::<SettleOutcome, AuctionError>(AuctionError::LateBid)
                && *final(data) == *old(data)
        } else if old(data).status != AuctionStatus::Live {
            r == Err::<SettleOutcome, AuctionError>(AuctionError::BadState) && *final(data)
                == *old(data)
        } else if caller@ != old(data).token_owner@ {
            r == Err::<SettleOutcome, AuctionError>(AuctionError::InvalidCaller) && *final(data)
                == *old(data)
        } else if old(data).current_winner is Some || old(data).winning_bid is Some {
            r == Err::<SettleOutcome, AuctionError>(AuctionError::CannotCancelAuction)
                && *final(data) == *old(data)
        } else {
            (r matches Ok(out) && crate::auction::cancel_transition(
                *old(data),
                *final(data),
                out.token_recipient,
                out.payouts@,
            ))
        }),
{
    match Auction::check_valid(data, now) {
        Ok(_) => (),
        Err(e) => {
            return Err(e);
        },
    }
    match Auction::check_owner(data, &caller) {
        Ok(_) => (),
        Err(e) => {
            return Err(e);
        },
    }
    EnglishAuction::cancel(data)
}

/// Finalize the auction, as the owner-only, time-checked entry point
/// does.
pub fn finalize(
    data: &mut AuctionData,
    caller: AccountId,
    now: u64,
    commissions: Option<&RawCommissions>,
) -> (r: Result<Option<SettleOutcome>, AuctionError>)
    requires
        old(data).wf(),
    ensures
        final(data).wf(),
        caller@ != old(data).token_owner@ ==> r == Err::<Option<SettleOutcome>, AuctionError>(
            AuctionError::InvalidCaller,
        ) && *final(data) == *old(data),
        caller@ == old(data).token_owner@ ==> english_finalize_behavior(
            *old(data),
            *final(data),
            true,
            now,
            raw_opt_view(commissions),
            r,
        ),
{
    match Auction::check_owner(data, &caller) {
        Ok(_) => (),
        Err(e) => {
            return Err(e);
        },
    }
    EnglishAuction::finalize(data, true, now, commissions)
}

} // verus!
