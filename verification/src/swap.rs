//! The fixed-price Swap listing: the first bid reaching the swap price
//! takes the token at that price, settling in the same call.

use vstd::prelude::*;

use crate::account::AccountId;
use crate::auction::{cancel_transition, raw_opt_view, SettleOutcome};
use crate::commission::RawCommissions;
use crate::data::AuctionData;
use crate::dutch::{cancel_with_refunds, instant_bid, instant_bid_behavior, InstantBidOutcome};
use crate::error::AuctionError;

verus! {

/// The fixed-price strategy.
pub struct Swap;

impl Swap {
    /// Hit the swap: a bid reaching the fixed swap price wins at exactly
    /// that price — the recorded and settled amount is the swap price,
    /// whatever was announced above it. Unless the bid is synthetic the
    /// listing settles in the same call; a synthetic winning bid stalls
    /// at `PendingSettle`. A bid below the swap price fails with
    /// `BidTooLow`.
    pub fn bid(
        data: &mut AuctionData,
        account: AccountId,
        bid: u64,
        synthetic: bool,
        commissions: Option<&RawCommissions>,
    ) -> (r: Result<InstantBidOutcome, AuctionError>)
        requires
            old(data).wf(),
            old(data).swap_price is Some,
        ensures
            final(data).wf(),
            bid < old(data).swap_price.unwrap() ==> r == Err::<InstantBidOutcome, AuctionError>(
                AuctionError::BidTooLow,
            ) && *final(data) == *old(data),
            bid >= old(data).swap_price.unwrap() ==> instant_bid_behavior(
                *old(data),
                *final(data),
                account,
                old(data).swap_price.unwrap(),
                synthetic,
                raw_opt_view(commissions),
                r,
            ),
    {
        let swap_price = data.swap_price();
        if bid < swap_price {
            return Err(AuctionError::BidTooLow);
        }
        instant_bid(data, account, swap_price, synthetic, commissions)
    }

    /// Cancel the listing before a bid has taken it: the token returns to
    /// the owner and any recorded bids are refunded.
    pub fn cancel(data: &mut AuctionData) -> (r: Result<SettleOutcome, AuctionError>)
        requires
            old(data).wf(),
        ensures
            final(data).wf(),
            (r matches Ok(out) && cancel_transition(
                *old(data),
                *final(data),
                out.token_recipient,
                out.payouts@,
            )),
    {
        cancel_with_refunds(data)
    }
}

} // verus!
