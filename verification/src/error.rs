//! The error taxonomy of the auction engine.
//!
//! Every failure aborts the current entry action: the caller observes the
//! specific error and no state change.

use vstd::prelude::*;

verus! {

/// Why an entry action was rejected, or which leg of a fund movement the
/// host must report as failed.
#[derive(Clone, Copy, Debug, PartialEq, Eq, Structural)]
pub enum AuctionError {
    /// The action is invalid for the current status, or an internal
    /// invariant was violated (such as a commission share of exactly zero).
    BadState,
    /// The caller is neither the owner nor the administrator the action
    /// demands.
    InvalidCaller,
    /// An ordinary bid arrived through an intermediate contract instead of
    /// directly from the session account.
    DisallowedMiddleware,
    /// The KYC service answered negatively for the account.
    KYCError,
    /// The synthetic-bid permission service denied the account.
    SyntheticBidNotAllowed,
    /// The action arrived before `start_time`.
    EarlyBid,
    /// The action arrived at or after `end_time`.
    LateBid,
    /// The configured times are inconsistent at creation.
    InvalidTimes,
    /// A bid cancellation arrived at or after `cancel_time`.
    LateCancellation,
    /// `finalize` with its time check arrived before `end_time`.
    EarlyFinalize,
    /// The bid does not beat the current winning bid by the minimum step,
    /// or does not reach the current computed price.
    BidTooLow,
    /// A repeat bid from the same bidder does not exceed their standing bid.
    NewBidLower,
    /// The bid is below the reserve price.
    BidBelowReserve,
    /// A price parameter at creation is not above the rate denominator, or
    /// a Dutch starting price does not exceed its reserve.
    InvalidPrices,
    /// The bidder has no standing bid to cancel.
    NoBid,
    /// No gift record exists for the token identifier.
    TokenNotFound,
    /// The auction still has a winner and cannot be cancelled.
    CannotCancelAuction,
    /// The token collection reported no commission table.
    MissingCommissions,
    /// A commission key has no actor segment.
    CommissionActorSplit,
    /// A commission key has no property segment.
    CommissionPropertySplit,
    /// An actor's account key has no matching rate key.
    MismatchedCommissionAccount,
    /// An actor's rate key has no matching account key.
    MismatchedCommissionRate,
    /// A commission key names a property other than account or rate.
    InvalidcommissionProperty,
    /// The commission rates sum to more than the rate denominator.
    CommissionTooManyShares,
    /// A commission account string does not parse as an account hash.
    CommissionAccountIncorrectSerialization,
    /// A commission rate string does not parse as a number.
    CommissionRateIncorrectSerialization,
    /// The host failed to move a bid into the auction's funds container.
    TransferBidToAuction,
    /// The host failed to pay the marketplace share.
    TransferMarketPlaceShare,
    /// The host failed to pay a commission share.
    TransferCommissionShare,
    /// The host failed to pay the beneficiary share.
    TransferBeneficiaryShare,
    /// The host failed to return a bid at the end of the auction.
    AuctionEndReturnBids,
    /// The host failed to refund the lowest bidder on eviction.
    BidReturnLowest,
    /// The host failed to refund a cancelled bid.
    AuctionCancelReturnBid,
}

} // verus!
