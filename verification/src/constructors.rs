//! Creation of auction instances: each format's immutable parameters are
//! validated once, against the deployment clock, and the starting state is
//! assembled.

use vstd::prelude::*;

use crate::account::AccountId;
use crate::bids::Bids;
use crate::commission::{commissions_valid, raw_view, validate_commissions, RawCommissions};
use crate::data::{AuctionData, AuctionStatus};
use crate::error::AuctionError;
use crate::events::EventLog;

verus! {

/// The default bidder cap of an English auction.
pub const DEFAULT_BIDDER_COUNT_CAP: u64 = 5;

/// The default anti-snipe window of an English auction, in milliseconds.
pub const DEFAULT_TIMER_EXTENSION: u64 = 300000;

/// Whether an English window is acceptable at deployment time `now`:
/// deployment must not be late, the window must be ordered, and a
/// cancellation deadline must lie inside it.
pub open spec fn cancellable_times_ok(
    now: u64,
    start: u64,
    cancel: Option<u64>,
    end: u64,
) -> bool {
    match cancel {
        Some(c) => now <= start && start <= c && c <= end && start < end,
        None => now <= start && start < end,
    }
}

/// Whether a fixed window is acceptable at deployment time `now`.
pub open spec fn fixed_times_ok(now: u64, start: u64, end: u64) -> bool {
    now <= start && start < end
}

/// Assemble a live English auction.
///
/// The commission metadata must validate, the reserve price must exceed
/// the rate denominator, and the window must be acceptable; the bidder
/// cap and the anti-snipe window take their defaults when absent.
pub fn create_english_auction(
    now: u64,
    token_owner: AccountId,
    beneficiary_account: AccountId,
    token_id: String,
    commissions: Option<&RawCommissions>,
    reserve_price: u64,
    start_time: u64,
    cancel_time: Option<u64>,
    end_time: u64,
    bidder_count_cap: Option<u64>,
    timer_extension: Option<u64>,
    minimum_bid_step: Option<u64>,
    marketplace_account: AccountId,
    marketplace_commission: u32,
) -> (r: Result<AuctionData, AuctionError>)
    requires
        marketplace_commission <= 1000,
    ensures
        commissions is None ==> r == Err::<AuctionData, AuctionError>(
            AuctionError::MissingCommissions,
        ),
        commissions matches Some(raw) ==> (commissions_valid(raw_view(raw@)) matches Err(e) ==> r
            == Err::<AuctionData, AuctionError>(e)),
        commissions matches Some(raw2) ==> (commissions_valid(raw_view(raw2@)) is Ok ==> {
            if reserve_price <= 1000 {
                r == Err::<AuctionData, AuctionError>(AuctionError::InvalidPrices)
            } else if !cancellable_times_ok(now, start_time, cancel_time, end_time) {
                r == Err::<AuctionData, AuctionError>(AuctionError::InvalidTimes)
            } else {
                r matches Ok(d) && {
                    &&& d.wf()
                    &&& d == (AuctionData {
                        status: AuctionStatus::Live,
                        token_owner,
                        beneficiary_account,
                        token_id: d.token_id,
                        start_time,
                        end_time,
                        cancel_time,
                        reserve_price: Some(reserve_price),
                        start_price: None,
                        swap_price: None,
                        current_winner: None,
                        winning_bid: None,
                        bidder_count_cap: Some(
                            match bidder_count_cap {
                                Some(c) => c,
                                None => DEFAULT_BIDDER_COUNT_CAP,
                            },
                        ),
                        minimum_bid_step,
                        timer_extension: Some(
                            match timer_extension {
                                Some(x) => x,
                                None => DEFAULT_TIMER_EXTENSION,
                            },
                        ),
                        marketplace_account,
                        marketplace_commission,
                        bids: d.bids,
                        events: d.events,
                    })
                    &&& d.token_id == token_id
                    &&& d.bids@ == Seq::<crate::bids::BidEntry>::empty()
                    &&& d.events@ == Seq::<crate::events::AuctionEvent>::empty()
                }
            }
        }),
{
    let raw = match commissions {
        Some(raw) => raw,
        None => {
            return Err(AuctionError::MissingCommissions);
        },
    };
    match validate_commissions(raw) {
        Ok(_) => (),
        Err(e) => {
            return Err(e);
        },
    }
    if reserve_price <= 1000 {
        return Err(AuctionError::InvalidPrices);
    }
    let times_ok = match cancel_time {
        Some(c) => now <= start_time && start_time <= c && c <= end_time && start_time < end_time,
        None => now <= start_time && start_time < end_time,
    };
    if !times_ok {
        return Err(AuctionError::InvalidTimes);
    }
    let cap = match bidder_count_cap {
        Some(c) => c,
        None => DEFAULT_BIDDER_COUNT_CAP,
    };
    let extension = match timer_extension {
        Some(x) => x,
        None => DEFAULT_TIMER_EXTENSION,
    };
    Ok(
        AuctionData {
            status: AuctionStatus::Live,
            token_owner,
            beneficiary_account,
            token_id,
            start_time,
            end_time,
            cancel_time,
            reserve_price: Some(reserve_price),
            start_price: None,
            swap_price: None,
            current_winner: None,
            winning_bid: None,
            bidder_count_cap: Some(cap),
            minimum_bid_step,
            timer_extension: Some(extension),
            marketplace_account,
            marketplace_commission,
            bids: Bids::new(),
            events: EventLog::new(),
        },
    )
}

/// Assemble a live Dutch auction.
///
/// The commission metadata must validate, both prices must exceed the
/// rate denominator with the starting price above the reserve, and the
/// window must be acceptable.
pub fn create_dutch_auction(
    now: u64,
    token_owner: AccountId,
    beneficiary_account: AccountId,
    token_id: String,
    commissions: Option<&RawCommissions>,
    start_price: u64,
    reserve_price: u64,
    start_time: u64,
    end_time: u64,
    marketplace_account: AccountId,
    marketplace_commission: u32,
) -> (r: Result<AuctionData, AuctionError>)
    requires
        marketplace_commission <= 1000,
    ensures
        commissions is None ==> r == Err::<AuctionData, AuctionError>(
            AuctionError::MissingCommissions,
        ),
        commissions matches Some(raw) ==> (commissions_valid(raw_view(raw@)) matches Err(e) ==> r
            == Err::<AuctionData, AuctionError>(e)),
        commissions matches Some(raw2) ==> (commissions_valid(raw_view(raw2@)) is Ok ==> {
            if start_price <= 1000 || reserve_price <= 1000 || start_price <= reserve_price {
                r == Err::<AuctionData, AuctionError>(AuctionError::InvalidPrices)
            } else if !fixed_times_ok(now, start_time, end_time) {
                r == Err::<AuctionData, AuctionError>(AuctionError::InvalidTimes)
            } else {
                r matches Ok(d) && {
                    &&& d.wf()
                    &&& d.dutch_configured()
                    &&& d == (AuctionData {
                        status: AuctionStatus::Live,
                        token_owner,
                        beneficiary_account,
                        token_id: d.token_id,
                        start_time,
                        end_time,
                        cancel_time: None,
                        reserve_price: Some(reserve_price),
                        start_price: Some(start_price),
                        swap_price: None,
                        current_winner: None,
                        winning_bid: None,
                        bidder_count_cap: None,
                        minimum_bid_step: None,
                        timer_extension: None,
                        marketplace_account,
                        marketplace_commission,
                        bids: d.bids,
                        events: d.events,
                    })
                    &&& d.token_id == token_id
                    &&& d.bids@ == Seq::<crate::bids::BidEntry>::empty()
                    &&& d.events@ == Seq::<crate::events::AuctionEvent>::empty()
                }
            }
        }),
{
    let raw = match commissions {
        Some(raw) => raw,
        None => {
            return Err(AuctionError::MissingCommissions);
        },
    };
    match validate_commissions(raw) {
        Ok(_) => (),
        Err(e) => {
            return Err(e);
        },
    }
    if start_price <= 1000 || reserve_price <= 1000 {
        return Err(AuctionError::InvalidPrices);
    }
    if start_price <= reserve_price {
        return Err(AuctionError::InvalidPrices);
    }
    if !(now <= start_time && start_time < end_time) {
        return Err(AuctionError::InvalidTimes);
    }
    Ok(
        AuctionData {
            status: AuctionStatus::Live,
            token_owner,
            beneficiary_account,
            token_id,
            start_time,
            end_time,
            cancel_time: None,
            reserve_price: Some(reserve_price),
            start_price: Some(start_price),
            swap_price: None,
            current_winner: None,
            winning_bid: None,
            bidder_count_cap: None,
            minimum_bid_step: None,
            timer_extension: None,
            marketplace_account,
            marketplace_commission,
            bids: Bids::new(),
            events: EventLog::new(),
        },
    )
}

/// Assemble a live Swap listing.
///
/// The commission metadata must validate, the swap price must exceed the
/// rate denominator, and the window must be acceptable.
pub fn create_swap(
    now: u64,
    token_owner: AccountId,
    beneficiary_account: AccountId,
    token_id: String,
    commissions: Option<&RawCommissions>,
    swap_price: u64,
    start_time: u64,
    end_time: u64,
    marketplace_account: AccountId,
    marketplace_commission: u32,
) -> (r: Result<AuctionData, AuctionError>)
    requires
        marketplace_commission <= 1000,
    ensures
        commissions is None ==> r == Err::<AuctionData, AuctionError>(
            AuctionError::MissingCommissions,
        ),
        commissions matches Some(raw) ==> (commissions_valid(raw_view(raw@)) matches Err(e) ==> r
            == Err::<AuctionData, AuctionError>(e)),
        commissions matches Some(raw2) ==> (commissions_valid(raw_view(raw2@)) is Ok ==> {
            if swap_price <= 1000 {
                r == Err::<AuctionData, AuctionError>(AuctionError::InvalidPrices)
            } else if !fixed_times_ok(now, start_time, end_time) {
                r == Err::<AuctionData, AuctionError>(AuctionError::InvalidTimes)
            } else {
                r matches Ok(d) && {
                    &&& d.wf()
                    &&& d == (AuctionData {
                        status: AuctionStatus::Live,
                        token_owner,
                        beneficiary_account,
                        token_id: d.token_id,
                        start_time,
                        end_time,
                        cancel_time: None,
                        reserve_price: None,
                        start_price: None,
                        swap_price: Some(swap_price),
                        current_winner: None,
                        winning_bid: None,
                        bidder_count_cap: None,
                        minimum_bid_step: None,
                        timer_extension: None,
                        marketplace_account,
                        marketplace_commission,
                        bids: d.bids,
                        events: d.events,
                    })
                    &&& d.token_id == token_id
                    &&& d.bids@ == Seq::<crate::bids::BidEntry>::empty()
                    &&& d.events@ == Seq::<crate::events::AuctionEvent>::empty()
                }
            }
        }),
{
    let raw = match commissions {
        Some(raw) => raw,
        None => {
            return Err(AuctionError::MissingCommissions);
        },
    };
    match validate_commissions(raw) {
        Ok(_) => (),
        Err(e) => {
            return Err(e);
        },
    }
    if swap_price <= 1000 {
        return Err(AuctionError::InvalidPrices);
    }
    if !(now <= start_time && start_time < end_time) {
        return Err(AuctionError::InvalidTimes);
    }
    Ok(
        AuctionData {
            status: AuctionStatus::Live,
            token_owner,
            beneficiary_account,
            token_id,
            start_time,
            end_time,
            cancel_time: None,
            reserve_price: None,
            start_price: None,
            swap_price: Some(swap_price),
            current_winner: None,
            winning_bid: None,
            bidder_count_cap: None,
            minimum_bid_step: None,
            timer_extension: None,
            marketplace_account,
            marketplace_commission,
            bids: Bids::new(),
            events: EventLog::new(),
        },
    )
}

} // verus!
