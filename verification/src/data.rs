//! The persisted state of one auction instance, with its accessors and
//! validity predicates.

use vstd::prelude::*;

use crate::account::AccountId;
use crate::bids::{entry_for, Bids};
use crate::error::AuctionError;
use crate::events::EventLog;

verus! {

/// The lifecycle status. It is monotonic: once a state leaves `Live` it
/// never returns, and `PendingSettle` resolves only to `Rejected` or
/// `Settled`.
#[derive(Clone, Copy, Debug, PartialEq, Eq, Structural)]
pub enum AuctionStatus {
    Live,
    Cancelled,
    PendingSettle,
    Rejected,
    Settled,
}

/// The flat field set persisted for one auction instance.
///
/// Which price fields are present depends on the sale format fixed at
/// creation: English auctions carry a reserve price, Dutch auctions a
/// starting and a reserve price, Swap listings a swap price.
#[derive(Debug)]
pub struct AuctionData {
    pub status: AuctionStatus,
    pub token_owner: AccountId,
    pub beneficiary_account: AccountId,
    pub token_id: String,
    pub start_time: u64,
    pub end_time: u64,
    /// English only: bids may be cancelled strictly before this time.
    pub cancel_time: Option<u64>,
    pub reserve_price: Option<u64>,
    pub start_price: Option<u64>,
    pub swap_price: Option<u64>,
    pub current_winner: Option<AccountId>,
    /// The winning amount and whether it is synthetic; present exactly when
    /// a winner is present.
    pub winning_bid: Option<(u64, bool)>,
    /// English only: the maximum number of concurrent distinct bidders.
    pub bidder_count_cap: Option<u64>,
    /// The minimum increment a bid must add over the current winning bid.
    pub minimum_bid_step: Option<u64>,
    /// The anti-snipe window: a bid landing within it pushes `end_time`.
    pub timer_extension: Option<u64>,
    pub marketplace_account: AccountId,
    /// The marketplace fee in thousandths of the winning bid.
    pub marketplace_commission: u32,
    pub bids: Bids,
    pub events: EventLog,
}

/// The end time after the anti-snipe rule is applied at time `now`.
pub open spec fn extended_end(end: u64, extension: Option<u64>, now: u64) -> u64 {
    if now < end {
        match extension {
            Some(x) => if end - now <= x && end + x <= u64::MAX {
                (end + x) as u64
            } else {
                end
            },
            None => end,
        }
    } else {
        end
    }
}

impl AuctionData {
    /// Well-formedness: every state the engine produces satisfies this.
    ///
    /// In particular a winner and a winning bid are present or absent
    /// together, and while bids can still matter (`Live` or
    /// `PendingSettle`) the winner's ledger entry carries exactly the
    /// winning bid.
    pub open spec fn wf(&self) -> bool {
        &&& self.bids.wf()
        &&& self.start_time < self.end_time
        &&& (self.cancel_time matches Some(c) ==> self.start_time <= c <= self.end_time)
        &&& self.marketplace_commission <= 1000
        &&& (self.current_winner is Some <==> self.winning_bid is Some)
        &&& (self.status == AuctionStatus::PendingSettle ==> self.current_winner is Some)
        &&& ((self.status == AuctionStatus::Live || self.status == AuctionStatus::PendingSettle)
            ==> (self.current_winner matches Some(w) ==> entry_for(self.bids@, w@)
            == self.winning_bid))
    }

    /// A Dutch auction's price parameters are present and consistent.
    pub open spec fn dutch_configured(&self) -> bool {
        &&& self.start_price is Some
        &&& self.reserve_price is Some
        &&& self.start_price.unwrap() > self.reserve_price.unwrap()
    }

    pub fn token_owner(&self) -> (r: AccountId)
        ensures
            r == self.token_owner,
    {
        self.token_owner
    }

    pub fn token_id(&self) -> (r: String)
        ensures
            r == self.token_id,
    {
        self.token_id.clone()
    }

    pub fn bids(&self) -> (r: &Bids)
        ensures
            r == &self.bids,
    {
        &self.bids
    }

    /// Whether the status has left `Live`.
    pub fn is_done(&self) -> (r: bool)
        ensures
            r == (self.status != AuctionStatus::Live),
    {
        self.status != AuctionStatus::Live
    }

    pub fn status(&self) -> (r: AuctionStatus)
        ensures
            r == self.status,
    {
        self.status
    }

    pub fn update_status(&mut self, status: AuctionStatus)
        ensures
            *final(self) == (AuctionData { status, ..*old(self) }),
    {
        self.status = status;
    }

    pub fn current_winner(&self) -> (r: (Option<AccountId>, Option<(u64, bool)>))
        ensures
            r == (self.current_winner, self.winning_bid),
    {
        (self.current_winner, self.winning_bid)
    }

    /// Overwrite the winner fields together: the winning bid is recorded
    /// exactly when a bid amount is given.
    pub fn update_current_winner(&mut self, winner: Option<AccountId>, bid: Option<u64>, synthetic: bool)
        ensures
            *final(self) == (AuctionData {
                current_winner: winner,
                winning_bid: match bid {
                    Some(b) => Some((b, synthetic)),
                    None => None,
                },
                ..*old(self)
            }),
    {
        self.current_winner = winner;
        self.winning_bid = match bid {
            Some(b) => Some((b, synthetic)),
            None => None,
        };
    }

    pub fn start_price(&self) -> (r: u64)
        requires
            self.start_price is Some,
        ensures
            r == self.start_price.unwrap(),
    {
        self.start_price.unwrap()
    }

    pub fn reserve_price(&self) -> (r: u64)
        requires
            self.reserve_price is Some,
        ensures
            r == self.reserve_price.unwrap(),
    {
        self.reserve_price.unwrap()
    }

    pub fn swap_price(&self) -> (r: u64)
        requires
            self.swap_price is Some,
        ensures
            r == self.swap_price.unwrap(),
    {
        self.swap_price.unwrap()
    }

    pub fn start_time(&self) -> (r: u64)
        ensures
            r == self.start_time,
    {
        self.start_time
    }

    pub fn end_time(&self) -> (r: u64)
        ensures
            r == self.end_time,
    {
        self.end_time
    }

    pub fn cancel_time(&self) -> (r: Option<u64>)
        ensures
            r == self.cancel_time,
    {
        self.cancel_time
    }

    pub fn beneficiary_account(&self) -> (r: AccountId)
        ensures
            r == self.beneficiary_account,
    {
        self.beneficiary_account
    }

    /// Check the clock against the auction window. Returns `true` when
    /// `start_time <= now < end_time` and the matching temporal error
    /// otherwise.
    pub fn is_auction_live(&self, now: u64) -> (r: Result<bool, AuctionError>)
        ensures
            r == (if now < self.start_time {
                Err::<bool, AuctionError>(AuctionError::EarlyBid)
            } else if now >= self.end_time {
                Err::<bool, AuctionError>(AuctionError::LateBid)
            } else {
                Ok::<bool, AuctionError>(true)
            }),
    {
        if now < self.start_time {
            return Err(AuctionError::EarlyBid);
        }
        if now >= self.end_time {
            return Err(AuctionError::LateBid);
        }
        Ok(true)
    }

    pub fn bidder_count_cap(&self) -> (r: Option<u64>)
        ensures
            r == self.bidder_count_cap,
    {
        self.bidder_count_cap
    }

    pub fn minimum_bid_step(&self) -> (r: Option<u64>)
        ensures
            r == self.minimum_bid_step,
    {
        self.minimum_bid_step
    }

    pub fn marketplace_data(&self) -> (r: (AccountId, u32))
        ensures
            r == (self.marketplace_account, self.marketplace_commission),
    {
        (self.marketplace_account, self.marketplace_commission)
    }

    /// The Dutch price at time `now`: a linear walk from the starting
    /// price down to the reserve over the auction window, rounded in the
    /// buyer's favour by the two integer divisions.
    pub fn current_price(&self, now: u64) -> (r: u64)
        requires
            self.wf(),
            self.dutch_configured(),
            self.start_time <= now < self.end_time,
        ensures
            r == self.start_price.unwrap() - ((self.start_price.unwrap()
                - self.reserve_price.unwrap()) / (self.end_time - self.start_time)) * (now
                - self.start_time),
            self.reserve_price.unwrap() <= r <= self.start_price.unwrap(),
    {
        let start_price = self.start_price.unwrap();
        let end_price = self.reserve_price.unwrap();
        let price_range = start_price - end_price;
        let duration = self.end_time - self.start_time;
        let step = price_range / duration;
        let time_passed = now - self.start_time;
        proof {
            let r = price_range as int;
            let d = duration as int;
            let t = time_passed as int;
            vstd::arithmetic::div_mod::lemma_fundamental_div_mod(r, d);
            vstd::arithmetic::mul::lemma_mul_inequality(t, d, r / d);
            assert((r / d) * t <= (r / d) * d) by {
                vstd::arithmetic::mul::lemma_mul_is_commutative(r / d, t);
                vstd::arithmetic::mul::lemma_mul_is_commutative(r / d, d);
            }
            assert((r / d) * d <= r);
        }
        start_price - step * time_passed
    }

    /// Apply the anti-snipe rule: a bid landing within the configured
    /// window of `end_time` pushes `end_time` forward by that window.
    pub fn extend_auction(&mut self, now: u64)
        ensures
            *final(self) == (AuctionData {
                end_time: extended_end(old(self).end_time, old(self).timer_extension, now),
                ..*old(self)
            }),
    {
        if now < self.end_time {
            let diff = self.end_time - now;
            if let Some(increment) = self.timer_extension {
                if diff <= increment && self.end_time <= u64::MAX - increment {
                    self.end_time = self.end_time + increment;
                }
            }
        }
    }
}

} // verus!
