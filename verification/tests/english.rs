//! The English auction flows, driven through the entry actions with an
//! in-memory stand-in for the host: service verdicts are precomputed and
//! the returned fund-movement instructions are checked directly.

use private_auction::account::AccountId;
use private_auction::auction::{Payout, PayoutReason};
use private_auction::commission::RawCommissions;
use private_auction::constructors::create_english_auction;
use private_auction::data::{AuctionData, AuctionStatus};
use private_auction::entry_english;
use private_auction::error::AuctionError;

const MARKETPLACE_COMMISSION: u64 = 25;

fn acct(tag: u8) -> AccountId {
    AccountId { bytes: [tag; 32] }
}

fn admin() -> AccountId {
    acct(1)
}

fn market() -> AccountId {
    acct(2)
}

fn artist() -> AccountId {
    acct(3)
}

fn ali() -> AccountId {
    acct(4)
}

fn bob() -> AccountId {
    acct(5)
}

fn kyc_verified(a: &AccountId) -> bool {
    matches!(a.bytes[0], 1 | 3 | 4 | 5)
}

fn err_code(e: &AuctionError) -> Option<u32> {
    match e {
        AuctionError::InvalidCaller => Some(1),
        AuctionError::LateBid => Some(2),
        AuctionError::BadState => Some(4),
        AuctionError::InvalidTimes => Some(9),
        AuctionError::BidTooLow => Some(10),
        AuctionError::EarlyBid => Some(11),
        AuctionError::KYCError => Some(18),
        AuctionError::BidBelowReserve => Some(19),
        AuctionError::SyntheticBidNotAllowed => Some(58),
        _ => None,
    }
}

fn unwrap_call<T>(r: Result<T, AuctionError>) -> T {
    match r {
        Ok(v) => v,
        Err(e) => match err_code(&e) {
            Some(c) => panic!("reverted: User({})", c),
            None => panic!("reverted: {:?}", e),
        },
    }
}

fn artist_account_string() -> Vec<u8> {
    casper_types::account::AccountHash::new(artist().bytes)
        .to_formatted_string()
        .into_bytes()
}

fn default_commissions() -> RawCommissions {
    vec![
        (b"artist_account".to_vec(), artist_account_string()),
        (b"artist_rate".to_vec(), b"100".to_vec()),
    ]
}

struct Args {
    start_time: u64,
    cancel_time: Option<u64>,
    end_time: u64,
    reserve_price: u64,
    bidder_cap: Option<u64>,
    minimum_bid_step: Option<u64>,
    auction_timer_extension: Option<u64>,
}

fn default_args(now: u64) -> Args {
    Args {
        start_time: now + 500,
        cancel_time: Some(now + 3500),
        end_time: now + 5000,
        reserve_price: 10000,
        bidder_cap: Some(5),
        minimum_bid_step: Some(10),
        auction_timer_extension: Some(500),
    }
}

fn base_args(start_time: u64, reserve_price: u64) -> Args {
    Args {
        start_time,
        cancel_time: Some(start_time + 3500),
        end_time: start_time + 5000,
        reserve_price,
        bidder_cap: None,
        minimum_bid_step: None,
        auction_timer_extension: None,
    }
}

fn deploy(now: u64, args: Args) -> AuctionData {
    let commissions = default_commissions();
    unwrap_call(
        create_english_auction(
            now,
            admin(),
            admin(),
            "custom_token_id".to_string(),
            Some(&commissions),
            args.reserve_price,
            args.start_time,
            args.cancel_time,
            args.end_time,
            args.bidder_cap,
            args.auction_timer_extension,
            args.minimum_bid_step,
            market(),
            MARKETPLACE_COMMISSION as u32,
        ),
    )
}

fn deploy_with_default_args(now: u64) -> AuctionData {
    let mut args = default_args(now);
    args.start_time = now;
    deploy(now, args)
}

fn bid(data: &mut AuctionData, bidder: &AccountId, amount: u64, now: u64) {
    unwrap_call(
        entry_english::bid(data, true, kyc_verified(bidder), *bidder, amount, now),
    );
}

fn cancel_auction(data: &mut AuctionData, caller: &AccountId, now: u64) {
    unwrap_call(entry_english::cancel_auction(data, *caller, now));
}

fn paid_to(payouts: &[Payout], who: &AccountId) -> u64 {
    payouts.iter().filter(|p| p.to.bytes == who.bytes).map(|p| p.amount).sum()
}

#[test]
fn english_deploy_auction() {
    let now = 1_000_000u64;
    deploy_with_default_args(now);
}

#[test]
#[should_panic = "User(9)"]
fn english_deploy_auction_invalid_times() {
    let now = 1_000_000u64;
    let mut args = default_args(now);
    args.start_time = now;
    args.end_time = now - 1000;
    deploy(now, args);
}

#[test]
#[should_panic = "User(9)"]
fn deploy_auction_invalid_cancel_time() {
    let now = 1_000_000u64;
    let mut args = default_args(now);
    args.start_time = now;
    args.cancel_time = Some(now - 1000);
    args.end_time = now + 1000;
    deploy(now, args);
}

#[test]
fn english_cancel_auction() {
    let now = 1_000_000u64;
    let mut auction = deploy_with_default_args(now);
    cancel_auction(&mut auction, &admin(), now + 1001);
    assert_eq!(auction.status(), AuctionStatus::Cancelled);
}

#[test]
#[should_panic = "User(1)"]
fn english_cancel_auction_not_owner() {
    let now = 1_000_000u64;
    let mut auction = deploy_with_default_args(now);
    cancel_auction(&mut auction, &bob(), now + 1001);
}

#[test]
#[should_panic = "User(11)"]
fn english_early_bid() {
    let now = 1_000_000u64;
    let mut auction = deploy(now, base_args(now + 1000, 10000));
    bid(&mut auction, &bob(), 12000, now);
}

#[test]
#[should_panic = "User(19)"]
fn english_low_bid() {
    let now = 1_000_000u64;
    let mut auction = deploy(now, base_args(now, 10000));
    bid(&mut auction, &bob(), 8000, now + 1000);
}

#[test]
fn english_minimum_bid_step_gates_second_bid() {
    let now = 1_000_000u64;
    let mut args = base_args(now, 1500);
    args.minimum_bid_step = Some(10);
    let mut auction = deploy(now, args);
    bid(&mut auction, &ali(), 2000, now + 100);
    let low = entry_english::bid(&mut auction, true, true, bob(), 2009, now + 200);
    assert_eq!(low.unwrap_err(), AuctionError::BidTooLow);
    assert_eq!(auction.current_winner().0.unwrap().bytes, ali().bytes);
    bid(&mut auction, &bob(), 2010, now + 300);
    assert_eq!(auction.current_winner().0.unwrap().bytes, bob().bytes);
    assert_eq!(auction.current_winner().1, Some((2010, false)));
}

#[test]
fn english_eviction_refunds_lowest_bidder() {
    let now = 1_000_000u64;
    let mut args = base_args(now, 1500);
    args.bidder_cap = Some(2);
    let mut auction = deploy(now, args);
    bid(&mut auction, &ali(), 2000, now + 100);
    bid(&mut auction, &bob(), 3000, now + 200);
    let out = unwrap_call(
        entry_english::bid(&mut auction, true, true, artist(), 4000, now + 300),
    );
    let refund = out.eviction_refund.expect("the lowest bidder leaves with a refund");
    assert_eq!(refund.to.bytes, ali().bytes);
    assert_eq!(refund.amount, 2000);
    assert_eq!(refund.reason, PayoutReason::ReturnLowestBid);
    assert!(auction.bids().get(&ali()).is_none());
    assert_eq!(auction.bids().get(&bob()), Some((3000, false)));
    assert_eq!(auction.bids().get(&artist()), Some((4000, false)));
}

#[test]
fn english_eviction_of_synthetic_bid_moves_no_funds() {
    let now = 1_000_000u64;
    let mut args = base_args(now, 1500);
    args.bidder_cap = Some(1);
    let mut auction = deploy(now, args);
    unwrap_call(
        entry_english::synthetic_bid(&mut auction, market(), true, ali(), 2000, now + 100),
    );
    let out = unwrap_call(
        entry_english::bid(&mut auction, true, true, bob(), 3000, now + 200),
    );
    assert!(out.eviction_refund.is_none());
    assert!(auction.bids().get(&ali()).is_none());
}

#[test]
fn english_repeat_bid_deposits_only_the_increase() {
    let now = 1_000_000u64;
    let mut auction = deploy(now, base_args(now, 1500));
    let first = unwrap_call(
        entry_english::bid(&mut auction, true, true, ali(), 2000, now + 100),
    );
    assert_eq!(first.deposit, 2000);
    let second = unwrap_call(
        entry_english::bid(&mut auction, true, true, ali(), 2600, now + 200),
    );
    assert_eq!(second.deposit, 600);
    assert_eq!(auction.bids().get(&ali()), Some((2600, false)));
    let lower = entry_english::bid(&mut auction, true, true, ali(), 2600, now + 300);
    assert_eq!(lower.unwrap_err(), AuctionError::BidTooLow);
}

#[test]
fn english_anti_snipe_extends_deadline() {
    let now = 1_000_000u64;
    let mut args = base_args(now, 1500);
    args.auction_timer_extension = Some(500);
    let mut auction = deploy(now, args);
    let end = auction.end_time();
    bid(&mut auction, &ali(), 2000, end - 400);
    assert_eq!(auction.end_time(), end + 500);
    bid(&mut auction, &bob(), 3000, end - 4000);
    assert_eq!(auction.end_time(), end + 500);
}

#[test]
fn english_late_bid_cancellation() {
    let now = 1_000_000u64;
    let mut auction = deploy(now, base_args(now, 1500));
    bid(&mut auction, &ali(), 2000, now + 100);
    let late = entry_english::cancel_bid(&mut auction, true, ali(), now + 4000);
    assert_eq!(late.unwrap_err(), AuctionError::LateCancellation);
    assert_eq!(auction.bids().get(&ali()), Some((2000, false)));
}

#[test]
fn english_cancel_bid_recomputes_winner() {
    let now = 1_000_000u64;
    let mut auction = deploy(now, base_args(now, 1500));
    bid(&mut auction, &ali(), 2000, now + 100);
    bid(&mut auction, &bob(), 3000, now + 200);
    let refund = unwrap_call(
        entry_english::cancel_bid(&mut auction, true, bob(), now + 300),
    );
    let refund = refund.expect("a non-synthetic bid is refunded");
    assert_eq!(refund.to.bytes, bob().bytes);
    assert_eq!(refund.amount, 3000);
    assert_eq!(refund.reason, PayoutReason::ReturnCancelledBid);
    let (winner, wb) = auction.current_winner();
    assert_eq!(winner.unwrap().bytes, ali().bytes);
    assert_eq!(wb, Some((2000, false)));
    let none = entry_english::cancel_bid(&mut auction, true, artist(), now + 400);
    assert_eq!(none.unwrap_err(), AuctionError::NoBid);
}

#[test]
fn english_happy_path_settlement_splits_the_winning_bid() {
    let now = 1_000_000u64;
    // A reserve of 1000, a cap of five bidders, and two competing bids.
    let mut auction = AuctionData {
        status: AuctionStatus::Live,
        token_owner: admin(),
        beneficiary_account: admin(),
        token_id: "custom_token_id".to_string(),
        start_time: now,
        end_time: now + 5000,
        cancel_time: Some(now + 3500),
        reserve_price: Some(1000),
        start_price: None,
        swap_price: None,
        current_winner: None,
        winning_bid: None,
        bidder_count_cap: Some(5),
        minimum_bid_step: None,
        timer_extension: None,
        marketplace_account: market(),
        marketplace_commission: MARKETPLACE_COMMISSION as u32,
        bids: private_auction::bids::Bids::new(),
        events: private_auction::events::EventLog::new(),
    };
    bid(&mut auction, &ali(), 2000, now + 100);
    bid(&mut auction, &bob(), 3000, now + 200);
    assert_eq!(auction.current_winner().0.unwrap().bytes, bob().bytes);
    assert_eq!(auction.bids().get(&ali()), Some((2000, false)));

    let commissions = default_commissions();
    let out = unwrap_call(
        entry_english::finalize(&mut auction, admin(), now + 5001, Some(&commissions)),
    )
        .expect("a non-synthetic winner settles at once");
    assert_eq!(auction.status(), AuctionStatus::Settled);
    assert_eq!(out.token_recipient.bytes, bob().bytes);

    let market_share = (3000 / 1000) * MARKETPLACE_COMMISSION;
    let proceeds = 3000 - market_share;
    let artist_share = (proceeds / 1000) * 100;
    let beneficiary_share = proceeds - artist_share;
    assert_eq!(paid_to(&out.payouts, &market()), market_share);
    assert_eq!(paid_to(&out.payouts, &artist()), artist_share);
    assert_eq!(paid_to(&out.payouts, &admin()), beneficiary_share);
    // No value is created or destroyed by the split, and the losing bid
    // comes back in full.
    assert_eq!(
        market_share + artist_share + beneficiary_share,
        3000,
    );
    assert_eq!(paid_to(&out.payouts, &ali()), 2000);
    let total: u64 = out.payouts.iter().map(|p| p.amount).sum();
    assert_eq!(total, 3000 + 2000);
    assert_eq!(auction.bids().len(), 0);
}

#[test]
fn english_refinalize_fails_with_bad_state() {
    let now = 1_000_000u64;
    let mut args = base_args(now, 1500);
    args.auction_timer_extension = Some(0);
    let mut auction = deploy(now, args);
    bid(&mut auction, &ali(), 2000, now + 100);
    let commissions = default_commissions();
    unwrap_call(
        entry_english::finalize(&mut auction, admin(), now + 5001, Some(&commissions)),
    );
    assert_eq!(auction.status(), AuctionStatus::Settled);
    let again = entry_english::finalize(&mut auction, admin(), now + 5002, Some(&commissions));
    assert_eq!(again.unwrap_err(), AuctionError::BadState);
}

#[test]
fn english_early_finalize_is_rejected() {
    let now = 1_000_000u64;
    let mut auction = deploy(now, base_args(now, 1500));
    let commissions = default_commissions();
    let early = entry_english::finalize(&mut auction, admin(), now + 100, Some(&commissions));
    assert_eq!(early.unwrap_err(), AuctionError::EarlyFinalize);
    assert_eq!(auction.status(), AuctionStatus::Live);
}

#[test]
fn english_events_are_appended_in_order() {
    let now = 1_000_000u64;
    let mut auction = deploy(now, base_args(now, 1500));
    assert_eq!(private_auction::events::get_events_count(&auction.events), 0);
    bid(&mut auction, &ali(), 2000, now + 100);
    bid(&mut auction, &bob(), 3000, now + 200);
    assert_eq!(private_auction::events::get_events_count(&auction.events), 2);
    match auction.events.get_event(0) {
        private_auction::events::AuctionEvent::Bid { account, bid, synthetic } => {
            assert_eq!(account.bytes, ali().bytes);
            assert_eq!(*bid, 2000);
            assert!(!synthetic);
        },
        other => panic!("unexpected first event: {:?}", other),
    }
    match auction.events.get_event(1) {
        private_auction::events::AuctionEvent::Bid { account, bid, .. } => {
            assert_eq!(account.bytes, bob().bytes);
            assert_eq!(*bid, 3000);
        },
        other => panic!("unexpected second event: {:?}", other),
    }
}

#[test]
fn english_bid_through_middleware_is_rejected() {
    let now = 1_000_000u64;
    let mut auction = deploy(now, base_args(now, 1500));
    let hop = entry_english::bid(&mut auction, false, true, ali(), 2000, now + 100);
    assert_eq!(hop.unwrap_err(), AuctionError::DisallowedMiddleware);
    assert!(auction.bids().is_empty());
}

#[test]
fn english_cancel_auction_with_winner_is_rejected() {
    let now = 1_000_000u64;
    let mut auction = deploy(now, base_args(now, 1500));
    bid(&mut auction, &ali(), 2000, now + 100);
    let r = entry_english::cancel_auction(&mut auction, admin(), now + 200);
    assert_eq!(r.unwrap_err(), AuctionError::CannotCancelAuction);
    assert_eq!(auction.status(), AuctionStatus::Live);
}

#[test]
fn english_finalize_without_commissions_is_rejected() {
    let now = 1_000_000u64;
    let mut args = base_args(now, 1500);
    args.auction_timer_extension = Some(0);
    let mut auction = deploy(now, args);
    bid(&mut auction, &ali(), 2000, now + 100);
    let r = entry_english::finalize(&mut auction, admin(), now + 5001, None);
    assert_eq!(r.unwrap_err(), AuctionError::MissingCommissions);
    assert_eq!(auction.status(), AuctionStatus::Live);
}

#[test]
fn english_repeat_bid_below_own_standing_bid_is_rejected() {
    // A ledger whose recorded winner is not the highest entry: the repeat
    // bid clears the winning-bid step but not the bidder's own record.
    let now = 1_000_000u64;
    let mut bids = private_auction::bids::Bids::new();
    bids.insert(&bob(), 3000, false);
    bids.insert(&ali(), 5000, false);
    let mut auction = AuctionData {
        status: AuctionStatus::Live,
        token_owner: admin(),
        beneficiary_account: admin(),
        token_id: "custom_token_id".to_string(),
        start_time: now,
        end_time: now + 5000,
        cancel_time: None,
        reserve_price: Some(1500),
        start_price: None,
        swap_price: None,
        current_winner: Some(bob()),
        winning_bid: Some((3000, false)),
        bidder_count_cap: None,
        minimum_bid_step: None,
        timer_extension: None,
        marketplace_account: market(),
        marketplace_commission: MARKETPLACE_COMMISSION as u32,
        bids,
        events: private_auction::events::EventLog::new(),
    };
    let r = private_auction::english::EnglishAuction::bid(&mut auction, ali(), 4000, false, now + 100);
    assert_eq!(r.unwrap_err(), AuctionError::NewBidLower);
    assert_eq!(auction.bids().get(&ali()), Some((5000, false)));
}

#[test]
fn english_settlement_dust_goes_to_the_beneficiary() {
    let now = 1_000_000u64;
    let mut args = base_args(now, 1500);
    args.auction_timer_extension = Some(0);
    let mut auction = deploy(now, args);
    bid(&mut auction, &ali(), 3333, now + 100);
    let commissions = default_commissions();
    let out = unwrap_call(
        entry_english::finalize(&mut auction, admin(), now + 5001, Some(&commissions)),
    )
        .expect("a non-synthetic winner settles at once");
    let market_share = (3333 / 1000) * MARKETPLACE_COMMISSION;
    let proceeds = 3333 - market_share;
    let artist_share = (proceeds / 1000) * 100;
    assert_eq!(paid_to(&out.payouts, &market()), market_share);
    assert_eq!(paid_to(&out.payouts, &artist()), artist_share);
    // The three truncating divisions leave no unaccounted value: the
    // beneficiary absorbs the dust.
    assert_eq!(paid_to(&out.payouts, &admin()), proceeds - artist_share);
    let total: u64 = out.payouts.iter().map(|p| p.amount).sum();
    assert_eq!(total, 3333);
}
