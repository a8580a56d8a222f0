//! The Dutch auction: the computed price walk and the instant settlement
//! of the first sufficient bid.

use private_auction::account::AccountId;
use private_auction::commission::RawCommissions;
use private_auction::constructors::create_dutch_auction;
use private_auction::data::{AuctionData, AuctionStatus};
use private_auction::entry_dutch;
use private_auction::error::AuctionError;

const MARKETPLACE_COMMISSION: u64 = 25;

fn acct(tag: u8) -> AccountId {
    AccountId { bytes: [tag; 32] }
}

fn admin() -> AccountId {
    acct(1)
}

fn market() -> AccountId {
    acct(2)
}

fn artist() -> AccountId {
    acct(3)
}

fn bob() -> AccountId {
    acct(5)
}

fn artist_account_string() -> Vec<u8> {
    casper_types::account::AccountHash::new(artist().bytes)
        .to_formatted_string()
        .into_bytes()
}

fn default_commissions() -> RawCommissions {
    vec![
        (b"artist_account".to_vec(), artist_account_string()),
        (b"artist_rate".to_vec(), b"100".to_vec()),
    ]
}

fn deploy(now: u64, start_price: u64, reserve_price: u64, duration: u64) -> AuctionData {
    let commissions = default_commissions();
    create_dutch_auction(
        now,
        admin(),
        admin(),
        "custom_token_id".to_string(),
        Some(&commissions),
        start_price,
        reserve_price,
        now,
        now + duration,
        market(),
        MARKETPLACE_COMMISSION as u32,
    )
        .expect("the Dutch deployment parameters are valid")
}

#[test]
fn dutch_price_declines_linearly() {
    let now = 1_000_000u64;
    let auction = deploy(now, 40000, 10000, 10000);
    assert_eq!(auction.current_price(now), 40000);
    assert_eq!(auction.current_price(now + 5000), 25000);
    assert_eq!(auction.current_price(now + 9999), 10003);
}

#[test]
fn dutch_instant_settle_at_computed_price() {
    let now = 1_000_000u64;
    let mut auction = deploy(now, 40000, 10000, 10000);

    // One unit below the computed price is rejected and changes nothing.
    let low = entry_dutch::bid(
        &mut auction,
        true,
        true,
        bob(),
        24999,
        now + 5000,
        Some(&default_commissions()),
    );
    assert_eq!(low.unwrap_err(), AuctionError::BidTooLow);
    assert_eq!(auction.status(), AuctionStatus::Live);

    // The exact computed price wins and settles in the same call.
    let out = entry_dutch::bid(
        &mut auction,
        true,
        true,
        bob(),
        25000,
        now + 5000,
        Some(&default_commissions()),
    )
        .expect("a bid at the computed price wins");
    assert_eq!(out.deposit, 25000);
    let settlement = out.settlement.expect("an ordinary Dutch bid settles at once");
    assert_eq!(auction.status(), AuctionStatus::Settled);
    assert_eq!(settlement.token_recipient.bytes, bob().bytes);

    let market_share = (25000 / 1000) * MARKETPLACE_COMMISSION;
    let proceeds = 25000 - market_share;
    let artist_share = (proceeds / 1000) * 100;
    let split: u64 = settlement.payouts.iter().map(|p| p.amount).sum();
    assert_eq!(split, 25000);
    assert_eq!(
        settlement.payouts.iter().filter(|p| p.to.bytes == artist().bytes).map(|p| p.amount).sum::<
            u64,
        >(),
        artist_share,
    );
}

#[test]
fn dutch_synthetic_bid_stalls_at_pending_settle() {
    let now = 1_000_000u64;
    let mut auction = deploy(now, 40000, 10000, 10000);
    let out = entry_dutch::synthetic_bid(
        &mut auction,
        market(),
        true,
        bob(),
        40000,
        now,
        Some(&default_commissions()),
    )
        .expect("a synthetic bid at the starting price wins");
    assert_eq!(out.deposit, 0);
    assert!(out.settlement.is_none());
    assert_eq!(auction.status(), AuctionStatus::PendingSettle);
    assert_eq!(auction.current_winner().1, Some((40000, true)));
}

#[test]
fn dutch_cancel_returns_token() {
    let now = 1_000_000u64;
    let mut auction = deploy(now, 40000, 10000, 10000);
    let out = entry_dutch::cancel_auction(&mut auction, admin(), now + 100)
        .expect("the owner cancels an untouched auction");
    assert_eq!(out.token_recipient.bytes, admin().bytes);
    assert!(out.payouts.is_empty());
    assert_eq!(auction.status(), AuctionStatus::Cancelled);
}

#[test]
fn dutch_rejects_inverted_prices() {
    let now = 1_000_000u64;
    let commissions = default_commissions();
    let r = create_dutch_auction(
        now,
        admin(),
        admin(),
        "custom_token_id".to_string(),
        Some(&commissions),
        10000,
        40000,
        now,
        now + 10000,
        market(),
        MARKETPLACE_COMMISSION as u32,
    );
    assert_eq!(r.unwrap_err(), AuctionError::InvalidPrices);
}
