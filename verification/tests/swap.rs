//! The Swap flows, including the synthetic pending-settlement cycle, with
//! balances reconstructed from the returned fund-movement instructions.

use private_auction::account::AccountId;
use private_auction::auction::{Auction, Payout};
use private_auction::commission::RawCommissions;
use private_auction::constructors::create_swap;
use private_auction::data::{AuctionData, AuctionStatus};
use private_auction::entry_swap;
use private_auction::error::AuctionError;

const MARKETPLACE_COMMISSION: u64 = 25;

fn acct(tag: u8) -> AccountId {
    AccountId { bytes: [tag; 32] }
}

fn admin() -> AccountId {
    acct(1)
}

fn market() -> AccountId {
    acct(2)
}

fn artist() -> AccountId {
    acct(3)
}

fn ali() -> AccountId {
    acct(4)
}

fn bob() -> AccountId {
    acct(5)
}

fn dan() -> AccountId {
    acct(6)
}

fn kyc_verified(a: &AccountId) -> bool {
    matches!(a.bytes[0], 1 | 3 | 4 | 5)
}

fn synth_allowed(a: &AccountId, amount: u64) -> bool {
    matches!(a.bytes[0], 1 | 4) && amount <= 100000
}

fn err_code(e: &AuctionError) -> Option<u32> {
    match e {
        AuctionError::InvalidCaller => Some(1),
        AuctionError::LateBid => Some(2),
        AuctionError::BadState => Some(4),
        AuctionError::InvalidTimes => Some(9),
        AuctionError::BidTooLow => Some(10),
        AuctionError::EarlyBid => Some(11),
        AuctionError::KYCError => Some(18),
        AuctionError::BidBelowReserve => Some(19),
        AuctionError::SyntheticBidNotAllowed => Some(58),
        _ => None,
    }
}

fn unwrap_call<T>(r: Result<T, AuctionError>) -> T {
    match r {
        Ok(v) => v,
        Err(e) => match err_code(&e) {
            Some(c) => panic!("reverted: User({})", c),
            None => panic!("reverted: {:?}", e),
        },
    }
}

fn artist_account_string() -> Vec<u8> {
    casper_types::account::AccountHash::new(artist().bytes)
        .to_formatted_string()
        .into_bytes()
}

fn default_commissions() -> RawCommissions {
    vec![
        (b"artist_account".to_vec(), artist_account_string()),
        (b"artist_rate".to_vec(), b"100".to_vec()),
    ]
}

fn deploy_base(now: u64, start_time: u64, end_time: u64, swap_price: u64) -> AuctionData {
    let commissions = default_commissions();
    unwrap_call(
        create_swap(
            now,
            admin(),
            admin(),
            "custom_token_id".to_string(),
            Some(&commissions),
            swap_price,
            start_time,
            end_time,
            market(),
            MARKETPLACE_COMMISSION as u32,
        ),
    )
}

/// The builder's base arguments: the window closes 3500 milliseconds after
/// it opens.
fn deploy(start_time: u64, swap_price: u64) -> AuctionData {
    deploy_base(start_time, start_time, start_time + 3500, swap_price)
}

fn deploy_with_default_args(start_time: u64) -> AuctionData {
    deploy_base(start_time, start_time, start_time + 5000, 2000)
}

fn place_bid(data: &mut AuctionData, bidder: &AccountId, amount: u64, now: u64) -> Option<
    private_auction::auction::SettleOutcome,
> {
    let commissions = default_commissions();
    let out = unwrap_call(
        entry_swap::bid(data, true, kyc_verified(bidder), *bidder, amount, now, Some(&commissions)),
    );
    out.settlement
}

fn synthetic_bid(data: &mut AuctionData, caller: &AccountId, bidder: &AccountId, amount: u64, now: u64) {
    let commissions = default_commissions();
    unwrap_call(
        entry_swap::synthetic_bid(
            data,
            *caller,
            synth_allowed(bidder, amount),
            *bidder,
            amount,
            now,
            Some(&commissions),
        ),
    );
}

fn approve(data: &mut AuctionData, caller: &AccountId) -> private_auction::auction::SettleOutcome {
    let commissions = default_commissions();
    unwrap_call(Auction::approve(data, caller, Some(&commissions)))
}

fn reject(data: &mut AuctionData, caller: &AccountId) -> private_auction::auction::SettleOutcome {
    unwrap_call(Auction::reject(data, caller))
}

fn paid_to(payouts: &[Payout], who: &AccountId) -> u64 {
    payouts.iter().filter(|p| p.to.bytes == who.bytes).map(|p| p.amount).sum()
}

#[test]
fn swap_deploy_auction() {
    let now = 1_000_000u64;
    deploy_with_default_args(now);
}

#[test]
#[should_panic = "User(9)"]
fn swap_deploy_auction_invalid_times() {
    let now = 1_000_000u64;
    deploy_base(now, now, now - 1000, 2000);
}

#[test]
fn swap_cancel_auction() {
    let now = 1_000_000u64;
    let mut auction = deploy_with_default_args(now);
    unwrap_call(entry_swap::cancel_auction(&mut auction, admin(), now + 1001));
    assert_eq!(auction.status(), AuctionStatus::Cancelled);
}

#[test]
#[should_panic = "User(1)"]
fn swap_cancel_auction_not_owner() {
    let now = 1_000_000u64;
    let mut auction = deploy_with_default_args(now);
    unwrap_call(entry_swap::cancel_auction(&mut auction, bob(), now + 1001));
}

#[test]
#[should_panic = "User(11)"]
fn swap_early_bid() {
    let now = 1_000_000u64;
    let mut auction = deploy(now + 1000, 10000);
    place_bid(&mut auction, &bob(), 1200, now);
}

#[test]
#[should_panic = "User(2)"]
fn late_bid() {
    let now = 1_000_000u64;
    let mut auction = deploy(now, 10000);
    place_bid(&mut auction, &bob(), 12000, now + 10000);
}

#[test]
#[should_panic = "User(10)"]
fn swap_low_bid() {
    let now = 1_000_000u64;
    let mut auction = deploy(now, 10000);
    place_bid(&mut auction, &bob(), 8000, now + 1000);
}

#[test]
#[should_panic = "User(18)"]
fn no_kyc_bid() {
    let now = 1_000_000u64;
    let mut auction = deploy(now, 10000);
    place_bid(&mut auction, &dan(), 10000, now + 1000);
}

#[test]
fn bid() {
    let now = 1_000_000u64;
    let mut auction = deploy(now, 10000);
    let bid_price = 10000u64;
    let mkt_com = (bid_price / 1000) * MARKETPLACE_COMMISSION;

    let settlement = place_bid(&mut auction, &bob(), bid_price, now + 1000)
        .expect("an ordinary swap bid settles at once");
    let (winner, wb) = auction.current_winner();
    assert_eq!(winner.unwrap().bytes, bob().bytes);
    assert_eq!(wb, Some((bid_price, false)));
    assert_ne!(auction.status(), AuctionStatus::Live);
    assert_eq!(auction.status(), AuctionStatus::Settled);

    // Reconstruct balances: the marketplace and the artist start with one
    // unit each.
    let mb = 1 + paid_to(&settlement.payouts, &market());
    assert_eq!(mb, mkt_com + 1);
    let proceeds = bid_price - mkt_com;
    let artist_share = (proceeds / 1000) * 100;
    let arb = 1 + paid_to(&settlement.payouts, &artist());
    assert_eq!(arb, artist_share + 1);
    // The whole split adds up to the winning bid.
    let beneficiary_share = paid_to(&settlement.payouts, &admin());
    assert_eq!(mkt_com + artist_share + beneficiary_share, bid_price);
    assert_eq!(settlement.token_recipient.bytes, bob().bytes);
}

#[test]
#[should_panic = "User(58)"]
fn synth_bid_no_permission() {
    let now = 1_000_000u64;
    let mut auction = deploy(now, 10000);
    // Bob has no synthetic-bid permission.
    synthetic_bid(&mut auction, &market(), &bob(), 10000, now + 1000);
}

#[test]
#[should_panic = "User(10)"]
fn synth_bid_too_low() {
    let now = 1_000_000u64;
    let mut auction = deploy(now, 10000);
    synthetic_bid(&mut auction, &market(), &ali(), 8000, now + 1000);
}

#[test]
fn synth_bid() {
    let now = 1_000_000u64;
    let bid_price = 10000u64;
    let mut auction = deploy(now, bid_price);
    synthetic_bid(&mut auction, &market(), &ali(), bid_price, now + 1000);
    let (winner, wb) = auction.current_winner();
    assert_eq!(winner.unwrap().bytes, ali().bytes);
    assert_eq!(wb, Some((bid_price, true)));
    assert_ne!(auction.status(), AuctionStatus::Live);
    assert_eq!(auction.status(), AuctionStatus::PendingSettle);
}

#[test]
#[should_panic = "User(1)"]
fn synth_bid_approve_no_permission() {
    let now = 1_000_000u64;
    let bid_price = 10000u64;
    let mut auction = deploy(now, bid_price);
    synthetic_bid(&mut auction, &market(), &ali(), bid_price, now + 1000);
    assert_eq!(auction.status(), AuctionStatus::PendingSettle);
    approve(&mut auction, &ali());
}

#[test]
fn synth_bid_approve() {
    let now = 1_000_000u64;
    let bid_price = 10000u64;
    let mut auction = deploy(now, bid_price);
    synthetic_bid(&mut auction, &market(), &ali(), bid_price, now + 1000);
    assert_eq!(auction.status(), AuctionStatus::PendingSettle);

    let settlement = approve(&mut auction, &market());
    assert_eq!(auction.status(), AuctionStatus::Settled);
    // The winner never paid into the funds container, so no refund goes
    // back to them; the shares are still paid out, the payment having
    // been collected off the ledger.
    assert_eq!(paid_to(&settlement.payouts, &ali()), 0);
    let mkt_com = (bid_price / 1000) * MARKETPLACE_COMMISSION;
    let proceeds = bid_price - mkt_com;
    assert_eq!(paid_to(&settlement.payouts, &market()), mkt_com);
    assert_eq!(paid_to(&settlement.payouts, &artist()), (proceeds / 1000) * 100);
    assert_eq!(settlement.token_recipient.bytes, ali().bytes);
    assert_eq!(auction.bids().len(), 0);
}

#[test]
#[should_panic = "User(1)"]
fn synth_bid_reject_no_permission() {
    let now = 1_000_000u64;
    let bid_price = 30000u64;
    let mut auction = deploy(now, bid_price);
    synthetic_bid(&mut auction, &market(), &ali(), bid_price, now + 1000);
    assert_eq!(auction.status(), AuctionStatus::PendingSettle);
    reject(&mut auction, &ali());
}

#[test]
fn synth_bid_reject() {
    let now = 1_000_000u64;
    let bid_price = 10000u64;
    let mut auction = deploy(now, bid_price);
    synthetic_bid(&mut auction, &market(), &ali(), bid_price, now + 1000);
    assert_eq!(auction.status(), AuctionStatus::PendingSettle);

    let settlement = reject(&mut auction, &market());
    assert_eq!(auction.status(), AuctionStatus::Rejected);
    // There is no fund movement at all: the only entry was synthetic.
    assert!(settlement.payouts.is_empty());
    // The token goes back to the owner.
    assert_eq!(settlement.token_recipient.bytes, admin().bytes);
    assert_eq!(auction.bids().len(), 0);
}

#[test]
#[should_panic = "User(4)"]
fn bid_after_settle() {
    let now = 1_000_000u64;
    let mut auction = deploy(now, 10000);
    let bid_price = 10000u64;
    place_bid(&mut auction, &bob(), bid_price, now + 1000);
    assert_eq!(auction.status(), AuctionStatus::Settled);
    place_bid(&mut auction, &bob(), bid_price, now + 2000);
}

#[test]
#[should_panic = "User(4)"]
fn synth_bid_after_settle() {
    let now = 1_000_000u64;
    let bid_price = 10000u64;
    let mut auction = deploy(now, bid_price);
    synthetic_bid(&mut auction, &market(), &ali(), bid_price, now + 1000);
    assert_eq!(auction.status(), AuctionStatus::PendingSettle);
    synthetic_bid(&mut auction, &market(), &ali(), bid_price, now + 2000);
}

#[test]
fn approve_after_reject_fails() {
    let now = 1_000_000u64;
    let mut auction = deploy(now, 10000);
    synthetic_bid(&mut auction, &market(), &ali(), 10000, now + 1000);
    reject(&mut auction, &market());
    assert_eq!(auction.status(), AuctionStatus::Rejected);
    let commissions = default_commissions();
    let again = Auction::approve(&mut auction, &market(), Some(&commissions));
    assert_eq!(again.unwrap_err(), AuctionError::BadState);
    let again = Auction::reject(&mut auction, &market());
    assert_eq!(again.unwrap_err(), AuctionError::BadState);
}

#[test]
fn swap_overbid_is_charged_the_swap_price() {
    let now = 1_000_000u64;
    let mut auction = deploy(now, 10000);
    let settlement = place_bid(&mut auction, &bob(), 12000, now + 1000)
        .expect("an ordinary swap bid settles at once");
    // The winner pays exactly the swap price, not the announced amount.
    assert_eq!(auction.current_winner().1, Some((10000, false)));
    let total: u64 = settlement.payouts.iter().map(|p| p.amount).sum();
    assert_eq!(total, 10000);
}
