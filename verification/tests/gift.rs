//! The gift/escrow flow: records are created once and consumed exactly
//! once, by a claim or a cancellation.

use private_auction::account::{AccountId, CollectionRef};
use private_auction::entry_gift;
use private_auction::error::AuctionError;
use private_auction::gift::GiftStore;

fn acct(tag: u8) -> AccountId {
    AccountId { bytes: [tag; 32] }
}

fn admin() -> AccountId {
    acct(1)
}

fn sender() -> AccountId {
    acct(4)
}

fn receiver() -> AccountId {
    acct(5)
}

fn collection() -> CollectionRef {
    CollectionRef { bytes: [8; 32] }
}

fn store_with_gift() -> GiftStore {
    let mut store = GiftStore::new(admin());
    entry_gift::gift(&mut store, admin(), sender(), "token_one".to_string(), collection())
        .expect("the administrator records a gift");
    store
}

#[test]
fn gift_claim_hands_the_token_to_the_receiver() {
    let mut store = store_with_gift();
    let transfer = entry_gift::claim(&mut store, admin(), receiver(), "token_one".to_string())
        .expect("a recorded gift can be claimed");
    assert_eq!(transfer.recipient.bytes, receiver().bytes);
    assert_eq!(transfer.token_id, "token_one".to_string());
    assert_eq!(transfer.collection.bytes, collection().bytes);
}

#[test]
fn gift_cancel_returns_the_token_to_the_sender() {
    let mut store = store_with_gift();
    let transfer = entry_gift::cancel(&mut store, admin(), "token_one".to_string())
        .expect("a recorded gift can be cancelled");
    assert_eq!(transfer.recipient.bytes, sender().bytes);
    assert_eq!(transfer.collection.bytes, collection().bytes);
}

#[test]
fn gift_is_consumed_exactly_once() {
    let mut store = store_with_gift();
    entry_gift::claim(&mut store, admin(), receiver(), "token_one".to_string())
        .expect("the first claim succeeds");
    let again = entry_gift::claim(&mut store, admin(), receiver(), "token_one".to_string());
    assert_eq!(again.unwrap_err(), AuctionError::TokenNotFound);
    let cancel = entry_gift::cancel(&mut store, admin(), "token_one".to_string());
    assert_eq!(cancel.unwrap_err(), AuctionError::TokenNotFound);
}

#[test]
fn gift_unknown_token_cannot_be_claimed() {
    let mut store = store_with_gift();
    let other = entry_gift::claim(&mut store, admin(), receiver(), "token_two".to_string());
    assert_eq!(other.unwrap_err(), AuctionError::TokenNotFound);
}

#[test]
fn gift_entries_demand_the_administrator() {
    let mut store = GiftStore::new(admin());
    let not_admin = entry_gift::gift(
        &mut store,
        sender(),
        sender(),
        "token_one".to_string(),
        collection(),
    );
    assert_eq!(not_admin.unwrap_err(), AuctionError::InvalidCaller);
    let mut store = store_with_gift();
    let not_admin = entry_gift::claim(&mut store, receiver(), receiver(), "token_one".to_string());
    assert_eq!(not_admin.unwrap_err(), AuctionError::InvalidCaller);
    let not_admin = entry_gift::cancel(&mut store, receiver(), "token_one".to_string());
    assert_eq!(not_admin.unwrap_err(), AuctionError::InvalidCaller);
}

#[test]
fn gift_records_overwrite_per_token_identifier() {
    let mut store = store_with_gift();
    entry_gift::gift(&mut store, admin(), receiver(), "token_one".to_string(), collection())
        .expect("a second gift of the same token overwrites the record");
    let transfer = entry_gift::cancel(&mut store, admin(), "token_one".to_string())
        .expect("the overwritten record is consumed");
    assert_eq!(transfer.recipient.bytes, receiver().bytes);
}
