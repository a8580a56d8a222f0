//! The bid ledger on its own: lookups, overwrites, removals, and the
//! deterministic tie-breaks of the best-bid and lowest-bid scans.

use private_auction::account::AccountId;
use private_auction::bids::Bids;

fn acct(tag: u8) -> AccountId {
    AccountId { bytes: [tag; 32] }
}

#[test]
fn ledger_keeps_one_entry_per_bidder() {
    let mut bids = Bids::new();
    assert!(bids.is_empty());
    bids.insert(&acct(4), 2000, false);
    bids.insert(&acct(5), 3000, true);
    assert_eq!(bids.len(), 2);
    assert_eq!(bids.get(&acct(4)), Some((2000, false)));
    assert_eq!(bids.get(&acct(5)), Some((3000, true)));
    assert_eq!(bids.get(&acct(6)), None);
    bids.replace(&acct(4), 2600, false);
    assert_eq!(bids.len(), 2);
    assert_eq!(bids.get(&acct(4)), Some((2600, false)));
    bids.remove_by_key(&acct(4));
    assert_eq!(bids.get(&acct(4)), None);
    assert_eq!(bids.len(), 1);
}

#[test]
fn ledger_best_bid_breaks_ties_by_insertion_order() {
    let mut bids = Bids::new();
    let (w, a, s) = bids.max_by_key();
    assert!(w.is_none() && a.is_none() && !s);
    bids.insert(&acct(4), 3000, false);
    bids.insert(&acct(5), 3000, true);
    bids.insert(&acct(6), 2000, false);
    let (winner, amount, synthetic) = bids.max_by_key();
    assert_eq!(winner.unwrap().bytes, acct(4).bytes);
    assert_eq!(amount, Some(3000));
    assert!(!synthetic);
}

#[test]
fn ledger_lowest_bid_is_offered_only_when_beaten() {
    let mut bids = Bids::new();
    assert!(bids.get_lowest_bid(5000).is_none());
    bids.insert(&acct(4), 2000, false);
    bids.insert(&acct(5), 2000, true);
    bids.insert(&acct(6), 3000, false);
    // The earliest of the equal-lowest entries is picked.
    let (evicted, entry) = bids.get_lowest_bid(2001).expect("a beaten lowest entry is offered");
    assert_eq!(evicted.bytes, acct(4).bytes);
    assert_eq!(entry, (2000, false));
    // A candidate that does not beat the lowest entry evicts nobody.
    assert!(bids.get_lowest_bid(2000).is_none());
}

#[test]
fn ledger_clear_empties_everything() {
    let mut bids = Bids::new();
    bids.insert(&acct(4), 2000, false);
    bids.clear();
    assert!(bids.is_empty());
    assert_eq!(bids.get(&acct(4)), None);
}

#[test]
fn account_identity_is_compared_by_value() {
    let mut first = [0u8; 32];
    first[31] = 1;
    let mut second = [0u8; 32];
    second[0] = 1;
    let a = AccountId { bytes: first };
    let b = AccountId { bytes: second };
    assert!(!a.same(&b));
    assert!(a.same(&AccountId { bytes: first }));
}
