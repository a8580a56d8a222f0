//! Commission metadata parsing: the key grammar, the pairing of accounts
//! with rates, the deduplication of actors, and the rate-string and
//! account-string parsers.

use private_auction::account::AccountId;
use private_auction::commission::RawCommissions;
use private_auction::data::AuctionData;
use private_auction::error::AuctionError;
use private_auction::utils::{string_to_account_hash, string_to_u16};

fn acct(tag: u8) -> AccountId {
    AccountId { bytes: [tag; 32] }
}

fn formatted(tag: u8) -> Vec<u8> {
    casper_types::account::AccountHash::new([tag; 32])
        .to_formatted_string()
        .into_bytes()
}

fn pair(k: &[u8], v: Vec<u8>) -> (Vec<u8>, Vec<u8>) {
    (k.to_vec(), v)
}

#[test]
fn commissions_pair_each_actor_account_with_its_rate() {
    let raw: RawCommissions = vec![
        pair(b"artist_account", formatted(3)),
        pair(b"artist_rate", b"100".to_vec()),
        pair(b"curator_account", formatted(7)),
        pair(b"curator_rate", b"250".to_vec()),
    ];
    let table = AuctionData::compute_commissions(&raw).expect("well-formed metadata converts");
    assert_eq!(table.len(), 2);
    assert_eq!(table[0].0.bytes, acct(3).bytes);
    assert_eq!(table[0].1, 100);
    assert_eq!(table[1].0.bytes, acct(7).bytes);
    assert_eq!(table[1].1, 250);
}

#[test]
fn commissions_resolve_each_actor_once() {
    // The rate key of an already-resolved actor is skipped, not doubled.
    let raw: RawCommissions = vec![
        pair(b"artist_account", formatted(3)),
        pair(b"artist_rate", b"600".to_vec()),
    ];
    let table = AuctionData::compute_commissions(&raw).expect("well-formed metadata converts");
    assert_eq!(table.len(), 1);
    assert_eq!(table[0].1, 600);
}

#[test]
fn commissions_missing_rate_key_is_rejected() {
    let raw: RawCommissions = vec![pair(b"artist_account", formatted(3))];
    assert_eq!(
        AuctionData::compute_commissions(&raw).unwrap_err(),
        AuctionError::MismatchedCommissionAccount,
    );
}

#[test]
fn commissions_missing_account_key_is_rejected() {
    let raw: RawCommissions = vec![pair(b"artist_rate", b"100".to_vec())];
    assert_eq!(
        AuctionData::compute_commissions(&raw).unwrap_err(),
        AuctionError::MismatchedCommissionRate,
    );
}

#[test]
fn commissions_key_without_property_is_rejected() {
    let raw: RawCommissions = vec![pair(b"artist", formatted(3))];
    assert_eq!(
        AuctionData::compute_commissions(&raw).unwrap_err(),
        AuctionError::CommissionPropertySplit,
    );
}

#[test]
fn commissions_unknown_property_is_rejected() {
    let raw: RawCommissions = vec![pair(b"artist_share", b"100".to_vec())];
    assert_eq!(
        AuctionData::compute_commissions(&raw).unwrap_err(),
        AuctionError::InvalidcommissionProperty,
    );
}

#[test]
fn commissions_rates_may_not_exceed_the_denominator() {
    let raw: RawCommissions = vec![
        pair(b"artist_account", formatted(3)),
        pair(b"artist_rate", b"600".to_vec()),
        pair(b"curator_account", formatted(7)),
        pair(b"curator_rate", b"500".to_vec()),
    ];
    assert_eq!(
        AuctionData::compute_commissions(&raw).unwrap_err(),
        AuctionError::CommissionTooManyShares,
    );
}

#[test]
fn commissions_bad_rate_string_is_rejected() {
    let raw: RawCommissions = vec![
        pair(b"artist_account", formatted(3)),
        pair(b"artist_rate", b"1o0".to_vec()),
    ];
    assert_eq!(
        AuctionData::compute_commissions(&raw).unwrap_err(),
        AuctionError::CommissionRateIncorrectSerialization,
    );
}

#[test]
fn commissions_bad_account_string_is_rejected() {
    let raw: RawCommissions = vec![
        pair(b"artist_account", b"account-hash-zz".to_vec()),
        pair(b"artist_rate", b"100".to_vec()),
    ];
    assert_eq!(
        AuctionData::compute_commissions(&raw).unwrap_err(),
        AuctionError::CommissionAccountIncorrectSerialization,
    );
}

#[test]
fn account_strings_parse_in_their_three_shapes() {
    // A formatted account hash, a debug-printed account key, and a bare
    // hex payload all name the same account; the decode is not an echo of
    // the input bytes.
    let full = formatted(9);
    let parsed = string_to_account_hash(&full).expect("the formatted shape parses");
    assert_eq!(parsed.bytes, [9u8; 32]);
    assert_ne!(full, parsed.bytes.to_vec());

    let hex_payload: Vec<u8> = full[b"account-hash-".len()..].to_vec();
    let parsed = string_to_account_hash(&hex_payload).expect("the bare shape parses");
    assert_eq!(parsed.bytes, [9u8; 32]);

    let mut wrapped = b"Key::Account(".to_vec();
    wrapped.extend_from_slice(&hex_payload);
    wrapped.push(b')');
    let parsed = string_to_account_hash(&wrapped).expect("the wrapped shape parses");
    assert_eq!(parsed.bytes, [9u8; 32]);

    let unterminated = b"Key::Account(abc".to_vec();
    assert_eq!(
        string_to_account_hash(&unterminated).unwrap_err(),
        AuctionError::CommissionAccountIncorrectSerialization,
    );
}

#[test]
fn rate_strings_parse_as_decimal_numbers() {
    assert_eq!(string_to_u16(&b"0".to_vec()).unwrap(), 0);
    assert_eq!(string_to_u16(&b"100".to_vec()).unwrap(), 100);
    assert_eq!(string_to_u16(&b"+10".to_vec()).unwrap(), 10);
    assert_eq!(string_to_u16(&b"65535".to_vec()).unwrap(), 65535);
    let err = AuctionError::CommissionRateIncorrectSerialization;
    assert_eq!(string_to_u16(&b"65536".to_vec()).unwrap_err(), err);
    assert_eq!(string_to_u16(&b"".to_vec()).unwrap_err(), err);
    assert_eq!(string_to_u16(&b"+".to_vec()).unwrap_err(), err);
    assert_eq!(string_to_u16(&b"1o0".to_vec()).unwrap_err(), err);
    assert_eq!(string_to_u16(&b"-1".to_vec()).unwrap_err(), err);
}
