//! Byte-string helpers: equality and prefix tests, decimal rate parsing,
//! and conversion of formatted account strings to account identities.
//!
//! Strings handed over by the host (commission table keys and values) are
//! treated as byte strings. The only step delegated to the outside world is
//! the final account-hash decode, which follows the ledger's checksummed
//! hex scheme.

use vstd::prelude::*;

use crate::account::AccountId;
use crate::error::AuctionError;

verus! {

/// The bytes of `"account-hash-"`, the prefix of a formatted account hash.
pub open spec fn account_hash_prefix() -> Seq<u8> {
    seq![97u8, 99u8, 99u8, 111u8, 117u8, 110u8, 116u8, 45u8, 104u8, 97u8, 115u8, 104u8, 45u8]
}

/// The bytes of `"Key::Account("`, the prefix of a debug-formatted account
/// key.
pub open spec fn key_account_prefix() -> Seq<u8> {
    seq![75u8, 101u8, 121u8, 58u8, 58u8, 65u8, 99u8, 99u8, 111u8, 117u8, 110u8, 116u8, 40u8]
}

/// Exact byte equality of two byte strings.
pub fn bytes_eq(a: &Vec<u8>, b: &Vec<u8>) -> (r: bool)
    ensures
        r == (a@ == b@),
{
    if a.len() != b.len() {
        proof {
            assert(a@ != b@);
        }
        return false;
    }
    let n = a.len();
    let mut i: usize = 0;
    while i < n
        invariant
            n == a@.len() == b@.len(),
            i <= n,
            forall|j: int| 0 <= j < i ==> a@[j] == b@[j],
        decreases n - i,
    {
        if a[i] != b[i] {
            return false;
        }
        i += 1;
    }
    proof {
        assert(a@ =~= b@);
    }
    true
}

/// Whether `p` is a prefix of `s`.
pub fn has_prefix(s: &Vec<u8>, p: &Vec<u8>) -> (r: bool)
    ensures
        r == p@.is_prefix_of(s@),
{
    if p.len() > s.len() {
        proof {
            assert(!p@.is_prefix_of(s@));
        }
        return false;
    }
    let n = p.len();
    let mut i: usize = 0;
    while i < n
        invariant
            n == p@.len() <= s@.len(),
            i <= n,
            forall|j: int| 0 <= j < i ==> s@[j] == p@[j],
        decreases n - i,
    {
        if s[i] != p[i] {
            proof {
                assert(!p@.is_prefix_of(s@)) by {
                    assert(s@.subrange(0, n as int)[i as int] != p@[i as int]);
                }
            }
            return false;
        }
        i += 1;
    }
    proof {
        assert(s@.subrange(0, n as int) =~= p@);
    }
    true
}

/// Append `src[from..to]` to `dst`.
pub fn push_range(dst: &mut Vec<u8>, src: &Vec<u8>, from: usize, to: usize)
    requires
        from <= to <= src@.len(),
    ensures
        final(dst)@ == old(dst)@ + src@.subrange(from as int, to as int),
{
    let ghost d0 = dst@;
    let mut i: usize = from;
    while i < to
        invariant
            from <= i <= to <= src@.len(),
            dst@ == d0 + src@.subrange(from as int, i as int),
        decreases to - i,
    {
        dst.push(src[i]);
        proof {
            assert(dst@ =~= d0 + src@.subrange(from as int, i + 1 as int));
        }
        i += 1;
    }
}

/// The bytes of `"account-hash-"` as a value.
fn account_hash_prefix_bytes() -> (r: Vec<u8>)
    ensures
        r@ == account_hash_prefix(),
{
    let mut v: Vec<u8> = Vec::new();
    v.push(97u8);
    v.push(99u8);
    v.push(99u8);
    v.push(111u8);
    v.push(117u8);
    v.push(110u8);
    v.push(116u8);
    v.push(45u8);
    v.push(104u8);
    v.push(97u8);
    v.push(115u8);
    v.push(104u8);
    v.push(45u8);
    proof {
        assert(v@ =~= account_hash_prefix());
    }
    v
}

/// The bytes of `"Key::Account("` as a value.
fn key_account_prefix_bytes() -> (r: Vec<u8>)
    ensures
        r@ == key_account_prefix(),
{
    let mut v: Vec<u8> = Vec::new();
    v.push(75u8);
    v.push(101u8);
    v.push(121u8);
    v.push(58u8);
    v.push(58u8);
    v.push(65u8);
    v.push(99u8);
    v.push(99u8);
    v.push(111u8);
    v.push(117u8);
    v.push(110u8);
    v.push(116u8);
    v.push(40u8);
    proof {
        assert(v@ =~= key_account_prefix());
    }
    v
}

/// What the outside account-hash decoder answers for a formatted string.
/// The decode is a function of the string alone; a successful answer is the
/// 32-byte hash.
pub uninterp spec fn parsed_account(s: Seq<u8>) -> Option<Seq<u8>>;

/// Relies on `casper_types::account::AccountHash::from_formatted_str`: it
/// strips the `"account-hash-"` prefix and decodes the remainder as
/// checksummed hex into exactly 32 bytes, answering from the input string
/// alone.
#[verifier::external_body]
fn parse_formatted_account(s: &Vec<u8>) -> (r: Option<AccountId>)
    ensures
        r is Some <==> parsed_account(s@) is Some,
        r matches Some(a) ==> parsed_account(s@) == Some(a@),
{
    let text = match core::str::from_utf8(s.as_slice()) {
        Ok(t) => t,
        Err(_) => return None,
    };
    match casper_types::account::AccountHash::from_formatted_str(text) {
        Ok(h) => Some(AccountId { bytes: h.value() }),
        Err(_) => None,
    }
}

/// The formatted account-hash string an account string stands for:
/// a string already carrying the `"account-hash-"` prefix is kept, a
/// `"Key::Account(...)"` wrapper is rewritten to the prefixed form, and any
/// other string is given the prefix. A `"Key::Account("` opener without its
/// closing parenthesis stands for nothing.
pub open spec fn canonical_account_string(s: Seq<u8>) -> Option<Seq<u8>> {
    if account_hash_prefix().is_prefix_of(s) {
        Some(s)
    } else if key_account_prefix().is_prefix_of(s) {
        if s.len() > key_account_prefix().len() && s.last() == 41u8 {
            Some(account_hash_prefix() + s.subrange(key_account_prefix().len() as int, s.len() - 1))
        } else {
            None
        }
    } else {
        Some(account_hash_prefix() + s)
    }
}

/// The account hash an account string stands for: its canonical formatted
/// shape handed to the outside decoder.
pub open spec fn account_view_of(v: Seq<u8>) -> Option<Seq<u8>> {
    match canonical_account_string(v) {
        Some(c) => parsed_account(c),
        None => None,
    }
}

/// Convert an account string from commission metadata into an account
/// identity, rewriting it to the formatted account-hash shape first.
pub fn string_to_account_hash(account_string: &Vec<u8>) -> (r: Result<AccountId, AuctionError>)
    ensures
        r matches Ok(a) ==> account_view_of(account_string@) == Some(a@),
        r is Err <==> account_view_of(account_string@) is None,
        r is Err ==> r == Err::<AccountId, AuctionError>(
            AuctionError::CommissionAccountIncorrectSerialization,
        ),
{
    let hash_prefix = account_hash_prefix_bytes();
    let key_prefix = key_account_prefix_bytes();
    let parsed: Option<AccountId> = if has_prefix(account_string, &hash_prefix) {
        parse_formatted_account(account_string)
    } else if has_prefix(account_string, &key_prefix) {
        if account_string.len() > key_prefix.len() && account_string[account_string.len() - 1]
            == 41u8 {
            let mut canonical = account_hash_prefix_bytes();
            push_range(&mut canonical, account_string, key_prefix.len(), account_string.len() - 1);
            parse_formatted_account(&canonical)
        } else {
            proof {
                if account_string@.len() > key_account_prefix().len() {
                    assert(account_string@.last() != 41u8);
                }
            }
            return Err(AuctionError::CommissionAccountIncorrectSerialization);
        }
    } else {
        let mut canonical = account_hash_prefix_bytes();
        push_range(&mut canonical, account_string, 0, account_string.len());
        proof {
            assert(account_string@.subrange(0, account_string@.len() as int) =~= account_string@);
        }
        parse_formatted_account(&canonical)
    };
    match parsed {
        Some(a) => Ok(a),
        None => Err(AuctionError::CommissionAccountIncorrectSerialization),
    }
}

/// A digit byte.
pub open spec fn is_digit(c: u8) -> bool {
    48u8 <= c <= 57u8
}

/// Every byte is a digit.
pub open spec fn all_digits(s: Seq<u8>) -> bool {
    forall|i: int| 0 <= i < s.len() ==> is_digit(#[trigger] s[i])
}

/// The number a digit string denotes, most significant digit first.
pub open spec fn dec_value(s: Seq<u8>) -> int
    decreases s.len(),
{
    if s.len() == 0 {
        0
    } else {
        dec_value(s.drop_last()) * 10 + (s.last() - 48u8)
    }
}

/// What `str::parse::<u16>` accepts: an optional leading plus sign, then
/// one or more digits denoting a value that fits.
pub open spec fn parse_u16_spec(s: Seq<u8>) -> Option<u16> {
    let t = if s.len() > 0 && s[0] == 43u8 {
        s.skip(1)
    } else {
        s
    };
    if t.len() > 0 && all_digits(t) && dec_value(t) <= u16::MAX {
        Some(dec_value(t) as u16)
    } else {
        None
    }
}

proof fn lemma_dec_value_nonneg(s: Seq<u8>)
    requires
        all_digits(s),
    ensures
        dec_value(s) >= 0,
    decreases s.len(),
{
    if s.len() > 0 {
        assert(all_digits(s.drop_last())) by {
            assert(forall|i: int|
                0 <= i < s.len() - 1 ==> s.drop_last()[i] == #[trigger] s[i]);
        }
        lemma_dec_value_nonneg(s.drop_last());
        assert(dec_value(s.drop_last()) * 10 >= 0) by (nonlinear_arith)
            requires
                dec_value(s.drop_last()) >= 0,
        ;
    }
}

/// A digit string denotes at least as much as any of its prefixes.
proof fn lemma_dec_value_prefix(s: Seq<u8>, j: int)
    requires
        all_digits(s),
        0 <= j <= s.len(),
    ensures
        dec_value(s.take(j)) <= dec_value(s),
    decreases s.len(),
{
    if j < s.len() {
        assert(all_digits(s.drop_last())) by {
            assert(forall|i: int|
                0 <= i < s.len() - 1 ==> s.drop_last()[i] == #[trigger] s[i]);
        }
        assert(s.drop_last().take(j) =~= s.take(j));
        lemma_dec_value_prefix(s.drop_last(), j);
        lemma_dec_value_nonneg(s.drop_last());
        assert(dec_value(s.drop_last()) * 10 >= dec_value(s.drop_last())) by (nonlinear_arith)
            requires
                dec_value(s.drop_last()) >= 0,
        ;
    } else {
        assert(s.take(j) =~= s);
    }
}

/// Parse a commission rate, exactly as the standard decimal parse of a
/// sixteen-bit number would.
pub fn string_to_u16(ustr: &Vec<u8>) -> (r: Result<u16, AuctionError>)
    ensures
        r == (match parse_u16_spec(ustr@) {
            Some(v) => Ok::<u16, AuctionError>(v),
            None => Err::<u16, AuctionError>(AuctionError::CommissionRateIncorrectSerialization),
        }),
{
    let n = ustr.len();
    let start: usize = if n > 0 && ustr[0] == 43u8 {
        1
    } else {
        0
    };
    let ghost t = if ustr@.len() > 0 && ustr@[0] == 43u8 {
        ustr@.skip(1)
    } else {
        ustr@
    };
    proof {
        assert(t.len() == n - start);
        assert(forall|i: int| 0 <= i < t.len() ==> t[i] == ustr@[i + start]);
    }
    if start >= n {
        return Err(AuctionError::CommissionRateIncorrectSerialization);
    }
    let mut acc: u32 = 0;
    let mut i: usize = start;
    while i < n
        invariant
            start <= i <= n,
            n == ustr@.len(),
            t == (if ustr@.len() > 0 && ustr@[0] == 43u8 {
                ustr@.skip(1)
            } else {
                ustr@
            }),
            t.len() == n - start,
            forall|k: int| 0 <= k < t.len() ==> t[k] == ustr@[k + start],
            all_digits(t.take(i - start)),
            acc == dec_value(t.take(i - start)),
            acc <= u16::MAX,
        decreases n - i,
    {
        let c = ustr[i];
        if c < 48u8 || c > 57u8 {
            proof {
                assert(t[i - start] == c);
                assert(!all_digits(t));
            }
            return Err(AuctionError::CommissionRateIncorrectSerialization);
        }
        let d = (c - 48u8) as u32;
        let next = acc * 10 + d;
        proof {
            let j = i - start;
            assert(t.take(j + 1).drop_last() =~= t.take(j));
            assert(t.take(j + 1).last() == t[j]);
            assert(all_digits(t.take(j + 1))) by {
                assert(forall|k: int| 0 <= k < j ==> t.take(j + 1)[k] == #[trigger] t.take(j)[k]);
            }
            assert(next == dec_value(t.take(j + 1)));
        }
        if next > u16::MAX as u32 {
            proof {
                if all_digits(t) {
                    lemma_dec_value_prefix(t, i - start + 1);
                }
            }
            return Err(AuctionError::CommissionRateIncorrectSerialization);
        }
        acc = next;
        i += 1;
    }
    proof {
        assert(t.take(n - start) =~= t);
    }
    Ok(acc as u16)
}

} // verus!
