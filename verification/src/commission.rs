//! Commission metadata: validation at creation and conversion to the
//! payout table at settlement.
//!
//! The token collection hands over its royalty metadata as a list of
//! (key, value) byte-string pairs. A key is `<actor>_account` or
//! `<actor>_rate`; each actor names a payout account (a formatted account
//! hash) and a rate in thousandths, and the rates must sum to at most the
//! denominator. The conversion walks the pairs in order, resolves each
//! actor once (at its first key), and pairs every account with its rate.

use vstd::prelude::*;

use crate::account::AccountId;
use crate::data::AuctionData;
use crate::error::AuctionError;
use crate::utils::{
    account_view_of, bytes_eq, parse_u16_spec, push_range, string_to_account_hash, string_to_u16,
};

verus! {

/// The raw commission metadata: (key, value) byte-string pairs in the
/// order the token collection reports them.
pub type RawCommissions = Vec<(Vec<u8>, Vec<u8>)>;

/// The bytes of `"account"`.
pub open spec fn account_tag() -> Seq<u8> {
    seq![97u8, 99u8, 99u8, 111u8, 117u8, 110u8, 116u8]
}

/// The bytes of `"rate"`.
pub open spec fn rate_tag() -> Seq<u8> {
    seq![114u8, 97u8, 116u8, 101u8]
}

/// The view of the raw pairs: each side as a byte sequence.
pub open spec fn raw_view(v: Seq<(Vec<u8>, Vec<u8>)>) -> Seq<(Seq<u8>, Seq<u8>)> {
    Seq::new(v.len(), |i: int| (v[i].0@, v[i].1@))
}

/// The index of the first underscore; `k.len()` when there is none.
pub open spec fn first_underscore(k: Seq<u8>) -> int
    decreases k.len(),
{
    if k.len() == 0 {
        0
    } else if k[0] == 95u8 {
        0
    } else {
        1 + first_underscore(k.skip(1))
    }
}

/// The actor segment: everything before the first underscore.
pub open spec fn actor_of(k: Seq<u8>) -> Seq<u8> {
    k.take(first_underscore(k))
}

/// Whether the key has a property segment at all.
pub open spec fn has_property(k: Seq<u8>) -> bool {
    first_underscore(k) < k.len()
}

/// The property segment: between the first underscore and the second one
/// (or the end).
pub open spec fn property_of(k: Seq<u8>) -> Seq<u8> {
    let rest = k.skip(first_underscore(k) + 1);
    rest.take(first_underscore(rest))
}

proof fn lemma_first_underscore(k: Seq<u8>)
    ensures
        0 <= first_underscore(k) <= k.len(),
        first_underscore(k) < k.len() ==> k[first_underscore(k)] == 95u8,
        forall|j: int| 0 <= j < first_underscore(k) ==> k[j] != 95u8,
    decreases k.len(),
{
    if k.len() == 0 {
    } else if k[0] == 95u8 {
    } else {
        lemma_first_underscore(k.skip(1));
        let f = first_underscore(k);
        assert forall|j: int| 0 <= j < f implies k[j] != 95u8 by {
            if j > 0 {
                assert(k.skip(1)[j - 1] == k[j]);
            }
        }
        if f < k.len() {
            assert(k.skip(1)[f - 1] == k[f]);
        }
    }
}

/// Find the first underscore at or after `from`; the answer is `from` plus
/// the offset of the first underscore of the remaining suffix.
fn find_underscore(v: &Vec<u8>, from: usize) -> (r: usize)
    requires
        from <= v@.len(),
    ensures
        from <= r <= v@.len(),
        r - from == first_underscore(v@.skip(from as int)),
{
    let ghost s = v@.skip(from as int);
    proof {
        lemma_first_underscore(s);
    }
    let ghost f = first_underscore(s);
    let n = v.len();
    let mut i: usize = from;
    while i < n
        invariant
            from <= i <= n,
            n == v@.len(),
            s == v@.skip(from as int),
            f == first_underscore(s),
            0 <= f <= s.len(),
            f < s.len() ==> s[f] == 95u8,
            forall|j: int| 0 <= j < f ==> s[j] != 95u8,
            i - from <= f,
        decreases n - i,
    {
        proof {
            assert(s[i - from] == v@[i as int]);
        }
        if v[i] == 95u8 {
            proof {
                if i - from < f {
                    assert(s[i - from] != 95u8);
                }
            }
            return i;
        }
        proof {
            if i - from == f {
                assert(s[f] == 95u8);
            }
        }
        i += 1;
    }
    n
}

/// Split a key into its actor segment and, if present, its property
/// segment.
fn split_key(k: &Vec<u8>) -> (r: (Vec<u8>, Option<Vec<u8>>))
    ensures
        r.0@ == actor_of(k@),
        r.1 is Some <==> has_property(k@),
        r.1 matches Some(p) ==> p@ == property_of(k@),
{
    let n = k.len();
    let u1 = find_underscore(k, 0);
    proof {
        assert(k@.skip(0) =~= k@);
    }
    let mut actor: Vec<u8> = Vec::new();
    push_range(&mut actor, k, 0, u1);
    proof {
        assert(actor@ =~= actor_of(k@));
    }
    if u1 >= n {
        return (actor, None);
    }
    let u2 = find_underscore(k, u1 + 1);
    let mut property: Vec<u8> = Vec::new();
    push_range(&mut property, k, u1 + 1, u2);
    proof {
        let rest = k@.skip(u1 + 1);
        assert(forall|j: int| 0 <= j < rest.len() ==> rest[j] == k@[j + u1 + 1]);
        assert(property@ =~= rest.take(first_underscore(rest)));
    }
    (actor, Some(property))
}

/// The value stored under the first pair whose key matches.
pub open spec fn lookup(pairs: Seq<(Seq<u8>, Seq<u8>)>, key: Seq<u8>) -> Option<Seq<u8>>
    decreases pairs.len(),
{
    if pairs.len() == 0 {
        None
    } else if pairs[0].0 == key {
        Some(pairs[0].1)
    } else {
        lookup(pairs.skip(1), key)
    }
}

/// The index `lookup` answers from; `pairs.len()` when the key is absent.
pub open spec fn lookup_index(pairs: Seq<(Seq<u8>, Seq<u8>)>, key: Seq<u8>) -> int
    decreases pairs.len(),
{
    if pairs.len() == 0 {
        0
    } else if pairs[0].0 == key {
        0
    } else {
        1 + lookup_index(pairs.skip(1), key)
    }
}

proof fn lemma_lookup_props(pairs: Seq<(Seq<u8>, Seq<u8>)>, key: Seq<u8>)
    ensures
        (lookup(pairs, key) is Some) <==> (exists|i: int|
            0 <= i < pairs.len() && pairs[i].0 == key),
        lookup(pairs, key) is Some ==> {
            let k = lookup_index(pairs, key);
            &&& 0 <= k < pairs.len()
            &&& pairs[k].0 == key
            &&& lookup(pairs, key) == Some(pairs[k].1)
            &&& forall|j: int| 0 <= j < k ==> pairs[j].0 != key
        },
        (lookup(pairs, key) is None) ==> lookup_index(pairs, key) == pairs.len(),
    decreases pairs.len(),
{
    if pairs.len() == 0 {
    } else if pairs[0].0 == key {
    } else {
        let t = pairs.skip(1);
        lemma_lookup_props(t, key);
        assert forall|i: int| 0 <= i < pairs.len() && pairs[i].0 == key implies lookup(
            pairs,
            key,
        ) is Some by {
            assert(t[i - 1] == pairs[i]);
        }
        if lookup(pairs, key) is Some {
            let k = lookup_index(pairs, key);
            let kt = lookup_index(t, key);
            assert(pairs[k] == t[kt]);
            assert forall|j: int| 0 <= j < k implies pairs[j].0 != key by {
                if j > 0 {
                    assert(t[j - 1] == pairs[j]);
                }
            }
        }
    }
}

/// Scan the raw pairs for a key, returning a borrow of its value.
fn lookup_exec<'a>(pairs: &'a RawCommissions, key: &Vec<u8>) -> (r: Option<&'a Vec<u8>>)
    ensures
        r is Some <==> lookup(raw_view(pairs@), key@) is Some,
        r matches Some(v) ==> Some(v@) == lookup(raw_view(pairs@), key@),
{
    let ghost rv = raw_view(pairs@);
    proof {
        lemma_lookup_props(rv, key@);
    }
    let ghost k = lookup_index(rv, key@);
    let n = pairs.len();
    let mut i: usize = 0;
    while i < n
        invariant
            i <= n,
            n == pairs@.len(),
            rv == raw_view(pairs@),
            k == lookup_index(rv, key@),
            lookup(rv, key@) is Some ==> k < n && rv[k].0 == key@ && lookup(rv, key@) == Some(
                rv[k].1,
            ),
            lookup(rv, key@) is None ==> k == n,
            forall|j: int| 0 <= j < k ==> rv[j].0 != key@,
            i <= k,
        decreases n - i,
    {
        if bytes_eq(&pairs[i].0, key) {
            proof {
                if i < k {
                    assert(rv[i as int].0 != key@);
                }
                if lookup(rv, key@) is None {
                    assert(rv[i as int].0 != key@);
                }
                assert(i == k);
            }
            return Some(&pairs[i].1);
        }
        proof {
            if i == k {
                assert(rv[k].0 == key@);
            }
        }
        i += 1;
    }
    None
}

/// Whether a byte string is among the collected ones.
fn contains_bytes(v: &Vec<Vec<u8>>, key: &Vec<u8>) -> (r: bool)
    ensures
        r == exists|j: int| 0 <= j < v@.len() && v@[j]@ == key@,
{
    let n = v.len();
    let mut i: usize = 0;
    while i < n
        invariant
            i <= n,
            n == v@.len(),
            forall|j: int| 0 <= j < i ==> v@[j]@ != key@,
        decreases n - i,
    {
        if bytes_eq(&v[i], key) {
            return true;
        }
        i += 1;
    }
    false
}

/// The view of a payout table: each account as its hash bytes.
pub open spec fn tbl_view(s: Seq<(AccountId, u16)>) -> Seq<(Seq<u8>, u16)> {
    Seq::new(s.len(), |i: int| (s[i].0@, s[i].1))
}

/// No account appears twice in a table.
pub open spec fn tbl_unique(t: Seq<(Seq<u8>, u16)>) -> bool {
    forall|i: int, j: int| 0 <= i < j < t.len() ==> t[i].0 != t[j].0
}

/// The index of the first table entry for an account; `t.len()` if absent.
pub open spec fn tbl_index_of(t: Seq<(Seq<u8>, u16)>, a: Seq<u8>) -> int
    decreases t.len(),
{
    if t.len() == 0 {
        0
    } else if t[0].0 == a {
        0
    } else {
        1 + tbl_index_of(t.skip(1), a)
    }
}

/// Whether a table holds an entry for an account.
pub open spec fn tbl_contains(t: Seq<(Seq<u8>, u16)>, a: Seq<u8>) -> bool {
    exists|i: int| 0 <= i < t.len() && t[i].0 == a
}

/// Insert or overwrite the entry for an account, as a map keyed by the
/// account would.
pub open spec fn tbl_upsert(t: Seq<(Seq<u8>, u16)>, a: Seq<u8>, r: u16) -> Seq<(Seq<u8>, u16)> {
    if tbl_contains(t, a) {
        t.update(tbl_index_of(t, a), (a, r))
    } else {
        t.push((a, r))
    }
}

/// The sum of the rates of a table.
pub open spec fn rates_sum(t: Seq<(Seq<u8>, u16)>) -> int
    decreases t.len(),
{
    if t.len() == 0 {
        0
    } else {
        rates_sum(t.drop_last()) + t.last().1
    }
}

proof fn lemma_tbl_index_props(t: Seq<(Seq<u8>, u16)>, a: Seq<u8>)
    ensures
        tbl_contains(t, a) ==> {
            let k = tbl_index_of(t, a);
            &&& 0 <= k < t.len()
            &&& t[k].0 == a
            &&& forall|j: int| 0 <= j < k ==> t[j].0 != a
        },
        !tbl_contains(t, a) ==> tbl_index_of(t, a) == t.len(),
    decreases t.len(),
{
    if t.len() == 0 {
    } else if t[0].0 == a {
    } else {
        let s = t.skip(1);
        lemma_tbl_index_props(s, a);
        assert forall|i: int| 0 <= i < t.len() && t[i].0 == a implies tbl_contains(s, a) by {
            assert(s[i - 1] == t[i]);
        }
        if tbl_contains(t, a) {
            let k = tbl_index_of(t, a);
            let ks = tbl_index_of(s, a);
            assert(tbl_contains(s, a)) by {
                let i = choose|i: int| 0 <= i < t.len() && t[i].0 == a;
                assert(s[i - 1] == t[i]);
            }
            assert(t[k] == s[ks]);
            assert forall|j: int| 0 <= j < k implies t[j].0 != a by {
                if j > 0 {
                    assert(s[j - 1] == t[j]);
                }
            }
        } else {
            assert(!tbl_contains(s, a)) by {
                if tbl_contains(s, a) {
                    let i = choose|i: int| 0 <= i < s.len() && s[i].0 == a;
                    assert(t[i + 1] == s[i]);
                }
            }
        }
    }
}

pub proof fn lemma_rates_sum_nonneg(t: Seq<(Seq<u8>, u16)>)
    ensures
        rates_sum(t) >= 0,
    decreases t.len(),
{
    if t.len() > 0 {
        lemma_rates_sum_nonneg(t.drop_last());
    }
}

/// A prefix of a table never sums past the whole table.
pub proof fn lemma_rates_sum_prefix(t: Seq<(Seq<u8>, u16)>, i: int)
    requires
        0 <= i <= t.len(),
    ensures
        rates_sum(t.take(i)) <= rates_sum(t),
    decreases t.len() - i,
{
    if i < t.len() {
        assert(t.take(i + 1).drop_last() =~= t.take(i));
        assert(t.take(i + 1).last() == t[i]);
        assert(rates_sum(t.take(i + 1)) == rates_sum(t.take(i)) + t[i].1);
        lemma_rates_sum_prefix(t, i + 1);
    } else {
        assert(t.take(i) =~= t);
    }
}

proof fn lemma_rates_sum_update(t: Seq<(Seq<u8>, u16)>, i: int, e: (Seq<u8>, u16))
    requires
        0 <= i < t.len(),
    ensures
        rates_sum(t.update(i, e)) == rates_sum(t) - t[i].1 + e.1,
    decreases t.len(),
{
    let u = t.update(i, e);
    if i == t.len() - 1 {
        assert(u.drop_last() =~= t.drop_last());
        assert(u.last() == e);
    } else {
        assert(u.drop_last() =~= t.drop_last().update(i, e));
        lemma_rates_sum_update(t.drop_last(), i, e);
        assert(u.last() == t.last());
    }
}

/// Upserting keeps the table duplicate-free and raises the rate sum by at
/// most the new rate.
proof fn lemma_tbl_upsert_props(t: Seq<(Seq<u8>, u16)>, a: Seq<u8>, r: u16)
    requires
        tbl_unique(t),
    ensures
        tbl_unique(tbl_upsert(t, a, r)),
        rates_sum(tbl_upsert(t, a, r)) <= rates_sum(t) + r,
{
    lemma_tbl_index_props(t, a);
    let u = tbl_upsert(t, a, r);
    if tbl_contains(t, a) {
        let k = tbl_index_of(t, a);
        lemma_rates_sum_update(t, k, (a, r));
        assert forall|i: int, j: int| 0 <= i < j < u.len() implies u[i].0 != u[j].0 by {
            if i != k && j != k {
                assert(u[i] == t[i] && u[j] == t[j]);
            } else if i == k {
                assert(u[i].0 == a && u[j] == t[j]);
                assert(t[k].0 == a);
            } else {
                assert(u[j].0 == a && u[i] == t[i]);
                assert(t[k].0 == a);
            }
        }
    } else {
        assert(u.drop_last() =~= t);
        assert(rates_sum(u) == rates_sum(t) + r);
        assert forall|i: int, j: int| 0 <= i < j < u.len() implies u[i].0 != u[j].0 by {
            if j == u.len() - 1 {
                assert(u[i] == t[i]);
                assert(!tbl_contains(t, a));
                assert(u[j].0 == a);
                if u[i].0 == a {
                    assert(tbl_contains(t, a));
                }
            } else {
                assert(u[i] == t[i] && u[j] == t[j]);
            }
        }
    }
}

/// Insert or overwrite a payout-table entry.
fn tbl_upsert_exec(table: &mut Vec<(AccountId, u16)>, acct: AccountId, rate: u16)
    ensures
        tbl_view(final(table)@) == tbl_upsert(tbl_view(old(table)@), acct@, rate),
{
    let ghost t0 = tbl_view(old(table)@);
    proof {
        lemma_tbl_index_props(t0, acct@);
    }
    let ghost k = tbl_index_of(t0, acct@);
    let n = table.len();
    let mut i: usize = 0;
    while i < n
        invariant
            i <= n,
            n == table@.len(),
            table@ == old(table)@,
            t0 == tbl_view(table@),
            k == tbl_index_of(t0, acct@),
            tbl_contains(t0, acct@) ==> k < n && t0[k].0 == acct@,
            !tbl_contains(t0, acct@) ==> k == n,
            forall|j: int| 0 <= j < k ==> t0[j].0 != acct@,
            i <= k,
        decreases n - i,
    {
        if table[i].0.same(&acct) {
            proof {
                if i < k {
                    assert(t0[i as int].0 != acct@);
                }
                if !tbl_contains(t0, acct@) {
                    assert(t0[i as int].0 == table@[i as int].0@);
                    assert(tbl_contains(t0, acct@));
                }
                assert(i == k);
            }
            table.remove(i);
            table.insert(i, (acct, rate));
            proof {
                assert(tbl_view(table@) =~= t0.update(i as int, (acct@, rate)));
            }
            return ;
        }
        proof {
            assert(t0[i as int].0 == table@[i as int].0@);
            if i == k {
                assert(t0[k].0 == acct@);
            }
        }
        i += 1;
    }
    table.push((acct, rate));
    proof {
        assert(tbl_view(table@) =~= t0.push((acct@, rate)));
    }
}

/// One conversion step per pair, in order. An actor already resolved is
/// skipped; otherwise the key must name the `account` or the `rate`
/// property, the partner key must exist, and both the rate and the account
/// must parse; the actor's entry is then recorded and its rate added to the
/// running sum.
pub open spec fn process_commissions(
    pairs: Seq<(Seq<u8>, Seq<u8>)>,
    i: int,
    done: Set<Seq<u8>>,
    table: Seq<(Seq<u8>, u16)>,
    sum: int,
) -> Result<(Seq<(Seq<u8>, u16)>, int), AuctionError>
    decreases pairs.len() - i,
    when 0 <= i <= pairs.len()
{
    if i >= pairs.len() {
        Ok((table, sum))
    } else {
        let k = pairs[i].0;
        let v = pairs[i].1;
        let actor = actor_of(k);
        if done.contains(actor) {
            process_commissions(pairs, i + 1, done, table, sum)
        } else if !has_property(k) {
            Err(AuctionError::CommissionPropertySplit)
        } else if property_of(k) == account_tag() {
            match lookup(pairs, actor + seq![95u8] + rate_tag()) {
                None => Err(AuctionError::MismatchedCommissionAccount),
                Some(rate_str) => match parse_u16_spec(rate_str) {
                    None => Err(AuctionError::CommissionRateIncorrectSerialization),
                    Some(rate) => match account_view_of(v) {
                        None => Err(AuctionError::CommissionAccountIncorrectSerialization),
                        Some(acct) => process_commissions(
                            pairs,
                            i + 1,
                            done.insert(actor),
                            tbl_upsert(table, acct, rate),
                            sum + rate,
                        ),
                    },
                },
            }
        } else if property_of(k) == rate_tag() {
            match lookup(pairs, actor + seq![95u8] + account_tag()) {
                None => Err(AuctionError::MismatchedCommissionRate),
                Some(acct_str) => match parse_u16_spec(v) {
                    None => Err(AuctionError::CommissionRateIncorrectSerialization),
                    Some(rate) => match account_view_of(acct_str) {
                        None => Err(AuctionError::CommissionAccountIncorrectSerialization),
                        Some(acct) => process_commissions(
                            pairs,
                            i + 1,
                            done.insert(actor),
                            tbl_upsert(table, acct, rate),
                            sum + rate,
                        ),
                    },
                },
            }
        } else {
            Err(AuctionError::InvalidcommissionProperty)
        }
    }
}

/// What `compute_commissions` answers: the converted table, unless a step
/// fails or the rates sum past the denominator.
pub open spec fn computed_commissions(pairs: Seq<(Seq<u8>, Seq<u8>)>) -> Result<
    (Seq<(Seq<u8>, u16)>, int),
    AuctionError,
> {
    match process_commissions(pairs, 0, Set::empty(), Seq::empty(), 0) {
        Ok((t, s)) => if s > 1000 {
            Err(AuctionError::CommissionTooManyShares)
        } else {
            Ok((t, s))
        },
        Err(e) => Err(e),
    }
}

/// The bytes of `"account"` as a value.
fn account_tag_bytes() -> (r: Vec<u8>)
    ensures
        r@ == account_tag(),
{
    let mut v: Vec<u8> = Vec::new();
    v.push(97u8);
    v.push(99u8);
    v.push(99u8);
    v.push(111u8);
    v.push(117u8);
    v.push(110u8);
    v.push(116u8);
    proof {
        assert(v@ =~= account_tag());
    }
    v
}

/// The bytes of `"rate"` as a value.
fn rate_tag_bytes() -> (r: Vec<u8>)
    ensures
        r@ == rate_tag(),
{
    let mut v: Vec<u8> = Vec::new();
    v.push(114u8);
    v.push(97u8);
    v.push(116u8);
    v.push(101u8);
    proof {
        assert(v@ =~= rate_tag());
    }
    v
}

/// Build `<actor>_<tag>`.
fn partner_key(actor: &Vec<u8>, tag: &Vec<u8>) -> (r: Vec<u8>)
    ensures
        r@ == actor@ + seq![95u8] + tag@,
{
    let mut key: Vec<u8> = Vec::new();
    push_range(&mut key, actor, 0, actor.len());
    key.push(95u8);
    push_range(&mut key, tag, 0, tag.len());
    proof {
        assert(actor@.subrange(0, actor@.len() as int) =~= actor@);
        assert(tag@.subrange(0, tag@.len() as int) =~= tag@);
        assert(key@ =~= actor@ + seq![95u8] + tag@);
    }
    key
}

impl AuctionData {
    /// Convert the raw commission metadata into the payout table: each
    /// actor's payout account paired with its rate, resolved in first-key
    /// order, with the rates summing to at most the denominator.
    pub fn compute_commissions(raw: &RawCommissions) -> (r: Result<
        Vec<(AccountId, u16)>,
        AuctionError,
    >)
        ensures
            r matches Ok(tbl) ==> {
                &&& computed_commissions(raw_view(raw@)) matches Ok((t, s))
                &&& tbl_view(tbl@) == t
                &&& tbl_unique(t)
                &&& rates_sum(t) <= 1000
            },
            r matches Err(e) ==> computed_commissions(raw_view(raw@)) == Err::<
                (Seq<(Seq<u8>, u16)>, int),
                AuctionError,
            >(e),
    {
        let ghost rv = raw_view(raw@);
        let account_tag_v = account_tag_bytes();
        let rate_tag_v = rate_tag_bytes();
        let n = raw.len();
        let mut done: Vec<Vec<u8>> = Vec::new();
        let ghost done_set = Set::<Seq<u8>>::empty();
        let mut table: Vec<(AccountId, u16)> = Vec::new();
        let mut sum: u128 = 0;
        let mut i: usize = 0;
        proof {
            assert(rv.len() == n);
            assert(tbl_view(table@) =~= Seq::<(Seq<u8>, u16)>::empty());
        }
        while i < n
            invariant
                i <= n,
                n == raw@.len(),
                rv == raw_view(raw@),
                account_tag_v@ == account_tag(),
                rate_tag_v@ == rate_tag(),
                forall|a: Seq<u8>|
                    #[trigger] done_set.contains(a) <==> exists|j: int|
                        0 <= j < done@.len() && done@[j]@ == a,
                sum as int <= 0xFFFF * (i as int),
                process_commissions(rv, 0, Set::empty(), Seq::empty(), 0)
                    == process_commissions(rv, i as int, done_set, tbl_view(table@), sum as int),
                tbl_unique(tbl_view(table@)),
                rates_sum(tbl_view(table@)) <= sum,
            decreases n - i,
        {
            let ghost done0 = done_set;
            let ghost sum0 = sum as int;
            let pair_key = &raw[i].0;
            let pair_value = &raw[i].1;
            proof {
                assert(rv[i as int] == (raw@[i as int].0@, raw@[i as int].1@));
            }
            let (actor, property) = split_key(pair_key);
            if contains_bytes(&done, &actor) {
                proof {
                    assert(done_set.contains(actor_of(rv[i as int].0)));
                }
                i += 1;
                continue ;
            }
            proof {
                assert(!done_set.contains(actor_of(rv[i as int].0)));
            }
            let property = match property {
                Some(p) => p,
                None => {
                    return Err(AuctionError::CommissionPropertySplit);
                },
            };
            let (partner_tag, partner_missing_err, rate_source_is_partner) = if bytes_eq(
                &property,
                &account_tag_v,
            ) {
                (&rate_tag_v, AuctionError::MismatchedCommissionAccount, true)
            } else if bytes_eq(&property, &rate_tag_v) {
                (&account_tag_v, AuctionError::MismatchedCommissionRate, false)
            } else {
                return Err(AuctionError::InvalidcommissionProperty);
            };
            let key2 = partner_key(&actor, partner_tag);
            let partner_value = match lookup_exec(raw, &key2) {
                Some(v) => v,
                None => {
                    return Err(partner_missing_err);
                },
            };
            let (rate_bytes, account_bytes) = if rate_source_is_partner {
                (partner_value, pair_value)
            } else {
                (pair_value, partner_value)
            };
            let rate = match string_to_u16(rate_bytes) {
                Ok(v) => v,
                Err(e) => {
                    return Err(e);
                },
            };
            let acct = match string_to_account_hash(account_bytes) {
                Ok(a) => a,
                Err(e) => {
                    return Err(e);
                },
            };
            proof {
                lemma_tbl_upsert_props(tbl_view(table@), acct@, rate);
            }
            let ghost actorv = actor@;
            let ghost donev0 = done@;
            tbl_upsert_exec(&mut table, acct, rate);
            done.push(actor);
            proof {
                let av = actor_of(rv[i as int].0);
                done_set = done_set.insert(av);
                assert(av == actorv);
                assert forall|a: Seq<u8>| #[trigger] done_set.contains(a) implies exists|j: int|
                    0 <= j < done@.len() && done@[j]@ == a by {
                    if a == av {
                        assert(done@[done@.len() - 1]@ == a);
                    } else {
                        assert(done0.contains(a));
                        let j = choose|j: int| 0 <= j < donev0.len() && donev0[j]@ == a;
                        assert(done@[j]@ == a);
                    }
                }
                assert forall|a: Seq<u8>|
                    (exists|j: int| 0 <= j < done@.len() && done@[j]@ == a)
                        implies #[trigger] done_set.contains(a) by {
                    let j = choose|j: int| 0 <= j < done@.len() && done@[j]@ == a;
                    if j < done@.len() - 1 {
                        assert(donev0[j]@ == a);
                        assert(done0.contains(a));
                    } else {
                        assert(a == actorv);
                    }
                }
                assert(sum0 + rate <= 0xFFFF * (i + 1)) by (nonlinear_arith)
                    requires
                        sum0 <= 0xFFFF * (i as int),
                        rate <= 0xFFFF,
                        i >= 0,
                ;
                assert(0xFFFF * (i + 1) <= 0xFFFF * 0x10000000000000000) by (nonlinear_arith)
                    requires
                        i + 1 <= 0x10000000000000000,
                ;
            }
            sum = sum + rate as u128;
            i += 1;
        }
        proof {
            assert(process_commissions(rv, 0, Set::empty(), Seq::empty(), 0) == Ok::<
                _,
                AuctionError,
            >((tbl_view(table@), sum as int)));
        }
        if sum > 1000 {
            return Err(AuctionError::CommissionTooManyShares);
        }
        Ok(table)
    }
}

/// One validation step per pair: every key must carry a known property,
/// every account value must parse, and the rate values must parse; the
/// running sum collects the rates.
pub open spec fn validate_from(pairs: Seq<(Seq<u8>, Seq<u8>)>, i: int, sum: int) -> Result<
    int,
    AuctionError,
>
    decreases pairs.len() - i,
    when 0 <= i <= pairs.len()
{
    if i >= pairs.len() {
        Ok(sum)
    } else {
        let k = pairs[i].0;
        let v = pairs[i].1;
        if !has_property(k) {
            Err(AuctionError::CommissionPropertySplit)
        } else if property_of(k) == account_tag() {
            match account_view_of(v) {
                None => Err(AuctionError::CommissionAccountIncorrectSerialization),
                Some(_) => validate_from(pairs, i + 1, sum),
            }
        } else if property_of(k) == rate_tag() {
            match parse_u16_spec(v) {
                None => Err(AuctionError::CommissionRateIncorrectSerialization),
                Some(r) => validate_from(pairs, i + 1, sum + r),
            }
        } else {
            Err(AuctionError::InvalidcommissionProperty)
        }
    }
}

/// What `validate_commissions` accepts: every step passes and the rates
/// sum to at most the denominator.
pub open spec fn commissions_valid(pairs: Seq<(Seq<u8>, Seq<u8>)>) -> Result<(), AuctionError> {
    match validate_from(pairs, 0, 0) {
        Ok(s) => if s > 1000 {
            Err(AuctionError::CommissionTooManyShares)
        } else {
            Ok(())
        },
        Err(e) => Err(e),
    }
}

/// Check the commission metadata a token collection reports, as done once
/// at auction creation.
pub fn validate_commissions(raw: &RawCommissions) -> (r: Result<(), AuctionError>)
    ensures
        r == commissions_valid(raw_view(raw@)),
{
    let ghost rv = raw_view(raw@);
    let account_tag_v = account_tag_bytes();
    let rate_tag_v = rate_tag_bytes();
    let n = raw.len();
    let mut sum: u128 = 0;
    let mut i: usize = 0;
    while i < n
        invariant
            i <= n,
            n == raw@.len(),
            rv == raw_view(raw@),
            account_tag_v@ == account_tag(),
            rate_tag_v@ == rate_tag(),
            sum as int <= 0xFFFF * (i as int),
            validate_from(rv, 0, 0) == validate_from(rv, i as int, sum as int),
        decreases n - i,
    {
        let ghost sum0 = sum as int;
        let pair_key = &raw[i].0;
        let pair_value = &raw[i].1;
        proof {
            assert(rv[i as int] == (raw@[i as int].0@, raw@[i as int].1@));
        }
        let (_actor, property) = split_key(pair_key);
        let property = match property {
            Some(p) => p,
            None => {
                return Err(AuctionError::CommissionPropertySplit);
            },
        };
        if bytes_eq(&property, &account_tag_v) {
            match string_to_account_hash(pair_value) {
                Ok(_) => (),
                Err(e) => {
                    return Err(e);
                },
            }
        } else if bytes_eq(&property, &rate_tag_v) {
            let rate = match string_to_u16(pair_value) {
                Ok(v) => v,
                Err(e) => {
                    return Err(e);
                },
            };
            proof {
                assert(sum0 + rate <= 0xFFFF * (i + 1)) by (nonlinear_arith)
                    requires
                        sum0 <= 0xFFFF * (i as int),
                        rate <= 0xFFFF,
                        i >= 0,
                ;
                assert(0xFFFF * (i + 1) <= 0xFFFF * 0x10000000000000000) by (nonlinear_arith)
                    requires
                        i + 1 <= 0x10000000000000000,
                ;
            }
            sum = sum + rate as u128;
        } else {
            return Err(AuctionError::InvalidcommissionProperty);
        }
        i += 1;
    }
    proof {
        assert(validate_from(rv, 0, 0) == Ok::<int, AuctionError>(sum as int));
    }
    if sum > 1000 {
        return Err(AuctionError::CommissionTooManyShares);
    }
    Ok(())
}

} // verus!
