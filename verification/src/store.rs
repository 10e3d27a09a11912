//! The key-value stores backing the ledger: per-holder balances and
//! per-holder authorization flags, each a list of entries with pairwise
//! distinct keys. A key that is absent stands for the entity's default value
//! (0 for a balance, true for an authorization flag), so reads never fail and
//! writes overwrite unconditionally.

use vstd::prelude::*;

verus! {

/// The value stored under `key`, or `default` where no entry holds that key.
pub open spec fn lookup<V>(s: Seq<(u64, V)>, key: u64, default: V) -> V
    decreases s.len(),
{
    if s.len() == 0 {
        default
    } else if s[0].0 == key {
        s[0].1
    } else {
        lookup(s.drop_first(), key, default)
    }
}

/// No two entries share a key.
pub open spec fn keys_unique<V>(s: Seq<(u64, V)>) -> bool {
    forall|i: int, j: int| 0 <= i < j < s.len() ==> s[i].0 != s[j].0
}

/// The sum of all stored amounts, as an unbounded integer.
pub open spec fn sum_of(s: Seq<(u64, i128)>) -> int
    decreases s.len(),
{
    if s.len() == 0 {
        0
    } else {
        s[0].1 + sum_of(s.drop_first())
    }
}

/// Every stored amount is non-negative.
pub open spec fn all_nonnegative(s: Seq<(u64, i128)>) -> bool {
    forall|i: int| 0 <= i < s.len() ==> s[i].1 >= 0
}

/// A key found at position `i`, with no earlier entry holding it, decides the
/// lookup.
proof fn lemma_lookup_found<V>(s: Seq<(u64, V)>, key: u64, default: V, i: int)
    requires
        0 <= i < s.len(),
        s[i].0 == key,
        forall|j: int| 0 <= j < i ==> s[j].0 != key,
    ensures
        lookup(s, key, default) == s[i].1,
    decreases i,
{
    if i > 0 {
        lemma_lookup_found(s.drop_first(), key, default, i - 1);
    }
}

/// A key held by no entry looks up to the default.
proof fn lemma_lookup_absent<V>(s: Seq<(u64, V)>, key: u64, default: V)
    requires
        forall|j: int| 0 <= j < s.len() ==> s[j].0 != key,
    ensures
        lookup(s, key, default) == default,
    decreases s.len(),
{
    if s.len() > 0 {
        lemma_lookup_absent(s.drop_first(), key, default);
    }
}

/// Overwriting one entry leaves the lookup of every other key unchanged.
proof fn lemma_lookup_update_other<V>(s: Seq<(u64, V)>, i: int, e: (u64, V), key: u64, default: V)
    requires
        0 <= i < s.len(),
        s[i].0 != key,
        e.0 != key,
    ensures
        lookup(s.update(i, e), key, default) == lookup(s, key, default),
    decreases s.len(),
{
    let s2 = s.update(i, e);
    if i == 0 {
        assert(s2.drop_first() =~= s.drop_first());
    } else {
        if s[0].0 != key {
            assert(s2.drop_first() =~= s.drop_first().update(i - 1, e));
            lemma_lookup_update_other(s.drop_first(), i - 1, e, key, default);
        }
    }
}

/// Appending an entry for another key leaves the lookup unchanged.
proof fn lemma_lookup_push_other<V>(s: Seq<(u64, V)>, e: (u64, V), key: u64, default: V)
    requires
        e.0 != key,
    ensures
        lookup(s.push(e), key, default) == lookup(s, key, default),
    decreases s.len(),
{
    if s.len() == 0 {
        assert(s.push(e).drop_first() =~= Seq::<(u64, V)>::empty());
        assert(lookup(Seq::<(u64, V)>::empty(), key, default) == default);
    } else {
        if s[0].0 != key {
            assert(s.push(e).drop_first() =~= s.drop_first().push(e));
            lemma_lookup_push_other(s.drop_first(), e, key, default);
        }
    }
}

/// Overwriting one entry changes the sum by the difference of the amounts.
proof fn lemma_sum_update(s: Seq<(u64, i128)>, i: int, e: (u64, i128))
    requires
        0 <= i < s.len(),
    ensures
        sum_of(s.update(i, e)) == sum_of(s) - s[i].1 + e.1,
    decreases s.len(),
{
    let s2 = s.update(i, e);
    if i == 0 {
        assert(s2.drop_first() =~= s.drop_first());
    } else {
        assert(s2.drop_first() =~= s.drop_first().update(i - 1, e));
        lemma_sum_update(s.drop_first(), i - 1, e);
    }
}

/// Appending an entry grows the sum by its amount.
proof fn lemma_sum_push(s: Seq<(u64, i128)>, e: (u64, i128))
    ensures
        sum_of(s.push(e)) == sum_of(s) + e.1,
    decreases s.len(),
{
    if s.len() == 0 {
        assert(s.push(e).drop_first() =~= Seq::<(u64, i128)>::empty());
        assert(sum_of(Seq::<(u64, i128)>::empty()) == 0);
    } else {
        assert(s.push(e).drop_first() =~= s.drop_first().push(e));
        lemma_sum_push(s.drop_first(), e);
    }
}

/// A store of non-negative amounts has a non-negative sum.
pub proof fn lemma_sum_nonneg(s: Seq<(u64, i128)>)
    requires
        all_nonnegative(s),
    ensures
        sum_of(s) >= 0,
    decreases s.len(),
{
    if s.len() > 0 {
        assert(all_nonnegative(s.drop_first()));
        lemma_sum_nonneg(s.drop_first());
    }
}

/// In a store of non-negative amounts, no lookup is negative.
pub proof fn lemma_lookup_nonneg(s: Seq<(u64, i128)>, key: u64)
    requires
        all_nonnegative(s),
    ensures
        lookup(s, key, 0) >= 0,
    decreases s.len(),
{
    if s.len() > 0 && s[0].0 != key {
        assert(all_nonnegative(s.drop_first()));
        lemma_lookup_nonneg(s.drop_first(), key);
    }
}

/// In a store of non-negative amounts, one holder's amount is at most the sum.
pub proof fn lemma_lookup_le_sum(s: Seq<(u64, i128)>, key: u64)
    requires
        all_nonnegative(s),
    ensures
        lookup(s, key, 0) as int <= sum_of(s),
    decreases s.len(),
{
    if s.len() == 0 {
    } else {
        assert(all_nonnegative(s.drop_first()));
        lemma_sum_nonneg(s.drop_first());
        if s[0].0 == key {
        } else {
            lemma_lookup_le_sum(s.drop_first(), key);
        }
    }
}

/// In a store of non-negative amounts, two distinct holders' amounts together
/// are at most the sum.
pub proof fn lemma_two_lookups_le_sum(s: Seq<(u64, i128)>, k1: u64, k2: u64)
    requires
        all_nonnegative(s),
        k1 != k2,
    ensures
        lookup(s, k1, 0) as int + lookup(s, k2, 0) as int <= sum_of(s),
    decreases s.len(),
{
    if s.len() == 0 {
    } else {
        assert(all_nonnegative(s.drop_first()));
        if s[0].0 == k1 {
            lemma_lookup_le_sum(s.drop_first(), k2);
        } else if s[0].0 == k2 {
            lemma_lookup_le_sum(s.drop_first(), k1);
        } else {
            lemma_two_lookups_le_sum(s.drop_first(), k1, k2);
        }
    }
}

/// Splitting a store at any position splits its sum.
proof fn lemma_sum_split(s: Seq<(u64, i128)>, i: int)
    requires
        0 <= i <= s.len(),
    ensures
        sum_of(s) == sum_of(s.take(i)) + sum_of(s.skip(i)),
    decreases s.len(),
{
    if i == 0 {
        assert(s.take(0) =~= Seq::<(u64, i128)>::empty());
        assert(s.skip(0) =~= s);
        assert(sum_of(Seq::<(u64, i128)>::empty()) == 0);
    } else {
        assert(s.take(i).drop_first() =~= s.drop_first().take(i - 1));
        assert(s.skip(i) =~= s.drop_first().skip(i - 1));
        lemma_sum_split(s.drop_first(), i - 1);
    }
}

/// The total of all stored amounts. The caller guarantees that the total fits
/// a signed 128-bit amount; amounts must be non-negative, so that no partial
/// sum leaves the range either.
pub fn sum_balances(entries: &Vec<(u64, i128)>) -> (r: i128)
    requires
        all_nonnegative(entries@),
        sum_of(entries@) <= i128::MAX,
    ensures
        r as int == sum_of(entries@),
{
    let ghost s = entries@;
    let n: usize = entries.len();
    let mut acc: i128 = 0;
    let mut i: usize = 0;
    proof {
        assert(s.take(0) =~= Seq::<(u64, i128)>::empty());
        assert(sum_of(Seq::<(u64, i128)>::empty()) == 0);
    }
    while i < n
        invariant
            n == s.len(),
            s == entries@,
            i <= n,
            all_nonnegative(s),
            sum_of(s) <= i128::MAX,
            acc as int == sum_of(s.take(i as int)),
        decreases n - i,
    {
        proof {
            assert(s.take(i as int + 1) =~= s.take(i as int).push(s[i as int]));
            lemma_sum_push(s.take(i as int), s[i as int]);
            lemma_sum_split(s, i as int + 1);
            assert(all_nonnegative(s.skip(i as int + 1)));
            lemma_sum_nonneg(s.skip(i as int + 1));
            assert(all_nonnegative(s.take(i as int)));
            lemma_sum_nonneg(s.take(i as int));
        }
        acc = acc + entries[i].1;
        i += 1;
    }
    proof {
        assert(s.take(n as int) =~= s);
    }
    acc
}

/// The position of the entry holding `key`, where one exists.
fn find_key<V>(entries: &Vec<(u64, V)>, key: u64) -> (r: Option<usize>)
    ensures
        match r {
            Some(i) => {
                &&& i < entries@.len()
                &&& entries@[i as int].0 == key
                &&& forall|j: int| 0 <= j < i ==> entries@[j].0 != key
            },
            None => forall|j: int| 0 <= j < entries@.len() ==> entries@[j].0 != key,
        },
{
    let n: usize = entries.len();
    let mut i: usize = 0;
    while i < n
        invariant
            n == entries@.len(),
            i <= n,
            forall|j: int| 0 <= j < i ==> entries@[j].0 != key,
        decreases n - i,
    {
        if entries[i].0 == key {
            return Some(i);
        }
        i += 1;
    }
    None
}

/// Balance Store read: the amount held under `addr`, 0 where no entry exists.
/// Never fails.
pub fn read_balance(entries: &Vec<(u64, i128)>, addr: u64) -> (r: i128)
    ensures
        r == lookup(entries@, addr, 0),
{
    match find_key(entries, addr) {
        Some(i) => {
            proof {
                lemma_lookup_found(entries@, addr, 0, i as int);
            }
            entries[i].1
        },
        None => {
            proof {
                lemma_lookup_absent(entries@, addr, 0);
            }
            0
        },
    }
}

/// Balance Store write: unconditional overwrite of `addr`'s amount. Validation
/// of the amount is the caller's responsibility.
pub fn write_balance(entries: &mut Vec<(u64, i128)>, addr: u64, amount: i128)
    requires
        keys_unique(old(entries)@),
    ensures
        keys_unique(final(entries)@),
        lookup(final(entries)@, addr, 0) == amount,
        forall|k: u64| k != addr ==> lookup(final(entries)@, k, 0) == lookup(old(entries)@, k, 0),
        sum_of(final(entries)@) == sum_of(old(entries)@) - lookup(old(entries)@, addr, 0) + amount,
        all_nonnegative(old(entries)@) && amount >= 0 ==> all_nonnegative(final(entries)@),
{
    let ghost s0 = entries@;
    match find_key(entries, addr) {
        Some(i) => {
            entries[i] = (addr, amount);
            proof {
                assert(entries@ =~= s0.update(i as int, (addr, amount)));
                lemma_lookup_found(s0, addr, 0, i as int);
                lemma_lookup_found(entries@, addr, 0, i as int);
                lemma_sum_update(s0, i as int, (addr, amount));
                assert forall|k: u64| k != addr implies lookup(entries@, k, 0) == lookup(
                    s0,
                    k,
                    0,
                ) by {
                    lemma_lookup_update_other(s0, i as int, (addr, amount), k, 0);
                }
            }
        },
        None => {
            entries.push((addr, amount));
            proof {
                assert(entries@ =~= s0.push((addr, amount)));
                lemma_lookup_absent(s0, addr, 0);
                lemma_lookup_found(entries@, addr, 0, s0.len() as int);
                lemma_sum_push(s0, (addr, amount));
                assert forall|k: u64| k != addr implies lookup(entries@, k, 0) == lookup(
                    s0,
                    k,
                    0,
                ) by {
                    lemma_lookup_push_other(s0, (addr, amount), k, 0);
                }
            }
        },
    }
}

/// Authorization Store read: the flag held under `addr`, true where no entry
/// exists (holders are authorized by default). Never fails.
pub fn is_authorized(entries: &Vec<(u64, bool)>, addr: u64) -> (r: bool)
    ensures
        r == lookup(entries@, addr, true),
{
    match find_key(entries, addr) {
        Some(i) => {
            proof {
                lemma_lookup_found(entries@, addr, true, i as int);
            }
            entries[i].1
        },
        None => {
            proof {
                lemma_lookup_absent(entries@, addr, true);
            }
            true
        },
    }
}

/// Authorization Store write: unconditional overwrite of `addr`'s flag.
pub fn write_authorization(entries: &mut Vec<(u64, bool)>, addr: u64, flag: bool)
    requires
        keys_unique(old(entries)@),
    ensures
        keys_unique(final(entries)@),
        lookup(final(entries)@, addr, true) == flag,
        forall|k: u64| k != addr ==> lookup(final(entries)@, k, true) == lookup(
            old(entries)@,
            k,
            true,
        ),
{
    let ghost s0 = entries@;
    match find_key(entries, addr) {
        Some(i) => {
            entries[i] = (addr, flag);
            proof {
                assert(entries@ =~= s0.update(i as int, (addr, flag)));
                lemma_lookup_found(entries@, addr, true, i as int);
                assert forall|k: u64| k != addr implies lookup(entries@, k, true) == lookup(
                    s0,
                    k,
                    true,
                ) by {
                    lemma_lookup_update_other(s0, i as int, (addr, flag), k, true);
                }
            }
        },
        None => {
            entries.push((addr, flag));
            proof {
                assert(entries@ =~= s0.push((addr, flag)));
                lemma_lookup_found(entries@, addr, true, s0.len() as int);
                assert forall|k: u64| k != addr implies lookup(entries@, k, true) == lookup(
                    s0,
                    k,
                    true,
                ) by {
                    lemma_lookup_push_other(s0, (addr, flag), k, true);
                }
            }
        },
    }
}

} // verus!
