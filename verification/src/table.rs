use vstd::prelude::*;

use crate::types::AccountId;
use crate::types::Balance;

verus! {

// An amount table is an association list of (key, amount) entries with
// pairwise-distinct keys. A key with no entry stands for the amount 0: the
// accessors below make that "absence means zero" convention a contract, so
// a zero amount may be stored explicitly or left absent, interchangeably.

/// True when no key occurs twice in the entry list.
pub(crate) open spec fn distinct_keys<K>(s: Seq<(K, Balance)>) -> bool {
    forall|i: int, j: int| 0 <= i < j < s.len() ==> s[i].0 != s[j].0
}

/// The amount stored under `k`; an absent key stands for the amount 0.
pub(crate) open spec fn entry_lookup<K>(s: Seq<(K, Balance)>, k: K) -> Balance
    decreases s.len(),
{
    if s.len() == 0 {
        0
    } else if s[0].0 == k {
        s[0].1
    } else {
        entry_lookup(s.drop_first(), k)
    }
}

/// The sum of all stored amounts.
pub(crate) open spec fn amounts_sum<K>(s: Seq<(K, Balance)>) -> int
    decreases s.len(),
{
    if s.len() == 0 {
        0
    } else {
        s[0].1 + amounts_sum(s.drop_first())
    }
}

proof fn lemma_lookup_first_hit<K>(s: Seq<(K, Balance)>, i: int, k: K)
    requires
        0 <= i < s.len(),
        s[i].0 == k,
        forall|j: int| 0 <= j < i ==> s[j].0 != k,
    ensures
        entry_lookup(s, k) == s[i].1,
    decreases i,
{
    if i > 0 {
        lemma_lookup_first_hit(s.drop_first(), i - 1, k);
    }
}

pub(crate) proof fn lemma_lookup_absent<K>(s: Seq<(K, Balance)>, k: K)
    requires
        forall|i: int| 0 <= i < s.len() ==> s[i].0 != k,
    ensures
        entry_lookup(s, k) == 0,
    decreases s.len(),
{
    if s.len() > 0 {
        lemma_lookup_absent(s.drop_first(), k);
    }
}

pub(crate) proof fn lemma_sum_nonneg<K>(s: Seq<(K, Balance)>)
    ensures
        amounts_sum(s) >= 0,
    decreases s.len(),
{
    if s.len() > 0 {
        lemma_sum_nonneg(s.drop_first());
    }
}

/// No single stored amount exceeds the sum of all stored amounts.
pub(crate) proof fn lemma_lookup_le_sum<K>(s: Seq<(K, Balance)>, k: K)
    ensures
        entry_lookup(s, k) <= amounts_sum(s),
    decreases s.len(),
{
    if s.len() == 0 {
    } else if s[0].0 == k {
        lemma_sum_nonneg(s.drop_first());
    } else {
        lemma_lookup_le_sum(s.drop_first(), k);
    }
}

/// Two amounts held under different keys never exceed the sum together.
pub(crate) proof fn lemma_two_lookups_le_sum<K>(s: Seq<(K, Balance)>, k1: K, k2: K)
    requires
        k1 != k2,
    ensures
        entry_lookup(s, k1) + entry_lookup(s, k2) <= amounts_sum(s),
    decreases s.len(),
{
    if s.len() == 0 {
    } else if s[0].0 == k1 {
        lemma_lookup_le_sum(s.drop_first(), k2);
    } else if s[0].0 == k2 {
        lemma_lookup_le_sum(s.drop_first(), k1);
    } else {
        lemma_two_lookups_le_sum(s.drop_first(), k1, k2);
    }
}

pub(crate) proof fn lemma_sum_push<K>(s: Seq<(K, Balance)>, p: (K, Balance))
    ensures
        amounts_sum(s.push(p)) == amounts_sum(s) + p.1,
    decreases s.len(),
{
    if s.len() == 0 {
        assert(s.push(p).drop_first() =~= s);
    } else {
        assert(s.push(p).drop_first() =~= s.drop_first().push(p));
        lemma_sum_push(s.drop_first(), p);
    }
}

pub(crate) proof fn lemma_lookup_push_other<K>(s: Seq<(K, Balance)>, p: (K, Balance), k: K)
    requires
        k != p.0,
    ensures
        entry_lookup(s.push(p), k) == entry_lookup(s, k),
    decreases s.len(),
{
    if s.len() == 0 {
        assert(s.push(p).drop_first() =~= s);
    } else {
        assert(s.push(p).drop_first() =~= s.drop_first().push(p));
        lemma_lookup_push_other(s.drop_first(), p, k);
    }
}

pub(crate) proof fn lemma_lookup_push_fresh<K>(s: Seq<(K, Balance)>, p: (K, Balance))
    requires
        forall|i: int| 0 <= i < s.len() ==> s[i].0 != p.0,
    ensures
        entry_lookup(s.push(p), p.0) == p.1,
    decreases s.len(),
{
    if s.len() == 0 {
    } else {
        assert(s.push(p).drop_first() =~= s.drop_first().push(p));
        lemma_lookup_push_fresh(s.drop_first(), p);
    }
}

proof fn lemma_sum_update<K>(s: Seq<(K, Balance)>, i: int, v: Balance)
    requires
        0 <= i < s.len(),
    ensures
        amounts_sum(s.update(i, (s[i].0, v))) == amounts_sum(s) - s[i].1 + v,
    decreases i,
{
    if i == 0 {
        assert(s.update(0, (s[0].0, v)).drop_first() =~= s.drop_first());
    } else {
        assert(s.update(i, (s[i].0, v)).drop_first() =~= s.drop_first().update(
            i - 1,
            (s.drop_first()[i - 1].0, v),
        ));
        lemma_sum_update(s.drop_first(), i - 1, v);
    }
}

proof fn lemma_lookup_update<K>(s: Seq<(K, Balance)>, i: int, v: Balance, k: K)
    requires
        0 <= i < s.len(),
        forall|j: int| 0 <= j < s.len() && j != i ==> s[j].0 != s[i].0,
    ensures
        entry_lookup(s.update(i, (s[i].0, v)), k) == if k == s[i].0 {
            v
        } else {
            entry_lookup(s, k)
        },
    decreases i,
{
    if i == 0 {
        assert(s.update(0, (s[0].0, v)).drop_first() =~= s.drop_first());
    } else {
        assert(s.update(i, (s[i].0, v)).drop_first() =~= s.drop_first().update(
            i - 1,
            (s.drop_first()[i - 1].0, v),
        ));
        lemma_lookup_update(s.drop_first(), i - 1, v, k);
    }
}

/// The amount held under `k` in a balance table, 0 when `k` is absent.
pub(crate) fn amount_get(v: &Vec<(AccountId, Balance)>, k: AccountId) -> (r: Balance)
    ensures
        r == entry_lookup(v@, k),
{
    let n = v.len();
    let mut i: usize = 0;
    while i < n
        invariant
            n == v@.len(),
            i <= n,
            forall|j: int| 0 <= j < i ==> v@[j].0 != k,
        decreases n - i,
    {
        let e = v[i];
        if e.0 == k {
            proof {
                lemma_lookup_first_hit(v@, i as int, k);
            }
            return e.1;
        }
        i += 1;
    }
    proof {
        lemma_lookup_absent(v@, k);
    }
    0
}

/// Stores `val` under `k` in a balance table, overwriting any earlier entry.
pub(crate) fn amount_set(v: &mut Vec<(AccountId, Balance)>, k: AccountId, val: Balance)
    requires
        distinct_keys(old(v)@),
    ensures
        distinct_keys(final(v)@),
        entry_lookup(final(v)@, k) == val,
        forall|k2: AccountId| k2 != k ==> entry_lookup(final(v)@, k2) == entry_lookup(old(v)@, k2),
        amounts_sum(final(v)@) == amounts_sum(old(v)@) - entry_lookup(old(v)@, k) + val,
{
    let ghost s0 = v@;
    let n = v.len();
    let mut i: usize = 0;
    while i < n
        invariant
            v@ == s0,
            old(v)@ == s0,
            n == s0.len(),
            i <= n,
            distinct_keys(s0),
            forall|j: int| 0 <= j < i ==> s0[j].0 != k,
        decreases n - i,
    {
        let e = v[i];
        if e.0 == k {
            proof {
                lemma_lookup_first_hit(s0, i as int, k);
                assert forall|j: int| 0 <= j < s0.len() && j != i implies s0[j].0 != s0[i as int].0 by {
                    if j < i {
                        assert(s0[j].0 != s0[i as int].0);
                    }
                }
            }
            v[i] = (k, val);
            proof {
                assert(v@ == s0.update(i as int, (s0[i as int].0, val)));
                lemma_sum_update(s0, i as int, val);
                assert forall|k2: AccountId| #![auto] true implies entry_lookup(v@, k2) == if k2
                    == k {
                    val
                } else {
                    entry_lookup(s0, k2)
                } by {
                    lemma_lookup_update(s0, i as int, val, k2);
                }
                assert forall|a: int, b: int| 0 <= a < b < v@.len() implies v@[a].0 != v@[b].0 by {
                    assert(s0[a].0 != s0[b].0);
                }
            }
            return ;
        }
        i += 1;
    }
    proof {
        lemma_lookup_absent(s0, k);
        lemma_sum_push(s0, (k, val));
        lemma_lookup_push_fresh(s0, (k, val));
    }
    v.push((k, val));
    proof {
        assert forall|k2: AccountId| k2 != k implies entry_lookup(v@, k2) == entry_lookup(
            s0,
            k2,
        ) by {
            lemma_lookup_push_other(s0, (k, val), k2);
        }
        assert forall|a: int, b: int| 0 <= a < b < v@.len() implies v@[a].0 != v@[b].0 by {
            if b < s0.len() {
                assert(s0[a].0 != s0[b].0);
            } else {
                assert(s0[a].0 != k);
            }
        }
    }
}

/// The amount held under the ordered pair `(owner, spender)` in an allowance
/// table, 0 when the pair is absent.
pub(crate) fn pair_get(
    v: &Vec<((AccountId, AccountId), Balance)>,
    owner: AccountId,
    spender: AccountId,
) -> (r: Balance)
    ensures
        r == entry_lookup(v@, (owner, spender)),
{
    let n = v.len();
    let mut i: usize = 0;
    while i < n
        invariant
            n == v@.len(),
            i <= n,
            forall|j: int| 0 <= j < i ==> v@[j].0 != (owner, spender),
        decreases n - i,
    {
        let e = v[i];
        if e.0.0 == owner && e.0.1 == spender {
            proof {
                lemma_lookup_first_hit(v@, i as int, (owner, spender));
            }
            return e.1;
        }
        i += 1;
    }
    proof {
        lemma_lookup_absent(v@, (owner, spender));
    }
    0
}

/// Stores `val` under the ordered pair `(owner, spender)` in an allowance
/// table, overwriting any earlier entry.
pub(crate) fn pair_set(
    v: &mut Vec<((AccountId, AccountId), Balance)>,
    owner: AccountId,
    spender: AccountId,
    val: Balance,
)
    requires
        distinct_keys(old(v)@),
    ensures
        distinct_keys(final(v)@),
        entry_lookup(final(v)@, (owner, spender)) == val,
        forall|k2: (AccountId, AccountId)|
            k2 != (owner, spender) ==> entry_lookup(final(v)@, k2) == entry_lookup(old(v)@, k2),
{
    let ghost k = (owner, spender);
    let ghost s0 = v@;
    let n = v.len();
    let mut i: usize = 0;
    while i < n
        invariant
            v@ == s0,
            old(v)@ == s0,
            n == s0.len(),
            i <= n,
            distinct_keys(s0),
            forall|j: int| 0 <= j < i ==> s0[j].0 != k,
            k == (owner, spender),
        decreases n - i,
    {
        let e = v[i];
        if e.0.0 == owner && e.0.1 == spender {
            proof {
                lemma_lookup_first_hit(s0, i as int, k);
                assert forall|j: int| 0 <= j < s0.len() && j != i implies s0[j].0 != s0[i as int].0 by {
                    if j < i {
                        assert(s0[j].0 != s0[i as int].0);
                    }
                }
            }
            v[i] = ((owner, spender), val);
            proof {
                assert(v@ == s0.update(i as int, (s0[i as int].0, val)));
                assert forall|k2: (AccountId, AccountId)| #![auto] true implies entry_lookup(
                    v@,
                    k2,
                ) == if k2 == k {
                    val
                } else {
                    entry_lookup(s0, k2)
                } by {
                    lemma_lookup_update(s0, i as int, val, k2);
                }
                assert forall|a: int, b: int| 0 <= a < b < v@.len() implies v@[a].0 != v@[b].0 by {
                    assert(s0[a].0 != s0[b].0);
                }
            }
            return ;
        }
        i += 1;
    }
    proof {
        lemma_lookup_absent(s0, k);
        lemma_lookup_push_fresh(s0, (k, val));
    }
    v.push(((owner, spender), val));
    proof {
        assert forall|k2: (AccountId, AccountId)| k2 != k implies entry_lookup(v@, k2)
            == entry_lookup(s0, k2) by {
            lemma_lookup_push_other(s0, (k, val), k2);
        }
        assert forall|a: int, b: int| 0 <= a < b < v@.len() implies v@[a].0 != v@[b].0 by {
            if b < s0.len() {
                assert(s0[a].0 != s0[b].0);
            } else {
                assert(s0[a].0 != k);
            }
        }
    }
}

} // verus!
