//! Association lists: sequences of (key, value) entries with distinct keys,
//! the model of every keyed table in the ledgers.
use vstd::prelude::*;

verus! {

/// No key occurs in two entries.
pub open spec fn distinct_keys<V>(s: Seq<(Seq<char>, V)>) -> bool {
    forall|i: int, j: int|
        0 <= i < s.len() && 0 <= j < s.len() && i != j ==> #[trigger] s[i].0 != #[trigger] s[j].0
}

/// The value stored under `k`, searching from the most recent entry.
pub open spec fn assoc_get<V>(s: Seq<(Seq<char>, V)>, k: Seq<char>) -> Option<V>
    decreases s.len(),
{
    if s.len() == 0 {
        None
    } else if s.last().0 == k {
        Some(s.last().1)
    } else {
        assoc_get(s.drop_last(), k)
    }
}

/// The sum of all the amounts in the list.
pub open spec fn assoc_sum(s: Seq<(Seq<char>, u128)>) -> nat
    decreases s.len(),
{
    if s.len() == 0 {
        0
    } else {
        assoc_sum(s.drop_last()) + s.last().1 as nat
    }
}

/// The amount stored under `k`, zero where there is none.
pub open spec fn assoc_amount(s: Seq<(Seq<char>, u128)>, k: Seq<char>) -> u128 {
    match assoc_get(s, k) {
        Some(v) => v,
        None => 0,
    }
}

pub proof fn lemma_get_none<V>(s: Seq<(Seq<char>, V)>, k: Seq<char>)
    ensures
        assoc_get(s, k) is None <==> (forall|i: int| 0 <= i < s.len() ==> s[i].0 != k),
    decreases s.len(),
{
    if s.len() > 0 {
        lemma_get_none(s.drop_last(), k);
        if assoc_get(s, k) is None {
            assert forall|i: int| 0 <= i < s.len() implies s[i].0 != k by {
                if i < s.len() - 1 {
                    assert(s[i] == s.drop_last()[i]);
                }
            }
        }
    }
}

pub proof fn lemma_get_index<V>(s: Seq<(Seq<char>, V)>, i: int)
    requires
        distinct_keys(s),
        0 <= i < s.len(),
    ensures
        assoc_get(s, s[i].0) == Some(s[i].1),
    decreases s.len(),
{
    if i < s.len() - 1 {
        assert(s[i] == s.drop_last()[i]);
        assert(distinct_keys(s.drop_last()));
        lemma_get_index(s.drop_last(), i);
    }
}

pub proof fn lemma_get_push<V>(s: Seq<(Seq<char>, V)>, e: (Seq<char>, V), k: Seq<char>)
    ensures
        assoc_get(s.push(e), k) == (if k == e.0 {
            Some(e.1)
        } else {
            assoc_get(s, k)
        }),
{
    assert(s.push(e).drop_last() =~= s);
}

pub proof fn lemma_distinct_push<V>(s: Seq<(Seq<char>, V)>, e: (Seq<char>, V))
    requires
        distinct_keys(s),
        forall|i: int| 0 <= i < s.len() ==> s[i].0 != e.0,
    ensures
        distinct_keys(s.push(e)),
{
    let t = s.push(e);
    assert forall|i: int, j: int|
        0 <= i < t.len() && 0 <= j < t.len() && i != j implies #[trigger] t[i].0 != #[trigger] t[j].0 by {
        if i < s.len() && j < s.len() {
            assert(t[i] == s[i] && t[j] == s[j]);
        } else if i < s.len() {
            assert(t[i] == s[i]);
        } else {
            assert(t[j] == s[j]);
        }
    }
}

pub proof fn lemma_get_update<V>(s: Seq<(Seq<char>, V)>, i: int, e: (Seq<char>, V), k: Seq<char>)
    requires
        distinct_keys(s),
        0 <= i < s.len(),
        s[i].0 == e.0,
    ensures
        distinct_keys(s.update(i, e)),
        assoc_get(s.update(i, e), k) == (if k == e.0 {
            Some(e.1)
        } else {
            assoc_get(s, k)
        }),
    decreases s.len(),
{
    let t = s.update(i, e);
    assert forall|a: int, b: int|
        0 <= a < t.len() && 0 <= b < t.len() && a != b implies #[trigger] t[a].0 != #[trigger] t[b].0 by {
        assert(t[a].0 == s[a].0 && t[b].0 == s[b].0);
    }
    if i == s.len() - 1 {
        assert(t.drop_last() =~= s.drop_last());
    } else {
        assert(t.drop_last() =~= s.drop_last().update(i, e));
        assert(distinct_keys(s.drop_last()));
        lemma_get_update(s.drop_last(), i, e, k);
    }
}

pub proof fn lemma_sum_update(s: Seq<(Seq<char>, u128)>, i: int, e: (Seq<char>, u128))
    requires
        0 <= i < s.len(),
    ensures
        assoc_sum(s.update(i, e)) + s[i].1 == assoc_sum(s) + e.1,
    decreases s.len(),
{
    let t = s.update(i, e);
    if i == s.len() - 1 {
        assert(t.drop_last() =~= s.drop_last());
    } else {
        assert(t.drop_last() =~= s.drop_last().update(i, e));
        lemma_sum_update(s.drop_last(), i, e);
    }
}

pub proof fn lemma_sum_push(s: Seq<(Seq<char>, u128)>, e: (Seq<char>, u128))
    ensures
        assoc_sum(s.push(e)) == assoc_sum(s) + e.1,
{
    assert(s.push(e).drop_last() =~= s);
}

pub proof fn lemma_amount_le_sum(s: Seq<(Seq<char>, u128)>, k: Seq<char>)
    ensures
        assoc_amount(s, k) <= assoc_sum(s),
    decreases s.len(),
{
    if s.len() > 0 {
        lemma_amount_le_sum(s.drop_last(), k);
    }
}

} // verus!
