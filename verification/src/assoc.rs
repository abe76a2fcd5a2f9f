//! Association lists with distinct keys: the specification-level lookup
//! used by the server's delta store and the client's loaded-chunk map, with
//! the lemmas describing how lookup behaves under update, insertion, and
//! filtering.

use vstd::prelude::*;

verus! {

/// Value of the first entry with the given key, if any.
pub open spec fn assoc_lookup<K, V>(entries: Seq<(K, V)>, key: K) -> Option<V>
    decreases entries.len(),
{
    if entries.len() == 0 {
        None
    } else if entries[0].0 == key {
        Some(entries[0].1)
    } else {
        assoc_lookup(entries.drop_first(), key)
    }
}

/// No two entries share a key.
pub open spec fn distinct_keys<K, V>(entries: Seq<(K, V)>) -> bool {
    forall|i: int, j: int|
        0 <= i < j < entries.len() ==> (#[trigger] entries[i]).0 != (#[trigger] entries[j]).0
}

/// The entries whose key satisfies the predicate, in order.
pub open spec fn assoc_filter<K, V>(entries: Seq<(K, V)>, pred: spec_fn(K) -> bool) -> Seq<(K, V)>
    decreases entries.len(),
{
    if entries.len() == 0 {
        Seq::empty()
    } else if pred(entries[0].0) {
        seq![entries[0]] + assoc_filter(entries.drop_first(), pred)
    } else {
        assoc_filter(entries.drop_first(), pred)
    }
}

/// Lookup finds the value at the first matching index.
pub proof fn lemma_assoc_found<K, V>(entries: Seq<(K, V)>, key: K, i: int)
    requires
        0 <= i < entries.len(),
        entries[i].0 == key,
        forall|j: int| 0 <= j < i ==> (#[trigger] entries[j]).0 != key,
    ensures
        assoc_lookup(entries, key) == Some(entries[i].1),
    decreases entries.len(),
{
    if i > 0 {
        lemma_assoc_found(entries.drop_first(), key, i - 1);
    }
}

/// Lookup misses when no entry has the key.
pub proof fn lemma_assoc_missing<K, V>(entries: Seq<(K, V)>, key: K)
    requires
        forall|j: int| 0 <= j < entries.len() ==> (#[trigger] entries[j]).0 != key,
    ensures
        assoc_lookup(entries, key) is None,
    decreases entries.len(),
{
    if entries.len() > 0 {
        lemma_assoc_missing(entries.drop_first(), key);
    }
}

/// A key that occurs in the list is found by lookup.
pub proof fn lemma_assoc_member<K, V>(entries: Seq<(K, V)>, i: int)
    requires
        0 <= i < entries.len(),
    ensures
        assoc_lookup(entries, entries[i].0) is Some,
    decreases entries.len(),
{
    if entries[0].0 != entries[i].0 {
        lemma_assoc_member(entries.drop_first(), i - 1);
    }
}

/// Replacing the value at one index changes lookup only for that entry's
/// key.
pub proof fn lemma_assoc_update<K, V>(entries: Seq<(K, V)>, i: int, v: V, key: K)
    requires
        distinct_keys(entries),
        0 <= i < entries.len(),
    ensures
        assoc_lookup(entries.update(i, (entries[i].0, v)), key) == if key == entries[i].0 {
            Some(v)
        } else {
            assoc_lookup(entries, key)
        },
        distinct_keys(entries.update(i, (entries[i].0, v))),
    decreases entries.len(),
{
    let updated = entries.update(i, (entries[i].0, v));
    assert(forall|j: int| 0 <= j < entries.len() ==> (#[trigger] updated[j]).0 == entries[j].0);
    if i == 0 {
        if key != entries[0].0 {
            assert(updated.drop_first() =~= entries.drop_first());
        }
    } else {
        assert(updated.drop_first() =~= entries.drop_first().update(i - 1, (entries[i].0, v)));
        assert(entries.drop_first()[i - 1] == entries[i]);
        lemma_assoc_update(entries.drop_first(), i - 1, v, key);
    }
}

/// Appending an entry with a fresh key changes lookup only for that key.
pub proof fn lemma_assoc_push<K, V>(entries: Seq<(K, V)>, k: K, v: V, key: K)
    requires
        forall|j: int| 0 <= j < entries.len() ==> (#[trigger] entries[j]).0 != k,
    ensures
        assoc_lookup(entries.push((k, v)), key) == if key == k {
            Some(v)
        } else {
            assoc_lookup(entries, key)
        },
        distinct_keys(entries) ==> distinct_keys(entries.push((k, v))),
    decreases entries.len(),
{
    if entries.len() == 0 {
        assert(entries.push((k, v))[0] == (k, v));
        assert(entries.push((k, v)).drop_first() =~= Seq::<(K, V)>::empty());
        assert(assoc_lookup(entries.push((k, v)).drop_first(), key) is None);
        assert(assoc_lookup(entries, key) is None);
    } else {
        assert(entries.push((k, v))[0] == entries[0]);
        assert(entries.push((k, v)).drop_first() =~= entries.drop_first().push((k, v)));
        lemma_assoc_push(entries.drop_first(), k, v, key);
    }
}

/// Appending preserves lookup under filtering as well: the filtered list of
/// a pushed entry grows by that entry exactly when its key passes.
pub proof fn lemma_assoc_filter_push<K, V>(entries: Seq<(K, V)>, e: (K, V), pred: spec_fn(K) -> bool)
    ensures
        assoc_filter(entries.push(e), pred) == if pred(e.0) {
            assoc_filter(entries, pred).push(e)
        } else {
            assoc_filter(entries, pred)
        },
    decreases entries.len(),
{
    if entries.len() == 0 {
        assert(entries.push(e)[0] == e);
        assert(entries.push(e).drop_first() =~= Seq::<(K, V)>::empty());
        assert(assoc_filter(entries.push(e).drop_first(), pred) =~= Seq::<(K, V)>::empty());
        assert(assoc_filter(entries, pred) =~= Seq::<(K, V)>::empty());
        if pred(e.0) {
            assert(assoc_filter(entries.push(e), pred) == seq![e] + assoc_filter(
                entries.push(e).drop_first(),
                pred,
            ));
            assert(seq![e] + Seq::<(K, V)>::empty() =~= assoc_filter(entries, pred).push(e));
        }
    } else {
        assert(entries.push(e)[0] == entries[0]);
        assert(entries.push(e).drop_first() =~= entries.drop_first().push(e));
        lemma_assoc_filter_push(entries.drop_first(), e, pred);
        if pred(entries[0].0) {
            if pred(e.0) {
                assert(seq![entries[0]] + assoc_filter(entries.drop_first(), pred).push(e)
                    =~= (seq![entries[0]] + assoc_filter(entries.drop_first(), pred)).push(e));
            }
        }
    }
}

/// Filtering keeps distinctness and restricts lookup to passing keys.
pub proof fn lemma_assoc_filter_lookup<K, V>(
    entries: Seq<(K, V)>,
    pred: spec_fn(K) -> bool,
    key: K,
)
    requires
        distinct_keys(entries),
    ensures
        assoc_lookup(assoc_filter(entries, pred), key) == if pred(key) {
            assoc_lookup(entries, key)
        } else {
            None::<V>
        },
        distinct_keys(assoc_filter(entries, pred)),
    decreases entries.len(),
{
    if entries.len() > 0 {
        let h = entries[0];
        let rest = entries.drop_first();
        lemma_assoc_filter_lookup(rest, pred, key);
        let rest_f = assoc_filter(rest, pred);
        if pred(h.0) {
            assert(assoc_filter(entries, pred) == seq![h] + rest_f);
            assert((seq![h] + rest_f)[0] == h);
            assert((seq![h] + rest_f).drop_first() =~= rest_f);
            // distinctness of [h] + rest_f: h's key passes and is distinct
            // from every key of rest, hence from every key of rest_f.
            assert forall|i: int, j: int|
                0 <= i < j < (seq![h] + rest_f).len() implies (#[trigger] (seq![h] + rest_f)[i]).0
                != (#[trigger] (seq![h] + rest_f)[j]).0 by {
                if i == 0 {
                    lemma_assoc_filter_member(rest, pred, j - 1);
                } else {
                    assert(rest_f[i - 1] == (seq![h] + rest_f)[i]);
                }
            }
        }
    }
}

/// Every filtered entry is an entry of the original list.
pub proof fn lemma_assoc_filter_member<K, V>(entries: Seq<(K, V)>, pred: spec_fn(K) -> bool, i: int)
    requires
        0 <= i < assoc_filter(entries, pred).len(),
    ensures
        exists|j: int|
            0 <= j < entries.len() && entries[j] == assoc_filter(entries, pred)[i] && pred(
                #[trigger] entries[j].0,
            ),
    decreases entries.len(),
{
    if entries.len() > 0 {
        let h = entries[0];
        let rest = entries.drop_first();
        let rest_f = assoc_filter(rest, pred);
        if pred(h.0) {
            assert((seq![h] + rest_f)[0] == h);
            if i > 0 {
                lemma_assoc_filter_member(rest, pred, i - 1);
                let j0 = choose|j: int|
                    0 <= j < rest.len() && rest[j] == rest_f[i - 1] && pred(#[trigger] rest[j].0);
                assert(entries[j0 + 1] == rest[j0]);
                assert((seq![h] + rest_f)[i] == rest_f[i - 1]);
            } else {
                assert(entries[0] == assoc_filter(entries, pred)[0]);
            }
        } else {
            lemma_assoc_filter_member(rest, pred, i);
            let j0 = choose|j: int|
                0 <= j < rest.len() && rest[j] == assoc_filter(entries, pred)[i] && pred(
                    #[trigger] rest[j].0,
                );
            assert(entries[j0 + 1] == rest[j0]);
        }
    }
}

} // verus!
