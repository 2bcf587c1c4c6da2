//! The laws of the memoizing evaluator, stated over `query_transition`, the
//! relation that `Cacher::value` establishes between the evaluator before and
//! after one query. A *query trace* strings any number of such steps
//! together; the laws about repeated queries are proved by induction over
//! such traces.

use vstd::prelude::*;

use crate::cacher::CacheKey;
use crate::cacher::Cacher;

verus! {

/// A freshly constructed evaluator: nothing cached, nothing ever invoked.
/// `Cacher::new` ensures exactly this.
pub open spec fn fresh<K: CacheKey, V: Copy, E, F: Fn(&K) -> Result<V, E>>(
    c: Cacher<K, V, E, F>,
) -> bool {
    &&& c.cache() == Map::<K::V, V>::empty()
    &&& forall|k: K::V| c.invocation_count(k) == 0
}

/// The states seen across a sequence of queries: `states[0]` is the starting
/// evaluator, and querying `keys[i]` turned `states[i]` into `states[i + 1]`
/// and returned `results[i]`.
pub open spec fn query_trace<K: CacheKey, V: Copy, E, F: Fn(&K) -> Result<V, E>>(
    states: Seq<Cacher<K, V, E, F>>,
    keys: Seq<K>,
    results: Seq<Result<V, E>>,
) -> bool {
    &&& states.len() == keys.len() + 1
    &&& results.len() == keys.len()
    &&& forall|i: int|
        0 <= i < keys.len() ==> #[trigger] Cacher::query_transition(
            states[i],
            states[i + 1],
            keys[i],
            results[i],
        )
}

/// A query for a key whose value is already cached performs no invocation at
/// all: it returns the stored value, and both the cache and every invocation
/// count are left as they were.
pub proof fn lemma_hit_invokes_nothing<K: CacheKey, V: Copy, E, F: Fn(&K) -> Result<V, E>>(
    pre: Cacher<K, V, E, F>,
    post: Cacher<K, V, E, F>,
    key: K,
    r: Result<V, E>,
)
    requires
        Cacher::query_transition(pre, post, key, r),
        pre.cache().contains_key(key@),
    ensures
        r == Ok::<V, E>(pre.cache()[key@]),
        post.cache() == pre.cache(),
        forall|k: K::V| post.invocation_count(k) == pre.invocation_count(k),
{
}

/// Key independence: one query touches no other key. Whatever the query for
/// `key` did, the cached entry and the invocation count of every key view
/// other than `key@` are unchanged.
pub proof fn lemma_key_independence<K: CacheKey, V: Copy, E, F: Fn(&K) -> Result<V, E>>(
    pre: Cacher<K, V, E, F>,
    post: Cacher<K, V, E, F>,
    key: K,
    r: Result<V, E>,
    k: K::V,
)
    requires
        Cacher::query_transition(pre, post, key, r),
        k != key@,
    ensures
        post.invocation_count(k) == pre.invocation_count(k),
        post.cache().contains_key(k) == pre.cache().contains_key(k),
        pre.cache().contains_key(k) ==> post.cache()[k] == pre.cache()[k],
{
}

/// Failure is not memoized: a computation that fails leaves the key absent
/// from the cache, so a later query for the same key view invokes the
/// computation again instead of being served a poisoned entry.
pub proof fn lemma_failure_not_memoized<K: CacheKey, V: Copy, E, F: Fn(&K) -> Result<V, E>>(
    s0: Cacher<K, V, E, F>,
    s1: Cacher<K, V, E, F>,
    s2: Cacher<K, V, E, F>,
    key1: K,
    key2: K,
    e: E,
    r2: Result<V, E>,
)
    requires
        Cacher::query_transition(s0, s1, key1, Err(e)),
        !s0.cache().contains_key(key1@),
        Cacher::query_transition(s1, s2, key2, r2),
        key2@ == key1@,
    ensures
        !s1.cache().contains_key(key1@),
        s1.invocation_count(key1@) == s0.invocation_count(key1@) + 1,
        s2.invocation_count(key1@) == s0.invocation_count(key1@) + 2,
        call_ensures(s1.computation(), (&key2,), r2),
{
}

/// A cached entry persists: once a state of a trace has a value for the key
/// view `k`, every later state of the trace has the same value for it.
pub proof fn lemma_cache_entry_persists<K: CacheKey, V: Copy, E, F: Fn(&K) -> Result<V, E>>(
    states: Seq<Cacher<K, V, E, F>>,
    keys: Seq<K>,
    results: Seq<Result<V, E>>,
    i: int,
    j: int,
    k: K::V,
)
    requires
        query_trace(states, keys, results),
        0 <= i <= j < states.len(),
        states[i].cache().contains_key(k),
    ensures
        states[j].cache().contains_key(k),
        states[j].cache()[k] == states[i].cache()[k],
    decreases j - i,
{
    if i < j {
        lemma_cache_entry_persists(states, keys, results, i, j - 1, k);
        let m: int = j - 1;
        assert(Cacher::query_transition(states[m], states[m + 1], keys[m], results[m]));
        if !states[m].cache().contains_key(keys[m]@) {
            assert(k != keys[m]@);
        }
    }
}

/// Value stability: every query for a key view after the first successful one
/// returns exactly the value that the first successful query returned.
pub proof fn lemma_value_stability<K: CacheKey, V: Copy, E, F: Fn(&K) -> Result<V, E>>(
    states: Seq<Cacher<K, V, E, F>>,
    keys: Seq<K>,
    results: Seq<Result<V, E>>,
    i: int,
    j: int,
    v: V,
)
    requires
        query_trace(states, keys, results),
        0 <= i < j < keys.len(),
        keys[j]@ == keys[i]@,
        results[i] == Ok::<V, E>(v),
    ensures
        results[j] == Ok::<V, E>(v),
{
    let k = keys[i]@;
    assert(Cacher::query_transition(states[i], states[i + 1], keys[i], results[i]));
    assert(states[i + 1].cache().contains_key(k) && states[i + 1].cache()[k] == v);
    lemma_cache_entry_persists(states, keys, results, i + 1, j, k);
    assert(Cacher::query_transition(states[j], states[j + 1], keys[j], results[j]));
}

/// The prefix invariant behind the at-most-once law: starting from a state
/// with no entry and no invocation for the key view `k`, and with every query
/// for `k` succeeding, after any prefix of the trace the computation has run
/// for `k` exactly once if `k` was queried in that prefix, and never
/// otherwise.
pub proof fn lemma_at_most_once_prefix<K: CacheKey, V: Copy, E, F: Fn(&K) -> Result<V, E>>(
    states: Seq<Cacher<K, V, E, F>>,
    keys: Seq<K>,
    results: Seq<Result<V, E>>,
    k: K::V,
    n: int,
)
    requires
        query_trace(states, keys, results),
        !states[0].cache().contains_key(k),
        states[0].invocation_count(k) == 0,
        forall|i: int| 0 <= i < n && keys[i]@ == k ==> results[i] is Ok,
        0 <= n < states.len(),
    ensures
        (exists|i: int| 0 <= i < n && keys[i]@ == k) ==> states[n].invocation_count(k) == 1
            && states[n].cache().contains_key(k),
        !(exists|i: int| 0 <= i < n && keys[i]@ == k) ==> states[n].invocation_count(k) == 0
            && !states[n].cache().contains_key(k),
    decreases n,
{
    if n > 0 {
        lemma_at_most_once_prefix(states, keys, results, k, n - 1);
        let m: int = n - 1;
        assert(Cacher::query_transition(states[m], states[m + 1], keys[m], results[m]));
        if keys[n - 1]@ == k {
            assert(exists|i: int| 0 <= i < n && keys[i]@ == k) by {
                assert(0 <= n - 1 < n && keys[n - 1]@ == k);
            }
            if !(exists|i: int| 0 <= i < n - 1 && keys[i]@ == k) {
                assert(results[n - 1] is Ok);
            }
        } else {
            assert((exists|i: int| 0 <= i < n && keys[i]@ == k) <==> (exists|i: int|
                0 <= i < n - 1 && keys[i]@ == k)) by {
                if exists|i: int| 0 <= i < n && keys[i]@ == k {
                    let i = choose|i: int| 0 <= i < n && keys[i]@ == k;
                    assert(0 <= i < n - 1 && keys[i]@ == k);
                }
            }
        }
    }
}

/// Once a key is cached, the computation never runs for it again: from any
/// state of a trace whose cache holds the key view `k`, the invocation count
/// of `k` stays put for the rest of the trace.
pub proof fn lemma_count_stable_while_cached<K: CacheKey, V: Copy, E, F: Fn(&K) -> Result<V, E>>(
    states: Seq<Cacher<K, V, E, F>>,
    keys: Seq<K>,
    results: Seq<Result<V, E>>,
    i: int,
    j: int,
    k: K::V,
)
    requires
        query_trace(states, keys, results),
        0 <= i <= j < states.len(),
        states[i].cache().contains_key(k),
    ensures
        states[j].invocation_count(k) == states[i].invocation_count(k),
    decreases j - i,
{
    if i < j {
        lemma_count_stable_while_cached(states, keys, results, i, j - 1, k);
        lemma_cache_entry_persists(states, keys, results, i, j - 1, k);
        let m: int = j - 1;
        assert(Cacher::query_transition(states[m], states[m + 1], keys[m], results[m]));
        if !states[m].cache().contains_key(keys[m]@) {
            assert(k != keys[m]@);
        }
    }
}

/// At most once per key, in the form spec'd of a first success: when the
/// first query of a fresh evaluator for the key view `k` succeeds, the
/// computation is invoked for `k` exactly once over the whole trace, however
/// many queries for `k` follow.
pub proof fn lemma_at_most_once_first_success<K: CacheKey, V: Copy, E, F: Fn(&K) -> Result<V, E>>(
    states: Seq<Cacher<K, V, E, F>>,
    keys: Seq<K>,
    results: Seq<Result<V, E>>,
    k: K::V,
    first: int,
)
    requires
        query_trace(states, keys, results),
        fresh(states[0]),
        0 <= first < keys.len(),
        keys[first]@ == k,
        forall|j: int| 0 <= j < first ==> keys[j]@ != k,
        results[first] is Ok,
    ensures
        states.last().invocation_count(k) == 1,
{
    assert(!states[0].cache().contains_key(k)) by {
        assert(states[0].cache() == Map::<K::V, V>::empty());
    }
    lemma_at_most_once_prefix(states, keys, results, k, first);
    assert(!(exists|i: int| 0 <= i < first && keys[i]@ == k));
    assert(states[first].invocation_count(k) == 0);
    assert(Cacher::query_transition(
        states[first],
        states[first + 1],
        keys[first],
        results[first],
    ));
    assert(states[first + 1].invocation_count(k) == 1);
    assert(states[first + 1].cache().contains_key(k));
    lemma_count_stable_while_cached(
        states,
        keys,
        results,
        first + 1,
        states.len() - 1,
        k,
    );
    assert(states.last() == states[states.len() - 1]);
}

/// At most once per key: over any number of queries from a fresh evaluator,
/// provided every query for the key view `k` succeeds, the computation is
/// invoked exactly once for `k` if `k` is queried at all, and never if not.
pub proof fn lemma_at_most_once<K: CacheKey, V: Copy, E, F: Fn(&K) -> Result<V, E>>(
    states: Seq<Cacher<K, V, E, F>>,
    keys: Seq<K>,
    results: Seq<Result<V, E>>,
    k: K::V,
)
    requires
        query_trace(states, keys, results),
        fresh(states[0]),
        forall|i: int| 0 <= i < keys.len() && keys[i]@ == k ==> results[i] is Ok,
    ensures
        states.last().invocation_count(k) == if (exists|i: int|
            0 <= i < keys.len() && keys[i]@ == k) {
            1nat
        } else {
            0nat
        },
{
    assert(!states[0].cache().contains_key(k)) by {
        assert(states[0].cache() == Map::<K::V, V>::empty());
    }
    lemma_at_most_once_prefix(states, keys, results, k, keys.len() as int);
    assert(states.last() == states[keys.len() as int]);
}

} // verus!
