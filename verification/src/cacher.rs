//! A memoizing lazy evaluator: `Cacher` owns a caller-supplied computation
//! and a cache of the results it has produced so far, keyed by the view of
//! the argument the computation was invoked with.

use vstd::prelude::*;

verus! {

/// A type usable as a cache key: it carries a mathematical view and an
/// executable equality test that decides equality of views.
pub trait CacheKey: View + Sized {
    /// Decides whether two keys have the same view.
    fn key_eq(&self, other: &Self) -> (r: bool)
        ensures
            r == (self@ == other@),
    ;
}

impl CacheKey for u32 {
    fn key_eq(&self, other: &Self) -> (r: bool) {
        *self == *other
    }
}

impl CacheKey for u64 {
    fn key_eq(&self, other: &Self) -> (r: bool) {
        *self == *other
    }
}

impl CacheKey for usize {
    fn key_eq(&self, other: &Self) -> (r: bool) {
        *self == *other
    }
}

impl CacheKey for i32 {
    fn key_eq(&self, other: &Self) -> (r: bool) {
        *self == *other
    }
}

impl CacheKey for i64 {
    fn key_eq(&self, other: &Self) -> (r: bool) {
        *self == *other
    }
}

impl CacheKey for bool {
    fn key_eq(&self, other: &Self) -> (r: bool) {
        *self == *other
    }
}

impl CacheKey for char {
    fn key_eq(&self, other: &Self) -> (r: bool) {
        *self == *other
    }
}

impl CacheKey for String {
    fn key_eq(&self, other: &Self) -> (r: bool) {
        *self == *other
    }
}

/// The views of a sequence of keys, in the same order.
pub open spec fn key_views<K: View>(keys: Seq<K>) -> Seq<K::V> {
    keys.map_values(|k: K| k@)
}

/// A memoizing lazy evaluator. It owns a computation from `K` to
/// `Result<V, E>` and remembers every successful result, keyed by the view
/// of the key it was computed for. The computation runs at most once per
/// distinct key view; failures propagate to the caller and are never
/// remembered.
#[verifier::reject_recursive_types(K)]
#[verifier::reject_recursive_types(V)]
#[verifier::reject_recursive_types(E)]
pub struct Cacher<K: CacheKey, V: Copy, E, F: Fn(&K) -> Result<V, E>> {
    computation: F,
    keys: Vec<K>,
    vals: Vec<V>,
    invocations: Ghost<Map<K::V, nat>>,
    errors: core::marker::PhantomData<E>,
}

impl<K: CacheKey, V: Copy, E, F: Fn(&K) -> Result<V, E>> Cacher<K, V, E, F> {
    /// The computation this evaluator was constructed with; it is never
    /// replaced over the evaluator's lifetime.
    pub closed spec fn computation(&self) -> F {
        self.computation
    }

    /// The mathematical content of the cache: a map from key views to the
    /// values stored for them.
    pub closed spec fn cache(&self) -> Map<K::V, V> {
        Map::new(
            |k: K::V| key_views(self.keys@).contains(k),
            |k: K::V| self.vals@[key_views(self.keys@).index_of(k)],
        )
    }

    /// How many times the computation has been invoked for the key view `k`.
    pub closed spec fn invocation_count(&self, k: K::V) -> nat {
        if self.invocations@.contains_key(k) {
            self.invocations@[k]
        } else {
            0
        }
    }

    /// The internal invariant: one stored value per stored key, and no two
    /// stored keys share a view.
    pub closed spec fn well_formed(&self) -> bool {
        &&& self.keys@.len() == self.vals@.len()
        &&& forall|i: int, j: int|
            0 <= i < j < self.keys@.len() ==> self.keys@[i]@ != self.keys@[j]@
    }

    /// How one query changes the evaluator. A query for a key already in the
    /// cache returns the stored value and changes nothing; a query for an
    /// absent key invokes the computation once, stores the result under the
    /// key exactly when the computation succeeds, and returns its result
    /// either way.
    pub open spec fn query_transition(pre: Self, post: Self, key: K, r: Result<V, E>) -> bool {
        &&& post.computation() == pre.computation()
        &&& if pre.cache().contains_key(key@) {
            &&& r == Ok::<V, E>(pre.cache()[key@])
            &&& post.cache() == pre.cache()
            &&& forall|k: K::V| post.invocation_count(k) == pre.invocation_count(k)
        } else {
            &&& call_ensures(pre.computation(), (&key,), r)
            &&& post.invocation_count(key@) == pre.invocation_count(key@) + 1
            &&& forall|k: K::V| k != key@ ==> post.invocation_count(k) == pre.invocation_count(k)
            &&& match r {
                Ok(v) => post.cache() == pre.cache().insert(key@, v),
                Err(_) => post.cache() == pre.cache(),
            }
        }
    }

    /// Creates an evaluator with an empty cache. The computation is not
    /// invoked here, for any key: construction is lazy.
    pub fn new(computation: F) -> (c: Self)
        ensures
            c.well_formed(),
            c.computation() == computation,
            c.cache() == Map::<K::V, V>::empty(),
            forall|k: K::V| c.invocation_count(k) == 0,
    {
        let c = Cacher {
            computation,
            keys: Vec::new(),
            vals: Vec::new(),
            invocations: Ghost(Map::empty()),
            errors: core::marker::PhantomData,
        };
        proof {
            assert(c.cache() =~= Map::<K::V, V>::empty());
        }
        c
    }

    /// The domain of the cache is exactly the set of stored key views.
    proof fn lemma_cache_domain(self)
        ensures
            forall|k: K::V| #[trigger]
                self.cache().contains_key(k) <==> key_views(self.keys@).contains(k),
    {
    }

    /// Storing one new binding extends the cache by exactly that binding.
    proof fn lemma_cache_after_store(pre: Self, post: Self, key: K, v: V)
        requires
            pre.well_formed(),
            forall|j: int| 0 <= j < pre.keys@.len() ==> pre.keys@[j]@ != key@,
            post.keys@ == pre.keys@.push(key),
            post.vals@ == pre.vals@.push(v),
        ensures
            post.well_formed(),
            post.cache() == pre.cache().insert(key@, v),
    {
        let pre_views = key_views(pre.keys@);
        let post_views = key_views(post.keys@);
        assert(post_views =~= pre_views.push(key@));
        pre.lemma_cache_domain();
        post.lemma_cache_domain();
        assert forall|k: K::V| #[trigger] post_views.contains(k)
            implies pre_views.contains(k) || k == key@ by {
            let j = choose|j: int| 0 <= j < post_views.len() && post_views[j] == k;
            if j < pre_views.len() {
                assert(pre_views[j] == k);
            }
        }
        assert forall|k: K::V| pre_views.contains(k) implies #[trigger] post_views.contains(
            k,
        ) by {
            let j = choose|j: int| 0 <= j < pre_views.len() && pre_views[j] == k;
            assert(post_views[j] == k);
        }
        assert(post_views.contains(key@)) by {
            assert(post_views[pre_views.len() as int] == key@);
        }
        assert forall|k: K::V| #[trigger] post_views.contains(k) implies post.cache()[k]
            == pre.cache().insert(key@, v)[k] by {
            let w = post_views.index_of(k);
            assert(post_views[w] == k);
            if k == key@ {
                assert(w == pre_views.len());
                assert(post.cache()[k] == post.vals@[w]);
            } else {
                assert(w < pre_views.len());
                assert(pre_views[w] == k);
                let w0 = pre_views.index_of(k);
                assert(pre_views[w0] == k);
                assert(w0 == w);
                assert(post.cache()[k] == post.vals@[w]);
                assert(pre.cache()[k] == pre.vals@[w0]);
            }
        }
        assert(post.cache() =~= pre.cache().insert(key@, v));
    }

    /// Finds the position of a stored key with the view of `key`, if any.
    fn find_index(&self, key: &K) -> (r: Option<usize>)
        requires
            self.well_formed(),
        ensures
            match r {
                Some(i) => {
                    &&& i < self.keys@.len()
                    &&& self.keys@[i as int]@ == key@
                    &&& self.cache().contains_key(key@)
                    &&& self.cache()[key@] == self.vals@[i as int]
                },
                None => {
                    &&& !self.cache().contains_key(key@)
                    &&& forall|j: int| 0 <= j < self.keys@.len() ==> self.keys@[j]@ != key@
                },
            },
    {
        let n: usize = self.keys.len();
        let mut i: usize = 0;
        while i < n
            invariant
                n == self.keys@.len(),
                i <= n,
                self.well_formed(),
                forall|j: int| 0 <= j < i ==> self.keys@[j]@ != key@,
            decreases n - i,
        {
            if self.keys[i].key_eq(key) {
                proof {
                    let views = key_views(self.keys@);
                    assert(views[i as int] == key@);
                    let w = views.index_of(key@);
                    assert(views[w] == key@);
                    assert(w == i as int);
                }
                return Some(i);
            }
            i += 1;
        }
        proof {
            let views = key_views(self.keys@);
            assert(forall|j: int| 0 <= j < views.len() ==> views[j] != key@);
        }
        None
    }

    /// Looks the key up; on a miss, invokes the computation once and, if it
    /// succeeds, stores its value under the key. The returned value is the
    /// stored one on a hit, the computation's result on a miss.
    pub fn value(&mut self, key: K) -> (r: Result<V, E>)
        requires
            old(self).well_formed(),
            !old(self).cache().contains_key(key@) ==> call_requires(
                old(self).computation(),
                (&key,),
            ),
        ensures
            final(self).well_formed(),
            Self::query_transition(*old(self), *final(self), key, r),
    {
        match self.find_index(&key) {
            Some(i) => Ok(self.vals[i]),
            None => {
                let ghost pre = *self;
                self.invocations = Ghost(
                    self.invocations@.insert(key@, self.invocation_count(key@) + 1),
                );
                let r = (self.computation)(&key);
                match r {
                    Ok(v) => {
                        self.keys.push(key);
                        self.vals.push(v);
                        proof {
                            Self::lemma_cache_after_store(pre, *self, key, v);
                        }
                        Ok(v)
                    },
                    Err(e) => Err(e),
                }
            },
        }
    }
}

} // verus!
