//! The two-level key/value store behind the player-code and deciphered
//! signature caches. Writes are store-once: a key, once bound, keeps its
//! first value.
use vstd::prelude::*;

use crate::chars::str_eq;

verus! {

/// A cache key: a value with a mathematical model and a decidable equality
/// that agrees with it.
pub trait CacheKey: View + Sized {
    fn key_eq(&self, other: &Self) -> (r: bool)
        ensures
            r == (self@ == other@),
    ;
}

impl CacheKey for String {
    fn key_eq(&self, other: &Self) -> (r: bool)
        ensures
            r == (self@ == other@),
    {
        str_eq(self.as_str(), other.as_str())
    }
}

impl CacheKey for (String, String) {
    fn key_eq(&self, other: &Self) -> (r: bool)
        ensures
            r == (self@ == other@),
    {
        str_eq(self.0.as_str(), other.0.as_str()) && str_eq(self.1.as_str(), other.1.as_str())
    }
}

/// What one `add` does to the model: binds the key only when it is new.
pub open spec fn spec_cache_add<M>(m: Map<M, Seq<char>>, k: M, v: Seq<char>) -> Map<M, Seq<char>> {
    if m.contains_key(k) {
        m
    } else {
        m.insert(k, v)
    }
}

/// An in-process map from keys to cached text, with store-once writes.
pub struct CacheStore<K> {
    entries: Vec<(K, String)>,
}

impl<K: CacheKey> View for CacheStore<K> {
    type V = Map<K::V, Seq<char>>;

    closed spec fn view(&self) -> Map<K::V, Seq<char>> {
        Self::map_of(self.entries@)
    }
}

impl<K: CacheKey> CacheStore<K> {
    pub closed spec fn map_of(entries: Seq<(K, String)>) -> Map<K::V, Seq<char>>
        decreases entries.len(),
    {
        if entries.len() == 0 {
            Map::empty()
        } else {
            Self::map_of(entries.drop_last()).insert(entries.last().0@, entries.last().1@)
        }
    }

    /// Keys are pairwise distinct in the model.
    pub closed spec fn wf(&self) -> bool {
        forall|i: int, j: int|
            0 <= i < j < self.entries@.len() ==> (#[trigger] self.entries@[i]).0@ != (
            #[trigger] self.entries@[j]).0@
    }

    proof fn lemma_map_of_contains(entries: Seq<(K, String)>, k: K::V)
        ensures
            Self::map_of(entries).contains_key(k) <==> exists|i: int|
                0 <= i < entries.len() && (#[trigger] entries[i]).0@ == k,
        decreases entries.len(),
    {
        if entries.len() > 0 {
            Self::lemma_map_of_contains(entries.drop_last(), k);
            if Self::map_of(entries).contains_key(k) {
                if entries.last().0@ == k {
                    assert(entries[entries.len() - 1].0@ == k);
                } else {
                    let i = choose|i: int|
                        0 <= i < entries.drop_last().len() && (#[trigger] entries.drop_last()[
                            i]).0@ == k;
                    assert(entries[i].0@ == k);
                }
            }
            if exists|i: int| 0 <= i < entries.len() && (#[trigger] entries[i]).0@ == k {
                let i = choose|i: int| 0 <= i < entries.len() && (#[trigger] entries[i]).0@ == k;
                if i < entries.len() - 1 {
                    assert(entries.drop_last()[i].0@ == k);
                }
            }
        }
    }

    proof fn lemma_map_of_value(entries: Seq<(K, String)>, i: int)
        requires
            0 <= i < entries.len(),
            forall|a: int, b: int|
                0 <= a < b < entries.len() ==> (#[trigger] entries[a]).0@ != (
                #[trigger] entries[b]).0@,
        ensures
            Self::map_of(entries).contains_key(entries[i].0@),
            Self::map_of(entries)[entries[i].0@] == entries[i].1@,
        decreases entries.len(),
    {
        if i == entries.len() - 1 {
            Self::lemma_map_of_contains(entries, entries[i].0@);
        } else {
            Self::lemma_map_of_value(entries.drop_last(), i);
            assert(entries.drop_last()[i] == entries[i]);
            assert(entries.last().0@ != entries[i].0@);
        }
    }

    /// An empty cache.
    pub fn new() -> (r: Self)
        ensures
            r@ == Map::<K::V, Seq<char>>::empty(),
            r.wf(),
    {
        CacheStore { entries: Vec::new() }
    }

    fn find(&self, key: &K) -> (r: Option<usize>)
        ensures
            (r matches Some(i) ==> 0 <= i < self.entries@.len() && self.entries@[
                i as int].0@ == key@),
            r is None ==> forall|i: int|
                0 <= i < self.entries@.len() ==> (#[trigger] self.entries@[i]).0@ != key@,
    {
        let n = self.entries.len();
        let mut i: usize = 0;
        while i < n
            invariant
                0 <= i <= n,
                n == self.entries@.len(),
                forall|j: int| 0 <= j < i ==> (#[trigger] self.entries@[j]).0@ != key@,
            decreases n - i,
        {
            if self.entries[i].0.key_eq(key) {
                return Some(i);
            }
            i = i + 1;
        }
        None
    }

    /// Whether `key` is bound.
    pub fn contains(&self, key: &K) -> (r: bool)
        requires
            self.wf(),
        ensures
            r == self@.contains_key(key@),
    {
        proof {
            Self::lemma_map_of_contains(self.entries@, key@);
        }
        self.find(key).is_some()
    }

    /// The value bound to `key`, when there is one.
    pub fn get(&self, key: &K) -> (r: Option<String>)
        requires
            self.wf(),
        ensures
            (r matches Some(v) ==> self@.contains_key(key@) && v@ == self@[key@]),
            r is None <==> !self@.contains_key(key@),
    {
        proof {
            Self::lemma_map_of_contains(self.entries@, key@);
        }
        match self.find(key) {
            Some(i) => {
                proof {
                    Self::lemma_map_of_value(self.entries@, i as int);
                }
                Some(self.entries[i].1.clone())
            },
            None => None,
        }
    }

    /// Binds `key` to `value` unless `key` is already bound: the store
    /// keeps the first value written under each key.
    pub fn add(&mut self, key: K, value: String)
        requires
            old(self).wf(),
        ensures
            final(self)@ == spec_cache_add(old(self)@, key@, value@),
            final(self).wf(),
    {
        proof {
            Self::lemma_map_of_contains(self.entries@, key@);
        }
        match self.find(&key) {
            Some(_) => {
            },
            None => {
                let ghost old_entries = self.entries@;
                self.entries.push((key, value));
                proof {
                    assert(self.entries@.drop_last() =~= old_entries);
                    assert(forall|a: int, b: int|
                        0 <= a < b < self.entries@.len() ==> (#[trigger] self.entries@[a]).0@ != (
                        #[trigger] self.entries@[b]).0@);
                }
            },
        }
    }
}

/// Law: after `add(k, v)`, reading `k` yields the first value ever stored
/// under `k`; a second `add(k, w)` changes nothing.
pub proof fn lemma_cache_store_once<M>(m: Map<M, Seq<char>>, k: M, v: Seq<char>, w: Seq<char>)
    ensures
        spec_cache_add(m, k, v).contains_key(k),
        !m.contains_key(k) ==> spec_cache_add(m, k, v)[k] == v,
        m.contains_key(k) ==> spec_cache_add(m, k, v)[k] == m[k],
        spec_cache_add(spec_cache_add(m, k, v), k, w) == spec_cache_add(m, k, v),
{
}

} // verus!
