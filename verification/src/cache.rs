//! A capacity- and TTL-bounded key-value cache with deterministic
//! insertion-order eviction and lazy expiry: entries older than the TTL
//! are treated as absent on access, and when the capacity bound would be
//! exceeded the entry that has sat in the cache longest is evicted.
//! A miss is a normal outcome, not a failure.
use crate::strutil::str_eq;
use vstd::prelude::*;
use vstd::string::StringExecFns;

verus! {

struct CacheEntry<V> {
    key: String,
    value: V,
    inserted_at: u64,
}

/// A bounded cache from string keys to values.
pub struct Cache<V> {
    entries: Vec<CacheEntry<V>>,
    capacity: usize,
    ttl: u64,
}

impl<V> Cache<V> {
    /// The number of entries currently held, expired ones included.
    pub closed spec fn len(self) -> nat {
        self.entries@.len()
    }

    /// The configured maximum entry count.
    pub closed spec fn cap(self) -> nat {
        self.capacity as nat
    }

    /// The configured time-to-live.
    pub closed spec fn ttl_of(self) -> u64 {
        self.ttl
    }

    /// Is an entry stored under `k`?
    pub closed spec fn has(self, k: Seq<char>) -> bool {
        exists|i: int| 0 <= i < self.entries@.len() && self.entries@[i].key@ == k
    }

    spec fn idx(self, k: Seq<char>) -> int {
        choose|i: int| 0 <= i < self.entries@.len() && self.entries@[i].key@ == k
    }

    /// The value stored under `k`.
    pub closed spec fn value_at(self, k: Seq<char>) -> V {
        self.entries@[self.idx(k)].value
    }

    /// The insertion time of the entry stored under `k`.
    pub closed spec fn stamp_of(self, k: Seq<char>) -> u64 {
        self.entries@[self.idx(k)].inserted_at
    }

    /// The key of the entry that has been stored the longest, the one
    /// eviction removes first.
    pub closed spec fn oldest_key(self) -> Seq<char> {
        self.entries@[0].key@
    }

    /// An entry is fresh while less than the TTL has elapsed since it
    /// was inserted.
    pub open spec fn fresh(self, k: Seq<char>, now: u64) -> bool {
        self.has(k) && now < self.stamp_of(k) + self.ttl_of()
    }

    /// Keys are distinct and the capacity bound holds.
    pub closed spec fn wf(self) -> bool {
        &&& self.capacity >= 1
        &&& self.ttl >= 1
        &&& self.entries@.len() <= self.capacity
        &&& forall|i: int, j: int|
            0 <= i < j < self.entries@.len() ==> self.entries@[i].key@ != self.entries@[j].key@
    }

    /// `k` is mapped the same way in both caches.
    pub open spec fn same_entry(self, other: Cache<V>, k: Seq<char>) -> bool {
        &&& self.has(k) <==> other.has(k)
        &&& other.has(k) ==> self.value_at(k) == other.value_at(k) && self.stamp_of(k)
            == other.stamp_of(k)
    }

    /// A well-formed cache has a time-to-live of at least one tick, so
    /// an entry set at `now` is fresh at `now`.
    pub proof fn lemma_wf_ttl(self)
        requires
            self.wf(),
        ensures
            self.ttl_of() >= 1,
    {
    }

    proof fn lemma_at(self, k: Seq<char>, i: int)
        requires
            self.wf(),
            0 <= i < self.entries@.len(),
            self.entries@[i].key@ == k,
        ensures
            self.has(k),
            self.idx(k) == i,
            self.value_at(k) == self.entries@[i].value,
            self.stamp_of(k) == self.entries@[i].inserted_at,
    {
        assert(self.has(k));
        let j = self.idx(k);
        if j != i {
            if j < i {
                assert(self.entries@[j].key@ != self.entries@[i].key@);
            } else {
                assert(self.entries@[i].key@ != self.entries@[j].key@);
            }
        }
    }

    /// An empty cache bounded by `capacity` entries and `ttl` ticks.
    pub fn new(capacity: usize, ttl: u64) -> (r: Cache<V>)
        requires
            capacity >= 1,
            ttl >= 1,
        ensures
            r.wf(),
            r.len() == 0,
            r.cap() == capacity,
            r.ttl_of() == ttl,
            forall|k: Seq<char>| !r.has(k),
    {
        Cache { entries: Vec::new(), capacity, ttl }
    }

    fn find(&self, key: &str) -> (r: Option<usize>)
        requires
            self.wf(),
        ensures
            r matches Some(i) ==> i < self.entries@.len() && self.entries@[i as int].key@ == key@
                && self.has(key@),
            r is None ==> !self.has(key@),
    {
        let mut i: usize = 0;
        while i < self.entries.len()
            invariant
                i <= self.entries@.len(),
                forall|j: int| 0 <= j < i ==> self.entries@[j].key@ != key@,
            decreases self.entries@.len() - i,
        {
            if str_eq(self.entries[i].key.as_str(), key) {
                return Some(i);
            }
            i += 1;
        }
        None
    }

    /// Looks `key` up; a fresh entry is returned, an expired or missing
    /// one reads as `None`.
    pub fn get(&self, key: &str, now: u64) -> (r: Option<&V>)
        requires
            self.wf(),
        ensures
            r matches Some(v) ==> self.fresh(key@, now) && *v == self.value_at(key@),
            r is None ==> !self.fresh(key@, now),
    {
        match self.find(key) {
            None => None,
            Some(i) => {
                let e = &self.entries[i];
                proof {
                    self.lemma_at(key@, i as int);
                }
                if now < e.inserted_at || now - e.inserted_at < self.ttl {
                    Some(&e.value)
                } else {
                    None
                }
            },
        }
    }

    /// Stores `value` under `key` with insertion time `now`, replacing
    /// any previous entry for `key`; if the cache is full and `key` is
    /// new, the oldest entry is evicted first.
    pub fn set(&mut self, key: &str, value: V, now: u64)
        requires
            old(self).wf(),
        ensures
            final(self).wf(),
            final(self).cap() == old(self).cap(),
            final(self).ttl_of() == old(self).ttl_of(),
            final(self).has(key@),
            final(self).value_at(key@) == value,
            final(self).stamp_of(key@) == now,
            old(self).has(key@) ==> final(self).len() == old(self).len() && (forall|k: Seq<char>|
                k != key@ ==> final(self).same_entry(*old(self), k)),
            !old(self).has(key@) && old(self).len() < old(self).cap() ==> final(self).len() == old(
                self,
            ).len() + 1 && (forall|k: Seq<char>| k != key@ ==> final(self).same_entry(*old(self), k)),
            !old(self).has(key@) && old(self).len() == old(self).cap() ==> final(self).len() == old(
                self,
            ).cap() && !final(self).has(old(self).oldest_key()) && (forall|k: Seq<char>|
                k != key@ && k != old(self).oldest_key() ==> final(self).same_entry(*old(self), k)),
    {
        let ghost pre = *self;
        match self.find(key) {
            Some(i) => {
                proof {
                    pre.lemma_at(key@, i as int);
                }
                self.entries.remove(i);
                proof {
                    self.lemma_no_key_after_remove(pre, i as int, key@);
                }
                let ghost mid = *self;
                self.entries.push(
                    CacheEntry { key: String::from_str(key), value, inserted_at: now },
                );
                proof {
                    self.lemma_finish_set(mid, pre, key@, key@);
                }
            },
            None => {
                if self.entries.len() == self.capacity {
                    proof {
                        assert(pre.entries@.len() >= 1);
                        pre.lemma_at(pre.oldest_key(), 0);
                    }
                    self.entries.remove(0);
                    proof {
                        self.lemma_no_key_after_remove(pre, 0, pre.oldest_key());
                        assert(!self.has(pre.oldest_key()));
                    }
                }
                let ghost evicted = if pre.entries@.len() == pre.capacity {
                    pre.oldest_key()
                } else {
                    key@
                };
                let ghost mid = *self;
                self.entries.push(
                    CacheEntry { key: String::from_str(key), value, inserted_at: now },
                );
                proof {
                    self.lemma_finish_set(mid, pre, key@, evicted);
                    if !pre.has(key@) && pre.entries@.len() == pre.capacity {
                        assert(key@ != pre.oldest_key());
                        assert(self.same_entry(mid, pre.oldest_key()));
                    }
                }
            },
        }
    }

    proof fn lemma_finish_set(self, mid: Cache<V>, pre: Cache<V>, k: Seq<char>, ex: Seq<char>)
        requires
            mid.wf(),
            pre.wf(),
            !mid.has(k),
            mid.entries@.len() < mid.capacity,
            self.entries@.len() == mid.entries@.len() + 1,
            self.entries@ =~= mid.entries@.push(self.entries@.last()),
            self.entries@.last().key@ == k,
            self.capacity == mid.capacity,
            self.ttl == mid.ttl,
            forall|q: Seq<char>| q != k && q != ex ==> mid.same_entry(pre, q),
        ensures
            self.wf(),
            self.has(k),
            self.value_at(k) == self.entries@.last().value,
            self.stamp_of(k) == self.entries@.last().inserted_at,
            forall|q: Seq<char>| q != k ==> self.same_entry(mid, q),
            forall|q: Seq<char>| q != k && q != ex ==> self.same_entry(pre, q),
    {
        let n = self.entries@.len() - 1;
        self.lemma_wf_after_push(mid, k);
        self.lemma_at(k, n);
        assert forall|q: Seq<char>| q != k implies self.same_entry(mid, q) by {
            self.lemma_push_same(mid, k, q);
        }
        assert forall|q: Seq<char>| q != k && q != ex implies self.same_entry(pre, q) by {
            assert(self.same_entry(mid, q));
            assert(mid.same_entry(pre, q));
        }
    }

    proof fn lemma_no_key_after_remove(self, pre: Cache<V>, i: int, k: Seq<char>)
        requires
            pre.wf(),
            0 <= i < pre.entries@.len(),
            pre.entries@[i].key@ == k,
            self.entries@ == pre.entries@.remove(i),
            self.capacity == pre.capacity,
            self.ttl == pre.ttl,
        ensures
            self.wf(),
            !self.has(k),
            forall|q: Seq<char>| q != k ==> self.same_entry(pre, q),
    {
        assert forall|a: int, b: int|
            0 <= a < b < self.entries@.len() implies self.entries@[a].key@
            != self.entries@[b].key@ by {
            let a0 = if a < i {
                a
            } else {
                a + 1
            };
            let b0 = if b < i {
                b
            } else {
                b + 1
            };
            assert(self.entries@[a] == pre.entries@[a0]);
            assert(self.entries@[b] == pre.entries@[b0]);
        }
        assert forall|j: int| 0 <= j < self.entries@.len() implies self.entries@[j].key@ != k by {
            let j0 = if j < i {
                j
            } else {
                j + 1
            };
            assert(self.entries@[j] == pre.entries@[j0]);
            if j0 != i {
                if j0 < i {
                    assert(pre.entries@[j0].key@ != pre.entries@[i].key@);
                } else {
                    assert(pre.entries@[i].key@ != pre.entries@[j0].key@);
                }
            }
        }
        assert forall|q: Seq<char>| q != k implies self.same_entry(pre, q) by {
            if pre.has(q) {
                let j0 = pre.idx(q);
                pre.lemma_at(q, j0);
                assert(j0 != i);
                let j = if j0 < i {
                    j0
                } else {
                    j0 - 1
                };
                assert(self.entries@[j] == pre.entries@[j0]);
                self.lemma_at(q, j);
            } else {
                if self.has(q) {
                    let j = self.idx(q);
                    let j0 = if j < i {
                        j
                    } else {
                        j + 1
                    };
                    assert(self.entries@[j] == pre.entries@[j0]);
                    assert(pre.has(q));
                }
            }
        }
    }

    proof fn lemma_wf_after_push(self, mid: Cache<V>, k: Seq<char>)
        requires
            mid.wf(),
            !mid.has(k),
            mid.entries@.len() < mid.capacity,
            self.entries@.len() == mid.entries@.len() + 1,
            self.entries@ =~= mid.entries@.push(self.entries@.last()),
            self.entries@.last().key@ == k,
            self.capacity == mid.capacity,
            self.ttl == mid.ttl,
        ensures
            self.wf(),
    {
        let n = self.entries@.len() - 1;
        assert forall|a: int, b: int|
            0 <= a < b < self.entries@.len() implies self.entries@[a].key@
            != self.entries@[b].key@ by {
            if b < n {
                assert(self.entries@[a] == mid.entries@[a]);
                assert(self.entries@[b] == mid.entries@[b]);
            } else {
                assert(self.entries@[a] == mid.entries@[a]);
                if self.entries@[a].key@ == k {
                    assert(mid.has(k));
                }
            }
        }
    }

    proof fn lemma_push_same(self, mid: Cache<V>, k: Seq<char>, q: Seq<char>)
        requires
            mid.wf(),
            self.wf(),
            !mid.has(k),
            self.entries@ =~= mid.entries@.push(self.entries@.last()),
            self.entries@.last().key@ == k,
            q != k,
        ensures
            self.same_entry(mid, q),
    {
        let n = self.entries@.len() - 1;
        if mid.has(q) {
            let j = mid.idx(q);
            mid.lemma_at(q, j);
            assert(self.entries@[j] == mid.entries@[j]);
            self.lemma_at(q, j);
        } else {
            if self.has(q) {
                let j = self.idx(q);
                assert(0 <= j < self.entries@.len() && self.entries@[j].key@ == q);
                if j < n {
                    assert(self.entries@[j] == mid.entries@[j]);
                    assert(mid.has(q));
                }
            }
        }
    }
}

} // verus!
