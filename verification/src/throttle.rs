//! Single-flight request coalescing. Concurrent lookups for the same
//! key share one in-flight upstream call: the first joiner becomes the
//! leader and performs the call, later joiners wait; once the leader
//! completes the flight, every joiner collects the same result. Flights
//! for different keys proceed independently.
use crate::strutil::str_eq;
use vstd::pervasive::cloned;
use vstd::prelude::*;
use vstd::string::StringExecFns;

verus! {

enum Phase<V> {
    Pending,
    Done(V),
}

struct Flight<V> {
    key: String,
    joiners: u64,
    phase: Phase<V>,
}

/// The per-key registry of in-flight upstream calls.
pub struct Throttle<V> {
    flights: Vec<Flight<V>>,
}

impl<V> Throttle<V> {
    /// Is a flight registered for `k`?
    pub closed spec fn in_flight(self, k: Seq<char>) -> bool {
        exists|i: int| 0 <= i < self.flights@.len() && self.flights@[i].key@ == k
    }

    spec fn idx(self, k: Seq<char>) -> int {
        choose|i: int| 0 <= i < self.flights@.len() && self.flights@[i].key@ == k
    }

    /// Has the flight for `k` completed?
    pub closed spec fn is_done(self, k: Seq<char>) -> bool {
        self.in_flight(k) && self.flights@[self.idx(k)].phase is Done
    }

    /// The result the completed flight for `k` carries; every joiner
    /// collects this one value.
    pub closed spec fn done_value(self, k: Seq<char>) -> V {
        self.flights@[self.idx(k)].phase->Done_0
    }

    /// How many joiners the flight for `k` still owes a result.
    pub closed spec fn joiners_of(self, k: Seq<char>) -> u64 {
        self.flights@[self.idx(k)].joiners
    }

    /// Flight keys are distinct.
    pub closed spec fn wf(self) -> bool {
        forall|i: int, j: int|
            0 <= i < j < self.flights@.len() ==> self.flights@[i].key@ != self.flights@[j].key@
    }

    /// The flight for `k`, if any, is the same in both registries.
    pub open spec fn same_flight(self, other: Throttle<V>, k: Seq<char>) -> bool {
        &&& self.in_flight(k) <==> other.in_flight(k)
        &&& other.in_flight(k) ==> (self.is_done(k) <==> other.is_done(k)) && self.joiners_of(k)
            == other.joiners_of(k)
        &&& other.is_done(k) ==> self.done_value(k) == other.done_value(k)
    }

    proof fn lemma_at(self, k: Seq<char>, i: int)
        requires
            self.wf(),
            0 <= i < self.flights@.len(),
            self.flights@[i].key@ == k,
        ensures
            self.in_flight(k),
            self.idx(k) == i,
    {
        assert(self.in_flight(k));
        let j = self.idx(k);
        if j != i {
            if j < i {
                assert(self.flights@[j].key@ != self.flights@[i].key@);
            } else {
                assert(self.flights@[i].key@ != self.flights@[j].key@);
            }
        }
    }

    proof fn lemma_update_others(self, pre: Throttle<V>, i: int, k: Seq<char>)
        requires
            pre.wf(),
            0 <= i < pre.flights@.len(),
            pre.flights@[i].key@ == k,
            self.flights@ == pre.flights@.update(i, self.flights@[i]),
            self.flights@[i].key@ == k,
        ensures
            self.wf(),
            forall|q: Seq<char>| q != k ==> self.same_flight(pre, q),
    {
        assert forall|a: int, b: int|
            0 <= a < b < self.flights@.len() implies self.flights@[a].key@
            != self.flights@[b].key@ by {
            assert(pre.flights@[a].key@ == self.flights@[a].key@);
            assert(pre.flights@[b].key@ == self.flights@[b].key@);
        }
        assert forall|q: Seq<char>| q != k implies self.same_flight(pre, q) by {
            if pre.in_flight(q) {
                let j = pre.idx(q);
                pre.lemma_at(q, j);
                assert(j != i);
                assert(self.flights@[j] == pre.flights@[j]);
                self.lemma_at(q, j);
            } else if self.in_flight(q) {
                let j = self.idx(q);
                assert(self.flights@[j].key@ == pre.flights@[j].key@);
                assert(pre.in_flight(q));
            }
        }
    }

    /// An empty registry with no flight in progress.
    pub fn new() -> (r: Throttle<V>)
        ensures
            r.wf(),
            forall|k: Seq<char>| !r.in_flight(k),
    {
        Throttle { flights: Vec::new() }
    }

    fn find(&self, key: &str) -> (r: Option<usize>)
        requires
            self.wf(),
        ensures
            r matches Some(i) ==> i < self.flights@.len() && self.flights@[i as int].key@ == key@
                && self.in_flight(key@) && self.idx(key@) == i,
            r is None ==> !self.in_flight(key@),
    {
        let mut i: usize = 0;
        while i < self.flights.len()
            invariant
                self.wf(),
                i <= self.flights@.len(),
                forall|j: int| 0 <= j < i ==> self.flights@[j].key@ != key@,
            decreases self.flights@.len() - i,
        {
            if str_eq(self.flights[i].key.as_str(), key) {
                proof {
                    self.lemma_at(key@, i as int);
                }
                return Some(i);
            }
            i += 1;
        }
        None
    }

    /// Joins the flight for `key`, registering one if none is in
    /// progress. Returns true exactly when the caller became the leader
    /// and must perform the one upstream call; a second join for the
    /// same key while the flight lasts never leads.
    pub fn join(&mut self, key: &str) -> (leader: bool)
        requires
            old(self).wf(),
        ensures
            final(self).wf(),
            leader <==> !old(self).in_flight(key@),
            final(self).in_flight(key@),
            leader ==> !final(self).is_done(key@) && final(self).joiners_of(key@) == 1,
            !leader ==> (final(self).is_done(key@) <==> old(self).is_done(key@)) && (old(
                self,
            ).is_done(key@) ==> final(self).done_value(key@) == old(self).done_value(key@)),
            forall|q: Seq<char>| q != key@ ==> final(self).same_flight(*old(self), q),
    {
        let ghost pre = *self;
        match self.find(key) {
            Some(i) => {
                let j = self.flights[i].joiners;
                if j < u64::MAX {
                    self.flights[i].joiners = j + 1;
                }
                proof {
                    assert(self.flights@ =~= pre.flights@.update(
                        i as int,
                        self.flights@[i as int],
                    ));
                    self.lemma_update_others(pre, i as int, key@);
                    self.lemma_at(key@, i as int);
                }
                false
            },
            None => {
                let ghost n = self.flights@.len() as int;
                self.flights.push(
                    Flight { key: String::from_str(key), joiners: 1, phase: Phase::Pending },
                );
                proof {
                    assert forall|a: int, b: int|
                        0 <= a < b < self.flights@.len() implies self.flights@[a].key@
                        != self.flights@[b].key@ by {
                        if b < n {
                            assert(self.flights@[a] == pre.flights@[a]);
                            assert(self.flights@[b] == pre.flights@[b]);
                        } else {
                            assert(self.flights@[a] == pre.flights@[a]);
                            if self.flights@[a].key@ == key@ {
                                pre.lemma_at(key@, a);
                            }
                        }
                    }
                    self.lemma_at(key@, n);
                    assert forall|q: Seq<char>| q != key@ implies self.same_flight(pre, q) by {
                        if pre.in_flight(q) {
                            let j = pre.idx(q);
                            pre.lemma_at(q, j);
                            assert(self.flights@[j] == pre.flights@[j]);
                            self.lemma_at(q, j);
                        } else if self.in_flight(q) {
                            let j = self.idx(q);
                            if j < n {
                                assert(self.flights@[j] == pre.flights@[j]);
                                assert(pre.in_flight(q));
                            }
                        }
                    }
                }
                true
            },
        }
    }

    /// The leader hands in the upstream result; the flight for `key`
    /// moves to its completed phase and keeps its joiners.
    pub fn complete(&mut self, key: &str, value: V)
        requires
            old(self).wf(),
            old(self).in_flight(key@),
            !old(self).is_done(key@),
        ensures
            final(self).wf(),
            final(self).in_flight(key@),
            final(self).is_done(key@),
            final(self).done_value(key@) == value,
            final(self).joiners_of(key@) == old(self).joiners_of(key@),
            forall|q: Seq<char>| q != key@ ==> final(self).same_flight(*old(self), q),
    {
        let ghost pre = *self;
        match self.find(key) {
            Some(i) => {
                self.flights[i].phase = Phase::Done(value);
                proof {
                    self.lemma_update_others(pre, i as int, key@);
                    self.lemma_at(key@, i as int);
                }
            },
            None => {
                proof {
                    assert(false);
                }
            },
        }
    }

    /// The flight for `key` survives a collect exactly while joiners
    /// besides this one are still owed the result.
    pub open spec fn collect_keeps(self, k: Seq<char>) -> bool {
        self.is_done(k) && self.joiners_of(k) > 1
    }
}

impl<V: Clone> Throttle<V> {
    /// A joiner picks up the shared result once the flight is done; the
    /// flight is dropped when its last joiner has collected. Every
    /// joiner receives a clone of the one completed value.
    pub fn collect(&mut self, key: &str) -> (r: Option<V>)
        requires
            old(self).wf(),
        ensures
            final(self).wf(),
            r is Some <==> old(self).is_done(key@),
            r matches Some(v) ==> cloned::<V>(old(self).done_value(key@), v),
            old(self).collect_keeps(key@) ==> final(self).is_done(key@) && final(self).done_value(
                key@,
            ) == old(self).done_value(key@) && final(self).joiners_of(key@) == old(self).joiners_of(
                key@,
            ) - 1,
            old(self).is_done(key@) && !old(self).collect_keeps(key@) ==> !final(self).in_flight(
                key@,
            ),
            !old(self).is_done(key@) ==> *final(self) == *old(self),
            forall|q: Seq<char>| q != key@ ==> final(self).same_flight(*old(self), q),
    {
        let ghost pre = *self;
        match self.find(key) {
            Some(i) => {
                let done = match &self.flights[i].phase {
                    Phase::Done(_) => true,
                    Phase::Pending => false,
                };
                if !done {
                    return None;
                }
                let v = match &self.flights[i].phase {
                    Phase::Done(v) => v.clone(),
                    Phase::Pending => {
                        proof {
                            assert(false);
                        }
                        return None;
                    },
                };
                let j = self.flights[i].joiners;
                if j <= 1 {
                    self.flights.remove(i);
                    proof {
                        self.lemma_remove(pre, i as int, key@);
                    }
                } else {
                    self.flights[i].joiners = j - 1;
                    proof {
                        self.lemma_update_others(pre, i as int, key@);
                        self.lemma_at(key@, i as int);
                    }
                }
                Some(v)
            },
            None => None,
        }
    }

    proof fn lemma_remove(self, pre: Throttle<V>, i: int, k: Seq<char>)
        requires
            pre.wf(),
            0 <= i < pre.flights@.len(),
            pre.flights@[i].key@ == k,
            self.flights@ == pre.flights@.remove(i),
        ensures
            self.wf(),
            !self.in_flight(k),
            forall|q: Seq<char>| q != k ==> self.same_flight(pre, q),
    {
        assert forall|a: int, b: int|
            0 <= a < b < self.flights@.len() implies self.flights@[a].key@
            != self.flights@[b].key@ by {
            let a0 = if a < i {
                a
            } else {
                a + 1
            };
            let b0 = if b < i {
                b
            } else {
                b + 1
            };
            assert(self.flights@[a] == pre.flights@[a0]);
            assert(self.flights@[b] == pre.flights@[b0]);
        }
        assert forall|j: int| 0 <= j < self.flights@.len() implies self.flights@[j].key@ != k by {
            let j0 = if j < i {
                j
            } else {
                j + 1
            };
            assert(self.flights@[j] == pre.flights@[j0]);
            if j0 != i {
                if j0 < i {
                    assert(pre.flights@[j0].key@ != pre.flights@[i].key@);
                } else {
                    assert(pre.flights@[i].key@ != pre.flights@[j0].key@);
                }
            }
        }
        assert forall|q: Seq<char>| q != k implies self.same_flight(pre, q) by {
            if pre.in_flight(q) {
                let j0 = pre.idx(q);
                pre.lemma_at(q, j0);
                assert(j0 != i);
                let j = if j0 < i {
                    j0
                } else {
                    j0 - 1
                };
                assert(self.flights@[j] == pre.flights@[j0]);
                self.lemma_at(q, j);
            } else if self.in_flight(q) {
                let j = self.idx(q);
                let j0 = if j < i {
                    j
                } else {
                    j + 1
                };
                assert(self.flights@[j] == pre.flights@[j0]);
                assert(pre.in_flight(q));
            }
        }
    }
}

} // verus!
