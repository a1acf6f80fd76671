//! Session-state persistence. `SessionState` is the per-authorization
//! record that survives the redirect boundary. `WasmStateStore` is the
//! store this crate supplies: a mapping from opaque session keys to
//! session state whose contracts state what the flow relies on —
//! per-key atomic get, set and delete with read-your-writes per key.
//! Any other backing medium must meet the same contracts.
use crate::strutil::str_eq;
use vstd::prelude::*;
use vstd::string::StringExecFns;

verus! {

/// Everything one authorization attempt must remember between
/// `authorize` and `callback`: the PKCE verifier, the key bound for
/// DPoP, the issuer with its token endpoint, the redirect URI, the
/// requested scope, the identifier the flow began with, and the
/// creation time. Keyed by the
/// opaque state token; consulted once and then deleted.
pub struct SessionState {
    pub state: String,
    pub identifier: String,
    pub issuer: String,
    pub token_endpoint: String,
    pub redirect_uri: String,
    pub pkce_verifier: String,
    pub dpop_kid: Option<String>,
    pub scope: String,
    pub created_at: u64,
}

impl Clone for SessionState {
    fn clone(&self) -> (r: Self)
        ensures
            r == *self,
    {
        SessionState {
            state: self.state.clone(),
            identifier: self.identifier.clone(),
            issuer: self.issuer.clone(),
            token_endpoint: self.token_endpoint.clone(),
            redirect_uri: self.redirect_uri.clone(),
            pkce_verifier: self.pkce_verifier.clone(),
            dpop_kid: match &self.dpop_kid {
                Some(s) => Some(s.clone()),
                None => None,
            },
            scope: self.scope.clone(),
            created_at: self.created_at,
        }
    }
}

/// How a state store can fail: an error of the backing medium, or a
/// capability the medium does not implement.
#[derive(Debug)]
pub enum WasmStateStoreError {
    Js(Option<String>),
    Unsupported,
}

struct StoredSession {
    key: String,
    value: SessionState,
}

/// The memory-backed session store this crate supplies; its
/// operations never fail, except that `clear` is not supported, as for
/// a host-provided store that cannot enumerate its keys.
pub struct WasmStateStore {
    entries: Vec<StoredSession>,
}

impl WasmStateStore {
    /// Is a session stored under `k`?
    pub closed spec fn spec_has(self, k: Seq<char>) -> bool {
        exists|i: int| 0 <= i < self.entries@.len() && self.entries@[i].key@ == k
    }

    spec fn idx(self, k: Seq<char>) -> int {
        choose|i: int| 0 <= i < self.entries@.len() && self.entries@[i].key@ == k
    }

    /// The session stored under `k`.
    pub closed spec fn spec_val(self, k: Seq<char>) -> SessionState {
        self.entries@[self.idx(k)].value
    }

    /// Keys are distinct.
    pub closed spec fn wf(self) -> bool {
        forall|i: int, j: int|
            0 <= i < j < self.entries@.len() ==> self.entries@[i].key@ != self.entries@[j].key@
    }

    proof fn lemma_at(self, k: Seq<char>, i: int)
        requires
            self.wf(),
            0 <= i < self.entries@.len(),
            self.entries@[i].key@ == k,
        ensures
            self.spec_has(k),
            self.idx(k) == i,
            self.spec_val(k) == self.entries@[i].value,
    {
        assert(self.spec_has(k));
        let j = self.idx(k);
        if j != i {
            if j < i {
                assert(self.entries@[j].key@ != self.entries@[i].key@);
            } else {
                assert(self.entries@[i].key@ != self.entries@[j].key@);
            }
        }
    }

    /// An empty store.
    pub fn new() -> (r: WasmStateStore)
        ensures
            r.wf(),
            forall|k: Seq<char>| !r.spec_has(k),
    {
        WasmStateStore { entries: Vec::new() }
    }

    fn find(&self, key: &str) -> (r: Option<usize>)
        requires
            self.wf(),
        ensures
            r matches Some(i) ==> i < self.entries@.len() && self.entries@[i as int].key@ == key@
                && self.spec_has(key@) && self.idx(key@) == i,
            r is None ==> !self.spec_has(key@),
    {
        let mut i: usize = 0;
        while i < self.entries.len()
            invariant
                self.wf(),
                i <= self.entries@.len(),
                forall|j: int| 0 <= j < i ==> self.entries@[j].key@ != key@,
            decreases self.entries@.len() - i,
        {
            if str_eq(self.entries[i].key.as_str(), key) {
                proof {
                    self.lemma_at(key@, i as int);
                }
                return Some(i);
            }
            i += 1;
        }
        None
    }

    /// Reads the session under `key`, if one is stored.
    pub fn get(&self, key: &str) -> (r: Option<SessionState>)
        requires
            self.wf(),
        ensures
            r matches Some(v) ==> self.spec_has(key@) && v == self.spec_val(key@),
            r is None <==> !self.spec_has(key@),
    {
        match self.find(key) {
            Some(i) => Some(self.entries[i].value.clone()),
            None => None,
        }
    }

    /// Stores `value` under `key`, replacing any previous session.
    pub fn set(&mut self, key: &str, value: SessionState)
        requires
            old(self).wf(),
        ensures
            final(self).wf(),
            final(self).spec_has(key@),
            final(self).spec_val(key@) == value,
            forall|q: Seq<char>|
                q != key@ ==> (final(self).spec_has(q) <==> old(self).spec_has(q)) && (old(
                    self,
                ).spec_has(q) ==> final(self).spec_val(q) == old(self).spec_val(q)),
    {
        let ghost pre = *self;
        match self.find(key) {
            Some(i) => {
                self.entries.remove(i);
                proof {
                    self.lemma_after_remove(pre, i as int, key@);
                }
            },
            None => {},
        }
        let ghost mid = *self;
        self.entries.push(StoredSession { key: String::from_str(key), value });
        proof {
            self.lemma_after_push(mid, key@);
            assert forall|q: Seq<char>|
                q != key@ implies (self.spec_has(q) <==> pre.spec_has(q)) && (pre.spec_has(q)
                ==> self.spec_val(q) == pre.spec_val(q)) by {}
        }
    }

    /// Deletes any session under `key`.
    pub fn del(&mut self, key: &str)
        requires
            old(self).wf(),
        ensures
            final(self).wf(),
            !final(self).spec_has(key@),
            forall|q: Seq<char>|
                q != key@ ==> (final(self).spec_has(q) <==> old(self).spec_has(q)) && (old(
                    self,
                ).spec_has(q) ==> final(self).spec_val(q) == old(self).spec_val(q)),
    {
        let ghost pre = *self;
        match self.find(key) {
            Some(i) => {
                self.entries.remove(i);
                proof {
                    self.lemma_after_remove(pre, i as int, key@);
                }
            },
            None => {},
        }
    }

    /// Clearing is not supported by this store, as for a host-provided
    /// medium that cannot enumerate its keys; every other operation
    /// succeeds.
    pub fn clear(&mut self) -> (r: Result<(), WasmStateStoreError>)
        ensures
            *final(self) == *old(self),
            r matches Err(e) ==> e is Unsupported,
    {
        Err(WasmStateStoreError::Unsupported)
    }

    proof fn lemma_after_remove(self, pre: WasmStateStore, i: int, k: Seq<char>)
        requires
            pre.wf(),
            0 <= i < pre.entries@.len(),
            pre.entries@[i].key@ == k,
            self.entries@ == pre.entries@.remove(i),
        ensures
            self.wf(),
            !self.spec_has(k),
            forall|q: Seq<char>|
                q != k ==> (self.spec_has(q) <==> pre.spec_has(q)) && (pre.spec_has(q)
                    ==> self.spec_val(q) == pre.spec_val(q)),
    {
        assert forall|a: int, b: int|
            0 <= a < b < self.entries@.len() implies self.entries@[a].key@
            != self.entries@[b].key@ by {
            let a0 = if a < i {
                a
            } else {
                a + 1
            };
            let b0 = if b < i {
                b
            } else {
                b + 1
            };
            assert(self.entries@[a] == pre.entries@[a0]);
            assert(self.entries@[b] == pre.entries@[b0]);
        }
        assert forall|j: int| 0 <= j < self.entries@.len() implies self.entries@[j].key@ != k by {
            let j0 = if j < i {
                j
            } else {
                j + 1
            };
            assert(self.entries@[j] == pre.entries@[j0]);
            if j0 != i {
                if j0 < i {
                    assert(pre.entries@[j0].key@ != pre.entries@[i].key@);
                } else {
                    assert(pre.entries@[i].key@ != pre.entries@[j0].key@);
                }
            }
        }
        assert forall|q: Seq<char>|
            q != k implies (self.spec_has(q) <==> pre.spec_has(q)) && (pre.spec_has(q)
            ==> self.spec_val(q) == pre.spec_val(q)) by {
            if pre.spec_has(q) {
                let j0 = pre.idx(q);
                pre.lemma_at(q, j0);
                assert(j0 != i);
                let j = if j0 < i {
                    j0
                } else {
                    j0 - 1
                };
                assert(self.entries@[j] == pre.entries@[j0]);
                self.lemma_at(q, j);
            } else if self.spec_has(q) {
                let j = self.idx(q);
                let j0 = if j < i {
                    j
                } else {
                    j + 1
                };
                assert(self.entries@[j] == pre.entries@[j0]);
                assert(pre.spec_has(q));
            }
        }
    }

    proof fn lemma_after_push(self, mid: WasmStateStore, k: Seq<char>)
        requires
            mid.wf(),
            !mid.spec_has(k),
            self.entries@ =~= mid.entries@.push(self.entries@.last()),
            self.entries@.last().key@ == k,
        ensures
            self.wf(),
            self.spec_has(k),
            self.spec_val(k) == self.entries@.last().value,
            forall|q: Seq<char>|
                q != k ==> (self.spec_has(q) <==> mid.spec_has(q)) && (mid.spec_has(q)
                    ==> self.spec_val(q) == mid.spec_val(q)),
    {
        let n = self.entries@.len() - 1;
        assert forall|a: int, b: int|
            0 <= a < b < self.entries@.len() implies self.entries@[a].key@
            != self.entries@[b].key@ by {
            assert(self.entries@[a] == mid.entries@[a]);
            if b < n {
                assert(self.entries@[b] == mid.entries@[b]);
            } else {
                if self.entries@[a].key@ == k {
                    mid.lemma_at(k, a);
                }
            }
        }
        self.lemma_at(k, n);
        assert forall|q: Seq<char>|
            q != k implies (self.spec_has(q) <==> mid.spec_has(q)) && (mid.spec_has(q)
            ==> self.spec_val(q) == mid.spec_val(q)) by {
            if mid.spec_has(q) {
                let j = mid.idx(q);
                mid.lemma_at(q, j);
                assert(self.entries@[j] == mid.entries@[j]);
                self.lemma_at(q, j);
            } else if self.spec_has(q) {
                let j = self.idx(q);
                if j < n {
                    assert(self.entries@[j] == mid.entries@[j]);
                    assert(mid.spec_has(q));
                }
            }
        }
    }
}

} // verus!
