//! Validated identifiers: handles (domain-name-shaped aliases) and DIDs
//! (method-tagged decentralized identifiers). Both are immutable once
//! parsed; invalid syntax is rejected at construction.
use crate::errors::AuthError;
use crate::strutil::spec_starts_with;
use crate::strutil::str_eq;
use crate::strutil::str_starts_with;
use vstd::prelude::*;
use vstd::string::StrSliceExecFns;

verus! {

pub open spec fn is_lower_alnum(c: char) -> bool {
    ('a' <= c <= 'z') || ('0' <= c <= '9')
}

pub open spec fn is_handle_char(c: char) -> bool {
    is_lower_alnum(c) || c == '-' || c == '.'
}

/// A well-formed handle: lowercase ASCII letters, digits, hyphens and
/// dots; starts and ends with a letter or digit; contains at least one
/// dot; no dot adjacent to another dot or to a hyphen; at most 253
/// characters, as for a domain name.
pub open spec fn is_valid_handle(s: Seq<char>) -> bool {
    &&& 3 <= s.len() <= 253
    &&& forall|i: int| 0 <= i < s.len() ==> is_handle_char(#[trigger] s[i])
    &&& is_lower_alnum(s[0])
    &&& is_lower_alnum(s[s.len() - 1])
    &&& exists|i: int| 0 <= i < s.len() && s[i] == '.'
    &&& forall|i: int|
        0 <= i < s.len() - 1 ==> !((#[trigger] s[i]) == '.' && s[i + 1] == '.') && !(s[i] == '.'
            && s[i + 1] == '-') && !(s[i] == '-' && s[i + 1] == '.')
}

/// A human-readable identifier shaped like a domain name, validated at
/// construction.
pub struct Handle {
    s: String,
}

impl View for Handle {
    type V = Seq<char>;

    closed spec fn view(&self) -> Seq<char> {
        self.s@
    }
}

impl Clone for Handle {
    fn clone(&self) -> (r: Self)
        ensures
            r == *self,
    {
        Handle { s: self.s.clone() }
    }
}

impl Handle {
    /// Validates and wraps a handle; rejects invalid syntax with
    /// `Malformed`.
    pub fn parse(s: String) -> (r: Result<Handle, AuthError>)
        ensures
            r matches Ok(h) ==> is_valid_handle(s@) && h@ == s@,
            r is Err ==> !is_valid_handle(s@) && r == Err::<Handle, AuthError>(
                AuthError::Malformed,
            ),
    {
        let len = s.as_str().unicode_len();
        if len < 3 || len > 253 {
            return Err(AuthError::Malformed);
        }
        let mut seen_dot = false;
        let mut i: usize = 0;
        while i < len
            invariant
                i <= len,
                len == s@.len(),
                3 <= len <= 253,
                forall|j: int| 0 <= j < i ==> is_handle_char(#[trigger] s@[j]),
                seen_dot <==> exists|j: int| 0 <= j < i && s@[j] == '.',
                forall|j: int|
                    0 <= j < i - 1 ==> !((#[trigger] s@[j]) == '.' && s@[j + 1] == '.') && !(s@[j]
                        == '.' && s@[j + 1] == '-') && !(s@[j] == '-' && s@[j + 1] == '.'),
            decreases len - i,
        {
            let c = s.as_str().get_char(i);
            if !(('a' <= c && c <= 'z') || ('0' <= c && c <= '9') || c == '-' || c == '.') {
                return Err(AuthError::Malformed);
            }
            if c == '.' {
                if i == 0 || i + 1 == len {
                    return Err(AuthError::Malformed);
                }
                seen_dot = true;
            }
            if i > 0 {
                let p = s.as_str().get_char(i - 1);
                if (p == '.' && c == '.') || (p == '.' && c == '-') || (p == '-' && c == '.') {
                    return Err(AuthError::Malformed);
                }
            }
            i += 1;
        }
        if !seen_dot {
            return Err(AuthError::Malformed);
        }
        let first = s.as_str().get_char(0);
        if !(('a' <= first && first <= 'z') || ('0' <= first && first <= '9')) {
            return Err(AuthError::Malformed);
        }
        let last = s.as_str().get_char(len - 1);
        if !(('a' <= last && last <= 'z') || ('0' <= last && last <= '9')) {
            return Err(AuthError::Malformed);
        }
        Ok(Handle { s })
    }

    pub fn as_str(&self) -> (r: &str)
        ensures
            r@ == self@,
    {
        self.s.as_str()
    }
}

pub open spec fn is_method_char(c: char) -> bool {
    is_lower_alnum(c)
}

fn method_char_at(s: &str, i: usize) -> (r: bool)
    requires
        i < s@.len(),
    ensures
        r == is_method_char(s@[i as int]),
{
    let c = s.get_char(i);
    ('a' <= c && c <= 'z') || ('0' <= c && c <= '9')
}

pub open spec fn is_did_id_char(c: char) -> bool {
    ('a' <= c <= 'z') || ('A' <= c <= 'Z') || ('0' <= c <= '9') || c == '.' || c == '-' || c == '_'
        || c == ':' || c == '%'
}

/// `m` is the position of the colon that separates a DID's method from
/// its method-specific identifier: `did:<method>:<id>` with a nonempty
/// lowercase method and a nonempty identifier.
pub open spec fn is_did_split(s: Seq<char>, m: int) -> bool {
    &&& 4 < m
    &&& m + 1 < s.len()
    &&& s[m] == ':'
    &&& forall|i: int| 4 <= i < m ==> is_method_char(#[trigger] s[i])
    &&& forall|i: int| m < i < s.len() ==> is_did_id_char(#[trigger] s[i])
}

/// A well-formed DID: the prefix `did:`, a method name, a colon, and a
/// method-specific identifier.
pub open spec fn is_valid_did(s: Seq<char>) -> bool {
    &&& spec_starts_with(s, "did:"@)
    &&& exists|m: int| is_did_split(s, m)
}

/// Which resolution strategy a DID calls for: `plc` DIDs are looked up
/// in a registry directory, `web` DIDs at an endpoint derived from the
/// embedded domain.
#[derive(Clone, Copy, Debug, PartialEq, Eq, Structural)]
pub enum DidMethod {
    Plc,
    Web,
    Other,
}

/// A validated method-tagged decentralized identifier.
pub struct Did {
    s: String,
    m: usize,
}

impl View for Did {
    type V = Seq<char>;

    closed spec fn view(&self) -> Seq<char> {
        self.s@
    }
}

impl Clone for Did {
    fn clone(&self) -> (r: Self)
        ensures
            r == *self,
    {
        Did { s: self.s.clone(), m: self.m }
    }
}

impl Did {
    /// The position of the colon after the method name.
    pub closed spec fn split_at(&self) -> int {
        self.m as int
    }

    /// Every `Did` that can be observed satisfies this.
    pub open spec fn wf(&self) -> bool {
        is_did_split(self@, self.split_at()) && spec_starts_with(self@, "did:"@)
    }

    /// The method name, e.g. `plc` in `did:plc:abc`.
    pub open spec fn method_seq(&self) -> Seq<char> {
        self@.subrange(4, self.split_at())
    }

    /// The method-specific identifier after the second colon.
    pub open spec fn id_seq(&self) -> Seq<char> {
        self@.subrange(self.split_at() + 1, self@.len() as int)
    }

    /// Validates and wraps a DID; rejects invalid syntax with
    /// `Malformed`.
    pub fn parse(s: String) -> (r: Result<Did, AuthError>)
        ensures
            r matches Ok(d) ==> is_valid_did(s@) && d@ == s@ && d.wf(),
            r is Err ==> !is_valid_did(s@) && r == Err::<Did, AuthError>(AuthError::Malformed),
    {
        let len = s.as_str().unicode_len();
        if !str_starts_with(s.as_str(), "did:") {
            proof {
                reveal_strlit("did:");
            }
            return Err(AuthError::Malformed);
        }
        proof {
            reveal_strlit("did:");
        }
        let mut i: usize = 4;
        while i < len && method_char_at(s.as_str(), i)
            invariant
                4 <= i <= len,
                len == s@.len(),
                forall|j: int| 4 <= j < i ==> is_method_char(#[trigger] s@[j]),
            decreases len - i,
        {
            i += 1;
        }
        // i is the first position at or after 4 that is not a method
        // character, so any split colon must sit exactly at i.
        if i >= len || i == 4 {
            assert(forall|m: int| !is_did_split(s@, m)) by {
                assert forall|m: int| !is_did_split(s@, m) by {
                    if is_did_split(s@, m) {
                        if i >= len {
                            assert(4 <= m < len);
                            assert(is_method_char(s@[m]) || s@[m] == ':');
                        }
                    }
                }
            }
            return Err(AuthError::Malformed);
        }
        let c = s.as_str().get_char(i);
        if c != ':' {
            assert forall|m: int| !is_did_split(s@, m) by {
                if is_did_split(s@, m) {
                    if m < i {
                        assert(s@[m] == ':');
                        assert(is_method_char(s@[m]));
                    } else if m == i {
                    } else {
                        assert(is_method_char(s@[i as int]));
                    }
                }
            }
            return Err(AuthError::Malformed);
        }
        if i + 1 >= len {
            assert forall|m: int| !is_did_split(s@, m) by {
                if is_did_split(s@, m) {
                    if m < i {
                        assert(is_method_char(s@[m]));
                    } else if m > i {
                        assert(is_method_char(s@[i as int]));
                    }
                }
            }
            return Err(AuthError::Malformed);
        }
        let split = i;
        let mut j: usize = split + 1;
        while j < len
            invariant
                split + 1 <= j <= len,
                len == s@.len(),
                4 < split,
                split + 1 < len,
                s@[split as int] == ':',
                forall|k: int| 4 <= k < split ==> is_method_char(#[trigger] s@[k]),
                forall|k: int| split < k < j ==> is_did_id_char(#[trigger] s@[k]),
            decreases len - j,
        {
            let c = s.as_str().get_char(j);
            if !(('a' <= c && c <= 'z') || ('A' <= c && c <= 'Z') || ('0' <= c && c <= '9') || c
                == '.' || c == '-' || c == '_' || c == ':' || c == '%') {
                assert forall|m: int| !is_did_split(s@, m) by {
                    if is_did_split(s@, m) {
                        if m < split {
                            assert(is_method_char(s@[m]));
                        } else if m > split {
                            assert(is_method_char(s@[split as int]));
                        } else {
                            assert(is_did_id_char(s@[j as int]));
                        }
                    }
                }
                return Err(AuthError::Malformed);
            }
            j += 1;
        }
        assert(is_did_split(s@, split as int));
        Ok(Did { s, m: split })
    }

    pub fn as_str(&self) -> (r: &str)
        ensures
            r@ == self@,
    {
        self.s.as_str()
    }

    /// The resolution strategy this DID's method calls for.
    pub fn method(&self) -> (r: DidMethod)
        requires
            self.wf(),
        ensures
            r == DidMethod::Plc <==> self.method_seq() == "plc"@,
            r == DidMethod::Web <==> (self.method_seq() == "web"@ && self.method_seq()
                != "plc"@),
            r == DidMethod::Other <==> (self.method_seq() != "plc"@ && self.method_seq()
                != "web"@),
    {
        let method = self.s.as_str().substring_char(4, self.m);
        if str_eq(method, "plc") {
            DidMethod::Plc
        } else if str_eq(method, "web") {
            DidMethod::Web
        } else {
            DidMethod::Other
        }
    }

    /// The method-specific identifier as a string slice.
    pub fn id_part(&self) -> (r: &str)
        requires
            self.wf(),
        ensures
            r@ == self.id_seq(),
    {
        let len = self.s.as_str().unicode_len();
        self.s.as_str().substring_char(self.m + 1, len)
    }
}

} // verus!
