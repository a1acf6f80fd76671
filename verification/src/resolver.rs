//! The identity-resolution pipeline. A handle resolves to a DID by a
//! DNS TXT record at a reserved subdomain, falling back to a well-known
//! HTTP path; a DID resolves to a DID document from a registry
//! directory (`plc`) or from the DID's own domain (`web`). Both layers
//! are wrapped in single-flight coalescing and a bounded TTL cache.
//! Network fetches are performed by the caller, which hands their
//! outcomes to the decision functions here.
use crate::cache::Cache;
use crate::errors::AuthError;
use crate::identity::Did;
use crate::identity::Handle;
use crate::identity::DidMethod;
use crate::identity::is_valid_did;
use crate::strutil::spec_starts_with;
use crate::strutil::spec_trim;
use crate::strutil::str_eq;
use crate::strutil::str_starts_with;
use crate::strutil::trim_ascii_ws;
use crate::throttle::Throttle;
use vstd::pervasive::cloned;
use vstd::prelude::*;
use vstd::string::StrSliceExecFns;
use vstd::string::StringExecFns;

verus! {

/// One service entry of a DID document.
pub struct ServiceEndpoint {
    pub id: String,
    pub service_type: String,
    pub endpoint: String,
}

impl Clone for ServiceEndpoint {
    fn clone(&self) -> (r: Self)
        ensures
            r == *self,
    {
        ServiceEndpoint {
            id: self.id.clone(),
            service_type: self.service_type.clone(),
            endpoint: self.endpoint.clone(),
        }
    }
}

/// A resolved identity document: the DID it describes and its service
/// endpoints. Reconstructed on every resolution, subject to caching.
pub struct DidDocument {
    pub id: String,
    pub services: Vec<ServiceEndpoint>,
}

/// The two documents describe the same identity the same way.
pub open spec fn doc_eq(a: DidDocument, b: DidDocument) -> bool {
    a.id@ == b.id@ && a.services@ == b.services@
}

impl Clone for DidDocument {
    fn clone(&self) -> (r: Self)
        ensures
            doc_eq(r, *self),
    {
        let mut services: Vec<ServiceEndpoint> = Vec::new();
        let mut i: usize = 0;
        while i < self.services.len()
            invariant
                i <= self.services@.len(),
                services@ =~= self.services@.take(i as int),
            decreases self.services@.len() - i,
        {
            services.push(self.services[i].clone());
            proof {
                assert(services@ =~= self.services@.take(i + 1));
            }
            i += 1;
        }
        proof {
            assert(self.services@.take(self.services@.len() as int) =~= self.services@);
        }
        DidDocument { id: self.id.clone(), services }
    }
}

/// What one network fetch produced: a payload, a definite absence
/// (no such record or document), or a transport failure.
pub enum FetchOutcome<T> {
    Fetched(T),
    Missing,
    TransportFailed,
}

/// The result a completed flight carries to every waiter.
pub enum Outcome<V> {
    Success(V),
    Failure(AuthError),
}

impl<V: Clone> Clone for Outcome<V> {
    fn clone(&self) -> (r: Self)
        ensures
            self is Failure ==> r == *self,
            self matches Outcome::Success(v) ==> r matches Outcome::Success(w) && cloned::<V>(
                *v,
                w,
            ),
    {
        match self {
            Outcome::Success(v) => Outcome::Success(v.clone()),
            Outcome::Failure(e) => Outcome::Failure(*e),
        }
    }
}

pub open spec fn record_views(v: Vec<String>) -> Seq<Seq<char>> {
    v@.map(|_i: int, s: String| s@)
}

/// The first DNS TXT record at or after `i` of the form `did=<value>`,
/// with the value it carries.
pub open spec fn first_did_from(rs: Seq<Seq<char>>, i: int) -> Option<Seq<char>>
    decreases rs.len() - i,
{
    if i < 0 || i >= rs.len() {
        None
    } else if spec_starts_with(rs[i], "did="@) {
        Some(rs[i].skip(4))
    } else {
        first_did_from(rs, i + 1)
    }
}

/// What the well-known fallback decides: the trimmed body must be a
/// valid DID; a missing document means the handle does not resolve,
/// unless the DNS leg already failed in transport.
pub open spec fn spec_decide_wellknown(wk: FetchOutcome<String>, dns_failed: bool) -> Result<
    Seq<char>,
    AuthError,
> {
    match wk {
        FetchOutcome::Fetched(body) => {
            let c = spec_trim(body@);
            if is_valid_did(c) {
                Ok(c)
            } else {
                Err(AuthError::Malformed)
            }
        },
        FetchOutcome::Missing => if dns_failed {
            Err(AuthError::Transport)
        } else {
            Err(AuthError::NotFound)
        },
        FetchOutcome::TransportFailed => Err(AuthError::Transport),
    }
}

/// The handle-resolution strategy: the first `did=` TXT record wins if
/// it is a valid DID and is malformed otherwise; with no such record
/// the well-known document decides.
pub open spec fn spec_decide_handle(
    dns: FetchOutcome<Vec<String>>,
    wk: FetchOutcome<String>,
) -> Result<Seq<char>, AuthError> {
    match dns {
        FetchOutcome::Fetched(rs) => match first_did_from(record_views(rs), 0) {
            Some(c) => if is_valid_did(c) {
                Ok(c)
            } else {
                Err(AuthError::Malformed)
            },
            None => spec_decide_wellknown(wk, false),
        },
        FetchOutcome::Missing => spec_decide_wellknown(wk, false),
        FetchOutcome::TransportFailed => spec_decide_wellknown(wk, true),
    }
}

/// Decides handle resolution from the two fetch outcomes.
pub fn decide_handle(dns: &FetchOutcome<Vec<String>>, wk: &FetchOutcome<String>) -> (r: Result<
    Did,
    AuthError,
>)
    ensures
        r matches Ok(d) ==> spec_decide_handle(*dns, *wk) == Ok::<Seq<char>, AuthError>(d@)
            && d.wf(),
        r matches Err(e) ==> spec_decide_handle(*dns, *wk) == Err::<Seq<char>, AuthError>(e),
{
    proof {
        reveal_strlit("did=");
    }
    let dns_failed = match dns {
        FetchOutcome::TransportFailed => true,
        _ => false,
    };
    if let FetchOutcome::Fetched(rs) = dns {
        let ghost views = record_views(*rs);
        let mut i: usize = 0;
        while i < rs.len()
            invariant
                i <= rs@.len(),
                *dns == FetchOutcome::Fetched::<Vec<String>>(*rs),
                views == record_views(*rs),
                views.len() == rs@.len(),
                forall|j: int| 0 <= j < views.len() ==> views[j] == rs@[j]@,
                first_did_from(views, 0) == first_did_from(views, i as int),
            decreases rs@.len() - i,
        {
            proof {
                reveal_strlit("did=");
            }
            if str_starts_with(rs[i].as_str(), "did=") {
                let len = rs[i].as_str().unicode_len();
                let candidate = rs[i].as_str().substring_char(4, len);
                proof {
                    assert(views[i as int].skip(4) =~= candidate@);
                    assert(first_did_from(views, i as int) == Some(candidate@));
                }
                return match Did::parse(String::from_str(candidate)) {
                    Ok(d) => Ok(d),
                    Err(_) => Err(AuthError::Malformed),
                };
            }
            i += 1;
        }
        proof {
            assert(first_did_from(views, rs@.len() as int) is None);
        }
    }
    decide_wellknown(wk, dns_failed)
}

fn decide_wellknown(wk: &FetchOutcome<String>, dns_failed: bool) -> (r: Result<Did, AuthError>)
    ensures
        r matches Ok(d) ==> spec_decide_wellknown(*wk, dns_failed) == Ok::<Seq<char>, AuthError>(
            d@,
        ) && d.wf(),
        r matches Err(e) ==> spec_decide_wellknown(*wk, dns_failed) == Err::<Seq<char>, AuthError>(
            e,
        ),
{
    match wk {
        FetchOutcome::Fetched(body) => {
            let c = trim_ascii_ws(body.as_str());
            match Did::parse(String::from_str(c)) {
                Ok(d) => Ok(d),
                Err(_) => Err(AuthError::Malformed),
            }
        },
        FetchOutcome::Missing => if dns_failed {
            Err(AuthError::Transport)
        } else {
            Err(AuthError::NotFound)
        },
        FetchOutcome::TransportFailed => Err(AuthError::Transport),
    }
}

/// Where the caller must fetch to resolve a handle: the TXT record name
/// and the well-known URL.
pub struct HandleFetchPlan {
    pub dns_name: String,
    pub wellknown_url: String,
}

/// The reserved subdomain whose TXT record may carry the handle's DID.
pub open spec fn spec_dns_name(h: Seq<char>) -> Seq<char> {
    "_atproto."@ + h
}

/// The well-known URL whose body may carry the handle's DID.
pub open spec fn spec_wellknown_url(h: Seq<char>) -> Seq<char> {
    "https://"@ + h + "/.well-known/atproto-did"@
}

/// Builds the two fetch locations for a handle.
pub fn handle_fetch_plan(h: &Handle) -> (r: HandleFetchPlan)
    ensures
        r.dns_name@ == spec_dns_name(h@),
        r.wellknown_url@ == spec_wellknown_url(h@),
{
    let mut dns_name = String::from_str("_atproto.");
    dns_name.append(h.as_str());
    let mut wellknown_url = String::from_str("https://");
    wellknown_url.append(h.as_str());
    wellknown_url.append("/.well-known/atproto-did");
    HandleFetchPlan { dns_name, wellknown_url }
}

/// Where a DID document is fetched from: the registry directory for
/// `plc` DIDs, the DID's own domain for `web` DIDs. Another method does
/// not resolve; a `web` identifier that is not a plain domain fails
/// structural validation.
pub open spec fn spec_did_fetch_url(d: Did, directory: Seq<char>) -> Result<Seq<char>, AuthError> {
    if d.method_seq() == "plc"@ {
        Ok(directory + "/"@ + d@)
    } else if d.method_seq() == "web"@ {
        if crate::identity::is_valid_handle(d.id_seq()) {
            Ok("https://"@ + d.id_seq() + "/.well-known/did.json"@)
        } else {
            Err(AuthError::Malformed)
        }
    } else {
        Err(AuthError::NotFound)
    }
}

/// Builds the URL a DID document must be fetched from.
pub fn did_fetch_url(d: &Did, directory: &str) -> (r: Result<String, AuthError>)
    requires
        d.wf(),
    ensures
        r matches Ok(u) ==> spec_did_fetch_url(*d, directory@) == Ok::<Seq<char>, AuthError>(u@),
        r matches Err(e) ==> spec_did_fetch_url(*d, directory@) == Err::<Seq<char>, AuthError>(e),
{
    match d.method() {
        DidMethod::Plc => {
            let mut u = String::from_str(directory);
            u.append("/");
            u.append(d.as_str());
            Ok(u)
        },
        DidMethod::Web => {
            match Handle::parse(String::from_str(d.id_part())) {
                Ok(domain) => {
                    let mut u = String::from_str("https://");
                    u.append(domain.as_str());
                    u.append("/.well-known/did.json");
                    Ok(u)
                },
                Err(_) => Err(AuthError::Malformed),
            }
        },
        DidMethod::Other => Err(AuthError::NotFound),
    }
}

/// The service type that marks the user's personal data and
/// authorization endpoint.
pub open spec fn is_pds_service(s: ServiceEndpoint) -> bool {
    s.service_type@ == "AtprotoPersonalDataServer"@
}

/// The endpoint of the first personal-data service at or after `i`.
pub open spec fn first_pds_from(ss: Seq<ServiceEndpoint>, i: int) -> Option<Seq<char>>
    decreases ss.len() - i,
{
    if i < 0 || i >= ss.len() {
        None
    } else if is_pds_service(ss[i]) {
        Some(ss[i].endpoint@)
    } else {
        first_pds_from(ss, i + 1)
    }
}

/// Extracts the authorization-server issuer from a document's service
/// endpoints; with no suitable entry the identity has no usable
/// authorization server.
pub fn issuer_of(doc: &DidDocument) -> (r: Result<String, AuthError>)
    ensures
        r matches Ok(u) ==> first_pds_from(doc.services@, 0) == Some(u@),
        r is Err ==> first_pds_from(doc.services@, 0) is None && r == Err::<String, AuthError>(
            AuthError::NoAuthServer,
        ),
{
    let mut i: usize = 0;
    while i < doc.services.len()
        invariant
            i <= doc.services@.len(),
            first_pds_from(doc.services@, 0) == first_pds_from(doc.services@, i as int),
        decreases doc.services@.len() - i,
    {
        if str_eq(doc.services[i].service_type.as_str(), "AtprotoPersonalDataServer") {
            return Ok(doc.services[i].endpoint.clone());
        }
        i += 1;
    }
    Err(AuthError::NoAuthServer)
}

/// Validates a fetched document against the DID it was fetched for and
/// decides DID resolution.
pub open spec fn spec_decide_did(d: Did, fetch: FetchOutcome<DidDocument>) -> Result<
    DidDocument,
    AuthError,
> {
    match fetch {
        FetchOutcome::Fetched(doc) => if doc.id@ == d@ {
            Ok(doc)
        } else {
            Err(AuthError::Malformed)
        },
        FetchOutcome::Missing => Err(AuthError::NotFound),
        FetchOutcome::TransportFailed => Err(AuthError::Transport),
    }
}

/// Decides DID resolution from the document fetch outcome.
pub fn decide_did(d: &Did, fetch: &FetchOutcome<DidDocument>) -> (r: Result<DidDocument, AuthError>)
    ensures
        r matches Ok(doc) ==> (spec_decide_did(*d, *fetch) matches Ok(doc0) && doc_eq(doc, doc0)),
        r matches Err(e) ==> spec_decide_did(*d, *fetch) == Err::<DidDocument, AuthError>(e),
{
    match fetch {
        FetchOutcome::Fetched(doc) => if str_eq(doc.id.as_str(), d.as_str()) {
            Ok(doc.clone())
        } else {
            Err(AuthError::Malformed)
        },
        FetchOutcome::Missing => Err(AuthError::NotFound),
        FetchOutcome::TransportFailed => Err(AuthError::Transport),
    }
}

/// A user-supplied identifier, recognized as a DID or as a handle.
pub enum Identifier {
    ById(Did),
    ByName(Handle),
}

/// Recognizes a user-supplied identifier: anything beginning `did:`
/// must be a valid DID, anything else must be a valid handle; invalid
/// syntax is `Malformed`.
pub fn identify(s: String) -> (r: Result<Identifier, AuthError>)
    ensures
        r matches Ok(Identifier::ById(d)) ==> spec_starts_with(s@, "did:"@) && d@ == s@ && d.wf(),
        r matches Ok(Identifier::ByName(h)) ==> !spec_starts_with(s@, "did:"@) && h@ == s@
            && crate::identity::is_valid_handle(s@),
        r is Err ==> r == Err::<Identifier, AuthError>(AuthError::Malformed) && (spec_starts_with(
            s@,
            "did:"@,
        ) ==> !is_valid_did(s@)) && (!spec_starts_with(s@, "did:"@)
            ==> !crate::identity::is_valid_handle(s@)),
{
    if str_starts_with(s.as_str(), "did:") {
        match Did::parse(s) {
            Ok(d) => Ok(Identifier::ById(d)),
            Err(e) => Err(e),
        }
    } else {
        match Handle::parse(s) {
            Ok(h) => Ok(Identifier::ByName(h)),
            Err(e) => Err(e),
        }
    }
}

/// How many handle resolutions the handle cache holds at most.
pub const HANDLE_CACHE_CAPACITY: usize = 1000;

/// How long a cached handle resolution stays fresh, in seconds.
pub const HANDLE_CACHE_TTL: u64 = 600;

/// How many DID documents the document cache holds at most.
pub const DOCUMENT_CACHE_CAPACITY: usize = 104857;

/// How long a cached DID document stays fresh, in seconds.
pub const DOCUMENT_CACHE_TTL: u64 = 3600;

/// Composes handle resolution and DID resolution: each stage behind
/// its own cache and single-flight registry, sharing one registry
/// directory configuration.
pub struct IdentityResolver {
    /// The handle-to-DID stage.
    pub handles: SingleFlightCache<Did>,
    /// The DID-to-document stage.
    pub documents: SingleFlightCache<DidDocument>,
    /// The registry directory `plc` DIDs are fetched from.
    pub directory: String,
}

impl IdentityResolver {
    pub open spec fn wf(self) -> bool {
        self.handles.wf() && self.documents.wf()
    }

    /// The registry directory, as the contracts speak of it.
    pub open spec fn directory_of(self) -> Seq<char> {
        self.directory@
    }

    /// A resolver with empty caches and no flight in progress, fetching
    /// registry DIDs from `directory`.
    pub fn new(directory: String) -> (r: IdentityResolver)
        ensures
            r.wf(),
            r.directory_of() == directory@,
            forall|k: Seq<char>| !r.handles.in_flight(k),
            forall|k: Seq<char>| !r.documents.in_flight(k),
            forall|k: Seq<char>| !r.handles.cache_of().has(k),
            forall|k: Seq<char>| !r.documents.cache_of().has(k),
    {
        let handles = SingleFlightCache::new(HANDLE_CACHE_CAPACITY, HANDLE_CACHE_TTL);
        let documents = SingleFlightCache::new(DOCUMENT_CACHE_CAPACITY, DOCUMENT_CACHE_TTL);
        IdentityResolver { handles, documents, directory }
    }

    /// The URL the document for `d` must be fetched from.
    pub fn plan_document_fetch(&self, d: &Did) -> (r: Result<String, AuthError>)
        requires
            d.wf(),
        ensures
            r matches Ok(u) ==> spec_did_fetch_url(*d, self.directory_of()) == Ok::<
                Seq<char>,
                AuthError,
            >(u@),
            r matches Err(e) ==> spec_did_fetch_url(*d, self.directory_of()) == Err::<
                Seq<char>,
                AuthError,
            >(e),
    {
        did_fetch_url(d, self.directory.as_str())
    }
}

/// A resolver layer: a bounded TTL cache in front of a single-flight
/// registry, as each resolution stage wears it.
pub struct SingleFlightCache<V> {
    cache: Cache<V>,
    flights: Throttle<Outcome<V>>,
}

impl<V: Clone> SingleFlightCache<V> {
    /// The cache layer, for contracts that speak of what is cached.
    pub closed spec fn cache_of(self) -> Cache<V> {
        self.cache
    }

    pub closed spec fn wf(self) -> bool {
        self.cache.wf() && self.flights.wf()
    }

    /// A fresh cached value is available for `k`.
    pub closed spec fn cached_fresh(self, k: Seq<char>, now: u64) -> bool {
        self.cache.fresh(k, now)
    }

    /// The cached value for `k`.
    pub closed spec fn cached_value(self, k: Seq<char>) -> V {
        self.cache.value_at(k)
    }

    /// An upstream call for `k` is in flight.
    pub closed spec fn in_flight(self, k: Seq<char>) -> bool {
        self.flights.in_flight(k)
    }

    /// The flight for `k` has completed.
    pub closed spec fn flight_done(self, k: Seq<char>) -> bool {
        self.flights.is_done(k)
    }

    /// The one outcome every waiter for `k` receives.
    pub closed spec fn flight_value(self, k: Seq<char>) -> Outcome<V> {
        self.flights.done_value(k)
    }

    pub fn new(capacity: usize, ttl: u64) -> (r: SingleFlightCache<V>)
        requires
            capacity >= 1,
            ttl >= 1,
        ensures
            r.wf(),
            r.cache_of().ttl_of() == ttl,
            forall|k: Seq<char>| !r.cache_of().has(k),
            forall|k: Seq<char>| !r.in_flight(k),
    {
        SingleFlightCache { cache: Cache::new(capacity, ttl), flights: Throttle::new() }
    }

    /// Consults the cache; a fresh entry resolves without any upstream
    /// call.
    pub fn lookup(&self, key: &str, now: u64) -> (r: Option<V>)
        requires
            self.wf(),
        ensures
            r is Some <==> self.cached_fresh(key@, now),
            r matches Some(v) ==> cloned::<V>(self.cached_value(key@), v),
    {
        match self.cache.get(key, now) {
            Some(v) => Some(v.clone()),
            None => None,
        }
    }

    /// Joins the single flight for `key`; true means this caller must
    /// perform the upstream call.
    pub fn join(&mut self, key: &str) -> (leader: bool)
        requires
            old(self).wf(),
        ensures
            final(self).wf(),
            final(self).cache_of() == old(self).cache_of(),
            leader <==> !old(self).in_flight(key@),
            final(self).in_flight(key@),
            leader ==> !final(self).flight_done(key@),
    {
        self.flights.join(key)
    }

    /// The leader deposits a successful result: it is cached from `now`
    /// on and handed to every waiter.
    pub fn fulfill_ok(&mut self, key: &str, value: V, now: u64)
        requires
            old(self).wf(),
            old(self).in_flight(key@),
            !old(self).flight_done(key@),
        ensures
            final(self).wf(),
            final(self).cached_fresh(key@, now),
            cloned::<V>(value, final(self).cached_value(key@)),
            final(self).cache_of().ttl_of() == old(self).cache_of().ttl_of(),
            forall|t: u64|
                now <= t && t < now + final(self).cache_of().ttl_of() ==> final(self).cached_fresh(
                    key@,
                    t,
                ),
            final(self).flight_done(key@),
            final(self).flight_value(key@) matches Outcome::Success(v) && v == value,
    {
        let stored = value.clone();
        self.cache.set(key, stored, now);
        self.flights.complete(key, Outcome::Success(value));
        proof {
            self.cache.lemma_wf_ttl();
        }
    }

    /// The leader deposits a failure: nothing is cached, every waiter
    /// receives the same error.
    pub fn fulfill_err(&mut self, key: &str, e: AuthError)
        requires
            old(self).wf(),
            old(self).in_flight(key@),
            !old(self).flight_done(key@),
        ensures
            final(self).wf(),
            final(self).cache_of() == old(self).cache_of(),
            final(self).flight_done(key@),
            final(self).flight_value(key@) == Outcome::Failure::<V>(e),
    {
        self.flights.complete(key, Outcome::Failure(e));
    }

    /// A waiter collects the completed flight's outcome; every waiter
    /// for `key` receives this same outcome.
    pub fn collect(&mut self, key: &str) -> (r: Option<Result<V, AuthError>>)
        requires
            old(self).wf(),
        ensures
            final(self).wf(),
            final(self).cache_of() == old(self).cache_of(),
            r is Some <==> old(self).flight_done(key@),
            r matches Some(res) ==> match old(self).flight_value(key@) {
                Outcome::Success(v) => res matches Ok(w) && cloned::<V>(v, w),
                Outcome::Failure(e) => res == Err::<V, AuthError>(e),
            },
    {
        match self.flights.collect(key) {
            Some(Outcome::Success(v)) => Some(Ok(v)),
            Some(Outcome::Failure(e)) => Some(Err(e)),
            None => None,
        }
    }
}

} // verus!
