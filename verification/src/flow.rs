//! The authorization-code flow orchestrator: builds authorization
//! requests with PKCE and optional DPoP key binding, persists one
//! session per attempt under a fresh opaque state token, and completes
//! the callback by validating that token, handing back the token
//! request, and deleting the session once the attempt is decided.
//! The caller performs the network exchanges and hands their outcomes
//! back in.
use crate::errors::AuthError;
use crate::keyring::p256_pem_ok;
use crate::keyring::KeyRing;
use crate::resolver::record_views;
use crate::store::SessionState;
use crate::store::WasmStateStore;
use crate::strutil::enc_utf8;
use crate::strutil::join_space;
use crate::strutil::percent_encode_str;
use crate::strutil::spec_join_space;
use crate::strutil::spec_starts_with;
use crate::strutil::str_starts_with;
use base64::Engine;
use vstd::prelude::*;
use vstd::string::StrSliceExecFns;
use vstd::string::StringExecFns;

verus! {

/// The digest of a byte string under SHA-256; a function of the bytes
/// alone.
pub uninterp spec fn sha256_of(bytes: Seq<u8>) -> Seq<u8>;

/// Relies on `sha2::Sha256::digest`: the digest is 32 bytes and
/// depends on the input alone.
#[verifier::external_body]
fn sha256(bytes: &Vec<u8>) -> (r: Vec<u8>)
    ensures
        r@ == sha256_of(bytes@),
        r@.len() == 32,
{
    let d = <sha2::Sha256 as sha2::Digest>::digest(bytes.as_slice());
    d.to_vec()
}

/// The URL-safe unpadded base64 rendering of a byte string; a function
/// of the bytes alone.
pub uninterp spec fn b64url_of(bytes: Seq<u8>) -> Seq<char>;

/// Relies on `base64`'s `URL_SAFE_NO_PAD` engine: the encoding depends
/// on the input alone.
#[verifier::external_body]
fn base64url(bytes: &Vec<u8>) -> (r: String)
    ensures
        r@ == b64url_of(bytes@),
{
    base64::engine::general_purpose::URL_SAFE_NO_PAD.encode(bytes)
}

/// The PKCE code challenge derived from a verifier by the `S256`
/// method.
pub open spec fn spec_challenge(verifier: Seq<char>) -> Seq<char> {
    b64url_of(sha256_of(vstd::utf8::encode_utf8(verifier)))
}

/// Computes the `S256` code challenge for a verifier.
pub fn pkce_challenge(verifier: &str) -> (r: String)
    ensures
        r@ == spec_challenge(verifier@),
{
    let bytes = verifier.as_bytes_vec();
    let digest = sha256(&bytes);
    base64url(&digest)
}

/// The client's own registration data, served to authorization
/// servers.
pub struct ClientMetadata {
    pub client_id: String,
    pub redirect_uris: Vec<String>,
    pub scopes: Vec<String>,
    pub grant_types: Vec<String>,
    pub token_endpoint_auth_method: String,
}

/// The two metadata values say the same thing.
pub open spec fn meta_eq(a: ClientMetadata, b: ClientMetadata) -> bool {
    &&& a.client_id@ == b.client_id@
    &&& a.redirect_uris@ == b.redirect_uris@
    &&& a.scopes@ == b.scopes@
    &&& a.grant_types@ == b.grant_types@
    &&& a.token_endpoint_auth_method@ == b.token_endpoint_auth_method@
}

/// Duplicates a vector of strings, element for element.
pub fn clone_strings(v: &Vec<String>) -> (r: Vec<String>)
    ensures
        r@ == v@,
{
    let mut out: Vec<String> = Vec::new();
    let mut i: usize = 0;
    while i < v.len()
        invariant
            i <= v@.len(),
            out@ =~= v@.take(i as int),
        decreases v@.len() - i,
    {
        out.push(v[i].clone());
        proof {
            assert(out@ =~= v@.take(i + 1));
        }
        i += 1;
    }
    proof {
        assert(v@.take(v@.len() as int) =~= v@);
    }
    out
}

fn clone_opt(v: &Option<String>) -> (r: Option<String>)
    ensures
        r == *v,
{
    match v {
        Some(s) => Some(s.clone()),
        None => None,
    }
}

impl Clone for ClientMetadata {
    fn clone(&self) -> (r: Self)
        ensures
            meta_eq(r, *self),
    {
        ClientMetadata {
            client_id: self.client_id.clone(),
            redirect_uris: clone_strings(&self.redirect_uris),
            scopes: clone_strings(&self.scopes),
            grant_types: clone_strings(&self.grant_types),
            token_endpoint_auth_method: self.token_endpoint_auth_method.clone(),
        }
    }
}

/// What authorization-server metadata discovery produced, already
/// deserialized to plain values by the caller.
pub struct AuthServerMetadata {
    pub issuer: String,
    pub authorization_endpoint: String,
    pub token_endpoint: String,
    pub par_endpoint: Option<String>,
}

/// The issuer and both endpoints must be HTTPS URLs.
pub open spec fn metadata_ok(m: AuthServerMetadata) -> bool {
    &&& spec_starts_with(m.issuer@, "https://"@)
    &&& spec_starts_with(m.authorization_endpoint@, "https://"@)
    &&& spec_starts_with(m.token_endpoint@, "https://"@)
}

fn check_metadata(m: &AuthServerMetadata) -> (r: bool)
    ensures
        r == metadata_ok(*m),
{
    str_starts_with(m.issuer.as_str(), "https://") && str_starts_with(
        m.authorization_endpoint.as_str(),
        "https://",
    ) && str_starts_with(m.token_endpoint.as_str(), "https://")
}

/// The per-attempt secrets the caller generates: the unguessable state
/// token, the PKCE verifier, and the key the attempt binds for DPoP.
pub struct FlowSecrets {
    pub state: String,
    pub pkce_verifier: String,
    pub dpop_kid: Option<String>,
}

/// Both secrets must be nonempty.
pub open spec fn secrets_ok(s: FlowSecrets) -> bool {
    s.state@.len() > 0 && s.pkce_verifier@.len() > 0
}

/// The token material a successful callback returns; owned by the
/// caller, not retained here.
pub struct TokenResult {
    pub access_token: String,
    pub token_type: String,
    pub refresh_token: Option<String>,
    pub expires_in: Option<u64>,
    pub scope: Option<String>,
    pub sub: Option<String>,
}

impl Clone for TokenResult {
    fn clone(&self) -> (r: Self)
        ensures
            r == *self,
    {
        TokenResult {
            access_token: self.access_token.clone(),
            token_type: self.token_type.clone(),
            refresh_token: clone_opt(&self.refresh_token),
            expires_in: self.expires_in,
            scope: clone_opt(&self.scope),
            sub: clone_opt(&self.sub),
        }
    }
}

/// The query parameters the authorization server redirected back with.
pub struct CallbackParams {
    pub state: String,
    pub code: String,
    pub iss: Option<String>,
}

/// What the token-endpoint exchange produced: tokens, a definite
/// refusal, or a transport failure.
pub enum TokenOutcome {
    Granted(TokenResult),
    Denied,
    TransportFailed,
}

/// The exchange the caller must perform against the token endpoint,
/// signing with the named DPoP key if one is bound.
pub struct TokenRequest {
    pub token_endpoint: String,
    pub body: String,
    pub dpop_kid: Option<String>,
}

/// The query string of an authorization request.
pub open spec fn spec_auth_query(
    client_id: Seq<char>,
    redirect_uri: Seq<char>,
    scope: Seq<char>,
    state: Seq<char>,
    verifier: Seq<char>,
) -> Seq<char> {
    "response_type=code&client_id="@ + enc_utf8(client_id) + "&redirect_uri="@ + enc_utf8(
        redirect_uri,
    ) + "&scope="@ + enc_utf8(scope) + "&state="@ + enc_utf8(state) + "&code_challenge="@
        + enc_utf8(spec_challenge(verifier)) + "&code_challenge_method=S256"@
}

/// The full authorization URL the caller redirects to.
pub open spec fn spec_auth_url(
    endpoint: Seq<char>,
    client_id: Seq<char>,
    redirect_uri: Seq<char>,
    scope: Seq<char>,
    state: Seq<char>,
    verifier: Seq<char>,
) -> Seq<char> {
    endpoint + "?"@ + spec_auth_query(client_id, redirect_uri, scope, state, verifier)
}

/// The form body of the code exchange at the token endpoint.
pub open spec fn spec_token_body(
    code: Seq<char>,
    redirect_uri: Seq<char>,
    client_id: Seq<char>,
    verifier: Seq<char>,
) -> Seq<char> {
    "grant_type=authorization_code&code="@ + enc_utf8(code) + "&redirect_uri="@ + enc_utf8(
        redirect_uri,
    ) + "&client_id="@ + enc_utf8(client_id) + "&code_verifier="@ + enc_utf8(verifier)
}

fn build_auth_query(
    client_id: &String,
    redirect_uri: &String,
    scope: &String,
    state: &String,
    verifier: &String,
) -> (r: String)
    ensures
        r@ == spec_auth_query(client_id@, redirect_uri@, scope@, state@, verifier@),
{
    let mut q = String::from_str("response_type=code&client_id=");
    q.append(percent_encode_str(client_id.as_str()).as_str());
    q.append("&redirect_uri=");
    q.append(percent_encode_str(redirect_uri.as_str()).as_str());
    q.append("&scope=");
    q.append(percent_encode_str(scope.as_str()).as_str());
    q.append("&state=");
    q.append(percent_encode_str(state.as_str()).as_str());
    q.append("&code_challenge=");
    let challenge = pkce_challenge(verifier.as_str());
    q.append(percent_encode_str(challenge.as_str()).as_str());
    q.append("&code_challenge_method=S256");
    proof {
        assert(q@ =~= spec_auth_query(client_id@, redirect_uri@, scope@, state@, verifier@));
    }
    q
}

fn build_token_body(
    code: &String,
    redirect_uri: &String,
    client_id: &String,
    verifier: &String,
) -> (r: String)
    ensures
        r@ == spec_token_body(code@, redirect_uri@, client_id@, verifier@),
{
    let mut b = String::from_str("grant_type=authorization_code&code=");
    b.append(percent_encode_str(code.as_str()).as_str());
    b.append("&redirect_uri=");
    b.append(percent_encode_str(redirect_uri.as_str()).as_str());
    b.append("&client_id=");
    b.append(percent_encode_str(client_id.as_str()).as_str());
    b.append("&code_verifier=");
    b.append(percent_encode_str(verifier.as_str()).as_str());
    proof {
        assert(b@ =~= spec_token_body(code@, redirect_uri@, client_id@, verifier@));
    }
    b
}

/// The top-level coordinator of the flow: client metadata, the signing
/// keys, and the per-attempt sessions, driven through `authorize`,
/// `callback_begin` and `callback_finish`.
pub struct FlowOrchestrator {
    metadata: ClientMetadata,
    keys: KeyRing,
    sessions: WasmStateStore,
    issued: Ghost<Set<Seq<char>>>,
}

impl FlowOrchestrator {
    /// The keys, sessions and issued-state bookkeeping are consistent:
    /// every live session key was issued by a prior `authorize`.
    pub closed spec fn wf(self) -> bool {
        &&& self.keys.wf()
        &&& self.sessions.wf()
        &&& forall|k: Seq<char>| self.sessions.spec_has(k) ==> self.issued@.contains(k)
    }

    /// A session is stored under `k` and a callback for it can still
    /// succeed.
    pub closed spec fn session_live(self, k: Seq<char>) -> bool {
        self.sessions.spec_has(k)
    }

    /// The session stored under `k`.
    pub closed spec fn session_at(self, k: Seq<char>) -> SessionState {
        self.sessions.spec_val(k)
    }

    /// Every state token a prior `authorize` has issued.
    pub closed spec fn issued_of(self) -> Set<Seq<char>> {
        self.issued@
    }

    /// The client metadata as configured.
    pub closed spec fn metadata_of(self) -> ClientMetadata {
        self.metadata
    }

    /// The signing-key ring.
    pub closed spec fn keys_of(self) -> KeyRing {
        self.keys
    }

    /// Builds an orchestrator from client metadata and PEM-encoded
    /// signing keys. One malformed key fails construction entirely.
    pub fn new(metadata: ClientMetadata, key_pems: &Vec<String>) -> (r: Result<
        FlowOrchestrator,
        AuthError,
    >)
        ensures
            r is Ok <==> (forall|i: int|
                0 <= i < key_pems@.len() ==> p256_pem_ok(#[trigger] key_pems@[i]@)),
            r matches Ok(o) ==> o.wf() && o.keys_of().len() == key_pems@.len() && meta_eq(
                o.metadata_of(),
                metadata,
            ) && (forall|k: Seq<char>| !o.session_live(k)) && o.issued_of() == Set::<
                Seq<char>,
            >::empty(),
            r matches Err(e) ==> e == AuthError::KeyParseError,
    {
        let keys = match KeyRing::new(key_pems) {
            Ok(k) => k,
            Err(e) => {
                return Err(e);
            },
        };
        Ok(
            FlowOrchestrator {
                metadata,
                keys,
                sessions: WasmStateStore::new(),
                issued: Ghost(Set::empty()),
            },
        )
    }

    /// The client's registration data, as served to authorization
    /// servers.
    pub fn client_metadata(&self) -> (r: ClientMetadata)
        ensures
            meta_eq(r, self.metadata_of()),
    {
        self.metadata.clone()
    }

    /// The public projections of the signing keys.
    pub fn jwks(&self) -> (r: Vec<jose_jwk::Jwk>)
        ensures
            r@.len() == self.keys_of().len(),
    {
        self.keys.public_jwks()
    }

    /// The identifier of the first ring key, the one an attempt binds
    /// for DPoP when the ring is not empty.
    pub fn first_kid(&self) -> (r: Option<String>)
        ensures
            r is Some <==> self.keys_of().len() > 0,
            r matches Some(k) ==> k@ == self.keys_of().kid_at(0),
    {
        if self.keys.is_empty() {
            None
        } else {
            Some(self.keys.kid(0))
        }
    }

    /// Signs `msg` with the ring key named `kid`, for DPoP proofs.
    pub fn sign(&self, kid: &str, msg: &Vec<u8>) -> (r: Result<Vec<u8>, AuthError>)
        requires
            self.wf(),
        ensures
            r is Ok <==> (exists|i: int|
                0 <= i < self.keys_of().len() && self.keys_of().kid_at(i) == kid@),
            r matches Ok(sig) ==> sig@.len() == 64,
            r is Err ==> r == Err::<Vec<u8>, AuthError>(AuthError::NotFound),
    {
        let r = self.keys.sign_with(kid, msg);
        proof {
            if r is Ok {
                let i = choose|i: int|
                    0 <= i < self.keys.len() && self.keys.kid_at(i) == kid@;
                assert(0 <= i < self.keys_of().len() && self.keys_of().kid_at(i) == kid@);
            }
            if exists|i: int|
                0 <= i < self.keys_of().len() && self.keys_of().kid_at(i) == kid@ {
                let i = choose|i: int|
                    0 <= i < self.keys_of().len() && self.keys_of().kid_at(i) == kid@;
                assert(0 <= i < self.keys.len() && self.keys.kid_at(i) == kid@);
            }
        }
        r
    }

    /// Everything `authorize` checks before it acts.
    pub open spec fn authorize_inputs_ok(self, meta: AuthServerMetadata, secrets: FlowSecrets) -> bool {
        metadata_ok(meta) && secrets_ok(secrets) && self.metadata_of().redirect_uris@.len() > 0
    }

    /// Starts one authorization attempt: validates the server metadata
    /// and secrets, derives the PKCE challenge, persists the session
    /// under the state token, and returns the authorization URL to
    /// redirect to. A state token that is already live is refused, so
    /// no session is ever silently overwritten.
    pub fn authorize(
        &mut self,
        identifier: &str,
        meta: &AuthServerMetadata,
        secrets: &FlowSecrets,
        now: u64,
    ) -> (r: Result<String, AuthError>)
        requires
            old(self).wf(),
        ensures
            final(self).wf(),
            r is Ok <==> old(self).authorize_inputs_ok(*meta, *secrets) && !old(self).session_live(
                secrets.state@,
            ),
            !old(self).authorize_inputs_ok(*meta, *secrets) ==> r == Err::<String, AuthError>(
                AuthError::Malformed,
            ),
            old(self).authorize_inputs_ok(*meta, *secrets) && old(self).session_live(secrets.state@)
                ==> r == Err::<String, AuthError>(AuthError::InvalidState),
            r is Err ==> *final(self) == *old(self),
            r matches Ok(u) ==> u@ == spec_auth_url(
                meta.authorization_endpoint@,
                old(self).metadata_of().client_id@,
                old(self).metadata_of().redirect_uris@[0]@,
                spec_join_space(record_views(old(self).metadata_of().scopes)),
                secrets.state@,
                secrets.pkce_verifier@,
            ),
            r is Ok ==> final(self).session_live(secrets.state@) && final(self).issued_of() == old(self).issued_of().insert(secrets.state@) && final(self).session_at(secrets.state@)
                == (SessionState {
                state: secrets.state,
                identifier: final(self).session_at(secrets.state@).identifier,
                issuer: meta.issuer,
                token_endpoint: meta.token_endpoint,
                redirect_uri: final(self).session_at(secrets.state@).redirect_uri,
                pkce_verifier: secrets.pkce_verifier,
                dpop_kid: secrets.dpop_kid,
                scope: final(self).session_at(secrets.state@).scope,
                created_at: now,
            }) && final(self).session_at(secrets.state@).identifier@ == identifier@ && final(self).session_at(secrets.state@).redirect_uri@ == old(self).metadata_of().redirect_uris@[0]@ && final(self).session_at(secrets.state@).scope@
                == spec_join_space(record_views(old(self).metadata_of().scopes)),
            r is Ok ==> (forall|q: Seq<char>|
                q != secrets.state@ ==> (final(self).session_live(q) <==> old(self).session_live(
                    q,
                ))),
    {
        if !check_metadata(meta) {
            return Err(AuthError::Malformed);
        }
        if secrets.state.as_str().unicode_len() == 0 || secrets.pkce_verifier.as_str().unicode_len()
            == 0 {
            return Err(AuthError::Malformed);
        }
        if self.metadata.redirect_uris.len() == 0 {
            return Err(AuthError::Malformed);
        }
        match self.sessions.get(secrets.state.as_str()) {
            Some(_) => {
                return Err(AuthError::InvalidState);
            },
            None => {},
        }
        let scope = join_space(&self.metadata.scopes);
        let query = build_auth_query(
            &self.metadata.client_id,
            &self.metadata.redirect_uris[0],
            &scope,
            &secrets.state,
            &secrets.pkce_verifier,
        );
        let mut url = meta.authorization_endpoint.clone();
        url.append("?");
        url.append(query.as_str());
        let session = SessionState {
            state: secrets.state.clone(),
            identifier: String::from_str(identifier),
            issuer: meta.issuer.clone(),
            token_endpoint: meta.token_endpoint.clone(),
            redirect_uri: self.metadata.redirect_uris[0].clone(),
            pkce_verifier: secrets.pkce_verifier.clone(),
            dpop_kid: clone_opt(&secrets.dpop_kid),
            scope,
            created_at: now,
        };
        self.sessions.set(secrets.state.as_str(), session);
        proof {
            self.issued@ = self.issued@.insert(secrets.state@);
            assert forall|k: Seq<char>| self.sessions.spec_has(k) implies self.issued@.contains(
                k,
            ) by {}
        }
        Ok(url)
    }

    /// The same parameters as the authorization query, as the body of a
    /// pushed authorization request; the caller may submit it to the
    /// server's PAR endpoint before redirecting.
    pub fn par_body(&self, secrets: &FlowSecrets) -> (r: Result<String, AuthError>)
        ensures
            r is Ok <==> self.metadata_of().redirect_uris@.len() > 0,
            r matches Ok(b) ==> b@ == spec_auth_query(
                self.metadata_of().client_id@,
                self.metadata_of().redirect_uris@[0]@,
                spec_join_space(record_views(self.metadata_of().scopes)),
                secrets.state@,
                secrets.pkce_verifier@,
            ),
            r is Err ==> r == Err::<String, AuthError>(AuthError::Malformed),
    {
        if self.metadata.redirect_uris.len() == 0 {
            return Err(AuthError::Malformed);
        }
        let scope = join_space(&self.metadata.scopes);
        Ok(
            build_auth_query(
                &self.metadata.client_id,
                &self.metadata.redirect_uris[0],
                &scope,
                &secrets.state,
                &secrets.pkce_verifier,
            ),
        )
    }

    /// Validates a callback against its stored session and hands back
    /// the token request to perform. A state parameter that no prior
    /// `authorize` issued is refused as `InvalidState`; an `iss`
    /// parameter that contradicts the stored issuer consumes the
    /// session and is refused the same way. The session itself stays
    /// until `callback_finish` decides the attempt.
    pub fn callback_begin(&mut self, params: &CallbackParams) -> (r: Result<
        TokenRequest,
        AuthError,
    >)
        requires
            old(self).wf(),
        ensures
            final(self).wf(),
            final(self).issued_of() == old(self).issued_of(),
            r is Ok <==> old(self).session_live(params.state@) && (params.iss matches Some(i)
                ==> i@ == old(self).session_at(params.state@).issuer@),
            !old(self).issued_of().contains(params.state@) ==> r == Err::<TokenRequest, AuthError>(
                AuthError::InvalidState,
            ),
            !old(self).session_live(params.state@) ==> r == Err::<TokenRequest, AuthError>(
                AuthError::InvalidState,
            ) && *final(self) == *old(self),
            old(self).session_live(params.state@) && (params.iss matches Some(i) && i@ != old(self).session_at(params.state@).issuer@) ==> r == Err::<TokenRequest, AuthError>(
                AuthError::InvalidState,
            ) && !final(self).session_live(params.state@),
            r matches Ok(req) ==> *final(self) == *old(self) && req.token_endpoint@ == old(self).session_at(params.state@).token_endpoint@ && req.body@ == spec_token_body(
                params.code@,
                old(self).session_at(params.state@).redirect_uri@,
                old(self).metadata_of().client_id@,
                old(self).session_at(params.state@).pkce_verifier@,
            ) && req.dpop_kid == old(self).session_at(params.state@).dpop_kid,
            forall|q: Seq<char>|
                q != params.state@ ==> (final(self).session_live(q) <==> old(self).session_live(
                    q,
                )) && (old(self).session_live(q) ==> final(self).session_at(q) == old(self).session_at(q)),
    {
        let sess = match self.sessions.get(params.state.as_str()) {
            None => {
                return Err(AuthError::InvalidState);
            },
            Some(s) => s,
        };
        if let Some(i) = &params.iss {
            if !crate::strutil::str_eq(i.as_str(), sess.issuer.as_str()) {
                self.sessions.del(params.state.as_str());
                return Err(AuthError::InvalidState);
            }
        }
        let body = build_token_body(
            &params.code,
            &sess.redirect_uri,
            &self.metadata.client_id,
            &sess.pkce_verifier,
        );
        Ok(
            TokenRequest {
                token_endpoint: sess.token_endpoint,
                body,
                dpop_kid: sess.dpop_kid,
            },
        )
    }

    /// Settles the attempt for `state` from the token-endpoint
    /// outcome. Tokens or a definite refusal consume the session, so a
    /// second callback with the same state fails `InvalidState` and the
    /// same state never succeeds twice; a transport failure leaves the
    /// session intact for the caller to retry the same callback.
    pub fn callback_finish(&mut self, state: &str, outcome: &TokenOutcome) -> (r: Result<
        TokenResult,
        AuthError,
    >)
        requires
            old(self).wf(),
        ensures
            final(self).wf(),
            final(self).issued_of() == old(self).issued_of(),
            r is Ok <==> old(self).session_live(state@) && outcome is Granted,
            r matches Ok(t) ==> (outcome matches TokenOutcome::Granted(t0) && t == *t0) && !final(self).session_live(state@),
            !old(self).session_live(state@) ==> r == Err::<TokenResult, AuthError>(
                AuthError::InvalidState,
            ) && *final(self) == *old(self),
            old(self).session_live(state@) && outcome is Denied ==> r == Err::<
                TokenResult,
                AuthError,
            >(AuthError::TokenExchangeFailed) && !final(self).session_live(state@),
            old(self).session_live(state@) && outcome is TransportFailed ==> r == Err::<
                TokenResult,
                AuthError,
            >(AuthError::Transport) && *final(self) == *old(self),
            forall|q: Seq<char>|
                q != state@ ==> (final(self).session_live(q) <==> old(self).session_live(q)) && (
                old(self).session_live(q) ==> final(self).session_at(q) == old(self).session_at(
                    q,
                )),
    {
        match self.sessions.get(state) {
            None => {
                return Err(AuthError::InvalidState);
            },
            Some(_) => {},
        }
        match outcome {
            TokenOutcome::Granted(t) => {
                self.sessions.del(state);
                Ok(t.clone())
            },
            TokenOutcome::Denied => {
                self.sessions.del(state);
                Err(AuthError::TokenExchangeFailed)
            },
            TokenOutcome::TransportFailed => Err(AuthError::Transport),
        }
    }
}

} // verus!
