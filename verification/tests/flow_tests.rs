use atproto_oauth::errors::AuthError;
use atproto_oauth::flow::pkce_challenge;
use atproto_oauth::flow::AuthServerMetadata;
use atproto_oauth::flow::CallbackParams;
use atproto_oauth::flow::ClientMetadata;
use atproto_oauth::flow::FlowOrchestrator;
use atproto_oauth::flow::FlowSecrets;
use atproto_oauth::flow::TokenOutcome;
use atproto_oauth::flow::TokenResult;
use atproto_oauth::store::SessionState;
use atproto_oauth::store::WasmStateStore;
use atproto_oauth::store::WasmStateStoreError;

fn client_metadata() -> ClientMetadata {
    ClientMetadata {
        client_id: "https://app.example/client.json".to_string(),
        redirect_uris: vec!["https://app.example/callback".to_string()],
        scopes: vec!["atproto".to_string(), "transition:generic".to_string()],
        grant_types: vec!["authorization_code".to_string(), "refresh_token".to_string()],
        token_endpoint_auth_method: "private_key_jwt".to_string(),
    }
}

fn server_metadata() -> AuthServerMetadata {
    AuthServerMetadata {
        issuer: "https://auth.example".to_string(),
        authorization_endpoint: "https://auth.example/oauth/authorize".to_string(),
        token_endpoint: "https://auth.example/oauth/token".to_string(),
        par_endpoint: None,
    }
}

fn secrets(state: &str) -> FlowSecrets {
    FlowSecrets {
        state: state.to_string(),
        pkce_verifier: "dBjftJeZ4CVP-mB92K27uhbUJU1p1r_wW1gFWFOEjXk".to_string(),
        dpop_kid: None,
    }
}

fn orchestrator() -> FlowOrchestrator {
    FlowOrchestrator::new(client_metadata(), &vec![]).unwrap()
}

#[test]
fn pkce_challenge_matches_known_vector() {
    // The S256 example pair from the PKCE specification.
    let c = pkce_challenge("dBjftJeZ4CVP-mB92K27uhbUJU1p1r_wW1gFWFOEjXk");
    assert_eq!(c, "E9Melhoa2OwvFrEMTJguCHaoeK1t8URWbuGJSstw-cM");
}

#[test]
fn authorize_builds_exact_url() {
    let mut o = orchestrator();
    let url = o.authorize("alice.example", &server_metadata(), &secrets("st-1"), 100).unwrap();
    let expected = "https://auth.example/oauth/authorize?response_type=code&client_id=https%3A%2F%2Fapp.example%2Fclient.json&redirect_uri=https%3A%2F%2Fapp.example%2Fcallback&scope=atproto%20transition%3Ageneric&state=st-1&code_challenge=E9Melhoa2OwvFrEMTJguCHaoeK1t8URWbuGJSstw-cM&code_challenge_method=S256";
    assert_eq!(url, expected);
}

#[test]
fn par_body_is_the_authorization_query() {
    let mut o = orchestrator();
    let url = o.authorize("alice.example", &server_metadata(), &secrets("st-1"), 100).unwrap();
    let o2 = orchestrator();
    let body = o2.par_body(&secrets("st-1")).unwrap();
    assert_eq!(url, format!("https://auth.example/oauth/authorize?{}", body));
}

#[test]
fn authorize_rejects_bad_inputs() {
    let mut o = orchestrator();
    let mut bad_meta = server_metadata();
    bad_meta.authorization_endpoint = "http://auth.example/authorize".to_string();
    assert!(matches!(
        o.authorize("a.b", &bad_meta, &secrets("s"), 0),
        Err(AuthError::Malformed)
    ));
    let mut empty_state = secrets("");
    empty_state.state = String::new();
    assert!(matches!(
        o.authorize("a.b", &server_metadata(), &empty_state, 0),
        Err(AuthError::Malformed)
    ));
}

#[test]
fn authorize_refuses_live_state_token() {
    let mut o = orchestrator();
    assert!(o.authorize("a.example", &server_metadata(), &secrets("dup"), 0).is_ok());
    assert!(matches!(
        o.authorize("a.example", &server_metadata(), &secrets("dup"), 1),
        Err(AuthError::InvalidState)
    ));
}

#[test]
fn callback_with_unissued_state_fails_invalid_state() {
    // A state parameter never issued by a prior authorize is refused.
    let mut o = orchestrator();
    let params = CallbackParams {
        state: "never-issued".to_string(),
        code: "code".to_string(),
        iss: None,
    };
    assert!(matches!(o.callback_begin(&params), Err(AuthError::InvalidState)));
}

fn granted() -> TokenOutcome {
    TokenOutcome::Granted(TokenResult {
        access_token: "at-123".to_string(),
        token_type: "DPoP".to_string(),
        refresh_token: Some("rt-456".to_string()),
        expires_in: Some(3600),
        scope: Some("atproto".to_string()),
        sub: Some("did:plc:abc".to_string()),
    })
}

#[test]
fn round_trip_returns_the_token_document() {
    // authorize followed by a well-formed callback with matching state,
    // against a token endpoint stub that returns a fixed document,
    // yields exactly that document.
    let mut o = orchestrator();
    o.authorize("alice.example", &server_metadata(), &secrets("st-rt"), 7).unwrap();
    let params = CallbackParams {
        state: "st-rt".to_string(),
        code: "authcode".to_string(),
        iss: Some("https://auth.example".to_string()),
    };
    let req = o.callback_begin(&params).unwrap();
    assert_eq!(req.token_endpoint, "https://auth.example/oauth/token");
    let expected_body = "grant_type=authorization_code&code=authcode&redirect_uri=https%3A%2F%2Fapp.example%2Fcallback&client_id=https%3A%2F%2Fapp.example%2Fclient.json&code_verifier=dBjftJeZ4CVP-mB92K27uhbUJU1p1r_wW1gFWFOEjXk";
    assert_eq!(req.body, expected_body);
    assert_eq!(req.dpop_kid, None);
    let tokens = o.callback_finish("st-rt", &granted()).unwrap();
    assert_eq!(tokens.access_token, "at-123");
    assert_eq!(tokens.token_type, "DPoP");
    assert_eq!(tokens.refresh_token.as_deref(), Some("rt-456"));
    assert_eq!(tokens.expires_in, Some(3600));
    assert_eq!(tokens.scope.as_deref(), Some("atproto"));
    assert_eq!(tokens.sub.as_deref(), Some("did:plc:abc"));
}

#[test]
fn callback_same_state_succeeds_at_most_once() {
    // A second callback with the same valid state fails InvalidState.
    let mut o = orchestrator();
    o.authorize("alice.example", &server_metadata(), &secrets("st-once"), 7).unwrap();
    let params = CallbackParams {
        state: "st-once".to_string(),
        code: "authcode".to_string(),
        iss: None,
    };
    o.callback_begin(&params).unwrap();
    assert!(o.callback_finish("st-once", &granted()).is_ok());
    assert!(matches!(o.callback_begin(&params), Err(AuthError::InvalidState)));
    assert!(matches!(
        o.callback_finish("st-once", &granted()),
        Err(AuthError::InvalidState)
    ));
}

#[test]
fn denied_exchange_consumes_the_session() {
    let mut o = orchestrator();
    o.authorize("alice.example", &server_metadata(), &secrets("st-d"), 7).unwrap();
    assert!(matches!(
        o.callback_finish("st-d", &TokenOutcome::Denied),
        Err(AuthError::TokenExchangeFailed)
    ));
    assert!(matches!(
        o.callback_finish("st-d", &granted()),
        Err(AuthError::InvalidState)
    ));
}

#[test]
fn transport_failure_keeps_the_session_for_retry() {
    let mut o = orchestrator();
    o.authorize("alice.example", &server_metadata(), &secrets("st-t"), 7).unwrap();
    assert!(matches!(
        o.callback_finish("st-t", &TokenOutcome::TransportFailed),
        Err(AuthError::Transport)
    ));
    assert!(o.callback_finish("st-t", &granted()).is_ok());
}

#[test]
fn issuer_mismatch_consumes_the_session() {
    let mut o = orchestrator();
    o.authorize("alice.example", &server_metadata(), &secrets("st-i"), 7).unwrap();
    let params = CallbackParams {
        state: "st-i".to_string(),
        code: "c".to_string(),
        iss: Some("https://evil.example".to_string()),
    };
    assert!(matches!(o.callback_begin(&params), Err(AuthError::InvalidState)));
    let retry = CallbackParams { state: "st-i".to_string(), code: "c".to_string(), iss: None };
    assert!(matches!(o.callback_begin(&retry), Err(AuthError::InvalidState)));
}

#[test]
fn orchestrator_fails_fast_on_bad_key() {
    assert!(matches!(
        FlowOrchestrator::new(client_metadata(), &vec!["bad pem".to_string()]),
        Err(AuthError::KeyParseError)
    ));
}

#[test]
fn client_metadata_round_trips() {
    let o = orchestrator();
    let m = o.client_metadata();
    assert_eq!(m.client_id, "https://app.example/client.json");
    assert_eq!(m.redirect_uris, vec!["https://app.example/callback".to_string()]);
    assert_eq!(m.scopes.len(), 2);
    assert_eq!(m.token_endpoint_auth_method, "private_key_jwt");
    assert_eq!(o.jwks().len(), 0);
}

fn session(state: &str) -> SessionState {
    SessionState {
        state: state.to_string(),
        identifier: "alice.example".to_string(),
        issuer: "https://auth.example".to_string(),
        token_endpoint: "https://auth.example/oauth/token".to_string(),
        redirect_uri: "https://app.example/callback".to_string(),
        pkce_verifier: "v".to_string(),
        dpop_kid: None,
        scope: "atproto".to_string(),
        created_at: 0,
    }
}

#[test]
fn state_store_read_your_writes_per_key() {
    let mut s = WasmStateStore::new();
    assert!(s.get("k").is_none());
    s.set("k", session("k"));
    let got = s.get("k").unwrap();
    assert_eq!(got.identifier, "alice.example");
    s.set("k", session("k2"));
    assert_eq!(s.get("k").unwrap().state, "k2");
    s.del("k");
    assert!(s.get("k").is_none());
    s.del("k");
}

#[test]
fn state_store_clear_is_unsupported() {
    let mut s = WasmStateStore::new();
    s.set("k", session("k"));
    assert!(matches!(s.clear(), Err(WasmStateStoreError::Unsupported)));
    assert!(s.get("k").is_some());
}
