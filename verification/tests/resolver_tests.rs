use atproto_oauth::errors::AuthError;
use atproto_oauth::identity::Did;
use atproto_oauth::identity::DidMethod;
use atproto_oauth::identity::Handle;
use atproto_oauth::resolver::decide_did;
use atproto_oauth::resolver::decide_handle;
use atproto_oauth::resolver::did_fetch_url;
use atproto_oauth::resolver::handle_fetch_plan;
use atproto_oauth::resolver::identify;
use atproto_oauth::resolver::issuer_of;
use atproto_oauth::resolver::DidDocument;
use atproto_oauth::resolver::FetchOutcome;
use atproto_oauth::resolver::Identifier;
use atproto_oauth::resolver::IdentityResolver;
use atproto_oauth::resolver::ServiceEndpoint;

fn handle(s: &str) -> Handle {
    Handle::parse(s.to_string()).unwrap()
}

fn did(s: &str) -> Did {
    Did::parse(s.to_string()).unwrap()
}

#[test]
fn handle_syntax_accepts_domains() {
    assert!(Handle::parse("alice.example".to_string()).is_ok());
    assert!(Handle::parse("a1-b.test.example.com".to_string()).is_ok());
}

#[test]
fn handle_syntax_rejects_bad_shapes() {
    for bad in [
        "", "alice", ".alice.example", "alice.example.", "al..ice.example", "-alice.example",
        "alice.-example", "alice-.example", "Alice.example", "al ice.example",
    ] {
        assert!(
            matches!(Handle::parse(bad.to_string()), Err(AuthError::Malformed)),
            "accepted {:?}",
            bad
        );
    }
}

#[test]
fn handle_syntax_rejects_overlong() {
    let long = format!("{}.example", "a".repeat(250));
    assert!(matches!(Handle::parse(long), Err(AuthError::Malformed)));
}

#[test]
fn did_syntax_accepts_method_tagged_ids() {
    assert!(Did::parse("did:plc:ewvi7nxzyoun6zhxrhs64oiz".to_string()).is_ok());
    assert!(Did::parse("did:web:example.com".to_string()).is_ok());
    assert!(Did::parse("did:key:zQ3shunBKsXixLxKtC5qeSG9E4J5RkGN57im31pcTzbNQnm5w".to_string()).is_ok());
}

#[test]
fn did_syntax_rejects_bad_shapes() {
    for bad in ["", "did:", "did:plc", "did:plc:", "did::x", "did:PLC:x", "plc:x", "did:plc:a b"] {
        assert!(
            matches!(Did::parse(bad.to_string()), Err(AuthError::Malformed)),
            "accepted {:?}",
            bad
        );
    }
}

#[test]
fn did_method_dispatch() {
    assert_eq!(did("did:plc:abc").method(), DidMethod::Plc);
    assert_eq!(did("did:web:example.com").method(), DidMethod::Web);
    assert_eq!(did("did:key:zabc").method(), DidMethod::Other);
}

#[test]
fn identify_splits_dids_and_handles() {
    assert!(matches!(identify("did:plc:abc".to_string()), Ok(Identifier::ById(_))));
    assert!(matches!(identify("alice.example".to_string()), Ok(Identifier::ByName(_))));
    assert!(matches!(identify("did:bogus".to_string()), Err(AuthError::Malformed)));
    assert!(matches!(identify("no-dot".to_string()), Err(AuthError::Malformed)));
}

#[test]
fn handle_fetch_plan_locations() {
    let p = handle_fetch_plan(&handle("alice.example"));
    assert_eq!(p.dns_name, "_atproto.alice.example");
    assert_eq!(p.wellknown_url, "https://alice.example/.well-known/atproto-did");
}

#[test]
fn decide_handle_prefers_dns_record() {
    let dns = FetchOutcome::Fetched(vec![
        "unrelated".to_string(),
        "did=did:plc:abc".to_string(),
        "did=did:plc:other".to_string(),
    ]);
    let wk = FetchOutcome::Missing;
    let d = decide_handle(&dns, &wk).unwrap();
    assert_eq!(d.as_str(), "did:plc:abc");
}

#[test]
fn decide_handle_malformed_dns_candidate() {
    let dns = FetchOutcome::Fetched(vec!["did=not a did".to_string()]);
    let wk = FetchOutcome::Fetched("did:plc:abc".to_string());
    assert!(matches!(decide_handle(&dns, &wk), Err(AuthError::Malformed)));
}

#[test]
fn decide_handle_falls_back_to_wellknown() {
    let dns = FetchOutcome::Fetched(vec!["other".to_string()]);
    let wk = FetchOutcome::Fetched("  did:web:alice.example\n".to_string());
    let d = decide_handle(&dns, &wk).unwrap();
    assert_eq!(d.as_str(), "did:web:alice.example");
}

#[test]
fn decide_handle_not_found_when_neither_succeeds() {
    let dns: FetchOutcome<Vec<String>> = FetchOutcome::Missing;
    let wk = FetchOutcome::Missing;
    assert!(matches!(decide_handle(&dns, &wk), Err(AuthError::NotFound)));
}

#[test]
fn decide_handle_transport_errors_surface() {
    let dns: FetchOutcome<Vec<String>> = FetchOutcome::TransportFailed;
    let wk = FetchOutcome::Missing;
    assert!(matches!(decide_handle(&dns, &wk), Err(AuthError::Transport)));
    let dns2: FetchOutcome<Vec<String>> = FetchOutcome::Missing;
    let wk2: FetchOutcome<String> = FetchOutcome::TransportFailed;
    assert!(matches!(decide_handle(&dns2, &wk2), Err(AuthError::Transport)));
}

#[test]
fn did_fetch_url_by_method() {
    let u = did_fetch_url(&did("did:plc:abc"), "https://plc.directory").unwrap();
    assert_eq!(u, "https://plc.directory/did:plc:abc");
    let u = did_fetch_url(&did("did:web:alice.example"), "https://plc.directory").unwrap();
    assert_eq!(u, "https://alice.example/.well-known/did.json");
    assert!(matches!(
        did_fetch_url(&did("did:key:zabc"), "https://plc.directory"),
        Err(AuthError::NotFound)
    ));
    assert!(matches!(
        did_fetch_url(&did("did:web:not_a_domain"), "https://plc.directory"),
        Err(AuthError::Malformed)
    ));
}

fn pds(endpoint: &str) -> ServiceEndpoint {
    ServiceEndpoint {
        id: "#atproto_pds".to_string(),
        service_type: "AtprotoPersonalDataServer".to_string(),
        endpoint: endpoint.to_string(),
    }
}

#[test]
fn issuer_extraction() {
    let doc = DidDocument {
        id: "did:plc:abc".to_string(),
        services: vec![
            ServiceEndpoint {
                id: "#other".to_string(),
                service_type: "SomethingElse".to_string(),
                endpoint: "https://other.example".to_string(),
            },
            pds("https://pds.example"),
        ],
    };
    assert_eq!(issuer_of(&doc).unwrap(), "https://pds.example");
    let empty = DidDocument { id: "did:plc:abc".to_string(), services: vec![] };
    assert!(matches!(issuer_of(&empty), Err(AuthError::NoAuthServer)));
}

#[test]
fn decide_did_validates_document_id() {
    let d = did("did:plc:abc");
    let doc = DidDocument { id: "did:plc:abc".to_string(), services: vec![pds("https://p.example")] };
    assert!(decide_did(&d, &FetchOutcome::Fetched(doc)).is_ok());
    let wrong = DidDocument { id: "did:plc:other".to_string(), services: vec![] };
    assert!(matches!(
        decide_did(&d, &FetchOutcome::Fetched(wrong)),
        Err(AuthError::Malformed)
    ));
    assert!(matches!(decide_did(&d, &FetchOutcome::Missing), Err(AuthError::NotFound)));
    assert!(matches!(
        decide_did(&d, &FetchOutcome::TransportFailed),
        Err(AuthError::Transport)
    ));
}

#[test]
fn cached_resolution_issues_no_second_upstream_call() {
    // Resolving the same DID twice within the TTL: the first resolution
    // goes upstream (the caller leads a flight and fulfills it), the
    // second is served from the cache, observable as lookup() == Some
    // with no new flight joined.
    let mut r = IdentityResolver::new("https://plc.directory".to_string());
    let d = did("did:plc:abc");
    let now = 1000;
    assert!(r.handles.lookup("alice.example", now).is_none());
    assert!(r.handles.join("alice.example"));
    r.handles.fulfill_ok("alice.example", d, now);
    let first = r.handles.collect("alice.example").unwrap().unwrap();
    assert_eq!(first.as_str(), "did:plc:abc");
    // second resolution, still within the TTL: cache answers
    let second = r.handles.lookup("alice.example", now + 100).unwrap();
    assert_eq!(second.as_str(), "did:plc:abc");
    // after the TTL the cache no longer answers and a new flight leads
    assert!(r.handles.lookup("alice.example", now + 100_000).is_none());
    assert!(r.handles.join("alice.example"));
}

#[test]
fn failed_resolution_is_not_cached() {
    let mut r = IdentityResolver::new("https://plc.directory".to_string());
    assert!(r.handles.join("alice.example"));
    r.handles.fulfill_err("alice.example", AuthError::NotFound);
    let res = r.handles.collect("alice.example").unwrap();
    assert!(matches!(res, Err(AuthError::NotFound)));
    assert!(r.handles.lookup("alice.example", 5).is_none());
}
