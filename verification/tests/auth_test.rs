use docker_storage_proxy_registry::authentication_strategies::{
    AnonymousAuthStrategy, BearerTokenAuthStrategy, HttpBasicAuthStrategy, RequestDecoration,
    TokenGrant,
};
use docker_storage_proxy_registry::client::{
    DockerClient, DockerClientError, ProbeAction,
};
use docker_storage_proxy_registry::clients_store::DockerClientsStore;
use docker_storage_proxy_registry::www_authenticate::{
    AuthenticationChallenge, WwwAuthenticateError,
};

#[test]
fn challenge_parse_bearer() {
    let ch = AuthenticationChallenge::from_www_authenticate(
        "Bearer realm=\"https://auth/token\",service=\"r\"",
    )
    .unwrap();
    match &ch {
        AuthenticationChallenge::Bearer(params) => {
            assert_eq!(params.len(), 2);
            assert_eq!(params[0].0, "realm");
            assert_eq!(params[0].1, "https://auth/token");
            assert_eq!(params[1].0, "service");
            assert_eq!(params[1].1, "r");
        }
        _ => panic!("expected a bearer challenge"),
    }
    assert_eq!(ch.authentication_parameters().len(), 2);
}

#[test]
fn challenge_parse_tolerates_spaces() {
    let ch = AuthenticationChallenge::from_www_authenticate(
        "Bearer realm=\"https://auth/token\", service=\"r\",\tscope=\"s\"",
    )
    .unwrap();
    match &ch {
        AuthenticationChallenge::Bearer(params) => {
            assert_eq!(params.len(), 3);
            assert_eq!(params[1].0, "service");
            assert_eq!(params[1].1, "r");
            assert_eq!(params[2].0, "scope");
        }
        _ => panic!("expected a bearer challenge"),
    }
    let double_space =
        AuthenticationChallenge::from_www_authenticate("Basic  realm=\"host\"").unwrap();
    assert!(matches!(double_space, AuthenticationChallenge::Basic(_)));
}

#[test]
fn challenge_parse_basic_and_errors() {
    let ch = AuthenticationChallenge::from_www_authenticate("BASIC realm=\"host\"").unwrap();
    assert!(matches!(ch, AuthenticationChallenge::Basic(_)));
    assert!(matches!(
        AuthenticationChallenge::from_www_authenticate("Token realm=\"x\""),
        Err(WwwAuthenticateError::UnsupportedMethod(m)) if m == "token"
    ));
    assert!(matches!(
        AuthenticationChallenge::from_www_authenticate("garbage"),
        Err(WwwAuthenticateError::MissingMethod)
    ));
    assert!(matches!(
        AuthenticationChallenge::from_www_authenticate("Bearer realm="),
        Err(WwwAuthenticateError::MissingMethod)
    ));
}

#[test]
fn strategies_decorate_requests() {
    let anon = AnonymousAuthStrategy;
    assert!(matches!(anon.inject_authentication(), RequestDecoration::NoAuth));
    assert!(!anon.needs_reauthenticating());

    let basic = HttpBasicAuthStrategy::new("user", Some("pw"));
    match basic.inject_authentication() {
        RequestDecoration::Basic { username, password } => {
            assert_eq!(username, "user");
            assert_eq!(password.as_deref(), Some("pw"));
        }
        _ => panic!("expected basic decoration"),
    }
    assert!(!basic.needs_reauthenticating());

    let bearer = BearerTokenAuthStrategy::new("library/app", 5);
    assert_eq!(bearer.scope, "repository:library/app:pull");
    assert!(bearer.inject_authentication().is_err());
}

#[test]
fn bearer_token_request_building() {
    let bearer = BearerTokenAuthStrategy::new("r", 0);
    let params = vec![
        ("realm".to_string(), "https://auth/token".to_string()),
        ("service".to_string(), "reg".to_string()),
    ];
    let req = bearer.build_token_request(&params, None, None).unwrap();
    assert_eq!(req.url, "https://auth/token");
    assert_eq!(req.query, "service=reg&scope=repository:r:pull");
    assert_eq!(req.username, None);
    assert_eq!(req.password, None);

    let with_creds = bearer.build_token_request(&params, Some("u"), Some("pw")).unwrap();
    assert_eq!(with_creds.username.as_deref(), Some("u"));
    assert_eq!(with_creds.password.as_deref(), Some("pw"));

    let no_realm = vec![("service".to_string(), "reg".to_string())];
    assert!(matches!(
        bearer.build_token_request(&no_realm, None, None),
        Err(DockerClientError::BadAuthenticationCredentials)
    ));
}

#[test]
fn bearer_token_grant_handling() {
    let mut bearer = BearerTokenAuthStrategy::new("r", 0);
    assert!(matches!(
        bearer.execute_authentication(401, None, 0),
        Err(DockerClientError::BadAuthenticationCredentials)
    ));
    assert!(matches!(
        bearer.execute_authentication(503, None, 0),
        Err(DockerClientError::UnexpectedStatusCode(503))
    ));
    let empty = TokenGrant { token: "".to_string(), issued_at: None, expires_in: None };
    assert!(matches!(
        bearer.execute_authentication(200, Some(empty), 0),
        Err(DockerClientError::BadAuthenticationCredentials)
    ));
    let quirk = TokenGrant {
        token: "unauthenticated".to_string(),
        issued_at: None,
        expires_in: None,
    };
    assert!(matches!(
        bearer.execute_authentication(200, Some(quirk), 0),
        Err(DockerClientError::BadAuthenticationCredentials)
    ));
    let good = TokenGrant { token: "abc".to_string(), issued_at: None, expires_in: None };
    bearer.execute_authentication(200, Some(good), 40).unwrap();
    assert_eq!(bearer.token.as_deref(), Some("abc"));
    assert_eq!(bearer.created_at, 40);
    assert_eq!(bearer.expires_in, 60);
}

#[test]
fn bearer_issued_at_parsing() {
    let mut bearer = BearerTokenAuthStrategy::new("r", 0);
    let grant = TokenGrant {
        token: "tok".to_string(),
        issued_at: Some("1970-01-01T00:02:00Z".to_string()),
        expires_in: Some(30),
    };
    bearer.execute_authentication(200, Some(grant), 999).unwrap();
    assert_eq!(bearer.created_at, 120);
    assert_eq!(bearer.expires_in, 30);
}

#[test]
fn auth_state_transition() {
    // A 401 with a bearer challenge, a token endpoint answering
    // {"token":"abc","expires_in":1}: authentication succeeds,
    // needsReauth is false right away and true one second later.
    let mut client = DockerClient::new("registry.example.com", "library/app");
    assert_eq!(client.probe_url(), "https://registry.example.com/v2/");

    let action = client
        .authenticate_on_probe(
            401,
            Some("Bearer realm=\"https://auth/token\",service=\"r\""),
            None,
            None,
            1000,
        )
        .unwrap();
    let req = match action {
        ProbeAction::FetchToken(req) => req,
        _ => panic!("expected a token fetch"),
    };
    assert_eq!(req.url, "https://auth/token");
    assert_eq!(req.query, "service=r&scope=repository:library/app:pull");
    assert_eq!(req.username, None);
    assert_eq!(req.password, None);

    let grant = TokenGrant { token: "abc".to_string(), issued_at: None, expires_in: Some(1) };
    client.authenticate_on_token(200, Some(grant), 1000).unwrap();
    client.authenticate_on_verify(200).unwrap();

    assert!(!client.authentication_needs_revalidation(1000));
    assert!(client.authentication_needs_revalidation(1001));
}

#[test]
fn auth_probe_outcomes() {
    let mut c = DockerClient::new("reg", "app");
    assert!(matches!(
        c.authenticate_on_probe(500, None, None, None, 0),
        Err(DockerClientError::UnexpectedStatusCode(500))
    ));
    assert!(matches!(
        c.authenticate_on_probe(401, None, None, None, 0),
        Err(DockerClientError::MissingProxyHeader(h)) if h == "WWW-Authenticate"
    ));
    assert!(matches!(
        c.authenticate_on_probe(401, Some("Basic realm=\"x\""), None, None, 0),
        Err(DockerClientError::BadAuthenticationCredentials)
    ));
    let a = c
        .authenticate_on_probe(401, Some("Basic realm=\"x\""), Some("u"), Some("p"), 0)
        .unwrap();
    assert!(matches!(a, ProbeAction::VerifyBasic));
    // A failed verification discards the tentative credentials.
    assert!(matches!(
        c.authenticate_on_verify(401),
        Err(DockerClientError::BadAuthenticationCredentials)
    ));
    assert!(c.auth_strat.is_none());
    // Anonymous adoption on a 200 probe.
    let mut c2 = DockerClient::new("reg", "app");
    assert!(matches!(c2.authenticate_on_probe(200, None, None, None, 0), Ok(ProbeAction::Done)));
    assert!(!c2.authentication_needs_revalidation(12345));
}

#[test]
fn probe_reports_challenge_parse_failures() {
    let mut c = DockerClient::new("reg", "app");
    assert!(matches!(
        c.authenticate_on_probe(401, Some("Token realm=\"x\""), None, None, 0),
        Err(DockerClientError::WwwAuthenticateParseError(_))
    ));
    assert!(c.auth_strat.is_none());
}

#[test]
fn unreadable_token_body_is_a_transport_error() {
    let mut c = DockerClient::new("reg", "app");
    c.authenticate_on_probe(401, Some("Bearer realm=\"https://a\""), None, None, 0)
        .unwrap();
    assert!(matches!(
        c.authenticate_on_token(200, None, 0),
        Err(DockerClientError::ReqwestError(_))
    ));
    assert!(c.auth_strat.is_none());
}

#[test]
fn token_step_without_bearer_state_is_misuse() {
    let mut c = DockerClient::new("reg", "app");
    assert!(matches!(
        c.authenticate_on_token(200, None, 0),
        Err(DockerClientError::UninitiatedAuthentication)
    ));
}

#[test]
fn token_failure_discards_state() {
    let mut c = DockerClient::new("reg", "app");
    c.authenticate_on_probe(401, Some("Bearer realm=\"https://a\""), None, None, 0)
        .unwrap();
    assert!(c.auth_strat.is_some());
    assert!(matches!(
        c.authenticate_on_token(401, None, 0),
        Err(DockerClientError::BadAuthenticationCredentials)
    ));
    assert!(c.auth_strat.is_none());
}

#[test]
fn manifest_response_judging() {
    let c = DockerClient::new("reg", "app");
    assert!(matches!(
        c.on_manifest_response(404, None, None, None),
        Err(DockerClientError::UnexpectedStatusCode(404))
    ));
    assert!(matches!(
        c.on_manifest_response(200, None, Some("t"), Some("1")),
        Err(DockerClientError::MissingProxyHeader(h)) if h == "Docker-Content-Digest"
    ));
    assert!(matches!(
        c.on_manifest_response(200, Some("sha256:x"), None, Some("1")),
        Err(DockerClientError::MissingProxyHeader(h)) if h == "Content-Type"
    ));
    assert!(matches!(
        c.on_manifest_response(200, Some("sha256:x"), Some("t"), None),
        Err(DockerClientError::MissingProxyHeader(h)) if h == "Content-Length"
    ));
    assert!(matches!(
        c.on_manifest_response(200, Some("sha256:x"), Some("t"), Some("12x")),
        Err(DockerClientError::MissingProxyHeader(h)) if h == "Content-Length"
    ));
    let ok = c
        .on_manifest_response(200, Some("sha256:x"), Some("application/json"), Some("42"))
        .unwrap();
    assert_eq!(ok.hash, "sha256:x");
    assert_eq!(ok.content_type, "application/json");
    assert_eq!(ok.content_length, 42);

    let blob = c.on_blob_response(200, None, Some("7")).unwrap();
    assert_eq!(blob.hash, None);
    assert_eq!(blob.content_length, 7);
}

#[test]
fn request_planning_requires_authentication() {
    let mut c = DockerClient::new("registry.example.com", "library/app");
    assert!(matches!(
        c.manifest_request("v1", true),
        Err(DockerClientError::UninitiatedAuthentication)
    ));
    c.authenticate_on_probe(200, None, None, None, 0).unwrap();
    let plan = c.manifest_request("v1", true).unwrap();
    assert!(plan.head);
    assert_eq!(plan.url, "https://registry.example.com/v2/library/app/manifests/v1");
    let blob_plan = c.blob_request("sha256:x").unwrap();
    assert!(!blob_plan.head);
    assert_eq!(blob_plan.url, "https://registry.example.com/v2/library/app/blobs/sha256:x");
}

#[test]
fn clients_store_caches_and_revalidates() {
    let mut store = DockerClientsStore::new();
    assert!(store.get_client("reg/app", 0).is_none());

    let mut fresh = DockerClient::new("reg", "app");
    fresh.authenticate_on_probe(200, None, None, None, 0).unwrap();
    store.insert_client("reg/app", fresh);
    assert!(store.get_client("reg/app", 10_000).is_some());

    // A client whose bearer token has expired is not served.
    let mut stale = DockerClient::new("reg2", "app");
    stale
        .authenticate_on_probe(401, Some("Bearer realm=\"https://a\""), None, None, 0)
        .unwrap();
    let grant = TokenGrant { token: "tok".to_string(), issued_at: None, expires_in: Some(1) };
    stale.authenticate_on_token(200, Some(grant), 0).unwrap();
    store.insert_client("reg2/app", stale);
    assert!(store.get_client("reg2/app", 0).is_some());
    assert!(store.get_client("reg2/app", 5).is_none());
}
