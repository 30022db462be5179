use docker_proxy::auth::{
    build_token_url, decide_after_first, extract_token, parse_www_authenticate, select_token,
    AuthDecision,
};
use docker_proxy::error::ProxyError;
use docker_proxy::proxy::interpret_manifest_response;

#[test]
fn test_parse_www_authenticate() {
    // Test standard Docker Hub auth header
    let header = r#"Bearer realm="https://auth.docker.io/token",service="registry.docker.io",scope="repository:library/ubuntu:pull""#;
    let params = parse_www_authenticate(header);

    assert_eq!(
        params.get("realm"),
        Some(&"https://auth.docker.io/token".to_string())
    );
    assert_eq!(
        params.get("service"),
        Some(&"registry.docker.io".to_string())
    );
    assert_eq!(
        params.get("scope"),
        Some(&"repository:library/ubuntu:pull".to_string())
    );

    // Test GHCR auth header
    let ghcr_header =
        r#"Bearer realm="https://ghcr.io/token",service="ghcr.io",scope="repository:vansour/docker-proxy:pull""#;
    let ghcr_params = parse_www_authenticate(ghcr_header);

    assert_eq!(
        ghcr_params.get("realm"),
        Some(&"https://ghcr.io/token".to_string())
    );
    assert_eq!(ghcr_params.get("service"), Some(&"ghcr.io".to_string()));
}

#[test]
fn test_parse_www_authenticate_edges() {
    // no parameters at all
    let none = parse_www_authenticate("Bearer");
    assert_eq!(none.get("realm"), None);

    // unquoted values, stray spaces, a piece without `=`
    let odd = parse_www_authenticate("Bearer realm = https://r , x, service=\"s\"");
    assert_eq!(odd.get("realm"), Some(&"https://r".to_string()));
    assert_eq!(odd.get("service"), Some(&"s".to_string()));
    assert_eq!(odd.get("x"), None);

    // a repeated key: the last occurrence wins
    let dup = parse_www_authenticate(r#"Bearer realm="a",realm="b""#);
    assert_eq!(dup.get("realm"), Some(&"b".to_string()));
}

#[test]
fn test_build_token_url() {
    assert_eq!(
        build_token_url(
            "https://auth.docker.io/token",
            Some(&"registry.docker.io".to_string()),
            Some(&"repository:library/ubuntu:pull".to_string())
        ),
        "https://auth.docker.io/token?service=registry.docker.io&scope=repository:library/ubuntu:pull"
    );
    // realm that already carries a query: the first parameter joins with `&`
    assert_eq!(
        build_token_url("https://r/token?x=1", Some(&"s".to_string()), None),
        "https://r/token?x=1&service=s"
    );
    // scope without service
    assert_eq!(
        build_token_url("https://r/token", None, Some(&"sc".to_string())),
        "https://r/token?scope=sc"
    );
    // bare realm
    assert_eq!(build_token_url("https://r/token", None, None), "https://r/token");
}

#[test]
fn test_decide_after_first() {
    // anything but 401 passes through
    match decide_after_first(200, None) {
        AuthDecision::Respond { status } => assert_eq!(status, 200),
        _ => panic!("expected pass-through"),
    }
    match decide_after_first(404, Some("Bearer realm=\"r\"")) {
        AuthDecision::Respond { status } => assert_eq!(status, 404),
        _ => panic!("expected pass-through"),
    }

    // 401 without a challenge header
    match decide_after_first(401, None) {
        AuthDecision::Fail { err } => assert_eq!(err, ProxyError::MissingAuthHeader),
        _ => panic!("expected MissingAuthHeader"),
    }

    // 401 whose challenge names no realm
    match decide_after_first(401, Some("Bearer service=\"s\"")) {
        AuthDecision::Fail { err } => assert_eq!(err, ProxyError::MissingAuthRealm),
        _ => panic!("expected MissingAuthRealm"),
    }

    // 401 with a full challenge: one token exchange at the built URL
    let header = r#"Bearer realm="https://auth.docker.io/token",service="registry.docker.io",scope="repository:library/ubuntu:pull""#;
    match decide_after_first(401, Some(header)) {
        AuthDecision::NeedToken { token_url } => assert_eq!(
            token_url,
            "https://auth.docker.io/token?service=registry.docker.io&scope=repository:library/ubuntu:pull"
        ),
        _ => panic!("expected a token exchange"),
    }
}

#[test]
fn test_extract_token() {
    assert_eq!(
        extract_token(200, r#"{"token": "abc"}"#),
        Ok("abc".to_string())
    );
    assert_eq!(
        extract_token(200, r#"{"access_token": "xyz"}"#),
        Ok("xyz".to_string())
    );
    // `token` wins over `access_token`
    assert_eq!(
        extract_token(200, r#"{"token": "a", "access_token": "b"}"#),
        Ok("a".to_string())
    );
    assert_eq!(
        extract_token(503, r#"{"token": "abc"}"#),
        Err(ProxyError::TokenRequestFailed { status: 503 })
    );
    assert_eq!(extract_token(200, "not json"), Err(ProxyError::TokenParseFailed));
    assert_eq!(extract_token(200, "{}"), Err(ProxyError::TokenNotFound));
}

#[test]
fn test_select_token() {
    assert_eq!(
        select_token(Some("a".to_string()), Some("b".to_string())),
        Ok("a".to_string())
    );
    assert_eq!(select_token(None, Some("b".to_string())), Ok("b".to_string()));
    assert_eq!(select_token(None, None), Err(ProxyError::TokenNotFound));
}

#[test]
fn test_auth_flow_single_token_exchange() {
    // A simulated upstream: 401 with a valid challenge, then 200 once a
    // token is supplied. The engine asks for a token exactly once.
    let mut token_requests = 0;

    let header = r#"Bearer realm="https://auth.example/token",service="reg.example""#;
    let token_url = match decide_after_first(401, Some(header)) {
        AuthDecision::NeedToken { token_url } => {
            token_requests += 1;
            token_url
        }
        _ => panic!("expected a token exchange"),
    };
    assert_eq!(token_url, "https://auth.example/token?service=reg.example");

    // the simulated token endpoint grants a token
    let token = extract_token(200, r#"{"token": "granted"}"#).unwrap();
    assert_eq!(token, "granted");

    // the retried request succeeds and its outcome is final: no decision
    // exists that could ask for a second token
    let result = interpret_manifest_response(
        200,
        Some("application/vnd.docker.distribution.manifest.v2+json".to_string()),
        "{}".to_string(),
    );
    assert!(result.is_ok());
    assert_eq!(token_requests, 1);
}

#[test]
fn test_error_messages() {
    assert_eq!(ProxyError::Network.message(), "Network request failed");
    assert_eq!(
        ProxyError::ManifestNotFound { status: 404 }.message(),
        "Manifest not found: 404"
    );
    assert_eq!(
        ProxyError::BlobNotFound { status: 410 }.message(),
        "Blob not found: 410"
    );
    assert_eq!(
        ProxyError::ResponseReadError.message(),
        "Failed to read response body"
    );
    assert_eq!(
        ProxyError::BlobUploadNotSupported.message(),
        "Blob upload not supported"
    );
    assert_eq!(
        ProxyError::MissingAuthHeader.message(),
        "Missing WWW-Authenticate header"
    );
    assert_eq!(
        ProxyError::MissingAuthRealm.message(),
        "Missing realm in WWW-Authenticate header"
    );
    assert_eq!(
        ProxyError::TokenRequestFailed { status: 500 }.message(),
        "Token request failed: 500"
    );
    assert_eq!(
        ProxyError::TokenParseFailed.message(),
        "Failed to parse token response"
    );
    assert_eq!(
        ProxyError::TokenNotFound.message(),
        "Token not found in response"
    );
    assert_eq!(ProxyError::InvalidRegistryUrl.message(), "Invalid registry URL");
    assert_eq!(ProxyError::InternalError.message(), "Internal error");
}
