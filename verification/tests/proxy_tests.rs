use docker_proxy::config::{AuthConfig, Config, LogConfig, ProxyConfig, ServerConfig};
use docker_proxy::error::ProxyError;
use docker_proxy::proxy::{
    interpret_head_blob, interpret_head_manifest, interpret_manifest_response, is_hop_by_hop_header,
    manifest_layer_size, parse_content_length, DockerProxy,
};

fn test_config(default: &str, ghcr_token: &str) -> Config {
    Config {
        server: ServerConfig {
            host: "0.0.0.0".to_string(),
            port: 8080,
        },
        log: LogConfig {
            log_file_path: "/tmp/test.log".to_string(),
            level: "info".to_string(),
        },
        proxy: ProxyConfig {
            default: default.to_string(),
        },
        auth: AuthConfig {
            ghcr_token: ghcr_token.to_string(),
        },
    }
}

#[test]
fn test_is_ghcr_registry() {
    let config = test_config("docker.io", "test_token");
    let proxy = DockerProxy::new(&config);

    assert!(proxy.is_ghcr_registry("https://ghcr.io/v2/test"));
    assert!(proxy.is_ghcr_registry("https://ghcr.io/owner/repo"));
    assert!(!proxy.is_ghcr_registry("https://docker.io/v2/test"));
    assert!(!proxy.is_ghcr_registry("https://registry-1.docker.io/v2/test"));
}

#[test]
fn test_split_registry_and_name() {
    let config = test_config("docker.io", "");
    let proxy = DockerProxy::new(&config);

    // Test with explicit registry
    let (registry, name) = proxy.split_registry_and_name("ghcr.io/vansour/docker-proxy");
    assert_eq!(registry, "https://ghcr.io");
    assert_eq!(name, "vansour/docker-proxy");

    // Test with docker.io registry
    let (registry, name) = proxy.split_registry_and_name("docker.io/library/ubuntu");
    assert_eq!(registry, "https://docker.io");
    assert_eq!(name, "library/ubuntu");

    // Test without registry (should use default and add library prefix)
    let (registry, name) = proxy.split_registry_and_name("ubuntu");
    assert_eq!(registry, "https://docker.io");
    assert_eq!(name, "library/ubuntu");

    // Test with owner/repo format
    let (registry, name) = proxy.split_registry_and_name("vansour/myimage");
    assert_eq!(registry, "https://docker.io");
    assert_eq!(name, "vansour/myimage");
}

#[test]
fn test_normalize_image_name() {
    let config = test_config("docker.io", "");
    let proxy = DockerProxy::new(&config);

    // Single name should get library prefix
    assert_eq!(proxy.normalize_image_name("ubuntu"), "library/ubuntu");
    assert_eq!(proxy.normalize_image_name("nginx"), "library/nginx");

    // Name with slash should remain unchanged
    assert_eq!(
        proxy.normalize_image_name("vansour/docker-proxy"),
        "vansour/docker-proxy"
    );
    assert_eq!(
        proxy.normalize_image_name("library/ubuntu"),
        "library/ubuntu"
    );
}

#[test]
fn test_get_registry_url() {
    let config = test_config("docker.io", "");
    let proxy = DockerProxy::new(&config);
    assert_eq!(proxy.get_registry_url(), "https://docker.io");
}

#[test]
fn test_registry_url_normalization() {
    // Test with protocol
    let config1 = test_config("https://ghcr.io", "");
    let proxy1 = DockerProxy::new(&config1);
    assert_eq!(proxy1.get_registry_url(), "https://ghcr.io");

    // Test without protocol
    let config2 = test_config("quay.io", "");
    let proxy2 = DockerProxy::new(&config2);
    assert_eq!(proxy2.get_registry_url(), "https://quay.io");
}

#[test]
fn test_request_urls() {
    let config = test_config("docker.io", "");
    let proxy = DockerProxy::new(&config);
    assert_eq!(
        proxy.manifest_url("ubuntu", "latest"),
        "https://docker.io/v2/library/ubuntu/manifests/latest"
    );
    assert_eq!(
        proxy.manifest_url("ghcr.io/owner/repo", "v1"),
        "https://ghcr.io/v2/owner/repo/manifests/v1"
    );
    assert_eq!(
        proxy.blob_url("ubuntu", "sha256:abcd"),
        "https://docker.io/v2/library/ubuntu/blobs/sha256:abcd"
    );
    assert_eq!(proxy.health_url(), "https://docker.io/v2/");
}

#[test]
fn test_initial_bearer() {
    let with_token = DockerProxy::new(&test_config("docker.io", "tok"));
    assert_eq!(
        with_token.initial_bearer("https://ghcr.io/v2/x"),
        Some("tok".to_string())
    );
    assert_eq!(with_token.initial_bearer("https://docker.io/v2/x"), None);

    let without = DockerProxy::new(&test_config("docker.io", ""));
    assert_eq!(without.initial_bearer("https://ghcr.io/v2/x"), None);
}

#[test]
fn test_initiate_blob_upload_rejected() {
    let proxy = DockerProxy::new(&test_config("docker.io", ""));
    assert_eq!(
        proxy.initiate_blob_upload("library/ubuntu"),
        Err(ProxyError::BlobUploadNotSupported)
    );
}

#[test]
fn test_health_probe_interpretation() {
    let proxy = DockerProxy::new(&test_config("docker.io", ""));
    assert!(proxy.interpret_health_probe(Some(200)));
    assert!(proxy.interpret_health_probe(Some(204)));
    assert!(proxy.interpret_health_probe(Some(401)));
    assert!(!proxy.interpret_health_probe(Some(404)));
    assert!(!proxy.interpret_health_probe(Some(500)));
    assert!(!proxy.interpret_health_probe(None));
}

#[test]
fn test_manifest_response_interpretation() {
    let ok = interpret_manifest_response(200, Some("application/x".to_string()), "body".to_string());
    assert_eq!(ok, Ok(("application/x".to_string(), "body".to_string())));

    // missing content type defaults
    let ok = interpret_manifest_response(200, None, "body".to_string());
    assert_eq!(ok, Ok(("application/json".to_string(), "body".to_string())));

    let err = interpret_manifest_response(404, None, String::new());
    assert_eq!(err, Err(ProxyError::ManifestNotFound { status: 404 }));
}

#[test]
fn test_head_manifest_interpretation() {
    let ok = interpret_head_manifest(200, Some("ct".to_string()), Some("123".to_string()));
    assert_eq!(ok, Ok(("ct".to_string(), 123)));

    let ok = interpret_head_manifest(200, None, Some("bogus".to_string()));
    assert_eq!(ok, Ok(("application/json".to_string(), 0)));

    let err = interpret_head_manifest(401, None, None);
    assert_eq!(err, Err(ProxyError::ManifestNotFound { status: 401 }));
}

#[test]
fn test_head_blob_interpretation() {
    assert_eq!(interpret_head_blob(200, Some("42".to_string())), Ok(42));
    assert_eq!(interpret_head_blob(200, None), Ok(0));
    assert_eq!(
        interpret_head_blob(404, Some("42".to_string())),
        Err(ProxyError::BlobNotFound { status: 404 })
    );
}

#[test]
fn test_head_blob_idempotent() {
    // same upstream answer, same content length, however often asked
    let first = interpret_head_blob(200, Some("8192".to_string()));
    let second = interpret_head_blob(200, Some("8192".to_string()));
    assert_eq!(first, second);
    assert_eq!(first, Ok(8192));
}

#[test]
fn test_parse_content_length_defaults() {
    assert_eq!(parse_content_length(Some("100".to_string())), 100);
    assert_eq!(parse_content_length(Some("nan".to_string())), 0);
    assert_eq!(parse_content_length(None), 0);
}

#[test]
fn test_hop_by_hop_headers() {
    assert!(is_hop_by_hop_header("connection"));
    assert!(is_hop_by_hop_header("Connection"));
    assert!(is_hop_by_hop_header("TRANSFER-ENCODING"));
    assert!(is_hop_by_hop_header("Upgrade"));
    assert!(!is_hop_by_hop_header("content-length"));
    assert!(!is_hop_by_hop_header("content-type"));
}

#[test]
fn test_manifest_layer_size() {
    let manifest = r#"{
        "schemaVersion": 2,
        "layers": [
            {"digest": "sha256:aaa", "size": 100},
            {"digest": "sha256:bbb", "size": 2048}
        ]
    }"#;
    assert_eq!(manifest_layer_size(manifest, "sha256:bbb"), 2048);
    assert_eq!(manifest_layer_size(manifest, "sha256:aaa"), 100);
    // no matching layer defaults to 0
    assert_eq!(manifest_layer_size(manifest, "sha256:ccc"), 0);
    // not JSON at all, or not the expected shape
    assert_eq!(manifest_layer_size("not json", "sha256:aaa"), 0);
    assert_eq!(manifest_layer_size("{}", "sha256:aaa"), 0);
    // a matching layer without a size counts as 0
    let no_size = r#"{"layers": [{"digest": "sha256:aaa"}]}"#;
    assert_eq!(manifest_layer_size(no_size, "sha256:aaa"), 0);
}
