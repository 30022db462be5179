use docker_proxy::router::{parse_v2_path, V2Endpoint};

#[test]
fn test_parse_manifest_endpoint() {
    let endpoint = parse_v2_path("library/ubuntu/manifests/latest");
    assert_eq!(
        endpoint,
        V2Endpoint::Manifest {
            name: "library/ubuntu".to_string(),
            reference: "latest".to_string()
        }
    );

    // Test with nested repository names
    let endpoint = parse_v2_path("ghcr.io/vansour/docker-proxy/manifests/v1.0.0");
    assert_eq!(
        endpoint,
        V2Endpoint::Manifest {
            name: "ghcr.io/vansour/docker-proxy".to_string(),
            reference: "v1.0.0".to_string()
        }
    );
}

#[test]
fn test_parse_blob_endpoint() {
    let endpoint = parse_v2_path("library/ubuntu/blobs/sha256:abcdef1234567890abcdef1234567890");
    assert_eq!(
        endpoint,
        V2Endpoint::Blob {
            name: "library/ubuntu".to_string(),
            digest: "sha256:abcdef1234567890abcdef1234567890".to_string()
        }
    );

    // Test with nested repository names
    let endpoint = parse_v2_path("ghcr.io/owner/repo/blobs/sha256:fedcba0987654321");
    assert_eq!(
        endpoint,
        V2Endpoint::Blob {
            name: "ghcr.io/owner/repo".to_string(),
            digest: "sha256:fedcba0987654321".to_string()
        }
    );
}

#[test]
fn test_parse_blob_upload_init() {
    let endpoint = parse_v2_path("library/ubuntu/blobs/uploads");
    assert_eq!(
        endpoint,
        V2Endpoint::BlobUploadInit {
            name: "library/ubuntu".to_string()
        }
    );

    let endpoint = parse_v2_path("ghcr.io/owner/repo/blobs/uploads");
    assert_eq!(
        endpoint,
        V2Endpoint::BlobUploadInit {
            name: "ghcr.io/owner/repo".to_string()
        }
    );
}

#[test]
fn test_parse_blob_upload_complete() {
    let endpoint = parse_v2_path("library/ubuntu/blobs/uploads/550e8400-e29b-41d4-a716-446655440000");
    assert_eq!(
        endpoint,
        V2Endpoint::BlobUploadComplete {
            name: "library/ubuntu".to_string(),
            uuid: "550e8400-e29b-41d4-a716-446655440000".to_string()
        }
    );
}

#[test]
fn test_parse_unknown_endpoint() {
    let endpoint = parse_v2_path("invalid/path");
    assert_eq!(endpoint, V2Endpoint::Unknown);

    let endpoint = parse_v2_path("");
    assert_eq!(endpoint, V2Endpoint::Unknown);

    let endpoint = parse_v2_path("library/ubuntu");
    assert_eq!(endpoint, V2Endpoint::Unknown);
}

#[test]
fn test_parse_edge_cases() {
    // Manifest without reference
    let endpoint = parse_v2_path("library/ubuntu/manifests");
    assert_eq!(endpoint, V2Endpoint::Unknown);

    // Blob without digest
    let endpoint = parse_v2_path("library/ubuntu/blobs");
    assert_eq!(endpoint, V2Endpoint::Unknown);

    // Single part name
    let endpoint = parse_v2_path("ubuntu/manifests/latest");
    assert_eq!(
        endpoint,
        V2Endpoint::Manifest {
            name: "ubuntu".to_string(),
            reference: "latest".to_string()
        }
    );
}

#[test]
fn test_parse_deep_name_keeps_every_slash() {
    // however many slashes precede the keyword, the whole prefix is the name
    let endpoint = parse_v2_path("a/b/c/d/e/manifests/tag");
    assert_eq!(
        endpoint,
        V2Endpoint::Manifest {
            name: "a/b/c/d/e".to_string(),
            reference: "tag".to_string()
        }
    );
    let endpoint = parse_v2_path("a/b/c/d/e/blobs/sha256:0011");
    assert_eq!(
        endpoint,
        V2Endpoint::Blob {
            name: "a/b/c/d/e".to_string(),
            digest: "sha256:0011".to_string()
        }
    );
}

#[test]
fn test_parse_first_keyword_wins() {
    // only the first `manifests` segment splits the path
    let endpoint = parse_v2_path("repo/manifests/manifests");
    assert_eq!(
        endpoint,
        V2Endpoint::Manifest {
            name: "repo".to_string(),
            reference: "manifests".to_string()
        }
    );
}
