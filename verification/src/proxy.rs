//! The registry resolution engine: turns a logical repository name into a
//! concrete upstream origin and repository path, builds the request URLs, and
//! interprets upstream responses. The HTTP exchanges themselves happen at the
//! edge; every decision about them is a verified function here, so the whole
//! protocol behaviour is a pure function of what the upstream answered.

use crate::config::Config;
use crate::error::{ProxyError, ProxyResult};
use crate::jsonval::{json_manifest_layers, manifest_layers_of};
use crate::strutil::{
    contains_char, contains_seq, contains_str, find_char, first_index_of, lemma_first_index_of,
    parse_u64, parse_u64_spec, starts_with, starts_with_spec, str_eq, to_lower_spec,
    to_lowercase_ascii,
};
use vstd::prelude::*;

verus! {

/// An HTTP status that counts as success: the 2xx class.
pub open spec fn is_success_status(status: u16) -> bool {
    200 <= status < 300
}

/// The configured default registry, normalized to carry a scheme.
pub open spec fn registry_base_spec(default: Seq<char>) -> Seq<char> {
    if starts_with_spec(default, "http"@) {
        default
    } else {
        "https://"@ + default
    }
}

/// A single-segment name is official-image shorthand and gains the
/// `library/` prefix; anything with a slash is kept as it is.
pub open spec fn normalize_name_spec(name: Seq<char>) -> Seq<char> {
    if contains_char(name, '/') {
        name
    } else {
        "library/"@ + name
    }
}

/// Where a logical name leads: when its first segment looks like a host
/// (contains a dot or a colon), that segment becomes the origin and the rest
/// the repository path; otherwise the configured default origin serves the
/// normalized name.
pub open spec fn resolve_spec(name: Seq<char>, default_url: Seq<char>) -> (Seq<char>, Seq<char>) {
    let p = first_index_of(name, '/');
    if p >= 0 && (contains_char(name.take(p), '.') || contains_char(name.take(p), ':')) {
        ("https://"@ + name.take(p), name.skip(p + 1))
    } else {
        (default_url, normalize_name_spec(name))
    }
}

pub open spec fn manifest_url_spec(registry: Seq<char>, image: Seq<char>, reference: Seq<char>) -> Seq<
    char,
> {
    registry + "/v2/"@ + image + "/manifests/"@ + reference
}

pub open spec fn blob_url_spec(registry: Seq<char>, image: Seq<char>, digest: Seq<char>) -> Seq<
    char,
> {
    registry + "/v2/"@ + image + "/blobs/"@ + digest
}

/// The content type of a manifest response, defaulting as the engine does.
pub open spec fn content_type_spec(header: Option<Seq<char>>) -> Seq<char> {
    match header {
        Some(ct) => ct,
        None => "application/json"@,
    }
}

/// A `Content-Length` header's value; absent or unparseable means 0.
pub open spec fn content_length_spec(header: Option<Seq<char>>) -> u64 {
    match header {
        Some(s) => match parse_u64_spec(s) {
            Some(v) => v,
            None => 0u64,
        },
        None => 0u64,
    }
}

/// What a manifest GET/HEAD status means: non-2xx (after any auth retry) is
/// `ManifestNotFound` carrying that status.
pub open spec fn manifest_status_spec(status: u16) -> Result<(), ProxyError> {
    if is_success_status(status) {
        Ok(())
    } else {
        Err(ProxyError::ManifestNotFound { status })
    }
}

/// What a blob GET/HEAD status means: non-2xx (after any auth retry) is
/// `BlobNotFound` carrying that status.
pub open spec fn blob_status_spec(status: u16) -> Result<(), ProxyError> {
    if is_success_status(status) {
        Ok(())
    } else {
        Err(ProxyError::BlobNotFound { status })
    }
}

/// What `headBlob` returns, as a pure function of the upstream's answer.
pub open spec fn head_blob_result_spec(status: u16, content_length: Option<Seq<char>>) -> Result<
    u64,
    ProxyError,
> {
    if is_success_status(status) {
        Ok(content_length_spec(content_length))
    } else {
        Err(ProxyError::BlobNotFound { status })
    }
}

/// What `headManifest` returns, as a pure function of the upstream's answer.
pub open spec fn head_manifest_result_spec(
    status: u16,
    content_type: Option<Seq<char>>,
    content_length: Option<Seq<char>>,
) -> Result<(Seq<char>, u64), ProxyError> {
    if is_success_status(status) {
        Ok((content_type_spec(content_type), content_length_spec(content_length)))
    } else {
        Err(ProxyError::ManifestNotFound { status })
    }
}

/// A healthy registry answers its `/v2/` probe with any 2xx, or with 401:
/// a 401 proves the registry is live and merely demands auth. No answer at
/// all is unhealthy.
pub open spec fn health_spec(probe: Option<u16>) -> bool {
    match probe {
        Some(status) => is_success_status(status) || status == 401,
        None => false,
    }
}

/// Headers that must not be relayed when a blob response is passed through:
/// the hop-by-hop set `Connection`, `Transfer-Encoding`, `Upgrade`, in any
/// case.
pub open spec fn is_hop_by_hop_spec(name: Seq<char>) -> bool {
    let l = to_lower_spec(name);
    l == "connection"@ || l == "transfer-encoding"@ || l == "upgrade"@
}

/// The registry-protocol engine's per-instance state: the default upstream
/// origin and the optional static GHCR credential. Both are fixed at
/// construction and shared read-only for the process lifetime; the HTTP
/// client that uses them lives at the edge.
pub struct DockerProxy {
    registry_url: String,
    ghcr_token: String,
}

impl DockerProxy {
    pub closed spec fn registry_url_view(&self) -> Seq<char> {
        self.registry_url@
    }

    pub closed spec fn ghcr_token_view(&self) -> Seq<char> {
        self.ghcr_token@
    }

    /// Build the engine from validated configuration, normalizing the
    /// default registry to carry a scheme.
    pub fn new(config: &Config) -> (r: DockerProxy)
        ensures
            r.registry_url_view() == registry_base_spec(config.proxy.default@),
            r.ghcr_token_view() == config.auth.ghcr_token@,
    {
        let default = config.default_registry();
        let registry_url = if starts_with(default, "http") {
            default.to_owned()
        } else {
            let mut s = "https://".to_owned();
            s.append(default);
            s
        };
        DockerProxy { registry_url, ghcr_token: config.ghcr_token().to_owned() }
    }

    /// The default registry URL.
    pub fn get_registry_url(&self) -> (r: &str)
        ensures
            r@ == self.registry_url_view(),
    {
        self.registry_url.as_str()
    }

    /// Whether a URL addresses the GitHub container registry, for which the
    /// static credential (when configured) is attached.
    pub fn is_ghcr_registry(&self, url: &str) -> (r: bool)
        ensures
            r == contains_seq(url@, "ghcr.io"@),
    {
        contains_str(url, "ghcr.io")
    }

    /// The bearer credential to attach to a first attempt: the static GHCR
    /// token, only when one is configured and the target is GHCR.
    pub fn initial_bearer(&self, url: &str) -> (r: Option<String>)
        ensures
            r.deep_view() == (if contains_seq(url@, "ghcr.io"@) && self.ghcr_token_view().len()
                > 0 {
                Some(self.ghcr_token_view())
            } else {
                None::<Seq<char>>
            }),
    {
        if self.is_ghcr_registry(url) && !self.ghcr_token.as_str().is_empty() {
            Some(self.ghcr_token.clone())
        } else {
            None
        }
    }

    /// Prefix a single-segment image name with `library/`.
    pub fn normalize_image_name(&self, name: &str) -> (r: String)
        ensures
            r@ == normalize_name_spec(name@),
    {
        match find_char(name, '/') {
            Some(_) => {
                proof {
                    lemma_first_index_of(name@, '/');
                }
                name.to_owned()
            },
            None => {
                proof {
                    lemma_first_index_of(name@, '/');
                }
                let mut s = "library/".to_owned();
                s.append(name);
                s
            },
        }
    }

    /// Resolve a logical name: `ghcr.io/owner/repo` becomes
    /// (`https://ghcr.io`, `owner/repo`); a name without a host-like first
    /// segment goes to the default registry, normalized.
    pub fn split_registry_and_name(&self, name: &str) -> (r: (String, String))
        ensures
            (r.0@, r.1@) == resolve_spec(name@, self.registry_url_view()),
    {
        proof {
            lemma_first_index_of(name@, '/');
        }
        if let Some(pos) = find_char(name, '/') {
            let first = name.substring_char(0, pos);
            proof {
                assert(first@ =~= name@.take(pos as int));
                lemma_first_index_of(first@, '.');
                lemma_first_index_of(first@, ':');
            }
            let host_like = find_char(first, '.').is_some() || find_char(first, ':').is_some();
            if host_like {
                let mut origin = "https://".to_owned();
                origin.append(first);
                let n = name.unicode_len();
                let rest = name.substring_char(pos + 1, n).to_owned();
                proof {
                    assert(rest@ =~= name@.skip(pos + 1));
                }
                return (origin, rest);
            }
        }
        (self.registry_url.clone(), self.normalize_image_name(name))
    }

    /// The URL of a manifest: `{origin}/v2/{repo}/manifests/{reference}`,
    /// after resolving the logical name.
    pub fn manifest_url(&self, name: &str, reference: &str) -> (r: String)
        ensures
            ({
                let t = resolve_spec(name@, self.registry_url_view());
                r@ == manifest_url_spec(t.0, t.1, reference@)
            }),
    {
        let (registry, image) = self.split_registry_and_name(name);
        let mut s = registry;
        s.append("/v2/");
        s.append(image.as_str());
        s.append("/manifests/");
        s.append(reference);
        s
    }

    /// The URL of a blob: `{origin}/v2/{repo}/blobs/{digest}`, after
    /// resolving the logical name.
    pub fn blob_url(&self, name: &str, digest: &str) -> (r: String)
        ensures
            ({
                let t = resolve_spec(name@, self.registry_url_view());
                r@ == blob_url_spec(t.0, t.1, digest@)
            }),
    {
        let (registry, image) = self.split_registry_and_name(name);
        let mut s = registry;
        s.append("/v2/");
        s.append(image.as_str());
        s.append("/blobs/");
        s.append(digest);
        s
    }

    /// The `/v2/` probe URL of the default registry, for the health check.
    pub fn health_url(&self) -> (r: String)
        ensures
            r@ == self.registry_url_view() + "/v2/"@,
    {
        let mut s = self.registry_url.clone();
        s.append("/v2/");
        s
    }

    /// Uploads are rejected by design: this proxy is read-only, and callers
    /// surface the rejection as "method not allowed".
    pub fn initiate_blob_upload(&self, name: &str) -> (r: ProxyResult<String>)
        ensures
            r == Err::<String, ProxyError>(ProxyError::BlobUploadNotSupported),
    {
        let _ = name;
        Err(ProxyError::BlobUploadNotSupported)
    }

    /// Interpret the `/v2/` probe's outcome: 2xx and 401 are healthy, a
    /// transport failure (no status at all) is not. Never raises.
    pub fn interpret_health_probe(&self, probe: Option<u16>) -> (r: bool)
        ensures
            r == health_spec(probe),
    {
        match probe {
            Some(status) => (200 <= status && status < 300) || status == 401,
            None => false,
        }
    }
}

/// Interpret a manifest GET's answer: non-2xx is `ManifestNotFound`, success
/// carries the upstream content type (defaulted when absent) and the body.
pub fn interpret_manifest_response(status: u16, content_type: Option<String>, body: String) -> (r:
    ProxyResult<(String, String)>)
    ensures
        manifest_status_spec(status) matches Err(e) ==> r == Err::<(String, String), ProxyError>(
            e,
        ),
        is_success_status(status) ==> (r matches Ok(p) && p.0@ == content_type_spec(
            content_type.deep_view(),
        ) && p.1 == body),
{
    if !(200 <= status && status < 300) {
        return Err(ProxyError::ManifestNotFound { status });
    }
    let ct = match content_type {
        Some(ct) => ct,
        None => "application/json".to_owned(),
    };
    Ok((ct, body))
}

/// Interpret a manifest HEAD's answer: non-2xx is `ManifestNotFound`,
/// success carries the content type (defaulted) and the parsed
/// `Content-Length` (0 when absent or unparseable).
pub fn interpret_head_manifest(
    status: u16,
    content_type: Option<String>,
    content_length: Option<String>,
) -> (r: ProxyResult<(String, u64)>)
    ensures
        head_manifest_result_spec(
            status,
            content_type.deep_view(),
            content_length.deep_view(),
        ) matches Err(e) ==> r == Err::<(String, u64), ProxyError>(e),
        head_manifest_result_spec(
            status,
            content_type.deep_view(),
            content_length.deep_view(),
        ) matches Ok(exp) ==> (r matches Ok(p) && p.0@ == exp.0 && p.1 == exp.1),
{
    if !(200 <= status && status < 300) {
        return Err(ProxyError::ManifestNotFound { status });
    }
    let ct = match content_type {
        Some(ct) => ct,
        None => "application/json".to_owned(),
    };
    let cl = parse_content_length(content_length);
    Ok((ct, cl))
}

/// Interpret a blob HEAD's answer: non-2xx is `BlobNotFound`, success is the
/// parsed `Content-Length` (0 when absent or unparseable).
pub fn interpret_head_blob(status: u16, content_length: Option<String>) -> (r: ProxyResult<u64>)
    ensures
        r == head_blob_result_spec(status, content_length.deep_view()),
{
    if !(200 <= status && status < 300) {
        return Err(ProxyError::BlobNotFound { status });
    }
    Ok(parse_content_length(content_length))
}

/// Interpret a blob GET's status: non-2xx is `BlobNotFound`; on success the
/// edge relays the live upstream response verbatim.
pub fn interpret_blob_status(status: u16) -> (r: ProxyResult<()>)
    ensures
        r == blob_status_spec(status),
{
    if !(200 <= status && status < 300) {
        return Err(ProxyError::BlobNotFound { status });
    }
    Ok(())
}

/// A `Content-Length` header's value, 0 when absent or unparseable.
pub fn parse_content_length(header: Option<String>) -> (r: u64)
    ensures
        r == content_length_spec(header.deep_view()),
{
    match header {
        Some(s) => match parse_u64(s.as_str()) {
            Some(v) => v,
            None => 0,
        },
        None => 0,
    }
}

/// Whether a header must be dropped when relaying a blob response: the
/// hop-by-hop headers `Connection`, `Transfer-Encoding` and `Upgrade`, in
/// any letter case.
pub fn is_hop_by_hop_header(name: &str) -> (r: bool)
    ensures
        r == is_hop_by_hop_spec(name@),
{
    let l = to_lowercase_ascii(name);
    str_eq(l.as_str(), "connection") || str_eq(l.as_str(), "transfer-encoding") || str_eq(
        l.as_str(),
        "upgrade",
    )
}

/// Repeated `headBlob` calls against an unchanged upstream return the same
/// content length: the result is a pure function of the upstream's answer,
/// so two calls that the upstream answers alike agree.
pub proof fn lemma_head_blob_idempotent(
    status1: u16,
    content_length1: Option<Seq<char>>,
    status2: u16,
    content_length2: Option<Seq<char>>,
)
    requires
        status1 == status2,
        content_length1 == content_length2,
    ensures
        head_blob_result_spec(status1, content_length1) == head_blob_result_spec(
            status2,
            content_length2,
        ),
{
}

/// The declared size of one manifest layer, when its digest is the wanted
/// one: `Some(size)` for the matching layer (a missing or malformed `size`
/// field counts as 0), `None` for any other.
pub fn match_layer(layer_digest: Option<&String>, size: Option<u64>, wanted: &str) -> (r: Option<
    u64,
>)
    ensures
        r == (if layer_digest.deep_view() == Some(wanted@) {
            Some(
                match size {
                    Some(v) => v,
                    None => 0u64,
                },
            )
        } else {
            None::<u64>
        }),
{
    match layer_digest {
        Some(d) => {
            if str_eq(d.as_str(), wanted) {
                Some(
                    match size {
                        Some(v) => v,
                        None => 0,
                    },
                )
            } else {
                None
            }
        },
        None => None,
    }
}

/// The declared size of the first layer whose digest matches, 0 when none
/// does (a matching layer without a usable `size` also counts as 0).
pub open spec fn first_matching_size(
    layers: Seq<(Option<Seq<char>>, Option<u64>)>,
    digest: Seq<char>,
) -> u64
    decreases layers.len(),
{
    if layers.len() == 0 {
        0u64
    } else if layers[0].0 == Some(digest) {
        match layers[0].1 {
            Some(v) => v,
            None => 0u64,
        }
    } else {
        first_matching_size(layers.skip(1), digest)
    }
}

/// What the manifest declares for a digest: the first matching layer's size,
/// 0 when nothing matches or the document is not of the expected shape
/// (manifest lists are not deep-inspected).
pub open spec fn manifest_layer_size_spec(body: Seq<char>, digest: Seq<char>) -> u64 {
    match manifest_layers_of(body) {
        Some(layers) => first_matching_size(layers, digest),
        None => 0u64,
    }
}

/// The size the manifest declares for the layer with the given digest: walk
/// the manifest's `layers` array and take the first entry whose `digest`
/// field matches.
pub fn manifest_layer_size(manifest_body: &str, digest: &str) -> (r: u64)
    ensures
        r == manifest_layer_size_spec(manifest_body@, digest@),
{
    let layers = match json_manifest_layers(manifest_body) {
        Some(l) => l,
        None => {
            return 0;
        },
    };
    let ghost dv = layers.deep_view();
    let n = layers.len();
    proof {
        assert(dv.len() == n);
        assert(dv.skip(0) =~= dv);
    }
    let mut i: usize = 0;
    while i < n
        invariant
            n == layers@.len(),
            dv == layers.deep_view(),
            dv.len() == n,
            i <= n,
            manifest_layers_of(manifest_body@) == Some(dv),
            first_matching_size(dv, digest@) == first_matching_size(dv.skip(i as int), digest@),
        decreases n - i,
    {
        let layer = &layers[i];
        let layer_digest = layer.0.as_ref();
        proof {
            assert(dv[i as int] == (layer.0.deep_view(), layer.1.deep_view()));
            assert(dv.skip(i as int)[0] == dv[i as int]);
            assert(dv.skip(i as int).skip(1) =~= dv.skip(i + 1));
            assert(layer_digest.deep_view() == layer.0.deep_view());
        }
        if let Some(found) = match_layer(layer_digest, layer.1, digest) {
            return found;
        }
        i += 1;
    }
    proof {
        assert(dv.skip(n as int) =~= Seq::<(Option<Seq<char>>, Option<u64>)>::empty());
    }
    0
}

} // verus!
