//! The endpoint router: decodes the wildcard tail of a `/v2/...` request into
//! one of a closed set of registry operations. Classification is positional:
//! the first segment equal to `manifests` or `blobs` is the split point,
//! everything before it is the repository name, however many slashes that
//! name contains.

use crate::strutil::{
    find_seg, join_char, join_prefix, lemma_find_seg, lemma_join_split, lemma_split_at_sep,
    lemma_split_concat, lemma_split_single, sep_free, split_char, split_str, str_eq,
};
use vstd::prelude::*;

verus! {

/// Docker Registry V2 API endpoint types.
#[derive(Debug)]
pub enum V2Endpoint {
    /// GET/HEAD manifest: `/v2/{name}/manifests/{reference}`
    Manifest { name: String, reference: String },
    /// GET/HEAD blob: `/v2/{name}/blobs/{digest}`
    Blob { name: String, digest: String },
    /// POST blob upload: `/v2/{name}/blobs/uploads/`
    BlobUploadInit { name: String },
    /// PUT blob upload: `/v2/{name}/blobs/uploads/{uuid}`
    BlobUploadComplete { name: String, uuid: String },
    /// Unknown or unsupported endpoint
    Unknown,
}

/// The mathematical shape of an endpoint: the same variants over character
/// sequences.
pub enum EndpointView {
    Manifest { name: Seq<char>, reference: Seq<char> },
    Blob { name: Seq<char>, digest: Seq<char> },
    BlobUploadInit { name: Seq<char> },
    BlobUploadComplete { name: Seq<char>, uuid: Seq<char> },
    Unknown,
}

impl View for V2Endpoint {
    type V = EndpointView;

    open spec fn view(&self) -> EndpointView {
        match self {
            V2Endpoint::Manifest { name, reference } => EndpointView::Manifest {
                name: name@,
                reference: reference@,
            },
            V2Endpoint::Blob { name, digest } => EndpointView::Blob {
                name: name@,
                digest: digest@,
            },
            V2Endpoint::BlobUploadInit { name } => EndpointView::BlobUploadInit { name: name@ },
            V2Endpoint::BlobUploadComplete { name, uuid } => EndpointView::BlobUploadComplete {
                name: name@,
                uuid: uuid@,
            },
            V2Endpoint::Unknown => EndpointView::Unknown,
        }
    }
}

impl PartialEq for V2Endpoint {
    fn eq(&self, other: &V2Endpoint) -> (r: bool) {
        match (self, other) {
            (
                V2Endpoint::Manifest { name: a, reference: b },
                V2Endpoint::Manifest { name: c, reference: d },
            ) => str_eq(a.as_str(), c.as_str()) && str_eq(b.as_str(), d.as_str()),
            (
                V2Endpoint::Blob { name: a, digest: b },
                V2Endpoint::Blob { name: c, digest: d },
            ) => str_eq(a.as_str(), c.as_str()) && str_eq(b.as_str(), d.as_str()),
            (
                V2Endpoint::BlobUploadInit { name: a },
                V2Endpoint::BlobUploadInit { name: c },
            ) => str_eq(a.as_str(), c.as_str()),
            (
                V2Endpoint::BlobUploadComplete { name: a, uuid: b },
                V2Endpoint::BlobUploadComplete { name: c, uuid: d },
            ) => str_eq(a.as_str(), c.as_str()) && str_eq(b.as_str(), d.as_str()),
            (V2Endpoint::Unknown, V2Endpoint::Unknown) => true,
            _ => false,
        }
    }
}

impl Eq for V2Endpoint {

}

impl vstd::std_specs::cmp::PartialEqSpecImpl for V2Endpoint {
    open spec fn obeys_eq_spec() -> bool {
        true
    }

    open spec fn eq_spec(&self, other: &V2Endpoint) -> bool {
        self@ == other@
    }
}

/// What classification returns for a path tail, stated over the split
/// segments: the first `manifests` segment wins, then the first `blobs`
/// segment, with its `uploads` sub-cases tried before a plain blob access.
pub open spec fn classify_spec(s: Seq<char>) -> EndpointView {
    let parts = split_char(s, '/');
    let mi = find_seg(parts, "manifests"@);
    let bi = find_seg(parts, "blobs"@);
    if mi >= 0 && mi + 1 < parts.len() {
        EndpointView::Manifest {
            name: join_char(parts.take(mi), '/'),
            reference: parts[mi + 1],
        }
    } else if bi >= 0 && bi + 2 < parts.len() && parts[bi + 1] == "uploads"@ {
        EndpointView::BlobUploadComplete {
            name: join_char(parts.take(bi), '/'),
            uuid: parts[bi + 2],
        }
    } else if bi >= 0 && bi + 1 < parts.len() && parts[bi + 1] == "uploads"@ && bi + 2
        == parts.len() {
        EndpointView::BlobUploadInit { name: join_char(parts.take(bi), '/') }
    } else if bi >= 0 && bi + 1 < parts.len() {
        EndpointView::Blob { name: join_char(parts.take(bi), '/'), digest: parts[bi + 1] }
    } else {
        EndpointView::Unknown
    }
}

/// First segment equal to `key`, as an executable scan.
fn find_segment(parts: &Vec<String>, key: &str) -> (r: Option<usize>)
    ensures
        r matches Some(i) ==> i == find_seg(parts.deep_view(), key@) && i < parts@.len(),
        r is None ==> find_seg(parts.deep_view(), key@) == -1,
{
    let n = parts.len();
    proof {
        assert(parts.deep_view().len() == n);
    }
    let mut i: usize = 0;
    while i < n
        invariant
            n == parts@.len(),
            parts.deep_view().len() == n,
            i <= n,
            forall|j: int| 0 <= j < i ==> parts.deep_view()[j] != key@,
        decreases n - i,
    {
        if str_eq(parts[i].as_str(), key) {
            proof {
                let dv = parts.deep_view();
                assert(dv[i as int] == key@);
                lemma_find_seg(dv, key@);
                let fi = find_seg(dv, key@);
                assert(fi >= 0);
                if fi < i {
                    assert(dv[fi] == key@);
                    assert(false);
                }
                if fi > i {
                    assert(dv[i as int] != key@);
                    assert(false);
                }
            }
            return Some(i);
        }
        proof {
            assert(parts.deep_view()[i as int] == parts@[i as int]@);
        }
        i += 1;
    }
    proof {
        lemma_find_seg(parts.deep_view(), key@);
        let fi = find_seg(parts.deep_view(), key@);
        if fi >= 0 {
            assert(parts.deep_view()[fi] == key@);
            assert(parts.deep_view()[fi] != key@);
        }
    }
    None
}

/// Parse a Docker Registry V2 API path.
///
/// `rest` is the path after `/v2/`, e.g. `library/ubuntu/manifests/latest`.
/// Always returns a value; unrecognized input yields `Unknown`.
pub fn parse_v2_path(rest: &str) -> (r: V2Endpoint)
    ensures
        r@ == classify_spec(rest@),
{
    proof {
        reveal_strlit("/");
        assert("/"@ =~= seq!['/']);
    }
    let parts = split_str(rest, '/');
    let n = parts.len();
    proof {
        assert(parts.deep_view().len() == n);
    }
    let ghost pv = parts.deep_view();

    if let Some(i) = find_segment(&parts, "manifests") {
        if n - i > 1 {
            let name = join_prefix(&parts, i, '/', "/");
            let reference = parts[i + 1].clone();
            proof {
                assert(pv.take(i as int) == parts.deep_view().take(i as int));
                assert(reference@ == pv[i + 1]);
            }
            return V2Endpoint::Manifest { name, reference };
        }
    }

    if let Some(i) = find_segment(&parts, "blobs") {
        if n - i > 2 && str_eq(parts[i + 1].as_str(), "uploads") {
            let name = join_prefix(&parts, i, '/', "/");
            let uuid = parts[i + 2].clone();
            return V2Endpoint::BlobUploadComplete { name, uuid };
        }
        if n - i > 1 && str_eq(parts[i + 1].as_str(), "uploads") && n - i == 2 {
            let name = join_prefix(&parts, i, '/', "/");
            return V2Endpoint::BlobUploadInit { name };
        }
        if n - i > 1 {
            let name = join_prefix(&parts, i, '/', "/");
            let digest = parts[i + 1].clone();
            return V2Endpoint::Blob { name, digest };
        }
    }

    V2Endpoint::Unknown
}

// ---------------------------------------------------------------------------
// Name recovery: however many slashes precede the keyword, the repository
// name comes back exactly.
// ---------------------------------------------------------------------------

/// For every repository path `pre` none of whose segments is `manifests`,
/// and every slash-free reference, classifying
/// `{pre}/manifests/{reference}` yields exactly `Manifest` with that name
/// and that reference — the pre-keyword substring is recovered whole, for
/// any number of slashes in it.
pub proof fn lemma_classify_recovers_manifest_name(pre: Seq<char>, reference: Seq<char>)
    requires
        forall|i: int|
            0 <= i < split_char(pre, '/').len() ==> #[trigger] split_char(pre, '/')[i]
                != "manifests"@,
        sep_free(reference, '/'),
    ensures
        classify_spec(pre + seq!['/'] + "manifests"@ + seq!['/'] + reference) == (
        EndpointView::Manifest { name: pre, reference }),
{
    reveal_strlit("manifests");
    let s = pre + seq!['/'] + "manifests"@ + seq!['/'] + reference;
    let tail = "manifests"@ + seq!['/'] + reference;
    assert(s =~= pre + seq!['/'] + tail);
    assert(sep_free("manifests"@, '/'));
    lemma_split_at_sep("manifests"@, reference, '/');
    lemma_split_single(reference, '/');
    lemma_split_concat(pre, tail, '/');
    let pp = split_char(pre, '/');
    let parts = split_char(s, '/');
    assert(parts =~= pp + seq!["manifests"@, reference]);
    lemma_find_seg(parts, "manifests"@);
    let mi = find_seg(parts, "manifests"@);
    assert(parts[pp.len() as int] == "manifests"@);
    assert(mi >= 0);
    if mi < pp.len() {
        assert(parts[mi] == pp[mi]);
        assert(false);
    }
    if mi > pp.len() {
        assert(parts[pp.len() as int] != "manifests"@);
        assert(false);
    }
    assert(mi == pp.len());
    assert(mi + 1 < parts.len());
    assert(parts[mi + 1] == reference);
    assert(parts.take(mi) =~= pp);
    lemma_join_split(pre, '/');
}

/// The same recovery for blobs: for every repository path `pre` none of
/// whose segments is `manifests` or `blobs`, and every slash-free digest
/// other than `uploads`, classifying `{pre}/blobs/{digest}` yields exactly
/// `Blob` with that name and that digest.
pub proof fn lemma_classify_recovers_blob_name(pre: Seq<char>, digest: Seq<char>)
    requires
        forall|i: int|
            0 <= i < split_char(pre, '/').len() ==> #[trigger] split_char(pre, '/')[i]
                != "manifests"@,
        forall|i: int|
            0 <= i < split_char(pre, '/').len() ==> #[trigger] split_char(pre, '/')[i]
                != "blobs"@,
        sep_free(digest, '/'),
        digest != "uploads"@,
    ensures
        classify_spec(pre + seq!['/'] + "blobs"@ + seq!['/'] + digest) == (EndpointView::Blob {
            name: pre,
            digest,
        }),
{
    reveal_strlit("manifests");
    reveal_strlit("blobs");
    reveal_strlit("uploads");
    let s = pre + seq!['/'] + "blobs"@ + seq!['/'] + digest;
    let tail = "blobs"@ + seq!['/'] + digest;
    assert(s =~= pre + seq!['/'] + tail);
    assert(sep_free("blobs"@, '/'));
    lemma_split_at_sep("blobs"@, digest, '/');
    lemma_split_single(digest, '/');
    lemma_split_concat(pre, tail, '/');
    let pp = split_char(pre, '/');
    let parts = split_char(s, '/');
    assert(parts =~= pp + seq!["blobs"@, digest]);

    lemma_find_seg(parts, "manifests"@);
    let mi = find_seg(parts, "manifests"@);
    assert("manifests"@.len() == 9 && "blobs"@.len() == 5);
    if mi >= 0 {
        // only the final segment could be `manifests`, and then nothing
        // follows it
        assert(parts[mi] == "manifests"@);
        if mi < pp.len() {
            assert(parts[mi] == pp[mi]);
            assert(false);
        }
        if mi == pp.len() {
            assert(false);
        }
        assert(mi == parts.len() - 1);
        assert(!(mi + 1 < parts.len()));
    }

    lemma_find_seg(parts, "blobs"@);
    let bi = find_seg(parts, "blobs"@);
    assert(parts[pp.len() as int] == "blobs"@);
    assert(bi >= 0);
    if bi < pp.len() {
        assert(parts[bi] == pp[bi]);
        assert(false);
    }
    if bi > pp.len() {
        assert(parts[pp.len() as int] != "blobs"@);
        assert(false);
    }
    assert(bi == pp.len());
    assert(bi + 2 == parts.len());
    assert(parts[bi + 1] == digest);
    assert(parts.take(bi) =~= pp);
    lemma_join_split(pre, '/');
}

} // verus!
