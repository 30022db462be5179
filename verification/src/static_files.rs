//! The rules of the static web-asset server: the content type a file path
//! earns, the streaming threshold, the request-path sanitization and the
//! extension whitelist. The file I/O around them lives at the edge; every
//! decision is a verified function here.

use crate::strutil::{
    contains_seq, contains_str, ends_with, ends_with_spec, starts_with, starts_with_spec, str_eq,
    strip_leading, strip_leading_spec, to_lower_spec, to_lowercase_ascii,
};
use vstd::prelude::*;

verus! {

/// Files at least this large are streamed rather than read into memory:
/// 1 MiB balances the overhead on small files against the memory bound on
/// large ones.
pub const STREAM_THRESHOLD: u64 = 1024 * 1024;

/// The content type each file suffix earns; anything unrecognized is served
/// as an octet stream.
pub open spec fn content_type_spec(path: Seq<char>) -> Seq<char> {
    if ends_with_spec(path, ".html"@) || ends_with_spec(path, ".htm"@) {
        "text/html; charset=utf-8"@
    } else if ends_with_spec(path, ".js"@) {
        "application/javascript; charset=utf-8"@
    } else if ends_with_spec(path, ".css"@) {
        "text/css; charset=utf-8"@
    } else if ends_with_spec(path, ".json"@) {
        "application/json; charset=utf-8"@
    } else if ends_with_spec(path, ".svg"@) {
        "image/svg+xml"@
    } else if ends_with_spec(path, ".png"@) {
        "image/png"@
    } else if ends_with_spec(path, ".jpg"@) || ends_with_spec(path, ".jpeg"@) {
        "image/jpeg"@
    } else if ends_with_spec(path, ".gif"@) {
        "image/gif"@
    } else if ends_with_spec(path, ".webp"@) {
        "image/webp"@
    } else if ends_with_spec(path, ".ico"@) {
        "image/x-icon"@
    } else if ends_with_spec(path, ".woff"@) {
        "font/woff"@
    } else if ends_with_spec(path, ".woff2"@) {
        "font/woff2"@
    } else if ends_with_spec(path, ".ttf"@) {
        "font/ttf"@
    } else if ends_with_spec(path, ".eot"@) {
        "application/vnd.ms-fontobject"@
    } else {
        "application/octet-stream"@
    }
}

/// Determine the `Content-Type` for a file path by its suffix.
pub fn get_content_type(path: &str) -> (r: &'static str)
    ensures
        r@ == content_type_spec(path@),
{
    if ends_with(path, ".html") || ends_with(path, ".htm") {
        "text/html; charset=utf-8"
    } else if ends_with(path, ".js") {
        "application/javascript; charset=utf-8"
    } else if ends_with(path, ".css") {
        "text/css; charset=utf-8"
    } else if ends_with(path, ".json") {
        "application/json; charset=utf-8"
    } else if ends_with(path, ".svg") {
        "image/svg+xml"
    } else if ends_with(path, ".png") {
        "image/png"
    } else if ends_with(path, ".jpg") || ends_with(path, ".jpeg") {
        "image/jpeg"
    } else if ends_with(path, ".gif") {
        "image/gif"
    } else if ends_with(path, ".webp") {
        "image/webp"
    } else if ends_with(path, ".ico") {
        "image/x-icon"
    } else if ends_with(path, ".woff") {
        "font/woff"
    } else if ends_with(path, ".woff2") {
        "font/woff2"
    } else if ends_with(path, ".ttf") {
        "font/ttf"
    } else if ends_with(path, ".eot") {
        "application/vnd.ms-fontobject"
    } else {
        "application/octet-stream"
    }
}

/// What the sanitizer decides about a requested file path.
pub enum PathDecision {
    /// The path is reserved; answer "not found".
    NotFound,
    /// The path attempts traversal; answer "forbidden".
    Forbidden,
    /// Serve this path (relative to the web root).
    Serve { path: String },
}

pub enum PathDecisionView {
    NotFound,
    Forbidden,
    Serve { path: Seq<char> },
}

impl View for PathDecision {
    type V = PathDecisionView;

    open spec fn view(&self) -> PathDecisionView {
        match self {
            PathDecision::NotFound => PathDecisionView::NotFound,
            PathDecision::Forbidden => PathDecisionView::Forbidden,
            PathDecision::Serve { path } => PathDecisionView::Serve { path: path@ },
        }
    }
}

/// Path sanitization: strip leading slashes; the reserved `web` prefix is
/// hidden; an empty or directory path means the index page; anything
/// containing `..` is refused.
pub open spec fn sanitize_spec(file: Seq<char>) -> PathDecisionView {
    let p = strip_leading_spec(file, '/');
    if p == "web"@ || starts_with_spec(p, "web/"@) {
        PathDecisionView::NotFound
    } else {
        let q = if p.len() == 0 || p.last() == '/' {
            "index.html"@
        } else {
            p
        };
        if contains_seq(q, ".."@) {
            PathDecisionView::Forbidden
        } else {
            PathDecisionView::Serve { path: q }
        }
    }
}

/// Decide whether and as what a requested path may be served.
pub fn sanitize_request_path(file: &str) -> (r: PathDecision)
    ensures
        r@ == sanitize_spec(file@),
{
    let p = strip_leading(file, '/');
    if str_eq(p, "web") || starts_with(p, "web/") {
        return PathDecision::NotFound;
    }
    let n = p.unicode_len();
    let q = if n == 0 || p.get_char(n - 1) == '/' {
        "index.html".to_owned()
    } else {
        p.to_owned()
    };
    if contains_str(q.as_str(), "..") {
        return PathDecision::Forbidden;
    }
    PathDecision::Serve { path: q }
}

/// The extensions the static server may serve at all.
pub open spec fn extension_allowed_spec(ext: Option<Seq<char>>) -> bool {
    match ext {
        None => false,
        Some(e) => {
            let l = to_lower_spec(e);
            ||| l == "html"@
            ||| l == "htm"@
            ||| l == "css"@
            ||| l == "js"@
            ||| l == "json"@
            ||| l == "svg"@
            ||| l == "png"@
            ||| l == "jpg"@
            ||| l == "jpeg"@
            ||| l == "gif"@
            ||| l == "webp"@
            ||| l == "ico"@
            ||| l == "woff"@
            ||| l == "woff2"@
            ||| l == "ttf"@
            ||| l == "eot"@
        },
    }
}

/// Whether a file with this extension (as the file system reports it, `None`
/// when it has none) may be served: only the whitelisted web-asset
/// extensions, compared case-insensitively.
pub fn extension_allowed(ext: Option<&str>) -> (r: bool)
    ensures
        r == extension_allowed_spec(
            match ext {
                Some(e) => Some(e@),
                None => None,
            },
        ),
{
    match ext {
        None => false,
        Some(e) => {
            let l = to_lowercase_ascii(e);
            let ls = l.as_str();
            str_eq(ls, "html") || str_eq(ls, "htm") || str_eq(ls, "css") || str_eq(ls, "js")
                || str_eq(ls, "json") || str_eq(ls, "svg") || str_eq(ls, "png") || str_eq(
                ls,
                "jpg",
            ) || str_eq(ls, "jpeg") || str_eq(ls, "gif") || str_eq(ls, "webp") || str_eq(
                ls,
                "ico",
            ) || str_eq(ls, "woff") || str_eq(ls, "woff2") || str_eq(ls, "ttf") || str_eq(
                ls,
                "eot",
            )
        },
    }
}

} // verus!
