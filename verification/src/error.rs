//! The error taxonomy of the proxy. Errors are constructed per failed
//! operation and mapped to a transport status at the edge; upstream statuses
//! that caused a failure travel along as plain numbers.

use crate::strutil::{dec_str, u64_to_string};
use vstd::prelude::*;

verus! {

/// Everything that can go wrong in a registry operation.
#[derive(Clone, Copy, Debug, PartialEq, Eq, Structural)]
pub enum ProxyError {
    /// Transport-level failure reaching the upstream registry.
    Network,
    /// Upstream answered a manifest request with a non-2xx status (after any
    /// auth retry).
    ManifestNotFound { status: u16 },
    /// Upstream answered a blob request with a non-2xx status (after any
    /// auth retry).
    BlobNotFound { status: u16 },
    /// The response body could not be read or decoded.
    ResponseReadError,
    /// Uploads are rejected by design: this is a read-through proxy.
    BlobUploadNotSupported,
    /// A 401 response carried no `WWW-Authenticate` header.
    MissingAuthHeader,
    /// The `WWW-Authenticate` challenge named no `realm`.
    MissingAuthRealm,
    /// The token endpoint answered with a non-2xx status.
    TokenRequestFailed { status: u16 },
    /// The token endpoint's body was not valid JSON.
    TokenParseFailed,
    /// The token endpoint's body held neither `token` nor `access_token`.
    TokenNotFound,
    /// Reserved: a registry URL could not be formed.
    InvalidRegistryUrl,
    /// Reserved: an internal invariant failed.
    InternalError,
}

pub type ProxyResult<T> = Result<T, ProxyError>;

/// The short human-readable text for each error kind, never a stack trace or
/// an internal URL.
pub open spec fn message_spec(e: ProxyError) -> Seq<char> {
    match e {
        ProxyError::Network => "Network request failed"@,
        ProxyError::ManifestNotFound { status } => "Manifest not found: "@ + dec_str(
            status as nat,
        ),
        ProxyError::BlobNotFound { status } => "Blob not found: "@ + dec_str(status as nat),
        ProxyError::ResponseReadError => "Failed to read response body"@,
        ProxyError::BlobUploadNotSupported => "Blob upload not supported"@,
        ProxyError::MissingAuthHeader => "Missing WWW-Authenticate header"@,
        ProxyError::MissingAuthRealm => "Missing realm in WWW-Authenticate header"@,
        ProxyError::TokenRequestFailed { status } => "Token request failed: "@ + dec_str(
            status as nat,
        ),
        ProxyError::TokenParseFailed => "Failed to parse token response"@,
        ProxyError::TokenNotFound => "Token not found in response"@,
        ProxyError::InvalidRegistryUrl => "Invalid registry URL"@,
        ProxyError::InternalError => "Internal error"@,
    }
}

impl ProxyError {
    /// The short client-visible text for this error.
    pub fn message(&self) -> (r: String)
        ensures
            r@ == message_spec(*self),
    {
        match self {
            ProxyError::Network => "Network request failed".to_owned(),
            ProxyError::ManifestNotFound { status } => {
                let mut s = "Manifest not found: ".to_owned();
                s.append(u64_to_string(*status as u64).as_str());
                s
            },
            ProxyError::BlobNotFound { status } => {
                let mut s = "Blob not found: ".to_owned();
                s.append(u64_to_string(*status as u64).as_str());
                s
            },
            ProxyError::ResponseReadError => "Failed to read response body".to_owned(),
            ProxyError::BlobUploadNotSupported => "Blob upload not supported".to_owned(),
            ProxyError::MissingAuthHeader => "Missing WWW-Authenticate header".to_owned(),
            ProxyError::MissingAuthRealm => "Missing realm in WWW-Authenticate header".to_owned(),
            ProxyError::TokenRequestFailed { status } => {
                let mut s = "Token request failed: ".to_owned();
                s.append(u64_to_string(*status as u64).as_str());
                s
            },
            ProxyError::TokenParseFailed => "Failed to parse token response".to_owned(),
            ProxyError::TokenNotFound => "Token not found in response".to_owned(),
            ProxyError::InvalidRegistryUrl => "Invalid registry URL".to_owned(),
            ProxyError::InternalError => "Internal error".to_owned(),
        }
    }
}

} // verus!
