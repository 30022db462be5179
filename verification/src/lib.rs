//! A pull-through reverse proxy core for the Docker Registry V2 wire
//! protocol: a path router that classifies `/v2/...` request tails, a
//! byte-range engine for partial content, and the registry resolution
//! and Bearer-token authentication engine, all with verified contracts.

pub mod auth;
pub mod config;
pub mod error;
pub mod jsonval;
pub mod proxy;
pub mod range;
pub mod router;
pub mod static_files;
pub mod strutil;

use vstd::prelude::*;

verus! {

/// Crate version string reported by the health endpoint.
pub fn version() -> (r: &'static str)
    ensures
        r@ == "0.1.0"@,
{
    "0.1.0"
}

} // verus!
