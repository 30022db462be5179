//! Trusted boundary around `serde_json`: the proxy reads two kinds of JSON
//! documents — token-endpoint answers and image manifests — through these
//! wrappers. What each document holds is a function of its text alone, so
//! each wrapper's result carries a name that the callers' contracts are
//! stated over; every decision about what was read is made by verified code
//! on the plain values handed out here.

use vstd::prelude::*;

verus! {

/// Whether the text is a valid JSON document.
pub uninterp spec fn json_ok_of(body: Seq<char>) -> bool;

/// The top-level `token` string field of the parsed document: `None` when
/// the text does not parse, the field is absent, or it is not a string.
pub uninterp spec fn token_field_of(body: Seq<char>) -> Option<Seq<char>>;

/// The top-level `access_token` string field of the parsed document: `None`
/// when the text does not parse, the field is absent, or it is not a string.
pub uninterp spec fn access_token_field_of(body: Seq<char>) -> Option<Seq<char>>;

/// The `layers` array of a manifest document, each layer reduced to its
/// `digest` string field and its `size` unsigned-integer field (either
/// `None` when absent or not of that type): `None` when the text does not
/// parse or has no top-level `layers` array.
pub uninterp spec fn manifest_layers_of(body: Seq<char>) -> Option<
    Seq<(Option<Seq<char>>, Option<u64>)>,
>;

/// Relies on serde_json::from_str::<Value>: whether the text parses as JSON,
/// a function of the text alone.
#[verifier::external_body]
pub(crate) fn json_body_ok(s: &str) -> (r: bool)
    ensures
        r == json_ok_of(s@),
{
    serde_json::from_str::<serde_json::Value>(s).is_ok()
}

/// Relies on serde_json (from_str, Value::get, Value::as_str): the parsed
/// body's top-level `token` string field, a function of the text alone.
#[verifier::external_body]
pub(crate) fn json_token_field(s: &str) -> (r: Option<String>)
    ensures
        r.deep_view() == token_field_of(s@),
{
    let v: serde_json::Value = serde_json::from_str(s).ok()?;
    v.get("token").and_then(|t| t.as_str()).map(|t| t.to_string())
}

/// Relies on serde_json (from_str, Value::get, Value::as_str): the parsed
/// body's top-level `access_token` string field, a function of the text
/// alone.
#[verifier::external_body]
pub(crate) fn json_access_token_field(s: &str) -> (r: Option<String>)
    ensures
        r.deep_view() == access_token_field_of(s@),
{
    let v: serde_json::Value = serde_json::from_str(s).ok()?;
    v.get("access_token").and_then(|t| t.as_str()).map(|t| t.to_string())
}

/// Relies on serde_json (from_str, Value::get, Value::as_array, Value::as_str,
/// Value::as_u64): the manifest's layers as plain digest/size pairs, a
/// function of the text alone.
#[verifier::external_body]
pub(crate) fn json_manifest_layers(s: &str) -> (r: Option<Vec<(Option<String>, Option<u64>)>>)
    ensures
        r.deep_view() == manifest_layers_of(s@),
{
    let v: serde_json::Value = serde_json::from_str(s).ok()?;
    let layers = v.get("layers")?.as_array()?;
    Some(
        layers
            .iter()
            .map(|l| {
                (
                    l.get("digest").and_then(|d| d.as_str()).map(|d| d.to_string()),
                    l.get("size").and_then(|n| n.as_u64()),
                )
            })
            .collect(),
    )
}

} // verus!
