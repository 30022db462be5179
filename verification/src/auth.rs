//! The Bearer-token authentication sub-protocol: parse a `WWW-Authenticate`
//! challenge, build the token-endpoint URL, and decide each step of the
//! two-attempt exchange. The protocol allows at most one re-authentication
//! per logical call — an explicit two-step decision, never a loop.

use crate::error::ProxyError;
use crate::jsonval::{
    access_token_field_of, json_access_token_field, json_body_ok, json_ok_of, json_token_field,
    token_field_of,
};
use crate::proxy::{is_success_status, manifest_status_spec};
use crate::strutil::{
    contains_char, find_char, first_index_of, lemma_first_index_of, split_char, split_str, str_eq,
    trim, trim_spec,
};
use vstd::prelude::*;

verus! {

// ---------------------------------------------------------------------------
// Challenge parsing
// ---------------------------------------------------------------------------
/// One `key="value"` parameter of a challenge header: the part before the
/// first `=` is the key (trimmed), the part after it the value (trimmed, and
/// stripped of one pair of surrounding quotes). A piece without `=` yields
/// nothing.
pub open spec fn parse_pair_spec(pair: Seq<char>) -> Option<(Seq<char>, Seq<char>)> {
    let e = first_index_of(pair, '=');
    if e < 0 {
        None
    } else {
        let key = trim_spec(pair.take(e));
        let raw = trim_spec(pair.skip(e + 1));
        let val = if raw.len() >= 2 && raw[0] == '"' && raw.last() == '"' {
            raw.subrange(1, raw.len() - 1)
        } else {
            raw
        };
        Some((key, val))
    }
}

/// The parameters taken from a list of comma-separated pieces, in order.
pub open spec fn pairs_of(parts: Seq<Seq<char>>) -> Seq<(Seq<char>, Seq<char>)>
    decreases parts.len(),
{
    if parts.len() == 0 {
        Seq::empty()
    } else {
        pairs_of(parts.drop_last()) + (match parse_pair_spec(parts.last()) {
            Some(kv) => seq![kv],
            None => Seq::empty(),
        })
    }
}

/// The parameters of a `WWW-Authenticate` header: everything after the
/// scheme token (the first space) is a comma-separated `key="value"` list.
/// A header without a space has no parameters.
pub open spec fn www_params_spec(s: Seq<char>) -> Seq<(Seq<char>, Seq<char>)> {
    let sp = first_index_of(s, ' ');
    if sp < 0 {
        Seq::empty()
    } else {
        pairs_of(split_char(s.skip(sp + 1), ','))
    }
}

/// The value under `key`, the last occurrence winning, as repeated
/// insertions into a map would leave it.
pub open spec fn lookup_spec(pairs: Seq<(Seq<char>, Seq<char>)>, key: Seq<char>) -> Option<
    Seq<char>,
>
    decreases pairs.len(),
{
    if pairs.len() == 0 {
        None
    } else if pairs.last().0 == key {
        Some(pairs.last().1)
    } else {
        lookup_spec(pairs.drop_last(), key)
    }
}

/// The parameters parsed from a `WWW-Authenticate` challenge header.
pub struct AuthParams {
    pub pairs: Vec<(String, String)>,
}

impl View for AuthParams {
    type V = Seq<(Seq<char>, Seq<char>)>;

    open spec fn view(&self) -> Seq<(Seq<char>, Seq<char>)> {
        self.pairs@.map_values(|p: (String, String)| (p.0@, p.1@))
    }
}

impl AuthParams {
    /// The value of `key`, the last occurrence winning.
    pub fn get(&self, key: &str) -> (r: Option<&String>)
        ensures
            r matches Some(v) ==> lookup_spec(self@, key@) == Some(v@),
            r is None ==> lookup_spec(self@, key@) is None,
    {
        let n = self.pairs.len();
        proof {
            assert(self@.len() == n);
            assert(self@.take(n as int) =~= self@);
        }
        let mut i: usize = n;
        while i > 0
            invariant
                n == self.pairs@.len(),
                self@.len() == n,
                i <= n,
                lookup_spec(self@, key@) == lookup_spec(self@.take(i as int), key@),
        decreases i,
        {
            proof {
                assert(self@.take(i as int).last() == (self.pairs@[i - 1].0@, self.pairs@[i
                    - 1].1@));
                assert(self@.take(i as int).drop_last() =~= self@.take(i - 1));
            }
            if str_eq(self.pairs[i - 1].0.as_str(), key) {
                return Some(&self.pairs[i - 1].1);
            }
            i -= 1;
        }
        proof {
            assert(self@.take(0int).len() == 0);
        }
        None
    }
}

/// Parse one `key="value"` piece, as `parse_pair_spec` describes.
fn parse_pair(pair: &str) -> (r: Option<(String, String)>)
    ensures
        r matches Some(kv) ==> parse_pair_spec(pair@) == Some((kv.0@, kv.1@)),
        r is None ==> parse_pair_spec(pair@) is None,
{
    proof {
        lemma_first_index_of(pair@, '=');
    }
    let e = match find_char(pair, '=') {
        Some(e) => e,
        None => {
            return None;
        },
    };
    let n = pair.unicode_len();
    let key = trim(pair.substring_char(0, e)).to_owned();
    proof {
        assert(pair@.subrange(0, e as int) =~= pair@.take(e as int));
    }
    let raw = trim(pair.substring_char(e + 1, n));
    proof {
        assert(pair@.subrange(e + 1, n as int) =~= pair@.skip(e + 1));
    }
    let m = raw.unicode_len();
    let val = if m >= 2 && raw.get_char(0) == '"' && raw.get_char(m - 1) == '"' {
        raw.substring_char(1, m - 1).to_owned()
    } else {
        raw.to_owned()
    };
    Some((key, val))
}

/// Parse a header like
/// `Bearer realm="https://auth.docker.io/token",service="registry.docker.io"`
/// into its parameter list.
pub fn parse_www_authenticate(s: &str) -> (r: AuthParams)
    ensures
        r@ == www_params_spec(s@),
{
    proof {
        lemma_first_index_of(s@, ' ');
    }
    let sp = match find_char(s, ' ') {
        Some(sp) => sp,
        None => {
            let r = AuthParams { pairs: Vec::new() };
            proof {
                assert(r@ =~= www_params_spec(s@));
            }
            return r;
        },
    };
    let n = s.unicode_len();
    let params_part = s.substring_char(sp + 1, n);
    proof {
        assert(params_part@ =~= s@.skip(sp + 1));
    }
    let pieces = split_str(params_part, ',');
    let mut pairs: Vec<(String, String)> = Vec::new();
    let m = pieces.len();
    proof {
        assert(pieces.deep_view().len() == m);
    }
    let mut i: usize = 0;
    proof {
        assert(pieces.deep_view().take(0int).len() == 0);
        assert(pairs@.map_values(|p: (String, String)| (p.0@, p.1@)) =~= pairs_of(
            pieces.deep_view().take(0int),
        ));
    }
    while i < m
        invariant
            m == pieces@.len(),
            pieces.deep_view().len() == m,
            i <= m,
            pairs@.map_values(|p: (String, String)| (p.0@, p.1@)) == pairs_of(
                pieces.deep_view().take(i as int),
            ),
        decreases m - i,
    {
        let ghost pre = pairs@.map_values(|p: (String, String)| (p.0@, p.1@));
        proof {
            assert(pieces.deep_view().take(i + 1).drop_last() =~= pieces.deep_view().take(
                i as int,
            ));
            assert(pieces.deep_view().take(i + 1).last() == pieces.deep_view()[i as int]);
            assert(pieces.deep_view()[i as int] == pieces@[i as int]@);
        }
        match parse_pair(pieces[i].as_str()) {
            Some(kv) => {
                let ghost kvv = (kv.0@, kv.1@);
                pairs.push(kv);
                proof {
                    assert(pairs@.map_values(|p: (String, String)| (p.0@, p.1@)) =~= pre.push(
                        kvv,
                    ));
                    assert(pre.push(kvv) =~= pre + seq![kvv]);
                }
            },
            None => {
                proof {
                    assert(pairs_of(pieces.deep_view().take(i + 1)) =~= pre);
                }
            },
        }
        i += 1;
    }
    proof {
        assert(pieces.deep_view().take(m as int) =~= pieces.deep_view());
    }
    AuthParams { pairs }
}

// ---------------------------------------------------------------------------
// Token URL
// ---------------------------------------------------------------------------
/// The token-endpoint URL: the realm, with `service` and `scope` attached as
/// query parameters when the challenge named them — the first parameter with
/// `?` (unless the realm already carries one), later ones with `&`.
pub open spec fn token_url_spec(
    realm: Seq<char>,
    service: Option<Seq<char>>,
    scope: Option<Seq<char>>,
) -> Seq<char> {
    let u1 = realm;
    let u2 = match service {
        Some(sv) => u1 + (if contains_char(u1, '?') {
            "&"@
        } else {
            "?"@
        }) + "service="@ + sv,
        None => u1,
    };
    match scope {
        Some(sc) => u2 + (if contains_char(u2, '?') {
            "&"@
        } else {
            "?"@
        }) + "scope="@ + sc,
        None => u2,
    }
}

fn push_query_sep(url: &mut String)
    ensures
        final(url)@ == old(url)@ + (if contains_char(old(url)@, '?') {
            "&"@
        } else {
            "?"@
        }),
{
    proof {
        lemma_first_index_of(url@, '?');
    }
    if find_char(url.as_str(), '?').is_some() {
        url.append("&");
    } else {
        url.append("?");
    }
}

/// Build the token-endpoint URL from the challenge's fields.
pub fn build_token_url(realm: &str, service: Option<&String>, scope: Option<&String>) -> (r:
    String)
    ensures
        r@ == token_url_spec(
            realm@,
            match service {
                Some(sv) => Some(sv@),
                None => None,
            },
            match scope {
                Some(sc) => Some(sc@),
                None => None,
            },
        ),
{
    let mut url = realm.to_owned();
    if let Some(sv) = service {
        push_query_sep(&mut url);
        url.append("service=");
        url.append(sv.as_str());
    }
    if let Some(sc) = scope {
        push_query_sep(&mut url);
        url.append("scope=");
        url.append(sc.as_str());
    }
    url
}

// ---------------------------------------------------------------------------
// The two-attempt exchange
// ---------------------------------------------------------------------------
/// What to do after the first attempt's answer.
pub enum AuthDecision {
    /// Not a 401: the answer stands, success or not, and is not retried.
    Respond { status: u16 },
    /// A 401 with a usable challenge: fetch a token from this URL, then
    /// retry the original request once with it.
    NeedToken { token_url: String },
    /// A 401 whose challenge cannot be used: fail with this error.
    Fail { err: ProxyError },
}

/// The mathematical shape of an `AuthDecision`.
pub enum AuthDecisionView {
    Respond { status: u16 },
    NeedToken { token_url: Seq<char> },
    Fail { err: ProxyError },
}

impl View for AuthDecision {
    type V = AuthDecisionView;

    open spec fn view(&self) -> AuthDecisionView {
        match self {
            AuthDecision::Respond { status } => AuthDecisionView::Respond { status: *status },
            AuthDecision::NeedToken { token_url } => AuthDecisionView::NeedToken {
                token_url: token_url@,
            },
            AuthDecision::Fail { err } => AuthDecisionView::Fail { err: *err },
        }
    }
}

/// The decision after the first attempt: anything but 401 passes through; a
/// 401 without a `WWW-Authenticate` header is `MissingAuthHeader`, one whose
/// challenge names no realm is `MissingAuthRealm`, and otherwise one token
/// exchange follows at the URL built from the challenge.
pub open spec fn after_first_spec(status: u16, www: Option<Seq<char>>) -> AuthDecisionView {
    if status != 401 {
        AuthDecisionView::Respond { status }
    } else {
        match www {
            None => AuthDecisionView::Fail { err: ProxyError::MissingAuthHeader },
            Some(h) => {
                let params = www_params_spec(h);
                match lookup_spec(params, "realm"@) {
                    None => AuthDecisionView::Fail { err: ProxyError::MissingAuthRealm },
                    Some(realm) => AuthDecisionView::NeedToken {
                        token_url: token_url_spec(
                            realm,
                            lookup_spec(params, "service"@),
                            lookup_spec(params, "scope"@),
                        ),
                    },
                }
            },
        }
    }
}

/// Decide what follows the first attempt. `www_authenticate` is the
/// response's `WWW-Authenticate` header, when it carried a readable one.
pub fn decide_after_first(status: u16, www_authenticate: Option<&str>) -> (r: AuthDecision)
    ensures
        r@ == after_first_spec(
            status,
            match www_authenticate {
                Some(h) => Some(h@),
                None => None,
            },
        ),
{
    if status != 401 {
        return AuthDecision::Respond { status };
    }
    let header = match www_authenticate {
        Some(h) => h,
        None => {
            return AuthDecision::Fail { err: ProxyError::MissingAuthHeader };
        },
    };
    let params = parse_www_authenticate(header);
    let realm = match params.get("realm") {
        Some(r) => r.clone(),
        None => {
            return AuthDecision::Fail { err: ProxyError::MissingAuthRealm };
        },
    };
    let token_url = build_token_url(realm.as_str(), params.get("service"), params.get("scope"));
    AuthDecision::NeedToken { token_url }
}

/// What the token fields of a token-endpoint answer yield: `token` wins,
/// `access_token` is the fallback, neither is `TokenNotFound`.
pub open spec fn select_token_spec(
    token: Option<Seq<char>>,
    access_token: Option<Seq<char>>,
) -> Result<Seq<char>, ProxyError> {
    match token {
        Some(t) => Ok(t),
        None => match access_token {
            Some(t) => Ok(t),
            None => Err(ProxyError::TokenNotFound),
        },
    }
}

/// Choose the bearer token out of the two fields a token endpoint may fill.
pub fn select_token(token: Option<String>, access_token: Option<String>) -> (r: Result<
    String,
    ProxyError,
>)
    ensures
        select_token_spec(token.deep_view(), access_token.deep_view()) matches Ok(t) ==> (
        r matches Ok(rt) && rt@ == t),
        select_token_spec(token.deep_view(), access_token.deep_view()) matches Err(e) ==> r == Err::<
            String,
            ProxyError,
        >(e),
{
    match token {
        Some(t) => Ok(t),
        None => match access_token {
            Some(t) => Ok(t),
            None => Err(ProxyError::TokenNotFound),
        },
    }
}

/// What a token endpoint's answer yields: a non-2xx status is
/// `TokenRequestFailed` with that status; a body that is not JSON is
/// `TokenParseFailed`; a document without `token` or `access_token` is
/// `TokenNotFound`; otherwise the token, `token` winning over
/// `access_token`.
pub open spec fn extract_token_spec(status: u16, body: Seq<char>) -> Result<Seq<char>, ProxyError> {
    if !is_token_success(status) {
        Err(ProxyError::TokenRequestFailed { status })
    } else if !json_ok_of(body) {
        Err(ProxyError::TokenParseFailed)
    } else {
        select_token_spec(token_field_of(body), access_token_field_of(body))
    }
}

/// Interpret a token endpoint's answer, ready for the single retry.
pub fn extract_token(status: u16, body: &str) -> (r: Result<String, ProxyError>)
    ensures
        extract_token_spec(status, body@) matches Ok(t) ==> (r matches Ok(rt) && rt@ == t),
        extract_token_spec(status, body@) matches Err(e) ==> r == Err::<String, ProxyError>(e),
{
    if !(200 <= status && status < 300) {
        return Err(ProxyError::TokenRequestFailed { status });
    }
    if !json_body_ok(body) {
        return Err(ProxyError::TokenParseFailed);
    }
    let token = json_token_field(body);
    let access_token = json_access_token_field(body);
    select_token(token, access_token)
}

/// A token endpoint answered successfully.
pub open spec fn is_token_success(status: u16) -> bool {
    200 <= status < 300
}

// ---------------------------------------------------------------------------
// The bounded-retry law
// ---------------------------------------------------------------------------
/// How many token-endpoint requests one logical call makes, as a function of
/// the first attempt's answer: one exactly when that answer is a 401 whose
/// challenge names a realm, and zero otherwise. There is no decision that
/// asks for a second exchange, so the engine never retries indefinitely.
pub open spec fn token_requests_spec(status: u16, www: Option<Seq<char>>) -> nat {
    if after_first_spec(status, www) is NeedToken {
        1
    } else {
        0
    }
}

/// The auth flow is a bounded two-attempt exchange: at most one token
/// request follows any first answer; a 401 bearing a challenge that names a
/// realm leads to exactly one, at the URL built from the challenge's realm,
/// service and scope; any other status leads to none and stands as the
/// result; a 2xx token answer whose JSON carries the token grants exactly
/// it; and a 2xx answer to the retried manifest request is final success.
/// For a simulated upstream that answers 401 with a valid challenge and then
/// 200 once the token is supplied, this is: one token request, then success.
pub proof fn lemma_auth_retry_once(
    status: u16,
    header: Seq<char>,
    token_status: u16,
    token_body: Seq<char>,
    tok: Seq<char>,
    retry_status: u16,
)
    ensures
        token_requests_spec(status, Some(header)) <= 1,
        status != 401 ==> token_requests_spec(status, Some(header)) == 0
            && after_first_spec(status, Some(header)) == (AuthDecisionView::Respond { status }),
        status == 401 ==> (lookup_spec(www_params_spec(header), "realm"@) matches Some(realm)
            ==> token_requests_spec(status, Some(header)) == 1 && after_first_spec(
            status,
            Some(header),
        ) == (AuthDecisionView::NeedToken {
            token_url: token_url_spec(
                realm,
                lookup_spec(www_params_spec(header), "service"@),
                lookup_spec(www_params_spec(header), "scope"@),
            ),
        })),
        is_token_success(token_status) && json_ok_of(token_body) && token_field_of(token_body)
            == Some(tok) ==> extract_token_spec(token_status, token_body) == Ok::<
            Seq<char>,
            ProxyError,
        >(tok),
        is_success_status(retry_status) ==> manifest_status_spec(retry_status) == Ok::<
            (),
            ProxyError,
        >(()),
{
}

} // verus!
