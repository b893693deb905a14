//! What authentication does to an outgoing REST request, and how an OAuth2 token
//! response is read.

use vstd::prelude::*;
use crate::rest::{AuthConfig, RestConnectorError};
use crate::webhook::{get_field, json_field};

verus! {

/// The text of a JSON string (`Value::as_str`), `None` for any other JSON value.
pub uninterp spec fn json_str_content(text: Seq<char>) -> Option<Seq<char>>;

/// `serde_json::from_str::<Value>(text)`, then `as_str`.
#[verifier::external_body]
pub(crate) fn json_as_str(text: &str) -> (r: Option<String>)
    ensures
        match r {
            Some(s) => json_str_content(text@) == Some(s@),
            None => json_str_content(text@) is None,
        },
{
    match serde_json::from_str::<serde_json::Value>(text) {
        Ok(v) => v.as_str().map(|s| s.to_string()),
        Err(_) => None,
    }
}

/// The value of a JSON number that is a `u64` (`Value::as_u64`).
pub uninterp spec fn json_u64(text: Seq<char>) -> Option<u64>;

/// `serde_json::from_str::<Value>(text)`, then `as_u64`.
#[verifier::external_body]
fn json_as_u64(text: &str) -> (r: Option<u64>)
    ensures
        r == json_u64(text@),
{
    match serde_json::from_str::<serde_json::Value>(text) {
        Ok(v) => v.as_u64(),
        Err(_) => None,
    }
}

/// What is done to a request to authenticate it.
#[derive(Debug, Clone, PartialEq, Eq)]
pub enum AuthStep {
    /// Nothing.
    Unchanged,
    /// An `Authorization: Bearer` header with the token.
    Bearer(String),
    /// A header.
    Header(String, String),
    /// A query parameter.
    Query(String, String),
    /// HTTP basic authentication with user name and password.
    Basic(String, String),
    /// First fetch a token: a form posted to the token URL.
    FetchToken { token_url: String, form: Vec<(String, String)> },
}

/// The scopes joined by spaces.
pub open spec fn joined_scopes(s: Seq<Seq<char>>) -> Seq<char>
    decreases s.len(),
{
    if s.len() == 0 {
        Seq::empty()
    } else if s.len() == 1 {
        s[0]
    } else {
        joined_scopes(s.drop_last()) + " "@ + s.last()
    }
}

/// The views of a list of texts.
pub open spec fn text_views(s: Seq<String>) -> Seq<Seq<char>> {
    s.map_values(|x: String| x@)
}

/// The step taken for an authentication setting, given the cached OAuth2 token (with the
/// time it expires) and the time `now`.
pub open spec fn auth_step_ok(auth: AuthConfig, cached: Option<(String, i64)>, now: i64, r: AuthStep) -> bool {
    match auth {
        AuthConfig::NoAuth => r == AuthStep::Unchanged,
        AuthConfig::Bearer { token } => r matches AuthStep::Bearer(t) && t@ == token@,
        AuthConfig::ApiKey { key, value, in_header } => if in_header {
            r matches AuthStep::Header(k, v) && k@ == key@ && v@ == value@
        } else {
            r matches AuthStep::Query(k, v) && k@ == key@ && v@ == value@
        },
        AuthConfig::Basic { username, password } => r matches AuthStep::Basic(u, p) && u@ == username@ && p@
            == password@,
        AuthConfig::OAuth2 { client_id, client_secret, token_url, scopes } => match cached {
            Some((tok, expires)) if expires > now => r matches AuthStep::Bearer(t) && t@ == tok@,
            _ => r matches AuthStep::FetchToken { token_url: u, form } && u@ == token_url@ && form@.len() == 4
                && form@[0].0@ == "grant_type"@ && form@[0].1@ == "client_credentials"@
                && form@[1].0@ == "client_id"@ && form@[1].1@ == client_id@
                && form@[2].0@ == "client_secret"@ && form@[2].1@ == client_secret@
                && form@[3].0@ == "scope"@ && form@[3].1@ == joined_scopes(text_views(scopes@)),
        },
        AuthConfig::Custom { header, value } => r matches AuthStep::Header(k, v) && k@ == header@ && v@ == value@,
    }
}

fn join_scopes(scopes: &Vec<String>) -> (r: String)
    ensures
        r@ == joined_scopes(text_views(scopes@)),
{
    let ghost sv = text_views(scopes@);
    let mut s = String::new();
    let mut i: usize = 0;
    assert(sv.take(0) =~= Seq::<Seq<char>>::empty());
    while i < scopes.len()
        invariant
            i <= scopes@.len(),
            sv == text_views(scopes@),
            s@ == joined_scopes(sv.take(i as int)),
        decreases scopes.len() - i,
    {
        assert(sv.take(i + 1).drop_last() =~= sv.take(i as int));
        if i > 0 {
            s.append(" ");
        } else {
            assert(sv.take(1) =~= seq![sv[0]]);
        }
        s.append(scopes[i].as_str());
        i = i + 1;
    }
    assert(sv.take(sv.len() as int) =~= sv);
    s
}

/// How a request is authenticated: a bearer token, an API key in a header or the query,
/// basic authentication, a custom header; for OAuth2 the cached token while it has not
/// expired, otherwise a client-credentials token request.
pub fn auth_step(auth: &AuthConfig, cached: &Option<(String, i64)>, now: i64) -> (r: AuthStep)
    ensures
        auth_step_ok(*auth, *cached, now, r),
{
    match auth {
        AuthConfig::NoAuth => AuthStep::Unchanged,
        AuthConfig::Bearer { token } => AuthStep::Bearer(token.clone()),
        AuthConfig::ApiKey { key, value, in_header } => {
            if *in_header {
                AuthStep::Header(key.clone(), value.clone())
            } else {
                AuthStep::Query(key.clone(), value.clone())
            }
        },
        AuthConfig::Basic { username, password } => AuthStep::Basic(username.clone(), password.clone()),
        AuthConfig::OAuth2 { client_id, client_secret, token_url, scopes } => {
            match cached {
                Some((tok, expires)) => {
                    if *expires > now {
                        return AuthStep::Bearer(tok.clone());
                    }
                },
                None => {},
            }
            let mut form: Vec<(String, String)> = Vec::new();
            form.push((String::from_str("grant_type"), String::from_str("client_credentials")));
            form.push((String::from_str("client_id"), client_id.clone()));
            form.push((String::from_str("client_secret"), client_secret.clone()));
            form.push((String::from_str("scope"), join_scopes(scopes)));
            AuthStep::FetchToken { token_url: token_url.clone(), form }
        },
        AuthConfig::Custom { header, value } => AuthStep::Header(header.clone(), value.clone()),
    }
}

/// What a token response (JSON text) gives: its `access_token` string and its
/// `expires_in` (3600 when absent or not a `u64`).
pub open spec fn token_result(response: Seq<char>) -> Result<(Seq<char>, u64), Seq<char>> {
    let tok = match json_field(response, "access_token"@) {
        Some(f) => json_str_content(f),
        None => None,
    };
    let exp: u64 = match json_field(response, "expires_in"@) {
        Some(f) => match json_u64(f) {
            Some(n) => n,
            None => 3600,
        },
        None => 3600,
    };
    match tok {
        None => Err("No access_token in response"@),
        Some(t) => Ok((t, exp)),
    }
}

/// Read an OAuth2 token response: the access token and its lifetime in seconds.
pub fn read_token_response(response: &str) -> (r: Result<(String, u64), RestConnectorError>)
    ensures
        match token_result(response@) {
            Ok((t, e)) => r matches Ok(x) && x.0@ == t && x.1 == e,
            Err(m) => r matches Err(RestConnectorError::AuthenticationFailed(x)) && x@ == m,
        },
{
    let tok = match get_field(response, "access_token") {
        Some(f) => json_as_str(f.as_str()),
        None => None,
    };
    let exp: u64 = match get_field(response, "expires_in") {
        Some(f) => match json_as_u64(f.as_str()) {
            Some(n) => n,
            None => 3600,
        },
        None => 3600,
    };
    match tok {
        None => Err(RestConnectorError::AuthenticationFailed(String::from_str("No access_token in response"))),
        Some(t) => Ok((t, exp)),
    }
}

/// When a fetched token is taken to expire: sixty seconds before its lifetime ends,
/// in milliseconds from `now`.
pub fn token_expiry(now: i64, expires_in: u64) -> (r: i64)
    requires
        expires_in >= 60,
        now + (expires_in - 60) * 1000 <= i64::MAX,
    ensures
        r == now + (expires_in - 60) * 1000,
{
    let secs: u64 = expires_in - 60;
    let wide: i128 = (now as i128) + (secs as i128) * 1000;
    wide as i64
}

} // verus!
