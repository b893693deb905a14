//! REST connector logic: configuration, authentication, rate limiting, retry and
//! circuit-breaker decisions, template substitution and header handling.
//! Times are milliseconds since the UNIX epoch.

use vstd::prelude::*;
use crate::ids::{clock_reading, now_millis};
use crate::node::ServiceAuth;
use crate::text::{chars_of, decimal, push_char, push_decimal};
use crate::workflow::keep;

verus! {

/// Errors of the REST connector.
#[derive(Debug, Clone, PartialEq, Eq)]
pub enum RestConnectorError {
    HttpError { status: u16, message: String },
    RequestFailed(String),
    InvalidUrl(String),
    AuthenticationFailed(String),
    RateLimitExceeded,
    Timeout,
    SerializationError(String),
    ResponseParsingError(String),
}

impl RestConnectorError {
    /// The displayed text of the error.
    pub fn message(&self) -> (r: String)
        ensures
            r@ == match *self {
                RestConnectorError::HttpError { status, message } => "HTTP error: "@ + decimal(status as nat) + " - "@
                    + message@,
                RestConnectorError::RequestFailed(m) => "Request failed: "@ + m@,
                RestConnectorError::InvalidUrl(m) => "Invalid URL: "@ + m@,
                RestConnectorError::AuthenticationFailed(m) => "Authentication failed: "@ + m@,
                RestConnectorError::RateLimitExceeded => "Rate limit exceeded"@,
                RestConnectorError::Timeout => "Timeout"@,
                RestConnectorError::SerializationError(m) => "Serialization error: "@ + m@,
                RestConnectorError::ResponseParsingError(m) => "Response parsing error: "@ + m@,
            },
    {
        match self {
            RestConnectorError::HttpError { status, message } => {
                let mut r = String::from_str("HTTP error: ");
                push_decimal(&mut r, *status as u64);
                r.append(" - ");
                r.append(message.as_str());
                r
            },
            RestConnectorError::RequestFailed(m) => {
                let mut r = String::from_str("Request failed: ");
                r.append(m.as_str());
                r
            },
            RestConnectorError::InvalidUrl(m) => {
                let mut r = String::from_str("Invalid URL: ");
                r.append(m.as_str());
                r
            },
            RestConnectorError::AuthenticationFailed(m) => {
                let mut r = String::from_str("Authentication failed: ");
                r.append(m.as_str());
                r
            },
            RestConnectorError::RateLimitExceeded => String::from_str("Rate limit exceeded"),
            RestConnectorError::Timeout => String::from_str("Timeout"),
            RestConnectorError::SerializationError(m) => {
                let mut r = String::from_str("Serialization error: ");
                r.append(m.as_str());
                r
            },
            RestConnectorError::ResponseParsingError(m) => {
                let mut r = String::from_str("Response parsing error: ");
                r.append(m.as_str());
                r
            },
        }
    }
}

/// Authentication of REST requests.
#[derive(Debug, Clone, PartialEq, Eq)]
pub enum AuthConfig {
    /// No authentication.
    NoAuth,
    Bearer { token: String },
    ApiKey { key: String, value: String, in_header: bool },
    Basic { username: String, password: String },
    OAuth2 { client_id: String, client_secret: String, token_url: String, scopes: Vec<String> },
    Custom { header: String, value: String },
}

impl AuthConfig {
    /// Bearer-token authentication.
    pub fn bearer(token: &str) -> (r: Self)
        ensures
            r matches AuthConfig::Bearer { token: t } && t@ == token@,
    {
        AuthConfig::Bearer { token: String::from_str(token) }
    }

    /// API-key authentication, sent as a header.
    pub fn api_key(key: &str, value: &str) -> (r: Self)
        ensures
            r matches AuthConfig::ApiKey { key: k, value: v, in_header } && k@ == key@ && v@ == value@ && in_header,
    {
        AuthConfig::ApiKey { key: String::from_str(key), value: String::from_str(value), in_header: true }
    }

    /// Basic authentication.
    pub fn basic(username: &str, password: &str) -> (r: Self)
        ensures
            r matches AuthConfig::Basic { username: u, password: p } && u@ == username@ && p@ == password@,
    {
        AuthConfig::Basic { username: String::from_str(username), password: String::from_str(password) }
    }
}

/// The authentication of a service node as connector authentication: the same scheme
/// with the same fields.
pub fn convert_auth(auth: &ServiceAuth) -> (r: AuthConfig)
    ensures
        match *auth {
            ServiceAuth::NoAuth => r == AuthConfig::NoAuth,
            ServiceAuth::Bearer { token } => r == AuthConfig::Bearer { token },
            ServiceAuth::ApiKey { key, value, in_header } => r == AuthConfig::ApiKey { key, value, in_header },
            ServiceAuth::Basic { username, password } => r == AuthConfig::Basic { username, password },
            ServiceAuth::OAuth2 { client_id, client_secret, token_url, scopes } => r matches AuthConfig::OAuth2 {
                client_id: c,
                client_secret: s,
                token_url: t,
                scopes: sc,
            } && c == client_id && s == client_secret && t == token_url && sc@ == scopes@,
        },
{
    match auth {
        ServiceAuth::NoAuth => AuthConfig::NoAuth,
        ServiceAuth::Bearer { token } => AuthConfig::Bearer { token: token.clone() },
        ServiceAuth::ApiKey { key, value, in_header } => AuthConfig::ApiKey {
            key: key.clone(),
            value: value.clone(),
            in_header: *in_header,
        },
        ServiceAuth::Basic { username, password } => AuthConfig::Basic {
            username: username.clone(),
            password: password.clone(),
        },
        ServiceAuth::OAuth2 { client_id, client_secret, token_url, scopes } => AuthConfig::OAuth2 {
            client_id: client_id.clone(),
            client_secret: client_secret.clone(),
            token_url: token_url.clone(),
            scopes: copy_strings(scopes),
        },
    }
}

/// A copy of a list of texts.
pub fn copy_strings(v: &Vec<String>) -> (r: Vec<String>)
    ensures
        r@ == v@,
{
    let mut r: Vec<String> = Vec::new();
    let mut i: usize = 0;
    while i < v.len()
        invariant
            i <= v@.len(),
            r@ == v@.take(i as int),
        decreases v.len() - i,
    {
        r.push(v[i].clone());
        i = i + 1;
        assert(r@ =~= v@.take(i as int));
    }
    assert(r@ =~= v@);
    r
}

/// How service calls are executed.
#[derive(Debug, Clone, PartialEq, Eq)]
pub enum ServiceExecutionMode {
    /// Execute the request directly.
    Internal,
    /// Hand the task to a queue for an external worker.
    Remote { queue_url: String, queue_name: String },
}

/// Executes service nodes in a given mode.
pub struct ServiceExecutor {
    pub mode: ServiceExecutionMode,
}

impl ServiceExecutor {
    /// An executor in the given mode.
    pub fn new(mode: ServiceExecutionMode) -> (r: Self)
        ensures
            r.mode == mode,
    {
        ServiceExecutor { mode }
    }

    /// An executor that calls services directly.
    pub fn internal() -> (r: Self)
        ensures
            r.mode == ServiceExecutionMode::Internal,
    {
        Self::new(ServiceExecutionMode::Internal)
    }

    /// An executor that dispatches to a remote queue.
    pub fn remote(queue_url: String, queue_name: String) -> (r: Self)
        ensures
            r.mode == (ServiceExecutionMode::Remote { queue_url, queue_name }),
    {
        Self::new(ServiceExecutionMode::Remote { queue_url, queue_name })
    }
}

/// Rate limit: at most `max_requests` in any window of `window_secs` seconds.
#[derive(Debug, Clone, Copy, PartialEq, Eq)]
pub struct RateLimitConfig {
    pub max_requests: u32,
    pub window_secs: u64,
}

impl RateLimitConfig {
    /// The default: 100 requests per 60 seconds.
    pub fn default_config() -> (r: Self)
        ensures
            r == (RateLimitConfig { max_requests: 100, window_secs: 60 }),
    {
        RateLimitConfig { max_requests: 100, window_secs: 60 }
    }
}

/// Retry policy of the connector.
#[derive(Debug, Clone, PartialEq, Eq)]
pub struct RetryConfig {
    pub max_retries: u32,
    pub initial_delay_ms: u64,
    pub max_delay_ms: u64,
    /// HTTP statuses that are retried.
    pub retry_status_codes: Vec<u16>,
}

impl RetryConfig {
    /// The default: 3 retries from 1 s up to 30 s, retrying 408, 429, 500, 502, 503 and 504.
    pub fn default_config() -> (r: Self)
        ensures
            r.max_retries == 3,
            r.initial_delay_ms == 1000,
            r.max_delay_ms == 30000,
            r.retry_status_codes@ == seq![408u16, 429u16, 500u16, 502u16, 503u16, 504u16],
    {
        let mut codes: Vec<u16> = Vec::new();
        codes.push(408);
        codes.push(429);
        codes.push(500);
        codes.push(502);
        codes.push(503);
        codes.push(504);
        assert(codes@ =~= seq![408u16, 429u16, 500u16, 502u16, 503u16, 504u16]);
        RetryConfig { max_retries: 3, initial_delay_ms: 1000, max_delay_ms: 30000, retry_status_codes: codes }
    }
}

/// The request timeout of a connector unless configured otherwise, in seconds.
pub fn default_timeout() -> (r: u64)
    ensures
        r == 30,
{
    30
}

/// The lifetime of cached responses unless configured otherwise, in seconds.
pub fn default_cache_ttl() -> (r: u64)
    ensures
        r == 300,
{
    300
}

/// The views of a list of (name, value) pairs.
pub open spec fn pair_views(s: Seq<(String, String)>) -> Seq<(Seq<char>, Seq<char>)> {
    s.map_values(|p: (String, String)| (p.0@, p.1@))
}

/// `i` is the first position of an entry named `k`.
pub open spec fn is_first_key(s: Seq<(Seq<char>, Seq<char>)>, k: Seq<char>, i: int) -> bool {
    0 <= i < s.len() && s[i].0 == k && forall|j: int| 0 <= j < i ==> s[j].0 != k
}

/// Set `k` to `v` in a list of (name, value) pairs: replace the value of the first entry
/// named `k`, or add the entry at the end.
pub open spec fn upsert(s: Seq<(Seq<char>, Seq<char>)>, k: Seq<char>, v: Seq<char>) -> Seq<(Seq<char>, Seq<char>)> {
    if exists|i: int| #[trigger] is_first_key(s, k, i) {
        s.update(choose|i: int| #[trigger] is_first_key(s, k, i), (k, v))
    } else {
        s.push((k, v))
    }
}

/// Set a header (or parameter) in a list of pairs, as `HashMap::insert` does.
pub fn upsert_pair(v: &mut Vec<(String, String)>, k: String, val: String)
    ensures
        pair_views(final(v)@) == upsert(pair_views(old(v)@), k@, val@),
{
    let ghost s = pair_views(v@);
    let mut i: usize = 0;
    while i < v.len()
        invariant
            i <= v@.len(),
            s == pair_views(v@),
            s == pair_views(old(v)@),
            forall|j: int| 0 <= j < i ==> #[trigger] v@[j].0@ != k@,
        decreases v.len() - i,
    {
        if v[i].0 == k {
            proof {
                assert forall|j: int| 0 <= j < i implies s[j].0 != k@ by {
                    assert(s[j].0 == v@[j].0@);
                }
                assert(is_first_key(s, k@, i as int));
                let c = choose|c: int| #[trigger] is_first_key(s, k@, c);
                assert(is_first_key(s, k@, c));
                if c < i {
                    assert(s[c].0 != k@);
                } else if c > i {
                    assert(s[i as int].0 != k@);
                }
                assert(c == i);
                assert(upsert(s, k@, val@) == s.update(i as int, (k@, val@)));
            }
            v.set(i, (k, val));
            assert(pair_views(v@) =~= s.update(i as int, (k@, val@)));
            return;
        }
        i = i + 1;
    }
    proof {
        assert forall|j: int| 0 <= j < s.len() implies #[trigger] s[j].0 != k@ by {
            assert(s[j].0 == v@[j].0@);
        }
        assert(!exists|c: int| #[trigger] is_first_key(s, k@, c));
    }
    v.push((k, val));
    assert(pair_views(v@) =~= s.push((k@, val@)));
}

/// Configuration of a REST connector.
#[derive(Debug, Clone, PartialEq, Eq)]
pub struct RestConfig {
    pub base_url: String,
    pub auth: AuthConfig,
    pub default_headers: Vec<(String, String)>,
    pub timeout_secs: u64,
    pub rate_limit: Option<RateLimitConfig>,
    pub retry: Option<RetryConfig>,
    pub enable_cache: bool,
    pub cache_ttl_secs: u64,
}

impl RestConfig {
    /// A configuration for the base URL: no authentication or headers, 30 s timeout,
    /// no rate limit or retry, caching off with a 300 s lifetime.
    pub fn new(base_url: &str) -> (r: Self)
        ensures
            r.base_url@ == base_url@,
            r.auth == AuthConfig::NoAuth,
            r.default_headers@.len() == 0,
            r.timeout_secs == 30,
            r.rate_limit is None,
            r.retry is None,
            !r.enable_cache,
            r.cache_ttl_secs == 300,
    {
        RestConfig {
            base_url: String::from_str(base_url),
            auth: AuthConfig::NoAuth,
            default_headers: Vec::new(),
            timeout_secs: default_timeout(),
            rate_limit: None,
            retry: None,
            enable_cache: false,
            cache_ttl_secs: default_cache_ttl(),
        }
    }

    /// Set the authentication.
    pub fn with_auth(self, auth: AuthConfig) -> (r: Self)
        ensures
            r == (RestConfig { auth, ..self }),
    {
        RestConfig { auth, ..self }
    }

    /// Set the timeout.
    pub fn with_timeout_secs(self, secs: u64) -> (r: Self)
        ensures
            r == (RestConfig { timeout_secs: secs, ..self }),
    {
        RestConfig { timeout_secs: secs, ..self }
    }

    /// Retry with the default policy and the given number of retries.
    pub fn with_retry(self, max_retries: u32) -> (r: Self)
        ensures
            r.retry matches Some(rc) && rc.max_retries == max_retries && rc.initial_delay_ms == 1000
                && rc.max_delay_ms == 30000 && rc.retry_status_codes@ == seq![408u16, 429u16, 500u16, 502u16, 503u16, 504u16],
            r == (RestConfig { retry: r.retry, ..self }),
    {
        let d = RetryConfig::default_config();
        RestConfig { retry: Some(RetryConfig { max_retries, ..d }), ..self }
    }

    /// Set the rate limit.
    pub fn with_rate_limit(self, max_requests: u32, window_secs: u64) -> (r: Self)
        ensures
            r == (RestConfig { rate_limit: Some(RateLimitConfig { max_requests, window_secs }), ..self }),
    {
        RestConfig { rate_limit: Some(RateLimitConfig { max_requests, window_secs }), ..self }
    }

    /// Enable caching with the given lifetime.
    pub fn with_cache(self, ttl_secs: u64) -> (r: Self)
        ensures
            r == (RestConfig { enable_cache: true, cache_ttl_secs: ttl_secs, ..self }),
    {
        RestConfig { enable_cache: true, cache_ttl_secs: ttl_secs, ..self }
    }

    /// Set a default header.
    pub fn with_header(self, key: &str, value: &str) -> (r: Self)
        ensures
            pair_views(r.default_headers@) == upsert(pair_views(self.default_headers@), key@, value@),
            r == (RestConfig { default_headers: r.default_headers, ..self }),
    {
        let mut s = self;
        upsert_pair(&mut s.default_headers, String::from_str(key), String::from_str(value));
        s
    }
}

/// Whether an HTTP status is a success (2xx).
pub fn is_success_status(status: u16) -> (r: bool)
    ensures
        r == (200 <= status < 300),
{
    200 <= status && status < 300
}

/// The time from `t` to `now`, zero when `t` is later (as `Instant::duration_since` saturates).
pub open spec fn elapsed_ms(now: i64, t: i64) -> int {
    if now >= t { now - t } else { 0 }
}

/// The request times that still lie inside a window of `window_secs` seconds at `now`.
pub open spec fn recent(times: Seq<i64>, now: i64, window_secs: u64) -> Seq<i64> {
    keep(times, |t: i64| elapsed_ms(now, t) < window_secs * 1000)
}

/// Timestamps of the requests made recently.
#[derive(Debug, Clone, PartialEq, Eq)]
pub struct RateLimiterState {
    pub request_times: Vec<i64>,
}

impl RateLimiterState {
    /// No request made yet.
    pub fn new() -> (r: Self)
        ensures
            r.request_times@.len() == 0,
    {
        RateLimiterState { request_times: Vec::new() }
    }

    /// Drop the requests older than the window at `now`; a request may be made when fewer
    /// than the limit remain.
    pub fn can_make_request_at(&mut self, config: &RateLimitConfig, now: i64) -> (r: bool)
        ensures
            final(self).request_times@ == recent(old(self).request_times@, now, config.window_secs),
            r == (final(self).request_times@.len() < config.max_requests),
    {
        let window: u128 = (config.window_secs as u128) * 1000;
        let ghost p = |t: i64| elapsed_ms(now, t) < config.window_secs * 1000;
        let ghost orig = self.request_times@;
        let mut kept: Vec<i64> = Vec::new();
        let mut i: usize = 0;
        while i < self.request_times.len()
            invariant
                i <= self.request_times@.len(),
                self.request_times@ == orig,
                window == config.window_secs * 1000,
                p == (|t: i64| elapsed_ms(now, t) < config.window_secs * 1000),
                kept@ == keep(orig.take(i as int), p),
            decreases self.request_times.len() - i,
        {
            proof {
                assert(orig.take(i + 1).drop_last() =~= orig.take(i as int));
            }
            let t = self.request_times[i];
            let e: u128 = if now >= t { ((now as i128) - (t as i128)) as u128 } else { 0 };
            if e < window {
                kept.push(t);
            }
            i = i + 1;
        }
        proof {
            assert(orig.take(orig.len() as int) =~= orig);
        }
        self.request_times = kept;
        (self.request_times.len() as u64) < (config.max_requests as u64)
    }

    /// Note a request made at `now`.
    pub fn record_request_at(&mut self, now: i64)
        ensures
            final(self).request_times@ == old(self).request_times@.push(now),
    {
        self.request_times.push(now);
    }

    /// `can_make_request_at` at the current time.
    pub fn can_make_request(&mut self, config: &RateLimitConfig) -> (r: bool)
        ensures
            exists|now: i64|
                final(self).request_times@ == #[trigger] recent(old(self).request_times@, now, config.window_secs),
            r == (final(self).request_times@.len() < config.max_requests),
    {
        let now = now_millis();
        self.can_make_request_at(config, now)
    }

    /// Note a request made now.
    pub fn record_request(&mut self)
        ensures
            final(self).request_times@.len() == old(self).request_times@.len() + 1,
            final(self).request_times@.drop_last() == old(self).request_times@,
    {
        let now = now_millis();
        self.record_request_at(now);
        assert(final(self).request_times@.drop_last() =~= old(self).request_times@);
    }
}

fn contains_status(codes: &Vec<u16>, status: u16) -> (r: bool)
    ensures
        r == codes@.contains(status),
{
    let mut i: usize = 0;
    while i < codes.len()
        invariant
            i <= codes@.len(),
            forall|j: int| 0 <= j < i ==> codes@[j] != status,
        decreases codes.len() - i,
    {
        if codes[i] == status {
            assert(codes@[i as int] == status);
            return true;
        }
        i = i + 1;
    }
    false
}

/// Whether a failed request is retried: HTTP errors whose status is listed, and timeouts.
pub fn should_retry_error(error: &RestConnectorError, retry_status_codes: &Vec<u16>) -> (r: bool)
    ensures
        r == match *error {
            RestConnectorError::HttpError { status, .. } => retry_status_codes@.contains(status),
            RestConnectorError::Timeout => true,
            _ => false,
        },
{
    match error {
        RestConnectorError::HttpError { status, .. } => contains_status(retry_status_codes, *status),
        RestConnectorError::Timeout => true,
        _ => false,
    }
}

/// After the request of attempt `attempt` (from 0) failed: whether it is tried again.
pub fn retry_request(attempt: u32, max_retries: u32, retryable: bool) -> (r: bool)
    ensures
        r == (retryable && attempt < max_retries),
{
    retryable && attempt != max_retries && attempt < max_retries
}

/// Replace every non-overlapping occurrence of `p` in `s`, scanning left to right
/// (`str::replace` with a non-empty pattern).
pub open spec fn replace_all(s: Seq<char>, p: Seq<char>, r: Seq<char>) -> Seq<char>
    decreases s.len(),
{
    if p.len() == 0 || s.len() < p.len() {
        s
    } else if s.take(p.len() as int) == p {
        r + replace_all(s.skip(p.len() as int), p, r)
    } else {
        seq![s[0]] + replace_all(s.skip(1), p, r)
    }
}

/// The placeholder `{{name}}`.
pub open spec fn placeholder(name: Seq<char>) -> Seq<char> {
    seq!['{', '{'] + name + seq!['}', '}']
}

/// Replace each `{{name}}` of the variables, one variable after the other.
pub open spec fn substitute(s: Seq<char>, vars: Seq<(Seq<char>, Seq<char>)>) -> Seq<char>
    decreases vars.len(),
{
    if vars.len() == 0 {
        s
    } else {
        replace_all(substitute(s, vars.drop_last()), placeholder(vars.last().0), vars.last().1)
    }
}

fn starts_at(s: &Vec<char>, p: &Vec<char>, i: usize) -> (b: bool)
    requires
        i + p@.len() <= s@.len(),
    ensures
        b == (s@.skip(i as int).take(p@.len() as int) == p@),
{
    let mut k: usize = 0;
    while k < p.len()
        invariant
            i + p@.len() <= s@.len(),
            s@.len() == s.len(),
            k <= p@.len(),
            forall|j: int| 0 <= j < k ==> s@[i + j] == p@[j],
        decreases p@.len() - k,
    {
        if s[i + k] != p[k] {
            assert(s@.skip(i as int).take(p@.len() as int)[k as int] != p@[k as int]);
            return false;
        }
        k = k + 1;
    }
    assert(s@.skip(i as int).take(p@.len() as int) =~= p@);
    true
}

/// `str::replace` with a non-empty pattern.
pub fn replace_text(s: &str, p: &str, r: &str) -> (out: String)
    requires
        p@.len() > 0,
    ensures
        out@ == replace_all(s@, p@, r@),
{
    let sv = chars_of(s);
    let pv = chars_of(p);
    let mut out = String::new();
    let mut i: usize = 0;
    assert(sv@.skip(0) =~= sv@);
    assert(out@ + replace_all(sv@.skip(0), pv@, r@) =~= replace_all(sv@, pv@, r@));
    while i < sv.len()
        invariant
            pv@.len() > 0,
            sv@ == s@,
            pv@ == p@,
            i <= sv@.len(),
            out@ + replace_all(sv@.skip(i as int), pv@, r@) == replace_all(sv@, pv@, r@),
        decreases sv.len() - i,
    {
        let rest = Ghost(sv@.skip(i as int));
        if sv.len() - i < pv.len() {
            proof {
                assert(replace_all(rest@, pv@, r@) == rest@);
            }
            let mut k = i;
            while k < sv.len()
                invariant
                    i <= k <= sv@.len(),
                    out@ + sv@.subrange(k as int, sv@.len() as int) == replace_all(sv@, pv@, r@),
                decreases sv.len() - k,
            {
                let ghost before = out@;
                push_char(&mut out, sv[k]);
                proof {
                    assert(sv@.subrange(k as int, sv@.len() as int) =~= seq![sv@[k as int]] + sv@.subrange(
                        k + 1,
                        sv@.len() as int,
                    ));
                }
                k = k + 1;
            }
            assert(sv@.subrange(sv@.len() as int, sv@.len() as int) =~= Seq::<char>::empty());
            assert(out@ =~= replace_all(sv@, pv@, r@));
            return out;
        }
        if starts_at(&sv, &pv, i) {
            out.append(r);
            proof {
                assert(rest@.take(pv@.len() as int) == pv@);
                assert(rest@.skip(pv@.len() as int) =~= sv@.skip(i + pv@.len()));
                assert(out@ + replace_all(sv@.skip(i + pv@.len()), pv@, r@) =~= replace_all(sv@, pv@, r@));
            }
            i = i + pv.len();
        } else {
            push_char(&mut out, sv[i]);
            proof {
                assert(rest@[0] == sv@[i as int]);
                assert(rest@.skip(1) =~= sv@.skip(i + 1));
                assert(out@ + replace_all(sv@.skip(i + 1), pv@, r@) =~= replace_all(sv@, pv@, r@));
            }
            i = i + 1;
        }
    }
    proof {
        assert(sv@.skip(i as int) =~= Seq::<char>::empty());
        assert(out@ =~= replace_all(sv@, pv@, r@));
    }
    out
}

/// The variables with each JSON value shown as a template shows it.
pub open spec fn displayed(vars: Seq<(Seq<char>, Seq<char>)>) -> Seq<(Seq<char>, Seq<char>)> {
    vars.map_values(|p: (Seq<char>, Seq<char>)| (p.0, crate::templating::json_display(p.1)))
}

/// Replace the `{{name}}` placeholders of the variables (name, JSON value) by the
/// values shown as text (a string without its quotes, anything else as JSON), one
/// variable after the other.
pub fn substitute_variables(template: &str, variables: &Vec<(String, String)>) -> (r: String)
    ensures
        r@ == substitute(template@, displayed(pair_views(variables@))),
{
    let ghost dv = displayed(pair_views(variables@));
    let mut result = String::from_str(template);
    let mut i: usize = 0;
    proof {
        assert(dv.take(0) =~= Seq::<(Seq<char>, Seq<char>)>::empty());
    }
    while i < variables.len()
        invariant
            i <= variables@.len(),
            dv == displayed(pair_views(variables@)),
            result@ == substitute(template@, dv.take(i as int)),
        decreases variables.len() - i,
    {
        let mut ph = String::from_str("{{");
        ph.append(variables[i].0.as_str());
        ph.append("}}");
        let shown = crate::templating::display_json(variables[i].1.as_str());
        proof {
            reveal_strlit("{{");
            reveal_strlit("}}");
            assert(dv.take(i + 1).drop_last() =~= dv.take(i as int));
            assert(dv.take(i + 1).last() == (variables@[i as int].0@, shown@));
            assert(ph@ =~= placeholder(variables@[i as int].0@));
        }
        result = replace_text(result.as_str(), ph.as_str(), shown.as_str());
        i = i + 1;
    }
    proof {
        assert(dv.take(dv.len() as int) =~= dv);
    }
    result
}

/// The states of a circuit breaker.
#[derive(Debug, Clone, Copy, PartialEq, Eq, Structural)]
pub enum CircuitState {
    Closed,
    Open,
    HalfOpen,
}

/// Circuit breaker thresholds.
#[derive(Debug, Clone, Copy, PartialEq, Eq)]
pub struct CircuitBreakerConfig {
    /// Failures in a window that open the circuit.
    pub failure_threshold: u32,
    /// Successes while half open that close it.
    pub success_threshold: u32,
    /// Time an open circuit waits before trying again, in seconds.
    pub timeout_secs: u64,
    /// Length of the failure-counting window, in seconds.
    pub window_secs: u64,
}

impl CircuitBreakerConfig {
    /// The defaults: 5 failures, 2 successes, 60 s timeout, 60 s window.
    pub fn default_config() -> (r: Self)
        ensures
            r == (CircuitBreakerConfig { failure_threshold: 5, success_threshold: 2, timeout_secs: 60, window_secs: 60 }),
    {
        CircuitBreakerConfig { failure_threshold: 5, success_threshold: 2, timeout_secs: 60, window_secs: 60 }
    }
}

/// A circuit breaker: its configuration and state.
#[derive(Debug, Clone, Copy, PartialEq, Eq)]
pub struct CircuitBreaker {
    pub config: CircuitBreakerConfig,
    pub current_state: CircuitState,
    pub failure_count: u32,
    pub success_count: u32,
    pub last_failure_time: Option<i64>,
    pub last_state_change: i64,
}

/// The breaker after a failure noted at `now`.
pub open spec fn failure_step(cb: CircuitBreaker, now: i64) -> CircuitBreaker {
    let base = match cb.last_failure_time {
        Some(t) => if elapsed_secs(now, t) > cb.config.window_secs { 0 } else { cb.failure_count as int },
        None => cb.failure_count as int,
    };
    let count = base + 1;
    let opened = CircuitBreaker {
        current_state: CircuitState::Open,
        last_state_change: now,
        failure_count: count as u32,
        last_failure_time: Some(now),
        ..cb
    };
    match cb.current_state {
        CircuitState::Closed => if count >= cb.config.failure_threshold {
            opened
        } else {
            CircuitBreaker { failure_count: count as u32, last_failure_time: Some(now), ..cb }
        },
        CircuitState::HalfOpen => CircuitBreaker { success_count: 0, ..opened },
        CircuitState::Open => CircuitBreaker { failure_count: count as u32, last_failure_time: Some(now), ..cb },
    }
}

/// Whether a request may go through at `now`, and the breaker after asking.
pub open spec fn allow_step(cb: CircuitBreaker, now: i64) -> (bool, CircuitBreaker) {
    match cb.current_state {
        CircuitState::Closed => (true, cb),
        CircuitState::HalfOpen => (true, cb),
        CircuitState::Open => if elapsed_secs(now, cb.last_state_change) >= cb.config.timeout_secs {
            (true, CircuitBreaker { current_state: CircuitState::HalfOpen, success_count: 0, last_state_change: now, ..cb })
        } else {
            (false, cb)
        },
    }
}

/// The breaker after a success noted at `now`.
pub open spec fn success_step(cb: CircuitBreaker, now: i64) -> CircuitBreaker {
    match cb.current_state {
        CircuitState::HalfOpen => if cb.success_count + 1 >= cb.config.success_threshold {
            CircuitBreaker { current_state: CircuitState::Closed, failure_count: 0, success_count: 0, last_state_change: now, ..cb }
        } else {
            CircuitBreaker { success_count: (cb.success_count + 1) as u32, ..cb }
        },
        CircuitState::Closed => CircuitBreaker { failure_count: 0, ..cb },
        CircuitState::Open => cb,
    }
}

/// Whole seconds from `t` to `now` (zero when `t` is later).
pub open spec fn elapsed_secs(now: i64, t: i64) -> int {
    elapsed_ms(now, t) / 1000
}

impl CircuitBreaker {
    /// A closed circuit with no failures, created at `now`.
    pub fn new_at(config: CircuitBreakerConfig, now: i64) -> (r: Self)
        ensures
            r == (CircuitBreaker {
                config,
                current_state: CircuitState::Closed,
                failure_count: 0,
                success_count: 0,
                last_failure_time: None,
                last_state_change: now,
            }),
    {
        CircuitBreaker {
            config,
            current_state: CircuitState::Closed,
            failure_count: 0,
            success_count: 0,
            last_failure_time: None,
            last_state_change: now,
        }
    }

    /// A closed circuit with no failures, created now.
    pub fn new(config: CircuitBreakerConfig) -> (r: Self)
        ensures
            r.config == config,
            r.current_state == CircuitState::Closed,
            r.failure_count == 0,
            r.success_count == 0,
            r.last_failure_time is None,
            exists|now: i64| #[trigger] clock_reading(now) && r == CircuitBreaker::new_spec(config, now),
    {
        let now = now_millis();
        Self::new_at(config, now)
    }

    /// Whether a request may go through at `now`. An open circuit whose timeout has
    /// elapsed turns half open (and lets the request through).
    pub fn is_request_allowed_at(&mut self, now: i64) -> (r: bool)
        ensures
            (r, *final(self)) == allow_step(*old(self), now),
            match old(self).current_state {
                CircuitState::Closed => r && *final(self) == *old(self),
                CircuitState::HalfOpen => r && *final(self) == *old(self),
                CircuitState::Open => if elapsed_secs(now, old(self).last_state_change) >= old(self).config.timeout_secs {
                    r && *final(self) == (CircuitBreaker {
                        current_state: CircuitState::HalfOpen,
                        success_count: 0,
                        last_state_change: now,
                        ..*old(self)
                    })
                } else {
                    !r && *final(self) == *old(self)
                },
            },
    {
        match self.current_state {
            CircuitState::Closed => true,
            CircuitState::HalfOpen => true,
            CircuitState::Open => {
                let e: i128 = if now >= self.last_state_change {
                    (now as i128) - (self.last_state_change as i128)
                } else {
                    0
                };
                if e / 1000 >= self.config.timeout_secs as i128 {
                    self.current_state = CircuitState::HalfOpen;
                    self.success_count = 0;
                    self.last_state_change = now;
                    true
                } else {
                    false
                }
            },
        }
    }

    /// Note a success at `now`: a half-open circuit counts it and closes after enough
    /// successes; a closed circuit forgets its failures; an open circuit ignores it.
    pub fn record_success_at(&mut self, now: i64)
        requires
            old(self).success_count < u32::MAX,
        ensures
            *final(self) == success_step(*old(self), now),
            match old(self).current_state {
                CircuitState::HalfOpen => if old(self).success_count + 1 >= old(self).config.success_threshold {
                    *final(self) == (CircuitBreaker {
                        current_state: CircuitState::Closed,
                        failure_count: 0,
                        success_count: 0,
                        last_state_change: now,
                        ..*old(self)
                    })
                } else {
                    *final(self) == (CircuitBreaker { success_count: (old(self).success_count + 1) as u32, ..*old(self) })
                },
                CircuitState::Closed => *final(self) == (CircuitBreaker { failure_count: 0, ..*old(self) }),
                CircuitState::Open => *final(self) == *old(self),
            },
    {
        match self.current_state {
            CircuitState::HalfOpen => {
                self.success_count = self.success_count + 1;
                if self.success_count >= self.config.success_threshold {
                    self.current_state = CircuitState::Closed;
                    self.failure_count = 0;
                    self.success_count = 0;
                    self.last_state_change = now;
                }
            },
            CircuitState::Closed => {
                self.failure_count = 0;
            },
            CircuitState::Open => {},
        }
    }

    /// Note a failure at `now`: the count restarts when the previous failure is more than a
    /// window ago; a closed circuit opens at the threshold; a half-open one opens at once.
    pub fn record_failure_at(&mut self, now: i64)
        requires
            old(self).failure_count < u32::MAX,
        ensures
            *final(self) == failure_step(*old(self), now),
            ({
                let base = match old(self).last_failure_time {
                    Some(t) => if elapsed_secs(now, t) > old(self).config.window_secs { 0 } else { old(self).failure_count as int },
                    None => old(self).failure_count as int,
                };
                let count = base + 1;
                &&& final(self).failure_count == count
                &&& final(self).last_failure_time == Some(now)
                &&& final(self).config == old(self).config
                &&& match old(self).current_state {
                    CircuitState::Closed => if count >= old(self).config.failure_threshold {
                        final(self).current_state == CircuitState::Open && final(self).last_state_change == now
                            && final(self).success_count == old(self).success_count
                    } else {
                        final(self).current_state == CircuitState::Closed && final(self).last_state_change
                            == old(self).last_state_change && final(self).success_count == old(self).success_count
                    },
                    CircuitState::HalfOpen => final(self).current_state == CircuitState::Open && final(self).success_count
                        == 0 && final(self).last_state_change == now,
                    CircuitState::Open => final(self).current_state == CircuitState::Open && final(self).last_state_change
                        == old(self).last_state_change && final(self).success_count == old(self).success_count,
                }
            }),
    {
        if let Some(t) = self.last_failure_time {
            let e: i128 = if now >= t { (now as i128) - (t as i128) } else { 0 };
            if e / 1000 > self.config.window_secs as i128 {
                self.failure_count = 0;
            }
        }
        self.last_failure_time = Some(now);
        self.failure_count = self.failure_count + 1;
        match self.current_state {
            CircuitState::Closed => {
                if self.failure_count >= self.config.failure_threshold {
                    self.current_state = CircuitState::Open;
                    self.last_state_change = now;
                }
            },
            CircuitState::HalfOpen => {
                self.current_state = CircuitState::Open;
                self.success_count = 0;
                self.last_state_change = now;
            },
            CircuitState::Open => {},
        }
    }

    /// Whether a request may go through now (see [`Self::is_request_allowed_at`]).
    pub fn is_request_allowed(&mut self) -> (r: bool)
        ensures
            exists|now: i64| #[trigger] clock_reading(now) && (r, *final(self)) == allow_step(*old(self), now),
    {
        let now = now_millis();
        self.is_request_allowed_at(now)
    }

    /// Note a success now (see [`Self::record_success_at`]).
    pub fn record_success(&mut self)
        requires
            old(self).success_count < u32::MAX,
        ensures
            exists|now: i64| #[trigger] clock_reading(now) && *final(self) == success_step(*old(self), now),
    {
        let now = now_millis();
        self.record_success_at(now);
    }

    /// Note a failure now (see [`Self::record_failure_at`]).
    pub fn record_failure(&mut self)
        requires
            old(self).failure_count < u32::MAX,
        ensures
            exists|now: i64| #[trigger] clock_reading(now) && *final(self) == failure_step(*old(self), now),
    {
        let now = now_millis();
        self.record_failure_at(now);
    }

    /// Close the circuit and forget all counts, now.
    pub fn reset(&mut self)
        ensures
            exists|now: i64| #[trigger] clock_reading(now) && *final(self) == CircuitBreaker::new_spec(old(self).config, now),
    {
        let now = now_millis();
        self.reset_at(now);
    }

    /// The current state.
    pub fn get_state(&self) -> (r: CircuitState)
        ensures
            r == self.current_state,
    {
        self.current_state
    }

    /// Close the circuit and forget all counts, at `now`.
    pub fn reset_at(&mut self, now: i64)
        ensures
            *final(self) == CircuitBreaker::new_spec(old(self).config, now),
    {
        self.current_state = CircuitState::Closed;
        self.failure_count = 0;
        self.success_count = 0;
        self.last_failure_time = None;
        self.last_state_change = now;
    }

    /// A fresh closed circuit.
    pub open spec fn new_spec(config: CircuitBreakerConfig, now: i64) -> CircuitBreaker {
        CircuitBreaker {
            config,
            current_state: CircuitState::Closed,
            failure_count: 0,
            success_count: 0,
            last_failure_time: None,
            last_state_change: now,
        }
    }
}

/// Logs requests and responses.
#[derive(Debug, Clone, Copy, PartialEq, Eq)]
pub struct LoggingInterceptor {
    pub log_request: bool,
    pub log_response: bool,
}

impl LoggingInterceptor {
    /// Log both requests and responses.
    pub fn new() -> (r: Self)
        ensures
            r.log_request && r.log_response,
    {
        LoggingInterceptor { log_request: true, log_response: true }
    }
}

/// Adds fixed headers to every request.
#[derive(Debug, Clone, PartialEq, Eq)]
pub struct HeaderInjectionInterceptor {
    pub headers: Vec<(String, String)>,
}

/// Upsert each pair of `add` in order.
pub open spec fn upsert_all(s: Seq<(Seq<char>, Seq<char>)>, add: Seq<(Seq<char>, Seq<char>)>) -> Seq<(Seq<char>, Seq<char>)>
    decreases add.len(),
{
    if add.len() == 0 {
        s
    } else {
        upsert(upsert_all(s, add.drop_last()), add.last().0, add.last().1)
    }
}

impl HeaderInjectionInterceptor {
    /// An interceptor adding these headers.
    pub fn new(headers: Vec<(String, String)>) -> (r: Self)
        ensures
            r.headers == headers,
    {
        HeaderInjectionInterceptor { headers }
    }

    /// Add the headers to a request's headers, replacing values of the same name.
    pub fn inject(&self, headers: &mut Vec<(String, String)>)
        ensures
            pair_views(final(headers)@) == upsert_all(pair_views(old(headers)@), pair_views(self.headers@)),
    {
        let mut i: usize = 0;
        let ghost add = pair_views(self.headers@);
        proof {
            assert(add.take(0) =~= Seq::<(Seq<char>, Seq<char>)>::empty());
        }
        while i < self.headers.len()
            invariant
                i <= self.headers@.len(),
                add == pair_views(self.headers@),
                pair_views(headers@) == upsert_all(pair_views(old(headers)@), add.take(i as int)),
            decreases self.headers.len() - i,
        {
            proof {
                assert(add.take(i + 1).drop_last() =~= add.take(i as int));
                assert(add.take(i + 1).last() == (self.headers@[i as int].0@, self.headers@[i as int].1@));
            }
            upsert_pair(headers, self.headers[i].0.clone(), self.headers[i].1.clone());
            i = i + 1;
        }
        proof {
            assert(add.take(self.headers@.len() as int) =~= add);
        }
    }
}

} // verus!
