//! Webhooks that trigger workflows: their configuration, the check of a request's
//! HMAC-SHA256 signature, and the variables a request hands to the workflow.

use vstd::prelude::*;
use crate::code_executor::var_value;
use crate::execution::str_eq;
use crate::ids::{clock_reading, new_id, now_millis};
use crate::rest::{pair_views, upsert, upsert_pair};
use crate::templating::{display_json, json_display};
use crate::workflow::Workflow;

verus! {

/// Whether `key` and `msg` give the HMAC-SHA256 tag `tag` (32 bytes).
pub uninterp spec fn hmac_sha256_matches(key: Seq<u8>, msg: Seq<u8>, tag: Seq<u8>) -> bool;

/// Check an HMAC-SHA256 tag with the `hmac` and `sha2` crates (`new_from_slice`, which
/// takes keys of any length, `update`, then the constant-time `verify_slice`).
#[verifier::external_body]
fn hmac_sha256_verify(key: &[u8], msg: &[u8], tag: &[u8]) -> (r: bool)
    ensures
        r == hmac_sha256_matches(key@, msg@, tag@),
{
    match <hmac::Hmac<sha2::Sha256> as hmac::Mac>::new_from_slice(key) {
        Ok(mut mac) => {
            hmac::Mac::update(&mut mac, msg);
            hmac::Mac::verify_slice(mac, tag).is_ok()
        },
        Err(_) => false,
    }
}

/// The value of a hexadecimal digit byte (either case).
pub open spec fn hex_value(b: u8) -> Option<u8> {
    if 48 <= b <= 57 {
        Some((b - 48) as u8)
    } else if 97 <= b <= 102 {
        Some((b - 97 + 10) as u8)
    } else if 65 <= b <= 70 {
        Some((b - 65 + 10) as u8)
    } else {
        None
    }
}

/// What `hex::decode` gives: an even number of hexadecimal digits, two per byte.
pub open spec fn hex_decoded(b: Seq<u8>) -> Option<Seq<u8>> {
    if b.len() % 2 != 0 {
        None
    } else if exists|i: int| 0 <= i < b.len() && #[trigger] hex_value(b[i]) is None {
        None
    } else {
        Some(Seq::new(b.len() / 2, |i: int| (hex_value(b[2 * i])->0 * 16 + hex_value(b[2 * i + 1])->0) as u8))
    }
}

/// Decode hexadecimal text with `hex::decode`.
#[verifier::external_body]
fn hex_decode(s: &str) -> (r: Option<Vec<u8>>)
    ensures
        match r {
            Some(v) => hex_decoded(vstd::utf8::encode_utf8(s@)) == Some(v@),
            None => hex_decoded(vstd::utf8::encode_utf8(s@)) is None,
        },
{
    hex::decode(s).ok()
}

/// What the standard base64 engine (`base64::engine::general_purpose::STANDARD`) decodes
/// a text to, if it accepts it.
pub uninterp spec fn base64_decoded(s: Seq<u8>) -> Option<Seq<u8>>;

/// Decode standard base64 text with the `base64` crate.
#[verifier::external_body]
fn base64_decode(s: &str) -> (r: Option<Vec<u8>>)
    ensures
        match r {
            Some(v) => base64_decoded(vstd::utf8::encode_utf8(s@)) == Some(v@),
            None => base64_decoded(vstd::utf8::encode_utf8(s@)) is None,
        },
{
    base64::Engine::decode(&base64::engine::general_purpose::STANDARD, s).ok()
}

/// The bytes `serde_json::to_vec` writes for a JSON text (compact form).
pub uninterp spec fn json_bytes(text: Seq<char>) -> Seq<u8>;

/// The compact JSON bytes of a payload (empty when it is not JSON).
#[verifier::external_body]
fn payload_bytes(text: &str) -> (r: Vec<u8>)
    ensures
        r@ == json_bytes(text@),
{
    match serde_json::from_str::<serde_json::Value>(text) {
        Ok(v) => serde_json::to_vec(&v).unwrap_or_default(),
        Err(_) => Vec::new(),
    }
}

/// The JSON text of a field of a JSON object text (`Value::get` with a key).
pub uninterp spec fn json_field(text: Seq<char>, key: Seq<char>) -> Option<Seq<char>>;

/// `serde_json::from_str::<Value>(text)`, then `get(key)`, written back as JSON text.
#[verifier::external_body]
pub(crate) fn get_field(text: &str, key: &str) -> (r: Option<String>)
    ensures
        match r {
            Some(v) => json_field(text@, key@) == Some(v@),
            None => json_field(text@, key@) is None,
        },
{
    match serde_json::from_str::<serde_json::Value>(text) {
        Ok(v) => v.get(key).map(|f| f.to_string()),
        Err(_) => None,
    }
}

/// Whether a signature (hexadecimal, else base64) is the HMAC-SHA256 tag of the payload
/// under the secret; without a secret every request is accepted.
pub open spec fn signature_ok(secret: Option<Seq<char>>, payload: Seq<u8>, signature: Seq<u8>) -> bool {
    match secret {
        None => true,
        Some(k) => match hex_decoded(signature) {
            Some(tag) => hmac_sha256_matches(vstd::utf8::encode_utf8(k), payload, tag),
            None => match base64_decoded(signature) {
                Some(tag) => hmac_sha256_matches(vstd::utf8::encode_utf8(k), payload, tag),
                None => false,
            },
        },
    }
}

/// The configuration of a webhook; times in milliseconds since the UNIX epoch.
#[derive(Debug, Clone)]
pub struct WebhookConfig {
    pub id: u128,
    pub name: String,
    pub workflow_id: u128,
    pub secret: Option<String>,
    pub enabled: bool,
    pub header_mappings: Vec<(String, String)>,
    pub payload_mappings: Vec<(String, String)>,
    pub max_payload_size: usize,
    pub created_at: i64,
    pub last_triggered: Option<i64>,
    pub trigger_count: u64,
}

/// The view of an optional text.
pub open spec fn opt_text(s: Option<String>) -> Option<Seq<char>> {
    match s {
        Some(x) => Some(x@),
        None => None,
    }
}

impl WebhookConfig {
    /// An enabled webhook without secret or mappings, a 1 MiB payload limit, created at
    /// `now` with identifier `id`.
    pub fn new_with(name: String, workflow_id: u128, id: u128, now: i64) -> (r: Self)
        ensures
            r.id == id,
            r.name == name,
            r.workflow_id == workflow_id,
            r.secret is None,
            r.enabled,
            r.header_mappings@.len() == 0,
            r.payload_mappings@.len() == 0,
            r.max_payload_size == 1048576,
            r.created_at == now,
            r.last_triggered is None,
            r.trigger_count == 0,
    {
        WebhookConfig {
            id,
            name,
            workflow_id,
            secret: None,
            enabled: true,
            header_mappings: Vec::new(),
            payload_mappings: Vec::new(),
            max_payload_size: 1048576,
            created_at: now,
            last_triggered: None,
            trigger_count: 0,
        }
    }

    /// `new_with` a fresh identifier, now.
    pub fn new(name: String, workflow_id: u128) -> (r: Self)
        ensures
            r.name == name,
            r.workflow_id == workflow_id,
            r.secret is None,
            r.enabled,
            r.header_mappings@.len() == 0,
            r.payload_mappings@.len() == 0,
            r.max_payload_size == 1048576,
            r.last_triggered is None,
            r.trigger_count == 0,
    {
        let id = new_id();
        let now = now_millis();
        WebhookConfig::new_with(name, workflow_id, id, now)
    }

    /// Set the signing secret.
    pub fn with_secret(self, secret: String) -> (r: Self)
        ensures
            r.secret == Some(secret),
            r.id == self.id,
            r.name == self.name,
            r.workflow_id == self.workflow_id,
            r.enabled == self.enabled,
            r.header_mappings == self.header_mappings,
            r.payload_mappings == self.payload_mappings,
            r.max_payload_size == self.max_payload_size,
            r.created_at == self.created_at,
            r.last_triggered == self.last_triggered,
            r.trigger_count == self.trigger_count,
    {
        WebhookConfig { secret: Some(secret), ..self }
    }

    /// Map a request header to a workflow variable.
    pub fn with_header(self, header_name: String, var_name: String) -> (r: Self)
        ensures
            pair_views(r.header_mappings@) == upsert(pair_views(self.header_mappings@), header_name@, var_name@),
            r.secret == self.secret,
            r.payload_mappings == self.payload_mappings,
            r.enabled == self.enabled,
    {
        let mut s = self;
        upsert_pair(&mut s.header_mappings, header_name, var_name);
        s
    }

    /// Map a dotted path of the payload to a workflow variable.
    pub fn with_payload(self, json_path: String, var_name: String) -> (r: Self)
        ensures
            pair_views(r.payload_mappings@) == upsert(pair_views(self.payload_mappings@), json_path@, var_name@),
            r.secret == self.secret,
            r.header_mappings == self.header_mappings,
            r.enabled == self.enabled,
    {
        let mut s = self;
        upsert_pair(&mut s.payload_mappings, json_path, var_name);
        s
    }

    /// Whether the signature of a payload is valid: with a secret, it must decode (from
    /// hexadecimal, else base64) to the payload's HMAC-SHA256 tag; without one, any
    /// request passes.
    pub fn verify_signature(&self, payload: &[u8], signature: &str) -> (r: bool)
        ensures
            r == signature_ok(opt_text(self.secret), payload@, vstd::utf8::encode_utf8(signature@)),
    {
        match &self.secret {
            None => true,
            Some(secret) => {
                let key = secret.as_str().as_bytes();
                match hex_decode(signature) {
                    Some(tag) => hmac_sha256_verify(key, payload, tag.as_slice()),
                    None => match base64_decode(signature) {
                        Some(tag) => hmac_sha256_verify(key, payload, tag.as_slice()),
                        None => false,
                    },
                }
            },
        }
    }
}

/// The text split at every dot.
pub open spec fn dot_parts(s: Seq<char>) -> Seq<Seq<char>> {
    crate::workflow::split_on(s, '.')
}

/// Follow the fields of a dotted path from a JSON text.
pub open spec fn walk_fields(text: Seq<char>, parts: Seq<Seq<char>>) -> Option<Seq<char>>
    decreases parts.len(),
{
    if parts.len() == 0 {
        Some(text)
    } else {
        match walk_fields(text, parts.drop_last()) {
            None => None,
            Some(t) => json_field(t, parts.last()),
        }
    }
}

/// The value at a dotted path of a payload, as shown in a variable.
pub open spec fn extract_spec(payload: Seq<char>, path: Seq<char>) -> Option<Seq<char>> {
    match walk_fields(payload, dot_parts(path)) {
        Some(t) => Some(json_display(t)),
        None => None,
    }
}

/// The value at a dotted path (`user.name`) of a JSON payload, shown as a string's
/// content or as JSON.
pub fn extract_json_value(payload: &str, path: &str) -> (r: Option<String>)
    ensures
        opt_text(r) == extract_spec(payload@, path@),
{
    let pv = crate::text::chars_of(path);
    let parts = crate::workflow::split_chars(&pv, '.');
    let ghost ps = dot_parts(path@);
    assert(parts@.map_values(|p: Vec<char>| p@) == ps);
    let mut current = String::from_str(payload);
    let mut i: usize = 0;
    assert(ps.take(0) =~= Seq::<Seq<char>>::empty());
    while i < parts.len()
        invariant
            i <= parts@.len(),
            parts@.map_values(|p: Vec<char>| p@) == ps,
            ps == dot_parts(path@),
            walk_fields(payload@, ps.take(i as int)) == Some(current@),
        decreases parts.len() - i,
    {
        assert(ps.take(i + 1).drop_last() =~= ps.take(i as int));
        assert(ps[i as int] == parts@[i as int]@);
        let mut key = String::new();
        crate::text::push_range(&mut key, &parts[i], 0, parts[i].len());
        assert(parts@[i as int]@.subrange(0, parts@[i as int]@.len() as int) =~= parts@[i as int]@);
        match get_field(current.as_str(), key.as_str()) {
            Some(f) => {
                proof {
                    assert(key@ == ps[i as int]);
                    assert(ps.take(i + 1).last() == ps[i as int]);
                }
                current = f;
            },
            None => {
                proof {
                    assert(key@ == ps[i as int]);
                    assert(ps.take(i + 1).last() == ps[i as int]);
                    assert(walk_fields(payload@, ps.take(i + 1)) is None);
                    lemma_walk_none(payload@, ps, i as int + 1);
                }
                return None;
            },
        }
        i = i + 1;
    }
    assert(ps.take(ps.len() as int) =~= ps);
    Some(display_json(current.as_str()))
}

proof fn lemma_walk_none(text: Seq<char>, parts: Seq<Seq<char>>, n: int)
    requires
        0 <= n <= parts.len(),
        walk_fields(text, parts.take(n)) is None,
    ensures
        walk_fields(text, parts) is None,
    decreases parts.len() - n,
{
    if n < parts.len() {
        assert(parts.take(n + 1).drop_last() =~= parts.take(n));
        lemma_walk_none(text, parts, n + 1);
    } else {
        assert(parts.take(n) =~= parts);
    }
}

/// The variables of the header mappings present in the request, in mapping order.
pub open spec fn header_vars(
    mappings: Seq<(Seq<char>, Seq<char>)>,
    headers: Seq<(Seq<char>, Seq<char>)>,
    acc: Seq<(Seq<char>, Seq<char>)>,
) -> Seq<(Seq<char>, Seq<char>)>
    decreases mappings.len(),
{
    if mappings.len() == 0 {
        acc
    } else {
        let pre = header_vars(mappings.drop_last(), headers, acc);
        match var_value(headers, mappings.last().0) {
            Some(v) => upsert(pre, mappings.last().1, v),
            None => pre,
        }
    }
}

/// Then the variables of the payload mappings whose path leads to a value.
pub open spec fn payload_vars(
    mappings: Seq<(Seq<char>, Seq<char>)>,
    payload: Seq<char>,
    acc: Seq<(Seq<char>, Seq<char>)>,
) -> Seq<(Seq<char>, Seq<char>)>
    decreases mappings.len(),
{
    if mappings.len() == 0 {
        acc
    } else {
        let pre = payload_vars(mappings.drop_last(), payload, acc);
        match extract_spec(payload, mappings.last().0) {
            Some(v) => upsert(pre, mappings.last().1, v),
            None => pre,
        }
    }
}

/// The variables a request hands to the workflow.
pub open spec fn trigger_vars(c: WebhookConfig, headers: Seq<(Seq<char>, Seq<char>)>, payload: Seq<char>) -> Seq<
    (Seq<char>, Seq<char>),
> {
    payload_vars(pair_views(c.payload_mappings@), payload, header_vars(pair_views(c.header_mappings@), headers, Seq::empty()))
}

/// The variables a request hands to the workflow: mapped headers, then mapped payload
/// paths.
pub fn request_variables(config: &WebhookConfig, headers: &Vec<(String, String)>, payload: &str) -> (r: Vec<(String, String)>)
    ensures
        pair_views(r@) == trigger_vars(*config, pair_views(headers@), payload@),
{
    let ghost hm = pair_views(config.header_mappings@);
    let ghost pm = pair_views(config.payload_mappings@);
    let ghost hv = pair_views(headers@);
    let mut vars: Vec<(String, String)> = Vec::new();
    let mut i: usize = 0;
    assert(hm.take(0) =~= Seq::<(Seq<char>, Seq<char>)>::empty());
    assert(pair_views(vars@) =~= Seq::<(Seq<char>, Seq<char>)>::empty());
    while i < config.header_mappings.len()
        invariant
            i <= config.header_mappings@.len(),
            hm == pair_views(config.header_mappings@),
            hv == pair_views(headers@),
            pair_views(vars@) == header_vars(hm.take(i as int), hv, Seq::empty()),
        decreases config.header_mappings.len() - i,
    {
        assert(hm.take(i + 1).drop_last() =~= hm.take(i as int));
        assert(hm.take(i + 1).last() == hm[i as int]);
        match crate::templating::find_variable(headers, config.header_mappings[i].0.as_str()) {
            Some(v) => {
                upsert_pair(&mut vars, config.header_mappings[i].1.clone(), v);
            },
            None => {},
        }
        i = i + 1;
    }
    assert(hm.take(hm.len() as int) =~= hm);
    let ghost base = pair_views(vars@);
    let mut k: usize = 0;
    assert(pm.take(0) =~= Seq::<(Seq<char>, Seq<char>)>::empty());
    while k < config.payload_mappings.len()
        invariant
            k <= config.payload_mappings@.len(),
            pm == pair_views(config.payload_mappings@),
            pair_views(vars@) == payload_vars(pm.take(k as int), payload@, base),
        decreases config.payload_mappings.len() - k,
    {
        assert(pm.take(k + 1).drop_last() =~= pm.take(k as int));
        assert(pm.take(k + 1).last() == pm[k as int]);
        match extract_json_value(payload, config.payload_mappings[k].0.as_str()) {
            Some(v) => {
                upsert_pair(&mut vars, config.payload_mappings[k].1.clone(), v);
            },
            None => {},
        }
        k = k + 1;
    }
    assert(pm.take(pm.len() as int) =~= pm);
    vars
}

/// The record of one request to a webhook.
#[derive(Debug, Clone)]
pub struct WebhookTrigger {
    pub webhook_id: u128,
    pub triggered_at: i64,
    pub headers: Vec<(String, String)>,
    pub payload: String,
    pub variables: Vec<(String, String)>,
    pub execution_id: Option<u128>,
    pub success: bool,
    pub error: Option<String>,
}

/// Why a request is refused, in the order the checks are made.
pub open spec fn refusal(c: WebhookConfig, payload: Seq<char>, signature: Option<Seq<u8>>) -> Option<Seq<char>> {
    if !c.enabled {
        Some("Webhook is disabled"@)
    } else {
        match signature {
            Some(sig) => if !signature_ok(opt_text(c.secret), json_bytes(payload), sig) {
                Some("Invalid signature"@)
            } else {
                None
            },
            None => if c.secret is Some {
                Some("Signature required but not provided"@)
            } else {
                None
            },
        }
    }
}

fn copy_pairs(v: &Vec<(String, String)>) -> (r: Vec<(String, String)>)
    ensures
        r@ == v@,
{
    let mut out: Vec<(String, String)> = Vec::new();
    let mut i: usize = 0;
    while i < v.len()
        invariant
            i <= v@.len(),
            out@ == v@.take(i as int),
        decreases v.len() - i,
    {
        out.push((v[i].0.clone(), v[i].1.clone()));
        assert(out@ =~= v@.take(i + 1));
        i = i + 1;
    }
    assert(v@.take(v@.len() as int) =~= v@);
    out
}

fn clone_trigger(t: &WebhookTrigger) -> (r: WebhookTrigger)
    ensures
        r.webhook_id == t.webhook_id,
        r.triggered_at == t.triggered_at,
        r.headers@ == t.headers@,
        r.payload == t.payload,
        r.variables@ == t.variables@,
        r.execution_id == t.execution_id,
        r.success == t.success,
        r.error == t.error,
{
    WebhookTrigger {
        webhook_id: t.webhook_id,
        triggered_at: t.triggered_at,
        headers: copy_pairs(&t.headers),
        payload: t.payload.clone(),
        variables: copy_pairs(&t.variables),
        execution_id: t.execution_id,
        success: t.success,
        error: match &t.error {
            Some(e) => Some(e.clone()),
            None => None,
        },
    }
}

/// The registered webhooks and the requests they received.
pub struct WebhookRegistry {
    pub webhooks: Vec<(WebhookConfig, Workflow)>,
    pub triggers: Vec<WebhookTrigger>,
}

/// The requests recorded after the cutoff, in order.
pub open spec fn keep_newer(s: Seq<WebhookTrigger>, cutoff: int) -> Seq<WebhookTrigger>
    decreases s.len(),
{
    if s.len() == 0 {
        Seq::empty()
    } else if s.last().triggered_at > cutoff {
        keep_newer(s.drop_last(), cutoff).push(s.last())
    } else {
        keep_newer(s.drop_last(), cutoff)
    }
}

/// The requests of one webhook (or all of them, for `None`), in order.
pub open spec fn of_webhook(s: Seq<WebhookTrigger>, id: Option<u128>) -> Seq<WebhookTrigger>
    decreases s.len(),
{
    if s.len() == 0 {
        Seq::empty()
    } else if id matches Some(x) && s.last().webhook_id != x {
        of_webhook(s.drop_last(), id)
    } else {
        of_webhook(s.drop_last(), id).push(s.last())
    }
}

/// Two recorded requests hold the same values.
pub open spec fn trigger_same(a: WebhookTrigger, b: WebhookTrigger) -> bool {
    &&& a.webhook_id == b.webhook_id
    &&& a.triggered_at == b.triggered_at
    &&& a.headers@ == b.headers@
    &&& a.payload == b.payload
    &&& a.variables@ == b.variables@
    &&& a.execution_id == b.execution_id
    &&& a.success == b.success
    &&& a.error == b.error
}

/// Two lists of recorded requests hold the same values, in the same order.
pub open spec fn triggers_same(a: Seq<WebhookTrigger>, b: Seq<WebhookTrigger>) -> bool {
    a.len() == b.len() && forall|k: int| 0 <= k < a.len() ==> trigger_same(#[trigger] a[k], b[k])
}

proof fn lemma_keep_newer_len(s: Seq<WebhookTrigger>, cutoff: int)
    ensures
        keep_newer(s, cutoff).len() <= s.len(),
    decreases s.len(),
{
    if s.len() > 0 {
        lemma_keep_newer_len(s.drop_last(), cutoff);
    }
}

pub open spec fn first_hook(hooks: Seq<(WebhookConfig, Workflow)>, id: u128, i: int) -> bool {
    0 <= i < hooks.len() && hooks[i].0.id == id && forall|j: int| 0 <= j < i ==> hooks[j].0.id != id
}

fn find_hook(hooks: &Vec<(WebhookConfig, Workflow)>, id: u128) -> (r: Option<usize>)
    ensures
        match r {
            Some(i) => first_hook(hooks@, id, i as int),
            None => forall|j: int| 0 <= j < hooks@.len() ==> hooks@[j].0.id != id,
        },
{
    let mut i: usize = 0;
    while i < hooks.len()
        invariant
            i <= hooks@.len(),
            forall|j: int| 0 <= j < i ==> hooks@[j].0.id != id,
        decreases hooks.len() - i,
    {
        if hooks[i].0.id == id {
            return Some(i);
        }
        i = i + 1;
    }
    None
}

/// What handling a request at `now` with execution identifier `execution_id` does:
/// an unknown webhook, a disabled one or a failed signature check is refused and changes
/// nothing; otherwise the webhook's statistics are updated and the request recorded.
pub open spec fn trigger_result(
    before: WebhookRegistry,
    after: WebhookRegistry,
    webhook_id: u128,
    headers: Seq<(String, String)>,
    payload: String,
    signature: Option<String>,
    now: i64,
    execution_id: u128,
    r: Result<WebhookTrigger, String>,
) -> bool {
    match find_first(before.webhooks@, webhook_id) {
        None => (r matches Err(e) && e@ == "Webhook not found"@) && after.webhooks@ == before.webhooks@
            && after.triggers@ == before.triggers@,
        Some(i) => {
            let c = before.webhooks@[i].0;
            match refusal(
                c,
                payload@,
                match signature {
                    Some(s) => Some(vstd::utf8::encode_utf8(s@)),
                    None => None,
                },
            ) {
                Some(m) => (r matches Err(e) && e@ == m) && after.webhooks@ == before.webhooks@
                    && after.triggers@ == before.triggers@,
                None => r matches Ok(t) && t.webhook_id == webhook_id && t.triggered_at == now
                    && t.headers@ == headers && t.payload == payload && pair_views(t.variables@)
                    == trigger_vars(c, pair_views(headers), payload@) && t.execution_id == Some(
                    execution_id,
                ) && t.success && t.error is None && after.triggers@.len() == before.triggers@.len()
                    + 1 && after.triggers@.drop_last() == before.triggers@
                    && trigger_same(after.triggers@.last(), t)
                    && after.webhooks@ == before.webhooks@.update(
                    i,
                    (WebhookConfig { trigger_count: (c.trigger_count + 1) as u64, last_triggered: Some(now), ..c }, before.webhooks@[i].1),
                ),
            }
        },
    }
}

impl WebhookRegistry {
    /// No webhook, no request.
    pub fn new() -> (r: Self)
        ensures
            r.webhooks@.len() == 0,
            r.triggers@.len() == 0,
    {
        WebhookRegistry { webhooks: Vec::new(), triggers: Vec::new() }
    }

    /// Register a webhook for a workflow (replacing one with the same identifier).
    pub fn register(&mut self, config: WebhookConfig, workflow: Workflow) -> (r: u128)
        ensures
            r == config.id,
            exists|i: int| 0 <= i < final(self).webhooks@.len() && first_hook(final(self).webhooks@, r, i),
            final(self).triggers@ == old(self).triggers@,
    {
        let id = config.id;
        match find_hook(&self.webhooks, id) {
            Some(i) => {
                self.webhooks.set(i, (config, workflow));
                assert(first_hook(self.webhooks@, id, i as int));
            },
            None => {
                self.webhooks.push((config, workflow));
                assert(first_hook(self.webhooks@, id, self.webhooks@.len() - 1));
            },
        }
        id
    }

    /// Remove a webhook; whether it was registered.
    pub fn unregister(&mut self, webhook_id: u128) -> (r: bool)
        ensures
            r == exists|i: int| 0 <= i < old(self).webhooks@.len() && old(self).webhooks@[i].0.id == webhook_id,
            r ==> exists|i: int| first_hook(old(self).webhooks@, webhook_id, i) && final(self).webhooks@ == old(
                self,
            ).webhooks@.remove(i),
            !r ==> final(self).webhooks@ == old(self).webhooks@,
            final(self).triggers@ == old(self).triggers@,
    {
        match find_hook(&self.webhooks, webhook_id) {
            Some(i) => {
                let _ = self.webhooks.remove(i);
                true
            },
            None => false,
        }
    }

    /// The webhook registered under the identifier, with its workflow.
    pub fn get(&self, webhook_id: u128) -> (r: Option<(&WebhookConfig, &Workflow)>)
        ensures
            match r {
                Some((c, w)) => exists|i: int| first_hook(self.webhooks@, webhook_id, i) && *c == self.webhooks@[i].0 && *w
                    == self.webhooks@[i].1,
                None => forall|j: int| 0 <= j < self.webhooks@.len() ==> self.webhooks@[j].0.id != webhook_id,
            },
    {
        match find_hook(&self.webhooks, webhook_id) {
            Some(i) => Some((&self.webhooks[i].0, &self.webhooks[i].1)),
            None => None,
        }
    }

    /// The registered webhooks, in registration order.
    pub fn list(&self) -> (r: Vec<&WebhookConfig>)
        ensures
            r@.len() == self.webhooks@.len(),
            forall|i: int| 0 <= i < r@.len() ==> *r@[i] == self.webhooks@[i].0,
    {
        let mut out: Vec<&WebhookConfig> = Vec::new();
        let mut i: usize = 0;
        while i < self.webhooks.len()
            invariant
                i <= self.webhooks@.len(),
                out@.len() == i,
                forall|k: int| 0 <= k < i ==> *out@[k] == self.webhooks@[k].0,
            decreases self.webhooks.len() - i,
        {
            out.push(&self.webhooks[i].0);
            i = i + 1;
        }
        out
    }

    /// Keep only the requests recorded after `cutoff`.
    fn retain_newer(&mut self, cutoff: i128)
        ensures
            final(self).triggers@ == keep_newer(old(self).triggers@, cutoff as int),
            final(self).webhooks@ == old(self).webhooks@,
    {
        let ghost orig = self.triggers@;
        let mut kept: Vec<WebhookTrigger> = Vec::new();
        let mut old_triggers: Vec<WebhookTrigger> = Vec::new();
        std::mem::swap(&mut old_triggers, &mut self.triggers);
        let mut i: usize = 0;
        let n = old_triggers.len();
        let mut rest = old_triggers;
        assert(rest@ =~= orig.skip(0));
        while i < n
            invariant
                n == orig.len(),
                i <= n,
                rest@ == orig.skip(i as int),
                kept@ == keep_newer(orig.take(i as int), cutoff as int),
                self.webhooks@ == old(self).webhooks@,
            decreases n - i,
        {
            let t = rest.remove(0);
            assert(t == orig[i as int]);
            assert(rest@ =~= orig.skip(i + 1));
            assert(orig.take(i + 1).drop_last() =~= orig.take(i as int));
            if (t.triggered_at as i128) > cutoff {
                kept.push(t);
            }
            i = i + 1;
        }
        assert(orig.take(n as int) =~= orig);
        self.triggers = kept;
    }

    /// Keep only the requests recorded after `now - max_age_ms`.
    pub fn cleanup_triggers_at(&mut self, max_age_ms: i64, now: i64)
        ensures
            final(self).triggers@ == keep_newer(old(self).triggers@, now - max_age_ms),
            final(self).webhooks@ == old(self).webhooks@,
    {
        self.retain_newer((now as i128) - (max_age_ms as i128));
    }

    /// Keep only the requests recorded in the last `max_age_seconds` seconds, counted
    /// back from the clock's current time.
    pub fn cleanup_triggers(&mut self, max_age_seconds: u64)
        ensures
            final(self).webhooks@ == old(self).webhooks@,
            exists|now: i64| #[trigger]
                clock_reading(now) && keep_newer(old(self).triggers@, now - max_age_seconds * 1000)
                    == final(self).triggers@,
            final(self).triggers@.len() <= old(self).triggers@.len(),
    {
        let now = now_millis();
        self.retain_newer((now as i128) - (max_age_seconds as i128) * 1000);
        proof {
            lemma_keep_newer_len(old(self).triggers@, now - max_age_seconds * 1000);
        }
    }

    /// Handle a request at `now`: the webhook must exist and be enabled, and its signature
    /// must check (a webhook with a secret needs one). Its statistics are updated, the
    /// mapped variables extracted, and the request recorded as a success with the
    /// execution identifier given.
    pub fn trigger_at(
        &mut self,
        webhook_id: u128,
        headers: Vec<(String, String)>,
        payload: String,
        signature: Option<String>,
        now: i64,
        execution_id: u128,
    ) -> (r: Result<WebhookTrigger, String>)
        requires
            forall|i: int|
                0 <= i < old(self).webhooks@.len() ==> (#[trigger] old(self).webhooks@[i]).0.trigger_count < u64::MAX,
        ensures
            trigger_result(*old(self), *final(self), webhook_id, headers@, payload, signature, now, execution_id, r),
    {
        let i = match find_hook(&self.webhooks, webhook_id) {
            None => {
                proof {
                    assert(find_first(self.webhooks@, webhook_id) is None) by {
                        if exists|k: int| first_hook(self.webhooks@, webhook_id, k) {
                            let k = choose|k: int| first_hook(self.webhooks@, webhook_id, k);
                            assert(self.webhooks@[k].0.id == webhook_id);
                        }
                    }
                }
                return Err(String::from_str("Webhook not found"));
            },
            Some(i) => i,
        };
        proof {
            let k = choose|k: int| #[trigger] first_hook(self.webhooks@, webhook_id, k);
            assert(first_hook(self.webhooks@, webhook_id, k));
            if k < i {
                assert(self.webhooks@[k].0.id != webhook_id);
            } else if k > i {
                assert(self.webhooks@[i as int].0.id != webhook_id);
            }
            assert(find_first(self.webhooks@, webhook_id) == Some(i as int));
        }
        if !self.webhooks[i].0.enabled {
            return Err(String::from_str("Webhook is disabled"));
        }
        match &signature {
            Some(sig) => {
                let bytes = payload_bytes(payload.as_str());
                if !self.webhooks[i].0.verify_signature(bytes.as_slice(), sig.as_str()) {
                    return Err(String::from_str("Invalid signature"));
                }
            },
            None => {
                if self.webhooks[i].0.secret.is_some() {
                    return Err(String::from_str("Signature required but not provided"));
                }
            },
        }
        let variables = request_variables(&self.webhooks[i].0, &headers, payload.as_str());
        let ghost before = self.webhooks@;
        let (mut config, workflow) = self.webhooks.remove(i);
        config.last_triggered = Some(now);
        config.trigger_count = config.trigger_count + 1;
        self.webhooks.insert(i, (config, workflow));
        let trigger = WebhookTrigger {
            webhook_id,
            triggered_at: now,
            headers,
            payload,
            variables,
            execution_id: Some(execution_id),
            success: true,
            error: None,
        };
        let stored = clone_trigger(&trigger);
        let ghost tr_before = self.triggers@;
        self.triggers.push(stored);
        assert(self.triggers@.drop_last() =~= tr_before);
        assert(self.webhooks@ =~= before.update(
            i as int,
            (WebhookConfig { trigger_count: (before[i as int].0.trigger_count + 1) as u64, last_triggered: Some(now), ..before[i as int].0 }, before[i as int].1),
        ));
        Ok(trigger)
    }

    /// Handle a request now, with a fresh execution identifier.
    pub fn trigger(
        &mut self,
        webhook_id: u128,
        headers: Vec<(String, String)>,
        payload: String,
        signature: Option<String>,
    ) -> (r: Result<WebhookTrigger, String>)
        requires
            forall|i: int|
                0 <= i < old(self).webhooks@.len() ==> (#[trigger] old(self).webhooks@[i]).0.trigger_count < u64::MAX,
        ensures
            exists|now: i64, execution_id: u128|
                clock_reading(now) && #[trigger] trigger_result(
                    *old(self),
                    *final(self),
                    webhook_id,
                    headers@,
                    payload,
                    signature,
                    now,
                    execution_id,
                    r,
                ),
    {
        let now = now_millis();
        let execution_id = new_id();
        self.trigger_at(webhook_id, headers, payload, signature, now, execution_id)
    }

    /// The recorded requests of one webhook (or of all), in order.
    pub fn get_triggers(&self, webhook_id: Option<u128>) -> (r: Vec<WebhookTrigger>)
        ensures
            triggers_same(r@, of_webhook(self.triggers@, webhook_id)),
    {
        let ghost all = self.triggers@;
        let mut out: Vec<WebhookTrigger> = Vec::new();
        let mut i: usize = 0;
        while i < self.triggers.len()
            invariant
                all == self.triggers@,
                i <= all.len(),
                triggers_same(out@, of_webhook(all.take(i as int), webhook_id)),
            decreases self.triggers.len() - i,
        {
            assert(all.take(i + 1).drop_last() =~= all.take(i as int));
            assert(all.take(i + 1).last() == all[i as int]);
            let keep = match webhook_id {
                Some(id) => self.triggers[i].webhook_id == id,
                None => true,
            };
            if keep {
                let c = clone_trigger(&self.triggers[i]);
                let ghost prev = out@;
                out.push(c);
                proof {
                    let want = of_webhook(all.take(i + 1), webhook_id);
                    assert(want == of_webhook(all.take(i as int), webhook_id).push(all[i as int]));
                    assert forall|k: int| 0 <= k < out@.len() implies trigger_same(#[trigger] out@[k], want[k]) by {
                        if k < prev.len() {
                            assert(out@[k] == prev[k]);
                        }
                    }
                }
            }
            i = i + 1;
        }
        assert(all.take(all.len() as int) =~= all);
        out
    }
}

/// The position of the first webhook with identifier `id`.
pub open spec fn find_first(hooks: Seq<(WebhookConfig, Workflow)>, id: u128) -> Option<int> {
    if exists|i: int| #[trigger] first_hook(hooks, id, i) {
        Some(choose|i: int| #[trigger] first_hook(hooks, id, i))
    } else {
        None
    }
}

} // verus!
