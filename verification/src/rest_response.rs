//! What the REST connector makes of an HTTP reply, the cache of GET replies and its
//! keys, and GraphQL query values. Bodies are JSON texts.

use vstd::prelude::*;
use crate::auth::{json_as_str, json_str_content};
use crate::executors::push_str;
use crate::rest::{displayed, is_success_status, pair_views, substitute, substitute_variables, upsert, upsert_pair, RestConfig, RestConnectorError};
use crate::templating::{compact_json, is_json, json_compact, json_quoted, json_valid, quote_json};
use crate::text::chars_of;
use crate::webhook::{get_field, json_field};
use crate::workflow::{split_chars, split_on};

verus! {

broadcast use vstd::string::group_string_axioms;

/// The body kept of a reply text: `null` for an empty text, the compact JSON of a JSON
/// text, otherwise an object holding the text under `raw`.
pub open spec fn response_body(text: Seq<char>) -> Seq<char> {
    if text.len() == 0 {
        "null"@
    } else if json_valid(text) {
        json_compact(text)
    } else {
        "{\"raw\":"@ + json_quoted(text) + "}"@
    }
}

/// A string field's text, or `Unknown error`.
pub open spec fn text_or_unknown(field: Seq<char>) -> Seq<char> {
    match json_str_content(field) {
        Some(s) => s,
        None => "Unknown error"@,
    }
}

/// The message of a failed reply: its `message` field if there is one, else its `error`
/// field, as text when it is a string; otherwise `Unknown error`.
pub open spec fn error_message(body: Seq<char>) -> Seq<char> {
    match json_field(body, "message"@) {
        Some(m) => text_or_unknown(m),
        None => match json_field(body, "error"@) {
            Some(e) => text_or_unknown(e),
            None => "Unknown error"@,
        },
    }
}

/// The value at a dotted path of a JSON text: each part names a field of an object.
pub open spec fn walk(text: Seq<char>, parts: Seq<Seq<char>>) -> Option<Seq<char>>
    decreases parts.len(),
{
    if parts.len() == 0 {
        Some(text)
    } else {
        match walk(text, parts.drop_last()) {
            Some(t) => json_field(t, parts.last()),
            None => None,
        }
    }
}

/// A reply of a REST call.
#[derive(Debug, Clone, PartialEq, Eq)]
pub struct RestResponse {
    pub status: u16,
    pub headers: Vec<(String, String)>,
    /// The body, as JSON text.
    pub body: String,
    pub response_time_ms: u64,
    pub from_cache: bool,
}

impl RestResponse {
    /// Whether the status is 2xx.
    pub fn is_success(&self) -> (r: bool)
        ensures
            r == (200 <= self.status < 300),
    {
        is_success_status(self.status)
    }

    /// The value at a dotted path of the body (`user.name`), as JSON text.
    pub fn get(&self, path: &str) -> (r: Option<String>)
        ensures
            match r {
                Some(v) => walk(self.body@, split_on(path@, '.')) == Some(v@),
                None => walk(self.body@, split_on(path@, '.')) is None,
            },
    {
        let cs = chars_of(path);
        let parts = split_chars(&cs, '.');
        let ghost pv = parts@.map_values(|p: Vec<char>| p@);
        let mut current = self.body.clone();
        let mut i: usize = 0;
        assert(pv.take(0) =~= Seq::<Seq<char>>::empty());
        while i < parts.len()
            invariant
                i <= parts@.len(),
                pv == parts@.map_values(|p: Vec<char>| p@),
                pv == split_on(path@, '.'),
                walk(self.body@, pv.take(i as int)) == Some(current@),
            decreases parts.len() - i,
        {
            let mut key = String::new();
            crate::text::push_range(&mut key, &parts[i], 0, parts[i].len());
            assert(key@ =~= pv[i as int]);
            assert(pv.take(i + 1).drop_last() =~= pv.take(i as int));
            assert(pv.take(i + 1).last() == pv[i as int]);
            match get_field(current.as_str(), key.as_str()) {
                Some(next) => {
                    current = next;
                },
                None => {
                    proof {
                        lemma_walk_none_prefix(self.body@, pv, i + 1);
                    }
                    return None;
                },
            }
            i = i + 1;
        }
        assert(pv.take(pv.len() as int) =~= pv);
        Some(current)
    }
}

proof fn lemma_walk_none_prefix(text: Seq<char>, parts: Seq<Seq<char>>, n: int)
    requires
        0 <= n <= parts.len(),
        walk(text, parts.take(n)) is None,
    ensures
        walk(text, parts) is None,
    decreases parts.len() - n,
{
    if n < parts.len() {
        assert(parts.take(n + 1).drop_last() =~= parts.take(n));
        lemma_walk_none_prefix(text, parts, n + 1);
    } else {
        assert(parts.take(n) =~= parts);
    }
}

/// Make the reply of an HTTP call from its status, headers, body text and duration: the
/// body is kept as [`response_body`] says; a status outside 2xx is an HTTP error with the
/// body's message.
pub fn read_response(status: u16, headers: Vec<(String, String)>, body_text: &str, response_time_ms: u64) -> (r: Result<
    RestResponse,
    RestConnectorError,
>)
    ensures
        200 <= status < 300 ==> (r matches Ok(resp) && resp.status == status && resp.headers == headers && resp.body@
            == response_body(body_text@) && resp.response_time_ms == response_time_ms && !resp.from_cache),
        !(200 <= status < 300) ==> (r matches Err(RestConnectorError::HttpError { status: s, message: m }) && s == status
            && m@ == error_message(response_body(body_text@))),
{
    let body = if body_text.unicode_len() == 0 {
        String::from_str("null")
    } else if is_json(body_text) {
        compact_json(body_text)
    } else {
        let mut b = String::from_str("{\"raw\":");
        let q = quote_json(body_text);
        push_str(&mut b, q.as_str());
        push_str(&mut b, "}");
        b
    };
    if !is_success_status(status) {
        let message = match get_field(body.as_str(), "message") {
            Some(m) => match json_as_str(m.as_str()) {
                Some(s) => s,
                None => String::from_str("Unknown error"),
            },
            None => match get_field(body.as_str(), "error") {
                Some(e) => match json_as_str(e.as_str()) {
                    Some(s) => s,
                    None => String::from_str("Unknown error"),
                },
                None => String::from_str("Unknown error"),
            },
        };
        return Err(RestConnectorError::HttpError { status, message });
    }
    Ok(RestResponse { status, headers, body, response_time_ms, from_cache: false })
}

/// Character order as `str` compares (by code point).
pub open spec fn text_less(a: Seq<char>, b: Seq<char>) -> bool
    decreases a.len(),
{
    if a.len() == 0 {
        b.len() > 0
    } else if b.len() == 0 {
        false
    } else if a[0] != b[0] {
        (a[0] as u32) < (b[0] as u32)
    } else {
        text_less(a.skip(1), b.skip(1))
    }
}

fn less_exec(a: &Vec<char>, b: &Vec<char>) -> (r: bool)
    ensures
        r == text_less(a@, b@),
{
    let mut i: usize = 0;
    assert(a@.skip(0) =~= a@);
    assert(b@.skip(0) =~= b@);
    while i < a.len() && i < b.len() && a[i] == b[i]
        invariant
            i <= a@.len(),
            i <= b@.len(),
            text_less(a@, b@) == text_less(a@.skip(i as int), b@.skip(i as int)),
        decreases a.len() - i,
    {
        assert(a@.skip(i as int).skip(1) =~= a@.skip(i + 1));
        assert(b@.skip(i as int).skip(1) =~= b@.skip(i + 1));
        i = i + 1;
    }
    if i == a.len() {
        i < b.len()
    } else if i == b.len() {
        false
    } else {
        let x = a[i] as u32;
        let y = b[i] as u32;
        proof {
            assert(a@.skip(i as int)[0] == a@[i as int]);
            assert(b@.skip(i as int)[0] == b@[i as int]);
        }
        x < y
    }
}

/// The keys strictly increase.
pub open spec fn keys_sorted(s: Seq<(Seq<char>, Seq<char>)>) -> bool {
    forall|i: int, j: int| 0 <= i < j < s.len() ==> text_less(#[trigger] s[i].0, #[trigger] s[j].0)
}

/// No key occurs twice.
pub open spec fn keys_distinct(s: Seq<(Seq<char>, Seq<char>)>) -> bool {
    forall|i: int, j: int| 0 <= i < j < s.len() ==> (#[trigger] s[i]).0 != (#[trigger] s[j]).0
}

/// The `&key=value` pieces of the parameters, in order.
pub open spec fn param_text(s: Seq<(Seq<char>, Seq<char>)>) -> Seq<char>
    decreases s.len(),
{
    if s.len() == 0 {
        Seq::empty()
    } else {
        param_text(s.drop_last()) + "&"@ + s.last().0 + "="@ + s.last().1
    }
}

/// The cache key of a request: base URL, `:`, path, then the parameters sorted by name.
pub open spec fn cache_key_text(base: Seq<char>, path: Seq<char>, sorted: Seq<(Seq<char>, Seq<char>)>) -> Seq<char> {
    base + ":"@ + path + param_text(sorted)
}

proof fn lemma_text_less_irrefl(a: Seq<char>)
    ensures
        !text_less(a, a),
    decreases a.len(),
{
    if a.len() > 0 {
        lemma_text_less_irrefl(a.skip(1));
    }
}

proof fn lemma_text_less_total(a: Seq<char>, b: Seq<char>)
    ensures
        a != b ==> text_less(a, b) || text_less(b, a),
    decreases a.len(),
{
    if a.len() == 0 && b.len() == 0 {
        assert(a =~= b);
    } else if a.len() == 0 || b.len() == 0 {
    } else if a[0] != b[0] {
        vstd::utf8::char_u32_cast(a[0], a[0] as u32);
        vstd::utf8::char_u32_cast(b[0], b[0] as u32);
        assert((a[0] as u32) != (b[0] as u32));
    } else {
        lemma_text_less_total(a.skip(1), b.skip(1));
        if a.skip(1) =~= b.skip(1) {
            assert(a =~= seq![a[0]] + a.skip(1));
            assert(b =~= seq![b[0]] + b.skip(1));
            assert(a =~= b);
        }
    }
}

proof fn lemma_text_less_trans(a: Seq<char>, b: Seq<char>, c: Seq<char>)
    requires
        text_less(a, b),
        text_less(b, c),
    ensures
        text_less(a, c),
    decreases a.len(),
{
    if a.len() > 0 && b.len() > 0 && c.len() > 0 && a[0] == b[0] && b[0] == c[0] {
        lemma_text_less_trans(a.skip(1), b.skip(1), c.skip(1));
    }
}

fn insert_sorted(out: &mut Vec<(String, String)>, item: (String, String))
    requires
        keys_sorted(pair_views(old(out)@)),
        forall|j: int| 0 <= j < old(out)@.len() ==> (#[trigger] old(out)@[j]).0@ != item.0@,
    ensures
        keys_sorted(pair_views(final(out)@)),
        pair_views(final(out)@).to_multiset() == pair_views(old(out)@).to_multiset().insert((item.0@, item.1@)),
{
    let ghost s = pair_views(out@);
    let kc = chars_of(item.0.as_str());
    let mut pos: usize = 0;
    let mut done = false;
    while !done && pos < out.len()
        invariant
            pos <= out@.len(),
            s == pair_views(out@),
            s == pair_views(old(out)@),
            kc@ == item.0@,
            forall|j: int| 0 <= j < pos ==> text_less(#[trigger] s[j].0, item.0@),
            done ==> pos < s.len() && text_less(item.0@, s[pos as int].0),
            forall|j: int| 0 <= j < old(out)@.len() ==> (#[trigger] old(out)@[j]).0@ != item.0@,
        decreases (out.len() - pos) * 2 + (if done { 0int } else { 1int }),
    {
        let oc = chars_of(out[pos].0.as_str());
        if less_exec(&kc, &oc) {
            done = true;
        } else {
            proof {
                assert(s[pos as int] == (old(out)@[pos as int].0@, old(out)@[pos as int].1@));
                assert(old(out)@[pos as int].0@ != item.0@);
                lemma_text_less_total(s[pos as int].0, item.0@);
            }
            pos = pos + 1;
        }
    }
    let ghost iv = (item.0@, item.1@);
    out.insert(pos, item);
    proof {
        let t = pair_views(out@);
        assert(t =~= s.insert(pos as int, iv));
        assert forall|i: int, j: int| 0 <= i < j < t.len() implies text_less(#[trigger] t[i].0, #[trigger] t[j].0) by {
            if j < pos {
                assert(t[i] == s[i] && t[j] == s[j]);
            } else if j == pos {
                assert(t[i] == s[i]);
            } else if i == pos {
                assert(t[j] == s[j - 1]);
                if pos < s.len() {
                    if j - 1 > pos {
                        assert(text_less(s[pos as int].0, s[j - 1].0));
                        lemma_text_less_trans(item.0@, s[pos as int].0, s[j - 1].0);
                    }
                }
            } else if i < pos {
                assert(t[i] == s[i] && t[j] == s[j - 1]);
            } else {
                assert(t[i] == s[i - 1] && t[j] == s[j - 1]);
            }
        }
        vstd::seq_lib::to_multiset_insert(s, pos as int, iv);
    }
}

impl RestConfig {
    /// The key under which a GET reply is cached: the base URL, `:`, the path, then
    /// `&name=value` for each query parameter in increasing name order.
    pub fn cache_key(&self, path: &str, params: &Option<Vec<(String, String)>>) -> (r: String)
        requires
            params matches Some(p) ==> keys_distinct(pair_views(p@)),
        ensures
            params is None ==> r@ == cache_key_text(self.base_url@, path@, Seq::empty()),
            params matches Some(p) ==> exists|sorted: Seq<(Seq<char>, Seq<char>)>|
                {
                    &&& keys_sorted(sorted)
                    &&& sorted.to_multiset() == pair_views(p@).to_multiset()
                    &&& r@ == cache_key_text(self.base_url@, path@, sorted)
                },
    {
        let mut key = self.base_url.clone();
        push_str(&mut key, ":");
        push_str(&mut key, path);
        match params {
            None => {
                assert(key@ =~= cache_key_text(self.base_url@, path@, Seq::empty()));
                key
            },
            Some(p) => {
                let ghost pv = pair_views(p@);
                let mut sorted: Vec<(String, String)> = Vec::new();
                let mut i: usize = 0;
                assert(pair_views(sorted@) =~= pv.take(0));
                assert(pv.take(0).to_multiset() =~= vstd::multiset::Multiset::empty()) by {
                    assert(pv.take(0) =~= Seq::<(Seq<char>, Seq<char>)>::empty());
                    vstd::seq_lib::to_multiset_len(pv.take(0));
                }
                while i < p.len()
                    invariant
                        i <= p@.len(),
                        pv == pair_views(p@),
                        keys_distinct(pv),
                        keys_sorted(pair_views(sorted@)),
                        pair_views(sorted@).to_multiset() == pv.take(i as int).to_multiset(),
                    decreases p.len() - i,
                {
                    proof {
                        assert forall|j: int| 0 <= j < sorted@.len() implies (#[trigger] sorted@[j]).0@ != p@[i as int].0@ by {
                            let sv = pair_views(sorted@);
                            let x = sv[j];
                            assert(x == (sorted@[j].0@, sorted@[j].1@));
                            assert(sv.contains(x));
                            vstd::seq_lib::to_multiset_contains(sv, x);
                            let pt = pv.take(i as int);
                            vstd::seq_lib::to_multiset_contains(pt, x);
                            assert(pt.contains(x));
                            let k = choose|k: int| 0 <= k < pt.len() && pt[k] == x;
                            assert(pv[k] == x);
                            assert(pv[i as int] == (p@[i as int].0@, p@[i as int].1@));
                        }
                    }
                    insert_sorted(&mut sorted, (p[i].0.clone(), p[i].1.clone()));
                    assert(pv.take(i + 1) =~= pv.take(i as int).push(pv[i as int]));
                    proof {
                        vstd::seq_lib::to_multiset_build(pv.take(i as int), pv[i as int]);
                    }
                    i = i + 1;
                }
                assert(pv.take(pv.len() as int) =~= pv);
                let mut k: usize = 0;
                let ghost sv = pair_views(sorted@);
                let ghost base = key@;
                assert(sv.take(0) =~= Seq::<(Seq<char>, Seq<char>)>::empty());
                while k < sorted.len()
                    invariant
                        k <= sorted@.len(),
                        sv == pair_views(sorted@),
                        key@ == base + param_text(sv.take(k as int)),
                    decreases sorted.len() - k,
                {
                    push_str(&mut key, "&");
                    push_str(&mut key, sorted[k].0.as_str());
                    push_str(&mut key, "=");
                    push_str(&mut key, sorted[k].1.as_str());
                    assert(sv.take(k + 1).drop_last() =~= sv.take(k as int));
                    assert(key@ =~= base + param_text(sv.take(k + 1)));
                    k = k + 1;
                }
                assert(sv.take(sv.len() as int) =~= sv);
                assert(key@ =~= cache_key_text(self.base_url@, path@, sv));
                key
            },
        }
    }
}

/// A GraphQL query with its operation name and variables (names and JSON texts).
#[derive(Debug, Clone, PartialEq, Eq)]
pub struct GraphQLQuery {
    pub query: String,
    pub operation_name: Option<String>,
    pub variables: Option<Vec<(String, String)>>,
}

impl GraphQLQuery {
    /// A query without operation name or variables.
    pub fn new(query: &str) -> (r: Self)
        ensures
            r.query@ == query@,
            r.operation_name is None,
            r.variables is None,
    {
        GraphQLQuery { query: String::from_str(query), operation_name: None, variables: None }
    }

    /// Set the operation name.
    pub fn with_operation(self, name: &str) -> (r: Self)
        ensures
            r.query == self.query,
            r.variables == self.variables,
            r.operation_name matches Some(n) && n@ == name@,
    {
        GraphQLQuery { operation_name: Some(String::from_str(name)), ..self }
    }

    /// Set all variables.
    pub fn with_variables(self, variables: Vec<(String, String)>) -> (r: Self)
        ensures
            r == (GraphQLQuery { variables: Some(variables), ..self }),
    {
        GraphQLQuery { variables: Some(variables), ..self }
    }

    /// Set one variable (a JSON text), adding the variables when there are none.
    pub fn with_variable(self, key: &str, value: String) -> (r: Self)
        ensures
            r.query == self.query,
            r.operation_name == self.operation_name,
            r.variables matches Some(v) && pair_views(v@) == upsert(
                match self.variables {
                    Some(old_vars) => pair_views(old_vars@),
                    None => Seq::empty(),
                },
                key@,
                value@,
            ),
    {
        let mut vars = match self.variables {
            Some(v) => v,
            None => Vec::new(),
        };
        proof {
            if self.variables is None {
                assert(pair_views(vars@) =~= Seq::<(Seq<char>, Seq<char>)>::empty());
            }
        }
        upsert_pair(&mut vars, String::from_str(key), value);
        GraphQLQuery { query: self.query, operation_name: self.operation_name, variables: Some(vars) }
    }
}

/// A cached GET reply: its key, body (JSON text) and expiry time in milliseconds.
#[derive(Debug, Clone, PartialEq, Eq)]
pub struct CacheEntry {
    pub key: String,
    pub response: String,
    pub expires_at: i64,
}

/// `i` is the first entry with the key.
pub open spec fn first_entry(s: Seq<CacheEntry>, k: Seq<char>, i: int) -> bool {
    0 <= i < s.len() && s[i].key@ == k && forall|j: int| 0 <= j < i ==> s[j].key@ != k
}

/// The body cached under the key, if its entry has not expired at `now`.
pub open spec fn cached(s: Seq<CacheEntry>, k: Seq<char>, now: i64) -> Option<Seq<char>> {
    if exists|i: int| #[trigger] first_entry(s, k, i) {
        let e = s[choose|i: int| #[trigger] first_entry(s, k, i)];
        if e.expires_at > now {
            Some(e.response@)
        } else {
            None
        }
    } else {
        None
    }
}

/// The entries with the entry put in place of the first one with its key, or added.
pub open spec fn put_entry(s: Seq<CacheEntry>, e: CacheEntry) -> Seq<CacheEntry> {
    if exists|i: int| #[trigger] first_entry(s, e.key@, i) {
        s.update(choose|i: int| #[trigger] first_entry(s, e.key@, i), e)
    } else {
        s.push(e)
    }
}

/// The entries that have not expired at `now`.
pub open spec fn live_entries(s: Seq<CacheEntry>, now: i64) -> Seq<CacheEntry>
    decreases s.len(),
{
    if s.len() == 0 {
        Seq::empty()
    } else if s.last().expires_at > now {
        live_entries(s.drop_last(), now).push(s.last())
    } else {
        live_entries(s.drop_last(), now)
    }
}

/// Replies of GET requests kept for a while, by cache key.
#[derive(Debug, Clone, PartialEq, Eq)]
pub struct ResponseCache {
    pub entries: Vec<CacheEntry>,
}

fn find_entry_index(s: &Vec<CacheEntry>, key: &str) -> (r: Option<usize>)
    ensures
        match r {
            Some(i) => first_entry(s@, key@, i as int),
            None => !exists|i: int| #[trigger] first_entry(s@, key@, i),
        },
{
    let mut i: usize = 0;
    while i < s.len()
        invariant
            i <= s@.len(),
            forall|j: int| 0 <= j < i ==> #[trigger] s@[j].key@ != key@,
        decreases s.len() - i,
    {
        if crate::execution::str_eq(s[i].key.as_str(), key) {
            return Some(i);
        }
        i = i + 1;
    }
    proof {
        if exists|c: int| #[trigger] first_entry(s@, key@, c) {
            let c = choose|c: int| #[trigger] first_entry(s@, key@, c);
            assert(s@[c].key@ != key@);
        }
    }
    None
}

proof fn lemma_first_entry_unique(s: Seq<CacheEntry>, k: Seq<char>, i: int, j: int)
    requires
        first_entry(s, k, i),
        first_entry(s, k, j),
    ensures
        i == j,
{
    if i < j {
        assert(s[i].key@ != k);
    } else if j < i {
        assert(s[j].key@ != k);
    }
}

impl ResponseCache {
    /// An empty cache.
    pub fn new() -> (r: Self)
        ensures
            r.entries@.len() == 0,
    {
        ResponseCache { entries: Vec::new() }
    }

    /// The body cached under the key, if not expired at `now`.
    pub fn get_at(&self, key: &str, now: i64) -> (r: Option<String>)
        ensures
            match r {
                Some(b) => cached(self.entries@, key@, now) == Some(b@),
                None => cached(self.entries@, key@, now) is None,
            },
    {
        match find_entry_index(&self.entries, key) {
            Some(i) => {
                proof {
                    let c = choose|c: int| #[trigger] first_entry(self.entries@, key@, c);
                    lemma_first_entry_unique(self.entries@, key@, i as int, c);
                }
                if self.entries[i].expires_at > now {
                    Some(self.entries[i].response.clone())
                } else {
                    None
                }
            },
            None => None,
        }
    }

    /// Cache a body under the key at `now` for `ttl_secs` seconds, replacing an earlier
    /// entry with that key.
    pub fn insert_at(&mut self, key: String, response: String, now: i64, ttl_secs: u64)
        requires
            now + ttl_secs * 1000 <= i64::MAX,
        ensures
            final(self).entries@ == put_entry(
                old(self).entries@,
                CacheEntry { key, response, expires_at: (now + ttl_secs * 1000) as i64 },
            ),
    {
        let expires_at = (now as i128 + (ttl_secs as i128) * 1000) as i64;
        let e = CacheEntry { key, response, expires_at };
        match find_entry_index(&self.entries, e.key.as_str()) {
            Some(i) => {
                proof {
                    let c = choose|c: int| #[trigger] first_entry(self.entries@, e.key@, c);
                    lemma_first_entry_unique(self.entries@, e.key@, i as int, c);
                }
                self.entries.set(i, e);
            },
            None => {
                self.entries.push(e);
            },
        }
    }

    /// Remove every entry.
    pub fn clear(&mut self)
        ensures
            final(self).entries@.len() == 0,
    {
        self.entries.clear();
    }

    /// The number of entries and the number not expired at `now`.
    pub fn stats_at(&self, now: i64) -> (r: (usize, usize))
        ensures
            r.0 == self.entries@.len(),
            r.1 == live_entries(self.entries@, now).len(),
    {
        let mut valid: usize = 0;
        let mut i: usize = 0;
        let ghost s = self.entries@;
        assert(s.take(0) =~= Seq::<CacheEntry>::empty());
        while i < self.entries.len()
            invariant
                i <= s.len(),
                s == self.entries@,
                valid == live_entries(s.take(i as int), now).len(),
                valid <= i,
            decreases self.entries.len() - i,
        {
            assert(s.take(i + 1).drop_last() =~= s.take(i as int));
            assert(s.take(i + 1).last() == s[i as int]);
            if self.entries[i].expires_at > now {
                valid = valid + 1;
            }
            i = i + 1;
        }
        assert(s.take(s.len() as int) =~= s);
        (self.entries.len(), valid)
    }
}

/// The top level of a JSON value: a string, the compact texts of an array's items, the
/// keys and compact texts of an object's members, or anything else.
pub enum JsonShape {
    Str(String),
    Array(Vec<String>),
    Object(Vec<(String, String)>),
    Other,
}

/// [`JsonShape`] as values.
pub enum JsonShapeView {
    Str(Seq<char>),
    Array(Seq<Seq<char>>),
    Object(Seq<(Seq<char>, Seq<char>)>),
    Other,
}

/// The view of a shape.
pub open spec fn shape_view(s: JsonShape) -> JsonShapeView {
    match s {
        JsonShape::Str(t) => JsonShapeView::Str(t@),
        JsonShape::Array(items) => JsonShapeView::Array(items@.map_values(|x: String| x@)),
        JsonShape::Object(members) => JsonShapeView::Object(pair_views(members@)),
        JsonShape::Other => JsonShapeView::Other,
    }
}

/// The top level of the JSON value of a text as `serde_json` reads it (object members
/// in the map's key order); `Other` for any other value or a text that does not parse.
pub uninterp spec fn json_shape_of(text: Seq<char>) -> JsonShapeView;

/// `serde_json::from_str::<Value>`, then the variant, children written back compactly.
#[verifier::external_body]
pub(crate) fn json_shape(text: &str) -> (r: JsonShape)
    ensures
        shape_view(r) == json_shape_of(text@),
{
    match serde_json::from_str::<serde_json::Value>(text) {
        Ok(serde_json::Value::String(s)) => JsonShape::Str(s),
        Ok(serde_json::Value::Array(a)) => JsonShape::Array(a.iter().map(|v| v.to_string()).collect()),
        Ok(serde_json::Value::Object(o)) => JsonShape::Object(o.iter().map(|(k, v)| (k.clone(), v.to_string())).collect()),
        _ => JsonShape::Other,
    }
}

/// A whole-placeholder string (`{{...}}`).
pub open spec fn is_whole_placeholder(s: Seq<char>) -> bool {
    s.len() >= 2 && s[0] == '{' && s[1] == '{' && s[s.len() - 2] == '}' && s[s.len() - 1] == '}'
}

/// A JSON string with its placeholders replaced: read as JSON when it was one whole
/// placeholder and the result parses, otherwise a string.
pub open spec fn string_subst(s: Seq<char>, vars: Seq<(Seq<char>, Seq<char>)>) -> Seq<char> {
    let sub = substitute(s, displayed(vars));
    if is_whole_placeholder(s) && json_valid(sub) {
        json_compact(sub)
    } else {
        json_quoted(sub)
    }
}

/// The compact JSON of a value with the placeholders of its strings replaced, nested
/// values up to `fuel` levels deep (deeper ones are kept as they are).
pub open spec fn subst_json(text: Seq<char>, vars: Seq<(Seq<char>, Seq<char>)>, fuel: nat) -> Seq<char>
    decreases fuel, 0nat,
{
    if fuel == 0 {
        json_compact(text)
    } else {
        match json_shape_of(text) {
            JsonShapeView::Str(s) => string_subst(s, vars),
            JsonShapeView::Array(items) => "["@ + subst_items(items, vars, (fuel - 1) as nat) + "]"@,
            JsonShapeView::Object(members) => "{"@ + subst_members(members, vars, (fuel - 1) as nat) + "}"@,
            JsonShapeView::Other => json_compact(text),
        }
    }
}

/// The items replaced and joined with commas.
pub open spec fn subst_items(items: Seq<Seq<char>>, vars: Seq<(Seq<char>, Seq<char>)>, fuel: nat) -> Seq<char>
    decreases fuel, items.len(),
{
    if items.len() == 0 {
        Seq::empty()
    } else if items.len() == 1 {
        subst_json(items[0], vars, fuel)
    } else {
        subst_items(items.drop_last(), vars, fuel) + ","@ + subst_json(items.last(), vars, fuel)
    }
}

/// The members (quoted key, colon, replaced value) joined with commas.
pub open spec fn subst_members(members: Seq<(Seq<char>, Seq<char>)>, vars: Seq<(Seq<char>, Seq<char>)>, fuel: nat) -> Seq<
    char,
>
    decreases fuel, members.len(),
{
    if members.len() == 0 {
        Seq::empty()
    } else if members.len() == 1 {
        json_quoted(members[0].0) + ":"@ + subst_json(members[0].1, vars, fuel)
    } else {
        subst_members(members.drop_last(), vars, fuel) + ","@ + json_quoted(members.last().0) + ":"@ + subst_json(
            members.last().1,
            vars,
            fuel,
        )
    }
}

fn whole_placeholder(s: &str) -> (r: bool)
    ensures
        r == is_whole_placeholder(s@),
{
    let c = chars_of(s);
    let n = c.len();
    n >= 2 && c[0] == '{' && c[1] == '{' && c[n - 2] == '}' && c[n - 1] == '}'
}

fn string_subst_exec(s: &str, vars: &Vec<(String, String)>) -> (r: String)
    ensures
        r@ == string_subst(s@, pair_views(vars@)),
{
    let sub = substitute_variables(s, vars);
    if whole_placeholder(s) && is_json(sub.as_str()) {
        compact_json(sub.as_str())
    } else {
        quote_json(sub.as_str())
    }
}

/// Replace the `{{name}}` placeholders in the strings of a JSON value (names and JSON
/// values), nested values up to `fuel` levels deep; the result is compact JSON.
pub fn substitute_json_variables(text: &str, vars: &Vec<(String, String)>, fuel: usize) -> (r: String)
    ensures
        r@ == subst_json(text@, pair_views(vars@), fuel as nat),
    decreases fuel,
{
    if fuel == 0 {
        return compact_json(text);
    }
    let ghost pv = pair_views(vars@);
    let f = fuel - 1;
    match json_shape(text) {
        JsonShape::Str(s) => string_subst_exec(s.as_str(), vars),
        JsonShape::Array(items) => {
            let ghost iv = items@.map_values(|x: String| x@);
            let mut out = String::from_str("[");
            let mut k: usize = 0;
            assert(iv.take(0) =~= Seq::<Seq<char>>::empty());
            while k < items.len()
                invariant
                    k <= items@.len(),
                    iv == items@.map_values(|x: String| x@),
                    pv == pair_views(vars@),
                    f == fuel - 1,
                    out@ == "["@ + subst_items(iv.take(k as int), pv, f as nat),
                decreases items.len() - k,
            {
                assert(iv.take(k + 1).drop_last() =~= iv.take(k as int));
                assert(iv.take(k + 1).last() == items@[k as int]@);
                let t = substitute_json_variables(items[k].as_str(), vars, f);
                if k > 0 {
                    push_str(&mut out, ",");
                    assert(out@ + t@ =~= "["@ + subst_items(iv.take(k + 1), pv, f as nat));
                } else {
                    assert(iv.take(1)[0] == iv[0]);
                    assert(out@ + t@ =~= "["@ + subst_items(iv.take(k + 1), pv, f as nat));
                }
                push_str(&mut out, t.as_str());
                k = k + 1;
            }
            assert(iv.take(iv.len() as int) =~= iv);
            push_str(&mut out, "]");
            out
        },
        JsonShape::Object(members) => {
            let ghost mv = pair_views(members@);
            let mut out = String::from_str("{");
            let mut k: usize = 0;
            assert(mv.take(0) =~= Seq::<(Seq<char>, Seq<char>)>::empty());
            while k < members.len()
                invariant
                    k <= members@.len(),
                    mv == pair_views(members@),
                    pv == pair_views(vars@),
                    f == fuel - 1,
                    out@ == "{"@ + subst_members(mv.take(k as int), pv, f as nat),
                decreases members.len() - k,
            {
                assert(mv.take(k + 1).drop_last() =~= mv.take(k as int));
                assert(mv.take(k + 1).last() == (members@[k as int].0@, members@[k as int].1@));
                let key = quote_json(members[k].0.as_str());
                let t = substitute_json_variables(members[k].1.as_str(), vars, f);
                if k > 0 {
                    push_str(&mut out, ",");
                    assert(out@ + key@ + ":"@ + t@ =~= "{"@ + subst_members(mv.take(k + 1), pv, f as nat));
                } else {
                    assert(mv.take(1)[0] == mv[0]);
                    assert(out@ + key@ + ":"@ + t@ =~= "{"@ + subst_members(mv.take(k + 1), pv, f as nat));
                }
                push_str(&mut out, key.as_str());
                push_str(&mut out, ":");
                push_str(&mut out, t.as_str());
                k = k + 1;
            }
            assert(mv.take(mv.len() as int) =~= mv);
            push_str(&mut out, "}");
            out
        },
        JsonShape::Other => compact_json(text),
    }
}

/// A request with `{{variable}}` placeholders in its path, body and query values.
#[derive(Debug, Clone, PartialEq, Eq)]
pub struct RequestTemplate {
    pub method: String,
    pub path: String,
    pub headers: Vec<(String, String)>,
    /// The body, as JSON text.
    pub body: Option<String>,
    pub query_params: Vec<(String, String)>,
}

/// The parameters with the placeholders of their values replaced.
pub open spec fn rendered_params(ps: Seq<(Seq<char>, Seq<char>)>, vars: Seq<(Seq<char>, Seq<char>)>) -> Seq<(Seq<char>, Seq<char>)> {
    ps.map_values(|p: (Seq<char>, Seq<char>)| (p.0, substitute(p.1, displayed(vars))))
}

impl RequestTemplate {
    /// A GET request of the path.
    pub fn get(path: &str) -> (r: Self)
        ensures
            r.method@ == "GET"@,
            r.path@ == path@,
            r.headers@.len() == 0,
            r.body is None,
            r.query_params@.len() == 0,
    {
        RequestTemplate {
            method: String::from_str("GET"),
            path: String::from_str(path),
            headers: Vec::new(),
            body: None,
            query_params: Vec::new(),
        }
    }

    /// A POST request of the path with a body (JSON text).
    pub fn post(path: &str, body: String) -> (r: Self)
        ensures
            r.method@ == "POST"@,
            r.path@ == path@,
            r.headers@.len() == 0,
            r.body == Some(body),
            r.query_params@.len() == 0,
    {
        RequestTemplate {
            method: String::from_str("POST"),
            path: String::from_str(path),
            headers: Vec::new(),
            body: Some(body),
            query_params: Vec::new(),
        }
    }

    /// Set a header.
    pub fn with_header(self, key: &str, value: &str) -> (r: Self)
        ensures
            pair_views(r.headers@) == upsert(pair_views(self.headers@), key@, value@),
            r.path == self.path && r.method == self.method && r.body == self.body,
            r.query_params == self.query_params,
    {
        let mut t = self;
        upsert_pair(&mut t.headers, String::from_str(key), String::from_str(value));
        t
    }

    /// Set a query parameter.
    pub fn with_query(self, key: &str, value: &str) -> (r: Self)
        ensures
            pair_views(r.query_params@) == upsert(pair_views(self.query_params@), key@, value@),
            r.path == self.path && r.method == self.method && r.body == self.body,
            r.headers == self.headers,
    {
        let mut t = self;
        upsert_pair(&mut t.query_params, String::from_str(key), String::from_str(value));
        t
    }

    /// The path, body and query parameters with the placeholders replaced by the
    /// variables (names and JSON values).
    pub fn render(&self, variables: &Vec<(String, String)>) -> (r: (String, Option<String>, Vec<(String, String)>))
        ensures
            r.0@ == substitute(self.path@, displayed(pair_views(variables@))),
            match self.body {
                Some(b) => r.1 matches Some(x) && x@ == subst_json(b@, pair_views(variables@), b@.len()),
                None => r.1 is None,
            },
            pair_views(r.2@) == rendered_params(pair_views(self.query_params@), pair_views(variables@)),
    {
        let path = substitute_variables(self.path.as_str(), variables);
        let body = match &self.body {
            Some(b) => Some(substitute_json_variables(b.as_str(), variables, b.as_str().unicode_len())),
            None => None,
        };
        let ghost qp = pair_views(self.query_params@);
        let mut params: Vec<(String, String)> = Vec::new();
        let mut i: usize = 0;
        while i < self.query_params.len()
            invariant
                i <= self.query_params@.len(),
                qp == pair_views(self.query_params@),
                pair_views(params@) == rendered_params(qp.take(i as int), pair_views(variables@)),
            decreases self.query_params.len() - i,
        {
            let v = substitute_variables(self.query_params[i].1.as_str(), variables);
            let ghost before = pair_views(params@);
            let ghost item = (qp[i as int].0, substitute(qp[i as int].1, displayed(pair_views(variables@))));
            assert(qp[i as int] == (self.query_params@[i as int].0@, self.query_params@[i as int].1@));
            params.push((self.query_params[i].0.clone(), v));
            assert(pair_views(params@) =~= before.push(item));
            assert(rendered_params(qp.take(i + 1), pair_views(variables@)) =~= rendered_params(qp.take(i as int), pair_views(variables@)).push(item));
            i = i + 1;
        }
        assert(qp.take(qp.len() as int) =~= qp);
        (path, body, params)
    }
}

} // verus!
