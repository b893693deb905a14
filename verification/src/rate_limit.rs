//! Per-client request limiting: the key a client is counted under, the answer to a
//! request, and the headers that carry it.

use vstd::prelude::*;
use crate::text::{decimal, trim_seq, trim_text, u64_to_string};

verus! {

/// The answer of the limiter to one request.
#[derive(Debug, Clone, Copy, PartialEq, Eq, Structural)]
pub enum RateLimitResult {
    Allowed { limit: u32, remaining: u32, reset: u64 },
    RateLimited { limit: u32, retry_after: u64 },
}

/// The answer for a request of which the bucket did (or did not) take a token: the
/// limit, the whole tokens left and the window in seconds.
pub fn limit_outcome(max_requests: u32, window_secs: u64, consumed: bool, remaining: u32) -> (r: RateLimitResult)
    ensures
        consumed ==> r == (RateLimitResult::Allowed { limit: max_requests, remaining, reset: window_secs }),
        !consumed ==> r == (RateLimitResult::RateLimited { limit: max_requests, retry_after: window_secs }),
{
    if consumed {
        RateLimitResult::Allowed { limit: max_requests, remaining, reset: window_secs }
    } else {
        RateLimitResult::RateLimited { limit: max_requests, retry_after: window_secs }
    }
}

/// The text before the first comma (all of it when there is none).
pub open spec fn first_segment(s: Seq<char>) -> Seq<char>
    decreases s.len(),
{
    if s.len() == 0 {
        s
    } else if s.last() == ',' && !s.drop_last().contains(',') {
        s.drop_last()
    } else if s.drop_last().contains(',') {
        first_segment(s.drop_last())
    } else {
        s
    }
}

/// The key a client is counted under: the first address of `X-Forwarded-For`, trimmed;
/// else `X-Real-IP`; else the address of the connection; else `unknown`.
pub open spec fn client_key_spec(forwarded: Option<Seq<char>>, real_ip: Option<Seq<char>>, peer: Option<Seq<char>>) -> Seq<char> {
    match forwarded {
        Some(f) => trim_seq(first_segment(f)),
        None => match real_ip {
            Some(r) => r,
            None => match peer {
                Some(p) => p,
                None => "unknown"@,
            },
        },
    }
}

fn first_comma(v: &Vec<char>) -> (r: usize)
    ensures
        r <= v@.len(),
        forall|j: int| 0 <= j < r ==> v@[j] != ',',
        r < v@.len() ==> v@[r as int] == ',',
{
    let mut i: usize = 0;
    while i < v.len()
        invariant
            i <= v@.len(),
            forall|j: int| 0 <= j < i ==> v@[j] != ',',
        decreases v.len() - i,
    {
        if v[i] == ',' {
            return i;
        }
        i = i + 1;
    }
    i
}

proof fn lemma_first_segment(s: Seq<char>, k: int)
    requires
        0 <= k <= s.len(),
        forall|j: int| 0 <= j < k ==> s[j] != ',',
        k < s.len() ==> s[k] == ',',
    ensures
        first_segment(s) == s.take(k),
    decreases s.len(),
{
    if s.len() == 0 {
        assert(s.take(k) =~= s);
    } else if k == s.len() {
        assert(!s.drop_last().contains(',')) by {
            if s.drop_last().contains(',') {
                let j = choose|j: int| 0 <= j < s.drop_last().len() && s.drop_last()[j] == ',';
                assert(s[j] == ',');
            }
        }
        assert(s.take(k) =~= s);
    } else if k == s.len() - 1 {
        assert(!s.drop_last().contains(',')) by {
            if s.drop_last().contains(',') {
                let j = choose|j: int| 0 <= j < s.drop_last().len() && s.drop_last()[j] == ',';
                assert(s[j] == ',');
            }
        }
        assert(s.take(k) =~= s.drop_last());
    } else {
        assert(s.drop_last()[k] == ',');
        assert(s.drop_last().contains(','));
        lemma_first_segment(s.drop_last(), k);
        assert(s.drop_last().take(k) =~= s.take(k));
    }
}

/// The key a client is counted under, from the request's headers and connection.
pub fn client_key(forwarded: Option<&str>, real_ip: Option<&str>, peer: Option<String>) -> (r: String)
    ensures
        r@ == client_key_spec(
            match forwarded { Some(f) => Some(f@), None => None },
            match real_ip { Some(x) => Some(x@), None => None },
            match peer { Some(p) => Some(p@), None => None },
        ),
{
    match forwarded {
        Some(f) => {
            let v = crate::text::chars_of(f);
            let k = first_comma(&v);
            let mut seg = String::new();
            crate::text::push_range(&mut seg, &v, 0, k);
            proof {
                lemma_first_segment(v@, k as int);
                assert(v@.subrange(0, k as int) =~= v@.take(k as int));
            }
            trim_text(seg.as_str())
        },
        None => match real_ip {
            Some(x) => String::from_str(x),
            None => match peer {
                Some(p) => p,
                None => String::from_str("unknown"),
            },
        },
    }
}

/// The headers of an answer: the limit, the remaining requests and the reset time for
/// an allowed request; `Retry-After` for a refused one.
pub fn rate_limit_headers(result: RateLimitResult) -> (r: Vec<(String, String)>)
    ensures
        match result {
            RateLimitResult::Allowed { limit, remaining, reset } => r@.len() == 3
                && r@[0].0@ == "X-RateLimit-Limit"@ && r@[0].1@ == decimal(limit as nat)
                && r@[1].0@ == "X-RateLimit-Remaining"@ && r@[1].1@ == decimal(remaining as nat)
                && r@[2].0@ == "X-RateLimit-Reset"@ && r@[2].1@ == decimal(reset as nat),
            RateLimitResult::RateLimited { retry_after, .. } => r@.len() == 1
                && r@[0].0@ == "Retry-After"@ && r@[0].1@ == decimal(retry_after as nat),
        },
{
    let mut v: Vec<(String, String)> = Vec::new();
    match result {
        RateLimitResult::Allowed { limit, remaining, reset } => {
            v.push((String::from_str("X-RateLimit-Limit"), u64_to_string(limit as u64)));
            v.push((String::from_str("X-RateLimit-Remaining"), u64_to_string(remaining as u64)));
            v.push((String::from_str("X-RateLimit-Reset"), u64_to_string(reset)));
        },
        RateLimitResult::RateLimited { retry_after, .. } => {
            v.push((String::from_str("Retry-After"), u64_to_string(retry_after)));
        },
    }
    v
}

} // verus!
