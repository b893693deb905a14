//! Properties that relate several operations: what a read gives back after a write,
//! what one call undoes of another.

use vstd::prelude::*;
use crate::engine::flag_set;
use crate::executors::{failure_text, try_catch_spec};
use crate::node::TryCatchConfig;
use crate::templating::{expr_spec, json_quoted};
use crate::template::{enum_errors, json_kind_of, parameter_errors, range_errors, validation_errors, JsonKind, ParameterType, TemplateParameter};
use crate::linter::{lint_findings, per_node, timeout_rule, FindingView, LintCategory, LinterConfig};
use crate::text::uuid_text;
use crate::node::{NodeKind, ParallelTask};
use crate::validation::{advanced_errors, node_config_errors, structural_errors, task_errors, validation_outcome_ok, ErrorView, ValidationError, ValidationReport};
use crate::workflow::Workflow;
use crate::query_builder::{cond_params, cond_sql, delete_sql, update_sql, where_part, Condition, DeleteBuilder, UpdateBuilder};
use crate::linter::{count_severity, LintFinding, LintSeverity};
use crate::scheduler::{due_ids, finished, ids_unique, may_start, started, ScheduledExecution};
use crate::workflow::WorkflowSchedule;
use crate::execution::NodeExecutionResult;
use crate::graph::{is_peeling, lemma_peeling_order, levels_in_order, IdEdge};
use crate::event_bus::WorkflowTrigger;
use crate::execution::{first_at, lookup, lookup_text, put};
use crate::rest::{failure_step, is_first_key, upsert, CircuitBreaker, CircuitBreakerConfig, CircuitState};
use crate::text::{decimal, digit_char};
use crate::code_executor::var_value;
use crate::rest_response::{cached, first_entry, put_entry, CacheEntry};
use crate::template::scan_placeholders;
use crate::workflow::{
    all_digits, digits_value, is_digit, parse_u32, parse_version_spec, split_on, unsigned_digits, version_text,
};

verus! {

/// Setting a named value and reading it back gives the value; other names read as
/// before.
pub proof fn lemma_upsert_lookup(s: Seq<(Seq<char>, Seq<char>)>, k: Seq<char>, v: Seq<char>, k2: Seq<char>)
    ensures
        lookup_text(upsert(s, k, v), k) == Some(v),
        k2 != k ==> lookup_text(upsert(s, k, v), k2) == lookup_text(s, k2),
{
    let t = upsert(s, k, v);
    if exists|i: int| #[trigger] is_first_key(s, k, i) {
        let i = choose|i: int| #[trigger] is_first_key(s, k, i);
        assert(t == s.update(i, (k, v)));
        assert(is_first_key(t, k, i));
        let c = choose|c: int| #[trigger] is_first_key(t, k, c);
        assert(is_first_key(t, k, c));
        if c < i {
            assert(t[c] == s[c]);
        } else if c > i {
            assert(t[i].0 == k);
        }
        if k2 != k {
            assert forall|j: int| #[trigger] is_first_key(t, k2, j) <==> is_first_key(s, k2, j) by {
                if 0 <= j < s.len() {
                    assert forall|m: int| 0 <= m < j implies (t[m].0 != k2 <==> s[m].0 != k2) by {
                        if m == i {
                            assert(t[m].0 == k);
                            assert(s[m].0 == k);
                        }
                    }
                    if j == i {
                        assert(t[j].0 == k);
                        assert(s[j].0 == k);
                    }
                }
            }
            if exists|j: int| #[trigger] is_first_key(s, k2, j) {
                let a = choose|j: int| #[trigger] is_first_key(s, k2, j);
                assert(is_first_key(t, k2, a));
                let b = choose|j: int| #[trigger] is_first_key(t, k2, j);
                assert(is_first_key(t, k2, b));
                assert(is_first_key(s, k2, b));
                if a < b {
                    assert(s[a].0 != k2);
                } else if b < a {
                    assert(s[b].0 != k2);
                }
                assert(t[b] == s[b]);
            } else {
                assert(!exists|j: int| #[trigger] is_first_key(t, k2, j));
            }

        }
    } else {
        assert(t == s.push((k, v)));
        let n = s.len() as int;
        assert forall|j: int| 0 <= j < n implies s[j].0 != k by {
            if s[j].0 == k {
                let first = choose_first(s, k, j);
                assert(is_first_key(s, k, first));
            }
        }
        assert(is_first_key(t, k, n));
        let c = choose|c: int| #[trigger] is_first_key(t, k, c);
        assert(is_first_key(t, k, c));
        if c < n {
            assert(t[c] == s[c]);
        }
        if k2 != k {
            assert forall|j: int| #[trigger] is_first_key(t, k2, j) <==> is_first_key(s, k2, j) by {
                if 0 <= j < s.len() {
                    assert forall|m: int| 0 <= m < j implies t[m] == s[m] by {}
                }
                if j == n {
                    assert(t[j].0 == k);
                }
            }
            if exists|j: int| #[trigger] is_first_key(s, k2, j) {
                let a = choose|j: int| #[trigger] is_first_key(s, k2, j);
                assert(is_first_key(t, k2, a));
                let b = choose|j: int| #[trigger] is_first_key(t, k2, j);
                assert(is_first_key(t, k2, b));
                assert(is_first_key(s, k2, b));
                if a < b {
                    assert(s[a].0 != k2);
                } else if b < a {
                    assert(s[b].0 != k2);
                }
                assert(t[b] == s[b]);
            } else {
                assert(!exists|j: int| #[trigger] is_first_key(t, k2, j));
            }

        }
    }
}

/// Some first position of `k` exists at or before `j` when `s[j]` has key `k`.
proof fn choose_first(s: Seq<(Seq<char>, Seq<char>)>, k: Seq<char>, j: int) -> (f: int)
    requires
        0 <= j < s.len(),
        s[j].0 == k,
    ensures
        is_first_key(s, k, f),
    decreases j,
{
    if exists|m: int| 0 <= m < j && s[m].0 == k {
        let m = choose|m: int| 0 <= m < j && s[m].0 == k;
        choose_first(s, k, m)
    } else {
        j
    }
}

/// Some first position of `k` exists at or before `j` when `s[j]` has key `k`.
proof fn choose_first_at<V>(s: Seq<(u128, V)>, k: u128, j: int) -> (f: int)
    requires
        0 <= j < s.len(),
        s[j].0 == k,
    ensures
        first_at(s, k, f),
    decreases j,
{
    if exists|m: int| 0 <= m < j && s[m].0 == k {
        let m = choose|m: int| 0 <= m < j && s[m].0 == k;
        choose_first_at(s, k, m)
    } else {
        j
    }
}

/// Recording a result under a key and reading it back gives the result; other keys
/// read as before.
pub proof fn lemma_put_lookup<V>(s: Seq<(u128, V)>, k: u128, v: V, k2: u128)
    ensures
        lookup(put(s, k, v), k) == Some(v),
        k2 != k ==> lookup(put(s, k, v), k2) == lookup(s, k2),
{
    let t = put(s, k, v);
    if exists|i: int| #[trigger] first_at(s, k, i) {
        let i = choose|i: int| #[trigger] first_at(s, k, i);
        assert(t == s.update(i, (k, v)));
        assert(first_at(t, k, i));
        let c = choose|c: int| #[trigger] first_at(t, k, c);
        assert(first_at(t, k, c));
        if c < i {
            assert(t[c] == s[c]);
        } else if c > i {
            assert(t[i].0 == k);
        }
        if k2 != k {
            assert forall|j: int| #[trigger] first_at(t, k2, j) <==> first_at(s, k2, j) by {
                if 0 <= j < s.len() {
                    assert forall|m: int| 0 <= m < j implies (t[m].0 != k2 <==> s[m].0 != k2) by {
                        if m == i {
                            assert(t[m].0 == k);
                            assert(s[m].0 == k);
                        }
                    }
                    if j == i {
                        assert(t[j].0 == k);
                        assert(s[j].0 == k);
                    }
                }
            }
            if exists|j: int| #[trigger] first_at(s, k2, j) {
                let a = choose|j: int| #[trigger] first_at(s, k2, j);
                assert(first_at(t, k2, a));
                let b = choose|j: int| #[trigger] first_at(t, k2, j);
                assert(first_at(t, k2, b));
                assert(first_at(s, k2, b));
                if a < b {
                    assert(s[a].0 != k2);
                } else if b < a {
                    assert(s[b].0 != k2);
                }
                assert(t[b] == s[b]);
            } else {
                assert(!exists|j: int| #[trigger] first_at(t, k2, j));
            }

        }
    } else {
        assert(t == s.push((k, v)));
        let n = s.len() as int;
        assert forall|j: int| 0 <= j < n implies s[j].0 != k by {
            if s[j].0 == k {
                let first = choose_first_at(s, k, j);
                assert(first_at(s, k, first));
            }
        }
        assert(first_at(t, k, n));
        let c = choose|c: int| #[trigger] first_at(t, k, c);
        assert(first_at(t, k, c));
        if c < n {
            assert(t[c] == s[c]);
        }
        if k2 != k {
            assert forall|j: int| #[trigger] first_at(t, k2, j) <==> first_at(s, k2, j) by {
                if 0 <= j < s.len() {
                    assert forall|m: int| 0 <= m < j implies t[m] == s[m] by {}
                }
                if j == n {
                    assert(t[j].0 == k);
                }
            }
            if exists|j: int| #[trigger] first_at(s, k2, j) {
                let a = choose|j: int| #[trigger] first_at(s, k2, j);
                assert(first_at(t, k2, a));
                let b = choose|j: int| #[trigger] first_at(t, k2, j);
                assert(first_at(t, k2, b));
                assert(first_at(s, k2, b));
                if a < b {
                    assert(s[a].0 != k2);
                } else if b < a {
                    assert(s[b].0 != k2);
                }
                assert(t[b] == s[b]);
            } else {
                assert(!exists|j: int| #[trigger] first_at(t, k2, j));
            }

        }
    }
}

/// Resuming an execution after pausing it leaves it not paused, and pausing it again
/// after resuming leaves it paused.
pub proof fn lemma_pause_resume(flags: Map<u128, bool>, id: u128)
    ensures
        !flag_set(flags.insert(id, true).insert(id, false), id),
        flag_set(flags.insert(id, false).insert(id, true), id),
{
}

/// Clearing a cancellation makes the execution no longer cancelled.
pub proof fn lemma_cancel_cleared(flags: Map<u128, bool>, id: u128)
    ensures
        flag_set(flags.insert(id, true), id),
        !flag_set(flags.insert(id, true).remove(id), id),
{
}

proof fn lemma_digit_value(d: nat)
    requires
        d < 10,
    ensures
        ((digit_char(d) as u32) - ('0' as u32)) as nat == d,
        is_digit(digit_char(d)),
        digit_char(d) != '.',
{
}

proof fn lemma_decimal_digits(n: nat)
    ensures
        decimal(n).len() >= 1,
        all_digits(decimal(n)),
        digits_value(decimal(n)) == n,
        !decimal(n).contains('.'),
    decreases n,
{
    let d = decimal(n);
    lemma_digit_value(n % 10);
    if n < 10 {
        lemma_digit_value(n);
        assert(d == seq![digit_char(n)]);
        assert(d.drop_last() =~= Seq::<char>::empty());
        assert(d.last() == digit_char(n));
        assert(digits_value(d) == digits_value(d.drop_last()) * 10 + ((digit_char(n) as u32) - ('0' as u32)) as nat);
        assert(!d.contains('.')) by {
            if d.contains('.') {
                let i = choose|i: int| 0 <= i < d.len() && d[i] == '.';
                assert(i == 0);
            }
        }
    } else {
        lemma_decimal_digits(n / 10);
        let p = decimal(n / 10);
        assert(d == p.push(digit_char(n % 10)));
        assert(d.drop_last() =~= p);
        assert(d.last() == digit_char(n % 10));
        assert((n / 10) * 10 + n % 10 == n) by (nonlinear_arith);
        assert(digits_value(d) == digits_value(p) * 10 + ((digit_char(n % 10) as u32) - ('0' as u32)) as nat);
        assert(all_digits(d)) by {
            assert forall|i: int| 0 <= i < d.len() implies is_digit(#[trigger] d[i]) by {
                if i < p.len() {
                    assert(d[i] == p[i]);
                }
            }
        }
        assert(!d.contains('.')) by {
            if d.contains('.') {
                let i = choose|i: int| 0 <= i < d.len() && d[i] == '.';
                if i < p.len() {
                    assert(d[i] == p[i]);
                    assert(p.contains('.'));
                }
            }
        }
    }
}

proof fn lemma_split_len(s: Seq<char>, c: char)
    ensures
        split_on(s, c).len() >= 1,
    decreases s.len(),
{
    if s.len() > 0 {
        lemma_split_len(s.drop_last(), c);
    }
}

proof fn lemma_split_none(s: Seq<char>, c: char)
    requires
        !s.contains(c),
    ensures
        split_on(s, c) == seq![s],
    decreases s.len(),
{
    if s.len() > 0 {
        assert(!s.drop_last().contains(c)) by {
            if s.drop_last().contains(c) {
                let i = choose|i: int| 0 <= i < s.drop_last().len() && s.drop_last()[i] == c;
                assert(s[i] == c);
            }
        }
        lemma_split_none(s.drop_last(), c);
        assert(s.last() != c) by {
            assert(s[s.len() - 1] == s.last());
        }
        assert(split_on(s, c) =~= seq![s.drop_last().push(s.last())]);
        assert(s.drop_last().push(s.last()) =~= s);
    } else {
        assert(s =~= Seq::<char>::empty());
        assert(split_on(s, c) =~= seq![s]);
    }
}

proof fn lemma_split_concat(x: Seq<char>, y: Seq<char>, c: char)
    ensures
        split_on(x + seq![c] + y, c) == split_on(x, c) + split_on(y, c),
    decreases y.len(),
{
    let s = x + seq![c] + y;
    if y.len() == 0 {
        assert(s.drop_last() =~= x);
        assert(s.last() == c);
        assert(split_on(y, c) =~= seq![Seq::<char>::empty()]);
    } else {
        lemma_split_concat(x, y.drop_last(), c);
        assert(s.drop_last() =~= x + seq![c] + y.drop_last());
        assert(s.last() == y.last());
        lemma_split_len(y.drop_last(), c);
        lemma_split_len(x, c);
        let a = split_on(x, c);
        let b = split_on(y.drop_last(), c);
        if y.last() == c {
            assert((a + b).push(Seq::<char>::empty()) =~= a + b.push(Seq::<char>::empty()));
        } else {
            let pre = a + b;
            assert(pre.last() == b.last());
            assert(pre.update(pre.len() - 1, pre.last().push(y.last())) =~= a + b.update(
                b.len() - 1,
                b.last().push(y.last()),
            ));
        }
    }
}

proof fn lemma_parse_decimal(n: u32)
    ensures
        parse_u32(decimal(n as nat)) == Some(n),
{
    lemma_decimal_digits(n as nat);
    let d = decimal(n as nat);
    assert(is_digit(d[0]));
    assert(unsigned_digits(d) == d);
}

/// A version written as `major.minor.patch` parses back to the same numbers.
pub proof fn lemma_version_roundtrip(major: u32, minor: u32, patch: u32)
    ensures
        parse_version_spec(version_text(major as nat, minor as nat, patch as nat)) == Ok::<(u32, u32, u32), Seq<char>>(
            (major, minor, patch),
        ),
{
    let a = decimal(major as nat);
    let b = decimal(minor as nat);
    let c = decimal(patch as nat);
    lemma_decimal_digits(major as nat);
    lemma_decimal_digits(minor as nat);
    lemma_decimal_digits(patch as nat);
    let v = version_text(major as nat, minor as nat, patch as nat);
    assert(v == (a + seq!['.'] + b) + seq!['.'] + c);
    lemma_split_concat(a + seq!['.'] + b, c, '.');
    lemma_split_concat(a, b, '.');
    lemma_split_none(a, '.');
    lemma_split_none(b, '.');
    lemma_split_none(c, '.');
    let parts = split_on(v, '.');
    assert(parts =~= seq![a, b, c]);
    lemma_parse_decimal(major);
    lemma_parse_decimal(minor);
    lemma_parse_decimal(patch);
}

/// The breaker after `n` failures noted at the same instant.
pub open spec fn failures_at(cb: CircuitBreaker, now: i64, n: nat) -> CircuitBreaker
    decreases n,
{
    if n == 0 {
        cb
    } else {
        failure_step(failures_at(cb, now, (n - 1) as nat), now)
    }
}

proof fn lemma_failures_count(config: CircuitBreakerConfig, t0: i64, now: i64, n: nat)
    requires
        n < config.failure_threshold,
    ensures
        failures_at(CircuitBreaker::new_spec(config, t0), now, n).current_state == CircuitState::Closed,
        failures_at(CircuitBreaker::new_spec(config, t0), now, n).failure_count == n,
        n > 0 ==> failures_at(CircuitBreaker::new_spec(config, t0), now, n).last_failure_time == Some(now),
        n == 0 ==> failures_at(CircuitBreaker::new_spec(config, t0), now, n).last_failure_time is None,
    decreases n,
{
    if n > 0 {
        lemma_failures_count(config, t0, now, (n - 1) as nat);
        let prev = failures_at(CircuitBreaker::new_spec(config, t0), now, (n - 1) as nat);
        assert(crate::rest::elapsed_ms(now, now) == 0);
        assert(crate::rest::elapsed_secs(now, now) == 0);
        assert(prev.config == config) by {
            lemma_config_kept(CircuitBreaker::new_spec(config, t0), now, (n - 1) as nat);
        }
        let count: int = n as int;
        assert(failure_step(prev, now).failure_count == count as u32);
        assert((count as u32) as int == count);
    }
}

proof fn lemma_config_kept(cb: CircuitBreaker, now: i64, n: nat)
    ensures
        failures_at(cb, now, n).config == cb.config,
    decreases n,
{
    if n > 0 {
        lemma_config_kept(cb, now, (n - 1) as nat);
    }
}

proof fn lemma_open_stays_open(cb: CircuitBreaker, now: i64, n: nat)
    requires
        cb.current_state == CircuitState::Open,
    ensures
        failures_at(cb, now, n).current_state == CircuitState::Open,
    decreases n,
{
    if n > 0 {
        lemma_open_stays_open(cb, now, (n - 1) as nat);
    }
}

proof fn lemma_failures_shift(cb: CircuitBreaker, now: i64, a: nat, b: nat)
    ensures
        failures_at(failures_at(cb, now, a), now, b) == failures_at(cb, now, a + b),
    decreases b,
{
    if b > 0 {
        lemma_failures_shift(cb, now, a, (b - 1) as nat);
    }
}

/// A closed breaker opens once as many failures as its threshold arrive together, and
/// further failures keep it open.
pub proof fn lemma_breaker_opens(config: CircuitBreakerConfig, t0: i64, now: i64, n: nat)
    requires
        config.failure_threshold >= 1,
        n >= config.failure_threshold,
    ensures
        failures_at(CircuitBreaker::new_spec(config, t0), now, n).current_state == CircuitState::Open,
{
    let th = config.failure_threshold as nat;
    let start = CircuitBreaker::new_spec(config, t0);
    lemma_failures_count(config, t0, now, (th - 1) as nat);
    let before = failures_at(start, now, (th - 1) as nat);
    assert(failures_at(start, now, th) == failure_step(before, now));
    lemma_config_kept(start, now, (th - 1) as nat);
    assert(crate::rest::elapsed_secs(now, now) == 0);
    assert(failure_step(before, now).current_state == CircuitState::Open);
    lemma_open_stays_open(failures_at(start, now, th), now, (n - th) as nat);
    lemma_failures_shift(start, now, th, (n - th) as nat);
}

/// A variable set in a store reads back as the value set; other names read as before.
pub proof fn lemma_store_insert_get(s: Seq<(Seq<char>, Seq<char>)>, k: Seq<char>, v: Seq<char>, k2: Seq<char>)
    ensures
        var_value(upsert(s, k, v), k) == Some(v),
        k2 != k ==> var_value(upsert(s, k, v), k2) == var_value(s, k2),
{
    lemma_upsert_lookup(s, k, v, k2);
    assert(var_value(upsert(s, k, v), k) == lookup_text(upsert(s, k, v), k));
    assert(var_value(upsert(s, k, v), k2) == lookup_text(upsert(s, k, v), k2));
    assert(var_value(s, k2) == lookup_text(s, k2));
}

/// A reply cached under a key is given back for that key until it expires, and
/// nothing after; other keys read as before.
pub proof fn lemma_cache_insert_get(s: Seq<CacheEntry>, e: CacheEntry, k2: Seq<char>, now: i64)
    ensures
        cached(put_entry(s, e), e.key@, now) == (if e.expires_at > now {
            Some(e.response@)
        } else {
            None::<Seq<char>>
        }),
        k2 != e.key@ ==> cached(put_entry(s, e), k2, now) == cached(s, k2, now),
{
    let k = e.key@;
    let t = put_entry(s, e);
    if exists|i: int| #[trigger] first_entry(s, k, i) {
        let i = choose|i: int| #[trigger] first_entry(s, k, i);
        assert(t == s.update(i, e));
        assert(first_entry(t, k, i));
        let c = choose|c: int| #[trigger] first_entry(t, k, c);
        assert(first_entry(t, k, c));
        if c < i {
            assert(t[c] == s[c]);
        } else if c > i {
            assert(t[i].key@ == k);
        }
        if k2 != k {
            assert forall|j: int| #[trigger] first_entry(t, k2, j) <==> first_entry(s, k2, j) by {
                if 0 <= j < s.len() {
                    assert forall|m: int| 0 <= m < j implies (t[m].key@ != k2 <==> s[m].key@ != k2) by {
                        if m == i {
                            assert(t[m].key@ == k);
                        }
                    }
                    if j == i {
                        assert(t[j].key@ == k);
                    }
                }
            }
            if exists|j: int| #[trigger] first_entry(s, k2, j) {
                let a = choose|j: int| #[trigger] first_entry(s, k2, j);
                assert(first_entry(t, k2, a));
                let b = choose|j: int| #[trigger] first_entry(t, k2, j);
                assert(first_entry(s, k2, b));
                if a < b {
                    assert(s[a].key@ != k2);
                } else if b < a {
                    assert(s[b].key@ != k2);
                }
                assert(t[b] == s[b]);
            }
        }
    } else {
        assert(t == s.push(e));
        assert forall|j: int| 0 <= j < s.len() implies t[j].key@ != k by {
            if s[j].key@ == k {
                lemma_some_first_entry(s, k, j);
            }
        }
        assert(first_entry(t, k, s.len() as int));
        let c = choose|c: int| #[trigger] first_entry(t, k, c);
        assert(first_entry(t, k, c));
        if c < s.len() {
            assert(first_entry(s, k, c));
        }
        if k2 != k {
            assert forall|j: int| #[trigger] first_entry(t, k2, j) <==> first_entry(s, k2, j) by {
                if 0 <= j < s.len() {
                    assert forall|m: int| 0 <= m < j implies t[m] == s[m] by {}
                }
                if j == s.len() {
                    assert(t[j].key@ == k);
                }
            }
            if exists|j: int| #[trigger] first_entry(s, k2, j) {
                let a = choose|j: int| #[trigger] first_entry(s, k2, j);
                assert(first_entry(t, k2, a));
                let b = choose|j: int| #[trigger] first_entry(t, k2, j);
                assert(first_entry(s, k2, b));
                if a < b {
                    assert(s[a].key@ != k2);
                } else if b < a {
                    assert(s[b].key@ != k2);
                }
                assert(t[b] == s[b]);
            }
        }
    }
}

proof fn lemma_some_first_entry(s: Seq<CacheEntry>, k: Seq<char>, j: int)
    requires
        0 <= j < s.len(),
        s[j].key@ == k,
    ensures
        exists|i: int| #[trigger] first_entry(s, k, i),
    decreases j,
{
    if exists|m: int| 0 <= m < j && s[m].key@ == k {
        let m = choose|m: int| 0 <= m < j && s[m].key@ == k;
        lemma_some_first_entry(s, k, m);
    } else {
        assert(first_entry(s, k, j));
    }
}

/// The placeholder names found in a template text come once each.
pub proof fn lemma_placeholders_distinct(c: Seq<char>)
    ensures
        scan_placeholders(c, 0, Seq::empty()).no_duplicates(),
{
    lemma_scan_keeps_distinct(c, 0, Seq::empty());
}

proof fn lemma_scan_keeps_distinct(c: Seq<char>, i: int, acc: Seq<Seq<char>>)
    requires
        acc.no_duplicates(),
    ensures
        scan_placeholders(c, i, acc).no_duplicates(),
    decreases c.len() - i,
{
    if i < 0 || i >= c.len() - 3 {
    } else if c[i] == '{' && c[i + 1] == '{' {
        crate::template::lemma_first_close_bounds(c, i + 2);
        match crate::template::first_close(c, i + 2) {
            Some(e) => {
                let name = crate::text::trim_seq(c.subrange(i + 2, e));
                if name.len() > 0 && !acc.contains(name) {
                    let next = acc.push(name);
                    assert forall|a: int, b: int| 0 <= a < b < next.len() implies next[a] != next[b] by {
                        if b == acc.len() {
                            assert(next[a] == acc[a]);
                            assert(acc.contains(acc[a]));
                        }
                    }
                    lemma_scan_keeps_distinct(c, e + 2, next);
                } else {
                    lemma_scan_keeps_distinct(c, e + 2, acc);
                }
            },
            None => {},
        }
    } else {
        lemma_scan_keeps_distinct(c, i + 1, acc);
    }
}

/// A trigger that was just registered is there, and unregistering it then succeeds
/// and leaves the other triggers as they were before it was registered.
pub proof fn lemma_trigger_register_unregister(triggers: Map<u128, WorkflowTrigger>, t: WorkflowTrigger)
    ensures
        triggers.insert(t.id, t).dom().contains(t.id),
        triggers.insert(t.id, t)[t.id] == t,
        triggers.insert(t.id, t).remove(t.id) == triggers.remove(t.id),
        !triggers.insert(t.id, t).remove(t.id).dom().contains(t.id),
{
    assert(triggers.insert(t.id, t).remove(t.id) =~= triggers.remove(t.id));
}

/// The results of a run that records `outcome(id)` for each node of `ids`, in order,
/// starting from no result (each step as `record_node_outcome` records it).
pub open spec fn recorded(ids: Seq<u128>, outcome: spec_fn(u128) -> NodeExecutionResult) -> Seq<(u128, NodeExecutionResult)>
    decreases ids.len(),
{
    if ids.len() == 0 {
        Seq::empty()
    } else {
        put(recorded(ids.drop_last(), outcome), ids.last(), outcome(ids.last()))
    }
}

proof fn lemma_recorded_distinct(ids: Seq<u128>, outcome: spec_fn(u128) -> NodeExecutionResult)
    requires
        ids.no_duplicates(),
    ensures
        recorded(ids, outcome) == ids.map_values(|k: u128| (k, outcome(k))),
    decreases ids.len(),
{
    if ids.len() > 0 {
        let d = ids.drop_last();
        assert(d.no_duplicates());
        lemma_recorded_distinct(d, outcome);
        let prev = recorded(d, outcome);
        let k = ids.last();
        assert(ids[ids.len() - 1] == k);
        if exists|i: int| #[trigger] first_at(prev, k, i) {
            let i = choose|i: int| #[trigger] first_at(prev, k, i);
            assert(prev[i].0 == d[i]);
            assert(d[i] == ids[i]);
        }
        assert(recorded(ids, outcome) =~= ids.map_values(|k: u128| (k, outcome(k))));
    }
}

/// A run that records an outcome for every node, level after level, holds exactly one
/// result per node of the workflow: the results name the nodes level after level, no
/// node twice and every node once, each with its own outcome.
pub proof fn lemma_run_records_each_node_once(
    ids: Seq<u128>,
    edges: Seq<IdEdge>,
    levels: Seq<Seq<u128>>,
    outcome: spec_fn(u128) -> NodeExecutionResult,
)
    requires
        is_peeling(ids, edges, levels),
        ids.no_duplicates(),
    ensures
        ({
            let rs = recorded(levels_in_order(levels), outcome);
            &&& rs.map_values(|e: (u128, NodeExecutionResult)| e.0) == levels_in_order(levels)
            &&& rs.map_values(|e: (u128, NodeExecutionResult)| e.0).no_duplicates()
            &&& forall|x: u128| rs.map_values(|e: (u128, NodeExecutionResult)| e.0).contains(x) <==> ids.contains(x)
            &&& forall|i: int| 0 <= i < rs.len() ==> (#[trigger] rs[i]).1 == outcome(rs[i].0)
        }),
{
    lemma_peeling_order(ids, edges, levels);
    let order = levels_in_order(levels);
    lemma_recorded_distinct(order, outcome);
    let rs = recorded(order, outcome);
    assert(rs.map_values(|e: (u128, NodeExecutionResult)| e.0) =~= order);
}


proof fn lemma_severity_counts(fs: Seq<LintFinding>)
    ensures
        count_severity(fs, LintSeverity::Error) + count_severity(fs, LintSeverity::Warning) + count_severity(
            fs,
            LintSeverity::Info,
        ) == fs.len(),
    decreases fs.len(),
{
    if fs.len() > 0 {
        lemma_severity_counts(fs.drop_last());
    }
}

/// The counts of a lint result by severity add up to its total: every finding is an
/// error, a warning or an information, and only one of them.
pub proof fn lemma_lint_counts_add_up(findings: Seq<LintFinding>)
    ensures
        count_severity(findings, LintSeverity::Error) + count_severity(findings, LintSeverity::Warning)
            + count_severity(findings, LintSeverity::Info) == findings.len(),
{
    lemma_severity_counts(findings);
}

proof fn lemma_due_ids_members(rs: Seq<ScheduledExecution>, now: i64, x: u128)
    requires
        due_ids(rs, now).contains(x),
    ensures
        exists|k: int| 0 <= k < rs.len() && #[trigger] rs[k].schedule_id == x && rs[k].next_run <= now,
    decreases rs.len(),
{
    let pre = due_ids(rs.drop_last(), now);
    if pre.contains(x) {
        lemma_due_ids_members(rs.drop_last(), now, x);
        let k = choose|k: int| 0 <= k < rs.drop_last().len() && #[trigger] rs.drop_last()[k].schedule_id == x
            && rs.drop_last()[k].next_run <= now;
        assert(rs[k] == rs.drop_last()[k]);
    } else {
        assert(rs[rs.len() - 1] == rs.last());
    }
}

/// A scheduled run, from its start to its end: a disabled schedule never starts; a
/// start stays within the concurrency limit, sets the last run to `now` and moves the
/// next run past `now`, so that the schedule is no longer due at `now` and starts at
/// most once per due time; the end of the run gives back the active run and counts one
/// success or one failure.
pub proof fn lemma_schedule_run(
    records: Seq<ScheduledExecution>,
    i: int,
    config: WorkflowSchedule,
    now: i64,
    next: Option<i64>,
    succeeded: bool,
)
    requires
        ids_unique(records),
        0 <= i < records.len(),
        records[i].active_runs < u32::MAX,
        records[i].successful_runs < u64::MAX,
        records[i].failed_runs < u64::MAX,
        now + 3_600_000 <= i64::MAX,
        next matches Some(t) ==> t > now,
    ensures
        !config.enabled ==> !may_start(config, records[i]),
        ({
            let s = started(records[i], now, next);
            let f = finished(s, succeeded);
            &&& may_start(config, records[i]) ==> (config.max_concurrent_runs matches Some(m) ==> s.active_runs <= m)
            &&& s.last_run == Some(now)
            &&& s.next_run > now
            &&& !due_ids(records.update(i, s), now).contains(records[i].schedule_id)
            &&& f.active_runs == records[i].active_runs
            &&& f.successful_runs + f.failed_runs == records[i].successful_runs + records[i].failed_runs + 1
        }),
{
    let s = started(records[i], now, next);
    let rs = records.update(i, s);
    let id = records[i].schedule_id;
    if due_ids(rs, now).contains(id) {
        lemma_due_ids_members(rs, now, id);
        let k = choose|k: int| 0 <= k < rs.len() && #[trigger] rs[k].schedule_id == id && rs[k].next_run <= now;
        if k != i {
            assert(records[k].schedule_id != records[i].schedule_id);
        }
    }
}


/// The SQL operator of each comparison condition, placed between the column and its
/// numbered parameter `$n`: `=`, `!=`, `>`, `>=`, `<` and `<=`, the pattern matches
/// `LIKE` and `ILIKE`, and `BETWEEN $n AND $n+1`. The strict and the non-strict
/// comparisons give different SQL.
pub proof fn lemma_condition_operators(col: String, n: nat)
    ensures
        cond_sql(Condition::Eq(col), n) == col@ + " = $"@ + decimal(n),
        cond_sql(Condition::NotEq(col), n) == col@ + " != $"@ + decimal(n),
        cond_sql(Condition::Gt(col), n) == col@ + " > $"@ + decimal(n),
        cond_sql(Condition::Gte(col), n) == col@ + " >= $"@ + decimal(n),
        cond_sql(Condition::Lt(col), n) == col@ + " < $"@ + decimal(n),
        cond_sql(Condition::Lte(col), n) == col@ + " <= $"@ + decimal(n),
        cond_sql(Condition::Like(col), n) == col@ + " LIKE $"@ + decimal(n),
        cond_sql(Condition::ILike(col), n) == col@ + " ILIKE $"@ + decimal(n),
        cond_sql(Condition::Between(col), n) == col@ + " BETWEEN $"@ + decimal(n) + " AND $"@ + decimal(n + 1),
        cond_sql(Condition::IsNull(col), n) == col@ + " IS NULL"@,
        cond_sql(Condition::IsNotNull(col), n) == col@ + " IS NOT NULL"@,
        cond_sql(Condition::Lte(col), n) != cond_sql(Condition::Lt(col), n),
        cond_sql(Condition::Gte(col), n) != cond_sql(Condition::Gt(col), n),
        cond_sql(Condition::Lte(col), n) != cond_sql(Condition::Gte(col), n),
        cond_sql(Condition::Lt(col), n) != cond_sql(Condition::Gt(col), n),
{
    let d = decimal(n);
    reveal_strlit("$");
    reveal_strlit(" = ");
    reveal_strlit(" = $");
    reveal_strlit(" != ");
    reveal_strlit(" != $");
    reveal_strlit(" > ");
    reveal_strlit(" > $");
    reveal_strlit(" >= ");
    reveal_strlit(" >= $");
    reveal_strlit(" < ");
    reveal_strlit(" < $");
    reveal_strlit(" <= ");
    reveal_strlit(" <= $");
    reveal_strlit(" LIKE ");
    reveal_strlit(" LIKE $");
    reveal_strlit(" ILIKE ");
    reveal_strlit(" ILIKE $");
    reveal_strlit(" BETWEEN ");
    reveal_strlit(" BETWEEN $");
    assert(cond_sql(Condition::Eq(col), n) =~= col@ + " = $"@ + d);
    assert(cond_sql(Condition::NotEq(col), n) =~= col@ + " != $"@ + d);
    assert(cond_sql(Condition::Gt(col), n) =~= col@ + " > $"@ + d);
    assert(cond_sql(Condition::Gte(col), n) =~= col@ + " >= $"@ + d);
    assert(cond_sql(Condition::Lt(col), n) =~= col@ + " < $"@ + d);
    assert(cond_sql(Condition::Lte(col), n) =~= col@ + " <= $"@ + d);
    assert(cond_sql(Condition::Like(col), n) =~= col@ + " LIKE $"@ + d);
    assert(cond_sql(Condition::ILike(col), n) =~= col@ + " ILIKE $"@ + d);
    assert(cond_sql(Condition::Between(col), n) =~= col@ + " BETWEEN $"@ + d + " AND $"@ + decimal(n + 1));
    let k = col@.len() as int;
    assert(cond_sql(Condition::Lte(col), n)[k + 2] == '=');
    assert(cond_sql(Condition::Lt(col), n)[k + 2] == ' ');
    assert(cond_sql(Condition::Gte(col), n)[k + 2] == '=');
    assert(cond_sql(Condition::Gt(col), n)[k + 2] == ' ');
    assert(cond_sql(Condition::Lte(col), n)[k + 1] == '<');
    assert(cond_sql(Condition::Gte(col), n)[k + 1] == '>');
    assert(cond_sql(Condition::Lt(col), n)[k + 1] == '<');
    assert(cond_sql(Condition::Gt(col), n)[k + 1] == '>');
}


proof fn lemma_contains_left<T>(a: Seq<T>, b: Seq<T>, x: T)
    requires
        a.contains(x),
    ensures
        (a + b).contains(x),
{
    let k = choose|k: int| 0 <= k < a.len() && a[k] == x;
    assert((a + b)[k] == x);
}

proof fn lemma_contains_right<T>(a: Seq<T>, b: Seq<T>, x: T)
    requires
        b.contains(x),
    ensures
        (a + b).contains(x),
{
    let k = choose|k: int| 0 <= k < b.len() && b[k] == x;
    assert((a + b)[a.len() + k] == x);
}

proof fn lemma_duplicate_task_reported(id: u128, tasks: Seq<ParallelTask>, a: int, b: int)
    requires
        0 <= a < b < tasks.len(),
        tasks[a].id@ == tasks[b].id@,
    ensures
        task_errors(id, tasks).contains(ErrorView::ParallelDuplicateTaskId(id, tasks[b].id@)),
    decreases tasks.len(),
{
    let pre = tasks.drop_last();
    let t = tasks.last();
    let e = ErrorView::ParallelDuplicateTaskId(id, tasks[b].id@);
    let blank_part: Seq<ErrorView> = if crate::text::is_blank(t.expression@) {
        seq![ErrorView::ParallelTaskEmptyExpression(id, t.id@)]
    } else {
        Seq::empty()
    };
    if b == tasks.len() - 1 {
        assert(pre[a] == tasks[a]);
        assert(crate::validation::task_id_seen(pre, t.id@));
        let dup_part = seq![e];
        assert(dup_part.contains(e)) by {
            assert(dup_part[0] == e);
        }
        lemma_contains_right(task_errors(id, pre) + blank_part, dup_part, e);
    } else {
        assert(pre[a] == tasks[a] && pre[b] == tasks[b]);
        lemma_duplicate_task_reported(id, pre, a, b);
        lemma_contains_left(task_errors(id, pre), blank_part, e);
        lemma_contains_left(
            task_errors(id, pre) + blank_part,
            if crate::validation::task_id_seen(pre, t.id@) {
                seq![ErrorView::ParallelDuplicateTaskId(id, t.id@)]
            } else {
                Seq::empty()
            },
            e,
        );
    }
}

proof fn lemma_node_error_reported(nodes: Seq<crate::node::Node>, k: int, e: ErrorView)
    requires
        0 <= k < nodes.len(),
        node_config_errors(nodes[k]).contains(e),
    ensures
        advanced_errors(nodes).contains(e),
    decreases nodes.len(),
{
    let pre = nodes.drop_last();
    if k == nodes.len() - 1 {
        lemma_contains_right(advanced_errors(pre), node_config_errors(nodes.last()), e);
    } else {
        assert(pre[k] == nodes[k]);
        lemma_node_error_reported(pre, k, e);
        lemma_contains_left(advanced_errors(pre), node_config_errors(nodes.last()), e);
    }
}

/// A parallel node whose tasks repeat an identifier makes validation fail: the
/// structural errors of the workflow report the repeated identifier for that node, and
/// validation gives an error, never a valid report. So in a workflow that validates,
/// the tasks of every parallel node have distinct identifiers.
pub proof fn lemma_duplicate_task_ids_fail_validation(
    w: Workflow,
    k: int,
    a: int,
    b: int,
    r: Result<ValidationReport, ValidationError>,
)
    requires
        0 <= k < w.nodes@.len(),
        w.nodes@[k].kind is Parallel,
        0 <= a < b < w.nodes@[k].kind->Parallel_0.tasks@.len(),
        w.nodes@[k].kind->Parallel_0.tasks@[a].id@ == w.nodes@[k].kind->Parallel_0.tasks@[b].id@,
        validation_outcome_ok(w, r),
    ensures
        structural_errors(w).contains(
            ErrorView::ParallelDuplicateTaskId(w.nodes@[k].id, w.nodes@[k].kind->Parallel_0.tasks@[b].id@),
        ),
        r is Err,
{
    let n = w.nodes@[k];
    let c = n.kind->Parallel_0;
    let e = ErrorView::ParallelDuplicateTaskId(n.id, c.tasks@[b].id@);
    lemma_duplicate_task_reported(n.id, c.tasks@, a, b);
    let head: Seq<ErrorView> = if c.tasks@.len() == 0 {
        seq![ErrorView::ParallelNodeNoTasks(n.id)]
    } else {
        Seq::empty()
    };
    lemma_contains_right(head, task_errors(n.id, c.tasks@), e);
    assert(node_config_errors(n) == head + task_errors(n.id, c.tasks@));
    lemma_node_error_reported(w.nodes@, k, e);
    let ids = crate::workflow::ids_of(w.nodes@);
    let before = crate::validation::start_end_errors(w.nodes@) + crate::validation::edge_ref_errors(
        ids,
        crate::workflow::pairs_of(w.edges@),
    ) + crate::validation::conditional_errors(ids, w.nodes@);
    lemma_contains_right(before, advanced_errors(w.nodes@), e);
    let tail: Seq<ErrorView> = if crate::validation::edges_valid(w) {
        crate::validation::cycle_errors(w)
    } else {
        Seq::empty()
    };
    lemma_contains_left(before + advanced_errors(w.nodes@), tail, e);
    assert(structural_errors(w) == before + advanced_errors(w.nodes@) + tail);
}


/// A `missing-timeout` finding about a node.
pub open spec fn is_timeout_finding(f: FindingView, n: crate::node::Node) -> bool {
    &&& f.rule_id == "missing-timeout"@
    &&& f.severity == LintSeverity::Info
    &&& f.category == LintCategory::Reliability
    &&& f.node_id == Some(uuid_text(n.id))
}

/// A finding is a `missing-timeout` finding about a service node without a timeout.
pub open spec fn about_untimed_service(nodes: Seq<crate::node::Node>, f: FindingView) -> bool {
    exists|i: int|
        0 <= i < nodes.len() && nodes[i].kind is Service && nodes[i].timeout_config is None
            && #[trigger] is_timeout_finding(f, nodes[i])
}

proof fn lemma_timeout_findings(nodes: Seq<crate::node::Node>)
    ensures
        forall|i: int|
            0 <= i < nodes.len() && nodes[i].kind is Service && nodes[i].timeout_config is None ==> exists|j: int|
                0 <= j < per_node(nodes, timeout_rule()).len() && is_timeout_finding(
                    #[trigger] per_node(nodes, timeout_rule())[j],
                    nodes[i],
                ),
    decreases nodes.len(),
{
    if nodes.len() > 0 {
        let pre = nodes.drop_last();
        let n = nodes.last();
        lemma_timeout_findings(pre);
        let fp = per_node(pre, timeout_rule());
        let all = per_node(nodes, timeout_rule());
        let last = (timeout_rule())(n);
        assert(all == fp + last);
        reveal_strlit("missing-timeout");
        assert forall|i: int|
            0 <= i < nodes.len() && nodes[i].kind is Service && nodes[i].timeout_config is None implies exists|j: int|
                0 <= j < all.len() && is_timeout_finding(#[trigger] all[j], nodes[i]) by {
            if i == nodes.len() - 1 {
                assert(last.len() == 1);
                assert(all[fp.len() as int] == last[0]);
                assert(is_timeout_finding(all[fp.len() as int], nodes[i]));
            } else {
                assert(pre[i] == nodes[i]);
                let j = choose|j: int| 0 <= j < fp.len() && is_timeout_finding(#[trigger] fp[j], pre[i]);
                assert(all[j] == fp[j]);
            }
        }
    }
}

/// Linting reports a `missing-timeout` finding (information, reliability) for every
/// service node that has no timeout configuration; and every `missing-timeout` finding
/// of that rule is about such a node, never about one that has a timeout or is not a
/// service.
pub proof fn lemma_missing_timeouts(c: LinterConfig, w: Workflow)
    ensures
        forall|i: int|
            0 <= i < w.nodes@.len() && w.nodes@[i].kind is Service && w.nodes@[i].timeout_config is None
                ==> exists|j: int|
                0 <= j < lint_findings(c, w).len() && is_timeout_finding(#[trigger] lint_findings(c, w)[j], w.nodes@[i]),
        forall|j: int|
            0 <= j < per_node(w.nodes@, timeout_rule()).len() ==> about_untimed_service(
                w.nodes@,
                #[trigger] per_node(w.nodes@, timeout_rule())[j],
            ),
{
    let ns = w.nodes@;
    lemma_timeout_findings(ns);
    let a = per_node(ns, crate::linter::unused_rule(w)) + per_node(ns, crate::linter::retries_rule(c));
    let t = per_node(ns, timeout_rule());
    let all = lint_findings(c, w);
    let rest = all.subrange((a.len() + t.len()) as int, all.len() as int);
    assert(all =~= a + t + rest);
    assert forall|i: int|
        0 <= i < ns.len() && ns[i].kind is Service && ns[i].timeout_config is None implies exists|j: int|
            0 <= j < all.len() && is_timeout_finding(#[trigger] all[j], ns[i]) by {
        let j = choose|j: int| 0 <= j < t.len() && is_timeout_finding(#[trigger] t[j], ns[i]);
        assert(all[a.len() + j] == t[j]);
    }
    assert forall|j: int| 0 <= j < t.len() implies about_untimed_service(ns, #[trigger] t[j]) by {
        let i = lemma_timeout_finding_source(ns, j);
        assert(is_timeout_finding(t[j], ns[i]));
    }
}

proof fn lemma_timeout_finding_source(nodes: Seq<crate::node::Node>, j: int) -> (i: int)
    requires
        0 <= j < per_node(nodes, timeout_rule()).len(),
    ensures
        0 <= i < nodes.len(),
        nodes[i].kind is Service,
        nodes[i].timeout_config is None,
        is_timeout_finding(per_node(nodes, timeout_rule())[j], nodes[i]),
    decreases nodes.len(),
{
    let pre = nodes.drop_last();
    let n = nodes.last();
    let fp = per_node(pre, timeout_rule());
    let last = (timeout_rule())(n);
    assert(per_node(nodes, timeout_rule()) == fp + last);
    reveal_strlit("missing-timeout");
    if j < fp.len() {
        let i = lemma_timeout_finding_source(pre, j);
        assert(pre[i] == nodes[i]);
        i
    } else {
        assert(last.len() > 0);
        nodes.len() - 1
    }
}


proof fn lemma_parameter_message_reported(
    ps: Seq<TemplateParameter>,
    values: Seq<(Seq<char>, Seq<char>)>,
    i: int,
    m: Seq<char>,
)
    requires
        0 <= i < ps.len(),
        parameter_errors(ps[i], values).contains(m),
    ensures
        validation_errors(ps, values).contains(m),
    decreases ps.len(),
{
    let pre = ps.drop_last();
    if i == ps.len() - 1 {
        lemma_contains_right(validation_errors(pre, values), parameter_errors(ps.last(), values), m);
    } else {
        assert(pre[i] == ps[i]);
        lemma_parameter_message_reported(pre, values, i, m);
        lemma_contains_left(validation_errors(pre, values), parameter_errors(ps.last(), values), m);
    }
}

/// Whether a parameter type takes a value of the given JSON kind: a boolean only for
/// `Boolean`, an integer for `Integer`, any number for `Float`, a string for the text
/// types, an object for `Object`, an array for `Array`, and anything for `Enum`.
pub open spec fn kind_fits(t: ParameterType, k: Option<JsonKind>) -> bool {
    match t {
        ParameterType::Boolean => k == Some(JsonKind::Bool),
        ParameterType::Integer => k == Some(JsonKind::Integer),
        ParameterType::Float => k == Some(JsonKind::Integer) || k == Some(JsonKind::Float),
        ParameterType::String => k == Some(JsonKind::Str),
        ParameterType::Secret => k == Some(JsonKind::Str),
        ParameterType::Model => k == Some(JsonKind::Str),
        ParameterType::Collection => k == Some(JsonKind::Str),
        ParameterType::Object => k == Some(JsonKind::Object),
        ParameterType::Array => k == Some(JsonKind::Array),
        ParameterType::Enum => true,
    }
}

/// The name a type message gives a parameter type.
pub open spec fn expected_label(t: ParameterType) -> Seq<char> {
    match t {
        ParameterType::String => "String"@,
        ParameterType::Integer => "Integer"@,
        ParameterType::Float => "Float"@,
        ParameterType::Boolean => "Boolean"@,
        ParameterType::Object => "Object"@,
        ParameterType::Array => "Array"@,
        ParameterType::Enum => "Enum"@,
        ParameterType::Secret => "Secret"@,
        ParameterType::Model => "Model"@,
        ParameterType::Collection => "Collection"@,
    }
}

/// A given value of a parameter is checked against the parameter's type: when its JSON
/// kind does not fit (a Boolean parameter given anything but `true` or `false`, an
/// Integer one given a non-integer, ...), validation reports `Parameter '<name>' has
/// invalid type, expected <Type>`, first among that parameter's messages; when it fits,
/// no type message is added and only the range and enumeration rules remain.
pub proof fn lemma_parameter_type_check(
    ps: Seq<TemplateParameter>,
    values: Seq<(Seq<char>, Seq<char>)>,
    i: int,
    v: Seq<char>,
)
    requires
        0 <= i < ps.len(),
        crate::code_executor::var_value(values, ps[i].name@) == Some(v),
    ensures
        !kind_fits(ps[i].param_type, json_kind_of(v)) ==> validation_errors(ps, values).contains(
            "Parameter '"@ + ps[i].name@ + "' has invalid type, expected "@ + expected_label(ps[i].param_type),
        ),
        !kind_fits(ps[i].param_type, json_kind_of(v)) ==> parameter_errors(ps[i], values)[0] == "Parameter '"@
            + ps[i].name@ + "' has invalid type, expected "@ + expected_label(ps[i].param_type),
        kind_fits(ps[i].param_type, json_kind_of(v)) ==> parameter_errors(ps[i], values) == range_errors(ps[i], v)
            + enum_errors(ps[i], v),
{
    let p = ps[i];
    let m = "Parameter '"@ + p.name@ + "' has invalid type, expected "@ + expected_label(p.param_type);
    let te = crate::template::type_errors(p, v);
    assert(parameter_errors(p, values) == te + range_errors(p, v) + enum_errors(p, v));
    if !kind_fits(p.param_type, json_kind_of(v)) {
        assert(te == seq![m]) by {
            assert(crate::template::about(p.name@, "' has invalid type, expected "@ + crate::template::parameter_type_label(
                p.param_type,
            )) =~= m);
        }
        assert((te + range_errors(p, v) + enum_errors(p, v))[0] == m);
        assert(parameter_errors(p, values).contains(m));
        lemma_parameter_message_reported(ps, values, i, m);
    } else {
        assert(te =~= Seq::<Seq<char>>::empty());
        assert(parameter_errors(p, values) =~= range_errors(p, v) + enum_errors(p, v));
    }
}


/// What a try / catch / finally block reports, in terms of its three expressions:
/// - it succeeds only when the try expression succeeds, or when it fails and a catch
///   expression runs successfully without the error being raised again; and the finally
///   expression, when there is one, must succeed too;
/// - a failed try with no catch block fails the block, with the try's error;
/// - a failed try whose error is raised again, or that no catch expression handles,
///   fails the block;
/// - a failed try handled by a catch expression (run with the error text bound to the
///   error variable, not raised again, no finally) succeeds with the catch's value and
///   keeps the try's error;
/// - a successful try (and finally) succeeds, with the try's value and no error.
pub proof fn lemma_try_catch_outcome(c: TryCatchConfig, vars: Seq<(Seq<char>, Seq<char>)>)
    ensures
        ({
            let r = try_catch_spec(c, vars);
            let caught = match expr_spec(c.try_expression@, vars) {
                Ok(_) => false,
                Err(f) => match c.catch_expression {
                    Some(ce) => expr_spec(ce@, upsert(vars, c.error_variable@, json_quoted(failure_text(f)))) is Ok,
                    None => false,
                },
            };
            &&& r.4 ==> (expr_spec(c.try_expression@, vars) is Ok || (caught && !c.rethrow))
            &&& r.4 ==> (c.finally_expression matches Some(fe) ==> expr_spec(fe@, vars) is Ok)
            &&& (expr_spec(c.try_expression@, vars) is Err && c.catch_expression is None) ==> (!r.4
                && r.0 is None && r.3 is Some)
            &&& expr_spec(c.try_expression@, vars) matches Err(f) ==> (c.catch_expression is None
                && c.finally_expression is None ==> r.3 == Some(failure_text(f)))
            &&& (expr_spec(c.try_expression@, vars) is Err && c.rethrow) ==> !r.4
            &&& expr_spec(c.try_expression@, vars) matches Err(f) ==> (c.catch_expression matches Some(ce) ==> (
            expr_spec(ce@, upsert(vars, c.error_variable@, json_quoted(failure_text(f)))) matches Ok(cv) ==> (
            !c.rethrow && c.finally_expression is None ==> (r.4 && r.0 is None && r.1 == Some(cv) && r.3 == Some(
                failure_text(f),
            )))))
            &&& (expr_spec(c.try_expression@, vars) is Err && !caught) ==> !r.4
            &&& expr_spec(c.try_expression@, vars) matches Ok(v) ==> ((c.finally_expression matches Some(fe)
                ==> expr_spec(fe@, vars) is Ok) ==> (r.4 && r.0 == Some(v) && r.3 is None))
        }),
{
}


proof fn lemma_config_error_fails(w: Workflow, k: int, e: ErrorView, r: Result<ValidationReport, ValidationError>)
    requires
        0 <= k < w.nodes@.len(),
        node_config_errors(w.nodes@[k]).contains(e),
        validation_outcome_ok(w, r),
    ensures
        structural_errors(w).contains(e),
        r is Err,
{
    lemma_node_error_reported(w.nodes@, k, e);
    let ids = crate::workflow::ids_of(w.nodes@);
    let before = crate::validation::start_end_errors(w.nodes@) + crate::validation::edge_ref_errors(
        ids,
        crate::workflow::pairs_of(w.edges@),
    ) + crate::validation::conditional_errors(ids, w.nodes@);
    lemma_contains_right(before, advanced_errors(w.nodes@), e);
    let tail: Seq<ErrorView> = if crate::validation::edges_valid(w) {
        crate::validation::cycle_errors(w)
    } else {
        Seq::empty()
    };
    lemma_contains_left(before + advanced_errors(w.nodes@), tail, e);
    assert(structural_errors(w) == before + advanced_errors(w.nodes@) + tail);
}

/// A node whose configuration cannot run makes validation fail with the matching
/// error: a parallel node without tasks, a try / catch node with a blank try
/// expression, a sub-workflow node with a blank path, a switch node with a blank
/// expression, or a switch node with neither cases nor a default.
pub proof fn lemma_bad_configurations_fail_validation(w: Workflow, k: int, r: Result<ValidationReport, ValidationError>)
    requires
        0 <= k < w.nodes@.len(),
        validation_outcome_ok(w, r),
    ensures
        ({
            let n = w.nodes@[k];
            &&& (n.kind matches NodeKind::Parallel(c) && c.tasks@.len() == 0) ==> (structural_errors(w).contains(
                ErrorView::ParallelNodeNoTasks(n.id),
            ) && r is Err)
            &&& (n.kind matches NodeKind::TryCatch(c) && crate::text::is_blank(c.try_expression@)) ==> (
            structural_errors(w).contains(ErrorView::TryCatchEmptyTryExpression(n.id)) && r is Err)
            &&& (n.kind matches NodeKind::SubWorkflow(c) && crate::text::is_blank(c.workflow_path@)) ==> (
            structural_errors(w).contains(ErrorView::SubWorkflowEmptyPath(n.id)) && r is Err)
            &&& (n.kind matches NodeKind::Switch(c) && crate::text::is_blank(c.switch_on@)) ==> (
            structural_errors(w).contains(ErrorView::SwitchNodeEmptyExpression(n.id)) && r is Err)
            &&& (n.kind matches NodeKind::Switch(c) && c.cases@.len() == 0 && c.default_case is None) ==> (
            structural_errors(w).contains(ErrorView::SwitchNodeNoCases(n.id)) && r is Err)
        }),
{
    let n = w.nodes@[k];
    let errs = node_config_errors(n);
    match n.kind {
        NodeKind::Parallel(c) => {
            if c.tasks@.len() == 0 {
                let e = ErrorView::ParallelNodeNoTasks(n.id);
                assert(errs[0] == e);
                lemma_config_error_fails(w, k, e, r);
            }
        },
        NodeKind::TryCatch(c) => {
            if crate::text::is_blank(c.try_expression@) {
                let e = ErrorView::TryCatchEmptyTryExpression(n.id);
                assert(errs[0] == e);
                lemma_config_error_fails(w, k, e, r);
            }
        },
        NodeKind::SubWorkflow(c) => {
            if crate::text::is_blank(c.workflow_path@) {
                let e = ErrorView::SubWorkflowEmptyPath(n.id);
                assert(errs[0] == e);
                lemma_config_error_fails(w, k, e, r);
            }
        },
        NodeKind::Switch(c) => {
            let a: Seq<ErrorView> = if crate::text::is_blank(c.switch_on@) {
                seq![ErrorView::SwitchNodeEmptyExpression(n.id)]
            } else {
                Seq::empty()
            };
            let b: Seq<ErrorView> = if c.cases@.len() == 0 && c.default_case is None {
                seq![ErrorView::SwitchNodeNoCases(n.id)]
            } else {
                Seq::empty()
            };
            assert(errs == a + b + crate::validation::switch_case_errors(n.id, c.cases@));
            if crate::text::is_blank(c.switch_on@) {
                let e = ErrorView::SwitchNodeEmptyExpression(n.id);
                assert(errs[0] == e);
                lemma_config_error_fails(w, k, e, r);
            }
            if c.cases@.len() == 0 && c.default_case is None {
                let e = ErrorView::SwitchNodeNoCases(n.id);
                assert(errs[a.len() as int] == e);
                lemma_config_error_fails(w, k, e, r);
            }
        },
        _ => {},
    }
}


/// A finding of the rule `rid`, with its severity and category, about a node.
pub open spec fn finding_about(f: FindingView, rid: Seq<char>, sev: LintSeverity, cat: LintCategory, n: crate::node::Node) -> bool {
    &&& f.rule_id == rid
    &&& f.severity == sev
    &&& f.category == cat
    &&& f.node_id == Some(uuid_text(n.id))
}

/// A finding of the rule `rid` about some node that meets the rule's condition.
pub open spec fn found_for(
    nodes: Seq<crate::node::Node>,
    cond: spec_fn(crate::node::Node) -> bool,
    f: FindingView,
    rid: Seq<char>,
    sev: LintSeverity,
    cat: LintCategory,
) -> bool {
    exists|i: int| 0 <= i < nodes.len() && cond(nodes[i]) && #[trigger] finding_about(f, rid, sev, cat, nodes[i])
}

/// A rule gives one finding about a node that meets its condition, and none otherwise.
pub open spec fn rule_is(
    f: spec_fn(crate::node::Node) -> Seq<FindingView>,
    cond: spec_fn(crate::node::Node) -> bool,
    rid: Seq<char>,
    sev: LintSeverity,
    cat: LintCategory,
) -> bool {
    forall|n: crate::node::Node|
        #![trigger f(n)]
        (cond(n) ==> f(n).len() == 1 && finding_about(f(n)[0], rid, sev, cat, n)) && (!cond(n) ==> f(n).len() == 0)
}

proof fn lemma_rule_source(
    nodes: Seq<crate::node::Node>,
    f: spec_fn(crate::node::Node) -> Seq<FindingView>,
    cond: spec_fn(crate::node::Node) -> bool,
    rid: Seq<char>,
    sev: LintSeverity,
    cat: LintCategory,
    j: int,
) -> (i: int)
    requires
        rule_is(f, cond, rid, sev, cat),
        0 <= j < per_node(nodes, f).len(),
    ensures
        0 <= i < nodes.len(),
        cond(nodes[i]),
        finding_about(per_node(nodes, f)[j], rid, sev, cat, nodes[i]),
    decreases nodes.len(),
{
    let pre = nodes.drop_last();
    let n = nodes.last();
    let fp = per_node(pre, f);
    assert(per_node(nodes, f) == fp + f(n));
    if j < fp.len() {
        let i = lemma_rule_source(pre, f, cond, rid, sev, cat, j);
        assert(pre[i] == nodes[i]);
        i
    } else {
        assert(f(n).len() > 0);
        assert(nodes[nodes.len() - 1] == n);
        nodes.len() - 1
    }
}

proof fn lemma_rule_reports(
    nodes: Seq<crate::node::Node>,
    f: spec_fn(crate::node::Node) -> Seq<FindingView>,
    cond: spec_fn(crate::node::Node) -> bool,
    rid: Seq<char>,
    sev: LintSeverity,
    cat: LintCategory,
    i: int,
) -> (j: int)
    requires
        rule_is(f, cond, rid, sev, cat),
        0 <= i < nodes.len(),
        cond(nodes[i]),
    ensures
        0 <= j < per_node(nodes, f).len(),
        finding_about(per_node(nodes, f)[j], rid, sev, cat, nodes[i]),
    decreases nodes.len(),
{
    let pre = nodes.drop_last();
    let n = nodes.last();
    let fp = per_node(pre, f);
    assert(per_node(nodes, f) == fp + f(n));
    if i == nodes.len() - 1 {
        assert(f(n).len() == 1);
        fp.len() as int
    } else {
        assert(pre[i] == nodes[i]);
        let j = lemma_rule_reports(pre, f, cond, rid, sev, cat, i);
        j
    }
}

/// What a rule that holds of single nodes reports over a list of nodes: a finding
/// about every node that meets the condition, and only findings about such nodes.
proof fn lemma_rule_exact(
    nodes: Seq<crate::node::Node>,
    f: spec_fn(crate::node::Node) -> Seq<FindingView>,
    cond: spec_fn(crate::node::Node) -> bool,
    rid: Seq<char>,
    sev: LintSeverity,
    cat: LintCategory,
)
    requires
        rule_is(f, cond, rid, sev, cat),
    ensures
        forall|i: int|
            0 <= i < nodes.len() && #[trigger] cond(nodes[i]) ==> exists|j: int|
                0 <= j < per_node(nodes, f).len() && #[trigger] finding_about(per_node(nodes, f)[j], rid, sev, cat, nodes[i]),
        forall|j: int|
            0 <= j < per_node(nodes, f).len() ==> found_for(nodes, cond, #[trigger] per_node(nodes, f)[j], rid, sev, cat),
{
    assert forall|i: int| 0 <= i < nodes.len() && #[trigger] cond(nodes[i]) implies exists|j: int|
        0 <= j < per_node(nodes, f).len() && #[trigger] finding_about(per_node(nodes, f)[j], rid, sev, cat, nodes[i]) by {
        let j = lemma_rule_reports(nodes, f, cond, rid, sev, cat, i);
    }
    assert forall|j: int| 0 <= j < per_node(nodes, f).len() implies found_for(
        nodes,
        cond,
        #[trigger] per_node(nodes, f)[j],
        rid,
        sev,
        cat,
    ) by {
        let i = lemma_rule_source(nodes, f, cond, rid, sev, cat, j);
        assert(finding_about(per_node(nodes, f)[j], rid, sev, cat, nodes[i]));
    }
}

/// The node rules of the linter, each over the nodes of a workflow: a finding about
/// every node that meets the rule's condition, and only about such nodes.
/// - `excessive-retries` (warning, performance): retries configured above the maximum;
/// - `high-loop-limit` (warning, performance): a loop allowed more than 10000 iterations;
/// - `unreachable-node` (warning, maintainability): a node other than a start node that
///   no start node reaches;
/// - `dead-end-path` (warning, reliability): a node other than a start or end node that
///   reaches no end node.
pub proof fn lemma_node_rules(c: LinterConfig, w: Workflow)
    ensures
        ({
            let ns = w.nodes@;
            let retries = |n: crate::node::Node| n.retry_config matches Some(rc) && rc.max_retries > c.max_retry_count;
            let looping = |n: crate::node::Node| n.kind matches NodeKind::Loop(lc) && lc.max_iterations > 10000;
            let unreachable = |n: crate::node::Node|
                !(n.kind is Start) && !crate::linter::reaches_from_start(w, n.id);
            let dead_end = |n: crate::node::Node|
                !(n.kind is Start) && !(n.kind is End) && !crate::linter::reaches_an_end(w, n.id);
            &&& forall|j: int|
                0 <= j < per_node(ns, crate::linter::retries_rule(c)).len() ==> found_for(
                    ns,
                    retries,
                    #[trigger] per_node(ns, crate::linter::retries_rule(c))[j],
                    "excessive-retries"@,
                    LintSeverity::Warning,
                    LintCategory::Performance,
                )
            &&& forall|i: int|
                0 <= i < ns.len() && #[trigger] retries(ns[i]) ==> exists|j: int|
                    0 <= j < per_node(ns, crate::linter::retries_rule(c)).len() && #[trigger] finding_about(
                        per_node(ns, crate::linter::retries_rule(c))[j],
                        "excessive-retries"@,
                        LintSeverity::Warning,
                        LintCategory::Performance,
                        ns[i],
                    )
            &&& forall|j: int|
                0 <= j < per_node(ns, crate::linter::loop_rule()).len() ==> found_for(
                    ns,
                    looping,
                    #[trigger] per_node(ns, crate::linter::loop_rule())[j],
                    "high-loop-limit"@,
                    LintSeverity::Warning,
                    LintCategory::Performance,
                )
            &&& forall|i: int|
                0 <= i < ns.len() && #[trigger] looping(ns[i]) ==> exists|j: int|
                    0 <= j < per_node(ns, crate::linter::loop_rule()).len() && #[trigger] finding_about(
                        per_node(ns, crate::linter::loop_rule())[j],
                        "high-loop-limit"@,
                        LintSeverity::Warning,
                        LintCategory::Performance,
                        ns[i],
                    )
            &&& forall|j: int|
                0 <= j < per_node(ns, crate::linter::unused_rule(w)).len() ==> found_for(
                    ns,
                    unreachable,
                    #[trigger] per_node(ns, crate::linter::unused_rule(w))[j],
                    "unreachable-node"@,
                    LintSeverity::Warning,
                    LintCategory::Maintainability,
                )
            &&& forall|i: int|
                0 <= i < ns.len() && #[trigger] unreachable(ns[i]) ==> exists|j: int|
                    0 <= j < per_node(ns, crate::linter::unused_rule(w)).len() && #[trigger] finding_about(
                        per_node(ns, crate::linter::unused_rule(w))[j],
                        "unreachable-node"@,
                        LintSeverity::Warning,
                        LintCategory::Maintainability,
                        ns[i],
                    )
            &&& forall|j: int|
                0 <= j < per_node(ns, crate::linter::dead_end_rule(w)).len() ==> found_for(
                    ns,
                    dead_end,
                    #[trigger] per_node(ns, crate::linter::dead_end_rule(w))[j],
                    "dead-end-path"@,
                    LintSeverity::Warning,
                    LintCategory::Reliability,
                )
            &&& forall|i: int|
                0 <= i < ns.len() && #[trigger] dead_end(ns[i]) ==> exists|j: int|
                    0 <= j < per_node(ns, crate::linter::dead_end_rule(w)).len() && #[trigger] finding_about(
                        per_node(ns, crate::linter::dead_end_rule(w))[j],
                        "dead-end-path"@,
                        LintSeverity::Warning,
                        LintCategory::Reliability,
                        ns[i],
                    )
        }),
{
    let ns = w.nodes@;
    let retries = |n: crate::node::Node| n.retry_config matches Some(rc) && rc.max_retries > c.max_retry_count;
    let looping = |n: crate::node::Node| n.kind matches NodeKind::Loop(lc) && lc.max_iterations > 10000;
    let unreachable = |n: crate::node::Node| !(n.kind is Start) && !crate::linter::reaches_from_start(w, n.id);
    let dead_end = |n: crate::node::Node|
        !(n.kind is Start) && !(n.kind is End) && !crate::linter::reaches_an_end(w, n.id);
    reveal_strlit("excessive-retries");
    reveal_strlit("high-loop-limit");
    reveal_strlit("unreachable-node");
    reveal_strlit("dead-end-path");
    assert(rule_is(crate::linter::retries_rule(c), retries, "excessive-retries"@, LintSeverity::Warning, LintCategory::Performance));
    assert(rule_is(crate::linter::loop_rule(), looping, "high-loop-limit"@, LintSeverity::Warning, LintCategory::Performance));
    assert(rule_is(crate::linter::unused_rule(w), unreachable, "unreachable-node"@, LintSeverity::Warning, LintCategory::Maintainability));
    assert(rule_is(crate::linter::dead_end_rule(w), dead_end, "dead-end-path"@, LintSeverity::Warning, LintCategory::Reliability));
    lemma_rule_exact(ns, crate::linter::retries_rule(c), retries, "excessive-retries"@, LintSeverity::Warning, LintCategory::Performance);
    lemma_rule_exact(ns, crate::linter::loop_rule(), looping, "high-loop-limit"@, LintSeverity::Warning, LintCategory::Performance);
    lemma_rule_exact(ns, crate::linter::unused_rule(w), unreachable, "unreachable-node"@, LintSeverity::Warning, LintCategory::Maintainability);
    lemma_rule_exact(ns, crate::linter::dead_end_rule(w), dead_end, "dead-end-path"@, LintSeverity::Warning, LintCategory::Reliability);
}


/// A parameter without a given value: a required one is reported missing, as
/// `Required parameter '<name>' is missing`; an optional one gives no message.
pub proof fn lemma_missing_parameters(ps: Seq<TemplateParameter>, values: Seq<(Seq<char>, Seq<char>)>, i: int)
    requires
        0 <= i < ps.len(),
        crate::code_executor::var_value(values, ps[i].name@) is None,
    ensures
        ps[i].required ==> validation_errors(ps, values).contains(
            "Required parameter '"@ + ps[i].name@ + "' is missing"@,
        ),
        !ps[i].required ==> parameter_errors(ps[i], values).len() == 0,
{
    if ps[i].required {
        let m = "Required parameter '"@ + ps[i].name@ + "' is missing"@;
        assert(parameter_errors(ps[i], values)[0] == m);
        lemma_parameter_message_reported(ps, values, i, m);
    }
}


/// The parameters a condition takes: as many as its list for `IN` and `NOT IN`, two
/// for `BETWEEN`, none for the null tests and raw SQL, and one for the others. The WHERE
/// clause joins the conditions with `AND`, numbering their parameters from `$1` on, each
/// condition after those of the conditions before it.
pub proof fn lemma_where_clause(a: Condition, b: Condition, col: String, k: usize)
    ensures
        cond_params(Condition::In(col, k)) == k,
        cond_params(Condition::NotIn(col, k)) == k,
        cond_params(Condition::Between(col)) == 2,
        cond_params(Condition::IsNull(col)) == 0,
        cond_params(Condition::IsNotNull(col)) == 0,
        cond_params(Condition::Raw(col)) == 0,
        cond_params(Condition::Eq(col)) == 1,
        cond_params(Condition::Lte(col)) == 1,
        where_part(Seq::empty()) == Seq::<char>::empty(),
        where_part(seq![a]) == " WHERE "@ + cond_sql(a, 1),
        where_part(seq![a, b]) == " WHERE "@ + cond_sql(a, 1) + " AND "@ + cond_sql(b, 1 + cond_params(a)),
{
    let one = seq![a];
    let two = seq![a, b];
    assert(two.drop_last() =~= one);
    assert(one.drop_last() =~= Seq::<Condition>::empty());
    let empty = Seq::<Condition>::empty();
    assert(crate::query_builder::total_params(empty) == 0);
    assert(crate::query_builder::cond_parts(empty, 1) =~= Seq::<Seq<char>>::empty());
    assert(crate::query_builder::cond_parts(one, 1) =~= seq![cond_sql(a, 1)]);
    assert(crate::query_builder::total_params(one) == cond_params(a));
    assert(crate::query_builder::cond_parts(two, 1) =~= seq![cond_sql(a, 1), cond_sql(b, 1 + cond_params(a))]);
    let parts = crate::query_builder::cond_parts(two, 1);
    assert(parts.drop_last() =~= seq![cond_sql(a, 1)]);
    assert(crate::query_builder::join(seq![cond_sql(a, 1)], " AND "@) == cond_sql(a, 1));
    assert(crate::query_builder::join(parts, " AND "@) == cond_sql(a, 1) + " AND "@ + cond_sql(b, 1 + cond_params(a)));
    assert(where_part(two) =~= " WHERE "@ + cond_sql(a, 1) + " AND "@ + cond_sql(b, 1 + cond_params(a)));
}


proof fn lemma_keep_one<T>(s: Seq<T>, p: spec_fn(T) -> bool, a: int)
    requires
        0 <= a < s.len(),
        p(s[a]),
    ensures
        crate::workflow::keep(s, p).len() >= 1,
    decreases s.len(),
{
    if a < s.len() - 1 {
        assert(s.drop_last()[a] == s[a]);
        lemma_keep_one(s.drop_last(), p, a);
    }
}

proof fn lemma_keep_two<T>(s: Seq<T>, p: spec_fn(T) -> bool, a: int, b: int)
    requires
        0 <= a < b < s.len(),
        p(s[a]),
        p(s[b]),
    ensures
        crate::workflow::keep(s, p).len() >= 2,
    decreases s.len(),
{
    assert(s.drop_last()[a] == s[a]);
    if b == s.len() - 1 {
        lemma_keep_one(s.drop_last(), p, a);
    } else {
        assert(s.drop_last()[b] == s[b]);
        lemma_keep_two(s.drop_last(), p, a, b);
    }
}

proof fn lemma_keep_some<T>(s: Seq<T>, p: spec_fn(T) -> bool) -> (i: int)
    requires
        crate::workflow::keep(s, p).len() >= 1,
    ensures
        0 <= i < s.len(),
        p(s[i]),
    decreases s.len(),
{
    if p(s.last()) {
        s.len() - 1
    } else {
        let i = lemma_keep_some(s.drop_last(), p);
        assert(s.drop_last()[i] == s[i]);
        i
    }
}

proof fn lemma_edge_refs_within(ids: Seq<u128>, edges: Seq<crate::graph::IdEdge>)
    requires
        crate::validation::edge_ref_errors(ids, edges).len() == 0,
    ensures
        crate::graph::edges_within(ids, edges),
    decreases edges.len(),
{
    if edges.len() > 0 {
        lemma_edge_refs_within(ids, edges.drop_last());
        assert forall|j: int| 0 <= j < edges.len() implies ids.contains(#[trigger] edges[j].0) && ids.contains(
            edges[j].1,
        ) by {
            if j < edges.len() - 1 {
                assert(edges.drop_last()[j] == edges[j]);
            }
        }
    }
}

/// What a workflow that validates is like: it has nodes, with distinct identifiers;
/// exactly one start node and exactly one end node; every edge joins two of its nodes;
/// and its edges admit a ranking of the nodes that every edge increases (no cycle).
pub proof fn lemma_valid_workflow_shape(w: Workflow, r: Result<ValidationReport, ValidationError>)
    requires
        validation_outcome_ok(w, r),
        r is Ok,
    ensures
        w.nodes@.len() > 0,
        forall|a: int, b: int|
            0 <= a < w.nodes@.len() && 0 <= b < w.nodes@.len() && a != b ==> #[trigger] w.nodes@[a].id
                != #[trigger] w.nodes@[b].id,
        exists|i: int| 0 <= i < w.nodes@.len() && #[trigger] w.nodes@[i].kind is Start,
        forall|a: int, b: int|
            0 <= a < w.nodes@.len() && 0 <= b < w.nodes@.len() && #[trigger] w.nodes@[a].kind is Start
                && #[trigger] w.nodes@[b].kind is Start ==> a == b,
        exists|i: int| 0 <= i < w.nodes@.len() && #[trigger] w.nodes@[i].kind is End,
        forall|a: int, b: int|
            0 <= a < w.nodes@.len() && 0 <= b < w.nodes@.len() && #[trigger] w.nodes@[a].kind is End
                && #[trigger] w.nodes@[b].kind is End ==> a == b,
        forall|j: int|
            #![trigger w.edges@[j]]
            0 <= j < w.edges@.len() ==> (exists|a: int| 0 <= a < w.nodes@.len() && #[trigger] w.nodes@[a].id
                == w.edges@[j].from) && (exists|b: int| 0 <= b < w.nodes@.len() && #[trigger] w.nodes@[b].id
                == w.edges@[j].to),
        crate::graph::acyclic(crate::workflow::pairs_of(w.edges@)),
{
    let ns = w.nodes@;
    let ids = crate::workflow::ids_of(ns);
    let pairs = crate::workflow::pairs_of(w.edges@);
    let se = crate::validation::start_end_errors(ns);
    let er = crate::validation::edge_ref_errors(ids, pairs);
    let ce = crate::validation::conditional_errors(ids, ns);
    let tail: Seq<ErrorView> = if crate::validation::edges_valid(w) {
        crate::validation::cycle_errors(w)
    } else {
        Seq::empty()
    };
    assert(structural_errors(w) == se + er + ce + advanced_errors(ns) + tail);
    assert(structural_errors(w).len() == 0);
    assert(se.len() == 0 && er.len() == 0 && tail.len() == 0);
    lemma_edge_refs_within(ids, pairs);
    assert(crate::validation::edges_valid(w));
    assert(crate::validation::cycle_errors(w).len() == 0);
    assert(ids.no_duplicates());
    assert forall|a: int, b: int|
        0 <= a < ns.len() && 0 <= b < ns.len() && a != b implies #[trigger] ns[a].id != #[trigger] ns[b].id by {
        assert(ids[a] == ns[a].id && ids[b] == ns[b].id);
    }
    let sp = |n: crate::node::Node| n.kind is Start;
    let ep = |n: crate::node::Node| n.kind is End;
    let sk = crate::workflow::keep(ns, sp);
    let ek = crate::workflow::keep(ns, ep);
    assert(crate::validation::start_ids(ns).len() == sk.len());
    assert(crate::validation::end_ids(ns).len() == ek.len());
    assert(sk.len() == 1 && ek.len() == 1);
    let i = lemma_keep_some(ns, sp);
    assert(ns[i].kind is Start);
    let k = lemma_keep_some(ns, ep);
    assert(ns[k].kind is End);
    assert forall|a: int, b: int|
        0 <= a < ns.len() && 0 <= b < ns.len() && #[trigger] ns[a].kind is Start && #[trigger] ns[b].kind is Start
            implies a == b by {
        if a < b {
            lemma_keep_two(ns, sp, a, b);
        } else if b < a {
            lemma_keep_two(ns, sp, b, a);
        }
    }
    assert forall|a: int, b: int|
        0 <= a < ns.len() && 0 <= b < ns.len() && #[trigger] ns[a].kind is End && #[trigger] ns[b].kind is End
            implies a == b by {
        if a < b {
            lemma_keep_two(ns, ep, a, b);
        } else if b < a {
            lemma_keep_two(ns, ep, b, a);
        }
    }
    assert forall|j: int| #![trigger w.edges@[j]] 0 <= j < w.edges@.len() implies (exists|a: int| 0 <= a < ns.len() && #[trigger] ns[a].id
        == w.edges@[j].from) && (exists|b: int| 0 <= b < ns.len() && #[trigger] ns[b].id == w.edges@[j].to) by {
        assert(pairs[j] == (w.edges@[j].from, w.edges@[j].to));
        assert(ids.contains(pairs[j].0) && ids.contains(pairs[j].1));
        let a = choose|a: int| 0 <= a < ids.len() && ids[a] == pairs[j].0;
        let b = choose|b: int| 0 <= b < ids.len() && ids[b] == pairs[j].1;
        assert(ns[a].id == w.edges@[j].from);
        assert(ns[b].id == w.edges@[j].to);
    }
}


/// An UPDATE of one column under one condition sets the column to `$1` and numbers the
/// condition's parameters after it, from `$2`; a DELETE under one condition numbers its
/// parameters from `$1`; without conditions neither has a WHERE clause.
pub proof fn lemma_update_delete_sql(u: UpdateBuilder, d: DeleteBuilder)
    ensures
        (u.set_columns@.len() == 1 && u.conditions@.len() == 1) ==> update_sql(u) == "UPDATE "@ + u.table@
            + " SET "@ + u.set_columns@[0]@ + " = $1"@ + " WHERE "@ + cond_sql(u.conditions@[0], 2),
        (u.set_columns@.len() == 1 && u.conditions@.len() == 0) ==> update_sql(u) == "UPDATE "@ + u.table@
            + " SET "@ + u.set_columns@[0]@ + " = $1"@,
        d.conditions@.len() == 1 ==> delete_sql(d) == "DELETE FROM "@ + d.table@ + " WHERE "@ + cond_sql(
            d.conditions@[0],
            1,
        ),
        d.conditions@.len() == 0 ==> delete_sql(d) == "DELETE FROM "@ + d.table@,
{
    reveal_strlit(" = $");
    reveal_strlit(" = $1");
    assert(crate::text::decimal(1) == seq!['1']);
    let empty = Seq::<Condition>::empty();
    assert(crate::query_builder::total_params(empty) == 0);
    assert(crate::query_builder::cond_parts(empty, 1) =~= Seq::<Seq<char>>::empty());
    assert(crate::query_builder::cond_parts(empty, 2) =~= Seq::<Seq<char>>::empty());
    if u.set_columns@.len() == 1 {
        let parts = crate::query_builder::set_parts(crate::query_builder::texts(u.set_columns@));
        let c0 = crate::query_builder::texts(u.set_columns@)[0];
        assert(c0 == u.set_columns@[0]@);
        assert(c0 + " = $"@ + crate::text::decimal(1) =~= c0 + " = $1"@);
        assert(parts[0] == c0 + " = $"@ + crate::text::decimal((0 + 1) as nat));
        assert(parts =~= seq![u.set_columns@[0]@ + " = $1"@]);
        assert(crate::query_builder::join(parts, ", "@) == u.set_columns@[0]@ + " = $1"@);
        if u.conditions@.len() == 1 {
            let cs = u.conditions@;
            assert(cs.drop_last() =~= empty);
            assert(crate::query_builder::cond_parts(cs, 2) =~= seq![cond_sql(cs[0], 2)]);
            assert(crate::query_builder::join(seq![cond_sql(cs[0], 2)], " AND "@) == cond_sql(cs[0], 2));
            assert(update_sql(u) =~= "UPDATE "@ + u.table@ + " SET "@ + u.set_columns@[0]@ + " = $1"@ + " WHERE "@
                + cond_sql(u.conditions@[0], 2));
        } else if u.conditions@.len() == 0 {
            assert(update_sql(u) =~= "UPDATE "@ + u.table@ + " SET "@ + u.set_columns@[0]@ + " = $1"@);
        }
    }
    if d.conditions@.len() == 1 {
        let cs = d.conditions@;
        assert(cs.drop_last() =~= empty);
        assert(crate::query_builder::cond_parts(cs, 1) =~= seq![cond_sql(cs[0], 1)]);
        assert(crate::query_builder::join(seq![cond_sql(cs[0], 1)], " AND "@) == cond_sql(cs[0], 1));
        assert(delete_sql(d) =~= "DELETE FROM "@ + d.table@ + " WHERE "@ + cond_sql(d.conditions@[0], 1));
    } else if d.conditions@.len() == 0 {
        assert(delete_sql(d) =~= "DELETE FROM "@ + d.table@);
    }
}

} // verus!
