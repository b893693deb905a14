//! Conversions between database column representations and domain values.

use vstd::prelude::*;
use crate::ids::{parse_uuid, uuid_parsed};
use crate::text::{uuid_text, uuid_to_string};

verus! {

/// Clamp a signed database count to an unsigned value: negatives become 0.
pub fn i64_to_u64_safe(value: i64) -> (r: u64)
    ensures
        value >= 0 ==> r == value,
        value < 0 ==> r == 0,
{
    if value < 0 {
        0
    } else {
        value as u64
    }
}

/// `i64_to_u64_safe` lifted over `Option`.
pub fn opt_i64_to_u64(value: Option<i64>) -> (r: Option<u64>)
    ensures
        match value {
            None => r is None,
            Some(v) => r == Some(if v < 0 { 0u64 } else { v as u64 }),
        },
{
    match value {
        None => None,
        Some(v) => Some(i64_to_u64_safe(v)),
    }
}

/// Encode a boolean as the integer 1 or 0.
pub fn bool_to_int(value: bool) -> (r: i32)
    ensures
        r == (if value { 1i32 } else { 0i32 }),
{
    if value {
        1
    } else {
        0
    }
}

/// Decode an integer as a boolean: any non-zero value is true.
pub fn int_to_bool(value: i32) -> (r: bool)
    ensures
        r == (value != 0),
{
    value != 0
}

/// Encoding a boolean and decoding it again gives the boolean back.
pub proof fn lemma_bool_int_roundtrip(b: bool)
    ensures
        (if b { 1i32 } else { 0i32 } != 0) == b,
{
}

/// The identifiers of the texts that parse as UUIDs, in order; the others are dropped.
pub open spec fn parsed_ids(s: Seq<Seq<char>>) -> Seq<u128>
    decreases s.len(),
{
    if s.len() == 0 {
        Seq::empty()
    } else {
        parsed_ids(s.drop_last()) + match uuid_parsed(s.last()) {
            Some(u) => seq![u],
            None => Seq::empty(),
        }
    }
}

/// Parse UUID texts (as read from a text-array column), dropping those that do not parse.
pub fn parse_uuid_array(strings: Vec<String>) -> (r: Vec<u128>)
    ensures
        r@ == parsed_ids(strings@.map_values(|s: String| s@)),
{
    let ghost sv = strings@.map_values(|s: String| s@);
    let mut out: Vec<u128> = Vec::new();
    let mut i: usize = 0;
    while i < strings.len()
        invariant
            i <= strings@.len(),
            sv == strings@.map_values(|s: String| s@),
            out@ == parsed_ids(sv.take(i as int)),
        decreases strings.len() - i,
    {
        assert(sv.take(i + 1).drop_last() =~= sv.take(i as int));
        assert(sv.take(i + 1).last() == strings@[i as int]@);
        match parse_uuid(strings[i].as_str()) {
            Some(u) => {
                out.push(u);
                assert(out@ =~= parsed_ids(sv.take(i as int)) + seq![u]);
            },
            None => {
                assert(out@ =~= parsed_ids(sv.take(i as int)) + Seq::<u128>::empty());
            },
        }
        i = i + 1;
    }
    assert(sv.take(strings@.len() as int) =~= sv);
    out
}

/// The hyphenated lowercase texts of identifiers, for storage.
pub fn uuids_to_strings(uuids: &[u128]) -> (r: Vec<String>)
    ensures
        r@.len() == uuids@.len(),
        forall|i: int| 0 <= i < uuids@.len() ==> (#[trigger] r@[i])@ == uuid_text(uuids@[i]),
{
    let mut out: Vec<String> = Vec::new();
    let mut i: usize = 0;
    while i < uuids.len()
        invariant
            i <= uuids@.len(),
            out@.len() == i,
            forall|k: int| 0 <= k < i ==> (#[trigger] out@[k])@ == uuid_text(uuids@[k]),
        decreases uuids.len() - i,
    {
        out.push(uuid_to_string(uuids[i]));
        i = i + 1;
    }
    out
}

/// The names of the indexes that the performance migration creates.
pub open spec fn required_index_names() -> Seq<Seq<char>> {
    seq![
        "idx_executions_workflow_id_created_at"@,
        "idx_executions_state_created_at"@,
        "idx_audit_logs_event_type_timestamp"@,
        "idx_quota_usage_history_user_id_time_bucket"@,
        "idx_secret_audit_logs_timestamp"@,
        "idx_execution_durations_workflow_time"@,
        "idx_api_key_usage_logs_key_id_timestamp"@,
        "idx_schedule_executions_schedule_id_executed_at"@,
        "idx_workflows_user_id_updated_at"@,
        "idx_workflow_versions_workflow_id_version"@,
    ]
}

/// The text views of a list of strings.
pub open spec fn string_views(v: Seq<String>) -> Seq<Seq<char>> {
    v.map_values(|s: String| s@)
}

/// The indexes that the performance migration creates, in order.
pub fn required_indexes() -> (r: Vec<String>)
    ensures
        string_views(r@) == required_index_names(),
{
    let mut v: Vec<String> = Vec::new();
    v.push(String::from_str("idx_executions_workflow_id_created_at"));
    v.push(String::from_str("idx_executions_state_created_at"));
    v.push(String::from_str("idx_audit_logs_event_type_timestamp"));
    v.push(String::from_str("idx_quota_usage_history_user_id_time_bucket"));
    v.push(String::from_str("idx_secret_audit_logs_timestamp"));
    v.push(String::from_str("idx_execution_durations_workflow_time"));
    v.push(String::from_str("idx_api_key_usage_logs_key_id_timestamp"));
    v.push(String::from_str("idx_schedule_executions_schedule_id_executed_at"));
    v.push(String::from_str("idx_workflows_user_id_updated_at"));
    v.push(String::from_str("idx_workflow_versions_workflow_id_version"));
    assert(string_views(v@) =~= required_index_names());
    v
}

/// The names whose index does not exist, in order; `exists[i]` tells of `names[i]`.
pub open spec fn missing_names(names: Seq<Seq<char>>, exists: Seq<bool>) -> Seq<Seq<char>>
    decreases names.len(),
{
    if names.len() == 0 || exists.len() < names.len() {
        Seq::empty()
    } else {
        let rest = missing_names(names.drop_last(), exists.take(names.len() - 1));
        if exists[names.len() - 1] {
            rest
        } else {
            rest.push(names.last())
        }
    }
}

/// The indexes found missing, from the answer for each required index.
pub fn missing_indexes(names: &Vec<String>, exists: &Vec<bool>) -> (r: Vec<String>)
    requires
        exists@.len() == names@.len(),
    ensures
        string_views(r@) == missing_names(string_views(names@), exists@),
{
    let mut r: Vec<String> = Vec::new();
    let mut i: usize = 0;
    while i < names.len()
        invariant
            i <= names@.len(),
            exists@.len() == names@.len(),
            string_views(r@) == missing_names(string_views(names@).take(i as int), exists@.take(i as int)),
        decreases names.len() - i,
    {
        proof {
            assert(string_views(names@).take(i + 1).drop_last() =~= string_views(names@).take(i as int));
            assert(exists@.take(i + 1).take(i as int) =~= exists@.take(i as int));
        }
        if !exists[i] {
            r.push(names[i].clone());
            proof {
                assert(string_views(r@) =~= string_views(r@).drop_last().push(names@[i as int]@));
            }
        }
        i = i + 1;
    }
    proof {
        assert(string_views(names@).take(names@.len() as int) =~= string_views(names@));
        assert(exists@.take(exists@.len() as int) =~= exists@);
    }
    r
}

} // verus!
