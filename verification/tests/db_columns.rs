use dag_engine::db_utils::{missing_indexes, parse_uuid_array, required_indexes, uuids_to_strings};
use uuid::Uuid;

#[test]
fn test_parse_uuid_array() {
    let uuid1 = Uuid::new_v4();
    let uuid2 = Uuid::new_v4();

    let input = vec![
        uuid1.to_string(),
        "invalid-uuid".to_string(),
        uuid2.to_string(),
        "not-a-uuid-at-all".to_string(),
    ];

    let result = parse_uuid_array(input);
    assert_eq!(result.len(), 2);
    assert!(result.contains(&uuid1.as_u128()));
    assert!(result.contains(&uuid2.as_u128()));
}

#[test]
fn test_parse_uuid_array_all_invalid() {
    let input = vec!["invalid-uuid".to_string(), "not-a-uuid".to_string()];

    let result = parse_uuid_array(input);
    assert_eq!(result.len(), 0);
}

#[test]
fn test_parse_uuid_array_empty() {
    let input: Vec<String> = vec![];
    let result = parse_uuid_array(input);
    assert_eq!(result.len(), 0);
}

#[test]
fn test_uuids_to_strings() {
    let uuid1 = Uuid::new_v4();
    let uuid2 = Uuid::new_v4();
    let uuids = vec![uuid1.as_u128(), uuid2.as_u128()];

    let strings = uuids_to_strings(&uuids);
    assert_eq!(strings.len(), 2);
    assert_eq!(strings[0], uuid1.to_string());
    assert_eq!(strings[1], uuid2.to_string());
}

#[test]
fn test_uuids_to_strings_empty() {
    let uuids: Vec<u128> = vec![];
    let strings = uuids_to_strings(&uuids);
    assert_eq!(strings.len(), 0);
}

#[test]
fn parsed_uuids_keep_their_order() {
    let a = "67e55044-10b1-426f-9247-bb680e5fe0c8";
    let b = "00000000-0000-0000-0000-000000000001";
    let result = parse_uuid_array(vec![b.to_string(), "x".to_string(), a.to_string()]);
    assert_eq!(result, vec![1u128, 0x67e5504410b1426f9247bb680e5fe0c8u128]);
    assert_eq!(uuids_to_strings(&result), vec![b.to_string(), a.to_string()]);
}

#[test]
fn test_required_indexes_list() {
    let indexes = required_indexes();
    assert_eq!(indexes.len(), 10);
    assert_eq!(indexes[0], "idx_executions_workflow_id_created_at");
    assert_eq!(indexes[9], "idx_workflow_versions_workflow_id_version");
}

#[test]
fn missing_indexes_are_those_not_found() {
    let names = required_indexes();
    let mut exists = vec![true; names.len()];
    exists[1] = false;
    exists[7] = false;
    let missing = missing_indexes(&names, &exists);
    assert_eq!(
        missing,
        vec!["idx_executions_state_created_at".to_string(), "idx_schedule_executions_schedule_id_executed_at".to_string()]
    );
    assert!(missing_indexes(&names, &vec![true; 10]).is_empty());
}
