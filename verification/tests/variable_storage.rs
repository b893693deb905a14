use dag_engine::variable_store::{estimate_value_size, Variable, VariableStore};

fn large_array() -> String {
    serde_json::to_string(&(0..500).collect::<Vec<i32>>()).unwrap()
}

fn large_object() -> String {
    format!("{{\"data\": {}}}", serde_json::to_string(&vec![0; 1000]).unwrap())
}

#[test]
fn test_variable_inline_storage() {
    let small_value = "{\"x\": 42}".to_string();
    let var = Variable::new(small_value.clone());
    assert!(!var.is_shared());
    assert_eq!(var.as_value(), &small_value);
    assert_eq!(var.strong_count(), 1);
}

#[test]
fn test_variable_shared_storage() {
    let large_value = large_array();
    let var = Variable::new(large_value.clone());
    assert!(var.is_shared());
    assert_eq!(var.as_value(), &large_value);
    assert_eq!(var.strong_count(), 1);
}

#[test]
fn test_variable_clone_is_cheap() {
    let var1 = Variable::new(large_array());
    let var2 = var1.clone();
    assert_eq!(var1.strong_count(), 2);
    assert_eq!(var2.strong_count(), 2);
}

#[test]
fn test_variable_store_insert_get() {
    let mut store = VariableStore::new();
    store.insert("x".to_string(), "42".to_string());
    store.insert("y".to_string(), "\"hello\"".to_string());
    assert_eq!(store.get("x"), Some(&"42".to_string()));
    assert_eq!(store.get("y"), Some(&"\"hello\"".to_string()));
    assert_eq!(store.get("z"), None);
}

#[test]
fn test_variable_store_shared_insert() {
    let mut store = VariableStore::new();
    store.insert_shared("large".to_string(), large_object());
    let var = store.get_variable("large").unwrap();
    assert!(var.is_shared());
    assert_eq!(var.strong_count(), 2);
}

#[test]
fn test_variable_store_stats() {
    let mut store = VariableStore::new();
    store.insert("a".to_string(), "1".to_string());
    store.insert("b".to_string(), "2".to_string());
    store.insert("large".to_string(), large_object());
    let stats = store.stats();
    assert_eq!(stats.total_variables, 3);
    assert_eq!(stats.inline_variables, 2);
    assert_eq!(stats.shared_variables, 1);
}

#[test]
fn test_variable_store_remove() {
    let mut store = VariableStore::new();
    store.insert("x".to_string(), "42".to_string());
    assert!(store.contains_key("x"));
    let removed = store.remove("x");
    assert!(removed.is_some());
    assert!(!store.contains_key("x"));
}

#[test]
fn test_variable_store_clear() {
    let mut store = VariableStore::new();
    store.insert("a".to_string(), "1".to_string());
    store.insert("b".to_string(), "2".to_string());
    assert_eq!(store.len(), 2);
    store.clear();
    assert_eq!(store.len(), 0);
    assert!(store.is_empty());
}

#[test]
fn test_variable_store_to_hashmap() {
    let mut store = VariableStore::new();
    store.insert("x".to_string(), "42".to_string());
    store.insert("y".to_string(), "\"test\"".to_string());
    let map = store.to_hashmap();
    assert_eq!(map.len(), 2);
    assert_eq!(map.iter().find(|(k, _)| k == "x").map(|(_, v)| v.clone()), Some("42".to_string()));
    assert_eq!(map.iter().find(|(k, _)| k == "y").map(|(_, v)| v.clone()), Some("\"test\"".to_string()));
}

#[test]
fn test_variable_store_from_hashmap() {
    let map = vec![("x".to_string(), "42".to_string()), ("y".to_string(), "\"test\"".to_string())];
    let store = VariableStore::from_hashmap(map);
    assert_eq!(store.len(), 2);
    assert_eq!(store.get("x"), Some(&"42".to_string()));
    assert_eq!(store.get("y"), Some(&"\"test\"".to_string()));
}

#[test]
fn test_estimate_value_size() {
    assert_eq!(estimate_value_size("null"), 0);
    assert_eq!(estimate_value_size("true"), 1);
    assert_eq!(estimate_value_size("42"), 8);
    assert!(estimate_value_size("\"hello\"") >= 5);
    let large_array_json = serde_json::to_string(&vec![0; 100]).unwrap();
    assert!(estimate_value_size(&large_array_json) > 100);
}

#[test]
fn sizes_follow_the_rule() {
    assert_eq!(estimate_value_size("\"héllo\""), 6);
    assert_eq!(estimate_value_size("[1, true, null]"), 8 + 1 + 0 + 3 * 8);
    assert_eq!(estimate_value_size("{\"ab\": \"cd\"}"), 2 + 2 + 16);
    assert_eq!(estimate_value_size("[[1.5]]"), 8 + 8 + 8);
    let mut store = VariableStore::new();
    store.insert("k".to_string(), "1".to_string());
    store.insert("k".to_string(), "2".to_string());
    assert_eq!(store.len(), 1);
    assert_eq!(store.get("k"), Some(&"2".to_string()));
    let v = store.remove("k").unwrap();
    assert_eq!(v.into_value(), "2");
    let later_wins = VariableStore::from_hashmap(vec![("a".to_string(), "1".to_string()), ("a".to_string(), "3".to_string())]);
    assert_eq!(later_wins.get("a"), Some(&"3".to_string()));
    assert_eq!(later_wins.keys(), vec![&"a".to_string()]);
}

#[test]
fn removing_one_variable_keeps_the_others() {
    let mut store = VariableStore::new();
    store.insert("a".to_string(), "1".to_string());
    store.insert("b".to_string(), "2".to_string());
    store.insert("c".to_string(), "3".to_string());
    assert_eq!(store.remove("b").unwrap().into_value(), "2");
    assert_eq!(store.len(), 2);
    assert_eq!(store.get("a"), Some(&"1".to_string()));
    assert_eq!(store.get("c"), Some(&"3".to_string()));
    assert!(store.get("b").is_none());
    assert!(store.remove("b").is_none());
}
