use dag_engine::json_schema::{JsonSchema, WorkflowSchemaGenerator};

fn has_key(props: &Vec<(String, JsonSchema)>, key: &str) -> bool {
    props.iter().any(|(k, _)| k == key)
}

#[test]
fn test_create_basic_schema() {
    let schema = JsonSchema::string();
    assert_eq!(schema.schema_type, "string");
    assert_eq!(schema.schema, "https://json-schema.org/draft/2020-12/schema");
}

#[test]
fn test_create_object_schema() {
    let mut schema = JsonSchema::object();
    schema.add_property("name".to_string(), JsonSchema::string());
    schema.add_required("name".to_string());
    assert_eq!(schema.schema_type, "object");
    assert!(schema.properties.is_some());
    assert_eq!(schema.properties.as_ref().unwrap().len(), 1);
    assert_eq!(schema.required.as_ref().unwrap().len(), 1);
}

#[test]
fn test_create_array_schema() {
    let schema = JsonSchema::array(JsonSchema::string());
    assert_eq!(schema.schema_type, "array");
    assert!(schema.items.is_some());
}

#[test]
fn test_enum_schema() {
    let schema = JsonSchema::string().with_enum(vec![
        "\"option1\"".to_string(),
        "\"option2\"".to_string(),
        "\"option3\"".to_string(),
    ]);
    assert!(schema.enum_values.is_some());
    assert_eq!(schema.enum_values.as_ref().unwrap().len(), 3);
}

#[test]
fn test_generate_workflow_schema() {
    let generator = WorkflowSchemaGenerator::new();
    let schema = generator.generate_workflow_schema();
    assert_eq!(schema.schema_type, "object");
    assert!(schema.properties.is_some());
    assert!(schema.required.is_some());
    let props = schema.properties.as_ref().unwrap();
    assert!(has_key(props, "id"));
    assert!(has_key(props, "metadata"));
    assert!(has_key(props, "nodes"));
    assert!(has_key(props, "edges"));
    let required = schema.required.as_ref().unwrap();
    assert!(required.contains(&"id".to_string()));
    assert!(required.contains(&"metadata".to_string()));
    assert!(required.contains(&"nodes".to_string()));
    assert!(required.contains(&"edges".to_string()));
}

#[test]
fn test_node_kind_schema() {
    let generator = WorkflowSchemaGenerator::new();
    let schema = generator.generate_node_kind_schema();
    assert_eq!(schema.schema_type, "string");
    assert!(schema.enum_values.is_some());
    let enums = schema.enum_values.as_ref().unwrap();
    assert!(enums.contains(&"\"Start\"".to_string()));
    assert!(enums.contains(&"\"End\"".to_string()));
    assert!(enums.contains(&"\"LLM\"".to_string()));
}

#[test]
fn test_metadata_schema() {
    let generator = WorkflowSchemaGenerator::new();
    let schema = generator.generate_metadata_schema();
    assert_eq!(schema.schema_type, "object");
    let props = schema.properties.as_ref().unwrap();
    assert!(has_key(props, "name"));
    assert!(has_key(props, "version"));
    assert!(has_key(props, "created_at"));
    assert!(has_key(props, "updated_at"));
}

#[test]
fn test_reference_schema() {
    let schema = JsonSchema::reference("#/$defs/ScriptConfig");
    assert!(schema.reference.is_some());
    assert_eq!(schema.reference.unwrap(), "#/$defs/ScriptConfig");
}

#[test]
fn test_schema_with_pattern() {
    let schema = JsonSchema::string().with_pattern("^[a-zA-Z0-9_-]+$".to_string());
    assert!(schema.pattern.is_some());
    assert_eq!(schema.pattern.unwrap(), "^[a-zA-Z0-9_-]+$");
}

#[test]
fn test_schema_with_format() {
    let schema = JsonSchema::string().with_format("uuid".to_string());
    assert!(schema.format.is_some());
    assert_eq!(schema.format.unwrap(), "uuid");
}

#[test]
fn test_schema_definitions() {
    let mut schema = JsonSchema::object();
    schema.add_definition("CustomType".to_string(), JsonSchema::string());
    assert!(schema.definitions.is_some());
    assert_eq!(schema.definitions.as_ref().unwrap().len(), 1);
}

#[test]
fn property_of_same_name_is_replaced() {
    let mut schema = JsonSchema::object();
    schema.add_property("a".to_string(), JsonSchema::string());
    schema.add_property("a".to_string(), JsonSchema::integer());
    let props = schema.properties.as_ref().unwrap();
    assert_eq!(props.len(), 1);
    assert_eq!(props[0].1.schema_type, "integer");
    let quiet = WorkflowSchemaGenerator { include_optional: true, include_examples: false, include_descriptions: false };
    assert!(quiet.generate_edge_schema().description.is_none());
    assert_eq!(
        WorkflowSchemaGenerator::new().generate_edge_schema().description,
        Some("A workflow edge connecting two nodes".to_string())
    );
}
