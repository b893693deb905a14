use dag_engine::template::{ParameterType, ParameterValidation, TemplateParameter, WorkflowTemplate};

#[test]
fn test_template_creation() {
    let workflow_json = r#"{"metadata": {"name": "{{workflow_name}}"}}"#;
    let mut template = WorkflowTemplate::new("Test Template".to_string(), workflow_json.to_string());

    template.add_parameter(
        TemplateParameter::string("workflow_name", "Workflow Name")
            .required()
            .with_description("Name of the workflow"),
    );

    assert_eq!(template.name, "Test Template");
    assert_eq!(template.parameters.len(), 1);
    assert!(template.parameters[0].required);
}

#[test]
fn test_placeholder_extraction() {
    let workflow_json = r#"{"name": "{{name}}", "model": "{{model}}", "temp": {{temperature}}}"#;
    let template = WorkflowTemplate::new("Test".to_string(), workflow_json.to_string());

    let placeholders = template.extract_placeholders();

    assert_eq!(placeholders.len(), 3);
    assert!(placeholders.contains(&"name".to_string()));
    assert!(placeholders.contains(&"model".to_string()));
    assert!(placeholders.contains(&"temperature".to_string()));
}

#[test]
fn test_parameter_validation() {
    let mut template = WorkflowTemplate::new("Test".to_string(), "{}".to_string());
    template.add_parameter(TemplateParameter::integer("count", "Count").required().with_validation(
        ParameterValidation { min: Some("1.0".to_string()), max: Some("100.0".to_string()), ..Default::default() },
    ));

    let values: Vec<(String, String)> = Vec::new();
    assert!(template.validate_parameters(&values).is_err());

    let values = vec![("count".to_string(), "0".to_string())];
    assert!(template.validate_parameters(&values).is_err());

    let values = vec![("count".to_string(), "50".to_string())];
    assert!(template.validate_parameters(&values).is_ok());
}

#[test]
fn test_enum_parameter() {
    let param =
        TemplateParameter::enumeration("provider", "LLM Provider", vec!["openai", "anthropic", "ollama"]).required();

    assert_eq!(param.param_type, ParameterType::Enum);
    assert_eq!(param.allowed_values.len(), 3);
    assert!(param.required);
}

#[test]
fn validation_messages_name_the_rule() {
    let mut t = WorkflowTemplate::new_with(1, "T".to_string(), "{}".to_string(), 0);
    t.add_parameter(TemplateParameter::integer("count", "Count").required().with_validation(ParameterValidation {
        min: Some("1.0".to_string()),
        max: Some("100.5".to_string()),
        ..Default::default()
    }));
    t.add_parameter(TemplateParameter::string("title", "Title").with_validation(ParameterValidation {
        min_length: Some(3),
        max_length: Some(5),
        ..Default::default()
    }));
    t.add_parameter(TemplateParameter::enumeration("provider", "Provider", vec!["openai", "ollama"]));

    assert_eq!(
        t.validate_parameters(&vec![]),
        Err(vec!["Required parameter 'count' is missing".to_string()])
    );
    let values = vec![
        ("count".to_string(), "0".to_string()),
        ("title".to_string(), "\"ab\"".to_string()),
        ("provider".to_string(), "\"other\"".to_string()),
    ];
    assert_eq!(
        t.validate_parameters(&values),
        Err(vec![
            "Parameter 'count' must be >= 1".to_string(),
            "Parameter 'title' must be at least 3 characters".to_string(),
            "Parameter 'provider' must be one of: [String(\"openai\"), String(\"ollama\")]".to_string(),
        ])
    );
    let values = vec![
        ("count".to_string(), "101".to_string()),
        ("title".to_string(), "\"abcdef\"".to_string()),
        ("provider".to_string(), "\"ollama\"".to_string()),
    ];
    assert_eq!(
        t.validate_parameters(&values),
        Err(vec![
            "Parameter 'count' must be <= 100.5".to_string(),
            "Parameter 'title' must be at most 5 characters".to_string(),
        ])
    );
    let values = vec![("count".to_string(), "\"seven\"".to_string())];
    assert_eq!(
        t.validate_parameters(&values),
        Err(vec!["Parameter 'count' has invalid type, expected Integer".to_string()])
    );
}

#[test]
fn instantiation_fills_placeholders() {
    let mut t = WorkflowTemplate::new_with(
        1,
        "T".to_string(),
        r#"{"name": "{{name}}", "temp": {{temp}}, "n": {{n}}}"#.to_string(),
        0,
    );
    t.add_parameter(TemplateParameter::string("name", "Name").required());
    t.add_parameter(TemplateParameter::string("temp", "Temp").with_default("0.7".to_string()));
    t.add_parameter(TemplateParameter::integer("n", "N"));
    let text = t.instantiate_text(&vec![("name".to_string(), "\"flow\"".to_string())]).unwrap();
    assert_eq!(text, r#"{"name": "flow", "temp": 0.7, "n": }"#);
    assert_eq!(
        t.instantiate_text(&vec![]),
        Err("Parameter validation failed: Required parameter 'name' is missing".to_string())
    );
}

#[test]
fn placeholders_are_trimmed_and_listed_once() {
    let t = WorkflowTemplate::new_with(1, "T".to_string(), "{{ a }} {{b}} {{a}} {{  }} {{c".to_string(), 0);
    assert_eq!(t.extract_placeholders(), vec!["a".to_string(), "b".to_string()]);
    let short = WorkflowTemplate::new_with(1, "T".to_string(), "{{}".to_string(), 0);
    assert!(short.extract_placeholders().is_empty());
}

#[test]
fn parameter_builders_set_their_field() {
    let p = TemplateParameter::model("m", "Model").in_group("llm").with_order(3).with_default("\"gpt\"".to_string());
    assert_eq!(p.param_type, ParameterType::Model);
    assert_eq!(p.group, Some("llm".to_string()));
    assert_eq!(p.order, 3);
    assert_eq!(p.default_value, Some("\"gpt\"".to_string()));
    let b = TemplateParameter::boolean("flag", "Flag");
    assert_eq!(b.param_type, ParameterType::Boolean);
    assert!(!b.required);
    let e = TemplateParameter::enumeration("x", "X", vec!["a"]);
    assert_eq!(e.allowed_values, vec!["\"a\"".to_string()]);
}
