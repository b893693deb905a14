use dag_engine::rest::{substitute_variables, AuthConfig, HeaderInjectionInterceptor, RateLimitConfig, RateLimiterState, RestConfig};
use dag_engine::rest_response::{
    read_response, substitute_json_variables, GraphQLQuery, RequestTemplate, ResponseCache, RestResponse,
};
use dag_engine::rest::RestConnectorError;

fn vars(items: &[(&str, &str)]) -> Vec<(String, String)> {
    items.iter().map(|(k, v)| (k.to_string(), v.to_string())).collect()
}

#[test]
fn test_rest_config_builder() {
    let config = RestConfig::new("https://api.example.com")
        .with_auth(AuthConfig::bearer("token123"))
        .with_timeout_secs(60)
        .with_retry(3)
        .with_rate_limit(100, 60)
        .with_cache(300);
    assert_eq!(config.base_url, "https://api.example.com");
    assert_eq!(config.timeout_secs, 60);
    assert!(config.retry.is_some());
    assert!(config.rate_limit.is_some());
    assert!(config.enable_cache);
}

#[test]
fn test_request_template() {
    let template = RequestTemplate::get("/users/{{user_id}}").with_query("limit", "10");
    let v = vars(&[("user_id", "\"123\"")]);
    let (path, _, _) = template.render(&v);
    assert_eq!(path, "/users/123");
}

#[test]
fn test_variable_substitution() {
    let v = vars(&[("name", "\"John\""), ("age", "30")]);
    let template = "Hello {{name}}, you are {{age}} years old";
    assert_eq!(substitute_variables(template, &v), "Hello John, you are 30 years old");
}

#[test]
fn test_json_variable_substitution() {
    let v = vars(&[("name", "\"John\""), ("age", "30")]);
    let body = r#"{"name": "{{name}}", "age": "{{age}}", "items": ["{{name}}", "test"]}"#;
    let result_text = substitute_json_variables(body, &v, body.len());
    let result: serde_json::Value = serde_json::from_str(&result_text).unwrap();
    assert_eq!(result["name"], "John");
    assert_eq!(result["items"][0], "John");
    assert_eq!(result["age"], 30);
}

#[test]
fn test_rate_limiter() {
    let config = RateLimitConfig { max_requests: 2, window_secs: 60 };
    let mut limiter = RateLimiterState::new();
    assert!(limiter.can_make_request(&config));
    limiter.record_request();
    assert!(limiter.can_make_request(&config));
    limiter.record_request();
    assert!(!limiter.can_make_request(&config));
}

#[test]
fn test_rest_response() {
    let response = RestResponse {
        status: 200,
        headers: Vec::new(),
        body: r#"{"user": {"name": "John", "email": "john@example.com"}}"#.to_string(),
        response_time_ms: 100,
        from_cache: false,
    };
    assert!(response.is_success());
    assert_eq!(response.get("user.name").unwrap(), "\"John\"");
    assert_eq!(response.get("user.age"), None);
}

#[test]
fn test_cache_key_generation() {
    let config = RestConfig::new("https://api.example.com");
    let key1 = config.cache_key("/users", &None);
    assert_eq!(key1, "https://api.example.com:/users");
    let params = vars(&[("page", "1"), ("limit", "10")]);
    let key2 = config.cache_key("/users", &Some(params));
    assert!(key2.contains("limit=10"));
    assert!(key2.contains("page=1"));
    assert_eq!(key2, "https://api.example.com:/users&limit=10&page=1");
}

#[test]
fn test_graphql_query_builder() {
    let query = GraphQLQuery::new("query { users { id name } }").with_operation("GetUsers").with_variable("limit", "10".to_string());
    assert_eq!(query.query, "query { users { id name } }");
    assert_eq!(query.operation_name, Some("GetUsers".to_string()));
    assert!(query.variables.is_some());
    let v = query.variables.unwrap();
    assert_eq!(v.iter().find(|(k, _)| k == "limit").map(|(_, x)| x.clone()), Some("10".to_string()));
}

#[test]
fn test_graphql_query_with_variables() {
    let v = vars(&[("id", "\"123\""), ("status", "\"active\"")]);
    let query = GraphQLQuery::new("query($id: ID!, $status: String) { user(id: $id, status: $status) { name } }")
        .with_variables(v.clone());
    assert!(query.variables.is_some());
    assert_eq!(query.variables.as_ref().unwrap().len(), 2);
}

#[test]
fn test_header_injection_interceptor() {
    let interceptor = HeaderInjectionInterceptor::new(vars(&[("X-Custom-Header", "value123")]));
    let mut request_headers: Vec<(String, String)> = Vec::new();
    interceptor.inject(&mut request_headers);
    assert_eq!(
        request_headers.iter().find(|(k, _)| k == "X-Custom-Header").map(|(_, v)| v.clone()),
        Some("value123".to_string())
    );
}

#[test]
fn replies_are_read_as_the_connector_reads_them() {
    let ok = read_response(200, vec![], "{ \"a\" : 1 }", 7).unwrap();
    assert_eq!(ok.body, "{\"a\":1}");
    assert_eq!(ok.response_time_ms, 7);
    assert!(!ok.from_cache);
    assert_eq!(read_response(204, vec![], "", 1).unwrap().body, "null");
    assert_eq!(read_response(200, vec![], "plain text", 1).unwrap().body, "{\"raw\":\"plain text\"}");
    match read_response(404, vec![], "{\"message\": \"no such user\"}", 1) {
        Err(RestConnectorError::HttpError { status, message }) => {
            assert_eq!(status, 404);
            assert_eq!(message, "no such user");
        },
        other => panic!("unexpected {:?}", other),
    }
    match read_response(500, vec![], "{\"error\": \"boom\"}", 1) {
        Err(RestConnectorError::HttpError { message, .. }) => assert_eq!(message, "boom"),
        other => panic!("unexpected {:?}", other),
    }
    match read_response(502, vec![], "{\"message\": 3, \"error\": \"x\"}", 1) {
        Err(RestConnectorError::HttpError { message, .. }) => assert_eq!(message, "Unknown error"),
        other => panic!("unexpected {:?}", other),
    }
}

#[test]
fn cache_keeps_replies_until_they_expire() {
    let mut cache = ResponseCache::new();
    cache.insert_at("k".to_string(), "{\"v\":1}".to_string(), 1_000, 2);
    assert_eq!(cache.get_at("k", 2_999), Some("{\"v\":1}".to_string()));
    assert_eq!(cache.get_at("k", 3_000), None);
    assert_eq!(cache.get_at("other", 1_500), None);
    cache.insert_at("k".to_string(), "{\"v\":2}".to_string(), 5_000, 1);
    assert_eq!(cache.entries.len(), 1);
    assert_eq!(cache.get_at("k", 5_500), Some("{\"v\":2}".to_string()));
    cache.insert_at("j".to_string(), "0".to_string(), 5_000, 10);
    assert_eq!(cache.stats_at(6_500), (2, 1));
    cache.clear();
    assert_eq!(cache.stats_at(0), (0, 0));
}

#[test]
fn template_renders_body_and_query() {
    let t = RequestTemplate::post("/items/{{id}}", r#"{"count": "{{n}}", "tags": ["{{tag}}", "x"]}"#.to_string())
        .with_query("q", "{{tag}}-all")
        .with_header("X-Req", "1");
    let v = vars(&[("id", "7"), ("n", "3"), ("tag", "\"red\"")]);
    let (path, body, params) = t.render(&v);
    assert_eq!(path, "/items/7");
    assert_eq!(body, Some("{\"count\":3,\"tags\":[\"red\",\"x\"]}".to_string()));
    assert_eq!(params, vars(&[("q", "red-all")]));
    assert_eq!(t.method, "POST");
}
