use dag_engine::auth::{auth_step, read_token_response, token_expiry, AuthStep};
use dag_engine::rate_limit::{client_key, limit_outcome, rate_limit_headers, RateLimitResult};
use dag_engine::rest::{AuthConfig, RestConnectorError};
use dag_engine::scheduler::{next_fire_time, ScheduleBook, CRON_CLOCK_LIMIT};
use dag_engine::webhook::{extract_json_value, request_variables, WebhookConfig, WebhookRegistry};
use dag_engine::workflow::{Workflow, WorkflowSchedule};

#[test]
fn schedule_added_listed_and_removed() {
    let mut book = ScheduleBook::new();
    let wf = Workflow::new("nightly".to_string());
    let wf_id = wf.metadata.id;
    let id = book.add_schedule(wf, WorkflowSchedule::new("0 0 * * * *".to_string())).unwrap();
    let rec = book.get_schedule(id).unwrap();
    assert_eq!(rec.workflow_id, wf_id);
    assert_eq!(rec.active_runs, 0);
    assert_eq!(book.list_schedules().len(), 1);
    assert!(book.remove_schedule(id));
    assert!(!book.remove_schedule(id));
    assert!(book.get_schedule(id).is_none());
}

#[test]
fn invalid_cron_is_refused() {
    let mut book = ScheduleBook::new();
    let r = book.add_schedule(Workflow::new("w".to_string()), WorkflowSchedule::new("not a cron".to_string()));
    let err = r.unwrap_err();
    assert!(err.starts_with("Invalid cron expression: "));
    assert!(err.len() > "Invalid cron expression: ".len());
    assert!(book.list_schedules().is_empty());
}

#[test]
fn due_runs_start_and_finish() {
    let mut book = ScheduleBook::new();
    let mut cfg = WorkflowSchedule::new("0 0 * * * *".to_string());
    cfg.max_concurrent_runs = Some(1);
    let id = book.add_parsed(Workflow::new("w".to_string()), cfg, 77, Some(1_000)).unwrap();
    assert_eq!(id, 77);
    assert!(book.due_at(999).is_empty());
    assert_eq!(book.due_at(1_000), vec![77]);
    assert!(book.start_run_at(77, 1_000, Some(5_000)).is_some());
    let rec = book.get_schedule(77).unwrap();
    assert_eq!((rec.active_runs, rec.last_run, rec.next_run), (1, Some(1_000), 5_000));
    // The concurrency limit is reached.
    assert!(book.start_run_at(77, 6_000, None).is_none());
    book.finish_run(77, true);
    book.finish_run(77, false);
    let rec = book.get_schedule(77).unwrap();
    assert_eq!((rec.active_runs, rec.successful_runs, rec.failed_runs), (0, 1, 1));
    assert!(book.start_run_at(77, 6_000, None).is_some());
    assert_eq!(book.get_schedule(77).unwrap().next_run, 6_000 + 3_600_000);
    book.start();
    assert!(book.is_running());
    book.stop();
    assert!(!book.is_running());
}

#[test]
fn a_started_schedule_is_no_longer_due_and_its_counts_add_up() {
    let mut book = ScheduleBook::new();
    let cfg = WorkflowSchedule::new("0 0 * * * *".to_string());
    book.add_parsed(Workflow::new("w".to_string()), cfg, 9, Some(500)).unwrap();
    assert_eq!(book.due_at(1_000), vec![9]);
    assert!(book.start_run_at(9, 1_000, Some(3_600_000)).is_some());
    assert!(book.due_at(1_000).is_empty());
    book.finish_run(9, false);
    let rec = book.get_schedule(9).unwrap();
    assert_eq!(rec.active_runs, 0);
    assert_eq!(rec.successful_runs + rec.failed_runs, 1);
    let mut off = WorkflowSchedule::new("0 0 * * * *".to_string());
    off.enabled = false;
    book.add_parsed(Workflow::new("v".to_string()), off, 10, Some(500)).unwrap();
    assert!(book.start_run_at(10, 1_000, None).is_none());
    assert_eq!(book.get_schedule(10).unwrap().last_run, None);
}

#[test]
fn no_upcoming_time() {
    let mut book = ScheduleBook::new();
    let r = book.add_parsed(Workflow::new("w".to_string()), WorkflowSchedule::new("x".to_string()), 1, None);
    assert_eq!(r, Err("No upcoming schedule found".to_string()));
}

#[test]
fn repeated_identifier_replaces_the_schedule() {
    let mut book = ScheduleBook::new();
    book.add_parsed(Workflow::new("a".to_string()), WorkflowSchedule::new("0 0 * * * *".to_string()), 5, Some(1_000)).unwrap();
    book.add_parsed(Workflow::new("b".to_string()), WorkflowSchedule::new("0 0 * * * *".to_string()), 6, Some(2_000)).unwrap();
    book.add_parsed(Workflow::new("c".to_string()), WorkflowSchedule::new("0 0 * * * *".to_string()), 5, Some(3_000)).unwrap();
    let ids: Vec<u128> = book.list_schedules().iter().map(|r| r.schedule_id).collect();
    assert_eq!(ids, vec![6, 5]);
    assert_eq!(book.get_schedule(5).unwrap().next_run, 3_000);
}

#[test]
fn next_firing_time_is_none_past_the_clock_limit() {
    assert_eq!(next_fire_time("0 0 * * * *", i64::MAX), None);
    assert_eq!(next_fire_time("0 0 * * * *", CRON_CLOCK_LIMIT + 1), None);
    assert_eq!(next_fire_time("0 0 * * * *", 0), Some(3_600_000));
}

fn hook(secret: Option<&str>) -> WebhookConfig {
    let c = WebhookConfig::new_with("Test Webhook".to_string(), 5, 1, 0)
        .with_header("X-User-ID".to_string(), "user_id".to_string())
        .with_payload("user.email".to_string(), "email".to_string());
    match secret {
        Some(s) => c.with_secret(s.to_string()),
        None => c,
    }
}

#[test]
fn signature_hex_or_base64() {
    let c = hook(Some("secret"));
    let tag_hex = "88aab3ede8d3adf94d26ab90d3bafd4a2083070c3bcce9c014ee04a443847c0b";
    let tag_b64 = "iKqz7ejTrflNJquQ07r9SiCDBww7zOnAFO4EpEOEfAs=";
    assert!(c.verify_signature(b"hello", tag_hex));
    assert!(c.verify_signature(b"hello", &tag_hex.to_uppercase()));
    assert!(c.verify_signature(b"hello", tag_b64));
    assert!(!c.verify_signature(b"hello!", tag_hex));
    assert!(!c.verify_signature(b"hello", "zz"));
    assert!(hook(None).verify_signature(b"anything", "x"));
}

#[test]
fn payload_paths() {
    let p = "{\"user\": {\"email\": \"a@b.c\", \"age\": 30, \"tags\": [1]}}";
    assert_eq!(extract_json_value(p, "user.email"), Some("a@b.c".to_string()));
    assert_eq!(extract_json_value(p, "user.age"), Some("30".to_string()));
    assert_eq!(extract_json_value(p, "user.tags"), Some("[1]".to_string()));
    assert_eq!(extract_json_value(p, "user.name"), None);
}

#[test]
fn request_variables_from_headers_and_payload() {
    let c = hook(None);
    let headers = vec![("X-User-ID".to_string(), "u1".to_string())];
    let v = request_variables(&c, &headers, "{\"user\": {\"email\": \"a@b.c\"}}");
    assert_eq!(v, vec![("user_id".to_string(), "u1".to_string()), ("email".to_string(), "a@b.c".to_string())]);
}

#[test]
fn webhook_triggers() {
    let mut reg = WebhookRegistry::new();
    let id = reg.register(hook(Some("secret")), Workflow::new("w".to_string()));
    assert_eq!(id, 1);
    let payload = "{\"a\": 1}".to_string();
    assert_eq!(
        reg.trigger_at(2, vec![], payload.clone(), None, 10, 3).unwrap_err(),
        "Webhook not found".to_string()
    );
    assert_eq!(
        reg.trigger_at(1, vec![], payload.clone(), None, 10, 3).unwrap_err(),
        "Signature required but not provided".to_string()
    );
    assert_eq!(
        reg.trigger_at(1, vec![], payload.clone(), Some("00".to_string()), 10, 3).unwrap_err(),
        "Invalid signature".to_string()
    );
    let sig = "aa9e2e3575f5d7098b6caccd790888c36d5fdb63342a73bada2d6a51747a8494".to_string();
    let t = reg.trigger_at(1, vec![], payload, Some(sig), 10, 3).unwrap();
    assert!(t.success);
    assert_eq!(t.execution_id, Some(3));
    assert_eq!(reg.get_triggers(Some(1)).len(), 1);
    assert_eq!(reg.get_triggers(Some(2)).len(), 0);
    assert_eq!(reg.webhooks[0].0.trigger_count, 1);
    assert_eq!(reg.webhooks[0].0.last_triggered, Some(10));
    assert!(reg.unregister(1));
    assert!(!reg.unregister(1));
}

#[test]
fn triggers_are_listed_per_webhook_and_recorded_as_returned() {
    let mut reg = WebhookRegistry::new();
    reg.register(WebhookConfig::new_with("one".to_string(), 5, 1, 0), Workflow::new("w".to_string()));
    reg.register(WebhookConfig::new_with("two".to_string(), 6, 2, 0), Workflow::new("v".to_string()));
    let a = reg.trigger_at(1, vec![], "{}".to_string(), None, 10, 7).unwrap();
    reg.trigger_at(2, vec![], "{}".to_string(), None, 11, 8).unwrap();
    reg.trigger_at(1, vec![], "{\"k\": 1}".to_string(), None, 12, 9).unwrap();
    let mine = reg.get_triggers(Some(1));
    assert_eq!(mine.len(), 2);
    assert_eq!((mine[0].triggered_at, mine[0].execution_id), (10, Some(7)));
    assert_eq!((mine[1].triggered_at, mine[1].payload.as_str()), (12, "{\"k\": 1}"));
    assert_eq!(mine[0].payload, a.payload);
    let all = reg.get_triggers(None);
    assert_eq!(all.iter().map(|t| t.webhook_id).collect::<Vec<_>>(), vec![1, 2, 1]);
    assert_eq!(reg.webhooks[0].0.trigger_count, 2);
    assert_eq!(reg.webhooks[1].0.trigger_count, 1);
    assert_eq!(reg.webhooks[1].0.last_triggered, Some(11));
    assert_eq!(reg.webhooks[1].0.name, "two");
    reg.cleanup_triggers_at(i64::MAX, 0);
    assert_eq!(reg.get_triggers(None).len(), 3);
    reg.cleanup_triggers_at(0, 11);
    assert_eq!(reg.get_triggers(None).len(), 1);
}

#[test]
fn disabled_webhook_refuses() {
    let mut reg = WebhookRegistry::new();
    let mut c = hook(None);
    c.enabled = false;
    reg.register(c, Workflow::new("w".to_string()));
    assert_eq!(reg.trigger_at(1, vec![], "{}".to_string(), None, 0, 0).unwrap_err(), "Webhook is disabled");
}

#[test]
fn auth_steps() {
    assert_eq!(auth_step(&AuthConfig::NoAuth, &None, 0), AuthStep::Unchanged);
    assert_eq!(auth_step(&AuthConfig::bearer("t"), &None, 0), AuthStep::Bearer("t".to_string()));
    let key = AuthConfig::ApiKey { key: "k".to_string(), value: "v".to_string(), in_header: false };
    assert_eq!(auth_step(&key, &None, 0), AuthStep::Query("k".to_string(), "v".to_string()));
    assert_eq!(auth_step(&AuthConfig::api_key("X-API-Key", "s"), &None, 0), AuthStep::Header("X-API-Key".to_string(), "s".to_string()));
    let oauth = AuthConfig::OAuth2 {
        client_id: "cid".to_string(),
        client_secret: "cs".to_string(),
        token_url: "https://auth/token".to_string(),
        scopes: vec!["read".to_string(), "write".to_string()],
    };
    let cached = Some(("tok".to_string(), 100));
    assert_eq!(auth_step(&oauth, &cached, 99), AuthStep::Bearer("tok".to_string()));
    match auth_step(&oauth, &cached, 100) {
        AuthStep::FetchToken { token_url, form } => {
            assert_eq!(token_url, "https://auth/token");
            assert_eq!(form[3], ("scope".to_string(), "read write".to_string()));
            assert_eq!(form[0], ("grant_type".to_string(), "client_credentials".to_string()));
        },
        other => panic!("unexpected {:?}", other),
    }
}

#[test]
fn token_responses() {
    assert_eq!(
        read_token_response("{\"access_token\": \"abc\", \"expires_in\": 120}").unwrap(),
        ("abc".to_string(), 120)
    );
    assert_eq!(read_token_response("{\"access_token\": \"abc\"}").unwrap(), ("abc".to_string(), 3600));
    assert_eq!(
        read_token_response("{\"token\": 1}"),
        Err(RestConnectorError::AuthenticationFailed("No access_token in response".to_string()))
    );
    assert_eq!(token_expiry(1_000, 120), 61_000);
}

#[test]
fn rate_limit_answers() {
    assert_eq!(limit_outcome(5, 60, true, 4), RateLimitResult::Allowed { limit: 5, remaining: 4, reset: 60 });
    let refused = limit_outcome(5, 60, false, 0);
    assert_eq!(refused, RateLimitResult::RateLimited { limit: 5, retry_after: 60 });
    assert_eq!(rate_limit_headers(refused), vec![("Retry-After".to_string(), "60".to_string())]);
    let h = rate_limit_headers(RateLimitResult::Allowed { limit: 100, remaining: 99, reset: 60 });
    assert_eq!(h[1], ("X-RateLimit-Remaining".to_string(), "99".to_string()));
}

#[test]
fn client_keys() {
    assert_eq!(client_key(Some(" 1.2.3.4 , 5.6.7.8"), Some("9.9.9.9"), None), "1.2.3.4");
    assert_eq!(client_key(Some("1.2.3.4"), None, None), "1.2.3.4");
    assert_eq!(client_key(None, Some("9.9.9.9"), Some("7.7.7.7".to_string())), "9.9.9.9");
    assert_eq!(client_key(None, None, Some("7.7.7.7".to_string())), "7.7.7.7");
    assert_eq!(client_key(None, None, None), "unknown");
}

#[test]
fn next_run_follows_the_cron_expression() {
    let mut book = ScheduleBook::new();
    let id = book.add_schedule(Workflow::new("w".to_string()), WorkflowSchedule::new("0 0 * * * *".to_string())).unwrap();
    // At the top of every hour: the first firing after the epoch is one hour later.
    assert_eq!(book.upcoming_at(id, 0), Some(3_600_000));
    assert_eq!(book.upcoming_at(id, 3_600_000), Some(7_200_000));
    let first = book.get_schedule(id).unwrap().next_run;
    assert_eq!(first % 3_600_000, 0);
    assert!(book.start_run(id).is_some());
    let rec = book.get_schedule(id).unwrap();
    assert_eq!(rec.active_runs, 1);
    let last = rec.last_run.unwrap();
    assert!(rec.next_run > last);
    assert_eq!(rec.next_run % 3_600_000, 0);
}
