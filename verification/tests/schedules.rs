use dag_engine::schedule::{ScheduleExecution, StoredSchedule};
use uuid::Uuid;

fn now_ms() -> i64 {
    chrono::Utc::now().timestamp_millis()
}

#[test]
fn test_schedule_creation() {
    let workflow_id = Uuid::new_v4().as_u128();
    let schedule = StoredSchedule::new(workflow_id, "Daily Report".to_string(), "0 0 * * *".to_string());

    assert_eq!(schedule.workflow_id, workflow_id);
    assert_eq!(schedule.name, "Daily Report");
    assert_eq!(schedule.cron, "0 0 * * *");
    assert!(schedule.enabled);
    assert_eq!(schedule.run_count, 0);
}

#[test]
fn test_schedule_validation() {
    let mut schedule = StoredSchedule::new(Uuid::new_v4().as_u128(), "Test".to_string(), "0 0 * * *".to_string());

    assert!(schedule.validate().is_ok());

    schedule.cron = "0 0 *".to_string();
    assert!(schedule.validate().is_err());

    schedule.cron = "0 0 0 * * *".to_string();
    assert!(schedule.validate().is_ok());
}

#[test]
fn test_should_run() {
    let mut schedule = StoredSchedule::new(Uuid::new_v4().as_u128(), "Test".to_string(), "0 0 * * *".to_string());

    schedule.enabled = false;
    assert!(!schedule.should_run());

    schedule.enabled = true;
    assert!(!schedule.should_run());

    schedule.max_runs = Some(5);
    schedule.run_count = 5;
    schedule.next_run = Some(now_ms());
    assert!(!schedule.should_run());

    schedule.max_runs = None;
    schedule.run_count = 0;
    schedule.expires_at = Some(now_ms() - 3_600_000);
    assert!(!schedule.should_run());
}

#[test]
fn test_mark_executed() {
    let mut schedule = StoredSchedule::new(Uuid::new_v4().as_u128(), "Test".to_string(), "0 0 * * *".to_string());

    assert_eq!(schedule.run_count, 0);
    assert!(schedule.last_run.is_none());

    schedule.mark_executed();

    assert_eq!(schedule.run_count, 1);
    assert!(schedule.last_run.is_some());
}

#[test]
fn due_schedule_runs_once_its_time_has_come() {
    let mut s = StoredSchedule::new_with(1, 2, "n".to_string(), "* * * * *".to_string(), 0);
    s.next_run = Some(1_000);
    assert!(!s.should_run_at(999));
    assert!(s.should_run_at(1_000));
    s.expires_at = Some(1_500);
    assert!(s.should_run_at(1_500));
    assert!(!s.should_run_at(1_501));
    s.mark_executed_at(1_200);
    assert_eq!(s.last_run, Some(1_200));
    assert_eq!(s.run_count, 1);
}

#[test]
fn validation_messages() {
    let mut s = StoredSchedule::new_with(1, 2, "n".to_string(), "  0 0\t* *  ".to_string(), 0);
    assert_eq!(
        s.validate(),
        Err("Invalid cron expression '  0 0\t* *  ': must have 5 or 6 parts".to_string())
    );
    s.cron = " 0  0 * * * ".to_string();
    assert_eq!(s.validate(), Ok(()));
    s.timezone = String::new();
    assert_eq!(s.validate(), Err("Timezone cannot be empty".to_string()));
}

#[test]
fn execution_record_starts_unsuccessful() {
    let r = ScheduleExecution::new_at(3, 4, 5, 77);
    assert_eq!((r.id, r.schedule_id, r.execution_id, r.triggered_at), (3, 4, 5, 77));
    assert!(!r.success);
    assert!(r.error.is_none() && r.duration_ms.is_none());
    let fresh = ScheduleExecution::new(4, 5);
    assert_eq!(fresh.schedule_id, 4);
}
