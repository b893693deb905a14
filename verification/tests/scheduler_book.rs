use dag_engine::node::{Node, NodeKind};
use dag_engine::scheduler::ScheduleBook;
use dag_engine::workflow::{Edge, Workflow, WorkflowMetadata, WorkflowSchedule};

fn two_node_workflow() -> Workflow {
    let start = Node::new("Start".to_string(), NodeKind::Start);
    let end = Node::new("End".to_string(), NodeKind::End);
    Workflow {
        metadata: WorkflowMetadata::new("Test Workflow".to_string()),
        nodes: vec![start.clone(), end.clone()],
        edges: vec![Edge::new(start.id, end.id)],
    }
}

fn schedule(cron: &str, max: Option<u32>) -> WorkflowSchedule {
    WorkflowSchedule {
        cron: cron.to_string(),
        timezone: "UTC".to_string(),
        enabled: true,
        max_concurrent_runs: max,
        retry_on_failure: false,
        start_date: None,
        end_date: None,
    }
}

#[test]
fn test_add_schedule() {
    let mut scheduler = ScheduleBook::new();
    let result = scheduler.add_schedule(two_node_workflow(), schedule("0 0 0 * * *", Some(1)));
    assert!(result.is_ok());
    let schedules = scheduler.list_schedules();
    assert_eq!(schedules.len(), 1);
}

#[test]
fn test_invalid_cron() {
    let mut scheduler = ScheduleBook::new();
    let result = scheduler.add_schedule(two_node_workflow(), schedule("invalid cron", None));
    assert!(result.is_err());
}

#[test]
fn test_remove_schedule() {
    let mut scheduler = ScheduleBook::new();
    let schedule_id = scheduler.add_schedule(two_node_workflow(), schedule("0 0 0 * * *", None)).unwrap();
    assert_eq!(scheduler.list_schedules().len(), 1);
    let removed = scheduler.remove_schedule(schedule_id);
    assert!(removed);
    assert_eq!(scheduler.list_schedules().len(), 0);
}
