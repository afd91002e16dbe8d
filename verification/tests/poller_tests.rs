use std::time::{SystemTime, UNIX_EPOCH};

use unet_core::snmp::config::{SessionConfig, SnmpError};
use unet_core::snmp::poller::{
    PollOutcome, PollingConfig, PollingMessage, PollingReply, PollingTask, PollingTasks,
    create_polling_result, process_poll_result, record_poll_result,
};
use unet_core::snmp::values::SnmpValue;
use unet_core::time::Span;

fn now_span() -> Span {
    Span::from_nanos(SystemTime::now().duration_since(UNIX_EPOCH).unwrap().as_nanos())
}

fn create_test_task() -> PollingTask {
    PollingTask::new(
        "192.168.1.1:161".to_string(),
        7,
        vec![
            "1.3.6.1.2.1.1.1.0".to_string(),
            "1.3.6.1.2.1.1.3.0".to_string(),
        ],
        Span::from_secs(300),
        SessionConfig::default(),
    )
}

fn check_polling_task_creation() {
    let node_id = 42u128;
    let oids = vec!["1.3.6.1.2.1.1.1.0".to_string()];
    let interval = Span::from_secs(300);
    let task = PollingTask::new(
        "127.0.0.1:161".to_string(),
        node_id,
        oids.clone(),
        interval,
        SessionConfig::default(),
    );
    assert_eq!(task.target, "127.0.0.1:161");
    assert_eq!(task.node_id, node_id);
    assert_eq!(task.oids, oids);
    assert_eq!(task.interval, interval);
    assert!(task.enabled);
    assert_eq!(task.consecutive_failures, 0);
    assert_eq!(task.priority, 128);
}

#[test]
fn poller_test_polling_task_creation() {
    check_polling_task_creation();
}

#[test]
fn mod_test_polling_task_creation() {
    check_polling_task_creation();
}

fn check_polling_task_health() {
    let mut task = create_test_task();
    assert!(task.is_healthy(Span::from_secs(600)));
    task.last_success = Some(now_span());
    assert!(task.is_healthy(Span::from_secs(600)));
    task.consecutive_failures = 2;
    assert!(task.is_healthy(Span::from_secs(600)));
}

#[test]
fn poller_test_polling_task_health() {
    check_polling_task_health();
}

#[test]
fn mod_test_polling_task_health() {
    check_polling_task_health();
}

#[test]
fn health_at_a_given_time() {
    let mut task = create_test_task();
    task.consecutive_failures = 1;
    assert!(!task.is_healthy_at(Span::from_secs(10), Span::from_secs(100)));
    task.last_success = Some(Span::from_secs(95));
    assert!(task.is_healthy_at(Span::from_secs(10), Span::from_secs(100)));
    assert!(task.is_healthy_at(Span::from_secs(5), Span::from_secs(100)));
    assert!(!task.is_healthy_at(Span::from_secs(4), Span::from_secs(100)));
    // a success recorded after "now" does not count
    assert!(!task.is_healthy_at(Span::from_secs(10), Span::from_secs(90)));
}

#[test]
fn backoff_doubles_up_to_thirty_two_times() {
    let mut task = create_test_task();
    task.interval = Span::from_secs(10);
    assert_eq!(task.backoff_interval(), Span::from_secs(10));
    task.consecutive_failures = 1;
    assert_eq!(task.backoff_interval(), Span::from_secs(20));
    task.consecutive_failures = 3;
    assert_eq!(task.backoff_interval(), Span::from_secs(80));
    task.consecutive_failures = 5;
    assert_eq!(task.backoff_interval(), Span::from_secs(320));
    task.consecutive_failures = 50;
    assert_eq!(task.backoff_interval(), Span::from_secs(320));
    assert_eq!(task.next_poll_time(Span::from_secs(1)), Span::from_secs(321));
}

fn check_polling_config_default() {
    let config = PollingConfig::default();
    assert_eq!(config.default_interval, Span::from_secs(300));
    assert_eq!(config.max_concurrent_polls, 50);
    assert_eq!(config.max_retries, 3);
    assert_eq!(config.poll_timeout, Span::from_secs(30));
    assert_eq!(config.health_check_interval, Span::from_secs(60));
}

#[test]
fn poller_test_polling_config_default() {
    check_polling_config_default();
}

#[test]
fn mod_test_polling_config_default() {
    check_polling_config_default();
}

#[test]
fn test_process_poll_result_success() {
    let mut task = create_test_task();
    let values = vec![
        (
            "1.3.6.1.2.1.1.1.0".to_string(),
            SnmpValue::String("test".to_string()),
        ),
        ("1.3.6.1.2.1.1.3.0".to_string(), SnmpValue::Integer(12345)),
    ];
    let (success, returned_values, error) =
        process_poll_result(PollOutcome::Values(values), &mut task, Span::from_secs(30));
    assert!(success);
    assert!(error.is_none());
    assert_eq!(returned_values.len(), 2);
    assert_eq!(task.consecutive_failures, 0);
    assert!(task.last_success.is_some());
}

#[test]
fn test_process_poll_result_snmp_error() {
    let mut task = create_test_task();
    let outcome = PollOutcome::Failed(SnmpError::Timeout {
        duration: Span::from_secs(5),
    });
    let (success, values, error) = process_poll_result(outcome, &mut task, Span::from_secs(30));
    assert!(!success);
    assert!(error.is_some());
    assert!(values.is_empty());
    assert_eq!(task.consecutive_failures, 1);
    assert_eq!(error, Some("SNMP timeout after 5s".to_string()));
    assert_eq!(task.last_error, error);
}

#[test]
fn test_process_poll_result_timeout_error() {
    let mut task = create_test_task();
    let (success, values, error) =
        process_poll_result(PollOutcome::TimedOut, &mut task, Span::from_secs(30));
    assert!(!success);
    assert!(values.is_empty());
    assert_eq!(error, Some("SNMP poll timeout after 30s".to_string()));
    assert_eq!(task.consecutive_failures, 1);
}

#[test]
fn test_process_poll_result_consecutive_failures() {
    let mut task = create_test_task();
    task.consecutive_failures = 2;
    let outcome = PollOutcome::Failed(SnmpError::Timeout {
        duration: Span::from_secs(5),
    });
    let (success, _values, _error) = process_poll_result(outcome, &mut task, Span::from_secs(30));
    assert!(!success);
    assert_eq!(task.consecutive_failures, 3);
}

#[test]
fn test_process_poll_result_success_resets_failures() {
    let mut task = create_test_task();
    task.consecutive_failures = 5;
    let values = vec![(
        "1.3.6.1.2.1.1.1.0".to_string(),
        SnmpValue::String("success".to_string()),
    )];
    let (success, returned_values, error) = process_poll_result(
        PollOutcome::Values(values.clone()),
        &mut task,
        Span::from_secs(10),
    );
    assert!(success);
    assert_eq!(returned_values, values);
    assert!(error.is_none());
    assert_eq!(task.consecutive_failures, 0);
}

#[test]
fn a_recorded_success_is_stamped_with_the_given_time() {
    let mut task = create_test_task();
    task.last_error = Some("old".to_string());
    let (ok, _, _) = record_poll_result(
        PollOutcome::Values(vec![]),
        &mut task,
        Span::from_secs(1),
        Span::from_secs(77),
    );
    assert!(ok);
    assert_eq!(task.last_success, Some(Span::from_secs(77)));
    assert_eq!(task.last_error, None);
}

fn check_create_polling_result() {
    let task = create_test_task();
    let poll_start = now_span();
    let values = vec![("test_oid".to_string(), SnmpValue::Integer(42))];
    let duration = Span::from_millis(150);
    let result = create_polling_result(&task, poll_start, true, values.clone(), None, duration);
    assert_eq!(result.task_id, task.id);
    assert_eq!(result.node_id, task.node_id);
    assert_eq!(result.target, task.target);
    assert_eq!(result.timestamp, poll_start);
    assert!(result.success);
    assert_eq!(result.values, values);
    assert_eq!(result.error, None);
    assert_eq!(result.duration, duration);
}

#[test]
fn result_creation_tests_test_create_polling_result() {
    check_create_polling_result();
}

#[test]
fn scheduler_test_create_polling_result() {
    check_create_polling_result();
}

#[test]
fn test_create_polling_result_with_error() {
    let task = create_test_task();
    let error = Some("Connection timeout".to_string());
    let result = create_polling_result(
        &task,
        now_span(),
        false,
        vec![],
        error.clone(),
        Span::from_secs(5),
    );
    assert!(!result.success);
    assert!(result.values.is_empty());
    assert_eq!(result.error, error);
}

#[test]
fn test_create_polling_result_with_values() {
    let task = create_test_task();
    let values = vec![
        (
            "1.3.6.1.2.1.1.1.0".to_string(),
            SnmpValue::String("Router".to_string()),
        ),
        ("1.3.6.1.2.1.1.3.0".to_string(), SnmpValue::Integer(12345)),
        ("1.3.6.1.2.1.2.1.0".to_string(), SnmpValue::Integer(42)),
    ];
    let result = create_polling_result(&task, now_span(), true, values.clone(), None, Span::from_millis(1));
    assert_eq!(result.values.len(), 3);
    assert_eq!(result.values, values);
}

fn task_with(id: u128, priority: u8, interval_secs: u64) -> PollingTask {
    let mut t = create_test_task();
    t.id = id;
    t.priority = priority;
    t.interval = Span::from_secs(interval_secs);
    t
}

#[test]
fn messages_add_update_enable_remove_and_read_back() {
    let mut table = PollingTasks::new();
    let (stop, reply) = table.handle_message(PollingMessage::AddTask(task_with(1, 10, 60)));
    assert!(!stop);
    assert!(matches!(reply, PollingReply::NoReply));
    table.handle_message(PollingMessage::AddTask(task_with(2, 20, 60)));
    assert_eq!(table.len(), 2);

    let mut updated = task_with(1, 99, 60);
    updated.target = "10.0.0.1:161".to_string();
    table.handle_message(PollingMessage::UpdateTask(updated));
    assert_eq!(table.len(), 2);
    match table.handle_message(PollingMessage::GetTaskStatus(1)).1 {
        PollingReply::TaskStatus(Some(t)) => {
            assert_eq!(t.priority, 99);
            assert_eq!(t.target, "10.0.0.1:161");
        }
        other => panic!("unexpected reply {other:?}"),
    }

    table.handle_message(PollingMessage::EnableTask(2, false));
    match table.handle_message(PollingMessage::GetTaskStatus(2)).1 {
        PollingReply::TaskStatus(Some(t)) => assert!(!t.enabled),
        other => panic!("unexpected reply {other:?}"),
    }

    table.handle_message(PollingMessage::RemoveTask(1));
    match table.handle_message(PollingMessage::GetTaskStatus(1)).1 {
        PollingReply::TaskStatus(None) => {}
        other => panic!("unexpected reply {other:?}"),
    }
    match table.handle_message(PollingMessage::ListTasks).1 {
        PollingReply::TaskList(v) => {
            assert_eq!(v.len(), 1);
            assert_eq!(v[0].id, 2);
        }
        other => panic!("unexpected reply {other:?}"),
    }
    let (stop, _) = table.handle_message(PollingMessage::Shutdown);
    assert!(stop);
    assert_eq!(table.len(), 1);
}

#[test]
fn enabling_an_unknown_task_changes_nothing() {
    let mut table = PollingTasks::new();
    table.insert(task_with(1, 1, 1));
    table.set_enabled(5, false);
    assert_eq!(table.len(), 1);
    assert!(table.get(1).unwrap().enabled);
    table.remove(5);
    assert_eq!(table.len(), 1);
}

#[test]
fn due_tasks_come_by_priority_in_batches() {
    let mut table = PollingTasks::new();
    table.insert(task_with(1, 10, 0));
    table.insert(task_with(2, 200, 0));
    table.insert(task_with(3, 10, 0));
    table.insert(task_with(4, 50, 60));
    let mut off = task_with(5, 255, 0);
    off.enabled = false;
    table.insert(off);
    let now = Span::from_secs(1000);
    let batches = table.poll_batches(now, now, 2);
    assert_eq!(batches, vec![vec![2, 1], vec![3]]);
    // with a later clock the task with an interval comes due too
    let batches = table.poll_batches(Span::from_secs(1060), now, 10);
    assert_eq!(batches, vec![vec![2, 4, 1, 3]]);
}

#[test]
fn cleanup_keeps_enabled_or_healthy_tasks() {
    let mut table = PollingTasks::new();
    let mut sick = task_with(1, 1, 1);
    sick.enabled = false;
    sick.consecutive_failures = 3;
    table.insert(sick);
    let mut old_success = task_with(2, 1, 1);
    old_success.enabled = false;
    old_success.last_success = Some(Span::from_secs(10));
    table.insert(old_success);
    let mut recent = task_with(3, 1, 1);
    recent.enabled = false;
    recent.last_success = Some(Span::from_secs(990));
    table.insert(recent);
    let mut failing_but_enabled = task_with(4, 1, 1);
    failing_but_enabled.consecutive_failures = 9;
    table.insert(failing_but_enabled);
    table.retain_healthy(Span::from_secs(10), Span::from_secs(1000));
    assert_eq!(table.len(), 2);
    assert!(table.get(3).is_some());
    assert!(table.get(4).is_some());
    assert!(table.get(1).is_none());
    assert!(table.get(2).is_none());
}

#[test]
fn duplicate_keeps_every_field() {
    let mut t = create_test_task();
    t.last_error = Some("boom".to_string());
    t.last_success = Some(Span::from_secs(3));
    let d = t.duplicate();
    assert_eq!(d.id, t.id);
    assert_eq!(d.target, t.target);
    assert_eq!(d.oids, t.oids);
    assert_eq!(d.session_config, t.session_config);
    assert_eq!(d.last_error, t.last_error);
    assert_eq!(d.last_success, t.last_success);
    assert_eq!(d.created_at, t.created_at);
}

#[test]
fn schedulability_is_checked_before_batching() {
    let mut table = PollingTasks::new();
    assert!(table.is_schedulable(Span::from_secs(1)));
    table.insert(task_with(1, 1, 60));
    assert!(table.is_schedulable(Span::from_secs(1)));
    let mut huge = task_with(2, 1, 0);
    huge.interval = Span::from_nanos(u128::MAX / 2);
    huge.consecutive_failures = 1;
    table.insert(huge);
    assert!(!table.is_schedulable(Span::from_secs(1)));
}

#[test]
fn new_tasks_get_distinct_random_ids() {
    let a = create_test_task();
    let b = create_test_task();
    assert_ne!(a.id, b.id);
}
