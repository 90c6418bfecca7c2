use time_tracker::model::TaskStatus;
use time_tracker::store::Store;
use time_tracker::tasks::{create_task, CreateTaskRequest};
use time_tracker::timer::{
    duration_minutes, elapsed_seconds, get_active_timer, start_timer, stop_timer, StopOutcome,
};
use time_tracker::role::CoreError;

fn s(x: &str) -> String {
    x.to_string()
}

fn task_request(title: &str) -> CreateTaskRequest {
    CreateTaskRequest {
        title: s(title),
        description: None,
        category: None,
        priority: None,
        project_id: None,
        start_date: None,
        due_date: None,
    }
}

fn store_with_task(user: &str, id: &str) -> Store {
    let mut store = Store::new();
    create_task(&mut store, &s(user), &task_request("Write report"), 0, s(id)).unwrap();
    store
}

#[test]
fn ninety_seconds_round_up_to_two_minutes() {
    let mut store = store_with_task("u1", "T1");
    let view = start_timer(&mut store, &s("u1"), s("T1"), s(""), 0, s("tm1"), s("e0")).unwrap();
    assert_eq!(view.elapsed_seconds, 0);
    assert_eq!(view.task_title, "Write report");
    assert_eq!(store.tasks[0].status, TaskStatus::InProgress);
    let out = stop_timer(&mut store, &s("u1"), 90, s("e1")).unwrap();
    match out {
        StopOutcome::Stopped { entry_id, task_id, duration_minutes } => {
            assert_eq!(entry_id, "e1");
            assert_eq!(task_id, "T1");
            assert_eq!(duration_minutes, 2);
        }
        StopOutcome::NotActive => panic!("the timer was running"),
    }
    assert_eq!(store.entries.len(), 1);
    assert_eq!(store.entries[0].duration_minutes, 2);
    assert_eq!(store.entries[0].start_time, 0);
    assert_eq!(store.entries[0].end_time, Some(90));
    assert_eq!(store.tasks[0].status, TaskStatus::Pending);
    assert!(store.timers.is_empty());
}

#[test]
fn second_start_closes_first_timer() {
    let mut store = store_with_task("u1", "A");
    create_task(&mut store, &s("u1"), &task_request("B"), 0, s("B")).unwrap();
    start_timer(&mut store, &s("u1"), s("A"), s("first"), 0, s("tm1"), s("e0")).unwrap();
    start_timer(&mut store, &s("u1"), s("B"), s("second"), 61, s("tm2"), s("e1")).unwrap();
    assert_eq!(store.timers.len(), 1);
    assert_eq!(store.timers[0].task_id, "B");
    assert_eq!(store.entries.len(), 1);
    assert_eq!(store.entries[0].task_id, "A");
    assert_eq!(store.entries[0].notes, "first");
    assert_eq!(store.tasks[0].status, TaskStatus::Pending);
    assert_eq!(store.tasks[1].status, TaskStatus::InProgress);
}

#[test]
fn start_start_stop_gives_two_entries_covering_the_span() {
    let mut store = store_with_task("u1", "A");
    create_task(&mut store, &s("u1"), &task_request("B"), 0, s("B")).unwrap();
    start_timer(&mut store, &s("u1"), s("A"), s(""), 0, s("tm1"), s("e0")).unwrap();
    start_timer(&mut store, &s("u1"), s("B"), s(""), 61, s("tm2"), s("e1")).unwrap();
    stop_timer(&mut store, &s("u1"), 130, s("e2")).unwrap();
    assert_eq!(store.entries.len(), 2);
    assert_eq!(store.entries[0].task_id, "A");
    assert_eq!(store.entries[0].duration_minutes, 2);
    assert_eq!(store.entries[1].task_id, "B");
    assert_eq!(store.entries[1].duration_minutes, 2);
    let total = store.entries[0].duration_minutes + store.entries[1].duration_minutes;
    assert!(60 * total >= 130);
    assert!(store.timers.is_empty());
}

#[test]
fn stop_without_timer_is_not_active() {
    let mut store = store_with_task("u1", "T1");
    let out = stop_timer(&mut store, &s("u1"), 10, s("e1")).unwrap();
    assert!(matches!(out, StopOutcome::NotActive));
    assert!(store.entries.is_empty());
    start_timer(&mut store, &s("u1"), s("T1"), s(""), 0, s("tm1"), s("e0")).unwrap();
    stop_timer(&mut store, &s("u1"), 5, s("e1")).unwrap();
    let again = stop_timer(&mut store, &s("u1"), 9, s("e2")).unwrap();
    assert!(matches!(again, StopOutcome::NotActive));
    assert_eq!(store.entries.len(), 1);
}

#[test]
fn one_second_counts_as_a_minute() {
    assert_eq!(duration_minutes(100, 101), 1);
    assert_eq!(duration_minutes(0, 60), 1);
    assert_eq!(duration_minutes(0, 61), 2);
    assert_eq!(duration_minutes(0, 0), 0);
    assert_eq!(duration_minutes(50, 10), 0);
    assert_eq!(duration_minutes(i64::MIN, i64::MAX), 307445734561825861);
}

#[test]
fn elapsed_seconds_never_negative_nor_rounded() {
    assert_eq!(elapsed_seconds(10, 95), 85);
    assert_eq!(elapsed_seconds(95, 10), 0);
    assert_eq!(elapsed_seconds(i64::MIN, i64::MAX), u64::MAX);
}

#[test]
fn active_timer_reports_live_elapsed_seconds() {
    let mut store = store_with_task("u1", "T1");
    assert!(get_active_timer(&store, &s("u1"), 0).is_none());
    start_timer(&mut store, &s("u1"), s("T1"), s("notes"), 100, s("tm1"), s("e0")).unwrap();
    let v = get_active_timer(&store, &s("u1"), 145).unwrap();
    assert_eq!(v.elapsed_seconds, 45);
    assert_eq!(v.task_title, "Write report");
    assert_eq!(v.notes, "notes");
    assert!(get_active_timer(&store, &s("u2"), 145).is_none());
}

#[test]
fn start_on_foreign_task_is_not_found() {
    let mut store = store_with_task("u1", "T1");
    let r = start_timer(&mut store, &s("u2"), s("T1"), s(""), 0, s("tm1"), s("e0"));
    assert!(matches!(r, Err(CoreError::NotFound)));
    assert!(store.timers.is_empty());
}

#[test]
fn entry_id_in_use_keeps_the_timer() {
    let mut store = store_with_task("u1", "T1");
    start_timer(&mut store, &s("u1"), s("T1"), s(""), 0, s("tm1"), s("e0")).unwrap();
    stop_timer(&mut store, &s("u1"), 30, s("e1")).unwrap();
    start_timer(&mut store, &s("u1"), s("T1"), s(""), 40, s("tm2"), s("e2")).unwrap();
    let r = stop_timer(&mut store, &s("u1"), 50, s("e1"));
    assert!(matches!(r, Err(CoreError::Internal)));
    assert_eq!(store.timers.len(), 1);
    assert_eq!(store.entries.len(), 1);
}
