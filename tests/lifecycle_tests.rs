use time_tracker::entries::{create_entry, delete_entry, get_all_entries, get_entries, CreateEntryRequest};
use time_tracker::model::TaskStatus;
use time_tracker::projects::{
    create_project, delete_project, get_projects, list_projects, update_project, CreateProjectRequest,
    UpdateProjectRequest,
};
use time_tracker::role::CoreError;
use time_tracker::store::Store;
use time_tracker::subtasks::{
    create_subtask, delete_subtask, get_subtasks, update_subtask, CreateSubtaskRequest,
    UpdateSubtaskRequest,
};
use time_tracker::tasks::{
    create_task, default_priority, delete_task, delete_tasks_bulk, get_tasks, normalize_project,
    update_task, BulkDeleteRequest, CreateTaskRequest, UpdateTaskRequest,
};
use time_tracker::timer::start_timer;

fn s(x: &str) -> String {
    x.to_string()
}

fn task_request(title: &str, project: Option<&str>) -> CreateTaskRequest {
    CreateTaskRequest {
        title: s(title),
        description: None,
        category: None,
        priority: None,
        project_id: project.map(s),
        start_date: None,
        due_date: None,
    }
}

fn empty_update() -> UpdateTaskRequest {
    UpdateTaskRequest {
        title: None,
        description: None,
        category: None,
        status: None,
        priority: None,
        project_id: None,
        start_date: None,
        due_date: None,
    }
}

fn project_request(name: &str) -> CreateProjectRequest {
    CreateProjectRequest { name: s(name), color: None, description: None }
}

#[test]
fn new_task_takes_defaults() {
    let mut store = Store::new();
    let t = create_task(&mut store, &s("u1"), &task_request("Plan", Some("default")), 7, s("T1")).unwrap();
    assert_eq!(t.category, "General");
    assert_eq!(t.priority, "normal");
    assert_eq!(t.description, "");
    assert_eq!(t.status, TaskStatus::Pending);
    assert_eq!(t.project_id, None);
    assert_eq!(t.created_at, 7);
    assert_eq!(t.updated_at, 7);
    assert_eq!(t.user_id, "u1");
    assert_eq!(default_priority(), "normal");
}

#[test]
fn no_project_sentinels_normalize_to_none() {
    assert_eq!(normalize_project(&Some(s(""))), None);
    assert_eq!(normalize_project(&Some(s("default"))), None);
    assert_eq!(normalize_project(&None), None);
    assert_eq!(normalize_project(&Some(s("p1"))), Some(s("p1")));
}

#[test]
fn task_in_foreign_project_is_not_found() {
    let mut store = Store::new();
    create_project(&mut store, &s("u2"), &project_request("Theirs"), 0, s("p2")).unwrap();
    let r = create_task(&mut store, &s("u1"), &task_request("Plan", Some("p2")), 0, s("T1"));
    assert!(matches!(r, Err(CoreError::NotFound)));
    assert!(store.tasks.is_empty());
}

#[test]
fn duplicate_task_id_is_refused() {
    let mut store = Store::new();
    create_task(&mut store, &s("u1"), &task_request("A", None), 0, s("T1")).unwrap();
    let r = create_task(&mut store, &s("u1"), &task_request("B", None), 0, s("T1"));
    assert!(matches!(r, Err(CoreError::Internal)));
    assert_eq!(store.tasks.len(), 1);
}

#[test]
fn sparse_update_changes_only_present_fields() {
    let mut store = Store::new();
    create_task(&mut store, &s("u1"), &task_request("Old", None), 0, s("T1")).unwrap();
    let mut up = empty_update();
    up.title = Some(s("New"));
    up.status = Some(s("completed"));
    up.due_date = Some(s(""));
    let t = update_task(&mut store, &s("u1"), &s("T1"), &up, 50).unwrap();
    assert_eq!(t.title, "New");
    assert_eq!(t.status, TaskStatus::Completed);
    assert_eq!(t.category, "General");
    assert_eq!(t.due_date, None);
    assert_eq!(t.updated_at, 50);
    let same = update_task(&mut store, &s("u1"), &s("T1"), &empty_update(), 90).unwrap();
    assert_eq!(same.updated_at, 50);
    assert_eq!(same.title, "New");
}

#[test]
fn unknown_status_is_invalid() {
    let mut store = Store::new();
    create_task(&mut store, &s("u1"), &task_request("T", None), 0, s("T1")).unwrap();
    let mut up = empty_update();
    up.title = Some(s("Changed"));
    up.status = Some(s("done"));
    let r = update_task(&mut store, &s("u1"), &s("T1"), &up, 5);
    assert!(matches!(r, Err(CoreError::Invalid)));
    assert_eq!(store.tasks[0].title, "T");
}

#[test]
fn other_users_rows_are_not_found() {
    let mut store = Store::new();
    create_task(&mut store, &s("u1"), &task_request("Mine", None), 0, s("T1")).unwrap();
    create_project(&mut store, &s("u1"), &project_request("P"), 0, s("p1")).unwrap();
    create_subtask(&mut store, &s("u1"), &s("T1"), &CreateSubtaskRequest { title: s("step") }, 0, s("s1")).unwrap();
    let entry = CreateEntryRequest { start_time: 0, end_time: Some(60), duration_minutes: 1, notes: s("") };
    create_entry(&mut store, &s("u1"), &s("T1"), &entry, 0, s("e1")).unwrap();
    let x = s("u2");
    let mut up = empty_update();
    up.title = Some(s("stolen"));
    assert!(matches!(update_task(&mut store, &x, &s("T1"), &up, 1), Err(CoreError::NotFound)));
    assert!(matches!(delete_task(&mut store, &x, &s("T1")), Err(CoreError::NotFound)));
    let pu = UpdateProjectRequest { name: Some(s("x")), color: None, description: None };
    assert!(matches!(update_project(&mut store, &x, &s("p1"), &pu), Err(CoreError::NotFound)));
    assert!(matches!(delete_project(&mut store, &x, &s("p1")), Err(CoreError::NotFound)));
    let su = UpdateSubtaskRequest { title: None, completed: Some(true), position: None };
    assert!(matches!(update_subtask(&mut store, &x, &s("s1"), &su), Err(CoreError::NotFound)));
    assert!(matches!(delete_subtask(&mut store, &x, &s("s1")), Err(CoreError::NotFound)));
    assert!(matches!(delete_entry(&mut store, &x, &s("e1")), Err(CoreError::NotFound)));
    assert!(matches!(create_entry(&mut store, &x, &s("T1"), &entry, 0, s("e2")), Err(CoreError::NotFound)));
    assert!(get_tasks(&store, &x).is_empty());
    assert!(list_projects(&store, &x).is_empty());
    assert!(get_subtasks(&store, &x, &s("T1")).is_empty());
    assert!(get_all_entries(&store, &x).is_empty());
    assert_eq!(store.tasks[0].title, "Mine");
    assert_eq!(store.entries.len(), 1);
    assert!(!store.subtasks[0].completed);
}

#[test]
fn deleting_a_task_cascades() {
    let mut store = Store::new();
    create_task(&mut store, &s("u1"), &task_request("Gone", None), 0, s("T1")).unwrap();
    create_task(&mut store, &s("u1"), &task_request("Kept", None), 0, s("T2")).unwrap();
    create_subtask(&mut store, &s("u1"), &s("T1"), &CreateSubtaskRequest { title: s("a") }, 0, s("s1")).unwrap();
    create_subtask(&mut store, &s("u1"), &s("T2"), &CreateSubtaskRequest { title: s("b") }, 0, s("s2")).unwrap();
    let entry = CreateEntryRequest { start_time: 0, end_time: None, duration_minutes: 3, notes: s("n") };
    create_entry(&mut store, &s("u1"), &s("T1"), &entry, 0, s("e1")).unwrap();
    create_entry(&mut store, &s("u1"), &s("T2"), &entry, 0, s("e2")).unwrap();
    start_timer(&mut store, &s("u1"), s("T1"), s(""), 0, s("tm1"), s("e0")).unwrap();
    delete_task(&mut store, &s("u1"), &s("T1")).unwrap();
    assert_eq!(store.tasks.len(), 1);
    assert_eq!(store.tasks[0].id, "T2");
    assert_eq!(store.subtasks.len(), 1);
    assert_eq!(store.subtasks[0].id, "s2");
    assert_eq!(store.entries.len(), 1);
    assert_eq!(store.entries[0].id, "e2");
    assert!(store.timers.is_empty());
}

#[test]
fn deleting_a_project_detaches_its_tasks() {
    let mut store = Store::new();
    create_project(&mut store, &s("u1"), &project_request("P"), 0, s("p1")).unwrap();
    create_task(&mut store, &s("u1"), &task_request("In P", Some("p1")), 0, s("T1")).unwrap();
    assert_eq!(store.tasks[0].project_id, Some(s("p1")));
    delete_project(&mut store, &s("u1"), &s("p1")).unwrap();
    assert!(store.projects.is_empty());
    assert_eq!(store.tasks.len(), 1);
    assert_eq!(store.tasks[0].project_id, None);
}

#[test]
fn bulk_delete_counts_only_owned_tasks() {
    let mut store = Store::new();
    create_task(&mut store, &s("u1"), &task_request("a", None), 0, s("T1")).unwrap();
    create_task(&mut store, &s("u2"), &task_request("b", None), 0, s("T2")).unwrap();
    create_task(&mut store, &s("u1"), &task_request("c", None), 0, s("T3")).unwrap();
    let req = BulkDeleteRequest { ids: vec![s("T1"), s("T2"), s("missing"), s("T3"), s("T1")] };
    assert_eq!(delete_tasks_bulk(&mut store, &s("u1"), &req), 2);
    assert_eq!(store.tasks.len(), 1);
    assert_eq!(store.tasks[0].id, "T2");
}

#[test]
fn project_defaults_and_update() {
    let mut store = Store::new();
    let p = create_project(&mut store, &s("u1"), &project_request("P"), 3, s("p1")).unwrap();
    assert_eq!(p.color, "#3b82f6");
    assert_eq!(p.description, "");
    let up = UpdateProjectRequest { name: None, color: Some(s("#000000")), description: None };
    let q = update_project(&mut store, &s("u1"), &s("p1"), &up).unwrap();
    assert_eq!(q.color, "#000000");
    assert_eq!(q.name, "P");
    assert_eq!(get_projects(&store, &s("u1")).len(), 1);
    assert_eq!(list_projects(&store, &s("u1")).len(), 1);
    let dup = create_project(&mut store, &s("u1"), &project_request("Q"), 3, s("p1"));
    assert!(matches!(dup, Err(CoreError::Internal)));
}

#[test]
fn subtask_positions_follow_the_largest() {
    let mut store = Store::new();
    create_task(&mut store, &s("u1"), &task_request("T", None), 0, s("T1")).unwrap();
    let a = create_subtask(&mut store, &s("u1"), &s("T1"), &CreateSubtaskRequest { title: s("a") }, 0, s("s1")).unwrap();
    let b = create_subtask(&mut store, &s("u1"), &s("T1"), &CreateSubtaskRequest { title: s("b") }, 0, s("s2")).unwrap();
    assert_eq!(a.position, 0);
    assert_eq!(b.position, 1);
    let up = UpdateSubtaskRequest { title: None, completed: Some(true), position: Some(5) };
    let moved = update_subtask(&mut store, &s("u1"), &s("s1"), &up).unwrap();
    assert!(moved.completed);
    assert_eq!(moved.position, 5);
    let c = create_subtask(&mut store, &s("u1"), &s("T1"), &CreateSubtaskRequest { title: s("c") }, 0, s("s3")).unwrap();
    assert_eq!(c.position, 6);
    delete_subtask(&mut store, &s("u1"), &s("s2")).unwrap();
    assert_eq!(get_subtasks(&store, &s("u1"), &s("T1")).len(), 2);
}

#[test]
fn subtask_position_past_i32_is_invalid() {
    let mut store = Store::new();
    create_task(&mut store, &s("u1"), &task_request("T", None), 0, s("T1")).unwrap();
    create_subtask(&mut store, &s("u1"), &s("T1"), &CreateSubtaskRequest { title: s("a") }, 0, s("s1")).unwrap();
    let up = UpdateSubtaskRequest { title: None, completed: None, position: Some(i32::MAX) };
    update_subtask(&mut store, &s("u1"), &s("s1"), &up).unwrap();
    let r = create_subtask(&mut store, &s("u1"), &s("T1"), &CreateSubtaskRequest { title: s("b") }, 0, s("s2"));
    assert!(matches!(r, Err(CoreError::Invalid)));
}

#[test]
fn negative_duration_is_invalid() {
    let mut store = Store::new();
    create_task(&mut store, &s("u1"), &task_request("T", None), 0, s("T1")).unwrap();
    let entry = CreateEntryRequest { start_time: 0, end_time: None, duration_minutes: -1, notes: s("") };
    assert!(matches!(create_entry(&mut store, &s("u1"), &s("T1"), &entry, 0, s("e1")), Err(CoreError::Invalid)));
    let ok = CreateEntryRequest { start_time: 0, end_time: None, duration_minutes: 4, notes: s("x") };
    let e = create_entry(&mut store, &s("u1"), &s("T1"), &ok, 9, s("e1")).unwrap();
    assert_eq!(e.created_at, 9);
    assert_eq!(get_entries(&store, &s("u1"), &s("T1")).len(), 1);
    assert!(get_entries(&store, &s("u1"), &s("T9")).is_empty());
    delete_entry(&mut store, &s("u1"), &s("e1")).unwrap();
    assert!(store.entries.is_empty());
}

#[test]
fn project_listing_counts_tasks_by_status() {
    let mut store = Store::new();
    create_project(&mut store, &s("u1"), &project_request("P"), 0, s("p1")).unwrap();
    create_task(&mut store, &s("u1"), &task_request("a", Some("p1")), 0, s("T1")).unwrap();
    create_task(&mut store, &s("u1"), &task_request("b", Some("p1")), 0, s("T2")).unwrap();
    create_task(&mut store, &s("u1"), &task_request("c", None), 0, s("T3")).unwrap();
    start_timer(&mut store, &s("u1"), s("T1"), s(""), 0, s("tm1"), s("e0")).unwrap();
    let entry = CreateEntryRequest { start_time: 0, end_time: None, duration_minutes: 7, notes: s("") };
    create_entry(&mut store, &s("u1"), &s("T2"), &entry, 0, s("e1")).unwrap();
    create_entry(&mut store, &s("u1"), &s("T3"), &entry, 0, s("e2")).unwrap();
    let list = get_projects(&store, &s("u1"));
    assert_eq!(list.len(), 1);
    assert_eq!(list[0].project.id, "p1");
    assert_eq!(list[0].task_count, 2);
    assert_eq!(list[0].in_progress_count, 1);
    assert_eq!(list[0].pending_count, 1);
    assert_eq!(list[0].completed_count, 0);
    assert_eq!(list[0].total_minutes, 7);
}

#[test]
fn subtasks_come_in_position_order() {
    let mut store = Store::new();
    create_task(&mut store, &s("u1"), &task_request("T", None), 0, s("T1")).unwrap();
    for (i, id) in ["s1", "s2", "s3"].iter().enumerate() {
        create_subtask(&mut store, &s("u1"), &s("T1"), &CreateSubtaskRequest { title: s(id) }, i as i64, s(id)).unwrap();
    }
    let up = UpdateSubtaskRequest { title: None, completed: None, position: Some(9) };
    update_subtask(&mut store, &s("u1"), &s("s1"), &up).unwrap();
    let tie = UpdateSubtaskRequest { title: None, completed: None, position: Some(2) };
    update_subtask(&mut store, &s("u1"), &s("s2"), &tie).unwrap();
    let list = get_subtasks(&store, &s("u1"), &s("T1"));
    let ids: Vec<&str> = list.iter().map(|x| x.id.as_str()).collect();
    assert_eq!(ids, vec!["s2", "s3", "s1"]);
}

#[test]
fn empty_required_fields_are_invalid() {
    let mut store = Store::new();
    let r = create_task(&mut store, &s("u1"), &task_request("", None), 0, s("T1"));
    assert!(matches!(r, Err(CoreError::Invalid)));
    let p = create_project(&mut store, &s("u1"), &project_request(""), 0, s("p1"));
    assert!(matches!(p, Err(CoreError::Invalid)));
    create_task(&mut store, &s("u1"), &task_request("T", None), 0, s("T1")).unwrap();
    let st = create_subtask(&mut store, &s("u1"), &s("T1"), &CreateSubtaskRequest { title: s("") }, 0, s("s1"));
    assert!(matches!(st, Err(CoreError::Invalid)));
    assert!(store.projects.is_empty());
    assert!(store.subtasks.is_empty());
    assert_eq!(store.tasks.len(), 1);
}

#[test]
fn listings_put_recent_rows_first() {
    let mut store = Store::new();
    create_task(&mut store, &s("u1"), &task_request("old", None), 10, s("T1")).unwrap();
    create_task(&mut store, &s("u1"), &task_request("new", None), 20, s("T2")).unwrap();
    let mut up = empty_update();
    up.title = Some(s("touched"));
    update_task(&mut store, &s("u1"), &s("T1"), &up, 30).unwrap();
    let tasks = get_tasks(&store, &s("u1"));
    assert_eq!(tasks[0].id, "T1");
    assert_eq!(tasks[1].id, "T2");
    let entry = CreateEntryRequest { start_time: 0, end_time: None, duration_minutes: 1, notes: s("") };
    create_entry(&mut store, &s("u1"), &s("T1"), &entry, 5, s("e1")).unwrap();
    create_entry(&mut store, &s("u1"), &s("T2"), &entry, 50, s("e2")).unwrap();
    create_entry(&mut store, &s("u1"), &s("T1"), &entry, 25, s("e3")).unwrap();
    let all: Vec<String> = get_all_entries(&store, &s("u1")).into_iter().map(|e| e.id).collect();
    assert_eq!(all, vec![s("e2"), s("e3"), s("e1")]);
    let on_t1: Vec<String> = get_entries(&store, &s("u1"), &s("T1")).into_iter().map(|e| e.id).collect();
    assert_eq!(on_t1, vec![s("e3"), s("e1")]);
}

#[test]
fn new_subtask_follows_a_negative_position() {
    let mut store = Store::new();
    create_task(&mut store, &s("u1"), &task_request("T", None), 0, s("T1")).unwrap();
    create_subtask(&mut store, &s("u1"), &s("T1"), &CreateSubtaskRequest { title: s("a") }, 0, s("s1")).unwrap();
    let up = UpdateSubtaskRequest { title: None, completed: None, position: Some(-5) };
    update_subtask(&mut store, &s("u1"), &s("s1"), &up).unwrap();
    let b = create_subtask(&mut store, &s("u1"), &s("T1"), &CreateSubtaskRequest { title: s("b") }, 0, s("s2")).unwrap();
    assert_eq!(b.position, -4);
}

#[test]
fn foreign_task_is_not_found_even_with_an_empty_title() {
    let mut store = Store::new();
    create_task(&mut store, &s("u1"), &task_request("T", None), 0, s("T1")).unwrap();
    let r = create_subtask(&mut store, &s("u2"), &s("T1"), &CreateSubtaskRequest { title: s("") }, 0, s("s1"));
    assert!(matches!(r, Err(CoreError::NotFound)));
    create_project(&mut store, &s("u1"), &project_request("P"), 0, s("p1")).unwrap();
    let t = create_task(&mut store, &s("u2"), &task_request("", Some("p1")), 0, s("T2"));
    assert!(matches!(t, Err(CoreError::NotFound)));
}

#[test]
fn project_delete_detaches_only_the_owners_tasks() {
    let mut store = Store::new();
    create_project(&mut store, &s("u1"), &project_request("P"), 0, s("p1")).unwrap();
    create_task(&mut store, &s("u1"), &task_request("mine", Some("p1")), 0, s("T1")).unwrap();
    let dup = create_project(&mut store, &s("u2"), &project_request("Q"), 0, s("p1"));
    assert!(matches!(dup, Err(CoreError::Internal)));
    delete_project(&mut store, &s("u1"), &s("p1")).unwrap();
    assert!(store.projects.is_empty());
    assert_eq!(store.tasks[0].project_id, None);
}

#[test]
fn well_formedness_check_spots_duplicates() {
    let mut store = Store::new();
    create_task(&mut store, &s("u1"), &task_request("a", None), 0, s("T1")).unwrap();
    create_task(&mut store, &s("u1"), &task_request("b", None), 0, s("T2")).unwrap();
    start_timer(&mut store, &s("u1"), s("T1"), s(""), 0, s("tm1"), s("e0")).unwrap();
    assert!(store.is_well_formed());
    let copy = store.tasks[0].copy();
    store.tasks.push(copy);
    assert!(!store.is_well_formed());
    store.tasks.pop();
    let timer = store.timers[0].copy();
    store.timers.push(timer);
    assert!(!store.is_well_formed());
}
