use time_tracker::admin::{
    report_for_period, get_all_tasks_admin, get_time_report_admin, next_month, parse_month, TimeReportQuery,
};
use time_tracker::entries::{create_entry, CreateEntryRequest};
use time_tracker::model::{AuthClaims, TaskStatus};
use time_tracker::projects::{create_project, CreateProjectRequest};
use time_tracker::reports::{count_tasks, get_dashboard, summarize, tally_entries};
use time_tracker::role::{CoreError, Role, Visibility};
use time_tracker::store::Store;
use time_tracker::tasks::{create_task, update_task, CreateTaskRequest, UpdateTaskRequest};
use time_tracker::users::{register, RegisterRequest};

fn s(x: &str) -> String {
    x.to_string()
}

fn task_request(title: &str, project: Option<&str>) -> CreateTaskRequest {
    CreateTaskRequest {
        title: s(title),
        description: None,
        category: None,
        priority: None,
        project_id: project.map(s),
        start_date: None,
        due_date: None,
    }
}

fn entry(start: i64, minutes: i64) -> CreateEntryRequest {
    CreateEntryRequest { start_time: start, end_time: None, duration_minutes: minutes, notes: s("n") }
}

// 2024-03-10T12:00:00Z
const NOW: i64 = 1_710_072_000;
const DAY: i64 = 86_400;
// 2024-03-01T00:00:00Z and 2024-04-01T00:00:00Z
const MARCH: i64 = 1_709_251_200;
const APRIL: i64 = 1_711_929_600;

fn sample() -> Store {
    let mut store = Store::new();
    create_project(&mut store, &s("u1"), &CreateProjectRequest { name: s("Web"), color: None, description: None }, 0, s("p1")).unwrap();
    create_task(&mut store, &s("u1"), &task_request("Site", Some("p1")), 0, s("T1")).unwrap();
    create_task(&mut store, &s("u1"), &task_request("Misc", None), 0, s("T2")).unwrap();
    let done = UpdateTaskRequest {
        title: None,
        description: None,
        category: None,
        status: Some(s("completed")),
        priority: None,
        project_id: None,
        start_date: None,
        due_date: None,
    };
    update_task(&mut store, &s("u1"), &s("T2"), &done, 0).unwrap();
    create_entry(&mut store, &s("u1"), &s("T1"), &entry(NOW - 3600, 30), NOW - 60, s("e1")).unwrap();
    create_entry(&mut store, &s("u1"), &s("T2"), &entry(NOW - 2 * DAY, 15), NOW - 2 * DAY, s("e2")).unwrap();
    create_entry(&mut store, &s("u1"), &s("T1"), &entry(MARCH - DAY, 45), MARCH - DAY, s("e3")).unwrap();
    store
}

#[test]
fn dashboard_counts_and_sums() {
    let store = sample();
    let d = summarize(&store, &s("u1"), NOW, Some(MARCH));
    assert_eq!(d.total_tasks, 2);
    assert_eq!(d.completed_tasks, 1);
    assert_eq!(d.pending_tasks, 1);
    assert_eq!(d.in_progress_tasks, 0);
    assert_eq!(d.total_minutes_today, 30);
    assert_eq!(d.total_entries_today, 1);
    assert_eq!(d.total_minutes_month, 45);
    assert_eq!(d.recent_entries.len(), 3);
    assert_eq!(d.recent_entries[0].entry_id, "e1");
    assert_eq!(d.recent_entries[1].entry_id, "e2");
    assert_eq!(d.recent_entries[2].entry_id, "e3");
    assert_eq!(d.recent_entries[2].task_title, "Site");
    assert_eq!(d.project_stats.len(), 1);
    assert_eq!(d.project_stats[0].task_count, 1);
    assert_eq!(d.project_stats[0].total_minutes, 75);
    assert_eq!(d.daily_minutes.len(), 2);
    assert_eq!(d.daily_minutes[0].day_start, NOW - 12 * 3600 - 2 * DAY);
    assert_eq!(d.daily_minutes[0].minutes, 15);
    assert_eq!(d.daily_minutes[1].minutes, 30);
    let none = summarize(&store, &s("u1"), NOW, None);
    assert_eq!(none.total_minutes_month, 0);
}

#[test]
fn dashboard_reads_the_month_from_chrono() {
    let store = sample();
    let d = get_dashboard(&store, &s("u1"), NOW);
    assert_eq!(d.total_minutes_month, 45);
    let other = get_dashboard(&store, &s("u2"), NOW);
    assert_eq!(other.total_tasks, 0);
    assert!(other.recent_entries.is_empty());
}

#[test]
fn recent_entries_stop_at_ten() {
    let mut store = Store::new();
    create_task(&mut store, &s("u1"), &task_request("T", None), 0, s("T1")).unwrap();
    for i in 0..12 {
        create_entry(&mut store, &s("u1"), &s("T1"), &entry(i, 1), i, format!("e{}", i)).unwrap();
    }
    let d = summarize(&store, &s("u1"), NOW, None);
    assert_eq!(d.recent_entries.len(), 10);
    assert_eq!(d.recent_entries[0].entry_id, "e11");
    assert_eq!(count_tasks(&store, &s("u1"), Some(TaskStatus::Pending)), 1);
    assert_eq!(tally_entries(&store, &s("u1"), 0, 5), (5, 5));
}

#[test]
fn month_text_parsing() {
    assert_eq!(parse_month(&s("2024-03")), Some((2024, 3)));
    assert_eq!(parse_month(&s("2024-12")), Some((2024, 12)));
    assert_eq!(parse_month(&s("2024-13")), None);
    assert_eq!(parse_month(&s("2024-00")), None);
    assert_eq!(parse_month(&s("2024-3")), None);
    assert_eq!(parse_month(&s("24-03-1")), None);
    assert_eq!(next_month((2024, 12)), Some((2025, 1)));
    assert_eq!(next_month((2024, 3)), Some((2024, 4)));
    assert_eq!(next_month((i32::MAX, 12)), None);
}

fn users_store() -> Store {
    let mut store = sample();
    register(&mut store, &RegisterRequest { username: s("root"), password: s("x"), full_name: s("Root") }, 0, s("a1")).unwrap();
    register(&mut store, &RegisterRequest { username: s("bob"), password: s("x"), full_name: s("Bob") }, 0, s("u1")).unwrap();
    store
}

#[test]
fn time_report_groups_by_project() {
    let store = users_store();
    let admin = AuthClaims { sub: s("a1"), role: Role::Admin, exp: 0 };
    let q = TimeReportQuery { month: Some(s("2024-03")) };
    let rep = get_time_report_admin(&store, &admin, &q, NOW).unwrap();
    assert_eq!((rep.year, rep.month), (2024, 3));
    assert_eq!(rep.rows.len(), 2);
    assert_eq!(rep.rows[0].user_id, "u1");
    assert_eq!(rep.rows[0].project_id, Some(s("p1")));
    assert_eq!(rep.rows[0].project_name, Some(s("Web")));
    assert_eq!(rep.rows[0].minutes_this_period, 30);
    assert_eq!(rep.rows[0].minutes_all_time, 75);
    assert_eq!(rep.rows[1].project_id, None);
    assert_eq!(rep.rows[1].minutes_this_period, 15);
    let sup = AuthClaims { sub: s("s1"), role: Role::Superadmin, exp: 0 };
    let all = get_time_report_admin(&store, &sup, &q, NOW).unwrap();
    assert_eq!(all.rows.len(), 3);
    assert_eq!(all.rows[0].username, "bob");
    assert_eq!(all.rows[2].user_id, "a1");
    assert_eq!(all.rows[2].minutes_all_time, 0);
    let current = get_time_report_admin(&store, &admin, &TimeReportQuery { month: None }, NOW).unwrap();
    assert_eq!(current.rows[0].minutes_this_period, 30);
    let _ = (MARCH, APRIL);
}

#[test]
fn time_report_errors() {
    let store = users_store();
    let admin = AuthClaims { sub: s("a1"), role: Role::Admin, exp: 0 };
    let bad = get_time_report_admin(&store, &admin, &TimeReportQuery { month: Some(s("March")) }, NOW);
    assert!(matches!(bad, Err(CoreError::Invalid)));
    let user = AuthClaims { sub: s("u1"), role: Role::User, exp: 0 };
    let denied = get_time_report_admin(&store, &user, &TimeReportQuery { month: None }, NOW);
    assert!(matches!(denied, Err(CoreError::Forbidden)));
}

#[test]
fn admin_overview_hides_elevated_owners() {
    let mut store = users_store();
    create_task(&mut store, &s("a1"), &task_request("Admin work", None), 0, s("T9")).unwrap();
    let admin = AuthClaims { sub: s("a1"), role: Role::Admin, exp: 0 };
    let seen = get_all_tasks_admin(&store, &admin).unwrap();
    assert_eq!(seen.len(), 2);
    assert_eq!(seen[0].username, "bob");
    let sup = AuthClaims { sub: s("s1"), role: Role::Superadmin, exp: 0 };
    assert_eq!(get_all_tasks_admin(&store, &sup).unwrap().len(), 3);
    let user = AuthClaims { sub: s("u1"), role: Role::User, exp: 0 };
    assert!(matches!(get_all_tasks_admin(&store, &user), Err(CoreError::Forbidden)));
}


#[test]
fn report_over_a_given_period() {
    let store = users_store();
    let rows = report_for_period(&store, Visibility::UsersOnly, MARCH, APRIL);
    assert_eq!(rows.len(), 2);
    assert_eq!(rows[0].minutes_this_period, 30);
    let feb = report_for_period(&store, Visibility::Everyone, MARCH - 29 * DAY, MARCH);
    assert_eq!(feb.len(), 3);
    assert_eq!(feb[0].minutes_this_period, 45);
    assert_eq!(feb[1].minutes_this_period, 0);
    assert_eq!(feb[2].username, "root");
}

#[test]
fn project_stats_put_most_minutes_first() {
    let mut store = sample();
    create_project(&mut store, &s("u1"), &CreateProjectRequest { name: s("Big"), color: None, description: None }, 0, s("p2")).unwrap();
    create_task(&mut store, &s("u1"), &task_request("Huge", Some("p2")), 0, s("T3")).unwrap();
    create_entry(&mut store, &s("u1"), &s("T3"), &entry(NOW, 500), NOW, s("e9")).unwrap();
    let d = summarize(&store, &s("u1"), NOW, None);
    assert_eq!(d.project_stats.len(), 2);
    assert_eq!(d.project_stats[0].project_id, "p2");
    assert_eq!(d.project_stats[0].total_minutes, 500);
    assert_eq!(d.project_stats[1].total_minutes, 75);
    assert_eq!(d.recent_entries[0].entry_id, "e9");
}
