use vstd::prelude::*;
use crate::entries::{entries_where, entry_listed};
use crate::model::{Project, Task, TaskStatus, TimeEntry, Timestamp};
use crate::platform::{first_of_month, utc_first_of_month, utc_year_month, year_month};
use crate::order::{ranked, sort_by_rank, Ranked};
use crate::projects::{list_projects, projects_of};
use crate::store::{task_id_used, task_index, Store, StoreModel};

verus! {

/// Seconds in a day.
pub const DAY_SECONDS: i64 = 86400;

/// Time spent on one of the caller's projects.
#[derive(Clone, Debug)]
pub struct ProjectStat {
    pub project_id: String,
    pub name: String,
    pub color: String,
    /// Tasks filed under the project.
    pub task_count: u64,
    /// Minutes of the time entries on those tasks.
    pub total_minutes: i128,
}

/// Project statistics are listed most minutes first.
impl Ranked for ProjectStat {
    open spec fn before(self, other: Self) -> bool {
        self.total_minutes >= other.total_minutes
    }

    proof fn lemma_order(a: Self, b: Self, c: Self) {
    }

    fn comes_first(&self, other: &Self) -> (r: bool) {
        self.total_minutes >= other.total_minutes
    }

    fn duplicate(&self) -> (r: ProjectStat) {
        ProjectStat {
            project_id: self.project_id.clone(),
            name: self.name.clone(),
            color: self.color.clone(),
            task_count: self.task_count,
            total_minutes: self.total_minutes,
        }
    }
}

/// One of the caller's latest time entries.
#[derive(Clone, Debug)]
pub struct RecentEntry {
    pub entry_id: String,
    pub task_id: String,
    /// Empty where the task is gone.
    pub task_title: String,
    pub duration_minutes: i64,
    pub notes: String,
    pub created_at: Timestamp,
}

/// Minutes recorded on one UTC day.
#[derive(Clone, Copy, Debug, PartialEq, Eq, Structural)]
pub struct DailyMinutes {
    /// The first second of the day.
    pub day_start: Timestamp,
    pub minutes: i128,
}

/// The caller's overview.
#[derive(Clone, Debug)]
pub struct DashboardSummary {
    pub total_tasks: u64,
    pub completed_tasks: u64,
    pub pending_tasks: u64,
    pub in_progress_tasks: u64,
    pub total_minutes_today: i128,
    /// Minutes from the first of the current month on; zero where the month
    /// could not be determined.
    pub total_minutes_month: i128,
    pub total_entries_today: u64,
    /// At most ten, newest first.
    pub recent_entries: Vec<RecentEntry>,
    /// Most minutes first.
    pub project_stats: Vec<ProjectStat>,
    /// The last seven days, oldest first, those with entries only.
    pub daily_minutes: Vec<DailyMinutes>,
}

/// Number of `owner`'s tasks, with status `st` where one is given.
pub open spec fn count_tasks_spec(tasks: Seq<Task>, owner: Seq<char>, st: Option<TaskStatus>) -> nat
    decreases tasks.len(),
{
    if tasks.len() == 0 {
        0
    } else {
        let t = tasks.last();
        count_tasks_spec(tasks.drop_last(), owner, st) + if t.user_id@ == owner && (st is None
            || t.status == st->0) {
            1nat
        } else {
            0nat
        }
    }
}

/// Whether entry `e` of `owner` was created in `from..to`.
pub open spec fn entry_in(e: TimeEntry, owner: Seq<char>, from: int, to: int) -> bool {
    e.user_id@ == owner && from <= e.created_at && e.created_at < to
}

/// Sum of the minutes of `owner`'s entries created in `from..to`.
pub open spec fn minutes_in(entries: Seq<TimeEntry>, owner: Seq<char>, from: int, to: int) -> int
    decreases entries.len(),
{
    if entries.len() == 0 {
        0
    } else {
        let e = entries.last();
        minutes_in(entries.drop_last(), owner, from, to) + if entry_in(e, owner, from, to) {
            e.duration_minutes as int
        } else {
            0
        }
    }
}

/// Number of `owner`'s entries created in `from..to`.
pub open spec fn entries_in(entries: Seq<TimeEntry>, owner: Seq<char>, from: int, to: int) -> nat
    decreases entries.len(),
{
    if entries.len() == 0 {
        0
    } else {
        let e = entries.last();
        entries_in(entries.drop_last(), owner, from, to) + if entry_in(e, owner, from, to) {
            1nat
        } else {
            0nat
        }
    }
}

/// The first second of the UTC day of `now`.
pub open spec fn day_start(now: int) -> int {
    now - now % 86400
}

/// One past the largest timestamp.
pub open spec fn end_of_time() -> int {
    0x8000_0000_0000_0000
}

/// Counts `caller`'s tasks, with status `st` where one is given.
pub fn count_tasks(store: &Store, caller: &String, st: Option<TaskStatus>) -> (r: u64)
    ensures
        r == count_tasks_spec(store@.tasks, caller@, st),
{
    let mut n: u64 = 0;
    let mut i: usize = 0;
    while i < store.tasks.len()
        invariant
            0 <= i <= store.tasks@.len(),
            n <= i,
            n == count_tasks_spec(store.tasks@.subrange(0, i as int), caller@, st),
        decreases store.tasks@.len() - i,
    {
        proof {
            assert(store.tasks@.subrange(0, i + 1).drop_last() =~= store.tasks@.subrange(0, i as int));
        }
        let t = &store.tasks[i];
        let hit = t.user_id == *caller && match st {
            None => true,
            Some(s) => t.status == s,
        };
        if hit {
            n = n + 1;
        }
        i = i + 1;
    }
    proof {
        assert(store.tasks@.subrange(0, store.tasks@.len() as int) =~= store.tasks@);
    }
    n
}

/// Sums and counts `caller`'s entries created in `from..to`.
pub fn tally_entries(store: &Store, caller: &String, from: i128, to: i128) -> (r: (i128, u64))
    ensures
        r.0 == minutes_in(store@.entries, caller@, from as int, to as int),
        r.1 == entries_in(store@.entries, caller@, from as int, to as int),
{
    let mut sum: i128 = 0;
    let mut n: u64 = 0;
    let mut i: usize = 0;
    while i < store.entries.len()
        invariant
            0 <= i <= store.entries@.len(),
            n <= i,
            -(i as int) * 0x8000_0000_0000_0000 <= sum <= (i as int) * 0x8000_0000_0000_0000,
            sum == minutes_in(store.entries@.subrange(0, i as int), caller@, from as int, to as int),
            n == entries_in(store.entries@.subrange(0, i as int), caller@, from as int, to as int),
        decreases store.entries@.len() - i,
    {
        proof {
            assert(store.entries@.subrange(0, i + 1).drop_last() =~= store.entries@.subrange(0, i as int));
        }
        let e = &store.entries[i];
        let c = e.created_at as i128;
        if e.user_id == *caller && from <= c && c < to {
            sum = sum + e.duration_minutes as i128;
            n = n + 1;
        }
        i = i + 1;
    }
    proof {
        assert(store.entries@.subrange(0, store.entries@.len() as int) =~= store.entries@);
    }
    (sum, n)
}

/// Task `t` is filed under project `project`.
pub open spec fn filed_under(t: Task, project: Seq<char>) -> bool {
    t.project_id matches Some(p) && p@ == project
}

/// Task `id` exists and is filed under project `project`.
pub open spec fn in_project(tasks: Seq<Task>, id: Seq<char>, project: Seq<char>) -> bool {
    exists|i: int|
        0 <= i < tasks.len() && (#[trigger] tasks[i]).id@ == id && filed_under(tasks[i], project)
}

/// Whether task `id` exists and is filed under project `project`.
fn task_in_project(store: &Store, id: &String, project: &String) -> (b: bool)
    ensures
        b == in_project(store@.tasks, id@, project@),
{
    let mut i: usize = 0;
    while i < store.tasks.len()
        invariant
            0 <= i <= store.tasks@.len(),
            forall|k: int|
                0 <= k < i ==> !((#[trigger] store.tasks@[k]).id@ == id@ && filed_under(
                    store.tasks@[k],
                    project@,
                )),
        decreases store.tasks@.len() - i,
    {
        let t = &store.tasks[i];
        if t.id == *id {
            match &t.project_id {
                Some(p) => {
                    if *p == *project {
                        return true;
                    }
                },
                None => {},
            }
        }
        i = i + 1;
    }
    false
}

/// Number of tasks filed under project `project`, with status `st` where one is given.
pub open spec fn tasks_in_project(tasks: Seq<Task>, project: Seq<char>, st: Option<TaskStatus>) -> nat
    decreases tasks.len(),
{
    if tasks.len() == 0 {
        0
    } else {
        let t = tasks.last();
        tasks_in_project(tasks.drop_last(), project, st) + if filed_under(t, project) && (st is None
            || t.status == st->0) {
            1nat
        } else {
            0nat
        }
    }
}

/// Minutes of the entries whose task is filed under project `project`.
pub open spec fn project_minutes(entries: Seq<TimeEntry>, tasks: Seq<Task>, project: Seq<char>) -> int
    decreases entries.len(),
{
    if entries.len() == 0 {
        0
    } else {
        let e = entries.last();
        project_minutes(entries.drop_last(), tasks, project) + if in_project(
            tasks,
            e.task_id@,
            project,
        ) {
            e.duration_minutes as int
        } else {
            0
        }
    }
}

/// `r` is the statistic of project `p`.
pub open spec fn is_project_stat(r: ProjectStat, m: StoreModel, p: Project) -> bool {
    &&& r.project_id == p.id
    &&& r.name == p.name
    &&& r.color == p.color
    &&& r.task_count == tasks_in_project(m.tasks, p.id@, None)
    &&& r.total_minutes == project_minutes(m.entries, m.tasks, p.id@)
}

/// Counts the tasks filed under project `project`, with status `st` where one is given.
pub fn count_in_project(store: &Store, project: &String, st: Option<TaskStatus>) -> (r: u64)
    ensures
        r == tasks_in_project(store@.tasks, project@, st),
{
    let mut n: u64 = 0;
    let mut i: usize = 0;
    while i < store.tasks.len()
        invariant
            0 <= i <= store.tasks@.len(),
            n <= i,
            n == tasks_in_project(store.tasks@.subrange(0, i as int), project@, st),
        decreases store.tasks@.len() - i,
    {
        proof {
            assert(store.tasks@.subrange(0, i + 1).drop_last() =~= store.tasks@.subrange(0, i as int));
        }
        let t = &store.tasks[i];
        let filed = match &t.project_id {
            Some(q) => *q == *project,
            None => false,
        };
        let hit = filed && match st {
            None => true,
            Some(s) => t.status == s,
        };
        if hit {
            n = n + 1;
        }
        i = i + 1;
    }
    proof {
        assert(store.tasks@.subrange(0, store.tasks@.len() as int) =~= store.tasks@);
    }
    n
}

/// Sums the minutes of the time entries whose task is filed under `project`.
pub fn minutes_on_project(store: &Store, project: &String) -> (r: i128)
    ensures
        r == project_minutes(store@.entries, store@.tasks, project@),
{
    let mut sum: i128 = 0;
    let mut j: usize = 0;
    while j < store.entries.len()
        invariant
            0 <= j <= store.entries@.len(),
            -(j as int) * 0x8000_0000_0000_0000 <= sum <= (j as int) * 0x8000_0000_0000_0000,
            sum == project_minutes(store.entries@.subrange(0, j as int), store.tasks@, project@),
        decreases store.entries@.len() - j,
    {
        proof {
            assert(store.entries@.subrange(0, j + 1).drop_last() =~= store.entries@.subrange(0, j as int));
        }
        if task_in_project(store, &store.entries[j].task_id, project) {
            sum = sum + store.entries[j].duration_minutes as i128;
        }
        j = j + 1;
    }
    proof {
        assert(store.entries@.subrange(0, store.entries@.len() as int) =~= store.entries@);
    }
    sum
}

fn project_stat(store: &Store, p: &Project) -> (r: ProjectStat)
    ensures
        is_project_stat(r, store@, *p),
{
    ProjectStat {
        project_id: p.id.clone(),
        name: p.name.clone(),
        color: p.color.clone(),
        task_count: count_in_project(store, &p.id, None),
        total_minutes: minutes_on_project(store, &p.id),
    }
}

/// The title of task `id`, or nothing where it is gone.
pub open spec fn title_of(tasks: Seq<Task>, id: Seq<char>) -> Seq<char> {
    if task_id_used(tasks, id) {
        tasks[task_index(tasks, id)].title@
    } else {
        Seq::empty()
    }
}

fn title_for(store: &Store, id: &String) -> (r: String)
    requires
        store@.wf(),
    ensures
        r@ == title_of(store@.tasks, id@),
{
    let mut i: usize = 0;
    while i < store.tasks.len()
        invariant
            0 <= i <= store.tasks@.len(),
            store@.wf(),
            forall|k: int| 0 <= k < i ==> (#[trigger] store.tasks@[k]).id@ != id@,
        decreases store.tasks@.len() - i,
    {
        if store.tasks[i].id == *id {
            proof {
                let j = task_index(store@.tasks, id@);
                assert(store@.tasks[j].id@ == store@.tasks[i as int].id@);
            }
            return store.tasks[i].title.clone();
        }
        i = i + 1;
    }
    String::new()
}

/// `r` reports entry `e`.
pub open spec fn is_recent_entry(r: RecentEntry, tasks: Seq<Task>, e: TimeEntry) -> bool {
    &&& r.entry_id == e.id
    &&& r.task_id == e.task_id
    &&& r.task_title@ == title_of(tasks, e.task_id@)
    &&& r.duration_minutes == e.duration_minutes
    &&& r.notes == e.notes
    &&& r.created_at == e.created_at
}

/// The day rows for the `k` days before today, oldest first, where a day has entries.
pub open spec fn daily_rows(entries: Seq<TimeEntry>, owner: Seq<char>, today: int, k: nat) -> Seq<DailyMinutes>
    decreases k,
{
    if k == 0 {
        Seq::empty()
    } else {
        let earlier = daily_rows(entries, owner, today, (k - 1) as nat);
        let from = today - (7 - k) * 86400;
        if entries_in(entries, owner, from, from + 86400) > 0 {
            earlier.push(DailyMinutes { day_start: from as i64, minutes: minutes_in(entries, owner, from, from + 86400) as i128 })
        } else {
            earlier
        }
    }
}

/// `newest` holds the entries of `all`, newest first.
pub open spec fn newest_first(newest: Seq<TimeEntry>, all: Seq<TimeEntry>) -> bool {
    ranked(newest) && newest.to_multiset() == all.to_multiset() && newest.len() == all.len()
}

/// `rows` report the first ten (or fewer) entries of `newest`.
pub open spec fn reports_first_ten(rows: Seq<RecentEntry>, tasks: Seq<Task>, newest: Seq<TimeEntry>) -> bool {
    let shown = if newest.len() < 10 { newest.len() } else { 10 };
    &&& rows.len() == shown
    &&& forall|k: int| 0 <= k < shown ==> is_recent_entry(#[trigger] rows[k], tasks, newest[k])
}

/// `s` holds the statistic of each project of `projects`, in order.
pub open spec fn stats_of(s: Seq<ProjectStat>, m: StoreModel, projects: Seq<Project>) -> bool {
    &&& s.len() == projects.len()
    &&& forall|k: int| 0 <= k < projects.len() ==> is_project_stat(#[trigger] s[k], m, projects[k])
}

/// `r` summarizes `owner`'s rows at `now`, with `month` as the first second
/// of the current month where it is known.
pub open spec fn is_summary(r: DashboardSummary, m: StoreModel, owner: Seq<char>, now: int, month: Option<Timestamp>) -> bool {
    let today = day_start(now);
    let own = m.entries.filter(entry_listed(owner, None));
    let projects = projects_of(m.projects, owner);
    &&& r.total_tasks == count_tasks_spec(m.tasks, owner, None)
    &&& r.completed_tasks == count_tasks_spec(m.tasks, owner, Some(TaskStatus::Completed))
    &&& r.pending_tasks == count_tasks_spec(m.tasks, owner, Some(TaskStatus::Pending))
    &&& r.in_progress_tasks == count_tasks_spec(m.tasks, owner, Some(TaskStatus::InProgress))
    &&& r.total_minutes_today == minutes_in(m.entries, owner, today, today + 86400)
    &&& r.total_entries_today == entries_in(m.entries, owner, today, today + 86400)
    &&& r.total_minutes_month == (match month {
        Some(s) => minutes_in(m.entries, owner, s as int, end_of_time()),
        None => 0,
    })
    &&& exists|newest: Seq<TimeEntry>|
        #[trigger] newest_first(newest, own) && reports_first_ten(r.recent_entries@, m.tasks, newest)
    &&& ranked(r.project_stats@)
    &&& exists|s: Seq<ProjectStat>|
        #[trigger] stats_of(s, m, projects) && r.project_stats@.to_multiset() == s.to_multiset()
    &&& r.daily_minutes@ == daily_rows(m.entries, owner, today, 7)
}

/// The earliest time at which the last seven days can be stated.
pub open spec fn dashboard_time(now: Timestamp) -> bool {
    i64::MIN + 7 * 86400 <= now
}

/// The caller's overview at `now`, given the first second of the current
/// month where it is known.
pub fn summarize(store: &Store, caller: &String, now: Timestamp, month: Option<Timestamp>) -> (r:
    DashboardSummary)
    requires
        store@.wf(),
        dashboard_time(now),
    ensures
        is_summary(r, store@, caller@, now as int, month),
{
    let rem = match now.checked_rem_euclid(DAY_SECONDS) {
        Some(x) => x,
        None => 0,
    };
    assert(rem == now % 86400);
    let today = now - rem;
    let (today_minutes, today_entries) = tally_entries(store, caller, today as i128, today as i128 + 86400);
    let month_minutes = match month {
        Some(s) => tally_entries(store, caller, s as i128, 0x8000_0000_0000_0000i128).0,
        None => 0,
    };
    let listed = entries_where(store, caller, None);
    let own = sort_by_rank(&listed);
    proof {
        vstd::seq_lib::to_multiset_len(own@);
        vstd::seq_lib::to_multiset_len(listed@);
    }
    let n = own.len();
    let shown = if n < 10 { n } else { 10 };
    let mut recent: Vec<RecentEntry> = Vec::new();
    let mut k: usize = 0;
    while k < shown
        invariant
            0 <= k <= shown,
            shown <= n,
            n == own@.len(),
            store@.wf(),
            recent@.len() == k,
            forall|j: int| 0 <= j < k ==> is_recent_entry(#[trigger] recent@[j], store@.tasks, own@[j]),
        decreases shown - k,
    {
        let e = &own[k];
        let row = RecentEntry {
            entry_id: e.id.clone(),
            task_id: e.task_id.clone(),
            task_title: title_for(store, &e.task_id),
            duration_minutes: e.duration_minutes,
            notes: e.notes.clone(),
            created_at: e.created_at,
        };
        recent.push(row);
        k = k + 1;
    }
    let projects = list_projects(store, caller);
    let mut stats: Vec<ProjectStat> = Vec::new();
    let mut p: usize = 0;
    while p < projects.len()
        invariant
            0 <= p <= projects@.len(),
            projects@ == projects_of(store@.projects, caller@),
            stats@.len() == p,
            forall|j: int| 0 <= j < p ==> is_project_stat(#[trigger] stats@[j], store@, projects@[j]),
        decreases projects@.len() - p,
    {
        stats.push(project_stat(store, &projects[p]));
        p = p + 1;
    }
    let sorted_stats = sort_by_rank(&stats);
    proof {
        assert(newest_first(own@, listed@));
        assert(reports_first_ten(recent@, store@.tasks, own@));
        assert(stats_of(stats@, store@, projects_of(store@.projects, caller@)));
    }
    let mut daily: Vec<DailyMinutes> = Vec::new();
    let mut d: i64 = 1;
    while d <= 7
        invariant
            1 <= d <= 8,
            today == day_start(now as int),
            i64::MIN <= today - 6 * 86400,
            today <= now,
            daily@ == daily_rows(store@.entries, caller@, today as int, (d - 1) as nat),
        decreases 8 - d,
    {
        let from = today - (7 - d) * DAY_SECONDS;
        let (minutes, count) = tally_entries(store, caller, from as i128, from as i128 + 86400);
        if count > 0 {
            daily.push(DailyMinutes { day_start: from, minutes });
        }
        d = d + 1;
    }
    DashboardSummary {
        total_tasks: count_tasks(store, caller, None),
        completed_tasks: count_tasks(store, caller, Some(TaskStatus::Completed)),
        pending_tasks: count_tasks(store, caller, Some(TaskStatus::Pending)),
        in_progress_tasks: count_tasks(store, caller, Some(TaskStatus::InProgress)),
        total_minutes_today: today_minutes,
        total_minutes_month: month_minutes,
        total_entries_today: today_entries,
        recent_entries: recent,
        project_stats: sorted_stats,
        daily_minutes: daily,
    }
}

/// The first second of the UTC month of `now`, as chrono reckons it.
pub open spec fn current_month_start(now: Timestamp) -> Option<Timestamp> {
    match utc_year_month(now) {
        Some(ym) => utc_first_of_month(ym.0, ym.1),
        None => None,
    }
}

/// The caller's overview now: `summarize` with the current month as chrono
/// reckons it.
pub fn get_dashboard(store: &Store, caller: &String, now: Timestamp) -> (r: DashboardSummary)
    requires
        store@.wf(),
        dashboard_time(now),
    ensures
        is_summary(r, store@, caller@, now as int, current_month_start(now)),
{
    let month = match year_month(now) {
        Some((y, m)) => first_of_month(y, m),
        None => None,
    };
    summarize(store, caller, now, month)
}

} // verus!
