use vstd::prelude::*;
use crate::model::{copy_opt, AuthClaims, Project, Task, TimeEntry, Timestamp, User};
use crate::platform::{first_of_month, utc_first_of_month, utc_year_month, year_month};
use crate::order::{lemma_lex, lex_le, ranked, sort_by_rank, text_le, Ranked};
use crate::projects::project_id_used;
use crate::role::{spec_visibility, visibility, CoreError, Visibility};
use crate::store::{task_id_used, task_index, Store, StoreModel};
use crate::users::{find_user, user_id_used, user_index};

verus! {

/// A task in the overview of elevated callers, with its owner's names.
#[derive(Clone, Debug)]
pub struct AdminTask {
    pub task: Task,
    pub username: String,
    pub full_name: String,
}

/// Overview rows are listed most recently updated first.
impl Ranked for AdminTask {
    open spec fn before(self, other: Self) -> bool {
        self.task.updated_at >= other.task.updated_at
    }

    proof fn lemma_order(a: Self, b: Self, c: Self) {
    }

    fn comes_first(&self, other: &Self) -> (r: bool) {
        self.task.updated_at >= other.task.updated_at
    }

    fn duplicate(&self) -> (r: AdminTask) {
        AdminTask {
            task: self.task.copy(),
            username: self.username.clone(),
            full_name: self.full_name.clone(),
        }
    }
}

/// The overview row of task `t` where its owner is visible under `scope`.
pub open spec fn admin_row(m: StoreModel, scope: Visibility, t: Task) -> Option<AdminTask> {
    if user_id_used(m.users, t.user_id@) && scope.spec_shows(m.users[user_index(m.users, t.user_id@)].role) {
        let u = m.users[user_index(m.users, t.user_id@)];
        Some(AdminTask { task: t, username: u.username, full_name: u.full_name })
    } else {
        None
    }
}

/// The overview rows of `tasks`, in order.
pub open spec fn admin_rows(m: StoreModel, scope: Visibility, tasks: Seq<Task>) -> Seq<AdminTask>
    decreases tasks.len(),
{
    if tasks.len() == 0 {
        Seq::empty()
    } else {
        let earlier = admin_rows(m, scope, tasks.drop_last());
        match admin_row(m, scope, tasks.last()) {
            Some(r) => earlier.push(r),
            None => earlier,
        }
    }
}

/// The overview rows in store order.
fn overview_rows(store: &Store, claims: &AuthClaims) -> (r: Result<Vec<AdminTask>, CoreError>)
    requires
        store@.wf(),
    ensures
        spec_visibility(claims.role) is Err ==> r == Err::<Vec<AdminTask>, CoreError>(
            CoreError::Forbidden,
        ),
        spec_visibility(claims.role) matches Ok(scope) ==> r is Ok && r->Ok_0@ == admin_rows(
            store@,
            scope,
            store@.tasks,
        ),
{
    let scope = match visibility(claims.role) {
        Ok(s) => s,
        Err(e) => {
            return Err(e);
        },
    };
    let mut out: Vec<AdminTask> = Vec::new();
    let mut i: usize = 0;
    while i < store.tasks.len()
        invariant
            0 <= i <= store.tasks@.len(),
            store@.wf(),
            spec_visibility(claims.role) == Ok::<Visibility, CoreError>(scope),
            out@ == admin_rows(store@, scope, store.tasks@.subrange(0, i as int)),
        decreases store.tasks@.len() - i,
    {
        proof {
            assert(store.tasks@.subrange(0, i + 1).drop_last() =~= store.tasks@.subrange(0, i as int));
        }
        let t = &store.tasks[i];
        match find_user(store, &t.user_id) {
            Some(k) => {
                if scope.shows(store.users[k].role) {
                    out.push(
                        AdminTask {
                            task: t.copy(),
                            username: store.users[k].username.clone(),
                            full_name: store.users[k].full_name.clone(),
                        },
                    );
                }
            },
            None => {},
        }
        i = i + 1;
    }
    proof {
        assert(store.tasks@.subrange(0, store.tasks@.len() as int) =~= store.tasks@);
    }
    Ok(out)
}

/// Every task whose owner the caller may see, with the owner's names, most
/// recently updated first: all of them for a superadmin, those of `user`
/// accounts for an admin. A plain user is refused.
pub fn get_all_tasks_admin(store: &Store, claims: &AuthClaims) -> (r: Result<Vec<AdminTask>, CoreError>)
    requires
        store@.wf(),
    ensures
        spec_visibility(claims.role) is Err ==> r == Err::<Vec<AdminTask>, CoreError>(
            CoreError::Forbidden,
        ),
        spec_visibility(claims.role) matches Ok(scope) ==> r is Ok && ranked(r->Ok_0@)
            && r->Ok_0@.to_multiset() == admin_rows(store@, scope, store@.tasks).to_multiset(),
{
    match overview_rows(store, claims) {
        Ok(rows) => Ok(sort_by_rank(&rows)),
        Err(e) => Err(e),
    }
}

/// Whether `c` is an ASCII digit.
pub open spec fn is_digit(c: char) -> bool {
    '0' <= c <= '9'
}

/// The value of digit `c`.
pub open spec fn digit(c: char) -> int {
    c as int - '0' as int
}

/// The year and month that a `YYYY-MM` text names, if it is one.
pub open spec fn month_of_text(s: Seq<char>) -> Option<(i32, u32)> {
    if s.len() == 7 && is_digit(s[0]) && is_digit(s[1]) && is_digit(s[2]) && is_digit(s[3])
        && s[4] == '-' && is_digit(s[5]) && is_digit(s[6]) && 1 <= digit(s[5]) * 10 + digit(s[6])
        <= 12 {
        Some(
            (
                (digit(s[0]) * 1000 + digit(s[1]) * 100 + digit(s[2]) * 10 + digit(s[3])) as i32,
                (digit(s[5]) * 10 + digit(s[6])) as u32,
            ),
        )
    } else {
        None
    }
}

/// Reads a month written `YYYY-MM` (month 01 to 12).
pub fn parse_month(s: &String) -> (r: Option<(i32, u32)>)
    ensures
        r == month_of_text(s@),
{
    let t = s.as_str();
    if t.unicode_len() != 7 {
        return None;
    }
    let c0 = t.get_char(0);
    let c1 = t.get_char(1);
    let c2 = t.get_char(2);
    let c3 = t.get_char(3);
    let c4 = t.get_char(4);
    let c5 = t.get_char(5);
    let c6 = t.get_char(6);
    if !('0' <= c0 && c0 <= '9' && '0' <= c1 && c1 <= '9' && '0' <= c2 && c2 <= '9' && '0' <= c3
        && c3 <= '9' && c4 == '-' && '0' <= c5 && c5 <= '9' && '0' <= c6 && c6 <= '9') {
        return None;
    }
    let month = (c5 as u32 - '0' as u32) * 10 + (c6 as u32 - '0' as u32);
    if month < 1 || month > 12 {
        return None;
    }
    let year = ((c0 as u32 - '0' as u32) * 1000 + (c1 as u32 - '0' as u32) * 100 + (c2 as u32
        - '0' as u32) * 10 + (c3 as u32 - '0' as u32)) as i32;
    Some((year, month))
}

/// The month after `ym`, where the year stays representable.
pub open spec fn month_after(ym: (i32, u32)) -> Option<(i32, u32)> {
    if ym.1 >= 12 {
        if ym.0 < i32::MAX {
            Some(((ym.0 + 1) as i32, 1u32))
        } else {
            None
        }
    } else {
        Some((ym.0, (ym.1 + 1) as u32))
    }
}

pub fn next_month(ym: (i32, u32)) -> (r: Option<(i32, u32)>)
    ensures
        r == month_after(ym),
{
    if ym.1 >= 12 {
        if ym.0 < i32::MAX {
            Some((ym.0 + 1, 1))
        } else {
            None
        }
    } else {
        Some((ym.0, ym.1 + 1))
    }
}

/// Minutes of one account on one project (or on no project).
#[derive(Clone, Debug)]
pub struct TimeReportRow {
    pub user_id: String,
    pub username: String,
    pub full_name: String,
    pub project_id: Option<String>,
    pub project_name: Option<String>,
    pub project_color: Option<String>,
    pub minutes_this_period: i128,
    pub minutes_all_time: i128,
}

/// Report rows are listed by username, then most minutes first.
impl Ranked for TimeReportRow {
    open spec fn before(self, other: Self) -> bool {
        if self.username@ == other.username@ {
            self.minutes_all_time >= other.minutes_all_time
        } else {
            lex_le(self.username@, other.username@)
        }
    }

    proof fn lemma_order(a: Self, b: Self, c: Self) {
        lemma_lex(a.username@, b.username@, c.username@);
        lemma_lex(a.username@, c.username@, b.username@);
        lemma_lex(b.username@, c.username@, a.username@);
    }

    fn comes_first(&self, other: &Self) -> (r: bool) {
        if self.username == other.username {
            self.minutes_all_time >= other.minutes_all_time
        } else {
            text_le(&self.username, &other.username)
        }
    }

    fn duplicate(&self) -> (r: TimeReportRow) {
        TimeReportRow {
            user_id: self.user_id.clone(),
            username: self.username.clone(),
            full_name: self.full_name.clone(),
            project_id: copy_opt(&self.project_id),
            project_name: copy_opt(&self.project_name),
            project_color: copy_opt(&self.project_color),
            minutes_this_period: self.minutes_this_period,
            minutes_all_time: self.minutes_all_time,
        }
    }
}

/// The month a report covers, written `YYYY-MM`; the current month when absent.
#[derive(Clone, Debug)]
pub struct TimeReportQuery {
    pub month: Option<String>,
}

/// The project that entry `e` counts towards: its task's project, where both exist.
pub open spec fn entry_bucket(m: StoreModel, e: TimeEntry) -> Option<Seq<char>> {
    if task_id_used(m.tasks, e.task_id@) {
        match m.tasks[task_index(m.tasks, e.task_id@)].project_id {
            Some(p) => if project_id_used(m.projects, p@) {
                Some(p@)
            } else {
                None
            },
            None => None,
        }
    } else {
        None
    }
}

/// Entry `e` is `user`'s and counts towards `bucket`.
pub open spec fn in_bucket(m: StoreModel, e: TimeEntry, user: Seq<char>, bucket: Option<Seq<char>>) -> bool {
    e.user_id@ == user && entry_bucket(m, e) == bucket
}

/// Minutes of `user`'s entries in `bucket` that started in `from..to`.
pub open spec fn bucket_minutes(
    m: StoreModel,
    entries: Seq<TimeEntry>,
    user: Seq<char>,
    bucket: Option<Seq<char>>,
    from: int,
    to: int,
) -> int
    decreases entries.len(),
{
    if entries.len() == 0 {
        0
    } else {
        let e = entries.last();
        bucket_minutes(m, entries.drop_last(), user, bucket, from, to) + if in_bucket(m, e, user, bucket)
            && from <= e.start_time < to {
            e.duration_minutes as int
        } else {
            0
        }
    }
}

/// Number of `user`'s entries in `bucket`.
pub open spec fn bucket_count(m: StoreModel, entries: Seq<TimeEntry>, user: Seq<char>, bucket: Option<Seq<char>>) -> nat
    decreases entries.len(),
{
    if entries.len() == 0 {
        0
    } else {
        bucket_count(m, entries.drop_last(), user, bucket) + if in_bucket(m, entries.last(), user, bucket) {
            1nat
        } else {
            0nat
        }
    }
}

/// Whether `user` has any time entry.
pub open spec fn has_entries(entries: Seq<TimeEntry>, user: Seq<char>) -> bool {
    exists|i: int| 0 <= i < entries.len() && (#[trigger] entries[i]).user_id@ == user
}

/// The earliest and the end of time, for all-time sums.
pub open spec fn all_time() -> (int, int) {
    (i64::MIN as int, 0x8000_0000_0000_0000)
}

/// The row of `u` on `p` (or on no project) for the period `from..to`.
pub open spec fn report_row(m: StoreModel, u: User, p: Option<Project>, from: int, to: int) -> TimeReportRow {
    let bucket = match p {
        Some(q) => Some(q.id@),
        None => None,
    };
    TimeReportRow {
        user_id: u.id,
        username: u.username,
        full_name: u.full_name,
        project_id: match p {
            Some(q) => Some(q.id),
            None => None,
        },
        project_name: match p {
            Some(q) => Some(q.name),
            None => None,
        },
        project_color: match p {
            Some(q) => Some(q.color),
            None => None,
        },
        minutes_this_period: bucket_minutes(m, m.entries, u.id@, bucket, from, to) as i128,
        minutes_all_time: bucket_minutes(m, m.entries, u.id@, bucket, all_time().0, all_time().1) as i128,
    }
}

/// The rows of `u` on the projects of `ps` that hold some of their entries.
pub open spec fn project_rows(m: StoreModel, u: User, ps: Seq<Project>, from: int, to: int) -> Seq<TimeReportRow>
    decreases ps.len(),
{
    if ps.len() == 0 {
        Seq::empty()
    } else {
        let earlier = project_rows(m, u, ps.drop_last(), from, to);
        if bucket_count(m, m.entries, u.id@, Some(ps.last().id@)) > 0 {
            earlier.push(report_row(m, u, Some(ps.last()), from, to))
        } else {
            earlier
        }
    }
}

/// The rows of `u`: one for the entries on no project (also when `u` has no
/// entry at all), then one per project with entries of `u`.
pub open spec fn user_rows(m: StoreModel, u: User, from: int, to: int) -> Seq<TimeReportRow> {
    let none = if bucket_count(m, m.entries, u.id@, None) > 0 || !has_entries(m.entries, u.id@) {
        seq![report_row(m, u, None, from, to)]
    } else {
        Seq::empty()
    };
    none + project_rows(m, u, m.projects, from, to)
}

/// The rows of the accounts of `us` visible under `scope`, in order.
pub open spec fn report_rows(m: StoreModel, us: Seq<User>, scope: Visibility, from: int, to: int) -> Seq<TimeReportRow>
    decreases us.len(),
{
    if us.len() == 0 {
        Seq::empty()
    } else {
        let earlier = report_rows(m, us.drop_last(), scope, from, to);
        if scope.spec_shows(us.last().role) {
            earlier + user_rows(m, us.last(), from, to)
        } else {
            earlier
        }
    }
}

/// Position of the task `id`, if it exists.
fn task_position(store: &Store, id: &String) -> (r: Option<usize>)
    requires
        store@.wf(),
    ensures
        r is None ==> !task_id_used(store@.tasks, id@),
        r matches Some(i) ==> task_id_used(store@.tasks, id@) && i == task_index(store@.tasks, id@),
{
    let mut i: usize = 0;
    while i < store.tasks.len()
        invariant
            0 <= i <= store.tasks@.len(),
            store@.wf(),
            forall|k: int| 0 <= k < i ==> (#[trigger] store.tasks@[k]).id@ != id@,
        decreases store.tasks@.len() - i,
    {
        if store.tasks[i].id == *id {
            proof {
                let j = task_index(store@.tasks, id@);
                assert(store@.tasks[j].id@ == store@.tasks[i as int].id@);
            }
            return Some(i);
        }
        i = i + 1;
    }
    None
}

/// Whether some project has id `id`.
fn has_project_id(store: &Store, id: &String) -> (b: bool)
    ensures
        b == project_id_used(store@.projects, id@),
{
    let mut i: usize = 0;
    while i < store.projects.len()
        invariant
            0 <= i <= store.projects@.len(),
            forall|k: int| 0 <= k < i ==> (#[trigger] store.projects@[k]).id@ != id@,
        decreases store.projects@.len() - i,
    {
        if store.projects[i].id == *id {
            return true;
        }
        i = i + 1;
    }
    false
}

/// Whether entry `e` counts towards `bucket`.
fn entry_in_bucket(store: &Store, e: &TimeEntry, bucket: Option<&String>) -> (b: bool)
    requires
        store@.wf(),
    ensures
        b == (entry_bucket(store@, *e) == match bucket {
            Some(p) => Some(p@),
            None => None::<Seq<char>>,
        }),
{
    let actual: Option<&String> = match task_position(store, &e.task_id) {
        None => None,
        Some(k) => match &store.tasks[k].project_id {
            None => None,
            Some(p) => if has_project_id(store, p) {
                Some(p)
            } else {
                None
            },
        },
    };
    assert(entry_bucket(store@, *e) == match actual {
        Some(p) => Some(p@),
        None => None::<Seq<char>>,
    });
    match (actual, bucket) {
        (None, None) => true,
        (Some(a), Some(b)) => *a == *b,
        _ => false,
    }
}

/// The minutes of `user`'s entries in `bucket` over `from..to` and over all
/// time, and their number.
fn tally_bucket(store: &Store, user: &String, bucket: Option<&String>, from: i128, to: i128) -> (r: (
    i128,
    i128,
    u64,
))
    requires
        store@.wf(),
    ensures
        ({
            let b = match bucket {
                Some(p) => Some(p@),
                None => None::<Seq<char>>,
            };
            &&& r.0 == bucket_minutes(store@, store@.entries, user@, b, from as int, to as int)
            &&& r.1 == bucket_minutes(store@, store@.entries, user@, b, all_time().0, all_time().1)
            &&& r.2 == bucket_count(store@, store@.entries, user@, b)
        }),
{
    let ghost b = match bucket {
        Some(p) => Some(p@),
        None => None::<Seq<char>>,
    };
    let mut period: i128 = 0;
    let mut total: i128 = 0;
    let mut n: u64 = 0;
    let mut i: usize = 0;
    while i < store.entries.len()
        invariant
            0 <= i <= store.entries@.len(),
            store@.wf(),
            n <= i,
            b == (match bucket {
                Some(p) => Some(p@),
                None => None::<Seq<char>>,
            }),
            -(i as int) * 0x8000_0000_0000_0000 <= period <= (i as int) * 0x8000_0000_0000_0000,
            -(i as int) * 0x8000_0000_0000_0000 <= total <= (i as int) * 0x8000_0000_0000_0000,
            period == bucket_minutes(store@, store.entries@.subrange(0, i as int), user@, b, from as int, to as int),
            total == bucket_minutes(store@, store.entries@.subrange(0, i as int), user@, b, all_time().0, all_time().1),
            n == bucket_count(store@, store.entries@.subrange(0, i as int), user@, b),
        decreases store.entries@.len() - i,
    {
        proof {
            assert(store.entries@.subrange(0, i + 1).drop_last() =~= store.entries@.subrange(0, i as int));
        }
        let e = &store.entries[i];
        if e.user_id == *user && entry_in_bucket(store, e, bucket) {
            let d = e.duration_minutes as i128;
            total = total + d;
            n = n + 1;
            let st = e.start_time as i128;
            if from <= st && st < to {
                period = period + d;
            }
        }
        i = i + 1;
    }
    proof {
        assert(store.entries@.subrange(0, store.entries@.len() as int) =~= store.entries@);
    }
    (period, total, n)
}

fn make_row(u: &User, p: Option<&Project>, period: i128, total: i128) -> (r: TimeReportRow)
    ensures
        r.user_id == u.id && r.username == u.username && r.full_name == u.full_name,
        r.project_id == (match p {
            Some(q) => Some(q.id),
            None => None,
        }),
        r.project_name == (match p {
            Some(q) => Some(q.name),
            None => None,
        }),
        r.project_color == (match p {
            Some(q) => Some(q.color),
            None => None,
        }),
        r.minutes_this_period == period && r.minutes_all_time == total,
{
    TimeReportRow {
        user_id: u.id.clone(),
        username: u.username.clone(),
        full_name: u.full_name.clone(),
        project_id: match p {
            Some(q) => Some(q.id.clone()),
            None => None,
        },
        project_name: match p {
            Some(q) => Some(q.name.clone()),
            None => None,
        },
        project_color: match p {
            Some(q) => Some(q.color.clone()),
            None => None,
        },
        minutes_this_period: period,
        minutes_all_time: total,
    }
}

/// Whether `user` has any time entry.
fn user_has_entries(store: &Store, user: &String) -> (b: bool)
    ensures
        b == has_entries(store@.entries, user@),
{
    let mut i: usize = 0;
    while i < store.entries.len()
        invariant
            0 <= i <= store.entries@.len(),
            forall|k: int| 0 <= k < i ==> (#[trigger] store.entries@[k]).user_id@ != user@,
        decreases store.entries@.len() - i,
    {
        if store.entries[i].user_id == *user {
            return true;
        }
        i = i + 1;
    }
    false
}

/// Appends the rows of account `u` for the period `from..to`.
fn push_user_rows(store: &Store, u: &User, from: i128, to: i128, out: &mut Vec<TimeReportRow>)
    requires
        store@.wf(),
    ensures
        final(out)@ == old(out)@ + user_rows(store@, *u, from as int, to as int),
{
    let ghost m = store@;
    let ghost start = old(out)@;
    let (period, total, n) = tally_bucket(store, &u.id, None, from, to);
    let any = user_has_entries(store, &u.id);
    if n > 0 || !any {
        let row = make_row(u, None, period, total);
        assert(row == report_row(m, *u, None, from as int, to as int));
        out.push(row);
    }
    let ghost head = out@;
    assert(head == start + (if bucket_count(m, m.entries, u.id@, None) > 0 || !has_entries(m.entries, u.id@) {
        seq![report_row(m, *u, None, from as int, to as int)]
    } else {
        Seq::empty()
    }));
    let mut j: usize = 0;
    while j < store.projects.len()
        invariant
            0 <= j <= store.projects@.len(),
            store@.wf(),
            m == store@,
            out@ == head + project_rows(m, *u, m.projects.subrange(0, j as int), from as int, to as int),
        decreases store.projects@.len() - j,
    {
        proof {
            assert(m.projects.subrange(0, j + 1).drop_last() =~= m.projects.subrange(0, j as int));
        }
        let p = &store.projects[j];
        let (period, total, n) = tally_bucket(store, &u.id, Some(&p.id), from, to);
        if n > 0 {
            let row = make_row(u, Some(p), period, total);
            assert(row == report_row(m, *u, Some(*p), from as int, to as int));
            out.push(row);
            assert(out@ =~= head + project_rows(m, *u, m.projects.subrange(0, j + 1), from as int, to as int));
        }
        j = j + 1;
    }
    proof {
        assert(m.projects.subrange(0, m.projects.len() as int) =~= m.projects);
        assert(out@ =~= start + user_rows(m, *u, from as int, to as int));
    }
}

/// A time report: the month it covers and its rows.
#[derive(Clone, Debug)]
pub struct TimeReport {
    pub year: i32,
    pub month: u32,
    pub rows: Vec<TimeReportRow>,
}

/// The month a report covers.
pub open spec fn report_month(q: TimeReportQuery, now: Timestamp) -> Option<(i32, u32)> {
    match q.month {
        Some(s) => month_of_text(s@),
        None => utc_year_month(now),
    }
}

/// The first second of month `ym` and of the month after it.
pub open spec fn period_of(ym: (i32, u32)) -> Option<(Timestamp, Timestamp)> {
    match (utc_first_of_month(ym.0, ym.1), month_after(ym)) {
        (Some(a), Some(n)) => match utc_first_of_month(n.0, n.1) {
            Some(b) => Some((a, b)),
            None => None,
        },
        _ => None,
    }
}

/// Minutes per account and project, this period and all time, for elevated
/// callers, by username and then most minutes first: a superadmin sees every
/// account, an admin the `user` accounts.
///
/// A plain user is refused; a month that is not `YYYY-MM`, or that the
/// calendar cannot place, is invalid; a clock that cannot be read is an
/// internal failure.
pub fn get_time_report_admin(
    store: &Store,
    claims: &AuthClaims,
    query: &TimeReportQuery,
    now: Timestamp,
) -> (r: Result<TimeReport, CoreError>)
    requires
        store@.wf(),
    ensures
        spec_visibility(claims.role) is Err ==> r == Err::<TimeReport, CoreError>(CoreError::Forbidden),
        spec_visibility(claims.role) is Ok && (report_month(*query, now) is None || period_of(
            report_month(*query, now)->0,
        ) is None) ==> r == Err::<TimeReport, CoreError>(
            if query.month is Some {
                CoreError::Invalid
            } else {
                CoreError::Internal
            },
        ),
        spec_visibility(claims.role) matches Ok(scope) ==> (report_month(*query, now) matches Some(ym)
            ==> (period_of(ym) matches Some(pd) ==> {
            &&& r is Ok
            &&& r->Ok_0.year == ym.0
            &&& r->Ok_0.month == ym.1
            &&& ranked(r->Ok_0.rows@)
            &&& r->Ok_0.rows@.to_multiset() == report_rows(
                store@,
                store@.users,
                scope,
                pd.0 as int,
                pd.1 as int,
            ).to_multiset()
        })),
{
    let scope = match visibility(claims.role) {
        Ok(s) => s,
        Err(e) => {
            return Err(e);
        },
    };
    let failure = if query.month.is_some() {
        CoreError::Invalid
    } else {
        CoreError::Internal
    };
    let ym = match &query.month {
        Some(s) => parse_month(s),
        None => year_month(now),
    };
    let ym = match ym {
        Some(x) => x,
        None => {
            return Err(failure);
        },
    };
    let start = match first_of_month(ym.0, ym.1) {
        Some(a) => a,
        None => {
            return Err(failure);
        },
    };
    let after = match next_month(ym) {
        Some(n) => n,
        None => {
            return Err(failure);
        },
    };
    let end = match first_of_month(after.0, after.1) {
        Some(b) => b,
        None => {
            return Err(failure);
        },
    };
    Ok(TimeReport { year: ym.0, month: ym.1, rows: report_for_period(store, scope, start, end) })
}

/// The rows of the accounts visible under `scope` for the period `start..end`,
/// in store order of accounts and then of projects.
fn rows_for_period(store: &Store, scope: Visibility, start: Timestamp, end: Timestamp) -> (r: Vec<
    TimeReportRow,
>)
    requires
        store@.wf(),
    ensures
        r@ == report_rows(store@, store@.users, scope, start as int, end as int),
{
    let mut rows: Vec<TimeReportRow> = Vec::new();
    let mut i: usize = 0;
    while i < store.users.len()
        invariant
            0 <= i <= store.users@.len(),
            store@.wf(),
            rows@ == report_rows(store@, store.users@.subrange(0, i as int), scope, start as int, end as int),
        decreases store.users@.len() - i,
    {
        proof {
            assert(store.users@.subrange(0, i + 1).drop_last() =~= store.users@.subrange(0, i as int));
        }
        if scope.shows(store.users[i].role) {
            push_user_rows(store, &store.users[i], start as i128, end as i128, &mut rows);
        }
        i = i + 1;
    }
    proof {
        assert(store.users@.subrange(0, store.users@.len() as int) =~= store.users@);
    }
    rows
}

/// The rows of the accounts visible under `scope` for the period `start..end`,
/// listed by username and then most minutes first.
pub fn report_for_period(store: &Store, scope: Visibility, start: Timestamp, end: Timestamp) -> (r: Vec<
    TimeReportRow,
>)
    requires
        store@.wf(),
    ensures
        ranked(r@),
        r@.to_multiset() == report_rows(store@, store@.users, scope, start as int, end as int).to_multiset(),
{
    sort_by_rank(&rows_for_period(store, scope, start, end))
}

} // verus!
