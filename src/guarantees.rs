use vstd::prelude::*;
use crate::entries::is_owned_entry;
use crate::model::{ActiveTimer, Timestamp};
use crate::projects::{detached, project_deleted, projects_of};
use crate::role::{spec_may_manage, spec_role_change, CoreError, Role};
use crate::store::{
    entry_not_on, has_timer, is_owned_project, is_owned_task, one_timer_per_user, owns_project,
    owns_task, project_key, task_id_used, unique_task_ids, subtask_not_on, task_index, timer_index, timer_not_on, StoreModel,
};
use crate::subtasks::is_owned_subtask;
use crate::tasks::{bulk_deleted, task_deleted, tasks_of};
use crate::timer::{closed, closing_entry, opened_timer, spec_duration_minutes, started, timer_of};

verus! {

/// Timers of `user`.
pub open spec fn timer_owned_by(user: Seq<char>) -> spec_fn(ActiveTimer) -> bool {
    |t: ActiveTimer| t.user_id@ == user
}

/// In a well-formed store a user has at most one running timer. Every
/// operation keeps the store well-formed, so this holds after any sequence of
/// `start_timer` and `stop_timer` calls.
pub proof fn lemma_single_timer(m: StoreModel, user: Seq<char>)
    requires
        m.wf(),
    ensures
        m.timers.filter(timer_owned_by(user)).len() <= 1,
    decreases m.timers.len(),
{
    lemma_single_timer_seq(m.timers, user);
}

proof fn lemma_single_timer_seq(s: Seq<ActiveTimer>, user: Seq<char>)
    requires
        one_timer_per_user(s),
    ensures
        s.filter(timer_owned_by(user)).len() <= 1,
    decreases s.len(),
{
    reveal(Seq::filter);
    if s.len() > 0 {
        let d = s.drop_last();
        assert(one_timer_per_user(d)) by {
            assert forall|a: int, b: int|
                0 <= a < d.len() && 0 <= b < d.len() && #[trigger] d[a].user_id@ == #[trigger] d[b].user_id@
                implies a == b by {
                assert(d[a] == s[a] && d[b] == s[b]);
            }
        }
        lemma_single_timer_seq(d, user);
        let f = d.filter(timer_owned_by(user));
        if s.last().user_id@ == user && f.len() > 0 {
            d.lemma_filter_pred(timer_owned_by(user), 0);
            d.lemma_filter_contains_rev(timer_owned_by(user), f[0]);
            let j = choose|j: int| 0 <= j < d.len() && d[j] == f[0];
            assert(s[j].user_id@ == s[s.len() - 1].user_id@);
        }
    }
}

/// Rounding up to whole minutes covers the interval and overshoots it by less
/// than a minute.
pub proof fn lemma_minutes_cover(start: int, now: int)
    requires
        start <= now,
    ensures
        60 * spec_duration_minutes(start, now) >= now - start,
        60 * spec_duration_minutes(start, now) < now - start + 60,
{
    let e = now - start;
    let d = spec_duration_minutes(start, now);
    assert(d == (e + 59) / 60);
    assert(60 * d >= e && 60 * d < e + 60) by (nonlinear_arith)
        requires
            d == (e + 59) / 60,
            e >= 0,
    ;
}

proof fn lemma_fresh_timer_index(m: StoreModel, t: ActiveTimer)
    requires
        one_timer_per_user(m.timers),
        !has_timer(m.timers, t.user_id@),
    ensures
        one_timer_per_user(m.timers.push(t)),
        has_timer(m.timers.push(t), t.user_id@),
        timer_index(m.timers.push(t), t.user_id@) == m.timers.len(),
{
    let s = m.timers.push(t);
    assert(s[m.timers.len() as int] == t);
    let j = timer_index(s, t.user_id@);
    if j < m.timers.len() {
        assert(s[j] == m.timers[j]);
    }
    assert forall|a: int, b: int|
        0 <= a < s.len() && 0 <= b < s.len() && #[trigger] s[a].user_id@ == #[trigger] s[b].user_id@
        implies a == b by {
        if a < m.timers.len() {
            assert(s[a] == m.timers[a]);
        }
        if b < m.timers.len() {
            assert(s[b] == m.timers[b]);
        }
    }
}

/// From an idle state, `start(u, A)` at `t1`, `start(u, B)` at `t2` and
/// `stop(u)` at `t3` add exactly two time entries, one for `A` over `t1..t2`
/// and one for `B` over `t2..t3`, each rounded up to whole minutes on its own;
/// together they cover the whole span `t1..t3`, and the user is idle again.
pub proof fn lemma_conservation(
    m: StoreModel,
    user: String,
    task_a: String,
    task_b: String,
    notes_a: String,
    notes_b: String,
    t1: Timestamp,
    t2: Timestamp,
    t3: Timestamp,
    timer_a: String,
    timer_b: String,
    entry_0: String,
    entry_a: String,
    entry_b: String,
)
    requires
        m.wf(),
        !has_timer(m.timers, user@),
        t1 <= t2 <= t3,
    ensures
        ({
            let m1 = started(m, user, task_a, notes_a, t1, timer_a, entry_0);
            let m2 = started(m1, user, task_b, notes_b, t2, timer_b, entry_a);
            let m3 = closed(m2, user@, t3, entry_b);
            let ea = closing_entry(opened_timer(user, task_a, notes_a, t1, timer_a), t2, entry_a);
            let eb = closing_entry(opened_timer(user, task_b, notes_b, t2, timer_b), t3, entry_b);
            &&& m3.entries == m.entries.push(ea).push(eb)
            &&& ea.task_id == task_a && eb.task_id == task_b
            &&& ea.start_time == t1 && ea.end_time == Some(t2)
            &&& eb.start_time == t2 && eb.end_time == Some(t3)
            &&& ea.duration_minutes == spec_duration_minutes(t1 as int, t2 as int)
            &&& eb.duration_minutes == spec_duration_minutes(t2 as int, t3 as int)
            &&& 60 * (ea.duration_minutes + eb.duration_minutes) >= t3 - t1
            &&& 60 * (ea.duration_minutes + eb.duration_minutes) < t3 - t1 + 120
            &&& !has_timer(m3.timers, user@)
        }),
{
    let ta = opened_timer(user, task_a, notes_a, t1, timer_a);
    let tb = opened_timer(user, task_b, notes_b, t2, timer_b);
    let m1 = started(m, user, task_a, notes_a, t1, timer_a, entry_0);
    assert(closed(m, user@, t1, entry_0) == m);
    assert(m1.timers == m.timers.push(ta));
    assert(m1.entries == m.entries);
    lemma_fresh_timer_index(m, ta);
    let c1 = closed(m1, user@, t2, entry_a);
    assert(m1.timers.remove(m.timers.len() as int) =~= m.timers);
    assert(c1.timers == m.timers);
    assert(c1.entries == m.entries.push(closing_entry(ta, t2, entry_a)));
    let m2 = started(m1, user, task_b, notes_b, t2, timer_b, entry_a);
    assert(m2.timers == m.timers.push(tb));
    lemma_fresh_timer_index(m, tb);
    let m3 = closed(m2, user@, t3, entry_b);
    assert(m2.timers.remove(m.timers.len() as int) =~= m.timers);
    assert(m3.timers == m.timers);
    lemma_minutes_cover(t1 as int, t2 as int);
    lemma_minutes_cover(t2 as int, t3 as int);
    lemma_duration_fits(t1 as int, t2 as int);
    lemma_duration_fits(t2 as int, t3 as int);
}

proof fn lemma_duration_fits(start: int, now: int)
    requires
        i64::MIN <= start <= now <= i64::MAX,
    ensures
        0 <= spec_duration_minutes(start, now) <= i64::MAX,
{
    let e = now - start;
    assert(0 <= (e + 59) / 60 <= e + 59) by (nonlinear_arith)
        requires
            e >= 0,
    ;
    assert(e + 59 <= 0xffff_ffff_ffff_ffff + 59);
    assert((e + 59) / 60 <= i64::MAX) by (nonlinear_arith)
        requires
            0 <= e <= 0xffff_ffff_ffff_ffff,
    ;
}

/// After a stop the user is idle, so a second stop finds no timer and changes
/// nothing.
pub proof fn lemma_stop_leaves_idle(m: StoreModel, user: Seq<char>, now: Timestamp, entry_id: String)
    requires
        m.wf(),
    ensures
        !has_timer(closed(m, user, now, entry_id).timers, user),
{
    if has_timer(m.timers, user) {
        let i = timer_index(m.timers, user);
        let c = closed(m, user, now, entry_id);
        assert forall|k: int| 0 <= k < c.timers.len() implies (#[trigger] c.timers[k]).user_id@ != user by {
            let kk = if k < i { k } else { k + 1 };
            assert(c.timers[k] == m.timers[kk]);
        }
    }
}

/// Rows are visible to their owner alone: no id of another user's task,
/// project, subtask or time entry is found for `x` (every operation then
/// reports not-found and changes nothing), the running timer found for `x` is
/// their own, and the listings of `x` hold only rows of `x`.
pub proof fn lemma_ownership_isolation(m: StoreModel, x: Seq<char>, id: Seq<char>)
    ensures
        (forall|i: int| 0 <= i < m.tasks.len() && (#[trigger] m.tasks[i]).id@ == id ==> m.tasks[i].user_id@ != x)
            ==> !owns_task(m.tasks, x, id),
        (forall|i: int|
            0 <= i < m.projects.len() && (#[trigger] m.projects[i]).id@ == id ==> m.projects[i].user_id@ != x)
            ==> !owns_project(m.projects, x, id),
        (forall|i: int|
            0 <= i < m.subtasks.len() && (#[trigger] m.subtasks[i]).id@ == id ==> m.subtasks[i].user_id@ != x)
            ==> forall|i: int| 0 <= i < m.subtasks.len() ==> !is_owned_subtask(#[trigger] m.subtasks[i], x, id),
        (forall|i: int|
            0 <= i < m.entries.len() && (#[trigger] m.entries[i]).id@ == id ==> m.entries[i].user_id@ != x)
            ==> forall|i: int| 0 <= i < m.entries.len() ==> !is_owned_entry(#[trigger] m.entries[i], x, id),
        has_timer(m.timers, x) ==> timer_of(m, x).user_id@ == x,
        forall|k: int| 0 <= k < tasks_of(m.tasks, x).len() ==> (#[trigger] tasks_of(m.tasks, x)[k]).user_id@ == x,
        forall|k: int|
            0 <= k < projects_of(m.projects, x).len() ==> (#[trigger] projects_of(m.projects, x)[k]).user_id@ == x,
{
    assert forall|k: int| 0 <= k < tasks_of(m.tasks, x).len() implies (#[trigger] tasks_of(m.tasks, x)[k]).user_id@
        == x by {
        m.tasks.lemma_filter_pred(crate::tasks::task_owned_by(x), k);
    }
    assert forall|k: int| 0 <= k < projects_of(m.projects, x).len() implies (#[trigger] projects_of(
        m.projects,
        x,
    )[k]).user_id@ == x by {
        m.projects.lemma_filter_pred(crate::projects::project_of(x), k);
    }
}

/// An admin can neither delete, reset, nor change the role of an admin or a
/// superadmin (any role name is forbidden; only text that names no role is
/// invalid); a superadmin can act on any account but a superadmin; nobody can
/// change their own role.
pub proof fn lemma_role_hierarchy(
    caller_id: Seq<char>,
    target_id: Seq<char>,
    new_role: Seq<char>,
    target: Role,
)
    ensures
        target != Role::User ==> !spec_may_manage(Role::Admin, target),
        target != Role::User ==> spec_role_change(
            caller_id,
            Role::Admin,
            target_id,
            new_role,
            Some(target),
        ) is Err,
        target != Role::User && caller_id != target_id && crate::role::role_of_name(new_role) is Some
            ==> spec_role_change(
            caller_id,
            Role::Admin,
            target_id,
            new_role,
            Some(target),
        ) == Err::<Role, CoreError>(CoreError::Forbidden),
        target != Role::Superadmin ==> spec_may_manage(Role::Superadmin, target),
        target != Role::Superadmin && caller_id != target_id && crate::role::role_of_name(new_role)
            is Some ==> spec_role_change(caller_id, Role::Superadmin, target_id, new_role, Some(target))
            == Ok::<Role, CoreError>(crate::role::role_of_name(new_role)->0),
        forall|caller: Role, t: Option<Role>|
            #[trigger] spec_role_change(caller_id, caller, caller_id, new_role, t) is Err,
{
    reveal_strlit("user");
}

/// Deleting a task leaves no subtask, time entry or timer of it, and no task
/// with its id; deleting a project leaves no project with its id and every
/// task in place, none of the owner's filed under it.
pub proof fn lemma_cascade(m: StoreModel, owner: Seq<char>, id: Seq<char>)
    requires
        m.wf(),
    ensures
        owns_task(m.tasks, owner, id) ==> {
            let d = task_deleted(m, id);
            &&& forall|k: int| 0 <= k < d.subtasks.len() ==> (#[trigger] d.subtasks[k]).task_id@ != id
            &&& forall|k: int| 0 <= k < d.entries.len() ==> (#[trigger] d.entries[k]).task_id@ != id
            &&& forall|k: int| 0 <= k < d.timers.len() ==> (#[trigger] d.timers[k]).task_id@ != id
            &&& forall|k: int| 0 <= k < d.tasks.len() ==> (#[trigger] d.tasks[k]).id@ != id
            &&& d.tasks.len() == m.tasks.len() - 1
        },
        ({
            let d = project_deleted(m, owner, id);
            &&& d.tasks.len() == m.tasks.len()
            &&& forall|k: int|
                0 <= k < d.tasks.len() ==> (#[trigger] d.tasks[k]).id == m.tasks[k].id && (
                d.tasks[k].user_id@ == owner ==> !(d.tasks[k].project_id matches Some(p) && p@ == id))
            &&& forall|k: int|
                0 <= k < d.projects.len() ==> !is_owned_project(#[trigger] d.projects[k], owner, id)
            &&& owns_project(m.projects, owner, id) ==> forall|k: int|
                0 <= k < d.projects.len() ==> (#[trigger] d.projects[k]).id@ != id
        }),
{
    if owns_task(m.tasks, owner, id) {
        let d = task_deleted(m, id);
        assert forall|k: int| 0 <= k < d.subtasks.len() implies (#[trigger] d.subtasks[k]).task_id@ != id by {
            m.subtasks.lemma_filter_pred(subtask_not_on(id), k);
        }
        assert forall|k: int| 0 <= k < d.entries.len() implies (#[trigger] d.entries[k]).task_id@ != id by {
            m.entries.lemma_filter_pred(entry_not_on(id), k);
        }
        assert forall|k: int| 0 <= k < d.timers.len() implies (#[trigger] d.timers[k]).task_id@ != id by {
            m.timers.lemma_filter_pred(timer_not_on(id), k);
        }
        let i = task_index(m.tasks, id);
        let w = choose|w: int| 0 <= w < m.tasks.len() && is_owned_task(#[trigger] m.tasks[w], owner, id);
        assert(m.tasks[w].id@ == id);
        assert forall|k: int| 0 <= k < d.tasks.len() implies (#[trigger] d.tasks[k]).id@ != id by {
            let kk = if k < i { k } else { k + 1 };
            assert(d.tasks[k] == m.tasks[kk]);
            if m.tasks[kk].id@ == id {
                assert(m.tasks[kk].id@ == m.tasks[i].id@);
            }
        }
    }
    let d = project_deleted(m, owner, id);
    assert forall|k: int| 0 <= k < d.projects.len() implies !is_owned_project(#[trigger] d.projects[k], owner, id) by {
        m.projects.lemma_filter_pred(crate::projects::project_kept(owner, id), k);
    }
    if owns_project(m.projects, owner, id) {
        let w = choose|w: int| 0 <= w < m.projects.len() && is_owned_project(#[trigger] m.projects[w], owner, id);
        assert forall|k: int| 0 <= k < d.projects.len() implies (#[trigger] d.projects[k]).id@ != id by {
            m.projects.lemma_filter_pred(crate::projects::project_kept(owner, id), k);
            m.projects.lemma_filter_contains_rev(crate::projects::project_kept(owner, id), d.projects[k]);
            let j = choose|j: int| 0 <= j < m.projects.len() && m.projects[j] == d.projects[k];
            if d.projects[k].id@ == id {
                assert(project_key()(m.projects[j]) == project_key()(m.projects[w]));
            }
        }
    }
    assert forall|k: int| 0 <= k < d.tasks.len() implies (#[trigger] d.tasks[k]).id == m.tasks[k].id && (
        d.tasks[k].user_id@ == owner ==> !(d.tasks[k].project_id matches Some(p) && p@ == id)) by {
        assert(d.tasks[k] == detached(m.tasks[k], owner, id));
    }
}

/// Nothing of task `id` is left: no task with that id, and no subtask, time
/// entry or timer on it.
pub open spec fn task_gone(m: StoreModel, id: Seq<char>) -> bool {
    &&& forall|k: int| 0 <= k < m.tasks.len() ==> (#[trigger] m.tasks[k]).id@ != id
    &&& forall|k: int| 0 <= k < m.subtasks.len() ==> (#[trigger] m.subtasks[k]).task_id@ != id
    &&& forall|k: int| 0 <= k < m.entries.len() ==> (#[trigger] m.entries[k]).task_id@ != id
    &&& forall|k: int| 0 <= k < m.timers.len() ==> (#[trigger] m.timers[k]).task_id@ != id
}

proof fn lemma_task_deleted_facts(m: StoreModel, owner: Seq<char>, y: Seq<char>)
    requires
        unique_task_ids(m.tasks),
        task_id_used(m.tasks, y),
    ensures
        unique_task_ids(task_deleted(m, y).tasks),
        task_gone(task_deleted(m, y), y),
        forall|x: Seq<char>| task_gone(m, x) ==> #[trigger] task_gone(task_deleted(m, y), x),
        forall|x: Seq<char>|
            x != y && owns_task(m.tasks, owner, x) ==> #[trigger] owns_task(task_deleted(m, y).tasks, owner, x),
{
    let d = task_deleted(m, y);
    let i = task_index(m.tasks, y);
    assert forall|k: int| 0 <= k < d.tasks.len() implies #[trigger] d.tasks[k] == m.tasks[if k < i { k } else { k + 1 }] by {
    }
    assert forall|a: int, b: int|
        0 <= a < d.tasks.len() && 0 <= b < d.tasks.len() && #[trigger] d.tasks[a].id@ == #[trigger] d.tasks[b].id@
        implies a == b by {
        let aa = if a < i { a } else { a + 1 };
        let bb = if b < i { b } else { b + 1 };
        assert(d.tasks[a] == m.tasks[aa] && d.tasks[b] == m.tasks[bb]);
    }
    assert forall|k: int| 0 <= k < d.subtasks.len() implies (#[trigger] d.subtasks[k]).task_id@ != y by {
        m.subtasks.lemma_filter_pred(subtask_not_on(y), k);
    }
    assert forall|k: int| 0 <= k < d.entries.len() implies (#[trigger] d.entries[k]).task_id@ != y by {
        m.entries.lemma_filter_pred(entry_not_on(y), k);
    }
    assert forall|k: int| 0 <= k < d.timers.len() implies (#[trigger] d.timers[k]).task_id@ != y by {
        m.timers.lemma_filter_pred(timer_not_on(y), k);
    }
    assert forall|k: int| 0 <= k < d.tasks.len() implies (#[trigger] d.tasks[k]).id@ != y by {
        let kk = if k < i { k } else { k + 1 };
        assert(d.tasks[k] == m.tasks[kk]);
        if m.tasks[kk].id@ == y {
            assert(m.tasks[kk].id@ == m.tasks[i].id@);
        }
    }
    assert forall|x: Seq<char>| task_gone(m, x) implies #[trigger] task_gone(d, x) by {
        assert forall|k: int| 0 <= k < d.tasks.len() implies (#[trigger] d.tasks[k]).id@ != x by {
            let kk = if k < i { k } else { k + 1 };
            assert(d.tasks[k] == m.tasks[kk]);
        }
        assert forall|k: int| 0 <= k < d.subtasks.len() implies (#[trigger] d.subtasks[k]).task_id@ != x by {
            m.subtasks.lemma_filter_contains_rev(subtask_not_on(y), d.subtasks[k]);
        }
        assert forall|k: int| 0 <= k < d.entries.len() implies (#[trigger] d.entries[k]).task_id@ != x by {
            m.entries.lemma_filter_contains_rev(entry_not_on(y), d.entries[k]);
        }
        assert forall|k: int| 0 <= k < d.timers.len() implies (#[trigger] d.timers[k]).task_id@ != x by {
            m.timers.lemma_filter_contains_rev(timer_not_on(y), d.timers[k]);
        }
    }
    assert forall|x: Seq<char>| x != y && owns_task(m.tasks, owner, x) implies #[trigger] owns_task(d.tasks, owner, x) by {
        let w = choose|w: int| 0 <= w < m.tasks.len() && is_owned_task(#[trigger] m.tasks[w], owner, x);
        let ww = if w < i { w } else { w - 1 };
        assert(w != i);
        assert(d.tasks[ww] == m.tasks[w]);
    }
}

/// Deleting tasks in bulk leaves nothing of any listed task that the owner
/// had: no task with its id, and no subtask, time entry or timer on it.
pub proof fn lemma_bulk_cascade(m: StoreModel, owner: Seq<char>, ids: Seq<String>)
    requires
        m.wf(),
    ensures
        forall|k: int|
            0 <= k < ids.len() && owns_task(m.tasks, owner, (#[trigger] ids[k])@) ==> task_gone(
                bulk_deleted(m, owner, ids).0,
                ids[k]@,
            ),
{
    lemma_bulk_steps(m, owner, ids);
}

proof fn lemma_bulk_steps(m: StoreModel, owner: Seq<char>, ids: Seq<String>)
    requires
        unique_task_ids(m.tasks),
    ensures
        unique_task_ids(bulk_deleted(m, owner, ids).0.tasks),
        forall|k: int|
            0 <= k < ids.len() && owns_task(m.tasks, owner, (#[trigger] ids[k])@) ==> task_gone(
                bulk_deleted(m, owner, ids).0,
                ids[k]@,
            ),
        forall|x: Seq<char>|
            owns_task(m.tasks, owner, x) && (forall|k: int| 0 <= k < ids.len() ==> (#[trigger] ids[k])@ != x)
                ==> #[trigger] owns_task(bulk_deleted(m, owner, ids).0.tasks, owner, x),
    decreases ids.len(),
{
    if ids.len() > 0 {
        let d = ids.drop_last();
        lemma_bulk_steps(m, owner, d);
        let m1 = bulk_deleted(m, owner, d).0;
        let y = ids.last()@;
        let mm = bulk_deleted(m, owner, ids).0;
        assert forall|k: int| 0 <= k < d.len() implies #[trigger] d[k] == ids[k] by {
        }
        if owns_task(m1.tasks, owner, y) {
            let w = choose|w: int| 0 <= w < m1.tasks.len() && is_owned_task(#[trigger] m1.tasks[w], owner, y);
            assert(m1.tasks[w].id@ == y);
            lemma_task_deleted_facts(m1, owner, y);
            assert(mm == task_deleted(m1, y));
            assert forall|k: int|
                0 <= k < ids.len() && owns_task(m.tasks, owner, (#[trigger] ids[k])@) implies task_gone(mm, ids[k]@) by {
                if k < d.len() {
                    assert(d[k] == ids[k]);
                    assert(task_gone(m1, d[k]@));
                }
            }
            assert forall|x: Seq<char>|
                owns_task(m.tasks, owner, x) && (forall|k: int| 0 <= k < ids.len() ==> (#[trigger] ids[k])@ != x)
                implies #[trigger] owns_task(mm.tasks, owner, x) by {
                assert forall|k: int| 0 <= k < d.len() implies (#[trigger] d[k])@ != x by {
                    assert(d[k] == ids[k]);
                }
                assert(ids[ids.len() - 1]@ != x);
            }
        } else {
            assert(mm == m1);
            assert forall|k: int|
                0 <= k < ids.len() && owns_task(m.tasks, owner, (#[trigger] ids[k])@) implies task_gone(mm, ids[k]@) by {
                if k < d.len() {
                    assert(d[k] == ids[k]);
                } else {
                    if forall|j: int| 0 <= j < d.len() ==> (#[trigger] d[j])@ != y {
                        assert(owns_task(m1.tasks, owner, y));
                    }
                    let j = choose|j: int| 0 <= j < d.len() && (#[trigger] d[j])@ == y;
                    assert(owns_task(m.tasks, owner, d[j]@));
                }
            }
            assert forall|x: Seq<char>|
                owns_task(m.tasks, owner, x) && (forall|k: int| 0 <= k < ids.len() ==> (#[trigger] ids[k])@ != x)
                implies #[trigger] owns_task(mm.tasks, owner, x) by {
                assert forall|k: int| 0 <= k < d.len() implies (#[trigger] d[k])@ != x by {
                    assert(d[k] == ids[k]);
                }
            }
        }
    }
}

} // verus!
