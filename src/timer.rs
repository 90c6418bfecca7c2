use vstd::prelude::*;
use crate::model::{ActiveTimer, Task, TaskStatus, TimeEntry, Timestamp};
use crate::role::CoreError;
use crate::store::{
    entry_id_used, has_timer, is_owned_task, one_timer_per_user, owns_task, restatus,
    timer_id_used, timer_index, unique_task_ids, Store, StoreModel, entry_key, timer_key,
    lemma_distinct_push, lemma_distinct_remove,
};

verus! {

/// Seconds from `start` to `now`, or zero when `now` is not after `start`.
pub open spec fn spec_elapsed_seconds(start: int, now: int) -> int {
    if now > start {
        now - start
    } else {
        0
    }
}

/// Whole minutes needed to cover `start..now`: the elapsed seconds divided by
/// sixty and rounded up.
pub open spec fn spec_duration_minutes(start: int, now: int) -> int {
    (spec_elapsed_seconds(start, now) + 59) / 60
}

/// Seconds elapsed since `start`; never negative, never rounded.
pub fn elapsed_seconds(start: Timestamp, now: Timestamp) -> (r: u64)
    ensures
        r == spec_elapsed_seconds(start as int, now as int),
{
    if now > start {
        (now as i128 - start as i128) as u64
    } else {
        0
    }
}

/// Length of `start..now` in minutes, rounded up (one second counts as one minute).
pub fn duration_minutes(start: Timestamp, now: Timestamp) -> (r: i64)
    ensures
        r == spec_duration_minutes(start as int, now as int),
{
    let e = elapsed_seconds(start, now);
    let q = e / 60;
    assert(q <= 0x0444_4444_4444_4444u64) by (nonlinear_arith)
        requires
            q == e / 60,
            e <= 0xffff_ffff_ffff_ffffu64,
    ;
    let r = if e % 60 == 0 {
        q
    } else {
        q + 1
    };
    assert(r == (e + 59) / 60) by (nonlinear_arith)
        requires
            q == e / 60,
            e % 60 == 0 ==> r == q,
            e % 60 != 0 ==> r == q + 1,
    ;
    r as i64
}

/// The time entry that closing timer `t` at `now` materializes.
pub open spec fn closing_entry(t: ActiveTimer, now: Timestamp, entry_id: String) -> TimeEntry {
    TimeEntry {
        id: entry_id,
        task_id: t.task_id,
        start_time: t.start_time,
        end_time: Some(now),
        duration_minutes: spec_duration_minutes(t.start_time as int, now as int) as i64,
        notes: t.notes,
        created_at: now,
        user_id: t.user_id,
    }
}

/// The store after `user`'s running timer, if any, is closed at `now`: its
/// interval becomes a time entry, the timer row goes, and its task returns
/// from `in_progress` to `pending`.
pub open spec fn closed(m: StoreModel, user: Seq<char>, now: Timestamp, entry_id: String) -> StoreModel {
    if has_timer(m.timers, user) {
        let i = timer_index(m.timers, user);
        let t = m.timers[i];
        StoreModel {
            entries: m.entries.push(closing_entry(t, now, entry_id)),
            timers: m.timers.remove(i),
            tasks: m.tasks.map_values(
                |x: Task|
                    restatus(x, user, t.task_id@, TaskStatus::Pending, Some(TaskStatus::InProgress), now),
            ),
            ..m
        }
    } else {
        m
    }
}

/// The timer row that `start` opens.
pub open spec fn opened_timer(
    user: String,
    task_id: String,
    notes: String,
    now: Timestamp,
    timer_id: String,
) -> ActiveTimer {
    ActiveTimer { id: timer_id, task_id, start_time: now, notes, created_at: now, user_id: user }
}

/// The store after `start`: any running timer of `user` is closed, a new one
/// runs on `task_id` from `now`, and that task is `in_progress`.
pub open spec fn started(
    m: StoreModel,
    user: String,
    task_id: String,
    notes: String,
    now: Timestamp,
    timer_id: String,
    entry_id: String,
) -> StoreModel {
    let c = closed(m, user@, now, entry_id);
    StoreModel {
        timers: c.timers.push(opened_timer(user, task_id, notes, now, timer_id)),
        tasks: c.tasks.map_values(
            |x: Task| restatus(x, user@, task_id@, TaskStatus::InProgress, None, now),
        ),
        ..c
    }
}

/// A running timer, as reported to its owner.
#[derive(Clone, Debug)]
pub struct TimerView {
    pub id: String,
    pub task_id: String,
    pub task_title: String,
    pub start_time: Timestamp,
    pub notes: String,
    pub elapsed_seconds: u64,
    pub created_at: Timestamp,
}

/// What `stop` did.
#[derive(Clone, Debug)]
pub enum StopOutcome {
    /// No timer was running; nothing changed.
    NotActive,
    /// The running timer became the time entry `entry_id`.
    Stopped { entry_id: String, task_id: String, duration_minutes: i64 },
}

impl Store {
    /// Closes the timer at position `i` at `now` into the entry `entry_id`.
    fn close_timer_at(&mut self, i: usize, now: Timestamp, entry_id: String)
        requires
            old(self)@.wf(),
            i < old(self)@.timers.len(),
            !entry_id_used(old(self)@.entries, entry_id@),
        ensures
            final(self)@ == closed(old(self)@, old(self)@.timers[i as int].user_id@, now, entry_id),
            final(self)@.wf(),
            !has_timer(final(self)@.timers, old(self)@.timers[i as int].user_id@),
    {
        let ghost m = self@;
        let ghost u = self@.timers[i as int].user_id@;
        proof {
            assert(has_timer(m.timers, u));
            let j = timer_index(m.timers, u);
            assert(m.timers[j].user_id@ == m.timers[i as int].user_id@);
        }
        let t = self.timers.remove(i);
        let minutes = duration_minutes(t.start_time, now);
        let entry = TimeEntry {
            id: entry_id,
            task_id: t.task_id.clone(),
            start_time: t.start_time,
            end_time: Some(now),
            duration_minutes: minutes,
            notes: t.notes,
            created_at: now,
            user_id: t.user_id.clone(),
        };
        self.entries.push(entry);
        self.restatus_tasks(&t.user_id, &t.task_id, TaskStatus::Pending, Some(TaskStatus::InProgress), now);
        proof {
            lemma_distinct_remove(m.timers, timer_key(), i as int);
            lemma_distinct_push(m.entries, entry_key(), closing_entry(m.timers[i as int], now, entry_id));
            assert(self@ =~= closed(m, u, now, entry_id));
            assert forall|k: int| 0 <= k < self@.timers.len() implies
                (#[trigger] self@.timers[k]).user_id@ != u by {
                let kk = if k < i { k } else { k + 1 };
                assert(self@.timers[k] == m.timers[kk]);
            }
            assert(one_timer_per_user(self@.timers)) by {
                assert forall|a: int, b: int|
                    0 <= a < self@.timers.len() && 0 <= b < self@.timers.len()
                        && #[trigger] self@.timers[a].user_id@ == #[trigger] self@.timers[b].user_id@
                    implies a == b by {
                    let aa = if a < i { a } else { a + 1 };
                    let bb = if b < i { b } else { b + 1 };
                    assert(self@.timers[a] == m.timers[aa]);
                    assert(self@.timers[b] == m.timers[bb]);
                }
            }
            assert(unique_task_ids(self@.tasks)) by {
                assert forall|a: int, b: int|
                    0 <= a < self@.tasks.len() && 0 <= b < self@.tasks.len()
                        && #[trigger] self@.tasks[a].id@ == #[trigger] self@.tasks[b].id@
                    implies a == b by {
                    assert(self@.tasks[a].id == m.tasks[a].id);
                    assert(self@.tasks[b].id == m.tasks[b].id);
                }
            }
        }
    }
}

} // verus!

verus! {

/// `restatus` keeps every id, so it keeps task ids unique.
proof fn lemma_restatus_keeps_ids(
    tasks: Seq<Task>,
    owner: Seq<char>,
    id: Seq<char>,
    to: TaskStatus,
    from: Option<TaskStatus>,
    now: Timestamp,
)
    requires
        unique_task_ids(tasks),
    ensures
        unique_task_ids(tasks.map_values(|t: Task| restatus(t, owner, id, to, from, now))),
{
    let m = tasks.map_values(|t: Task| restatus(t, owner, id, to, from, now));
    assert forall|a: int, b: int|
        0 <= a < m.len() && 0 <= b < m.len() && #[trigger] m[a].id@ == #[trigger] m[b].id@ implies a
        == b by {
        assert(m[a].id == tasks[a].id);
        assert(m[b].id == tasks[b].id);
    }
}

/// Starts a timer for `caller` on their task `task_id`, first closing any timer
/// they already run. The new row gets id `timer_id`, the closed interval (if
/// any) becomes the entry `entry_id`.
///
/// A task that `caller` does not own is not found, and an id already in use
/// is a refused write; either way nothing changes.
pub fn start_timer(
    store: &mut Store,
    caller: &String,
    task_id: String,
    notes: String,
    now: Timestamp,
    timer_id: String,
    entry_id: String,
) -> (r: Result<TimerView, CoreError>)
    requires
        old(store)@.wf(),
    ensures
        final(store)@.wf(),
        !owns_task(old(store)@.tasks, caller@, task_id@) ==> r == Err::<TimerView, CoreError>(
            CoreError::NotFound,
        ) && final(store)@ == old(store)@,
        owns_task(old(store)@.tasks, caller@, task_id@) && (timer_id_used(
            old(store)@.timers,
            timer_id@,
        ) || entry_id_used(old(store)@.entries, entry_id@)) ==> r == Err::<TimerView, CoreError>(
            CoreError::Internal,
        ) && final(store)@ == old(store)@,
        owns_task(old(store)@.tasks, caller@, task_id@) && !timer_id_used(
            old(store)@.timers,
            timer_id@,
        ) && !entry_id_used(old(store)@.entries, entry_id@) ==> {
            &&& r is Ok
            &&& final(store)@ == started(old(store)@, *caller, task_id, notes, now, timer_id, entry_id)
            &&& r->Ok_0.id == timer_id
            &&& r->Ok_0.task_id == task_id
            &&& r->Ok_0.start_time == now
            &&& r->Ok_0.created_at == now
            &&& r->Ok_0.notes == notes
            &&& r->Ok_0.elapsed_seconds == 0
            &&& exists|i: int|
                0 <= i < old(store)@.tasks.len() && is_owned_task(
                    #[trigger] old(store)@.tasks[i],
                    caller@,
                    task_id@,
                ) && r->Ok_0.task_title == old(store)@.tasks[i].title
        },
{
    let first = store.find_owned_task(caller, &task_id);
    if first.is_none() {
        return Err(CoreError::NotFound);
    }
    if store.has_timer_id(&timer_id) || store.has_entry_id(&entry_id) {
        return Err(CoreError::Internal);
    }
    let ghost m0 = store@;
    match store.find_timer(caller) {
        Some(i) => {
            store.close_timer_at(i, now, entry_id);
        },
        None => {},
    }
    let ghost m1 = store@;
    assert(m1 == closed(m0, caller@, now, entry_id));
    assert(!has_timer(m1.timers, caller@));
    let row = ActiveTimer {
        id: timer_id.clone(),
        task_id: task_id.clone(),
        start_time: now,
        notes: notes.clone(),
        created_at: now,
        user_id: caller.clone(),
    };
    store.timers.push(row);
    store.restatus_tasks(caller, &task_id, TaskStatus::InProgress, None, now);
    proof {
        lemma_restatus_keeps_ids(m1.tasks, caller@, task_id@, TaskStatus::InProgress, None, now);
        assert(store@ =~= started(m0, *caller, task_id, notes, now, timer_id, entry_id));
        let ts = store@.timers;
        assert forall|a: int, b: int|
            0 <= a < ts.len() && 0 <= b < ts.len() && #[trigger] ts[a].user_id@
                == #[trigger] ts[b].user_id@ implies a == b by {
            if a < m1.timers.len() && b < m1.timers.len() {
                assert(ts[a] == m1.timers[a]);
                assert(ts[b] == m1.timers[b]);
            } else if a < m1.timers.len() {
                assert(ts[a] == m1.timers[a]);
            } else if b < m1.timers.len() {
                assert(ts[b] == m1.timers[b]);
            }
        }
    }
    let idx = store.find_owned_task(caller, &task_id);
    let title = match idx {
        Some(k) => store.tasks[k].title.clone(),
        None => String::new(),
    };
    proof {
        let at_k = |k: int|
            {
                &&& store@.tasks[k].title == m0.tasks[k].title
                &&& store@.tasks[k].id == m0.tasks[k].id
                &&& store@.tasks[k].user_id == m0.tasks[k].user_id
            };
        assert forall|k: int| 0 <= k < m0.tasks.len() implies #[trigger] at_k(k) by {
            if has_timer(m0.timers, caller@) {
                assert(m1.tasks[k] == restatus(
                    m0.tasks[k],
                    caller@,
                    m0.timers[timer_index(m0.timers, caller@)].task_id@,
                    TaskStatus::Pending,
                    Some(TaskStatus::InProgress),
                    now,
                ));
            }
        }
        let j = first->0 as int;
        assert(at_k(j));
        assert(is_owned_task(store@.tasks[j], caller@, task_id@));
        let k = idx->0 as int;
        assert(at_k(k));
    }
    Ok(TimerView {
        id: timer_id,
        task_id,
        task_title: title,
        start_time: now,
        notes,
        elapsed_seconds: 0,
        created_at: now,
    })
}

} // verus!

verus! {

/// The running timer of `user` (meaningful where `has_timer` holds).
pub open spec fn timer_of(m: StoreModel, user: Seq<char>) -> ActiveTimer {
    m.timers[timer_index(m.timers, user)]
}

/// Stops `caller`'s running timer at `now`: the interval becomes the time
/// entry `entry_id`, its duration rounded up to whole minutes, the timer row
/// goes and the task returns from `in_progress` to `pending`.
///
/// Without a running timer this reports `NotActive` and changes nothing. When
/// the entry cannot be written (its id is in use) the timer stays.
pub fn stop_timer(store: &mut Store, caller: &String, now: Timestamp, entry_id: String) -> (r:
    Result<StopOutcome, CoreError>)
    requires
        old(store)@.wf(),
    ensures
        final(store)@.wf(),
        !has_timer(old(store)@.timers, caller@) ==> (r matches Ok(StopOutcome::NotActive)
            && final(store)@ == old(store)@),
        has_timer(old(store)@.timers, caller@) && entry_id_used(old(store)@.entries, entry_id@)
            ==> r == Err::<StopOutcome, CoreError>(CoreError::Internal) && final(store)@ == old(
            store,
        )@,
        has_timer(old(store)@.timers, caller@) && !entry_id_used(old(store)@.entries, entry_id@)
            ==> final(store)@ == closed(old(store)@, caller@, now, entry_id) && (r matches Ok(
            StopOutcome::Stopped { entry_id: e, task_id: t, duration_minutes: d },
        ) && e == entry_id && t == timer_of(old(store)@, caller@).task_id && d
            == spec_duration_minutes(timer_of(old(store)@, caller@).start_time as int, now as int)),
{
    match store.find_timer(caller) {
        None => Ok(StopOutcome::NotActive),
        Some(i) => {
            if store.has_entry_id(&entry_id) {
                return Err(CoreError::Internal);
            }
            let task_id = store.timers[i].task_id.clone();
            let minutes = duration_minutes(store.timers[i].start_time, now);
            let id = entry_id.clone();
            store.close_timer_at(i, now, entry_id);
            Ok(StopOutcome::Stopped { entry_id: id, task_id, duration_minutes: minutes })
        },
    }
}

/// `caller`'s running timer with the title of its task and the seconds it has
/// run until `now`; `None` when no timer runs (or its task is gone).
pub fn get_active_timer(store: &Store, caller: &String, now: Timestamp) -> (r: Option<TimerView>)
    requires
        store@.wf(),
    ensures
        r is Some <==> has_timer(store@.timers, caller@) && owns_task(
            store@.tasks,
            caller@,
            timer_of(store@, caller@).task_id@,
        ),
        r matches Some(v) ==> {
            let t = timer_of(store@, caller@);
            &&& v.id == t.id
            &&& v.task_id == t.task_id
            &&& v.start_time == t.start_time
            &&& v.notes == t.notes
            &&& v.created_at == t.created_at
            &&& v.elapsed_seconds == spec_elapsed_seconds(t.start_time as int, now as int)
            &&& exists|i: int|
                0 <= i < store@.tasks.len() && is_owned_task(
                    #[trigger] store@.tasks[i],
                    caller@,
                    t.task_id@,
                ) && v.task_title == store@.tasks[i].title
        },
{
    match store.find_timer(caller) {
        None => None,
        Some(i) => {
            let t = &store.timers[i];
            match store.find_owned_task(caller, &t.task_id) {
                None => None,
                Some(k) => Some(
                    TimerView {
                        id: t.id.clone(),
                        task_id: t.task_id.clone(),
                        task_title: store.tasks[k].title.clone(),
                        start_time: t.start_time,
                        notes: t.notes.clone(),
                        elapsed_seconds: elapsed_seconds(t.start_time, now),
                        created_at: t.created_at,
                    },
                ),
            }
        },
    }
}

} // verus!
