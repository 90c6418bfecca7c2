use vstd::prelude::*;
use vstd::seq_lib::{to_multiset_contains, to_multiset_remove};
use crate::model::{ActiveTimer, Project, Subtask, Task, TaskStatus, TimeEntry, Timestamp, User};

verus! {

/// The contents of a store, as sequences of rows.
#[verifier::ext_equal]
pub struct StoreModel {
    pub users: Seq<User>,
    pub projects: Seq<Project>,
    pub tasks: Seq<Task>,
    pub subtasks: Seq<Subtask>,
    pub entries: Seq<TimeEntry>,
    pub timers: Seq<ActiveTimer>,
}

/// The rows of every table, kept in memory.
pub struct Store {
    pub users: Vec<User>,
    pub projects: Vec<Project>,
    pub tasks: Vec<Task>,
    pub subtasks: Vec<Subtask>,
    pub entries: Vec<TimeEntry>,
    pub timers: Vec<ActiveTimer>,
}

impl View for Store {
    type V = StoreModel;

    open spec fn view(&self) -> StoreModel {
        StoreModel {
            users: self.users@,
            projects: self.projects@,
            tasks: self.tasks@,
            subtasks: self.subtasks@,
            entries: self.entries@,
            timers: self.timers@,
        }
    }
}

/// No two timers belong to the same user.
pub open spec fn one_timer_per_user(timers: Seq<ActiveTimer>) -> bool {
    forall|i: int, j: int|
        0 <= i < timers.len() && 0 <= j < timers.len() && #[trigger] timers[i].user_id@
            == #[trigger] timers[j].user_id@ ==> i == j
}

/// No two tasks share an id.
pub open spec fn unique_task_ids(tasks: Seq<Task>) -> bool {
    forall|i: int, j: int|
        0 <= i < tasks.len() && 0 <= j < tasks.len() && #[trigger] tasks[i].id@
            == #[trigger] tasks[j].id@ ==> i == j
}

/// No two accounts share an id.
pub open spec fn unique_user_ids(users: Seq<User>) -> bool {
    forall|i: int, j: int|
        0 <= i < users.len() && 0 <= j < users.len() && #[trigger] users[i].id@
            == #[trigger] users[j].id@ ==> i == j
}

/// No two rows of `s` share a key.
pub open spec fn distinct_by<A>(s: Seq<A>, key: spec_fn(A) -> Seq<char>) -> bool {
    forall|i: int, j: int|
        0 <= i < s.len() && 0 <= j < s.len() && #[trigger] key(s[i]) == #[trigger] key(s[j]) ==> i == j
}

/// The id of a project.
pub open spec fn project_key() -> spec_fn(Project) -> Seq<char> {
    |p: Project| p.id@
}

/// The id of a subtask.
pub open spec fn subtask_key() -> spec_fn(Subtask) -> Seq<char> {
    |s: Subtask| s.id@
}

/// The id of a time entry.
pub open spec fn entry_key() -> spec_fn(TimeEntry) -> Seq<char> {
    |e: TimeEntry| e.id@
}

/// The id of a timer.
pub open spec fn timer_key() -> spec_fn(ActiveTimer) -> Seq<char> {
    |t: ActiveTimer| t.id@
}

impl StoreModel {
    /// The invariants that every operation keeps.
    pub open spec fn wf(self) -> bool {
        &&& one_timer_per_user(self.timers)
        &&& unique_task_ids(self.tasks)
        &&& unique_user_ids(self.users)
        &&& distinct_by(self.projects, project_key())
        &&& distinct_by(self.subtasks, subtask_key())
        &&& distinct_by(self.entries, entry_key())
        &&& distinct_by(self.timers, timer_key())
    }
}

/// Appending a row whose key is new keeps keys distinct.
pub proof fn lemma_distinct_push<A>(s: Seq<A>, key: spec_fn(A) -> Seq<char>, x: A)
    requires
        distinct_by(s, key),
        forall|i: int| 0 <= i < s.len() ==> key(#[trigger] s[i]) != key(x),
    ensures
        distinct_by(s.push(x), key),
{
    let t = s.push(x);
    assert forall|a: int, b: int|
        0 <= a < t.len() && 0 <= b < t.len() && #[trigger] key(t[a]) == #[trigger] key(t[b]) implies a == b by {
        if a < s.len() {
            assert(t[a] == s[a]);
        }
        if b < s.len() {
            assert(t[b] == s[b]);
        }
    }
}

/// Removing a row keeps keys distinct.
pub proof fn lemma_distinct_remove<A>(s: Seq<A>, key: spec_fn(A) -> Seq<char>, i: int)
    requires
        distinct_by(s, key),
        0 <= i < s.len(),
    ensures
        distinct_by(s.remove(i), key),
        forall|k: int| 0 <= k < s.remove(i).len() ==> key(#[trigger] s.remove(i)[k]) != key(s[i]),
{
    let t = s.remove(i);
    assert forall|a: int, b: int|
        0 <= a < t.len() && 0 <= b < t.len() && #[trigger] key(t[a]) == #[trigger] key(t[b]) implies a == b by {
        let aa = if a < i { a } else { a + 1 };
        let bb = if b < i { b } else { b + 1 };
        assert(t[a] == s[aa] && t[b] == s[bb]);
    }
    assert forall|k: int| 0 <= k < t.len() implies key(#[trigger] t[k]) != key(s[i]) by {
        let kk = if k < i { k } else { k + 1 };
        assert(t[k] == s[kk]);
    }
}

/// Rows that keep their keys keep them distinct.
pub proof fn lemma_distinct_same_keys<A>(s: Seq<A>, t: Seq<A>, key: spec_fn(A) -> Seq<char>)
    requires
        distinct_by(s, key),
        s.len() == t.len(),
        forall|i: int| 0 <= i < s.len() ==> key(#[trigger] t[i]) == key(s[i]),
    ensures
        distinct_by(t, key),
{
    assert forall|a: int, b: int|
        0 <= a < t.len() && 0 <= b < t.len() && #[trigger] key(t[a]) == #[trigger] key(t[b]) implies a == b by {
        assert(key(t[a]) == key(s[a]) && key(t[b]) == key(s[b]));
    }
}

/// Two positions of `s` that hold the same row.
proof fn lemma_twice<A>(s: Seq<A>, a: int, b: int)
    requires
        0 <= a < s.len(),
        0 <= b < s.len(),
        a != b,
        s[a] == s[b],
    ensures
        s.to_multiset().count(s[a]) >= 2,
{
    broadcast use vstd::multiset::group_multiset_axioms;
    to_multiset_remove(s, a);
    let r = s.remove(a);
    let bb = if b < a { b } else { b - 1 };
    assert(r[bb] == s[b]);
    assert(r.contains(s[a]));
    to_multiset_contains(r, s[a]);
}

/// A reordering of rows with distinct keys has distinct keys.
pub proof fn lemma_distinct_permutation<A>(s: Seq<A>, t: Seq<A>, key: spec_fn(A) -> Seq<char>)
    requires
        distinct_by(s, key),
        t.to_multiset() == s.to_multiset(),
    ensures
        distinct_by(t, key),
{
    broadcast use vstd::multiset::group_multiset_axioms;
    assert forall|a: int, b: int|
        0 <= a < t.len() && 0 <= b < t.len() && #[trigger] key(t[a]) == #[trigger] key(t[b]) implies a == b by {
        if a != b {
            assert(t.contains(t[a]));
            assert(t.contains(t[b]));
            to_multiset_contains(t, t[a]);
            to_multiset_contains(t, t[b]);
            to_multiset_contains(s, t[a]);
            to_multiset_contains(s, t[b]);
            let i = choose|i: int| 0 <= i < s.len() && s[i] == t[a];
            let j = choose|j: int| 0 <= j < s.len() && s[j] == t[b];
            if t[a] == t[b] {
                lemma_twice(t, a, b);
                to_multiset_remove(s, i);
                let r = s.remove(i);
                to_multiset_contains(r, t[a]);
                let q = choose|q: int| 0 <= q < r.len() && r[q] == t[a];
                let qq = if q < i { q } else { q + 1 };
                assert(s[qq] == r[q]);
                assert(key(s[qq]) == key(s[i]));
            } else {
                assert(key(s[i]) == key(s[j]));
            }
        }
    }
}

/// Filtering keeps keys distinct.
pub proof fn lemma_distinct_filter<A>(s: Seq<A>, key: spec_fn(A) -> Seq<char>, p: spec_fn(A) -> bool)
    requires
        distinct_by(s, key),
    ensures
        distinct_by(s.filter(p), key),
    decreases s.len(),
{
    reveal(Seq::filter);
    if s.len() > 0 {
        let d = s.drop_last();
        assert(distinct_by(d, key)) by {
            assert forall|a: int, b: int|
                0 <= a < d.len() && 0 <= b < d.len() && #[trigger] key(d[a]) == #[trigger] key(d[b]) implies a
                == b by {
                assert(d[a] == s[a] && d[b] == s[b]);
            }
        }
        lemma_distinct_filter(d, key, p);
        let f = d.filter(p);
        let x = s.last();
        if p(x) {
            assert forall|k: int| 0 <= k < f.len() implies key(#[trigger] f[k]) != key(x) by {
                d.lemma_filter_contains_rev(p, f[k]);
                let j = choose|j: int| 0 <= j < d.len() && d[j] == f[k];
                assert(s[j] == d[j]);
                assert(key(s[j]) != key(s[s.len() - 1]));
            }
            lemma_distinct_push(f, key, x);
        }
    }
}

/// Task `t` has id `id` and belongs to `owner`.
pub open spec fn is_owned_task(t: Task, owner: Seq<char>, id: Seq<char>) -> bool {
    t.id@ == id && t.user_id@ == owner
}

/// `owner` has a task with id `id`.
pub open spec fn owns_task(tasks: Seq<Task>, owner: Seq<char>, id: Seq<char>) -> bool {
    exists|i: int| 0 <= i < tasks.len() && is_owned_task(#[trigger] tasks[i], owner, id)
}

/// Some task has id `id`.
pub open spec fn task_id_used(tasks: Seq<Task>, id: Seq<char>) -> bool {
    exists|i: int| 0 <= i < tasks.len() && (#[trigger] tasks[i]).id@ == id
}

/// `user` has a running timer.
pub open spec fn has_timer(timers: Seq<ActiveTimer>, user: Seq<char>) -> bool {
    exists|i: int| 0 <= i < timers.len() && (#[trigger] timers[i]).user_id@ == user
}

/// The position of `user`'s running timer, where there is one.
pub open spec fn timer_index(timers: Seq<ActiveTimer>, user: Seq<char>) -> int {
    choose|i: int| 0 <= i < timers.len() && (#[trigger] timers[i]).user_id@ == user
}

/// Some timer has id `id`.
pub open spec fn timer_id_used(timers: Seq<ActiveTimer>, id: Seq<char>) -> bool {
    exists|i: int| 0 <= i < timers.len() && (#[trigger] timers[i]).id@ == id
}

/// Some time entry has id `id`.
pub open spec fn entry_id_used(entries: Seq<TimeEntry>, id: Seq<char>) -> bool {
    exists|i: int| 0 <= i < entries.len() && (#[trigger] entries[i]).id@ == id
}

/// `t` with its status set to `to` and `updated_at` bumped, where it is the
/// owner's task `id` and, when `from` is given, its status is `from`.
pub open spec fn restatus(
    t: Task,
    owner: Seq<char>,
    id: Seq<char>,
    to: TaskStatus,
    from: Option<TaskStatus>,
    now: Timestamp,
) -> Task {
    if is_owned_task(t, owner, id) && (from is None || t.status == from->0) {
        Task { status: to, updated_at: now, ..t }
    } else {
        t
    }
}

impl Store {
    /// A store with no rows.
    pub fn new() -> (s: Store)
        ensures
            s@.users.len() == 0,
            s@.projects.len() == 0,
            s@.tasks.len() == 0,
            s@.subtasks.len() == 0,
            s@.entries.len() == 0,
            s@.timers.len() == 0,
            s@.wf(),
    {
        Store {
            users: Vec::new(),
            projects: Vec::new(),
            tasks: Vec::new(),
            subtasks: Vec::new(),
            entries: Vec::new(),
            timers: Vec::new(),
        }
    }

    /// Position of the owner's task `id`, if the owner has one.
    pub fn find_owned_task(&self, owner: &String, id: &String) -> (r: Option<usize>)
        ensures
            r is None ==> !owns_task(self@.tasks, owner@, id@),
            r matches Some(i) ==> i < self@.tasks.len() && is_owned_task(
                self@.tasks[i as int],
                owner@,
                id@,
            ),
    {
        let mut i: usize = 0;
        while i < self.tasks.len()
            invariant
                0 <= i <= self.tasks@.len(),
                forall|k: int| 0 <= k < i ==> !is_owned_task(#[trigger] self.tasks@[k], owner@, id@),
            decreases self.tasks@.len() - i,
        {
            if self.tasks[i].id == *id && self.tasks[i].user_id == *owner {
                return Some(i);
            }
            i = i + 1;
        }
        None
    }

    /// Whether some task has id `id`.
    pub fn has_task_id(&self, id: &String) -> (b: bool)
        ensures
            b == task_id_used(self@.tasks, id@),
    {
        let mut i: usize = 0;
        while i < self.tasks.len()
            invariant
                0 <= i <= self.tasks@.len(),
                forall|k: int| 0 <= k < i ==> (#[trigger] self.tasks@[k]).id@ != id@,
            decreases self.tasks@.len() - i,
        {
            if self.tasks[i].id == *id {
                return true;
            }
            i = i + 1;
        }
        false
    }

    /// Position of `user`'s running timer, if any.
    pub fn find_timer(&self, user: &String) -> (r: Option<usize>)
        requires
            self@.wf(),
        ensures
            r is None ==> !has_timer(self@.timers, user@),
            r matches Some(i) ==> has_timer(self@.timers, user@) && i == timer_index(
                self@.timers,
                user@,
            ),
    {
        let mut i: usize = 0;
        while i < self.timers.len()
            invariant
                0 <= i <= self.timers@.len(),
                self@.wf(),
                forall|k: int| 0 <= k < i ==> (#[trigger] self.timers@[k]).user_id@ != user@,
            decreases self.timers@.len() - i,
        {
            if self.timers[i].user_id == *user {
                proof {
                    assert(has_timer(self@.timers, user@));
                    let j = timer_index(self@.timers, user@);
                    assert(0 <= j < self.timers@.len() && self.timers@[j].user_id@ == user@);
                    assert(self.timers@[j].user_id@ == self.timers@[i as int].user_id@);
                    assert(j == i as int);
                }
                return Some(i);
            }
            i = i + 1;
        }
        None
    }

    /// Whether some timer has id `id`.
    pub fn has_timer_id(&self, id: &String) -> (b: bool)
        ensures
            b == timer_id_used(self@.timers, id@),
    {
        let mut i: usize = 0;
        while i < self.timers.len()
            invariant
                0 <= i <= self.timers@.len(),
                forall|k: int| 0 <= k < i ==> (#[trigger] self.timers@[k]).id@ != id@,
            decreases self.timers@.len() - i,
        {
            if self.timers[i].id == *id {
                return true;
            }
            i = i + 1;
        }
        false
    }

    /// Whether some time entry has id `id`.
    pub fn has_entry_id(&self, id: &String) -> (b: bool)
        ensures
            b == entry_id_used(self@.entries, id@),
    {
        let mut i: usize = 0;
        while i < self.entries.len()
            invariant
                0 <= i <= self.entries@.len(),
                forall|k: int| 0 <= k < i ==> (#[trigger] self.entries@[k]).id@ != id@,
            decreases self.entries@.len() - i,
        {
            if self.entries[i].id == *id {
                return true;
            }
            i = i + 1;
        }
        false
    }

    /// Applies `restatus` to every task.
    pub fn restatus_tasks(
        &mut self,
        owner: &String,
        id: &String,
        to: TaskStatus,
        from: Option<TaskStatus>,
        now: Timestamp,
    )
        ensures
            final(self)@ == (StoreModel {
                tasks: old(self)@.tasks.map_values(
                    |t: Task| restatus(t, owner@, id@, to, from, now),
                ),
                ..old(self)@
            }),
    {
        let ghost old_tasks = self.tasks@;
        let mut i: usize = 0;
        while i < self.tasks.len()
            invariant
                0 <= i <= self.tasks@.len(),
                self.tasks@.len() == old_tasks.len(),
                forall|k: int| 0 <= k < i ==> #[trigger] self.tasks@[k] == restatus(old_tasks[k], owner@, id@, to, from, now),
                forall|k: int| i <= k < self.tasks@.len() ==> #[trigger] self.tasks@[k] == old_tasks[k],
                self.users == old(self).users,
                self.projects == old(self).projects,
                self.subtasks == old(self).subtasks,
                self.entries == old(self).entries,
                self.timers == old(self).timers,
            decreases self.tasks@.len() - i,
        {
            let hit = self.tasks[i].id == *id && self.tasks[i].user_id == *owner && match from {
                None => true,
                Some(f) => self.tasks[i].status == f,
            };
            if hit {
                let mut t = self.tasks[i].copy();
                t.status = to;
                t.updated_at = now;
                self.tasks.set(i, t);
            }
            i = i + 1;
        }
        assert(self@ =~= (StoreModel {
            tasks: old(self)@.tasks.map_values(|t: Task| restatus(t, owner@, id@, to, from, now)),
            ..old(self)@
        }));
    }
}


/// Project `p` has id `id` and belongs to `owner`.
pub open spec fn is_owned_project(p: Project, owner: Seq<char>, id: Seq<char>) -> bool {
    p.id@ == id && p.user_id@ == owner
}

/// `owner` has a project with id `id`.
pub open spec fn owns_project(projects: Seq<Project>, owner: Seq<char>, id: Seq<char>) -> bool {
    exists|i: int| 0 <= i < projects.len() && is_owned_project(#[trigger] projects[i], owner, id)
}

/// The position of the task with id `id` (meaningful where `task_id_used` holds).
pub open spec fn task_index(tasks: Seq<Task>, id: Seq<char>) -> int {
    choose|i: int| 0 <= i < tasks.len() && (#[trigger] tasks[i]).id@ == id
}

/// Rows that do not hang off the task `id`.
pub open spec fn timer_not_on(id: Seq<char>) -> spec_fn(ActiveTimer) -> bool {
    |t: ActiveTimer| t.task_id@ != id
}

pub open spec fn subtask_not_on(id: Seq<char>) -> spec_fn(Subtask) -> bool {
    |t: Subtask| t.task_id@ != id
}

pub open spec fn entry_not_on(id: Seq<char>) -> spec_fn(TimeEntry) -> bool {
    |t: TimeEntry| t.task_id@ != id
}

impl Store {
    /// Position of the owner's project `id`, if the owner has one.
    pub fn find_owned_project(&self, owner: &String, id: &String) -> (r: Option<usize>)
        ensures
            r is None ==> !owns_project(self@.projects, owner@, id@),
            r matches Some(i) ==> i < self@.projects.len() && is_owned_project(
                self@.projects[i as int],
                owner@,
                id@,
            ),
    {
        let mut i: usize = 0;
        while i < self.projects.len()
            invariant
                0 <= i <= self.projects@.len(),
                forall|k: int|
                    0 <= k < i ==> !is_owned_project(#[trigger] self.projects@[k], owner@, id@),
            decreases self.projects@.len() - i,
        {
            if self.projects[i].id == *id && self.projects[i].user_id == *owner {
                return Some(i);
            }
            i = i + 1;
        }
        None
    }

    /// Removes every timer that runs on task `id`.
    pub fn drop_timers_on(&mut self, id: &String)
        requires
            one_timer_per_user(old(self)@.timers),
        ensures
            final(self)@ == (StoreModel {
                timers: old(self)@.timers.filter(timer_not_on(id@)),
                ..old(self)@
            }),
            one_timer_per_user(final(self)@.timers),
    {
        let ghost old_rows = self.timers@;
        let mut kept: Vec<ActiveTimer> = Vec::new();
        let mut i: usize = 0;
        while i < self.timers.len()
            invariant
                0 <= i <= self.timers@.len(),
                self.timers@ == old_rows,
                kept@ == old_rows.subrange(0, i as int).filter(timer_not_on(id@)),
            decreases self.timers@.len() - i,
        {
            proof {
                assert(old_rows.subrange(0, i + 1) =~= old_rows.subrange(0, i as int).push(old_rows[i as int]));
                old_rows.subrange(0, i as int).lemma_filter_push(old_rows[i as int], timer_not_on(id@));
            }
            if self.timers[i].task_id != *id {
                let t = self.timers[i].copy();
                kept.push(t);
            }
            i = i + 1;
        }
        proof {
            assert(old_rows.subrange(0, old_rows.len() as int) =~= old_rows);
            lemma_filter_keeps_one_timer(old_rows, timer_not_on(id@));
        }
        self.timers = kept;
        assert(self@ =~= (StoreModel { timers: old(self)@.timers.filter(timer_not_on(id@)), ..old(self)@ }));
    }

    /// Removes every subtask of task `id`.
    pub fn drop_subtasks_on(&mut self, id: &String)
        ensures
            final(self)@ == (StoreModel {
                subtasks: old(self)@.subtasks.filter(subtask_not_on(id@)),
                ..old(self)@
            }),
    {
        let ghost old_rows = self.subtasks@;
        let mut kept: Vec<Subtask> = Vec::new();
        let mut i: usize = 0;
        while i < self.subtasks.len()
            invariant
                0 <= i <= self.subtasks@.len(),
                self.subtasks@ == old_rows,
                kept@ == old_rows.subrange(0, i as int).filter(subtask_not_on(id@)),
            decreases self.subtasks@.len() - i,
        {
            proof {
                assert(old_rows.subrange(0, i + 1) =~= old_rows.subrange(0, i as int).push(old_rows[i as int]));
                old_rows.subrange(0, i as int).lemma_filter_push(old_rows[i as int], subtask_not_on(id@));
            }
            if self.subtasks[i].task_id != *id {
                let t = self.subtasks[i].copy();
                kept.push(t);
            }
            i = i + 1;
        }
        proof {
            assert(old_rows.subrange(0, old_rows.len() as int) =~= old_rows);
        }
        self.subtasks = kept;
        assert(self@ =~= (StoreModel { subtasks: old(self)@.subtasks.filter(subtask_not_on(id@)), ..old(self)@ }));
    }

    /// Removes every time entry of task `id`.
    pub fn drop_entries_on(&mut self, id: &String)
        ensures
            final(self)@ == (StoreModel {
                entries: old(self)@.entries.filter(entry_not_on(id@)),
                ..old(self)@
            }),
    {
        let ghost old_rows = self.entries@;
        let mut kept: Vec<TimeEntry> = Vec::new();
        let mut i: usize = 0;
        while i < self.entries.len()
            invariant
                0 <= i <= self.entries@.len(),
                self.entries@ == old_rows,
                kept@ == old_rows.subrange(0, i as int).filter(entry_not_on(id@)),
            decreases self.entries@.len() - i,
        {
            proof {
                assert(old_rows.subrange(0, i + 1) =~= old_rows.subrange(0, i as int).push(old_rows[i as int]));
                old_rows.subrange(0, i as int).lemma_filter_push(old_rows[i as int], entry_not_on(id@));
            }
            if self.entries[i].task_id != *id {
                let t = self.entries[i].copy();
                kept.push(t);
            }
            i = i + 1;
        }
        proof {
            assert(old_rows.subrange(0, old_rows.len() as int) =~= old_rows);
        }
        self.entries = kept;
        assert(self@ =~= (StoreModel { entries: old(self)@.entries.filter(entry_not_on(id@)), ..old(self)@ }));
    }
}

/// Rows that carry an owner.
pub trait Owned: Sized {
    spec fn owner(&self) -> Seq<char>;

    fn owned_by(&self, user: &String) -> (r: bool)
        ensures
            r == (self.owner() == user@),
    ;

    fn duplicate(&self) -> (r: Self)
        ensures
            r == *self,
    ;
}

impl Owned for Project {
    open spec fn owner(&self) -> Seq<char> {
        self.user_id@
    }

    fn owned_by(&self, user: &String) -> (r: bool) {
        self.user_id == *user
    }

    fn duplicate(&self) -> (r: Project) {
        self.copy()
    }
}

impl Owned for Task {
    open spec fn owner(&self) -> Seq<char> {
        self.user_id@
    }

    fn owned_by(&self, user: &String) -> (r: bool) {
        self.user_id == *user
    }

    fn duplicate(&self) -> (r: Task) {
        self.copy()
    }
}

impl Owned for Subtask {
    open spec fn owner(&self) -> Seq<char> {
        self.user_id@
    }

    fn owned_by(&self, user: &String) -> (r: bool) {
        self.user_id == *user
    }

    fn duplicate(&self) -> (r: Subtask) {
        self.copy()
    }
}

impl Owned for TimeEntry {
    open spec fn owner(&self) -> Seq<char> {
        self.user_id@
    }

    fn owned_by(&self, user: &String) -> (r: bool) {
        self.user_id == *user
    }

    fn duplicate(&self) -> (r: TimeEntry) {
        self.copy()
    }
}

impl Owned for ActiveTimer {
    open spec fn owner(&self) -> Seq<char> {
        self.user_id@
    }

    fn owned_by(&self, user: &String) -> (r: bool) {
        self.user_id == *user
    }

    fn duplicate(&self) -> (r: ActiveTimer) {
        self.copy()
    }
}

/// Rows that `user` does not own.
pub open spec fn not_owned_by<T: Owned>(user: Seq<char>) -> spec_fn(T) -> bool {
    |r: T| r.owner() != user
}

/// The store without any project, task, subtask, time entry or timer of `user`.
pub open spec fn without_rows_of(m: StoreModel, user: Seq<char>) -> StoreModel {
    StoreModel {
        projects: m.projects.filter(not_owned_by::<Project>(user)),
        tasks: m.tasks.filter(not_owned_by::<Task>(user)),
        subtasks: m.subtasks.filter(not_owned_by::<Subtask>(user)),
        entries: m.entries.filter(not_owned_by::<TimeEntry>(user)),
        timers: m.timers.filter(not_owned_by::<ActiveTimer>(user)),
        ..m
    }
}

/// Filtering keeps task ids unique.
proof fn lemma_filter_keeps_unique_tasks(s: Seq<Task>, p: spec_fn(Task) -> bool)
    requires
        unique_task_ids(s),
    ensures
        unique_task_ids(s.filter(p)),
{
    let key = |t: Task| t.id@;
    assert forall|a: int, b: int|
        0 <= a < s.len() && 0 <= b < s.len() && #[trigger] key(s[a]) == #[trigger] key(s[b]) implies a == b by {
        assert(s[a].id@ == s[b].id@);
    }
    lemma_distinct_filter(s, key, p);
    let f = s.filter(p);
    assert forall|a: int, b: int|
        0 <= a < f.len() && 0 <= b < f.len() && #[trigger] f[a].id@ == #[trigger] f[b].id@ implies a == b by {
        assert(key(f[a]) == key(f[b]));
    }
}

/// Filtering keeps at most one timer per user.
proof fn lemma_filter_keeps_one_timer(s: Seq<ActiveTimer>, p: spec_fn(ActiveTimer) -> bool)
    requires
        one_timer_per_user(s),
    ensures
        one_timer_per_user(s.filter(p)),
{
    let key = |t: ActiveTimer| t.user_id@;
    assert forall|a: int, b: int|
        0 <= a < s.len() && 0 <= b < s.len() && #[trigger] key(s[a]) == #[trigger] key(s[b]) implies a == b by {
        assert(s[a].user_id@ == s[b].user_id@);
    }
    lemma_distinct_filter(s, key, p);
    let f = s.filter(p);
    assert forall|a: int, b: int|
        0 <= a < f.len() && 0 <= b < f.len() && #[trigger] f[a].user_id@ == #[trigger] f[b].user_id@ implies a
        == b by {
        assert(key(f[a]) == key(f[b]));
    }
}

/// The rows of `v` that `user` does not own, in order.
pub fn rows_not_owned_by<T: Owned>(v: &Vec<T>, user: &String) -> (r: Vec<T>)
    ensures
        r@ == v@.filter(not_owned_by::<T>(user@)),
{
    let mut kept: Vec<T> = Vec::new();
    let mut i: usize = 0;
    while i < v.len()
        invariant
            0 <= i <= v@.len(),
            kept@ == v@.subrange(0, i as int).filter(not_owned_by::<T>(user@)),
        decreases v@.len() - i,
    {
        proof {
            assert(v@.subrange(0, i + 1) =~= v@.subrange(0, i as int).push(v@[i as int]));
            v@.subrange(0, i as int).lemma_filter_push(v@[i as int], not_owned_by::<T>(user@));
        }
        if !v[i].owned_by(user) {
            kept.push(v[i].duplicate());
        }
        i = i + 1;
    }
    proof {
        assert(v@.subrange(0, v@.len() as int) =~= v@);
    }
    kept
}

impl Store {
    /// Removes every project, task, subtask, time entry and timer of `user`.
    pub fn drop_rows_of(&mut self, user: &String)
        requires
            old(self)@.wf(),
        ensures
            final(self)@ == without_rows_of(old(self)@, user@),
            final(self)@.wf(),
    {
        let ghost m = self@;
        self.projects = rows_not_owned_by(&self.projects, user);
        self.tasks = rows_not_owned_by(&self.tasks, user);
        self.subtasks = rows_not_owned_by(&self.subtasks, user);
        self.entries = rows_not_owned_by(&self.entries, user);
        self.timers = rows_not_owned_by(&self.timers, user);
        proof {
            lemma_filter_keeps_unique_tasks(m.tasks, not_owned_by::<Task>(user@));
            lemma_filter_keeps_one_timer(m.timers, not_owned_by::<ActiveTimer>(user@));
            lemma_distinct_filter(m.projects, project_key(), not_owned_by::<Project>(user@));
            lemma_distinct_filter(m.subtasks, subtask_key(), not_owned_by::<Subtask>(user@));
            lemma_distinct_filter(m.entries, entry_key(), not_owned_by::<TimeEntry>(user@));
            lemma_distinct_filter(m.timers, timer_key(), not_owned_by::<ActiveTimer>(user@));
        }
        assert(self@ =~= without_rows_of(m, user@));
    }
}

/// Rows identified by a text id.
pub trait Keyed {
    spec fn key(&self) -> Seq<char>;

    fn same_key(&self, other: &Self) -> (r: bool)
        ensures
            r == (self.key() == other.key()),
    ;
}

impl Keyed for Project {
    open spec fn key(&self) -> Seq<char> {
        self.id@
    }

    fn same_key(&self, other: &Self) -> (r: bool) {
        self.id == other.id
    }
}

impl Keyed for Task {
    open spec fn key(&self) -> Seq<char> {
        self.id@
    }

    fn same_key(&self, other: &Self) -> (r: bool) {
        self.id == other.id
    }
}

impl Keyed for Subtask {
    open spec fn key(&self) -> Seq<char> {
        self.id@
    }

    fn same_key(&self, other: &Self) -> (r: bool) {
        self.id == other.id
    }
}

impl Keyed for TimeEntry {
    open spec fn key(&self) -> Seq<char> {
        self.id@
    }

    fn same_key(&self, other: &Self) -> (r: bool) {
        self.id == other.id
    }
}

impl Keyed for User {
    open spec fn key(&self) -> Seq<char> {
        self.id@
    }

    fn same_key(&self, other: &Self) -> (r: bool) {
        self.id == other.id
    }
}

impl Keyed for ActiveTimer {
    open spec fn key(&self) -> Seq<char> {
        self.id@
    }

    fn same_key(&self, other: &Self) -> (r: bool) {
        self.id == other.id
    }
}

/// Whether no two rows of `v` share a key.
pub fn keys_distinct<T: Keyed>(v: &Vec<T>) -> (b: bool)
    ensures
        b == (forall|i: int, j: int|
            0 <= i < v@.len() && 0 <= j < v@.len() && #[trigger] v@[i].key() == #[trigger] v@[j].key()
                ==> i == j),
{
    let n = v.len();
    let mut i: usize = 0;
    while i < n
        invariant
            n == v@.len(),
            0 <= i <= n,
            forall|a: int, b: int| 0 <= a < i && a < b < n ==> v@[a].key() != v@[b].key(),
        decreases n - i,
    {
        let mut j: usize = i + 1;
        while j < n
            invariant
                n == v@.len(),
                0 <= i < n,
                i + 1 <= j <= n,
                forall|a: int, b: int| 0 <= a < i && a < b < n ==> v@[a].key() != v@[b].key(),
                forall|b: int| i < b < j ==> v@[i as int].key() != v@[b].key(),
            decreases n - j,
        {
            if v[i].same_key(&v[j]) {
                assert(v@[i as int].key() == v@[j as int].key());
                return false;
            }
            j = j + 1;
        }
        i = i + 1;
    }
    assert forall|a: int, b: int|
        0 <= a < v@.len() && 0 <= b < v@.len() && #[trigger] v@[a].key() == #[trigger] v@[b].key() implies a == b by {
        if a < b {
        } else if b < a {
        }
    }
    true
}

/// Whether no two timers belong to the same user.
fn timer_users_distinct(v: &Vec<ActiveTimer>) -> (b: bool)
    ensures
        b == one_timer_per_user(v@),
{
    let n = v.len();
    let mut i: usize = 0;
    while i < n
        invariant
            n == v@.len(),
            0 <= i <= n,
            forall|a: int, b: int| 0 <= a < i && a < b < n ==> v@[a].user_id@ != v@[b].user_id@,
        decreases n - i,
    {
        let mut j: usize = i + 1;
        while j < n
            invariant
                n == v@.len(),
                0 <= i < n,
                i + 1 <= j <= n,
                forall|a: int, b: int| 0 <= a < i && a < b < n ==> v@[a].user_id@ != v@[b].user_id@,
                forall|b: int| i < b < j ==> v@[i as int].user_id@ != v@[b].user_id@,
            decreases n - j,
        {
            if v[i].user_id == v[j].user_id {
                return false;
            }
            j = j + 1;
        }
        i = i + 1;
    }
    assert forall|a: int, b: int|
        0 <= a < v@.len() && 0 <= b < v@.len() && #[trigger] v@[a].user_id@ == #[trigger] v@[b].user_id@ implies a
        == b by {
        if a < b {
        } else if b < a {
        }
    }
    true
}

impl Store {
    /// Whether the rows meet the invariants, as rows read back from a
    /// snapshot must before any operation runs on them.
    pub fn is_well_formed(&self) -> (b: bool)
        ensures
            b == self@.wf(),
    {
        let t = timer_users_distinct(&self.timers);
        let a = keys_distinct(&self.tasks);
        let u = keys_distinct(&self.users);
        let p = keys_distinct(&self.projects);
        let s = keys_distinct(&self.subtasks);
        let e = keys_distinct(&self.entries);
        let k = keys_distinct(&self.timers);
        proof {
            assert(a == unique_task_ids(self@.tasks)) by {
                let v = self@.tasks;
                if a {
                    assert forall|x: int, y: int|
                        0 <= x < v.len() && 0 <= y < v.len() && #[trigger] v[x].id@ == #[trigger] v[y].id@
                        implies x == y by {
                        assert(v[x].key() == v[y].key());
                    }
                } else if unique_task_ids(self@.tasks) {
                    assert forall|x: int, y: int|
                        0 <= x < v.len() && 0 <= y < v.len() && #[trigger] v[x].key() == #[trigger] v[y].key()
                        implies x == y by {
                        assert(v[x].id@ == v[y].id@);
                    }
                }
            }
            assert(u == unique_user_ids(self@.users)) by {
                let v = self@.users;
                if u {
                    assert forall|x: int, y: int|
                        0 <= x < v.len() && 0 <= y < v.len() && #[trigger] v[x].id@ == #[trigger] v[y].id@
                        implies x == y by {
                        assert(v[x].key() == v[y].key());
                    }
                } else if unique_user_ids(self@.users) {
                    assert forall|x: int, y: int|
                        0 <= x < v.len() && 0 <= y < v.len() && #[trigger] v[x].key() == #[trigger] v[y].key()
                        implies x == y by {
                        assert(v[x].id@ == v[y].id@);
                    }
                }
            }
            assert(p == distinct_by(self@.projects, project_key())) by {
                let v = self@.projects;
                if p {
                    assert forall|x: int, y: int|
                        0 <= x < v.len() && 0 <= y < v.len() && #[trigger] project_key()(v[x]) == #[trigger] project_key()(v[y])
                        implies x == y by {
                        assert(v[x].key() == v[y].key());
                    }
                } else if distinct_by(self@.projects, project_key()) {
                    assert forall|x: int, y: int|
                        0 <= x < v.len() && 0 <= y < v.len() && #[trigger] v[x].key() == #[trigger] v[y].key()
                        implies x == y by {
                        assert(project_key()(v[x]) == project_key()(v[y]));
                    }
                }
            }
            assert(s == distinct_by(self@.subtasks, subtask_key())) by {
                let v = self@.subtasks;
                if s {
                    assert forall|x: int, y: int|
                        0 <= x < v.len() && 0 <= y < v.len() && #[trigger] subtask_key()(v[x]) == #[trigger] subtask_key()(v[y])
                        implies x == y by {
                        assert(v[x].key() == v[y].key());
                    }
                } else if distinct_by(self@.subtasks, subtask_key()) {
                    assert forall|x: int, y: int|
                        0 <= x < v.len() && 0 <= y < v.len() && #[trigger] v[x].key() == #[trigger] v[y].key()
                        implies x == y by {
                        assert(subtask_key()(v[x]) == subtask_key()(v[y]));
                    }
                }
            }
            assert(e == distinct_by(self@.entries, entry_key())) by {
                let v = self@.entries;
                if e {
                    assert forall|x: int, y: int|
                        0 <= x < v.len() && 0 <= y < v.len() && #[trigger] entry_key()(v[x]) == #[trigger] entry_key()(v[y])
                        implies x == y by {
                        assert(v[x].key() == v[y].key());
                    }
                } else if distinct_by(self@.entries, entry_key()) {
                    assert forall|x: int, y: int|
                        0 <= x < v.len() && 0 <= y < v.len() && #[trigger] v[x].key() == #[trigger] v[y].key()
                        implies x == y by {
                        assert(entry_key()(v[x]) == entry_key()(v[y]));
                    }
                }
            }
            assert(k == distinct_by(self@.timers, timer_key())) by {
                let v = self@.timers;
                if k {
                    assert forall|x: int, y: int|
                        0 <= x < v.len() && 0 <= y < v.len() && #[trigger] timer_key()(v[x]) == #[trigger] timer_key()(v[y])
                        implies x == y by {
                        assert(v[x].key() == v[y].key());
                    }
                } else if distinct_by(self@.timers, timer_key()) {
                    assert forall|x: int, y: int|
                        0 <= x < v.len() && 0 <= y < v.len() && #[trigger] v[x].key() == #[trigger] v[y].key()
                        implies x == y by {
                        assert(timer_key()(v[x]) == timer_key()(v[y]));
                    }
                }
            }
        }
        t && a && u && p && s && e && k
    }
}

} // verus!
