use vstd::prelude::*;
use crate::model::{copy_opt, Task, TaskStatus, Timestamp, status_of_name};
use crate::order::{ranked, sort_by_rank};
use crate::role::CoreError;
use crate::store::{
    entry_key, entry_not_on, lemma_distinct_filter, lemma_distinct_permutation, owns_project,
    unique_task_ids, subtask_key, timer_key, owns_task, subtask_not_on, task_id_used, task_index, timer_not_on,
    Store, StoreModel,
};

verus! {

/// Fields of a new task; absent optional fields take their defaults.
#[derive(Clone, Debug)]
pub struct CreateTaskRequest {
    pub title: String,
    pub description: Option<String>,
    pub category: Option<String>,
    pub priority: Option<String>,
    /// An empty string or `"default"` means no project.
    pub project_id: Option<String>,
    pub start_date: Option<String>,
    pub due_date: Option<String>,
}

/// A sparse update: only the fields that are present change.
#[derive(Clone, Debug)]
pub struct UpdateTaskRequest {
    pub title: Option<String>,
    pub description: Option<String>,
    pub category: Option<String>,
    /// The name of a status.
    pub status: Option<String>,
    pub priority: Option<String>,
    /// An empty string or `"default"` detaches the task from its project.
    pub project_id: Option<String>,
    /// An empty string clears the date.
    pub start_date: Option<String>,
    /// An empty string clears the date.
    pub due_date: Option<String>,
}

/// Ids of tasks to delete in one request.
#[derive(Clone, Debug)]
pub struct BulkDeleteRequest {
    pub ids: Vec<String>,
}

/// The priority of a task that names none.
pub fn default_priority() -> (r: String)
    ensures
        r@ == "normal"@,
{
    String::from_str("normal")
}

/// The text of `o`, or `d` when it is absent.
pub open spec fn text_or(o: Option<String>, d: Seq<char>) -> Seq<char> {
    match o {
        Some(s) => s@,
        None => d,
    }
}

/// The values that stand for "no project".
pub open spec fn is_no_project(s: Seq<char>) -> bool {
    s == ""@ || s == "default"@
}

/// The project that a requested project id refers to, after the sentinels are
/// read as "no project".
pub open spec fn project_ref(o: Option<String>) -> Option<String> {
    match o {
        Some(s) => if is_no_project(s@) {
            None
        } else {
            Some(s)
        },
        None => None,
    }
}

/// A date as stored: the empty string is no date.
pub open spec fn date_value(s: String) -> Option<String> {
    if s@.len() == 0 {
        None
    } else {
        Some(s)
    }
}

/// The requested project refers to a project that `owner` does not have.
pub open spec fn foreign_project(projects: Seq<crate::model::Project>, owner: Seq<char>, o: Option<String>) -> bool {
    project_ref(o) matches Some(p) && !owns_project(projects, owner, p@)
}

/// `t` is the task that `create_task` makes from `body`.
pub open spec fn is_new_task(t: Task, owner: String, body: CreateTaskRequest, now: Timestamp, id: String) -> bool {
    &&& t.id == id
    &&& t.title == body.title
    &&& t.description@ == text_or(body.description, ""@)
    &&& t.category@ == text_or(body.category, "General"@)
    &&& t.priority@ == text_or(body.priority, "normal"@)
    &&& t.status == TaskStatus::Pending
    &&& t.user_id == owner
    &&& t.start_date == body.start_date
    &&& t.due_date == body.due_date
    &&& t.created_at == now
    &&& t.updated_at == now
    &&& t.project_id == project_ref(body.project_id)
}

/// Reads a requested project id, treating the sentinels as "no project".
pub fn normalize_project(o: &Option<String>) -> (r: Option<String>)
    ensures
        r == project_ref(*o),
{
    match o {
        Some(s) => {
            if *s == String::from_str("") || *s == String::from_str("default") {
                None
            } else {
                Some(s.clone())
            }
        },
        None => None,
    }
}

/// Whether the requested project, if any, belongs to `owner`.
fn project_allowed(store: &Store, owner: &String, o: &Option<String>) -> (b: bool)
    ensures
        b == !foreign_project(store@.projects, owner@, *o),
{
    match normalize_project(o) {
        Some(p) => store.find_owned_project(owner, &p).is_some(),
        None => true,
    }
}

fn text_or_default(o: &Option<String>, d: String) -> (r: String)
    ensures
        r@ == text_or(*o, d@),
{
    match o {
        Some(s) => s.clone(),
        None => d,
    }
}

/// Creates a task with id `id` for `caller`, stamped `now`, status `pending`.
///
/// A project that `caller` does not own is not found, whatever the title; an
/// empty title is invalid; an id already in use is a refused write. In each
/// case nothing changes.
pub fn create_task(
    store: &mut Store,
    caller: &String,
    body: &CreateTaskRequest,
    now: Timestamp,
    id: String,
) -> (r: Result<Task, CoreError>)
    requires
        old(store)@.wf(),
    ensures
        final(store)@.wf(),
        foreign_project(old(store)@.projects, caller@, body.project_id) ==> r == Err::<Task, CoreError>(
            CoreError::NotFound,
        ) && final(store)@ == old(store)@,
        !foreign_project(old(store)@.projects, caller@, body.project_id) && body.title@.len() == 0
            ==> r == Err::<Task, CoreError>(CoreError::Invalid) && final(store)@ == old(store)@,
        body.title@.len() > 0 && !foreign_project(old(store)@.projects, caller@, body.project_id)
            && task_id_used(old(store)@.tasks, id@) ==> r == Err::<Task, CoreError>(
            CoreError::Internal,
        ) && final(store)@ == old(store)@,
        body.title@.len() > 0 && !foreign_project(old(store)@.projects, caller@, body.project_id)
            && !task_id_used(
            old(store)@.tasks,
            id@,
        ) ==> r is Ok && is_new_task(r->Ok_0, *caller, *body, now, id) && final(store)@ == (
        StoreModel { tasks: old(store)@.tasks.push(r->Ok_0), ..old(store)@ }),
{
    if !project_allowed(store, caller, &body.project_id) {
        return Err(CoreError::NotFound);
    }
    if body.title.as_str().is_empty() {
        return Err(CoreError::Invalid);
    }
    if store.has_task_id(&id) {
        return Err(CoreError::Internal);
    }
    proof {
        reveal_strlit("");
    }
    let t = Task {
        id,
        title: body.title.clone(),
        description: text_or_default(&body.description, String::new()),
        category: text_or_default(&body.category, String::from_str("General")),
        status: TaskStatus::Pending,
        priority: text_or_default(&body.priority, default_priority()),
        user_id: caller.clone(),
        start_date: copy_opt(&body.start_date),
        due_date: copy_opt(&body.due_date),
        created_at: now,
        updated_at: now,
        project_id: normalize_project(&body.project_id),
    };
    assert(t.description@ == text_or(body.description, ""@));
    assert(t.category@ == text_or(body.category, "General"@));
    assert(t.priority@ == text_or(body.priority, "normal"@));
    assert(t.project_id == project_ref(body.project_id));
    assert(t.start_date == body.start_date);
    assert(t.id == id);
    let ghost m = store@;
    store.tasks.push(t.copy());
    proof {
        assert(store@ =~= (StoreModel { tasks: m.tasks.push(t), ..m }));
        assert forall|a: int, b: int|
            0 <= a < store@.tasks.len() && 0 <= b < store@.tasks.len() && #[trigger] store@.tasks[a].id@
                == #[trigger] store@.tasks[b].id@ implies a == b by {
            if a < m.tasks.len() && b < m.tasks.len() {
                assert(store@.tasks[a] == m.tasks[a]);
                assert(store@.tasks[b] == m.tasks[b]);
            } else if a < m.tasks.len() {
                assert(store@.tasks[a] == m.tasks[a]);
            } else if b < m.tasks.len() {
                assert(store@.tasks[b] == m.tasks[b]);
            }
        }
    }
    Ok(t)
}

/// Some field of the update is present.
pub open spec fn any_field(b: UpdateTaskRequest) -> bool {
    b.title is Some || b.description is Some || b.category is Some || b.status is Some
        || b.priority is Some || b.project_id is Some || b.start_date is Some || b.due_date is Some
}

/// The update names a status that does not exist.
pub open spec fn bad_status(b: UpdateTaskRequest) -> bool {
    b.status matches Some(s) && status_of_name(s@) is None
}

/// `t` after the present fields of `b` are applied at `now`.
pub open spec fn patched_task(t: Task, b: UpdateTaskRequest, now: Timestamp) -> Task {
    Task {
        title: if b.title is Some { b.title->0 } else { t.title },
        description: if b.description is Some { b.description->0 } else { t.description },
        category: if b.category is Some { b.category->0 } else { t.category },
        status: if b.status is Some { status_of_name(b.status->0@)->0 } else { t.status },
        priority: if b.priority is Some { b.priority->0 } else { t.priority },
        project_id: if b.project_id is Some { project_ref(b.project_id) } else { t.project_id },
        start_date: if b.start_date is Some { date_value(b.start_date->0) } else { t.start_date },
        due_date: if b.due_date is Some { date_value(b.due_date->0) } else { t.due_date },
        updated_at: if any_field(b) { now } else { t.updated_at },
        ..t
    }
}

fn date_of(s: &String) -> (r: Option<String>)
    ensures
        r == date_value(*s),
{
    if s.as_str().is_empty() {
        None
    } else {
        Some(s.clone())
    }
}

/// Applies the present fields of `body` to `caller`'s task `task_id`, bumping
/// `updated_at` when any is present, and returns the row. With no field
/// present the row is returned unchanged.
///
/// A task that `caller` does not own, or a project they do not own, is not
/// found; an unknown status is invalid. Checks come before any write.
pub fn update_task(
    store: &mut Store,
    caller: &String,
    task_id: &String,
    body: &UpdateTaskRequest,
    now: Timestamp,
) -> (r: Result<Task, CoreError>)
    requires
        old(store)@.wf(),
    ensures
        final(store)@.wf(),
        !owns_task(old(store)@.tasks, caller@, task_id@) ==> r == Err::<Task, CoreError>(
            CoreError::NotFound,
        ) && final(store)@ == old(store)@,
        owns_task(old(store)@.tasks, caller@, task_id@) && bad_status(*body) ==> r == Err::<
            Task,
            CoreError,
        >(CoreError::Invalid) && final(store)@ == old(store)@,
        owns_task(old(store)@.tasks, caller@, task_id@) && !bad_status(*body) && foreign_project(
            old(store)@.projects,
            caller@,
            body.project_id,
        ) ==> r == Err::<Task, CoreError>(CoreError::NotFound) && final(store)@ == old(store)@,
        owns_task(old(store)@.tasks, caller@, task_id@) && !bad_status(*body) && !foreign_project(
            old(store)@.projects,
            caller@,
            body.project_id,
        ) ==> {
            let i = task_index(old(store)@.tasks, task_id@);
            let t = patched_task(old(store)@.tasks[i], *body, now);
            &&& r == Ok::<Task, CoreError>(t)
            &&& final(store)@ == (StoreModel {
                tasks: old(store)@.tasks.update(i, t),
                ..old(store)@
            })
        },
{
    let i = match store.find_owned_task(caller, task_id) {
        Some(i) => i,
        None => {
            return Err(CoreError::NotFound);
        },
    };
    let status = match &body.status {
        Some(s) => match TaskStatus::parse(s.as_str()) {
            Some(st) => Some(st),
            None => {
                return Err(CoreError::Invalid);
            },
        },
        None => None,
    };
    if !project_allowed(store, caller, &body.project_id) {
        return Err(CoreError::NotFound);
    }
    let ghost m = store@;
    proof {
        let j = task_index(m.tasks, task_id@);
        assert(m.tasks[i as int].id@ == task_id@);
        assert(m.tasks[j].id@ == m.tasks[i as int].id@);
    }
    let mut t = store.tasks[i].copy();
    let mut touched = false;
    match &body.title {
        Some(v) => {
            t.title = v.clone();
            touched = true;
        },
        None => {},
    }
    match &body.description {
        Some(v) => {
            t.description = v.clone();
            touched = true;
        },
        None => {},
    }
    match &body.category {
        Some(v) => {
            t.category = v.clone();
            touched = true;
        },
        None => {},
    }
    match status {
        Some(v) => {
            t.status = v;
            touched = true;
        },
        None => {},
    }
    match &body.priority {
        Some(v) => {
            t.priority = v.clone();
            touched = true;
        },
        None => {},
    }
    if body.project_id.is_some() {
        t.project_id = normalize_project(&body.project_id);
        touched = true;
    }
    match &body.start_date {
        Some(v) => {
            t.start_date = date_of(v);
            touched = true;
        },
        None => {},
    }
    match &body.due_date {
        Some(v) => {
            t.due_date = date_of(v);
            touched = true;
        },
        None => {},
    }
    if touched {
        t.updated_at = now;
    }
    assert(t == patched_task(m.tasks[i as int], *body, now));
    store.tasks.set(i, t.copy());
    proof {
        assert(store@ =~= (StoreModel { tasks: m.tasks.update(i as int, t), ..m }));
        assert forall|a: int, b: int|
            0 <= a < store@.tasks.len() && 0 <= b < store@.tasks.len() && #[trigger] store@.tasks[a].id@
                == #[trigger] store@.tasks[b].id@ implies a == b by {
            assert(store@.tasks[a].id == m.tasks[a].id);
            assert(store@.tasks[b].id == m.tasks[b].id);
        }
    }
    Ok(t)
}

} // verus!

verus! {

/// The store after task `id` and every row that hangs off it (its timer,
/// subtasks and time entries) are removed.
pub open spec fn task_deleted(m: StoreModel, id: Seq<char>) -> StoreModel {
    StoreModel {
        tasks: m.tasks.remove(task_index(m.tasks, id)),
        timers: m.timers.filter(timer_not_on(id)),
        subtasks: m.subtasks.filter(subtask_not_on(id)),
        entries: m.entries.filter(entry_not_on(id)),
        ..m
    }
}

/// Deletes `caller`'s task `task_id` with its timer, subtasks and time entries.
/// A task that `caller` does not own is not found, and nothing changes.
pub fn delete_task(store: &mut Store, caller: &String, task_id: &String) -> (r: Result<(), CoreError>)
    requires
        old(store)@.wf(),
    ensures
        final(store)@.wf(),
        !owns_task(old(store)@.tasks, caller@, task_id@) ==> r == Err::<(), CoreError>(
            CoreError::NotFound,
        ) && final(store)@ == old(store)@,
        owns_task(old(store)@.tasks, caller@, task_id@) ==> r == Ok::<(), CoreError>(())
            && final(store)@ == task_deleted(old(store)@, task_id@),
{
    let i = match store.find_owned_task(caller, task_id) {
        Some(i) => i,
        None => {
            return Err(CoreError::NotFound);
        },
    };
    let ghost m = store@;
    proof {
        let j = task_index(m.tasks, task_id@);
        assert(m.tasks[i as int].id@ == task_id@);
        assert(m.tasks[j].id@ == m.tasks[i as int].id@);
    }
    store.drop_timers_on(task_id);
    store.drop_subtasks_on(task_id);
    store.drop_entries_on(task_id);
    store.tasks.remove(i);
    proof {
        lemma_distinct_filter(m.subtasks, subtask_key(), subtask_not_on(task_id@));
        lemma_distinct_filter(m.entries, entry_key(), entry_not_on(task_id@));
        lemma_distinct_filter(m.timers, timer_key(), timer_not_on(task_id@));
        assert(store@ =~= task_deleted(m, task_id@));
        assert forall|a: int, b: int|
            0 <= a < store@.tasks.len() && 0 <= b < store@.tasks.len() && #[trigger] store@.tasks[a].id@
                == #[trigger] store@.tasks[b].id@ implies a == b by {
            let aa = if a < i { a } else { a + 1 };
            let bb = if b < i { b } else { b + 1 };
            assert(store@.tasks[a] == m.tasks[aa]);
            assert(store@.tasks[b] == m.tasks[bb]);
            assert(m.tasks[aa].id@ == m.tasks[bb].id@);
            assert(aa == bb);
        }
    }
    Ok(())
}

/// The store and the count after the ids of `ids` are deleted one after the
/// other, each only where `owner` owns it at that point.
pub open spec fn bulk_deleted(m: StoreModel, owner: Seq<char>, ids: Seq<String>) -> (StoreModel, nat)
    decreases ids.len(),
{
    if ids.len() == 0 {
        (m, 0)
    } else {
        let (m1, c) = bulk_deleted(m, owner, ids.drop_last());
        let id = ids.last()@;
        if owns_task(m1.tasks, owner, id) {
            (task_deleted(m1, id), c + 1)
        } else {
            (m1, c)
        }
    }
}

/// Deletes each listed task that `caller` owns, with its dependent rows, and
/// returns how many were deleted. Ids that `caller` does not own are skipped.
pub fn delete_tasks_bulk(store: &mut Store, caller: &String, body: &BulkDeleteRequest) -> (r: usize)
    requires
        old(store)@.wf(),
    ensures
        final(store)@.wf(),
        (final(store)@, r as nat) == bulk_deleted(old(store)@, caller@, body.ids@),
{
    let mut count: usize = 0;
    let mut i: usize = 0;
    while i < body.ids.len()
        invariant
            0 <= i <= body.ids@.len(),
            store@.wf(),
            count <= i,
            (store@, count as nat) == bulk_deleted(old(store)@, caller@, body.ids@.subrange(0, i as int)),
        decreases body.ids@.len() - i,
    {
        proof {
            assert(body.ids@.subrange(0, i + 1).drop_last() =~= body.ids@.subrange(0, i as int));
        }
        let r = delete_task(store, caller, &body.ids[i]);
        if r.is_ok() {
            count = count + 1;
        }
        i = i + 1;
    }
    proof {
        assert(body.ids@.subrange(0, body.ids@.len() as int) =~= body.ids@);
    }
    count
}

/// Tasks of `owner`.
pub open spec fn task_owned_by(owner: Seq<char>) -> spec_fn(Task) -> bool {
    |t: Task| t.user_id@ == owner
}

/// The tasks that `owner` owns.
pub open spec fn tasks_of(tasks: Seq<Task>, owner: Seq<char>) -> Seq<Task> {
    tasks.filter(task_owned_by(owner))
}

/// `caller`'s tasks, in store order.
fn owned_tasks(store: &Store, caller: &String) -> (r: Vec<Task>)
    ensures
        r@ == tasks_of(store@.tasks, caller@),
{
    let mut out: Vec<Task> = Vec::new();
    let mut i: usize = 0;
    while i < store.tasks.len()
        invariant
            0 <= i <= store.tasks@.len(),
            out@ == tasks_of(store.tasks@.subrange(0, i as int), caller@),
        decreases store.tasks@.len() - i,
    {
        proof {
            let s = store.tasks@;
            assert(s.subrange(0, i + 1) =~= s.subrange(0, i as int).push(s[i as int]));
            s.subrange(0, i as int).lemma_filter_push(s[i as int], task_owned_by(caller@));
        }
        if store.tasks[i].user_id == *caller {
            out.push(store.tasks[i].copy());
        }
        i = i + 1;
    }
    proof {
        assert(store.tasks@.subrange(0, store.tasks@.len() as int) =~= store.tasks@);
    }
    out
}

/// `caller`'s tasks, most recently updated first, each once.
pub fn get_tasks(store: &Store, caller: &String) -> (r: Vec<Task>)
    requires
        store@.wf(),
    ensures
        ranked(r@),
        r@.to_multiset() == tasks_of(store@.tasks, caller@).to_multiset(),
        unique_task_ids(r@),
{
    let own = owned_tasks(store, caller);
    let r = sort_by_rank(&own);
    proof {
        let key = |t: Task| t.id@;
        let s = store@.tasks;
        assert forall|a: int, b: int|
            0 <= a < s.len() && 0 <= b < s.len() && #[trigger] key(s[a]) == #[trigger] key(s[b]) implies a
            == b by {
            assert(s[a].id@ == s[b].id@);
        }
        lemma_distinct_filter(s, key, task_owned_by(caller@));
        lemma_distinct_permutation(own@, r@, key);
        assert forall|a: int, b: int|
            0 <= a < r@.len() && 0 <= b < r@.len() && #[trigger] r@[a].id@ == #[trigger] r@[b].id@ implies a
            == b by {
            assert(key(r@[a]) == key(r@[b]));
        }
    }
    r
}

} // verus!
