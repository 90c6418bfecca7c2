use vstd::prelude::*;
use crate::model::{Project, Task, Timestamp};
use crate::role::CoreError;
use crate::model::TaskStatus;
use crate::reports::{count_in_project, minutes_on_project, project_minutes, tasks_in_project};
use crate::store::{
    is_owned_project, lemma_distinct_filter, lemma_distinct_same_keys, owns_project,
    project_key, Store, StoreModel,
};

verus! {

/// Fields of a new project; absent optional fields take their defaults.
#[derive(Clone, Debug)]
pub struct CreateProjectRequest {
    pub name: String,
    pub color: Option<String>,
    pub description: Option<String>,
}

/// A sparse update: only the fields that are present change.
#[derive(Clone, Debug)]
pub struct UpdateProjectRequest {
    pub name: Option<String>,
    pub color: Option<String>,
    pub description: Option<String>,
}

/// Some project has id `id`.
pub open spec fn project_id_used(projects: Seq<Project>, id: Seq<char>) -> bool {
    exists|i: int| 0 <= i < projects.len() && (#[trigger] projects[i]).id@ == id
}

/// The color swatch of a project that names none.
pub open spec fn default_color() -> Seq<char> {
    "#3b82f6"@
}

/// `p` is the project that `create_project` makes from `body`.
pub open spec fn is_new_project(
    p: Project,
    owner: String,
    body: CreateProjectRequest,
    now: Timestamp,
    id: String,
) -> bool {
    &&& p.id == id
    &&& p.name == body.name
    &&& p.color@ == (match body.color {
        Some(c) => c@,
        None => default_color(),
    })
    &&& p.description@ == (match body.description {
        Some(d) => d@,
        None => ""@,
    })
    &&& p.created_at == now
    &&& p.user_id == owner
}

/// Creates a project with id `id` for `caller`. An empty name is invalid and
/// an id already in use is a refused write; either way nothing changes.
pub fn create_project(
    store: &mut Store,
    caller: &String,
    body: &CreateProjectRequest,
    now: Timestamp,
    id: String,
) -> (r: Result<Project, CoreError>)
    requires
        old(store)@.wf(),
    ensures
        final(store)@.wf(),
        body.name@.len() == 0 ==> r == Err::<Project, CoreError>(CoreError::Invalid) 
            && final(store)@ == old(store)@,
        body.name@.len() > 0 && project_id_used(old(store)@.projects, id@) ==> r == Err::<
            Project,
            CoreError,
        >(CoreError::Internal) && final(store)@ == old(store)@,
        body.name@.len() > 0 && !project_id_used(old(store)@.projects, id@) ==> r is Ok && is_new_project(
            r->Ok_0,
            *caller,
            *body,
            now,
            id,
        ) && final(store)@ == (StoreModel {
            projects: old(store)@.projects.push(r->Ok_0),
            ..old(store)@
        }),
{
    if body.name.as_str().is_empty() {
        return Err(CoreError::Invalid);
    }
    let mut i: usize = 0;
    while i < store.projects.len()
        invariant
            0 <= i <= store.projects@.len(),
            store@.wf(),
            body.name@.len() > 0,
            forall|k: int| 0 <= k < i ==> (#[trigger] store.projects@[k]).id@ != id@,
        decreases store.projects@.len() - i,
    {
        if store.projects[i].id == id {
            return Err(CoreError::Internal);
        }
        i = i + 1;
    }
    proof {
        reveal_strlit("");
    }
    let p = Project {
        id,
        name: body.name.clone(),
        color: match &body.color {
            Some(c) => c.clone(),
            None => String::from_str("#3b82f6"),
        },
        description: match &body.description {
            Some(d) => d.clone(),
            None => String::new(),
        },
        created_at: now,
        user_id: caller.clone(),
    };
    assert(p.id == id);
    assert(p.color@ == (match body.color {
        Some(c) => c@,
        None => default_color(),
    }));
    assert(p.description@ == (match body.description {
        Some(d) => d@,
        None => ""@,
    }));
    let ghost m = store@;
    store.projects.push(p.copy());
    assert(store@ =~= (StoreModel { projects: m.projects.push(p), ..m }));
    Ok(p)
}

/// `p` after the present fields of `b` are applied.
pub open spec fn patched_project(p: Project, b: UpdateProjectRequest) -> Project {
    Project {
        name: if b.name is Some { b.name->0 } else { p.name },
        color: if b.color is Some { b.color->0 } else { p.color },
        description: if b.description is Some { b.description->0 } else { p.description },
        ..p
    }
}

/// The owner's projects with id `id` patched by `b`; the rest unchanged.
pub open spec fn update_owned_projects(
    projects: Seq<Project>,
    owner: Seq<char>,
    id: Seq<char>,
    b: UpdateProjectRequest,
) -> Seq<Project> {
    projects.map_values(
        |p: Project|
            if is_owned_project(p, owner, id) {
                patched_project(p, b)
            } else {
                p
            },
    )
}

/// Applies the present fields of `body` to `caller`'s project `project_id`
/// and returns it. A project that `caller` does not own is not found, and
/// nothing changes.
pub fn update_project(
    store: &mut Store,
    caller: &String,
    project_id: &String,
    body: &UpdateProjectRequest,
) -> (r: Result<Project, CoreError>)
    requires
        old(store)@.wf(),
    ensures
        final(store)@.wf(),
        !owns_project(old(store)@.projects, caller@, project_id@) ==> r == Err::<
            Project,
            CoreError,
        >(CoreError::NotFound) && final(store)@ == old(store)@,
        owns_project(old(store)@.projects, caller@, project_id@) ==> final(store)@ == (StoreModel {
            projects: update_owned_projects(old(store)@.projects, caller@, project_id@, *body),
            ..old(store)@
        }) && r is Ok && exists|i: int|
            0 <= i < old(store)@.projects.len() && is_owned_project(
                #[trigger] old(store)@.projects[i],
                caller@,
                project_id@,
            ) && r->Ok_0 == patched_project(old(store)@.projects[i], *body),
{
    let first = match store.find_owned_project(caller, project_id) {
        Some(k) => k,
        None => {
            return Err(CoreError::NotFound);
        },
    };
    let ghost m = store@;
    let mut i: usize = 0;
    while i < store.projects.len()
        invariant
            0 <= i <= store.projects@.len(),
            store.projects@.len() == m.projects.len(),
            forall|k: int|
                0 <= k < i ==> #[trigger] store.projects@[k] == (if is_owned_project(
                    m.projects[k],
                    caller@,
                    project_id@,
                ) {
                    patched_project(m.projects[k], *body)
                } else {
                    m.projects[k]
                }),
            forall|k: int| i <= k < store.projects@.len() ==> #[trigger] store.projects@[k] == m.projects[k],
            store@ == (StoreModel { projects: store@.projects, ..m }),
        decreases store.projects@.len() - i,
    {
        if store.projects[i].id == *project_id && store.projects[i].user_id == *caller {
            let mut p = store.projects[i].copy();
            match &body.name {
                Some(v) => {
                    p.name = v.clone();
                },
                None => {},
            }
            match &body.color {
                Some(v) => {
                    p.color = v.clone();
                },
                None => {},
            }
            match &body.description {
                Some(v) => {
                    p.description = v.clone();
                },
                None => {},
            }
            store.projects.set(i, p);
        }
        i = i + 1;
    }
    assert(store@ =~= (StoreModel {
        projects: update_owned_projects(m.projects, caller@, project_id@, *body),
        ..m
    }));
    proof {
        assert forall|k: int| 0 <= k < m.projects.len() implies project_key()(
            #[trigger] store@.projects[k],
        ) == project_key()(m.projects[k]) by {
            assert(store@.projects[k].id == m.projects[k].id);
        }
        lemma_distinct_same_keys(m.projects, store@.projects, project_key());
    }
    Ok(store.projects[first].copy())
}

/// `t` with no project where it is `owner`'s task filed under project `id`.
pub open spec fn detached(t: Task, owner: Seq<char>, id: Seq<char>) -> Task {
    if t.user_id@ == owner && (t.project_id matches Some(p) && p@ == id) {
        Task { project_id: None, ..t }
    } else {
        t
    }
}

/// Projects other than `owner`'s project `id`.
pub open spec fn project_kept(owner: Seq<char>, id: Seq<char>) -> spec_fn(Project) -> bool {
    |p: Project| !is_owned_project(p, owner, id)
}

/// Projects of `owner`.
pub open spec fn project_of(owner: Seq<char>) -> spec_fn(Project) -> bool {
    |p: Project| p.user_id@ == owner
}

/// The store after `owner`'s project `id` is deleted and its tasks detached.
pub open spec fn project_deleted(m: StoreModel, owner: Seq<char>, id: Seq<char>) -> StoreModel {
    StoreModel {
        projects: m.projects.filter(project_kept(owner, id)),
        tasks: m.tasks.map_values(|t: Task| detached(t, owner, id)),
        ..m
    }
}

/// Deletes `caller`'s project `project_id`; `caller`'s tasks filed under it
/// stay, with no project.
/// A project that `caller` does not own is not found, and nothing changes.
pub fn delete_project(store: &mut Store, caller: &String, project_id: &String) -> (r: Result<
    (),
    CoreError,
>)
    requires
        old(store)@.wf(),
    ensures
        final(store)@.wf(),
        !owns_project(old(store)@.projects, caller@, project_id@) ==> r == Err::<(), CoreError>(
            CoreError::NotFound,
        ) && final(store)@ == old(store)@,
        owns_project(old(store)@.projects, caller@, project_id@) ==> r == Ok::<(), CoreError>(())
            && final(store)@ == project_deleted(old(store)@, caller@, project_id@),
{
    if store.find_owned_project(caller, project_id).is_none() {
        return Err(CoreError::NotFound);
    }
    let ghost m = store@;
    let mut i: usize = 0;
    while i < store.tasks.len()
        invariant
            0 <= i <= store.tasks@.len(),
            store.tasks@.len() == m.tasks.len(),
            forall|k: int| 0 <= k < i ==> #[trigger] store.tasks@[k] == detached(m.tasks[k], caller@, project_id@),
            forall|k: int| i <= k < store.tasks@.len() ==> #[trigger] store.tasks@[k] == m.tasks[k],
            store@ == (StoreModel { tasks: store@.tasks, ..m }),
        decreases store.tasks@.len() - i,
    {
        let hit = match &store.tasks[i].project_id {
            Some(p) => *p == *project_id && store.tasks[i].user_id == *caller,
            None => false,
        };
        if hit {
            let mut t = store.tasks[i].copy();
            t.project_id = None;
            store.tasks.set(i, t);
        }
        i = i + 1;
    }
    let mut kept: Vec<Project> = Vec::new();
    let mut j: usize = 0;
    while j < store.projects.len()
        invariant
            0 <= j <= store.projects@.len(),
            store.projects@ == m.projects,
            kept@ == m.projects.subrange(0, j as int).filter(project_kept(caller@, project_id@)),
        decreases store.projects@.len() - j,
    {
        proof {
            assert(m.projects.subrange(0, j + 1) =~= m.projects.subrange(0, j as int).push(m.projects[j as int]));
            m.projects.subrange(0, j as int).lemma_filter_push(m.projects[j as int], project_kept(caller@, project_id@));
        }
        if !(store.projects[j].id == *project_id && store.projects[j].user_id == *caller) {
            kept.push(store.projects[j].copy());
        }
        j = j + 1;
    }
    proof {
        assert(m.projects.subrange(0, m.projects.len() as int) =~= m.projects);
    }
    store.projects = kept;
    proof {
        lemma_distinct_filter(m.projects, project_key(), project_kept(caller@, project_id@));
        assert(store@ =~= project_deleted(m, caller@, project_id@));
        assert forall|a: int, b: int|
            0 <= a < store@.tasks.len() && 0 <= b < store@.tasks.len() && #[trigger] store@.tasks[a].id@
                == #[trigger] store@.tasks[b].id@ implies a == b by {
            assert(store@.tasks[a].id == m.tasks[a].id);
            assert(store@.tasks[b].id == m.tasks[b].id);
        }
    }
    Ok(())
}

/// The projects that `owner` owns.
pub open spec fn projects_of(projects: Seq<Project>, owner: Seq<char>) -> Seq<Project> {
    projects.filter(project_of(owner))
}

/// `caller`'s projects, in store order.
pub fn list_projects(store: &Store, caller: &String) -> (r: Vec<Project>)
    ensures
        r@ == projects_of(store@.projects, caller@),
{
    let mut out: Vec<Project> = Vec::new();
    let mut i: usize = 0;
    while i < store.projects.len()
        invariant
            0 <= i <= store.projects@.len(),
            out@ == store.projects@.subrange(0, i as int).filter(project_of(caller@)),
        decreases store.projects@.len() - i,
    {
        proof {
            let s = store.projects@;
            assert(s.subrange(0, i + 1) =~= s.subrange(0, i as int).push(s[i as int]));
            s.subrange(0, i as int).lemma_filter_push(s[i as int], project_of(caller@));
        }
        if store.projects[i].user_id == *caller {
            out.push(store.projects[i].copy());
        }
        i = i + 1;
    }
    proof {
        assert(store.projects@.subrange(0, store.projects@.len() as int) =~= store.projects@);
    }
    out
}

/// A project with the counts of its tasks by status and the minutes logged on them.
#[derive(Clone, Debug)]
pub struct ProjectWithStats {
    pub project: Project,
    pub task_count: u64,
    pub pending_count: u64,
    pub in_progress_count: u64,
    pub completed_count: u64,
    pub total_minutes: i128,
}

/// `r` describes project `p` of store `m`.
pub open spec fn is_project_with_stats(r: ProjectWithStats, m: StoreModel, p: Project) -> bool {
    &&& r.project == p
    &&& r.task_count == tasks_in_project(m.tasks, p.id@, None)
    &&& r.pending_count == tasks_in_project(m.tasks, p.id@, Some(TaskStatus::Pending))
    &&& r.in_progress_count == tasks_in_project(m.tasks, p.id@, Some(TaskStatus::InProgress))
    &&& r.completed_count == tasks_in_project(m.tasks, p.id@, Some(TaskStatus::Completed))
    &&& r.total_minutes == project_minutes(m.entries, m.tasks, p.id@)
}

/// `caller`'s projects in store order, each with its task counts and minutes.
pub fn get_projects(store: &Store, caller: &String) -> (r: Vec<ProjectWithStats>)
    ensures
        r@.len() == projects_of(store@.projects, caller@).len(),
        forall|k: int|
            0 <= k < r@.len() ==> is_project_with_stats(
                #[trigger] r@[k],
                store@,
                projects_of(store@.projects, caller@)[k],
            ),
{
    let own = list_projects(store, caller);
    let mut out: Vec<ProjectWithStats> = Vec::new();
    let mut i: usize = 0;
    while i < own.len()
        invariant
            0 <= i <= own@.len(),
            own@ == projects_of(store@.projects, caller@),
            out@.len() == i,
            forall|k: int| 0 <= k < i ==> is_project_with_stats(#[trigger] out@[k], store@, own@[k]),
        decreases own@.len() - i,
    {
        let p = &own[i];
        out.push(
            ProjectWithStats {
                project: p.copy(),
                task_count: count_in_project(store, &p.id, None),
                pending_count: count_in_project(store, &p.id, Some(TaskStatus::Pending)),
                in_progress_count: count_in_project(store, &p.id, Some(TaskStatus::InProgress)),
                completed_count: count_in_project(store, &p.id, Some(TaskStatus::Completed)),
                total_minutes: minutes_on_project(store, &p.id),
            },
        );
        i = i + 1;
    }
    out
}

} // verus!
