use vstd::prelude::*;
use vstd::seq_lib::{to_multiset_build, to_multiset_insert};
use crate::model::{Subtask, Timestamp};
use crate::role::CoreError;
use crate::store::{
    lemma_distinct_filter, lemma_distinct_same_keys, owns_task, subtask_key, Store, StoreModel,
};

verus! {

/// Title of a new subtask.
#[derive(Clone, Debug)]
pub struct CreateSubtaskRequest {
    pub title: String,
}

/// A sparse update: only the fields that are present change.
#[derive(Clone, Debug)]
pub struct UpdateSubtaskRequest {
    pub title: Option<String>,
    pub completed: Option<bool>,
    pub position: Option<i32>,
}

/// Subtask `s` has id `id` and belongs to `owner`.
pub open spec fn is_owned_subtask(s: Subtask, owner: Seq<char>, id: Seq<char>) -> bool {
    s.id@ == id && s.user_id@ == owner
}

/// `owner` has a subtask with id `id`.
pub open spec fn owns_subtask(subs: Seq<Subtask>, owner: Seq<char>, id: Seq<char>) -> bool {
    exists|i: int| 0 <= i < subs.len() && is_owned_subtask(#[trigger] subs[i], owner, id)
}

/// Some subtask has id `id`.
pub open spec fn subtask_id_used(subs: Seq<Subtask>, id: Seq<char>) -> bool {
    exists|i: int| 0 <= i < subs.len() && (#[trigger] subs[i]).id@ == id
}

/// The largest position among the subtasks of `task`, if it has any.
pub open spec fn max_position(subs: Seq<Subtask>, task: Seq<char>) -> Option<int>
    decreases subs.len(),
{
    if subs.len() == 0 {
        None
    } else {
        let p = max_position(subs.drop_last(), task);
        let s = subs.last();
        if s.task_id@ == task {
            match p {
                Some(m) => if s.position > m {
                    Some(s.position as int)
                } else {
                    Some(m)
                },
                None => Some(s.position as int),
            }
        } else {
            p
        }
    }
}

/// One more than the largest position among the subtasks of `task`, or 0 when
/// it has none.
pub open spec fn next_position(subs: Seq<Subtask>, task: Seq<char>) -> int {
    match max_position(subs, task) {
        Some(m) => m + 1,
        None => 0,
    }
}

/// The position that a new subtask of `task_id` takes.
fn position_after(store: &Store, task_id: &String) -> (r: i64)
    ensures
        r == next_position(store@.subtasks, task_id@),
{
    let mut best: Option<i32> = None;
    let mut i: usize = 0;
    while i < store.subtasks.len()
        invariant
            0 <= i <= store.subtasks@.len(),
            max_position(store.subtasks@.subrange(0, i as int), task_id@) == match best {
                Some(b) => Some(b as int),
                None => None::<int>,
            },
        decreases store.subtasks@.len() - i,
    {
        proof {
            assert(store.subtasks@.subrange(0, i + 1).drop_last() =~= store.subtasks@.subrange(0, i as int));
        }
        let s = &store.subtasks[i];
        if s.task_id == *task_id {
            best = match best {
                Some(b) => if s.position > b {
                    Some(s.position)
                } else {
                    Some(b)
                },
                None => Some(s.position),
            };
        }
        i = i + 1;
    }
    proof {
        assert(store.subtasks@.subrange(0, store.subtasks@.len() as int) =~= store.subtasks@);
    }
    match best {
        Some(b) => b as i64 + 1,
        None => 0,
    }
}

/// Adds a subtask with id `id` at the end of `caller`'s task `task_id`.
///
/// A task that `caller` does not own is not found, whatever the title; an
/// empty title is invalid; an id already in use is a refused write; a position
/// past the largest `i32` is invalid. In each case nothing changes.
pub fn create_subtask(
    store: &mut Store,
    caller: &String,
    task_id: &String,
    body: &CreateSubtaskRequest,
    now: Timestamp,
    id: String,
) -> (r: Result<Subtask, CoreError>)
    requires
        old(store)@.wf(),
    ensures
        final(store)@.wf(),
        !owns_task(old(store)@.tasks, caller@, task_id@) ==> r == Err::<Subtask, CoreError>(
            CoreError::NotFound,
        ) && final(store)@ == old(store)@,
        owns_task(old(store)@.tasks, caller@, task_id@) && body.title@.len() == 0 ==> r == Err::<
            Subtask,
            CoreError,
        >(CoreError::Invalid) && final(store)@ == old(store)@,
        body.title@.len() > 0 && owns_task(old(store)@.tasks, caller@, task_id@) && subtask_id_used(old(store)@.subtasks, id@)
            ==> r == Err::<Subtask, CoreError>(CoreError::Internal) && final(store)@ == old(store)@,
        body.title@.len() > 0 && owns_task(old(store)@.tasks, caller@, task_id@) && !subtask_id_used(
            old(store)@.subtasks,
            id@,
        ) && next_position(old(store)@.subtasks, task_id@) > i32::MAX ==> r == Err::<
            Subtask,
            CoreError,
        >(CoreError::Invalid) && final(store)@ == old(store)@,
        body.title@.len() > 0 && owns_task(old(store)@.tasks, caller@, task_id@) && !subtask_id_used(
            old(store)@.subtasks,
            id@,
        ) && next_position(old(store)@.subtasks, task_id@) <= i32::MAX ==> {
            &&& r is Ok
            &&& r->Ok_0 == (Subtask {
                id,
                task_id: *task_id,
                title: body.title,
                completed: false,
                position: next_position(old(store)@.subtasks, task_id@) as i32,
                created_at: now,
                user_id: *caller,
            })
            &&& final(store)@ == (StoreModel {
                subtasks: old(store)@.subtasks.push(r->Ok_0),
                ..old(store)@
            })
        },
{
    if store.find_owned_task(caller, task_id).is_none() {
        return Err(CoreError::NotFound);
    }
    if body.title.as_str().is_empty() {
        return Err(CoreError::Invalid);
    }
    let mut i: usize = 0;
    while i < store.subtasks.len()
        invariant
            0 <= i <= store.subtasks@.len(),
            store@ == old(store)@,
            store@.wf(),
            owns_task(store@.tasks, caller@, task_id@),
            body.title@.len() > 0,
            forall|k: int| 0 <= k < i ==> (#[trigger] store.subtasks@[k]).id@ != id@,
        decreases store.subtasks@.len() - i,
    {
        if store.subtasks[i].id == id {
            return Err(CoreError::Internal);
        }
        i = i + 1;
    }
    let next = position_after(store, task_id);
    if next > 0x7fff_ffff {
        return Err(CoreError::Invalid);
    }
    let s = Subtask {
        id,
        task_id: task_id.clone(),
        title: body.title.clone(),
        completed: false,
        position: next as i32,
        created_at: now,
        user_id: caller.clone(),
    };
    let ghost m = store@;
    store.subtasks.push(s.copy());
    assert(store@ =~= (StoreModel { subtasks: m.subtasks.push(s), ..m }));
    Ok(s)
}

/// `s` after the present fields of `b` are applied.
pub open spec fn patched_subtask(s: Subtask, b: UpdateSubtaskRequest) -> Subtask {
    Subtask {
        title: if b.title is Some { b.title->0 } else { s.title },
        completed: if b.completed is Some { b.completed->0 } else { s.completed },
        position: if b.position is Some { b.position->0 } else { s.position },
        ..s
    }
}

/// The owner's subtasks with id `id` patched by `b`; the rest unchanged.
pub open spec fn update_owned_subtasks(
    subs: Seq<Subtask>,
    owner: Seq<char>,
    id: Seq<char>,
    b: UpdateSubtaskRequest,
) -> Seq<Subtask> {
    subs.map_values(
        |s: Subtask|
            if is_owned_subtask(s, owner, id) {
                patched_subtask(s, b)
            } else {
                s
            },
    )
}

/// Position of the owner's subtask `id`, if the owner has one.
fn find_owned_subtask(store: &Store, owner: &String, id: &String) -> (r: Option<usize>)
    ensures
        r is None ==> !owns_subtask(store@.subtasks, owner@, id@),
        r matches Some(i) ==> i < store@.subtasks.len() && is_owned_subtask(
            store@.subtasks[i as int],
            owner@,
            id@,
        ),
{
    let mut i: usize = 0;
    while i < store.subtasks.len()
        invariant
            0 <= i <= store.subtasks@.len(),
            forall|k: int| 0 <= k < i ==> !is_owned_subtask(#[trigger] store.subtasks@[k], owner@, id@),
        decreases store.subtasks@.len() - i,
    {
        if store.subtasks[i].id == *id && store.subtasks[i].user_id == *owner {
            return Some(i);
        }
        i = i + 1;
    }
    None
}

/// Applies the present fields of `body` to `caller`'s subtask `subtask_id`
/// and returns it. A subtask that `caller` does not own is not found, and
/// nothing changes.
pub fn update_subtask(
    store: &mut Store,
    caller: &String,
    subtask_id: &String,
    body: &UpdateSubtaskRequest,
) -> (r: Result<Subtask, CoreError>)
    requires
        old(store)@.wf(),
    ensures
        final(store)@.wf(),
        !owns_subtask(old(store)@.subtasks, caller@, subtask_id@) ==> r == Err::<
            Subtask,
            CoreError,
        >(CoreError::NotFound) && final(store)@ == old(store)@,
        owns_subtask(old(store)@.subtasks, caller@, subtask_id@) ==> final(store)@ == (StoreModel {
            subtasks: update_owned_subtasks(old(store)@.subtasks, caller@, subtask_id@, *body),
            ..old(store)@
        }) && r is Ok && exists|i: int|
            0 <= i < old(store)@.subtasks.len() && is_owned_subtask(
                #[trigger] old(store)@.subtasks[i],
                caller@,
                subtask_id@,
            ) && r->Ok_0 == patched_subtask(old(store)@.subtasks[i], *body),
{
    let first = match find_owned_subtask(store, caller, subtask_id) {
        Some(k) => k,
        None => {
            return Err(CoreError::NotFound);
        },
    };
    let ghost m = store@;
    let mut i: usize = 0;
    while i < store.subtasks.len()
        invariant
            0 <= i <= store.subtasks@.len(),
            store.subtasks@.len() == m.subtasks.len(),
            forall|k: int|
                0 <= k < i ==> #[trigger] store.subtasks@[k] == (if is_owned_subtask(
                    m.subtasks[k],
                    caller@,
                    subtask_id@,
                ) {
                    patched_subtask(m.subtasks[k], *body)
                } else {
                    m.subtasks[k]
                }),
            forall|k: int| i <= k < store.subtasks@.len() ==> #[trigger] store.subtasks@[k] == m.subtasks[k],
            store@ == (StoreModel { subtasks: store@.subtasks, ..m }),
        decreases store.subtasks@.len() - i,
    {
        if store.subtasks[i].id == *subtask_id && store.subtasks[i].user_id == *caller {
            let mut s = store.subtasks[i].copy();
            match &body.title {
                Some(v) => {
                    s.title = v.clone();
                },
                None => {},
            }
            match body.completed {
                Some(v) => {
                    s.completed = v;
                },
                None => {},
            }
            match body.position {
                Some(v) => {
                    s.position = v;
                },
                None => {},
            }
            store.subtasks.set(i, s);
        }
        i = i + 1;
    }
    assert(store@ =~= (StoreModel {
        subtasks: update_owned_subtasks(m.subtasks, caller@, subtask_id@, *body),
        ..m
    }));
    proof {
        assert forall|k: int| 0 <= k < m.subtasks.len() implies subtask_key()(
            #[trigger] store@.subtasks[k],
        ) == subtask_key()(m.subtasks[k]) by {
            assert(store@.subtasks[k].id == m.subtasks[k].id);
        }
        lemma_distinct_same_keys(m.subtasks, store@.subtasks, subtask_key());
    }
    Ok(store.subtasks[first].copy())
}

/// Subtasks other than `owner`'s subtask `id`.
pub open spec fn subtask_kept(owner: Seq<char>, id: Seq<char>) -> spec_fn(Subtask) -> bool {
    |s: Subtask| !is_owned_subtask(s, owner, id)
}

/// Deletes `caller`'s subtask `subtask_id`. A subtask that `caller` does not
/// own is not found, and nothing changes.
pub fn delete_subtask(store: &mut Store, caller: &String, subtask_id: &String) -> (r: Result<
    (),
    CoreError,
>)
    requires
        old(store)@.wf(),
    ensures
        final(store)@.wf(),
        !owns_subtask(old(store)@.subtasks, caller@, subtask_id@) ==> r == Err::<(), CoreError>(
            CoreError::NotFound,
        ) && final(store)@ == old(store)@,
        owns_subtask(old(store)@.subtasks, caller@, subtask_id@) ==> r == Ok::<(), CoreError>(())
            && final(store)@ == (StoreModel {
            subtasks: old(store)@.subtasks.filter(subtask_kept(caller@, subtask_id@)),
            ..old(store)@
        }),
{
    if find_owned_subtask(store, caller, subtask_id).is_none() {
        return Err(CoreError::NotFound);
    }
    let ghost m = store@;
    let mut kept: Vec<Subtask> = Vec::new();
    let mut j: usize = 0;
    while j < store.subtasks.len()
        invariant
            0 <= j <= store.subtasks@.len(),
            store@ == m,
            kept@ == m.subtasks.subrange(0, j as int).filter(subtask_kept(caller@, subtask_id@)),
        decreases store.subtasks@.len() - j,
    {
        proof {
            assert(m.subtasks.subrange(0, j + 1) =~= m.subtasks.subrange(0, j as int).push(m.subtasks[j as int]));
            m.subtasks.subrange(0, j as int).lemma_filter_push(m.subtasks[j as int], subtask_kept(caller@, subtask_id@));
        }
        if !(store.subtasks[j].id == *subtask_id && store.subtasks[j].user_id == *caller) {
            kept.push(store.subtasks[j].copy());
        }
        j = j + 1;
    }
    proof {
        assert(m.subtasks.subrange(0, m.subtasks.len() as int) =~= m.subtasks);
    }
    store.subtasks = kept;
    assert(store@ =~= (StoreModel {
        subtasks: m.subtasks.filter(subtask_kept(caller@, subtask_id@)),
        ..m
    }));
    proof {
        lemma_distinct_filter(m.subtasks, subtask_key(), subtask_kept(caller@, subtask_id@));
    }
    Ok(())
}

/// Subtasks of `owner` on task `task`.
pub open spec fn subtask_listed(owner: Seq<char>, task: Seq<char>) -> spec_fn(Subtask) -> bool {
    |s: Subtask| s.user_id@ == owner && s.task_id@ == task
}

/// `caller`'s subtasks of task `task_id`, in store order.
fn listed_subtasks(store: &Store, caller: &String, task_id: &String) -> (r: Vec<Subtask>)
    ensures
        r@ == store@.subtasks.filter(subtask_listed(caller@, task_id@)),
{
    let mut out: Vec<Subtask> = Vec::new();
    let mut i: usize = 0;
    while i < store.subtasks.len()
        invariant
            0 <= i <= store.subtasks@.len(),
            out@ == store.subtasks@.subrange(0, i as int).filter(subtask_listed(caller@, task_id@)),
        decreases store.subtasks@.len() - i,
    {
        proof {
            let s = store.subtasks@;
            assert(s.subrange(0, i + 1) =~= s.subrange(0, i as int).push(s[i as int]));
            s.subrange(0, i as int).lemma_filter_push(s[i as int], subtask_listed(caller@, task_id@));
        }
        if store.subtasks[i].user_id == *caller && store.subtasks[i].task_id == *task_id {
            out.push(store.subtasks[i].copy());
        }
        i = i + 1;
    }
    proof {
        assert(store.subtasks@.subrange(0, store.subtasks@.len() as int) =~= store.subtasks@);
    }
    out
}

/// Subtask `a` comes no later than `b`: by position, then by creation time.
pub open spec fn comes_before(a: Subtask, b: Subtask) -> bool {
    a.position < b.position || (a.position == b.position && a.created_at <= b.created_at)
}

/// Every subtask of `s` comes no later than those after it.
pub open spec fn in_order(s: Seq<Subtask>) -> bool {
    forall|i: int, j: int| 0 <= i < j < s.len() ==> comes_before(#[trigger] s[i], #[trigger] s[j])
}

fn before(a: &Subtask, b: &Subtask) -> (r: bool)
    ensures
        r == comes_before(*a, *b),
{
    a.position < b.position || (a.position == b.position && a.created_at <= b.created_at)
}

/// `caller`'s subtasks of task `task_id`, ordered by position and then by
/// creation time (ties keep store order).
pub fn get_subtasks(store: &Store, caller: &String, task_id: &String) -> (r: Vec<Subtask>)
    ensures
        in_order(r@),
        r@.to_multiset() == store@.subtasks.filter(subtask_listed(caller@, task_id@)).to_multiset(),
{
    let listed = listed_subtasks(store, caller, task_id);
    let mut out: Vec<Subtask> = Vec::new();
    assert(out@ =~= listed@.subrange(0, 0));
    let mut i: usize = 0;
    while i < listed.len()
        invariant
            0 <= i <= listed@.len(),
            in_order(out@),
            out@.to_multiset() == listed@.subrange(0, i as int).to_multiset(),
        decreases listed@.len() - i,
    {
        let x = listed[i].copy();
        let mut j: usize = 0;
        let mut found = false;
        while j < out.len() && !found
            invariant
                0 <= j <= out@.len(),
                forall|k: int| 0 <= k < j ==> comes_before(#[trigger] out@[k], x),
                found ==> j < out@.len() && !comes_before(out@[j as int], x),
            decreases out@.len() - j + (if found {
                0int
            } else {
                1int
            }),
        {
            if before(&out[j], &x) {
                j = j + 1;
            } else {
                found = true;
            }
        }
        let ghost prev = out@;
        out.insert(j, x);
        proof {
            assert(out@ == prev.insert(j as int, x));
            assert forall|a: int, b: int| 0 <= a < b < out@.len() implies comes_before(
                #[trigger] out@[a],
                #[trigger] out@[b],
            ) by {
                if b < j {
                    assert(out@[a] == prev[a] && out@[b] == prev[b]);
                } else if b == j {
                    assert(out@[a] == prev[a]);
                } else if a == j {
                    assert(out@[b] == prev[b - 1]);
                    assert(!comes_before(prev[j as int], x));
                    if b - 1 > j {
                        assert(comes_before(prev[j as int], prev[b - 1]));
                    }
                } else if a < j {
                    assert(out@[a] == prev[a] && out@[b] == prev[b - 1]);
                } else {
                    assert(out@[a] == prev[a - 1] && out@[b] == prev[b - 1]);
                }
            }
            to_multiset_insert(prev, j as int, x);
            assert(listed@.subrange(0, i + 1) =~= listed@.subrange(0, i as int).push(listed@[i as int]));
            to_multiset_build(listed@.subrange(0, i as int), listed@[i as int]);
        }
        i = i + 1;
    }
    proof {
        assert(listed@.subrange(0, listed@.len() as int) =~= listed@);
    }
    out
}

} // verus!
