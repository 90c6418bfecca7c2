use vstd::prelude::*;
use crate::model::{TimeEntry, Timestamp};
use crate::order::{ranked, sort_by_rank};
use crate::role::CoreError;
use crate::store::{
    distinct_by, entry_id_used, entry_key, lemma_distinct_filter, lemma_distinct_permutation,
    owns_task, Store, StoreModel,
};

verus! {

/// A manually recorded interval of work.
#[derive(Clone, Debug)]
pub struct CreateEntryRequest {
    pub start_time: Timestamp,
    pub end_time: Option<Timestamp>,
    pub duration_minutes: i64,
    pub notes: String,
}

/// Time entry `e` has id `id` and belongs to `owner`.
pub open spec fn is_owned_entry(e: TimeEntry, owner: Seq<char>, id: Seq<char>) -> bool {
    e.id@ == id && e.user_id@ == owner
}

/// `owner` has a time entry with id `id`.
pub open spec fn owns_entry(entries: Seq<TimeEntry>, owner: Seq<char>, id: Seq<char>) -> bool {
    exists|i: int| 0 <= i < entries.len() && is_owned_entry(#[trigger] entries[i], owner, id)
}

/// Records a time entry with id `id` on `caller`'s task `task_id`.
///
/// A task that `caller` does not own is not found; a negative duration is
/// invalid; an id already in use is a refused write. In each case nothing
/// changes.
pub fn create_entry(
    store: &mut Store,
    caller: &String,
    task_id: &String,
    body: &CreateEntryRequest,
    now: Timestamp,
    id: String,
) -> (r: Result<TimeEntry, CoreError>)
    requires
        old(store)@.wf(),
    ensures
        final(store)@.wf(),
        !owns_task(old(store)@.tasks, caller@, task_id@) ==> r == Err::<TimeEntry, CoreError>(
            CoreError::NotFound,
        ) && final(store)@ == old(store)@,
        owns_task(old(store)@.tasks, caller@, task_id@) && body.duration_minutes < 0 ==> r == Err::<
            TimeEntry,
            CoreError,
        >(CoreError::Invalid) && final(store)@ == old(store)@,
        owns_task(old(store)@.tasks, caller@, task_id@) && body.duration_minutes >= 0
            && entry_id_used(old(store)@.entries, id@) ==> r == Err::<TimeEntry, CoreError>(
            CoreError::Internal,
        ) && final(store)@ == old(store)@,
        owns_task(old(store)@.tasks, caller@, task_id@) && body.duration_minutes >= 0
            && !entry_id_used(old(store)@.entries, id@) ==> {
            &&& r == Ok::<TimeEntry, CoreError>(
                TimeEntry {
                    id,
                    task_id: *task_id,
                    start_time: body.start_time,
                    end_time: body.end_time,
                    duration_minutes: body.duration_minutes,
                    notes: body.notes,
                    created_at: now,
                    user_id: *caller,
                },
            )
            &&& final(store)@ == (StoreModel {
                entries: old(store)@.entries.push(r->Ok_0),
                ..old(store)@
            })
        },
{
    if store.find_owned_task(caller, task_id).is_none() {
        return Err(CoreError::NotFound);
    }
    if body.duration_minutes < 0 {
        return Err(CoreError::Invalid);
    }
    if store.has_entry_id(&id) {
        return Err(CoreError::Internal);
    }
    let e = TimeEntry {
        id,
        task_id: task_id.clone(),
        start_time: body.start_time,
        end_time: body.end_time,
        duration_minutes: body.duration_minutes,
        notes: body.notes.clone(),
        created_at: now,
        user_id: caller.clone(),
    };
    let ghost m = store@;
    store.entries.push(e.copy());
    assert(store@ =~= (StoreModel { entries: m.entries.push(e), ..m }));
    Ok(e)
}

/// Time entries other than `owner`'s entry `id`.
pub open spec fn entry_kept(owner: Seq<char>, id: Seq<char>) -> spec_fn(TimeEntry) -> bool {
    |e: TimeEntry| !is_owned_entry(e, owner, id)
}

/// Deletes `caller`'s time entry `entry_id`. An entry that `caller` does not
/// own is not found, and nothing changes.
pub fn delete_entry(store: &mut Store, caller: &String, entry_id: &String) -> (r: Result<
    (),
    CoreError,
>)
    requires
        old(store)@.wf(),
    ensures
        final(store)@.wf(),
        !owns_entry(old(store)@.entries, caller@, entry_id@) ==> r == Err::<(), CoreError>(
            CoreError::NotFound,
        ) && final(store)@ == old(store)@,
        owns_entry(old(store)@.entries, caller@, entry_id@) ==> r == Ok::<(), CoreError>(())
            && final(store)@ == (StoreModel {
            entries: old(store)@.entries.filter(entry_kept(caller@, entry_id@)),
            ..old(store)@
        }),
{
    let ghost m = store@;
    let mut found = false;
    let mut kept: Vec<TimeEntry> = Vec::new();
    let mut j: usize = 0;
    while j < store.entries.len()
        invariant
            0 <= j <= store.entries@.len(),
            store@ == m,
            kept@ == m.entries.subrange(0, j as int).filter(entry_kept(caller@, entry_id@)),
            found <==> exists|k: int| 0 <= k < j && is_owned_entry(#[trigger] m.entries[k], caller@, entry_id@),
        decreases store.entries@.len() - j,
    {
        proof {
            assert(m.entries.subrange(0, j + 1) =~= m.entries.subrange(0, j as int).push(m.entries[j as int]));
            m.entries.subrange(0, j as int).lemma_filter_push(m.entries[j as int], entry_kept(caller@, entry_id@));
        }
        if store.entries[j].id == *entry_id && store.entries[j].user_id == *caller {
            found = true;
        } else {
            kept.push(store.entries[j].copy());
        }
        j = j + 1;
    }
    if !found {
        return Err(CoreError::NotFound);
    }
    proof {
        assert(m.entries.subrange(0, m.entries.len() as int) =~= m.entries);
    }
    store.entries = kept;
    assert(store@ =~= (StoreModel { entries: m.entries.filter(entry_kept(caller@, entry_id@)), ..m }));
    proof {
        lemma_distinct_filter(m.entries, entry_key(), entry_kept(caller@, entry_id@));
    }
    Ok(())
}

/// Time entries of `owner`, on task `task` where one is given.
pub open spec fn entry_listed(owner: Seq<char>, task: Option<Seq<char>>) -> spec_fn(TimeEntry) -> bool {
    |e: TimeEntry|
        e.user_id@ == owner && match task {
            Some(t) => e.task_id@ == t,
            None => true,
        }
}

pub(crate) fn entries_where(store: &Store, caller: &String, task_id: Option<&String>) -> (r: Vec<TimeEntry>)
    ensures
        r@ == store@.entries.filter(
            entry_listed(
                caller@,
                match task_id {
                    Some(t) => Some(t@),
                    None => None,
                },
            ),
        ),
{
    let ghost task = match task_id {
        Some(t) => Some(t@),
        None => None::<Seq<char>>,
    };
    let mut out: Vec<TimeEntry> = Vec::new();
    let mut i: usize = 0;
    while i < store.entries.len()
        invariant
            0 <= i <= store.entries@.len(),
            task == (match task_id {
                Some(t) => Some(t@),
                None => None::<Seq<char>>,
            }),
            out@ == store.entries@.subrange(0, i as int).filter(entry_listed(caller@, task)),
        decreases store.entries@.len() - i,
    {
        proof {
            let s = store.entries@;
            assert(s.subrange(0, i + 1) =~= s.subrange(0, i as int).push(s[i as int]));
            s.subrange(0, i as int).lemma_filter_push(s[i as int], entry_listed(caller@, task));
        }
        let on_task = match task_id {
            Some(t) => store.entries[i].task_id == *t,
            None => true,
        };
        if store.entries[i].user_id == *caller && on_task {
            out.push(store.entries[i].copy());
        }
        i = i + 1;
    }
    proof {
        assert(store.entries@.subrange(0, store.entries@.len() as int) =~= store.entries@);
    }
    out
}

/// `caller`'s time entries on task `task_id`, newest first, each once.
pub fn get_entries(store: &Store, caller: &String, task_id: &String) -> (r: Vec<TimeEntry>)
    requires
        store@.wf(),
    ensures
        ranked(r@),
        r@.to_multiset() == store@.entries.filter(entry_listed(caller@, Some(task_id@))).to_multiset(),
        distinct_by(r@, entry_key()),
{
    let listed = entries_where(store, caller, Some(task_id));
    let r = sort_by_rank(&listed);
    proof {
        lemma_distinct_filter(store@.entries, entry_key(), entry_listed(caller@, Some(task_id@)));
        lemma_distinct_permutation(listed@, r@, entry_key());
    }
    r
}

/// All of `caller`'s time entries, newest first, each once.
pub fn get_all_entries(store: &Store, caller: &String) -> (r: Vec<TimeEntry>)
    requires
        store@.wf(),
    ensures
        ranked(r@),
        r@.to_multiset() == store@.entries.filter(entry_listed(caller@, None)).to_multiset(),
        distinct_by(r@, entry_key()),
{
    let listed = entries_where(store, caller, None);
    let r = sort_by_rank(&listed);
    proof {
        lemma_distinct_filter(store@.entries, entry_key(), entry_listed(caller@, None));
        lemma_distinct_permutation(listed@, r@, entry_key());
    }
    r
}

} // verus!
