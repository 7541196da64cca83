//! The service layer: the read and write operations the request handlers
//! and the scheduler consume, each a thin, fully specified front over the
//! store and the resolver, plus the daily completion reset.

use vstd::prelude::*;

use crate::date::{parse_date, spec_is_parsable_date, spec_parsed_date, CalendarDate};
use crate::resolver::{
    due_pred, lemma_candidates_cover_due, lemma_due_tasks_id_ordered, lemma_filter_agree,
    lemma_filter_is_member, resolve_due, spec_daily_reset, spec_due_tasks, spec_is_due,
};
use crate::store::{
    id_listed_pred, spec_apply_batch, spec_batch_ids_exist, spec_contains_id, spec_find,
    spec_replace_id, spec_set_completed_false, TaskStore,
};
use crate::task::{Model, TaskError, UpdateTaskByIdRequest, UpdateTaskRequest};
use crate::weekday::RecurringSet;

verus! {

/// Read-side operations over the task store.
pub struct Query;

impl Query {
    /// Every task, in id order.
    pub fn find_all_tasks(store: &TaskStore) -> (r: Vec<Model>)
        ensures
            r@ == store@,
    {
        store.find_all()
    }

    /// The tasks due on `date`: the over-inclusive store-level candidate
    /// query, narrowed by the mandatory in-memory re-check, which is the
    /// authoritative due-ness rule. The result lists exactly the due subset
    /// of the whole store, in store (id) order.
    pub fn find_tasks_by_date(store: &TaskStore, date: CalendarDate) -> (r: Vec<Model>)
        requires
            date.valid(),
        ensures
            r@ == spec_due_tasks(store@, date),
            store.wf() ==> forall|i: int, j: int|
                0 <= i < j < r@.len() ==> #[trigger] r@[i].id < #[trigger] r@[j].id,
    {
        let candidates = store.find_candidates_for_date(date);
        let r = resolve_due(&candidates, date);
        proof {
            lemma_candidates_cover_due(store@, date);
            if store.wf() {
                store.lemma_wf_sorted();
                lemma_due_tasks_id_ordered(store@, date);
            }
        }
        r
    }

    /// The task listing as the request surface asks for it: with no date
    /// parameter every task, with a parsable `YYYY-MM-DD` parameter the
    /// tasks due on that date, and with a malformed or impossible date a
    /// validation error, rejected before any store work.
    pub fn list_tasks(store: &TaskStore, date_param: Option<&[u8]>) -> (r: Result<
        Vec<Model>,
        TaskError,
    >)
        ensures
            r is Ok <==> (date_param matches Some(s) ==> spec_is_parsable_date(s@)),
            r matches Ok(v) ==> (date_param is None ==> v@ == store@),
            r matches Ok(v) ==> (date_param matches Some(s) ==> v@ == spec_due_tasks(
                store@,
                spec_parsed_date(s@),
            )),
            r matches Err(e) ==> e == TaskError::ValidationError,
    {
        match date_param {
            Some(s) => match parse_date(s) {
                Some(d) => Ok(Self::find_tasks_by_date(store, d)),
                None => Err(TaskError::ValidationError),
            },
            None => Ok(Self::find_all_tasks(store)),
        }
    }

    /// The task with id `id`, or `None` when the store holds none.
    pub fn find_task_by_id(store: &TaskStore, id: i32) -> (r: Option<Model>)
        requires
            store.wf(),
        ensures
            r == spec_find(store@, id),
            r is Some <==> spec_contains_id(store@, id),
            r matches Some(t) ==> t.id == id && store@.contains(t),
    {
        store.find_by_id(id)
    }
}

/// Write-side operations over the task store.
pub struct Mutation;

impl Mutation {
    /// Creates a task: the store assigns the id and the position and forces
    /// the completion flag to false, whatever the caller put in those
    /// fields. Returns the record as stored.
    pub fn add_task(store: &mut TaskStore, new_task: Model) -> (r: Model)
        requires
            old(store).wf(),
            new_task.title@.len() > 0,
            new_task.date matches Some(d) ==> d.valid(),
            old(store).spec_next_id() < i32::MAX,
            old(store).spec_next_position() < i32::MAX,
        ensures
            final(store).wf(),
            r.id == old(store).spec_next_id(),
            r.title == new_task.title,
            r.date == new_task.date,
            r.time == new_task.time,
            r.recurring_option == new_task.recurring_option,
            r.is_completed == false,
            r.position == old(store).spec_next_position(),
            !spec_contains_id(old(store)@, r.id),
            final(store)@ == old(store)@.push(r),
            final(store).spec_next_id() == old(store).spec_next_id() + 1,
            final(store).spec_next_position() == old(store).spec_next_position() + 1,
    {
        store.insert(new_task)
    }

    /// Overwrites the full field set of the task `id`, or reports
    /// `TaskNotFound` and changes nothing when no task has that id.
    pub fn update_task_by_id(
        store: &mut TaskStore,
        id: i32,
        title: String,
        date: Option<CalendarDate>,
        time: Option<String>,
        recurring_option: RecurringSet,
        is_completed: bool,
        position: i32,
    ) -> (r: Result<Model, TaskError>)
        requires
            old(store).wf(),
            title@.len() > 0,
            date matches Some(d) ==> d.valid(),
        ensures
            final(store).wf(),
            final(store).spec_next_id() == old(store).spec_next_id(),
            final(store).spec_next_position() == old(store).spec_next_position(),
            r is Ok <==> spec_contains_id(old(store)@, id),
            r matches Ok(t) ==> ({
                let m = (UpdateTaskByIdRequest {
                    title,
                    date,
                    time,
                    recurring_option,
                    is_completed,
                    position,
                }).spec_updated(id);
                t == m && final(store)@ == spec_replace_id(old(store)@, id, m)
            }),
            r matches Err(e) ==> e == TaskError::TaskNotFound && final(store)@ == old(store)@,
    {
        let fields = UpdateTaskByIdRequest {
            title,
            date,
            time,
            recurring_option,
            is_completed,
            position,
        };
        store.update_one(id, fields)
    }

    /// Applies an ordered batch of task updates as one atomic unit: all of
    /// the batch, in input order, or — when any record references a missing
    /// id — none of it.
    pub fn update_tasks_bulk(store: &mut TaskStore, updates: Vec<UpdateTaskRequest>) -> (r: Result<
        Vec<Model>,
        TaskError,
    >)
        requires
            old(store).wf(),
            forall|i: int| 0 <= i < updates@.len() ==> (#[trigger] updates@[i]).valid(),
        ensures
            final(store).wf(),
            final(store).spec_next_id() == old(store).spec_next_id(),
            final(store).spec_next_position() == old(store).spec_next_position(),
            r is Ok <==> spec_batch_ids_exist(old(store)@, updates@),
            r matches Ok(out) ==> final(store)@ == spec_apply_batch(old(store)@, updates@) && out@
                == updates@.map(|i: int, u: UpdateTaskRequest| u.spec_updated()),
            r matches Err(e) ==> e == TaskError::TaskNotFound && final(store)@ == old(store)@,
    {
        store.update_many_atomic(updates)
    }

    /// Deletes the task `id`, or reports `TaskNotFound` and changes nothing
    /// when no task has that id.
    pub fn delete_task_by_id(store: &mut TaskStore, id: i32) -> (r: Result<(), TaskError>)
        requires
            old(store).wf(),
        ensures
            final(store).wf(),
            final(store).spec_next_id() == old(store).spec_next_id(),
            final(store).spec_next_position() == old(store).spec_next_position(),
            r is Ok <==> spec_contains_id(old(store)@, id),
            r is Ok ==> !spec_contains_id(final(store)@, id),
            r is Ok ==> exists|j: int|
                0 <= j < old(store)@.len() && old(store)@[j].id == id && final(store)@ == old(
                    store,
                )@.remove(j),
            r matches Err(e) ==> e == TaskError::TaskNotFound && final(store)@ == old(store)@,
    {
        store.delete_by_id(id)
    }

    /// The daily reset for the date `today`: resolves the due set and clears
    /// the completion flag on exactly those tasks, in one pass over the due
    /// ids. Returns how many records that touched.
    pub fn reset_due_tasks_on(store: &mut TaskStore, today: CalendarDate) -> (count: u64)
        requires
            old(store).wf(),
            today.valid(),
        ensures
            final(store).wf(),
            final(store).spec_next_id() == old(store).spec_next_id(),
            final(store).spec_next_position() == old(store).spec_next_position(),
            final(store)@ == spec_daily_reset(old(store)@, today),
            count == spec_due_tasks(old(store)@, today).len(),
    {
        broadcast use vstd::seq_lib::group_filter_ensures;

        let ghost s0 = store@;
        proof {
            store.lemma_wf_sorted();
        }
        let due = Query::find_tasks_by_date(store, today);
        let mut ids: Vec<i32> = Vec::new();
        let mut i: usize = 0;
        while i < due.len()
            invariant
                i <= due@.len(),
                ids@.len() == i,
                forall|l: int| 0 <= l < i ==> #[trigger] ids@[l] == due@[l].id,
            decreases due@.len() - i,
        {
            ids.push(due[i].id);
            i = i + 1;
        }
        let count = store.set_completed_false_for_ids(&ids);
        proof {
            assert forall|w: int| 0 <= w < s0.len() implies (ids@.contains(#[trigger] s0[w].id)
                <==> spec_is_due(s0[w], today)) by {
                if spec_is_due(s0[w], today) {
                    assert(due_pred(today)(s0[w]));
                    assert(due@.contains(s0[w]));
                    let m = choose|m: int| 0 <= m < due@.len() && due@[m] == s0[w];
                    assert(ids@[m] == s0[w].id);
                }
                if ids@.contains(s0[w].id) {
                    let m = choose|m: int| 0 <= m < ids@.len() && ids@[m] == s0[w].id;
                    lemma_filter_is_member(s0, due_pred(today), m);
                    let v = choose|v: int| 0 <= v < s0.len() && s0[v] == due@[m];
                    assert(due_pred(today)(due@[m]));
                    if v != w {
                        assert(s0[v].id != s0[w].id);
                    }
                }
            }
            assert(spec_set_completed_false(s0, ids@) =~= spec_daily_reset(s0, today));
            lemma_filter_agree(s0, id_listed_pred(ids@), due_pred(today));
        }
        count
    }

    /// The daily reset for the wall clock's current local date. When the
    /// clock names a date outside the library's calendar range, nothing is
    /// touched and `None` comes back; otherwise the count of reset records.
    pub fn reset_due_tasks(store: &mut TaskStore) -> (r: Option<u64>)
        requires
            old(store).wf(),
        ensures
            final(store).wf(),
            final(store).spec_next_id() == old(store).spec_next_id(),
            final(store).spec_next_position() == old(store).spec_next_position(),
            r matches Some(count) ==> exists|d: CalendarDate|
                d.valid() && final(store)@ == spec_daily_reset(old(store)@, d) && count
                    == spec_due_tasks(old(store)@, d).len(),
            r is None ==> final(store)@ == old(store)@,
    {
        let (y, m, d) = current_local_ymd();
        if y < 1 || y > 9999 {
            return None;
        }
        match CalendarDate::from_ymd(y as i32, m, d) {
            Some(today) => {
                let count = Self::reset_due_tasks_on(store, today);
                proof {
                    assert(today.valid() && store@ == spec_daily_reset(old(store)@, today) && count
                        == spec_due_tasks(old(store)@, today).len());
                }
                Some(count)
            },
            None => None,
        }
    }
}

/// Relies on chrono's `Local::now`, `DateTime::date_naive` and the
/// `Datelike` accessors for the current local calendar date's year, month
/// and day; chrono documents `month()` as `1..=12` and `day()` as `1..=31`.
#[verifier::external_body]
fn current_local_ymd() -> (r: (i64, u8, u8))
    ensures
        1 <= r.1 <= 12,
        1 <= r.2 <= 31,
{
    let today = chrono::Local::now().date_naive();
    let y = chrono::Datelike::year(&today) as i64;
    let m = chrono::Datelike::month(&today) as u8;
    let d = chrono::Datelike::day(&today) as u8;
    (y, m, d)
}

} // verus!
