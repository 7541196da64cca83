//! The task store: an ordered collection of task records with unique,
//! never-reused ids, and the find / insert / update / delete primitives,
//! including the all-or-nothing bulk update.

use vstd::prelude::*;

use crate::date::CalendarDate;
use crate::resolver::{
    candidate_pred, is_candidate, lemma_filter_push, spec_candidates,
};
use crate::task::{Model, TaskError, UpdateTaskByIdRequest, UpdateTaskRequest};

verus! {

/// Whether some record of `s` has the id `id`.
pub open spec fn spec_contains_id(s: Seq<Model>, id: i32) -> bool {
    exists|i: int| 0 <= i < s.len() && s[i].id == id
}

/// The first record of `s` with the id `id`, if any.
pub open spec fn spec_find(s: Seq<Model>, id: i32) -> Option<Model>
    decreases s.len(),
{
    if s.len() == 0 {
        None
    } else if s[0].id == id {
        Some(s[0])
    } else {
        spec_find(s.drop_first(), id)
    }
}

/// `s` with the record carrying `u.id`, if any, overwritten by the fields of
/// `u`; every other record is untouched.
pub open spec fn spec_apply_update(s: Seq<Model>, u: UpdateTaskRequest) -> Seq<Model> {
    s.map(
        |i: int, t: Model|
            if t.id == u.id {
                u.spec_updated()
            } else {
                t
            },
    )
}

/// `s` after the whole batch `us`, applied in input order.
pub open spec fn spec_apply_batch(s: Seq<Model>, us: Seq<UpdateTaskRequest>) -> Seq<Model>
    decreases us.len(),
{
    if us.len() == 0 {
        s
    } else {
        spec_apply_batch(spec_apply_update(s, us[0]), us.drop_first())
    }
}

/// Whether every record of the batch `us` references an id present in `s`.
pub open spec fn spec_batch_ids_exist(s: Seq<Model>, us: Seq<UpdateTaskRequest>) -> bool {
    forall|i: int| 0 <= i < us.len() ==> spec_contains_id(s, (#[trigger] us[i]).id)
}

/// Membership of a record's id in an id list, as a predicate for filtering.
pub open spec fn id_listed_pred(ids: Seq<i32>) -> spec_fn(Model) -> bool {
    |t: Model| ids.contains(t.id)
}

/// `s` with the completion flag cleared on every record whose id is listed
/// in `ids`; every other record is untouched.
pub open spec fn spec_set_completed_false(s: Seq<Model>, ids: Seq<i32>) -> Seq<Model> {
    s.map(
        |i: int, t: Model|
            if ids.contains(t.id) {
                t.spec_with_completed(false)
            } else {
                t
            },
    )
}

/// The task store. Records are kept in strictly increasing id order, every
/// id was assigned by the store and is below the next id to be assigned, so
/// an id is never reused, not even after a deletion.
pub struct TaskStore {
    tasks: Vec<Model>,
    next_id: i32,
    next_position: i32,
}

impl View for TaskStore {
    type V = Seq<Model>;

    closed spec fn view(&self) -> Seq<Model> {
        self.tasks@
    }
}

impl TaskStore {
    /// The store's invariant: records sorted by strictly increasing id,
    /// every record valid, every id in `1 ..= next assigned - 1`, and the
    /// assignment counters positive.
    pub closed spec fn wf(&self) -> bool {
        &&& forall|i: int, j: int|
            0 <= i < j < self.tasks@.len() ==> #[trigger] self.tasks@[i].id
                < #[trigger] self.tasks@[j].id
        &&& forall|i: int|
            0 <= i < self.tasks@.len() ==> (#[trigger] self.tasks@[i]).valid() && 1
                <= self.tasks@[i].id < self.next_id
        &&& 1 <= self.next_id
        &&& 1 <= self.next_position
    }

    /// The id the store will assign to the next inserted task.
    pub closed spec fn spec_next_id(&self) -> i32 {
        self.next_id
    }

    /// The position the store will assign to the next inserted task.
    pub closed spec fn spec_next_position(&self) -> i32 {
        self.next_position
    }

    /// A well-formed store holds its records in strictly increasing id
    /// order; in particular all ids are distinct.
    pub proof fn lemma_wf_sorted(&self)
        requires
            self.wf(),
        ensures
            forall|i: int, j: int|
                0 <= i < j < self@.len() ==> #[trigger] self@[i].id < #[trigger] self@[j].id,
    {
    }

    /// Every id a well-formed store holds lies below the next id it will
    /// assign: a deleted id is never assigned again.
    pub proof fn lemma_wf_ids_below_next(&self)
        requires
            self.wf(),
        ensures
            forall|i: int| 0 <= i < self@.len() ==> 1 <= (#[trigger] self@[i]).id
                < self.spec_next_id(),
    {
    }

    /// An empty store.
    pub fn new() -> (s: TaskStore)
        ensures
            s.wf(),
            s@ == Seq::<Model>::empty(),
            s.spec_next_id() == 1,
            s.spec_next_position() == 1,
    {
        let s = TaskStore { tasks: Vec::new(), next_id: 1, next_position: 1 };
        proof {
            assert(s.tasks@ =~= Seq::<Model>::empty());
        }
        s
    }

    /// Whether the store can still assign a fresh id and a fresh position.
    pub fn can_insert(&self) -> (r: bool)
        ensures
            r == (self.spec_next_id() < i32::MAX && self.spec_next_position() < i32::MAX),
    {
        self.next_id < i32::MAX && self.next_position < i32::MAX
    }

    /// The index of the record with id `id`, if the store holds one.
    fn find_index(&self, id: i32) -> (r: Option<usize>)
        ensures
            r matches Some(j) ==> j < self@.len() && self@[j as int].id == id,
            r is None ==> !spec_contains_id(self@, id),
    {
        let mut i: usize = 0;
        while i < self.tasks.len()
            invariant
                i <= self.tasks@.len(),
                forall|j: int| 0 <= j < i ==> (#[trigger] self.tasks@[j]).id != id,
            decreases self.tasks@.len() - i,
        {
            if self.tasks[i].id == id {
                return Some(i);
            }
            i = i + 1;
        }
        None
    }

    /// Every record, in id order.
    pub fn find_all(&self) -> (r: Vec<Model>)
        ensures
            r@ == self@,
    {
        let mut r: Vec<Model> = Vec::new();
        let mut i: usize = 0;
        while i < self.tasks.len()
            invariant
                i <= self.tasks@.len(),
                r@ == self.tasks@.take(i as int),
            decreases self.tasks@.len() - i,
        {
            r.push(self.tasks[i].duplicate());
            proof {
                assert(r@ =~= self.tasks@.take(i + 1int));
            }
            i = i + 1;
        }
        proof {
            assert(self.tasks@.take(self.tasks@.len() as int) =~= self.tasks@);
        }
        r
    }

    /// The record with id `id`, or `None` when the store holds none.
    pub fn find_by_id(&self, id: i32) -> (r: Option<Model>)
        requires
            self.wf(),
        ensures
            r == spec_find(self@, id),
            r is Some <==> spec_contains_id(self@, id),
            r matches Some(t) ==> t.id == id && self@.contains(t),
    {
        proof {
            lemma_spec_find_props(self@, id);
        }
        match self.find_index(id) {
            Some(j) => {
                proof {
                    lemma_spec_find_at_index(self@, id, j as int);
                }
                Some(self.tasks[j].duplicate())
            },
            None => None,
        }
    }

    /// The records the over-inclusive store-level pre-filter selects for
    /// date `d`: an exact date match, or any non-empty recurring set.
    pub fn find_candidates_for_date(&self, d: CalendarDate) -> (r: Vec<Model>)
        ensures
            r@ == spec_candidates(self@, d),
    {
        let mut r: Vec<Model> = Vec::new();
        let mut i: usize = 0;
        while i < self.tasks.len()
            invariant
                i <= self.tasks@.len(),
                r@ == spec_candidates(self.tasks@.take(i as int), d),
            decreases self.tasks@.len() - i,
        {
            proof {
                lemma_filter_push(self.tasks@.take(i as int), self.tasks@[i as int], candidate_pred(d));
                assert(self.tasks@.take(i + 1int) =~= self.tasks@.take(i as int).push(
                    self.tasks@[i as int],
                ));
            }
            if is_candidate(&self.tasks[i], d) {
                r.push(self.tasks[i].duplicate());
            }
            i = i + 1;
        }
        proof {
            assert(self.tasks@.take(self.tasks@.len() as int) =~= self.tasks@);
        }
        r
    }

    /// Inserts a task. The store assigns the id and the position and forces
    /// the completion flag to false; the given id, position and completion
    /// flag are ignored. Returns the record as stored.
    pub fn insert(&mut self, new_task: Model) -> (r: Model)
        requires
            old(self).wf(),
            new_task.title@.len() > 0,
            new_task.date matches Some(d) ==> d.valid(),
            old(self).spec_next_id() < i32::MAX,
            old(self).spec_next_position() < i32::MAX,
        ensures
            final(self).wf(),
            r.id == old(self).spec_next_id(),
            r.title == new_task.title,
            r.date == new_task.date,
            r.time == new_task.time,
            r.recurring_option == new_task.recurring_option,
            r.is_completed == false,
            r.position == old(self).spec_next_position(),
            !spec_contains_id(old(self)@, r.id),
            final(self)@ == old(self)@.push(r),
            final(self).spec_next_id() == old(self).spec_next_id() + 1,
            final(self).spec_next_position() == old(self).spec_next_position() + 1,
    {
        let t = Model {
            id: self.next_id,
            title: new_task.title,
            date: new_task.date,
            time: new_task.time,
            recurring_option: new_task.recurring_option,
            is_completed: false,
            position: self.next_position,
        };
        let r = t.duplicate();
        self.tasks.push(t);
        self.next_id = self.next_id + 1;
        self.next_position = self.next_position + 1;
        r
    }

    /// Overwrites the full field set of the task `id`, or reports
    /// `TaskNotFound` and changes nothing when the store holds no such task.
    pub fn update_one(&mut self, id: i32, fields: UpdateTaskByIdRequest) -> (r: Result<
        Model,
        TaskError,
    >)
        requires
            old(self).wf(),
            fields.valid(),
        ensures
            final(self).wf(),
            final(self).spec_next_id() == old(self).spec_next_id(),
            final(self).spec_next_position() == old(self).spec_next_position(),
            r is Ok <==> spec_contains_id(old(self)@, id),
            r matches Ok(t) ==> t == fields.spec_updated(id) && final(self)@ == spec_replace_id(
                old(self)@,
                id,
                fields.spec_updated(id),
            ),
            r matches Err(e) ==> e == TaskError::TaskNotFound && final(self)@ == old(self)@,
    {
        match self.find_index(id) {
            Some(j) => {
                let m = fields.to_model(id);
                let r = m.duplicate();
                proof {
                    lemma_replace_at_unique(self.tasks@, j as int, m);
                }
                self.tasks[j] = m;
                Ok(r)
            },
            None => Err(TaskError::TaskNotFound),
        }
    }

    /// Applies the whole batch in input order as one atomic unit: when every
    /// record references an existing id the store holds the batch's outcome
    /// and the updated records come back in input order; when any record
    /// references a missing id the store is left exactly as it was.
    pub fn update_many_atomic(&mut self, updates: Vec<UpdateTaskRequest>) -> (r: Result<
        Vec<Model>,
        TaskError,
    >)
        requires
            old(self).wf(),
            forall|i: int| 0 <= i < updates@.len() ==> (#[trigger] updates@[i]).valid(),
        ensures
            final(self).wf(),
            final(self).spec_next_id() == old(self).spec_next_id(),
            final(self).spec_next_position() == old(self).spec_next_position(),
            r is Ok <==> spec_batch_ids_exist(old(self)@, updates@),
            r matches Ok(out) ==> final(self)@ == spec_apply_batch(old(self)@, updates@) && out@
                == updates@.map(|i: int, u: UpdateTaskRequest| u.spec_updated()),
            r matches Err(e) ==> e == TaskError::TaskNotFound && final(self)@ == old(self)@,
    {
        // First pass: the whole batch must reference existing ids, or the
        // transaction aborts before any write.
        let mut i: usize = 0;
        while i < updates.len()
            invariant
                i <= updates@.len(),
                *self == *old(self),
                old(self).wf(),
                forall|j: int| 0 <= j < i ==> spec_contains_id(self@, (#[trigger] updates@[j]).id),
            decreases updates@.len() - i,
        {
            if self.find_index(updates[i].id).is_none() {
                return Err(TaskError::TaskNotFound);
            }
            i = i + 1;
        }

        // Second pass: apply the batch in input order.
        let ghost s0 = self.tasks@;
        let mut out: Vec<Model> = Vec::new();
        let mut k: usize = 0;
        while k < updates.len()
            invariant
                k <= updates@.len(),
                self.wf(),
                self.next_id == old(self).next_id,
                self.next_position == old(self).next_position,
                spec_batch_ids_exist(s0, updates@),
                forall|i: int| 0 <= i < updates@.len() ==> (#[trigger] updates@[i]).valid(),
                self.tasks@ == spec_apply_batch(s0, updates@.take(k as int)),
                out@ == updates@.take(k as int).map(|i: int, u: UpdateTaskRequest| u.spec_updated()),
            decreases updates@.len() - k,
        {
            proof {
                lemma_apply_batch_same_ids(s0, updates@.take(k as int));
                assert(spec_contains_id(s0, updates@[k as int].id));
                let w = choose|w: int| 0 <= w < s0.len() && s0[w].id == updates@[k as int].id;
                assert(self.tasks@[w].id == updates@[k as int].id);
            }
            let u = &updates[k];
            let m = u.to_model();
            match self.find_index(u.id) {
                Some(j) => {
                    proof {
                        lemma_replace_at_unique(self.tasks@, j as int, m);
                        lemma_apply_batch_snoc(s0, updates@, k as int);
                    }
                    self.tasks[j] = m;
                },
                None => {
                    proof {
                        assert(false);
                    }
                },
            }
            out.push(u.to_model());
            proof {
                assert(updates@.take(k + 1int).map(
                    |i: int, u: UpdateTaskRequest| u.spec_updated(),
                ) =~= updates@.take(k as int).map(
                    |i: int, u: UpdateTaskRequest| u.spec_updated(),
                ).push(updates@[k as int].spec_updated()));
            }
            k = k + 1;
        }
        proof {
            assert(updates@.take(updates@.len() as int) =~= updates@);
        }
        Ok(out)
    }

    /// Clears the completion flag of every task whose id is listed in `ids`
    /// and reports how many records that touched.
    pub fn set_completed_false_for_ids(&mut self, ids: &Vec<i32>) -> (count: u64)
        requires
            old(self).wf(),
        ensures
            final(self).wf(),
            final(self).spec_next_id() == old(self).spec_next_id(),
            final(self).spec_next_position() == old(self).spec_next_position(),
            final(self)@ == spec_set_completed_false(old(self)@, ids@),
            count == old(self)@.filter(id_listed_pred(ids@)).len(),
    {
        broadcast use vstd::seq_lib::group_filter_ensures;

        let ghost s0 = self.tasks@;
        let mut count: u64 = 0;
        let mut j: usize = 0;
        while j < self.tasks.len()
            invariant
                j <= self.tasks@.len(),
                self.wf(),
                self.next_id == old(self).next_id,
                self.next_position == old(self).next_position,
                self.tasks@.len() == s0.len(),
                forall|l: int|
                    0 <= l < j ==> #[trigger] self.tasks@[l] == spec_set_completed_false(
                        s0,
                        ids@,
                    )[l],
                forall|l: int| j <= l < s0.len() ==> #[trigger] self.tasks@[l] == s0[l],
                count == s0.take(j as int).filter(id_listed_pred(ids@)).len(),
            decreases self.tasks@.len() - j,
        {
            proof {
                lemma_filter_push(s0.take(j as int), s0[j as int], id_listed_pred(ids@));
                assert(s0.take(j + 1int) =~= s0.take(j as int).push(s0[j as int]));
                assert(s0.take(j as int).filter(id_listed_pred(ids@)).len() <= j);
            }
            if vec_contains_i32(ids, self.tasks[j].id) {
                let t = &mut self.tasks[j];
                t.is_completed = false;
                count = count + 1;
            }
            j = j + 1;
        }
        proof {
            assert(s0.take(s0.len() as int) =~= s0);
            assert(self.tasks@ =~= spec_set_completed_false(s0, ids@));
        }
        count
    }

    /// Deletes the task `id`, or reports `TaskNotFound` and changes nothing
    /// when the store holds no such task. Deletion is terminal: the id stays
    /// absent and is never assigned again.
    pub fn delete_by_id(&mut self, id: i32) -> (r: Result<(), TaskError>)
        requires
            old(self).wf(),
        ensures
            final(self).wf(),
            final(self).spec_next_id() == old(self).spec_next_id(),
            final(self).spec_next_position() == old(self).spec_next_position(),
            r is Ok <==> spec_contains_id(old(self)@, id),
            r is Ok ==> exists|j: int|
                0 <= j < old(self)@.len() && old(self)@[j].id == id && final(self)@ == old(
                    self,
                )@.remove(j),
            r is Ok ==> !spec_contains_id(final(self)@, id),
            r matches Err(e) ==> e == TaskError::TaskNotFound && final(self)@ == old(self)@,
    {
        match self.find_index(id) {
            Some(j) => {
                proof {
                    self.tasks@.remove_ensures(j as int);
                }
                self.tasks.remove(j);
                proof {
                    assert forall|l: int| 0 <= l < self.tasks@.len() implies (#[trigger] self.tasks@[l]).id
                        != id by {
                        if l >= j as int {
                            assert(self.tasks@[l] == old(self).tasks@[l + 1]);
                        }
                    }
                }
                Ok(())
            },
            None => Err(TaskError::TaskNotFound),
        }
    }
}

/// Whether the id list `v` holds `x`.
fn vec_contains_i32(v: &Vec<i32>, x: i32) -> (r: bool)
    ensures
        r == v@.contains(x),
{
    let mut i: usize = 0;
    while i < v.len()
        invariant
            i <= v@.len(),
            forall|j: int| 0 <= j < i ==> v@[j] != x,
        decreases v@.len() - i,
    {
        if v[i] == x {
            return true;
        }
        i = i + 1;
    }
    false
}

/// `spec_find` succeeds exactly on the ids the sequence holds, and hands
/// back a record of the sequence carrying that id.
pub proof fn lemma_spec_find_props(s: Seq<Model>, id: i32)
    ensures
        spec_find(s, id) is Some <==> spec_contains_id(s, id),
        spec_find(s, id) matches Some(t) ==> t.id == id && s.contains(t),
    decreases s.len(),
{
    if s.len() != 0 && s[0].id != id {
        let sub = s.drop_first();
        lemma_spec_find_props(sub, id);
        if spec_contains_id(s, id) {
            let i = choose|i: int| 0 <= i < s.len() && s[i].id == id;
            assert(sub[i - 1] == s[i]);
        }
        if spec_contains_id(sub, id) {
            let i = choose|i: int| 0 <= i < sub.len() && sub[i].id == id;
            assert(s[i + 1] == sub[i]);
        }
        if spec_find(sub, id) is Some {
            let t = spec_find(sub, id)->Some_0;
            if sub.contains(t) {
                let i = choose|i: int| 0 <= i < sub.len() && sub[i] == t;
                assert(s[i + 1] == sub[i]);
            }
        }
    }
}

/// In a sequence of pairwise-distinct ids, `spec_find` at the id of index
/// `j` hands back exactly the record at `j`.
proof fn lemma_spec_find_at_index(s: Seq<Model>, id: i32, j: int)
    requires
        forall|a: int, b: int| 0 <= a < b < s.len() ==> #[trigger] s[a].id < #[trigger] s[b].id,
        0 <= j < s.len(),
        s[j].id == id,
    ensures
        spec_find(s, id) == Some(s[j]),
    decreases s.len(),
{
    if j == 0 {
    } else {
        let sub = s.drop_first();
        assert(s[0].id < s[j].id);
        assert forall|a: int, b: int| 0 <= a < b < sub.len() implies #[trigger] sub[a].id
            < #[trigger] sub[b].id by {
            assert(sub[a] == s[a + 1]);
            assert(sub[b] == s[b + 1]);
        }
        assert(sub[j - 1] == s[j]);
        lemma_spec_find_at_index(sub, id, j - 1);
    }
}

/// `s` with the record carrying `id` overwritten by `m`, which carries the
/// same id; every other record is untouched.
pub open spec fn spec_replace_id(s: Seq<Model>, id: i32, m: Model) -> Seq<Model> {
    s.map(
        |i: int, t: Model|
            if t.id == id {
                m
            } else {
                t
            },
    )
}

/// With pairwise-distinct ids, overwriting by id is overwriting at the one
/// index that carries the id.
proof fn lemma_replace_at_unique(s: Seq<Model>, j: int, m: Model)
    requires
        forall|a: int, b: int| 0 <= a < b < s.len() ==> #[trigger] s[a].id < #[trigger] s[b].id,
        0 <= j < s.len(),
        s[j].id == m.id,
    ensures
        spec_replace_id(s, m.id, m) == s.update(j, m),
{
    assert forall|l: int| 0 <= l < s.len() implies spec_replace_id(s, m.id, m)[l] == s.update(
        j,
        m,
    )[l] by {
        if l != j {
            if l < j {
                assert(s[l].id < s[j].id);
            } else {
                assert(s[j].id < s[l].id);
            }
        }
    }
    assert(spec_replace_id(s, m.id, m) =~= s.update(j, m));
}

/// Applying a batch never changes the length of the sequence nor the id at
/// any index.
proof fn lemma_apply_batch_same_ids(s: Seq<Model>, us: Seq<UpdateTaskRequest>)
    ensures
        spec_apply_batch(s, us).len() == s.len(),
        forall|i: int| 0 <= i < s.len() ==> (#[trigger] spec_apply_batch(s, us)[i]).id == s[i].id,
    decreases us.len(),
{
    if us.len() != 0 {
        lemma_apply_batch_same_ids(spec_apply_update(s, us[0]), us.drop_first());
    }
}

/// Extending the applied prefix by one record applies that record's update
/// to the prefix's outcome.
proof fn lemma_apply_batch_snoc(s: Seq<Model>, us: Seq<UpdateTaskRequest>, k: int)
    requires
        0 <= k < us.len(),
    ensures
        spec_apply_batch(s, us.take(k + 1)) == spec_apply_update(
            spec_apply_batch(s, us.take(k)),
            us[k],
        ),
    decreases k,
{
    if k == 0 {
        let e = Seq::<UpdateTaskRequest>::empty();
        let t1 = us.take(1);
        assert(us.take(0) =~= e);
        assert(spec_apply_batch(s, us.take(0)) == s);
        assert(t1.len() == 1);
        assert(t1[0] == us[0]);
        assert(t1.drop_first() =~= e);
        assert(spec_apply_batch(s, t1) == spec_apply_batch(
            spec_apply_update(s, t1[0]),
            t1.drop_first(),
        ));
        assert(spec_apply_batch(spec_apply_update(s, us[0]), e) == spec_apply_update(s, us[0]));
    } else {
        let s1 = spec_apply_update(s, us[0]);
        let usdf = us.drop_first();
        lemma_apply_batch_snoc(s1, usdf, k - 1);
        assert(us.take(k + 1)[0] == us[0]);
        assert(us.take(k)[0] == us[0]);
        assert(us.take(k + 1).drop_first() =~= usdf.take(k));
        assert(us.take(k).drop_first() =~= usdf.take(k - 1));
        assert(usdf[k - 1] == us[k]);
        assert(spec_apply_batch(s, us.take(k + 1)) == spec_apply_batch(
            spec_apply_update(s, us.take(k + 1)[0]),
            us.take(k + 1).drop_first(),
        ));
        assert(spec_apply_batch(s, us.take(k + 1)) == spec_apply_batch(s1, usdf.take(k)));
        assert(spec_apply_batch(s, us.take(k)) == spec_apply_batch(
            spec_apply_update(s, us.take(k)[0]),
            us.take(k).drop_first(),
        ));
        assert(spec_apply_batch(s, us.take(k)) == spec_apply_batch(s1, usdf.take(k - 1)));
    }
}

} // verus!
