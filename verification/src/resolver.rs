//! Recurrence resolution: which tasks are due on a date.
//!
//! The authoritative rule is the pure predicate [`spec_is_due`]: a task is
//! due on a date exactly when its own date is that date, or the date's
//! weekday tag is a member of the task's recurring set. The store-level
//! candidate pre-filter is over-inclusive on purpose and is only an
//! optimization; the in-memory re-check against [`spec_is_due`] is the
//! source of truth.

use vstd::prelude::*;

use crate::date::CalendarDate;
use crate::task::Model;

verus! {

/// The due-ness rule: an exact-date match, or a weekday membership match.
pub open spec fn spec_is_due(t: Model, d: CalendarDate) -> bool {
    t.date == Some(d) || t.recurring_option.spec_contains(d.spec_weekday())
}

/// The over-inclusive store-level pre-filter: an exact-date match, or any
/// non-empty recurring set, whether or not it holds the date's weekday.
pub open spec fn spec_is_candidate(t: Model, d: CalendarDate) -> bool {
    t.date == Some(d) || !t.recurring_option.spec_is_empty()
}

/// The due-ness rule as a predicate on records, for filtering.
pub open spec fn due_pred(d: CalendarDate) -> spec_fn(Model) -> bool {
    |t: Model| spec_is_due(t, d)
}

/// The candidate pre-filter as a predicate on records, for filtering.
pub open spec fn candidate_pred(d: CalendarDate) -> spec_fn(Model) -> bool {
    |t: Model| spec_is_candidate(t, d)
}

/// The subsequence of `s` that is due on `d`, in the order of `s`.
pub open spec fn spec_due_tasks(s: Seq<Model>, d: CalendarDate) -> Seq<Model> {
    s.filter(due_pred(d))
}

/// The subsequence of `s` that the store-level pre-filter would select.
pub open spec fn spec_candidates(s: Seq<Model>, d: CalendarDate) -> Seq<Model> {
    s.filter(candidate_pred(d))
}

/// The records of `s` after the daily reset for date `d`: every due record
/// with its completion flag cleared, every other record unchanged.
pub open spec fn spec_daily_reset(s: Seq<Model>, d: CalendarDate) -> Seq<Model> {
    s.map(
        |i: int, t: Model|
            if spec_is_due(t, d) {
                t.spec_with_completed(false)
            } else {
                t
            },
    )
}

/// Evaluates the due-ness rule on one record.
pub fn is_due(t: &Model, d: CalendarDate) -> (r: bool)
    requires
        d.valid(),
    ensures
        r == spec_is_due(*t, d),
{
    let exact = match &t.date {
        Some(td) => td.year == d.year && td.month == d.month && td.day == d.day,
        None => false,
    };
    exact || t.recurring_option.contains(d.weekday())
}

/// Evaluates the candidate pre-filter on one record.
pub fn is_candidate(t: &Model, d: CalendarDate) -> (r: bool)
    ensures
        r == spec_is_candidate(*t, d),
{
    let exact = match &t.date {
        Some(td) => td.year == d.year && td.month == d.month && td.day == d.day,
        None => false,
    };
    exact || !t.recurring_option.is_empty()
}

/// The mandatory in-memory re-check: filters any candidate list down to the
/// records that the due-ness rule itself accepts, keeping their order.
pub fn resolve_due(tasks: &Vec<Model>, d: CalendarDate) -> (r: Vec<Model>)
    requires
        d.valid(),
    ensures
        r@ == spec_due_tasks(tasks@, d),
{
    let mut r: Vec<Model> = Vec::new();
    let mut i: usize = 0;
    while i < tasks.len()
        invariant
            d.valid(),
            i <= tasks.len(),
            r@ == spec_due_tasks(tasks@.take(i as int), d),
        decreases tasks.len() - i,
    {
        proof {
            assert(tasks@.take(i + 1int).drop_last() =~= tasks@.take(i as int));
            lemma_filter_push(tasks@.take(i as int), tasks@[i as int], due_pred(d));
            assert(tasks@.take(i + 1int) =~= tasks@.take(i as int).push(tasks@[i as int]));
        }
        if is_due(&tasks[i], d) {
            r.push(tasks[i].duplicate());
        }
        i = i + 1;
    }
    proof {
        assert(tasks@.take(tasks@.len() as int) =~= tasks@);
    }
    r
}

/// Filtering a pushed element either appends it or leaves the filter result
/// unchanged, by whether the predicate accepts it.
pub proof fn lemma_filter_push<A>(s: Seq<A>, x: A, p: spec_fn(A) -> bool)
    ensures
        s.push(x).filter(p) == if p(x) {
            s.filter(p).push(x)
        } else {
            s.filter(p)
        },
{
    reveal(Seq::filter);
    assert(s.push(x).drop_last() =~= s);
    assert(s.push(x).last() == x);
}

/// Every element of a filter result is an element of the filtered sequence.
pub(crate) proof fn lemma_filter_is_member<A>(s: Seq<A>, p: spec_fn(A) -> bool, i: int)
    requires
        0 <= i < s.filter(p).len(),
    ensures
        s.contains(s.filter(p)[i]),
    decreases s.len(),
{
    reveal(Seq::filter);
    broadcast use vstd::seq_lib::group_filter_ensures;

    if s.len() != 0 {
        let dl = s.drop_last();
        let x = s.filter(p)[i];
        if p(s.last()) {
            if i < s.filter(p).len() - 1 {
                lemma_filter_is_member(dl, p, i);
                let j = choose|j: int| 0 <= j < dl.len() && dl[j] == x;
                assert(s[j] == dl[j]);
            } else {
                assert(s[s.len() - 1] == x);
            }
        } else {
            lemma_filter_is_member(dl, p, i);
            let j = choose|j: int| 0 <= j < dl.len() && dl[j] == x;
            assert(s[j] == dl[j]);
        }
    }
}

/// Two predicates that agree on every element of `s` filter `s` alike.
pub(crate) proof fn lemma_filter_agree<A>(s: Seq<A>, p: spec_fn(A) -> bool, q: spec_fn(A) -> bool)
    requires
        forall|i: int| 0 <= i < s.len() ==> (p(#[trigger] s[i]) <==> q(s[i])),
    ensures
        s.filter(p) == s.filter(q),
    decreases s.len(),
{
    reveal(Seq::filter);
    if s.len() != 0 {
        let dl = s.drop_last();
        assert forall|i: int| 0 <= i < dl.len() implies (p(#[trigger] dl[i]) <==> q(dl[i])) by {
            assert(dl[i] == s[i]);
        }
        lemma_filter_agree(dl, p, q);
        assert(s.last() == s[s.len() - 1]);
    }
}

/// Filtering by `p` ignores an earlier filter by any weaker predicate `q`.
proof fn lemma_filter_subsumes<A>(s: Seq<A>, p: spec_fn(A) -> bool, q: spec_fn(A) -> bool)
    requires
        forall|x: A| #[trigger] p(x) ==> q(x),
    ensures
        s.filter(q).filter(p) == s.filter(p),
    decreases s.len(),
{
    reveal(Seq::filter);
    if s.len() == 0 {
        assert(s.filter(q) =~= s);
    } else {
        let dl = s.drop_last();
        lemma_filter_subsumes(dl, p, q);
        if q(s.last()) {
            assert(s.filter(q) == dl.filter(q).push(s.last()));
            lemma_filter_push(dl.filter(q), s.last(), p);
        } else {
            assert(!p(s.last()));
        }
    }
}

/// Law: a task is due on `d` exactly when it would be due on `d` after the
/// over-inclusive candidate pre-filter; the store-level filter is an
/// optimization and never changes the resolved due set.
pub proof fn lemma_candidates_cover_due(s: Seq<Model>, d: CalendarDate)
    ensures
        spec_due_tasks(spec_candidates(s, d), d) == spec_due_tasks(s, d),
{
    assert forall|t: Model| #[trigger] due_pred(d)(t) implies candidate_pred(d)(t) by {
        if t.recurring_option.spec_contains(d.spec_weekday()) {
            t.recurring_option.lemma_is_empty_no_members();
        }
    }
    lemma_filter_subsumes(s, due_pred(d), candidate_pred(d));
}

/// Law: a task whose `date` is `d` is in the due set resolved for `d`,
/// whatever its recurring set; with an empty recurring set it is absent from
/// the due set of every other date.
pub proof fn lemma_exact_date_due(s: Seq<Model>, i: int, d: CalendarDate, other: CalendarDate)
    requires
        0 <= i < s.len(),
        s[i].date == Some(d),
    ensures
        spec_due_tasks(s, d).contains(s[i]),
        s[i].recurring_option.spec_is_empty() && other != d ==> !spec_due_tasks(
            s,
            other,
        ).contains(s[i]),
{
    broadcast use vstd::seq_lib::group_filter_ensures;

    assert(due_pred(d)(s[i]));
    assert(s.filter(due_pred(d)).contains(s[i]));
    if s[i].recurring_option.spec_is_empty() && other != d {
        s[i].recurring_option.lemma_is_empty_no_members();
        assert(!due_pred(other)(s[i]));
        if spec_due_tasks(s, other).contains(s[i]) {
            let flt = s.filter(due_pred(other));
            let j = choose|j: int| 0 <= j < flt.len() && flt[j] == s[i];
            assert(due_pred(other)(flt[j]));
        }
    }
}

/// Law: a task whose recurring set holds the weekday of `d` is in the due
/// set resolved for `d`, whatever its own `date` field holds.
pub proof fn lemma_recurring_due(s: Seq<Model>, i: int, d: CalendarDate)
    requires
        0 <= i < s.len(),
        s[i].recurring_option.spec_contains(d.spec_weekday()),
    ensures
        spec_due_tasks(s, d).contains(s[i]),
{
    broadcast use vstd::seq_lib::group_filter_ensures;

    assert(due_pred(d)(s[i]));
    assert(s.filter(due_pred(d)).contains(s[i]));
}

/// A filter of a sequence with pairwise strictly increasing ids again has
/// pairwise strictly increasing ids.
proof fn lemma_filter_keeps_id_order(s: Seq<Model>, p: spec_fn(Model) -> bool)
    requires
        forall|i: int, j: int| 0 <= i < j < s.len() ==> #[trigger] s[i].id < #[trigger] s[j].id,
    ensures
        forall|i: int, j: int|
            0 <= i < j < s.filter(p).len() ==> #[trigger] s.filter(p)[i].id
                < #[trigger] s.filter(p)[j].id,
    decreases s.len(),
{
    reveal(Seq::filter);
    if s.len() != 0 {
        let dl = s.drop_last();
        assert forall|i: int, j: int| 0 <= i < j < dl.len() implies #[trigger] dl[i].id
            < #[trigger] dl[j].id by {
            assert(dl[i] == s[i]);
            assert(dl[j] == s[j]);
        }
        lemma_filter_keeps_id_order(dl, p);
        if p(s.last()) {
            assert forall|i: int, j: int|
                0 <= i < j < s.filter(p).len() implies #[trigger] s.filter(p)[i].id
                < #[trigger] s.filter(p)[j].id by {
                if j < s.filter(p).len() - 1 {
                } else {
                    assert(s.filter(p)[j] == s.last());
                    lemma_filter_is_member(dl, p, i);
                    let w = choose|w: int| 0 <= w < dl.len() && dl[w] == dl.filter(p)[i];
                    assert(s[w] == dl[w]);
                    assert(s[w].id < s[s.len() - 1].id);
                }
            }
        }
    }
}

/// Law: the resolved due set of an id-sorted candidate sequence is itself
/// id-sorted: resolution keeps the store's id order.
pub proof fn lemma_due_tasks_id_ordered(s: Seq<Model>, d: CalendarDate)
    requires
        forall|i: int, j: int| 0 <= i < j < s.len() ==> #[trigger] s[i].id < #[trigger] s[j].id,
    ensures
        forall|i: int, j: int|
            0 <= i < j < spec_due_tasks(s, d).len() ==> #[trigger] spec_due_tasks(s, d)[i].id
                < #[trigger] spec_due_tasks(s, d)[j].id,
{
    lemma_filter_keeps_id_order(s, due_pred(d));
}

/// Law: the daily reset is idempotent — resetting for `d` twice leaves
/// exactly the records that resetting once leaves.
pub proof fn lemma_daily_reset_idempotent(s: Seq<Model>, d: CalendarDate)
    ensures
        spec_daily_reset(spec_daily_reset(s, d), d) == spec_daily_reset(s, d),
{
    let once = spec_daily_reset(s, d);
    assert forall|i: int| 0 <= i < once.len() implies #[trigger] spec_daily_reset(once, d)[i]
        == once[i] by {
        let t = s[i];
        if spec_is_due(t, d) {
            assert(spec_is_due(t.spec_with_completed(false), d));
        }
    }
    assert(spec_daily_reset(once, d) =~= once);
}

} // verus!
