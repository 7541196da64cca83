use task_tracker::date::CalendarDate;
use task_tracker::resolver::{is_candidate, is_due};
use task_tracker::service::{Mutation, Query};
use task_tracker::store::TaskStore;
use task_tracker::task::{Model, TaskError};
use task_tracker::weekday::{RecurringOption, RecurringSet};

fn date(y: i32, m: u8, d: u8) -> CalendarDate {
    CalendarDate::from_ymd(y, m, d).expect("valid date")
}

fn draft(title: &str, date: Option<CalendarDate>, recurring: RecurringSet) -> Model {
    Model {
        id: 0,
        title: title.to_string(),
        date,
        time: None,
        recurring_option: recurring,
        is_completed: false,
        position: 0,
    }
}

fn only(day: RecurringOption) -> RecurringSet {
    RecurringSet::empty().with(day)
}

#[test]
fn monday_and_tuesday_scenario() {
    // task A: dated 2024-03-04 (a Monday), not recurring
    // task B: dateless, recurring on Mondays
    // task C: dateless, recurring on Tuesdays
    let mut store = TaskStore::new();
    let a = Mutation::add_task(
        &mut store,
        draft("A", Some(date(2024, 3, 4)), RecurringSet::empty()),
    );
    let b = Mutation::add_task(&mut store, draft("B", None, only(RecurringOption::Monday)));
    let c = Mutation::add_task(&mut store, draft("C", None, only(RecurringOption::Tuesday)));

    let monday = Query::find_tasks_by_date(&store, date(2024, 3, 4));
    assert_eq!(monday, vec![a, b]);

    let tuesday = Query::find_tasks_by_date(&store, date(2024, 3, 5));
    assert_eq!(tuesday, vec![c]);
}

#[test]
fn exact_date_task_is_due_only_on_its_date() {
    let d = date(2024, 3, 4);
    let t = draft("once", Some(d), RecurringSet::empty());
    assert!(is_due(&t, d));
    assert!(!is_due(&t, date(2024, 3, 5)));
    assert!(!is_due(&t, date(2024, 3, 11))); // the next Monday
    assert!(!is_due(&t, date(2025, 3, 4)));
}

#[test]
fn recurring_task_is_due_on_every_matching_weekday() {
    let t = draft("gym", Some(date(2024, 3, 4)), only(RecurringOption::Wednesday));
    // every Wednesday matches, whatever the task's own date holds
    assert!(is_due(&t, date(2024, 3, 6)));
    assert!(is_due(&t, date(2024, 3, 13)));
    assert!(is_due(&t, date(2031, 12, 31)));
    // its exact date still matches too
    assert!(is_due(&t, date(2024, 3, 4)));
    // a Thursday does not
    assert!(!is_due(&t, date(2024, 3, 7)));
}

#[test]
fn dateless_non_recurring_task_is_never_due() {
    let t = draft("someday", None, RecurringSet::empty());
    assert!(!is_due(&t, date(2024, 3, 4)));
    assert!(!is_candidate(&t, date(2024, 3, 4)));
    let mut store = TaskStore::new();
    Mutation::add_task(&mut store, t);
    assert!(Query::find_tasks_by_date(&store, date(2024, 3, 4)).is_empty());
}

#[test]
fn lookalike_candidate_is_filtered_by_the_recheck() {
    // a non-empty recurring set passes the over-inclusive store filter even
    // when it misses the target weekday; the in-memory re-check drops it
    let monday = date(2024, 3, 4);
    let t = draft("tuesdays only", None, only(RecurringOption::Tuesday));
    assert!(is_candidate(&t, monday));
    assert!(!is_due(&t, monday));

    let mut store = TaskStore::new();
    Mutation::add_task(&mut store, t);
    let candidates = store.find_candidates_for_date(monday);
    assert_eq!(candidates.len(), 1);
    assert!(Query::find_tasks_by_date(&store, monday).is_empty());
}

#[test]
fn listing_honours_the_optional_date_parameter() {
    let mut store = TaskStore::new();
    let a = Mutation::add_task(
        &mut store,
        draft("A", Some(date(2024, 3, 4)), RecurringSet::empty()),
    );
    let b = Mutation::add_task(&mut store, draft("B", None, only(RecurringOption::Tuesday)));

    let all = Query::list_tasks(&store, None).expect("no parameter to reject");
    assert_eq!(all, vec![a.clone(), b.clone()]);

    let monday = Query::list_tasks(&store, Some(b"2024-03-04")).expect("parsable date");
    assert_eq!(monday, vec![a]);

    let tuesday = Query::list_tasks(&store, Some(b"2024-03-05")).expect("parsable date");
    assert_eq!(tuesday, vec![b]);

    assert_eq!(Query::list_tasks(&store, Some(b"2024-3-4")), Err(TaskError::ValidationError));
    assert_eq!(Query::list_tasks(&store, Some(b"2023-02-29")), Err(TaskError::ValidationError));
}

#[test]
fn due_tasks_come_back_in_id_order() {
    let mut store = TaskStore::new();
    let monday = date(2024, 3, 4);
    let a = Mutation::add_task(&mut store, draft("a", None, only(RecurringOption::Monday)));
    let b = Mutation::add_task(&mut store, draft("b", Some(monday), RecurringSet::empty()));
    let c = Mutation::add_task(&mut store, draft("c", None, only(RecurringOption::Monday)));
    let due = Query::find_tasks_by_date(&store, monday);
    let ids: Vec<i32> = due.iter().map(|t| t.id).collect();
    assert_eq!(ids, vec![a.id, b.id, c.id]);
}
