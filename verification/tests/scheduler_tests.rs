use task_tracker::date::CalendarDate;
use task_tracker::scheduler::DueTaskScheduler;
use task_tracker::service::{Mutation, Query};
use task_tracker::store::TaskStore;
use task_tracker::task::Model;
use task_tracker::weekday::{RecurringOption, RecurringSet};

fn date(y: i32, m: u8, d: u8) -> CalendarDate {
    CalendarDate::from_ymd(y, m, d).expect("valid date")
}

fn draft(title: &str, date: Option<CalendarDate>, recurring: RecurringSet) -> Model {
    Model {
        id: 0,
        title: title.to_string(),
        date,
        time: None,
        recurring_option: recurring,
        is_completed: false,
        position: 0,
    }
}

fn every_day() -> RecurringSet {
    RecurringSet::empty()
        .with(RecurringOption::Monday)
        .with(RecurringOption::Tuesday)
        .with(RecurringOption::Wednesday)
        .with(RecurringOption::Thursday)
        .with(RecurringOption::Friday)
        .with(RecurringOption::Saturday)
        .with(RecurringOption::Sunday)
}

fn complete_all(store: &mut TaskStore) {
    for t in Query::find_all_tasks(store) {
        Mutation::update_task_by_id(
            store,
            t.id,
            t.title,
            t.date,
            t.time,
            t.recurring_option,
            true,
            t.position,
        )
        .expect("task exists");
    }
}

#[test]
fn reset_clears_completion_of_exactly_the_due_tasks() {
    let mut store = TaskStore::new();
    let monday = date(2024, 3, 4);
    let a = Mutation::add_task(&mut store, draft("due by date", Some(monday), RecurringSet::empty()));
    let b = Mutation::add_task(
        &mut store,
        draft("due by weekday", None, RecurringSet::empty().with(RecurringOption::Monday)),
    );
    let c = Mutation::add_task(
        &mut store,
        draft("not due", None, RecurringSet::empty().with(RecurringOption::Tuesday)),
    );
    complete_all(&mut store);

    let count = Mutation::reset_due_tasks_on(&mut store, monday);
    assert_eq!(count, 2);
    assert!(!Query::find_task_by_id(&store, a.id).unwrap().is_completed);
    assert!(!Query::find_task_by_id(&store, b.id).unwrap().is_completed);
    assert!(Query::find_task_by_id(&store, c.id).unwrap().is_completed);
}

#[test]
fn resetting_twice_equals_resetting_once() {
    let mut store = TaskStore::new();
    let monday = date(2024, 3, 4);
    Mutation::add_task(&mut store, draft("one", Some(monday), RecurringSet::empty()));
    Mutation::add_task(
        &mut store,
        draft("two", None, RecurringSet::empty().with(RecurringOption::Monday)),
    );
    Mutation::add_task(
        &mut store,
        draft("three", None, RecurringSet::empty().with(RecurringOption::Sunday)),
    );
    complete_all(&mut store);

    Mutation::reset_due_tasks_on(&mut store, monday);
    let after_once = Query::find_all_tasks(&store);
    let count_again = Mutation::reset_due_tasks_on(&mut store, monday);
    let after_twice = Query::find_all_tasks(&store);
    assert_eq!(after_once, after_twice);
    assert_eq!(count_again, 2);
}

#[test]
fn reset_on_an_empty_store_touches_nothing() {
    let mut store = TaskStore::new();
    assert_eq!(Mutation::reset_due_tasks_on(&mut store, date(2024, 3, 4)), 0);
    assert!(Query::find_all_tasks(&store).is_empty());
}

#[test]
fn clock_driven_reset_reaches_an_every_day_task() {
    // recurring on all seven weekdays, so it is due whatever today is;
    // a wall-clock date that left the store untouched would fail this test
    let mut store = TaskStore::new();
    let t = Mutation::add_task(&mut store, draft("daily", None, every_day()));
    complete_all(&mut store);
    assert!(Query::find_task_by_id(&store, t.id).unwrap().is_completed);

    let count = Mutation::reset_due_tasks(&mut store).expect("today is a real date");
    assert_eq!(count, 1);
    assert!(!Query::find_task_by_id(&store, t.id).unwrap().is_completed);
}

#[test]
fn scheduler_begins_only_one_run_at_a_time() {
    let mut sched = DueTaskScheduler::new();
    assert!(sched.is_idle());
    assert!(sched.try_begin_run());
    assert!(!sched.is_idle());
    assert!(!sched.try_begin_run());
    sched.finish_run();
    assert!(sched.is_idle());
    assert!(sched.try_begin_run());
}

#[test]
fn firing_runs_the_reset_from_idle() {
    let mut sched = DueTaskScheduler::new();
    let mut store = TaskStore::new();
    let monday = date(2024, 3, 4);
    let t = Mutation::add_task(&mut store, draft("due", Some(monday), RecurringSet::empty()));
    complete_all(&mut store);

    let r = sched.fire_daily_reset(&mut store, monday);
    assert_eq!(r, Some(1));
    assert!(sched.is_idle());
    assert!(!Query::find_task_by_id(&store, t.id).unwrap().is_completed);
}

#[test]
fn firing_is_skipped_while_a_run_is_in_flight() {
    let mut sched = DueTaskScheduler::new();
    let mut store = TaskStore::new();
    let monday = date(2024, 3, 4);
    Mutation::add_task(&mut store, draft("due", Some(monday), RecurringSet::empty()));
    complete_all(&mut store);
    let before = Query::find_all_tasks(&store);

    assert!(sched.try_begin_run());
    let r = sched.fire_daily_reset(&mut store, monday);
    assert_eq!(r, None);
    assert_eq!(Query::find_all_tasks(&store), before);
    assert!(!sched.is_idle());

    sched.finish_run();
    assert_eq!(sched.fire_daily_reset(&mut store, monday), Some(1));
}
