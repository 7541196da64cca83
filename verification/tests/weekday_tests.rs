use task_tracker::weekday::{RecurringOption, RecurringSet};

const ALL_DAYS: [RecurringOption; 7] = [
    RecurringOption::Monday,
    RecurringOption::Tuesday,
    RecurringOption::Wednesday,
    RecurringOption::Thursday,
    RecurringOption::Friday,
    RecurringOption::Saturday,
    RecurringOption::Sunday,
];

#[test]
fn empty_set_has_no_members() {
    let s = RecurringSet::empty();
    assert!(s.is_empty());
    for d in ALL_DAYS {
        assert!(!s.contains(d));
    }
}

#[test]
fn with_adds_exactly_one_member() {
    let s = RecurringSet::empty().with(RecurringOption::Wednesday);
    assert!(!s.is_empty());
    for d in ALL_DAYS {
        assert_eq!(s.contains(d), d == RecurringOption::Wednesday);
    }
}

#[test]
fn with_is_idempotent() {
    let once = RecurringSet::empty().with(RecurringOption::Friday);
    let twice = once.with(RecurringOption::Friday);
    assert_eq!(once, twice);
}

#[test]
fn from_options_drops_duplicates_and_order() {
    let a = RecurringSet::from_options(&vec![
        RecurringOption::Monday,
        RecurringOption::Friday,
        RecurringOption::Monday,
    ]);
    let b = RecurringSet::from_options(&vec![RecurringOption::Friday, RecurringOption::Monday]);
    assert_eq!(a, b);
    assert!(a.contains(RecurringOption::Monday));
    assert!(a.contains(RecurringOption::Friday));
    assert!(!a.contains(RecurringOption::Sunday));
}

#[test]
fn from_options_of_nothing_is_empty() {
    let s = RecurringSet::from_options(&Vec::new());
    assert!(s.is_empty());
    assert_eq!(s, RecurringSet::empty());
}
