use remaining::chrono_stack::ChronoStack;
use remaining::date::Date;
use remaining::period::Period;

fn d(y: i32, m: u32, day: u32) -> Date {
    Date::from_ymd(y, m, day).unwrap()
}

#[test]
fn empty_list_is_ok() {
    let items: Vec<(Date, i8)> = vec![];
    assert!(ChronoStack::new(items).is_ok());
}

#[test]
fn single_item_is_ok() {
    let items: Vec<(Date, i8)> = vec![(d(2026, 1, 1), 1)];
    assert!(ChronoStack::new(items).is_ok());
}

#[test]
fn nominal_chronological_order_is_ok() {
    let items: Vec<(Date, i8)> = vec![(d(2026, 1, 1), 1), (d(2026, 2, 1), 2), (d(2026, 3, 1), 3)];
    assert!(ChronoStack::new(items).is_ok());
}

#[test]
fn same_date_twice_is_ok() {
    let items: Vec<(Date, i8)> = vec![
        (d(2026, 1, 1), 1),
        (d(2026, 2, 1), 2),
        (d(2026, 2, 1), 3),
        (d(2026, 3, 1), 4),
    ];
    assert!(ChronoStack::new(items).is_ok());
}

#[test]
fn out_of_order_entry_in_middle_fails() {
    let items: Vec<(Date, i8)> = vec![
        (d(2026, 1, 1), 1),
        (d(2026, 3, 1), 2),
        (d(2026, 2, 1), 3),
        (d(2026, 4, 1), 4),
    ];
    assert!(ChronoStack::new(items).is_err());
}

#[test]
fn out_of_order_entry_in_middle_with_duplicates_fails() {
    let items: Vec<(Date, i8)> = vec![
        (d(2026, 1, 1), 1),
        (d(2026, 2, 1), 2),
        (d(2026, 2, 1), 3),
        (d(2026, 1, 15), 4),
        (d(2026, 3, 1), 5),
    ];
    assert!(ChronoStack::new(items).is_err());
}

#[test]
fn two_items_reversed_fails() {
    let items: Vec<(Date, i8)> = vec![(d(2026, 2, 1), 1), (d(2026, 1, 1), 2)];
    assert!(ChronoStack::new(items).is_err());
}

#[test]
fn two_items_same_date_is_ok() {
    let items: Vec<(Date, i8)> = vec![(d(2026, 1, 1), 1), (d(2026, 1, 1), 2)];
    assert!(ChronoStack::new(items).is_ok());
}

#[test]
fn last_item_out_of_order_fails() {
    let items: Vec<(Date, i8)> = vec![(d(2026, 1, 1), 1), (d(2026, 2, 1), 2), (d(2026, 1, 15), 3)];
    assert!(ChronoStack::new(items).is_err());
}

#[test]
fn first_item_out_of_order_fails() {
    let items: Vec<(Date, i8)> = vec![(d(2026, 3, 1), 1), (d(2026, 1, 1), 2), (d(2026, 2, 1), 3)];
    assert!(ChronoStack::new(items).is_err());
}

fn march() -> Period {
    Period { start_date: d(2026, 3, 1), end_date: d(2026, 3, 31) }
}

#[test]
fn chrono_stack_todo() {
    // Items before the period, within the period until the date, and after
    // the date (within the period and beyond it).
    let items: Vec<(Date, i8)> = vec![
        (d(2026, 1, 1), 1),
        (d(2026, 2, 28), 2),
        (d(2026, 3, 1), 3),
        (d(2026, 3, 10), 4),
        (d(2026, 3, 10), 5),
        (d(2026, 3, 11), 6),
        (d(2026, 4, 2), 7),
    ];
    let stack = ChronoStack::new(items).unwrap();
    let (before, during, after) = stack.into_split_for_period_and_date(&march(), &d(2026, 3, 10));
    assert_eq!(before, vec![1, 2]);
    assert_eq!(during, vec![3, 4, 5]);
    assert_eq!(after, vec![6, 7]);

    // The date on the first day of the period.
    let items: Vec<(Date, i8)> = vec![(d(2026, 2, 28), 1), (d(2026, 3, 1), 2), (d(2026, 3, 2), 3)];
    let (before, during, after) = ChronoStack::new(items).unwrap().into_split_for_period_and_date(&march(), &d(2026, 3, 1));
    assert_eq!(before, vec![1]);
    assert_eq!(during, vec![2]);
    assert_eq!(after, vec![3]);

    // A date before the period's start, with no item in between.
    let items: Vec<(Date, i8)> = vec![(d(2026, 2, 1), 1), (d(2026, 3, 5), 2)];
    let (before, during, after) = ChronoStack::new(items).unwrap().into_split_for_period_and_date(&march(), &d(2026, 2, 10));
    assert_eq!(before, vec![1]);
    assert!(during.is_empty());
    assert_eq!(after, vec![2]);

    // No items at all.
    let items: Vec<(Date, i8)> = vec![];
    let (before, during, after) = ChronoStack::new(items).unwrap().into_split_for_period_and_date(&march(), &d(2026, 3, 10));
    assert!(before.is_empty() && during.is_empty() && after.is_empty());
}

#[test]
fn chronology_error_names_the_dates() {
    let items: Vec<(Date, i8)> = vec![(d(2026, 2, 1), 1), (d(2026, 1, 1), 2)];
    match ChronoStack::new(items) {
        Err(e) => assert_eq!(e, "items are not in chronological order: 2026-01-01 comes after 2026-02-01"),
        Ok(_) => panic!("expected an error"),
    }
}
