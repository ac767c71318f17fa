use chrono::{Local, TimeDelta};
use planner::dates::CalendarDate;
use planner::tasks::{Task, TaskStore};

fn task(title: &str, date: &str) -> Task {
    Task {
        id: None,
        title: title.to_string(),
        date: date.to_string(),
        completed: false,
        priority: "High".to_string(),
    }
}

fn day(year: i32, month: u32, day: u32) -> CalendarDate {
    CalendarDate::new(year, month, day).expect("a date that exists")
}

#[test]
fn a_new_task_store_is_empty() {
    let store = TaskStore::new();
    assert_eq!(store.len(), 0);
    assert!(store.list().is_empty());
}

#[test]
fn tasks_are_numbered_from_one() {
    let mut store = TaskStore::new();
    let today = day(2025, 3, 1);
    let first = store.add_on(task("write", "2025-03-01"), &today).unwrap();
    let second = store.add_on(task("read", "2025-03-02"), &today).unwrap();
    let third = store.add_on(task("rest", "2025-03-03"), &today).unwrap();
    assert_eq!(first.id, Some(1));
    assert_eq!(second.id, Some(2));
    assert_eq!(third.id, Some(3));
    assert_eq!(store.len(), 3);
}

#[test]
fn the_id_a_caller_writes_on_a_task_is_ignored() {
    let mut store = TaskStore::new();
    let mut given = task("write", "2025-03-01");
    given.id = Some(77);
    let stored = store.add_on(given, &day(2025, 3, 1)).unwrap();
    assert_eq!(stored.id, Some(1));
    assert_eq!(store.list()[0].id, Some(1));
}

#[test]
fn a_task_keeps_what_the_caller_wrote() {
    let mut store = TaskStore::new();
    let given = Task {
        id: None,
        title: "write".to_string(),
        date: "some day".to_string(),
        completed: true,
        priority: "Low".to_string(),
    };
    let stored = store.add_on(given, &day(2025, 3, 1)).unwrap();
    assert_eq!(stored.title, "write");
    assert_eq!(stored.date, "some day");
    assert!(stored.completed);
    assert_eq!(stored.priority, "Low");
}

#[test]
fn tasks_are_listed_in_the_order_added() {
    let mut store = TaskStore::new();
    let today = day(2025, 3, 1);
    let titles = ["a", "b", "c", "d", "e", "f", "g"];
    for title in titles {
        store.add_on(task(title, "2025-03-01"), &today).unwrap();
    }
    let listed = store.list();
    assert_eq!(listed.len(), titles.len());
    for (i, title) in titles.iter().enumerate() {
        assert_eq!(listed[i].title, *title);
        assert_eq!(listed[i].id, Some(i as u32 + 1));
    }
}

#[test]
fn a_new_task_id_was_not_in_the_store() {
    let mut store = TaskStore::new();
    let today = day(2025, 3, 1);
    for _ in 0..20 {
        let before = store.list();
        let added = store.add_on(task("t", "2025-03-01"), &today).unwrap();
        assert!(before.iter().all(|t| t.id != added.id));
    }
}

#[test]
fn the_date_keywords_are_resolved_when_a_task_is_added() {
    let mut store = TaskStore::new();
    let today = day(2025, 3, 1);
    assert_eq!(store.add_on(task("a", "Today"), &today).unwrap().date, "2025-03-01");
    assert_eq!(store.add_on(task("b", "Tomorrow"), &today).unwrap().date, "2025-03-02");
    assert_eq!(store.add_on(task("c", "This Week"), &today).unwrap().date, "2025-03-08");
    assert_eq!(store.add_on(task("d", "This Month"), &today).unwrap().date, "2025-04-01");
    assert_eq!(store.add_on(task("e", "2025-03-01"), &today).unwrap().date, "2025-03-01");
    let dates: Vec<String> = store.list().into_iter().map(|t| t.date).collect();
    assert_eq!(dates, ["2025-03-01", "2025-03-02", "2025-03-08", "2025-04-01", "2025-03-01"]);
}

#[test]
fn a_stored_date_is_not_resolved_again() {
    let mut store = TaskStore::new();
    store.add_on(task("a", "Today"), &day(2025, 3, 1)).unwrap();
    store.add_on(task("b", "Today"), &day(2025, 3, 9)).unwrap();
    let listed = store.complete(1);
    assert_eq!(listed[0].date, "2025-03-01");
    assert_eq!(listed[1].date, "2025-03-09");
}

#[test]
fn a_task_whose_date_cannot_be_resolved_is_not_added() {
    let mut store = TaskStore::new();
    let last = day(262142, 12, 31);
    store.add_on(task("a", "Today"), &last).unwrap();
    assert!(store.add_on(task("b", "Tomorrow"), &last).is_none());
    assert!(store.add_on(task("c", "This Week"), &last).is_none());
    assert_eq!(store.len(), 1);
    assert_eq!(store.add_on(task("d", "later"), &last).unwrap().id, Some(2));
}

#[test]
fn adding_by_the_clock_resolves_today() {
    let mut store = TaskStore::new();
    let before = Local::now().date_naive().to_string();
    let stored = store.add(task("a", "Today")).unwrap();
    let after = Local::now().date_naive().to_string();
    assert!(stored.date == before || stored.date == after);
    assert_eq!(stored.id, Some(1));
}

#[test]
fn adding_by_the_clock_resolves_tomorrow_and_this_week() {
    let mut store = TaskStore::new();
    let before = Local::now().date_naive();
    let tomorrow = store.add(task("a", "Tomorrow")).unwrap();
    let week = store.add(task("b", "This Week")).unwrap();
    let after = Local::now().date_naive();
    let one = TimeDelta::days(1);
    let seven = TimeDelta::days(7);
    assert!(
        tomorrow.date == (before + one).to_string() || tomorrow.date == (after + one).to_string()
    );
    assert!(week.date == (before + seven).to_string() || week.date == (after + seven).to_string());
}

#[test]
fn adding_by_the_clock_keeps_a_written_date() {
    let mut store = TaskStore::new();
    let stored = store.add(task("a", "2025-03-01")).unwrap();
    assert_eq!(stored.date, "2025-03-01");
    assert_eq!(store.list()[0].date, "2025-03-01");
}

#[test]
fn completing_marks_the_task_and_lists_all() {
    let mut store = TaskStore::new();
    let today = day(2025, 3, 1);
    store.add_on(task("a", "x"), &today).unwrap();
    store.add_on(task("b", "y"), &today).unwrap();
    store.add_on(task("c", "z"), &today).unwrap();
    let listed = store.complete(2);
    assert_eq!(listed.len(), 3);
    assert!(!listed[0].completed);
    assert!(listed[1].completed);
    assert!(!listed[2].completed);
    assert_eq!(listed[1].title, "b");
    assert_eq!(listed[1].id, Some(2));
    assert!(store.list()[1].completed);
}

#[test]
fn completing_twice_keeps_the_task_done() {
    let mut store = TaskStore::new();
    store.add_on(task("a", "x"), &day(2025, 3, 1)).unwrap();
    store.complete(1);
    let listed = store.complete(1);
    assert!(listed[0].completed);
}

#[test]
fn completing_a_task_that_is_not_there_changes_nothing() {
    let mut store = TaskStore::new();
    let today = day(2025, 3, 1);
    store.add_on(task("a", "x"), &today).unwrap();
    store.add_on(task("b", "y"), &today).unwrap();
    for id in [0, 3, 99, u32::MAX] {
        let listed = store.complete(id);
        assert_eq!(listed.len(), 2);
        assert!(listed.iter().all(|t| !t.completed));
    }
    assert!(TaskStore::new().complete(1).is_empty());
}
