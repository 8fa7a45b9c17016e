use todo_reminder::reminder::{HistoryStore, ReminderType};
use todo_reminder::task::{count_completed, split_elapsed, TodoListForm};

#[test]
fn record_and_query() {
    let mut store = HistoryStore::new();
    assert_eq!(store.entry_count(), 0);
    assert!(!store.has_fired(1, ReminderType::Overdue));
    store.record_fired(1, ReminderType::Overdue, 100);
    assert!(store.has_fired(1, ReminderType::Overdue));
    assert!(!store.has_fired(1, ReminderType::OneDayBefore));
    assert!(!store.has_fired(2, ReminderType::Overdue));
    store.record_fired(1, ReminderType::OneDayBefore, 150);
    assert_eq!(store.entry_count(), 2);
    assert_eq!(store.entries()[0].todo_id, 1);
    assert_eq!(store.entries()[0].reminder_time, 100);
    assert_eq!(store.entries()[1].reminder_type, ReminderType::OneDayBefore);
}

#[test]
fn purge_drops_entries_at_or_before_cutoff() {
    let mut store = HistoryStore::new();
    let now: i64 = 30 * 86400;
    store.record_fired(1, ReminderType::Overdue, 0);
    store.record_fired(2, ReminderType::Overdue, 20 * 86400);
    store.record_fired(3, ReminderType::Overdue, 20 * 86400 + 1);
    store.record_fired(4, ReminderType::Overdue, now);
    // Cutoff is now - 10 days = 20 * 86400; entries at or before it go.
    let removed = store.purge_older_than(now, 10);
    assert_eq!(removed, 2);
    assert_eq!(store.entry_count(), 2);
    assert_eq!(store.entries()[0].todo_id, 3);
    assert_eq!(store.entries()[1].todo_id, 4);
}

#[test]
fn purge_with_zero_days_keeps_nothing_past() {
    let mut store = HistoryStore::new();
    store.record_fired(1, ReminderType::Overdue, 50);
    store.record_fired(2, ReminderType::Overdue, 150);
    let removed = store.purge_older_than(100, 0);
    assert_eq!(removed, 1);
    assert_eq!(store.entries()[0].todo_id, 2);
}

fn t(completed: bool) -> TodoListForm {
    TodoListForm {
        id: 1,
        title: "x".to_string(),
        description: None,
        completed,
        begin_time: 0,
        end_time: None,
        key_message1: None,
        key_message2: None,
        key_message3: None,
    }
}

#[test]
fn completed_count() {
    assert_eq!(count_completed(&vec![]), 0);
    assert_eq!(count_completed(&vec![t(true), t(false), t(true)]), 2);
    assert_eq!(count_completed(&vec![t(false)]), 0);
}

#[test]
fn elapsed_split() {
    assert_eq!(split_elapsed(0), (0, 0, 0));
    assert_eq!(split_elapsed(59), (0, 0, 0));
    assert_eq!(split_elapsed(60), (0, 0, 1));
    assert_eq!(split_elapsed(3600), (0, 1, 0));
    assert_eq!(split_elapsed(90061), (1, 1, 1));
    assert_eq!(split_elapsed(-90061), (-1, -1, -1));
    assert_eq!(split_elapsed(2 * 86400 + 5 * 3600 + 42 * 60 + 7), (2, 5, 42));
}
