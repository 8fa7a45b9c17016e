use todo_reminder::config::{ReminderConfig, ReminderRule};
use todo_reminder::engine::{classify_rule, due_at, ReminderService};
use todo_reminder::reminder::{HistoryStore, ReminderType};
use todo_reminder::task::TodoListForm;

fn task(id: i32, title: &str, completed: bool, begin: i64) -> TodoListForm {
    TodoListForm {
        id,
        title: title.to_string(),
        description: None,
        completed,
        begin_time: begin,
        end_time: None,
        key_message1: None,
        key_message2: None,
        key_message3: None,
    }
}

fn rule(rule_type: &str, seconds_before: Option<i64>, template: &str) -> ReminderRule {
    ReminderRule {
        rule_type: rule_type.to_string(),
        seconds_before,
        message_template: template.to_string(),
    }
}

fn config(enabled: bool, rules: Vec<ReminderRule>) -> ReminderConfig {
    ReminderConfig {
        enabled,
        check_interval_minutes: 60,
        notification_type: "console".to_string(),
        rules,
    }
}

fn standard_rules() -> Vec<ReminderRule> {
    vec![
        rule("before_start", Some(86400), "day {title} {id}"),
        rule("before_start", Some(3600), "hour {title} {id}"),
        rule("overdue", None, "over {title} {id}"),
    ]
}

const NOW: i64 = 1_700_000_000;

#[test]
fn evaluate_is_idempotent_for_fixed_now() {
    let todos = vec![
        task(1, "a", false, NOW - 50),
        task(2, "b", false, NOW + 1800),
        task(3, "c", false, NOW + 80000),
    ];
    let cfg = config(true, standard_rules());
    let mut history = HistoryStore::new();
    let first = ReminderService::check_and_notify(NOW, &todos, &cfg, &mut history);
    assert!(!first.is_empty());
    let second = ReminderService::check_and_notify(NOW, &todos, &cfg, &mut history);
    assert!(second.is_empty());
}

#[test]
fn no_reminder_two_days_ahead() {
    let todos = vec![task(1, "far", false, NOW + 2 * 86400)];
    let cfg = config(true, standard_rules());
    let mut history = HistoryStore::new();
    let messages = ReminderService::check_and_notify(NOW, &todos, &cfg, &mut history);
    assert!(messages.is_empty());
    assert_eq!(history.entry_count(), 0);
}

#[test]
fn day_before_boundary_is_inclusive() {
    let todos = vec![task(1, "edge", false, NOW + 86400)];
    let cfg = config(true, vec![rule("before_start", Some(86400), "day {id}")]);
    let mut history = HistoryStore::new();
    let messages = ReminderService::check_and_notify(NOW, &todos, &cfg, &mut history);
    assert_eq!(messages, vec!["day 1".to_string()]);
}

#[test]
fn day_before_boundary_plus_one_is_excluded() {
    let todos = vec![task(1, "edge", false, NOW + 86401)];
    let cfg = config(true, vec![rule("before_start", Some(86400), "day {id}")]);
    let mut history = HistoryStore::new();
    let messages = ReminderService::check_and_notify(NOW, &todos, &cfg, &mut history);
    assert!(messages.is_empty());
}

#[test]
fn hour_before_boundary_is_inclusive() {
    let todos = vec![task(7, "h", false, NOW + 3600)];
    let cfg = config(true, vec![rule("before_start", Some(3600), "hour {id}")]);
    let mut history = HistoryStore::new();
    let messages = ReminderService::check_and_notify(NOW, &todos, &cfg, &mut history);
    assert_eq!(messages, vec!["hour 7".to_string()]);
}

#[test]
fn overdue_has_no_upper_bound() {
    let todos = vec![task(9, "old", false, NOW - 400 * 86400)];
    let cfg = config(true, standard_rules());
    let mut history = HistoryStore::new();
    let first = ReminderService::check_and_notify(NOW, &todos, &cfg, &mut history);
    assert_eq!(first, vec!["over old 9".to_string()]);
    let second = ReminderService::check_and_notify(NOW, &todos, &cfg, &mut history);
    assert!(second.is_empty());
}

#[test]
fn completed_tasks_are_excluded() {
    let todos = vec![task(4, "done", true, NOW - 86400)];
    let cfg = config(true, standard_rules());
    let mut history = HistoryStore::new();
    let messages = ReminderService::check_and_notify(NOW, &todos, &cfg, &mut history);
    assert!(messages.is_empty());
    assert_eq!(history.entry_count(), 0);
}

#[test]
fn disabled_config_short_circuits_with_zero_writes() {
    let todos = vec![task(1, "due", false, NOW - 10), task(2, "soon", false, NOW + 60)];
    let cfg = config(false, standard_rules());
    let mut history = HistoryStore::new();
    let writes_before = history.entry_count();
    let messages = ReminderService::check_and_notify(NOW, &todos, &cfg, &mut history);
    assert!(messages.is_empty());
    assert_eq!(history.entry_count(), writes_before);
}

#[test]
fn unrecognized_rule_never_fires() {
    let cfg = config(true, vec![rule("before_start", Some(999), "odd {id}")]);
    for begin in [NOW - 1000, NOW + 500, NOW + 999, NOW + 86400] {
        let todos = vec![task(1, "t", false, begin)];
        let mut history = HistoryStore::new();
        let messages = ReminderService::check_and_notify(NOW, &todos, &cfg, &mut history);
        assert!(messages.is_empty());
        assert_eq!(history.entry_count(), 0);
    }
}

#[test]
fn unknown_rule_type_never_fires() {
    let cfg = config(true, vec![rule("after_end", Some(86400), "odd {id}")]);
    let todos = vec![task(1, "t", false, NOW - 5)];
    let mut history = HistoryStore::new();
    let messages = ReminderService::check_and_notify(NOW, &todos, &cfg, &mut history);
    assert!(messages.is_empty());
}

#[test]
fn messages_come_in_task_then_rule_order() {
    let todos = vec![task(1, "a", false, NOW + 1800), task(2, "b", false, NOW + 1800)];
    let cfg = config(true, standard_rules());
    let mut history = HistoryStore::new();
    let messages = ReminderService::check_and_notify(NOW, &todos, &cfg, &mut history);
    // Each task is within both the one-day and the one-hour window.
    assert_eq!(
        messages,
        vec![
            "day a 1".to_string(),
            "hour a 1".to_string(),
            "day b 2".to_string(),
            "hour b 2".to_string(),
        ]
    );
}

#[test]
fn duplicate_rules_fire_once_per_identity() {
    let todos = vec![task(3, "x", false, NOW - 30)];
    let cfg = config(
        true,
        vec![rule("overdue", None, "first {id}"), rule("overdue", None, "second {id}")],
    );
    let mut history = HistoryStore::new();
    let messages = ReminderService::check_and_notify(NOW, &todos, &cfg, &mut history);
    assert_eq!(messages, vec!["first 3".to_string()]);
    assert_eq!(history.entry_count(), 1);
}

#[test]
fn history_suppresses_previously_fired_pairs_only() {
    let todos = vec![task(1, "a", false, NOW - 10), task(2, "b", false, NOW - 10)];
    let cfg = config(true, vec![rule("overdue", None, "over {id}")]);
    let mut history = HistoryStore::new();
    // Task 1 is already on record as notified.
    history.record_fired(1, ReminderType::Overdue, NOW - 500);
    let messages = ReminderService::check_and_notify(NOW, &todos, &cfg, &mut history);
    assert_eq!(messages, vec!["over 2".to_string()]);
}

#[test]
fn check_rule_records_before_reporting() {
    let t = task(5, "t", false, NOW - 1);
    let r = rule("overdue", None, "over {id}");
    let mut history = HistoryStore::new();
    let fired = ReminderService::check_rule(&t, NOW, &r, &mut history);
    assert_eq!(fired, Some("over 5".to_string()));
    assert_eq!(history.entry_count(), 1);
    let entry = history.entries()[0];
    assert_eq!(entry.todo_id, 5);
    assert_eq!(entry.reminder_time, NOW);
    assert_eq!(entry.reminder_type, ReminderType::Overdue);
    let again = ReminderService::check_rule(&t, NOW, &r, &mut history);
    assert_eq!(again, None);
    assert_eq!(history.entry_count(), 1);
}

#[test]
fn one_history_entry_per_message() {
    let todos = vec![
        task(1, "a", false, NOW - 50),
        task(2, "b", false, NOW + 1800),
        task(3, "c", true, NOW - 50),
    ];
    let cfg = config(true, standard_rules());
    let mut history = HistoryStore::new();
    let before = history.entry_count();
    let messages = ReminderService::check_and_notify(NOW, &todos, &cfg, &mut history);
    assert_eq!(history.entry_count(), before + messages.len());
}

#[test]
fn check_now_with_disabled_config_is_silent() {
    let todos = vec![task(1, "due", false, 0)];
    let cfg = config(false, standard_rules());
    let mut history = HistoryStore::new();
    let messages = ReminderService::check_now(&todos, &cfg, &mut history);
    assert!(messages.is_empty());
    assert_eq!(history.entry_count(), 0);
}

#[test]
fn check_now_with_no_tasks_is_silent() {
    let todos: Vec<TodoListForm> = vec![];
    let cfg = config(true, standard_rules());
    let mut history = HistoryStore::new();
    let messages = ReminderService::check_now(&todos, &cfg, &mut history);
    assert!(messages.is_empty());
    assert_eq!(history.entry_count(), 0);
}

#[test]
fn classify_rule_maps_the_three_identities() {
    assert_eq!(
        classify_rule(&rule("before_start", Some(86400), "")),
        Some(ReminderType::OneDayBefore)
    );
    assert_eq!(
        classify_rule(&rule("before_start", Some(3600), "")),
        Some(ReminderType::OneHourBefore)
    );
    assert_eq!(classify_rule(&rule("overdue", None, "")), Some(ReminderType::Overdue));
    assert_eq!(classify_rule(&rule("before_start", Some(999), "")), None);
    assert_eq!(classify_rule(&rule("before_start", None, "")), None);
    assert_eq!(classify_rule(&rule("", Some(86400), "")), None);
}

#[test]
fn due_at_windows() {
    assert!(due_at(ReminderType::OneDayBefore, NOW + 1, NOW));
    assert!(due_at(ReminderType::OneDayBefore, NOW + 86400, NOW));
    assert!(!due_at(ReminderType::OneDayBefore, NOW, NOW));
    assert!(!due_at(ReminderType::OneDayBefore, NOW + 86401, NOW));
    assert!(due_at(ReminderType::OneHourBefore, NOW + 3600, NOW));
    assert!(!due_at(ReminderType::OneHourBefore, NOW + 3601, NOW));
    assert!(due_at(ReminderType::Overdue, NOW - 1, NOW));
    assert!(due_at(ReminderType::Overdue, i64::MIN, NOW));
    assert!(!due_at(ReminderType::Overdue, NOW, NOW));
    assert!(!due_at(ReminderType::Overdue, NOW + 1, NOW));
}
