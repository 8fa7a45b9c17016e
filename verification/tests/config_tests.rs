use todo_reminder::config::{sanitize_interval, JsonDataContent, ReminderConfig};
use todo_reminder::modes::{get_available_modes, is_valid_mode};
use todo_reminder::notify::Notifier;
use todo_reminder::reminder::ReminderType;

#[test]
fn default_config_shape() {
    let c = ReminderConfig::default();
    assert!(c.enabled);
    assert_eq!(c.check_interval_minutes, 60);
    assert_eq!(c.notification_type, "console");
    assert_eq!(c.rules.len(), 3);
    assert_eq!(c.rules[0].rule_type, "before_start");
    assert_eq!(c.rules[0].seconds_before, Some(86400));
    assert!(c.rules[0].message_template.contains("{title}"));
    assert!(c.rules[0].message_template.contains("{id}"));
    assert_eq!(c.rules[1].rule_type, "before_start");
    assert_eq!(c.rules[1].seconds_before, Some(3600));
    assert!(c.rules[1].message_template.contains("{title}"));
    assert_eq!(c.rules[2].rule_type, "overdue");
    assert_eq!(c.rules[2].seconds_before, None);
    assert!(c.rules[2].message_template.contains("{id}"));
}

#[test]
fn default_json_content() {
    let d = JsonDataContent::default();
    assert_eq!(d.mode, "memo");
    assert!(d.reminder.enabled);
    assert_eq!(d.reminder.rules.len(), 3);
}

#[test]
fn sanitize_interval_accepts_range_and_falls_back() {
    assert_eq!(sanitize_interval(Some(1)), 1);
    assert_eq!(sanitize_interval(Some(15)), 15);
    assert_eq!(sanitize_interval(Some(1440)), 1440);
    assert_eq!(sanitize_interval(Some(0)), 15);
    assert_eq!(sanitize_interval(Some(1441)), 15);
    assert_eq!(sanitize_interval(None), 15);
}

#[test]
fn reminder_type_tags_round_trip() {
    for t in [ReminderType::OneDayBefore, ReminderType::OneHourBefore, ReminderType::Overdue] {
        let tag = t.to_string();
        assert_eq!(ReminderType::from_string(&tag), Some(t));
    }
    assert_eq!(ReminderType::OneDayBefore.to_string(), "1_day_before");
    assert_eq!(ReminderType::OneHourBefore.to_string(), "1_hour_before");
    assert_eq!(ReminderType::Overdue.to_string(), "overdue");
    assert_eq!(ReminderType::from_string("unknown"), None);
    assert_eq!(ReminderType::from_string(""), None);
}

#[test]
fn valid_modes() {
    assert!(is_valid_mode("memo"));
    assert!(is_valid_mode("review"));
    assert!(!is_valid_mode("reminder"));
    assert!(!is_valid_mode(""));
    assert!(!is_valid_mode("Memo"));
    let modes = get_available_modes();
    assert_eq!(modes, vec!["memo".to_string(), "review".to_string()]);
}

#[test]
fn notification_channels() {
    assert_eq!(Notifier::channels("console"), (true, false));
    assert_eq!(Notifier::channels("windows"), (false, true));
    assert_eq!(Notifier::channels("both"), (true, true));
    assert_eq!(Notifier::channels("anything-else"), (true, false));
    assert_eq!(Notifier::channels(""), (true, false));
}
