//! The reminder configuration model: rule definitions, the master switch,
//! and the documented defaults.

use vstd::prelude::*;
use vstd::string::StringExecFns;

verus! {

/// One reminder rule. `rule_type` selects the condition kind
/// (`before_start` or `overdue`); `seconds_before` is read only for
/// `before_start` rules; `message_template` may hold the placeholders
/// `{title}` and `{id}`.
#[derive(Clone, Debug)]
pub struct ReminderRule {
    pub rule_type: String,
    pub seconds_before: Option<i64>,
    pub message_template: String,
}

/// The reminder configuration consumed by one evaluation pass. Loaded by the
/// caller; the engine never mutates it.
#[derive(Clone, Debug)]
pub struct ReminderConfig {
    pub enabled: bool,
    pub check_interval_minutes: u32,
    pub notification_type: String,
    pub rules: Vec<ReminderRule>,
}

/// The documented default configuration: enabled, console delivery, hourly
/// checks, and three rules — one day before, one hour before, overdue.
pub open spec fn is_default_reminder_config(c: ReminderConfig) -> bool {
    &&& c.enabled == true
    &&& c.check_interval_minutes == 60
    &&& c.notification_type@ == "console"@
    &&& c.rules@.len() == 3
    &&& c.rules@[0].rule_type@ == "before_start"@
    &&& c.rules@[0].seconds_before == Some(86400i64)
    &&& c.rules@[0].message_template@ == "Task {title} (ID:{id}) starts within 1 day"@
    &&& c.rules@[1].rule_type@ == "before_start"@
    &&& c.rules@[1].seconds_before == Some(3600i64)
    &&& c.rules@[1].message_template@ == "Task {title} (ID:{id}) starts within 1 hour"@
    &&& c.rules@[2].rule_type@ == "overdue"@
    &&& c.rules@[2].seconds_before == None::<i64>
    &&& c.rules@[2].message_template@ == "Task {title} (ID:{id}) is past its start time"@
}

impl Default for ReminderConfig {
    /// The default configuration, used whenever none is stored.
    fn default() -> (r: Self)
        ensures
            is_default_reminder_config(r),
    {
        let mut rules: Vec<ReminderRule> = Vec::new();
        rules.push(
            ReminderRule {
                rule_type: String::from_str("before_start"),
                seconds_before: Some(86400),
                message_template: String::from_str("Task {title} (ID:{id}) starts within 1 day"),
            },
        );
        rules.push(
            ReminderRule {
                rule_type: String::from_str("before_start"),
                seconds_before: Some(3600),
                message_template: String::from_str("Task {title} (ID:{id}) starts within 1 hour"),
            },
        );
        rules.push(
            ReminderRule {
                rule_type: String::from_str("overdue"),
                seconds_before: None,
                message_template: String::from_str("Task {title} (ID:{id}) is past its start time"),
            },
        );
        ReminderConfig {
            enabled: true,
            check_interval_minutes: 60,
            notification_type: String::from_str("console"),
            rules,
        }
    }
}

/// The whole stored configuration value: the active console mode plus the
/// reminder section.
#[derive(Clone, Debug)]
pub struct JsonDataContent {
    pub mode: String,
    pub reminder: ReminderConfig,
}

impl JsonDataContent {
    /// The default stored value: memo mode with the default reminders.
    pub fn default() -> (r: Self)
        ensures
            r.mode@ == "memo"@,
            is_default_reminder_config(r.reminder),
    {
        JsonDataContent { mode: String::from_str("memo"), reminder: ReminderConfig::default() }
    }
}

/// The check interval the settings dialog accepts: 1 to 1440 minutes.
/// Anything absent or out of range falls back to 15.
pub fn sanitize_interval(parsed: Option<u32>) -> (r: u32)
    ensures
        r == (match parsed {
            Some(v) => if 1 <= v && v <= 1440 {
                v
            } else {
                15u32
            },
            None => 15u32,
        }),
{
    match parsed {
        Some(v) => if 1 <= v && v <= 1440 {
            v
        } else {
            15
        },
        None => 15,
    }
}

} // verus!
