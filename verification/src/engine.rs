//! The reminder evaluation engine: rule classification, due conditions, and
//! the evaluation pass that fires each (task, identity) pair at most once.

use vstd::prelude::*;

use crate::config::{ReminderConfig, ReminderRule};
use crate::reminder::{spec_fired, HistoryEntry, HistoryStore, ReminderType};
use crate::render::{render, render_spec};
use crate::task::TodoListForm;

verus! {

/// Which identity a rule denotes: `before_start` with exactly 86400 or 3600
/// seconds, or `overdue`. Every other combination is inert.
pub open spec fn spec_classify(rule: ReminderRule) -> Option<ReminderType> {
    if rule.rule_type@ == "before_start"@ {
        if rule.seconds_before == Some(86400i64) {
            Some(ReminderType::OneDayBefore)
        } else if rule.seconds_before == Some(3600i64) {
            Some(ReminderType::OneHourBefore)
        } else {
            None
        }
    } else if rule.rule_type@ == "overdue"@ {
        Some(ReminderType::Overdue)
    } else {
        None
    }
}

/// Classifies a rule into its canonical identity. An unrecognized
/// combination yields `None`: the rule is silently skipped, not an error.
pub fn classify_rule(rule: &ReminderRule) -> (r: Option<ReminderType>)
    ensures
        r == spec_classify(*rule),
{
    if crate::render::str_eq(rule.rule_type.as_str(), "before_start") {
        match rule.seconds_before {
            Some(s) => {
                if s == 86400 {
                    Some(ReminderType::OneDayBefore)
                } else if s == 3600 {
                    Some(ReminderType::OneHourBefore)
                } else {
                    None
                }
            },
            None => None,
        }
    } else if crate::render::str_eq(rule.rule_type.as_str(), "overdue") {
        Some(ReminderType::Overdue)
    } else {
        None
    }
}

/// When a reminder of the given identity is due: within one day (inclusive)
/// before the start, within one hour (inclusive) before the start, or any
/// time strictly after the start, with no upper bound.
pub open spec fn spec_due(identity: ReminderType, begin_time: int, now: int) -> bool {
    match identity {
        ReminderType::OneDayBefore => 0 < begin_time - now <= 86400,
        ReminderType::OneHourBefore => 0 < begin_time - now <= 3600,
        ReminderType::Overdue => begin_time < now,
    }
}

/// Evaluates the due condition for one identity against the task's start
/// instant and the current instant.
pub fn due_at(identity: ReminderType, begin_time: i64, now: i64) -> (r: bool)
    ensures
        r == spec_due(identity, begin_time as int, now as int),
{
    let diff: i128 = begin_time as i128 - now as i128;
    match identity {
        ReminderType::OneDayBefore => 0 < diff && diff <= 86400,
        ReminderType::OneHourBefore => 0 < diff && diff <= 3600,
        ReminderType::Overdue => begin_time < now,
    }
}

/// What one (task, rule) pair contributes to a pass at instant `now`: at
/// most one rendered message, with the history entry recorded exactly when
/// the message is emitted.
pub open spec fn spec_step(
    task: TodoListForm,
    rule: ReminderRule,
    now: i64,
    hist: Seq<HistoryEntry>,
) -> (Seq<Seq<char>>, Seq<HistoryEntry>) {
    match spec_classify(rule) {
        None => (Seq::empty(), hist),
        Some(identity) => {
            if spec_due(identity, task.begin_time as int, now as int) && !spec_fired(
                hist,
                task.id as int,
                identity,
            ) {
                (
                    seq![render_spec(rule.message_template@, task.title@, task.id as int)],
                    hist.push(
                        HistoryEntry {
                            todo_id: task.id,
                            reminder_time: now,
                            reminder_type: identity,
                        },
                    ),
                )
            } else {
                (Seq::empty(), hist)
            }
        },
    }
}

/// One task evaluated against a list of rules, in list order.
pub open spec fn spec_eval_rules(
    task: TodoListForm,
    rules: Seq<ReminderRule>,
    now: i64,
    hist: Seq<HistoryEntry>,
) -> (Seq<Seq<char>>, Seq<HistoryEntry>)
    decreases rules.len(),
{
    if rules.len() == 0 {
        (Seq::empty(), hist)
    } else {
        let sm = spec_step(task, rules[0], now, hist);
        let rest = spec_eval_rules(task, rules.skip(1), now, sm.1);
        (sm.0 + rest.0, rest.1)
    }
}

/// A task list evaluated in order; completed tasks contribute nothing.
pub open spec fn spec_eval_tasks(
    tasks: Seq<TodoListForm>,
    rules: Seq<ReminderRule>,
    now: i64,
    hist: Seq<HistoryEntry>,
) -> (Seq<Seq<char>>, Seq<HistoryEntry>)
    decreases tasks.len(),
{
    if tasks.len() == 0 {
        (Seq::empty(), hist)
    } else if tasks[0].completed {
        spec_eval_tasks(tasks.skip(1), rules, now, hist)
    } else {
        let tm = spec_eval_rules(tasks[0], rules, now, hist);
        let rest = spec_eval_tasks(tasks.skip(1), rules, now, tm.1);
        (tm.0 + rest.0, rest.1)
    }
}

/// One whole evaluation pass: the rendered messages in task-then-rule order
/// and the history afterwards. A disabled configuration yields no messages
/// and leaves the history untouched.
pub open spec fn spec_evaluate(
    now: i64,
    tasks: Seq<TodoListForm>,
    config: ReminderConfig,
    hist: Seq<HistoryEntry>,
) -> (Seq<Seq<char>>, Seq<HistoryEntry>) {
    if !config.enabled {
        (Seq::empty(), hist)
    } else {
        spec_eval_tasks(tasks, config.rules@, now, hist)
    }
}

/// Relies on std's `SystemTime::now` for the machine clock's current
/// instant, as Unix seconds. The read is total: a clock before the epoch
/// yields 0, and an instant beyond `i64` seconds saturates. Nothing can be
/// promised of the value.
#[verifier::external_body]
fn now_unix_seconds() -> i64 {
    match std::time::SystemTime::now().duration_since(std::time::UNIX_EPOCH) {
        Ok(d) => i64::try_from(d.as_secs()).unwrap_or(i64::MAX),
        Err(_) => 0,
    }
}

/// The reminder evaluation service.
pub struct ReminderService;

impl ReminderService {
    /// Checks one rule against one task at instant `now`. If the rule's
    /// identity is due and the history holds no entry for the pair yet, the
    /// firing goes into the history before the message text comes back;
    /// otherwise the history stays as it was and nothing comes back.
    pub fn check_rule(
        todo: &TodoListForm,
        now: i64,
        rule: &ReminderRule,
        history: &mut HistoryStore,
    ) -> (r: Option<String>)
        ensures
            ({
                let sm = spec_step(*todo, *rule, now, old(history)@);
                &&& final(history)@ == sm.1
                &&& (match r {
                    Some(m) => sm.0 == seq![m@],
                    None => sm.0 == Seq::<Seq<char>>::empty(),
                })
            }),
    {
        match classify_rule(rule) {
            None => None,
            Some(identity) => {
                let is_due = due_at(identity, todo.begin_time, now);
                if is_due && !history.has_fired(todo.id, identity) {
                    history.record_fired(todo.id, identity, now);
                    let message = render(
                        rule.message_template.as_str(),
                        todo.title.as_str(),
                        todo.id,
                    );
                    Some(message)
                } else {
                    None
                }
            },
        }
    }

    /// One evaluation pass over every task and every configured rule, in
    /// order. Returns the rendered messages of the newly fired reminders;
    /// each firing is recorded in `history` before its message is emitted,
    /// so a pair already on record is never emitted again.
    #[verifier::loop_isolation(false)]
    pub fn check_and_notify(
        now: i64,
        todos: &Vec<TodoListForm>,
        config: &ReminderConfig,
        history: &mut HistoryStore,
    ) -> (r: Vec<String>)
        ensures
            ({
                let ev = spec_evaluate(now, todos@, *config, old(history)@);
                &&& r.deep_view() == ev.0
                &&& final(history)@ == ev.1
            }),
    {
        let mut notifications: Vec<String> = Vec::new();
        proof {
            assert(notifications.deep_view() =~= Seq::<Seq<char>>::empty());
        }
        if !config.enabled {
            return notifications;
        }
        let ghost h0 = history@;
        let ghost rules_g = config.rules@;
        let mut ti: usize = 0;
        proof {
            assert(todos@.skip(0) =~= todos@);
            assert(Seq::<Seq<char>>::empty() + spec_eval_tasks(todos@, rules_g, now, h0).0
                =~= spec_eval_tasks(todos@, rules_g, now, h0).0);
        }
        while ti < todos.len()
            invariant
                ti <= todos@.len(),
                rules_g == config.rules@,
                spec_eval_tasks(todos@, rules_g, now, h0).0 == notifications.deep_view()
                    + spec_eval_tasks(todos@.skip(ti as int), rules_g, now, history@).0,
                spec_eval_tasks(todos@, rules_g, now, h0).1 == spec_eval_tasks(
                    todos@.skip(ti as int),
                    rules_g,
                    now,
                    history@,
                ).1,
            decreases todos@.len() - ti,
        {
            proof {
                let rest = todos@.skip(ti as int);
                assert(rest[0] == todos@[ti as int]);
                assert(rest.skip(1) =~= todos@.skip(ti + 1));
            }
            let task = &todos[ti];
            if !task.completed {
                let ghost h_t = history@;
                let ghost n_t = notifications.deep_view();
                let ghost tr_full = spec_eval_rules(todos@[ti as int], rules_g, now, h_t);
                let mut ri: usize = 0;
                proof {
                    assert(rules_g.skip(0) =~= rules_g);
                    assert(n_t + Seq::<Seq<char>>::empty() =~= n_t);
                    assert(notifications.deep_view() =~= n_t + Seq::<Seq<char>>::empty());
                }
                while ri < config.rules.len()
                    invariant
                        ri <= rules_g.len(),
                        rules_g == config.rules@,
                        tr_full == spec_eval_rules(todos@[ti as int], rules_g, now, h_t),
                        notifications.deep_view() == n_t + tr_full.0.take(
                            notifications.deep_view().len() - n_t.len(),
                        ),
                        notifications.deep_view().len() >= n_t.len(),
                        tr_full.0 == notifications.deep_view().skip(n_t.len() as int)
                            + spec_eval_rules(
                            todos@[ti as int],
                            rules_g.skip(ri as int),
                            now,
                            history@,
                        ).0,
                        tr_full.1 == spec_eval_rules(
                            todos@[ti as int],
                            rules_g.skip(ri as int),
                            now,
                            history@,
                        ).1,
                    decreases rules_g.len() - ri,
                {
                    proof {
                        let rrest = rules_g.skip(ri as int);
                        assert(rrest[0] == rules_g[ri as int]);
                        assert(rrest.skip(1) =~= rules_g.skip(ri + 1));
                    }
                    let ghost pre_h = history@;
                    let ghost pre_n = notifications.deep_view();
                    let rule = &config.rules[ri];
                    let fired = Self::check_rule(task, now, rule, history);
                    proof {
                        assert(todos@[ti as int] == *task);
                        assert(rules_g[ri as int] == *rule);
                    }
                    match fired {
                        Some(message) => {
                            let ghost mview = message@;
                            notifications.push(message);
                            proof {
                                assert(notifications.deep_view() =~= pre_n.push(mview));
                                assert(pre_n.push(mview).skip(n_t.len() as int) =~= pre_n.skip(
                                    n_t.len() as int,
                                ).push(mview));
                                assert(pre_n.skip(n_t.len() as int) + seq![mview]
                                    =~= pre_n.skip(n_t.len() as int).push(mview));
                                assert(tr_full.0 == notifications.deep_view().skip(
                                    n_t.len() as int,
                                ) + spec_eval_rules(
                                    todos@[ti as int],
                                    rules_g.skip(ri + 1),
                                    now,
                                    history@,
                                ).0) by {
                                    assert(pre_n.skip(n_t.len() as int) + (seq![mview]
                                        + spec_eval_rules(
                                        todos@[ti as int],
                                        rules_g.skip(ri + 1),
                                        now,
                                        history@,
                                    ).0) =~= (pre_n.skip(n_t.len() as int) + seq![mview])
                                        + spec_eval_rules(
                                        todos@[ti as int],
                                        rules_g.skip(ri + 1),
                                        now,
                                        history@,
                                    ).0);
                                }
                                assert(notifications.deep_view() =~= n_t + tr_full.0.take(
                                    notifications.deep_view().len() - n_t.len(),
                                ));
                            }
                        },
                        None => {
                            proof {
                                assert(Seq::<Seq<char>>::empty() + spec_eval_rules(
                                    todos@[ti as int],
                                    rules_g.skip(ri + 1),
                                    now,
                                    history@,
                                ).0 =~= spec_eval_rules(
                                    todos@[ti as int],
                                    rules_g.skip(ri + 1),
                                    now,
                                    history@,
                                ).0);
                            }
                        },
                    }
                    ri += 1;
                }
                proof {
                    assert(rules_g.skip(ri as int) =~= Seq::<ReminderRule>::empty());
                    assert(spec_eval_rules(
                        todos@[ti as int],
                        rules_g.skip(ri as int),
                        now,
                        history@,
                    ).0 =~= Seq::<Seq<char>>::empty());
                    assert(tr_full.0 =~= notifications.deep_view().skip(n_t.len() as int));
                    assert(notifications.deep_view() =~= n_t + tr_full.0);
                    // One task finished: its contribution is exactly
                    // spec_eval_rules over the whole rule list.
                    let rest = todos@.skip(ti as int);
                    assert(spec_eval_tasks(rest, rules_g, now, h_t).0 == tr_full.0
                        + spec_eval_tasks(todos@.skip(ti + 1), rules_g, now, tr_full.1).0);
                    assert(spec_eval_tasks(todos@, rules_g, now, h0).0 == notifications.deep_view()
                        + spec_eval_tasks(todos@.skip(ti + 1), rules_g, now, history@).0) by {
                        assert((n_t + tr_full.0) + spec_eval_tasks(
                            todos@.skip(ti + 1),
                            rules_g,
                            now,
                            history@,
                        ).0 =~= n_t + (tr_full.0 + spec_eval_tasks(
                            todos@.skip(ti + 1),
                            rules_g,
                            now,
                            history@,
                        ).0));
                    }
                }
            }
            ti += 1;
        }
        proof {
            assert(todos@.skip(ti as int) =~= Seq::<TodoListForm>::empty());
            assert(notifications.deep_view() + Seq::<Seq<char>>::empty()
                =~= notifications.deep_view());
        }
        notifications
    }

    /// One evaluation pass at the machine clock's current instant. Apart
    /// from the choice of instant this behaves exactly like
    /// `check_and_notify`.
    pub fn check_now(
        todos: &Vec<TodoListForm>,
        config: &ReminderConfig,
        history: &mut HistoryStore,
    ) -> (r: Vec<String>)
        ensures
            exists|now: i64|
                #![trigger spec_evaluate(now, todos@, *config, old(history)@)]
                {
                    &&& r.deep_view() == spec_evaluate(now, todos@, *config, old(history)@).0
                    &&& final(history)@ == spec_evaluate(now, todos@, *config, old(history)@).1
                },
    {
        let now = now_unix_seconds();
        let r = Self::check_and_notify(now, todos, config, history);
        proof {
            assert(r.deep_view() == spec_evaluate(now, todos@, *config, old(history)@).0
                && history@ == spec_evaluate(now, todos@, *config, old(history)@).1);
        }
        r
    }
}

} // verus!
