//! Properties of the evaluation pass, proved once and for all inputs:
//! idempotence of evaluation against a shared history, exclusion of
//! completed tasks, and inertness of unrecognized rules.

use vstd::prelude::*;

use crate::config::{ReminderConfig, ReminderRule};
use crate::engine::{
    spec_classify, spec_due, spec_eval_rules, spec_eval_tasks, spec_evaluate, spec_step,
};
use crate::reminder::{spec_fired, HistoryEntry, ReminderType};
use crate::task::TodoListForm;

verus! {

/// `h1` is what `h2` begins with.
spec fn spec_prefix_of(h1: Seq<HistoryEntry>, h2: Seq<HistoryEntry>) -> bool {
    h1.len() <= h2.len() && h2.take(h1.len() as int) == h1
}

/// The (task, rule) pair cannot fire against `hist`: either the rule is
/// inert, or its identity is not due, or the pair is already on record.
spec fn spec_pair_fired(
    task: TodoListForm,
    rule: ReminderRule,
    now: i64,
    hist: Seq<HistoryEntry>,
) -> bool {
    match spec_classify(rule) {
        Some(identity) => spec_due(identity, task.begin_time as int, now as int)
            ==> spec_fired(hist, task.id as int, identity),
        None => true,
    }
}

/// No rule can fire for `task` against `hist`.
spec fn spec_rules_fired(
    task: TodoListForm,
    rules: Seq<ReminderRule>,
    now: i64,
    hist: Seq<HistoryEntry>,
) -> bool {
    forall|j: int| 0 <= j < rules.len() ==> #[trigger] spec_pair_fired(task, rules[j], now, hist)
}

/// No (open task, rule) pair can fire against `hist`.
spec fn spec_all_fired(
    tasks: Seq<TodoListForm>,
    rules: Seq<ReminderRule>,
    now: i64,
    hist: Seq<HistoryEntry>,
) -> bool {
    forall|i: int, j: int|
        0 <= i < tasks.len() && 0 <= j < rules.len() && !tasks[i].completed
            ==> #[trigger] spec_pair_fired(tasks[i], rules[j], now, hist)
}

proof fn lemma_prefix_refl(h: Seq<HistoryEntry>)
    ensures
        spec_prefix_of(h, h),
{
    assert(h.take(h.len() as int) =~= h);
}

proof fn lemma_prefix_trans(h1: Seq<HistoryEntry>, h2: Seq<HistoryEntry>, h3: Seq<HistoryEntry>)
    requires
        spec_prefix_of(h1, h2),
        spec_prefix_of(h2, h3),
    ensures
        spec_prefix_of(h1, h3),
{
    assert(h3.take(h1.len() as int) =~= h1);
}

proof fn lemma_fired_prefix(
    h1: Seq<HistoryEntry>,
    h2: Seq<HistoryEntry>,
    todo_id: int,
    identity: ReminderType,
)
    requires
        spec_prefix_of(h1, h2),
        spec_fired(h1, todo_id, identity),
    ensures
        spec_fired(h2, todo_id, identity),
{
    let k = choose|k: int|
        0 <= k < h1.len() && h1[k].todo_id == todo_id && h1[k].reminder_type == identity;
    assert(h2.take(h1.len() as int)[k] == h2[k]);
    assert(h2[k].todo_id == todo_id && h2[k].reminder_type == identity);
}

proof fn lemma_pair_fired_prefix(
    task: TodoListForm,
    rule: ReminderRule,
    now: i64,
    h1: Seq<HistoryEntry>,
    h2: Seq<HistoryEntry>,
)
    requires
        spec_prefix_of(h1, h2),
        spec_pair_fired(task, rule, now, h1),
    ensures
        spec_pair_fired(task, rule, now, h2),
{
    match spec_classify(rule) {
        Some(identity) => {
            if spec_due(identity, task.begin_time as int, now as int) {
                lemma_fired_prefix(h1, h2, task.id as int, identity);
            }
        },
        None => {},
    }
}

proof fn lemma_step_prefix(
    task: TodoListForm,
    rule: ReminderRule,
    now: i64,
    hist: Seq<HistoryEntry>,
)
    ensures
        spec_prefix_of(hist, spec_step(task, rule, now, hist).1),
{
    let h2 = spec_step(task, rule, now, hist).1;
    assert(h2.take(hist.len() as int) =~= hist);
}

proof fn lemma_eval_rules_prefix(
    task: TodoListForm,
    rules: Seq<ReminderRule>,
    now: i64,
    hist: Seq<HistoryEntry>,
)
    ensures
        spec_prefix_of(hist, spec_eval_rules(task, rules, now, hist).1),
    decreases rules.len(),
{
    if rules.len() == 0 {
        lemma_prefix_refl(hist);
    } else {
        let sm = spec_step(task, rules[0], now, hist);
        lemma_step_prefix(task, rules[0], now, hist);
        lemma_eval_rules_prefix(task, rules.skip(1), now, sm.1);
        lemma_prefix_trans(hist, sm.1, spec_eval_rules(task, rules.skip(1), now, sm.1).1);
    }
}

proof fn lemma_eval_tasks_prefix(
    tasks: Seq<TodoListForm>,
    rules: Seq<ReminderRule>,
    now: i64,
    hist: Seq<HistoryEntry>,
)
    ensures
        spec_prefix_of(hist, spec_eval_tasks(tasks, rules, now, hist).1),
    decreases tasks.len(),
{
    if tasks.len() == 0 {
        lemma_prefix_refl(hist);
    } else if tasks[0].completed {
        lemma_eval_tasks_prefix(tasks.skip(1), rules, now, hist);
    } else {
        let tm = spec_eval_rules(tasks[0], rules, now, hist);
        lemma_eval_rules_prefix(tasks[0], rules, now, hist);
        lemma_eval_tasks_prefix(tasks.skip(1), rules, now, tm.1);
        lemma_prefix_trans(hist, tm.1, spec_eval_tasks(tasks.skip(1), rules, now, tm.1).1);
    }
}

proof fn lemma_step_fires(
    task: TodoListForm,
    rule: ReminderRule,
    now: i64,
    hist: Seq<HistoryEntry>,
)
    ensures
        spec_pair_fired(task, rule, now, spec_step(task, rule, now, hist).1),
{
    match spec_classify(rule) {
        Some(identity) => {
            if spec_due(identity, task.begin_time as int, now as int) {
                if spec_fired(hist, task.id as int, identity) {
                    assert(spec_step(task, rule, now, hist).1 == hist);
                } else {
                    let h2 = spec_step(task, rule, now, hist).1;
                    assert(h2[hist.len() as int].todo_id == task.id);
                    assert(h2[hist.len() as int].reminder_type == identity);
                }
            }
        },
        None => {},
    }
}

proof fn lemma_eval_rules_fires(
    task: TodoListForm,
    rules: Seq<ReminderRule>,
    now: i64,
    hist: Seq<HistoryEntry>,
)
    ensures
        spec_rules_fired(task, rules, now, spec_eval_rules(task, rules, now, hist).1),
    decreases rules.len(),
{
    if rules.len() > 0 {
        let sm = spec_step(task, rules[0], now, hist);
        let h2 = spec_eval_rules(task, rules.skip(1), now, sm.1).1;
        lemma_step_fires(task, rules[0], now, hist);
        lemma_eval_rules_prefix(task, rules.skip(1), now, sm.1);
        lemma_eval_rules_fires(task, rules.skip(1), now, sm.1);
        assert forall|j: int| 0 <= j < rules.len() implies #[trigger] spec_pair_fired(
            task,
            rules[j],
            now,
            h2,
        ) by {
            if j == 0 {
                lemma_pair_fired_prefix(task, rules[0], now, sm.1, h2);
            } else {
                assert(rules.skip(1)[j - 1] == rules[j]);
                assert(spec_pair_fired(task, rules.skip(1)[j - 1], now, h2));
            }
        }
    }
}

proof fn lemma_rules_fired_prefix(
    task: TodoListForm,
    rules: Seq<ReminderRule>,
    now: i64,
    h1: Seq<HistoryEntry>,
    h2: Seq<HistoryEntry>,
)
    requires
        spec_prefix_of(h1, h2),
        spec_rules_fired(task, rules, now, h1),
    ensures
        spec_rules_fired(task, rules, now, h2),
{
    assert forall|j: int| 0 <= j < rules.len() implies #[trigger] spec_pair_fired(
        task,
        rules[j],
        now,
        h2,
    ) by {
        assert(spec_pair_fired(task, rules[j], now, h1));
        lemma_pair_fired_prefix(task, rules[j], now, h1, h2);
    }
}

proof fn lemma_eval_tasks_fires(
    tasks: Seq<TodoListForm>,
    rules: Seq<ReminderRule>,
    now: i64,
    hist: Seq<HistoryEntry>,
)
    ensures
        spec_all_fired(tasks, rules, now, spec_eval_tasks(tasks, rules, now, hist).1),
    decreases tasks.len(),
{
    if tasks.len() == 0 {
    } else if tasks[0].completed {
        let h2 = spec_eval_tasks(tasks.skip(1), rules, now, hist).1;
        lemma_eval_tasks_fires(tasks.skip(1), rules, now, hist);
        assert forall|i: int, j: int|
            0 <= i < tasks.len() && 0 <= j < rules.len() && !tasks[i].completed implies #[trigger] spec_pair_fired(
            tasks[i],
            rules[j],
            now,
            h2,
        ) by {
            assert(tasks.skip(1)[i - 1] == tasks[i]);
            assert(spec_pair_fired(tasks.skip(1)[i - 1], rules[j], now, h2));
        }
    } else {
        let tm = spec_eval_rules(tasks[0], rules, now, hist);
        let h2 = spec_eval_tasks(tasks.skip(1), rules, now, tm.1).1;
        lemma_eval_rules_fires(tasks[0], rules, now, hist);
        lemma_eval_tasks_prefix(tasks.skip(1), rules, now, tm.1);
        lemma_rules_fired_prefix(tasks[0], rules, now, tm.1, h2);
        lemma_eval_tasks_fires(tasks.skip(1), rules, now, tm.1);
        assert forall|i: int, j: int|
            0 <= i < tasks.len() && 0 <= j < rules.len() && !tasks[i].completed implies #[trigger] spec_pair_fired(
            tasks[i],
            rules[j],
            now,
            h2,
        ) by {
            if i == 0 {
                assert(spec_rules_fired(tasks[0], rules, now, h2));
                assert(spec_pair_fired(tasks[0], rules[j], now, h2));
            } else {
                assert(tasks.skip(1)[i - 1] == tasks[i]);
                assert(spec_pair_fired(tasks.skip(1)[i - 1], rules[j], now, h2));
            }
        }
    }
}

proof fn lemma_step_noop(task: TodoListForm, rule: ReminderRule, now: i64, hist: Seq<HistoryEntry>)
    requires
        spec_pair_fired(task, rule, now, hist),
    ensures
        spec_step(task, rule, now, hist) == (Seq::<Seq<char>>::empty(), hist),
{
}

proof fn lemma_eval_rules_noop(
    task: TodoListForm,
    rules: Seq<ReminderRule>,
    now: i64,
    hist: Seq<HistoryEntry>,
)
    requires
        spec_rules_fired(task, rules, now, hist),
    ensures
        spec_eval_rules(task, rules, now, hist) == (Seq::<Seq<char>>::empty(), hist),
    decreases rules.len(),
{
    if rules.len() > 0 {
        assert(spec_pair_fired(task, rules[0], now, hist));
        lemma_step_noop(task, rules[0], now, hist);
        assert forall|j: int| 0 <= j < rules.skip(1).len() implies #[trigger] spec_pair_fired(
            task,
            rules.skip(1)[j],
            now,
            hist,
        ) by {
            assert(rules.skip(1)[j] == rules[j + 1]);
            assert(spec_pair_fired(task, rules[j + 1], now, hist));
        }
        lemma_eval_rules_noop(task, rules.skip(1), now, hist);
        assert(spec_eval_rules(task, rules, now, hist).0 =~= Seq::<Seq<char>>::empty());
    }
}

proof fn lemma_eval_tasks_noop(
    tasks: Seq<TodoListForm>,
    rules: Seq<ReminderRule>,
    now: i64,
    hist: Seq<HistoryEntry>,
)
    requires
        spec_all_fired(tasks, rules, now, hist),
    ensures
        spec_eval_tasks(tasks, rules, now, hist) == (Seq::<Seq<char>>::empty(), hist),
    decreases tasks.len(),
{
    if tasks.len() > 0 {
        assert forall|i: int, j: int|
            0 <= i < tasks.skip(1).len() && 0 <= j < rules.len() && !tasks.skip(
                1,
            )[i].completed implies #[trigger] spec_pair_fired(
            tasks.skip(1)[i],
            rules[j],
            now,
            hist,
        ) by {
            assert(tasks.skip(1)[i] == tasks[i + 1]);
            assert(spec_pair_fired(tasks[i + 1], rules[j], now, hist));
        }
        lemma_eval_tasks_noop(tasks.skip(1), rules, now, hist);
        if !tasks[0].completed {
            assert forall|j: int| 0 <= j < rules.len() implies #[trigger] spec_pair_fired(
                tasks[0],
                rules[j],
                now,
                hist,
            ) by {
                assert(spec_pair_fired(tasks[0], rules[j], now, hist));
            }
            lemma_eval_rules_noop(tasks[0], rules, now, hist);
            assert(spec_eval_tasks(tasks, rules, now, hist).0 =~= Seq::<Seq<char>>::empty());
        }
    }
}

/// Law: for a fixed instant, evaluating twice against a shared history
/// yields no messages the second time, and the history settles after the
/// first pass — everything fired once is suppressed from then on.
pub proof fn lemma_evaluate_idempotent(
    now: i64,
    tasks: Seq<TodoListForm>,
    config: ReminderConfig,
    hist: Seq<HistoryEntry>,
)
    ensures
        ({
            let first = spec_evaluate(now, tasks, config, hist);
            let second = spec_evaluate(now, tasks, config, first.1);
            &&& second.0 == Seq::<Seq<char>>::empty()
            &&& second.1 == first.1
        }),
{
    if config.enabled {
        let h1 = spec_eval_tasks(tasks, config.rules@, now, hist).1;
        lemma_eval_tasks_fires(tasks, config.rules@, now, hist);
        lemma_eval_tasks_noop(tasks, config.rules@, now, h1);
    }
}

proof fn lemma_eval_rules_entry_count(
    task: TodoListForm,
    rules: Seq<ReminderRule>,
    now: i64,
    hist: Seq<HistoryEntry>,
)
    ensures
        ({
            let tm = spec_eval_rules(task, rules, now, hist);
            tm.1.len() == hist.len() + tm.0.len()
        }),
    decreases rules.len(),
{
    if rules.len() > 0 {
        let sm = spec_step(task, rules[0], now, hist);
        lemma_eval_rules_entry_count(task, rules.skip(1), now, sm.1);
    }
}

proof fn lemma_eval_tasks_entry_count(
    tasks: Seq<TodoListForm>,
    rules: Seq<ReminderRule>,
    now: i64,
    hist: Seq<HistoryEntry>,
)
    ensures
        ({
            let ev = spec_eval_tasks(tasks, rules, now, hist);
            ev.1.len() == hist.len() + ev.0.len()
        }),
    decreases tasks.len(),
{
    if tasks.len() == 0 {
    } else if tasks[0].completed {
        lemma_eval_tasks_entry_count(tasks.skip(1), rules, now, hist);
    } else {
        let tm = spec_eval_rules(tasks[0], rules, now, hist);
        lemma_eval_rules_entry_count(tasks[0], rules, now, hist);
        lemma_eval_tasks_entry_count(tasks.skip(1), rules, now, tm.1);
    }
}

/// Law: one history entry per message — an evaluation pass appends exactly
/// as many history entries as it emits messages, so a reminder that fires
/// is on record exactly once afterwards.
pub proof fn lemma_one_entry_per_message(
    now: i64,
    tasks: Seq<TodoListForm>,
    config: ReminderConfig,
    hist: Seq<HistoryEntry>,
)
    ensures
        ({
            let ev = spec_evaluate(now, tasks, config, hist);
            ev.1.len() == hist.len() + ev.0.len()
        }),
{
    if config.enabled {
        lemma_eval_tasks_entry_count(tasks, config.rules@, now, hist);
    }
}

/// Law: the overdue condition has no upper bound — any start instant
/// strictly in the past is due, however far back it lies.
pub proof fn lemma_overdue_unbounded(begin_time: int, now: int)
    requires
        begin_time < now,
    ensures
        spec_due(ReminderType::Overdue, begin_time, now),
{
}

/// Law: a disabled configuration short-circuits — the pass yields no
/// messages and writes nothing to the history.
pub proof fn lemma_disabled_config_short_circuits(
    now: i64,
    tasks: Seq<TodoListForm>,
    config: ReminderConfig,
    hist: Seq<HistoryEntry>,
)
    requires
        !config.enabled,
    ensures
        spec_evaluate(now, tasks, config, hist) == (Seq::<Seq<char>>::empty(), hist),
{
}

/// Law: a completed task never contributes a reminder. Removing it from
/// the task list changes neither the messages nor the resulting history.
pub proof fn lemma_completed_task_excluded(
    now: i64,
    tasks: Seq<TodoListForm>,
    i: int,
    config: ReminderConfig,
    hist: Seq<HistoryEntry>,
)
    requires
        0 <= i < tasks.len(),
        tasks[i].completed,
    ensures
        spec_evaluate(now, tasks.remove(i), config, hist) == spec_evaluate(
            now,
            tasks,
            config,
            hist,
        ),
{
    if config.enabled {
        lemma_eval_tasks_remove_completed(tasks, i, config.rules@, now, hist);
    }
}

proof fn lemma_eval_tasks_remove_completed(
    tasks: Seq<TodoListForm>,
    i: int,
    rules: Seq<ReminderRule>,
    now: i64,
    hist: Seq<HistoryEntry>,
)
    requires
        0 <= i < tasks.len(),
        tasks[i].completed,
    ensures
        spec_eval_tasks(tasks.remove(i), rules, now, hist) == spec_eval_tasks(
            tasks,
            rules,
            now,
            hist,
        ),
    decreases tasks.len(),
{
    if i == 0 {
        assert(tasks.remove(0) =~= tasks.skip(1));
    } else {
        let shorter = tasks.skip(1);
        assert(tasks.remove(i)[0] == tasks[0]);
        assert(tasks.remove(i).skip(1) =~= shorter.remove(i - 1));
        if tasks[0].completed {
            lemma_eval_tasks_remove_completed(shorter, i - 1, rules, now, hist);
        } else {
            let tm = spec_eval_rules(tasks[0], rules, now, hist);
            lemma_eval_tasks_remove_completed(shorter, i - 1, rules, now, tm.1);
        }
    }
}

/// Law: a rule whose type and duration match no canonical identity never
/// fires. Removing it from the rule list changes neither the messages nor
/// the resulting history.
pub proof fn lemma_unrecognized_rule_skipped(
    now: i64,
    tasks: Seq<TodoListForm>,
    config: ReminderConfig,
    pruned: ReminderConfig,
    j: int,
    hist: Seq<HistoryEntry>,
)
    requires
        0 <= j < config.rules@.len(),
        spec_classify(config.rules@[j]) is None,
        pruned.enabled == config.enabled,
        pruned.rules@ == config.rules@.remove(j),
    ensures
        spec_evaluate(now, tasks, pruned, hist) == spec_evaluate(now, tasks, config, hist),
{
    if config.enabled {
        lemma_eval_tasks_remove_inert(tasks, config.rules@, j, now, hist);
    }
}

/// A single inert (task, rule) step contributes nothing.
pub proof fn lemma_inert_step(
    task: TodoListForm,
    rule: ReminderRule,
    now: i64,
    hist: Seq<HistoryEntry>,
)
    requires
        spec_classify(rule) is None,
    ensures
        spec_step(task, rule, now, hist) == (Seq::<Seq<char>>::empty(), hist),
{
}

proof fn lemma_eval_rules_remove_inert(
    task: TodoListForm,
    rules: Seq<ReminderRule>,
    j: int,
    now: i64,
    hist: Seq<HistoryEntry>,
)
    requires
        0 <= j < rules.len(),
        spec_classify(rules[j]) is None,
    ensures
        spec_eval_rules(task, rules.remove(j), now, hist) == spec_eval_rules(
            task,
            rules,
            now,
            hist,
        ),
    decreases rules.len(),
{
    if j == 0 {
        assert(rules.remove(0) =~= rules.skip(1));
        lemma_inert_step(task, rules[0], now, hist);
        assert(spec_eval_rules(task, rules, now, hist).0 =~= spec_eval_rules(
            task,
            rules.skip(1),
            now,
            hist,
        ).0);
    } else {
        let shorter = rules.skip(1);
        assert(rules.remove(j)[0] == rules[0]);
        assert(rules.remove(j).skip(1) =~= shorter.remove(j - 1));
        let sm = spec_step(task, rules[0], now, hist);
        lemma_eval_rules_remove_inert(task, shorter, j - 1, now, sm.1);
    }
}

proof fn lemma_eval_tasks_remove_inert(
    tasks: Seq<TodoListForm>,
    rules: Seq<ReminderRule>,
    j: int,
    now: i64,
    hist: Seq<HistoryEntry>,
)
    requires
        0 <= j < rules.len(),
        spec_classify(rules[j]) is None,
    ensures
        spec_eval_tasks(tasks, rules.remove(j), now, hist) == spec_eval_tasks(
            tasks,
            rules,
            now,
            hist,
        ),
    decreases tasks.len(),
{
    if tasks.len() > 0 {
        if tasks[0].completed {
            lemma_eval_tasks_remove_inert(tasks.skip(1), rules, j, now, hist);
        } else {
            lemma_eval_rules_remove_inert(tasks[0], rules, j, now, hist);
            let tm = spec_eval_rules(tasks[0], rules, now, hist);
            lemma_eval_tasks_remove_inert(tasks.skip(1), rules, j, now, tm.1);
        }
    }
}

} // verus!
