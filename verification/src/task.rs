//! The task record as the engine sees it.

use vstd::prelude::*;

verus! {

/// One todo item. Instants are Unix seconds (UTC). `begin_time` is always
/// present: it is the anchor every reminder is measured against. The engine
/// reads `id`, `title`, `completed` and `begin_time`; the remaining fields
/// only feed listing and review displays.
#[derive(Clone, Debug)]
pub struct TodoListForm {
    pub id: i32,
    pub title: String,
    pub description: Option<String>,
    pub completed: bool,
    pub begin_time: i64,
    pub end_time: Option<i64>,
    pub key_message1: Option<String>,
    pub key_message2: Option<String>,
    pub key_message3: Option<String>,
}

/// How many of the given tasks are completed.
pub open spec fn spec_completed_count(tasks: Seq<TodoListForm>) -> int
    decreases tasks.len(),
{
    if tasks.len() == 0 {
        0
    } else {
        (if tasks[0].completed {
            1int
        } else {
            0int
        }) + spec_completed_count(tasks.skip(1))
    }
}

/// Counts the completed tasks in a list.
pub fn count_completed(todos: &Vec<TodoListForm>) -> (r: usize)
    ensures
        r == spec_completed_count(todos@),
        r <= todos@.len(),
{
    proof {
        lemma_completed_count_bounds(todos@);
        assert(todos@.skip(0) =~= todos@);
    }
    let mut count: usize = 0;
    let mut i: usize = 0;
    while i < todos.len()
        invariant
            i <= todos@.len(),
            count + spec_completed_count(todos@.skip(i as int)) == spec_completed_count(todos@),
            count <= i,
        decreases todos@.len() - i,
    {
        proof {
            let rest = todos@.skip(i as int);
            assert(rest[0] == todos@[i as int]);
            assert(rest.skip(1) =~= todos@.skip(i + 1));
            lemma_completed_count_bounds(todos@.skip(i + 1));
        }
        if todos[i].completed {
            count += 1;
        }
        i += 1;
    }
    proof {
        assert(todos@.skip(i as int) =~= Seq::<TodoListForm>::empty());
    }
    count
}

/// Integer division truncating toward zero, as the console's elapsed-time
/// display uses it.
pub open spec fn trunc_div(a: int, b: int) -> int
    recommends
        b > 0,
{
    if a >= 0 {
        a / b
    } else {
        -((-a) / b)
    }
}

/// The remainder matching `trunc_div`.
pub open spec fn trunc_rem(a: int, b: int) -> int
    recommends
        b > 0,
{
    a - b * trunc_div(a, b)
}

/// Splits an elapsed span of seconds into whole days, hours of the day,
/// and minutes of the hour, truncating toward zero.
pub fn split_elapsed(seconds: i64) -> (r: (i64, i64, i64))
    ensures
        r.0 == trunc_div(seconds as int, 86400),
        r.1 == trunc_rem(trunc_div(seconds as int, 3600), 24),
        r.2 == trunc_rem(trunc_div(seconds as int, 60), 60),
{
    let neg = seconds < 0;
    let mag: u64 = if neg {
        (-(seconds as i128)) as u64
    } else {
        seconds as u64
    };
    let days = mag / 86400;
    let hours = (mag / 3600) % 24;
    let minutes = (mag / 60) % 60;
    if neg {
        (-(days as i64), -(hours as i64), -(minutes as i64))
    } else {
        (days as i64, hours as i64, minutes as i64)
    }
}

/// The completed count lies between 0 and the number of tasks.
proof fn lemma_completed_count_bounds(tasks: Seq<TodoListForm>)
    ensures
        0 <= spec_completed_count(tasks) <= tasks.len(),
    decreases tasks.len(),
{
    if tasks.len() > 0 {
        lemma_completed_count_bounds(tasks.skip(1));
    }
}

} // verus!
