//! Commands on the task queue.
use super::agent::{dash, or_dash};
use crate::mcp_service::{parse_task_status, status_named, QueueTask, TaskStatus};
use crate::text::{
    both_parts_occur, cat, char_prefix, char_prefix_spec, contains_spec, opt_text, pad_right,
    pad_right_spec, padding_keeps_the_text, put_padded, starts_with_spec,
};
use vstd::prelude::*;
use vstd::string::*;

verus! {

/// The status of the tasks to list: the dead letters where they are asked for,
/// else the status that is named, if any.
pub fn list_filter(status: Option<&str>, dead_letter: bool) -> (r: Result<
    Option<TaskStatus>,
    String,
>)
    ensures
        if dead_letter {
            r == Ok::<Option<TaskStatus>, String>(Some(TaskStatus::DeadLetter))
        } else {
            match status {
                None => r == Ok::<Option<TaskStatus>, String>(None),
                Some(s) => match status_named(s@) {
                    Some(st) => r == Ok::<Option<TaskStatus>, String>(Some(st)),
                    None => r matches Err(e) && e@ == "Unknown status: "@ + s@,
                },
            }
        },
{
    if dead_letter {
        return Ok(Some(TaskStatus::DeadLetter));
    }
    match status {
        None => Ok(None),
        Some(s) => match parse_task_status(s) {
            Some(st) => Ok(Some(st)),
            None => Err(cat("Unknown status: ", s)),
        },
    }
}

/// A task of the list. `cost` is its cost with four decimal places, where it is
/// known.
#[derive(Debug, Clone, PartialEq)]
pub struct TaskRow {
    pub task: QueueTask,
    pub cost: Option<String>,
}

/// The cost of a task, or a dash.
pub open spec fn cost_text(cost: Option<Seq<char>>) -> Seq<char> {
    match cost {
        Some(c) => "$"@ + c,
        None => "-"@,
    }
}

/// The cost of a task, or a dash.
pub(crate) fn show_cost(cost: &Option<String>) -> (r: String)
    ensures
        r@ == cost_text(opt_text(*cost)),
{
    match cost {
        Some(c) => cat("$", c),
        None => String::from_str("-"),
    }
}

/// The line of a task.
pub open spec fn task_row_text(r: TaskRow) -> Seq<char> {
    pad_right_spec(r.task.id@, 14) + " "@ + pad_right_spec(r.task.status.name(), 10) + " "@
        + pad_right_spec(cost_text(opt_text(r.cost)), 10) + " "@ + pad_right_spec(
        or_dash(opt_text(r.task.assignee)),
        14,
    ) + " "@ + pad_right_spec(or_dash(opt_text(r.task.sm_instance_id)), 14) + " "@
        + char_prefix_spec(r.task.description@, 50) + "\n"@
}

/// The lines of the first `n` tasks.
pub open spec fn task_rows_text(rows: Seq<TaskRow>, n: int) -> Seq<char>
    decreases n,
{
    if n <= 0 {
        Seq::empty()
    } else {
        task_rows_text(rows, n - 1) + task_row_text(rows[n - 1])
    }
}

/// The list of tasks.
pub open spec fn task_table_text(rows: Seq<TaskRow>) -> Seq<char> {
    if rows.len() == 0 {
        "No tasks.\n"@
    } else {
        pad_right_spec("ID"@, 14) + " "@ + pad_right_spec("STATUS"@, 10) + " "@ + pad_right_spec(
            "COST"@,
            10,
        ) + " "@ + pad_right_spec("ASSIGNEE"@, 14) + " "@ + pad_right_spec("SM"@, 14)
            + " DESCRIPTION\n"@ + task_rows_text(rows, rows.len() as int)
    }
}

fn show_task_row(r: &TaskRow) -> (t: String)
    ensures
        t@ == task_row_text(*r),
{
    let mut out = pad_right(&r.task.id, 14);
    out.append(" ");
    put_padded(&mut out, r.task.status.as_str(), 10);
    out.append(" ");
    put_padded(&mut out, &show_cost(&r.cost), 10);
    out.append(" ");
    put_padded(&mut out, dash(&r.task.assignee), 14);
    out.append(" ");
    put_padded(&mut out, dash(&r.task.sm_instance_id), 14);
    out.append(" ");
    out.append(char_prefix(&r.task.description, 50));
    out.append("\n");
    out
}

/// The list of tasks.
pub fn show_tasks(rows: &Vec<TaskRow>) -> (t: String)
    ensures
        t@ == task_table_text(rows@),
{
    if rows.len() == 0 {
        return String::from_str("No tasks.\n");
    }
    let mut body = String::new();
    let mut i: usize = 0;
    while i < rows.len()
        invariant
            i <= rows@.len(),
            body@ == task_rows_text(rows@, i as int),
        decreases rows@.len() - i,
    {
        let line = show_task_row(&rows[i]);
        body.append(&line);
        i += 1;
    }
    let mut out = pad_right("ID", 14);
    out.append(" ");
    put_padded(&mut out, "STATUS", 10);
    out.append(" ");
    put_padded(&mut out, "COST", 10);
    out.append(" ");
    put_padded(&mut out, "ASSIGNEE", 14);
    out.append(" ");
    put_padded(&mut out, "SM", 14);
    out.append(" DESCRIPTION\n");
    out.append(&body);
    out
}

/// The row of a task holds its id, its status, its cost, its assignee, its instance and the start of its description.
pub proof fn task_rows_tell_their_task(r: TaskRow)
    ensures
        contains_spec(task_row_text(r), r.task.id@),
        contains_spec(task_row_text(r), r.task.status.name()),
        contains_spec(task_row_text(r), cost_text(opt_text(r.cost))),
        contains_spec(task_row_text(r), or_dash(opt_text(r.task.assignee))),
        contains_spec(task_row_text(r), or_dash(opt_text(r.task.sm_instance_id))),
        contains_spec(task_row_text(r), char_prefix_spec(r.task.description@, 50)),
{
    padding_keeps_the_text(r.task.id@, 14);
    padding_keeps_the_text(r.task.status.name(), 10);
    padding_keeps_the_text(cost_text(opt_text(r.cost)), 10);
    padding_keeps_the_text(or_dash(opt_text(r.task.assignee)), 14);
    padding_keeps_the_text(or_dash(opt_text(r.task.sm_instance_id)), 14);
    let p0 = pad_right_spec(r.task.id@, 14);
    let q1 = " "@;
    let p1 = p0 + q1;
    both_parts_occur(p0, q1);
    let q2 = pad_right_spec(r.task.status.name(), 10);
    let p2 = p1 + q2;
    both_parts_occur(p1, q2);
    let q3 = " "@;
    let p3 = p2 + q3;
    both_parts_occur(p2, q3);
    let q4 = pad_right_spec(cost_text(opt_text(r.cost)), 10);
    let p4 = p3 + q4;
    both_parts_occur(p3, q4);
    let q5 = " "@;
    let p5 = p4 + q5;
    both_parts_occur(p4, q5);
    let q6 = pad_right_spec(or_dash(opt_text(r.task.assignee)), 14);
    let p6 = p5 + q6;
    both_parts_occur(p5, q6);
    let q7 = " "@;
    let p7 = p6 + q7;
    both_parts_occur(p6, q7);
    let q8 = pad_right_spec(or_dash(opt_text(r.task.sm_instance_id)), 14);
    let p8 = p7 + q8;
    both_parts_occur(p7, q8);
    let q9 = " "@;
    let p9 = p8 + q9;
    both_parts_occur(p8, q9);
    let q10 = char_prefix_spec(r.task.description@, 50);
    let p10 = p9 + q10;
    both_parts_occur(p9, q10);
    let q11 = "\n"@;
    let p11 = p10 + q11;
    both_parts_occur(p10, q11);
    assert(task_row_text(r) == p11);
}

/// The table has a row for each task, in their order.
pub proof fn tasks_are_listed_in_order(v: Seq<TaskRow>, k: int, n: int)
    requires
        0 <= k < n <= v.len(),
    ensures
        starts_with_spec(task_rows_text(v, n), task_rows_text(v, k) + task_row_text(v[k])),
    decreases n,
{
    let head = task_rows_text(v, n - 1);
    let all = task_rows_text(v, n);
    let start = task_rows_text(v, k) + task_row_text(v[k]);
    if k < n - 1 {
        tasks_are_listed_in_order(v, k, n - 1);
        assert(all.take(start.len() as int) =~= head.take(start.len() as int));
    } else {
        assert(all.take(start.len() as int) =~= start);
    }
}

} // verus!
