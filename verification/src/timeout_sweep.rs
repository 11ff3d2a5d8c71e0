//! Timeouts of state machine tasks.
use crate::clock::{elapsed_seconds, seconds_since};
use crate::config::{find_model, model_named, ModelDef, TransitionDef};
use crate::decimal::{
    all_digits, decimal, decimal_is_read_back, digits_value, is_digit, read_digits, show_u64,
};
use crate::text::{
    cat3, cat5, chars_of, is_white_space, opt_text, same, trim, trim_spec,
    trimming_keeps_the_middle,
};
use vstd::prelude::*;
use vstd::string::*;

verus! {

/// The number of digits at the start of `s`.
pub open spec fn digit_run(s: Seq<char>) -> nat
    decreases s.len(),
{
    if s.len() == 0 || !is_digit(s[0]) {
        0
    } else {
        1 + digit_run(s.skip(1))
    }
}

/// The seconds of a unit of time.
pub open spec fn unit_seconds(unit: Seq<char>) -> Option<nat> {
    if unit == "s"@ {
        Some(1)
    } else if unit == "m"@ {
        Some(60)
    } else if unit == "h"@ {
        Some(3600)
    } else if unit == "d"@ {
        Some(86400)
    } else {
        None
    }
}

/// The seconds that a duration text denotes: a number and a unit, which white
/// space may surround. `None` where it is no such text or the number or the
/// seconds do not fit.
pub open spec fn duration_seconds(s: Seq<char>) -> Option<nat> {
    let t = trim_spec(s);
    let n = digit_run(t) as int;
    let value = digits_value(t.take(n));
    if 0 < n < t.len() && value <= u64::MAX {
        match unit_seconds(trim_spec(t.skip(n))) {
            Some(u) => if value * u <= u64::MAX {
                Some(value * u)
            } else {
                None
            },
            None => None,
        }
    } else {
        None
    }
}

fn unit_of(unit: &str) -> (r: Option<u64>)
    ensures
        match r {
            Some(u) => unit_seconds(unit@) == Some(u as nat) && 1 <= u <= 86400,
            None => unit_seconds(unit@) is None,
        },
{
    if same(unit, "s") {
        Some(1)
    } else if same(unit, "m") {
        Some(60)
    } else if same(unit, "h") {
        Some(3600)
    } else if same(unit, "d") {
        Some(86400)
    } else {
        None
    }
}

/// The seconds that a duration text denotes, such as `30s`, `5m`, `2h` or `1d`.
pub fn parse_duration(s: &str) -> (r: Option<u64>)
    ensures
        match r {
            Some(v) => duration_seconds(s@) == Some(v as nat),
            None => duration_seconds(s@) is None,
        },
{
    let t = trim(s);
    let chars = chars_of(t);
    let mut n: usize = 0;
    assert(t@.skip(0) =~= t@);
    while n < chars.len() && chars[n] >= '0' && chars[n] <= '9'
        invariant
            n <= chars@.len(),
            chars@ == t@,
            digit_run(t@) == n + digit_run(t@.skip(n as int)),
            forall|j: int| 0 <= j < n ==> is_digit(#[trigger] t@[j]),
        decreases chars@.len() - n,
    {
        assert(t@.skip(n as int)[0] == t@[n as int]);
        assert(t@.skip(n as int).skip(1) =~= t@.skip(n + 1));
        n += 1;
    }
    proof {
        if n < t@.len() {
            assert(t@.skip(n as int)[0] == t@[n as int]);
        }
        assert(digit_run(t@) == n);
    }
    if n == 0 || n == chars.len() {
        return None;
    }
    let head = t.substring_char(0, n);
    let tail = t.substring_char(n, chars.len());
    let digits = chars_of(head);
    proof {
        assert(head@ =~= t@.take(n as int));
        assert(tail@ =~= t@.skip(n as int));
        assert(digits@.skip(0) =~= head@);
        assert(all_digits(head@));
    }
    let value: u64 = match read_digits(&digits, 0, u64::MAX) {
        Some(v) => v,
        None => {
            return None;
        },
    };
    match unit_of(trim(tail)) {
        Some(u) => {
            proof {
                assert(value * u <= u64::MAX * 86400) by (nonlinear_arith)
                    requires
                        value <= u64::MAX,
                        u <= 86400,
                ;
            }
            let seconds: u128 = value as u128 * u as u128;
            if seconds <= u64::MAX as u128 {
                Some(seconds as u64)
            } else {
                None
            }
        },
        None => None,
    }
}

/// A state machine instance.
#[derive(Debug, Clone, PartialEq)]
pub struct SweepInstance {
    pub model: String,
    pub state: String,
}

/// An active task. `instance` is the state machine instance that it belongs to,
/// where it belongs to one that could be loaded.
#[derive(Debug, Clone, PartialEq)]
pub struct SweepTask {
    pub id: String,
    pub sm_instance_id: Option<String>,
    /// When the task was last updated, as RFC 3339.
    pub updated_at: String,
    pub instance: Option<SweepInstance>,
}

/// What to do about a task whose time is over: fail it with the error, and move
/// its instance to the state with the note.
#[derive(Debug, Clone, PartialEq)]
pub struct TimeoutAction {
    pub task_id: String,
    pub sm_id: String,
    pub error: String,
    pub goto_state: String,
    pub note: String,
}

/// The contents of an action.
pub struct TimeoutModel {
    pub task_id: Seq<char>,
    pub sm_id: Seq<char>,
    pub error: Seq<char>,
    pub goto_state: Seq<char>,
    pub note: Seq<char>,
}

impl View for TimeoutAction {
    type V = TimeoutModel;

    open spec fn view(&self) -> TimeoutModel {
        TimeoutModel {
            task_id: self.task_id@,
            sm_id: self.sm_id@,
            error: self.error@,
            goto_state: self.goto_state@,
            note: self.note@,
        }
    }
}

/// Whether a transition sets a timeout for a state.
pub open spec fn sets_timeout(t: TransitionDef, state: Seq<char>) -> bool {
    &&& t.from@ == state || t.from@ == "*"@
    &&& t.timeout is Some
    &&& t.timeout_goto is Some
}

/// The first transition that sets a timeout for a state.
pub open spec fn timeout_transition(
    transitions: Seq<TransitionDef>,
    state: Seq<char>,
) -> Option<TransitionDef>
    decreases transitions.len(),
{
    if transitions.len() == 0 {
        None
    } else if sets_timeout(transitions[0], state) {
        Some(transitions[0])
    } else {
        timeout_transition(transitions.skip(1), state)
    }
}

fn find_timeout<'a>(transitions: &'a Vec<TransitionDef>, state: &str) -> (r: Option<
    &'a TransitionDef,
>)
    ensures
        match r {
            Some(t) => timeout_transition(transitions@, state@) == Some(*t) && sets_timeout(
                *t,
                state@,
            ),
            None => timeout_transition(transitions@, state@) is None,
        },
{
    let mut i: usize = 0;
    assert(transitions@.skip(0) =~= transitions@);
    while i < transitions.len()
        invariant
            i <= transitions@.len(),
            timeout_transition(transitions@, state@) == timeout_transition(
                transitions@.skip(i as int),
                state@,
            ),
        decreases transitions@.len() - i,
    {
        let t = &transitions[i];
        let ghost rest = transitions@.skip(i as int);
        assert(rest[0] == *t);
        if (same(&t.from, state) || same(&t.from, "*")) && t.timeout.is_some()
            && t.timeout_goto.is_some() {
            return Some(t);
        }
        assert(rest.skip(1) =~= transitions@.skip(i + 1));
        i += 1;
    }
    None
}

/// The seconds since the last update, where the limit is reached. An update that
/// lies ahead counts as just now.
pub open spec fn overdue_seconds(elapsed: Option<i64>, limit: nat) -> Option<nat> {
    match elapsed {
        Some(e) => {
            let secs = if e > 0 {
                e as nat
            } else {
                0
            };
            if secs < limit {
                None
            } else {
                Some(secs)
            }
        },
        None => None,
    }
}

/// The seconds since the last update, where the limit is reached. An update that
/// lies ahead counts as just now.
pub fn overdue(elapsed: Option<i64>, limit: u64) -> (r: Option<u64>)
    ensures
        match r {
            Some(s) => overdue_seconds(elapsed, limit as nat) == Some(s as nat),
            None => overdue_seconds(elapsed, limit as nat) is None,
        },
{
    match elapsed {
        Some(e) => {
            let secs: u64 = if e > 0 {
                e as u64
            } else {
                0
            };
            if secs < limit {
                None
            } else {
                Some(secs)
            }
        },
        None => None,
    }
}

/// What to do about a task whose instance is in a state, so long after its last
/// update.
pub open spec fn action_in(
    task: SweepTask,
    state: Seq<char>,
    models: Seq<ModelDef>,
    elapsed: Option<i64>,
) -> Option<TimeoutModel> {
    match (task.sm_instance_id, task.instance) {
        (Some(sm_id), Some(inst)) => match model_named(models, inst.model@) {
            Some(model) => match timeout_transition(model.transitions@, state) {
                Some(t) => match duration_seconds(t.timeout->0@) {
                    Some(limit) => match overdue_seconds(elapsed, limit) {
                        Some(secs) => Some(
                            TimeoutModel {
                                task_id: task.id@,
                                sm_id: sm_id@,
                                error: "task timed out after "@ + decimal(secs) + "s (limit: "@
                                    + decimal(limit) + "s)"@,
                                goto_state: t.timeout_goto->0@,
                                note: "timed out after "@ + decimal(secs) + "s"@,
                            },
                        ),
                        None => None,
                    },
                    None => None,
                },
                None => None,
            },
            None => None,
        },
        _ => None,
    }
}

/// The state in which a task holds its instance to be.
pub open spec fn held_state(task: SweepTask) -> Seq<char> {
    match task.instance {
        Some(inst) => inst.state@,
        None => Seq::empty(),
    }
}

/// What to do about a task, so long after its last update.
pub open spec fn action_for(
    task: SweepTask,
    models: Seq<ModelDef>,
    elapsed: Option<i64>,
) -> Option<TimeoutModel> {
    action_in(task, held_state(task), models, elapsed)
}

/// What to do about a task, so long after its last update.
pub fn check_task(task: &SweepTask, models: &Vec<ModelDef>, elapsed: Option<i64>) -> (r: Option<
    TimeoutAction,
>)
    ensures
        match r {
            Some(a) => action_for(*task, models@, elapsed) == Some(a@),
            None => action_for(*task, models@, elapsed) is None,
        },
{
    match &task.instance {
        Some(inst) => check_in_state(task, &inst.state, models, elapsed),
        None => None,
    }
}

fn check_in_state(
    task: &SweepTask,
    state: &str,
    models: &Vec<ModelDef>,
    elapsed: Option<i64>,
) -> (r: Option<TimeoutAction>)
    ensures
        match r {
            Some(a) => action_in(*task, state@, models@, elapsed) == Some(a@),
            None => action_in(*task, state@, models@, elapsed) is None,
        },
{
    let (sm_id, inst) = match (&task.sm_instance_id, &task.instance) {
        (Some(sm_id), Some(inst)) => (sm_id, inst),
        _ => {
            return None;
        },
    };
    let model = match find_model(models, &inst.model) {
        Some(m) => m,
        None => {
            return None;
        },
    };
    let t = match find_timeout(&model.transitions, state) {
        Some(t) => t,
        None => {
            return None;
        },
    };
    let (timeout, goto_state) = match (&t.timeout, &t.timeout_goto) {
        (Some(a), Some(b)) => (a, b),
        _ => {
            return None;
        },
    };
    let limit: u64 = match parse_duration(timeout) {
        Some(d) => d,
        None => {
            return None;
        },
    };
    let secs: u64 = match overdue(elapsed, limit) {
        Some(s) => s,
        None => {
            return None;
        },
    };
    Some(
        TimeoutAction {
            task_id: task.id.clone(),
            sm_id: sm_id.clone(),
            error: cat5(
                "task timed out after ",
                &show_u64(secs),
                "s (limit: ",
                &show_u64(limit),
                "s)",
            ),
            goto_state: goto_state.clone(),
            note: cat3("timed out after ", &show_u64(secs), "s"),
        },
    )
}

/// The state of an instance after actions: the one to which the last of them on the
/// instance has moved it, or the one it was in.
pub open spec fn state_after(
    actions: Seq<TimeoutModel>,
    sm_id: Option<Seq<char>>,
    state: Seq<char>,
) -> Seq<char>
    decreases actions.len(),
{
    if actions.len() == 0 {
        state
    } else if Some(actions.last().sm_id) == sm_id {
        actions.last().goto_state
    } else {
        state_after(actions.drop_last(), sm_id, state)
    }
}

/// What to do about a task at `now`, after the actions on the tasks before it.
pub open spec fn next_action(
    actions: Seq<TimeoutModel>,
    task: SweepTask,
    models: Seq<ModelDef>,
    now: i64,
) -> Option<TimeoutModel> {
    action_in(
        task,
        state_after(actions, opt_text(task.sm_instance_id), held_state(task)),
        models,
        elapsed_seconds(task.updated_at@, now),
    )
}

/// The actions of a sweep at `now`, in the order of the tasks. A task is judged by
/// the state in which the actions before it leave its instance.
pub open spec fn sweep_actions(tasks: Seq<SweepTask>, models: Seq<ModelDef>, now: i64) -> Seq<
    TimeoutModel,
>
    decreases tasks.len(),
{
    if tasks.len() == 0 {
        Seq::empty()
    } else {
        let head = sweep_actions(tasks.drop_last(), models, now);
        match next_action(head, tasks.last(), models, now) {
            Some(a) => head.push(a),
            None => head,
        }
    }
}

/// The contents of a list of actions.
pub open spec fn action_views(v: Seq<TimeoutAction>) -> Seq<TimeoutModel> {
    Seq::new(v.len(), |i: int| v[i]@)
}

fn current_state<'a>(
    actions: &'a Vec<TimeoutAction>,
    sm_id: &Option<String>,
    state: &'a str,
) -> (r: &'a str)
    ensures
        r@ == state_after(action_views(actions@), opt_text(*sm_id), state@),
{
    let id: &String = match sm_id {
        Some(t) => t,
        None => {
            proof {
                no_instance_stays(action_views(actions@), state@);
            }
            return state;
        },
    };
    let ghost all = action_views(actions@);
    let mut n: usize = actions.len();
    assert(all.take(n as int) =~= all);
    while n > 0
        invariant
            n <= actions@.len(),
            all == action_views(actions@),
            opt_text(*sm_id) == Some(id@),
            state_after(all, Some(id@), state@) == state_after(
                all.take(n as int),
                Some(id@),
                state@,
            ),
        decreases n,
    {
        let a = &actions[n - 1];
        let ghost part = all.take(n as int);
        assert(part.last() == a@);
        if same(&a.sm_id, id) {
            return a.goto_state.as_str();
        }
        assert(part.drop_last() =~= all.take(n - 1));
        n -= 1;
    }
    state
}

proof fn no_instance_stays(actions: Seq<TimeoutModel>, state: Seq<char>)
    ensures
        state_after(actions, None, state) == state,
    decreases actions.len(),
{
    if actions.len() > 0 {
        no_instance_stays(actions.drop_last(), state);
    }
}

/// The actions of a sweep over the active tasks at `now`. The instances of the tasks
/// are as they were before the sweep.
pub fn sweep_once(tasks: &Vec<SweepTask>, models: &Vec<ModelDef>, now: i64) -> (r: Vec<
    TimeoutAction,
>)
    ensures
        action_views(r@) == sweep_actions(tasks@, models@, now),
{
    let mut out: Vec<TimeoutAction> = Vec::new();
    let mut i: usize = 0;
    assert(action_views(out@) =~= sweep_actions(tasks@.take(0), models@, now));
    while i < tasks.len()
        invariant
            i <= tasks@.len(),
            action_views(out@) == sweep_actions(tasks@.take(i as int), models@, now),
        decreases tasks@.len() - i,
    {
        let ghost before = action_views(out@);
        assert(tasks@.take(i + 1).drop_last() =~= tasks@.take(i as int));
        assert(tasks@.take(i + 1).last() == tasks@[i as int]);
        let task = &tasks[i];
        let elapsed: Option<i64> = seconds_since(&task.updated_at, now);
        let action = match &task.instance {
            Some(inst) => check_in_state(
                task,
                current_state(&out, &task.sm_instance_id, &inst.state),
                models,
                elapsed,
            ),
            None => None,
        };
        match action {
            Some(a) => {
                out.push(a);
                assert(action_views(out@) =~= before.push(a@));
            },
            None => {},
        }
        i += 1;
    }
    assert(tasks@.take(i as int) =~= tasks@);
    out
}

/// A task that was updated within its limit is left alone.
pub proof fn task_within_its_limit_is_left_alone(elapsed: i64, limit: nat)
    requires
        0 <= elapsed < limit,
    ensures
        overdue_seconds(Some(elapsed), limit) is None,
{
}

/// A task without a state machine instance is left alone.
pub proof fn task_without_instance_is_left_alone(
    task: SweepTask,
    models: Seq<ModelDef>,
    elapsed: Option<i64>,
)
    requires
        task.sm_instance_id is None || task.instance is None,
    ensures
        action_for(task, models, elapsed) is None,
{
}

/// A task that has reached its limit is failed, and its instance moves to the
/// state that the timeout names.
pub proof fn overdue_task_moves_its_instance(
    task: SweepTask,
    models: Seq<ModelDef>,
    elapsed: i64,
    model: ModelDef,
    t: TransitionDef,
    limit: nat,
)
    requires
        task.sm_instance_id is Some,
        task.instance matches Some(inst) && model_named(models, inst.model@) == Some(model)
            && timeout_transition(model.transitions@, inst.state@) == Some(t),
        duration_seconds(t.timeout->0@) == Some(limit),
        elapsed >= limit,
    ensures
        action_for(task, models, Some(elapsed)) matches Some(a) && a.task_id == task.id@ && a.sm_id
            == task.sm_instance_id->0@ && a.goto_state == t.timeout_goto->0@,
{
}

/// A sweep misses no task: what is due for one of them, after the actions on those
/// before it, is among its actions.
pub proof fn sweep_misses_no_task(tasks: Seq<SweepTask>, models: Seq<ModelDef>, now: i64, i: int)
    requires
        0 <= i < tasks.len(),
        next_action(sweep_actions(tasks.take(i), models, now), tasks[i], models, now) is Some,
    ensures
        sweep_actions(tasks, models, now).contains(
            next_action(sweep_actions(tasks.take(i), models, now), tasks[i], models, now)->0,
        ),
    decreases tasks.len(),
{
    let a = next_action(sweep_actions(tasks.take(i), models, now), tasks[i], models, now)->0;
    let all = sweep_actions(tasks, models, now);
    let head = sweep_actions(tasks.drop_last(), models, now);
    if i == tasks.len() - 1 {
        assert(tasks.take(i) =~= tasks.drop_last());
        assert(all.last() == a);
        assert(all[all.len() - 1] == a);
    } else {
        assert(tasks.drop_last()[i] == tasks[i]);
        assert(tasks.drop_last().take(i) =~= tasks.take(i));
        sweep_misses_no_task(tasks.drop_last(), models, now, i);
        let k = choose|k: int| 0 <= k < head.len() && head[k] == a;
        assert(all[k] == a);
    }
}

/// The first task of an instance is judged by the state that the instance was in
/// before the sweep.
pub proof fn first_task_meets_its_instance_as_it_was(
    tasks: Seq<SweepTask>,
    models: Seq<ModelDef>,
    now: i64,
    i: int,
)
    requires
        0 <= i < tasks.len(),
        forall|j: int|
            0 <= j < i ==> opt_text((#[trigger] tasks[j]).sm_instance_id) != opt_text(
                tasks[i].sm_instance_id,
            ),
    ensures
        next_action(sweep_actions(tasks.take(i), models, now), tasks[i], models, now)
            == action_for(tasks[i], models, elapsed_seconds(tasks[i].updated_at@, now)),
{
    let before = tasks.take(i);
    assert forall|j: int| 0 <= j < before.len() implies opt_text(
        (#[trigger] before[j]).sm_instance_id,
    ) != opt_text(tasks[i].sm_instance_id) by {
        assert(before[j] == tasks[j]);
    }
    other_tasks_leave_an_instance(
        before,
        models,
        now,
        opt_text(tasks[i].sm_instance_id),
        held_state(tasks[i]),
    );
}

proof fn other_tasks_leave_an_instance(
    tasks: Seq<SweepTask>,
    models: Seq<ModelDef>,
    now: i64,
    sm_id: Option<Seq<char>>,
    state: Seq<char>,
)
    requires
        forall|j: int|
            0 <= j < tasks.len() ==> opt_text((#[trigger] tasks[j]).sm_instance_id) != sm_id,
    ensures
        state_after(sweep_actions(tasks, models, now), sm_id, state) == state,
    decreases tasks.len(),
{
    if tasks.len() > 0 {
        let rest = tasks.drop_last();
        assert forall|j: int| 0 <= j < rest.len() implies opt_text(
            (#[trigger] rest[j]).sm_instance_id,
        ) != sm_id by {
            assert(rest[j] == tasks[j]);
        }
        other_tasks_leave_an_instance(rest, models, now, sm_id, state);
        let head = sweep_actions(rest, models, now);
        let all = sweep_actions(tasks, models, now);
        assert(opt_text(tasks[tasks.len() - 1].sm_instance_id) != sm_id);
        if all.len() > head.len() {
            assert(all.drop_last() =~= head);
        }
    }
}

/// The next task of an instance that the sweep has just moved to a state without a
/// timeout is left alone.
pub proof fn moved_instance_is_judged_by_its_new_state(
    tasks: Seq<SweepTask>,
    models: Seq<ModelDef>,
    now: i64,
    model: ModelDef,
)
    requires
        tasks.len() >= 2,
        ({
            let first = tasks[tasks.len() - 2];
            let second = tasks.last();
            let before = sweep_actions(tasks.drop_last().drop_last(), models, now);
            &&& opt_text(first.sm_instance_id) == opt_text(second.sm_instance_id)
            &&& next_action(before, first, models, now) matches Some(a) && timeout_transition(
                model.transitions@,
                a.goto_state,
            ) is None
            &&& second.instance matches Some(inst) ==> model_named(models, inst.model@) == Some(
                model,
            )
        }),
    ensures
        sweep_actions(tasks, models, now) == sweep_actions(tasks.drop_last(), models, now),
{
    assert(tasks.drop_last().last() == tasks[tasks.len() - 2]);
}

/// A duration is a number and a unit: seconds, minutes, hours or days.
pub proof fn durations_are_numbers_with_a_unit(n: nat)
    requires
        n * 86_400 <= u64::MAX,
    ensures
        duration_seconds(decimal(n).push('s')) == Some(n),
        duration_seconds(decimal(n).push('m')) == Some(n * 60),
        duration_seconds(decimal(n).push('h')) == Some(n * 60 * 60),
        duration_seconds(decimal(n).push('d')) == Some(n * 24 * 60 * 60),
        duration_seconds(decimal(n)) is None,
{
    reveal_strlit("s");
    reveal_strlit("m");
    reveal_strlit("h");
    reveal_strlit("d");
    decimal_is_read_back(n, n);
    unit_follows_the_number(n, 's');
    unit_follows_the_number(n, 'm');
    unit_follows_the_number(n, 'h');
    unit_follows_the_number(n, 'd');
    assert(seq!['s'] =~= "s"@);
    assert(seq!['m'] =~= "m"@);
    assert(seq!['h'] =~= "h"@);
    assert(seq!['d'] =~= "d"@);
    assert("s"@[0] != "m"@[0] && "s"@[0] != "h"@[0] && "s"@[0] != "d"@[0] && "m"@[0] != "h"@[0]
        && "m"@[0] != "d"@[0] && "h"@[0] != "d"@[0]);
    assert(n * 1 == n && n * 3600 == n * 60 * 60 && n * 86400 == n * 24 * 60 * 60);
    assert(unit_seconds("s"@) == Some(1nat) && unit_seconds("m"@) == Some(60nat));
    assert(unit_seconds("h"@) == Some(3600nat) && unit_seconds("d"@) == Some(86400nat));
    let d = decimal(n);
    number_is_digits(n);
    assert(is_digit(d[0]) && is_digit(d[d.len() - 1]));
    plain_characters_are_not_white(d[0]);
    plain_characters_are_not_white(d[d.len() - 1]);
    ends_are_kept(d);
    digits_run_to(d, d.len() as int);
}

proof fn number_is_digits(n: nat)
    ensures
        decimal(n).len() > 0,
        forall|i: int| 0 <= i < decimal(n).len() ==> is_digit(#[trigger] decimal(n)[i]),
        digits_value(decimal(n)) == n,
    decreases n,
{
    let s = decimal(n);
    if n < 10 {
        assert(s.drop_last() =~= Seq::<char>::empty());
        assert(digits_value(s.drop_last()) == 0);
    } else {
        number_is_digits(n / 10);
        let head = decimal(n / 10);
        assert(s.drop_last() =~= head);
        assert forall|i: int| 0 <= i < s.len() implies is_digit(#[trigger] s[i]) by {
            if i < head.len() {
                assert(s[i] == head[i]);
            }
        }
    }
}

proof fn digits_run_to(s: Seq<char>, k: int)
    requires
        0 <= k <= s.len(),
        forall|i: int| 0 <= i < k ==> is_digit(#[trigger] s[i]),
        k == s.len() || !is_digit(s[k]),
    ensures
        digit_run(s) == k,
    decreases k,
{
    if k > 0 {
        let t = s.skip(1);
        assert forall|i: int| 0 <= i < k - 1 implies is_digit(#[trigger] t[i]) by {
            assert(t[i] == s[i + 1]);
        }
        if k < s.len() {
            assert(t[k - 1] == s[k]);
        }
        digits_run_to(t, k - 1);
    }
}

proof fn unit_follows_the_number(n: nat, unit: char)
    requires
        unit == 's' || unit == 'm' || unit == 'h' || unit == 'd',
    ensures
        ({
            let s = decimal(n).push(unit);
            let k = digit_run(s) as int;
            &&& trim_spec(s) == s
            &&& 0 < k < s.len()
            &&& digits_value(s.take(k)) == n
            &&& trim_spec(s.skip(k)) == seq![unit]
        }),
{
    let d = decimal(n);
    let s = d.push(unit);
    number_is_digits(n);
    assert(s[0] == d[0]);
    assert(is_digit(d[0]));
    plain_characters_are_not_white(s[0]);
    plain_characters_are_not_white(unit);
    ends_are_kept(s);
    assert forall|i: int| 0 <= i < d.len() implies is_digit(#[trigger] s[i]) by {
        assert(s[i] == d[i]);
    }
    digits_run_to(s, d.len() as int);
    assert(s.take(d.len() as int) =~= d);
    assert(s.skip(d.len() as int) =~= seq![unit]);
    ends_are_kept(seq![unit]);
}

proof fn plain_characters_are_not_white(c: char)
    requires
        is_digit(c) || c == 's' || c == 'm' || c == 'h' || c == 'd',
    ensures
        !is_white_space(c),
{
}

proof fn ends_are_kept(s: Seq<char>)
    requires
        s.len() > 0,
        !is_white_space(s[0]),
        !is_white_space(s.last()),
    ensures
        trim_spec(s) == s,
{
    trimming_keeps_the_middle(s);
}

/// The limit is reached at its very second, and what is told is the time since the update;
/// an update that lies ahead counts as just now.
pub proof fn limits_are_reached_to_the_second(elapsed: i64, limit: nat)
    ensures
        elapsed >= 0 ==> (overdue_seconds(Some(elapsed), limit) is Some <==> elapsed >= limit),
        elapsed >= 0 && elapsed >= limit ==> overdue_seconds(Some(elapsed), limit) == Some(
            elapsed as nat,
        ),
        elapsed < 0 && limit > 0 ==> overdue_seconds(Some(elapsed), limit) is None,
        overdue_seconds(None, limit) is None,
{
}

} // verus!
