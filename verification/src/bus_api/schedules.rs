//! Schedules of an agent: the list, and changes to it.
use super::calls::{AddSchedule, NO_CONFIG};
use crate::config::{ScheduleAction, ScheduleDef, UserConfig};
use crate::decimal::{decimal, show_u64, show_usize};
use crate::json::{opt_text_model, Fields, Items, Json, JsonModel};
use crate::text::{cat3, cat5, contains_spec, opt_text, part_occurs};
use crate::message::lookup_steps;
use vstd::prelude::*;
use vstd::string::*;

verus! {

/// The configuration file of an agent: the one that is set, or else the one in
/// the home of the agent.
pub open spec fn config_path(set: Option<&str>, agent_name: Seq<char>) -> Seq<char> {
    match set {
        Some(p) => p@,
        None => "/home/"@ + agent_name + "/deskd.yaml"@,
    }
}

/// The configuration file of an agent. `set` is the one that is set.
pub fn agent_config_path(set: Option<&str>, agent_name: &str) -> (r: String)
    ensures
        r@ == config_path(set, agent_name@),
{
    match set {
        Some(p) => String::from_str(p),
        None => cat3("/home/", agent_name, "/deskd.yaml"),
    }
}

/// The name of an action in a list of schedules.
pub open spec fn action_label(a: ScheduleAction) -> Seq<char> {
    match a {
        ScheduleAction::Raw => "Raw"@,
        ScheduleAction::GithubPoll => "GithubPoll"@,
        ScheduleAction::Shell => "Shell"@,
    }
}

fn label(a: ScheduleAction) -> (r: &'static str)
    ensures
        r@ == action_label(a),
{
    match a {
        ScheduleAction::Raw => "Raw",
        ScheduleAction::GithubPoll => "GithubPoll",
        ScheduleAction::Shell => "Shell",
    }
}

/// A schedule as the list shows it.
pub open spec fn schedule_item(i: int, s: ScheduleDef) -> JsonModel {
    JsonModel::Object(
        seq![
            ("index"@, JsonModel::Number(i)),
            ("cron"@, JsonModel::Text(s.cron@)),
            ("target"@, JsonModel::Text(s.target@)),
            ("action"@, JsonModel::Text(action_label(s.action))),
            ("timezone"@, opt_text_model(opt_text(s.timezone))),
        ],
    )
}

fn schedule_json(i: usize, s: &ScheduleDef) -> (r: Json)
    ensures
        r@ == schedule_item(i as int, *s),
{
    let mut f = Fields::new();
    f.put("index", Json::Number(i as i128));
    f.put_text("cron", &s.cron);
    f.put_text("target", &s.target);
    f.put_text("action", label(s.action));
    f.put("timezone", Json::opt_text(&s.timezone));
    assert(f@ =~= schedule_item(i as int, *s)->Object_0);
    f.object()
}

/// The schedules of a configuration.
pub fn handle_schedule_list(config: Option<&UserConfig>) -> (r: Result<Json, String>)
    ensures
        match config {
            None => r matches Err(e) && e@ == NO_CONFIG@,
            Some(c) => r matches Ok(v) && v@ == JsonModel::List(
                Seq::new(c.schedules@.len(), |i: int| schedule_item(i, c.schedules@[i])),
            ),
        },
{
    let c = match config {
        Some(c) => c,
        None => {
            return Err(String::from_str(NO_CONFIG));
        },
    };
    let ghost expected = Seq::new(c.schedules@.len(), |i: int| schedule_item(i, c.schedules@[i]));
    let mut out = Items::new();
    let mut i: usize = 0;
    assert(out@ =~= expected.take(0));
    while i < c.schedules.len()
        invariant
            i <= c.schedules@.len(),
            expected == Seq::new(c.schedules@.len(), |i: int| schedule_item(i, c.schedules@[i])),
            out@ == expected.take(i as int),
        decreases c.schedules@.len() - i,
    {
        out.put(schedule_json(i, &c.schedules[i]));
        assert(expected.take(i + 1) =~= expected.take(i as int).push(expected[i as int]));
        i += 1;
    }
    assert(expected.take(i as int) =~= expected);
    Ok(out.list())
}

/// The answer that a schedule was added.
pub open spec fn added_model(index: int, q: AddSchedule) -> JsonModel {
    JsonModel::Object(
        seq![
            ("index"@, JsonModel::Number(index)),
            ("cron"@, JsonModel::Text(q.schedule.cron@)),
            ("target"@, JsonModel::Text(q.schedule.target@)),
            ("action"@, JsonModel::Text(q.action@)),
        ],
    )
}

/// Whether `r` tells a new schedule, with which these are there.
pub open spec fn adds_schedule(
    before: Seq<ScheduleDef>,
    after: Seq<ScheduleDef>,
    q: AddSchedule,
    r: Json,
) -> bool {
    &&& after == before.push(q.schedule)
    &&& r@ == added_model(before.len() as int, q)
}

/// Adds a schedule at the end of the list.
pub fn add_schedule(schedules: &mut Vec<ScheduleDef>, q: AddSchedule) -> (r: Json)
    ensures
        adds_schedule(old(schedules)@, final(schedules)@, q, r),
{
    let mut f = Fields::new();
    f.put("index", Json::Number(schedules.len() as i128));
    f.put_text("cron", &q.schedule.cron);
    f.put_text("target", &q.schedule.target);
    f.put_text("action", &q.action);
    assert(f@ =~= added_model(schedules@.len() as int, q)->Object_0);
    schedules.push(q.schedule);
    f.object()
}

/// The answer that a schedule was removed.
pub open spec fn removed_model(index: int, cron: Seq<char>) -> JsonModel {
    JsonModel::Object(
        seq![
            ("index"@, JsonModel::Number(index)),
            ("removed"@, JsonModel::Bool(true)),
            ("cron"@, JsonModel::Text(cron)),
        ],
    )
}

/// The schedules without the one at a position. They stay as they are where there
/// is none.
pub open spec fn without_schedule(schedules: Seq<ScheduleDef>, index: int) -> Seq<ScheduleDef> {
    if 0 <= index < schedules.len() {
        schedules.remove(index)
    } else {
        schedules
    }
}

/// Whether `r` tells the removal of a schedule, after which these are left.
pub open spec fn removes_schedule(
    before: Seq<ScheduleDef>,
    after: Seq<ScheduleDef>,
    index: u64,
    r: Result<Json, String>,
) -> bool {
    &&& after == without_schedule(before, index as int)
    &&& if index < before.len() {
        r matches Ok(v) && v@ == removed_model(
            index as int,
            before[index as int].cron@,
        )
    } else {
        r matches Err(e) && e@ == "schedule index "@ + decimal(index as nat)
            + " out of range (have "@ + decimal(before.len()) + " schedules)"@
    }
}

/// Removes the schedule at a position.
pub fn remove_schedule(schedules: &mut Vec<ScheduleDef>, index: u64) -> (r: Result<Json, String>)
    ensures
        removes_schedule(old(schedules)@, final(schedules)@, index, r),
{
    let n: usize = schedules.len();
    if index >= n as u64 {
        return Err(
            cat5(
                "schedule index ",
                &show_u64(index),
                " out of range (have ",
                &show_usize(n),
                " schedules)",
            ),
        );
    }
    let removed = schedules.remove(index as usize);
    let mut f = Fields::new();
    f.put("index", Json::uint(index));
    f.put("removed", Json::Bool(true));
    f.put_text("cron", &removed.cron);
    assert(f@ =~= removed_model(index as int, removed.cron@)->Object_0);
    Ok(f.object())
}

/// To remove the schedule that was just added, by the position that the answer
/// gave, undoes the addition.
pub proof fn removal_undoes_addition(schedules: Seq<ScheduleDef>, s: ScheduleDef)
    ensures
        without_schedule(schedules.push(s), schedules.len() as int) == schedules,
{
    assert(schedules.push(s).remove(schedules.len() as int) =~= schedules);
}

/// The other schedules keep their order when one is removed.
pub proof fn removal_keeps_the_others(schedules: Seq<ScheduleDef>, index: int, i: int)
    requires
        0 <= index < schedules.len(),
        0 <= i < schedules.len(),
        i != index,
    ensures
        without_schedule(schedules, index)[if i < index {
            i
        } else {
            i - 1
        }] == schedules[i],
{
}

// ─── What the schedules tell ────────────────────────────────────────────────

/// A schedule is told with its position, its cron expression, its target and its timezone.
pub proof fn schedule_is_told(i: int, s: ScheduleDef)
    ensures
        schedule_item(i, s).get("index"@) == Some(JsonModel::Number(i)),
        schedule_item(i, s).text_field("cron"@) == Some(s.cron@),
        schedule_item(i, s).text_field("target"@) == Some(s.target@),
        schedule_item(i, s).text_field("action"@) == Some(action_label(s.action)),
        schedule_item(i, s).text_field("timezone"@) == opt_text(s.timezone),
{
    reveal_strlit("index");
    reveal_strlit("cron");
    reveal_strlit("target");
    reveal_strlit("action");
    reveal_strlit("timezone");
    assert("index"@.len() == 5 && "cron"@.len() == 4 && "target"@.len() == 6 && "action"@.len() == 6 && "timezone"@.len() == 8);
    assert("target"@[0] != "action"@[0]);
    let fields = schedule_item(i, s)->Object_0;
    lookup_steps(fields, "index"@, 0);
    lookup_steps(fields, "cron"@, 1);
    lookup_steps(fields, "target"@, 2);
    lookup_steps(fields, "action"@, 3);
    lookup_steps(fields, "timezone"@, 4);
}

/// A schedule that is added comes last, and is told with the position by which it can be
/// removed again.
pub proof fn added_schedule_comes_last(
    before: Seq<ScheduleDef>,
    after: Seq<ScheduleDef>,
    q: AddSchedule,
    r: Json,
)
    requires
        adds_schedule(before, after, q, r),
    ensures
        after.len() == before.len() + 1,
        after.last() == q.schedule,
        forall|i: int| 0 <= i < before.len() ==> after[i] == #[trigger] before[i],
        r@.get("index"@) == Some(JsonModel::Number(before.len() as int)),
        r@.text_field("cron"@) == Some(q.schedule.cron@),
        r@.text_field("target"@) == Some(q.schedule.target@),
        r@.text_field("action"@) == Some(q.action@),
{
    reveal_strlit("index");
    reveal_strlit("cron");
    reveal_strlit("target");
    reveal_strlit("action");
    assert("index"@.len() == 5 && "cron"@.len() == 4 && "target"@.len() == 6 && "action"@.len() == 6);
    assert("target"@[0] != "action"@[0]);
    let fields = added_model(before.len() as int, q)->Object_0;
    lookup_steps(fields, "index"@, 0);
    lookup_steps(fields, "cron"@, 1);
    lookup_steps(fields, "target"@, 2);
    lookup_steps(fields, "action"@, 3);
}

/// The schedule at a position is removed, and that one alone; a position behind the last
/// one is refused and changes nothing.
pub proof fn the_schedule_at_the_position_goes(
    before: Seq<ScheduleDef>,
    after: Seq<ScheduleDef>,
    index: u64,
    r: Result<Json, String>,
)
    requires
        removes_schedule(before, after, index, r),
    ensures
        r is Ok <==> index < before.len(),
        r is Err ==> after == before,
        r is Ok ==> after.len() == before.len() - 1 && (forall|i: int|
            0 <= i < index ==> after[i] == #[trigger] before[i]) && (forall|i: int|
            index < i < before.len() ==> after[i - 1] == #[trigger] before[i])
            && r->Ok_0@.text_field("cron"@) == Some(before[index as int].cron@)
            && r->Ok_0@.get("index"@) == Some(JsonModel::Number(index as int)),
{
    if index < before.len() {
        reveal_strlit("index");
        reveal_strlit("removed");
        reveal_strlit("cron");
        assert("index"@.len() == 5 && "removed"@.len() == 7 && "cron"@.len() == 4);
        let fields = removed_model(index as int, before[index as int].cron@)->Object_0;
        lookup_steps(fields, "index"@, 0);
        lookup_steps(fields, "removed"@, 1);
        lookup_steps(fields, "cron"@, 2);
    }
}

/// The configuration of an agent lies in its home, unless it is set elsewhere.
pub proof fn configuration_lies_at_home(agent: Seq<char>, set: &str)
    ensures
        config_path(Some(set), agent) == set@,
        contains_spec(config_path(None, agent), agent),
{
    part_occurs("/home/"@, agent, "/deskd.yaml"@);
}

} // verus!
