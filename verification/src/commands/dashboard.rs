//! The dashboard: agents with their workers and schedules, state machine
//! instances, and the task queue.
use crate::agent::AgentState;
use crate::clock::{next_firing, read_next_firing, NANOS_PER_SECOND};
use crate::config::{find_model, model_named, AgentDef, ModelDef, ScheduleAction, ScheduleDef};
use crate::decimal::{decimal, show_u64, show_usize};
use crate::json::{Fields, Items, Json, JsonModel};
use crate::text::{
    both_parts_occur, cat3, char_prefix, char_prefix_spec, contains_spec, has, opt_text,
    pad_left, pad_left_spec, pad_right_spec, padding_keeps_the_text, put_padded, same,
    starts_with_spec, texts,
};
use vstd::prelude::*;
use vstd::string::*;

verus! {

/// An amount of money: a decimal number, and how it reads with two decimal
/// places.
#[derive(Debug, Clone, PartialEq)]
pub struct Amount {
    pub value: String,
    pub shown: String,
}

/// The contents of an amount.
pub struct AmountModel {
    pub value: Seq<char>,
    pub shown: Seq<char>,
}

impl View for Amount {
    type V = AmountModel;

    open spec fn view(&self) -> AmountModel {
        AmountModel { value: self.value@, shown: self.shown@ }
    }
}

/// A sub-agent worker spawned inside an agent.
#[derive(Debug, Clone, PartialEq)]
pub struct DashboardWorker {
    pub name: String,
    pub status: String,
    pub turns: u32,
    pub cost: Amount,
    pub current_task: String,
}

/// The contents of a worker.
pub struct WorkerModel {
    pub name: Seq<char>,
    pub status: Seq<char>,
    pub turns: u32,
    pub cost: AmountModel,
    pub current_task: Seq<char>,
}

impl View for DashboardWorker {
    type V = WorkerModel;

    open spec fn view(&self) -> WorkerModel {
        WorkerModel {
            name: self.name@,
            status: self.status@,
            turns: self.turns,
            cost: self.cost@,
            current_task: self.current_task@,
        }
    }
}

/// A cron schedule of an agent.
#[derive(Debug, Clone, PartialEq)]
pub struct DashboardSchedule {
    pub cron: String,
    pub action: String,
    pub target: String,
    /// How long it is until it fires.
    pub next: String,
}

/// The contents of a schedule on the dashboard.
pub struct DashboardScheduleModel {
    pub cron: Seq<char>,
    pub action: Seq<char>,
    pub target: Seq<char>,
    pub next: Seq<char>,
}

impl View for DashboardSchedule {
    type V = DashboardScheduleModel;

    open spec fn view(&self) -> DashboardScheduleModel {
        DashboardScheduleModel {
            cron: self.cron@,
            action: self.action@,
            target: self.target@,
            next: self.next@,
        }
    }
}

/// An agent of the workspace.
#[derive(Debug, Clone, PartialEq)]
pub struct DashboardAgent {
    pub name: String,
    pub status: String,
    pub turns: u32,
    pub cost: Amount,
    pub current_task: String,
    pub workers: Vec<DashboardWorker>,
    pub schedules: Vec<DashboardSchedule>,
}

/// The contents of an agent on the dashboard.
pub struct DashboardAgentModel {
    pub name: Seq<char>,
    pub status: Seq<char>,
    pub turns: u32,
    pub cost: AmountModel,
    pub current_task: Seq<char>,
    pub workers: Seq<WorkerModel>,
    pub schedules: Seq<DashboardScheduleModel>,
}

/// The contents of workers.
pub open spec fn worker_models(v: Seq<DashboardWorker>) -> Seq<WorkerModel> {
    Seq::new(v.len(), |i: int| v[i]@)
}

/// The contents of schedules.
pub open spec fn schedule_models(v: Seq<DashboardSchedule>) -> Seq<DashboardScheduleModel> {
    Seq::new(v.len(), |i: int| v[i]@)
}

/// The contents of agents.
pub open spec fn agent_models(v: Seq<DashboardAgent>) -> Seq<DashboardAgentModel> {
    Seq::new(v.len(), |i: int| v[i]@)
}

impl View for DashboardAgent {
    type V = DashboardAgentModel;

    open spec fn view(&self) -> DashboardAgentModel {
        DashboardAgentModel {
            name: self.name@,
            status: self.status@,
            turns: self.turns,
            cost: self.cost@,
            current_task: self.current_task@,
            workers: worker_models(self.workers@),
            schedules: schedule_models(self.schedules@),
        }
    }
}

/// A state machine instance that has not ended.
#[derive(Debug, Clone, PartialEq)]
pub struct DashboardSm {
    pub id: String,
    pub model: String,
    pub state: String,
    pub title: String,
    pub assignee: String,
    pub total_cost: Amount,
}

/// The numbers of tasks in the queue.
#[derive(Debug, Clone, Copy, PartialEq, Eq)]
pub struct DashboardTasks {
    pub pending: usize,
    pub active: usize,
    pub done: usize,
    pub failed: usize,
}

/// The dashboard.
#[derive(Debug, Clone, PartialEq)]
pub struct Dashboard {
    pub agents: Vec<DashboardAgent>,
    pub sm_instances: Vec<DashboardSm>,
    pub tasks: DashboardTasks,
}

// ─── Aggregation ────────────────────────────────────────────────────────────

/// The state of an agent, and how its cost reads with two decimal places.
#[derive(Debug, Clone, PartialEq)]
pub struct CostedState {
    pub state: AgentState,
    pub shown_cost: String,
}

/// A schedule, and how long it is until it fires, where that is known.
#[derive(Debug, PartialEq)]
pub struct TimedSchedule {
    pub schedule: ScheduleDef,
    pub next: Option<String>,
}

/// The nanoseconds from the instant of `now` nanoseconds to a second since the
/// Unix epoch.
pub open spec fn nanos_until(firing: Option<i64>, now: i64) -> Option<i128> {
    match firing {
        Some(t) => Some((t * NANOS_PER_SECOND - now) as i128),
        None => None,
    }
}

/// How long it is from `now` to the second at which a schedule fires, in
/// nanoseconds, where it fires at all.
pub fn wait_until(firing: Option<i64>, now: i64) -> (r: Option<i128>)
    ensures
        r == nanos_until(firing, now),
{
    match firing {
        Some(t) => Some(t as i128 * NANOS_PER_SECOND - now as i128),
        None => None,
    }
}

/// How long it is from `now` until a cron expression fires next, in nanoseconds.
/// `None` where the expression is not accepted, or where it never fires again.
pub fn next_run(cron: &str, now: i64) -> (r: Option<i128>)
    ensures
        r == nanos_until(next_firing(cron@, now), now),
{
    wait_until(read_next_firing(cron, now), now)
}

/// What is known of an agent of the workspace: whether its bus is there, and its
/// schedules.
#[derive(Debug, PartialEq)]
pub struct AgentFacts {
    pub online: bool,
    pub schedules: Vec<TimedSchedule>,
}

/// What an agent cost.
pub open spec fn amount_of(s: CostedState) -> AmountModel {
    AmountModel { value: s.state.total_cost@, shown: s.shown_cost@ }
}

/// A sub-agent as a worker.
pub open spec fn worker_of(s: CostedState) -> WorkerModel {
    WorkerModel {
        name: s.state.name@,
        status: s.state.status@,
        turns: s.state.total_turns,
        cost: amount_of(s),
        current_task: s.state.current_task@,
    }
}

/// The sub-agents of an agent, in order.
pub open spec fn workers_of(states: Seq<CostedState>, parent: Seq<char>) -> Seq<WorkerModel>
    decreases states.len(),
{
    if states.len() == 0 {
        Seq::empty()
    } else {
        let head = workers_of(states.drop_last(), parent);
        if opt_text(states.last().state.parent) == Some(parent) {
            head.push(worker_of(states.last()))
        } else {
            head
        }
    }
}

/// The position of the first state of an agent; the number of states where there
/// is none.
pub open spec fn costed_index(states: Seq<CostedState>, name: Seq<char>) -> nat
    decreases states.len(),
{
    if states.len() == 0 || states[0].state.name@ == name {
        0
    } else {
        1 + costed_index(states.skip(1), name)
    }
}

/// The state of the agent with a name.
pub open spec fn costed_named(states: Seq<CostedState>, name: Seq<char>) -> Option<CostedState> {
    let i = costed_index(states, name) as int;
    if i < states.len() {
        Some(states[i])
    } else {
        None
    }
}

/// The name of an action on the dashboard.
pub open spec fn action_text(a: ScheduleAction) -> Seq<char> {
    match a {
        ScheduleAction::Raw => "raw"@,
        ScheduleAction::GithubPoll => "githubpoll"@,
        ScheduleAction::Shell => "shell"@,
    }
}

/// A schedule on the dashboard.
pub open spec fn schedule_of(t: TimedSchedule) -> DashboardScheduleModel {
    DashboardScheduleModel {
        cron: t.schedule.cron@,
        action: action_text(t.schedule.action),
        target: t.schedule.target@,
        next: match t.next {
            Some(n) => n@,
            None => "?"@,
        },
    }
}

/// An agent on the dashboard. One whose bus is not there is offline, and shows
/// no task.
pub open spec fn agent_of(
    name: Seq<char>,
    state: Option<CostedState>,
    facts: AgentFacts,
    workers: Seq<WorkerModel>,
) -> DashboardAgentModel {
    DashboardAgentModel {
        name,
        status: if facts.online && state is Some {
            state->0.state.status@
        } else {
            "offline"@
        },
        turns: match state {
            Some(s) => s.state.total_turns,
            None => 0,
        },
        cost: match state {
            Some(s) => amount_of(s),
            None => AmountModel { value: "0.0"@, shown: "0.00"@ },
        },
        current_task: if facts.online && state is Some {
            state->0.state.current_task@
        } else {
            Seq::empty()
        },
        workers,
        schedules: Seq::new(facts.schedules@.len(), |i: int| schedule_of(facts.schedules@[i])),
    }
}

/// The names of agents.
pub open spec fn def_names(defs: Seq<AgentDef>) -> Seq<Seq<char>> {
    Seq::new(defs.len(), |i: int| defs[i].name@)
}

/// The `i`th agent on the dashboard. The workers of agents of the same name are
/// shown with the first of them.
pub open spec fn dashboard_agent(
    defs: Seq<AgentDef>,
    states: Seq<CostedState>,
    facts: Seq<AgentFacts>,
    i: int,
) -> DashboardAgentModel {
    let name = defs[i].name@;
    agent_of(
        name,
        costed_named(states, name),
        facts[i],
        if def_names(defs).take(i).contains(name) {
            Seq::empty()
        } else {
            workers_of(states, name)
        },
    )
}

fn find_costed<'a>(states: &'a Vec<CostedState>, name: &str) -> (r: Option<&'a CostedState>)
    ensures
        match r {
            Some(s) => costed_named(states@, name@) == Some(*s),
            None => costed_named(states@, name@) is None,
        },
{
    let mut i: usize = 0;
    assert(states@.skip(0) =~= states@);
    while i < states.len()
        invariant
            i <= states@.len(),
            costed_index(states@, name@) == i + costed_index(states@.skip(i as int), name@),
        decreases states@.len() - i,
    {
        assert(states@.skip(i as int)[0] == states@[i as int]);
        if same(&states[i].state.name, name) {
            return Some(&states[i]);
        }
        assert(states@.skip(i as int).skip(1) =~= states@.skip(i + 1));
        i += 1;
    }
    None
}

fn amount(s: &CostedState) -> (r: Amount)
    ensures
        r@ == amount_of(*s),
{
    Amount { value: s.state.total_cost.clone(), shown: s.shown_cost.clone() }
}

fn collect_workers(states: &Vec<CostedState>, parent: &str) -> (r: Vec<DashboardWorker>)
    ensures
        worker_models(r@) == workers_of(states@, parent@),
{
    let mut out: Vec<DashboardWorker> = Vec::new();
    let mut i: usize = 0;
    assert(worker_models(out@) =~= workers_of(states@.take(0), parent@));
    while i < states.len()
        invariant
            i <= states@.len(),
            worker_models(out@) == workers_of(states@.take(i as int), parent@),
        decreases states@.len() - i,
    {
        let ghost before = worker_models(out@);
        assert(states@.take(i + 1).drop_last() =~= states@.take(i as int));
        assert(states@.take(i + 1).last() == states@[i as int]);
        let s = &states[i];
        let mine: bool = match &s.state.parent {
            Some(p) => same(p, parent),
            None => false,
        };
        if mine {
            let w = DashboardWorker {
                name: s.state.name.clone(),
                status: s.state.status.clone(),
                turns: s.state.total_turns,
                cost: amount(s),
                current_task: s.state.current_task.clone(),
            };
            out.push(w);
            assert(worker_models(out@) =~= before.push(worker_of(*s)));
        }
        i += 1;
    }
    assert(states@.take(i as int) =~= states@);
    out
}

fn show_action(a: ScheduleAction) -> (r: &'static str)
    ensures
        r@ == action_text(a),
{
    match a {
        ScheduleAction::Raw => "raw",
        ScheduleAction::GithubPoll => "githubpoll",
        ScheduleAction::Shell => "shell",
    }
}

fn collect_schedules(v: &Vec<TimedSchedule>) -> (r: Vec<DashboardSchedule>)
    ensures
        schedule_models(r@) == Seq::new(v@.len(), |i: int| schedule_of(v@[i])),
{
    let ghost expected = Seq::new(v@.len(), |i: int| schedule_of(v@[i]));
    let mut out: Vec<DashboardSchedule> = Vec::new();
    let mut i: usize = 0;
    assert(schedule_models(out@) =~= expected.take(0));
    while i < v.len()
        invariant
            i <= v@.len(),
            expected == Seq::new(v@.len(), |i: int| schedule_of(v@[i])),
            schedule_models(out@) == expected.take(i as int),
        decreases v@.len() - i,
    {
        let ghost before = schedule_models(out@);
        let t = &v[i];
        out.push(
            DashboardSchedule {
                cron: t.schedule.cron.clone(),
                action: String::from_str(show_action(t.schedule.action)),
                target: t.schedule.target.clone(),
                next: match &t.next {
                    Some(n) => n.clone(),
                    None => String::from_str("?"),
                },
            },
        );
        assert(schedule_models(out@) =~= before.push(expected[i as int]));
        assert(expected.take(i + 1) =~= before.push(expected[i as int]));
        i += 1;
    }
    assert(expected.take(i as int) =~= expected);
    out
}

fn make_agent(
    name: &str,
    state: Option<&CostedState>,
    facts: &AgentFacts,
    workers: Vec<DashboardWorker>,
) -> (r: DashboardAgent)
    ensures
        r@ == agent_of(
            name@,
            match state {
                Some(s) => Some(*s),
                None => None,
            },
            *facts,
            worker_models(workers@),
        ),
{
    let schedules = collect_schedules(&facts.schedules);
    match state {
        Some(s) => DashboardAgent {
            name: String::from_str(name),
            status: if facts.online {
                s.state.status.clone()
            } else {
                String::from_str("offline")
            },
            turns: s.state.total_turns,
            cost: amount(s),
            current_task: if facts.online {
                s.state.current_task.clone()
            } else {
                String::new()
            },
            workers,
            schedules,
        },
        None => DashboardAgent {
            name: String::from_str(name),
            status: String::from_str("offline"),
            turns: 0,
            cost: Amount { value: String::from_str("0.0"), shown: String::from_str("0.00") },
            current_task: String::new(),
            workers,
            schedules,
        },
    }
}

/// The agents on the dashboard, in the order of the workspace.
pub fn build_agents(
    defs: &Vec<AgentDef>,
    states: &Vec<CostedState>,
    facts: &Vec<AgentFacts>,
) -> (r: Vec<DashboardAgent>)
    requires
        facts@.len() == defs@.len(),
    ensures
        agent_models(r@) == Seq::new(
            defs@.len(),
            |i: int| dashboard_agent(defs@, states@, facts@, i),
        ),
{
    let ghost expected = Seq::new(
        defs@.len(),
        |i: int| dashboard_agent(defs@, states@, facts@, i),
    );
    let ghost names = def_names(defs@);
    let mut out: Vec<DashboardAgent> = Vec::new();
    let mut seen: Vec<String> = Vec::new();
    let mut i: usize = 0;
    assert(agent_models(out@) =~= expected.take(0));
    assert(texts(seen@) =~= names.take(0));
    while i < defs.len()
        invariant
            i <= defs@.len(),
            facts@.len() == defs@.len(),
            names == def_names(defs@),
            texts(seen@) == names.take(i as int),
            expected == Seq::new(
                defs@.len(),
                |i: int| dashboard_agent(defs@, states@, facts@, i),
            ),
            agent_models(out@) == expected.take(i as int),
        decreases defs@.len() - i,
    {
        let ghost before = agent_models(out@);
        let ghost seen_before = texts(seen@);
        let name = &defs[i].name;
        let workers: Vec<DashboardWorker> = if has(&seen, name) {
            let none: Vec<DashboardWorker> = Vec::new();
            assert(worker_models(none@) =~= Seq::<WorkerModel>::empty());
            none
        } else {
            collect_workers(states, name)
        };
        let a = make_agent(name, find_costed(states, name), &facts[i], workers);
        assert(a@ == expected[i as int]);
        out.push(a);
        seen.push(name.clone());
        assert(agent_models(out@) =~= before.push(expected[i as int]));
        assert(expected.take(i + 1) =~= before.push(expected[i as int]));
        assert(texts(seen@) =~= seen_before.push(names[i as int]));
        assert(names.take(i + 1) =~= seen_before.push(names[i as int]));
        i += 1;
    }
    assert(expected.take(i as int) =~= expected);
    out
}

/// Whether an instance of a model is in a state that ends it. An instance of an
/// unknown model is not.
pub open spec fn has_ended(models: Seq<ModelDef>, model: Seq<char>, state: Seq<char>) -> bool {
    match model_named(models, model) {
        Some(m) => texts(m.terminal@).contains(state),
        None => false,
    }
}

/// The instances that have not ended, in order.
pub open spec fn running(instances: Seq<DashboardSm>, models: Seq<ModelDef>) -> Seq<DashboardSm>
    decreases instances.len(),
{
    if instances.len() == 0 {
        Seq::empty()
    } else {
        let tail = running(instances.skip(1), models);
        if has_ended(models, instances[0].model@, instances[0].state@) {
            tail
        } else {
            seq![instances[0]] + tail
        }
    }
}

/// The instances that have not ended. Instances of unknown models are kept.
pub fn collect_sm_instances(instances: Vec<DashboardSm>, models: &Vec<ModelDef>) -> (r: Vec<
    DashboardSm,
>)
    ensures
        r@ == running(instances@, models@),
{
    let ghost all = instances@;
    let mut rest = instances;
    let mut out: Vec<DashboardSm> = Vec::new();
    assert(all.skip(all.len() as int) =~= Seq::<DashboardSm>::empty());
    assert(all.take(all.len() as int) =~= all);
    loop
        invariant
            rest@ == all.take(rest@.len() as int),
            rest@.len() <= all.len(),
            out@ == running(all.skip(rest@.len() as int), models@),
        ensures
            out@ == running(all, models@),
        decreases rest@.len(),
    {
        let ghost n = rest@.len() as int;
        match rest.pop() {
            Some(x) => {
                proof {
                    assert(x == all[n - 1]);
                    assert(rest@ =~= all.take(n - 1));
                    assert(all.skip(n - 1).skip(1) =~= all.skip(n));
                    assert(all.skip(n - 1)[0] == x);
                }
                let ended: bool = match find_model(models, &x.model) {
                    Some(m) => has(&m.terminal, &x.state),
                    None => false,
                };
                if !ended {
                    let ghost before = out@;
                    out.insert(0, x);
                    assert(out@ =~= seq![x] + before);
                }
            },
            None => {
                assert(all.skip(0) =~= all);
                break;
            },
        }
    }
    out
}

/// Whether `r` is the dashboard of a workspace.
pub open spec fn builds(
    defs: Seq<AgentDef>,
    states: Seq<CostedState>,
    facts: Seq<AgentFacts>,
    instances: Seq<DashboardSm>,
    models: Seq<ModelDef>,
    tasks: DashboardTasks,
    r: Dashboard,
) -> bool {
    &&& agent_models(r.agents@) == Seq::new(
        defs.len(),
        |i: int| dashboard_agent(defs, states, facts, i),
    )
    &&& r.sm_instances@ == running(instances, models)
    &&& r.tasks == tasks
}

/// The dashboard. `facts` holds what is known of each agent of the workspace,
/// and `models` the state machine models that are known.
pub fn build(
    defs: &Vec<AgentDef>,
    states: &Vec<CostedState>,
    facts: &Vec<AgentFacts>,
    instances: Vec<DashboardSm>,
    models: &Vec<ModelDef>,
    tasks: DashboardTasks,
) -> (r: Dashboard)
    requires
        facts@.len() == defs@.len(),
    ensures
        builds(defs@, states@, facts@, instances@, models@, tasks, r),
{
    Dashboard {
        agents: build_agents(defs, states, facts),
        sm_instances: collect_sm_instances(instances, models),
        tasks,
    }
}

/// Every running instance is on the dashboard.
pub proof fn running_instances_are_kept(
    instances: Seq<DashboardSm>,
    models: Seq<ModelDef>,
    x: DashboardSm,
)
    ensures
        running(instances, models).contains(x) <==> (instances.contains(x) && !has_ended(
            models,
            x.model@,
            x.state@,
        )),
    decreases instances.len(),
{
    if instances.len() > 0 {
        let rest = instances.skip(1);
        let tail = running(rest, models);
        running_instances_are_kept(rest, models, x);
        let whole = running(instances, models);
        assert(instances =~= seq![instances[0]] + rest);
        if instances.contains(x) {
            let i = choose|i: int| 0 <= i < instances.len() && instances[i] == x;
            if i > 0 {
                assert(rest[i - 1] == x);
            }
        }
        if rest.contains(x) {
            let i = choose|i: int| 0 <= i < rest.len() && rest[i] == x;
            assert(instances[i + 1] == x);
        }
        if has_ended(models, instances[0].model@, instances[0].state@) {
            assert(whole == tail);
        } else {
            assert(whole[0] == instances[0]);
            if tail.contains(x) {
                let i = choose|i: int| 0 <= i < tail.len() && tail[i] == x;
                assert(whole[i + 1] == x);
            }
            if whole.contains(x) {
                let i = choose|i: int| 0 <= i < whole.len() && whole[i] == x;
                if i > 0 {
                    assert(tail[i - 1] == x);
                }
            }
            assert(instances[0] == instances[0]);
        }
    }
}

// ─── Text ───────────────────────────────────────────────────────────────────

/// The task of an agent: the start of it in quotes, or a dash.
pub open spec fn task_field(task: Seq<char>) -> Seq<char> {
    if task.len() == 0 {
        "-"@
    } else {
        "\""@ + char_prefix_spec(task, 60) + "\""@
    }
}

/// The lines of the first `n` schedules.
pub open spec fn schedules_text(v: Seq<DashboardScheduleModel>, n: int) -> Seq<char>
    decreases n,
{
    if n <= 0 {
        Seq::empty()
    } else {
        schedules_text(v, n - 1) + "    "@ + pad_right_spec(v[n - 1].cron, 18) + " "@
            + pad_right_spec(v[n - 1].action, 14) + " -> "@ + pad_right_spec(v[n - 1].target, 24)
            + " next "@ + v[n - 1].next + "\n"@
    }
}

/// The lines of an agent.
pub open spec fn agent_lines(a: DashboardAgentModel) -> Seq<char> {
    "  "@ + pad_right_spec(a.name, 10) + " "@ + pad_right_spec(a.status, 9) + " $"@
        + pad_right_spec(a.cost.shown, 6) + " "@ + task_field(a.current_task) + "\n"@
        + schedules_text(a.schedules, a.schedules.len() as int)
}

/// The lines of the first `n` agents.
pub open spec fn agents_text(v: Seq<DashboardAgentModel>, n: int) -> Seq<char>
    decreases n,
{
    if n <= 0 {
        Seq::empty()
    } else {
        agents_text(v, n - 1) + agent_lines(v[n - 1])
    }
}

/// The line of a worker.
pub open spec fn worker_line(w: WorkerModel) -> Seq<char> {
    "  "@ + pad_right_spec(w.name, 22) + " "@ + pad_right_spec(w.status, 9) + " "@ + pad_left_spec(
        decimal(w.turns as nat),
        3,
    ) + " turns  $"@ + pad_right_spec(w.cost.shown, 6) + " "@ + task_field(w.current_task) + "\n"@
}

/// The lines of the first `n` workers.
pub open spec fn workers_text(v: Seq<WorkerModel>, n: int) -> Seq<char>
    decreases n,
{
    if n <= 0 {
        Seq::empty()
    } else {
        workers_text(v, n - 1) + worker_line(v[n - 1])
    }
}

/// The section with the workers of an agent. There is none without workers.
pub open spec fn worker_section(a: DashboardAgentModel) -> Seq<char> {
    if a.workers.len() == 0 {
        Seq::empty()
    } else {
        "\nWORKERS (inside "@ + a.name + ")\n"@ + workers_text(a.workers, a.workers.len() as int)
    }
}

/// The sections with the workers of the first `n` agents.
pub open spec fn worker_sections(v: Seq<DashboardAgentModel>, n: int) -> Seq<char>
    decreases n,
{
    if n <= 0 {
        Seq::empty()
    } else {
        worker_sections(v, n - 1) + worker_section(v[n - 1])
    }
}

/// The line of an instance.
pub open spec fn instance_line(s: DashboardSm) -> Seq<char> {
    "  "@ + pad_right_spec(s.id@, 12) + " "@ + pad_right_spec(s.model@, 10) + " "@ + pad_right_spec(
        s.state@,
        10,
    ) + " "@ + pad_right_spec(char_prefix_spec(s.title@, 40), 40) + " $"@ + s.total_cost.shown@
        + "\n"@
}

/// The lines of the first `n` instances.
pub open spec fn instances_text(v: Seq<DashboardSm>, n: int) -> Seq<char>
    decreases n,
{
    if n <= 0 {
        Seq::empty()
    } else {
        instances_text(v, n - 1) + instance_line(v[n - 1])
    }
}

/// The line with the numbers of tasks.
pub open spec fn task_counts(t: DashboardTasks) -> Seq<char> {
    "  "@ + decimal(t.pending as nat) + " pending, "@ + decimal(t.active as nat) + " active, "@
        + decimal(t.done as nat) + " done, "@ + decimal(t.failed as nat) + " failed\n"@
}

/// The dashboard as text.
pub open spec fn dashboard_text(d: Dashboard) -> Seq<char> {
    let agents = agent_models(d.agents@);
    "AGENTS\n"@ + (if agents.len() == 0 {
        "  (none)\n"@
    } else {
        agents_text(agents, agents.len() as int)
    }) + worker_sections(agents, agents.len() as int) + "\nSM INSTANCES\n"@ + (
    if d.sm_instances@.len() == 0 {
        "  (none)\n"@
    } else {
        instances_text(d.sm_instances@, d.sm_instances@.len() as int)
    }) + "\nTASKS\n"@ + task_counts(d.tasks)
}

fn show_task_field(task: &str) -> (r: String)
    ensures
        r@ == task_field(task@),
{
    if task.is_empty() {
        String::from_str("-")
    } else {
        cat3("\"", char_prefix(task, 60), "\"")
    }
}

fn show_schedules(v: &Vec<DashboardSchedule>) -> (r: String)
    ensures
        r@ == schedules_text(schedule_models(v@), v@.len() as int),
{
    let ghost all = schedule_models(v@);
    let mut out = String::new();
    let mut i: usize = 0;
    while i < v.len()
        invariant
            i <= v@.len(),
            all == schedule_models(v@),
            out@ == schedules_text(all, i as int),
        decreases v@.len() - i,
    {
        let s = &v[i];
        assert(all[i as int] == s@);
        out.append("    ");
        put_padded(&mut out, &s.cron, 18);
        out.append(" ");
        put_padded(&mut out, &s.action, 14);
        out.append(" -> ");
        put_padded(&mut out, &s.target, 24);
        out.append(" next ");
        out.append(&s.next);
        out.append("\n");
        i += 1;
    }
    out
}

fn show_agent(a: &DashboardAgent) -> (r: String)
    ensures
        r@ == agent_lines(a@),
{
    let mut out = String::from_str("  ");
    put_padded(&mut out, &a.name, 10);
    out.append(" ");
    put_padded(&mut out, &a.status, 9);
    out.append(" $");
    put_padded(&mut out, &a.cost.shown, 6);
    out.append(" ");
    let task = show_task_field(&a.current_task);
    out.append(&task);
    out.append("\n");
    let schedules = show_schedules(&a.schedules);
    out.append(&schedules);
    out
}

fn show_worker(w: &DashboardWorker) -> (r: String)
    ensures
        r@ == worker_line(w@),
{
    let mut out = String::from_str("  ");
    put_padded(&mut out, &w.name, 22);
    out.append(" ");
    put_padded(&mut out, &w.status, 9);
    out.append(" ");
    let turns = pad_left(&show_u64(w.turns as u64), 3);
    out.append(&turns);
    out.append(" turns  $");
    put_padded(&mut out, &w.cost.shown, 6);
    out.append(" ");
    let task = show_task_field(&w.current_task);
    out.append(&task);
    out.append("\n");
    out
}

fn show_worker_section(a: &DashboardAgent) -> (r: String)
    ensures
        r@ == worker_section(a@),
{
    if a.workers.len() == 0 {
        return String::new();
    }
    let ghost all = worker_models(a.workers@);
    let mut body = String::new();
    let mut i: usize = 0;
    while i < a.workers.len()
        invariant
            i <= a.workers@.len(),
            all == worker_models(a.workers@),
            body@ == workers_text(all, i as int),
        decreases a.workers@.len() - i,
    {
        assert(all[i as int] == a.workers@[i as int]@);
        let line = show_worker(&a.workers[i]);
        body.append(&line);
        i += 1;
    }
    let mut out = cat3("\nWORKERS (inside ", &a.name, ")\n");
    out.append(&body);
    out
}

fn show_instance(s: &DashboardSm) -> (r: String)
    ensures
        r@ == instance_line(*s),
{
    let mut out = String::from_str("  ");
    put_padded(&mut out, &s.id, 12);
    out.append(" ");
    put_padded(&mut out, &s.model, 10);
    out.append(" ");
    put_padded(&mut out, &s.state, 10);
    out.append(" ");
    put_padded(&mut out, char_prefix(&s.title, 40), 40);
    out.append(" $");
    out.append(&s.total_cost.shown);
    out.append("\n");
    out
}

fn show_task_counts(t: &DashboardTasks) -> (r: String)
    ensures
        r@ == task_counts(*t),
{
    let mut out = cat3("  ", &show_usize(t.pending), " pending, ");
    let active = show_usize(t.active);
    out.append(&active);
    out.append(" active, ");
    let done = show_usize(t.done);
    out.append(&done);
    out.append(" done, ");
    let failed = show_usize(t.failed);
    out.append(&failed);
    out.append(" failed\n");
    out
}

fn show_agents(v: &Vec<DashboardAgent>) -> (r: (String, String))
    ensures
        r.0@ == agents_text(agent_models(v@), v@.len() as int),
        r.1@ == worker_sections(agent_models(v@), v@.len() as int),
{
    let ghost all = agent_models(v@);
    let mut lines = String::new();
    let mut sections = String::new();
    let mut i: usize = 0;
    while i < v.len()
        invariant
            i <= v@.len(),
            all == agent_models(v@),
            lines@ == agents_text(all, i as int),
            sections@ == worker_sections(all, i as int),
        decreases v@.len() - i,
    {
        assert(all[i as int] == v@[i as int]@);
        let line = show_agent(&v[i]);
        lines.append(&line);
        let section = show_worker_section(&v[i]);
        sections.append(&section);
        i += 1;
    }
    (lines, sections)
}

/// The dashboard as text.
pub fn render_text(dash: &Dashboard) -> (r: String)
    ensures
        r@ == dashboard_text(*dash),
{
    let mut out = String::from_str("AGENTS\n");
    let (agents, sections) = show_agents(&dash.agents);
    if dash.agents.len() == 0 {
        out.append("  (none)\n");
    } else {
        out.append(&agents);
    }
    out.append(&sections);
    out.append("\nSM INSTANCES\n");
    if dash.sm_instances.len() == 0 {
        out.append("  (none)\n");
    } else {
        let mut body = String::new();
        let mut i: usize = 0;
        while i < dash.sm_instances.len()
            invariant
                i <= dash.sm_instances@.len(),
                body@ == instances_text(dash.sm_instances@, i as int),
            decreases dash.sm_instances@.len() - i,
        {
            let line = show_instance(&dash.sm_instances[i]);
            body.append(&line);
            i += 1;
        }
        out.append(&body);
    }
    out.append("\nTASKS\n");
    let counts = show_task_counts(&dash.tasks);
    out.append(&counts);
    out
}

// ─── JSON ───────────────────────────────────────────────────────────────────

/// The JSON form of a worker.
pub open spec fn worker_json_model(w: WorkerModel) -> JsonModel {
    JsonModel::Object(
        seq![
            ("name"@, JsonModel::Text(w.name)),
            ("status"@, JsonModel::Text(w.status)),
            ("turns"@, JsonModel::Number(w.turns as int)),
            ("cost"@, JsonModel::Float(w.cost.value)),
            ("current_task"@, JsonModel::Text(w.current_task)),
        ],
    )
}

/// The JSON form of a schedule.
pub open spec fn schedule_json_model(s: DashboardScheduleModel) -> JsonModel {
    JsonModel::Object(
        seq![
            ("cron"@, JsonModel::Text(s.cron)),
            ("action"@, JsonModel::Text(s.action)),
            ("target"@, JsonModel::Text(s.target)),
            ("next"@, JsonModel::Text(s.next)),
        ],
    )
}

/// The JSON form of an agent.
pub open spec fn agent_json_model(a: DashboardAgentModel) -> JsonModel {
    JsonModel::Object(
        seq![
            ("name"@, JsonModel::Text(a.name)),
            ("status"@, JsonModel::Text(a.status)),
            ("turns"@, JsonModel::Number(a.turns as int)),
            ("cost"@, JsonModel::Float(a.cost.value)),
            ("current_task"@, JsonModel::Text(a.current_task)),
            (
                "workers"@,
                JsonModel::List(
                    Seq::new(a.workers.len(), |i: int| worker_json_model(a.workers[i])),
                ),
            ),
            (
                "schedules"@,
                JsonModel::List(
                    Seq::new(a.schedules.len(), |i: int| schedule_json_model(a.schedules[i])),
                ),
            ),
        ],
    )
}

/// The JSON form of an instance.
pub open spec fn sm_json_model(s: DashboardSm) -> JsonModel {
    JsonModel::Object(
        seq![
            ("id"@, JsonModel::Text(s.id@)),
            ("model"@, JsonModel::Text(s.model@)),
            ("state"@, JsonModel::Text(s.state@)),
            ("title"@, JsonModel::Text(s.title@)),
            ("assignee"@, JsonModel::Text(s.assignee@)),
            ("total_cost"@, JsonModel::Float(s.total_cost.value@)),
        ],
    )
}

/// The JSON form of the numbers of tasks.
pub open spec fn tasks_json_model(t: DashboardTasks) -> JsonModel {
    JsonModel::Object(
        seq![
            ("pending"@, JsonModel::Number(t.pending as int)),
            ("active"@, JsonModel::Number(t.active as int)),
            ("done"@, JsonModel::Number(t.done as int)),
            ("failed"@, JsonModel::Number(t.failed as int)),
        ],
    )
}

/// The dashboard as JSON.
pub open spec fn dashboard_json(d: Dashboard) -> JsonModel {
    let agents = agent_models(d.agents@);
    JsonModel::Object(
        seq![
            (
                "agents"@,
                JsonModel::List(Seq::new(agents.len(), |i: int| agent_json_model(agents[i]))),
            ),
            (
                "sm_instances"@,
                JsonModel::List(
                    Seq::new(d.sm_instances@.len(), |i: int| sm_json_model(d.sm_instances@[i])),
                ),
            ),
            ("tasks"@, tasks_json_model(d.tasks)),
        ],
    )
}

fn worker_json(w: &DashboardWorker) -> (r: Json)
    ensures
        r@ == worker_json_model(w@),
{
    let mut f = Fields::new();
    f.put_text("name", &w.name);
    f.put_text("status", &w.status);
    f.put("turns", Json::uint(w.turns as u64));
    f.put("cost", Json::Float(w.cost.value.clone()));
    f.put_text("current_task", &w.current_task);
    assert(f@ =~= worker_json_model(w@)->Object_0);
    f.object()
}

fn schedule_json(s: &DashboardSchedule) -> (r: Json)
    ensures
        r@ == schedule_json_model(s@),
{
    let mut f = Fields::new();
    f.put_text("cron", &s.cron);
    f.put_text("action", &s.action);
    f.put_text("target", &s.target);
    f.put_text("next", &s.next);
    assert(f@ =~= schedule_json_model(s@)->Object_0);
    f.object()
}

fn workers_json(v: &Vec<DashboardWorker>) -> (r: Json)
    ensures
        r@ == JsonModel::List(
            Seq::new(
                worker_models(v@).len(),
                |i: int| worker_json_model(worker_models(v@)[i]),
            ),
        ),
{
    let ghost all = worker_models(v@);
    let ghost expected = Seq::new(all.len(), |i: int| worker_json_model(all[i]));
    let mut out = Items::new();
    let mut i: usize = 0;
    assert(out@ =~= expected.take(0));
    while i < v.len()
        invariant
            i <= v@.len(),
            all == worker_models(v@),
            expected == Seq::new(all.len(), |i: int| worker_json_model(all[i])),
            out@ == expected.take(i as int),
        decreases v@.len() - i,
    {
        assert(all[i as int] == v@[i as int]@);
        out.put(worker_json(&v[i]));
        assert(expected.take(i + 1) =~= expected.take(i as int).push(expected[i as int]));
        i += 1;
    }
    assert(expected.take(i as int) =~= expected);
    out.list()
}

fn schedules_json(v: &Vec<DashboardSchedule>) -> (r: Json)
    ensures
        r@ == JsonModel::List(
            Seq::new(
                schedule_models(v@).len(),
                |i: int| schedule_json_model(schedule_models(v@)[i]),
            ),
        ),
{
    let ghost all = schedule_models(v@);
    let ghost expected = Seq::new(all.len(), |i: int| schedule_json_model(all[i]));
    let mut out = Items::new();
    let mut i: usize = 0;
    assert(out@ =~= expected.take(0));
    while i < v.len()
        invariant
            i <= v@.len(),
            all == schedule_models(v@),
            expected == Seq::new(all.len(), |i: int| schedule_json_model(all[i])),
            out@ == expected.take(i as int),
        decreases v@.len() - i,
    {
        assert(all[i as int] == v@[i as int]@);
        out.put(schedule_json(&v[i]));
        assert(expected.take(i + 1) =~= expected.take(i as int).push(expected[i as int]));
        i += 1;
    }
    assert(expected.take(i as int) =~= expected);
    out.list()
}

fn agent_json(a: &DashboardAgent) -> (r: Json)
    ensures
        r@ == agent_json_model(a@),
{
    let mut f = Fields::new();
    f.put_text("name", &a.name);
    f.put_text("status", &a.status);
    f.put("turns", Json::uint(a.turns as u64));
    f.put("cost", Json::Float(a.cost.value.clone()));
    f.put_text("current_task", &a.current_task);
    f.put("workers", workers_json(&a.workers));
    f.put("schedules", schedules_json(&a.schedules));
    assert(f@ =~= agent_json_model(a@)->Object_0);
    f.object()
}

fn sm_json(s: &DashboardSm) -> (r: Json)
    ensures
        r@ == sm_json_model(*s),
{
    let mut f = Fields::new();
    f.put_text("id", &s.id);
    f.put_text("model", &s.model);
    f.put_text("state", &s.state);
    f.put_text("title", &s.title);
    f.put_text("assignee", &s.assignee);
    f.put("total_cost", Json::Float(s.total_cost.value.clone()));
    assert(f@ =~= sm_json_model(*s)->Object_0);
    f.object()
}

fn agents_json(v: &Vec<DashboardAgent>) -> (r: Json)
    ensures
        r@ == JsonModel::List(
            Seq::new(agent_models(v@).len(), |i: int| agent_json_model(agent_models(v@)[i])),
        ),
{
    let ghost all = agent_models(v@);
    let ghost expected = Seq::new(all.len(), |i: int| agent_json_model(all[i]));
    let mut out = Items::new();
    let mut i: usize = 0;
    assert(out@ =~= expected.take(0));
    while i < v.len()
        invariant
            i <= v@.len(),
            all == agent_models(v@),
            expected == Seq::new(all.len(), |i: int| agent_json_model(all[i])),
            out@ == expected.take(i as int),
        decreases v@.len() - i,
    {
        assert(all[i as int] == v@[i as int]@);
        out.put(agent_json(&v[i]));
        assert(expected.take(i + 1) =~= expected.take(i as int).push(expected[i as int]));
        i += 1;
    }
    assert(expected.take(i as int) =~= expected);
    out.list()
}

/// The dashboard as JSON.
pub fn render_json(dash: &Dashboard) -> (r: Json)
    ensures
        r@ == dashboard_json(*dash),
{
    let ghost expected = Seq::new(
        dash.sm_instances@.len(),
        |i: int| sm_json_model(dash.sm_instances@[i]),
    );
    let mut sms = Items::new();
    let mut i: usize = 0;
    assert(sms@ =~= expected.take(0));
    while i < dash.sm_instances.len()
        invariant
            i <= dash.sm_instances@.len(),
            expected == Seq::new(
                dash.sm_instances@.len(),
                |i: int| sm_json_model(dash.sm_instances@[i]),
            ),
            sms@ == expected.take(i as int),
        decreases dash.sm_instances@.len() - i,
    {
        sms.put(sm_json(&dash.sm_instances[i]));
        assert(expected.take(i + 1) =~= expected.take(i as int).push(expected[i as int]));
        i += 1;
    }
    assert(expected.take(i as int) =~= expected);
    let t = &dash.tasks;
    let mut tasks = Fields::new();
    tasks.put("pending", Json::Number(t.pending as i128));
    tasks.put("active", Json::Number(t.active as i128));
    tasks.put("done", Json::Number(t.done as i128));
    tasks.put("failed", Json::Number(t.failed as i128));
    assert(tasks@ =~= tasks_json_model(*t)->Object_0);
    let mut f = Fields::new();
    f.put("agents", agents_json(&dash.agents));
    f.put("sm_instances", sms.list());
    f.put("tasks", tasks.object());
    assert(f@ =~= dashboard_json(*dash)->Object_0);
    f.object()
}

// ─── What the dashboard tells ───────────────────────────────────────────────

/// Every agent of the workspace is on the dashboard, in order, with the state of that name;
/// it is offline, and shows no task, where its bus is not there or nothing is known of it.
pub proof fn every_agent_is_on_the_dashboard(
    defs: Seq<AgentDef>,
    states: Seq<CostedState>,
    facts: Seq<AgentFacts>,
    instances: Seq<DashboardSm>,
    models: Seq<ModelDef>,
    tasks: DashboardTasks,
    r: Dashboard,
    i: int,
)
    requires
        builds(defs, states, facts, instances, models, tasks, r),
        0 <= i < defs.len(),
    ensures
        r.agents@.len() == defs.len(),
        r.tasks == tasks,
        ({
            let a = agent_models(r.agents@)[i];
            let known = costed_named(states, defs[i].name@);
            &&& a.name == defs[i].name@
            &&& !facts[i].online || known is None ==> a.status == "offline"@ && a.current_task.len()
                == 0
            &&& facts[i].online && known is Some ==> a.status == known->0.state.status@
                && a.current_task == known->0.state.current_task@
            &&& known matches Some(s) ==> a.turns == s.state.total_turns && a.cost.value
                == s.state.total_cost@ && a.cost.shown == s.shown_cost@
            &&& known is None ==> a.turns == 0
            &&& a.schedules.len() == facts[i].schedules@.len()
        }),
{
    assert(agent_models(r.agents@).len() == r.agents@.len());
}

/// The state that a name finds is the first of that name.
pub proof fn state_of_a_name_is_the_first(states: Seq<CostedState>, name: Seq<char>)
    ensures
        match costed_named(states, name) {
            Some(s) => s.state.name@ == name && states.contains(s),
            None => forall|j: int|
                0 <= j < states.len() ==> (#[trigger] states[j]).state.name@ != name,
        },
    decreases states.len(),
{
    if states.len() > 0 && states[0].state.name@ != name {
        let rest = states.skip(1);
        state_of_a_name_is_the_first(rest, name);
        let k = costed_index(rest, name) as int;
        if k < rest.len() {
            assert(rest[k] == states[k + 1]);
        } else {
            assert forall|j: int| 0 <= j < states.len() implies (#[trigger] states[j]).state.name@
                != name by {
                if j > 0 {
                    assert(rest[j - 1] == states[j]);
                }
            }
        }
    } else if states.len() > 0 {
        assert(states[0] == costed_named(states, name)->0);
    }
}

/// The workers of an agent are its sub-agents.
pub proof fn workers_are_the_sub_agents(states: Seq<CostedState>, parent: Seq<char>, v: WorkerModel)
    ensures
        workers_of(states, parent).contains(v) <==> exists|i: int|
            0 <= i < states.len() && worker_of(#[trigger] states[i]) == v && opt_text(states[i].state.parent) == Some(parent),
    decreases states.len(),
{
    if states.len() > 0 {
        let front = states.drop_last();
        let head = workers_of(front, parent);
        let out = workers_of(states, parent);
        workers_are_the_sub_agents(front, parent, v);
        if out.contains(v) {
            let k = choose|k: int| 0 <= k < out.len() && out[k] == v;
            if k < head.len() {
                assert(head[k] == v);
                let i = choose|i: int| 0 <= i < front.len() && worker_of(#[trigger] front[i]) == v && opt_text(front[i].state.parent) == Some(parent);
                assert(states[i] == front[i]);
            } else {
                assert(states[states.len() - 1] == states.last());
            }
        }
        if exists|i: int| 0 <= i < states.len() && worker_of(#[trigger] states[i]) == v && opt_text(states[i].state.parent) == Some(parent) {
            let i = choose|i: int| 0 <= i < states.len() && worker_of(#[trigger] states[i]) == v && opt_text(states[i].state.parent) == Some(parent);
            if i < front.len() {
                assert(front[i] == states[i]);
                let k = choose|k: int| 0 <= k < head.len() && head[k] == v;
                assert(out[k] == v);
            } else {
                assert(out[out.len() - 1] == v);
            }
        }
    }
}

/// A worker is shown as its state tells.
pub proof fn workers_are_shown_as_they_are(s: CostedState)
    ensures
        worker_of(s).name == s.state.name@,
        worker_of(s).status == s.state.status@,
        worker_of(s).turns == s.state.total_turns,
        worker_of(s).cost.value == s.state.total_cost@,
        worker_of(s).cost.shown == s.shown_cost@,
        worker_of(s).current_task == s.state.current_task@,
{
}

/// A schedule is shown with its expression and its target, and with when it fires next,
/// where that is known.
pub proof fn schedules_are_shown_as_they_are(t: TimedSchedule)
    ensures
        schedule_of(t).cron == t.schedule.cron@,
        schedule_of(t).target == t.schedule.target@,
        t.next matches Some(n) ==> schedule_of(t).next == n@,
        t.next is None ==> schedule_of(t).next == "?"@,
{
}

/// A wait and the time now add up to the second at which a schedule fires.
pub proof fn waiting_ends_when_it_fires(t: i64, now: i64)
    ensures
        nanos_until(Some(t), now) matches Some(w) && now + w == t * 1_000_000_000,
        nanos_until(None, now) is None,
{
}

/// An instance has ended where its model says that its state is terminal.
pub proof fn instances_end_in_terminal_states(models: Seq<ModelDef>, m: ModelDef, state: Seq<char>)
    requires
        model_named(models, m.name@) == Some(m),
    ensures
        has_ended(models, m.name@, state) <==> texts(m.terminal@).contains(state),
{
}

/// The line of a worker holds its name, its status, its turns, its cost and its task.
pub proof fn worker_lines_tell_their_worker(w: WorkerModel)
    ensures
        contains_spec(worker_line(w), w.name),
        contains_spec(worker_line(w), w.status),
        contains_spec(worker_line(w), decimal(w.turns as nat)),
        contains_spec(worker_line(w), w.cost.shown),
        contains_spec(worker_line(w), task_field(w.current_task)),
{
    padding_keeps_the_text(w.name, 22);
    padding_keeps_the_text(w.status, 9);
    padding_keeps_the_text(decimal(w.turns as nat), 3);
    padding_keeps_the_text(w.cost.shown, 6);
    let p0 = "  "@;
    let q1 = pad_right_spec(w.name, 22);
    let p1 = p0 + q1;
    both_parts_occur(p0, q1);
    let q2 = " "@;
    let p2 = p1 + q2;
    both_parts_occur(p1, q2);
    let q3 = pad_right_spec(w.status, 9);
    let p3 = p2 + q3;
    both_parts_occur(p2, q3);
    let q4 = " "@;
    let p4 = p3 + q4;
    both_parts_occur(p3, q4);
    let q5 = pad_left_spec(decimal(w.turns as nat), 3);
    let p5 = p4 + q5;
    both_parts_occur(p4, q5);
    let q6 = " turns  $"@;
    let p6 = p5 + q6;
    both_parts_occur(p5, q6);
    let q7 = pad_right_spec(w.cost.shown, 6);
    let p7 = p6 + q7;
    both_parts_occur(p6, q7);
    let q8 = " "@;
    let p8 = p7 + q8;
    both_parts_occur(p7, q8);
    let q9 = task_field(w.current_task);
    let p9 = p8 + q9;
    both_parts_occur(p8, q9);
    let q10 = "\n"@;
    let p10 = p9 + q10;
    both_parts_occur(p9, q10);
    assert(worker_line(w) == p10);
}

/// The lines of an agent hold its name, its status, its cost, its task and its schedules.
pub proof fn agent_lines_tell_their_agent(a: DashboardAgentModel)
    ensures
        contains_spec(agent_lines(a), a.name),
        contains_spec(agent_lines(a), a.status),
        contains_spec(agent_lines(a), a.cost.shown),
        contains_spec(agent_lines(a), task_field(a.current_task)),
        contains_spec(agent_lines(a), schedules_text(a.schedules, a.schedules.len() as int)),
{
    padding_keeps_the_text(a.name, 10);
    padding_keeps_the_text(a.status, 9);
    padding_keeps_the_text(a.cost.shown, 6);
    let p0 = "  "@;
    let q1 = pad_right_spec(a.name, 10);
    let p1 = p0 + q1;
    both_parts_occur(p0, q1);
    let q2 = " "@;
    let p2 = p1 + q2;
    both_parts_occur(p1, q2);
    let q3 = pad_right_spec(a.status, 9);
    let p3 = p2 + q3;
    both_parts_occur(p2, q3);
    let q4 = " $"@;
    let p4 = p3 + q4;
    both_parts_occur(p3, q4);
    let q5 = pad_right_spec(a.cost.shown, 6);
    let p5 = p4 + q5;
    both_parts_occur(p4, q5);
    let q6 = " "@;
    let p6 = p5 + q6;
    both_parts_occur(p5, q6);
    let q7 = task_field(a.current_task);
    let p7 = p6 + q7;
    both_parts_occur(p6, q7);
    let q8 = "\n"@;
    let p8 = p7 + q8;
    both_parts_occur(p7, q8);
    let q9 = schedules_text(a.schedules, a.schedules.len() as int);
    let p9 = p8 + q9;
    both_parts_occur(p8, q9);
    assert(agent_lines(a) == p9);
}

/// Each agent is shown, in their order.
pub proof fn agents_are_shown_in_order(v: Seq<DashboardAgentModel>, k: int, n: int)
    requires
        0 <= k < n <= v.len(),
    ensures
        starts_with_spec(agents_text(v, n), agents_text(v, k) + agent_lines(v[k])),
    decreases n,
{
    let head = agents_text(v, n - 1);
    let all = agents_text(v, n);
    let start = agents_text(v, k) + agent_lines(v[k]);
    if k < n - 1 {
        agents_are_shown_in_order(v, k, n - 1);
        assert(all.take(start.len() as int) =~= head.take(start.len() as int));
    } else {
        assert(all.take(start.len() as int) =~= start);
    }
}

/// Each worker is shown, in their order.
pub proof fn workers_are_shown_in_order(v: Seq<WorkerModel>, k: int, n: int)
    requires
        0 <= k < n <= v.len(),
    ensures
        starts_with_spec(workers_text(v, n), workers_text(v, k) + worker_line(v[k])),
    decreases n,
{
    let head = workers_text(v, n - 1);
    let all = workers_text(v, n);
    let start = workers_text(v, k) + worker_line(v[k]);
    if k < n - 1 {
        workers_are_shown_in_order(v, k, n - 1);
        assert(all.take(start.len() as int) =~= head.take(start.len() as int));
    } else {
        assert(all.take(start.len() as int) =~= start);
    }
}

/// Each instance is shown, in their order.
pub proof fn instances_are_shown_in_order(v: Seq<DashboardSm>, k: int, n: int)
    requires
        0 <= k < n <= v.len(),
    ensures
        starts_with_spec(instances_text(v, n), instances_text(v, k) + instance_line(v[k])),
    decreases n,
{
    let head = instances_text(v, n - 1);
    let all = instances_text(v, n);
    let start = instances_text(v, k) + instance_line(v[k]);
    if k < n - 1 {
        instances_are_shown_in_order(v, k, n - 1);
        assert(all.take(start.len() as int) =~= head.take(start.len() as int));
    } else {
        assert(all.take(start.len() as int) =~= start);
    }
}

/// A task is shown in quotes, by its first sixty characters; no task is a dash.
pub proof fn tasks_are_shown_in_quotes(task: Seq<char>)
    ensures
        task.len() == 0 ==> task_field(task) == "-"@,
        0 < task.len() <= 60 ==> task_field(task) == "\""@ + task + "\""@,
        task.len() > 60 ==> task_field(task) == "\""@ + task.take(60) + "\""@,
{
}

} // verus!
