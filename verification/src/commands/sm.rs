//! Commands on state machines.
use super::agent::{agent_bus_socket, bus_socket_of, dash, or_dash};
use super::agent_tasks::first_n;
use super::task::{cost_text, show_cost};
use crate::config::{find_model, model_named, ModelDef, TransitionDef};
use crate::decimal::{decimal, show_u64, show_usize};
use crate::json::Json;
use crate::json_text::{compact, compact_text, json_reading, read_text};
use crate::mcp_service::{instance_passes, SmInstance};
use crate::text::{
    both_parts_occur, cat, cat3, cat5, char_prefix, char_prefix_spec, contains_spec, has, join,
    join_spec, opt_str, opt_text, pad_right, pad_right_spec, padding_keeps_the_text,
    put_padded, same, starts_with_spec, strip_prefix, strip_prefix_spec, texts,
};
use vstd::prelude::*;
use vstd::string::*;

verus! {

// ─── Models ─────────────────────────────────────────────────────────────────

/// The line of a model.
pub open spec fn model_row(m: ModelDef) -> Seq<char> {
    pad_right_spec(m.name@, 20) + " "@ + pad_right_spec(decimal(m.states@.len()), 8) + " "@
        + pad_right_spec(decimal(m.transitions@.len()), 8) + " "@ + m.description@ + "\n"@
}

/// The lines of the first `n` models.
pub open spec fn model_rows(models: Seq<ModelDef>, n: int) -> Seq<char>
    decreases n,
{
    if n <= 0 {
        Seq::empty()
    } else {
        model_rows(models, n - 1) + model_row(models[n - 1])
    }
}

/// The list of models.
pub open spec fn models_text(models: Seq<ModelDef>) -> Seq<char> {
    if models.len() == 0 {
        "No models defined\n"@
    } else {
        pad_right_spec("NAME"@, 20) + " "@ + pad_right_spec("STATES"@, 8) + " "@ + pad_right_spec(
            "TRANS"@,
            8,
        ) + " DESCRIPTION\n"@ + model_rows(models, models.len() as int)
    }
}

fn show_model_row(m: &ModelDef) -> (t: String)
    ensures
        t@ == model_row(*m),
{
    let mut out = pad_right(&m.name, 20);
    out.append(" ");
    put_padded(&mut out, &show_usize(m.states.len()), 8);
    out.append(" ");
    put_padded(&mut out, &show_usize(m.transitions.len()), 8);
    out.append(" ");
    out.append(&m.description);
    out.append("\n");
    out
}

/// The list of models.
pub fn show_models(models: &Vec<ModelDef>) -> (t: String)
    ensures
        t@ == models_text(models@),
{
    if models.len() == 0 {
        return String::from_str("No models defined\n");
    }
    let mut body = String::new();
    let mut i: usize = 0;
    while i < models.len()
        invariant
            i <= models@.len(),
            body@ == model_rows(models@, i as int),
        decreases models@.len() - i,
    {
        let line = show_model_row(&models[i]);
        body.append(&line);
        i += 1;
    }
    let mut out = pad_right("NAME", 20);
    out.append(" ");
    put_padded(&mut out, "STATES", 8);
    out.append(" ");
    put_padded(&mut out, "TRANS", 8);
    out.append(" DESCRIPTION\n");
    out.append(&body);
    out
}

/// The line of a transition.
pub open spec fn transition_row(t: TransitionDef) -> Seq<char> {
    pad_right_spec(t.from@, 15) + " "@ + pad_right_spec(t.to@, 15) + " "@ + pad_right_spec(
        or_dash(opt_text(t.trigger)),
        12,
    ) + " "@ + pad_right_spec(or_dash(opt_text(t.on)), 12) + " "@ + or_dash(opt_text(t.assignee))
        + "\n"@
}

/// The lines of the first `n` transitions.
pub open spec fn transition_rows(v: Seq<TransitionDef>, n: int) -> Seq<char>
    decreases n,
{
    if n <= 0 {
        Seq::empty()
    } else {
        transition_rows(v, n - 1) + transition_row(v[n - 1])
    }
}

/// What is shown of a model.
pub open spec fn model_text(m: ModelDef) -> Seq<char> {
    "Model:    "@ + m.name@ + "\n"@ + (if m.description@.len() > 0 {
        "Desc:     "@ + m.description@ + "\n"@
    } else {
        Seq::empty()
    }) + "States:   "@ + join_spec(texts(m.states@), ", "@) + "\nInitial:  "@ + m.initial@
        + "\nTerminal: "@ + (if m.terminal@.len() == 0 {
        "-"@
    } else {
        join_spec(texts(m.terminal@), ", "@)
    }) + "\n\n"@ + pad_right_spec("FROM"@, 15) + " "@ + pad_right_spec("TO"@, 15) + " "@
        + pad_right_spec("TRIGGER"@, 12) + " "@ + pad_right_spec("ON"@, 12) + " ASSIGNEE\n"@
        + transition_rows(m.transitions@, m.transitions@.len() as int)
}

fn show_transition_row(t: &TransitionDef) -> (s: String)
    ensures
        s@ == transition_row(*t),
{
    let mut out = pad_right(&t.from, 15);
    out.append(" ");
    put_padded(&mut out, &t.to, 15);
    out.append(" ");
    put_padded(&mut out, dash(&t.trigger), 12);
    out.append(" ");
    put_padded(&mut out, dash(&t.on), 12);
    out.append(" ");
    out.append(dash(&t.assignee));
    out.append("\n");
    out
}

fn show_model_text(m: &ModelDef) -> (s: String)
    ensures
        s@ == model_text(*m),
{
    let mut rows = String::new();
    let mut i: usize = 0;
    while i < m.transitions.len()
        invariant
            i <= m.transitions@.len(),
            rows@ == transition_rows(m.transitions@, i as int),
        decreases m.transitions@.len() - i,
    {
        let line = show_transition_row(&m.transitions[i]);
        rows.append(&line);
        i += 1;
    }
    let mut out = cat3("Model:    ", &m.name, "\n");
    if !m.description.as_str().is_empty() {
        let line = cat3("Desc:     ", &m.description, "\n");
        out.append(&line);
    } else {
        assert(out@ =~= out@ + Seq::<char>::empty());
    }
    out.append("States:   ");
    let states = join(&m.states, ", ");
    out.append(&states);
    out.append("\nInitial:  ");
    out.append(&m.initial);
    out.append("\nTerminal: ");
    if m.terminal.len() == 0 {
        out.append("-");
    } else {
        let terminal = join(&m.terminal, ", ");
        out.append(&terminal);
    }
    out.append("\n\n");
    put_padded(&mut out, "FROM", 15);
    out.append(" ");
    put_padded(&mut out, "TO", 15);
    out.append(" ");
    put_padded(&mut out, "TRIGGER", 12);
    out.append(" ");
    put_padded(&mut out, "ON", 12);
    out.append(" ASSIGNEE\n");
    out.append(&rows);
    out
}

/// The model with a name, for a new instance.
pub fn require_model<'a>(models: &'a Vec<ModelDef>, name: &str) -> (r: Result<&'a ModelDef, String>)
    ensures
        match model_named(models@, name@) {
            Some(m) => r matches Ok(x) && *x == m,
            None => r matches Err(e) && e@ == "Model '"@ + name@ + "' not found"@,
        },
{
    match find_model(models, name) {
        Some(m) => Ok(m),
        None => Err(cat3("Model '", name, "' not found")),
    }
}

/// The model of an instance.
pub fn instance_model<'a>(models: &'a Vec<ModelDef>, name: &str) -> (r: Result<
    &'a ModelDef,
    String,
>)
    ensures
        match model_named(models@, name@) {
            Some(m) => r matches Ok(x) && *x == m,
            None => r matches Err(e) && e@ == "Model '"@ + name@ + "' not found in config"@,
        },
{
    match find_model(models, name) {
        Some(m) => Ok(m),
        None => Err(cat3("Model '", name, "' not found in config")),
    }
}

/// What is shown of the model with a name.
pub fn show_model(models: &Vec<ModelDef>, name: &str) -> (r: Result<String, String>)
    ensures
        match model_named(models@, name@) {
            Some(m) => r matches Ok(t) && t@ == model_text(m),
            None => r matches Err(e) && e@ == "Model '"@ + name@ + "' not found"@,
        },
{
    match require_model(models, name) {
        Ok(m) => Ok(show_model_text(m)),
        Err(e) => Err(e),
    }
}

// ─── Moves ──────────────────────────────────────────────────────────────────

/// What is said of a new instance.
pub fn created_line(i: &SmInstance) -> (r: String)
    ensures
        r@ == "Created "@ + i.id@ + " (model="@ + i.model@ + ", state="@ + i.state@ + ")\n"@,
{
    let mut out = cat5("Created ", &i.id, " (model=", &i.model, ", state=");
    out.append(&i.state);
    out.append(")\n");
    out
}

/// What is said of a moved instance.
pub fn moved_line(i: &SmInstance) -> (r: String)
    ensures
        r@ == i.id@ + " -> "@ + i.state@ + " ("@ + i.model@ + ")\n"@,
{
    let mut out = cat5(&i.id, " -> ", &i.state, " (", &i.model);
    out.append(")\n");
    out
}

/// Whether an instance is in a state that ends it.
pub open spec fn is_terminal(m: ModelDef, state: Seq<char>) -> bool {
    texts(m.terminal@).contains(state)
}

/// The agent to notify of a moved instance: its assignee, where it has one and
/// has not ended.
pub open spec fn notified(m: ModelDef, i: SmInstance) -> Option<Seq<char>> {
    if i.assignee@.len() == 0 || is_terminal(m, i.state@) {
        None
    } else {
        match strip_prefix_spec(i.assignee@, "agent:"@) {
            Some(n) => Some(n),
            None => Some(i.assignee@),
        }
    }
}

/// The agent to notify of a moved instance.
pub fn notified_agent<'a>(m: &ModelDef, i: &'a SmInstance) -> (r: Option<&'a str>)
    ensures
        opt_str(r) == notified(*m, *i),
{
    if i.assignee.as_str().is_empty() || has(&m.terminal, &i.state) {
        return None;
    }
    match strip_prefix(&i.assignee, "agent:") {
        Some(n) => Some(n),
        None => Some(i.assignee.as_str()),
    }
}

/// The bus socket of an agent to notify: the one of the environment, else that of
/// the running server, else the one beside the configuration.
pub fn notify_socket(env: Option<&str>, served: Option<&str>, config_dir: Option<&str>) -> (r:
    String)
    ensures
        r@ == (match (env, served, config_dir) {
            (Some(s), _, _) => s@,
            (None, Some(s), _) => s@,
            (None, None, Some(d)) => bus_socket_of(d@),
            (None, None, None) => bus_socket_of("."@),
        }),
{
    match (env, served, config_dir) {
        (Some(s), _, _) => String::from_str(s),
        (None, Some(s), _) => String::from_str(s),
        (None, None, Some(d)) => agent_bus_socket(d),
        (None, None, None) => agent_bus_socket("."),
    }
}

/// The position of the first transition from a state to one that ends an
/// instance; the number of transitions where there is none.
pub open spec fn ending_index(v: Seq<TransitionDef>, m: ModelDef, state: Seq<char>) -> nat
    decreases v.len(),
{
    if v.len() == 0 || ((v[0].from@ == state || v[0].from@ == "*"@) && is_terminal(m, v[0].to@)) {
        0
    } else {
        1 + ending_index(v.skip(1), m, state)
    }
}

/// How an instance is cancelled.
#[derive(Debug, Clone, PartialEq)]
pub enum Cancellation {
    /// It has ended already: this is said.
    Ended(String),
    /// It goes to this state.
    MoveTo(String),
}

/// Whether `r` is how an instance is cancelled.
pub open spec fn plans_cancel(
    m: ModelDef,
    i: SmInstance,
    r: Result<Cancellation, String>,
) -> bool {
    ({
        let k = ending_index(m.transitions@, m, i.state@) as int;
        if is_terminal(m, i.state@) {
            r matches Ok(Cancellation::Ended(t)) && t@ == i.id@
                + " is already in terminal state '"@ + i.state@ + "'\n"@
        } else if k < m.transitions@.len() {
            r matches Ok(Cancellation::MoveTo(s)) && s@ == m.transitions@[k].to@
        } else {
            r matches Err(e) && e@ == "No transition to a terminal state from '"@ + i.state@
                + "' in model '"@ + m.name@ + "'"@
        }
    })
}

/// How an instance is cancelled: it goes to the first state that ends it and to
/// which there is a transition.
pub fn plan_cancel(m: &ModelDef, i: &SmInstance) -> (r: Result<Cancellation, String>)
    ensures
        plans_cancel(*m, *i, r),
{
    if has(&m.terminal, &i.state) {
        let mut text = cat3(&i.id, " is already in terminal state '", &i.state);
        text.append("'\n");
        return Ok(Cancellation::Ended(text));
    }
    let v = &m.transitions;
    let mut k: usize = 0;
    assert(v@.skip(0) =~= v@);
    while k < v.len()
        invariant
            k <= v@.len(),
            v@ == m.transitions@,
            !is_terminal(*m, i.state@),
            ending_index(v@, *m, i.state@) == k + ending_index(v@.skip(k as int), *m, i.state@),
        decreases v@.len() - k,
    {
        assert(v@.skip(k as int)[0] == v@[k as int]);
        if (same(&v[k].from, &i.state) || same(&v[k].from, "*")) && has(&m.terminal, &v[k].to) {
            return Ok(Cancellation::MoveTo(v[k].to.clone()));
        }
        assert(v@.skip(k as int).skip(1) =~= v@.skip(k + 1));
        k += 1;
    }
    Err(
        cat5(
            "No transition to a terminal state from '",
            &i.state,
            "' in model '",
            &m.name,
            "'",
        ),
    )
}

/// What is said of a cancelled instance.
pub fn cancelled_line(i: &SmInstance) -> (r: String)
    ensures
        r@ == i.id@ + " cancelled -> "@ + i.state@ + "\n"@,
{
    let mut out = cat3(&i.id, " cancelled -> ", &i.state);
    out.append("\n");
    out
}

/// To cancel an instance that has not ended ends it.
pub proof fn cancelling_ends_an_instance(v: Seq<TransitionDef>, m: ModelDef, state: Seq<char>)
    requires
        ending_index(v, m, state) < v.len(),
    ensures
        is_terminal(m, v[ending_index(v, m, state) as int].to@),
    decreases v.len(),
{
    if !((v[0].from@ == state || v[0].from@ == "*"@) && is_terminal(m, v[0].to@)) {
        cancelling_ends_an_instance(v.skip(1), m, state);
    }
}

// ─── Lists ──────────────────────────────────────────────────────────────────

/// The instances that pass the filters, in order.
pub open spec fn filtered(
    instances: Seq<SmInstance>,
    model: Option<Seq<char>>,
    state: Option<Seq<char>>,
) -> Seq<SmInstance>
    decreases instances.len(),
{
    if instances.len() == 0 {
        Seq::empty()
    } else {
        let head = filtered(instances.drop_last(), model, state);
        if instance_passes(instances.last(), model, state) {
            head.push(instances.last())
        } else {
            head
        }
    }
}

/// The line of an instance.
pub open spec fn instance_row(i: SmInstance) -> Seq<char> {
    pad_right_spec(i.id@, 12) + " "@ + pad_right_spec(i.model@, 15) + " "@ + pad_right_spec(
        i.state@,
        12,
    ) + " "@ + pad_right_spec(i.assignee@, 12) + " "@ + char_prefix_spec(i.title@, 40) + "\n"@
}

/// The lines of the first `n` instances.
pub open spec fn instance_rows(v: Seq<SmInstance>, n: int) -> Seq<char>
    decreases n,
{
    if n <= 0 {
        Seq::empty()
    } else {
        instance_rows(v, n - 1) + instance_row(v[n - 1])
    }
}

/// The list of instances.
pub open spec fn instances_text(v: Seq<SmInstance>) -> Seq<char> {
    if v.len() == 0 {
        "No instances found\n"@
    } else {
        pad_right_spec("ID"@, 12) + " "@ + pad_right_spec("MODEL"@, 15) + " "@ + pad_right_spec(
            "STATE"@,
            12,
        ) + " "@ + pad_right_spec("ASSIGNEE"@, 12) + " TITLE\n"@ + instance_rows(
            v,
            v.len() as int,
        )
    }
}

fn show_instance_row(i: &SmInstance) -> (t: String)
    ensures
        t@ == instance_row(*i),
{
    let mut out = pad_right(&i.id, 12);
    out.append(" ");
    put_padded(&mut out, &i.model, 15);
    out.append(" ");
    put_padded(&mut out, &i.state, 12);
    out.append(" ");
    put_padded(&mut out, &i.assignee, 12);
    out.append(" ");
    out.append(char_prefix(&i.title, 40));
    out.append("\n");
    out
}

/// The list of the instances that pass the filters, at most `limit`.
pub fn show_instances(
    instances: &Vec<SmInstance>,
    model: Option<&str>,
    state: Option<&str>,
    limit: usize,
) -> (t: String)
    ensures
        t@ == instances_text(
            first_n(filtered(instances@, opt_str(model), opt_str(state)), limit as nat),
        ),
{
    let ghost m = opt_str(model);
    let ghost s = opt_str(state);
    let mut body = String::new();
    let mut shown: usize = 0;
    let mut i: usize = 0;
    let ghost mut kept = filtered(instances@.take(0), m, s);
    assert(kept =~= Seq::<SmInstance>::empty());
    while i < instances.len()
        invariant
            i <= instances@.len(),
            m == opt_str(model),
            s == opt_str(state),
            kept == filtered(instances@.take(i as int), m, s),
            shown == first_n(kept, limit as nat).len(),
            shown <= i,
            body@ == instance_rows(first_n(kept, limit as nat), shown as int),
        decreases instances@.len() - i,
    {
        assert(instances@.take(i + 1).drop_last() =~= instances@.take(i as int));
        assert(instances@.take(i + 1).last() == instances@[i as int]);
        let x = &instances[i];
        let wanted: bool = (match model {
            Some(f) => same(&x.model, f),
            None => true,
        }) && (match state {
            Some(f) => same(&x.state, f),
            None => true,
        });
        let ghost old_shown = first_n(kept, limit as nat);
        proof {
            kept = filtered(instances@.take(i + 1), m, s);
        }
        if wanted && shown < limit {
            let line = show_instance_row(x);
            body.append(&line);
            shown += 1;
            proof {
                let now = first_n(kept, limit as nat);
                assert(now =~= old_shown.push(*x));
                rows_of_longer(old_shown, *x, old_shown.len() as int);
            }
        } else {
            assert(first_n(kept, limit as nat) =~= old_shown);
        }
        i += 1;
    }
    assert(instances@.take(i as int) =~= instances@);
    if shown == 0 {
        return String::from_str("No instances found\n");
    }
    let mut out = pad_right("ID", 12);
    out.append(" ");
    put_padded(&mut out, "MODEL", 15);
    out.append(" ");
    put_padded(&mut out, "STATE", 12);
    out.append(" ");
    put_padded(&mut out, "ASSIGNEE", 12);
    out.append(" TITLE\n");
    out.append(&body);
    out
}

proof fn rows_of_longer(v: Seq<SmInstance>, x: SmInstance, n: int)
    requires
        0 <= n <= v.len(),
    ensures
        instance_rows(v.push(x), n) == instance_rows(v, n),
    decreases n,
{
    if n > 0 {
        rows_of_longer(v, x, n - 1);
    }
}

// ─── One instance ───────────────────────────────────────────────────────────

/// A step in the history of an instance. `cost` has four decimal places.
#[derive(Debug, Clone, PartialEq)]
pub struct HistoryStep {
    pub from: String,
    pub to: String,
    pub trigger: String,
    pub task_id: Option<String>,
    pub cost: Option<String>,
    pub turns: Option<u32>,
    pub timestamp: String,
}

/// An instance with all that is kept of it. `total_cost` has four decimal places,
/// and `has_cost` says whether it is above zero.
#[derive(Debug, PartialEq)]
pub struct SmDetail {
    pub instance: SmInstance,
    pub result: Option<String>,
    pub error: Option<String>,
    pub metadata: Json,
    pub created_at: String,
    pub created_by: String,
    pub total_cost: String,
    pub has_cost: bool,
    pub total_turns: u32,
    pub task_ids: Vec<String>,
    pub history: Vec<HistoryStep>,
}

/// The metadata that a text gives.
pub fn read_metadata(text: &str) -> (r: Result<Json, String>)
    ensures
        match json_reading(text@) {
            Ok(v) => r matches Ok(j) && j@ == v,
            Err(m) => r matches Err(e) && e@ == "invalid --metadata JSON: "@ + m,
        },
{
    match read_text(text) {
        Ok(v) => Ok(v),
        Err(e) => Err(cat("invalid --metadata JSON: ", &e)),
    }
}

/// The line of a step.
pub open spec fn step_row(h: HistoryStep) -> Seq<char> {
    pad_right_spec(h.from@, 15) + " "@ + pad_right_spec(h.to@, 15) + " "@ + pad_right_spec(
        h.trigger@,
        20,
    ) + " "@ + pad_right_spec(or_dash(opt_text(h.task_id)), 16) + " "@ + pad_right_spec(
        cost_text(opt_text(h.cost)),
        10,
    ) + " "@ + pad_right_spec(
        match h.turns {
            Some(n) => decimal(n as nat),
            None => "-"@,
        },
        8,
    ) + " "@ + h.timestamp@ + "\n"@
}

/// The lines of the first `n` steps.
pub open spec fn step_rows(v: Seq<HistoryStep>, n: int) -> Seq<char>
    decreases n,
{
    if n <= 0 {
        Seq::empty()
    } else {
        step_rows(v, n - 1) + step_row(v[n - 1])
    }
}

/// A line with a label, where there is a text.
pub open spec fn labelled(label: Seq<char>, o: Option<Seq<char>>) -> Seq<char> {
    match o {
        Some(t) => label + t + "\n"@,
        None => Seq::empty(),
    }
}

/// What is shown of an instance. `metadata` is the text of its metadata, where it
/// has any.
pub open spec fn detail_text(d: SmDetail, metadata: Option<Seq<char>>) -> Seq<char> {
    "ID:        "@ + d.instance.id@ + "\nModel:     "@ + d.instance.model@ + "\nTitle:     "@
        + d.instance.title@ + "\n"@ + labelled(
        "Body:      "@,
        if d.instance.body@.len() > 0 {
            Some(d.instance.body@)
        } else {
            None
        },
    ) + "State:     "@ + d.instance.state@ + "\nAssignee:  "@ + d.instance.assignee@ + "\n"@
        + labelled("Result:    "@, opt_text(d.result)) + labelled(
        "Error:     "@,
        opt_text(d.error),
    ) + labelled("Metadata:  "@, metadata) + "Created:   "@ + d.created_at@ + " by "@
        + d.created_by@ + "\nUpdated:   "@ + d.instance.updated_at@ + "\n"@ + (if d.has_cost
        || d.total_turns > 0 {
        "Total:     $"@ + d.total_cost@ + " / "@ + decimal(d.total_turns as nat) + " turns\n"@
    } else {
        Seq::empty()
    }) + (if d.task_ids@.len() > 0 {
        "Tasks:     "@ + decimal(d.task_ids@.len()) + " ("@ + join_spec(texts(d.task_ids@), ", "@)
            + ")\n"@
    } else {
        Seq::empty()
    }) + (if d.history@.len() > 0 {
        "\n"@ + pad_right_spec("FROM"@, 15) + " "@ + pad_right_spec("TO"@, 15) + " "@
            + pad_right_spec("TRIGGER"@, 20) + " "@ + pad_right_spec("TASK_ID"@, 16) + " "@
            + pad_right_spec("COST"@, 10) + " "@ + pad_right_spec("TURNS"@, 8) + " TIMESTAMP\n"@
            + step_rows(d.history@, d.history@.len() as int)
    } else {
        Seq::empty()
    })
}

fn show_step_row(h: &HistoryStep) -> (t: String)
    ensures
        t@ == step_row(*h),
{
    let mut out = pad_right(&h.from, 15);
    out.append(" ");
    put_padded(&mut out, &h.to, 15);
    out.append(" ");
    put_padded(&mut out, &h.trigger, 20);
    out.append(" ");
    put_padded(&mut out, dash(&h.task_id), 16);
    out.append(" ");
    put_padded(&mut out, &show_cost(&h.cost), 10);
    out.append(" ");
    match h.turns {
        Some(n) => {
            put_padded(&mut out, &show_u64(n as u64), 8);
        },
        None => {
            put_padded(&mut out, "-", 8);
        },
    }
    out.append(" ");
    out.append(&h.timestamp);
    out.append("\n");
    out
}

fn put_labelled(out: &mut String, label: &str, o: Option<&str>)
    ensures
        final(out)@ == old(out)@ + labelled(label@, opt_str(o)),
{
    match o {
        Some(t) => {
            let line = cat3(label, t, "\n");
            out.append(&line);
        },
        None => {
            assert(out@ =~= out@ + Seq::<char>::empty());
        },
    }
}

fn show_totals(d: &SmDetail) -> (t: String)
    ensures
        t@ == (if d.has_cost || d.total_turns > 0 {
            "Total:     $"@ + d.total_cost@ + " / "@ + decimal(d.total_turns as nat)
                + " turns\n"@
        } else {
            Seq::empty()
        }),
{
    if d.has_cost || d.total_turns > 0 {
        cat5(
            "Total:     $",
            &d.total_cost,
            " / ",
            &show_u64(d.total_turns as u64),
            " turns\n",
        )
    } else {
        String::new()
    }
}

fn show_task_ids(d: &SmDetail) -> (t: String)
    ensures
        t@ == (if d.task_ids@.len() > 0 {
            "Tasks:     "@ + decimal(d.task_ids@.len()) + " ("@ + join_spec(
                texts(d.task_ids@),
                ", "@,
            ) + ")\n"@
        } else {
            Seq::empty()
        }),
{
    if d.task_ids.len() > 0 {
        let ids = join(&d.task_ids, ", ");
        cat5("Tasks:     ", &show_usize(d.task_ids.len()), " (", &ids, ")\n")
    } else {
        String::new()
    }
}

fn show_history(v: &Vec<HistoryStep>) -> (t: String)
    ensures
        t@ == (if v@.len() > 0 {
            "\n"@ + pad_right_spec("FROM"@, 15) + " "@ + pad_right_spec("TO"@, 15) + " "@
                + pad_right_spec("TRIGGER"@, 20) + " "@ + pad_right_spec("TASK_ID"@, 16) + " "@
                + pad_right_spec("COST"@, 10) + " "@ + pad_right_spec("TURNS"@, 8)
                + " TIMESTAMP\n"@ + step_rows(v@, v@.len() as int)
        } else {
            Seq::empty()
        }),
{
    if v.len() == 0 {
        return String::new();
    }
    let mut rows = String::new();
    let mut i: usize = 0;
    while i < v.len()
        invariant
            i <= v@.len(),
            rows@ == step_rows(v@, i as int),
        decreases v@.len() - i,
    {
        let line = show_step_row(&v[i]);
        rows.append(&line);
        i += 1;
    }
    let mut out = String::from_str("\n");
    put_padded(&mut out, "FROM", 15);
    out.append(" ");
    put_padded(&mut out, "TO", 15);
    out.append(" ");
    put_padded(&mut out, "TRIGGER", 20);
    out.append(" ");
    put_padded(&mut out, "TASK_ID", 16);
    out.append(" ");
    put_padded(&mut out, "COST", 10);
    out.append(" ");
    put_padded(&mut out, "TURNS", 8);
    out.append(" TIMESTAMP\n");
    out.append(&rows);
    out
}

/// What is shown of an instance. `metadata` is the text of its metadata, where it
/// has any.
pub fn show_detail(d: &SmDetail, metadata: Option<&str>) -> (t: String)
    ensures
        t@ == detail_text(*d, opt_str(metadata)),
{
    let mut out = cat5(
        "ID:        ",
        &d.instance.id,
        "\nModel:     ",
        &d.instance.model,
        "\nTitle:     ",
    );
    out.append(&d.instance.title);
    out.append("\n");
    let body: Option<&str> = if d.instance.body.as_str().is_empty() {
        None
    } else {
        Some(d.instance.body.as_str())
    };
    put_labelled(&mut out, "Body:      ", body);
    out.append("State:     ");
    out.append(&d.instance.state);
    out.append("\nAssignee:  ");
    out.append(&d.instance.assignee);
    out.append("\n");
    let result: Option<&str> = match &d.result {
        Some(t) => Some(t.as_str()),
        None => None,
    };
    put_labelled(&mut out, "Result:    ", result);
    let error: Option<&str> = match &d.error {
        Some(t) => Some(t.as_str()),
        None => None,
    };
    put_labelled(&mut out, "Error:     ", error);
    put_labelled(&mut out, "Metadata:  ", metadata);
    out.append("Created:   ");
    out.append(&d.created_at);
    out.append(" by ");
    out.append(&d.created_by);
    out.append("\nUpdated:   ");
    out.append(&d.instance.updated_at);
    out.append("\n");
    let totals = show_totals(d);
    out.append(&totals);
    let ids = show_task_ids(d);
    out.append(&ids);
    let history = show_history(&d.history);
    out.append(&history);
    out
}

/// The text of the metadata of an instance, where it has any.
pub open spec fn metadata_text(d: SmDetail) -> Option<Seq<char>> {
    if d.metadata@ is Null {
        None
    } else {
        Some(compact_text(d.metadata@))
    }
}

/// What is shown of an instance.
pub fn show_instance(d: &SmDetail) -> (t: String)
    ensures
        t@ == detail_text(*d, metadata_text(*d)),
{
    match &d.metadata {
        Json::Null => show_detail(d, None),
        _ => {
            let text = compact(&d.metadata);
            show_detail(d, Some(&text))
        },
    }
}

// ─── What the commands show ─────────────────────────────────────────────────

/// A cancelled instance moves to a terminal state by a transition of its model that leads
/// there from its state; one that has ended stays, and without such a transition it is
/// refused.
pub proof fn cancelling_leads_to_an_end(m: ModelDef, i: SmInstance, r: Result<Cancellation, String>)
    requires
        plans_cancel(m, i, r),
    ensures
        r matches Ok(Cancellation::Ended(_)) <==> texts(m.terminal@).contains(i.state@),
        r matches Ok(Cancellation::MoveTo(t)) ==> texts(m.terminal@).contains(t@) && exists|k: int|
            0 <= k < m.transitions@.len() && (#[trigger] m.transitions@[k]).to@ == t@ && (
            m.transitions@[k].from@ == i.state@ || m.transitions@[k].from@ == "*"@),
{
    ending_index_is_an_ending(m.transitions@, m, i.state@);
    let k = ending_index(m.transitions@, m, i.state@) as int;
    if k < m.transitions@.len() {
        assert(m.transitions@[k].to@ == m.transitions@[k].to@);
    }
}

proof fn ending_index_is_an_ending(v: Seq<TransitionDef>, m: ModelDef, state: Seq<char>)
    ensures
        ending_index(v, m, state) < v.len() ==> ({
            let t = v[ending_index(v, m, state) as int];
            (t.from@ == state || t.from@ == "*"@) && is_terminal(m, t.to@)
        }),
    decreases v.len(),
{
    if v.len() > 0 && !((v[0].from@ == state || v[0].from@ == "*"@) && is_terminal(m, v[0].to@)) {
        ending_index_is_an_ending(v.skip(1), m, state);
        let k = ending_index(v.skip(1), m, state) as int;
        if k < v.skip(1).len() {
            assert(v.skip(1)[k] == v[k + 1]);
        }
    }
}

/// The assignee of an instance is told of a move, unless there is none or the instance has
/// ended; the name of an agent stands behind `agent:`.
pub proof fn assignees_are_told(m: ModelDef, i: SmInstance, name: Seq<char>)
    ensures
        i.assignee@.len() == 0 ==> notified(m, i) is None,
        texts(m.terminal@).contains(i.state@) ==> notified(m, i) is None,
        i.assignee@ == "agent:"@ + name && !texts(m.terminal@).contains(i.state@) ==> notified(m, i)
            == Some(name),
        i.assignee@.len() > 0 && !texts(m.terminal@).contains(i.state@) ==> notified(m, i) is Some,
{
    reveal_strlit("agent:");
    let full = "agent:"@ + name;
    assert(full.take(6) =~= "agent:"@);
    assert(full.skip(6) =~= name);
}

/// An instance is shown exactly where its model and its state are those asked for, as far as they are.
pub proof fn shown_instances_pass_the_filters(instances: Seq<SmInstance>, model: Option<Seq<char>>, state: Option<Seq<char>>, v: SmInstance)
    ensures
        filtered(instances, model, state).contains(v) <==> exists|i: int|
            0 <= i < instances.len() && #[trigger] instances[i] == v && (model is Some ==> instances[i].model@ == model->0) && (state is Some ==> instances[i].state@ == state->0),
    decreases instances.len(),
{
    if instances.len() > 0 {
        let front = instances.drop_last();
        let head = filtered(front, model, state);
        let out = filtered(instances, model, state);
        shown_instances_pass_the_filters(front, model, state, v);
        if out.contains(v) {
            let k = choose|k: int| 0 <= k < out.len() && out[k] == v;
            if k < head.len() {
                assert(head[k] == v);
                let i = choose|i: int| 0 <= i < front.len() && #[trigger] front[i] == v && (model is Some ==> front[i].model@ == model->0) && (state is Some ==> front[i].state@ == state->0);
                assert(instances[i] == front[i]);
            } else {
                assert(instances[instances.len() - 1] == instances.last());
            }
        }
        if exists|i: int| 0 <= i < instances.len() && #[trigger] instances[i] == v && (model is Some ==> instances[i].model@ == model->0) && (state is Some ==> instances[i].state@ == state->0) {
            let i = choose|i: int| 0 <= i < instances.len() && #[trigger] instances[i] == v && (model is Some ==> instances[i].model@ == model->0) && (state is Some ==> instances[i].state@ == state->0);
            if i < front.len() {
                assert(front[i] == instances[i]);
                let k = choose|k: int| 0 <= k < head.len() && head[k] == v;
                assert(out[k] == v);
            } else {
                assert(out[out.len() - 1] == v);
            }
        }
    }
}

/// The row of a model holds its name, the numbers of its states and transitions, and its description.
pub proof fn model_rows_tell_their_model(m: ModelDef)
    ensures
        contains_spec(model_row(m), m.name@),
        contains_spec(model_row(m), decimal(m.states@.len())),
        contains_spec(model_row(m), decimal(m.transitions@.len())),
        contains_spec(model_row(m), m.description@),
{
    padding_keeps_the_text(m.name@, 20);
    padding_keeps_the_text(decimal(m.states@.len()), 8);
    padding_keeps_the_text(decimal(m.transitions@.len()), 8);
    let p0 = pad_right_spec(m.name@, 20);
    let q1 = " "@;
    let p1 = p0 + q1;
    both_parts_occur(p0, q1);
    let q2 = pad_right_spec(decimal(m.states@.len()), 8);
    let p2 = p1 + q2;
    both_parts_occur(p1, q2);
    let q3 = " "@;
    let p3 = p2 + q3;
    both_parts_occur(p2, q3);
    let q4 = pad_right_spec(decimal(m.transitions@.len()), 8);
    let p4 = p3 + q4;
    both_parts_occur(p3, q4);
    let q5 = " "@;
    let p5 = p4 + q5;
    both_parts_occur(p4, q5);
    let q6 = m.description@;
    let p6 = p5 + q6;
    both_parts_occur(p5, q6);
    let q7 = "\n"@;
    let p7 = p6 + q7;
    both_parts_occur(p6, q7);
    assert(model_row(m) == p7);
}

/// The row of a transition holds the states between which it leads, its trigger and its assignee.
pub proof fn transition_rows_tell_their_transition(t: TransitionDef)
    ensures
        contains_spec(transition_row(t), t.from@),
        contains_spec(transition_row(t), t.to@),
        contains_spec(transition_row(t), or_dash(opt_text(t.trigger))),
        contains_spec(transition_row(t), or_dash(opt_text(t.on))),
        contains_spec(transition_row(t), or_dash(opt_text(t.assignee))),
{
    padding_keeps_the_text(t.from@, 15);
    padding_keeps_the_text(t.to@, 15);
    padding_keeps_the_text(or_dash(opt_text(t.trigger)), 12);
    padding_keeps_the_text(or_dash(opt_text(t.on)), 12);
    let p0 = pad_right_spec(t.from@, 15);
    let q1 = " "@;
    let p1 = p0 + q1;
    both_parts_occur(p0, q1);
    let q2 = pad_right_spec(t.to@, 15);
    let p2 = p1 + q2;
    both_parts_occur(p1, q2);
    let q3 = " "@;
    let p3 = p2 + q3;
    both_parts_occur(p2, q3);
    let q4 = pad_right_spec(or_dash(opt_text(t.trigger)), 12);
    let p4 = p3 + q4;
    both_parts_occur(p3, q4);
    let q5 = " "@;
    let p5 = p4 + q5;
    both_parts_occur(p4, q5);
    let q6 = pad_right_spec(or_dash(opt_text(t.on)), 12);
    let p6 = p5 + q6;
    both_parts_occur(p5, q6);
    let q7 = " "@;
    let p7 = p6 + q7;
    both_parts_occur(p6, q7);
    let q8 = or_dash(opt_text(t.assignee));
    let p8 = p7 + q8;
    both_parts_occur(p7, q8);
    let q9 = "\n"@;
    let p9 = p8 + q9;
    both_parts_occur(p8, q9);
    assert(transition_row(t) == p9);
}

/// The row of an instance holds its id, its model, its state and its assignee, and the start of its title.
pub proof fn instance_rows_tell_their_instance(i: SmInstance)
    ensures
        contains_spec(instance_row(i), i.id@),
        contains_spec(instance_row(i), i.model@),
        contains_spec(instance_row(i), i.state@),
        contains_spec(instance_row(i), i.assignee@),
        contains_spec(instance_row(i), char_prefix_spec(i.title@, 40)),
{
    padding_keeps_the_text(i.id@, 12);
    padding_keeps_the_text(i.model@, 15);
    padding_keeps_the_text(i.state@, 12);
    padding_keeps_the_text(i.assignee@, 12);
    let p0 = pad_right_spec(i.id@, 12);
    let q1 = " "@;
    let p1 = p0 + q1;
    both_parts_occur(p0, q1);
    let q2 = pad_right_spec(i.model@, 15);
    let p2 = p1 + q2;
    both_parts_occur(p1, q2);
    let q3 = " "@;
    let p3 = p2 + q3;
    both_parts_occur(p2, q3);
    let q4 = pad_right_spec(i.state@, 12);
    let p4 = p3 + q4;
    both_parts_occur(p3, q4);
    let q5 = " "@;
    let p5 = p4 + q5;
    both_parts_occur(p4, q5);
    let q6 = pad_right_spec(i.assignee@, 12);
    let p6 = p5 + q6;
    both_parts_occur(p5, q6);
    let q7 = " "@;
    let p7 = p6 + q7;
    both_parts_occur(p6, q7);
    let q8 = char_prefix_spec(i.title@, 40);
    let p8 = p7 + q8;
    both_parts_occur(p7, q8);
    let q9 = "\n"@;
    let p9 = p8 + q9;
    both_parts_occur(p8, q9);
    assert(instance_row(i) == p9);
}

/// The table has a row for each model, in their order.
pub proof fn models_are_listed_in_order(v: Seq<ModelDef>, k: int, n: int)
    requires
        0 <= k < n <= v.len(),
    ensures
        starts_with_spec(model_rows(v, n), model_rows(v, k) + model_row(v[k])),
    decreases n,
{
    let head = model_rows(v, n - 1);
    let all = model_rows(v, n);
    let start = model_rows(v, k) + model_row(v[k]);
    if k < n - 1 {
        models_are_listed_in_order(v, k, n - 1);
        assert(all.take(start.len() as int) =~= head.take(start.len() as int));
    } else {
        assert(all.take(start.len() as int) =~= start);
    }
}

/// The table has a row for each transition, in their order.
pub proof fn transitions_are_listed_in_order(v: Seq<TransitionDef>, k: int, n: int)
    requires
        0 <= k < n <= v.len(),
    ensures
        starts_with_spec(transition_rows(v, n), transition_rows(v, k) + transition_row(v[k])),
    decreases n,
{
    let head = transition_rows(v, n - 1);
    let all = transition_rows(v, n);
    let start = transition_rows(v, k) + transition_row(v[k]);
    if k < n - 1 {
        transitions_are_listed_in_order(v, k, n - 1);
        assert(all.take(start.len() as int) =~= head.take(start.len() as int));
    } else {
        assert(all.take(start.len() as int) =~= start);
    }
}

/// The table has a row for each instance, in their order.
pub proof fn instances_are_listed_in_order(v: Seq<SmInstance>, k: int, n: int)
    requires
        0 <= k < n <= v.len(),
    ensures
        starts_with_spec(instance_rows(v, n), instance_rows(v, k) + instance_row(v[k])),
    decreases n,
{
    let head = instance_rows(v, n - 1);
    let all = instance_rows(v, n);
    let start = instance_rows(v, k) + instance_row(v[k]);
    if k < n - 1 {
        instances_are_listed_in_order(v, k, n - 1);
        assert(all.take(start.len() as int) =~= head.take(start.len() as int));
    } else {
        assert(all.take(start.len() as int) =~= start);
    }
}

/// The history has a row for each step, in their order.
pub proof fn steps_are_listed_in_order(v: Seq<HistoryStep>, k: int, n: int)
    requires
        0 <= k < n <= v.len(),
    ensures
        starts_with_spec(step_rows(v, n), step_rows(v, k) + step_row(v[k])),
    decreases n,
{
    let head = step_rows(v, n - 1);
    let all = step_rows(v, n);
    let start = step_rows(v, k) + step_row(v[k]);
    if k < n - 1 {
        steps_are_listed_in_order(v, k, n - 1);
        assert(all.take(start.len() as int) =~= head.take(start.len() as int));
    } else {
        assert(all.take(start.len() as int) =~= start);
    }
}

} // verus!
