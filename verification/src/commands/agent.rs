//! Commands on agents: how they are created and reached, and what is shown of
//! them.
use crate::agent::{AgentConfig, AgentState};
use crate::decimal::{decimal, show_u64, show_usize};
use crate::mcp_tools::send::internal_socket;
use crate::mcp_tools::subagents::tail_lines;
use crate::tasklog::last_n;
use crate::text::{
    both_parts_occur, byte_prefix, byte_prefix_spec, cat, cat3, char_prefix, char_prefix_spec,
    contains_spec, has, lines, lines_spec, opt_text, pad_right, pad_right_spec,
    padding_keeps_the_text, put_padded, same, starts_with_spec, texts,
};
use vstd::prelude::*;
use vstd::string::*;

verus! {

// ─── Creation ───────────────────────────────────────────────────────────────

/// The arguments that create an agent.
#[derive(Debug, Clone, PartialEq)]
pub struct CreateArgs {
    pub name: String,
    pub prompt: Option<String>,
    pub model: String,
    pub workdir: Option<String>,
    pub max_turns: u32,
    pub unix_user: Option<String>,
    pub budget_usd: String,
    pub command: Vec<String>,
}

/// Whether `r` is the configuration that the arguments ask for.
pub open spec fn configures(
    a: CreateArgs,
    runtime: Seq<char>,
    r: AgentConfig,
) -> bool {
    &&& r.name@ == a.name@
    &&& r.model@ == a.model@
    &&& r.system_prompt@ == (match a.prompt {
        Some(p) => p@,
        None => Seq::empty(),
    })
    &&& r.work_dir@ == (match a.workdir {
        Some(d) => d@,
        None => "."@,
    })
    &&& r.max_turns == a.max_turns
    &&& r.unix_user == a.unix_user
    &&& r.budget_usd@ == a.budget_usd@
    &&& texts(r.command@) == (if a.command@.len() == 0 {
        seq![runtime]
    } else {
        texts(a.command@)
    })
    &&& r.config_path is None
    &&& r.container is None
    &&& r.options is None
}

/// The configuration of an agent that the arguments create. Without a prompt it
/// has none, without a directory it works in the current one, and without a
/// command it runs `runtime`, the program that runs agents.
pub fn create_config(a: CreateArgs, runtime: &str) -> (r: AgentConfig)
    ensures
        configures(a, runtime@, r),
{
    let command: Vec<String> = if a.command.len() == 0 {
        let mut v: Vec<String> = Vec::new();
        v.push(String::from_str(runtime));
        assert(texts(v@) =~= seq![runtime@]);
        v
    } else {
        a.command
    };
    AgentConfig {
        name: a.name,
        model: a.model,
        system_prompt: match a.prompt {
            Some(p) => p,
            None => String::new(),
        },
        work_dir: match a.workdir {
            Some(d) => d,
            None => String::from_str("."),
        },
        max_turns: a.max_turns,
        unix_user: a.unix_user,
        budget_usd: a.budget_usd,
        command,
        config_path: None,
        container: None,
        options: None,
    }
}

/// The subscriptions of a worker: none of its own where the list is empty.
pub fn worker_subscriptions(subscribe: Vec<String>) -> (r: Option<Vec<String>>)
    ensures
        r == (if subscribe@.len() == 0 {
            None
        } else {
            Some(subscribe)
        }),
{
    if subscribe.len() == 0 {
        None
    } else {
        Some(subscribe)
    }
}

// ─── Sockets ────────────────────────────────────────────────────────────────

/// The bus socket of an agent with a working directory.
pub open spec fn bus_socket_of(work_dir: Seq<char>) -> Seq<char> {
    work_dir + "/.deskd/bus.sock"@
}

/// The bus socket of an agent with a working directory.
pub fn agent_bus_socket(work_dir: &str) -> (r: String)
    ensures
        r@ == bus_socket_of(work_dir@),
{
    cat(work_dir, "/.deskd/bus.sock")
}

/// A socket, and whether it is there.
#[derive(Debug, Clone, PartialEq)]
pub struct Probe {
    pub path: String,
    pub exists: bool,
}

/// The path of a socket that is there.
pub open spec fn present(p: Option<Probe>) -> Option<Seq<char>> {
    match p {
        Some(x) => if x.exists {
            Some(x.path@)
        } else {
            None
        },
        None => None,
    }
}

fn take_present(p: &Option<Probe>) -> (r: Option<String>)
    ensures
        opt_text(r) == present(*p),
{
    match p {
        Some(x) => if x.exists {
            Some(x.path.clone())
        } else {
            None
        },
        None => None,
    }
}

/// Whether `r` is the socket to send over.
pub open spec fn chooses_socket(
    named: Option<Probe>,
    own: Option<Probe>,
    served: Option<Probe>,
    r: Option<String>,
) -> bool {
    opt_text(r) == (if named is Some {
        present(named)
    } else if present(own) is Some {
        present(own)
    } else {
        present(served)
    })
}

/// The socket over which a message goes to an agent. A socket that was named is
/// the only one tried; else the socket of the agent's state, then that of the
/// running server. None where the message goes to the agent directly.
pub fn choose_socket(
    named: &Option<Probe>,
    own: &Option<Probe>,
    served: &Option<Probe>,
) -> (r: Option<String>)
    ensures
        chooses_socket(*named, *own, *served, r),
{
    if named.is_some() {
        return take_present(named);
    }
    match take_present(own) {
        Some(p) => Some(p),
        None => take_present(served),
    }
}

/// The bus target of an agent.
pub fn agent_target(name: &str) -> (r: String)
    ensures
        r@ == "agent:"@ + name@,
{
    cat("agent:", name)
}

/// The parents of sub-agents, each once, in the order in which they come first.
pub open spec fn parents(agents: Seq<AgentState>) -> Seq<Seq<char>>
    decreases agents.len(),
{
    if agents.len() == 0 {
        Seq::empty()
    } else {
        let head = parents(agents.drop_last());
        match agents.last().parent {
            Some(p) => if head.contains(p@) {
                head
            } else {
                head.push(p@)
            },
            None => head,
        }
    }
}

/// The sockets of a server other than `socket`.
pub open spec fn other_sockets(served: Seq<Seq<char>>, socket: Seq<char>) -> Seq<Seq<char>>
    decreases served.len(),
{
    if served.len() == 0 {
        Seq::empty()
    } else {
        let head = other_sockets(served.drop_last(), socket);
        if served.last() == socket {
            head
        } else {
            head.push(served.last())
        }
    }
}

/// The sockets on which agents may be found.
pub open spec fn all_sockets(
    socket: Seq<char>,
    served: Seq<Seq<char>>,
    agents: Seq<AgentState>,
) -> Seq<Seq<char>> {
    let p = parents(agents);
    seq![socket] + other_sockets(served, socket) + Seq::new(
        p.len(),
        |i: int| internal_socket(p[i]),
    )
}

fn collect_parents(agents: &Vec<AgentState>) -> (r: Vec<String>)
    ensures
        texts(r@) == parents(agents@),
{
    let mut out: Vec<String> = Vec::new();
    let mut i: usize = 0;
    assert(texts(out@) =~= parents(agents@.take(0)));
    while i < agents.len()
        invariant
            i <= agents@.len(),
            texts(out@) == parents(agents@.take(i as int)),
        decreases agents@.len() - i,
    {
        let ghost before = texts(out@);
        assert(agents@.take(i + 1).drop_last() =~= agents@.take(i as int));
        assert(agents@.take(i + 1).last() == agents@[i as int]);
        match &agents[i].parent {
            Some(p) => {
                let known: bool = has(&out, p);
                if !known {
                    out.push(p.clone());
                    assert(texts(out@) =~= before.push(p@));
                }
            },
            None => {},
        }
        i += 1;
    }
    assert(agents@.take(i as int) =~= agents@);
    out
}

/// The sockets on which agents may be found: the one that was named, the other
/// ones of a server, and the internal ones of agents with sub-agents.
pub fn live_sockets(socket: &str, served: &Vec<String>, agents: &Vec<AgentState>) -> (r: Vec<
    String,
>)
    ensures
        texts(r@) == all_sockets(socket@, texts(served@), agents@),
{
    let ghost sv = texts(served@);
    let mut out: Vec<String> = Vec::new();
    out.push(String::from_str(socket));
    let mut i: usize = 0;
    assert(texts(out@) =~= seq![socket@] + other_sockets(sv.take(0), socket@));
    while i < served.len()
        invariant
            i <= served@.len(),
            sv == texts(served@),
            texts(out@) == seq![socket@] + other_sockets(sv.take(i as int), socket@),
        decreases served@.len() - i,
    {
        let ghost before = texts(out@);
        assert(sv.take(i + 1).drop_last() =~= sv.take(i as int));
        assert(sv.take(i + 1).last() == served@[i as int]@);
        let first: bool = same(&served[i], socket);
        if !first {
            out.push(served[i].clone());
            assert(texts(out@) =~= before.push(sv[i as int]));
            assert(texts(out@) =~= seq![socket@] + other_sockets(sv.take(i + 1), socket@));
        }
        i += 1;
    }
    assert(sv.take(i as int) =~= sv);
    let ghost head = texts(out@);
    let ps = collect_parents(agents);
    let ghost p = parents(agents@);
    let ghost inner = Seq::new(p.len(), |i: int| internal_socket(p[i]));
    let mut k: usize = 0;
    assert(texts(out@) =~= head + inner.take(0));
    while k < ps.len()
        invariant
            k <= ps@.len(),
            texts(ps@) == p,
            inner == Seq::new(p.len(), |i: int| internal_socket(p[i])),
            texts(out@) == head + inner.take(k as int),
        decreases ps@.len() - k,
    {
        let ghost before = texts(out@);
        assert(p[k as int] == ps@[k as int]@);
        out.push(cat3("/tmp/deskd-", &ps[k], "-internal.sock"));
        assert(texts(out@) =~= before.push(inner[k as int]));
        assert(texts(out@) =~= head + inner.take(k + 1));
        k += 1;
    }
    assert(inner.take(k as int) =~= inner);
    out
}

// ─── The list of agents ─────────────────────────────────────────────────────

/// The health of an agent.
#[derive(Debug, Clone, Copy, PartialEq, Eq)]
pub enum Health {
    Ready,
    Busy,
    Unhealthy,
}

/// The status of an agent in the list.
pub open spec fn health_text(h: Health, is_sub: bool) -> Seq<char> {
    match h {
        Health::Ready => if is_sub {
            "ready[sub]"@
        } else {
            "ready"@
        },
        Health::Busy => if is_sub {
            "busy[sub]"@
        } else {
            "busy"@
        },
        Health::Unhealthy => "unhealthy"@,
    }
}

fn show_health(h: Health, is_sub: bool) -> (r: &'static str)
    ensures
        r@ == health_text(h, is_sub),
{
    match h {
        Health::Ready => if is_sub {
            "ready[sub]"
        } else {
            "ready"
        },
        Health::Busy => if is_sub {
            "busy[sub]"
        } else {
            "busy"
        },
        Health::Unhealthy => "unhealthy",
    }
}

/// An optional text, or a dash.
pub open spec fn or_dash(o: Option<Seq<char>>) -> Seq<char> {
    match o {
        Some(t) => t,
        None => "-"@,
    }
}

/// An optional text, or a dash.
pub(crate) fn dash<'a>(o: &'a Option<String>) -> (r: &'a str)
    ensures
        r@ == or_dash(opt_text(*o)),
{
    match o {
        Some(t) => t,
        None => "-",
    }
}

/// An agent of the list. `cost` is its cost with two decimal places.
#[derive(Debug, Clone, PartialEq)]
pub struct ListRow {
    pub state: AgentState,
    pub health: Health,
    pub cost: String,
}

/// The line of an agent in the list.
pub open spec fn list_row_text(r: ListRow) -> Seq<char> {
    pad_right_spec(r.state.name@, 15) + " "@ + pad_right_spec(
        health_text(r.health, r.state.parent is Some),
        12,
    ) + " "@ + pad_right_spec(decimal(r.state.total_turns as nat), 8) + " $"@ + pad_right_spec(
        r.cost@,
        9,
    ) + " "@ + pad_right_spec(or_dash(opt_text(r.state.unix_user)), 12) + " "@ + r.state.model@
        + "\n"@
}

/// The lines of the first `n` agents of the list.
pub open spec fn list_rows_text(rows: Seq<ListRow>, n: int) -> Seq<char>
    decreases n,
{
    if n <= 0 {
        Seq::empty()
    } else {
        list_rows_text(rows, n - 1) + list_row_text(rows[n - 1])
    }
}

/// The list of agents.
pub open spec fn list_text(rows: Seq<ListRow>) -> Seq<char> {
    if rows.len() == 0 {
        "No agents registered\n"@
    } else {
        pad_right_spec("NAME"@, 15) + " "@ + pad_right_spec("STATUS"@, 12) + " "@ + pad_right_spec(
            "TURNS"@,
            8,
        ) + " "@ + pad_right_spec("COST"@, 10) + " "@ + pad_right_spec("USER"@, 12) + " MODEL\n"@
            + list_rows_text(rows, rows.len() as int)
    }
}

fn show_list_row(r: &ListRow) -> (t: String)
    ensures
        t@ == list_row_text(*r),
{
    let mut out = pad_right(&r.state.name, 15);
    out.append(" ");
    put_padded(&mut out, show_health(r.health, r.state.parent.is_some()), 12);
    out.append(" ");
    put_padded(&mut out, &show_u64(r.state.total_turns as u64), 8);
    out.append(" $");
    put_padded(&mut out, &r.cost, 9);
    out.append(" ");
    put_padded(&mut out, dash(&r.state.unix_user), 12);
    out.append(" ");
    out.append(&r.state.model);
    out.append("\n");
    out
}

/// The list of agents.
pub fn show_list(rows: &Vec<ListRow>) -> (t: String)
    ensures
        t@ == list_text(rows@),
{
    if rows.len() == 0 {
        return String::from_str("No agents registered\n");
    }
    let mut body = String::new();
    let mut i: usize = 0;
    while i < rows.len()
        invariant
            i <= rows@.len(),
            body@ == list_rows_text(rows@, i as int),
        decreases rows@.len() - i,
    {
        let line = show_list_row(&rows[i]);
        body.append(&line);
        i += 1;
    }
    let mut out = pad_right("NAME", 15);
    out.append(" ");
    put_padded(&mut out, "STATUS", 12);
    out.append(" ");
    put_padded(&mut out, "TURNS", 8);
    out.append(" ");
    put_padded(&mut out, "COST", 10);
    out.append(" ");
    put_padded(&mut out, "USER", 12);
    out.append(" MODEL\n");
    out.append(&body);
    out
}

// ─── One agent ──────────────────────────────────────────────────────────────

/// What is shown of an agent. `cost` has four decimal places, `budget` two.
pub open spec fn stats_text(s: AgentState, cost: Seq<char>, budget: Seq<char>) -> Seq<char> {
    "Agent:      "@ + s.name@ + "\nModel:      "@ + s.model@ + "\nUnix user:  "@ + or_dash(
        opt_text(s.unix_user),
    ) + "\nWork dir:   "@ + s.work_dir@ + "\nBus:        "@ + bus_socket_of(s.work_dir@)
        + "\nConfig:     "@ + or_dash(opt_text(s.config_path)) + "\nTotal turns:"@ + decimal(
        s.total_turns as nat,
    ) + "\nTotal cost: $"@ + cost + "\nBudget:     $"@ + budget + "\nSession:    "@ + (
    if s.session_id@.len() == 0 {
        "-"@
    } else {
        s.session_id@
    }) + "\nCreated:    "@ + s.created_at@ + "\n"@
}

/// What is shown of an agent. `cost` has four decimal places, `budget` two.
pub fn show_stats(s: &AgentState, cost: &str, budget: &str) -> (t: String)
    ensures
        t@ == stats_text(*s, cost@, budget@),
{
    let mut out = cat3("Agent:      ", &s.name, "\nModel:      ");
    out.append(&s.model);
    out.append("\nUnix user:  ");
    out.append(dash(&s.unix_user));
    out.append("\nWork dir:   ");
    out.append(&s.work_dir);
    out.append("\nBus:        ");
    let bus = agent_bus_socket(&s.work_dir);
    out.append(&bus);
    out.append("\nConfig:     ");
    out.append(dash(&s.config_path));
    out.append("\nTotal turns:");
    let turns = show_u64(s.total_turns as u64);
    out.append(&turns);
    out.append("\nTotal cost: $");
    out.append(cost);
    out.append("\nBudget:     $");
    out.append(budget);
    out.append("\nSession:    ");
    if s.session_id.as_str().is_empty() {
        out.append("-");
    } else {
        out.append(&s.session_id);
    }
    out.append("\nCreated:    ");
    out.append(&s.created_at);
    out.append("\n");
    out
}

/// Lines, each behind two spaces.
pub open spec fn indented(v: Seq<Seq<char>>, n: int) -> Seq<char>
    decreases n,
{
    if n <= 0 {
        Seq::empty()
    } else {
        indented(v, n - 1) + "  "@ + v[n - 1] + "\n"@
    }
}

/// The end of the error output of an agent: its last five lines.
pub open spec fn stderr_tail_text(content: Option<Seq<char>>) -> Seq<char> {
    match content {
        Some(c) => {
            let all = lines_spec(c);
            if all.len() == 0 {
                Seq::empty()
            } else {
                let shown = last_n(all, 5);
                "Stderr (last "@ + decimal(shown.len()) + "):\n"@ + indented(
                    shown,
                    shown.len() as int,
                )
            }
        },
        None => Seq::empty(),
    }
}

/// What is known of a running agent beside its state.
#[derive(Debug, Clone, PartialEq)]
pub struct StatusFacts {
    /// Whether its process is there.
    pub pid_alive: bool,
    /// Whether it is on the internal bus of its parent.
    pub on_internal_bus: bool,
    /// Its cost with four decimal places.
    pub cost: String,
    /// Its budget with two decimal places.
    pub budget: String,
    /// What it wrote to its error output, where that is kept.
    pub stderr: Option<String>,
}

/// The status of an agent.
pub open spec fn agent_status_text(s: AgentState, f: StatusFacts) -> Seq<char> {
    "Agent:       "@ + s.name@ + "\n"@ + (if s.parent is Some {
        "Type:        sub-agent\n"@
    } else {
        Seq::empty()
    }) + "Status:      "@ + (if f.pid_alive || f.on_internal_bus {
        s.status@
    } else {
        "offline"@
    }) + "\nPID:         "@ + (if f.pid_alive {
        decimal(s.pid as nat)
    } else {
        "-"@
    }) + "\nModel:       "@ + s.model@ + "\nTurns:       "@ + decimal(s.total_turns as nat)
        + "\nCost:        $"@ + f.cost@ + "\nBudget:      $"@ + f.budget@ + "\nCreated:     "@
        + s.created_at@ + "\nWork dir:    "@ + s.work_dir@ + "\n"@ + (
    if s.current_task@.len() > 0 {
        "Current:     "@ + char_prefix_spec(s.current_task@, 60) + "\n"@
    } else {
        Seq::empty()
    }) + (match s.parent {
        Some(p) => "Parent:      "@ + p@ + "\n"@,
        None => Seq::empty(),
    }) + stderr_tail_text(opt_text(f.stderr))
}

fn show_indented(v: &Vec<String>) -> (t: String)
    ensures
        t@ == indented(texts(v@), v@.len() as int),
{
    let ghost all = texts(v@);
    let mut out = String::new();
    let mut i: usize = 0;
    while i < v.len()
        invariant
            i <= v@.len(),
            all == texts(v@),
            out@ == indented(all, i as int),
        decreases v@.len() - i,
    {
        assert(all[i as int] == v@[i as int]@);
        out.append("  ");
        out.append(&v[i]);
        out.append("\n");
        i += 1;
    }
    out
}

fn show_stderr_tail(content: &Option<String>) -> (t: String)
    ensures
        t@ == stderr_tail_text(opt_text(*content)),
{
    match content {
        Some(c) => {
            let all = lines(c);
            if all.len() == 0 {
                return String::new();
            }
            let shown = tail_lines(&all, 5);
            let body = show_indented(&shown);
            let mut out = cat3("Stderr (last ", &show_usize(shown.len()), "):\n");
            out.append(&body);
            out
        },
        None => String::new(),
    }
}

/// The status of an agent.
pub fn show_agent_status(s: &AgentState, f: &StatusFacts) -> (t: String)
    ensures
        t@ == agent_status_text(*s, *f),
{
    let mut out = cat3("Agent:       ", &s.name, "\n");
    if s.parent.is_some() {
        out.append("Type:        sub-agent\n");
    } else {
        assert(out@ =~= out@ + Seq::<char>::empty());
    }
    out.append("Status:      ");
    if f.pid_alive || f.on_internal_bus {
        out.append(&s.status);
    } else {
        out.append("offline");
    }
    out.append("\nPID:         ");
    if f.pid_alive {
        let pid = show_u64(s.pid as u64);
        out.append(&pid);
    } else {
        out.append("-");
    }
    out.append("\nModel:       ");
    out.append(&s.model);
    out.append("\nTurns:       ");
    let turns = show_u64(s.total_turns as u64);
    out.append(&turns);
    out.append("\nCost:        $");
    out.append(&f.cost);
    out.append("\nBudget:      $");
    out.append(&f.budget);
    out.append("\nCreated:     ");
    out.append(&s.created_at);
    out.append("\nWork dir:    ");
    out.append(&s.work_dir);
    out.append("\n");
    if !s.current_task.as_str().is_empty() {
        let line = cat3("Current:     ", char_prefix(&s.current_task, 60), "\n");
        out.append(&line);
    } else {
        assert(out@ =~= out@ + Seq::<char>::empty());
    }
    match &s.parent {
        Some(p) => {
            let line = cat3("Parent:      ", p, "\n");
            out.append(&line);
        },
        None => {
            assert(out@ =~= out@ + Seq::<char>::empty());
        },
    }
    let tail = show_stderr_tail(&f.stderr);
    out.append(&tail);
    out
}

/// An agent in the table of states. `cost` is its cost with four decimal places.
#[derive(Debug, Clone, PartialEq)]
pub struct StatusRow {
    pub state: AgentState,
    pub pid_alive: bool,
    pub cost: String,
}

/// The status in the table of states. An agent without a process is offline.
pub open spec fn row_status(r: StatusRow) -> Seq<char> {
    (if r.pid_alive {
        r.state.status@
    } else {
        "offline"@
    }) + (if r.state.parent is Some {
        "[sub]"@
    } else {
        Seq::empty()
    })
}

/// The line of an agent in the table of states.
pub open spec fn status_row_text(r: StatusRow) -> Seq<char> {
    pad_right_spec(r.state.name@, 15) + " "@ + pad_right_spec(row_status(r), 12) + " "@
        + pad_right_spec(decimal(r.state.total_turns as nat), 6) + " $"@ + pad_right_spec(
        r.cost@,
        9,
    ) + " "@ + pad_right_spec(byte_prefix_spec(r.state.created_at@, 19), 20) + " "@ + r.state.model@
        + "\n"@
}

/// The lines of the first `n` agents of the table of states.
pub open spec fn status_rows_text(rows: Seq<StatusRow>, n: int) -> Seq<char>
    decreases n,
{
    if n <= 0 {
        Seq::empty()
    } else {
        status_rows_text(rows, n - 1) + status_row_text(rows[n - 1])
    }
}

/// The rule below the header of the table of states.
pub const STATUS_RULE: &'static str =
    "──────────────────────────────────────────────────────────────────────────────\n";

/// The table of states.
pub open spec fn status_table_text(rows: Seq<StatusRow>) -> Seq<char> {
    if rows.len() == 0 {
        "No agents registered\n"@
    } else {
        pad_right_spec("NAME"@, 15) + " "@ + pad_right_spec("STATUS"@, 12) + " "@ + pad_right_spec(
            "TURNS"@,
            6,
        ) + " "@ + pad_right_spec("COST"@, 10) + " "@ + pad_right_spec("CREATED"@, 20)
            + " MODEL\n"@ + STATUS_RULE@ + status_rows_text(rows, rows.len() as int)
    }
}

fn show_row_status(r: &StatusRow) -> (t: String)
    ensures
        t@ == row_status(*r),
{
    let mut out = if r.pid_alive {
        r.state.status.clone()
    } else {
        String::from_str("offline")
    };
    if r.state.parent.is_some() {
        out.append("[sub]");
    } else {
        assert(out@ =~= out@ + Seq::<char>::empty());
    }
    out
}

fn show_status_row(r: &StatusRow) -> (t: String)
    ensures
        t@ == status_row_text(*r),
{
    let mut out = pad_right(&r.state.name, 15);
    out.append(" ");
    put_padded(&mut out, &show_row_status(r), 12);
    out.append(" ");
    put_padded(&mut out, &show_u64(r.state.total_turns as u64), 6);
    out.append(" $");
    put_padded(&mut out, &r.cost, 9);
    out.append(" ");
    put_padded(&mut out, byte_prefix(&r.state.created_at, 19), 20);
    out.append(" ");
    out.append(&r.state.model);
    out.append("\n");
    out
}

/// The table of states.
pub fn show_status_table(rows: &Vec<StatusRow>) -> (t: String)
    ensures
        t@ == status_table_text(rows@),
{
    if rows.len() == 0 {
        return String::from_str("No agents registered\n");
    }
    let mut body = String::new();
    let mut i: usize = 0;
    while i < rows.len()
        invariant
            i <= rows@.len(),
            body@ == status_rows_text(rows@, i as int),
        decreases rows@.len() - i,
    {
        let line = show_status_row(&rows[i]);
        body.append(&line);
        i += 1;
    }
    let mut out = pad_right("NAME", 15);
    out.append(" ");
    put_padded(&mut out, "STATUS", 12);
    out.append(" ");
    put_padded(&mut out, "TURNS", 6);
    out.append(" ");
    put_padded(&mut out, "COST", 10);
    out.append(" ");
    put_padded(&mut out, "CREATED", 20);
    out.append(" MODEL\n");
    out.append(STATUS_RULE);
    out.append(&body);
    out
}

// ─── Logs ───────────────────────────────────────────────────────────────────

/// How a task log is shown.
#[derive(Debug, Clone, Copy, PartialEq, Eq)]
pub enum LogView {
    Nothing,
    ByPr,
    Cost,
    Json,
    Table,
}

/// Whether `r` is the number of entries to read.
pub open spec fn limits_log(
    limit: usize,
    cost: bool,
    by_pr: bool,
    r: usize,
) -> bool {
    r == (if cost || by_pr {
        usize::MAX
    } else {
        limit
    })
}

/// The number of entries of a task log to read: all where they are summed up.
pub fn log_limit(limit: usize, cost: bool, by_pr: bool) -> (r: usize)
    ensures
        limits_log(limit, cost, by_pr, r),
{
    if cost || by_pr {
        usize::MAX
    } else {
        limit
    }
}

/// Whether `r` is how a log is to be shown.
pub open spec fn shows_log(
    is_empty: bool,
    by_pr: bool,
    cost: bool,
    json: bool,
    r: LogView,
) -> bool {
    r == (if is_empty {
        LogView::Nothing
    } else if by_pr {
        LogView::ByPr
    } else if cost {
        LogView::Cost
    } else if json {
        LogView::Json
    } else {
        LogView::Table
    })
}

/// How a task log is shown.
pub fn log_view(is_empty: bool, by_pr: bool, cost: bool, json: bool) -> (r: LogView)
    ensures
        shows_log(is_empty, by_pr, cost, json, r),
{
    if is_empty {
        LogView::Nothing
    } else if by_pr {
        LogView::ByPr
    } else if cost {
        LogView::Cost
    } else if json {
        LogView::Json
    } else {
        LogView::Table
    }
}

/// The last lines of a log, at most `tail`.
pub fn log_tail(content: &str, tail: u64) -> (r: Vec<String>)
    ensures
        texts(r@) == last_n(lines_spec(content@), tail as nat),
{
    tail_lines(&lines(content), tail)
}

// ─── Spawning ───────────────────────────────────────────────────────────────

/// Whether `r` is the bus to start a worker on.
pub open spec fn spawns_on(
    named: Option<&str>,
    env: Option<&str>,
    r: Result<String, String>,
) -> bool {
    match (named, env) {
        (Some(s), _) => r matches Ok(t) && t@ == s@,
        (None, Some(s)) => r matches Ok(t) && t@ == s@,
        (None, None) => r matches Err(e) && e@
            == "No bus socket: pass --socket or set DESKD_BUS_SOCKET"@,
    }
}

/// The bus socket of a spawned agent: the one that was named, or else the one of
/// the environment.
pub fn spawn_socket(named: Option<&str>, env: Option<&str>) -> (r: Result<String, String>)
    ensures
        spawns_on(named, env, r),
{
    match (named, env) {
        (Some(s), _) => Ok(String::from_str(s)),
        (None, Some(s)) => Ok(String::from_str(s)),
        (None, None) => Err(
            String::from_str("No bus socket: pass --socket or set DESKD_BUS_SOCKET"),
        ),
    }
}

/// The agent that spawns another one.
pub fn spawn_parent(env: Option<&str>) -> (r: String)
    ensures
        r@ == (match env {
            Some(s) => s@,
            None => "unknown"@,
        }),
{
    match env {
        Some(s) => String::from_str(s),
        None => String::from_str("unknown"),
    }
}

// ─── What the commands show ─────────────────────────────────────────────────

/// A socket that is named is used where it is there, and no other; else that of the agent
/// comes before that of the server.
pub proof fn named_socket_comes_first(
    named: Option<Probe>,
    own: Option<Probe>,
    served: Option<Probe>,
    r: Option<String>,
)
    requires
        chooses_socket(named, own, served, r),
    ensures
        named matches Some(p) ==> (if p.exists {
            opt_text(r) == Some(p.path@)
        } else {
            r is None
        }),
        (named is None && (own matches Some(p) && p.exists)) ==> opt_text(r) == Some(own->0.path@),
        (named is None && (own is None || !own->0.exists) && (served matches Some(p) && p.exists))
            ==> opt_text(r) == Some(served->0.path@),
        named is None && (own is None || !own->0.exists) && (served is None || !served->0.exists)
            ==> r is None,
{
}

/// A new agent has the name, the model, the turns and the budget that are given; it works
/// here, and with the usual program, unless something else is given.
pub proof fn new_agent_is_configured_as_given(a: CreateArgs, runtime: Seq<char>, r: AgentConfig)
    requires
        configures(a, runtime, r),
    ensures
        r.name@ == a.name@ && r.model@ == a.model@ && r.max_turns == a.max_turns && r.budget_usd@
            == a.budget_usd@,
        a.workdir is None ==> r.work_dir@ == "."@,
        a.workdir matches Some(d) ==> r.work_dir@ == d@,
        a.prompt is None ==> r.system_prompt@.len() == 0,
        a.prompt matches Some(p) ==> r.system_prompt@ == p@,
        a.command@.len() == 0 ==> texts(r.command@) == seq![runtime],
        a.command@.len() > 0 ==> texts(r.command@) == texts(a.command@),
{
}

/// The report by pull request comes before that of costs, and that before the plain forms.
pub proof fn reports_come_before_listings(is_empty: bool, by_pr: bool, cost: bool, json: bool, r: LogView)
    requires
        shows_log(is_empty, by_pr, cost, json, r),
    ensures
        r == LogView::Nothing <==> is_empty,
        r == LogView::ByPr <==> !is_empty && by_pr,
        r == LogView::Cost <==> !is_empty && !by_pr && cost,
        r == LogView::Json <==> !is_empty && !by_pr && !cost && json,
        r == LogView::Table <==> !is_empty && !by_pr && !cost && !json,
{
}

/// An agent lies behind the bus in its directory, and a sub-agent behind the internal bus of
/// its parent: all of these are asked, and the named one first.
pub proof fn all_buses_are_asked(
    socket: Seq<char>,
    served: Seq<Seq<char>>,
    agents: Seq<AgentState>,
    i: int,
)
    ensures
        all_sockets(socket, served, agents)[0] == socket,
        0 <= i < served.len() ==> all_sockets(socket, served, agents).contains(served[i]),
        (0 <= i < agents.len() && (agents[i].parent matches Some(p))) ==> all_sockets(
            socket,
            served,
            agents,
        ).contains("/tmp/deskd-"@ + agents[i].parent->0@ + "-internal.sock"@),
{
    let all = all_sockets(socket, served, agents);
    let others = other_sockets(served, socket);
    let ps = parents(agents);
    if 0 <= i < served.len() {
        if served[i] == socket {
            assert(all[0] == served[i]);
        } else {
            other_sockets_are_kept(served, socket, i);
            let k = choose|k: int| 0 <= k < others.len() && others[k] == served[i];
            assert(all[k + 1] == served[i]);
        }
    }
    if 0 <= i < agents.len() && agents[i].parent is Some {
        parents_are_listed(agents, i);
        let k = choose|k: int| 0 <= k < ps.len() && ps[k] == agents[i].parent->0@;
        assert(all[1 + others.len() + k] == internal_socket(ps[k]));
    }
}

proof fn other_sockets_are_kept(served: Seq<Seq<char>>, socket: Seq<char>, i: int)
    requires
        0 <= i < served.len(),
        served[i] != socket,
    ensures
        other_sockets(served, socket).contains(served[i]),
    decreases served.len(),
{
    let out = other_sockets(served, socket);
    let front = served.drop_last();
    let head = other_sockets(front, socket);
    if i < front.len() {
        other_sockets_are_kept(front, socket, i);
        let k = choose|k: int| 0 <= k < head.len() && head[k] == front[i];
        assert(out[k] == served[i]);
    } else {
        assert(out[out.len() - 1] == served[i]);
    }
}

proof fn parents_are_listed(agents: Seq<AgentState>, i: int)
    requires
        0 <= i < agents.len(),
        agents[i].parent is Some,
    ensures
        parents(agents).contains(agents[i].parent->0@),
    decreases agents.len(),
{
    let out = parents(agents);
    let front = agents.drop_last();
    let head = parents(front);
    let p = agents[i].parent->0@;
    if i < front.len() {
        parents_are_listed(front, i);
        let k = choose|k: int| 0 <= k < head.len() && head[k] == front[i].parent->0@;
        assert(out[k] == p);
    } else if !head.contains(p) {
        assert(out[out.len() - 1] == p);
    }
}

/// An agent that does not answer is unhealthy; a sub-agent is marked as one.
pub proof fn health_is_told(is_sub: bool)
    ensures
        health_text(Health::Unhealthy, is_sub) == "unhealthy"@,
        health_text(Health::Ready, false) == "ready"@ && health_text(Health::Busy, false) == "busy"@,
        health_text(Health::Ready, true) == "ready"@ + "[sub]"@,
        health_text(Health::Busy, true) == "busy"@ + "[sub]"@,
{
    reveal_strlit("ready");
    reveal_strlit("busy");
    reveal_strlit("[sub]");
    reveal_strlit("ready[sub]");
    reveal_strlit("busy[sub]");
    assert("ready[sub]"@ =~= "ready"@ + "[sub]"@);
    assert("busy[sub]"@ =~= "busy"@ + "[sub]"@);
}

/// The row of an agent holds its name, its health, its turns, its cost, its user and its model.
pub proof fn list_rows_tell_their_agent(r: ListRow)
    ensures
        contains_spec(list_row_text(r), r.state.name@),
        contains_spec(list_row_text(r), health_text(r.health, r.state.parent is Some)),
        contains_spec(list_row_text(r), decimal(r.state.total_turns as nat)),
        contains_spec(list_row_text(r), r.cost@),
        contains_spec(list_row_text(r), or_dash(opt_text(r.state.unix_user))),
        contains_spec(list_row_text(r), r.state.model@),
{
    padding_keeps_the_text(r.state.name@, 15);
    padding_keeps_the_text(health_text(r.health, r.state.parent is Some), 12);
    padding_keeps_the_text(decimal(r.state.total_turns as nat), 8);
    padding_keeps_the_text(r.cost@, 9);
    padding_keeps_the_text(or_dash(opt_text(r.state.unix_user)), 12);
    let p0 = pad_right_spec(r.state.name@, 15);
    let q1 = " "@;
    let p1 = p0 + q1;
    both_parts_occur(p0, q1);
    let q2 = pad_right_spec(health_text(r.health, r.state.parent is Some), 12);
    let p2 = p1 + q2;
    both_parts_occur(p1, q2);
    let q3 = " "@;
    let p3 = p2 + q3;
    both_parts_occur(p2, q3);
    let q4 = pad_right_spec(decimal(r.state.total_turns as nat), 8);
    let p4 = p3 + q4;
    both_parts_occur(p3, q4);
    let q5 = " $"@;
    let p5 = p4 + q5;
    both_parts_occur(p4, q5);
    let q6 = pad_right_spec(r.cost@, 9);
    let p6 = p5 + q6;
    both_parts_occur(p5, q6);
    let q7 = " "@;
    let p7 = p6 + q7;
    both_parts_occur(p6, q7);
    let q8 = pad_right_spec(or_dash(opt_text(r.state.unix_user)), 12);
    let p8 = p7 + q8;
    both_parts_occur(p7, q8);
    let q9 = " "@;
    let p9 = p8 + q9;
    both_parts_occur(p8, q9);
    let q10 = r.state.model@;
    let p10 = p9 + q10;
    both_parts_occur(p9, q10);
    let q11 = "\n"@;
    let p11 = p10 + q11;
    both_parts_occur(p10, q11);
    assert(list_row_text(r) == p11);
}

/// The row of an agent holds its name, its status, its turns, its cost and its model.
pub proof fn status_rows_tell_their_agent(r: StatusRow)
    ensures
        contains_spec(status_row_text(r), r.state.name@),
        contains_spec(status_row_text(r), row_status(r)),
        contains_spec(status_row_text(r), decimal(r.state.total_turns as nat)),
        contains_spec(status_row_text(r), r.cost@),
        contains_spec(status_row_text(r), byte_prefix_spec(r.state.created_at@, 19)),
        contains_spec(status_row_text(r), r.state.model@),
{
    padding_keeps_the_text(r.state.name@, 15);
    padding_keeps_the_text(row_status(r), 12);
    padding_keeps_the_text(decimal(r.state.total_turns as nat), 6);
    padding_keeps_the_text(r.cost@, 9);
    padding_keeps_the_text(byte_prefix_spec(r.state.created_at@, 19), 20);
    let p0 = pad_right_spec(r.state.name@, 15);
    let q1 = " "@;
    let p1 = p0 + q1;
    both_parts_occur(p0, q1);
    let q2 = pad_right_spec(row_status(r), 12);
    let p2 = p1 + q2;
    both_parts_occur(p1, q2);
    let q3 = " "@;
    let p3 = p2 + q3;
    both_parts_occur(p2, q3);
    let q4 = pad_right_spec(decimal(r.state.total_turns as nat), 6);
    let p4 = p3 + q4;
    both_parts_occur(p3, q4);
    let q5 = " $"@;
    let p5 = p4 + q5;
    both_parts_occur(p4, q5);
    let q6 = pad_right_spec(r.cost@, 9);
    let p6 = p5 + q6;
    both_parts_occur(p5, q6);
    let q7 = " "@;
    let p7 = p6 + q7;
    both_parts_occur(p6, q7);
    let q8 = pad_right_spec(byte_prefix_spec(r.state.created_at@, 19), 20);
    let p8 = p7 + q8;
    both_parts_occur(p7, q8);
    let q9 = " "@;
    let p9 = p8 + q9;
    both_parts_occur(p8, q9);
    let q10 = r.state.model@;
    let p10 = p9 + q10;
    both_parts_occur(p9, q10);
    let q11 = "\n"@;
    let p11 = p10 + q11;
    both_parts_occur(p10, q11);
    assert(status_row_text(r) == p11);
}

/// The statistics of an agent hold its name, its model, its directory, its bus, its turns, its cost and its budget.
pub proof fn statistics_tell_the_agent(s: AgentState, cost: Seq<char>, budget: Seq<char>)
    ensures
        contains_spec(stats_text(s, cost, budget), s.name@),
        contains_spec(stats_text(s, cost, budget), s.model@),
        contains_spec(stats_text(s, cost, budget), or_dash(opt_text(s.unix_user))),
        contains_spec(stats_text(s, cost, budget), s.work_dir@),
        contains_spec(stats_text(s, cost, budget), bus_socket_of(s.work_dir@)),
        contains_spec(stats_text(s, cost, budget), or_dash(opt_text(s.config_path))),
        contains_spec(stats_text(s, cost, budget), decimal(s.total_turns as nat)),
        contains_spec(stats_text(s, cost, budget), cost),
        contains_spec(stats_text(s, cost, budget), budget),
        contains_spec(stats_text(s, cost, budget), s.created_at@),
{
    let p0 = "Agent:      "@;
    let q1 = s.name@;
    let p1 = p0 + q1;
    both_parts_occur(p0, q1);
    let q2 = "\nModel:      "@;
    let p2 = p1 + q2;
    both_parts_occur(p1, q2);
    let q3 = s.model@;
    let p3 = p2 + q3;
    both_parts_occur(p2, q3);
    let q4 = "\nUnix user:  "@;
    let p4 = p3 + q4;
    both_parts_occur(p3, q4);
    let q5 = or_dash(opt_text(s.unix_user));
    let p5 = p4 + q5;
    both_parts_occur(p4, q5);
    let q6 = "\nWork dir:   "@;
    let p6 = p5 + q6;
    both_parts_occur(p5, q6);
    let q7 = s.work_dir@;
    let p7 = p6 + q7;
    both_parts_occur(p6, q7);
    let q8 = "\nBus:        "@;
    let p8 = p7 + q8;
    both_parts_occur(p7, q8);
    let q9 = bus_socket_of(s.work_dir@);
    let p9 = p8 + q9;
    both_parts_occur(p8, q9);
    let q10 = "\nConfig:     "@;
    let p10 = p9 + q10;
    both_parts_occur(p9, q10);
    let q11 = or_dash(opt_text(s.config_path));
    let p11 = p10 + q11;
    both_parts_occur(p10, q11);
    let q12 = "\nTotal turns:"@;
    let p12 = p11 + q12;
    both_parts_occur(p11, q12);
    let q13 = decimal(s.total_turns as nat);
    let p13 = p12 + q13;
    both_parts_occur(p12, q13);
    let q14 = "\nTotal cost: $"@;
    let p14 = p13 + q14;
    both_parts_occur(p13, q14);
    let q15 = cost;
    let p15 = p14 + q15;
    both_parts_occur(p14, q15);
    let q16 = "\nBudget:     $"@;
    let p16 = p15 + q16;
    both_parts_occur(p15, q16);
    let q17 = budget;
    let p17 = p16 + q17;
    both_parts_occur(p16, q17);
    let q18 = "\nSession:    "@;
    let p18 = p17 + q18;
    both_parts_occur(p17, q18);
    let q19 = (if s.session_id@.len() == 0 { "-"@ } else { s.session_id@ });
    let p19 = p18 + q19;
    both_parts_occur(p18, q19);
    let q20 = "\nCreated:    "@;
    let p20 = p19 + q20;
    both_parts_occur(p19, q20);
    let q21 = s.created_at@;
    let p21 = p20 + q21;
    both_parts_occur(p20, q21);
    let q22 = "\n"@;
    let p22 = p21 + q22;
    both_parts_occur(p21, q22);
    assert(stats_text(s, cost, budget) == p22);
}

/// An agent whose process is gone is offline.
pub proof fn gone_agents_are_offline(r: StatusRow)
    ensures
        r.state.parent is None ==> row_status(r) == (if r.pid_alive {
            r.state.status@
        } else {
            "offline"@
        }),
        r.state.parent is Some ==> row_status(r) == (if r.pid_alive {
            r.state.status@
        } else {
            "offline"@
        }) + "[sub]"@,
{
    assert(r.state.parent is None ==> row_status(r) =~= (if r.pid_alive {
        r.state.status@
    } else {
        "offline"@
    }));
}

/// The bus of an agent lies in its working directory.
pub proof fn bus_lies_in_the_directory(work_dir: Seq<char>)
    ensures
        bus_socket_of(work_dir) == work_dir + "/.deskd/bus.sock"@,
        bus_socket_of(work_dir).take(work_dir.len() as int) == work_dir,
{
    assert(bus_socket_of(work_dir).take(work_dir.len() as int) =~= work_dir);
}

/// The listing has a row for each agent, in their order.
pub proof fn agents_are_listed_in_order(v: Seq<ListRow>, k: int, n: int)
    requires
        0 <= k < n <= v.len(),
    ensures
        starts_with_spec(list_rows_text(v, n), list_rows_text(v, k) + list_row_text(v[k])),
    decreases n,
{
    let head = list_rows_text(v, n - 1);
    let all = list_rows_text(v, n);
    let start = list_rows_text(v, k) + list_row_text(v[k]);
    if k < n - 1 {
        agents_are_listed_in_order(v, k, n - 1);
        assert(all.take(start.len() as int) =~= head.take(start.len() as int));
    } else {
        assert(all.take(start.len() as int) =~= start);
    }
}

/// The table has a row for each agent, in their order.
pub proof fn statuses_are_listed_in_order(v: Seq<StatusRow>, k: int, n: int)
    requires
        0 <= k < n <= v.len(),
    ensures
        starts_with_spec(status_rows_text(v, n), status_rows_text(v, k) + status_row_text(v[k])),
    decreases n,
{
    let head = status_rows_text(v, n - 1);
    let all = status_rows_text(v, n);
    let start = status_rows_text(v, k) + status_row_text(v[k]);
    if k < n - 1 {
        statuses_are_listed_in_order(v, k, n - 1);
        assert(all.take(start.len() as int) =~= head.take(start.len() as int));
    } else {
        assert(all.take(start.len() as int) =~= start);
    }
}

/// Each line is shown on a line of its own, two columns in, in their order.
pub proof fn lines_are_indented_in_order(v: Seq<Seq<char>>, k: int, n: int)
    requires
        0 <= k < n <= v.len(),
    ensures
        starts_with_spec(indented(v, n), indented(v, k) + ("  "@ + v[k] + "\n"@)),
    decreases n,
{
    let head = indented(v, n - 1);
    let all = indented(v, n);
    let start = indented(v, k) + ("  "@ + v[k] + "\n"@);
    if k < n - 1 {
        lines_are_indented_in_order(v, k, n - 1);
        assert(all.take(start.len() as int) =~= head.take(start.len() as int));
    } else {
        assert(all.take(start.len() as int) =~= start);
    }
}

/// A report reads all entries; a listing reads as many as are asked for.
pub proof fn reports_read_everything(limit: usize, cost: bool, by_pr: bool, r: usize)
    requires
        limits_log(limit, cost, by_pr, r),
    ensures
        r >= limit,
        cost || by_pr ==> r == usize::MAX,
        !cost && !by_pr ==> r == limit,
{
}

/// A worker is started on the bus that is named, else on that of the environment, and
/// without either not at all.
pub proof fn workers_need_a_bus(named: Option<&str>, env: Option<&str>, r: Result<String, String>)
    requires
        spawns_on(named, env, r),
    ensures
        r is Ok <==> named is Some || env is Some,
        named is Some ==> r->Ok_0@ == named->0@,
        named is None && env is Some ==> r->Ok_0@ == env->0@,
{
}

} // verus!
