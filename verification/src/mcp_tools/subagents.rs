//! Sub-agents: starting, listing and removing them, and their logs and scope.
use super::reply::{
    json_reply, limit_of, read_limit, read_text_or, reply_json, reply_text, require, required,
    text_or, text_reply,
};
use super::send::InternalBus;
use crate::agent::AgentState;
use crate::config::{agent_named, find_agent, ScopeType, UserConfig};
use crate::decimal::{decimal, show_u64};
use crate::json::{
    collect_text_entries, lists_texts, opt_text_model, pair_texts, text_entries_of,
    text_list_holds_its_texts, text_list_model, texts_among, Fields, Items, Json, JsonModel,
};
use crate::mcp_service::{agent_summary_model, build_agent_summary, is_child_of};
use crate::tasklog::last_n;
use crate::text::{
    cat, cat3, cat5, copy_all, debug_str, debug_text, index_of, index_of_bounds, index_of_is,
    join, join_spec, lines, lines_spec, opt_text, same, split, split_spec, texts,
};
use crate::message::lookup_steps;
use vstd::prelude::*;
use vstd::string::*;

verus! {

// ─── Starting ───────────────────────────────────────────────────────────────

/// A request to start a sub-agent.
#[derive(Debug, PartialEq)]
pub struct AddAgent {
    pub name: String,
    pub model: String,
    pub system_prompt: String,
    pub subscribe: Vec<String>,
    /// The scope as it was given.
    pub scope_text: String,
    pub scope: ScopeType,
    pub work_dir: String,
    pub env: Vec<(String, String)>,
    pub can_message: Option<Vec<String>>,
}

/// The subscriptions of a new sub-agent: those given, or the agent's own target.
pub open spec fn new_subscriptions(args: JsonModel, name: Seq<char>) -> Seq<Seq<char>> {
    match args.list_field("subscribe"@) {
        Some(items) => texts_among(items),
        None => seq!["agent:"@ + name],
    }
}

/// The environment of a new sub-agent: what is given, and nothing of the
/// parent's.
pub open spec fn new_environment(args: JsonModel) -> Seq<(Seq<char>, Seq<char>)> {
    match text_entries_of(args.at("env"@)) {
        Some(v) => v,
        None => Seq::empty(),
    }
}

/// The allow-list of a new sub-agent.
pub open spec fn new_allow_list(args: JsonModel) -> Option<Seq<Seq<char>>> {
    match args.list_field("can_message"@) {
        Some(items) => Some(texts_among(items)),
        None => None,
    }
}

/// The contents of an optional list of strings.
pub open spec fn opt_list(o: Option<Vec<String>>) -> Option<Seq<Seq<char>>> {
    match o {
        Some(v) => Some(texts(v@)),
        None => None,
    }
}

/// Whether `r` is the agent that the arguments ask for, or the complaint about them.
pub open spec fn asks_for_agent(
    args: JsonModel,
    parent_dir: Seq<char>,
    r: Result<AddAgent, String>,
) -> bool {
    match (required(args, "name"@), required(args, "model"@)) {
        (Err(e), _) => r matches Err(m) && m@ == e,
        (_, Err(e)) => r matches Err(m) && m@ == e,
        (Ok(name), Ok(model)) => match r {
            Err(_) => false,
            Ok(a) => {
                &&& a.name@ == name
                &&& a.model@ == model
                &&& a.system_prompt@ == text_or(args, "system_prompt"@, ""@)
                &&& texts(a.subscribe@) == new_subscriptions(args, name)
                &&& a.scope_text@ == text_or(args, "scope"@, "inherit"@)
                &&& a.scope == (if text_or(args, "scope"@, "inherit"@) == "narrow"@ {
                    ScopeType::Narrow
                } else {
                    ScopeType::Inherit
                })
                &&& a.work_dir@ == text_or(args, "work_dir"@, parent_dir)
                &&& pair_texts(a.env@) == new_environment(args)
                &&& opt_list(a.can_message) == new_allow_list(args)
            },
        },
    }
}

/// The sub-agent that the arguments describe. It works in the directory of its
/// parent where none is given.
pub fn call_add_persistent_agent(args: &Json, parent_work_dir: &str) -> (r: Result<
    AddAgent,
    String,
>)
    ensures
        asks_for_agent(args@, parent_work_dir@, r),
{
    let name = match require(args, "name") {
        Ok(t) => t,
        Err(e) => {
            return Err(e);
        },
    };
    let model = match require(args, "model") {
        Ok(t) => t,
        Err(e) => {
            return Err(e);
        },
    };
    let subscribe = match args.text_list_field("subscribe") {
        Some(v) => v,
        None => {
            let mut v: Vec<String> = Vec::new();
            v.push(cat("agent:", name));
            assert(texts(v@) =~= seq!["agent:"@ + name@]);
            v
        },
    };
    let scope_text = read_text_or(args, "scope", "inherit");
    let scope = if same(scope_text, "narrow") {
        ScopeType::Narrow
    } else {
        ScopeType::Inherit
    };
    let env = match collect_text_entries(args.get("env")) {
        Some(v) => v,
        None => {
            let v: Vec<(String, String)> = Vec::new();
            assert(pair_texts(v@) =~= Seq::<(Seq<char>, Seq<char>)>::empty());
            v
        },
    };
    Ok(
        AddAgent {
            name: String::from_str(name),
            model: String::from_str(model),
            system_prompt: String::from_str(read_text_or(args, "system_prompt", "")),
            subscribe,
            scope_text: String::from_str(scope_text),
            scope,
            work_dir: String::from_str(read_text_or(args, "work_dir", parent_work_dir)),
            env,
            can_message: args.text_list_field("can_message"),
        },
    )
}

/// Whether a path starts at the root.
pub open spec fn is_rooted(path: Seq<char>) -> bool {
    path.len() > 0 && path[0] == '/'
}

/// The components among the pieces of a path: empty pieces and `.` are passed
/// over, but for a `.` at the start of a path that does not start at the root.
pub open spec fn kept_pieces(pieces: Seq<Seq<char>>, rooted: bool) -> Seq<Seq<char>>
    decreases pieces.len(),
{
    if pieces.len() == 0 {
        Seq::empty()
    } else {
        let head = kept_pieces(pieces.drop_last(), rooted);
        let p = pieces.last();
        if p.len() == 0 || (p == "."@ && (rooted || pieces.len() > 1)) {
            head
        } else {
            head.push(p)
        }
    }
}

/// The components of a path.
pub open spec fn components(path: Seq<char>) -> Seq<Seq<char>> {
    kept_pieces(split_spec(path, '/'), is_rooted(path))
}

/// Whether a path lies in a directory, or is that directory.
pub open spec fn lies_within(path: Seq<char>, dir: Seq<char>) -> bool {
    &&& is_rooted(path) == is_rooted(dir)
    &&& components(dir).len() <= components(path).len()
    &&& components(path).take(components(dir).len() as int) == components(dir)
}

fn path_components(path: &str, rooted: bool) -> (r: Vec<String>)
    requires
        rooted == is_rooted(path@),
    ensures
        texts(r@) == components(path@),
{
    let pieces = split(path, '/');
    let ghost all = texts(pieces@);
    let mut out: Vec<String> = Vec::new();
    let mut i: usize = 0;
    assert(texts(out@) =~= kept_pieces(all.take(0), rooted));
    while i < pieces.len()
        invariant
            i <= pieces@.len(),
            all == texts(pieces@),
            texts(out@) == kept_pieces(all.take(i as int), rooted),
        decreases pieces@.len() - i,
    {
        let ghost before = texts(out@);
        assert(all.take(i + 1).drop_last() =~= all.take(i as int));
        assert(all.take(i + 1).last() == pieces@[i as int]@);
        let p = &pieces[i];
        if !(p.as_str().is_empty() || (same(p, ".") && (rooted || i > 0))) {
            out.push(p.clone());
            assert(texts(out@) =~= before.push(p@));
        }
        i += 1;
    }
    assert(all.take(i as int) =~= all);
    out
}

/// Whether a path lies in a directory, or is that directory.
pub fn is_within(path: &str, dir: &str) -> (r: bool)
    ensures
        r == lies_within(path@, dir@),
{
    let path_rooted: bool = path.unicode_len() > 0 && path.get_char(0) == '/';
    let dir_rooted: bool = dir.unicode_len() > 0 && dir.get_char(0) == '/';
    if path_rooted != dir_rooted {
        return false;
    }
    let a = path_components(path, path_rooted);
    let b = path_components(dir, dir_rooted);
    let ghost x = texts(a@);
    let ghost y = texts(b@);
    if b.len() > a.len() {
        return false;
    }
    let mut i: usize = 0;
    while i < b.len()
        invariant
            i <= b@.len() <= a@.len(),
            x == texts(a@),
            y == texts(b@),
            x == components(path@),
            y == components(dir@),
            forall|j: int| 0 <= j < i ==> #[trigger] x[j] == y[j],
        decreases b@.len() - i,
    {
        assert(x[i as int] == a@[i as int]@ && y[i as int] == b@[i as int]@);
        if !same(&a[i], &b[i]) {
            assert(x.take(y.len() as int)[i as int] == x[i as int]);
            assert(x[i as int] != y[i as int]);
            assert(x == components(path@) && y == components(dir@));
            return false;
        }
        i += 1;
    }
    assert(x.take(y.len() as int) =~= y);
    true
}

/// A directory lies within itself.
pub proof fn directory_lies_within_itself(dir: Seq<char>)
    ensures
        lies_within(dir, dir),
{
    assert(components(dir).take(components(dir).len() as int) =~= components(dir));
}

/// To lie within is transitive: what lies within a directory of the scope lies
/// within the scope.
pub proof fn lies_within_is_transitive(a: Seq<char>, b: Seq<char>, c: Seq<char>)
    requires
        lies_within(a, b),
        lies_within(b, c),
    ensures
        lies_within(a, c),
{
    let x = components(a);
    let y = components(b);
    let z = components(c);
    assert(x.take(z.len() as int) =~= y.take(z.len() as int)) by {
        assert forall|i: int| 0 <= i < z.len() implies x[i] == y[i] by {
            assert(x.take(y.len() as int)[i] == y[i]);
        }
    }
}

/// A sub-agent that may start: the directory in which it is to work lies within
/// that of its parent. Only a check yields one.
pub struct ScopedAgent {
    request: AddAgent,
    resolved: String,
    resolved_parent: String,
}

impl ScopedAgent {
    #[verifier::type_invariant]
    spec fn wf(self) -> bool {
        lies_within(self.resolved@, self.resolved_parent@)
    }

    /// The request that passed the check.
    pub closed spec fn asked(&self) -> AddAgent {
        self.request
    }

    /// Whether the directory of the sub-agent is `dir` and that of its parent
    /// `parent`, both with links resolved.
    pub closed spec fn works_in(&self, dir: Seq<char>, parent: Seq<char>) -> bool {
        self.resolved@ == dir && self.resolved_parent@ == parent
    }

    /// Whether the sub-agent works within the directory of its parent.
    pub open spec fn in_scope(&self) -> bool {
        exists|dir: Seq<char>, parent: Seq<char>| #[trigger]
            self.works_in(dir, parent) && lies_within(dir, parent)
    }

    /// The request. The sub-agent works within the directory of its parent.
    pub fn request(&self) -> (r: &AddAgent)
        ensures
            *r == self.asked(),
            self.in_scope(),
    {
        proof {
            use_type_invariant(self);
            assert(self.works_in(self.resolved@, self.resolved_parent@));
        }
        &self.request
    }
}

/// The check whether a sub-agent may work where it is to: within the directory of
/// its parent. The two directories are given with links resolved.
pub fn check_scope(
    a: AddAgent,
    parent_work_dir: &str,
    resolved: &str,
    resolved_parent: &str,
) -> (r: Result<ScopedAgent, String>)
    ensures
        if lies_within(resolved@, resolved_parent@) {
            r matches Ok(s) && s.asked() == a && s.works_in(resolved@, resolved_parent@)
        } else {
            r matches Err(e) && e@ == "work_dir '"@ + a.work_dir@ + "' is outside parent scope '"@
                + parent_work_dir@ + "'"@
        },
{
    if is_within(resolved, resolved_parent) {
        Ok(
            ScopedAgent {
                request: a,
                resolved: String::from_str(resolved),
                resolved_parent: String::from_str(resolved_parent),
            },
        )
    } else {
        Err(
            cat5("work_dir '", &a.work_dir, "' is outside parent scope '", parent_work_dir, "'"),
        )
    }
}

/// The arguments that create an agent.
pub open spec fn creation(a: AddAgent) -> Seq<Seq<char>> {
    seq![
        "agent"@,
        "create"@,
        a.name@,
        "--model"@,
        a.model@,
        "--prompt"@,
        a.system_prompt@,
        "--workdir"@,
        a.work_dir@,
    ]
}

/// The arguments of the command that creates the state of a sub-agent.
pub fn create_args(s: &ScopedAgent) -> (r: Vec<String>)
    ensures
        s.in_scope(),
        texts(r@) == creation(s.asked()),
{
    let a = s.request();
    let mut v: Vec<String> = Vec::new();
    v.push(String::from_str("agent"));
    v.push(String::from_str("create"));
    v.push(a.name.clone());
    v.push(String::from_str("--model"));
    v.push(a.model.clone());
    v.push(String::from_str("--prompt"));
    v.push(a.system_prompt.clone());
    v.push(String::from_str("--workdir"));
    v.push(a.work_dir.clone());
    assert(texts(v@) =~= seq![
        "agent"@,
        "create"@,
        a.name@,
        "--model"@,
        a.model@,
        "--prompt"@,
        a.system_prompt@,
        "--workdir"@,
        a.work_dir@,
    ]);
    v
}

/// A flag before each of the first `n` values.
pub open spec fn flagged(values: Seq<Seq<char>>, flag: Seq<char>, n: int) -> Seq<Seq<char>>
    decreases n,
{
    if n <= 0 {
        Seq::empty()
    } else {
        flagged(values, flag, n - 1).push(flag).push(values[n - 1])
    }
}

/// The arguments that run an agent on a bus.
pub open spec fn running(a: AddAgent, bus_socket: Seq<char>) -> Seq<Seq<char>> {
    seq!["agent"@, "run"@, a.name@, "--socket"@, bus_socket] + flagged(
        texts(a.subscribe@),
        "--subscribe"@,
        a.subscribe@.len() as int,
    )
}

/// The arguments of the command that runs a sub-agent.
pub fn run_args(s: &ScopedAgent, bus_socket: &str) -> (r: Vec<String>)
    ensures
        s.in_scope(),
        texts(r@) == running(s.asked(), bus_socket@),
{
    let a = s.request();
    let mut v: Vec<String> = Vec::new();
    v.push(String::from_str("agent"));
    v.push(String::from_str("run"));
    v.push(a.name.clone());
    v.push(String::from_str("--socket"));
    v.push(String::from_str(bus_socket));
    let ghost head = seq!["agent"@, "run"@, a.name@, "--socket"@, bus_socket@];
    let ghost subs = texts(a.subscribe@);
    let mut i: usize = 0;
    assert(texts(v@) =~= head + flagged(subs, "--subscribe"@, 0));
    while i < a.subscribe.len()
        invariant
            i <= a.subscribe@.len(),
            subs == texts(a.subscribe@),
            texts(v@) == head + flagged(subs, "--subscribe"@, i as int),
        decreases a.subscribe@.len() - i,
    {
        let ghost before = texts(v@);
        v.push(String::from_str("--subscribe"));
        v.push(a.subscribe[i].clone());
        assert(texts(v@) =~= before.push("--subscribe"@).push(subs[i as int]));
        i += 1;
        assert(texts(v@) =~= head + flagged(subs, "--subscribe"@, i as int));
    }
    v
}

/// The names of the first `n` variables.
pub open spec fn env_names(env: Seq<(String, String)>, n: int) -> Seq<Seq<char>> {
    Seq::new(n as nat, |i: int| env[i].0@)
}

/// Notes in the state of a new sub-agent who started it and what it may do.
pub fn adopt(state: &mut AgentState, a: &AddAgent, parent: &str)
    ensures
        opt_text(final(state).parent) == Some(parent@),
        opt_text(final(state).scope) == Some(a.scope_text@),
        opt_list(final(state).can_message) == (match a.can_message {
            Some(v) => Some(texts(v@)),
            None => opt_list(old(state).can_message),
        }),
        opt_list(final(state).env_keys) == (if a.env@.len() > 0 {
            Some(env_names(a.env@, a.env@.len() as int))
        } else {
            opt_list(old(state).env_keys)
        }),
        final(state).name == old(state).name,
        final(state).model == old(state).model,
        final(state).system_prompt == old(state).system_prompt,
        final(state).max_turns == old(state).max_turns,
        final(state).work_dir == old(state).work_dir,
        final(state).unix_user == old(state).unix_user,
        final(state).config_path == old(state).config_path,
        final(state).status == old(state).status,
        final(state).current_task == old(state).current_task,
        final(state).session_id == old(state).session_id,
        final(state).created_at == old(state).created_at,
        final(state).pid == old(state).pid,
        final(state).total_turns == old(state).total_turns,
        final(state).total_cost == old(state).total_cost,
        final(state).budget_usd == old(state).budget_usd,
{
    state.parent = Some(String::from_str(parent));
    state.scope = Some(a.scope_text.clone());
    match &a.can_message {
        Some(v) => {
            state.can_message = Some(copy_all(v));
        },
        None => {},
    }
    if a.env.len() > 0 {
        let mut keys: Vec<String> = Vec::new();
        let mut i: usize = 0;
        while i < a.env.len()
            invariant
                i <= a.env@.len(),
                texts(keys@) == env_names(a.env@, i as int),
            decreases a.env@.len() - i,
        {
            let ghost before = texts(keys@);
            keys.push(a.env[i].0.clone());
            assert(texts(keys@) =~= before.push(a.env@[i as int].0@));
            i += 1;
            assert(texts(keys@) =~= env_names(a.env@, i as int));
        }
        state.env_keys = Some(keys);
    }
}

/// How long to wait until a new sub-agent is on the bus, in milliseconds.
pub const REGISTER_TIMEOUT_MS: u64 = 30_000;

/// A step in the wait for a new sub-agent.
#[derive(Debug, Clone, Copy, PartialEq, Eq)]
pub enum PollStep {
    Registered,
    TimedOut,
    Wait,
}

/// Whether `r` is the next step while an agent comes up.
pub open spec fn polls(
    on_bus: bool,
    waited_ms: u64,
    r: PollStep,
) -> bool {
    r == (if waited_ms >= REGISTER_TIMEOUT_MS {
        PollStep::TimedOut
    } else if on_bus {
        PollStep::Registered
    } else {
        PollStep::Wait
    })
}

/// The next step in the wait for a new sub-agent, `waited_ms` after its start.
pub fn poll_registration(on_bus: bool, waited_ms: u64) -> (r: PollStep)
    ensures
        polls(on_bus, waited_ms, r),
{
    if waited_ms >= REGISTER_TIMEOUT_MS {
        PollStep::TimedOut
    } else if on_bus {
        PollStep::Registered
    } else {
        PollStep::Wait
    }
}

/// The reply that a sub-agent was started, and its place on the internal bus.
pub fn finish_add_agent(s: &ScopedAgent, bus: &mut InternalBus) -> (r: Json)
    ensures
        s.in_scope(),
        r@ == text_reply(
            "Agent '"@ + s.asked().name@ + "' started on internal bus "@ + old(bus).socket_path@
                + ". Subscriptions: "@ + join_spec(texts(s.asked().subscribe@), ", "@),
        ),
        final(bus).sub_agents@ == old(bus).sub_agents@.insert(s.asked().name@),
        final(bus).socket_path == old(bus).socket_path,
{
    let a = s.request();
    let _ = bus.sub_agents.insert(&a.name);
    let mut text = cat5(
        "Agent '",
        &a.name,
        "' started on internal bus ",
        &bus.socket_path,
        ". Subscriptions: ",
    );
    let list = join(&a.subscribe, ", ");
    text.append(&list);
    reply_text(&text)
}

// ─── Listing ────────────────────────────────────────────────────────────────

/// A sub-agent on the internal bus. Its state is known where it could be loaded.
#[derive(Debug, PartialEq)]
pub struct ListedAgent {
    pub name: String,
    pub is_finished: bool,
    pub state: Option<AgentState>,
}

/// The state of a listed agent.
pub open spec fn listed_state(a: ListedAgent) -> Option<&'static AgentState> {
    match a.state {
        Some(s) => Some(&s),
        None => None,
    }
}

/// Whether a caller sees a sub-agent: it does unless another agent started it.
pub open spec fn visible_to(a: ListedAgent, caller: Seq<char>) -> bool {
    match a.state {
        Some(s) => match s.parent {
            Some(p) => p@ == caller,
            None => true,
        },
        None => true,
    }
}

/// The summaries of the sub-agents that a caller sees, in order.
pub open spec fn seen_agents(agents: Seq<ListedAgent>, caller: Seq<char>) -> Seq<JsonModel>
    decreases agents.len(),
{
    if agents.len() == 0 {
        Seq::empty()
    } else {
        let head = seen_agents(agents.drop_last(), caller);
        let a = agents.last();
        if visible_to(a, caller) {
            head.push(agent_summary_model(a.name@, a.is_finished, listed_state(a)))
        } else {
            head
        }
    }
}

/// The reply with the sub-agents that a caller sees.
pub fn call_list_agents(agents: &Vec<ListedAgent>, caller: &str) -> (r: Json)
    ensures
        r@ == json_reply(JsonModel::List(seen_agents(agents@, caller@))),
{
    let mut out = Items::new();
    let mut i: usize = 0;
    assert(out@ =~= seen_agents(agents@.take(0), caller@));
    while i < agents.len()
        invariant
            i <= agents@.len(),
            out@ == seen_agents(agents@.take(i as int), caller@),
        decreases agents@.len() - i,
    {
        assert(agents@.take(i + 1).drop_last() =~= agents@.take(i as int));
        assert(agents@.take(i + 1).last() == agents@[i as int]);
        let a = &agents[i];
        let visible: bool = match &a.state {
            Some(s) => match &s.parent {
                Some(p) => same(p, caller),
                None => true,
            },
            None => true,
        };
        if visible {
            let state: Option<&AgentState> = match &a.state {
                Some(s) => Some(s),
                None => None,
            };
            out.put(build_agent_summary(&a.name, a.is_finished, state));
        }
        i += 1;
    }
    assert(agents@.take(i as int) =~= agents@);
    reply_json(&out.list())
}

// ─── Removing ───────────────────────────────────────────────────────────────

/// The sub-agent to remove.
pub fn call_remove_agent(args: &Json) -> (r: Result<String, String>)
    ensures
        match required(args@, "name"@) {
            Err(e) => r matches Err(m) && m@ == e,
            Ok(name) => r matches Ok(t) && t@ == name,
        },
{
    match require(args, "name") {
        Ok(t) => Ok(String::from_str(t)),
        Err(e) => Err(e),
    }
}

/// The reply that a sub-agent was removed; it is no longer on the internal bus.
pub fn finish_remove_agent(name: &str, bus: &mut InternalBus) -> (r: Json)
    ensures
        r@ == text_reply("Agent '"@ + name@ + "' removed"@),
        final(bus).sub_agents@ == old(bus).sub_agents@.remove(name@),
        final(bus).socket_path == old(bus).socket_path,
{
    let _ = bus.sub_agents.remove(name);
    reply_text(&cat3("Agent '", name, "' removed"))
}

// ─── Logs ───────────────────────────────────────────────────────────────────

/// Which log of an agent.
#[derive(Debug, Clone, Copy, PartialEq, Eq)]
pub enum LogSource {
    Stderr,
    Stream,
}

impl LogSource {
    /// The name of the log.
    pub open spec fn name(self) -> Seq<char> {
        match self {
            LogSource::Stderr => "stderr"@,
            LogSource::Stream => "stream"@,
        }
    }

    /// The name of the log.
    pub fn as_str(self) -> (r: &'static str)
        ensures
            r@ == self.name(),
    {
        match self {
            LogSource::Stderr => "stderr",
            LogSource::Stream => "stream",
        }
    }
}

/// A request for the end of a log.
#[derive(Debug, PartialEq)]
pub struct LogRequest {
    pub name: String,
    pub tail: u64,
    pub source: LogSource,
}

/// The complaint about the arguments of a request for a log.
pub open spec fn log_args_error(args: JsonModel) -> Option<Seq<char>> {
    let tail = limit_of(args, "tail"@, 100);
    let source = text_or(args, "source"@, "stderr"@);
    if args.text_field("name"@) is None {
        Some("agent_logs: missing required 'name'"@)
    } else if tail == 0 || tail > 1000 {
        Some("agent_logs: 'tail' must be in 1..=1000 (got "@ + decimal(tail as nat) + ")"@)
    } else if source != "stderr"@ && source != "stream"@ {
        Some(
            "agent_logs: 'source' must be 'stderr' or 'stream' (got "@ + debug_text(source) + ")"@,
        )
    } else {
        None
    }
}

/// Whether `r` is the request for logs that the arguments make, or the complaint.
pub open spec fn asks_for_logs(
    args: JsonModel,
    r: Result<LogRequest, String>,
) -> bool {
    match r {
        Err(e) => log_args_error(args) == Some(e@),
        Ok(q) => log_args_error(args) is None && args.text_field("name"@) == Some(q.name@)
            && q.tail == limit_of(args, "tail"@, 100) && q.source.name() == text_or(
            args,
            "source"@,
            "stderr"@,
        ),
    }
}

/// The request for the end of a log that the arguments make.
pub fn read_log_request(args: &Json) -> (r: Result<LogRequest, String>)
    ensures
        asks_for_logs(args@, r),
{
    let name = match args.text_field("name") {
        Some(t) => t,
        None => {
            return Err(String::from_str("agent_logs: missing required 'name'"));
        },
    };
    let tail: u64 = read_limit(args, "tail", 100);
    if tail == 0 || tail > 1000 {
        return Err(
            cat3("agent_logs: 'tail' must be in 1..=1000 (got ", &show_u64(tail), ")"),
        );
    }
    let source = read_text_or(args, "source", "stderr");
    let source = if same(source, "stderr") {
        LogSource::Stderr
    } else if same(source, "stream") {
        LogSource::Stream
    } else {
        return Err(
            cat3(
                "agent_logs: 'source' must be 'stderr' or 'stream' (got ",
                &debug_str(source),
                ")",
            ),
        );
    };
    Ok(LogRequest { name: String::from_str(name), tail, source })
}

/// Whether `r` says that the caller may see the logs of an agent.
pub open spec fn may_see_logs(
    name: Seq<char>,
    caller: Seq<char>,
    state: Option<&AgentState>,
    r: Result<(), String>,
) -> bool {
    if name == caller {
        r is Ok
    } else {
        match state {
            None => r matches Err(e) && e@ == "agent '"@ + name + "' not found"@,
            Some(s) => if is_child_of(*s, caller) {
                r is Ok
            } else {
                r matches Err(e) && e@ == "agent '"@ + name + "' is not a sub-agent of '"@
                    + caller + "' — log access denied"@
            },
        }
    }
}

/// Whether a caller may read the log of an agent: its own, or that of a
/// sub-agent of its own.
pub fn check_log_access(name: &str, caller: &str, state: Option<&AgentState>) -> (r: Result<
    (),
    String,
>)
    ensures
        may_see_logs(name@, caller@, state, r),
{
    if same(name, caller) {
        return Ok(());
    }
    let s = match state {
        Some(s) => s,
        None => {
            return Err(cat3("agent '", name, "' not found"));
        },
    };
    let child: bool = match &s.parent {
        Some(p) => same(p, caller),
        None => false,
    };
    if child {
        Ok(())
    } else {
        Err(
            cat5(
                "agent '",
                name,
                "' is not a sub-agent of '",
                caller,
                "' — log access denied",
            ),
        )
    }
}

/// The reply with the end of a log: its last lines, or that it does not exist.
pub open spec fn log_model(
    name: Seq<char>,
    source: Seq<char>,
    path: Seq<char>,
    content: Option<Seq<char>>,
    tail: nat,
) -> JsonModel {
    let head = seq![
        ("name"@, JsonModel::Text(name)),
        ("source"@, JsonModel::Text(source)),
        ("path"@, JsonModel::Text(path)),
    ];
    JsonModel::Object(
        match content {
            None => head + seq![
                ("exists"@, JsonModel::Bool(false)),
                ("lines"@, JsonModel::List(Seq::empty())),
            ],
            Some(text) => {
                let all = lines_spec(text);
                let shown = last_n(all, tail);
                head + seq![
                    ("exists"@, JsonModel::Bool(true)),
                    ("total_lines"@, JsonModel::Number(all.len() as int)),
                    ("returned_lines"@, JsonModel::Number(shown.len() as int)),
                    ("lines"@, text_list_model(shown)),
                ]
            },
        },
    )
}

/// The last `n` of a list of lines.
pub(crate) fn tail_lines(all: &Vec<String>, n: u64) -> (r: Vec<String>)
    ensures
        texts(r@) == last_n(texts(all@), n as nat),
{
    let len: usize = all.len();
    let start: usize = if (len as u64) > n {
        len - (n as usize)
    } else {
        0
    };
    let ghost t = texts(all@);
    let mut out: Vec<String> = Vec::new();
    let mut i: usize = start;
    assert(texts(out@) =~= t.subrange(start as int, start as int));
    while i < len
        invariant
            start <= i <= len,
            len == all@.len(),
            t == texts(all@),
            texts(out@) == t.subrange(start as int, i as int),
        decreases len - i,
    {
        let ghost before = texts(out@);
        out.push(all[i].clone());
        assert(texts(out@) =~= before.push(t[i as int]));
        assert(texts(out@) =~= t.subrange(start as int, i + 1));
        i += 1;
    }
    assert(texts(out@) =~= last_n(t, n as nat));
    out
}

/// The reply with the end of a log. `content` is what the file holds, where it
/// exists.
pub fn call_agent_logs(q: &LogRequest, path: &str, content: Option<&str>) -> (r: Json)
    ensures
        r@ == json_reply(
            log_model(
                q.name@,
                q.source.name(),
                path@,
                crate::text::opt_str(content),
                q.tail as nat,
            ),
        ),
{
    let ghost expected = log_model(
        q.name@,
        q.source.name(),
        path@,
        crate::text::opt_str(content),
        q.tail as nat,
    );
    let mut f = Fields::new();
    f.put_text("name", &q.name);
    f.put_text("source", q.source.as_str());
    f.put_text("path", path);
    match content {
        None => {
            f.put("exists", Json::Bool(false));
            f.put("lines", Items::new().list());
        },
        Some(text) => {
            let all = lines(text);
            let shown = tail_lines(&all, q.tail);
            f.put("exists", Json::Bool(true));
            f.put("total_lines", Json::uint(all.len() as u64));
            f.put("returned_lines", Json::uint(shown.len() as u64));
            f.put("lines", Json::texts(&shown));
        },
    }
    assert(f@ =~= expected->Object_0);
    reply_json(&f.object())
}

// ─── Scope ──────────────────────────────────────────────────────────────────

/// What is known of the scope of an agent.
pub struct ScopeFacts<'a> {
    pub agent_name: &'a str,
    pub state: Option<&'a AgentState>,
    pub user_config: Option<&'a UserConfig>,
    /// The current directory.
    pub current_dir: &'a str,
    /// The sub-agents of the agent.
    pub children: &'a Vec<String>,
}

/// An optional list of texts, or null.
pub open spec fn opt_list_model(o: Option<Seq<Seq<char>>>) -> JsonModel {
    match o {
        Some(v) => text_list_model(v),
        None => JsonModel::Null,
    }
}

/// The scope of an agent: what its state says, and what its configuration says
/// where the state says nothing.
pub open spec fn scope_model(s: ScopeFacts) -> JsonModel {
    let def = match s.user_config {
        Some(c) => agent_named(c.agents@, s.agent_name@),
        None => None,
    };
    let allowed = match s.state {
        Some(st) => opt_list(st.can_message),
        None => None,
    };
    let from_config = match def {
        Some(d) => opt_list(d.can_message),
        None => None,
    };
    JsonModel::Object(
        seq![
            ("agent"@, JsonModel::Text(s.agent_name@)),
            (
                "scope"@,
                JsonModel::Text(
                    match s.state {
                        Some(st) => match st.scope {
                            Some(t) => t@,
                            None => "inherit"@,
                        },
                        None => "inherit"@,
                    },
                ),
            ),
            (
                "parent"@,
                match s.state {
                    Some(st) => opt_text_model(opt_text(st.parent)),
                    None => JsonModel::Null,
                },
            ),
            (
                "work_dir"@,
                JsonModel::Text(
                    match s.state {
                        Some(st) => st.work_dir@,
                        None => s.current_dir@,
                    },
                ),
            ),
            (
                "can_message"@,
                opt_list_model(
                    if allowed is Some {
                        allowed
                    } else {
                        from_config
                    },
                ),
            ),
            (
                "bus_topics"@,
                text_list_model(
                    match def {
                        Some(d) => texts(d.subscribe@),
                        None => Seq::empty(),
                    },
                ),
            ),
            (
                "env_keys"@,
                text_list_model(
                    match s.state {
                        Some(st) => match st.env_keys {
                            Some(v) => texts(v@),
                            None => Seq::empty(),
                        },
                        None => Seq::empty(),
                    },
                ),
            ),
            ("children"@, text_list_model(texts(s.children@))),
        ],
    )
}

fn opt_list_json(o: &Option<Vec<String>>) -> (r: Json)
    ensures
        r@ == opt_list_model(opt_list(*o)),
{
    match o {
        Some(v) => Json::texts(v),
        None => Json::Null,
    }
}

fn no_texts() -> (r: Json)
    ensures
        r@ == text_list_model(Seq::<Seq<char>>::empty()),
{
    let v: Vec<String> = Vec::new();
    assert(texts(v@) =~= Seq::<Seq<char>>::empty());
    Json::texts(&v)
}

/// The reply with the scope of an agent.
pub fn call_get_scope(s: &ScopeFacts) -> (r: Json)
    ensures
        r@ == json_reply(scope_model(*s)),
{
    let def = match s.user_config {
        Some(c) => find_agent(&c.agents, s.agent_name),
        None => None,
    };
    let mut f = Fields::new();
    f.put_text("agent", s.agent_name);
    match s.state {
        Some(st) => {
            match &st.scope {
                Some(t) => {
                    f.put_text("scope", t);
                },
                None => {
                    f.put_text("scope", "inherit");
                },
            }
            f.put("parent", Json::opt_text(&st.parent));
            f.put_text("work_dir", &st.work_dir);
        },
        None => {
            f.put_text("scope", "inherit");
            f.put("parent", Json::Null);
            f.put_text("work_dir", s.current_dir);
        },
    }
    let from_state: bool = match s.state {
        Some(st) => st.can_message.is_some(),
        None => false,
    };
    let allowed: Json = match (from_state, s.state, def) {
        (true, Some(st), _) => opt_list_json(&st.can_message),
        (_, _, Some(d)) => opt_list_json(&d.can_message),
        _ => Json::Null,
    };
    f.put("can_message", allowed);
    f.put(
        "bus_topics",
        match def {
            Some(d) => Json::texts(&d.subscribe),
            None => no_texts(),
        },
    );
    f.put(
        "env_keys",
        match s.state {
            Some(st) => match &st.env_keys {
                Some(v) => Json::texts(v),
                None => no_texts(),
            },
            None => no_texts(),
        },
    );
    f.put("children", Json::texts(s.children));
    assert(f@ =~= scope_model(*s)->Object_0);
    reply_json(&f.object())
}

// ─── What sub-agents are for ────────────────────────────────────────────────

proof fn index_in_concat(a: Seq<char>, c: char, b: Seq<char>)
    requires
        index_of(a, c) < a.len(),
    ensures
        index_of(a + b, c) == index_of(a, c),
{
    index_of_bounds(a, c);
    let i = index_of(a, c) as int;
    let s = a + b;
    assert forall|j: int| 0 <= j < i implies s[j] != c by {
        assert(s[j] == a[j]);
    }
    assert(s[i] == a[i]);
    index_of_is(s, c, i);
}

/// A path in two parts has the pieces of both.
pub proof fn parts_split_apart(a: Seq<char>, b: Seq<char>, c: char)
    ensures
        split_spec(a.push(c) + b, c) == split_spec(a, c) + split_spec(b, c),
    decreases a.len(),
{
    let s = a.push(c) + b;
    index_of_bounds(a, c);
    let i = index_of(a, c) as int;
    if i < a.len() {
        index_in_concat(a, c, seq![c] + b);
        assert(a + (seq![c] + b) =~= s);
        let rest = a.skip(i + 1);
        parts_split_apart(rest, b, c);
        assert(s.skip(i + 1) =~= rest.push(c) + b);
        assert(s.take(i) =~= a.take(i));
        assert(split_spec(s, c) =~= seq![a.take(i)] + split_spec(rest.push(c) + b, c));
        assert(split_spec(a, c) =~= seq![a.take(i)] + split_spec(rest, c));
        assert(split_spec(s, c) =~= split_spec(a, c) + split_spec(b, c));
    } else {
        assert forall|j: int| 0 <= j < a.len() implies s[j] != c by {
            assert(s[j] == a[j]);
        }
        assert(s[a.len() as int] == c);
        index_of_is(s, c, a.len() as int);
        assert(s.take(a.len() as int) =~= a);
        assert(s.skip(a.len() as int + 1) =~= b);
        assert(split_spec(a, c) =~= seq![a]);
        assert(split_spec(s, c) =~= split_spec(a, c) + split_spec(b, c));
    }
}

proof fn kept_pieces_stay(p: Seq<Seq<char>>, q: Seq<Seq<char>>, rooted: bool)
    ensures
        kept_pieces(p, rooted).len() <= kept_pieces(p + q, rooted).len(),
        kept_pieces(p + q, rooted).take(kept_pieces(p, rooted).len() as int) == kept_pieces(
            p,
            rooted,
        ),
    decreases q.len(),
{
    let a = kept_pieces(p, rooted);
    if q.len() == 0 {
        assert(p + q =~= p);
        assert(a.take(a.len() as int) =~= a);
    } else {
        kept_pieces_stay(p, q.drop_last(), rooted);
        assert((p + q).drop_last() =~= p + q.drop_last());
        let b = kept_pieces(p + q.drop_last(), rooted);
        let c = kept_pieces(p + q, rooted);
        assert(c.take(a.len() as int) =~= b.take(a.len() as int));
    }
}

/// What lies below a directory lies within it.
pub proof fn paths_below_lie_within(dir: Seq<char>, rest: Seq<char>)
    requires
        dir.len() > 0,
    ensures
        lies_within(dir.push('/') + rest, dir),
{
    let path = dir.push('/') + rest;
    parts_split_apart(dir, rest, '/');
    assert(path[0] == dir[0]);
    kept_pieces_stay(split_spec(dir, '/'), split_spec(rest, '/'), is_rooted(dir));
}

/// Two different entries of a directory do not lie within each other, even where the name
/// of the one begins with that of the other; nor does a directory lie within one of its
/// entries.
pub proof fn neighbours_lie_apart(a: Seq<char>, b: Seq<char>)
    requires
        a != b,
        a.len() > 0 && b.len() > 0,
        !a.contains('/') && !b.contains('/'),
        a != "."@ && b != "."@,
    ensures
        !lies_within("/"@ + a, "/"@ + b),
        !lies_within("/"@, "/"@ + a),
        lies_within("/"@ + a, "/"@),
{
    entry_has_one_component(a);
    entry_has_one_component(b);
    reveal_strlit("/");
    reveal_strlit(".");
    let root = "/"@;
    assert(root =~= Seq::<char>::empty().push('/') + Seq::<char>::empty());
    parts_split_apart(Seq::empty(), Seq::empty(), '/');
    index_of_is(Seq::<char>::empty(), '/', 0);
    assert(split_spec(Seq::<char>::empty(), '/') =~= seq![Seq::<char>::empty()]);
    let e = Seq::<char>::empty();
    assert(split_spec(root, '/') =~= seq![e, e]);
    assert(seq![e, e].drop_last() =~= seq![e]);
    assert(seq![e].drop_last() =~= Seq::<Seq<char>>::empty());
    assert(kept_pieces(Seq::<Seq<char>>::empty(), true) =~= Seq::<Seq<char>>::empty());
    assert(seq![e].last() == e);
    assert(kept_pieces(seq![e], true) =~= Seq::<Seq<char>>::empty());
    assert(components(root) =~= Seq::<Seq<char>>::empty());
    assert(components("/"@ + a).take(0) =~= components(root));
    assert(components("/"@ + a).take(1) =~= components("/"@ + a));
    assert(components("/"@ + a)[0] != components("/"@ + b)[0]);
}

proof fn entry_has_one_component(a: Seq<char>)
    requires
        a.len() > 0,
        !a.contains('/'),
        a != "."@,
    ensures
        components("/"@ + a) == seq![a],
        is_rooted("/"@ + a),
{
    reveal_strlit("/");
    let e = Seq::<char>::empty();
    let path = "/"@ + a;
    assert(path =~= e.push('/') + a);
    parts_split_apart(e, a, '/');
    index_of_is(e, '/', 0);
    assert forall|j: int| 0 <= j < a.len() implies a[j] != '/' by {
        assert(a.contains(a[j]));
    }
    index_of_is(a, '/', a.len() as int);
    assert(split_spec(e, '/') =~= seq![e]);
    assert(split_spec(a, '/') =~= seq![a]);
    assert(split_spec(path, '/') =~= seq![e, a]);
    assert(seq![e, a].drop_last() =~= seq![e]);
    assert(seq![e].drop_last() =~= Seq::<Seq<char>>::empty());
    assert(kept_pieces(Seq::<Seq<char>>::empty(), true) =~= Seq::<Seq<char>>::empty());
    assert(seq![e].last() == e);
    assert(kept_pieces(seq![e], true) =~= Seq::<Seq<char>>::empty());
    assert(components(path) =~= seq![a]);
}

/// An agent is asked for by its name and its model. It works in the directory of its parent
/// and listens to its own name, unless the arguments say otherwise.
pub proof fn new_agent_is_as_asked(
    args: JsonModel,
    parent_dir: Seq<char>,
    r: Result<AddAgent, String>,
)
    requires
        asks_for_agent(args, parent_dir, r),
    ensures
        r is Ok <==> args.text_field("name"@) is Some && args.text_field("model"@) is Some,
        r matches Ok(a) ==> Some(a.name@) == args.text_field("name"@) && Some(a.model@)
            == args.text_field("model"@) && (args.text_field("work_dir"@) is None ==> a.work_dir@
            == parent_dir) && (args.text_field("work_dir"@) matches Some(d) ==> a.work_dir@ == d)
            && (args.list_field("subscribe"@) is None ==> texts(a.subscribe@) == seq!["agent:"@
            + a.name@]) && (a.scope == ScopeType::Narrow <==> args.text_field("scope"@) == Some(
            "narrow"@,
        )) && (args.text_field("system_prompt"@) matches Some(p) ==> a.system_prompt@ == p) && (
        a.can_message is Some <==> args.list_field("can_message"@) is Some),
{
    reveal_strlit("narrow");
    reveal_strlit("inherit");
    assert("narrow"@.len() == 6 && "inherit"@.len() == 7);
}

/// The program that creates an agent gets its name, and its model, its prompt and its
/// directory behind their flags; the one that runs it gets the bus, and each subscription
/// behind its flag.
pub proof fn programs_get_what_was_asked(a: AddAgent, socket: Seq<char>, i: int)
    requires
        0 <= i < a.subscribe@.len(),
    ensures
        creation(a)[2] == a.name@,
        follows_flag(creation(a), "--model"@, a.model@),
        follows_flag(creation(a), "--prompt"@, a.system_prompt@),
        follows_flag(creation(a), "--workdir"@, a.work_dir@),
        running(a, socket)[2] == a.name@,
        follows_flag(running(a, socket), "--socket"@, socket),
        follows_flag(running(a, socket), "--subscribe"@, a.subscribe@[i]@),
        running(a, socket).len() == 5 + 2 * a.subscribe@.len(),
{
    let c = creation(a);
    assert(c[3] == "--model"@ && c[4] == a.model@);
    assert(c[5] == "--prompt"@ && c[6] == a.system_prompt@);
    assert(c[7] == "--workdir"@ && c[8] == a.work_dir@);
    let v = running(a, socket);
    let values = texts(a.subscribe@);
    flags_precede_values(values, "--subscribe"@, values.len() as int, i);
    let f = flagged(values, "--subscribe"@, values.len() as int);
    assert(v[3] == "--socket"@ && v[4] == socket);
    assert(v[5 + 2 * i] == f[2 * i] && v[6 + 2 * i] == f[2 * i + 1]);
}

/// Whether a value stands behind a flag.
pub open spec fn follows_flag(args: Seq<Seq<char>>, flag: Seq<char>, value: Seq<char>) -> bool {
    exists|i: int| 0 <= i < args.len() - 1 && #[trigger] args[i] == flag && args[i + 1] == value
}

proof fn flags_precede_values(values: Seq<Seq<char>>, flag: Seq<char>, n: int, i: int)
    requires
        0 <= i < n <= values.len(),
    ensures
        flagged(values, flag, n).len() == 2 * n,
        flagged(values, flag, n)[2 * i] == flag,
        flagged(values, flag, n)[2 * i + 1] == values[i],
    decreases n,
{
    if n > 1 {
        flags_precede_values(values, flag, n - 1, if i < n - 1 { i } else { 0 });
    } else {
        assert(flagged(values, flag, 0).len() == 0);
    }
}

/// An agent sees the logs of itself and of its sub-agents, and no others.
pub proof fn logs_are_for_the_parent(
    name: Seq<char>,
    caller: Seq<char>,
    state: Option<&AgentState>,
    r: Result<(), String>,
)
    requires
        may_see_logs(name, caller, state, r),
    ensures
        r is Ok <==> name == caller || (state matches Some(s) && (s.parent matches Some(p) && p@
            == caller)),
{
}

/// Between one and a thousand lines can be asked for, a hundred where nothing is said, of
/// one of the two logs.
pub proof fn log_requests_are_bounded(args: JsonModel, r: Result<LogRequest, String>)
    requires
        asks_for_logs(args, r),
    ensures
        r is Ok <==> args.text_field("name"@) is Some && (args.u64_field("tail"@) matches Some(n)
            ==> 1 <= n <= 1000) && (args.text_field("source"@) matches Some(t) ==> t == "stderr"@
            || t == "stream"@),
        r matches Ok(q) ==> Some(q.name@) == args.text_field("name"@) && 1 <= q.tail <= 1000 && (
        args.u64_field("tail"@) matches Some(n) ==> q.tail == n) && (args.u64_field("tail"@) is None
            ==> q.tail == 100) && (q.source == LogSource::Stream <==> args.text_field("source"@)
            == Some("stream"@)),
{
    reveal_strlit("stderr");
    reveal_strlit("stream");
    assert("stderr"@[2] != "stream"@[2]);
    if let Ok(q) = r {
        match q.source {
            LogSource::Stderr => {
                assert(q.source.name() == "stderr"@);
            },
            LogSource::Stream => {
                assert(q.source.name() == "stream"@);
            },
        }
    }
}

/// An agent that comes up is waited for, half a minute at most.
pub proof fn registration_is_awaited_half_a_minute(on_bus: bool, waited_ms: u64, r: PollStep)
    requires
        polls(on_bus, waited_ms, r),
    ensures
        waited_ms >= 30_000 <==> r == PollStep::TimedOut,
        r == PollStep::Registered <==> on_bus && waited_ms < 30_000,
        r == PollStep::Wait <==> !on_bus && waited_ms < 30_000,
{
}

/// The log that is shown is that of the agent, with its last lines, at most as many as were
/// asked for, and the number of all.
pub proof fn shown_log_is_the_end(
    name: Seq<char>,
    source: Seq<char>,
    path: Seq<char>,
    text: Seq<char>,
    tail: nat,
)
    ensures
        ({
            let v = log_model(name, source, path, Some(text), tail);
            let all = lines_spec(text);
            let k: int = if all.len() > tail {
                all.len() - tail
            } else {
                0
            };
            &&& v.text_field("name"@) == Some(name)
            &&& v.text_field("source"@) == Some(source)
            &&& v.text_field("path"@) == Some(path)
            &&& v.bool_field("exists"@) == Some(true)
            &&& v.get("total_lines"@) == Some(JsonModel::Number(all.len() as int))
            &&& v.get("returned_lines"@) == Some(JsonModel::Number(all.len() - k))
            &&& lists_texts(v.at("lines"@), all.subrange(k, all.len() as int))
        }),
        log_model(name, source, path, None, tail).bool_field("exists"@) == Some(false),
{
    reveal_strlit("name");
    reveal_strlit("source");
    reveal_strlit("path");
    reveal_strlit("exists");
    reveal_strlit("total_lines");
    reveal_strlit("returned_lines");
    reveal_strlit("lines");
    assert("name"@.len() == 4 && "source"@.len() == 6 && "path"@.len() == 4 && "exists"@.len() == 6 && "total_lines"@.len() == 11 && "returned_lines"@.len() == 14 && "lines"@.len() == 5);
    assert("name"@[0] != "path"@[0]);
    assert("source"@[0] != "exists"@[0]);
    let fields = log_model(name, source, path, Some(text), tail)->Object_0;
    lookup_steps(fields, "name"@, 0);
    lookup_steps(fields, "source"@, 1);
    lookup_steps(fields, "path"@, 2);
    lookup_steps(fields, "exists"@, 3);
    lookup_steps(fields, "total_lines"@, 4);
    lookup_steps(fields, "returned_lines"@, 5);
    lookup_steps(fields, "lines"@, 6);
    let all = lines_spec(text);
    let k: int = if all.len() > tail {
        all.len() - tail
    } else {
        0
    };
    assert(last_n(all, tail) =~= all.subrange(k, all.len() as int));
    text_list_holds_its_texts(last_n(all, tail));
    let none = log_model(name, source, path, None, tail)->Object_0;
    lookup_steps(none, "exists"@, 3);
}

/// The scope that an agent is told is its own: its directory, its parent, its topics and
/// its children, and whom it may write to.
pub proof fn scope_is_told(s: ScopeFacts)
    ensures
        scope_model(s).text_field("agent"@) == Some(s.agent_name@),
        s.state is None ==> scope_model(s).text_field("work_dir"@) == Some(s.current_dir@),
        s.state matches Some(st) ==> scope_model(s).text_field("work_dir"@) == Some(st.work_dir@)
            && scope_model(s).text_field("parent"@) == opt_text(st.parent),
        lists_texts(scope_model(s).at("children"@), texts(s.children@)),
        (s.state matches Some(st) && st.can_message is Some) ==> lists_texts(
            scope_model(s).at("can_message"@),
            texts(s.state->0.can_message->0@),
        ),
{
    reveal_strlit("agent");
    reveal_strlit("scope");
    reveal_strlit("parent");
    reveal_strlit("work_dir");
    reveal_strlit("can_message");
    reveal_strlit("bus_topics");
    reveal_strlit("env_keys");
    reveal_strlit("children");
    assert("agent"@.len() == 5 && "scope"@.len() == 5 && "parent"@.len() == 6 && "work_dir"@.len() == 8 && "can_message"@.len() == 11 && "bus_topics"@.len() == 10 && "env_keys"@.len() == 8 && "children"@.len() == 8);
    assert("agent"@[0] != "scope"@[0]);
    assert("work_dir"@[0] != "env_keys"@[0]);
    assert("work_dir"@[0] != "children"@[0]);
    assert("env_keys"@[0] != "children"@[0]);
    let fields = scope_model(s)->Object_0;
    lookup_steps(fields, "agent"@, 0);
    lookup_steps(fields, "scope"@, 1);
    lookup_steps(fields, "parent"@, 2);
    lookup_steps(fields, "work_dir"@, 3);
    lookup_steps(fields, "can_message"@, 4);
    lookup_steps(fields, "bus_topics"@, 5);
    lookup_steps(fields, "env_keys"@, 6);
    lookup_steps(fields, "children"@, 7);
    text_list_holds_its_texts(texts(s.children@));
    if let Some(st) = s.state {
        if let Some(v) = st.can_message {
            text_list_holds_its_texts(texts(v@));
        }
    }
}

/// An agent sees the agents it started and those without a parent, and no child of another.
pub proof fn children_of_others_are_not_seen(
    agents: Seq<ListedAgent>,
    a: ListedAgent,
    caller: Seq<char>,
)
    ensures
        (a.state matches Some(s) && (s.parent matches Some(p) && p@ != caller)) ==> seen_agents(
            agents.push(a),
            caller,
        ) == seen_agents(agents, caller),
        !(a.state matches Some(s) && (s.parent matches Some(p) && p@ != caller)) ==> seen_agents(
            agents.push(a),
            caller,
        ) == seen_agents(agents, caller).push(
            agent_summary_model(a.name@, a.is_finished, listed_state(a)),
        ),
{
    assert(agents.push(a).drop_last() =~= agents);
}

} // verus!
