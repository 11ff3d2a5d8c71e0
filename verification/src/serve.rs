//! What a server starts for an agent, and which clients a bus has.
use crate::adapters::plan::{adapters_of, build_adapters, AdapterSpec};
use crate::agent::AgentConfig;
use crate::commands::agent::{agent_bus_socket, bus_socket_of};
use crate::config::{AgentDef, SubAgentDef, UserConfig};
use crate::decimal::{decimal, show_u64};
use crate::json::{
    lists_texts, opt_json, text_list_holds_its_texts, text_list_model, texts_among, Fields,
    Json, JsonModel,
};
use crate::json_text::{compact, compact_text, json_reading, read_text};
use crate::mcp_protocol::{register, register_model};
use crate::names::{each_once, keep_each_once};
use crate::same::views;
use crate::text::{copy_all, copy_opt, opt_text, same, starts_with_spec, texts};
use crate::message::lookup_steps;
use vstd::prelude::*;
use vstd::string::*;

verus! {

// ─── Starting ───────────────────────────────────────────────────────────────

/// The MCP configuration of a sub-agent.
pub open spec fn mcp_config_model(name: Seq<char>) -> JsonModel {
    JsonModel::Object(
        seq![
            (
                "mcpServers"@,
                JsonModel::Object(
                    seq![
                        (
                            "deskd"@,
                            JsonModel::Object(
                                seq![
                                    ("command"@, JsonModel::Text("deskd"@)),
                                    ("args"@, text_list_model(seq!["mcp"@, "--agent"@, name])),
                                ],
                            ),
                        ),
                    ],
                ),
            ),
        ],
    )
}

/// The MCP configuration of a sub-agent.
pub fn mcp_config(name: &str) -> (r: Json)
    ensures
        r@ == mcp_config_model(name@),
{
    let ghost expected = mcp_config_model(name@)->Object_0;
    let mut args: Vec<String> = Vec::new();
    args.push(String::from_str("mcp"));
    args.push(String::from_str("--agent"));
    args.push(String::from_str(name));
    assert(texts(args@) =~= seq!["mcp"@, "--agent"@, name@]);
    let mut server = Fields::new();
    server.put_text("command", "deskd");
    server.put("args", Json::texts(&args));
    assert(server@ =~= expected[0].1->Object_0[0].1->Object_0);
    let mut servers = Fields::new();
    servers.put("deskd", server.object());
    assert(servers@ =~= expected[0].1->Object_0);
    let mut f = Fields::new();
    f.put("mcpServers", servers.object());
    assert(f@ =~= expected);
    f.object()
}

/// The command that runs a sub-agent: the program of the runtime with its options.
/// `mcp` is its MCP configuration as text.
pub open spec fn sub_agent_command(
    runtime: Seq<char>,
    model: Seq<char>,
    max_turns: u32,
    mcp: Seq<char>,
) -> Seq<Seq<char>> {
    seq![
        runtime,
        "--output-format"@,
        "stream-json"@,
        "--verbose"@,
        "--dangerously-skip-permissions"@,
        "--model"@,
        model,
        "--max-turns"@,
        decimal(max_turns as nat),
        "--mcp-config"@,
        mcp,
    ]
}

/// The command that runs a sub-agent. `mcp` is its MCP configuration as text.
pub fn build_command(runtime: &str, model: &str, max_turns: u32, mcp: &str) -> (r: Vec<String>)
    ensures
        texts(r@) == sub_agent_command(runtime@, model@, max_turns, mcp@),
{
    let mut v: Vec<String> = Vec::new();
    v.push(String::from_str(runtime));
    v.push(String::from_str("--output-format"));
    v.push(String::from_str("stream-json"));
    v.push(String::from_str("--verbose"));
    v.push(String::from_str("--dangerously-skip-permissions"));
    v.push(String::from_str("--model"));
    v.push(String::from_str(model));
    v.push(String::from_str("--max-turns"));
    v.push(show_u64(max_turns as u64));
    v.push(String::from_str("--mcp-config"));
    v.push(String::from_str(mcp));
    assert(texts(v@) =~= sub_agent_command(runtime@, model@, max_turns, mcp@));
    v
}

/// Whether a configuration is that of a sub-agent of an agent. It runs where and
/// as whom its parent does, within the limits of its parent.
pub open spec fn configures(
    c: AgentConfig,
    runtime: Seq<char>,
    def: AgentDef,
    cfg: UserConfig,
    sub: SubAgentDef,
    config_path: Seq<char>,
) -> bool {
    &&& c.name@ == sub.name@
    &&& c.model@ == sub.model@
    &&& c.system_prompt@ == sub.system_prompt@
    &&& c.work_dir@ == def.work_dir@
    &&& c.max_turns == cfg.max_turns
    &&& opt_text(c.unix_user) == opt_text(def.unix_user)
    &&& c.budget_usd@ == def.budget_usd@
    &&& texts(c.command@) == sub_agent_command(
        runtime,
        sub.model@,
        cfg.max_turns,
        compact_text(mcp_config_model(sub.name@)),
    )
    &&& opt_text(c.config_path) == Some(config_path)
    &&& opt_json(c.container) == opt_json(def.container)
    &&& opt_json(c.options) == opt_json(sub.options)
}

fn copy_json(o: &Option<Json>) -> (r: Option<Json>)
    ensures
        opt_json(r) == opt_json(*o),
{
    match o {
        Some(v) => Some(v.copy()),
        None => None,
    }
}

/// The configuration of a sub-agent.
pub fn sub_agent_config(
    runtime: &str,
    def: &AgentDef,
    cfg: &UserConfig,
    sub: &SubAgentDef,
    config_path: &str,
) -> (r: AgentConfig)
    ensures
        configures(r, runtime@, *def, *cfg, *sub, config_path@),
{
    let mcp = compact(&mcp_config(&sub.name));
    AgentConfig {
        name: sub.name.clone(),
        model: sub.model.clone(),
        system_prompt: sub.system_prompt.clone(),
        work_dir: def.work_dir.clone(),
        max_turns: cfg.max_turns,
        unix_user: copy_opt(&def.unix_user),
        budget_usd: def.budget_usd.clone(),
        command: build_command(runtime, &sub.model, cfg.max_turns, &mcp),
        config_path: Some(String::from_str(config_path)),
        container: copy_json(&def.container),
        options: copy_json(&sub.options),
    }
}

/// A sub-agent to start, and what it subscribes to.
#[derive(Debug, PartialEq)]
pub struct SubAgentStart {
    pub config: AgentConfig,
    pub subscribe: Vec<String>,
}

/// What a server starts for an agent.
#[derive(Debug, PartialEq)]
pub struct ServePlan {
    pub bus_socket: String,
    pub adapters: Vec<AdapterSpec>,
    pub sub_agents: Vec<SubAgentStart>,
    /// Whether to start the workflow engine.
    pub workflows: bool,
}

/// Whether sub-agents are those of a configuration, in order.
pub open spec fn starts_sub_agents(
    v: Seq<SubAgentStart>,
    runtime: Seq<char>,
    def: AgentDef,
    cfg: UserConfig,
    config_path: Seq<char>,
    n: int,
) -> bool {
    &&& v.len() == n
    &&& forall|i: int|
        0 <= i < n ==> configures(
            (#[trigger] v[i]).config,
            runtime,
            def,
            cfg,
            cfg.agents@[i],
            config_path,
        )
            && texts(v[i].subscribe@) == texts(cfg.agents@[i].subscribe@)
}

/// Whether `r` is what to start for an agent.
pub open spec fn plans(
    runtime: Seq<char>,
    def: AgentDef,
    cfg: Option<&UserConfig>,
    config_path: Seq<char>,
    admins: Seq<i64>,
    r: ServePlan,
) -> bool {
    &&& r.bus_socket@ == bus_socket_of(def.work_dir@)
    &&& views(r.adapters@) == adapters_of(def, cfg, admins)
    &&& match cfg {
        Some(c) => starts_sub_agents(
            r.sub_agents@,
            runtime,
            def,
            *c,
            config_path,
            c.agents@.len() as int,
        ) && r.workflows == (c.models@.len() > 0),
        None => r.sub_agents@.len() == 0 && !r.workflows,
    }
}

/// What a server starts for an agent of the workspace. `runtime` is the program
/// that runs agents. Without a configuration it
/// has no sub-agents and no workflows.
pub fn serve(
    runtime: &str,
    def: &AgentDef,
    user_cfg: Option<&UserConfig>,
    config_path: &str,
    admin_telegram_ids: &Vec<i64>,
) -> (r: ServePlan)
    ensures
        plans(runtime@, *def, user_cfg, config_path@, admin_telegram_ids@, r),
{
    let mut sub_agents: Vec<SubAgentStart> = Vec::new();
    let mut workflows: bool = false;
    match user_cfg {
        Some(c) => {
            workflows = c.models.len() > 0;
            let mut i: usize = 0;
            while i < c.agents.len()
                invariant
                    i <= c.agents@.len(),
                    starts_sub_agents(sub_agents@, runtime@, *def, *c, config_path@, i as int),
                decreases c.agents@.len() - i,
            {
                let config = sub_agent_config(runtime, def, c, &c.agents[i], config_path);
                let subscribe = copy_all(&c.agents[i].subscribe);
                sub_agents.push(SubAgentStart { config, subscribe });
                i += 1;
            }
        },
        None => {},
    }
    ServePlan {
        bus_socket: agent_bus_socket(&def.work_dir),
        adapters: build_adapters(def, user_cfg, admin_telegram_ids),
        sub_agents,
        workflows,
    }
}

// ─── Clients of a bus ───────────────────────────────────────────────────────

/// The requests that ask a bus for its clients: a registration, then the request
/// for the list.
pub fn list_requests() -> (r: (Json, Json))
    ensures
        r.0@ == register_model("deskd-cli-list"@, Seq::empty()),
        r.1@ == JsonModel::Object(seq![("type"@, JsonModel::Text("list"@))]),
{
    let none: Vec<String> = Vec::new();
    assert(texts(none@) =~= Seq::<Seq<char>>::empty());
    let mut f = Fields::new();
    f.put_text("type", "list");
    assert(f@ =~= seq![("type"@, JsonModel::Text("list"@))]);
    (register("deskd-cli-list", &none), f.object())
}

/// The clients that a line of the bus lists, each once, where it is an answer to the
/// request for the list.
pub open spec fn listed_clients(v: JsonModel) -> Option<Seq<Seq<char>>> {
    if v.text_field("type"@) == Some("list_response"@) {
        match v.list_field("clients"@) {
            Some(items) => Some(each_once(texts_among(items))),
            None => None,
        }
    } else {
        None
    }
}

/// The clients that a line of the bus lists, each once: none yet where it is no answer
/// to the request for the list. A line that is no JSON is refused with the complaint
/// about it.
pub fn query_live_agents(line: &str) -> (r: Result<Option<Vec<String>>, String>)
    ensures
        match json_reading(line@) {
            Ok(v) => match r {
                Ok(Some(names)) => listed_clients(v) == Some(texts(names@)) && texts(
                    names@,
                ).no_duplicates(),
                Ok(None) => listed_clients(v) is None,
                Err(_) => false,
            },
            Err(m) => r matches Err(e) && e@ == m,
        },
{
    match read_text(line) {
        Ok(v) => Ok(read_clients(&v)),
        Err(e) => Err(e),
    }
}

/// The clients that a message of the bus lists, each once, where it is an answer to
/// the request for the list.
pub fn read_clients(v: &Json) -> (r: Option<Vec<String>>)
    ensures
        match r {
            Some(names) => listed_clients(v@) == Some(texts(names@)) && texts(
                names@,
            ).no_duplicates(),
            None => listed_clients(v@) is None,
        },
{
    let answer: bool = match v.text_field("type") {
        Some(t) => same(t, "list_response"),
        None => false,
    };
    if !answer {
        return None;
    }
    match v.text_list_field("clients") {
        Some(names) => Some(keep_each_once(&names)),
        None => None,
    }
}

// ─── What is started ────────────────────────────────────────────────────────

/// Whether a value stands behind a flag.
pub open spec fn behind_flag(args: Seq<Seq<char>>, flag: Seq<char>, value: Seq<char>) -> bool {
    exists|i: int| 0 <= i < args.len() - 1 && #[trigger] args[i] == flag && args[i + 1] == value
}

/// The command of a sub-agent is the runtime, with the model, the turns and the server of
/// tools behind their flags.
pub proof fn command_has_model_turns_and_tools(
    runtime: Seq<char>,
    model: Seq<char>,
    max_turns: u32,
    mcp: Seq<char>,
)
    ensures
        ({
            let c = sub_agent_command(runtime, model, max_turns, mcp);
            &&& c[0] == runtime
            &&& behind_flag(c, "--model"@, model)
            &&& behind_flag(c, "--max-turns"@, decimal(max_turns as nat))
            &&& behind_flag(c, "--mcp-config"@, mcp)
            &&& behind_flag(c, "--output-format"@, "stream-json"@)
        }),
{
    let c = sub_agent_command(runtime, model, max_turns, mcp);
    assert(c[1] == "--output-format"@ && c[2] == "stream-json"@);
    assert(c[5] == "--model"@ && c[6] == model);
    assert(c[7] == "--max-turns"@ && c[8] == decimal(max_turns as nat));
    assert(c[9] == "--mcp-config"@ && c[10] == mcp);
}

/// The server of tools of an agent is started for that agent.
pub proof fn tools_are_served_for_the_agent(name: Seq<char>)
    ensures
        ({
            let d = mcp_config_model(name).at("mcpServers"@).at("deskd"@);
            &&& d.text_field("command"@) == Some("deskd"@)
            &&& lists_texts(d.at("args"@), seq!["mcp"@, "--agent"@, name])
        }),
{
    reveal_strlit("command");
    reveal_strlit("args");
    assert("command"@.len() == 7 && "args"@.len() == 4);
    let a = mcp_config_model(name)->Object_0;
    lookup_steps(a, "mcpServers"@, 0);
    let b = a[0].1->Object_0;
    lookup_steps(b, "deskd"@, 0);
    let c = b[0].1->Object_0;
    lookup_steps(c, "command"@, 0);
    lookup_steps(c, "args"@, 1);
    text_list_holds_its_texts(seq!["mcp"@, "--agent"@, name]);
}

/// An agent gets its bus, and each sub-agent of its configuration a worker of its own: with
/// its name, model and prompt, in the directory of the agent, listening to what it
/// subscribes to. Workflows run where there are models; without a configuration nothing
/// but the bus and the adapters is started.
pub proof fn every_sub_agent_is_started(
    runtime: Seq<char>,
    def: AgentDef,
    cfg: Option<&UserConfig>,
    config_path: Seq<char>,
    admins: Seq<i64>,
    r: ServePlan,
    i: int,
)
    requires
        plans(runtime, def, cfg, config_path, admins, r),
    ensures
        cfg is None ==> r.sub_agents@.len() == 0 && !r.workflows,
        cfg matches Some(c) ==> r.sub_agents@.len() == c.agents@.len() && (r.workflows
            <==> c.models@.len() > 0) && (0 <= i < c.agents@.len() ==> ({
            let s = r.sub_agents@[i];
            let d = c.agents@[i];
            &&& s.config.name@ == d.name@
            &&& s.config.model@ == d.model@
            &&& s.config.system_prompt@ == d.system_prompt@
            &&& s.config.work_dir@ == def.work_dir@
            &&& s.config.max_turns == c.max_turns
            &&& texts(s.subscribe@) == texts(d.subscribe@)
            &&& opt_text(s.config.config_path) == Some(config_path)
            &&& opt_text(s.config.unix_user) == opt_text(def.unix_user)
            &&& s.config.budget_usd@ == def.budget_usd@
        })),
        starts_with_spec(r.bus_socket@, def.work_dir@),
{
    let sock = bus_socket_of(def.work_dir@);
    assert(sock.take(def.work_dir@.len() as int) =~= def.work_dir@);
}

/// A list of clients is read from the answer to the request for it, and from no other
/// message.
pub proof fn clients_are_read_from_the_answer(names: Seq<Seq<char>>, kind: Seq<char>)
    ensures
        ({
            let v = JsonModel::Object(
                seq![("type"@, JsonModel::Text(kind)), ("clients"@, text_list_model(names))],
            );
            &&& kind == "list_response"@ ==> listed_clients(v) == Some(each_once(names))
            &&& kind != "list_response"@ ==> listed_clients(v) is None
        }),
{
    reveal_strlit("type");
    reveal_strlit("clients");
    assert("type"@.len() == 4 && "clients"@.len() == 7);
    let fields = seq![("type"@, JsonModel::Text(kind)), ("clients"@, text_list_model(names))];
    lookup_steps(fields, "type"@, 0);
    lookup_steps(fields, "clients"@, 1);
    text_list_holds_its_texts(names);
}

} // verus!
