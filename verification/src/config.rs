//! Configuration of agents.
use crate::json::{Json, JsonModel};
use crate::same::{opt_texts, opt_view, same_lists, same_options, same_text_lists, views, Same};
use crate::text::{same, texts};
use vstd::prelude::*;
use vstd::string::*;

verus! {

/// A Telegram chat that the agent serves.
#[derive(Debug, Clone, PartialEq)]
pub struct TelegramRoute {
    pub chat_id: i64,
    pub mention_only: bool,
    pub name: Option<String>,
    pub route_to: Option<String>,
}

/// The contents of a Telegram route.
pub struct TelegramRouteModel {
    pub chat_id: i64,
    pub mention_only: bool,
    pub name: Option<Seq<char>>,
    pub route_to: Option<Seq<char>>,
}

impl View for TelegramRoute {
    type V = TelegramRouteModel;

    open spec fn view(&self) -> TelegramRouteModel {
        TelegramRouteModel {
            chat_id: self.chat_id,
            mention_only: self.mention_only,
            name: opt_view(self.name),
            route_to: opt_view(self.route_to),
        }
    }
}

impl Same for TelegramRoute {
    fn same_as(&self, other: &TelegramRoute) -> (r: bool) {
        self.chat_id == other.chat_id && self.mention_only == other.mention_only && same_options(
            &self.name,
            &other.name,
        ) && same_options(&self.route_to, &other.route_to)
    }
}

/// The Telegram chats that the agent serves.
#[derive(Debug, Clone, PartialEq)]
pub struct TelegramRoutesConfig {
    pub routes: Vec<TelegramRoute>,
}

impl View for TelegramRoutesConfig {
    type V = Seq<TelegramRouteModel>;

    open spec fn view(&self) -> Seq<TelegramRouteModel> {
        views(self.routes@)
    }
}

impl Same for TelegramRoutesConfig {
    fn same_as(&self, other: &TelegramRoutesConfig) -> (r: bool) {
        same_lists(&self.routes, &other.routes)
    }
}

/// A Discord channel that the agent serves.
#[derive(Debug, Clone, PartialEq)]
pub struct DiscordRoute {
    pub channel_id: u64,
    pub name: Option<String>,
}

/// The contents of a Discord route.
pub struct DiscordRouteModel {
    pub channel_id: u64,
    pub name: Option<Seq<char>>,
}

impl View for DiscordRoute {
    type V = DiscordRouteModel;

    open spec fn view(&self) -> DiscordRouteModel {
        DiscordRouteModel { channel_id: self.channel_id, name: opt_view(self.name) }
    }
}

impl Same for DiscordRoute {
    fn same_as(&self, other: &DiscordRoute) -> (r: bool) {
        self.channel_id == other.channel_id && same_options(&self.name, &other.name)
    }
}

/// The Discord channels that the agent serves.
#[derive(Debug, Clone, PartialEq)]
pub struct DiscordRoutesConfig {
    pub routes: Vec<DiscordRoute>,
}

impl View for DiscordRoutesConfig {
    type V = Seq<DiscordRouteModel>;

    open spec fn view(&self) -> Seq<DiscordRouteModel> {
        views(self.routes@)
    }
}

impl Same for DiscordRoutesConfig {
    fn same_as(&self, other: &DiscordRoutesConfig) -> (r: bool) {
        same_lists(&self.routes, &other.routes)
    }
}

/// What a schedule does.
#[derive(Debug, Clone, Copy, PartialEq, Eq, Structural)]
pub enum ScheduleAction {
    Raw,
    GithubPoll,
    Shell,
}

/// A cron schedule.
#[derive(Debug, PartialEq)]
pub struct ScheduleDef {
    pub cron: String,
    pub target: String,
    pub action: ScheduleAction,
    pub config: Option<Json>,
    pub timezone: Option<String>,
}

/// The contents of a schedule.
pub struct ScheduleModel {
    pub cron: Seq<char>,
    pub target: Seq<char>,
    pub action: ScheduleAction,
    pub config: Option<JsonModel>,
    pub timezone: Option<Seq<char>>,
}

impl View for ScheduleDef {
    type V = ScheduleModel;

    open spec fn view(&self) -> ScheduleModel {
        ScheduleModel {
            cron: self.cron@,
            target: self.target@,
            action: self.action,
            config: opt_view(self.config),
            timezone: opt_view(self.timezone),
        }
    }
}

impl Same for ScheduleDef {
    fn same_as(&self, other: &ScheduleDef) -> (r: bool) {
        same(&self.cron, &other.cron) && same(&self.target, &other.target) && self.action
            == other.action && same_options(&self.config, &other.config) && same_options(
            &self.timezone,
            &other.timezone,
        )
    }
}

/// How much of its parent's scope a sub-agent has.
#[derive(Debug, Clone, Copy, PartialEq, Eq, Structural)]
pub enum ScopeType {
    Inherit,
    Narrow,
}

/// An environment variable.
#[derive(Debug, Clone, PartialEq)]
pub struct EnvVar {
    pub name: String,
    pub value: String,
}

impl View for EnvVar {
    type V = (Seq<char>, Seq<char>);

    open spec fn view(&self) -> (Seq<char>, Seq<char>) {
        (self.name@, self.value@)
    }
}

impl Same for EnvVar {
    fn same_as(&self, other: &EnvVar) -> (r: bool) {
        same(&self.name, &other.name) && same(&self.value, &other.value)
    }
}

/// A sub-agent. The options that only its runtime reads are kept as they were
/// written, in `options`.
#[derive(Debug, PartialEq)]
pub struct SubAgentDef {
    pub name: String,
    pub model: String,
    pub system_prompt: String,
    pub subscribe: Vec<String>,
    /// The targets to which the agent may publish. All where there is no list.
    pub publish: Option<Vec<String>>,
    /// The inboxes that the agent may read besides its own.
    pub inbox_read: Option<Vec<String>>,
    pub scope: ScopeType,
    /// The targets to which the agent may send. All where there is no list.
    pub can_message: Option<Vec<String>>,
    pub work_dir: Option<String>,
    /// The environment, by the names of the variables.
    pub env: Option<Vec<EnvVar>>,
    pub state_file: Option<String>,
    pub options: Option<Json>,
}

/// The contents of a sub-agent's definition.
pub struct SubAgentModel {
    pub name: Seq<char>,
    pub model: Seq<char>,
    pub system_prompt: Seq<char>,
    pub subscribe: Seq<Seq<char>>,
    pub publish: Option<Seq<Seq<char>>>,
    pub inbox_read: Option<Seq<Seq<char>>>,
    pub scope: ScopeType,
    pub can_message: Option<Seq<Seq<char>>>,
    pub work_dir: Option<Seq<char>>,
    pub env: Option<Seq<(Seq<char>, Seq<char>)>>,
    pub state_file: Option<Seq<char>>,
    pub options: Option<JsonModel>,
}

/// The contents of an optional environment.
pub open spec fn env_view(o: Option<Vec<EnvVar>>) -> Option<Seq<(Seq<char>, Seq<char>)>> {
    match o {
        Some(v) => Some(views(v@)),
        None => None,
    }
}

impl View for SubAgentDef {
    type V = SubAgentModel;

    open spec fn view(&self) -> SubAgentModel {
        SubAgentModel {
            name: self.name@,
            model: self.model@,
            system_prompt: self.system_prompt@,
            subscribe: views(self.subscribe@),
            publish: opt_texts(self.publish),
            inbox_read: opt_texts(self.inbox_read),
            scope: self.scope,
            can_message: opt_texts(self.can_message),
            work_dir: opt_view(self.work_dir),
            env: env_view(self.env),
            state_file: opt_view(self.state_file),
            options: opt_view(self.options),
        }
    }
}

fn same_env(a: &Option<Vec<EnvVar>>, b: &Option<Vec<EnvVar>>) -> (r: bool)
    ensures
        r == (env_view(*a) == env_view(*b)),
{
    match (a, b) {
        (Some(x), Some(y)) => same_lists(x, y),
        (None, None) => true,
        _ => false,
    }
}

impl Same for SubAgentDef {
    fn same_as(&self, other: &SubAgentDef) -> (r: bool) {
        same(&self.name, &other.name) && same(&self.model, &other.model) && same(
            &self.system_prompt,
            &other.system_prompt,
        ) && same_lists(&self.subscribe, &other.subscribe) && same_text_lists(
            &self.publish,
            &other.publish,
        ) && same_text_lists(&self.inbox_read, &other.inbox_read) && self.scope == other.scope
            && same_text_lists(&self.can_message, &other.can_message) && same_options(
            &self.work_dir,
            &other.work_dir,
        ) && same_env(&self.env, &other.env) && same_options(&self.state_file, &other.state_file)
            && same_options(&self.options, &other.options)
    }
}

/// A named bus target.
#[derive(Debug, Clone, PartialEq)]
pub struct ChannelDef {
    pub name: String,
    pub description: String,
}

/// A transition of a state machine model.
#[derive(Debug, Clone, PartialEq)]
pub struct TransitionDef {
    /// The state that it leaves; `*` for every state.
    pub from: String,
    pub to: String,
    pub trigger: Option<String>,
    pub on: Option<String>,
    pub assignee: Option<String>,
    /// How long a task may take in the state that it leaves.
    pub timeout: Option<String>,
    /// The state to go to when that time is over.
    pub timeout_goto: Option<String>,
}

/// A state machine model.
#[derive(Debug, Clone, PartialEq)]
pub struct ModelDef {
    pub name: String,
    pub description: String,
    pub states: Vec<String>,
    pub initial: String,
    pub terminal: Vec<String>,
    pub transitions: Vec<TransitionDef>,
}

/// The configuration of an agent.
#[derive(Debug, PartialEq)]
pub struct UserConfig {
    pub model: String,
    pub system_prompt: String,
    pub max_turns: u32,
    pub agents: Vec<SubAgentDef>,
    pub channels: Vec<ChannelDef>,
    pub telegram: Option<TelegramRoutesConfig>,
    pub discord: Option<DiscordRoutesConfig>,
    pub schedules: Vec<ScheduleDef>,
    pub models: Vec<ModelDef>,
    /// The inboxes that the agent may read besides its own. All where there is
    /// no list.
    pub inbox_acl: Option<Vec<String>>,
    pub state_file: Option<String>,
}

/// The number of turns of an agent whose configuration states none.
pub const DEFAULT_MAX_TURNS: u32 = 100;

impl Default for UserConfig {
    /// A configuration that states nothing.
    fn default() -> (r: UserConfig)
        ensures
            r.model@ == Seq::<char>::empty(),
            r.system_prompt@ == Seq::<char>::empty(),
            r.max_turns == DEFAULT_MAX_TURNS,
            r.agents@.len() == 0,
            r.channels@.len() == 0,
            r.telegram is None,
            r.discord is None,
            r.schedules@.len() == 0,
            r.models@.len() == 0,
            r.inbox_acl is None,
            r.state_file is None,
    {
        UserConfig {
            model: String::new(),
            system_prompt: String::new(),
            max_turns: DEFAULT_MAX_TURNS,
            agents: Vec::new(),
            channels: Vec::new(),
            telegram: None,
            discord: None,
            schedules: Vec::new(),
            models: Vec::new(),
            inbox_acl: None,
            state_file: None,
        }
    }
}

/// The position of the first of `agents` with the given name; their number where
/// there is none.
pub open spec fn agent_index(agents: Seq<SubAgentDef>, name: Seq<char>) -> nat
    decreases agents.len(),
{
    if agents.len() == 0 || agents[0].name@ == name {
        0
    } else {
        1 + agent_index(agents.skip(1), name)
    }
}

/// The first of `agents` with the given name.
pub open spec fn agent_named(agents: Seq<SubAgentDef>, name: Seq<char>) -> Option<SubAgentDef> {
    let i = agent_index(agents, name) as int;
    if i < agents.len() {
        Some(agents[i])
    } else {
        None
    }
}

/// The first of `agents` with the given name.
pub(crate) fn find_agent<'a>(agents: &'a Vec<SubAgentDef>, name: &str) -> (r: Option<
    &'a SubAgentDef,
>)
    ensures
        match r {
            Some(a) => agent_named(agents@, name@) == Some(*a),
            None => agent_named(agents@, name@) is None,
        },
{
    let mut i: usize = 0;
    assert(agents@.skip(0) =~= agents@);
    while i < agents.len()
        invariant
            i <= agents@.len(),
            agent_index(agents@, name@) == i + agent_index(agents@.skip(i as int), name@),
        decreases agents@.len() - i,
    {
        let ghost rest = agents@.skip(i as int);
        assert(rest[0] == agents@[i as int]);
        if same(&agents[i].name, name) {
            return Some(&agents[i]);
        }
        assert(rest.skip(1) =~= agents@.skip(i + 1));
        i += 1;
    }
    None
}

/// The position of the first of `models` with the given name; their number where
/// there is none.
pub open spec fn model_index(models: Seq<ModelDef>, name: Seq<char>) -> nat
    decreases models.len(),
{
    if models.len() == 0 || models[0].name@ == name {
        0
    } else {
        1 + model_index(models.skip(1), name)
    }
}

/// The first of `models` with the given name.
pub open spec fn model_named(models: Seq<ModelDef>, name: Seq<char>) -> Option<ModelDef> {
    let i = model_index(models, name) as int;
    if i < models.len() {
        Some(models[i])
    } else {
        None
    }
}

/// The first of `models` with the given name.
pub(crate) fn find_model<'a>(models: &'a Vec<ModelDef>, name: &str) -> (r: Option<&'a ModelDef>)
    ensures
        match r {
            Some(m) => model_named(models@, name@) == Some(*m),
            None => model_named(models@, name@) is None,
        },
{
    let mut i: usize = 0;
    assert(models@.skip(0) =~= models@);
    while i < models.len()
        invariant
            i <= models@.len(),
            model_index(models@, name@) == i + model_index(models@.skip(i as int), name@),
        decreases models@.len() - i,
    {
        let ghost rest = models@.skip(i as int);
        assert(rest[0] == models@[i as int]);
        if same(&models[i].name, name) {
            return Some(&models[i]);
        }
        assert(rest.skip(1) =~= models@.skip(i + 1));
        i += 1;
    }
    None
}


/// Sampling of disk usage.
#[derive(Debug, Clone, PartialEq)]
pub struct DiskMetricsConfig {
    pub interval_seconds: u64,
    /// The mount points to sample.
    pub volumes: Vec<String>,
}

impl Default for DiskMetricsConfig {
    /// The root volume, once a minute.
    fn default() -> (r: DiskMetricsConfig)
        ensures
            r.interval_seconds == 60,
            texts(r.volumes@) == seq!["/"@],
    {
        let mut volumes: Vec<String> = Vec::new();
        volumes.push(String::from_str("/"));
        assert(texts(volumes@) =~= seq!["/"@]);
        DiskMetricsConfig { interval_seconds: 60, volumes }
    }
}

/// Sampling of metrics.
#[derive(Debug, Clone, PartialEq)]
pub struct MetricsConfig {
    pub disk: DiskMetricsConfig,
}

/// Access to a messaging platform.
#[derive(Debug, Clone, PartialEq)]
pub struct BotConfig {
    pub token: String,
}

/// An agent of the workspace.
#[derive(Debug, PartialEq)]
pub struct AgentDef {
    pub name: String,
    pub work_dir: String,
    pub unix_user: Option<String>,
    /// What the agent may cost, as a decimal number.
    pub budget_usd: String,
    /// The container to run in, as it was written.
    pub container: Option<Json>,
    pub telegram: Option<BotConfig>,
    pub discord: Option<BotConfig>,
}

/// The configuration of the workspace.
#[derive(Debug, PartialEq)]
pub struct WorkspaceConfig {
    pub agents: Vec<AgentDef>,
    pub admin_telegram_ids: Vec<i64>,
    pub metrics: Option<MetricsConfig>,
}

// ─── What a name finds ──────────────────────────────────────────────────────

/// A name finds an agent exactly where there is one of that name: the first one.
pub proof fn named_agent_is_the_first(agents: Seq<SubAgentDef>, name: Seq<char>)
    ensures
        match agent_named(agents, name) {
            Some(a) => a.name@ == name && exists|i: int|
                0 <= i < agents.len() && #[trigger] agents[i] == a && forall|j: int|
                    0 <= j < i ==> (#[trigger] agents[j]).name@ != name,
            None => forall|j: int| 0 <= j < agents.len() ==> (#[trigger] agents[j]).name@ != name,
        },
    decreases agents.len(),
{
    if agents.len() > 0 && agents[0].name@ != name {
        let rest = agents.skip(1);
        named_agent_is_the_first(rest, name);
        match agent_named(rest, name) {
            Some(a) => {
                let i = choose|i: int|
                    0 <= i < rest.len() && #[trigger] rest[i] == a && forall|j: int|
                        0 <= j < i ==> (#[trigger] rest[j]).name@ != name;
                assert(agents[i + 1] == a);
                assert forall|j: int| 0 <= j < i + 1 implies (#[trigger] agents[j]).name@
                    != name by {
                    if j > 0 {
                        assert(rest[j - 1] == agents[j]);
                    }
                }
                agent_index_of_rest(agents, name);
                assert(agent_named(agents, name) == Some(a));
            },
            None => {
                agent_index_of_rest(agents, name);
                assert forall|j: int| 0 <= j < agents.len() implies (#[trigger] agents[j]).name@
                    != name by {
                    if j > 0 {
                        assert(rest[j - 1] == agents[j]);
                    }
                }
            },
        }
    } else if agents.len() > 0 {
        assert(agents[0] == agent_named(agents, name)->0);
    }
}

proof fn agent_index_of_rest(agents: Seq<SubAgentDef>, name: Seq<char>)
    requires
        agents.len() > 0,
        agents[0].name@ != name,
    ensures
        agent_named(agents, name) == agent_named(agents.skip(1), name),
{
    let i = agent_index(agents.skip(1), name) as int;
    if i < agents.skip(1).len() {
        assert(agents.skip(1)[i] == agents[i + 1]);
    }
}

/// A name finds a model exactly where there is one of that name: the first one.
pub proof fn named_model_is_the_first(models: Seq<ModelDef>, name: Seq<char>)
    ensures
        match model_named(models, name) {
            Some(m) => m.name@ == name && models.contains(m),
            None => forall|j: int| 0 <= j < models.len() ==> (#[trigger] models[j]).name@ != name,
        },
        models.len() > 0 && models[0].name@ == name ==> model_named(models, name) == Some(models[0]),
        models.len() > 0 && models[0].name@ != name ==> model_named(models, name) == model_named(
            models.skip(1),
            name,
        ),
    decreases models.len(),
{
    if models.len() > 0 && models[0].name@ != name {
        let rest = models.skip(1);
        named_model_is_the_first(rest, name);
        let i = model_index(rest, name) as int;
        if i < rest.len() {
            assert(rest[i] == models[i + 1]);
        }
        if model_named(rest, name) is None {
            assert forall|j: int| 0 <= j < models.len() implies (#[trigger] models[j]).name@
                != name by {
                if j > 0 {
                    assert(rest[j - 1] == models[j]);
                }
            }
        }
    } else if models.len() > 0 {
        assert(models[0] == model_named(models, name)->0);
    }
}

} // verus!
