//! Which adapters an agent has.
use crate::config::{
    AgentDef, DiscordRoute, DiscordRouteModel, TelegramRoute, TelegramRouteModel, UserConfig,
};
use crate::same::views;
use crate::text::copy_opt;
use vstd::prelude::*;

verus! {

/// An adapter to run.
#[derive(Debug, PartialEq)]
pub enum AdapterSpec {
    Telegram {
        token: String,
        routes: Vec<TelegramRoute>,
        admin_telegram_ids: Vec<i64>,
        agent_name: String,
    },
    Discord { token: String, routes: Vec<DiscordRoute> },
}

/// The contents of an adapter.
pub enum AdapterModel {
    Telegram {
        token: Seq<char>,
        routes: Seq<TelegramRouteModel>,
        admin_telegram_ids: Seq<i64>,
        agent_name: Seq<char>,
    },
    Discord { token: Seq<char>, routes: Seq<DiscordRouteModel> },
}

impl View for AdapterSpec {
    type V = AdapterModel;

    open spec fn view(&self) -> AdapterModel {
        match self {
            AdapterSpec::Telegram { token, routes, admin_telegram_ids, agent_name } =>
                AdapterModel::Telegram {
                token: token@,
                routes: views(routes@),
                admin_telegram_ids: admin_telegram_ids@,
                agent_name: agent_name@,
            },
            AdapterSpec::Discord { token, routes } => AdapterModel::Discord {
                token: token@,
                routes: views(routes@),
            },
        }
    }
}

impl AdapterSpec {
    /// A short name for the log.
    pub fn name(&self) -> (r: &'static str)
        ensures
            r@ == (match self {
                AdapterSpec::Telegram { .. } => "telegram"@,
                AdapterSpec::Discord { .. } => "discord"@,
            }),
    {
        match self {
            AdapterSpec::Telegram { .. } => "telegram",
            AdapterSpec::Discord { .. } => "discord",
        }
    }
}

/// The Telegram chats that a configuration lists.
pub open spec fn telegram_routes(cfg: Option<&UserConfig>) -> Seq<TelegramRouteModel> {
    match cfg {
        Some(c) => match c.telegram {
            Some(t) => views(t.routes@),
            None => Seq::empty(),
        },
        None => Seq::empty(),
    }
}

/// The Discord channels that a configuration lists.
pub open spec fn discord_routes(cfg: Option<&UserConfig>) -> Seq<DiscordRouteModel> {
    match cfg {
        Some(c) => match c.discord {
            Some(d) => views(d.routes@),
            None => Seq::empty(),
        },
        None => Seq::empty(),
    }
}

/// The adapters of an agent: one for each platform to which it has access.
pub open spec fn adapters_of(
    def: AgentDef,
    cfg: Option<&UserConfig>,
    admins: Seq<i64>,
) -> Seq<AdapterModel> {
    (match def.telegram {
        Some(t) => seq![
            AdapterModel::Telegram {
                token: t.token@,
                routes: telegram_routes(cfg),
                admin_telegram_ids: admins,
                agent_name: def.name@,
            },
        ],
        None => Seq::empty(),
    }) + (match def.discord {
        Some(d) => seq![
            AdapterModel::Discord { token: d.token@, routes: discord_routes(cfg) },
        ],
        None => Seq::empty(),
    })
}

fn copy_telegram_routes(v: &Vec<TelegramRoute>) -> (r: Vec<TelegramRoute>)
    ensures
        views(r@) == views(v@),
{
    let mut out: Vec<TelegramRoute> = Vec::new();
    let mut i: usize = 0;
    assert(views(out@) =~= views(v@).take(0));
    while i < v.len()
        invariant
            i <= v@.len(),
            views(out@) == views(v@).take(i as int),
        decreases v@.len() - i,
    {
        let ghost before = views(out@);
        let x = &v[i];
        let y = TelegramRoute {
            chat_id: x.chat_id,
            mention_only: x.mention_only,
            name: copy_opt(&x.name),
            route_to: copy_opt(&x.route_to),
        };
        assert(y@ == x@);
        out.push(y);
        assert(views(out@) =~= before.push(x@));
        assert(views(v@).take(i + 1) =~= before.push(views(v@)[i as int]));
        i += 1;
    }
    assert(views(v@).take(i as int) =~= views(v@));
    out
}

fn copy_discord_routes(v: &Vec<DiscordRoute>) -> (r: Vec<DiscordRoute>)
    ensures
        views(r@) == views(v@),
{
    let mut out: Vec<DiscordRoute> = Vec::new();
    let mut i: usize = 0;
    assert(views(out@) =~= views(v@).take(0));
    while i < v.len()
        invariant
            i <= v@.len(),
            views(out@) == views(v@).take(i as int),
        decreases v@.len() - i,
    {
        let ghost before = views(out@);
        let x = &v[i];
        let y = DiscordRoute { channel_id: x.channel_id, name: copy_opt(&x.name) };
        assert(y@ == x@);
        out.push(y);
        assert(views(out@) =~= before.push(x@));
        assert(views(v@).take(i + 1) =~= before.push(views(v@)[i as int]));
        i += 1;
    }
    assert(views(v@).take(i as int) =~= views(v@));
    out
}

fn copy_ids(v: &Vec<i64>) -> (r: Vec<i64>)
    ensures
        r@ == v@,
{
    let mut out: Vec<i64> = Vec::new();
    let mut i: usize = 0;
    while i < v.len()
        invariant
            i <= v@.len(),
            out@ == v@.take(i as int),
        decreases v@.len() - i,
    {
        out.push(v[i]);
        assert(v@.take(i + 1) =~= v@.take(i as int).push(v@[i as int]));
        i += 1;
    }
    assert(v@.take(i as int) =~= v@);
    out
}

/// The adapters of an agent.
pub fn build_adapters(
    def: &AgentDef,
    user_cfg: Option<&UserConfig>,
    admin_telegram_ids: &Vec<i64>,
) -> (r: Vec<AdapterSpec>)
    ensures
        views(r@) == adapters_of(*def, user_cfg, admin_telegram_ids@),
{
    let ghost expected = adapters_of(*def, user_cfg, admin_telegram_ids@);
    let mut out: Vec<AdapterSpec> = Vec::new();
    match &def.telegram {
        Some(t) => {
            let routes: Vec<TelegramRoute> = match user_cfg {
                Some(c) => match &c.telegram {
                    Some(x) => copy_telegram_routes(&x.routes),
                    None => Vec::new(),
                },
                None => Vec::new(),
            };
            assert(views(routes@) =~= telegram_routes(user_cfg));
            let a = AdapterSpec::Telegram {
                token: t.token.clone(),
                routes,
                admin_telegram_ids: copy_ids(admin_telegram_ids),
                agent_name: def.name.clone(),
            };
            out.push(a);
        },
        None => {},
    }
    match &def.discord {
        Some(d) => {
            let routes: Vec<DiscordRoute> = match user_cfg {
                Some(c) => match &c.discord {
                    Some(x) => copy_discord_routes(&x.routes),
                    None => Vec::new(),
                },
                None => Vec::new(),
            };
            assert(views(routes@) =~= discord_routes(user_cfg));
            let a = AdapterSpec::Discord { token: d.token.clone(), routes };
            out.push(a);
        },
        None => {},
    }
    assert(views(out@) =~= expected);
    out
}

/// An agent with a bot on a network gets the adapter of that network, with the token of the
/// bot and the routes of the configuration, and no other adapter.
pub proof fn each_bot_gets_its_adapter(
    def: AgentDef,
    cfg: Option<&UserConfig>,
    admins: Seq<i64>,
    a: AdapterModel,
)
    ensures
        adapters_of(def, cfg, admins).contains(a) <==> match a {
            AdapterModel::Telegram { token, routes, admin_telegram_ids, agent_name } => (
            def.telegram matches Some(t) && t.token@ == token) && routes == telegram_routes(cfg)
                && admin_telegram_ids == admins && agent_name == def.name@,
            AdapterModel::Discord { token, routes } => (def.discord matches Some(d) && d.token@
                == token) && routes == discord_routes(cfg),
        },
        cfg matches Some(c) ==> (c.telegram matches Some(t) ==> telegram_routes(cfg) == views(
            t.routes@,
        )) && (c.discord matches Some(d) ==> discord_routes(cfg) == views(d.routes@)),
{
    let all = adapters_of(def, cfg, admins);
    if def.telegram is Some {
        assert(all[0] is Telegram);
    }
    if def.discord is Some {
        assert(all[all.len() - 1] is Discord);
    }
    match a {
        AdapterModel::Telegram { .. } => {
            if def.telegram is Some {
                assert(all.contains(all[0]));
            }
        },
        AdapterModel::Discord { .. } => {
            if def.discord is Some {
                assert(all.contains(all[all.len() - 1]));
            }
        },
    }
}

} // verus!
