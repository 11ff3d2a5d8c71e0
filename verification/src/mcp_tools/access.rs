//! Who may send where, and who may read which inbox.
use super::reply::{
    json_reply, limit_of, read_limit, reply_json, require, required,
};
use crate::clock::{read_rfc3339, rfc3339_time};
use crate::config::{agent_named, find_agent, SubAgentDef, UserConfig};
use crate::json::{item_models, Items, Json, JsonModel};
use crate::text::{
    cat3, cat5, contains_spec, ends_with, ends_with_spec, index_of_is, part_occurs, same,
    split_once, split_once_spec, starts_with, starts_with_spec, texts,
};
use vstd::prelude::*;
use vstd::string::*;

verus! {

// ─── Patterns ───────────────────────────────────────────────────────────────

/// Whether a value matches a pattern, in which the first `*` stands for one or
/// more characters.
pub open spec fn star_matches(pattern: Seq<char>, value: Seq<char>) -> bool {
    match split_once_spec(pattern, '*') {
        None => pattern == value,
        Some((prefix, suffix)) => {
            &&& prefix.len() + suffix.len() < value.len()
            &&& starts_with_spec(value, prefix)
            &&& ends_with_spec(value, suffix)
        },
    }
}

/// Whether a value matches a pattern, in which the first `*` stands for one or
/// more characters.
pub fn glob_match(pattern: &str, value: &str) -> (r: bool)
    ensures
        r == star_matches(pattern@, value@),
{
    match split_once(pattern, '*') {
        None => same(pattern, value),
        Some((prefix, suffix)) => {
            let n: usize = value.unicode_len();
            let p: usize = prefix.unicode_len();
            let s: usize = suffix.unicode_len();
            p < n && s < n - p && starts_with(value, prefix) && ends_with(value, suffix)
        },
    }
}

/// A value that matches a pattern with a star is the prefix, something, and the
/// suffix.
pub proof fn star_stands_for_something(pattern: Seq<char>, value: Seq<char>)
    requires
        star_matches(pattern, value),
        split_once_spec(pattern, '*') is Some,
    ensures
        ({
            let (prefix, suffix) = split_once_spec(pattern, '*')->0;
            exists|middle: Seq<char>|
                middle.len() > 0 && value == #[trigger] (prefix + middle + suffix)
        }),
{
    let (prefix, suffix) = split_once_spec(pattern, '*')->0;
    let middle = value.subrange(prefix.len() as int, value.len() - suffix.len());
    let tail = value.skip(value.len() - suffix.len());
    assert(value =~= value.take(prefix.len() as int) + middle + tail);
    assert(value == prefix + middle + suffix);
}

/// Whether a value matches one of the patterns.
pub open spec fn any_matches(patterns: Seq<Seq<char>>, value: Seq<char>) -> bool {
    exists|i: int| 0 <= i < patterns.len() && star_matches(#[trigger] patterns[i], value)
}

/// Whether a value matches one of the patterns.
pub fn matches_any(patterns: &Vec<String>, value: &str) -> (r: bool)
    ensures
        r == any_matches(texts(patterns@), value@),
{
    let ghost all = texts(patterns@);
    let mut i: usize = 0;
    while i < patterns.len()
        invariant
            i <= patterns@.len(),
            all == texts(patterns@),
            forall|j: int| 0 <= j < i ==> !star_matches(#[trigger] all[j], value@),
        decreases patterns@.len() - i,
    {
        assert(all[i as int] == patterns@[i as int]@);
        if glob_match(&patterns[i], value) {
            return true;
        }
        i += 1;
    }
    false
}

// ─── Sending ────────────────────────────────────────────────────────────────

/// Whether an allow-list lets a value pass. Without a list everything passes.
pub open spec fn allows(list: Option<Vec<String>>, value: Seq<char>) -> bool {
    match list {
        Some(patterns) => any_matches(texts(patterns@), value),
        None => true,
    }
}

fn list_allows(list: &Option<Vec<String>>, value: &str) -> (r: bool)
    ensures
        r == allows(*list, value@),
{
    match list {
        Some(patterns) => matches_any(patterns, value),
        None => true,
    }
}

/// The definition of an agent in a configuration that may be missing.
pub open spec fn definition_of(
    cfg: Option<&UserConfig>,
    agent: Seq<char>,
) -> Option<SubAgentDef> {
    match cfg {
        Some(c) => agent_named(c.agents@, agent),
        None => None,
    }
}

/// The complaint about a target that an agent may not send to.
pub open spec fn send_refusal(
    cfg: Option<&UserConfig>,
    agent: Seq<char>,
    target: Seq<char>,
) -> Option<Seq<char>> {
    match definition_of(cfg, agent) {
        None => None,
        Some(sub) => if !allows(sub.publish, target) {
            Some("publish to '"@ + target + "' not allowed by config"@)
        } else if !allows(sub.can_message, target) {
            Some(
                "agent '"@ + agent + "' cannot message '"@ + target
                    + "' — not in can_message allow-list"@,
            )
        } else {
            None
        },
    }
}

/// Whether an agent may send to a target: both of its allow-lists must let it
/// pass.
pub fn check_target(cfg: Option<&UserConfig>, agent_name: &str, target: &str) -> (r: Result<
    (),
    String,
>)
    ensures
        match r {
            Ok(_) => send_refusal(cfg, agent_name@, target@) is None,
            Err(e) => send_refusal(cfg, agent_name@, target@) == Some(e@),
        },
{
    let sub = match cfg {
        Some(c) => match find_agent(&c.agents, agent_name) {
            Some(sub) => sub,
            None => {
                return Ok(());
            },
        },
        None => {
            return Ok(());
        },
    };
    if !list_allows(&sub.publish, target) {
        return Err(cat3("publish to '", target, "' not allowed by config"));
    }
    if !list_allows(&sub.can_message, target) {
        return Err(
            cat5(
                "agent '",
                agent_name,
                "' cannot message '",
                target,
                "' — not in can_message allow-list",
            ),
        );
    }
    Ok(())
}

// ─── Inboxes ────────────────────────────────────────────────────────────────

/// Whether an agent may read an inbox. Its own inbox and its replies it may
/// always read. A sub-agent may read what its list names and nothing else; any
/// other agent may read what the list of the configuration names, or everything
/// where there is no such list.
pub open spec fn may_read(
    agent: Seq<char>,
    inbox: Seq<char>,
    cfg: Option<&UserConfig>,
) -> bool {
    ||| inbox == agent
    ||| inbox == "replies/"@ + agent
    ||| match cfg {
        None => true,
        Some(c) => match agent_named(c.agents@, agent) {
            Some(sub) => match sub.inbox_read {
                Some(patterns) => any_matches(texts(patterns@), inbox),
                None => false,
            },
            None => match c.inbox_acl {
                Some(patterns) => any_matches(texts(patterns@), inbox),
                None => true,
            },
        },
    }
}

/// Whether an agent may read an inbox.
pub fn inbox_access_allowed(
    agent_name: &str,
    inbox_name: &str,
    user_config: Option<&UserConfig>,
) -> (r: bool)
    ensures
        r == may_read(agent_name@, inbox_name@, user_config),
{
    if same(inbox_name, agent_name) {
        return true;
    }
    if same(inbox_name, &crate::text::cat("replies/", agent_name)) {
        return true;
    }
    match user_config {
        None => true,
        Some(c) => match find_agent(&c.agents, agent_name) {
            Some(sub) => match &sub.inbox_read {
                Some(patterns) => matches_any(patterns, inbox_name),
                None => false,
            },
            None => match &c.inbox_acl {
                Some(patterns) => matches_any(patterns, inbox_name),
                None => true,
            },
        },
    }
}

/// An agent may always read its own inbox and its replies.
pub proof fn own_inbox_is_readable(agent: Seq<char>, cfg: Option<&UserConfig>)
    ensures
        may_read(agent, agent, cfg),
        may_read(agent, "replies/"@ + agent, cfg),
{
}

/// A sub-agent without a list may read its own inbox and its replies only.
pub proof fn unlisted_inbox_is_closed(
    agent: Seq<char>,
    inbox: Seq<char>,
    cfg: &UserConfig,
    sub: SubAgentDef,
)
    requires
        agent_named(cfg.agents@, agent) == Some(sub),
        sub.inbox_read is None,
        inbox != agent,
        inbox != "replies/"@ + agent,
    ensures
        !may_read(agent, inbox, Some(cfg)),
{
}

/// The complaint about an inbox that an agent may not read.
pub open spec fn inbox_denied(agent: Seq<char>, inbox: Seq<char>) -> Seq<char> {
    "inbox access denied: agent \""@ + agent + "\" is not in allow-list for inbox \""@ + inbox
        + "\""@
}

/// The complaint about an inbox that an agent may not read.
pub fn inbox_denial(agent_name: &str, inbox: &str) -> (r: String)
    ensures
        r@ == inbox_denied(agent_name@, inbox@),
{
    cat5(
        "inbox access denied: agent \"",
        agent_name,
        "\" is not in allow-list for inbox \"",
        inbox,
        "\"",
    )
}

/// The entries of the inboxes that an agent may read, in order.
pub open spec fn readable_inboxes(
    all: Seq<JsonModel>,
    agent: Seq<char>,
    cfg: Option<&UserConfig>,
) -> Seq<JsonModel>
    decreases all.len(),
{
    if all.len() == 0 {
        Seq::empty()
    } else {
        let head = readable_inboxes(all.drop_last(), agent, cfg);
        match all.last().text_field("inbox"@) {
            Some(name) => if may_read(agent, name, cfg) {
                head.push(all.last())
            } else {
                head
            },
            None => head,
        }
    }
}

/// The reply with the inboxes that an agent may read. `all` holds an entry for
/// every inbox.
pub fn call_list_inboxes(
    all: &Vec<Json>,
    agent_name: &str,
    user_config: Option<&UserConfig>,
) -> (r: Json)
    ensures
        r@ == json_reply(
            JsonModel::List(readable_inboxes(item_models(all@), agent_name@, user_config)),
        ),
{
    let ghost models = item_models(all@);
    let mut out = Items::new();
    let mut i: usize = 0;
    assert(out@ =~= readable_inboxes(models.take(0), agent_name@, user_config));
    while i < all.len()
        invariant
            i <= all@.len(),
            models == item_models(all@),
            out@ == readable_inboxes(models.take(i as int), agent_name@, user_config),
        decreases all@.len() - i,
    {
        assert(models.take(i + 1).drop_last() =~= models.take(i as int));
        assert(models.take(i + 1).last() == all@[i as int]@);
        match all[i].text_field("inbox") {
            Some(name) => {
                if inbox_access_allowed(agent_name, name, user_config) {
                    out.put(all[i].copy());
                }
            },
            None => {},
        }
        i += 1;
    }
    assert(models.take(i as int) =~= models);
    reply_json(&out.list())
}

/// A request to read an inbox.
#[derive(Debug, PartialEq)]
pub struct ReadInbox {
    pub inbox: String,
    pub limit: u64,
    /// Only messages after this instant.
    pub since: Option<(i64, u32)>,
}

/// The instant that an argument names, where it names one.
pub open spec fn since_of(args: JsonModel) -> Option<(i64, u32)> {
    match args.text_field("since"@) {
        Some(t) => rfc3339_time(t),
        None => None,
    }
}

/// The request to read an inbox that the arguments make. `since` is the instant
/// that they name, where they name one.
pub fn plan_read_inbox(
    args: &Json,
    agent_name: &str,
    user_config: Option<&UserConfig>,
    since: Option<(i64, u32)>,
) -> (r: Result<ReadInbox, String>)
    ensures
        match required(args@, "inbox"@) {
            Err(e) => r matches Err(m) && m@ == e,
            Ok(inbox) => if may_read(agent_name@, inbox, user_config) {
                r matches Ok(q) && q.inbox@ == inbox && q.limit == limit_of(args@, "limit"@, 50)
                    && q.since == since
            } else {
                r matches Err(m) && m@ == inbox_denied(agent_name@, inbox)
            },
        },
{
    let inbox = match require(args, "inbox") {
        Ok(t) => t,
        Err(e) => {
            return Err(e);
        },
    };
    if !inbox_access_allowed(agent_name, inbox, user_config) {
        return Err(inbox_denial(agent_name, inbox));
    }
    Ok(
        ReadInbox {
            inbox: String::from_str(inbox),
            limit: read_limit(args, "limit", 50),
            since,
        },
    )
}

/// Whether `r` is the request to read an inbox that the arguments make, or the complaint.
pub open spec fn reads_inbox(
    args: JsonModel,
    agent: Seq<char>,
    cfg: Option<&UserConfig>,
    r: Result<ReadInbox, String>,
) -> bool {
    match required(args, "inbox"@) {
        Err(e) => r matches Err(m) && m@ == e,
        Ok(inbox) => if may_read(agent, inbox, cfg) {
            r matches Ok(q) && q.inbox@ == inbox && q.limit == limit_of(args, "limit"@, 50)
                && q.since == since_of(args)
        } else {
            r matches Err(m) && m@ == inbox_denied(agent, inbox)
        },
    }
}

/// The request to read an inbox that the arguments make.
pub fn call_read_inbox(args: &Json, agent_name: &str, user_config: Option<&UserConfig>) -> (r:
    Result<ReadInbox, String>)
    ensures
        reads_inbox(args@, agent_name@, user_config, r),
{
    let since = match args.text_field("since") {
        Some(t) => read_rfc3339(t),
        None => None,
    };
    plan_read_inbox(args, agent_name, user_config, since)
}

/// A request to search inboxes: one inbox, or all.
#[derive(Debug, PartialEq)]
pub struct SearchInbox {
    pub inbox: Option<String>,
    pub query: String,
    pub limit: u64,
}

/// The inbox that a search goes to. A search of all inboxes goes to the agent's
/// own inbox where its access is restricted.
pub open spec fn search_scope(
    inbox: Option<Seq<char>>,
    agent: Seq<char>,
    cfg: Option<&UserConfig>,
) -> Option<Seq<char>> {
    match inbox {
        Some(i) => Some(i),
        None => match cfg {
            Some(c) => if agent_named(c.agents@, agent) is Some || c.inbox_acl is Some {
                Some(agent)
            } else {
                None
            },
            None => None,
        },
    }
}

/// Whether `r` is the search that the arguments ask for, or the complaint.
pub open spec fn searches_inbox(
    args: JsonModel,
    agent: Seq<char>,
    cfg: Option<&UserConfig>,
    r: Result<SearchInbox, String>,
) -> bool {
    match required(args, "query"@) {
        Err(e) => r matches Err(m) && m@ == e,
        Ok(query) => {
            let inbox = args.text_field("inbox"@);
            if inbox matches Some(i) && !may_read(agent, i, cfg) {
                r matches Err(m) && m@ == inbox_denied(agent, inbox->0)
            } else {
                r matches Ok(q) && q.query@ == query && q.limit == limit_of(
                    args,
                    "limit"@,
                    50,
                ) && crate::text::opt_text(q.inbox) == search_scope(
                    inbox,
                    agent,
                    cfg,
                )
            }
        },
    }
}

/// The request to search inboxes that the arguments make.
pub fn call_search_inbox(
    args: &Json,
    agent_name: &str,
    user_config: Option<&UserConfig>,
) -> (r: Result<SearchInbox, String>)
    ensures
        searches_inbox(args@, agent_name@, user_config, r),
{
    let query = match require(args, "query") {
        Ok(t) => t,
        Err(e) => {
            return Err(e);
        },
    };
    let limit: u64 = read_limit(args, "limit", 50);
    let inbox: Option<String> = match args.text_field("inbox") {
        Some(name) => {
            if !inbox_access_allowed(agent_name, name, user_config) {
                return Err(inbox_denial(agent_name, name));
            }
            Some(String::from_str(name))
        },
        None => match user_config {
            Some(c) => {
                if find_agent(&c.agents, agent_name).is_some() || c.inbox_acl.is_some() {
                    Some(String::from_str(agent_name))
                } else {
                    None
                }
            },
            None => None,
        },
    };
    Ok(SearchInbox { inbox, query: String::from_str(query), limit })
}

/// A search never reaches an inbox that the agent may not read, where its access
/// is restricted.
pub proof fn search_stays_within_access(
    inbox: Option<Seq<char>>,
    agent: Seq<char>,
    cfg: &UserConfig,
)
    requires
        inbox matches Some(i) ==> may_read(agent, i, Some(cfg)),
        agent_named(cfg.agents@, agent) is Some || cfg.inbox_acl is Some,
    ensures
        search_scope(inbox, agent, Some(cfg)) matches Some(i) && may_read(agent, i, Some(cfg)),
{
}

// ─── What the lists are for ─────────────────────────────────────────────────

/// A pattern without a star matches itself alone.
pub proof fn pattern_without_star_is_literal(pattern: Seq<char>, value: Seq<char>)
    requires
        !pattern.contains('*'),
    ensures
        star_matches(pattern, value) <==> pattern == value,
{
    assert forall|j: int| 0 <= j < pattern.len() implies pattern[j] != '*' by {
        assert(pattern.contains(pattern[j]));
    }
    index_of_is(pattern, '*', pattern.len() as int);
}

/// A star stands for any text that is not empty, between what stands before and behind
/// it.
pub proof fn star_stands_for_any_text(prefix: Seq<char>, suffix: Seq<char>, value: Seq<char>)
    requires
        !prefix.contains('*'),
    ensures
        star_matches(prefix + "*"@ + suffix, value) <==> exists|middle: Seq<char>|
            middle.len() > 0 && value == #[trigger] (prefix + middle + suffix),
{
    reveal_strlit("*");
    let pattern = prefix + "*"@ + suffix;
    let n = prefix.len() as int;
    assert forall|j: int| 0 <= j < n implies pattern[j] != '*' by {
        assert(pattern[j] == prefix[j]);
        assert(prefix.contains(prefix[j]));
    }
    assert(pattern[n] == '*');
    index_of_is(pattern, '*', n);
    assert(pattern.take(n) =~= prefix);
    assert(pattern.skip(n + 1) =~= suffix);
    if star_matches(pattern, value) {
        star_stands_for_something(pattern, value);
    }
    if exists|middle: Seq<char>| middle.len() > 0 && value == #[trigger] (prefix + middle + suffix) {
        let middle = choose|middle: Seq<char>|
            middle.len() > 0 && value == #[trigger] (prefix + middle + suffix);
        assert(value.take(n) =~= prefix);
        assert(value.skip(value.len() - suffix.len()) =~= suffix);
    }
}

/// Without a list all is allowed; with one exactly what one of its patterns matches.
pub proof fn lists_allow_what_they_match(list: Option<Vec<String>>, value: Seq<char>)
    ensures
        list is None ==> allows(list, value),
        list matches Some(v) ==> (allows(list, value) <==> exists|i: int|
            0 <= i < v@.len() && star_matches((#[trigger] v@[i])@, value)),
{
    if let Some(v) = list {
        if allows(list, value) {
            let i = choose|i: int|
                0 <= i < texts(v@).len() && star_matches(#[trigger] texts(v@)[i], value);
            assert(star_matches(v@[i]@, value));
        }
        if exists|i: int| 0 <= i < v@.len() && star_matches((#[trigger] v@[i])@, value) {
            let i = choose|i: int| 0 <= i < v@.len() && star_matches((#[trigger] v@[i])@, value);
            assert(star_matches(texts(v@)[i], value));
        }
    }
}

/// A sub-agent may send where both of its lists allow it; an agent that the configuration
/// does not define may send anywhere.
pub proof fn sending_needs_both_lists(cfg: &UserConfig, agent: Seq<char>, target: Seq<char>)
    ensures
        match agent_named(cfg.agents@, agent) {
            Some(d) => send_refusal(Some(cfg), agent, target) is None <==> allows(d.publish, target)
                && allows(d.can_message, target),
            None => send_refusal(Some(cfg), agent, target) is None,
        },
        send_refusal(None, agent, target) is None,
        send_refusal(Some(cfg), agent, target) matches Some(e) ==> contains_spec(e, target),
{
    if let Some(d) = agent_named(cfg.agents@, agent) {
        let a = "publish to '"@;
        part_occurs(a, target, "' not allowed by config"@);
        let b = "agent '"@ + agent + "' cannot message '"@;
        part_occurs(b, target, "' — not in can_message allow-list"@);
    }
}

/// An agent reads its own inbox and that of its replies. Others are open to a sub-agent
/// by its list alone, and to other agents by the list of the workspace, where there is
/// one.
pub proof fn inboxes_open_by_the_right_list(agent: Seq<char>, inbox: Seq<char>, cfg: &UserConfig)
    requires
        inbox != agent,
        inbox != "replies/"@ + agent,
    ensures
        may_read(agent, inbox, None),
        match agent_named(cfg.agents@, agent) {
            Some(d) => may_read(agent, inbox, Some(cfg)) <==> d.inbox_read is Some && allows(
                d.inbox_read,
                inbox,
            ),
            None => may_read(agent, inbox, Some(cfg)) <==> allows(cfg.inbox_acl, inbox),
        },
{
}

/// A request to read is granted for an inbox that the agent may read, and for that inbox;
/// no other request is.
pub proof fn only_readable_inboxes_are_read(
    args: JsonModel,
    agent: Seq<char>,
    cfg: Option<&UserConfig>,
    r: Result<ReadInbox, String>,
)
    requires
        reads_inbox(args, agent, cfg, r),
    ensures
        r is Ok <==> (args.text_field("inbox"@) matches Some(i) && may_read(agent, i, cfg)),
        r matches Ok(q) ==> Some(q.inbox@) == args.text_field("inbox"@) && may_read(
            agent,
            q.inbox@,
            cfg,
        ) && (args.u64_field("limit"@) is None ==> q.limit == 50) && (args.u64_field(
            "limit"@,
        ) matches Some(n) ==> q.limit == n) && (args.text_field("since"@) is None ==> q.since is None)
            && (args.text_field("since"@) matches Some(t) ==> q.since == rfc3339_time(t)),
        (r matches Err(e) && args.text_field("inbox"@) is Some) ==> contains_spec(
            r->Err_0@,
            args.text_field("inbox"@)->0,
        ),
{
    if let Some(inbox) = args.text_field("inbox"@) {
        let a = "inbox access denied: agent \""@ + agent + "\" is not in allow-list for inbox \""@;
        part_occurs(a, inbox, "\""@);
    }
}

/// A search of one inbox is granted where the agent may read it, and searches that inbox;
/// without an inbox, an agent with a list searches its own alone.
pub proof fn searches_stay_in_readable_inboxes(
    args: JsonModel,
    agent: Seq<char>,
    cfg: Option<&UserConfig>,
    r: Result<SearchInbox, String>,
)
    requires
        searches_inbox(args, agent, cfg, r),
    ensures
        r is Ok <==> args.text_field("query"@) is Some && (args.text_field("inbox"@) matches Some(i)
            ==> may_read(agent, i, cfg)),
        r matches Ok(q) ==> Some(q.query@) == args.text_field("query"@) && (args.text_field(
            "inbox"@,
        ) is Some ==> crate::text::opt_text(q.inbox) == args.text_field("inbox"@)) && (args.text_field(
            "inbox"@,
        ) is None && (cfg matches Some(c) && (agent_named(c.agents@, agent) is Some
            || c.inbox_acl is Some)) ==> crate::text::opt_text(q.inbox) == Some(agent)) && (
        args.text_field("inbox"@) is None && cfg is None ==> q.inbox is None),
{
}

/// An inbox is listed exactly where it is there and its name is one that the agent may
/// read; the order stays.
pub proof fn listed_inboxes_are_readable(
    all: Seq<JsonModel>,
    agent: Seq<char>,
    cfg: Option<&UserConfig>,
    v: JsonModel,
)
    ensures
        readable_inboxes(all, agent, cfg).contains(v) <==> all.contains(v) && (v.text_field(
            "inbox"@,
        ) matches Some(name) && may_read(agent, name, cfg)),
    decreases all.len(),
{
    if all.len() > 0 {
        let front = all.drop_last();
        let head = readable_inboxes(front, agent, cfg);
        let out = readable_inboxes(all, agent, cfg);
        listed_inboxes_are_readable(front, agent, cfg, v);
        if out.contains(v) {
            let k = choose|k: int| 0 <= k < out.len() && out[k] == v;
            if k < head.len() {
                assert(head[k] == v);
                let j = choose|j: int| 0 <= j < front.len() && front[j] == v;
                assert(all[j] == v);
            } else {
                assert(all[all.len() - 1] == v);
            }
        }
        if all.contains(v) && (v.text_field("inbox"@) matches Some(name) && may_read(
            agent,
            name,
            cfg,
        )) {
            let j = choose|j: int| 0 <= j < all.len() && all[j] == v;
            if j < front.len() {
                assert(front[j] == v);
                let k = choose|k: int| 0 <= k < head.len() && head[k] == v;
                assert(out[k] == v);
            } else {
                assert(out[out.len() - 1] == v);
            }
        }
    }
}

} // verus!
