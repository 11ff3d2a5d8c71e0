//! What a change of configuration asks to be restarted.
use crate::config::{SubAgentDef, UserConfig};
use crate::same::{opt_view, same_lists, same_options, views};
use crate::text::{same, texts};
use vstd::prelude::*;

verus! {

/// What differs between two configurations.
#[derive(Debug, PartialEq)]
pub struct ConfigChangeset {
    /// The adapters have to be restarted.
    pub adapters_changed: bool,
    /// The schedules have to be restarted.
    pub schedules_changed: bool,
    /// The sub-agents have to be restarted.
    pub sub_agents_changed: bool,
    /// The system prompt differs, and nothing that has to be restarted.
    pub system_prompt_only: bool,
    /// The sub-agents that are gone, in order.
    pub removed_sub_agents: Vec<String>,
}

impl Default for ConfigChangeset {
    /// Nothing differs.
    fn default() -> (r: ConfigChangeset)
        ensures
            !r.adapters_changed && !r.schedules_changed && !r.sub_agents_changed
                && !r.system_prompt_only,
            r.removed_sub_agents@.len() == 0,
    {
        ConfigChangeset {
            adapters_changed: false,
            schedules_changed: false,
            sub_agents_changed: false,
            system_prompt_only: false,
            removed_sub_agents: Vec::new(),
        }
    }
}

/// Whether one of `agents` has the given name.
pub open spec fn has_agent(agents: Seq<SubAgentDef>, name: Seq<char>) -> bool {
    exists|i: int| 0 <= i < agents.len() && (#[trigger] agents[i]).name@ == name
}

/// The names of the agents of `before` that are not in `after`, in order.
pub open spec fn removed_names(before: Seq<SubAgentDef>, after: Seq<SubAgentDef>) -> Seq<Seq<char>>
    decreases before.len(),
{
    if before.len() == 0 {
        Seq::empty()
    } else {
        let head = removed_names(before.drop_last(), after);
        if has_agent(after, before.last().name@) {
            head
        } else {
            head.push(before.last().name@)
        }
    }
}

fn lists_agent(agents: &Vec<SubAgentDef>, name: &str) -> (r: bool)
    ensures
        r == has_agent(agents@, name@),
{
    let mut i: usize = 0;
    while i < agents.len()
        invariant
            i <= agents@.len(),
            forall|j: int| 0 <= j < i ==> (#[trigger] agents@[j]).name@ != name@,
        decreases agents@.len() - i,
    {
        if same(&agents[i].name, name) {
            return true;
        }
        i += 1;
    }
    false
}

/// Whether `r` tells what changed from one configuration to another.
pub open spec fn classifies(
    before: UserConfig,
    after: UserConfig,
    r: ConfigChangeset,
) -> bool {
    &&& r.adapters_changed == (opt_view(before.telegram) != opt_view(after.telegram) || opt_view(
        before.discord,
    ) != opt_view(after.discord))
    &&& r.schedules_changed == (views(before.schedules@) != views(after.schedules@))
    &&& r.sub_agents_changed == (views(before.agents@) != views(after.agents@))
    &&& r.system_prompt_only == (before.system_prompt@ != after.system_prompt@
        && !r.adapters_changed && !r.schedules_changed && !r.sub_agents_changed)
    &&& texts(r.removed_sub_agents@) == removed_names(before.agents@, after.agents@)
}

/// What differs between two configurations.
pub fn classify_config_change(before: &UserConfig, after: &UserConfig) -> (r: ConfigChangeset)
    ensures
        classifies(*before, *after, r),
{
    let adapters_changed = !same_options(&before.telegram, &after.telegram) || !same_options(
        &before.discord,
        &after.discord,
    );
    let schedules_changed = !same_lists(&before.schedules, &after.schedules);
    let sub_agents_changed = !same_lists(&before.agents, &after.agents);
    let system_prompt_changed = !same(&before.system_prompt, &after.system_prompt);
    let system_prompt_only = system_prompt_changed && !adapters_changed && !schedules_changed
        && !sub_agents_changed;
    let ghost all = before.agents@;
    let mut removed: Vec<String> = Vec::new();
    let mut i: usize = 0;
    assert(texts(removed@) =~= removed_names(all.take(0), after.agents@));
    while i < before.agents.len()
        invariant
            i <= before.agents@.len(),
            all == before.agents@,
            texts(removed@) == removed_names(all.take(i as int), after.agents@),
        decreases before.agents@.len() - i,
    {
        let ghost so_far = texts(removed@);
        assert(all.take(i + 1).drop_last() =~= all.take(i as int));
        assert(all.take(i + 1).last() == all[i as int]);
        if !lists_agent(&after.agents, &before.agents[i].name) {
            removed.push(before.agents[i].name.clone());
            assert(texts(removed@) =~= so_far.push(all[i as int].name@));
        }
        i += 1;
    }
    assert(all.take(i as int) =~= all);
    ConfigChangeset {
        adapters_changed,
        schedules_changed,
        sub_agents_changed,
        system_prompt_only,
        removed_sub_agents: removed,
    }
}

/// A configuration does not differ from itself.
pub proof fn no_agent_is_removed_from_itself(agents: Seq<SubAgentDef>, n: int)
    requires
        0 <= n <= agents.len(),
    ensures
        removed_names(agents.take(n), agents) == Seq::<Seq<char>>::empty(),
    decreases n,
{
    if n > 0 {
        let t = agents.take(n);
        assert(t.drop_last() =~= agents.take(n - 1));
        no_agent_is_removed_from_itself(agents, n - 1);
        assert(t.last() == agents[n - 1]);
        assert(has_agent(agents, agents[n - 1].name@));
    }
}

/// An agent is named as removed exactly where it was there and is gone.
pub proof fn removed_names_are_the_gone_agents(
    before: Seq<SubAgentDef>,
    after: Seq<SubAgentDef>,
    name: Seq<char>,
)
    ensures
        removed_names(before, after).contains(name) <==> has_agent(before, name) && !has_agent(
            after,
            name,
        ),
    decreases before.len(),
{
    if before.len() > 0 {
        let t = before.drop_last();
        let head = removed_names(t, after);
        removed_names_are_the_gone_agents(t, after, name);
        if has_agent(t, name) {
            let i = choose|i: int| 0 <= i < t.len() && (#[trigger] t[i]).name@ == name;
            assert(before[i].name@ == name);
        }
        if has_agent(before, name) {
            let i = choose|i: int| 0 <= i < before.len() && (#[trigger] before[i]).name@ == name;
            if i < t.len() {
                assert(t[i].name@ == name);
            }
        }
        if !has_agent(after, before.last().name@) {
            let all = head.push(before.last().name@);
            if head.contains(name) {
                let i = choose|i: int| 0 <= i < head.len() && head[i] == name;
                assert(all[i] == name);
            }
            if all.contains(name) {
                let i = choose|i: int| 0 <= i < all.len() && all[i] == name;
                if i < head.len() {
                    assert(head[i] == name);
                } else {
                    assert(before[before.len() - 1].name@ == name);
                }
            }
            if before.last().name@ == name {
                assert(all[head.len() as int] == name);
                assert(before[before.len() - 1].name@ == name);
            }
        }
    }
}

/// Between equal configurations nothing has changed.
pub proof fn nothing_changes_by_itself(before: UserConfig, after: UserConfig, r: ConfigChangeset)
    requires
        classifies(before, after, r),
        before == after,
    ensures
        !r.adapters_changed && !r.schedules_changed && !r.sub_agents_changed && !r.system_prompt_only,
        r.removed_sub_agents@.len() == 0,
{
    no_agent_is_removed_from_itself(before.agents@, before.agents@.len() as int);
    assert(before.agents@.take(before.agents@.len() as int) =~= before.agents@);
    assert(texts(r.removed_sub_agents@).len() == r.removed_sub_agents@.len());
}

/// Each kind of change is told for itself: the adapters where one of the two differs, the
/// schedules where they differ, the sub-agents where they differ; and the prompt alone
/// where it differs and nothing else does.
pub proof fn each_change_is_told(before: UserConfig, after: UserConfig, r: ConfigChangeset)
    requires
        classifies(before, after, r),
    ensures
        opt_view(before.telegram) != opt_view(after.telegram) ==> r.adapters_changed,
        opt_view(before.discord) != opt_view(after.discord) ==> r.adapters_changed,
        r.adapters_changed ==> opt_view(before.telegram) != opt_view(after.telegram) || opt_view(
            before.discord,
        ) != opt_view(after.discord),
        r.schedules_changed <==> views(before.schedules@) != views(after.schedules@),
        r.sub_agents_changed <==> views(before.agents@) != views(after.agents@),
        r.system_prompt_only ==> before.system_prompt@ != after.system_prompt@
            && !r.adapters_changed && !r.schedules_changed && !r.sub_agents_changed,
        before.system_prompt@ != after.system_prompt@ && views(before.schedules@) == views(
            after.schedules@,
        ) && views(before.agents@) == views(after.agents@) && opt_view(before.telegram) == opt_view(
            after.telegram,
        ) && opt_view(before.discord) == opt_view(after.discord) ==> r.system_prompt_only,
        forall|name: Seq<char>| #[trigger]
            texts(r.removed_sub_agents@).contains(name) ==> has_agent(before.agents@, name)
                && !has_agent(after.agents@, name),
{
    assert forall|name: Seq<char>| #[trigger]
        texts(r.removed_sub_agents@).contains(name) implies has_agent(before.agents@, name)
        && !has_agent(after.agents@, name) by {
        removed_names_are_the_gone_agents(before.agents@, after.agents@, name);
    }
}

} // verus!
