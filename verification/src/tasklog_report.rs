//! The report on the entries of a task log per pull request. Each comes with what
//! it cost.
use crate::order::{leaders, ranked, Ranked};
use crate::tasklog::{
    group_entries, group_labels, grouped, groups_fit, label_of, labels, pr_report, show_pr_report,
    sums_up, task_sum, totals_for, CostCell, GroupBy, GroupRow, GroupStats, TaskLog,
};
use crate::text::opt_str;
use vstd::prelude::*;

verus! {

/// Groups with their costs, which come in the same order.
pub open spec fn costed(groups: Seq<GroupStats>, costs: Seq<CostCell>) -> Seq<GroupRow> {
    Seq::new(groups.len(), |i: int| GroupRow { stats: groups[i], cost: costs[i] })
}

fn attach(groups: Vec<GroupStats>, costs: Vec<CostCell>) -> (r: Vec<GroupRow>)
    requires
        groups@.len() == costs@.len(),
    ensures
        r@ == costed(groups@, costs@),
{
    let ghost expected = costed(groups@, costs@);
    let ghost all_groups = groups@;
    let ghost all_costs = costs@;
    let mut groups = groups;
    let mut costs = costs;
    let n: usize = groups.len();
    let mut backwards: Vec<GroupRow> = Vec::new();
    let mut left: usize = n;
    assert(all_groups.take(n as int) =~= all_groups);
    assert(all_costs.take(n as int) =~= all_costs);
    while left > 0
        invariant
            left <= n,
            n == expected.len(),
            n == all_groups.len() == all_costs.len(),
            expected == costed(all_groups, all_costs),
            groups@ == all_groups.take(left as int),
            costs@ == all_costs.take(left as int),
            backwards@.len() == n - left,
            forall|k: int| 0 <= k < n - left ==> #[trigger] backwards@[k] == expected[n - 1 - k],
        decreases left,
    {
        match (groups.pop(), costs.pop()) {
            (Some(stats), Some(cost)) => {
                backwards.push(GroupRow { stats, cost });
            },
            _ => {},
        }
        left -= 1;
        assert(groups@ =~= all_groups.take(left as int));
        assert(costs@ =~= all_costs.take(left as int));
    }
    let mut out: Vec<GroupRow> = Vec::new();
    let ghost reversed = backwards@;
    let mut done: usize = 0;
    assert(reversed.take(n as int) =~= reversed);
    while done < n
        invariant
            done <= n,
            n == expected.len(),
            n == reversed.len(),
            forall|k: int| 0 <= k < n ==> #[trigger] reversed[k] == expected[n - 1 - k],
            backwards@ == reversed.take(n - done),
            out@ == expected.take(done as int),
        decreases n - done,
    {
        match backwards.pop() {
            Some(row) => {
                assert(row == reversed[n - done - 1]);
                out.push(row);
            },
            None => {},
        }
        done += 1;
        assert(backwards@ =~= reversed.take(n - done));
        assert(out@ =~= expected.take(done as int));
    }
    assert(out@ =~= expected);
    out
}

/// The report per pull request, the most expensive first. `costs` holds what the
/// entries of each pull request cost, in the order of their first entries, and
/// `other_cost` what the others cost.
pub fn print_pr_summary(
    agent_name: &str,
    entries: &Vec<TaskLog>,
    since_label: Option<&str>,
    costs: Vec<CostCell>,
    other_cost: CostCell,
    total_cost: &str,
) -> (r: String)
    requires
        groups_fit(entries@, GroupBy::PullRequest),
        costs@.len() == group_labels(entries@, GroupBy::PullRequest).len(),
    ensures
        exists|groups: Seq<GroupStats>, others: GroupStats| #[trigger]
            grouped(entries@, GroupBy::PullRequest, groups, others) && r@ == pr_report(
                agent_name@,
                opt_str(since_label),
                costed(groups, costs@),
                GroupRow { stats: others, cost: other_cost },
                total_cost@,
            ),
{
    let (groups, others) = match group_entries(entries, GroupBy::PullRequest) {
        Some(g) => g,
        None => {
            return String::new();
        },
    };
    let ghost parts = groups@;
    assert(labels(parts).len() == parts.len());
    let rows = attach(groups, costs);
    let rest = GroupRow { stats: others, cost: other_cost };
    let n: usize = entries.len();
    proof {
        every_entry_is_counted(entries@, GroupBy::PullRequest, parts, others, costs@);
        ranking_keeps_the_sum(rows@);
        assert(task_sum(ranked(rows@), rows@.len() as int) + others.tasks == n);
    }
    assert(grouped(entries@, GroupBy::PullRequest, parts, others));
    show_pr_report(agent_name, since_label, rows, &rest, total_cost)
}

// ─── Sums ───────────────────────────────────────────────────────────────────

proof fn task_sum_same(a: Seq<GroupRow>, b: Seq<GroupRow>, n: int)
    requires
        forall|i: int| 0 <= i < n ==> (#[trigger] a[i]) == b[i],
    ensures
        task_sum(a, n) == task_sum(b, n),
    decreases n,
{
    if n > 0 {
        task_sum_same(a, b, n - 1);
        assert(a[n - 1] == b[n - 1]);
    }
}

proof fn task_sum_insert(s: Seq<GroupRow>, k: int, x: GroupRow)
    requires
        0 <= k <= s.len(),
    ensures
        task_sum(s.insert(k, x), s.len() as int + 1) == task_sum(s, s.len() as int) + x.stats.tasks,
    decreases s.len(),
{
    let t = s.insert(k, x);
    if k == s.len() {
        task_sum_same(t, s, s.len() as int);
    } else {
        let head = s.drop_last();
        task_sum_insert(head, k, x);
        assert(t.drop_last() =~= head.insert(k, x));
        task_sum_same(t, head.insert(k, x), s.len() as int);
        task_sum_same(s, head, s.len() - 1);
        assert(t[s.len() as int] == s.last());
    }
}

proof fn leaders_bound(s: Seq<GroupRow>, rank: int)
    ensures
        leaders(s, rank) <= s.len(),
    decreases s.len(),
{
    if s.len() > 0 && s[0].rank() > rank {
        leaders_bound(s.skip(1), rank);
    }
}

/// To rank groups keeps the number of their tasks.
pub proof fn ranking_keeps_the_sum(rows: Seq<GroupRow>)
    ensures
        ranked(rows).len() == rows.len(),
        task_sum(ranked(rows), rows.len() as int) == task_sum(rows, rows.len() as int),
    decreases rows.len(),
{
    if rows.len() > 0 {
        let rest = rows.skip(1);
        ranking_keeps_the_sum(rest);
        let k = leaders(ranked(rest), rows[0].rank()) as int;
        leaders_bound(ranked(rest), rows[0].rank());
        assert(ranked(rows) == ranked(rest).insert(k, rows[0]));
        task_sum_insert(ranked(rest), k, rows[0]);
        assert(rest.insert(0, rows[0]) =~= rows);
        task_sum_insert(rest, 0, rows[0]);
    }
}

/// The number of entries with one of the labels.
spec fn labelled(entries: Seq<TaskLog>, by: GroupBy, ls: Seq<Seq<char>>) -> nat
    decreases ls.len(),
{
    if ls.len() == 0 {
        0
    } else {
        labelled(entries, by, ls.drop_last()) + totals_for(entries, by, Some(ls.last())).tasks
    }
}

proof fn labelled_step(entries: Seq<TaskLog>, by: GroupBy, ls: Seq<Seq<char>>)
    requires
        entries.len() > 0,
        ls.no_duplicates(),
    ensures
        labelled(entries, by, ls) == labelled(entries.drop_last(), by, ls) + (match label_of(
            entries.last(),
            by,
        ) {
            Some(l) => if ls.contains(l) {
                1nat
            } else {
                0nat
            },
            None => 0nat,
        }),
    decreases ls.len(),
{
    if ls.len() > 0 {
        let head = ls.drop_last();
        labelled_step(entries, by, head);
        match label_of(entries.last(), by) {
            Some(l) => {
                if l == ls.last() {
                    assert(ls[ls.len() - 1] == l);
                    if head.contains(l) {
                        let j = choose|j: int| 0 <= j < head.len() && head[j] == l;
                        assert(ls[j] == l);
                    }
                } else if ls.contains(l) {
                    let j = choose|j: int| 0 <= j < ls.len() && ls[j] == l;
                    assert(head[j] == l);
                } else if head.contains(l) {
                    let j = choose|j: int| 0 <= j < head.len() && head[j] == l;
                    assert(ls[j] == l);
                }
            },
            None => {},
        }
    }
}

proof fn labelled_none(by: GroupBy, ls: Seq<Seq<char>>)
    ensures
        labelled(Seq::empty(), by, ls) == 0,
    decreases ls.len(),
{
    if ls.len() > 0 {
        labelled_none(by, ls.drop_last());
    }
}

proof fn labelled_all(entries: Seq<TaskLog>, by: GroupBy, ls: Seq<Seq<char>>)
    requires
        ls.no_duplicates(),
        forall|i: int|
            0 <= i < entries.len() ==> (label_of(#[trigger] entries[i], by) matches Some(l)
                ==> ls.contains(l)),
    ensures
        labelled(entries, by, ls) + totals_for(entries, by, None).tasks == entries.len(),
    decreases entries.len(),
{
    if entries.len() == 0 {
        assert(entries =~= Seq::empty());
        labelled_none(by, ls);
    } else {
        let head = entries.drop_last();
        assert forall|i: int| 0 <= i < head.len() implies (label_of(#[trigger] head[i], by) matches
            Some(l) ==> ls.contains(l)) by {
            assert(head[i] == entries[i]);
        }
        labelled_all(head, by, ls);
        labelled_step(entries, by, ls);
        assert(entries[entries.len() - 1] == entries.last());
    }
}

proof fn labels_are_listed(entries: Seq<TaskLog>, by: GroupBy)
    ensures
        group_labels(entries, by).no_duplicates(),
        forall|i: int|
            0 <= i < entries.len() ==> (label_of(#[trigger] entries[i], by) matches Some(l)
                ==> group_labels(entries, by).contains(l)),
    decreases entries.len(),
{
    if entries.len() > 0 {
        let head = entries.drop_last();
        labels_are_listed(head, by);
        let before = group_labels(head, by);
        let after = group_labels(entries, by);
        assert forall|x: Seq<char>| before.contains(x) implies after.contains(x) by {
            let j = choose|j: int| 0 <= j < before.len() && before[j] == x;
            assert(after[j] == x);
        }
        assert forall|i: int| 0 <= i < entries.len() implies (label_of(
            #[trigger] entries[i],
            by,
        ) matches Some(l) ==> after.contains(l)) by {
            if i < head.len() {
                assert(head[i] == entries[i]);
            } else {
                match label_of(entries.last(), by) {
                    Some(l) => {
                        if !before.contains(l) {
                            assert(after.last() == l);
                            assert(after[after.len() - 1] == l);
                        }
                    },
                    None => {},
                }
            }
        }
    }
}

proof fn sum_by_labels(
    entries: Seq<TaskLog>,
    by: GroupBy,
    groups: Seq<GroupStats>,
    costs: Seq<CostCell>,
    n: int,
)
    requires
        0 <= n <= groups.len(),
        forall|k: int|
            0 <= k < groups.len() ==> sums_up(
                #[trigger] groups[k],
                entries,
                by,
                Some(groups[k].label@),
            ),
    ensures
        task_sum(costed(groups, costs), n) == labelled(entries, by, labels(groups).take(n)),
    decreases n,
{
    let ls = labels(groups).take(n);
    if n > 0 {
        sum_by_labels(entries, by, groups, costs, n - 1);
        assert(ls.drop_last() =~= labels(groups).take(n - 1));
        assert(ls.last() == groups[n - 1].label@);
        assert(groups[n - 1].totals() == totals_for(entries, by, Some(groups[n - 1].label@)));
    }
}

/// Every entry is counted in one group or among the others.
pub proof fn every_entry_is_counted(
    entries: Seq<TaskLog>,
    by: GroupBy,
    groups: Seq<GroupStats>,
    others: GroupStats,
    costs: Seq<CostCell>,
)
    requires
        grouped(entries, by, groups, others),
    ensures
        task_sum(costed(groups, costs), groups.len() as int) + others.tasks == entries.len(),
{
    labels_are_listed(entries, by);
    labelled_all(entries, by, group_labels(entries, by));
    sum_by_labels(entries, by, groups, costs, groups.len() as int);
    assert(labels(groups).take(groups.len() as int) =~= labels(groups));
    assert(others.totals() == totals_for(entries, by, None));
}

} // verus!
