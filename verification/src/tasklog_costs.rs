//! The report on the costs of the entries of a task log, per source. Each source
//! comes with what it cost.
use crate::decimal::{decimal, show_u64, show_usize};
use crate::order::{ranked, ranked_is_descending, sort_by_rank, Ranked};
use crate::tasklog::{
    grand_totals, group_labels, groups_are_those_of_the_entries, label_of,
    members_have_the_label, members_of, report_head, show_head, CostCell, GroupBy, TaskLog,
};
use crate::text::{
    both_parts_occur, cat3, contains_spec, opt_str, pad_left, pad_left_spec, pad_right,
    pad_right_spec, padding_keeps_the_text, same, starts_with_spec,
};
use vstd::prelude::*;
use vstd::string::*;

verus! {

/// A source of entries, with the positions of its entries.
#[derive(Debug, Clone, PartialEq)]
pub struct SourceStats {
    pub label: String,
    pub members: Vec<usize>,
}

impl SourceStats {
    /// The positions of the entries.
    pub open spec fn positions(self) -> Seq<int> {
        Seq::new(self.members@.len(), |i: int| self.members@[i] as int)
    }
}

/// The labels of sources.
pub open spec fn source_labels(v: Seq<SourceStats>) -> Seq<Seq<char>> {
    Seq::new(v.len(), |i: int| v[i].label@)
}

/// Whether `sources` are the sources of the entries, in the order of their first
/// entry, each with the positions of its entries.
pub open spec fn sources_of(entries: Seq<TaskLog>, sources: Seq<SourceStats>) -> bool {
    &&& source_labels(sources) == group_labels(entries, GroupBy::Source)
    &&& forall|k: int|
        0 <= k < sources.len() ==> (#[trigger] sources[k]).positions() == members_of(
            entries,
            GroupBy::Source,
            Some(sources[k].label@),
        )
}

fn find_source(sources: &Vec<SourceStats>, label: &str) -> (r: Option<usize>)
    ensures
        match r {
            Some(i) => i < sources@.len() && sources@[i as int].label@ == label@ && source_labels(
                sources@,
            ).contains(label@),
            None => !source_labels(sources@).contains(label@),
        },
{
    let mut i: usize = 0;
    while i < sources.len()
        invariant
            i <= sources@.len(),
            forall|j: int| 0 <= j < i ==> (#[trigger] sources@[j]).label@ != label@,
        decreases sources@.len() - i,
    {
        if same(&sources[i].label, label) {
            assert(source_labels(sources@)[i as int] == label@);
            return Some(i);
        }
        i += 1;
    }
    let ghost all = source_labels(sources@);
    assert forall|j: int| 0 <= j < all.len() implies all[j] != label@ by {}
    None
}

/// The sources of the entries, in the order of their first entry.
pub fn count_sources(entries: &Vec<TaskLog>) -> (r: Vec<SourceStats>)
    ensures
        sources_of(entries@, r@),
        source_labels(r@).no_duplicates(),
{
    let ghost all = entries@;
    let ghost by = GroupBy::Source;
    let mut sources: Vec<SourceStats> = Vec::new();
    let mut i: usize = 0;
    assert(source_labels(sources@) =~= group_labels(all.take(0), by));
    while i < entries.len()
        invariant
            i <= entries@.len(),
            all == entries@,
            by == GroupBy::Source,
            sources_of(all.take(i as int), sources@),
            source_labels(sources@).no_duplicates(),
            forall|l: Seq<char>| !(#[trigger] source_labels(sources@).contains(l)) ==> members_of(
                all.take(i as int),
                by,
                Some(l),
            ) == Seq::<int>::empty(),
        decreases entries@.len() - i,
    {
        let e = &entries[i];
        let ghost head = all.take(i as int);
        let ghost next = all.take(i + 1);
        let ghost before = sources@;
        proof {
            assert(next.drop_last() =~= head);
            assert(next.last() == *e);
            assert(label_of(*e, by) == Some(e.source@));
        }
        let k: usize = match find_source(&sources, &e.source) {
            Some(k) => k,
            None => {
                let fresh = SourceStats { label: e.source.clone(), members: Vec::new() };
                assert(fresh.positions() =~= Seq::<int>::empty());
                sources.push(fresh);
                assert(source_labels(sources@) =~= source_labels(before).push(e.source@));
                sources.len() - 1
            },
        };
        let ghost held = sources@;
        assert(held[k as int].positions() == members_of(head, by, Some(e.source@)));
        let mut mine = sources.remove(k);
        let ghost places = mine.positions();
        mine.members.push(i);
        assert(mine.positions() =~= places.push(i as int));
        sources.insert(k, mine);
        proof {
            assert(sources@ =~= held.update(k as int, mine));
            assert(source_labels(sources@) =~= source_labels(held));
            assert forall|j: int| 0 <= j < sources@.len() implies (
            #[trigger] sources@[j]).positions() == members_of(
                next,
                by,
                Some(sources@[j].label@),
            ) by {
                if j != k {
                    assert(sources@[j] == held[j]);
                    assert(source_labels(held)[j] != source_labels(held)[k as int]);
                    assert(held[j].positions() == members_of(head, by, Some(held[j].label@)));
                }
            }
            assert forall|x: Seq<char>| !(#[trigger] source_labels(sources@).contains(
                x,
            )) implies members_of(next, by, Some(x)) == Seq::<int>::empty() by {
                assert(source_labels(held)[k as int] == e.source@);
                if source_labels(before).contains(x) {
                    let j = choose|j: int|
                        0 <= j < source_labels(before).len() && source_labels(before)[j] == x;
                    assert(source_labels(held)[j] == x);
                }
            }
        }
        i += 1;
    }
    assert(all.take(i as int) =~= all);
    sources
}

/// The turns of all entries. None where they do not fit in 32 bits.
pub fn sum_turns(entries: &Vec<TaskLog>) -> (r: Option<u32>)
    ensures
        match r {
            Some(n) => grand_totals(entries@).turns == n,
            None => grand_totals(entries@).turns > u32::MAX,
        },
{
    let mut sum: u32 = 0;
    let mut i: usize = 0;
    assert(entries@.take(0) =~= Seq::empty());
    while i < entries.len()
        invariant
            i <= entries@.len(),
            sum == grand_totals(entries@.take(i as int)).turns,
        decreases entries@.len() - i,
    {
        assert(entries@.take(i + 1).drop_last() =~= entries@.take(i as int));
        assert(entries@.take(i + 1).last() == entries@[i as int]);
        if entries[i].turns > u32::MAX - sum {
            proof {
                turns_grow(entries@, i + 1);
            }
            return None;
        }
        sum += entries[i].turns;
        i += 1;
    }
    assert(entries@.take(i as int) =~= entries@);
    Some(sum)
}

proof fn turns_grow(entries: Seq<TaskLog>, n: int)
    requires
        0 <= n <= entries.len(),
    ensures
        grand_totals(entries.take(n)).turns <= grand_totals(entries).turns,
    decreases entries.len(),
{
    if n < entries.len() {
        assert(entries.drop_last().take(n) =~= entries.take(n));
        turns_grow(entries.drop_last(), n);
    } else {
        assert(entries.take(n) =~= entries);
    }
}

// ─── The report ─────────────────────────────────────────────────────────────

/// A source with what it cost.
#[derive(Debug, Clone, PartialEq)]
pub struct SourceRow {
    pub stats: SourceStats,
    pub cost: CostCell,
}

impl Ranked for SourceRow {
    open spec fn rank(self) -> int {
        self.cost.rank as int
    }

    fn rank_value(&self) -> (r: i128) {
        self.cost.rank as i128
    }
}

/// Sources with their costs, which come in the same order.
pub open spec fn costed_sources(sources: Seq<SourceStats>, costs: Seq<CostCell>) -> Seq<SourceRow> {
    Seq::new(sources.len(), |i: int| SourceRow { stats: sources[i], cost: costs[i] })
}

/// The row of a source in the report of costs.
pub open spec fn source_row(row: SourceRow) -> Seq<char> {
    "  "@ + pad_right_spec(row.stats.label@, 14) + " "@ + pad_left_spec(
        decimal(row.stats.members@.len()),
        3,
    ) + " tasks  $"@ + row.cost.text@ + "  ("@ + row.cost.share@ + "%)\n"@
}

/// The rows of the first `n` sources.
pub open spec fn source_rows(rows: Seq<SourceRow>, n: int) -> Seq<char>
    decreases n,
{
    if n <= 0 {
        Seq::empty()
    } else {
        source_rows(rows, n - 1) + source_row(rows[n - 1])
    }
}

/// The report of costs: the most expensive source first.
pub open spec fn cost_report(
    agent: Seq<char>,
    since: Option<Seq<char>>,
    rows: Seq<SourceRow>,
    tasks: nat,
    turns: nat,
    total_cost: Seq<char>,
) -> Seq<char> {
    report_head(agent, since) + "Total: "@ + decimal(tasks) + " tasks, $"@ + total_cost + ", "@
        + decimal(turns) + " turns\n"@ + "\n"@ + (if rows.len() == 0 {
        Seq::empty()
    } else {
        "By source:\n"@ + source_rows(ranked(rows), rows.len() as int)
    })
}

fn show_source_row(row: &SourceRow) -> (r: String)
    ensures
        r@ == source_row(*row),
{
    let mut out = cat3("  ", &pad_right(&row.stats.label, 14), " ");
    let tasks = pad_left(&show_usize(row.stats.members.len()), 3);
    out.append(&tasks);
    out.append(" tasks  $");
    out.append(&row.cost.text);
    out.append("  (");
    out.append(&row.cost.share);
    out.append("%)\n");
    out
}

fn show_cost_report(
    agent_name: &str,
    since_label: Option<&str>,
    rows: Vec<SourceRow>,
    tasks: usize,
    turns: u32,
    total_cost: &str,
) -> (r: String)
    ensures
        r@ == cost_report(
            agent_name@,
            opt_str(since_label),
            rows@,
            tasks as nat,
            turns as nat,
            total_cost@,
        ),
{
    let mut out = show_head(agent_name, since_label);
    out.append("Total: ");
    let tasks_text = show_usize(tasks);
    out.append(&tasks_text);
    out.append(" tasks, $");
    out.append(total_cost);
    out.append(", ");
    let turns_text = show_u64(turns as u64);
    out.append(&turns_text);
    out.append(" turns\n");
    out.append("\n");
    if rows.len() == 0 {
        assert(out@ + Seq::<char>::empty() =~= out@);
        return out;
    }
    let ghost given = rows@;
    let sorted = sort_by_rank(rows);
    proof {
        ranked_is_descending(given);
    }
    let mut body = String::from_str("By source:\n");
    let mut i: usize = 0;
    assert(body@ =~= "By source:\n"@ + source_rows(sorted@, 0));
    while i < sorted.len()
        invariant
            i <= sorted@.len(),
            body@ == "By source:\n"@ + source_rows(sorted@, i as int),
        decreases sorted@.len() - i,
    {
        let row = show_source_row(&sorted[i]);
        body.append(&row);
        i += 1;
        assert(body@ =~= "By source:\n"@ + source_rows(sorted@, i as int));
    }
    out.append(&body);
    out
}

fn attach_costs(sources: Vec<SourceStats>, costs: Vec<CostCell>) -> (r: Vec<SourceRow>)
    requires
        sources@.len() == costs@.len(),
    ensures
        r@ == costed_sources(sources@, costs@),
{
    let ghost expected = costed_sources(sources@, costs@);
    let ghost all_sources = sources@;
    let ghost all_costs = costs@;
    let mut sources = sources;
    let mut costs = costs;
    let n: usize = sources.len();
    let mut rows: Vec<SourceRow> = Vec::new();
    let mut left: usize = n;
    assert(all_sources.take(n as int) =~= all_sources);
    assert(all_costs.take(n as int) =~= all_costs);
    assert(rows@ =~= expected.skip(n as int));
    while left > 0
        invariant
            left <= n,
            n == all_sources.len() == all_costs.len(),
            expected == costed_sources(all_sources, all_costs),
            sources@ == all_sources.take(left as int),
            costs@ == all_costs.take(left as int),
            rows@ == expected.skip(left as int),
        decreases left,
    {
        match (sources.pop(), costs.pop()) {
            (Some(stats), Some(cost)) => {
                rows.insert(0, SourceRow { stats, cost });
            },
            _ => {},
        }
        left -= 1;
        assert(sources@ =~= all_sources.take(left as int));
        assert(costs@ =~= all_costs.take(left as int));
        assert(rows@ =~= expected.skip(left as int));
    }
    assert(rows@ =~= expected);
    rows
}

/// The report of costs, the most expensive source first. `costs` holds what the
/// entries of each source cost, in the order of their first entries.
pub fn print_cost_summary(
    agent_name: &str,
    entries: &Vec<TaskLog>,
    since_label: Option<&str>,
    costs: Vec<CostCell>,
    total_cost: &str,
) -> (r: String)
    requires
        grand_totals(entries@).turns <= u32::MAX,
        costs@.len() == group_labels(entries@, GroupBy::Source).len(),
    ensures
        exists|sources: Seq<SourceStats>| #[trigger]
            sources_of(entries@, sources) && r@ == cost_report(
                agent_name@,
                opt_str(since_label),
                costed_sources(sources, costs@),
                entries@.len(),
                grand_totals(entries@).turns,
                total_cost@,
            ),
{
    let turns: u32 = match sum_turns(entries) {
        Some(n) => n,
        None => 0,
    };
    let sources = count_sources(entries);
    let ghost parts = sources@;
    assert(source_labels(parts).len() == parts.len());
    assert(sources_of(entries@, parts));
    let rows = attach_costs(sources, costs);
    show_cost_report(agent_name, since_label, rows, entries.len(), turns, total_cost)
}

/// Each source counts the entries that came from it, and no others, so that every entry
/// counts for exactly one source.
pub proof fn every_entry_counts_for_its_source(
    entries: Seq<TaskLog>,
    sources: Seq<SourceStats>,
    k: int,
    p: int,
)
    requires
        sources_of(entries, sources),
        0 <= k < sources.len(),
    ensures
        sources[k].positions().contains(p) <==> 0 <= p < entries.len() && entries[p].source@
            == sources[k].label@,
        0 <= p < entries.len() ==> source_labels(sources).contains(entries[p].source@),
        exists|q: int| 0 <= q < entries.len() && (#[trigger] entries[q]).source@ == sources[k].label@,
{
    members_have_the_label(entries, GroupBy::Source, Some(sources[k].label@), p);
    if 0 <= p < entries.len() {
        groups_are_those_of_the_entries(entries, GroupBy::Source, entries[p].source@);
        assert(label_of(entries[p], GroupBy::Source) == Some(entries[p].source@));
    }
    let l = sources[k].label@;
    assert(source_labels(sources)[k] == l);
    groups_are_those_of_the_entries(entries, GroupBy::Source, l);
    let q = choose|q: int|
        0 <= q < entries.len() && label_of(#[trigger] entries[q], GroupBy::Source) == Some(l);
    assert(entries[q].source@ == l);
}

/// A row tells the source, the number of its entries, what they cost and their share.
pub proof fn source_rows_tell_their_source(row: SourceRow)
    ensures
        contains_spec(source_row(row), row.stats.label@),
        contains_spec(source_row(row), decimal(row.stats.members@.len())),
        contains_spec(source_row(row), row.cost.text@),
        contains_spec(source_row(row), row.cost.share@),
{
    let label = pad_right_spec(row.stats.label@, 14);
    let count = pad_left_spec(decimal(row.stats.members@.len()), 3);
    padding_keeps_the_text(row.stats.label@, 14);
    padding_keeps_the_text(decimal(row.stats.members@.len()), 3);
    let a = "  "@ + label;
    both_parts_occur("  "@, label);
    both_parts_occur(a, " "@);
    let b = a + " "@ + count;
    both_parts_occur(a + " "@, count);
    both_parts_occur(b, " tasks  $"@);
    let c = b + " tasks  $"@ + row.cost.text@;
    both_parts_occur(b + " tasks  $"@, row.cost.text@);
    both_parts_occur(c, "  ("@);
    both_parts_occur(c + "  ("@, row.cost.share@);
    both_parts_occur(c + "  ("@ + row.cost.share@, "%)\n"@);
}

/// The table has a row for each source, in their order.
pub proof fn sources_are_listed_in_order(v: Seq<SourceRow>, k: int, n: int)
    requires
        0 <= k < n <= v.len(),
    ensures
        starts_with_spec(source_rows(v, n), source_rows(v, k) + source_row(v[k])),
    decreases n,
{
    let head = source_rows(v, n - 1);
    let all = source_rows(v, n);
    let start = source_rows(v, k) + source_row(v[k]);
    if k < n - 1 {
        sources_are_listed_in_order(v, k, n - 1);
        assert(all.take(start.len() as int) =~= head.take(start.len() as int));
    } else {
        assert(all.take(start.len() as int) =~= start);
    }
}

} // verus!
