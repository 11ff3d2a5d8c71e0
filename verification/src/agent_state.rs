//! The state document of an agent.
//!
//! The document is plain markdown. Headings delimit its sections, and one line
//! says when it was last updated.
use crate::clock::{now_nanos, show_utc, utc_text};
use crate::config::{agent_named, find_agent, UserConfig};
use crate::text::{
    cat, cat3, cat5, chars_of, contains_char, contains_spec, contains_text, copy_all,
    ended_lines, ended_lines_are_read, is_line, is_white_space, join, join_spec, lines,
    lines_are_lines, lines_are_stripped, lines_spec, opt_str, opt_text, part_occurs, same,
    starts_with, starts_with_spec, strip_cr, strip_prefix, strip_prefix_spec, stripped, texts,
    trim, trim_end, trim_end_spec, trim_spec, trim_start, trim_start_spec,
};
use crate::web::audit::{expand_home, expanded};
use vstd::prelude::*;
use vstd::string::*;

verus! {

// ─── Paths ──────────────────────────────────────────────────────────────────

/// Where the state document of an agent is kept by default, under the directory of
/// the runtime.
pub open spec fn default_path(runtime: Seq<char>, agent: Seq<char>) -> Seq<char> {
    "~/."@ + runtime + "/projects/-home-"@ + agent + "/memory/current_state.md"@
}

/// Where the state document of an agent is kept by default.
pub fn default_state_path(runtime: &str, agent: &str) -> (r: String)
    ensures
        r@ == default_path(runtime@, agent@),
{
    cat5("~/.", runtime, "/projects/-home-", agent, "/memory/current_state.md")
}

/// The configured path of the state document: that of the sub-agent of this
/// name, or, for the agent whose configuration this is, its own.
pub open spec fn configured_path(agent: Seq<char>, cfg: Option<&UserConfig>) -> Option<Seq<char>> {
    match cfg {
        None => None,
        Some(c) => match agent_named(c.agents@, agent) {
            Some(a) => opt_text(a.state_file),
            None => opt_text(c.state_file),
        },
    }
}

/// The path of the state document of an agent, before `~/` is expanded.
pub open spec fn state_path(
    runtime: Seq<char>,
    agent: Seq<char>,
    cfg: Option<&UserConfig>,
) -> Seq<char> {
    match configured_path(agent, cfg) {
        Some(p) => p,
        None => default_path(runtime, agent),
    }
}

/// Whether `r` is where the document of an agent lies.
pub open spec fn resolves(
    runtime: Seq<char>,
    agent: Seq<char>,
    cfg: Option<&UserConfig>,
    home: Option<&str>,
    r: Result<String, String>,
) -> bool {
    if agent.len() == 0 {
        r matches Err(e) && e@ == "agent name must not be empty"@
    } else if agent.contains('/') || contains_spec(agent, ".."@) {
        r matches Err(e) && e@ == "invalid agent name '"@ + agent
            + "': must not contain '/' or '..'"@
    } else {
        r matches Ok(p) && p@ == expanded(state_path(runtime, agent, cfg), opt_str(home))
    }
}

/// The path of the state document of an agent. Names that are empty or hold `/`
/// or `..` are refused.
pub fn resolve_path(
    runtime: &str,
    agent: &str,
    cfg: Option<&UserConfig>,
    home: Option<&str>,
) -> (r: Result<String, String>)
    ensures
        resolves(runtime@, agent@, cfg, home, r),
{
    if agent.is_empty() {
        return Err(String::from_str("agent name must not be empty"));
    }
    if contains_char(agent, '/') || contains_text(agent, "..") {
        return Err(cat3("invalid agent name '", agent, "': must not contain '/' or '..'"));
    }
    let configured: Option<String> = match cfg {
        None => None,
        Some(c) => match find_agent(&c.agents, agent) {
            Some(a) => crate::text::copy_opt(&a.state_file),
            None => crate::text::copy_opt(&c.state_file),
        },
    };
    let raw = match configured {
        Some(p) => p,
        None => default_state_path(runtime, agent),
    };
    Ok(expand_home(&raw, home))
}

/// The path of the lock file beside a state document.
pub fn lock_path(path: &str) -> (r: String)
    ensures
        r@ == path@ + ".lock"@,
{
    cat(path, ".lock")
}

// ─── Headings ───────────────────────────────────────────────────────────────

/// The number of `#` at the start of a line.
pub open spec fn hash_run(s: Seq<char>) -> nat
    decreases s.len(),
{
    if s.len() == 0 || s[0] != '#' {
        0
    } else {
        1 + hash_run(s.skip(1))
    }
}

proof fn hash_run_bound(s: Seq<char>)
    ensures
        hash_run(s) <= s.len(),
    decreases s.len(),
{
    if s.len() > 0 && s[0] == '#' {
        hash_run_bound(s.skip(1));
    }
}

/// Whether a line is a heading: hashes, then a space or the end of the line.
pub open spec fn heading(line: Seq<char>) -> bool {
    let t = trim_start_spec(line);
    let n = hash_run(t) as int;
    n > 0 && (n == t.len() || t[n] == ' ')
}

/// Whether a line is the heading of a section, at the second or third level.
pub open spec fn section_heading(line: Seq<char>, section: Seq<char>) -> bool {
    let t = trim_start_spec(line);
    ||| (strip_prefix_spec(t, "## "@) matches Some(rest) && trim_end_spec(rest) == section)
    ||| (strip_prefix_spec(t, "### "@) matches Some(rest) && trim_end_spec(rest) == section)
}

/// The position of the heading of a section; the number of lines where there is
/// none.
pub open spec fn section_index(all: Seq<Seq<char>>, section: Seq<char>) -> nat
    decreases all.len(),
{
    if all.len() == 0 || section_heading(all[0], section) {
        0
    } else {
        1 + section_index(all.skip(1), section)
    }
}

/// The position of the first heading at or after `start`; the number of lines
/// where there is none.
pub open spec fn next_heading(all: Seq<Seq<char>>, start: int) -> int
    decreases all.len() - start,
{
    if start >= all.len() {
        all.len() as int
    } else if heading(all[start]) {
        start
    } else {
        next_heading(all, start + 1)
    }
}

proof fn next_heading_bounds(all: Seq<Seq<char>>, start: int)
    requires
        0 <= start <= all.len(),
    ensures
        start <= next_heading(all, start) <= all.len(),
    decreases all.len() - start,
{
    if start < all.len() && !heading(all[start]) {
        next_heading_bounds(all, start + 1);
    }
}

/// Whether a line is a heading.
pub fn is_heading(line: &str) -> (r: bool)
    ensures
        r == heading(line@),
{
    let t = trim_start(line);
    let chars = chars_of(t);
    let mut n: usize = 0;
    assert(t@.skip(0) =~= t@);
    while n < chars.len() && chars[n] == '#'
        invariant
            n <= chars@.len(),
            chars@ == t@,
            hash_run(t@) == n + hash_run(t@.skip(n as int)),
        decreases chars@.len() - n,
    {
        assert(t@.skip(n as int)[0] == t@[n as int]);
        assert(t@.skip(n as int).skip(1) =~= t@.skip(n + 1));
        n += 1;
    }
    proof {
        if n < t@.len() {
            assert(t@.skip(n as int)[0] == t@[n as int]);
        }
        assert(hash_run(t@) == n);
    }
    n > 0 && (n == chars.len() || chars[n] == ' ')
}

/// Whether a line is the heading of a section, at the second or third level.
pub fn matches_section_heading(line: &str, section: &str) -> (r: bool)
    ensures
        r == section_heading(line@, section@),
{
    let t = trim_start(line);
    match strip_prefix(t, "## ") {
        Some(rest) => {
            if same(trim_end(rest), section) {
                return true;
            }
        },
        None => {},
    }
    match strip_prefix(t, "### ") {
        Some(rest) => same(trim_end(rest), section),
        None => false,
    }
}

/// The position of the heading of a section.
pub fn find_section_index(all: &Vec<String>, section: &str) -> (r: Option<usize>)
    ensures
        match r {
            Some(i) => i < all@.len() && section_index(texts(all@), section@) == i,
            None => section_index(texts(all@), section@) == all@.len(),
        },
{
    let ghost t = texts(all@);
    let mut i: usize = 0;
    assert(t.skip(0) =~= t);
    while i < all.len()
        invariant
            i <= all@.len(),
            t == texts(all@),
            section_index(t, section@) == i + section_index(t.skip(i as int), section@),
        decreases all@.len() - i,
    {
        assert(t.skip(i as int)[0] == all@[i as int]@);
        if matches_section_heading(&all[i], section) {
            return Some(i);
        }
        assert(t.skip(i as int).skip(1) =~= t.skip(i + 1));
        i += 1;
    }
    None
}

/// The position of the first heading at or after `start`, or the number of
/// lines.
pub fn find_next_heading_index(all: &Vec<String>, start: usize) -> (r: usize)
    ensures
        r == next_heading(texts(all@), start as int),
        start <= all@.len() ==> start <= r <= all@.len(),
{
    let ghost t = texts(all@);
    let mut i: usize = start;
    while i < all.len()
        invariant
            start <= i,
            t == texts(all@),
            start <= all@.len() ==> i <= all@.len(),
            next_heading(t, start as int) == next_heading(t, i as int),
        decreases all@.len() - i,
    {
        assert(t[i as int] == all@[i as int]@);
        if is_heading(&all[i]) {
            return i;
        }
        i += 1;
    }
    all.len()
}

// ─── The document ───────────────────────────────────────────────────────────

/// A document of the given lines. It ends with a newline, unless it comes from
/// an empty document.
pub open spec fn document(all: Seq<Seq<char>>, original: Seq<char>) -> Seq<char> {
    let s = join_spec(all, "\n"@);
    if original.len() > 0 && !(s.len() > 0 && s.last() == '\n') {
        s.push('\n')
    } else {
        s
    }
}

/// A document of the given lines.
pub fn join_preserving_trailing_newline(all: &Vec<String>, original: &str) -> (r: String)
    ensures
        r@ == document(texts(all@), original@),
{
    let mut s = join(all, "\n");
    if !original.is_empty() {
        let n: usize = s.as_str().unicode_len();
        if n == 0 || s.as_str().get_char(n - 1) != '\n' {
            s.push('\n');
        }
    }
    s
}

/// Whether a line says when the document was last updated.
pub open spec fn stamp_line(line: Seq<char>) -> bool {
    starts_with_spec(trim_start_spec(line), "Last updated:"@)
}

/// The position of the first line that says when the document was last updated;
/// the number of lines where there is none.
pub open spec fn stamp_index(all: Seq<Seq<char>>) -> nat
    decreases all.len(),
{
    if all.len() == 0 || stamp_line(all[0]) {
        0
    } else {
        1 + stamp_index(all.skip(1))
    }
}

/// Whether the line at `i` is there and is not blank.
pub open spec fn text_follows(all: Seq<Seq<char>>, i: int) -> bool {
    i < all.len() && trim_spec(all[i]).len() > 0
}

/// The lines of a document with the stamp: in place of the first stamp; else
/// below the first heading, set off by blank lines; else at the start.
pub open spec fn stamped_lines(all: Seq<Seq<char>>, stamp: Seq<char>) -> Seq<Seq<char>> {
    let i = stamp_index(all) as int;
    let h = next_heading(all, 0);
    if i < all.len() {
        all.update(i, stamp)
    } else if h < all.len() {
        all.take(h + 1) + seq![Seq::empty(), stamp] + (if text_follows(all, h + 1) {
            seq![Seq::empty()]
        } else {
            Seq::empty()
        }) + all.skip(h + 1)
    } else {
        seq![stamp, Seq::empty()] + all
    }
}

/// A document stamped with a time.
pub open spec fn stamped(body: Seq<char>, time: Seq<char>) -> Seq<char> {
    document(stamped_lines(lines_spec(body), "Last updated: "@ + time), body)
}

fn find_stamp(all: &Vec<String>) -> (r: usize)
    ensures
        r == stamp_index(texts(all@)),
        r <= all@.len(),
{
    let ghost t = texts(all@);
    let mut i: usize = 0;
    assert(t.skip(0) =~= t);
    while i < all.len()
        invariant
            i <= all@.len(),
            t == texts(all@),
            stamp_index(t) == i + stamp_index(t.skip(i as int)),
        decreases all@.len() - i,
    {
        assert(t.skip(i as int)[0] == all@[i as int]@);
        if starts_with(trim_start(&all[i]), "Last updated:") {
            return i;
        }
        assert(t.skip(i as int).skip(1) =~= t.skip(i + 1));
        i += 1;
    }
    i
}

/// Adds the lines `from..to` of `all` to `out`.
fn push_range(out: &mut Vec<String>, all: &Vec<String>, from: usize, to: usize)
    requires
        from <= to <= all@.len(),
    ensures
        texts(final(out)@) == texts(old(out)@) + texts(all@).subrange(from as int, to as int),
{
    let ghost before = texts(out@);
    let ghost t = texts(all@);
    let mut i: usize = from;
    assert(texts(out@) =~= before + t.subrange(from as int, from as int));
    while i < to
        invariant
            from <= i <= to <= all@.len(),
            t == texts(all@),
            texts(out@) == before + t.subrange(from as int, i as int),
        decreases to - i,
    {
        let ghost so_far = texts(out@);
        out.push(all[i].clone());
        assert(texts(out@) =~= so_far.push(t[i as int]));
        assert(texts(out@) =~= before + t.subrange(from as int, i + 1));
        i += 1;
    }
}

fn push_line(out: &mut Vec<String>, line: String)
    ensures
        texts(final(out)@) == texts(old(out)@).push(line@),
{
    let ghost before = texts(out@);
    out.push(line);
    assert(texts(out@) =~= before.push(line@));
}

/// Stamps a document with a time, given as text.
pub fn stamp_with(body: &str, time: &str) -> (r: String)
    ensures
        r@ == stamped(body@, time@),
{
    let stamp = cat("Last updated: ", time);
    let all = lines(body);
    let ghost t = texts(all@);
    let mut out: Vec<String> = Vec::new();
    assert(texts(out@) =~= Seq::<Seq<char>>::empty());
    let i: usize = find_stamp(&all);
    if i < all.len() {
        push_range(&mut out, &all, 0, i);
        push_line(&mut out, stamp);
        push_range(&mut out, &all, i + 1, all.len());
        assert(texts(out@) =~= t.update(i as int, stamp@));
        return join_preserving_trailing_newline(&out, body);
    }
    let h: usize = find_next_heading_index(&all, 0);
    if h < all.len() {
        push_range(&mut out, &all, 0, h + 1);
        push_line(&mut out, String::new());
        push_line(&mut out, stamp);
        if h + 1 < all.len() && !trim(&all[h + 1]).is_empty() {
            push_line(&mut out, String::new());
        }
        push_range(&mut out, &all, h + 1, all.len());
    } else {
        push_line(&mut out, stamp);
        push_line(&mut out, String::new());
        push_range(&mut out, &all, 0, all.len());
    }
    assert(texts(out@) =~= stamped_lines(t, "Last updated: "@ + time@));
    join_preserving_trailing_newline(&out, body)
}

/// Stamps a document with the present time.
pub fn stamp(body: &str) -> (r: String)
    ensures
        exists|now: i64|
            r@ == #[trigger] stamped(body@, utc_text(now)) && is_line(utc_text(now)),
{
    let now: i64 = now_nanos();
    let time = show_utc(now);
    let r = stamp_with(body, &time);
    assert(r@ == stamped(body@, utc_text(now)));
    r
}

// ─── Sections ───────────────────────────────────────────────────────────────

/// A line as a bullet.
pub open spec fn bullet(line: Seq<char>) -> Seq<char> {
    let t = trim_start_spec(line);
    if t.len() > 0 && (t[0] == '-' || t[0] == '*') {
        line
    } else {
        "- "@ + line
    }
}

/// The end of a section without the blank lines at its end, but not before
/// `low`.
pub open spec fn before_blank_lines(all: Seq<Seq<char>>, low: int, end: int) -> int
    decreases end,
{
    if end > low && 0 < end <= all.len() && trim_spec(all[end - 1]).len() == 0 {
        before_blank_lines(all, low, end - 1)
    } else {
        end
    }
}

/// The lines of a document to which a section with the given lines is added at
/// the end.
pub open spec fn with_new_section(
    all: Seq<Seq<char>>,
    section: Seq<char>,
    content: Seq<Seq<char>>,
) -> Seq<Seq<char>> {
    all + (if all.len() > 0 && all.last().len() > 0 {
        seq![Seq::empty()]
    } else {
        Seq::empty()
    }) + seq!["## "@ + section, Seq::empty()] + content
}

/// The lines of a document with a bullet at the end of a section.
pub open spec fn appended_lines(
    all: Seq<Seq<char>>,
    section: Seq<char>,
    line: Seq<char>,
) -> Seq<Seq<char>> {
    let h = section_index(all, section) as int;
    if h < all.len() {
        let at = before_blank_lines(all, h + 1, next_heading(all, h + 1));
        all.take(at) + seq![bullet(line)] + all.skip(at)
    } else {
        with_new_section(all, section, seq![bullet(line)])
    }
}

/// The lines of a document with the body of a section replaced.
pub open spec fn replaced_lines(
    all: Seq<Seq<char>>,
    section: Seq<char>,
    content: Seq<Seq<char>>,
) -> Seq<Seq<char>> {
    let h = section_index(all, section) as int;
    if h < all.len() {
        let next = next_heading(all, h + 1);
        all.take(h + 1) + seq![Seq::empty()] + content + (if next < all.len() {
            seq![Seq::empty()]
        } else {
            Seq::empty()
        }) + all.skip(next)
    } else {
        with_new_section(all, section, content)
    }
}

/// A document with the body of a section replaced.
pub open spec fn replaced(body: Seq<char>, section: Seq<char>, content: Seq<char>) -> Seq<char> {
    document(replaced_lines(lines_spec(body), section, lines_spec(content)), body)
}

fn make_bullet(line: &str) -> (r: String)
    ensures
        r@ == bullet(line@),
{
    let t = trim_start(line);
    if t.unicode_len() > 0 {
        let c = t.get_char(0);
        if c == '-' || c == '*' {
            return String::from_str(line);
        }
    }
    cat("- ", line)
}

fn add_section(all: &Vec<String>, section: &str, content: &Vec<String>) -> (r: Vec<String>)
    ensures
        texts(r@) == with_new_section(texts(all@), section@, texts(content@)),
{
    let ghost t = texts(all@);
    let mut out = copy_all(all);
    let n: usize = all.len();
    if n > 0 && !all[n - 1].as_str().is_empty() {
        push_line(&mut out, String::new());
    }
    push_line(&mut out, cat("## ", section));
    push_line(&mut out, String::new());
    push_range(&mut out, content, 0, content.len());
    assert(texts(out@) =~= with_new_section(t, section@, texts(content@)));
    out
}

/// Adds a bullet at the end of a section. The section is added at the end of the
/// document where it is not there.
pub fn append_to_section(body: &str, section: &str, line: &str) -> (r: String)
    ensures
        r@ == document(appended_lines(lines_spec(body@), section@, line@), body@),
{
    let all = lines(body);
    let ghost t = texts(all@);
    let item = make_bullet(line);
    match find_section_index(&all, section) {
        Some(h) => {
            let next: usize = find_next_heading_index(&all, h + 1);
            let mut at: usize = next;
            while at > h + 1 && trim(&all[at - 1]).is_empty()
                invariant
                    h + 1 <= at <= all@.len(),
                    t == texts(all@),
                    before_blank_lines(t, h + 1, at as int) == before_blank_lines(
                        t,
                        h + 1,
                        next_heading(t, h + 1),
                    ),
                decreases at,
            {
                at -= 1;
            }
            assert(before_blank_lines(t, h + 1, at as int) == at);
            let mut out: Vec<String> = Vec::new();
            assert(texts(out@) =~= Seq::<Seq<char>>::empty());
            push_range(&mut out, &all, 0, at);
            push_line(&mut out, item);
            push_range(&mut out, &all, at, all.len());
            assert(texts(out@) =~= appended_lines(t, section@, line@));
            join_preserving_trailing_newline(&out, body)
        },
        None => {
            let mut content: Vec<String> = Vec::new();
            content.push(item);
            assert(texts(content@) =~= seq![bullet(line@)]);
            let out = add_section(&all, section, &content);
            join_preserving_trailing_newline(&out, body)
        },
    }
}

/// Replaces the body of a section. The section is added at the end of the
/// document where it is not there.
pub fn replace_section(body: &str, section: &str, content: &str) -> (r: String)
    ensures
        r@ == replaced(body@, section@, content@),
{
    let all = lines(body);
    let ghost t = texts(all@);
    let new_lines = lines(content);
    let total: usize = all.len();
    match find_section_index(&all, section) {
        Some(h) => {
            let next: usize = find_next_heading_index(&all, h + 1);
            let mut out: Vec<String> = Vec::new();
            assert(texts(out@) =~= Seq::<Seq<char>>::empty());
            push_range(&mut out, &all, 0, h + 1);
            push_line(&mut out, String::new());
            push_range(&mut out, &new_lines, 0, new_lines.len());
            if next < total {
                push_line(&mut out, String::new());
            }
            push_range(&mut out, &all, next, total);
            assert(texts(out@) =~= replaced_lines(t, section@, texts(new_lines@)));
            join_preserving_trailing_newline(&out, body)
        },
        None => {
            let out = add_section(&all, section, &new_lines);
            join_preserving_trailing_newline(&out, body)
        },
    }
}

// ─── Actions ────────────────────────────────────────────────────────────────

/// The text of a document, which is empty where there is no file.
pub open spec fn body_of(current: Option<&str>) -> Seq<char> {
    match current {
        Some(s) => s@,
        None => Seq::empty(),
    }
}

/// The document that a file holds.
pub fn read(current: Option<&str>) -> (r: String)
    ensures
        r@ == body_of(current),
{
    match current {
        Some(s) => String::from_str(s),
        None => String::new(),
    }
}

/// What the file holds after its document was replaced.
pub fn write(content: &str) -> (r: String)
    ensures
        exists|now: i64|
            r@ == #[trigger] stamped(content@, utc_text(now)) && is_line(utc_text(now)),
{
    stamp(content)
}

/// What the file holds after a bullet was added to a section.
pub fn append(current: Option<&str>, section: &str, line: &str) -> (r: String)
    ensures
        exists|now: i64|
            r@ == #[trigger] stamped(
                document(
                    appended_lines(lines_spec(body_of(current)), section@, line@),
                    body_of(current),
                ),
                utc_text(now),
            ) && is_line(utc_text(now)),
{
    let body = read(current);
    stamp(&append_to_section(&body, section, line))
}

/// What the file holds after the body of a section was replaced.
pub fn set_section(current: Option<&str>, section: &str, content: &str) -> (r: String)
    ensures
        exists|now: i64|
            r@ == #[trigger] stamped(
                replaced(body_of(current), section@, content@),
                utc_text(now),
            ) && is_line(utc_text(now)),
{
    let body = read(current);
    stamp(&replace_section(&body, section, content))
}

// ─── Laws ───────────────────────────────────────────────────────────────────

/// A document ends with a newline, unless it comes from an empty one.
pub proof fn documents_end_with_a_newline(all: Seq<Seq<char>>, original: Seq<char>)
    requires
        original.len() > 0,
    ensures
        document(all, original).len() > 0,
        document(all, original).last() == '\n',
{
}

proof fn joined_lines_are_ended(all: Seq<Seq<char>>)
    requires
        all.len() > 0,
    ensures
        join_spec(all, "\n"@) + "\n"@ == ended_lines(all, all.len() as int),
    decreases all.len(),
{
    let n = all.len() as int;
    if n == 1 {
        assert(ended_lines(all, 0) =~= Seq::<char>::empty());
        assert(join_spec(all, "\n"@) + "\n"@ =~= ended_lines(all, 1));
    } else {
        let head = all.drop_last();
        joined_lines_are_ended(head);
        same_ended_lines(head, all, n - 1);
        assert(join_spec(all, "\n"@) + "\n"@ =~= join_spec(head, "\n"@) + "\n"@ + all.last()
            + "\n"@);
    }
}

proof fn same_ended_lines(a: Seq<Seq<char>>, b: Seq<Seq<char>>, n: int)
    requires
        n <= a.len(),
        n <= b.len(),
        forall|i: int| 0 <= i < n ==> #[trigger] a[i] == b[i],
    ensures
        ended_lines(a, n) == ended_lines(b, n),
    decreases n,
{
    if n > 0 {
        same_ended_lines(a, b, n - 1);
        assert(a[n - 1] == b[n - 1]);
    }
}

/// The lines that are read from a document of lines: an empty one at their end is not
/// read, nor a carriage return at the end of a line.
pub open spec fn lines_read(all: Seq<Seq<char>>) -> Seq<Seq<char>> {
    stripped(
        if all.len() > 1 && all.last().len() == 0 {
            all.drop_last()
        } else {
            all
        },
    )
}

/// A document is read as the lines that it was made of, but for an empty one at
/// their end, and for carriage returns at the ends of lines.
pub proof fn document_holds_its_lines(all: Seq<Seq<char>>, original: Seq<char>)
    requires
        original.len() > 0,
        all.len() > 0,
        forall|i: int| 0 <= i < all.len() ==> !(#[trigger] all[i]).contains('\n'),
    ensures
        lines_spec(document(all, original)) == lines_read(all),
{
    let s = join_spec(all, "\n"@);
    let last = all.last();
    let n = all.len() as int;
    reveal_strlit("\n");
    assert(all[n - 1] == last);
    if n > 1 && last.len() == 0 {
        let head = all.drop_last();
        joined_lines_are_ended(head);
        assert(s =~= join_spec(head, "\n"@) + "\n"@);
        assert(s.last() == '\n');
        assert forall|i: int| 0 <= i < head.len() implies !(#[trigger] head[i]).contains('\n') by {
            assert(head[i] == all[i]);
        }
        ended_lines_are_read(head, n - 1);
        assert(stripped(head).take(n - 1) =~= stripped(head));
    } else {
        joined_lines_are_ended(all);
        if last.len() > 0 {
            assert(last.contains(last.last()));
            if n == 1 {
                assert(s == last);
            } else {
                assert(s == join_spec(all.drop_last(), "\n"@) + "\n"@ + last);
                assert(s.last() == last.last());
            }
        } else {
            assert(s == last);
        }
        assert(document(all, original) =~= s + "\n"@);
        ended_lines_are_read(all, n);
        assert(stripped(all).take(n) =~= stripped(all));
    }
}

/// To replace a section keeps every line up to its heading, and every line from
/// the next heading on.
pub proof fn replace_keeps_the_rest(
    all: Seq<Seq<char>>,
    section: Seq<char>,
    content: Seq<Seq<char>>,
)
    requires
        section_index(all, section) < all.len(),
    ensures
        ({
            let h = section_index(all, section) as int;
            let next = next_heading(all, h + 1);
            let r = replaced_lines(all, section, content);
            &&& h + 1 <= next <= all.len()
            &&& r.take(h + 1) == all.take(h + 1)
            &&& r.skip(r.len() - (all.len() - next)) == all.skip(next)
        }),
{
    let h = section_index(all, section) as int;
    next_heading_bounds(all, h + 1);
    let next = next_heading(all, h + 1);
    let r = replaced_lines(all, section, content);
    assert(r.take(h + 1) =~= all.take(h + 1));
    assert(r.skip(r.len() - (all.len() - next)) =~= all.skip(next));
}

/// To append a bullet to a section keeps every line and their order.
pub proof fn append_keeps_every_line(all: Seq<Seq<char>>, section: Seq<char>, line: Seq<char>)
    ensures
        section_index(all, section) < all.len() ==> exists|at: int|
            0 <= at <= all.len() && #[trigger] appended_lines(all, section, line).remove(at) == all
                && appended_lines(all, section, line)[at] == bullet(line),
        section_index(all, section) >= all.len() ==> appended_lines(all, section, line).take(
            all.len() as int,
        ) == all && appended_lines(all, section, line).last() == bullet(line),
{
    let h = section_index(all, section) as int;
    let r = appended_lines(all, section, line);
    if h < all.len() {
        next_heading_bounds(all, h + 1);
        let next = next_heading(all, h + 1);
        before_blank_lines_bounds(all, h + 1, next);
        let at = before_blank_lines(all, h + 1, next);
        assert(r.remove(at) =~= all);
        assert(r[at] == bullet(line));
    } else {
        assert(r.take(all.len() as int) =~= all);
    }
}

proof fn before_blank_lines_bounds(all: Seq<Seq<char>>, low: int, end: int)
    requires
        0 <= low <= end <= all.len(),
    ensures
        low <= before_blank_lines(all, low, end) <= end,
    decreases end,
{
    if end > low && 0 < end <= all.len() && trim_spec(all[end - 1]).len() == 0 {
        before_blank_lines_bounds(all, low, end - 1);
    }
}

proof fn section_index_is(all: Seq<Seq<char>>, section: Seq<char>, i: int)
    requires
        0 <= i < all.len(),
        section_heading(all[i], section),
        forall|j: int| 0 <= j < i ==> !section_heading(#[trigger] all[j], section),
    ensures
        section_index(all, section) == i,
    decreases i,
{
    if i > 0 {
        let rest = all.skip(1);
        assert forall|j: int| 0 <= j < i - 1 implies !section_heading(
            #[trigger] rest[j],
            section,
        ) by {
            assert(rest[j] == all[j + 1]);
        }
        section_index_is(rest, section, i - 1);
    }
}

proof fn no_section_before(all: Seq<Seq<char>>, section: Seq<char>, i: int)
    requires
        0 <= i < section_index(all, section),
    ensures
        section_index(all, section) <= all.len(),
        i < all.len(),
        !section_heading(all[i], section),
    decreases all.len(),
{
    if all.len() > 0 && !section_heading(all[0], section) {
        if i > 0 {
            no_section_before(all.skip(1), section, i - 1);
        } else {
            if section_index(all.skip(1), section) > 0 {
                no_section_before(all.skip(1), section, 0);
            }
        }
    }
}

proof fn section_index_bounds(all: Seq<Seq<char>>, section: Seq<char>)
    ensures
        section_index(all, section) <= all.len(),
        section_index(all, section) < all.len() ==> section_heading(
            all[section_index(all, section) as int],
            section,
        ),
    decreases all.len(),
{
    if all.len() > 0 && !section_heading(all[0], section) {
        section_index_bounds(all.skip(1), section);
    }
}

/// A section whose body was replaced is found, and its new body stands below its
/// heading, after a blank line. The name of the section does not end with white
/// space.
pub proof fn section_holds_what_was_set(
    all: Seq<Seq<char>>,
    section: Seq<char>,
    content: Seq<Seq<char>>,
)
    requires
        trim_end_spec(section) == section,
    ensures
        ({
            let r = replaced_lines(all, section, content);
            let h = section_index(r, section) as int;
            &&& h + 2 + content.len() <= r.len()
            &&& section_heading(r[h], section)
            &&& r[h + 1].len() == 0
            &&& r.subrange(h + 2, h + 2 + content.len()) == content
            &&& section_index(all, section) < all.len() ==> h == section_index(all, section)
        }),
{
    let r = replaced_lines(all, section, content);
    let k = section_index(all, section) as int;
    section_index_bounds(all, section);
    if k < all.len() {
        next_heading_bounds(all, k + 1);
        assert forall|j: int| 0 <= j < k implies !section_heading(#[trigger] r[j], section) by {
            no_section_before(all, section, j);
        }
        assert(r[k] == all[k]);
        section_index_is(r, section, k);
        assert(r.subrange(k + 2, k + 2 + content.len()) =~= content);
    } else {
        let blank: int = if all.len() > 0 && all.last().len() > 0 {
            1
        } else {
            0
        };
        let at = all.len() + blank;
        let title = "## "@ + section;
        reveal_strlit("## ");
        reveal_strlit("### ");
        assert(r[at] == title);
        assert(trim_start_spec(title) == title);
        assert(title.take(3) =~= "## "@);
        assert(title.skip(3) =~= section);
        assert forall|j: int| 0 <= j < at implies !section_heading(#[trigger] r[j], section) by {
            if j < all.len() {
                no_section_before(all, section, j);
            } else {
                assert(r[j].len() == 0);
            }
        }
        section_index_is(r, section, at);
        assert(r.subrange(at + 2, at + 2 + content.len()) =~= content);
    }
}

proof fn stamp_index_is(all: Seq<Seq<char>>, i: int)
    requires
        0 <= i < all.len(),
        stamp_line(all[i]),
        forall|j: int| 0 <= j < i ==> !stamp_line(#[trigger] all[j]),
    ensures
        stamp_index(all) == i,
    decreases i,
{
    if i > 0 {
        let rest = all.skip(1);
        assert forall|j: int| 0 <= j < i - 1 implies !stamp_line(#[trigger] rest[j]) by {
            assert(rest[j] == all[j + 1]);
        }
        stamp_index_is(rest, i - 1);
    }
}

proof fn no_stamp_before(all: Seq<Seq<char>>, i: int)
    requires
        0 <= i < stamp_index(all),
    ensures
        i < all.len(),
        !stamp_line(all[i]),
    decreases all.len(),
{
    if all.len() > 0 && !stamp_line(all[0]) && i > 0 {
        no_stamp_before(all.skip(1), i - 1);
    }
}

proof fn stamp_index_bounds(all: Seq<Seq<char>>)
    ensures
        stamp_index(all) <= all.len(),
    decreases all.len(),
{
    if all.len() > 0 && !stamp_line(all[0]) {
        stamp_index_bounds(all.skip(1));
    }
}

/// A document has one stamp, the latest: to stamp a stamped document again gives
/// what the later time alone would have given.
pub proof fn second_stamp_replaces_first(all: Seq<Seq<char>>, first: Seq<char>, second: Seq<char>)
    ensures
        stamped_lines(stamped_lines(all, "Last updated: "@ + first), "Last updated: "@ + second)
            == stamped_lines(all, "Last updated: "@ + second),
{
    let a = "Last updated: "@ + first;
    let b = "Last updated: "@ + second;
    reveal_strlit("Last updated: ");
    reveal_strlit("Last updated:");
    assert(trim_start_spec(a) == a);
    assert(a.take(13) =~= "Last updated:"@);
    assert(stamp_line(a));
    let r = stamped_lines(all, a);
    let i = stamp_index(all) as int;
    stamp_index_bounds(all);
    next_heading_bounds(all, 0);
    let h = next_heading(all, 0);
    let at = if i < all.len() {
        i
    } else if h < all.len() {
        h + 2
    } else {
        0
    };
    assert(r[at] == a);
    assert forall|j: int| 0 <= j < at implies !stamp_line(#[trigger] r[j]) by {
        if i < all.len() || j <= h {
            no_stamp_before(all, j);
            assert(r[j] == all[j]);
        } else {
            assert(r[j].len() == 0);
        }
    }
    stamp_index_is(r, at);
    assert(stamped_lines(r, b) =~= stamped_lines(all, b));
}

/// A stamped document is read as the lines of the document with the stamp.
pub proof fn stamped_document_is_read(body: Seq<char>, time: Seq<char>)
    requires
        body.len() > 0,
        forall|i: int| 0 <= i < lines_spec(body).len() ==> is_line(#[trigger] lines_spec(body)[i]),
        lines_spec(body).last().len() > 0,
        is_line(time),
    ensures
        lines_spec(stamped(body, time)) == stamped_lines(
            lines_spec(body),
            "Last updated: "@ + time,
        ),
        stamped(body, time).len() > 0,
{
    let all = lines_spec(body);
    let line = "Last updated: "@ + time;
    let r = stamped_lines(all, line);
    lines_are_lines(body);
    stamp_is_a_line(time);
    stamp_index_bounds(all);
    next_heading_bounds(all, 0);
    let i = stamp_index(all) as int;
    let h = next_heading(all, 0);
    assert(is_line(Seq::<char>::empty()));
    assert forall|k: int| 0 <= k < r.len() implies is_line(#[trigger] r[k]) by {
        if i < all.len() {
            if k != i {
                assert(r[k] == all[k]);
            }
        } else if h < all.len() {
            let gap: int = if text_follows(all, h + 1) {
                1
            } else {
                0
            };
            if k <= h {
                assert(r[k] == all[k]);
            } else if k >= h + 3 + gap {
                assert(r[k] == all[k - 2 - gap]);
            }
        } else if k >= 2 {
            assert(r[k] == all[k - 2]);
        }
    }
    assert(all[all.len() - 1].len() > 0);
    assert(r.last().len() > 0);
    document_holds_its_lines(r, body);
    lines_are_stripped(r);
    documents_end_with_a_newline(r, body);
}

proof fn stamp_is_a_line(time: Seq<char>)
    requires
        is_line(time),
    ensures
        is_line("Last updated: "@ + time),
        ("Last updated: "@ + time).len() > 0,
{
    reveal_strlit("Last updated: ");
    let line = "Last updated: "@ + time;
    if line.contains('\n') {
        let j = choose|j: int| 0 <= j < line.len() && line[j] == '\n';
        assert(j >= 14);
        assert(time[j - 14] == '\n');
        assert(time.contains('\n'));
    }
    if time.len() > 0 {
        assert(line.last() == time.last());
    }
}

/// To stamp a stamped document again gives what the later time alone would have
/// given. The lines that stay are read again as they are, the document does not end
/// with two empty lines, and the times are lines.
pub proof fn later_stamp_alone_counts(body: Seq<char>, first: Seq<char>, second: Seq<char>)
    requires
        body.len() > 0,
        forall|i: int|
            0 <= i < lines_spec(body).len() && i != stamp_index(lines_spec(body)) ==> is_line(
                #[trigger] lines_spec(body)[i],
            ),
        lines_spec(body).last().len() > 0 || (lines_spec(body).len() > 1 && lines_spec(
            body,
        )[lines_spec(body).len() - 2].len() > 0 && !second.contains('\n')),
        !first.contains('\n'),
    ensures
        stamped(stamped(body, first), second) == stamped(body, second),
{
    let all = lines_spec(body);
    let a = "Last updated: "@ + first;
    let b = "Last updated: "@ + second;
    let r = stamped_lines(all, a);
    let read = lines_read(r);
    let at = stamp_place(all);
    lines_are_lines(body);
    stamp_place_is_stamped(all, first);
    stamp_stays_a_stamp(first);
    assert(!a.contains('\n')) by {
        reveal_strlit("Last updated: ");
        if a.contains('\n') {
            let j = choose|j: int| 0 <= j < a.len() && a[j] == '\n';
            assert(first[j - 14] == '\n');
        }
    }
    assert forall|k: int| 0 <= k < r.len() implies !(#[trigger] r[k]).contains('\n') by {
        if k != at {
            assert(is_line(r[k]));
        }
    }
    document_holds_its_lines(r, body);
    documents_end_with_a_newline(r, body);
    assert forall|k: int| 0 <= k < read.len() && k != at implies read[k] == #[trigger] r[k] by {
        assert(is_line(r[k]));
        assert(read[k] == strip_cr(r[k]));
    }
    assert(read[at] == strip_cr(a));
    assert forall|j: int| 0 <= j < at implies !stamp_line(#[trigger] read[j]) by {
        assert(read[j] == r[j]);
    }
    stamp_index_is(read, at);
    stamp_place_is_stamped(all, second);
    let expected = stamped_lines(all, b);
    assert(expected =~= r.update(at, b));
    let twice = stamped_lines(read, b);
    assert(twice == read.update(at, b));
    if r.last().len() == 0 {
        let m = r.len() as int;
        assert(expected.last() =~= Seq::<char>::empty());
        assert(expected =~= twice.push(Seq::empty()));
        if m - 2 == at {
            assert(twice.last() == b);
            assert(b.len() > 0 && b.last() != '\n') by {
                reveal_strlit("Last updated: ");
                if second.len() > 0 {
                    assert(b.last() == second.last());
                    assert(second.contains(second.last()));
                }
            }
        } else {
            assert(is_line(r[m - 2]));
            assert(twice.last() == r[m - 2]);
            assert(r[m - 2].contains(r[m - 2].last()));
        }
        empty_line_at_the_end_is_not_seen(twice, body);
    } else {
        assert(twice =~= expected);
    }
}

/// Where the stamp stands in a stamped document.
spec fn stamp_place(all: Seq<Seq<char>>) -> int {
    let i = stamp_index(all) as int;
    let h = next_heading(all, 0);
    if i < all.len() {
        i
    } else if h < all.len() {
        h + 2
    } else {
        0
    }
}

/// A stamped document has the stamp in its place, and around it the lines of the
/// document or empty ones.
proof fn stamp_place_is_stamped(all: Seq<Seq<char>>, time: Seq<char>)
    requires
        all.len() > 0,
        forall|i: int|
            0 <= i < all.len() && i != stamp_index(all) ==> is_line(#[trigger] all[i]),
    ensures
        ({
            let line = "Last updated: "@ + time;
            let r = stamped_lines(all, line);
            let at = stamp_place(all);
            &&& 0 <= at < r.len()
            &&& r == stamped_lines(all, Seq::empty()).update(at, line)
            &&& r[at] == line
            &&& r[at].len() > 0
            &&& forall|k: int| 0 <= k < r.len() && k != at ==> is_line(#[trigger] r[k])
            &&& forall|k: int| 0 <= k < at ==> !stamp_line(#[trigger] r[k])
            &&& at < r.len() - 1 ==> r.last() == all.last()
            &&& at < r.len() - 2 && all.len() > 1 && all[all.len() - 2].len() > 0
                && all.last().len() == 0 ==> r[r.len() - 2] == all[all.len() - 2]
        }),
{
    let line = "Last updated: "@ + time;
    let r = stamped_lines(all, line);
    let n = all.len() as int;
    let i = stamp_index(all) as int;
    let h = next_heading(all, 0);
    let at = stamp_place(all);
    reveal_strlit("Last updated: ");
    reveal_strlit("Last updated:");
    stamp_index_bounds(all);
    next_heading_bounds(all, 0);
    let gap: int = if text_follows(all, h + 1) {
        1
    } else {
        0
    };
    assert(r =~= stamped_lines(all, Seq::empty()).update(at, line));
    assert(is_line(Seq::<char>::empty()));
    assert forall|k: int| 0 <= k < r.len() && k != at implies is_line(#[trigger] r[k]) by {
        if i < n {
            assert(r[k] == all[k]);
        } else if h < n {
            if k <= h {
                assert(r[k] == all[k]);
            } else if k >= h + 3 + gap {
                assert(r[k] == all[k - 2 - gap]);
            }
        } else if k >= 2 {
            assert(r[k] == all[k - 2]);
        }
    }
    assert forall|k: int| 0 <= k < at implies !stamp_line(#[trigger] r[k]) by {
        if i < n || k <= h {
            no_stamp_before(all, k);
            assert(r[k] == all[k]);
        } else {
            assert(r[k].len() == 0);
        }
    }
}

proof fn stamp_stays_a_stamp(time: Seq<char>)
    ensures
        stamp_line(strip_cr("Last updated: "@ + time)),
{
    reveal_strlit("Last updated: ");
    reveal_strlit("Last updated:");
    let line = "Last updated: "@ + time;
    if time.len() > 0 {
        assert(line.last() == time.last());
    }
    let t = strip_cr(line);
    assert(t.len() >= 14);
    assert(trim_start_spec(t) == t);
    assert(t.take(13) =~= "Last updated:"@);
}

proof fn next_heading_is(all: Seq<Seq<char>>, start: int, p: int)
    requires
        0 <= start <= p <= all.len(),
        forall|j: int| start <= j < p ==> !heading(#[trigger] all[j]),
        p == all.len() || heading(all[p]),
    ensures
        next_heading(all, start) == p,
    decreases p - start,
{
    if start < p {
        next_heading_is(all, start + 1, p);
    }
}

proof fn next_heading_found(all: Seq<Seq<char>>, start: int)
    requires
        0 <= start <= all.len(),
        next_heading(all, start) < all.len(),
    ensures
        heading(all[next_heading(all, start)]),
    decreases all.len() - start,
{
    if start < all.len() && !heading(all[start]) {
        next_heading_found(all, start + 1);
    }
}

/// Whether a line of a document stays where the body of a section is replaced.
pub open spec fn stays(all: Seq<Seq<char>>, section: Seq<char>, i: int) -> bool {
    let h = section_index(all, section) as int;
    h >= all.len() || i <= h || next_heading(all, h + 1) <= i
}

/// Over lines, a second replacement of a section gives what it alone would have
/// given, but for an empty line at the end.
proof fn second_replacement_over_lines(
    all: Seq<Seq<char>>,
    section: Seq<char>,
    first: Seq<Seq<char>>,
    content: Seq<Seq<char>>,
)
    requires
        trim_end_spec(section) == section,
        !section.contains('\n'),
        all.len() > 0,
        forall|i: int| 0 <= i < all.len() && stays(all, section, i) ==> is_line(#[trigger] all[i]),
        forall|i: int| 0 <= i < first.len() ==> !heading(strip_cr(#[trigger] first[i])),
    ensures
        ({
            let k = section_index(all, section) as int;
            let read = lines_read(replaced_lines(all, section, first));
            let expected = replaced_lines(all, section, content);
            replaced_lines(read, section, content) == (if k < all.len() && next_heading(all, k + 1)
                < all.len() && all.last().len() == 0 {
                expected.drop_last()
            } else {
                expected
            })
        }),
{
    let r = replaced_lines(all, section, first);
    let read = lines_read(r);
    let expected = replaced_lines(all, section, content);
    let n = all.len() as int;
    let k = section_index(all, section) as int;
    section_index_bounds(all, section);
    assert(!heading(Seq::<char>::empty()));
    assert(forall|j: int| 0 <= j < read.len() ==> read[j] == strip_cr(#[trigger] r[j]));
    if k < n {
        next_heading_bounds(all, k + 1);
        let next = next_heading(all, k + 1);
        assert forall|j: int| 0 <= j <= k implies read[j] == #[trigger] all[j] by {
            assert(stays(all, section, j));
            assert(is_line(all[j]));
            assert(r[j] == all[j]);
            assert(read[j] == strip_cr(r[j]));
        }
        assert forall|j: int| 0 <= j < k implies !section_heading(#[trigger] read[j], section) by {
            no_section_before(all, section, j);
            assert(read[j] == all[j]);
        }
        assert(read[k] == all[k]);
        section_index_is(read, section, k);
        let p: int = if next < n {
            k + 3 + first.len()
        } else {
            read.len() as int
        };
        if next < n {
            next_heading_found(all, k + 1);
            assert(all[next].len() > 0);
            assert(r.last() == all.last());
            assert(all[n - 1] == all.last());
            assert forall|j: int| p <= j < read.len() implies #[trigger] read[j] == all[j - p
                + next] by {
                assert(stays(all, section, j - p + next));
                assert(is_line(all[j - p + next]));
                assert(r[j] == all[j - p + next]);
                assert(read[j] == strip_cr(r[j]));
            }
            assert(p < read.len());
            assert(read[p] == all[next]);
        }
        assert forall|j: int| k + 1 <= j < p implies !heading(#[trigger] read[j]) by {
            assert(read[j] == strip_cr(r[j]));
            if k + 2 <= j < k + 2 + first.len() {
                assert(r[j] == first[j - k - 2]);
            } else {
                assert(r[j].len() == 0);
                assert(read[j] =~= Seq::<char>::empty());
            }
        }
        next_heading_is(read, k + 1, p);
        assert(read.take(k + 1) =~= all.take(k + 1));
        if next < n && all.last().len() == 0 {
            assert(read.skip(p) =~= all.skip(next).drop_last());
            assert(replaced_lines(read, section, content) =~= expected.drop_last());
        } else {
            assert(read.skip(p) =~= all.skip(next));
            assert(replaced_lines(read, section, content) =~= expected);
        }
    } else {
        let title = "## "@ + section;
        let gap = if all.last().len() > 0 {
            seq![Seq::<char>::empty()]
        } else {
            Seq::empty()
        };
        let at = n + gap.len();
        assert(r =~= all + gap + seq![title, Seq::<char>::empty()] + first);
        title_is_heading(section);
        title_is_a_line(section);
        assert(r[at] == title && r[at + 1].len() == 0);
        assert(read[at] == strip_cr(r[at]));
        assert forall|j: int| 0 <= j < n implies read[j] == #[trigger] all[j] by {
            assert(stays(all, section, j));
            assert(is_line(all[j]));
            assert(r[j] == all[j]);
            assert(read[j] == strip_cr(r[j]));
        }
        assert forall|j: int| 0 <= j < at implies !section_heading(#[trigger] read[j], section) by {
            if j < n {
                no_section_before(all, section, j);
                assert(read[j] == all[j]);
            } else {
                empty_line_heads_nothing(section);
                assert(read[j] == strip_cr(r[j]));
                assert(read[j] =~= Seq::<char>::empty());
            }
        }
        section_index_is(read, section, at);
        assert forall|j: int| at + 1 <= j < read.len() implies !heading(#[trigger] read[j]) by {
            assert(read[j] == strip_cr(r[j]));
            if j >= at + 2 {
                assert(r[j] == first[j - at - 2]);
            } else {
                assert(read[j] =~= Seq::<char>::empty());
            }
        }
        next_heading_is(read, at + 1, read.len() as int);
        assert(read.take(at + 1) =~= all + gap + seq![title]) by {
            assert(forall|j: int| n <= j < at ==> (#[trigger] r[j]).len() == 0);
            assert forall|j: int| 0 <= j < at + 1 implies read[j] == #[trigger] (all + gap
                + seq![title])[j] by {
                if j < n {
                    assert(read[j] == all[j]);
                } else if j < at {
                    assert(read[j] == strip_cr(r[j]));
                    assert(read[j] =~= (all + gap + seq![title])[j]);
                }
            }
        }
        assert(replaced_lines(read, section, content) =~= expected);
    }
}

/// An empty line after another line changes nothing in a document.
proof fn empty_line_at_the_end_is_not_seen(all: Seq<Seq<char>>, original: Seq<char>)
    requires
        original.len() > 0,
        all.len() > 0,
        all.last().len() > 0,
        all.last().last() != '\n',
    ensures
        document(all.push(Seq::empty()), original) == document(all, original),
{
    reveal_strlit("\n");
    let longer = all.push(Seq::<char>::empty());
    let s = join_spec(all, "\n"@);
    let last = all.last();
    assert(longer.drop_last() =~= all);
    assert(join_spec(longer, "\n"@) =~= s.push('\n'));
    if all.len() == 1 {
        assert(s == last);
    } else {
        assert(s.last() == last.last());
    }
}

proof fn empty_line_heads_nothing(section: Seq<char>)
    ensures
        !section_heading(Seq::empty(), section),
{
    reveal_strlit("## ");
    reveal_strlit("### ");
}

proof fn title_is_heading(section: Seq<char>)
    requires
        trim_end_spec(section) == section,
    ensures
        section_heading("## "@ + section, section),
{
    let title = "## "@ + section;
    reveal_strlit("## ");
    assert(trim_start_spec(title) == title);
    assert(title.take(3) =~= "## "@);
    assert(title.skip(3) =~= section);
}

/// A second replacement of a section gives what it alone would have given, whether
/// or not the section was there. The name of the section is a line without white
/// space at its end, the first replacement is read again without a heading, and so are
/// the lines that stay, as they are.
pub proof fn last_replacement_counts(
    body: Seq<char>,
    section: Seq<char>,
    first: Seq<char>,
    content: Seq<char>,
)
    requires
        body.len() > 0,
        forall|i: int|
            0 <= i < lines_spec(body).len() && stays(lines_spec(body), section, i) ==> is_line(
                #[trigger] lines_spec(body)[i],
            ),
        ({
            let all = lines_spec(body);
            let h = section_index(all, section) as int;
            h < all.len() && next_heading(all, h + 1) < all.len() ==> all.last().len() > 0
                || all[all.len() - 2].len() > 0
        }),
        !section.contains('\n'),
        trim_end_spec(section) == section,
        forall|i: int|
            0 <= i < lines_spec(first).len() ==> !heading(strip_cr(#[trigger] lines_spec(first)[i])),
    ensures
        replaced(replaced(body, section, first), section, content) == replaced(
            body,
            section,
            content,
        ),
{
    let all = lines_spec(body);
    let c = lines_spec(first);
    let new = lines_spec(content);
    let r = replaced_lines(all, section, c);
    let n = all.len() as int;
    let k = section_index(all, section) as int;
    lines_are_lines(body);
    lines_are_lines(first);
    section_index_bounds(all, section);
    title_is_a_line(section);
    if k < n {
        next_heading_bounds(all, k + 1);
    }
    assert forall|j: int| 0 <= j < r.len() implies !(#[trigger] r[j]).contains('\n') by {
        if k < n {
            let next = next_heading(all, k + 1);
            let gap: int = if next < n {
                1
            } else {
                0
            };
            if j <= k {
                assert(r[j] == all[j]);
            } else if k + 2 <= j < k + 2 + c.len() {
                assert(r[j] == c[j - k - 2]);
            } else if j >= k + 2 + c.len() + gap {
                assert(r[j] == all[j - (k + 2 + c.len() + gap) + next]);
            } else {
                assert(r[j].len() == 0);
            }
        } else {
            let gap: int = if all.last().len() > 0 {
                1
            } else {
                0
            };
            if j < n {
                assert(r[j] == all[j]);
            } else if j >= n + gap + 2 {
                assert(r[j] == c[j - n - gap - 2]);
            } else if j != n + gap {
                assert(r[j].len() == 0);
            }
        }
    }
    document_holds_its_lines(r, body);
    documents_end_with_a_newline(r, body);
    second_replacement_over_lines(all, section, c, new);
    let once = document(r, body);
    let expected = replaced_lines(all, section, new);
    let twice = replaced_lines(lines_spec(once), section, new);
    assert(document(twice, once) == document(twice, body));
    if twice != expected {
        let next = next_heading(all, k + 1);
        next_heading_found(all, k + 1);
        assert(all[next].len() > 0);
        assert(all[n - 1].len() == 0);
        assert(next <= n - 2);
        assert(expected.last() == all[n - 1]);
        assert(expected[expected.len() - 2] == all[n - 2]);
        assert(twice.last() == all[n - 2]);
        assert(stays(all, section, n - 2));
        assert(all[n - 2].contains(all[n - 2].last()));
        assert(expected.last() =~= Seq::<char>::empty());
        assert(expected =~= twice.push(Seq::empty()));
        empty_line_at_the_end_is_not_seen(twice, body);
    }
}

proof fn title_is_a_line(section: Seq<char>)
    requires
        !section.contains('\n'),
        trim_end_spec(section) == section,
    ensures
        is_line("## "@ + section),
{
    reveal_strlit("## ");
    let title = "## "@ + section;
    if title.contains('\n') {
        let j = choose|j: int| 0 <= j < title.len() && title[j] == '\n';
        assert(j >= 3);
        assert(section[j - 3] == '\n');
    }
    if section.len() > 0 {
        assert(title.last() == section.last());
        if section.last() == '\r' {
            trim_end_is_shorter(section.drop_last());
            assert(trim_end_spec(section) == trim_end_spec(section.drop_last()));
        }
    }
}

proof fn trim_end_is_shorter(s: Seq<char>)
    ensures
        trim_end_spec(s).len() <= s.len(),
    decreases s.len(),
{
    if s.len() > 0 && is_white_space(s.last()) {
        trim_end_is_shorter(s.drop_last());
    }
}

// ─── What a document is made of ─────────────────────────────────────────────

/// Hashes and a space make a heading, at any level; a line that begins with something else
/// is none, nor are hashes with text right behind them.
pub proof fn hashes_and_a_space_make_a_heading(title: Seq<char>, line: Seq<char>)
    ensures
        heading("# "@ + title),
        heading("## "@ + title),
        heading("### "@ + title),
        line.len() > 0 && !is_white_space(line[0]) && line[0] != '#' ==> !heading(line),
        line.len() > 1 && line[0] == '#' && line[1] != '#' && line[1] != ' ' ==> !heading(line),
{
    reveal_strlit("# ");
    reveal_strlit("## ");
    reveal_strlit("### ");
    hashes_run_to("# "@ + title, 1);
    hashes_run_to("## "@ + title, 2);
    hashes_run_to("### "@ + title, 3);
    if line.len() > 1 && line[0] == '#' && line[1] != '#' {
        hashes_run_to(line, 1);
    }
}

proof fn hashes_run_to(s: Seq<char>, k: int)
    requires
        0 <= k < s.len(),
        forall|i: int| 0 <= i < k ==> s[i] == '#',
        s[k] != '#',
    ensures
        hash_run(s) == k,
    decreases k,
{
    if k > 0 {
        let t = s.skip(1);
        assert(t[k - 1] == s[k]);
        assert forall|i: int| 0 <= i < k - 1 implies t[i] == '#' by {
            assert(t[i] == s[i + 1]);
        }
        hashes_run_to(t, k - 1);
    }
}

/// A section is headed by its name behind two or three hashes, and by no other name.
pub proof fn sections_are_headed_by_their_name(section: Seq<char>, other: Seq<char>)
    requires
        trim_end_spec(section) == section,
        trim_end_spec(other) == other,
        other != section,
    ensures
        section_heading("## "@ + section, section),
        section_heading("### "@ + section, section),
        !section_heading("## "@ + other, section),
        heading("## "@ + section),
{
    reveal_strlit("## ");
    reveal_strlit("### ");
    let two = "## "@ + section;
    let three = "### "@ + section;
    let wrong = "## "@ + other;
    assert(trim_start_spec(two) == two && trim_start_spec(three) == three && trim_start_spec(wrong)
        == wrong);
    assert(two.take(3) =~= "## "@ && two.skip(3) =~= section);
    assert(three.take(4) =~= "### "@ && three.skip(4) =~= section);
    assert(wrong.take(3) =~= "## "@ && wrong.skip(3) =~= other);
    assert(wrong.len() >= 4 ==> wrong.take(4)[2] == ' ');
    assert("### "@[2] == '#');
    hashes_and_a_space_make_a_heading(section, section);
}

/// A text becomes an item of a list, unless it is one already.
pub proof fn texts_become_items(line: Seq<char>)
    requires
        line.len() > 0,
        !is_white_space(line[0]),
    ensures
        line[0] == '-' || line[0] == '*' ==> bullet(line) == line,
        line[0] != '-' && line[0] != '*' ==> bullet(line) == "- "@ + line,
{
}

/// An item that is added to a section stands in it, behind its last line that is not blank:
/// above the next heading, with nothing but blank lines between.
pub proof fn added_item_comes_last_in_its_section(
    all: Seq<Seq<char>>,
    section: Seq<char>,
    line: Seq<char>,
)
    requires
        section_index(all, section) < all.len(),
    ensures
        ({
            let h = section_index(all, section) as int;
            let next = next_heading(all, h + 1);
            let r = appended_lines(all, section, line);
            &&& r.len() == all.len() + 1
            &&& exists|at: int|
                h < at <= next && #[trigger] r[at] == bullet(line) && (forall|j: int|
                    0 <= j < at ==> r[j] == #[trigger] all[j]) && (forall|j: int|
                    at <= j < all.len() ==> r[j + 1] == #[trigger] all[j]) && (forall|j: int|
                    at <= j < next ==> trim_spec(#[trigger] all[j]).len() == 0) && (at == h + 1
                    || trim_spec(all[at - 1]).len() > 0)
        }),
{
    let h = section_index(all, section) as int;
    next_heading_bounds(all, h + 1);
    let next = next_heading(all, h + 1);
    let at = before_blank_lines(all, h + 1, next);
    blank_lines_lie_between(all, h + 1, next);
    let r = appended_lines(all, section, line);
    assert(r[at] == bullet(line));
}

proof fn blank_lines_lie_between(all: Seq<Seq<char>>, low: int, end: int)
    requires
        0 < low <= end <= all.len(),
    ensures
        low <= before_blank_lines(all, low, end) <= end,
        forall|j: int|
            before_blank_lines(all, low, end) <= j < end ==> trim_spec(#[trigger] all[j]).len() == 0,
        before_blank_lines(all, low, end) == low || trim_spec(
            all[before_blank_lines(all, low, end) - 1],
        ).len() > 0,
    decreases end,
{
    if end > low && trim_spec(all[end - 1]).len() == 0 {
        blank_lines_lie_between(all, low, end - 1);
    }
}

/// A stamp takes the place of the first one; without one it stands below the first heading,
/// after a blank line, and without a heading at the start. All other lines stay.
pub proof fn stamps_stand_below_the_first_heading(all: Seq<Seq<char>>, stamp: Seq<char>)
    ensures
        ({
            let i = stamp_index(all) as int;
            let h = next_heading(all, 0);
            let r = stamped_lines(all, stamp);
            &&& i < all.len() ==> r.len() == all.len() && r[i] == stamp && forall|j: int|
                0 <= j < all.len() && j != i ==> r[j] == #[trigger] all[j]
            &&& i >= all.len() && h < all.len() ==> r[h] == all[h] && r[h + 1].len() == 0 && r[h + 2]
                == stamp && (forall|j: int| 0 <= j <= h ==> r[j] == #[trigger] all[j])
                && r.subrange(r.len() - (all.len() - h - 1), r.len() as int) == all.skip(h + 1)
            &&& i >= all.len() && h >= all.len() ==> r[0] == stamp && r[1].len() == 0 && r.skip(2)
                == all
        }),
{
    stamp_index_bounds(all);
    next_heading_bounds(all, 0);
    let i = stamp_index(all) as int;
    let h = next_heading(all, 0);
    let r = stamped_lines(all, stamp);
    if i >= all.len() && h < all.len() {
        assert(r.subrange(r.len() - (all.len() - h - 1), r.len() as int) =~= all.skip(h + 1));
    } else if i >= all.len() {
        assert(r.skip(2) =~= all);
    }
}

/// The document of a sub-agent lies where its own definition says, that of another agent
/// where the configuration says, and else in the memory of the agent.
pub proof fn documents_lie_where_they_are_configured(
    runtime: Seq<char>,
    agent: Seq<char>,
    cfg: &UserConfig,
)
    ensures
        match agent_named(cfg.agents@, agent) {
            Some(d) => match d.state_file {
                Some(p) => state_path(runtime, agent, Some(cfg)) == p@,
                None => state_path(runtime, agent, Some(cfg)) == default_path(runtime, agent),
            },
            None => match cfg.state_file {
                Some(p) => state_path(runtime, agent, Some(cfg)) == p@,
                None => state_path(runtime, agent, Some(cfg)) == default_path(runtime, agent),
            },
        },
        contains_spec(default_path(runtime, agent), agent),
{
    let a = "~/."@ + runtime + "/projects/-home-"@;
    part_occurs(a, agent, "/memory/current_state.md"@);
}

} // verus!
