//! Disk metrics: what `df` and `du` report, and when a refresh is allowed.
use crate::config::{DiskMetricsConfig, WorkspaceConfig};
use crate::decimal::{
    all_digits, decimal, decimal_is_read_back, is_digit, parse_unsigned, read_u64,
};
use crate::ids::{is_uuid, new_id};
use crate::json::{opt_number_model, opt_text_model, Fields, Items, Json, JsonModel};
use crate::message::{lookup_steps, BusMessage, BusMetadata, DEFAULT_PRIORITY, MessageModel};
use crate::names::NameSet;
use crate::order::{ranked, ranked_is_descending, ranked_views, sort_by_rank, Ranked};
use crate::same::views;
use crate::text::{
    after_last, cat, chars_of, copy_all, is_white_space, lines, lines_spec, opt_text, same,
    split_whitespace, texts, trim, trim_spec, trim_start, trim_start_spec, word_len,
    words_spec,
};
use vstd::prelude::*;
use vstd::string::*;

verus! {

// ─── Data ───────────────────────────────────────────────────────────────────

/// A sampled volume. The fields are missing where the sample failed.
#[derive(Debug, Clone, PartialEq)]
pub struct VolumeSample {
    /// The mount point.
    pub mount: String,
    /// The device.
    pub source: Option<String>,
    pub size_bytes: Option<u64>,
    pub used_bytes: Option<u64>,
    pub avail_bytes: Option<u64>,
}

/// A sampled home directory.
#[derive(Debug, Clone, PartialEq)]
pub struct AgentDiskSample {
    pub agent: String,
    pub home_dir: String,
    /// Its size, where the sample succeeded.
    pub home_dir_bytes: Option<u64>,
}

/// The size of a directory.
#[derive(Debug, Clone, PartialEq)]
pub struct AgentBreakdownEntry {
    /// The last component of its path.
    pub name: String,
    pub bytes: u64,
}

/// The contents of the size of a directory.
pub struct BreakdownModel {
    pub name: Seq<char>,
    pub bytes: u64,
}

impl View for AgentBreakdownEntry {
    type V = BreakdownModel;

    open spec fn view(&self) -> BreakdownModel {
        BreakdownModel { name: self.name@, bytes: self.bytes }
    }
}

impl Ranked for AgentBreakdownEntry {
    open spec fn rank(self) -> int {
        self.bytes as int
    }

    fn rank_value(&self) -> (r: i128) {
        self.bytes as i128
    }
}

impl Ranked for BreakdownModel {
    open spec fn rank(self) -> int {
        self.bytes as int
    }

    fn rank_value(&self) -> (r: i128) {
        self.bytes as i128
    }
}

/// All samples.
#[derive(Debug, Clone, PartialEq)]
pub struct DiskSnapshot {
    /// When they were taken.
    pub updated_at: Option<String>,
    pub volumes: Vec<VolumeSample>,
    pub agents: Vec<AgentDiskSample>,
}

impl Default for DiskSnapshot {
    /// No samples.
    fn default() -> (r: DiskSnapshot)
        ensures
            r.updated_at is None,
            r.volumes@.len() == 0,
            r.agents@.len() == 0,
    {
        DiskSnapshot { updated_at: None, volumes: Vec::new(), agents: Vec::new() }
    }
}

impl DiskSnapshot {
    /// The sample of an agent.
    pub fn lookup_agent<'a>(&'a self, name: &str) -> (r: Option<&'a AgentDiskSample>)
        ensures
            match r {
                Some(a) => exists|i: int|
                    0 <= i < self.agents@.len() && #[trigger] self.agents@[i] == *a
                        && self.agents@[i].agent@ == name@ && forall|j: int|
                        0 <= j < i ==> (#[trigger] self.agents@[j]).agent@ != name@,
                None => forall|j: int|
                    0 <= j < self.agents@.len() ==> (#[trigger] self.agents@[j]).agent@ != name@,
            },
    {
        let mut i: usize = 0;
        while i < self.agents.len()
            invariant
                i <= self.agents@.len(),
                forall|j: int| 0 <= j < i ==> (#[trigger] self.agents@[j]).agent@ != name@,
            decreases self.agents@.len() - i,
        {
            if same(&self.agents[i].agent, name) {
                assert(self.agents@[i as int].agent@ == name@);
                return Some(&self.agents[i]);
            }
            i += 1;
        }
        None
    }
}

/// The paths of which a warning was given.
#[derive(Debug)]
pub struct WarnedPaths {
    paths: NameSet,
}

impl View for WarnedPaths {
    type V = Set<Seq<char>>;

    closed spec fn view(&self) -> Set<Seq<char>> {
        self.paths@
    }
}

impl WarnedPaths {
    /// No warning was given.
    pub fn new() -> (r: WarnedPaths)
        ensures
            r@ == Set::<Seq<char>>::empty(),
    {
        WarnedPaths { paths: NameSet::new() }
    }

    /// Notes a warning of a path. Returns whether it is the first, which is to
    /// be given.
    pub fn warn_once(&mut self, path: &str) -> (r: bool)
        ensures
            r == !old(self)@.contains(path@),
            final(self)@ == old(self)@.insert(path@),
    {
        self.paths.insert(path)
    }

    /// The number of paths of which a warning was given.
    pub fn len(&self) -> (r: usize)
        ensures
            r == self@.len(),
    {
        self.paths.len()
    }
}

// ─── Parsing ────────────────────────────────────────────────────────────────

/// So many kibibytes in bytes, at most what 64 bits hold.
pub open spec fn kib(n: nat) -> nat {
    if n * 1024 <= u64::MAX {
        n * 1024
    } else {
        u64::MAX as nat
    }
}

fn kib_bytes(n: u64) -> (r: u64)
    ensures
        r == kib(n as nat),
{
    if n <= u64::MAX / 1024 {
        n * 1024
    } else {
        u64::MAX
    }
}

/// `s` without the characters `c` at its end.
pub open spec fn trim_end_char(s: Seq<char>, c: char) -> Seq<char>
    decreases s.len(),
{
    if s.len() > 0 && s.last() == c {
        trim_end_char(s.drop_last(), c)
    } else {
        s
    }
}

/// `s` without the characters `c` at its end.
pub(crate) fn trim_end_matches<'a>(s: &'a str, c: char) -> (r: &'a str)
    ensures
        r@ == trim_end_char(s@, c),
{
    let chars = chars_of(s);
    let mut i: usize = chars.len();
    assert(s@.take(i as int) =~= s@);
    while i > 0 && chars[i - 1] == c
        invariant
            i <= s@.len(),
            chars@ == s@,
            trim_end_char(s@.take(i as int), c) == trim_end_char(s@, c),
        decreases i,
    {
        assert(s@.take(i as int).drop_last() =~= s@.take(i - 1));
        i -= 1;
    }
    let r = s.substring_char(0, i);
    assert(r@ =~= s@.take(i as int));
    r
}

/// A size column of `df -BK`: a number of kibibytes that `K` may follow.
pub open spec fn k_field(s: Seq<char>) -> Option<nat> {
    match parse_unsigned(trim_end_char(s, 'K'), u64::MAX as nat) {
        Some(n) => Some(kib(n)),
        None => None,
    }
}

/// A size column of `df -BK`, in bytes.
pub fn parse_k_field(s: &str) -> (r: Option<u64>)
    ensures
        match r {
            Some(v) => k_field(s@) == Some(v as nat),
            None => k_field(s@) is None,
        },
{
    match read_u64(trim_end_matches(s, 'K')) {
        Some(n) => Some(kib_bytes(n)),
        None => None,
    }
}

/// A row of `df -BK --output=source,size,used,avail`.
pub open spec fn df_row(line: Seq<char>) -> Option<(Seq<char>, nat, nat, nat)> {
    let parts = words_spec(line);
    if parts.len() < 4 {
        None
    } else {
        match (k_field(parts[1]), k_field(parts[2]), k_field(parts[3])) {
            (Some(size), Some(used), Some(avail)) => Some((parts[0], size, used, avail)),
            _ => None,
        }
    }
}

/// A row of `df -BK --output=source,size,used,avail`: the device, and the sizes
/// in bytes.
pub fn parse_df_row(line: &str) -> (r: Option<(String, u64, u64, u64)>)
    ensures
        match r {
            Some((source, size, used, avail)) => df_row(line@) == Some(
                (source@, size as nat, used as nat, avail as nat),
            ),
            None => df_row(line@) is None,
        },
{
    let parts = split_whitespace(line);
    let ghost all = texts(parts@);
    if parts.len() < 4 {
        return None;
    }
    assert(all[0] == parts@[0]@ && all[1] == parts@[1]@ && all[2] == parts@[2]@ && all[3]
        == parts@[3]@);
    match (parse_k_field(&parts[1]), parse_k_field(&parts[2]), parse_k_field(&parts[3])) {
        (Some(size), Some(used), Some(avail)) => Some((parts[0].clone(), size, used, avail)),
        _ => None,
    }
}

/// The size that `du -sk` reports in its first line, in bytes.
pub open spec fn du_size(stdout: Seq<char>) -> Option<nat> {
    let all = lines_spec(stdout);
    if all.len() == 0 || words_spec(all[0]).len() == 0 {
        None
    } else {
        match parse_unsigned(words_spec(all[0])[0], u64::MAX as nat) {
            Some(n) => Some(kib(n)),
            None => None,
        }
    }
}

/// The size that `du -sk` reports in its first line, in bytes.
pub fn parse_du_sk(stdout: &str) -> (r: Option<u64>)
    ensures
        match r {
            Some(v) => du_size(stdout@) == Some(v as nat),
            None => du_size(stdout@) is None,
        },
{
    let all = lines(stdout);
    if all.len() == 0 {
        return None;
    }
    assert(texts(all@)[0] == all@[0]@);
    let words = split_whitespace(&all[0]);
    if words.len() == 0 {
        return None;
    }
    assert(texts(words@)[0] == words@[0]@);
    match read_u64(&words[0]) {
        Some(n) => Some(kib_bytes(n)),
        None => None,
    }
}

/// What follows the last `/` of a path.
pub open spec fn path_tail(path: Seq<char>) -> Seq<char> {
    path.skip(after_last(path, '/') as int)
}

/// The last component of a path, passing over slashes and `/.` at its end. None
/// where there is none, as of a root, or where it is `..`.
pub open spec fn file_name(path: Seq<char>) -> Option<Seq<char>>
    decreases path.len(),
{
    let tail = path_tail(path);
    if path.len() == 0 || tail == ".."@ || path == "."@ {
        None
    } else if tail.len() == 0 || tail == "."@ {
        file_name(path.drop_last())
    } else {
        Some(tail)
    }
}

/// `std::path::Path::file_name`, on Unix: the final component of the path, which
/// repeated and trailing slashes and a `.` that is not at the start do not change.
/// None where the path has none or ends in `..`.
#[verifier::external_body]
fn last_component(path: &str) -> (r: Option<String>)
    ensures
        opt_text(r) == file_name(path@),
{
    match std::path::Path::new(path).file_name() {
        Some(name) => Some(name.to_string_lossy().into_owned()),
        None => None,
    }
}

/// The size and the path of a line of `du`: the path is all that follows the size
/// and the tab behind it, or, without a tab, the white space behind it.
pub open spec fn size_and_path(line: Seq<char>) -> Option<(Seq<char>, Seq<char>)> {
    let t = trim_start_spec(line);
    let n = word_len(t) as int;
    let rest = t.skip(n);
    let path = if rest.len() > 0 && rest[0] == '\t' {
        rest.skip(1)
    } else {
        trim_start_spec(rest)
    };
    if trim_spec(path).len() == 0 {
        None
    } else {
        Some((t.take(n), path))
    }
}

fn split_size<'a>(line: &'a str) -> (r: Option<(&'a str, &'a str)>)
    ensures
        match r {
            Some((size, path)) => size_and_path(line@) == Some((size@, path@)),
            None => size_and_path(line@) is None,
        },
{
    let t = trim_start(line);
    let chars = chars_of(t);
    let mut n: usize = 0;
    assert(t@.skip(0) =~= t@);
    while n < chars.len() && !chars[n].is_whitespace()
        invariant
            n <= chars@.len(),
            chars@ == t@,
            word_len(t@) == n + word_len(t@.skip(n as int)),
        decreases chars@.len() - n,
    {
        assert(t@.skip(n as int)[0] == t@[n as int]);
        assert(t@.skip(n as int).skip(1) =~= t@.skip(n + 1));
        n += 1;
    }
    let total: usize = chars.len();
    proof {
        if n < t@.len() {
            assert(t@.skip(n as int)[0] == t@[n as int]);
        }
        assert(word_len(t@) == n);
    }
    let size = t.substring_char(0, n);
    let rest = t.substring_char(n, total);
    assert(size@ =~= t@.take(n as int));
    assert(rest@ =~= t@.skip(n as int));
    let path = if n < total && chars[n] == '\t' {
        let p = t.substring_char(n + 1, total);
        assert(p@ =~= rest@.skip(1));
        p
    } else {
        trim_start(rest)
    };
    if trim(path).is_empty() {
        None
    } else {
        Some((size, path))
    }
}

/// The entry of a line of `du -k --max-depth=1`. None for the line of the
/// directory itself, and for a line without a size and a path.
pub open spec fn breakdown_entry(line: Seq<char>, root: Seq<char>) -> Option<BreakdownModel> {
    match size_and_path(line) {
        None => None,
        Some((size, whole)) => {
            let path = trim_end_char(whole, '/');
            if path == trim_end_char(root, '/') {
                None
            } else {
                match parse_unsigned(size, u64::MAX as nat) {
                    Some(n) => Some(
                        BreakdownModel {
                            name: match file_name(path) {
                                Some(name) => name,
                                None => path,
                            },
                            bytes: kib(n) as u64,
                        },
                    ),
                    None => None,
                }
            }
        },
    }
}

/// The entries of the lines of `du -k --max-depth=1`, in order.
pub open spec fn breakdown_entries(all: Seq<Seq<char>>, root: Seq<char>) -> Seq<BreakdownModel>
    decreases all.len(),
{
    if all.len() == 0 {
        Seq::empty()
    } else {
        let head = breakdown_entries(all.drop_last(), root);
        match breakdown_entry(all.last(), root) {
            Some(e) => head.push(e),
            None => head,
        }
    }
}

/// The first `limit` values.
pub open spec fn capped<T>(s: Seq<T>, limit: nat) -> Seq<T> {
    if limit < s.len() {
        s.take(limit as int)
    } else {
        s
    }
}

fn read_breakdown_entry(line: &str, root_trim: &str, Ghost(root): Ghost<Seq<char>>) -> (r: Option<
    AgentBreakdownEntry,
>)
    requires
        root_trim@ == trim_end_char(root, '/'),
    ensures
        match r {
            Some(e) => breakdown_entry(line@, root) == Some(e@),
            None => breakdown_entry(line@, root) is None,
        },
{
    let (size, whole) = match split_size(line) {
        Some(p) => p,
        None => {
            return None;
        },
    };
    let path = trim_end_matches(whole, '/');
    if same(path, root_trim) {
        return None;
    }
    let n: u64 = match read_u64(size) {
        Some(n) => n,
        None => {
            return None;
        },
    };
    let name = match last_component(path) {
        Some(name) => name,
        None => String::from_str(path),
    };
    Some(AgentBreakdownEntry { name, bytes: kib_bytes(n) })
}

/// The sizes of the directories in `root`, from the output of
/// `du -k --max-depth=1`: the largest first, and `limit` of them at most.
pub open spec fn breakdown(stdout: Seq<char>, root: Seq<char>, limit: nat) -> Seq<BreakdownModel> {
    capped(ranked(breakdown_entries(lines_spec(stdout), root)), limit)
}

/// The sizes of the directories in `root`, from the output of
/// `du -k --max-depth=1`: the largest first, and `limit` of them at most.
pub fn parse_du_breakdown(stdout: &str, root: &str, limit: usize) -> (r: Vec<AgentBreakdownEntry>)
    ensures
        views(r@) == breakdown(stdout@, root@, limit as nat),
{
    let root_trim = trim_end_matches(root, '/');
    let all = lines(stdout);
    let ghost t = texts(all@);
    let mut found: Vec<AgentBreakdownEntry> = Vec::new();
    let mut i: usize = 0;
    assert(views(found@) =~= breakdown_entries(t.take(0), root@));
    while i < all.len()
        invariant
            i <= all@.len(),
            t == texts(all@),
            root_trim@ == trim_end_char(root@, '/'),
            views(found@) == breakdown_entries(t.take(i as int), root@),
        decreases all@.len() - i,
    {
        let ghost before = views(found@);
        assert(t.take(i + 1).drop_last() =~= t.take(i as int));
        assert(t.take(i + 1).last() == all@[i as int]@);
        match read_breakdown_entry(&all[i], root_trim, Ghost(root@)) {
            Some(e) => {
                found.push(e);
                assert(views(found@) =~= before.push(e@));
            },
            None => {},
        }
        i += 1;
    }
    assert(t.take(i as int) =~= t);
    let ghost entries = found@;
    let mut sorted = sort_by_rank(found);
    proof {
        ranked_views(entries);
    }
    let ghost whole = sorted@;
    if limit < sorted.len() {
        sorted.truncate(limit);
        assert(views(sorted@) =~= views(whole).take(limit as int));
    }
    sorted
}

/// The breakdown goes from the largest directory to the smallest.
pub proof fn breakdown_is_descending(all: Seq<Seq<char>>, root: Seq<char>, limit: nat)
    ensures
        crate::order::descending(capped(ranked(breakdown_entries(all, root)), limit)),
        capped(ranked(breakdown_entries(all, root)), limit).len() <= limit,
{
    ranked_is_descending(breakdown_entries(all, root));
}

// ─── Sampling ───────────────────────────────────────────────────────────────

/// How a command ended.
#[derive(Debug)]
pub enum CommandOutcome {
    /// It could not be started.
    SpawnFailed(String),
    /// It exited with an error.
    Failed { stdout: String, stderr: String },
    /// It succeeded.
    Done { stdout: String },
}

/// A sample of a volume that failed.
pub open spec fn failed_volume(s: VolumeSample, mount: Seq<char>) -> bool {
    &&& s.mount@ == mount
    &&& s.source is None && s.size_bytes is None && s.used_bytes is None && s.avail_bytes is None
}

/// Whether `s` and `warning` are what the output of `df` gives for a mount
/// point: its second line, or a warning where there is none or it is malformed.
pub open spec fn volume_of_output(
    s: VolumeSample,
    warning: Option<Seq<char>>,
    mount: Seq<char>,
    stdout: Seq<char>,
) -> bool {
    let all = lines_spec(stdout);
    if all.len() < 2 {
        failed_volume(s, mount) && warning == Some("df returned no data row"@)
    } else {
        match df_row(all[1]) {
            Some((source, size, used, avail)) => {
                &&& s.mount@ == mount
                &&& opt_text(s.source) == Some(source)
                &&& s.size_bytes == Some(size as u64)
                &&& s.used_bytes == Some(used as u64)
                &&& s.avail_bytes == Some(avail as u64)
                &&& warning is None
            },
            None => failed_volume(s, mount) && warning == Some("df row malformed"@),
        }
    }
}

fn no_volume(mount: &str) -> (r: VolumeSample)
    ensures
        failed_volume(r, mount@),
{
    VolumeSample {
        mount: String::from_str(mount),
        source: None,
        size_bytes: None,
        used_bytes: None,
        avail_bytes: None,
    }
}

/// Whether `r` is the sample of a volume, with a warning where it failed.
pub open spec fn samples_volume(
    mount: Seq<char>,
    outcome: CommandOutcome,
    r: (VolumeSample, Option<String>),
) -> bool {
    match outcome {
        CommandOutcome::SpawnFailed(e) => failed_volume(r.0, mount) && opt_text(r.1) == Some(
            "df spawn failed: "@ + e@,
        ),
        CommandOutcome::Failed { stdout: _, stderr } => failed_volume(r.0, mount) && opt_text(
            r.1,
        ) == Some("df failed: "@ + crate::text::trim_spec(stderr@)),
        CommandOutcome::Done { stdout } => volume_of_output(
            r.0,
            opt_text(r.1),
            mount,
            stdout@,
        ),
    }
}

/// The sample of a volume from what `df` reported, and the warning to give of
/// the mount point.
pub fn sample_volume(mount: &str, outcome: &CommandOutcome) -> (r: (VolumeSample, Option<String>))
    ensures
        samples_volume(mount@, *outcome, r),
{
    let stdout = match outcome {
        CommandOutcome::SpawnFailed(e) => {
            return (no_volume(mount), Some(cat("df spawn failed: ", e)));
        },
        CommandOutcome::Failed { stdout: _, stderr } => {
            return (no_volume(mount), Some(cat("df failed: ", crate::text::trim(stderr))));
        },
        CommandOutcome::Done { stdout } => stdout,
    };
    let all = lines(stdout);
    if all.len() < 2 {
        return (no_volume(mount), Some(String::from_str("df returned no data row")));
    }
    assert(texts(all@)[1] == all@[1]@);
    match parse_df_row(&all[1]) {
        Some((source, size, used, avail)) => (
            VolumeSample {
                mount: String::from_str(mount),
                source: Some(source),
                size_bytes: Some(size),
                used_bytes: Some(used),
                avail_bytes: Some(avail),
            },
            None,
        ),
        None => (no_volume(mount), Some(String::from_str("df row malformed"))),
    }
}

/// The output of a command that ran, whatever its exit status.
pub open spec fn printed(outcome: CommandOutcome) -> Option<Seq<char>> {
    match outcome {
        CommandOutcome::SpawnFailed(_) => None,
        CommandOutcome::Failed { stdout, .. } => Some(stdout@),
        CommandOutcome::Done { stdout } => Some(stdout@),
    }
}

/// The size of a home directory from what `du -sk` reported.
pub open spec fn home_bytes(outcome: Option<CommandOutcome>) -> Option<u64> {
    match outcome {
        None => None,
        Some(o) => match printed(o) {
            None => None,
            Some(stdout) => match du_size(stdout) {
                Some(n) => Some(n as u64),
                None => None,
            },
        },
    }
}

/// The warning to give of a home directory, where its size is not known.
pub open spec fn home_warning(outcome: Option<CommandOutcome>) -> Option<Seq<char>> {
    match outcome {
        None => Some("agent home dir does not exist"@),
        Some(CommandOutcome::SpawnFailed(e)) => Some("du spawn failed: "@ + e@),
        Some(CommandOutcome::Failed { stdout, stderr }) => if du_size(stdout@) is Some {
            None
        } else {
            Some("du -sk produced no parsable output: "@ + crate::text::trim_spec(stderr@))
        },
        Some(CommandOutcome::Done { stdout }) => if du_size(stdout@) is Some {
            None
        } else {
            Some("du -sk produced no parsable output: "@)
        },
    }
}

/// Whether `r` is the sample of a home directory, with a warning where it failed.
pub open spec fn samples_home(
    agent: Seq<char>,
    home_dir: Seq<char>,
    outcome: Option<&CommandOutcome>,
    r: (AgentDiskSample, Option<String>),
) -> bool {
    &&& r.0.agent@ == agent
    &&& r.0.home_dir@ == home_dir
    &&& r.0.home_dir_bytes == home_bytes(
        match outcome {
            Some(o) => Some(*o),
            None => None,
        },
    )
    &&& opt_text(r.1) == home_warning(
        match outcome {
            Some(o) => Some(*o),
            None => None,
        },
    )
}

/// The sample of a home directory from what `du -sk` reported, and the warning
/// to give of it. There is no outcome where the directory does not exist. A size
/// counts also where `du` could not read all of the directory.
pub fn sample_agent_home(agent: &str, home_dir: &str, outcome: Option<&CommandOutcome>) -> (r: (
    AgentDiskSample,
    Option<String>,
))
    ensures
        samples_home(agent@, home_dir@, outcome, r),
{
    let mut sample = AgentDiskSample {
        agent: String::from_str(agent),
        home_dir: String::from_str(home_dir),
        home_dir_bytes: None,
    };
    let o = match outcome {
        Some(o) => o,
        None => {
            return (sample, Some(String::from_str("agent home dir does not exist")));
        },
    };
    match o {
        CommandOutcome::SpawnFailed(e) => (sample, Some(cat("du spawn failed: ", e))),
        CommandOutcome::Failed { stdout, stderr } => {
            sample.home_dir_bytes = parse_du_sk(stdout);
            let warning = if sample.home_dir_bytes.is_none() {
                Some(cat("du -sk produced no parsable output: ", crate::text::trim(stderr)))
            } else {
                None
            };
            (sample, warning)
        },
        CommandOutcome::Done { stdout } => {
            sample.home_dir_bytes = parse_du_sk(stdout);
            let warning = if sample.home_dir_bytes.is_none() {
                Some(String::from_str("du -sk produced no parsable output: "))
            } else {
                None
            };
            (sample, warning)
        },
    }
}

/// The largest directories in the home of an agent, where the output of `du`
/// lists them. None are listed without a home or where the command did not start.
pub fn sample_agent_breakdown(
    home_dir: &str,
    limit: usize,
    outcome: Option<&CommandOutcome>,
) -> (r: Vec<AgentBreakdownEntry>)
    ensures
        views(r@) == (match outcome {
            None => Seq::empty(),
            Some(CommandOutcome::SpawnFailed(_)) => Seq::empty(),
            Some(CommandOutcome::Failed { stdout, .. }) => breakdown(
                stdout@,
                home_dir@,
                limit as nat,
            ),
            Some(CommandOutcome::Done { stdout }) => breakdown(stdout@, home_dir@, limit as nat),
        }),
{
    match outcome {
        Some(CommandOutcome::Failed { stdout, .. }) => parse_du_breakdown(stdout, home_dir, limit),
        Some(CommandOutcome::Done { stdout }) => parse_du_breakdown(stdout, home_dir, limit),
        _ => {
            let none: Vec<AgentBreakdownEntry> = Vec::new();
            assert(views(none@) =~= Seq::empty());
            none
        },
    }
}

/// What the collector samples, and how often.
#[derive(Debug, Clone, PartialEq)]
pub struct CollectorConfig {
    /// Seconds between two samples.
    pub interval: u64,
    pub volumes: Vec<String>,
    /// The agents with their home directories.
    pub agents: Vec<(String, String)>,
}

impl CollectorConfig {
    /// What the collector samples in a workspace.
    pub fn from_workspace(ws: &WorkspaceConfig) -> (r: CollectorConfig)
        ensures
            match ws.metrics {
                Some(m) => r.interval == m.disk.interval_seconds && texts(r.volumes@) == texts(
                    m.disk.volumes@,
                ),
                None => r.interval == 60 && texts(r.volumes@) == seq!["/"@],
            },
            r.agents@.len() == ws.agents@.len(),
            forall|i: int|
                0 <= i < r.agents@.len() ==> (#[trigger] r.agents@[i]).0@ == ws.agents@[i].name@
                    && r.agents@[i].1@ == ws.agents@[i].work_dir@,
    {
        let (interval, volumes) = match &ws.metrics {
            Some(m) => (m.disk.interval_seconds, copy_all(&m.disk.volumes)),
            None => {
                let disk = DiskMetricsConfig::default();
                (disk.interval_seconds, disk.volumes)
            },
        };
        let mut agents: Vec<(String, String)> = Vec::new();
        let mut i: usize = 0;
        while i < ws.agents.len()
            invariant
                i <= ws.agents@.len(),
                agents@.len() == i,
                forall|j: int|
                    0 <= j < i ==> (#[trigger] agents@[j]).0@ == ws.agents@[j].name@
                        && agents@[j].1@ == ws.agents@[j].work_dir@,
            decreases ws.agents@.len() - i,
        {
            agents.push((ws.agents[i].name.clone(), ws.agents[i].work_dir.clone()));
            i += 1;
        }
        CollectorConfig { interval, volumes, agents }
    }
}

// ─── Publishing ─────────────────────────────────────────────────────────────

/// The number of an optional size.
pub open spec fn opt_size(o: Option<u64>) -> Option<int> {
    match o {
        Some(n) => Some(n as int),
        None => None,
    }
}

/// The JSON form of a sampled volume.
pub open spec fn volume_model(v: VolumeSample) -> JsonModel {
    JsonModel::Object(
        seq![
            ("mount"@, JsonModel::Text(v.mount@)),
            ("source"@, opt_text_model(opt_text(v.source))),
            ("size_bytes"@, opt_number_model(opt_size(v.size_bytes))),
            ("used_bytes"@, opt_number_model(opt_size(v.used_bytes))),
            ("avail_bytes"@, opt_number_model(opt_size(v.avail_bytes))),
        ],
    )
}

/// The JSON form of a sampled home directory.
pub open spec fn agent_disk_model(a: AgentDiskSample) -> JsonModel {
    JsonModel::Object(
        seq![
            ("agent"@, JsonModel::Text(a.agent@)),
            ("home_dir"@, JsonModel::Text(a.home_dir@)),
            ("home_dir_bytes"@, opt_number_model(opt_size(a.home_dir_bytes))),
        ],
    )
}

/// The JSON form of all samples.
pub open spec fn snapshot_model(s: DiskSnapshot) -> JsonModel {
    JsonModel::Object(
        seq![
            ("updated_at"@, opt_text_model(opt_text(s.updated_at))),
            (
                "volumes"@,
                JsonModel::List(Seq::new(s.volumes@.len(), |i: int| volume_model(s.volumes@[i]))),
            ),
            (
                "agents"@,
                JsonModel::List(
                    Seq::new(s.agents@.len(), |i: int| agent_disk_model(s.agents@[i])),
                ),
            ),
        ],
    )
}

fn opt_size_json(o: Option<u64>) -> (r: Json)
    ensures
        r@ == opt_number_model(opt_size(o)),
{
    match o {
        Some(n) => Json::uint(n),
        None => Json::Null,
    }
}

fn volume_json(v: &VolumeSample) -> (r: Json)
    ensures
        r@ == volume_model(*v),
{
    let mut f = Fields::new();
    f.put_text("mount", &v.mount);
    f.put("source", Json::opt_text(&v.source));
    f.put("size_bytes", opt_size_json(v.size_bytes));
    f.put("used_bytes", opt_size_json(v.used_bytes));
    f.put("avail_bytes", opt_size_json(v.avail_bytes));
    assert(f@ =~= volume_model(*v)->Object_0);
    f.object()
}

fn agent_disk_json(a: &AgentDiskSample) -> (r: Json)
    ensures
        r@ == agent_disk_model(*a),
{
    let mut f = Fields::new();
    f.put_text("agent", &a.agent);
    f.put_text("home_dir", &a.home_dir);
    f.put("home_dir_bytes", opt_size_json(a.home_dir_bytes));
    assert(f@ =~= agent_disk_model(*a)->Object_0);
    f.object()
}

impl DiskSnapshot {
    /// The JSON form of the samples.
    pub fn to_json(&self) -> (r: Json)
        ensures
            r@ == snapshot_model(*self),
    {
        let mut volumes = Items::new();
        let mut i: usize = 0;
        while i < self.volumes.len()
            invariant
                i <= self.volumes@.len(),
                volumes@.len() == i,
                forall|j: int|
                    0 <= j < i ==> #[trigger] volumes@[j] == volume_model(self.volumes@[j]),
            decreases self.volumes@.len() - i,
        {
            volumes.put(volume_json(&self.volumes[i]));
            i += 1;
        }
        let mut agents = Items::new();
        let mut k: usize = 0;
        while k < self.agents.len()
            invariant
                k <= self.agents@.len(),
                agents@.len() == k,
                forall|j: int|
                    0 <= j < k ==> #[trigger] agents@[j] == agent_disk_model(self.agents@[j]),
            decreases self.agents@.len() - k,
        {
            agents.put(agent_disk_json(&self.agents[k]));
            k += 1;
        }
        assert(volumes@ =~= Seq::new(
            self.volumes@.len(),
            |i: int| volume_model(self.volumes@[i]),
        ));
        assert(agents@ =~= Seq::new(
            self.agents@.len(),
            |i: int| agent_disk_model(self.agents@[i]),
        ));
        let mut f = Fields::new();
        f.put("updated_at", Json::opt_text(&self.updated_at));
        f.put("volumes", volumes.list());
        f.put("agents", agents.list());
        assert(f@ =~= snapshot_model(*self)->Object_0);
        f.object()
    }
}

/// The contents of the message that new samples are there.
pub open spec fn updated_message(id: Seq<char>, snapshot: DiskSnapshot) -> MessageModel {
    MessageModel {
        id,
        source: "metrics"@,
        target: "broadcast"@,
        payload: JsonModel::Object(
            seq![
                ("type"@, JsonModel::Text("metrics.updated"@)),
                ("snapshot"@, snapshot_model(snapshot)),
            ],
        ),
        reply_to: None,
        metadata: BusMetadata { priority: DEFAULT_PRIORITY, fresh: false },
    }
}

/// The message that new samples are there, under a new id.
pub fn publish_metrics_updated(snapshot: &DiskSnapshot) -> (r: BusMessage)
    ensures
        is_uuid(r@.id),
        r@ == updated_message(r@.id, *snapshot),
{
    let mut payload = Fields::new();
    payload.put_text("type", "metrics.updated");
    payload.put("snapshot", snapshot.to_json());
    assert(payload@ =~= updated_message(Seq::empty(), *snapshot).payload->Object_0);
    BusMessage {
        id: new_id(),
        source: String::from_str("metrics"),
        target: String::from_str("broadcast"),
        payload: payload.object(),
        reply_to: None,
        metadata: BusMetadata { priority: DEFAULT_PRIORITY, fresh: false },
    }
}

// ─── Manual refresh ─────────────────────────────────────────────────────────

/// The answer to a request for a refresh.
#[derive(Debug, Clone, Copy, PartialEq, Eq)]
pub enum RefreshGate {
    /// Go ahead.
    Allowed,
    /// Too soon after the last one. Try again in so many seconds.
    TooSoon { retry_after_secs: u64 },
}

/// The nanoseconds of a second.
pub const NANOS_PER_SEC: u128 = 1_000_000_000;

/// The time since the last refresh, in nanoseconds.
pub open spec fn since_refresh(prev: u128, now: u128) -> nat {
    if now > prev {
        (now - prev) as nat
    } else {
        0
    }
}

/// The seconds to wait where a refresh comes too soon: at least one.
pub open spec fn retry_after(min_interval: nat, elapsed: nat) -> nat {
    let secs = ((min_interval - elapsed) as nat) / NANOS_PER_SEC as nat;
    if secs >= 1 {
        secs
    } else {
        1
    }
}

/// The one slot for refreshes on request, with the time of the last one.
pub struct RefreshSlot {
    pub last: Option<u128>,
}

/// The longest interval, in nanoseconds: its seconds fit in 64 bits.
pub const MAX_INTERVAL: u128 = 18_446_744_073_709_551_615_999_999_999;

/// Whether `r` says that a refresh is due, and `after` is noted from then on.
pub open spec fn gates(
    before: RefreshSlot,
    after: RefreshSlot,
    min_interval: u128,
    now: u128,
    r: RefreshGate,
) -> bool {
    ({
        let min = min_interval as nat;
        match before.last {
            Some(prev) => if since_refresh(prev, now) < min {
                &&& r == (RefreshGate::TooSoon {
                    retry_after_secs: retry_after(min, since_refresh(prev, now)) as u64,
                })
                &&& 1 <= retry_after(min, since_refresh(prev, now)) <= u64::MAX
                &&& after == before
            } else {
                r == RefreshGate::Allowed && after.last == Some(now)
            },
            None => r == RefreshGate::Allowed && after.last == Some(now),
        }
    })
}

/// Claims the slot for a refresh. It is free where the last refresh lies at
/// least `min_interval` back. Times are in nanoseconds.
pub fn check_refresh_gate(slot: &mut RefreshSlot, min_interval: u128, now: u128) -> (r:
    RefreshGate)
    requires
        min_interval <= MAX_INTERVAL,
    ensures
        gates(*old(slot), *final(slot), min_interval, now, r),
{
    let min: u128 = min_interval;
    match slot.last {
        Some(prev) => {
            let elapsed: u128 = if now > prev {
                now - prev
            } else {
                0
            };
            if elapsed < min {
                let secs: u128 = (min - elapsed) / NANOS_PER_SEC;
                return RefreshGate::TooSoon {
                    retry_after_secs: if secs >= 1 {
                        secs as u64
                    } else {
                        1
                    },
                };
            }
        },
        None => {},
    }
    slot.last = Some(now);
    RefreshGate::Allowed
}

/// Of two requests within the interval, the second is turned away.
pub proof fn second_refresh_is_turned_away(min: nat, first: u128, second: u128)
    requires
        first <= second,
        second - first < min,
    ensures
        since_refresh(first, second) < min,
{
}

// ─── What the samples tell ──────────────────────────────────────────────────

/// A size in kibibytes is so many times 1024 bytes, as far as 64 bits hold it.
pub proof fn a_kibibyte_has_1024_bytes(n: nat)
    ensures
        n * 1024 <= u64::MAX ==> kib(n) == 1024 * n,
        kib(n) <= u64::MAX,
{
}

/// A column of sizes is a number and the letter `K`, in kibibytes.
pub proof fn size_columns_are_kibibytes(n: u64)
    ensures
        k_field(decimal(n as nat).push('K')) == Some(kib(n as nat)),
        k_field(decimal(n as nat)) == Some(kib(n as nat)),
{
    let d = decimal(n as nat);
    decimal_is_read_back(n as nat, u64::MAX as nat);
    assert(d.push('K').drop_last() =~= d);
    assert(all_digits(d)) by {
        if d.len() > 0 && d[0] == '+' {
            assert(parse_unsigned(d, u64::MAX as nat) is Some);
            decimal_has_no_sign(n as nat);
        }
    }
    assert(is_digit(d[d.len() - 1]));
    assert(trim_end_char(d, 'K') == d);
    assert(trim_end_char(d.push('K'), 'K') == trim_end_char(d, 'K'));
}

proof fn decimal_has_no_sign(n: nat)
    ensures
        decimal(n).len() > 0,
        is_digit(decimal(n)[0]),
    decreases n,
{
    if n >= 10 {
        decimal_has_no_sign(n / 10);
        assert(decimal(n)[0] == decimal(n / 10)[0]);
    }
}

/// The row of a volume states its device, its size, what is used and what is left, in this
/// order.
pub proof fn volume_rows_are_read_in_order(
    line: Seq<char>,
    source: Seq<char>,
    size: u64,
    used: u64,
    avail: u64,
)
    requires
        words_spec(line).len() >= 4,
        words_spec(line)[0] == source,
        words_spec(line)[1] == decimal(size as nat).push('K'),
        words_spec(line)[2] == decimal(used as nat).push('K'),
        words_spec(line)[3] == decimal(avail as nat).push('K'),
    ensures
        df_row(line) == Some((source, kib(size as nat), kib(used as nat), kib(avail as nat))),
{
    size_columns_are_kibibytes(size);
    size_columns_are_kibibytes(used);
    size_columns_are_kibibytes(avail);
}

/// A volume is sampled from the second line that the program prints; where there is none,
/// or the program fails, the sample is empty and a warning says so.
pub proof fn volumes_are_sampled_from_the_second_line(
    mount: Seq<char>,
    outcome: CommandOutcome,
    r: (VolumeSample, Option<String>),
)
    requires
        samples_volume(mount, outcome, r),
    ensures
        r.0.mount@ == mount,
        r.1 is None <==> r.0.size_bytes is Some,
        r.0.size_bytes is Some <==> (outcome matches CommandOutcome::Done { stdout } && lines_spec(
            stdout@,
        ).len() >= 2 && df_row(lines_spec(stdout@)[1]) is Some),
        r.0.size_bytes is Some ==> (outcome matches CommandOutcome::Done { stdout } && df_row(
            lines_spec(stdout@)[1],
        ) matches Some((source, size, used, avail)) && opt_text(r.0.source) == Some(source)
            && r.0.size_bytes == Some(size as u64) && r.0.used_bytes == Some(used as u64)
            && r.0.avail_bytes == Some(avail as u64)),
        r.0.size_bytes is None ==> r.0.source is None && r.0.used_bytes is None
            && r.0.avail_bytes is None,
{
}

/// The size of a home directory is the first number that the program prints, in kibibytes,
/// even where the program complains; without one there is a warning.
pub proof fn homes_are_sampled_from_the_first_number(
    agent: Seq<char>,
    home_dir: Seq<char>,
    outcome: Option<&CommandOutcome>,
    r: (AgentDiskSample, Option<String>),
    n: u64,
)
    requires
        samples_home(agent, home_dir, outcome, r),
    ensures
        r.0.agent@ == agent,
        r.0.home_dir@ == home_dir,
        r.1 is None <==> r.0.home_dir_bytes is Some,
        (outcome matches Some(o) && (printed(*o) matches Some(text) && lines_spec(text).len() > 0
            && words_spec(lines_spec(text)[0]).len() > 0 && words_spec(lines_spec(text)[0])[0]
            == decimal(n as nat))) ==> r.0.home_dir_bytes == Some(kib(n as nat) as u64),
        outcome is None ==> r.0.home_dir_bytes is None,
{
    decimal_is_read_back(n as nat, u64::MAX as nat);
}

/// A line of a listing is a size, a tab and a path: the entry has the size in bytes and the
/// name of the path; the line of the directory itself is no entry.
pub proof fn listing_lines_are_entries(root: Seq<char>, name: Seq<char>, n: u64)
    requires
        root.len() > 0,
        name.len() > 0,
        !name.contains('/'),
        name != "."@ && name != ".."@,
        trim_spec(root + "/"@ + name).len() > 0,
        trim_end_char(root, '/') == root,
    ensures
        breakdown_entry(decimal(n as nat) + "\t"@ + (root + "/"@ + name), root) == Some(
            BreakdownModel { name, bytes: kib(n as nat) as u64 },
        ),
        trim_spec(root).len() > 0 ==> breakdown_entry(decimal(n as nat) + "\t"@ + root, root)
            is None,
{
    reveal_strlit("/");
    let path = root + "/"@ + name;
    line_splits_at_the_tab(n, path);
    if trim_spec(root).len() > 0 {
        line_splits_at_the_tab(n, root);
    }
    decimal_is_read_back(n as nat, u64::MAX as nat);
    assert(name[name.len() - 1] != '/') by {
        assert(name.contains(name[name.len() - 1]));
    }
    assert(path.last() == name.last());
    assert(trim_end_char(path, '/') == path);
    assert(path.len() > root.len());
    after_last_is(path, root.len() as int + 1);
    assert(path_tail(path) =~= name);
    reveal_strlit(".");
    assert(path != "."@);
}

proof fn after_last_is(s: Seq<char>, i: int)
    requires
        0 < i <= s.len(),
        s[i - 1] == '/',
        forall|j: int| i <= j < s.len() ==> s[j] != '/',
    ensures
        after_last(s, '/') == i,
    decreases s.len(),
{
    if i < s.len() {
        assert(s.last() == s[s.len() - 1]);
        let t = s.drop_last();
        assert(t[i - 1] == s[i - 1]);
        after_last_is(t, i);
    }
}

proof fn line_splits_at_the_tab(n: u64, path: Seq<char>)
    requires
        trim_spec(path).len() > 0,
    ensures
        size_and_path(decimal(n as nat) + "\t"@ + path) == Some((decimal(n as nat), path)),
{
    reveal_strlit("\t");
    let d = decimal(n as nat);
    let line = d + "\t"@ + path;
    decimal_has_no_sign(n as nat);
    decimal_is_digits(n as nat);
    assert(line[0] == d[0]);
    assert(!is_white_space(d[0]));
    assert(trim_start_spec(line) == line);
    word_ends_at(line, d.len() as int);
    assert(line.take(d.len() as int) =~= d);
    let rest = line.skip(d.len() as int);
    assert(rest[0] == '\t');
    assert(rest.skip(1) =~= path);
}

proof fn decimal_is_digits(n: nat)
    ensures
        forall|i: int| 0 <= i < decimal(n).len() ==> is_digit(#[trigger] decimal(n)[i]),
    decreases n,
{
    if n >= 10 {
        decimal_is_digits(n / 10);
        let head = decimal(n / 10);
        assert forall|i: int| 0 <= i < decimal(n).len() implies is_digit(#[trigger] decimal(n)[i]) by {
            if i < head.len() {
                assert(decimal(n)[i] == head[i]);
            }
        }
    }
}

proof fn word_ends_at(s: Seq<char>, k: int)
    requires
        0 <= k < s.len(),
        is_white_space(s[k]),
        forall|i: int| 0 <= i < k ==> !is_white_space(#[trigger] s[i]),
    ensures
        word_len(s) == k,
    decreases k,
{
    if k > 0 {
        let t = s.skip(1);
        assert(t[k - 1] == s[k]);
        assert forall|i: int| 0 <= i < k - 1 implies !is_white_space(#[trigger] t[i]) by {
            assert(t[i] == s[i + 1]);
        }
        word_ends_at(t, k - 1);
    }
}

/// A refresh is due where there was none, or where the interval is over; it is then noted.
/// One that comes too soon changes nothing, and is told how long to wait: what is left of
/// the interval in whole seconds, one at least.
pub proof fn refreshes_keep_their_interval(
    before: RefreshSlot,
    after: RefreshSlot,
    min_interval: u128,
    now: u128,
    r: RefreshGate,
)
    requires
        gates(before, after, min_interval, now, r),
        min_interval <= MAX_INTERVAL,
    ensures
        r == RefreshGate::Allowed <==> (before.last matches Some(prev) ==> (if now > prev {
            now - prev
        } else {
            0
        }) >= min_interval),
        r == RefreshGate::Allowed ==> after.last == Some(now),
        r != RefreshGate::Allowed ==> after == before,
        r matches RefreshGate::TooSoon { retry_after_secs } ==> retry_after_secs >= 1 && ({
            let prev = before.last->0;
            let left = min_interval - (if now > prev {
                now - prev
            } else {
                0
            });
            retry_after_secs == (if left / 1_000_000_000 >= 1 {
                left / 1_000_000_000
            } else {
                1
            })
        }),
{
}

/// The news of a sample goes to all, and carries the sample.
pub proof fn samples_are_broadcast(id: Seq<char>, s: DiskSnapshot)
    ensures
        updated_message(id, s).target == "broadcast"@,
        updated_message(id, s).source == "metrics"@,
        updated_message(id, s).payload.text_field("type"@) == Some("metrics.updated"@),
        updated_message(id, s).payload.get("snapshot"@) == Some(snapshot_model(s)),
{
    reveal_strlit("type");
    reveal_strlit("snapshot");
    assert("type"@.len() == 4 && "snapshot"@.len() == 8);
    let fields = updated_message(id, s).payload->Object_0;
    lookup_steps(fields, "type"@, 0);
    lookup_steps(fields, "snapshot"@, 1);
}

/// A volume is told with its mount and its device.
pub proof fn volume_is_told(v: VolumeSample)
    ensures
        volume_model(v).text_field("mount"@) == Some(v.mount@),
        volume_model(v).text_field("source"@) == opt_text(v.source),
        volume_model(v).get("size_bytes"@) == Some(opt_number_model(opt_size(v.size_bytes))),
        volume_model(v).get("used_bytes"@) == Some(opt_number_model(opt_size(v.used_bytes))),
        volume_model(v).get("avail_bytes"@) == Some(opt_number_model(opt_size(v.avail_bytes))),
{
    reveal_strlit("mount");
    reveal_strlit("source");
    reveal_strlit("size_bytes");
    reveal_strlit("used_bytes");
    reveal_strlit("avail_bytes");
    assert("mount"@.len() == 5 && "source"@.len() == 6 && "size_bytes"@.len() == 10 && "used_bytes"@.len() == 10 && "avail_bytes"@.len() == 11);
    assert("size_bytes"@[0] != "used_bytes"@[0]);
    let fields = volume_model(v)->Object_0;
    lookup_steps(fields, "mount"@, 0);
    lookup_steps(fields, "source"@, 1);
    lookup_steps(fields, "size_bytes"@, 2);
    lookup_steps(fields, "used_bytes"@, 3);
    lookup_steps(fields, "avail_bytes"@, 4);
}

} // verus!
