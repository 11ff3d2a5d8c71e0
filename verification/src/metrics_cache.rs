//! The file that keeps the samples of disk usage over a restart.
use crate::clock::{read_rfc3339, rfc3339_time};
use crate::json::{item_models, key_texts, listed_record, record, Json, JsonModel};
use crate::json_text::{
    compact_text, faithful, parse, parsed_json, pretty, pretty_text, TEXT_DEPTH,
};
use crate::message::{lookup_steps, optional_text, read_optional_text};
use crate::metrics::{
    agent_disk_model, snapshot_model, volume_model, AgentDiskSample, DiskSnapshot, VolumeSample,
};
use crate::tasklog_file::{optional_count, read_count};
use crate::text::opt_text;
use crate::web::audit::{join, join_path};
use vstd::prelude::*;
use vstd::string::*;

verus! {

/// Where the samples are kept under a home directory.
pub fn default_cache_path(home: Option<&str>) -> (r: String)
    ensures
        r@ == join_path(
            join_path(
                join_path(
                    match home {
                        Some(h) => h@,
                        None => "/tmp"@,
                    },
                    ".deskd"@,
                ),
                "cache"@,
            ),
            "disk.json"@,
        ),
{
    let dir = match home {
        Some(h) => join(h, ".deskd"),
        None => join("/tmp", ".deskd"),
    };
    join(&join(&dir, "cache"), "disk.json")
}

/// The contents of a sampled volume.
pub struct VolumeView {
    pub mount: Seq<char>,
    pub source: Option<Seq<char>>,
    pub size_bytes: Option<u64>,
    pub used_bytes: Option<u64>,
    pub avail_bytes: Option<u64>,
}

/// The contents of a sampled home directory.
pub struct HomeView {
    pub agent: Seq<char>,
    pub home_dir: Seq<char>,
    pub home_dir_bytes: Option<u64>,
}

/// The contents of all samples.
pub struct SnapshotView {
    pub updated_at: Option<Seq<char>>,
    pub volumes: Seq<VolumeView>,
    pub agents: Seq<HomeView>,
}

impl View for VolumeSample {
    type V = VolumeView;

    open spec fn view(&self) -> VolumeView {
        VolumeView {
            mount: self.mount@,
            source: opt_text(self.source),
            size_bytes: self.size_bytes,
            used_bytes: self.used_bytes,
            avail_bytes: self.avail_bytes,
        }
    }
}

impl View for AgentDiskSample {
    type V = HomeView;

    open spec fn view(&self) -> HomeView {
        HomeView {
            agent: self.agent@,
            home_dir: self.home_dir@,
            home_dir_bytes: self.home_dir_bytes,
        }
    }
}

impl View for DiskSnapshot {
    type V = SnapshotView;

    open spec fn view(&self) -> SnapshotView {
        SnapshotView {
            updated_at: opt_text(self.updated_at),
            volumes: volume_views(self.volumes@),
            agents: home_views(self.agents@),
        }
    }
}

/// The contents of sampled volumes.
pub open spec fn volume_views(v: Seq<VolumeSample>) -> Seq<VolumeView> {
    Seq::new(v.len(), |i: int| v[i]@)
}

/// The contents of sampled home directories.
pub open spec fn home_views(v: Seq<AgentDiskSample>) -> Seq<HomeView> {
    Seq::new(v.len(), |i: int| v[i]@)
}

/// The keys of a sampled volume, in order.
pub open spec fn volume_keys() -> Seq<Seq<char>> {
    seq!["mount"@, "source"@, "size_bytes"@, "used_bytes"@, "avail_bytes"@]
}

/// The sampled volume that a JSON value describes.
pub open spec fn volume_of(j: JsonModel) -> Option<VolumeView> {
    let j = record(j, volume_keys(), 5);
    let source = optional_text(j, "source"@);
    let size = optional_count(j, "size_bytes"@);
    let used = optional_count(j, "used_bytes"@);
    let avail = optional_count(j, "avail_bytes"@);
    if j.text_field("mount"@) is Some && source is Some && size is Some && used is Some
        && avail is Some {
        Some(
            VolumeView {
                mount: j.text_field("mount"@)->0,
                source: source->0,
                size_bytes: size->0,
                used_bytes: used->0,
                avail_bytes: avail->0,
            },
        )
    } else {
        None
    }
}

/// The keys of a sampled home directory, in order.
pub open spec fn home_keys() -> Seq<Seq<char>> {
    seq!["agent"@, "home_dir"@, "home_dir_bytes"@]
}

/// The sampled home directory that a JSON value describes.
pub open spec fn home_of(j: JsonModel) -> Option<HomeView> {
    let j = record(j, home_keys(), 3);
    let bytes = optional_count(j, "home_dir_bytes"@);
    if j.text_field("agent"@) is Some && j.text_field("home_dir"@) is Some && bytes is Some {
        Some(
            HomeView {
                agent: j.text_field("agent"@)->0,
                home_dir: j.text_field("home_dir"@)->0,
                home_dir_bytes: bytes->0,
            },
        )
    } else {
        None
    }
}

/// The sampled volumes that JSON values describe, where each of them does.
pub open spec fn volumes_of(items: Seq<JsonModel>) -> Option<Seq<VolumeView>> {
    if forall|i: int| 0 <= i < items.len() ==> volume_of(#[trigger] items[i]) is Some {
        Some(Seq::new(items.len(), |i: int| volume_of(items[i])->0))
    } else {
        None
    }
}

/// The sampled home directories that JSON values describe, where each of them
/// does.
pub open spec fn homes_of(items: Seq<JsonModel>) -> Option<Seq<HomeView>> {
    if forall|i: int| 0 <= i < items.len() ==> home_of(#[trigger] items[i]) is Some {
        Some(Seq::new(items.len(), |i: int| home_of(items[i])->0))
    } else {
        None
    }
}

/// Whether a time of sampling is one, where it is given.
pub open spec fn is_time(o: Option<Seq<char>>) -> bool {
    o matches Some(t) ==> rfc3339_time(t) is Some
}

/// The keys of samples, in order.
pub open spec fn snapshot_keys() -> Seq<Seq<char>> {
    seq!["updated_at"@, "volumes"@, "agents"@]
}

/// The samples that a JSON value describes.
pub open spec fn snapshot_of(j: JsonModel) -> Option<SnapshotView> {
    let j = record(j, snapshot_keys(), 3);
    match (
        optional_text(j, "updated_at"@),
        j.list_field("volumes"@),
        j.list_field("agents"@),
    ) {
        (Some(updated_at), Some(volumes), Some(agents)) => if is_time(updated_at) && volumes_of(
            volumes,
        ) is Some && homes_of(agents) is Some {
            Some(
                SnapshotView {
                    updated_at,
                    volumes: volumes_of(volumes)->0,
                    agents: homes_of(agents)->0,
                },
            )
        } else {
            None
        },
        _ => None,
    }
}

/// The samples that a text denotes.
pub open spec fn snapshot_at(text: Seq<char>) -> Option<SnapshotView> {
    match parsed_json(text) {
        Some(j) => snapshot_of(j),
        None => None,
    }
}

fn read_volume(j: &Json) -> (r: Option<VolumeSample>)
    ensures
        match r {
            Some(v) => volume_of(j@) == Some(v@),
            None => volume_of(j@) is None,
        },
{
    let keys: Vec<&'static str> = vec![
        "mount",
        "source",
        "size_bytes",
        "used_bytes",
        "avail_bytes",
    ];
    assert(key_texts(keys@) =~= volume_keys());
    let named = listed_record(j, &keys, 5);
    let j = match &named {
        Some(o) => o,
        None => j,
    };
    match (
        j.text_field("mount"),
        read_optional_text(j, "source"),
        read_count(j, "size_bytes"),
        read_count(j, "used_bytes"),
        read_count(j, "avail_bytes"),
    ) {
        (Some(mount), Some(source), Some(size), Some(used), Some(avail)) => Some(
            VolumeSample {
                mount: String::from_str(mount),
                source,
                size_bytes: size,
                used_bytes: used,
                avail_bytes: avail,
            },
        ),
        _ => None,
    }
}

fn read_home(j: &Json) -> (r: Option<AgentDiskSample>)
    ensures
        match r {
            Some(v) => home_of(j@) == Some(v@),
            None => home_of(j@) is None,
        },
{
    let keys: Vec<&'static str> = vec!["agent", "home_dir", "home_dir_bytes"];
    assert(key_texts(keys@) =~= home_keys());
    let named = listed_record(j, &keys, 3);
    let j = match &named {
        Some(o) => o,
        None => j,
    };
    match (j.text_field("agent"), j.text_field("home_dir"), read_count(j, "home_dir_bytes")) {
        (Some(agent), Some(home_dir), Some(bytes)) => Some(
            AgentDiskSample {
                agent: String::from_str(agent),
                home_dir: String::from_str(home_dir),
                home_dir_bytes: bytes,
            },
        ),
        _ => None,
    }
}

fn read_volumes(items: &Vec<Json>) -> (r: Option<Vec<VolumeSample>>)
    ensures
        match r {
            Some(v) => volumes_of(item_models(items@)) == Some(volume_views(v@)),
            None => volumes_of(item_models(items@)) is None,
        },
{
    let ghost all = item_models(items@);
    let mut out: Vec<VolumeSample> = Vec::new();
    let mut i: usize = 0;
    while i < items.len()
        invariant
            i <= items@.len(),
            all == item_models(items@),
            out@.len() == i,
            forall|j: int| 0 <= j < i ==> volume_of(#[trigger] all[j]) == Some(out@[j]@),
        decreases items@.len() - i,
    {
        assert(all[i as int] == items@[i as int]@);
        match read_volume(&items[i]) {
            Some(v) => {
                out.push(v);
            },
            None => {
                assert(volume_of(all[i as int]) is None);
                return None;
            },
        }
        i += 1;
    }
    assert(volumes_of(all)->0 =~= volume_views(out@));
    Some(out)
}

fn read_homes(items: &Vec<Json>) -> (r: Option<Vec<AgentDiskSample>>)
    ensures
        match r {
            Some(v) => homes_of(item_models(items@)) == Some(home_views(v@)),
            None => homes_of(item_models(items@)) is None,
        },
{
    let ghost all = item_models(items@);
    let mut out: Vec<AgentDiskSample> = Vec::new();
    let mut i: usize = 0;
    while i < items.len()
        invariant
            i <= items@.len(),
            all == item_models(items@),
            out@.len() == i,
            forall|j: int| 0 <= j < i ==> home_of(#[trigger] all[j]) == Some(out@[j]@),
        decreases items@.len() - i,
    {
        assert(all[i as int] == items@[i as int]@);
        match read_home(&items[i]) {
            Some(v) => {
                out.push(v);
            },
            None => {
                assert(home_of(all[i as int]) is None);
                return None;
            },
        }
        i += 1;
    }
    assert(homes_of(all)->0 =~= home_views(out@));
    Some(out)
}

/// The samples that a JSON value describes. `time` is the instant at which it says
/// they were taken, where it names one.
pub fn snapshot_from_json(j: &Json, time: Option<(i64, u32)>) -> (r: Option<DiskSnapshot>)
    requires
        optional_text(record(j@, snapshot_keys(), 3), "updated_at"@) matches Some(Some(t)) ==> time
            == rfc3339_time(t),
    ensures
        match r {
            Some(s) => snapshot_of(j@) == Some(s@),
            None => snapshot_of(j@) is None,
        },
{
    let keys: Vec<&'static str> = vec!["updated_at", "volumes", "agents"];
    assert(key_texts(keys@) =~= snapshot_keys());
    let named = listed_record(j, &keys, 3);
    let j = match &named {
        Some(o) => o,
        None => j,
    };
    let updated_at = match read_optional_text(j, "updated_at") {
        Some(o) => o,
        None => {
            return None;
        },
    };
    if updated_at.is_some() && time.is_none() {
        return None;
    }
    match (j.list_field("volumes"), j.list_field("agents")) {
        (Some(vs), Some(hs)) => match (read_volumes(vs), read_homes(hs)) {
            (Some(volumes), Some(agents)) => Some(DiskSnapshot { updated_at, volumes, agents }),
            _ => None,
        },
        _ => None,
    }
}

/// The samples that a cache file holds. None where its contents are malformed.
pub fn load_cache(text: &str) -> (r: Option<DiskSnapshot>)
    ensures
        match r {
            Some(s) => snapshot_at(text@) == Some(s@),
            None => snapshot_at(text@) is None,
        },
{
    match parse(text) {
        Some(read) => {
            let keys: Vec<&'static str> = vec!["updated_at", "volumes", "agents"];
            assert(key_texts(keys@) =~= snapshot_keys());
            let named = listed_record(&read, &keys, 3);
            let j = match &named {
                Some(o) => o,
                None => &read,
            };
            let time = match read_optional_text(j, "updated_at") {
                Some(Some(t)) => read_rfc3339(&t),
                _ => None,
            };
            snapshot_from_json(j, time)
        },
        None => None,
    }
}

/// What a cache file holds. The samples come back out of it.
pub fn save_cache(snap: &DiskSnapshot) -> (r: String)
    ensures
        r@ == pretty_text(compact_text(snapshot_model(*snap))),
        is_time(opt_text(snap.updated_at)) ==> snapshot_at(r@) == Some(snap@),
{
    proof {
        snapshots_are_faithful(*snap);
        if is_time(opt_text(snap.updated_at)) {
            snapshot_round_trip(*snap);
        }
    }
    pretty(&snap.to_json())
}

proof fn cache_keys_differ()
    ensures
        "size_bytes"@ != "used_bytes"@,
        "mount"@.len() == 5 && "source"@.len() == 6 && "size_bytes"@.len() == 10,
        "used_bytes"@.len() == 10 && "avail_bytes"@.len() == 11,
        "agent"@.len() == 5 && "home_dir"@.len() == 8 && "home_dir_bytes"@.len() == 14,
        "updated_at"@.len() == 10 && "volumes"@.len() == 7 && "agents"@.len() == 6,
{
    reveal_strlit("mount");
    reveal_strlit("source");
    reveal_strlit("size_bytes");
    reveal_strlit("used_bytes");
    reveal_strlit("avail_bytes");
    reveal_strlit("agent");
    reveal_strlit("home_dir");
    reveal_strlit("home_dir_bytes");
    reveal_strlit("updated_at");
    reveal_strlit("volumes");
    reveal_strlit("agents");
    assert("size_bytes"@[0] != "used_bytes"@[0]);
}

proof fn volume_round_trip(v: VolumeSample)
    ensures
        volume_of(volume_model(v)) == Some(v@),
{
    cache_keys_differ();
    let f = volume_model(v)->Object_0;
    lookup_steps(f, "mount"@, 0);
    lookup_steps(f, "source"@, 1);
    lookup_steps(f, "size_bytes"@, 2);
    lookup_steps(f, "used_bytes"@, 3);
    lookup_steps(f, "avail_bytes"@, 4);
}

proof fn home_round_trip(a: AgentDiskSample)
    ensures
        home_of(agent_disk_model(a)) == Some(a@),
{
    cache_keys_differ();
    let f = agent_disk_model(a)->Object_0;
    lookup_steps(f, "agent"@, 0);
    lookup_steps(f, "home_dir"@, 1);
    lookup_steps(f, "home_dir_bytes"@, 2);
}

/// Samples come back out of their JSON form.
pub proof fn snapshot_round_trip(s: DiskSnapshot)
    requires
        is_time(opt_text(s.updated_at)),
    ensures
        snapshot_of(snapshot_model(s)) == Some(s@),
{
    cache_keys_differ();
    let f = snapshot_model(s)->Object_0;
    lookup_steps(f, "updated_at"@, 0);
    lookup_steps(f, "volumes"@, 1);
    lookup_steps(f, "agents"@, 2);
    let vs = f[1].1->List_0;
    let hs = f[2].1->List_0;
    assert forall|i: int| 0 <= i < vs.len() implies volume_of(#[trigger] vs[i]) == Some(
        s.volumes@[i]@,
    ) by {
        volume_round_trip(s.volumes@[i]);
    }
    assert forall|i: int| 0 <= i < hs.len() implies home_of(#[trigger] hs[i]) == Some(
        s.agents@[i]@,
    ) by {
        home_round_trip(s.agents@[i]);
    }
    assert(volumes_of(vs)->0 =~= volume_views(s.volumes@));
    assert(homes_of(hs)->0 =~= home_views(s.agents@));
}

proof fn snapshots_are_faithful(s: DiskSnapshot)
    ensures
        faithful(snapshot_model(s), TEXT_DEPTH as nat),
{
    cache_keys_differ();
    let f = snapshot_model(s)->Object_0;
    let vs = f[1].1->List_0;
    let hs = f[2].1->List_0;
    assert forall|i: int| 0 <= i < vs.len() implies faithful(#[trigger] vs[i], 125) by {
        let g = vs[i]->Object_0;
        assert forall|k: int| 0 <= k < g.len() implies faithful((#[trigger] g[k]).1, 124) by {}
    }
    assert forall|i: int| 0 <= i < hs.len() implies faithful(#[trigger] hs[i], 125) by {
        let g = hs[i]->Object_0;
        assert forall|k: int| 0 <= k < g.len() implies faithful((#[trigger] g[k]).1, 124) by {}
    }
    assert(faithful(f[1].1, 126));
    assert(faithful(f[2].1, 126));
    assert forall|k: int| 0 <= k < f.len() implies faithful((#[trigger] f[k]).1, 126) by {}
}

} // verus!
