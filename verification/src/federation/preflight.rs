//! Tailnet identity: which addresses the hub accepts, and whether it may start.
use crate::names::NameSet;
use crate::text::{
    cat, cat3, debug_str, debug_text, lines, lines_spec, rsplit_once, rsplit_once_spec, same, texts,
    trim, trim_spec,
};
use vstd::prelude::*;
use vstd::string::*;

verus! {

/// A node of the tailnet.
#[derive(Debug, Clone)]
pub struct TailnetPeer {
    pub tailscale_ips: Vec<String>,
}

/// What `tailscale status` reports.
#[derive(Debug, Clone)]
pub struct TailnetStatus {
    /// The state of this node: `Running`, `NeedsLogin`, `Stopped` and the like.
    pub backend_state: String,
    /// The addresses of this node.
    pub tailscale_ips: Vec<String>,
    /// The other nodes, each with its key.
    pub peer: Vec<(String, TailnetPeer)>,
}

impl Default for TailnetStatus {
    /// A status that reports nothing.
    fn default() -> (r: TailnetStatus)
        ensures
            r.backend_state@ == Seq::<char>::empty(),
            r.tailscale_ips@.len() == 0,
            r.peer@.len() == 0,
    {
        TailnetStatus {
            backend_state: String::new(),
            tailscale_ips: Vec::new(),
            peer: Vec::new(),
        }
    }
}

impl TailnetStatus {
    /// Whether `ip` is an address of this node or of another node.
    pub open spec fn lists(self, ip: Seq<char>) -> bool {
        ||| texts(self.tailscale_ips@).contains(ip)
        ||| exists|i: int|
            0 <= i < self.peer@.len() && texts(
                (#[trigger] self.peer@[i]).1.tailscale_ips@,
            ).contains(ip)
    }

    /// The addresses from which connections are accepted: those of this node and
    /// of all other nodes.
    pub fn allowed_ips(&self) -> (r: NameSet)
        ensures
            forall|ip: Seq<char>| #[trigger] r@.contains(ip) <==> self.lists(ip),
    {
        let mut set = NameSet::new();
        set.insert_all(&self.tailscale_ips);
        let mut i: usize = 0;
        while i < self.peer.len()
            invariant
                i <= self.peer@.len(),
                forall|ip: Seq<char>| #[trigger]
                    set@.contains(ip) <==> (texts(self.tailscale_ips@).contains(ip)
                        || exists|j: int|
                        0 <= j < i && texts((#[trigger] self.peer@[j]).1.tailscale_ips@).contains(
                            ip,
                        )),
            decreases self.peer@.len() - i,
        {
            let ghost before = set@;
            set.insert_all(&self.peer[i].1.tailscale_ips);
            proof {
                let mine = texts(self.peer@[i as int].1.tailscale_ips@);
                assert forall|ip: Seq<char>| #[trigger]
                    set@.contains(ip) <==> (texts(self.tailscale_ips@).contains(ip)
                        || exists|j: int|
                        0 <= j < i + 1 && texts(
                            (#[trigger] self.peer@[j]).1.tailscale_ips@,
                        ).contains(ip)) by {
                    assert(set@.contains(ip) == (before.contains(ip) || mine.contains(ip)));
                    if before.contains(ip) && !texts(self.tailscale_ips@).contains(ip) {
                        let j = choose|j: int|
                            0 <= j < i && texts(
                                (#[trigger] self.peer@[j]).1.tailscale_ips@,
                            ).contains(ip);
                        assert(0 <= j < i + 1);
                    }
                }
            }
            i += 1;
        }
        set
    }

    /// Whether this node is running.
    pub fn is_healthy(&self) -> (r: bool)
        ensures
            r == (self.backend_state@ == "Running"@),
    {
        same(&self.backend_state, "Running")
    }
}

/// The program that reports the status.
#[derive(Debug, Clone)]
pub struct CliTailnetIdentity {
    pub binary: String,
}

impl CliTailnetIdentity {
    /// The program `tailscale`.
    pub fn new() -> (r: CliTailnetIdentity)
        ensures
            r.binary@ == "tailscale"@,
    {
        CliTailnetIdentity { binary: String::from_str("tailscale") }
    }
}

/// The refusal to start where this node is in another state than `Running`.
pub open spec fn not_running_error(state: Seq<char>) -> Seq<char> {
    "tailscale preflight: backend not Running (state="@ + debug_text(state)
        + ") — run `tailscale up` and re-check"@
}

/// The refusal to start where the status could not be had.
pub open spec fn status_failed_error(reason: Seq<char>) -> Seq<char> {
    "tailscale preflight: status query failed — install tailscale and run `tailscale up`"@ + ": "@
        + reason
}

/// Whether `r` is the status of a tailnet that runs, or the complaint.
pub open spec fn checks_tailnet(
    status: Result<TailnetStatus, String>,
    r: Result<TailnetStatus, String>,
) -> bool {
    match status {
        Err(e) => r matches Err(m) && m@ == status_failed_error(e@),
        Ok(s) => if s.backend_state@ == "Running"@ {
            r == Ok::<TailnetStatus, String>(s)
        } else {
            r matches Err(m) && m@ == not_running_error(s.backend_state@)
        },
    }
}

/// The decision whether the hub may start.
pub fn preflight_or_error(status: Result<TailnetStatus, String>) -> (r: Result<
    TailnetStatus,
    String,
>)
    ensures
        checks_tailnet(status, r),
{
    match status {
        Err(e) => Err(
            cat3(
                "tailscale preflight: status query failed — install tailscale and run `tailscale up`",
                ": ",
                &e,
            ),
        ),
        Ok(s) => {
            if s.is_healthy() {
                Ok(s)
            } else {
                Err(
                    cat3(
                        "tailscale preflight: backend not Running (state=",
                        &debug_str(&s.backend_state),
                        ") — run `tailscale up` and re-check",
                    ),
                )
            }
        },
    }
}

/// How a bind spec is resolved.
#[derive(Debug)]
pub enum BindPlan {
    /// Listen there.
    Listen(String),
    /// Ask `tailscale ip -4` for the address, and listen on this port.
    AskTailscale { port: String },
}

/// Whether `r` is how to come by the address to listen on.
pub open spec fn plans_bind(
    bind: Seq<char>,
    r: Result<BindPlan, String>,
) -> bool {
    match rsplit_once_spec(bind, ':') {
        None => r matches Err(e) && e@ == "federation.hub.bind missing port: "@ + bind,
        Some((left, port)) => if left == "tailscale0"@ {
            r matches Ok(BindPlan::AskTailscale { port: p }) && p@ == port
        } else {
            r matches Ok(BindPlan::Listen(a)) && a@ == bind
        },
    }
}

/// How a bind spec is resolved: the interface name `tailscale0` stands for an
/// address that has to be asked for, anything else passes through. A spec
/// without a port is refused.
pub fn plan_bind(bind: &str) -> (r: Result<BindPlan, String>)
    ensures
        plans_bind(bind@, r),
{
    match rsplit_once(bind, ':') {
        None => Err(cat("federation.hub.bind missing port: ", bind)),
        Some((left, port)) => {
            if same(left, "tailscale0") {
                Ok(BindPlan::AskTailscale { port: String::from_str(port) })
            } else {
                Ok(BindPlan::Listen(String::from_str(bind)))
            }
        },
    }
}

/// The address that the output of `tailscale ip -4` names: its first line.
pub open spec fn first_address(output: Seq<char>) -> Seq<char> {
    let all = lines_spec(output);
    trim_spec(if all.len() > 0 { all[0] } else { Seq::empty() })
}

/// Whether `r` is the address to listen on.
pub open spec fn resolves_bind(
    output: Seq<char>,
    port: Seq<char>,
    binary: Seq<char>,
    r: Result<String, String>,
) -> bool {
    if first_address(output).len() == 0 {
        r matches Err(e) && e@ == "`"@ + binary + " ip -4` returned empty output"@
    } else {
        r matches Ok(a) && a@ == first_address(output) + ":"@ + port
    }
}

/// The address to listen on, from the output of `tailscale ip -4`.
pub fn resolve_tailscale_bind(output: &str, port: &str, tailscale_binary: &str) -> (r: Result<
    String,
    String,
>)
    ensures
        resolves_bind(output@, port@, tailscale_binary@, r),
{
    let all = lines(output);
    let first = if all.len() > 0 {
        assert(texts(all@)[0] == all@[0]@);
        all[0].clone()
    } else {
        String::new()
    };
    let ip = trim(&first);
    if ip.is_empty() {
        Err(cat3("`", tailscale_binary, " ip -4` returned empty output"))
    } else {
        Ok(cat3(ip, ":", port))
    }
}

/// A hub starts where the tailnet runs, and nowhere else.
pub proof fn hubs_need_a_running_tailnet(status: Result<TailnetStatus, String>, r: Result<TailnetStatus, String>)
    requires
        checks_tailnet(status, r),
    ensures
        r is Ok <==> (status matches Ok(s) && s.backend_state@ == "Running"@),
        r is Ok ==> r->Ok_0 == status->Ok_0,
{
}

/// A hub listens on the address that is given, and on the address of the tailnet where the
/// network of it is named; a port is needed.
pub proof fn hubs_listen_where_they_are_told(
    host: Seq<char>,
    port: Seq<char>,
    r: Result<BindPlan, String>,
)
    requires
        plans_bind(host + ":"@ + port, r),
        !port.contains(':'),
    ensures
        host == "tailscale0"@ ==> (r matches Ok(BindPlan::AskTailscale { port: p }) && p@ == port),
        host != "tailscale0"@ ==> (r matches Ok(BindPlan::Listen(a)) && a@ == host + ":"@ + port),
{
    reveal_strlit(":");
    let s = host + ":"@ + port;
    last_colon_is(s, host.len() as int + 1);
    assert(s.take(host.len() as int) =~= host);
    assert(s.skip(host.len() as int + 1) =~= port);
}

proof fn last_colon_is(s: Seq<char>, i: int)
    requires
        0 < i <= s.len(),
        s[i - 1] == ':',
        forall|j: int| i <= j < s.len() ==> s[j] != ':',
    ensures
        crate::text::after_last(s, ':') == i,
    decreases s.len(),
{
    if i < s.len() {
        assert(s.last() == s[s.len() - 1]);
        let t = s.drop_last();
        assert(t[i - 1] == s[i - 1]);
        last_colon_is(t, i);
    }
}

/// The address of the tailnet is the first line that the program prints, with the port
/// behind it.
pub proof fn address_is_the_first_line(
    output: Seq<char>,
    port: Seq<char>,
    binary: Seq<char>,
    r: Result<String, String>,
)
    requires
        resolves_bind(output, port, binary, r),
    ensures
        lines_spec(output).len() > 0 && trim_spec(lines_spec(output)[0]).len() > 0 ==> (r matches Ok(
            a,
        ) && a@ == trim_spec(lines_spec(output)[0]) + ":"@ + port),
        lines_spec(output).len() == 0 ==> r is Err,
{
    assert(trim_spec(Seq::<char>::empty()).len() == 0);
}

} // verus!
