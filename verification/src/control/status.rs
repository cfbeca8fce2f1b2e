//! What is known of a cluster, for showing.

use crate::agent::pooler::PoolRoute;
use crate::agent::status::InstanceRole;
use crate::control::model::{
    connection_uri, instance_name, instance_name_of, login, uri, ClusterManifest, InstancePhase,
};
use crate::control::pooler::{pool_uri, pool_uri_of};
use crate::text::{clone_opt, opt_str, opt_text, push_text, same, texts, trim, trimmed};
use vstd::prelude::*;
use vstd::string::*;

verus! {

/// A cluster's status.
#[derive(Debug, Clone)]
pub struct ClusterStatus {
    pub cluster: String,
    pub generation: i64,
    pub phase: String,
    pub image: String,
    pub instances: Vec<InstanceStatus>,
    pub poolers: Vec<PoolerStatus>,
    pub storage_size: Option<String>,
    pub recent_events: Vec<String>,
}

/// An instance's status.
#[derive(Debug, Clone)]
pub struct InstanceStatus {
    pub instance: String,
    pub container: String,
    pub volume: String,
    pub host_port: u16,
    pub phase: InstancePhase,
    pub container_state: Option<String>,
    pub running: bool,
    pub role: InstanceRole,
    pub accepting_connections: bool,
    pub connection_uri: String,
}

/// A pooler's status.
#[derive(Debug, Clone)]
pub struct PoolerStatus {
    pub pooler: String,
    pub running: bool,
    pub host_port: u16,
    pub connection_uris: Vec<String>,
}

/// How the pools of one cluster are reached on a pooler's port.
pub open spec fn pool_uris(pools: Seq<PoolRoute>, cluster: Seq<char>, host_port: u16) -> Seq<
    Seq<char>,
>
    decreases pools.len(),
{
    if pools.len() == 0 {
        Seq::empty()
    } else {
        let before = pool_uris(pools.drop_last(), cluster, host_port);
        if pools.last().cluster@ == cluster {
            before.push(pool_uri(host_port, pools.last().name@))
        } else {
            before
        }
    }
}

/// A pooler as the status of one of its clusters shows it: with the pools of
/// that cluster alone.
pub fn pooler_status(
    pooler: &str,
    running: bool,
    host_port: u16,
    pools: &Vec<PoolRoute>,
    cluster: &str,
) -> (r: PoolerStatus)
    ensures
        r.pooler@ == pooler@,
        r.running == running,
        r.host_port == host_port,
        texts(r.connection_uris@) == pool_uris(pools@, cluster@, host_port),
{
    let mut uris: Vec<String> = Vec::new();
    let mut i: usize = 0;
    assert(texts(uris@) =~= pool_uris(pools@.take(0), cluster@, host_port));
    while i < pools.len()
        invariant
            i <= pools.len(),
            texts(uris@) == pool_uris(pools@.take(i as int), cluster@, host_port),
        decreases pools.len() - i,
    {
        assert(pools@.take(i + 1).drop_last() =~= pools@.take(i as int));
        if same(pools[i].cluster.as_str(), cluster) {
            push_text(&mut uris, pool_uri_of(host_port, pools[i].name.as_str()));
        }
        i = i + 1;
    }
    assert(pools@.take(i as int) =~= pools@);
    PoolerStatus { pooler: pooler.to_owned(), running, host_port, connection_uris: uris }
}

/// What was found out about an instance: its record, what podman says of its
/// container, and what the server answered, where it was asked and did.
#[derive(Debug, Clone)]
pub struct InstanceFacts {
    pub cluster: String,
    pub ordinal: u32,
    pub container: String,
    pub volume: String,
    pub host_port: u16,
    pub phase: InstancePhase,
    pub probe: Option<ContainerState>,
    /// The answer to `SELECT pg_is_in_recovery()`.
    pub answer: Option<String>,
}

/// What podman says of a container.
#[derive(Debug, Clone)]
pub struct ContainerState {
    pub running: bool,
    pub status: Option<String>,
}

/// A logged event.
#[derive(Debug, Clone)]
pub struct LoggedEvent {
    pub level: String,
    pub message: String,
}

/// The container exists and runs.
pub open spec fn is_up(f: InstanceFacts) -> bool {
    f.probe matches Some(p) && p.running
}

/// Whether the server is worth asking: a stopped one would only cost the
/// time it takes to fail.
pub fn worth_asking(probe: &Option<ContainerState>) -> (r: bool)
    ensures
        r == (probe matches Some(p) && p.running),
{
    match probe {
        Some(p) => p.running,
        None => false,
    }
}

/// A role is only claimed where a running server gave it.
pub open spec fn role_known(f: InstanceFacts) -> InstanceRole {
    if is_up(f) && f.answer is Some {
        if trimmed(f.answer->0@) == "t"@ {
            InstanceRole::Standby
        } else {
            InstanceRole::Primary
        }
    } else {
        InstanceRole::Unknown
    }
}

/// What is shown of an instance.
pub open spec fn shows(f: InstanceFacts, m: ClusterManifest, s: InstanceStatus) -> bool {
    &&& s.instance@ == instance_name(f.cluster@, f.ordinal)
    &&& s.container@ == f.container@
    &&& s.volume@ == f.volume@
    &&& s.host_port == f.host_port
    &&& s.phase == f.phase
    &&& opt_text(s.container_state) == match f.probe {
        Some(p) => opt_text(p.status),
        None => None,
    }
    &&& s.running == is_up(f)
    &&& s.role == role_known(f)
    &&& s.accepting_connections == (is_up(f) && f.answer is Some)
    &&& s.connection_uri@ == uri(login(m).0, f.host_port, login(m).1)
}

fn show(f: &InstanceFacts, m: &ClusterManifest) -> (s: InstanceStatus)
    ensures
        shows(*f, *m, s),
{
    let running = worth_asking(&f.probe);
    let (role, accepting) = if running {
        match &f.answer {
            Some(a) => (InstanceRole::from_in_recovery(same(trim(a.as_str()), "t")), true),
            None => (InstanceRole::Unknown, false),
        }
    } else {
        (InstanceRole::Unknown, false)
    };
    InstanceStatus {
        instance: instance_name_of(f.cluster.as_str(), f.ordinal),
        container: f.container.clone(),
        volume: f.volume.clone(),
        host_port: f.host_port,
        phase: f.phase,
        container_state: match &f.probe {
            Some(p) => clone_opt(&p.status),
            None => None,
        },
        running,
        role,
        accepting_connections: accepting,
        connection_uri: connection_uri(f.host_port, m),
    }
}

/// An event on one line.
pub open spec fn event_line(e: LoggedEvent) -> Seq<char> {
    "["@ + e.level@ + "] "@ + e.message@
}

/// Puts a cluster's status together.
pub fn collect(
    name: &str,
    generation: i64,
    phase: &str,
    manifest: &ClusterManifest,
    rows: &Vec<InstanceFacts>,
    poolers: Vec<PoolerStatus>,
    events: &Vec<LoggedEvent>,
) -> (r: ClusterStatus)
    ensures
        r.cluster@ == name@,
        r.generation == generation,
        r.phase@ == phase@,
        r.image@ == manifest.image_name@,
        opt_text(r.storage_size) == opt_text(manifest.storage_size),
        r.poolers == poolers,
        r.instances.len() == rows.len(),
        forall|i: int|
            0 <= i < rows.len() ==> shows(rows@[i], *manifest, #[trigger] r.instances@[i]),
        texts(r.recent_events@) == events@.map_values(|e: LoggedEvent| event_line(e)),
{
    let mut instances: Vec<InstanceStatus> = Vec::new();
    let mut i: usize = 0;
    while i < rows.len()
        invariant
            i <= rows.len(),
            instances.len() == i,
            forall|k: int| 0 <= k < i ==> shows(rows@[k], *manifest, #[trigger] instances@[k]),
        decreases rows.len() - i,
    {
        instances.push(show(&rows[i], manifest));
        i = i + 1;
    }
    let mut recent_events: Vec<String> = Vec::new();
    let ghost want = events@.map_values(|e: LoggedEvent| event_line(e));
    let mut j: usize = 0;
    while j < events.len()
        invariant
            j <= events.len(),
            want == events@.map_values(|e: LoggedEvent| event_line(e)),
            texts(recent_events@) == want.take(j as int),
        decreases events.len() - j,
    {
        let mut s = "[".to_owned();
        s.append(events[j].level.as_str());
        s.append("] ");
        s.append(events[j].message.as_str());
        let ghost before = texts(recent_events@);
        let ghost added = s@;
        recent_events.push(s);
        assert(texts(recent_events@) =~= before.push(added));
        assert(texts(recent_events@) =~= want.take(j + 1));
        j = j + 1;
    }
    assert(want.take(want.len() as int) =~= want);
    ClusterStatus {
        cluster: name.to_owned(),
        generation,
        phase: phase.to_owned(),
        image: manifest.image_name.clone(),
        instances,
        poolers,
        storage_size: clone_opt(&manifest.storage_size),
        recent_events,
    }
}

/// The first instance known to be the primary.
pub open spec fn first_primary(v: Seq<InstanceStatus>) -> Option<InstanceStatus>
    decreases v.len(),
{
    if v.len() == 0 {
        None
    } else if v[0].role == InstanceRole::Primary {
        Some(v[0])
    } else {
        first_primary(v.subrange(1, v.len() as int))
    }
}

impl ClusterStatus {
    /// How the primary is reached, where one is known.
    pub fn primary_uri(&self) -> (r: Option<&str>)
        ensures
            opt_str(r) == match first_primary(self.instances@) {
                Some(i) => Some(i.connection_uri@),
                None => None,
            },
    {
        let ghost v = self.instances@;
        let mut i: usize = 0;
        assert(v.subrange(0, v.len() as int) =~= v);
        while i < self.instances.len()
            invariant
                i <= self.instances.len(),
                v == self.instances@,
                first_primary(v) == first_primary(v.subrange(i as int, v.len() as int)),
            decreases self.instances.len() - i,
        {
            let ghost rest = v.subrange(i as int, v.len() as int);
            assert(rest.subrange(1, rest.len() as int) =~= v.subrange(i + 1, v.len() as int));
            if self.instances[i].role == InstanceRole::Primary {
                return Some(self.instances[i].connection_uri.as_str());
            }
            i = i + 1;
        }
        None
    }
}

/// Why a container cannot be used, where it cannot: it is stopped, or there
/// is none.
pub fn running_container(instance: &str, probe: &Option<ContainerState>) -> (r: Option<String>)
    ensures
        opt_text(r) == match *probe {
            None => Some(
                "instance "@ + instance@ + " has no container — has it been created?"@,
            ),
            Some(p) => if p.running {
                None
            } else {
                Some(
                    "instance "@ + instance@ + " is not running (state: "@ + match p.status {
                        Some(s) => s@,
                        None => "unknown"@,
                    } + ")"@,
                )
            },
        },
{
    match probe {
        Some(p) => {
            if p.running {
                return None;
            }
            let mut m = "instance ".to_owned();
            m.append(instance);
            m.append(" is not running (state: ");
            match &p.status {
                Some(s) => m.append(s.as_str()),
                None => m.append("unknown"),
            }
            m.append(")");
            Some(m)
        },
        None => {
            let mut m = "instance ".to_owned();
            m.append(instance);
            m.append(" has no container — has it been created?");
            Some(m)
        },
    }
}

/// An instance that did not answer is given no role, whether it is stopped,
/// missing or silent.
pub proof fn silence_is_not_a_role(f: InstanceFacts, m: ClusterManifest, s: InstanceStatus)
    requires
        shows(f, m, s),
        !is_up(f) || f.answer is None,
    ensures
        s.role == InstanceRole::Unknown,
        !s.accepting_connections,
{
}

/// What is shown of an instance is its own: its name and parts, its port and
/// phase, what podman says of it, and its address. It runs where podman says
/// so, accepts connections where it answered as well, and is a standby where
/// it answered `t`.
pub proof fn an_instance_is_shown_as_it_is(f: InstanceFacts, m: ClusterManifest, s: InstanceStatus)
    requires
        shows(f, m, s),
    ensures
        s.instance@ == instance_name(f.cluster@, f.ordinal),
        s.container@ == f.container@,
        s.volume@ == f.volume@,
        s.host_port == f.host_port,
        s.phase == f.phase,
        s.connection_uri@ == uri(login(m).0, f.host_port, login(m).1),
        f.probe is None ==> !s.running && s.container_state is None,
        f.probe matches Some(p) ==> s.running == p.running && opt_text(s.container_state) == opt_text(
            p.status,
        ),
        s.running && f.answer is Some ==> s.accepting_connections,
        !(s.running && f.answer is Some) ==> !s.accepting_connections && s.role
            == InstanceRole::Unknown,
        s.running ==> (f.answer matches Some(a) ==> (s.role == InstanceRole::Standby <==> trimmed(
            a@,
        ) == "t"@) && (s.role == InstanceRole::Primary <==> trimmed(a@) != "t"@)),
{
}

/// The primary that is shown is the first that is known to be one.
pub proof fn the_first_primary_is_shown(v: Seq<InstanceStatus>, i: int)
    requires
        0 <= i <= v.len(),
        forall|k: int| 0 <= k < i ==> (#[trigger] v[k]).role != InstanceRole::Primary,
        i < v.len() ==> v[i].role == InstanceRole::Primary,
    ensures
        i < v.len() ==> first_primary(v) == Some(v[i]),
        i == v.len() ==> first_primary(v) is None,
    decreases v.len(),
{
    if v.len() > 0 && i > 0 {
        let rest = v.subrange(1, v.len() as int);
        assert(v[0].role != InstanceRole::Primary);
        assert forall|k: int| 0 <= k < i - 1 implies (#[trigger] rest[k]).role
            != InstanceRole::Primary by {
            assert(rest[k] == v[k + 1]);
        }
        if i < v.len() {
            assert(rest[i - 1] == v[i]);
        }
        the_first_primary_is_shown(rest, i - 1);
    }
}

/// A pooler shows the addresses of one cluster's pools: one pool more adds one
/// exactly where it is that cluster's.
pub proof fn one_address_more(
    pools: Seq<PoolRoute>,
    p: PoolRoute,
    cluster: Seq<char>,
    port: u16,
)
    ensures
        pool_uris(Seq::empty(), cluster, port).len() == 0,
        p.cluster@ == cluster ==> pool_uris(pools.push(p), cluster, port) == pool_uris(
            pools,
            cluster,
            port,
        ).push(pool_uri(port, p.name@)),
        p.cluster@ != cluster ==> pool_uris(pools.push(p), cluster, port) == pool_uris(
            pools,
            cluster,
            port,
        ),
{
    assert(pools.push(p).drop_last() =~= pools);
}

/// An event is shown with its level and its message.
pub proof fn an_event_shows_its_level(e: LoggedEvent)
    ensures
        event_line(e) == "["@ + e.level@ + "] "@ + e.message@,
{
}

/// A command is run only in a container that is there and runs.
pub proof fn where_a_command_may_run(
    instance: &str,
    probe: Option<ContainerState>,
    r: Option<String>,
)
    requires
        call_ensures(running_container, (instance, &probe), r),
    ensures
        r is None <==> (probe matches Some(p) && p.running),
        probe is None ==> (r matches Some(m) && m@ == "instance "@ + instance@
            + " has no container — has it been created?"@),
        probe matches Some(p) ==> !p.running ==> (p.status matches Some(s) ==> (r matches Some(m)
            && m@ == "instance "@ + instance@ + " is not running (state: "@ + s@ + ")"@)),
{
}

} // verus!
