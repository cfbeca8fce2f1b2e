//! Bringing a cluster about.

use crate::agent::status::InstanceRole;
use crate::control::error::{error_text, Error};
use crate::control::model::{
    connection_uri, login, uri, ClusterManifest, ClusterPhase, Instance,
    InstancePhase,
};
use crate::text::{
    a_part_occurs, every_part_is_there, a_part_of_a_part_occurs, join, joined, lower, lowered, occurs,
    opt_text, push_text, in_list, same, texts, trim, trimmed,
};
use vstd::prelude::*;
use vstd::string::*;

verus! {

/// How an apply is carried out.
#[derive(Debug, Clone, Copy, PartialEq, Eq, Structural)]
pub struct ApplyOptions {
    /// How long to wait for readiness, in seconds; not at all where it is 0.
    pub wait: u64,
    /// Whether a diverged instance may be replaced.
    pub recreate: bool,
}

impl Default for ApplyOptions {
    fn default() -> (r: Self)
        ensures
            r.wait == 180,
            !r.recreate,
    {
        ApplyOptions { wait: 180, recreate: false }
    }
}

/// What an apply did.
#[derive(Debug, Clone)]
pub struct ApplyReport {
    pub cluster: String,
    pub generation: i64,
    pub created: bool,
    pub instances: Vec<InstanceSummary>,
}

/// An instance, for showing.
#[derive(Debug, Clone, PartialEq, Eq)]
pub struct InstanceSummary {
    pub instance: String,
    pub container: String,
    pub volume: String,
    pub host_port: u16,
    pub connection_uri: String,
}

/// What a delete did.
#[derive(Debug, Clone, PartialEq, Eq)]
pub struct DeleteReport {
    pub cluster: String,
    pub containers_removed: Vec<String>,
    pub volumes_removed: Vec<String>,
    pub volumes_retained: Vec<String>,
    pub poolers: Vec<String>,
}

// ---- parameters ------------------------------------------------------

/// A parameter's name as it is compared.
pub open spec fn normalized(key: Seq<char>) -> Seq<char> {
    trimmed(key).map_values(|c: char| lower(c))
}

/// The first reserved parameter among some, as it is compared.
pub open spec fn first_reserved(keys: Seq<Seq<char>>, reserved: Seq<Seq<char>>) -> Option<Seq<char>>
    decreases keys.len(),
{
    if keys.len() == 0 {
        None
    } else if reserved.contains(normalized(keys[0])) {
        Some(normalized(keys[0]))
    } else {
        first_reserved(keys.subrange(1, keys.len() as int), reserved)
    }
}

/// Finds a parameter that pgpod manages itself.
pub fn validate_parameters(keys: &Vec<String>, reserved: &Vec<String>) -> (r: Option<String>)
    ensures
        opt_text(r) == first_reserved(texts(keys@), texts(reserved@)),
{
    let ghost all = texts(keys@);
    let mut i: usize = 0;
    assert(all.subrange(0, all.len() as int) =~= all);
    while i < keys.len()
        invariant
            i <= keys.len(),
            all == texts(keys@),
            first_reserved(all, texts(reserved@)) == first_reserved(
                all.subrange(i as int, all.len() as int),
                texts(reserved@),
            ),
        decreases keys.len() - i,
    {
        let ghost rest = all.subrange(i as int, all.len() as int);
        assert(rest[0] == keys@[i as int]@);
        assert(rest.subrange(1, rest.len() as int) =~= all.subrange(i + 1, all.len() as int));
        let n = lowered(trim(keys[i].as_str()));
        if in_list(reserved, n.as_str()) {
            return Some(n);
        }
        i = i + 1;
    }
    None
}

// ---- one instance ----------------------------------------------------

/// An instance's row in the registry.
#[derive(Debug, Clone)]
pub struct InstanceRow {
    pub cluster: String,
    pub ordinal: u32,
    pub container: String,
    pub container_id: Option<String>,
    pub volume: String,
    pub host_port: u16,
    pub phase: InstancePhase,
    pub role: InstanceRole,
}

/// A container, as podman knows it.
#[derive(Debug, Clone)]
pub struct Probed {
    pub id: String,
    pub running: bool,
}

/// What is done about an instance's container.
#[derive(Debug, Clone)]
pub enum InstanceAct {
    /// It runs as described.
    Adopt(String),
    /// It runs as described once started.
    Start(String),
    /// Replace it while a pooler holds its clients; this is logged.
    Recreate(String),
    /// It is stopped, so it can be replaced at once; this is logged.
    Replace { id: String, event: String },
    /// There is none.
    Create,
    /// It diverged, and nobody allowed to replace it.
    Refuse,
}

/// What follows for a container. One that runs is only ever replaced where
/// that was allowed; one that is stopped has no clients to lose.
pub open spec fn acts(
    probe: Option<Probed>,
    diverged: Option<Error>,
    recreate: bool,
    a: InstanceAct,
) -> bool {
    match (probe, diverged) {
        (None, _) => a is Create,
        (Some(p), None) => if p.running {
            a matches InstanceAct::Adopt(id) && id@ == p.id@
        } else {
            a matches InstanceAct::Start(id) && id@ == p.id@
        },
        (Some(p), Some(e)) => if !p.running {
            a matches InstanceAct::Replace { id, event } && id@ == p.id@ && event@
                == "stopped instance diverged, recreating: "@ + error_text(e@)
        } else if recreate {
            a matches InstanceAct::Recreate(event) && event@ == "spec diverged, recreating: "@
                + error_text(e@)
        } else {
            a is Refuse
        },
    }
}

/// Decides what to do about an instance's container.
pub fn apply_instance(probe: &Option<Probed>, diverged: &Option<Error>, recreate: bool) -> (a:
    InstanceAct)
    ensures
        acts(*probe, *diverged, recreate, a),
{
    match (probe, diverged) {
        (None, _) => InstanceAct::Create,
        (Some(p), None) => if p.running {
            InstanceAct::Adopt(p.id.clone())
        } else {
            InstanceAct::Start(p.id.clone())
        },
        (Some(p), Some(e)) => if !p.running {
            let mut event = "stopped instance diverged, recreating: ".to_owned();
            event.append(e.to_text().as_str());
            InstanceAct::Replace { id: p.id.clone(), event }
        } else if recreate {
            let mut event = "spec diverged, recreating: ".to_owned();
            event.append(e.to_text().as_str());
            InstanceAct::Recreate(event)
        } else {
            InstanceAct::Refuse
        },
    }
}

/// A running instance is never replaced without leave.
pub proof fn no_replacement_without_leave(
    probe: Option<Probed>,
    diverged: Option<Error>,
    recreate: bool,
    a: InstanceAct,
)
    requires
        acts(probe, diverged, recreate, a),
        probe matches Some(p) && p.running,
        !recreate,
    ensures
        a is Adopt || a is Refuse,
{
}

/// The port an instance is published on: the one it has, or a new one.
pub open spec fn published(existing: Option<u16>, allocated: u16) -> u16 {
    match existing {
        Some(p) => p,
        None => allocated,
    }
}

/// The port an instance is published on: the one it has, since applications
/// point at it, or a new one.
pub fn host_port(existing: Option<u16>, allocated: u16) -> (r: u16)
    ensures
        r == published(existing, allocated),
{
    match existing {
        Some(p) => p,
        None => allocated,
    }
}

/// An instance's row while its container is made, and once it is there.
pub fn instance_row(instance: &Instance, container_id: Option<String>, host_port: u16) -> (r:
    InstanceRow)
    ensures
        r.cluster@ == instance.cluster@,
        r.ordinal == instance.ordinal,
        r.container@ == instance.container@,
        r.container_id == container_id,
        r.volume@ == instance.volume@,
        r.host_port == host_port,
        r.phase == (if container_id is Some {
            InstancePhase::Bootstrapping
        } else {
            InstancePhase::Creating
        }),
        r.role == InstanceRole::Unknown,
{
    let phase = if container_id.is_some() {
        InstancePhase::Bootstrapping
    } else {
        InstancePhase::Creating
    };
    InstanceRow {
        cluster: instance.cluster.clone(),
        ordinal: instance.ordinal,
        container: instance.container.clone(),
        container_id,
        volume: instance.volume.clone(),
        host_port,
        phase,
        role: InstanceRole::Unknown,
    }
}

/// An instance, for showing.
pub fn instance_summary(instance: &Instance, host_port: u16, manifest: &ClusterManifest) -> (r:
    InstanceSummary)
    ensures
        r.instance@ == instance.name(),
        r.container@ == instance.container@,
        r.volume@ == instance.volume@,
        r.host_port == host_port,
        r.connection_uri@ == uri(login(*manifest).0, host_port, login(*manifest).1),
{
    InstanceSummary {
        instance: instance.to_text(),
        container: instance.container.clone(),
        volume: instance.volume.clone(),
        host_port,
        connection_uri: connection_uri(host_port, manifest),
    }
}

// ---- waiting ---------------------------------------------------------

/// What a probe of a server brought.
#[derive(Debug, Clone)]
pub enum Attempt {
    /// It ran: whether it succeeded, and what it wrote.
    Ran { success: bool, stdout: String, stderr: String },
    Failed(String),
}

/// What follows a probe.
#[derive(Debug, Clone)]
pub enum Poll {
    Ready,
    /// Try again; this is what was seen last.
    Again(String),
    /// Stop trying: the container is gone.
    GiveUp(String),
}

/// The probe ran and succeeded.
pub open spec fn succeeded(a: Attempt) -> bool {
    a matches Attempt::Ran { success, .. } && success
}

/// What a probe says where it does not say ready.
pub open spec fn seen(a: Attempt) -> Seq<char> {
    match a {
        Attempt::Ran { success: _, stdout, stderr } => trimmed(stdout@) + trimmed(stderr@),
        Attempt::Failed(e) => e@,
    }
}

fn seen_of(a: &Attempt) -> (r: String)
    ensures
        r@ == seen(*a),
{
    match a {
        Attempt::Ran { success: _, stdout, stderr } => {
            let mut s = trim(stdout.as_str()).to_owned();
            s.append(trim(stderr.as_str()));
            s
        },
        Attempt::Failed(e) => e.clone(),
    }
}

/// Waiting for a server to answer. A container that is gone ends the wait.
pub fn wait_ready(a: &Attempt, container_running: bool) -> (r: Poll)
    ensures
        match r {
            Poll::Ready => succeeded(*a),
            Poll::Again(s) => !succeeded(*a) && container_running && s@ == seen(*a),
            Poll::GiveUp(s) => !succeeded(*a) && !container_running && s@ == seen(*a),
        },
{
    if let Attempt::Ran { success, stdout: _, stderr: _ } = a {
        if *success {
            return Poll::Ready;
        }
    }
    let s = seen_of(a);
    if container_running {
        Poll::Again(s)
    } else {
        Poll::GiveUp(s)
    }
}

/// The server answered that it can be written to.
pub open spec fn writable(a: Attempt) -> bool {
    a matches Attempt::Ran { success, stdout, .. } && success && trimmed(stdout@) == "f"@
}

/// What is seen of a server that cannot be written to yet.
pub open spec fn not_writable(a: Attempt) -> Seq<char> {
    match a {
        Attempt::Ran { success, .. } => if success {
            "still in recovery"@
        } else {
            seen(a)
        },
        Attempt::Failed(_) => seen(a),
    }
}

/// Waiting for a restored server to leave recovery: it answers long before it
/// can be written to.
pub fn wait_writable(a: &Attempt, container_running: bool) -> (r: Poll)
    ensures
        match r {
            Poll::Ready => writable(*a),
            Poll::Again(s) => !writable(*a) && container_running && s@ == not_writable(*a),
            Poll::GiveUp(s) => !writable(*a) && !container_running && s@ == not_writable(*a),
        },
{
    let s = match a {
        Attempt::Ran { success, stdout, stderr: _ } => {
            if *success {
                if same(trim(stdout.as_str()), "f") {
                    return Poll::Ready;
                }
                "still in recovery".to_owned()
            } else {
                seen_of(a)
            }
        },
        Attempt::Failed(_) => seen_of(a),
    };
    if container_running {
        Poll::Again(s)
    } else {
        Poll::GiveUp(s)
    }
}

/// What is said of a server that did not become ready.
pub open spec fn last_seen(last: Seq<char>, logs: Seq<char>) -> Seq<char> {
    "last probe: "@ + last + "\n\ncontainer logs:\n"@ + logs
}

/// The error for a server that did not become ready, with its logs.
pub fn not_ready(instance: &str, seconds: u64, last: &str, logs: &str) -> (r: Error)
    ensures
        r@ == (crate::control::error::ErrorView::NotReady {
            instance: instance@,
            seconds,
            detail: last_seen(last@, logs@),
        }),
{
    let mut d = "last probe: ".to_owned();
    d.append(last);
    d.append("\n\ncontainer logs:\n");
    d.append(logs);
    Error::NotReady { instance: instance.to_owned(), seconds, detail: d }
}

/// The error for a server that never left recovery.
pub fn never_writable(instance: &str, seconds: u64, last: &str) -> (r: Error)
    ensures
        r@ == (crate::control::error::ErrorView::NotReady {
            instance: instance@,
            seconds,
            detail: "never left recovery: "@ + last@,
        }),
{
    let mut d = "never left recovery: ".to_owned();
    d.append(last);
    Error::NotReady { instance: instance.to_owned(), seconds, detail: d }
}

// ---- the whole -------------------------------------------------------

/// Where an apply stands.
#[derive(Debug, Clone, Copy, PartialEq, Eq, Structural)]
pub enum Stage {
    Start,
    Pulling,
    Comparing,
    Recording,
    Requesting,
    Networking,
    Volumes,
    Secrets,
    /// Bringing about this instance.
    Instance(u32),
    /// Waiting for this instance.
    Waiting(u32),
    Rotating,
    Warning,
    Finishing,
    Ended,
}

/// What came of the last action.
#[derive(Debug, Clone)]
pub enum Event {
    Begin,
    Done,
    /// The secrets are there; whether passwords have to be rotated.
    Secrets { rotate: bool },
    Failed(String),
}

/// What to do next.
#[derive(Debug, Clone)]
pub enum Act {
    /// The event does not belong to this stage.
    Ignore,
    PullImage,
    /// Refuse an image the data cannot be read by.
    CompareImage,
    /// Record the manifest, in phase `applying`.
    Record,
    /// Log that an apply was asked for.
    LogRequest,
    EnsureNetwork,
    CreateArchiveVolume,
    EnsureSecrets,
    ApplyInstance(u32),
    WaitReady(u32),
    RotateRoles,
    /// Log that passwords were not rotated.
    WarnUnrotated,
    /// Set phase `running`.
    MarkRunning,
    Report { created: bool },
    /// Nothing was recorded: just fail.
    Fail(String),
    /// Set phase `failed`, log this, and fail with the error.
    MarkFailed { event: String, error: String },
}

/// An apply under way.
#[derive(Debug, Clone, Copy)]
pub struct Apply {
    pub instances: u32,
    /// The manifest names a volume for its archive.
    pub archive: bool,
    pub wait: bool,
    /// The cluster was known before.
    pub existed: bool,
    pub rotate: bool,
    pub stage: Stage,
}

pub const UNROTATED: &'static str =
    "credentials were not rotated because apply did not wait for \
                 readiness — re-apply with a non-zero wait to make this \
                 cluster reachable";

/// The cluster has been recorded, so a failure has to be too.
pub open spec fn recorded(s: Stage) -> bool {
    !(s == Stage::Start || s == Stage::Pulling || s == Stage::Comparing || s == Stage::Recording
        || s == Stage::Ended)
}

/// What follows once every instance is brought about.
pub open spec fn after_instances(a: Apply) -> (Stage, Act) {
    if a.wait {
        if a.instances == 0 {
            (Stage::Rotating, Act::RotateRoles)
        } else {
            (Stage::Waiting(1), Act::WaitReady(1))
        }
    } else if a.rotate {
        (Stage::Warning, Act::WarnUnrotated)
    } else {
        (Stage::Finishing, Act::MarkRunning)
    }
}

/// What follows once there are secrets.
pub open spec fn after_secrets(a: Apply) -> (Stage, Act) {
    if a.instances == 0 {
        after_instances(a)
    } else {
        (Stage::Instance(1), Act::ApplyInstance(1))
    }
}

/// What follows a success.
pub open spec fn after_done(a: Apply) -> (Stage, Act) {
    match a.stage {
        Stage::Pulling => (Stage::Comparing, Act::CompareImage),
        Stage::Comparing => (Stage::Recording, Act::Record),
        Stage::Recording => (Stage::Requesting, Act::LogRequest),
        Stage::Requesting => (Stage::Networking, Act::EnsureNetwork),
        Stage::Networking => if a.archive {
            (Stage::Volumes, Act::CreateArchiveVolume)
        } else {
            (Stage::Secrets, Act::EnsureSecrets)
        },
        Stage::Volumes => (Stage::Secrets, Act::EnsureSecrets),
        Stage::Instance(k) => if k < a.instances {
            (Stage::Instance((k + 1) as u32), Act::ApplyInstance((k + 1) as u32))
        } else {
            after_instances(a)
        },
        Stage::Waiting(k) => if k < a.instances {
            (Stage::Waiting((k + 1) as u32), Act::WaitReady((k + 1) as u32))
        } else {
            (Stage::Rotating, Act::RotateRoles)
        },
        Stage::Rotating => (Stage::Finishing, Act::MarkRunning),
        Stage::Warning => (Stage::Finishing, Act::MarkRunning),
        Stage::Finishing => (Stage::Ended, Act::Report { created: !a.existed }),
        _ => (a.stage, Act::Ignore),
    }
}

/// What follows an event.
pub open spec fn follows(a: Apply, ev: Event, next: Apply, act: Act) -> bool {
    match ev {
        Event::Begin => if a.stage == Stage::Start {
            next == (Apply { stage: Stage::Pulling, ..a }) && act is PullImage
        } else {
            next == a && act is Ignore
        },
        Event::Secrets { rotate } => if a.stage == Stage::Secrets {
            let b = Apply { rotate, ..a };
            next == (Apply { stage: after_secrets(b).0, ..b }) && act == after_secrets(b).1
        } else {
            next == a && act is Ignore
        },
        Event::Done => next == (Apply { stage: after_done(a).0, ..a }) && act == after_done(a).1,
        Event::Failed(e) => if a.stage == Stage::Start || a.stage == Stage::Ended {
            next == a && act is Ignore
        } else {
            &&& next == (Apply { stage: Stage::Ended, ..a })
            &&& if recorded(a.stage) {
                act matches Act::MarkFailed { event, error } && error@ == e@ && event@
                    == "apply failed: "@ + e@
            } else {
                act matches Act::Fail(m) && m@ == e@
            }
        },
    }
}

impl Apply {
    /// The instance at hand is one of the cluster's.
    pub open spec fn wf(&self) -> bool {
        match self.stage {
            Stage::Instance(k) => 1 <= k <= self.instances,
            Stage::Waiting(k) => 1 <= k <= self.instances,
            _ => true,
        }
    }

    /// An apply that has not begun.
    pub fn new(instances: u32, archive: bool, wait: bool, existed: bool) -> (r: Self)
        ensures
            r.wf(),
            r == (Apply { instances, archive, wait, existed, rotate: false, stage: Stage::Start }),
    {
        Apply { instances, archive, wait, existed, rotate: false, stage: Stage::Start }
    }

    fn done_with_instances(&mut self) -> (act: Act)
        ensures
            *final(self) == (Apply { stage: after_instances(*old(self)).0, ..*old(self) }),
            act == after_instances(*old(self)).1,
            final(self).wf(),
    {
        if self.wait {
            if self.instances == 0 {
                self.stage = Stage::Rotating;
                Act::RotateRoles
            } else {
                self.stage = Stage::Waiting(1);
                Act::WaitReady(1)
            }
        } else if self.rotate {
            self.stage = Stage::Warning;
            Act::WarnUnrotated
        } else {
            self.stage = Stage::Finishing;
            Act::MarkRunning
        }
    }

    fn done(&mut self) -> (act: Act)
        requires
            old(self).wf(),
        ensures
            final(self).wf(),
            *final(self) == (Apply { stage: after_done(*old(self)).0, ..*old(self) }),
            act == after_done(*old(self)).1,
    {
        match self.stage {
            Stage::Pulling => {
                self.stage = Stage::Comparing;
                Act::CompareImage
            },
            Stage::Comparing => {
                self.stage = Stage::Recording;
                Act::Record
            },
            Stage::Recording => {
                self.stage = Stage::Requesting;
                Act::LogRequest
            },
            Stage::Requesting => {
                self.stage = Stage::Networking;
                Act::EnsureNetwork
            },
            Stage::Networking => {
                if self.archive {
                    self.stage = Stage::Volumes;
                    Act::CreateArchiveVolume
                } else {
                    self.stage = Stage::Secrets;
                    Act::EnsureSecrets
                }
            },
            Stage::Volumes => {
                self.stage = Stage::Secrets;
                Act::EnsureSecrets
            },
            Stage::Instance(k) => {
                if k < self.instances {
                    self.stage = Stage::Instance(k + 1);
                    Act::ApplyInstance(k + 1)
                } else {
                    self.done_with_instances()
                }
            },
            Stage::Waiting(k) => {
                if k < self.instances {
                    self.stage = Stage::Waiting(k + 1);
                    Act::WaitReady(k + 1)
                } else {
                    self.stage = Stage::Rotating;
                    Act::RotateRoles
                }
            },
            Stage::Rotating | Stage::Warning => {
                self.stage = Stage::Finishing;
                Act::MarkRunning
            },
            Stage::Finishing => {
                self.stage = Stage::Ended;
                Act::Report { created: !self.existed }
            },
            _ => Act::Ignore,
        }
    }

    /// Takes in what came of the last action, and says what to do next.
    pub fn step(&mut self, ev: &Event) -> (act: Act)
        requires
            old(self).wf(),
        ensures
            final(self).wf(),
            follows(*old(self), *ev, *final(self), act),
    {
        match ev {
            Event::Begin => {
                if self.stage == Stage::Start {
                    self.stage = Stage::Pulling;
                    Act::PullImage
                } else {
                    Act::Ignore
                }
            },
            Event::Secrets { rotate } => {
                if self.stage == Stage::Secrets {
                    self.rotate = *rotate;
                    if self.instances == 0 {
                        self.done_with_instances()
                    } else {
                        self.stage = Stage::Instance(1);
                        Act::ApplyInstance(1)
                    }
                } else {
                    Act::Ignore
                }
            },
            Event::Done => self.done(),
            Event::Failed(e) => match self.stage {
                Stage::Start | Stage::Ended => Act::Ignore,
                Stage::Pulling | Stage::Comparing | Stage::Recording => {
                    self.stage = Stage::Ended;
                    Act::Fail(e.clone())
                },
                _ => {
                    self.stage = Stage::Ended;
                    let mut event = "apply failed: ".to_owned();
                    event.append(e.as_str());
                    Act::MarkFailed { event, error: e.clone() }
                },
            },
        }
    }
}

/// A recorded cluster never stays in phase `applying`: what ends the apply
/// also sets a phase, `running` before a report and `failed` before an error.
pub proof fn every_end_sets_a_phase(a: Apply, ev: Event, next: Apply, act: Act)
    requires
        a.wf(),
        follows(a, ev, next, act),
        recorded(a.stage),
        next.stage == Stage::Ended,
    ensures
        act is MarkFailed || (act is Report && a.stage == Stage::Finishing),
{
}

/// Phase `running` is set right before the report, and by nothing else.
pub proof fn running_is_set_last(a: Apply, ev: Event, next: Apply, act: Act)
    requires
        a.wf(),
        follows(a, ev, next, act),
    ensures
        act is MarkRunning ==> next.stage == Stage::Finishing,
        next.stage == Stage::Finishing && a.stage != Stage::Finishing ==> act is MarkRunning,
{
}

/// A run from the start: each step follows from the one before.
pub open spec fn is_run(states: Seq<Apply>, evs: Seq<Event>, acts: Seq<Act>) -> bool {
    &&& states.len() == evs.len() + 1
    &&& acts.len() == evs.len()
    &&& states[0].stage == Stage::Start
    &&& forall|i: int|
        0 <= i < evs.len() ==> follows(#[trigger] states[i], evs[i], states[i + 1], acts[i])
}

/// In the first `n` steps, what was begun at this stage succeeded.
pub open spec fn finished(states: Seq<Apply>, evs: Seq<Event>, n: int, stage: Stage) -> bool {
    exists|i: int| 0 <= i < n && (#[trigger] states[i]).stage == stage && evs[i] is Done
}

/// The instances below this one have been brought about.
pub open spec fn brought(a: Apply) -> int {
    match a.stage {
        Stage::Instance(k) => k as int,
        Stage::Waiting(_) => a.instances + 1,
        Stage::Rotating => a.instances + 1,
        Stage::Warning => a.instances + 1,
        Stage::Finishing => a.instances + 1,
        _ => 0,
    }
}

/// The instances below this one have been waited for.
pub open spec fn awaited(a: Apply) -> int {
    match a.stage {
        Stage::Waiting(k) => k as int,
        Stage::Rotating => a.instances + 1,
        Stage::Finishing => if a.wait {
            a.instances + 1
        } else {
            0
        },
        _ => 0,
    }
}

/// One step finishes at most the instance at hand.
proof fn one_step(a: Apply, ev: Event, b: Apply, act: Act)
    requires
        a.wf(),
        a.stage == Stage::Warning ==> !a.wait,
        follows(a, ev, b, act),
    ensures
        b.wf(),
        b.instances == a.instances,
        b.wait == a.wait,
        b.stage == Stage::Warning ==> !b.wait,
        brought(b) <= 1 || brought(b) <= brought(a) || (ev is Done && (a.stage matches Stage::Instance(k)
            && brought(b) == k + 1)),
        awaited(b) <= 1 || awaited(b) <= awaited(a) || (ev is Done && (a.stage matches Stage::Waiting(k)
            && awaited(b) == k + 1)),
        recorded(b.stage) || b.stage == Stage::Recording ==> recorded(a.stage) || a.stage
            == Stage::Recording || (ev is Done && a.stage == Stage::Comparing),
{
}

/// What was finished stays finished.
proof fn finished_stays(states: Seq<Apply>, evs: Seq<Event>, n: int, stage: Stage)
    requires
        finished(states, evs, n, stage),
    ensures
        finished(states, evs, n + 1, stage),
{
    let i = choose|i: int| 0 <= i < n && (#[trigger] states[i]).stage == stage && evs[i] is Done;
    assert(states[i].stage == stage);
}

/// A step that succeeds is finished.
proof fn just_finished(states: Seq<Apply>, evs: Seq<Event>, n: int)
    requires
        0 <= n,
        evs[n] is Done,
    ensures
        finished(states, evs, n + 1, states[n].stage),
{
    assert(states[n].stage == states[n].stage);
}

/// What every run has done by its step `n`.
#[verifier::spinoff_prover]
proof fn along_the_way(states: Seq<Apply>, evs: Seq<Event>, acts: Seq<Act>, n: int)
    requires
        is_run(states, evs, acts),
        0 <= n <= evs.len(),
    ensures
        states[n].wf(),
        states[n].instances == states[0].instances,
        states[n].wait == states[0].wait,
        states[n].stage == Stage::Warning ==> !states[n].wait,
        states[n].stage == Stage::Recording || recorded(states[n].stage) ==> finished(
            states,
            evs,
            n,
            Stage::Comparing,
        ),
        forall|k: u32|
            1 <= k < brought(states[n]) ==> #[trigger] finished(states, evs, n, Stage::Instance(k)),
        forall|k: u32|
            1 <= k < awaited(states[n]) ==> #[trigger] finished(states, evs, n, Stage::Waiting(k)),
    decreases n,
{
    if n > 0 {
        let m = n - 1;
        along_the_way(states, evs, acts, m);
        let a = states[m];
        let b = states[n];
        assert(follows(states[m], evs[m], states[m + 1], acts[m]));
        one_step(a, evs[m], b, acts[m]);
        if evs[m] is Done {
            just_finished(states, evs, m);
        }
        assert forall|k: u32| 1 <= k < brought(b) implies #[trigger] finished(
            states,
            evs,
            n,
            Stage::Instance(k),
        ) by {
            if k < brought(a) {
                finished_stays(states, evs, m, Stage::Instance(k));
            }
        }
        assert forall|k: u32| 1 <= k < awaited(b) implies #[trigger] finished(
            states,
            evs,
            n,
            Stage::Waiting(k),
        ) by {
            if k < awaited(a) {
                finished_stays(states, evs, m, Stage::Waiting(k));
            }
        }
        if b.stage == Stage::Recording || recorded(b.stage) {
            if a.stage == Stage::Recording || recorded(a.stage) {
                finished_stays(states, evs, m, Stage::Comparing);
            }
        }
    }
}

/// An apply that reports success has brought about every instance, and has
/// seen each of them ready where it was to wait.
pub proof fn a_report_covers_every_instance(
    states: Seq<Apply>,
    evs: Seq<Event>,
    acts: Seq<Act>,
    n: int,
    k: u32,
)
    requires
        is_run(states, evs, acts),
        0 <= n < evs.len(),
        acts[n] is Report,
        1 <= k <= states[0].instances,
    ensures
        finished(states, evs, n, Stage::Instance(k)),
        states[0].wait ==> finished(states, evs, n, Stage::Waiting(k)),
{
    along_the_way(states, evs, acts, n);
    assert(follows(states[n], evs[n], states[n + 1], acts[n]));
    assert(k < brought(states[n]));
}

/// How far along a stage is.
pub open spec fn rank(stage: Stage) -> int {
    match stage {
        Stage::Start => 0,
        Stage::Pulling => 1,
        Stage::Comparing => 2,
        Stage::Recording => 3,
        Stage::Requesting => 4,
        Stage::Networking => 5,
        Stage::Volumes => 6,
        Stage::Secrets => 7,
        Stage::Instance(_) => 8,
        Stage::Waiting(_) => 9,
        Stage::Rotating => 10,
        Stage::Warning => 10,
        Stage::Finishing => 11,
        Stage::Ended => 12,
    }
}

/// A run never goes back.
proof fn only_forwards(states: Seq<Apply>, evs: Seq<Event>, acts: Seq<Act>, i: int, n: int)
    requires
        is_run(states, evs, acts),
        0 <= i <= n <= evs.len(),
    ensures
        rank(states[i].stage) <= rank(states[n].stage),
    decreases n - i,
{
    if i < n {
        only_forwards(states, evs, acts, i, n - 1);
        assert(follows(states[n - 1], evs[n - 1], states[n - 1 + 1], acts[n - 1]));
    }
}

/// An apply that fails before its cluster is recorded leaves no trace: up to
/// there it has only pulled an image and compared it.
pub proof fn refusals_leave_no_trace(
    states: Seq<Apply>,
    evs: Seq<Event>,
    acts: Seq<Act>,
    n: int,
    i: int,
)
    requires
        is_run(states, evs, acts),
        0 <= i < n < evs.len(),
        acts[n] is Fail,
    ensures
        acts[i] is Ignore || acts[i] is PullImage || acts[i] is CompareImage || (acts[i] is Record
            && states[n].stage == Stage::Recording),
{
    assert(follows(states[n], evs[n], states[n + 1], acts[n]));
    assert(follows(states[i], evs[i], states[i + 1], acts[i]));
    only_forwards(states, evs, acts, i + 1, n);
}

/// Nothing is recorded or made before the image was compared with the data
/// and found to fit.
pub proof fn nothing_is_made_before_the_image_fits(
    states: Seq<Apply>,
    evs: Seq<Event>,
    acts: Seq<Act>,
    n: int,
)
    requires
        is_run(states, evs, acts),
        0 <= n < evs.len(),
        acts[n] is Record || acts[n] is LogRequest || acts[n] is EnsureNetwork || acts[n] is CreateArchiveVolume
            || acts[n] is EnsureSecrets || acts[n] is ApplyInstance,
    ensures
        finished(states, evs, n + 1, Stage::Comparing),
{
    along_the_way(states, evs, acts, n + 1);
    assert(follows(states[n], evs[n], states[n + 1], acts[n]));
}

// ---- deleting --------------------------------------------------------

/// An instance about to be deleted.
#[derive(Debug, Clone)]
pub struct Doomed {
    pub ordinal: u32,
    pub container: String,
    pub volume: String,
    /// podman has the container.
    pub exists: bool,
}

/// What a delete does, in this order: the containers, the volumes, the
/// network, the secrets, the registry.
#[derive(Debug, Clone)]
pub struct DeletePlan {
    pub remove_containers: Vec<String>,
    pub remove_volumes: Vec<String>,
    pub retain_volumes: Vec<String>,
    pub remove_secrets: bool,
    /// Forget the cluster, or keep it in this phase, with a stopped row for
    /// each of its instances.
    pub forget: bool,
    pub phase: ClusterPhase,
    pub event: String,
}

/// The names of the containers that exist.
pub open spec fn existing(v: Seq<Doomed>) -> Seq<Seq<char>>
    decreases v.len(),
{
    if v.len() == 0 {
        Seq::empty()
    } else {
        let before = existing(v.drop_last());
        if v.last().exists {
            before.push(v.last().container@)
        } else {
            before
        }
    }
}

/// The names of the volumes.
pub open spec fn volumes(v: Seq<Doomed>) -> Seq<Seq<char>> {
    v.map_values(|d: Doomed| d.volume@)
}

pub open spec fn still_fronted(cluster: Seq<char>, poolers: Seq<Seq<char>>) -> Seq<char> {
    "cluster "@ + cluster + " is still fronted by pooler "@ + joined(poolers, ", "@)
        + ", and --purge destroys its data. Delete the pooler first (`pgpod pooler delete "@
        + poolers[0] + "`), or drop --purge to keep the volumes."@
}

/// What a delete does.
pub open spec fn deletes(v: Seq<Doomed>, purge: bool, p: DeletePlan) -> bool {
    &&& texts(p.remove_containers@) == existing(v)
    &&& texts(p.remove_volumes@) == (if purge {
        volumes(v)
    } else {
        Seq::empty()
    })
    &&& texts(p.retain_volumes@) == (if purge {
        Seq::empty()
    } else {
        volumes(v)
    })
    &&& p.remove_secrets == purge
    &&& p.forget == purge
    &&& p.phase == ClusterPhase::Stopped
    &&& p.event@ == (if purge {
        "cluster deleted and volumes purged"@
    } else {
        "cluster deleted, volumes retained"@
    })
}

fn existing_of(v: &Vec<Doomed>) -> (r: Vec<String>)
    ensures
        texts(r@) == existing(v@),
{
    let mut out: Vec<String> = Vec::new();
    let mut i: usize = 0;
    assert(texts(out@) =~= existing(v@.take(0)));
    while i < v.len()
        invariant
            i <= v.len(),
            texts(out@) == existing(v@.take(i as int)),
        decreases v.len() - i,
    {
        assert(v@.take(i + 1).drop_last() =~= v@.take(i as int));
        if v[i].exists {
            push_text(&mut out, v[i].container.clone());
        }
        i = i + 1;
    }
    assert(v@.take(i as int) =~= v@);
    out
}

fn volumes_of(v: &Vec<Doomed>) -> (r: Vec<String>)
    ensures
        texts(r@) == volumes(v@),
{
    let mut out: Vec<String> = Vec::new();
    let mut i: usize = 0;
    while i < v.len()
        invariant
            i <= v.len(),
            texts(out@) == volumes(v@).take(i as int),
        decreases v.len() - i,
    {
        push_text(&mut out, v[i].volume.clone());
        assert(texts(out@) =~= volumes(v@).take(i + 1));
        i = i + 1;
    }
    assert(volumes(v@).take(i as int) =~= volumes(v@));
    out
}

/// Decides what a delete does. Purging a cluster that a pooler fronts is
/// refused, before anything is touched.
pub fn delete(cluster: &str, purge: bool, poolers: &Vec<String>, instances: &Vec<Doomed>) -> (r:
    Result<DeletePlan, String>)
    ensures
        match r {
            Ok(p) => !(purge && poolers.len() > 0) && deletes(instances@, purge, p),
            Err(m) => purge && poolers.len() > 0 && m@ == still_fronted(cluster@, texts(poolers@)),
        },
{
    if purge && poolers.len() > 0 {
        let mut m = "cluster ".to_owned();
        m.append(cluster);
        m.append(" is still fronted by pooler ");
        m.append(join(poolers, ", ").as_str());
        m.append(", and --purge destroys its data. Delete the pooler first (`pgpod pooler delete ");
        m.append(poolers[0].as_str());
        assert(texts(poolers@)[0] == poolers@[0]@);
        m.append("`), or drop --purge to keep the volumes.");
        return Err(m);
    }
    let all = volumes_of(instances);
    let none: Vec<String> = Vec::new();
    assert(texts(none@) =~= Seq::empty());
    let (remove_volumes, retain_volumes) = if purge {
        (all, none)
    } else {
        (none, all)
    };
    Ok(
        DeletePlan {
            remove_containers: existing_of(instances),
            remove_volumes,
            retain_volumes,
            remove_secrets: purge,
            forget: purge,
            phase: ClusterPhase::Stopped,
            event: if purge {
                "cluster deleted and volumes purged".to_owned()
            } else {
                "cluster deleted, volumes retained".to_owned()
            },
        },
    )
}

/// Reports a delete that was carried out.
pub fn delete_report(cluster: &str, p: DeletePlan, poolers: Vec<String>) -> (r: DeleteReport)
    ensures
        r.cluster@ == cluster@,
        r.containers_removed == p.remove_containers,
        r.volumes_removed == p.remove_volumes,
        r.volumes_retained == p.retain_volumes,
        r.poolers == poolers,
{
    DeleteReport {
        cluster: cluster.to_owned(),
        containers_removed: p.remove_containers,
        volumes_removed: p.remove_volumes,
        volumes_retained: p.retain_volumes,
        poolers,
    }
}

/// An instance's row after a delete that keeps it: without a container, and
/// stopped. Its volume and its port stay, for the next apply to find.
pub open spec fn stopped(row: InstanceRow) -> InstanceRow {
    InstanceRow { container_id: None, phase: InstancePhase::Stopped, ..row }
}

/// The row of an instance whose container was removed and whose data was
/// kept.
pub fn stopped_row(row: InstanceRow) -> (r: InstanceRow)
    ensures
        r == stopped(row),
{
    InstanceRow { container_id: None, phase: InstancePhase::Stopped, ..row }
}

/// Without `--purge` no volume is removed, no secret is, and the cluster is
/// kept: everything needed to bring it back stays. The instances keep their
/// names, volumes and ports, are not brought back by themselves, and the next
/// apply publishes them where they were.
pub proof fn a_plain_delete_keeps_the_data(v: Seq<Doomed>, p: DeletePlan, row: InstanceRow)
    requires
        deletes(v, false, p),
    ensures
        p.remove_volumes@.len() == 0,
        texts(p.retain_volumes@) == volumes(v),
        !p.remove_secrets,
        !p.forget,
        p.phase == ClusterPhase::Stopped,
        stopped(row).container_id is None,
        stopped(row).phase.blocked(),
        stopped(row).cluster == row.cluster,
        stopped(row).ordinal == row.ordinal,
        stopped(row).container == row.container,
        stopped(row).volume == row.volume,
        stopped(row).host_port == row.host_port,
        stopped(row).role == row.role,
        forall|allocated: u16| #[trigger]
            published(Some(stopped(row).host_port), allocated) == row.host_port,
{
    assert(texts(p.remove_volumes@).len() == p.remove_volumes@.len());
}

// ---- what each decision rests on -------------------------------------

/// What is done about a container, by what is known of it. One that fits is
/// kept where it runs and started where it does not; one that does not fit is
/// replaced at once where it is stopped, replaced under a hold where it runs
/// and that was allowed, and otherwise refused; where there is none, one is
/// created.
pub proof fn what_is_done_about_a_container(
    probe: Option<Probed>,
    diverged: Option<Error>,
    recreate: bool,
    a: InstanceAct,
)
    requires
        acts(probe, diverged, recreate, a),
    ensures
        a is Create <==> probe is None,
        probe matches Some(p) ==> {
            &&& a is Adopt <==> diverged is None && p.running
            &&& a is Start <==> diverged is None && !p.running
            &&& a is Replace <==> diverged is Some && !p.running
            &&& a is Recreate <==> diverged is Some && p.running && recreate
            &&& a is Refuse <==> diverged is Some && p.running && !recreate
            &&& a matches InstanceAct::Adopt(id) ==> id@ == p.id@
            &&& a matches InstanceAct::Start(id) ==> id@ == p.id@
            &&& a matches InstanceAct::Replace { id, .. } ==> id@ == p.id@
        },
        diverged matches Some(e) ==> (a matches InstanceAct::Recreate(m) ==> occurs(
            m@,
            error_text(e@),
        )),
        diverged matches Some(e) ==> (a matches InstanceAct::Replace { event, .. } ==> occurs(
            event@,
            error_text(e@),
        )),
{
    if let Some(e) = diverged {
        let t = error_text(e@);
        let none = Seq::<char>::empty();
        a_part_occurs("spec diverged, recreating: "@, t, none);
        a_part_occurs("stopped instance diverged, recreating: "@, t, none);
        assert("spec diverged, recreating: "@ + t =~= "spec diverged, recreating: "@ + t + none);
        assert("stopped instance diverged, recreating: "@ + t
            =~= "stopped instance diverged, recreating: "@ + t + none);
    }
}

/// A parameter is refused exactly where, without white space round it and in
/// small letters, it is one that pgpod manages; and it is the first such that
/// is named.
pub proof fn a_managed_parameter_is_refused(
    keys: Seq<Seq<char>>,
    reserved: Seq<Seq<char>>,
    i: int,
)
    requires
        0 <= i <= keys.len(),
        forall|k: int|
            0 <= k < i ==> !reserved.contains(
                trimmed(#[trigger] keys[k]).map_values(|c: char| lower(c)),
            ),
        i < keys.len() ==> reserved.contains(trimmed(keys[i]).map_values(|c: char| lower(c))),
    ensures
        i < keys.len() ==> first_reserved(keys, reserved) == Some(
            trimmed(keys[i]).map_values(|c: char| lower(c)),
        ),
        i == keys.len() ==> first_reserved(keys, reserved) is None,
    decreases keys.len(),
{
    if keys.len() > 0 {
        assert(normalized(keys[0]) =~= trimmed(keys[0]).map_values(|c: char| lower(c)));
        if i > 0 {
            let rest = keys.subrange(1, keys.len() as int);
            assert(!reserved.contains(trimmed(keys[0]).map_values(|c: char| lower(c))));
            assert forall|k: int| 0 <= k < i - 1 implies !reserved.contains(
                trimmed(#[trigger] rest[k]).map_values(|c: char| lower(c)),
            ) by {
                assert(rest[k] == keys[k + 1]);
            }
            if i < keys.len() {
                assert(rest[i - 1] == keys[i]);
            }
            a_managed_parameter_is_refused(rest, reserved, i - 1);
        }
    }
}

/// A published port stays: an instance that has one keeps it.
pub proof fn a_port_is_kept(existing: Option<u16>, allocated: u16)
    ensures
        existing matches Some(p) ==> published(existing, allocated) == p,
        existing is None ==> published(existing, allocated) == allocated,
{
}

/// A server is ready where the probe ran and succeeded, and can be written to
/// only where it also answered that it is not in recovery.
pub proof fn what_a_probe_says(a: Attempt)
    ensures
        a matches Attempt::Ran { success, .. } ==> succeeded(a) == success,
        a is Failed ==> !succeeded(a) && !writable(a),
        a matches Attempt::Ran { success, stdout, .. } ==> (writable(a) <==> success && trimmed(
            stdout@,
        ) == "f"@),
        a matches Attempt::Ran { success, stdout, stderr } ==> seen(a) == trimmed(stdout@)
            + trimmed(stderr@) && not_writable(a) == (if success {
            "still in recovery"@
        } else {
            trimmed(stdout@) + trimmed(stderr@)
        }),
        a matches Attempt::Failed(e) ==> seen(a) == e@ && not_writable(a) == e@,
{
}

/// What is said of a server that did not become ready holds the last probe
/// and the logs.
pub proof fn a_timeout_says_what_was_seen(last: Seq<char>, logs: Seq<char>)
    ensures
        occurs(last_seen(last, logs), last),
        occurs(last_seen(last, logs), logs),
{
    let mid = "\n\ncontainer logs:\n"@;
    let none = Seq::<char>::empty();
    a_part_occurs("last probe: "@, last, mid + logs);
    assert(last_seen(last, logs) =~= "last probe: "@ + last + (mid + logs));
    a_part_occurs("last probe: "@ + last + mid, logs, none);
    assert(last_seen(last, logs) =~= "last probe: "@ + last + mid + logs + none);
}

/// What each success leads to, in order: the image is pulled and compared, the
/// cluster is recorded and the request logged, then come its network, its
/// archive's volume where it has one, its secrets, its instances one by one;
/// they are waited for one by one where that was asked, and then passwords are
/// rotated; where it was not, that is warned of where any would have been; and
/// at last the phase is set and the apply reported.
pub proof fn each_success_decides(a: Apply, ev: Event, b: Apply, act: Act)
    requires
        a.wf(),
        follows(a, ev, b, act),
    ensures
        a.stage == Stage::Start && ev is Begin ==> act is PullImage && b.stage == Stage::Pulling,
        a.stage == Stage::Pulling && ev is Done ==> act is CompareImage && b.stage
            == Stage::Comparing,
        a.stage == Stage::Comparing && ev is Done ==> act is Record && b.stage == Stage::Recording,
        a.stage == Stage::Recording && ev is Done ==> act is LogRequest && b.stage
            == Stage::Requesting,
        a.stage == Stage::Requesting && ev is Done ==> act is EnsureNetwork && b.stage
            == Stage::Networking,
        a.stage == Stage::Networking && ev is Done && a.archive ==> act is CreateArchiveVolume
            && b.stage == Stage::Volumes,
        a.stage == Stage::Networking && ev is Done && !a.archive ==> act is EnsureSecrets && b.stage
            == Stage::Secrets,
        a.stage == Stage::Volumes && ev is Done ==> act is EnsureSecrets && b.stage
            == Stage::Secrets,
        a.stage == Stage::Secrets ==> (ev matches Event::Secrets { rotate } ==> b.rotate == rotate
            && (a.instances > 0 ==> act == Act::ApplyInstance(1) && b.stage == Stage::Instance(1))),
        a.stage matches Stage::Instance(k) ==> ev is Done ==> {
            &&& k < a.instances ==> (act matches Act::ApplyInstance(l) && l == k + 1 && b.stage
                == Stage::Instance(l))
            &&& k == a.instances && a.wait ==> act == Act::WaitReady(1) && b.stage
                == Stage::Waiting(1)
            &&& k == a.instances && !a.wait && a.rotate ==> act is WarnUnrotated && b.stage
                == Stage::Warning
            &&& k == a.instances && !a.wait && !a.rotate ==> act is MarkRunning && b.stage
                == Stage::Finishing
        },
        a.stage matches Stage::Waiting(k) ==> ev is Done ==> {
            &&& k < a.instances ==> (act matches Act::WaitReady(l) && l == k + 1 && b.stage
                == Stage::Waiting(l))
            &&& k == a.instances ==> act is RotateRoles && b.stage == Stage::Rotating
        },
        (a.stage == Stage::Rotating || a.stage == Stage::Warning) && ev is Done ==> act is MarkRunning
            && b.stage == Stage::Finishing,
        a.stage == Stage::Finishing && ev is Done ==> act == (Act::Report { created: !a.existed })
            && b.stage == Stage::Ended,
        b.instances == a.instances && b.archive == a.archive && b.wait == a.wait && b.existed
            == a.existed,
{
}

/// What a failure leads to: until the cluster is recorded it is just told;
/// from there on the phase is set and it is logged as well.
pub proof fn each_failure_decides(a: Apply, e: String, b: Apply, act: Act)
    requires
        a.wf(),
        follows(a, Event::Failed(e), b, act),
    ensures
        a.stage == Stage::Pulling || a.stage == Stage::Comparing || a.stage == Stage::Recording
            ==> b.stage == Stage::Ended && (act matches Act::Fail(m) && m@ == e@),
        a.stage == Stage::Requesting || a.stage == Stage::Networking || a.stage == Stage::Volumes
            || a.stage == Stage::Secrets || a.stage is Instance || a.stage is Waiting || a.stage
            == Stage::Rotating || a.stage == Stage::Warning || a.stage == Stage::Finishing
            ==> b.stage == Stage::Ended && (act matches Act::MarkFailed { event, error } && error@
            == e@ && event@ == "apply failed: "@ + e@),
{
}

/// One instance more in a delete: its container is removed exactly where it
/// exists, and its volume goes the way of the others.
pub proof fn one_instance_more_to_delete(v: Seq<Doomed>, d: Doomed)
    ensures
        existing(Seq::empty()).len() == 0,
        d.exists ==> existing(v.push(d)) == existing(v).push(d.container@),
        !d.exists ==> existing(v.push(d)) == existing(v),
        volumes(v.push(d)) == volumes(v).push(d.volume@),
{
    assert(v.push(d).drop_last() =~= v);
    assert(volumes(v.push(d)) =~= volumes(v).push(d.volume@));
}

/// A purge removes every volume and every secret and forgets the cluster; a
/// plain delete keeps them all. Either way every container that exists goes.
pub proof fn a_delete_does_what_was_asked(v: Seq<Doomed>, purge: bool, p: DeletePlan, i: int)
    requires
        deletes(v, purge, p),
        0 <= i < v.len(),
    ensures
        v[i].exists ==> texts(p.remove_containers@).contains(v[i].container@),
        purge ==> texts(p.remove_volumes@).contains(v[i].volume@) && p.retain_volumes@.len() == 0,
        !purge ==> texts(p.retain_volumes@).contains(v[i].volume@) && p.remove_volumes@.len() == 0,
        p.remove_secrets == purge,
        p.forget == purge,
        p.phase == ClusterPhase::Stopped,
        purge ==> p.event@ == "cluster deleted and volumes purged"@,
        !purge ==> p.event@ == "cluster deleted, volumes retained"@,
{
    assert(volumes(v)[i] == v[i].volume@);
    assert(texts(p.remove_volumes@).len() == p.remove_volumes@.len());
    assert(texts(p.retain_volumes@).len() == p.retain_volumes@.len());
    existing_are_listed(v, i);
}

proof fn existing_are_listed(v: Seq<Doomed>, i: int)
    requires
        0 <= i < v.len(),
    ensures
        v[i].exists ==> existing(v).contains(v[i].container@),
    decreases v.len(),
{
    if v[i].exists {
        let w = v.drop_last();
        if i < w.len() {
            existing_are_listed(w, i);
            assert(w[i] == v[i]);
            let b = existing(w);
            let k = choose|k: int| 0 <= k < b.len() && b[k] == v[i].container@;
            assert(existing(v)[k] == b[k]);
        } else {
            let all = existing(v);
            assert(all[all.len() - 1] == v[i].container@);
        }
    }
}

/// A refused purge says which cluster and which poolers.
pub proof fn a_refused_purge_names_the_poolers(cluster: Seq<char>, poolers: Seq<Seq<char>>, i: int)
    requires
        0 <= i < poolers.len(),
    ensures
        occurs(still_fronted(cluster, poolers), cluster),
        occurs(still_fronted(cluster, poolers), poolers[i]),
{
    let a = " is still fronted by pooler "@;
    let b = ", and --purge destroys its data. Delete the pooler first (`pgpod pooler delete "@;
    let c = "`), or drop --purge to keep the volumes."@;
    let all = joined(poolers, ", "@);
    let t = still_fronted(cluster, poolers);
    every_part_is_there(poolers, ", "@, i);
    a_part_of_a_part_occurs("cluster "@ + cluster + a, all, b + poolers[0] + c, poolers[i]);
    assert(t =~= "cluster "@ + cluster + a + all + (b + poolers[0] + c));
    a_part_occurs("cluster "@, cluster, a + all + b + poolers[0] + c);
    assert(t =~= "cluster "@ + cluster + (a + all + b + poolers[0] + c));
}

// ---- what the functions give back ------------------------------------

/// An instance is recorded as what it is: bootstrapping once it has a
/// container and being created before, its role not known yet.
pub proof fn how_an_instance_is_recorded(
    instance: Instance,
    container_id: Option<String>,
    host_port: u16,
    r: InstanceRow,
)
    requires
        call_ensures(instance_row, (&instance, container_id, host_port), r),
    ensures
        r.cluster@ == instance.cluster@,
        r.ordinal == instance.ordinal,
        r.container@ == instance.container@,
        r.container_id == container_id,
        r.volume@ == instance.volume@,
        r.host_port == host_port,
        r.phase == InstancePhase::Bootstrapping <==> container_id is Some,
        r.phase == InstancePhase::Creating <==> container_id is None,
        r.role == InstanceRole::Unknown,
{
}

/// An instance is ready once an attempt succeeds; while its container runs it
/// is asked again, and given up once it does not.
pub proof fn how_long_an_instance_is_asked(
    a: Attempt,
    container_running: bool,
    ready: Poll,
    writes: Poll,
)
    requires
        call_ensures(wait_ready, (&a, container_running), ready),
        call_ensures(wait_writable, (&a, container_running), writes),
    ensures
        ready is Ready <==> succeeded(a),
        ready is Again <==> !succeeded(a) && container_running,
        ready is GiveUp <==> !succeeded(a) && !container_running,
        writes is Ready <==> writable(a),
        writes is Again <==> !writable(a) && container_running,
        writes is GiveUp <==> !writable(a) && !container_running,
{
}

/// Only a deletion that would destroy data under a pooler is refused.
pub proof fn which_deletions_are_refused(
    cluster: &str,
    purge: bool,
    poolers: Vec<String>,
    instances: Vec<Doomed>,
    r: Result<DeletePlan, String>,
)
    requires
        call_ensures(delete, (cluster, purge, &poolers, &instances), r),
    ensures
        r is Err <==> purge && poolers@.len() > 0,
        r matches Ok(p) ==> deletes(instances@, purge, p),
        r matches Err(m) ==> m@ == still_fronted(cluster@, texts(poolers@)),
{
}

} // verus!
