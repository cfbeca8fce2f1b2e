//! Boot recovery: what is started again after the host came back, and what is
//! left alone.
//!
//! It starts containers that exist. It creates none, and it starts nothing
//! that somebody decided should stay down.

use crate::control::model::{ClusterPhase, InstancePhase};
use crate::control::status::ContainerState;
use crate::text::{a_part_occurs, append_decimal, decimal, occurs, opt_str, opt_text};
use vstd::prelude::*;
use vstd::seq_lib::*;
use vstd::string::*;

verus! {

/// How long a started instance is waited for, in seconds.
pub const DEFAULT_RESUME_WAIT: u64 = 600;

/// What boot recovery did about one container.
#[derive(Debug, Clone, Copy, PartialEq, Eq, Structural)]
pub enum ResumeAction {
    Adopted,
    Started,
    /// It would have been started, had this not been a dry run.
    WouldStart,
    Skipped,
    Missing,
    Failed,
}

impl ResumeAction {
    /// The action's word.
    pub open spec fn word(&self) -> Seq<char> {
        match *self {
            ResumeAction::Adopted => "adopted"@,
            ResumeAction::Started => "started"@,
            ResumeAction::WouldStart => "would-start"@,
            ResumeAction::Skipped => "skipped"@,
            ResumeAction::Missing => "missing"@,
            ResumeAction::Failed => "failed"@,
        }
    }

    /// The action's word.
    pub fn as_str(&self) -> (r: &'static str)
        ensures
            r@ == self.word(),
    {
        match self {
            ResumeAction::Adopted => "adopted",
            ResumeAction::Started => "started",
            ResumeAction::WouldStart => "would-start",
            ResumeAction::Skipped => "skipped",
            ResumeAction::Missing => "missing",
            ResumeAction::Failed => "failed",
        }
    }

    /// Somebody has to look at this.
    pub open spec fn alarming(&self) -> bool {
        *self == ResumeAction::Missing || *self == ResumeAction::Failed
    }

    /// Whether somebody has to look at this.
    pub fn needs_attention(&self) -> (r: bool)
        ensures
            r == self.alarming(),
    {
        match self {
            ResumeAction::Missing | ResumeAction::Failed => true,
            _ => false,
        }
    }
}

/// What to do about one container.
#[derive(Debug, Clone, Copy, PartialEq, Eq)]
pub enum Decision {
    Adopt,
    Start,
    /// Leave it alone, for this reason.
    Skip(&'static str),
    Missing,
}

/// Why nothing of a cluster in this phase is touched.
pub open spec fn skip_text(phase: ClusterPhase) -> Option<Seq<char>> {
    match phase {
        ClusterPhase::Running => None,
        ClusterPhase::Applying => Some(
            "an apply was interrupted — `pgpod apply -f <manifest>` finishes it"@,
        ),
        ClusterPhase::Upgrading => Some(
            "a major upgrade was interrupted — look at its events before starting anything"@,
        ),
        ClusterPhase::Stopped => Some(
            "deliberately stopped — `pgpod apply -f <manifest>` brings it back"@,
        ),
        ClusterPhase::Failed => Some(
            "the last apply failed — `pgpod apply -f <manifest>` tries again"@,
        ),
        ClusterPhase::Unknown => Some("in a phase this version of pgpod does not know"@),
    }
}

/// Why nothing of a cluster in this phase is touched; nothing is said of one
/// that runs.
pub open spec fn own_words(phase: ClusterPhase) -> Seq<char> {
    match skip_text(phase) {
        Some(why) => why,
        None => ""@,
    }
}

impl ClusterPhase {
    /// Why nothing of a cluster in this phase is touched.
    pub fn skip_reason(&self) -> (r: Option<&'static str>)
        ensures
            opt_str(r) == skip_text(*self),
    {
        match self {
            ClusterPhase::Running => None,
            ClusterPhase::Applying => Some(
                "an apply was interrupted — `pgpod apply -f <manifest>` finishes it",
            ),
            ClusterPhase::Upgrading => Some(
                "a major upgrade was interrupted — look at its events before starting anything",
            ),
            ClusterPhase::Stopped => Some(
                "deliberately stopped — `pgpod apply -f <manifest>` brings it back",
            ),
            ClusterPhase::Failed => Some(
                "the last apply failed — `pgpod apply -f <manifest>` tries again",
            ),
            ClusterPhase::Unknown => Some("in a phase this version of pgpod does not know"),
        }
    }
}

/// Why an instance in this phase is not started.
pub open spec fn blocked_text(phase: InstancePhase) -> Seq<char> {
    match phase {
        InstancePhase::Fenced =>
            "fenced during a failover — only an explicit rejoin or rebuild clears this"@,
        InstancePhase::NeedsRebuild => "pg_rewind failed; it needs `pgpod rebuild`"@,
        InstancePhase::Stopped =>
            "deliberately stopped — `pgpod apply -f <manifest>` brings it back"@,
        InstancePhase::Terminated => "terminated"@,
        _ => "not in a restartable phase"@,
    }
}

/// Why an instance in this phase is not started.
pub fn why_blocked(phase: InstancePhase) -> (r: &'static str)
    ensures
        r@ == blocked_text(phase),
{
    match phase {
        InstancePhase::Fenced =>
            "fenced during a failover — only an explicit rejoin or rebuild clears this",
        InstancePhase::NeedsRebuild => "pg_rewind failed; it needs `pgpod rebuild`",
        InstancePhase::Stopped =>
            "deliberately stopped — `pgpod apply -f <manifest>` brings it back",
        InstancePhase::Terminated => "terminated",
        _ => "not in a restartable phase",
    }
}

/// Only a stopped container of a running cluster, in a phase nobody blocked,
/// is started. Where the cluster is not running, `why` says what is wrong.
pub open spec fn decides(
    cluster: ClusterPhase,
    why: Seq<char>,
    instance: InstancePhase,
    running: Option<bool>,
    d: Decision,
) -> bool {
    if cluster != ClusterPhase::Running {
        d matches Decision::Skip(said) && said@ == why
    } else if instance.blocked() {
        d matches Decision::Skip(said) && said@ == blocked_text(instance)
    } else {
        match running {
            None => d is Missing,
            Some(true) => d is Adopt,
            Some(false) => d is Start,
        }
    }
}

pub open spec fn runs(p: Option<ContainerState>) -> Option<bool> {
    match p {
        Some(s) => Some(s.running),
        None => None,
    }
}

/// Decides what to do about one container, with the caller's own words for a
/// cluster that is not running.
pub fn decide_for(
    cluster: ClusterPhase,
    why: &'static str,
    instance: InstancePhase,
    probe: &Option<ContainerState>,
) -> (d: Decision)
    ensures
        decides(cluster, why@, instance, runs(*probe), d),
{
    if cluster != ClusterPhase::Running {
        return Decision::Skip(why);
    }
    if instance.blocks_restart() {
        return Decision::Skip(why_blocked(instance));
    }
    match probe {
        None => Decision::Missing,
        Some(p) => if p.running {
            Decision::Adopt
        } else {
            Decision::Start
        },
    }
}

/// Decides what to do about one container.
pub fn decide(cluster: ClusterPhase, instance: InstancePhase, probe: &Option<ContainerState>) -> (d:
    Decision)
    ensures
        decides(cluster, own_words(cluster), instance, runs(*probe), d),
{
    let why = match cluster.skip_reason() {
        Some(why) => why,
        None => "",
    };
    decide_for(cluster, why, instance, probe)
}

/// A fenced instance is never started, nor is anything else that somebody
/// blocked, whatever podman says of it.
pub proof fn what_is_blocked_stays_down(
    cluster: ClusterPhase,
    why: Seq<char>,
    instance: InstancePhase,
    running: Option<bool>,
    d: Decision,
)
    requires
        decides(cluster, why, instance, running, d),
        instance.blocked(),
    ensures
        d is Skip,
{
}

/// Nothing of a cluster that is not at `running` is touched.
pub proof fn only_running_clusters_are_touched(
    cluster: ClusterPhase,
    why: Seq<char>,
    instance: InstancePhase,
    running: Option<bool>,
    d: Decision,
)
    requires
        decides(cluster, why, instance, running, d),
        cluster != ClusterPhase::Running,
    ensures
        d is Skip,
{
}

/// Doing it again changes nothing: what was started is running by then, and
/// what runs is adopted.
pub proof fn a_second_run_adopts(
    cluster: ClusterPhase,
    why: Seq<char>,
    instance: InstancePhase,
    first: Decision,
    second: Decision,
)
    requires
        decides(cluster, why, instance, Some(false), first),
        first is Start,
        decides(cluster, why, instance, Some(true), second),
    ensures
        second is Adopt,
{
}

/// Every skip says why: in the words of the caller, if there are any, or in
/// the library's own.
pub proof fn every_skip_has_a_reason(
    cluster: ClusterPhase,
    why: Seq<char>,
    instance: InstancePhase,
    running: Option<bool>,
    d: Decision,
)
    requires
        decides(cluster, why, instance, running, d),
        why.len() > 0 || why == own_words(cluster),
    ensures
        d matches Decision::Skip(said) ==> said@.len() > 0,
{
    reveal_strlit("an apply was interrupted — `pgpod apply -f <manifest>` finishes it");
    reveal_strlit("a major upgrade was interrupted — look at its events before starting anything");
    reveal_strlit("deliberately stopped — `pgpod apply -f <manifest>` brings it back");
    reveal_strlit("the last apply failed — `pgpod apply -f <manifest>` tries again");
    reveal_strlit("in a phase this version of pgpod does not know");
    reveal_strlit("fenced during a failover — only an explicit rejoin or rebuild clears this");
    reveal_strlit("pg_rewind failed; it needs `pgpod rebuild`");
    reveal_strlit("terminated");
    reveal_strlit("not in a restartable phase");
}

// ---- order -----------------------------------------------------------

/// An instance to be looked at.
#[derive(Debug, Clone)]
pub struct ResumeRow {
    pub ordinal: u32,
    pub container: String,
    pub phase: InstancePhase,
    pub host_port: u16,
}

/// `x` behind every row whose number is not larger.
pub open spec fn insert_by_ordinal(sorted: Seq<ResumeRow>, x: ResumeRow) -> Seq<ResumeRow>
    decreases sorted.len(),
{
    if sorted.len() == 0 || sorted.last().ordinal <= x.ordinal {
        sorted.push(x)
    } else {
        insert_by_ordinal(sorted.drop_last(), x).push(sorted.last())
    }
}

/// The rows by number.
pub open spec fn by_ordinal(v: Seq<ResumeRow>) -> Seq<ResumeRow>
    decreases v.len(),
{
    if v.len() == 0 {
        v
    } else {
        insert_by_ordinal(by_ordinal(v.drop_last()), v.last())
    }
}

/// No row stands ahead of one with a smaller number.
pub open spec fn ordered(v: Seq<ResumeRow>) -> bool {
    forall|i: int, j: int|
        0 <= i < j < v.len() ==> (#[trigger] v[i]).ordinal <= (#[trigger] v[j]).ordinal
}

proof fn insert_keeps_order(sorted: Seq<ResumeRow>, x: ResumeRow)
    requires
        ordered(sorted),
    ensures
        ordered(insert_by_ordinal(sorted, x)),
        insert_by_ordinal(sorted, x).to_multiset() == sorted.to_multiset().insert(x),
        forall|i: int| #![trigger insert_by_ordinal(sorted, x)[i]]
            0 <= i < insert_by_ordinal(sorted, x).len() && sorted.len() > 0
                ==> insert_by_ordinal(sorted, x)[i].ordinal <= sorted.last().ordinal
                || insert_by_ordinal(sorted, x)[i].ordinal <= x.ordinal,
    decreases sorted.len(),
{
    broadcast use group_to_multiset_ensures;

    if sorted.len() == 0 || sorted.last().ordinal <= x.ordinal {
        let r = sorted.push(x);
        assert forall|i: int, j: int| 0 <= i < j < r.len() implies (#[trigger] r[i]).ordinal
            <= (#[trigger] r[j]).ordinal by {
            if j == r.len() - 1 && i < sorted.len() - 1 {
                assert(sorted[i].ordinal <= sorted[sorted.len() - 1].ordinal);
            }
        }
    } else {
        let rest = sorted.drop_last();
        let last = sorted.last();
        insert_keeps_order(rest, x);
        let inner = insert_by_ordinal(rest, x);
        let r = inner.push(last);
        assert(sorted =~= rest.push(last));
        assert(r.to_multiset() =~= sorted.to_multiset().insert(x));
        assert forall|i: int| 0 <= i < inner.len() implies (#[trigger] inner[i]).ordinal
            <= last.ordinal by {
            if rest.len() > 0 {
                assert(rest.last() == sorted[sorted.len() - 2]);
                assert(sorted[sorted.len() - 2].ordinal <= sorted[sorted.len() - 1].ordinal);
            } else {
                assert(inner =~= rest.push(x));
            }
        }
        assert forall|i: int, j: int| 0 <= i < j < r.len() implies (#[trigger] r[i]).ordinal
            <= (#[trigger] r[j]).ordinal by {
            if j == r.len() - 1 {
                assert(r[i] == inner[i]);
            }
        }
    }
}

/// Sorting puts the primary first and the standbys after it, and neither adds
/// nor loses an instance.
pub proof fn by_ordinal_sorts(v: Seq<ResumeRow>)
    ensures
        ordered(by_ordinal(v)),
        by_ordinal(v).to_multiset() == v.to_multiset(),
    decreases v.len(),
{
    broadcast use group_to_multiset_ensures;

    if v.len() > 0 {
        by_ordinal_sorts(v.drop_last());
        insert_keeps_order(by_ordinal(v.drop_last()), v.last());
        assert(v =~= v.drop_last().push(v.last()));
    }
}

proof fn insert_at(sorted: Seq<ResumeRow>, x: ResumeRow, p: int)
    requires
        0 <= p <= sorted.len(),
        p > 0 ==> sorted[p - 1].ordinal <= x.ordinal,
        forall|k: int| p <= k < sorted.len() ==> sorted[k].ordinal > x.ordinal,
    ensures
        insert_by_ordinal(sorted, x) == sorted.insert(p, x),
    decreases sorted.len(),
{
    if p == sorted.len() {
        assert(sorted.insert(p, x) =~= sorted.push(x));
    } else {
        insert_at(sorted.drop_last(), x, p);
        assert(sorted.drop_last().insert(p, x).push(sorted.last()) =~= sorted.insert(p, x));
    }
}

/// The instances in the order in which they are started: by number, so that
/// standbys find their primary up.
pub fn resume_order(rows: Vec<ResumeRow>) -> (r: Vec<ResumeRow>)
    ensures
        r@ == by_ordinal(rows@),
{
    let mut out: Vec<ResumeRow> = Vec::new();
    let ghost all = rows@;
    let mut rest = rows;
    let ghost mut done: int = 0;
    assert(out@ =~= by_ordinal(all.take(0)));
    while rest.len() > 0
        invariant
            0 <= done <= all.len(),
            rest@ == all.subrange(done, all.len() as int),
            out@ == by_ordinal(all.take(done)),
        decreases rest.len(),
    {
        let x = rest.remove(0);
        assert(x == all[done]);
        assert(rest@ =~= all.subrange(done + 1, all.len() as int));
        assert(all.take(done + 1).drop_last() =~= all.take(done));
        let mut p: usize = out.len();
        while p > 0 && out[p - 1].ordinal > x.ordinal
            invariant
                p <= out.len(),
                forall|k: int| p <= k < out.len() ==> out@[k].ordinal > x.ordinal,
            decreases p,
        {
            p = p - 1;
        }
        proof {
            insert_at(out@, x, p as int);
            done = done + 1;
        }
        out.insert(p, x);
    }
    assert(all.take(done) =~= all);
    out
}

// ---- one container ---------------------------------------------------

/// What boot recovery did about one container, for showing.
#[derive(Debug, Clone)]
pub struct UnitResume {
    pub name: String,
    pub action: ResumeAction,
    pub detail: Option<String>,
}

/// What follows a decision.
#[derive(Debug, Clone)]
pub enum Next {
    Done(UnitResume),
    /// See that its port is free, and start it.
    Start,
}

pub open spec fn unit(
    u: UnitResume,
    name: Seq<char>,
    action: ResumeAction,
    detail: Option<Seq<char>>,
) -> bool {
    u.name@ == name && u.action == action && opt_text(u.detail) == detail
}

fn unit_of(name: &str, action: ResumeAction, detail: Option<String>) -> (u: UnitResume)
    ensures
        unit(u, name@, action, opt_text(detail)),
{
    UnitResume { name: name.to_owned(), action, detail }
}

pub open spec fn missing_text(container: Seq<char>) -> Seq<char> {
    "podman has no container "@ + container
        + ". Its volume may still hold the data — `pgpod apply -f <manifest>` recreates the container around it."@
}

/// What follows for one container. Where podman cannot be asked, nothing is
/// done; in a dry run nothing is ever started.
pub open spec fn resumes(
    name: Seq<char>,
    container: Seq<char>,
    cluster: ClusterPhase,
    why: Seq<char>,
    phase: InstancePhase,
    probe: Result<Option<ContainerState>, String>,
    dry_run: bool,
    n: Next,
) -> bool {
    match probe {
        Err(e) => n matches Next::Done(u) && unit(
            u,
            name,
            ResumeAction::Failed,
            Some("could not ask podman about it: "@ + e@),
        ),
        Ok(p) => if cluster != ClusterPhase::Running {
            n matches Next::Done(u) && unit(u, name, ResumeAction::Skipped, Some(why))
        } else if phase.blocked() {
            n matches Next::Done(u) && unit(
                u,
                name,
                ResumeAction::Skipped,
                Some(blocked_text(phase)),
            )
        } else {
            match runs(p) {
                None => n matches Next::Done(u) && unit(
                    u,
                    name,
                    ResumeAction::Missing,
                    Some(missing_text(container)),
                ),
                Some(true) => n matches Next::Done(u) && unit(u, name, ResumeAction::Adopted, None),
                Some(false) => if dry_run {
                    n matches Next::Done(u) && unit(u, name, ResumeAction::WouldStart, None)
                } else {
                    n is Start
                },
            }
        },
    }
}

/// Decides about one container. `why` says what is wrong with a cluster that
/// is not running.
pub fn resume_container(
    name: &str,
    container: &str,
    cluster: ClusterPhase,
    why: &'static str,
    phase: InstancePhase,
    probe: &Result<Option<ContainerState>, String>,
    dry_run: bool,
) -> (n: Next)
    ensures
        resumes(name@, container@, cluster, why@, phase, *probe, dry_run, n),
{
    match probe {
        Err(e) => {
            let mut d = "could not ask podman about it: ".to_owned();
            d.append(e.as_str());
            Next::Done(unit_of(name, ResumeAction::Failed, Some(d)))
        },
        Ok(p) => match decide_for(cluster, why, phase, p) {
            Decision::Adopt => Next::Done(unit_of(name, ResumeAction::Adopted, None)),
            Decision::Skip(why) => Next::Done(
                unit_of(name, ResumeAction::Skipped, Some(why.to_owned())),
            ),
            Decision::Missing => {
                let mut d = "podman has no container ".to_owned();
                d.append(container);
                d.append(
                    ". Its volume may still hold the data — `pgpod apply -f <manifest>` recreates the container around it.",
                );
                Next::Done(unit_of(name, ResumeAction::Missing, Some(d)))
            },
            Decision::Start => if dry_run {
                Next::Done(unit_of(name, ResumeAction::WouldStart, None))
            } else {
                Next::Start
            },
        },
    }
}

/// What came of starting a container.
#[derive(Debug, Clone)]
pub enum Start {
    /// Its port is held by somebody else, for this reason.
    PortHeld { port: u16, error: String },
    Started,
    Failed(String),
}

pub open spec fn port_text(port: u16, error: Seq<char>) -> Seq<char> {
    "host port "@ + decimal(port as nat) + " is held by another process ("@ + error
        + "); the container was not started. Free the port and run `pgpod daemon --once`, or re-apply the manifest to move it."@
}

/// Why a container was not started: its port is taken.
pub fn port_held(port: u16, error: &str) -> (r: String)
    ensures
        r@ == port_text(port, error@),
{
    let mut s = "host port ".to_owned();
    append_decimal(&mut s, port as u64);
    s.append(" is held by another process (");
    s.append(error);
    s.append(
        "); the container was not started. Free the port and run `pgpod daemon --once`, or re-apply the manifest to move it.",
    );
    s
}

/// What is reported of a start.
pub open spec fn starts(name: Seq<char>, s: Start, u: UnitResume) -> bool {
    match s {
        Start::PortHeld { port, error } => unit(
            u,
            name,
            ResumeAction::Failed,
            Some(port_text(port, error@)),
        ),
        Start::Started => unit(u, name, ResumeAction::Started, None),
        Start::Failed(e) => unit(u, name, ResumeAction::Failed, Some("start failed: "@ + e@)),
    }
}

/// What is reported of a start.
pub fn started(name: &str, s: &Start) -> (u: UnitResume)
    ensures
        starts(name@, *s, u),
{
    match s {
        Start::PortHeld { port, error } => unit_of(
            name,
            ResumeAction::Failed,
            Some(port_held(*port, error.as_str())),
        ),
        Start::Started => unit_of(name, ResumeAction::Started, None),
        Start::Failed(e) => {
            let mut d = "start failed: ".to_owned();
            d.append(e.as_str());
            unit_of(name, ResumeAction::Failed, Some(d))
        },
    }
}

/// A dry run says exactly what a real one would try: it reports that it would
/// start a container where the other starts it, and the same thing elsewhere.
pub proof fn a_dry_run_tells_the_truth(
    name: Seq<char>,
    container: Seq<char>,
    cluster: ClusterPhase,
    why: Seq<char>,
    phase: InstancePhase,
    probe: Result<Option<ContainerState>, String>,
    dry: Next,
    acted: Next,
)
    requires
        resumes(name, container, cluster, why, phase, probe, true, dry),
        resumes(name, container, cluster, why, phase, probe, false, acted),
    ensures
        dry is Done,
        acted is Start <==> dry->Done_0.action == ResumeAction::WouldStart,
        acted matches Next::Done(u) ==> u.action == dry->Done_0.action && opt_text(u.detail)
            == opt_text(dry->Done_0.detail),
{
}

pub const RECREATE_POOLER: &'static str =
    "\n\nA pooler renders its \
                     config on every start and keeps nothing durable, so \
                     `pgpod apply -f <pooler manifest>` recreates it safely.";

/// What is reported of a pooler, given why it does not answer.
pub open spec fn comes_up(u: UnitResume, not_ready: Option<Seq<char>>, r: UnitResume) -> bool {
    match not_ready {
        Some(e) => if u.action == ResumeAction::Started {
            unit(
                r,
                u.name@,
                ResumeAction::Failed,
                Some("started, but it did not come up: "@ + e + RECREATE_POOLER@),
            )
        } else {
            r == u
        },
        None => r == u,
    }
}

/// A pooler that was started is only reported so once it answers: that podman
/// started it says nothing, since it renders its configuration first.
pub fn pooler_outcome(u: UnitResume, not_ready: Option<&str>) -> (r: UnitResume)
    ensures
        comes_up(u, opt_str(not_ready), r),
{
    match not_ready {
        Some(e) => {
            if u.action == ResumeAction::Started {
                let mut d = "started, but it did not come up: ".to_owned();
                d.append(e);
                d.append(RECREATE_POOLER);
                UnitResume { name: u.name, action: ResumeAction::Failed, detail: Some(d) }
            } else {
                u
            }
        },
        None => u,
    }
}

// ---- a cluster -------------------------------------------------------

/// What boot recovery did about a cluster.
#[derive(Debug, Clone)]
pub struct ClusterResume {
    pub cluster: String,
    pub phase: String,
    pub instances: Vec<UnitResume>,
    pub skipped: Option<String>,
}

/// How boot recovery is carried out.
#[derive(Debug, Clone, Copy, PartialEq, Eq, Structural)]
pub struct ResumeOptions {
    /// How long a started instance is waited for, in seconds.
    pub wait: u64,
    /// Say what would be done, and do nothing.
    pub dry_run: bool,
}

impl Default for ResumeOptions {
    fn default() -> (r: Self)
        ensures
            r.wait == DEFAULT_RESUME_WAIT,
            !r.dry_run,
    {
        ResumeOptions { wait: DEFAULT_RESUME_WAIT, dry_run: false }
    }
}

/// Something to log.
#[derive(Debug, Clone)]
pub struct Note {
    pub level: &'static str,
    pub message: String,
}

/// What is logged of an instance that was started and is not ready.
pub open spec fn says_not_ready(id: Seq<char>, error: Seq<char>, n: Note) -> bool {
    n.level@ == "warn"@ && n.message@ == id + " started but not ready: "@ + error
}

/// What is logged of an instance that was started and is not ready. It is no
/// reason to leave the others down.
pub fn not_ready_note(id: &str, error: &str) -> (n: Note)
    ensures
        says_not_ready(id@, error@, n),
{
    let mut m = id.to_owned();
    m.append(" started but not ready: ");
    m.append(error);
    Note { level: "warn", message: m }
}

/// A cluster that is left alone as a whole, and what is logged of it: nothing
/// in a dry run.
pub open spec fn gated(
    name: Seq<char>,
    phase: ClusterPhase,
    why: Seq<char>,
    dry_run: bool,
    r: Option<(ClusterResume, Option<Note>)>,
) -> bool {
    if phase == ClusterPhase::Running {
        r is None
    } else {
        r matches Some((c, n)) && {
            &&& c.cluster@ == name
            &&& c.phase@ == phase.word()
            &&& c.instances@.len() == 0
            &&& opt_text(c.skipped) == Some(why)
            &&& if dry_run {
                n is None
            } else {
                n matches Some(note) && note.level@ == (if phase == ClusterPhase::Stopped {
                    "info"@
                } else {
                    "warn"@
                }) && note.message@ == "boot recovery skipped this cluster: "@ + why
            }
        }
    }
}

/// Leaves a cluster alone unless it is at `running`; `why` says what is wrong
/// with it otherwise.
pub fn skip_cluster(name: &str, phase: ClusterPhase, why: &str, dry_run: bool) -> (r: Option<
    (ClusterResume, Option<Note>),
>)
    ensures
        gated(name@, phase, why@, dry_run, r),
{
    if phase == ClusterPhase::Running {
        return None;
    }
    let c = ClusterResume {
        cluster: name.to_owned(),
        phase: phase.as_str().to_owned(),
        instances: Vec::new(),
        skipped: Some(why.to_owned()),
    };
    let n = if dry_run {
        None
    } else {
        let mut m = "boot recovery skipped this cluster: ".to_owned();
        m.append(why);
        Some(
            Note {
                level: if phase == ClusterPhase::Stopped {
                    "info"
                } else {
                    "warn"
                },
                message: m,
            },
        )
    };
    Some((c, n))
}

/// What is reported of a cluster whose name cannot be used.
pub open spec fn unusable(
    name: Seq<char>,
    phase: ClusterPhase,
    error: Seq<char>,
    r: ClusterResume,
) -> bool {
    &&& r.cluster@ == name
    &&& r.phase@ == phase.word()
    &&& r.instances@.len() == 0
    &&& opt_text(r.skipped) == Some("unusable cluster name in the registry: "@ + error)
}

/// A cluster whose name cannot be used is reported rather than dropped: one
/// that is missing from the report would look as if it came up.
pub fn unusable_cluster(name: &str, phase: ClusterPhase, error: &str) -> (r: ClusterResume)
    ensures
        unusable(name@, phase, error@, r),
{
    let mut m = "unusable cluster name in the registry: ".to_owned();
    m.append(error);
    ClusterResume {
        cluster: name.to_owned(),
        phase: phase.as_str().to_owned(),
        instances: Vec::new(),
        skipped: Some(m),
    }
}

/// How often each action occurs.
#[derive(Debug, Clone, Copy, PartialEq, Eq, Structural)]
pub struct ResumeCounts {
    pub adopted: usize,
    pub started: usize,
    pub would_start: usize,
    pub skipped: usize,
    pub missing: usize,
    pub failed: usize,
}

/// How many of the units have an action.
pub open spec fn tally(units: Seq<UnitResume>, a: ResumeAction) -> nat
    decreases units.len(),
{
    if units.len() == 0 {
        0
    } else {
        tally(units.drop_last(), a) + if units.last().action == a {
            1nat
        } else {
            0nat
        }
    }
}

proof fn tally_bound(units: Seq<UnitResume>, a: ResumeAction)
    ensures
        tally(units, a) <= units.len(),
    decreases units.len(),
{
    if units.len() > 0 {
        tally_bound(units.drop_last(), a);
    }
}

proof fn tally_sum(x: Seq<UnitResume>, y: Seq<UnitResume>, a: ResumeAction)
    ensures
        tally(x + y, a) == tally(x, a) + tally(y, a),
    decreases y.len(),
{
    if y.len() == 0 {
        assert(x + y =~= x);
    } else {
        assert((x + y).drop_last() =~= x + y.drop_last());
        tally_sum(x, y.drop_last(), a);
    }
}

/// Counts in a sentence.
pub open spec fn counts_text(
    adopted: nat,
    started: nat,
    skipped: nat,
    missing: nat,
    failed: nat,
) -> Seq<char> {
    decimal(adopted) + " adopted, "@ + decimal(started) + " started, "@ + decimal(skipped)
        + " skipped, "@ + decimal(missing) + " missing, "@ + decimal(failed) + " failed"@
}

/// How often each action occurs among some units, in a sentence.
pub open spec fn summary(units: Seq<UnitResume>) -> Seq<char> {
    counts_text(
        tally(units, ResumeAction::Adopted),
        tally(units, ResumeAction::Started),
        tally(units, ResumeAction::Skipped),
        tally(units, ResumeAction::Missing),
        tally(units, ResumeAction::Failed),
    )
}

impl ResumeCounts {
    /// The counts of some units.
    pub open spec fn counts_of(&self, units: Seq<UnitResume>) -> bool {
        &&& self.adopted == tally(units, ResumeAction::Adopted)
        &&& self.started == tally(units, ResumeAction::Started)
        &&& self.would_start == tally(units, ResumeAction::WouldStart)
        &&& self.skipped == tally(units, ResumeAction::Skipped)
        &&& self.missing == tally(units, ResumeAction::Missing)
        &&& self.failed == tally(units, ResumeAction::Failed)
    }

    fn zero() -> (r: Self)
        ensures
            r.counts_of(Seq::empty()),
    {
        ResumeCounts { adopted: 0, started: 0, would_start: 0, skipped: 0, missing: 0, failed: 0 }
    }

    /// Counts more units.
    fn count(&mut self, more: &Vec<UnitResume>, Ghost(before): Ghost<Seq<UnitResume>>)
        requires
            old(self).counts_of(before),
            before.len() + more.len() <= usize::MAX,
        ensures
            final(self).counts_of(before + more@),
    {
        let mut i: usize = 0;
        assert(before + more@.take(0) =~= before);
        while i < more.len()
            invariant
                i <= more.len(),
                before.len() + more.len() <= usize::MAX,
                self.counts_of(before + more@.take(i as int)),
            decreases more.len() - i,
        {
            let ghost sofar = before + more@.take(i as int);
            let ghost next = before + more@.take(i + 1);
            proof {
                assert(next.drop_last() =~= sofar);
                tally_bound(sofar, ResumeAction::Adopted);
                tally_bound(sofar, ResumeAction::Started);
                tally_bound(sofar, ResumeAction::WouldStart);
                tally_bound(sofar, ResumeAction::Skipped);
                tally_bound(sofar, ResumeAction::Missing);
                tally_bound(sofar, ResumeAction::Failed);
            }
            match more[i].action {
                ResumeAction::Adopted => {
                    self.adopted = self.adopted + 1;
                },
                ResumeAction::Started => {
                    self.started = self.started + 1;
                },
                ResumeAction::WouldStart => {
                    self.would_start = self.would_start + 1;
                },
                ResumeAction::Skipped => {
                    self.skipped = self.skipped + 1;
                },
                ResumeAction::Missing => {
                    self.missing = self.missing + 1;
                },
                ResumeAction::Failed => {
                    self.failed = self.failed + 1;
                },
            }
            i = i + 1;
        }
        assert(more@.take(i as int) =~= more@);
    }

    /// The counts in a sentence.
    pub open spec fn sentence(&self) -> Seq<char> {
        counts_text(
            self.adopted as nat,
            self.started as nat,
            self.skipped as nat,
            self.missing as nat,
            self.failed as nat,
        )
    }

    /// The counts in a sentence.
    pub fn to_text(&self) -> (r: String)
        ensures
            r@ == self.sentence(),
    {
        let mut s = String::new();
        append_decimal(&mut s, self.adopted as u64);
        assert(s@ =~= decimal(self.adopted as nat));
        s.append(" adopted, ");
        append_decimal(&mut s, self.started as u64);
        s.append(" started, ");
        append_decimal(&mut s, self.skipped as u64);
        s.append(" skipped, ");
        append_decimal(&mut s, self.missing as u64);
        s.append(" missing, ");
        append_decimal(&mut s, self.failed as u64);
        s.append(" failed");
        s
    }
}

/// Some unit needs looking at.
pub open spec fn any_alarming(units: Seq<UnitResume>) -> bool {
    exists|i: int| 0 <= i < units.len() && (#[trigger] units[i]).action.alarming()
}

fn is_any_alarming(units: &Vec<UnitResume>) -> (r: bool)
    ensures
        r == any_alarming(units@),
{
    let mut i: usize = 0;
    while i < units.len()
        invariant
            i <= units.len(),
            forall|k: int| 0 <= k < i ==> !(#[trigger] units@[k]).action.alarming(),
        decreases units.len() - i,
    {
        if units[i].action.needs_attention() {
            return true;
        }
        i = i + 1;
    }
    false
}

/// What is reported of a cluster that was looked at, and what is logged of it.
pub open spec fn concludes(
    name: Seq<char>,
    phase: ClusterPhase,
    instances: Seq<UnitResume>,
    dry_run: bool,
    r: ClusterResume,
    note: Option<Note>,
) -> bool {
    &&& r.cluster@ == name
    &&& r.phase@ == phase.word()
    &&& r.instances@ == instances
    &&& r.skipped is None
    &&& if instances.len() == 0 || dry_run {
        note is None
    } else {
        note matches Some(n) && n.level@ == (if any_alarming(instances) {
            "warn"@
        } else {
            "info"@
        }) && n.message@ == "boot recovery: "@ + summary(instances)
    }
}

/// What is reported of a cluster that was looked at, and the one line that is
/// logged of it: none where it has no instances, nor in a dry run.
pub fn resume_cluster(name: &str, phase: ClusterPhase, instances: Vec<UnitResume>, dry_run: bool) -> (r:
    (ClusterResume, Option<Note>))
    ensures
        concludes(name@, phase, instances@, dry_run, r.0, r.1),
{
    let note = if instances.len() == 0 || dry_run {
        None
    } else {
        let mut c = ResumeCounts::zero();
        let ghost none = Seq::<UnitResume>::empty();
        c.count(&instances, Ghost(none));
        assert(none + instances@ =~= instances@);
        let mut m = "boot recovery: ".to_owned();
        m.append(c.to_text().as_str());
        let level = if is_any_alarming(&instances) {
            "warn"
        } else {
            "info"
        };
        Some(Note { level, message: m })
    };
    (
        ClusterResume {
            cluster: name.to_owned(),
            phase: phase.as_str().to_owned(),
            instances,
            skipped: None,
        },
        note,
    )
}

// ---- the whole report ------------------------------------------------

/// What boot recovery did.
#[derive(Debug, Clone)]
pub struct ResumeReport {
    pub clusters: Vec<ClusterResume>,
    pub poolers: Vec<UnitResume>,
    pub dry_run: bool,
}

/// The instances of all clusters, in order.
pub open spec fn all_instances(v: Seq<ClusterResume>) -> Seq<UnitResume>
    decreases v.len(),
{
    if v.len() == 0 {
        Seq::empty()
    } else {
        all_instances(v.drop_last()) + v.last().instances@
    }
}

/// How many clusters were left alone as a whole.
pub open spec fn skipped_clusters(v: Seq<ClusterResume>) -> nat
    decreases v.len(),
{
    if v.len() == 0 {
        0
    } else {
        skipped_clusters(v.drop_last()) + if v.last().skipped is Some {
            1nat
        } else {
            0nat
        }
    }
}

proof fn skipped_bound(v: Seq<ClusterResume>)
    ensures
        skipped_clusters(v) <= v.len(),
    decreases v.len(),
{
    if v.len() > 0 {
        skipped_bound(v.drop_last());
    }
}

proof fn all_instances_prefix(v: Seq<ClusterResume>, i: int)
    requires
        0 <= i <= v.len(),
    ensures
        all_instances(v.take(i)).len() <= all_instances(v).len(),
    decreases v.len() - i,
{
    if i == v.len() {
        assert(v.take(i) =~= v);
    } else {
        assert(v.take(i + 1).drop_last() =~= v.take(i));
        all_instances_prefix(v, i + 1);
    }
}

impl ResumeReport {
    /// Everything that was looked at: the instances, then the poolers.
    pub open spec fn units(&self) -> Seq<UnitResume> {
        all_instances(self.clusters@) + self.poolers@
    }

    /// How often each action occurs. A cluster that was left alone as a whole
    /// counts as one skip.
    pub open spec fn tallied(&self, c: ResumeCounts) -> bool {
        &&& c.adopted == tally(self.units(), ResumeAction::Adopted)
        &&& c.started == tally(self.units(), ResumeAction::Started)
        &&& c.would_start == tally(self.units(), ResumeAction::WouldStart)
        &&& c.skipped == tally(self.units(), ResumeAction::Skipped) + skipped_clusters(
            self.clusters@,
        )
        &&& c.missing == tally(self.units(), ResumeAction::Missing)
        &&& c.failed == tally(self.units(), ResumeAction::Failed)
    }

    /// How often each action occurs, in a sentence. A cluster that was left
    /// alone as a whole counts as one skip.
    pub open spec fn counted(&self) -> Seq<char> {
        counts_text(
            tally(self.units(), ResumeAction::Adopted),
            tally(self.units(), ResumeAction::Started),
            tally(self.units(), ResumeAction::Skipped) + skipped_clusters(self.clusters@),
            tally(self.units(), ResumeAction::Missing),
            tally(self.units(), ResumeAction::Failed),
        )
    }

    /// How many would have been started.
    pub open spec fn would_starts(&self) -> nat {
        tally(self.units(), ResumeAction::WouldStart)
    }

    /// How often each action occurs. A cluster that was left alone as a whole
    /// counts as one skip.
    pub fn counts(&self) -> (c: ResumeCounts)
        requires
            self.units().len() + self.clusters.len() <= usize::MAX,
        ensures
            self.tallied(c),
    {
        let mut c = ResumeCounts::zero();
        let mut whole: usize = 0;
        let ghost all = self.clusters@;
        let mut i: usize = 0;
        assert(all_instances(all.take(0)) =~= Seq::empty());
        while i < self.clusters.len()
            invariant
                i <= self.clusters.len(),
                all == self.clusters@,
                self.units().len() + self.clusters.len() <= usize::MAX,
                c.counts_of(all_instances(all.take(i as int))),
                whole == skipped_clusters(all.take(i as int)),
                whole <= i,
            decreases self.clusters.len() - i,
        {
            proof {
                assert(all.take(i + 1).drop_last() =~= all.take(i as int));
                all_instances_prefix(all, i + 1);
            }
            let ghost before = all_instances(all.take(i as int));
            c.count(&self.clusters[i].instances, Ghost(before));
            if self.clusters[i].skipped.is_some() {
                whole = whole + 1;
            }
            i = i + 1;
        }
        assert(all.take(i as int) =~= all);
        c.count(&self.poolers, Ghost(all_instances(all)));
        proof {
            tally_bound(self.units(), ResumeAction::Skipped);
            skipped_bound(all);
        }
        c.skipped = c.skipped + whole;
        c
    }

    /// Whether anything needs looking at.
    pub fn needs_attention(&self) -> (r: bool)
        ensures
            r == any_alarming(self.units()),
    {
        let ghost all = self.clusters@;
        let mut i: usize = 0;
        assert(all_instances(all.take(0)) =~= Seq::empty());
        while i < self.clusters.len()
            invariant
                i <= self.clusters.len(),
                all == self.clusters@,
                !any_alarming(all_instances(all.take(i as int))),
            decreases self.clusters.len() - i,
        {
            assert(all.take(i + 1).drop_last() =~= all.take(i as int));
            let ghost before = all_instances(all.take(i as int));
            let ghost here = self.clusters@[i as int].instances@;
            if is_any_alarming(&self.clusters[i].instances) {
                proof {
                    let k = choose|k: int|
                        0 <= k < here.len() && (#[trigger] here[k]).action.alarming();
                    let upto = all_instances(all.take(i + 1));
                    assert(upto[before.len() + k] == here[k]);
                    alarm_spreads(all, i + 1, before.len() + k);
                    let j = choose|j: int|
                        0 <= j < all_instances(all).len() && (#[trigger] all_instances(
                            all,
                        )[j]).action.alarming();
                    assert(self.units()[j] == all_instances(all)[j]);
                }
                return true;
            }
            proof {
                let upto = all_instances(all.take(i + 1));
                assert forall|k: int| 0 <= k < upto.len() implies !(#[trigger] upto[k]).action.alarming() by {
                    if k < before.len() {
                        assert(upto[k] == before[k]);
                    } else {
                        assert(upto[k] == here[k - before.len()]);
                    }
                }
            }
            i = i + 1;
        }
        assert(all.take(i as int) =~= all);
        let r = is_any_alarming(&self.poolers);
        proof {
            let a = all_instances(all);
            let p = self.poolers@;
            let u = self.units();
            if r {
                let k = choose|k: int| 0 <= k < p.len() && (#[trigger] p[k]).action.alarming();
                assert(u[a.len() + k] == p[k]);
            } else {
                assert forall|k: int| 0 <= k < u.len() implies !(#[trigger] u[k]).action.alarming() by {
                    if k < a.len() {
                        assert(u[k] == a[k]);
                    } else {
                        assert(u[k] == p[k - a.len()]);
                    }
                }
            }
        }
        r
    }
}

proof fn alarm_spreads(all: Seq<ClusterResume>, i: int, k: int)
    requires
        0 <= i <= all.len(),
        0 <= k < all_instances(all.take(i)).len(),
        all_instances(all.take(i))[k].action.alarming(),
    ensures
        any_alarming(all_instances(all)),
    decreases all.len() - i,
{
    if i == all.len() {
        assert(all.take(i) =~= all);
    } else {
        assert(all.take(i + 1).drop_last() =~= all.take(i));
        assert(all_instances(all.take(i + 1))[k] == all_instances(all.take(i))[k]);
        alarm_spreads(all, i + 1, k);
    }
}

// ---- the daemon ------------------------------------------------------

/// Whether a daemon is running on this host.
#[derive(Debug, Clone, PartialEq, Eq)]
pub enum DaemonState {
    Running,
    NotRunning,
    NeverRan,
    Unknown(String),
}

/// What came of opening the lock file and trying to lock it.
#[derive(Debug, Clone)]
pub enum LockAttempt {
    NoFile,
    Unreadable(String),
    /// Nobody had it.
    Taken,
    Held,
}

/// What the lock says of the daemon.
pub open spec fn state_by_lock(a: LockAttempt) -> DaemonState {
    match a {
        LockAttempt::NoFile => DaemonState::NeverRan,
        LockAttempt::Unreadable(e) => DaemonState::Unknown(e),
        LockAttempt::Taken => DaemonState::NotRunning,
        LockAttempt::Held => DaemonState::Running,
    }
}

impl DaemonState {
    /// What the lock says. The file outlives the daemon; the lock does not.
    pub fn probe(a: LockAttempt) -> (r: Self)
        ensures
            r == state_by_lock(a),
    {
        match a {
            LockAttempt::NoFile => DaemonState::NeverRan,
            LockAttempt::Unreadable(e) => DaemonState::Unknown(e),
            LockAttempt::Taken => DaemonState::NotRunning,
            LockAttempt::Held => DaemonState::Running,
        }
    }
}

pub const ALREADY_RUNNING: &'static str =
    ").\n\n\
                 Boot recovery is that daemon's job and it has already done \
                 it — `pgpod status` shows the result, and `journalctl --user \
                 -u pgpod-daemon.service` shows what it did at boot. \
                 `pgpod daemon --once` is for hosts where no daemon is \
                 running; to take over from the one that is:\n  \
                 systemctl --user stop pgpod-daemon.service";

/// Why a second daemon is refused.
pub fn lock_refused(path: &str, errno: &str) -> (r: String)
    ensures
        r@ == "another pgpod daemon is already running on this host, holding the lock on "@
            + path@ + " ("@ + errno@ + ALREADY_RUNNING@,
{
    let mut s =
        "another pgpod daemon is already running on this host, holding the lock on ".to_owned();
    s.append(path);
    s.append(" (");
    s.append(errno);
    s.append(ALREADY_RUNNING);
    s
}

/// The ports of several lists, one after the other.
pub open spec fn flat(v: Seq<Vec<u16>>) -> Seq<u16>
    decreases v.len(),
{
    if v.len() == 0 {
        Seq::empty()
    } else {
        flat(v.drop_last()) + v.last()@
    }
}

/// Every host port that is recorded: the instances', cluster by cluster, then
/// the poolers'.
pub fn recorded_host_ports(clusters: &Vec<Vec<u16>>, poolers: &Vec<u16>) -> (r: Vec<u16>)
    ensures
        r@ == flat(clusters@) + poolers@,
{
    let mut out: Vec<u16> = Vec::new();
    let mut i: usize = 0;
    assert(out@ =~= flat(clusters@.take(0)));
    while i < clusters.len()
        invariant
            i <= clusters.len(),
            out@ == flat(clusters@.take(i as int)),
        decreases clusters.len() - i,
    {
        assert(clusters@.take(i + 1).drop_last() =~= clusters@.take(i as int));
        let ghost start = out@;
        let ghost here = clusters@[i as int]@;
        let mut j: usize = 0;
        assert(out@ =~= start + here.take(0));
        while j < clusters[i].len()
            invariant
                i < clusters.len(),
                j <= here.len(),
                here == clusters@[i as int]@,
                out@ == start + here.take(j as int),
            decreases here.len() - j,
        {
            out.push(clusters[i][j]);
            assert(out@ =~= start + here.take(j + 1));
            j = j + 1;
        }
        assert(here.take(j as int) =~= here);
        i = i + 1;
    }
    assert(clusters@.take(i as int) =~= clusters@);
    let ghost start = out@;
    let mut j: usize = 0;
    assert(out@ =~= start + poolers@.take(0));
    while j < poolers.len()
        invariant
            j <= poolers.len(),
            out@ == start + poolers@.take(j as int),
        decreases poolers.len() - j,
    {
        out.push(poolers[j]);
        assert(out@ =~= start + poolers@.take(j + 1));
        j = j + 1;
    }
    assert(poolers@.take(j as int) =~= poolers@);
    out
}

proof fn every_unit_is_tallied(units: Seq<UnitResume>)
    ensures
        tally(units, ResumeAction::Adopted) + tally(units, ResumeAction::Started) + tally(
            units,
            ResumeAction::WouldStart,
        ) + tally(units, ResumeAction::Skipped) + tally(units, ResumeAction::Missing) + tally(
            units,
            ResumeAction::Failed,
        ) == units.len(),
    decreases units.len(),
{
    if units.len() > 0 {
        every_unit_is_tallied(units.drop_last());
    }
}

/// The counts leave nothing out, on a dry run either: they add up to all that
/// was looked at, and the clusters that were left alone as a whole.
pub proof fn the_counts_add_up(r: ResumeReport, c: ResumeCounts)
    requires
        r.tallied(c),
    ensures
        c.adopted + c.started + c.would_start + c.skipped + c.missing + c.failed
            == r.units().len() + skipped_clusters(r.clusters@),
{
    every_unit_is_tallied(r.units());
}

// ---- what each decision rests on -------------------------------------

/// What is decided about a container: it is started exactly where its cluster
/// runs, nobody keeps it down, and podman has it and it is down.
pub proof fn what_is_decided_about_a_container(
    cluster: ClusterPhase,
    why: Seq<char>,
    instance: InstancePhase,
    running: Option<bool>,
    d: Decision,
)
    requires
        decides(cluster, why, instance, running, d),
    ensures
        ({
            let free = cluster == ClusterPhase::Running && instance != InstancePhase::Fenced
                && instance != InstancePhase::NeedsRebuild && instance != InstancePhase::Stopped
                && instance != InstancePhase::Terminated;
            &&& d is Start <==> free && running == Some(false)
            &&& d is Adopt <==> free && running == Some(true)
            &&& d is Missing <==> free && running is None
            &&& d is Skip <==> !free
        }),
        cluster != ClusterPhase::Running ==> (d matches Decision::Skip(said) && said@ == why),
{
}

/// What follows for a container, by what podman says of it: what cannot be
/// asked about failed, what podman does not have is missing, what runs is
/// adopted, and what is down is started, or would be.
pub proof fn what_follows_for_a_container(
    name: Seq<char>,
    container: Seq<char>,
    cluster: ClusterPhase,
    why: Seq<char>,
    phase: InstancePhase,
    probe: Result<Option<ContainerState>, String>,
    dry_run: bool,
    n: Next,
)
    requires
        resumes(name, container, cluster, why, phase, probe, dry_run, n),
    ensures
        ({
            let free = cluster == ClusterPhase::Running && !phase.blocked();
            &&& n matches Next::Done(u) ==> u.name@ == name
            &&& probe matches Err(e) ==> (n matches Next::Done(u) && u.action
                == ResumeAction::Failed && (u.detail matches Some(t) && occurs(t@, e@)))
            &&& probe is Ok && !free ==> (n matches Next::Done(u) && u.action
                == ResumeAction::Skipped)
            &&& probe is Ok && cluster != ClusterPhase::Running ==> (n matches Next::Done(u)
                && opt_text(u.detail) == Some(why))
            &&& free ==> (probe matches Ok(None) ==> (n matches Next::Done(u) && u.action
                == ResumeAction::Missing && (u.detail matches Some(t) && occurs(t@, container))))
            &&& free ==> (probe matches Ok(Some(p)) ==> {
                &&& p.running ==> (n matches Next::Done(u) && u.action == ResumeAction::Adopted)
                &&& !p.running && !dry_run ==> n is Start
                &&& !p.running && dry_run ==> (n matches Next::Done(u) && u.action
                    == ResumeAction::WouldStart)
            })
        }),
{
    if let Err(e) = probe {
        a_part_occurs("could not ask podman about it: "@, e@, Seq::empty());
        assert("could not ask podman about it: "@ + e@ =~= "could not ask podman about it: "@ + e@
            + Seq::<char>::empty());
    }
    a_part_occurs(
        "podman has no container "@,
        container,
        ". Its volume may still hold the data — `pgpod apply -f <manifest>` recreates the container around it."@,
    );
}

/// What is reported of a start: only one that succeeded is reported so, and
/// what went wrong is told, with the port where that was it.
pub proof fn what_is_reported_of_a_start(name: Seq<char>, s: Start, u: UnitResume)
    requires
        starts(name, s, u),
    ensures
        u.name@ == name,
        u.action == ResumeAction::Started <==> s is Started,
        u.action == ResumeAction::Failed <==> !(s is Started),
        s matches Start::Failed(e) ==> (u.detail matches Some(t) && occurs(t@, e@)),
        s matches Start::PortHeld { port, error } ==> (u.detail matches Some(t) && occurs(
            t@,
            "host port "@ + decimal(port as nat) + " is held by another process ("@ + error@,
        )),
        s is Started ==> u.detail is None,
{
    let none = Seq::<char>::empty();
    if let Start::Failed(e) = s {
        a_part_occurs("start failed: "@, e@, none);
        assert("start failed: "@ + e@ =~= "start failed: "@ + e@ + none);
    }
    if let Start::PortHeld { port, error } = s {
        let x = "host port "@ + decimal(port as nat) + " is held by another process ("@ + error@;
        let rest = "); the container was not started. Free the port and run `pgpod daemon --once`, or re-apply the manifest to move it."@;
        a_part_occurs(none, x, rest);
        assert(port_text(port, error@) =~= none + x + rest);
    }
}

/// A pooler that answers is reported as it was, and so is one that was not
/// started; one that was and does not answer failed, and why is told.
pub proof fn what_is_reported_of_a_pooler(
    u: UnitResume,
    refused: Option<Seq<char>>,
    r: UnitResume,
)
    requires
        comes_up(u, refused, r),
    ensures
        refused is None || u.action != ResumeAction::Started ==> r == u,
        refused matches Some(e) ==> u.action == ResumeAction::Started ==> r.action
            == ResumeAction::Failed && r.name@ == u.name@ && (r.detail matches Some(t) && occurs(
            t@,
            e,
        )),
{
    if let Some(e) = refused {
        a_part_occurs("started, but it did not come up: "@, e, RECREATE_POOLER@);
    }
}

/// A cluster that does not run is left alone and says why; that is logged,
/// gently where it was stopped on purpose, and not at all in a dry run.
pub proof fn what_is_said_of_a_cluster_left_alone(
    name: Seq<char>,
    phase: ClusterPhase,
    why: Seq<char>,
    dry_run: bool,
    r: Option<(ClusterResume, Option<Note>)>,
)
    requires
        gated(name, phase, why, dry_run, r),
    ensures
        r is None <==> phase == ClusterPhase::Running,
        r matches Some((c, n)) ==> {
            &&& c.cluster@ == name
            &&& c.phase@ == phase.word()
            &&& c.instances@.len() == 0
            &&& c.skipped matches Some(t) && t@ == why
            &&& dry_run ==> n is None
            &&& !dry_run ==> (n matches Some(note) && occurs(note.message@, why) && (phase
                == ClusterPhase::Stopped ==> note.level@ == "info"@) && (phase
                != ClusterPhase::Stopped ==> note.level@ == "warn"@))
        },
{
    a_part_occurs("boot recovery skipped this cluster: "@, why, Seq::empty());
    assert("boot recovery skipped this cluster: "@ + why =~= "boot recovery skipped this cluster: "@
        + why + Seq::<char>::empty());
}

/// A cluster whose name cannot be used is reported with nothing done about it
/// and with why.
pub proof fn what_is_said_of_an_unusable_cluster(
    name: Seq<char>,
    phase: ClusterPhase,
    error: Seq<char>,
    r: ClusterResume,
)
    requires
        unusable(name, phase, error, r),
    ensures
        r.cluster@ == name,
        r.phase@ == phase.word(),
        r.instances@.len() == 0,
        r.skipped matches Some(t) && occurs(t@, error),
{
    a_part_occurs("unusable cluster name in the registry: "@, error, Seq::empty());
    assert("unusable cluster name in the registry: "@ + error
        =~= "unusable cluster name in the registry: "@ + error + Seq::<char>::empty());
}

/// A cluster that was looked at is reported with all its instances, and logged
/// once, as a warning exactly where one of them is missing or failed.
pub proof fn what_is_said_of_a_cluster(
    name: Seq<char>,
    phase: ClusterPhase,
    instances: Seq<UnitResume>,
    dry_run: bool,
    r: ClusterResume,
    note: Option<Note>,
)
    requires
        concludes(name, phase, instances, dry_run, r, note),
    ensures
        r.cluster@ == name,
        r.phase@ == phase.word(),
        r.instances@ == instances,
        r.skipped is None,
        note is None <==> instances.len() == 0 || dry_run,
        note matches Some(n) ==> {
            &&& (exists|i: int|
                0 <= i < instances.len() && ((#[trigger] instances[i]).action
                    == ResumeAction::Missing || instances[i].action == ResumeAction::Failed))
                ==> n.level@ == "warn"@
            &&& (forall|i: int|
                0 <= i < instances.len() ==> (#[trigger] instances[i]).action
                    != ResumeAction::Missing && instances[i].action != ResumeAction::Failed)
                ==> n.level@ == "info"@
            &&& n.message@ == "boot recovery: "@ + summary(instances)
        },
{
    if exists|i: int|
        0 <= i < instances.len() && ((#[trigger] instances[i]).action == ResumeAction::Missing
            || instances[i].action == ResumeAction::Failed) {
        let i = choose|i: int|
            0 <= i < instances.len() && ((#[trigger] instances[i]).action == ResumeAction::Missing
                || instances[i].action == ResumeAction::Failed);
        assert(instances[i].action.alarming());
    }
}

/// One unit more counts once, for its own action and for no other.
pub proof fn one_unit_more(units: Seq<UnitResume>, u: UnitResume, a: ResumeAction)
    ensures
        tally(Seq::empty(), a) == 0,
        u.action == a ==> tally(units.push(u), a) == tally(units, a) + 1,
        u.action != a ==> tally(units.push(u), a) == tally(units, a),
{
    assert(units.push(u).drop_last() =~= units);
}

/// The sentence gives each count before its own word.
pub proof fn the_sentence_counts_each(units: Seq<UnitResume>)
    ensures
        summary(units) == decimal(tally(units, ResumeAction::Adopted)) + " adopted, "@ + decimal(
            tally(units, ResumeAction::Started),
        ) + " started, "@ + decimal(tally(units, ResumeAction::Skipped)) + " skipped, "@ + decimal(
            tally(units, ResumeAction::Missing),
        ) + " missing, "@ + decimal(tally(units, ResumeAction::Failed)) + " failed"@,
{
}

/// One cluster more in a report: its instances come behind the others', and it
/// counts as one skip exactly where it was left alone as a whole.
pub proof fn one_cluster_more(v: Seq<ClusterResume>, c: ClusterResume)
    ensures
        all_instances(Seq::empty()).len() == 0,
        all_instances(v.push(c)) == all_instances(v) + c.instances@,
        skipped_clusters(Seq::empty()) == 0,
        c.skipped is Some ==> skipped_clusters(v.push(c)) == skipped_clusters(v) + 1,
        c.skipped is None ==> skipped_clusters(v.push(c)) == skipped_clusters(v),
{
    assert(v.push(c).drop_last() =~= v);
}

/// The actions by their words, and those that somebody has to look at.
pub proof fn the_actions(a: ResumeAction)
    ensures
        a.alarming() <==> a == ResumeAction::Missing || a == ResumeAction::Failed,
        a == ResumeAction::Adopted ==> a.word() == "adopted"@,
        a == ResumeAction::Started ==> a.word() == "started"@,
        a == ResumeAction::WouldStart ==> a.word() == "would-start"@,
        a == ResumeAction::Skipped ==> a.word() == "skipped"@,
        a == ResumeAction::Missing ==> a.word() == "missing"@,
        a == ResumeAction::Failed ==> a.word() == "failed"@,
{
}

/// A daemon runs exactly where its lock is held; a lock that could be taken,
/// or no file at all, says that none does.
pub proof fn the_lock_says_who_runs(a: LockAttempt)
    ensures
        a is Held <==> state_by_lock(a) is Running,
        a is Taken <==> state_by_lock(a) is NotRunning,
        a is NoFile <==> state_by_lock(a) is NeverRan,
        a matches LockAttempt::Unreadable(e) ==> state_by_lock(a) == DaemonState::Unknown(e),
{
}

/// Every recorded port is listed, cluster by cluster.
pub proof fn every_port_is_listed(v: Seq<Vec<u16>>, ports: Vec<u16>)
    ensures
        flat(Seq::empty()).len() == 0,
        flat(v.push(ports)) == flat(v) + ports@,
{
    assert(v.push(ports).drop_last() =~= v);
}

/// Why a cluster or an instance is left alone: a running cluster is not, and
/// every other phase says what it is and what helps.
pub proof fn why_something_is_left_alone(c: ClusterPhase, i: InstancePhase, container: Seq<char>)
    ensures
        skip_text(c) is None <==> c == ClusterPhase::Running,
        c == ClusterPhase::Applying ==> skip_text(c) == Some(
            "an apply was interrupted — `pgpod apply -f <manifest>` finishes it"@,
        ),
        c == ClusterPhase::Upgrading ==> skip_text(c) == Some(
            "a major upgrade was interrupted — look at its events before starting anything"@,
        ),
        c == ClusterPhase::Stopped ==> skip_text(c) == Some(
            "deliberately stopped — `pgpod apply -f <manifest>` brings it back"@,
        ),
        c == ClusterPhase::Failed ==> skip_text(c) == Some(
            "the last apply failed — `pgpod apply -f <manifest>` tries again"@,
        ),
        c == ClusterPhase::Unknown ==> skip_text(c) == Some(
            "in a phase this version of pgpod does not know"@,
        ),
        i == InstancePhase::Fenced ==> blocked_text(i)
            == "fenced during a failover — only an explicit rejoin or rebuild clears this"@,
        i == InstancePhase::NeedsRebuild ==> blocked_text(i)
            == "pg_rewind failed; it needs `pgpod rebuild`"@,
        i == InstancePhase::Stopped ==> blocked_text(i)
            == "deliberately stopped — `pgpod apply -f <manifest>` brings it back"@,
        i == InstancePhase::Terminated ==> blocked_text(i) == "terminated"@,
        missing_text(container) == "podman has no container "@ + container
            + ". Its volume may still hold the data — `pgpod apply -f <manifest>` recreates the container around it."@,
{
}

/// Counts are counted unit by unit: one unit more is one more of its action,
/// and of no other.
pub proof fn counts_are_kept_apart(
    c: ResumeCounts,
    d: ResumeCounts,
    units: Seq<UnitResume>,
    u: UnitResume,
)
    requires
        c.counts_of(units),
        d.counts_of(units.push(u)),
    ensures
        d.adopted == c.adopted + if u.action == ResumeAction::Adopted { 1int } else { 0int },
        d.started == c.started + if u.action == ResumeAction::Started { 1int } else { 0int },
        d.would_start == c.would_start + if u.action == ResumeAction::WouldStart {
            1int
        } else {
            0int
        },
        d.skipped == c.skipped + if u.action == ResumeAction::Skipped { 1int } else { 0int },
        d.missing == c.missing + if u.action == ResumeAction::Missing { 1int } else { 0int },
        d.failed == c.failed + if u.action == ResumeAction::Failed { 1int } else { 0int },
{
    assert(units.push(u).drop_last() =~= units);
}

} // verus!
