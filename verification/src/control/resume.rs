//! Boot recovery from its first cluster to its last pooler.
//!
//! Clusters come before poolers, instances by their number. Nothing that goes
//! wrong with one of them keeps the next from its turn.

use crate::control::daemon::{
    by_ordinal, comes_up, concludes, gated, not_ready_note, pooler_outcome, resume_cluster,
    resume_container, resume_order, resumes, runs, says_not_ready, skip_cluster, started, starts,
    what_follows_for_a_container, what_is_reported_of_a_pooler, what_is_reported_of_a_start,
    unusable, unusable_cluster, ClusterResume, Next, Note, ResumeAction, ResumeReport, ResumeRow,
    Start, UnitResume,
};
use crate::control::model::{instance_name, instance_name_of, ClusterPhase, InstancePhase};
use crate::control::status::ContainerState;
use crate::text::{a_part_occurs, occurs, opt_text};
use vstd::prelude::*;
use vstd::string::*;

verus! {

/// A cluster, as the registry has it.
#[derive(Debug, Clone)]
pub struct ClusterRow {
    pub name: String,
    pub phase: ClusterPhase,
    /// What is wrong with a cluster in this phase.
    pub why: &'static str,
    /// Why its name cannot be used, if it cannot.
    pub unusable: Option<String>,
}

/// A pooler, as the registry has it.
#[derive(Debug, Clone)]
pub struct PoolerRow {
    pub name: String,
    pub container: String,
    pub phase: ClusterPhase,
    /// What is wrong with a pooler in this phase.
    pub why: &'static str,
    pub host_port: u16,
    /// Its name can be used, so that it can be asked whether it answers.
    pub usable: bool,
}

/// Where boot recovery stands.
#[derive(Debug, Clone, Copy, PartialEq, Eq, Structural)]
pub enum Stage {
    Start,
    /// Listing the clusters.
    Clusters,
    /// Listing a cluster's instances.
    Instances,
    Probing,
    Starting,
    Waiting,
    /// Logging that an instance is not ready.
    Noting,
    /// Logging what was done about a cluster.
    Concluding,
    /// Listing the poolers.
    Poolers,
    PoolerProbing,
    PoolerStarting,
    PoolerWaiting,
    Ended,
}

/// What came of the last action.
#[derive(Debug)]
pub enum Event {
    Begin,
    Done,
    Clusters(Vec<ClusterRow>),
    Instances(Vec<ResumeRow>),
    Poolers(Vec<PoolerRow>),
    /// What podman knows of a container, or why it could not be asked.
    Probed(Result<Option<ContainerState>, String>),
    Started(Start),
    /// Why what was started is not ready, if it is not.
    Waited(Option<String>),
    /// The registry could not be read.
    Failed(String),
}

/// What to do next.
#[derive(Debug, Clone)]
pub enum Act {
    /// The event does not belong to this stage.
    Ignore,
    ListClusters,
    ListInstances(String),
    Probe { container: String },
    /// See that the port is free, and start the container.
    Launch { container: String, port: u16 },
    WaitReady { cluster: String, ordinal: u32 },
    /// Log this.
    Log { cluster: String, note: Note },
    /// Done with a cluster: log this, if there is anything.
    Conclude { cluster: String, note: Option<Note> },
    ListPoolers,
    WaitPooler(String),
    Report(ResumeReport),
    Fail(String),
}

/// Boot recovery under way.
#[derive(Debug, Clone)]
pub struct Resume {
    pub dry_run: bool,
    pub clusters: Vec<ClusterRow>,
    /// The cluster at hand.
    pub cluster: usize,
    /// Its instances, in the order of their numbers.
    pub rows: Vec<ResumeRow>,
    /// The instance at hand.
    pub row: usize,
    /// What was done about the instances so far.
    pub units: Vec<UnitResume>,
    /// What was done about the clusters so far.
    pub done: Vec<ClusterResume>,
    pub poolers: Vec<PoolerRow>,
    /// The pooler at hand.
    pub pooler: usize,
    /// What was done about the poolers so far.
    pub pooled: Vec<UnitResume>,
    pub stage: Stage,
}

/// [`Resume`], over sequences.
pub struct ResumeView {
    pub dry_run: bool,
    pub clusters: Seq<ClusterRow>,
    pub cluster: int,
    pub rows: Seq<ResumeRow>,
    pub row: int,
    pub units: Seq<UnitResume>,
    pub done: Seq<ClusterResume>,
    pub poolers: Seq<PoolerRow>,
    pub pooler: int,
    pub pooled: Seq<UnitResume>,
    pub stage: Stage,
}

impl View for Resume {
    type V = ResumeView;

    open spec fn view(&self) -> ResumeView {
        ResumeView {
            dry_run: self.dry_run,
            clusters: self.clusters@,
            cluster: self.cluster as int,
            rows: self.rows@,
            row: self.row as int,
            units: self.units@,
            done: self.done@,
            poolers: self.poolers@,
            pooler: self.pooler as int,
            pooled: self.pooled@,
            stage: self.stage,
        }
    }
}

pub open spec fn at(v: ResumeView, stage: Stage) -> ResumeView {
    ResumeView { stage, ..v }
}

// ---- what comes next -------------------------------------------------

/// The next pooler's turn, or the report where there is none.
pub open spec fn next_pooler(v: ResumeView, b: ResumeView, act: Act) -> bool {
    if v.pooler < v.poolers.len() {
        &&& b == at(v, Stage::PoolerProbing)
        &&& act matches Act::Probe { container } && container@ == v.poolers[v.pooler].container@
    } else {
        &&& b == (ResumeView {
            stage: Stage::Ended,
            done: Seq::empty(),
            pooled: Seq::empty(),
            ..v
        })
        &&& act matches Act::Report(r) && {
            &&& r.clusters@ == v.done
            &&& r.poolers@ == v.pooled
            &&& r.dry_run == v.dry_run
        }
    }
}

/// The next cluster's turn, or the poolers' where there is none. One whose
/// name cannot be used is reported, and one that is not running left alone.
pub open spec fn next_cluster(v: ResumeView, b: ResumeView, act: Act) -> bool {
    if v.cluster < v.clusters.len() {
        let c = v.clusters[v.cluster];
        if c.unusable is None && c.phase == ClusterPhase::Running {
            &&& b == at(v, Stage::Instances)
            &&& act matches Act::ListInstances(name) && name@ == c.name@
        } else {
            &&& b.done.len() > 0
            &&& b == (ResumeView {
                stage: Stage::Concluding,
                done: v.done.push(b.done.last()),
                ..v
            })
            &&& act matches Act::Conclude { cluster, note } && cluster@ == c.name@
                && match c.unusable {
                Some(e) => note is None && unusable(c.name@, c.phase, e@, b.done.last()),
                None => gated(c.name@, c.phase, c.why@, v.dry_run, Some((b.done.last(), note))),
            }
        }
    } else {
        b == at(v, Stage::Poolers) && act is ListPoolers
    }
}

/// The next instance's turn, or the end of its cluster where there is none.
pub open spec fn next_row(v: ResumeView, b: ResumeView, act: Act) -> bool {
    let c = v.clusters[v.cluster];
    if v.row < v.rows.len() {
        &&& b == at(v, Stage::Probing)
        &&& act matches Act::Probe { container } && container@ == v.rows[v.row].container@
    } else {
        &&& b.done.len() > 0
        &&& b == (ResumeView {
            stage: Stage::Concluding,
            done: v.done.push(b.done.last()),
            units: Seq::empty(),
            ..v
        })
        &&& act matches Act::Conclude { cluster, note } && cluster@ == c.name@ && concludes(
            c.name@,
            c.phase,
            v.units,
            v.dry_run,
            b.done.last(),
            note,
        )
    }
}

/// The name of the instance at hand.
pub open spec fn at_hand(v: ResumeView) -> Seq<char> {
    instance_name(v.clusters[v.cluster].name@, v.rows[v.row].ordinal)
}

/// One more instance was dealt with.
pub open spec fn with_unit(v: ResumeView, u: UnitResume) -> ResumeView {
    ResumeView { units: v.units.push(u), row: v.row + 1, ..v }
}

/// One more pooler was dealt with.
pub open spec fn with_pooler(v: ResumeView, u: UnitResume) -> ResumeView {
    ResumeView { pooled: v.pooled.push(u), pooler: v.pooler + 1, ..v }
}

/// What follows where podman was asked about an instance.
pub open spec fn after_probe(a: ResumeView, n: Next, b: ResumeView, act: Act) -> bool {
    match n {
        Next::Done(u) => next_row(with_unit(a, u), b, act),
        Next::Start => {
            &&& b == at(a, Stage::Starting)
            &&& act matches Act::Launch { container, port } && container@
                == a.rows[a.row].container@ && port == a.rows[a.row].host_port
        },
    }
}

/// What follows the start of an instance: one that runs is waited for.
pub open spec fn after_start(a: ResumeView, u: UnitResume, b: ResumeView, act: Act) -> bool {
    if u.action == ResumeAction::Started {
        &&& b == (ResumeView { stage: Stage::Waiting, units: a.units.push(u), ..a })
        &&& act matches Act::WaitReady { cluster, ordinal } && cluster@
            == a.clusters[a.cluster].name@ && ordinal == a.rows[a.row].ordinal
    } else {
        next_row(with_unit(a, u), b, act)
    }
}

/// What follows where podman was asked about a pooler.
pub open spec fn after_pooler_probe(a: ResumeView, n: Next, b: ResumeView, act: Act) -> bool {
    match n {
        Next::Done(u) => next_pooler(with_pooler(a, u), b, act),
        Next::Start => {
            &&& b == at(a, Stage::PoolerStarting)
            &&& act matches Act::Launch { container, port } && container@
                == a.poolers[a.pooler].container@ && port == a.poolers[a.pooler].host_port
        },
    }
}

/// What follows the start of a pooler: one that runs is asked whether it
/// answers.
pub open spec fn after_pooler_start(a: ResumeView, u: UnitResume, b: ResumeView, act: Act) -> bool {
    if u.action == ResumeAction::Started && a.poolers[a.pooler].usable {
        &&& b == (ResumeView { stage: Stage::PoolerWaiting, pooled: a.pooled.push(u), ..a })
        &&& act matches Act::WaitPooler(name) && name@ == a.poolers[a.pooler].name@
    } else {
        next_pooler(with_pooler(a, u), b, act)
    }
}

/// What follows an event. Only a registry that cannot be read ends it early:
/// whatever comes of one container, the next has its turn.
pub open spec fn follows(a: ResumeView, ev: Event, b: ResumeView, act: Act) -> bool {
    let c = a.clusters[a.cluster];
    let row = a.rows[a.row];
    let pooler = a.poolers[a.pooler];
    match (a.stage, ev) {
        (Stage::Start, Event::Begin) => b == at(a, Stage::Clusters) && act is ListClusters,
        (Stage::Clusters, Event::Clusters(rows)) => next_cluster(
            ResumeView { clusters: rows@, cluster: 0, done: Seq::empty(), ..a },
            b,
            act,
        ),
        (Stage::Concluding, Event::Done) => next_cluster(
            ResumeView { cluster: a.cluster + 1, ..a },
            b,
            act,
        ),
        (Stage::Instances, Event::Instances(rows)) => next_row(
            ResumeView { rows: by_ordinal(rows@), row: 0, units: Seq::empty(), ..a },
            b,
            act,
        ),
        (Stage::Probing, Event::Probed(probe)) => exists|n: Next| #[trigger]
            resumes(
                at_hand(a),
                row.container@,
                c.phase,
                c.why@,
                row.phase,
                probe,
                a.dry_run,
                n,
            ) && after_probe(a, n, b, act),
        (Stage::Starting, Event::Started(s)) => exists|u: UnitResume| #[trigger]
            starts(at_hand(a), s, u) && after_start(a, u, b, act),
        (Stage::Waiting, Event::Waited(None)) => next_row(
            ResumeView { row: a.row + 1, ..a },
            b,
            act,
        ),
        (Stage::Waiting, Event::Waited(Some(e))) => {
            &&& b == at(a, Stage::Noting)
            &&& act matches Act::Log { cluster, note } && cluster@ == c.name@ && says_not_ready(
                at_hand(a),
                e@,
                note,
            )
        },
        (Stage::Noting, Event::Done) => next_row(ResumeView { row: a.row + 1, ..a }, b, act),
        (Stage::Poolers, Event::Poolers(rows)) => next_pooler(
            ResumeView { poolers: rows@, pooler: 0, pooled: Seq::empty(), ..a },
            b,
            act,
        ),
        (Stage::PoolerProbing, Event::Probed(probe)) => exists|n: Next| #[trigger]
            resumes(
                pooler.name@,
                pooler.container@,
                pooler.phase,
                pooler.why@,
                InstancePhase::Running,
                probe,
                a.dry_run,
                n,
            ) && after_pooler_probe(a, n, b, act),
        (Stage::PoolerStarting, Event::Started(s)) => exists|u: UnitResume| #[trigger]
            starts(pooler.name@, s, u) && after_pooler_start(a, u, b, act),
        (Stage::PoolerWaiting, Event::Waited(refused)) => exists|u: UnitResume| #[trigger]
            comes_up(a.pooled.last(), opt_text(refused), u) && next_pooler(
                with_pooler(ResumeView { pooled: a.pooled.drop_last(), ..a }, u),
                b,
                act,
            ),
        (Stage::Clusters, Event::Failed(e)) => ends(a, e, b, act),
        (Stage::Instances, Event::Failed(e)) => ends(a, e, b, act),
        (Stage::Poolers, Event::Failed(e)) => ends(a, e, b, act),
        _ => b == a && act is Ignore,
    }
}

/// Boot recovery ends with an error.
pub open spec fn ends(a: ResumeView, e: String, b: ResumeView, act: Act) -> bool {
    b == at(a, Stage::Ended) && (act matches Act::Fail(m) && m@ == e@)
}

// ---- what holds on the way -------------------------------------------

/// What was done about clusters is told in their order.
pub open spec fn done_in_order(v: ResumeView) -> bool {
    v.done.len() <= v.clusters.len() && forall|i: int|
        0 <= i < v.done.len() ==> (#[trigger] v.done[i]).cluster@ == v.clusters[i].name@
}

/// What was done about instances is told in their order.
pub open spec fn units_in_order(v: ResumeView) -> bool {
    v.units.len() <= v.rows.len() && forall|i: int|
        0 <= i < v.units.len() ==> (#[trigger] v.units[i]).name@ == instance_name(
            v.clusters[v.cluster].name@,
            v.rows[i].ordinal,
        )
}

/// What was done about poolers is told in their order.
pub open spec fn pooled_in_order(v: ResumeView) -> bool {
    v.pooled.len() <= v.poolers.len() && forall|i: int|
        0 <= i < v.pooled.len() ==> (#[trigger] v.pooled[i]).name@ == v.poolers[i].name@
}

/// The cluster at hand is one, and runs; those before it are done.
pub open spec fn in_cluster(v: ResumeView) -> bool {
    &&& 0 <= v.cluster < v.clusters.len()
    &&& v.clusters[v.cluster].unusable is None
    &&& v.clusters[v.cluster].phase == ClusterPhase::Running
    &&& v.done.len() == v.cluster
    &&& done_in_order(v)
}

/// Every cluster is done.
pub open spec fn clusters_done(v: ResumeView) -> bool {
    v.done.len() == v.clusters.len() && done_in_order(v)
}

/// What is at hand is there, and all before it is done.
pub open spec fn in_line(v: ResumeView) -> bool {
    match v.stage {
        Stage::Start | Stage::Clusters | Stage::Ended => true,
        Stage::Concluding => 0 <= v.cluster < v.clusters.len() && v.done.len() == v.cluster + 1
            && done_in_order(v),
        Stage::Instances => in_cluster(v),
        Stage::Probing | Stage::Starting => in_cluster(v) && 0 <= v.row < v.rows.len()
            && v.units.len() == v.row && units_in_order(v),
        Stage::Waiting | Stage::Noting => in_cluster(v) && 0 <= v.row < v.rows.len()
            && v.units.len() == v.row + 1 && units_in_order(v),
        Stage::Poolers => clusters_done(v),
        Stage::PoolerProbing | Stage::PoolerStarting => clusters_done(v) && 0 <= v.pooler
            < v.poolers.len() && v.pooled.len() == v.pooler && pooled_in_order(v),
        Stage::PoolerWaiting => clusters_done(v) && 0 <= v.pooler < v.poolers.len()
            && v.pooled.len() == v.pooler + 1 && pooled_in_order(v) && v.pooled.last().action
            == ResumeAction::Started,
    }
}

impl Resume {
    /// What is at hand is there, and all before it is done.
    pub open spec fn wf(&self) -> bool {
        in_line(self@)
    }

    /// A boot recovery that has not begun.
    pub fn new(dry_run: bool) -> (r: Self)
        ensures
            r.wf(),
            r@ == (ResumeView {
                dry_run,
                clusters: Seq::empty(),
                cluster: 0,
                rows: Seq::empty(),
                row: 0,
                units: Seq::empty(),
                done: Seq::empty(),
                poolers: Seq::empty(),
                pooler: 0,
                pooled: Seq::empty(),
                stage: Stage::Start,
            }),
    {
        Resume {
            dry_run,
            clusters: Vec::new(),
            cluster: 0,
            rows: Vec::new(),
            row: 0,
            units: Vec::new(),
            done: Vec::new(),
            poolers: Vec::new(),
            pooler: 0,
            pooled: Vec::new(),
            stage: Stage::Start,
        }
    }

    fn to_pooler(&mut self) -> (act: Act)
        requires
            clusters_done(old(self)@),
            old(self).pooler <= old(self).poolers.len(),
            old(self).pooled.len() == old(self).pooler,
            pooled_in_order(old(self)@),
        ensures
            final(self).wf(),
            next_pooler(old(self)@, final(self)@, act),
    {
        if self.pooler < self.poolers.len() {
            self.stage = Stage::PoolerProbing;
            Act::Probe { container: self.poolers[self.pooler].container.clone() }
        } else {
            self.stage = Stage::Ended;
            let mut clusters: Vec<ClusterResume> = Vec::new();
            clusters.append(&mut self.done);
            let mut poolers: Vec<UnitResume> = Vec::new();
            poolers.append(&mut self.pooled);
            Act::Report(ResumeReport { clusters, poolers, dry_run: self.dry_run })
        }
    }

    fn conclude(&mut self, c: ClusterResume, note: Option<Note>) -> (act: Act)
        requires
            old(self).cluster < old(self).clusters.len(),
            old(self).done.len() == old(self).cluster,
            done_in_order(old(self)@),
            c.cluster@ == old(self)@.clusters[old(self)@.cluster].name@,
        ensures
            final(self).wf(),
            final(self)@ == (ResumeView {
                stage: Stage::Concluding,
                done: old(self)@.done.push(c),
                ..old(self)@
            }),
            act matches Act::Conclude { cluster, note: n } && cluster@ == c.cluster@ && n == note,
    {
        let cluster = self.clusters[self.cluster].name.clone();
        self.done.push(c);
        self.stage = Stage::Concluding;
        Act::Conclude { cluster, note }
    }

    fn to_cluster(&mut self) -> (act: Act)
        requires
            old(self).cluster <= old(self).clusters.len(),
            old(self).done.len() == old(self).cluster,
            done_in_order(old(self)@),
        ensures
            final(self).wf(),
            next_cluster(old(self)@, final(self)@, act),
    {
        if self.cluster == self.clusters.len() {
            self.stage = Stage::Poolers;
            return Act::ListPoolers;
        }
        let c = &self.clusters[self.cluster];
        let left = match &c.unusable {
            Some(e) => Some((unusable_cluster(c.name.as_str(), c.phase, e.as_str()), None)),
            None => skip_cluster(c.name.as_str(), c.phase, c.why, self.dry_run),
        };
        match left {
            Some((done, note)) => self.conclude(done, note),
            None => {
                let name = c.name.clone();
                self.stage = Stage::Instances;
                Act::ListInstances(name)
            },
        }
    }

    fn to_row(&mut self) -> (act: Act)
        requires
            in_cluster(old(self)@),
            old(self).row <= old(self).rows.len(),
            old(self).units.len() == old(self).row,
            units_in_order(old(self)@),
        ensures
            final(self).wf(),
            next_row(old(self)@, final(self)@, act),
    {
        if self.row < self.rows.len() {
            self.stage = Stage::Probing;
            return Act::Probe { container: self.rows[self.row].container.clone() };
        }
        let mut units: Vec<UnitResume> = Vec::new();
        units.append(&mut self.units);
        let c = &self.clusters[self.cluster];
        let (done, note) = resume_cluster(c.name.as_str(), c.phase, units, self.dry_run);
        self.conclude(done, note)
    }

    fn put_unit(&mut self, u: UnitResume) -> (act: Act)
        requires
            in_cluster(old(self)@),
            old(self).row < old(self).rows.len(),
            old(self).units.len() == old(self).row,
            units_in_order(old(self)@),
            u.name@ == at_hand(old(self)@),
        ensures
            final(self).wf(),
            next_row(with_unit(old(self)@, u), final(self)@, act),
    {
        self.units.push(u);
        self.row = self.row + 1;
        self.to_row()
    }

    fn put_pooler(&mut self, u: UnitResume) -> (act: Act)
        requires
            clusters_done(old(self)@),
            old(self).pooler < old(self).poolers.len(),
            old(self).pooled.len() == old(self).pooler,
            pooled_in_order(old(self)@),
            u.name@ == old(self)@.poolers[old(self)@.pooler].name@,
        ensures
            final(self).wf(),
            next_pooler(with_pooler(old(self)@, u), final(self)@, act),
    {
        self.pooled.push(u);
        self.pooler = self.pooler + 1;
        self.to_pooler()
    }

    fn hand(&self) -> (r: String)
        requires
            self.cluster < self.clusters.len(),
            self.row < self.rows.len(),
        ensures
            r@ == at_hand(self@),
    {
        instance_name_of(self.clusters[self.cluster].name.as_str(), self.rows[self.row].ordinal)
    }

    fn probed(&mut self, probe: &Result<Option<ContainerState>, String>) -> (act: Act)
        requires
            old(self).wf(),
            old(self).stage == Stage::Probing,
        ensures
            final(self).wf(),
            follows(old(self)@, Event::Probed(*probe), final(self)@, act),
    {
        let name = self.hand();
        let c = &self.clusters[self.cluster];
        let row = &self.rows[self.row];
        let n = resume_container(
            name.as_str(),
            row.container.as_str(),
            c.phase,
            c.why,
            row.phase,
            probe,
            self.dry_run,
        );
        match n {
            Next::Done(u) => self.put_unit(u),
            Next::Start => {
                let act = Act::Launch { container: row.container.clone(), port: row.host_port };
                self.stage = Stage::Starting;
                act
            },
        }
    }

    fn launched(&mut self, s: &Start) -> (act: Act)
        requires
            old(self).wf(),
            old(self).stage == Stage::Starting,
        ensures
            final(self).wf(),
            follows(old(self)@, Event::Started(*s), final(self)@, act),
    {
        let name = self.hand();
        let u = started(name.as_str(), s);
        if u.action == ResumeAction::Started {
            let act = Act::WaitReady {
                cluster: self.clusters[self.cluster].name.clone(),
                ordinal: self.rows[self.row].ordinal,
            };
            self.units.push(u);
            self.stage = Stage::Waiting;
            act
        } else {
            self.put_unit(u)
        }
    }

    fn pooler_probed(&mut self, probe: &Result<Option<ContainerState>, String>) -> (act: Act)
        requires
            old(self).wf(),
            old(self).stage == Stage::PoolerProbing,
        ensures
            final(self).wf(),
            follows(old(self)@, Event::Probed(*probe), final(self)@, act),
    {
        let p = &self.poolers[self.pooler];
        let n = resume_container(
            p.name.as_str(),
            p.container.as_str(),
            p.phase,
            p.why,
            InstancePhase::Running,
            probe,
            self.dry_run,
        );
        match n {
            Next::Done(u) => self.put_pooler(u),
            Next::Start => {
                let act = Act::Launch { container: p.container.clone(), port: p.host_port };
                self.stage = Stage::PoolerStarting;
                act
            },
        }
    }

    fn pooler_launched(&mut self, s: &Start) -> (act: Act)
        requires
            old(self).wf(),
            old(self).stage == Stage::PoolerStarting,
        ensures
            final(self).wf(),
            follows(old(self)@, Event::Started(*s), final(self)@, act),
    {
        let p = &self.poolers[self.pooler];
        let u = started(p.name.as_str(), s);
        if u.action == ResumeAction::Started && p.usable {
            let act = Act::WaitPooler(p.name.clone());
            self.pooled.push(u);
            self.stage = Stage::PoolerWaiting;
            act
        } else {
            self.put_pooler(u)
        }
    }

    fn pooler_waited(&mut self, refused: &Option<String>) -> (act: Act)
        requires
            old(self).wf(),
            old(self).stage == Stage::PoolerWaiting,
        ensures
            final(self).wf(),
            follows(old(self)@, Event::Waited(*refused), final(self)@, act),
    {
        match self.pooled.pop() {
            Some(u) => {
                let said = match refused {
                    Some(e) => Some(e.as_str()),
                    None => None,
                };
                let out = pooler_outcome(u, said);
                self.put_pooler(out)
            },
            None => Act::Ignore,
        }
    }

    fn fail(&mut self, e: String) -> (act: Act)
        ensures
            final(self).wf(),
            ends(old(self)@, e, final(self)@, act),
    {
        self.stage = Stage::Ended;
        Act::Fail(e)
    }

    /// Takes in what came of the last action, and says what to do next.
    pub fn step(&mut self, ev: Event) -> (act: Act)
        requires
            old(self).wf(),
        ensures
            final(self).wf(),
            follows(old(self)@, ev, final(self)@, act),
    {
        match (self.stage, ev) {
            (Stage::Start, Event::Begin) => {
                self.stage = Stage::Clusters;
                Act::ListClusters
            },
            (Stage::Clusters, Event::Clusters(rows)) => {
                self.clusters = rows;
                self.cluster = 0;
                self.done = Vec::new();
                self.to_cluster()
            },
            (Stage::Concluding, Event::Done) => {
                assert(self.cluster < self.clusters.len());
                self.cluster = self.cluster + 1;
                self.to_cluster()
            },
            (Stage::Instances, Event::Instances(rows)) => {
                self.rows = resume_order(rows);
                self.row = 0;
                self.units = Vec::new();
                self.to_row()
            },
            (Stage::Probing, Event::Probed(probe)) => self.probed(&probe),
            (Stage::Starting, Event::Started(s)) => self.launched(&s),
            (Stage::Waiting, Event::Waited(None)) => {
                assert(self.row < self.rows.len());
                self.row = self.row + 1;
                self.to_row()
            },
            (Stage::Waiting, Event::Waited(Some(e))) => {
                let note = not_ready_note(self.hand().as_str(), e.as_str());
                self.stage = Stage::Noting;
                Act::Log { cluster: self.clusters[self.cluster].name.clone(), note }
            },
            (Stage::Noting, Event::Done) => {
                assert(self.row < self.rows.len());
                self.row = self.row + 1;
                self.to_row()
            },
            (Stage::Poolers, Event::Poolers(rows)) => {
                self.poolers = rows;
                self.pooler = 0;
                self.pooled = Vec::new();
                self.to_pooler()
            },
            (Stage::PoolerProbing, Event::Probed(probe)) => self.pooler_probed(&probe),
            (Stage::PoolerStarting, Event::Started(s)) => self.pooler_launched(&s),
            (Stage::PoolerWaiting, Event::Waited(refused)) => self.pooler_waited(&refused),
            (Stage::Clusters, Event::Failed(e)) => self.fail(e),
            (Stage::Instances, Event::Failed(e)) => self.fail(e),
            (Stage::Poolers, Event::Failed(e)) => self.fail(e),
            _ => Act::Ignore,
        }
    }
}

// ---- what holds of every boot recovery -------------------------------

/// A boot recovery from its start: each step follows from the one before.
pub open spec fn is_run(states: Seq<ResumeView>, evs: Seq<Event>, acts: Seq<Act>) -> bool {
    &&& states.len() == evs.len() + 1
    &&& acts.len() == evs.len()
    &&& states[0].stage == Stage::Start
    &&& forall|i: int|
        0 <= i < evs.len() ==> follows(#[trigger] states[i], evs[i], states[i + 1], acts[i])
}

/// How far along a stage is.
pub open spec fn rank(stage: Stage) -> int {
    match stage {
        Stage::Start => 0,
        Stage::Clusters => 1,
        Stage::Instances
        | Stage::Probing
        | Stage::Starting
        | Stage::Waiting
        | Stage::Noting
        | Stage::Concluding => 2,
        Stage::Poolers => 3,
        Stage::PoolerProbing | Stage::PoolerStarting | Stage::PoolerWaiting => 4,
        Stage::Ended => 5,
    }
}

/// Nothing was started.
pub open spec fn untouched(v: ResumeView) -> bool {
    match v.stage {
        Stage::Starting
        | Stage::Waiting
        | Stage::Noting
        | Stage::PoolerStarting
        | Stage::PoolerWaiting => false,
        _ => true,
    }
}

/// An action starts nothing, waits for nothing and logs nothing.
pub open spec fn looks_only(act: Act) -> bool {
    match act {
        Act::Launch { .. } | Act::WaitReady { .. } | Act::WaitPooler(_) | Act::Log { .. } => false,
        Act::Conclude { note, .. } => note is None,
        _ => true,
    }
}

/// A report tells of these clusters, in this order.
pub open spec fn tells_clusters(r: ResumeReport, rows: Seq<ClusterRow>) -> bool {
    r.clusters@.len() == rows.len() && forall|i: int|
        0 <= i < rows.len() ==> (#[trigger] r.clusters@[i]).cluster@ == rows[i].name@
}

/// A report tells of these poolers, in this order.
pub open spec fn tells_poolers(r: ResumeReport, rows: Seq<PoolerRow>) -> bool {
    r.poolers@.len() == rows.len() && forall|i: int|
        0 <= i < rows.len() ==> (#[trigger] r.poolers@[i]).name@ == rows[i].name@
}

#[verifier::spinoff_prover]
proof fn one_step(a: ResumeView, ev: Event, b: ResumeView, act: Act)
    requires
        in_line(a),
        follows(a, ev, b, act),
    ensures
        in_line(b),
        b.dry_run == a.dry_run,
        rank(a.stage) <= rank(b.stage),
        rank(a.stage) >= 2 ==> b.clusters == a.clusters,
        rank(a.stage) >= 4 ==> b.poolers == a.poolers,
        a.dry_run && untouched(a) ==> untouched(b) && looks_only(act),
        act is Report ==> tells_clusters(act->Report_0, b.clusters) && tells_poolers(
            act->Report_0,
            b.poolers,
        ) && act->Report_0.dry_run == b.dry_run && 3 <= rank(a.stage) <= 4,
        act is ListPoolers ==> b.stage == Stage::Poolers && rank(a.stage) < 3,
        act is ListClusters || act is ListInstances || act is WaitReady || act is Conclude
            ==> rank(b.stage) <= 2,
{
}

#[verifier::spinoff_prover]
proof fn along_the_way(states: Seq<ResumeView>, evs: Seq<Event>, acts: Seq<Act>, i: int, j: int)
    requires
        is_run(states, evs, acts),
        0 <= i <= j <= evs.len(),
    ensures
        in_line(states[i]),
        in_line(states[j]),
        states[j].dry_run == states[i].dry_run,
        rank(states[i].stage) <= rank(states[j].stage),
        rank(states[i].stage) >= 2 ==> states[j].clusters == states[i].clusters,
        rank(states[i].stage) >= 4 ==> states[j].poolers == states[i].poolers,
        states[i].dry_run && untouched(states[i]) ==> untouched(states[j]),
    decreases i + j,
{
    if i < j {
        along_the_way(states, evs, acts, i, j - 1);
        assert(follows(states[j - 1], evs[j - 1], states[j - 1 + 1], acts[j - 1]));
        one_step(states[j - 1], evs[j - 1], states[j], acts[j - 1]);
    } else if i > 0 {
        along_the_way(states, evs, acts, i - 1, i - 1);
        assert(follows(states[i - 1], evs[i - 1], states[i - 1 + 1], acts[i - 1]));
        one_step(states[i - 1], evs[i - 1], states[i], acts[i - 1]);
    }
}

/// An instance that is not ready keeps no other down: once that is logged,
/// what follows is what would have followed had it been ready.
pub proof fn a_slow_instance_holds_up_no_other(
    a: ResumeView,
    why: String,
    b: ResumeView,
    warning: Act,
    c: ResumeView,
    act: Act,
)
    requires
        a.stage == Stage::Waiting,
        follows(a, Event::Waited(Some(why)), b, warning),
        follows(b, Event::Done, c, act),
    ensures
        warning matches Act::Log { note, .. } && says_not_ready(at_hand(a), why@, note),
        c.units.len() == 0 || c.units == a.units,
        follows(a, Event::Waited(None), c, act),
{
}

/// A container that cannot be asked about, or will not start, keeps no other
/// down: only a registry that cannot be read ends boot recovery with an error,
/// and the error is the registry's.
pub proof fn only_the_registry_ends_it(a: ResumeView, ev: Event, b: ResumeView, act: Act)
    requires
        follows(a, ev, b, act),
    ensures
        act is Fail ==> (a.stage == Stage::Clusters || a.stage == Stage::Instances || a.stage
            == Stage::Poolers) && (ev matches Event::Failed(e) && act->Fail_0@ == e@),
        a.stage != Stage::Ended && b.stage == Stage::Ended ==> act is Report || act is Fail,
{
}

/// Only what was running is started: an instance of a running cluster that is
/// itself in no phase that forbids it, or a running pooler, and only where
/// podman says that its container is down.
pub proof fn only_what_was_running_is_started(a: ResumeView, ev: Event, b: ResumeView, act: Act)
    requires
        in_line(a),
        follows(a, ev, b, act),
        act is Launch,
    ensures
        !a.dry_run,
        ev matches Event::Probed(Ok(p)) && runs(p) == Some(false),
        a.stage == Stage::Probing || a.stage == Stage::PoolerProbing,
        a.stage == Stage::Probing ==> a.clusters[a.cluster].phase == ClusterPhase::Running
            && a.clusters[a.cluster].unusable is None && !a.rows[a.row].phase.blocked(),
        a.stage == Stage::PoolerProbing ==> a.poolers[a.pooler].phase == ClusterPhase::Running,
{
}

/// A pooler that was started and does not answer is reported as failed.
pub proof fn a_pooler_that_does_not_answer_failed(
    a: ResumeView,
    why: String,
    b: ResumeView,
    act: Act,
)
    requires
        in_line(a),
        a.stage == Stage::PoolerWaiting,
        follows(a, Event::Waited(Some(why)), b, act),
    ensures
        b.stage == Stage::PoolerProbing || b.stage == Stage::Ended,
        b.stage == Stage::PoolerProbing ==> b.pooled.len() == a.pooled.len() && b.pooled.last().action
            == ResumeAction::Failed && b.pooled.last().name@ == a.pooled.last().name@,
        b.stage == Stage::Ended ==> (act matches Act::Report(r) && r.poolers@.len()
            == a.pooled.len() && r.poolers@.last().action == ResumeAction::Failed
            && r.poolers@.last().name@ == a.pooled.last().name@),
{
}

/// The poolers follow the last cluster: by the time they are listed every
/// cluster has been dealt with, and no cluster is touched from there on.
pub proof fn poolers_follow_the_last_cluster(
    states: Seq<ResumeView>,
    evs: Seq<Event>,
    acts: Seq<Act>,
    listed: int,
    later: int,
)
    requires
        is_run(states, evs, acts),
        0 <= listed < later < evs.len(),
        acts[listed] is ListPoolers,
    ensures
        clusters_done(states[listed + 1]),
        !(acts[later] is ListClusters || acts[later] is ListInstances || acts[later] is WaitReady
            || acts[later] is Conclude),
        acts[later] is Launch ==> states[later].stage == Stage::PoolerProbing,
{
    along_the_way(states, evs, acts, 0, listed);
    along_the_way(states, evs, acts, listed + 1, later);
    assert(follows(states[listed], evs[listed], states[listed + 1], acts[listed]));
    one_step(states[listed], evs[listed], states[listed + 1], acts[listed]);
    assert(follows(states[later], evs[later], states[later + 1], acts[later]));
    one_step(states[later], evs[later], states[later + 1], acts[later]);
    if acts[later] is Launch {
        only_what_was_running_is_started(
            states[later],
            evs[later],
            states[later + 1],
            acts[later],
        );
    }
}

/// The report tells of every cluster and every pooler that the registry has,
/// each once and in the registry's order, whatever came of them.
pub proof fn a_report_leaves_nothing_out(
    states: Seq<ResumeView>,
    evs: Seq<Event>,
    acts: Seq<Act>,
    c: int,
    clusters: Vec<ClusterRow>,
    p: int,
    poolers: Vec<PoolerRow>,
    n: int,
    r: ResumeReport,
)
    requires
        is_run(states, evs, acts),
        0 <= c < p <= n < evs.len(),
        states[c].stage == Stage::Clusters,
        evs[c] == Event::Clusters(clusters),
        states[p].stage == Stage::Poolers,
        evs[p] == Event::Poolers(poolers),
        acts[n] == Act::Report(r),
    ensures
        tells_clusters(r, clusters@),
        tells_poolers(r, poolers@),
        r.dry_run == states[0].dry_run,
{
    along_the_way(states, evs, acts, 0, c);
    assert(follows(states[c], evs[c], states[c + 1], acts[c]));
    one_step(states[c], evs[c], states[c + 1], acts[c]);
    along_the_way(states, evs, acts, c + 1, n + 1);
    along_the_way(states, evs, acts, 0, p);
    assert(follows(states[p], evs[p], states[p + 1], acts[p]));
    one_step(states[p], evs[p], states[p + 1], acts[p]);
    along_the_way(states, evs, acts, p + 1, n + 1);
    along_the_way(states, evs, acts, 0, n);
    assert(follows(states[n], evs[n], states[n + 1], acts[n]));
    one_step(states[n], evs[n], states[n + 1], acts[n]);
}

/// A dry run starts nothing, waits for nothing and logs nothing.
pub proof fn a_dry_run_looks_only(
    states: Seq<ResumeView>,
    evs: Seq<Event>,
    acts: Seq<Act>,
    n: int,
)
    requires
        is_run(states, evs, acts),
        0 <= n < evs.len(),
        states[0].dry_run,
    ensures
        looks_only(acts[n]),
{
    along_the_way(states, evs, acts, 0, n);
    assert(follows(states[n], evs[n], states[n + 1], acts[n]));
    one_step(states[n], evs[n], states[n + 1], acts[n]);
}

// ---- what each event leads to ----------------------------------------

/// On to instance number `row`, what was done about those before it in
/// `units`; behind the last one the cluster is concluded with all of them.
pub open spec fn on_to_instance(
    a: ResumeView,
    row: int,
    units: Seq<UnitResume>,
    b: ResumeView,
    act: Act,
) -> bool {
    &&& b.cluster == a.cluster
    &&& row < b.rows.len() ==> {
        &&& b.stage == Stage::Probing
        &&& b.row == row
        &&& b.units == units
        &&& b.done == a.done
        &&& act matches Act::Probe { container } && container@ == b.rows[row].container@
    }
    &&& row >= b.rows.len() ==> {
        &&& b.stage == Stage::Concluding
        &&& b.done.len() == a.done.len() + 1
        &&& b.done.last().cluster@ == a.clusters[a.cluster].name@
        &&& b.done.last().instances@ == units
        &&& b.done.last().skipped is None
        &&& act matches Act::Conclude { cluster, note } && cluster@
            == a.clusters[a.cluster].name@
    }
}

/// On to pooler number `k`, what was done about those before it in `pooled`;
/// behind the last one everything is reported.
pub open spec fn on_to_pooler(
    a: ResumeView,
    k: int,
    pooled: Seq<UnitResume>,
    b: ResumeView,
    act: Act,
) -> bool {
    &&& k < b.poolers.len() ==> {
        &&& b.stage == Stage::PoolerProbing
        &&& b.pooler == k
        &&& b.pooled == pooled
        &&& b.done == a.done
        &&& act matches Act::Probe { container } && container@ == b.poolers[k].container@
    }
    &&& k >= b.poolers.len() ==> {
        &&& b.stage == Stage::Ended
        &&& act matches Act::Report(r) && r.clusters@ == a.done && r.poolers@ == pooled
            && r.dry_run == a.dry_run
    }
}

/// On to cluster number `k`: one that runs has its instances listed, any other
/// is concluded untouched, and behind the last one the poolers are listed.
pub open spec fn on_to_cluster(a: ResumeView, k: int, b: ResumeView, act: Act) -> bool {
    &&& k >= b.clusters.len() ==> b.stage == Stage::Poolers && act is ListPoolers
    &&& k < b.clusters.len() ==> {
        let c = b.clusters[k];
        let runs = c.unusable is None && c.phase == ClusterPhase::Running;
        &&& b.cluster == k
        &&& runs ==> b.stage == Stage::Instances && (act matches Act::ListInstances(n) && n@
            == c.name@)
        &&& !runs ==> {
            &&& b.stage == Stage::Concluding
            &&& b.done.len() > 0
            &&& b.done.last().cluster@ == c.name@
            &&& b.done.last().instances@.len() == 0
            &&& b.done.last().skipped is Some
            &&& act matches Act::Conclude { cluster, note } && cluster@ == c.name@
        }
    }
}

/// A container that is down is started, unless this is a dry run or somebody
/// keeps it down.
pub open spec fn to_be_started(
    probe: Result<Option<ContainerState>, String>,
    phase: InstancePhase,
    dry_run: bool,
) -> bool {
    &&& probe matches Ok(Some(p)) && !p.running
    &&& !dry_run
    &&& phase != InstancePhase::Fenced
    &&& phase != InstancePhase::NeedsRebuild
    &&& phase != InstancePhase::Stopped
    &&& phase != InstancePhase::Terminated
}

/// What each event leads to while a cluster has its turn.
pub proof fn each_event_decides_for_a_cluster(a: ResumeView, ev: Event, b: ResumeView, act: Act)
    requires
        in_line(a),
        follows(a, ev, b, act),
    ensures
        a.stage == Stage::Start && ev is Begin ==> b.stage == Stage::Clusters && act is ListClusters,
        a.stage == Stage::Clusters ==> (ev matches Event::Clusters(rows) ==> b.clusters == rows@
            && on_to_cluster(a, 0, b, act)),
        a.stage == Stage::Concluding && ev is Done ==> b.clusters == a.clusters && on_to_cluster(
            a,
            a.cluster + 1,
            b,
            act,
        ),
        a.stage == Stage::Instances ==> (ev matches Event::Instances(rows) ==> b.rows == by_ordinal(
            rows@,
        ) && on_to_instance(a, 0, Seq::empty(), b, act)),
        a.stage == Stage::Probing ==> (ev matches Event::Probed(probe) ==> {
            let row = a.rows[a.row];
            let go = to_be_started(probe, row.phase, a.dry_run);
            &&& go ==> b == (ResumeView { stage: Stage::Starting, ..a }) && (act matches Act::Launch {
                container,
                port,
            } && container@ == row.container@ && port == row.host_port)
            &&& !go ==> b.rows == a.rows && exists|u: UnitResume|
                u.name@ == instance_name(a.clusters[a.cluster].name@, row.ordinal) && u.action
                    != ResumeAction::Started && on_to_instance(
                    a,
                    a.row + 1,
                    #[trigger] a.units.push(u),
                    b,
                    act,
                )
        }),
        a.stage == Stage::Starting ==> (ev matches Event::Started(s) ==> {
            &&& s is Started ==> {
                &&& b.stage == Stage::Waiting
                &&& b.row == a.row
                &&& b.units.len() == a.units.len() + 1
                &&& b.units.last().action == ResumeAction::Started
                &&& act matches Act::WaitReady { cluster, ordinal } && cluster@
                    == a.clusters[a.cluster].name@ && ordinal == a.rows[a.row].ordinal
            }
            &&& !(s is Started) ==> b.rows == a.rows && exists|u: UnitResume|
                u.action == ResumeAction::Failed && on_to_instance(
                    a,
                    a.row + 1,
                    #[trigger] a.units.push(u),
                    b,
                    act,
                )
        }),
        a.stage == Stage::Waiting ==> (ev matches Event::Waited(Some(e)) ==> b == (ResumeView {
            stage: Stage::Noting,
            ..a
        }) && (act matches Act::Log { cluster, note } && cluster@ == a.clusters[a.cluster].name@
            && note.level@ == "warn"@ && occurs(note.message@, e@))),
        a.stage == Stage::Waiting ==> (ev matches Event::Waited(None) ==> b.rows == a.rows
            && on_to_instance(a, a.row + 1, a.units, b, act)),
        a.stage == Stage::Noting && ev is Done ==> b.rows == a.rows && on_to_instance(
            a,
            a.row + 1,
            a.units,
            b,
            act,
        ),
{
    if a.stage == Stage::Waiting {
        if let Event::Waited(Some(e)) = ev {
            let head = at_hand(a) + " started but not ready: "@;
            a_part_occurs(head, e@, Seq::empty());
            assert(head + e@ =~= head + e@ + Seq::<char>::empty());
        }
    }
    if a.stage == Stage::Probing {
        if let Event::Probed(probe) = ev {
            let row = a.rows[a.row];
            let c = a.clusters[a.cluster];
            let n = choose|n: Next| #[trigger]
                resumes(at_hand(a), row.container@, c.phase, c.why@, row.phase, probe, a.dry_run, n)
                    && after_probe(a, n, b, act);
            what_follows_for_a_container(
                at_hand(a),
                row.container@,
                c.phase,
                c.why@,
                row.phase,
                probe,
                a.dry_run,
                n,
            );
            if let Next::Done(u) = n {
                assert(on_to_instance(a, a.row + 1, a.units.push(u), b, act));
            }
        }
    }
    if a.stage == Stage::Starting {
        if let Event::Started(s) = ev {
            let u = choose|u: UnitResume| #[trigger]
                starts(at_hand(a), s, u) && after_start(a, u, b, act);
            what_is_reported_of_a_start(at_hand(a), s, u);
            if !(s is Started) {
                assert(on_to_instance(a, a.row + 1, a.units.push(u), b, act));
            }
        }
    }
}

/// What each event leads to while a pooler has its turn.
pub proof fn each_event_decides_for_a_pooler(a: ResumeView, ev: Event, b: ResumeView, act: Act)
    requires
        in_line(a),
        follows(a, ev, b, act),
    ensures
        a.stage == Stage::Poolers ==> (ev matches Event::Poolers(rows) ==> b.poolers == rows@
            && on_to_pooler(a, 0, Seq::empty(), b, act)),
        a.stage == Stage::PoolerProbing ==> (ev matches Event::Probed(probe) ==> {
            let p = a.poolers[a.pooler];
            let go = p.phase == ClusterPhase::Running && to_be_started(
                probe,
                InstancePhase::Running,
                a.dry_run,
            );
            &&& go ==> b == (ResumeView { stage: Stage::PoolerStarting, ..a }) && (act matches Act::Launch {
                container,
                port,
            } && container@ == p.container@ && port == p.host_port)
            &&& !go ==> b.poolers == a.poolers && exists|u: UnitResume|
                u.name@ == p.name@ && u.action != ResumeAction::Started && on_to_pooler(
                    a,
                    a.pooler + 1,
                    #[trigger] a.pooled.push(u),
                    b,
                    act,
                )
        }),
        a.stage == Stage::PoolerStarting ==> (ev matches Event::Started(s) ==> {
            let p = a.poolers[a.pooler];
            &&& s is Started && p.usable ==> b.stage == Stage::PoolerWaiting && b.pooler == a.pooler
                && (act matches Act::WaitPooler(n) && n@ == p.name@)
            &&& !(s is Started && p.usable) ==> b.poolers == a.poolers && exists|u: UnitResume|
                u.name@ == p.name@ && (u.action == ResumeAction::Started <==> s is Started)
                    && on_to_pooler(a, a.pooler + 1, #[trigger] a.pooled.push(u), b, act)
        }),
        a.stage == Stage::PoolerWaiting ==> (ev matches Event::Waited(refused) ==> b.poolers
            == a.poolers && exists|u: UnitResume|
            u.name@ == a.poolers[a.pooler].name@ && (u.action == ResumeAction::Started
                <==> refused is None) && (u.action == ResumeAction::Failed <==> refused is Some)
                && on_to_pooler(a, a.pooler + 1, #[trigger] a.pooled.drop_last().push(u), b, act)),
{
    let p = a.poolers[a.pooler];
    if a.stage == Stage::PoolerProbing {
        if let Event::Probed(probe) = ev {
            let n = choose|n: Next| #[trigger]
                resumes(
                    p.name@,
                    p.container@,
                    p.phase,
                    p.why@,
                    InstancePhase::Running,
                    probe,
                    a.dry_run,
                    n,
                ) && after_pooler_probe(a, n, b, act);
            what_follows_for_a_container(
                p.name@,
                p.container@,
                p.phase,
                p.why@,
                InstancePhase::Running,
                probe,
                a.dry_run,
                n,
            );
            if let Next::Done(u) = n {
                assert(on_to_pooler(a, a.pooler + 1, a.pooled.push(u), b, act));
            }
        }
    }
    if a.stage == Stage::PoolerStarting {
        if let Event::Started(s) = ev {
            let u = choose|u: UnitResume| #[trigger]
                starts(p.name@, s, u) && after_pooler_start(a, u, b, act);
            what_is_reported_of_a_start(p.name@, s, u);
            if !(s is Started && p.usable) {
                assert(on_to_pooler(a, a.pooler + 1, a.pooled.push(u), b, act));
            }
        }
    }
    if a.stage == Stage::PoolerWaiting {
        if let Event::Waited(refused) = ev {
            let u = choose|u: UnitResume| #[trigger]
                comes_up(a.pooled.last(), opt_text(refused), u) && next_pooler(
                    with_pooler(ResumeView { pooled: a.pooled.drop_last(), ..a }, u),
                    b,
                    act,
                );
            what_is_reported_of_a_pooler(a.pooled.last(), opt_text(refused), u);
            assert(a.pooled.last().name@ == p.name@);
            assert(on_to_pooler(a, a.pooler + 1, a.pooled.drop_last().push(u), b, act));
        }
    }
}

} // verus!
