//! Restoring a cluster into a new one, step by step.

use crate::backup::info::{
    ends_of, in_calendar, last_ended_by, oldest_first, serves, the_newest_finished_backup_is_chosen,
    Backup, StanzaInfo,
};
use crate::control::apply::InstanceSummary;
use crate::control::backup::{
    backups_of, find_backup, none_serves, nothing_to_restore, over_itself, recovery,
    refuse_other_version, refuse_restore, restore_report, target_exists, time_text, wrong_version,
    RecoveryBootstrap, RestoreReport,
};
use crate::text::{opt_text, same};
use crate::time::{representable, Moment};
use vstd::prelude::*;
use vstd::string::*;

verus! {

// ---- which version took a backup -------------------------------------

/// A database that a repository has backups of.
#[derive(Debug, Clone)]
pub struct Database {
    pub id: u64,
    /// Its major version, where that can be told.
    pub version: Option<String>,
}

/// Which database a backup is of.
#[derive(Debug, Clone)]
pub struct Origin {
    pub label: String,
    pub database: Option<u64>,
}

/// The database a backup is of, where the repository says.
pub open spec fn origin_of(label: Seq<char>, origins: Seq<Origin>) -> Option<u64>
    decreases origins.len(),
{
    if origins.len() == 0 {
        None
    } else if origins[0].label@ == label {
        origins[0].database
    } else {
        origin_of(label, origins.subrange(1, origins.len() as int))
    }
}

/// A database's version.
pub open spec fn version_of(id: u64, databases: Seq<Database>) -> Option<Seq<char>>
    decreases databases.len(),
{
    if databases.len() == 0 {
        None
    } else if databases[0].id == id {
        opt_text(databases[0].version)
    } else {
        version_of(id, databases.subrange(1, databases.len() as int))
    }
}

/// The version a backup was taken by.
pub open spec fn taken_by(
    label: Seq<char>,
    origins: Seq<Origin>,
    databases: Seq<Database>,
) -> Option<Seq<char>> {
    match origin_of(label, origins) {
        Some(id) => version_of(id, databases),
        None => None,
    }
}

/// The version a backup was taken by: that of the database it is of. A
/// repository holds the backups of every version a cluster had.
pub fn version_that_took(label: &str, origins: &Vec<Origin>, databases: &Vec<Database>) -> (r:
    Option<String>)
    ensures
        opt_text(r) == taken_by(label@, origins@, databases@),
{
    let ghost all = origins@;
    let mut i: usize = 0;
    assert(all.subrange(0, all.len() as int) =~= all);
    while i < origins.len() && !same(origins[i].label.as_str(), label)
        invariant
            i <= origins.len(),
            all == origins@,
            origin_of(label@, all) == origin_of(label@, all.subrange(i as int, all.len() as int)),
        decreases origins.len() - i,
    {
        let ghost rest = all.subrange(i as int, all.len() as int);
        assert(rest.subrange(1, rest.len() as int) =~= all.subrange(i + 1, all.len() as int));
        i = i + 1;
    }
    if i == origins.len() {
        return None;
    }
    assert(all.subrange(i as int, all.len() as int)[0] == origins@[i as int]);
    let id: u64 = match origins[i].database {
        Some(id) => id,
        None => {
            return None;
        },
    };
    let ghost known = databases@;
    let mut k: usize = 0;
    assert(known.subrange(0, known.len() as int) =~= known);
    while k < databases.len() && databases[k].id != id
        invariant
            k <= databases.len(),
            known == databases@,
            version_of(id, known) == version_of(
                id,
                known.subrange(k as int, known.len() as int),
            ),
        decreases databases.len() - k,
    {
        let ghost rest = known.subrange(k as int, known.len() as int);
        assert(rest.subrange(1, rest.len() as int) =~= known.subrange(k + 1, known.len() as int));
        k = k + 1;
    }
    if k == databases.len() {
        return None;
    }
    assert(known.subrange(k as int, known.len() as int)[0] == databases@[k as int]);
    databases[k].version.clone()
}

// ---- the whole -------------------------------------------------------

/// Where a restore stands.
#[derive(Debug, Clone, Copy, PartialEq, Eq, Structural)]
pub enum Stage {
    Start,
    /// Looking whether the new cluster exists already.
    Target,
    /// Looking the source up.
    Source,
    /// Asking the repository.
    Repository,
    Pulling,
    Probing,
    Applying,
    Ended,
}

/// What came of the last action.
#[derive(Debug, Clone)]
pub enum Event {
    Begin,
    Done,
    Target { exists: bool },
    /// The source is there: whether it archives, and its image.
    Source { enabled: bool, image: String },
    /// What the repository holds, and of which databases.
    Repository { info: Option<StanzaInfo>, origins: Vec<Origin>, databases: Vec<Database> },
    /// The major version an image carries.
    Version(String),
    /// The new cluster was brought about.
    Applied(Vec<InstanceSummary>),
    Failed(String),
}

/// What to do next.
#[derive(Debug, Clone)]
pub enum Act {
    /// The event does not belong to this stage.
    Ignore,
    FindTarget,
    FindSource,
    AskRepository,
    PullImage(String),
    ProbeImage(String),
    /// Bring the new cluster about on this image, by this recovery.
    Apply { image: String, recovery: RecoveryBootstrap },
    Report(RestoreReport),
    Fail(String),
}

/// A restore under way.
#[derive(Debug, Clone)]
pub struct Restore {
    pub source: String,
    pub target: String,
    /// The instant to recover to; everything there is, where there is none.
    pub at: Option<Moment>,
    /// The image that was asked for.
    pub asked: Option<String>,
    /// The image of the new cluster.
    pub image: String,
    pub chosen: Option<Backup>,
    /// The version that took the chosen backup.
    pub version: Option<String>,
    pub stage: Stage,
}

/// The restore ends without success.
pub open spec fn refuses(a: Restore, b: Restore, act: Act, why: Seq<char>) -> bool {
    &&& b == (Restore { stage: Stage::Ended, ..a })
    &&& act matches Act::Fail(m) && m@ == why
}

/// The new cluster is brought about from a backup.
pub open spec fn applies(b: Restore, chosen: Backup, act: Act) -> bool {
    act matches Act::Apply { image, recovery } && {
        &&& image@ == b.image@
        &&& recovery.source_stanza@ == b.source@
        &&& opt_text(recovery.backup_label) == Some(chosen.label@)
        &&& opt_text(recovery.target_time) == time_text(b.at)
    }
}

/// What a repository's answer leads to, given when each backup ended.
pub open spec fn chooses(
    a: Restore,
    info: Option<StanzaInfo>,
    origins: Seq<Origin>,
    databases: Seq<Database>,
    ended: Seq<Moment>,
    b: Restore,
    act: Act,
) -> bool {
    match info {
        None => refuses(a, b, act, a.source@ + " has no pgbackrest repository yet"@),
        Some(i) => match last_ended_by(oldest_first(i.backup@), ended, a.at) {
            None => refuses(a, b, act, none_serves(a.source@, oldest_first(i.backup@), ended)),
            Some(c) => {
                let taken = taken_by(c.label@, origins, databases);
                &&& opt_text(b.version) == taken
                &&& if taken is Some {
                    &&& b == (Restore {
                        stage: Stage::Pulling,
                        chosen: Some(c),
                        version: b.version,
                        ..a
                    })
                    &&& act matches Act::PullImage(image) && image@ == a.image@
                } else {
                    &&& b == (Restore {
                        stage: Stage::Applying,
                        chosen: Some(c),
                        version: b.version,
                        ..a
                    })
                    &&& applies(b, c, act)
                }
            },
        },
    }
}

/// The image a restored cluster runs on: the one asked for, or the source's.
pub open spec fn image_of(asked: Option<String>, source: String) -> String {
    match asked {
        Some(i) => i,
        None => source,
    }
}

/// What is said of a restore.
pub open spec fn reports(a: Restore, instances: Vec<InstanceSummary>, r: RestoreReport) -> bool {
    &&& a.chosen matches Some(c) && r.backup_label@ == c.label@
    &&& r.source_cluster@ == a.source@
    &&& r.target_cluster@ == a.target@
    &&& opt_text(r.target_time) == time_text(a.at)
    &&& r.instances == instances
}

/// What follows an event. Everything that can refuse a restore comes before
/// the new cluster is brought about.
pub open spec fn follows(a: Restore, ev: Event, b: Restore, act: Act) -> bool {
    match (a.stage, ev) {
        (Stage::Start, Event::Begin) => if a.source@ == a.target@ {
            refuses(a, b, act, over_itself(a.source@))
        } else {
            b == (Restore { stage: Stage::Target, ..a }) && act is FindTarget
        },
        (Stage::Target, Event::Target { exists }) => if exists {
            refuses(a, b, act, target_exists(a.target@))
        } else {
            b == (Restore { stage: Stage::Source, ..a }) && act is FindSource
        },
        (Stage::Source, Event::Source { enabled, image }) => if !enabled {
            refuses(a, b, act, nothing_to_restore(a.source@))
        } else {
            &&& b == (Restore {
                stage: Stage::Repository,
                image: image_of(a.asked, image),
                ..a
            })
            &&& act is AskRepository
        },
        (Stage::Repository, Event::Repository { info, origins, databases }) => exists|
            ended: Seq<Moment>,
        | #[trigger]
            ends_of(oldest_first(backups_of(info)), ended) && chooses(
                a,
                info,
                origins@,
                databases@,
                ended,
                b,
                act,
            ),
        (Stage::Pulling, Event::Done) => {
            &&& b == (Restore { stage: Stage::Probing, ..a })
            &&& act matches Act::ProbeImage(image) && image@ == a.image@
        },
        (Stage::Probing, Event::Version(carried)) => match (a.chosen, a.version) {
            (Some(c), Some(v)) => if v@ == carried@ {
                b == (Restore { stage: Stage::Applying, ..a }) && applies(b, c, act)
            } else {
                refuses(a, b, act, wrong_version(c.label@, v@, a.image@, carried@))
            },
            _ => b == a && act is Ignore,
        },
        (Stage::Applying, Event::Applied(instances)) => match a.chosen {
            Some(_) => {
                &&& b == (Restore { stage: Stage::Ended, ..a })
                &&& act matches Act::Report(r) && reports(a, instances, r)
            },
            None => b == a && act is Ignore,
        },
        (Stage::Start, Event::Failed(_)) => b == a && act is Ignore,
        (Stage::Ended, Event::Failed(_)) => b == a && act is Ignore,
        (_, Event::Failed(e)) => refuses(a, b, act, e@),
        _ => b == a && act is Ignore,
    }
}

impl Restore {
    /// The instant to recover to can be written down, and once begun the
    /// restore is not over its source.
    pub open spec fn wf(&self) -> bool {
        &&& self.at matches Some(m) ==> representable(m)
        &&& 1 <= rank(self.stage) < 7 ==> self.source@ != self.target@
    }

    /// A restore that has not begun.
    pub fn new(source: &str, target: &str, at: Option<Moment>, asked: Option<String>) -> (r: Self)
        requires
            at matches Some(m) ==> representable(m),
        ensures
            r.wf(),
            r.source@ == source@,
            r.target@ == target@,
            r.at == at,
            r.asked == asked,
            r.image@.len() == 0,
            r.chosen is None,
            r.version is None,
            r.stage == Stage::Start,
    {
        Restore {
            source: source.to_owned(),
            target: target.to_owned(),
            at,
            asked,
            image: String::new(),
            chosen: None,
            version: None,
            stage: Stage::Start,
        }
    }

    fn apply(&self, chosen: &Backup) -> (act: Act)
        requires
            self.wf(),
        ensures
            applies(*self, *chosen, act),
    {
        Act::Apply {
            image: self.image.clone(),
            recovery: recovery(self.source.as_str(), chosen, self.at),
        }
    }

    fn refuse(&mut self, why: String) -> (act: Act)
        requires
            old(self).wf(),
        ensures
            final(self).wf(),
            *final(self) == (Restore { stage: Stage::Ended, ..*old(self) }),
            act == Act::Fail(why),
    {
        self.stage = Stage::Ended;
        Act::Fail(why)
    }

    fn repository(
        &mut self,
        info: &Option<StanzaInfo>,
        origins: &Vec<Origin>,
        databases: &Vec<Database>,
    ) -> (act: Act)
        requires
            old(self).wf(),
            old(self).stage == Stage::Repository,
        ensures
            final(self).wf(),
            exists|ended: Seq<Moment>| #[trigger]
                ends_of(oldest_first(backups_of(*info)), ended) && chooses(
                    *old(self),
                    *info,
                    origins@,
                    databases@,
                    ended,
                    *final(self),
                    act,
                ),
    {
        match find_backup(self.source.as_str(), info, self.at) {
            Err(m) => self.refuse(m),
            Ok(c) => {
                self.version = version_that_took(c.label.as_str(), origins, databases);
                let act = if self.version.is_some() {
                    self.stage = Stage::Pulling;
                    Act::PullImage(self.image.clone())
                } else {
                    self.stage = Stage::Applying;
                    self.apply(&c)
                };
                self.chosen = Some(c);
                act
            },
        }
    }

    /// Takes in what came of the last action, and says what to do next.
    pub fn step(&mut self, ev: Event) -> (act: Act)
        requires
            old(self).wf(),
        ensures
            final(self).wf(),
            follows(*old(self), ev, *final(self), act),
    {
        match (self.stage, ev) {
            (Stage::Start, Event::Begin) => {
                match refuse_restore(self.source.as_str(), self.target.as_str(), false, true) {
                    Some(m) => self.refuse(m),
                    None => {
                        self.stage = Stage::Target;
                        Act::FindTarget
                    },
                }
            },
            (Stage::Target, Event::Target { exists }) => {
                match refuse_restore(self.source.as_str(), self.target.as_str(), exists, true) {
                    Some(m) => self.refuse(m),
                    None => {
                        self.stage = Stage::Source;
                        Act::FindSource
                    },
                }
            },
            (Stage::Source, Event::Source { enabled, image }) => {
                match refuse_restore(self.source.as_str(), self.target.as_str(), false, enabled) {
                    Some(m) => self.refuse(m),
                    None => {
                        self.image = match &self.asked {
                            Some(i) => i.clone(),
                            None => image,
                        };
                        self.stage = Stage::Repository;
                        Act::AskRepository
                    },
                }
            },
            (Stage::Repository, Event::Repository { info, origins, databases }) => {
                self.repository(&info, &origins, &databases)
            },
            (Stage::Pulling, Event::Done) => {
                self.stage = Stage::Probing;
                Act::ProbeImage(self.image.clone())
            },
            (Stage::Probing, Event::Version(carried)) => {
                let refusal = match (&self.chosen, &self.version) {
                    (Some(c), Some(v)) => refuse_other_version(
                        c.label.as_str(),
                        Some(v.as_str()),
                        self.image.as_str(),
                        carried.as_str(),
                    ),
                    _ => {
                        return Act::Ignore;
                    },
                };
                match refusal {
                    Some(m) => self.refuse(m),
                    None => {
                        self.stage = Stage::Applying;
                        match &self.chosen {
                            Some(c) => self.apply(c),
                            None => Act::Ignore,
                        }
                    },
                }
            },
            (Stage::Applying, Event::Applied(instances)) => {
                let report = match &self.chosen {
                    Some(c) => restore_report(
                        self.source.as_str(),
                        self.target.as_str(),
                        c,
                        self.at,
                        instances,
                    ),
                    None => {
                        return Act::Ignore;
                    },
                };
                self.stage = Stage::Ended;
                Act::Report(report)
            },
            (Stage::Start, Event::Failed(_)) => Act::Ignore,
            (Stage::Ended, Event::Failed(_)) => Act::Ignore,
            (_, Event::Failed(e)) => self.refuse(e),
            _ => Act::Ignore,
        }
    }
}

// ---- what holds of every restore -------------------------------------

/// A restore from its start: each step follows from the one before.
pub open spec fn is_run(states: Seq<Restore>, evs: Seq<Event>, acts: Seq<Act>) -> bool {
    &&& states.len() == evs.len() + 1
    &&& acts.len() == evs.len()
    &&& states[0].stage == Stage::Start
    &&& states[0].chosen is None
    &&& forall|i: int|
        0 <= i < evs.len() ==> follows(#[trigger] states[i], evs[i], states[i + 1], acts[i])
}

/// How far along a stage is.
pub open spec fn rank(stage: Stage) -> int {
    match stage {
        Stage::Start => 0,
        Stage::Target => 1,
        Stage::Source => 2,
        Stage::Repository => 3,
        Stage::Pulling => 4,
        Stage::Probing => 5,
        Stage::Applying => 6,
        Stage::Ended => 7,
    }
}

/// In the first `n` steps the new cluster was found not to exist.
pub open spec fn target_was_free(evs: Seq<Event>, n: int) -> bool {
    exists|i: int| 0 <= i < n && #[trigger] evs[i] == (Event::Target { exists: false })
}

/// In the first `n` steps the source was found, and found to archive.
pub open spec fn source_archives(evs: Seq<Event>, n: int) -> bool {
    exists|i: int| 0 <= i < n && (#[trigger] evs[i] matches Event::Source { enabled, .. } && enabled)
}

/// A backup is the one that serves a target, of those a stanza has.
pub open spec fn serves_target(info: StanzaInfo, at: Option<Moment>, c: Backup) -> bool {
    exists|ended: Seq<Moment>| #[trigger]
        ends_of(oldest_first(info.backup@), ended) && last_ended_by(
            oldest_first(info.backup@),
            ended,
            at,
        ) == Some(c)
}

/// The repository answered, and a backup is the one of its stanza that serves
/// the target.
pub open spec fn gives(ev: Event, at: Option<Moment>, c: Backup) -> bool {
    ev matches Event::Repository { info: Some(info), .. } && serves_target(info, at, c)
}

/// In the first `n` steps the repository answered, and a backup with this
/// label is the one of its stanza that serves the target.
pub open spec fn repository_gave(
    evs: Seq<Event>,
    n: int,
    at: Option<Moment>,
    label: Seq<char>,
) -> bool {
    exists|i: int, c: Backup|
        0 <= i < n && #[trigger] gives(evs[i], at, c) && c.label@ == label
}

/// A recovery of a backup was begun in the first `n` steps.
pub open spec fn was_applied(
    acts: Seq<Act>,
    n: int,
    source: Seq<char>,
    label: Seq<char>,
    time: Option<Seq<char>>,
) -> bool {
    exists|i: int|
        0 <= i < n && (#[trigger] acts[i] matches Act::Apply { recovery, .. } && {
            &&& recovery.source_stanza@ == source
            &&& opt_text(recovery.backup_label) == Some(label)
            &&& opt_text(recovery.target_time) == time
        })
}

proof fn one_step(a: Restore, ev: Event, b: Restore, act: Act)
    requires
        follows(a, ev, b, act),
    ensures
        b.source == a.source,
        b.target == a.target,
        b.at == a.at,
        b.asked == a.asked,
        rank(a.stage) <= rank(b.stage),
        act is Apply ==> b.stage == Stage::Applying && a.stage != Stage::Applying && b.chosen is Some
            && applies(b, b.chosen->0, act),
        act is Report ==> a.stage == Stage::Applying,
        act is Fail ==> a.stage != Stage::Start || a.source@ == a.target@,
        act is Fail ==> a.stage != Stage::Ended && b.stage == Stage::Ended,
        rank(b.stage) >= 1 && b.stage != Stage::Ended ==> rank(a.stage) >= 1 || a.source@
            != a.target@,
        rank(b.stage) >= 2 && b.stage != Stage::Ended ==> rank(a.stage) >= 2 || ev == (
        Event::Target { exists: false }),
        rank(b.stage) >= 3 && b.stage != Stage::Ended ==> rank(a.stage) >= 3 || (
        ev matches Event::Source { enabled, .. } && enabled),
        b.stage == Stage::Applying ==> (act is Apply || (a == b && act is Ignore)),
        b.stage != Stage::Ended ==> a.stage != Stage::Ended,
        b.chosen == a.chosen || (b.chosen matches Some(c) && gives(ev, a.at, c)),
{
    if a.stage == Stage::Repository {
        if let Event::Repository { info, origins, databases } = ev {
            let ended = choose|ended: Seq<Moment>| #[trigger]
                ends_of(oldest_first(backups_of(info)), ended) && chooses(
                    a,
                    info,
                    origins@,
                    databases@,
                    ended,
                    b,
                    act,
                );
            assert(ends_of(oldest_first(backups_of(info)), ended));
        }
    }
}

#[verifier::spinoff_prover]
proof fn along_the_way(states: Seq<Restore>, evs: Seq<Event>, acts: Seq<Act>, n: int)
    requires
        is_run(states, evs, acts),
        0 <= n <= evs.len(),
    ensures
        states[n].source == states[0].source,
        states[n].target == states[0].target,
        states[n].at == states[0].at,
        ({
            let s = states[n];
            &&& 1 <= rank(s.stage) < 7 ==> s.source@ != s.target@
            &&& 2 <= rank(s.stage) < 7 ==> target_was_free(evs, n)
            &&& 3 <= rank(s.stage) < 7 ==> source_archives(evs, n)
            &&& s.stage == Stage::Applying ==> (s.chosen matches Some(c) && was_applied(
                acts,
                n,
                s.source@,
                c.label@,
                time_text(s.at),
            ))
            &&& s.chosen matches Some(c) ==> repository_gave(evs, n, s.at, c.label@)
        }),
    decreases n,
{
    if n > 0 {
        let m = n - 1;
        along_the_way(states, evs, acts, m);
        let a = states[m];
        let b = states[n];
        assert(follows(states[m], evs[m], states[m + 1], acts[m]));
        one_step(a, evs[m], b, acts[m]);
        if target_was_free(evs, m) {
            let i = choose|i: int|
                0 <= i < m && #[trigger] evs[i] == (Event::Target { exists: false });
            assert(evs[i] == (Event::Target { exists: false }));
        }
        if evs[m] == (Event::Target { exists: false }) {
            assert(target_was_free(evs, n));
        }
        if source_archives(evs, m) {
            let i = choose|i: int|
                0 <= i < m && (#[trigger] evs[i] matches Event::Source { enabled, .. } && enabled);
            assert(evs[i] matches Event::Source { enabled, .. } && enabled);
        }
        if b.chosen is Some {
            let c = b.chosen->0;
            if b.chosen == a.chosen {
                let (i, w) = choose|i: int, w: Backup|
                    0 <= i < m && #[trigger] gives(evs[i], a.at, w) && w.label@ == c.label@;
                assert(gives(evs[i], b.at, w));
            } else {
                assert(gives(evs[m], b.at, c));
            }
        }
        if b.stage == Stage::Applying {
            if acts[m] is Apply {
                assert(applies(b, b.chosen->0, acts[m]));
            } else {
                let c = a.chosen->0;
                let i = choose|i: int|
                    0 <= i < m && (#[trigger] acts[i] matches Act::Apply { recovery, .. } && {
                        &&& recovery.source_stanza@ == a.source@
                        &&& opt_text(recovery.backup_label) == Some(c.label@)
                        &&& opt_text(recovery.target_time) == time_text(a.at)
                    });
                assert(acts[i] is Apply);
            }
        }
    }
}

proof fn only_forwards(states: Seq<Restore>, evs: Seq<Event>, acts: Seq<Act>, i: int, n: int)
    requires
        is_run(states, evs, acts),
        0 <= i <= n <= evs.len(),
    ensures
        rank(states[i].stage) <= rank(states[n].stage),
    decreases n - i,
{
    if i < n {
        only_forwards(states, evs, acts, i, n - 1);
        assert(follows(states[n - 1], evs[n - 1], states[n - 1 + 1], acts[n - 1]));
        one_step(states[n - 1], evs[n - 1], states[n], acts[n - 1]);
    }
}

/// A refused restore creates nothing: whatever fails before the new cluster is
/// being brought about, nothing was applied up to there, nor is it after.
pub proof fn a_refused_restore_creates_nothing(
    states: Seq<Restore>,
    evs: Seq<Event>,
    acts: Seq<Act>,
    n: int,
    i: int,
)
    requires
        is_run(states, evs, acts),
        0 <= n < evs.len(),
        0 <= i < evs.len(),
        acts[n] is Fail,
        states[n].stage != Stage::Applying,
    ensures
        !(acts[i] is Apply),
{
    assert(follows(states[n], evs[n], states[n + 1], acts[n]));
    one_step(states[n], evs[n], states[n + 1], acts[n]);
    assert(follows(states[i], evs[i], states[i + 1], acts[i]));
    one_step(states[i], evs[i], states[i + 1], acts[i]);
    if i < n {
        only_forwards(states, evs, acts, i + 1, n);
    } else if i > n {
        only_forwards(states, evs, acts, n + 1, i);
    }
}

/// Nothing is brought about but under a name of its own, which was free, from
/// a source that archives.
pub proof fn only_a_free_name_is_restored_to(
    states: Seq<Restore>,
    evs: Seq<Event>,
    acts: Seq<Act>,
    n: int,
)
    requires
        is_run(states, evs, acts),
        0 <= n < evs.len(),
        acts[n] is Apply,
    ensures
        states[0].source@ != states[0].target@,
        target_was_free(evs, n + 1),
        source_archives(evs, n + 1),
{
    assert(follows(states[n], evs[n], states[n + 1], acts[n]));
    one_step(states[n], evs[n], states[n + 1], acts[n]);
    along_the_way(states, evs, acts, n + 1);
}

/// A backup of a known version is only restored onto an image of that version.
pub proof fn only_its_own_version_opens_a_backup(a: Restore, ev: Event, b: Restore, act: Act)
    requires
        follows(a, ev, b, act),
        act is Apply,
        b.version is Some,
    ensures
        ev matches Event::Version(carried) && opt_text(b.version) == Some(carried@),
{
}

/// What a restore reports is what was asked for and done: the two names, the
/// backup that serves the target and that the new cluster was brought about
/// from, the instant that it was recovered to, and the instances that came of
/// it.
pub proof fn a_report_says_what_was_restored(
    states: Seq<Restore>,
    evs: Seq<Event>,
    acts: Seq<Act>,
    n: int,
)
    requires
        is_run(states, evs, acts),
        0 <= n < evs.len(),
        acts[n] is Report,
    ensures
        acts[n] matches Act::Report(r) && {
            &&& r.source_cluster@ == states[0].source@
            &&& r.target_cluster@ == states[0].target@
            &&& opt_text(r.target_time) == time_text(states[0].at)
            &&& was_applied(
                acts,
                n,
                states[0].source@,
                r.backup_label@,
                time_text(states[0].at),
            )
            &&& repository_gave(evs, n, states[0].at, r.backup_label@)
            &&& evs[n] == Event::Applied(r.instances)
        },
{
    assert(follows(states[n], evs[n], states[n + 1], acts[n]));
    one_step(states[n], evs[n], states[n + 1], acts[n]);
    along_the_way(states, evs, acts, n);
}

// ---- what each decision rests on -------------------------------------

/// The database a backup is of is that of the first entry with its label, and
/// its version that of the first entry with that number.
pub proof fn a_backup_is_of_its_database(
    label: Seq<char>,
    origins: Seq<Origin>,
    i: int,
    databases: Seq<Database>,
    k: int,
)
    requires
        0 <= i < origins.len(),
        origins[i].label@ == label,
        forall|j: int| 0 <= j < i ==> (#[trigger] origins[j]).label@ != label,
        0 <= k <= databases.len(),
        origins[i].database matches Some(id) ==> {
            &&& forall|j: int| 0 <= j < k ==> (#[trigger] databases[j]).id != id
            &&& k < databases.len() ==> databases[k].id == id
        },
    ensures
        origins[i].database is None ==> taken_by(label, origins, databases) is None,
        origins[i].database is Some && k < databases.len() ==> taken_by(label, origins, databases)
            == opt_text(databases[k].version),
        origins[i].database is Some && k == databases.len() ==> taken_by(
            label,
            origins,
            databases,
        ) is None,
{
    origin_at(label, origins, i);
    if let Some(id) = origins[i].database {
        version_at(id, databases, k);
    }
}

proof fn origin_at(label: Seq<char>, origins: Seq<Origin>, i: int)
    requires
        0 <= i < origins.len(),
        origins[i].label@ == label,
        forall|j: int| 0 <= j < i ==> (#[trigger] origins[j]).label@ != label,
    ensures
        origin_of(label, origins) == origins[i].database,
    decreases i,
{
    if i > 0 {
        let rest = origins.subrange(1, origins.len() as int);
        assert(origins[0].label@ != label);
        assert(rest[i - 1] == origins[i]);
        assert forall|j: int| 0 <= j < i - 1 implies (#[trigger] rest[j]).label@ != label by {
            assert(rest[j] == origins[j + 1]);
        }
        origin_at(label, rest, i - 1);
    }
}

proof fn version_at(id: u64, databases: Seq<Database>, k: int)
    requires
        0 <= k <= databases.len(),
        forall|j: int| 0 <= j < k ==> (#[trigger] databases[j]).id != id,
        k < databases.len() ==> databases[k].id == id,
    ensures
        version_of(id, databases) == (if k < databases.len() {
            opt_text(databases[k].version)
        } else {
            None
        }),
    decreases databases.len(),
{
    if databases.len() > 0 && k > 0 {
        let rest = databases.subrange(1, databases.len() as int);
        assert(databases[0].id != id);
        if k < databases.len() {
            assert(rest[k - 1] == databases[k]);
        }
        assert forall|j: int| 0 <= j < k - 1 implies (#[trigger] rest[j]).id != id by {
            assert(rest[j] == databases[j + 1]);
        }
        version_at(id, rest, k - 1);
    }
}

/// A restore starts from the newest backup that had finished by the target,
/// and is refused only where none had, or where there is no repository.
pub proof fn a_restore_starts_from_the_newest_finished_backup(
    a: Restore,
    info: StanzaInfo,
    origins: Vec<Origin>,
    databases: Vec<Database>,
    b: Restore,
    act: Act,
)
    requires
        a.stage == Stage::Repository,
        follows(a, Event::Repository { info: Some(info), origins, databases }, b, act),
        forall|i: int|
            0 <= i < info.backup@.len() ==> in_calendar((#[trigger] info.backup@[i]).timestamp.stop),
    ensures
        act is Fail ==> forall|k: int|
            0 <= k < info.backup@.len() ==> !serves(#[trigger] info.backup@[k], a.at),
        !(act is Fail) ==> (b.chosen matches Some(c) && info.backup@.contains(c) && serves(c, a.at)
            && forall|k: int|
            0 <= k < info.backup@.len() && serves(#[trigger] info.backup@[k], a.at)
                ==> info.backup@[k].timestamp.stop <= c.timestamp.stop),
        act is Fail || act is PullImage || act is Apply,
{
    let sorted = oldest_first(info.backup@);
    let ended = choose|ended: Seq<Moment>| #[trigger]
        ends_of(oldest_first(backups_of(Some(info))), ended) && chooses(
            a,
            Some(info),
            origins@,
            databases@,
            ended,
            b,
            act,
        );
    assert(ends_of(sorted, ended));
    the_newest_finished_backup_is_chosen(info.backup@, ended, a.at);
}

/// What the new cluster is brought about from: the source's stanza, the chosen
/// backup, and the instant that was asked for, or no instant where none was.
/// It runs the image that was asked for, or else its source's.
pub proof fn a_restore_is_told_what_was_asked(a: Restore, ev: Event, b: Restore, act: Act)
    requires
        follows(a, ev, b, act),
    ensures
        act matches Act::Apply { image, recovery } ==> image@ == b.image@ && recovery.source_stanza@
            == a.source@ && (b.chosen matches Some(c) && opt_text(recovery.backup_label) == Some(
            c.label@,
        )) && opt_text(recovery.target_time) == time_text(a.at),
        a.at is None ==> (act matches Act::Apply { recovery, .. } ==> recovery.target_time is None),
        act matches Act::PullImage(image) ==> image@ == a.image@,
        act matches Act::ProbeImage(image) ==> image@ == a.image@,
        a.stage == Stage::Source ==> (ev matches Event::Source { enabled, image } ==> enabled ==> {
            &&& a.asked matches Some(i) ==> b.image == i
            &&& a.asked is None ==> b.image == image
        }),
        b.source == a.source && b.target == a.target && b.at == a.at && b.asked == a.asked,
{
    one_step(a, ev, b, act);
    if a.stage == Stage::Repository {
        if let Event::Repository { info, origins, databases } = ev {
            let ended = choose|ended: Seq<Moment>| #[trigger]
                ends_of(oldest_first(backups_of(info)), ended) && chooses(
                    a,
                    info,
                    origins@,
                    databases@,
                    ended,
                    b,
                    act,
                );
            assert(ends_of(oldest_first(backups_of(info)), ended));
        }
    }
}

/// What each event leads to: a name of its own, then a free one, then a source
/// that archives, then its repository; an image is pulled and looked into
/// where the backup's version is known, and must carry that version.
pub proof fn each_event_decides(a: Restore, ev: Event, b: Restore, act: Act)
    requires
        follows(a, ev, b, act),
    ensures
        a.stage == Stage::Start && ev is Begin ==> {
            &&& a.source@ == a.target@ ==> act is Fail && b.stage == Stage::Ended
            &&& a.source@ != a.target@ ==> act is FindTarget && b.stage == Stage::Target
        },
        a.stage == Stage::Target ==> (ev matches Event::Target { exists } ==> {
            &&& exists ==> act is Fail && b.stage == Stage::Ended
            &&& !exists ==> act is FindSource && b.stage == Stage::Source
        }),
        a.stage == Stage::Source ==> (ev matches Event::Source { enabled, .. } ==> {
            &&& !enabled ==> act is Fail && b.stage == Stage::Ended
            &&& enabled ==> act is AskRepository && b.stage == Stage::Repository
        }),
        a.stage == Stage::Repository ==> (ev matches Event::Repository { info, .. } ==> info is None
            ==> act is Fail && b.stage == Stage::Ended),
        a.stage == Stage::Pulling && ev is Done ==> act is ProbeImage && b.stage == Stage::Probing,
        a.stage == Stage::Probing && a.chosen is Some ==> (ev matches Event::Version(carried) ==> (
        a.version matches Some(v) ==> {
            &&& v@ == carried@ ==> act is Apply && b.stage == Stage::Applying
            &&& v@ != carried@ ==> act is Fail && b.stage == Stage::Ended
        })),
        a.stage == Stage::Applying && a.chosen is Some && ev is Applied ==> act is Report && b.stage
            == Stage::Ended,
        a.stage != Stage::Start && a.stage != Stage::Ended ==> (ev matches Event::Failed(e) ==> b.stage
            == Stage::Ended && (act matches Act::Fail(m) && m@ == e@)),
{
}

/// A backup is from the database its first entry names, and a database has the
/// version its first entry gives.
pub proof fn the_first_entry_tells(
    label: Seq<char>,
    origins: Seq<Origin>,
    i: int,
    id: u64,
    databases: Seq<Database>,
    k: int,
)
    requires
        0 <= i <= origins.len(),
        forall|j: int| 0 <= j < i ==> (#[trigger] origins[j]).label@ != label,
        i < origins.len() ==> origins[i].label@ == label,
        0 <= k <= databases.len(),
        forall|j: int| 0 <= j < k ==> (#[trigger] databases[j]).id != id,
        k < databases.len() ==> databases[k].id == id,
    ensures
        i < origins.len() ==> origin_of(label, origins) == origins[i].database,
        i == origins.len() ==> origin_of(label, origins) is None,
        k < databases.len() ==> version_of(id, databases) == opt_text(databases[k].version),
        k == databases.len() ==> version_of(id, databases) is None,
    decreases origins.len() + databases.len(),
{
    if i > 0 {
        let t = origins.subrange(1, origins.len() as int);
        assert(origins[0].label@ != label);
        assert forall|j: int| 0 <= j < i - 1 implies (#[trigger] t[j]).label@ != label by {
            assert(t[j] == origins[j + 1]);
        }
        the_first_entry_tells(label, t, i - 1, id, databases, k);
    } else if k > 0 {
        let t = databases.subrange(1, databases.len() as int);
        assert(databases[0].id != id);
        assert forall|j: int| 0 <= j < k - 1 implies (#[trigger] t[j]).id != id by {
            assert(t[j] == databases[j + 1]);
        }
        the_first_entry_tells(label, origins, i, id, t, k - 1);
    }
}

/// What is applied for a restore: the image that was asked for, or else the
/// source's; and recovery from the source's stanza, from the backup that was
/// chosen, up to the instant that was asked for.
pub proof fn what_a_restore_applies(
    b: Restore,
    chosen: Backup,
    act: Act,
    asked: Option<String>,
    source: String,
)
    requires
        applies(b, chosen, act),
    ensures
        act matches Act::Apply { image, recovery } && image@ == b.image@
            && recovery.source_stanza@ == b.source@ && (recovery.backup_label matches Some(l) && l@
            == chosen.label@) && opt_text(recovery.target_time) == time_text(b.at),
        asked matches Some(i) ==> image_of(asked, source) == i,
        asked is None ==> image_of(asked, source) == source,
{
}

} // verus!
