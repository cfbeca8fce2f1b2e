//! Taking a backup, finding one, and restoring one.

use crate::backup::config::Destination;
use crate::backup::info::{
    choose_ended_by, ended_times, ends_of, last_ended_by, oldest_first, type_text, Backup,
    StanzaInfo,
};
use crate::control::apply::InstanceSummary;
use crate::control::error::{Error, ErrorView};
use crate::control::model::{BackupSpec, ClusterManifest};
use crate::text::{
    begins_with, join, joined, lines, lines_of, opt_str,
    a_part_occurs, a_part_of_a_part_occurs, every_part_is_there, occurs, opt_text, push_text, same,
    starts_with, texts, trim, trimmed, what_it_begins_with,
};
use crate::time::{
    display_utc, displayed, format_utc, formatted, representable, rfc3339, to_rfc3339, utc_now,
    Moment, STAMP,
};
use vstd::prelude::*;
use vstd::string::*;

verus! {

/// What a backup did.
#[derive(Debug, Clone)]
pub struct BackupReport {
    pub cluster: String,
    /// The job was seen to its end; otherwise it was only started.
    pub finished: bool,
    /// pgBackRest's label for the new backup, where there is one.
    pub label: Option<String>,
    pub destinations: Vec<String>,
    /// `full`, `diff` or `incr`, as pgBackRest chose.
    pub backup_type: Option<String>,
    pub size_bytes: Option<u64>,
}

/// What a restore did.
#[derive(Debug, Clone)]
pub struct RestoreReport {
    pub source_cluster: String,
    pub target_cluster: String,
    pub backup_label: String,
    pub target_time: Option<String>,
    pub instances: Vec<InstanceSummary>,
}

// ---- jobs ------------------------------------------------------------

/// What makes a job's name unique: the time.
pub fn now_stamp() -> (r: String)
    ensures
        exists|m: Moment|
            representable(m) && r@ == #[trigger] formatted(m.secs, m.nanos, STAMP@),
{
    format_utc(utc_now(), STAMP)
}

/// The name of a job's container.
pub fn job_name(cluster: &str, what: &str, stamp: &str) -> (r: String)
    ensures
        r@ == "pgpod-"@ + cluster@ + "-"@ + what@ + "-"@ + stamp@,
{
    let mut s = "pgpod-".to_owned();
    s.append(cluster);
    s.append("-");
    s.append(what);
    s.append("-");
    s.append(stamp);
    s
}

/// What came of a pgBackRest job: what it wrote, inside the error too, since
/// its diagnosis is the useful part.
pub fn job_outcome(args: &Vec<String>, code: i64, logs: String) -> (r: Result<String, Error>)
    ensures
        match r {
            Ok(l) => code == 0 && l@ == logs@,
            Err(e) => code != 0 && e@ == (ErrorView::PgBackRest {
                command: joined(texts(args@), " "@),
                detail: logs@,
            }),
        },
{
    if code == 0 {
        Ok(logs)
    } else {
        Err(Error::PgBackRest { command: join(args, " "), detail: logs })
    }
}

/// The error for a job that did not end in time.
pub fn job_still_running(instance: &str, seconds: u64, args: &Vec<String>) -> (r: Error)
    ensures
        r@ == (ErrorView::NotReady {
            instance: instance@,
            seconds,
            detail: "pgbackrest "@ + joined(texts(args@), " "@) + " is still running"@,
        }),
{
    let mut d = "pgbackrest ".to_owned();
    d.append(join(args, " ").as_str());
    d.append(" is still running");
    Error::NotReady { instance: instance.to_owned(), seconds, detail: d }
}

/// The first line that, trimmed, begins with a bracket.
pub open spec fn document_in(ls: Seq<Seq<char>>) -> Option<Seq<char>>
    decreases ls.len(),
{
    if ls.len() == 0 {
        None
    } else if begins_with(trimmed(ls[0]), "["@) {
        Some(trimmed(ls[0]))
    } else {
        document_in(ls.subrange(1, ls.len() as int))
    }
}

/// The JSON document in what a job wrote: podman's logs carry pgBackRest's
/// own lines too, and the document is the one line that starts with a
/// bracket.
pub fn find_document(logs: &str) -> (r: Result<String, String>)
    ensures
        match r {
            Ok(d) => document_in(lines_of(logs@)) == Some(d@),
            Err(m) => document_in(lines_of(logs@)) is None && m@
                == "pgbackrest info produced no JSON:\n"@ + logs@,
        },
{
    let ls = lines(logs);
    let ghost all = lines_of(logs@);
    let mut i: usize = 0;
    assert(all.subrange(0, all.len() as int) =~= all);
    assert(all.len() == ls.len());
    while i < ls.len()
        invariant
            i <= ls.len(),
            all == lines_of(logs@),
            texts(ls@) == all,
            all.len() == ls.len(),
            document_in(all) == document_in(all.subrange(i as int, all.len() as int)),
        decreases ls.len() - i,
    {
        let ghost rest = all.subrange(i as int, all.len() as int);
        assert(rest[0] == ls@[i as int]@);
        assert(rest.subrange(1, rest.len() as int) =~= all.subrange(i + 1, all.len() as int));
        let l = trim(ls[i].as_str());
        if starts_with(l, "[") {
            return Ok(l.to_owned());
        }
        i = i + 1;
    }
    let mut m = "pgbackrest info produced no JSON:\n".to_owned();
    m.append(logs);
    Err(m)
}

// ---- taking one ------------------------------------------------------

/// Refuses to back up a cluster that has nowhere to put a backup.
pub fn refuse_backup(cluster: &str, enabled: bool) -> (r: Option<String>)
    ensures
        opt_text(r) == (if enabled {
            None
        } else {
            Some(nowhere_to_put(cluster@))
        }),
{
    if enabled {
        return None;
    }
    let mut m = cluster.to_owned();
    m.append(" has no spec.backup.destinations, so there is nowhere to put a backup");
    Some(m)
}

/// A label is among those of some backups.
pub open spec fn labelled(v: Seq<Backup>, label: Seq<char>) -> bool {
    exists|i: int| 0 <= i < v.len() && (#[trigger] v[i]).label@ == label
}

fn is_labelled(v: &Vec<Backup>, label: &str) -> (r: bool)
    ensures
        r == labelled(v@, label@),
{
    let mut i: usize = 0;
    while i < v.len()
        invariant
            i <= v.len(),
            forall|k: int| 0 <= k < i ==> (#[trigger] v@[k]).label@ != label@,
        decreases v.len() - i,
    {
        if same(v[i].label.as_str(), label) {
            return true;
        }
        i = i + 1;
    }
    false
}

/// The last backup that was not there before.
pub open spec fn last_new(sorted: Seq<Backup>, before: Seq<Backup>) -> Option<Backup>
    decreases sorted.len(),
{
    if sorted.len() == 0 {
        None
    } else if !labelled(before, sorted.last().label@) {
        Some(sorted.last())
    } else {
        last_new(sorted.drop_last(), before)
    }
}

pub open spec fn backups_of(info: Option<StanzaInfo>) -> Seq<Backup> {
    match info {
        Some(i) => i.backup@,
        None => Seq::empty(),
    }
}

/// The backup a job made: the newest that the repository did not hold before.
/// The repository is the record of what happened, not the job's exit.
pub fn new_backup(before: &Option<StanzaInfo>, after: &Option<StanzaInfo>) -> (r: Option<Backup>)
    ensures
        r == last_new(oldest_first(backups_of(*after)), backups_of(*before)),
{
    let sorted = match after {
        Some(i) => i.backups_oldest_first(),
        None => Vec::new(),
    };
    assert(sorted@ =~= oldest_first(backups_of(*after)));
    let ghost old = backups_of(*before);
    let mut n: usize = sorted.len();
    assert(sorted@.take(n as int) =~= sorted@);
    while n > 0
        invariant
            n <= sorted.len(),
            sorted@ == oldest_first(backups_of(*after)),
            old == backups_of(*before),
            last_new(sorted@, old) == last_new(sorted@.take(n as int), old),
        decreases n,
    {
        let known = match before {
            Some(i) => is_labelled(&i.backup, sorted[n - 1].label.as_str()),
            None => false,
        };
        assert(sorted@.take(n as int).drop_last() =~= sorted@.take(n - 1));
        assert(known == labelled(old, sorted@[n - 1].label@));
        if !known {
            return Some(sorted[n - 1].duplicate());
        }
        n = n - 1;
    }
    None
}

/// What is said of a backup: the new one, where the repository has one.
pub open spec fn reports_backup(
    cluster: Seq<char>,
    finished: bool,
    new: Option<Backup>,
    spec: BackupSpec,
    r: BackupReport,
) -> bool {
    &&& r.cluster@ == cluster
    &&& r.finished == finished
    &&& match new {
        Some(b) => opt_text(r.label) == Some(b.label@) && opt_text(r.backup_type) == Some(
            type_text(b.backup_type),
        ) && r.size_bytes == Some(b.bytes()),
        None => r.label is None && r.backup_type is None && r.size_bytes is None,
    }
    &&& texts(r.destinations@) == spec.destinations@.map_values(|d: Destination| d.url@)
}

fn urls_of(spec: &BackupSpec) -> (r: Vec<String>)
    ensures
        texts(r@) == spec.destinations@.map_values(|d: Destination| d.url@),
{
    let mut destinations: Vec<String> = Vec::new();
    let ghost want = spec.destinations@.map_values(|d: Destination| d.url@);
    let mut i: usize = 0;
    assert(texts(destinations@) =~= want.take(0));
    while i < spec.destinations.len()
        invariant
            i <= spec.destinations.len(),
            want == spec.destinations@.map_values(|d: Destination| d.url@),
            texts(destinations@) == want.take(i as int),
        decreases spec.destinations.len() - i,
    {
        push_text(&mut destinations, spec.destinations[i].url.clone());
        assert(texts(destinations@) =~= want.take(i + 1));
        i = i + 1;
    }
    assert(want.take(want.len() as int) =~= want);
    destinations
}

/// Reports a backup that was seen to its end.
pub fn backup_report(cluster: &str, new: &Option<Backup>, spec: &BackupSpec) -> (r: BackupReport)
    ensures
        reports_backup(cluster@, true, *new, *spec, r),
{
    match new {
        Some(b) => BackupReport {
            cluster: cluster.to_owned(),
            finished: true,
            label: Some(b.label.clone()),
            destinations: urls_of(spec),
            backup_type: Some(b.backup_type.as_str().to_owned()),
            size_bytes: Some(b.size_bytes()),
        },
        None => BackupReport {
            cluster: cluster.to_owned(),
            finished: true,
            label: None,
            destinations: urls_of(spec),
            backup_type: None,
            size_bytes: None,
        },
    }
}

/// Reports a backup that was only started: nothing is known of it yet.
pub fn started_report(cluster: &str, spec: &BackupSpec) -> (r: BackupReport)
    ensures
        reports_backup(cluster@, false, None, *spec, r),
{
    BackupReport {
        cluster: cluster.to_owned(),
        finished: false,
        label: None,
        destinations: urls_of(spec),
        backup_type: None,
        size_bytes: None,
    }
}

/// Whether a job is waited for: not where nobody is to wait, and then it is
/// started and left to itself.
pub fn waits_for_job(wait: u64) -> (r: bool)
    ensures
        r == (wait > 0),
{
    wait > 0
}

/// Where taking a backup stands.
#[derive(Debug, Clone, Copy, PartialEq, Eq, Structural)]
pub enum BackupStage {
    Start,
    /// Asking what the repository holds before.
    Before,
    Announcing,
    /// Starting the job, and not waiting for it.
    Starting,
    /// Running the job to its end.
    Running,
    Complaining,
    /// Asking what the repository holds after.
    After,
    Concluding,
    Ended,
}

/// What came of the last action.
#[derive(Debug, Clone)]
pub enum BackupEvent {
    Begin,
    Done,
    /// What the repository holds.
    Repository(Option<StanzaInfo>),
    /// The job ran, and pgBackRest failed.
    JobFailed(String),
    Failed(String),
}

/// What to do next.
#[derive(Debug, Clone)]
pub enum BackupAct {
    /// The event does not belong to this stage.
    Ignore,
    AskRepository,
    /// Log that a backup was started.
    LogStarted,
    /// Start the job, and leave it.
    StartJob,
    /// Start the job, and wait for its end.
    RunJob,
    /// Log that the backup failed.
    LogFailed,
    /// Log that the backup is complete.
    LogComplete,
    Report(BackupReport),
    Fail(String),
}

/// A backup being taken.
#[derive(Debug, Clone)]
pub struct TakeBackup {
    pub cluster: String,
    pub spec: BackupSpec,
    /// How long to wait for the job, in seconds; not at all where it is 0.
    pub wait: u64,
    /// What the repository held before.
    pub before: Option<StanzaInfo>,
    /// What it held after.
    pub after: Option<StanzaInfo>,
    /// Why the job failed.
    pub why: String,
    pub stage: BackupStage,
}

/// The backup that was made.
pub open spec fn made(t: TakeBackup) -> Option<Backup> {
    last_new(oldest_first(backups_of(t.after)), backups_of(t.before))
}

pub open spec fn nowhere_to_put(cluster: Seq<char>) -> Seq<char> {
    cluster + " has no spec.backup.destinations, so there is nowhere to put a backup"@
}

/// The backup ends without success.
pub open spec fn gives_up(a: TakeBackup, b: TakeBackup, act: BackupAct, why: Seq<char>) -> bool {
    &&& b == (TakeBackup { stage: BackupStage::Ended, ..a })
    &&& act matches BackupAct::Fail(m) && m@ == why
}

/// What follows an event. The repository is the record of what happened: it is
/// asked before the job and after it.
pub open spec fn backup_follows(
    a: TakeBackup,
    ev: BackupEvent,
    b: TakeBackup,
    act: BackupAct,
) -> bool {
    match (a.stage, ev) {
        (BackupStage::Start, BackupEvent::Begin) => if a.spec.destinations@.len() == 0 {
            gives_up(a, b, act, nowhere_to_put(a.cluster@))
        } else {
            b == (TakeBackup { stage: BackupStage::Before, ..a }) && act is AskRepository
        },
        (BackupStage::Before, BackupEvent::Repository(info)) => {
            &&& b == (TakeBackup { stage: BackupStage::Announcing, before: info, ..a })
            &&& act is LogStarted
        },
        (BackupStage::Announcing, BackupEvent::Done) => if a.wait == 0 {
            b == (TakeBackup { stage: BackupStage::Starting, ..a }) && act is StartJob
        } else {
            b == (TakeBackup { stage: BackupStage::Running, ..a }) && act is RunJob
        },
        (BackupStage::Starting, BackupEvent::Done) => {
            &&& b == (TakeBackup { stage: BackupStage::Ended, ..a })
            &&& act matches BackupAct::Report(r) && reports_backup(
                a.cluster@,
                false,
                None,
                a.spec,
                r,
            )
        },
        (BackupStage::Running, BackupEvent::Done) => {
            b == (TakeBackup { stage: BackupStage::After, ..a }) && act is AskRepository
        },
        (BackupStage::Running, BackupEvent::JobFailed(why)) => {
            b == (TakeBackup { stage: BackupStage::Complaining, why, ..a }) && act is LogFailed
        },
        (BackupStage::Complaining, BackupEvent::Done) => gives_up(a, b, act, a.why@),
        (BackupStage::After, BackupEvent::Repository(info)) => {
            &&& b == (TakeBackup { stage: BackupStage::Concluding, after: info, ..a })
            &&& act is LogComplete
        },
        (BackupStage::Concluding, BackupEvent::Done) => {
            &&& b == (TakeBackup { stage: BackupStage::Ended, ..a })
            &&& act matches BackupAct::Report(r) && reports_backup(
                a.cluster@,
                true,
                made(a),
                a.spec,
                r,
            )
        },
        (BackupStage::Start, BackupEvent::Failed(_)) => b == a && act is Ignore,
        (BackupStage::Ended, BackupEvent::Failed(_)) => b == a && act is Ignore,
        (_, BackupEvent::Failed(e)) => gives_up(a, b, act, e@),
        _ => b == a && act is Ignore,
    }
}

impl TakeBackup {
    /// A backup that has not begun.
    pub fn new(cluster: &str, spec: BackupSpec, wait: u64) -> (r: Self)
        ensures
            r.cluster@ == cluster@,
            r.spec == spec,
            r.wait == wait,
            r.stage == BackupStage::Start,
    {
        TakeBackup {
            cluster: cluster.to_owned(),
            spec,
            wait,
            before: None,
            after: None,
            why: String::new(),
            stage: BackupStage::Start,
        }
    }

    /// Takes in what came of the last action, and says what to do next.
    pub fn step(&mut self, ev: BackupEvent) -> (act: BackupAct)
        ensures
            backup_follows(*old(self), ev, *final(self), act),
    {
        match (self.stage, ev) {
            (BackupStage::Start, BackupEvent::Begin) => {
                match refuse_backup(self.cluster.as_str(), self.spec.destinations.len() > 0) {
                    Some(m) => {
                        self.stage = BackupStage::Ended;
                        BackupAct::Fail(m)
                    },
                    None => {
                        self.stage = BackupStage::Before;
                        BackupAct::AskRepository
                    },
                }
            },
            (BackupStage::Before, BackupEvent::Repository(info)) => {
                self.before = info;
                self.stage = BackupStage::Announcing;
                BackupAct::LogStarted
            },
            (BackupStage::Announcing, BackupEvent::Done) => {
                if waits_for_job(self.wait) {
                    self.stage = BackupStage::Running;
                    BackupAct::RunJob
                } else {
                    self.stage = BackupStage::Starting;
                    BackupAct::StartJob
                }
            },
            (BackupStage::Starting, BackupEvent::Done) => {
                self.stage = BackupStage::Ended;
                BackupAct::Report(started_report(self.cluster.as_str(), &self.spec))
            },
            (BackupStage::Running, BackupEvent::Done) => {
                self.stage = BackupStage::After;
                BackupAct::AskRepository
            },
            (BackupStage::Running, BackupEvent::JobFailed(why)) => {
                self.why = why;
                self.stage = BackupStage::Complaining;
                BackupAct::LogFailed
            },
            (BackupStage::Complaining, BackupEvent::Done) => {
                self.stage = BackupStage::Ended;
                BackupAct::Fail(self.why.clone())
            },
            (BackupStage::After, BackupEvent::Repository(info)) => {
                self.after = info;
                self.stage = BackupStage::Concluding;
                BackupAct::LogComplete
            },
            (BackupStage::Concluding, BackupEvent::Done) => {
                let new = new_backup(&self.before, &self.after);
                self.stage = BackupStage::Ended;
                BackupAct::Report(backup_report(self.cluster.as_str(), &new, &self.spec))
            },
            (BackupStage::Start, BackupEvent::Failed(_)) => BackupAct::Ignore,
            (BackupStage::Ended, BackupEvent::Failed(_)) => BackupAct::Ignore,
            (_, BackupEvent::Failed(e)) => {
                self.stage = BackupStage::Ended;
                BackupAct::Fail(e)
            },
            _ => BackupAct::Ignore,
        }
    }
}

/// A backup from its start: each step follows from the one before.
pub open spec fn is_backup_run(
    states: Seq<TakeBackup>,
    evs: Seq<BackupEvent>,
    acts: Seq<BackupAct>,
) -> bool {
    &&& states.len() == evs.len() + 1
    &&& acts.len() == evs.len()
    &&& states[0].stage == BackupStage::Start
    &&& forall|i: int|
        0 <= i < evs.len() ==> backup_follows(
            #[trigger] states[i],
            evs[i],
            states[i + 1],
            acts[i],
        )
}

/// Where nobody is to wait, a backup succeeds as soon as its job is started:
/// the repository is asked, the start is logged, the job is started, and that
/// is the report.
pub proof fn an_unawaited_backup_only_starts(
    states: Seq<TakeBackup>,
    evs: Seq<BackupEvent>,
    acts: Seq<BackupAct>,
)
    requires
        is_backup_run(states, evs, acts),
        evs.len() == 4,
        states[0].wait == 0,
        states[0].spec.destinations@.len() > 0,
        evs[0] is Begin,
        evs[1] is Repository,
        evs[2] is Done,
        evs[3] is Done,
    ensures
        acts[0] is AskRepository,
        acts[1] is LogStarted,
        acts[2] is StartJob,
        acts[3] matches BackupAct::Report(r) && reports_backup(
            states[0].cluster@,
            false,
            None,
            states[0].spec,
            r,
        ),
{
    assert(backup_follows(states[0], evs[0], states[1], acts[0]));
    assert(backup_follows(states[1], evs[1], states[2], acts[1]));
    assert(backup_follows(states[2], evs[2], states[3], acts[2]));
    assert(backup_follows(states[3], evs[3], states[4], acts[3]));
}

/// Where somebody waits, what is reported is what the repository holds after
/// the job and did not hold before it.
pub proof fn an_awaited_backup_is_what_the_repository_says(
    states: Seq<TakeBackup>,
    evs: Seq<BackupEvent>,
    acts: Seq<BackupAct>,
    before: Option<StanzaInfo>,
    after: Option<StanzaInfo>,
)
    requires
        is_backup_run(states, evs, acts),
        evs.len() == 6,
        states[0].wait > 0,
        states[0].spec.destinations@.len() > 0,
        evs[0] is Begin,
        evs[1] == BackupEvent::Repository(before),
        evs[2] is Done,
        evs[3] is Done,
        evs[4] == BackupEvent::Repository(after),
        evs[5] is Done,
    ensures
        acts[0] is AskRepository,
        acts[1] is LogStarted,
        acts[2] is RunJob,
        acts[3] is AskRepository,
        acts[4] is LogComplete,
        acts[5] matches BackupAct::Report(r) && reports_backup(
            states[0].cluster@,
            true,
            last_new(oldest_first(backups_of(after)), backups_of(before)),
            states[0].spec,
            r,
        ),
{
    assert(backup_follows(states[0], evs[0], states[1], acts[0]));
    assert(backup_follows(states[1], evs[1], states[2], acts[1]));
    assert(backup_follows(states[2], evs[2], states[3], acts[2]));
    assert(backup_follows(states[3], evs[3], states[4], acts[3]));
    assert(backup_follows(states[4], evs[4], states[5], acts[4]));
    assert(backup_follows(states[5], evs[5], states[6], acts[5]));
}

// ---- restoring one ---------------------------------------------------

pub open spec fn over_itself(source: Seq<char>) -> Seq<char> {
    source + " cannot be restored over itself — give --as a new cluster name"@
}

pub open spec fn target_exists(target: Seq<char>) -> Seq<char> {
    target + " already exists — delete it first, or pick another --as name"@
}

pub open spec fn nothing_to_restore(source: Seq<char>) -> Seq<char> {
    source + " has no spec.backup.destinations, so there is nothing to restore from"@
}

/// Why a restore is refused before the repository is asked.
pub open spec fn restore_refusal(
    source: Seq<char>,
    target: Seq<char>,
    exists: bool,
    enabled: bool,
) -> Option<Seq<char>> {
    if source == target {
        Some(over_itself(source))
    } else if exists {
        Some(target_exists(target))
    } else if !enabled {
        Some(nothing_to_restore(source))
    } else {
        None
    }
}

/// Why a restore is refused before the repository is asked: it would go over
/// its source, or over another cluster, or there is nothing to restore.
pub fn refuse_restore(source: &str, target: &str, exists: bool, enabled: bool) -> (r: Option<String>)
    ensures
        opt_text(r) == restore_refusal(source@, target@, exists, enabled),
{
    if same(source, target) {
        let mut m = source.to_owned();
        m.append(" cannot be restored over itself — give --as a new cluster name");
        return Some(m);
    }
    if exists {
        let mut m = target.to_owned();
        m.append(" already exists — delete it first, or pick another --as name");
        return Some(m);
    }
    if !enabled {
        let mut m = source.to_owned();
        m.append(" has no spec.backup.destinations, so there is nothing to restore from");
        return Some(m);
    }
    None
}

/// A backup and when it ended.
pub open spec fn backup_line(b: Backup, ended: Moment) -> Seq<char> {
    b.label@ + " (ended "@ + displayed(ended.secs, ended.nanos) + ")"@
}

pub open spec fn backup_lines(sorted: Seq<Backup>, ended: Seq<Moment>) -> Seq<Seq<char>> {
    Seq::new(sorted.len(), |i: int| backup_line(sorted[i], ended[i]))
}

/// What is said where no backup serves a target: which backups there are.
pub open spec fn none_serves(source: Seq<char>, sorted: Seq<Backup>, ended: Seq<Moment>) -> Seq<
    char,
> {
    "no backup of "@ + source + " finished at or before this target.\nBackups: "@ + (
    if sorted.len() == 0 {
        "none — take one with `pgpod backup`"@
    } else {
        joined(backup_lines(sorted, ended), ", "@)
    }) + "\nA target earlier than the oldest backup cannot be reached."@
}

/// Chooses the backup for a target, given when each ended.
pub fn choose_backup(
    source: &str,
    sorted: &Vec<Backup>,
    ended: &Vec<Moment>,
    at: Option<Moment>,
) -> (r: Result<Backup, String>)
    requires
        ended.len() == sorted.len(),
        forall|i: int| 0 <= i < ended.len() ==> representable(#[trigger] ended@[i]),
    ensures
        match (last_ended_by(sorted@, ended@, at), r) {
            (Some(b), Ok(c)) => b == c,
            (None, Err(m)) => m@ == none_serves(source@, sorted@, ended@),
            _ => false,
        },
{
    match choose_ended_by(sorted, ended, at) {
        Some(b) => Ok(b),
        None => {
            let mut m = "no backup of ".to_owned();
            m.append(source);
            m.append(" finished at or before this target.\nBackups: ");
            if sorted.len() == 0 {
                m.append("none — take one with `pgpod backup`");
            } else {
                let mut parts: Vec<String> = Vec::new();
                let ghost want = backup_lines(sorted@, ended@);
                let mut i: usize = 0;
                assert(texts(parts@) =~= want.take(0));
                while i < sorted.len()
                    invariant
                        i <= sorted.len(),
                        ended.len() == sorted.len(),
                        forall|k: int|
                            0 <= k < ended.len() ==> representable(#[trigger] ended@[k]),
                        want == backup_lines(sorted@, ended@),
                        texts(parts@) == want.take(i as int),
                    decreases sorted.len() - i,
                {
                    let mut s = sorted[i].label.clone();
                    s.append(" (ended ");
                    assert(representable(ended@[i as int]));
                    s.append(display_utc(ended[i]).as_str());
                    s.append(")");
                    push_text(&mut parts, s);
                    assert(texts(parts@) =~= want.take(i + 1));
                    i = i + 1;
                }
                assert(want.take(want.len() as int) =~= want);
                m.append(join(&parts, ", ").as_str());
            }
            m.append("\nA target earlier than the oldest backup cannot be reached.");
            Err(m)
        },
    }
}

/// What finding a backup for a restore gives, given when each ended.
pub open spec fn finds(
    source: Seq<char>,
    info: Option<StanzaInfo>,
    at: Option<Moment>,
    ended: Seq<Moment>,
    r: Result<Backup, String>,
) -> bool {
    match info {
        None => r matches Err(m) && m@ == source + " has no pgbackrest repository yet"@,
        Some(i) => match last_ended_by(oldest_first(i.backup@), ended, at) {
            Some(b) => r == Ok::<Backup, String>(b),
            None => r matches Err(m) && m@ == none_serves(source, oldest_first(i.backup@), ended),
        },
    }
}

/// Finds the backup a restore starts from.
pub fn find_backup(source: &str, info: &Option<StanzaInfo>, at: Option<Moment>) -> (r: Result<
    Backup,
    String,
>)
    ensures
        exists|ended: Seq<Moment>| #[trigger]
            ends_of(oldest_first(backups_of(*info)), ended) && finds(
                source@,
                *info,
                at,
                ended,
                r,
            ),
{
    match info {
        None => {
            let mut m = source.to_owned();
            m.append(" has no pgbackrest repository yet");
            let ghost none = Seq::<Moment>::empty();
            assert(ends_of(oldest_first(backups_of(*info)), none));
            Err(m)
        },
        Some(i) => {
            let sorted = i.backups_oldest_first();
            let ended = ended_times(&sorted);
            assert(ends_of(oldest_first(backups_of(*info)), ended@));
            choose_backup(source, &sorted, &ended, at)
        },
    }
}

pub open spec fn wrong_version(
    label: Seq<char>,
    version: Seq<char>,
    image: Seq<char>,
    image_version: Seq<char>,
) -> Seq<char> {
    "backup "@ + label + " was taken by PostgreSQL "@ + version + ", and "@ + image
        + " is PostgreSQL "@ + image_version
        + ". A data directory cannot be opened by another major version: restore it with --image and a PostgreSQL "@
        + version + " image."@
}

/// Why a backup is not restored onto an image: it was taken by another major
/// version, as far as that is known.
pub open spec fn other_version(
    label: Seq<char>,
    version: Option<Seq<char>>,
    image: Seq<char>,
    image_version: Seq<char>,
) -> Option<Seq<char>> {
    match version {
        None => None,
        Some(v) => if v == image_version {
            None
        } else {
            Some(wrong_version(label, v, image, image_version))
        },
    }
}

/// Refuses to restore a backup onto an image of another major version than
/// took it: a repository holds the backups of every version a cluster had.
pub fn refuse_other_version(
    label: &str,
    version: Option<&str>,
    image: &str,
    image_version: &str,
) -> (r: Option<String>)
    ensures
        opt_text(r) == other_version(label@, opt_str(version), image@, image_version@),
{
    match version {
        None => None,
        Some(v) => {
            if same(v, image_version) {
                return None;
            }
            let mut m = "backup ".to_owned();
            m.append(label);
            m.append(" was taken by PostgreSQL ");
            m.append(v);
            m.append(", and ");
            m.append(image);
            m.append(" is PostgreSQL ");
            m.append(image_version);
            m.append(
                ". A data directory cannot be opened by another major version: restore it with --image and a PostgreSQL ",
            );
            m.append(v);
            m.append(" image.");
            Some(m)
        },
    }
}

/// How an instance is restored.
#[derive(Debug, Clone)]
pub struct RecoveryBootstrap {
    pub source_stanza: String,
    pub backup_label: Option<String>,
    pub target_time: Option<String>,
}

/// An instant in RFC 3339, where there is one.
pub open spec fn time_text(at: Option<Moment>) -> Option<Seq<char>> {
    match at {
        Some(m) => Some(rfc3339(m.secs, m.nanos)),
        None => None,
    }
}

fn time_of(at: Option<Moment>) -> (r: Option<String>)
    requires
        at matches Some(m) ==> representable(m),
    ensures
        opt_text(r) == time_text(at),
{
    match at {
        Some(m) => Some(to_rfc3339(m)),
        None => None,
    }
}

/// How an instance is restored: from the source's stanza, from the chosen
/// backup, up to the target.
pub fn recovery(source: &str, chosen: &Backup, at: Option<Moment>) -> (r: RecoveryBootstrap)
    requires
        at matches Some(m) ==> representable(m),
    ensures
        r.source_stanza@ == source@,
        opt_text(r.backup_label) == Some(chosen.label@),
        opt_text(r.target_time) == time_text(at),
{
    RecoveryBootstrap {
        source_stanza: source.to_owned(),
        backup_label: Some(chosen.label.clone()),
        target_time: time_of(at),
    }
}

/// Reports a restore.
pub fn restore_report(
    source: &str,
    target: &str,
    chosen: &Backup,
    at: Option<Moment>,
    instances: Vec<InstanceSummary>,
) -> (r: RestoreReport)
    requires
        at matches Some(m) ==> representable(m),
    ensures
        r.source_cluster@ == source@,
        r.target_cluster@ == target@,
        r.backup_label@ == chosen.label@,
        opt_text(r.target_time) == time_text(at),
        r.instances == instances,
{
    RestoreReport {
        source_cluster: source.to_owned(),
        target_cluster: target.to_owned(),
        backup_label: chosen.label.clone(),
        target_time: time_of(at),
        instances,
    }
}

/// The restored cluster's manifest: the source's under its own name, and on
/// another image where one is asked for.
pub fn restored_manifest(m: ClusterManifest, target: &str, image: Option<&str>) -> (r:
    ClusterManifest)
    ensures
        r.name@ == target@,
        r.image_name@ == match opt_str(image) {
            Some(i) => i,
            None => m.image_name@,
        },
        r.instances == m.instances,
        r.postgres_uid == m.postgres_uid,
        r.postgres_gid == m.postgres_gid,
        r.initdb == m.initdb,
        r.parameters == m.parameters,
        r.shared_preload_libraries == m.shared_preload_libraries,
        r.backup == m.backup,
        r.storage_size == m.storage_size,
{
    let mut r = m;
    r.name = target.to_owned();
    if let Some(i) = image {
        r.image_name = i.to_owned();
    }
    r
}

/// The agent, where it is installed.
pub fn agent_binary(path: String, installed: bool) -> (r: Result<String, Error>)
    ensures
        match r {
            Ok(p) => installed && p == path,
            Err(e) => !installed && e@ == ErrorView::AgentMissing(path@),
        },
{
    if installed {
        Ok(path)
    } else {
        Err(Error::AgentMissing(path))
    }
}

/// A restore never starts over its own source: the refusal comes first,
/// whatever else holds.
pub proof fn a_cluster_is_not_restored_over_itself(
    source: Seq<char>,
    exists: bool,
    enabled: bool,
)
    ensures
        restore_refusal(source, source, exists, enabled) == Some(over_itself(source)),
{
}

/// A backup that was there before is never reported as the new one.
pub proof fn a_new_backup_is_new(sorted: Seq<Backup>, before: Seq<Backup>)
    ensures
        last_new(sorted, before) matches Some(b) ==> !labelled(before, b.label@) && sorted.contains(
            b,
        ),
        last_new(sorted, before) is None ==> forall|i: int|
            0 <= i < sorted.len() ==> labelled(before, (#[trigger] sorted[i]).label@),
    decreases sorted.len(),
{
    if sorted.len() > 0 {
        let rest = sorted.drop_last();
        a_new_backup_is_new(rest, before);
        if !labelled(before, sorted.last().label@) {
            assert(sorted[sorted.len() - 1] == sorted.last());
        } else {
            match last_new(rest, before) {
                Some(b) => {
                    let k = choose|k: int| 0 <= k < rest.len() && rest[k] == b;
                    assert(sorted[k] == b);
                },
                None => {
                    assert forall|i: int| 0 <= i < sorted.len() implies labelled(
                        before,
                        (#[trigger] sorted[i]).label@,
                    ) by {
                        if i < rest.len() {
                            assert(rest[i] == sorted[i]);
                        }
                    }
                },
            }
        }
    }
}

// ---- what each decision rests on -------------------------------------

/// The document in a job's output is its first line that starts with a
/// bracket, white space aside.
pub proof fn the_document_starts_with_a_bracket(ls: Seq<Seq<char>>, i: int)
    requires
        0 <= i <= ls.len(),
        forall|k: int|
            0 <= k < i ==> trimmed(#[trigger] ls[k]).len() == 0 || trimmed(ls[k])[0] != '[',
        i < ls.len() ==> trimmed(ls[i]).len() > 0 && trimmed(ls[i])[0] == '[',
    ensures
        i < ls.len() ==> document_in(ls) == Some(trimmed(ls[i])),
        i == ls.len() ==> document_in(ls) is None,
    decreases ls.len(),
{
    reveal_strlit("[");
    if ls.len() > 0 {
        let l = trimmed(ls[0]);
        what_it_begins_with(l, "["@);
        if l.len() > 0 {
            assert(l.take(1)[0] == l[0]);
            if l[0] == '[' {
                assert(l.take(1) =~= "["@);
            }
        }
        if i > 0 {
            let rest = ls.subrange(1, ls.len() as int);
            assert(l.len() == 0 || l[0] != '[');
            assert forall|k: int| 0 <= k < i - 1 implies trimmed(#[trigger] rest[k]).len() == 0
                || trimmed(rest[k])[0] != '[' by {
                assert(rest[k] == ls[k + 1]);
            }
            if i < ls.len() {
                assert(rest[i - 1] == ls[i]);
            }
            the_document_starts_with_a_bracket(rest, i - 1);
        }
    }
}

/// The backup a job made is the last of those the repository did not hold
/// before.
pub proof fn the_last_new_backup_is_reported(sorted: Seq<Backup>, before: Seq<Backup>, i: int)
    requires
        0 <= i < sorted.len(),
        forall|k: int| 0 <= k < before.len() ==> (#[trigger] before[k]).label@ != sorted[i].label@,
        forall|j: int|
            i < j < sorted.len() ==> exists|k: int|
                0 <= k < before.len() && (#[trigger] before[k]).label@ == (
                #[trigger] sorted[j]).label@,
    ensures
        last_new(sorted, before) == Some(sorted[i]),
    decreases sorted.len(),
{
    if i < sorted.len() - 1 {
        let rest = sorted.drop_last();
        let last = sorted[sorted.len() - 1];
        let k = choose|k: int| 0 <= k < before.len() && (#[trigger] before[k]).label@ == last.label@;
        assert(before[k].label@ == last.label@);
        assert(labelled(before, last.label@));
        assert forall|j: int| i < j < rest.len() implies exists|k: int|
            0 <= k < before.len() && (#[trigger] before[k]).label@ == (#[trigger] rest[j]).label@ by {
            assert(rest[j] == sorted[j]);
            let k = choose|k: int|
                0 <= k < before.len() && (#[trigger] before[k]).label@ == sorted[j].label@;
            assert(before[k].label@ == rest[j].label@);
        }
        the_last_new_backup_is_reported(rest, before, i);
    } else {
        assert(sorted.last() == sorted[i]);
        assert(!labelled(before, sorted[i].label@));
    }
}

/// What is reported of a backup is what the repository says of it, and where
/// the cluster keeps its backups.
pub proof fn a_backup_report_is_the_repositorys(
    cluster: Seq<char>,
    finished: bool,
    new: Option<Backup>,
    spec: BackupSpec,
    r: BackupReport,
)
    requires
        reports_backup(cluster, finished, new, spec, r),
    ensures
        r.cluster@ == cluster,
        r.finished == finished,
        new is None ==> r.label is None && r.backup_type is None && r.size_bytes is None,
        new matches Some(b) ==> opt_text(r.label) == Some(b.label@) && opt_text(r.backup_type)
            == Some(type_text(b.backup_type)) && r.size_bytes == Some(b.bytes()),
        r.destinations@.len() == spec.destinations@.len(),
        forall|i: int|
            0 <= i < spec.destinations@.len() ==> (#[trigger] r.destinations@[i])@
                == spec.destinations@[i].url@,
{
    let urls = spec.destinations@.map_values(|d: Destination| d.url@);
    assert(texts(r.destinations@).len() == r.destinations@.len());
    assert forall|i: int| 0 <= i < spec.destinations@.len() implies (
    #[trigger] r.destinations@[i])@ == spec.destinations@[i].url@ by {
        assert(texts(r.destinations@)[i] == urls[i]);
    }
}

/// What each event leads to while a backup is taken: the repository is asked
/// first, and what it held is kept; the job is run to its end exactly where
/// somebody waits; the repository is asked again; and a job that failed is
/// logged and told.
pub proof fn each_backup_event_decides(
    a: TakeBackup,
    ev: BackupEvent,
    b: TakeBackup,
    act: BackupAct,
)
    requires
        backup_follows(a, ev, b, act),
    ensures
        a.stage == BackupStage::Start && ev is Begin ==> {
            &&& a.spec.destinations@.len() > 0 ==> act is AskRepository && b.stage
                == BackupStage::Before
            &&& a.spec.destinations@.len() == 0 ==> act is Fail && b.stage == BackupStage::Ended
        },
        a.stage == BackupStage::Before ==> (ev matches BackupEvent::Repository(i) ==> b.before == i
            && act is LogStarted && b.stage == BackupStage::Announcing),
        a.stage == BackupStage::Announcing && ev is Done && a.wait > 0 ==> act is RunJob && b.stage
            == BackupStage::Running,
        a.stage == BackupStage::Announcing && ev is Done && a.wait == 0 ==> act is StartJob
            && b.stage == BackupStage::Starting,
        a.stage == BackupStage::Starting && ev is Done ==> b.stage == BackupStage::Ended && (
        act matches BackupAct::Report(r) && !r.finished && r.label is None && r.cluster@
            == a.cluster@),
        a.stage == BackupStage::Running && ev is Done ==> act is AskRepository && b.stage
            == BackupStage::After,
        a.stage == BackupStage::Running ==> (ev matches BackupEvent::JobFailed(w) ==> b.why == w
            && act is LogFailed && b.stage == BackupStage::Complaining),
        a.stage == BackupStage::Complaining && ev is Done ==> b.stage == BackupStage::Ended && (
        act matches BackupAct::Fail(m) && m@ == a.why@),
        a.stage == BackupStage::After ==> (ev matches BackupEvent::Repository(i) ==> b.after == i
            && act is LogComplete && b.stage == BackupStage::Concluding),
        a.stage == BackupStage::Concluding && ev is Done ==> b.stage == BackupStage::Ended && (
        act matches BackupAct::Report(r) && r.finished && r.cluster@ == a.cluster@),
        a.stage != BackupStage::Start && a.stage != BackupStage::Ended ==> (
        ev matches BackupEvent::Failed(e) ==> b.stage == BackupStage::Ended && (
        act matches BackupAct::Fail(m) && m@ == e@)),
        b.cluster == a.cluster && b.spec == a.spec && b.wait == a.wait,
{
}

/// A restore goes on exactly where its name is not its source's, is free, and
/// its source archives.
pub proof fn what_a_restore_needs(
    source: Seq<char>,
    target: Seq<char>,
    exists: bool,
    enabled: bool,
)
    ensures
        restore_refusal(source, target, exists, enabled) is None <==> source != target && !exists
            && enabled,
        restore_refusal(source, target, exists, enabled) matches Some(m) ==> occurs(m, source)
            || occurs(m, target),
{
    let none = Seq::<char>::empty();
    let a = " cannot be restored over itself — give --as a new cluster name"@;
    let b = " already exists — delete it first, or pick another --as name"@;
    let c = " has no spec.backup.destinations, so there is nothing to restore from"@;
    a_part_occurs(none, source, a);
    a_part_occurs(none, target, b);
    a_part_occurs(none, source, c);
    assert(over_itself(source) =~= none + source + a);
    assert(target_exists(target) =~= none + target + b);
    assert(nothing_to_restore(source) =~= none + source + c);
}

/// A backup is opened by the version that took it alone, where that is known.
pub proof fn a_backup_is_opened_by_its_version(
    label: Seq<char>,
    version: Option<Seq<char>>,
    image: Seq<char>,
    image_version: Seq<char>,
)
    ensures
        other_version(label, version, image, image_version) is None <==> version is None || version
            == Some(image_version),
        version matches Some(v) ==> v != image_version ==> (other_version(
            label,
            version,
            image,
            image_version,
        ) matches Some(m) && occurs(m, label) && occurs(m, v)),
{
    if let Some(v) = version {
        let m = wrong_version(label, v, image, image_version);
        let mid = " was taken by PostgreSQL "@;
        let end = ", and "@ + image + " is PostgreSQL "@ + image_version
            + ". A data directory cannot be opened by another major version: restore it with --image and a PostgreSQL "@
            + v + " image."@;
        a_part_occurs("backup "@, label, mid + v + end);
        assert(m =~= "backup "@ + label + (mid + v + end));
        a_part_occurs("backup "@ + label + mid, v, end);
        assert(m =~= "backup "@ + label + mid + v + end);
    }
}

/// Where no backup serves, each there is stands in the answer.
pub proof fn every_backup_is_named_where_none_serves(
    source: Seq<char>,
    sorted: Seq<Backup>,
    ended: Seq<Moment>,
    i: int,
)
    requires
        0 <= i < sorted.len(),
    ensures
        occurs(
            none_serves(source, sorted, ended),
            sorted[i].label@ + " (ended "@ + displayed(ended[i].secs, ended[i].nanos) + ")"@,
        ),
{
    let ls = backup_lines(sorted, ended);
    let all = joined(ls, ", "@);
    every_part_is_there(ls, ", "@, i);
    assert(ls[i] == backup_line(sorted[i], ended[i]));
    a_part_of_a_part_occurs(
        "no backup of "@ + source + " finished at or before this target.\nBackups: "@,
        all,
        "\nA target earlier than the oldest backup cannot be reached."@,
        ls[i],
    );
}

/// Recovery stops at a target exactly where one was asked for.
pub proof fn a_target_is_told_where_there_is_one(at: Option<Moment>)
    ensures
        at is None <==> time_text(at) is None,
        at matches Some(m) ==> time_text(at) == Some(rfc3339(m.secs, m.nanos)),
{
}

/// What is said of a cluster that has nowhere to put a backup.
pub proof fn what_is_said_without_a_destination(cluster: Seq<char>)
    ensures
        nowhere_to_put(cluster) == cluster
            + " has no spec.backup.destinations, so there is nowhere to put a backup"@,
{
}

// ---- what the functions give back ------------------------------------

/// A restored cluster's manifest is the source's under another name, and with
/// another image where one was asked for.
pub proof fn what_a_restored_manifest_keeps(
    m: ClusterManifest,
    target: &str,
    image: Option<&str>,
    r: ClusterManifest,
)
    requires
        call_ensures(restored_manifest, (m, target, image), r),
    ensures
        r.name@ == target@,
        image is None ==> r.image_name@ == m.image_name@,
        image matches Some(i) ==> r.image_name@ == i@,
        r.instances == m.instances,
        r.postgres_uid == m.postgres_uid,
        r.postgres_gid == m.postgres_gid,
        r.initdb == m.initdb,
        r.parameters == m.parameters,
        r.shared_preload_libraries == m.shared_preload_libraries,
        r.backup == m.backup,
        r.storage_size == m.storage_size,
{
}

/// A job succeeded exactly where it ended with zero, and its output is handed
/// on either way.
pub proof fn what_a_job_brought(
    args: Vec<String>,
    code: i64,
    logs: String,
    r: Result<String, Error>,
)
    requires
        call_ensures(job_outcome, (&args, code, logs), r),
    ensures
        r is Ok <==> code == 0,
        r matches Ok(l) ==> l@ == logs@,
        r matches Err(e) ==> e@ == (ErrorView::PgBackRest {
            command: joined(texts(args@), " "@),
            detail: logs@,
        }),
{
}

/// The agent is handed out exactly where it is installed, and a backup taken
/// exactly where there is somewhere to put it.
pub proof fn what_has_to_be_there(
    path: String,
    installed: bool,
    r: Result<String, Error>,
    cluster: &str,
    enabled: bool,
    b: Option<String>,
)
    requires
        call_ensures(agent_binary, (path, installed), r),
        call_ensures(refuse_backup, (cluster, enabled), b),
    ensures
        r is Ok <==> installed,
        r matches Ok(p) ==> p == path,
        r matches Err(e) ==> e@ == ErrorView::AgentMissing(path@),
        b is None <==> enabled,
{
}

} // verus!
