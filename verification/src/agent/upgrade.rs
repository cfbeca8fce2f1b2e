//! A major-version upgrade, as the agent runs it inside the new image.
//!
//! The old cluster is read, a new one is built beside it, and only when
//! `pg_upgrade` has succeeded do the two change places. Each step is decided
//! from what the one before it reported.

use crate::container::{PGDATA, PGDATA_OLD_PREFIX};
use crate::path::{join_path, joined_path};
use crate::text::{
    begins_with, debug_form, debug_quoted, decimal, decimal_of, drop_leading, in_list,
    lines, lines_of, opt_text, same, split_first, split_once, starts_with, strippable, texts,
    trim, trimmed, chars_of, a_number_reads_back, find_from, find_from_is_first, is_at, occurs,
    split_first_at, split_first_nowhere, what_it_begins_with,
};
use vstd::prelude::*;
use vstd::string::*;

verus! {

/// What the upgrade was planned as.
#[derive(Debug, Clone)]
pub struct UpgradePlan {
    pub from_version: String,
    pub to_version: String,
    pub method: String,
    /// Rehearse only.
    pub check: bool,
}

/// What the agent reports of an upgrade.
#[derive(Debug, Clone, PartialEq, Eq)]
pub struct UpgradeRunReport {
    pub from_version: String,
    pub to_version: String,
    pub method: String,
    /// Where the old cluster is kept; empty where it was not moved.
    pub old_data_dir: String,
    pub seconds: u64,
}

/// Where an upgrade stands.
#[derive(Debug, Clone, Copy, PartialEq, Eq, Structural)]
pub enum Stage {
    /// Nothing is known yet.
    Start,
    /// The volume is being looked at.
    Inspecting,
    /// The versions are being read.
    Comparing,
    /// The staged programs are being tried.
    Trying,
    /// The old cluster's control file is being read.
    Reading,
    /// The new cluster is being created.
    Building,
    /// `pg_upgrade` is running.
    Upgrading,
    /// The old cluster is being moved aside.
    MovingAside,
    /// The new cluster is being moved into place.
    Placing,
    /// Over.
    Ended,
}

/// What came of the last action.
#[derive(Debug, Clone)]
pub enum Event {
    Begin,
    /// Whether the data directory exists, and whether a complete cluster
    /// stands beside it.
    Volume { pgdata: bool, new_cluster: bool },
    /// The version of the data directory, and of the image.
    Versions { data: String, here: String },
    /// The staged `pg_ctl --version`: its exit, the version it named, and
    /// what it complained of.
    Tried { success: bool, status: String, label: Option<String>, stderr: String },
    /// What the staged `pg_controldata` wrote.
    Control(String),
    Initdb { success: bool, status: String },
    /// `pg_upgrade`'s exit, how long it took, and the time now in seconds.
    Upgraded { success: bool, status: String, seconds: u64, now: u64 },
    /// Whether a directory was moved.
    Moved(bool),
}

/// What to do next.
#[derive(Debug, Clone, PartialEq, Eq)]
pub enum Act {
    /// The event does not belong to this stage.
    Ignore,
    InspectVolume,
    /// Move the new cluster into place: an earlier swap was interrupted.
    CompleteSwap(UpgradeRunReport),
    ReadVersions,
    /// Write the wrapper scripts and run the staged `pg_ctl`.
    TryStaged,
    ReadControl,
    /// Clear an unfinished new cluster and create one, with checksums on or
    /// off as the old one has them.
    BuildNew { checksums: bool },
    RunUpgrade,
    /// Remove the trial cluster and report.
    DiscardTrial(UpgradeRunReport),
    /// Remove the new cluster and fail.
    DiscardAndFail(String),
    /// Move the old cluster to this directory.
    MoveAside(String),
    /// Move the new cluster into place.
    Place,
    /// Move the old cluster back from this directory, and fail.
    PutBack(String),
    /// Tidy up and report.
    Finish(UpgradeRunReport),
    Fail(String),
}

/// An upgrade under way.
#[derive(Debug, Clone)]
pub struct UpgradeRun {
    pub plan: UpgradePlan,
    pub stage: Stage,
    /// Where the old cluster is being moved.
    pub old_dir: String,
    /// How long `pg_upgrade` took.
    pub seconds: u64,
}

// ---- messages --------------------------------------------------------

pub open spec fn wrong_data(data: Seq<char>, from: Seq<char>) -> Seq<char> {
    "the cluster in the volume is PostgreSQL "@ + data + ", but the staged installation is "@
        + from + ". Nothing has been changed."@
}

pub open spec fn wrong_image(here: Seq<char>, to: Seq<char>) -> Seq<char> {
    "this image carries PostgreSQL "@ + here + ", but the upgrade was planned for "@ + to
        + ". Nothing has been changed."@
}

pub const INCOMPATIBLE: &'static str = "\nThis is the compatibility check, and it ran before anything was \
             changed — the cluster is untouched. It usually means the two \
             images do not share a libc (glibc and musl, say), or that the \
             new image's glibc is older than the old image's.";

pub open spec fn cannot_run(expected: Seq<char>, status: Seq<char>, stderr: Seq<char>) -> Seq<char> {
    "the staged PostgreSQL "@ + expected + " binaries cannot run in this image ("@ + status
        + "): "@ + stderr + INCOMPATIBLE@
}

/// How an optional string is written for debugging.
pub open spec fn debug_option(o: Option<Seq<char>>) -> Seq<char> {
    match o {
        Some(s) => "Some("@ + debug_form(s) + ")"@,
        None => "None"@,
    }
}

pub open spec fn wrong_staged(label: Option<Seq<char>>, expected: Seq<char>) -> Seq<char> {
    "the staged binaries report "@ + debug_option(label) + ", not the expected PostgreSQL "@
        + expected
}

pub const NEEDS_RECOVERY: &'static str = "), and pg_upgrade cannot read a cluster that still needs \
             recovery. Start the instance, let it finish recovery, and stop it \
             again.";

pub open spec fn not_clean(state: Seq<char>) -> Seq<char> {
    "the old cluster was not shut down cleanly (pg_controldata says "@ + debug_form(state)
        + NEEDS_RECOVERY@
}

pub open spec fn initdb_failed(status: Seq<char>) -> Seq<char> {
    "initdb for the new cluster failed with "@ + status
}

pub open spec fn upgrade_failed(status: Seq<char>) -> Seq<char> {
    "pg_upgrade failed with "@ + status + ". The cluster at "@ + PGDATA@
        + " is unchanged — its own output above says why."@
}

/// Where the old cluster is kept.
pub open spec fn kept_at(from: Seq<char>, now: u64) -> Seq<char> {
    PGDATA_OLD_PREFIX@ + from + "-"@ + decimal(now as nat)
}

// ---- pg_controldata --------------------------------------------------

/// What `pg_controldata` says, as far as it matters here.
#[derive(Debug, Clone, PartialEq, Eq)]
pub struct ControlData {
    pub state: String,
    pub cleanly_shut_down: bool,
    pub checksums: bool,
}

/// A line's value, where its key is `name`.
pub open spec fn value_of(line: Seq<char>, name: Seq<char>) -> Option<Seq<char>> {
    match split_first(line, ":"@) {
        Some((k, v)) => if trimmed(k) == name {
            Some(trimmed(v))
        } else {
            None
        },
        None => None,
    }
}

/// The value of the first line whose key is `name`.
pub open spec fn field_of(ls: Seq<Seq<char>>, name: Seq<char>) -> Option<Seq<char>>
    decreases ls.len(),
{
    if ls.len() == 0 {
        None
    } else {
        match value_of(ls[0], name) {
            Some(v) => Some(v),
            None => field_of(ls.subrange(1, ls.len() as int), name),
        }
    }
}

pub open spec fn state_of(text: Seq<char>) -> Seq<char> {
    match field_of(lines_of(text), "Database cluster state"@) {
        Some(s) => s,
        None => "unknown"@,
    }
}

/// The old cluster can be read without recovery.
pub open spec fn clean(text: Seq<char>) -> bool {
    begins_with(state_of(text), "shut down"@)
}

/// Checksums are on unless the control file says 0.
pub open spec fn has_checksums(text: Seq<char>) -> bool {
    field_of(lines_of(text), "Data page checksum version"@) != Some("0"@)
}

fn field(ls: &Vec<String>, name: &str) -> (r: Option<String>)
    ensures
        opt_text(r) == field_of(texts(ls@), name@),
{
    let ghost all = texts(ls@);
    let mut i: usize = 0;
    assert(all.subrange(0, all.len() as int) =~= all);
    while i < ls.len()
        invariant
            i <= ls.len(),
            all == texts(ls@),
            field_of(all, name@) == field_of(all.subrange(i as int, all.len() as int), name@),
        decreases ls.len() - i,
    {
        let ghost rest = all.subrange(i as int, all.len() as int);
        assert(rest[0] == ls@[i as int]@);
        assert(rest.subrange(1, rest.len() as int) =~= all.subrange(i + 1, all.len() as int));
        if let Some((k, v)) = split_once(ls[i].as_str(), ":") {
            if same(trim(k), name) {
                return Some(trim(v).to_owned());
            }
        }
        i = i + 1;
    }
    None
}

/// Reads what `pg_controldata` wrote.
pub fn read_control_data(text: &str) -> (r: ControlData)
    ensures
        r.state@ == state_of(text@),
        r.cleanly_shut_down == clean(text@),
        r.checksums == has_checksums(text@),
{
    let ls = lines(text);
    let state = match field(&ls, "Database cluster state") {
        Some(s) => s,
        None => "unknown".to_owned(),
    };
    let checksums = match field(&ls, "Data page checksum version") {
        Some(v) => !same(v.as_str(), "0"),
        None => true,
    };
    let cleanly_shut_down = starts_with(state.as_str(), "shut down");
    ControlData { state, cleanly_shut_down, checksums }
}

// ---- steps -----------------------------------------------------------

impl UpgradePlan {
    /// What is reported with these particulars.
    pub open spec fn reports(
        &self,
        r: UpgradeRunReport,
        old_data_dir: Seq<char>,
        seconds: u64,
    ) -> bool {
        &&& r.from_version@ == self.from_version@
        &&& r.to_version@ == self.to_version@
        &&& r.method@ == self.method@
        &&& r.old_data_dir@ == old_data_dir
        &&& r.seconds == seconds
    }

    fn report(&self, old_data_dir: &str, seconds: u64) -> (r: UpgradeRunReport)
        ensures
            self.reports(r, old_data_dir@, seconds),
    {
        UpgradeRunReport {
            from_version: self.from_version.clone(),
            to_version: self.to_version.clone(),
            method: self.method.clone(),
            old_data_dir: old_data_dir.to_owned(),
            seconds,
        }
    }
}

pub open spec fn fails(act: Act, message: Seq<char>) -> bool {
    act matches Act::Fail(m) && m@ == message
}

/// The staged programs run here and are the version they should be.
pub open spec fn staged_ok(success: bool, label: Option<String>, expected: Seq<char>) -> bool {
    success && opt_text(label) == Some(expected)
}

/// The event is the one the stage waits for.
pub open spec fn expected(stage: Stage, ev: Event) -> bool {
    match stage {
        Stage::Start => ev is Begin,
        Stage::Inspecting => ev is Volume,
        Stage::Comparing => ev is Versions,
        Stage::Trying => ev is Tried,
        Stage::Reading => ev is Control,
        Stage::Building => ev is Initdb,
        Stage::Upgrading => ev is Upgraded,
        Stage::MovingAside => ev is Moved,
        Stage::Placing => ev is Moved,
        Stage::Ended => false,
    }
}

/// What follows an event: the stage, and what to do.
pub open spec fn follows(s: UpgradeRun, ev: Event, next: Stage, act: Act) -> bool {
    let plan = s.plan;
    if !expected(s.stage, ev) {
        act is Ignore && next == s.stage
    } else {
        match ev {
            Event::Begin => act is InspectVolume && next == Stage::Inspecting,
            Event::Volume { pgdata, new_cluster } => if !pgdata && new_cluster {
                act matches Act::CompleteSwap(r) && plan.reports(r, ""@, 0) && next == Stage::Ended
            } else {
                act is ReadVersions && next == Stage::Comparing
            },
            Event::Versions { data, here } => if data@ != plan.from_version@ {
                fails(act, wrong_data(data@, plan.from_version@)) && next == Stage::Ended
            } else if here@ != plan.to_version@ {
                fails(act, wrong_image(here@, plan.to_version@)) && next == Stage::Ended
            } else {
                act is TryStaged && next == Stage::Trying
            },
            Event::Tried { success, status, label, stderr } => if staged_ok(
                success,
                label,
                plan.from_version@,
            ) {
                act is ReadControl && next == Stage::Reading
            } else {
                &&& next == Stage::Ended
                &&& fails(
                    act,
                    if success {
                        wrong_staged(opt_text(label), plan.from_version@)
                    } else {
                        cannot_run(plan.from_version@, status@, stderr@)
                    },
                )
            },
            Event::Control(text) => if clean(text@) {
                act == (Act::BuildNew { checksums: has_checksums(text@) }) && next
                    == Stage::Building
            } else {
                fails(act, not_clean(state_of(text@))) && next == Stage::Ended
            },
            Event::Initdb { success, status } => if success {
                act is RunUpgrade && next == Stage::Upgrading
            } else {
                fails(act, initdb_failed(status@)) && next == Stage::Ended
            },
            Event::Upgraded { success, status, seconds, now } => if !success {
                &&& act matches Act::DiscardAndFail(m) && m@ == upgrade_failed(status@)
                &&& next == Stage::Ended
            } else if plan.check {
                &&& act matches Act::DiscardTrial(r) && plan.reports(r, ""@, seconds)
                &&& next == Stage::Ended
            } else {
                &&& act matches Act::MoveAside(d) && d@ == kept_at(plan.from_version@, now)
                &&& next == Stage::MovingAside
            },
            Event::Moved(ok) => if s.stage == Stage::MovingAside {
                if ok {
                    act is Place && next == Stage::Placing
                } else {
                    &&& fails(act, "failed to move the old cluster aside to "@ + s.old_dir@)
                    &&& next == Stage::Ended
                }
            } else if ok {
                &&& act matches Act::Finish(r) && plan.reports(r, s.old_dir@, s.seconds)
                &&& next == Stage::Ended
            } else {
                &&& act matches Act::PutBack(d) && d@ == s.old_dir@
                &&& next == Stage::Ended
            },
        }
    }
}

/// What is remembered for later steps.
pub open spec fn remembered(s: UpgradeRun, ev: Event, t: UpgradeRun) -> bool {
    &&& t.plan == s.plan
    &&& match (s.stage, ev) {
        (Stage::Upgrading, Event::Upgraded { success: true, status: _, seconds, now }) => {
            if s.plan.check {
                t.old_dir@ == s.old_dir@ && t.seconds == s.seconds
            } else {
                t.old_dir@ == kept_at(s.plan.from_version@, now) && t.seconds == seconds
            }
        },
        _ => t.old_dir@ == s.old_dir@ && t.seconds == s.seconds,
    }
}

impl UpgradeRun {
    /// An upgrade that has not begun.
    pub fn new(plan: UpgradePlan) -> (r: Self)
        ensures
            r.plan == plan,
            r.stage == Stage::Start,
            r.old_dir@ == Seq::<char>::empty(),
            r.seconds == 0,
    {
        UpgradeRun { plan, stage: Stage::Start, old_dir: String::new(), seconds: 0 }
    }

    /// Takes in what came of the last action, and says what to do next.
    pub fn step(&mut self, ev: &Event) -> (act: Act)
        ensures
            follows(*old(self), *ev, final(self).stage, act),
            remembered(*old(self), *ev, *final(self)),
    {
        let stage = self.stage;
        match (stage, ev) {
            (Stage::Start, Event::Begin) => {
                self.stage = Stage::Inspecting;
                Act::InspectVolume
            },
            (Stage::Inspecting, Event::Volume { pgdata, new_cluster }) => {
                if !*pgdata && *new_cluster {
                    self.stage = Stage::Ended;
                    Act::CompleteSwap(self.plan.report("", 0))
                } else {
                    self.stage = Stage::Comparing;
                    Act::ReadVersions
                }
            },
            (Stage::Comparing, Event::Versions { data, here }) => {
                if !same(data.as_str(), self.plan.from_version.as_str()) {
                    self.stage = Stage::Ended;
                    let mut m = "the cluster in the volume is PostgreSQL ".to_owned();
                    m.append(data.as_str());
                    m.append(", but the staged installation is ");
                    m.append(self.plan.from_version.as_str());
                    m.append(". Nothing has been changed.");
                    Act::Fail(m)
                } else if !same(here.as_str(), self.plan.to_version.as_str()) {
                    self.stage = Stage::Ended;
                    let mut m = "this image carries PostgreSQL ".to_owned();
                    m.append(here.as_str());
                    m.append(", but the upgrade was planned for ");
                    m.append(self.plan.to_version.as_str());
                    m.append(". Nothing has been changed.");
                    Act::Fail(m)
                } else {
                    self.stage = Stage::Trying;
                    Act::TryStaged
                }
            },
            (Stage::Trying, Event::Tried { success, status, label, stderr }) => {
                match verify_staged_binaries(
                    self.plan.from_version.as_str(),
                    *success,
                    status.as_str(),
                    label,
                    stderr.as_str(),
                ) {
                    None => {
                        self.stage = Stage::Reading;
                        Act::ReadControl
                    },
                    Some(m) => {
                        self.stage = Stage::Ended;
                        Act::Fail(m)
                    },
                }
            },
            (Stage::Reading, Event::Control(text)) => {
                let control = read_control_data(text.as_str());
                if control.cleanly_shut_down {
                    self.stage = Stage::Building;
                    Act::BuildNew { checksums: control.checksums }
                } else {
                    self.stage = Stage::Ended;
                    let mut m = "the old cluster was not shut down cleanly (pg_controldata says ".to_owned();
                    m.append(debug_quoted(control.state.as_str()).as_str());
                    m.append(NEEDS_RECOVERY);
                    Act::Fail(m)
                }
            },
            (Stage::Building, Event::Initdb { success, status }) => {
                if *success {
                    self.stage = Stage::Upgrading;
                    Act::RunUpgrade
                } else {
                    self.stage = Stage::Ended;
                    let mut m = "initdb for the new cluster failed with ".to_owned();
                    m.append(status.as_str());
                    Act::Fail(m)
                }
            },
            (Stage::Upgrading, Event::Upgraded { success, status, seconds, now }) => {
                if !*success {
                    self.stage = Stage::Ended;
                    let mut m = "pg_upgrade failed with ".to_owned();
                    m.append(status.as_str());
                    m.append(". The cluster at ");
                    m.append(PGDATA);
                    m.append(" is unchanged — its own output above says why.");
                    Act::DiscardAndFail(m)
                } else if self.plan.check {
                    self.stage = Stage::Ended;
                    Act::DiscardTrial(self.plan.report("", *seconds))
                } else {
                    self.stage = Stage::MovingAside;
                    let mut d = PGDATA_OLD_PREFIX.to_owned();
                    d.append(self.plan.from_version.as_str());
                    d.append("-");
                    d.append(decimal_of(*now).as_str());
                    self.old_dir = d.clone();
                    self.seconds = *seconds;
                    Act::MoveAside(d)
                }
            },
            (Stage::MovingAside, Event::Moved(ok)) => {
                if *ok {
                    self.stage = Stage::Placing;
                    Act::Place
                } else {
                    self.stage = Stage::Ended;
                    let mut m = "failed to move the old cluster aside to ".to_owned();
                    m.append(self.old_dir.as_str());
                    Act::Fail(m)
                }
            },
            (Stage::Placing, Event::Moved(ok)) => {
                self.stage = Stage::Ended;
                if *ok {
                    Act::Finish(self.plan.report(self.old_dir.as_str(), self.seconds))
                } else {
                    Act::PutBack(self.old_dir.clone())
                }
            },
            _ => Act::Ignore,
        }
    }
}

/// Why the staged programs cannot be used: they do not run here, or are not
/// the version they should be. None where they can.
pub fn verify_staged_binaries(
    expected: &str,
    success: bool,
    status: &str,
    label: &Option<String>,
    stderr: &str,
) -> (r: Option<String>)
    ensures
        opt_text(r) == (if staged_ok(success, *label, expected@) {
            None
        } else if success {
            Some(wrong_staged(opt_text(*label), expected@))
        } else {
            Some(cannot_run(expected@, status@, stderr@))
        }),
{
    if !success {
        let mut m = "the staged PostgreSQL ".to_owned();
        m.append(expected);
        m.append(" binaries cannot run in this image (");
        m.append(status);
        m.append("): ");
        m.append(stderr);
        m.append(INCOMPATIBLE);
        return Some(m);
    }
    if let Some(v) = label {
        if same(v.as_str(), expected) {
            return None;
        }
    }
    let mut m = "the staged binaries report ".to_owned();
    let said = match label {
        Some(v) => {
            let mut s = "Some(".to_owned();
            s.append(debug_quoted(v.as_str()).as_str());
            s.append(")");
            s
        },
        None => "None".to_owned(),
    };
    m.append(said.as_str());
    m.append(", not the expected PostgreSQL ");
    m.append(expected);
    Some(m)
}

// ---- what holds of every upgrade -------------------------------------

/// The old cluster is moved only after `pg_upgrade` succeeded, and never in a
/// rehearsal.
pub proof fn data_moves_only_after_success(s: UpgradeRun, ev: Event, next: Stage, act: Act)
    requires
        follows(s, ev, next, act),
        act is MoveAside,
    ensures
        s.stage == Stage::Upgrading,
        ev matches Event::Upgraded { success, .. } && success,
        !s.plan.check,
{
}

/// A swap that fails half way is undone: where the new cluster cannot be put
/// in place, the old one goes back to where it was.
pub proof fn a_failed_swap_is_undone(s: UpgradeRun, ev: Event, next: Stage, act: Act)
    requires
        follows(s, ev, next, act),
        s.stage == Stage::Placing,
        ev == Event::Moved(false),
    ensures
        act matches Act::PutBack(d) && d@ == s.old_dir@,
{
}

/// Whatever happens, an upgrade that has ended does nothing more.
pub proof fn the_end_is_the_end(s: UpgradeRun, ev: Event, next: Stage, act: Act)
    requires
        follows(s, ev, next, act),
        s.stage == Stage::Ended,
    ensures
        act is Ignore,
        next == Stage::Ended,
{
}

/// A run from the start: each step follows from the one before.
pub open spec fn is_run(states: Seq<UpgradeRun>, evs: Seq<Event>, acts: Seq<Act>) -> bool {
    &&& states.len() == evs.len() + 1
    &&& acts.len() == evs.len()
    &&& states[0].stage == Stage::Start
    &&& forall|i: int|
        0 <= i < evs.len() ==> follows(
            #[trigger] states[i],
            evs[i],
            states[i + 1].stage,
            acts[i],
        ) && remembered(states[i], evs[i], states[i + 1])
}

/// The data and the image are the versions that were planned for.
pub open spec fn versions_fit(plan: UpgradePlan, ev: Event) -> bool {
    ev matches Event::Versions { data, here } && data@ == plan.from_version@ && here@
        == plan.to_version@
}

/// The staged programs run in this image.
pub open spec fn staged_fits(plan: UpgradePlan, ev: Event) -> bool {
    ev matches Event::Tried { success, label, .. } && staged_ok(success, label, plan.from_version@)
}

/// The old cluster was shut down cleanly.
pub open spec fn shut_down(ev: Event) -> bool {
    ev matches Event::Control(text) && clean(text@)
}

/// The stages that lie behind the first refusal, the second and the third.
pub open spec fn depth(stage: Stage) -> int {
    match stage {
        Stage::Trying => 1,
        Stage::Reading => 2,
        Stage::Building => 3,
        Stage::Upgrading => 3,
        Stage::MovingAside => 3,
        Stage::Placing => 3,
        _ => 0,
    }
}

/// What every run has seen by its step `n`.
proof fn along_the_way(states: Seq<UpgradeRun>, evs: Seq<Event>, acts: Seq<Act>, n: int)
    requires
        is_run(states, evs, acts),
        0 <= n <= evs.len(),
    ensures
        states[n].plan == states[0].plan,
        depth(states[n].stage) >= 1 ==> exists|i: int|
            0 <= i < n && versions_fit(states[0].plan, #[trigger] evs[i]),
        depth(states[n].stage) >= 2 ==> exists|i: int|
            0 <= i < n && staged_fits(states[0].plan, #[trigger] evs[i]),
        depth(states[n].stage) >= 3 ==> exists|i: int| 0 <= i < n && shut_down(#[trigger] evs[i]),
        states[n].stage == Stage::MovingAside || states[n].stage == Stage::Placing ==> !states[
            0].plan.check,
    decreases n,
{
    if n > 0 {
        let m = n - 1;
        along_the_way(states, evs, acts, m);
        assert(follows(states[m], evs[m], states[m + 1].stage, acts[m]));
        assert(remembered(states[m], evs[m], states[m + 1]));
        if versions_fit(states[0].plan, evs[m]) || staged_fits(states[0].plan, evs[m]) || shut_down(
            evs[m],
        ) {
            assert(0 <= m < n);
        }
    }
}

/// How far along a stage is.
pub open spec fn rank(stage: Stage) -> int {
    match stage {
        Stage::Start => 0,
        Stage::Inspecting => 1,
        Stage::Comparing => 2,
        Stage::Trying => 3,
        Stage::Reading => 4,
        Stage::Building => 5,
        Stage::Upgrading => 6,
        Stage::MovingAside => 7,
        Stage::Placing => 8,
        Stage::Ended => 9,
    }
}

/// A run never goes back.
proof fn only_forwards(states: Seq<UpgradeRun>, evs: Seq<Event>, acts: Seq<Act>, i: int, n: int)
    requires
        is_run(states, evs, acts),
        0 <= i <= n <= evs.len(),
    ensures
        rank(states[i].stage) <= rank(states[n].stage),
    decreases n - i,
{
    if i < n {
        only_forwards(states, evs, acts, i, n - 1);
        assert(follows(states[n - 1], evs[n - 1], states[n - 1 + 1].stage, acts[n - 1]));
    }
}

/// The act leaves the volume as it is.
pub open spec fn only_looks(act: Act) -> bool {
    act is Ignore || act is InspectVolume || act is ReadVersions || act is TryStaged
        || act is ReadControl
}

/// An upgrade that is refused has only looked: for another version in the
/// volume, another one in the image, staged programs that do not run, or a
/// cluster that was not shut down, nothing was built or moved before.
pub proof fn a_refusal_has_only_looked(
    states: Seq<UpgradeRun>,
    evs: Seq<Event>,
    acts: Seq<Act>,
    n: int,
    i: int,
)
    requires
        is_run(states, evs, acts),
        0 <= i < n < evs.len(),
        acts[n] is Fail,
        evs[n] is Versions || evs[n] is Tried || evs[n] is Control,
    ensures
        only_looks(acts[i]),
{
    assert(follows(states[n], evs[n], states[n + 1].stage, acts[n]));
    assert(follows(states[i], evs[i], states[i + 1].stage, acts[i]));
    only_forwards(states, evs, acts, i + 1, n);
}

/// The data directory is touched only after every check: the versions are
/// those planned for, the staged programs run, and the old cluster was shut
/// down cleanly. A rehearsal never touches it.
pub proof fn every_check_comes_before_the_move(
    states: Seq<UpgradeRun>,
    evs: Seq<Event>,
    acts: Seq<Act>,
    n: int,
)
    requires
        is_run(states, evs, acts),
        0 <= n < evs.len(),
        acts[n] is MoveAside || acts[n] is Place || acts[n] is PutBack,
    ensures
        exists|i: int| 0 <= i < n && versions_fit(states[0].plan, #[trigger] evs[i]),
        exists|i: int| 0 <= i < n && staged_fits(states[0].plan, #[trigger] evs[i]),
        exists|i: int| 0 <= i < n && shut_down(#[trigger] evs[i]),
        !states[0].plan.check,
{
    along_the_way(states, evs, acts, n);
    assert(follows(states[n], evs[n], states[n + 1].stage, acts[n]));
}

/// A line has its first colon at `c`.
pub open spec fn colon_at(line: Seq<char>, c: int) -> bool {
    0 <= c < line.len() && line[c] == ':' && forall|k: int| 0 <= k < c ==> line[k] != ':'
}

/// What stands before a line's first colon is `key`, with white space round it.
pub open spec fn keyed(line: Seq<char>, c: int, key: Seq<char>) -> bool {
    colon_at(line, c) && trimmed(line.take(c)) == key
}

/// Line `i` is the first with this key, which ends at its colon at `c`.
pub open spec fn first_keyed(ls: Seq<Seq<char>>, i: int, c: int, key: Seq<char>) -> bool {
    &&& 0 <= i < ls.len()
    &&& keyed(ls[i], c, key)
    &&& forall|j: int, d: int| 0 <= j < i ==> !#[trigger] keyed(ls[j], d, key)
}

/// What stands behind the colon at `c`, without white space round it.
pub open spec fn behind(line: Seq<char>, c: int) -> Seq<char> {
    trimmed(line.subrange(c + 1, line.len() as int))
}

proof fn value_by_its_colon(line: Seq<char>, name: Seq<char>)
    ensures
        forall|c: int| #[trigger]
            keyed(line, c, name) ==> value_of(line, name) == Some(behind(line, c)),
        (forall|c: int| !#[trigger] keyed(line, c, name)) ==> value_of(line, name) is None,
{
    reveal_strlit(":");
    let pat = ":"@;
    find_from_is_first(line, pat, 0);
    assert forall|k: int| 0 <= k < line.len() implies #[trigger] is_at(line, pat, k) == (line[k]
        == ':') by {
        assert(line.subrange(k, k + 1)[0] == line[k]);
        if line[k] == ':' {
            assert(line.subrange(k, k + 1) =~= pat);
        }
    }
    assert forall|c: int| #[trigger] keyed(line, c, name) implies value_of(line, name) == Some(
        behind(line, c),
    ) by {
        assert(is_at(line, pat, c));
        assert(forall|k: int| 0 <= k < c ==> !#[trigger] is_at(line, pat, k));
        split_first_at(line, pat, c);
        assert(line.take(c) =~= line.subrange(0, c));
    }
    if value_of(line, name) is Some {
        let c = find_from(line, pat, 0)->0;
        assert(forall|k: int| 0 <= k < c ==> !is_at(line, pat, k));
        assert forall|k: int| 0 <= k < c implies line[k] != ':' by {
            assert(!is_at(line, pat, k));
        }
        assert(line.take(c) =~= line.subrange(0, c));
        assert(keyed(line, c, name));
    }
}

proof fn field_by_its_line(ls: Seq<Seq<char>>, name: Seq<char>)
    ensures
        forall|i: int, c: int| #[trigger]
            first_keyed(ls, i, c, name) ==> field_of(ls, name) == Some(behind(ls[i], c)),
        (forall|i: int, c: int| 0 <= i < ls.len() ==> !#[trigger] keyed(ls[i], c, name))
            ==> field_of(ls, name) is None,
    decreases ls.len(),
{
    if ls.len() > 0 {
        let rest = ls.subrange(1, ls.len() as int);
        field_by_its_line(rest, name);
        value_by_its_colon(ls[0], name);
        assert forall|i: int, c: int| #[trigger] first_keyed(ls, i, c, name) implies field_of(
            ls,
            name,
        ) == Some(behind(ls[i], c)) by {
            if i > 0 {
                assert(forall|d: int| !keyed(ls[0], d, name));
                assert(rest[i - 1] == ls[i]);
                assert forall|j: int, d: int| 0 <= j < i - 1 implies !#[trigger] keyed(
                    rest[j],
                    d,
                    name,
                ) by {
                    assert(rest[j] == ls[j + 1]);
                    assert(!keyed(ls[j + 1], d, name));
                }
                assert(first_keyed(rest, i - 1, c, name));
            }
        }
        if forall|i: int, c: int| 0 <= i < ls.len() ==> !#[trigger] keyed(ls[i], c, name) {
            assert(forall|d: int| !keyed(ls[0], d, name));
            assert forall|i: int, c: int| 0 <= i < rest.len() implies !#[trigger] keyed(
                rest[i],
                c,
                name,
            ) by {
                assert(rest[i] == ls[i + 1]);
                assert(!keyed(ls[i + 1], c, name));
            }
        }
    }
}

/// The new cluster has checksums exactly where the old one has: `pg_upgrade`
/// refuses a pair that differs. The old one has none where the first line
/// keyed `Data page checksum version` says 0; with any other value, as with
/// the 1 that every cluster is created with, it has.
pub proof fn checksums_are_carried_over(
    s: UpgradeRun,
    text: String,
    next: Stage,
    act: Act,
    i: int,
    c: int,
)
    requires
        s.stage == Stage::Reading,
        follows(s, Event::Control(text), next, act),
        act is BuildNew,
        first_keyed(lines_of(text@), i, c, "Data page checksum version"@),
    ensures
        behind(lines_of(text@)[i], c) == "0"@ ==> act == (Act::BuildNew { checksums: false }),
        behind(lines_of(text@)[i], c) != "0"@ ==> act == (Act::BuildNew { checksums: true }),
        behind(lines_of(text@)[i], c) == "1"@ ==> act == (Act::BuildNew { checksums: true }),
{
    field_by_its_line(lines_of(text@), "Data page checksum version"@);
    reveal_strlit("0");
    reveal_strlit("1");
    assert("0"@[0] != "1"@[0]);
}

/// Where the control file says nothing of checksums, the new cluster has them.
pub proof fn checksums_are_on_by_default(s: UpgradeRun, text: String, next: Stage, act: Act)
    requires
        s.stage == Stage::Reading,
        follows(s, Event::Control(text), next, act),
        act is BuildNew,
        forall|i: int, c: int|
            0 <= i < lines_of(text@).len() ==> !#[trigger] keyed(
                lines_of(text@)[i],
                c,
                "Data page checksum version"@,
            ),
    ensures
        act == (Act::BuildNew { checksums: true }),
{
    field_by_its_line(lines_of(text@), "Data page checksum version"@);
}

/// A new cluster is built exactly where the first line keyed `Database cluster
/// state` has a value that starts with `shut down`; any other old cluster
/// still needs recovery, and the upgrade fails and says in what state it is.
pub proof fn only_a_stopped_cluster_is_upgraded(
    s: UpgradeRun,
    text: String,
    next: Stage,
    act: Act,
    i: int,
    c: int,
)
    requires
        s.stage == Stage::Reading,
        follows(s, Event::Control(text), next, act),
        first_keyed(lines_of(text@), i, c, "Database cluster state"@),
    ensures
        ({
            let state = behind(lines_of(text@)[i], c);
            if state.len() >= 9 && state.take(9) == "shut down"@ {
                act is BuildNew && next == Stage::Building
            } else {
                next == Stage::Ended && (act matches Act::Fail(m) && occurs(m@, debug_form(state)))
            }
        }),
{
    field_by_its_line(lines_of(text@), "Database cluster state"@);
    let state = behind(lines_of(text@)[i], c);
    reveal_strlit("shut down");
    what_it_begins_with(state, "shut down"@);
    if act is Fail {
        let a = "the old cluster was not shut down cleanly (pg_controldata says "@;
        assert(act->Fail_0@ == a + debug_form(state) + NEEDS_RECOVERY@);
        split_first_nowhere(act->Fail_0@, debug_form(state));
    }
}

/// A control file that does not say in what state the cluster is stops the
/// upgrade.
pub proof fn an_unknown_state_is_refused(s: UpgradeRun, text: String, next: Stage, act: Act)
    requires
        s.stage == Stage::Reading,
        follows(s, Event::Control(text), next, act),
        forall|i: int, c: int|
            0 <= i < lines_of(text@).len() ==> !#[trigger] keyed(
                lines_of(text@)[i],
                c,
                "Database cluster state"@,
            ),
    ensures
        act is Fail,
        next == Stage::Ended,
{
    field_by_its_line(lines_of(text@), "Database cluster state"@);
    reveal_strlit("shut down");
    reveal_strlit("unknown");
    what_it_begins_with("unknown"@, "shut down"@);
}

/// What each report leads to. The versions must be those planned for, in the
/// volume and in the image; the staged programs must run, and be the old
/// version; a cluster that was built is upgraded.
pub proof fn each_check_decides(s: UpgradeRun, ev: Event, next: Stage, act: Act)
    requires
        follows(s, ev, next, act),
    ensures
        s.stage == Stage::Start && ev is Begin ==> act is InspectVolume && next
            == Stage::Inspecting,
        s.stage == Stage::Inspecting ==> (ev matches Event::Volume { pgdata, new_cluster } ==> {
            &&& (act is CompleteSwap && next == Stage::Ended) == (!pgdata && new_cluster)
            &&& (act is ReadVersions && next == Stage::Comparing) == (pgdata || !new_cluster)
        }),
        s.stage == Stage::Comparing ==> (ev matches Event::Versions { data, here } ==> {
            &&& (act is TryStaged && next == Stage::Trying) == (data@ == s.plan.from_version@
                && here@ == s.plan.to_version@)
            &&& (act is Fail && next == Stage::Ended) == (data@ != s.plan.from_version@ || here@
                != s.plan.to_version@)
        }),
        s.stage == Stage::Trying ==> (ev matches Event::Tried { success, label, .. } ==> {
            let fits = success && (label matches Some(l) && l@ == s.plan.from_version@);
            &&& (act is ReadControl && next == Stage::Reading) == fits
            &&& (act is Fail && next == Stage::Ended) == !fits
        }),
        s.stage == Stage::Building ==> (ev matches Event::Initdb { success, .. } ==> {
            &&& (act is RunUpgrade && next == Stage::Upgrading) == success
            &&& (act is Fail && next == Stage::Ended) == !success
        }),
        s.stage == Stage::Upgrading ==> (ev matches Event::Upgraded { success, .. } ==> {
            &&& (act is DiscardAndFail && next == Stage::Ended) == !success
            &&& (act is DiscardTrial && next == Stage::Ended) == (success && s.plan.check)
            &&& (act is MoveAside && next == Stage::MovingAside) == (success && !s.plan.check)
        }),
        s.stage == Stage::MovingAside ==> (ev matches Event::Moved(ok) ==> {
            &&& (act is Place && next == Stage::Placing) == ok
            &&& (act is Fail && next == Stage::Ended) == !ok
        }),
        s.stage == Stage::Placing ==> (ev matches Event::Moved(ok) ==> {
            &&& (act is Finish && next == Stage::Ended) == ok
            &&& (act is PutBack && next == Stage::Ended) == !ok
        }),
{
}

/// A report tells what was planned; the one of a finished upgrade tells where
/// the old cluster went and how long `pg_upgrade` took, and the others that
/// it was not moved.
pub proof fn a_report_tells_what_was_done(
    s: UpgradeRun,
    ev: Event,
    t: UpgradeRun,
    act: Act,
)
    requires
        follows(s, ev, t.stage, act),
        remembered(s, ev, t),
    ensures
        act matches Act::Finish(r) ==> r.from_version@ == s.plan.from_version@ && r.to_version@
            == s.plan.to_version@ && r.method@ == s.plan.method@ && r.old_data_dir@ == s.old_dir@
            && r.seconds == s.seconds,
        act matches Act::DiscardTrial(r) ==> r.from_version@ == s.plan.from_version@
            && r.to_version@ == s.plan.to_version@ && r.method@ == s.plan.method@
            && r.old_data_dir@.len() == 0 && (ev matches Event::Upgraded { seconds, .. }
            && r.seconds == seconds),
        act matches Act::CompleteSwap(r) ==> r.from_version@ == s.plan.from_version@
            && r.to_version@ == s.plan.to_version@ && r.method@ == s.plan.method@
            && r.old_data_dir@.len() == 0 && r.seconds == 0,
        act matches Act::MoveAside(d) ==> t.old_dir@ == d@ && (ev matches Event::Upgraded {
            seconds,
            ..
        } && t.seconds == seconds),
        act matches Act::PutBack(d) ==> d@ == s.old_dir@,
        !(act is MoveAside) ==> t.old_dir@ == s.old_dir@ && t.seconds == s.seconds,
        t.plan == s.plan,
{
    reveal_strlit("");
}

/// Where the old cluster is kept says which version it is and when it was
/// moved: two upgrades at different times never share a directory, and none
/// is the data directory itself.
pub proof fn every_old_cluster_has_its_own_place(from: Seq<char>, a: u64, b: u64)
    ensures
        kept_at(from, a) == kept_at(from, b) ==> a == b,
        begins_with(kept_at(from, a), PGDATA_OLD_PREFIX@ + from + "-"@),
        kept_at(from, a) != PGDATA@,
{
    let head = PGDATA_OLD_PREFIX@ + from + "-"@;
    a_number_reads_back(a as nat, a as nat);
    a_number_reads_back(b as nat, b as nat);
    let x = kept_at(from, a);
    let y = kept_at(from, b);
    assert(x.subrange(head.len() as int, x.len() as int) =~= decimal(a as nat));
    assert(y.subrange(head.len() as int, y.len() as int) =~= decimal(b as nat));
    assert(x.take(head.len() as int) =~= head);
    what_it_begins_with(x, head);
    reveal_strlit("/pgdata/pgdata");
    reveal_strlit("/pgdata/pgdata-old-");
    reveal_strlit("-");
    assert(x.len() > PGDATA@.len());
}

// ---- staging ---------------------------------------------------------

/// A staged file keeps the whole of its own path below the root, and the
/// directories that programs look in are those of the staged libraries, each
/// once, and PostgreSQL's own.
pub proof fn staging_leaves_no_library_out(root: Seq<char>, parents: Seq<Seq<char>>)
    ensures
        forall|i: int|
            0 <= i < parents.len() ==> parent_dirs(root, parents).contains(
                mirror(root, #[trigger] parents[i]),
            ),
        forall|i: int, j: int|
            0 <= i < j < parent_dirs(root, parents).len() ==> parent_dirs(root, parents)[i]
                != parent_dirs(root, parents)[j],
        forall|d: Seq<char>| #[trigger]
            parent_dirs(root, parents).contains(d) ==> exists|i: int|
                0 <= i < parents.len() && d == mirror(root, #[trigger] parents[i]),
    decreases parents.len(),
{
    if parents.len() > 0 {
        let before = parents.drop_last();
        staging_leaves_no_library_out(root, before);
        let b = parent_dirs(root, before);
        let all = parent_dirs(root, parents);
        let d = mirror(root, parents.last());
        if !b.contains(d) {
            assert(all[b.len() as int] == d);
        }
        assert(all.contains(d));
        assert forall|i: int| 0 <= i < parents.len() implies all.contains(
            mirror(root, #[trigger] parents[i]),
        ) by {
            if i < parents.len() - 1 {
                assert(before[i] == parents[i]);
                let k = choose|k: int| 0 <= k < b.len() && b[k] == mirror(root, before[i]);
                assert(all[k] == b[k]);
            }
        }
        assert forall|e: Seq<char>| #[trigger] all.contains(e) implies exists|i: int|
            0 <= i < parents.len() && e == mirror(root, #[trigger] parents[i]) by {
            let k = choose|k: int| 0 <= k < all.len() && all[k] == e;
            if k < b.len() {
                assert(b.contains(e));
                let i = choose|i: int|
                    0 <= i < before.len() && e == mirror(root, #[trigger] before[i]);
                assert(parents[i] == before[i]);
            } else {
                assert(e == mirror(root, parents[parents.len() - 1]));
            }
        }
    }
}

/// A staged file stands below the root under its own absolute path.
pub proof fn staging_keeps_the_path(root: Seq<char>, rest: Seq<char>)
    requires
        root.len() > 0,
        root.last() != '/',
        rest.len() > 0,
        rest[0] != '/',
    ensures
        mirror(root, seq!['/'] + rest) == root + seq!['/'] + rest,
        mirror(root, rest) == root + seq!['/'] + rest,
{
    let p = strippable(Some('/'));
    let whole = seq!['/'] + rest;
    assert(p('/') && !p(rest[0]));
    assert(whole.subrange(1, whole.len() as int) =~= rest);
    assert(drop_leading(whole, p) == drop_leading(rest, p));
    assert(drop_leading(rest, p) == rest);
    assert(root.push('/') + rest =~= root + seq!['/'] + rest);
}

/// The JIT's bitcode is the one directory that is not staged, and its own
/// libraries the only ones whose dependencies are not.
pub proof fn only_the_jit_is_left_out(name: Seq<char>)
    ensures
        skipped_dir(name) <==> name == "bitcode"@,
        unfollowed(name) <==> name.len() >= 7 && name.take(7) == "llvmjit"@,
{
    reveal_strlit("llvmjit");
    what_it_begins_with(name, "llvmjit"@);
}

/// A wrapper sets the library path to the one it was given, and then runs the
/// program it was given, with the arguments it was called with.
pub proof fn a_wrapper_runs_its_program(library_path: Seq<char>, program: Seq<char>)
    ensures
        begins_with(
            wrapper_text(library_path, program),
            "#!/bin/sh\n# Written by pgpod-agent for a major-version upgrade (ADR 06 §3).\nLD_LIBRARY_PATH='"@
                + library_path + "'\nexport LD_LIBRARY_PATH\nexec '"@ + program + "' \"$@\"\n"@,
        ),
{
    let w = wrapper_text(library_path, program);
    assert(w.take(w.len() as int) =~= w);
    what_it_begins_with(w, w);
}

/// A path below `root` that spells out the whole of `source`.
pub open spec fn mirror(root: Seq<char>, source: Seq<char>) -> Seq<char> {
    joined_path(root, drop_leading(source, strippable(Some('/'))))
}

/// Where a file is staged: below `root`, under its own absolute path.
pub fn mirrored(root: &str, source: &str) -> (r: String)
    ensures
        r@ == mirror(root@, source@),
{
    let v = chars_of(source);
    let n: usize = v.len();
    let mut a: usize = 0;
    assert(source@.subrange(0, n as int) =~= source@);
    while a < n && v[a] == '/'
        invariant
            v@ == source@,
            n == v.len(),
            a <= n,
            drop_leading(source@, strippable(Some('/'))) == drop_leading(
                source@.subrange(a as int, n as int),
                strippable(Some('/')),
            ),
        decreases n - a,
    {
        assert(source@.subrange(a as int, n as int).subrange(1, n - a) =~= source@.subrange(
            a + 1,
            n as int,
        ));
        a = a + 1;
    }
    join_path(root, source.substring_char(a, n))
}

/// Directories that are not staged: bitcode is read by the JIT alone, which
/// an upgrade turns off.
pub open spec fn skipped_dir(name: Seq<char>) -> bool {
    name == "bitcode"@
}

/// Whether an entry is left out of a staged tree.
pub fn skips_dir(name: &str) -> (r: bool)
    ensures
        r == skipped_dir(name@),
{
    same(name, "bitcode")
}

/// Files whose dependencies are not followed: the JIT's.
pub open spec fn unfollowed(name: Seq<char>) -> bool {
    begins_with(name, "llvmjit"@)
}

/// Whether a file's dependencies are left out.
pub fn skips_dependencies(name: &str) -> (r: bool)
    ensures
        r == unfollowed(name@),
{
    starts_with(name, "llvmjit")
}

pub open spec fn wrong_stage_image(version: Seq<char>, data: Seq<char>) -> Seq<char> {
    "this image carries PostgreSQL "@ + version + ", but the cluster in the volume is "@ + data
        + ". The staging image must be the one the cluster is running — upgrade from the image it is on."@
}

/// Why an installation cannot be staged from this image: it is not the
/// version of the cluster in the volume.
pub fn refuse_stage(version: &str, data_version: &str) -> (r: Option<String>)
    ensures
        opt_text(r) == (if version@ == data_version@ {
            None
        } else {
            Some(wrong_stage_image(version@, data_version@))
        }),
{
    if same(version, data_version) {
        return None;
    }
    let mut m = "this image carries PostgreSQL ".to_owned();
    m.append(version);
    m.append(", but the cluster in the volume is ");
    m.append(data_version);
    m.append(
        ". The staging image must be the one the cluster is running — upgrade from the image it is on.",
    );
    Some(m)
}

/// What was staged.
#[derive(Debug, Clone, PartialEq, Eq)]
pub struct StageReport {
    pub version: String,
    pub bindir: String,
    pub sharedir: String,
    pub pkglibdir: String,
    pub lib_dirs: Vec<String>,
    pub files: usize,
    pub bytes: u64,
}

/// Some directories under the root, each once, where it first occurs.
pub open spec fn parent_dirs(root: Seq<char>, parents: Seq<Seq<char>>) -> Seq<Seq<char>>
    decreases parents.len(),
{
    if parents.len() == 0 {
        Seq::empty()
    } else {
        let before = parent_dirs(root, parents.drop_last());
        let d = mirror(root, parents.last());
        if before.contains(d) {
            before
        } else {
            before.push(d)
        }
    }
}

/// The directories in which the staged programs find their libraries: each
/// staged library's, once, then PostgreSQL's own.
pub fn library_dirs(root: &str, parents: &Vec<String>, pkglibdir: &str) -> (r: Vec<String>)
    ensures
        texts(r@) == parent_dirs(root@, texts(parents@)).push(mirror(root@, pkglibdir@)),
{
    let mut out: Vec<String> = Vec::new();
    let ghost all = texts(parents@);
    let mut i: usize = 0;
    assert(texts(out@) =~= parent_dirs(root@, all.take(0)));
    while i < parents.len()
        invariant
            i <= parents.len(),
            all == texts(parents@),
            texts(out@) == parent_dirs(root@, all.take(i as int)),
        decreases parents.len() - i,
    {
        assert(all.take(i + 1).drop_last() =~= all.take(i as int));
        assert(all.take(i + 1).last() == parents@[i as int]@);
        let d = mirrored(root, parents[i].as_str());
        let ghost before = texts(out@);
        if !in_list(&out, d.as_str()) {
            let ghost added = d@;
            out.push(d);
            assert(texts(out@) =~= before.push(added));
        }
        i = i + 1;
    }
    assert(all.take(i as int) =~= all);
    let last = mirrored(root, pkglibdir);
    let ghost before = texts(out@);
    let ghost added = last@;
    out.push(last);
    assert(texts(out@) =~= before.push(added));
    out
}

/// Reports what was staged, under its staged paths.
pub fn stage_report(
    root: &str,
    version: &str,
    bindir: &str,
    sharedir: &str,
    pkglibdir: &str,
    parents: &Vec<String>,
    files: usize,
    bytes: u64,
) -> (r: StageReport)
    ensures
        r.version@ == version@,
        r.bindir@ == mirror(root@, bindir@),
        r.sharedir@ == mirror(root@, sharedir@),
        r.pkglibdir@ == mirror(root@, pkglibdir@),
        texts(r.lib_dirs@) == parent_dirs(root@, texts(parents@)).push(mirror(root@, pkglibdir@)),
        r.files == files,
        r.bytes == bytes,
{
    StageReport {
        version: version.to_owned(),
        bindir: mirrored(root, bindir),
        sharedir: mirrored(root, sharedir),
        pkglibdir: mirrored(root, pkglibdir),
        lib_dirs: library_dirs(root, parents, pkglibdir),
        files,
        bytes,
    }
}

/// What a wrapper script says.
pub open spec fn wrapper_text(library_path: Seq<char>, program: Seq<char>) -> Seq<char> {
    "#!/bin/sh\n# Written by pgpod-agent for a major-version upgrade (ADR 06 §3).\nLD_LIBRARY_PATH='"@
        + library_path + "'\nexport LD_LIBRARY_PATH\nexec '"@ + program + "' \"$@\"\n"@
}

/// A script that runs a staged program with its own libraries.
pub fn wrapper_script(library_path: &str, program: &str) -> (r: String)
    ensures
        r@ == wrapper_text(library_path@, program@),
{
    let mut s =
        "#!/bin/sh\n# Written by pgpod-agent for a major-version upgrade (ADR 06 §3).\nLD_LIBRARY_PATH='".to_owned();
    s.append(library_path);
    s.append("'\nexport LD_LIBRARY_PATH\nexec '");
    s.append(program);
    s.append("' \"$@\"\n");
    s
}

/// Why there are no wrapper scripts: the staged directory held no program.
pub fn refuse_wrappers(count: usize, staged: &str) -> (r: Option<String>)
    ensures
        opt_text(r) == (if count > 0 {
            None
        } else {
            Some(
                "the staged bin directory "@ + staged@
                    + " is empty — the staging step did not produce an installation"@,
            )
        }),
{
    if count > 0 {
        return None;
    }
    let mut m = "the staged bin directory ".to_owned();
    m.append(staged);
    m.append(" is empty — the staging step did not produce an installation");
    Some(m)
}

/// Whether a directory is a complete cluster, given the files that exist: a
/// half-built one has no control file.
pub fn is_cluster(dir: &str, files: &Vec<String>) -> (r: bool)
    ensures
        r == (texts(files@).contains(joined_path(dir@, "PG_VERSION"@)) && texts(files@).contains(
            joined_path(dir@, "global/pg_control"@),
        )),
{
    in_list(files, join_path(dir, "PG_VERSION").as_str()) && in_list(
        files,
        join_path(dir, "global/pg_control").as_str(),
    )
}

/// What is said where an upgrade is refused: each version as what it is, and
/// that nothing has been changed.
pub proof fn what_is_said_of_a_refused_upgrade(
    data: Seq<char>,
    from: Seq<char>,
    to: Seq<char>,
    status: Seq<char>,
    stderr: Seq<char>,
    label: Option<Seq<char>>,
)
    ensures
        wrong_data(data, from) == "the cluster in the volume is PostgreSQL "@ + data
            + ", but the staged installation is "@ + from + ". Nothing has been changed."@,
        wrong_image(data, to) == "this image carries PostgreSQL "@ + data
            + ", but the upgrade was planned for "@ + to + ". Nothing has been changed."@,
        wrong_stage_image(from, data) == "this image carries PostgreSQL "@ + from
            + ", but the cluster in the volume is "@ + data
            + ". The staging image must be the one the cluster is running — upgrade from the image it is on."@,
        cannot_run(from, status, stderr) == "the staged PostgreSQL "@ + from
            + " binaries cannot run in this image ("@ + status + "): "@ + stderr + INCOMPATIBLE@,
        wrong_staged(label, from) == "the staged binaries report "@ + debug_option(label)
            + ", not the expected PostgreSQL "@ + from,
        not_clean(status) == "the old cluster was not shut down cleanly (pg_controldata says "@
            + debug_form(status) + NEEDS_RECOVERY@,
        initdb_failed(status) == "initdb for the new cluster failed with "@ + status,
        upgrade_failed(status) == "pg_upgrade failed with "@ + status + ". The cluster at "@
            + "/pgdata/pgdata"@ + " is unchanged — its own output above says why."@,
{
}

// ---- what the functions give back ------------------------------------

/// What is read of a control file: checksums are off exactly where the first
/// line keyed `Data page checksum version` says 0, and a cluster was shut down
/// exactly where the first keyed `Database cluster state` starts so.
pub proof fn what_a_control_file_gives(
    text: &str,
    r: ControlData,
    i: int,
    c: int,
    k: int,
    d: int,
)
    requires
        call_ensures(read_control_data, (text,), r),
        first_keyed(lines_of(text@), i, c, "Data page checksum version"@),
        first_keyed(lines_of(text@), k, d, "Database cluster state"@),
    ensures
        r.checksums <==> behind(lines_of(text@)[i], c) != "0"@,
        r.state@ == behind(lines_of(text@)[k], d),
        r.cleanly_shut_down <==> begins_with(behind(lines_of(text@)[k], d), "shut down"@),
{
    field_by_its_line(lines_of(text@), "Data page checksum version"@);
    field_by_its_line(lines_of(text@), "Database cluster state"@);
}

/// What a control file that says nothing gives: checksums, and a state that is
/// not known to be a clean one.
pub proof fn what_a_silent_control_file_gives(text: &str, r: ControlData)
    requires
        call_ensures(read_control_data, (text,), r),
        forall|i: int, c: int|
            0 <= i < lines_of(text@).len() ==> !#[trigger] keyed(
                lines_of(text@)[i],
                c,
                "Data page checksum version"@,
            ),
        forall|i: int, c: int|
            0 <= i < lines_of(text@).len() ==> !#[trigger] keyed(
                lines_of(text@)[i],
                c,
                "Database cluster state"@,
            ),
    ensures
        r.checksums,
        r.state@ == "unknown"@,
        !r.cleanly_shut_down,
{
    field_by_its_line(lines_of(text@), "Data page checksum version"@);
    field_by_its_line(lines_of(text@), "Database cluster state"@);
    reveal_strlit("shut down");
    reveal_strlit("unknown");
    what_it_begins_with("unknown"@, "shut down"@);
}

/// Staged binaries are accepted exactly where they ran and said the version
/// that was expected.
pub proof fn which_staged_binaries_are_accepted(
    expected: &str,
    success: bool,
    status: &str,
    label: Option<String>,
    stderr: &str,
    r: Option<String>,
)
    requires
        call_ensures(verify_staged_binaries, (expected, success, status, &label, stderr), r),
    ensures
        r is None <==> success && (label matches Some(l) && l@ == expected@),
        !success ==> (r matches Some(m) && m@ == cannot_run(expected@, status@, stderr@)),
{
}

/// An installation is staged only from an image of the data's own version, and
/// has to have left something behind.
pub proof fn what_may_be_staged(
    version: &str,
    data_version: &str,
    r: Option<String>,
    count: usize,
    staged: &str,
    w: Option<String>,
)
    requires
        call_ensures(refuse_stage, (version, data_version), r),
        call_ensures(refuse_wrappers, (count, staged), w),
    ensures
        r is None <==> version@ == data_version@,
        w is None <==> count > 0,
{
}

/// A directory holds a cluster exactly where both its version file and its
/// control file are there.
pub proof fn what_holds_a_cluster(dir: &str, files: Vec<String>, r: bool)
    requires
        call_ensures(is_cluster, (dir, &files), r),
    ensures
        r <==> texts(files@).contains(joined_path(dir@, "PG_VERSION"@)) && texts(files@).contains(
            joined_path(dir@, "global/pg_control"@),
        ),
{
}

} // verus!
