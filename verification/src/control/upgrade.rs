//! Major-version upgrades, from the host's side: hold the clients, change the
//! server underneath, let the clients go.
//!
//! Everything that can refuse does so before a client waits.

use crate::container::PGDATA;
use crate::control::error::{Error, ErrorView};
use crate::text::{
    append_decimal, append_wide_decimal, clone_list, clone_opt, debug_form, debug_quoted, decimal,
    a_part_occurs, occurs, opt_str, opt_text, push_text, same, texts, trim, trimmed,
};
use vstd::prelude::*;
use vstd::string::*;

verus! {

/// How files are carried over to the new cluster.
#[derive(Debug, Clone, Copy, PartialEq, Eq, Structural)]
pub enum UpgradeMethod {
    Link,
    Copy,
}

impl UpgradeMethod {
    /// The method's word.
    pub open spec fn word(&self) -> Seq<char> {
        match *self {
            UpgradeMethod::Link => "link"@,
            UpgradeMethod::Copy => "copy"@,
        }
    }

    /// The method's word.
    pub fn as_str(&self) -> (r: &'static str)
        ensures
            r@ == self.word(),
    {
        match self {
            UpgradeMethod::Link => "link",
            UpgradeMethod::Copy => "copy",
        }
    }

    /// How long `pg_upgrade` may take, in seconds.
    pub open spec fn limit(&self) -> u64 {
        match *self {
            UpgradeMethod::Link => 3600,
            UpgradeMethod::Copy => 86400,
        }
    }

    /// How long `pg_upgrade` may take, in seconds: copying takes as long as
    /// the data is large.
    pub fn patience(&self) -> (r: u64)
        ensures
            r == self.limit(),
    {
        match self {
            UpgradeMethod::Link => 3600,
            UpgradeMethod::Copy => 86400,
        }
    }
}

/// How an upgrade is carried out.
#[derive(Debug, Clone)]
pub struct UpgradeOptions {
    pub to_image: String,
    pub method: UpgradeMethod,
    pub jobs: u32,
    /// Rehearse only.
    pub check: bool,
    pub analyze: bool,
    pub backup: bool,
    /// How long to wait for readiness, in seconds.
    pub wait: u64,
}

impl Default for UpgradeOptions {
    fn default() -> (r: Self)
        ensures
            r.to_image@ == Seq::<char>::empty(),
            r.method == UpgradeMethod::Link,
            r.jobs == 2,
            !r.check,
            r.analyze,
            r.backup,
            r.wait == 300,
    {
        UpgradeOptions {
            to_image: String::new(),
            method: UpgradeMethod::Link,
            jobs: 2,
            check: false,
            analyze: true,
            backup: true,
            wait: 300,
        }
    }
}

/// What an upgrade did.
#[derive(Debug, Clone, PartialEq, Eq)]
pub struct UpgradeReport {
    pub cluster: String,
    pub from_image: String,
    pub to_image: String,
    pub from_version: String,
    pub to_version: String,
    pub method: String,
    /// Nothing was changed, because this was a rehearsal.
    pub checked_only: bool,
    /// How many poolers held clients. Zero means every open connection was
    /// dropped.
    pub poolers_held: usize,
    pub held_ms: u128,
    pub upgrade_seconds: u64,
    pub staged_bytes: u64,
    /// Where the old data directory is kept.
    pub old_data_dir: String,
    pub analyzed: bool,
    pub backup_label: Option<String>,
    pub warnings: Vec<String>,
}

// ---- what is planned -------------------------------------------------

/// What an upgrade is about.
#[derive(Debug, Clone)]
pub struct UpgradePlan {
    pub cluster: String,
    pub instances: u32,
    pub image: String,
    pub to_image: String,
    /// The instance's volume.
    pub volume: String,
    pub method: UpgradeMethod,
    pub check: bool,
    pub analyze: bool,
    pub backup: bool,
    /// The cluster has somewhere to put a backup.
    pub backup_enabled: bool,
}

/// A pooler in front of the cluster, and how long it holds.
#[derive(Debug, Clone)]
pub struct Fronting {
    pub pooler: String,
    pub budget: String,
}

// ---- refusals --------------------------------------------------------

pub open spec fn too_many(cluster: Seq<char>, instances: u32) -> Seq<char> {
    cluster + " has "@ + decimal(instances as nat) + TOO_MANY@
}

pub const TOO_MANY: &'static str =
    " instances, and pgpod can only upgrade a \
                 single-instance cluster today — a standby cannot follow its \
                 primary across a major version";

pub open spec fn same_image(cluster: Seq<char>, image: Seq<char>) -> Seq<char> {
    cluster + " already runs "@ + image
        + ". A major upgrade needs a different image; a minor one is `pgpod apply --recreate`."@
}

/// Why an upgrade is refused at once: the cluster has standbys, or runs that
/// image already.
pub open spec fn refusal(p: UpgradePlan) -> Option<Seq<char>> {
    if p.instances != 1 {
        Some(too_many(p.cluster@, p.instances))
    } else if trimmed(p.to_image@) == trimmed(p.image@) {
        Some(same_image(p.cluster@, p.image@))
    } else {
        None
    }
}

/// Why an upgrade is refused at once.
pub fn refuse_upgrade(p: &UpgradePlan) -> (r: Option<String>)
    ensures
        opt_text(r) == refusal(*p),
{
    if p.instances != 1 {
        let mut m = p.cluster.clone();
        m.append(" has ");
        append_decimal(&mut m, p.instances as u64);
        m.append(TOO_MANY);
        return Some(m);
    }
    if same(trim(p.to_image.as_str()), trim(p.image.as_str())) {
        let mut m = p.cluster.clone();
        m.append(" already runs ");
        m.append(p.image.as_str());
        m.append(
            ". A major upgrade needs a different image; a minor one is `pgpod apply --recreate`.",
        );
        return Some(m);
    }
    None
}

pub const MUST_RUN_TAIL: &'static str =
    "). Bring it up with `pgpod apply -f \
                 <manifest>` first.";

pub open spec fn must_run(cluster: Seq<char>, e: Seq<char>) -> Seq<char> {
    cluster
        + " has to be running to be upgraded — its data directory's version is read from inside the instance before anything is changed ("@
        + e + MUST_RUN_TAIL@
}

pub const SAME_MAJOR_TAIL: &'static str =
    ". `pgpod upgrade` is for \
                 major versions; for a minor-version image bump use \
                 `pgpod apply --recreate`, which needs no pg_upgrade and no \
                 second copy of the data.";

pub open spec fn same_major(to_image: Seq<char>, from: Seq<char>) -> Seq<char> {
    to_image + " is also PostgreSQL "@ + from + SAME_MAJOR_TAIL@
}

pub const OLDER_TAIL: &'static str =
    ". pg_upgrade only goes forwards, and a data \
                 directory cannot be read by an older major version at all.";

pub open spec fn older(to_image: Seq<char>, to: Seq<char>, from: Seq<char>) -> Seq<char> {
    to_image + " carries PostgreSQL "@ + to + ", which is older than this cluster's "@ + from
        + OLDER_TAIL@
}

/// Why an image is refused: it is not of a later major version. Versions are
/// compared by their keys.
pub open spec fn version_refusal(
    to_image: Seq<char>,
    from: Seq<char>,
    from_key: u32,
    to: Seq<char>,
    to_key: u32,
) -> Option<Seq<char>> {
    if to_key == from_key {
        Some(same_major(to_image, from))
    } else if to_key < from_key {
        Some(older(to_image, to, from))
    } else {
        None
    }
}

/// Why an image is refused.
pub fn refuse_version(to_image: &str, from: &str, from_key: u32, to: &str, to_key: u32) -> (r: Option<
    String,
>)
    ensures
        opt_text(r) == version_refusal(to_image@, from@, from_key, to@, to_key),
{
    if to_key == from_key {
        let mut m = to_image.to_owned();
        m.append(" is also PostgreSQL ");
        m.append(from);
        m.append(SAME_MAJOR_TAIL);
        Some(m)
    } else if to_key < from_key {
        let mut m = to_image.to_owned();
        m.append(" carries PostgreSQL ");
        m.append(to);
        m.append(", which is older than this cluster's ");
        m.append(from);
        m.append(OLDER_TAIL);
        Some(m)
    } else {
        None
    }
}

// ---- an image that does not fit its data -----------------------------

pub const NEWER_HEAD: &'static str =
    ". `apply` cannot make that change: it \
                 would start the new server on the old data, which fails with \
                 \"database files are incompatible with server\".\n\n\
                 A major version needs pg_upgrade, which is a different \
                 operation with a different window:\n\n  \
                 pgpod upgrade ";

pub open spec fn newer_image(
    cluster: Seq<char>,
    disk: Seq<char>,
    to: Seq<char>,
    version: Seq<char>,
) -> Seq<char> {
    cluster + " holds a PostgreSQL "@ + disk + " data directory, and "@ + to + " is PostgreSQL "@
        + version + NEWER_HEAD@ + cluster + " --to-image "@ + to
        + "\n\nNothing has been changed — the data directory is still PostgreSQL "@ + disk + "."@
}

pub const OLDER_IMAGE: &'static str =
    " — older. PostgreSQL cannot read a data \
             directory written by a later major version, so this apply would \
             leave an instance that never starts.\n\n\
             If this cluster has been through `pgpod upgrade`, this file is \
             the stale half: set `imageName` to a PostgreSQL ";

pub open spec fn older_image(
    cluster: Seq<char>,
    disk: Seq<char>,
    to: Seq<char>,
    version: Seq<char>,
) -> Seq<char> {
    cluster + " holds a PostgreSQL "@ + disk + " data directory, and "@ + to + " is PostgreSQL "@
        + version + OLDER_IMAGE@ + disk
        + " image to match the data.\n\nNothing has been changed."@
}

/// A version and its key.
#[derive(Debug, Clone)]
pub struct Version {
    pub label: String,
    pub key: u32,
}

/// Why an image cannot be applied: its major version is not the one the data
/// was written by.
pub open spec fn image_refusal(
    cluster: Seq<char>,
    to: Seq<char>,
    disk: Option<Version>,
    image: Version,
) -> Option<Seq<char>> {
    match disk {
        None => None,
        Some(d) => if d.key == image.key {
            None
        } else if image.key > d.key {
            Some(newer_image(cluster, d.label@, to, image.label@))
        } else {
            Some(older_image(cluster, d.label@, to, image.label@))
        },
    }
}

/// Whether an image has to be compared with the data: there is data, and the
/// container that runs on it is not of that very image.
pub fn must_compare(has_volume: bool, running: bool, image_id: &Option<String>, desired: &Option<
    String,
>) -> (r: bool)
    ensures
        r == (has_volume && !(running && image_id is Some && opt_text(*image_id) == opt_text(
            *desired,
        ))),
{
    if !has_volume {
        return false;
    }
    match (image_id, desired) {
        (Some(a), Some(b)) => !(running && same(a.as_str(), b.as_str())),
        _ => true,
    }
}

/// Refuses an image whose major version is not the one the data was written
/// by, whichever way round. Leave to recreate is no leave to upgrade.
pub fn refuse_incompatible_image(
    cluster: &str,
    to: &str,
    disk: &Option<Version>,
    image: &Version,
) -> (r: Option<String>)
    ensures
        opt_text(r) == image_refusal(cluster@, to@, *disk, *image),
{
    match disk {
        None => None,
        Some(d) => {
            if d.key == image.key {
                return None;
            }
            let mut m = cluster.to_owned();
            m.append(" holds a PostgreSQL ");
            m.append(d.label.as_str());
            m.append(" data directory, and ");
            m.append(to);
            m.append(" is PostgreSQL ");
            m.append(image.label.as_str());
            if image.key > d.key {
                m.append(NEWER_HEAD);
                m.append(cluster);
                m.append(" --to-image ");
                m.append(to);
                m.append("\n\nNothing has been changed — the data directory is still PostgreSQL ");
                m.append(d.label.as_str());
                m.append(".");
            } else {
                m.append(OLDER_IMAGE);
                m.append(d.label.as_str());
                m.append(" image to match the data.\n\nNothing has been changed.");
            }
            Some(m)
        },
    }
}

/// An image of the data's own major version is never refused: that is an
/// ordinary change.
pub proof fn a_same_major_image_fits(cluster: Seq<char>, to: Seq<char>, disk: Version, image: Version)
    ensures
        image_refusal(cluster, to, Some(disk), image) is None <==> disk.key == image.key,
{
}

// ---- warnings --------------------------------------------------------

pub open spec fn no_pooler(cluster: Seq<char>) -> Seq<char> {
    "no pooler fronts "@ + cluster
        + ", so every open connection will be dropped rather than held. `pgpod apply -f pooler.yaml` first if that matters."@
}

pub const HOLD_TAIL: &'static str =
    " — a client whose query \
                 waits longer than that gets an error rather than a pause, and \
                 the budget is fixed at the pooler's container-create time \
                 (ADR 05 §3)";

pub open spec fn hold_budget(f: Fronting) -> Seq<char> {
    "pooler "@ + f.pooler@ + " holds clients for at most "@ + f.budget@ + HOLD_TAIL@
}

pub open spec fn no_backup_yet(cluster: Seq<char>) -> Seq<char> {
    cluster
        + " archives but has no backup yet, so there is nothing to restore if this goes wrong. `pgpod backup "@
        + cluster + "` first."@
}

pub open spec fn no_way_back(cluster: Seq<char>) -> Seq<char> {
    cluster
        + " has no backup destination, and --method link leaves the old cluster unstartable. There is no way back from this upgrade."@
}

/// What is warned of before the window opens.
pub open spec fn warnings_for(p: UpgradePlan, fronting: Seq<Fronting>, has_backups: bool) -> Seq<
    Seq<char>,
> {
    let w = if fronting.len() == 0 {
        seq![no_pooler(p.cluster@)]
    } else {
        fronting.map_values(|f: Fronting| hold_budget(f))
    };
    if p.backup_enabled {
        if has_backups {
            w
        } else {
            w.push(no_backup_yet(p.cluster@))
        }
    } else if p.method == UpgradeMethod::Link {
        w.push(no_way_back(p.cluster@))
    } else {
        w
    }
}

fn warnings_of(p: &UpgradePlan, fronting: &Vec<Fronting>, has_backups: bool) -> (r: Vec<String>)
    ensures
        texts(r@) == warnings_for(*p, fronting@, has_backups),
{
    let mut w: Vec<String> = Vec::new();
    if fronting.len() == 0 {
        let mut s = "no pooler fronts ".to_owned();
        s.append(p.cluster.as_str());
        s.append(
            ", so every open connection will be dropped rather than held. `pgpod apply -f pooler.yaml` first if that matters.",
        );
        push_text(&mut w, s);
        assert(texts(w@) =~= seq![no_pooler(p.cluster@)]);
    } else {
        let ghost want = fronting@.map_values(|f: Fronting| hold_budget(f));
        let mut i: usize = 0;
        assert(texts(w@) =~= want.take(0));
        while i < fronting.len()
            invariant
                i <= fronting.len(),
                want == fronting@.map_values(|f: Fronting| hold_budget(f)),
                texts(w@) == want.take(i as int),
            decreases fronting.len() - i,
        {
            let mut s = "pooler ".to_owned();
            s.append(fronting[i].pooler.as_str());
            s.append(" holds clients for at most ");
            s.append(fronting[i].budget.as_str());
            s.append(HOLD_TAIL);
            push_text(&mut w, s);
            assert(texts(w@) =~= want.take(i + 1));
            i = i + 1;
        }
        assert(want.take(want.len() as int) =~= want);
    }
    if p.backup_enabled {
        if !has_backups {
            let mut s = p.cluster.clone();
            s.append(
                " archives but has no backup yet, so there is nothing to restore if this goes wrong. `pgpod backup ",
            );
            s.append(p.cluster.as_str());
            s.append("` first.");
            push_text(&mut w, s);
        }
    } else if p.method == UpgradeMethod::Link {
        let mut s = p.cluster.clone();
        s.append(
            " has no backup destination, and --method link leaves the old cluster unstartable. There is no way back from this upgrade.",
        );
        push_text(&mut w, s);
    }
    w
}

// ---- the run ---------------------------------------------------------

/// Where an upgrade stands.
#[derive(Debug, Clone, Copy, PartialEq, Eq, Structural)]
pub enum Stage {
    Start,
    Pulling,
    Reading,
    Probing,
    Gathering,
    Requesting,
    Staging,
    Fencing,
    Holding,
    /// The instance is stopped and `pg_upgrade` runs.
    Swapping,
    /// It failed, and that is logged.
    Blaming,
    /// It failed: the old instance comes back.
    Restarting,
    RestartWaiting,
    RestartUnfencing,
    RestartReleasing,
    /// The rehearsal passed: the old instance comes back.
    Rehearsed,
    RehearsedWaiting,
    RehearsedUnfencing,
    RehearsedReleasing,
    RehearsedLogging,
    /// It succeeded: the new instance comes up.
    Recording,
    Starting,
    Waiting,
    Archiving,
    Releasing,
    Logging,
    Analyzing,
    BackingUp,
    Finishing,
    Ended,
}

/// What came of the last action.
#[derive(Debug, Clone)]
pub enum Event {
    Begin,
    Done,
    Failed(String),
    /// The version of the data directory.
    Version(String),
    /// The version of the new image, and the keys of both.
    Probed { version: String, from_key: u32, to_key: u32 },
    Facts { fronting: Vec<Fronting>, has_backups: bool },
    Staged { version: String, bytes: u64 },
    Held(usize),
    Swapped { seconds: u64, old_data_dir: String },
    /// The poolers were let go, this long after they were held.
    Released(u128),
    BackedUp(Option<String>),
}

/// What to do next.
#[derive(Debug, Clone)]
pub enum Act {
    /// The event does not belong to this stage.
    Ignore,
    PullImage,
    ReadVersion,
    ProbeImage,
    GatherFacts,
    /// Log the request.
    LogRequest(String),
    StageOld,
    /// Set phase `upgrading`.
    Fence,
    HoldPoolers,
    /// Stop the instance and run `pg_upgrade`.
    Swap,
    /// Log why `pg_upgrade` failed.
    LogFailure(String),
    /// Start the old instance.
    RestartOld,
    WaitReady,
    /// Set phase `running`.
    Unfence,
    /// Let the poolers go, after they reconnect.
    Release,
    /// Set phase `failed`, let the poolers go, and fail.
    GiveUp(String),
    /// Record the new image, in phase `upgrading`.
    RecordTarget,
    StartNew,
    UpgradeStanza,
    Log(String),
    Analyze,
    TakeBackup,
    Report(UpgradeReport),
    Fail(String),
}

/// [`UpgradeReport`], over text.
pub struct ReportView {
    pub cluster: Seq<char>,
    pub from_image: Seq<char>,
    pub to_image: Seq<char>,
    pub from_version: Seq<char>,
    pub to_version: Seq<char>,
    pub method: Seq<char>,
    pub checked_only: bool,
    pub poolers_held: usize,
    pub held_ms: u128,
    pub upgrade_seconds: u64,
    pub staged_bytes: u64,
    pub old_data_dir: Seq<char>,
    pub analyzed: bool,
    pub backup_label: Option<Seq<char>>,
    pub warnings: Seq<Seq<char>>,
}

impl View for UpgradeReport {
    type V = ReportView;

    open spec fn view(&self) -> ReportView {
        ReportView {
            cluster: self.cluster@,
            from_image: self.from_image@,
            to_image: self.to_image@,
            from_version: self.from_version@,
            to_version: self.to_version@,
            method: self.method@,
            checked_only: self.checked_only,
            poolers_held: self.poolers_held,
            held_ms: self.held_ms,
            upgrade_seconds: self.upgrade_seconds,
            staged_bytes: self.staged_bytes,
            old_data_dir: self.old_data_dir@,
            analyzed: self.analyzed,
            backup_label: opt_text(self.backup_label),
            warnings: texts(self.warnings@),
        }
    }
}

/// [`Act`], over text.
pub enum ActView {
    Ignore,
    PullImage,
    ReadVersion,
    ProbeImage,
    GatherFacts,
    LogRequest(Seq<char>),
    StageOld,
    Fence,
    HoldPoolers,
    Swap,
    LogFailure(Seq<char>),
    RestartOld,
    WaitReady,
    Unfence,
    Release,
    GiveUp(Seq<char>),
    RecordTarget,
    StartNew,
    UpgradeStanza,
    Log(Seq<char>),
    Analyze,
    TakeBackup,
    Report(ReportView),
    Fail(Seq<char>),
}

impl View for Act {
    type V = ActView;

    open spec fn view(&self) -> ActView {
        match *self {
            Act::Ignore => ActView::Ignore,
            Act::PullImage => ActView::PullImage,
            Act::ReadVersion => ActView::ReadVersion,
            Act::ProbeImage => ActView::ProbeImage,
            Act::GatherFacts => ActView::GatherFacts,
            Act::LogRequest(m) => ActView::LogRequest(m@),
            Act::StageOld => ActView::StageOld,
            Act::Fence => ActView::Fence,
            Act::HoldPoolers => ActView::HoldPoolers,
            Act::Swap => ActView::Swap,
            Act::LogFailure(m) => ActView::LogFailure(m@),
            Act::RestartOld => ActView::RestartOld,
            Act::WaitReady => ActView::WaitReady,
            Act::Unfence => ActView::Unfence,
            Act::Release => ActView::Release,
            Act::GiveUp(m) => ActView::GiveUp(m@),
            Act::RecordTarget => ActView::RecordTarget,
            Act::StartNew => ActView::StartNew,
            Act::UpgradeStanza => ActView::UpgradeStanza,
            Act::Log(m) => ActView::Log(m@),
            Act::Analyze => ActView::Analyze,
            Act::TakeBackup => ActView::TakeBackup,
            Act::Report(r) => ActView::Report(r@),
            Act::Fail(m) => ActView::Fail(m@),
        }
    }
}

/// An upgrade under way.
#[derive(Debug, Clone)]
pub struct Upgrade {
    pub plan: UpgradePlan,
    pub stage: Stage,
    pub from_version: String,
    pub to_version: String,
    pub warnings: Vec<String>,
    /// What failed in the window.
    pub error: String,
    pub held: usize,
    pub held_ms: u128,
    pub seconds: u64,
    pub staged_bytes: u64,
    pub old_data_dir: String,
    pub analyzed: bool,
    pub backup_label: Option<String>,
}

/// [`Upgrade`], over text.
pub struct UpgradeView {
    pub plan: UpgradePlan,
    pub stage: Stage,
    pub from_version: Seq<char>,
    pub to_version: Seq<char>,
    pub warnings: Seq<Seq<char>>,
    pub error: Seq<char>,
    pub held: usize,
    pub held_ms: u128,
    pub seconds: u64,
    pub staged_bytes: u64,
    pub old_data_dir: Seq<char>,
    pub analyzed: bool,
    pub backup_label: Option<Seq<char>>,
}

impl View for Upgrade {
    type V = UpgradeView;

    open spec fn view(&self) -> UpgradeView {
        UpgradeView {
            plan: self.plan,
            stage: self.stage,
            from_version: self.from_version@,
            to_version: self.to_version@,
            warnings: texts(self.warnings@),
            error: self.error@,
            held: self.held,
            held_ms: self.held_ms,
            seconds: self.seconds,
            staged_bytes: self.staged_bytes,
            old_data_dir: self.old_data_dir@,
            analyzed: self.analyzed,
            backup_label: opt_text(self.backup_label),
        }
    }
}

pub open spec fn at(s: UpgradeView, stage: Stage) -> UpgradeView {
    UpgradeView { stage, ..s }
}

pub open spec fn failed_with(s: UpgradeView, m: Seq<char>) -> (UpgradeView, ActView) {
    (at(s, Stage::Ended), ActView::Fail(m))
}

pub open spec fn request_text(s: UpgradeView) -> Seq<char> {
    "upgrade "@ + s.from_version + " -> "@ + s.to_version + " requested ("@ + s.plan.method.word()
        + " mode); staging the old installation"@
}

pub open spec fn wrong_stage(version: Seq<char>, from: Seq<char>) -> Seq<char> {
    "the running image carries PostgreSQL "@ + version
        + ", but the cluster's data directory is "@ + from
}

pub open spec fn restarting_text(e: Seq<char>) -> Seq<char> {
    "upgrade failed, restarting the old instance: "@ + e
}

pub const NO_SWAP: &'static str = " — no swap had happened when this failed.";

pub open spec fn both_failed(e: Seq<char>, restart: Seq<char>, volume: Seq<char>) -> Seq<char> {
    "the upgrade failed ("@ + e + "), and so did bringing the old instance back up ("@ + restart
        + "). The cluster's data is untouched at "@ + PGDATA@ + " inside volume "@ + volume
        + NO_SWAP@
}

pub open spec fn rehearsed_text(ms: u128) -> Seq<char> {
    "upgrade check passed in "@ + decimal(ms as nat) + "ms; nothing was changed"@
}

pub open spec fn upgraded_text(s: UpgradeView, ms: u128) -> Seq<char> {
    "upgraded "@ + s.from_version + " -> "@ + s.to_version + " in "@ + decimal(ms as nat)
        + "ms held ("@ + decimal(s.seconds as nat)
        + "s in pg_upgrade); the old data directory is kept at "@ + s.old_data_dir
}

pub open spec fn stanza_warning(e: Seq<char>) -> Seq<char> {
    "pgbackrest stanza-upgrade failed, so WAL from the upgraded cluster will not be archived until it is run: "@
        + e
}

pub open spec fn analyze_warning(e: Seq<char>) -> Seq<char> {
    "the cluster is up, but `vacuumdb --analyze-in-stages` failed: "@ + e
        + ". Until it runs, every query plans against no statistics."@
}

pub const NO_STATISTICS: &'static str =
    "planner statistics were not rebuilt — run `vacuumdb --all \
                 --analyze-in-stages` before this cluster takes real traffic";

pub const BACKUP_FAILED_TAIL: &'static str =
    ". The repository's \
                         older backups belong to the pre-upgrade cluster, so \
                         there is no recovery point for the new one until a \
                         backup succeeds.";

pub open spec fn backup_warning(e: Seq<char>) -> Seq<char> {
    "the post-upgrade backup failed: "@ + e + BACKUP_FAILED_TAIL@
}

pub open spec fn no_destination(cluster: Seq<char>) -> Seq<char> {
    cluster + " has no backup destination, so no post-upgrade backup was taken"@
}

/// What is reported at the end.
pub open spec fn report_of(s: UpgradeView) -> ReportView {
    ReportView {
        cluster: s.plan.cluster@,
        from_image: s.plan.image@,
        to_image: trimmed(s.plan.to_image@),
        from_version: s.from_version,
        to_version: s.to_version,
        method: s.plan.method.word(),
        checked_only: s.plan.check,
        poolers_held: s.held,
        held_ms: s.held_ms,
        upgrade_seconds: s.seconds,
        staged_bytes: s.staged_bytes,
        old_data_dir: if s.plan.check {
            Seq::empty()
        } else {
            s.old_data_dir
        },
        analyzed: !s.plan.check && s.analyzed,
        backup_label: if s.plan.check {
            None
        } else {
            s.backup_label
        },
        warnings: s.warnings,
    }
}

/// What follows once statistics were dealt with.
pub open spec fn after_analyze(s: UpgradeView) -> (UpgradeView, ActView) {
    if !s.plan.backup {
        (at(s, Stage::Finishing), ActView::Unfence)
    } else if s.plan.backup_enabled {
        (at(s, Stage::BackingUp), ActView::TakeBackup)
    } else {
        (
            UpgradeView {
                stage: Stage::Finishing,
                warnings: s.warnings.push(no_destination(s.plan.cluster@)),
                ..s
            },
            ActView::Unfence,
        )
    }
}

/// What follows a success that brings nothing but itself.
pub open spec fn after_done(s: UpgradeView) -> (UpgradeView, ActView) {
    match s.stage {
        Stage::Pulling => (at(s, Stage::Reading), ActView::ReadVersion),
        Stage::Requesting => (at(s, Stage::Staging), ActView::StageOld),
        Stage::Fencing => (at(s, Stage::Holding), ActView::HoldPoolers),
        Stage::Blaming => (at(s, Stage::Restarting), ActView::RestartOld),
        Stage::Restarting => (at(s, Stage::RestartWaiting), ActView::WaitReady),
        Stage::RestartWaiting => (at(s, Stage::RestartUnfencing), ActView::Unfence),
        Stage::RestartUnfencing => (at(s, Stage::RestartReleasing), ActView::Release),
        Stage::Rehearsed => (at(s, Stage::RehearsedWaiting), ActView::WaitReady),
        Stage::RehearsedWaiting => (at(s, Stage::RehearsedUnfencing), ActView::Unfence),
        Stage::RehearsedUnfencing => (at(s, Stage::RehearsedReleasing), ActView::Release),
        Stage::RehearsedLogging => (at(s, Stage::Ended), ActView::Report(report_of(s))),
        Stage::Recording => (at(s, Stage::Starting), ActView::StartNew),
        Stage::Starting => (at(s, Stage::Waiting), ActView::WaitReady),
        Stage::Waiting => if s.plan.backup_enabled {
            (at(s, Stage::Archiving), ActView::UpgradeStanza)
        } else {
            (at(s, Stage::Releasing), ActView::Release)
        },
        Stage::Archiving => (at(s, Stage::Releasing), ActView::Release),
        Stage::Logging => if s.plan.analyze {
            (at(s, Stage::Analyzing), ActView::Analyze)
        } else {
            after_analyze(UpgradeView { warnings: s.warnings.push(NO_STATISTICS@), ..s })
        },
        Stage::Analyzing => after_analyze(UpgradeView { analyzed: true, ..s }),
        Stage::Finishing => (at(s, Stage::Ended), ActView::Report(report_of(s))),
        _ => (s, ActView::Ignore),
    }
}

/// What follows a failure. In the window the old instance is brought back,
/// once the failure is logged; where that cannot be written, the run ends there.
/// After the window the upgrade stands, and what failed becomes a warning.
pub open spec fn after_failure(s: UpgradeView, e: Seq<char>) -> (UpgradeView, ActView) {
    match s.stage {
        Stage::Start => (s, ActView::Ignore),
        Stage::Ended => (s, ActView::Ignore),
        Stage::Reading => failed_with(s, must_run(s.plan.cluster@, e)),
        Stage::Swapping => (
            UpgradeView { stage: Stage::Blaming, error: e, ..s },
            ActView::LogFailure(restarting_text(e)),
        ),
        Stage::Restarting => (
            at(s, Stage::Ended),
            ActView::GiveUp(both_failed(s.error, e, s.plan.volume@)),
        ),
        Stage::RestartWaiting => (at(s, Stage::RestartUnfencing), ActView::Unfence),
        Stage::Archiving => (
            UpgradeView {
                stage: Stage::Releasing,
                warnings: s.warnings.push(stanza_warning(e)),
                ..s
            },
            ActView::Release,
        ),
        Stage::Analyzing => after_analyze(
            UpgradeView { warnings: s.warnings.push(analyze_warning(e)), ..s },
        ),
        Stage::BackingUp => (
            UpgradeView {
                stage: Stage::Finishing,
                warnings: s.warnings.push(backup_warning(e)),
                ..s
            },
            ActView::Unfence,
        ),
        _ => failed_with(s, e),
    }
}

/// What follows an event.
pub open spec fn after(s: UpgradeView, ev: Event) -> (UpgradeView, ActView) {
    match ev {
        Event::Begin => if s.stage == Stage::Start {
            match refusal(s.plan) {
                Some(m) => failed_with(s, m),
                None => (at(s, Stage::Pulling), ActView::PullImage),
            }
        } else {
            (s, ActView::Ignore)
        },
        Event::Done => after_done(s),
        Event::Failed(e) => after_failure(s, e@),
        Event::Version(v) => if s.stage == Stage::Reading {
            (UpgradeView { stage: Stage::Probing, from_version: v@, ..s }, ActView::ProbeImage)
        } else {
            (s, ActView::Ignore)
        },
        Event::Probed { version, from_key, to_key } => if s.stage == Stage::Probing {
            match version_refusal(
                trimmed(s.plan.to_image@),
                s.from_version,
                from_key,
                version@,
                to_key,
            ) {
                Some(m) => failed_with(s, m),
                None => (
                    UpgradeView { stage: Stage::Gathering, to_version: version@, ..s },
                    ActView::GatherFacts,
                ),
            }
        } else {
            (s, ActView::Ignore)
        },
        Event::Facts { fronting, has_backups } => if s.stage == Stage::Gathering {
            let t = UpgradeView {
                stage: Stage::Requesting,
                warnings: warnings_for(s.plan, fronting@, has_backups),
                ..s
            };
            (t, ActView::LogRequest(request_text(t)))
        } else {
            (s, ActView::Ignore)
        },
        Event::Staged { version, bytes } => if s.stage == Stage::Staging {
            if version@ != s.from_version {
                failed_with(s, wrong_stage(version@, s.from_version))
            } else {
                (
                    UpgradeView { stage: Stage::Fencing, staged_bytes: bytes, ..s },
                    ActView::Fence,
                )
            }
        } else {
            (s, ActView::Ignore)
        },
        Event::Held(n) => if s.stage == Stage::Holding {
            (UpgradeView { stage: Stage::Swapping, held: n, ..s }, ActView::Swap)
        } else {
            (s, ActView::Ignore)
        },
        Event::Swapped { seconds, old_data_dir } => if s.stage == Stage::Swapping {
            let t = UpgradeView { seconds, old_data_dir: old_data_dir@, ..s };
            if s.plan.check {
                (at(t, Stage::Rehearsed), ActView::RestartOld)
            } else {
                (at(t, Stage::Recording), ActView::RecordTarget)
            }
        } else {
            (s, ActView::Ignore)
        },
        Event::Released(ms) => match s.stage {
            Stage::RestartReleasing => failed_with(s, s.error),
            Stage::RehearsedReleasing => (
                UpgradeView { stage: Stage::RehearsedLogging, held_ms: ms, ..s },
                ActView::Log(rehearsed_text(ms)),
            ),
            Stage::Releasing => (
                UpgradeView { stage: Stage::Logging, held_ms: ms, ..s },
                ActView::Log(upgraded_text(s, ms)),
            ),
            _ => (s, ActView::Ignore),
        },
        Event::BackedUp(label) => if s.stage == Stage::BackingUp {
            (
                UpgradeView { stage: Stage::Finishing, backup_label: opt_text(label), ..s },
                ActView::Unfence,
            )
        } else {
            (s, ActView::Ignore)
        },
    }
}

fn text2(a: &str, b: &str) -> (r: String)
    ensures
        r@ == a@ + b@,
{
    let mut s = a.to_owned();
    s.append(b);
    s
}

fn text3(a: &str, b: &str, c: &str) -> (r: String)
    ensures
        r@ == a@ + b@ + c@,
{
    let mut s = text2(a, b);
    s.append(c);
    s
}

impl Upgrade {
    /// An upgrade that has not begun.
    pub fn new(plan: UpgradePlan) -> (r: Self)
        ensures
            r@ == (UpgradeView {
                plan,
                stage: Stage::Start,
                from_version: Seq::empty(),
                to_version: Seq::empty(),
                warnings: Seq::empty(),
                error: Seq::empty(),
                held: 0,
                held_ms: 0,
                seconds: 0,
                staged_bytes: 0,
                old_data_dir: Seq::empty(),
                analyzed: false,
                backup_label: None,
            }),
    {
        let r = Upgrade {
            plan,
            stage: Stage::Start,
            from_version: String::new(),
            to_version: String::new(),
            warnings: Vec::new(),
            error: String::new(),
            held: 0,
            held_ms: 0,
            seconds: 0,
            staged_bytes: 0,
            old_data_dir: String::new(),
            analyzed: false,
            backup_label: None,
        };
        assert(r@.warnings =~= Seq::empty());
        r
    }

    fn report(&self) -> (r: UpgradeReport)
        ensures
            r@ == report_of(self@),
    {
        let check = self.plan.check;
        UpgradeReport {
            cluster: self.plan.cluster.clone(),
            from_image: self.plan.image.clone(),
            to_image: trim(self.plan.to_image.as_str()).to_owned(),
            from_version: self.from_version.clone(),
            to_version: self.to_version.clone(),
            method: self.plan.method.as_str().to_owned(),
            checked_only: check,
            poolers_held: self.held,
            held_ms: self.held_ms,
            upgrade_seconds: self.seconds,
            staged_bytes: self.staged_bytes,
            old_data_dir: if check {
                String::new()
            } else {
                self.old_data_dir.clone()
            },
            analyzed: !check && self.analyzed,
            backup_label: if check {
                None
            } else {
                clone_opt(&self.backup_label)
            },
            warnings: clone_list(&self.warnings),
        }
    }

    fn analyzed_or_not(&mut self) -> (act: Act)
        ensures
            (final(self)@, act@) == after_analyze(old(self)@),
    {
        if !self.plan.backup {
            self.stage = Stage::Finishing;
            Act::Unfence
        } else if self.plan.backup_enabled {
            self.stage = Stage::BackingUp;
            Act::TakeBackup
        } else {
            self.stage = Stage::Finishing;
            let w = text2(
                self.plan.cluster.as_str(),
                " has no backup destination, so no post-upgrade backup was taken",
            );
            push_text(&mut self.warnings, w);
            Act::Unfence
        }
    }

    fn done(&mut self) -> (act: Act)
        ensures
            (final(self)@, act@) == after_done(old(self)@),
    {
        match self.stage {
            Stage::Pulling => {
                self.stage = Stage::Reading;
                Act::ReadVersion
            },
            Stage::Requesting => {
                self.stage = Stage::Staging;
                Act::StageOld
            },
            Stage::Fencing => {
                self.stage = Stage::Holding;
                Act::HoldPoolers
            },
            Stage::Blaming => {
                self.stage = Stage::Restarting;
                Act::RestartOld
            },
            Stage::Restarting => {
                self.stage = Stage::RestartWaiting;
                Act::WaitReady
            },
            Stage::RestartWaiting => {
                self.stage = Stage::RestartUnfencing;
                Act::Unfence
            },
            Stage::RestartUnfencing => {
                self.stage = Stage::RestartReleasing;
                Act::Release
            },
            Stage::Rehearsed => {
                self.stage = Stage::RehearsedWaiting;
                Act::WaitReady
            },
            Stage::RehearsedWaiting => {
                self.stage = Stage::RehearsedUnfencing;
                Act::Unfence
            },
            Stage::RehearsedUnfencing => {
                self.stage = Stage::RehearsedReleasing;
                Act::Release
            },
            Stage::RehearsedLogging | Stage::Finishing => {
                let r = self.report();
                self.stage = Stage::Ended;
                Act::Report(r)
            },
            Stage::Recording => {
                self.stage = Stage::Starting;
                Act::StartNew
            },
            Stage::Starting => {
                self.stage = Stage::Waiting;
                Act::WaitReady
            },
            Stage::Waiting => {
                if self.plan.backup_enabled {
                    self.stage = Stage::Archiving;
                    Act::UpgradeStanza
                } else {
                    self.stage = Stage::Releasing;
                    Act::Release
                }
            },
            Stage::Archiving => {
                self.stage = Stage::Releasing;
                Act::Release
            },
            Stage::Logging => {
                if self.plan.analyze {
                    self.stage = Stage::Analyzing;
                    Act::Analyze
                } else {
                    push_text(&mut self.warnings, NO_STATISTICS.to_owned());
                    self.analyzed_or_not()
                }
            },
            Stage::Analyzing => {
                self.analyzed = true;
                self.analyzed_or_not()
            },
            _ => Act::Ignore,
        }
    }

    fn failure(&mut self, e: &str) -> (act: Act)
        ensures
            (final(self)@, act@) == after_failure(old(self)@, e@),
    {
        match self.stage {
            Stage::Start | Stage::Ended => Act::Ignore,
            Stage::Reading => {
                self.stage = Stage::Ended;
                let mut m = self.plan.cluster.clone();
                m.append(
                    " has to be running to be upgraded — its data directory's version is read from inside the instance before anything is changed (",
                );
                m.append(e);
                m.append(MUST_RUN_TAIL);
                Act::Fail(m)
            },
            Stage::Swapping => {
                self.stage = Stage::Blaming;
                self.error = e.to_owned();
                Act::LogFailure(text2("upgrade failed, restarting the old instance: ", e))
            },
            Stage::Restarting => {
                self.stage = Stage::Ended;
                let mut m = "the upgrade failed (".to_owned();
                m.append(self.error.as_str());
                m.append("), and so did bringing the old instance back up (");
                m.append(e);
                m.append("). The cluster's data is untouched at ");
                m.append(PGDATA);
                m.append(" inside volume ");
                m.append(self.plan.volume.as_str());
                m.append(NO_SWAP);
                Act::GiveUp(m)
            },
            Stage::RestartWaiting => {
                self.stage = Stage::RestartUnfencing;
                Act::Unfence
            },
            Stage::Archiving => {
                self.stage = Stage::Releasing;
                push_text(
                    &mut self.warnings,
                    text2(
                        "pgbackrest stanza-upgrade failed, so WAL from the upgraded cluster will not be archived until it is run: ",
                        e,
                    ),
                );
                Act::Release
            },
            Stage::Analyzing => {
                push_text(
                    &mut self.warnings,
                    text3(
                        "the cluster is up, but `vacuumdb --analyze-in-stages` failed: ",
                        e,
                        ". Until it runs, every query plans against no statistics.",
                    ),
                );
                self.analyzed_or_not()
            },
            Stage::BackingUp => {
                self.stage = Stage::Finishing;
                push_text(
                    &mut self.warnings,
                    text3("the post-upgrade backup failed: ", e, BACKUP_FAILED_TAIL),
                );
                Act::Unfence
            },
            _ => {
                self.stage = Stage::Ended;
                Act::Fail(e.to_owned())
            },
        }
    }

    fn released(&mut self, ms: u128) -> (act: Act)
        ensures
            (final(self)@, act@) == after(old(self)@, Event::Released(ms)),
    {
        match self.stage {
            Stage::RestartReleasing => {
                self.stage = Stage::Ended;
                Act::Fail(self.error.clone())
            },
            Stage::RehearsedReleasing => {
                self.stage = Stage::RehearsedLogging;
                self.held_ms = ms;
                let mut m = "upgrade check passed in ".to_owned();
                append_wide_decimal(&mut m, ms);
                m.append("ms; nothing was changed");
                Act::Log(m)
            },
            Stage::Releasing => {
                self.stage = Stage::Logging;
                self.held_ms = ms;
                let mut m = "upgraded ".to_owned();
                m.append(self.from_version.as_str());
                m.append(" -> ");
                m.append(self.to_version.as_str());
                m.append(" in ");
                append_wide_decimal(&mut m, ms);
                m.append("ms held (");
                append_decimal(&mut m, self.seconds);
                m.append("s in pg_upgrade); the old data directory is kept at ");
                m.append(self.old_data_dir.as_str());
                Act::Log(m)
            },
            _ => Act::Ignore,
        }
    }

    /// Takes in what came of the last action, and says what to do next.
    pub fn step(&mut self, ev: &Event) -> (act: Act)
        ensures
            (final(self)@, act@) == after(old(self)@, *ev),
    {
        match ev {
            Event::Begin => {
                if self.stage != Stage::Start {
                    return Act::Ignore;
                }
                match refuse_upgrade(&self.plan) {
                    Some(m) => {
                        self.stage = Stage::Ended;
                        Act::Fail(m)
                    },
                    None => {
                        self.stage = Stage::Pulling;
                        Act::PullImage
                    },
                }
            },
            Event::Done => self.done(),
            Event::Failed(e) => self.failure(e.as_str()),
            Event::Version(v) => {
                if self.stage != Stage::Reading {
                    return Act::Ignore;
                }
                self.stage = Stage::Probing;
                self.from_version = v.clone();
                Act::ProbeImage
            },
            Event::Probed { version, from_key, to_key } => {
                if self.stage != Stage::Probing {
                    return Act::Ignore;
                }
                match refuse_version(
                    trim(self.plan.to_image.as_str()),
                    self.from_version.as_str(),
                    *from_key,
                    version.as_str(),
                    *to_key,
                ) {
                    Some(m) => {
                        self.stage = Stage::Ended;
                        Act::Fail(m)
                    },
                    None => {
                        self.stage = Stage::Gathering;
                        self.to_version = version.clone();
                        Act::GatherFacts
                    },
                }
            },
            Event::Facts { fronting, has_backups } => {
                if self.stage != Stage::Gathering {
                    return Act::Ignore;
                }
                self.stage = Stage::Requesting;
                self.warnings = warnings_of(&self.plan, fronting, *has_backups);
                let mut m = "upgrade ".to_owned();
                m.append(self.from_version.as_str());
                m.append(" -> ");
                m.append(self.to_version.as_str());
                m.append(" requested (");
                m.append(self.plan.method.as_str());
                m.append(" mode); staging the old installation");
                Act::LogRequest(m)
            },
            Event::Staged { version, bytes } => {
                if self.stage != Stage::Staging {
                    return Act::Ignore;
                }
                if !same(version.as_str(), self.from_version.as_str()) {
                    self.stage = Stage::Ended;
                    let mut m = "the running image carries PostgreSQL ".to_owned();
                    m.append(version.as_str());
                    m.append(", but the cluster's data directory is ");
                    m.append(self.from_version.as_str());
                    return Act::Fail(m);
                }
                self.stage = Stage::Fencing;
                self.staged_bytes = *bytes;
                Act::Fence
            },
            Event::Held(n) => {
                if self.stage != Stage::Holding {
                    return Act::Ignore;
                }
                self.stage = Stage::Swapping;
                self.held = *n;
                Act::Swap
            },
            Event::Swapped { seconds, old_data_dir } => {
                if self.stage != Stage::Swapping {
                    return Act::Ignore;
                }
                self.seconds = *seconds;
                self.old_data_dir = old_data_dir.clone();
                if self.plan.check {
                    self.stage = Stage::Rehearsed;
                    Act::RestartOld
                } else {
                    self.stage = Stage::Recording;
                    Act::RecordTarget
                }
            },
            Event::Released(ms) => self.released(*ms),
            Event::BackedUp(label) => {
                if self.stage != Stage::BackingUp {
                    return Act::Ignore;
                }
                self.stage = Stage::Finishing;
                self.backup_label = clone_opt(label);
                Act::Unfence
            },
        }
    }
}

// ---- what is run inside containers -----------------------------------

/// The version of a running instance's data, from what reading `PG_VERSION`
/// brought and the version that is seen in it.
pub fn running_version(
    instance: &str,
    success: bool,
    stdout: &str,
    stderr: &str,
    label: Option<String>,
) -> (r: Result<String, String>)
    ensures
        if !success {
            r matches Err(m) && m@ == "could not read "@ + PGDATA@ + "/PG_VERSION from "@ + instance@
                + ": "@ + trimmed(stderr@)
        } else {
            match label {
                Some(v) => r == Ok::<String, String>(v),
                None => r matches Err(m) && m@ == instance@
                    + " reports a data directory version this pgpod does not understand: "@
                    + debug_form(trimmed(stdout@)),
            }
        },
{
    if !success {
        let mut m = "could not read ".to_owned();
        m.append(PGDATA);
        m.append("/PG_VERSION from ");
        m.append(instance);
        m.append(": ");
        m.append(trim(stderr));
        return Err(m);
    }
    match label {
        Some(v) => Ok(v),
        None => {
            let mut m = instance.to_owned();
            m.append(" reports a data directory version this pgpod does not understand: ");
            m.append(debug_quoted(trim(stdout)).as_str());
            Err(m)
        },
    }
}

/// Why statistics were not rebuilt, if they were not.
pub fn analyze_in_stages(success: bool, stdout: &str, stderr: &str) -> (r: Option<String>)
    ensures
        opt_text(r) == (if success {
            None
        } else {
            Some("vacuumdb failed: "@ + trimmed(stdout@) + trimmed(stderr@))
        }),
{
    if success {
        return None;
    }
    let mut m = "vacuumdb failed: ".to_owned();
    m.append(trim(stdout));
    m.append(trim(stderr));
    Some(m)
}

/// What went wrong with a job, if anything: it failed, or what it wrote could
/// not be read.
pub fn job_error(job: &str, code: i64, logs: &str, unreadable: Option<&str>) -> (r: Option<Error>)
    ensures
        match r {
            None => code == 0 && unreadable is None,
            Some(e) => e@ == (ErrorView::Upgrade {
                step: job@,
                detail: if code != 0 {
                    logs@
                } else {
                    opt_str(unreadable)->0 + "\n\n"@ + logs@
                },
            }) && (code != 0 || unreadable is Some),
        },
{
    if code != 0 {
        return Some(Error::Upgrade { step: job.to_owned(), detail: logs.to_owned() });
    }
    match unreadable {
        None => None,
        Some(e) => Some(Error::Upgrade { step: job.to_owned(), detail: text3(e, "\n\n", logs) }),
    }
}

/// The error for a job that was not waited out.
pub fn job_still_running(instance: &str, seconds: u64, job: &str) -> (r: Error)
    ensures
        r@ == (ErrorView::NotReady {
            instance: instance@,
            seconds,
            detail: "the "@ + job@ + " job is still running"@,
        }),
{
    Error::NotReady {
        instance: instance.to_owned(),
        seconds,
        detail: text3("the ", job, " job is still running"),
    }
}

// ---- what holds of every upgrade -------------------------------------

/// The new image is recorded only after `pg_upgrade` succeeded, and never in
/// a rehearsal: a failed upgrade leaves the stored manifest alone.
pub proof fn the_image_is_recorded_after_success(s: UpgradeView, ev: Event)
    ensures
        after(s, ev).1 is RecordTarget ==> s.stage == Stage::Swapping && ev is Swapped
            && !s.plan.check,
{
}

/// Whatever fails in the window, it is logged, and then the old instance is
/// started again. Where it cannot be logged, the upgrade ends with that error,
/// and says nothing of a restart that was not tried.
pub proof fn a_failed_swap_restarts_the_old_instance(s: UpgradeView, e: String, unwritten: String)
    requires
        s.stage == Stage::Swapping,
    ensures
        ({
            let (t, act) = after(s, Event::Failed(e));
            &&& act == ActView::LogFailure(restarting_text(e@))
            &&& t.error == e@
            &&& after(t, Event::Done) == (at(t, Stage::Restarting), ActView::RestartOld)
            &&& after(t, Event::Failed(unwritten)) == (
                at(t, Stage::Ended),
                ActView::Fail(unwritten@),
            )
        }),
{
}

/// That bringing the old instance back failed is only said where it was tried.
pub proof fn giving_up_follows_a_restart(s: UpgradeView, ev: Event)
    ensures
        after(s, ev).1 is GiveUp ==> s.stage == Stage::Restarting && ev is Failed,
{
}

/// A rolled-back upgrade ends with its own error, in phase `running`: the
/// clients are let go only after the phase was set back.
pub proof fn a_rollback_puts_the_phase_back(s: UpgradeView, ev: Event)
    ensures
        after(s, ev).0.stage == Stage::RestartReleasing && s.stage != Stage::RestartReleasing
            ==> s.stage == Stage::RestartUnfencing && ev is Done,
        after(s, ev).0.stage == Stage::RestartUnfencing && s.stage != Stage::RestartUnfencing
            ==> after(s, ev).1 is Unfence,
        s.stage == Stage::RestartReleasing && ev is Released ==> after(s, ev).1 == ActView::Fail(
            s.error,
        ),
{
}

/// A rehearsal reports that it changed nothing: no old data directory, no
/// statistics, no backup; and its report comes only after the phase was set
/// back.
pub proof fn a_rehearsal_changes_nothing(s: UpgradeView, ev: Event)
    requires
        s.plan.check,
    ensures
        after(s, ev).1 matches ActView::Report(r) ==> r.checked_only && r.old_data_dir.len() == 0
            && !r.analyzed && r.backup_label is None,
        after(s, ev).0.stage == Stage::RehearsedReleasing && s.stage != Stage::RehearsedReleasing
            ==> s.stage == Stage::RehearsedUnfencing && ev is Done,
        !(after(s, ev).1 is RecordTarget),
{
}

/// What fails after the window never undoes the upgrade: it is warned of, and
/// the run goes on.
pub proof fn late_failures_are_warnings(s: UpgradeView, e: String)
    requires
        s.stage == Stage::Archiving || s.stage == Stage::Analyzing || s.stage == Stage::BackingUp,
    ensures
        after(s, Event::Failed(e)).0.warnings.len() > s.warnings.len(),
        after(s, Event::Failed(e)).0.stage != Stage::Ended,
{
}

// ---- what holds of every run -----------------------------------------

/// Where a run of events leads.
pub open spec fn run(s: UpgradeView, evs: Seq<Event>) -> UpgradeView
    decreases evs.len(),
{
    if evs.len() == 0 {
        s
    } else {
        after(run(s, evs.drop_last()), evs.last()).0
    }
}

/// The image turned out to be of a later major version.
pub open spec fn is_later(ev: Event) -> bool {
    ev matches Event::Probed { from_key, to_key, .. } && to_key > from_key
}

/// The events hold a probe that found a later major version.
pub open spec fn found_later(evs: Seq<Event>) -> bool {
    exists|i: int| 0 <= i < evs.len() && is_later(#[trigger] evs[i])
}

/// The events hold a swap that succeeded.
pub open spec fn swapped(evs: Seq<Event>) -> bool {
    exists|i: int| 0 <= i < evs.len() && (#[trigger] evs[i]) is Swapped
}

/// The events hold a staging of the programs of this version.
pub open spec fn staged(evs: Seq<Event>, from: Seq<char>) -> bool {
    exists|i: int| 0 <= i < evs.len() && is_staged(#[trigger] evs[i], from)
}

/// The programs of this version were staged.
pub open spec fn is_staged(ev: Event, from: Seq<char>) -> bool {
    ev matches Event::Staged { version, .. } && version@ == from
}

/// The image has not been probed yet.
pub open spec fn unprobed(stage: Stage) -> bool {
    stage == Stage::Start || stage == Stage::Pulling || stage == Stage::Reading || stage
        == Stage::Probing
}

/// The old programs have not been staged yet.
pub open spec fn unstaged(stage: Stage) -> bool {
    unprobed(stage) || stage == Stage::Gathering || stage == Stage::Requesting || stage
        == Stage::Staging
}

/// The old cluster is still the one that counts: the swap has not been made,
/// or was a rehearsal, or was given up.
pub open spec fn still_old(stage: Stage) -> bool {
    unstaged(stage) || stage == Stage::Fencing || stage == Stage::Holding || stage
        == Stage::Swapping || stage == Stage::Blaming || stage == Stage::Restarting || stage == Stage::RestartWaiting || stage
        == Stage::RestartUnfencing || stage == Stage::RestartReleasing || rehearsed(stage) || stage
        == Stage::Ended
}

/// The rehearsal is done, and the old instance is being brought back.
pub open spec fn rehearsed(stage: Stage) -> bool {
    stage == Stage::Rehearsed || stage == Stage::RehearsedWaiting || stage
        == Stage::RehearsedUnfencing || stage == Stage::RehearsedReleasing || stage
        == Stage::RehearsedLogging
}

/// What every run has shown by the time it gets somewhere.
proof fn along_the_way(s: UpgradeView, evs: Seq<Event>)
    requires
        s.stage == Stage::Start,
    ensures
        run(s, evs).plan == s.plan,
        run(s, evs).stage != Stage::Start && run(s, evs).stage != Stage::Ended ==> refusal(s.plan)
            is None,
        unprobed(run(s, evs).stage) || run(s, evs).stage == Stage::Ended || found_later(evs),
        unstaged(run(s, evs).stage) || run(s, evs).stage == Stage::Ended || staged(
            evs,
            run(s, evs).from_version,
        ),
        still_old(run(s, evs).stage) || (!s.plan.check && swapped(evs)),
        rehearsed(run(s, evs).stage) ==> s.plan.check,
    decreases evs.len(),
{
    if evs.len() > 0 {
        let before = evs.drop_last();
        let last = evs.last();
        along_the_way(s, before);
        let t = run(s, before);
        if found_later(before) {
            let i = choose|i: int| 0 <= i < before.len() && is_later(#[trigger] before[i]);
            assert(is_later(evs[i]));
        }
        if is_later(last) {
            assert(is_later(evs[evs.len() - 1]));
        }
        if staged(before, t.from_version) {
            let i = choose|i: int|
                0 <= i < before.len() && is_staged(#[trigger] before[i], t.from_version);
            assert(is_staged(evs[i], t.from_version));
        }
        if is_staged(last, t.from_version) {
            assert(is_staged(evs[evs.len() - 1], t.from_version));
        }
        if swapped(before) {
            let i = choose|i: int| 0 <= i < before.len() && (#[trigger] before[i]) is Swapped;
            assert(evs[i] is Swapped);
        }
        if last is Swapped {
            assert(evs[evs.len() - 1] is Swapped);
        }
        assert(after(t, last).0.plan == t.plan);
    }
}

/// No client is held and no instance stopped before every refusal is behind:
/// the plan is not refused, the image is of a later major version, and the
/// staged programs are of the version that the data is of.
pub proof fn refusals_come_before_the_hold(s: UpgradeView, evs: Seq<Event>, ev: Event)
    requires
        s.stage == Stage::Start,
        after(run(s, evs), ev).1 is HoldPoolers || after(run(s, evs), ev).1 is Swap,
    ensures
        refusal(s.plan) is None,
        found_later(evs),
        staged(evs, run(s, evs).from_version),
{
    along_the_way(s, evs);
}

/// A rehearsal never gets to what an upgrade changes: the new image is not
/// recorded, no new instance is started, the repository, the statistics and
/// the backups are left alone.
pub proof fn a_rehearsal_never_changes_anything(s: UpgradeView, evs: Seq<Event>, ev: Event)
    requires
        s.stage == Stage::Start,
        s.plan.check,
    ensures
        ({
            let act = after(run(s, evs), ev).1;
            !(act is RecordTarget || act is StartNew || act is UpgradeStanza || act is Analyze
                || act is TakeBackup)
        }),
{
    along_the_way(s, evs);
}

/// An upgrade that is reported as made was made: `pg_upgrade` ran and
/// succeeded, for a later version.
pub proof fn what_is_reported_happened(s: UpgradeView, evs: Seq<Event>, ev: Event)
    requires
        s.stage == Stage::Start,
        !s.plan.check,
        after(run(s, evs), ev).1 is Report,
    ensures
        swapped(evs),
        found_later(evs),
        refusal(s.plan) is None,
{
    along_the_way(s, evs);
}

/// An upgrade that has ended does nothing more.
pub proof fn the_end_is_the_end(s: UpgradeView, ev: Event)
    requires
        s.stage == Stage::Ended,
    ensures
        after(s, ev) == (s, ActView::Ignore),
{
}

// ---- what each decision rests on -------------------------------------

/// An upgrade is refused at once exactly where the cluster has not just one
/// instance, or the image asked for is the one it has.
pub proof fn what_is_refused_at_once(p: UpgradePlan)
    ensures
        refusal(p) is None <==> p.instances == 1 && trimmed(p.to_image@) != trimmed(p.image@),
{
}

/// An image is accepted exactly where its major version is later than the
/// data's.
pub proof fn only_a_later_version_is_accepted(
    to_image: Seq<char>,
    from: Seq<char>,
    from_key: u32,
    to: Seq<char>,
    to_key: u32,
)
    ensures
        version_refusal(to_image, from, from_key, to, to_key) is None <==> to_key > from_key,
        version_refusal(to_image, from, from_key, to, to_key) matches Some(m) ==> occurs(m, from)
            && occurs(m, to_image),
{
    let none = Seq::<char>::empty();
    let a = " is also PostgreSQL "@;
    let b = " carries PostgreSQL "@ + to + ", which is older than this cluster's "@;
    a_part_occurs(to_image + a, from, SAME_MAJOR_TAIL@);
    a_part_occurs(none, to_image, a + from + SAME_MAJOR_TAIL@);
    assert(same_major(to_image, from) =~= none + to_image + (a + from + SAME_MAJOR_TAIL@));
    a_part_occurs(to_image + b, from, OLDER_TAIL@);
    assert(older(to_image, to, from) =~= to_image + b + from + OLDER_TAIL@);
    a_part_occurs(none, to_image, b + from + OLDER_TAIL@);
    assert(older(to_image, to, from) =~= none + to_image + (b + from + OLDER_TAIL@));
}

/// An image that does not fit its data is refused both ways, and one cannot be
/// compared where there is no data; a later one is told how to upgrade.
pub proof fn an_image_must_fit_its_data(
    cluster: Seq<char>,
    to: Seq<char>,
    disk: Option<Version>,
    image: Version,
)
    ensures
        image_refusal(cluster, to, disk, image) is None <==> (disk is None || disk->0.key
            == image.key),
        disk matches Some(d) ==> image.key > d.key ==> (image_refusal(
            cluster,
            to,
            disk,
            image,
        ) matches Some(m) && occurs(m, cluster + " --to-image "@ + to)),
        disk matches Some(d) ==> image.key < d.key ==> (image_refusal(
            cluster,
            to,
            disk,
            image,
        ) matches Some(m) && occurs(m, d.label@ + " image to match the data.\n\nNothing has been changed."@)),
{
    if let Some(d) = disk {
        what_a_newer_image_is_told(cluster, d.label@, to, image.label@);
        what_an_older_image_is_told(cluster, d.label@, to, image.label@);
    }
}

proof fn what_a_newer_image_is_told(
    cluster: Seq<char>,
    disk: Seq<char>,
    to: Seq<char>,
    image: Seq<char>,
)
    ensures
        occurs(newer_image(cluster, disk, to, image), cluster + " --to-image "@ + to),
{
    let head = cluster + " holds a PostgreSQL "@ + disk + " data directory, and "@ + to
        + " is PostgreSQL "@ + image;
    let x = cluster + " --to-image "@ + to;
    let rest = "\n\nNothing has been changed — the data directory is still PostgreSQL "@ + disk
        + "."@;
    assert(newer_image(cluster, disk, to, image) =~= head + NEWER_HEAD@ + x + rest);
    a_part_occurs(head + NEWER_HEAD@, x, rest);
}

proof fn what_an_older_image_is_told(
    cluster: Seq<char>,
    disk: Seq<char>,
    to: Seq<char>,
    image: Seq<char>,
)
    ensures
        occurs(
            older_image(cluster, disk, to, image),
            disk + " image to match the data.\n\nNothing has been changed."@,
        ),
{
    let head = cluster + " holds a PostgreSQL "@ + disk + " data directory, and "@ + to
        + " is PostgreSQL "@ + image;
    let y = disk + " image to match the data.\n\nNothing has been changed."@;
    let none = Seq::<char>::empty();
    assert(older_image(cluster, disk, to, image) =~= head + OLDER_IMAGE@ + y + none);
    a_part_occurs(head + OLDER_IMAGE@, y, none);
}

/// What is warned of: that nobody holds the clients, or how long each pooler
/// does; that a cluster which archives has no backup; and that linked files
/// leave no way back where there is none.
pub proof fn what_is_warned_of(p: UpgradePlan, fronting: Seq<Fronting>, has_backups: bool)
    ensures
        ({
            let w = warnings_for(p, fronting, has_backups);
            let n = if fronting.len() == 0 {
                1
            } else {
                fronting.len() as int
            };
            &&& fronting.len() == 0 ==> occurs(w[0], p.cluster@)
            &&& forall|i: int|
                0 <= i < fronting.len() ==> occurs(
                    #[trigger] w[i],
                    fronting[i].pooler@ + " holds clients for at most "@ + fronting[i].budget@,
                )
            &&& p.backup_enabled && has_backups ==> w.len() == n
            &&& p.backup_enabled && !has_backups ==> w.len() == n + 1 && w.last() == no_backup_yet(
                p.cluster@,
            )
            &&& !p.backup_enabled && p.method == UpgradeMethod::Link ==> w.len() == n + 1 && w.last()
                == no_way_back(p.cluster@)
            &&& !p.backup_enabled && p.method == UpgradeMethod::Copy ==> w.len() == n
        }),
{
    let w = warnings_for(p, fronting, has_backups);
    a_part_occurs(
        "no pooler fronts "@,
        p.cluster@,
        ", so every open connection will be dropped rather than held. `pgpod apply -f pooler.yaml` first if that matters."@,
    );
    assert forall|i: int| 0 <= i < fronting.len() implies occurs(
        #[trigger] w[i],
        fronting[i].pooler@ + " holds clients for at most "@ + fronting[i].budget@,
    ) by {
        let f = fronting[i];
        let x = f.pooler@ + " holds clients for at most "@ + f.budget@;
        a_part_occurs("pooler "@, x, HOLD_TAIL@);
        assert(hold_budget(f) =~= "pooler "@ + x + HOLD_TAIL@);
        assert(w[i] == hold_budget(f));
    }
}

/// Copying is given a day, linking an hour, and each has its word.
pub proof fn the_methods(m: UpgradeMethod)
    ensures
        m == UpgradeMethod::Link ==> m.word() == "link"@ && m.limit() == 60 * 60,
        m == UpgradeMethod::Copy ==> m.word() == "copy"@ && m.limit() == 24 * 60 * 60,
{
}

/// What each event before the window leads to.
pub proof fn each_event_before_the_window_decides(s: UpgradeView, ev: Event)
    ensures
        ({
            let t = after(s, ev).0;
            let act = after(s, ev).1;
            &&& s.stage == Stage::Start && ev is Begin ==> {
                &&& s.plan.instances == 1 && trimmed(s.plan.to_image@) != trimmed(s.plan.image@)
                    ==> act is PullImage && t.stage == Stage::Pulling
                &&& !(s.plan.instances == 1 && trimmed(s.plan.to_image@) != trimmed(s.plan.image@))
                    ==> act is Fail && t.stage == Stage::Ended
            }
            &&& s.stage == Stage::Pulling && ev is Done ==> act is ReadVersion && t.stage
                == Stage::Reading
            &&& s.stage == Stage::Reading ==> (ev matches Event::Version(v) ==> act is ProbeImage
                && t.stage == Stage::Probing && t.from_version == v@)
            &&& s.stage == Stage::Probing ==> (ev matches Event::Probed {
                version,
                from_key,
                to_key,
            } ==> {
                &&& to_key > from_key ==> act is GatherFacts && t.stage == Stage::Gathering
                    && t.to_version == version@
                &&& to_key <= from_key ==> act is Fail && t.stage == Stage::Ended
            })
            &&& s.stage == Stage::Gathering ==> (ev matches Event::Facts { fronting, has_backups }
                ==> act is LogRequest && t.stage == Stage::Requesting && t.warnings == warnings_for(
                s.plan,
                fronting@,
                has_backups,
            ))
            &&& s.stage == Stage::Requesting && ev is Done ==> act is StageOld && t.stage
                == Stage::Staging
            &&& s.stage == Stage::Staging ==> (ev matches Event::Staged { version, bytes } ==> {
                &&& version@ == s.from_version ==> act is Fence && t.stage == Stage::Fencing
                    && t.staged_bytes == bytes
                &&& version@ != s.from_version ==> act is Fail && t.stage == Stage::Ended
            })
            &&& s.stage == Stage::Fencing && ev is Done ==> act is HoldPoolers && t.stage
                == Stage::Holding
            &&& s.stage == Stage::Holding ==> (ev matches Event::Held(n) ==> act is Swap && t.stage
                == Stage::Swapping && t.held == n)
            &&& t.plan == s.plan
        }),
{
}

/// What each event in the window and behind it leads to: a rehearsal brings
/// the old instance back, and an upgrade records the new image, starts the new
/// instance, waits for it, takes the archive along where there is one, and
/// only then lets the clients go; statistics and a backup follow where they
/// were asked for.
pub proof fn each_event_in_the_window_decides(s: UpgradeView, ev: Event)
    ensures
        ({
            let t = after(s, ev).0;
            let act = after(s, ev).1;
            &&& s.stage == Stage::Swapping ==> (ev matches Event::Swapped {
                seconds,
                old_data_dir,
            } ==> t.seconds == seconds && t.old_data_dir == old_data_dir@ && {
                &&& s.plan.check ==> act is RestartOld && t.stage == Stage::Rehearsed
                &&& !s.plan.check ==> act is RecordTarget && t.stage == Stage::Recording
            })
            &&& s.stage == Stage::Rehearsed && ev is Done ==> act is WaitReady && t.stage
                == Stage::RehearsedWaiting
            &&& s.stage == Stage::RehearsedWaiting && ev is Done ==> act is Unfence && t.stage
                == Stage::RehearsedUnfencing
            &&& s.stage == Stage::RehearsedUnfencing && ev is Done ==> act is Release && t.stage
                == Stage::RehearsedReleasing
            &&& s.stage == Stage::RehearsedReleasing ==> (ev matches Event::Released(ms)
                ==> act is Log && t.stage == Stage::RehearsedLogging && t.held_ms == ms)
            &&& s.stage == Stage::RehearsedLogging && ev is Done ==> act is Report && t.stage
                == Stage::Ended
            &&& s.stage == Stage::Recording && ev is Done ==> act is StartNew && t.stage
                == Stage::Starting
            &&& s.stage == Stage::Starting && ev is Done ==> act is WaitReady && t.stage
                == Stage::Waiting
            &&& s.stage == Stage::Waiting && ev is Done && s.plan.backup_enabled
                ==> act is UpgradeStanza && t.stage == Stage::Archiving
            &&& s.stage == Stage::Waiting && ev is Done && !s.plan.backup_enabled
                ==> act is Release && t.stage == Stage::Releasing
            &&& s.stage == Stage::Archiving && ev is Done ==> act is Release && t.stage
                == Stage::Releasing
            &&& s.stage == Stage::Releasing ==> (ev matches Event::Released(ms) ==> act is Log
                && t.stage == Stage::Logging && t.held_ms == ms)
            &&& s.stage == Stage::Logging && ev is Done && s.plan.analyze ==> act is Analyze
                && t.stage == Stage::Analyzing
            &&& (s.stage == Stage::Analyzing || (s.stage == Stage::Logging && !s.plan.analyze)) && (
            ev is Done || (ev is Failed && s.stage == Stage::Analyzing)) ==> {
                &&& s.plan.backup && s.plan.backup_enabled ==> act is TakeBackup && t.stage
                    == Stage::BackingUp
                &&& !(s.plan.backup && s.plan.backup_enabled) ==> act is Unfence && t.stage
                    == Stage::Finishing
                &&& t.analyzed == (s.analyzed || (s.stage == Stage::Analyzing && ev is Done))
            }
            &&& s.stage == Stage::BackingUp ==> (ev matches Event::BackedUp(l) ==> act is Unfence
                && t.stage == Stage::Finishing && t.backup_label == opt_text(l))
            &&& s.stage == Stage::Finishing && ev is Done ==> act is Report && t.stage
                == Stage::Ended
        }),
{
}

/// What each failure leads to. A swap that fails brings the old instance back,
/// is waited for as far as that goes, and is told as the error that it was;
/// where the old instance does not come back either, both are told.
pub proof fn each_failure_decides(s: UpgradeView, e: String)
    ensures
        ({
            let t = after(s, Event::Failed(e)).0;
            let act = after(s, Event::Failed(e)).1;
            &&& s.stage == Stage::Reading ==> t.stage == Stage::Ended && (act matches ActView::Fail(
                m,
            ) && occurs(m, e@))
            &&& s.stage == Stage::Swapping ==> t.stage == Stage::Blaming && t.error == e@ && (
            act matches ActView::LogFailure(m) && occurs(m, e@))
            &&& s.stage == Stage::Restarting ==> t.stage == Stage::Ended && (
            act matches ActView::GiveUp(m) && occurs(m, s.error) && occurs(m, e@))
            &&& s.stage == Stage::RestartWaiting ==> act is Unfence && t.stage
                == Stage::RestartUnfencing
            &&& s.stage == Stage::Archiving ==> act is Release && t.stage == Stage::Releasing
                && t.warnings.len() == s.warnings.len() + 1 && occurs(t.warnings.last(), e@)
            &&& s.stage == Stage::BackingUp ==> act is Unfence && t.stage == Stage::Finishing
                && t.warnings.len() == s.warnings.len() + 1 && occurs(t.warnings.last(), e@)
            &&& s.stage == Stage::Pulling || s.stage == Stage::Probing || s.stage
                == Stage::Gathering || s.stage == Stage::Requesting || s.stage == Stage::Staging
                || s.stage == Stage::Fencing || s.stage == Stage::Holding || s.stage
                == Stage::Blaming || s.stage == Stage::RestartUnfencing || s.stage
                == Stage::RestartReleasing || s.stage == Stage::Rehearsed || s.stage
                == Stage::RehearsedWaiting || s.stage == Stage::RehearsedUnfencing || s.stage
                == Stage::RehearsedReleasing || s.stage == Stage::RehearsedLogging || s.stage
                == Stage::Recording || s.stage == Stage::Starting || s.stage == Stage::Waiting
                || s.stage == Stage::Releasing || s.stage == Stage::Logging || s.stage
                == Stage::Finishing ==> act == ActView::Fail(e@) && t.stage == Stage::Ended
        }),
        s.stage == Stage::Blaming ==> after(s, Event::Done).1 is RestartOld && after(
            s,
            Event::Done,
        ).0.stage == Stage::Restarting,
        s.stage == Stage::Restarting ==> after(s, Event::Done).1 is WaitReady && after(
            s,
            Event::Done,
        ).0.stage == Stage::RestartWaiting,
        s.stage == Stage::RestartWaiting ==> after(s, Event::Done).1 is Unfence && after(
            s,
            Event::Done,
        ).0.stage == Stage::RestartUnfencing,
        s.stage == Stage::RestartUnfencing ==> after(s, Event::Done).1 is Release && after(
            s,
            Event::Done,
        ).0.stage == Stage::RestartReleasing,
        s.stage == Stage::RestartReleasing ==> forall|ms: u128| (#[trigger] after(
            s,
            Event::Released(ms),
        )).1 == ActView::Fail(s.error),
{
    let x = e@;
    let none = Seq::<char>::empty();
    let a = s.plan.cluster@
        + " has to be running to be upgraded — its data directory's version is read from inside the instance before anything is changed ("@;
    a_part_occurs(a, x, MUST_RUN_TAIL@);
    a_part_occurs("upgrade failed, restarting the old instance: "@, x, none);
    assert(restarting_text(x) =~= "upgrade failed, restarting the old instance: "@ + x + none);
    let b = "), and so did bringing the old instance back up ("@;
    let c = "). The cluster's data is untouched at "@ + PGDATA@ + " inside volume "@
        + s.plan.volume@ + NO_SWAP@;
    let m = both_failed(s.error, x, s.plan.volume@);
    a_part_occurs("the upgrade failed ("@, s.error, b + x + c);
    assert(m =~= "the upgrade failed ("@ + s.error + (b + x + c));
    a_part_occurs("the upgrade failed ("@ + s.error + b, x, c);
    assert(m =~= "the upgrade failed ("@ + s.error + b + x + c);
    let d = "pgbackrest stanza-upgrade failed, so WAL from the upgraded cluster will not be archived until it is run: "@;
    a_part_occurs(d, x, none);
    assert(stanza_warning(x) =~= d + x + none);
    a_part_occurs("the post-upgrade backup failed: "@, x, BACKUP_FAILED_TAIL@);
}

/// A report tells what was planned and what was done: the images, the
/// versions, the method, who held for how long, where the old data is, and
/// what was warned of.
pub proof fn a_report_tells_what_was_done(s: UpgradeView)
    ensures
        ({
            let r = report_of(s);
            &&& r.cluster == s.plan.cluster@
            &&& r.from_image == s.plan.image@
            &&& r.to_image == trimmed(s.plan.to_image@)
            &&& r.from_version == s.from_version
            &&& r.to_version == s.to_version
            &&& r.method == s.plan.method.word()
            &&& r.checked_only == s.plan.check
            &&& r.poolers_held == s.held
            &&& r.held_ms == s.held_ms
            &&& r.upgrade_seconds == s.seconds
            &&& r.staged_bytes == s.staged_bytes
            &&& r.warnings == s.warnings
            &&& !s.plan.check ==> r.old_data_dir == s.old_data_dir && r.analyzed == s.analyzed
                && r.backup_label == s.backup_label
            &&& s.plan.check ==> r.old_data_dir.len() == 0 && !r.analyzed && r.backup_label is None
        }),
        s.stage == Stage::Finishing ==> after(s, Event::Done).1 == ActView::Report(report_of(s)),
        s.stage == Stage::RehearsedLogging ==> after(s, Event::Done).1 == ActView::Report(
            report_of(s),
        ),
{
}

/// What is said on the way of an upgrade: each version, image and number in
/// its place.
pub proof fn what_is_said_of_an_upgrade(
    s: UpgradeView,
    cluster: Seq<char>,
    image: Seq<char>,
    instances: u32,
    e: Seq<char>,
    ms: u128,
)
    ensures
        too_many(cluster, instances) == cluster + " has "@ + decimal(instances as nat) + TOO_MANY@,
        same_image(cluster, image) == cluster + " already runs "@ + image
            + ". A major upgrade needs a different image; a minor one is `pgpod apply --recreate`."@,
        must_run(cluster, e) == cluster
            + " has to be running to be upgraded — its data directory's version is read from inside the instance before anything is changed ("@
            + e + MUST_RUN_TAIL@,
        no_pooler(cluster) == "no pooler fronts "@ + cluster
            + ", so every open connection will be dropped rather than held. `pgpod apply -f pooler.yaml` first if that matters."@,
        request_text(s) == "upgrade "@ + s.from_version + " -> "@ + s.to_version + " requested ("@
            + s.plan.method.word() + " mode); staging the old installation"@,
        wrong_stage(image, e) == "the running image carries PostgreSQL "@ + image
            + ", but the cluster's data directory is "@ + e,
        rehearsed_text(ms) == "upgrade check passed in "@ + decimal(ms as nat)
            + "ms; nothing was changed"@,
        upgraded_text(s, ms) == "upgraded "@ + s.from_version + " -> "@ + s.to_version + " in "@
            + decimal(ms as nat) + "ms held ("@ + decimal(s.seconds as nat)
            + "s in pg_upgrade); the old data directory is kept at "@ + s.old_data_dir,
        analyze_warning(e) == "the cluster is up, but `vacuumdb --analyze-in-stages` failed: "@ + e
            + ". Until it runs, every query plans against no statistics."@,
        backup_warning(e) == "the post-upgrade backup failed: "@ + e + BACKUP_FAILED_TAIL@,
        no_destination(cluster) == cluster
            + " has no backup destination, so no post-upgrade backup was taken"@,
{
}

// ---- what the functions give back ------------------------------------

/// A job of an upgrade failed where it did not end with zero, or where what it
/// said cannot be read; statistics were not gathered where the tool says so.
pub proof fn when_a_job_failed(
    job: &str,
    code: i64,
    logs: &str,
    unreadable: Option<&str>,
    r: Option<Error>,
    success: bool,
    stdout: &str,
    stderr: &str,
    a: Option<String>,
)
    requires
        call_ensures(job_error, (job, code, logs, unreadable), r),
        call_ensures(analyze_in_stages, (success, stdout, stderr), a),
    ensures
        r is None <==> code == 0 && unreadable is None,
        r matches Some(e) ==> (e@ matches ErrorView::Upgrade { step, .. } && step == job@),
        code != 0 ==> (r matches Some(e) && e@ == (ErrorView::Upgrade { step: job@, detail: logs@ })),
        a is None <==> success,
{
}

/// The version that runs is known exactly where it could be read and
/// understood.
pub proof fn when_the_version_is_known(
    instance: &str,
    success: bool,
    stdout: &str,
    stderr: &str,
    label: Option<String>,
    r: Result<String, String>,
)
    requires
        call_ensures(running_version, (instance, success, stdout, stderr, label), r),
    ensures
        r is Ok <==> success && label is Some,
        r matches Ok(v) ==> label == Some(v),
{
}

} // verus!
