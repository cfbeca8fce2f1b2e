//! Clusters and instances, as far as decisions depend on them.

use crate::backup::config::{Destination, RetentionMode};
use crate::text::{append_decimal, decimal};
use vstd::prelude::*;
use vstd::string::*;

verus! {

/// Where an instance is in its life.
#[derive(Debug, Clone, Copy, PartialEq, Eq, Structural)]
pub enum InstancePhase {
    Creating,
    Bootstrapping,
    Running,
    Stopping,
    Stopped,
    Failed,
    /// Kept down on purpose: starting it could make two primaries.
    Fenced,
    /// Its data can no longer be used.
    NeedsRebuild,
    Terminated,
}

impl InstancePhase {
    /// Somebody decided that this instance stays down.
    pub open spec fn blocked(&self) -> bool {
        match *self {
            InstancePhase::Fenced => true,
            InstancePhase::NeedsRebuild => true,
            InstancePhase::Stopped => true,
            InstancePhase::Terminated => true,
            _ => false,
        }
    }

    /// Whether somebody decided that this instance stays down.
    pub fn blocks_restart(&self) -> (r: bool)
        ensures
            r == self.blocked(),
    {
        match self {
            InstancePhase::Fenced | InstancePhase::NeedsRebuild | InstancePhase::Stopped
            | InstancePhase::Terminated => true,
            _ => false,
        }
    }
}

/// Where a cluster or a pooler is in its life.
#[derive(Debug, Clone, Copy, PartialEq, Eq, Structural)]
pub enum ClusterPhase {
    Running,
    Applying,
    Upgrading,
    Stopped,
    Failed,
    /// A phase this version does not know.
    Unknown,
}

impl ClusterPhase {
    /// The stored word.
    pub open spec fn word(&self) -> Seq<char> {
        match *self {
            ClusterPhase::Running => "running"@,
            ClusterPhase::Applying => "applying"@,
            ClusterPhase::Upgrading => "upgrading"@,
            ClusterPhase::Stopped => "stopped"@,
            ClusterPhase::Failed => "failed"@,
            ClusterPhase::Unknown => "unknown"@,
        }
    }

    /// The stored word.
    pub fn as_str(&self) -> (r: &'static str)
        ensures
            r@ == self.word(),
    {
        match self {
            ClusterPhase::Running => "running",
            ClusterPhase::Applying => "applying",
            ClusterPhase::Upgrading => "upgrading",
            ClusterPhase::Stopped => "stopped",
            ClusterPhase::Failed => "failed",
            ClusterPhase::Unknown => "unknown",
        }
    }
}

/// An instance: its cluster, its number, and what podman calls its parts.
#[derive(Debug, Clone, PartialEq, Eq)]
pub struct Instance {
    pub cluster: String,
    pub ordinal: u32,
    pub container: String,
    pub volume: String,
    pub network: String,
}

/// `cluster-ordinal`.
pub open spec fn instance_name(cluster: Seq<char>, ordinal: u32) -> Seq<char> {
    cluster + "-"@ + decimal(ordinal as nat)
}

/// `cluster-ordinal`.
pub fn instance_name_of(cluster: &str, ordinal: u32) -> (r: String)
    ensures
        r@ == instance_name(cluster@, ordinal),
{
    let mut s = cluster.to_owned();
    s.append("-");
    append_decimal(&mut s, ordinal as u64);
    s
}

impl Instance {
    /// `cluster-ordinal`.
    pub open spec fn name(&self) -> Seq<char> {
        instance_name(self.cluster@, self.ordinal)
    }

    /// `cluster-ordinal`.
    pub fn to_text(&self) -> (r: String)
        ensures
            r@ == self.name(),
    {
        instance_name_of(self.cluster.as_str(), self.ordinal)
    }
}

/// How a new cluster is initialised.
#[derive(Debug, Clone, PartialEq, Eq)]
pub struct InitdbSpec {
    /// The application's database and its owner.
    pub database: Option<String>,
    pub owner: Option<String>,
}

/// Where and how a cluster is backed up.
#[derive(Debug, Clone)]
pub struct BackupSpec {
    pub destinations: Vec<Destination>,
    /// The volume behind a local destination.
    pub volume: Option<String>,
    pub retention: Option<String>,
    pub retention_mode: RetentionMode,
}

impl BackupSpec {
    /// Whether there is anywhere to put a backup.
    pub fn is_enabled(&self) -> (r: bool)
        ensures
            r == (self.destinations@.len() > 0),
    {
        self.destinations.len() > 0
    }
}

/// A cluster, as its manifest describes it.
#[derive(Debug, Clone)]
pub struct ClusterManifest {
    pub name: String,
    pub image_name: String,
    pub instances: u32,
    pub postgres_uid: u32,
    pub postgres_gid: u32,
    pub initdb: InitdbSpec,
    pub parameters: Vec<(String, String)>,
    pub shared_preload_libraries: Vec<String>,
    pub backup: BackupSpec,
    pub storage_size: Option<String>,
}

/// Who connects, and to which database: the application's, where the manifest
/// names both, or `postgres`.
pub open spec fn login(m: ClusterManifest) -> (Seq<char>, Seq<char>) {
    match (m.initdb.owner, m.initdb.database) {
        (Some(owner), Some(db)) => (owner@, db@),
        _ => ("postgres"@, "postgres"@),
    }
}

/// How an instance is reached from the host.
pub open spec fn uri(user: Seq<char>, host_port: u16, database: Seq<char>) -> Seq<char> {
    "postgresql://"@ + user + "@127.0.0.1:"@ + decimal(host_port as nat) + "/"@ + database
}

/// How an instance is reached from the host. There is no password in it.
pub fn connection_uri(host_port: u16, manifest: &ClusterManifest) -> (r: String)
    ensures
        r@ == uri(login(*manifest).0, host_port, login(*manifest).1),
{
    let mut s = "postgresql://".to_owned();
    match (&manifest.initdb.owner, &manifest.initdb.database) {
        (Some(owner), Some(db)) => {
            s.append(owner.as_str());
            s.append("@127.0.0.1:");
            append_decimal(&mut s, host_port as u64);
            s.append("/");
            s.append(db.as_str());
        },
        _ => {
            s.append("postgres");
            s.append("@127.0.0.1:");
            append_decimal(&mut s, host_port as u64);
            s.append("/");
            s.append("postgres");
        },
    }
    s
}

/// An instance is called by its cluster and its number: no two numbers share a
/// name.
pub proof fn instances_are_told_apart(cluster: Seq<char>, a: u32, b: u32)
    ensures
        instance_name(cluster, a) == instance_name(cluster, b) ==> a == b,
        instance_name(cluster, a) == cluster + "-"@ + crate::text::decimal(a as nat),
{
    let head = cluster + "-"@;
    crate::text::a_number_reads_back(a as nat, a as nat);
    crate::text::a_number_reads_back(b as nat, b as nat);
    let x = instance_name(cluster, a);
    let y = instance_name(cluster, b);
    assert(x.subrange(head.len() as int, x.len() as int) =~= crate::text::decimal(a as nat));
    assert(y.subrange(head.len() as int, y.len() as int) =~= crate::text::decimal(b as nat));
}

/// What somebody put down on purpose stays down: what is fenced, what needs
/// rebuilding, what was stopped and what is gone. Nothing else keeps an
/// instance from being started.
pub proof fn what_stays_down(p: InstancePhase)
    ensures
        p.blocked() <==> p == InstancePhase::Fenced || p == InstancePhase::NeedsRebuild || p
            == InstancePhase::Stopped || p == InstancePhase::Terminated,
{
}

/// The phases of a cluster, by their stored words.
pub proof fn phases_by_word(p: ClusterPhase)
    ensures
        p == ClusterPhase::Running ==> p.word() == "running"@,
        p == ClusterPhase::Applying ==> p.word() == "applying"@,
        p == ClusterPhase::Upgrading ==> p.word() == "upgrading"@,
        p == ClusterPhase::Stopped ==> p.word() == "stopped"@,
        p == ClusterPhase::Failed ==> p.word() == "failed"@,
        p == ClusterPhase::Unknown ==> p.word() == "unknown"@,
{
}

/// The application's owner connects to its database where both are named, and
/// otherwise the superuser to its own; the address says the user, this host,
/// the port and the database.
pub proof fn who_connects_where(m: ClusterManifest, port: u16)
    ensures
        m.initdb.owner is Some && m.initdb.database is Some ==> login(m) == (
            m.initdb.owner->0@,
            m.initdb.database->0@,
        ),
        m.initdb.owner is None || m.initdb.database is None ==> login(m) == (
            "postgres"@,
            "postgres"@,
        ),
        uri(login(m).0, port, login(m).1) == "postgresql://"@ + login(m).0 + "@127.0.0.1:"@
            + crate::text::decimal(port as nat) + "/"@ + login(m).1,
{
}

} // verus!
