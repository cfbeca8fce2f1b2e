//! The containers pgpod creates, field by field.

use crate::backup::config::{destination_views, Destination, DestinationView};
use crate::container::{
    credentials_path, credentials_target, lookup_path, lookup_target, AGENT_BIN, ARCHIVE_MOUNT,
    PGBACKREST_BIN, PGBACKREST_BUNDLE, PGBACKREST_CONF, PG_PORT, POOLER_DIR, POOLER_PORT,
    POOLER_SPEC_ENV, SECRET_APP_OWNER, SECRET_MONITOR, SECRET_POOLER_ADMIN, SECRET_REPLICATION,
    SECRET_SUPERUSER, SPEC_ENV, UPGRADE_SPEC_ENV, VOLUME_MOUNT,
};
use crate::control::error::{Error, ErrorView};
use crate::control::model::{ClusterManifest, Instance};
use crate::control::names::{
    instance_labels, labels_of, pooler_label_texts, pooler_labels, pooler_lookup_secret, SecretNames,
    LABEL_CLUSTER,
};
use crate::text::{
    a_number_reads_back, append_decimal, begins_with, clone_list, decimal, opt_str, opt_text, pair_texts,
    push_pair, push_text, starts_with, texts, trim, trimmed,
};
use vstd::prelude::*;
use vstd::string::*;

verus! {

/// Something mounted into a container.
#[derive(Debug, Clone, PartialEq, Eq)]
pub enum Mount {
    /// A volume, and whether its files are handed to the container's user.
    Volume { name: String, target: String, chown: bool },
    BindReadOnly { source: String, target: String },
    Tmpfs { target: String },
}

/// [`Mount`], over text.
pub enum MountView {
    Volume { name: Seq<char>, target: Seq<char>, chown: bool },
    BindReadOnly { source: Seq<char>, target: Seq<char> },
    Tmpfs { target: Seq<char> },
}

impl View for Mount {
    type V = MountView;

    open spec fn view(&self) -> MountView {
        match *self {
            Mount::Volume { name, target, chown } => MountView::Volume {
                name: name@,
                target: target@,
                chown,
            },
            Mount::BindReadOnly { source, target } => MountView::BindReadOnly {
                source: source@,
                target: target@,
            },
            Mount::Tmpfs { target } => MountView::Tmpfs { target: target@ },
        }
    }
}

/// A secret mounted into a container, readable by its user alone.
#[derive(Debug, Clone, PartialEq, Eq)]
pub struct SecretMount {
    pub name: String,
    pub target: String,
    /// The permissions of the file it appears as.
    pub mode: u32,
    pub uid: u32,
    pub gid: u32,
}

/// The permissions of a mounted secret: its owner may read it, and nobody
/// else may do anything.
pub const SECRET_MODE: u32 = 0o400;

/// [`SecretMount`], over text.
pub struct SecretView {
    pub name: Seq<char>,
    pub target: Seq<char>,
    pub mode: u32,
    pub uid: u32,
    pub gid: u32,
}

impl View for SecretMount {
    type V = SecretView;

    open spec fn view(&self) -> SecretView {
        SecretView {
            name: self.name@,
            target: self.target@,
            mode: self.mode,
            uid: self.uid,
            gid: self.gid,
        }
    }
}

pub open spec fn mount_views(v: Seq<Mount>) -> Seq<MountView> {
    v.map_values(|m: Mount| m@)
}

pub open spec fn secret_views(v: Seq<SecretMount>) -> Seq<SecretView> {
    v.map_values(|s: SecretMount| s@)
}

/// A container with a read-only root and no privileges.
#[derive(Debug, Clone, PartialEq, Eq)]
pub struct ContainerSpec {
    pub image: String,
    pub name: String,
    pub hostname: Option<String>,
    pub user: String,
    pub entrypoint: Vec<String>,
    pub env: Vec<(String, String)>,
    pub networks: Vec<String>,
    /// Published on the loopback address: the host's port and the
    /// container's.
    pub publish: Option<(u16, u16)>,
    pub mounts: Vec<Mount>,
    pub secrets: Vec<SecretMount>,
    pub labels: Vec<(String, String)>,
    pub log_driver: Option<String>,
}

/// [`ContainerSpec`], over text.
pub struct ContainerView {
    pub image: Seq<char>,
    pub name: Seq<char>,
    pub hostname: Option<Seq<char>>,
    pub user: Seq<char>,
    pub entrypoint: Seq<Seq<char>>,
    pub env: Seq<(Seq<char>, Seq<char>)>,
    pub networks: Seq<Seq<char>>,
    pub publish: Option<(u16, u16)>,
    pub mounts: Seq<MountView>,
    pub secrets: Seq<SecretView>,
    pub labels: Seq<(Seq<char>, Seq<char>)>,
    pub log_driver: Option<Seq<char>>,
}

impl View for ContainerSpec {
    type V = ContainerView;

    open spec fn view(&self) -> ContainerView {
        ContainerView {
            image: self.image@,
            name: self.name@,
            hostname: opt_text(self.hostname),
            user: self.user@,
            entrypoint: texts(self.entrypoint@),
            env: pair_texts(self.env@),
            networks: texts(self.networks@),
            publish: self.publish,
            mounts: mount_views(self.mounts@),
            secrets: secret_views(self.secrets@),
            labels: pair_texts(self.labels@),
            log_driver: opt_text(self.log_driver),
        }
    }
}

fn put_mount(v: &mut Vec<Mount>, m: Mount)
    ensures
        mount_views(final(v)@) == mount_views(old(v)@).push(m@),
{
    let ghost added = m@;
    v.push(m);
    assert(mount_views(v@) =~= mount_views(old(v)@).push(added));
}

fn put_secret(v: &mut Vec<SecretMount>, name: &str, target: &str, uid: u32, gid: u32)
    ensures
        secret_views(final(v)@) == secret_views(old(v)@).push(
            SecretView { name: name@, target: target@, mode: SECRET_MODE, uid, gid },
        ),
{
    v.push(SecretMount { name: name.to_owned(), target: target.to_owned(), mode: SECRET_MODE, uid, gid });
    assert(secret_views(v@) =~= secret_views(old(v)@).push(
        SecretView { name: name@, target: target@, mode: SECRET_MODE, uid, gid },
    ));
}

/// `uid:gid`.
pub open spec fn user_text(uid: u32, gid: u32) -> Seq<char> {
    decimal(uid as nat) + ":"@ + decimal(gid as nat)
}

fn user_of(uid: u32, gid: u32) -> (r: String)
    ensures
        r@ == user_text(uid, gid),
{
    let mut s = String::new();
    append_decimal(&mut s, uid as u64);
    assert(s@ =~= decimal(uid as nat));
    s.append(":");
    append_decimal(&mut s, gid as u64);
    s
}

/// The credentials of the destinations that have any, each at its own place.
pub open spec fn credential_mounts(ds: Seq<DestinationView>, uid: u32, gid: u32) -> Seq<SecretView>
    decreases ds.len(),
{
    if ds.len() == 0 {
        Seq::empty()
    } else {
        let before = credential_mounts(ds.drop_last(), uid, gid);
        match ds.last().credentials {
            Some(name) => before.push(
                SecretView {
                    name,
                    target: credentials_target((ds.len() - 1) as nat),
                    mode: SECRET_MODE,
                    uid,
                    gid,
                },
            ),
            None => before,
        }
    }
}

fn put_credentials(v: &mut Vec<SecretMount>, ds: &Vec<Destination>, uid: u32, gid: u32)
    ensures
        secret_views(final(v)@) == secret_views(old(v)@) + credential_mounts(
            destination_views(ds@),
            uid,
            gid,
        ),
{
    let ghost start = secret_views(v@);
    let ghost all = destination_views(ds@);
    let mut i: usize = 0;
    assert(secret_views(v@) =~= start + credential_mounts(all.take(0), uid, gid));
    while i < ds.len()
        invariant
            i <= ds.len(),
            all == destination_views(ds@),
            secret_views(v@) == start + credential_mounts(all.take(i as int), uid, gid),
        decreases ds.len() - i,
    {
        assert(all.take(i + 1).drop_last() =~= all.take(i as int));
        assert(all.take(i + 1).last() == ds@[i as int]@);
        if let Some(name) = &ds[i].credentials {
            put_secret(v, name.as_str(), credentials_path(i).as_str(), uid, gid);
            assert(secret_views(v@) =~= start + credential_mounts(all.take(i + 1), uid, gid));
        }
        i = i + 1;
    }
    assert(all.take(i as int) =~= all);
}

/// The pgBackRest bundle on the host.
#[derive(Debug, Clone)]
pub struct Bundle {
    pub path: String,
    pub installed: bool,
}

// ---- an instance -----------------------------------------------------

/// The archive volume that is mounted, and whether a restore will miss one:
/// it reads a local archive, and the manifest names no volume for it.
pub fn archive_volume(volume: &Option<String>, recovery_urls: &Option<Vec<String>>) -> (r: (
    Option<String>,
    bool,
))
    ensures
        r.0 == *volume,
        r.1 == (volume is None && recovery_urls is Some && exists|i: int|
            0 <= i < recovery_urls->0@.len() && begins_with(
                trimmed(#[trigger] texts(recovery_urls->0@)[i]),
                "file://"@,
            )),
{
    match volume {
        Some(v) => (Some(v.clone()), false),
        None => match recovery_urls {
            None => (None, false),
            Some(us) => {
                let mut i: usize = 0;
                while i < us.len()
                    invariant
                        i <= us.len(),
                        volume is None,
                        *recovery_urls == Some(*us),
                        forall|k: int|
                            0 <= k < i ==> !begins_with(
                                trimmed(#[trigger] texts(us@)[k]),
                                "file://"@,
                            ),
                    decreases us.len() - i,
                {
                    if starts_with(trim(us[i].as_str()), "file://") {
                        assert(begins_with(
                            trimmed(texts(recovery_urls->0@)[i as int]),
                            "file://"@,
                        ));
                        return (None, true);
                    }
                    i = i + 1;
                }
                (None, false)
            },
        },
    }
}

/// What an instance's container mounts: its volume, the agent, and what its
/// backups need.
pub open spec fn instance_mounts(
    volume: Seq<char>,
    agent: Seq<char>,
    bundle: Option<Seq<char>>,
    archive: Option<Seq<char>>,
) -> Seq<MountView> {
    let m = seq![
        MountView::Volume { name: volume, target: VOLUME_MOUNT@, chown: false },
        MountView::BindReadOnly { source: agent, target: AGENT_BIN@ },
    ];
    let m = match bundle {
        Some(b) => m.push(MountView::BindReadOnly { source: b, target: PGBACKREST_BUNDLE@ }),
        None => m,
    };
    match archive {
        Some(a) => m.push(MountView::Volume { name: a, target: ARCHIVE_MOUNT@, chown: false }),
        None => m,
    }
}

/// The secrets of an instance: the cluster's, the application's where there
/// is one, and the destinations'.
pub open spec fn instance_secrets(m: ClusterManifest, s: SecretNames) -> Seq<SecretView> {
    let (uid, gid) = (m.postgres_uid, m.postgres_gid);
    let v = seq![
        SecretView { name: s.superuser@, target: SECRET_SUPERUSER@, mode: SECRET_MODE, uid, gid },
        SecretView { name: s.replication@, target: SECRET_REPLICATION@, mode: SECRET_MODE, uid, gid },
        SecretView { name: s.monitor@, target: SECRET_MONITOR@, mode: SECRET_MODE, uid, gid },
    ];
    let v = if m.initdb.database is Some {
        v.push(SecretView { name: s.app_owner@, target: SECRET_APP_OWNER@, mode: SECRET_MODE, uid, gid })
    } else {
        v
    };
    v + credential_mounts(destination_views(m.backup.destinations@), uid, gid)
}

/// An instance needs the bundle: it backs up, or is being restored.
pub open spec fn needs_bundle(m: ClusterManifest, recovering: bool) -> bool {
    m.backup.destinations@.len() > 0 || recovering
}

/// An instance's container.
pub open spec fn instance_container(
    m: ClusterManifest,
    i: Instance,
    s: SecretNames,
    agent: Seq<char>,
    bundle: Bundle,
    recovering: bool,
    spec_env: Seq<char>,
    host_port: u16,
) -> ContainerView {
    ContainerView {
        image: m.image_name@,
        name: i.container@,
        hostname: Some(i.container@),
        user: user_text(m.postgres_uid, m.postgres_gid),
        entrypoint: seq![AGENT_BIN@, "instance"@, "run"@],
        env: seq![(SPEC_ENV@, spec_env)],
        networks: seq![i.network@],
        publish: Some((host_port, PG_PORT)),
        mounts: instance_mounts(
            i.volume@,
            agent,
            if needs_bundle(m, recovering) {
                Some(bundle.path@)
            } else {
                None
            },
            opt_text(m.backup.volume),
        ),
        secrets: instance_secrets(m, s),
        labels: labels_of(i.cluster@, i.ordinal),
        log_driver: None,
    }
}

pub open spec fn container_result(r: Result<ContainerSpec, Error>) -> Result<
    ContainerView,
    ErrorView,
> {
    match r {
        Ok(c) => Ok(c@),
        Err(e) => Err(e@),
    }
}

/// The container of an instance. It fails only where the bundle is needed
/// and not installed.
pub fn container_spec(
    m: &ClusterManifest,
    i: &Instance,
    s: &SecretNames,
    agent: &str,
    bundle: &Bundle,
    recovering: bool,
    spec_env: &str,
    host_port: u16,
) -> (r: Result<ContainerSpec, Error>)
    ensures
        container_result(r) == (if needs_bundle(*m, recovering) && !bundle.installed {
            Err(ErrorView::PgBackRestMissing(bundle.path@))
        } else {
            Ok(instance_container(*m, *i, *s, agent@, *bundle, recovering, spec_env@, host_port))
        }),
{
    let needed = m.backup.is_enabled() || recovering;
    if needed && !bundle.installed {
        return Err(Error::PgBackRestMissing(bundle.path.clone()));
    }
    let uid = m.postgres_uid;
    let gid = m.postgres_gid;
    let mut mounts: Vec<Mount> = Vec::new();
    put_mount(
        &mut mounts,
        Mount::Volume { name: i.volume.clone(), target: VOLUME_MOUNT.to_owned(), chown: false },
    );
    put_mount(
        &mut mounts,
        Mount::BindReadOnly { source: agent.to_owned(), target: AGENT_BIN.to_owned() },
    );
    assert(mount_views(mounts@) =~= seq![
        MountView::Volume { name: i.volume@, target: VOLUME_MOUNT@, chown: false },
        MountView::BindReadOnly { source: agent@, target: AGENT_BIN@ },
    ]);
    if needed {
        put_mount(
            &mut mounts,
            Mount::BindReadOnly {
                source: bundle.path.clone(),
                target: PGBACKREST_BUNDLE.to_owned(),
            },
        );
    }
    if let Some(v) = &m.backup.volume {
        put_mount(
            &mut mounts,
            Mount::Volume { name: v.clone(), target: ARCHIVE_MOUNT.to_owned(), chown: false },
        );
    }
    let mut secrets: Vec<SecretMount> = Vec::new();
    put_secret(&mut secrets, s.superuser.as_str(), SECRET_SUPERUSER, uid, gid);
    put_secret(&mut secrets, s.replication.as_str(), SECRET_REPLICATION, uid, gid);
    put_secret(&mut secrets, s.monitor.as_str(), SECRET_MONITOR, uid, gid);
    assert(secret_views(secrets@) =~= seq![
        SecretView { name: s.superuser@, target: SECRET_SUPERUSER@, mode: SECRET_MODE, uid, gid },
        SecretView { name: s.replication@, target: SECRET_REPLICATION@, mode: SECRET_MODE, uid, gid },
        SecretView { name: s.monitor@, target: SECRET_MONITOR@, mode: SECRET_MODE, uid, gid },
    ]);
    if m.initdb.database.is_some() {
        put_secret(&mut secrets, s.app_owner.as_str(), SECRET_APP_OWNER, uid, gid);
    }
    put_credentials(&mut secrets, &m.backup.destinations, uid, gid);
    let mut entrypoint: Vec<String> = Vec::new();
    push_text(&mut entrypoint, AGENT_BIN.to_owned());
    push_text(&mut entrypoint, "instance".to_owned());
    push_text(&mut entrypoint, "run".to_owned());
    assert(texts(entrypoint@) =~= seq![AGENT_BIN@, "instance"@, "run"@]);
    let mut env: Vec<(String, String)> = Vec::new();
    push_pair(&mut env, SPEC_ENV, spec_env);
    assert(pair_texts(env@) =~= seq![(SPEC_ENV@, spec_env@)]);
    let mut networks: Vec<String> = Vec::new();
    push_text(&mut networks, i.network.clone());
    assert(texts(networks@) =~= seq![i.network@]);
    Ok(
        ContainerSpec {
            image: m.image_name.clone(),
            name: i.container.clone(),
            hostname: Some(i.container.clone()),
            user: user_of(uid, gid),
            entrypoint,
            env,
            networks,
            publish: Some((host_port, PG_PORT)),
            mounts,
            secrets,
            labels: instance_labels(i),
            log_driver: None,
        },
    )
}

// ---- jobs ------------------------------------------------------------

/// The driver whose logs can be read back.
pub const JOB_LOG_DRIVER: &'static str = "k8s-file";

/// The labels of a job.
pub open spec fn job_labels(cluster: Seq<char>, job: Seq<char>) -> Seq<(Seq<char>, Seq<char>)> {
    seq![(LABEL_CLUSTER@, cluster), ("pgpod.job"@, job)]
}

fn job_labels_of(cluster: &str, job: &str) -> (r: Vec<(String, String)>)
    ensures
        pair_texts(r@) == job_labels(cluster@, job@),
{
    let mut v: Vec<(String, String)> = Vec::new();
    push_pair(&mut v, LABEL_CLUSTER, cluster);
    push_pair(&mut v, "pgpod.job", job);
    assert(pair_texts(v@) =~= job_labels(cluster@, job@));
    v
}

/// What a pgBackRest job runs.
pub open spec fn pgbackrest_argv(cluster: Seq<char>, args: Seq<Seq<char>>) -> Seq<Seq<char>> {
    seq![PGBACKREST_BIN@, "--config="@ + PGBACKREST_CONF@, "--stanza="@ + cluster] + args
}

/// A pgBackRest job: it shares the instance's volume, and with it the socket.
pub open spec fn pgbackrest_container(
    m: ClusterManifest,
    i: Instance,
    name: Seq<char>,
    args: Seq<Seq<char>>,
    bundle: Bundle,
) -> ContainerView {
    let mounts = seq![
        MountView::Volume { name: i.volume@, target: VOLUME_MOUNT@, chown: false },
        MountView::BindReadOnly { source: bundle.path@, target: PGBACKREST_BUNDLE@ },
    ];
    ContainerView {
        image: m.image_name@,
        name,
        hostname: None,
        user: user_text(m.postgres_uid, m.postgres_gid),
        entrypoint: pgbackrest_argv(i.cluster@, args),
        env: Seq::empty(),
        networks: seq![i.network@],
        publish: None,
        mounts: match m.backup.volume {
            Some(v) => mounts.push(MountView::Volume { name: v@, target: ARCHIVE_MOUNT@, chown: false }),
            None => mounts,
        },
        secrets: credential_mounts(
            destination_views(m.backup.destinations@),
            m.postgres_uid,
            m.postgres_gid,
        ),
        labels: job_labels(i.cluster@, "pgbackrest"@),
        log_driver: Some(JOB_LOG_DRIVER@),
    }
}

/// The container of a pgBackRest job.
pub fn pgbackrest_container_spec(
    m: &ClusterManifest,
    i: &Instance,
    name: &str,
    args: &Vec<String>,
    bundle: &Bundle,
) -> (r: Result<ContainerSpec, Error>)
    ensures
        container_result(r) == (if bundle.installed {
            Ok(pgbackrest_container(*m, *i, name@, texts(args@), *bundle))
        } else {
            Err(ErrorView::PgBackRestMissing(bundle.path@))
        }),
{
    if !bundle.installed {
        return Err(Error::PgBackRestMissing(bundle.path.clone()));
    }
    let mut entrypoint: Vec<String> = Vec::new();
    push_text(&mut entrypoint, PGBACKREST_BIN.to_owned());
    let mut config = "--config=".to_owned();
    config.append(PGBACKREST_CONF);
    push_text(&mut entrypoint, config);
    let mut stanza = "--stanza=".to_owned();
    stanza.append(i.cluster.as_str());
    push_text(&mut entrypoint, stanza);
    let ghost head = texts(entrypoint@);
    assert(head =~= seq![PGBACKREST_BIN@, "--config="@ + PGBACKREST_CONF@, "--stanza="@ + i.cluster@]);
    let mut rest = clone_list(args);
    entrypoint.append(&mut rest);
    assert(texts(entrypoint@) =~= head + texts(args@));
    let mut mounts: Vec<Mount> = Vec::new();
    put_mount(
        &mut mounts,
        Mount::Volume { name: i.volume.clone(), target: VOLUME_MOUNT.to_owned(), chown: false },
    );
    put_mount(
        &mut mounts,
        Mount::BindReadOnly { source: bundle.path.clone(), target: PGBACKREST_BUNDLE.to_owned() },
    );
    assert(mount_views(mounts@) =~= seq![
        MountView::Volume { name: i.volume@, target: VOLUME_MOUNT@, chown: false },
        MountView::BindReadOnly { source: bundle.path@, target: PGBACKREST_BUNDLE@ },
    ]);
    if let Some(v) = &m.backup.volume {
        put_mount(
            &mut mounts,
            Mount::Volume { name: v.clone(), target: ARCHIVE_MOUNT.to_owned(), chown: false },
        );
    }
    let mut secrets: Vec<SecretMount> = Vec::new();
    assert(secret_views(secrets@) =~= Seq::empty());
    put_credentials(&mut secrets, &m.backup.destinations, m.postgres_uid, m.postgres_gid);
    assert(secret_views(secrets@) =~= credential_mounts(
        destination_views(m.backup.destinations@),
        m.postgres_uid,
        m.postgres_gid,
    ));
    let mut networks: Vec<String> = Vec::new();
    push_text(&mut networks, i.network.clone());
    assert(texts(networks@) =~= seq![i.network@]);
    let env: Vec<(String, String)> = Vec::new();
    assert(pair_texts(env@) =~= Seq::empty());
    Ok(
        ContainerSpec {
            image: m.image_name.clone(),
            name: name.to_owned(),
            hostname: None,
            user: user_of(m.postgres_uid, m.postgres_gid),
            entrypoint,
            env,
            networks,
            publish: None,
            mounts,
            secrets,
            labels: job_labels_of(i.cluster.as_str(), "pgbackrest"),
            log_driver: Some(JOB_LOG_DRIVER.to_owned()),
        },
    )
}

/// A job of an upgrade: it joins no network and is given no secret.
pub open spec fn upgrade_container(
    m: ClusterManifest,
    i: Instance,
    name: Seq<char>,
    job: Seq<char>,
    argv: Seq<Seq<char>>,
    spec_env: Option<Seq<char>>,
    agent: Seq<char>,
) -> ContainerView {
    ContainerView {
        image: m.image_name@,
        name,
        hostname: None,
        user: user_text(m.postgres_uid, m.postgres_gid),
        entrypoint: seq![AGENT_BIN@] + argv,
        env: match spec_env {
            Some(e) => seq![(UPGRADE_SPEC_ENV@, e)],
            None => Seq::empty(),
        },
        networks: Seq::empty(),
        publish: None,
        mounts: seq![
            MountView::Volume { name: i.volume@, target: VOLUME_MOUNT@, chown: false },
            MountView::BindReadOnly { source: agent, target: AGENT_BIN@ },
        ],
        secrets: Seq::empty(),
        labels: job_labels(i.cluster@, job),
        log_driver: Some(JOB_LOG_DRIVER@),
    }
}

/// The container of a job of an upgrade.
pub fn upgrade_job(
    m: &ClusterManifest,
    i: &Instance,
    name: &str,
    job: &str,
    argv: &Vec<String>,
    spec_env: Option<&str>,
    agent: &str,
) -> (r: ContainerSpec)
    ensures
        r@ == upgrade_container(
            *m,
            *i,
            name@,
            job@,
            texts(argv@),
            opt_str(spec_env),
            agent@,
        ),
{
    let mut entrypoint: Vec<String> = Vec::new();
    push_text(&mut entrypoint, AGENT_BIN.to_owned());
    let ghost head = texts(entrypoint@);
    assert(head =~= seq![AGENT_BIN@]);
    let mut rest = clone_list(argv);
    entrypoint.append(&mut rest);
    assert(texts(entrypoint@) =~= head + texts(argv@));
    let mut mounts: Vec<Mount> = Vec::new();
    put_mount(
        &mut mounts,
        Mount::Volume { name: i.volume.clone(), target: VOLUME_MOUNT.to_owned(), chown: false },
    );
    put_mount(
        &mut mounts,
        Mount::BindReadOnly { source: agent.to_owned(), target: AGENT_BIN.to_owned() },
    );
    assert(mount_views(mounts@) =~= seq![
        MountView::Volume { name: i.volume@, target: VOLUME_MOUNT@, chown: false },
        MountView::BindReadOnly { source: agent@, target: AGENT_BIN@ },
    ]);
    let mut env: Vec<(String, String)> = Vec::new();
    assert(pair_texts(env@) =~= Seq::empty());
    if let Some(e) = spec_env {
        push_pair(&mut env, UPGRADE_SPEC_ENV, e);
        assert(pair_texts(env@) =~= seq![(UPGRADE_SPEC_ENV@, e@)]);
    }
    let secrets: Vec<SecretMount> = Vec::new();
    assert(secret_views(secrets@) =~= Seq::empty());
    let networks: Vec<String> = Vec::new();
    assert(texts(networks@) =~= Seq::empty());
    ContainerSpec {
        image: m.image_name.clone(),
        name: name.to_owned(),
        hostname: None,
        user: user_of(m.postgres_uid, m.postgres_gid),
        entrypoint,
        env,
        networks,
        publish: None,
        mounts,
        secrets,
        labels: job_labels_of(i.cluster.as_str(), job),
        log_driver: Some(JOB_LOG_DRIVER.to_owned()),
    }
}

// ---- a pooler --------------------------------------------------------

/// A pooler's container, as its manifest describes it.
#[derive(Debug, Clone)]
pub struct PoolerBox {
    pub pooler: String,
    pub container: String,
    pub image_name: String,
    pub uid: u32,
    pub gid: u32,
    /// The clusters it fronts, each once, and their networks.
    pub clusters: Vec<String>,
    pub networks: Vec<String>,
}

/// A pool's cluster and which of the pooler's clusters it is.
#[derive(Debug, Clone)]
pub struct Lookup {
    pub cluster: String,
    pub index: usize,
}

/// An index that stands among the first lookups.
pub open spec fn seen_index(ls: Seq<Lookup>, index: usize) -> bool {
    exists|k: int| 0 <= k < ls.len() && (#[trigger] ls[k]).index == index
}

/// One secret for each cluster behind the pools: that of the first pool with
/// its index.
pub open spec fn lookup_mounts(ls: Seq<Lookup>, uid: u32, gid: u32) -> Seq<SecretView>
    decreases ls.len(),
{
    if ls.len() == 0 {
        Seq::empty()
    } else {
        let before = lookup_mounts(ls.drop_last(), uid, gid);
        if seen_index(ls.drop_last(), ls.last().index) {
            before
        } else {
            before.push(
                SecretView {
                    name: "pgpod-"@ + ls.last().cluster@ + "-pooler"@,
                    target: lookup_target(ls.last().index as nat),
                    mode: SECRET_MODE,
                    uid,
                    gid,
                },
            )
        }
    }
}

fn is_seen_index(ls: &Vec<Lookup>, n: usize, index: usize) -> (r: bool)
    requires
        n <= ls.len(),
    ensures
        r == seen_index(ls@.take(n as int), index),
{
    let mut k: usize = 0;
    while k < n
        invariant
            k <= n <= ls.len(),
            forall|j: int| 0 <= j < k ==> (#[trigger] ls@[j]).index != index,
        decreases n - k,
    {
        if ls[k].index == index {
            assert(ls@.take(n as int)[k as int].index == index);
            return true;
        }
        k = k + 1;
    }
    assert forall|j: int| 0 <= j < n implies (#[trigger] ls@.take(n as int)[j]).index != index by {
        assert(ls@.take(n as int)[j] == ls@[j]);
    }
    false
}

fn put_lookups(v: &mut Vec<SecretMount>, ls: &Vec<Lookup>, uid: u32, gid: u32)
    ensures
        secret_views(final(v)@) == secret_views(old(v)@) + lookup_mounts(ls@, uid, gid),
{
    let ghost start = secret_views(v@);
    let mut i: usize = 0;
    assert(secret_views(v@) =~= start + lookup_mounts(ls@.take(0), uid, gid));
    while i < ls.len()
        invariant
            i <= ls.len(),
            secret_views(v@) == start + lookup_mounts(ls@.take(i as int), uid, gid),
        decreases ls.len() - i,
    {
        assert(ls@.take(i + 1).drop_last() =~= ls@.take(i as int));
        if !is_seen_index(ls, i, ls[i].index) {
            put_secret(
                v,
                pooler_lookup_secret(ls[i].cluster.as_str()).as_str(),
                lookup_path(ls[i].index).as_str(),
                uid,
                gid,
            );
            assert(secret_views(v@) =~= start + lookup_mounts(ls@.take(i + 1), uid, gid));
        }
        i = i + 1;
    }
    assert(ls@.take(i as int) =~= ls@);
}

/// A pooler's container: no volume, a network for each cluster, and a lookup
/// secret for each cluster.
pub open spec fn pooler_container(
    p: PoolerBox,
    lookups: Seq<Lookup>,
    spec_env: Seq<char>,
    agent: Seq<char>,
    host_port: u16,
    admin_secret: Seq<char>,
) -> ContainerView {
    ContainerView {
        image: p.image_name@,
        name: p.container@,
        hostname: Some(p.container@),
        user: user_text(p.uid, p.gid),
        entrypoint: seq![AGENT_BIN@, "pooler"@, "run"@],
        env: seq![(POOLER_SPEC_ENV@, spec_env)],
        networks: texts(p.networks@),
        publish: Some((host_port, POOLER_PORT)),
        mounts: seq![
            MountView::Tmpfs { target: POOLER_DIR@ },
            MountView::BindReadOnly { source: agent, target: AGENT_BIN@ },
        ],
        secrets: seq![
            SecretView {
                name: admin_secret,
                target: SECRET_POOLER_ADMIN@,
                mode: SECRET_MODE,
                uid: p.uid,
                gid: p.gid,
            },
        ] + lookup_mounts(lookups, p.uid, p.gid),
        labels: pooler_label_texts(p.pooler@, texts(p.clusters@)),
        log_driver: None,
    }
}

/// The container of a pooler.
pub fn pooler_container_spec(
    p: &PoolerBox,
    lookups: &Vec<Lookup>,
    spec_env: &str,
    agent: &str,
    host_port: u16,
    admin_secret: &str,
) -> (r: ContainerSpec)
    ensures
        r@ == pooler_container(*p, lookups@, spec_env@, agent@, host_port, admin_secret@),
{
    let mut mounts: Vec<Mount> = Vec::new();
    put_mount(&mut mounts, Mount::Tmpfs { target: POOLER_DIR.to_owned() });
    put_mount(
        &mut mounts,
        Mount::BindReadOnly { source: agent.to_owned(), target: AGENT_BIN.to_owned() },
    );
    assert(mount_views(mounts@) =~= seq![
        MountView::Tmpfs { target: POOLER_DIR@ },
        MountView::BindReadOnly { source: agent@, target: AGENT_BIN@ },
    ]);
    let mut secrets: Vec<SecretMount> = Vec::new();
    put_secret(&mut secrets, admin_secret, SECRET_POOLER_ADMIN, p.uid, p.gid);
    assert(secret_views(secrets@) =~= seq![
        SecretView { name: admin_secret@, target: SECRET_POOLER_ADMIN@, mode: SECRET_MODE, uid: p.uid, gid: p.gid },
    ]);
    put_lookups(&mut secrets, lookups, p.uid, p.gid);
    let mut entrypoint: Vec<String> = Vec::new();
    push_text(&mut entrypoint, AGENT_BIN.to_owned());
    push_text(&mut entrypoint, "pooler".to_owned());
    push_text(&mut entrypoint, "run".to_owned());
    assert(texts(entrypoint@) =~= seq![AGENT_BIN@, "pooler"@, "run"@]);
    let mut env: Vec<(String, String)> = Vec::new();
    push_pair(&mut env, POOLER_SPEC_ENV, spec_env);
    assert(pair_texts(env@) =~= seq![(POOLER_SPEC_ENV@, spec_env@)]);
    ContainerSpec {
        image: p.image_name.clone(),
        name: p.container.clone(),
        hostname: Some(p.container.clone()),
        user: user_of(p.uid, p.gid),
        entrypoint,
        env,
        networks: clone_list(&p.networks),
        publish: Some((host_port, POOLER_PORT)),
        mounts,
        secrets,
        labels: pooler_labels(p.pooler.as_str(), &p.clusters),
        log_driver: None,
    }
}

/// A container's secrets are its own user's to read, and nobody else's.
pub open spec fn held_by_one(v: Seq<SecretView>, uid: u32, gid: u32) -> bool {
    forall|i: int|
        0 <= i < v.len() ==> (#[trigger] v[i]).mode == 0o400 && v[i].uid == uid && v[i].gid == gid
}

proof fn credentials_are_held_by_one(ds: Seq<DestinationView>, uid: u32, gid: u32)
    ensures
        held_by_one(credential_mounts(ds, uid, gid), uid, gid),
    decreases ds.len(),
{
    if ds.len() > 0 {
        credentials_are_held_by_one(ds.drop_last(), uid, gid);
    }
}

proof fn lookups_are_held_by_one(ls: Seq<Lookup>, uid: u32, gid: u32)
    ensures
        held_by_one(lookup_mounts(ls, uid, gid), uid, gid),
    decreases ls.len(),
{
    if ls.len() > 0 {
        lookups_are_held_by_one(ls.drop_last(), uid, gid);
    }
}

/// Whatever secret an instance, a pgBackRest job or a pooler is given, only
/// the user that the container runs as can read it.
pub proof fn secrets_are_read_by_one_user(
    m: ClusterManifest,
    i: Instance,
    s: SecretNames,
    agent: Seq<char>,
    bundle: Bundle,
    recovering: bool,
    spec_env: Seq<char>,
    host_port: u16,
    name: Seq<char>,
    args: Seq<Seq<char>>,
    p: PoolerBox,
    lookups: Seq<Lookup>,
    admin_secret: Seq<char>,
)
    ensures
        held_by_one(
            instance_container(m, i, s, agent, bundle, recovering, spec_env, host_port).secrets,
            m.postgres_uid,
            m.postgres_gid,
        ),
        held_by_one(
            pgbackrest_container(m, i, name, args, bundle).secrets,
            m.postgres_uid,
            m.postgres_gid,
        ),
        held_by_one(
            pooler_container(p, lookups, spec_env, agent, host_port, admin_secret).secrets,
            p.uid,
            p.gid,
        ),
{
    credentials_are_held_by_one(
        destination_views(m.backup.destinations@),
        m.postgres_uid,
        m.postgres_gid,
    );
    lookups_are_held_by_one(lookups, p.uid, p.gid);
}

/// No volume's files are handed to another user when it is mounted.
pub open spec fn owners_kept(v: Seq<MountView>) -> bool {
    forall|i: int| 0 <= i < v.len() ==> ((#[trigger] v[i]) matches MountView::Volume { chown, .. }
        ==> !chown)
}

/// Mounting a volume never changes whose files are in it, in an instance, a
/// pgBackRest job or a job of an upgrade.
pub proof fn mounting_keeps_the_owners(
    m: ClusterManifest,
    i: Instance,
    s: SecretNames,
    agent: Seq<char>,
    bundle: Bundle,
    recovering: bool,
    spec_env: Seq<char>,
    host_port: u16,
    name: Seq<char>,
    job: Seq<char>,
    args: Seq<Seq<char>>,
)
    ensures
        owners_kept(
            instance_container(m, i, s, agent, bundle, recovering, spec_env, host_port).mounts,
        ),
        owners_kept(pgbackrest_container(m, i, name, args, bundle).mounts),
        owners_kept(upgrade_container(m, i, name, job, args, Some(spec_env), agent).mounts),
{
}

/// Every destination's secret is mounted, at the place of the destination's
/// own number.
pub proof fn credentials_keep_their_number(ds: Seq<DestinationView>, uid: u32, gid: u32, i: int)
    requires
        0 <= i < ds.len(),
        ds[i].credentials is Some,
    ensures
        credential_mounts(ds, uid, gid).contains(
            SecretView {
                name: ds[i].credentials->0,
                target: credentials_target(i as nat),
                mode: SECRET_MODE,
                uid,
                gid,
            },
        ),
    decreases ds.len(),
{
    let want = SecretView {
        name: ds[i].credentials->0,
        target: credentials_target(i as nat),
        mode: SECRET_MODE,
        uid,
        gid,
    };
    let all = credential_mounts(ds, uid, gid);
    if i == ds.len() - 1 {
        assert(all.last() == want);
    } else {
        credentials_keep_their_number(ds.drop_last(), uid, gid, i);
        let before = credential_mounts(ds.drop_last(), uid, gid);
        let k = choose|k: int| 0 <= k < before.len() && before[k] == want;
        assert(all[k] == want);
    }
}

// ---- what each container is given ------------------------------------

/// An instance's container runs the manifest's image as the manifest's user,
/// is known by the instance's name, on the instance's network, and publishes
/// the server at the given port. It is told its specification, runs the agent,
/// and is labelled as the instance's.
pub proof fn an_instance_container_is_the_instances(
    m: ClusterManifest,
    i: Instance,
    s: SecretNames,
    agent: Seq<char>,
    bundle: Bundle,
    recovering: bool,
    spec_env: Seq<char>,
    host_port: u16,
)
    ensures
        ({
            let c = instance_container(m, i, s, agent, bundle, recovering, spec_env, host_port);
            &&& c.image == m.image_name@
            &&& c.name == i.container@
            &&& c.hostname == Some(i.container@)
            &&& c.user == decimal(m.postgres_uid as nat) + ":"@ + decimal(m.postgres_gid as nat)
            &&& c.entrypoint == seq!["/usr/local/bin/pgpod-agent"@, "instance"@, "run"@]
            &&& c.env == seq![("PGPOD_INSTANCE_SPEC"@, spec_env)]
            &&& c.networks == seq![i.network@]
            &&& c.publish == Some((host_port, 5432u16))
            &&& c.labels == labels_of(i.cluster@, i.ordinal)
            &&& c.log_driver is None
        }),
{
}

/// An instance mounts its own volume and the agent; the pgBackRest bundle
/// exactly where it backs up or is being restored; and the archive's volume
/// exactly where the manifest names one. Nothing else.
pub proof fn an_instance_mounts_what_it_needs(
    m: ClusterManifest,
    i: Instance,
    s: SecretNames,
    agent: Seq<char>,
    bundle: Bundle,
    recovering: bool,
    spec_env: Seq<char>,
    host_port: u16,
)
    ensures
        ({
            let v = instance_container(
                m,
                i,
                s,
                agent,
                bundle,
                recovering,
                spec_env,
                host_port,
            ).mounts;
            let backs_up = m.backup.destinations@.len() > 0 || recovering;
            let n: int = if backs_up { 3 } else { 2 };
            &&& v[0] == (MountView::Volume { name: i.volume@, target: "/pgdata"@, chown: false })
            &&& v[1] == (MountView::BindReadOnly {
                source: agent,
                target: "/usr/local/bin/pgpod-agent"@,
            })
            &&& backs_up ==> v[2] == (MountView::BindReadOnly {
                source: bundle.path@,
                target: "/opt/pgbackrest"@,
            })
            &&& m.backup.volume is None ==> v.len() == n
            &&& m.backup.volume matches Some(a) ==> v.len() == n + 1 && v[n] == (
            MountView::Volume { name: a@, target: "/archive"@, chown: false })
        }),
{
}

/// An instance has its cluster's secrets, each where the agent looks for it;
/// the application's owner's exactly where there is an application; and behind
/// them the destinations' credentials.
pub proof fn an_instance_has_its_clusters_secrets(m: ClusterManifest, s: SecretNames)
    ensures
        ({
            let v = instance_secrets(m, s);
            let n: int = if m.initdb.database is Some { 4 } else { 3 };
            &&& v[0].name == s.superuser@ && v[0].target == "/run/secrets/superuser"@
            &&& v[1].name == s.replication@ && v[1].target == "/run/secrets/replication"@
            &&& v[2].name == s.monitor@ && v[2].target == "/run/secrets/monitor"@
            &&& m.initdb.database is Some ==> v[3].name == s.app_owner@ && v[3].target
                == "/run/secrets/app-owner"@
            &&& v.len() >= n
            &&& v.subrange(n, v.len() as int) == credential_mounts(
                destination_views(m.backup.destinations@),
                m.postgres_uid,
                m.postgres_gid,
            )
        }),
{
    let v = instance_secrets(m, s);
    let n: int = if m.initdb.database is Some { 4 } else { 3 };
    assert(v.subrange(n, v.len() as int) =~= credential_mounts(
        destination_views(m.backup.destinations@),
        m.postgres_uid,
        m.postgres_gid,
    ));
}

/// One destination more: its credentials are mounted behind the others', at
/// the place of its own number, exactly where it has any.
pub proof fn one_destination_more(
    ds: Seq<DestinationView>,
    d: DestinationView,
    uid: u32,
    gid: u32,
)
    ensures
        credential_mounts(Seq::empty(), uid, gid).len() == 0,
        d.credentials is None ==> credential_mounts(ds.push(d), uid, gid) == credential_mounts(
            ds,
            uid,
            gid,
        ),
        d.credentials matches Some(name) ==> credential_mounts(ds.push(d), uid, gid)
            == credential_mounts(ds, uid, gid).push(
            SecretView { name, target: credentials_target(ds.len()), mode: 0o400, uid, gid },
        ),
{
    assert(ds.push(d).drop_last() =~= ds);
}

/// The bundle is needed exactly where a cluster backs up or is being restored.
pub proof fn who_needs_the_bundle(m: ClusterManifest, recovering: bool)
    ensures
        needs_bundle(m, recovering) <==> m.backup.destinations@.len() > 0 || recovering,
{
}

/// A pgBackRest job runs pgBackRest on the cluster's own stanza, beside the
/// instance: its image, its user, its network and its volume. It publishes
/// nothing, has the destinations' credentials and no other secret, and its
/// output can be read back.
pub proof fn a_pgbackrest_job_is_the_clusters(
    m: ClusterManifest,
    i: Instance,
    name: Seq<char>,
    args: Seq<Seq<char>>,
    bundle: Bundle,
)
    ensures
        ({
            let c = pgbackrest_container(m, i, name, args, bundle);
            &&& c.image == m.image_name@
            &&& c.name == name
            &&& c.hostname is None
            &&& c.user == decimal(m.postgres_uid as nat) + ":"@ + decimal(m.postgres_gid as nat)
            &&& c.entrypoint.len() == args.len() + 3
            &&& c.entrypoint[0] == "/opt/pgbackrest/bin/pgbackrest"@
            &&& c.entrypoint[1] == "--config="@ + "/pgdata/conf/pgbackrest.conf"@
            &&& c.entrypoint[2] == "--stanza="@ + i.cluster@
            &&& c.entrypoint.subrange(3, c.entrypoint.len() as int) == args
            &&& c.env.len() == 0
            &&& c.networks == seq![i.network@]
            &&& c.publish is None
            &&& c.mounts[0] == (MountView::Volume {
                name: i.volume@,
                target: "/pgdata"@,
                chown: false,
            })
            &&& c.mounts[1] == (MountView::BindReadOnly {
                source: bundle.path@,
                target: "/opt/pgbackrest"@,
            })
            &&& m.backup.volume is None ==> c.mounts.len() == 2
            &&& m.backup.volume matches Some(a) ==> c.mounts.len() == 3 && c.mounts[2] == (
            MountView::Volume { name: a@, target: "/archive"@, chown: false })
            &&& c.secrets == credential_mounts(
                destination_views(m.backup.destinations@),
                m.postgres_uid,
                m.postgres_gid,
            )
            &&& c.labels == seq![("pgpod.cluster"@, i.cluster@), ("pgpod.job"@, "pgbackrest"@)]
            &&& c.log_driver == Some("k8s-file"@)
        }),
{
    let c = pgbackrest_container(m, i, name, args, bundle);
    assert(c.entrypoint.subrange(3, c.entrypoint.len() as int) =~= args);
}

/// A job of an upgrade runs the agent on the instance's volume, as its user,
/// and has neither a network nor a secret.
pub proof fn an_upgrade_job_is_shut_off(
    m: ClusterManifest,
    i: Instance,
    name: Seq<char>,
    job: Seq<char>,
    argv: Seq<Seq<char>>,
    spec_env: Option<Seq<char>>,
    agent: Seq<char>,
)
    ensures
        ({
            let c = upgrade_container(m, i, name, job, argv, spec_env, agent);
            &&& c.image == m.image_name@
            &&& c.name == name
            &&& c.hostname is None
            &&& c.user == decimal(m.postgres_uid as nat) + ":"@ + decimal(m.postgres_gid as nat)
            &&& c.entrypoint.len() == argv.len() + 1
            &&& c.entrypoint[0] == "/usr/local/bin/pgpod-agent"@
            &&& c.entrypoint.subrange(1, c.entrypoint.len() as int) == argv
            &&& spec_env is None ==> c.env.len() == 0
            &&& spec_env matches Some(e) ==> c.env == seq![("PGPOD_UPGRADE_SPEC"@, e)]
            &&& c.networks.len() == 0
            &&& c.publish is None
            &&& c.mounts.len() == 2
            &&& c.mounts[0] == (MountView::Volume {
                name: i.volume@,
                target: "/pgdata"@,
                chown: false,
            })
            &&& c.mounts[1] == (MountView::BindReadOnly {
                source: agent,
                target: "/usr/local/bin/pgpod-agent"@,
            })
            &&& c.secrets.len() == 0
            &&& c.labels == seq![("pgpod.cluster"@, i.cluster@), ("pgpod.job"@, job)]
            &&& c.log_driver == Some("k8s-file"@)
        }),
{
    let c = upgrade_container(m, i, name, job, argv, spec_env, agent);
    assert(c.entrypoint.subrange(1, c.entrypoint.len() as int) =~= argv);
}

/// A pooler's container is the pooler's: its image, its user and its networks,
/// published at the given port. It keeps nothing on a volume, and has its
/// console's secret and behind it the clusters' lookup secrets.
pub proof fn a_pooler_container_is_the_poolers(
    p: PoolerBox,
    lookups: Seq<Lookup>,
    spec_env: Seq<char>,
    agent: Seq<char>,
    host_port: u16,
    admin_secret: Seq<char>,
)
    ensures
        ({
            let c = pooler_container(p, lookups, spec_env, agent, host_port, admin_secret);
            &&& c.image == p.image_name@
            &&& c.name == p.container@
            &&& c.hostname == Some(p.container@)
            &&& c.user == decimal(p.uid as nat) + ":"@ + decimal(p.gid as nat)
            &&& c.entrypoint == seq!["/usr/local/bin/pgpod-agent"@, "pooler"@, "run"@]
            &&& c.env == seq![("PGPOD_POOLER_SPEC"@, spec_env)]
            &&& c.networks == texts(p.networks@)
            &&& c.publish == Some((host_port, 6432u16))
            &&& c.mounts.len() == 2
            &&& c.mounts[0] == (MountView::Tmpfs { target: "/pooler"@ })
            &&& c.mounts[1] == (MountView::BindReadOnly {
                source: agent,
                target: "/usr/local/bin/pgpod-agent"@,
            })
            &&& c.secrets[0].name == admin_secret
            &&& c.secrets[0].target == "/run/secrets/pooler-admin"@
            &&& c.secrets.subrange(1, c.secrets.len() as int) == lookup_mounts(
                lookups,
                p.uid,
                p.gid,
            )
            &&& c.labels == pooler_label_texts(p.pooler@, texts(p.clusters@))
            &&& c.log_driver is None
        }),
{
    let c = pooler_container(p, lookups, spec_env, agent, host_port, admin_secret);
    assert(c.secrets.subrange(1, c.secrets.len() as int) =~= lookup_mounts(
        lookups,
        p.uid,
        p.gid,
    ));
}

/// One pool more: its cluster's lookup secret is mounted behind the others, at
/// the place of the cluster's number, exactly where no pool before it has that
/// number.
pub proof fn one_lookup_more(ls: Seq<Lookup>, l: Lookup, uid: u32, gid: u32)
    ensures
        lookup_mounts(Seq::empty(), uid, gid).len() == 0,
        (exists|k: int| 0 <= k < ls.len() && (#[trigger] ls[k]).index == l.index) ==> lookup_mounts(
            ls.push(l),
            uid,
            gid,
        ) == lookup_mounts(ls, uid, gid),
        (forall|k: int| 0 <= k < ls.len() ==> (#[trigger] ls[k]).index != l.index) ==> lookup_mounts(
            ls.push(l),
            uid,
            gid,
        ) == lookup_mounts(ls, uid, gid).push(
            SecretView {
                name: "pgpod-"@ + l.cluster@ + "-pooler"@,
                target: lookup_target(l.index as nat),
                mode: 0o400,
                uid,
                gid,
            },
        ),
{
    assert(ls.push(l).drop_last() =~= ls);
}

/// No two destinations' credentials are mounted in one place, nor two
/// clusters' lookup secrets.
pub proof fn every_secret_has_its_place(a: nat, b: nat)
    ensures
        credentials_target(a) == credentials_target(b) ==> a == b,
        lookup_target(a) == lookup_target(b) ==> a == b,
{
    a_number_reads_back(a, a);
    a_number_reads_back(b, b);
    let x = credentials_target(a);
    let y = credentials_target(b);
    let n = x.len() - decimal(a).len();
    let k = y.len() - decimal(b).len();
    assert(n == k);
    assert(x.subrange(n, x.len() as int) =~= decimal(a));
    assert(y.subrange(n, y.len() as int) =~= decimal(b));
    let p = lookup_target(a);
    let q = lookup_target(b);
    let m = p.len() - decimal(a).len();
    assert(p.subrange(m, p.len() as int) =~= decimal(a));
    assert(q.subrange(m, q.len() as int) =~= decimal(b));
}

// ---- what the functions give back ------------------------------------

/// A container is specified unless it needs a bundle that is not installed,
/// and then which is said.
pub proof fn when_a_container_is_specified(
    m: ClusterManifest,
    i: Instance,
    s: SecretNames,
    agent: &str,
    bundle: Bundle,
    recovering: bool,
    spec_env: &str,
    host_port: u16,
    r: Result<ContainerSpec, Error>,
)
    requires
        call_ensures(
            container_spec,
            (&m, &i, &s, agent, &bundle, recovering, spec_env, host_port),
            r,
        ),
    ensures
        r is Err <==> (m.backup.destinations@.len() > 0 || recovering) && !bundle.installed,
        r matches Err(e) ==> e@ == ErrorView::PgBackRestMissing(bundle.path@),
        r matches Ok(c) ==> c@ == instance_container(
            m,
            i,
            s,
            agent@,
            bundle,
            recovering,
            spec_env@,
            host_port,
        ),
{
}

/// A pgBackRest job needs the bundle.
pub proof fn when_a_job_is_specified(
    m: ClusterManifest,
    i: Instance,
    name: &str,
    args: Vec<String>,
    bundle: Bundle,
    r: Result<ContainerSpec, Error>,
)
    requires
        call_ensures(pgbackrest_container_spec, (&m, &i, name, &args, &bundle), r),
    ensures
        r is Ok <==> bundle.installed,
        r matches Err(e) ==> e@ == ErrorView::PgBackRestMissing(bundle.path@),
        r matches Ok(c) ==> c@ == pgbackrest_container(m, i, name@, texts(args@), bundle),
{
}

/// The archive's volume is the manifest's own; where it names none, a restore
/// from files is warned of.
pub proof fn whose_archive_is_mounted(
    volume: Option<String>,
    recovery_urls: Option<Vec<String>>,
    r: (Option<String>, bool),
    k: int,
)
    requires
        call_ensures(archive_volume, (&volume, &recovery_urls), r),
    ensures
        r.0 == volume,
        volume is Some || recovery_urls is None ==> !r.1,
        volume is None ==> (recovery_urls matches Some(v) ==> (0 <= k < v@.len() && begins_with(
            trimmed(texts(v@)[k]),
            "file://"@,
        ) ==> r.1)),
        recovery_urls matches Some(v) ==> (forall|j: int|
            0 <= j < v@.len() ==> !begins_with(trimmed(#[trigger] texts(v@)[j]), "file://"@))
            ==> !r.1,
{
}

} // verus!
