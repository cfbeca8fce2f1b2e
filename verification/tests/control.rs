use pgpod::agent::status::InstanceRole;
use pgpod::backup::config::{Destination, RetentionMode};
use pgpod::backup::info::{Backup, BackupType, StanzaInfo, Status, Timestamp};
use pgpod::container;
use pgpod::control::apply::{
    self, apply_instance, delete, delete_report, host_port, instance_row, instance_summary,
    never_writable, not_ready, stopped_row, validate_parameters, wait_ready, wait_writable, Apply,
    Attempt, Doomed, InstanceAct, InstanceRow, Poll, Probed,
};
use pgpod::control::backup::{
    agent_binary, backup_report, choose_backup, find_backup, find_document, job_name, job_outcome,
    job_still_running, new_backup, now_stamp, recovery, refuse_backup, refuse_other_version,
    refuse_restore, restore_report, restored_manifest, started_report, waits_for_job, BackupAct,
    BackupEvent, TakeBackup,
};
use pgpod::control::containers::{
    archive_volume, container_spec, pgbackrest_container_spec, pooler_container_spec, upgrade_job,
    Bundle, Lookup, Mount, PoolerBox, SecretMount,
};
use pgpod::control::daemon::{
    decide, decide_for, lock_refused, not_ready_note, pooler_outcome, port_held, recorded_host_ports, resume_cluster,
    resume_container, resume_order, skip_cluster, started, unusable_cluster, ClusterResume,
    DaemonState, Decision, LockAttempt, Next, ResumeAction, ResumeOptions, ResumeReport, ResumeRow,
    Start, UnitResume,
};
use pgpod::control::error::Error;
use pgpod::control::resume::{self, ClusterRow, PoolerRow, Resume};
use pgpod::control::model::{
    connection_uri, BackupSpec, ClusterManifest, ClusterPhase, InitdbSpec, Instance, InstancePhase,
};
use pgpod::control::names::{
    instance_labels, pooler_admin_secret, pooler_labels, pooler_lookup_secret, role_of,
    SecretNames, LABEL_CLUSTER, LABEL_INSTANCE, LABEL_POOLER,
};
use pgpod::control::password::{generate, spell, LENGTH};
use pgpod::control::pooler::{
    self, clusters_of, ensure_pooler_role, pool_targets, pooler_control, pooler_differences,
    pooler_port, pooler_refused, pooler_report, recreated_note, refuse_if_pooler_diverged,
    refuse_unknown, resolve_pools, unheld_note, validate_pooler_parameters, wait_pooler_ready,
    ApplyPooler,
    ClusterPools, Fronted, HoldAct, HoldBudget, PoolRef, PoolTarget, PoolerHold, PoolerSpec,
    PoolerTold, RoleAct, RoleEvent, RoleStage,
};
use pgpod::control::recreate::{self, Recreate};
use pgpod::control::restore::{self, version_that_took, Database, Origin, Restore};
use pgpod::control::secrets::{
    ensure_secrets, rotate_restored_role, secret_for, Roles, SecretFact, SecretStep,
};
use pgpod::control::spec::{
    differences, image_change, instance_spec, refuse_if_diverged, short_id, ApplyContext,
    InstanceSpec, RunningImage, Told,
};
use pgpod::agent::pooler::PoolRoute;
use pgpod::control::status::{
    collect, pooler_status, running_container, ContainerState, InstanceFacts, LoggedEvent,
};
use pgpod::control::upgrade::{
    self, analyze_in_stages, job_error, must_compare, refuse_incompatible_image, refuse_upgrade,
    refuse_version, running_version, Fronting, Upgrade, UpgradeMethod, UpgradeOptions, UpgradePlan, Version,
};
use pgpod::time::Moment;

fn strings(v: &[&str]) -> Vec<String> {
    v.iter().map(|s| s.to_string()).collect()
}

fn some(s: &str) -> Option<String> {
    Some(s.to_string())
}

fn manifest() -> ClusterManifest {
    ClusterManifest {
        name: "mydb".into(),
        image_name: "postgres:18".into(),
        instances: 1,
        postgres_uid: 999,
        postgres_gid: 998,
        initdb: InitdbSpec {
            database: None,
            owner: None,
        },
        parameters: Vec::new(),
        shared_preload_libraries: Vec::new(),
        backup: BackupSpec {
            destinations: Vec::new(),
            volume: None,
            retention: None,
            retention_mode: RetentionMode::Report,
        },
        storage_size: None,
    }
}

fn with_app() -> ClusterManifest {
    let mut m = manifest();
    m.initdb.database = some("appdb");
    m.initdb.owner = some("app");
    m
}

fn instance() -> Instance {
    Instance {
        cluster: "mydb".into(),
        ordinal: 1,
        container: "pgpod-mydb-1".into(),
        volume: "pgpod-mydb-1-data".into(),
        network: "pgpod-mydb".into(),
    }
}

// ---- names and secrets -----------------------------------------------

#[test]
fn a_secret_name_reduces_to_the_role_an_operator_must_reset() {
    assert_eq!(role_of("pgpod-mydb-superuser", "mydb"), "superuser");
    assert_eq!(
        role_of("pgpod-mydb-app-owner", "mydb"),
        "app-owner",
        "splitting on the last '-' would report this as \"owner\""
    );
    assert_eq!(role_of("pgpod-my-db-monitor", "my-db"), "monitor");
    assert_eq!(role_of("unexpected", "mydb"), "unexpected");
}

#[test]
fn secret_names_are_scoped_per_cluster_not_per_instance() {
    let a = SecretNames::for_cluster("mydb");
    let b = SecretNames::for_cluster("other");
    assert_eq!(a.superuser, "pgpod-mydb-superuser");
    assert_ne!(a.superuser, b.superuser);
}

#[test]
fn instance_labels_carry_both_scopes() {
    let id = Instance {
        ordinal: 2,
        ..instance()
    };
    let labels = instance_labels(&id);
    assert!(labels.contains(&(LABEL_CLUSTER.into(), "mydb".into())));
    assert!(labels.contains(&(LABEL_INSTANCE.into(), "mydb-2".into())));
}

#[test]
fn the_lookup_secret_is_scoped_to_the_cluster_not_the_pooler() {
    let a = pooler_lookup_secret("mydb");
    assert_eq!(a, "pgpod-mydb-pooler");
    assert_ne!(a, pooler_lookup_secret("other"));
}

#[test]
fn the_admin_secret_is_scoped_to_the_pooler() {
    let a = pooler_admin_secret("app");
    assert_eq!(a, "pgpod-pooler-app-admin");
    assert_ne!(a, pooler_admin_secret("other"));
}

#[test]
fn a_shared_pooler_is_labelled_with_every_cluster_it_fronts() {
    let labels = pooler_labels("app", &strings(&["alpha", "beta"]));
    assert!(labels.contains(&(LABEL_POOLER.into(), "app".into())));
    assert!(labels.contains(&(LABEL_CLUSTER.into(), "alpha,beta".into())));
}

#[test]
fn pairing_matches_each_role_to_the_same_role() {
    let target = SecretNames::for_cluster("restored");
    let source = SecretNames::for_cluster("mydb");
    for (to, from) in target.paired(&source) {
        let role = to.strip_prefix("pgpod-restored-").expect(to);
        assert_eq!(
            from,
            format!("pgpod-mydb-{role}"),
            "{to} was paired with {from}"
        );
    }
}

#[test]
fn pairing_covers_every_secret() {
    let target = SecretNames::for_cluster("restored");
    let source = SecretNames::for_cluster("mydb");
    let paired: Vec<&str> = target.paired(&source).iter().map(|(to, _)| *to).collect();
    for name in target.all() {
        assert!(paired.contains(&name), "{name} is not in the pairing");
    }
}

#[test]
fn passwords_are_long_and_alphanumeric() {
    let p = generate();
    let v = p.expose();
    assert_eq!(v.len(), LENGTH);
    assert!(
        v.chars().all(|c| c.is_ascii_alphanumeric()),
        "a character needing SQL or conninfo escaping got in: {v:?}"
    );
}

#[test]
fn passwords_differ_between_calls() {
    assert_ne!(generate().expose(), generate().expose());
}

#[test]
fn choices_spell_a_password() {
    let p = spell(&vec![0, 25, 26, 51, 52, 61]);
    assert_eq!(p.expose(), "AZaz09");
}

fn fact(exists: bool, adoptable: bool) -> SecretFact {
    SecretFact { exists, adoptable }
}

fn roles() -> Roles {
    Roles {
        replication: "repl".into(),
        monitor: "mon".into(),
        owner: some("app"),
    }
}

#[test]
fn a_new_cluster_generates_what_it_lacks_and_rotates_nothing() {
    let facts = vec![
        fact(true, false),
        fact(false, true),
        fact(false, false),
        fact(false, false),
    ];
    let p = ensure_secrets("mydb", None, false, &facts, &roles());
    assert_eq!(
        p.steps,
        [
            SecretStep::Keep,
            SecretStep::Generate,
            SecretStep::Generate,
            SecretStep::Skip
        ]
    );
    assert!(p.rotate.is_empty());
    assert_eq!(p.event, None);
}

#[test]
fn a_restore_adopts_what_it_can_and_rotates_the_rest() {
    let facts = vec![
        fact(false, false),
        fact(false, true),
        fact(true, false),
        fact(false, false),
    ];
    let p = ensure_secrets("copy", Some("mydb"), true, &facts, &roles());
    assert_eq!(
        p.steps,
        [
            SecretStep::Generate,
            SecretStep::Adopt,
            SecretStep::Keep,
            SecretStep::Generate
        ]
    );
    assert_eq!(
        p.rotate,
        [
            ("postgres".to_string(), "superuser".to_string()),
            ("app".to_string(), "app-owner".to_string())
        ]
    );
    assert_eq!(
        p.event.as_deref(),
        Some("restored from mydb, whose secrets are not on this host — rotating superuser, app-owner to freshly generated passwords so the cluster is reachable")
    );
    assert_eq!(secret_for("superuser", &p.names), "pgpod-copy-superuser");
    assert_eq!(secret_for("app-owner", &p.names), "pgpod-copy-app-owner");
    assert_eq!(
        rotate_restored_role("app", "copy", true, "").unwrap(),
        "rotated the app password after restore"
    );
    assert_eq!(
        rotate_restored_role("app", "copy", false, " no \n").unwrap_err(),
        "could not rotate the \"app\" password on restored cluster copy, so it would not be reachable with the credentials pgpod stores: no"
    );
}

// ---- URIs ------------------------------------------------------------

#[test]
fn connection_uri_uses_the_app_role_when_there_is_one() {
    assert_eq!(
        connection_uri(15432, &with_app()),
        "postgresql://app@127.0.0.1:15432/appdb"
    );
}

#[test]
fn connection_uri_falls_back_to_postgres_without_an_app_database() {
    assert_eq!(
        connection_uri(15432, &manifest()),
        "postgresql://postgres@127.0.0.1:15432/postgres"
    );
}

#[test]
fn a_uri_never_contains_a_password() {
    let uri = connection_uri(15432, &with_app());
    assert!(!uri.contains(':') || !uri.contains('@') || uri.matches(':').count() <= 2);
    assert!(!uri.to_lowercase().contains("password"));
}

// ---- divergence ------------------------------------------------------

fn spec(port: u16) -> InstanceSpec {
    InstanceSpec {
        instance: "mydb-1".into(),
        port,
        bootstrap: "Initdb".into(),
        parameters: Vec::new(),
        shared_preload_libraries: Vec::new(),
        network_cidr: None,
        archive_command: None,
        destinations: Vec::new(),
        volume: None,
        retention: None,
        retention_mode: RetentionMode::Report,
    }
}

fn context() -> ApplyContext {
    ApplyContext {
        bootstrap: "Initdb".into(),
        network_cidr: None,
        archive_command: "push %p".into(),
        destinations: Vec::new(),
        recreate: false,
        desired_image_id: some("sha256:aaaa"),
    }
}

#[test]
fn a_changed_image_is_named_in_the_diff() {
    let change = Some((
        "docker.io/library/postgres:17".to_string(),
        "docker.io/library/postgres:18".to_string(),
    ));
    let out = differences(&spec(5432), &spec(5432), &change).join("\n");
    assert!(
        out.contains("image: docker.io/library/postgres:17 -> docker.io/library/postgres:18"),
        "{out}"
    );
    assert_eq!(out.lines().count(), 1, "{out}");
}

#[test]
fn every_named_field_shows_up_in_the_diff() {
    let a = spec(5432);
    let b = InstanceSpec {
        bootstrap: "Recovery".into(),
        parameters: vec![("work_mem".into(), "8MB".into())],
        shared_preload_libraries: strings(&["x"]),
        archive_command: some("c"),
        destinations: vec![Destination::new("s3://b/p"), Destination::new("file:///a")],
        retention: some("14d"),
        retention_mode: RetentionMode::Enforce,
        ..spec(5432)
    };
    assert_eq!(
        differences(&a, &b, &None),
        [
            "  bootstrap: Initdb -> Recovery",
            "  parameters: [] -> [(\"work_mem\", \"8MB\")]",
            "  sharedPreloadLibraries: [] -> [\"x\"]",
            "  archive_mode: off -> on",
            "  backup.destinations: none -> s3://b/p, file:///a",
            "  backup.retention: None (Report) -> Some(\"14d\") (Enforce)",
        ]
    );
    assert_eq!(
        differences(&a, &spec(1), &None),
        ["  (a field this diff does not yet name)"]
    );
}

#[test]
fn an_unchanged_instance_is_kept_and_a_changed_one_refused() {
    let same = RunningImage {
        id: some("sha256:aaaa"),
        name: some("postgres:18"),
    };
    let told = Told::Spec(instance_spec(&manifest(), &instance(), &context()));
    assert!(refuse_if_diverged(&manifest(), &instance(), &context(), &told, &same).is_none());

    let other = RunningImage {
        id: some("sha256:sha256:0123456789abcdef"),
        name: None,
    };
    let e = refuse_if_diverged(&manifest(), &instance(), &context(), &told, &other).unwrap();
    let m = e.to_text();
    assert!(
        m.starts_with("mydb-1 is running a different spec than the manifest describes"),
        "{m}"
    );
    assert!(m.contains("  image: 0123456789ab -> postgres:18"), "{m}");
    assert!(m.contains("pgpod apply -f <manifest> --recreate"), "{m}");

    let e = refuse_if_diverged(&manifest(), &instance(), &context(), &Told::Nothing, &same).unwrap();
    assert!(e.to_text().contains(&format!(
        "the running container has no {}",
        container::SPEC_ENV
    )));
    let e = refuse_if_diverged(
        &manifest(),
        &instance(),
        &context(),
        &Told::Unreadable("bad".into()),
        &same,
    )
    .unwrap();
    assert!(matches!(&e, Error::Spec(m) if m == "bad"), "{e:?}");
    assert_eq!(e.to_text(), "bad");
    let invalid = Told::Invalid("no port".into());
    let e = refuse_if_diverged(&manifest(), &instance(), &context(), &invalid, &same).unwrap();
    assert!(matches!(&e, Error::Spec(m) if m == "no port"), "{e:?}");
}

#[test]
fn an_image_of_unknown_id_is_not_said_to_have_changed() {
    let unknown = RunningImage {
        id: None,
        name: some("postgres:17"),
    };
    assert_eq!(image_change(&some("a"), &unknown, "postgres:18"), None);
    let known = RunningImage {
        id: some("b"),
        name: some("postgres:17"),
    };
    assert_eq!(image_change(&None, &known, "postgres:18"), None);
    assert_eq!(
        image_change(&some("a"), &known, "postgres:18"),
        Some(("postgres:17".into(), "postgres:18".into()))
    );
    assert_eq!(short_id("abc"), "abc");
}

#[test]
fn a_cluster_with_destinations_archives_from_the_start() {
    let mut ctx = context();
    assert_eq!(
        instance_spec(&manifest(), &instance(), &ctx).archive_command,
        None
    );
    ctx.destinations.push(Destination::new("s3://b/p"));
    let s = instance_spec(&manifest(), &instance(), &ctx);
    assert_eq!(s.archive_command.as_deref(), Some("push %p"));
    assert_eq!((s.instance.as_str(), s.port), ("mydb-1", 5432));
}

// ---- containers ------------------------------------------------------

fn bundle(installed: bool) -> Bundle {
    Bundle {
        path: "/opt/bundle".into(),
        installed,
    }
}

fn secret(name: &str, target: &str) -> SecretMount {
    SecretMount {
        name: name.into(),
        target: target.into(),
        mode: 0o400,
        uid: 999,
        gid: 998,
    }
}

#[test]
fn an_instance_container_carries_what_the_manifest_asks_for() {
    let names = SecretNames::for_cluster("mydb");
    let c = container_spec(
        &manifest(),
        &instance(),
        &names,
        "/bin/agent",
        &bundle(false),
        false,
        "{}",
        15432,
    )
    .unwrap();
    assert_eq!(c.user, "999:998");
    assert_eq!(c.publish, Some((15432, 5432)));
    assert_eq!(c.env, [(container::SPEC_ENV.to_string(), "{}".to_string())]);
    assert_eq!(c.networks, ["pgpod-mydb"]);
    assert_eq!(c.mounts.len(), 2);
    assert_eq!(
        c.secrets,
        [
            secret("pgpod-mydb-superuser", container::SECRET_SUPERUSER),
            secret("pgpod-mydb-replication", container::SECRET_REPLICATION),
            secret("pgpod-mydb-monitor", container::SECRET_MONITOR),
        ]
    );

    let mut m = with_app();
    m.backup.volume = some("archive");
    m.backup.destinations = vec![
        Destination::new("file:///archive/a"),
        Destination {
            credentials: some("s3-creds"),
            ..Destination::new("s3://b/p")
        },
    ];
    let err = container_spec(
        &m,
        &instance(),
        &names,
        "/bin/agent",
        &bundle(false),
        false,
        "{}",
        15432,
    )
    .unwrap_err();
    assert_eq!(
        err.to_text(),
        "the pgBackRest bundle is not installed at /opt/bundle — build it with ops/build-pgbackrest.sh"
    );
    let c = container_spec(
        &m,
        &instance(),
        &names,
        "/bin/agent",
        &bundle(true),
        false,
        "{}",
        15432,
    )
    .unwrap();
    assert_eq!(
        c.mounts[3],
        Mount::Volume {
            name: "archive".into(),
            chown: false,
            target: container::ARCHIVE_MOUNT.into()
        }
    );
    assert_eq!(
        c.secrets[3],
        secret("pgpod-mydb-app-owner", container::SECRET_APP_OWNER)
    );
    assert_eq!(
        c.secrets[4],
        secret("s3-creds", &container::credentials_path(1))
    );
}

#[test]
fn a_restore_of_a_local_archive_wants_its_volume() {
    let urls = Some(strings(&["s3://b", " file:///a"]));
    assert_eq!(archive_volume(&None, &urls), (None, true));
    assert_eq!(archive_volume(&some("v"), &urls), (some("v"), false));
    assert_eq!(
        archive_volume(&None, &Some(strings(&["s3://b"]))),
        (None, false)
    );
    assert_eq!(archive_volume(&None, &None), (None, false));
}

#[test]
fn jobs_share_the_volume_and_keep_their_logs() {
    let c = pgbackrest_container_spec(
        &manifest(),
        &instance(),
        "job",
        &strings(&["info"]),
        &bundle(true),
    )
    .unwrap();
    assert_eq!(c.entrypoint[2], "--stanza=mydb");
    assert_eq!(c.entrypoint[3], "info");
    assert_eq!(c.log_driver.as_deref(), Some("k8s-file"));
    assert!(c
        .labels
        .contains(&("pgpod.job".to_string(), "pgbackrest".to_string())));
    assert!(pgbackrest_container_spec(
        &manifest(),
        &instance(),
        "job",
        &Vec::new(),
        &bundle(false)
    )
    .is_err());

    let c = upgrade_job(
        &manifest(),
        &instance(),
        "job",
        "upgrade-run",
        &strings(&["upgrade", "run"]),
        Some("{}"),
        "/bin/agent",
    );
    assert_eq!(
        c.entrypoint,
        strings(&[container::AGENT_BIN, "upgrade", "run"])
    );
    assert!(c.networks.is_empty() && c.secrets.is_empty());
    assert_eq!(
        c.env,
        [(container::UPGRADE_SPEC_ENV.to_string(), "{}".to_string())]
    );
}

#[test]
fn a_pooler_gets_one_lookup_secret_for_each_cluster() {
    let p = PoolerBox {
        pooler: "app".into(),
        container: "pgpod-pooler-app".into(),
        image_name: "doorman".into(),
        uid: 999,
        gid: 998,
        clusters: strings(&["alpha", "beta"]),
        networks: strings(&["pgpod-alpha", "pgpod-beta"]),
    };
    let lookup = |c: &str, index: usize| Lookup {
        cluster: c.into(),
        index,
    };
    let c = pooler_container_spec(
        &p,
        &vec![lookup("alpha", 0), lookup("alpha", 0), lookup("beta", 1)],
        "{}",
        "/bin/agent",
        16432,
        "admin",
    );
    assert_eq!(
        c.secrets,
        [
            secret("admin", container::SECRET_POOLER_ADMIN),
            secret("pgpod-alpha-pooler", &container::lookup_path(0)),
            secret("pgpod-beta-pooler", &container::lookup_path(1)),
        ]
    );
    assert_eq!(c.networks, ["pgpod-alpha", "pgpod-beta"]);
    assert_eq!(c.publish, Some((16432, container::POOLER_PORT)));
    assert!(c.mounts.contains(&Mount::Tmpfs {
        target: "/pooler".into()
    }));
    assert!(c.secrets.iter().all(|s| s.mode == 0o400));
}

// ---- applying --------------------------------------------------------

#[test]
fn reserved_parameters_are_recognised_however_they_are_written() {
    let reserved = strings(&["port", "archive_command"]);
    assert_eq!(
        validate_parameters(&strings(&["work_mem", " Archive_Command "]), &reserved).as_deref(),
        Some("archive_command")
    );
    assert_eq!(validate_parameters(&strings(&["work_mem"]), &reserved), None);
    assert_eq!(
        validate_pooler_parameters(&strings(&["PORT"]), &reserved).as_deref(),
        Some("spec.pgDoorman.parameters: \"port\" is managed by pgpod and cannot be set here")
    );
}

fn probed(running: bool) -> Option<Probed> {
    Some(Probed {
        id: "c1".into(),
        running,
    })
}

fn diverged() -> Option<Error> {
    Some(Error::Invalid("differs".into()))
}

#[test]
fn a_running_instance_is_only_replaced_with_leave() {
    assert!(matches!(apply_instance(&None, &diverged(), false), InstanceAct::Create));
    assert!(matches!(apply_instance(&probed(true), &None, true), InstanceAct::Adopt(id) if id == "c1"));
    assert!(matches!(apply_instance(&probed(false), &None, true), InstanceAct::Start(id) if id == "c1"));
    assert!(matches!(apply_instance(&probed(true), &diverged(), false), InstanceAct::Refuse));
    match apply_instance(&probed(true), &diverged(), true) {
        InstanceAct::Recreate(e) => assert_eq!(e, "spec diverged, recreating: differs"),
        other => panic!("{other:?}"),
    }
    match apply_instance(&probed(false), &diverged(), false) {
        InstanceAct::Replace { id, event } => {
            assert_eq!(id, "c1");
            assert_eq!(event, "stopped instance diverged, recreating: differs");
        }
        other => panic!("{other:?}"),
    }
}

#[test]
fn an_instance_keeps_its_port() {
    assert_eq!(host_port(Some(1), 2), 1);
    assert_eq!(host_port(None, 2), 2);
    assert_eq!(pooler_port(Some(3), Some(1), 2), 3);
    assert_eq!(pooler_port(None, Some(1), 2), 1);
    assert_eq!(pooler_port(None, None, 2), 2);
    let row = instance_row(&instance(), None, 7);
    assert_eq!(row.phase, InstancePhase::Creating);
    let row = instance_row(&instance(), some("id"), 7);
    assert_eq!((row.phase, row.role), (InstancePhase::Bootstrapping, InstanceRole::Unknown));
    let s = instance_summary(&instance(), 7, &with_app());
    assert_eq!(s.connection_uri, "postgresql://app@127.0.0.1:7/appdb");
}

fn ran(success: bool, stdout: &str, stderr: &str) -> Attempt {
    Attempt::Ran {
        success,
        stdout: stdout.into(),
        stderr: stderr.into(),
    }
}

#[test]
fn readiness_and_writability_are_different_things() {
    assert!(matches!(wait_ready(&ran(true, "", ""), true), Poll::Ready));
    assert!(matches!(wait_ready(&ran(false, "a ", " b"), true), Poll::Again(s) if s == "ab"));
    assert!(matches!(wait_ready(&Attempt::Failed("e".into()), false), Poll::GiveUp(s) if s == "e"));
    assert!(matches!(wait_writable(&ran(true, " f\n", ""), true), Poll::Ready));
    assert!(matches!(wait_writable(&ran(true, "t", ""), true), Poll::Again(s) if s == "still in recovery"));
    assert!(matches!(wait_writable(&ran(false, "x", "y"), false), Poll::GiveUp(s) if s == "xy"));
    assert_eq!(
        not_ready("mydb-1", 180, "nope", "LOG").to_text(),
        "instance mydb-1 did not become ready within 180s\nlast probe: nope\n\ncontainer logs:\nLOG"
    );
    assert_eq!(
        never_writable("mydb-1", 300, "nope").to_text(),
        "instance mydb-1 did not become ready within 300s\nnever left recovery: nope"
    );
}

/// Runs an apply, answering each act, and returns the acts.
fn apply_acts(mut a: Apply, rotate: bool, fail_at: &str) -> Vec<String> {
    let mut out = Vec::new();
    let mut ev = apply::Event::Begin;
    loop {
        let act = a.step(&ev);
        let word = format!("{act:?}");
        let ended = matches!(
            act,
            apply::Act::Report { .. } | apply::Act::Fail(_) | apply::Act::MarkFailed { .. } | apply::Act::Ignore
        );
        out.push(word.clone());
        if ended {
            return out;
        }
        ev = if word == fail_at {
            apply::Event::Failed("boom".into())
        } else if matches!(act, apply::Act::EnsureSecrets) {
            apply::Event::Secrets { rotate }
        } else {
            apply::Event::Done
        };
    }
}

#[test]
fn an_apply_goes_through_its_steps_in_order() {
    assert_eq!(
        apply_acts(Apply::new(2, true, true, false), false, ""),
        [
            "PullImage",
            "CompareImage",
            "Record",
            "LogRequest",
            "EnsureNetwork",
            "CreateArchiveVolume",
            "EnsureSecrets",
            "ApplyInstance(1)",
            "ApplyInstance(2)",
            "WaitReady(1)",
            "WaitReady(2)",
            "RotateRoles",
            "MarkRunning",
            "Report { created: true }",
        ]
    );
    let acts = apply_acts(Apply::new(1, false, false, true), true, "");
    assert_eq!(acts[7], "WarnUnrotated");
    assert_eq!(acts.last().unwrap(), "Report { created: false }");
}

#[test]
fn a_failed_apply_leaves_a_terminal_phase_once_it_was_recorded() {
    for early in ["PullImage", "CompareImage", "Record"] {
        let acts = apply_acts(Apply::new(1, false, true, false), false, early);
        assert_eq!(acts.last().unwrap(), "Fail(\"boom\")");
    }
    for late in [
        "LogRequest",
        "EnsureNetwork",
        "ApplyInstance(1)",
        "WaitReady(1)",
        "MarkRunning",
    ] {
        let acts = apply_acts(Apply::new(1, false, true, false), false, late);
        assert_eq!(
            acts.last().unwrap(),
            "MarkFailed { event: \"apply failed: boom\", error: \"boom\" }"
        );
    }
}

fn doomed() -> Vec<Doomed> {
    [(1, true), (2, false)]
        .iter()
        .map(|(ordinal, exists)| Doomed {
            ordinal: *ordinal,
            container: format!("c{ordinal}"),
            volume: format!("v{ordinal}"),
            exists: *exists,
        })
        .collect()
}

#[test]
fn a_plain_delete_keeps_the_data_and_a_purge_destroys_it() {
    let p = delete("mydb", false, &strings(&["app"]), &doomed()).unwrap();
    assert_eq!(p.remove_containers, ["c1"]);
    assert!(p.remove_volumes.is_empty());
    assert_eq!(p.retain_volumes, ["v1", "v2"]);
    assert!(!p.forget && !p.remove_secrets);
    assert_eq!(p.phase, ClusterPhase::Stopped);
    let row = InstanceRow {
        cluster: "mydb".into(),
        ordinal: 1,
        container: "c1".into(),
        container_id: Some("id".into()),
        volume: "v1".into(),
        host_port: 15432,
        phase: InstancePhase::Running,
        role: InstanceRole::Primary,
    };
    let kept = stopped_row(row);
    assert_eq!((kept.phase, kept.container_id), (InstancePhase::Stopped, None));
    assert_eq!((kept.volume.as_str(), kept.host_port), ("v1", 15432));
    assert_eq!((kept.container.as_str(), kept.role), ("c1", InstanceRole::Primary));
    assert_eq!(host_port(Some(kept.host_port), 20000), 15432);
    assert_eq!(p.event, "cluster deleted, volumes retained");
    let r = delete_report("mydb", p, strings(&["app"]));
    assert_eq!(r.volumes_retained, ["v1", "v2"]);

    let p = delete("mydb", true, &Vec::new(), &doomed()).unwrap();
    assert_eq!(p.remove_volumes, ["v1", "v2"]);
    assert!(p.retain_volumes.is_empty() && p.forget && p.remove_secrets);

    assert_eq!(
        delete("mydb", true, &strings(&["app", "web"]), &doomed()).unwrap_err(),
        "cluster mydb is still fronted by pooler app, web, and --purge destroys its data. Delete the pooler first (`pgpod pooler delete app`), or drop --purge to keep the volumes."
    );
}

// ---- boot recovery ---------------------------------------------------

fn probe(running: bool) -> Option<ContainerState> {
    Some(ContainerState {
        running,
        status: Some(if running { "running" } else { "exited" }.into()),
    })
}

const BLOCKING: [InstancePhase; 4] = [
    InstancePhase::Fenced,
    InstancePhase::NeedsRebuild,
    InstancePhase::Stopped,
    InstancePhase::Terminated,
];

const RESTARTABLE: [InstancePhase; 5] = [
    InstancePhase::Creating,
    InstancePhase::Bootstrapping,
    InstancePhase::Running,
    InstancePhase::Stopping,
    InstancePhase::Failed,
];

#[test]
fn a_stopped_instance_of_a_running_cluster_is_started() {
    for phase in RESTARTABLE {
        assert_eq!(
            decide(ClusterPhase::Running, phase, &probe(false)),
            Decision::Start,
            "{phase:?} should be started"
        );
    }
}

#[test]
fn a_running_instance_is_adopted_not_restarted() {
    for phase in RESTARTABLE {
        assert_eq!(
            decide(ClusterPhase::Running, phase, &probe(true)),
            Decision::Adopt,
            "{phase:?} was already up and should be left alone"
        );
    }
}

#[test]
fn a_fenced_instance_is_never_started() {
    for phase in BLOCKING {
        for p in [None, probe(false), probe(true)] {
            assert!(
                matches!(decide(ClusterPhase::Running, phase, &p), Decision::Skip(_)),
                "{phase:?} must never be acted on, probe running: {:?}",
                p.map(|p| p.running)
            );
        }
    }
}

#[test]
fn a_cluster_that_is_not_running_has_none_of_its_instances_touched() {
    for cluster in [
        ClusterPhase::Applying,
        ClusterPhase::Upgrading,
        ClusterPhase::Stopped,
        ClusterPhase::Failed,
        ClusterPhase::Unknown,
    ] {
        for instance in RESTARTABLE {
            assert!(
                matches!(
                    decide(cluster, instance, &probe(false)),
                    Decision::Skip(_)
                ),
                "cluster {cluster:?} + instance {instance:?} must be skipped"
            );
        }
    }
}

#[test]
fn a_container_podman_does_not_know_is_reported_never_created() {
    assert_eq!(
        decide(ClusterPhase::Running, InstancePhase::Running, &None),
        Decision::Missing
    );
}

#[test]
fn every_skip_carries_a_reason_an_operator_can_act_on() {
    let mut seen = 0;
    for cluster in [ClusterPhase::Applying, ClusterPhase::Running] {
        for instance in BLOCKING.iter().chain(RESTARTABLE.iter()) {
            if let Decision::Skip(why) = decide(cluster, *instance, &probe(false)) {
                assert!(
                    !why.is_empty(),
                    "{cluster:?}/{instance:?} skipped with no reason"
                );
                seen += 1;
            }
        }
    }
    assert!(seen > 0, "the test found no skips to check");
}

#[test]
fn the_primary_is_started_before_its_standbys() {
    let rows: Vec<ResumeRow> = [3u32, 1, 2]
        .into_iter()
        .map(|ordinal| ResumeRow {
            ordinal,
            container: format!("pgpod-c-{ordinal}"),
            host_port: 5432 + ordinal as u16,
            phase: InstancePhase::Running,
        })
        .collect();
    assert_eq!(
        resume_order(rows)
            .iter()
            .map(|r| r.ordinal)
            .collect::<Vec<_>>(),
        vec![1, 2, 3],
        "ordinal 1 is the primary and standbys should find it up"
    );
}

fn unit(name: &str, action: ResumeAction) -> UnitResume {
    UnitResume {
        name: name.into(),
        action,
        detail: None,
    }
}

#[test]
fn counts_and_attention_summarise_a_report() {
    let report = ResumeReport {
        clusters: vec![
            ClusterResume {
                cluster: "a".into(),
                phase: "running".into(),
                instances: vec![
                    unit("a-1", ResumeAction::Started),
                    unit("a-2", ResumeAction::Adopted),
                ],
                skipped: None,
            },
            ClusterResume {
                cluster: "b".into(),
                phase: "upgrading".into(),
                instances: Vec::new(),
                skipped: Some("interrupted".into()),
            },
        ],
        poolers: vec![unit("p", ResumeAction::Missing)],
        dry_run: false,
    };

    let c = report.counts();
    assert_eq!((c.started, c.adopted, c.missing), (1, 1, 1));
    assert_eq!(
        c.skipped, 1,
        "a skipped cluster counts even with no instances"
    );
    assert!(report.needs_attention(), "a missing pooler needs a human");
    assert_eq!(
        c.to_text(),
        "1 adopted, 1 started, 1 skipped, 1 missing, 0 failed"
    );

    let quiet = ResumeReport {
        clusters: vec![ClusterResume {
            cluster: "a".into(),
            phase: "running".into(),
            instances: vec![unit("a-1", ResumeAction::Adopted)],
            skipped: None,
        }],
        poolers: Vec::new(),
        dry_run: false,
    };
    assert!(
        !quiet.needs_attention(),
        "an all-adopted boot is uneventful"
    );
}

#[test]
fn a_dry_run_says_what_would_be_started_and_starts_nothing() {
    let ask = |p: Option<ContainerState>, dry_run: bool| {
        resume_container(
            "mydb-1",
            "pgpod-mydb-1",
            ClusterPhase::Running,
            "",
            InstancePhase::Running,
            &Ok(p),
            dry_run,
        )
    };
    assert!(matches!(ask(probe(false), false), Next::Start));
    match ask(probe(false), true) {
        Next::Done(u) => assert_eq!(u.action, ResumeAction::WouldStart),
        other => panic!("{other:?}"),
    }
    for dry in [false, true] {
        match ask(None, dry) {
            Next::Done(u) => {
                assert_eq!(u.action, ResumeAction::Missing);
                assert!(u.detail.unwrap().starts_with("podman has no container pgpod-mydb-1."));
            }
            other => panic!("{other:?}"),
        }
    }
    match resume_container(
        "mydb-1",
        "c",
        ClusterPhase::Running,
        "",
        InstancePhase::Fenced,
        &Ok(probe(false)),
        false,
    ) {
        Next::Done(u) => {
            assert_eq!(u.action, ResumeAction::Skipped);
            assert!(u.detail.unwrap().contains("fenced"));
        }
        other => panic!("{other:?}"),
    }
    match resume_container(
        "mydb-1",
        "c",
        ClusterPhase::Running,
        "",
        InstancePhase::Running,
        &Err("down".into()),
        false,
    ) {
        Next::Done(u) => {
            assert_eq!(u.action, ResumeAction::Failed);
            assert_eq!(u.detail.as_deref(), Some("could not ask podman about it: down"));
        }
        other => panic!("{other:?}"),
    }
    match resume_container(
        "mydb-1",
        "c",
        ClusterPhase::Upgrading,
        "an upgrade is under way",
        InstancePhase::Running,
        &Ok(probe(false)),
        false,
    ) {
        Next::Done(u) => {
            assert_eq!(u.action, ResumeAction::Skipped);
            assert_eq!(u.detail.as_deref(), Some("an upgrade is under way"));
        }
        other => panic!("{other:?}"),
    }
    assert_eq!(
        decide_for(ClusterPhase::Failed, "w", InstancePhase::Running, &probe(true)),
        Decision::Skip("w")
    );
    assert_eq!(ResumeAction::WouldStart.as_str(), "would-start");
    let o = ResumeOptions::default();
    assert_eq!((o.wait, o.dry_run), (600, false));
}

#[test]
fn a_start_is_reported_as_it_went() {
    let u = started("a-1", &Start::Started);
    assert_eq!((u.action, u.detail), (ResumeAction::Started, None));
    let u = started("a-1", &Start::Failed("oops".into()));
    assert_eq!(u.detail.as_deref(), Some("start failed: oops"));
    let u = started(
        "a-1",
        &Start::PortHeld {
            port: 15432,
            error: "EADDRINUSE".into(),
        },
    );
    assert_eq!(u.action, ResumeAction::Failed);
    assert_eq!(u.detail, Some(port_held(15432, "EADDRINUSE")));
    assert!(port_held(15432, "e").contains("15432"));
    assert!(port_held(15432, "e").contains("was not started"));

    let u = pooler_outcome(unit("p", ResumeAction::Started), Some("dead"));
    assert_eq!(u.action, ResumeAction::Failed);
    assert!(u.detail.unwrap().starts_with("started, but it did not come up: dead\n\nA pooler"));
    let u = pooler_outcome(unit("p", ResumeAction::Adopted), Some("dead"));
    assert_eq!(u.action, ResumeAction::Adopted);
}

#[test]
fn a_cluster_is_skipped_whole_and_logged_once() {
    assert!(skip_cluster("a", ClusterPhase::Running, "w", false).is_none());
    let (c, n) = skip_cluster("a", ClusterPhase::Applying, "w", false).unwrap();
    assert!(c.instances.is_empty());
    let n = n.unwrap();
    assert_eq!(n.level, "warn");
    assert_eq!(n.message, "boot recovery skipped this cluster: w");
    assert_eq!(c.skipped.as_deref(), Some("w"));
    let (c, n) = skip_cluster("a", ClusterPhase::Stopped, "w", false).unwrap();
    assert_eq!((c.phase.as_str(), n.unwrap().level), ("stopped", "info"));
    let (_, n) = skip_cluster("a", ClusterPhase::Unknown, "w", true).unwrap();
    assert!(n.is_none(), "a dry run logs nothing");

    let (_, n) = resume_cluster("a", ClusterPhase::Running, vec![unit("a-1", ResumeAction::Missing)], false);
    let n = n.unwrap();
    assert_eq!(n.level, "warn");
    assert_eq!(n.message, "boot recovery: 0 adopted, 0 started, 0 skipped, 1 missing, 0 failed");
    let (_, n) = resume_cluster("a", ClusterPhase::Running, vec![unit("a-1", ResumeAction::Adopted)], false);
    assert_eq!(n.unwrap().level, "info");
    assert!(resume_cluster("a", ClusterPhase::Running, Vec::new(), false).1.is_none());
    assert!(resume_cluster("a", ClusterPhase::Running, vec![unit("a-1", ResumeAction::Adopted)], true).1.is_none());
    let c = unusable_cluster("A!", ClusterPhase::Running, "bad name");
    assert_eq!(c.skipped.as_deref(), Some("unusable cluster name in the registry: bad name"));
}

#[test]
fn the_lock_says_whether_a_daemon_runs() {
    assert_eq!(DaemonState::probe(LockAttempt::NoFile), DaemonState::NeverRan);
    assert_eq!(DaemonState::probe(LockAttempt::Held), DaemonState::Running);
    assert_eq!(DaemonState::probe(LockAttempt::Taken), DaemonState::NotRunning);
    assert_eq!(
        DaemonState::probe(LockAttempt::Unreadable("x".into())),
        DaemonState::Unknown("x".into())
    );
    let m = lock_refused("/run/lock", "EAGAIN");
    assert!(m.contains("already running") && m.contains("/run/lock"));
    assert_eq!(
        recorded_host_ports(&vec![vec![1, 2], vec![], vec![3]], &vec![4]),
        [1, 2, 3, 4]
    );
}

// ---- poolers ---------------------------------------------------------

fn defaulted(cluster: &str, database: &str) -> ClusterPools {
    ClusterPools {
        cluster: cluster.into(),
        default_database: Some(database.into()),
        declared: Vec::new(),
    }
}

fn declared(cluster: &str, pools: &[(&str, Option<&str>)]) -> ClusterPools {
    ClusterPools {
        cluster: cluster.into(),
        default_database: Some("appdb".into()),
        declared: pools
            .iter()
            .map(|(db, alias)| PoolRef {
                database: (*db).into(),
                as_name: alias.map(str::to_string),
            })
            .collect(),
    }
}

#[test]
fn an_omitted_pool_list_means_the_application_database() {
    let got = resolve_pools(&vec![defaulted("mydb", "appdb")]).unwrap();
    assert_eq!(got.len(), 1);
    assert_eq!(got[0].database, "appdb");
    assert_eq!(got[0].name, "appdb", "the pool is named after the database");
    assert_eq!(got[0].cluster_index, 0);
}

#[test]
fn the_cluster_index_is_the_lookup_secret_index() {
    let got = resolve_pools(&vec![
        declared("alpha", &[("appdb", Some("a1")), ("reporting", Some("a2"))]),
        declared("beta", &[("appdb", Some("b1"))]),
    ])
    .unwrap();
    let index = |name: &str| got.iter().find(|p| p.name == name).unwrap().cluster_index;
    assert_eq!(index("a1"), 0);
    assert_eq!(index("a2"), 0, "two pools on one cluster share its secret");
    assert_eq!(index("b1"), 1, "a second cluster gets its own");
}

#[test]
fn two_clusters_with_the_same_database_name_are_refused() {
    let err = resolve_pools(&vec![
        defaulted("cluster1", "appdb"),
        defaulted("cluster2", "appdb"),
    ])
    .unwrap_err();
    assert!(
        err.contains("cluster1") && err.contains("cluster2"),
        "{err}"
    );
    assert!(err.contains("appdb"), "{err}");
}

#[test]
fn the_defaulted_collision_shows_the_yaml_to_write() {
    let err = resolve_pools(&vec![
        defaulted("cluster1", "appdb"),
        defaulted("cluster2", "appdb"),
    ])
    .unwrap_err();
    assert!(
        err.contains("as: cluster1-appdb") && err.contains("as: cluster2-appdb"),
        "the message must show the fix, not just name the problem: {err}"
    );
    assert!(
        !err.contains("Set `as:` on one of them"),
        "that advice is for the case where the names were written out: {err}"
    );
}

#[test]
fn the_declared_collision_says_to_use_as() {
    let err = resolve_pools(&vec![
        declared("cluster1", &[("appdb", None)]),
        declared("cluster2", &[("appdb", None)]),
    ])
    .unwrap_err();
    assert!(err.contains("Set `as:` on one of them"), "{err}");
    assert!(
        !err.contains("clusters:"),
        "no YAML block needed here: {err}"
    );
}

#[test]
fn an_alias_resolves_the_collision() {
    let got = resolve_pools(&vec![
        declared("cluster1", &[("appdb", Some("c1"))]),
        declared("cluster2", &[("appdb", Some("c2"))]),
    ])
    .unwrap();
    let names: Vec<&str> = got.iter().map(|p| p.name.as_str()).collect();
    assert_eq!(names, ["c1", "c2"]);
    assert!(got.iter().all(|p| p.database == "appdb"));
}

#[test]
fn one_cluster_repeating_a_pool_name_is_refused_too() {
    let err = resolve_pools(&vec![declared(
        "mydb",
        &[("appdb", Some("same")), ("analytics", Some("same"))],
    )])
    .unwrap_err();
    assert!(err.contains("same"), "{err}");
}

#[test]
fn a_cluster_with_no_application_database_says_so() {
    let err = resolve_pools(&vec![ClusterPools {
        cluster: "mydb".into(),
        default_database: None,
        declared: Vec::new(),
    }])
    .unwrap_err();
    assert!(err.contains("bootstrap.initdb.database"), "{err}");
    assert!(err.contains("spec.clusters[].pools"), "the fix: {err}");
}

#[test]
fn such_a_cluster_is_fine_once_its_pools_are_named() {
    let got = resolve_pools(&vec![ClusterPools {
        cluster: "mydb".into(),
        default_database: None,
        declared: vec![PoolRef {
            database: "things".into(),
            as_name: None,
        }],
    }])
    .unwrap();
    assert_eq!(got[0].name, "things");
}

#[test]
fn a_pooler_in_front_of_an_unknown_cluster_is_refused() {
    let fronted = |cluster: &str, known: bool| Fronted {
        cluster: cluster.into(),
        known,
        default_database: None,
        declared: Vec::new(),
    };
    assert_eq!(refuse_unknown("app", &vec![fronted("a", true)]), None);
    assert_eq!(
        refuse_unknown("app", &vec![fronted("a", true), fronted("b", false)]).unwrap(),
        "pooler app fronts cluster b, which pgpod does not know about — apply the cluster first"
    );
}

fn targets() -> Vec<PoolTarget> {
    let resolved = resolve_pools(&vec![
        declared("alpha", &[("appdb", Some("z")), ("reporting", None)]),
        declared("beta", &[("appdb", Some("b"))]),
    ])
    .unwrap();
    pool_targets(&resolved, &strings(&["host-a", "host-b"]), "lookup")
}

fn pooler_spec() -> PoolerSpec {
    PoolerSpec {
        pooler: "app".into(),
        port: container::POOLER_PORT,
        pools: targets(),
        pool_mode: "transaction".into(),
        pool_size: 10,
        max_hold: HoldBudget {
            millis: 90000,
            text: "90s".into(),
        },
        parameters: Vec::new(),
    }
}

#[test]
fn pools_are_reached_through_their_own_cluster() {
    let t = targets();
    assert_eq!(t[0].server_host, "host-a");
    assert_eq!((t[2].server_host.as_str(), t[2].lookup_secret_index), ("host-b", 1));
    assert_eq!(t[2].server_port, container::PG_PORT);
    assert_eq!(clusters_of(&t), ["alpha", "beta"]);
    let r = pooler_report("app", 3, true, "c", 16432, &t);
    assert_eq!(r.pools[1].connection_uri, "postgresql://127.0.0.1:16432/reporting");
    assert_eq!(r.pools[1].cluster, "alpha");
}

#[test]
fn a_changed_pooler_says_what_changed() {
    let a = pooler_spec();
    assert!(refuse_if_pooler_diverged("app", &a, &PoolerTold::Spec(pooler_spec())).is_none());
    let mut b = pooler_spec();
    b.pool_mode = "session".into();
    b.pool_size = 20;
    b.max_hold = HoldBudget {
        millis: 60000,
        text: "1m".into(),
    };
    b.parameters.push(("k".into(), "v".into()));
    b.pools.remove(0);
    b.pools[0].database = "other".into();
    assert_eq!(
        pooler_differences(&a, &b),
        [
            "  poolMode: transaction -> session",
            "  poolSize: 10 -> 20",
            "  maxHold: 90s -> 1m",
            "  parameters: [] -> [(\"k\", \"v\")]",
            "  pool removed: reporting -> alpha/reporting",
            "  pool removed: z -> alpha/appdb",
            "  pool added:   reporting -> alpha/other",
        ]
    );
    let mut c = pooler_spec();
    c.port = 1;
    assert_eq!(
        pooler_differences(&a, &c),
        ["  the specs differ in a field this message does not break out"]
    );
    let m = refuse_if_pooler_diverged("app", &a, &PoolerTold::Spec(b))
        .unwrap()
        .to_text();
    assert!(m.contains("pool removed") && m.contains("pgpod pooler delete app"));
    assert!(!m.contains("keeps the volume"));
    let e = refuse_if_pooler_diverged("app", &a, &PoolerTold::Unreadable("bad".into())).unwrap();
    assert!(matches!(&e, Error::Spec(m) if m == "bad"), "{e:?}");
    assert!(matches!(wait_pooler_ready(None, false), Poll::Ready));
    assert!(matches!(wait_pooler_ready(Some("no"), true), Poll::Again(m) if m == "no"));
    assert!(matches!(wait_pooler_ready(Some("no"), false), Poll::GiveUp(m) if m == "no"));
    let m = refuse_if_pooler_diverged("app", &a, &PoolerTold::Nothing)
        .unwrap()
        .to_text();
    assert!(m.contains(container::POOLER_SPEC_ENV));
}

fn pooler_acts(mut a: ApplyPooler, probe: Option<Probed>, diverges: bool) -> Vec<String> {
    let mut out = Vec::new();
    let mut ev = pooler::Event::Begin;
    loop {
        let act = a.step(ev);
        out.push(format!("{act:?}"));
        ev = match act {
            pooler::Act::Report { .. } | pooler::Act::Fail(_) | pooler::Act::Ignore => return out,
            pooler::Act::Probe => pooler::Event::Probed {
                probe: probe.clone(),
                diverged: if diverges { diverged() } else { None },
            },
            _ => pooler::Event::Done,
        };
    }
}

#[test]
fn a_pooler_is_recorded_only_once_it_fits() {
    assert_eq!(
        pooler_acts(ApplyPooler::new(2, true, false), None, false),
        [
            "EnsureRole(0)",
            "EnsureRole(1)",
            "EnsureAdminSecret",
            "Probe",
            "Record",
            "Create",
            "Confirm",
            "WaitReady",
            "Log",
            "Report { created: true }",
        ]
    );
    let acts = pooler_acts(ApplyPooler::new(1, false, true), probed(true), true);
    assert_eq!(acts.last().unwrap(), "Fail(\"differs\")");
    assert!(!acts.contains(&"Record".to_string()));
    let acts = pooler_acts(ApplyPooler::new(0, false, true), probed(false), false);
    assert_eq!(acts[3], "Launch(\"c1\")");
    assert_eq!(
        pooler_acts(ApplyPooler::new(0, false, true), probed(true), false)[3],
        "Adopt(\"c1\")"
    );
}

#[test]
fn a_lookup_password_is_stored_last() {
    let step = |s: RoleStage, ev: RoleEvent| ensure_pooler_role("mydb", 2, s, &ev);
    assert!(matches!(step(RoleStage::Asking, RoleEvent::Exists).1, RoleAct::Done));
    let (s, a) = step(RoleStage::Asking, RoleEvent::Absent);
    assert!(matches!(a, RoleAct::Run(0)));
    let ok = || RoleEvent::Ran {
        success: true,
        stderr: String::new(),
    };
    let (s, a) = step(s, ok());
    assert!(matches!(a, RoleAct::Run(1)));
    let (s, a) = step(s, ok());
    assert!(matches!(a, RoleAct::Store));
    assert!(matches!(step(s, RoleEvent::Stored).1, RoleAct::Done));
    match step(RoleStage::Statement(1), RoleEvent::Ran { success: false, stderr: " no ".into() }).1 {
        RoleAct::Fail(m) => assert_eq!(m, "could not create the pooler lookup role on mydb: no"),
        other => panic!("{other:?}"),
    }
    match step(RoleStage::Asking, RoleEvent::Down("stopped".into())).1 {
        RoleAct::Fail(m) => assert!(m.ends_with("created inside the instance: stopped")),
        other => panic!("{other:?}"),
    }
}

#[test]
fn a_hold_is_all_or_nothing() {
    let mut h = PoolerHold::new("mydb", strings(&["a", "b"]));
    assert!(h.is_empty());
    assert!(matches!(h.acquire(), HoldAct::Pause(n) if n == "a"));
    h.paused();
    match h.refused("no") {
        HoldAct::Abandon { release, error } => {
            assert_eq!(release, ["a"]);
            assert_eq!(
                error,
                "could not hold pooler b for mydb, so the switchover would drop connections it promised to keep: no"
            );
        }
        other => panic!("{other:?}"),
    }

    let mut h = PoolerHold::new("mydb", strings(&["a", "b"]));
    h.paused();
    h.paused();
    assert!(matches!(h.acquire(), HoldAct::Held(m) if m == "held 2 pooler(s)"));
    assert_eq!(h.len(), 2);
    let calls: Vec<String> = h
        .release(true)
        .into_iter()
        .map(|(p, v)| format!("{p} {v}"))
        .collect();
    assert_eq!(calls, ["a reconnect", "a resume", "b reconnect", "b resume"]);
    assert!(h.is_empty());
    assert!(h.release(false).is_empty());
    assert_eq!(
        recreated_note(120, 2),
        "recreated in 120ms; 2 pooler(s) held clients throughout"
    );
    assert!(unheld_note(0).unwrap().contains("connections will drop"));
    assert_eq!(unheld_note(1), None);
    assert_eq!(
        pooler_control("pause", &strings(&["mydb"])),
        strings(&[container::AGENT_BIN, "pooler", "pause", "mydb"])
    );
    assert_eq!(pooler_refused("app", " a\n", "b "), "pooler app: a b");
}

/// Runs a replacement with this many poolers held; `fail_at` fails.
fn recreate_acts(poolers: usize, fail_at: &str) -> Vec<String> {
    let mut r = Recreate::new();
    let mut out = Vec::new();
    let mut ev = recreate::Event::Begin;
    loop {
        let act = r.step(&ev);
        let word = format!("{act:?}");
        let failing = !fail_at.is_empty() && word.contains(fail_at);
        out.push(word);
        ev = match act {
            recreate::Act::Replaced(_) | recreate::Act::Fail(_) | recreate::Act::Ignore => {
                return out;
            }
            _ if failing => recreate::Event::Failed("boom".into()),
            recreate::Act::HoldPoolers => recreate::Event::Held(poolers),
            recreate::Act::Create => recreate::Event::Created("new".into()),
            recreate::Act::Release => recreate::Event::Released(120),
            _ => recreate::Event::Done,
        };
    }
}

#[test]
fn clients_are_held_while_the_container_is_replaced() {
    assert_eq!(
        recreate_acts(2, ""),
        [
            "HoldPoolers",
            "Log { level: \"info\", message: \"removing the container to apply a changed spec\" }",
            "Remove",
            "Log { level: \"info\", message: \"creating the replacement container\" }",
            "Create",
            "WaitReady",
            "Release",
            "Log { level: \"info\", message: \"recreated in 120ms; 2 pooler(s) held clients throughout\" }",
            "Replaced(\"new\")",
        ]
    );
    assert!(recreate_acts(0, "")[1].contains("open connections will drop"));
}

#[test]
fn clients_are_let_go_when_a_replacement_fails() {
    for step in ["Remove", "Create", "WaitReady"] {
        let acts = recreate_acts(1, step);
        assert_eq!(
            acts[acts.len() - 3..],
            [
                "LetGo",
                "Log { level: \"error\", message: \"recreate failed: boom\" }",
                "Fail(\"boom\")"
            ],
            "{step}"
        );
    }
    assert_eq!(recreate_acts(1, "HoldPoolers"), ["HoldPoolers", "Fail(\"boom\")"]);
}

// ---- status ----------------------------------------------------------

fn facts(probe: Option<ContainerState>, answer: Option<&str>) -> InstanceFacts {
    InstanceFacts {
        cluster: "mydb".into(),
        ordinal: 1,
        container: "c".into(),
        volume: "v".into(),
        host_port: 15432,
        phase: InstancePhase::Running,
        probe,
        answer: answer.map(str::to_string),
    }
}

#[test]
fn a_role_is_only_shown_where_the_server_gave_it() {
    let rows = vec![
        facts(probe(true), Some("t\n")),
        facts(probe(true), Some("f")),
        facts(probe(true), None),
        facts(probe(false), Some("f")),
        facts(None, None),
    ];
    let events = vec![LoggedEvent {
        level: "info".into(),
        message: "hello".into(),
    }];
    let s = collect("mydb", 4, "running", &with_app(), &rows, Vec::new(), &events);
    let roles: Vec<InstanceRole> = s.instances.iter().map(|i| i.role).collect();
    assert_eq!(
        roles,
        [
            InstanceRole::Standby,
            InstanceRole::Primary,
            InstanceRole::Unknown,
            InstanceRole::Unknown,
            InstanceRole::Unknown
        ]
    );
    assert_eq!(s.instances[3].container_state.as_deref(), Some("exited"));
    assert_eq!(s.instances[4].container_state, None);
    assert_eq!(
        s.primary_uri(),
        Some("postgresql://app@127.0.0.1:15432/appdb")
    );
    assert_eq!(s.recent_events, ["[info] hello"]);
    assert_eq!(running_container("mydb-1", &probe(true)), None);
    assert_eq!(
        running_container("mydb-1", &probe(false)).unwrap(),
        "instance mydb-1 is not running (state: exited)"
    );
    assert_eq!(
        running_container(
            "mydb-1",
            &Some(ContainerState {
                running: false,
                status: None
            })
        )
        .unwrap(),
        "instance mydb-1 is not running (state: unknown)"
    );
    assert_eq!(
        running_container("mydb-1", &None).unwrap(),
        "instance mydb-1 has no container — has it been created?"
    );
}

// ---- backups ---------------------------------------------------------

fn backup_at(label: &str, stop: i64) -> Backup {
    Backup {
        label: label.into(),
        backup_type: BackupType::Full,
        timestamp: Timestamp {
            start: stop - 5,
            stop,
        },
        archive: None,
        info: None,
    }
}

fn info(backups: Vec<Backup>) -> Option<StanzaInfo> {
    Some(StanzaInfo {
        name: "mydb".into(),
        backup: backups,
        archive: Vec::new(),
        status: Status {
            code: 0,
            message: "ok".into(),
        },
    })
}

#[test]
fn the_new_backup_is_the_newest_that_was_not_there_before() {
    let before = info(vec![backup_at("a", 10)]);
    let after = info(vec![backup_at("a", 10), backup_at("c", 30), backup_at("b", 20)]);
    assert_eq!(new_backup(&before, &after).unwrap().label, "c");
    assert!(new_backup(&after, &after).is_none());
    assert!(new_backup(&before, &None).is_none());
    assert_eq!(new_backup(&None, &before).unwrap().label, "a");

    let mut m = manifest();
    m.backup.destinations.push(Destination::new("s3://b/p"));
    let r = backup_report("mydb", &new_backup(&before, &after), &m.backup);
    assert!(r.finished);
    assert_eq!(r.label.as_deref(), Some("c"));
    assert_eq!(r.backup_type.as_deref(), Some("full"));
    assert_eq!(r.size_bytes, Some(0));
    assert_eq!(r.destinations, ["s3://b/p"]);
    assert_eq!(
        refuse_backup("mydb", false).unwrap(),
        "mydb has no spec.backup.destinations, so there is nowhere to put a backup"
    );
    assert_eq!(refuse_backup("mydb", true), None);
}

fn take(wait: u64, enabled: bool) -> TakeBackup {
    let mut m = manifest();
    if enabled {
        m.backup.destinations.push(Destination::new("s3://b/p"));
    }
    TakeBackup::new("mydb", m.backup, wait)
}

#[test]
fn a_backup_nobody_waits_for_is_only_started() {
    assert!(!waits_for_job(0) && waits_for_job(1));
    let mut t = take(0, true);
    assert!(matches!(t.step(BackupEvent::Begin), BackupAct::AskRepository));
    assert!(matches!(t.step(BackupEvent::Repository(None)), BackupAct::LogStarted));
    assert!(matches!(t.step(BackupEvent::Done), BackupAct::StartJob));
    match t.step(BackupEvent::Done) {
        BackupAct::Report(r) => {
            assert!(!r.finished);
            assert_eq!((r.cluster.as_str(), r.label), ("mydb", None));
            assert_eq!(r.destinations, ["s3://b/p"]);
        }
        other => panic!("expected a report, got {other:?}"),
    }
    assert!(!started_report("mydb", &manifest().backup).finished);
}

#[test]
fn a_backup_is_asked_for_before_and_after() {
    let mut t = take(60, true);
    assert!(matches!(t.step(BackupEvent::Begin), BackupAct::AskRepository));
    let before = info(vec![backup_at("a", 10)]);
    let after = info(vec![backup_at("a", 10), backup_at("b", 20)]);
    assert!(matches!(t.step(BackupEvent::Repository(before)), BackupAct::LogStarted));
    assert!(matches!(t.step(BackupEvent::Done), BackupAct::RunJob));
    let mut failing = t.clone();
    assert!(matches!(t.step(BackupEvent::Done), BackupAct::AskRepository));
    assert!(matches!(t.step(BackupEvent::Repository(after)), BackupAct::LogComplete));
    match t.step(BackupEvent::Done) {
        BackupAct::Report(r) => assert_eq!((r.finished, r.label.as_deref()), (true, Some("b"))),
        other => panic!("expected a report, got {other:?}"),
    }

    assert!(matches!(
        failing.step(BackupEvent::JobFailed("boom".into())),
        BackupAct::LogFailed
    ));
    match failing.step(BackupEvent::Done) {
        BackupAct::Fail(m) => assert_eq!(m, "boom"),
        other => panic!("expected a failure, got {other:?}"),
    }
    match take(60, false).step(BackupEvent::Begin) {
        BackupAct::Fail(m) => assert!(m.ends_with("nowhere to put a backup")),
        other => panic!("expected a refusal, got {other:?}"),
    }
    let mut t = take(60, true);
    assert!(matches!(t.step(BackupEvent::Done), BackupAct::Ignore));
    t.step(BackupEvent::Begin);
    match t.step(BackupEvent::Failed("gone".into())) {
        BackupAct::Fail(m) => assert_eq!(m, "gone"),
        other => panic!("expected a failure, got {other:?}"),
    }
}

fn origins() -> Vec<Origin> {
    [("a", Some(1)), ("b", Some(2)), ("c", None), ("d", Some(3))]
        .iter()
        .map(|(label, database)| Origin {
            label: label.to_string(),
            database: *database,
        })
        .collect()
}

fn databases() -> Vec<Database> {
    [(1, Some("17")), (2, Some("18")), (4, None)]
        .iter()
        .map(|(id, version)| Database {
            id: *id,
            version: version.map(str::to_string),
        })
        .collect()
}

#[test]
fn a_backup_was_taken_by_the_version_of_its_database() {
    let of = |label: &str| version_that_took(label, &origins(), &databases());
    assert_eq!(of("a").as_deref(), Some("17"));
    assert_eq!(of("b").as_deref(), Some("18"));
    assert_eq!(of("c"), None);
    assert_eq!(of("d"), None);
    assert_eq!(of("e"), None);
}

/// What a restore does, step by step, up to its end.
fn restore_acts(mut r: Restore, evs: Vec<restore::Event>) -> Vec<String> {
    let mut acts = Vec::new();
    for ev in evs {
        let act = r.step(ev);
        let word = match &act {
            restore::Act::Apply { image, recovery } => {
                format!("apply {image} {:?} {:?}", recovery.backup_label, recovery.target_time)
            }
            restore::Act::Report(r) => format!(
                "report {} {} {} {:?} {}",
                r.source_cluster,
                r.target_cluster,
                r.backup_label,
                r.target_time,
                r.instances.len()
            ),
            restore::Act::Fail(m) => format!("fail {m}"),
            other => format!("{other:?}"),
        };
        acts.push(word);
    }
    acts
}

fn repository(label: &str) -> restore::Event {
    restore::Event::Repository {
        info: info(vec![backup_at(label, 10)]),
        origins: origins(),
        databases: databases(),
    }
}

fn archiving() -> restore::Event {
    restore::Event::Source {
        enabled: true,
        image: "postgres:18".into(),
    }
}

#[test]
fn a_restore_goes_through_its_steps_in_order() {
    let at = Some(Moment { secs: 20, nanos: 0 });
    let acts = restore_acts(
        Restore::new("mydb", "copy", at, None),
        vec![
            restore::Event::Begin,
            restore::Event::Target { exists: false },
            archiving(),
            repository("b"),
            restore::Event::Done,
            restore::Event::Version("18".into()),
            restore::Event::Applied(Vec::new()),
        ],
    );
    assert_eq!(
        acts,
        [
            "FindTarget",
            "FindSource",
            "AskRepository",
            "PullImage(\"postgres:18\")",
            "ProbeImage(\"postgres:18\")",
            "apply postgres:18 Some(\"b\") Some(\"1970-01-01T00:00:20+00:00\")",
            "report mydb copy b Some(\"1970-01-01T00:00:20+00:00\") 0",
        ]
    );
    // A backup of nobody knows which version goes straight on.
    let acts = restore_acts(
        Restore::new("mydb", "copy", None, Some("postgres:17".into())),
        vec![
            restore::Event::Begin,
            restore::Event::Target { exists: false },
            archiving(),
            repository("c"),
            restore::Event::Applied(Vec::new()),
        ],
    );
    assert_eq!(acts[3], "apply postgres:17 Some(\"c\") None");
    assert_eq!(acts[4], "report mydb copy c None 0");
}

#[test]
fn a_refused_restore_brings_nothing_about() {
    let begin = || restore::Event::Begin;
    let free = || restore::Event::Target { exists: false };
    let early = Some(Moment { secs: 5, nanos: 0 });
    let cases: Vec<(Restore, Vec<restore::Event>, &str)> = vec![
        (
            Restore::new("mydb", "mydb", None, None),
            vec![begin(), free(), archiving()],
            "fail mydb cannot be restored over itself",
        ),
        (
            Restore::new("mydb", "copy", None, None),
            vec![begin(), restore::Event::Target { exists: true }, archiving()],
            "fail copy already exists",
        ),
        (
            Restore::new("mydb", "copy", None, None),
            vec![
                begin(),
                free(),
                restore::Event::Source {
                    enabled: false,
                    image: "i".into(),
                },
                repository("c"),
            ],
            "fail mydb has no spec.backup.destinations",
        ),
        (
            Restore::new("mydb", "copy", early, None),
            vec![begin(), free(), archiving(), repository("c")],
            "fail no backup of mydb finished at or before this target.",
        ),
        (
            Restore::new("mydb", "copy", None, None),
            vec![
                begin(),
                free(),
                archiving(),
                restore::Event::Repository {
                    info: None,
                    origins: Vec::new(),
                    databases: Vec::new(),
                },
            ],
            "fail mydb has no pgbackrest repository yet",
        ),
        (
            Restore::new("mydb", "copy", None, None),
            vec![
                begin(),
                free(),
                archiving(),
                repository("a"),
                restore::Event::Done,
                restore::Event::Version("18".into()),
                restore::Event::Applied(Vec::new()),
            ],
            "fail backup a was taken by PostgreSQL 17, and postgres:18 is PostgreSQL 18.",
        ),
        (
            Restore::new("mydb", "copy", None, None),
            vec![begin(), restore::Event::Failed("gone".into()), free()],
            "fail gone",
        ),
    ];
    for (r, evs, why) in cases {
        let acts = restore_acts(r, evs);
        assert!(acts.iter().any(|a| a.starts_with(why)), "{why}: {acts:?}");
        assert!(acts.iter().all(|a| !a.starts_with("apply") && !a.starts_with("report")));
    }
}

#[test]
fn a_restore_is_refused_over_what_exists() {
    assert!(refuse_restore("a", "a", false, true)
        .unwrap()
        .starts_with("a cannot be restored over itself"));
    assert!(refuse_restore("a", "b", true, true)
        .unwrap()
        .starts_with("b already exists"));
    assert!(refuse_restore("a", "b", false, false)
        .unwrap()
        .ends_with("nothing to restore from"));
    assert_eq!(refuse_restore("a", "b", false, true), None);
}

#[test]
fn a_target_nothing_reaches_names_the_backups_there_are() {
    let at = Some(Moment { secs: 5, nanos: 0 });
    let sorted = vec![backup_at("a", 10), backup_at("b", 20)];
    let ended: Vec<Moment> = sorted.iter().map(|b| b.ended_at()).collect();
    assert_eq!(
        choose_backup("mydb", &sorted, &ended, at).unwrap_err(),
        "no backup of mydb finished at or before this target.\nBackups: a (ended 1970-01-01 00:00:10 UTC), b (ended 1970-01-01 00:00:20 UTC)\nA target earlier than the oldest backup cannot be reached."
    );
    assert_eq!(choose_backup("mydb", &sorted, &ended, None).unwrap().label, "b");
    assert!(find_backup("mydb", &info(Vec::new()), at)
        .unwrap_err()
        .contains("Backups: none — take one with `pgpod backup`\n"));
    assert_eq!(
        find_backup("mydb", &None, at).unwrap_err(),
        "mydb has no pgbackrest repository yet"
    );
    assert_eq!(
        find_backup("mydb", &info(sorted), Some(Moment { secs: 19, nanos: 0 }))
            .unwrap()
            .label,
        "a"
    );
}

#[test]
fn a_backup_of_another_major_version_names_the_way_to_restore_it() {
    assert_eq!(refuse_other_version("L", Some("18"), "postgres:18", "18"), None);
    assert_eq!(refuse_other_version("L", None, "postgres:18", "18"), None);
    let m = refuse_other_version("20260904-020000F", Some("17"), "postgres:18", "18").unwrap();
    assert!(m.contains("--image") && m.contains("17") && m.contains("20260904-020000F"));
}

#[test]
fn a_restored_cluster_has_its_own_name_and_maybe_its_own_image() {
    let r = restored_manifest(with_app(), "copy", None);
    assert_eq!((r.name.as_str(), r.image_name.as_str()), ("copy", "postgres:18"));
    assert_eq!(r.initdb.owner.as_deref(), Some("app"));
    let r = restored_manifest(with_app(), "copy", Some("postgres:17"));
    assert_eq!(r.image_name, "postgres:17");
    let at = Some(Moment {
        secs: 1788508800,
        nanos: 1000,
    });
    let rec = recovery("mydb", &backup_at("L", 1), at);
    assert_eq!(rec.backup_label.as_deref(), Some("L"));
    assert_eq!(
        rec.target_time.as_deref(),
        Some("2026-09-04T08:00:00.000001+00:00")
    );
    let rep = restore_report("mydb", "copy", &backup_at("L", 1), None, Vec::new());
    assert_eq!((rep.backup_label.as_str(), rep.target_time), ("L", None));
}

#[test]
fn jobs_are_named_and_their_output_is_read() {
    let stamp = now_stamp();
    assert_eq!(stamp.len(), 15);
    assert_eq!(stamp.chars().nth(8), Some('t'));
    assert_eq!(job_name("mydb", "backup", "S"), "pgpod-mydb-backup-S");
    assert_eq!(
        find_document("P00 INFO: x\n  [{\"a\":1}] \r\n[2]\n").unwrap(),
        "[{\"a\":1}]"
    );
    assert_eq!(
        find_document("nothing").unwrap_err(),
        "pgbackrest info produced no JSON:\nnothing"
    );
    let args = strings(&["info", "--output=json"]);
    assert_eq!(job_outcome(&args, 0, "out".into()).unwrap(), "out");
    assert_eq!(
        job_outcome(&args, 2, "out".into()).unwrap_err().to_text(),
        "pgbackrest info --output=json failed\n\nout"
    );
    assert!(job_still_running("mydb-1", 120, &args)
        .to_text()
        .ends_with("pgbackrest info --output=json is still running"));
    assert_eq!(agent_binary("/a".into(), true).unwrap(), "/a");
    assert_eq!(
        agent_binary("/a".into(), false).unwrap_err().to_text(),
        "the pgpod agent is not installed at /a — build and install it with ops/build-agent.sh"
    );
    assert_eq!(
        Error::PortAllocation("x".into()).to_text(),
        "could not allocate a host port: x"
    );
    assert_eq!(
        Error::Upgrade {
            step: "s".into(),
            detail: "d".into()
        }
        .to_text(),
        "the s step of the upgrade failed\n\nd"
    );
}

// ---- upgrades --------------------------------------------------------

fn upgrade_plan(check: bool, backup_enabled: bool) -> UpgradePlan {
    UpgradePlan {
        cluster: "mydb".into(),
        instances: 1,
        image: "postgres:17".into(),
        to_image: " postgres:18 ".into(),
        volume: "v".into(),
        method: UpgradeMethod::Link,
        check,
        analyze: true,
        backup: true,
        backup_enabled,
    }
}

/// Runs an upgrade; `fail_at` names the acts that fail.
fn upgrade_acts(plan: UpgradePlan, fail_at: &[&str]) -> (Vec<String>, upgrade::Act) {
    let mut u = Upgrade::new(plan);
    let mut out = Vec::new();
    let mut ev = upgrade::Event::Begin;
    loop {
        let act = u.step(&ev);
        let word = format!("{act:?}");
        let short = word.split(['(', ' ']).next().unwrap().to_string();
        out.push(short.clone());
        ev = match act {
            upgrade::Act::Report(_)
            | upgrade::Act::Fail(_)
            | upgrade::Act::GiveUp(_)
            | upgrade::Act::Ignore => return (out, act),
            _ if fail_at.contains(&short.as_str()) => upgrade::Event::Failed("boom".into()),
            upgrade::Act::ReadVersion => upgrade::Event::Version("17".into()),
            upgrade::Act::ProbeImage => upgrade::Event::Probed {
                version: "18".into(),
                from_key: 170000,
                to_key: 180000,
            },
            upgrade::Act::GatherFacts => upgrade::Event::Facts {
                fronting: vec![Fronting {
                    pooler: "app".into(),
                    budget: "90s".into(),
                }],
                has_backups: true,
            },
            upgrade::Act::StageOld => upgrade::Event::Staged {
                version: "17".into(),
                bytes: 42,
            },
            upgrade::Act::HoldPoolers => upgrade::Event::Held(1),
            upgrade::Act::Swap => upgrade::Event::Swapped {
                seconds: 7,
                old_data_dir: "/pgdata/old".into(),
            },
            upgrade::Act::Release => upgrade::Event::Released(1234),
            upgrade::Act::TakeBackup => upgrade::Event::BackedUp(some("L")),
            _ => upgrade::Event::Done,
        };
    }
}

#[test]
fn an_upgrade_goes_through_its_steps_in_order() {
    let (acts, last) = upgrade_acts(upgrade_plan(false, true), &[]);
    assert_eq!(
        acts,
        [
            "PullImage",
            "ReadVersion",
            "ProbeImage",
            "GatherFacts",
            "LogRequest",
            "StageOld",
            "Fence",
            "HoldPoolers",
            "Swap",
            "RecordTarget",
            "StartNew",
            "WaitReady",
            "UpgradeStanza",
            "Release",
            "Log",
            "Analyze",
            "TakeBackup",
            "Unfence",
            "Report",
        ]
    );
    match last {
        upgrade::Act::Report(r) => {
            assert_eq!((r.from_version.as_str(), r.to_version.as_str()), ("17", "18"));
            assert_eq!(r.to_image, "postgres:18");
            assert_eq!((r.poolers_held, r.held_ms, r.upgrade_seconds), (1, 1234, 7));
            assert_eq!(r.old_data_dir, "/pgdata/old");
            assert!(r.analyzed && !r.checked_only);
            assert_eq!(r.backup_label.as_deref(), Some("L"));
            assert_eq!(r.warnings.len(), 1);
            assert!(r.warnings[0].starts_with("pooler app holds clients for at most 90s"));
        }
        other => panic!("{other:?}"),
    }
}

#[test]
fn a_failed_window_brings_the_old_instance_back_first() {
    let (acts, last) = upgrade_acts(upgrade_plan(false, true), &["Swap"]);
    assert_eq!(
        acts[8..],
        ["Swap", "LogFailure", "RestartOld", "WaitReady", "Unfence", "Release", "Fail"]
    );
    assert!(matches!(last, upgrade::Act::Fail(m) if m == "boom"));
    // Even where the old instance is slow to answer.
    let (acts, _) = upgrade_acts(upgrade_plan(false, true), &["Swap", "WaitReady"]);
    assert_eq!(acts[11..], ["WaitReady", "Unfence", "Release", "Fail"]);
    let (_, last) = upgrade_acts(upgrade_plan(false, true), &["Swap", "RestartOld"]);
    match last {
        upgrade::Act::GiveUp(m) => {
            assert!(m.starts_with("the upgrade failed (boom), and so did bringing the old instance back up (boom)."));
            assert!(m.ends_with("inside volume v — no swap had happened when this failed."));
        }
        other => panic!("{other:?}"),
    }
    // Where the failure cannot be logged, nothing more is tried.
    let (acts, last) = upgrade_acts(upgrade_plan(false, true), &["Swap", "LogFailure"]);
    assert_eq!(acts[8..], ["Swap", "LogFailure", "Fail"]);
    assert!(matches!(last, upgrade::Act::Fail(m) if m == "boom"));
}

#[test]
fn a_rehearsal_ends_where_it_started() {
    let (acts, last) = upgrade_acts(upgrade_plan(true, true), &[]);
    assert_eq!(
        acts[8..],
        ["Swap", "RestartOld", "WaitReady", "Unfence", "Release", "Log", "Report"]
    );
    match last {
        upgrade::Act::Report(r) => {
            assert!(r.checked_only && !r.analyzed);
            assert_eq!((r.old_data_dir.as_str(), r.backup_label), ("", None));
        }
        other => panic!("{other:?}"),
    }
}

#[test]
fn late_failures_become_warnings() {
    let (_, last) = upgrade_acts(
        upgrade_plan(false, true),
        &["UpgradeStanza", "Analyze", "TakeBackup"],
    );
    match last {
        upgrade::Act::Report(r) => {
            assert_eq!(r.warnings.len(), 4);
            assert!(r.warnings[1].ends_with("until it is run: boom"));
            assert!(r.warnings[2].contains("failed: boom. Until it runs"));
            assert!(r.warnings[3].starts_with("the post-upgrade backup failed: boom. The repository's"));
        }
        other => panic!("{other:?}"),
    }
    let mut plan = upgrade_plan(false, false);
    plan.analyze = false;
    let (_, last) = upgrade_acts(plan, &[]);
    match last {
        upgrade::Act::Report(r) => {
            assert!(r.warnings[1].contains("There is no way back from this upgrade."));
            assert!(r.warnings[2].starts_with("planner statistics were not rebuilt"));
            assert!(r.warnings[3].ends_with("so no post-upgrade backup was taken"));
        }
        other => panic!("{other:?}"),
    }
}

#[test]
fn an_upgrade_that_cannot_be_is_refused_before_anything_is_stopped() {
    let mut p = upgrade_plan(false, true);
    p.instances = 2;
    assert!(refuse_upgrade(&p).unwrap().starts_with("mydb has 2 instances, and pgpod can only"));
    let mut p = upgrade_plan(false, true);
    p.to_image = "postgres:17\n".into();
    assert!(refuse_upgrade(&p).unwrap().contains("already runs postgres:17"));
    assert_eq!(refuse_upgrade(&upgrade_plan(false, true)), None);
    assert_eq!(refuse_version("i", "17", 17, "18", 18), None);
    assert!(refuse_version("i", "18", 18, "18", 18).unwrap().contains("apply --recreate"));
    assert!(refuse_version("i", "18", 18, "17", 17).unwrap().contains("older"));
    let (_, last) = upgrade_acts(upgrade_plan(false, true), &["ReadVersion"]);
    assert!(matches!(last, upgrade::Act::Fail(m) if m.starts_with("mydb has to be running to be upgraded") && m.contains("(boom)")));
    let (_, last) = upgrade_acts(upgrade_plan(false, true), &["HoldPoolers"]);
    assert!(matches!(last, upgrade::Act::Fail(m) if m == "boom"));
}

#[test]
fn an_image_has_to_fit_its_data() {
    let v = |label: &str, key: u32| Version {
        label: label.into(),
        key,
    };
    assert_eq!(refuse_incompatible_image("mydb", "i", &None, &v("18", 18)), None);
    assert_eq!(
        refuse_incompatible_image("mydb", "i", &Some(v("18", 18)), &v("18", 18)),
        None
    );
    let m = refuse_incompatible_image("mydb", "pg:18", &Some(v("17", 17)), &v("18", 18)).unwrap();
    assert!(m.contains("pgpod upgrade mydb --to-image pg:18"));
    assert!(m.contains("Nothing has been changed — the data directory is still PostgreSQL 17."));
    let m = refuse_incompatible_image("mydb", "pg:17", &Some(v("18", 18)), &v("17", 17)).unwrap();
    assert!(m.contains("older") && m.contains("18") && m.ends_with("Nothing has been changed."));
    assert!(!must_compare(false, true, &some("a"), &some("b")));
    assert!(!must_compare(true, true, &some("a"), &some("a")));
    assert!(must_compare(true, false, &some("a"), &some("a")));
    assert!(must_compare(true, true, &None, &None));
    assert_eq!(UpgradeMethod::Copy.patience(), 86400);
    let o = UpgradeOptions::default();
    assert_eq!((o.jobs, o.wait, o.method.as_str()), (2, 300, "link"));
}

#[test]
fn a_cluster_is_shown_its_own_pools_alone() {
    let route = |name: &str, cluster: &str| PoolRoute {
        name: name.into(),
        cluster: cluster.into(),
    };
    let p = pooler_status(
        "app",
        true,
        6432,
        &vec![route("a", "alpha"), route("b", "beta"), route("c", "alpha")],
        "alpha",
    );
    assert!(p.running);
    assert_eq!(
        p.connection_uris,
        ["postgresql://127.0.0.1:6432/a", "postgresql://127.0.0.1:6432/c"]
    );
}

#[test]
fn what_runs_inside_a_container_is_read_with_care() {
    assert_eq!(running_version("m-1", true, "17\n", "", some("17")), Ok("17".into()));
    assert_eq!(
        running_version("m-1", true, " x\n", "", None).unwrap_err(),
        "m-1 reports a data directory version this pgpod does not understand: \"x\""
    );
    assert_eq!(
        running_version("m-1", false, "", " no \n", None).unwrap_err(),
        format!("could not read {}/PG_VERSION from m-1: no", container::PGDATA)
    );
    assert_eq!(analyze_in_stages(true, "a", "b"), None);
    assert_eq!(analyze_in_stages(false, " a ", " b ").unwrap(), "vacuumdb failed: ab");
    assert!(job_error("upgrade-run", 0, "logs", None).is_none());
    assert_eq!(
        job_error("upgrade-run", 1, "logs", None).unwrap().to_text(),
        "the upgrade-run step of the upgrade failed\n\nlogs"
    );
    assert_eq!(
        job_error("upgrade-run", 0, "logs", Some("bad")).unwrap().to_text(),
        "the upgrade-run step of the upgrade failed\n\nbad\n\nlogs"
    );
    assert_eq!(
        upgrade::job_still_running("m-1", 5, "upgrade-run").to_text(),
        "instance m-1 did not become ready within 5s\nthe upgrade-run job is still running"
    );
}

fn running_cluster(name: &str) -> ClusterRow {
    ClusterRow {
        name: name.to_string(),
        phase: ClusterPhase::Running,
        why: "",
        unusable: None,
    }
}

fn running_pooler(name: &str, host_port: u16) -> PoolerRow {
    PoolerRow {
        name: name.to_string(),
        container: format!("pgpod-{name}"),
        phase: ClusterPhase::Running,
        why: "",
        host_port,
        usable: true,
    }
}

fn resume_row(ordinal: u32, host_port: u16) -> ResumeRow {
    ResumeRow {
        ordinal,
        container: format!("c-{ordinal}"),
        phase: InstancePhase::Running,
        host_port,
    }
}

fn down() -> resume::Event {
    resume::Event::Probed(Ok(Some(ContainerState {
        running: false,
        status: None,
    })))
}

/// The action in a few words.
fn resume_word(act: &resume::Act) -> String {
    match act {
        resume::Act::Ignore => "ignore".to_string(),
        resume::Act::ListClusters => "clusters".to_string(),
        resume::Act::ListInstances(name) => format!("instances of {name}"),
        resume::Act::Probe { container } => format!("probe {container}"),
        resume::Act::Launch { container, port } => format!("launch {container} on {port}"),
        resume::Act::WaitReady { cluster, ordinal } => format!("wait {cluster} {ordinal}"),
        resume::Act::Log { cluster, note } => format!("log {cluster} {} {}", note.level, note.message),
        resume::Act::Conclude { cluster, note: Some(n) } => {
            format!("conclude {cluster} {} {}", n.level, n.message)
        }
        resume::Act::Conclude { cluster, note: None } => format!("conclude {cluster}"),
        resume::Act::ListPoolers => "poolers".to_string(),
        resume::Act::WaitPooler(name) => format!("wait {name}"),
        resume::Act::Report(_) => "report".to_string(),
        resume::Act::Fail(e) => format!("fail {e}"),
    }
}

#[test]
fn an_instance_that_is_not_ready_is_warned_of() {
    let note = not_ready_note("main-1", "timed out");
    assert_eq!(note.level, "warn");
    assert_eq!(note.message, "main-1 started but not ready: timed out");
}

#[test]
fn boot_recovery_takes_clusters_then_poolers_and_stops_for_none() {
    let mut run = Resume::new(false);
    let mut next = |ev| run.step(ev);
    assert_eq!(resume_word(&next(resume::Event::Begin)), "clusters");
    let stopped = ClusterRow {
        name: "old".to_string(),
        phase: ClusterPhase::Stopped,
        why: "it was stopped",
        unusable: None,
    };
    let odd = ClusterRow {
        name: "Odd".to_string(),
        phase: ClusterPhase::Running,
        why: "",
        unusable: Some("not a name".to_string()),
    };
    assert_eq!(
        resume_word(&next(resume::Event::Clusters(vec![
            odd,
            stopped,
            running_cluster("main")
        ]))),
        "conclude Odd"
    );
    assert_eq!(
        resume_word(&next(resume::Event::Done)),
        "conclude old info boot recovery skipped this cluster: it was stopped"
    );
    assert_eq!(resume_word(&next(resume::Event::Done)), "instances of main");
    assert_eq!(
        resume_word(&next(resume::Event::Instances(vec![
            resume_row(3, 5003),
            resume_row(1, 5001),
            resume_row(2, 5002)
        ]))),
        "probe c-1"
    );
    assert_eq!(resume_word(&next(down())), "launch c-1 on 5001");
    assert_eq!(
        resume_word(&next(resume::Event::Started(Start::Started))),
        "wait main 1"
    );
    assert_eq!(
        resume_word(&next(resume::Event::Waited(Some("slow".to_string())))),
        "log main warn main-1 started but not ready: slow"
    );
    assert_eq!(resume_word(&next(resume::Event::Done)), "probe c-2");
    assert_eq!(resume_word(&next(down())), "launch c-2 on 5002");
    assert_eq!(
        resume_word(&next(resume::Event::Started(Start::Failed("no".to_string())))),
        "probe c-3"
    );
    assert_eq!(
        resume_word(&next(resume::Event::Probed(Err("gone".to_string())))),
        "conclude main warn boot recovery: 0 adopted, 1 started, 0 skipped, 0 missing, 2 failed"
    );
    assert_eq!(resume_word(&next(resume::Event::Done)), "poolers");
    assert_eq!(
        resume_word(&next(resume::Event::Poolers(vec![
            running_pooler("a", 6001),
            running_pooler("b", 6002)
        ]))),
        "probe pgpod-a"
    );
    assert_eq!(resume_word(&next(down())), "launch pgpod-a on 6001");
    assert_eq!(
        resume_word(&next(resume::Event::Started(Start::Started))),
        "wait a"
    );
    assert_eq!(
        resume_word(&next(resume::Event::Waited(Some("refused".to_string())))),
        "probe pgpod-b"
    );
    assert_eq!(resume_word(&next(down())), "launch pgpod-b on 6002");
    assert_eq!(
        resume_word(&next(resume::Event::Started(Start::Started))),
        "wait b"
    );
    let report = match next(resume::Event::Waited(None)) {
        resume::Act::Report(report) => report,
        other => panic!("{other:?}"),
    };
    let names: Vec<&str> = report.clusters.iter().map(|c| c.cluster.as_str()).collect();
    assert_eq!(names, ["Odd", "old", "main"]);
    assert_eq!(
        report.clusters[0].skipped.as_deref(),
        Some("unusable cluster name in the registry: not a name")
    );
    let actions: Vec<ResumeAction> = report.clusters[2].instances.iter().map(|u| u.action).collect();
    assert_eq!(
        actions,
        [ResumeAction::Started, ResumeAction::Failed, ResumeAction::Failed]
    );
    let actions: Vec<ResumeAction> = report.poolers.iter().map(|u| u.action).collect();
    assert_eq!(actions, [ResumeAction::Failed, ResumeAction::Started]);
    assert!(!report.dry_run);
    assert_eq!(resume_word(&next(resume::Event::Done)), "ignore");
}

#[test]
fn a_dry_boot_recovery_only_looks() {
    let mut run = Resume::new(true);
    run.step(resume::Event::Begin);
    run.step(resume::Event::Clusters(vec![running_cluster("main")]));
    run.step(resume::Event::Instances(vec![resume_row(1, 5001)]));
    assert_eq!(resume_word(&run.step(down())), "conclude main");
    assert_eq!(resume_word(&run.step(resume::Event::Done)), "poolers");
    run.step(resume::Event::Poolers(vec![running_pooler("a", 6001)]));
    match run.step(down()) {
        resume::Act::Report(report) => {
            assert!(report.dry_run);
            assert_eq!(report.clusters[0].instances[0].action, ResumeAction::WouldStart);
            assert_eq!(report.poolers[0].action, ResumeAction::WouldStart);
        }
        other => panic!("{other:?}"),
    }
}

#[test]
fn only_an_unreadable_registry_stops_boot_recovery() {
    let mut run = Resume::new(false);
    run.step(resume::Event::Begin);
    run.step(resume::Event::Clusters(vec![running_cluster("main")]));
    assert_eq!(
        resume_word(&run.step(resume::Event::Failed("locked".to_string()))),
        "fail locked"
    );
    let mut run = Resume::new(false);
    run.step(resume::Event::Begin);
    run.step(resume::Event::Clusters(vec![running_cluster("main")]));
    run.step(resume::Event::Instances(vec![resume_row(1, 5001)]));
    assert_eq!(
        resume_word(&run.step(resume::Event::Failed("locked".to_string()))),
        "ignore"
    );
    assert_eq!(
        resume_word(&run.step(resume::Event::Probed(Err("gone".to_string())))),
        "conclude main warn boot recovery: 0 adopted, 0 started, 0 skipped, 0 missing, 1 failed"
    );
}
