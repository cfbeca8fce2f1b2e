use pgpod::agent::status::InstanceRole;
use pgpod::backup::info::{Backup, BackupArchive, BackupSize, BackupType, Timestamp};
use pgpod::cli::doctor::{
    check_agent_binary, check_cgroups, check_graph_of, check_graph_root, check_network_backend,
    check_network_of, check_nofile,
    check_not_root, check_socket, check_subids, check_version, check_version_of, checks_from_info,
    checks_from_podman, human_bytes, run, Asked, Check, DoctorReport, FileLimit, PodmanInfo,
    Readings, Status,
};
use pgpod::cli::output::{render, unserialisable, OutputFormat};
use pgpod::cli::report::{
    backup_list, no_volume, parse_target, pool_route, psql, refuse_exec, refuse_recreate, Applied,
    BackupList, ExecResult, Logs, PoolStatus, PoolerAction, PoolerDeleted, PoolerList,
    PoolerPools, PoolerSummary, StatusList, StatusOutput, VolumePath,
};
use pgpod::container;
use pgpod::control::apply::{ApplyReport, DeleteReport, InstanceSummary};
use pgpod::control::backup::{BackupReport, RestoreReport};
use pgpod::control::daemon::{ClusterResume, ResumeAction, ResumeReport, UnitResume};
use pgpod::control::model::InstancePhase;
use pgpod::control::pooler::{PoolSummary, PoolerReport};
use pgpod::control::upgrade::UpgradeReport;
use pgpod::control::status::{ClusterStatus, InstanceStatus, PoolerStatus};
use pgpod::time::Moment;

fn strings(v: &[&str]) -> Vec<String> {
    v.iter().map(|s| s.to_string()).collect()
}

fn info() -> PodmanInfo {
    PodmanInfo {
        server_version: Some("5.7.0".into()),
        rootless: Some(true),
        network_backend: Some("netavark".into()),
        cgroup_version: Some("2".into()),
        oci_runtime: Some("crun".into()),
        subuid_count: 65536,
        subgid_count: 65536,
        graph_root: Some("/home/u/.local/share/containers/storage".into()),
        graph_root_allocated: Some(500 * 1024 * 1024 * 1024),
        graph_root_used: Some(10 * 1024 * 1024 * 1024),
        ..Default::default()
    }
}

#[test]
fn a_well_provisioned_host_passes_every_podman_check() {
    let checks = checks_from_info(&info());
    for c in &checks {
        assert_eq!(
            c.status,
            Status::Pass,
            "{} should pass: {}",
            c.name,
            c.detail
        );
    }
}

#[test]
fn cgroup_version_is_accepted_in_both_spellings_podman_uses() {
    for spelling in ["2", "v2"] {
        let i = PodmanInfo {
            cgroup_version: Some(spelling.into()),
            ..Default::default()
        };
        assert_eq!(
            check_cgroups(&i).status,
            Status::Pass,
            "cgroup version {spelling:?} should pass"
        );
    }
    let v1 = PodmanInfo {
        cgroup_version: Some("v1".into()),
        ..Default::default()
    };
    assert_eq!(
        check_cgroups(&v1).status,
        Status::Fail,
        "v1 is genuinely unsupported"
    );
}

#[test]
fn cni_is_a_failure_not_a_warning() {
    let mut i = info();
    i.network_backend = Some("cni".into());
    assert_eq!(check_network_backend(&i).status, Status::Fail);
}

#[test]
fn missing_subids_fail_because_postgres_cannot_start() {
    let mut i = info();
    i.subuid_count = 0;
    assert_eq!(check_subids(&i).status, Status::Fail);
}

#[test]
fn old_podman_fails_and_new_podman_passes() {
    let mut i = info();
    i.server_version = Some("4.9.3".into());
    assert_eq!(check_version(&i).status, Status::Fail);

    i.server_version = Some("6.1.1".into());
    assert_eq!(check_version(&i).status, Status::Pass);
}

#[test]
fn unreported_facts_are_unknown_not_pass() {
    let empty = PodmanInfo::default();
    for c in checks_from_info(&empty) {
        assert_ne!(
            c.status,
            Status::Pass,
            "{} must not pass on absent data: {}",
            c.name,
            c.detail
        );
    }
}

#[test]
fn low_disk_warns_but_does_not_fail() {
    let mut i = info();
    i.graph_root_used = Some(i.graph_root_allocated.unwrap() - 1024);
    assert_eq!(check_graph_root(&i).status, Status::Warn);
}

#[test]
fn report_health_ignores_warnings_but_not_failures() {
    let warn_only = DoctorReport::new(vec![Check::warn("w", "d", "h")]);
    assert!(warn_only.healthy);
    assert_eq!(warn_only.exit_code(), 0);

    let with_fail =
        DoctorReport::new(vec![Check::warn("w", "d", "h"), Check::fail("f", "d", "h")]);
    assert!(!with_fail.healthy);
    assert_eq!(with_fail.exit_code(), 1);
}

#[test]
fn every_non_passing_check_tells_you_what_to_do() {
    let i = PodmanInfo {
        network_backend: Some("cni".into()),
        cgroup_version: Some("1".into()),
        server_version: Some("4.0.0".into()),
        ..Default::default()
    };
    for c in checks_from_info(&i) {
        if c.status == Status::Fail {
            assert!(c.hint.is_some(), "{} failed without a hint", c.name);
        }
    }
}

#[test]
fn human_bytes_reads_naturally() {
    assert_eq!(human_bytes(512), "512 B");
    assert_eq!(human_bytes(1024), "1.0 KiB");
    assert_eq!(human_bytes(10 * 1024 * 1024 * 1024), "10.0 GiB");
}

/// The same sizes, with the floating point of the machine.
fn in_doubles(n: u64) -> String {
    let units = ["B", "KiB", "MiB", "GiB", "TiB"];
    let mut v = n as f64;
    let mut unit = 0;
    while v >= 1024.0 && unit < units.len() - 1 {
        v /= 1024.0;
        unit += 1;
    }
    if unit == 0 {
        format!("{n} B")
    } else {
        format!("{v:.1} {}", units[unit])
    }
}

#[test]
fn sizes_round_as_doubles_do() {
    let mut n: u64 = 1;
    for _ in 0..64 {
        for d in [0u64, 1, 2, 3, 51, 52, 205, 256, 768, 1024] {
            for m in [n.wrapping_sub(d), n.wrapping_add(d), n.wrapping_add(n / 20 * d)] {
                assert_eq!(human_bytes(m), in_doubles(m), "{m}");
            }
        }
        n = n.wrapping_mul(2);
    }
    for m in [
        1023,
        1024 + 51,
        1024 + 52,
        1024 * 1024 - 1,
        1024 * 1280,
        1024 * 1024 * 5 / 4,
        1024 * 1024 * 7 / 4,
        u64::MAX,
        u64::MAX - 1024,
        (1 << 53) + 1,
        (1 << 54) + 2,
        (1 << 54) + 6,
    ] {
        assert_eq!(human_bytes(m), in_doubles(m), "{m}");
    }
}

#[test]
fn checks_say_what_they_found() {
    let c = check_version(&info());
    assert_eq!(c.detail, "server 5.7 (5.7.0), libpod api unknown");
    let c = check_version(&PodmanInfo {
        server_version: Some("new".into()),
        ..Default::default()
    });
    assert_eq!((c.status, c.detail.as_str()), (Status::Unknown, "could not parse \"new\""));
    assert_eq!(c.hint.as_deref(), Some("podman version"));
    let c = check_version(&PodmanInfo {
        server_version: Some("4.9.3".into()),
        ..Default::default()
    });
    assert_eq!(c.detail, "4.9.3 (need >= 5.0)");
    let c = check_graph_root(&info());
    assert_eq!(
        c.detail,
        "/home/u/.local/share/containers/storage (unknown), 490.0 GiB free"
    );
    assert_eq!(check_not_root(0).status, Status::Fail);
    assert_eq!(check_not_root(1000).detail, "uid 1000");
    let c = check_socket("/run/s", "XDG_RUNTIME_DIR", false, true);
    assert_eq!((c.status, c.detail.as_str()), (Status::Pass, "/run/s (via XDG_RUNTIME_DIR)"));
    let c = check_socket("/run/s", "uid", true, false);
    assert!(c.hint.unwrap().contains("XDG_RUNTIME_DIR is unset"));
    let c = check_socket("/run/s", "uid", false, false);
    assert!(!c.hint.unwrap().contains("XDG_RUNTIME_DIR is unset"));
    let c = check_nofile(&FileLimit::Known { soft: 1024, hard: 9 });
    assert_eq!(c.status, Status::Warn);
    assert_eq!(c.hint.as_deref(), Some("raise to at least 4096: ulimit -n 4096"));
    let c = check_nofile(&FileLimit::Known { soft: 4096, hard: 8192 });
    assert_eq!(c.detail, "soft 4096, hard 8192");
    assert_eq!(
        check_nofile(&FileLimit::Unreadable("EPERM".into())).status,
        Status::Unknown
    );
    assert_eq!(check_agent_binary("/a", true).detail, "/a");
    assert_eq!(check_agent_binary("/a", false).status, Status::Warn);
}

fn asked(info: PodmanInfo, parts: Option<(u32, u32)>) -> Asked {
    let read = Readings {
        parts,
        netavark: parts.map(|_| true),
        free: parts.map(|_| 1 << 40),
    };
    Asked::Info { info, read }
}

#[test]
fn podman_is_asked_step_by_step() {
    let c = check_version_of(&info(), Some((4, 9)));
    assert_eq!((c.status, c.detail.as_str()), (Status::Fail, "5.7.0 (need >= 5.0)"));
    assert_eq!(check_version_of(&info(), None).status, Status::Unknown);
    let c = check_network_of(&PodmanInfo::default(), Some(false));
    assert_eq!(c.detail, "unknown — pgpod needs netavark for container-name DNS");
    assert_eq!(check_network_of(&info(), None).status, Status::Unknown);
    let c = check_graph_of(&info(), Some(1));
    assert_eq!(c.status, Status::Warn);
    assert!(c.detail.ends_with("(unknown), 1 B free"), "{}", c.detail);
    let c = checks_from_podman(&asked(info(), Some((6, 1))));
    assert_eq!(c[1].detail, "server 6.1 (5.7.0), libpod api unknown");
    let names = |a: &Asked| -> Vec<(String, Status)> {
        checks_from_podman(a)
            .into_iter()
            .map(|c| (c.name, c.status))
            .collect()
    };
    assert_eq!(
        names(&Asked::NoSocket),
        [("podman api".to_string(), Status::Unknown)]
    );
    assert_eq!(
        checks_from_podman(&Asked::NoSocket)[0].hint.as_deref(),
        Some("systemctl --user enable --now podman.socket")
    );
    assert_eq!(Check::unknown("rootless", "d").hint.as_deref(), Some("podman info"));
    assert_eq!(
        names(&Asked::Silent("x".into())),
        [("podman api".to_string(), Status::Fail)]
    );
    assert_eq!(
        names(&Asked::NoInfo("x".into())),
        [
            ("podman api".to_string(), Status::Pass),
            ("podman info".to_string(), Status::Fail)
        ]
    );
    assert_eq!(names(&asked(info(), Some((5, 7)))).len(), 8);
    let r = run(
        1000,
        check_socket("/s", "v", false, true),
        &asked(info(), Some((5, 7))),
        &FileLimit::Known { soft: 4096, hard: 4096 },
        check_agent_binary("/a", true),
    );
    assert_eq!(r.checks.len(), 12);
    assert!(r.checks.iter().all(|c| c.status == Status::Pass || c.hint.is_some()));
    let r = run(
        0,
        check_socket("/s", "v", true, false),
        &asked(PodmanInfo::default(), None),
        &FileLimit::Unreadable("EPERM".into()),
        check_agent_binary("/a", false),
    );
    assert!(r.checks.iter().all(|c| c.status == Status::Pass || c.hint.is_some()));
    assert_eq!(r.checks[10].hint.as_deref(), Some("ulimit -n"));
    let r = run(
        1000,
        check_socket("/s", "v", false, true),
        &asked(info(), Some((5, 7))),
        &FileLimit::Known { soft: 4096, hard: 4096 },
        check_agent_binary("/a", true),
    );
    assert!(r.healthy);
    assert_eq!(r.checks[0].name, "not root");
    assert_eq!(r.checks[11].name, "agent binary");
}

#[test]
fn a_report_lines_its_names_up() {
    let r = DoctorReport::new(vec![
        Check::pass("ab", "fine"),
        Check::fail("longer", "broken", "do this\nthen that"),
    ]);
    assert_eq!(
        r.to_text(),
        "  [ok  ] ab      fine\n  [FAIL] longer  broken\n                 → do this\n                 → then that\n\nhost is NOT ready: 1 failure(s), 0 warning(s)\n"
    );
    assert_eq!(
        DoctorReport::new(vec![Check::warn("w", "d", "h")]).to_text(),
        "  [warn] w     d\n               → h\n\nhost is usable, with 1 warning(s) worth addressing\n"
    );
    assert_eq!(
        DoctorReport::new(Vec::new()).to_text(),
        "\nhost is ready for pgpod\n"
    );
}

// ---- reports ---------------------------------------------------------

fn summary() -> InstanceSummary {
    InstanceSummary {
        instance: "mydb-1".into(),
        container: "c1".into(),
        volume: "v1".into(),
        host_port: 15432,
        connection_uri: "postgresql://x".into(),
    }
}

#[test]
fn an_apply_says_what_it_made() {
    let r = ApplyReport {
        cluster: "mydb".into(),
        generation: -3,
        created: true,
        instances: vec![summary()],
    };
    let text = "cluster 'mydb' created (generation -3)\n  mydb-1  container c1  volume v1\n    postgresql://x\n\nConnect with:  pgpod psql mydb\n";
    assert_eq!(r.to_text(), text);
    assert_eq!(Applied::Cluster(r).to_text(), text);
    let p = PoolerReport {
        pooler: "app".into(),
        generation: 2,
        created: false,
        container: "c".into(),
        host_port: 1,
        pools: vec![PoolSummary {
            name: "n".into(),
            cluster: "mydb".into(),
            database: "d".into(),
            connection_uri: "u".into(),
        }],
    };
    assert_eq!(
        Applied::Pooler(p).to_text(),
        "pooler 'app' converged (generation 2)\n  container c\n  pool n  ->  cluster mydb database d\n    u\n\nApplications connect to the pool name, not the database name.\n"
    );
    assert_eq!(refuse_recreate("app", false), None);
    assert!(refuse_recreate("app", true)
        .unwrap()
        .ends_with("`pgpod pooler delete app` then apply again."));
}

#[test]
fn a_backup_says_whether_it_is_restorable() {
    let mut r = BackupReport {
        cluster: "mydb".into(),
        finished: true,
        label: Some("L".into()),
        destinations: strings(&["s3://b", "file:///a"]),
        backup_type: Some("full".into()),
        size_bytes: Some(24),
    };
    assert_eq!(
        r.to_text(),
        "backup of cluster 'mydb'\n  destination:  s3://b\n  destination:  file:///a\n\n  label:        L\n  type:         full\n  database:     24 bytes\n\nComplete — pgbackrest recorded it, so it is restorable.\n"
    );
    r.label = None;
    assert!(r.to_text().ends_with(
        "\nThe job finished but the repository shows no new backup. Check `pgpod backups`.\n"
    ));
    r.finished = false;
    assert_eq!(
        r.to_text(),
        "backup of cluster 'mydb'\n  destination:  s3://b\n  destination:  file:///a\n\nStarted, and not waited for. `pgpod backups` lists it once it is complete.\n"
    );
}

#[test]
fn an_upgrade_says_what_it_did() {
    let mut r = UpgradeReport {
        cluster: "mydb".into(),
        from_image: "postgres:17".into(),
        to_image: "postgres:18".into(),
        from_version: "17".into(),
        to_version: "18".into(),
        method: "link".into(),
        checked_only: false,
        poolers_held: 1,
        held_ms: 1234,
        upgrade_seconds: 3,
        staged_bytes: 5,
        old_data_dir: "/pgdata/pgdata-old-17".into(),
        analyzed: true,
        backup_label: Some("L".into()),
        warnings: strings(&["w1", "w2"]),
    };
    assert_eq!(
        r.to_text(),
        "cluster 'mydb' upgraded: PostgreSQL 17 -> 18 (link mode, 1234ms held)\n  old data:  /pgdata/pgdata-old-17\n  backup:    L\n  warning:   w1\n  warning:   w2\n"
    );
    r.checked_only = true;
    r.old_data_dir = String::new();
    r.backup_label = None;
    r.warnings = Vec::new();
    r.held_ms = u128::MAX;
    assert_eq!(
        r.to_text(),
        "cluster 'mydb' can be upgraded: PostgreSQL 17 -> 18 (link mode, 340282366920938463463374607431768211455ms held)\n"
    );
}

#[test]
fn a_boot_recovery_says_what_it_did_and_counts_it() {
    let unit = |name: &str, action, detail: Option<&str>| UnitResume {
        name: name.into(),
        action,
        detail: detail.map(str::to_string),
    };
    let mut r = ResumeReport {
        clusters: vec![
            ClusterResume {
                cluster: "a".into(),
                phase: "running".into(),
                instances: vec![
                    unit("a-1", ResumeAction::Adopted, None),
                    unit("a-2", ResumeAction::WouldStart, None),
                ],
                skipped: None,
            },
            ClusterResume {
                cluster: "b".into(),
                phase: "stopped".into(),
                instances: Vec::new(),
                skipped: Some("phase stopped".into()),
            },
        ],
        poolers: vec![unit("app", ResumeAction::Failed, Some("boom"))],
        dry_run: true,
    };
    assert_eq!(
        r.to_text(),
        "a  running\n  a-1  adopted\n  a-2  would-start\nb  stopped\n  skipped: phase stopped\n  app  failed  boom\n\n1 adopted, 0 started, 1 skipped, 0 missing, 1 failed, 1 would start\n"
    );
    let c = r.counts();
    assert_eq!(
        c.adopted + c.started + c.would_start + c.skipped + c.missing + c.failed,
        4
    );
    r.dry_run = false;
    r.clusters[0].instances[1].action = ResumeAction::Started;
    assert!(r
        .to_text()
        .ends_with("\n1 adopted, 1 started, 1 skipped, 0 missing, 1 failed\n"));
}

#[test]
fn backups_are_listed_with_their_times() {
    let b = Backup {
        label: "20260904-020000F".into(),
        backup_type: BackupType::Full,
        timestamp: Timestamp {
            start: 1788487200,
            stop: 1788487215,
        },
        archive: Some(BackupArchive {
            start: Some("01".into()),
            stop: None,
        }),
        info: Some(BackupSize {
            size: 24000000,
            repository: None,
        }),
    };
    let l = backup_list("mydb", &vec![b]);
    assert_eq!(l.backups[0].started_at, "2026-09-04 02:00:00Z");
    assert_eq!(l.backups[0].wal_start.as_deref(), Some("01"));
    assert_eq!(l.backups[0].wal_stop, None);
    assert_eq!(
        l.to_text(),
        "backups of cluster 'mydb':\n\n  20260904-020000F                    full       24000000 bytes  ended 2026-09-04 02:00:15Z\n\nRestorable from 2026-09-04 02:00:15Z onwards (newest backup ended 2026-09-04 02:00:15Z).\n"
    );
    let none = BackupList {
        cluster: "mydb".into(),
        backups: Vec::new(),
    };
    assert_eq!(
        none.to_text(),
        "cluster 'mydb' has no backups.\n\nTake one with:  pgpod backup mydb\n"
    );
}

#[test]
fn a_restore_says_where_it_stopped() {
    let mut r = RestoreReport {
        source_cluster: "mydb".into(),
        target_cluster: "copy".into(),
        backup_label: "L".into(),
        target_time: Some("T".into()),
        instances: vec![summary()],
    };
    assert_eq!(
        r.to_text(),
        "restored 'mydb' into cluster 'copy'\n  from backup:  L\n  target time:  T\n\n  mydb-1  container c1  volume v1\n    postgresql://x\n\nConnect with:  pgpod psql copy\n"
    );
    r.target_time = None;
    assert!(r.to_text().contains("  target time:  (replay everything available)\n"));
    assert_eq!(
        parse_target("1970-01-01T00:00:01.5Z"),
        Ok(Moment {
            secs: 1,
            nanos: 500_000_000
        })
    );
    assert_eq!(
        parse_target("soon"),
        Err("\"soon\" is not an RFC 3339 timestamp — try 2026-09-04T10:00:00Z".into())
    );
}

fn status() -> ClusterStatus {
    ClusterStatus {
        cluster: "mydb".into(),
        generation: 4,
        phase: "running".into(),
        image: "postgres:18".into(),
        instances: vec![
            InstanceStatus {
                instance: "mydb-1".into(),
                container: "c1".into(),
                volume: "v1".into(),
                host_port: 15432,
                phase: InstancePhase::Running,
                container_state: None,
                running: true,
                role: InstanceRole::Primary,
                accepting_connections: true,
                connection_uri: "uri1".into(),
            },
            InstanceStatus {
                instance: "mydb-2".into(),
                container: "c2".into(),
                volume: "v2".into(),
                host_port: 5,
                phase: InstancePhase::Running,
                container_state: None,
                running: true,
                role: InstanceRole::Unknown,
                accepting_connections: false,
                connection_uri: "uri2".into(),
            },
        ],
        poolers: vec![
            PoolerStatus {
                pooler: "down".into(),
                running: false,
                host_port: 1,
                connection_uris: strings(&["x"]),
            },
            PoolerStatus {
                pooler: "app".into(),
                running: true,
                host_port: 2,
                connection_uris: strings(&["pooled"]),
            },
        ],
        storage_size: Some("10Gi".into()),
        recent_events: strings(&["1", "2", "3", "4", "5", "6"]),
    }
}

#[test]
fn a_status_shows_instances_poolers_and_events() {
    let text = "cluster:    mydb\nphase:      running (generation 4)\nimage:      postgres:18\nstorage:    10Gi (advisory — not enforced)\n\ninstances:\n  mydb-1       primary    running   port 15432  uri1\n  mydb-2       unknown    running   port 5      uri2\n               (container is up but postgres is not answering yet)\n\npoolers:\n  down         stopped   port 1\n    x\n  app          running   port 2\n    pooled\n\nprimary:    uri1\npooled:     pooled\n\nrecent events:\n  1\n  2\n  3\n  4\n  5\n";
    assert_eq!(status().to_text(), text);
    assert_eq!(StatusOutput::One(Box::new(status())).to_text(), text);
    assert_eq!(
        StatusOutput::Many(StatusList(vec![status()])).to_text(),
        "CLUSTER          PHASE      INSTANCES  PRIMARY\nmydb             running    2/2        uri1\n"
    );
    assert_eq!(
        StatusList(Vec::new()).to_text(),
        "no clusters — create one with `pgpod apply -f cluster.yaml`\n"
    );
}

#[test]
fn a_delete_says_what_was_kept_and_what_was_destroyed() {
    let r = DeleteReport {
        cluster: "mydb".into(),
        containers_removed: strings(&["c1"]),
        volumes_removed: Vec::new(),
        volumes_retained: strings(&["v1"]),
        poolers: strings(&["a", "b"]),
    };
    assert_eq!(
        r.to_text(),
        "cluster 'mydb' deleted\n  removed container c1\n  kept volume v1 (data intact)\n\nData was kept. `pgpod apply` with the same manifest reuses it;\n`pgpod delete --purge` destroys it.\n\nStill fronted by: a, b\nThose poolers now point at an instance that is not running, so clients\nthrough them will fail until `pgpod apply` brings it back.\n"
    );
    let r = DeleteReport {
        cluster: "mydb".into(),
        containers_removed: Vec::new(),
        volumes_removed: strings(&["v1"]),
        volumes_retained: Vec::new(),
        poolers: Vec::new(),
    };
    assert_eq!(r.to_text(), "cluster 'mydb' deleted\n  DESTROYED volume v1\n");
}

#[test]
fn poolers_are_listed_with_their_pools() {
    assert_eq!(PoolerList { poolers: Vec::new() }.to_text(), "no poolers\n");
    let l = PoolerList {
        poolers: vec![PoolerSummary {
            pooler: "app".into(),
            container: "c".into(),
            host_port: 16432,
            phase: "running".into(),
            pools: vec![pool_route("n", "mydb", "d")],
        }],
    };
    assert_eq!(l.to_text(), "app  running  port 16432\n  n -> mydb/d\n");
    assert!(PoolerPools { pools: Vec::new() }
        .to_text()
        .starts_with("no pools are instantiated yet"));
    let p = PoolerPools {
        pools: vec![PoolStatus {
            database: "appdb".into(),
            user: "app".into(),
            paused: false,
            clients_waiting: 3,
            servers_active: 12,
            servers_idle: 0,
        }],
    };
    assert_eq!(
        p.to_text(),
        "pool                 user          paused  waiting   active     idle\nappdb                app            false        3       12        0\n"
    );
    assert_eq!(
        PoolerAction {
            pooler: "app".into(),
            cluster: "mydb".into(),
            action: "paused".into()
        }
        .to_text(),
        "paused pools for cluster 'mydb' on pooler 'app'\n"
    );
    assert!(PoolerDeleted { pooler: "app".into() }
        .to_text()
        .starts_with("pooler 'app' deleted\n\nNothing durable"));
}

#[test]
fn the_rest_passes_through() {
    assert_eq!(
        ExecResult {
            exit_code: Some(0),
            stdout: "out".into(),
            stderr: "err".into()
        }
        .to_text(),
        "outerr"
    );
    assert_eq!(
        Logs {
            instance: "mydb-1".into(),
            logs: "l".into()
        }
        .to_text(),
        "l"
    );
    let v = VolumePath {
        instance: "mydb-1".into(),
        volume: "v".into(),
        mountpoint: "/m".into(),
    };
    assert!(v.to_text().starts_with("volume:     v\nmountpoint: /m\n\nPGDATA lives"));
    assert!(v.to_text().contains("\n  podman unshare ls -la /m/pgdata\n"));
    assert_eq!(no_volume("v", "mydb-1"), "no volume v — has mydb-1 been created?");
    assert!(refuse_exec("mydb-1", &Vec::new()).unwrap().starts_with("nothing to run"));
    assert_eq!(refuse_exec("mydb-1", &strings(&["ls"])), None);
    let args = psql("/run/s", "c1", None);
    assert_eq!(args[1], "unix:///run/s");
    assert_eq!(args[7], container::SOCKET_DIR);
    assert_eq!(args.last().unwrap(), "postgres");
    assert_eq!(psql("/run/s", "c1", Some("appdb")).last().unwrap(), "appdb");
    assert_eq!(render(OutputFormat::Json, "t".into(), "j".into()), "j");
    assert_eq!(render(OutputFormat::default(), "t".into(), "j".into()), "t");
    assert_eq!(
        unserialisable("x"),
        "{\"error\":\"failed to serialize output: x\"}"
    );
}
