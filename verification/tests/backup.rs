use pgpod::backup::config::{parse_days, split_endpoint, Destination, PgBackRestConfig, RepoKind, Repository, RetentionMode, read_credentials};
use pgpod::backup::error::Error;
use pgpod::backup::info::{
    stanza, ArchiveInfo, Backup, BackupArchive, BackupSize, BackupType, RepoSize, StanzaInfo,
    Status, Timestamp,
};
use pgpod::container;
use pgpod::time::{parse_rfc3339, utc_or_now, Moment, MAX_SECS, MIN_SECS};

fn dest(url: &str) -> Destination {
    Destination::new(url)
}

fn repo(url: &str) -> Repository {
    Repository::from_destination(&dest(url)).unwrap()
}

fn config(urls: &[&str]) -> PgBackRestConfig {
    let d: Vec<Destination> = urls.iter().map(|u| dest(u)).collect();
    PgBackRestConfig::new("mydb", &d, None, RetentionMode::Report).unwrap()
}

/// The settings actually in effect, ignoring comments and blanks.
fn settings(rendered: &str) -> Vec<(String, String)> {
    rendered
        .lines()
        .map(str::trim)
        .filter(|l| !l.is_empty() && !l.starts_with('#') && !l.starts_with('['))
        .filter_map(|l| l.split_once('='))
        .map(|(k, v)| (k.to_string(), v.to_string()))
        .collect()
}

fn setting(rendered: &str, key: &str) -> Option<String> {
    settings(rendered)
        .into_iter()
        .rfind(|(k, _)| k == key)
        .map(|(_, v)| v)
}

#[test]
fn a_local_destination_becomes_a_posix_repository() {
    let r = repo("file:///archive/demo");
    assert_eq!(r.kind, RepoKind::Posix);
    assert_eq!(r.path, "/archive/demo");
}

#[test]
fn an_s3_destination_splits_bucket_from_prefix() {
    let r = repo("s3://pgpod-backups/prod");
    assert_eq!(
        r.kind,
        RepoKind::S3 {
            bucket: "pgpod-backups".into(),
            endpoint: None,
            region: None
        }
    );
    assert_eq!(r.path, "/prod");
}

#[test]
fn a_bucket_with_no_prefix_gets_the_repository_root() {
    let r = repo("gs://pgpod-backups");
    assert_eq!(
        r.kind,
        RepoKind::Gcs {
            bucket: "pgpod-backups".into()
        }
    );
    assert_eq!(r.path, "/");
}

#[test]
fn gcs_defaults_to_the_instance_service_account() {
    let rendered = config(&["gs://pgpod-backups/prod"]).render();
    assert!(rendered.contains("repo1-gcs-key-type=auto"), "{rendered}");
}

#[test]
fn an_endpoint_is_split_into_host_and_port() {
    let d = Destination {
        endpoint: Some("garage.internal:3900".into()),
        region: Some("garage".into()),
        ..dest("s3://mirror/pgpod")
    };
    let r = Repository::from_destination(&d).unwrap();
    assert_eq!(
        r.kind,
        RepoKind::S3 {
            bucket: "mirror".into(),
            endpoint: Some("garage.internal".into()),
            region: Some("garage".into())
        }
    );
    assert_eq!(r.port, Some(3900));
}

#[test]
fn an_endpoint_written_as_a_url_is_refused() {
    let d = Destination {
        endpoint: Some("http://garage.internal:3900".into()),
        ..dest("s3://mirror/pgpod")
    };
    let err = Repository::from_destination(&d).unwrap_err();
    assert!(err.to_text().contains("not a URL"), "{}", err.to_text());
}

#[test]
fn tls_verification_is_only_disabled_when_asked() {
    let plain = config(&["s3://mirror/pgpod"]).render();
    assert_eq!(setting(&plain, "repo1-storage-verify-tls"), None, "{plain}");

    let d = Destination {
        verify_tls: false,
        ..dest("s3://mirror/pgpod")
    };
    let mut out = String::new();
    Repository::from_destination(&d)
        .unwrap()
        .render(1, &mut out);
    assert!(out.contains("repo1-storage-verify-tls=n"), "{out}");
}

#[test]
fn several_destinations_become_numbered_repositories() {
    let rendered = config(&["file:///archive/a", "s3://mirror/pgpod"]).render();
    assert!(rendered.contains("repo1-type=posix"), "{rendered}");
    assert!(rendered.contains("repo2-type=s3"), "{rendered}");
}

#[test]
fn more_destinations_than_pgbackrest_supports_is_refused() {
    let d: Vec<Destination> = (0..5).map(|i| dest(&format!("s3://b{i}/p"))).collect();
    let err = PgBackRestConfig::new("mydb", &d, None, RetentionMode::Report).unwrap_err();
    assert!(
        matches!(err, Error::TooManyRepositories { .. }),
        "{}",
        err.to_text()
    );
    assert_eq!(
        err.to_text(),
        "pgBackRest supports at most 4 repositories, but 5 destinations are configured"
    );
}

#[test]
fn no_destination_is_an_error_rather_than_an_empty_config() {
    assert!(matches!(
        PgBackRestConfig::new("mydb", &[], None, RetentionMode::Report),
        Err(Error::NoDestinations)
    ));
    assert_eq!(
        Error::NoDestinations.to_text(),
        "no backup destination is configured"
    );
}

#[test]
fn retention_is_absent_unless_enforcement_is_asked_for() {
    let d = [dest("s3://b/p")];
    let report = PgBackRestConfig::new("mydb", &d, Some("14d"), RetentionMode::Report).unwrap();
    assert_eq!(report.retention_days, None);
    let rendered = report.render();
    assert!(
        !settings(&rendered)
            .iter()
            .any(|(k, _)| k.contains("retention")),
        "{rendered}"
    );

    let enforce = PgBackRestConfig::new("mydb", &d, Some("14d"), RetentionMode::Enforce).unwrap();
    assert_eq!(enforce.retention_days, Some(14));
    let rendered = enforce.render();
    assert!(
        rendered.contains("repo1-retention-full-type=time"),
        "{rendered}"
    );
    assert!(rendered.contains("repo1-retention-full=14"), "{rendered}");
}

#[test]
fn a_retention_window_pgbackrest_cannot_express_is_refused() {
    let d = [dest("s3://b/p")];
    for bad in ["48h", "30m", "14", "d", "0d", "2w", ""] {
        assert!(
            PgBackRestConfig::new("mydb", &d, Some(bad), RetentionMode::Enforce).is_err(),
            "{bad:?} should be refused"
        );
    }
}

#[test]
fn archiving_is_synchronous_and_never_drops_wal() {
    let rendered = config(&["s3://b/p"]).render();
    assert_eq!(setting(&rendered, "archive-async").as_deref(), Some("n"));
    assert_eq!(
        setting(&rendered, "archive-push-queue-max"),
        None,
        "pgpod must never set a queue limit that drops WAL"
    );
}

#[test]
fn every_writable_path_is_inside_the_volume() {
    let rendered = config(&["s3://b/p"]).render();
    for key in ["lock-path", "spool-path", "log-path"] {
        let line = rendered
            .lines()
            .find(|l| l.starts_with(key))
            .unwrap_or_else(|| panic!("{key} missing from:\n{rendered}"));
        let (_, path) = line.split_once('=').unwrap();
        assert!(
            path.starts_with(container::VOLUME_MOUNT),
            "{key} is outside the volume: {line}"
        );
    }
}

#[test]
fn the_stanza_section_points_at_pgdata_and_the_socket() {
    let rendered = config(&["s3://b/p"]).render();
    assert!(rendered.contains("\n[mydb]\n"), "{rendered}");
    assert!(
        rendered.contains(&format!("pg1-path={}", container::PGDATA)),
        "{rendered}"
    );
    assert!(
        rendered.contains(&format!("pg1-socket-path={}", container::SOCKET_DIR)),
        "{rendered}"
    );
}

#[test]
fn credentials_land_on_the_repository_they_belong_to() {
    let rendered = config(&["s3://one/p", "s3://two/p"])
        .with_credentials(vec![
            vec![("s3-key".into(), "KEY-ONE".into())],
            vec![("s3-key".into(), "KEY-TWO".into())],
        ])
        .render();
    assert_eq!(
        setting(&rendered, "repo1-s3-key").as_deref(),
        Some("KEY-ONE")
    );
    assert_eq!(
        setting(&rendered, "repo2-s3-key").as_deref(),
        Some("KEY-TWO")
    );
}

#[test]
fn a_destination_with_no_credentials_is_left_alone() {
    let rendered = config(&["gs://b/p", "s3://c/p"])
        .with_credentials(vec![vec![]])
        .render();
    assert_eq!(
        setting(&rendered, "repo1-gcs-key-type").as_deref(),
        Some("auto")
    );
    assert_eq!(setting(&rendered, "repo2-s3-key"), None);
}

#[test]
fn object_storage_verifies_against_the_bundle_s_own_ca_store() {
    let rendered = config(&["s3://b/p"]).render();
    assert_eq!(
        setting(&rendered, "repo1-storage-ca-file").as_deref(),
        Some(container::PGBACKREST_CA_FILE)
    );
}

#[test]
fn a_local_repository_is_told_nothing_about_tls() {
    let rendered = config(&["file:///archive/demo"]).render();
    assert_eq!(setting(&rendered, "repo1-storage-ca-file"), None);
    assert_eq!(setting(&rendered, "repo1-storage-verify-tls"), None);
}

#[test]
fn workers_are_told_to_re_invoke_through_the_wrapper() {
    let rendered = config(&["s3://b/p"]).render();
    assert_eq!(
        setting(&rendered, "cmd").as_deref(),
        Some(container::PGBACKREST_BIN)
    );
}

#[test]
fn compression_uses_the_spelling_pgbackrest_accepts() {
    let rendered = config(&["s3://b/p"]).render();
    assert_eq!(setting(&rendered, "compress-type").as_deref(), Some("zst"));
}

#[test]
fn a_recovery_stanza_gets_its_own_section() {
    let rendered = config(&["s3://b/p"])
        .with_recovery_stanza(Some("sourcedb".into()))
        .render();
    assert!(rendered.contains("\n[mydb]\n"), "{rendered}");
    assert!(rendered.contains("\n[sourcedb]\n"), "{rendered}");
    assert_eq!(
        rendered
            .matches(&format!("pg1-path={}", container::PGDATA))
            .count(),
        2,
        "{rendered}"
    );
}

#[test]
fn a_recovery_stanza_matching_our_own_is_not_duplicated() {
    let rendered = config(&["s3://b/p"])
        .with_recovery_stanza(Some("mydb".into()))
        .render();
    assert_eq!(rendered.matches("\n[mydb]\n").count(), 1, "{rendered}");
}

#[test]
fn an_explicit_option_can_correct_a_derived_one() {
    let mut d = dest("gs://b/p");
    d.options.push(("gcs-key-type".into(), "service".into()));
    let mut out = String::new();
    Repository::from_destination(&d)
        .unwrap()
        .render(1, &mut out);
    let positions: Vec<_> = out.match_indices("repo1-gcs-key-type=").collect();
    assert_eq!(positions.len(), 2, "{out}");
    assert!(
        out.rfind("repo1-gcs-key-type=service").unwrap()
            > out.find("repo1-gcs-key-type=auto").unwrap(),
        "the explicit value must come last: {out}"
    );
}

#[test]
fn a_malformed_destination_is_refused() {
    for bad in [
        "/archive/demo",
        "ftp://host/path",
        "s3://",
        "gs://",
        "file://host/path",
    ] {
        assert!(
            Repository::from_destination(&dest(bad)).is_err(),
            "{bad:?} should be refused"
        );
    }
}

#[test]
fn each_refused_destination_says_what_is_wrong_with_it() {
    let said = |url: &str| {
        Repository::from_destination(&dest(url))
            .unwrap_err()
            .to_text()
    };
    assert_eq!(
        said("/archive"),
        "backup destination \"/archive\": expected something like gs://bucket/prefix"
    );
    assert_eq!(
        said(" ftp://host/path "),
        "backup destination \"ftp://host/path\": unsupported scheme \"ftp\" — pgBackRest handles file, s3, gs, az"
    );
    assert_eq!(said("file://"), "backup destination \"file://\": names no path");
    assert_eq!(
        said("file://host/path"),
        "backup destination \"file://host/path\": a file:// URL must have an empty host — write file:///path"
    );
    assert_eq!(said("s3:///p"), "backup destination \"s3:///p\": names no bucket");
    assert_eq!(
        said("abfss://"),
        "backup destination \"abfss://\": names no container"
    );
}

#[test]
fn azure_takes_its_account_from_the_region() {
    let d = Destination {
        region: Some("acct".into()),
        endpoint: Some("azure.internal:8443".into()),
        verify_tls: false,
        ..dest("az://box/a/b/")
    };
    let r = Repository::from_destination(&d).unwrap();
    assert_eq!(
        r.kind,
        RepoKind::Azure {
            container: "box".into(),
            account: Some("acct".into())
        }
    );
    assert_eq!(r.path, "/a/b");
    let mut out = String::new();
    r.render(2, &mut out);
    assert_eq!(
        out,
        format!(
            "repo2-type=azure\nrepo2-azure-container=box\nrepo2-azure-account=acct\nrepo2-path=/a/b\nrepo2-storage-port=8443\nrepo2-storage-verify-tls=n\nrepo2-storage-ca-file={}\n",
            container::PGBACKREST_CA_FILE
        )
    );
}

#[test]
fn endpoints_are_read_exactly() {
    assert_eq!(split_endpoint(None).unwrap(), (None, None));
    assert_eq!(
        split_endpoint(Some(" host ")).unwrap(),
        (Some("host".into()), None)
    );
    assert_eq!(
        split_endpoint(Some("a:b:65535")).unwrap(),
        (Some("a:b".into()), Some(65535))
    );
    let err = split_endpoint(Some("host:65536")).unwrap_err().to_text();
    assert_eq!(
        err,
        "backup destination \"host:65536\": \"65536\" is not a port"
    );
}

#[test]
fn retention_windows_are_read_exactly() {
    assert_eq!(parse_days(" 014d ").unwrap(), 14);
    assert_eq!(parse_days("4294967295d").unwrap(), u32::MAX);
    let said = |w: &str| parse_days(w).unwrap_err().to_text();
    assert_eq!(said("14"), "\"14\" has no unit — try 14d");
    assert_eq!(
        said("4294967296d"),
        "\"4294967296d\" does not start with a number"
    );
    assert_eq!(said("d"), "\"d\" does not start with a number");
    assert_eq!(said("0d"), "\"0d\" is not a positive duration");
    assert_eq!(
        said("2w"),
        "unknown unit \"w\" in \"2w\" — pgBackRest's time-based retention counts whole days, so only `d` is accepted"
    );
}

#[test]
fn a_bad_window_is_refused_only_where_it_would_delete() {
    let d = [dest("s3://b/p")];
    assert!(PgBackRestConfig::new("mydb", &d, Some("2w"), RetentionMode::Report).is_ok());
    assert!(PgBackRestConfig::new("mydb", &d, None, RetentionMode::Enforce).is_ok());
    assert!(matches!(
        PgBackRestConfig::new("mydb", &d, Some("2w"), RetentionMode::Enforce),
        Err(Error::Invalid(_))
    ));
}

#[test]
fn an_unreadable_answer_says_so() {
    assert_eq!(
        Error::Info("eof".into()).to_text(),
        "could not read pgBackRest's output: eof"
    );
}

// ---- what a repository holds -----------------------------------------

const SAMPLE: &str = r#"[
      {
        "archive": [
          {
            "database": {"id": 1},
            "id": "18-1",
            "max": "000000010000000000000009",
            "min": "000000010000000000000002"
          }
        ],
        "backup": [
          {
            "archive": {
              "start": "000000010000000000000002",
              "stop": "000000010000000000000002"
            },
            "info": {
              "delta": 24000000,
              "repository": {"delta": 3000000, "size": 3000000},
              "size": 24000000
            },
            "label": "20260904-020000F",
            "prior": null,
            "timestamp": {"start": 1788487200, "stop": 1788487215},
            "type": "full"
          },
          {
            "archive": {
              "start": "000000010000000000000007",
              "stop": "000000010000000000000007"
            },
            "info": {
              "delta": 100000,
              "repository": {"delta": 20000, "size": 3100000},
              "size": 24500000
            },
            "label": "20260904-020000F_20260905-020000I",
            "timestamp": {"start": 1788573600, "stop": 1788573605},
            "type": "incr"
          }
        ],
        "cipher": "none",
        "db": [{"id": 1, "version": "18"}],
        "name": "mydb",
        "status": {"code": 0, "message": "ok"}
      }
    ]"#;

const EMPTY: &str = r#"[{"archive":[],"backup":[],"cipher":"none","db":[],
      "name":"t","repo":[{"cipher":"none","key":1,
      "status":{"code":1,"message":"missing stanza path"}}],
      "status":{"code":1,"message":"missing stanza path"}}]"#;

fn text(v: &serde_json::Value) -> Option<String> {
    v.as_str().map(str::to_string)
}

/// The document as the library's values.
fn infos(json: &str) -> Vec<StanzaInfo> {
    let doc: serde_json::Value = serde_json::from_str(json).unwrap();
    let list = |v: &serde_json::Value| v.as_array().cloned().unwrap_or_default();
    list(&doc)
        .iter()
        .map(|s| StanzaInfo {
            name: text(&s["name"]).unwrap(),
            backup: list(&s["backup"])
                .iter()
                .map(|b| Backup {
                    label: text(&b["label"]).unwrap(),
                    backup_type: match b["type"].as_str().unwrap() {
                        "full" => BackupType::Full,
                        "diff" => BackupType::Diff,
                        _ => BackupType::Incr,
                    },
                    timestamp: Timestamp {
                        start: b["timestamp"]["start"].as_i64().unwrap(),
                        stop: b["timestamp"]["stop"].as_i64().unwrap(),
                    },
                    archive: Some(BackupArchive {
                        start: text(&b["archive"]["start"]),
                        stop: text(&b["archive"]["stop"]),
                    }),
                    info: Some(BackupSize {
                        size: b["info"]["size"].as_u64().unwrap(),
                        repository: Some(RepoSize {
                            delta: b["info"]["repository"]["delta"].as_u64().unwrap(),
                            size: b["info"]["repository"]["size"].as_u64().unwrap(),
                        }),
                    }),
                })
                .collect(),
            archive: list(&s["archive"])
                .iter()
                .map(|a| ArchiveInfo {
                    id: text(&a["id"]).unwrap(),
                    min: text(&a["min"]),
                    max: text(&a["max"]),
                })
                .collect(),
            status: Status {
                code: s["status"]["code"].as_i64().unwrap(),
                message: text(&s["status"]["message"]).unwrap(),
            },
        })
        .collect()
}

fn at(secs: i64) -> Option<Moment> {
    Some(Moment { secs, nanos: 0 })
}

#[test]
fn parses_a_real_info_document() {
    let s = stanza(infos(SAMPLE), "mydb").unwrap();
    assert_eq!(s.backup.len(), 2);
    assert_eq!(s.status.code, 0);
    assert_eq!(
        s.archive[0].min.as_deref(),
        Some("000000010000000000000002")
    );
    assert_eq!(
        s.archive[0].max.as_deref(),
        Some("000000010000000000000009")
    );
}

#[test]
fn reads_the_label_restore_will_be_given() {
    let s = stanza(infos(SAMPLE), "mydb").unwrap();
    assert_eq!(s.backup[0].label, "20260904-020000F");
    assert_eq!(s.backup[0].backup_type, BackupType::Full);
    assert_eq!(s.backup[1].backup_type, BackupType::Incr);
}

#[test]
fn an_empty_repository_is_not_an_error() {
    let s = stanza(infos(EMPTY), "t").unwrap();
    assert!(s.backup.is_empty());
    assert_ne!(s.status.code, 0, "and it says why");
}

#[test]
fn an_unknown_stanza_is_absent_rather_than_an_error() {
    assert!(stanza(infos(SAMPLE), "otherdb").is_none());
}

#[test]
fn picks_the_newest_backup_at_or_before_the_target() {
    let s = stanza(infos(SAMPLE), "mydb").unwrap();
    assert_eq!(
        s.backup_for_target(at(1788500000)).unwrap().label,
        "20260904-020000F"
    );
    assert_eq!(
        s.backup_for_target(at(1788600000)).unwrap().label,
        "20260904-020000F_20260905-020000I"
    );
}

#[test]
fn a_backup_still_running_at_the_target_is_not_eligible() {
    let s = stanza(infos(SAMPLE), "mydb").unwrap();
    assert!(
        s.backup_for_target(at(1788487205)).is_none(),
        "a backup that had not finished must not be chosen"
    );
}

#[test]
fn no_target_means_the_newest_backup() {
    let s = stanza(infos(SAMPLE), "mydb").unwrap();
    assert_eq!(
        s.backup_for_target(None).unwrap().label,
        "20260904-020000F_20260905-020000I"
    );
}

#[test]
fn a_target_before_every_backup_yields_nothing() {
    let s = stanza(infos(SAMPLE), "mydb").unwrap();
    assert!(s.backup_for_target(at(1)).is_none());
}

fn listed(entries: &[(&str, i64)]) -> StanzaInfo {
    StanzaInfo {
        name: "mydb".into(),
        backup: entries
            .iter()
            .map(|(label, stop)| Backup {
                label: (*label).into(),
                backup_type: BackupType::Diff,
                timestamp: Timestamp {
                    start: stop - 1,
                    stop: *stop,
                },
                archive: None,
                info: None,
            })
            .collect(),
        archive: Vec::new(),
        status: Status {
            code: 0,
            message: "ok".into(),
        },
    }
}

#[test]
fn backups_are_sorted_by_when_they_stopped_and_ties_keep_their_order() {
    let s = listed(&[("c", 30), ("a1", 10), ("b", 20), ("a2", 10)]);
    let labels: Vec<String> = s
        .backups_oldest_first()
        .into_iter()
        .map(|b| b.label)
        .collect();
    assert_eq!(labels, ["a1", "a2", "b", "c"]);
    assert_eq!(s.backup_for_target(at(19)).unwrap().label, "a2");
    assert_eq!(
        s.backup_for_target(Some(Moment {
            secs: 20,
            nanos: 1
        }))
        .unwrap()
        .label,
        "b"
    );
}

#[test]
fn a_backup_without_sizes_is_zero_bytes() {
    let s = listed(&[("a", 10)]);
    assert_eq!(s.backup[0].size_bytes(), 0);
    let t = stanza(infos(SAMPLE), "mydb").unwrap();
    assert_eq!(t.backup[0].size_bytes(), 24000000);
    assert_eq!(t.backup[0].started_at(), at(1788487200).unwrap());
    assert_eq!(t.backup[0].ended_at(), at(1788487215).unwrap());
    assert_eq!(BackupType::Diff.as_str(), "diff");
}

#[test]
fn the_calendar_ends_where_chrono_says() {
    for secs in [MIN_SECS, -1, 0, MAX_SECS] {
        assert_eq!(utc_or_now(secs), Moment { secs, nanos: 0 });
        assert!(chrono::DateTime::from_timestamp(secs, 0).is_some());
    }
    for secs in [i64::MIN, MIN_SECS - 1, MAX_SECS + 1, i64::MAX] {
        let now = utc_or_now(secs);
        assert!(now.secs > 1_600_000_000 && now.secs < MAX_SECS);
        assert!(chrono::DateTime::from_timestamp(secs, 0).is_none());
    }
}

#[test]
fn timestamps_are_read_to_the_nanosecond_and_taken_to_utc() {
    assert_eq!(
        parse_rfc3339("2026-09-04T10:00:00.000001+02:00"),
        Some(Moment {
            secs: 1788508800,
            nanos: 1000
        })
    );
    assert_eq!(parse_rfc3339("2026-09-04 10:00"), None);
    assert_eq!(parse_rfc3339(""), None);
}

#[test]
fn a_credentials_secret_is_read_line_by_line() {
    let pairs = read_credentials("s3-key=KEY\n  s3-key-secret=a=b \r\nnothing\n\n");
    assert_eq!(
        pairs,
        [
            ("s3-key".to_string(), "KEY".to_string()),
            ("s3-key-secret".to_string(), "a=b".to_string()),
        ]
    );
    assert!(read_credentials("").is_empty());
}
