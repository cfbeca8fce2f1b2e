use pgpod::agent::bootstrap::{
    after_bootstrap, app_database, append_include_dir, bootstrap_if_needed, is_initialised,
    needs_creating, pgbackrest_destinations, read_optional, read_required, recovery_finished,
    BootstrapMode, Bootstrapped, OwnerPassword,
};
use pgpod::agent::elf::{
    dynamic_info, find_library, is_glibc_core, resolve_dependencies, string_at, Answer,
    DynamicInfo, OffsetOutOfRange, Question, Resolver,
};
use pgpod::agent::pgbackrest::{ensure_stanza, failure, not_mounted, restore, stanza_note};
use pgpod::agent::pooler::{
    authenticate, is_missing_pool, pools_for, Answered, Backend, Holds, Login, PoolRoute, Query,
    Round,
};
use pgpod::agent::status::{non_empty, probe, InstanceRole, Status};
use pgpod::agent::supervise::{forward, reap, Program, Reaped, Signal, Waited};
use pgpod::agent::upgrade::{
    is_cluster, mirrored, read_control_data, refuse_stage, refuse_wrappers, skips_dependencies,
    skips_dir, stage_report, verify_staged_binaries, wrapper_script, Act, Event, Stage,
    UpgradePlan, UpgradeRun,
};
use pgpod::backup::config::Destination;
use pgpod::container;

fn strings(v: &[&str]) -> Vec<String> {
    v.iter().map(|s| s.to_string()).collect()
}

#[test]
fn a_lazily_created_pool_is_recognised_as_nothing_to_hold() {
    assert!(is_missing_pool(
        "PAUSE appdb: ERROR: No pool for database \"appdb\""
    ));
    assert!(!is_missing_pool(
        "PAUSE appdb: FATAL: password authentication failed"
    ));
}

#[test]
fn an_unreachable_postgres_reports_unknown_not_a_role() {
    let s = Status::unavailable("connection refused".into());
    assert_eq!(s.role, InstanceRole::Unknown);
    assert!(!s.accepting_connections);
    assert!(s.error.is_some());
}

#[test]
fn empty_lsn_fields_become_none() {
    assert_eq!(non_empty("  "), None);
    assert_eq!(non_empty(""), None);
    assert_eq!(non_empty("0/3000028"), Some("0/3000028".to_string()));
}

#[test]
fn the_glibc_runtime_is_never_staged() {
    for name in [
        "libc.so.6",
        "libm.so.6",
        "libpthread.so.0",
        "libdl.so.2",
        "librt.so.1",
        "libresolv.so.2",
        "ld-linux-x86-64.so.2",
        "libnss_files.so.2",
        "/lib/x86_64-linux-gnu/libc.so.6",
    ] {
        assert!(is_glibc_core(name), "{name} must come from the new image");
    }
}

#[test]
fn everything_postgresql_actually_links_is_staged() {
    for name in [
        "libicuuc.so.72",
        "libicui18n.so.76",
        "libssl.so.3",
        "libcrypto.so.3",
        "libxml2.so.2",
        "liblz4.so.1",
        "libzstd.so.1",
        "libldap.so.2",
        "libcrypt.so.1",
        "libstdc++.so.6",
        "libgcc_s.so.1",
    ] {
        assert!(!is_glibc_core(name), "{name} must travel with the binaries");
    }
}

#[test]
fn staging_preserves_the_absolute_path() {
    let root = "/pgdata/upgrade/old";
    assert_eq!(
        mirrored(root, "/usr/lib/postgresql/17/bin"),
        "/pgdata/upgrade/old/usr/lib/postgresql/17/bin"
    );
    assert_eq!(
        mirrored(root, "/usr/local/share/postgresql"),
        "/pgdata/upgrade/old/usr/local/share/postgresql"
    );
}

// ---- ELF -------------------------------------------------------------

const STRINGS: &[u8] = b"\0libssl.so.3\0libc.so.6\0$ORIGIN/../lib:/opt/x::${ORIGIN}\0";

fn put(b: &mut Vec<u8>, at: usize, bytes: &[u8]) {
    if b.len() < at + bytes.len() {
        b.resize(at + bytes.len(), 0);
    }
    b[at..at + bytes.len()].copy_from_slice(bytes);
}

fn entry(b: &mut Vec<u8>, at: usize, tag: u64, value: u64) {
    put(b, at, &tag.to_le_bytes());
    put(b, at + 8, &value.to_le_bytes());
}

fn segment(b: &mut Vec<u8>, at: usize, kind: u32, offset: u64, vaddr: u64, filesz: u64) {
    put(b, at, &kind.to_le_bytes());
    put(b, at + 8, &offset.to_le_bytes());
    put(b, at + 16, &vaddr.to_le_bytes());
    put(b, at + 32, &filesz.to_le_bytes());
    put(b, at + 55, &[0]);
}

/// A file with two segments, a dynamic section and a string table.
fn elf() -> Vec<u8> {
    let mut b = vec![0u8; 64];
    put(&mut b, 0, b"\x7fELF\x02\x01");
    put(&mut b, 32, &64u64.to_le_bytes());
    put(&mut b, 54, &56u16.to_le_bytes());
    put(&mut b, 56, &2u16.to_le_bytes());
    segment(&mut b, 64, 1, 0, 0x1000, 4096);
    segment(&mut b, 120, 2, 200, 0x1000 + 200, 112);
    entry(&mut b, 200, 1, 1);
    entry(&mut b, 216, 1, 13);
    entry(&mut b, 232, 29, 23);
    entry(&mut b, 248, 5, 0x1000 + 400);
    entry(&mut b, 264, 10, STRINGS.len() as u64);
    entry(&mut b, 280, 0, 0);
    entry(&mut b, 296, 1, 23);
    put(&mut b, 400, STRINGS);
    b
}

#[test]
fn a_dynamic_section_is_read_through_its_segments() {
    let info = dynamic_info(&elf(), "/usr/bin").unwrap().unwrap();
    assert_eq!(info.needed, ["libssl.so.3", "libc.so.6"]);
    assert_eq!(
        info.search_paths,
        ["/usr/bin/../lib", "/opt/x", "/usr/bin"]
    );
}

#[test]
fn what_is_not_an_elf_file_says_nothing() {
    assert_eq!(dynamic_info(b"", "/").unwrap(), None);
    assert_eq!(dynamic_info(b"#!/bin/sh\nexec postgres\n", "/").unwrap(), None);
    let mut short = elf();
    short.truncate(63);
    assert_eq!(dynamic_info(&short, "/").unwrap(), None);
    let mut big_endian = elf();
    big_endian[5] = 2;
    assert_eq!(dynamic_info(&big_endian, "/").unwrap(), None);
    let mut no_headers = elf();
    put(&mut no_headers, 56, &0u16.to_le_bytes());
    assert_eq!(dynamic_info(&no_headers, "/").unwrap(), None);
    let mut no_dynamic = elf();
    put(&mut no_dynamic, 120, &3u32.to_le_bytes());
    assert_eq!(dynamic_info(&no_dynamic, "/").unwrap(), None);
    let mut unmapped = elf();
    put(&mut unmapped, 256, &0x9000u64.to_le_bytes());
    assert_eq!(dynamic_info(&unmapped, "/").unwrap(), None);
    let mut cut = elf();
    cut.truncate(300);
    assert_eq!(dynamic_info(&cut, "/").unwrap(), None);
}

#[test]
fn an_offset_no_file_can_have_is_an_error() {
    let mut far = elf();
    put(&mut far, 32, &u64::MAX.to_le_bytes());
    assert_eq!(dynamic_info(&far, "/"), Err(OffsetOutOfRange));
    let mut far = elf();
    put(&mut far, 128, &(1u64 << 63).to_le_bytes());
    assert_eq!(dynamic_info(&far, "/"), Err(OffsetOutOfRange));
    let mut far = elf();
    put(&mut far, 72, &u64::MAX.to_le_bytes());
    assert_eq!(dynamic_info(&far, "/"), Err(OffsetOutOfRange));
}

#[test]
fn strings_end_at_a_zero_byte_and_need_not_be_utf8() {
    assert_eq!(string_at(b"ab\0cd", 0).as_deref(), Some("ab"));
    assert_eq!(string_at(b"ab\0cd", 2).as_deref(), Some(""));
    assert_eq!(string_at(b"ab\0cd", 3), None);
    assert_eq!(string_at(b"ab\0", 3), None);
    assert_eq!(string_at(b"a\xff\0", 0).as_deref(), Some("a\u{fffd}"));
}

#[test]
fn a_soname_is_looked_for_in_the_search_paths_before_the_defaults() {
    let c = find_library("libx.so.1", &strings(&["/opt/lib", "/opt/lib2/"]));
    assert_eq!(c[0], "/opt/lib/libx.so.1");
    assert_eq!(c[1], "/opt/lib2/libx.so.1");
    assert_eq!(c[2], "/usr/local/lib/libx.so.1");
    assert_eq!(c.len(), 12);
    assert_eq!(find_library("/abs/liby.so", &strings(&["/opt"]))[0], "/abs/liby.so");
}

fn needs(needed: &[&str], search: &[&str]) -> Answer {
    Answer::Info(Some(DynamicInfo {
        needed: strings(needed),
        search_paths: strings(search),
    }))
}

fn found(p: &str) -> Answer {
    Answer::Found(Some(p.to_string()))
}

#[test]
fn dependencies_are_followed_and_the_runtime_stays() {
    let roots = strings(&["/usr/bin/postgres"]);
    let skip = strings(&["/usr/lib/postgresql"]);
    let script = vec![
        needs(&["libssl.so.3", "libc.so.6", "libpq.so.5"], &["/opt/ssl"]),
        found("/opt/ssl/libssl.so.3"),
        found("/lib/libc.so.6"),
        found("/usr/lib/postgresql/libpq.so.5"),
        // The root itself comes off the queue first.
        needs(&["libssl.so.3"], &[]),
        // libssl needs libcrypto, and libm which is never asked for.
        needs(&["libm.so.6", "libcrypto.so.3"], &["/opt/own"]),
        found("/opt/own/libcrypto.so.3"),
        // libpq is skipped but still read.
        needs(&["libssl.so.3", "libgone.so.1"], &[]),
        Answer::Found(None),
        // libcrypto has no more to say.
        Answer::Info(None),
    ];
    let mut r = Resolver::new(&roots, &skip);
    let mut q = r.question();
    assert_eq!(q, Question::Read("/usr/bin/postgres".into()));
    for (i, a) in script.iter().enumerate() {
        assert_eq!(resolve_dependencies(&roots, &skip, &script[..i].to_vec()), q);
        r.answer(a);
        q = r.question();
        if i == 5 {
            match &q {
                Question::Find(c) => {
                    assert_eq!(c[0], "/opt/own/libcrypto.so.3");
                    assert_eq!(c[1], "/opt/ssl/libcrypto.so.3");
                }
                other => panic!("expected a search, got {other:?}"),
            }
        }
    }
    assert_eq!(
        q,
        Question::Done(strings(&[
            "/opt/own/libcrypto.so.3",
            "/opt/ssl/libssl.so.3"
        ]))
    );
    assert_eq!(resolve_dependencies(&roots, &skip, &script), q);
}

#[test]
fn a_library_missed_by_one_file_is_looked_for_by_the_next() {
    let roots = strings(&["/bin/a", "/bin/b"]);
    let script = vec![
        needs(&["libx.so.1"], &[]),
        Answer::Found(None),
        needs(&["libx.so.1"], &["/opt/b/lib"]),
        found("/opt/b/lib/libx.so.1"),
        needs(&["libx.so.1"], &[]),
        needs(&["libx.so.1"], &["/opt/b/lib"]),
        Answer::Info(None),
    ];
    assert_eq!(
        resolve_dependencies(&roots, &vec![], &script[..2].to_vec()),
        Question::Read("/bin/b".into())
    );
    match resolve_dependencies(&roots, &vec![], &script[..3].to_vec()) {
        Question::Find(c) => assert_eq!(c[0], "/opt/b/lib/libx.so.1"),
        other => panic!("expected a search, got {other:?}"),
    }
    // Found once, it is not looked for again.
    assert_eq!(
        resolve_dependencies(&roots, &vec![], &script[..5].to_vec()),
        Question::Read("/bin/b".into())
    );
    assert_eq!(
        resolve_dependencies(&roots, &vec![], &script),
        Question::Done(strings(&["/opt/b/lib/libx.so.1"]))
    );
}

#[test]
fn libraries_are_listed_in_path_order() {
    let roots = strings(&["/bin/a"]);
    let script = vec![
        needs(&["libz.so", "liby.so", "libx.so", "libw.so"], &[]),
        found("/opt/lib-b/libz.so"),
        found("/opt/lib/z/liby.so"),
        found("/opt/lib/libx.so"),
        // The same file once more, written otherwise.
        found("/opt//lib/./libx.so"),
        Answer::Info(None),
        Answer::Info(None),
        Answer::Info(None),
        Answer::Info(None),
        Answer::Info(None),
    ];
    assert_eq!(
        resolve_dependencies(&roots, &vec![], &script),
        Question::Done(strings(&[
            "/opt/lib/libx.so",
            "/opt/lib/z/liby.so",
            "/opt/lib-b/libz.so"
        ]))
    );
}

#[test]
fn pgbackrest_looks_at_its_own_destinations_first() {
    let urls = |v: Option<Vec<Destination>>| -> Option<Vec<String>> {
        v.map(|v| v.into_iter().map(|d| d.url).collect())
    };
    let own = || vec![Destination::new("s3://own")];
    let from = || Some(vec![Destination::new("s3://from")]);
    assert_eq!(
        urls(pgbackrest_destinations(own(), from())),
        Some(strings(&["s3://own"]))
    );
    assert_eq!(
        urls(pgbackrest_destinations(Vec::new(), from())),
        Some(strings(&["s3://from"]))
    );
    assert_eq!(
        urls(pgbackrest_destinations(own(), None)),
        Some(strings(&["s3://own"]))
    );
    assert_eq!(urls(pgbackrest_destinations(Vec::new(), None)), None);
    assert_eq!(urls(pgbackrest_destinations(Vec::new(), Some(Vec::new()))), None);
}

// ---- the upgrade -----------------------------------------------------

fn plan(check: bool) -> UpgradePlan {
    UpgradePlan {
        from_version: "17".into(),
        to_version: "18".into(),
        method: "link".into(),
        check,
    }
}

const CONTROL: &str = "pg_control version number:            1700\nDatabase cluster state:               shut down\nData page checksum version:           0\n";

/// A run up to the point where `pg_upgrade` is started.
fn upgrading(check: bool) -> UpgradeRun {
    let mut run = UpgradeRun::new(plan(check));
    assert_eq!(run.step(&Event::Begin), Act::InspectVolume);
    assert_eq!(
        run.step(&Event::Volume {
            pgdata: true,
            new_cluster: true
        }),
        Act::ReadVersions
    );
    assert_eq!(
        run.step(&Event::Versions {
            data: "17".into(),
            here: "18".into()
        }),
        Act::TryStaged
    );
    assert_eq!(
        run.step(&Event::Tried {
            success: true,
            status: "exit status: 0".into(),
            label: Some("17".into()),
            stderr: String::new()
        }),
        Act::ReadControl
    );
    assert_eq!(
        run.step(&Event::Control(CONTROL.into())),
        Act::BuildNew { checksums: false }
    );
    assert_eq!(
        run.step(&Event::Initdb {
            success: true,
            status: String::new()
        }),
        Act::RunUpgrade
    );
    run
}

fn upgraded(success: bool) -> Event {
    Event::Upgraded {
        success,
        status: "exit status: 1".into(),
        seconds: 7,
        now: 1788487215,
    }
}

#[test]
fn a_successful_upgrade_swaps_the_clusters_and_keeps_the_old_one() {
    let mut run = upgrading(false);
    let old = format!("{}17-1788487215", container::PGDATA_OLD_PREFIX);
    assert_eq!(run.step(&upgraded(true)), Act::MoveAside(old.clone()));
    assert_eq!(run.step(&Event::Moved(true)), Act::Place);
    match run.step(&Event::Moved(true)) {
        Act::Finish(r) => {
            assert_eq!(r.old_data_dir, old);
            assert_eq!((r.seconds, r.method.as_str()), (7, "link"));
            assert_eq!((r.from_version.as_str(), r.to_version.as_str()), ("17", "18"));
        }
        other => panic!("{other:?}"),
    }
    assert_eq!(run.stage, Stage::Ended);
    assert_eq!(run.step(&Event::Moved(true)), Act::Ignore);
}

#[test]
fn a_swap_that_fails_half_way_is_undone() {
    let mut run = upgrading(false);
    let old = format!("{}17-1788487215", container::PGDATA_OLD_PREFIX);
    run.step(&upgraded(true));
    assert_eq!(run.step(&Event::Moved(true)), Act::Place);
    assert_eq!(run.step(&Event::Moved(false)), Act::PutBack(old.clone()));

    let mut run = upgrading(false);
    run.step(&upgraded(true));
    assert_eq!(
        run.step(&Event::Moved(false)),
        Act::Fail(format!("failed to move the old cluster aside to {old}"))
    );
}

#[test]
fn a_rehearsal_discards_the_trial_cluster_and_moves_nothing() {
    let mut run = upgrading(true);
    match run.step(&upgraded(true)) {
        Act::DiscardTrial(r) => assert_eq!((r.old_data_dir.as_str(), r.seconds), ("", 7)),
        other => panic!("{other:?}"),
    }
}

#[test]
fn a_failed_pg_upgrade_leaves_the_cluster_unchanged() {
    let mut run = upgrading(false);
    match run.step(&upgraded(false)) {
        Act::DiscardAndFail(m) => assert_eq!(
            m,
            format!(
                "pg_upgrade failed with exit status: 1. The cluster at {} is unchanged — its own output above says why.",
                container::PGDATA
            )
        ),
        other => panic!("{other:?}"),
    }
}

#[test]
fn an_interrupted_swap_is_completed() {
    let mut run = UpgradeRun::new(plan(false));
    run.step(&Event::Begin);
    match run.step(&Event::Volume {
        pgdata: false,
        new_cluster: true,
    }) {
        Act::CompleteSwap(r) => assert_eq!((r.old_data_dir.as_str(), r.seconds), ("", 0)),
        other => panic!("{other:?}"),
    }
}

#[test]
fn wrong_versions_are_refused_before_anything_changes() {
    let said = |data: &str, here: &str| {
        let mut run = UpgradeRun::new(plan(false));
        run.step(&Event::Begin);
        run.step(&Event::Volume {
            pgdata: true,
            new_cluster: false,
        });
        match run.step(&Event::Versions {
            data: data.into(),
            here: here.into(),
        }) {
            Act::Fail(m) => m,
            other => panic!("{other:?}"),
        }
    };
    assert_eq!(
        said("16", "18"),
        "the cluster in the volume is PostgreSQL 16, but the staged installation is 17. Nothing has been changed."
    );
    assert_eq!(
        said("17", "17"),
        "this image carries PostgreSQL 17, but the upgrade was planned for 18. Nothing has been changed."
    );
}

#[test]
fn staged_programs_have_to_run_and_be_the_right_version() {
    assert_eq!(
        verify_staged_binaries("17", true, "", &Some("17".into()), ""),
        None
    );
    let said = verify_staged_binaries("17", false, "exit status: 127", &None, "not found").unwrap();
    assert!(said.starts_with(
        "the staged PostgreSQL 17 binaries cannot run in this image (exit status: 127): not found\nThis is"
    ));
    assert!(said.contains("the cluster is untouched"));
    assert_eq!(
        verify_staged_binaries("17", true, "", &Some("16".into()), "").unwrap(),
        "the staged binaries report Some(\"16\"), not the expected PostgreSQL 17"
    );
    assert_eq!(
        verify_staged_binaries("17", true, "", &None, "").unwrap(),
        "the staged binaries report None, not the expected PostgreSQL 17"
    );
}

#[test]
fn control_data_is_read_field_by_field() {
    let c = read_control_data(CONTROL);
    assert_eq!(c.state, "shut down");
    assert!(c.cleanly_shut_down && !c.checksums);
    let c = read_control_data("Database cluster state: in production\r\nx\n");
    assert_eq!(c.state, "in production");
    assert!(!c.cleanly_shut_down && c.checksums);
    let c = read_control_data("");
    assert_eq!(c.state, "unknown");

    let mut run = UpgradeRun::new(plan(false));
    run.stage = Stage::Reading;
    match run.step(&Event::Control("".into())) {
        Act::Fail(m) => assert!(m.contains("(pg_controldata says \"unknown\"), and pg_upgrade")),
        other => panic!("{other:?}"),
    }
    let mut run = UpgradeRun::new(plan(false));
    run.stage = Stage::Building;
    assert_eq!(
        run.step(&Event::Initdb {
            success: false,
            status: "exit status: 1".into()
        }),
        Act::Fail("initdb for the new cluster failed with exit status: 1".into())
    );
}

#[test]
fn a_stage_reports_its_mirrored_paths() {
    assert_eq!(refuse_stage("17", "17"), None);
    assert!(refuse_stage("18", "17")
        .unwrap()
        .starts_with("this image carries PostgreSQL 18, but the cluster in the volume is 17."));
    let r = stage_report(
        "/s",
        "17",
        "/usr/bin",
        "/usr/share",
        "/usr/lib/pg",
        &strings(&["/usr/lib", "/opt", "/usr/lib"]),
        3,
        9,
    );
    assert_eq!(r.bindir, "/s/usr/bin");
    assert_eq!(r.lib_dirs, ["/s/usr/lib", "/s/opt", "/s/usr/lib/pg"]);
    assert_eq!((r.files, r.bytes), (3, 9));
    assert!(skips_dir("bitcode") && !skips_dir("bitcode2"));
    assert!(skips_dependencies("llvmjit.so") && !skips_dependencies("vector.so"));
}

#[test]
fn a_wrapper_sets_the_library_path() {
    let s = wrapper_script("/a:/b", "/s/usr/bin/pg_ctl");
    assert!(s.starts_with("#!/bin/sh\n"));
    assert!(s.contains("\nLD_LIBRARY_PATH='/a:/b'\nexport LD_LIBRARY_PATH\nexec '/s/usr/bin/pg_ctl' \"$@\"\n"));
    assert_eq!(refuse_wrappers(1, "/s"), None);
    assert_eq!(
        refuse_wrappers(0, "/s").unwrap(),
        "the staged bin directory /s is empty — the staging step did not produce an installation"
    );
}

#[test]
fn a_half_built_cluster_is_not_a_cluster() {
    assert!(!is_cluster("/d", &Vec::new()));
    assert!(!is_cluster("/d", &strings(&["/d/PG_VERSION"])));
    assert!(is_cluster(
        "/d",
        &strings(&["/d/global/pg_control", "/d/PG_VERSION"])
    ));
    assert!(is_initialised("/d", &strings(&["/d/PG_VERSION"])));
    assert!(!is_initialised("/d", &strings(&["/e/PG_VERSION"])));
    assert!(recovery_finished("/d", &strings(&["/d/PG_VERSION"])));
    assert!(!recovery_finished("/d", &strings(&["/d/recovery.signal"])));
}

// ---- bootstrap -------------------------------------------------------

#[test]
fn a_populated_directory_is_not_bootstrapped_again() {
    assert_eq!(
        bootstrap_if_needed(true, BootstrapMode::Initdb),
        Bootstrapped::Existing
    );
    assert_eq!(
        bootstrap_if_needed(false, BootstrapMode::Recovery),
        Bootstrapped::Recovery
    );
    let p = after_bootstrap(Bootstrapped::Initdb, true);
    assert!(p.create_roles);
    assert_eq!((p.stanza_first, p.stanza_later), (Some(container::BOOTSTRAP_PORT), None));
    let p = after_bootstrap(Bootstrapped::Recovery, true);
    assert!(!p.create_roles);
    assert_eq!((p.stanza_first, p.stanza_later), (None, Some(container::PG_PORT)));
    let p = after_bootstrap(Bootstrapped::Existing, false);
    assert_eq!((p.stanza_first, p.stanza_later), (None, None));
}

#[test]
fn the_include_line_is_added_once() {
    let line = "include_dir = 'conf.d'";
    let added = append_include_dir("port = 5432\n", line).unwrap();
    assert_eq!(
        added,
        "\n# Added by pgpod. Configuration lives in conf.d/.\ninclude_dir = 'conf.d'\n"
    );
    assert_eq!(append_include_dir(&format!("port = 5432\n{added}"), line), None);
    assert_eq!(append_include_dir("  include_dir = 'conf.d'\t\r\n", line), None);
    assert!(append_include_dir("#include_dir = 'conf.d'", line).is_some());
}

#[test]
fn an_application_names_its_database_and_its_owner_or_neither() {
    let some = |s: &str| Some(s.to_string());
    let a = app_database(&some("appdb"), &some("app"), true).unwrap().unwrap();
    assert_eq!((a.database.as_str(), a.owner.as_str()), ("appdb", "app"));
    assert_eq!(a.password, OwnerPassword::Own);
    let a = app_database(&some("appdb"), &some("app"), false).unwrap().unwrap();
    assert_eq!(a.password, OwnerPassword::Superuser);
    assert_eq!(app_database(&None, &None, true).unwrap(), None);
    for (d, o) in [(some("appdb"), None), (None, some("app"))] {
        assert_eq!(
            app_database(&d, &o, true).unwrap_err(),
            "spec.bootstrap.initdb needs both `database` and `owner`, or neither"
        );
    }
    assert!(needs_creating(" \n") && !needs_creating("1"));
}

#[test]
fn a_secret_loses_its_line_end_and_nothing_else() {
    assert_eq!(read_optional("/s", None).unwrap(), None);
    assert_eq!(
        read_optional("/s", Some(" pw \r\n\n")).unwrap().unwrap(),
        " pw "
    );
    assert_eq!(read_optional("/s", Some("\n")).unwrap_err(), "secret /s is empty");
    assert_eq!(read_required("/s", Some("pw")).unwrap(), "pw");
    assert_eq!(read_required("/s", Some("")).unwrap_err(), "secret /s is empty");
    assert_eq!(
        read_required("/s", None).unwrap_err(),
        "required secret /s is not mounted — the daemon did not attach it to this container"
    );
}

// ---- pgBackRest ------------------------------------------------------

#[test]
fn pgbackrest_is_called_with_its_configuration_and_stanza() {
    let conf = format!("--config={}", container::PGBACKREST_CONF);
    assert_eq!(
        ensure_stanza("mydb", 5433),
        strings(&[&conf, "--stanza=mydb", "stanza-create", "--pg1-port=5433"])
    );
    assert_eq!(
        restore("mydb", None, None),
        strings(&[&conf, "--stanza=mydb", "restore"])
    );
    assert_eq!(
        restore("mydb", Some("L"), Some("T")),
        strings(&[
            &conf,
            "--stanza=mydb",
            "restore",
            "--set=L",
            "--type=time",
            "--target=T",
            "--target-action=promote"
        ])
    );
}

#[test]
fn a_failed_pgbackrest_run_reports_both_streams() {
    let args = strings(&["backup", "--x"]);
    assert_eq!(
        failure(&args, "exit status: 75", " err \n", "out\n"),
        "pgbackrest backup --x failed (exit status: 75):\nerr\nout"
    );
    assert_eq!(
        failure(&args, "exit status: 75", "", ""),
        "pgbackrest backup --x failed (exit status: 75):\n(no output)"
    );
    assert_eq!(
        failure(&args, "s", "", "out"),
        "pgbackrest backup --x failed (s):\nout"
    );
    assert_eq!(
        failure(&args, "s", "err", " "),
        "pgbackrest backup --x failed (s):\nerr"
    );
    assert!(not_mounted().starts_with(&format!("failed to run {}", container::PGBACKREST_BIN)));
    assert_eq!(stanza_note("mydb", None), "pgbackrest stanza 'mydb' ready");
    assert!(stanza_note("mydb", Some("boom"))
        .starts_with("could not create the pgbackrest stanza: boom\nArchiving will fail"));
}

// ---- status ----------------------------------------------------------

#[test]
fn a_probe_is_read_field_by_field() {
    let s = probe(Ok("t|0/30|| 2026-09-04 ".into()));
    assert_eq!(s.role, InstanceRole::Standby);
    assert!(s.accepting_connections);
    assert_eq!(s.last_wal_replay_lsn.as_deref(), Some("0/30"));
    assert_eq!(s.current_wal_flush_lsn, None);
    assert_eq!(s.postmaster_start_time.as_deref(), Some("2026-09-04"));
    assert_eq!(probe(Ok("f|||".into())).role, InstanceRole::Primary);
    let s = probe(Ok("t|x".into()));
    assert_eq!(s.role, InstanceRole::Unknown);
    assert_eq!(s.error.as_deref(), Some("unexpected probe output: \"t|x\""));
    let s = probe(Err("refused".into()));
    assert_eq!((s.role, s.error.as_deref()), (InstanceRole::Unknown, Some("refused")));
}

// ---- supervision -----------------------------------------------------

#[test]
fn signals_are_translated_for_each_program() {
    assert_eq!(forward(Program::Postgres, Signal::Term), Some(Signal::Int));
    assert_eq!(forward(Program::Postgres, Signal::Int), Some(Signal::Int));
    assert_eq!(forward(Program::Postgres, Signal::Hup), None);
    assert_eq!(forward(Program::Pooler, Signal::Int), Some(Signal::Term));
    assert_eq!(forward(Program::Pooler, Signal::Hup), Some(Signal::Hup));
}

#[test]
fn only_the_program_itself_ends_the_agent() {
    let p = Program::Postgres;
    assert!(matches!(reap(p, 7, &Waited::Exited { pid: 7, code: 3 }), Reaped::Gone(3)));
    assert!(matches!(reap(p, 7, &Waited::Exited { pid: 8, code: 3 }), Reaped::Again));
    assert!(matches!(reap(p, 7, &Waited::Signaled { pid: 7, signal: 9 }), Reaped::Gone(137)));
    assert!(matches!(reap(p, 7, &Waited::Signaled { pid: 8, signal: 9 }), Reaped::Again));
    assert!(matches!(reap(p, 7, &Waited::StillAlive), Reaped::Nothing));
    assert!(matches!(reap(p, 7, &Waited::Other), Reaped::Again));
    match reap(Program::Pooler, 7, &Waited::NoChildren) {
        Reaped::Broken(m) => {
            assert_eq!(m, "pg_doorman disappeared without reporting an exit status")
        }
        other => panic!("{other:?}"),
    }
    match reap(p, 7, &Waited::Failed("EINTR".into())) {
        Reaped::Broken(m) => assert_eq!(m, "waitpid failed: EINTR"),
        other => panic!("{other:?}"),
    }
}

// ---- the pooler's console --------------------------------------------

#[test]
fn logging_in_waits_for_readiness() {
    assert!(matches!(
        authenticate(&Backend::AuthenticationMd5 { salt: [1, 2, 3, 4] }),
        Login::Password([1, 2, 3, 4])
    ));
    assert!(matches!(authenticate(&Backend::AuthenticationOk), Login::Wait));
    assert!(matches!(authenticate(&Backend::ReadyForQuery), Login::Ready));
    match authenticate(&Backend::AuthenticationOther(10)) {
        Login::Refused(m) => assert_eq!(
            m,
            "the pooler asked for authentication method 10, and the agent implements only MD5 (method 5)"
        ),
        other => panic!("{other:?}"),
    }
    match authenticate(&Backend::ErrorResponse("no".into())) {
        Login::Refused(m) => assert_eq!(m, "the pooler refused the admin connection: no"),
        other => panic!("{other:?}"),
    }
}

#[test]
fn an_error_does_not_end_a_command() {
    let mut q = Query::new();
    assert!(!q.take(Backend::RowDescription(strings(&["a"]))));
    assert!(!q.take(Backend::DataRow(vec![Some("1".into())])));
    assert!(!q.take(Backend::ErrorResponse("first".into())));
    assert!(!q.take(Backend::ErrorResponse("last".into())));
    assert!(!q.take(Backend::CommandComplete("SHOW".into())));
    assert!(q.take(Backend::ReadyForQuery));
    assert_eq!(q.columns, ["a"]);
    assert_eq!(q.rows, vec![vec![Some("1".to_string())]]);
    assert_eq!(q.tag.as_deref(), Some("SHOW"));
    assert_eq!(q.failed("SHOW POOLS").as_deref(), Some("SHOW POOLS: last"));
    assert_eq!(Query::new().failed("X"), None);
}

fn routes() -> Vec<PoolRoute> {
    [("a1", "alpha"), ("b1", "beta"), ("a2", "alpha")]
        .iter()
        .map(|(n, c)| PoolRoute {
            name: n.to_string(),
            cluster: c.to_string(),
        })
        .collect()
}

#[test]
fn a_round_tells_every_pool_of_a_cluster() {
    assert_eq!(pools_for(&routes(), "alpha"), ["a1", "a2"]);
    let mut r = Round::new("PAUSE", "alpha", &routes(), &strings(&["alpha", "beta"])).unwrap();
    assert_eq!(r.command().as_deref(), Some("PAUSE a1"));
    r.answer(Answered::Failed("PAUSE a1: No pool for database \"a1\"".into()));
    assert_eq!(r.command().as_deref(), Some("PAUSE a2"));
    r.answer(Answered::Done);
    assert_eq!(r.command(), None);
    assert_eq!(r.applied, ["a2"]);
    assert_eq!(r.failure, None);

    let mut r = Round::new("PAUSE", "alpha", &routes(), &Vec::new()).unwrap();
    r.answer(Answered::Failed("boom".into()));
    assert_eq!(r.command(), None);
    assert_eq!(r.failure.as_deref(), Some("boom"));

    assert_eq!(
        Round::new("PAUSE", "gamma", &routes(), &strings(&["alpha", "beta"])).unwrap_err(),
        "this pooler fronts no pools for cluster \"gamma\" — it serves [\"alpha\", \"beta\"]"
    );
}

#[test]
fn a_deadline_lapses_once_the_hold_moved_on() {
    let mut h = Holds::new();
    let armed = h.bump("alpha");
    assert_eq!(armed, 1);
    assert!(h.is_due("alpha", armed));
    h.bump("beta");
    assert!(h.is_due("alpha", armed), "another cluster's hold is its own");
    assert_eq!(h.bump("alpha"), 2);
    assert!(!h.is_due("alpha", armed));
    assert_eq!(h.current("gamma"), 0);
}
