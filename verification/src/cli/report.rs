//! What each command says.

use crate::backup::info::{type_text, Backup};
use crate::container::SOCKET_DIR;
use crate::control::apply::{ApplyReport, DeleteReport, InstanceSummary};
use crate::control::backup::{BackupReport, RestoreReport};
use crate::control::daemon::{ClusterResume, ResumeReport, UnitResume};
use crate::control::pooler::{PoolSummary, PoolerReport};
use crate::control::status::{first_primary, ClusterStatus, InstanceStatus, PoolerStatus};
use crate::control::upgrade::UpgradeReport;
use crate::text::{
    append_all, append_decimal, append_left, append_right, append_wide_decimal, clone_opt, concatenated, debug_form,
    debug_quoted, decimal, decimal_of, join, joined, opt_str, opt_text, padded_left, padded_right,
    push_text, signed_decimal, signed_decimal_of, texts,
};
use crate::time::{
    format_utc, formatted, parse_rfc3339, representable, rfc3339_read, Moment, SHOWN,
};
use vstd::prelude::*;
use vstd::string::*;

verus! {

// ---- apply -----------------------------------------------------------

/// An instance on two lines, after `lead`.
pub open spec fn summary_lines(lead: Seq<char>, i: InstanceSummary) -> Seq<char> {
    lead + "  "@ + i.instance@ + "  container "@ + i.container@ + "  volume "@ + i.volume@ + "\n    "@
        + i.connection_uri@ + "\n"@
}

fn summary_lines_of(lead: &str, i: &InstanceSummary) -> (s: String)
    ensures
        s@ == summary_lines(lead@, *i),
{
    let mut s = lead.to_owned();
    s.append("  ");
    s.append(i.instance.as_str());
    s.append("  container ");
    s.append(i.container.as_str());
    s.append("  volume ");
    s.append(i.volume.as_str());
    s.append("\n    ");
    s.append(i.connection_uri.as_str());
    s.append("\n");
    s
}

fn all_summary_lines(v: &Vec<InstanceSummary>, lead: &str) -> (r: Vec<String>)
    ensures
        texts(r@) == v@.map_values(|i: InstanceSummary| summary_lines(lead@, i)),
{
    let mut parts: Vec<String> = Vec::new();
    let ghost want = v@.map_values(|i: InstanceSummary| summary_lines(lead@, i));
    let mut k: usize = 0;
    assert(texts(parts@) =~= want.take(0));
    while k < v.len()
        invariant
            k <= v.len(),
            want == v@.map_values(|i: InstanceSummary| summary_lines(lead@, i)),
            texts(parts@) == want.take(k as int),
        decreases v.len() - k,
    {
        push_text(&mut parts, summary_lines_of(lead, &v[k]));
        assert(texts(parts@) =~= want.take(k + 1));
        k = k + 1;
    }
    assert(want.take(want.len() as int) =~= want);
    parts
}

/// Whether something is new.
pub open spec fn verb(created: bool) -> Seq<char> {
    if created {
        "created"@
    } else {
        "converged"@
    }
}

fn verb_of(created: bool) -> (r: &'static str)
    ensures
        r@ == verb(created),
{
    if created {
        "created"
    } else {
        "converged"
    }
}

pub open spec fn apply_text(r: ApplyReport) -> Seq<char> {
    "cluster '"@ + r.cluster@ + "' "@ + verb(r.created) + " (generation "@ + signed_decimal(
        r.generation as int,
    ) + ")\n"@ + concatenated(
        r.instances@.map_values(|i: InstanceSummary| summary_lines(""@, i)),
    ) + "\nConnect with:  pgpod psql "@ + r.cluster@ + "\n"@
}

impl ApplyReport {
    /// The report for people.
    pub fn to_text(&self) -> (r: String)
        ensures
            r@ == apply_text(*self),
    {
        let mut s = "cluster '".to_owned();
        s.append(self.cluster.as_str());
        s.append("' ");
        s.append(verb_of(self.created));
        s.append(" (generation ");
        s.append(signed_decimal_of(self.generation).as_str());
        s.append(")\n");
        append_all(&mut s, &all_summary_lines(&self.instances, ""));
        s.append("\nConnect with:  pgpod psql ");
        s.append(self.cluster.as_str());
        s.append("\n");
        s
    }
}

/// A pool on two lines.
pub open spec fn pool_lines(p: PoolSummary) -> Seq<char> {
    "  pool "@ + p.name@ + "  ->  cluster "@ + p.cluster@ + " database "@ + p.database@ + "\n    "@
        + p.connection_uri@ + "\n"@
}

pub open spec fn pooler_text(r: PoolerReport) -> Seq<char> {
    "pooler '"@ + r.pooler@ + "' "@ + verb(r.created) + " (generation "@ + signed_decimal(
        r.generation as int,
    ) + ")\n  container "@ + r.container@ + "\n"@ + concatenated(
        r.pools@.map_values(|p: PoolSummary| pool_lines(p)),
    ) + "\nApplications connect to the pool name, not the database name.\n"@
}

impl PoolerReport {
    /// The report for people.
    pub fn to_text(&self) -> (r: String)
        ensures
            r@ == pooler_text(*self),
    {
        let mut s = "pooler '".to_owned();
        s.append(self.pooler.as_str());
        s.append("' ");
        s.append(verb_of(self.created));
        s.append(" (generation ");
        s.append(signed_decimal_of(self.generation).as_str());
        s.append(")\n  container ");
        s.append(self.container.as_str());
        s.append("\n");
        let mut parts: Vec<String> = Vec::new();
        let ghost want = self.pools@.map_values(|p: PoolSummary| pool_lines(p));
        let mut k: usize = 0;
        assert(texts(parts@) =~= want.take(0));
        while k < self.pools.len()
            invariant
                k <= self.pools.len(),
                want == self.pools@.map_values(|p: PoolSummary| pool_lines(p)),
                texts(parts@) == want.take(k as int),
            decreases self.pools.len() - k,
        {
            let p = &self.pools[k];
            let mut l = "  pool ".to_owned();
            l.append(p.name.as_str());
            l.append("  ->  cluster ");
            l.append(p.cluster.as_str());
            l.append(" database ");
            l.append(p.database.as_str());
            l.append("\n    ");
            l.append(p.connection_uri.as_str());
            l.append("\n");
            push_text(&mut parts, l);
            assert(texts(parts@) =~= want.take(k + 1));
            k = k + 1;
        }
        assert(want.take(want.len() as int) =~= want);
        append_all(&mut s, &parts);
        s.append("\nApplications connect to the pool name, not the database name.\n");
        s
    }
}

/// What an apply brought about.
pub enum Applied {
    Cluster(ApplyReport),
    Pooler(PoolerReport),
}

impl Applied {
    /// The report for people.
    pub fn to_text(&self) -> (r: String)
        ensures
            r@ == (match *self {
                Applied::Cluster(a) => apply_text(a),
                Applied::Pooler(p) => pooler_text(p),
            }),
    {
        match self {
            Applied::Cluster(a) => a.to_text(),
            Applied::Pooler(p) => p.to_text(),
        }
    }
}

pub const RECREATE_POOLER: &'static str =
    "--recreate applies to clusters, not poolers. Replacing a \
                     pooler drops every connection through it, because there is \
                     nothing in front of the pooler to hold them: \
                     `pgpod pooler delete ";

/// Refuses to recreate a pooler.
pub fn refuse_recreate(pooler: &str, recreate: bool) -> (r: Option<String>)
    ensures
        opt_text(r) == (if recreate {
            Some(RECREATE_POOLER@ + pooler@ + "` then apply again."@)
        } else {
            None
        }),
{
    if !recreate {
        return None;
    }
    let mut m = RECREATE_POOLER.to_owned();
    m.append(pooler);
    m.append("` then apply again.");
    Some(m)
}

// ---- backups ---------------------------------------------------------

pub open spec fn backup_outcome(r: BackupReport) -> Seq<char> {
    if !r.finished {
        "\nStarted, and not waited for. `pgpod backups` lists it once it is complete.\n"@
    } else {
        finished_outcome(r)
    }
}

/// What came of a backup that was seen to its end.
pub open spec fn finished_outcome(r: BackupReport) -> Seq<char> {
    match r.label {
        None =>
            "\nThe job finished but the repository shows no new backup. Check `pgpod backups`.\n"@,
        Some(label) => "\n  label:        "@ + label@ + "\n"@ + (match r.backup_type {
            Some(k) => "  type:         "@ + k@ + "\n"@,
            None => ""@,
        }) + (match r.size_bytes {
            Some(n) => "  database:     "@ + decimal(n as nat) + " bytes\n"@,
            None => ""@,
        }) + "\nComplete — pgbackrest recorded it, so it is restorable.\n"@,
    }
}

pub open spec fn backup_text(r: BackupReport) -> Seq<char> {
    "backup of cluster '"@ + r.cluster@ + "'\n"@ + concatenated(
        texts(r.destinations@).map_values(|d: Seq<char>| "  destination:  "@ + d + "\n"@),
    ) + backup_outcome(r)
}

/// A line for each of some strings: a head, the string, a tail.
pub fn wrapped(v: &Vec<String>, head: &str, tail: &str) -> (r: Vec<String>)
    ensures
        texts(r@) == texts(v@).map_values(|s: Seq<char>| head@ + s + tail@),
{
    let mut parts: Vec<String> = Vec::new();
    let ghost want = texts(v@).map_values(|s: Seq<char>| head@ + s + tail@);
    let mut k: usize = 0;
    assert(texts(parts@) =~= want.take(0));
    while k < v.len()
        invariant
            k <= v.len(),
            want == texts(v@).map_values(|s: Seq<char>| head@ + s + tail@),
            texts(parts@) == want.take(k as int),
        decreases v.len() - k,
    {
        let mut l = head.to_owned();
        l.append(v[k].as_str());
        l.append(tail);
        push_text(&mut parts, l);
        assert(texts(parts@) =~= want.take(k + 1));
        k = k + 1;
    }
    assert(want.take(want.len() as int) =~= want);
    parts
}

impl BackupReport {
    fn outcome(&self) -> (r: String)
        ensures
            r@ == backup_outcome(*self),
    {
        if !self.finished {
            return "\nStarted, and not waited for. `pgpod backups` lists it once it is complete.\n".to_owned();
        }
        match &self.label {
            None =>
                "\nThe job finished but the repository shows no new backup. Check `pgpod backups`.\n".to_owned(),
            Some(label) => {
                let mut s = "\n  label:        ".to_owned();
                s.append(label.as_str());
                s.append("\n");
                let mut kind = "".to_owned();
                if let Some(k) = &self.backup_type {
                    kind = "  type:         ".to_owned();
                    kind.append(k.as_str());
                    kind.append("\n");
                }
                s.append(kind.as_str());
                let mut size = "".to_owned();
                if let Some(n) = self.size_bytes {
                    size = "  database:     ".to_owned();
                    append_decimal(&mut size, n);
                    size.append(" bytes\n");
                }
                s.append(size.as_str());
                s.append("\nComplete — pgbackrest recorded it, so it is restorable.\n");
                s
            },
        }
    }

    /// The report for people.
    pub fn to_text(&self) -> (r: String)
        ensures
            r@ == backup_text(*self),
    {
        let mut s = "backup of cluster '".to_owned();
        s.append(self.cluster.as_str());
        s.append("'\n");
        append_all(&mut s, &wrapped(&self.destinations, "  destination:  ", "\n"));
        s.append(self.outcome().as_str());
        s
    }
}

/// The backups of a cluster.
pub struct BackupList {
    pub cluster: String,
    pub backups: Vec<BackupSummary>,
}

/// A backup, for showing.
pub struct BackupSummary {
    pub label: String,
    pub backup_type: String,
    pub started_at: String,
    pub ended_at: String,
    pub size_bytes: u64,
    pub wal_start: Option<String>,
    pub wal_stop: Option<String>,
}

/// A backup, for showing, given when it started and ended.
pub open spec fn shows_backup(b: Backup, started: Moment, ended: Moment, s: BackupSummary) -> bool {
    &&& s.label@ == b.label@
    &&& s.backup_type@ == type_text(b.backup_type)
    &&& s.started_at@ == formatted(started.secs, started.nanos, SHOWN@)
    &&& s.ended_at@ == formatted(ended.secs, ended.nanos, SHOWN@)
    &&& s.size_bytes == b.bytes()
    &&& opt_text(s.wal_start) == match b.archive {
        Some(a) => opt_text(a.start),
        None => None,
    }
    &&& opt_text(s.wal_stop) == match b.archive {
        Some(a) => opt_text(a.stop),
        None => None,
    }
}

/// A backup, for showing, given when it started and ended.
pub fn summarise_backup(b: &Backup, started: Moment, ended: Moment) -> (s: BackupSummary)
    requires
        representable(started),
        representable(ended),
    ensures
        shows_backup(*b, started, ended, s),
{
    let (wal_start, wal_stop) = match &b.archive {
        Some(a) => (clone_opt(&a.start), clone_opt(&a.stop)),
        None => (None, None),
    };
    BackupSummary {
        label: b.label.clone(),
        backup_type: b.backup_type.as_str().to_owned(),
        started_at: format_utc(started, SHOWN),
        ended_at: format_utc(ended, SHOWN),
        size_bytes: b.size_bytes(),
        wal_start,
        wal_stop,
    }
}

/// The instants a backup is shown with: its own, wherever the calendar
/// reaches.
pub open spec fn shown_at(b: Backup, started: Moment, ended: Moment) -> bool {
    &&& crate::backup::info::in_calendar(b.timestamp.start) ==> started == (Moment {
        secs: b.timestamp.start,
        nanos: 0,
    })
    &&& crate::backup::info::in_calendar(b.timestamp.stop) ==> ended == (Moment {
        secs: b.timestamp.stop,
        nanos: 0,
    })
}

/// A backup is shown with its own times.
pub open spec fn is_shown(b: Backup, s: BackupSummary) -> bool {
    exists|started: Moment, ended: Moment| #[trigger]
        shown_at(b, started, ended) && shows_backup(b, started, ended, s)
}

/// The backups of a cluster, for showing.
pub fn backup_list(cluster: &str, backups: &Vec<Backup>) -> (r: BackupList)
    ensures
        r.cluster@ == cluster@,
        r.backups.len() == backups.len(),
        forall|i: int| 0 <= i < backups.len() ==> is_shown(backups@[i], #[trigger] r.backups@[i]),
{
    let mut out: Vec<BackupSummary> = Vec::new();
    let mut i: usize = 0;
    while i < backups.len()
        invariant
            i <= backups.len(),
            out.len() == i,
            forall|k: int| 0 <= k < i ==> is_shown(backups@[k], #[trigger] out@[k]),
        decreases backups.len() - i,
    {
        let b = &backups[i];
        let started = b.started_at();
        let ended = b.ended_at();
        let s = summarise_backup(b, started, ended);
        assert(shown_at(*b, started, ended));
        out.push(s);
        i = i + 1;
    }
    BackupList { cluster: cluster.to_owned(), backups: out }
}

pub open spec fn backup_row(b: BackupSummary) -> Seq<char> {
    "  "@ + padded_right(b.label@, 34) + "  "@ + padded_right(b.backup_type@, 5) + "  "@
        + padded_left(decimal(b.size_bytes as nat), 12) + " bytes  ended "@ + b.ended_at@ + "\n"@
}

pub open spec fn backup_list_text(l: BackupList) -> Seq<char> {
    if l.backups@.len() == 0 {
        "cluster '"@ + l.cluster@ + "' has no backups.\n\nTake one with:  pgpod backup "@
            + l.cluster@ + "\n"@
    } else {
        "backups of cluster '"@ + l.cluster@ + "':\n\n"@ + concatenated(
            l.backups@.map_values(|b: BackupSummary| backup_row(b)),
        ) + "\nRestorable from "@ + l.backups@[0].ended_at@ + " onwards (newest backup ended "@
            + l.backups@.last().ended_at@ + ").\n"@
    }
}

impl BackupList {
    /// The list for people.
    pub fn to_text(&self) -> (r: String)
        ensures
            r@ == backup_list_text(*self),
    {
        let n: usize = self.backups.len();
        if n == 0 {
            let mut s = "cluster '".to_owned();
            s.append(self.cluster.as_str());
            s.append("' has no backups.\n\nTake one with:  pgpod backup ");
            s.append(self.cluster.as_str());
            s.append("\n");
            return s;
        }
        let mut parts: Vec<String> = Vec::new();
        let ghost want = self.backups@.map_values(|b: BackupSummary| backup_row(b));
        let mut k: usize = 0;
        assert(texts(parts@) =~= want.take(0));
        while k < n
            invariant
                k <= n,
                n == self.backups.len(),
                want == self.backups@.map_values(|b: BackupSummary| backup_row(b)),
                texts(parts@) == want.take(k as int),
            decreases n - k,
        {
            let b = &self.backups[k];
            let mut l = "  ".to_owned();
            append_left(&mut l, b.label.as_str(), 34);
            l.append("  ");
            append_left(&mut l, b.backup_type.as_str(), 5);
            l.append("  ");
            append_right(&mut l, decimal_of(b.size_bytes).as_str(), 12);
            l.append(" bytes  ended ");
            l.append(b.ended_at.as_str());
            l.append("\n");
            push_text(&mut parts, l);
            assert(texts(parts@) =~= want.take(k + 1));
            k = k + 1;
        }
        assert(want.take(want.len() as int) =~= want);
        let mut s = "backups of cluster '".to_owned();
        s.append(self.cluster.as_str());
        s.append("':\n\n");
        append_all(&mut s, &parts);
        s.append("\nRestorable from ");
        s.append(self.backups[0].ended_at.as_str());
        s.append(" onwards (newest backup ended ");
        s.append(self.backups[n - 1].ended_at.as_str());
        s.append(").\n");
        s
    }
}

pub open spec fn restore_text(r: RestoreReport) -> Seq<char> {
    "restored '"@ + r.source_cluster@ + "' into cluster '"@ + r.target_cluster@
        + "'\n  from backup:  "@ + r.backup_label@ + "\n"@ + (match r.target_time {
        Some(t) => "  target time:  "@ + t@ + "\n"@,
        None => "  target time:  (replay everything available)\n"@,
    }) + concatenated(r.instances@.map_values(|i: InstanceSummary| summary_lines("\n"@, i)))
        + "\nConnect with:  pgpod psql "@ + r.target_cluster@ + "\n"@
}

impl RestoreReport {
    /// The report for people.
    pub fn to_text(&self) -> (r: String)
        ensures
            r@ == restore_text(*self),
    {
        let mut s = "restored '".to_owned();
        s.append(self.source_cluster.as_str());
        s.append("' into cluster '");
        s.append(self.target_cluster.as_str());
        s.append("'\n  from backup:  ");
        s.append(self.backup_label.as_str());
        s.append("\n");
        let mut t = "  target time:  (replay everything available)\n".to_owned();
        if let Some(at) = &self.target_time {
            t = "  target time:  ".to_owned();
            t.append(at.as_str());
            t.append("\n");
        }
        s.append(t.as_str());
        append_all(&mut s, &all_summary_lines(&self.instances, "\n"));
        s.append("\nConnect with:  pgpod psql ");
        s.append(self.target_cluster.as_str());
        s.append("\n");
        s
    }
}

/// Reads the instant a restore is asked for.
pub fn parse_target(raw: &str) -> (r: Result<Moment, String>)
    ensures
        match r {
            Ok(m) => rfc3339_read(raw@) == Some((m.secs, m.nanos)) && representable(m),
            Err(e) => rfc3339_read(raw@) is None && e@ == debug_form(raw@)
                + " is not an RFC 3339 timestamp — try 2026-09-04T10:00:00Z"@,
        },
{
    match parse_rfc3339(raw) {
        Some(m) => Ok(m),
        None => {
            let mut e = debug_quoted(raw);
            e.append(" is not an RFC 3339 timestamp — try 2026-09-04T10:00:00Z");
            Err(e)
        },
    }
}

// ---- status ----------------------------------------------------------

/// Whether a container runs.
pub open spec fn state_word(running: bool) -> Seq<char> {
    if running {
        "running"@
    } else {
        "stopped"@
    }
}

fn state_word_of(running: bool) -> (r: &'static str)
    ensures
        r@ == state_word(running),
{
    if running {
        "running"
    } else {
        "stopped"
    }
}

pub const NOT_ANSWERING: &'static str =
    "               (container is up but postgres is not answering yet)\n";

pub open spec fn instance_row(i: InstanceStatus) -> Seq<char> {
    "  "@ + padded_right(i.instance@, 12) + " "@ + padded_right(i.role.name(), 10) + " "@
        + padded_right(state_word(i.running), 9) + " port "@ + padded_right(
        decimal(i.host_port as nat),
        6,
    ) + " "@ + i.connection_uri@ + "\n"@ + (if i.running && !i.accepting_connections {
        NOT_ANSWERING@
    } else {
        ""@
    })
}

fn instance_row_of(i: &InstanceStatus) -> (l: String)
    ensures
        l@ == instance_row(*i),
{
    let mut l = "  ".to_owned();
    append_left(&mut l, i.instance.as_str(), 12);
    l.append(" ");
    append_left(&mut l, i.role.as_str(), 10);
    l.append(" ");
    append_left(&mut l, state_word_of(i.running), 9);
    l.append(" port ");
    append_left(&mut l, decimal_of(i.host_port as u64).as_str(), 6);
    l.append(" ");
    l.append(i.connection_uri.as_str());
    l.append("\n");
    l.append(
        if i.running && !i.accepting_connections {
            NOT_ANSWERING
        } else {
            ""
        },
    );
    l
}

pub open spec fn pooler_rows(p: PoolerStatus) -> Seq<char> {
    "  "@ + padded_right(p.pooler@, 12) + " "@ + padded_right(state_word(p.running), 9)
        + " port "@ + decimal(p.host_port as nat) + "\n"@ + concatenated(
        texts(p.connection_uris@).map_values(|u: Seq<char>| "    "@ + u + "\n"@),
    )
}

fn pooler_rows_of(p: &PoolerStatus) -> (l: String)
    ensures
        l@ == pooler_rows(*p),
{
    let mut l = "  ".to_owned();
    append_left(&mut l, p.pooler.as_str(), 12);
    l.append(" ");
    append_left(&mut l, state_word_of(p.running), 9);
    l.append(" port ");
    append_decimal(&mut l, p.host_port as u64);
    l.append("\n");
    append_all(&mut l, &wrapped(&p.connection_uris, "    ", "\n"));
    l
}

/// The first pooler that runs.
pub open spec fn first_running(v: Seq<PoolerStatus>) -> Option<PoolerStatus>
    decreases v.len(),
{
    if v.len() == 0 {
        None
    } else if v[0].running {
        Some(v[0])
    } else {
        first_running(v.subrange(1, v.len() as int))
    }
}

/// How the database is reached through a pooler, where one runs.
pub open spec fn pooled_uri(v: Seq<PoolerStatus>) -> Option<Seq<char>> {
    match first_running(v) {
        Some(p) => if p.connection_uris@.len() > 0 {
            Some(texts(p.connection_uris@)[0])
        } else {
            None
        },
        None => None,
    }
}

fn pooled_uri_of(v: &Vec<PoolerStatus>) -> (r: Option<String>)
    ensures
        opt_text(r) == pooled_uri(v@),
{
    let mut i: usize = 0;
    assert(v@.subrange(0, v@.len() as int) =~= v@);
    while i < v.len()
        invariant
            i <= v.len(),
            first_running(v@) == first_running(v@.subrange(i as int, v@.len() as int)),
        decreases v.len() - i,
    {
        let ghost rest = v@.subrange(i as int, v@.len() as int);
        assert(rest.subrange(1, rest.len() as int) =~= v@.subrange(i + 1, v@.len() as int));
        if v[i].running {
            if v[i].connection_uris.len() > 0 {
                return Some(v[i].connection_uris[0].clone());
            }
            return None;
        }
        i = i + 1;
    }
    None
}

/// The newest events that are shown.
pub open spec fn shown_events(v: Seq<String>) -> Seq<Seq<char>> {
    if v.len() <= 5 {
        texts(v)
    } else {
        texts(v).take(5)
    }
}

pub open spec fn storage_line(size: Option<String>) -> Seq<char> {
    match size {
        Some(s) => "storage:    "@ + s@ + " (advisory — not enforced)\n"@,
        None => ""@,
    }
}

pub open spec fn poolers_part(v: Seq<PoolerStatus>) -> Seq<char> {
    if v.len() == 0 {
        ""@
    } else {
        "\npoolers:\n"@ + concatenated(v.map_values(|p: PoolerStatus| pooler_rows(p)))
    }
}

pub open spec fn primary_part(s: ClusterStatus) -> Seq<char> {
    match first_primary(s.instances@) {
        None => ""@,
        Some(i) => "\nprimary:    "@ + i.connection_uri@ + "\n"@ + (match pooled_uri(s.poolers@) {
            Some(u) => "pooled:     "@ + u + "\n"@,
            None => ""@,
        }),
    }
}

pub open spec fn events_part(v: Seq<String>) -> Seq<char> {
    if v.len() == 0 {
        ""@
    } else {
        "\nrecent events:\n"@ + concatenated(
            shown_events(v).map_values(|e: Seq<char>| "  "@ + e + "\n"@),
        )
    }
}

/// A cluster's status for people.
pub open spec fn status_text(s: ClusterStatus) -> Seq<char> {
    "cluster:    "@ + s.cluster@ + "\nphase:      "@ + s.phase@ + " (generation "@
        + signed_decimal(s.generation as int) + ")\nimage:      "@ + s.image@ + "\n"@
        + storage_line(s.storage_size) + "\ninstances:\n"@ + concatenated(
        s.instances@.map_values(|i: InstanceStatus| instance_row(i)),
    ) + poolers_part(s.poolers@) + primary_part(s) + events_part(s.recent_events@)
}

impl ClusterStatus {
    fn instances_text(&self) -> (r: Vec<String>)
        ensures
            texts(r@) == self.instances@.map_values(|i: InstanceStatus| instance_row(i)),
    {
        let mut parts: Vec<String> = Vec::new();
        let ghost want = self.instances@.map_values(|i: InstanceStatus| instance_row(i));
        let mut k: usize = 0;
        assert(texts(parts@) =~= want.take(0));
        while k < self.instances.len()
            invariant
                k <= self.instances.len(),
                want == self.instances@.map_values(|i: InstanceStatus| instance_row(i)),
                texts(parts@) == want.take(k as int),
            decreases self.instances.len() - k,
        {
            push_text(&mut parts, instance_row_of(&self.instances[k]));
            assert(texts(parts@) =~= want.take(k + 1));
            k = k + 1;
        }
        assert(want.take(want.len() as int) =~= want);
        parts
    }

    fn poolers_text(&self) -> (r: String)
        ensures
            r@ == poolers_part(self.poolers@),
    {
        if self.poolers.len() == 0 {
            return "".to_owned();
        }
        let mut parts: Vec<String> = Vec::new();
        let ghost want = self.poolers@.map_values(|p: PoolerStatus| pooler_rows(p));
        let mut k: usize = 0;
        assert(texts(parts@) =~= want.take(0));
        while k < self.poolers.len()
            invariant
                k <= self.poolers.len(),
                want == self.poolers@.map_values(|p: PoolerStatus| pooler_rows(p)),
                texts(parts@) == want.take(k as int),
            decreases self.poolers.len() - k,
        {
            push_text(&mut parts, pooler_rows_of(&self.poolers[k]));
            assert(texts(parts@) =~= want.take(k + 1));
            k = k + 1;
        }
        assert(want.take(want.len() as int) =~= want);
        let mut s = "\npoolers:\n".to_owned();
        append_all(&mut s, &parts);
        s
    }

    fn primary_text(&self) -> (r: String)
        ensures
            r@ == primary_part(*self),
    {
        match self.primary_uri() {
            None => "".to_owned(),
            Some(uri) => {
                let mut s = "\nprimary:    ".to_owned();
                s.append(uri);
                s.append("\n");
                let mut p = "".to_owned();
                if let Some(u) = pooled_uri_of(&self.poolers) {
                    p = "pooled:     ".to_owned();
                    p.append(u.as_str());
                    p.append("\n");
                }
                s.append(p.as_str());
                s
            },
        }
    }

    fn events_text(&self) -> (r: String)
        ensures
            r@ == events_part(self.recent_events@),
    {
        let n: usize = self.recent_events.len();
        if n == 0 {
            return "".to_owned();
        }
        let m: usize = if n <= 5 { n } else { 5 };
        let mut shown: Vec<String> = Vec::new();
        let ghost all = texts(self.recent_events@);
        let mut k: usize = 0;
        assert(texts(shown@) =~= all.take(0));
        while k < m
            invariant
                k <= m <= self.recent_events.len(),
                all == texts(self.recent_events@),
                texts(shown@) == all.take(k as int),
            decreases m - k,
        {
            push_text(&mut shown, self.recent_events[k].clone());
            assert(texts(shown@) =~= all.take(k + 1));
            k = k + 1;
        }
        assert(all.take(all.len() as int) =~= all);
        assert(texts(shown@) == shown_events(self.recent_events@));
        let mut s = "\nrecent events:\n".to_owned();
        append_all(&mut s, &wrapped(&shown, "  ", "\n"));
        s
    }

    /// The status for people.
    pub fn to_text(&self) -> (r: String)
        ensures
            r@ == status_text(*self),
    {
        let mut s = "cluster:    ".to_owned();
        s.append(self.cluster.as_str());
        s.append("\nphase:      ");
        s.append(self.phase.as_str());
        s.append(" (generation ");
        s.append(signed_decimal_of(self.generation).as_str());
        s.append(")\nimage:      ");
        s.append(self.image.as_str());
        s.append("\n");
        let mut storage = "".to_owned();
        if let Some(size) = &self.storage_size {
            storage = "storage:    ".to_owned();
            storage.append(size.as_str());
            storage.append(" (advisory — not enforced)\n");
        }
        s.append(storage.as_str());
        s.append("\ninstances:\n");
        append_all(&mut s, &self.instances_text());
        s.append(self.poolers_text().as_str());
        s.append(self.primary_text().as_str());
        s.append(self.events_text().as_str());
        s
    }
}

/// Several clusters.
pub struct StatusList(pub Vec<ClusterStatus>);

/// How many instances run.
pub open spec fn running_count(v: Seq<InstanceStatus>) -> nat
    decreases v.len(),
{
    if v.len() == 0 {
        0
    } else {
        running_count(v.drop_last()) + if v.last().running {
            1nat
        } else {
            0nat
        }
    }
}

fn running_count_of(v: &Vec<InstanceStatus>) -> (r: usize)
    ensures
        r == running_count(v@),
{
    let mut n: usize = 0;
    let mut i: usize = 0;
    while i < v.len()
        invariant
            i <= v.len(),
            n <= i,
            n == running_count(v@.take(i as int)),
        decreases v.len() - i,
    {
        assert(v@.take(i + 1).drop_last() =~= v@.take(i as int));
        if v[i].running {
            n = n + 1;
        }
        i = i + 1;
    }
    assert(v@.take(i as int) =~= v@);
    n
}

pub open spec fn row(a: Seq<char>, b: Seq<char>, c: Seq<char>, d: Seq<char>) -> Seq<char> {
    padded_right(a, 16) + " "@ + padded_right(b, 10) + " "@ + padded_right(c, 10) + " "@ + d
        + "\n"@
}

fn row_of(a: &str, b: &str, c: &str, d: &str) -> (l: String)
    ensures
        l@ == row(a@, b@, c@, d@),
{
    let mut l = String::new();
    append_left(&mut l, a, 16);
    assert(l@ =~= padded_right(a@, 16));
    l.append(" ");
    append_left(&mut l, b, 10);
    l.append(" ");
    append_left(&mut l, c, 10);
    l.append(" ");
    l.append(d);
    l.append("\n");
    l
}

pub open spec fn cluster_row(c: ClusterStatus) -> Seq<char> {
    row(
        c.cluster@,
        c.phase@,
        decimal(running_count(c.instances@)) + "/"@ + decimal(c.instances@.len()),
        match first_primary(c.instances@) {
            Some(i) => i.connection_uri@,
            None => "-"@,
        },
    )
}

pub open spec fn list_text(v: Seq<ClusterStatus>) -> Seq<char> {
    if v.len() == 0 {
        "no clusters — create one with `pgpod apply -f cluster.yaml`\n"@
    } else {
        row("CLUSTER"@, "PHASE"@, "INSTANCES"@, "PRIMARY"@) + concatenated(
            v.map_values(|c: ClusterStatus| cluster_row(c)),
        )
    }
}

impl StatusList {
    /// The list for people.
    pub fn to_text(&self) -> (r: String)
        ensures
            r@ == list_text(self.0@),
    {
        if self.0.len() == 0 {
            return "no clusters — create one with `pgpod apply -f cluster.yaml`\n".to_owned();
        }
        let mut parts: Vec<String> = Vec::new();
        let ghost want = self.0@.map_values(|c: ClusterStatus| cluster_row(c));
        let mut k: usize = 0;
        assert(texts(parts@) =~= want.take(0));
        while k < self.0.len()
            invariant
                k <= self.0.len(),
                want == self.0@.map_values(|c: ClusterStatus| cluster_row(c)),
                texts(parts@) == want.take(k as int),
            decreases self.0.len() - k,
        {
            let c = &self.0[k];
            let mut n = decimal_of(running_count_of(&c.instances) as u64);
            n.append("/");
            append_decimal(&mut n, c.instances.len() as u64);
            let primary = match c.primary_uri() {
                Some(u) => u,
                None => "-",
            };
            push_text(
                &mut parts,
                row_of(c.cluster.as_str(), c.phase.as_str(), n.as_str(), primary),
            );
            assert(texts(parts@) =~= want.take(k + 1));
            k = k + 1;
        }
        assert(want.take(want.len() as int) =~= want);
        let mut s = row_of("CLUSTER", "PHASE", "INSTANCES", "PRIMARY");
        append_all(&mut s, &parts);
        s
    }
}

/// One cluster or all of them.
pub enum StatusOutput {
    One(Box<ClusterStatus>),
    Many(StatusList),
}

impl StatusOutput {
    /// The output for people.
    pub fn to_text(&self) -> (r: String)
        ensures
            r@ == (match *self {
                StatusOutput::One(c) => status_text(*c),
                StatusOutput::Many(l) => list_text(l.0@),
            }),
    {
        match self {
            StatusOutput::One(c) => c.to_text(),
            StatusOutput::Many(l) => l.to_text(),
        }
    }
}

// ---- delete ----------------------------------------------------------

pub const DATA_KEPT: &'static str =
    "\nData was kept. `pgpod apply` with the same manifest reuses it;\n\
                 `pgpod delete --purge` destroys it.\n";

pub const STILL_FRONTED: &'static str =
    "\n\
                 Those poolers now point at an instance that is not running, so \
                 clients\nthrough them will fail until `pgpod apply` brings it \
                 back.\n";

pub open spec fn delete_text(r: DeleteReport) -> Seq<char> {
    "cluster '"@ + r.cluster@ + "' deleted\n"@ + concatenated(
        texts(r.containers_removed@).map_values(
            |c: Seq<char>| "  removed container "@ + c + "\n"@,
        ),
    ) + concatenated(
        texts(r.volumes_removed@).map_values(|v: Seq<char>| "  DESTROYED volume "@ + v + "\n"@),
    ) + concatenated(
        texts(r.volumes_retained@).map_values(
            |v: Seq<char>| "  kept volume "@ + v + " (data intact)\n"@,
        ),
    ) + (if r.volumes_retained@.len() == 0 {
        ""@
    } else {
        DATA_KEPT@
    }) + (if r.poolers@.len() == 0 {
        ""@
    } else {
        "\nStill fronted by: "@ + joined(texts(r.poolers@), ", "@) + STILL_FRONTED@
    })
}

impl DeleteReport {
    /// The report for people.
    pub fn to_text(&self) -> (r: String)
        ensures
            r@ == delete_text(*self),
    {
        let mut s = "cluster '".to_owned();
        s.append(self.cluster.as_str());
        s.append("' deleted\n");
        append_all(&mut s, &wrapped(&self.containers_removed, "  removed container ", "\n"));
        append_all(&mut s, &wrapped(&self.volumes_removed, "  DESTROYED volume ", "\n"));
        append_all(
            &mut s,
            &wrapped(&self.volumes_retained, "  kept volume ", " (data intact)\n"),
        );
        s.append(
            if self.volumes_retained.len() == 0 {
                ""
            } else {
                DATA_KEPT
            },
        );
        let mut f = "".to_owned();
        if self.poolers.len() > 0 {
            f = "\nStill fronted by: ".to_owned();
            f.append(join(&self.poolers, ", ").as_str());
            f.append(STILL_FRONTED);
        }
        s.append(f.as_str());
        s
    }
}

// ---- poolers ---------------------------------------------------------

/// All poolers.
pub struct PoolerList {
    pub poolers: Vec<PoolerSummary>,
}

/// A pooler, for showing.
pub struct PoolerSummary {
    pub pooler: String,
    pub container: String,
    pub host_port: u16,
    pub phase: String,
    pub pools: Vec<String>,
}

/// A pool and where it leads.
pub fn pool_route(name: &str, cluster: &str, database: &str) -> (r: String)
    ensures
        r@ == name@ + " -> "@ + cluster@ + "/"@ + database@,
{
    let mut s = name.to_owned();
    s.append(" -> ");
    s.append(cluster);
    s.append("/");
    s.append(database);
    s
}

pub open spec fn pooler_summary_lines(p: PoolerSummary) -> Seq<char> {
    p.pooler@ + "  "@ + p.phase@ + "  port "@ + decimal(p.host_port as nat) + "\n"@ + concatenated(
        texts(p.pools@).map_values(|l: Seq<char>| "  "@ + l + "\n"@),
    )
}

pub open spec fn pooler_list_text(v: Seq<PoolerSummary>) -> Seq<char> {
    if v.len() == 0 {
        "no poolers\n"@
    } else {
        concatenated(v.map_values(|p: PoolerSummary| pooler_summary_lines(p)))
    }
}

impl PoolerList {
    /// The list for people.
    pub fn to_text(&self) -> (r: String)
        ensures
            r@ == pooler_list_text(self.poolers@),
    {
        if self.poolers.len() == 0 {
            return "no poolers\n".to_owned();
        }
        let mut parts: Vec<String> = Vec::new();
        let ghost want = self.poolers@.map_values(|p: PoolerSummary| pooler_summary_lines(p));
        let mut k: usize = 0;
        assert(texts(parts@) =~= want.take(0));
        while k < self.poolers.len()
            invariant
                k <= self.poolers.len(),
                want == self.poolers@.map_values(|p: PoolerSummary| pooler_summary_lines(p)),
                texts(parts@) == want.take(k as int),
            decreases self.poolers.len() - k,
        {
            let p = &self.poolers[k];
            let mut l = p.pooler.clone();
            l.append("  ");
            l.append(p.phase.as_str());
            l.append("  port ");
            append_decimal(&mut l, p.host_port as u64);
            l.append("\n");
            append_all(&mut l, &wrapped(&p.pools, "  ", "\n"));
            push_text(&mut parts, l);
            assert(texts(parts@) =~= want.take(k + 1));
            k = k + 1;
        }
        assert(want.take(want.len() as int) =~= want);
        let mut s = String::new();
        append_all(&mut s, &parts);
        assert(s@ =~= pooler_list_text(self.poolers@));
        s
    }
}

/// A pool as the pooler itself sees it.
pub struct PoolStatus {
    pub database: String,
    pub user: String,
    pub paused: bool,
    pub clients_waiting: u64,
    pub servers_active: u64,
    pub servers_idle: u64,
}

/// The pools of a pooler.
pub struct PoolerPools {
    pub pools: Vec<PoolStatus>,
}

pub open spec fn pool_row(
    a: Seq<char>,
    b: Seq<char>,
    c: Seq<char>,
    d: Seq<char>,
    e: Seq<char>,
    f: Seq<char>,
) -> Seq<char> {
    padded_right(a, 20) + " "@ + padded_right(b, 12) + " "@ + padded_left(c, 7) + " "@
        + padded_left(d, 8) + " "@ + padded_left(e, 8) + " "@ + padded_left(f, 8) + "\n"@
}

fn pool_row_of(a: &str, b: &str, c: &str, d: &str, e: &str, f: &str) -> (l: String)
    ensures
        l@ == pool_row(a@, b@, c@, d@, e@, f@),
{
    let mut l = String::new();
    append_left(&mut l, a, 20);
    assert(l@ =~= padded_right(a@, 20));
    l.append(" ");
    append_left(&mut l, b, 12);
    l.append(" ");
    append_right(&mut l, c, 7);
    l.append(" ");
    append_right(&mut l, d, 8);
    l.append(" ");
    append_right(&mut l, e, 8);
    l.append(" ");
    append_right(&mut l, f, 8);
    l.append("\n");
    l
}

pub open spec fn bool_word(b: bool) -> Seq<char> {
    if b {
        "true"@
    } else {
        "false"@
    }
}

pub open spec fn pool_status_row(p: PoolStatus) -> Seq<char> {
    pool_row(
        p.database@,
        p.user@,
        bool_word(p.paused),
        decimal(p.clients_waiting as nat),
        decimal(p.servers_active as nat),
        decimal(p.servers_idle as nat),
    )
}

pub const NO_POOLS: &'static str =
    "no pools are instantiated yet — pg_doorman creates one on \
                    the first client connection\n";

pub open spec fn pools_text(v: Seq<PoolStatus>) -> Seq<char> {
    if v.len() == 0 {
        NO_POOLS@
    } else {
        pool_row("pool"@, "user"@, "paused"@, "waiting"@, "active"@, "idle"@) + concatenated(
            v.map_values(|p: PoolStatus| pool_status_row(p)),
        )
    }
}

impl PoolerPools {
    /// The pools for people.
    pub fn to_text(&self) -> (r: String)
        ensures
            r@ == pools_text(self.pools@),
    {
        if self.pools.len() == 0 {
            return NO_POOLS.to_owned();
        }
        let mut parts: Vec<String> = Vec::new();
        let ghost want = self.pools@.map_values(|p: PoolStatus| pool_status_row(p));
        let mut k: usize = 0;
        assert(texts(parts@) =~= want.take(0));
        while k < self.pools.len()
            invariant
                k <= self.pools.len(),
                want == self.pools@.map_values(|p: PoolStatus| pool_status_row(p)),
                texts(parts@) == want.take(k as int),
            decreases self.pools.len() - k,
        {
            let p = &self.pools[k];
            let paused = if p.paused {
                "true"
            } else {
                "false"
            };
            push_text(
                &mut parts,
                pool_row_of(
                    p.database.as_str(),
                    p.user.as_str(),
                    paused,
                    decimal_of(p.clients_waiting).as_str(),
                    decimal_of(p.servers_active).as_str(),
                    decimal_of(p.servers_idle).as_str(),
                ),
            );
            assert(texts(parts@) =~= want.take(k + 1));
            k = k + 1;
        }
        assert(want.take(want.len() as int) =~= want);
        let mut s = pool_row_of("pool", "user", "paused", "waiting", "active", "idle");
        append_all(&mut s, &parts);
        s
    }
}

/// What was done to a pooler's pools.
pub struct PoolerAction {
    pub pooler: String,
    pub cluster: String,
    pub action: String,
}

impl PoolerAction {
    /// The outcome for people.
    pub fn to_text(&self) -> (r: String)
        ensures
            r@ == self.action@ + " pools for cluster '"@ + self.cluster@ + "' on pooler '"@
                + self.pooler@ + "'\n"@,
    {
        let mut s = self.action.clone();
        s.append(" pools for cluster '");
        s.append(self.cluster.as_str());
        s.append("' on pooler '");
        s.append(self.pooler.as_str());
        s.append("'\n");
        s
    }
}

/// A deleted pooler.
pub struct PoolerDeleted {
    pub pooler: String,
}

pub const NOTHING_DURABLE: &'static str =
    "' deleted\n\nNothing durable was destroyed: a pooler has \
             no volume and re-renders its config on every start.\n";

impl PoolerDeleted {
    /// The outcome for people.
    pub fn to_text(&self) -> (r: String)
        ensures
            r@ == "pooler '"@ + self.pooler@ + NOTHING_DURABLE@,
    {
        let mut s = "pooler '".to_owned();
        s.append(self.pooler.as_str());
        s.append(NOTHING_DURABLE);
        s
    }
}

// ---- looking inside --------------------------------------------------

/// What a command in an instance brought.
pub struct ExecResult {
    pub exit_code: Option<i32>,
    pub stdout: String,
    pub stderr: String,
}

impl ExecResult {
    /// The command's own output, errors last.
    pub fn to_text(&self) -> (r: String)
        ensures
            r@ == self.stdout@ + self.stderr@,
    {
        let mut s = self.stdout.clone();
        s.append(self.stderr.as_str());
        s
    }
}

/// Refuses to run nothing.
pub fn refuse_exec(instance: &str, argv: &Vec<String>) -> (r: Option<String>)
    ensures
        opt_text(r) == (if argv.len() == 0 {
            Some(
                "nothing to run — try: pgpod exec "@ + instance@ + " -- psql -U postgres"@,
            )
        } else {
            None
        }),
{
    if argv.len() > 0 {
        return None;
    }
    let mut m = "nothing to run — try: pgpod exec ".to_owned();
    m.append(instance);
    m.append(" -- psql -U postgres");
    Some(m)
}

/// An instance's logs.
pub struct Logs {
    pub instance: String,
    pub logs: String,
}

impl Logs {
    /// The logs themselves.
    pub fn to_text(&self) -> (r: String)
        ensures
            r@ == self.logs@,
    {
        self.logs.clone()
    }
}

/// Where an instance's volume is.
pub struct VolumePath {
    pub instance: String,
    pub volume: String,
    pub mountpoint: String,
}

pub const IN_NAMESPACE: &'static str =
    "\n\n\
             PGDATA lives inside podman's user namespace, so it is not readable\n\
             directly. To look at it:\n\n  \
             podman unshare ls -la ";

pub const NEVER_COPY: &'static str =
    "/pgdata\n\n\
             Backups are the supported way to get data out — never copy a live\n\
             PGDATA out from under a running postgres.\n";

impl VolumePath {
    /// The place for people, and how to look at it.
    pub fn to_text(&self) -> (r: String)
        ensures
            r@ == "volume:     "@ + self.volume@ + "\nmountpoint: "@ + self.mountpoint@
                + IN_NAMESPACE@ + self.mountpoint@ + NEVER_COPY@,
    {
        let mut s = "volume:     ".to_owned();
        s.append(self.volume.as_str());
        s.append("\nmountpoint: ");
        s.append(self.mountpoint.as_str());
        s.append(IN_NAMESPACE);
        s.append(self.mountpoint.as_str());
        s.append(NEVER_COPY);
        s
    }
}

/// What is said of a volume that does not exist.
pub fn no_volume(name: &str, instance: &str) -> (r: String)
    ensures
        r@ == "no volume "@ + name@ + " — has "@ + instance@ + " been created?"@,
{
    let mut s = "no volume ".to_owned();
    s.append(name);
    s.append(" — has ");
    s.append(instance);
    s.append(" been created?");
    s
}

/// The call that opens a session in a cluster's first instance.
pub open spec fn psql_args(socket: Seq<char>, container: Seq<char>, database: Seq<char>) -> Seq<
    Seq<char>,
> {
    seq![
        "--url"@,
        "unix://"@ + socket,
        "exec"@,
        "-it"@,
        container,
        "psql"@,
        "-h"@,
        SOCKET_DIR@,
        "-U"@,
        "postgres"@,
        "-d"@,
        database,
    ]
}

/// The call that opens a session in a cluster's first instance, in database
/// `postgres` unless another is asked for.
pub fn psql(socket: &str, container: &str, database: Option<&str>) -> (r: Vec<String>)
    ensures
        texts(r@) == psql_args(
            socket@,
            container@,
            match opt_str(database) {
                Some(d) => d,
                None => "postgres"@,
            },
        ),
{
    let mut v: Vec<String> = Vec::new();
    push_text(&mut v, "--url".to_owned());
    let mut u = "unix://".to_owned();
    u.append(socket);
    push_text(&mut v, u);
    push_text(&mut v, "exec".to_owned());
    push_text(&mut v, "-it".to_owned());
    push_text(&mut v, container.to_owned());
    push_text(&mut v, "psql".to_owned());
    push_text(&mut v, "-h".to_owned());
    push_text(&mut v, SOCKET_DIR.to_owned());
    push_text(&mut v, "-U".to_owned());
    push_text(&mut v, "postgres".to_owned());
    push_text(&mut v, "-d".to_owned());
    let d = match database {
        Some(d) => d,
        None => "postgres",
    };
    push_text(&mut v, d.to_owned());
    assert(texts(v@) =~= psql_args(socket@, container@, d@));
    v
}

// ---- upgrades --------------------------------------------------------

/// A line of an upgrade's report, where there is anything to say.
pub open spec fn noted_line(head: Seq<char>, what: Seq<char>) -> Seq<char> {
    head + what + "\n"@
}

/// What an upgrade did.
pub open spec fn upgrade_text(r: UpgradeReport) -> Seq<char> {
    "cluster '"@ + r.cluster@ + "' "@ + (if r.checked_only {
        "can be upgraded"@
    } else {
        "upgraded"@
    }) + ": PostgreSQL "@ + r.from_version@ + " -> "@ + r.to_version@ + " ("@ + r.method@
        + " mode, "@ + decimal(r.held_ms as nat) + "ms held)\n"@ + (if r.old_data_dir@.len() > 0 {
        noted_line("  old data:  "@, r.old_data_dir@)
    } else {
        Seq::empty()
    }) + (match r.backup_label {
        Some(label) => noted_line("  backup:    "@, label@),
        None => Seq::empty(),
    }) + concatenated(
        texts(r.warnings@).map_values(|w: Seq<char>| "  warning:   "@ + w + "\n"@),
    )
}

fn noted_line_of(head: &str, what: &str) -> (r: String)
    ensures
        r@ == noted_line(head@, what@),
{
    let mut s = head.to_owned();
    s.append(what);
    s.append("\n");
    s
}

impl UpgradeReport {
    /// The report for people.
    pub fn to_text(&self) -> (r: String)
        ensures
            r@ == upgrade_text(*self),
    {
        let mut s = "cluster '".to_owned();
        s.append(self.cluster.as_str());
        s.append("' ");
        s.append(
            if self.checked_only {
                "can be upgraded"
            } else {
                "upgraded"
            },
        );
        s.append(": PostgreSQL ");
        s.append(self.from_version.as_str());
        s.append(" -> ");
        s.append(self.to_version.as_str());
        s.append(" (");
        s.append(self.method.as_str());
        s.append(" mode, ");
        append_wide_decimal(&mut s, self.held_ms);
        s.append("ms held)\n");
        let mut old = String::new();
        assert(old@ =~= Seq::empty());
        if self.old_data_dir.as_str().unicode_len() > 0 {
            old = noted_line_of("  old data:  ", self.old_data_dir.as_str());
        }
        s.append(old.as_str());
        let mut backup = String::new();
        assert(backup@ =~= Seq::empty());
        if let Some(label) = &self.backup_label {
            backup = noted_line_of("  backup:    ", label.as_str());
        }
        s.append(backup.as_str());
        append_all(&mut s, &wrapped(&self.warnings, "  warning:   ", "\n"));
        s
    }
}

// ---- boot recovery ---------------------------------------------------

/// What was done about one container.
pub open spec fn unit_line(u: UnitResume) -> Seq<char> {
    "  "@ + u.name@ + "  "@ + u.action.word() + (match u.detail {
        Some(d) => "  "@ + d@,
        None => Seq::empty(),
    }) + "\n"@
}

/// What was done about a cluster.
pub open spec fn cluster_lines(c: ClusterResume) -> Seq<char> {
    c.cluster@ + "  "@ + c.phase@ + "\n"@ + (match c.skipped {
        Some(why) => "  skipped: "@ + why@ + "\n"@,
        None => Seq::empty(),
    }) + concatenated(c.instances@.map_values(|u: UnitResume| unit_line(u)))
}

/// What a boot recovery did, and how often. A dry run adds what it would have
/// started.
pub open spec fn resume_text(r: ResumeReport) -> Seq<char> {
    concatenated(r.clusters@.map_values(|c: ClusterResume| cluster_lines(c))) + concatenated(
        r.poolers@.map_values(|u: UnitResume| unit_line(u)),
    ) + "\n"@ + r.counted() + (if r.dry_run {
        ", "@ + decimal(r.would_starts()) + " would start"@
    } else {
        Seq::empty()
    }) + "\n"@
}

fn unit_lines_of(v: &Vec<UnitResume>) -> (r: Vec<String>)
    ensures
        texts(r@) == v@.map_values(|u: UnitResume| unit_line(u)),
{
    let mut parts: Vec<String> = Vec::new();
    let ghost want = v@.map_values(|u: UnitResume| unit_line(u));
    let mut k: usize = 0;
    assert(texts(parts@) =~= want.take(0));
    while k < v.len()
        invariant
            k <= v.len(),
            want == v@.map_values(|u: UnitResume| unit_line(u)),
            texts(parts@) == want.take(k as int),
        decreases v.len() - k,
    {
        let u = &v[k];
        let mut l = "  ".to_owned();
        l.append(u.name.as_str());
        l.append("  ");
        l.append(u.action.as_str());
        let mut detail = String::new();
        assert(detail@ =~= Seq::empty());
        if let Some(d) = &u.detail {
            detail = "  ".to_owned();
            detail.append(d.as_str());
        }
        l.append(detail.as_str());
        l.append("\n");
        assert(l@ == want[k as int]);
        push_text(&mut parts, l);
        assert(texts(parts@) =~= want.take(k + 1));
        k = k + 1;
    }
    assert(want.take(want.len() as int) =~= want);
    parts
}

fn cluster_lines_of(c: &ClusterResume) -> (r: String)
    ensures
        r@ == cluster_lines(*c),
{
    let mut s = c.cluster.clone();
    s.append("  ");
    s.append(c.phase.as_str());
    s.append("\n");
    let mut skipped = String::new();
    assert(skipped@ =~= Seq::empty());
    if let Some(why) = &c.skipped {
        skipped = "  skipped: ".to_owned();
        skipped.append(why.as_str());
        skipped.append("\n");
    }
    s.append(skipped.as_str());
    append_all(&mut s, &unit_lines_of(&c.instances));
    s
}

impl ResumeReport {
    /// The report for people.
    pub fn to_text(&self) -> (r: String)
        requires
            self.units().len() + self.clusters.len() <= usize::MAX,
        ensures
            r@ == resume_text(*self),
    {
        let mut parts: Vec<String> = Vec::new();
        let ghost want = self.clusters@.map_values(|c: ClusterResume| cluster_lines(c));
        let mut k: usize = 0;
        assert(texts(parts@) =~= want.take(0));
        while k < self.clusters.len()
            invariant
                k <= self.clusters.len(),
                want == self.clusters@.map_values(|c: ClusterResume| cluster_lines(c)),
                texts(parts@) == want.take(k as int),
            decreases self.clusters.len() - k,
        {
            push_text(&mut parts, cluster_lines_of(&self.clusters[k]));
            assert(texts(parts@) =~= want.take(k + 1));
            k = k + 1;
        }
        assert(want.take(want.len() as int) =~= want);
        let mut s = String::new();
        append_all(&mut s, &parts);
        assert(s@ =~= concatenated(want));
        append_all(&mut s, &unit_lines_of(&self.poolers));
        s.append("\n");
        let c = self.counts();
        s.append(c.to_text().as_str());
        let mut dry = String::new();
        assert(dry@ =~= Seq::empty());
        if self.dry_run {
            dry = ", ".to_owned();
            append_decimal(&mut dry, c.would_start as u64);
            dry.append(" would start");
        }
        s.append(dry.as_str());
        s.append("\n");
        s
    }
}

// ---- what each report tells ------------------------------------------

/// A report of an apply tells the cluster, whether it is new, and its
/// generation, before the instances.
pub proof fn an_apply_tells_what_came_of_it(r: ApplyReport)
    ensures
        ({
            let rest = concatenated(
                r.instances@.map_values(|i: InstanceSummary| summary_lines(""@, i)),
            ) + "\nConnect with:  pgpod psql "@ + r.cluster@ + "\n"@;
            &&& r.created ==> apply_text(r) == "cluster '"@ + r.cluster@ + "' "@ + "created"@
                + " (generation "@ + signed_decimal(r.generation as int) + ")\n"@ + rest
            &&& !r.created ==> apply_text(r) == "cluster '"@ + r.cluster@ + "' "@ + "converged"@
                + " (generation "@ + signed_decimal(r.generation as int) + ")\n"@ + rest
        }),
{
    let rest = concatenated(r.instances@.map_values(|i: InstanceSummary| summary_lines(""@, i)))
        + "\nConnect with:  pgpod psql "@ + r.cluster@ + "\n"@;
    let head = "cluster '"@ + r.cluster@ + "' "@ + verb(r.created) + " (generation "@
        + signed_decimal(r.generation as int) + ")\n"@;
    assert(apply_text(r) =~= head + rest);
}

/// An instance is told with its container, its volume and how to reach it.
pub proof fn an_instance_is_told_whole(lead: Seq<char>, i: InstanceSummary)
    ensures
        summary_lines(lead, i) == lead + ("  "@ + i.instance@ + "  container "@ + i.container@
            + "  volume "@ + i.volume@ + "\n    "@ + i.connection_uri@ + "\n"@),
{
    assert(summary_lines(lead, i) =~= lead + ("  "@ + i.instance@ + "  container "@ + i.container@
        + "  volume "@ + i.volume@ + "\n    "@ + i.connection_uri@ + "\n"@));
}

/// A pooler's report tells each pool with where it leads.
pub proof fn a_pooler_tells_where_its_pools_lead(r: PoolerReport, p: PoolSummary)
    ensures
        pool_lines(p) == ("  pool "@ + p.name@ + "  ->  cluster "@ + p.cluster@ + " database "@
            + p.database@) + ("\n    "@ + p.connection_uri@ + "\n"@),
        ({
            let rest = " (generation "@ + signed_decimal(r.generation as int) + ")\n  container "@
                + r.container@ + "\n"@ + concatenated(
                r.pools@.map_values(|p: PoolSummary| pool_lines(p)),
            ) + "\nApplications connect to the pool name, not the database name.\n"@;
            &&& r.created ==> pooler_text(r) == "pooler '"@ + r.pooler@ + "' "@ + "created"@ + rest
            &&& !r.created ==> pooler_text(r) == "pooler '"@ + r.pooler@ + "' "@ + "converged"@
                + rest
        }),
{
    assert(pool_lines(p) =~= ("  pool "@ + p.name@ + "  ->  cluster "@ + p.cluster@ + " database "@
        + p.database@) + ("\n    "@ + p.connection_uri@ + "\n"@));
    let rest = " (generation "@ + signed_decimal(r.generation as int) + ")\n  container "@
        + r.container@ + "\n"@ + concatenated(r.pools@.map_values(|p: PoolSummary| pool_lines(p)))
        + "\nApplications connect to the pool name, not the database name.\n"@;
    assert(pooler_text(r) =~= "pooler '"@ + r.pooler@ + "' "@ + verb(r.created) + rest);
}

/// A backup is only called complete where it was waited for and the
/// repository has it; and then its label is told, and its kind and size where
/// they are known.
pub proof fn when_a_backup_is_complete(r: BackupReport)
    ensures
        !r.finished ==> backup_outcome(r)
            == "\nStarted, and not waited for. `pgpod backups` lists it once it is complete.\n"@,
        r.finished && r.label is None ==> backup_outcome(r)
            == "\nThe job finished but the repository shows no new backup. Check `pgpod backups`.\n"@,
        r.finished ==> (r.label matches Some(label) ==> {
            let head = "\n  label:        "@ + label@ + "\n"@;
            let end = "\nComplete — pgbackrest recorded it, so it is restorable.\n"@;
            let kind: Seq<char> = match r.backup_type {
                Some(k) => "  type:         "@ + k@ + "\n"@,
                None => Seq::empty(),
            };
            let size: Seq<char> = match r.size_bytes {
                Some(n) => "  database:     "@ + decimal(n as nat) + " bytes\n"@,
                None => Seq::empty(),
            };
            backup_outcome(r) == head + kind + size + end
        }),
        backup_text(r) == "backup of cluster '"@ + r.cluster@ + "'\n"@ + concatenated(
            texts(r.destinations@).map_values(|d: Seq<char>| "  destination:  "@ + d + "\n"@),
        ) + backup_outcome(r),
{
    reveal_strlit("");
    assert(""@ =~= Seq::<char>::empty());
}

/// A cluster without backups is told how to take one; any other can be
/// restored from the end of its first backup on.
pub proof fn how_far_back_it_goes(l: BackupList)
    ensures
        l.backups@.len() == 0 ==> backup_list_text(l) == "cluster '"@ + l.cluster@
            + "' has no backups.\n\nTake one with:  pgpod backup "@ + l.cluster@ + "\n"@,
        l.backups@.len() > 0 ==> ({
            let first = l.backups@[0];
            let newest = l.backups@[l.backups@.len() - 1];
            backup_list_text(l) == "backups of cluster '"@ + l.cluster@ + "':\n\n"@ + concatenated(
                l.backups@.map_values(|b: BackupSummary| backup_row(b)),
            ) + "\nRestorable from "@ + first.ended_at@ + " onwards (newest backup ended "@
                + newest.ended_at@ + ").\n"@
        }),
{
}

/// A backup is shown with its own label, kind, times, size and WAL.
pub proof fn a_backup_is_shown_as_it_is(
    b: Backup,
    started: Moment,
    ended: Moment,
    s: BackupSummary,
)
    requires
        shows_backup(b, started, ended, s),
    ensures
        s.label@ == b.label@,
        s.backup_type@ == type_text(b.backup_type),
        s.started_at@ == formatted(started.secs, started.nanos, "%Y-%m-%d %H:%M:%SZ"@),
        s.ended_at@ == formatted(ended.secs, ended.nanos, "%Y-%m-%d %H:%M:%SZ"@),
        s.size_bytes == b.bytes(),
        b.archive matches Some(a) ==> opt_text(s.wal_start) == opt_text(a.start) && opt_text(
            s.wal_stop,
        ) == opt_text(a.stop),
        b.archive is None ==> s.wal_start is None && s.wal_stop is None,
        backup_row(s) == "  "@ + padded_right(s.label@, 34) + "  "@ + padded_right(
            s.backup_type@,
            5,
        ) + "  "@ + padded_left(decimal(s.size_bytes as nat), 12) + " bytes  ended "@ + s.ended_at@
            + "\n"@,
{
}

/// The times a backup is shown with are its own: it started at its start and
/// ended at its stop.
pub proof fn a_backup_is_shown_with_its_times(b: Backup, started: Moment, ended: Moment)
    requires
        shown_at(b, started, ended),
        -8_334_601_228_800 <= b.timestamp.start <= 8_210_266_876_799,
        -8_334_601_228_800 <= b.timestamp.stop <= 8_210_266_876_799,
    ensures
        started.secs == b.timestamp.start,
        started.nanos == 0,
        ended.secs == b.timestamp.stop,
        ended.nanos == 0,
{
}

/// A restore tells what was restored into what, from which backup and up to
/// when.
pub proof fn a_restore_tells_what_was_restored(r: RestoreReport)
    ensures
        ({
            let head = "restored '"@ + r.source_cluster@ + "' into cluster '"@ + r.target_cluster@
                + "'\n  from backup:  "@ + r.backup_label@ + "\n"@;
            let end = concatenated(
                r.instances@.map_values(|i: InstanceSummary| summary_lines("\n"@, i)),
            ) + "\nConnect with:  pgpod psql "@ + r.target_cluster@ + "\n"@;
            &&& r.target_time matches Some(t) ==> restore_text(r) == head + ("  target time:  "@
                + t@ + "\n"@) + end
            &&& r.target_time is None ==> restore_text(r) == head
                + "  target time:  (replay everything available)\n"@ + end
        }),
{
    let head = "restored '"@ + r.source_cluster@ + "' into cluster '"@ + r.target_cluster@
        + "'\n  from backup:  "@ + r.backup_label@ + "\n"@;
    let end = concatenated(r.instances@.map_values(|i: InstanceSummary| summary_lines("\n"@, i)))
        + "\nConnect with:  pgpod psql "@ + r.target_cluster@ + "\n"@;
    let mid: Seq<char> = match r.target_time {
        Some(t) => "  target time:  "@ + t@ + "\n"@,
        None => "  target time:  (replay everything available)\n"@,
    };
    assert(restore_text(r) =~= head + mid + end);
}

/// The first pooler that runs is the one that is pointed at, by its first
/// address.
pub proof fn the_first_pooler_that_runs(v: Seq<PoolerStatus>, i: int)
    requires
        0 <= i <= v.len(),
        forall|k: int| 0 <= k < i ==> !(#[trigger] v[k]).running,
        i < v.len() ==> v[i].running,
    ensures
        i < v.len() ==> first_running(v) == Some(v[i]),
        i == v.len() ==> first_running(v) is None && pooled_uri(v) is None,
        i < v.len() && v[i].connection_uris@.len() > 0 ==> pooled_uri(v) == Some(
            v[i].connection_uris@[0]@,
        ),
        i < v.len() && v[i].connection_uris@.len() == 0 ==> pooled_uri(v) is None,
    decreases v.len(),
{
    if i > 0 {
        let t = v.subrange(1, v.len() as int);
        assert(!v[0].running);
        assert forall|k: int| 0 <= k < i - 1 implies !(#[trigger] t[k]).running by {
            assert(t[k] == v[k + 1]);
        }
        the_first_pooler_that_runs(t, i - 1);
    }
}

/// The five newest events are shown, in their order.
pub proof fn the_newest_events(v: Seq<String>, i: int)
    ensures
        v.len() <= 5 ==> shown_events(v).len() == v.len(),
        v.len() > 5 ==> shown_events(v).len() == 5,
        0 <= i < v.len() && i < 5 ==> shown_events(v)[i] == v[i]@,
{
}

/// A status tells its parts in one order, and each only where there is
/// anything to tell.
pub proof fn what_a_status_tells(s: ClusterStatus)
    ensures
        status_text(s) == ("cluster:    "@ + s.cluster@ + "\nphase:      "@ + s.phase@
            + " (generation "@ + signed_decimal(s.generation as int) + ")\nimage:      "@ + s.image@
            + "\n"@) + storage_line(s.storage_size) + ("\ninstances:\n"@ + concatenated(
            s.instances@.map_values(|i: InstanceStatus| instance_row(i)),
        )) + poolers_part(s.poolers@) + primary_part(s) + events_part(s.recent_events@),
        s.storage_size is None ==> storage_line(s.storage_size) == ""@,
        s.storage_size matches Some(n) ==> storage_line(s.storage_size) == "storage:    "@ + n@
            + " (advisory — not enforced)\n"@,
        s.poolers@.len() == 0 ==> poolers_part(s.poolers@) == ""@,
        s.poolers@.len() > 0 ==> poolers_part(s.poolers@) == "\npoolers:\n"@ + concatenated(
            s.poolers@.map_values(|p: PoolerStatus| pooler_rows(p)),
        ),
        first_primary(s.instances@) is None ==> primary_part(s) == ""@,
        first_primary(s.instances@) matches Some(i) ==> {
            &&& pooled_uri(s.poolers@) is None ==> primary_part(s) == "\nprimary:    "@
                + i.connection_uri@ + "\n"@ + ""@
            &&& pooled_uri(s.poolers@) matches Some(u) ==> primary_part(s) == "\nprimary:    "@
                + i.connection_uri@ + "\n"@ + ("pooled:     "@ + u + "\n"@)
        },
        s.recent_events@.len() == 0 ==> events_part(s.recent_events@) == ""@,
        s.recent_events@.len() > 0 ==> events_part(s.recent_events@) == "\nrecent events:\n"@
            + concatenated(
            shown_events(s.recent_events@).map_values(|e: Seq<char>| "  "@ + e + "\n"@),
        ),
{
    let all = concatenated(s.instances@.map_values(|i: InstanceStatus| instance_row(i)));
    let head = "cluster:    "@ + s.cluster@ + "\nphase:      "@ + s.phase@ + " (generation "@
        + signed_decimal(s.generation as int) + ")\nimage:      "@ + s.image@ + "\n"@
        + storage_line(s.storage_size);
    assert(head + "\ninstances:\n"@ + all =~= head + ("\ninstances:\n"@ + all));
}

/// An instance's line tells whether it runs and where; one that runs and does
/// not answer yet says so.
pub proof fn what_is_told_of_an_instance(i: InstanceStatus, p: PoolerStatus)
    ensures
        ({
            let line = "  "@ + padded_right(i.instance@, 12) + " "@ + padded_right(
                i.role.name(),
                10,
            ) + " "@ + padded_right(
                if i.running { "running"@ } else { "stopped"@ },
                9,
            ) + " port "@ + padded_right(decimal(i.host_port as nat), 6) + " "@ + i.connection_uri@
                + "\n"@;
            &&& i.running && !i.accepting_connections ==> instance_row(i) == line
                + "               (container is up but postgres is not answering yet)\n"@
            &&& !(i.running && !i.accepting_connections) ==> instance_row(i) == line + ""@
        }),
        pooler_rows(p) == "  "@ + padded_right(p.pooler@, 12) + " "@ + padded_right(
            if p.running { "running"@ } else { "stopped"@ },
            9,
        ) + " port "@ + decimal(p.host_port as nat) + "\n"@ + concatenated(
            texts(p.connection_uris@).map_values(|u: Seq<char>| "    "@ + u + "\n"@),
        ),
{
}

/// One instance more counts where it runs.
pub proof fn one_instance_more(v: Seq<InstanceStatus>, i: InstanceStatus)
    ensures
        running_count(Seq::empty()) == 0,
        i.running ==> running_count(v.push(i)) == running_count(v) + 1,
        !i.running ==> running_count(v.push(i)) == running_count(v),
{
    assert(v.push(i).drop_last() =~= v);
}

/// A cluster's row: its name, its phase, how many of its instances run, and
/// where its primary is.
pub proof fn what_a_row_tells(v: Seq<ClusterStatus>, c: ClusterStatus)
    ensures
        ({
            let start = padded_right(c.cluster@, 16) + " "@ + padded_right(c.phase@, 10) + " "@
                + padded_right(
                decimal(running_count(c.instances@)) + "/"@ + decimal(c.instances@.len()),
                10,
            ) + " "@;
            &&& first_primary(c.instances@) matches Some(i) ==> cluster_row(c) == start
                + i.connection_uri@ + "\n"@
            &&& first_primary(c.instances@) is None ==> cluster_row(c) == start + "-"@ + "\n"@
        }),
        v.len() == 0 ==> list_text(v)
            == "no clusters — create one with `pgpod apply -f cluster.yaml`\n"@,
        v.len() > 0 ==> list_text(v) == (padded_right("CLUSTER"@, 16) + " "@ + padded_right(
            "PHASE"@,
            10,
        ) + " "@ + padded_right("INSTANCES"@, 10) + " "@ + "PRIMARY"@ + "\n"@) + concatenated(
            v.map_values(|c: ClusterStatus| cluster_row(c)),
        ),
{
}

/// A deletion tells every container that is gone, every volume that was
/// destroyed and every one that was kept, each as what it is; what was kept
/// and who still points at the cluster is said where it is so.
pub proof fn what_a_deletion_tells(r: DeleteReport)
    ensures
        ({
            let lines = "cluster '"@ + r.cluster@ + "' deleted\n"@ + concatenated(
                texts(r.containers_removed@).map_values(
                    |c: Seq<char>| "  removed container "@ + c + "\n"@,
                ),
            ) + concatenated(
                texts(r.volumes_removed@).map_values(
                    |v: Seq<char>| "  DESTROYED volume "@ + v + "\n"@,
                ),
            ) + concatenated(
                texts(r.volumes_retained@).map_values(
                    |v: Seq<char>| "  kept volume "@ + v + " (data intact)\n"@,
                ),
            );
            let fronted = "\nStill fronted by: "@ + joined(texts(r.poolers@), ", "@)
                + STILL_FRONTED@;
            let kept = r.volumes_retained@.len() > 0;
            &&& kept && r.poolers@.len() > 0 ==> delete_text(r) == lines + DATA_KEPT@ + fronted
            &&& kept && r.poolers@.len() == 0 ==> delete_text(r) == lines + DATA_KEPT@ + ""@
            &&& !kept && r.poolers@.len() > 0 ==> delete_text(r) == lines + ""@ + fronted
            &&& !kept && r.poolers@.len() == 0 ==> delete_text(r) == lines + ""@ + ""@
        }),
{
}

/// A pooler is listed with its phase, its port and its pools; a pool with its
/// user, whether it is paused, who waits and what is in use.
pub proof fn what_is_told_of_pools(
    ps: Seq<PoolerSummary>,
    p: PoolerSummary,
    v: Seq<PoolStatus>,
    s: PoolStatus,
)
    ensures
        pooler_summary_lines(p) == p.pooler@ + "  "@ + p.phase@ + "  port "@ + decimal(
            p.host_port as nat,
        ) + "\n"@ + concatenated(texts(p.pools@).map_values(|l: Seq<char>| "  "@ + l + "\n"@)),
        ps.len() == 0 ==> pooler_list_text(ps) == "no poolers\n"@,
        ps.len() > 0 ==> pooler_list_text(ps) == concatenated(
            ps.map_values(|p: PoolerSummary| pooler_summary_lines(p)),
        ),
        pool_status_row(s) == padded_right(s.database@, 20) + " "@ + padded_right(s.user@, 12)
            + " "@ + padded_left(if s.paused { "true"@ } else { "false"@ }, 7) + " "@ + padded_left(
            decimal(s.clients_waiting as nat),
            8,
        ) + " "@ + padded_left(decimal(s.servers_active as nat), 8) + " "@ + padded_left(
            decimal(s.servers_idle as nat),
            8,
        ) + "\n"@,
        v.len() == 0 ==> pools_text(v) == NO_POOLS@,
        v.len() > 0 ==> pools_text(v) == (padded_right("pool"@, 20) + " "@ + padded_right(
            "user"@,
            12,
        ) + " "@ + padded_left("paused"@, 7) + " "@ + padded_left("waiting"@, 8) + " "@
            + padded_left("active"@, 8) + " "@ + padded_left("idle"@, 8) + "\n"@) + concatenated(
            v.map_values(|p: PoolStatus| pool_status_row(p)),
        ),
{
}

/// A session is opened by podman's own client at the user's socket, in the
/// container that was asked for, as the superuser over the server's socket.
pub proof fn how_a_session_is_opened(
    socket: Seq<char>,
    container: Seq<char>,
    database: Seq<char>,
)
    ensures
        ({
            let a = psql_args(socket, container, database);
            &&& a.len() == 12
            &&& a[0] == "--url"@ && a[1] == "unix://"@ + socket
            &&& a[2] == "exec"@ && a[3] == "-it"@ && a[4] == container && a[5] == "psql"@
            &&& a[6] == "-h"@ && a[7] == "/pgdata/run"@
            &&& a[8] == "-U"@ && a[9] == "postgres"@
            &&& a[10] == "-d"@ && a[11] == database
        }),
{
}

/// An upgrade's report tells whether it was only a check, from which version
/// to which, how, and for how long connections were held; and then what is
/// left to know.
pub proof fn what_an_upgrade_tells(r: UpgradeReport)
    ensures
        ({
            let how = ": PostgreSQL "@ + r.from_version@ + " -> "@ + r.to_version@ + " ("@
                + r.method@ + " mode, "@ + decimal(r.held_ms as nat) + "ms held)\n"@;
            let kept: Seq<char> = if r.old_data_dir@.len() > 0 {
                "  old data:  "@ + r.old_data_dir@ + "\n"@
            } else {
                Seq::empty()
            };
            let saved: Seq<char> = match r.backup_label {
                Some(l) => "  backup:    "@ + l@ + "\n"@,
                None => Seq::empty(),
            };
            let warned = concatenated(
                texts(r.warnings@).map_values(|w: Seq<char>| "  warning:   "@ + w + "\n"@),
            );
            &&& r.checked_only ==> upgrade_text(r) == "cluster '"@ + r.cluster@ + "' "@
                + "can be upgraded"@ + how + kept + saved + warned
            &&& !r.checked_only ==> upgrade_text(r) == "cluster '"@ + r.cluster@ + "' "@
                + "upgraded"@ + how + kept + saved + warned
        }),
{
    let how = ": PostgreSQL "@ + r.from_version@ + " -> "@ + r.to_version@ + " ("@ + r.method@
        + " mode, "@ + decimal(r.held_ms as nat) + "ms held)\n"@;
    let head = "cluster '"@ + r.cluster@ + "' "@ + (if r.checked_only {
        "can be upgraded"@
    } else {
        "upgraded"@
    });
    assert(head + ": PostgreSQL "@ + r.from_version@ + " -> "@ + r.to_version@ + " ("@ + r.method@
        + " mode, "@ + decimal(r.held_ms as nat) + "ms held)\n"@ =~= head + how);
}

/// A boot recovery tells of every cluster and every pooler, why one was left
/// alone, and the counts; a dry run adds what it would have started.
pub proof fn what_a_boot_recovery_tells(r: ResumeReport, c: ClusterResume, u: UnitResume)
    ensures
        u.detail matches Some(d) ==> unit_line(u) == "  "@ + u.name@ + "  "@ + u.action.word() + (
        "  "@ + d@) + "\n"@,
        u.detail is None ==> unit_line(u) == "  "@ + u.name@ + "  "@ + u.action.word() + "\n"@,
        ({
            let units = concatenated(c.instances@.map_values(|u: UnitResume| unit_line(u)));
            &&& c.skipped matches Some(why) ==> cluster_lines(c) == c.cluster@ + "  "@ + c.phase@
                + "\n"@ + ("  skipped: "@ + why@ + "\n"@) + units
            &&& c.skipped is None ==> cluster_lines(c) == c.cluster@ + "  "@ + c.phase@ + "\n"@
                + units
        }),
        ({
            let lines = concatenated(r.clusters@.map_values(|c: ClusterResume| cluster_lines(c)))
                + concatenated(r.poolers@.map_values(|u: UnitResume| unit_line(u))) + "\n"@
                + r.counted();
            &&& r.dry_run ==> resume_text(r) == lines + (", "@ + decimal(r.would_starts())
                + " would start"@) + "\n"@
            &&& !r.dry_run ==> resume_text(r) == lines + "\n"@
        }),
{
    let none = Seq::<char>::empty();
    let a = "  "@ + u.name@ + "  "@ + u.action.word();
    assert(a + none =~= a);
    let b = c.cluster@ + "  "@ + c.phase@ + "\n"@;
    assert(b + none =~= b);
    let lines = concatenated(r.clusters@.map_values(|c: ClusterResume| cluster_lines(c)))
        + concatenated(r.poolers@.map_values(|u: UnitResume| unit_line(u))) + "\n"@ + r.counted();
    assert(lines + none =~= lines);
}

/// A pooler is never recreated, and nothing is never run.
pub proof fn what_is_refused_at_once(
    pooler: &str,
    recreate: bool,
    r: Option<String>,
    instance: &str,
    argv: Vec<String>,
    e: Option<String>,
)
    requires
        call_ensures(refuse_recreate, (pooler, recreate), r),
        call_ensures(refuse_exec, (instance, &argv), e),
    ensures
        r is Some <==> recreate,
        r matches Some(m) ==> m@ == RECREATE_POOLER@ + pooler@ + "` then apply again."@,
        e is Some <==> argv@.len() == 0,
{
}

/// Without a database a session is opened in `postgres`.
pub proof fn which_database_is_opened(
    socket: &str,
    container: &str,
    database: Option<&str>,
    r: Vec<String>,
)
    requires
        call_ensures(psql, (socket, container, database), r),
    ensures
        database matches Some(d) ==> texts(r@) == psql_args(socket@, container@, d@),
        database is None ==> texts(r@) == psql_args(socket@, container@, "postgres"@),
{
}

} // verus!
