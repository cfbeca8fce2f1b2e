//! Rendering `pgbackrest.conf`.
//!
//! The file is a list of settings with explanations between them. What each
//! repository contributes is stated as the list of its settings, in order,
//! because order is what decides: pgBackRest takes the last value it reads.

use crate::backup::error::{Error, ErrorView};
use crate::container::{
    LOG_DIR, PGBACKREST_BIN, PGBACKREST_CA_FILE, PGBACKREST_CONF, PGDATA, SOCKET_DIR, SPOOL_DIR,
};
use crate::text::{
    append_decimal, chars_of, clone_opt, clone_pairs, contains, debug_form, debug_quoted, decimal,
    decimal_of, drop_leading, lines, lines_of, occurs, opt_str, opt_text, pair_texts, parse_up_to,
    parsed, push_pair, rsplit_once, same, split_first, split_last, split_once, texts, trim, trim_of,
    trimmed, trimmed_of, a_number_reads_back, a_part_occurs, a_part_of_a_part_occurs, begins_with,
    find_from_is_first, is_at, only_digits_parse, split_first_at, split_first_nowhere, split_last_at,
    strippable, what_it_begins_with,
};
use vstd::prelude::*;
use vstd::string::*;

verus! {

/// pgBackRest indexes repositories `repo1`..`repo4`.
pub const MAX_REPOSITORIES: usize = 4;

/// Where the agent writes the rendered configuration, inside the volume.
pub const CONFIG_FILE: &'static str = PGBACKREST_CONF;

/// What an operator wants done with old backups.
#[derive(Debug, Clone, Copy, PartialEq, Eq, Structural)]
pub enum RetentionMode {
    /// Say what would be deleted, delete nothing.
    Report,
    /// Delete what is older than the window.
    Enforce,
}

/// A backup destination, as the manifest names it.
#[derive(Debug, Clone)]
pub struct Destination {
    pub url: String,
    pub endpoint: Option<String>,
    pub region: Option<String>,
    pub verify_tls: bool,
    /// Extra options, in the order of their names.
    pub options: Vec<(String, String)>,
    /// The podman secret that holds the credentials.
    pub credentials: Option<String>,
}

/// [`Destination`], over text.
pub struct DestinationView {
    pub url: Seq<char>,
    pub endpoint: Option<Seq<char>>,
    pub region: Option<Seq<char>>,
    pub verify_tls: bool,
    pub options: Seq<(Seq<char>, Seq<char>)>,
    pub credentials: Option<Seq<char>>,
}

impl View for Destination {
    type V = DestinationView;

    open spec fn view(&self) -> DestinationView {
        DestinationView {
            url: self.url@,
            endpoint: opt_text(self.endpoint),
            region: opt_text(self.region),
            verify_tls: self.verify_tls,
            options: pair_texts(self.options@),
            credentials: opt_text(self.credentials),
        }
    }
}

impl Destination {
    /// A destination with nothing but a URL. TLS is verified.
    pub fn new(url: &str) -> (r: Self)
        ensures
            r@ == (DestinationView {
                url: url@,
                endpoint: None,
                region: None,
                verify_tls: true,
                options: Seq::empty(),
                credentials: None,
            }),
    {
        let r = Destination {
            url: url.to_owned(),
            endpoint: None,
            region: None,
            verify_tls: true,
            options: Vec::new(),
            credentials: None,
        };
        assert(r@.options =~= Seq::empty());
        r
    }
}

/// Which object store a destination names.
#[derive(Debug, Clone, PartialEq, Eq)]
pub enum RepoKind {
    /// A filesystem path: a podman volume, in practice.
    Posix,
    S3 {
        bucket: String,
        /// Host only, never a URL.
        endpoint: Option<String>,
        region: Option<String>,
    },
    Gcs { bucket: String },
    Azure { container: String, account: Option<String> },
}

/// [`RepoKind`], over text.
pub enum RepoKindView {
    Posix,
    S3 { bucket: Seq<char>, endpoint: Option<Seq<char>>, region: Option<Seq<char>> },
    Gcs { bucket: Seq<char> },
    Azure { container: Seq<char>, account: Option<Seq<char>> },
}

impl View for RepoKind {
    type V = RepoKindView;

    open spec fn view(&self) -> RepoKindView {
        match *self {
            RepoKind::Posix => RepoKindView::Posix,
            RepoKind::S3 { bucket, endpoint, region } => RepoKindView::S3 {
                bucket: bucket@,
                endpoint: opt_text(endpoint),
                region: opt_text(region),
            },
            RepoKind::Gcs { bucket } => RepoKindView::Gcs { bucket: bucket@ },
            RepoKind::Azure { container, account } => RepoKindView::Azure {
                container: container@,
                account: opt_text(account),
            },
        }
    }
}

/// One repository, as pgBackRest will be told about it.
#[derive(Debug, Clone, PartialEq, Eq)]
pub struct Repository {
    pub kind: RepoKind,
    /// `repo-path`: the prefix inside the bucket, or the filesystem path.
    /// Always absolute.
    pub path: String,
    /// Port, when the destination named one.
    pub port: Option<u16>,
    /// Whether to verify the storage server's TLS certificate.
    pub verify_tls: bool,
    /// Extra `repoN-*` options, rendered after the derived ones, so that an
    /// explicit value wins.
    pub extra: Vec<(String, String)>,
}

/// [`Repository`], over text.
pub struct RepositoryView {
    pub kind: RepoKindView,
    pub path: Seq<char>,
    pub port: Option<u16>,
    pub verify_tls: bool,
    pub extra: Seq<(Seq<char>, Seq<char>)>,
}

impl View for Repository {
    type V = RepositoryView;

    open spec fn view(&self) -> RepositoryView {
        RepositoryView {
            kind: self.kind@,
            path: self.path@,
            port: self.port,
            verify_tls: self.verify_tls,
            extra: pair_texts(self.extra@),
        }
    }
}

/// The views of several repositories.
pub open spec fn repo_views(v: Seq<Repository>) -> Seq<RepositoryView> {
    v.map_values(|r: Repository| r@)
}

/// The views of several destinations.
pub open spec fn destination_views(v: Seq<Destination>) -> Seq<DestinationView> {
    v.map_values(|d: Destination| d@)
}

// ---- destinations ----------------------------------------------------

pub open spec fn bad(url: Seq<char>, detail: Seq<char>) -> ErrorView {
    ErrorView::Destination { url, detail }
}

fn bad_destination(url: &str, detail: &str) -> (r: Error)
    ensures
        r@ == bad(url@, detail@),
{
    Error::Destination { url: url.to_owned(), detail: detail.to_owned() }
}

/// What is wrong with an endpoint written as a URL.
pub const ENDPOINT_IS_URL: &'static str =
    "endpoint must be a host, not a URL — pgBackRest always \
                     uses TLS, so the scheme has no meaning. Write \
                     `garage.internal` and set a port if it is not 443";

/// `host:port` in two; a bare host has no port, and a URL or a port that is
/// not a number is refused.
pub open spec fn endpoint_of(endpoint: Option<Seq<char>>) -> Result<
    (Option<Seq<char>>, Option<u16>),
    ErrorView,
> {
    match endpoint {
        None => Ok((None, None)),
        Some(e) => {
            let raw = trimmed(e);
            if occurs(raw, "://"@) {
                Err(bad(raw, ENDPOINT_IS_URL@))
            } else {
                match split_last(raw, ':') {
                    None => Ok((Some(raw), None)),
                    Some((host, port)) => match parsed(port, u16::MAX as nat) {
                        Some(p) => Ok((Some(host), Some(p as u16))),
                        None => Err(bad(raw, debug_form(port) + " is not a port"@)),
                    },
                }
            }
        },
    }
}

pub open spec fn endpoint_result(
    r: Result<(Option<String>, Option<u16>), Error>,
) -> Result<(Option<Seq<char>>, Option<u16>), ErrorView> {
    match r {
        Ok((host, port)) => Ok((opt_text(host), port)),
        Err(e) => Err(e@),
    }
}

/// Splits `host:port`. pgBackRest's endpoint is a bare host, and the port is
/// a separate option. A URL is refused rather than stripped: the scheme would
/// otherwise be taken for the host.
pub fn split_endpoint(endpoint: Option<&str>) -> (r: Result<(Option<String>, Option<u16>), Error>)
    ensures
        endpoint_result(r) == endpoint_of(opt_str(endpoint)),
{
    match endpoint {
        None => Ok((None, None)),
        Some(e) => {
            let raw = trim(e);
            if contains(raw, "://") {
                return Err(bad_destination(raw, ENDPOINT_IS_URL));
            }
            match rsplit_once(raw, ':') {
                None => Ok((Some(raw.to_owned()), None)),
                Some((host, port)) => match parse_up_to(port, u16::MAX as u64) {
                    Some(p) => Ok((Some(host.to_owned()), Some(p as u16))),
                    None => {
                        let mut detail = debug_quoted(port);
                        detail.append(" is not a port");
                        Err(bad_destination(raw, detail.as_str()))
                    },
                },
            }
        },
    }
}

/// A bucket repository: the first component after the scheme is the bucket,
/// and `region` doubles as Azure's account.
pub open spec fn bucket_repository(
    scheme: Seq<char>,
    head: Seq<char>,
    path: Seq<char>,
    d: DestinationView,
    endpoint: Option<Seq<char>>,
    port: Option<u16>,
) -> RepositoryView {
    RepositoryView {
        kind: if scheme == "s3"@ || scheme == "s3a"@ {
            RepoKindView::S3 { bucket: head, endpoint, region: d.region }
        } else if scheme == "gs"@ {
            RepoKindView::Gcs { bucket: head }
        } else {
            RepoKindView::Azure { container: head, account: d.region }
        },
        path,
        port,
        verify_tls: d.verify_tls,
        extra: d.options,
    }
}

/// The repository a destination stands for, or what is wrong with it.
pub open spec fn repository_of(d: DestinationView) -> Result<RepositoryView, ErrorView> {
    let url = trimmed(d.url);
    match split_first(url, "://"@) {
        None => Err(bad(url, "expected something like gs://bucket/prefix"@)),
        Some((scheme, rest)) => {
            let (head, tail) = match split_first(rest, "/"@) {
                Some((h, t)) => (h, t),
                None => (rest, ""@),
            };
            let path = "/"@ + trimmed_of(tail, '/');
            let in_bucket = scheme == "s3"@ || scheme == "s3a"@ || scheme == "gs"@;
            let in_container = scheme == "az"@ || scheme == "abfs"@ || scheme == "abfss"@;
            if scheme == "file"@ {
                if head.len() == 0 && tail.len() == 0 {
                    Err(bad(url, "names no path"@))
                } else if head.len() != 0 {
                    Err(bad(url, "a file:// URL must have an empty host — write file:///path"@))
                } else {
                    Ok(
                        RepositoryView {
                            kind: RepoKindView::Posix,
                            path,
                            port: None,
                            verify_tls: true,
                            extra: d.options,
                        },
                    )
                }
            } else if in_bucket || in_container {
                if head.len() == 0 {
                    Err(
                        bad(
                            url,
                            if in_bucket {
                                "names no bucket"@
                            } else {
                                "names no container"@
                            },
                        ),
                    )
                } else {
                    match endpoint_of(d.endpoint) {
                        Err(e) => Err(e),
                        Ok((endpoint, port)) => Ok(
                            bucket_repository(scheme, head, path, d, endpoint, port),
                        ),
                    }
                }
            } else {
                Err(
                    bad(
                        url,
                        "unsupported scheme "@ + debug_form(scheme)
                            + " — pgBackRest handles file, s3, gs, az"@,
                    ),
                )
            }
        },
    }
}

pub open spec fn repository_result(r: Result<Repository, Error>) -> Result<
    RepositoryView,
    ErrorView,
> {
    match r {
        Ok(repo) => Ok(repo@),
        Err(e) => Err(e@),
    }
}

fn as_borrowed(o: &Option<String>) -> (r: Option<&str>)
    ensures
        opt_str(r) == opt_text(*o),
{
    match o {
        Some(s) => Some(s.as_str()),
        None => None,
    }
}

impl Repository {
    /// Turns a manifest destination into a pgBackRest repository.
    pub fn from_destination(dest: &Destination) -> (r: Result<Self, Error>)
        ensures
            repository_result(r) == repository_of(dest@),
    {
        let url = trim(dest.url.as_str());
        let (scheme, rest) = match split_once(url, "://") {
            Some(p) => p,
            None => {
                return Err(bad_destination(url, "expected something like gs://bucket/prefix"));
            },
        };
        let (head, tail) = match split_once(rest, "/") {
            Some(p) => p,
            None => (rest, ""),
        };
        let mut path = "/".to_owned();
        path.append(trim_of(tail, '/'));
        let no_head = head.unicode_len() == 0;
        if same(scheme, "file") {
            if no_head && tail.unicode_len() == 0 {
                return Err(bad_destination(url, "names no path"));
            }
            if !no_head {
                return Err(
                    bad_destination(
                        url,
                        "a file:// URL must have an empty host — write file:///path",
                    ),
                );
            }
            return Ok(
                Repository {
                    kind: RepoKind::Posix,
                    path,
                    port: None,
                    verify_tls: true,
                    extra: clone_pairs(&dest.options),
                },
            );
        }
        let s3 = same(scheme, "s3") || same(scheme, "s3a");
        let gs = same(scheme, "gs");
        let azure = same(scheme, "az") || same(scheme, "abfs") || same(scheme, "abfss");
        if !s3 && !gs && !azure {
            let mut detail = "unsupported scheme ".to_owned();
            detail.append(debug_quoted(scheme).as_str());
            detail.append(" — pgBackRest handles file, s3, gs, az");
            return Err(bad_destination(url, detail.as_str()));
        }
        if no_head {
            return Err(
                bad_destination(
                    url,
                    if s3 || gs {
                        "names no bucket"
                    } else {
                        "names no container"
                    },
                ),
            );
        }
        let (endpoint, port) = match split_endpoint(as_borrowed(&dest.endpoint)) {
            Ok(p) => p,
            Err(e) => {
                return Err(e);
            },
        };
        let kind = if s3 {
            RepoKind::S3 {
                bucket: head.to_owned(),
                endpoint,
                region: clone_opt(&dest.region),
            }
        } else if gs {
            RepoKind::Gcs { bucket: head.to_owned() }
        } else {
            RepoKind::Azure { container: head.to_owned(), account: clone_opt(&dest.region) }
        };
        Ok(
            Repository {
                kind,
                path,
                port,
                verify_tls: dest.verify_tls,
                extra: clone_pairs(&dest.options),
            },
        )
    }
}

// ---- settings --------------------------------------------------------

/// What the kind of a repository sets.
pub open spec fn kind_settings(kind: RepoKindView) -> Seq<(Seq<char>, Seq<char>)> {
    match kind {
        RepoKindView::Posix => seq![("type"@, "posix"@)],
        RepoKindView::S3 { bucket, endpoint, region } => {
            let s = seq![("type"@, "s3"@), ("s3-bucket"@, bucket)];
            let s = match endpoint {
                Some(e) => s.push(("s3-endpoint"@, e)),
                None => s,
            };
            let s = match region {
                Some(r) => s.push(("s3-region"@, r)),
                None => s,
            };
            s.push(("s3-uri-style"@, "path"@))
        },
        RepoKindView::Gcs { bucket } => seq![
            ("type"@, "gcs"@),
            ("gcs-bucket"@, bucket),
            ("gcs-key-type"@, "auto"@),
        ],
        RepoKindView::Azure { container, account } => {
            let s = seq![("type"@, "azure"@), ("azure-container"@, container)];
            match account {
                Some(a) => s.push(("azure-account"@, a)),
                None => s,
            }
        },
    }
}

/// What is derived for a repository, before its explicit options.
pub open spec fn derived_settings(r: RepositoryView) -> Seq<(Seq<char>, Seq<char>)> {
    let s = kind_settings(r.kind).push(("path"@, r.path));
    let s = match r.port {
        Some(p) => s.push(("storage-port"@, decimal(p as nat))),
        None => s,
    };
    let s = if r.verify_tls {
        s
    } else {
        s.push(("storage-verify-tls"@, "n"@))
    };
    if r.kind is Posix {
        s
    } else {
        s.push(("storage-ca-file"@, PGBACKREST_CA_FILE@))
    }
}

/// Everything a repository sets, in the order it is written.
pub open spec fn repo_settings(r: RepositoryView) -> Seq<(Seq<char>, Seq<char>)> {
    derived_settings(r) + r.extra
}

/// One setting of repository `n`, as a line.
pub open spec fn setting_line(n: nat, s: (Seq<char>, Seq<char>)) -> Seq<char> {
    "repo"@ + decimal(n) + "-"@ + s.0 + "="@ + s.1 + "\n"@
}

/// Settings of repository `n`, as lines.
pub open spec fn setting_lines(n: nat, s: Seq<(Seq<char>, Seq<char>)>) -> Seq<char>
    decreases s.len(),
{
    if s.len() == 0 {
        Seq::empty()
    } else {
        setting_lines(n, s.drop_last()) + setting_line(n, s.last())
    }
}

fn put(v: &mut Vec<(String, String)>, k: &str, val: &str)
    ensures
        pair_texts(final(v)@) == pair_texts(old(v)@).push((k@, val@)),
{
    v.push((k.to_owned(), val.to_owned()));
    assert(pair_texts(v@) =~= pair_texts(old(v)@).push((k@, val@)));
}

impl Repository {
    /// The settings of this repository, explicit options last, so that an
    /// operator's value corrects a derived one.
    pub fn settings(&self) -> (r: Vec<(String, String)>)
        ensures
            pair_texts(r@) == repo_settings(self@),
    {
        let mut s: Vec<(String, String)> = Vec::new();
        assert(pair_texts(s@) =~= Seq::empty());
        match &self.kind {
            RepoKind::Posix => {
                put(&mut s, "type", "posix");
            },
            RepoKind::S3 { bucket, endpoint, region } => {
                put(&mut s, "type", "s3");
                put(&mut s, "s3-bucket", bucket.as_str());
                assert(pair_texts(s@) =~= seq![("type"@, "s3"@), ("s3-bucket"@, bucket@)]);
                if let Some(e) = endpoint {
                    put(&mut s, "s3-endpoint", e.as_str());
                }
                if let Some(r) = region {
                    put(&mut s, "s3-region", r.as_str());
                }
                put(&mut s, "s3-uri-style", "path");
            },
            RepoKind::Gcs { bucket } => {
                put(&mut s, "type", "gcs");
                put(&mut s, "gcs-bucket", bucket.as_str());
                put(&mut s, "gcs-key-type", "auto");
            },
            RepoKind::Azure { container, account } => {
                put(&mut s, "type", "azure");
                put(&mut s, "azure-container", container.as_str());
                assert(pair_texts(s@) =~= seq![
                    ("type"@, "azure"@),
                    ("azure-container"@, container@),
                ]);
                if let Some(a) = account {
                    put(&mut s, "azure-account", a.as_str());
                }
            },
        }
        assert(pair_texts(s@) =~= kind_settings(self.kind@));
        put(&mut s, "path", self.path.as_str());
        if let Some(port) = self.port {
            put(&mut s, "storage-port", decimal_of(port as u64).as_str());
        }
        if !self.verify_tls {
            put(&mut s, "storage-verify-tls", "n");
        }
        let posix = match &self.kind {
            RepoKind::Posix => true,
            _ => false,
        };
        if !posix {
            put(&mut s, "storage-ca-file", PGBACKREST_CA_FILE);
        }
        assert(pair_texts(s@) == derived_settings(self@));
        let ghost derived = s@;
        let mut extra = clone_pairs(&self.extra);
        s.append(&mut extra);
        assert(pair_texts(s@) =~= pair_texts(derived) + pair_texts(self.extra@));
        s
    }

    /// Appends the `repoN-*` lines for this repository, at index `n`.
    pub fn render(&self, n: usize, out: &mut String)
        ensures
            final(out)@ == old(out)@ + setting_lines(n as nat, repo_settings(self@)),
    {
        let settings = self.settings();
        let ghost all = pair_texts(settings@);
        let ghost start = out@;
        let mut i: usize = 0;
        assert(out@ =~= start + setting_lines(n as nat, all.take(0)));
        while i < settings.len()
            invariant
                i <= settings.len(),
                all == pair_texts(settings@),
                out@ == start + setting_lines(n as nat, all.take(i as int)),
            decreases settings.len() - i,
        {
            let ghost line = setting_line(n as nat, all[i as int]);
            let ghost before = out@;
            out.append("repo");
            append_decimal(out, n as u64);
            out.append("-");
            out.append(settings[i].0.as_str());
            out.append("=");
            out.append(settings[i].1.as_str());
            out.append("\n");
            assert(out@ =~= before + line);
            assert(all.take(i + 1).drop_last() =~= all.take(i as int));
            assert(out@ =~= start + setting_lines(n as nat, all.take(i + 1)));
            i = i + 1;
        }
        assert(all.take(all.len() as int) =~= all);
    }
}

// ---- the whole file --------------------------------------------------

/// Everything the rendered `pgbackrest.conf` depends on.
#[derive(Debug, Clone)]
pub struct PgBackRestConfig {
    /// pgBackRest's name for a cluster.
    pub stanza: String,
    pub repositories: Vec<Repository>,
    /// The retention window, where retention is enforced.
    pub retention_days: Option<u32>,
    /// zstd level.
    pub compress_level: u8,
    /// A second stanza this instance must also be able to address: the one
    /// it is being restored from.
    pub recovery_stanza: Option<String>,
}

/// [`PgBackRestConfig`], over text.
pub struct ConfigView {
    pub stanza: Seq<char>,
    pub repositories: Seq<RepositoryView>,
    pub retention_days: Option<u32>,
    pub compress_level: u8,
    pub recovery_stanza: Option<Seq<char>>,
}

impl View for PgBackRestConfig {
    type V = ConfigView;

    open spec fn view(&self) -> ConfigView {
        ConfigView {
            stanza: self.stanza@,
            repositories: repo_views(self.repositories@),
            retention_days: self.retention_days,
            compress_level: self.compress_level,
            recovery_stanza: opt_text(self.recovery_stanza),
        }
    }
}

/// An ASCII digit.
pub open spec fn ascii_digit() -> spec_fn(char) -> bool {
    |c: char| '0' <= c <= '9'
}

pub open spec fn invalid(m: Seq<char>) -> ErrorView {
    ErrorView::Invalid(m)
}

/// `14d` in days: a positive number, then the unit `d` and no other.
pub open spec fn days_of(window: Seq<char>) -> Result<u32, ErrorView> {
    let w = trimmed(window);
    let unit = drop_leading(w, ascii_digit());
    let value = w.take(w.len() - unit.len());
    if unit.len() == 0 {
        Err(invalid(debug_form(w) + " has no unit — try 14d"@))
    } else {
        match parsed(value, u32::MAX as nat) {
            None => Err(invalid(debug_form(w) + " does not start with a number"@)),
            Some(n) => if n == 0 {
                Err(invalid(debug_form(w) + " is not a positive duration"@))
            } else if unit == "d"@ {
                Ok(n as u32)
            } else {
                Err(
                    invalid(
                        "unknown unit "@ + debug_form(unit) + " in "@ + debug_form(w)
                            + DAYS_ONLY@,
                    ),
                )
            },
        }
    }
}

/// Why no unit but the day is accepted.
pub const DAYS_ONLY: &'static str = " — pgBackRest's time-based \
             retention counts whole days, so only `d` is accepted";

pub open spec fn days_result(r: Result<u32, Error>) -> Result<u32, ErrorView> {
    match r {
        Ok(d) => Ok(d),
        Err(e) => Err(e@),
    }
}

fn quoted_invalid(w: &str, rest: &str) -> (r: Error)
    ensures
        r@ == invalid(debug_form(w@) + rest@),
{
    let mut m = debug_quoted(w);
    m.append(rest);
    Error::Invalid(m)
}

/// Parses a retention window. pgBackRest counts whole days, and a window
/// that silently became something else would delete backups.
pub fn parse_days(window: &str) -> (r: Result<u32, Error>)
    ensures
        days_result(r) == days_of(window@),
{
    let w = trim(window);
    let v = chars_of(w);
    let n: usize = v.len();
    let mut i: usize = 0;
    assert(w@.subrange(0, n as int) =~= w@);
    while i < n && '0' <= v[i] && v[i] <= '9'
        invariant
            v@ == w@,
            n == v.len(),
            i <= n,
            drop_leading(w@, ascii_digit()) == drop_leading(
                w@.subrange(i as int, n as int),
                ascii_digit(),
            ),
        decreases n - i,
    {
        assert(w@.subrange(i as int, n as int).subrange(1, n - i) =~= w@.subrange(
            i + 1,
            n as int,
        ));
        i = i + 1;
    }
    assert(drop_leading(w@, ascii_digit()) == w@.subrange(i as int, n as int));
    if i == n {
        return Err(quoted_invalid(w, " has no unit — try 14d"));
    }
    let value = w.substring_char(0, i);
    let unit = w.substring_char(i, n);
    assert(value@ =~= w@.take(w@.len() - unit@.len()));
    match parse_up_to(value, u32::MAX as u64) {
        None => Err(quoted_invalid(w, " does not start with a number")),
        Some(days) => {
            if days == 0 {
                Err(quoted_invalid(w, " is not a positive duration"))
            } else if same(unit, "d") {
                Ok(days as u32)
            } else {
                let mut m = "unknown unit ".to_owned();
                m.append(debug_quoted(unit).as_str());
                m.append(" in ");
                m.append(debug_quoted(w).as_str());
                m.append(DAYS_ONLY);
                Err(Error::Invalid(m))
            }
        },
    }
}

/// The repositories of several destinations, or the first one's error.
pub open spec fn repositories_of(ds: Seq<DestinationView>) -> Result<
    Seq<RepositoryView>,
    ErrorView,
>
    decreases ds.len(),
{
    if ds.len() == 0 {
        Ok(Seq::empty())
    } else {
        match repositories_of(ds.drop_last()) {
            Err(e) => Err(e),
            Ok(v) => match repository_of(ds.last()) {
                Err(e) => Err(e),
                Ok(r) => Ok(v.push(r)),
            },
        }
    }
}

/// An error among the first destinations is the error of all of them.
proof fn repositories_of_prefix(ds: Seq<DestinationView>, i: int)
    requires
        0 <= i <= ds.len(),
        repositories_of(ds.take(i)) is Err,
    ensures
        repositories_of(ds) == repositories_of(ds.take(i)),
    decreases ds.len() - i,
{
    if i == ds.len() {
        assert(ds.take(i) =~= ds);
    } else {
        assert(ds.take(i + 1).drop_last() =~= ds.take(i));
        repositories_of_prefix(ds, i + 1);
    }
}

/// How many days are kept: all of them, unless enforcement was asked for.
pub open spec fn retention_of(window: Option<Seq<char>>, mode: RetentionMode) -> Result<
    Option<u32>,
    ErrorView,
> {
    match mode {
        RetentionMode::Report => Ok(None),
        RetentionMode::Enforce => match window {
            None => Ok(None),
            Some(w) => match days_of(w) {
                Ok(d) => Ok(Some(d)),
                Err(e) => Err(e),
            },
        },
    }
}

/// The configuration of a cluster's backup specification, or what is wrong
/// with it.
pub open spec fn config_of(
    stanza: Seq<char>,
    destinations: Seq<DestinationView>,
    retention: Option<Seq<char>>,
    mode: RetentionMode,
) -> Result<ConfigView, ErrorView> {
    if destinations.len() == 0 {
        Err(ErrorView::NoDestinations)
    } else if destinations.len() > MAX_REPOSITORIES {
        Err(
            ErrorView::TooManyRepositories {
                max: MAX_REPOSITORIES as nat,
                given: destinations.len(),
            },
        )
    } else {
        match repositories_of(destinations) {
            Err(e) => Err(e),
            Ok(repositories) => match retention_of(retention, mode) {
                Err(e) => Err(e),
                Ok(retention_days) => Ok(
                    ConfigView {
                        stanza,
                        repositories,
                        retention_days,
                        compress_level: 3,
                        recovery_stanza: None,
                    },
                ),
            },
        }
    }
}

pub open spec fn config_result(r: Result<PgBackRestConfig, Error>) -> Result<
    ConfigView,
    ErrorView,
> {
    match r {
        Ok(c) => Ok(c@),
        Err(e) => Err(e@),
    }
}

/// `r` with more explicit options.
pub open spec fn with_extra(
    r: RepositoryView,
    more: Seq<(Seq<char>, Seq<char>)>,
) -> RepositoryView {
    RepositoryView { extra: r.extra + more, ..r }
}

/// The options a credentials secret holds: the text on either side of the
/// first `=` of each line that has one.
pub open spec fn options_in(ls: Seq<Seq<char>>) -> Seq<(Seq<char>, Seq<char>)>
    decreases ls.len(),
{
    if ls.len() == 0 {
        Seq::empty()
    } else {
        let before = options_in(ls.drop_last());
        match split_first(trimmed(ls.last()), "="@) {
            Some(pair) => before.push(pair),
            None => before,
        }
    }
}

/// Reads the options in a credentials secret, one to a line.
pub fn read_credentials(text: &str) -> (r: Vec<(String, String)>)
    ensures
        pair_texts(r@) == options_in(lines_of(text@)),
{
    let ls = lines(text);
    let ghost all = texts(ls@);
    let mut out: Vec<(String, String)> = Vec::new();
    let mut i: usize = 0;
    assert(pair_texts(out@) =~= options_in(all.take(0)));
    while i < ls.len()
        invariant
            i <= ls.len(),
            all == texts(ls@),
            pair_texts(out@) == options_in(all.take(i as int)),
        decreases ls.len() - i,
    {
        assert(all.take(i + 1).drop_last() =~= all.take(i as int));
        assert(all.take(i + 1).last() == ls@[i as int]@);
        if let Some((k, v)) = split_once(trim(ls[i].as_str()), "=") {
            push_pair(&mut out, k, v);
        }
        i = i + 1;
    }
    assert(all.take(i as int) =~= all);
    out
}

impl PgBackRestConfig {
    /// Builds the configuration from a cluster's backup specification.
    pub fn new(
        stanza: &str,
        destinations: &[Destination],
        retention: Option<&str>,
        retention_mode: RetentionMode,
    ) -> (r: Result<Self, Error>)
        ensures
            config_result(r) == config_of(
                stanza@,
                destination_views(destinations@),
                opt_str(retention),
                retention_mode,
            ),
    {
        let n: usize = destinations.len();
        if n == 0 {
            return Err(Error::NoDestinations);
        }
        if n > MAX_REPOSITORIES {
            return Err(Error::TooManyRepositories { max: MAX_REPOSITORIES, given: n });
        }
        let ghost ds = destination_views(destinations@);
        let mut repositories: Vec<Repository> = Vec::new();
        let mut i: usize = 0;
        assert(repo_views(repositories@) =~= Seq::empty());
        while i < n
            invariant
                n == destinations.len(),
                i <= n,
                n <= MAX_REPOSITORIES,
                n > 0,
                ds == destination_views(destinations@),
                repositories_of(ds.take(i as int)) == Ok::<Seq<RepositoryView>, ErrorView>(
                    repo_views(repositories@),
                ),
            decreases n - i,
        {
            assert(ds.take(i + 1).drop_last() =~= ds.take(i as int));
            assert(ds.take(i + 1).last() == destinations@[i as int]@);
            match Repository::from_destination(&destinations[i]) {
                Ok(repo) => {
                    let ghost before = repo_views(repositories@);
                    let ghost added = repo@;
                    repositories.push(repo);
                    assert(repo_views(repositories@) =~= before.push(added));
                },
                Err(e) => {
                    proof {
                        repositories_of_prefix(ds, i + 1);
                    }
                    return Err(e);
                },
            }
            i = i + 1;
        }
        assert(ds.take(n as int) =~= ds);
        let retention_days = match retention_mode {
            RetentionMode::Report => None,
            RetentionMode::Enforce => match retention {
                None => None,
                Some(w) => match parse_days(w) {
                    Ok(d) => Some(d),
                    Err(e) => {
                        return Err(e);
                    },
                },
            },
        };
        Ok(
            PgBackRestConfig {
                stanza: stanza.to_owned(),
                repositories,
                retention_days,
                compress_level: 3,
                recovery_stanza: None,
            },
        )
    }

    /// Attaches per-repository credentials, in destination order. Fewer
    /// entries than repositories leave the rest as they are, and entries
    /// beyond the last repository are dropped.
    pub fn with_credentials(self, per_repo: Vec<Vec<(String, String)>>) -> (r: Self)
        ensures
            r@ == (ConfigView {
                repositories: Seq::new(
                    self@.repositories.len(),
                    |i: int|
                        if i < per_repo.len() {
                            with_extra(self@.repositories[i], pair_texts(per_repo@[i]@))
                        } else {
                            self@.repositories[i]
                        },
                ),
                ..self@
            }),
    {
        let mut repositories: Vec<Repository> = Vec::new();
        let mut i: usize = 0;
        let ghost want = Seq::new(
            self@.repositories.len(),
            |i: int|
                if i < per_repo.len() {
                    with_extra(self@.repositories[i], pair_texts(per_repo@[i]@))
                } else {
                    self@.repositories[i]
                },
        );
        while i < self.repositories.len()
            invariant
                i <= self.repositories.len(),
                want == Seq::new(
                    self@.repositories.len(),
                    |i: int|
                        if i < per_repo.len() {
                            with_extra(self@.repositories[i], pair_texts(per_repo@[i]@))
                        } else {
                            self@.repositories[i]
                        },
                ),
                repo_views(repositories@) == want.take(i as int),
            decreases self.repositories.len() - i,
        {
            let mut repo = self.repositories[i].duplicate();
            if i < per_repo.len() {
                let ghost before = repo.extra@;
                let mut creds = clone_pairs(&per_repo[i]);
                repo.extra.append(&mut creds);
                assert(pair_texts(repo.extra@) =~= pair_texts(before) + pair_texts(
                    per_repo@[i as int]@,
                ));
            }
            assert(repo@ == want[i as int]);
            let ghost before = repo_views(repositories@);
            let ghost added = repo@;
            repositories.push(repo);
            assert(repo_views(repositories@) =~= before.push(added));
            assert(repo_views(repositories@) =~= want.take(i + 1));
            i = i + 1;
        }
        assert(want.take(want.len() as int) =~= want);
        PgBackRestConfig {
            stanza: self.stanza,
            repositories,
            retention_days: self.retention_days,
            compress_level: self.compress_level,
            recovery_stanza: self.recovery_stanza,
        }
    }

    /// Also defines `stanza`, so that a restore can name it. A stanza that is
    /// this cluster's own already has its section.
    pub fn with_recovery_stanza(self, stanza: Option<String>) -> (r: Self)
        ensures
            r@ == (ConfigView {
                recovery_stanza: if opt_text(stanza) == Some(self@.stanza) {
                    None
                } else {
                    opt_text(stanza)
                },
                ..self@
            }),
    {
        let recovery_stanza = match stanza {
            Some(s) => if s == self.stanza {
                None
            } else {
                Some(s)
            },
            None => None,
        };
        PgBackRestConfig {
            stanza: self.stanza,
            repositories: self.repositories,
            retention_days: self.retention_days,
            compress_level: self.compress_level,
            recovery_stanza,
        }
    }
}

impl Repository {
    /// An equal repository.
    pub fn duplicate(&self) -> (r: Self)
        ensures
            r@ == self@,
    {
        let kind = match &self.kind {
            RepoKind::Posix => RepoKind::Posix,
            RepoKind::S3 { bucket, endpoint, region } => RepoKind::S3 {
                bucket: bucket.clone(),
                endpoint: clone_opt(endpoint),
                region: clone_opt(region),
            },
            RepoKind::Gcs { bucket } => RepoKind::Gcs { bucket: bucket.clone() },
            RepoKind::Azure { container, account } => RepoKind::Azure {
                container: container.clone(),
                account: clone_opt(account),
            },
        };
        Repository {
            kind,
            path: self.path.clone(),
            port: self.port,
            verify_tls: self.verify_tls,
            extra: clone_pairs(&self.extra),
        }
    }
}

pub const HEADER: &'static str =
    "# Managed by pgpod. Rewritten on every instance start.\n\
             # Edits here are lost; change spec.backup in the cluster manifest.\n\n\
             [global]\n";

pub const RETENTION_NOTE: &'static str =
    "\n# Retention. Only present when spec.backup.retentionMode\n\
                          # is `enforce` — unset means pgBackRest keeps everything.\n";

pub const COMMAND_NOTE: &'static str =
    "\n# --- how pgBackRest re-invokes itself ---\n\
             # pgBackRest forks worker processes by re-executing its own\n\
             # binary, which it finds via /proc/self/exe — the *real* binary,\n\
             # not the wrapper that set the library path. Without this the\n\
             # parent runs fine and every worker dies with\n\
             # `libssh2.so.1: cannot open shared object file` (ADR 04 §2).\n";

pub const COMPRESSION_NOTE: &'static str =
    "\n# --- compression ---\n\
             # pgBackRest spells it `zst`, not `zstd`, and rejects the latter\n\
             # outright: allowed values are none, bz2, gz, lz4, zst.\n";

pub const PATHS_NOTE: &'static str =
    "\n# --- paths ---\n\
             # All inside the volume: the container's rootfs is read-only, so\n\
             # pgBackRest's own defaults under /var and /etc are not writable\n\
             # (ADR 04 §3).\n";

pub const LOGGING: &'static str =
    "\n# --- logging ---\n\
             # To the container stream, which is where every other pgpod log\n\
             # line goes and what `pgpod logs` reads.\n\
             log-level-console=info\n\
             log-level-file=off\n";

pub const ARCHIVING: &'static str =
    "\n# --- archiving ---\n\
             # Synchronous, deliberately. With archive-async the command can\n\
             # return before the segment is durable, and `archive_command`\n\
             # returning 0 is PostgreSQL's signal that pg_wal may recycle it\n\
             # (ADR 01 §1, kept by ADR 04 §4).\n\
             #\n\
             # archive-push-queue-max is deliberately absent: it makes\n\
             # pgBackRest *drop* WAL to keep the primary running, which turns\n\
             # a loud, recoverable outage into a silent gap in the archive.\n\
             archive-async=n\n";

/// `key=value` on a line.
pub open spec fn assignment(key: Seq<char>, value: Seq<char>) -> Seq<char> {
    key + "="@ + value + "\n"@
}

/// The settings of all repositories, numbered from one.
pub open spec fn repositories_text(repos: Seq<RepositoryView>) -> Seq<char>
    decreases repos.len(),
{
    if repos.len() == 0 {
        Seq::empty()
    } else {
        repositories_text(repos.drop_last()) + setting_lines(
            repos.len(),
            repo_settings(repos.last()),
        )
    }
}

/// The retention settings, where there are any.
pub open spec fn retention_text(days: Option<u32>) -> Seq<char> {
    match days {
        None => Seq::empty(),
        Some(d) => RETENTION_NOTE@ + assignment("repo1-retention-full-type"@, "time"@)
            + assignment("repo1-retention-full"@, decimal(d as nat)),
    }
}

/// What does not depend on repositories or stanzas.
pub open spec fn global_text(compress_level: u8) -> Seq<char> {
    COMMAND_NOTE@ + assignment("cmd"@, PGBACKREST_BIN@) + COMPRESSION_NOTE@ + assignment(
        "compress-type"@,
        "zst"@,
    ) + assignment("compress-level"@, decimal(compress_level as nat)) + PATHS_NOTE@ + assignment(
        "lock-path"@,
        SOCKET_DIR@,
    ) + assignment("spool-path"@, SPOOL_DIR@) + assignment("log-path"@, LOG_DIR@) + LOGGING@
        + ARCHIVING@
}

/// The section of one stanza. Every stanza names this instance's data
/// directory: they differ in which part of the repository they address.
pub open spec fn section_text(stanza: Seq<char>) -> Seq<char> {
    "\n["@ + stanza + "]\n"@ + assignment("pg1-path"@, PGDATA@) + assignment("pg1-port"@, "5432"@)
        + assignment("pg1-socket-path"@, SOCKET_DIR@)
}

/// The whole file.
pub open spec fn config_text(c: ConfigView) -> Seq<char> {
    HEADER@ + repositories_text(c.repositories) + retention_text(c.retention_days) + global_text(
        c.compress_level,
    ) + section_text(c.stanza) + match c.recovery_stanza {
        Some(s) => section_text(s),
        None => Seq::empty(),
    }
}

fn assign(out: &mut String, key: &str, value: &str)
    ensures
        final(out)@ == old(out)@ + assignment(key@, value@),
{
    out.append(key);
    out.append("=");
    out.append(value);
    out.append("\n");
    assert(out@ =~= old(out)@ + assignment(key@, value@));
}

fn section(out: &mut String, stanza: &str)
    ensures
        final(out)@ == old(out)@ + section_text(stanza@),
{
    out.append("\n[");
    out.append(stanza);
    out.append("]\n");
    assign(out, "pg1-path", PGDATA);
    assign(out, "pg1-port", "5432");
    assign(out, "pg1-socket-path", SOCKET_DIR);
    assert(out@ =~= old(out)@ + section_text(stanza@));
}

fn global(out: &mut String, compress_level: u8)
    ensures
        final(out)@ == old(out)@ + global_text(compress_level),
{
    out.append(COMMAND_NOTE);
    assign(out, "cmd", PGBACKREST_BIN);
    out.append(COMPRESSION_NOTE);
    assign(out, "compress-type", "zst");
    assign(out, "compress-level", decimal_of(compress_level as u64).as_str());
    out.append(PATHS_NOTE);
    assign(out, "lock-path", SOCKET_DIR);
    assign(out, "spool-path", SPOOL_DIR);
    assign(out, "log-path", LOG_DIR);
    out.append(LOGGING);
    out.append(ARCHIVING);
    assert(out@ =~= old(out)@ + global_text(compress_level));
}

impl PgBackRestConfig {
    /// Renders the file.
    pub fn render(&self) -> (r: String)
        ensures
            r@ == config_text(self@),
    {
        let mut out = HEADER.to_owned();
        let ghost repos = self@.repositories;
        let mut i: usize = 0;
        assert(out@ =~= HEADER@ + repositories_text(repos.take(0)));
        while i < self.repositories.len()
            invariant
                i <= self.repositories.len(),
                repos == repo_views(self.repositories@),
                out@ == HEADER@ + repositories_text(repos.take(i as int)),
            decreases self.repositories.len() - i,
        {
            assert(repos.take(i + 1).drop_last() =~= repos.take(i as int));
            assert(repos.take(i + 1).last() == self.repositories@[i as int]@);
            let ghost before = out@;
            self.repositories[i].render(i + 1, &mut out);
            assert(out@ =~= HEADER@ + repositories_text(repos.take(i + 1)));
            i = i + 1;
        }
        assert(repos.take(repos.len() as int) =~= repos);
        let ghost before = out@;
        if let Some(days) = self.retention_days {
            out.append(RETENTION_NOTE);
            assign(&mut out, "repo1-retention-full-type", "time");
            assign(&mut out, "repo1-retention-full", decimal_of(days as u64).as_str());
        }
        assert(out@ =~= before + retention_text(self.retention_days));
        global(&mut out, self.compress_level);
        section(&mut out, self.stanza.as_str());
        let ghost before = out@;
        if let Some(s) = &self.recovery_stanza {
            section(&mut out, s.as_str());
        }
        assert(out@ =~= config_text(self@));
        out
    }
}

// ---- what holds of every configuration -------------------------------

/// A repository's explicit options are the last of its settings, so they
/// correct whatever was derived.
pub proof fn explicit_options_come_last(r: RepositoryView)
    ensures
        repo_settings(r).subrange(
            repo_settings(r).len() - r.extra.len(),
            repo_settings(r).len() as int,
        ) == r.extra,
        repo_settings(r).take(repo_settings(r).len() - r.extra.len()) == derived_settings(r),
{
    assert(repo_settings(r).subrange(
        repo_settings(r).len() - r.extra.len(),
        repo_settings(r).len() as int,
    ) =~= r.extra);
    assert(repo_settings(r).take(repo_settings(r).len() - r.extra.len()) =~= derived_settings(r));
}

/// Nothing is deleted unless enforcement was asked for: in any other mode no
/// window is kept and no retention setting is written.
pub proof fn retention_is_opt_in(
    stanza: Seq<char>,
    destinations: Seq<DestinationView>,
    retention: Option<Seq<char>>,
    mode: RetentionMode,
)
    requires
        mode != RetentionMode::Enforce,
    ensures
        match config_of(stanza, destinations, retention, mode) {
            Ok(c) => c.retention_days is None && retention_text(c.retention_days).len() == 0,
            Err(_) => true,
        },
{
}

/// A repository of every destination, in order: none is dropped, and each
/// is its own destination's.
pub proof fn every_destination_has_its_repository(ds: Seq<DestinationView>)
    requires
        repositories_of(ds) is Ok,
    ensures
        repositories_of(ds)->Ok_0.len() == ds.len(),
        forall|i: int|
            0 <= i < ds.len() ==> repository_of(#[trigger] ds[i]) == Ok::<RepositoryView, ErrorView>(
                repositories_of(ds)->Ok_0[i],
            ),
    decreases ds.len(),
{
    if ds.len() > 0 {
        every_destination_has_its_repository(ds.drop_last());
        let v = repositories_of(ds)->Ok_0;
        assert forall|i: int| 0 <= i < ds.len() implies repository_of(#[trigger] ds[i]) == Ok::<
            RepositoryView,
            ErrorView,
        >(v[i]) by {
            if i < ds.len() - 1 {
                assert(ds.drop_last()[i] == ds[i]);
            }
        }
    }
}

/// A local repository is told nothing about TLS, and a repository elsewhere
/// is always told whose certificates to trust.
pub proof fn tls_settings(r: RepositoryView)
    ensures
        r.kind is Posix && r.verify_tls ==> forall|i: int|
            0 <= i < derived_settings(r).len() ==> {
                &&& (#[trigger] derived_settings(r)[i]).0 != "storage-ca-file"@
                &&& derived_settings(r)[i].0 != "storage-verify-tls"@
            },
        !(r.kind is Posix) ==> derived_settings(r).last() == (
            "storage-ca-file"@,
            PGBACKREST_CA_FILE@,
        ),
{
    reveal_strlit("storage-ca-file");
    reveal_strlit("storage-verify-tls");
    reveal_strlit("type");
    reveal_strlit("path");
    reveal_strlit("storage-port");
    assert("storage-port"@.len() == 12);
    assert("type"@.len() == 4);
    assert("path"@.len() == 4);
    assert("storage-ca-file"@.len() == 15);
    assert("storage-verify-tls"@.len() == 18);
}

/// The values that settings give a key, in order. pgBackRest takes the last.
pub open spec fn given(s: Seq<(Seq<char>, Seq<char>)>, key: Seq<char>) -> Seq<Seq<char>>
    decreases s.len(),
{
    if s.len() == 0 {
        Seq::empty()
    } else if s.last().0 == key {
        given(s.drop_last(), key).push(s.last().1)
    } else {
        given(s.drop_last(), key)
    }
}

/// One value, where there is one.
pub open spec fn at_most(o: Option<Seq<char>>) -> Seq<Seq<char>> {
    match o {
        Some(v) => seq![v],
        None => Seq::empty(),
    }
}

proof fn given_after(s: Seq<(Seq<char>, Seq<char>)>, k: Seq<char>, v: Seq<char>, key: Seq<char>)
    ensures
        given(s.push((k, v)), key) == (if k == key {
            given(s, key).push(v)
        } else {
            given(s, key)
        }),
{
    assert(s.push((k, v)).drop_last() =~= s);
}

/// The keys are all different.
proof fn keys_differ()
    ensures
        "type"@ != "path"@,
        "type"@.len() == 4,
        "path"@.len() == 4,
        "s3-bucket"@.len() == 9,
        "s3-region"@.len() == 9,
        "s3-bucket"@ != "s3-region"@,
        "gcs-bucket"@.len() == 10,
        "s3-endpoint"@.len() == 11,
        "s3-uri-style"@.len() == 12,
        "gcs-key-type"@.len() == 12,
        "storage-port"@.len() == 12,
        "s3-uri-style"@ != "gcs-key-type"@,
        "s3-uri-style"@ != "storage-port"@,
        "gcs-key-type"@ != "storage-port"@,
        "azure-account"@.len() == 13,
        "azure-container"@.len() == 15,
        "storage-ca-file"@.len() == 15,
        "azure-container"@ != "storage-ca-file"@,
        "storage-verify-tls"@.len() == 18,
{
    reveal_strlit("type");
    reveal_strlit("path");
    reveal_strlit("s3-bucket");
    reveal_strlit("s3-region");
    reveal_strlit("gcs-bucket");
    reveal_strlit("s3-endpoint");
    reveal_strlit("s3-uri-style");
    reveal_strlit("gcs-key-type");
    reveal_strlit("storage-port");
    reveal_strlit("azure-account");
    reveal_strlit("azure-container");
    reveal_strlit("storage-ca-file");
    reveal_strlit("storage-verify-tls");
    assert("type"@[0] == 't' && "path"@[0] == 'p');
    assert("s3-bucket"@[3] == 'b' && "s3-region"@[3] == 'r');
    assert("s3-uri-style"@[1] == '3' && "gcs-key-type"@[1] == 'c' && "storage-port"@[1] == 't');
    assert("azure-container"@[0] == 'a' && "storage-ca-file"@[0] == 's');
}

proof fn given_of_kind(kind: RepoKindView, key: Seq<char>)
    ensures
        given(kind_settings(kind), key) == (match kind {
            RepoKindView::Posix => if key == "type"@ {
                seq!["posix"@]
            } else {
                Seq::empty()
            },
            RepoKindView::S3 { bucket, endpoint, region } => if key == "type"@ {
                seq!["s3"@]
            } else if key == "s3-bucket"@ {
                seq![bucket]
            } else if key == "s3-endpoint"@ {
                at_most(endpoint)
            } else if key == "s3-region"@ {
                at_most(region)
            } else if key == "s3-uri-style"@ {
                seq!["path"@]
            } else {
                Seq::empty()
            },
            RepoKindView::Gcs { bucket } => if key == "type"@ {
                seq!["gcs"@]
            } else if key == "gcs-bucket"@ {
                seq![bucket]
            } else if key == "gcs-key-type"@ {
                seq!["auto"@]
            } else {
                Seq::empty()
            },
            RepoKindView::Azure { container, account } => if key == "type"@ {
                seq!["azure"@]
            } else if key == "azure-container"@ {
                seq![container]
            } else if key == "azure-account"@ {
                at_most(account)
            } else {
                Seq::empty()
            },
        }),
{
    keys_differ();
    let e = Seq::<(Seq<char>, Seq<char>)>::empty();
    let none = Seq::<Seq<char>>::empty();
    assert(given(e, key) == none);
    match kind {
        RepoKindView::Posix => {
            given_after(e, "type"@, "posix"@, key);
            assert(kind_settings(kind) =~= e.push(("type"@, "posix"@)));
            assert(none.push("posix"@) =~= seq!["posix"@]);
        },
        RepoKindView::S3 { bucket, endpoint, region } => {
            given_after(e, "type"@, "s3"@, key);
            let s1 = e.push(("type"@, "s3"@));
            given_after(s1, "s3-bucket"@, bucket, key);
            let s2 = s1.push(("s3-bucket"@, bucket));
            assert(s2 =~= seq![("type"@, "s3"@), ("s3-bucket"@, bucket)]);
            let s3 = match endpoint {
                Some(h) => {
                    given_after(s2, "s3-endpoint"@, h, key);
                    s2.push(("s3-endpoint"@, h))
                },
                None => s2,
            };
            let s4 = match region {
                Some(r) => {
                    given_after(s3, "s3-region"@, r, key);
                    s3.push(("s3-region"@, r))
                },
                None => s3,
            };
            given_after(s4, "s3-uri-style"@, "path"@, key);
            assert(given(kind_settings(kind), key) == given(
                s4.push(("s3-uri-style"@, "path"@)),
                key,
            ));
            assert(none.push("s3"@) =~= seq!["s3"@]);
            assert(none.push(bucket) =~= seq![bucket]);
            assert(none.push("path"@) =~= seq!["path"@]);
            if let Some(h) = endpoint {
                assert(none.push(h) =~= seq![h]);
            }
            if let Some(r) = region {
                assert(none.push(r) =~= seq![r]);
            }
        },
        RepoKindView::Gcs { bucket } => {
            given_after(e, "type"@, "gcs"@, key);
            let s1 = e.push(("type"@, "gcs"@));
            given_after(s1, "gcs-bucket"@, bucket, key);
            let s2 = s1.push(("gcs-bucket"@, bucket));
            given_after(s2, "gcs-key-type"@, "auto"@, key);
            assert(kind_settings(kind) =~= s2.push(("gcs-key-type"@, "auto"@)));
            assert(none.push("gcs"@) =~= seq!["gcs"@]);
            assert(none.push(bucket) =~= seq![bucket]);
            assert(none.push("auto"@) =~= seq!["auto"@]);
        },
        RepoKindView::Azure { container, account } => {
            given_after(e, "type"@, "azure"@, key);
            let s1 = e.push(("type"@, "azure"@));
            given_after(s1, "azure-container"@, container, key);
            let s2 = s1.push(("azure-container"@, container));
            assert(s2 =~= seq![("type"@, "azure"@), ("azure-container"@, container)]);
            if let Some(a) = account {
                given_after(s2, "azure-account"@, a, key);
                assert(none.push(a) =~= seq![a]);
            }
            assert(none.push("azure"@) =~= seq!["azure"@]);
            assert(none.push(container) =~= seq![container]);
        },
    }
}

proof fn given_of_derived(r: RepositoryView, key: Seq<char>)
    ensures
        given(derived_settings(r), key) == (if key == "path"@ {
            seq![r.path]
        } else if key == "storage-port"@ {
            match r.port {
                Some(p) => seq![decimal(p as nat)],
                None => Seq::empty(),
            }
        } else if key == "storage-verify-tls"@ {
            if r.verify_tls {
                Seq::empty()
            } else {
                seq!["n"@]
            }
        } else if key == "storage-ca-file"@ {
            if r.kind is Posix {
                Seq::empty()
            } else {
                seq![PGBACKREST_CA_FILE@]
            }
        } else {
            given(kind_settings(r.kind), key)
        }),
{
    keys_differ();
    given_of_kind(r.kind, key);
    let none = Seq::<Seq<char>>::empty();
    let s0 = kind_settings(r.kind);
    given_after(s0, "path"@, r.path, key);
    let s1 = s0.push(("path"@, r.path));
    let s2 = match r.port {
        Some(p) => {
            given_after(s1, "storage-port"@, decimal(p as nat), key);
            assert(none.push(decimal(p as nat)) =~= seq![decimal(p as nat)]);
            s1.push(("storage-port"@, decimal(p as nat)))
        },
        None => s1,
    };
    given_after(s2, "storage-verify-tls"@, "n"@, key);
    let s3 = if r.verify_tls {
        s2
    } else {
        s2.push(("storage-verify-tls"@, "n"@))
    };
    given_after(s3, "storage-ca-file"@, PGBACKREST_CA_FILE@, key);
    assert(none.push(r.path) =~= seq![r.path]);
    assert(none.push("n"@) =~= seq!["n"@]);
    assert(none.push(PGBACKREST_CA_FILE@) =~= seq![PGBACKREST_CA_FILE@]);
}

/// An S3 repository is told its bucket, its endpoint and its region, each under
/// its own key and once, and an endpoint or region that the destination does
/// not name is not set.
pub proof fn an_s3_repository_is_told_where_it_is(
    r: RepositoryView,
    bucket: Seq<char>,
    endpoint: Option<Seq<char>>,
    region: Option<Seq<char>>,
)
    requires
        r.kind == (RepoKindView::S3 { bucket, endpoint, region }),
    ensures
        given(derived_settings(r), "type"@) == seq!["s3"@],
        given(derived_settings(r), "s3-bucket"@) == seq![bucket],
        endpoint matches Some(e) ==> given(derived_settings(r), "s3-endpoint"@) == seq![e],
        endpoint is None ==> given(derived_settings(r), "s3-endpoint"@).len() == 0,
        region matches Some(g) ==> given(derived_settings(r), "s3-region"@) == seq![g],
        region is None ==> given(derived_settings(r), "s3-region"@).len() == 0,
        given(derived_settings(r), "s3-uri-style"@) == seq!["path"@],
        given(derived_settings(r), "gcs-bucket"@).len() == 0,
        given(derived_settings(r), "azure-container"@).len() == 0,
{
    keys_differ();
    given_of_kind(r.kind, "type"@);
    given_of_kind(r.kind, "s3-bucket"@);
    given_of_kind(r.kind, "s3-endpoint"@);
    given_of_kind(r.kind, "s3-region"@);
    given_of_kind(r.kind, "s3-uri-style"@);
    given_of_kind(r.kind, "gcs-bucket"@);
    given_of_kind(r.kind, "azure-container"@);
    given_of_derived(r, "type"@);
    given_of_derived(r, "s3-bucket"@);
    given_of_derived(r, "s3-endpoint"@);
    given_of_derived(r, "s3-region"@);
    given_of_derived(r, "s3-uri-style"@);
    given_of_derived(r, "gcs-bucket"@);
    given_of_derived(r, "azure-container"@);
}

/// A repository elsewhere is told its type, its bucket or container, and how
/// it is to be authorised; one on this host only that it is.
pub proof fn any_other_repository_is_told_where_it_is(r: RepositoryView)
    ensures
        r.kind is Posix ==> given(derived_settings(r), "type"@) == seq!["posix"@],
        r.kind matches RepoKindView::Gcs { bucket } ==> given(derived_settings(r), "type"@) == seq![
            "gcs"@,
        ] && given(derived_settings(r), "gcs-bucket"@) == seq![bucket] && given(
            derived_settings(r),
            "gcs-key-type"@,
        ) == seq!["auto"@] && given(derived_settings(r), "s3-bucket"@).len() == 0,
        r.kind matches RepoKindView::Azure { container, account } ==> given(
            derived_settings(r),
            "type"@,
        ) == seq!["azure"@] && given(derived_settings(r), "azure-container"@) == seq![container]
            && given(derived_settings(r), "azure-account"@) == at_most(account) && given(
            derived_settings(r),
            "s3-bucket"@,
        ).len() == 0,
{
    keys_differ();
    given_of_kind(r.kind, "type"@);
    given_of_kind(r.kind, "s3-bucket"@);
    given_of_kind(r.kind, "gcs-bucket"@);
    given_of_kind(r.kind, "gcs-key-type"@);
    given_of_kind(r.kind, "azure-container"@);
    given_of_kind(r.kind, "azure-account"@);
    given_of_derived(r, "type"@);
    given_of_derived(r, "s3-bucket"@);
    given_of_derived(r, "gcs-bucket"@);
    given_of_derived(r, "gcs-key-type"@);
    given_of_derived(r, "azure-container"@);
    given_of_derived(r, "azure-account"@);
}

/// Every repository is told its path; its port exactly where one was named;
/// not to verify certificates exactly where that was asked; and whose
/// certificates to trust exactly where it is not on this host.
pub proof fn every_repository_is_told_its_path_and_port(r: RepositoryView)
    ensures
        given(derived_settings(r), "path"@) == seq![r.path],
        r.port matches Some(p) ==> given(derived_settings(r), "storage-port"@) == seq![
            decimal(p as nat),
        ],
        r.port is None ==> given(derived_settings(r), "storage-port"@).len() == 0,
        !r.verify_tls ==> given(derived_settings(r), "storage-verify-tls"@) == seq!["n"@],
        r.verify_tls ==> given(derived_settings(r), "storage-verify-tls"@).len() == 0,
        !(r.kind is Posix) ==> given(derived_settings(r), "storage-ca-file"@) == seq![
            PGBACKREST_CA_FILE@,
        ],
        r.kind is Posix ==> given(derived_settings(r), "storage-ca-file"@).len() == 0,
{
    keys_differ();
    given_of_derived(r, "path"@);
    given_of_derived(r, "storage-port"@);
    given_of_derived(r, "storage-verify-tls"@);
    given_of_derived(r, "storage-ca-file"@);
}

proof fn given_of_both(
    a: Seq<(Seq<char>, Seq<char>)>,
    b: Seq<(Seq<char>, Seq<char>)>,
    key: Seq<char>,
)
    ensures
        given(a + b, key) == given(a, key) + given(b, key),
    decreases b.len(),
{
    if b.len() == 0 {
        assert(a + b =~= a);
        assert(given(a + b, key) =~= given(a, key) + given(b, key));
    } else {
        given_of_both(a, b.drop_last(), key);
        assert((a + b).drop_last() =~= a + b.drop_last());
        assert(given(a + b, key) =~= given(a, key) + given(b, key));
    }
}

/// An explicit option has the last word: where one is given its last value is
/// the last that is written, and where none is, what was derived stands.
pub proof fn an_explicit_option_wins(r: RepositoryView, key: Seq<char>)
    ensures
        given(repo_settings(r), key) == given(derived_settings(r), key) + given(r.extra, key),
        given(r.extra, key).len() > 0 ==> given(repo_settings(r), key).last() == given(
            r.extra,
            key,
        ).last(),
        given(r.extra, key).len() == 0 ==> given(repo_settings(r), key) == given(
            derived_settings(r),
            key,
        ),
{
    given_of_both(derived_settings(r), r.extra, key);
    assert(given(r.extra, key).len() == 0 ==> given(derived_settings(r), key) + given(r.extra, key)
        =~= given(derived_settings(r), key));
}

/// Credentials are options too, and come behind the manifest's own.
pub proof fn credentials_correct_the_manifest(
    r: RepositoryView,
    more: Seq<(Seq<char>, Seq<char>)>,
    key: Seq<char>,
)
    ensures
        given(repo_settings(with_extra(r, more)), key) == given(repo_settings(r), key) + given(
            more,
            key,
        ),
        with_extra(r, more).kind == r.kind,
        with_extra(r, more).path == r.path,
        with_extra(r, more).port == r.port,
        with_extra(r, more).verify_tls == r.verify_tls,
{
    let t = with_extra(r, more);
    given_of_both(derived_settings(r), r.extra, key);
    given_of_both(derived_settings(t), t.extra, key);
    given_of_both(r.extra, more, key);
    assert(given(derived_settings(r), key) + (given(r.extra, key) + given(more, key)) =~= given(
        derived_settings(r),
        key,
    ) + given(r.extra, key) + given(more, key));
}

proof fn a_setting_has_its_line(n: nat, s: Seq<(Seq<char>, Seq<char>)>, i: int)
    requires
        0 <= i < s.len(),
    ensures
        occurs(
            setting_lines(n, s),
            "repo"@ + decimal(n) + "-"@ + s[i].0 + "="@ + s[i].1 + "\n"@,
        ),
    decreases s.len(),
{
    let line = setting_line(n, s[i]);
    let before = setting_lines(n, s.drop_last());
    let none = Seq::<char>::empty();
    if i == s.len() - 1 {
        a_part_occurs(before, line, none);
        assert(setting_lines(n, s) =~= before + line + none);
    } else {
        a_setting_has_its_line(n, s.drop_last(), i);
        assert(s.drop_last()[i] == s[i]);
        a_part_of_a_part_occurs(none, before, setting_line(n, s.last()), line);
        assert(setting_lines(n, s) =~= none + before + setting_line(n, s.last()));
    }
}

proof fn a_repository_has_its_lines(repos: Seq<RepositoryView>, k: int, i: int)
    requires
        0 <= k < repos.len(),
        0 <= i < repo_settings(repos[k]).len(),
    ensures
        occurs(
            repositories_text(repos),
            "repo"@ + decimal((k + 1) as nat) + "-"@ + repo_settings(repos[k])[i].0 + "="@
                + repo_settings(repos[k])[i].1 + "\n"@,
        ),
    decreases repos.len(),
{
    let line = setting_line((k + 1) as nat, repo_settings(repos[k])[i]);
    let before = repositories_text(repos.drop_last());
    let last = setting_lines(repos.len(), repo_settings(repos.last()));
    let none = Seq::<char>::empty();
    if k == repos.len() - 1 {
        a_setting_has_its_line(repos.len(), repo_settings(repos[k]), i);
        a_part_of_a_part_occurs(before, last, none, line);
        assert(repositories_text(repos) =~= before + last + none);
    } else {
        assert(repos.drop_last()[k] == repos[k]);
        a_repository_has_its_lines(repos.drop_last(), k, i);
        a_part_of_a_part_occurs(none, before, last, line);
        assert(repositories_text(repos) =~= none + before + last);
    }
}

/// What is written behind the repositories.
spec fn after_repositories(c: ConfigView) -> Seq<char> {
    retention_text(c.retention_days) + global_text(c.compress_level) + section_text(c.stanza)
        + match c.recovery_stanza {
        Some(s) => section_text(s),
        None => Seq::empty(),
    }
}

/// Every setting of every repository is written, as `repoN-key=value` on a
/// line, with the number of the repository counted from one.
pub proof fn every_setting_is_written(c: ConfigView, k: int, i: int)
    requires
        0 <= k < c.repositories.len(),
        0 <= i < repo_settings(c.repositories[k]).len(),
    ensures
        occurs(
            config_text(c),
            "repo"@ + decimal((k + 1) as nat) + "-"@ + repo_settings(c.repositories[k])[i].0 + "="@
                + repo_settings(c.repositories[k])[i].1 + "\n"@,
        ),
{
    let line = setting_line((k + 1) as nat, repo_settings(c.repositories[k])[i]);
    let text = repositories_text(c.repositories);
    a_repository_has_its_lines(c.repositories, k, i);
    a_part_of_a_part_occurs(HEADER@, text, after_repositories(c), line);
    assert(config_text(c) =~= HEADER@ + text + after_repositories(c));
}

/// A given value is one of the settings.
proof fn what_is_given_is_set(s: Seq<(Seq<char>, Seq<char>)>, key: Seq<char>) -> (i: int)
    requires
        given(s, key).len() > 0,
    ensures
        0 <= i < s.len(),
        s[i] == (key, given(s, key).last()),
    decreases s.len(),
{
    if s.last().0 == key {
        s.len() - 1
    } else {
        what_is_given_is_set(s.drop_last(), key)
    }
}

/// In the written file an S3 repository's endpoint stands on the line of its
/// endpoint, and its region on the line of its region.
pub proof fn an_s3_repository_is_written(
    c: ConfigView,
    k: int,
    bucket: Seq<char>,
    endpoint: Option<Seq<char>>,
    region: Option<Seq<char>>,
)
    requires
        0 <= k < c.repositories.len(),
        c.repositories[k].kind == (RepoKindView::S3 { bucket, endpoint, region }),
    ensures
        endpoint matches Some(e) ==> occurs(
            config_text(c),
            "repo"@ + decimal((k + 1) as nat) + "-"@ + "s3-endpoint"@ + "="@ + e + "\n"@,
        ),
        region matches Some(g) ==> occurs(
            config_text(c),
            "repo"@ + decimal((k + 1) as nat) + "-"@ + "s3-region"@ + "="@ + g + "\n"@,
        ),
        occurs(
            config_text(c),
            "repo"@ + decimal((k + 1) as nat) + "-"@ + "s3-bucket"@ + "="@ + bucket + "\n"@,
        ),
{
    let r = c.repositories[k];
    let d = derived_settings(r);
    an_s3_repository_is_told_where_it_is(r, bucket, endpoint, region);
    let i = what_is_given_is_set(d, "s3-bucket"@);
    assert(repo_settings(r)[i] == d[i]);
    every_setting_is_written(c, k, i);
    if endpoint is Some {
        let i = what_is_given_is_set(d, "s3-endpoint"@);
        assert(repo_settings(r)[i] == d[i]);
        every_setting_is_written(c, k, i);
    }
    if region is Some {
        let i = what_is_given_is_set(d, "s3-region"@);
        assert(repo_settings(r)[i] == d[i]);
        every_setting_is_written(c, k, i);
    }
}

/// The file names the cluster's stanza, and the one it is restored from where
/// there is one, and the retention window exactly where one is kept.
pub proof fn stanzas_and_retention_are_written(c: ConfigView)
    ensures
        occurs(config_text(c), "\n["@ + c.stanza + "]\n"@),
        c.recovery_stanza matches Some(s) ==> occurs(config_text(c), "\n["@ + s + "]\n"@),
        c.retention_days matches Some(d) ==> occurs(
            config_text(c),
            "repo1-retention-full-type"@ + "="@ + "time"@ + "\n"@ + ("repo1-retention-full"@ + "="@
                + decimal(d as nat) + "\n"@),
        ),
        c.retention_days is None ==> retention_text(c.retention_days).len() == 0,
{
    let none = Seq::<char>::empty();
    let head = HEADER@ + repositories_text(c.repositories) + retention_text(c.retention_days)
        + global_text(c.compress_level);
    let last = match c.recovery_stanza {
        Some(s) => section_text(s),
        None => Seq::empty(),
    };
    a_section_starts_with_its_name(c.stanza);
    a_part_of_a_part_occurs(head, section_text(c.stanza), last, "\n["@ + c.stanza + "]\n"@);
    assert(config_text(c) =~= head + section_text(c.stanza) + last);
    if let Some(s) = c.recovery_stanza {
        a_section_starts_with_its_name(s);
        a_part_of_a_part_occurs(
            head + section_text(c.stanza),
            section_text(s),
            none,
            "\n["@ + s + "]\n"@,
        );
        assert(config_text(c) =~= head + section_text(c.stanza) + section_text(s) + none);
    }
    if let Some(d) = c.retention_days {
        let a = assignment("repo1-retention-full-type"@, "time"@);
        let b = assignment("repo1-retention-full"@, decimal(d as nat));
        let t = retention_text(c.retention_days);
        a_part_occurs(RETENTION_NOTE@, a + b, none);
        assert(t =~= RETENTION_NOTE@ + (a + b) + none);
        let before = HEADER@ + repositories_text(c.repositories);
        let after = global_text(c.compress_level) + section_text(c.stanza) + last;
        a_part_of_a_part_occurs(before, t, after, a + b);
        assert(config_text(c) =~= before + t + after);
    }
}

proof fn a_section_starts_with_its_name(stanza: Seq<char>)
    ensures
        occurs(section_text(stanza), "\n["@ + stanza + "]\n"@),
{
    let none = Seq::<char>::empty();
    let name = "\n["@ + stanza + "]\n"@;
    let rest = assignment("pg1-path"@, PGDATA@) + assignment("pg1-port"@, "5432"@) + assignment(
        "pg1-socket-path"@,
        SOCKET_DIR@,
    );
    a_part_occurs(none, name, rest);
    assert(section_text(stanza) =~= none + name + rest);
}

// ---- what a destination means ----------------------------------------

proof fn scheme_ends_at_its_colon(scheme: Seq<char>, rest: Seq<char>)
    requires
        !scheme.contains(':'),
    ensures
        split_first(scheme + "://"@ + rest, "://"@) == Some((scheme, rest)),
{
    reveal_strlit("://");
    let u = scheme + "://"@ + rest;
    let n = scheme.len() as int;
    assert(u.subrange(n, n + 3) =~= "://"@);
    assert(is_at(u, "://"@, n));
    assert forall|k: int| 0 <= k < n implies !#[trigger] is_at(u, "://"@, k) by {
        if is_at(u, "://"@, k) {
            assert(u.subrange(k, k + 3)[0] == ':');
            assert(scheme[k] == ':');
        }
    }
    split_first_at(u, "://"@, n);
    assert(u.subrange(0, n) =~= scheme);
    assert(u.subrange(n + 3, u.len() as int) =~= rest);
}

proof fn head_ends_at_its_slash(head: Seq<char>, tail: Seq<char>)
    requires
        !head.contains('/'),
    ensures
        split_first(head + "/"@ + tail, "/"@) == Some((head, tail)),
{
    reveal_strlit("/");
    let u = head + "/"@ + tail;
    let n = head.len() as int;
    assert(u.subrange(n, n + 1) =~= "/"@);
    assert(is_at(u, "/"@, n));
    assert forall|k: int| 0 <= k < n implies !#[trigger] is_at(u, "/"@, k) by {
        if is_at(u, "/"@, k) {
            assert(u.subrange(k, k + 1)[0] == '/');
            assert(head[k] == '/');
        }
    }
    split_first_at(u, "/"@, n);
    assert(u.subrange(0, n) =~= head);
    assert(u.subrange(n + 1, u.len() as int) =~= tail);
}

/// The schemes are all different, and none holds a colon.
proof fn schemes_differ()
    ensures
        "s3"@ != "file"@ && "s3a"@ != "file"@ && "gs"@ != "file"@ && "az"@ != "file"@,
        "abfs"@ != "file"@ && "abfss"@ != "file"@,
        "gs"@ != "s3"@ && "gs"@ != "s3a"@,
        "az"@ != "s3"@ && "az"@ != "s3a"@ && "az"@ != "gs"@,
        "abfs"@ != "s3"@ && "abfs"@ != "s3a"@ && "abfs"@ != "gs"@,
        "abfss"@ != "s3"@ && "abfss"@ != "s3a"@ && "abfss"@ != "gs"@,
        !"s3"@.contains(':') && !"s3a"@.contains(':') && !"gs"@.contains(':'),
        !"az"@.contains(':') && !"abfs"@.contains(':') && !"abfss"@.contains(':'),
        !"file"@.contains(':'),
{
    reveal_strlit("file");
    reveal_strlit("s3");
    reveal_strlit("s3a");
    reveal_strlit("gs");
    reveal_strlit("az");
    reveal_strlit("abfs");
    reveal_strlit("abfss");
    assert("s3"@[0] == 's' && "gs"@[0] == 'g' && "az"@[0] == 'a');
    assert("abfs"@[0] == 'a' && "file"@[0] == 'f' && "abfss"@[0] == 'a');
}

/// The kind of repository that a scheme stands for.
pub open spec fn kind_by_scheme(
    kind: RepoKindView,
    scheme: Seq<char>,
    bucket: Seq<char>,
    host: Option<Seq<char>>,
    region: Option<Seq<char>>,
) -> bool {
    &&& scheme == "s3"@ || scheme == "s3a"@ ==> kind == (RepoKindView::S3 {
        bucket,
        endpoint: host,
        region,
    })
    &&& scheme == "gs"@ ==> kind == (RepoKindView::Gcs { bucket })
    &&& scheme == "az"@ || scheme == "abfs"@ || scheme == "abfss"@ ==> kind == (
    RepoKindView::Azure { container: bucket, account: region })
}

/// `scheme://bucket/prefix` is the bucket of that name in the store the scheme
/// stands for, at the endpoint and in the region that the destination names,
/// below that prefix. What else the destination says of it is kept.
pub proof fn a_bucket_url_names_its_bucket(
    d: DestinationView,
    scheme: Seq<char>,
    bucket: Seq<char>,
    prefix: Seq<char>,
    host: Option<Seq<char>>,
    port: Option<u16>,
)
    requires
        scheme == "s3"@ || scheme == "s3a"@ || scheme == "gs"@ || scheme == "az"@ || scheme
            == "abfs"@ || scheme == "abfss"@,
        trimmed(d.url) == scheme + "://"@ + (bucket + "/"@ + prefix),
        bucket.len() > 0,
        !bucket.contains('/'),
        endpoint_of(d.endpoint) == Ok::<_, ErrorView>((host, port)),
    ensures
        repository_of(d) matches Ok(r) && {
            &&& kind_by_scheme(r.kind, scheme, bucket, host, d.region)
            &&& r.path == "/"@ + trimmed_of(prefix, '/')
            &&& r.port == port
            &&& r.verify_tls == d.verify_tls
            &&& r.extra == d.options
        },
{
    schemes_differ();
    scheme_ends_at_its_colon(scheme, bucket + "/"@ + prefix);
    head_ends_at_its_slash(bucket, prefix);
}

/// A bucket alone is the whole of it.
pub proof fn a_bucket_alone_has_no_prefix(
    d: DestinationView,
    scheme: Seq<char>,
    bucket: Seq<char>,
    host: Option<Seq<char>>,
    port: Option<u16>,
)
    requires
        scheme == "s3"@ || scheme == "s3a"@ || scheme == "gs"@ || scheme == "az"@ || scheme
            == "abfs"@ || scheme == "abfss"@,
        trimmed(d.url) == scheme + "://"@ + bucket,
        !bucket.contains('/'),
        endpoint_of(d.endpoint) == Ok::<_, ErrorView>((host, port)),
    ensures
        bucket.len() > 0 ==> (repository_of(d) matches Ok(r) && kind_by_scheme(
            r.kind,
            scheme,
            bucket,
            host,
            d.region,
        ) && r.path == "/"@ && r.port == port && r.verify_tls == d.verify_tls && r.extra
            == d.options),
        bucket.len() == 0 ==> repository_of(d) is Err,
{
    schemes_differ();
    scheme_ends_at_its_colon(scheme, bucket);
    reveal_strlit("/");
    reveal_strlit("");
    assert(!occurs(bucket, "/"@)) by {
        if occurs(bucket, "/"@) {
            let i = choose|i: int| is_at(bucket, "/"@, i);
            assert(bucket.subrange(i, i + 1)[0] == '/');
            assert(bucket[i] == '/');
        }
    }
    split_first_nowhere(bucket, "/"@);
    assert(trimmed_of(""@, '/') =~= Seq::<char>::empty());
    assert("/"@ + trimmed_of(""@, '/') =~= "/"@);
}

/// `file:///path` is that path on this host; a host is refused, and so is no
/// path.
pub proof fn a_file_url_names_its_path(d: DestinationView, head: Seq<char>, path: Seq<char>)
    requires
        trimmed(d.url) == "file"@ + "://"@ + (head + "/"@ + path),
        !head.contains('/'),
        head.len() > 0 || path.len() > 0,
    ensures
        head.len() > 0 ==> repository_of(d) is Err,
        head.len() == 0 ==> (repository_of(d) matches Ok(r) && r.kind is Posix && r.path == "/"@
            + trimmed_of(path, '/') && r.port is None && r.verify_tls && r.extra == d.options),
{
    schemes_differ();
    scheme_ends_at_its_colon("file"@, head + "/"@ + path);
    head_ends_at_its_slash(head, path);
}

/// Only these schemes are known, and a destination must have one.
pub proof fn an_unknown_scheme_is_refused(d: DestinationView)
    requires
        repository_of(d) is Ok,
    ensures
        exists|scheme: Seq<char>, rest: Seq<char>| #[trigger]
            (scheme + "://"@ + rest) == trimmed(d.url) && (scheme == "file"@ || scheme == "s3"@
                || scheme == "s3a"@ || scheme == "gs"@ || scheme == "az"@ || scheme == "abfs"@
                || scheme == "abfss"@),
{
    let url = trimmed(d.url);
    find_from_is_first(url, "://"@, 0);
    let (scheme, rest) = split_first(url, "://"@)->0;
    assert(scheme + "://"@ + rest =~= url);
}

/// `host:port` is that host at that port; a bare host is itself, with no port;
/// what looks like a URL is refused.
pub proof fn an_endpoint_is_a_host_and_a_port(e: Seq<char>, host: Seq<char>, port: u16)
    ensures
        endpoint_of(None) matches Ok(p) && p.0 is None && p.1 is None,
        occurs(trimmed(e), "://"@) ==> endpoint_of(Some(e)) is Err,
        !occurs(trimmed(e), "://"@) && trimmed(e) == host.push(':') + decimal(port as nat)
            ==> endpoint_of(Some(e)) == Ok::<_, ErrorView>((Some(host), Some(port))),
        !occurs(trimmed(e), "://"@) && trimmed(e) == host && !host.contains(':') ==> endpoint_of(
            Some(e),
        ) == Ok::<_, ErrorView>((Some(host), None::<u16>)),
{
    let raw = trimmed(e);
    if !occurs(raw, "://"@) && raw == host.push(':') + decimal(port as nat) {
        a_number_reads_back(port as nat, u16::MAX as nat);
        let i = host.len() as int;
        assert forall|k: int| i < k < raw.len() implies raw[k] != ':' by {
            assert(raw[k] == decimal(port as nat)[k - i - 1]);
        }
        split_last_at(raw, ':', i);
        assert(raw.subrange(0, i) =~= host);
        assert(raw.subrange(i + 1, raw.len() as int) =~= decimal(port as nat));
    }
    if raw == host && !host.contains(':') {
        nothing_to_split(raw, ':');
    }
}

proof fn nothing_to_split(s: Seq<char>, c: char)
    requires
        !s.contains(c),
    ensures
        split_last(s, c) is None,
    decreases s.len(),
{
    if s.len() > 0 {
        assert(s[s.len() - 1] != c);
        assert(!s.drop_last().contains(c)) by {
            if s.drop_last().contains(c) {
                let k = choose|k: int| 0 <= k < s.len() - 1 && s.drop_last()[k] == c;
                assert(s[k] == c);
            }
        }
        nothing_to_split(s.drop_last(), c);
    }
}

/// A port that is taken from an endpoint is what stands behind its last colon.
pub proof fn a_port_must_be_a_number(e: Seq<char>)
    requires
        endpoint_of(Some(e)) is Ok,
        trimmed(e).contains(':'),
    ensures
        endpoint_of(Some(e))->Ok_0.1 is Some,
        '0' <= trimmed(e).last() <= '9',
{
    let raw = trimmed(e);
    let i = last_of(raw, ':');
    split_last_at(raw, ':', i);
    let port = raw.subrange(i + 1, raw.len() as int);
    only_digits_parse(port, u16::MAX as nat);
    assert(port.last() == raw.last());
    if port.len() == 1 {
        assert(port[0] != '+');
    }
}

proof fn last_of(s: Seq<char>, c: char) -> (i: int)
    requires
        s.contains(c),
    ensures
        0 <= i < s.len(),
        s[i] == c,
        forall|k: int| i < k < s.len() ==> s[k] != c,
    decreases s.len(),
{
    if s.last() == c {
        s.len() - 1
    } else {
        let t = s.drop_last();
        let k = choose|k: int| 0 <= k < s.len() && s[k] == c;
        assert(t[k] == c);
        let i = last_of(t, c);
        assert forall|j: int| i < j < s.len() implies s[j] != c by {
            if j < s.len() - 1 {
                assert(t[j] == s[j]);
            }
        }
        i
    }
}

proof fn digits_go(d: Seq<char>, rest: Seq<char>)
    requires
        forall|i: int| 0 <= i < d.len() ==> '0' <= #[trigger] d[i] <= '9',
        rest.len() > 0 ==> !('0' <= rest[0] <= '9'),
    ensures
        drop_leading(d + rest, ascii_digit()) == rest,
    decreases d.len(),
{
    let s = d + rest;
    if d.len() > 0 {
        assert(s[0] == d[0]);
        let t = d.subrange(1, d.len() as int);
        assert(s.subrange(1, s.len() as int) =~= t + rest);
        assert forall|i: int| 0 <= i < t.len() implies '0' <= #[trigger] t[i] <= '9' by {
            assert(t[i] == d[i + 1]);
        }
        digits_go(t, rest);
        assert(ascii_digit()(s[0]));
    } else {
        assert(s =~= rest);
        if rest.len() > 0 {
            assert(!ascii_digit()(rest[0]));
        }
    }
}

/// A window of so many days is so many days.
pub proof fn a_window_is_its_days(window: Seq<char>, n: u32)
    requires
        trimmed(window) == decimal(n as nat) + "d"@,
    ensures
        n > 0 ==> days_of(window) == Ok::<u32, ErrorView>(n),
        n == 0 ==> days_of(window) is Err,
{
    reveal_strlit("d");
    a_number_reads_back(n as nat, u32::MAX as nat);
    digits_go(decimal(n as nat), "d"@);
    let w = trimmed(window);
    assert(w.take(w.len() - 1) =~= decimal(n as nat));
}

/// A window that is accepted ends with `d`, has nothing but digits before it,
/// and is a day at least.
pub proof fn only_days_are_accepted(window: Seq<char>)
    requires
        days_of(window) is Ok,
    ensures
        days_of(window)->Ok_0 > 0,
        trimmed(window).len() >= 2,
        trimmed(window).last() == 'd',
        forall|i: int|
            0 <= i < trimmed(window).len() - 1 ==> '0' <= #[trigger] trimmed(window)[i] <= '9',
{
    reveal_strlit("d");
    let w = trimmed(window);
    let unit = drop_leading(w, ascii_digit());
    leading_digits(w);
    let value = w.take(w.len() - unit.len());
    only_digits_parse(value, u32::MAX as nat);
    assert(w.last() == unit.last());
}

proof fn leading_digits(w: Seq<char>)
    ensures
        drop_leading(w, ascii_digit()).len() <= w.len(),
        drop_leading(w, ascii_digit()) == w.subrange(
            w.len() - drop_leading(w, ascii_digit()).len(),
            w.len() as int,
        ),
        forall|i: int|
            0 <= i < w.len() - drop_leading(w, ascii_digit()).len() ==> '0' <= #[trigger] w[i]
                <= '9',
    decreases w.len(),
{
    let r = drop_leading(w, ascii_digit());
    if w.len() > 0 && ascii_digit()(w[0]) {
        let t = w.subrange(1, w.len() as int);
        leading_digits(t);
        assert(r =~= w.subrange(w.len() - r.len(), w.len() as int));
        assert forall|i: int| 0 <= i < w.len() - r.len() implies '0' <= #[trigger] w[i] <= '9' by {
            if i > 0 {
                assert(t[i - 1] == w[i]);
            }
        }
    } else {
        assert(r =~= w.subrange(w.len() - r.len(), w.len() as int));
    }
}

/// A configuration is of one to four destinations, each of them understood,
/// for the stanza it was asked for. A window is kept exactly where enforcement
/// and a window were asked for.
pub proof fn a_configuration_is_what_was_asked_for(
    stanza: Seq<char>,
    ds: Seq<DestinationView>,
    window: Option<Seq<char>>,
    mode: RetentionMode,
)
    ensures
        config_of(stanza, ds, window, mode) matches Ok(c) ==> {
            &&& 1 <= ds.len() <= 4
            &&& c.stanza == stanza
            &&& c.recovery_stanza is None
            &&& c.compress_level == 3
            &&& c.repositories.len() == ds.len()
            &&& forall|i: int|
                0 <= i < ds.len() ==> repository_of(#[trigger] ds[i]) == Ok::<
                    RepositoryView,
                    ErrorView,
                >(c.repositories[i])
            &&& mode == RetentionMode::Report ==> c.retention_days is None
            &&& mode == RetentionMode::Enforce && window is None ==> c.retention_days is None
            &&& mode == RetentionMode::Enforce ==> (window matches Some(w) ==> (days_of(
                w,
            ) matches Ok(d) && c.retention_days == Some(d)))
        },
        ds.len() == 0 ==> config_of(stanza, ds, window, mode) == Err::<ConfigView, ErrorView>(
            ErrorView::NoDestinations,
        ),
        ds.len() > 4 ==> config_of(stanza, ds, window, mode) is Err,
{
    if config_of(stanza, ds, window, mode) is Ok {
        every_destination_has_its_repository(ds);
    }
}

/// A configuration is refused only for a reason: too few or too many
/// destinations, one that is not understood, or a window that is not.
pub proof fn a_good_configuration_is_accepted(
    stanza: Seq<char>,
    ds: Seq<DestinationView>,
    window: Option<Seq<char>>,
    mode: RetentionMode,
)
    requires
        1 <= ds.len() <= 4,
        forall|i: int| 0 <= i < ds.len() ==> repository_of(#[trigger] ds[i]) is Ok,
        window is None || mode == RetentionMode::Report || days_of(window->0) is Ok,
    ensures
        config_of(stanza, ds, window, mode) is Ok,
{
    good_destinations(ds);
}

proof fn good_destinations(ds: Seq<DestinationView>)
    requires
        forall|i: int| 0 <= i < ds.len() ==> repository_of(#[trigger] ds[i]) is Ok,
    ensures
        repositories_of(ds) is Ok,
    decreases ds.len(),
{
    if ds.len() > 0 {
        assert forall|i: int| 0 <= i < ds.len() - 1 implies repository_of(
            #[trigger] ds.drop_last()[i],
        ) is Ok by {
            assert(ds.drop_last()[i] == ds[i]);
        }
        good_destinations(ds.drop_last());
        assert(repository_of(ds[ds.len() - 1]) is Ok);
    }
}

/// A line `key=value` of a credentials secret is that option, up to its first
/// equals sign; a line without one is none.
pub proof fn a_credentials_line_is_an_option(
    before: Seq<Seq<char>>,
    line: Seq<char>,
    key: Seq<char>,
    value: Seq<char>,
)
    ensures
        !key.contains('=') && trimmed(line) == key.push('=') + value ==> options_in(
            before.push(line),
        ) == options_in(before).push((key, value)),
        !trimmed(line).contains('=') ==> options_in(before.push(line)) == options_in(before),
        options_in(Seq::empty()).len() == 0,
{
    reveal_strlit("=");
    let t = trimmed(line);
    assert(before.push(line).drop_last() =~= before);
    assert forall|k: int| 0 <= k < t.len() implies #[trigger] is_at(t, "="@, k) == (t[k]
        == '=') by {
        assert(t.subrange(k, k + 1)[0] == t[k]);
        if t[k] == '=' {
            assert(t.subrange(k, k + 1) =~= "="@);
        }
    }
    if !key.contains('=') && t == key.push('=') + value {
        let n = key.len() as int;
        assert(is_at(t, "="@, n));
        assert forall|k: int| 0 <= k < n implies !#[trigger] is_at(t, "="@, k) by {
            assert(t[k] == key[k]);
        }
        split_first_at(t, "="@, n);
        assert(t.subrange(0, n) =~= key);
        assert(t.subrange(n + 1, t.len() as int) =~= value);
    }
    if !t.contains('=') {
        find_from_is_first(t, "="@, 0);
        split_first_nowhere(t, "="@);
        assert forall|k: int| 0 <= k implies !#[trigger] is_at(t, "="@, k) by {
            if k < t.len() {
                assert(t[k] != '=');
            }
        }
    }
}

/// What `Repository::settings` gives back of an S3 repository: its endpoint
/// under the endpoint's key and its region under the region's, as long as the
/// manifest gives neither as an option.
pub proof fn what_an_s3_repository_is_set_to(
    repo: Repository,
    bucket: Seq<char>,
    endpoint: Option<Seq<char>>,
    region: Option<Seq<char>>,
    r: Vec<(String, String)>,
)
    requires
        call_ensures(Repository::settings, (&repo,), r),
        repo@.kind == (RepoKindView::S3 { bucket, endpoint, region }),
        given(repo@.extra, "s3-bucket"@).len() == 0,
        given(repo@.extra, "s3-endpoint"@).len() == 0,
        given(repo@.extra, "s3-region"@).len() == 0,
    ensures
        given(pair_texts(r@), "s3-bucket"@) == seq![bucket],
        given(pair_texts(r@), "s3-endpoint"@) == at_most(endpoint),
        given(pair_texts(r@), "s3-region"@) == at_most(region),
{
    an_s3_repository_is_told_where_it_is(repo@, bucket, endpoint, region);
    an_explicit_option_wins(repo@, "s3-bucket"@);
    an_explicit_option_wins(repo@, "s3-endpoint"@);
    an_explicit_option_wins(repo@, "s3-region"@);
}

/// A stanza is recovered from only where it is another one, and nothing else
/// of the configuration changes.
pub proof fn another_stanza_is_recovered_from(
    c: PgBackRestConfig,
    stanza: Option<String>,
    r: PgBackRestConfig,
)
    requires
        call_ensures(PgBackRestConfig::with_recovery_stanza, (c, stanza), r),
    ensures
        stanza is None ==> r@.recovery_stanza is None,
        stanza matches Some(s) ==> {
            &&& s@ == c@.stanza ==> r@.recovery_stanza is None
            &&& s@ != c@.stanza ==> r@.recovery_stanza == Some(s@)
        },
        r@.stanza == c@.stanza,
        r@.repositories == c@.repositories,
{
}

} // verus!
