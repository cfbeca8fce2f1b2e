//! `pgpod doctor`: whether this host can run pgpod.
//!
//! What podman does not report is never taken for fine, and everything that
//! fails says what to do about it.

use crate::text::{
    a_number_reads_back, append_decimal, append_left, debug_form, debug_quoted, decimal, lines, lines_of,
    opt_text, padded_right, parse_up_to, parsed, push_text, same, spaces, split, split_on, texts,
    trim_prefixes, without_prefixes, append_all, concatenated, };
use vstd::prelude::*;
use vstd::string::*;
use vstd::utf8::encode_utf8;

verus! {

/// The oldest podman that is supported.
pub const MIN_PODMAN_MAJOR: u32 = 5;

/// Less free space than this is warned of.
pub const GRAPH_ROOT_FREE_WARN_BYTES: u64 = 10_737_418_240;

/// A lower limit of open files than this is warned of.
pub const NOFILE_WARN: u64 = 4096;

/// How a check came out.
#[derive(Debug, Clone, Copy, PartialEq, Eq, Structural)]
pub enum Status {
    Pass,
    Warn,
    Fail,
    Unknown,
}

impl Status {
    /// Four characters.
    pub open spec fn mark(&self) -> Seq<char> {
        match *self {
            Status::Pass => "ok  "@,
            Status::Warn => "warn"@,
            Status::Fail => "FAIL"@,
            Status::Unknown => "?   "@,
        }
    }

    /// Four characters.
    pub fn glyph(&self) -> (r: &'static str)
        ensures
            r@ == self.mark(),
    {
        match self {
            Status::Pass => "ok  ",
            Status::Warn => "warn",
            Status::Fail => "FAIL",
            Status::Unknown => "?   ",
        }
    }
}

/// One check.
#[derive(Debug, Clone)]
pub struct Check {
    pub name: String,
    pub status: Status,
    pub detail: String,
    pub hint: Option<String>,
}

/// [`Check`], over text.
pub struct CheckView {
    pub name: Seq<char>,
    pub status: Status,
    pub detail: Seq<char>,
    pub hint: Option<Seq<char>>,
}

impl View for Check {
    type V = CheckView;

    open spec fn view(&self) -> CheckView {
        CheckView {
            name: self.name@,
            status: self.status,
            detail: self.detail@,
            hint: opt_text(self.hint),
        }
    }
}

pub open spec fn passes(name: Seq<char>, detail: Seq<char>) -> CheckView {
    CheckView { name, status: Status::Pass, detail, hint: None }
}

pub open spec fn warns(name: Seq<char>, detail: Seq<char>, hint: Seq<char>) -> CheckView {
    CheckView { name, status: Status::Warn, detail, hint: Some(hint) }
}

pub open spec fn fails(name: Seq<char>, detail: Seq<char>, hint: Seq<char>) -> CheckView {
    CheckView { name, status: Status::Fail, detail, hint: Some(hint) }
}

/// What to run to find out what a check could not.
pub open spec fn inquiry(name: Seq<char>) -> Seq<char> {
    if name == "podman api"@ {
        "systemctl --user enable --now podman.socket"@
    } else if name == "podman version"@ {
        "podman version"@
    } else if name == "open files"@ {
        "ulimit -n"@
    } else {
        "podman info"@
    }
}

pub open spec fn open_question(name: Seq<char>, detail: Seq<char>) -> CheckView {
    CheckView { name, status: Status::Unknown, detail, hint: Some(inquiry(name)) }
}

fn inquiry_of(name: &str) -> (r: &'static str)
    ensures
        r@ == inquiry(name@),
{
    if same(name, "podman api") {
        "systemctl --user enable --now podman.socket"
    } else if same(name, "podman version") {
        "podman version"
    } else if same(name, "open files") {
        "ulimit -n"
    } else {
        "podman info"
    }
}

impl Check {
    /// A check that passed.
    pub fn pass(name: &str, detail: &str) -> (r: Self)
        ensures
            r@ == passes(name@, detail@),
    {
        Check {
            name: name.to_owned(),
            status: Status::Pass,
            detail: detail.to_owned(),
            hint: None,
        }
    }

    /// A check that is worth a look.
    pub fn warn(name: &str, detail: &str, hint: &str) -> (r: Self)
        ensures
            r@ == warns(name@, detail@, hint@),
    {
        Check {
            name: name.to_owned(),
            status: Status::Warn,
            detail: detail.to_owned(),
            hint: Some(hint.to_owned()),
        }
    }

    /// A check that failed.
    pub fn fail(name: &str, detail: &str, hint: &str) -> (r: Self)
        ensures
            r@ == fails(name@, detail@, hint@),
    {
        Check {
            name: name.to_owned(),
            status: Status::Fail,
            detail: detail.to_owned(),
            hint: Some(hint.to_owned()),
        }
    }

    /// A check that could not be made, with what to run to make it by hand.
    pub fn unknown(name: &str, detail: &str) -> (r: Self)
        ensures
            r@ == open_question(name@, detail@),
    {
        Check {
            name: name.to_owned(),
            status: Status::Unknown,
            detail: detail.to_owned(),
            hint: Some(inquiry_of(name).to_owned()),
        }
    }
}

/// What podman says of its host.
#[derive(Debug, Clone)]
pub struct PodmanInfo {
    pub server_version: Option<String>,
    pub api_version: Option<String>,
    pub rootless: Option<bool>,
    pub network_backend: Option<String>,
    pub cgroup_version: Option<String>,
    pub cgroup_manager: Option<String>,
    pub oci_runtime: Option<String>,
    pub subuid_count: u64,
    pub subgid_count: u64,
    pub graph_root: Option<String>,
    pub graph_driver: Option<String>,
    pub graph_root_allocated: Option<u64>,
    pub graph_root_used: Option<u64>,
}

impl PodmanInfo {
    /// podman said nothing.
    pub open spec fn is_silent(&self) -> bool {
        &&& self.server_version is None
        &&& self.api_version is None
        &&& self.rootless is None
        &&& self.network_backend is None
        &&& self.cgroup_version is None
        &&& self.cgroup_manager is None
        &&& self.oci_runtime is None
        &&& self.subuid_count == 0
        &&& self.subgid_count == 0
        &&& self.graph_root is None
        &&& self.graph_driver is None
        &&& self.graph_root_allocated is None
        &&& self.graph_root_used is None
    }
}

impl Default for PodmanInfo {
    fn default() -> (r: Self)
        ensures
            r.is_silent(),
    {
        PodmanInfo {
            server_version: None,
            api_version: None,
            rootless: None,
            network_backend: None,
            cgroup_version: None,
            cgroup_manager: None,
            oci_runtime: None,
            subuid_count: 0,
            subgid_count: 0,
            graph_root: None,
            graph_driver: None,
            graph_root_allocated: None,
            graph_root_used: None,
        }
    }
}

/// A text that may not have been reported.
pub open spec fn or_else(o: Option<String>, otherwise: Seq<char>) -> Seq<char> {
    match o {
        Some(s) => s@,
        None => otherwise,
    }
}

fn text_or<'a>(o: &'a Option<String>, otherwise: &'a str) -> (r: &'a str)
    ensures
        r@ == or_else(*o, otherwise@),
{
    match o {
        Some(s) => s.as_str(),
        None => otherwise,
    }
}

// ---- the host --------------------------------------------------------

pub open spec fn root_check(uid: u32) -> CheckView {
    if uid == 0 {
        fails(
            "not root"@,
            "running as uid 0"@,
            "pgpod is rootless by design — run as an unprivileged user"@,
        )
    } else {
        passes("not root"@, "uid "@ + decimal(uid as nat))
    }
}

/// Whether this is an ordinary user: pgpod is rootless.
pub fn check_not_root(uid: u32) -> (r: Check)
    ensures
        r@ == root_check(uid),
{
    if uid == 0 {
        Check::fail(
            "not root",
            "running as uid 0",
            "pgpod is rootless by design — run as an unprivileged user",
        )
    } else {
        let mut d = "uid ".to_owned();
        append_decimal(&mut d, uid as u64);
        Check::pass("not root", d.as_str())
    }
}

pub const SOCKET_HINT: &'static str =
    "systemctl --user enable --now podman.socket\n\
             loginctl enable-linger $(id -un)";

pub const SESSION_HINT: &'static str =
    "\nXDG_RUNTIME_DIR is unset — if you reached this shell via \
                 `sudo -iu`, use `sudo -Hu` and export XDG_RUNTIME_DIR and \
                 DBUS_SESSION_BUS_ADDRESS explicitly";

pub open spec fn socket_check(
    path: Seq<char>,
    via: Seq<char>,
    guessed: bool,
    exists: bool,
) -> CheckView {
    if exists {
        passes("podman socket"@, path + " (via "@ + via + ")"@)
    } else {
        fails(
            "podman socket"@,
            "not found at "@ + path + " (via "@ + via + ")"@,
            if guessed {
                SOCKET_HINT@ + SESSION_HINT@
            } else {
                SOCKET_HINT@
            },
        )
    }
}

/// Whether podman's socket is there. Where its place was only guessed from
/// the user's id, the session is the likelier trouble.
pub fn check_socket(path: &str, via: &str, guessed: bool, exists: bool) -> (r: Check)
    ensures
        r@ == socket_check(path@, via@, guessed, exists),
{
    if exists {
        let mut d = path.to_owned();
        d.append(" (via ");
        d.append(via);
        d.append(")");
        Check::pass("podman socket", d.as_str())
    } else {
        let mut hint = SOCKET_HINT.to_owned();
        if guessed {
            hint.append(SESSION_HINT);
        }
        let mut d = "not found at ".to_owned();
        d.append(path);
        d.append(" (via ");
        d.append(via);
        d.append(")");
        Check::fail("podman socket", d.as_str(), hint.as_str())
    }
}

/// What came of asking podman.
#[derive(Debug, Clone)]
pub enum Asked {
    NoSocket,
    Silent(String),
    NoInfo(String),
    /// What podman says of its host, and what is read out of that.
    Info { info: PodmanInfo, read: Readings },
}

/// What is read out of podman's own account, where it can be.
#[derive(Debug, Clone, Copy)]
pub struct Readings {
    /// The first two parts of its version.
    pub parts: Option<(u32, u32)>,
    /// Whether its network backend is netavark.
    pub netavark: Option<bool>,
    /// How many bytes are free where it keeps its volumes.
    pub free: Option<u64>,
}

/// What is checked of podman's answers. Without a socket it is one open
/// question, not a wall of failures with one cause.
pub open spec fn podman_checks(a: Asked) -> Seq<CheckView> {
    match a {
        Asked::NoSocket => seq![open_question("podman api"@, "skipped — no socket to talk to"@)],
        Asked::Silent(e) => seq![
            fails(
                "podman api"@,
                "socket exists but the daemon did not answer: "@ + e@,
                "systemctl --user restart podman.socket"@,
            ),
        ],
        Asked::NoInfo(e) => seq![
            passes("podman api"@, "responding to /_ping"@),
            fails(
                "podman info"@,
                "could not read host info: "@ + e@,
                "check `podman info` directly"@,
            ),
        ],
        Asked::Info { info, read } => seq![passes("podman api"@, "responding to /_ping"@)]
            + info_checks_of(info, read),
    }
}

// ---- podman ----------------------------------------------------------

/// The first two parts of a version.
pub open spec fn version_parts(v: Seq<char>) -> Option<(u32, u32)> {
    let parts = split_on(v, '.');
    if parts.len() < 2 {
        None
    } else {
        match (parsed(parts[0], u32::MAX as nat), parsed(parts[1], u32::MAX as nat)) {
            (Some(a), Some(b)) => Some((a as u32, b as u32)),
            _ => None,
        }
    }
}

pub open spec fn server_parts(i: PodmanInfo) -> Option<(u32, u32)> {
    match i.server_version {
        Some(v) => version_parts(v@),
        None => None,
    }
}

fn server_version_parts(i: &PodmanInfo) -> (r: Option<(u32, u32)>)
    ensures
        r == server_parts(*i),
{
    match &i.server_version {
        None => None,
        Some(v) => {
            let parts = split(v.as_str(), '.');
            let ghost all = split_on(v@, '.');
            assert(all.len() == parts.len());
            if parts.len() < 2 {
                return None;
            }
            assert(parts@[0]@ == all[0] && parts@[1]@ == all[1]);
            match (
                parse_up_to(parts[0].as_str(), u32::MAX as u64),
                parse_up_to(parts[1].as_str(), u32::MAX as u64),
            ) {
                (Some(a), Some(b)) => Some((a as u32, b as u32)),
                _ => None,
            }
        },
    }
}

/// Whether podman is recent enough, by the parts of its version.
pub open spec fn version_check_of(i: PodmanInfo, parts: Option<(u32, u32)>) -> CheckView {
    let reported = or_else(i.server_version, "unknown"@);
    let api = or_else(i.api_version, "unknown"@);
    match parts {
        None => open_question("podman version"@, "could not parse "@ + debug_form(reported)),
        Some((major, minor)) => if major < MIN_PODMAN_MAJOR {
            fails(
                "podman version"@,
                reported + " (need >= "@ + decimal(MIN_PODMAN_MAJOR as nat) + ".0)"@,
                "Ubuntu 26.04 ships podman 5.7; on older releases install a backport"@,
            )
        } else {
            passes(
                "podman version"@,
                "server "@ + decimal(major as nat) + "."@ + decimal(minor as nat) + " ("@ + reported
                    + "), libpod api "@ + api,
            )
        },
    }
}

/// Whether podman is recent enough, by what it says of its version.
pub open spec fn version_check(i: PodmanInfo) -> CheckView {
    version_check_of(i, server_parts(i))
}

/// Whether podman is recent enough, by what it says of its version.
pub fn check_version(i: &PodmanInfo) -> (r: Check)
    ensures
        r@ == version_check(*i),
{
    check_version_of(i, server_version_parts(i))
}

/// Whether podman is recent enough, by the parts of its version.
pub fn check_version_of(i: &PodmanInfo, parts: Option<(u32, u32)>) -> (r: Check)
    ensures
        r@ == version_check_of(*i, parts),
{
    let reported = text_or(&i.server_version, "unknown");
    let api = text_or(&i.api_version, "unknown");
    match parts {
        None => {
            let mut d = "could not parse ".to_owned();
            d.append(debug_quoted(reported).as_str());
            Check::unknown("podman version", d.as_str())
        },
        Some((major, minor)) => {
            if major < MIN_PODMAN_MAJOR {
                let mut d = reported.to_owned();
                d.append(" (need >= ");
                append_decimal(&mut d, MIN_PODMAN_MAJOR as u64);
                d.append(".0)");
                Check::fail(
                    "podman version",
                    d.as_str(),
                    "Ubuntu 26.04 ships podman 5.7; on older releases install a backport",
                )
            } else {
                let mut d = "server ".to_owned();
                append_decimal(&mut d, major as u64);
                d.append(".");
                append_decimal(&mut d, minor as u64);
                d.append(" (");
                d.append(reported);
                d.append("), libpod api ");
                d.append(api);
                Check::pass("podman version", d.as_str())
            }
        },
    }
}

pub open spec fn rootless_check(i: PodmanInfo) -> CheckView {
    match i.rootless {
        Some(true) => passes("rootless"@, "podman is running rootless"@),
        Some(false) => fails(
            "rootless"@,
            "podman reports it is running as root"@,
            "pgpod refuses a rootful podman — use the user socket, not the system one"@,
        ),
        None => open_question("rootless"@, "podman did not report a security section"@),
    }
}

/// Whether podman is rootless.
pub fn check_rootless(i: &PodmanInfo) -> (r: Check)
    ensures
        r@ == rootless_check(*i),
{
    match i.rootless {
        Some(true) => Check::pass("rootless", "podman is running rootless"),
        Some(false) => Check::fail(
            "rootless",
            "podman reports it is running as root",
            "pgpod refuses a rootful podman — use the user socket, not the system one",
        ),
        None => Check::unknown("rootless", "podman did not report a security section"),
    }
}

pub const NETAVARK_HINT: &'static str =
    "add to /etc/containers/containers.conf:\n\
             [network]\n\
             network_backend = \"netavark\"\n\
             then: podman system reset  (destroys existing containers)";

/// Whether podman's network backend is netavark, where it says which it is.
pub open spec fn uses_netavark(i: PodmanInfo) -> Option<bool> {
    match i.network_backend {
        None => None,
        Some(b) => Some(b@ == "netavark"@),
    }
}

fn is_netavark(i: &PodmanInfo) -> (r: Option<bool>)
    ensures
        r == uses_netavark(*i),
{
    match &i.network_backend {
        None => None,
        Some(b) => Some(same(b.as_str(), "netavark")),
    }
}

pub open spec fn network_check_of(i: PodmanInfo, netavark: Option<bool>) -> CheckView {
    match netavark {
        None => open_question("network backend"@, "podman did not report it"@),
        Some(true) => passes("network backend"@, "netavark"@),
        Some(false) => fails(
            "network backend"@,
            or_else(i.network_backend, "unknown"@)
                + " — pgpod needs netavark for container-name DNS"@,
            NETAVARK_HINT@,
        ),
    }
}

/// Whether containers find each other by name, by podman's own account.
pub fn check_network_backend(i: &PodmanInfo) -> (r: Check)
    ensures
        r@ == network_check_of(*i, uses_netavark(*i)),
{
    check_network_of(i, is_netavark(i))
}

/// Whether containers find each other by name: netavark lets them.
pub fn check_network_of(i: &PodmanInfo, netavark: Option<bool>) -> (r: Check)
    ensures
        r@ == network_check_of(*i, netavark),
{
    match netavark {
        None => Check::unknown("network backend", "podman did not report it"),
        Some(true) => Check::pass("network backend", "netavark"),
        Some(false) => {
            let mut d = text_or(&i.network_backend, "unknown").to_owned();
            d.append(" — pgpod needs netavark for container-name DNS");
            Check::fail("network backend", d.as_str(), NETAVARK_HINT)
        },
    }
}

pub open spec fn cgroups_check(i: PodmanInfo) -> CheckView {
    match i.cgroup_version {
        None => open_question("cgroups"@, "podman did not report a cgroup version"@),
        Some(v) => {
            let version = without_prefixes(v@, "v"@);
            if version == "2"@ {
                passes(
                    "cgroups"@,
                    "v2 ("@ + or_else(i.cgroup_manager, "unknown manager"@) + ")"@,
                )
            } else {
                fails(
                    "cgroups"@,
                    "v"@ + version + " — rootless resource limits need v2"@,
                    "boot with systemd.unified_cgroup_hierarchy=1"@,
                )
            }
        },
    }
}

/// Whether resources can be limited. podman says `2` or `v2`.
pub fn check_cgroups(i: &PodmanInfo) -> (r: Check)
    ensures
        r@ == cgroups_check(*i),
{
    match &i.cgroup_version {
        None => Check::unknown("cgroups", "podman did not report a cgroup version"),
        Some(v) => {
            proof {
                reveal_strlit("v");
            }
            let version = trim_prefixes(v.as_str(), "v");
            if same(version, "2") {
                let mut d = "v2 (".to_owned();
                d.append(text_or(&i.cgroup_manager, "unknown manager"));
                d.append(")");
                Check::pass("cgroups", d.as_str())
            } else {
                let mut d = "v".to_owned();
                d.append(version);
                d.append(" — rootless resource limits need v2");
                Check::fail(
                    "cgroups",
                    d.as_str(),
                    "boot with systemd.unified_cgroup_hierarchy=1",
                )
            }
        },
    }
}

pub open spec fn runtime_check(i: PodmanInfo) -> CheckView {
    match i.oci_runtime {
        Some(n) => passes("oci runtime"@, n@),
        None => open_question("oci runtime"@, "podman did not report one"@),
    }
}

/// Which runtime podman uses.
pub fn check_oci_runtime(i: &PodmanInfo) -> (r: Check)
    ensures
        r@ == runtime_check(*i),
{
    match &i.oci_runtime {
        Some(n) => Check::pass("oci runtime", n.as_str()),
        None => Check::unknown("oci runtime", "podman did not report one"),
    }
}

pub const SUBID_TAIL: &'static str =
    " — containers are confined to a single UID, \
                 so postgres (uid 999) cannot start";

pub const SUBID_HINT: &'static str =
    "sudo usermod --add-subuids 100000-165535 --add-subgids 100000-165535 $(id -un)\n\
             podman system migrate";

pub open spec fn subid_check(i: PodmanInfo) -> CheckView {
    if i.subuid_count == 0 || i.subgid_count == 0 {
        fails(
            "subuid/subgid"@,
            "subuid="@ + decimal(i.subuid_count as nat) + " subgid="@ + decimal(
                i.subgid_count as nat,
            ) + SUBID_TAIL@,
            SUBID_HINT@,
        )
    } else {
        passes(
            "subuid/subgid"@,
            decimal(i.subuid_count as nat) + " subuids, "@ + decimal(i.subgid_count as nat)
                + " subgids"@,
        )
    }
}

/// Whether a container can run as another user than this one.
pub fn check_subids(i: &PodmanInfo) -> (r: Check)
    ensures
        r@ == subid_check(*i),
{
    if i.subuid_count == 0 || i.subgid_count == 0 {
        let mut d = "subuid=".to_owned();
        append_decimal(&mut d, i.subuid_count);
        d.append(" subgid=");
        append_decimal(&mut d, i.subgid_count);
        d.append(SUBID_TAIL);
        return Check::fail("subuid/subgid", d.as_str(), SUBID_HINT);
    }
    let mut d = String::new();
    append_decimal(&mut d, i.subuid_count);
    assert(d@ =~= decimal(i.subuid_count as nat));
    d.append(" subuids, ");
    append_decimal(&mut d, i.subgid_count);
    d.append(" subgids");
    Check::pass("subuid/subgid", d.as_str())
}

pub const GRAPH_HINT: &'static str =
    "PGDATA lives here, not under your home directory.\n\
             Set `graphroot` in ~/.config/containers/storage.conf BEFORE \
             creating clusters — moving it later means moving live databases.";

/// The free space, where podman reports enough to know it.
pub open spec fn free_space(i: PodmanInfo) -> Option<u64> {
    match (i.graph_root_allocated, i.graph_root_used) {
        (Some(a), Some(u)) => Some(
            if u > a {
                0
            } else {
                (a - u) as u64
            },
        ),
        _ => None,
    }
}

fn free_space_of(i: &PodmanInfo) -> (r: Option<u64>)
    ensures
        r == free_space(*i),
{
    match (i.graph_root_allocated, i.graph_root_used) {
        (Some(a), Some(u)) => Some(
            if u > a {
                0
            } else {
                a - u
            },
        ),
        _ => None,
    }
}

pub open spec fn graph_check_of(i: PodmanInfo, free: Option<u64>) -> CheckView {
    let place = or_else(i.graph_root, "unknown"@) + " ("@ + or_else(i.graph_driver, "unknown"@)
        + ")"@;
    match free {
        None => open_question(
            "graph root"@,
            place + " — podman did not report free space"@,
        ),
        Some(free) => if free < GRAPH_ROOT_FREE_WARN_BYTES {
            warns("graph root"@, place + ", "@ + human(free) + " free"@, GRAPH_HINT@)
        } else {
            passes("graph root"@, place + ", "@ + human(free) + " free"@)
        },
    }
}

/// Whether there is room for databases, by podman's own account.
pub fn check_graph_root(i: &PodmanInfo) -> (r: Check)
    ensures
        r@ == graph_check_of(*i, free_space(*i)),
{
    check_graph_of(i, free_space_of(i))
}

/// Whether there is room for databases. Little of it is the operator's
/// business, so it is not a failure.
pub fn check_graph_of(i: &PodmanInfo, free: Option<u64>) -> (r: Check)
    ensures
        r@ == graph_check_of(*i, free),
{
    let mut d = text_or(&i.graph_root, "unknown").to_owned();
    d.append(" (");
    d.append(text_or(&i.graph_driver, "unknown"));
    d.append(")");
    match free {
        None => {
            d.append(" — podman did not report free space");
            Check::unknown("graph root", d.as_str())
        },
        Some(free) => {
            d.append(", ");
            d.append(human_bytes(free).as_str());
            d.append(" free");
            if free < GRAPH_ROOT_FREE_WARN_BYTES {
                Check::warn("graph root", d.as_str(), GRAPH_HINT)
            } else {
                Check::pass("graph root", d.as_str())
            }
        },
    }
}

/// What is checked of podman's own account.
pub open spec fn info_checks(i: PodmanInfo) -> Seq<CheckView> {
    info_checks_of(i, readings(i))
}

/// What podman's own account says, read by this library.
pub open spec fn readings(i: PodmanInfo) -> Readings {
    Readings { parts: server_parts(i), netavark: uses_netavark(i), free: free_space(i) }
}

/// What is checked of podman's own account, given what is read out of it.
pub open spec fn info_checks_of(i: PodmanInfo, read: Readings) -> Seq<CheckView> {
    seq![
        version_check_of(i, read.parts),
        rootless_check(i),
        network_check_of(i, read.netavark),
        cgroups_check(i),
        runtime_check(i),
        subid_check(i),
        graph_check_of(i, read.free),
    ]
}

/// The views of several checks.
pub open spec fn check_views(v: Seq<Check>) -> Seq<CheckView> {
    v.map_values(|c: Check| c@)
}

fn put(v: &mut Vec<Check>, c: Check)
    ensures
        check_views(final(v)@) == check_views(old(v)@).push(c@),
{
    let ghost added = c@;
    v.push(c);
    assert(check_views(v@) =~= check_views(old(v)@).push(added));
}

/// Checks podman's own account.
pub fn checks_from_info(i: &PodmanInfo) -> (r: Vec<Check>)
    ensures
        check_views(r@) == info_checks(*i),
{
    checks_given(
        i,
        Readings {
            parts: server_version_parts(i),
            netavark: is_netavark(i),
            free: free_space_of(i),
        },
    )
}

fn checks_given(i: &PodmanInfo, read: Readings) -> (r: Vec<Check>)
    ensures
        check_views(r@) == info_checks_of(*i, read),
{
    let mut v: Vec<Check> = Vec::new();
    put(&mut v, check_version_of(i, read.parts));
    put(&mut v, check_rootless(i));
    put(&mut v, check_network_of(i, read.netavark));
    put(&mut v, check_cgroups(i));
    put(&mut v, check_oci_runtime(i));
    put(&mut v, check_subids(i));
    put(&mut v, check_graph_of(i, read.free));
    assert(check_views(v@) =~= info_checks_of(*i, read));
    v
}

/// Checks what podman answered.
pub fn checks_from_podman(a: &Asked) -> (r: Vec<Check>)
    ensures
        check_views(r@) == podman_checks(*a),
{
    let mut v: Vec<Check> = Vec::new();
    match a {
        Asked::NoSocket => {
            put(&mut v, Check::unknown("podman api", "skipped — no socket to talk to"));
        },
        Asked::Silent(e) => {
            let mut d = "socket exists but the daemon did not answer: ".to_owned();
            d.append(e.as_str());
            put(
                &mut v,
                Check::fail("podman api", d.as_str(), "systemctl --user restart podman.socket"),
            );
        },
        Asked::NoInfo(e) => {
            put(&mut v, Check::pass("podman api", "responding to /_ping"));
            let mut d = "could not read host info: ".to_owned();
            d.append(e.as_str());
            put(&mut v, Check::fail("podman info", d.as_str(), "check `podman info` directly"));
        },
        Asked::Info { info, read } => {
            put(&mut v, Check::pass("podman api", "responding to /_ping"));
            let ghost head = check_views(v@);
            let mut rest = checks_given(info, *read);
            let ghost tail = check_views(rest@);
            v.append(&mut rest);
            assert(check_views(v@) =~= head + tail);
        },
    }
    assert(check_views(v@) =~= podman_checks(*a));
    v
}

/// The limit of open files, or why it could not be read.
#[derive(Debug, Clone)]
pub enum FileLimit {
    Unreadable(String),
    Known { soft: u64, hard: u64 },
}

pub open spec fn nofile_check(l: FileLimit) -> CheckView {
    match l {
        FileLimit::Unreadable(e) => open_question(
            "open files"@,
            "could not read RLIMIT_NOFILE: "@ + e@,
        ),
        FileLimit::Known { soft, hard } => if soft < NOFILE_WARN {
            warns(
                "open files"@,
                "soft limit "@ + decimal(soft as nat) + " is low for a busy postgres"@,
                "raise to at least 4096: ulimit -n 4096"@,
            )
        } else {
            passes(
                "open files"@,
                "soft "@ + decimal(soft as nat) + ", hard "@ + decimal(hard as nat),
            )
        },
    }
}

/// Whether a busy server has files enough.
pub fn check_nofile(l: &FileLimit) -> (r: Check)
    ensures
        r@ == nofile_check(*l),
{
    match l {
        FileLimit::Unreadable(e) => {
            let mut d = "could not read RLIMIT_NOFILE: ".to_owned();
            d.append(e.as_str());
            Check::unknown("open files", d.as_str())
        },
        FileLimit::Known { soft, hard } => {
            if *soft < NOFILE_WARN {
                let mut d = "soft limit ".to_owned();
                append_decimal(&mut d, *soft);
                d.append(" is low for a busy postgres");
                Check::warn("open files", d.as_str(), "raise to at least 4096: ulimit -n 4096")
            } else {
                let mut d = "soft ".to_owned();
                append_decimal(&mut d, *soft);
                d.append(", hard ");
                append_decimal(&mut d, *hard);
                Check::pass("open files", d.as_str())
            }
        },
    }
}

pub open spec fn agent_check(path: Seq<char>, exists: bool) -> CheckView {
    if exists {
        passes("agent binary"@, path)
    } else {
        warns(
            "agent binary"@,
            "not present at "@ + path,
            "built and installed from Phase 1 — nothing uses it yet"@,
        )
    }
}

/// Whether the agent is installed. Its absence is not a failure of the host.
pub fn check_agent_binary(path: &str, exists: bool) -> (r: Check)
    ensures
        r@ == agent_check(path@, exists),
{
    if exists {
        Check::pass("agent binary", path)
    } else {
        let mut d = "not present at ".to_owned();
        d.append(path);
        Check::warn(
            "agent binary",
            d.as_str(),
            "built and installed from Phase 1 — nothing uses it yet",
        )
    }
}

// ---- sizes -----------------------------------------------------------

/// `a / b`, rounded to the nearest integer, and to the even one of two.
pub open spec fn half_even(a: nat, b: nat) -> nat
    recommends
        b > 0,
{
    let q = a / b;
    let r = a % b;
    if 2 * r < b || (2 * r == b && q % 2 == 0) {
        q
    } else {
        q + 1
    }
}

/// The distance between neighbouring numbers of 53 significant bits at `n`.
pub open spec fn gap(n: nat) -> nat
    decreases n,
{
    if n < 0x20_0000_0000_0000 {
        1
    } else {
        2 * gap(n / 2)
    }
}

/// `n` rounded to 53 significant bits.
pub open spec fn rounded(n: nat) -> nat {
    half_even(n, gap(n)) * gap(n)
}

/// The unit a size is shown in: its divisor and its name.
pub open spec fn unit_of(n: nat) -> (nat, Seq<char>) {
    if n < 0x10_0000 {
        (0x400, "KiB"@)
    } else if n < 0x4000_0000 {
        (0x10_0000, "MiB"@)
    } else if n < 0x100_0000_0000 {
        (0x4000_0000, "GiB"@)
    } else {
        (0x100_0000_0000, "TiB"@)
    }
}

/// A size in the largest unit, up to TiB, that leaves at least one, with one
/// decimal; bytes as they are. The number behind the decimal is that of
/// double precision: the size has 53 significant bits.
pub open spec fn human(n: u64) -> Seq<char> {
    if n < 1024 {
        decimal(n as nat) + " B"@
    } else {
        let (div, name) = unit_of(n as nat);
        let tenths = half_even(10 * rounded(n as nat), div);
        decimal(tenths / 10) + "."@ + decimal(tenths % 10) + " "@ + name
    }
}

fn rounded_division(a: u128, b: u128) -> (r: u128)
    requires
        0 < b <= 0x8000_0000_0000_0000_0000,
        a <= 0x8000_0000_0000_0000_0000,
    ensures
        r == half_even(a as nat, b as nat),
        r <= a + 1,
{
    let q: u128 = a / b;
    let rem: u128 = a % b;
    assert(q <= a) by (nonlinear_arith)
        requires
            q == a / b,
            b > 0,
    ;
    if 2 * rem < b || (2 * rem == b && q % 2 == 0) {
        q
    } else {
        q + 1
    }
}

fn gap_of(n: u64) -> (r: u64)
    ensures
        r == gap(n as nat),
        1 <= r,
        r == 1 || r <= n,
    decreases n,
{
    if n < 0x20_0000_0000_0000 {
        1
    } else {
        let g: u64 = gap_of(n / 2);
        2 * g
    }
}

fn round(n: u64) -> (r: u128)
    ensures
        r == rounded(n as nat),
        r <= 2 * n,
{
    let g: u64 = gap_of(n);
    let q: u128 = rounded_division(n as u128, g as u128);
    proof {
        let a = n as int;
        let b = g as int;
        assert(a == b * (a / b) + a % b && 0 <= a % b < b) by {
            vstd::arithmetic::div_mod::lemma_fundamental_div_mod(a, b);
            vstd::arithmetic::div_mod::lemma_mod_bound(a, b);
        }
        assert((a / b) * b <= a) by (nonlinear_arith)
            requires
                a == b * (a / b) + a % b,
                0 <= a % b,
        ;
        assert(q * g <= a + b) by (nonlinear_arith)
            requires
                q <= a / b + 1,
                (a / b) * b <= a,
                b == g,
                b > 0,
        ;
        if b == 1 {
            assert(a / 1 == a && a % 1 == 0) by (nonlinear_arith);
            assert(half_even(a as nat, 1) == a);
            assert(q * g == a) by (nonlinear_arith)
                requires
                    q == a,
                    g == 1,
            ;
        }
    }
    q * g as u128
}

/// A size for people.
pub fn human_bytes(n: u64) -> (r: String)
    ensures
        r@ == human(n),
{
    let mut s = String::new();
    if n < 1024 {
        append_decimal(&mut s, n);
        assert(s@ =~= decimal(n as nat));
        s.append(" B");
        return s;
    }
    let (div, name): (u128, &str) = if n < 0x10_0000 {
        (0x400, "KiB")
    } else if n < 0x4000_0000 {
        (0x10_0000, "MiB")
    } else if n < 0x100_0000_0000 {
        (0x4000_0000, "GiB")
    } else {
        (0x100_0000_0000, "TiB")
    };
    let tenths: u128 = rounded_division(10 * round(n), div);
    crate::text::append_wide_decimal(&mut s, tenths / 10);
    assert(s@ =~= decimal((tenths / 10) as nat));
    s.append(".");
    crate::text::append_wide_decimal(&mut s, tenths % 10);
    s.append(" ");
    s.append(name);
    s
}

// ---- the report ------------------------------------------------------

/// All checks, and whether the host can run pgpod.
#[derive(Debug)]
pub struct DoctorReport {
    pub checks: Vec<Check>,
    pub healthy: bool,
}

/// How many checks came out so.
pub open spec fn tally(v: Seq<CheckView>, s: Status) -> nat
    decreases v.len(),
{
    if v.len() == 0 {
        0
    } else {
        tally(v.drop_last(), s) + if v.last().status == s {
            1nat
        } else {
            0nat
        }
    }
}

/// Nothing failed.
pub open spec fn no_failure(v: Seq<CheckView>) -> bool {
    forall|i: int| 0 <= i < v.len() ==> (#[trigger] v[i]).status != Status::Fail
}

fn tally_of(v: &Vec<Check>, s: Status) -> (r: usize)
    ensures
        r == tally(check_views(v@), s),
{
    let ghost all = check_views(v@);
    let mut n: usize = 0;
    let mut i: usize = 0;
    assert(all.take(0) =~= Seq::empty());
    while i < v.len()
        invariant
            i <= v.len(),
            n <= i,
            all == check_views(v@),
            n == tally(all.take(i as int), s),
        decreases v.len() - i,
    {
        assert(all.take(i + 1).drop_last() =~= all.take(i as int));
        if v[i].status == s {
            n = n + 1;
        }
        i = i + 1;
    }
    assert(all.take(i as int) =~= all);
    n
}

/// The width of the names: the longest one's bytes, and at least four.
pub open spec fn name_width(v: Seq<CheckView>) -> nat
    decreases v.len(),
{
    if v.len() == 0 {
        4
    } else {
        let before = name_width(v.drop_last());
        let here = encode_utf8(v.last().name).len() as usize as nat;
        if here > before {
            here
        } else {
            before
        }
    }
}

fn width_of(v: &Vec<Check>) -> (r: usize)
    ensures
        r == name_width(check_views(v@)),
{
    let ghost all = check_views(v@);
    let mut w: usize = 4;
    let mut i: usize = 0;
    assert(all.take(0) =~= Seq::empty());
    while i < v.len()
        invariant
            i <= v.len(),
            all == check_views(v@),
            w == name_width(all.take(i as int)),
        decreases v.len() - i,
    {
        assert(all.take(i + 1).drop_last() =~= all.take(i as int));
        assert(all.take(i + 1).last() == v@[i as int]@);
        let here: usize = v[i].name.as_str().len();
        if here > w {
            w = here;
        }
        i = i + 1;
    }
    assert(all.take(i as int) =~= all);
    w
}

/// A line of a hint, below its check.
pub open spec fn hint_line(line: Seq<char>, width: nat) -> Seq<char> {
    "         "@ + spaces(width) + "  → "@ + line + "\n"@
}

/// A check and its hint, as lines.
pub open spec fn check_lines(c: CheckView, width: nat) -> Seq<char> {
    let head = "  ["@ + c.status.mark() + "] "@ + padded_right(c.name, width) + "  "@ + c.detail
        + "\n"@;
    match c.hint {
        None => head,
        Some(h) => head + concatenated(
            lines_of(h).map_values(|l: Seq<char>| hint_line(l, width)),
        ),
    }
}

fn append_check(out: &mut String, c: &Check, width: usize)
    ensures
        final(out)@ == old(out)@ + check_lines(c@, width as nat),
{
    let ghost start = out@;
    out.append("  [");
    out.append(c.status.glyph());
    out.append("] ");
    append_left(out, c.name.as_str(), width);
    out.append("  ");
    out.append(c.detail.as_str());
    out.append("\n");
    let ghost head = "  ["@ + c@.status.mark() + "] "@ + padded_right(c@.name, width as nat)
        + "  "@ + c@.detail + "\n"@;
    assert(out@ =~= start + head);
    if let Some(h) = &c.hint {
        let ls = lines(h.as_str());
        let ghost all = lines_of(h@);
        let ghost want = all.map_values(|l: Seq<char>| hint_line(l, width as nat));
        let mut parts: Vec<String> = Vec::new();
        let mut i: usize = 0;
        assert(all.len() == ls.len());
        assert(texts(parts@) =~= want.take(0));
        while i < ls.len()
            invariant
                i <= ls.len(),
                texts(ls@) == all,
                all.len() == ls.len(),
                want == all.map_values(|l: Seq<char>| hint_line(l, width as nat)),
                texts(parts@) == want.take(i as int),
            decreases ls.len() - i,
        {
            let mut s = "         ".to_owned();
            append_left(&mut s, "", width);
            proof {
                reveal_strlit("");
                assert(padded_right(""@, width as nat) =~= spaces(width as nat));
            }
            s.append("  → ");
            s.append(ls[i].as_str());
            s.append("\n");
            assert(ls@[i as int]@ == all[i as int]);
            assert(s@ == want[i as int]);
            push_text(&mut parts, s);
            assert(texts(parts@) =~= want.take(i + 1));
            i = i + 1;
        }
        assert(want.take(want.len() as int) =~= want);
        append_all(out, &parts);
        assert(out@ =~= start + check_lines(c@, width as nat));
    }
}

/// What the report ends with.
pub open spec fn verdict(healthy: bool, fails: nat, warns: nat) -> Seq<char> {
    if healthy && warns == 0 {
        "host is ready for pgpod\n"@
    } else if healthy {
        "host is usable, with "@ + decimal(warns) + " warning(s) worth addressing\n"@
    } else {
        "host is NOT ready: "@ + decimal(fails) + " failure(s), "@ + decimal(warns)
            + " warning(s)\n"@
    }
}

/// The whole report.
pub open spec fn report_text(v: Seq<CheckView>, healthy: bool) -> Seq<char> {
    concatenated(v.map_values(|c: CheckView| check_lines(c, name_width(v)))) + "\n"@ + verdict(
        healthy,
        tally(v, Status::Fail),
        tally(v, Status::Warn),
    )
}

impl DoctorReport {
    /// A host is healthy where nothing failed; warnings do not count.
    pub fn new(checks: Vec<Check>) -> (r: Self)
        ensures
            r.checks == checks,
            r.healthy == no_failure(check_views(checks@)),
    {
        let mut i: usize = 0;
        let ghost all = check_views(checks@);
        let mut healthy = true;
        while i < checks.len()
            invariant
                i <= checks.len(),
                all == check_views(checks@),
                healthy == (forall|k: int|
                    0 <= k < i ==> (#[trigger] all[k]).status != Status::Fail),
            decreases checks.len() - i,
        {
            assert(all[i as int].status == checks@[i as int].status);
            if checks[i].status == Status::Fail {
                healthy = false;
            }
            i = i + 1;
        }
        DoctorReport { checks, healthy }
    }

    /// 0 where the host is healthy.
    pub fn exit_code(&self) -> (r: i32)
        ensures
            r == (if self.healthy {
                0int
            } else {
                1int
            }),
    {
        if self.healthy {
            0
        } else {
            1
        }
    }

    /// The report for people.
    pub fn to_text(&self) -> (r: String)
        ensures
            r@ == report_text(check_views(self.checks@), self.healthy),
    {
        let width: usize = width_of(&self.checks);
        let ghost all = check_views(self.checks@);
        let ghost want = all.map_values(|c: CheckView| check_lines(c, width as nat));
        let mut out = String::new();
        let mut i: usize = 0;
        assert(out@ =~= concatenated(want.take(0)));
        while i < self.checks.len()
            invariant
                i <= self.checks.len(),
                all == check_views(self.checks@),
                want == all.map_values(|c: CheckView| check_lines(c, width as nat)),
                out@ == concatenated(want.take(i as int)),
            decreases self.checks.len() - i,
        {
            assert(want.take(i + 1).drop_last() =~= want.take(i as int));
            append_check(&mut out, &self.checks[i], width);
            assert(want.take(i + 1).last() == check_lines(self.checks@[i as int]@, width as nat));
            i = i + 1;
        }
        assert(want.take(i as int) =~= want);
        assert(want =~= all.map_values(|c: CheckView| check_lines(c, name_width(all))));
        let fails: usize = tally_of(&self.checks, Status::Fail);
        let warns: usize = tally_of(&self.checks, Status::Warn);
        out.append("\n");
        let mut v = String::new();
        if self.healthy && warns == 0 {
            v = "host is ready for pgpod\n".to_owned();
        } else if self.healthy {
            v = "host is usable, with ".to_owned();
            append_decimal(&mut v, warns as u64);
            v.append(" warning(s) worth addressing\n");
        } else {
            v = "host is NOT ready: ".to_owned();
            append_decimal(&mut v, fails as u64);
            v.append(" failure(s), ");
            append_decimal(&mut v, warns as u64);
            v.append(" warning(s)\n");
        }
        out.append(v.as_str());
        out
    }
}

/// The whole examination, in order.
pub open spec fn examination(
    uid: u32,
    socket: CheckView,
    asked: Asked,
    files: FileLimit,
    agent: CheckView,
) -> Seq<CheckView> {
    seq![root_check(uid), socket] + podman_checks(asked) + seq![nofile_check(files), agent]
}

/// Examines the host.
pub fn run(uid: u32, socket: Check, asked: &Asked, files: &FileLimit, agent: Check) -> (r:
    DoctorReport)
    ensures
        check_views(r.checks@) == examination(uid, socket@, *asked, *files, agent@),
        r.healthy == no_failure(check_views(r.checks@)),
{
    let mut v: Vec<Check> = Vec::new();
    put(&mut v, check_not_root(uid));
    put(&mut v, socket);
    let ghost head = check_views(v@);
    let mut rest = checks_from_podman(asked);
    let ghost mid = check_views(rest@);
    v.append(&mut rest);
    assert(check_views(v@) =~= head + mid);
    put(&mut v, check_nofile(files));
    put(&mut v, agent);
    assert(check_views(v@) =~= seq![root_check(uid), socket@] + podman_checks(*asked) + seq![
        nofile_check(*files),
        agent@,
    ]);
    DoctorReport::new(v)
}

// ---- what holds of every report --------------------------------------

/// Whatever does not pass says what to run, in the whole report of a host.
pub proof fn what_does_not_pass_has_a_hint(
    uid: u32,
    path: Seq<char>,
    via: Seq<char>,
    guessed: bool,
    exists: bool,
    asked: Asked,
    files: FileLimit,
    agent: Seq<char>,
    installed: bool,
    k: int,
)
    requires
        0 <= k < examination(
            uid,
            socket_check(path, via, guessed, exists),
            asked,
            files,
            agent_check(agent, installed),
        ).len(),
    ensures
        ({
            let c = examination(
                uid,
                socket_check(path, via, guessed, exists),
                asked,
                files,
                agent_check(agent, installed),
            )[k];
            c.status != Status::Pass ==> c.hint is Some
        }),
{
}

/// What podman does not report never passes.
pub proof fn silence_never_passes(i: PodmanInfo, k: int)
    requires
        i.is_silent(),
        0 <= k < info_checks(i).len(),
    ensures
        info_checks(i)[k].status != Status::Pass,
{
}

// ---- what each check rests on ----------------------------------------

/// The host's own checks: only root fails the first, only a missing socket the
/// second; too few open files and a missing agent are worth a warning.
pub proof fn what_is_wrong_with_a_host(
    uid: u32,
    path: Seq<char>,
    via: Seq<char>,
    guessed: bool,
    exists: bool,
    files: FileLimit,
    agent: Seq<char>,
)
    ensures
        root_check(uid).name == "not root"@,
        root_check(uid).status == (if uid == 0 { Status::Fail } else { Status::Pass }),
        uid != 0 ==> root_check(uid).detail == "uid "@ + decimal(uid as nat),
        ({
            let c = socket_check(path, via, guessed, exists);
            &&& c.name == "podman socket"@
            &&& c.status == (if exists { Status::Pass } else { Status::Fail })
            &&& exists ==> c.detail == path + " (via "@ + via + ")"@
            &&& !exists ==> c.detail == "not found at "@ + path + " (via "@ + via + ")"@
            &&& !exists && guessed ==> c.hint == Some(SOCKET_HINT@ + SESSION_HINT@)
            &&& !exists && !guessed ==> c.hint == Some(SOCKET_HINT@)
        }),
        ({
            let c = nofile_check(files);
            &&& c.name == "open files"@
            &&& files is Unreadable ==> c.status == Status::Unknown
            &&& files matches FileLimit::Known { soft, hard } ==> {
                &&& soft < 4096 ==> c.status == Status::Warn
                &&& soft >= 4096 ==> c.status == Status::Pass && c.detail == "soft "@ + decimal(
                    soft as nat,
                ) + ", hard "@ + decimal(hard as nat)
            }
        }),
        agent_check(agent, true).status == Status::Pass,
        agent_check(agent, true).detail == agent,
        agent_check(agent, false).status == Status::Warn,
        agent_check(agent, false).detail == "not present at "@ + agent,
{
}

/// podman's checks, each in its place: by the version's parts, by whether it
/// is rootless, by its network, its cgroups, its runtime, its ranges of ids
/// and the free space.
pub proof fn what_is_wrong_with_podman(i: PodmanInfo, read: Readings)
    ensures
        ({
            let c = info_checks_of(i, read);
            &&& c.len() == 7
            &&& c[0].name == "podman version"@ && c[1].name == "rootless"@ && c[2].name
                == "network backend"@ && c[3].name == "cgroups"@ && c[4].name == "oci runtime"@
                && c[5].name == "subuid/subgid"@ && c[6].name == "graph root"@
            &&& read.parts is None ==> c[0].status == Status::Unknown
            &&& read.parts matches Some(v) ==> c[0].status == (if v.0 < 5 {
                Status::Fail
            } else {
                Status::Pass
            })
            &&& i.rootless is None ==> c[1].status == Status::Unknown
            &&& i.rootless matches Some(yes) ==> c[1].status == (if yes {
                Status::Pass
            } else {
                Status::Fail
            })
            &&& read.netavark is None ==> c[2].status == Status::Unknown
            &&& read.netavark matches Some(yes) ==> c[2].status == (if yes {
                Status::Pass
            } else {
                Status::Fail
            })
            &&& i.cgroup_version is None ==> c[3].status == Status::Unknown
            &&& i.cgroup_version matches Some(v) ==> c[3].status == (if without_prefixes(v@, "v"@)
                == "2"@ {
                Status::Pass
            } else {
                Status::Fail
            })
            &&& i.oci_runtime is None ==> c[4].status == Status::Unknown
            &&& i.oci_runtime matches Some(n) ==> c[4].status == Status::Pass && c[4].detail == n@
            &&& c[5].status == (if i.subuid_count > 0 && i.subgid_count > 0 {
                Status::Pass
            } else {
                Status::Fail
            })
            &&& read.free is None ==> c[6].status == Status::Unknown
            &&& read.free matches Some(n) ==> c[6].status == (if n < 10_737_418_240 {
                Status::Warn
            } else {
                Status::Pass
            })
        }),
{
}

/// What is read out of podman's account: the numbers of its version, whether
/// its network is netavark, and what is allocated but not used.
pub proof fn what_is_read_of_podman(i: PodmanInfo, a: u32, b: u32)
    ensures
        i.server_version is None ==> server_parts(i) is None,
        i.server_version matches Some(v) ==> {
            let p = split_on(v@, '.');
            &&& p.len() < 2 ==> server_parts(i) is None
            &&& p.len() >= 2 && p[0] == decimal(a as nat) && p[1] == decimal(b as nat)
                ==> server_parts(i) == Some((a, b))
        },
        i.network_backend is None ==> uses_netavark(i) is None,
        i.network_backend matches Some(n) ==> (uses_netavark(i) == Some(true) <==> n@
            == "netavark"@),
        i.network_backend is Some ==> uses_netavark(i) is Some,
        i.graph_root_allocated is None || i.graph_root_used is None ==> free_space(i) is None,
        i.graph_root_allocated matches Some(all) ==> (i.graph_root_used matches Some(used) ==> {
            &&& free_space(i) matches Some(n)
            &&& used <= all ==> n + used == all
            &&& used > all ==> n == 0
        }),
{
    a_number_reads_back(a as nat, u32::MAX as nat);
    a_number_reads_back(b as nat, u32::MAX as nat);
}

/// What is asked of podman: without a socket nothing, and it stays open; a
/// daemon that does not answer fails; one that does is examined.
pub proof fn what_podman_was_asked(a: Asked)
    ensures
        ({
            let c = podman_checks(a);
            &&& c.len() > 0
            &&& c[0].name == "podman api"@
            &&& a is NoSocket ==> c.len() == 1 && c[0].status == Status::Unknown
            &&& a matches Asked::Silent(e) ==> c.len() == 1 && c[0].status == Status::Fail
                && c[0].detail == "socket exists but the daemon did not answer: "@ + e@
            &&& a matches Asked::NoInfo(e) ==> c.len() == 2 && c[0].status == Status::Pass
                && c[1].status == Status::Fail && c[1].detail == "could not read host info: "@ + e@
            &&& a matches Asked::Info { info, read } ==> c[0].status == Status::Pass
                && c.subrange(1, c.len() as int) == info_checks_of(info, read)
        }),
{
    if let Asked::Info { info, read } = a {
        let c = podman_checks(a);
        assert(c.subrange(1, c.len() as int) =~= info_checks_of(info, read));
    }
}

/// A host is examined in one order: the user, the socket, podman, the open
/// files, the agent.
pub proof fn the_order_of_an_examination(
    uid: u32,
    socket: CheckView,
    asked: Asked,
    files: FileLimit,
    agent: CheckView,
)
    ensures
        ({
            let e = examination(uid, socket, asked, files, agent);
            let n = podman_checks(asked).len() as int;
            &&& e.len() == n + 4
            &&& e[0] == root_check(uid)
            &&& e[1] == socket
            &&& e.subrange(2, n + 2) == podman_checks(asked)
            &&& e[n + 2] == nofile_check(files)
            &&& e[n + 3] == agent
        }),
{
    let e = examination(uid, socket, asked, files, agent);
    let n = podman_checks(asked).len() as int;
    assert(e.subrange(2, n + 2) =~= podman_checks(asked));
}

/// One check more counts once, for how it came out, and widens the names to
/// its own where it is the longest.
pub proof fn one_check_more(v: Seq<CheckView>, c: CheckView, s: Status)
    ensures
        tally(Seq::empty(), s) == 0,
        c.status == s ==> tally(v.push(c), s) == tally(v, s) + 1,
        c.status != s ==> tally(v.push(c), s) == tally(v, s),
        name_width(Seq::empty()) == 4,
        name_width(v.push(c)) >= name_width(v),
        name_width(v.push(c)) == name_width(v) || name_width(v.push(c))
            == encode_utf8(c.name).len() as usize,
        name_width(v.push(c)) >= encode_utf8(c.name).len() as usize,
        no_failure(v.push(c)) <==> no_failure(v) && c.status != Status::Fail,
{
    let w = v.push(c);
    assert(w.drop_last() =~= v);
    if no_failure(w) {
        assert forall|i: int| 0 <= i < v.len() implies (#[trigger] v[i]).status
            != Status::Fail by {
            assert(w[i] == v[i]);
        }
        assert(w[v.len() as int].status != Status::Fail);
    }
}

/// The last line says whether the host is ready, and counts.
pub proof fn the_last_line(fails: nat, warns: nat)
    ensures
        verdict(true, fails, 0) == "host is ready for pgpod\n"@,
        warns > 0 ==> verdict(true, fails, warns) == "host is usable, with "@ + decimal(warns)
            + " warning(s) worth addressing\n"@,
        verdict(false, fails, warns) == "host is NOT ready: "@ + decimal(fails) + " failure(s), "@
            + decimal(warns) + " warning(s)\n"@,
{
}

/// Rounding goes to the nearest, and between two to the even one.
pub proof fn rounding_goes_to_the_nearest(a: nat, b: nat)
    requires
        b > 0,
    ensures
        2 * (a - half_even(a, b) * b) <= b,
        2 * (half_even(a, b) * b - a) <= b,
        2 * (a - half_even(a, b) * b) == b || 2 * (half_even(a, b) * b - a) == b ==> half_even(a, b)
            % 2 == 0,
{
    let q = a / b;
    let r = a % b;
    vstd::arithmetic::div_mod::lemma_fundamental_div_mod(a as int, b as int);
    assert(b * q == q * b) by (nonlinear_arith);
    assert((q + 1) * b == q * b + b) by (nonlinear_arith);
    assert(0 <= r < b) by {
        vstd::arithmetic::div_mod::lemma_mod_bound(a as int, b as int);
    }
}

/// A size is shown in the unit that leaves at least one of it, and less than
/// 1024 where there is a larger one, to the nearest tenth.
pub proof fn a_size_is_shown_in_its_unit(n: u64)
    ensures
        n < 1024 ==> human(n) == decimal(n as nat) + " B"@,
        n >= 1024 ==> ({
            let (div, name) = unit_of(n as nat);
            let tenths = half_even(10 * rounded(n as nat), div);
            &&& human(n) == decimal(tenths / 10) + "."@ + decimal(tenths % 10) + " "@ + name
            &&& div <= n
            &&& name != "TiB"@ ==> n < 1024 * div
            &&& 2 * (10 * rounded(n as nat) - tenths * div) <= div
            &&& 2 * (tenths * div - 10 * rounded(n as nat)) <= div
            &&& (div == 1024 && name == "KiB"@) || (div == 1024 * 1024 && name == "MiB"@) || (div
                == 1024 * 1024 * 1024 && name == "GiB"@) || (div == 1024 * 1024 * 1024 * 1024
                && name == "TiB"@)
        }),
        n < 0x20_0000_0000_0000 ==> rounded(n as nat) == n,
{
    let (div, name) = unit_of(n as nat);
    rounding_goes_to_the_nearest(10 * rounded(n as nat), div);
    if n < 0x20_0000_0000_0000 {
        assert(gap(n as nat) == 1);
        assert(half_even(n as nat, 1) == n);
    }
}

/// Whatever is shown of a check stands in its line, and every line of its
/// hint below it.
pub proof fn what_is_shown_of_a_check(c: CheckView, width: nat)
    ensures
        ({
            let head = "  ["@ + c.status.mark() + "] "@ + padded_right(c.name, width) + "  "@
                + c.detail + "\n"@;
            &&& c.hint is None ==> check_lines(c, width) == head
            &&& c.hint matches Some(h) ==> check_lines(c, width) == head + concatenated(
                lines_of(h).map_values(|l: Seq<char>| hint_line(l, width)),
            )
        }),
        c.status == Status::Pass ==> c.status.mark() == "ok  "@,
        c.status == Status::Warn ==> c.status.mark() == "warn"@,
        c.status == Status::Fail ==> c.status.mark() == "FAIL"@,
        c.status == Status::Unknown ==> c.status.mark() == "?   "@,
{
}

/// What to run to find out what a check could not.
pub proof fn what_to_run(name: Seq<char>, detail: Seq<char>)
    ensures
        open_question(name, detail).status == Status::Unknown,
        open_question(name, detail).name == name,
        open_question(name, detail).detail == detail,
        open_question(name, detail).hint == Some(inquiry(name)),
        inquiry("podman api"@) == "systemctl --user enable --now podman.socket"@,
        name == "podman version"@ && name != "podman api"@ ==> inquiry(name) == "podman version"@,
        name == "open files"@ && name != "podman api"@ && name != "podman version"@ ==> inquiry(
            name,
        ) == "ulimit -n"@,
        name != "podman api"@ && name != "podman version"@ && name != "open files"@ ==> inquiry(
            name,
        ) == "podman info"@,
{
}

/// A host is healthy exactly where no check failed, and then the exit code is
/// zero.
pub proof fn what_a_host_exits_with(checks: Vec<Check>, r: DoctorReport, code: i32)
    requires
        call_ensures(DoctorReport::new, (checks,), r),
        call_ensures(DoctorReport::exit_code, (&r,), code),
    ensures
        r.checks == checks,
        r.healthy <==> forall|i: int|
            0 <= i < checks@.len() ==> (#[trigger] checks@[i]).status != Status::Fail,
        r.healthy ==> code == 0,
        !r.healthy ==> code == 1,
{
    let v = check_views(checks@);
    if no_failure(v) {
        assert forall|i: int| 0 <= i < checks@.len() implies (#[trigger] checks@[i]).status
            != Status::Fail by {
            assert(v[i].status == checks@[i].status);
        }
    }
    if forall|i: int| 0 <= i < checks@.len() ==> (#[trigger] checks@[i]).status != Status::Fail {
        assert forall|i: int| 0 <= i < v.len() implies (#[trigger] v[i]).status
            != Status::Fail by {
            assert(v[i].status == checks@[i].status);
        }
    }
}

} // verus!
