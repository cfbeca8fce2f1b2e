//! Bringing an instance's data directory into being.

use crate::backup::config::{destination_views, Destination, DestinationView};
use crate::container::{BOOTSTRAP_PORT, PG_PORT};
use crate::path::{join_path, joined_path};
use crate::text::{
    a_line_is_itself, chars_of, drop_trailing, in_list, lines, lines_of, opt_str, opt_text, same,
    texts, the_first_line_comes_first, trim, trimmed, what_follows_a_break_comes_last,
};
use vstd::prelude::*;
use vstd::string::*;

verus! {

/// Whether a data directory holds a cluster, given the files that exist.
pub fn is_initialised(pgdata: &str, files: &Vec<String>) -> (r: bool)
    ensures
        r == texts(files@).contains(joined_path(pgdata@, "PG_VERSION"@)),
{
    in_list(files, join_path(pgdata, "PG_VERSION").as_str())
}

/// Whether a restored data directory is through with its recovery, given the
/// files that exist: PostgreSQL removes the signal file when it promotes.
pub fn recovery_finished(pgdata: &str, files: &Vec<String>) -> (r: bool)
    ensures
        r == !texts(files@).contains(joined_path(pgdata@, "recovery.signal"@)),
{
    !in_list(files, join_path(pgdata, "recovery.signal").as_str())
}

/// How an instance is told to come into being.
#[derive(Debug, Clone, Copy, PartialEq, Eq, Structural)]
pub enum BootstrapMode {
    Initdb,
    Recovery,
}

/// How an instance came into being.
#[derive(Debug, Clone, Copy, PartialEq, Eq, Structural)]
pub enum Bootstrapped {
    /// It was there already.
    Existing,
    Initdb,
    Recovery,
}

/// What is still to be done once the data directory is there.
#[derive(Debug, Clone, Copy, PartialEq, Eq, Structural)]
pub struct BootPlan {
    /// Create roles, against a server nobody else can reach.
    pub create_roles: bool,
    /// Create the stanza at this port before archiving begins.
    pub stanza_first: Option<u16>,
    /// Create the stanza at this port once the server is ready.
    pub stanza_later: Option<u16>,
}

/// How a data directory comes about.
pub open spec fn comes_about(initialised: bool, mode: BootstrapMode) -> Bootstrapped {
    if initialised {
        Bootstrapped::Existing
    } else {
        match mode {
            BootstrapMode::Initdb => Bootstrapped::Initdb,
            BootstrapMode::Recovery => Bootstrapped::Recovery,
        }
    }
}

/// What is still to be done once the data directory is there.
pub open spec fn plan_after(how: Bootstrapped, backup_enabled: bool) -> BootPlan {
    BootPlan {
        create_roles: how == Bootstrapped::Initdb,
        stanza_first: if backup_enabled && how == Bootstrapped::Initdb {
            Some(BOOTSTRAP_PORT)
        } else {
            None
        },
        stanza_later: if backup_enabled && how != Bootstrapped::Initdb {
            Some(PG_PORT)
        } else {
            None
        },
    }
}

/// A populated data directory is never bootstrapped again.
pub fn bootstrap_if_needed(initialised: bool, mode: BootstrapMode) -> (r: Bootstrapped)
    ensures
        r == comes_about(initialised, mode),
{
    if initialised {
        Bootstrapped::Existing
    } else {
        match mode {
            BootstrapMode::Initdb => Bootstrapped::Initdb,
            BootstrapMode::Recovery => Bootstrapped::Recovery,
        }
    }
}

/// Roles are written into a new cluster only: a restored one arrives with its
/// roles, and rewriting them would change what was restored. The stanza is
/// created on every start, before archiving where the cluster is new.
pub fn after_bootstrap(how: Bootstrapped, backup_enabled: bool) -> (r: BootPlan)
    ensures
        r == plan_after(how, backup_enabled),
{
    let new = how == Bootstrapped::Initdb;
    BootPlan {
        create_roles: new,
        stanza_first: if backup_enabled && new {
            Some(BOOTSTRAP_PORT)
        } else {
            None
        },
        stanza_later: if backup_enabled && !new {
            Some(PG_PORT)
        } else {
            None
        },
    }
}

/// One line says `line`, white space around it aside.
pub open spec fn says(ls: Seq<Seq<char>>, line: Seq<char>) -> bool {
    exists|i: int| 0 <= i < ls.len() && trimmed(#[trigger] ls[i]) == line
}

/// What is appended to a configuration that does not say `line` yet.
pub open spec fn included(existing: Seq<char>, line: Seq<char>) -> Option<Seq<char>> {
    if says(lines_of(existing), line) {
        None
    } else {
        Some("\n# Added by pgpod. Configuration lives in conf.d/.\n"@ + line + "\n"@)
    }
}

/// What to append to `postgresql.conf` so that it reads `conf.d/`: nothing
/// where it does already, since a second line would be warned of on every
/// start.
pub fn append_include_dir(existing: &str, line: &str) -> (r: Option<String>)
    ensures
        opt_text(r) == included(existing@, line@),
{
    let ls = lines(existing);
    let ghost all = lines_of(existing@);
    let mut i: usize = 0;
    while i < ls.len()
        invariant
            i <= ls.len(),
            all == lines_of(existing@),
            texts(ls@) == all,
            forall|k: int| 0 <= k < i ==> trimmed(#[trigger] all[k]) != line@,
        decreases ls.len() - i,
    {
        assert(all[i as int] == ls@[i as int]@);
        if same(trim(ls[i].as_str()), line) {
            return None;
        }
        i = i + 1;
    }
    assert(all.len() == ls.len());
    let mut s = "\n# Added by pgpod. Configuration lives in conf.d/.\n".to_owned();
    s.append(line);
    s.append("\n");
    Some(s)
}

/// Whose password the application's owner gets.
#[derive(Debug, Clone, Copy, PartialEq, Eq, Structural)]
pub enum OwnerPassword {
    /// The owner's own secret.
    Own,
    /// The superuser's, because no owner's was mounted.
    Superuser,
}

/// The application's database.
#[derive(Debug, Clone, PartialEq, Eq)]
pub struct AppDatabase {
    pub database: String,
    pub owner: String,
    pub password: OwnerPassword,
}

pub const BOTH_OR_NEITHER: &'static str =
    "spec.bootstrap.initdb needs both `database` and `owner`, or neither";

/// The application's database, where the specification names one: it names
/// the owner too, or neither.
pub fn app_database(database: &Option<String>, owner: &Option<String>, owner_secret: bool) -> (r:
    Result<Option<AppDatabase>, String>)
    ensures
        match r {
            Ok(Some(a)) => opt_text(*database) == Some(a.database@) && opt_text(*owner) == Some(
                a.owner@,
            ) && a.password == (if owner_secret {
                OwnerPassword::Own
            } else {
                OwnerPassword::Superuser
            }),
            Ok(None) => database is None && owner is None,
            Err(m) => (database is Some) != (owner is Some) && m@ == BOTH_OR_NEITHER@,
        },
{
    match (database, owner) {
        (Some(d), Some(o)) => Ok(
            Some(
                AppDatabase {
                    database: d.clone(),
                    owner: o.clone(),
                    password: if owner_secret {
                        OwnerPassword::Own
                    } else {
                        OwnerPassword::Superuser
                    },
                },
            ),
        ),
        (None, None) => Ok(None),
        _ => Err(BOTH_OR_NEITHER.to_owned()),
    }
}

/// Whether the application's database has to be created: the query for it
/// came back empty.
pub fn needs_creating(answer: &str) -> (r: bool)
    ensures
        r == (trimmed(answer@).len() == 0),
{
    trim(answer).unicode_len() == 0
}

/// Where pgBackRest looks: the instance's own destinations, and those it is
/// restored from only where it has none.
pub open spec fn looked_at(
    own: Seq<DestinationView>,
    recovery: Option<Seq<DestinationView>>,
) -> Seq<DestinationView> {
    match recovery {
        Some(r) => if own.len() == 0 {
            r
        } else {
            own
        },
        None => own,
    }
}

/// The destinations that pgBackRest's configuration names: the instance's own,
/// or else those it is restored from. Where there are none, there is nothing
/// to configure.
pub fn pgbackrest_destinations(
    own: Vec<Destination>,
    recovery: Option<Vec<Destination>>,
) -> (r: Option<Vec<Destination>>)
    ensures
        ({
            let want = looked_at(
                destination_views(own@),
                match recovery {
                    Some(v) => Some(destination_views(v@)),
                    None => None,
                },
            );
            match r {
                Some(v) => destination_views(v@) == want && want.len() > 0,
                None => want.len() == 0,
            }
        }),
{
    let chosen = match recovery {
        Some(r) => if own.len() == 0 {
            r
        } else {
            own
        },
        None => own,
    };
    if chosen.len() == 0 {
        None
    } else {
        Some(chosen)
    }
}

// ---- secrets ---------------------------------------------------------

/// A line feed or a carriage return.
pub open spec fn line_end() -> spec_fn(char) -> bool {
    |c: char| c == '\n' || c == '\r'
}

/// A secret without the line ends that are easily put behind it.
pub open spec fn secret_value(raw: Seq<char>) -> Seq<char> {
    drop_trailing(raw, line_end())
}

/// The value of a mounted secret. An empty one is refused, and one that is
/// not mounted is none.
pub fn read_optional(path: &str, raw: Option<&str>) -> (r: Result<Option<String>, String>)
    ensures
        match opt_str(raw) {
            None => r matches Ok(None),
            Some(t) => if secret_value(t).len() == 0 {
                r matches Err(m) && m@ == "secret "@ + path@ + " is empty"@
            } else {
                r matches Ok(Some(v)) && v@ == secret_value(t)
            },
        },
{
    match raw {
        None => Ok(None),
        Some(t) => {
            let v = chars_of(t);
            let mut n: usize = v.len();
            assert(t@.subrange(0, n as int) =~= t@);
            while n > 0 && (v[n - 1] == '\n' || v[n - 1] == '\r')
                invariant
                    v@ == t@,
                    n <= v.len(),
                    secret_value(t@) == secret_value(t@.subrange(0, n as int)),
                decreases n,
            {
                assert(t@.subrange(0, n as int).drop_last() =~= t@.subrange(0, n - 1));
                n = n - 1;
            }
            assert(secret_value(t@) == t@.subrange(0, n as int));
            if n == 0 {
                let mut m = "secret ".to_owned();
                m.append(path);
                m.append(" is empty");
                Err(m)
            } else {
                Ok(Some(t.substring_char(0, n).to_owned()))
            }
        },
    }
}

pub open spec fn missing_secret(path: Seq<char>) -> Seq<char> {
    "required secret "@ + path
        + " is not mounted — the daemon did not attach it to this container"@
}

/// The value of a secret that has to be mounted.
pub fn read_required(path: &str, raw: Option<&str>) -> (r: Result<String, String>)
    ensures
        match opt_str(raw) {
            None => r matches Err(m) && m@ == missing_secret(path@),
            Some(t) => if secret_value(t).len() == 0 {
                r matches Err(m) && m@ == "secret "@ + path@ + " is empty"@
            } else {
                r matches Ok(v) && v@ == secret_value(t)
            },
        },
{
    match read_optional(path, raw) {
        Err(m) => Err(m),
        Ok(Some(v)) => Ok(v),
        Ok(None) => {
            let mut m = "required secret ".to_owned();
            m.append(path);
            m.append(" is not mounted — the daemon did not attach it to this container");
            Err(m)
        },
    }
}

// ---- what holds of every start ---------------------------------------

/// A data directory that holds a cluster is left alone, whatever was asked
/// for; an empty one is made as was asked.
pub proof fn data_is_never_bootstrapped_over(mode: BootstrapMode)
    ensures
        comes_about(true, mode) == Bootstrapped::Existing,
        comes_about(false, BootstrapMode::Initdb) == Bootstrapped::Initdb,
        comes_about(false, BootstrapMode::Recovery) == Bootstrapped::Recovery,
{
}

/// Roles are made in a new cluster and in no other. Where there are backups
/// the stanza is made once on every start: at the private port before a new
/// cluster archives anything, and otherwise at the server's own.
pub proof fn a_stanza_is_made_once(how: Bootstrapped, backup_enabled: bool)
    ensures
        ({
            let p = plan_after(how, backup_enabled);
            &&& p.create_roles <==> how == Bootstrapped::Initdb
            &&& !backup_enabled ==> p.stanza_first is None && p.stanza_later is None
            &&& backup_enabled && how == Bootstrapped::Initdb ==> p.stanza_first == Some(5433u16)
                && p.stanza_later is None
            &&& backup_enabled && how != Bootstrapped::Initdb ==> p.stanza_later == Some(5432u16)
                && p.stanza_first is None
        }),
{
}

/// Once the line was appended the configuration says it, so that nothing is
/// appended on the next start.
pub proof fn a_line_is_appended_once(existing: Seq<char>, line: Seq<char>)
    requires
        !line.contains('\n'),
        trimmed(line) == line,
        line.len() > 0,
        line.last() != '\r',
    ensures
        says(lines_of(existing), line) <==> included(existing, line) is None,
        included(existing, line) matches Some(t) ==> included(existing + t, line) is None,
{
    if let Some(t) = included(existing, line) {
        reveal_strlit("\n# Added by pgpod. Configuration lives in conf.d/.\n");
        reveal_strlit("\n");
        let note = "\n# Added by pgpod. Configuration lives in conf.d/.\n"@;
        let n = note.len() as int;
        assert(note[n - 1] == '\n');
        let head = existing + note.take(n - 1);
        let rest = line + seq!['\n'];
        assert("\n"@ =~= seq!['\n']);
        assert(note =~= note.take(n - 1) + seq!['\n']);
        assert(existing + t =~= head + seq!['\n'] + rest);
        what_follows_a_break_comes_last(head, rest);
        let none = Seq::<char>::empty();
        the_first_line_comes_first(line, none);
        a_line_is_itself(none);
        assert(line + seq!['\n'] + none =~= rest);
        let all = lines_of(existing + t);
        let last = lines_of(rest);
        assert(last.len() == 1 && last[0] == line);
        assert(all.subrange(all.len() - 1, all.len() as int)[0] == line);
        assert(trimmed(all[all.len() - 1]) == line);
    }
}

/// An instance's own destinations come first, and those it is restored from
/// only where it has none of its own.
pub proof fn own_destinations_come_first(
    own: Seq<DestinationView>,
    recovery: Option<Seq<DestinationView>>,
)
    ensures
        own.len() > 0 ==> looked_at(own, recovery) == own,
        own.len() == 0 ==> (recovery matches Some(r) ==> looked_at(own, recovery) == r),
        own.len() == 0 && recovery is None ==> looked_at(own, recovery).len() == 0,
{
}

/// A secret is what was mounted, but for line ends behind it.
pub proof fn a_secret_loses_only_line_ends(raw: Seq<char>)
    ensures
        secret_value(raw).len() <= raw.len(),
        secret_value(raw) == raw.take(secret_value(raw).len() as int),
        forall|i: int|
            secret_value(raw).len() <= i < raw.len() ==> #[trigger] raw[i] == '\n' || raw[i] == '\r',
        secret_value(raw).len() > 0 ==> secret_value(raw).last() != '\n' && secret_value(raw).last()
            != '\r',
    decreases raw.len(),
{
    let p = line_end();
    if raw.len() > 0 && p(raw.last()) {
        let t = raw.drop_last();
        a_secret_loses_only_line_ends(t);
        assert(secret_value(raw) == secret_value(t));
        assert(secret_value(raw) =~= raw.take(secret_value(raw).len() as int));
        assert forall|i: int| secret_value(raw).len() <= i < raw.len() implies #[trigger] raw[i]
            == '\n' || raw[i] == '\r' by {
            if i < t.len() {
                assert(t[i] == raw[i]);
            }
        }
    } else {
        assert(secret_value(raw) =~= raw.take(raw.len() as int));
        if raw.len() > 0 {
            assert(!p(raw.last()));
        }
    }
}

/// What is said of a secret that is not mounted: which one.
pub proof fn what_is_said_of_a_missing_secret(path: Seq<char>)
    ensures
        missing_secret(path) == "required secret "@ + path
            + " is not mounted — the daemon did not attach it to this container"@,
{
}

// ---- what the functions give back ------------------------------------

/// Data is there exactly where its version file is, and recovery is over
/// exactly where its signal file is gone.
pub proof fn what_files_tell(pgdata: &str, files: Vec<String>, there: bool, over: bool)
    requires
        call_ensures(is_initialised, (pgdata, &files), there),
        call_ensures(recovery_finished, (pgdata, &files), over),
    ensures
        there <==> texts(files@).contains(joined_path(pgdata@, "PG_VERSION"@)),
        over <==> !texts(files@).contains(joined_path(pgdata@, "recovery.signal"@)),
{
}

/// An application has both a database and an owner, or it is none; its owner
/// has a password of their own exactly where there is a secret for it.
pub proof fn what_an_application_has(
    database: Option<String>,
    owner: Option<String>,
    owner_secret: bool,
    r: Result<Option<AppDatabase>, String>,
)
    requires
        call_ensures(app_database, (&database, &owner, owner_secret), r),
    ensures
        r is Err <==> (database is Some) != (owner is Some),
        r matches Ok(Some(a)) ==> (database matches Some(d) && d@ == a.database@) && (
        owner matches Some(o) && o@ == a.owner@) && (a.password is Own <==> owner_secret),
        database is Some && owner is Some ==> (r matches Ok(Some(a))),
        database is None && owner is None ==> (r matches Ok(None)),
{
}

/// A secret that is mounted must not be empty; one that is required must be
/// mounted.
pub proof fn what_a_secret_gives(
    path: &str,
    raw: Option<&str>,
    may: Result<Option<String>, String>,
    must: Result<String, String>,
)
    requires
        call_ensures(read_optional, (path, raw), may),
        call_ensures(read_required, (path, raw), must),
    ensures
        raw is None ==> (may matches Ok(None)) && must is Err,
        raw matches Some(t) ==> {
            &&& secret_value(t@).len() == 0 ==> may is Err && must is Err
            &&& secret_value(t@).len() > 0 ==> (may matches Ok(Some(v)) && v@ == secret_value(t@))
                && (must matches Ok(v) && v@ == secret_value(t@))
        },
{
}

} // verus!
