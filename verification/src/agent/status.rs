//! What an instance says of itself.

use crate::text::{debug_form, debug_quoted, opt_text, same, split, split_on, trim, trimmed};
use vstd::prelude::*;
use vstd::string::*;

verus! {

/// The part an instance plays in its cluster.
#[derive(Debug, Clone, Copy, PartialEq, Eq, Structural)]
pub enum InstanceRole {
    Primary,
    Standby,
    /// Nobody confirmed either, so it is treated as neither.
    Unknown,
}

impl InstanceRole {
    /// A server in recovery is a standby.
    pub fn from_in_recovery(in_recovery: bool) -> (r: Self)
        ensures
            r == (if in_recovery {
                InstanceRole::Standby
            } else {
                InstanceRole::Primary
            }),
    {
        if in_recovery {
            InstanceRole::Standby
        } else {
            InstanceRole::Primary
        }
    }

    /// The role's name.
    pub open spec fn name(&self) -> Seq<char> {
        match *self {
            InstanceRole::Primary => "primary"@,
            InstanceRole::Standby => "standby"@,
            InstanceRole::Unknown => "unknown"@,
        }
    }

    /// The role's name.
    pub fn as_str(&self) -> (r: &'static str)
        ensures
            r@ == self.name(),
    {
        match self {
            InstanceRole::Primary => "primary",
            InstanceRole::Standby => "standby",
            InstanceRole::Unknown => "unknown",
        }
    }
}

/// An instance's status.
#[derive(Debug, Clone)]
pub struct Status {
    pub role: InstanceRole,
    pub accepting_connections: bool,
    pub last_wal_replay_lsn: Option<String>,
    pub current_wal_flush_lsn: Option<String>,
    pub postmaster_start_time: Option<String>,
    pub error: Option<String>,
}

/// The query behind a status, in one round trip.
pub const PROBE_SQL: &'static str = "SELECT pg_is_in_recovery(), \
                       coalesce(pg_last_wal_replay_lsn()::text, ''), \
                       coalesce(pg_current_wal_flush_lsn()::text, ''), \
                       pg_postmaster_start_time()";

/// A field's text, where there is any.
pub open spec fn present(s: Seq<char>) -> Option<Seq<char>> {
    if trimmed(s).len() == 0 {
        None
    } else {
        Some(trimmed(s))
    }
}

/// A field's text, where there is any. A standby has no flush position, and
/// the query makes that an empty string.
pub fn non_empty(s: &str) -> (r: Option<String>)
    ensures
        opt_text(r) == present(s@),
{
    let t = trim(s);
    if t.unicode_len() == 0 {
        None
    } else {
        Some(t.to_owned())
    }
}

impl Status {
    /// Neither role is claimed, and nothing else either.
    pub open spec fn is_unavailable(&self, error: Seq<char>) -> bool {
        &&& self.role == InstanceRole::Unknown
        &&& !self.accepting_connections
        &&& self.last_wal_replay_lsn is None
        &&& self.current_wal_flush_lsn is None
        &&& self.postmaster_start_time is None
        &&& opt_text(self.error) == Some(error)
    }

    /// The status of an instance that cannot be asked.
    pub fn unavailable(error: String) -> (r: Self)
        ensures
            r.is_unavailable(error@),
    {
        Status {
            role: InstanceRole::Unknown,
            accepting_connections: false,
            last_wal_replay_lsn: None,
            current_wal_flush_lsn: None,
            postmaster_start_time: None,
            error: Some(error),
        }
    }
}

/// What a probe's row of fields says.
pub open spec fn reads_as(row: Seq<char>, s: Status) -> bool {
    let f = split_on(row, '|');
    if f.len() < 4 {
        s.is_unavailable("unexpected probe output: "@ + debug_form(row))
    } else {
        &&& s.role == (if f[0] == "t"@ {
            InstanceRole::Standby
        } else {
            InstanceRole::Primary
        })
        &&& s.accepting_connections
        &&& opt_text(s.last_wal_replay_lsn) == present(f[1])
        &&& opt_text(s.current_wal_flush_lsn) == present(f[2])
        &&& opt_text(s.postmaster_start_time) == present(f[3])
        &&& s.error is None
    }
}

/// The status behind what the query returned.
pub fn probe(answer: Result<String, String>) -> (r: Status)
    ensures
        match answer {
            Err(e) => r.is_unavailable(e@),
            Ok(row) => reads_as(row@, r),
        },
{
    match answer {
        Err(e) => Status::unavailable(e),
        Ok(row) => {
            let f = split(row.as_str(), '|');
            let ghost fields = split_on(row@, '|');
            assert(fields.len() == f.len());
            if f.len() < 4 {
                let mut m = "unexpected probe output: ".to_owned();
                m.append(debug_quoted(row.as_str()).as_str());
                return Status::unavailable(m);
            }
            assert(f@[0]@ == fields[0] && f@[1]@ == fields[1] && f@[2]@ == fields[2] && f@[3]@
                == fields[3]);
            Status {
                role: InstanceRole::from_in_recovery(same(f[0].as_str(), "t")),
                accepting_connections: true,
                last_wal_replay_lsn: non_empty(f[1].as_str()),
                current_wal_flush_lsn: non_empty(f[2].as_str()),
                postmaster_start_time: non_empty(f[3].as_str()),
                error: None,
            }
        },
    }
}

/// A role is only ever reported by a server that answered.
pub proof fn no_role_without_an_answer(row: Seq<char>, s: Status)
    requires
        reads_as(row, s),
        s.role != InstanceRole::Unknown,
    ensures
        s.accepting_connections,
        s.error is None,
{
}

/// A row of an answer, field by field: `t` first says that the server is in
/// recovery, and so a standby; then come the position it has replayed, the
/// position it has flushed and when it started, each left out where empty.
pub proof fn a_row_is_read_by_its_fields(row: Seq<char>, s: Status)
    requires
        reads_as(row, s),
    ensures
        ({
            let f = split_on(row, '|');
            &&& f.len() < 4 ==> s.role == InstanceRole::Unknown && !s.accepting_connections
                && s.error is Some
            &&& f.len() >= 4 ==> s.accepting_connections && s.error is None
            &&& f.len() >= 4 && f[0] == "t"@ ==> s.role == InstanceRole::Standby
            &&& f.len() >= 4 && f[0] != "t"@ ==> s.role == InstanceRole::Primary
            &&& f.len() >= 4 && trimmed(f[1]).len() > 0 ==> opt_text(s.last_wal_replay_lsn) == Some(
                trimmed(f[1]),
            )
            &&& f.len() >= 4 && trimmed(f[1]).len() == 0 ==> s.last_wal_replay_lsn is None
            &&& f.len() >= 4 && trimmed(f[2]).len() > 0 ==> opt_text(s.current_wal_flush_lsn)
                == Some(trimmed(f[2]))
            &&& f.len() >= 4 && trimmed(f[2]).len() == 0 ==> s.current_wal_flush_lsn is None
            &&& f.len() >= 4 && trimmed(f[3]).len() > 0 ==> opt_text(s.postmaster_start_time)
                == Some(trimmed(f[3]))
            &&& f.len() >= 4 && trimmed(f[3]).len() == 0 ==> s.postmaster_start_time is None
        }),
{
}

/// An instance that cannot be asked claims nothing but why.
pub proof fn an_unavailable_instance_claims_nothing(s: Status, why: Seq<char>)
    requires
        s.is_unavailable(why),
    ensures
        s.role == InstanceRole::Unknown,
        !s.accepting_connections,
        s.last_wal_replay_lsn is None,
        s.current_wal_flush_lsn is None,
        s.postmaster_start_time is None,
        s.error matches Some(e) && e@ == why,
{
}

/// The roles by name.
pub proof fn roles_by_name(r: InstanceRole)
    ensures
        r == InstanceRole::Primary ==> r.name() == "primary"@,
        r == InstanceRole::Standby ==> r.name() == "standby"@,
        r == InstanceRole::Unknown ==> r.name() == "unknown"@,
{
}

} // verus!
