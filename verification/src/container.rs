//! What an instance container looks like from the inside: the paths and
//! ports everything else agrees on.

use crate::text::{append_decimal, decimal};
use vstd::prelude::*;
use vstd::string::*;

verus! {

/// Where the instance's volume is mounted.
pub const VOLUME_MOUNT: &'static str = "/pgdata";

/// The data directory, inside the volume.
pub const PGDATA: &'static str = "/pgdata/pgdata";

/// Where a major upgrade builds the new data directory.
pub const PGDATA_NEW: &'static str = "/pgdata/pgdata-new";

/// What a data directory kept after a major upgrade is called, before its
/// version.
pub const PGDATA_OLD_PREFIX: &'static str = "/pgdata/pgdata-old-";

/// The directory of the unix sockets, inside the volume.
pub const SOCKET_DIR: &'static str = "/pgdata/run";

/// The agent's own configuration fragments.
pub const CONF_DIR: &'static str = "/pgdata/conf";

/// pgBackRest's spool directory.
pub const SPOOL_DIR: &'static str = "/pgdata/spool";

/// pgBackRest's log directory.
pub const LOG_DIR: &'static str = "/pgdata/log";

/// Where a major upgrade keeps what it needs.
pub const UPGRADE_DIR: &'static str = "/pgdata/upgrade";

/// Where the old version's files are staged.
pub const UPGRADE_STAGE_DIR: &'static str = "/pgdata/upgrade/old";

/// Where the scripts that run the old version's programs stand.
pub const UPGRADE_WRAPPER_DIR: &'static str = "/pgdata/upgrade/bin";

/// The rendered `pgbackrest.conf`.
pub const PGBACKREST_CONF: &'static str = "/pgdata/conf/pgbackrest.conf";

/// Where the pgBackRest bundle is mounted.
pub const PGBACKREST_BUNDLE: &'static str = "/opt/pgbackrest";

/// The bundle's wrapper script.
pub const PGBACKREST_BIN: &'static str = "/opt/pgbackrest/bin/pgbackrest";

/// The bundle's trust store.
pub const PGBACKREST_CA_FILE: &'static str = "/opt/pgbackrest/etc/ca-certificates.crt";

/// Where an archive volume is mounted.
pub const ARCHIVE_MOUNT: &'static str = "/archive";

/// The agent binary.
pub const AGENT_BIN: &'static str = "/usr/local/bin/pgpod-agent";

/// The agent's status socket.
pub const STATUS_SOCKET: &'static str = "/pgdata/run/pgpod-agent.sock";

/// The superuser's password.
pub const SECRET_SUPERUSER: &'static str = "/run/secrets/superuser";

/// The replication role's password.
pub const SECRET_REPLICATION: &'static str = "/run/secrets/replication";

/// The monitoring role's password.
pub const SECRET_MONITOR: &'static str = "/run/secrets/monitor";

/// The application owner's password.
pub const SECRET_APP_OWNER: &'static str = "/run/secrets/app-owner";

/// The pooler's administration password.
pub const SECRET_POOLER_ADMIN: &'static str = "/run/secrets/pooler-admin";

/// The pooler binary.
pub const POOLER_BIN: &'static str = "/usr/local/bin/pg_doorman";

/// The pooler's writable directory.
pub const POOLER_DIR: &'static str = "/pooler";

/// The pooler's rendered configuration.
pub const POOLER_CONF: &'static str = "/pooler/pg_doorman.toml";

/// The socket through which a pooler is told to hold and release.
pub const POOLER_CONTROL_SOCKET: &'static str = "/pooler/control.sock";

/// The pooler's administration database.
pub const POOLER_ADMIN_DB: &'static str = "pgdoorman";

/// The pooler's administration user.
pub const POOLER_ADMIN_USER: &'static str = "admin";

/// The port a pooler listens on.
pub const POOLER_PORT: u16 = 6432;

/// The port PostgreSQL listens on.
pub const PG_PORT: u16 = 5432;

/// The port PostgreSQL listens on while a cluster is bootstrapped.
pub const BOOTSTRAP_PORT: u16 = 5433;

/// The user id of `postgres` where the image does not say.
pub const DEFAULT_POSTGRES_UID: u32 = 999;

/// The variable an instance's specification is handed over in.
pub const SPEC_ENV: &'static str = "PGPOD_INSTANCE_SPEC";

/// The variable a pooler's specification is handed over in.
pub const POOLER_SPEC_ENV: &'static str = "PGPOD_POOLER_SPEC";

/// The variable an upgrade's specification is handed over in.
pub const UPGRADE_SPEC_ENV: &'static str = "PGPOD_UPGRADE_SPEC";

/// Where the credentials of a destination are mounted.
pub open spec fn credentials_target(index: nat) -> Seq<char> {
    "/run/secrets/backup-"@ + decimal(index)
}

/// Where the credentials of a destination are mounted.
pub fn credentials_path(index: usize) -> (r: String)
    ensures
        r@ == credentials_target(index as nat),
{
    let mut s = "/run/secrets/backup-".to_owned();
    append_decimal(&mut s, index as u64);
    s
}

/// Where the password of a cluster's lookup role is mounted in a pooler.
pub open spec fn lookup_target(index: nat) -> Seq<char> {
    "/run/secrets/pooler-lookup-"@ + decimal(index)
}

/// Where the password of a cluster's lookup role is mounted in a pooler.
pub fn lookup_path(index: usize) -> (r: String)
    ensures
        r@ == lookup_target(index as nat),
{
    let mut s = "/run/secrets/pooler-lookup-".to_owned();
    append_decimal(&mut s, index as u64);
    s
}

/// Where everything is inside a container, and which ports are whose: the
/// host and the agent have to agree on it.
pub proof fn well_known_places()
    ensures
        VOLUME_MOUNT@ == "/pgdata"@,
        PGDATA@ == "/pgdata/pgdata"@,
        PGDATA_NEW@ == "/pgdata/pgdata-new"@,
        PGDATA_OLD_PREFIX@ == "/pgdata/pgdata-old-"@,
        SOCKET_DIR@ == "/pgdata/run"@,
        CONF_DIR@ == "/pgdata/conf"@,
        SPOOL_DIR@ == "/pgdata/spool"@,
        LOG_DIR@ == "/pgdata/log"@,
        UPGRADE_DIR@ == "/pgdata/upgrade"@,
        UPGRADE_STAGE_DIR@ == "/pgdata/upgrade/old"@,
        UPGRADE_WRAPPER_DIR@ == "/pgdata/upgrade/bin"@,
        PGBACKREST_CONF@ == "/pgdata/conf/pgbackrest.conf"@,
        PGBACKREST_BUNDLE@ == "/opt/pgbackrest"@,
        PGBACKREST_BIN@ == "/opt/pgbackrest/bin/pgbackrest"@,
        PGBACKREST_CA_FILE@ == "/opt/pgbackrest/etc/ca-certificates.crt"@,
        ARCHIVE_MOUNT@ == "/archive"@,
        AGENT_BIN@ == "/usr/local/bin/pgpod-agent"@,
        STATUS_SOCKET@ == "/pgdata/run/pgpod-agent.sock"@,
        SECRET_SUPERUSER@ == "/run/secrets/superuser"@,
        SECRET_REPLICATION@ == "/run/secrets/replication"@,
        SECRET_MONITOR@ == "/run/secrets/monitor"@,
        SECRET_APP_OWNER@ == "/run/secrets/app-owner"@,
        SECRET_POOLER_ADMIN@ == "/run/secrets/pooler-admin"@,
        POOLER_BIN@ == "/usr/local/bin/pg_doorman"@,
        POOLER_DIR@ == "/pooler"@,
        POOLER_CONF@ == "/pooler/pg_doorman.toml"@,
        POOLER_CONTROL_SOCKET@ == "/pooler/control.sock"@,
        POOLER_ADMIN_DB@ == "pgdoorman"@,
        POOLER_ADMIN_USER@ == "admin"@,
        SPEC_ENV@ == "PGPOD_INSTANCE_SPEC"@,
        POOLER_SPEC_ENV@ == "PGPOD_POOLER_SPEC"@,
        UPGRADE_SPEC_ENV@ == "PGPOD_UPGRADE_SPEC"@,
        POOLER_PORT == 6432,
        PG_PORT == 5432,
        BOOTSTRAP_PORT == 5433,
        DEFAULT_POSTGRES_UID == 999,
{
}

} // verus!
