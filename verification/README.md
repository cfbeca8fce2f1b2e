# pgpod

A PostgreSQL operator for rootless Podman, on a single host. What it decides
is a library verified with Verus; what it does to the host is ordinary Rust
around that library.

- `src/` is the verified library.
  - `agent/` is what runs inside a container: bringing a data directory into
    being, being pid 1, steering a pooler, finding what an installation links
    against, and carrying out a major-version upgrade.
  - `backup/` renders pgBackRest's configuration and reads what it reports.
  - `control/` decides what to create, keep, replace or refuse: applying a
    manifest, secrets, poolers, backups and restores, upgrades, deletion, and
    recovery after a reboot.
  - `cli/` is what the command prints, and the doctor.
  - `text`, `path`, `time` and `container` are what the others share.
- `app/` is the command and the agent: podman, the registry, files, sockets
  and processes. One executable serves both, by the name it is called under.
- `tests/` runs the library.

An operation that alternates between decisions and work on the host is a state
machine in the library: it is handed what came of the last action and answers
with the next one. Its `step` is stated by a predicate over states, events and
actions, and the public proof functions beside it say what holds of every run:
that data moves only after `pg_upgrade` succeeded, that a refused apply leaves
nothing behind, that a refused restore creates nothing, that a plain delete
keeps the volumes, that boot recovery stops for no single container.

What the library takes on trust is marked `external_body` or
`assume_specification`: chrono's calendar, the random number generator, and
three functions of the standard library on strings.
