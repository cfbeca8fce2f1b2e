//! How the agent calls pgBackRest, and what it says when that fails.

use crate::container::{PGBACKREST_BIN, PGBACKREST_CONF};
use crate::text::{
    append_decimal, begins_with, clone_list, decimal, join, joined, occurs, opt_str,
    split_first_nowhere, texts, trim, trimmed, what_it_begins_with,
};
use vstd::prelude::*;
use vstd::string::*;

verus! {

/// The arguments pgBackRest is given for a command on a stanza.
pub open spec fn run_args(stanza: Seq<char>, args: Seq<Seq<char>>) -> Seq<Seq<char>> {
    seq!["--config="@ + PGBACKREST_CONF@, "--stanza="@ + stanza] + args
}

/// The arguments pgBackRest is given for a command on a stanza.
pub fn arguments(stanza: &str, args: &Vec<String>) -> (r: Vec<String>)
    ensures
        texts(r@) == run_args(stanza@, texts(args@)),
{
    let mut out: Vec<String> = Vec::new();
    let mut config = "--config=".to_owned();
    config.append(PGBACKREST_CONF);
    out.push(config);
    let mut s = "--stanza=".to_owned();
    s.append(stanza);
    out.push(s);
    let ghost head = texts(out@);
    assert(head =~= seq!["--config="@ + PGBACKREST_CONF@, "--stanza="@ + stanza@]);
    let ghost before = out@;
    let mut rest = clone_list(args);
    out.append(&mut rest);
    assert(texts(out@) =~= head + texts(args@));
    out
}

/// Why pgBackRest could not even be started.
pub fn not_mounted() -> (r: String)
    ensures
        r@ == "failed to run "@ + PGBACKREST_BIN@
            + " — the pgBackRest bundle is not mounted. Build it with ops/build-pgbackrest.sh"@,
{
    let mut m = "failed to run ".to_owned();
    m.append(PGBACKREST_BIN);
    m.append(" — the pgBackRest bundle is not mounted. Build it with ops/build-pgbackrest.sh");
    m
}

/// What a failed run wrote: both streams, since pgBackRest logs to one and
/// reports some errors on the other.
pub open spec fn detail(stderr: Seq<char>, stdout: Seq<char>) -> Seq<char> {
    let e = trimmed(stderr);
    let o = trimmed(stdout);
    if e.len() == 0 && o.len() == 0 {
        "(no output)"@
    } else if e.len() == 0 {
        o
    } else if o.len() == 0 {
        e
    } else {
        e + "\n"@ + o
    }
}

pub open spec fn failure_text(
    args: Seq<Seq<char>>,
    status: Seq<char>,
    stderr: Seq<char>,
    stdout: Seq<char>,
) -> Seq<char> {
    "pgbackrest "@ + joined(args, " "@) + " failed ("@ + status + "):\n"@ + detail(stderr, stdout)
}

/// What to say of a failed run.
pub fn failure(args: &Vec<String>, status: &str, stderr: &str, stdout: &str) -> (r: String)
    ensures
        r@ == failure_text(texts(args@), status@, stderr@, stdout@),
{
    let mut m = "pgbackrest ".to_owned();
    m.append(join(args, " ").as_str());
    m.append(" failed (");
    m.append(status);
    m.append("):\n");
    let e = trim(stderr);
    let o = trim(stdout);
    let mut d = String::new();
    if e.unicode_len() == 0 && o.unicode_len() == 0 {
        d = "(no output)".to_owned();
    } else if e.unicode_len() == 0 {
        d = o.to_owned();
    } else if o.unicode_len() == 0 {
        d = e.to_owned();
    } else {
        d = e.to_owned();
        d.append("\n");
        d.append(o);
    }
    m.append(d.as_str());
    m
}

/// The call that creates a stanza, at the port the server is on: during
/// bootstrap that is a private one. Creating a stanza that exists already
/// succeeds.
pub fn ensure_stanza(stanza: &str, port: u16) -> (r: Vec<String>)
    ensures
        texts(r@) == run_args(
            stanza@,
            seq!["stanza-create"@, "--pg1-port="@ + decimal(port as nat)],
        ),
{
    let mut p = "--pg1-port=".to_owned();
    append_decimal(&mut p, port as u64);
    let mut args: Vec<String> = Vec::new();
    args.push("stanza-create".to_owned());
    args.push(p);
    assert(texts(args@) =~= seq!["stanza-create"@, "--pg1-port="@ + decimal(port as nat)]);
    arguments(stanza, &args)
}

pub const BACK_PRESSURE: &'static str =
    "\nArchiving will fail until this is fixed, and pg_wal will grow \
                 — which is the intended back-pressure, not a second bug.";

/// What is logged once a stanza was asked for. Failing is not fatal: the
/// database runs, and archiving says the rest.
pub fn stanza_note(stanza: &str, error: Option<&str>) -> (r: String)
    ensures
        r@ == match opt_str(error) {
            None => "pgbackrest stanza '"@ + stanza@ + "' ready"@,
            Some(e) => "could not create the pgbackrest stanza: "@ + e + BACK_PRESSURE@,
        },
{
    match error {
        None => {
            let mut m = "pgbackrest stanza '".to_owned();
            m.append(stanza);
            m.append("' ready");
            m
        },
        Some(e) => {
            let mut m = "could not create the pgbackrest stanza: ".to_owned();
            m.append(e);
            m.append(BACK_PRESSURE);
            m
        },
    }
}

/// What a restore is told: which backup, and where to stop. With a target it
/// is also told to promote there, since PostgreSQL would otherwise wait for
/// an operator.
pub open spec fn restore_args(set: Option<Seq<char>>, target_time: Option<Seq<char>>) -> Seq<
    Seq<char>,
> {
    let a = seq!["restore"@];
    let a = match set {
        Some(label) => a.push("--set="@ + label),
        None => a,
    };
    match target_time {
        Some(t) => a.push("--type=time"@).push("--target="@ + t).push("--target-action=promote"@),
        None => a,
    }
}

fn add(v: &mut Vec<String>, head: &str, tail: &str)
    ensures
        texts(final(v)@) == texts(old(v)@).push(head@ + tail@),
{
    let mut s = head.to_owned();
    s.append(tail);
    v.push(s);
    assert(texts(v@) =~= texts(old(v)@).push(head@ + tail@));
}

/// The call that restores a stanza.
pub fn restore(stanza: &str, set: Option<&str>, target_time: Option<&str>) -> (r: Vec<String>)
    ensures
        texts(r@) == run_args(stanza@, restore_args(opt_str(set), opt_str(target_time))),
{
    let mut args: Vec<String> = Vec::new();
    args.push("restore".to_owned());
    assert(texts(args@) =~= seq!["restore"@]);
    if let Some(label) = set {
        self::add(&mut args, "--set=", label);
    }
    if let Some(t) = target_time {
        let ghost before = texts(args@);
        args.push("--type=time".to_owned());
        assert(texts(args@) =~= before.push("--type=time"@));
        self::add(&mut args, "--target=", t);
        let ghost before = texts(args@);
        args.push("--target-action=promote".to_owned());
        assert(texts(args@) =~= before.push("--target-action=promote"@));
    }
    arguments(stanza, &args)
}

// ---- what holds of every call ----------------------------------------

/// The arguments of the call that restores a stanza.
pub open spec fn restore_call(
    stanza: Seq<char>,
    set: Option<Seq<char>>,
    target_time: Option<Seq<char>>,
) -> Seq<Seq<char>> {
    run_args(stanza, restore_args(set, target_time))
}

/// An argument says where recovery stops.
pub open spec fn says_where_to_stop(arg: Seq<char>) -> bool {
    begins_with(arg, "--type="@) || begins_with(arg, "--target="@) || begins_with(
        arg,
        "--target-action="@,
    )
}

proof fn another_option(arg: Seq<char>)
    requires
        arg.len() >= 3,
        arg[2] != 't',
    ensures
        !says_where_to_stop(arg),
{
    reveal_strlit("--type=");
    reveal_strlit("--target=");
    reveal_strlit("--target-action=");
    what_it_begins_with(arg, "--type="@);
    what_it_begins_with(arg, "--target="@);
    what_it_begins_with(arg, "--target-action="@);
    assert("--type="@[2] == 't');
    assert("--target="@[2] == 't');
    assert("--target-action="@[2] == 't');
    if begins_with(arg, "--type="@) {
        assert(arg.take(7)[2] == arg[2]);
    }
    if begins_with(arg, "--target="@) {
        assert(arg.take(9)[2] == arg[2]);
    }
    if begins_with(arg, "--target-action="@) {
        assert(arg.take(16)[2] == arg[2]);
    }
}

/// Every call says first which configuration and which stanza it is about, and
/// then what it was asked for, unchanged.
pub proof fn every_call_names_its_stanza(stanza: Seq<char>, args: Seq<Seq<char>>)
    ensures
        run_args(stanza, args).len() == args.len() + 2,
        run_args(stanza, args)[0] == "--config="@ + PGBACKREST_CONF@,
        run_args(stanza, args)[1] == "--stanza="@ + stanza,
        run_args(stanza, args).subrange(2, args.len() as int + 2) == args,
{
    assert(run_args(stanza, args).subrange(2, args.len() as int + 2) =~= args);
}

/// Without a target time recovery runs to the end of the archive: nothing says
/// where to stop, whichever backup it starts from. The call names the
/// configuration, the stanza and the backup, where one was chosen, and no more.
pub proof fn without_a_target_recovery_runs_to_the_end(stanza: Seq<char>, set: Option<Seq<char>>)
    ensures
        forall|i: int|
            0 <= i < restore_call(stanza, set, None).len() ==> !says_where_to_stop(
                #[trigger] restore_call(stanza, set, None)[i],
            ),
        restore_call(stanza, set, None).take(3) == seq![
            "--config="@ + PGBACKREST_CONF@,
            "--stanza="@ + stanza,
            "restore"@,
        ],
        set is None ==> restore_call(stanza, set, None).len() == 3,
        set matches Some(label) ==> restore_call(stanza, set, None).len() == 4 && restore_call(
            stanza,
            set,
            None,
        )[3] == "--set="@ + label,
{
    let r = restore_call(stanza, set, None);
    assert(r.take(3) =~= seq!["--config="@ + PGBACKREST_CONF@, "--stanza="@ + stanza, "restore"@]);
    reveal_strlit("--config=");
    reveal_strlit("--stanza=");
    reveal_strlit("restore");
    reveal_strlit("--set=");
    assert(r[0][2] == "--config="@[2]);
    assert(r[1][2] == "--stanza="@[2]);
    another_option(r[0]);
    another_option(r[1]);
    another_option(r[2]);
    if set is Some {
        assert(r[3][2] == "--set="@[2]);
        another_option(r[3]);
    }
}

/// With a target time recovery stops there and opens the database: the call is
/// that without a target, and the time and the promotion behind it.
pub proof fn a_target_is_reached_and_promoted(
    stanza: Seq<char>,
    set: Option<Seq<char>>,
    time: Seq<char>,
)
    ensures
        ({
            let plain = restore_call(stanza, set, None);
            let r = restore_call(stanza, set, Some(time));
            &&& r.len() == plain.len() + 3
            &&& r.take(plain.len() as int) == plain
            &&& r[plain.len() as int] == "--type=time"@
            &&& r[plain.len() as int + 1] == "--target="@ + time
            &&& r[plain.len() as int + 2] == "--target-action=promote"@
        }),
{
    let plain = restore_call(stanza, set, None);
    let r = restore_call(stanza, set, Some(time));
    assert(r.take(plain.len() as int) =~= plain);
}

/// A restore names the backup that was chosen and no other, and two restores
/// are called alike only where they are of one stanza, from one backup, to one
/// time.
pub proof fn restores_are_told_apart(
    s1: Seq<char>,
    set1: Option<Seq<char>>,
    t1: Option<Seq<char>>,
    s2: Seq<char>,
    set2: Option<Seq<char>>,
    t2: Option<Seq<char>>,
)
    requires
        restore_call(s1, set1, t1) == restore_call(s2, set2, t2),
    ensures
        s1 == s2,
        set1 == set2,
        t1 == t2,
{
    let a = restore_call(s1, set1, t1);
    let b = restore_call(s2, set2, t2);
    tail_after("--stanza="@, s1);
    tail_after("--stanza="@, s2);
    assert(a[1] == "--stanza="@ + s1 && b[1] == "--stanza="@ + s2);
    assert(a.len() == b.len());
    if set1 is Some && set2 is Some {
        tail_after("--set="@, set1->0);
        tail_after("--set="@, set2->0);
        assert(a[3] == b[3]);
    }
    if t1 is Some && t2 is Some {
        tail_after("--target="@, t1->0);
        tail_after("--target="@, t2->0);
        let n = a.len() - 2;
        assert(a[n] == b[n]);
        assert(a[n] == "--target="@ + t1->0);
        assert(b[n] == "--target="@ + t2->0);
    }
}

proof fn tail_after(head: Seq<char>, tail: Seq<char>)
    ensures
        (head + tail).subrange(head.len() as int, (head + tail).len() as int) == tail,
{
    assert((head + tail).subrange(head.len() as int, (head + tail).len() as int) =~= tail);
}

/// What a failed run wrote is all reported, from either stream, and a run that
/// wrote nothing is said to have.
pub proof fn no_complaint_is_lost(stderr: Seq<char>, stdout: Seq<char>)
    ensures
        occurs(detail(stderr, stdout), trimmed(stderr)),
        occurs(detail(stderr, stdout), trimmed(stdout)),
        trimmed(stderr).len() == 0 && trimmed(stdout).len() == 0 ==> detail(stderr, stdout)
            == "(no output)"@,
        trimmed(stdout).len() == 0 && trimmed(stderr).len() > 0 ==> detail(stderr, stdout)
            == trimmed(stderr),
        trimmed(stderr).len() == 0 && trimmed(stdout).len() > 0 ==> detail(stderr, stdout)
            == trimmed(stdout),
{
    let d = detail(stderr, stdout);
    let e = trimmed(stderr);
    let o = trimmed(stdout);
    let none = Seq::<char>::empty();
    split_first_nowhere(d, e);
    split_first_nowhere(d, o);
    if e.len() == 0 {
        assert(d =~= none + e + d);
    } else {
        assert(d =~= none + e + d.subrange(e.len() as int, d.len() as int));
    }
    if o.len() == 0 {
        assert(d =~= none + o + d);
    } else {
        assert(d =~= d.subrange(0, d.len() - o.len()) + o + none);
    }
}

/// What is said of a call that failed: its arguments in their order, how it
/// ended, and its own complaint.
pub proof fn what_is_said_of_a_failed_call(
    args: Seq<Seq<char>>,
    status: Seq<char>,
    stderr: Seq<char>,
    stdout: Seq<char>,
)
    ensures
        failure_text(args, status, stderr, stdout) == ("pgbackrest "@ + joined(args, " "@)
            + " failed ("@ + status + "):\n"@) + detail(stderr, stdout),
{
}

/// What `restore` gives back: without a target nothing that says where to
/// stop; with one, the same call and the target behind it.
pub proof fn what_a_restore_is_called_with(
    stanza: &str,
    set: Option<&str>,
    target_time: Option<&str>,
    r: Vec<String>,
)
    requires
        call_ensures(restore, (stanza, set, target_time), r),
    ensures
        target_time is None ==> forall|i: int|
            0 <= i < r@.len() ==> !says_where_to_stop(#[trigger] texts(r@)[i]),
        target_time is None && set is None ==> r@.len() == 3,
        target_time is None ==> (set matches Some(l) ==> r@.len() == 4 && texts(r@)[3] == "--set="@
            + l@),
        target_time matches Some(t) ==> {
            let n: int = if set is Some { 4 } else { 3 };
            &&& r@.len() == n + 3
            &&& set matches Some(l) ==> texts(r@)[3] == "--set="@ + l@
            &&& texts(r@)[n] == "--type=time"@
            &&& texts(r@)[n + 1] == "--target="@ + t@
            &&& texts(r@)[n + 2] == "--target-action=promote"@
        },
{
    assert(r@.len() == texts(r@).len());
    without_a_target_recovery_runs_to_the_end(stanza@, opt_str(set));
    if let Some(t) = target_time {
        a_target_is_reached_and_promoted(stanza@, opt_str(set), t@);
        let plain = restore_call(stanza@, opt_str(set), None);
        assert(texts(r@).take(plain.len() as int) == plain);
        if set is Some {
            assert(plain[3] == texts(r@)[3]);
        }
    }
}

/// A stanza is made at the server's port, and what came of it is told.
pub proof fn how_a_stanza_is_made(
    stanza: &str,
    port: u16,
    r: Vec<String>,
    error: Option<&str>,
    note: String,
)
    requires
        call_ensures(ensure_stanza, (stanza, port), r),
        call_ensures(stanza_note, (stanza, error), note),
    ensures
        texts(r@) == run_args(
            stanza@,
            seq!["stanza-create"@, "--pg1-port="@ + decimal(port as nat)],
        ),
        error is None ==> note@ == "pgbackrest stanza '"@ + stanza@ + "' ready"@,
        error matches Some(e) ==> note@ == "could not create the pgbackrest stanza: "@ + e@
            + BACK_PRESSURE@,
{
}

} // verus!
