//! Being process 1: which signal is passed on as which, and when the
//! supervised program is gone.

use vstd::prelude::*;
use vstd::string::*;

verus! {

/// The signals the agent acts on.
#[derive(Debug, Clone, Copy, PartialEq, Eq, Structural)]
pub enum Signal {
    Term,
    Int,
    Hup,
}

/// The program that is supervised.
#[derive(Debug, Clone, Copy, PartialEq, Eq, Structural)]
pub enum Program {
    Postgres,
    Pooler,
}

impl Program {
    /// The program's name.
    pub open spec fn name(&self) -> Seq<char> {
        match *self {
            Program::Postgres => "postgres"@,
            Program::Pooler => "pg_doorman"@,
        }
    }

    /// The program's name.
    pub fn as_str(&self) -> (r: &'static str)
        ensures
            r@ == self.name(),
    {
        match self {
            Program::Postgres => "postgres",
            Program::Pooler => "pg_doorman",
        }
    }
}

/// What a caught signal is passed on as.
pub open spec fn passed_on(program: Program, caught: Signal) -> Option<Signal> {
    match (program, caught) {
        (Program::Postgres, Signal::Hup) => None,
        (Program::Postgres, _) => Some(Signal::Int),
        (Program::Pooler, Signal::Hup) => Some(Signal::Hup),
        (Program::Pooler, _) => Some(Signal::Term),
    }
}

/// What a caught signal is passed on as. PostgreSQL is asked for a fast
/// shutdown rather than one that waits for clients; the pooler is always
/// stopped with SIGTERM; only the pooler reloads.
pub fn forward(program: Program, caught: Signal) -> (r: Option<Signal>)
    ensures
        r == passed_on(program, caught),
{
    match (program, caught) {
        (Program::Postgres, Signal::Hup) => None,
        (Program::Postgres, _) => Some(Signal::Int),
        (Program::Pooler, Signal::Hup) => Some(Signal::Hup),
        (Program::Pooler, _) => Some(Signal::Term),
    }
}

/// What waiting for a child brought.
#[derive(Debug, Clone)]
pub enum Waited {
    Exited { pid: i32, code: i32 },
    Signaled { pid: i32, signal: u8 },
    StillAlive,
    NoChildren,
    Failed(String),
    Other,
}

/// What follows.
#[derive(Debug, Clone)]
pub enum Reaped {
    /// Wait again: it was an orphan, or nothing of note.
    Again,
    /// Nothing left to reap for now.
    Nothing,
    /// The program is gone; exit with this code.
    Gone(i32),
    Broken(String),
}

/// What a wait says of the program with this process id. A death by signal
/// is encoded as a shell does, so that it is told apart from an exit.
pub open spec fn reaps_as(program: Program, pid: i32, w: Waited, r: Reaped) -> bool {
    match w {
        Waited::Exited { pid: p, code } => if p == pid {
            r == Reaped::Gone(code)
        } else {
            r is Again
        },
        Waited::Signaled { pid: p, signal } => if p == pid {
            r matches Reaped::Gone(c) && c == 128 + signal
        } else {
            r is Again
        },
        Waited::StillAlive => r is Nothing,
        Waited::Other => r is Again,
        Waited::NoChildren => r matches Reaped::Broken(m) && m@ == program.name()
            + " disappeared without reporting an exit status"@,
        Waited::Failed(e) => r matches Reaped::Broken(m) && m@ == "waitpid failed: "@ + e@,
    }
}

/// Decides what a wait means.
pub fn reap(program: Program, pid: i32, w: &Waited) -> (r: Reaped)
    ensures
        reaps_as(program, pid, *w, r),
{
    match w {
        Waited::Exited { pid: p, code } => if *p == pid {
            Reaped::Gone(*code)
        } else {
            Reaped::Again
        },
        Waited::Signaled { pid: p, signal } => if *p == pid {
            Reaped::Gone(128 + *signal as i32)
        } else {
            Reaped::Again
        },
        Waited::StillAlive => Reaped::Nothing,
        Waited::Other => Reaped::Again,
        Waited::NoChildren => {
            let mut m = program.as_str().to_owned();
            m.append(" disappeared without reporting an exit status");
            Reaped::Broken(m)
        },
        Waited::Failed(e) => {
            let mut m = "waitpid failed: ".to_owned();
            m.append(e.as_str());
            Reaped::Broken(m)
        },
    }
}

/// The agent leaves only for its own program: another child's end never ends
/// it.
pub proof fn an_orphan_is_not_the_program(program: Program, pid: i32, w: Waited, r: Reaped)
    requires
        reaps_as(program, pid, w, r),
        r is Gone,
    ensures
        match w {
            Waited::Exited { pid: p, .. } => p == pid,
            Waited::Signaled { pid: p, .. } => p == pid,
            _ => false,
        },
{
}

/// Whatever ends the agent ends its program: PostgreSQL is asked to shut down
/// fast, which disconnects its clients, and never to wait for them; the pooler
/// is asked to stop. A hang-up ends neither, and reloads the pooler alone.
pub proof fn a_stop_is_passed_on(program: Program, caught: Signal)
    ensures
        caught != Signal::Hup && program == Program::Postgres ==> passed_on(program, caught) == Some(
            Signal::Int,
        ),
        caught != Signal::Hup && program == Program::Pooler ==> passed_on(program, caught) == Some(
            Signal::Term,
        ),
        caught == Signal::Hup && program == Program::Postgres ==> passed_on(program, caught) is None,
        caught == Signal::Hup && program == Program::Pooler ==> passed_on(program, caught) == Some(
            Signal::Hup,
        ),
{
}

/// The agent leaves with its program's own exit code, or with 128 and the
/// signal that killed it; as long as the program lives it waits on.
pub proof fn the_exit_code_is_the_programs(program: Program, pid: i32, w: Waited, r: Reaped)
    requires
        reaps_as(program, pid, w, r),
    ensures
        w matches Waited::Exited { pid: p, code } ==> p == pid ==> r == Reaped::Gone(code),
        w matches Waited::Signaled { pid: p, signal } ==> p == pid ==> (r matches Reaped::Gone(c)
            && c == signal + 128),
        w matches Waited::Exited { pid: p, .. } ==> p != pid ==> r is Again,
        w matches Waited::Signaled { pid: p, .. } ==> p != pid ==> r is Again,
        w is StillAlive ==> r is Nothing,
        w is Other ==> r is Again,
        w is NoChildren || w is Failed ==> r is Broken,
{
}

} // verus!
