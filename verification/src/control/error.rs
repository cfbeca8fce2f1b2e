//! Errors, each with what to do about it.

use crate::text::{append_decimal, decimal};
use vstd::prelude::*;
use vstd::string::*;

verus! {

/// What can go wrong on the host.
#[derive(Debug)]
pub enum Error {
    PgBackRest { command: String, detail: String },
    Upgrade { step: String, detail: String },
    PgBackRestMissing(String),
    AgentMissing(String),
    PortAllocation(String),
    NotReady { instance: String, seconds: u64, detail: String },
    Diverged { instance: String, detail: String },
    PoolerDiverged { pooler: String, detail: String },
    /// What a container was told, or is to be told, is not a specification.
    Spec(String),
    Invalid(String),
}

/// [`Error`], over text.
pub enum ErrorView {
    PgBackRest { command: Seq<char>, detail: Seq<char> },
    Upgrade { step: Seq<char>, detail: Seq<char> },
    PgBackRestMissing(Seq<char>),
    AgentMissing(Seq<char>),
    PortAllocation(Seq<char>),
    NotReady { instance: Seq<char>, seconds: u64, detail: Seq<char> },
    Diverged { instance: Seq<char>, detail: Seq<char> },
    PoolerDiverged { pooler: Seq<char>, detail: Seq<char> },
    Spec(Seq<char>),
    Invalid(Seq<char>),
}

impl View for Error {
    type V = ErrorView;

    open spec fn view(&self) -> ErrorView {
        match *self {
            Error::PgBackRest { command, detail } => ErrorView::PgBackRest {
                command: command@,
                detail: detail@,
            },
            Error::Upgrade { step, detail } => ErrorView::Upgrade { step: step@, detail: detail@ },
            Error::PgBackRestMissing(p) => ErrorView::PgBackRestMissing(p@),
            Error::AgentMissing(p) => ErrorView::AgentMissing(p@),
            Error::PortAllocation(m) => ErrorView::PortAllocation(m@),
            Error::NotReady { instance, seconds, detail } => ErrorView::NotReady {
                instance: instance@,
                seconds,
                detail: detail@,
            },
            Error::Diverged { instance, detail } => ErrorView::Diverged {
                instance: instance@,
                detail: detail@,
            },
            Error::PoolerDiverged { pooler, detail } => ErrorView::PoolerDiverged {
                pooler: pooler@,
                detail: detail@,
            },
            Error::Spec(m) => ErrorView::Spec(m@),
            Error::Invalid(m) => ErrorView::Invalid(m@),
        }
    }
}

pub const DIVERGED_HEAD: &'static str =
    " is running a different spec than the manifest describes, and \
         the spec is fixed when the container is created — a restart would \
         re-run the agent with the old one.\n\n";

pub const DIVERGED_TAIL: &'static str =
    "\n\n\
         Applying this means replacing the container:\n\n  \
         pgpod apply -f <manifest> --recreate\n\n\
         With a pooler in front, clients are held across that window rather \
         than dropped (ADR 05). Without one, every open connection goes. \
         `pgpod delete <cluster>` followed by `pgpod apply` does the same \
         thing the long way and keeps the volume either way.";

pub const POOLER_DIVERGED_HEAD: &'static str =
    " is running a different spec than the manifest \
         describes, and the spec is fixed when the container is created.\n\n";

pub const POOLER_DIVERGED_MIDDLE: &'static str =
    "\n\n\
         Replacing it drops every connection through it — there is nothing in \
         front of a pooler to hold them — so pgpod will not do it \
         implicitly:\n  pgpod pooler delete ";

pub const POOLER_DIVERGED_TAIL: &'static str =
    "\n  pgpod apply -f \
         <manifest>\n\n\
         Nothing durable is destroyed: a pooler has no volume and re-renders \
         its config on every start.";

/// What an error says.
pub open spec fn error_text(e: ErrorView) -> Seq<char> {
    match e {
        ErrorView::PgBackRest { command, detail } => "pgbackrest "@ + command + " failed\n\n"@
            + detail,
        ErrorView::Upgrade { step, detail } => "the "@ + step
            + " step of the upgrade failed\n\n"@ + detail,
        ErrorView::PgBackRestMissing(p) => "the pgBackRest bundle is not installed at "@ + p
            + " — build it with ops/build-pgbackrest.sh"@,
        ErrorView::AgentMissing(p) => "the pgpod agent is not installed at "@ + p
            + " — build and install it with ops/build-agent.sh"@,
        ErrorView::PortAllocation(m) => "could not allocate a host port: "@ + m,
        ErrorView::NotReady { instance, seconds, detail } => "instance "@ + instance
            + " did not become ready within "@ + decimal(seconds as nat) + "s\n"@ + detail,
        ErrorView::Diverged { instance, detail } => instance + DIVERGED_HEAD@ + detail
            + DIVERGED_TAIL@,
        ErrorView::PoolerDiverged { pooler, detail } => "pooler "@ + pooler
            + POOLER_DIVERGED_HEAD@ + detail + POOLER_DIVERGED_MIDDLE@ + pooler
            + POOLER_DIVERGED_TAIL@,
        ErrorView::Spec(m) => m,
        ErrorView::Invalid(m) => m,
    }
}

fn three(a: &str, b: &str, c: &str, d: &str) -> (r: String)
    ensures
        r@ == a@ + b@ + c@ + d@,
{
    let mut s = a.to_owned();
    s.append(b);
    s.append(c);
    s.append(d);
    s
}

impl Error {
    /// The message.
    pub fn to_text(&self) -> (r: String)
        ensures
            r@ == error_text(self@),
    {
        match self {
            Error::PgBackRest { command, detail } => three(
                "pgbackrest ",
                command.as_str(),
                " failed\n\n",
                detail.as_str(),
            ),
            Error::Upgrade { step, detail } => three(
                "the ",
                step.as_str(),
                " step of the upgrade failed\n\n",
                detail.as_str(),
            ),
            Error::PgBackRestMissing(p) => {
                let mut s = "the pgBackRest bundle is not installed at ".to_owned();
                s.append(p.as_str());
                s.append(" — build it with ops/build-pgbackrest.sh");
                s
            },
            Error::AgentMissing(p) => {
                let mut s = "the pgpod agent is not installed at ".to_owned();
                s.append(p.as_str());
                s.append(" — build and install it with ops/build-agent.sh");
                s
            },
            Error::PortAllocation(m) => {
                let mut s = "could not allocate a host port: ".to_owned();
                s.append(m.as_str());
                s
            },
            Error::NotReady { instance, seconds, detail } => {
                let mut s = "instance ".to_owned();
                s.append(instance.as_str());
                s.append(" did not become ready within ");
                append_decimal(&mut s, *seconds);
                s.append("s\n");
                s.append(detail.as_str());
                s
            },
            Error::Diverged { instance, detail } => three(
                instance.as_str(),
                DIVERGED_HEAD,
                detail.as_str(),
                DIVERGED_TAIL,
            ),
            Error::PoolerDiverged { pooler, detail } => {
                let mut s = "pooler ".to_owned();
                s.append(pooler.as_str());
                s.append(POOLER_DIVERGED_HEAD);
                s.append(detail.as_str());
                s.append(POOLER_DIVERGED_MIDDLE);
                s.append(pooler.as_str());
                s.append(POOLER_DIVERGED_TAIL);
                s
            },
            Error::Spec(m) => m.clone(),
            Error::Invalid(m) => m.clone(),
        }
    }
}

/// What each error says: what failed, where, and its own detail behind it.
pub proof fn what_each_error_says(e: Error, r: String)
    requires
        call_ensures(Error::to_text, (&e,), r),
    ensures
        e matches Error::PgBackRest { command, detail } ==> r@ == "pgbackrest "@ + command@
            + " failed\n\n"@ + detail@,
        e matches Error::Upgrade { step, detail } ==> r@ == "the "@ + step@
            + " step of the upgrade failed\n\n"@ + detail@,
        e matches Error::PgBackRestMissing(p) ==> r@
            == "the pgBackRest bundle is not installed at "@ + p@
            + " — build it with ops/build-pgbackrest.sh"@,
        e matches Error::AgentMissing(p) ==> r@ == "the pgpod agent is not installed at "@ + p@
            + " — build and install it with ops/build-agent.sh"@,
        e matches Error::PortAllocation(m) ==> r@ == "could not allocate a host port: "@ + m@,
        e matches Error::NotReady { instance, seconds, detail } ==> r@ == "instance "@ + instance@
            + " did not become ready within "@ + decimal(seconds as nat) + "s\n"@ + detail@,
        e matches Error::Diverged { instance, detail } ==> r@ == instance@ + DIVERGED_HEAD@ + detail@
            + DIVERGED_TAIL@,
        e matches Error::PoolerDiverged { pooler, detail } ==> r@ == "pooler "@ + pooler@
            + POOLER_DIVERGED_HEAD@ + detail@ + POOLER_DIVERGED_MIDDLE@ + pooler@
            + POOLER_DIVERGED_TAIL@,
        e matches Error::Spec(m) ==> r@ == m@,
        e matches Error::Invalid(m) ==> r@ == m@,
{
}

} // verus!
