//! Replacing the container of an instance while its clients are held.

use crate::control::pooler::{recreated_note, unheld_note};
use crate::text::decimal;
use vstd::prelude::*;
use vstd::string::*;

verus! {

/// Where a replacement stands.
#[derive(Debug, Clone, Copy, PartialEq, Eq, Structural)]
pub enum Stage {
    Start,
    Holding,
    /// Logging that nobody is held.
    Warning,
    /// Logging that the container is about to go.
    Announcing,
    Removing,
    /// Logging that a new one is about to come.
    Preparing,
    Creating,
    Waiting,
    Releasing,
    Logging,
    /// Letting the clients go after a failure.
    Undoing,
    /// Logging the failure.
    Complaining,
    Ended,
}

/// What came of the last action.
#[derive(Debug, Clone)]
pub enum Event {
    Begin,
    Done,
    /// This many poolers hold the cluster's clients.
    Held(usize),
    /// The new container runs, under this id.
    Created(String),
    /// The clients were let go, this many milliseconds after the beginning.
    Released(u64),
    Failed(String),
}

/// What to do next.
#[derive(Debug, Clone)]
pub enum Act {
    /// The event does not belong to this stage.
    Ignore,
    HoldPoolers,
    Log { level: &'static str, message: String },
    /// Stop the container and remove it.
    Remove,
    /// Create a container and start it.
    Create,
    WaitReady,
    /// Let the clients go, after the poolers reconnect.
    Release,
    /// Let the clients go as they are, whoever refuses.
    LetGo,
    /// This is the instance's container now.
    Replaced(String),
    Fail(String),
}

/// [`Act`], over text.
pub enum ActView {
    Ignore,
    HoldPoolers,
    Log { level: Seq<char>, message: Seq<char> },
    Remove,
    Create,
    WaitReady,
    Release,
    LetGo,
    Replaced(Seq<char>),
    Fail(Seq<char>),
}

impl View for Act {
    type V = ActView;

    open spec fn view(&self) -> ActView {
        match *self {
            Act::Ignore => ActView::Ignore,
            Act::HoldPoolers => ActView::HoldPoolers,
            Act::Log { level, message } => ActView::Log { level: level@, message: message@ },
            Act::Remove => ActView::Remove,
            Act::Create => ActView::Create,
            Act::WaitReady => ActView::WaitReady,
            Act::Release => ActView::Release,
            Act::LetGo => ActView::LetGo,
            Act::Replaced(id) => ActView::Replaced(id@),
            Act::Fail(m) => ActView::Fail(m@),
        }
    }
}

/// A replacement under way.
#[derive(Debug, Clone)]
pub struct Recreate {
    pub stage: Stage,
    /// How many poolers were held.
    pub held: usize,
    /// The new container.
    pub container: String,
    /// What failed while the clients were held.
    pub error: String,
}

/// [`Recreate`], over text.
pub struct RecreateView {
    pub stage: Stage,
    pub held: usize,
    pub container: Seq<char>,
    pub error: Seq<char>,
}

impl View for Recreate {
    type V = RecreateView;

    open spec fn view(&self) -> RecreateView {
        RecreateView {
            stage: self.stage,
            held: self.held,
            container: self.container@,
            error: self.error@,
        }
    }
}

pub const REMOVING: &'static str = "removing the container to apply a changed spec";

pub const CREATING: &'static str = "creating the replacement container";

pub open spec fn unheld_text() -> Seq<char> {
    "recreating with no pooler in front — open connections will drop"@
}

pub open spec fn recreated_text(millis: u64, held: usize) -> Seq<char> {
    "recreated in "@ + decimal(millis as nat) + "ms; "@ + decimal(held as nat)
        + " pooler(s) held clients throughout"@
}

pub open spec fn failed_text(e: Seq<char>) -> Seq<char> {
    "recreate failed: "@ + e
}

pub open spec fn at(s: RecreateView, stage: Stage) -> RecreateView {
    RecreateView { stage, ..s }
}

pub open spec fn info(message: Seq<char>) -> ActView {
    ActView::Log { level: "info"@, message }
}

/// The clients are held and the instance is not back yet.
pub open spec fn in_the_window(stage: Stage) -> bool {
    stage == Stage::Announcing || stage == Stage::Removing || stage == Stage::Preparing || stage
        == Stage::Creating || stage == Stage::Waiting
}

/// What follows a success that brings nothing but itself.
pub open spec fn after_done(s: RecreateView) -> (RecreateView, ActView) {
    match s.stage {
        Stage::Warning => (at(s, Stage::Announcing), info(REMOVING@)),
        Stage::Announcing => (at(s, Stage::Removing), ActView::Remove),
        Stage::Removing => (at(s, Stage::Preparing), info(CREATING@)),
        Stage::Preparing => (at(s, Stage::Creating), ActView::Create),
        Stage::Waiting => (at(s, Stage::Releasing), ActView::Release),
        Stage::Logging => (at(s, Stage::Ended), ActView::Replaced(s.container)),
        Stage::Undoing => (
            at(s, Stage::Complaining),
            ActView::Log { level: "error"@, message: failed_text(s.error) },
        ),
        Stage::Complaining => (at(s, Stage::Ended), ActView::Fail(s.error)),
        _ => (s, ActView::Ignore),
    }
}

/// What follows a failure. While the clients are held they are let go first.
pub open spec fn after_failure(s: RecreateView, e: Seq<char>) -> (RecreateView, ActView) {
    if s.stage == Stage::Start || s.stage == Stage::Ended {
        (s, ActView::Ignore)
    } else if in_the_window(s.stage) {
        (RecreateView { stage: Stage::Undoing, error: e, ..s }, ActView::LetGo)
    } else if s.stage == Stage::Undoing {
        after_done(s)
    } else {
        (at(s, Stage::Ended), ActView::Fail(e))
    }
}

/// What follows an event.
pub open spec fn after(s: RecreateView, ev: Event) -> (RecreateView, ActView) {
    match ev {
        Event::Begin => if s.stage == Stage::Start {
            (at(s, Stage::Holding), ActView::HoldPoolers)
        } else {
            (s, ActView::Ignore)
        },
        Event::Done => after_done(s),
        Event::Held(n) => if s.stage == Stage::Holding {
            if n == 0 {
                (
                    RecreateView { stage: Stage::Warning, held: n, ..s },
                    ActView::Log { level: "warn"@, message: unheld_text() },
                )
            } else {
                (RecreateView { stage: Stage::Announcing, held: n, ..s }, info(REMOVING@))
            }
        } else {
            (s, ActView::Ignore)
        },
        Event::Created(id) => if s.stage == Stage::Creating {
            (RecreateView { stage: Stage::Waiting, container: id@, ..s }, ActView::WaitReady)
        } else {
            (s, ActView::Ignore)
        },
        Event::Released(ms) => if s.stage == Stage::Releasing {
            (at(s, Stage::Logging), info(recreated_text(ms, s.held)))
        } else {
            (s, ActView::Ignore)
        },
        Event::Failed(e) => after_failure(s, e@),
    }
}

fn note(message: &str) -> (r: Act)
    ensures
        r@ == info(message@),
{
    Act::Log { level: "info", message: message.to_owned() }
}

impl Recreate {
    /// A replacement that has not begun.
    pub fn new() -> (r: Self)
        ensures
            r@ == (RecreateView {
                stage: Stage::Start,
                held: 0,
                container: Seq::empty(),
                error: Seq::empty(),
            }),
    {
        Recreate {
            stage: Stage::Start,
            held: 0,
            container: String::new(),
            error: String::new(),
        }
    }

    fn done(&mut self) -> (act: Act)
        ensures
            (final(self)@, act@) == after_done(old(self)@),
    {
        match self.stage {
            Stage::Warning => {
                self.stage = Stage::Announcing;
                note(REMOVING)
            },
            Stage::Announcing => {
                self.stage = Stage::Removing;
                Act::Remove
            },
            Stage::Removing => {
                self.stage = Stage::Preparing;
                note(CREATING)
            },
            Stage::Preparing => {
                self.stage = Stage::Creating;
                Act::Create
            },
            Stage::Waiting => {
                self.stage = Stage::Releasing;
                Act::Release
            },
            Stage::Logging => {
                self.stage = Stage::Ended;
                Act::Replaced(self.container.clone())
            },
            Stage::Undoing => {
                self.stage = Stage::Complaining;
                let mut message = "recreate failed: ".to_owned();
                message.append(self.error.as_str());
                Act::Log { level: "error", message }
            },
            Stage::Complaining => {
                self.stage = Stage::Ended;
                Act::Fail(self.error.clone())
            },
            _ => Act::Ignore,
        }
    }

    fn failure(&mut self, e: &str) -> (act: Act)
        ensures
            (final(self)@, act@) == after_failure(old(self)@, e@),
    {
        match self.stage {
            Stage::Start | Stage::Ended => Act::Ignore,
            Stage::Announcing
            | Stage::Removing
            | Stage::Preparing
            | Stage::Creating
            | Stage::Waiting => {
                self.stage = Stage::Undoing;
                self.error = e.to_owned();
                Act::LetGo
            },
            Stage::Undoing => self.done(),
            _ => {
                self.stage = Stage::Ended;
                Act::Fail(e.to_owned())
            },
        }
    }

    /// Takes in what came of the last action, and says what to do next.
    pub fn step(&mut self, ev: &Event) -> (act: Act)
        ensures
            (final(self)@, act@) == after(old(self)@, *ev),
    {
        match ev {
            Event::Begin => {
                if self.stage != Stage::Start {
                    return Act::Ignore;
                }
                self.stage = Stage::Holding;
                Act::HoldPoolers
            },
            Event::Done => self.done(),
            Event::Held(n) => {
                if self.stage != Stage::Holding {
                    return Act::Ignore;
                }
                self.held = *n;
                match unheld_note(*n) {
                    Some(warning) => {
                        self.stage = Stage::Warning;
                        Act::Log { level: "warn", message: warning.to_owned() }
                    },
                    None => {
                        self.stage = Stage::Announcing;
                        note(REMOVING)
                    },
                }
            },
            Event::Created(id) => {
                if self.stage != Stage::Creating {
                    return Act::Ignore;
                }
                self.stage = Stage::Waiting;
                self.container = id.clone();
                Act::WaitReady
            },
            Event::Released(ms) => {
                if self.stage != Stage::Releasing {
                    return Act::Ignore;
                }
                self.stage = Stage::Logging;
                Act::Log { level: "info", message: recreated_note(*ms, self.held) }
            },
            Event::Failed(e) => self.failure(e.as_str()),
        }
    }
}

// ---- what holds of every run -----------------------------------------

/// Where a run of events leads.
pub open spec fn run(s: RecreateView, evs: Seq<Event>) -> RecreateView
    decreases evs.len(),
{
    if evs.len() == 0 {
        s
    } else {
        after(run(s, evs.drop_last()), evs.last()).0
    }
}

/// The poolers said that they hold.
pub open spec fn held(evs: Seq<Event>) -> bool {
    exists|i: int| 0 <= i < evs.len() && (#[trigger] evs[i]) is Held
}

/// A container was created.
pub open spec fn created(evs: Seq<Event>) -> bool {
    exists|i: int| 0 <= i < evs.len() && (#[trigger] evs[i]) is Created
}

/// The clients were let go.
pub open spec fn released(evs: Seq<Event>) -> bool {
    exists|i: int| 0 <= i < evs.len() && (#[trigger] evs[i]) is Released
}

/// What every run has seen by the time it gets somewhere.
proof fn along_the_way(s: RecreateView, evs: Seq<Event>)
    requires
        s.stage == Stage::Start,
    ensures
        ({
            let t = run(s, evs).stage;
            &&& t == Stage::Warning || in_the_window(t) || t == Stage::Releasing || t
                == Stage::Logging ==> held(evs)
            &&& t == Stage::Waiting || t == Stage::Releasing || t == Stage::Logging ==> created(evs)
            &&& t == Stage::Logging ==> released(evs)
        }),
    decreases evs.len(),
{
    if evs.len() > 0 {
        let before = evs.drop_last();
        along_the_way(s, before);
        let n = evs.len() - 1;
        assert(evs[n] == evs.last());
        if held(before) {
            let i = choose|i: int| 0 <= i < before.len() && (#[trigger] before[i]) is Held;
            assert(evs[i] is Held);
        }
        if created(before) {
            let i = choose|i: int| 0 <= i < before.len() && (#[trigger] before[i]) is Created;
            assert(evs[i] is Created);
        }
        if released(before) {
            let i = choose|i: int| 0 <= i < before.len() && (#[trigger] before[i]) is Released;
            assert(evs[i] is Released);
        }
    }
}

/// The container goes only once every pooler in front of it holds.
pub proof fn nothing_goes_before_the_hold(s: RecreateView, evs: Seq<Event>, ev: Event)
    requires
        s.stage == Stage::Start,
        after(run(s, evs), ev).1 is Remove,
    ensures
        held(evs),
{
    along_the_way(s, evs);
}

/// Clients are handed to the new server only once it is there and answers.
pub proof fn clients_wait_for_the_new_server(s: RecreateView, evs: Seq<Event>, ev: Event)
    requires
        s.stage == Stage::Start,
        after(run(s, evs), ev).1 is Release,
    ensures
        held(evs),
        created(evs),
        run(s, evs).stage == Stage::Waiting,
        ev is Done,
{
    along_the_way(s, evs);
}

/// A replacement that is reported held its clients, made a container and let
/// the clients go.
pub proof fn what_is_reported_happened(s: RecreateView, evs: Seq<Event>, ev: Event)
    requires
        s.stage == Stage::Start,
        after(run(s, evs), ev).1 is Replaced,
    ensures
        held(evs),
        created(evs),
        released(evs),
{
    along_the_way(s, evs);
}

/// Whatever fails while the clients are held, they are let go before anything
/// else is done, and the run then ends with that failure.
pub proof fn no_client_is_left_held(s: RecreateView, e: String, second: Event, third: Event)
    requires
        in_the_window(s.stage),
        second is Done || second is Failed,
        third is Done,
    ensures
        ({
            let one = after(s, Event::Failed(e));
            let two = after(one.0, second);
            let three = after(two.0, third);
            &&& one.1 is LetGo
            &&& two.1 == ActView::Log { level: "error"@, message: failed_text(e@) }
            &&& three.1 == ActView::Fail(e@)
            &&& three.0.stage == Stage::Ended
        }),
{
}

/// What each event leads to: clients are held first, and the count is kept;
/// with nobody in front that is warned of; the container goes, another comes
/// and is waited for; the clients are let go and that is logged with the time
/// it took; and the new container is reported.
pub proof fn each_event_decides(s: RecreateView, ev: Event)
    ensures
        ({
            let t = after(s, ev).0;
            let act = after(s, ev).1;
            &&& s.stage == Stage::Start && ev is Begin ==> act is HoldPoolers && t.stage
                == Stage::Holding
            &&& s.stage == Stage::Holding ==> (ev matches Event::Held(n) ==> t.held == n && {
                &&& n == 0 ==> t.stage == Stage::Warning && (act matches ActView::Log {
                    level,
                    message,
                } && level == "warn"@ && message
                    == "recreating with no pooler in front — open connections will drop"@)
                &&& n > 0 ==> t.stage == Stage::Announcing && (act matches ActView::Log {
                    level,
                    message,
                } && level == "info"@ && message
                    == "removing the container to apply a changed spec"@)
            })
            &&& s.stage == Stage::Warning && ev is Done ==> t.stage == Stage::Announcing && act
                == (ActView::Log {
                level: "info"@,
                message: "removing the container to apply a changed spec"@,
            })
            &&& s.stage == Stage::Announcing && ev is Done ==> act is Remove && t.stage
                == Stage::Removing
            &&& s.stage == Stage::Removing && ev is Done ==> t.stage == Stage::Preparing && act == (
            ActView::Log { level: "info"@, message: "creating the replacement container"@ })
            &&& s.stage == Stage::Preparing && ev is Done ==> act is Create && t.stage
                == Stage::Creating
            &&& s.stage == Stage::Creating ==> (ev matches Event::Created(id) ==> act is WaitReady
                && t.stage == Stage::Waiting && t.container == id@)
            &&& s.stage == Stage::Waiting && ev is Done ==> act is Release && t.stage
                == Stage::Releasing
            &&& s.stage == Stage::Releasing ==> (ev matches Event::Released(ms) ==> t.stage
                == Stage::Logging && act == (ActView::Log {
                level: "info"@,
                message: "recreated in "@ + decimal(ms as nat) + "ms; "@ + decimal(s.held as nat)
                    + " pooler(s) held clients throughout"@,
            }))
            &&& s.stage == Stage::Logging && ev is Done ==> act == ActView::Replaced(s.container)
                && t.stage == Stage::Ended
        }),
{
}

/// What each failure leads to: from the hold to the new server's readiness the
/// clients are let go before it is told, with the error it was; before and
/// behind that it is told at once.
pub proof fn each_failure_decides(s: RecreateView, e: String)
    ensures
        ({
            let t = after(s, Event::Failed(e)).0;
            let act = after(s, Event::Failed(e)).1;
            &&& s.stage == Stage::Announcing || s.stage == Stage::Removing || s.stage
                == Stage::Preparing || s.stage == Stage::Creating || s.stage == Stage::Waiting
                ==> act is LetGo && t.stage == Stage::Undoing && t.error == e@
            &&& s.stage == Stage::Holding || s.stage == Stage::Warning || s.stage
                == Stage::Releasing || s.stage == Stage::Logging ==> act == ActView::Fail(e@)
                && t.stage == Stage::Ended
            &&& s.stage == Stage::Undoing ==> t.stage == Stage::Complaining && act == (
            ActView::Log { level: "error"@, message: "recreate failed: "@ + s.error }) && t.error
                == s.error
        }),
        after(s, Event::Done).1 is Fail ==> s.stage == Stage::Complaining,
        s.stage == Stage::Complaining ==> after(s, Event::Done).1 == ActView::Fail(s.error),
{
}

/// What is logged of a recreation: how long it took and how many poolers held
/// their clients, or that none did.
pub proof fn what_is_logged_of_a_recreation(millis: u64, held: usize)
    ensures
        recreated_text(millis, held) == "recreated in "@ + decimal(millis as nat) + "ms; "@
            + decimal(held as nat) + " pooler(s) held clients throughout"@,
        unheld_text() == "recreating with no pooler in front — open connections will drop"@,
{
}

} // verus!
