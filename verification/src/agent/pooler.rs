//! Holding and releasing the clients of a pooler, through its administration
//! console.

use crate::text::{
    append_decimal, contains, debug_form, debug_quoted, decimal, join, joined, occurs,
    a_part_of_a_part_occurs, every_part_is_there, opt_text, same, texts,
};
use vstd::prelude::*;
use vstd::string::*;

verus! {

// ---- the console -----------------------------------------------------

/// A message from the console.
#[derive(Debug, Clone)]
pub enum Backend {
    AuthenticationOk,
    AuthenticationMd5 { salt: [u8; 4] },
    AuthenticationOther(u32),
    ReadyForQuery,
    ErrorResponse(String),
    RowDescription(Vec<String>),
    DataRow(Vec<Option<String>>),
    CommandComplete(String),
    Other,
}

/// What logging in needs next.
#[derive(Debug, Clone)]
pub enum Login {
    /// Send the password, hashed with this salt.
    Password([u8; 4]),
    /// Read the next message.
    Wait,
    Ready,
    Refused(String),
}

pub open spec fn other_method(code: u32) -> Seq<char> {
    "the pooler asked for authentication method "@ + decimal(code as nat)
        + ", and the agent implements only MD5 (method 5)"@
}

/// Logging in is over when the server says it is ready, not when it stops
/// talking about authentication.
pub open spec fn login_step(m: Backend, r: Login) -> bool {
    match m {
        Backend::AuthenticationMd5 { salt } => r == Login::Password(salt),
        Backend::ReadyForQuery => r is Ready,
        Backend::ErrorResponse(e) => r matches Login::Refused(t) && t@
            == "the pooler refused the admin connection: "@ + e@,
        Backend::AuthenticationOther(code) => r matches Login::Refused(t) && t@ == other_method(
            code,
        ),
        _ => r is Wait,
    }
}

/// What a message means while logging in.
pub fn authenticate(m: &Backend) -> (r: Login)
    ensures
        login_step(*m, r),
{
    match m {
        Backend::AuthenticationMd5 { salt } => Login::Password(*salt),
        Backend::ReadyForQuery => Login::Ready,
        Backend::ErrorResponse(e) => {
            let mut t = "the pooler refused the admin connection: ".to_owned();
            t.append(e.as_str());
            Login::Refused(t)
        },
        Backend::AuthenticationOther(code) => {
            let mut t = "the pooler asked for authentication method ".to_owned();
            append_decimal(&mut t, *code as u64);
            t.append(", and the agent implements only MD5 (method 5)");
            Login::Refused(t)
        },
        _ => Login::Wait,
    }
}

/// A command's outcome as it comes in.
#[derive(Debug, Clone)]
pub struct Query {
    pub columns: Vec<String>,
    pub rows: Vec<Vec<Option<String>>>,
    pub tag: Option<String>,
    pub failure: Option<String>,
}

/// The last column names sent.
pub open spec fn columns_of(ms: Seq<Backend>) -> Seq<Seq<char>>
    decreases ms.len(),
{
    if ms.len() == 0 {
        Seq::empty()
    } else {
        match ms.last() {
            Backend::RowDescription(c) => texts(c@),
            _ => columns_of(ms.drop_last()),
        }
    }
}

/// The rows sent, in order.
pub open spec fn rows_of(ms: Seq<Backend>) -> Seq<Vec<Option<String>>>
    decreases ms.len(),
{
    if ms.len() == 0 {
        Seq::empty()
    } else {
        match ms.last() {
            Backend::DataRow(v) => rows_of(ms.drop_last()).push(v),
            _ => rows_of(ms.drop_last()),
        }
    }
}

/// The last tag sent.
pub open spec fn tag_of(ms: Seq<Backend>) -> Option<String>
    decreases ms.len(),
{
    if ms.len() == 0 {
        None
    } else {
        match ms.last() {
            Backend::CommandComplete(t) => Some(t),
            _ => tag_of(ms.drop_last()),
        }
    }
}

/// The last error sent.
pub open spec fn error_of(ms: Seq<Backend>) -> Option<String>
    decreases ms.len(),
{
    if ms.len() == 0 {
        None
    } else {
        match ms.last() {
            Backend::ErrorResponse(e) => Some(e),
            _ => error_of(ms.drop_last()),
        }
    }
}

impl Query {
    /// What the messages so far amount to.
    pub open spec fn holds(&self, ms: Seq<Backend>) -> bool {
        &&& texts(self.columns@) == columns_of(ms)
        &&& self.rows@ == rows_of(ms)
        &&& self.tag == tag_of(ms)
        &&& self.failure == error_of(ms)
    }

    /// A command that was sent.
    pub fn new() -> (r: Self)
        ensures
            r.holds(Seq::empty()),
    {
        let r = Query { columns: Vec::new(), rows: Vec::new(), tag: None, failure: None };
        assert(texts(r.columns@) =~= columns_of(Seq::empty()));
        r
    }

    /// Takes in a message; true once the server is ready for the next
    /// command. An error does not end a command: the server still owes its
    /// readiness, and leaving early would put the next answer out of step.
    pub fn take(&mut self, m: Backend) -> (done: bool)
        ensures
            done == (m is ReadyForQuery),
            forall|ms: Seq<Backend>| #[trigger] old(self).holds(ms) ==> final(self).holds(
                ms.push(m),
            ),
    {
        assert forall|ms: Seq<Backend>| (#[trigger] ms.push(m)).drop_last() == ms by {
            assert(ms.push(m).drop_last() =~= ms);
        }
        match m {
            Backend::RowDescription(c) => {
                self.columns = c;
                false
            },
            Backend::DataRow(v) => {
                self.rows.push(v);
                false
            },
            Backend::CommandComplete(t) => {
                self.tag = Some(t);
                false
            },
            Backend::ErrorResponse(e) => {
                self.failure = Some(e);
                false
            },
            Backend::ReadyForQuery => true,
            _ => false,
        }
    }

    /// Why the command failed, where it did.
    pub fn failed(&self, sql: &str) -> (r: Option<String>)
        ensures
            opt_text(r) == match self.failure {
                Some(e) => Some(sql@ + ": "@ + e@),
                None => None,
            },
    {
        match &self.failure {
            Some(e) => {
                let mut m = sql.to_owned();
                m.append(": ");
                m.append(e.as_str());
                Some(m)
            },
            None => None,
        }
    }
}

// ---- every pool of a cluster -----------------------------------------

/// A pool the pooler serves, and the cluster behind it.
#[derive(Debug, Clone)]
pub struct PoolRoute {
    pub name: String,
    pub cluster: String,
}

/// The names of a cluster's pools, in order.
pub open spec fn names_for(pools: Seq<PoolRoute>, cluster: Seq<char>) -> Seq<Seq<char>>
    decreases pools.len(),
{
    if pools.len() == 0 {
        Seq::empty()
    } else {
        let before = names_for(pools.drop_last(), cluster);
        if pools.last().cluster@ == cluster {
            before.push(pools.last().name@)
        } else {
            before
        }
    }
}

/// The names of a cluster's pools, in order.
pub fn pools_for(pools: &Vec<PoolRoute>, cluster: &str) -> (r: Vec<String>)
    ensures
        texts(r@) == names_for(pools@, cluster@),
{
    let mut out: Vec<String> = Vec::new();
    let mut i: usize = 0;
    assert(texts(out@) =~= names_for(pools@.take(0), cluster@));
    while i < pools.len()
        invariant
            i <= pools.len(),
            texts(out@) == names_for(pools@.take(i as int), cluster@),
        decreases pools.len() - i,
    {
        assert(pools@.take(i + 1).drop_last() =~= pools@.take(i as int));
        let ghost before = texts(out@);
        if same(pools[i].cluster.as_str(), cluster) {
            out.push(pools[i].name.clone());
            assert(texts(out@) =~= before.push(pools@[i as int].name@));
        }
        i = i + 1;
    }
    assert(pools@.take(i as int) =~= pools@);
    out
}

/// A list as it is written for debugging.
pub open spec fn debug_list(v: Seq<Seq<char>>) -> Seq<char> {
    "["@ + joined(v.map_values(|s: Seq<char>| debug_form(s)), ", "@) + "]"@
}

/// A list as it is written for debugging.
pub fn debug_list_of(v: &Vec<String>) -> (r: String)
    ensures
        r@ == debug_list(texts(v@)),
{
    let mut quoted: Vec<String> = Vec::new();
    let ghost want = texts(v@).map_values(|s: Seq<char>| debug_form(s));
    let mut i: usize = 0;
    while i < v.len()
        invariant
            i <= v.len(),
            want == texts(v@).map_values(|s: Seq<char>| debug_form(s)),
            texts(quoted@) == want.take(i as int),
        decreases v.len() - i,
    {
        let ghost before = texts(quoted@);
        let q = debug_quoted(v[i].as_str());
        let ghost added = q@;
        quoted.push(q);
        assert(added == want[i as int]);
        assert(texts(quoted@) =~= before.push(added));
        assert(texts(quoted@) =~= want.take(i + 1));
        i = i + 1;
    }
    assert(want.take(want.len() as int) =~= want);
    let mut s = "[".to_owned();
    s.append(join(&quoted, ", ").as_str());
    s.append("]");
    s
}

/// A command sent to each pool of a cluster in turn.
#[derive(Debug, Clone)]
pub struct Round {
    pub verb: String,
    pub names: Vec<String>,
    /// How many pools have answered.
    pub next: usize,
    /// The pools it was applied to.
    pub applied: Vec<String>,
    /// What stopped it.
    pub failure: Option<String>,
}

/// What a pool answered.
#[derive(Debug, Clone)]
pub enum Answered {
    Done,
    Failed(String),
}

/// The console does not know the pool. A pool is created with its first
/// client, so one that does not exist has nobody to hold.
pub open spec fn missing_pool(e: Seq<char>) -> bool {
    occurs(e, "No pool for database"@)
}

/// Whether an error says that a pool does not exist yet.
pub fn is_missing_pool(e: &str) -> (r: bool)
    ensures
        r == missing_pool(e@),
{
    contains(e, "No pool for database")
}

/// The answer stops the round.
pub open spec fn stops(a: Answered) -> bool {
    a matches Answered::Failed(e) && !missing_pool(e@)
}

/// The pools among the first that answered with success.
pub open spec fn applied_of(names: Seq<Seq<char>>, answers: Seq<Answered>) -> Seq<Seq<char>>
    decreases answers.len(),
{
    if answers.len() == 0 {
        Seq::empty()
    } else {
        let before = applied_of(names, answers.drop_last());
        if answers.last() is Done {
            before.push(names[answers.len() - 1])
        } else {
            before
        }
    }
}

pub open spec fn no_pools(cluster: Seq<char>, served: Seq<Seq<char>>) -> Seq<char> {
    "this pooler fronts no pools for cluster "@ + debug_form(cluster) + " — it serves "@
        + debug_list(served)
}

impl Round {
    /// What the answers so far amount to.
    pub open spec fn holds(&self, answers: Seq<Answered>) -> bool {
        &&& self.next == answers.len() <= self.names.len()
        &&& texts(self.applied@) == applied_of(texts(self.names@), answers)
        &&& match self.failure {
            None => forall|i: int| 0 <= i < answers.len() ==> !stops(#[trigger] answers[i]),
            Some(e) => answers.len() > 0 && answers.last() == Answered::Failed(e) && stops(
                answers.last(),
            ) && forall|i: int| 0 <= i < answers.len() - 1 ==> !stops(#[trigger] answers[i]),
        }
    }

    /// A round over the pools of a cluster; refused where there are none.
    pub fn new(verb: &str, cluster: &str, pools: &Vec<PoolRoute>, served: &Vec<String>) -> (r:
        Result<Self, String>)
        ensures
            match r {
                Ok(t) => names_for(pools@, cluster@).len() > 0 && t.verb@ == verb@ && texts(
                    t.names@,
                ) == names_for(pools@, cluster@) && t.holds(Seq::empty()),
                Err(m) => names_for(pools@, cluster@).len() == 0 && m@ == no_pools(
                    cluster@,
                    texts(served@),
                ),
            },
    {
        let names = pools_for(pools, cluster);
        assert(names.len() == texts(names@).len());
        if names.len() == 0 {
            let mut m = "this pooler fronts no pools for cluster ".to_owned();
            m.append(debug_quoted(cluster).as_str());
            m.append(" — it serves ");
            m.append(debug_list_of(served).as_str());
            return Err(m);
        }
        let r = Round {
            verb: verb.to_owned(),
            names,
            next: 0,
            applied: Vec::new(),
            failure: None,
        };
        assert(texts(r.applied@) =~= Seq::empty());
        Ok(r)
    }

    /// The next command, unless the round is over.
    pub fn command(&self) -> (r: Option<String>)
        ensures
            opt_text(r) == (if self.failure is None && self.next < self.names.len() {
                Some(self.verb@ + " "@ + texts(self.names@)[self.next as int])
            } else {
                None
            }),
    {
        if self.failure.is_some() || self.next >= self.names.len() {
            return None;
        }
        let mut s = self.verb.clone();
        s.append(" ");
        s.append(self.names[self.next].as_str());
        Some(s)
    }

    /// Takes in what the pool answered. A pool that does not exist yet is
    /// passed over; any other error ends the round.
    pub fn answer(&mut self, a: Answered)
        requires
            old(self).failure is None,
            old(self).next < old(self).names.len(),
        ensures
            final(self).verb@ == old(self).verb@,
            final(self).names@ == old(self).names@,
            forall|answers: Seq<Answered>| #[trigger] old(self).holds(answers) ==> final(self).holds(answers.push(a)),
    {
        let ghost names = texts(self.names@);
        let ghost before = texts(self.applied@);
        assert forall|answers: Seq<Answered>| (#[trigger] answers.push(a)).drop_last() == answers by {
            assert(answers.push(a).drop_last() =~= answers);
        }
        let i: usize = self.next;
        match &a {
            Answered::Done => {
                let name = self.names[i].clone();
                self.applied.push(name);
                assert(texts(self.applied@) =~= before.push(names[i as int]));
            },
            Answered::Failed(e) => {
                if !is_missing_pool(e.as_str()) {
                    self.failure = Some(e.clone());
                }
            },
        }
        self.next = i + 1;
        assert forall|answers: Seq<Answered>| #[trigger] old(self).holds(answers) implies self.holds(
            answers.push(a),
        ) by {
            let all = answers.push(a);
            assert(all.last() == a);
            assert(all.drop_last() == answers);
            assert forall|k: int| 0 <= k < answers.len() implies !stops(#[trigger] all[k]) by {
                assert(all[k] == answers[k]);
            }
        }
    }
}

/// A round that was carried through reached every pool: each one was told,
/// or does not exist.
pub proof fn a_finished_round_reached_every_pool(r: Round, answers: Seq<Answered>)
    requires
        r.holds(answers),
        r.failure is None,
        r.next == r.names.len(),
    ensures
        answers.len() == r.names.len(),
        forall|i: int|
            0 <= i < answers.len() ==> (#[trigger] answers[i] is Done || (answers[i] matches Answered::Failed(e)
                && missing_pool(e@))),
{
    assert forall|i: int| 0 <= i < answers.len() implies (#[trigger] answers[i] is Done || (answers[i] matches Answered::Failed(e)
        && missing_pool(e@))) by {
        assert(!stops(answers[i]));
    }
}

// ---- deadlines -------------------------------------------------------

/// How often each cluster was held or released. A deadline remembers the
/// count it was armed at, and does nothing once the count has moved on.
#[derive(Debug, Clone)]
pub struct Holds {
    pub entries: Vec<(String, u64)>,
}

/// The count of a cluster in a list of counts: of the first entry for it.
pub open spec fn count_in(e: Seq<(String, u64)>, cluster: Seq<char>) -> u64
    decreases e.len(),
{
    if e.len() == 0 {
        0
    } else if e[0].0@ == cluster {
        e[0].1
    } else {
        count_in(e.subrange(1, e.len() as int), cluster)
    }
}

proof fn count_at(e: Seq<(String, u64)>, cluster: Seq<char>, i: int)
    requires
        0 <= i < e.len(),
        e[i].0@ == cluster,
        forall|k: int| 0 <= k < i ==> e[k].0@ != cluster,
    ensures
        count_in(e, cluster) == e[i].1,
    decreases i,
{
    if i > 0 {
        assert(e.subrange(1, e.len() as int)[i - 1] == e[i]);
        assert forall|k: int| 0 <= k < i - 1 implies e.subrange(1, e.len() as int)[k].0@
            != cluster by {
            assert(e.subrange(1, e.len() as int)[k] == e[k + 1]);
        }
        count_at(e.subrange(1, e.len() as int), cluster, i - 1);
    }
}

proof fn count_absent(e: Seq<(String, u64)>, cluster: Seq<char>)
    requires
        forall|k: int| 0 <= k < e.len() ==> (#[trigger] e[k]).0@ != cluster,
    ensures
        count_in(e, cluster) == 0,
    decreases e.len(),
{
    if e.len() > 0 {
        let rest = e.subrange(1, e.len() as int);
        assert forall|k: int| 0 <= k < rest.len() implies (#[trigger] rest[k]).0@ != cluster by {
            assert(rest[k] == e[k + 1]);
        }
        count_absent(rest, cluster);
    }
}

/// Changing one cluster's entry leaves every other count alone.
proof fn count_other(
    a: Seq<(String, u64)>,
    b: Seq<(String, u64)>,
    i: int,
    cluster: Seq<char>,
    other: Seq<char>,
)
    requires
        0 <= i,
        (i < a.len() && a.len() == b.len()) || (i == a.len() && b.len() == a.len() + 1),
        forall|k: int| 0 <= k < a.len() && k != i ==> a[k] == b[k],
        i < a.len() ==> a[i].0@ == cluster,
        b[i].0@ == cluster,
        other != cluster,
    ensures
        count_in(a, other) == count_in(b, other),
    decreases b.len(),
{
    let rb = b.subrange(1, b.len() as int);
    if i > 0 {
        let ra = a.subrange(1, a.len() as int);
        assert(a[0] == b[0]);
        assert(rb[i - 1] == b[i]);
        assert(i < a.len() ==> ra[i - 1] == a[i]);
        assert forall|k: int| 0 <= k < ra.len() && k != i - 1 implies ra[k] == rb[k] by {
            assert(ra[k] == a[k + 1]);
            assert(rb[k] == b[k + 1]);
        }
        count_other(ra, rb, i - 1, cluster, other);
    } else if a.len() == 0 {
        assert(count_in(rb, other) == 0);
        assert(count_in(a, other) == 0);
    } else {
        assert(a.subrange(1, a.len() as int) =~= rb);
    }
}

impl Holds {
    /// The count of a cluster.
    pub open spec fn count(&self, cluster: Seq<char>) -> u64 {
        count_in(self.entries@, cluster)
    }

    /// Nothing was held yet.
    pub fn new() -> (r: Self)
        ensures
            forall|c: Seq<char>| #[trigger] r.count(c) == 0,
    {
        Holds { entries: Vec::new() }
    }

    fn position(&self, cluster: &str) -> (r: usize)
        ensures
            r <= self.entries.len(),
            r < self.entries.len() ==> self.entries@[r as int].0@ == cluster@,
            forall|k: int| 0 <= k < r ==> (#[trigger] self.entries@[k]).0@ != cluster@,
    {
        let mut i: usize = 0;
        while i < self.entries.len()
            invariant
                i <= self.entries.len(),
                forall|k: int| 0 <= k < i ==> (#[trigger] self.entries@[k]).0@ != cluster@,
            decreases self.entries.len() - i,
        {
            if same(self.entries[i].0.as_str(), cluster) {
                return i;
            }
            i = i + 1;
        }
        i
    }

    /// The count of a cluster.
    pub fn current(&self, cluster: &str) -> (r: u64)
        ensures
            r == self.count(cluster@),
    {
        let i: usize = self.position(cluster);
        if i < self.entries.len() {
            proof {
                count_at(self.entries@, cluster@, i as int);
            }
            self.entries[i].1
        } else {
            proof {
                count_absent(self.entries@, cluster@);
            }
            0
        }
    }

    /// Counts one more hold or release of a cluster.
    pub fn bump(&mut self, cluster: &str) -> (r: u64)
        requires
            old(self).count(cluster@) < u64::MAX,
        ensures
            r == old(self).count(cluster@) + 1,
            final(self).count(cluster@) == r,
            forall|c: Seq<char>| c != cluster@ ==> #[trigger] final(self).count(c) == old(self).count(c),
    {
        let i: usize = self.position(cluster);
        let n: u64 = self.current(cluster);
        let ghost a = self.entries@;
        if i < self.entries.len() {
            let name = self.entries[i].0.clone();
            self.entries.set(i, (name, n + 1));
        } else {
            self.entries.push((cluster.to_owned(), n + 1));
        }
        let ghost b = self.entries@;
        proof {
            assert forall|k: int| 0 <= k < i implies (#[trigger] b[k]).0@ != cluster@ by {
                assert(b[k] == a[k]);
            }
            count_at(b, cluster@, i as int);
            assert forall|c: Seq<char>| c != cluster@ implies #[trigger] count_in(b, c) == count_in(
                a,
                c,
            ) by {
                count_other(a, b, i as int, cluster@, c);
            }
        }
        n + 1
    }

    /// Whether a deadline armed at a count still stands.
    pub fn is_due(&self, cluster: &str, armed: u64) -> (r: bool)
        ensures
            r == (self.count(cluster@) == armed),
    {
        self.current(cluster) == armed
    }
}

// ---- what holds of every conversation --------------------------------

/// Logging in answers a request for an MD5 password with the salt that came
/// with it, waits through anything else, and is over when the server says it
/// is ready; an error or another method ends it.
pub proof fn logging_in_answers_the_server(m: Backend, r: Login)
    requires
        login_step(m, r),
    ensures
        m matches Backend::AuthenticationMd5 { salt } ==> r == Login::Password(salt),
        m is ReadyForQuery <==> r is Ready,
        m is ErrorResponse || m is AuthenticationOther <==> r is Refused,
        m is AuthenticationOk || m is RowDescription || m is DataRow || m is CommandComplete
            || m is Other ==> r is Wait,
{
}

/// A message more: a row is added behind the others; column names, tags and
/// errors take the place of earlier ones; anything else changes nothing.
pub proof fn one_message_more(ms: Seq<Backend>, m: Backend)
    ensures
        m matches Backend::DataRow(v) ==> rows_of(ms.push(m)) == rows_of(ms).push(v),
        !(m is DataRow) ==> rows_of(ms.push(m)) == rows_of(ms),
        m matches Backend::RowDescription(c) ==> columns_of(ms.push(m)) == texts(c@),
        !(m is RowDescription) ==> columns_of(ms.push(m)) == columns_of(ms),
        m matches Backend::CommandComplete(t) ==> tag_of(ms.push(m)) == Some(t),
        !(m is CommandComplete) ==> tag_of(ms.push(m)) == tag_of(ms),
        m matches Backend::ErrorResponse(e) ==> error_of(ms.push(m)) == Some(e),
        !(m is ErrorResponse) ==> error_of(ms.push(m)) == error_of(ms),
        rows_of(Seq::empty()).len() == 0,
        columns_of(Seq::empty()).len() == 0,
        tag_of(Seq::empty()) is None,
        error_of(Seq::empty()) is None,
{
    assert(ms.push(m).drop_last() =~= ms);
}

/// A pool more is one of a cluster's exactly where it is that cluster's, and
/// comes behind the others.
pub proof fn one_pool_more(pools: Seq<PoolRoute>, p: PoolRoute, cluster: Seq<char>)
    ensures
        names_for(Seq::empty(), cluster).len() == 0,
        p.cluster@ == cluster ==> names_for(pools.push(p), cluster) == names_for(
            pools,
            cluster,
        ).push(p.name@),
        p.cluster@ != cluster ==> names_for(pools.push(p), cluster) == names_for(pools, cluster),
{
    assert(pools.push(p).drop_last() =~= pools);
}

/// Every pool of a cluster is told, and no pool of another.
pub proof fn every_pool_of_a_cluster_is_told(pools: Seq<PoolRoute>, cluster: Seq<char>)
    ensures
        forall|i: int|
            0 <= i < pools.len() && (#[trigger] pools[i]).cluster@ == cluster ==> names_for(
                pools,
                cluster,
            ).contains(pools[i].name@),
        forall|n: Seq<char>| #[trigger]
            names_for(pools, cluster).contains(n) ==> exists|i: int|
                0 <= i < pools.len() && (#[trigger] pools[i]).cluster@ == cluster && pools[i].name@
                    == n,
    decreases pools.len(),
{
    if pools.len() > 0 {
        let w = pools.drop_last();
        every_pool_of_a_cluster_is_told(w, cluster);
        let b = names_for(w, cluster);
        let all = names_for(pools, cluster);
        assert forall|i: int| 0 <= i < pools.len() && (#[trigger] pools[i]).cluster@
            == cluster implies all.contains(pools[i].name@) by {
            if i < w.len() {
                assert(w[i] == pools[i]);
                let k = choose|k: int| 0 <= k < b.len() && b[k] == pools[i].name@;
                assert(all[k] == b[k]);
            } else {
                assert(all[all.len() - 1] == pools[i].name@);
            }
        }
        assert forall|n: Seq<char>| #[trigger] all.contains(n) implies exists|i: int|
            0 <= i < pools.len() && (#[trigger] pools[i]).cluster@ == cluster && pools[i].name@
                == n by {
            let k = choose|k: int| 0 <= k < all.len() && all[k] == n;
            if k < b.len() {
                assert(b[k] == n);
                assert(b.contains(n));
                let i = choose|i: int|
                    0 <= i < w.len() && (#[trigger] w[i]).cluster@ == cluster && w[i].name@ == n;
                assert(pools[i] == w[i]);
            } else {
                assert(pools[pools.len() - 1].name@ == n);
            }
        }
    }
}

/// Only a pool that the console does not know is passed over: any other error
/// ends the round.
pub proof fn only_a_missing_pool_is_passed_over(e: String)
    ensures
        stops(Answered::Failed(e)) <==> !occurs(e@, "No pool for database"@),
        !stops(Answered::Done),
{
}

/// A pool that answered with success was applied to, behind those before it,
/// and one that did not was not.
pub proof fn one_answer_more(names: Seq<Seq<char>>, answers: Seq<Answered>, a: Answered)
    ensures
        applied_of(names, Seq::empty()).len() == 0,
        a is Done ==> applied_of(names, answers.push(a)) == applied_of(names, answers).push(
            names[answers.len() as int],
        ),
        !(a is Done) ==> applied_of(names, answers.push(a)) == applied_of(names, answers),
{
    assert(answers.push(a).drop_last() =~= answers);
}

/// A list is written with each of its texts quoted.
pub proof fn a_written_list_holds_its_texts(v: Seq<Seq<char>>, i: int)
    requires
        0 <= i < v.len(),
    ensures
        occurs(debug_list(v), debug_form(v[i])),
{
    let parts = v.map_values(|s: Seq<char>| debug_form(s));
    every_part_is_there(parts, ", "@, i);
    a_part_of_a_part_occurs("["@, joined(parts, ", "@), "]"@, parts[i]);
}

/// The count of a cluster is that of the first entry for it, and nought
/// without one.
pub proof fn a_count_is_the_first_entrys(e: Seq<(String, u64)>, cluster: Seq<char>, i: int)
    requires
        0 <= i <= e.len(),
        forall|k: int| 0 <= k < i ==> (#[trigger] e[k]).0@ != cluster,
        i < e.len() ==> e[i].0@ == cluster,
    ensures
        count_in(e, cluster) == (if i < e.len() {
            e[i].1
        } else {
            0
        }),
{
    if i < e.len() {
        count_at(e, cluster, i);
    } else {
        count_absent(e, cluster);
    }
}

/// What is said where a pooler cannot be talked to: the method it asked for,
/// or the cluster it does not front beside those it does.
pub proof fn what_is_said_of_a_pooler(code: u32, cluster: Seq<char>, served: Seq<Seq<char>>)
    ensures
        other_method(code) == "the pooler asked for authentication method "@ + decimal(code as nat)
            + ", and the agent implements only MD5 (method 5)"@,
        no_pools(cluster, served) == "this pooler fronts no pools for cluster "@ + debug_form(
            cluster,
        ) + " — it serves "@ + debug_list(served),
{
}

} // verus!
