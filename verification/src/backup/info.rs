//! What `pgbackrest info` says a repository holds.
//!
//! The repository is the record of what can be restored: backups are chosen
//! from here and from nowhere else.

use crate::text::{clone_opt, same};
use crate::time::{no_later, representable, utc_or_now, Moment, MAX_SECS, MIN_SECS};
use vstd::prelude::*;
use vstd::seq_lib::*;

verus! {

/// One stanza's entry in `pgbackrest info`.
#[derive(Debug, Clone)]
pub struct StanzaInfo {
    pub name: String,
    pub backup: Vec<Backup>,
    pub archive: Vec<ArchiveInfo>,
    pub status: Status,
}

/// How a stanza is doing.
#[derive(Debug, Clone)]
pub struct Status {
    /// 0 is ok. Anything else is explained by `message`.
    pub code: i64,
    pub message: String,
}

/// The oldest and newest WAL segments archived for one PostgreSQL version.
#[derive(Debug, Clone)]
pub struct ArchiveInfo {
    pub id: String,
    pub min: Option<String>,
    pub max: Option<String>,
}

#[derive(Debug, Clone, Copy, PartialEq, Eq, Structural)]
pub enum BackupType {
    Full,
    Diff,
    Incr,
}

#[derive(Debug, Clone)]
pub struct Backup {
    /// pgBackRest's label, which a restore is given.
    pub label: String,
    pub backup_type: BackupType,
    pub timestamp: Timestamp,
    pub archive: Option<BackupArchive>,
    pub info: Option<BackupSize>,
}

#[derive(Debug, Clone, Copy)]
pub struct Timestamp {
    /// Unix seconds.
    pub start: i64,
    pub stop: i64,
}

#[derive(Debug, Clone)]
pub struct BackupArchive {
    /// First WAL segment the backup needs.
    pub start: Option<String>,
    /// Last WAL segment the backup needs.
    pub stop: Option<String>,
}

#[derive(Debug, Clone, Copy)]
pub struct BackupSize {
    /// Size of the database, uncompressed.
    pub size: u64,
    /// What the repository actually holds for this backup.
    pub repository: Option<RepoSize>,
}

#[derive(Debug, Clone, Copy)]
pub struct RepoSize {
    pub delta: u64,
    pub size: u64,
}

/// `full`, `diff` or `incr`.
pub open spec fn type_text(t: BackupType) -> Seq<char> {
    match t {
        BackupType::Full => "full"@,
        BackupType::Diff => "diff"@,
        BackupType::Incr => "incr"@,
    }
}

impl BackupType {
    /// `full`, `diff` or `incr`.
    pub fn as_str(&self) -> (r: &'static str)
        ensures
            r@ == type_text(*self),
    {
        match self {
            BackupType::Full => "full",
            BackupType::Diff => "diff",
            BackupType::Incr => "incr",
        }
    }
}

/// The calendar covers this second.
pub open spec fn in_calendar(secs: i64) -> bool {
    MIN_SECS <= secs <= MAX_SECS
}

impl Backup {
    /// The uncompressed size; 0 where the repository does not say.
    pub open spec fn bytes(&self) -> u64 {
        match self.info {
            Some(i) => i.size,
            None => 0,
        }
    }

    /// When the backup finished. It decides whether a backup can serve a
    /// point in time: one still running at an instant holds no consistent
    /// view of it. A time the calendar does not cover reads as the present.
    pub fn ended_at(&self) -> (r: Moment)
        ensures
            representable(r),
            in_calendar(self.timestamp.stop) ==> r == (Moment {
                secs: self.timestamp.stop,
                nanos: 0,
            }),
    {
        utc_or_now(self.timestamp.stop)
    }

    /// When the backup started.
    pub fn started_at(&self) -> (r: Moment)
        ensures
            representable(r),
            in_calendar(self.timestamp.start) ==> r == (Moment {
                secs: self.timestamp.start,
                nanos: 0,
            }),
    {
        utc_or_now(self.timestamp.start)
    }

    /// The uncompressed size.
    pub fn size_bytes(&self) -> (r: u64)
        ensures
            r == self.bytes(),
    {
        match &self.info {
            Some(i) => i.size,
            None => 0,
        }
    }

    /// An equal backup.
    pub fn duplicate(&self) -> (r: Backup)
        ensures
            r == *self,
    {
        Backup {
            label: self.label.clone(),
            backup_type: self.backup_type,
            timestamp: self.timestamp,
            archive: match &self.archive {
                Some(a) => Some(
                    BackupArchive { start: clone_opt(&a.start), stop: clone_opt(&a.stop) },
                ),
                None => None,
            },
            info: self.info,
        }
    }
}

// ---- order -----------------------------------------------------------

/// `b` behind everything that did not stop after it.
pub open spec fn insert_by_stop(sorted: Seq<Backup>, b: Backup) -> Seq<Backup>
    decreases sorted.len(),
{
    if sorted.len() == 0 || sorted.last().timestamp.stop <= b.timestamp.stop {
        sorted.push(b)
    } else {
        insert_by_stop(sorted.drop_last(), b).push(sorted.last())
    }
}

/// The backups in the order in which they stopped.
pub open spec fn oldest_first(v: Seq<Backup>) -> Seq<Backup>
    decreases v.len(),
{
    if v.len() == 0 {
        v
    } else {
        insert_by_stop(oldest_first(v.drop_last()), v.last())
    }
}

/// No backup stopped before one that stands ahead of it.
pub open spec fn in_order(v: Seq<Backup>) -> bool {
    forall|i: int, j: int|
        0 <= i < j < v.len() ==> (#[trigger] v[i]).timestamp.stop <= (#[trigger] v[j]).timestamp.stop
}

proof fn insert_keeps_order(sorted: Seq<Backup>, b: Backup)
    requires
        in_order(sorted),
    ensures
        in_order(insert_by_stop(sorted, b)),
        insert_by_stop(sorted, b).to_multiset() == sorted.to_multiset().insert(b),
        insert_by_stop(sorted, b).len() == sorted.len() + 1,
        forall|i: int| #![trigger insert_by_stop(sorted, b)[i]]
            0 <= i <= sorted.len() ==> insert_by_stop(sorted, b)[i] == b || sorted.contains(
                insert_by_stop(sorted, b)[i],
            ),
    decreases sorted.len(),
{
    broadcast use group_to_multiset_ensures;

    if sorted.len() == 0 || sorted.last().timestamp.stop <= b.timestamp.stop {
        let r = sorted.push(b);
        assert forall|i: int, j: int| 0 <= i < j < r.len() implies (#[trigger] r[i]).timestamp.stop
            <= (#[trigger] r[j]).timestamp.stop by {
            if j == r.len() - 1 {
                assert(i == sorted.len() - 1 || sorted[i].timestamp.stop
                    <= sorted.last().timestamp.stop);
            }
        }
        assert forall|i: int| 0 <= i <= sorted.len() implies #[trigger] r[i] == b
            || sorted.contains(r[i]) by {
            if i < sorted.len() {
                assert(sorted[i] == r[i]);
            }
        }
    } else {
        let rest = sorted.drop_last();
        insert_keeps_order(rest, b);
        let inner = insert_by_stop(rest, b);
        let r = inner.push(sorted.last());
        assert(sorted =~= rest.push(sorted.last()));
        assert(r.to_multiset() =~= sorted.to_multiset().insert(b));
        assert forall|i: int, j: int| 0 <= i < j < r.len() implies (#[trigger] r[i]).timestamp.stop
            <= (#[trigger] r[j]).timestamp.stop by {
            if j == r.len() - 1 {
                assert(inner[i] == b || rest.contains(inner[i]));
                if inner[i] != b {
                    let k = choose|k: int| 0 <= k < rest.len() && rest[k] == inner[i];
                    assert(sorted[k] == inner[i]);
                    assert(sorted[k].timestamp.stop <= sorted[sorted.len() - 1].timestamp.stop);
                }
            }
        }
        assert forall|i: int| 0 <= i <= sorted.len() implies #[trigger] r[i] == b
            || sorted.contains(r[i]) by {
            if i < sorted.len() {
                assert(r[i] == inner[i]);
                if inner[i] != b {
                    let k = choose|k: int| 0 <= k < rest.len() && rest[k] == inner[i];
                    assert(sorted[k] == inner[i]);
                }
            } else {
                assert(sorted[sorted.len() - 1] == r[i]);
            }
        }
    }
}

/// Sorting orders the backups by when they stopped, and neither adds nor
/// loses one.
pub proof fn oldest_first_sorts(v: Seq<Backup>)
    ensures
        in_order(oldest_first(v)),
        oldest_first(v).to_multiset() == v.to_multiset(),
        oldest_first(v).len() == v.len(),
    decreases v.len(),
{
    broadcast use group_to_multiset_ensures;

    if v.len() > 0 {
        oldest_first_sorts(v.drop_last());
        insert_keeps_order(oldest_first(v.drop_last()), v.last());
        assert(v =~= v.drop_last().push(v.last()));
    }
}

/// The backups that stopped at `t`.
pub open spec fn stopped_at(v: Seq<Backup>, t: i64) -> Seq<Backup> {
    v.filter(|b: Backup| b.timestamp.stop == t)
}

proof fn insert_is_stable(sorted: Seq<Backup>, b: Backup, t: i64)
    ensures
        stopped_at(insert_by_stop(sorted, b), t) == (if b.timestamp.stop == t {
            stopped_at(sorted, t).push(b)
        } else {
            stopped_at(sorted, t)
        }),
    decreases sorted.len(),
{
    reveal(Seq::filter);
    if sorted.len() == 0 || sorted.last().timestamp.stop <= b.timestamp.stop {
        assert(sorted.push(b).drop_last() =~= sorted);
    } else {
        insert_is_stable(sorted.drop_last(), b, t);
        let inner = insert_by_stop(sorted.drop_last(), b);
        assert(inner.push(sorted.last()).drop_last() =~= inner);
    }
}

/// Backups that stopped together keep the order the repository listed them
/// in.
pub proof fn oldest_first_is_stable(v: Seq<Backup>, t: i64)
    ensures
        stopped_at(oldest_first(v), t) == stopped_at(v, t),
    decreases v.len(),
{
    reveal(Seq::filter);
    if v.len() > 0 {
        oldest_first_is_stable(v.drop_last(), t);
        insert_is_stable(oldest_first(v.drop_last()), v.last(), t);
    }
}

proof fn insert_at(sorted: Seq<Backup>, b: Backup, p: int)
    requires
        0 <= p <= sorted.len(),
        p > 0 ==> sorted[p - 1].timestamp.stop <= b.timestamp.stop,
        forall|k: int| p <= k < sorted.len() ==> sorted[k].timestamp.stop > b.timestamp.stop,
    ensures
        insert_by_stop(sorted, b) == sorted.insert(p, b),
    decreases sorted.len(),
{
    if p == sorted.len() {
        assert(sorted.insert(p, b) =~= sorted.push(b));
    } else {
        insert_at(sorted.drop_last(), b, p);
        assert(sorted.drop_last().insert(p, b).push(sorted.last()) =~= sorted.insert(p, b));
    }
}

/// Puts `b` behind everything that did not stop after it.
fn insert_sorted(sorted: &mut Vec<Backup>, b: Backup)
    ensures
        final(sorted)@ == insert_by_stop(old(sorted)@, b),
{
    let mut p: usize = sorted.len();
    while p > 0 && sorted[p - 1].timestamp.stop > b.timestamp.stop
        invariant
            p <= sorted.len(),
            sorted@ == old(sorted)@,
            forall|k: int|
                p <= k < sorted.len() ==> sorted@[k].timestamp.stop > b.timestamp.stop,
        decreases p,
    {
        p = p - 1;
    }
    proof {
        insert_at(sorted@, b, p as int);
    }
    sorted.insert(p, b);
}

// ---- choosing --------------------------------------------------------

/// The last backup in `sorted` that had ended by `at`; the last of all where
/// there is no target.
pub open spec fn last_ended_by(
    sorted: Seq<Backup>,
    ended: Seq<Moment>,
    at: Option<Moment>,
) -> Option<Backup>
    decreases sorted.len(),
{
    if sorted.len() == 0 {
        None
    } else if at is None || no_later(ended[sorted.len() - 1], at->0) {
        Some(sorted.last())
    } else {
        last_ended_by(sorted.drop_last(), ended, at)
    }
}

/// `ended` says when each backup ended, wherever the calendar reaches.
pub open spec fn ends_of(sorted: Seq<Backup>, ended: Seq<Moment>) -> bool {
    &&& ended.len() == sorted.len()
    &&& forall|i: int|
        0 <= i < sorted.len() && in_calendar(sorted[i].timestamp.stop) ==> #[trigger] ended[i]
            == (Moment { secs: sorted[i].timestamp.stop, nanos: 0 })
}

/// The last backup that had ended by `at`, given when each ended.
pub fn choose_ended_by(sorted: &Vec<Backup>, ended: &Vec<Moment>, at: Option<Moment>) -> (r: Option<
    Backup,
>)
    requires
        ended.len() == sorted.len(),
    ensures
        r == last_ended_by(sorted@, ended@, at),
{
    let mut n: usize = sorted.len();
    assert(sorted@.take(n as int) =~= sorted@);
    while n > 0
        invariant
            n <= sorted.len(),
            ended.len() == sorted.len(),
            last_ended_by(sorted@, ended@, at) == last_ended_by(
                sorted@.take(n as int),
                ended@,
                at,
            ),
        decreases n,
    {
        let eligible = match at {
            Some(t) => ended[n - 1].at_or_before(t),
            None => true,
        };
        if eligible {
            return Some(sorted[n - 1].duplicate());
        }
        assert(sorted@.take(n as int).drop_last() =~= sorted@.take(n - 1));
        n = n - 1;
    }
    None
}

/// When each backup ended.
pub fn ended_times(sorted: &Vec<Backup>) -> (ended: Vec<Moment>)
    ensures
        ends_of(sorted@, ended@),
        forall|i: int| 0 <= i < ended.len() ==> representable(#[trigger] ended@[i]),
{
    let mut ended: Vec<Moment> = Vec::new();
    let mut i: usize = 0;
    while i < sorted.len()
        invariant
            i <= sorted.len(),
            ended.len() == i,
            forall|k: int| 0 <= k < i ==> representable(#[trigger] ended@[k]),
            forall|k: int|
                0 <= k < i && in_calendar(sorted@[k].timestamp.stop) ==> #[trigger] ended@[k]
                    == (Moment { secs: sorted@[k].timestamp.stop, nanos: 0 }),
        decreases sorted.len() - i,
    {
        ended.push(sorted[i].ended_at());
        i = i + 1;
    }
    ended
}

impl StanzaInfo {
    /// Backups oldest first.
    pub fn backups_oldest_first(&self) -> (r: Vec<Backup>)
        ensures
            r@ == oldest_first(self.backup@),
    {
        let mut out: Vec<Backup> = Vec::new();
        let mut i: usize = 0;
        assert(out@ =~= oldest_first(self.backup@.take(0)));
        while i < self.backup.len()
            invariant
                i <= self.backup.len(),
                out@ == oldest_first(self.backup@.take(i as int)),
            decreases self.backup.len() - i,
        {
            assert(self.backup@.take(i + 1).drop_last() =~= self.backup@.take(i as int));
            insert_sorted(&mut out, self.backup[i].duplicate());
            i = i + 1;
        }
        assert(self.backup@.take(i as int) =~= self.backup@);
        out
    }

    /// The newest backup that finished at or before `at`; none when nothing
    /// qualifies, rather than a best guess.
    pub fn backup_for_target(&self, at: Option<Moment>) -> (r: Option<Backup>)
        ensures
            exists|ended: Seq<Moment>| #[trigger]
                ends_of(oldest_first(self.backup@), ended) && r == last_ended_by(
                    oldest_first(self.backup@),
                    ended,
                    at,
                ),
    {
        let sorted = self.backups_oldest_first();
        let ended = ended_times(&sorted);
        choose_ended_by(&sorted, &ended, at)
    }
}

/// A backup that had stopped by `at`.
pub open spec fn serves(b: Backup, at: Option<Moment>) -> bool {
    at is None || no_later(Moment { secs: b.timestamp.stop, nanos: 0 }, at->0)
}

proof fn last_ended_by_serves(sorted: Seq<Backup>, ended: Seq<Moment>, at: Option<Moment>)
    requires
        in_order(sorted),
        ended.len() >= sorted.len(),
        forall|i: int|
            0 <= i < sorted.len() ==> #[trigger] ended[i] == (Moment {
                secs: sorted[i].timestamp.stop,
                nanos: 0,
            }),
    ensures
        match last_ended_by(sorted, ended, at) {
            Some(b) => sorted.contains(b) && serves(b, at) && forall|k: int|
                0 <= k < sorted.len() && serves(#[trigger] sorted[k], at)
                    ==> sorted[k].timestamp.stop <= b.timestamp.stop,
            None => forall|k: int| 0 <= k < sorted.len() ==> !serves(#[trigger] sorted[k], at),
        },
    decreases sorted.len(),
{
    if sorted.len() > 0 {
        let n = sorted.len() - 1;
        assert(ended[n] == (Moment { secs: sorted[n].timestamp.stop, nanos: 0 }));
        if at is None || no_later(ended[n], at->0) {
            assert(sorted.contains(sorted[n]));
            assert forall|k: int| 0 <= k < sorted.len() && serves(#[trigger] sorted[k], at) implies
                sorted[k].timestamp.stop <= sorted[n].timestamp.stop by {
                if k < n {
                    assert(sorted[k].timestamp.stop <= sorted[n].timestamp.stop);
                }
            }
        } else {
            let rest = sorted.drop_last();
            last_ended_by_serves(rest, ended, at);
            assert(!serves(sorted[n], at));
            match last_ended_by(rest, ended, at) {
                Some(b) => {
                    let i = choose|i: int| 0 <= i < rest.len() && rest[i] == b;
                    assert(sorted[i] == b);
                    assert forall|k: int| 0 <= k < sorted.len() && serves(
                        #[trigger] sorted[k],
                        at,
                    ) implies sorted[k].timestamp.stop <= b.timestamp.stop by {
                        if k < n {
                            assert(rest[k] == sorted[k]);
                        }
                    }
                },
                None => {
                    assert forall|k: int| 0 <= k < sorted.len() implies !serves(
                        #[trigger] sorted[k],
                        at,
                    ) by {
                        if k < n {
                            assert(rest[k] == sorted[k]);
                        }
                    }
                },
            }
        }
    }
}

/// The backup chosen for a target is one of the repository's, had finished by
/// the target, and none that had finished by then is newer; and one is chosen
/// wherever one had finished.
pub proof fn the_newest_finished_backup_is_chosen(
    v: Seq<Backup>,
    ended: Seq<Moment>,
    at: Option<Moment>,
)
    requires
        forall|i: int| 0 <= i < v.len() ==> in_calendar((#[trigger] v[i]).timestamp.stop),
        ends_of(oldest_first(v), ended),
    ensures
        match last_ended_by(oldest_first(v), ended, at) {
            Some(b) => v.contains(b) && serves(b, at) && forall|k: int|
                0 <= k < v.len() && serves(#[trigger] v[k], at) ==> v[k].timestamp.stop
                    <= b.timestamp.stop,
            None => forall|k: int| 0 <= k < v.len() ==> !serves(#[trigger] v[k], at),
        },
{
    broadcast use group_to_multiset_ensures;

    let sorted = oldest_first(v);
    oldest_first_sorts(v);
    assert forall|b: Backup| #[trigger] sorted.contains(b) == v.contains(b) by {
        assert(sorted.contains(b) <==> sorted.to_multiset().count(b) > 0);
        assert(v.contains(b) <==> v.to_multiset().count(b) > 0);
    }
    assert forall|i: int| 0 <= i < sorted.len() implies #[trigger] ended[i] == (Moment {
        secs: sorted[i].timestamp.stop,
        nanos: 0,
    }) by {
        assert(sorted.contains(sorted[i]));
        assert(v.contains(sorted[i]));
    }
    last_ended_by_serves(sorted, ended, at);
    assert forall|k: int| 0 <= k < v.len() implies exists|i: int|
        0 <= i < sorted.len() && sorted[i] == #[trigger] v[k] by {
        assert(v.contains(v[k]));
        assert(sorted.contains(v[k]));
    }
}

/// The stanza with a given name, of those a repository lists.
pub open spec fn stanza_named(infos: Seq<StanzaInfo>, name: Seq<char>) -> Option<StanzaInfo>
    decreases infos.len(),
{
    if infos.len() == 0 {
        None
    } else if infos[0].name@ == name {
        Some(infos[0])
    } else {
        stanza_named(infos.subrange(1, infos.len() as int), name)
    }
}

/// Picks out one stanza. One the repository does not know is absent rather
/// than an error: it is what a cluster that was never backed up looks like.
pub fn stanza(infos: Vec<StanzaInfo>, name: &str) -> (r: Option<StanzaInfo>)
    ensures
        r == stanza_named(infos@, name@),
{
    let mut rest = infos;
    while rest.len() > 0
        invariant
            stanza_named(infos@, name@) == stanza_named(rest@, name@),
        decreases rest.len(),
    {
        let ghost before = rest@;
        let first = rest.remove(0);
        assert(rest@ =~= before.subrange(1, before.len() as int));
        if same(first.name.as_str(), name) {
            return Some(first);
        }
    }
    None
}

/// A stanza is the first of its name, and absent where there is none.
pub proof fn a_stanza_is_found_by_its_name(infos: Seq<StanzaInfo>, name: Seq<char>, i: int)
    requires
        0 <= i <= infos.len(),
        forall|k: int| 0 <= k < i ==> (#[trigger] infos[k]).name@ != name,
        i < infos.len() ==> infos[i].name@ == name,
    ensures
        i < infos.len() ==> stanza_named(infos, name) == Some(infos[i]),
        i == infos.len() ==> stanza_named(infos, name) is None,
    decreases infos.len(),
{
    if infos.len() > 0 && i > 0 {
        let rest = infos.subrange(1, infos.len() as int);
        assert(infos[0].name@ != name);
        assert forall|k: int| 0 <= k < i - 1 implies (#[trigger] rest[k]).name@ != name by {
            assert(rest[k] == infos[k + 1]);
        }
        if i < infos.len() {
            assert(rest[i - 1] == infos[i]);
        }
        a_stanza_is_found_by_its_name(rest, name, i - 1);
    }
}

/// The kinds of backup by their words, and the size that is told: what the
/// repository says, or nought.
pub proof fn what_is_told_of_a_backup(b: Backup)
    ensures
        b.backup_type == BackupType::Full ==> type_text(b.backup_type) == "full"@,
        b.backup_type == BackupType::Diff ==> type_text(b.backup_type) == "diff"@,
        b.backup_type == BackupType::Incr ==> type_text(b.backup_type) == "incr"@,
        b.info matches Some(i) ==> b.bytes() == i.size,
        b.info is None ==> b.bytes() == 0,
{
}

/// A backup serves a target where it had stopped by then, to the second and
/// its fraction; without a target every backup does.
pub proof fn what_serves_a_target(b: Backup, at: Moment)
    ensures
        serves(b, None),
        serves(b, Some(at)) <==> b.timestamp.stop < at.secs || (b.timestamp.stop == at.secs && 0
            <= at.nanos),
{
}

/// Without a target the backup is the last that stopped.
pub proof fn without_a_target_the_last_is_chosen(v: Seq<Backup>, ended: Seq<Moment>)
    requires
        v.len() > 0,
    ensures
        last_ended_by(oldest_first(v), ended, None) == Some(oldest_first(v).last()),
        forall|k: int|
            0 <= k < v.len() ==> (#[trigger] v[k]).timestamp.stop <= oldest_first(
                v,
            ).last().timestamp.stop,
{
    broadcast use group_to_multiset_ensures;

    let sorted = oldest_first(v);
    oldest_first_sorts(v);
    assert forall|k: int| 0 <= k < v.len() implies (#[trigger] v[k]).timestamp.stop
        <= sorted.last().timestamp.stop by {
        assert(v.contains(v[k]));
        assert(v.to_multiset().count(v[k]) > 0);
        assert(sorted.contains(v[k]));
        let i = choose|i: int| 0 <= i < sorted.len() && sorted[i] == v[k];
        if i < sorted.len() - 1 {
            assert(sorted[i].timestamp.stop <= sorted[sorted.len() - 1].timestamp.stop);
        }
    }
}

} // verus!
