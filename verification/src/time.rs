//! Instants in UTC. The calendar is chrono's.

use vstd::prelude::*;

verus! {

/// An instant: seconds since the epoch, and nanoseconds into that second.
#[derive(Debug, Clone, Copy, PartialEq, Eq, Structural)]
pub struct Moment {
    pub secs: i64,
    pub nanos: u32,
}

/// The first second chrono can represent.
pub const MIN_SECS: i64 = -8_334_601_228_800;

/// The last second chrono can represent.
pub const MAX_SECS: i64 = 8_210_266_876_799;

/// How a backup's times are shown.
pub const SHOWN: &'static str = "%Y-%m-%d %H:%M:%SZ";

/// How a job's name is made unique.
pub const STAMP: &'static str = "%Y%m%dt%H%M%S";

/// chrono has a date and time for this instant.
pub open spec fn representable(m: Moment) -> bool {
    &&& MIN_SECS <= m.secs <= MAX_SECS
    &&& m.nanos < 1_000_000_000 || (m.nanos < 2_000_000_000 && m.secs % 60 == 59)
}

/// `a` is `b` or earlier.
pub open spec fn no_later(a: Moment, b: Moment) -> bool {
    a.secs < b.secs || (a.secs == b.secs && a.nanos <= b.nanos)
}

impl Moment {
    /// Whether this instant is `other` or earlier.
    pub fn at_or_before(&self, other: Moment) -> (r: bool)
        ensures
            r == no_later(*self, other),
    {
        self.secs < other.secs || (self.secs == other.secs && self.nanos <= other.nanos)
    }
}

/// `TimeZone::timestamp_opt` of chrono's `Utc`: the instant itself for every
/// second the calendar covers, and nothing outside it.
#[verifier::external_body]
fn utc_at(secs: i64) -> (r: Option<Moment>)
    ensures
        r == (if MIN_SECS <= secs <= MAX_SECS {
            Some(Moment { secs, nanos: 0 })
        } else {
            None
        }),
{
    chrono::TimeZone::timestamp_opt(&chrono::Utc, secs, 0).single().map(
        |t| Moment { secs: t.timestamp(), nanos: t.timestamp_subsec_nanos() },
    )
}

/// `Utc::now`: some instant the calendar covers.
#[verifier::external_body]
pub(crate) fn utc_now() -> (r: Moment)
    ensures
        representable(r),
{
    let t = chrono::Utc::now();
    Moment { secs: t.timestamp(), nanos: t.timestamp_subsec_nanos() }
}

/// How chrono formats an instant after a pattern.
pub uninterp spec fn formatted(secs: i64, nanos: u32, pattern: Seq<char>) -> Seq<char>;

/// `DateTime::format` with one of the two patterns used here. What the
/// pattern's fields look like is chrono's affair: the text is a function of
/// the instant and the pattern.
#[verifier::external_body]
pub(crate) fn format_utc(m: Moment, pattern: &str) -> (r: String)
    requires
        representable(m),
        pattern@ == SHOWN@ || pattern@ == STAMP@,
    ensures
        r@ == formatted(m.secs, m.nanos, pattern@),
{
    chrono::DateTime::from_timestamp(m.secs, m.nanos).unwrap().format(pattern).to_string()
}

/// How chrono displays an instant.
pub uninterp spec fn displayed(secs: i64, nanos: u32) -> Seq<char>;

/// `Display` of chrono's `DateTime<Utc>`, as a function of the instant.
#[verifier::external_body]
pub(crate) fn display_utc(m: Moment) -> (r: String)
    requires
        representable(m),
    ensures
        r@ == displayed(m.secs, m.nanos),
{
    chrono::DateTime::from_timestamp(m.secs, m.nanos).unwrap().to_string()
}

/// How chrono writes an instant in RFC 3339.
pub uninterp spec fn rfc3339(secs: i64, nanos: u32) -> Seq<char>;

/// `DateTime::to_rfc3339`, as a function of the instant.
#[verifier::external_body]
pub(crate) fn to_rfc3339(m: Moment) -> (r: String)
    requires
        representable(m),
    ensures
        r@ == rfc3339(m.secs, m.nanos),
{
    chrono::DateTime::from_timestamp(m.secs, m.nanos).unwrap().to_rfc3339()
}

/// What chrono reads in an RFC 3339 timestamp: the instant, or none.
pub uninterp spec fn rfc3339_read(s: Seq<char>) -> Option<(i64, u32)>;

/// `DateTime::parse_from_rfc3339`, taken to UTC. The instant, where there is
/// one, is one the calendar covers; which texts have one is left to chrono.
#[verifier::external_body]
fn read_rfc3339(s: &str) -> (r: Option<Moment>)
    ensures
        match r {
            Some(m) => rfc3339_read(s@) == Some((m.secs, m.nanos)) && representable(m),
            None => rfc3339_read(s@) is None,
        },
{
    chrono::DateTime::parse_from_rfc3339(s).ok().map(
        |t| Moment { secs: t.timestamp(), nanos: t.timestamp_subsec_nanos() },
    )
}

/// The instant of a Unix timestamp, or the present one where the calendar
/// does not reach that far.
pub fn utc_or_now(secs: i64) -> (r: Moment)
    ensures
        representable(r),
        MIN_SECS <= secs <= MAX_SECS ==> r == (Moment { secs, nanos: 0 }),
{
    match utc_at(secs) {
        Some(m) => m,
        None => utc_now(),
    }
}

/// An instant written in RFC 3339.
pub fn parse_rfc3339(s: &str) -> (r: Option<Moment>)
    ensures
        match r {
            Some(m) => rfc3339_read(s@) == Some((m.secs, m.nanos)) && representable(m),
            None => rfc3339_read(s@) is None,
        },
{
    read_rfc3339(s)
}

/// Instants stand in one line: the second decides, and within one second the
/// fraction of it.
pub proof fn instants_stand_in_line(a: Moment, b: Moment, c: Moment)
    ensures
        a.secs < b.secs ==> no_later(a, b) && !no_later(b, a),
        a.secs == b.secs && a.nanos < b.nanos ==> no_later(a, b) && !no_later(b, a),
        no_later(a, b) && no_later(b, a) <==> a == b,
        no_later(a, b) && no_later(b, c) ==> no_later(a, c),
{
}

} // verus!
