//! Instants as plain values, the retention window, and the clock and the
//! arrival-time parser that chrono provides.

use vstd::prelude::*;

verus! {

/// Nanoseconds in one second.
pub const NANOS_PER_SEC: i128 = 1_000_000_000;

/// How long an entry stays fresh after it was written, in seconds (six hours).
pub const RETENTION_SECS: i128 = 21_600;

/// A UTC instant: whole seconds since 1970-01-01T00:00:00Z and the nanoseconds
/// past that second. During a leap second `nanos` runs from one to two billion,
/// as in chrono.
#[derive(Clone, Copy, Debug, PartialEq, Eq, Structural)]
pub struct Timestamp {
    pub secs: i64,
    pub nanos: u32,
}

/// The retention window in nanoseconds.
pub open spec fn retention_nanos() -> int {
    RETENTION_SECS * NANOS_PER_SEC
}

impl Timestamp {
    /// The instant as nanoseconds since the epoch.
    pub open spec fn instant(self) -> int {
        self.secs * NANOS_PER_SEC + self.nanos
    }

    /// The instant as nanoseconds since the epoch.
    pub fn nanos_since_epoch(&self) -> (r: i128)
        ensures
            r == self.instant(),
    {
        let s: i128 = self.secs as i128;
        proof {
            assert(-0x8000_0000_0000_0000 * 1_000_000_000 <= s * 1_000_000_000
                <= 0x8000_0000_0000_0000 * 1_000_000_000) by (nonlinear_arith)
                requires
                    -0x8000_0000_0000_0000 <= s <= 0x8000_0000_0000_0000,
            ;
        }
        s * NANOS_PER_SEC + self.nanos as i128
    }
}

/// An entry written at `stamp` is stale at `now` when more than the retention
/// window has passed: `stamp + 6h < now`. An entry exactly at the boundary is
/// still fresh.
pub open spec fn is_stale(stamp: Timestamp, now: Timestamp) -> bool {
    stamp.instant() + retention_nanos() < now.instant()
}

/// Decides `is_stale(stamp, now)`.
pub fn stale_at(stamp: &Timestamp, now: &Timestamp) -> (r: bool)
    ensures
        r == is_stale(*stamp, *now),
{
    let a = stamp.nanos_since_epoch();
    let b = now.nanos_since_epoch();
    a + RETENTION_SECS * NANOS_PER_SEC < b
}

/// chrono's error for text that does not match a date-time format.
#[verifier::external_type_specification]
#[verifier::external_body]
pub struct ExParseError(chrono::format::ParseError);

/// The UTC instant that chrono reads from `s` in the format
/// `DD.MM.YYYY HH:MM:SS` as (seconds since the epoch, nanoseconds), or `None`
/// where the text does not match.
pub uninterp spec fn arrival_of(s: Seq<char>) -> Option<(i64, u32)>;

/// Relies on chrono's `NaiveDateTime::parse_from_str` with the format
/// `%d.%m.%Y %H:%M:%S`, read as UTC through `and_utc`, `timestamp` and
/// `timestamp_subsec_nanos`. The result depends on the text alone; chrono's
/// times keep their nanoseconds below two billion.
#[verifier::external_body]
fn parse_arrival_text(s: &str) -> (r: Result<(i64, u32), chrono::format::ParseError>)
    ensures
        r is Ok <==> arrival_of(s@) is Some,
        r is Ok ==> arrival_of(s@) == Some(r->Ok_0),
        r is Ok ==> r->Ok_0.1 < 2 * NANOS_PER_SEC,
{
    let t = chrono::NaiveDateTime::parse_from_str(s, "%d.%m.%Y %H:%M:%S")?.and_utc();
    Ok((t.timestamp(), t.timestamp_subsec_nanos()))
}

/// Reads an arrival time written `DD.MM.YYYY HH:MM:SS` as a UTC instant;
/// `None` where the text does not have that form.
pub fn parse_arrival(s: &str) -> (r: Option<Timestamp>)
    ensures
        r is Some <==> arrival_of(s@) is Some,
        r is Some ==> arrival_of(s@) == Some((r->Some_0.secs, r->Some_0.nanos)),
        r is Some ==> r->Some_0.nanos < 2 * NANOS_PER_SEC,
{
    match parse_arrival_text(s) {
        Ok(p) => Some(Timestamp { secs: p.0, nanos: p.1 }),
        Err(_) => None,
    }
}

/// Relies on chrono's `Utc::now`, read through `timestamp` and
/// `timestamp_subsec_nanos`: the system clock, never a leap second, so the
/// nanoseconds stay below one billion.
#[verifier::external_body]
pub(crate) fn clock_now() -> (r: Timestamp)
    ensures
        r.nanos < NANOS_PER_SEC,
{
    let t = chrono::Utc::now();
    Timestamp { secs: t.timestamp(), nanos: t.timestamp_subsec_nanos() }
}

} // verus!
