//! Instants of the UTC time line, read, written and compared by `chrono`.
use vstd::prelude::*;

verus! {

/// A point of the UTC time line: whole seconds since the Unix epoch, and nanoseconds past them.
///
/// A leap second is the second before it with a billion or more nanoseconds.
#[derive(Debug, Clone, Copy, PartialEq, Eq, Structural)]
pub struct Instant {
    pub secs: i64,
    pub nanos: u32,
}

/// The first second of the year -262143.
pub const FIRST_SECOND: i64 = -8334601228800;

/// The last second of the year 262142.
pub const LAST_SECOND: i64 = 8210266876799;

/// Whether the calendar has a place for the instant.
pub open spec fn on_calendar(secs: i64, nanos: u32) -> bool {
    &&& FIRST_SECOND <= secs <= LAST_SECOND
    &&& nanos < 1_000_000_000 || (nanos < 2_000_000_000 && (secs as int) % 60 == 59)
}

impl Instant {
    /// Whether the calendar has a place for the instant.
    pub open spec fn valid(self) -> bool {
        on_calendar(self.secs, self.nanos)
    }

    /// Whether the instant lies on the calendar, outside of any leap second.
    pub open spec fn regular(self) -> bool {
        FIRST_SECOND <= self.secs <= LAST_SECOND && self.nanos < 1_000_000_000
    }
}

/// Tells whether the instant lies on the calendar, outside of any leap second.
pub fn is_regular(at: &Instant) -> (r: bool)
    ensures
        r == at.regular(),
{
    FIRST_SECOND <= at.secs && at.secs <= LAST_SECOND && at.nanos < 1_000_000_000
}

/// The instant that `text` names in RFC 3339 form, as seconds and nanoseconds, if it names one.
pub uninterp spec fn rfc3339_instant(text: Seq<char>) -> Option<(i64, u32)>;

/// `chrono::DateTime::parse_from_rfc3339` reads `text`; what it read is taken to UTC as
/// `timestamp` and `timestamp_subsec_nanos`. What it accepts is left to `chrono`; what it gives
/// lies on the calendar, so that `DateTime::from_timestamp` would give the same instant back.
#[verifier::external_body]
pub(crate) fn read_rfc3339(text: &str) -> (r: Option<(i64, u32)>)
    ensures
        r == rfc3339_instant(text@),
        r matches Some(at) ==> on_calendar(at.0, at.1),
{
    chrono::DateTime::parse_from_rfc3339(text).ok().map(|at| (at.timestamp(), at.timestamp_subsec_nanos()))
}

/// The RFC 3339 text of the instant, with an offset of zero.
pub uninterp spec fn rfc3339_text(secs: i64, nanos: u32) -> Seq<char>;

/// `chrono::DateTime::<Utc>::to_rfc3339` writes the instant. The form of the text is left to
/// `chrono`.
#[verifier::external_body]
pub(crate) fn write_rfc3339(secs: i64, nanos: u32) -> (r: String)
    requires
        on_calendar(secs, nanos),
    ensures
        r@ == rfc3339_text(secs, nanos),
{
    chrono::DateTime::from_timestamp(secs, nanos).unwrap().to_rfc3339()
}

/// `n` nanoseconds as whole seconds, the fraction dropped.
pub open spec fn whole_seconds(n: int) -> int {
    if n >= 0 {
        n / 1_000_000_000
    } else {
        -((-n) / 1_000_000_000)
    }
}

/// The second of the day that `secs` falls on.
pub open spec fn second_of_day(secs: i64) -> int {
    (secs as int) % 86_400
}

/// The seconds that a leap second adds to a difference: the one that lies between the two times of
/// day, seen from the earlier or from the later instant.
pub open spec fn leap_seconds(
    later_secs: i64,
    later_nanos: u32,
    earlier_secs: i64,
    earlier_nanos: u32,
) -> int {
    if second_of_day(later_secs) > second_of_day(earlier_secs) && earlier_nanos >= 1_000_000_000 {
        1
    } else if second_of_day(later_secs) < second_of_day(earlier_secs) && later_nanos
        >= 1_000_000_000 {
        -1
    } else {
        0
    }
}

/// The whole seconds from the earlier instant to the later one, the fraction dropped.
pub open spec fn seconds_since(
    later_secs: i64,
    later_nanos: u32,
    earlier_secs: i64,
    earlier_nanos: u32,
) -> int {
    whole_seconds(
        (later_secs - earlier_secs + leap_seconds(
            later_secs,
            later_nanos,
            earlier_secs,
            earlier_nanos,
        )) * 1_000_000_000 + (later_nanos - earlier_nanos),
    )
}

/// The difference of two `chrono::DateTime<Utc>`, and its `num_seconds`: the whole seconds
/// between the instants, the fraction dropped. A leap second counts by the times of day.
#[verifier::external_body]
pub(crate) fn measure_seconds(
    later_secs: i64,
    later_nanos: u32,
    earlier_secs: i64,
    earlier_nanos: u32,
) -> (r: i64)
    requires
        on_calendar(later_secs, later_nanos),
        on_calendar(earlier_secs, earlier_nanos),
    ensures
        r == seconds_since(later_secs, later_nanos, earlier_secs, earlier_nanos),
{
    let later = chrono::DateTime::from_timestamp(later_secs, later_nanos).unwrap();
    let earlier = chrono::DateTime::from_timestamp(earlier_secs, earlier_nanos).unwrap();
    (later - earlier).num_seconds()
}

/// Adding a `chrono::Duration` of whole seconds to a `chrono::DateTime<Utc>` outside of any leap
/// second moves its seconds and keeps its nanoseconds.
#[verifier::external_body]
pub(crate) fn shift_seconds(secs: i64, nanos: u32, by: i64) -> (r: (i64, u32))
    requires
        FIRST_SECOND <= secs <= LAST_SECOND,
        nanos < 1_000_000_000,
        FIRST_SECOND <= secs + by <= LAST_SECOND,
    ensures
        r.0 == secs + by,
        r.1 == nanos,
{
    let moved = chrono::DateTime::from_timestamp(secs, nanos).unwrap() + chrono::Duration::seconds(by);
    (moved.timestamp(), moved.timestamp_subsec_nanos())
}

impl Instant {
    /// The instant in RFC 3339 form.
    pub fn to_rfc3339(self) -> (r: String)
        requires
            self.valid(),
        ensures
            r@ == rfc3339_text(self.secs, self.nanos),
    {
        write_rfc3339(self.secs, self.nanos)
    }

    /// The whole seconds from `earlier` to this instant.
    pub fn seconds_since(self, earlier: Instant) -> (r: i64)
        requires
            self.valid(),
            earlier.valid(),
        ensures
            r == seconds_since(self.secs, self.nanos, earlier.secs, earlier.nanos),
    {
        measure_seconds(self.secs, self.nanos, earlier.secs, earlier.nanos)
    }

    /// The instant `by` seconds later.
    pub fn plus_seconds(self, by: i64) -> (r: Instant)
        requires
            self.regular(),
            FIRST_SECOND <= self.secs + by <= LAST_SECOND,
        ensures
            r.secs == self.secs + by,
            r.nanos == self.nanos,
    {
        let (secs, nanos) = shift_seconds(self.secs, self.nanos, by);
        Instant { secs, nanos }
    }
}

/// The seconds between two instants outside of any leap second are the whole ones that fit between
/// them, and between them the other way round they are as many, negative.
pub proof fn law_seconds_are_whole_and_signed(later: Instant, earlier: Instant, r: i64, back: i64)
    requires
        call_ensures(Instant::seconds_since, (later, earlier), r),
        call_ensures(Instant::seconds_since, (earlier, later), back),
        later.nanos < 1_000_000_000,
        earlier.nanos < 1_000_000_000,
    ensures
        back == -r,
        later.nanos == earlier.nanos ==> r == later.secs - earlier.secs,
        later.secs > earlier.secs && later.nanos < earlier.nanos ==> r == later.secs - earlier.secs
            - 1,
        later.secs >= earlier.secs && later.nanos >= earlier.nanos ==> r == later.secs
            - earlier.secs,
{
}

/// An instant is moved by whole seconds, and its fraction stays.
pub proof fn law_instants_move_by_seconds(at: Instant, by: i64, r: Instant, back: i64)
    requires
        at.regular(),
        call_ensures(Instant::plus_seconds, (at, by), r),
        call_ensures(Instant::seconds_since, (r, at), back),
    ensures
        r.secs - at.secs == by,
        r.nanos == at.nanos,
        back == by,
{
}

} // verus!
