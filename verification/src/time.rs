//! Instants, and how they are written and compared.
use vstd::prelude::*;

use crate::text::Text;

verus! {

/// An instant in UTC: whole seconds since the epoch and the nanoseconds after
/// them. The nanoseconds exceed a second only within a leap second.
#[derive(Debug, Clone, Copy, PartialEq, Eq, Structural)]
pub struct Timestamp {
    secs: i64,
    nanos: u32,
}

/// The first second that can be represented, in the year -262143.
pub const MIN_SECS: i64 = -8_334_601_228_800;

/// The last second that can be represented, in the year 262142.
pub const MAX_SECS: i64 = 8_210_266_876_799;

/// Seconds and nanoseconds that are an instant.
pub open spec fn instant(t: (i64, u32)) -> bool {
    &&& MIN_SECS <= t.0 <= MAX_SECS
    &&& t.1 < 2_000_000_000
    &&& t.1 >= 1_000_000_000 ==> t.0 % 60 == 59
}

impl View for Timestamp {
    type V = (i64, u32);

    closed spec fn view(&self) -> (i64, u32) {
        (self.secs, self.nanos)
    }
}

/// The parts of an optional instant.
pub open spec fn opt_instant(t: Option<Timestamp>) -> Option<(i64, u32)> {
    match t {
        Some(t) => Some(t@),
        None => None,
    }
}

/// The instant that an RFC 3339 text names, as `chrono` reads it.
pub uninterp spec fn rfc3339_instant(text: Text) -> Option<(i64, u32)>;

/// An instant as `chrono` writes it with `%Y-%m-%dT%H:%M:%S%.3fZ`.
pub uninterp spec fn sql_time_text(t: (i64, u32)) -> Text;

/// The day of an instant as `chrono` writes it with `%Y-%m-%d`.
pub uninterp spec fn date_text(t: (i64, u32)) -> Text;

/// The whole days from one instant to a later one, as `chrono` counts them.
pub uninterp spec fn days_between(from: (i64, u32), to: (i64, u32)) -> i64;

/// Division that drops the fraction, on either side of zero.
pub open spec fn truncated(a: int, b: int) -> int {
    if a >= 0 {
        a / b
    } else {
        -((-a) / b)
    }
}

/// The nanoseconds from one instant to another.
pub open spec fn elapsed(from: (i64, u32), to: (i64, u32)) -> int {
    (to.0 - from.0) * 1_000_000_000 + (to.1 - from.1)
}

/// The nanoseconds of a day.
pub open spec fn day_nanos() -> int {
    86_400_000_000_000
}

impl Timestamp {
    #[verifier::type_invariant]
    spec fn wf(&self) -> bool {
        instant(self@)
    }

    pub fn secs(&self) -> (s: i64)
        ensures
            s == self@.0,
            instant(self@),
    {
        proof {
            use_type_invariant(self);
        }
        self.secs
    }

    pub fn nanos(&self) -> (n: u32)
        ensures
            n == self@.1,
            instant(self@),
    {
        proof {
            use_type_invariant(self);
        }
        self.nanos
    }

    /// `chrono::DateTime::from_timestamp`: an instant from its seconds and
    /// nanoseconds, where they are one.
    #[verifier::external_body]
    fn checked(secs: i64, nanos: u32) -> (r: Option<Timestamp>)
        ensures
            opt_instant(r) == if instant((secs, nanos)) {
                Some((secs, nanos))
            } else {
                None
            },
    {
        chrono::DateTime::from_timestamp(secs, nanos).map(
            |t| Timestamp { secs: t.timestamp(), nanos: t.timestamp_subsec_nanos() },
        )
    }

    /// An instant from its seconds and nanoseconds, where they are one.
    pub fn from_timestamp(secs: i64, nanos: u32) -> (r: Option<Timestamp>)
        ensures
            opt_instant(r) == if instant((secs, nanos)) {
                Some((secs, nanos))
            } else {
                None
            },
    {
        Timestamp::checked(secs, nanos)
    }

    /// `chrono::DateTime::parse_from_rfc3339`: the instant that a text names.
    /// The result is named.
    #[verifier::external_body]
    fn read_rfc3339(text: &str) -> (r: Option<Timestamp>)
        ensures
            opt_instant(r) == rfc3339_instant(text@),
    {
        chrono::DateTime::parse_from_rfc3339(text).ok().map(
            |t| Timestamp { secs: t.timestamp(), nanos: t.timestamp_subsec_nanos() },
        )
    }

    /// The instant that an RFC 3339 text names.
    pub fn parse_from_rfc3339(text: &str) -> (r: Option<Timestamp>)
        ensures
            opt_instant(r) == rfc3339_instant(text@),
    {
        Timestamp::read_rfc3339(text)
    }

    /// `chrono::Utc::now`: the present. Nothing is said of which instant it is.
    #[verifier::external_body]
    pub(crate) fn now() -> (t: Timestamp)
    {
        let t = chrono::Utc::now();
        Timestamp { secs: t.timestamp(), nanos: t.timestamp_subsec_nanos() }
    }

    /// `chrono::DateTime::format` with `%Y-%m-%dT%H:%M:%S%.3fZ`. The result is
    /// named.
    #[verifier::external_body]
    fn write_sql(&self) -> (s: String)
        ensures
            s@ == sql_time_text(self@),
    {
        let t = chrono::DateTime::from_timestamp(self.secs, self.nanos).unwrap();
        t.format("%Y-%m-%dT%H:%M:%S%.3fZ").to_string()
    }

    /// `chrono::DateTime::format` with `%Y-%m-%d`. The result is named.
    #[verifier::external_body]
    pub(crate) fn date(&self) -> (s: String)
        ensures
            s@ == date_text(self@),
    {
        let t = chrono::DateTime::from_timestamp(self.secs, self.nanos).unwrap();
        t.format("%Y-%m-%d").to_string()
    }

    /// `chrono::DateTime::signed_duration_since` and `TimeDelta::num_days`: the
    /// whole days from `earlier` to this instant. The result is named; outside
    /// leap seconds it is the elapsed time in days without its fraction.
    #[verifier::external_body]
    pub(crate) fn days_since(&self, earlier: &Timestamp) -> (d: i64)
        ensures
            d == days_between(earlier@, self@),
            self@.1 < 1_000_000_000 && earlier@.1 < 1_000_000_000 ==> d == truncated(
                elapsed(earlier@, self@),
                day_nanos(),
            ),
    {
        let t = chrono::DateTime::from_timestamp(self.secs, self.nanos).unwrap();
        let e = chrono::DateTime::from_timestamp(earlier.secs, earlier.nanos).unwrap();
        t.signed_duration_since(e).num_days()
    }
}

/// Write an instant the way every stored column expects.
pub fn to_sql_time(t: Timestamp) -> (s: String)
    ensures
        s@ == sql_time_text(t@),
{
    t.write_sql()
}

/// The present, written the way every stored column expects.
pub fn now_sql() -> (s: String)
    ensures
        exists|t: (i64, u32)| #[trigger] sql_time_text(t) == s@,
{
    to_sql_time(Timestamp::now())
}

/// Whole days are counted in twenty-four hours: so many times that many seconds
/// later is so many days later, and a moment less is one less.
pub proof fn law_a_day_has_twenty_four_hours(from: (i64, u32), to: (i64, u32), days: int)
    requires
        days >= 0,
        from.1 < 1_000_000_000 && to.1 < 1_000_000_000,
    ensures
        truncated(elapsed(from, to), day_nanos()) >= days <==> days == 0 && elapsed(from, to)
            > -day_nanos() || (to.0 - from.0) * 1_000_000_000 + to.1 - from.1 >= days * (24 * 60
            * 60) * 1_000_000_000,
{
    let e = elapsed(from, to);
    let d = day_nanos();
    assert(d == 24 * 60 * 60 * 1_000_000_000);
    assert(days * (24 * 60 * 60) * 1_000_000_000 == days * d) by (nonlinear_arith)
        requires
            d == 24 * 60 * 60 * 1_000_000_000,
    ;
    if e >= 0 {
        assert((e / d >= days) == (e >= days * d)) by (nonlinear_arith)
            requires
                e >= 0,
                days >= 0,
                d == 86_400_000_000_000,
        ;
        assert(e > -d);
    } else {
        let f = -e;
        assert(f / d >= 0 && (f / d == 0) == (f < d)) by (nonlinear_arith)
            requires
                f > 0,
                d == 86_400_000_000_000,
        ;
        assert(days * d >= 0) by (nonlinear_arith)
            requires
                days >= 0,
                d > 0,
        ;
    }
}

} // verus!
