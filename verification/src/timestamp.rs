//! Points in time, as seconds and nanoseconds since the Unix epoch (UTC).
use vstd::prelude::*;

verus! {

/// A point in time: whole seconds since 1970-01-01T00:00:00Z and the nanoseconds past them.
#[derive(Clone, Copy, Debug, PartialEq, Eq)]
pub struct Timestamp {
    pub seconds: i64,
    pub nanoseconds: u32,
}

impl Timestamp {
    /// Whether `self` comes strictly after `other` (seconds first, then nanoseconds).
    pub open spec fn spec_is_after(self, other: Timestamp) -> bool {
        self.seconds > other.seconds || (self.seconds == other.seconds && self.nanoseconds
            > other.nanoseconds)
    }

    /// Whether `self` comes strictly after `other`.
    pub fn is_after(&self, other: &Timestamp) -> (r: bool)
        ensures
            r == self.spec_is_after(*other),
    {
        self.seconds > other.seconds || (self.seconds == other.seconds && self.nanoseconds
            > other.nanoseconds)
    }
}

/// Law: for stamps whose nanoseconds lie below one second, `a` comes after `b` exactly
/// when `a` is the later instant, counted in nanoseconds since the epoch.
pub proof fn lemma_is_after_compares_instants(a: Timestamp, b: Timestamp)
    requires
        a.nanoseconds < 1_000_000_000,
        b.nanoseconds < 1_000_000_000,
    ensures
        a.spec_is_after(b) == (a.seconds * 1_000_000_000 + a.nanoseconds > b.seconds
            * 1_000_000_000 + b.nanoseconds),
{
    let d = a.seconds - b.seconds;
    assert(a.seconds * 1_000_000_000 - b.seconds * 1_000_000_000 == d * 1_000_000_000);
    if d >= 1 {
        assert(d * 1_000_000_000 >= 1_000_000_000) by (nonlinear_arith)
            requires
                d >= 1,
        ;
    } else if d <= -1 {
        assert(d * 1_000_000_000 <= -1_000_000_000) by (nonlinear_arith)
            requires
                d <= -1,
        ;
    }
}

/// Whether `chrono` can represent the given number of seconds since the epoch as a
/// `DateTime<Utc>`: its dates run from January 1 of the year -262143 to December 31 of the
/// year 262142 (proleptic Gregorian), that is from -8334601228800 to 8210266876799 seconds.
pub open spec fn chrono_utc_representable(seconds: i64) -> bool {
    -8334601228800 <= seconds <= 8210266876799
}

/// Asks `chrono::DateTime::<Utc>::from_timestamp(seconds, 0)` whether the number of
/// seconds lies in the range of dates that `chrono` represents (its smallest year is
/// `(i32::MIN >> 13) + 1`, its largest `(i32::MAX >> 13) - 1`).
#[verifier::external_body]
pub(crate) fn utc_representable(seconds: i64) -> (r: bool)
    ensures
        r == chrono_utc_representable(seconds),
{
    chrono::DateTime::<chrono::Utc>::from_timestamp(seconds, 0).is_some()
}

/// Reads the system clock with `chrono::Utc::now()`. Nothing is promised of the result:
/// it comes from the clock.
#[verifier::external_body]
pub(crate) fn utc_now() -> Timestamp {
    let now = chrono::Utc::now();
    Timestamp { seconds: now.timestamp(), nanoseconds: now.timestamp_subsec_nanos() }
}

} // verus!
