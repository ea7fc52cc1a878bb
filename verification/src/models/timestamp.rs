//! Instants on the time line, and the two questions asked of the clock.

use vstd::prelude::*;

verus! {

/// The number of nanoseconds in one second.
pub const NANOS_PER_SECOND: u64 = 1_000_000_000;

/// The number of seconds in one day.
pub const SECONDS_PER_DAY: u64 = 86_400;

/// An instant: whole seconds since the Unix epoch and the nanoseconds past
/// that second.
#[derive(Clone, Copy, Debug, PartialEq, Eq, Hash, Structural)]
pub struct Timestamp {
    pub secs: i64,
    pub nanos: u32,
}

impl View for Timestamp {
    type V = int;

    /// The instant as nanoseconds since the Unix epoch.
    open spec fn view(&self) -> int {
        self.secs * NANOS_PER_SECOND + self.nanos
    }
}

impl Timestamp {
    /// The instant `nanos` nanoseconds past the second `secs`.
    pub fn new(secs: i64, nanos: u32) -> (r: Timestamp)
        ensures
            r == (Timestamp { secs, nanos }),
    {
        Timestamp { secs, nanos }
    }

    /// The instant at the start of the second `secs`.
    pub fn from_secs(secs: i64) -> (r: Timestamp)
        ensures
            r == (Timestamp { secs, nanos: 0 }),
            r@ == secs * NANOS_PER_SECOND,
    {
        Timestamp { secs, nanos: 0 }
    }

    /// The nanoseconds that passed from `earlier` to `self`; negative where
    /// `earlier` is the later of the two.
    pub fn nanos_since(&self, earlier: &Timestamp) -> (r: i128)
        ensures
            r == self@ - earlier@,
    {
        let secs: i128 = self.secs as i128 - earlier.secs as i128;
        let nanos: i128 = self.nanos as i128 - earlier.nanos as i128;
        secs * 1_000_000_000 + nanos
    }

    /// Whether more than `seconds` whole seconds passed from `earlier` to
    /// `self`.
    pub fn is_more_than_seconds_after(&self, earlier: &Timestamp, seconds: u64) -> (r: bool)
        ensures
            r == (self@ - earlier@ > seconds * NANOS_PER_SECOND),
    {
        self.nanos_since(earlier) > seconds as i128 * 1_000_000_000
    }

    /// Whether fewer than `days` whole days passed from `earlier` to `self`.
    pub fn is_less_than_days_after(&self, earlier: &Timestamp, days: u32) -> (r: bool)
        ensures
            r == (self@ - earlier@ < days * SECONDS_PER_DAY * NANOS_PER_SECOND),
    {
        self.nanos_since(earlier) < days as i128 * 86_400 * 1_000_000_000
    }
}

impl Default for Timestamp {
    /// The Unix epoch.
    fn default() -> (r: Timestamp)
        ensures
            r == (Timestamp { secs: 0, nanos: 0 }),
    {
        Timestamp { secs: 0, nanos: 0 }
    }
}

/// Reads the system clock with `chrono::Local::now` and hands back the
/// instant as seconds and nanoseconds since the Unix epoch. Nothing is
/// claimed of the instant: it is whatever the clock says.
#[verifier::external_body]
pub(crate) fn now() -> Timestamp {
    let t = chrono::Local::now();
    Timestamp { secs: t.timestamp(), nanos: t.timestamp_subsec_nanos() }
}

/// Writes the calendar date of `t` in the machine's time zone as
/// `year-month-day`, with `chrono::DateTime::format`. The result is `None`
/// where `chrono::DateTime::from_timestamp` cannot represent the instant.
/// Nothing is claimed of the text: it depends on the time zone of the
/// machine.
#[verifier::external_body]
pub(crate) fn local_date(t: Timestamp) -> Option<String> {
    match chrono::DateTime::from_timestamp(t.secs, t.nanos) {
        Some(utc) => Some(utc.with_timezone(&chrono::Local).format("%Y-%m-%d").to_string()),
        None => None,
    }
}

} // verus!
