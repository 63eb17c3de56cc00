//! Points in time and whole-second durations, as the expiry rules read them.

use vstd::prelude::*;

verus! {

/// Nanoseconds in one second.
pub const NANOS_PER_SEC: i128 = 1_000_000_000;

/// A span of whole seconds; negative spans point into the past.
#[derive(Clone, Copy, Debug, PartialEq, Eq, Structural)]
pub struct Duration {
    secs: i64,
}

/// A point in time on the UTC time line.
///
/// Its view is the number of nanoseconds since 1970-01-01T00:00:00Z.
#[derive(Clone, Copy, Debug, PartialEq, Eq, Structural)]
pub struct DateTime {
    nanos: i128,
}

/// Nanoseconds since the epoch of the instant `nanos` nanoseconds after the second `secs`.
pub open spec fn timestamp_nanos(secs: i64, nanos: u32) -> int {
    secs * 1_000_000_000 + nanos
}

/// Whether `t` nanoseconds since the epoch is an instant that a clock can give: one that a
/// count of whole seconds and of nanoseconds within the second denotes.
pub open spec fn clocked(t: int) -> bool {
    i64::MIN * 1_000_000_000 <= t <= i64::MAX * 1_000_000_000 + u32::MAX
}

/// Whether `t` nanoseconds since the epoch can be held by a [`DateTime`].
pub open spec fn representable(t: int) -> bool {
    i128::MIN <= t <= i128::MAX
}

impl View for Duration {
    type V = int;

    /// The span in nanoseconds.
    closed spec fn view(&self) -> int {
        self.secs * 1_000_000_000
    }
}

impl View for DateTime {
    type V = int;

    closed spec fn view(&self) -> int {
        self.nanos as int
    }
}

/// The views of an optional instant.
pub open spec fn instant(t: Option<DateTime>) -> Option<int> {
    match t {
        Some(t) => Some(t@),
        None => None,
    }
}

/// Reads the system clock through `chrono::Utc::now` and hands back what its `timestamp` and
/// `timestamp_subsec_nanos` report. Nothing is claimed of the reading.
#[verifier::external_body]
fn utc_now() -> (parts: (i64, u32)) {
    let now = chrono::Utc::now();
    (now.timestamp(), now.timestamp_subsec_nanos())
}

/// An instant that a clock can give can be moved by any span.
pub proof fn lemma_clocked_plus(t: int, span: Duration)
    requires
        clocked(t),
    ensures
        representable(t + span@),
{
}

impl Duration {
    /// A span of `secs` seconds.
    pub fn seconds(secs: i64) -> (d: Duration)
        ensures
            d@ == secs * 1_000_000_000,
    {
        Duration { secs }
    }

    /// The span in seconds.
    pub fn num_seconds(&self) -> (secs: i64)
        ensures
            self@ == secs * 1_000_000_000,
    {
        self.secs
    }
}

impl DateTime {
    /// The instant `nanos` nanoseconds after the second `secs` since the epoch.
    pub fn from_timestamp(secs: i64, nanos: u32) -> (t: DateTime)
        ensures
            t@ == timestamp_nanos(secs, nanos),
    {
        let whole: i128 = secs as i128 * NANOS_PER_SEC;
        DateTime { nanos: whole + nanos as i128 }
    }

    /// The instant `nanos` nanoseconds since the epoch.
    pub fn from_nanos(nanos: i128) -> (t: DateTime)
        ensures
            t@ == nanos,
    {
        DateTime { nanos }
    }

    /// Nanoseconds since the epoch.
    pub fn timestamp_nanos(&self) -> (nanos: i128)
        ensures
            nanos == self@,
    {
        self.nanos
    }

    /// The current reading of the system clock.
    pub fn now() -> (now: DateTime)
        ensures
            clocked(now@),
    {
        let parts = utc_now();
        DateTime::from_timestamp(parts.0, parts.1)
    }

    /// Whether this instant lies strictly after `other`.
    pub fn is_after(&self, other: &DateTime) -> (after: bool)
        ensures
            after == (self@ > other@),
    {
        self.nanos > other.nanos
    }

    /// This instant moved by `span`, or `None` where the result cannot be represented.
    pub fn checked_add(&self, span: Duration) -> (sum: Option<DateTime>)
        ensures
            match sum {
                Some(t) => t@ == self@ + span@,
                None => !representable(self@ + span@),
            },
    {
        let delta: i128 = span.secs as i128 * NANOS_PER_SEC;
        match self.nanos.checked_add(delta) {
            Some(nanos) => Some(DateTime { nanos }),
            None => None,
        }
    }

    /// This instant moved by `span`.
    pub fn plus(&self, span: Duration) -> (sum: DateTime)
        requires
            representable(self@ + span@),
        ensures
            sum@ == self@ + span@,
    {
        let delta: i128 = span.secs as i128 * NANOS_PER_SEC;
        DateTime { nanos: self.nanos + delta }
    }
}

} // verus!
