//! Spans of time and moments in time.

use vstd::prelude::*;

verus! {

/// A moment in time, as the machine's monotonic clock gives it. Nothing here
/// looks into one; it is carried from where it was taken to where it is kept.
#[verifier::external_type_specification]
#[verifier::external_body]
pub struct ExInstant(std::time::Instant);

/// A span of time: whole seconds, and the nanoseconds beyond them.
#[derive(Debug, Clone, Copy, PartialEq, Eq, Structural)]
pub struct Duration {
    pub secs: u64,
    pub nanos: u32,
}

impl Duration {
    /// Whether fewer nanoseconds than a second's worth stand beyond the
    /// whole seconds.
    pub open spec fn wf(self) -> bool {
        self.nanos < 1_000_000_000
    }

    /// The whole span in nanoseconds.
    pub open spec fn spec_nanos(self) -> int {
        self.secs * 1_000_000_000 + self.nanos
    }

    /// `secs` seconds.
    pub open spec fn spec_from_secs(secs: u64) -> Duration {
        Duration { secs, nanos: 0 }
    }

    /// `millis` milliseconds.
    pub open spec fn spec_from_millis(millis: u64) -> Duration {
        Duration { secs: millis / 1000, nanos: ((millis % 1000) * 1_000_000) as u32 }
    }

    /// A span of `secs` seconds.
    pub fn from_secs(secs: u64) -> (r: Duration)
        ensures
            r == Self::spec_from_secs(secs),
            r.wf(),
            r.spec_nanos() == secs * 1_000_000_000,
    {
        Duration { secs, nanos: 0 }
    }

    /// A span of `millis` milliseconds.
    pub fn from_millis(millis: u64) -> (r: Duration)
        ensures
            r == Self::spec_from_millis(millis),
            r.wf(),
            r.spec_nanos() == millis * 1_000_000,
    {
        Duration { secs: millis / 1000, nanos: ((millis % 1000) * 1_000_000) as u32 }
    }

    /// The whole seconds of the span.
    #[must_use]
    pub fn as_secs(&self) -> (r: u64)
        ensures
            r == self.secs,
            self.wf() ==> r == self.spec_nanos() / 1_000_000_000,
    {
        self.secs
    }

    /// The nanoseconds beyond the whole seconds of the span.
    #[must_use]
    pub fn subsec_nanos(&self) -> (r: u32)
        ensures
            r == self.nanos,
            self.wf() ==> r == self.spec_nanos() % 1_000_000_000,
    {
        self.nanos
    }
}

} // verus!
